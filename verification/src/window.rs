use vstd::prelude::*;
use std::collections::VecDeque;

verus! {

/// A point in time or a span of time, in whole nanoseconds.
pub type Nanos = u128;

/// The largest number of nanoseconds a `std::time::Duration` can hold
/// (`u64::MAX` seconds and 999 999 999 nanoseconds).
pub const DURATION_MAX_NANOS: u128 = 18_446_744_073_709_551_615_999_999_999;

/// One RSSI reading: when it was taken and its strength in dBm.
pub type Sample = (Nanos, i32);

/// `t` lies more than `window` behind `newest` (a sample taken after `newest` is never stale).
pub open spec fn is_stale(t: Nanos, newest: Nanos, window: Nanos) -> bool {
    newest > t && newest - t > window
}

/// Drops the leading samples that are stale with respect to `newest`, stopping at the first
/// one that is not.
pub open spec fn drop_stale(s: Seq<Sample>, newest: Nanos, window: Nanos) -> Seq<Sample>
    decreases s.len(),
{
    if s.len() > 0 && is_stale(s[0].0, newest, window) {
        drop_stale(s.drop_first(), newest, window)
    } else {
        s
    }
}

/// The samples of `s` that survive trimming to `window` behind the newest (last) sample.
pub open spec fn trimmed(s: Seq<Sample>, window: Nanos) -> Seq<Sample> {
    if s.len() == 0 {
        s
    } else {
        drop_stale(s, s.last().0, window)
    }
}

/// The number of leading samples that `drop_stale` removes.
pub open spec fn stale_prefix_len(s: Seq<Sample>, newest: Nanos, window: Nanos) -> nat
    decreases s.len(),
{
    if s.len() > 0 && is_stale(s[0].0, newest, window) {
        1 + stale_prefix_len(s.drop_first(), newest, window)
    } else {
        0
    }
}

/// Samples are in time order: no sample is older than one before it.
pub open spec fn in_time_order(s: Seq<Sample>) -> bool {
    forall|i: int, j: int| 0 <= i <= j < s.len() ==> s[i].0 <= s[j].0
}

/// The time of the newest sample, or zero when there is none.
pub open spec fn newest_time(s: Seq<Sample>) -> Nanos {
    if s.len() == 0 {
        0
    } else {
        s.last().0
    }
}

/// The smallest strength among the samples.
pub open spec fn min_dbm(s: Seq<Sample>) -> int
    recommends
        s.len() > 0,
    decreases s.len(),
{
    if s.len() <= 1 {
        s[0].1 as int
    } else {
        let m = min_dbm(s.drop_last());
        if s.last().1 < m {
            s.last().1 as int
        } else {
            m
        }
    }
}

/// The largest strength among the samples.
pub open spec fn max_dbm(s: Seq<Sample>) -> int
    recommends
        s.len() > 0,
    decreases s.len(),
{
    if s.len() <= 1 {
        s[0].1 as int
    } else {
        let m = max_dbm(s.drop_last());
        if s.last().1 > m {
            s.last().1 as int
        } else {
            m
        }
    }
}

/// A strength limited to the plausible range of -100 dBm to 0 dBm.
pub open spec fn clamp_dbm(v: int) -> int {
    if v < -100 {
        -100
    } else if v > 0 {
        0
    } else {
        v
    }
}

/// The vertical bounds of the chart, in half-dBm (so that a centre between two whole dBm values
/// is exact): the true minimum and maximum padded by 2 dBm and clamped to -100..0 dBm; where
/// that spans less than 10 dBm, a 10 dBm range centred on it, the centre kept inside -95..-5 dBm.
/// With no samples, the whole -100..0 dBm range.
pub open spec fn y_bounds(s: Seq<Sample>) -> (int, int) {
    if s.len() == 0 {
        (-200, 0)
    } else {
        let lo = if min_dbm(s) - 2 < -100 { -100 } else { min_dbm(s) - 2 };
        let hi = if max_dbm(s) + 2 > 0 { 0 } else { max_dbm(s) + 2 };
        if hi - lo < 10 {
            let mid2 = if lo + hi < -190 {
                -190
            } else if lo + hi > -10 {
                -10
            } else {
                lo + hi
            };
            (mid2 - 10, mid2 + 10)
        } else {
            (2 * lo, 2 * hi)
        }
    }
}

/// A rolling time window of RSSI samples.
#[derive(Debug)]
pub struct SampleWindow {
    window: Nanos,
    data: VecDeque<Sample>,
}

impl View for SampleWindow {
    type V = Seq<Sample>;

    closed spec fn view(&self) -> Seq<Sample> {
        self.data@
    }
}

impl SampleWindow {
    /// The width of the window, in nanoseconds.
    pub closed spec fn span(&self) -> Nanos {
        self.window
    }

    #[verifier::type_invariant]
    closed spec fn inv(&self) -> bool {
        &&& self.window <= DURATION_MAX_NANOS
        &&& forall|i: int| 0 <= i < self.data@.len() ==> #[trigger] self.data@[i].0 <= DURATION_MAX_NANOS
    }

    /// An empty window of the given width.
    pub fn new(window: Nanos) -> (r: Self)
        requires
            window <= DURATION_MAX_NANOS,
        ensures
            r@ == Seq::<Sample>::empty(),
            r.span() == window,
    {
        SampleWindow { window, data: VecDeque::new() }
    }

    /// Appends a sample and drops what falls out of the window behind it.
    pub fn push(&mut self, at: Nanos, dbm: i32)
        requires
            at <= DURATION_MAX_NANOS,
        ensures
            final(self)@ == trimmed(old(self)@.push((at, dbm)), old(self).span()),
            final(self).span() == old(self).span(),
            final(self)@.len() > 0,
            final(self)@.last() == (at, dbm),
    {
        proof {
            use_type_invariant(&*self);
        }
        let mut data: VecDeque<Sample> = VecDeque::new();
        std::mem::swap(&mut data, &mut self.data);
        data.push_back((at, dbm));
        std::mem::swap(&mut data, &mut self.data);
        self.trim();
        proof {
            lemma_trim_keeps_newest(old(self)@.push((at, dbm)), old(self).span());
        }
    }

    /// Changes the width of the window and drops at once what falls out of it.
    pub fn set_window(&mut self, window: Nanos)
        requires
            window <= DURATION_MAX_NANOS,
        ensures
            final(self)@ == trimmed(old(self)@, window),
            final(self).span() == window,
    {
        proof {
            use_type_invariant(&*self);
        }
        self.window = window;
        self.trim();
    }

    /// Removes every sample; the width stays.
    pub fn clear(&mut self)
        ensures
            final(self)@ == Seq::<Sample>::empty(),
            final(self).span() == old(self).span(),
    {
        proof {
            use_type_invariant(&*self);
        }
        let mut data: VecDeque<Sample> = VecDeque::new();
        std::mem::swap(&mut data, &mut self.data);
    }

    /// The number of samples held.
    pub fn len(&self) -> (r: usize)
        ensures
            r == self@.len(),
    {
        self.data.len()
    }

    /// The width of the window, in nanoseconds.
    pub fn window(&self) -> (r: Nanos)
        ensures
            r == self.span(),
    {
        self.window
    }

    /// The oldest sample held.
    pub fn oldest(&self) -> (r: Option<Sample>)
        ensures
            r == (if self@.len() == 0 { None } else { Some(self@[0]) }),
    {
        if self.data.len() == 0 {
            None
        } else {
            Some(self.data[0])
        }
    }

    /// The newest sample held.
    pub fn newest(&self) -> (r: Option<Sample>)
        ensures
            r == (if self@.len() == 0 { None } else { Some(self@.last()) }),
    {
        let n = self.data.len();
        if n == 0 {
            None
        } else {
            Some(self.data[n - 1])
        }
    }

    /// The samples held, oldest first.
    pub fn samples(&self) -> (r: Vec<Sample>)
        ensures
            r@ == self@,
    {
        let mut out: Vec<Sample> = Vec::new();
        let n = self.data.len();
        for i in 0..n
            invariant
                n == self.data@.len(),
                out@ == self.data@.take(i as int),
        {
            out.push(self.data[i]);
            assert(out@ =~= self.data@.take(i + 1));
        }
        assert(self.data@.take(n as int) =~= self.data@);
        out
    }

    /// The horizontal bounds of the chart, in nanoseconds: a window of constant width that ends
    /// at the newest sample (at zero when there is none), so the axis scrolls instead of
    /// stretching as data accumulates.
    pub fn bounds_x_nanos(&self) -> (r: (i128, i128))
        ensures
            r.0 == newest_time(self@) - self.span(),
            r.1 == newest_time(self@),
            self@.len() > 0 ==> r.1 == self@.last().0 && r.0 == self@.last().0 - self.span(),
            self@.len() == 0 ==> r.1 == 0 && r.0 == -self.span(),
            r.1 - r.0 == self.span(),
    {
        proof {
            use_type_invariant(self);
        }
        let n = self.data.len();
        let newest: u128 = if n == 0 { 0 } else { self.data[n - 1].0 };
        let end = newest as i128;
        let start = end - self.window as i128;
        (start, end)
    }

    /// The vertical bounds of the chart, in half-dBm (see `y_bounds`). They never leave the
    /// -100..0 dBm range, never span less than 10 dBm, and hold every sample once it is clamped
    /// to that range.
    pub fn bounds_y_half_dbm(&self) -> (r: (i64, i64))
        ensures
            (r.0 as int, r.1 as int) == y_bounds(self@),
            -200 <= r.0,
            r.1 <= 0,
            r.1 - r.0 >= 20,
            forall|i: int|
                0 <= i < self@.len() ==> r.0 <= 2 * clamp_dbm(#[trigger] self@[i].1 as int) <= r.1,
    {
        proof {
            lemma_y_bounds_cover(self@);
        }
        let n = self.data.len();
        if n == 0 {
            return (-200, 0);
        }
        let mut mn: i32 = self.data[0].1;
        let mut mx: i32 = self.data[0].1;
        assert(self.data@.take(1).drop_last() =~= Seq::<Sample>::empty());
        for i in 1..n
            invariant
                n == self.data@.len(),
                n > 0,
                mn == min_dbm(self.data@.take(i as int)),
                mx == max_dbm(self.data@.take(i as int)),
        {
            let v = self.data[i].1;
            assert(self.data@.take(i + 1).drop_last() =~= self.data@.take(i as int));
            if v < mn {
                mn = v;
            }
            if v > mx {
                mx = v;
            }
        }
        assert(self.data@.take(n as int) =~= self.data@);
        let mut lo: i64 = mn as i64 - 2;
        if lo < -100 {
            lo = -100;
        }
        let mut hi: i64 = mx as i64 + 2;
        if hi > 0 {
            hi = 0;
        }
        if hi - lo < 10 {
            let mut mid2: i64 = lo + hi;
            if mid2 < -190 {
                mid2 = -190;
            } else if mid2 > -10 {
                mid2 = -10;
            }
            (mid2 - 10, mid2 + 10)
        } else {
            (2 * lo, 2 * hi)
        }
    }

    /// Drops everything older than the window behind the newest sample: the leading samples
    /// that lie more than the window behind it, up to the first one that does not.
    pub fn trim(&mut self)
        ensures
            final(self)@ == trimmed(old(self)@, old(self).span()),
            final(self).span() == old(self).span(),
    {
        proof { use_type_invariant(&*self); }
        let n = self.data.len();
        if n == 0 {
            return;
        }
        let newest = self.data[n - 1].0;
        let mut data: VecDeque<Sample> = VecDeque::new();
        std::mem::swap(&mut data, &mut self.data);
        let ghost start = data@;
        while data.len() > 0
            invariant_except_break
                drop_stale(data@, newest, self.window) == drop_stale(start, newest, self.window),
                forall|i: int| 0 <= i < data@.len() ==> #[trigger] data@[i].0 <= DURATION_MAX_NANOS,
            ensures
                data@ == drop_stale(start, newest, self.window),
                forall|i: int| 0 <= i < data@.len() ==> #[trigger] data@[i].0 <= DURATION_MAX_NANOS,
            decreases data.len(),
        {
            let oldest = data[0].0;
            if newest.saturating_sub(oldest) > self.window {
                let ghost before = data@;
                data.pop_front();
                assert(data@ =~= before.drop_first());
                assert forall|i: int| 0 <= i < data@.len() implies #[trigger] data@[i].0 <= DURATION_MAX_NANOS by {
                    assert(data@[i] == before[i + 1]);
                }
            } else {
                break;
            }
        }
        std::mem::swap(&mut data, &mut self.data);
    }
}

/// The x axis ends at the time of the sample just pushed: whatever was held and whatever the
/// width, after a push the newest time is that of the new sample.
pub proof fn law_x_axis_ends_at_the_sample_pushed(s: Seq<Sample>, at: Nanos, dbm: i32, window: Nanos)
    ensures
        newest_time(trimmed(s.push((at, dbm)), window)) == at,
{
    lemma_trim_keeps_newest(s.push((at, dbm)), window);
}

/// For samples in time order that a trim to `window` keeps whole (as the samples of a window
/// are after pushes in time order), every sample lies on the x axis: no earlier than the
/// newest less the width, no later than the newest.
pub proof fn law_x_axis_shows_every_sample(s: Seq<Sample>, window: Nanos)
    requires
        s.len() > 0,
        in_time_order(s),
        trimmed(s, window) == s,
    ensures
        forall|i: int|
            0 <= i < s.len() ==> s.last().0 - window <= #[trigger] s[i].0 <= s.last().0,
        newest_time(s) == s.last().0,
{
    lemma_drop_stale_is_suffix(s, s.last().0, window);
    assert forall|i: int| 0 <= i < s.len() implies s.last().0 - window <= #[trigger] s[i].0
        <= s.last().0 by {
        assert(s[i].0 <= s[s.len() - 1].0);
        assert(!is_stale(s[0].0, s.last().0, window));
        assert(s[0].0 <= s[i].0);
    }
}

/// The vertical bounds pad the true extremes of the samples: with `lo` the lowest strength less
/// 2 dBm and `hi` the highest plus 2 dBm, each clamped to -100..0 dBm, the bounds are exactly
/// `lo..hi` where that spans at least 10 dBm, and otherwise a 10 dBm range centred on it, the
/// centre kept inside -95..-5 dBm. The lowest and the highest strength are those of samples,
/// and no sample is below the one or above the other. (In half-dBm.)
pub proof fn law_y_bounds_pad_the_extremes(s: Seq<Sample>)
    requires
        s.len() > 0,
    ensures
        exists|i: int, j: int|
            #![trigger s[i], s[j]]
            0 <= i < s.len() && 0 <= j < s.len() && (forall|k: int|
                0 <= k < s.len() ==> s[i].1 <= #[trigger] s[k].1 <= s[j].1) && {
                let lo = if 2 * s[i].1 - 4 < -200 {
                    -200
                } else {
                    2 * s[i].1 - 4
                };
                let hi = if 2 * s[j].1 + 4 > 0 {
                    0
                } else {
                    2 * s[j].1 + 4
                };
                let c = if (lo + hi) / 2 < -190 {
                    -190
                } else if (lo + hi) / 2 > -10 {
                    -10
                } else {
                    (lo + hi) / 2
                };
                y_bounds(s) == if hi - lo >= 20 {
                    (lo, hi)
                } else {
                    (c - 10, c + 10)
                }
            },
{
    lemma_min_max_attained(s);
    lemma_min_max_bound(s);
    let i = choose|i: int| 0 <= i < s.len() && s[i].1 == min_dbm(s);
    let j = choose|j: int| 0 <= j < s.len() && s[j].1 == max_dbm(s);
    assert(forall|k: int| 0 <= k < s.len() ==> s[i].1 <= #[trigger] s[k].1 <= s[j].1);
    let lo = if 2 * s[i].1 - 4 < -200 {
        -200
    } else {
        2 * s[i].1 - 4
    };
    let hi = if 2 * s[j].1 + 4 > 0 {
        0
    } else {
        2 * s[j].1 + 4
    };
    let c = if (lo + hi) / 2 < -190 {
        -190
    } else if (lo + hi) / 2 > -10 {
        -10
    } else {
        (lo + hi) / 2
    };
    let l = if min_dbm(s) - 2 < -100 { -100 } else { min_dbm(s) - 2 };
    let h = if max_dbm(s) + 2 > 0 { 0 } else { max_dbm(s) + 2 };
    assert(lo == 2 * l);
    assert(hi == 2 * h);
    assert((lo + hi) / 2 == l + h);
    assert(y_bounds(s) == if hi - lo >= 20 {
        (lo, hi)
    } else {
        (c - 10, c + 10)
    });
}

/// Trimming removes a prefix and nothing else: what remains is `s` without its first `k`
/// samples, those `k` are all stale behind the newest sample, and the first one kept is not.
pub proof fn law_trim_drops_a_stale_prefix(s: Seq<Sample>, window: Nanos)
    requires
        s.len() > 0,
    ensures
        0 < trimmed(s, window).len() <= s.len(),
        trimmed(s, window) == s.skip(s.len() - trimmed(s, window).len()),
        forall|i: int|
            0 <= i < s.len() - trimmed(s, window).len() ==> is_stale(
                #[trigger] s[i].0,
                s.last().0,
                window,
            ),
        !is_stale(trimmed(s, window)[0].0, s.last().0, window),
{
    lemma_drop_stale_is_suffix(s, s.last().0, window);
}

/// The newest sample is never dropped by trimming.
pub proof fn law_trim_keeps_the_newest(s: Seq<Sample>, window: Nanos)
    requires
        s.len() > 0,
    ensures
        trimmed(s, window).len() > 0,
        trimmed(s, window).last() == s.last(),
{
    lemma_trim_keeps_newest(s, window);
}

/// For samples in time order, trimming drops exactly the samples that lie more than the window
/// behind the newest one: every sample kept is within the window, every sample dropped is not.
pub proof fn law_trim_keeps_exactly_the_recent(s: Seq<Sample>, window: Nanos)
    requires
        s.len() > 0,
        in_time_order(s),
    ensures
        trimmed(s, window) == s.skip(s.len() - trimmed(s, window).len()),
        forall|i: int|
            0 <= i < s.len() ==> (is_stale(#[trigger] s[i].0, s.last().0, window) <==> i < s.len()
                - trimmed(s, window).len()),
        forall|i: int|
            0 <= i < s.len() ==> (s.last().0 - #[trigger] s[i].0 > window <==> i < s.len()
                - trimmed(s, window).len()),
        0 < trimmed(s, window).len() <= s.len(),
{
    lemma_drop_stale_is_suffix(s, s.last().0, window);
    assert(s[0].0 <= s.last().0);
    let k = stale_prefix_len(s, s.last().0, window);
    assert forall|i: int| 0 <= i < s.len() implies (is_stale(
        #[trigger] s[i].0,
        s.last().0,
        window,
    ) <==> i < s.len() - trimmed(s, window).len()) by {
        if i >= k {
            assert(s[k as int].0 <= s[i].0);
        }
    }
}

/// Trimming keeps samples that are in time order in time order.
pub proof fn law_trim_keeps_time_order(s: Seq<Sample>, window: Nanos)
    requires
        in_time_order(s),
    ensures
        in_time_order(trimmed(s, window)),
{
    if s.len() > 0 {
        lemma_drop_stale_is_suffix(s, s.last().0, window);
        let k = stale_prefix_len(s, s.last().0, window) as int;
        assert forall|i: int, j: int|
            0 <= i <= j < trimmed(s, window).len() implies trimmed(s, window)[i].0 <= trimmed(
            s,
            window,
        )[j].0 by {
            assert(trimmed(s, window)[i] == s[i + k]);
            assert(trimmed(s, window)[j] == s[j + k]);
        }
    }
}

/// Appending a sample no older than the newest one keeps the samples in time order.
pub proof fn law_push_in_order_keeps_time_order(s: Seq<Sample>, at: Nanos, dbm: i32)
    requires
        in_time_order(s),
        s.len() == 0 || s.last().0 <= at,
    ensures
        in_time_order(s.push((at, dbm))),
{
    assert forall|i: int, j: int| 0 <= i <= j < s.push((at, dbm)).len() implies s.push(
        (at, dbm),
    )[i].0 <= s.push((at, dbm))[j].0 by {
        if j == s.len() && i < j {
            assert(s[i].0 <= s.last().0);
        }
    }
}

/// Samples already trimmed to a window survive trimming again to that window or any wider
/// one: widening the window drops nothing, and trimming twice is trimming once.
pub proof fn law_widening_drops_nothing(s: Seq<Sample>, window: Nanos, wider: Nanos)
    requires
        window <= wider,
    ensures
        trimmed(trimmed(s, window), wider) == trimmed(s, window),
{
    if s.len() > 0 {
        lemma_drop_stale_is_suffix(s, s.last().0, window);
        lemma_trim_keeps_newest(s, window);
        let t = trimmed(s, window);
        assert(!is_stale(t[0].0, s.last().0, window));
        assert(!is_stale(t[0].0, t.last().0, wider));
    }
}

proof fn lemma_trim_keeps_newest(s: Seq<Sample>, window: Nanos)
    requires
        s.len() > 0,
    ensures
        trimmed(s, window).len() > 0,
        trimmed(s, window).last() == s.last(),
{
    lemma_drop_stale_is_suffix(s, s.last().0, window);
}

proof fn lemma_drop_stale_is_suffix(s: Seq<Sample>, newest: Nanos, window: Nanos)
    ensures
        stale_prefix_len(s, newest, window) <= s.len(),
        drop_stale(s, newest, window) == s.skip(stale_prefix_len(s, newest, window) as int),
        forall|i: int|
            0 <= i < stale_prefix_len(s, newest, window) ==> is_stale(#[trigger] s[i].0, newest, window),
        stale_prefix_len(s, newest, window) < s.len() ==> !is_stale(
            s[stale_prefix_len(s, newest, window) as int].0,
            newest,
            window,
        ),
        s.len() > 0 && !is_stale(s.last().0, newest, window) ==> stale_prefix_len(s, newest, window)
            < s.len(),
    decreases s.len(),
{
    if s.len() > 0 && is_stale(s[0].0, newest, window) {
        lemma_drop_stale_is_suffix(s.drop_first(), newest, window);
        assert(s.drop_first().skip(stale_prefix_len(s.drop_first(), newest, window) as int) =~= s.skip(
            stale_prefix_len(s, newest, window) as int,
        ));
        assert forall|i: int|
            0 <= i < stale_prefix_len(s, newest, window) implies is_stale(
            #[trigger] s[i].0,
            newest,
            window,
        ) by {
            if i > 0 {
                assert(s[i] == s.drop_first()[i - 1]);
            }
        }
        if s.len() > 1 {
            assert(s.drop_first().last() == s.last());
        }
    } else {
        assert(s.skip(0) =~= s);
    }
}

proof fn lemma_min_max_bound(s: Seq<Sample>)
    requires
        s.len() > 0,
    ensures
        forall|i: int| 0 <= i < s.len() ==> min_dbm(s) <= #[trigger] s[i].1 <= max_dbm(s),
    decreases s.len(),
{
    if s.len() > 1 {
        lemma_min_max_bound(s.drop_last());
        assert forall|i: int| 0 <= i < s.len() implies min_dbm(s) <= #[trigger] s[i].1 <= max_dbm(
            s,
        ) by {
            if i < s.len() - 1 {
                assert(s[i] == s.drop_last()[i]);
            }
        }
    }
}

proof fn lemma_min_max_attained(s: Seq<Sample>)
    requires
        s.len() > 0,
    ensures
        exists|i: int| 0 <= i < s.len() && s[i].1 == min_dbm(s),
        exists|j: int| 0 <= j < s.len() && s[j].1 == max_dbm(s),
    decreases s.len(),
{
    if s.len() == 1 {
        assert(s[0].1 == min_dbm(s));
        assert(s[0].1 == max_dbm(s));
    } else {
        lemma_min_max_attained(s.drop_last());
        let i = choose|i: int| 0 <= i < s.drop_last().len() && s.drop_last()[i].1 == min_dbm(
            s.drop_last(),
        );
        let j = choose|j: int| 0 <= j < s.drop_last().len() && s.drop_last()[j].1 == max_dbm(
            s.drop_last(),
        );
        assert(s[i] == s.drop_last()[i]);
        assert(s[j] == s.drop_last()[j]);
        let n = s.len() - 1;
        if s.last().1 < min_dbm(s.drop_last()) {
            assert(s[n].1 == min_dbm(s));
        } else {
            assert(s[i].1 == min_dbm(s));
        }
        if s.last().1 > max_dbm(s.drop_last()) {
            assert(s[n].1 == max_dbm(s));
        } else {
            assert(s[j].1 == max_dbm(s));
        }
    }
}

proof fn lemma_y_bounds_cover(s: Seq<Sample>)
    ensures
        -200 <= y_bounds(s).0,
        y_bounds(s).1 <= 0,
        y_bounds(s).1 - y_bounds(s).0 >= 20,
        forall|i: int|
            0 <= i < s.len() ==> y_bounds(s).0 <= 2 * clamp_dbm(#[trigger] s[i].1 as int) <= y_bounds(
                s,
            ).1,
{
    if s.len() > 0 {
        lemma_min_max_bound(s);
    }
}

} // verus!
