use vstd::prelude::*;
use crate::event::Event;
use crate::status::{ap_view, clone_ap, same_ap, ConnectedAp, FastStatus, SampleRate};
use crate::monitor::{after_event, preset_nanos, FastCommand, MonitorView};
use crate::window::{law_trim_drops_a_stale_prefix, law_trim_keeps_the_newest, Nanos};

verus! {

/// How often the sampler asks for a reading. The driver refreshes RSSI about once per beacon
/// interval (~100 ms), so this oversamples a little and the trace shows short plateaus.
pub const FAST_SAMPLE_INTERVAL_NANOS: Nanos = 50_000_000;

/// How often the sampler re-checks that the adapter is still associated with the target AP.
pub const STATUS_CHECK_INTERVAL_NANOS: Nanos = 2_000_000_000;

/// What asking the WLAN session for the associated access point gave.
#[derive(Debug)]
pub enum Probe {
    /// The session could not be opened; the message says why.
    SessionError(String),
    /// The adapter is associated with this access point.
    Connected(ConnectedAp),
    /// The adapter is associated with no access point (or the platform cannot tell).
    NotConnected,
}

/// The access point a probe found.
pub open spec fn probe_target(probe: Probe) -> Option<ConnectedAp> {
    match probe {
        Probe::Connected(ap) => Some(ap),
        _ => None,
    }
}

/// The rate reported when nothing has been measured yet: one reading per sampling interval.
pub open spec fn nominal_rate() -> SampleRate {
    SampleRate { samples: 1, over_nanos: FAST_SAMPLE_INTERVAL_NANOS }
}

/// The rate measured since the previous check: the readings taken over the time elapsed, when
/// there was a previous check, some reading, and some time; the nominal rate otherwise.
pub open spec fn measured_rate(last_check: Option<Nanos>, now: Nanos, samples: u32) -> SampleRate {
    match last_check {
        Some(at) => if samples > 0 && now > at {
            SampleRate { samples, over_nanos: (now - at) as Nanos }
        } else {
            nominal_rate()
        },
        None => nominal_rate(),
    }
}

/// The status a probe gives: sampling at `rate` when associated; not connected when the
/// platform can read a live RSSI but no AP is associated; unsupported when it cannot; the
/// session's error when there is no session.
pub open spec fn probe_status(probe: Probe, rate: SampleRate, fast_path_supported: bool) -> FastStatus {
    match probe {
        Probe::SessionError(e) => FastStatus::Error(e),
        Probe::Connected(_) => FastStatus::Sampling { rate },
        Probe::NotConnected => if fast_path_supported {
            FastStatus::NotConnected
        } else {
            FastStatus::Unsupported
        },
    }
}

/// What a check of the association made at `now` with `probe` does: a changed target gets
/// the next generation number and is announced first; the status follows. Sampling goes on
/// exactly when the status is `Sampling`, the check is recorded as the last one, and the count
/// of readings starts again.
pub open spec fn check_post(
    before: FastSampler,
    now: Nanos,
    probe: Probe,
    fast_path_supported: bool,
    after: FastSampler,
    events: Seq<Event>,
) -> bool {
    let status = probe_status(
        probe,
        measured_rate(before.last_check(), now, before.samples_since_check()),
        fast_path_supported,
    );
    let connected = probe_target(probe);
    let changed = ap_view(connected) != ap_view(before.target());
    &&& after.target() == (if changed {
        connected
    } else {
        before.target()
    })
    &&& after.generation() == (if changed {
        (before.generation() + 1) as u64
    } else {
        before.generation()
    })
    &&& after.on_target() == (status is Sampling)
    &&& after.last_check() == Some(now)
    &&& after.samples_since_check() == 0
    &&& events == (if changed {
        seq![
            Event::FastTarget { target: connected, generation: after.generation() },
            Event::FastStatus(status),
        ]
    } else {
        seq![Event::FastStatus(status)]
    })
}

/// The decisions of the fast sampler, which owns the WLAN session for the lifetime of the
/// program and samples the targeted AP as fast as the driver allows. The caller runs the loop:
/// it waits one sampling interval, asks `check_due`, probes the session and hands the result to
/// `check` when a check is due, and reads the RSSI and hands it to `record_sample` when
/// `wants_sample` says so; it sends every event returned, in order, and stops at the first
/// that cannot be sent.
#[derive(Debug)]
pub struct FastSampler {
    target: Option<ConnectedAp>,
    generation: u64,
    on_target: bool,
    last_check: Option<Nanos>,
    samples_since_check: u32,
}

impl FastSampler {
    /// The access point being sampled.
    pub closed spec fn target(&self) -> Option<ConnectedAp> {
        self.target
    }

    /// The number of the current target; it grows by one each time the target changes.
    pub closed spec fn generation(&self) -> u64 {
        self.generation
    }

    /// Whether the last check found an access point to sample.
    pub closed spec fn on_target(&self) -> bool {
        self.on_target
    }

    /// When the last check happened.
    pub closed spec fn last_check(&self) -> Option<Nanos> {
        self.last_check
    }

    /// The readings taken since the last check.
    pub closed spec fn samples_since_check(&self) -> u32 {
        self.samples_since_check
    }

    /// A sampler that has checked nothing yet.
    pub fn new() -> (r: Self)
        ensures
            r.target() is None,
            r.generation() == 0,
            !r.on_target(),
            r.last_check() is None,
            r.samples_since_check() == 0,
    {
        FastSampler {
            target: None,
            generation: 0,
            on_target: false,
            last_check: None,
            samples_since_check: 0,
        }
    }

    /// The number of the current target.
    pub fn current_generation(&self) -> (r: u64)
        ensures
            r == self.generation(),
    {
        self.generation
    }

    /// The readings taken since the last check.
    pub fn readings_since_check(&self) -> (r: u32)
        ensures
            r == self.samples_since_check(),
    {
        self.samples_since_check
    }

    /// Whether a check of the association is due at `now`: never checked, or the status-check
    /// interval has passed since the last check.
    pub fn check_due(&self, now: Nanos) -> (r: bool)
        ensures
            r == (match self.last_check() {
                None => true,
                Some(at) => now.saturating_sub(at) >= STATUS_CHECK_INTERVAL_NANOS,
            }),
    {
        match self.last_check {
            None => true,
            Some(at) => now.saturating_sub(at) >= STATUS_CHECK_INTERVAL_NANOS,
        }
    }

    /// Whether a check with this probe would change the target.
    pub fn would_retarget(&self, probe: &Probe) -> (r: bool)
        ensures
            r == (ap_view(probe_target(*probe)) != ap_view(self.target())),
    {
        let connected = match probe {
            Probe::Connected(ap) => Some(ap.clone()),
            _ => None,
        };
        !same_ap(&connected, &self.target)
    }

    /// Records a check of the association made at `now`. A changed target gets the next
    /// generation number and is announced first; the status follows. Sampling goes on exactly
    /// when the status is `Sampling`, and the count of readings starts again.
    pub fn check(&mut self, now: Nanos, probe: Probe, fast_path_supported: bool) -> (r: Vec<Event>)
        requires
            ap_view(probe_target(probe)) != ap_view(old(self).target()) ==> old(self).generation()
                < u64::MAX,
        ensures
            check_post(*old(self), now, probe, fast_path_supported, *final(self), r@),
    {
        let rate = match self.last_check {
            Some(at) => {
                if self.samples_since_check > 0 && now > at {
                    SampleRate { samples: self.samples_since_check, over_nanos: now - at }
                } else {
                    SampleRate { samples: 1, over_nanos: FAST_SAMPLE_INTERVAL_NANOS }
                }
            },
            None => SampleRate { samples: 1, over_nanos: FAST_SAMPLE_INTERVAL_NANOS },
        };
        self.last_check = Some(now);
        let (status, connected) = match probe {
            Probe::SessionError(e) => (FastStatus::Error(e), None),
            Probe::Connected(ap) => (FastStatus::Sampling { rate }, Some(ap)),
            Probe::NotConnected => {
                if fast_path_supported {
                    (FastStatus::NotConnected, None)
                } else {
                    (FastStatus::Unsupported, None)
                }
            },
        };
        let ghost st = status;
        let ghost conn = connected;
        let mut events: Vec<Event> = Vec::new();
        let changed = !same_ap(&connected, &self.target);
        if changed {
            self.generation = self.generation + 1;
            self.target = connected;
            events.push(Event::FastTarget { target: clone_ap(&self.target), generation: self.generation });
        }
        self.on_target = status.is_sampling();
        self.samples_since_check = 0;
        events.push(Event::FastStatus(status));
        proof {
            if changed {
                assert(events@ =~= seq![
                    Event::FastTarget { target: conn, generation: self.generation },
                    Event::FastStatus(st),
                ]);
            } else {
                assert(events@ =~= seq![Event::FastStatus(st)]);
            }
        }
        events
    }

    /// Whether a reading should be taken now.
    pub fn wants_sample(&self) -> (r: bool)
        ensures
            r == self.on_target(),
    {
        self.on_target
    }

    /// Records a reading of `dbm` for the current target; the event to send carries the
    /// target's generation number.
    pub fn record_sample(&mut self, dbm: i32) -> (r: Event)
        requires
            old(self).samples_since_check() < u32::MAX,
        ensures
            r == (Event::FastSample { generation: old(self).generation(), dbm }),
            final(self).samples_since_check() == old(self).samples_since_check() + 1,
            final(self).target() == old(self).target(),
            final(self).generation() == old(self).generation(),
            final(self).on_target() == old(self).on_target(),
            final(self).last_check() == old(self).last_check(),
    {
        self.samples_since_check = self.samples_since_check + 1;
        Event::FastSample { generation: self.generation, dbm }
    }
}

/// A check made while associated reports `Sampling` at the rate measured since the previous
/// check: the readings recorded since that check over the time elapsed since it, when there
/// was a previous check, some reading and some time; one reading per sampling interval
/// otherwise. The status is the last event of the check.
pub proof fn law_check_reports_the_rate_since_the_previous_check(
    before: FastSampler,
    now: Nanos,
    ap: ConnectedAp,
    fast_path_supported: bool,
    after: FastSampler,
    events: Seq<Event>,
)
    requires
        check_post(before, now, Probe::Connected(ap), fast_path_supported, after, events),
    ensures
        events.len() >= 1,
        match before.last_check() {
            Some(at) => before.samples_since_check() > 0 && now > at ==> events.last()
                == Event::FastStatus(
                FastStatus::Sampling {
                    rate: SampleRate {
                        samples: before.samples_since_check(),
                        over_nanos: (now - at) as Nanos,
                    },
                },
            ),
            None => true,
        },
        (match before.last_check() {
            Some(at) => before.samples_since_check() == 0 || now <= at,
            None => true,
        }) ==> events.last() == Event::FastStatus(
            FastStatus::Sampling {
                rate: SampleRate { samples: 1, over_nanos: FAST_SAMPLE_INTERVAL_NANOS },
            },
        ),
{
}

/// What a check reports, whatever the probe: its status is the last event (an error carries
/// the session's message; with no access point the status is `NotConnected` where the platform
/// can read a live RSSI and `Unsupported` where it cannot); sampling goes on exactly when an
/// access point was found; an access point other than the current target is announced first,
/// as the new target under the next generation number, and otherwise nothing else is sent; the
/// check becomes the last one and the count of readings starts again.
pub proof fn law_check_reports_what_the_probe_found(
    before: FastSampler,
    now: Nanos,
    probe: Probe,
    fast_path_supported: bool,
    after: FastSampler,
    events: Seq<Event>,
)
    requires
        check_post(before, now, probe, fast_path_supported, after, events),
        ap_view(probe_target(probe)) != ap_view(before.target()) ==> before.generation()
            < u64::MAX,
    ensures
        events.len() == 1 || events.len() == 2,
        events.last() is FastStatus,
        probe matches Probe::SessionError(e) ==> events.last() == Event::FastStatus(
            FastStatus::Error(e),
        ),
        probe is NotConnected && fast_path_supported ==> events.last() == Event::FastStatus(
            FastStatus::NotConnected,
        ),
        probe is NotConnected && !fast_path_supported ==> events.last() == Event::FastStatus(
            FastStatus::Unsupported,
        ),
        probe is Connected ==> events.last() matches Event::FastStatus(FastStatus::Sampling { .. }),
        after.on_target() == (probe is Connected),
        after.last_check() == Some(now),
        after.samples_since_check() == 0,
        probe matches Probe::Connected(ap) ==> (ap_view(before.target()) == Some(ap@) <==> events.len()
            == 1),
        !(probe is Connected) ==> (before.target() is None <==> events.len() == 1),
        events.len() == 2 ==> {
            &&& events[0] == Event::FastTarget {
                target: match probe {
                    Probe::Connected(ap) => Some(ap),
                    _ => None,
                },
                generation: (before.generation() + 1) as u64,
            }
            &&& after.generation() == before.generation() + 1
        },
        events.len() == 1 ==> after.generation() == before.generation() && ap_view(after.target())
            == ap_view(before.target()),
{
}

/// A reading taken for an earlier target never lands in the series once the application has
/// seen the target that a check announced, while a reading for the announced target does: the
/// series restarts empty under the new generation number, a sample carrying any earlier number
/// leaves the state as it is, and a sample carrying the new number becomes the newest sample.
pub proof fn law_readings_from_an_earlier_target_never_land(
    before: FastSampler,
    now: Nanos,
    probe: Probe,
    fast_path_supported: bool,
    after: FastSampler,
    events: Seq<Event>,
    v: MonitorView,
    seen_at: Nanos,
    earlier: u64,
    dbm: i32,
    at: Nanos,
)
    requires
        check_post(before, now, probe, fast_path_supported, after, events),
        ap_view(probe_target(probe)) != ap_view(before.target()),
        before.generation() < u64::MAX,
        earlier <= before.generation(),
    ensures
        ({
            let v2 = after_event(v, events[0], seen_at).0;
            &&& v2.samples.len() == 0
            &&& v2.generation == after.generation()
            &&& after_event(v2, Event::FastSample { generation: earlier, dbm }, at) == (
                v2,
                None::<FastCommand>,
            )
            &&& after_event(v2, Event::FastSample { generation: after.generation(), dbm }, at).0.samples
                == seq![(at, dbm)]
        }),
{
    let v2 = after_event(v, events[0], seen_at).0;
    let e = Event::FastSample { generation: after.generation(), dbm };
    let pushed = v2.samples.push((at, dbm));
    let width = preset_nanos(v2.window_idx);
    // The new series holds just the one reading, and trimming keeps the newest.
    law_trim_keeps_the_newest(pushed, width);
    law_trim_drops_a_stale_prefix(pushed, width);
    assert(after_event(v2, e, at).0.samples =~= seq![(at, dbm)]);
}

/// One step of the sampler loop: a check of the association, or a reading of the RSSI.
#[derive(Debug)]
pub enum SamplerStep {
    Check { now: Nanos, probe: Probe, fast_path_supported: bool },
    Reading { dbm: i32 },
}

/// What `record_sample` does: one more reading counted, the rest unchanged, and one sample
/// event that carries the current generation.
pub open spec fn record_post(before: FastSampler, dbm: i32, after: FastSampler, events: Seq<Event>) -> bool {
    &&& events == seq![Event::FastSample { generation: before.generation(), dbm }]
    &&& after.samples_since_check() == before.samples_since_check() + 1
    &&& after.target() == before.target()
    &&& after.generation() == before.generation()
    &&& after.on_target() == before.on_target()
    &&& after.last_check() == before.last_check()
}

/// A step of the loop as the caller makes it: a check, with the generation number left room to
/// grow when the target changes; or a reading, taken only while the sampler wants one.
pub open spec fn step_post(before: FastSampler, step: SamplerStep, after: FastSampler, events: Seq<Event>) -> bool {
    match step {
        SamplerStep::Check { now, probe, fast_path_supported } => {
            &&& (ap_view(probe_target(probe)) != ap_view(before.target()) ==> before.generation()
                < u64::MAX)
            &&& check_post(before, now, probe, fast_path_supported, after, events)
        },
        SamplerStep::Reading { dbm } => {
            &&& before.on_target()
            &&& before.samples_since_check() < u32::MAX
            &&& record_post(before, dbm, after, events)
        },
    }
}

/// `states[i + 1]` and `chunks[i]` are the sampler and the events that `steps[i]` gives from
/// `states[i]`.
pub open spec fn is_run(states: Seq<FastSampler>, steps: Seq<SamplerStep>, chunks: Seq<Seq<Event>>) -> bool {
    &&& states.len() == steps.len() + 1
    &&& chunks.len() == steps.len()
    &&& forall|i: int| 0 <= i < steps.len() ==> step_post(states[i], #[trigger] steps[i], states[i + 1], chunks[i])
}

/// A sampler as `FastSampler::new` makes it, as far as the events it sends depend on.
pub open spec fn starts_fresh(s: FastSampler) -> bool {
    &&& s.target() is None
    &&& s.generation() == 0
    &&& !s.on_target()
}

/// The events of a run, in the order they are sent.
pub open spec fn run_events(chunks: Seq<Seq<Event>>) -> Seq<Event>
    decreases chunks.len(),
{
    if chunks.len() == 0 {
        Seq::empty()
    } else {
        run_events(chunks.drop_last()) + chunks.last()
    }
}

/// The number of target announcements among the events.
pub open spec fn target_count(e: Seq<Event>) -> nat
    decreases e.len(),
{
    if e.len() == 0 {
        0
    } else {
        target_count(e.drop_last()) + if e.last() is FastTarget {
            1nat
        } else {
            0nat
        }
    }
}

/// The last target announcement among the events: the target and its generation.
pub open spec fn last_target(e: Seq<Event>) -> Option<(Option<ConnectedAp>, u64)>
    decreases e.len(),
{
    if e.len() == 0 {
        None
    } else {
        match e.last() {
            Event::FastTarget { target, generation } => Some((target, generation)),
            _ => last_target(e.drop_last()),
        }
    }
}

/// The target last announced among the events (none before the first announcement).
pub open spec fn previous_target(e: Seq<Event>) -> Option<ConnectedAp> {
    match last_target(e) {
        Some((t, _)) => t,
        None => None,
    }
}

/// The last status among the events.
pub open spec fn last_status(e: Seq<Event>) -> Option<FastStatus>
    decreases e.len(),
{
    if e.len() == 0 {
        None
    } else {
        match e.last() {
            Event::FastStatus(status) => Some(status),
            _ => last_status(e.drop_last()),
        }
    }
}

/// Every target announcement is numbered one past the announcements before it, names a
/// target other than the one announced before it (none before the first), and is directly
/// followed by a status.
pub open spec fn announcements_well_numbered(e: Seq<Event>) -> bool {
    forall|i: int|
        0 <= i < e.len() ==> (#[trigger] e[i] matches Event::FastTarget { target, generation } ==> {
            &&& generation == target_count(e.take(i)) + 1
            &&& ap_view(target) != ap_view(previous_target(e.take(i)))
            &&& i + 1 < e.len()
            &&& e[i + 1] is FastStatus
        })
}

/// Every sample follows an announcement of an access point under the sample's generation
/// number, and a `Sampling` status.
pub open spec fn readings_follow_their_target(e: Seq<Event>) -> bool {
    forall|i: int|
        0 <= i < e.len() ==> (#[trigger] e[i] matches Event::FastSample { generation, dbm } ==> {
            &&& last_target(e.take(i)) matches Some((t, g))
            &&& g == generation
            &&& t is Some
            &&& last_status(e.take(i)) matches Some(FastStatus::Sampling { .. })
        })
}

/// Every sample carries a strength that a reading step of the run took.
pub open spec fn readings_come_from(e: Seq<Event>, steps: Seq<SamplerStep>) -> bool {
    forall|i: int|
        0 <= i < e.len() ==> (#[trigger] e[i] matches Event::FastSample { dbm, .. } ==> exists|j: int|
            0 <= j < steps.len() && #[trigger] steps[j] == (SamplerStep::Reading { dbm }))
}

/// What holds of the sampler after the events of a run so far.
pub open spec fn run_invariant(s: FastSampler, e: Seq<Event>) -> bool {
    &&& target_count(e) == s.generation()
    &&& (last_target(e) is None <==> target_count(e) == 0)
    &&& (target_count(e) == 0 ==> s.target() is None)
    &&& (target_count(e) > 0 ==> last_target(e) == Some((s.target(), s.generation())))
    &&& (s.on_target() ==> s.target() is Some && last_status(e) matches Some(
        FastStatus::Sampling { .. },
    ))
}

/// Over a whole run of the sampler from its start, the k-th target announcement carries
/// generation k, names a target other than the one announced before it (none before the
/// first), and is directly followed by a status.
pub proof fn law_announcements_number_the_targets(
    states: Seq<FastSampler>,
    steps: Seq<SamplerStep>,
    chunks: Seq<Seq<Event>>,
)
    requires
        is_run(states, steps, chunks),
        starts_fresh(states[0]),
    ensures
        announcements_well_numbered(run_events(chunks)),
{
    lemma_run_prefix(states, steps, chunks, steps.len() as int);
    assert(chunks.take(steps.len() as int) =~= chunks);
}

/// Over a whole run of the sampler from its start, every sample event follows an announcement
/// of an access point under the sample's generation number and a `Sampling` status, and carries
/// a strength that a reading step took.
pub proof fn law_readings_follow_their_target(
    states: Seq<FastSampler>,
    steps: Seq<SamplerStep>,
    chunks: Seq<Seq<Event>>,
)
    requires
        is_run(states, steps, chunks),
        starts_fresh(states[0]),
    ensures
        readings_follow_their_target(run_events(chunks)),
        readings_come_from(run_events(chunks), steps),
{
    lemma_run_prefix(states, steps, chunks, steps.len() as int);
    assert(chunks.take(steps.len() as int) =~= chunks);
}

proof fn lemma_push_event(e: Seq<Event>, x: Event)
    ensures
        e.push(x).drop_last() == e,
        e.push(x).last() == x,
        target_count(e.push(x)) == target_count(e) + if x is FastTarget {
            1nat
        } else {
            0nat
        },
        last_target(e.push(x)) == (match x {
            Event::FastTarget { target, generation } => Some((target, generation)),
            _ => last_target(e),
        }),
        last_status(e.push(x)) == (match x {
            Event::FastStatus(status) => Some(status),
            _ => last_status(e),
        }),
{
    assert(e.push(x).drop_last() =~= e);
}

proof fn lemma_run_prefix(
    states: Seq<FastSampler>,
    steps: Seq<SamplerStep>,
    chunks: Seq<Seq<Event>>,
    n: int,
)
    requires
        is_run(states, steps, chunks),
        starts_fresh(states[0]),
        0 <= n <= steps.len(),
    ensures
        run_invariant(states[n], run_events(chunks.take(n))),
        announcements_well_numbered(run_events(chunks.take(n))),
        readings_follow_their_target(run_events(chunks.take(n))),
        readings_come_from(run_events(chunks.take(n)), steps),
    decreases n,
{
    if n == 0 {
        assert(chunks.take(0) =~= Seq::<Seq<Event>>::empty());
        assert(run_events(chunks.take(0)) =~= Seq::<Event>::empty());
    } else {
        lemma_run_prefix(states, steps, chunks, n - 1);
        assert(chunks.take(n).drop_last() =~= chunks.take(n - 1));
        assert(chunks.take(n).last() == chunks[n - 1]);
        assert(step_post(states[n - 1], steps[n - 1], states[n], chunks[n - 1]));
        lemma_extend_run(
            run_events(chunks.take(n - 1)),
            chunks[n - 1],
            states[n - 1],
            steps[n - 1],
            states[n],
            steps,
            n - 1,
        );
    }
}

#[verifier::rlimit(40)]
proof fn lemma_extend_run(
    e: Seq<Event>,
    c: Seq<Event>,
    before: FastSampler,
    step: SamplerStep,
    after: FastSampler,
    steps: Seq<SamplerStep>,
    j: int,
)
    requires
        run_invariant(before, e),
        announcements_well_numbered(e),
        readings_follow_their_target(e),
        readings_come_from(e, steps),
        step_post(before, step, after, c),
        0 <= j < steps.len(),
        steps[j] == step,
    ensures
        run_invariant(after, e + c),
        announcements_well_numbered(e + c),
        readings_follow_their_target(e + c),
        readings_come_from(e + c, steps),
{
    let e2 = e + c;
    assert forall|i: int| 0 <= i < e.len() implies e2[i] == e[i] && e2.take(i) == e.take(i) by {
        assert(e2.take(i) =~= e.take(i));
    }
    match step {
        SamplerStep::Check { now, probe, fast_path_supported } => {
            let status = probe_status(
                probe,
                measured_rate(before.last_check(), now, before.samples_since_check()),
                fast_path_supported,
            );
            let connected = probe_target(probe);
            let changed = ap_view(connected) != ap_view(before.target());
            let fs = Event::FastStatus(status);
            if changed {
                let ft = Event::FastTarget { target: connected, generation: after.generation() };
                let e1 = e.push(ft);
                assert(e2 =~= e1.push(fs));
                lemma_push_event(e, ft);
                lemma_push_event(e1, fs);
                assert(e2.take(e.len() as int) =~= e);
                assert(e2[e.len() as int] == ft);
                assert(e2[e.len() as int + 1] == fs);
                assert(previous_target(e) == before.target());
            } else {
                assert(e2 =~= e.push(fs));
                lemma_push_event(e, fs);
                assert(e2[e.len() as int] == fs);
                if after.on_target() {
                    assert(connected is Some);
                }
            }
        },
        SamplerStep::Reading { dbm } => {
            let fsample = Event::FastSample { generation: before.generation(), dbm };
            assert(e2 =~= e.push(fsample));
            lemma_push_event(e, fsample);
            assert(e2.take(e.len() as int) =~= e);
            assert(e2[e.len() as int] == fsample);
            assert(steps[j] == (SamplerStep::Reading { dbm }));
        },
    }
}

} // verus!
