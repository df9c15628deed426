use vstd::prelude::*;
use vstd::utf8::{decode_utf8, valid_utf8};

verus! {

/// A network found by a scan: its SSID and its signal strength in dBm.
#[derive(Debug)]
pub struct WifiResult {
    pub ssid: String,
    /// RSSI in dBm.
    pub signal_strength: i32,
}

/// A scanner of the networks around; it holds no state.
#[derive(Debug)]
pub struct WifiScanner {}

/// Whether `c` is a Unicode `White_Space` character, as `char::is_whitespace` decides: tab, line
/// feed, vertical tab, form feed, carriage return, space, next line, no-break space, ogham space
/// mark, the spaces from en quad to hair space, line separator, paragraph separator, narrow
/// no-break space, medium mathematical space and ideographic space.
pub open spec fn is_ws(c: char) -> bool {
    let n = c as u32;
    ||| 0x09 <= n <= 0x0D
    ||| n == 0x20
    ||| n == 0x85
    ||| n == 0xA0
    ||| n == 0x1680
    ||| 0x2000 <= n <= 0x200A
    ||| n == 0x2028
    ||| n == 0x2029
    ||| n == 0x202F
    ||| n == 0x205F
    ||| n == 0x3000
}

/// Whether `c` is a Unicode `White_Space` character.
pub fn is_whitespace_char(c: char) -> (r: bool)
    ensures
        r == is_ws(c),
{
    let n = c as u32;
    (0x09 <= n && n <= 0x0D) || n == 0x20 || n == 0x85 || n == 0xA0 || n == 0x1680 || (0x2000 <= n
        && n <= 0x200A) || n == 0x2028 || n == 0x2029 || n == 0x202F || n == 0x205F || n == 0x3000
}

/// The first position at or after `i` that does not hold whitespace (or the end).
pub open spec fn skip_ws_from(s: Seq<char>, i: int) -> int
    decreases s.len() - i,
{
    if 0 <= i < s.len() && is_ws(s[i]) {
        skip_ws_from(s, i + 1)
    } else {
        i
    }
}

/// The first position at or after `i` that holds whitespace (or the end).
pub open spec fn skip_word_from(s: Seq<char>, i: int) -> int
    decreases s.len() - i,
{
    if 0 <= i < s.len() && !is_ws(s[i]) {
        skip_word_from(s, i + 1)
    } else {
        i
    }
}

/// The second whitespace-separated word of a line, if it has two.
pub open spec fn second_word(line: Seq<char>) -> Option<Seq<char>> {
    let a0 = skip_ws_from(line, 0);
    let b0 = skip_word_from(line, a0);
    let a1 = skip_ws_from(line, b0);
    if a0 >= line.len() || a1 >= line.len() {
        None
    } else {
        Some(line.subrange(a1, skip_word_from(line, a1)))
    }
}

/// Whether the line, with its leading whitespace taken off, starts with `p`. (For a `p` without
/// whitespace this is what trimming both ends and testing the start decides.)
pub open spec fn starts_after_ws(line: Seq<char>, p: Seq<char>) -> bool {
    let a = skip_ws_from(line, 0);
    a + p.len() <= line.len() && line.subrange(a, a + p.len()) == p
}

/// The end of the line that starts at `pos`: the first line feed at or after it, or the end.
pub open spec fn line_end(s: Seq<char>, pos: int) -> int
    decreases s.len() - pos,
{
    if 0 <= pos < s.len() && s[pos] != '\n' {
        line_end(s, pos + 1)
    } else {
        pos
    }
}

/// The `k`-th parsed signal reading, if there is one and it parsed.
pub open spec fn signal_at(signals: Seq<Option<i32>>, k: int) -> Option<i32> {
    if 0 <= k < signals.len() {
        signals[k]
    } else {
        None
    }
}

/// The network found when the SSID seen is the target and a signal was read.
pub open spec fn matched(ssid: Option<Seq<char>>, signal: Option<i32>, target: Seq<char>) -> Option<
    (Seq<char>, i32),
> {
    match (ssid, signal) {
        (Some(x), Some(v)) => if x == target {
            Some((x, v))
        } else {
            None
        },
        _ => None,
    }
}

/// What one line of a scan dump does to the parse, given the SSID and signal seen so far in the
/// current BSS section and the count `k` of signal readings met so far: the network found
/// (which ends the parse), and the SSID, signal and count to go on with. An `SSID:` line sets
/// the SSID to its second word; a `signal:` line with a second word takes the `k`-th reading
/// when it parsed; a `BSS` line that ends a section with an SSID reports the section when it
/// is the target's and has a signal, and otherwise starts afresh.
pub open spec fn line_step(
    line: Seq<char>,
    target: Seq<char>,
    signals: Seq<Option<i32>>,
    ssid: Option<Seq<char>>,
    signal: Option<i32>,
    k: int,
) -> (Option<(Seq<char>, i32)>, Option<Seq<char>>, Option<i32>, int) {
    if starts_after_ws(line, "SSID:"@) {
        (
            None,
            match second_word(line) {
                Some(w) => Some(w),
                None => ssid,
            },
            signal,
            k,
        )
    } else if starts_after_ws(line, "signal:"@) {
        match second_word(line) {
            Some(_) => (
                None,
                ssid,
                match signal_at(signals, k) {
                    Some(v) => Some(v),
                    None => signal,
                },
                k + 1,
            ),
            None => (None, ssid, signal, k),
        }
    } else if starts_after_ws(line, "BSS"@) && ssid is Some {
        if matched(ssid, signal, target) is Some {
            (matched(ssid, signal, target), ssid, signal, k)
        } else {
            (None, None, None, k)
        }
    } else {
        (None, ssid, signal, k)
    }
}

/// The parse of a scan dump from the line that starts at `pos` on.
pub open spec fn dump_from(
    s: Seq<char>,
    pos: int,
    target: Seq<char>,
    signals: Seq<Option<i32>>,
    ssid: Option<Seq<char>>,
    signal: Option<i32>,
    k: int,
) -> Option<(Seq<char>, i32)>
    decreases s.len() - pos,
{
    if pos < 0 || pos > s.len() {
        None
    } else {
        let e = line_end(s, pos);
        let st = line_step(s.subrange(pos, e), target, signals, ssid, signal, k);
        if st.0 is Some {
            st.0
        } else if e >= s.len() {
            matched(st.1, st.2, target)
        } else {
            proof {
                lemma_line_end_bounds(s, pos);
            }
            dump_from(s, e + 1, target, signals, st.1, st.2, st.3)
        }
    }
}

/// The network named `target` in a dump of the kernel's BSS cache (the output of
/// `iw dev wlan0 scan dump`), line by line as `line_step` says, with the end of the dump
/// ending the last section. `signals` holds, in order, the readings parsed from the second
/// words of the `signal:` lines (`None` where one did not parse).
pub open spec fn scan_dump_result(text: Seq<char>, target: Seq<char>, signals: Seq<Option<i32>>) -> Option<
    (Seq<char>, i32),
> {
    dump_from(text, 0, target, signals, None, None, 0)
}

/// The second words of the `signal:` lines from the line that starts at `pos` on.
pub open spec fn signal_words_from(s: Seq<char>, pos: int) -> Seq<Seq<char>>
    decreases s.len() - pos,
{
    if pos < 0 || pos > s.len() {
        Seq::empty()
    } else {
        let e = line_end(s, pos);
        let line = s.subrange(pos, e);
        let here = if !starts_after_ws(line, "SSID:"@) && starts_after_ws(line, "signal:"@)
            && second_word(line) is Some {
            seq![second_word(line)->0]
        } else {
            Seq::empty()
        };
        if e >= s.len() {
            here
        } else {
            proof {
                lemma_line_end_bounds(s, pos);
            }
            here + signal_words_from(s, e + 1)
        }
    }
}

pub proof fn lemma_line_end_bounds(s: Seq<char>, pos: int)
    requires
        0 <= pos <= s.len(),
    ensures
        pos <= line_end(s, pos) <= s.len(),
        line_end(s, pos) < s.len() ==> s[line_end(s, pos)] == '\n',
    decreases s.len() - pos,
{
    if pos < s.len() && s[pos] != '\n' {
        lemma_line_end_bounds(s, pos + 1);
    }
}

proof fn lemma_skip_bounds(s: Seq<char>, i: int)
    requires
        0 <= i <= s.len(),
    ensures
        i <= skip_ws_from(s, i) <= s.len(),
        i <= skip_word_from(s, i) <= s.len(),
    decreases s.len() - i,
{
    if i < s.len() {
        lemma_skip_bounds(s, i + 1);
    }
}

/// Whether some `SSID:` line, from the line that starts at `pos` on, has `target` as its
/// second word.
pub open spec fn names_target_from(s: Seq<char>, pos: int, target: Seq<char>) -> bool
    decreases s.len() - pos,
{
    if pos < 0 || pos > s.len() {
        false
    } else {
        let e = line_end(s, pos);
        let line = s.subrange(pos, e);
        if starts_after_ws(line, "SSID:"@) && second_word(line) == Some(target) {
            true
        } else if e >= s.len() {
            false
        } else {
            proof {
                lemma_line_end_bounds(s, pos);
            }
            names_target_from(s, e + 1, target)
        }
    }
}

/// Whether `v` is one of the parsed readings.
pub open spec fn is_reading(signals: Seq<Option<i32>>, v: i32) -> bool {
    exists|k: int| 0 <= k < signals.len() && signals[k] == Some(v)
}

/// A network reported from a scan dump is the target, and only where the dump names it: some
/// `SSID:` line of the dump has exactly the target as its second word (an SSID that merely
/// starts with the target does not count), and the strength reported is one of the readings.
/// A dump with no `SSID:` line naming the target yields nothing.
pub proof fn law_a_reported_network_is_named_in_the_dump(
    text: Seq<char>,
    target: Seq<char>,
    signals: Seq<Option<i32>>,
)
    ensures
        scan_dump_result(text, target, signals) matches Some((x, v)) ==> x == target
            && names_target_from(text, 0, target) && is_reading(signals, v),
        !names_target_from(text, 0, target) ==> scan_dump_result(text, target, signals) is None,
{
    lemma_dump_reports_target(text, 0, target, signals, None, None, 0);
}

/// A network reported from a scan dump is always the target: whatever the dump, the readings
/// and the point reached, the parse names no other SSID.
pub proof fn law_a_reported_network_is_the_target(
    text: Seq<char>,
    target: Seq<char>,
    signals: Seq<Option<i32>>,
)
    ensures
        scan_dump_result(text, target, signals) matches Some((x, _)) ==> x == target,
{
    lemma_dump_reports_target(text, 0, target, signals, None, None, 0);
}

proof fn lemma_dump_reports_target(
    s: Seq<char>,
    pos: int,
    target: Seq<char>,
    signals: Seq<Option<i32>>,
    ssid: Option<Seq<char>>,
    signal: Option<i32>,
    k: int,
)
    ensures
        dump_from(s, pos, target, signals, ssid, signal, k) matches Some((x, v)) ==> {
            &&& x == target
            &&& ssid == Some(target) || names_target_from(s, pos, target)
            &&& signal == Some(v) || is_reading(signals, v)
        },
    decreases s.len() - pos,
{
    if 0 <= pos <= s.len() {
        let e = line_end(s, pos);
        lemma_line_end_bounds(s, pos);
        let line = s.subrange(pos, e);
        let st = line_step(line, target, signals, ssid, signal, k);
        if st.0 is None && e < s.len() {
            lemma_dump_reports_target(s, e + 1, target, signals, st.1, st.2, st.3);
        }
        if !starts_after_ws(line, "SSID:"@) && starts_after_ws(line, "signal:"@) && second_word(
            line,
        ) is Some && signal_at(signals, k) is Some {
            assert(signals[k] == signal_at(signals, k));
        }
    }
}

/// The characters of a string, in order.
pub fn text_chars(s: &str) -> (r: Vec<char>)
    ensures
        r@ == s@,
{
    broadcast use vstd::string::group_string_axioms;

    let mut v: Vec<char> = Vec::new();
    for c in it: s.chars()
        invariant
            v@ == it.seq().take(it.index()),
            it.seq() == s@,
    {
        v.push(c);
    }
    v
}

fn find_line_end(s: &Vec<char>, pos: usize) -> (e: usize)
    requires
        pos <= s.len(),
    ensures
        e == line_end(s@, pos as int),
        pos <= e <= s.len(),
{
    let mut i = pos;
    while i < s.len() && s[i] != '\n'
        invariant
            pos <= i <= s.len(),
            line_end(s@, i as int) == line_end(s@, pos as int),
        decreases s.len() - i,
    {
        i = i + 1;
    }
    i
}

fn slice_chars(s: &Vec<char>, a: usize, b: usize) -> (r: Vec<char>)
    requires
        a <= b <= s.len(),
    ensures
        r@ == s@.subrange(a as int, b as int),
{
    let mut out: Vec<char> = Vec::new();
    let mut i = a;
    while i < b
        invariant
            a <= i <= b <= s.len(),
            out@ == s@.subrange(a as int, i as int),
        decreases b - i,
    {
        out.push(s[i]);
        i = i + 1;
        assert(out@ =~= s@.subrange(a as int, i as int));
    }
    out
}

fn skip_ws(line: &Vec<char>, i: usize) -> (r: usize)
    requires
        i <= line.len(),
    ensures
        r == skip_ws_from(line@, i as int),
        i <= r <= line.len(),
{
    let mut j = i;
    while j < line.len() && is_whitespace_char(line[j])
        invariant
            i <= j <= line.len(),
            skip_ws_from(line@, j as int) == skip_ws_from(line@, i as int),
        decreases line.len() - j,
    {
        j = j + 1;
    }
    j
}

fn skip_word(line: &Vec<char>, i: usize) -> (r: usize)
    requires
        i <= line.len(),
    ensures
        r == skip_word_from(line@, i as int),
        i <= r <= line.len(),
{
    let mut j = i;
    while j < line.len() && !is_whitespace_char(line[j])
        invariant
            i <= j <= line.len(),
            skip_word_from(line@, j as int) == skip_word_from(line@, i as int),
        decreases line.len() - j,
    {
        j = j + 1;
    }
    j
}

fn second_word_range(line: &Vec<char>) -> (r: Option<(usize, usize)>)
    ensures
        match r {
            Some((a, b)) => a <= b <= line.len() && second_word(line@) == Some(
                line@.subrange(a as int, b as int),
            ),
            None => second_word(line@) is None,
        },
{
    let a0 = skip_ws(line, 0);
    let b0 = skip_word(line, a0);
    let a1 = skip_ws(line, b0);
    if a0 >= line.len() || a1 >= line.len() {
        None
    } else {
        let b1 = skip_word(line, a1);
        Some((a1, b1))
    }
}

fn line_starts_with(line: &Vec<char>, p: &Vec<char>) -> (r: bool)
    ensures
        r == starts_after_ws(line@, p@),
{
    let a = skip_ws(line, 0);
    if p.len() > line.len() - a {
        return false;
    }
    let mut i: usize = 0;
    while i < p.len()
        invariant
            a == skip_ws_from(line@, 0),
            a + p.len() <= line.len(),
            i <= p.len(),
            forall|j: int| 0 <= j < i ==> line@[a + j] == p@[j],
        decreases p.len() - i,
    {
        if line[a + i] != p[i] {
            assert(line@.subrange(a as int, a + p.len())[i as int] != p@[i as int]);
            return false;
        }
        i = i + 1;
    }
    assert(line@.subrange(a as int, a + p.len()) =~= p@);
    true
}

fn range_equals(s: &Vec<char>, a: usize, b: usize, t: &Vec<char>) -> (r: bool)
    requires
        a <= b <= s.len(),
    ensures
        r == (s@.subrange(a as int, b as int) == t@),
{
    if b - a != t.len() {
        return false;
    }
    let mut i: usize = 0;
    while i < t.len()
        invariant
            a + t.len() == b <= s.len(),
            i <= t.len(),
            forall|j: int| 0 <= j < i ==> s@[a + j] == t@[j],
        decreases t.len() - i,
    {
        if s[a + i] != t[i] {
            assert(s@.subrange(a as int, b as int)[i as int] != t@[i as int]);
            return false;
        }
        i = i + 1;
    }
    assert(s@.subrange(a as int, b as int) =~= t@);
    true
}

/// The text of an SSID kept as a range of characters.
pub open spec fn range_text(s: Seq<char>, r: Option<(usize, usize)>) -> Option<Seq<char>> {
    match r {
        Some((a, b)) => Some(s.subrange(a as int, b as int)),
        None => None,
    }
}

/// The network named `target` in a dump of the kernel's BSS cache (see `scan_dump_result`).
/// `signals` holds the readings parsed from the words that `signal_tokens` gives for the same
/// dump, in the same order.
pub fn parse_scan_dump(text: &str, target: &str, signals: &Vec<Option<i32>>) -> (r: Option<WifiResult>)
    ensures
        match r {
            Some(w) => scan_dump_result(text@, target@, signals@) == Some(
                (w.ssid@, w.signal_strength),
            ),
            None => scan_dump_result(text@, target@, signals@) is None,
        },
{
    let s = text_chars(text);
    let tgt = text_chars(target);
    let p_ssid = text_chars("SSID:");
    let p_signal = text_chars("signal:");
    let p_bss = text_chars("BSS");
    proof {
        reveal_strlit("signal:");
    }
    let mut pos: usize = 0;
    let mut ssid: Option<(usize, usize)> = None;
    let mut signal: Option<i32> = None;
    let mut k: usize = 0;
    loop
        invariant
            s@ == text@,
            tgt@ == target@,
            p_ssid@ == "SSID:"@,
            p_signal@ == "signal:"@,
            p_bss@ == "BSS"@,
            p_signal@.len() == 7,
            pos <= s.len(),
            k <= pos,
            ssid matches Some((a, b)) ==> a <= b <= s.len(),
            dump_from(s@, pos as int, tgt@, signals@, range_text(s@, ssid), signal, k as int)
                == scan_dump_result(s@, tgt@, signals@),
        decreases s.len() - pos,
    {
        let e = find_line_end(&s, pos);
        let line = slice_chars(&s, pos, e);
        if line_starts_with(&line, &p_ssid) {
            match second_word_range(&line) {
                Some((a, b)) => {
                    assert(s@.subrange(pos + a, pos + b) =~= line@.subrange(a as int, b as int));
                    ssid = Some((pos + a, pos + b));
                },
                None => {},
            }
        } else if line_starts_with(&line, &p_signal) {
            if second_word_range(&line).is_some() {
                if k < signals.len() {
                    match signals[k] {
                        Some(v) => {
                            signal = Some(v);
                        },
                        None => {},
                    }
                }
                k = k + 1;
            }
        } else if line_starts_with(&line, &p_bss) && ssid.is_some() {
            match ssid {
                Some((a, b)) => {
                    if range_equals(&s, a, b, &tgt) {
                        match signal {
                            Some(v) => {
                                return Some(
                                    WifiResult { ssid: String::from_str(target), signal_strength: v },
                                );
                            },
                            None => {},
                        }
                    }
                },
                None => {},
            }
            ssid = None;
            signal = None;
        }
        if e >= s.len() {
            match (ssid, signal) {
                (Some((a, b)), Some(v)) => {
                    if range_equals(&s, a, b, &tgt) {
                        return Some(
                            WifiResult { ssid: String::from_str(target), signal_strength: v },
                        );
                    }
                },
                _ => {},
            }
            return None;
        }
        pos = e + 1;
    }
}

/// The second words of the `signal:` lines of a scan dump, in order: the readings that
/// `parse_scan_dump` takes, still as text.
pub fn signal_tokens(text: &str) -> (r: Vec<String>)
    ensures
        r@.map_values(|w: String| w@) == signal_words_from(text@, 0),
{
    let s = text_chars(text);
    let p_ssid = text_chars("SSID:");
    let p_signal = text_chars("signal:");
    let mut out: Vec<String> = Vec::new();
    let mut pos: usize = 0;
    assert(out@.map_values(|w: String| w@) =~= Seq::<Seq<char>>::empty());
    loop
        invariant
            s@ == text@,
            p_ssid@ == "SSID:"@,
            p_signal@ == "signal:"@,
            pos <= s.len(),
            out@.map_values(|w: String| w@) + signal_words_from(s@, pos as int) == signal_words_from(
                s@,
                0,
            ),
        decreases s.len() - pos,
    {
        let e = find_line_end(&s, pos);
        let line = slice_chars(&s, pos, e);
        let ghost before = out@.map_values(|w: String| w@);
        if !line_starts_with(&line, &p_ssid) && line_starts_with(&line, &p_signal) {
            match second_word_range(&line) {
                Some((a, b)) => {
                    assert(s@.subrange(pos + a, pos + b) =~= line@.subrange(a as int, b as int));
                    let w = text.substring_char(pos + a, pos + b);
                    out.push(String::from_str(w));
                    assert(out@.map_values(|w: String| w@) =~= before.push(
                        line@.subrange(a as int, b as int),
                    ));
                },
                None => {},
            }
        }
        if e >= s.len() {
            assert(out@.map_values(|w: String| w@) + Seq::<Seq<char>>::empty() =~= out@.map_values(
                |w: String| w@,
            ));
            return out;
        }
        pos = e + 1;
    }
}

/// The longest SSID, in bytes, that an 802.11 network can have.
pub const SSID_MAX_LEN: usize = 32;

/// Whether the first `length` bytes of a raw SSID name the target: the length is between one
/// and the maximum, and those bytes are valid UTF-8 that decodes to the target's text.
pub open spec fn raw_ssid_names(ssid: Seq<u8>, length: int, target: Seq<char>) -> bool {
    &&& 0 < length <= SSID_MAX_LEN
    &&& length <= ssid.len()
    &&& valid_utf8(ssid.take(length))
    &&& decode_utf8(ssid.take(length)) == target
}

/// Whether the first `length` bytes of a raw SSID name the target (see `raw_ssid_names`).
pub fn raw_ssid_matches(ssid: &[u8], length: usize, target: &str) -> (r: bool)
    ensures
        r == raw_ssid_names(ssid@, length as int, target@),
{
    broadcast use vstd::utf8::encode_utf8_valid_utf8, vstd::utf8::encode_utf8_decode_utf8;

    if length == 0 || length > SSID_MAX_LEN || length > ssid.len() {
        return false;
    }
    let tb = target.as_bytes();
    let names = if tb.len() != length {
        false
    } else {
        let mut i: usize = 0;
        let mut same = true;
        while i < length
            invariant
                length <= ssid@.len(),
                tb@.len() == length,
                i <= length,
                same == (forall|j: int| 0 <= j < i ==> ssid@[j] == tb@[j]),
            decreases length - i,
        {
            if ssid[i] != tb[i] {
                same = false;
            }
            i = i + 1;
        }
        same
    };
    proof {
        let taken = ssid@.take(length as int);
        if names {
            assert(taken =~= tb@);
        } else if raw_ssid_names(ssid@, length as int, target@) {
            vstd::utf8::decode_utf8_encode_utf8(taken);
            assert(taken == tb@);
            if tb@.len() == length {
                assert(forall|j: int| 0 <= j < length ==> ssid@[j] == tb@[j]) by {
                    assert forall|j: int| 0 <= j < length implies ssid@[j] == tb@[j] by {
                        assert(taken[j] == ssid@[j]);
                    }
                }
            }
        }
    }
    names
}

/// An available network as the Windows WLAN API lists it: the raw SSID buffer, the length of
/// the SSID in it, and the signal quality as a percentage.
#[derive(Debug)]
pub struct AvailableNetwork {
    pub ssid: Vec<u8>,
    pub length: usize,
    pub quality: u32,
}

/// The index of the first available network, from `i` on, whose raw SSID names the target.
pub open spec fn first_available(nets: Seq<AvailableNetwork>, target: Seq<char>, i: int) -> Option<int>
    decreases nets.len() - i,
{
    if i < 0 || i >= nets.len() {
        None
    } else if raw_ssid_names(nets[i].ssid@, nets[i].length as int, target) {
        Some(i)
    } else {
        first_available(nets, target, i + 1)
    }
}

/// The index of the first available network whose raw SSID names the target.
pub fn first_available_index(nets: &Vec<AvailableNetwork>, target: &str) -> (r: Option<usize>)
    ensures
        match r {
            Some(i) => first_available(nets@, target@, 0) == Some(i as int),
            None => first_available(nets@, target@, 0) is None,
        },
{
    let n = nets.len();
    for i in 0..n
        invariant
            n == nets@.len(),
            first_available(nets@, target@, i as int) == first_available(nets@, target@, 0),
    {
        if raw_ssid_matches(nets[i].ssid.as_slice(), nets[i].length, target) {
            return Some(i);
        }
    }
    None
}

/// The result for the target from the list of available networks that the Windows WLAN API
/// reports: the first network whose raw SSID names the target, with its signal quality taken
/// as dBm above -100; none when no network names it.
pub fn pick_available_network(nets: &Vec<AvailableNetwork>, target: &str) -> (r: Option<WifiResult>)
    requires
        first_available(nets@, target@, 0) matches Some(i) ==> nets@[i].quality as i32 >= i32::MIN
            + 100,
    ensures
        match first_available(nets@, target@, 0) {
            Some(i) => r matches Some(w) && w.ssid@ == target@ && w.signal_strength == nets@[i].quality
                as i32 - 100,
            None => r is None,
        },
{
    match first_available_index(nets, target) {
        Some(i) => {
            proof {
                lemma_first_available_bounds(nets@, target@, 0);
            }
            let q = nets[i].quality as i32;
            Some(WifiResult { ssid: String::from_str(target), signal_strength: q - 100 })
        },
        None => None,
    }
}

proof fn lemma_first_available_bounds(nets: Seq<AvailableNetwork>, target: Seq<char>, i: int)
    ensures
        first_available(nets, target, i) matches Some(j) ==> i <= j < nets.len(),
    decreases nets.len() - i,
{
    if 0 <= i < nets.len() && !raw_ssid_names(nets[i].ssid@, nets[i].length as int, target) {
        lemma_first_available_bounds(nets, target, i + 1);
    }
}

/// A network in the list that the `wifi_scan` crate reports: its SSID and its signal level
/// in dBm.
#[derive(Debug)]
pub struct ScannedNetwork {
    pub ssid: String,
    pub signal_level: i32,
}

/// The index of the first network of the list whose SSID is the target.
pub open spec fn first_named(found: Seq<ScannedNetwork>, target: Seq<char>, i: int) -> Option<int>
    decreases found.len() - i,
{
    if i < 0 || i >= found.len() {
        None
    } else if found[i].ssid@ == target {
        Some(i)
    } else {
        first_named(found, target, i + 1)
    }
}

/// The result for the target from a scan of the networks around: the first network of the
/// list with the target's SSID; none where the scan failed (`None`) or names no such network.
pub fn pick_scanned_network(found: Option<Vec<ScannedNetwork>>, target: &str) -> (r: Option<
    WifiResult,
>)
    ensures
        match found {
            Some(list) => match first_named(list@, target@, 0) {
                Some(i) => r matches Some(w) && w.ssid@ == target@ && w.signal_strength
                    == list@[i].signal_level,
                None => r is None,
            },
            None => r is None,
        },
{
    match &found {
        Some(list) => {
            let t = String::from_str(target);
            let n = list.len();
            for i in 0..n
                invariant
                    n == list@.len(),
                    found == Some(*list),
                    t@ == target@,
                    first_named(list@, target@, i as int) == first_named(list@, target@, 0),
            {
                if list[i].ssid == t {
                    return Some(
                        WifiResult {
                            ssid: String::from_str(target),
                            signal_strength: list[i].signal_level,
                        },
                    );
                }
            }
            None
        },
        None => None,
    }
}

/// Among ASCII characters, exactly space, tab, line feed, vertical tab, form feed and carriage
/// return are whitespace; letters, digits and the punctuation of a dump (`:`, `-`, `.`) are
/// not.
pub proof fn law_ascii_whitespace(c: char)
    ensures
        (c as u32) < 128 ==> (is_ws(c) <==> (c == ' ' || c == '\t' || c == '\n' || c == '\x0B'
            || c == '\x0C' || c == '\r')),
        ('a' <= c <= 'z' || 'A' <= c <= 'Z' || '0' <= c <= '9' || c == ':' || c == '-' || c
            == '.') ==> !is_ws(c),
{
}

/// The network picked from a scanned list is the first whose SSID is the target: an index
/// found names the target and no earlier network does; none is found only where no network
/// names it.
pub proof fn law_first_named_is_the_first_with_the_target(
    found: Seq<ScannedNetwork>,
    target: Seq<char>,
    i: int,
)
    requires
        0 <= i <= found.len(),
    ensures
        first_named(found, target, i) matches Some(j) ==> i <= j < found.len() && found[j].ssid@
            == target && forall|k: int| i <= k < j ==> (#[trigger] found[k]).ssid@ != target,
        first_named(found, target, i) is None ==> forall|k: int|
            i <= k < found.len() ==> (#[trigger] found[k]).ssid@ != target,
    decreases found.len() - i,
{
    if i < found.len() && found[i].ssid@ != target {
        law_first_named_is_the_first_with_the_target(found, target, i + 1);
    }
}

/// The network picked from the Windows list is the first whose raw SSID names the target: an
/// index found names the target and no earlier network does; none is found only where no
/// network names it.
pub proof fn law_first_available_is_the_first_with_the_target(
    nets: Seq<AvailableNetwork>,
    target: Seq<char>,
    i: int,
)
    requires
        0 <= i <= nets.len(),
    ensures
        first_available(nets, target, i) matches Some(j) ==> i <= j < nets.len() && raw_ssid_names(
            nets[j].ssid@,
            nets[j].length as int,
            target,
        ) && forall|k: int|
            i <= k < j ==> !raw_ssid_names(
                (#[trigger] nets[k]).ssid@,
                nets[k].length as int,
                target,
            ),
        first_available(nets, target, i) is None ==> forall|k: int|
            i <= k < nets.len() ==> !raw_ssid_names(
                (#[trigger] nets[k]).ssid@,
                nets[k].length as int,
                target,
            ),
    decreases nets.len() - i,
{
    if i < nets.len() && !raw_ssid_names(nets[i].ssid@, nets[i].length as int, target) {
        law_first_available_is_the_first_with_the_target(nets, target, i + 1);
    }
}

proof fn lemma_skip_chars(s: Seq<char>, i: int)
    requires
        0 <= i <= s.len(),
    ensures
        skip_ws_from(s, i) < s.len() ==> !is_ws(s[skip_ws_from(s, i)]),
        forall|j: int| i <= j < skip_word_from(s, i) ==> !is_ws(#[trigger] s[j]),
        i <= skip_word_from(s, i) <= s.len(),
        i < s.len() && !is_ws(s[i]) ==> skip_word_from(s, i) > i,
    decreases s.len() - i,
{
    if i < s.len() {
        lemma_skip_chars(s, i + 1);
    }
}

proof fn lemma_second_word_is_a_word(line: Seq<char>)
    ensures
        second_word(line) matches Some(w) ==> w.len() > 0 && forall|j: int|
            0 <= j < w.len() ==> !is_ws(#[trigger] w[j]),
{
    lemma_skip_bounds(line, 0);
    let a0 = skip_ws_from(line, 0);
    lemma_skip_bounds(line, a0);
    let b0 = skip_word_from(line, a0);
    lemma_skip_bounds(line, b0);
    let a1 = skip_ws_from(line, b0);
    if a0 < line.len() && a1 < line.len() {
        lemma_skip_chars(line, b0);
        lemma_skip_chars(line, a1);
        let w = line.subrange(a1, skip_word_from(line, a1));
        assert forall|j: int| 0 <= j < w.len() implies !is_ws(#[trigger] w[j]) by {
            assert(w[j] == line[a1 + j]);
        }
    }
}

/// Every reading token is a word: not empty and holding no whitespace.
pub proof fn law_signal_tokens_are_words(s: Seq<char>, pos: int)
    requires
        0 <= pos <= s.len(),
    ensures
        forall|t: int|
            0 <= t < signal_words_from(s, pos).len() ==> (#[trigger] signal_words_from(s, pos)[t]).len()
                > 0 && forall|j: int|
                0 <= j < signal_words_from(s, pos)[t].len() ==> !is_ws(
                    #[trigger] signal_words_from(s, pos)[t][j],
                ),
    decreases s.len() - pos,
{
    let e = line_end(s, pos);
    lemma_line_end_bounds(s, pos);
    let line = s.subrange(pos, e);
    lemma_second_word_is_a_word(line);
    let here = if !starts_after_ws(line, "SSID:"@) && starts_after_ws(line, "signal:"@)
        && second_word(line) is Some {
        seq![second_word(line)->0]
    } else {
        Seq::<Seq<char>>::empty()
    };
    if e < s.len() {
        law_signal_tokens_are_words(s, e + 1);
        let rest = signal_words_from(s, e + 1);
        assert(signal_words_from(s, pos) == here + rest);
        assert forall|t: int| 0 <= t < signal_words_from(s, pos).len() implies (
        #[trigger] signal_words_from(s, pos)[t]).len() > 0 && forall|j: int|
            0 <= j < signal_words_from(s, pos)[t].len() ==> !is_ws(
                #[trigger] signal_words_from(s, pos)[t][j],
            ) by {
            if t >= here.len() {
                assert(signal_words_from(s, pos)[t] == rest[t - here.len()]);
            }
        }
    }
}

} // verus!
