//! Worker IPC protocol.
//!
//! The orchestrator and the render worker speak line-delimited JSON: the
//! worker emits one event per line — `"StartMixing"`, then
//! `{"StartRender": total}`, then one `"Frame"` per encoded frame, then one
//! terminal `{"Done": seconds}`. This module gives the event type, its
//! canonical line encoding, a parser that accepts exactly the canonical
//! encodings, and the two protocol state machines: the worker session that
//! emits a well-ordered stream, and the orchestrator-side tracker that
//! consumes one.

use vstd::prelude::*;

use crate::text::{dec_str, dec_str_pad, digit_char, sec_str, str_eq, three_digits,
    u64_to_string};

verus! {

/// One event of the worker event stream. Times are integer milliseconds.
#[derive(Clone, Copy, Debug, PartialEq, Eq, Structural)]
pub enum IPCEvent {
    /// Audio mixdown has begun.
    StartMixing,
    /// Rendering has begun; carries the total frame count of the export.
    StartRender(u64),
    /// One frame has been encoded.
    Frame,
    /// The job finished; carries the elapsed wall time.
    Done(u64),
}

/// The canonical line encoding of an event.
pub open spec fn spec_encode(e: IPCEvent) -> Seq<char> {
    match e {
        IPCEvent::StartMixing => "\"StartMixing\""@,
        IPCEvent::StartRender(total) => "{\"StartRender\":"@ + dec_str(total as int) + "}"@,
        IPCEvent::Frame => "\"Frame\""@,
        IPCEvent::Done(ms) => "{\"Done\":"@ + sec_str(ms as int) + "}"@,
    }
}

/// Encodes an event as one line of the event stream.
pub fn encode_event(e: &IPCEvent) -> (r: String)
    ensures
        r@ == spec_encode(*e),
{
    match e {
        IPCEvent::StartMixing => String::from_str("\"StartMixing\""),
        IPCEvent::StartRender(total) => {
            let s = String::from_str("{\"StartRender\":");
            let s = s.concat(u64_to_string(*total).as_str());
            s.concat("}")
        },
        IPCEvent::Frame => String::from_str("\"Frame\""),
        IPCEvent::Done(ms) => {
            let s = String::from_str("{\"Done\":");
            let s = s.concat(crate::text::ms_to_sec_string(*ms).as_str());
            s.concat("}")
        },
    }
}

/// A decimal digit character.
pub open spec fn is_digit(c: char) -> bool {
    '0' <= c <= '9'
}

/// The value of a decimal digit character.
pub open spec fn digit_val(c: char) -> int {
    c as int - 48
}

/// The value of a digit string, most significant digit first.
pub open spec fn val_of(ds: Seq<char>) -> int
    decreases ds.len(),
{
    if ds.len() == 0 {
        0
    } else {
        val_of(ds.drop_last()) * 10 + digit_val(ds.last())
    }
}

/// Every character of a decimal digit string is a digit.
pub proof fn lemma_dec_str_digits(n: int)
    requires
        n >= 0,
    ensures
        forall|i: int| 0 <= i < dec_str(n).len() ==> is_digit(#[trigger] dec_str(n)[i]),
    decreases n,
{
    if n <= 9 {
        assert(is_digit(digit_char(n)));
    } else {
        lemma_dec_str_digits(n / 10);
        assert(is_digit(digit_char(n % 10)));
        assert(forall|i: int| 0 <= i < dec_str(n / 10).len() ==> dec_str(n)[i]
            == dec_str(n / 10)[i]);
    }
}

/// A digit character reads back as its digit.
pub proof fn lemma_digit_roundtrip(d: int)
    requires
        0 <= d <= 9,
    ensures
        digit_val(digit_char(d)) == d,
{
    assert('0' as int == 48 && '1' as int == 49 && '2' as int == 50 && '3' as int == 51
        && '4' as int == 52 && '5' as int == 53 && '6' as int == 54 && '7' as int == 55
        && '8' as int == 56 && '9' as int == 57);
}

/// Reading back the decimal digit string of `n` gives `n`.
pub proof fn lemma_val_of_dec_str(n: int)
    requires
        n >= 0,
    ensures
        val_of(dec_str(n)) == n,
    decreases n,
{
    if n <= 9 {
        lemma_digit_roundtrip(n);
        let ds = dec_str(n);
        assert(ds == seq![digit_char(n)]);
        assert(ds.len() == 1);
        assert(ds.drop_last() =~= Seq::<char>::empty());
        assert(val_of(ds.drop_last()) == 0);
        assert(ds.last() == digit_char(n));
        assert(val_of(ds) == val_of(ds.drop_last()) * 10 + digit_val(ds.last()));
    } else {
        lemma_val_of_dec_str(n / 10);
        lemma_digit_roundtrip(n % 10);
        let ds = dec_str(n);
        assert(ds == dec_str(n / 10).push(digit_char(n % 10)));
        assert(ds.len() == dec_str(n / 10).len() + 1);
        assert(ds.drop_last() =~= dec_str(n / 10));
        assert(ds.last() == digit_char(n % 10));
        assert(val_of(ds) == val_of(ds.drop_last()) * 10 + digit_val(ds.last()));
        assert(val_of(ds) == (n / 10) * 10 + (n % 10));
        assert((n / 10) * 10 + (n % 10) == n);
    }
}

/// The value of a digit string is never negative.
pub proof fn lemma_val_of_nonneg(ds: Seq<char>)
    requires
        forall|i: int| 0 <= i < ds.len() ==> is_digit(#[trigger] ds[i]),
    ensures
        val_of(ds) >= 0,
    decreases ds.len(),
{
    if ds.len() > 0 {
        assert(forall|i: int| 0 <= i < ds.drop_last().len() ==> is_digit(
            #[trigger] ds.drop_last()[i]));
        lemma_val_of_nonneg(ds.drop_last());
    }
}

/// Parses a string that is exactly the decimal digit string of a `u64`,
/// and rejects anything else.
pub fn parse_u64_digits(s: &str) -> (r: Option<u64>)
    ensures
        match r {
            Option::Some(n) => s@ == dec_str(n as int),
            Option::None => forall|m: u64| s@ != dec_str(m as int),
        },
{
    let len = s.unicode_len();
    let mut acc: u128 = 0;
    for i in 0..len
        invariant
            len == s@.len(),
            forall|k: int| 0 <= k < i ==> is_digit(#[trigger] s@[k]),
            acc == (if val_of(s@.take(i as int)) > u64::MAX {
                0x1_0000_0000_0000_0000u128 as int
            } else {
                val_of(s@.take(i as int))
            }),
    {
        let c = s.get_char(i);
        if !('0' <= c && c <= '9') {
            proof {
                assert forall|m: u64| s@ != dec_str(m as int) by {
                    if s@ == dec_str(m as int) {
                        lemma_dec_str_digits(m as int);
                        assert(is_digit(s@[i as int]));
                    }
                }
            }
            return None;
        }
        let d: u128 = (c as u32 - 48) as u128;
        proof {
            assert(s@.take(i + 1).drop_last() =~= s@.take(i as int));
            assert(s@.take(i + 1).last() == s@[i as int]);
            lemma_val_of_nonneg(s@.take(i as int));
        }
        if acc > u64::MAX as u128 {
            acc = 0x1_0000_0000_0000_0000u128;
            proof {
                assert(val_of(s@.take(i + 1)) == val_of(s@.take(i as int)) * 10 + digit_val(
                    s@[i as int]));
                assert(val_of(s@.take(i as int)) * 10 > u64::MAX) by (nonlinear_arith)
                    requires val_of(s@.take(i as int)) > u64::MAX;
            }
        } else {
            acc = acc * 10 + d;
            if acc > u64::MAX as u128 {
                acc = 0x1_0000_0000_0000_0000u128;
            }
        }
    }
    proof {
        assert(s@.take(len as int) =~= s@);
    }
    if acc > u64::MAX as u128 {
        proof {
            assert forall|m: u64| s@ != dec_str(m as int) by {
                if s@ == dec_str(m as int) {
                    lemma_val_of_dec_str(m as int);
                }
            }
        }
        return None;
    }
    let n = acc as u64;
    let canonical = u64_to_string(n);
    if str_eq(s, canonical.as_str()) {
        proof {
            assert(s@ == dec_str(n as int));
        }
        Some(n)
    } else {
        proof {
            assert forall|m: u64| s@ != dec_str(m as int) by {
                if s@ == dec_str(m as int) {
                    lemma_val_of_dec_str(m as int);
                    assert(val_of(s@) == m);
                    assert(canonical@ == dec_str(n as int));
                }
            }
        }
        None
    }
}

/// Finds the first dot of a string.
fn find_dot(s: &str) -> (r: Option<usize>)
    ensures
        match r {
            Option::Some(i) => i < s@.len() && s@[i as int] == '.' && forall|k: int|
                0 <= k < i ==> s@[k] != '.',
            Option::None => forall|k: int| 0 <= k < s@.len() ==> s@[k] != '.',
        },
{
    let len = s.unicode_len();
    for i in 0..len
        invariant
            len == s@.len(),
            forall|k: int| 0 <= k < i ==> s@[k] != '.',
    {
        if s.get_char(i) == '.' {
            return Some(i);
        }
    }
    None
}

/// Parses a string that is exactly the three-digit zero-padded rendering
/// of a value below one thousand, and rejects anything else.
fn parse_three_digits(s: &str) -> (r: Option<u64>)
    ensures
        match r {
            Option::Some(n) => n <= 999 && s@ == dec_str_pad(n as int, 3),
            Option::None => forall|m: u64| m <= 999 ==> s@ != dec_str_pad(m as int, 3),
        },
{
    let len = s.unicode_len();
    if len != 3 {
        proof {
            assert forall|m: u64| m <= 999 implies s@ != dec_str_pad(m as int, 3) by {
                reveal_with_fuel(dec_str_pad, 4);
                assert(dec_str_pad(m as int, 3).len() == 3);
            }
        }
        return None;
    }
    let c0 = s.get_char(0);
    let c1 = s.get_char(1);
    let c2 = s.get_char(2);
    if !('0' <= c0 && c0 <= '9' && '0' <= c1 && c1 <= '9' && '0' <= c2 && c2 <= '9') {
        proof {
            assert forall|m: u64| m <= 999 implies s@ != dec_str_pad(m as int, 3) by {
                reveal_with_fuel(dec_str_pad, 4);
                if s@ == dec_str_pad(m as int, 3) {
                    assert((m as int / 10) / 10 == m as int / 100) by (nonlinear_arith)
                        requires m >= 0;
                    assert(s@[0] == digit_char(m as int / 100));
                    assert(s@[1] == digit_char(m as int / 10 % 10));
                    assert(s@[2] == digit_char(m as int % 10));
                    assert(is_digit(digit_char(m as int / 100)));
                    assert(is_digit(digit_char(m as int / 10 % 10)));
                    assert(is_digit(digit_char(m as int % 10)));
                }
            }
        }
        return None;
    }
    let d0: u64 = (c0 as u32 - 48) as u64;
    let d1: u64 = (c1 as u32 - 48) as u64;
    let d2: u64 = (c2 as u32 - 48) as u64;
    let n = d0 * 100 + d1 * 10 + d2;
    let canonical = three_digits(n);
    proof {
        reveal_with_fuel(dec_str_pad, 4);
        assert((n as int / 10) / 10 == n as int / 100) by (nonlinear_arith)
            requires n >= 0;
        lemma_digit_roundtrip(d0 as int);
        lemma_digit_roundtrip(d1 as int);
        lemma_digit_roundtrip(d2 as int);
        assert(n as int / 100 == d0 && n as int / 10 % 10 == d1 && n as int % 10 == d2);
        assert(canonical@ =~= s@);
    }
    Some(n)
}

/// Parses a string that is exactly the seconds rendering of a millisecond
/// count — digits, a dot, and three fractional digits — and rejects
/// anything else.
fn parse_seconds(s: &str) -> (r: Option<u64>)
    ensures
        match r {
            Option::Some(ms) => s@ == sec_str(ms as int),
            Option::None => forall|m: u64| s@ != sec_str(m as int),
        },
{
    let len = s.unicode_len();
    let dot = match find_dot(s) {
        Some(i) => i,
        None => {
            proof {
                assert forall|m: u64| s@ != sec_str(m as int) by {
                    if s@ == sec_str(m as int) {
                        lemma_dec_str_digits(m as int / 1000);
                        assert(s@[dec_str(m as int / 1000).len() as int] == '.');
                    }
                }
            }
            return None;
        },
    };
    let whole = s.substring_char(0, dot);
    let frac = s.substring_char(dot + 1, len);
    let q = match parse_u64_digits(whole) {
        Some(q) => q,
        None => {
            proof {
                assert forall|m: u64| s@ != sec_str(m as int) by {
                    if s@ == sec_str(m as int) {
                        lemma_sec_str_shape(m as int, s@, dot as int);
                        assert(whole@ == dec_str(m as int / 1000));
                    }
                }
            }
            return None;
        },
    };
    let r = match parse_three_digits(frac) {
        Some(r) => r,
        None => {
            proof {
                assert forall|m: u64| s@ != sec_str(m as int) by {
                    if s@ == sec_str(m as int) {
                        lemma_sec_str_shape(m as int, s@, dot as int);
                        assert(frac@ =~= dec_str_pad(m as int % 1000, 3));
                    }
                }
            }
            return None;
        },
    };
    let ms128: u128 = (q as u128) * 1000 + (r as u128);
    if ms128 > u64::MAX as u128 {
        proof {
            assert forall|m: u64| s@ != sec_str(m as int) by {
                if s@ == sec_str(m as int) {
                    lemma_sec_str_shape(m as int, s@, dot as int);
                    assert(whole@ == dec_str(m as int / 1000));
                    assert(frac@ =~= dec_str_pad(m as int % 1000, 3));
                    lemma_dec_str_unique(q as int, m as int / 1000);
                    lemma_pad3_unique(r as int, m as int % 1000);
                    assert(m as int == (m as int / 1000) * 1000 + (m as int % 1000));
                }
            }
        }
        return None;
    }
    let ms = ms128 as u64;
    proof {
        assert(ms as int / 1000 == q && ms as int % 1000 == r);
        assert(s@ =~= sec_str(ms as int));
    }
    Some(ms)
}

/// In the seconds rendering of `m`, the first dot stands right after the
/// whole part, which reads `m / 1000`, and the three fractional digits
/// follow it.
proof fn lemma_sec_str_shape(m: int, s: Seq<char>, dot: int)
    requires
        m >= 0,
        s == sec_str(m),
        0 <= dot < s.len(),
        s[dot] == '.',
        forall|k: int| 0 <= k < dot ==> s[k] != '.',
    ensures
        dot == dec_str(m / 1000).len(),
        s.subrange(0, dot) == dec_str(m / 1000),
        s.subrange(dot + 1, s.len() as int) =~= dec_str_pad(m % 1000, 3),
{
    let w = dec_str(m / 1000);
    lemma_dec_str_digits(m / 1000);
    assert(s[w.len() as int] == '.');
    if dot < w.len() {
        assert(s[dot] == w[dot]);
        assert(is_digit(w[dot]));
        assert(false);
    }
    if dot > w.len() {
        assert(s[w.len() as int] != '.');
        assert(false);
    }
    assert(s.subrange(0, dot) =~= w);
    reveal_with_fuel(dec_str_pad, 4);
}

/// Two values with the same digit string are the same value.
proof fn lemma_dec_str_unique(a: int, b: int)
    requires
        a >= 0,
        b >= 0,
        dec_str(a) == dec_str(b),
    ensures
        a == b,
{
    lemma_val_of_dec_str(a);
    lemma_val_of_dec_str(b);
}

/// Parses one line of the event stream. Accepts exactly the canonical
/// encodings: a parsed event re-encodes to the given line, and a line that
/// encodes no event is rejected.
#[verifier::rlimit(80)]
pub fn parse_event(s: &str) -> (r: Option<IPCEvent>)
    ensures
        match r {
            Option::Some(e) => s@ == spec_encode(e),
            Option::None => forall|e: IPCEvent| s@ != #[trigger] spec_encode(e),
        },
{
    proof {
        reveal_strlit("\"StartMixing\"");
        reveal_strlit("\"Frame\"");
        reveal_strlit("{\"StartRender\":");
        reveal_strlit("{\"Done\":");
        reveal_strlit("}");
    }
    if str_eq(s, "\"StartMixing\"") {
        return Some(IPCEvent::StartMixing);
    }
    if str_eq(s, "\"Frame\"") {
        return Some(IPCEvent::Frame);
    }
    let len = s.unicode_len();
    if len >= 17 && str_eq(s.substring_char(0, 15), "{\"StartRender\":") && s.get_char(len - 1)
        == '}' {
        let region = s.substring_char(15, len - 1);
        match parse_u64_digits(region) {
            Some(n) => {
                proof {
                    assert(s@ =~= "{\"StartRender\":"@ + dec_str(n as int) + "}"@);
                }
                return Some(IPCEvent::StartRender(n));
            },
            None => {
                proof {
                    assert forall|e: IPCEvent| s@ != #[trigger] spec_encode(e) by {
                        if s@ == spec_encode(e) {
                            match e {
                                IPCEvent::StartMixing => {},
                                IPCEvent::Frame => {},
                                IPCEvent::StartRender(m) => {
                                    assert(region@ =~= dec_str(m as int));
                                },
                                IPCEvent::Done(m) => {
                                    assert(s@[2] == ("{\"Done\":"@ + sec_str(m as int)
                                        + "}"@)[2]);
                                    assert(s@[2] == "{\"Done\":"@[2]);
                                    assert(s@[2] == s@.subrange(0, 15)[2]);
                                    assert(s@[2] == "{\"StartRender\":"@[2]);
                                },
                            }
                        }
                    }
                }
                return None;
            },
        }
    }
    if len >= 10 && str_eq(s.substring_char(0, 8), "{\"Done\":") && s.get_char(len - 1) == '}' {
        let region = s.substring_char(8, len - 1);
        match parse_seconds(region) {
            Some(ms) => {
                proof {
                    assert(s@ =~= "{\"Done\":"@ + sec_str(ms as int) + "}"@);
                }
                return Some(IPCEvent::Done(ms));
            },
            None => {
                proof {
                    assert forall|e: IPCEvent| s@ != #[trigger] spec_encode(e) by {
                        if s@ == spec_encode(e) {
                            match e {
                                IPCEvent::StartMixing => {},
                                IPCEvent::Frame => {},
                                IPCEvent::StartRender(m) => {
                                    assert(s@[2] == ("{\"StartRender\":"@ + dec_str(m as int)
                                        + "}"@)[2]);
                                    assert(s@[2] == "{\"StartRender\":"@[2]);
                                    assert(s@[2] == s@.subrange(0, 8)[2]);
                                    assert(s@[2] == "{\"Done\":"@[2]);
                                },
                                IPCEvent::Done(m) => {
                                    assert(region@ =~= sec_str(m as int));
                                },
                            }
                        }
                    }
                }
                return None;
            },
        }
    }
    proof {
        assert forall|e: IPCEvent| s@ != #[trigger] spec_encode(e) by {
            if s@ == spec_encode(e) {
                match e {
                    IPCEvent::StartMixing => {},
                    IPCEvent::Frame => {},
                    IPCEvent::StartRender(m) => {
                        lemma_dec_str_len_min(m as int);
                        assert(s@.len() >= 17);
                        assert(s@.subrange(0, 15) =~= "{\"StartRender\":"@);
                        assert(s@[s@.len() - 1] == '}');
                    },
                    IPCEvent::Done(m) => {
                        lemma_dec_str_len_min(m as int / 1000);
                        reveal_with_fuel(dec_str_pad, 4);
                        assert(dec_str_pad(m as int % 1000, 3).len() == 3);
                        assert(s@.len() >= 13);
                        assert(s@.subrange(0, 8) =~= "{\"Done\":"@);
                        assert(s@[s@.len() - 1] == '}');
                    },
                }
            }
        }
    }
    None
}

/// No two distinct events share an encoding, so a parsed line identifies
/// the event that produced it.
pub proof fn lemma_encode_injective(e1: IPCEvent, e2: IPCEvent)
    requires
        spec_encode(e1) == spec_encode(e2),
    ensures
        e1 == e2,
{
    reveal_strlit("\"StartMixing\"");
    reveal_strlit("\"Frame\"");
    reveal_strlit("{\"StartRender\":");
    reveal_strlit("{\"Done\":");
    reveal_strlit("}");
    reveal_with_fuel(dec_str_pad, 4);
    let s = spec_encode(e1);
    match (e1, e2) {
        (IPCEvent::StartRender(m1), IPCEvent::StartRender(m2)) => {
            assert(spec_encode(e1).subrange(15, spec_encode(e1).len() - 1) =~= dec_str(
                m1 as int));
            assert(spec_encode(e2).subrange(15, spec_encode(e2).len() - 1) =~= dec_str(
                m2 as int));
            lemma_dec_str_unique(m1 as int, m2 as int);
        },
        (IPCEvent::Done(m1), IPCEvent::Done(m2)) => {
            let r1 = spec_encode(e1).subrange(8, spec_encode(e1).len() - 1);
            let r2 = spec_encode(e2).subrange(8, spec_encode(e2).len() - 1);
            assert(r1 =~= sec_str(m1 as int));
            assert(r2 =~= sec_str(m2 as int));
            lemma_dec_str_digits(m1 as int / 1000);
            lemma_dec_str_digits(m2 as int / 1000);
            let w1 = dec_str(m1 as int / 1000);
            let w2 = dec_str(m2 as int / 1000);
            lemma_dec_str_len_min(m1 as int / 1000);
            lemma_dec_str_len_min(m2 as int / 1000);
            if w1.len() < w2.len() {
                assert(r1[w1.len() as int] == '.');
                assert(is_digit(w2[w1.len() as int]));
                assert(false);
            }
            if w2.len() < w1.len() {
                assert(r2[w2.len() as int] == '.');
                assert(is_digit(w1[w2.len() as int]));
                assert(false);
            }
            assert(r1 == r2);
            assert forall|i: int| 0 <= i < w1.len() implies w1[i] == w2[i] by {
                assert(r1[i] == (w1 + seq!['.'] + dec_str_pad(m1 as int % 1000, 3))[i]);
                assert(r1[i] == w1[i]);
                assert(r2[i] == (w2 + seq!['.'] + dec_str_pad(m2 as int % 1000, 3))[i]);
                assert(r2[i] == w2[i]);
            }
            assert(w1 =~= w2);
            lemma_dec_str_unique(m1 as int / 1000, m2 as int / 1000);
            assert(r1.subrange(w1.len() as int + 1, r1.len() as int) =~= dec_str_pad(m1 as int % 1000,
                3));
            assert(r2.subrange(w2.len() as int + 1, r2.len() as int) =~= dec_str_pad(m2 as int % 1000,
                3));
            lemma_pad3_unique(m1 as int % 1000, m2 as int % 1000);
            assert(m1 as int == (m1 as int / 1000) * 1000 + (m1 as int % 1000));
            assert(m2 as int == (m2 as int / 1000) * 1000 + (m2 as int % 1000));
        },
        (IPCEvent::StartMixing, IPCEvent::StartMixing) => {},
        (IPCEvent::Frame, IPCEvent::Frame) => {},
        _ => {
            lemma_encode_distinct_shapes(e1, e2, s);
        },
    }
}

/// Encodings of events of different constructors differ in their first
/// characters or their lengths, so equal encodings force equal events.
proof fn lemma_encode_distinct_shapes(e1: IPCEvent, e2: IPCEvent, s: Seq<char>)
    requires
        spec_encode(e1) == s,
        spec_encode(e2) == s,
        !(e1 is StartMixing && e2 is StartMixing),
        !(e1 is Frame && e2 is Frame),
        !(e1 is StartRender && e2 is StartRender),
        !(e1 is Done && e2 is Done),
    ensures
        e1 == e2,
{
    reveal_strlit("\"StartMixing\"");
    reveal_strlit("\"Frame\"");
    reveal_strlit("{\"StartRender\":");
    reveal_strlit("{\"Done\":");
    reveal_strlit("}");
    if e1 is StartRender {
        lemma_dec_str_len_min(spec_start_render_total(e1));
    }
    if e2 is StartRender {
        lemma_dec_str_len_min(spec_start_render_total(e2));
    }
    if e1 is Done {
        lemma_dec_str_len_min(spec_done_ms(e1) / 1000);
        reveal_with_fuel(dec_str_pad, 4);
    }
    if e2 is Done {
        lemma_dec_str_len_min(spec_done_ms(e2) / 1000);
        reveal_with_fuel(dec_str_pad, 4);
    }
    assert(s[0] == spec_encode(e1)[0]);
    match e1 {
        IPCEvent::StartMixing => assert(s[0] == '"' && s.len() == 13),
        IPCEvent::Frame => assert(s[0] == '"' && s.len() == 7),
        IPCEvent::StartRender(_) => assert(s[0] == '{' && s[2] == 'S'),
        IPCEvent::Done(_) => assert(s[0] == '{' && s[2] == 'D'),
    }
    match e2 {
        IPCEvent::StartMixing => assert(s[0] == '"' && s.len() == 13),
        IPCEvent::Frame => assert(s[0] == '"' && s.len() == 7),
        IPCEvent::StartRender(_) => assert(s[0] == '{' && s[2] == 'S'),
        IPCEvent::Done(_) => assert(s[0] == '{' && s[2] == 'D'),
    }
}

/// The total frame count a `StartRender` event carries.
pub open spec fn spec_start_render_total(e: IPCEvent) -> int {
    match e {
        IPCEvent::StartRender(n) => n as int,
        _ => 0,
    }
}

/// The elapsed time a `Done` event carries.
pub open spec fn spec_done_ms(e: IPCEvent) -> int {
    match e {
        IPCEvent::Done(n) => n as int,
        _ => 0,
    }
}

/// A digit string has at least one character.
proof fn lemma_dec_str_len_min(n: int)
    requires
        n >= 0,
    ensures
        dec_str(n).len() >= 1,
    decreases n,
{
    if n > 9 {
        lemma_dec_str_len_min(n / 10);
    }
}

/// Two values below one thousand with the same padded digit string are the
/// same value.
proof fn lemma_pad3_unique(a: int, b: int)
    requires
        0 <= a <= 999,
        0 <= b <= 999,
        dec_str_pad(a, 3) == dec_str_pad(b, 3),
    ensures
        a == b,
{
    reveal_with_fuel(dec_str_pad, 4);
    lemma_digit_roundtrip(a / 100);
    lemma_digit_roundtrip(a / 10 % 10);
    lemma_digit_roundtrip(a % 10);
    lemma_digit_roundtrip(b / 100);
    lemma_digit_roundtrip(b / 10 % 10);
    lemma_digit_roundtrip(b % 10);
    assert((a / 10) / 10 == a / 100 && (b / 10) / 10 == b / 100) by (nonlinear_arith)
        requires a >= 0, b >= 0;
    assert(dec_str_pad(a, 3)[0] == digit_char(a / 100));
    assert(dec_str_pad(a, 3)[1] == digit_char(a / 10 % 10));
    assert(dec_str_pad(a, 3)[2] == digit_char(a % 10));
    assert(a / 100 == b / 100 && a / 10 % 10 == b / 10 % 10 && a % 10 == b % 10);
    assert(a == (a / 100) * 100 + (a / 10 % 10) * 10 + a % 10) by (nonlinear_arith)
        requires 0 <= a <= 999;
    assert(b == (b / 100) * 100 + (b / 10 % 10) * 10 + b % 10) by (nonlinear_arith)
        requires 0 <= b <= 999;
}


/// The protocol stage of a worker session or an orchestrator-side tracker.
#[derive(Clone, Copy, Debug, PartialEq, Eq, Structural)]
pub enum Stage {
    /// Nothing has happened yet.
    Created,
    /// Mixing has been announced.
    Mixing,
    /// Rendering has been announced; frames are streaming.
    Rendering,
    /// The terminal event has been emitted or consumed.
    Finished,
}

/// A sequence of `k` `Frame` events.
pub open spec fn frames_seq(k: int) -> Seq<IPCEvent> {
    Seq::new(k as nat, |i: int| IPCEvent::Frame)
}

/// The event stream a session in a given state has emitted.
pub open spec fn spec_trace(stage: Stage, total: u64, frames: u64, elapsed: u64) -> Seq<
    IPCEvent,
> {
    match stage {
        Stage::Created => Seq::empty(),
        Stage::Mixing => seq![IPCEvent::StartMixing],
        Stage::Rendering => seq![IPCEvent::StartMixing, IPCEvent::StartRender(total)]
            + frames_seq(frames as int),
        Stage::Finished => seq![IPCEvent::StartMixing, IPCEvent::StartRender(total)]
            + frames_seq(total as int) + seq![IPCEvent::Done(elapsed)],
    }
}

/// The worker's side of the protocol: emits the event stream of one job in
/// order — `StartMixing`, `StartRender` with the precomputed total, one
/// `Frame` per encoded frame, and exactly one terminal `Done`.
pub struct WorkerSession {
    /// The events emitted so far, in emission order.
    pub events: Vec<IPCEvent>,
    /// The total frame count announced by `StartRender`.
    pub total: u64,
    /// Frames emitted so far.
    pub frames: u64,
    /// The elapsed time reported by `Done`.
    pub elapsed_ms: u64,
    /// Protocol stage.
    pub stage: Stage,
}

impl WorkerSession {
    /// The emitted events are exactly the trace of the current state.
    pub open spec fn wf(self) -> bool {
        &&& self.events@ == spec_trace(self.stage, self.total, self.frames, self.elapsed_ms)
        &&& (self.stage is Rendering ==> self.frames <= self.total)
        &&& (self.stage is Finished ==> self.frames == self.total)
    }

    /// Opens a session; nothing is emitted yet.
    pub fn new() -> (s: WorkerSession)
        ensures
            s.wf(),
            s.stage == Stage::Created,
            s.events@ == Seq::<IPCEvent>::empty(),
    {
        let s = WorkerSession {
            events: Vec::new(),
            total: 0,
            frames: 0,
            elapsed_ms: 0,
            stage: Stage::Created,
        };
        s
    }

    /// Announces the audio mixdown; the first event of every stream.
    pub fn start_mixing(&mut self) -> (e: IPCEvent)
        requires
            old(self).wf(),
            old(self).stage == Stage::Created,
        ensures
            final(self).wf(),
            final(self).stage == Stage::Mixing,
            e == IPCEvent::StartMixing,
            final(self).events@ == old(self).events@.push(e),
    {
        self.stage = Stage::Mixing;
        self.events.push(IPCEvent::StartMixing);
        proof {
            assert(self.events@ =~= spec_trace(Stage::Mixing, self.total, self.frames,
                self.elapsed_ms));
        }
        IPCEvent::StartMixing
    }

    /// Announces rendering and the total frame count, before any frame is
    /// produced.
    pub fn start_render(&mut self, total: u64) -> (e: IPCEvent)
        requires
            old(self).wf(),
            old(self).stage == Stage::Mixing,
        ensures
            final(self).wf(),
            final(self).stage == Stage::Rendering,
            final(self).total == total,
            final(self).frames == 0,
            e == IPCEvent::StartRender(total),
            final(self).events@ == old(self).events@.push(e),
    {
        self.stage = Stage::Rendering;
        self.total = total;
        self.frames = 0;
        self.events.push(IPCEvent::StartRender(total));
        proof {
            assert(frames_seq(0) =~= Seq::<IPCEvent>::empty());
            assert(self.events@ =~= spec_trace(Stage::Rendering, total, 0, self.elapsed_ms));
        }
        IPCEvent::StartRender(total)
    }

    /// Emits one `Frame` event for one encoded frame; never more than the
    /// announced total.
    pub fn frame(&mut self) -> (e: IPCEvent)
        requires
            old(self).wf(),
            old(self).stage == Stage::Rendering,
            old(self).frames < old(self).total,
        ensures
            final(self).wf(),
            final(self).stage == Stage::Rendering,
            final(self).total == old(self).total,
            final(self).frames == old(self).frames + 1,
            e == IPCEvent::Frame,
            final(self).events@ == old(self).events@.push(e),
    {
        self.frames = self.frames + 1;
        self.events.push(IPCEvent::Frame);
        proof {
            assert(self.events@ =~= spec_trace(Stage::Rendering, self.total, self.frames,
                self.elapsed_ms));
        }
        IPCEvent::Frame
    }

    /// Emits the terminal `Done` event, exactly once, after every announced
    /// frame has been emitted.
    pub fn finish(&mut self, elapsed_ms: u64) -> (e: IPCEvent)
        requires
            old(self).wf(),
            old(self).stage == Stage::Rendering,
            old(self).frames == old(self).total,
        ensures
            final(self).wf(),
            final(self).stage == Stage::Finished,
            e == IPCEvent::Done(elapsed_ms),
            final(self).events@ == old(self).events@.push(e),
    {
        self.stage = Stage::Finished;
        self.elapsed_ms = elapsed_ms;
        self.events.push(IPCEvent::Done(elapsed_ms));
        proof {
            assert(self.events@ =~= spec_trace(Stage::Finished, self.total, self.frames,
                elapsed_ms));
        }
        IPCEvent::Done(elapsed_ms)
    }
}

/// A finished session emitted `StartMixing` before `StartRender`,
/// `StartRender` before every `Frame`, exactly one `Frame` per announced
/// frame, and one terminal `Done`: its stream is
/// `StartMixing, StartRender(total), Frame^total, Done`.
pub proof fn lemma_session_stream(s: WorkerSession)
    requires
        s.wf(),
        s.stage == Stage::Finished,
    ensures
        s.events@.len() == s.total + 3,
        s.events@[0] == IPCEvent::StartMixing,
        s.events@[1] == IPCEvent::StartRender(s.total),
        forall|i: int| 2 <= i < s.total + 2 ==> s.events@[i] == IPCEvent::Frame,
        s.events@[s.events@.len() - 1] == IPCEvent::Done(s.elapsed_ms),
{
    assert(frames_seq(s.total as int).len() == s.total as int);
}

/// The orchestrator's side of the protocol: consumes one event stream,
/// checks its order, and exposes the job's observable progress.
pub struct ProgressTracker {
    /// Protocol stage reached so far.
    pub stage: Stage,
    /// The total frame count announced by `StartRender`.
    pub total: u64,
    /// Frames seen so far.
    pub frames: u64,
    /// The elapsed time reported by `Done`.
    pub elapsed_ms: u64,
}

/// An event arriving out of protocol order.
#[derive(Clone, Copy, Debug, PartialEq, Eq, Structural)]
pub struct ProtocolError {
    /// The stage the tracker was in when the event arrived.
    pub stage: Stage,
    /// The offending event.
    pub event: IPCEvent,
}

impl ProgressTracker {
    /// Before rendering is announced, no frame has been counted.
    pub open spec fn wf(self) -> bool {
        (self.stage is Created || self.stage is Mixing) ==> self.frames == 0
    }

    /// Which events the protocol permits in each stage.
    pub open spec fn spec_accepts(stage: Stage, e: IPCEvent) -> bool {
        match (stage, e) {
            (Stage::Created, IPCEvent::StartMixing) => true,
            (Stage::Mixing, IPCEvent::StartRender(_)) => true,
            (Stage::Rendering, IPCEvent::Frame) => true,
            (Stage::Rendering, IPCEvent::Done(_)) => true,
            _ => false,
        }
    }

    /// Opens a tracker for one job's stream.
    pub fn new() -> (t: ProgressTracker)
        ensures
            t.wf(),
            t.stage == Stage::Created,
            t.frames == 0,
    {
        ProgressTracker { stage: Stage::Created, total: 0, frames: 0, elapsed_ms: 0 }
    }

    /// Consumes one event. An event out of protocol order is rejected and
    /// changes nothing; frame progress only ever grows.
    pub fn apply(&mut self, e: IPCEvent) -> (r: Result<(), ProtocolError>)
        requires
            old(self).wf(),
            old(self).stage is Rendering ==> old(self).frames <= u64::MAX - 1,
        ensures
            final(self).wf(),
            r is Ok <==> Self::spec_accepts(old(self).stage, e),
            r is Err ==> *final(self) == *old(self) && r->Err_0 == (ProtocolError {
                stage: old(self).stage,
                event: e,
            }),
            final(self).frames >= old(self).frames,
            match e {
                IPCEvent::StartMixing => r is Ok ==> final(self).stage == Stage::Mixing
                    && final(self).frames == old(self).frames,
                IPCEvent::StartRender(total) => r is Ok ==> final(self).stage
                    == Stage::Rendering && final(self).total == total && final(self).frames
                    == 0,
                IPCEvent::Frame => r is Ok ==> final(self).stage == Stage::Rendering
                    && final(self).frames == old(self).frames + 1,
                IPCEvent::Done(ms) => r is Ok ==> final(self).stage == Stage::Finished
                    && final(self).elapsed_ms == ms && final(self).frames == old(
                    self,
                ).frames,
            },
    {
        match e {
            IPCEvent::StartMixing => {
                if matches!(self.stage, Stage::Created) {
                    self.stage = Stage::Mixing;
                    Ok(())
                } else {
                    Err(ProtocolError { stage: self.stage, event: e })
                }
            },
            IPCEvent::StartRender(total) => {
                if matches!(self.stage, Stage::Mixing) {
                    self.stage = Stage::Rendering;
                    self.total = total;
                    self.frames = 0;
                    Ok(())
                } else {
                    Err(ProtocolError { stage: self.stage, event: e })
                }
            },
            IPCEvent::Frame => {
                if matches!(self.stage, Stage::Rendering) {
                    self.frames = self.frames + 1;
                    Ok(())
                } else {
                    Err(ProtocolError { stage: self.stage, event: e })
                }
            },
            IPCEvent::Done(ms) => {
                if matches!(self.stage, Stage::Rendering) {
                    self.stage = Stage::Finished;
                    self.elapsed_ms = ms;
                    Ok(())
                } else {
                    Err(ProtocolError { stage: self.stage, event: e })
                }
            },
        }
    }
}

} // verus!
