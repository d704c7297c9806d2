//! Verified reading of `application/x-www-form-urlencoded` data.
//!
//! A form body (or URL query string) is a `&`-separated list of segments;
//! each non-empty segment is a `name=value` pair (a segment without `=` is a
//! name with an empty value). Names and values are decoded by first replacing
//! `+` with space and then resolving `%XY` escapes; a `%` that is not followed
//! by two hex digits stands for itself. The routing logic needs exactly one
//! question answered: the decoded value of the first pair whose decoded name
//! is `queue_id`.

use vstd::prelude::*;

verus! {

/// `+` becomes space; every other byte is kept.
pub open spec fn plus_to_space(b: u8) -> u8 {
    if b == 43 {
        32
    } else {
        b
    }
}

pub open spec fn spec_replace_plus(s: Seq<u8>) -> Seq<u8> {
    s.map_values(|b: u8| plus_to_space(b))
}

pub open spec fn is_hex_digit_byte(b: u8) -> bool {
    (48 <= b && b <= 57) || (65 <= b && b <= 70) || (97 <= b && b <= 102)
}

pub open spec fn spec_hex_value(b: u8) -> u8 {
    if 48 <= b && b <= 57 {
        (b - 48) as u8
    } else if 65 <= b && b <= 70 {
        (b - 55) as u8
    } else {
        (b - 87) as u8
    }
}

/// Percent-decoding: `%XY` with two hex digits yields one byte; any other
/// byte, including a `%` without a valid escape, stands for itself.
pub open spec fn spec_percent_decode(s: Seq<u8>) -> Seq<u8>
    decreases s.len(),
{
    if s.len() == 0 {
        Seq::<u8>::empty()
    } else if s[0] == 37 && s.len() >= 3 && is_hex_digit_byte(s[1]) && is_hex_digit_byte(s[2]) {
        seq![(spec_hex_value(s[1]) * 16 + spec_hex_value(s[2])) as u8] + spec_percent_decode(
            s.skip(3),
        )
    } else {
        seq![s[0]] + spec_percent_decode(s.skip(1))
    }
}

/// Full decoding of one form name or value.
pub open spec fn spec_form_decode(s: Seq<u8>) -> Seq<u8> {
    spec_percent_decode(spec_replace_plus(s))
}

/// Index of the first occurrence of `b` in `s`, or `s.len()` if absent.
pub open spec fn first_index(s: Seq<u8>, b: u8) -> int
    decreases s.len(),
{
    if s.len() == 0 {
        0
    } else if s[0] == b {
        0
    } else {
        1 + first_index(s.skip(1), b)
    }
}

pub proof fn lemma_first_index_props(s: Seq<u8>, b: u8)
    ensures
        0 <= first_index(s, b) <= s.len(),
        first_index(s, b) < s.len() ==> s[first_index(s, b)] == b,
        forall|j: int| 0 <= j < first_index(s, b) ==> s[j] != b,
    decreases s.len(),
{
    if s.len() > 0 && s[0] != b {
        lemma_first_index_props(s.skip(1), b);
        assert forall|j: int| 0 <= j < first_index(s, b) implies s[j] != b by {
            if j > 0 {
                assert(s.skip(1)[j - 1] != b);
            }
        }
    }
}

/// The bytes of the name `queue_id`.
pub open spec fn queue_id_key() -> Seq<u8> {
    seq![113u8, 117u8, 101u8, 117u8, 101u8, 95u8, 105u8, 100u8]
}

/// The decoded value of the first pair whose decoded name is `queue_id`, if
/// any pair has that name.
pub open spec fn spec_find_queue_id(s: Seq<u8>) -> Option<Seq<u8>>
    decreases s.len(),
    via spec_find_queue_id_decreases
{
    if s.len() == 0 {
        None
    } else {
        let amp = first_index(s, 38);
        let seg = s.take(amp);
        let rest = if amp < s.len() {
            s.skip(amp + 1)
        } else {
            Seq::<u8>::empty()
        };
        if seg.len() == 0 {
            spec_find_queue_id(rest)
        } else {
            let eq = first_index(seg, 61);
            let name = seg.take(eq);
            let value = if eq < seg.len() {
                seg.skip(eq + 1)
            } else {
                Seq::<u8>::empty()
            };
            if spec_form_decode(name) == queue_id_key() {
                Some(spec_form_decode(value))
            } else {
                spec_find_queue_id(rest)
            }
        }
    }
}

#[via_fn]
proof fn spec_find_queue_id_decreases(s: Seq<u8>) {
    lemma_first_index_props(s, 38);
}

/// First occurrence of `b` in `s[from..to]`, or `to` if absent.
fn scan_byte(s: &[u8], from: usize, to: usize, b: u8) -> (r: usize)
    requires
        from <= to <= s@.len(),
    ensures
        from <= r <= to,
        r - from == first_index(s@.subrange(from as int, to as int), b),
{
    let ghost t = s@.subrange(from as int, to as int);
    proof {
        lemma_first_index_props(t, b);
    }
    let mut i: usize = from;
    while i < to
        invariant
            from <= i <= to <= s@.len(),
            t == s@.subrange(from as int, to as int),
            forall|j: int| 0 <= j < i - from ==> t[j] != b,
        decreases to - i,
    {
        if s[i] == b {
            proof {
                lemma_first_index_props(t, b);
                assert(t[i - from] == b);
            }
            return i;
        }
        i = i + 1;
    }
    proof {
        lemma_first_index_props(t, b);
        assert(first_index(t, b) == t.len()) by {
            if first_index(t, b) < t.len() {
                assert(t[first_index(t, b)] == b);
            }
        }
    }
    to
}

fn hex_value(b: u8) -> (r: u8)
    requires
        is_hex_digit_byte(b),
    ensures
        r == spec_hex_value(b),
        r <= 15,
{
    if 48 <= b && b <= 57 {
        b - 48
    } else if 65 <= b && b <= 70 {
        b - 55
    } else {
        b - 87
    }
}

/// Decodes `s[from..to]` as one form name or value.
pub fn form_decode(s: &[u8], from: usize, to: usize) -> (r: Vec<u8>)
    requires
        from <= to <= s@.len(),
    ensures
        r@ == spec_form_decode(s@.subrange(from as int, to as int)),
{
    let ghost sub = s@.subrange(from as int, to as int);
    // First pass: `+` to space.
    let mut rp: Vec<u8> = Vec::new();
    let mut i: usize = from;
    while i < to
        invariant
            from <= i <= to <= s@.len(),
            sub == s@.subrange(from as int, to as int),
            rp@.len() == i - from,
            forall|j: int| 0 <= j < i - from ==> rp@[j] == plus_to_space(#[trigger] sub[j]),
        decreases to - i,
    {
        let b = s[i];
        if b == 43 {
            rp.push(32);
        } else {
            rp.push(b);
        }
        i = i + 1;
    }
    proof {
        assert(rp@ =~= spec_replace_plus(sub));
    }
    // Second pass: percent escapes.
    let m = rp.len();
    let mut out: Vec<u8> = Vec::new();
    let mut k: usize = 0;
    proof {
        assert(rp@.skip(0) =~= rp@);
        assert(out@ + spec_percent_decode(rp@) =~= spec_percent_decode(rp@));
    }
    while k < m
        invariant
            k <= m,
            m == rp@.len(),
            spec_percent_decode(rp@) == out@ + spec_percent_decode(rp@.skip(k as int)),
        decreases m - k,
    {
        let ghost t = rp@.skip(k as int);
        let b = rp[k];
        if b == 37 && m - k >= 3 && (48 <= rp[k + 1] && rp[k + 1] <= 57 || 65 <= rp[k + 1] && rp[k
            + 1] <= 70 || 97 <= rp[k + 1] && rp[k + 1] <= 102) && (48 <= rp[k + 2] && rp[k + 2]
            <= 57 || 65 <= rp[k + 2] && rp[k + 2] <= 70 || 97 <= rp[k + 2] && rp[k + 2] <= 102) {
            let v = hex_value(rp[k + 1]) * 16 + hex_value(rp[k + 2]);
            proof {
                assert(t[0] == 37 && t.len() >= 3 && is_hex_digit_byte(t[1]) && is_hex_digit_byte(
                    t[2],
                ));
                assert(t.skip(3) =~= rp@.skip(k + 3));
                assert(spec_percent_decode(t) == seq![v] + spec_percent_decode(rp@.skip(k + 3)));
                assert(out@.push(v) + spec_percent_decode(rp@.skip(k + 3)) =~= out@ + (seq![v]
                    + spec_percent_decode(rp@.skip(k + 3))));
            }
            out.push(v);
            k = k + 3;
        } else {
            proof {
                assert(!(t[0] == 37 && t.len() >= 3 && is_hex_digit_byte(t[1])
                    && is_hex_digit_byte(t[2])));
                assert(t.skip(1) =~= rp@.skip(k + 1));
                assert(spec_percent_decode(t) == seq![t[0]] + spec_percent_decode(rp@.skip(k + 1)));
                assert(out@.push(b) + spec_percent_decode(rp@.skip(k + 1)) =~= out@ + (seq![b]
                    + spec_percent_decode(rp@.skip(k + 1))));
            }
            out.push(b);
            k = k + 1;
        }
    }
    proof {
        assert(rp@.skip(m as int) =~= Seq::<u8>::empty());
        assert(out@ =~= spec_percent_decode(rp@));
    }
    out
}

/// Decides whether a decoded name is exactly `queue_id`.
fn is_queue_id_key(name: &Vec<u8>) -> (r: bool)
    ensures
        r == (name@ == queue_id_key()),
{
    if name.len() != 8 {
        return false;
    }
    let r = name[0] == 113 && name[1] == 117 && name[2] == 101 && name[3] == 117 && name[4] == 101
        && name[5] == 95 && name[6] == 105 && name[7] == 100;
    proof {
        if r {
            assert(name@ =~= queue_id_key());
        }
    }
    r
}

/// Finds the decoded value of the first `queue_id` pair in a form body or
/// query string.
pub fn find_queue_id(s: &[u8]) -> (r: Option<Vec<u8>>)
    ensures
        match r {
            Some(v) => spec_find_queue_id(s@) == Some(v@),
            None => spec_find_queue_id(s@) == None::<Seq<u8>>,
        },
{
    let n = s.len();
    let mut pos: usize = 0;
    proof {
        assert(s@.skip(0) =~= s@);
    }
    loop
        invariant
            pos <= n,
            n == s@.len(),
            spec_find_queue_id(s@) == spec_find_queue_id(s@.skip(pos as int)),
        decreases n - pos,
    {
        let ghost t = s@.skip(pos as int);
        if pos == n {
            proof {
                assert(t =~= Seq::<u8>::empty());
            }
            return None;
        }
        let amp = scan_byte(s, pos, n, 38);
        proof {
            assert(s@.subrange(pos as int, n as int) =~= t);
            assert(t.take(amp - pos) =~= s@.subrange(pos as int, amp as int));
        }
        if amp == pos {
            // Empty segment: skip it.
            proof {
                assert(t.skip(amp - pos + 1) =~= s@.skip(pos + 1));
            }
            pos = pos + 1;
        } else {
            let ghost seg = t.take(amp - pos);
            let eq = scan_byte(s, pos, amp, 61);
            proof {
                assert(s@.subrange(pos as int, amp as int) =~= seg);
            }
            let name = form_decode(s, pos, eq);
            proof {
                assert(s@.subrange(pos as int, eq as int) =~= seg.take(eq - pos));
            }
            if is_queue_id_key(&name) {
                if eq < amp {
                    let value = form_decode(s, eq + 1, amp);
                    proof {
                        assert(s@.subrange(eq + 1, amp as int) =~= seg.skip(eq - pos + 1));
                    }
                    return Some(value);
                } else {
                    proof {
                        assert(spec_replace_plus(Seq::<u8>::empty()) =~= Seq::<u8>::empty());
                        assert(spec_form_decode(Seq::<u8>::empty()) =~= Seq::<u8>::empty());
                    }
                    return Some(Vec::new());
                }
            }
            if amp == n {
                proof {
                    lemma_first_index_props(t, 38);
                    assert(first_index(t, 38) == t.len());
                    assert(seg.len() > 0);
                    assert(spec_form_decode(seg.take(eq - pos)) != queue_id_key());
                    assert(spec_find_queue_id(Seq::<u8>::empty()) == None::<Seq<u8>>);
                    assert(spec_find_queue_id(t) == None::<Seq<u8>>);
                }
                return None;
            }
            proof {
                assert(t.skip(amp - pos + 1) =~= s@.skip(amp + 1));
            }
            pos = amp + 1;
        }
    }
}

} // verus!
