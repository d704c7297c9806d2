//! Byte-level text helpers shared by the routing logic: the byte classes that
//! HTTP headers may expose as text, strict decimal port parsing, decimal
//! rendering of ports, and the trusted bridge from raw bytes to `String`.

use vstd::prelude::*;

verus! {

/// ASCII decimal digit.
pub open spec fn is_digit_byte(b: u8) -> bool {
    48 <= b && b <= 57
}

/// The bytes an HTTP header value may contain while still being convertible
/// to text: visible ASCII, space, or horizontal tab.
pub open spec fn is_header_text_byte(b: u8) -> bool {
    (32 <= b && b < 127) || b == 9
}

pub open spec fn spec_header_text(s: Seq<u8>) -> bool {
    forall|i: int| 0 <= i < s.len() ==> is_header_text_byte(#[trigger] s[i])
}

pub open spec fn all_ascii(s: Seq<u8>) -> bool {
    forall|i: int| 0 <= i < s.len() ==> #[trigger] s[i] < 128
}

/// The characters of a pure-ASCII byte sequence.
pub open spec fn ascii_chars(s: Seq<u8>) -> Seq<char> {
    Seq::new(s.len(), |i: int| s[i] as char)
}

/// Decides whether a header value is convertible to text.
pub fn is_header_text(s: &[u8]) -> (r: bool)
    ensures
        r == spec_header_text(s@),
{
    let n = s.len();
    let mut i: usize = 0;
    while i < n
        invariant
            i <= n,
            n == s@.len(),
            forall|j: int| 0 <= j < i ==> is_header_text_byte(#[trigger] s@[j]),
        decreases n - i,
    {
        let b = s[i];
        if !((32 <= b && b < 127) || b == 9) {
            assert(!is_header_text_byte(s@[i as int]));
            return false;
        }
        i = i + 1;
    }
    true
}

pub open spec fn all_digits(s: Seq<u8>) -> bool {
    forall|i: int| 0 <= i < s.len() ==> is_digit_byte(#[trigger] s[i])
}

/// The value of a string of decimal digits, most significant first.
pub open spec fn spec_decimal_value(s: Seq<u8>) -> int
    decreases s.len(),
{
    if s.len() == 0 {
        0
    } else {
        spec_decimal_value(s.drop_last()) * 10 + (s.last() - 48)
    }
}

/// What `"<s>".parse::<u16>()` yields: an optional leading `+`, then one or
/// more decimal digits whose value fits in sixteen bits.
pub open spec fn spec_parse_u16(s: Seq<u8>) -> Option<u16> {
    let d = if s.len() > 0 && s[0] == 43 {
        s.skip(1)
    } else {
        s
    };
    if d.len() > 0 && all_digits(d) && spec_decimal_value(d) <= 65535 {
        Some(spec_decimal_value(d) as u16)
    } else {
        None
    }
}

proof fn lemma_decimal_value_nonneg(s: Seq<u8>)
    requires
        all_digits(s),
    ensures
        spec_decimal_value(s) >= 0,
    decreases s.len(),
{
    if s.len() > 0 {
        assert(all_digits(s.drop_last()));
        lemma_decimal_value_nonneg(s.drop_last());
    }
}

/// The value of a digit string dominates the value of each of its prefixes.
proof fn lemma_decimal_prefix_le(s: Seq<u8>, j: int)
    requires
        all_digits(s),
        0 <= j <= s.len(),
    ensures
        spec_decimal_value(s.take(j)) <= spec_decimal_value(s),
    decreases s.len() - j,
{
    if j == s.len() {
        assert(s.take(j) =~= s);
    } else {
        assert(s.take(j + 1).drop_last() =~= s.take(j));
        assert(s.take(j + 1).last() == s[j]);
        assert(all_digits(s.take(j)));
        lemma_decimal_value_nonneg(s.take(j));
        assert(spec_decimal_value(s.take(j + 1)) == spec_decimal_value(s.take(j)) * 10 + (s[j]
            - 48));
        lemma_decimal_prefix_le(s, j + 1);
    }
}

/// Parses a sixteen-bit port number exactly as `str::parse::<u16>` does.
pub fn parse_u16(s: &[u8]) -> (r: Option<u16>)
    ensures
        r == spec_parse_u16(s@),
{
    let n = s.len();
    let start: usize = if n > 0 && s[0] == 43 {
        1
    } else {
        0
    };
    let ghost d: Seq<u8> = if start == 1 {
        s@.skip(1)
    } else {
        s@
    };
    assert(d.len() == n - start);
    if n == start {
        return None;
    }
    let mut acc: u32 = 0;
    let mut i: usize = start;
    while i < n
        invariant
            start <= i <= n,
            n == s@.len(),
            start == 0 || start == 1,
            (start == 1) == (n > 0 && s@[0] == 43),
            d == (if start == 1 {
                s@.skip(1)
            } else {
                s@
            }),
            d.len() == n - start,
            forall|j: int| 0 <= j < d.len() ==> d[j] == s@[j + start],
            all_digits(d.take(i - start)),
            acc == spec_decimal_value(d.take(i - start)),
            acc <= 65535,
        decreases n - i,
    {
        let b = s[i];
        let ghost k = i - start;
        if !(48 <= b && b <= 57) {
            assert(!is_digit_byte(d[k]));
            return None;
        }
        let v = acc * 10 + (b - 48) as u32;
        proof {
            assert(d.take(k + 1).drop_last() =~= d.take(k));
            assert(d.take(k + 1).last() == d[k]);
            assert(all_digits(d.take(k + 1)));
        }
        if v > 65535 {
            proof {
                if all_digits(d) {
                    lemma_decimal_prefix_le(d, k + 1);
                }
            }
            return None;
        }
        acc = v;
        i = i + 1;
    }
    proof {
        assert(d.take(n - start) =~= d);
    }
    Some(acc as u16)
}

pub const DIGIT_CHARS: [char; 10] = ['0', '1', '2', '3', '4', '5', '6', '7', '8', '9'];

/// The decimal digits of a non-negative number, most significant first.
pub open spec fn spec_decimal_digits(n: int) -> Seq<char>
    recommends
        0 <= n,
    decreases n,
{
    if n < 10 {
        seq![DIGIT_CHARS@[if 0 <= n { n } else { 0 }]]
    } else {
        spec_decimal_digits(n / 10).push(DIGIT_CHARS@[n % 10])
    }
}

/// Renders a port number in decimal, as `u16`'s `Display` does.
pub fn u16_to_string(n: u16) -> (r: String)
    ensures
        r@ == spec_decimal_digits(n as int),
    decreases n,
{
    if n < 10 {
        let mut s = String::new();
        push_char(&mut s, DIGIT_CHARS[n as usize]);
        proof {
            assert(s@ =~= spec_decimal_digits(n as int));
        }
        s
    } else {
        let mut s = u16_to_string(n / 10);
        push_char(&mut s, DIGIT_CHARS[(n % 10) as usize]);
        s
    }
}

/// Relies on `String::push`: appends the given character at the end of the
/// string.
#[verifier::external_body]
pub(crate) fn push_char(s: &mut String, c: char)
    ensures
        final(s)@ == old(s)@.push(c),
{
    s.push(c);
}

/// What `String::from_utf8_lossy` returns on arbitrary bytes.
pub uninterp spec fn lossy_utf8(s: Seq<u8>) -> Seq<char>;

/// Relies on `String::from_utf8_lossy`: invalid UTF-8 sequences are replaced
/// with U+FFFD, while valid UTF-8 — in particular pure ASCII — decodes to
/// exactly its own characters.
#[verifier::external_body]
pub(crate) fn bytes_to_string_lossy(s: &[u8]) -> (r: String)
    ensures
        r@ == lossy_utf8(s@),
        all_ascii(s@) ==> r@ == ascii_chars(s@),
{
    String::from_utf8_lossy(s).into_owned()
}

/// Appends a whole slice at the end of a byte vector.
pub fn extend_bytes(dst: &mut Vec<u8>, src: &[u8])
    ensures
        final(dst)@ == old(dst)@ + src@,
{
    let n = src.len();
    let mut i: usize = 0;
    while i < n
        invariant
            i <= n,
            n == src@.len(),
            dst@ == old(dst)@ + src@.take(i as int),
        decreases n - i,
    {
        dst.push(src[i]);
        proof {
            assert(old(dst)@ + src@.take(i + 1) =~= (old(dst)@ + src@.take(i as int)).push(
                src@[i as int],
            ));
        }
        i = i + 1;
    }
    proof {
        assert(src@.take(n as int) =~= src@);
    }
}

/// The decimal digits of a non-negative number, as ASCII bytes.
pub open spec fn spec_decimal_bytes(n: int) -> Seq<u8>
    recommends
        0 <= n,
    decreases n,
{
    if n < 10 {
        seq![(48 + if 0 <= n { n } else { 0 }) as u8]
    } else {
        spec_decimal_bytes(n / 10).push((48 + n % 10) as u8)
    }
}

/// Renders a number in decimal as ASCII bytes.
pub fn u16_to_decimal_bytes(n: u16) -> (r: Vec<u8>)
    ensures
        r@ == spec_decimal_bytes(n as int),
    decreases n,
{
    if n < 10 {
        let mut v: Vec<u8> = Vec::new();
        v.push(48 + (n as u8));
        proof {
            assert(v@ =~= spec_decimal_bytes(n as int));
        }
        v
    } else {
        let mut v = u16_to_decimal_bytes(n / 10);
        v.push(48 + (n % 10) as u8);
        v
    }
}

/// The lower-case hexadecimal digit for a value below sixteen.
pub open spec fn spec_hex_digit_byte(d: int) -> u8 {
    if d < 10 {
        (48 + if 0 <= d { d } else { 0 }) as u8
    } else {
        (87 + if d <= 15 { d } else { 15 }) as u8
    }
}

/// The lower-case hexadecimal digits of a non-negative number, without
/// leading zeros.
pub open spec fn spec_hex_bytes(n: int) -> Seq<u8>
    recommends
        0 <= n,
    decreases n,
{
    if n < 16 {
        seq![spec_hex_digit_byte(n)]
    } else {
        spec_hex_bytes(n / 16).push(spec_hex_digit_byte(n % 16))
    }
}

fn hex_digit_byte(d: u16) -> (r: u8)
    requires
        d < 16,
    ensures
        r == spec_hex_digit_byte(d as int),
{
    if d < 10 {
        48 + (d as u8)
    } else {
        87 + (d as u8)
    }
}

/// Renders a number in lower-case hexadecimal as ASCII bytes.
pub fn u16_to_hex_bytes(n: u16) -> (r: Vec<u8>)
    ensures
        r@ == spec_hex_bytes(n as int),
    decreases n,
{
    if n < 16 {
        let mut v: Vec<u8> = Vec::new();
        v.push(hex_digit_byte(n));
        proof {
            assert(v@ =~= spec_hex_bytes(n as int));
        }
        v
    } else {
        let mut v = u16_to_hex_bytes(n / 16);
        v.push(hex_digit_byte(n % 16));
        v
    }
}

} // verus!
