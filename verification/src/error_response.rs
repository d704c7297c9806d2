//! The HTTP responses the proxy itself produces when routing fails.
//!
//! An unknown queue-id is answered with a distinguished JSON body that
//! clients match on; every other routing failure is an opaque `502 Bad
//! Gateway`. The queue-id is embedded in the JSON body with standard JSON
//! string escaping: quote and backslash get a backslash, the named control
//! characters their short forms, and the remaining control characters a
//! `\u00XX` escape with lower-case hex digits.

use vstd::prelude::*;
use vstd::string::{StringExecFns, StrSliceExecFns};
use crate::state::{BadBackendError, BadBackendErrorView, spec_error_text};
use crate::text::push_char;

verus! {

/// A response of the proxy's own: the status code, the `Content-Type` header
/// if one is set, and the body text.
pub struct ProxyResponse {
    pub status: u16,
    pub content_type: Option<String>,
    pub body: String,
}

pub const HEX_CHARS_LOWER: [char; 16] = [
    '0',
    '1',
    '2',
    '3',
    '4',
    '5',
    '6',
    '7',
    '8',
    '9',
    'a',
    'b',
    'c',
    'd',
    'e',
    'f',
];

/// How one character appears inside a JSON string literal.
pub open spec fn spec_json_escape_char(c: char) -> Seq<char> {
    if c == '"' {
        seq!['\\', '"']
    } else if c == '\\' {
        seq!['\\', '\\']
    } else if c == '\u{8}' {
        seq!['\\', 'b']
    } else if c == '\u{9}' {
        seq!['\\', 't']
    } else if c == '\u{a}' {
        seq!['\\', 'n']
    } else if c == '\u{c}' {
        seq!['\\', 'f']
    } else if c == '\u{d}' {
        seq!['\\', 'r']
    } else if (c as u32) < 32 {
        seq![
            '\\',
            'u',
            '0',
            '0',
            HEX_CHARS_LOWER@[((c as u32) / 16) as int],
            HEX_CHARS_LOWER@[((c as u32) % 16) as int],
        ]
    } else {
        seq![c]
    }
}

/// A whole string escaped for embedding in a JSON string literal.
pub open spec fn spec_json_escape(s: Seq<char>) -> Seq<char>
    decreases s.len(),
{
    if s.len() == 0 {
        Seq::<char>::empty()
    } else {
        spec_json_escape_char(s.first()) + spec_json_escape(s.drop_first())
    }
}

proof fn lemma_json_escape_push(s: Seq<char>, c: char)
    ensures
        spec_json_escape(s.push(c)) == spec_json_escape(s) + spec_json_escape_char(c),
    decreases s.len(),
{
    if s.len() == 0 {
        assert(s.push(c).drop_first() =~= Seq::<char>::empty());
        assert(s.push(c).first() == c);
        assert(spec_json_escape(Seq::<char>::empty()) == Seq::<char>::empty());
        assert(spec_json_escape_char(c) + Seq::<char>::empty() =~= Seq::<char>::empty()
            + spec_json_escape_char(c));
    } else {
        assert(s.push(c).drop_first() =~= s.drop_first().push(c));
        assert(s.push(c).first() == s.first());
        lemma_json_escape_push(s.drop_first(), c);
        assert(spec_json_escape_char(s.first()) + (spec_json_escape(s.drop_first())
            + spec_json_escape_char(c)) =~= (spec_json_escape_char(s.first()) + spec_json_escape(
            s.drop_first(),
        )) + spec_json_escape_char(c));
    }
}

/// Escapes a string for embedding in a JSON string literal.
pub fn json_escape(s: &String) -> (r: String)
    ensures
        r@ == spec_json_escape(s@),
{
    let n = s.as_str().unicode_len();
    let mut out = String::new();
    let mut i: usize = 0;
    proof {
        assert(s@.take(0) =~= Seq::<char>::empty());
    }
    while i < n
        invariant
            i <= n,
            n == s@.len(),
            out@ == spec_json_escape(s@.take(i as int)),
        decreases n - i,
    {
        let c = s.as_str().get_char(i);
        let ghost prefix = s@.take(i as int);
        proof {
            assert(s@.take(i + 1) =~= prefix.push(c));
            lemma_json_escape_push(prefix, c);
        }
        if c == '"' {
            push_char(&mut out, '\\');
            push_char(&mut out, '"');
        } else if c == '\\' {
            push_char(&mut out, '\\');
            push_char(&mut out, '\\');
        } else if c == '\u{8}' {
            push_char(&mut out, '\\');
            push_char(&mut out, 'b');
        } else if c == '\u{9}' {
            push_char(&mut out, '\\');
            push_char(&mut out, 't');
        } else if c == '\u{a}' {
            push_char(&mut out, '\\');
            push_char(&mut out, 'n');
        } else if c == '\u{c}' {
            push_char(&mut out, '\\');
            push_char(&mut out, 'f');
        } else if c == '\u{d}' {
            push_char(&mut out, '\\');
            push_char(&mut out, 'r');
        } else if (c as u32) < 32 {
            let code = c as u32;
            push_char(&mut out, '\\');
            push_char(&mut out, 'u');
            push_char(&mut out, '0');
            push_char(&mut out, '0');
            push_char(&mut out, HEX_CHARS_LOWER[(code / 16) as usize]);
            push_char(&mut out, HEX_CHARS_LOWER[(code % 16) as usize]);
        } else {
            push_char(&mut out, c);
        }
        proof {
            assert(out@ =~= spec_json_escape(prefix) + spec_json_escape_char(c));
        }
        i = i + 1;
    }
    proof {
        assert(s@.take(n as int) =~= s@);
    }
    out
}

/// The JSON body sent for an unknown queue-id.
pub open spec fn spec_bad_queue_body(q: Seq<char>) -> Seq<char> {
    "{\"result\":\"error\",\"msg\":\"Bad event queue_id: "@ + spec_json_escape(q)
        + "\",\"queue_id\":\""@ + spec_json_escape(q) + "\",\"code\":\"BAD_EVENT_QUEUE_ID\"}"@
}

/// The `400 Bad Request` answer for a queue-id the proxy cannot route: a JSON
/// body naming the queue-id, with the `BAD_EVENT_QUEUE_ID` code clients rely
/// on.
pub fn bad_queue(q: String) -> (r: ProxyResponse)
    ensures
        r.status == 400,
        r.content_type matches Some(ct) && ct@ == "application/json"@,
        r.body@ == spec_bad_queue_body(q@),
{
    let escaped = json_escape(&q);
    let body = String::from_str("{\"result\":\"error\",\"msg\":\"Bad event queue_id: ").concat(
        escaped.as_str(),
    ).concat("\",\"queue_id\":\"").concat(escaped.as_str()).concat(
        "\",\"code\":\"BAD_EVENT_QUEUE_ID\"}",
    );
    proof {
        assert(body@ =~= spec_bad_queue_body(q@));
    }
    ProxyResponse { status: 400, content_type: Some(String::from_str("application/json")), body }
}

/// The opaque `502 Bad Gateway` answer: empty body, no content type.
pub fn bad_gateway() -> (r: ProxyResponse)
    ensures
        r.status == 502,
        r.content_type is None,
        r.body@ == Seq::<char>::empty(),
{
    ProxyResponse { status: 502, content_type: None, body: String::new() }
}

/// The line logged for a routing failure.
pub fn log_error(error: &BadBackendError) -> (r: String)
    ensures
        r@ == spec_error_text(error@),
{
    error.describe()
}

/// Classifies a routing error into the client's response: an unknown queue-id
/// gets the distinguished JSON answer, every other routing failure an opaque
/// `502 Bad Gateway`.
pub fn error_to_response(error: BadBackendError) -> (r: ProxyResponse)
    ensures
        match error@ {
            BadBackendErrorView::UnknownQueue(q) => r.status == 400 && r.body@
                == spec_bad_queue_body(q) && (r.content_type matches Some(ct) && ct@
                == "application/json"@),
            _ => r.status == 502 && r.body@ == Seq::<char>::empty() && r.content_type is None,
        },
{
    match error {
        BadBackendError::UnknownQueue(q) => bad_queue(q),
        _ => bad_gateway(),
    }
}

} // verus!
