//! The JSON payload handed back to the caller.
//!
//! The assembled response travels as one JSON object,
//! `{"status":…,"body":…,"headers":{…}}`. Strings are escaped the way a
//! JSON emitter must: quote and backslash by a backslash, the five named
//! control characters by their short forms, every other control character
//! as `\u00` and two lower-case hex digits; everything else stands as
//! itself.

use vstd::prelude::*;
use vstd::string::StrSliceExecFns;
use vstd::string::StringExecFns;
use crate::headers::pair_views;

verus! {

/// Relies on String::push: it appends the given character to the end of
/// the string.
pub assume_specification[ String::push ](s: &mut String, c: char)
    ensures
        final(s)@ == old(s)@ + seq![c],
;

/// The lower-case hex digit of a nibble.
pub open spec fn hex_digit(n: int) -> char {
    if n < 10 {
        (('0' as u8) + n as u8) as char
    } else {
        (('a' as u8) + (n - 10) as u8) as char
    }
}

/// How one character stands inside a JSON string.
pub open spec fn escape_char(c: char) -> Seq<char> {
    if c == '"' {
        seq!['\\', '"']
    } else if c == '\\' {
        seq!['\\', '\\']
    } else if c == '\u{8}' {
        seq!['\\', 'b']
    } else if c == '\t' {
        seq!['\\', 't']
    } else if c == '\n' {
        seq!['\\', 'n']
    } else if c == '\u{c}' {
        seq!['\\', 'f']
    } else if c == '\r' {
        seq!['\\', 'r']
    } else if (c as int) < 32 {
        seq!['\\', 'u', '0', '0', hex_digit(c as int / 16), hex_digit(c as int % 16)]
    } else {
        seq![c]
    }
}

/// A string's characters, escaped for JSON.
pub open spec fn escape(s: Seq<char>) -> Seq<char>
    decreases s.len(),
{
    if s.len() == 0 {
        Seq::empty()
    } else {
        escape(s.drop_last()) + escape_char(s.last())
    }
}

/// A JSON string literal: the escaped characters between quotes.
pub open spec fn quoted(s: Seq<char>) -> Seq<char> {
    seq!['"'] + escape(s) + seq!['"']
}

/// The decimal digits of `n`, most significant first.
pub open spec fn decimal(n: int) -> Seq<char>
    decreases n,
{
    if n < 10 {
        seq![(('0' as u8) + n as u8) as char]
    } else {
        decimal(n / 10).push((('0' as u8) + (n % 10) as u8) as char)
    }
}

/// The members of the headers object, comma-separated.
pub open spec fn header_members(hs: Seq<(Seq<char>, Seq<char>)>) -> Seq<char>
    decreases hs.len(),
{
    if hs.len() == 0 {
        Seq::empty()
    } else if hs.len() == 1 {
        quoted(hs[0].0) + seq![':'] + quoted(hs[0].1)
    } else {
        header_members(hs.drop_last()) + seq![','] + quoted(hs.last().0) + seq![':'] + quoted(
            hs.last().1,
        )
    }
}

/// The headers as a JSON object.
pub open spec fn headers_json(hs: Seq<(Seq<char>, Seq<char>)>) -> Seq<char> {
    seq!['{'] + header_members(hs) + seq!['}']
}

/// The whole response as a JSON object: status, body, headers, in that
/// order.
pub open spec fn response_json(status: int, body: Seq<char>, hs: Seq<(Seq<char>, Seq<char>)>) -> Seq<
    char,
> {
    "{\"status\":"@ + decimal(status) + ",\"body\":"@ + quoted(body) + ",\"headers\":"@
        + headers_json(hs) + seq!['}']
}

fn push_hex_digit(out: &mut String, n: u32)
    requires
        n < 16,
    ensures
        final(out)@ == old(out)@ + seq![hex_digit(n as int)],
{
    if n < 10 {
        out.push((48 + n as u8) as char);
    } else {
        out.push((97 + (n as u8 - 10)) as char);
    }
}

fn append_escaped(out: &mut String, s: &str)
    ensures
        final(out)@ == old(out)@ + escape(s@),
{
    let n = s.unicode_len();
    let mut i: usize = 0;
    proof {
        assert(s@.take(0) =~= Seq::<char>::empty());
    }
    while i < n
        invariant
            n == s@.len(),
            i <= n,
            out@ == old(out)@ + escape(s@.take(i as int)),
        decreases n - i,
    {
        let c = s.get_char(i);
        let u = c as u32;
        if u == 34 {
            out.append("\\\"");
            proof {
                reveal_strlit("\\\"");
            }
        } else if u == 92 {
            out.append("\\\\");
            proof {
                reveal_strlit("\\\\");
            }
        } else if u == 8 {
            out.append("\\b");
            proof {
                reveal_strlit("\\b");
            }
        } else if u == 9 {
            out.append("\\t");
            proof {
                reveal_strlit("\\t");
            }
        } else if u == 10 {
            out.append("\\n");
            proof {
                reveal_strlit("\\n");
            }
        } else if u == 12 {
            out.append("\\f");
            proof {
                reveal_strlit("\\f");
            }
        } else if u == 13 {
            out.append("\\r");
            proof {
                reveal_strlit("\\r");
            }
        } else if u < 32 {
            out.append("\\u00");
            proof {
                reveal_strlit("\\u00");
            }
            push_hex_digit(out, u / 16);
            push_hex_digit(out, u % 16);
        } else {
            out.push(c);
        }
        proof {
            assert(s@.take(i + 1).drop_last() =~= s@.take(i as int));
            assert(s@.take(i + 1).last() == c);
            assert(out@ =~= old(out)@ + escape(s@.take(i + 1)));
        }
        i += 1;
    }
    proof {
        assert(s@.take(n as int) =~= s@);
    }
}

fn append_quoted(out: &mut String, s: &str)
    ensures
        final(out)@ == old(out)@ + quoted(s@),
{
    out.push('"');
    append_escaped(out, s);
    out.push('"');
    proof {
        assert(out@ =~= old(out)@ + quoted(s@));
    }
}

fn append_decimal(out: &mut String, n: u16)
    ensures
        final(out)@ == old(out)@ + decimal(n as int),
    decreases n,
{
    if n < 10 {
        out.push((48 + n as u8) as char);
        proof {
            assert(out@ =~= old(out)@ + decimal(n as int));
        }
    } else {
        append_decimal(out, n / 10);
        out.push((48 + (n % 10) as u8) as char);
        proof {
            assert(out@ =~= old(out)@ + decimal(n as int));
        }
    }
}

#[verifier::loop_isolation(false)]
fn append_headers(out: &mut String, hs: &Vec<(String, String)>)
    ensures
        final(out)@ == old(out)@ + headers_json(pair_views(hs@)),
{
    out.push('{');
    let mut i: usize = 0;
    proof {
        assert(pair_views(hs@).take(0) =~= Seq::<(Seq<char>, Seq<char>)>::empty());
    }
    while i < hs.len()
        invariant
            i <= hs.len(),
            out@ == old(out)@ + seq!['{'] + header_members(pair_views(hs@).take(i as int)),
        decreases hs.len() - i,
    {
        if i > 0 {
            out.push(',');
        }
        append_quoted(out, hs[i].0.as_str());
        out.push(':');
        append_quoted(out, hs[i].1.as_str());
        proof {
            assert(pair_views(hs@).take(i + 1).drop_last() =~= pair_views(hs@).take(i as int));
            assert(pair_views(hs@).take(i + 1).last() == (hs@[i as int].0@, hs@[i as int].1@));
            assert(out@ =~= old(out)@ + seq!['{'] + header_members(pair_views(hs@).take(i + 1)));
        }
        i += 1;
    }
    out.push('}');
    proof {
        assert(pair_views(hs@).take(hs@.len() as int) =~= pair_views(hs@));
        assert(out@ =~= old(out)@ + headers_json(pair_views(hs@)));
    }
}

/// Encode the assembled response as the single JSON payload the caller
/// receives.
pub fn encode_response(status: u16, body: &str, hs: &Vec<(String, String)>) -> (r: String)
    ensures
        r@ == response_json(status as int, body@, pair_views(hs@)),
{
    let mut out = String::from_str("{\"status\":");
    append_decimal(&mut out, status);
    out.append(",\"body\":");
    append_quoted(&mut out, body);
    out.append(",\"headers\":");
    append_headers(&mut out, hs);
    out.push('}');
    proof {
        assert(out@ =~= response_json(status as int, body@, pair_views(hs@)));
    }
    out
}

} // verus!
