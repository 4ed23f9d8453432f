//! The fixed set of HTTP methods the forwarder accepts, and the
//! case-insensitive recognition of their names.

use vstd::prelude::*;
use vstd::string::StrSliceExecFns;

verus! {

/// The methods the forwarder is willing to issue.
#[derive(Clone, Copy, PartialEq, Eq, Structural, Debug)]
pub enum Method {
    Get,
    Post,
    Put,
    Delete,
    Patch,
    Head,
}

/// `c` reads as the upper-case ASCII letter `u`: it is `u` itself or its
/// lower-case form, 32 code points above.
pub open spec fn reads_as_upper(c: char, u: char) -> bool {
    c == u || c as int == u as int + 32
}

/// ASCII upper-casing of a single character; everything outside `a`..`z`
/// is left alone.
pub open spec fn ascii_upper(c: char) -> char {
    if 'a' as int <= c as int <= 'z' as int {
        ((c as u8) - 32) as char
    } else {
        c
    }
}

/// The method named by `s`, compared without regard to ASCII case.
pub open spec fn method_of(s: Seq<char>) -> Option<Method> {
    if s.len() == 3 && reads_as_upper(s[0], 'G') && reads_as_upper(s[1], 'E') && reads_as_upper(
        s[2],
        'T',
    ) {
        Some(Method::Get)
    } else if s.len() == 3 && reads_as_upper(s[0], 'P') && reads_as_upper(s[1], 'U')
        && reads_as_upper(s[2], 'T') {
        Some(Method::Put)
    } else if s.len() == 4 && reads_as_upper(s[0], 'P') && reads_as_upper(s[1], 'O')
        && reads_as_upper(s[2], 'S') && reads_as_upper(s[3], 'T') {
        Some(Method::Post)
    } else if s.len() == 4 && reads_as_upper(s[0], 'H') && reads_as_upper(s[1], 'E')
        && reads_as_upper(s[2], 'A') && reads_as_upper(s[3], 'D') {
        Some(Method::Head)
    } else if s.len() == 5 && reads_as_upper(s[0], 'P') && reads_as_upper(s[1], 'A')
        && reads_as_upper(s[2], 'T') && reads_as_upper(s[3], 'C') && reads_as_upper(s[4], 'H') {
        Some(Method::Patch)
    } else if s.len() == 6 && reads_as_upper(s[0], 'D') && reads_as_upper(s[1], 'E')
        && reads_as_upper(s[2], 'L') && reads_as_upper(s[3], 'E') && reads_as_upper(s[4], 'T')
        && reads_as_upper(s[5], 'E') {
        Some(Method::Delete)
    } else {
        None
    }
}

/// The canonical (upper-case) name of a method.
pub open spec fn method_name(m: Method) -> Seq<char> {
    match m {
        Method::Get => "GET"@,
        Method::Post => "POST"@,
        Method::Put => "PUT"@,
        Method::Delete => "DELETE"@,
        Method::Patch => "PATCH"@,
        Method::Head => "HEAD"@,
    }
}

proof fn lemma_reads_as_upper_char(c: char, uc: char)
    requires
        'A' as int <= uc as int <= 'Z' as int,
    ensures
        reads_as_upper(c, uc) <==> ascii_upper(c) == uc,
{
    if 'a' as int <= c as int <= 'z' as int {
        assert(c as u8 == c as int);
        assert(ascii_upper(c) as int == c as int - 32);
    }
}

/// A method name is accepted exactly when its ASCII upper-casing is one
/// of the six canonical names: the allow-list reads method names without
/// regard to case, and nothing outside it is accepted.
pub proof fn lemma_method_upper(s: Seq<char>)
    ensures
        method_of(s) is Some <==> {
            let u = s.map_values(|c: char| ascii_upper(c));
            ||| u == "GET"@
            ||| u == "POST"@
            ||| u == "PUT"@
            ||| u == "DELETE"@
            ||| u == "PATCH"@
            ||| u == "HEAD"@
        },
{
    reveal_strlit("GET");
    reveal_strlit("POST");
    reveal_strlit("PUT");
    reveal_strlit("DELETE");
    reveal_strlit("PATCH");
    reveal_strlit("HEAD");
    let u = s.map_values(|c: char| ascii_upper(c));
    assert(u.len() == s.len());
    assert forall|i: int, uc: char|
        0 <= i < s.len() && 'A' as int <= uc as int <= 'Z' as int implies (reads_as_upper(
        s[i],
        uc,
    ) <==> u[i] == uc) by {
        lemma_reads_as_upper_char(s[i], uc);
    }
    if method_of(s) is Some {
        if s.len() == 3 {
            if reads_as_upper(s[0], 'G') {
                assert(u =~= "GET"@);
            } else {
                assert(u =~= "PUT"@);
            }
        } else if s.len() == 4 {
            if reads_as_upper(s[0], 'P') {
                assert(u =~= "POST"@);
            } else {
                assert(u =~= "HEAD"@);
            }
        } else if s.len() == 5 {
            assert(u =~= "PATCH"@);
        } else {
            assert(u =~= "DELETE"@);
        }
    }
}

fn eq_upper(c: char, u: char) -> (r: bool)
    ensures
        r == reads_as_upper(c, u),
{
    c == u || (c as u32) == (u as u32) + 32
}

/// Recognise a method name, without regard to ASCII case; anything outside
/// the fixed set is `None`.
pub fn parse_method(s: &str) -> (r: Option<Method>)
    ensures
        r == method_of(s@),
{
    let n = s.unicode_len();
    if n == 3 {
        let c0 = s.get_char(0);
        let c1 = s.get_char(1);
        let c2 = s.get_char(2);
        if eq_upper(c0, 'G') && eq_upper(c1, 'E') && eq_upper(c2, 'T') {
            Some(Method::Get)
        } else if eq_upper(c0, 'P') && eq_upper(c1, 'U') && eq_upper(c2, 'T') {
            Some(Method::Put)
        } else {
            None
        }
    } else if n == 4 {
        let c0 = s.get_char(0);
        let c1 = s.get_char(1);
        let c2 = s.get_char(2);
        let c3 = s.get_char(3);
        if eq_upper(c0, 'P') && eq_upper(c1, 'O') && eq_upper(c2, 'S') && eq_upper(c3, 'T') {
            Some(Method::Post)
        } else if eq_upper(c0, 'H') && eq_upper(c1, 'E') && eq_upper(c2, 'A') && eq_upper(
            c3,
            'D',
        ) {
            Some(Method::Head)
        } else {
            None
        }
    } else if n == 5 {
        let c0 = s.get_char(0);
        let c1 = s.get_char(1);
        let c2 = s.get_char(2);
        let c3 = s.get_char(3);
        let c4 = s.get_char(4);
        if eq_upper(c0, 'P') && eq_upper(c1, 'A') && eq_upper(c2, 'T') && eq_upper(c3, 'C')
            && eq_upper(c4, 'H') {
            Some(Method::Patch)
        } else {
            None
        }
    } else if n == 6 {
        let c0 = s.get_char(0);
        let c1 = s.get_char(1);
        let c2 = s.get_char(2);
        let c3 = s.get_char(3);
        let c4 = s.get_char(4);
        let c5 = s.get_char(5);
        if eq_upper(c0, 'D') && eq_upper(c1, 'E') && eq_upper(c2, 'L') && eq_upper(c3, 'E')
            && eq_upper(c4, 'T') && eq_upper(c5, 'E') {
            Some(Method::Delete)
        } else {
            None
        }
    } else {
        None
    }
}

impl Method {
    /// The canonical wire name of the method.
    pub fn name(&self) -> (r: &'static str)
        ensures
            r@ == method_name(*self),
    {
        match self {
            Method::Get => "GET",
            Method::Post => "POST",
            Method::Put => "PUT",
            Method::Delete => "DELETE",
            Method::Patch => "PATCH",
            Method::Head => "HEAD",
        }
    }
}

} // verus!
