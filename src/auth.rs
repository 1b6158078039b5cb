use vstd::prelude::*;
use crate::error::NodeError;

verus! {

/// Characters with the Unicode `White_Space` property, those that
/// `char::is_whitespace` accepts.
pub open spec fn is_white_space(c: char) -> bool {
    let u = c as u32;
    ||| 0x9 <= u && u <= 0xd
    ||| u == 0x20
    ||| u == 0x85
    ||| u == 0xa0
    ||| u == 0x1680
    ||| 0x2000 <= u && u <= 0x200a
    ||| u == 0x2028
    ||| u == 0x2029
    ||| u == 0x202f
    ||| u == 0x205f
    ||| u == 0x3000
}

/// `s` without its leading white space.
pub open spec fn trim_start(s: Seq<char>) -> Seq<char>
    decreases s.len(),
{
    if s.len() > 0 && is_white_space(s[0]) {
        trim_start(s.drop_first())
    } else {
        s
    }
}

/// `s` without its trailing white space.
pub open spec fn trim_end(s: Seq<char>) -> Seq<char>
    decreases s.len(),
{
    if s.len() > 0 && is_white_space(s.last()) {
        trim_end(s.drop_last())
    } else {
        s
    }
}

/// `s` without leading and trailing white space.
pub open spec fn trimmed(s: Seq<char>) -> Seq<char> {
    trim_end(trim_start(s))
}

/// Whether `c` is white space.
fn is_white_space_char(c: char) -> (r: bool)
    ensures
        r == is_white_space(c),
{
    let u = c as u32;
    (0x9 <= u && u <= 0xd) || u == 0x20 || u == 0x85 || u == 0xa0 || u == 0x1680 || (0x2000 <= u
        && u <= 0x200a) || u == 0x2028 || u == 0x2029 || u == 0x202f || u == 0x205f || u == 0x3000
}

/// `s` without leading and trailing white space, as `str::trim` gives it.
fn trim(s: &str) -> (r: &str)
    ensures
        r@ == trimmed(s@),
{
    let n = s.unicode_len();
    let mut start: usize = 0;
    assert(s@.subrange(0, n as int) =~= s@);
    loop
        invariant
            n == s@.len(),
            start <= n,
            trim_start(s@) == trim_start(s@.subrange(start as int, n as int)),
        ensures
            start <= n,
            trim_start(s@) == trim_start(s@.subrange(start as int, n as int)),
            start == n || !is_white_space(s@[start as int]),
        decreases n - start,
    {
        if start == n || !is_white_space_char(s.get_char(start)) {
            break;
        }
        proof {
            let t = s@.subrange(start as int, n as int);
            assert(t.drop_first() =~= s@.subrange(start + 1, n as int));
        }
        start = start + 1;
    }
    let ghost t = s@.subrange(start as int, n as int);
    assert(start < n ==> t[0] == s@[start as int]);
    assert(trim_start(t) == t);
    let mut end: usize = n;
    loop
        invariant
            n == s@.len(),
            start <= end <= n,
            t == s@.subrange(start as int, n as int),
            trim_end(t) == trim_end(s@.subrange(start as int, end as int)),
        ensures
            start <= end <= n,
            trim_end(t) == trim_end(s@.subrange(start as int, end as int)),
            end == start || !is_white_space(s@[end - 1]),
        decreases end - start,
    {
        if end == start || !is_white_space_char(s.get_char(end - 1)) {
            break;
        }
        proof {
            let u = s@.subrange(start as int, end as int);
            assert(u.drop_last() =~= s@.subrange(start as int, end - 1));
        }
        end = end - 1;
    }
    proof {
        let u = s@.subrange(start as int, end as int);
        assert(end > start ==> u.last() == s@[end - 1]);
        assert(trim_end(u) == u);
    }
    s.substring_char(start, end)
}

/// The rest of `s` after `prefix`, if `s` starts with it, as
/// `str::strip_prefix` gives it.
fn strip_prefix<'a>(s: &'a str, prefix: &str) -> (r: Option<&'a str>)
    ensures
        r is Some <==> (prefix@.len() <= s@.len() && s@.subrange(0, prefix@.len() as int)
            == prefix@),
        r is Some ==> r->Some_0@ == s@.subrange(prefix@.len() as int, s@.len() as int),
{
    let n = prefix.unicode_len();
    let m = s.unicode_len();
    if n > m {
        return None;
    }
    let mut i: usize = 0;
    while i < n
        invariant
            n == prefix@.len(),
            m == s@.len(),
            n <= m,
            i <= n,
            forall|j: int| 0 <= j < i ==> s@[j] == prefix@[j],
        decreases n - i,
    {
        if s.get_char(i) != prefix.get_char(i) {
            proof {
                assert(s@.subrange(0, n as int)[i as int] != prefix@[i as int]);
            }
            return None;
        }
        i = i + 1;
    }
    proof {
        assert(s@.subrange(0, n as int) =~= prefix@);
    }
    Some(s.substring_char(n, m))
}

/// The two headers that can carry a credential, as text; `None` stands for
/// a header that is absent or whose value cannot be read as text.
#[derive(Debug, Clone, PartialEq)]
pub struct RequestHeaders {
    /// Value of the `Authorization` header.
    pub authorization: Option<String>,
    /// Value of the `X-Node-Token` header.
    pub node_token: Option<String>,
}

/// Token of an `Authorization: Bearer <token>` header, trimmed.
pub open spec fn bearer_token(authorization: Option<String>) -> Option<Seq<char>> {
    match authorization {
        Some(v) => if "Bearer "@.len() <= v@.len() && v@.subrange(0, "Bearer "@.len() as int)
            == "Bearer "@ {
            Some(trimmed(v@.subrange("Bearer "@.len() as int, v@.len() as int)))
        } else {
            None
        },
        None => None,
    }
}

/// The token a request offers: the bearer token if there is one, else the
/// trimmed `X-Node-Token` header.
pub open spec fn provided_token(h: RequestHeaders) -> Option<Seq<char>> {
    match bearer_token(h.authorization) {
        Some(t) => Some(t),
        None => match h.node_token {
            Some(v) => Some(trimmed(v@)),
            None => None,
        },
    }
}

/// A request is admitted when no credential is configured, or when the
/// token it offers equals the credential.
pub open spec fn admits(h: RequestHeaders, expected: Option<Seq<char>>) -> bool {
    match expected {
        None => true,
        Some(e) => provided_token(h) == Some(e),
    }
}

/// Option of string views.
pub open spec fn view_opt(s: Option<&str>) -> Option<Seq<char>> {
    match s {
        Some(v) => Some(v@),
        None => None,
    }
}

fn offered_token<'a>(headers: &'a RequestHeaders) -> (r: Option<&'a str>)
    ensures
        view_opt(r) == provided_token(*headers),
{
    let bearer = match &headers.authorization {
        Some(v) => match strip_prefix(v.as_str(), "Bearer ") {
            Some(rest) => Some(trim(rest)),
            None => None,
        },
        None => None,
    };
    match bearer {
        Some(t) => Some(t),
        None => match &headers.node_token {
            Some(v) => Some(trim(v.as_str())),
            None => None,
        },
    }
}

/// Admission check on the credential headers of a request.
pub fn authorize(headers: &RequestHeaders, expected_token: Option<&str>) -> (r: Result<
    (),
    NodeError,
>)
    ensures
        r is Ok <==> admits(*headers, view_opt(expected_token)),
        r is Err ==> r->Err_0 == NodeError::Unauthorized,
{
    let expected = match expected_token {
        Some(e) => e,
        None => return Ok(()),
    };
    match offered_token(headers) {
        Some(token) => {
            if token.to_owned() == expected.to_owned() {
                Ok(())
            } else {
                Err(NodeError::Unauthorized)
            }
        },
        None => Err(NodeError::Unauthorized),
    }
}

/// The credential in force given the raw configured value: a value that is
/// empty or only white space disables authorization.
pub fn configured_credential(raw: Option<String>) -> (r: Option<String>)
    ensures
        r == match raw {
            Some(v) => if trimmed(v@).len() > 0 { Some(v) } else { None },
            None => None,
        },
{
    match raw {
        Some(v) => {
            if trim(v.as_str()).is_empty() {
                None
            } else {
                Some(v)
            }
        },
        None => None,
    }
}

/// Admission law. Without a configured credential every request is
/// admitted; with one, a request whose bearer token, or failing that whose
/// `X-Node-Token` header, equals the credential is admitted, and a request
/// that offers no token, or another token, is rejected.
pub proof fn lemma_admission(h: RequestHeaders, expected: Option<Seq<char>>)
    ensures
        expected is None ==> admits(h, expected),
        expected is Some ==> (admits(h, expected) <==> provided_token(h) == expected),
        expected is Some && h.authorization is None && h.node_token is None ==> !admits(h, expected),
        expected is Some && bearer_token(h.authorization) == expected ==> admits(h, expected),
        expected is Some && bearer_token(h.authorization) is None && h.node_token is Some
            && trimmed(h.node_token->Some_0@) == expected->Some_0 ==> admits(h, expected),
{
}

} // verus!
