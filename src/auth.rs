use vstd::prelude::*;
use vstd::string::StrSliceExecFns;
use subtle::ConstantTimeEq;
use crate::config::Config;

verus! {

/// The request carries no valid credentials.
#[derive(PartialEq, Eq, Structural, Clone, Copy, Debug)]
pub enum AuthError {
    Unauthorized,
}

/// `c` is white space in the sense of Unicode's `White_Space` property.
pub open spec fn is_white_space(c: char) -> bool {
    ||| '\u{9}' <= c <= '\u{d}'
    ||| c == ' '
    ||| c == '\u{85}'
    ||| c == '\u{a0}'
    ||| c == '\u{1680}'
    ||| '\u{2000}' <= c <= '\u{200a}'
    ||| c == '\u{2028}'
    ||| c == '\u{2029}'
    ||| c == '\u{202f}'
    ||| c == '\u{205f}'
    ||| c == '\u{3000}'
}

/// `s` without its leading white space.
pub open spec fn trim_start(s: Seq<char>) -> Seq<char>
    decreases s.len(),
{
    if s.len() > 0 && is_white_space(s[0]) {
        trim_start(s.drop_first())
    } else {
        s
    }
}

/// `s` without its trailing white space.
pub open spec fn trim_end(s: Seq<char>) -> Seq<char>
    decreases s.len(),
{
    if s.len() > 0 && is_white_space(s.last()) {
        trim_end(s.drop_last())
    } else {
        s
    }
}

/// The token of an `Authorization` header value: what follows `Bearer ` or
/// `bearer `, without surrounding white space.
pub open spec fn bearer_token(h: Seq<char>) -> Option<Seq<char>> {
    if h.len() >= 7 && (h.take(7) == "Bearer "@ || h.take(7) == "bearer "@) {
        Some(trim_end(trim_start(h.skip(7))))
    } else {
        None
    }
}

/// The value of the first query parameter named `key`.
pub open spec fn query_value(q: Seq<(String, String)>, key: Seq<char>) -> Option<Seq<char>>
    decreases q.len(),
{
    if q.len() == 0 {
        None
    } else if q[0].0@ == key {
        Some(q[0].1@)
    } else {
        query_value(q.drop_first(), key)
    }
}

/// The token that the query parameters carry: that of `api_token`, else
/// `apitoken`, else `token`, else `key`.
pub open spec fn query_token(q: Seq<(String, String)>) -> Option<Seq<char>> {
    if query_value(q, "api_token"@) is Some {
        query_value(q, "api_token"@)
    } else if query_value(q, "apitoken"@) is Some {
        query_value(q, "apitoken"@)
    } else if query_value(q, "token"@) is Some {
        query_value(q, "token"@)
    } else {
        query_value(q, "key"@)
    }
}

/// Whether a request is let through: no key is configured, or the bearer
/// token of its `Authorization` header, or else the token of its query, is
/// the key.
pub open spec fn is_authorized(
    authorization: Option<Seq<char>>,
    query: Seq<(String, String)>,
    expected: Seq<char>,
) -> bool {
    ||| expected.len() == 0
    ||| (authorization matches Some(h) && bearer_token(h) matches Some(t) && t == expected)
    ||| (query_token(query) matches Some(t) && t == expected)
}

/// Relies on subtle's `ConstantTimeEq` for slices, converted to `bool`: true
/// exactly when both slices have the same length and the same bytes.
#[verifier::external_body]
fn constant_time_eq(lhs: &[u8], rhs: &[u8]) -> (r: bool)
    ensures
        r == (lhs@ == rhs@),
{
    lhs.ct_eq(rhs).into()
}

/// Byte equality that takes the same time whatever the bytes, once the
/// lengths agree.
pub fn subtle_equals(lhs: &[u8], rhs: &[u8]) -> (r: bool)
    ensures
        r == (lhs@ == rhs@),
{
    if lhs.len() != rhs.len() {
        return false;
    }
    constant_time_eq(lhs, rhs)
}

fn char_is_white_space(c: char) -> (r: bool)
    ensures
        r == is_white_space(c),
{
    ('\u{9}' <= c && c <= '\u{d}') || c == ' ' || c == '\u{85}' || c == '\u{a0}' || c == '\u{1680}'
        || ('\u{2000}' <= c && c <= '\u{200a}') || c == '\u{2028}' || c == '\u{2029}' || c
        == '\u{202f}' || c == '\u{205f}' || c == '\u{3000}'
}

/// `s` without leading and trailing white space.
pub fn trim(s: &str) -> (r: &str)
    ensures
        r@ == trim_end(trim_start(s@)),
{
    let n = s.unicode_len();
    let mut i: usize = 0;
    assert(s@.skip(0) =~= s@);
    while i < n && char_is_white_space(s.get_char(i))
        invariant
            i <= n == s@.len(),
            trim_start(s@) == trim_start(s@.skip(i as int)),
        decreases n - i,
    {
        assert(s@.skip(i as int).drop_first() =~= s@.skip(i + 1));
        i = i + 1;
    }
    assert(trim_start(s@) == s@.skip(i as int)) by {
        if i < n {
            assert(s@.skip(i as int)[0] == s@[i as int]);
        }
    }
    let mut j: usize = n;
    assert(s@.skip(i as int) =~= s@.subrange(i as int, n as int));
    while j > i && char_is_white_space(s.get_char(j - 1))
        invariant
            i <= j <= n == s@.len(),
            trim_end(s@.skip(i as int)) == trim_end(s@.subrange(i as int, j as int)),
        decreases j,
    {
        assert(s@.subrange(i as int, j as int).drop_last() =~= s@.subrange(i as int, j - 1));
        j = j - 1;
    }
    assert(trim_end(s@.subrange(i as int, j as int)) == s@.subrange(i as int, j as int)) by {
        if j > i {
            assert(s@.subrange(i as int, j as int).last() == s@[j - 1]);
        }
    }
    s.substring_char(i, j)
}

/// The value of the first query parameter named `key`.
pub fn find_query_value<'a>(query: &'a Vec<(String, String)>, key: &str) -> (r: Option<&'a String>)
    ensures
        match r {
            Some(v) => query_value(query@, key@) == Some(v@),
            None => query_value(query@, key@) is None,
        },
{
    let wanted = key.to_owned();
    let mut i: usize = 0;
    assert(query@.skip(0) =~= query@);
    while i < query.len()
        invariant
            i <= query@.len(),
            wanted@ == key@,
            query_value(query@, key@) == query_value(query@.skip(i as int), key@),
        decreases query@.len() - i,
    {
        assert(query@.skip(i as int).drop_first() =~= query@.skip(i + 1));
        assert(query@.skip(i as int)[0] == query@[i as int]);
        if query[i].0 == wanted {
            return Some(&query[i].1);
        }
        i = i + 1;
    }
    None
}

/// The token of an `Authorization` header value, if it is a bearer token.
pub fn extract_bearer_token(h: &str) -> (r: Option<&str>)
    ensures
        match r {
            Some(t) => bearer_token(h@) == Some(t@),
            None => bearer_token(h@) is None,
        },
{
    let n = h.unicode_len();
    if n < 7 {
        return None;
    }
    let head = h.substring_char(0, 7).to_owned();
    let upper = "Bearer ".to_owned();
    let lower = "bearer ".to_owned();
    if head == upper || head == lower {
        let rest = h.substring_char(7, n);
        assert(rest@ =~= h@.skip(7));
        Some(trim(rest))
    } else {
        None
    }
}

/// Lets a request through where no API key is configured, or where it
/// presents the key: as a bearer token in its `Authorization` header (given
/// as text, absent where the request has none or it is not text), or else as
/// the `api_token`, `apitoken`, `token` or `key` query parameter, in that
/// order of precedence.
pub fn ensure_authorized_with_query(
    authorization: Option<&str>,
    query_params: &Vec<(String, String)>,
    config: &Config,
) -> (r: Result<(), AuthError>)
    ensures
        r is Ok <==> is_authorized(
            match authorization {
                Some(h) => Some(h@),
                None => None,
            },
            query_params@,
            config.spec_api_key(),
        ),
        r is Err ==> r == Err::<(), AuthError>(AuthError::Unauthorized),
{
    let expected = config.api_key();
    if expected.unicode_len() == 0 {
        return Ok(());
    }
    if let Some(h) = authorization {
        if let Some(provided) = extract_bearer_token(h) {
            if subtle_equals(provided.as_bytes(), expected.as_bytes()) {
                proof {
                    vstd::utf8::encode_utf8_decode_utf8(provided@);
                    vstd::utf8::encode_utf8_decode_utf8(expected@);
                }
                return Ok(());
            }
        }
    }
    let token = match find_query_value(query_params, "api_token") {
        Some(v) => Some(v),
        None => match find_query_value(query_params, "apitoken") {
            Some(v) => Some(v),
            None => match find_query_value(query_params, "token") {
                Some(v) => Some(v),
                None => find_query_value(query_params, "key"),
            },
        },
    };
    if let Some(t) = token {
        if subtle_equals(t.as_str().as_bytes(), expected.as_bytes()) {
            proof {
                vstd::utf8::encode_utf8_decode_utf8(t@);
                vstd::utf8::encode_utf8_decode_utf8(expected@);
            }
            return Ok(());
        }
    }
    Err(AuthError::Unauthorized)
}

} // verus!
