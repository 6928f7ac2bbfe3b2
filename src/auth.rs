//! Reading the credential of a request: the `Authorization` header is
//! percent-decoded and the token is the word after the scheme (`Bearer <token>`).

use vstd::prelude::*;

verus! {

/// The text that a percent-encoded string decodes to, where the decoded
/// bytes are UTF-8.
pub uninterp spec fn percent_decoded(s: Seq<char>) -> Option<Seq<char>>;

/// Relies on urlencoding's `decode`, whose result depends on the text alone.
#[verifier::external_body]
fn url_decode(s: &str) -> (r: Option<String>)
    ensures
        match r {
            Some(d) => percent_decoded(s@) == Some(d@),
            None => percent_decoded(s@) is None,
        },
{
    match urlencoding::decode(s) {
        Ok(d) => Some(d.into_owned()),
        Err(_) => None,
    }
}

/// Position of the first space of `s` at or after `from`; `s.len()` where none.
pub open spec fn space_from(s: Seq<char>, from: int) -> int
    decreases s.len() - from,
{
    if from >= s.len() {
        s.len() as int
    } else if s[from] == ' ' {
        from
    } else {
        space_from(s, from + 1)
    }
}

/// The word after the first space of `s`; empty where `s` has at most one
/// character or no space.
pub open spec fn token_spec(s: Seq<char>) -> Seq<char> {
    let p = space_from(s, 0);
    if s.len() <= 1 || p >= s.len() {
        Seq::empty()
    } else {
        s.subrange(p + 1, space_from(s, p + 1))
    }
}

proof fn lemma_space_from_bounds(s: Seq<char>, from: int)
    requires
        0 <= from <= s.len(),
    ensures
        from <= space_from(s, from) <= s.len(),
    decreases s.len() - from,
{
    if from < s.len() && s[from] != ' ' {
        lemma_space_from_bounds(s, from + 1);
    }
}

fn find_space(s: &str, from: usize) -> (r: usize)
    requires
        from <= s@.len(),
    ensures
        r == space_from(s@, from as int),
{
    let n = s.unicode_len();
    let mut i = from;
    while i < n
        invariant
            n == s@.len(),
            from <= i <= n,
            space_from(s@, i as int) == space_from(s@, from as int),
        decreases n - i,
    {
        if s.get_char(i) == ' ' {
            return i;
        }
        i += 1;
    }
    i
}

/// The token of an already decoded `Authorization` value.
pub fn token_of(decoded: &str) -> (r: String)
    ensures
        r@ == token_spec(decoded@),
{
    let n = decoded.unicode_len();
    if n <= 1 {
        return String::new();
    }
    let p = find_space(decoded, 0);
    if p >= n {
        return String::new();
    }
    proof {
        lemma_space_from_bounds(decoded@, 0);
        lemma_space_from_bounds(decoded@, p + 1);
    }
    let q = find_space(decoded, p + 1);
    decoded.substring_char(p + 1, q).to_owned()
}

/// The token that a raw `Authorization` header carries; a header that does
/// not decode counts as empty.
pub fn bearer_token(header: &str) -> (r: String)
    ensures
        r@ == token_spec(
            match percent_decoded(header@) {
                Some(d) => d,
                None => Seq::empty(),
            },
        ),
{
    match url_decode(header) {
        Some(d) => token_of(d.as_str()),
        None => String::new(),
    }
}

} // verus!
