//! Git forges that releases are fetched from: the requests they take and
//! how their answers become [`Release`](crate::model::Release) values.

pub mod gitea;
pub mod github;
pub mod gitlab;

pub use gitea::Gitea;
pub use github::GitHub;
pub use gitlab::GitLab;

use vstd::prelude::*;
use vstd::utf8::encode_utf8;
use crate::text::{lemma_trim_idempotent, opt_chars, owned, trim, trim_str};

verus! {

/// The top-level shape of a forge's JSON answer, with its releases decoded:
/// a list of releases, a single release, or anything else.
pub enum ReleasePayload<T> {
    /// A JSON array of releases.
    Many(Vec<T>),
    /// A JSON object holding one release.
    One(T),
    /// Any other JSON value.
    Other,
}

/// A byte that `urlencoding::encode` leaves as it is: an ASCII letter or
/// digit, or one of `-`, `.`, `_`, `~`.
pub open spec fn is_unreserved(b: u8) -> bool {
    ||| 0x30 <= b <= 0x39
    ||| 0x41 <= b <= 0x5A
    ||| 0x61 <= b <= 0x7A
    ||| b == 0x2D
    ||| b == 0x2E
    ||| b == 0x5F
    ||| b == 0x7E
}

/// The upper-case hexadecimal digit for `d` (below 16).
pub open spec fn hex_digit(d: u8) -> char {
    if d < 10 {
        (0x30 + d) as char
    } else {
        (0x41 + d - 10) as char
    }
}

/// A byte, percent-encoded unless it is unreserved.
pub open spec fn percent_encode_byte(b: u8) -> Seq<char> {
    if is_unreserved(b) {
        seq![b as char]
    } else {
        seq!['%', hex_digit(b / 16), hex_digit(b % 16)]
    }
}

/// The bytes, each percent-encoded unless it is unreserved.
pub open spec fn percent_encode(bytes: Seq<u8>) -> Seq<char>
    decreases bytes.len(),
{
    if bytes.len() == 0 {
        seq![]
    } else {
        percent_encode_byte(bytes[0]) + percent_encode(bytes.drop_first())
    }
}

/// `s` URL-encoded: its UTF-8 bytes, percent-encoded.
pub open spec fn url_encode(s: Seq<char>) -> Seq<char> {
    percent_encode(encode_utf8(s))
}

/// Calls `urlencoding::encode`. Trusted: as its source shows, it
/// percent-encodes every UTF-8 byte of `s` except ASCII letters, digits and
/// `-`, `.`, `_`, `~`, with upper-case hexadecimal digits.
#[verifier::external_body]
pub(crate) fn encode_component(s: &str) -> (r: String)
    ensures
        r@ == url_encode(s@),
{
    urlencoding::encode(s).into_owned()
}

/// The characters of each optional string.
pub open spec fn opt_strings_view(v: Seq<Option<String>>) -> Seq<Option<Seq<char>>> {
    v.map_values(|o: Option<String>| opt_chars(o))
}

/// The first candidate that is set and not blank, trimmed.
pub open spec fn first_token(values: Seq<Option<Seq<char>>>) -> Option<Seq<char>>
    decreases values.len(),
{
    if values.len() == 0 {
        None
    } else if values[0] is Some && trim(values[0]->0).len() > 0 {
        Some(trim(values[0]->0))
    } else {
        first_token(values.drop_first())
    }
}

/// The token once candidates (the values of environment variables, in
/// order) are offered: a token already set stays.
pub open spec fn token_from_candidates(
    current: Option<Seq<char>>,
    values: Seq<Option<Seq<char>>>,
) -> Option<Seq<char>> {
    if current is Some {
        current
    } else {
        first_token(values)
    }
}

/// The token chosen from `current` and the candidate values.
pub(crate) fn select_token(current: Option<String>, values: &Vec<Option<String>>) -> (r: Option<
    String,
>)
    ensures
        opt_chars(r) == token_from_candidates(opt_chars(current), opt_strings_view(values@)),
{
    if current.is_some() {
        return current;
    }
    let ghost all = opt_strings_view(values@);
    assert(all.skip(0) =~= all);
    let mut i: usize = 0;
    while i < values.len()
        invariant
            0 <= i <= values@.len(),
            all == opt_strings_view(values@),
            all.len() == values@.len(),
            current is None,
            first_token(all) == first_token(all.skip(i as int)),
        decreases values@.len() - i,
    {
        assert(all.skip(i as int).drop_first() =~= all.skip(i + 1));
        assert(all.skip(i as int)[0] == opt_chars(values@[i as int]));
        match &values[i] {
            Some(v) => {
                let trimmed = trim_str(v.as_str());
                if !trimmed.is_empty() {
                    assert(all.skip(i as int)[0] == Some(v@));
                    assert(first_token(all.skip(i as int)) == Some(trim(v@)));
                    return Some(owned(trimmed));
                }
            },
            None => {},
        }
        i = i + 1;
    }
    assert(all.skip(i as int) =~= Seq::<Option<Seq<char>>>::empty());
    None
}

/// A token already set is never replaced by candidates.
pub proof fn lemma_set_token_stays(token: Seq<char>, values: Seq<Option<Seq<char>>>)
    ensures
        token_from_candidates(Some(token), values) == Some(token),
{
}

/// A token taken from the candidates is not blank and has no surrounding
/// white space.
pub proof fn lemma_candidate_token_trimmed(values: Seq<Option<Seq<char>>>)
    ensures
        first_token(values) matches Some(t) ==> t.len() > 0 && trim(t) == t,
    decreases values.len(),
{
    if values.len() > 0 {
        if values[0] is Some && trim(values[0]->0).len() > 0 {
            lemma_trim_idempotent(values[0]->0);
        } else {
            lemma_candidate_token_trimmed(values.drop_first());
        }
    }
}

/// With no token set, the token comes from the earliest candidate that is
/// set and not blank, trimmed; when no candidate is, there is no token.
pub proof fn lemma_earliest_usable_candidate(values: Seq<Option<Seq<char>>>)
    ensures
        forall|i: int|
            #![trigger values[i]]
            0 <= i < values.len() && values[i] is Some && trim(values[i]->0).len() > 0 && (forall|
                j: int,
            |
                #![trigger values[j]]
                0 <= j < i ==> values[j] is None || trim(values[j]->0).len() == 0)
                ==> token_from_candidates(None, values) == Some(trim(values[i]->0)),
        (forall|j: int|
            #![trigger values[j]]
            0 <= j < values.len() ==> values[j] is None || trim(values[j]->0).len() == 0)
            ==> token_from_candidates(None, values) is None,
    decreases values.len(),
{
    if values.len() > 0 {
        let rest = values.drop_first();
        lemma_earliest_usable_candidate(rest);
        assert forall|i: int|
            #![trigger values[i]]
            0 <= i < values.len() && values[i] is Some && trim(values[i]->0).len() > 0 && (forall|
                j: int,
            |
                #![trigger values[j]]
                0 <= j < i ==> values[j] is None || trim(values[j]->0).len() == 0)
                implies token_from_candidates(None, values) == Some(trim(values[i]->0)) by {
            if i > 0 {
                assert(values[0] is None || trim(values[0]->0).len() == 0);
                assert(rest[i - 1] == values[i]);
                assert forall|j: int| 0 <= j < i - 1 implies #[trigger] rest[j] is None || trim(
                    rest[j]->0,
                ).len() == 0 by {
                    assert(rest[j] == values[j + 1]);
                }
            }
        }
        if forall|j: int|
            #![trigger values[j]]
            0 <= j < values.len() ==> values[j] is None || trim(values[j]->0).len() == 0 {
            assert(values[0] is None || trim(values[0]->0).len() == 0);
            assert forall|j: int| 0 <= j < rest.len() implies #[trigger] rest[j] is None || trim(
                rest[j]->0,
            ).len() == 0 by {
                assert(rest[j] == values[j + 1]);
            }
        }
    }
}

} // verus!
