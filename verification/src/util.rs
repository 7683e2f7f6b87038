//! The two reaction emoji that count as votes, and what counts as a link.

use vstd::prelude::*;
use vstd::string::StringExecFns;

verus! {

/// The characters of the upvote emoji: the single scalar U+1F44D.
pub open spec fn thumbs_up_chars() -> Seq<char> {
    seq!['\u{1F44D}']
}

/// The characters of the downvote emoji: the single scalar U+1F44E.
pub open spec fn thumbs_down_chars() -> Seq<char> {
    seq!['\u{1F44E}']
}

/// The emoji that casts an upvote.
pub fn get_thumbs_up() -> (emoji: String)
    ensures
        emoji@ == thumbs_up_chars(),
{
    proof {
        reveal_strlit("\u{1F44D}");
    }
    assert("\u{1F44D}"@ =~= thumbs_up_chars());
    String::from_str("\u{1F44D}")
}

/// The emoji that casts a downvote.
pub fn get_thumbs_down() -> (emoji: String)
    ensures
        emoji@ == thumbs_down_chars(),
{
    proof {
        reveal_strlit("\u{1F44E}");
    }
    assert("\u{1F44E}"@ =~= thumbs_down_chars());
    String::from_str("\u{1F44E}")
}

/// The regular expression that a text has to match somewhere to count as a
/// link.
pub open spec fn url_pattern() -> Seq<char> {
    "https?://(www\\.)?[-a-zA-Z0-9@:%._\\+~#=]{2,256}\\.[a-z]{2,4}\\b([-a-zA-Z0-9@:%_\\+.~#?&//=]*)"@
}

/// Names what the `regex` crate finds: nothing where `pattern` does not
/// compile with `Regex::new`, and otherwise what `Regex::is_match` of the
/// compiled pattern says of `haystack`, which is whether the pattern matches
/// anywhere in it.
pub uninterp spec fn regex_search(pattern: Seq<char>, haystack: Seq<char>) -> Option<bool>;

/// Compiles `pattern` with `regex::Regex::new` and asks `Regex::is_match`
/// whether it matches somewhere in `haystack`. The result is taken on trust
/// to depend on the two texts alone.
#[verifier::external_body]
fn regex_is_match(pattern: &str, haystack: &str) -> (found: Option<bool>)
    ensures
        found == regex_search(pattern@, haystack@),
{
    match regex::Regex::new(pattern) {
        Ok(compiled) => Some(compiled.is_match(haystack)),
        Err(_) => None,
    }
}

/// What a search says about a text being a link: it is one exactly when the
/// pattern compiled and matched.
pub fn link_verdict(found: Option<bool>) -> (is_link: bool)
    ensures
        is_link <==> found == Some(true),
{
    match found {
        Some(matched) => matched,
        None => false,
    }
}

/// Whether `url` holds a link: an address that starts with `http://` or
/// `https://` and names a host with a top-level domain.
pub fn is_url(url: &str) -> (is_link: bool)
    ensures
        is_link <==> regex_search(url_pattern(), url@) == Some(true),
{
    let found = regex_is_match(
        "https?://(www\\.)?[-a-zA-Z0-9@:%._\\+~#=]{2,256}\\.[a-z]{2,4}\\b([-a-zA-Z0-9@:%_\\+.~#?&//=]*)",
        url,
    );
    link_verdict(found)
}

} // verus!
