use vstd::prelude::*;
use regex::Regex;

verus! {

/// The error with which the `regex` crate turns a pattern down.
#[verifier::external_type_specification]
#[verifier::external_body]
pub struct ExRegexError(regex::Error);

/// Whether `pattern` has a match somewhere in `text`, as the `regex` crate
/// finds it; `None` when the crate does not accept the pattern.
pub uninterp spec fn pattern_matches(pattern: Seq<char>, text: Seq<char>) -> Option<bool>;

/// The part of `text` that capture group `group` of `pattern` covers in the
/// leftmost match, as the `regex` crate finds it; the inner `None` when
/// there is no match or the group takes no part in it, the outer `None` when
/// the crate does not accept the pattern.
pub uninterp spec fn pattern_group(pattern: Seq<char>, group: usize, text: Seq<char>) -> Option<
    Option<Seq<char>>,
>;

/// The pieces into which the matches of `pattern` cut `text`, in order and
/// with the empty ones, as the `regex` crate finds them; `None` when the
/// crate does not accept the pattern.
pub uninterp spec fn pattern_pieces(pattern: Seq<char>, text: Seq<char>) -> Option<
    Seq<Seq<char>>,
>;

/// The contents of a list of texts.
pub open spec fn texts_view(v: Seq<&str>) -> Seq<Seq<char>> {
    Seq::new(v.len(), |i: int| v[i]@)
}

/// `Regex::new` on the pattern, then `Regex::is_match` on the text. Nothing
/// is proved of either: the result is only given its name.
#[verifier::external_body]
pub(crate) fn is_match(pattern: &str, text: &str) -> (r: Result<bool, regex::Error>)
    ensures
        match r {
            Ok(b) => pattern_matches(pattern@, text@) == Some(b),
            Err(_) => pattern_matches(pattern@, text@) is None,
        },
{
    let re = Regex::new(pattern)?;
    Ok(re.is_match(text))
}

/// `Regex::new` on the pattern, then `Regex::captures` on the text and
/// `Captures::get` for the group. Nothing is proved of them: the result is
/// only given its name.
#[verifier::external_body]
pub(crate) fn group_text<'a>(pattern: &str, group: usize, text: &'a str) -> (r: Result<
    Option<&'a str>,
    regex::Error,
>)
    ensures
        match r {
            Ok(Some(g)) => pattern_group(pattern@, group, text@) == Some(Some(g@)),
            Ok(None) => pattern_group(pattern@, group, text@) == Some(None::<Seq<char>>),
            Err(_) => pattern_group(pattern@, group, text@) is None,
        },
{
    let re = Regex::new(pattern)?;
    Ok(re.captures(text).and_then(|c| c.get(group)).map(|m| m.as_str()))
}

/// `Regex::new` on the pattern, then `Regex::split` on the text, its pieces
/// gathered in order. Nothing is proved of them: the result is only given
/// its name.
#[verifier::external_body]
pub(crate) fn pieces<'a>(pattern: &str, text: &'a str) -> (r: Result<Vec<&'a str>, regex::Error>)
    ensures
        match r {
            Ok(v) => pattern_pieces(pattern@, text@) == Some(texts_view(v@)),
            Err(_) => pattern_pieces(pattern@, text@) is None,
        },
{
    let re = Regex::new(pattern)?;
    Ok(re.split(text).collect())
}

} // verus!
