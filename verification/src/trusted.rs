//! The calls into std and into outside crates that the library makes, each
//! behind a contract that is believed, not proved.
use vstd::prelude::*;

verus! {

/// `String::push`: appends one character to the end of the string.
#[verifier::external_body]
pub(crate) fn push_char(s: &mut String, c: char)
    ensures
        final(s)@ == old(s)@.push(c),
{
    s.push(c);
}

/// What `str::to_lowercase` gives back for a character sequence (Unicode
/// lower-case mapping, independent of locale).
pub uninterp spec fn unicode_lowercase(s: Seq<char>) -> Seq<char>;

/// `str::to_lowercase`: the Unicode lower-case form of the string; the result
/// is named, not spelled out. Of ASCII text it states what the documentation
/// gives: such text is lowered as `str::to_ascii_lowercase` lowers it (whose
/// documentation names `to_lowercase` as the form that lowers non-ASCII
/// characters besides), so lowering the result again changes nothing.
/// Nothing is stated of other text.
#[verifier::external_body]
pub(crate) fn to_lowercase(s: &str) -> (r: String)
    ensures
        r@ == unicode_lowercase(s@),
        crate::text::all_ascii(s@) ==> r@ == crate::text::ascii_lower_seq(s@),
        crate::text::all_ascii(s@) ==> unicode_lowercase(r@) == r@,
{
    s.to_lowercase()
}

/// What `std::path::Path::exists` answers depends on the disk at the moment of
/// the call; nothing is promised of it.
#[verifier::external_body]
pub(crate) fn path_exists(path: &str) -> (r: bool) {
    std::path::Path::new(path).exists()
}

/// The parts of a parsed URL that the library reads.
pub struct ParsedUrl {
    pub serialization: String,
    pub scheme: String,
    pub host: Option<String>,
}

/// Whether `url::Url::parse` accepts the text.
pub uninterp spec fn url_parses(s: Seq<char>) -> bool;

/// What `url::Url::as_str` gives back for the URL that `Url::parse` makes of the text.
pub uninterp spec fn url_serialization(s: Seq<char>) -> Seq<char>;

/// What `url::Url::scheme` gives back for the URL that `Url::parse` makes of the text.
pub uninterp spec fn url_scheme(s: Seq<char>) -> Seq<char>;

/// What `url::Url::host_str` gives back for the URL that `Url::parse` makes of the text.
pub uninterp spec fn url_host(s: Seq<char>) -> Option<Seq<char>>;

/// The `Display` text of the `url::ParseError` that `Url::parse` returns for the text.
pub uninterp spec fn url_parse_error_text(s: Seq<char>) -> Seq<char>;

/// `url::Url::parse`, then `as_str`, `scheme` and `host_str` of the result, or the
/// error's text; each outcome is named by a function of the input text.
#[verifier::external_body]
pub(crate) fn parse_url(s: &str) -> (r: Result<ParsedUrl, String>)
    ensures
        match r {
            Ok(p) => {
                &&& url_parses(s@)
                &&& p.serialization@ == url_serialization(s@)
                &&& p.scheme@ == url_scheme(s@)
                &&& p.host.deep_view() == url_host(s@)
            },
            Err(e) => !url_parses(s@) && e@ == url_parse_error_text(s@),
        },
{
    match url::Url::parse(s) {
        Ok(u) => Ok(
            ParsedUrl {
                serialization: u.as_str().to_string(),
                scheme: u.scheme().to_string(),
                host: u.host_str().map(|h| h.to_string()),
            },
        ),
        Err(error) => Err(format!("{error}")),
    }
}

/// Whether globset makes a matcher of the pattern: `GlobBuilder` (case
/// insensitive) parses it, and `GlobSetBuilder::build` compiles the set that
/// holds it alone.
pub uninterp spec fn glob_builds(pattern: Seq<char>) -> bool;

/// Whether the set that holds the case-insensitive glob of the pattern
/// matches the text (`GlobSet::is_match_candidate` on the text's bytes).
pub uninterp spec fn glob_is_match(pattern: Seq<char>, text: Seq<char>) -> bool;

/// Builds the case-insensitive glob of `pattern`, compiles a glob set that
/// holds it alone, and matches `text` against the set: `None` when the glob
/// does not parse or does not compile (`GlobSetBuilder::build` returns the
/// compile error, where `Glob::compile_matcher` would panic on it). The text
/// holds no backslash, so the candidate is the same on every platform.
#[verifier::external_body]
pub(crate) fn glob_match(pattern: &str, text: &str) -> (r: Option<bool>)
    requires
        !crate::text::has_char(text@, '\\'),
    ensures
        r is Some <==> glob_builds(pattern@),
        r matches Some(b) ==> b == glob_is_match(pattern@, text@),
{
    let glob = match globset::GlobBuilder::new(pattern).case_insensitive(true).build() {
        Ok(glob) => glob,
        Err(_) => return None,
    };
    match globset::GlobSetBuilder::new().add(glob).build() {
        Ok(set) => Some(set.is_match_candidate(&globset::Candidate::from_bytes(text.as_bytes()))),
        Err(_) => None,
    }
}

/// Whether `regex::Regex::new` accepts the pattern.
pub uninterp spec fn regex_compiles(pattern: Seq<char>) -> bool;

/// Whether the regex compiled from the pattern matches somewhere in the text
/// (`Regex::is_match`).
pub uninterp spec fn regex_is_match(pattern: Seq<char>, text: Seq<char>) -> bool;

/// The `Display` text of the error that `Regex::new` returns for the pattern.
pub uninterp spec fn regex_error_text(pattern: Seq<char>) -> Seq<char>;

/// Compiles `pattern` with `regex::Regex::new` and matches `text` against it:
/// `None` when the pattern does not compile.
#[verifier::external_body]
pub(crate) fn regex_match(pattern: &str, text: &str) -> (r: Option<bool>)
    ensures
        r is Some <==> regex_compiles(pattern@),
        r matches Some(b) ==> b == regex_is_match(pattern@, text@),
{
    match regex::Regex::new(pattern) {
        Ok(re) => Some(re.is_match(text)),
        Err(_) => None,
    }
}

/// Compiles `pattern` with `regex::Regex::new`, giving back the error's text
/// when it does not compile.
#[verifier::external_body]
pub(crate) fn regex_check(pattern: &str) -> (r: Result<(), String>)
    ensures
        r is Ok <==> regex_compiles(pattern@),
        r matches Err(e) ==> e@ == regex_error_text(pattern@),
{
    match regex::Regex::new(pattern) {
        Ok(_) => Ok(()),
        Err(error) => Err(format!("{error}")),
    }
}

} // verus!
