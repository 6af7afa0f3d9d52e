//! A regex of fancy_regex together with the pattern it was compiled from.
use vstd::prelude::*;

verus! {

#[verifier::external_type_specification]
#[verifier::external_body]
pub struct ExRegex(fancy_regex::Regex);

#[verifier::external_type_specification]
#[verifier::external_body]
pub struct ExRegexError(fancy_regex::Error);

/// Whether `fancy_regex::Regex::new` accepts the pattern.
pub uninterp spec fn regex_compiles(pattern: Seq<char>) -> bool;

/// What `fancy_regex::Regex::try_replacen` gives back for a regex compiled from `pattern`:
/// `Some` of the rewritten text, or `None` where matching failed at run time
/// (such as when the backtracking limit was hit).
pub uninterp spec fn regex_try_replacen(
    pattern: Seq<char>,
    text: Seq<char>,
    limit: usize,
    replacement: Seq<char>,
) -> Option<Seq<char>>;

/// A compiled regex. Its fields are private to this module, and the only code that builds
/// one is `compile`, so `pattern` is always the pattern that `regex` was compiled from.
pub struct CompiledRegex {
    regex: fancy_regex::Regex,
    pattern: Ghost<Seq<char>>,
}

impl CompiledRegex {
    /// The pattern this regex was compiled from.
    pub closed spec fn pattern(&self) -> Seq<char> {
        self.pattern@
    }
}

/// Calls `fancy_regex::Regex::new`. Trusted: it succeeds exactly when `regex_compiles`
/// holds of the pattern, and the compiled regex is recorded with that pattern.
#[verifier::external_body]
pub fn compile(pattern: &str) -> (r: Result<CompiledRegex, fancy_regex::Error>)
    ensures
        r is Ok <==> regex_compiles(pattern@),
        r matches Ok(c) ==> c.pattern() == pattern@,
{
    match fancy_regex::Regex::new(pattern) {
        Ok(regex) => Ok(CompiledRegex { regex, pattern: Ghost(pattern@) }),
        Err(e) => Err(e),
    }
}

/// Calls `fancy_regex::Regex::try_replacen`. Trusted: an `Ok` result is the text that
/// `regex_try_replacen` names for the regex's pattern, and an error comes exactly where
/// `regex_try_replacen` is `None`.
#[verifier::external_body]
pub fn try_replacen(re: &CompiledRegex, text: &str, limit: usize, replacement: &str) -> (r: Result<
    String,
    fancy_regex::Error,
>)
    ensures
        match r {
            Ok(s) => regex_try_replacen(re.pattern(), text@, limit, replacement@) == Some(s@),
            Err(_) => regex_try_replacen(re.pattern(), text@, limit, replacement@) is None,
        },
{
    match re.regex.try_replacen(text, limit, replacement) {
        Ok(s) => Ok(s.into_owned()),
        Err(e) => Err(e),
    }
}

} // verus!
