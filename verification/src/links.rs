//! Turning the web links in a message's text into anchors, with fancy_regex doing the matching.
use vstd::prelude::*;

use crate::regex::{compile, regex_compiles, regex_try_replacen, try_replacen, CompiledRegex};

verus! {

/// The pattern of a web link: an `http://` or `https://` word, where a word is bounded
/// by spaces, line breaks, or the ends of the text.
pub open spec fn link_pattern() -> Seq<char> {
    "(?<![^ \\n])(https?://.*?)(?![^ \\n])"@
}

/// What a link becomes: an anchor that shows the link and points to it.
pub open spec fn link_template() -> Seq<char> {
    "<a href=\"$1\">$1</a>"@
}

fn link_pattern_text() -> (r: &'static str)
    ensures
        r@ == link_pattern(),
{
    "(?<![^ \\n])(https?://.*?)(?![^ \\n])"
}

fn link_template_text() -> (r: &'static str)
    ensures
        r@ == link_template(),
{
    "<a href=\"$1\">$1</a>"
}

/// The text with every link turned into an anchor; `None` where the matching failed.
pub open spec fn marked_up(text: Seq<char>) -> Option<Seq<char>> {
    regex_try_replacen(link_pattern(), text, 0, link_template())
}

/// Marking up replaces every match of the link pattern, not only the first ones: it is
/// fancy_regex's replacement with the limit 0, which stands for "all".
pub proof fn lemma_marked_up_replaces_all(text: Seq<char>)
    ensures
        marked_up(text) == regex_try_replacen(link_pattern(), text, 0, link_template()),
{
}

/// The compiled link pattern.
pub struct LinkMarkup {
    regex: CompiledRegex,
}

impl LinkMarkup {
    /// Every markup holds the regex compiled from the link pattern.
    #[verifier::type_invariant]
    spec fn compiled_from_link_pattern(self) -> bool {
        self.regex.pattern() == link_pattern()
    }

    /// The pattern that this markup's regex was compiled from.
    pub closed spec fn pattern(&self) -> Seq<char> {
        self.regex.pattern()
    }

    /// Compiles the link pattern; `None` where fancy_regex refuses it.
    pub fn new() -> (r: Option<LinkMarkup>)
        ensures
            r is Some <==> regex_compiles(link_pattern()),
            r matches Some(m) ==> m.pattern() == link_pattern(),
    {
        match compile(link_pattern_text()) {
            Ok(regex) => Some(LinkMarkup { regex }),
            Err(_) => None,
        }
    }

    /// Turns every link of `text` into an anchor, as `marked_up` says; `None` where the
    /// regex engine failed on the text.
    pub fn render(&self, text: &str) -> (r: Option<String>)
        ensures
            match r {
                Some(s) => regex_try_replacen(link_pattern(), text@, 0, link_template()) == Some(
                    s@,
                ),
                None => regex_try_replacen(link_pattern(), text@, 0, link_template()) is None,
            },
            r matches Some(s) ==> marked_up(text@) == Some(s@),
            r is None ==> marked_up(text@) is None,
    {
        proof {
            use_type_invariant(self);
        }
        match try_replacen(&self.regex, text, 0, link_template_text()) {
            Ok(s) => Some(s),
            Err(_) => None,
        }
    }
}

} // verus!
