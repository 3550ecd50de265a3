use vstd::prelude::*;
use vstd::string::StringExecFns;

verus! {

/// Whether the regular expression `pattern` matches somewhere in `text` (the
/// matcher's native substring search). The value is fixed by the two strings
/// alone; a pattern that is not a valid regular expression matches no text at
/// all. Nothing more is assumed of it. The library's own matching semantics
/// is whole-string: every contract speaks of this name through
/// `re_whole_match` below, which applies it to the anchored pattern.
pub uninterp spec fn re_match(pattern: Seq<char>, text: Seq<char>) -> bool;

/// Relies on regex's `Regex::new` and `Regex::is_match`: whether a pattern
/// matches somewhere in a text is a function of the two strings alone,
/// compiling the same pattern twice yields a matcher with the same behaviour,
/// and a pattern that does not compile can never report a match.
#[verifier::external_body]
fn re_is_match(pattern: &str, text: &str) -> (r: bool)
    ensures
        r == re_match(pattern@, text@),
{
    match regex::Regex::new(pattern) {
        Ok(re) => re.is_match(text),
        Err(_) => false,
    }
}

/// The pattern wrapped so that it can only match the whole text: anchored at
/// both ends, the original pattern in a non-capturing group so that its
/// alternations stay grouped. A pattern invalid on its own stays invalid in
/// this form, so it still matches nothing.
pub open spec fn anchored(pattern: Seq<char>) -> Seq<char> {
    "^(?:"@ + pattern + ")$"@
}

/// Whole-string matching, the semantics every pattern of the configuration
/// carries — `from`, `to`, `allow_questions`, `allow_answers` and the
/// interface-selection pattern alike: the pattern must match `text` in its
/// entirety, not merely a substring of it.
pub open spec fn re_whole_match(pattern: Seq<char>, text: Seq<char>) -> bool {
    re_match(anchored(pattern), text)
}

/// Builds the anchored form of a pattern.
pub fn anchor_pattern(pattern: &str) -> (out: String)
    ensures
        out@ == anchored(pattern@),
{
    let mut out: String = "^(?:".to_owned();
    out.append(pattern);
    out.append(")$");
    proof {
        assert(out@ =~= anchored(pattern@));
    }
    out
}

/// Tests whether `pattern` matches the whole of `text`.
pub fn re_is_whole_match(pattern: &str, text: &str) -> (r: bool)
    ensures
        r == re_whole_match(pattern@, text@),
{
    let anchored_pattern = anchor_pattern(pattern);
    re_is_match(anchored_pattern.as_str(), text)
}

} // verus!
