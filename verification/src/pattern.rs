//! The signature pattern: a byte-oriented regular expression with zero or
//! more named alternatives, compiled once and applied to byte windows. The
//! matching engine is an outside collaborator; its verdict on a given
//! pattern and byte window is named, not restated.

use vstd::prelude::*;

verus! {

#[verifier::external_type_specification]
#[verifier::external_body]
pub struct ExRegex(regex::bytes::Regex);

#[verifier::external_type_specification]
#[verifier::external_body]
pub struct ExRegexError(regex::Error);

/// Whether the matching engine accepts `pattern` as a well-formed pattern: a
/// function of the pattern text alone.
pub uninterp spec fn pattern_compiles(pattern: Seq<char>) -> bool;

/// The engine's verdict on one byte window: no match, or the name of the
/// first named alternative that participates in the first match (the empty
/// name when the match involves no named alternative). A function of the
/// pattern text and the bytes alone.
pub uninterp spec fn match_verdict(pattern: Seq<char>, data: Seq<u8>) -> Option<Seq<char>>;

/// Whether the pattern text is free of position anchors and boundary
/// assertions: `^`, `$`, and the escapes `\A`, `\z`, `\b`, `\B` and the
/// word-boundary aliases `\<`, `\>` (the brace forms `\b{start}` and the
/// like all begin with `\b`), judged conservatively by the characters alone.
/// A match of such a pattern depends only on the bytes it spans, so finding
/// it inside a wider window is the same as finding it alone.
pub open spec fn anchor_free(p: Seq<char>) -> bool {
    &&& forall|k: int| 0 <= k < p.len() ==> p[k] != '^' && p[k] != '$'
    &&& forall|k: int|
        0 <= k && k + 1 < p.len() && #[trigger] p[k] == '\\' ==> p[k + 1] != 'A' && p[k + 1] != 'z'
            && p[k + 1] != 'b' && p[k + 1] != 'B' && p[k + 1] != '<' && p[k + 1] != '>'
}

/// Relies on regex::bytes::Regex::new: compiling a pattern string succeeds
/// or fails deterministically in the pattern text alone.
#[verifier::external_body]
fn regex_new(pattern: &str) -> (r: Result<regex::bytes::Regex, regex::Error>)
    ensures
        r is Ok <==> pattern_compiles(pattern@),
{
    regex::bytes::Regex::new(pattern)
}

/// Relies on the Display implementation of regex::Error: renders the
/// compile failure for reporting.
#[verifier::external_body]
fn regex_error_text(e: &regex::Error) -> (r: String) {
    format!("{}", e)
}

/// An immutable compiled signature pattern, kept beside the text it was
/// compiled from; contracts speak of the text.
pub struct SignaturePattern {
    matcher: regex::bytes::Regex,
    text: String,
}

impl View for SignaturePattern {
    type V = Seq<char>;

    closed spec fn view(&self) -> Seq<char> {
        self.text@
    }
}

impl SignaturePattern {
    /// Compile `pattern`. Succeeds exactly on the patterns the engine
    /// accepts; a failure carries the engine's rendering of the error.
    pub fn compile(pattern: String) -> (r: Result<SignaturePattern, String>)
        ensures
            r is Ok <==> pattern_compiles(pattern@),
            r is Ok ==> r->Ok_0@ == pattern@,
    {
        match regex_new(pattern.as_str()) {
            Ok(matcher) => Ok(SignaturePattern { matcher, text: pattern }),
            Err(e) => Err(regex_error_text(&e)),
        }
    }

    /// Relies on regex::bytes::Regex::captures, Regex::capture_names and
    /// Captures::name: evaluates the pattern against one byte window and
    /// reports which named alternative, if any, matched — the engine's
    /// verdict on the held pattern text and these bytes. `captures` searches
    /// for a match anywhere in its haystack, and the engine has no
    /// look-around, so when the pattern carries no anchor or boundary
    /// assertion a window the engine rejects has no contiguous part it would
    /// accept either: the rejection covers every sub-window.
    #[verifier::external_body]
    pub fn match_label(&self, data: &[u8]) -> (r: Option<String>)
        ensures
            r is Some <==> match_verdict(self@, data@) is Some,
            r is Some ==> r->Some_0@ == match_verdict(self@, data@)->Some_0,
            r is None && anchor_free(self@) ==> forall|i: int, j: int|
                0 <= i <= j <= data@.len() ==> match_verdict(self@, data@.subrange(i, j)) is None,
    {
        match self.matcher.captures(data) {
            None => None,
            Some(caps) => {
                for name in self.matcher.capture_names().flatten() {
                    if caps.name(name).is_some() {
                        return Some(name.to_string());
                    }
                }
                Some(String::new())
            },
        }
    }
}

} // verus!
