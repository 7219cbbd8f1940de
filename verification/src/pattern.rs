//! Compiled filter patterns. Pattern compilation and matching are done by
//! the `regex` crate; the library records which pattern a compiled value was
//! built from and speaks of matching through two named results.

use vstd::prelude::*;

verus! {

#[verifier::external_type_specification]
#[verifier::external_body]
pub struct ExRegex(regex::Regex);

/// Whether `regex::Regex::new` accepts a pattern. Acceptance is a function
/// of the pattern text alone.
pub uninterp spec fn pattern_ok(p: Seq<char>) -> bool;

/// What `regex::Regex::is_match` returns for a pattern and a haystack. The
/// result is a function of the two texts alone.
pub uninterp spec fn pattern_matches(p: Seq<char>, s: Seq<char>) -> bool;

/// A compiled filter pattern, together with the text it was compiled from.
/// The only constructor is `compile`, so the compiled value always belongs
/// to the recorded text.
pub struct CompiledPattern {
    source: String,
    re: regex::Regex,
}

impl CompiledPattern {
    /// The pattern text this value was compiled from.
    pub closed spec fn src(&self) -> Seq<char> {
        self.source@
    }

    /// Relies on `regex::Regex::new`: it accepts or rejects a pattern as a
    /// function of the pattern text alone.
    #[verifier::external_body]
    pub(crate) fn compile(pattern: &str) -> (r: Option<CompiledPattern>)
        ensures
            r is Some <==> pattern_ok(pattern@),
            (r matches Some(p) ==> p.src() == pattern@),
    {
        match regex::Regex::new(pattern) {
            Ok(re) => Some(CompiledPattern { source: pattern.to_string(), re }),
            Err(_) => None,
        }
    }

    /// Relies on `regex::Regex::is_match`: the result is a function of the
    /// compiled pattern's text and the haystack alone.
    #[verifier::external_body]
    pub(crate) fn is_match(&self, s: &str) -> (r: bool)
        ensures
            r == pattern_matches(self.src(), s@),
    {
        self.re.is_match(s)
    }
}

} // verus!
