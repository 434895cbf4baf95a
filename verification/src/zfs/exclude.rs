//! Exclusion patterns: regular expressions matched against source
//! filesystem names during cloning.  The regex crate does the matching;
//! the set itself and its use are verified.

use vstd::prelude::*;

use crate::errors::Error;

verus! {

/// Whether `regex::Regex::new` accepts the pattern: a function of the
/// pattern alone.
pub uninterp spec fn regex_valid(pat: Seq<char>) -> bool;

/// Whether the compiled pattern matches anywhere in the haystack: a
/// function of pattern and haystack alone.
pub uninterp spec fn regex_matches(pat: Seq<char>, text: Seq<char>) -> bool;

/// Relies on `regex::Regex::new`: compiling the same pattern succeeds or
/// fails deterministically.
#[verifier::external_body]
fn pattern_compiles(pat: &str) -> (r: bool)
    ensures
        r == regex_valid(pat@),
{
    regex::Regex::new(pat).is_ok()
}

/// Relies on `regex::Regex::new` and `regex::Regex::is_match`: for a
/// pattern that compiles, whether it matches somewhere in `text` depends
/// on the two strings alone.
#[verifier::external_body]
fn pattern_matches(pat: &str, text: &str) -> (r: bool)
    requires
        regex_valid(pat@),
    ensures
        r == regex_matches(pat@, text@),
{
    match regex::Regex::new(pat) {
        Ok(re) => re.is_match(text),
        Err(_) => false,
    }
}

/// A name is excluded when any pattern of the set matches it.
pub open spec fn excluded_by(pats: Seq<Seq<char>>, text: Seq<char>) -> bool {
    exists|i: int| 0 <= i < pats.len() && regex_matches(pats[i], text)
}

/// An ordered set of exclusion patterns; a source filesystem whose name
/// matches any of them is skipped during cloning.
pub struct Exclusions {
    patterns: Vec<String>,
}

impl View for Exclusions {
    type V = Seq<Seq<char>>;

    closed spec fn view(&self) -> Seq<Seq<char>> {
        self.patterns.deep_view()
    }
}

impl Exclusions {
    #[verifier::type_invariant]
    spec fn wf(&self) -> bool {
        forall|i: int| 0 <= i < self.patterns@.len() ==> regex_valid(
            #[trigger] self.patterns.deep_view()[i],
        )
    }

    /// Build an exclusion set, validating every pattern; a pattern the
    /// regex engine rejects fails the whole set with `ConfigurationError`.
    pub fn new(excludes: &Vec<String>) -> (r: Result<Exclusions, Error>)
        ensures
            r is Ok <==> forall|i: int| 0 <= i < excludes@.len() ==> regex_valid(
                #[trigger] excludes.deep_view()[i],
            ),
            r matches Ok(e) ==> e@ == excludes.deep_view(),
            r matches Err(e) ==> e == Error::ConfigurationError,
    {
        let n = excludes.len();
        let mut patterns: Vec<String> = Vec::new();
        let mut i: usize = 0;
        while i < n
            invariant
                n == excludes@.len(),
                i <= n,
                patterns@.len() == i,
                forall|j: int| 0 <= j < i ==> patterns@[j] == excludes@[j],
                forall|j: int| 0 <= j < i ==> regex_valid(#[trigger] excludes.deep_view()[j]),
            decreases n - i,
        {
            if !pattern_compiles(excludes[i].as_str()) {
                proof {
                    assert(excludes.deep_view()[i as int] == excludes@[i as int]@);
                    assert(!regex_valid(excludes.deep_view()[i as int]));
                }
                return Err(Error::ConfigurationError);
            }
            patterns.push(excludes[i].clone());
            i = i + 1;
        }
        proof {
            assert(patterns.deep_view() =~= excludes.deep_view());
        }
        Ok(Exclusions { patterns })
    }

    /// Does any pattern of the set match `text`?
    pub fn is_excluded(&self, text: &str) -> (r: bool)
        ensures
            r == excluded_by(self@, text@),
    {
        proof {
            use_type_invariant(self);
        }
        let n = self.patterns.len();
        let mut i: usize = 0;
        while i < n
            invariant
                self.wf(),
                n == self.patterns@.len(),
                i <= n,
                forall|j: int| 0 <= j < i ==> !regex_matches(
                    #[trigger] self.patterns.deep_view()[j],
                    text@,
                ),
            decreases n - i,
        {
            proof {
                assert(self.patterns.deep_view()[i as int] == self.patterns@[i as int]@);
                assert(regex_valid(self.patterns.deep_view()[i as int]));
            }
            if pattern_matches(self.patterns[i].as_str(), text) {
                proof {
                    assert(regex_matches(self.patterns.deep_view()[i as int], text@));
                }
                return true;
            }
            i = i + 1;
        }
        false
    }
}

} // verus!
