//! Compiled pattern values.
//!
//! Matching itself is done by the `regex` crate; each compiled value keeps
//! the pattern text it was built from, and every contract about matching
//! speaks of that text through the uninterpreted functions below.

use vstd::prelude::*;

verus! {

#[verifier::external_type_specification]
#[verifier::external_body]
pub struct ExRegex(regex::Regex);

#[verifier::external_type_specification]
#[verifier::external_body]
pub struct ExRegexSet(regex::RegexSet);

/// Whether `regex::Regex::new` accepts `pattern`: a function of the pattern
/// text alone.
pub uninterp spec fn regex_accepts(pattern: Seq<char>) -> bool;

/// What `regex::Regex::is_match` returns for a regex compiled from `pattern`
/// on `text`: a function of the two strings alone.
pub uninterp spec fn regex_match(pattern: Seq<char>, text: Seq<char>) -> bool;

/// Whether `regex::RegexSet::new` accepts this list of patterns.
pub uninterp spec fn regex_set_accepts(patterns: Seq<Seq<char>>) -> bool;

/// What `regex::RegexSet::is_match` returns for a set compiled from
/// `patterns` on `text`: true exactly when one of the patterns matches.
pub uninterp spec fn regex_set_match(patterns: Seq<Seq<char>>, text: Seq<char>) -> bool;

/// One user-supplied regular expression, kept with its source text. Its
/// abstract value is that text.
pub struct UserRegex {
    src: String,
    re: regex::Regex,
}

impl View for UserRegex {
    type V = Seq<char>;

    closed spec fn view(&self) -> Seq<char> {
        self.src@
    }
}

impl UserRegex {
    /// Relies on `regex::Regex::new`: it returns `Ok` exactly when the
    /// pattern text is a valid regular expression, deterministically in the
    /// text; the compiled value is kept beside its source.
    #[verifier::external_body]
    pub fn compile(pattern: &str) -> (r: Option<UserRegex>)
        ensures
            r is Some <==> regex_accepts(pattern@),
            r matches Some(u) ==> u@ == pattern@,
    {
        match regex::Regex::new(pattern) {
            Ok(re) => Some(UserRegex { src: pattern.to_string(), re }),
            Err(_) => None,
        }
    }

    /// Relies on `regex::Regex::is_match`: the result depends only on the
    /// pattern the regex was compiled from and on the haystack.
    #[verifier::external_body]
    pub fn is_match(&self, text: &str) -> (r: bool)
        ensures
            r == regex_match(self@, text@),
    {
        self.re.is_match(text)
    }

    /// The pattern text this regex was compiled from.
    pub fn source(&self) -> (r: &str)
        ensures
            r@ == self@,
    {
        self.src.as_str()
    }
}

impl Clone for UserRegex {
    /// Relies on `regex::Regex::clone`: the clone matches as the original
    /// does; the source text is cloned beside it.
    #[verifier::external_body]
    fn clone(&self) -> (r: Self)
        ensures
            r@ == self@,
    {
        UserRegex { src: self.src.clone(), re: self.re.clone() }
    }
}

/// A compiled alternation of patterns from one ignore file. Its abstract
/// value is the list of pattern texts it was compiled from.
pub struct PatternSet {
    pats: Vec<String>,
    set: regex::RegexSet,
}

impl View for PatternSet {
    type V = Seq<Seq<char>>;

    closed spec fn view(&self) -> Seq<Seq<char>> {
        self.pats@.map_values(|p: String| p@)
    }
}

impl PatternSet {
    /// Relies on `regex::RegexSet::new`: it returns `Ok` exactly when every
    /// pattern in the list is valid, deterministically in the pattern texts;
    /// the compiled set is kept beside them.
    #[verifier::external_body]
    pub fn new(pats: Vec<String>) -> (r: Option<PatternSet>)
        ensures
            r is Some <==> regex_set_accepts(pats@.map_values(|p: String| p@)),
            r matches Some(s) ==> s@ == pats@.map_values(|p: String| p@),
    {
        match regex::RegexSet::new(&pats) {
            Ok(set) => Some(PatternSet { pats, set }),
            Err(_) => None,
        }
    }

    /// Relies on `regex::RegexSet::empty`: a set of no patterns, which never
    /// matches anything.
    #[verifier::external_body]
    pub fn empty() -> (r: PatternSet)
        ensures
            r@ == Seq::<Seq<char>>::empty(),
    {
        PatternSet { pats: Vec::new(), set: regex::RegexSet::empty() }
    }

    /// Relies on `regex::RegexSet::is_match`: the result depends only on the
    /// patterns the set was compiled from and on the haystack, and an empty
    /// set never matches.
    #[verifier::external_body]
    pub fn is_match(&self, text: &str) -> (r: bool)
        ensures
            r == regex_set_match(self@, text@),
            self@.len() == 0 ==> !r,
    {
        self.set.is_match(text)
    }

    /// How many patterns the set holds.
    pub fn len(&self) -> (r: usize)
        ensures
            r == self@.len(),
    {
        proof {
            assert(self@.len() == self.pats@.len());
        }
        self.pats.len()
    }
}

impl Clone for PatternSet {
    /// Relies on `regex::RegexSet::clone`: the clone matches as the original
    /// does; the pattern texts are cloned beside it.
    #[verifier::external_body]
    fn clone(&self) -> (r: Self)
        ensures
            r@ == self@,
    {
        PatternSet { pats: self.pats.clone(), set: self.set.clone() }
    }
}

} // verus!
