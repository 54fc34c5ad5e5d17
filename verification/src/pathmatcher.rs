use vstd::prelude::*;
use crate::paths::{extension_of, path_extension};

verus! {

/// A condition on a path.
pub trait Rule {
    /// Whether the rule holds of `path`.
    spec fn met_spec(&self, path: Seq<char>) -> bool;

    fn met(&self, path: &str) -> (met: bool)
        ensures
            met == self.met_spec(path@),
    ;
}

/// Holds of the paths whose extension is exactly `ext`.
pub struct ExtRule {
    ext: String,
}

impl View for ExtRule {
    type V = Seq<char>;

    /// The extension the rule asks for.
    closed spec fn view(&self) -> Seq<char> {
        self.ext@
    }
}

impl ExtRule {
    pub fn new(ext: String) -> (rule: Self)
        ensures
            rule@ == ext@,
    {
        ExtRule { ext }
    }

    /// Whether `found`, the extension of some path, is the one the rule asks
    /// for: no extension never is.
    pub fn accepts(&self, found: Option<String>) -> (met: bool)
        ensures
            met == (found matches Some(e) && e@ == self@),
    {
        match found {
            Some(e) => e == self.ext,
            None => false,
        }
    }
}

impl Rule for ExtRule {
    open spec fn met_spec(&self, path: Seq<char>) -> bool {
        extension_of(path) == Some(self@)
    }

    fn met(&self, path: &str) -> (met: bool) {
        self.accepts(path_extension(path))
    }
}

/// A predicate that decides which paths a scan takes.
pub trait PathMatcher {
    /// Whether the matcher takes `path`.
    spec fn matches_spec(&self, path: Seq<char>) -> bool;

    fn matches(&self, path: &str) -> (matched: bool)
        ensures
            matched == self.matches_spec(path@),
    ;
}

/// Takes the paths of which its rule holds.
pub struct IsMatch<R> where R: Rule {
    rule: R,
}

impl<R> View for IsMatch<R> where R: Rule {
    type V = R;

    closed spec fn view(&self) -> R {
        self.rule
    }
}

impl<R> IsMatch<R> where R: Rule {
    pub fn new(rule: R) -> (matcher: Self)
        ensures
            matcher@ == rule,
    {
        IsMatch { rule }
    }
}

impl<R> PathMatcher for IsMatch<R> where R: Rule {
    open spec fn matches_spec(&self, path: Seq<char>) -> bool {
        self@.met_spec(path)
    }

    fn matches(&self, path: &str) -> (matched: bool) {
        self.rule.met(path)
    }
}

/// Takes the paths of which both of its rules hold.
pub struct BothMatch<R1, R2> where R1: Rule, R2: Rule {
    rule1: R1,
    rule2: R2,
}

impl<R1, R2> View for BothMatch<R1, R2> where R1: Rule, R2: Rule {
    type V = (R1, R2);

    closed spec fn view(&self) -> (R1, R2) {
        (self.rule1, self.rule2)
    }
}

impl<R1, R2> BothMatch<R1, R2> where R1: Rule, R2: Rule {
    pub fn new(rule1: R1, rule2: R2) -> (matcher: Self)
        ensures
            matcher@ == (rule1, rule2),
    {
        BothMatch { rule1, rule2 }
    }
}

impl<R1, R2> PathMatcher for BothMatch<R1, R2> where R1: Rule, R2: Rule {
    open spec fn matches_spec(&self, path: Seq<char>) -> bool {
        self@.0.met_spec(path) && self@.1.met_spec(path)
    }

    fn matches(&self, path: &str) -> (matched: bool) {
        self.rule1.met(path) && self.rule2.met(path)
    }
}

/// Takes every path.
pub struct AlwaysMatch {}

impl AlwaysMatch {
    pub fn new() -> (matcher: Self) {
        AlwaysMatch {  }
    }
}

impl PathMatcher for AlwaysMatch {
    open spec fn matches_spec(&self, path: Seq<char>) -> bool {
        true
    }

    fn matches(&self, _path: &str) -> (matched: bool) {
        true
    }
}

/// The matcher that takes the paths whose extension is exactly `ext`.
pub fn ext_matcher(ext: String) -> (matcher: IsMatch<ExtRule>)
    ensures
        matcher@@ == ext@,
        forall|path: Seq<char>| #[trigger]
            matcher.matches_spec(path) == (extension_of(path) == Some(ext@)),
{
    IsMatch::new(ExtRule::new(ext))
}

/// The matcher of one scan: every path, or the paths with one extension.
pub enum ScanMatcher {
    All(AlwaysMatch),
    Extension(IsMatch<ExtRule>),
}

/// Which paths a scan with the optional extension filter `ext` takes: all of
/// them without a filter, else those whose extension is exactly the filter.
pub open spec fn eligible(ext: Option<Seq<char>>, path: Seq<char>) -> bool {
    match ext {
        None => true,
        Some(e) => extension_of(path) == Some(e),
    }
}

impl ScanMatcher {
    /// The extension filter the matcher was made for.
    pub open spec fn filter(&self) -> Option<Seq<char>> {
        match self {
            ScanMatcher::All(_) => None,
            ScanMatcher::Extension(m) => Some(m@@),
        }
    }

    /// The matcher for a scan with the optional extension filter `ext`.
    pub fn for_extension(ext: Option<String>) -> (matcher: Self)
        ensures
            match ext {
                Some(e) => matcher.filter() == Some(e@),
                None => matcher.filter().is_none(),
            },
    {
        match ext {
            Some(e) => ScanMatcher::Extension(ext_matcher(e)),
            None => ScanMatcher::All(AlwaysMatch::new()),
        }
    }
}

impl PathMatcher for ScanMatcher {
    open spec fn matches_spec(&self, path: Seq<char>) -> bool {
        eligible(self.filter(), path)
    }

    fn matches(&self, path: &str) -> (matched: bool) {
        match self {
            ScanMatcher::All(m) => m.matches(path),
            ScanMatcher::Extension(m) => m.matches(path),
        }
    }
}

} // verus!
