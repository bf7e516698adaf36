use vstd::prelude::*;

verus! {

/// What the outside regular expression engine answers for `pattern` on `hay`:
/// whether the pattern matches anywhere in it.
pub uninterp spec fn regex_match(pattern: Seq<char>, hay: Seq<char>) -> bool;

/// The text of the first capture group of the leftmost-first match of
/// `pattern` in `hay`; `None` when there is no match or the group is unset.
pub uninterp spec fn regex_group(pattern: Seq<char>, hay: Seq<char>) -> Option<Seq<char>>;

/// Whether the outside regular expression engine accepts `pattern`.
pub uninterp spec fn regex_compiles(pattern: Seq<char>) -> bool;

#[verifier::external_type_specification]
#[verifier::external_body]
pub struct ExRegex(regex::Regex);

#[verifier::external_type_specification]
#[verifier::external_body]
pub struct ExRegexError(regex::Error);

/// A compiled regular expression together with the text it was compiled from.
pub struct Pattern {
    source: String,
    compiled: regex::Regex,
}

/// A pattern that the regular expression engine refused, with its text.
pub struct InvalidPattern {
    pub source: String,
}

/// Relies on regex::Regex::new: compiles `source`, or returns why it cannot;
/// which of the two depends on the text of `source` alone.
#[verifier::external_body]
fn compile_regex(source: &str) -> (r: Result<Pattern, regex::Error>)
    ensures
        r is Ok <==> regex_compiles(source@),
        r matches Ok(p) ==> p.source@ == source@,
{
    match regex::Regex::new(source) {
        Ok(compiled) => Ok(Pattern { source: source.to_string(), compiled }),
        Err(e) => Err(e),
    }
}

/// Relies on regex::Regex::is_match: whether the compiled pattern matches
/// somewhere in `hay`, which depends on the pattern's text and `hay` alone.
#[verifier::external_body]
fn regex_is_match(p: &Pattern, hay: &str) -> (r: bool)
    ensures
        r == regex_match(p.source@, hay@),
{
    p.compiled.is_match(hay)
}

/// Relies on regex::Regex::captures and Captures::get: the first capture
/// group of the leftmost-first match, which depends on the pattern's text and
/// `hay` alone.
#[verifier::external_body]
fn regex_first_group(p: &Pattern, hay: &str) -> (r: Option<String>)
    ensures
        match r {
            Some(c) => regex_group(p.source@, hay@) == Some(c@),
            None => regex_group(p.source@, hay@) is None,
        },
{
    match p.compiled.captures(hay) {
        Some(caps) => match caps.get(1) {
            Some(m) => Some(m.as_str().to_string()),
            None => None,
        },
        None => None,
    }
}

impl Pattern {
    pub closed spec fn text(&self) -> Seq<char> {
        self.source@
    }

    /// Compiles `source`; an invalid pattern is reported with its text.
    pub fn new(source: &str) -> (r: Result<Pattern, InvalidPattern>)
        ensures
            r is Ok <==> regex_compiles(source@),
            r matches Ok(p) ==> p.text() == source@,
            r matches Err(e) ==> e.source@ == source@,
    {
        match compile_regex(source) {
            Ok(p) => Ok(p),
            Err(_) => Err(InvalidPattern { source: source.to_string() }),
        }
    }

    /// The first capture group of the leftmost match in `hay`, if any.
    pub fn first_group(&self, hay: &str) -> (r: Option<String>)
        ensures
            match r {
                Some(c) => regex_group(self.text(), hay@) == Some(c@),
                None => regex_group(self.text(), hay@) is None,
            },
    {
        regex_first_group(self, hay)
    }

    pub fn is_match(&self, hay: &str) -> (r: bool)
        ensures
            r == regex_match(self.text(), hay@),
    {
        regex_is_match(self, hay)
    }
}

/// Whether any of `patterns` matches `hay`.
pub open spec fn any_match(patterns: Seq<Seq<char>>, hay: Seq<char>) -> bool {
    exists|i: int| 0 <= i < patterns.len() && regex_match(#[trigger] patterns[i], hay)
}

/// Verdict of the exclusion rules on one relative path.
#[derive(PartialEq, Eq, Structural, Clone, Copy, Debug)]
pub enum Comparison {
    /// Mirror the path normally.
    Include,
    /// Descend into the directory, but download no file directly in it.
    ListOnly,
    /// Skip the path and everything under it.
    Stop,
}

/// The verdict from whether some exclude pattern and some keep pattern match.
pub open spec fn verdict(excluded: bool, included: bool) -> Comparison {
    if excluded && !included {
        Comparison::Stop
    } else if excluded {
        Comparison::ListOnly
    } else {
        Comparison::Include
    }
}

/// Ordered exclude and keep pattern lists.
pub struct ExclusionManager {
    exclude: Vec<Pattern>,
    keep: Vec<Pattern>,
}

pub open spec fn texts(ps: Seq<Pattern>) -> Seq<Seq<char>> {
    ps.map_values(|p: Pattern| p.text())
}

/// Whether any of `ps` matches `hay`.
pub fn matches_any(ps: &Vec<Pattern>, hay: &str) -> (r: bool)
    ensures
        r == any_match(texts(ps@), hay@),
{
    let mut i: usize = 0;
    while i < ps.len()
        invariant
            0 <= i <= ps.len(),
            forall|j: int| 0 <= j < i ==> !regex_match(#[trigger] texts(ps@)[j], hay@),
        decreases ps.len() - i,
    {
        if ps[i].is_match(hay) {
            assert(regex_match(texts(ps@)[i as int], hay@));
            return true;
        }
        i = i + 1;
    }
    false
}

impl ExclusionManager {
    pub closed spec fn exclude_texts(&self) -> Seq<Seq<char>> {
        texts(self.exclude@)
    }

    pub closed spec fn keep_texts(&self) -> Seq<Seq<char>> {
        texts(self.keep@)
    }

    pub fn new(exclude: Vec<Pattern>, keep: Vec<Pattern>) -> (r: ExclusionManager)
        ensures
            r.exclude_texts() == texts(exclude@),
            r.keep_texts() == texts(keep@),
    {
        ExclusionManager { exclude, keep }
    }

    /// The verdict of the rules on the relative path `s`.
    pub fn match_str(&self, s: &str) -> (r: Comparison)
        ensures
            r == verdict(any_match(self.exclude_texts(), s@), any_match(self.keep_texts(), s@)),
    {
        let excluded = matches_any(&self.exclude, s);
        if !excluded {
            return Comparison::Include;
        }
        if matches_any(&self.keep, s) {
            Comparison::ListOnly
        } else {
            Comparison::Stop
        }
    }
}

} // verus!
