//! Textual patterns: what the `regex` crate is trusted to do, and a store
//! that compiles each pattern once.

use vstd::prelude::*;

verus! {

/// `regex::Regex`, a compiled pattern; nothing inside it is seen here.
#[verifier::external_type_specification]
#[verifier::external_body]
pub struct ExRegex(regex::Regex);

/// `regex::Error`, why a pattern did not compile; nothing inside it is seen
/// here.
#[verifier::external_type_specification]
#[verifier::external_body]
pub struct ExRegexError(regex::Error);

/// Whether `regex::Regex::new` accepts the pattern.
pub uninterp spec fn regex_valid(pattern: Seq<char>) -> bool;

/// The pattern that a compiled matcher was made from.
pub uninterp spec fn regex_source(re: regex::Regex) -> Seq<char>;

/// The names of the capture groups of a pattern in the order of their
/// opening brackets, the whole match first, as `Regex::capture_names` walks
/// them; an unnamed group has no name.
pub uninterp spec fn regex_group_names(pattern: Seq<char>) -> Seq<Option<Seq<char>>>;

/// What `Regex::captures` finds in `haystack`: nothing, or the text of each
/// capture group of the first match, the whole match first; a group that took
/// no part in the match has no text.
pub uninterp spec fn regex_groups(pattern: Seq<char>, haystack: Seq<char>) -> Option<
    Seq<Option<Seq<char>>>,
>;

/// `regex::Regex::new`: compiles `pattern`. Trusted: it succeeds on the
/// patterns that the crate accepts, and the matcher it gives stands for the
/// pattern it was given.
#[verifier::external_body]
fn regex_new(pattern: &str) -> (r: Result<regex::Regex, regex::Error>)
    ensures
        r is Ok <==> regex_valid(pattern@),
        r matches Ok(re) ==> regex_source(re) == pattern@,
{
    regex::Regex::new(pattern)
}

/// `Regex::capture_names`, each name copied out. Trusted: the names depend on
/// the pattern alone.
#[verifier::external_body]
fn regex_capture_names(re: &regex::Regex) -> (r: Vec<Option<String>>)
    ensures
        r.deep_view() == regex_group_names(regex_source(*re)),
{
    re.capture_names().map(|name| name.map(|s| s.to_string())).collect()
}

/// `Regex::captures`, the text of each group copied out. Trusted: the result
/// depends on the pattern and the haystack alone.
#[verifier::external_body]
fn regex_captures(re: &regex::Regex, haystack: &str) -> (r: Option<Vec<Option<String>>>)
    ensures
        r.deep_view() == regex_groups(regex_source(*re), haystack@),
{
    re.captures(haystack).map(
        |caps| caps.iter().map(|group| group.map(|m| m.as_str().to_string())).collect(),
    )
}

/// A match of a pattern at the start of a text: the number of characters
/// matched, and the names and the texts of the capture groups.
pub struct PatternMatch {
    pub len: int,
    pub names: Seq<Option<Seq<char>>>,
    pub groups: Seq<Option<Seq<char>>>,
}

/// The match that the groups `groups` of a search in `text` make: the whole
/// match, which is the first group, is not empty and is the start of the
/// text.
pub open spec fn match_of(
    text: Seq<char>,
    names: Seq<Option<Seq<char>>>,
    groups: Seq<Option<Seq<char>>>,
) -> Option<PatternMatch> {
    if groups.len() > 0 && groups[0] is Some && accepts(text, groups[0].unwrap()) {
        Some(PatternMatch { len: groups[0].unwrap().len() as int, names, groups })
    } else {
        None
    }
}

/// The match of `pattern` at the start of `text`, where the pattern
/// compiles and finds one.
pub open spec fn pattern_match(pattern: Seq<char>, text: Seq<char>) -> Option<PatternMatch> {
    if !regex_valid(pattern) {
        None
    } else {
        match regex_groups(pattern, text) {
            Some(groups) => match_of(text, regex_group_names(pattern), groups),
            None => None,
        }
    }
}

/// Whether `whole` is a non-empty start of `text`.
pub open spec fn accepts(text: Seq<char>, whole: Seq<char>) -> bool {
    0 < whole.len() <= text.len() && text.subrange(0, whole.len() as int) == whole
}

/// The first place from `from` on at which `names` holds `name`.
pub open spec fn name_index(names: Seq<Option<Seq<char>>>, name: Seq<char>, from: int) -> Option<
    int,
>
    decreases names.len() - from,
{
    if from < 0 || from >= names.len() {
        None
    } else if names[from] == Some(name) {
        Some(from)
    } else {
        name_index(names, name, from + 1)
    }
}

/// The text of the capture group called `name`, if there is such a group and
/// it took part in the match.
pub open spec fn group_named(m: PatternMatch, name: Seq<char>) -> Option<Seq<char>> {
    match name_index(m.names, name, 0) {
        Some(i) => if i < m.groups.len() {
            m.groups[i]
        } else {
            None
        },
        None => None,
    }
}

/// What a pattern has matched: the names of its capture groups and the text
/// that each group has captured, the whole match first.
#[derive(Debug, PartialEq, Eq)]
pub struct Captures {
    pub names: Vec<Option<String>>,
    pub groups: Vec<Option<String>>,
}

impl View for Captures {
    type V = PatternMatch;

    open spec fn view(&self) -> PatternMatch {
        PatternMatch {
            len: if self.groups@.len() > 0 && self.groups@[0] is Some {
                self.groups@[0].unwrap()@.len() as int
            } else {
                0
            },
            names: self.names.deep_view(),
            groups: self.groups.deep_view(),
        }
    }
}

impl Captures {
    /// The text of the whole match; empty where the captures hold none.
    pub fn whole(&self) -> (r: String)
        ensures
            r@ == if self@.groups.len() > 0 && self@.groups[0] is Some {
                self@.groups[0].unwrap()
            } else {
                Seq::<char>::empty()
            },
    {
        if self.groups.len() == 0 {
            return String::new();
        }
        match &self.groups[0] {
            Some(text) => text.clone(),
            None => String::new(),
        }
    }

    /// The text of the capture group called `name`, if there is such a
    /// group and it took part in the match.
    pub fn name(&self, name: &str) -> (r: Option<&String>)
        ensures
            r.deep_view() == group_named(self@, name@),
    {
        let key = String::from_str(name);
        let mut i: usize = 0;
        while i < self.names.len()
            invariant
                i <= self.names@.len(),
                key@ == name@,
                name_index(self@.names, name@, 0) == name_index(self@.names, name@, i as int),
            decreases self.names@.len() - i,
        {
            let found = match &self.names[i] {
                Some(n) => *n == key,
                None => false,
            };
            if found {
                if i < self.groups.len() {
                    return self.groups[i].as_ref();
                } else {
                    return None;
                }
            }
            i += 1;
        }
        None
    }
}

/// The compiled matchers of the patterns seen so far, each pattern compiled
/// once.
#[derive(Debug)]
pub struct PatternCache {
    patterns: Vec<String>,
    compiled: Vec<regex::Regex>,
}

impl PatternCache {
    /// The patterns held, in the order in which they were first used.
    pub closed spec fn keys(&self) -> Seq<Seq<char>> {
        Seq::new(self.patterns@.len(), |i: int| self.patterns@[i]@)
    }

    /// Every pattern is held once, is one that compiles, and stands beside
    /// its own matcher.
    pub closed spec fn wf(&self) -> bool {
        &&& self.patterns@.len() == self.compiled@.len()
        &&& forall|i: int|
            0 <= i < self.patterns@.len() ==> regex_source(#[trigger] self.compiled@[i])
                == self.patterns@[i]@
        &&& forall|i: int| 0 <= i < self.patterns@.len() ==> regex_valid(#[trigger] self.keys()[i])
        &&& forall|i: int, j: int|
            0 <= i < j < self.patterns@.len() ==> #[trigger] self.keys()[i]
                != #[trigger] self.keys()[j]
    }

    pub fn new() -> (r: Self)
        ensures
            r.wf(),
            r.keys() == Seq::<Seq<char>>::empty(),
    {
        let r = PatternCache { patterns: Vec::new(), compiled: Vec::new() };
        assert(r.keys() =~= Seq::<Seq<char>>::empty());
        r
    }

    /// The place of `pattern` in the store, if it is there.
    pub fn find(&self, pattern: &str) -> (r: Option<usize>)
        requires
            self.wf(),
        ensures
            match r {
                Some(i) => i < self.keys().len() && self.keys()[i as int] == pattern@,
                None => !self.keys().contains(pattern@),
            },
    {
        let key = String::from_str(pattern);
        let mut i: usize = 0;
        while i < self.patterns.len()
            invariant
                i <= self.patterns@.len(),
                key@ == pattern@,
                forall|k: int| 0 <= k < i ==> self.keys()[k] != pattern@,
            decreases self.patterns@.len() - i,
        {
            if self.patterns[i] == key {
                return Some(i);
            }
            i += 1;
        }
        None
    }

    /// The place of the matcher of `pattern`, compiled now if this is the
    /// first use of the pattern; nothing for a pattern that does not compile.
    pub fn prepare(&mut self, pattern: &str) -> (r: Option<usize>)
        requires
            old(self).wf(),
        ensures
            final(self).wf(),
            r is Some <==> regex_valid(pattern@),
            r matches Some(i) ==> i < final(self).keys().len() && final(self).keys()[i as int]
                == pattern@,
            final(self).keys() == if regex_valid(pattern@) && !old(self).keys().contains(pattern@) {
                old(self).keys().push(pattern@)
            } else {
                old(self).keys()
            },
    {
        match self.find(pattern) {
            Some(i) => Some(i),
            None => {
                match regex_new(pattern) {
                    Ok(re) => {
                        let i = self.patterns.len();
                        let ghost before = self.keys();
                        self.patterns.push(String::from_str(pattern));
                        self.compiled.push(re);
                        assert(self.keys() =~= before.push(pattern@));
                        Some(i)
                    },
                    Err(_) => None,
                }
            },
        }
    }

    /// The names of the capture groups of the pattern at place `i`.
    pub fn group_names(&self, i: usize) -> (r: Vec<Option<String>>)
        requires
            self.wf(),
            i < self.keys().len(),
        ensures
            r.deep_view() == regex_group_names(self.keys()[i as int]),
    {
        regex_capture_names(&self.compiled[i])
    }

    /// The first match of the pattern at place `i` in `haystack`, as the text
    /// of each capture group.
    pub fn captures(&self, i: usize, haystack: &str) -> (r: Option<Vec<Option<String>>>)
        requires
            self.wf(),
            i < self.keys().len(),
        ensures
            r.deep_view() == regex_groups(self.keys()[i as int], haystack@),
    {
        regex_captures(&self.compiled[i], haystack)
    }
}

} // verus!
