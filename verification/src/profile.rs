//! A profile: a name and the directory patterns that select it.

use crate::document::{entry, value_node, value_nodes, Node};
use crate::error::ProfileError;
use crate::expand::{expand, expand_home};
use crate::matcher::{
    first_decisive, lemma_first_decisive_after, reports, search_expanded, search_verdict, Verdict,
};
use vstd::prelude::*;

verus! {

/// A named set of patterns. The patterns are kept in the order in which they
/// were written; a profile without patterns is never selected by directory.
#[derive(Debug)]
pub struct Profile {
    pub name: String,
    pub patterns: Vec<String>,
}

/// A profile as plain text.
pub struct ProfileView {
    pub name: Seq<char>,
    pub patterns: Seq<Seq<char>>,
}

/// The texts of a list of strings.
pub open spec fn texts(strings: Seq<String>) -> Seq<Seq<char>> {
    Seq::new(strings.len(), |i: int| strings[i]@)
}

impl View for Profile {
    type V = ProfileView;

    open spec fn view(&self) -> ProfileView {
        ProfileView { name: self.name@, patterns: texts(self.patterns@) }
    }
}

/// The profile that a record of the profiles file holds: a table with a string
/// under `name` and, if it has an entry `patterns`, an array of strings under
/// it. Other entries are not looked at.
pub open spec fn profile_of(node: Node) -> Option<ProfileView> {
    match (node.entry("name"@), node.entry("patterns"@)) {
        (Some(Node::Text(name)), None) => Some(ProfileView { name, patterns: Seq::empty() }),
        (Some(Node::Text(name)), Some(list)) => match list.texts() {
            Some(patterns) => Some(ProfileView { name, patterns }),
            None => None,
        },
        _ => None,
    }
}

/// Reads an array of strings.
fn strings_of(value: &toml::Value) -> (r: Result<Vec<String>, ProfileError>)
    ensures
        match value_node(*value).texts() {
            Some(list) => r matches Ok(strings) && texts(strings@) == list,
            None => r matches Err(ProfileError::ConfigParse),
        },
{
    match value.as_array() {
        None => Err(ProfileError::ConfigParse),
        Some(list) => {
            let ghost items = value_nodes(list@);
            let mut strings: Vec<String> = Vec::new();
            let mut i: usize = 0;
            while i < list.len()
                invariant
                    i <= list.len(),
                    items == value_nodes(list@),
                    value_node(*value) == Node::List(items),
                    strings@.len() == i,
                    forall|j: int| 0 <= j < i ==> items[j] == Node::Text(#[trigger] strings@[j]@),
                decreases list.len() - i,
            {
                assert(items[i as int] == value_node(list@[i as int]));
                match list[i].as_str() {
                    None => {
                        return Err(ProfileError::ConfigParse);
                    },
                    Some(text) => {
                        strings.push(text.to_owned());
                    },
                }
                i += 1;
            }
            assert forall|j: int| 0 <= j < items.len() implies items[j] is Text by {
                assert(items[j] == Node::Text(strings@[j]@));
            }
            assert(texts(strings@) =~= value_node(*value).texts().unwrap());
            Ok(strings)
        },
    }
}

/// The verdict of each pattern, in order, on a directory that is expanded
/// already.
pub open spec fn pattern_verdicts(
    patterns: Seq<Seq<char>>,
    directory: Seq<char>,
    home: Seq<char>,
) -> Seq<Verdict> {
    Seq::new(patterns.len(), |i: int| search_verdict(expand(patterns[i], home), directory))
}

/// The verdict of a profile on a directory: that of its first pattern that
/// matches or is invalid, `NoMatch` if there is none.
pub open spec fn profile_verdict(
    profile: ProfileView,
    directory: Seq<char>,
    home: Seq<char>,
) -> Verdict {
    first_decisive(pattern_verdicts(profile.patterns, expand(directory, home), home))
}

/// A profile without patterns matches no directory.
pub proof fn lemma_empty_profile_never_matches(
    profile: ProfileView,
    directory: Seq<char>,
    home: Seq<char>,
)
    requires
        profile.patterns.len() == 0,
    ensures
        profile_verdict(profile, directory, home) == Verdict::NoMatch,
{
}

/// Whether a profile matches depends on which patterns it holds, not on
/// their order, as long as all of them are valid.
pub proof fn lemma_profile_matches_iff_some_pattern_does(
    profile: ProfileView,
    directory: Seq<char>,
    home: Seq<char>,
)
    requires
        forall|i: int|
            0 <= i < profile.patterns.len() ==> !(#[trigger] pattern_verdicts(
                profile.patterns,
                expand(directory, home),
                home,
            )[i] is Invalid),
    ensures
        profile_verdict(profile, directory, home) is Match <==> exists|i: int|
            0 <= i < profile.patterns.len() && #[trigger] pattern_verdicts(
                profile.patterns,
                expand(directory, home),
                home,
            )[i] is Match,
        !(profile_verdict(profile, directory, home) is Invalid),
{
    let verdicts = pattern_verdicts(profile.patterns, expand(directory, home), home);
    crate::matcher::lemma_first_decisive_index(verdicts);
}

impl Profile {
    /// Reads one record of the profiles file.
    pub fn from_value(value: &toml::Value) -> (r: Result<Profile, ProfileError>)
        ensures
            match profile_of(value_node(*value)) {
                Some(profile) => r matches Ok(read) && read@ == profile,
                None => r matches Err(ProfileError::ConfigParse),
            },
    {
        let name = match entry(value, "name") {
            None => {
                return Err(ProfileError::ConfigParse);
            },
            Some(found) => match found.as_str() {
                None => {
                    return Err(ProfileError::ConfigParse);
                },
                Some(text) => text.to_owned(),
            },
        };
        let patterns = match entry(value, "patterns") {
            None => Vec::new(),
            Some(list) => strings_of(list)?,
        };
        let read = Profile { name, patterns };
        assert(read@.patterns =~= profile_of(value_node(*value)).unwrap().patterns);
        Ok(read)
    }

    /// Scans the patterns against a directory that is expanded already.
    pub(crate) fn matches_expanded(
        &self,
        expanded: &str,
        home: &str,
        Ghost(directory): Ghost<Seq<char>>,
    ) -> (r: Result<bool, ProfileError>)
        requires
            expanded@ == expand(directory, home@),
        ensures
            reports(r, profile_verdict(self@, directory, home@)),
    {
        let ghost verdicts = pattern_verdicts(self@.patterns, expanded@, home@);
        let mut i: usize = 0;
        while i < self.patterns.len()
            invariant
                i <= self.patterns.len(),
                expanded@ == expand(directory, home@),
                verdicts == pattern_verdicts(self@.patterns, expanded@, home@),
                forall|j: int| 0 <= j < i ==> verdicts[j] is NoMatch,
            decreases self.patterns.len() - i,
        {
            let tested = search_expanded(self.patterns[i].as_str(), expanded, home);
            proof {
                assert(self@.patterns[i as int] == self.patterns[i as int]@);
                assert(verdicts[i as int] == search_verdict(
                    expand(self@.patterns[i as int], home@),
                    expanded@,
                ));
                lemma_first_decisive_after(verdicts, i as int);
            }
            match tested {
                Ok(true) => {
                    return Ok(true);
                },
                Ok(false) => {},
                Err(e) => {
                    return Err(e);
                },
            }
            i += 1;
        }
        proof {
            lemma_first_decisive_after(verdicts, i as int);
        }
        Ok(false)
    }

    /// Whether one of the patterns matches `cwd`, the placeholder standing for
    /// `home` in the patterns and in `cwd`. The patterns are tried in order up
    /// to the first that matches; a pattern that is no regular expression ends
    /// the scan with an error if no pattern before it matched.
    pub fn matches(&self, cwd: &str, home: &str) -> (r: Result<bool, ProfileError>)
        ensures
            reports(r, profile_verdict(self@, cwd@, home@)),
            self.patterns@.len() == 0 ==> r == Ok::<bool, ProfileError>(false),
    {
        let expanded = expand_home(cwd, home);
        self.matches_expanded(expanded.as_str(), home, Ghost(cwd@))
    }
}

} // verus!
