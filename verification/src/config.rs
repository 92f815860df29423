//! The profiles file: an ordered list of profiles, and the choice among them.

use crate::document::{entry, parse_document, toml_document, value_node, value_nodes, Node};
use crate::error::ProfileError;
use crate::expand::expand_home;
use crate::matcher::{
    first_decisive_index, lemma_first_decisive_after, lemma_first_decisive_index, Verdict,
};
use crate::profile::{profile_of, profile_verdict, Profile, ProfileView};
use vstd::prelude::*;

verus! {

/// The profiles of a profiles file, in the order of the file. The order
/// counts: the first profile that matches is the one selected.
#[derive(Debug)]
pub struct Config {
    pub profiles: Vec<Profile>,
}

impl View for Config {
    type V = Seq<ProfileView>;

    open spec fn view(&self) -> Seq<ProfileView> {
        Seq::new(self.profiles@.len(), |i: int| self.profiles@[i]@)
    }
}

/// What was found where the profiles file should be.
#[derive(Debug)]
pub enum ConfigFile {
    /// There is no such file.
    Missing,
    /// The file is there but could not be read.
    Unreadable,
    /// The text of the file.
    Contents(String),
}

/// The profiles that the root table of a profiles file holds: the records of
/// the array under `profile`, in order. There are none where `profile` is
/// missing or no array, or where one of its items is no profile record.
pub open spec fn config_of(root: Node) -> Option<Seq<ProfileView>> {
    match root.entry("profile"@) {
        Some(Node::List(records)) if forall|i: int|
            0 <= i < records.len() ==> profile_of(#[trigger] records[i]) is Some => Some(
            Seq::new(records.len(), |i: int| profile_of(records[i]).unwrap()),
        ),
        _ => None,
    }
}

/// The profiles that the text of a profiles file holds.
pub open spec fn config_of_text(text: Seq<char>) -> Option<Seq<ProfileView>> {
    match toml_document(text) {
        Some(root) => config_of(root),
        None => None,
    }
}

/// What the scan of a configuration comes to.
pub enum Selection {
    /// The profile of this name was selected.
    Profile { name: Seq<char> },
    /// No profile was selected.
    NoProfile,
    /// The scan met the expanded pattern `pattern`, which is no regular
    /// expression, before any profile matched.
    Invalid { pattern: Seq<char> },
}

/// The verdict of each profile, in order.
pub open spec fn profile_verdicts(
    profiles: Seq<ProfileView>,
    directory: Seq<char>,
    home: Seq<char>,
) -> Seq<Verdict> {
    Seq::new(profiles.len(), |i: int| profile_verdict(profiles[i], directory, home))
}

/// The selection among `profiles` for a directory: the first profile whose
/// verdict is not `NoMatch` decides, by its name or by its invalid pattern.
pub open spec fn select(
    profiles: Seq<ProfileView>,
    directory: Seq<char>,
    home: Seq<char>,
) -> Selection {
    let verdicts = profile_verdicts(profiles, directory, home);
    match first_decisive_index(verdicts) {
        None => Selection::NoProfile,
        Some(i) => match verdicts[i] {
            Verdict::Invalid { pattern } => Selection::Invalid { pattern },
            _ => Selection::Profile { name: profiles[i].name },
        },
    }
}

/// Whether the result `r` names the selection `selection`.
pub open spec fn names(r: Result<Option<String>, ProfileError>, selection: Selection) -> bool {
    match selection {
        Selection::Profile { name } => r matches Ok(Some(n)) && n@ == name,
        Selection::NoProfile => r matches Ok(None),
        Selection::Invalid { pattern } => r matches Err(
            ProfileError::InvalidPattern { pattern: refused },
        ) && refused@ == pattern,
    }
}

/// The first match wins: a profile that matches is selected if every profile
/// before it does not match, whatever comes after it.
pub proof fn lemma_first_match_wins(
    profiles: Seq<ProfileView>,
    directory: Seq<char>,
    home: Seq<char>,
    i: int,
)
    requires
        0 <= i < profiles.len(),
        profile_verdict(profiles[i], directory, home) is Match,
        forall|j: int|
            0 <= j < i ==> profile_verdict(#[trigger] profiles[j], directory, home) is NoMatch,
    ensures
        select(profiles, directory, home) == (Selection::Profile { name: profiles[i].name }),
{
    let verdicts = profile_verdicts(profiles, directory, home);
    assert forall|j: int| 0 <= j < i implies verdicts[j] is NoMatch by {
        assert(profile_verdict(profiles[j], directory, home) is NoMatch);
    }
    lemma_first_decisive_after(verdicts, i);
}

/// A selected profile is the first that matches: it stands in the list, it
/// matches, and no profile before it matches or holds an invalid pattern
/// that the scan reaches.
pub proof fn lemma_selected_is_first_match(
    profiles: Seq<ProfileView>,
    directory: Seq<char>,
    home: Seq<char>,
)
    ensures
        select(profiles, directory, home) matches Selection::Profile { name } ==> exists|i: int|
            {
                &&& 0 <= i < profiles.len()
                &&& (#[trigger] profiles[i]).name == name
                &&& profile_verdict(profiles[i], directory, home) is Match
                &&& forall|j: int|
                    0 <= j < i ==> profile_verdict(
                        #[trigger] profiles[j],
                        directory,
                        home,
                    ) is NoMatch
            },
        select(profiles, directory, home) is NoProfile <==> forall|i: int|
            0 <= i < profiles.len() ==> profile_verdict(
                #[trigger] profiles[i],
                directory,
                home,
            ) is NoMatch,
{
    let verdicts = profile_verdicts(profiles, directory, home);
    lemma_first_decisive_index(verdicts);
    match first_decisive_index(verdicts) {
        Some(i) => {
            assert(verdicts[i] == profile_verdict(profiles[i], directory, home));
            assert forall|j: int| 0 <= j < i implies profile_verdict(
                #[trigger] profiles[j],
                directory,
                home,
            ) is NoMatch by {
                assert(verdicts[j] is NoMatch);
            }
        },
        None => {
            assert forall|i: int| 0 <= i < profiles.len() implies profile_verdict(
                #[trigger] profiles[i],
                directory,
                home,
            ) is NoMatch by {
                assert(verdicts[i] is NoMatch);
            }
        },
    }
    if forall|i: int|
        0 <= i < profiles.len() ==> profile_verdict(
            #[trigger] profiles[i],
            directory,
            home,
        ) is NoMatch {
        match first_decisive_index(verdicts) {
            Some(i) => {
                assert(profile_verdict(profiles[i], directory, home) is NoMatch);
            },
            None => {},
        }
    }
}

/// A configuration without profiles selects nothing, whatever the directory.
pub proof fn lemma_empty_config_selects_nothing(
    profiles: Seq<ProfileView>,
    directory: Seq<char>,
    home: Seq<char>,
)
    requires
        profiles.len() == 0,
    ensures
        select(profiles, directory, home) == Selection::NoProfile,
{
}

impl Config {
    /// Reads the profiles from the root table of a parsed profiles file.
    pub fn from_document(root: &toml::Value) -> (r: Result<Config, ProfileError>)
        ensures
            match config_of(value_node(*root)) {
                Some(profiles) => r matches Ok(config) && config@ == profiles,
                None => r matches Err(ProfileError::ConfigParse),
            },
    {
        let list = match entry(root, "profile") {
            None => {
                return Err(ProfileError::ConfigParse);
            },
            Some(found) => match found.as_array() {
                None => {
                    return Err(ProfileError::ConfigParse);
                },
                Some(list) => list,
            },
        };
        let ghost records = value_nodes(list@);
        let mut profiles: Vec<Profile> = Vec::new();
        let mut i: usize = 0;
        while i < list.len()
            invariant
                i <= list.len(),
                records == value_nodes(list@),
                value_node(*root).entry("profile"@) == Some(Node::List(records)),
                profiles@.len() == i,
                forall|j: int|
                    0 <= j < i ==> profile_of(records[j]) == Some(#[trigger] profiles@[j]@),
            decreases list.len() - i,
        {
            assert(records[i as int] == value_node(list@[i as int]));
            match Profile::from_value(&list[i]) {
                Err(e) => {
                    return Err(e);
                },
                Ok(profile) => {
                    profiles.push(profile);
                },
            }
            i += 1;
        }
        let config = Config { profiles };
        proof {
            assert forall|j: int| 0 <= j < records.len() implies profile_of(
                #[trigger] records[j],
            ) is Some by {
                assert(profile_of(records[j]) == Some(config.profiles@[j]@));
            }
            assert(config@ =~= config_of(value_node(*root)).unwrap());
        }
        Ok(config)
    }

    /// Reads the profiles from the text of a profiles file.
    pub fn from_toml(text: &str) -> (r: Result<Config, ProfileError>)
        ensures
            match config_of_text(text@) {
                Some(profiles) => r matches Ok(config) && config@ == profiles,
                None => r matches Err(ProfileError::ConfigParse),
            },
    {
        match parse_document(text) {
            Ok(root) => Config::from_document(&root),
            Err(_) => Err(ProfileError::ConfigParse),
        }
    }

    /// Loads the configuration from what was found at the place of the
    /// profiles file. A missing file is no error and gives no configuration,
    /// which is not the same as a configuration without profiles. A file that
    /// cannot be read, or whose text holds no list of profile records, is an
    /// error.
    pub fn from_file(file: &ConfigFile) -> (r: Result<Option<Config>, ProfileError>)
        ensures
            match *file {
                ConfigFile::Missing => r matches Ok(None),
                ConfigFile::Unreadable => r matches Err(ProfileError::ConfigParse),
                ConfigFile::Contents(text) => match config_of_text(text@) {
                    Some(profiles) => r matches Ok(Some(config)) && config@ == profiles,
                    None => r matches Err(ProfileError::ConfigParse),
                },
            },
    {
        match file {
            ConfigFile::Missing => Ok(None),
            ConfigFile::Unreadable => Err(ProfileError::ConfigParse),
            ConfigFile::Contents(text) => match Config::from_toml(text.as_str()) {
                Ok(config) => Ok(Some(config)),
                Err(e) => Err(e),
            },
        }
    }

    /// The name of the first profile that matches `cwd`, the placeholder
    /// standing for `home` in the patterns and in `cwd`. Profiles are tried in
    /// the order of the file, and none after the first that matches; a pattern
    /// that is no regular expression ends the scan with an error when the scan
    /// reaches it.
    pub fn matching_profile(&self, cwd: &str, home: &str) -> (r: Result<
        Option<String>,
        ProfileError,
    >)
        ensures
            names(r, select(self@, cwd@, home@)),
            self.profiles@.len() == 0 ==> r matches Ok(None),
    {
        let expanded = expand_home(cwd, home);
        let ghost verdicts = profile_verdicts(self@, cwd@, home@);
        let mut i: usize = 0;
        while i < self.profiles.len()
            invariant
                i <= self.profiles.len(),
                expanded@ == crate::expand::expand(cwd@, home@),
                verdicts == profile_verdicts(self@, cwd@, home@),
                forall|j: int| 0 <= j < i ==> verdicts[j] is NoMatch,
            decreases self.profiles.len() - i,
        {
            let profile = &self.profiles[i];
            let matched = profile.matches_expanded(expanded.as_str(), home, Ghost(cwd@));
            proof {
                assert(self@[i as int] == profile@);
                assert(verdicts[i as int] == profile_verdict(profile@, cwd@, home@));
                lemma_first_decisive_after(verdicts, i as int);
            }
            match matched {
                Ok(true) => {
                    return Ok(Some(profile.name.clone()));
                },
                Ok(false) => {},
                Err(e) => {
                    return Err(e);
                },
            }
            i += 1;
        }
        proof {
            lemma_first_decisive_after(verdicts, i as int);
        }
        Ok(None)
    }
}

} // verus!
