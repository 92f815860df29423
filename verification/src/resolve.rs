//! Which profile a run uses: the one asked for, else the one that the
//! configuration selects for the working directory.

use crate::config::{names, select, Config, Selection};
use crate::error::ProfileError;
use crate::profile::ProfileView;
use vstd::prelude::*;

verus! {

/// The profile of a run. A profile that was asked for by name is taken as it
/// is, whether or not the configuration knows it; without one, and without a
/// configuration, there is none; else the configuration selects.
pub open spec fn resolution(
    arg_profile: Option<Seq<char>>,
    config: Option<Seq<ProfileView>>,
    cwd: Seq<char>,
    home: Seq<char>,
) -> Selection {
    match (arg_profile, config) {
        (Some(name), _) => Selection::Profile { name },
        (None, None) => Selection::NoProfile,
        (None, Some(profiles)) => select(profiles, cwd, home),
    }
}

/// A profile asked for by name always wins: neither the configuration nor the
/// directory is looked at.
pub proof fn lemma_override_wins(
    name: Seq<char>,
    config: Option<Seq<ProfileView>>,
    cwd: Seq<char>,
    home: Seq<char>,
)
    ensures
        resolution(Some(name), config, cwd, home) == (Selection::Profile { name }),
{
}

/// Without a configuration, and without a profile asked for by name, no
/// profile is used, and that is no error.
pub proof fn lemma_no_configuration_no_profile(cwd: Seq<char>, home: Seq<char>)
    ensures
        resolution(None, None, cwd, home) == Selection::NoProfile,
{
}

/// The name of the profile to use in directory `cwd`.
pub fn get_profile_name(
    arg_profile: Option<String>,
    config: Option<&Config>,
    cwd: &str,
    home: &str,
) -> (r: Result<Option<String>, ProfileError>)
    ensures
        names(
            r,
            resolution(
                match arg_profile {
                    Some(name) => Some(name@),
                    None => None,
                },
                match config {
                    Some(c) => Some(c@),
                    None => None,
                },
                cwd@,
                home@,
            ),
        ),
        arg_profile is Some ==> r == Ok::<Option<String>, ProfileError>(arg_profile),
        arg_profile is None && config is None ==> r matches Ok(None),
{
    match arg_profile {
        Some(name) => Ok(Some(name)),
        None => match config {
            None => Ok(None),
            Some(c) => c.matching_profile(cwd, home),
        },
    }
}

} // verus!
