//! What the launcher hands to the program it starts.

use crate::error::ProfileError;
use crate::profile::texts;
use vstd::prelude::*;
use vstd::string::StringExecFns;

verus! {

/// The executable to start: the first of `candidates`, the paths found on the
/// search path in its order, that is not `this_program`, the launcher's own
/// path. The launcher may bear the name of the program it starts.
pub fn find_starship(candidates: &Vec<String>, this_program: &str) -> (r: Result<
    String,
    ProfileError,
>)
    ensures
        match r {
            Ok(path) => exists|i: int|
                {
                    &&& 0 <= i < candidates@.len()
                    &&& path@ == (#[trigger] candidates@[i])@
                    &&& path@ != this_program@
                    &&& forall|j: int| 0 <= j < i ==> (#[trigger] candidates@[j])@ == this_program@
                },
            Err(e) => e is ExecutableNotFound && forall|i: int|
                0 <= i < candidates@.len() ==> (#[trigger] candidates@[i])@ == this_program@,
        },
{
    let own = this_program.to_owned();
    let mut i: usize = 0;
    while i < candidates.len()
        invariant
            i <= candidates.len(),
            own@ == this_program@,
            forall|j: int| 0 <= j < i ==> (#[trigger] candidates@[j])@ == this_program@,
        decreases candidates.len() - i,
    {
        if candidates[i] != own {
            return Ok(candidates[i].clone());
        }
        i += 1;
    }
    Err(ProfileError::ExecutableNotFound)
}

/// The arguments for the program: `rest` as it is, after `--help` where the
/// program's own help was asked for.
pub fn launch_args(rest: Vec<String>, starship_help: bool) -> (r: Vec<String>)
    ensures
        texts(r@) == if starship_help {
            seq!["--help"@] + texts(rest@)
        } else {
            texts(rest@)
        },
{
    let mut args = rest;
    if starship_help {
        args.insert(0, "--help".to_owned());
        assert(texts(args@) =~= seq!["--help"@] + texts(rest@));
    }
    args
}

/// The profiles file of a configuration directory.
pub fn profiles_file(config_dir: &str) -> (r: String)
    ensures
        r@ == config_dir@ + "/profiles.toml"@,
{
    config_dir.to_owned().concat("/profiles.toml")
}

/// The directory of profile files of a configuration directory.
pub fn profiles_dir(config_dir: &str) -> (r: String)
    ensures
        r@ == config_dir@ + "/profiles"@,
{
    config_dir.to_owned().concat("/profiles")
}

/// The configuration file of the profile `name`, to be handed on to the
/// program: `<profiles_dir>/<name>.toml`. A profile can be used only where
/// the directory of profile files exists; whether the file itself exists is
/// left to the program.
pub fn profile_config_path(profiles_dir: &str, is_dir: bool, name: &str) -> (r: Result<
    String,
    ProfileError,
>)
    ensures
        match r {
            Ok(path) => is_dir && path@ == profiles_dir@ + "/"@ + name@ + ".toml"@,
            Err(e) => !is_dir && e is ProfilesDirectoryMissing,
        },
{
    if !is_dir {
        return Err(ProfileError::ProfilesDirectoryMissing);
    }
    Ok(profiles_dir.to_owned().concat("/").concat(name).concat(".toml"))
}

} // verus!
