use starship_profiles::error::ProfileError;
use starship_profiles::launch::{
    find_starship, launch_args, profile_config_path, profiles_dir, profiles_file,
};

fn strings(items: &[&str]) -> Vec<String> {
    items.iter().map(|s| s.to_string()).collect()
}

#[test]
fn finds_the_first_executable_that_is_not_the_launcher() {
    let found = find_starship(
        &strings(&["/home/a/bin/starship", "/usr/bin/starship", "/opt/starship"]),
        "/home/a/bin/starship",
    );
    assert_eq!(found.unwrap(), "/usr/bin/starship");
}

#[test]
fn takes_the_first_candidate_when_the_launcher_is_not_among_them() {
    let found = find_starship(&strings(&["/usr/bin/starship", "/opt/starship"]), "/bin/wrapper");
    assert_eq!(found.unwrap(), "/usr/bin/starship");
}

#[test]
fn no_executable_but_the_launcher_is_an_error() {
    assert!(matches!(
        find_starship(&strings(&["/bin/starship", "/bin/starship"]), "/bin/starship"),
        Err(ProfileError::ExecutableNotFound)
    ));
    assert!(matches!(
        find_starship(&strings(&[]), "/bin/starship"),
        Err(ProfileError::ExecutableNotFound)
    ));
}

#[test]
fn arguments_pass_through() {
    assert_eq!(
        launch_args(strings(&["prompt", "--status", "0"]), false),
        strings(&["prompt", "--status", "0"])
    );
    assert_eq!(launch_args(strings(&[]), false), strings(&[]));
}

#[test]
fn help_for_the_program_comes_first() {
    assert_eq!(launch_args(strings(&["prompt"]), true), strings(&["--help", "prompt"]));
    assert_eq!(launch_args(strings(&[]), true), strings(&["--help"]));
}

#[test]
fn configuration_paths() {
    assert_eq!(profiles_file("/home/a/.config/starship"), "/home/a/.config/starship/profiles.toml");
    assert_eq!(profiles_dir("/home/a/.config/starship"), "/home/a/.config/starship/profiles");
}

#[test]
fn profile_maps_to_its_file() {
    let path = profile_config_path("/home/a/.config/starship/profiles", true, "dev");
    assert_eq!(path.unwrap(), "/home/a/.config/starship/profiles/dev.toml");
}

#[test]
fn missing_profiles_directory_is_an_error() {
    assert!(matches!(
        profile_config_path("/home/a/.config/starship/profiles", false, "dev"),
        Err(ProfileError::ProfilesDirectoryMissing)
    ));
}
