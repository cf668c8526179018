use linux_post_install::cli::{parse_command, parse_profiles, Command};
use linux_post_install::manifest::PackageProfile;
use linux_post_install::os_details::Distro;

#[test]
fn parses_comma_separated_and_individual_profiles() {
    let args = vec!["base,desktop".into(), "development".into()];
    assert_eq!(parse_profiles(&args), ["base", "desktop", "development"]);
}

#[test]
fn profile_combines_common_and_distro_packages() {
    let profile = PackageProfile {
        common: vec!["git".into()],
        packages: vec![("fedora".into(), vec!["fd-find".into()])],
    };

    assert_eq!(profile.packages_for(Distro::Fedora), ["git", "fd-find"]);
    assert_eq!(profile.packages_for(Distro::Arch), ["git"]);
}

#[test]
fn profile_lookup_takes_first_matching_key() {
    let profile = PackageProfile {
        common: vec![],
        packages: vec![
            ("arch".into(), vec!["a".into()]),
            ("fedora".into(), vec!["b".into(), "c".into()]),
            ("fedora".into(), vec!["d".into()]),
        ],
    };
    assert_eq!(profile.packages_for(Distro::Fedora), ["b", "c"]);
    assert!(profile.packages_for(Distro::Debian).is_empty());
}

#[test]
fn profile_names_are_trimmed_and_empty_pieces_dropped() {
    let args: Vec<String> = vec![" base , ,desktop,".into(), "".into(), "  dev  ".into()];
    assert_eq!(parse_profiles(&args), ["base", "desktop", "dev"]);
    let none: Vec<String> = vec![];
    assert!(parse_profiles(&none).is_empty());
}

#[test]
fn comma_joined_profiles_equal_separate_arguments() {
    let joined: Vec<String> = vec!["base, desktop".into()];
    let separate: Vec<String> = vec!["base".into(), " desktop".into()];
    assert_eq!(parse_profiles(&joined), parse_profiles(&separate));
}

fn strings(items: &[&str]) -> Vec<String> {
    items.iter().map(|s| s.to_string()).collect()
}

#[test]
fn commands_are_recognised() {
    assert_eq!(parse_command(&[]), Command::Help);
    assert_eq!(parse_command(&strings(&["-h"])), Command::Help);
    assert_eq!(parse_command(&strings(&["--help"])), Command::Help);
    assert_eq!(parse_command(&strings(&["help", "x"])), Command::Help);
    assert_eq!(
        parse_command(&strings(&["dry-run", "m.toml"])),
        Command::Apply { manifest: "m.toml".into(), dry_run: true }
    );
    assert_eq!(
        parse_command(&strings(&["apply", "m.toml"])),
        Command::Apply { manifest: "m.toml".into(), dry_run: false }
    );
    assert_eq!(
        parse_command(&strings(&["install", "base,desktop", "dev"])),
        Command::Install { profiles: strings(&["base", "desktop", "dev"]) }
    );
    assert_eq!(
        parse_command(&strings(&["capture", "out.toml"])),
        Command::Capture { manifest: "out.toml".into() }
    );
}

#[test]
fn invalid_command_lines_are_explained() {
    assert_eq!(
        parse_command(&strings(&["apply"])),
        Command::Invalid("Usage: linux_post_install apply <manifest>".into())
    );
    assert_eq!(
        parse_command(&strings(&["dry-run"])),
        Command::Invalid("Usage: linux_post_install dry-run <manifest>".into())
    );
    assert_eq!(
        parse_command(&strings(&["capture"])),
        Command::Invalid("Usage: linux_post_install capture <manifest>".into())
    );
    assert_eq!(
        parse_command(&strings(&["frobnicate"])),
        Command::Invalid("Unknown command: frobnicate. Run with --help.".into())
    );
}
