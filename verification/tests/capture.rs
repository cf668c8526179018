use linux_post_install::capture::{
    capture, command_output, lines, package_query, user_services_from, CommandOutcome,
};
use linux_post_install::manifest::Dotfile;
use linux_post_install::os_details::Distro;

#[test]
fn entries_are_trimmed_sorted_and_unique() {
    assert_eq!(lines("zsh\n  git \n\n\tgit\r\nbash\n"), ["bash", "git", "zsh"]);
    assert!(lines("").is_empty());
    assert!(lines("\n \n\t\r\n").is_empty());
    assert_eq!(lines("b\na"), ["a", "b"]);
    assert_eq!(lines("Z\na\nB"), ["B", "Z", "a"]);
    assert_eq!(lines("ab\na\nabc\n"), ["a", "ab", "abc"]);
    assert_eq!(lines("\u{e9}\nz\n"), ["z", "\u{e9}"]);
}

#[test]
fn service_names_are_first_words() {
    let out = "dbus-broker.service enabled enabled\n  pipewire.socket   enabled\n\n   \nwireplumber.service\r\n";
    assert_eq!(
        user_services_from(out),
        ["dbus-broker.service", "pipewire.socket", "wireplumber.service"]
    );
    assert!(user_services_from("").is_empty());
}

#[test]
fn package_queries_per_distribution() {
    assert_eq!(package_query(Distro::EndeavourOS), ("pacman", &["-Qqe"][..]));
    assert_eq!(package_query(Distro::PopOS), ("apt-mark", &["showmanual"][..]));
    assert_eq!(
        package_query(Distro::RockyLinux),
        ("dnf", &["repoquery", "--userinstalled", "--qf", "%{name}\\n"][..])
    );
    assert_eq!(
        package_query(Distro::OpenSUSE),
        ("zypper", &["search", "--installed-only", "--type", "package"][..])
    );
    assert_eq!(package_query(Distro::Alpine), ("apk", &["info"][..]));
    assert_eq!(package_query(Distro::Void), ("xbps-query", &["-m"][..]));
    assert_eq!(package_query(Distro::Gentoo), ("qlist", &["-I"][..]));
    assert_eq!(package_query(Distro::Solus), ("eopkg", &["list-installed"][..]));
}

#[test]
fn command_outcomes() {
    assert_eq!(
        command_output(
            "pacman",
            CommandOutcome::Exited {
                success: true,
                status: "exit status: 0".into(),
                stdout: Ok("a\nb\n".into())
            }
        ),
        Ok("a\nb\n".to_string())
    );
    assert_eq!(
        command_output(
            "pacman",
            CommandOutcome::Exited {
                success: true,
                status: "exit status: 0".into(),
                stdout: Err("bad byte".into())
            }
        ),
        Err("Invalid UTF-8 from pacman: bad byte".to_string())
    );
    assert_eq!(
        command_output(
            "flatpak",
            CommandOutcome::Exited {
                success: false,
                status: "exit status: 1".into(),
                stdout: Ok(String::new())
            }
        ),
        Err("flatpak exited with exit status: 1".to_string())
    );
    assert_eq!(command_output("flatpak", CommandOutcome::NotFound), Ok(String::new()));
    assert_eq!(
        command_output("dnf", CommandOutcome::Failed("permission denied".into())),
        Err("Could not run dnf: permission denied".to_string())
    );
}

#[test]
fn capture_records_packages_flatpaks_and_services() {
    let m = capture(
        Distro::Fedora,
        "vim\ngit\nvim\n",
        "org.mozilla.firefox\n",
        Some("a.service enabled\n"),
    );
    assert_eq!(m.selected_profiles, ["captured"]);
    assert_eq!(m.profiles.len(), 1);
    assert_eq!(m.profiles[0].0, "captured");
    assert!(m.profiles[0].1.common.is_empty());
    assert_eq!(m.profiles[0].1.packages, vec![("fedora".to_string(), vec!["git".to_string(), "vim".to_string()])]);
    assert!(!m.danklinux.enabled);
    assert_eq!(m.danklinux.installer_url, "https://install.danklinux.com");
    assert_eq!(m.flatpaks, ["org.mozilla.firefox"]);
    assert!(m.system_services.is_empty());
    assert_eq!(m.user_services, ["a.service"]);
    let no_dotfiles: Vec<Dotfile> = vec![];
    assert_eq!(m.dotfiles, no_dotfiles);

    let without_services = capture(Distro::Arch, "", "", None);
    assert!(without_services.user_services.is_empty());
    assert!(without_services.profiles[0].1.packages[0].1.is_empty());
    assert_eq!(without_services.profiles[0].1.packages[0].0, "arch");
}

#[test]
fn unicode_whitespace_is_trimmed() {
    assert_eq!(lines("\u{3000}a\u{85}\n\u{2009}b\u{a0}\n"), ["a", "b"]);
    assert_eq!(lines("\u{200b}c\n"), ["\u{200b}c"]);
    assert_eq!(user_services_from("x\u{2028}y\n"), ["x"]);
}
