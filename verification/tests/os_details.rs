use linux_post_install::os_details::{find_value, parse_os_release, Distro, PackageManager};

const ALL: [Distro; 20] = [
    Distro::Arch,
    Distro::Manjaro,
    Distro::EndeavourOS,
    Distro::Debian,
    Distro::Ubuntu,
    Distro::LinuxMint,
    Distro::PopOS,
    Distro::ElementaryOS,
    Distro::Kali,
    Distro::Fedora,
    Distro::Rhel,
    Distro::CentOS,
    Distro::RockyLinux,
    Distro::AlmaLinux,
    Distro::AmazonLinux,
    Distro::OpenSUSE,
    Distro::Alpine,
    Distro::Void,
    Distro::Gentoo,
    Distro::Solus,
];

#[test]
fn manifest_key_identifies_its_distribution() {
    for d in ALL {
        assert_eq!(Distro::try_from(d.manifest_key()), Ok(d));
    }
}

#[test]
fn opensuse_aliases_are_recognised() {
    for id in ["opensuse", "opensuse-leap", "opensuse-tumbleweed", "sles"] {
        assert_eq!(Distro::try_from(id), Ok(Distro::OpenSUSE));
    }
    assert_eq!(Distro::try_from("amzn"), Ok(Distro::AmazonLinux));
    assert_eq!(Distro::try_from("pop"), Ok(Distro::PopOS));
}

#[test]
fn unknown_distribution_is_rejected() {
    assert_eq!(
        Distro::try_from("plan9"),
        Err("Unsupported Linux distribution: plan9".to_string())
    );
    assert_eq!(Distro::try_from("Arch"), Err("Unsupported Linux distribution: Arch".to_string()));
    assert_eq!(Distro::try_from(""), Err("Unsupported Linux distribution: ".to_string()));
}

#[test]
fn package_managers_and_their_arguments() {
    assert_eq!(Distro::Manjaro.package_manager(), PackageManager::Pacman);
    assert_eq!(Distro::Kali.package_manager(), PackageManager::Apt);
    assert_eq!(Distro::AmazonLinux.package_manager(), PackageManager::Dnf);
    assert_eq!(Distro::OpenSUSE.package_manager(), PackageManager::Zypper);
    assert_eq!(Distro::Alpine.package_manager(), PackageManager::Apk);
    assert_eq!(Distro::Void.package_manager(), PackageManager::Xbps);
    assert_eq!(Distro::Gentoo.package_manager(), PackageManager::Portage);
    assert_eq!(Distro::Solus.package_manager(), PackageManager::Eopkg);
    assert_eq!(PackageManager::Apt.executable(), "apt-get");
    assert_eq!(PackageManager::Xbps.executable(), "xbps-install");
    assert_eq!(PackageManager::Portage.executable(), "emerge");
    assert_eq!(PackageManager::Pacman.install_args(), &["-S", "--needed"]);
    assert_eq!(PackageManager::Apk.install_args(), &["add"]);
    assert_eq!(PackageManager::Xbps.install_args(), &["-S"]);
    assert_eq!(PackageManager::Dnf.install_args(), &["install"]);
    assert!(PackageManager::Portage.install_args().is_empty());
}

const RELEASE: &str = "NAME=\"Fedora Linux\"\nVERSION=\"40 (Workstation Edition)\"\r\nID=fedora\nVERSION_ID=40\nno equals here\nID=arch\n";

#[test]
fn values_are_found_unquoted_and_first_wins() {
    assert_eq!(find_value(RELEASE, "NAME"), Some("Fedora Linux"));
    assert_eq!(find_value(RELEASE, "VERSION"), Some("40 (Workstation Edition)"));
    assert_eq!(find_value(RELEASE, "ID"), Some("fedora"));
    assert_eq!(find_value(RELEASE, "VERSION_ID"), Some("40"));
    assert_eq!(find_value(RELEASE, "RELEASE_TYPE"), None);
    assert_eq!(find_value("A=\"\"\"x\"\"", "A"), Some("x"));
    assert_eq!(find_value("A=b=c", "A"), Some("b=c"));
    assert_eq!(find_value("A", "A"), None);
    assert_eq!(find_value("", "A"), None);
}

#[test]
fn os_release_gives_name_and_distribution() {
    let details = parse_os_release(RELEASE).unwrap();
    assert_eq!(details.distro, Distro::Fedora);
    assert_eq!(details.name, "OS: Fedora Linux, 40 (Workstation Edition), ");
    let with_type = parse_os_release("ID=\"ubuntu\"\nNAME=Ubuntu\nRELEASE_TYPE=stable").unwrap();
    assert_eq!(with_type.distro, Distro::Ubuntu);
    assert_eq!(with_type.name, "OS: Ubuntu, , stable");
}

#[test]
fn os_release_errors() {
    assert_eq!(parse_os_release("NAME=x\n"), Err("Missing ID in os-release".to_string()));
    assert_eq!(
        parse_os_release("ID=haiku\n"),
        Err("Unsupported Linux distribution: haiku".to_string())
    );
}
