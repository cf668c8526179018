use linux_post_install::apply::{apply, install_invocation, ApplyPlan, Operation};
use linux_post_install::capture::capture;
use linux_post_install::manifest::{DankLinux, Dotfile, Manifest, PackageProfile};
use linux_post_install::os_details::{Distro, PackageManager};

fn s(v: &str) -> String {
    v.to_string()
}

fn strings(items: &[&str]) -> Vec<String> {
    items.iter().map(|x| x.to_string()).collect()
}

fn run(program: &str, args: &[&str]) -> Operation {
    Operation::Run { program: s(program), args: strings(args) }
}

fn sample() -> Manifest {
    Manifest {
        selected_profiles: strings(&["base", "desktop"]),
        profiles: vec![
            (
                s("base"),
                PackageProfile {
                    common: strings(&["git", "zsh"]),
                    packages: vec![(s("arch"), strings(&["base-devel"])), (s("fedora"), strings(&["fd-find"]))],
                },
            ),
            (
                s("desktop"),
                PackageProfile { common: strings(&["firefox", "git"]), packages: vec![] },
            ),
            (s("empty"), PackageProfile::default()),
        ],
        danklinux: DankLinux { enabled: true, installer_url: s("https://install.danklinux.com") },
        flatpaks: strings(&["org.gimp.GIMP"]),
        system_services: strings(&["sshd", "bluetooth"]),
        user_services: strings(&["pipewire"]),
        dotfiles: vec![
            Dotfile { source: s("dotfiles/hypr"), target: s("~/.config/hypr"), template: false },
            Dotfile { source: s("/etc/skel/.bashrc"), target: s("/tmp/bashrc"), template: true },
        ],
    }
}

#[test]
fn full_manifest_plan() {
    let plan = apply(&sample(), "/srv/replica", Distro::Arch, &[], Some("/home/u"));
    assert_eq!(
        plan,
        ApplyPlan {
            operations: vec![
                run("sudo", &["pacman", "-S", "--needed", "base-devel", "firefox", "git", "zsh"]),
                run("sh", &["-c", "curl -fsSL https://install.danklinux.com | sh"]),
                run("flatpak", &["install", "-y", "flathub", "org.gimp.GIMP"]),
                run("sudo", &["systemctl", "enable", "--now", "sshd"]),
                run("sudo", &["systemctl", "enable", "--now", "bluetooth"]),
                run("systemctl", &["--user", "enable", "--now", "pipewire"]),
                Operation::Copy {
                    source: s("/srv/replica/dotfiles/hypr"),
                    target: s("/home/u/.config/hypr"),
                    template: false
                },
                Operation::Copy {
                    source: s("/etc/skel/.bashrc"),
                    target: s("/tmp/bashrc"),
                    template: true
                },
            ],
            failure: None,
        }
    );
}

#[test]
fn named_profiles_replace_the_selection() {
    let mut m = sample();
    m.danklinux.enabled = false;
    m.flatpaks.clear();
    m.system_services.clear();
    m.user_services.clear();
    m.dotfiles.clear();
    let plan = apply(&m, "", Distro::Fedora, &strings(&["base"]), None);
    assert_eq!(
        plan.operations,
        vec![run("sudo", &["dnf", "install", "fd-find", "git", "zsh"])]
    );
    assert_eq!(plan.failure, None);
    let nothing = apply(&m, "", Distro::Fedora, &strings(&["empty"]), None);
    assert!(nothing.operations.is_empty());
    assert_eq!(nothing.failure, None);
}

#[test]
fn unknown_profile_runs_nothing() {
    let plan = apply(&sample(), ".", Distro::Arch, &strings(&["base", "gaming", "nope"]), Some("/h"));
    assert!(plan.operations.is_empty());
    assert_eq!(plan.failure, Some(s("Unknown package profile: gaming")));
}

#[test]
fn insecure_installer_stops_after_packages() {
    let mut m = sample();
    m.danklinux.installer_url = s("http://install.danklinux.com");
    let plan = apply(&m, ".", Distro::Gentoo, &[], Some("/h"));
    assert_eq!(plan.operations, vec![run("sudo", &["emerge", "firefox", "git", "zsh"])]);
    assert_eq!(plan.failure, Some(s("DankLinux installer_url must use HTTPS")));
}

#[test]
fn quoted_installer_url() {
    let mut m = sample();
    m.selected_profiles.clear();
    m.flatpaks.clear();
    m.system_services.clear();
    m.user_services.clear();
    m.dotfiles.clear();
    m.danklinux.installer_url = s("https://example.org/a b");
    let plan = apply(&m, ".", Distro::Arch, &[], None);
    assert_eq!(plan.operations, vec![run("sh", &["-c", "curl -fsSL 'https://example.org/a b' | sh"])]);
}

#[test]
fn missing_home_stops_at_the_dotfile() {
    let mut m = sample();
    m.dotfiles.reverse();
    let plan = apply(&m, "rel", Distro::Debian, &[], None);
    assert_eq!(plan.operations.len(), 7);
    assert_eq!(
        plan.operations[6],
        Operation::Copy { source: s("/etc/skel/.bashrc"), target: s("/tmp/bashrc"), template: true }
    );
    assert_eq!(plan.failure, Some(s("HOME is not set")));
}

#[test]
fn install_invocation_lists_manager_arguments_then_packages() {
    assert_eq!(
        install_invocation(PackageManager::Pacman, &strings(&["a", "b"])),
        strings(&["pacman", "-S", "--needed", "a", "b"])
    );
    assert_eq!(install_invocation(PackageManager::Portage, &[]), strings(&["emerge"]));
}

#[test]
fn applying_a_capture_replicates_it() {
    let m = capture(Distro::Ubuntu, "vim\ncurl\n", "org.x.App\n", Some("pipewire.service enabled\n"));
    let plan = apply(&m, ".", Distro::Ubuntu, &[], None);
    assert_eq!(
        plan,
        ApplyPlan {
            operations: vec![
                run("sudo", &["apt-get", "install", "curl", "vim"]),
                run("flatpak", &["install", "-y", "flathub", "org.x.App"]),
                run("systemctl", &["--user", "enable", "--now", "pipewire.service"]),
            ],
            failure: None,
        }
    );
}
