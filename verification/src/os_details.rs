//! Linux distribution identification and package-manager selection.

use vstd::prelude::*;
use crate::text::{
    lemma_index_of, lemma_index_of_bound,
    chars_eq, concat, find_char, index_of, line_bounds, lines, str_eq, strip_quotes, to_chars,
    trim_bounds,
};

verus! {

/// Details detected from an `os-release` file.
#[derive(Debug, Clone, PartialEq, Eq)]
pub struct OSDetails {
    /// A human-readable summary containing the OS name, version, and release type.
    pub name: String,
    /// The detected Linux distribution.
    pub distro: Distro,
}

/// A supported Linux distribution.
#[derive(Clone, Copy, Debug, PartialEq, Eq, Structural)]
pub enum Distro {
    /// Arch Linux.
    Arch,
    /// Manjaro Linux.
    Manjaro,
    /// EndeavourOS.
    EndeavourOS,
    /// Debian.
    Debian,
    /// Ubuntu.
    Ubuntu,
    /// Linux Mint.
    LinuxMint,
    /// Pop!_OS.
    PopOS,
    /// elementary OS.
    ElementaryOS,
    /// Kali Linux.
    Kali,
    /// Fedora Linux.
    Fedora,
    /// Red Hat Enterprise Linux.
    Rhel,
    /// CentOS.
    CentOS,
    /// Rocky Linux.
    RockyLinux,
    /// AlmaLinux.
    AlmaLinux,
    /// Amazon Linux.
    AmazonLinux,
    /// openSUSE or SUSE Linux Enterprise Server.
    OpenSUSE,
    /// Alpine Linux.
    Alpine,
    /// Void Linux.
    Void,
    /// Gentoo Linux.
    Gentoo,
    /// Solus.
    Solus,
}

/// A package manager used by one or more supported distributions.
#[derive(Clone, Copy, Debug, PartialEq, Eq, Structural)]
pub enum PackageManager {
    /// APT, invoked through `apt-get`.
    Apt,
    /// The Arch Linux `pacman` package manager.
    Pacman,
    /// The DNF package manager.
    Dnf,
    /// The openSUSE `zypper` package manager.
    Zypper,
    /// The Alpine Package Keeper.
    Apk,
    /// The XBPS package manager.
    Xbps,
    /// Gentoo's Portage package manager.
    Portage,
    /// The Solus `eopkg` package manager.
    Eopkg,
}

/// The package manager of each distribution.
pub open spec fn spec_package_manager(d: Distro) -> PackageManager {
    match d {
        Distro::Arch | Distro::Manjaro | Distro::EndeavourOS => PackageManager::Pacman,
        Distro::Debian | Distro::Ubuntu | Distro::LinuxMint | Distro::PopOS
        | Distro::ElementaryOS | Distro::Kali => PackageManager::Apt,
        Distro::Fedora | Distro::Rhel | Distro::CentOS | Distro::RockyLinux
        | Distro::AlmaLinux | Distro::AmazonLinux => PackageManager::Dnf,
        Distro::OpenSUSE => PackageManager::Zypper,
        Distro::Alpine => PackageManager::Apk,
        Distro::Void => PackageManager::Xbps,
        Distro::Gentoo => PackageManager::Portage,
        Distro::Solus => PackageManager::Eopkg,
    }
}

impl Distro {
    /// Returns the package manager associated with this distribution.
    pub fn package_manager(&self) -> (m: PackageManager)
        ensures
            m == spec_package_manager(*self),
    {
        match self {
            Distro::Arch | Distro::Manjaro | Distro::EndeavourOS => PackageManager::Pacman,
            Distro::Debian | Distro::Ubuntu | Distro::LinuxMint | Distro::PopOS
            | Distro::ElementaryOS | Distro::Kali => PackageManager::Apt,
            Distro::Fedora | Distro::Rhel | Distro::CentOS | Distro::RockyLinux
            | Distro::AlmaLinux | Distro::AmazonLinux => PackageManager::Dnf,
            Distro::OpenSUSE => PackageManager::Zypper,
            Distro::Alpine => PackageManager::Apk,
            Distro::Void => PackageManager::Xbps,
            Distro::Gentoo => PackageManager::Portage,
            Distro::Solus => PackageManager::Eopkg,
        }
    }
}

/// The command that invokes each package manager.
pub open spec fn spec_executable(m: PackageManager) -> Seq<char> {
    match m {
        PackageManager::Apt => "apt-get"@,
        PackageManager::Pacman => "pacman"@,
        PackageManager::Dnf => "dnf"@,
        PackageManager::Zypper => "zypper"@,
        PackageManager::Apk => "apk"@,
        PackageManager::Xbps => "xbps-install"@,
        PackageManager::Portage => "emerge"@,
        PackageManager::Eopkg => "eopkg"@,
    }
}

/// The arguments that precede package names when each manager installs.
pub open spec fn spec_install_args(m: PackageManager) -> Seq<Seq<char>> {
    match m {
        PackageManager::Apt | PackageManager::Dnf | PackageManager::Zypper
        | PackageManager::Eopkg => seq!["install"@],
        PackageManager::Pacman => seq!["-S"@, "--needed"@],
        PackageManager::Apk => seq!["add"@],
        PackageManager::Xbps => seq!["-S"@],
        PackageManager::Portage => seq![],
    }
}

/// The characters of each string of a slice.
pub open spec fn str_views(s: Seq<&str>) -> Seq<Seq<char>> {
    Seq::new(s.len(), |i: int| s[i]@)
}

impl PackageManager {
    /// Returns the executable used to invoke this package manager.
    pub fn executable(&self) -> (e: &'static str)
        ensures
            e@ == spec_executable(*self),
    {
        match self {
            PackageManager::Apt => "apt-get",
            PackageManager::Pacman => "pacman",
            PackageManager::Dnf => "dnf",
            PackageManager::Zypper => "zypper",
            PackageManager::Apk => "apk",
            PackageManager::Xbps => "xbps-install",
            PackageManager::Portage => "emerge",
            PackageManager::Eopkg => "eopkg",
        }
    }

    /// Returns the arguments that precede package names during installation.
    ///
    /// Portage needs no explicit install subcommand, so its slice is empty.
    pub fn install_args(&self) -> (a: &'static [&'static str])
        ensures
            str_views(a@) == spec_install_args(*self),
    {
        let a: &'static [&'static str] = match self {
            PackageManager::Apt | PackageManager::Dnf | PackageManager::Zypper
            | PackageManager::Eopkg => &["install"],
            PackageManager::Pacman => &["-S", "--needed"],
            PackageManager::Apk => &["add"],
            PackageManager::Xbps => &["-S"],
            PackageManager::Portage => &[],
        };
        assert(str_views(a@) =~= spec_install_args(*self));
        a
    }
}

/// The `os-release` ID under which each distribution keeps its packages in
/// a manifest.
pub open spec fn spec_manifest_key(d: Distro) -> Seq<char> {
    match d {
        Distro::Arch => "arch"@,
        Distro::Manjaro => "manjaro"@,
        Distro::EndeavourOS => "endeavouros"@,
        Distro::Debian => "debian"@,
        Distro::Ubuntu => "ubuntu"@,
        Distro::LinuxMint => "linuxmint"@,
        Distro::PopOS => "pop"@,
        Distro::ElementaryOS => "elementary"@,
        Distro::Kali => "kali"@,
        Distro::Fedora => "fedora"@,
        Distro::Rhel => "rhel"@,
        Distro::CentOS => "centos"@,
        Distro::RockyLinux => "rocky"@,
        Distro::AlmaLinux => "almalinux"@,
        Distro::AmazonLinux => "amzn"@,
        Distro::OpenSUSE => "opensuse"@,
        Distro::Alpine => "alpine"@,
        Distro::Void => "void"@,
        Distro::Gentoo => "gentoo"@,
        Distro::Solus => "solus"@,
    }
}

/// The distribution that an `os-release` ID names, if it is supported.
pub open spec fn spec_distro_from_id(id: Seq<char>) -> Option<Distro> {
    if id == "arch"@ {
        Some(Distro::Arch)
    } else if id == "manjaro"@ {
        Some(Distro::Manjaro)
    } else if id == "endeavouros"@ {
        Some(Distro::EndeavourOS)
    } else if id == "debian"@ {
        Some(Distro::Debian)
    } else if id == "ubuntu"@ {
        Some(Distro::Ubuntu)
    } else if id == "linuxmint"@ {
        Some(Distro::LinuxMint)
    } else if id == "pop"@ {
        Some(Distro::PopOS)
    } else if id == "elementary"@ {
        Some(Distro::ElementaryOS)
    } else if id == "kali"@ {
        Some(Distro::Kali)
    } else if id == "fedora"@ {
        Some(Distro::Fedora)
    } else if id == "rhel"@ {
        Some(Distro::Rhel)
    } else if id == "centos"@ {
        Some(Distro::CentOS)
    } else if id == "rocky"@ {
        Some(Distro::RockyLinux)
    } else if id == "almalinux"@ {
        Some(Distro::AlmaLinux)
    } else if id == "amzn"@ {
        Some(Distro::AmazonLinux)
    } else if id == "opensuse"@ || id == "opensuse-leap"@ || id == "opensuse-tumbleweed"@
        || id == "sles"@ {
        Some(Distro::OpenSUSE)
    } else if id == "alpine"@ {
        Some(Distro::Alpine)
    } else if id == "void"@ {
        Some(Distro::Void)
    } else if id == "gentoo"@ {
        Some(Distro::Gentoo)
    } else if id == "solus"@ {
        Some(Distro::Solus)
    } else {
        None
    }
}

impl Distro {
    /// Returns the manifest key used for distribution-specific package lists.
    pub fn manifest_key(&self) -> (k: &'static str)
        ensures
            k@ == spec_manifest_key(*self),
    {
        match self {
            Distro::Arch => "arch",
            Distro::Manjaro => "manjaro",
            Distro::EndeavourOS => "endeavouros",
            Distro::Debian => "debian",
            Distro::Ubuntu => "ubuntu",
            Distro::LinuxMint => "linuxmint",
            Distro::PopOS => "pop",
            Distro::ElementaryOS => "elementary",
            Distro::Kali => "kali",
            Distro::Fedora => "fedora",
            Distro::Rhel => "rhel",
            Distro::CentOS => "centos",
            Distro::RockyLinux => "rocky",
            Distro::AlmaLinux => "almalinux",
            Distro::AmazonLinux => "amzn",
            Distro::OpenSUSE => "opensuse",
            Distro::Alpine => "alpine",
            Distro::Void => "void",
            Distro::Gentoo => "gentoo",
            Distro::Solus => "solus",
        }
    }

    /// Identifies the distribution from an `os-release` `ID` value.
    ///
    /// # Errors
    ///
    /// `Unsupported Linux distribution: <id>` when the ID names none of the
    /// supported distributions.
    pub fn try_from(id: &str) -> (r: Result<Distro, String>)
        ensures
            match spec_distro_from_id(id@) {
                Some(d) => r == Ok::<Distro, String>(d),
                None => r is Err && r->Err_0@ == "Unsupported Linux distribution: "@ + id@,
            },
    {
        if str_eq(id, "arch") {
            Ok(Distro::Arch)
        } else if str_eq(id, "manjaro") {
            Ok(Distro::Manjaro)
        } else if str_eq(id, "endeavouros") {
            Ok(Distro::EndeavourOS)
        } else if str_eq(id, "debian") {
            Ok(Distro::Debian)
        } else if str_eq(id, "ubuntu") {
            Ok(Distro::Ubuntu)
        } else if str_eq(id, "linuxmint") {
            Ok(Distro::LinuxMint)
        } else if str_eq(id, "pop") {
            Ok(Distro::PopOS)
        } else if str_eq(id, "elementary") {
            Ok(Distro::ElementaryOS)
        } else if str_eq(id, "kali") {
            Ok(Distro::Kali)
        } else if str_eq(id, "fedora") {
            Ok(Distro::Fedora)
        } else if str_eq(id, "rhel") {
            Ok(Distro::Rhel)
        } else if str_eq(id, "centos") {
            Ok(Distro::CentOS)
        } else if str_eq(id, "rocky") {
            Ok(Distro::RockyLinux)
        } else if str_eq(id, "almalinux") {
            Ok(Distro::AlmaLinux)
        } else if str_eq(id, "amzn") {
            Ok(Distro::AmazonLinux)
        } else if str_eq(id, "opensuse") || str_eq(id, "opensuse-leap") || str_eq(
            id,
            "opensuse-tumbleweed",
        ) || str_eq(id, "sles") {
            Ok(Distro::OpenSUSE)
        } else if str_eq(id, "alpine") {
            Ok(Distro::Alpine)
        } else if str_eq(id, "void") {
            Ok(Distro::Void)
        } else if str_eq(id, "gentoo") {
            Ok(Distro::Gentoo)
        } else if str_eq(id, "solus") {
            Ok(Distro::Solus)
        } else {
            Err(concat("Unsupported Linux distribution: ", id))
        }
    }
}

/// Every distribution is identified again from its own manifest key: the key
/// under which a manifest lists a distribution's packages is the
/// `os-release` ID that selects that distribution.
pub proof fn lemma_manifest_key_identifies(d: Distro)
    ensures
        spec_distro_from_id(spec_manifest_key(d)) == Some(d),
{
    reveal_strlit("arch");
    assert("arch"@ =~= seq!['a', 'r', 'c', 'h']);
    reveal_strlit("manjaro");
    assert("manjaro"@ =~= seq!['m', 'a', 'n', 'j', 'a', 'r', 'o']);
    reveal_strlit("endeavouros");
    assert("endeavouros"@ =~= seq!['e', 'n', 'd', 'e', 'a', 'v', 'o', 'u', 'r', 'o', 's']);
    reveal_strlit("debian");
    assert("debian"@ =~= seq!['d', 'e', 'b', 'i', 'a', 'n']);
    reveal_strlit("ubuntu");
    assert("ubuntu"@ =~= seq!['u', 'b', 'u', 'n', 't', 'u']);
    reveal_strlit("linuxmint");
    assert("linuxmint"@ =~= seq!['l', 'i', 'n', 'u', 'x', 'm', 'i', 'n', 't']);
    reveal_strlit("pop");
    assert("pop"@ =~= seq!['p', 'o', 'p']);
    reveal_strlit("elementary");
    assert("elementary"@ =~= seq!['e', 'l', 'e', 'm', 'e', 'n', 't', 'a', 'r', 'y']);
    reveal_strlit("kali");
    assert("kali"@ =~= seq!['k', 'a', 'l', 'i']);
    reveal_strlit("fedora");
    assert("fedora"@ =~= seq!['f', 'e', 'd', 'o', 'r', 'a']);
    reveal_strlit("rhel");
    assert("rhel"@ =~= seq!['r', 'h', 'e', 'l']);
    reveal_strlit("centos");
    assert("centos"@ =~= seq!['c', 'e', 'n', 't', 'o', 's']);
    reveal_strlit("rocky");
    assert("rocky"@ =~= seq!['r', 'o', 'c', 'k', 'y']);
    reveal_strlit("almalinux");
    assert("almalinux"@ =~= seq!['a', 'l', 'm', 'a', 'l', 'i', 'n', 'u', 'x']);
    reveal_strlit("amzn");
    assert("amzn"@ =~= seq!['a', 'm', 'z', 'n']);
    reveal_strlit("opensuse");
    assert("opensuse"@ =~= seq!['o', 'p', 'e', 'n', 's', 'u', 's', 'e']);
    reveal_strlit("opensuse-leap");
    assert("opensuse-leap"@ =~= seq!['o', 'p', 'e', 'n', 's', 'u', 's', 'e', '-', 'l', 'e', 'a', 'p']);
    reveal_strlit("opensuse-tumbleweed");
    assert("opensuse-tumbleweed"@ =~= seq!['o', 'p', 'e', 'n', 's', 'u', 's', 'e', '-', 't', 'u', 'm', 'b', 'l', 'e', 'w', 'e', 'e', 'd']);
    reveal_strlit("sles");
    assert("sles"@ =~= seq!['s', 'l', 'e', 's']);
    reveal_strlit("alpine");
    assert("alpine"@ =~= seq!['a', 'l', 'p', 'i', 'n', 'e']);
    reveal_strlit("void");
    assert("void"@ =~= seq!['v', 'o', 'i', 'd']);
    reveal_strlit("gentoo");
    assert("gentoo"@ =~= seq!['g', 'e', 'n', 't', 'o', 'o']);
    reveal_strlit("solus");
    assert("solus"@ =~= seq!['s', 'o', 'l', 'u', 's']);
}

/// A line split at its first `=` into key and value, as `split_once('=')` does.
pub open spec fn key_value(line: Seq<char>) -> Option<(Seq<char>, Seq<char>)> {
    let k = index_of(line, '=');
    if k < line.len() {
        Some((line.take(k as int), line.skip(k as int + 1)))
    } else {
        None
    }
}

/// The value of the first of the lines whose key is `key`, without
/// surrounding double quotes.
pub open spec fn lookup_value(ls: Seq<Seq<char>>, key: Seq<char>) -> Option<Seq<char>>
    decreases ls.len(),
{
    if ls.len() == 0 {
        None
    } else {
        match key_value(ls[0]) {
            Some((k, v)) => if k == key {
                Some(strip_quotes(v))
            } else {
                lookup_value(ls.drop_first(), key)
            },
            None => lookup_value(ls.drop_first(), key),
        }
    }
}

/// The value of `key` in `os-release` content.
pub open spec fn spec_find_value(content: Seq<char>, key: Seq<char>) -> Option<Seq<char>> {
    lookup_value(lines(content), key)
}

/// The value of an optional field, or the empty string.
pub open spec fn or_empty(v: Option<Seq<char>>) -> Seq<char> {
    match v {
        Some(s) => s,
        None => seq![],
    }
}

/// The display name made of the optional `NAME`, `VERSION` and
/// `RELEASE_TYPE` fields.
pub open spec fn spec_os_name(content: Seq<char>) -> Seq<char> {
    "OS: "@ + or_empty(spec_find_value(content, "NAME"@)) + ", "@ + or_empty(
        spec_find_value(content, "VERSION"@),
    ) + ", "@ + or_empty(spec_find_value(content, "RELEASE_TYPE"@))
}

/// Finds a value by key in `os-release` content and removes surrounding quotes.
pub fn find_value<'a>(content: &'a str, searched_key: &str) -> (r: Option<&'a str>)
    ensures
        r is Some == spec_find_value(content@, searched_key@) is Some,
        r is Some ==> r.unwrap()@ == spec_find_value(content@, searched_key@).unwrap(),
{
    let cs = to_chars(content);
    let key = to_chars(searched_key);
    let bounds = line_bounds(&cs);
    let ghost ls = lines(cs@);
    let mut i: usize = 0;
    assert(ls.skip(0) =~= ls);
    while i < bounds.len()
        invariant
            cs@ == content@,
            key@ == searched_key@,
            ls == lines(cs@),
            crate::text::bounds_within(bounds@, cs.len() as int),
            crate::text::pieces(cs@, bounds@) == ls,
            i <= bounds.len(),
            lookup_value(ls, key@) == lookup_value(ls.skip(i as int), key@),
        decreases bounds.len() - i,
    {
        let (a, b) = bounds[i];
        let ghost line = cs@.subrange(a as int, b as int);
        assert(ls[i as int] == line);
        assert(ls.skip(i as int)[0] == line);
        assert(ls.skip(i as int).drop_first() =~= ls.skip(i + 1));
        let j = find_char(&cs, a, b, '=');
        assert(line.take(j - a) =~= cs@.subrange(a as int, j as int));
        if j < b && chars_eq(&cs, a, j, &key) {
            assert(line.skip(j - a + 1) =~= cs@.subrange(j + 1, b as int));
            let (x, y) = trim_bounds(&cs, j + 1, b, true);
            return Some(content.substring_char(x, y));
        }
        i += 1;
    }
    None
}

/// Reads `os-release` content: the `ID` field determines the [`Distro`], and
/// the display name combines the optional `NAME`, `VERSION` and
/// `RELEASE_TYPE` fields, a missing one being the empty string.
///
/// # Errors
///
/// `Missing ID in os-release` when no line has the key `ID`, and the error
/// of [`Distro::try_from`] when its value names no supported distribution.
pub fn parse_os_release(content: &str) -> (r: Result<OSDetails, String>)
    ensures
        match spec_find_value(content@, "ID"@) {
            None => r is Err && r->Err_0@ == "Missing ID in os-release"@,
            Some(id) => match spec_distro_from_id(id) {
                None => r is Err && r->Err_0@ == "Unsupported Linux distribution: "@ + id,
                Some(d) => r is Ok && r->Ok_0.distro == d && r->Ok_0.name@ == spec_os_name(
                    content@,
                ),
            },
        },
{
    let mut name = "OS: ".to_owned();
    match find_value(content, "NAME") {
        Some(v) => name.append(v),
        None => {},
    }
    name.append(", ");
    match find_value(content, "VERSION") {
        Some(v) => name.append(v),
        None => {},
    }
    name.append(", ");
    match find_value(content, "RELEASE_TYPE") {
        Some(v) => name.append(v),
        None => {},
    }
    assert(name@ =~= spec_os_name(content@));
    let id = match find_value(content, "ID") {
        Some(id) => id,
        None => return Err("Missing ID in os-release".to_owned()),
    };
    let distro = match Distro::try_from(id) {
        Ok(d) => d,
        Err(e) => return Err(e),
    };
    Ok(OSDetails { name, distro })
}

/// The characters of every supported `os-release` ID.
proof fn lemma_id_chars()
    ensures
        "arch"@ == seq!['a', 'r', 'c', 'h'],
        "manjaro"@ == seq!['m', 'a', 'n', 'j', 'a', 'r', 'o'],
        "endeavouros"@ == seq!['e', 'n', 'd', 'e', 'a', 'v', 'o', 'u', 'r', 'o', 's'],
        "debian"@ == seq!['d', 'e', 'b', 'i', 'a', 'n'],
        "ubuntu"@ == seq!['u', 'b', 'u', 'n', 't', 'u'],
        "linuxmint"@ == seq!['l', 'i', 'n', 'u', 'x', 'm', 'i', 'n', 't'],
        "pop"@ == seq!['p', 'o', 'p'],
        "elementary"@ == seq!['e', 'l', 'e', 'm', 'e', 'n', 't', 'a', 'r', 'y'],
        "kali"@ == seq!['k', 'a', 'l', 'i'],
        "fedora"@ == seq!['f', 'e', 'd', 'o', 'r', 'a'],
        "rhel"@ == seq!['r', 'h', 'e', 'l'],
        "centos"@ == seq!['c', 'e', 'n', 't', 'o', 's'],
        "rocky"@ == seq!['r', 'o', 'c', 'k', 'y'],
        "almalinux"@ == seq!['a', 'l', 'm', 'a', 'l', 'i', 'n', 'u', 'x'],
        "amzn"@ == seq!['a', 'm', 'z', 'n'],
        "opensuse"@ == seq!['o', 'p', 'e', 'n', 's', 'u', 's', 'e'],
        "opensuse-leap"@ == seq!['o', 'p', 'e', 'n', 's', 'u', 's', 'e', '-', 'l', 'e', 'a', 'p'],
        "opensuse-tumbleweed"@ == seq!['o', 'p', 'e', 'n', 's', 'u', 's', 'e', '-', 't', 'u', 'm', 'b', 'l', 'e', 'w', 'e', 'e', 'd'],
        "sles"@ == seq!['s', 'l', 'e', 's'],
        "alpine"@ == seq!['a', 'l', 'p', 'i', 'n', 'e'],
        "void"@ == seq!['v', 'o', 'i', 'd'],
        "gentoo"@ == seq!['g', 'e', 'n', 't', 'o', 'o'],
        "solus"@ == seq!['s', 'o', 'l', 'u', 's'],
{
    reveal_strlit("arch");
    assert("arch"@ =~= seq!['a', 'r', 'c', 'h']);
    reveal_strlit("manjaro");
    assert("manjaro"@ =~= seq!['m', 'a', 'n', 'j', 'a', 'r', 'o']);
    reveal_strlit("endeavouros");
    assert("endeavouros"@ =~= seq!['e', 'n', 'd', 'e', 'a', 'v', 'o', 'u', 'r', 'o', 's']);
    reveal_strlit("debian");
    assert("debian"@ =~= seq!['d', 'e', 'b', 'i', 'a', 'n']);
    reveal_strlit("ubuntu");
    assert("ubuntu"@ =~= seq!['u', 'b', 'u', 'n', 't', 'u']);
    reveal_strlit("linuxmint");
    assert("linuxmint"@ =~= seq!['l', 'i', 'n', 'u', 'x', 'm', 'i', 'n', 't']);
    reveal_strlit("pop");
    assert("pop"@ =~= seq!['p', 'o', 'p']);
    reveal_strlit("elementary");
    assert("elementary"@ =~= seq!['e', 'l', 'e', 'm', 'e', 'n', 't', 'a', 'r', 'y']);
    reveal_strlit("kali");
    assert("kali"@ =~= seq!['k', 'a', 'l', 'i']);
    reveal_strlit("fedora");
    assert("fedora"@ =~= seq!['f', 'e', 'd', 'o', 'r', 'a']);
    reveal_strlit("rhel");
    assert("rhel"@ =~= seq!['r', 'h', 'e', 'l']);
    reveal_strlit("centos");
    assert("centos"@ =~= seq!['c', 'e', 'n', 't', 'o', 's']);
    reveal_strlit("rocky");
    assert("rocky"@ =~= seq!['r', 'o', 'c', 'k', 'y']);
    reveal_strlit("almalinux");
    assert("almalinux"@ =~= seq!['a', 'l', 'm', 'a', 'l', 'i', 'n', 'u', 'x']);
    reveal_strlit("amzn");
    assert("amzn"@ =~= seq!['a', 'm', 'z', 'n']);
    reveal_strlit("opensuse");
    assert("opensuse"@ =~= seq!['o', 'p', 'e', 'n', 's', 'u', 's', 'e']);
    reveal_strlit("opensuse-leap");
    assert("opensuse-leap"@ =~= seq!['o', 'p', 'e', 'n', 's', 'u', 's', 'e', '-', 'l', 'e', 'a', 'p']);
    reveal_strlit("opensuse-tumbleweed");
    assert("opensuse-tumbleweed"@ =~= seq!['o', 'p', 'e', 'n', 's', 'u', 's', 'e', '-', 't', 'u', 'm', 'b', 'l', 'e', 'w', 'e', 'e', 'd']);
    reveal_strlit("sles");
    assert("sles"@ =~= seq!['s', 'l', 'e', 's']);
    reveal_strlit("alpine");
    assert("alpine"@ =~= seq!['a', 'l', 'p', 'i', 'n', 'e']);
    reveal_strlit("void");
    assert("void"@ =~= seq!['v', 'o', 'i', 'd']);
    reveal_strlit("gentoo");
    assert("gentoo"@ =~= seq!['g', 'e', 'n', 't', 'o', 'o']);
    reveal_strlit("solus");
    assert("solus"@ =~= seq!['s', 'o', 'l', 'u', 's']);
}

/// The supported `os-release` IDs and the distribution each one selects:
/// the official IDs, with the openSUSE variants and SLES all selecting
/// openSUSE.
pub proof fn lemma_supported_ids()
    ensures
        spec_distro_from_id(seq!['a', 'r', 'c', 'h']) == Some(Distro::Arch),
        spec_distro_from_id(seq!['m', 'a', 'n', 'j', 'a', 'r', 'o']) == Some(Distro::Manjaro),
        spec_distro_from_id(seq!['e', 'n', 'd', 'e', 'a', 'v', 'o', 'u', 'r', 'o', 's']) == Some(Distro::EndeavourOS),
        spec_distro_from_id(seq!['d', 'e', 'b', 'i', 'a', 'n']) == Some(Distro::Debian),
        spec_distro_from_id(seq!['u', 'b', 'u', 'n', 't', 'u']) == Some(Distro::Ubuntu),
        spec_distro_from_id(seq!['l', 'i', 'n', 'u', 'x', 'm', 'i', 'n', 't']) == Some(Distro::LinuxMint),
        spec_distro_from_id(seq!['p', 'o', 'p']) == Some(Distro::PopOS),
        spec_distro_from_id(seq!['e', 'l', 'e', 'm', 'e', 'n', 't', 'a', 'r', 'y']) == Some(Distro::ElementaryOS),
        spec_distro_from_id(seq!['k', 'a', 'l', 'i']) == Some(Distro::Kali),
        spec_distro_from_id(seq!['f', 'e', 'd', 'o', 'r', 'a']) == Some(Distro::Fedora),
        spec_distro_from_id(seq!['r', 'h', 'e', 'l']) == Some(Distro::Rhel),
        spec_distro_from_id(seq!['c', 'e', 'n', 't', 'o', 's']) == Some(Distro::CentOS),
        spec_distro_from_id(seq!['r', 'o', 'c', 'k', 'y']) == Some(Distro::RockyLinux),
        spec_distro_from_id(seq!['a', 'l', 'm', 'a', 'l', 'i', 'n', 'u', 'x']) == Some(Distro::AlmaLinux),
        spec_distro_from_id(seq!['a', 'm', 'z', 'n']) == Some(Distro::AmazonLinux),
        spec_distro_from_id(seq!['o', 'p', 'e', 'n', 's', 'u', 's', 'e']) == Some(Distro::OpenSUSE),
        spec_distro_from_id(seq!['o', 'p', 'e', 'n', 's', 'u', 's', 'e', '-', 'l', 'e', 'a', 'p']) == Some(Distro::OpenSUSE),
        spec_distro_from_id(seq!['o', 'p', 'e', 'n', 's', 'u', 's', 'e', '-', 't', 'u', 'm', 'b', 'l', 'e', 'w', 'e', 'e', 'd']) == Some(Distro::OpenSUSE),
        spec_distro_from_id(seq!['s', 'l', 'e', 's']) == Some(Distro::OpenSUSE),
        spec_distro_from_id(seq!['a', 'l', 'p', 'i', 'n', 'e']) == Some(Distro::Alpine),
        spec_distro_from_id(seq!['v', 'o', 'i', 'd']) == Some(Distro::Void),
        spec_distro_from_id(seq!['g', 'e', 'n', 't', 'o', 'o']) == Some(Distro::Gentoo),
        spec_distro_from_id(seq!['s', 'o', 'l', 'u', 's']) == Some(Distro::Solus),
{
    lemma_id_chars();
}

/// The same table, written with the IDs as string literals.
pub proof fn lemma_supported_id_literals()
    ensures
        spec_distro_from_id("arch"@) == Some(Distro::Arch),
        spec_distro_from_id("manjaro"@) == Some(Distro::Manjaro),
        spec_distro_from_id("endeavouros"@) == Some(Distro::EndeavourOS),
        spec_distro_from_id("debian"@) == Some(Distro::Debian),
        spec_distro_from_id("ubuntu"@) == Some(Distro::Ubuntu),
        spec_distro_from_id("linuxmint"@) == Some(Distro::LinuxMint),
        spec_distro_from_id("pop"@) == Some(Distro::PopOS),
        spec_distro_from_id("elementary"@) == Some(Distro::ElementaryOS),
        spec_distro_from_id("kali"@) == Some(Distro::Kali),
        spec_distro_from_id("fedora"@) == Some(Distro::Fedora),
        spec_distro_from_id("rhel"@) == Some(Distro::Rhel),
        spec_distro_from_id("centos"@) == Some(Distro::CentOS),
        spec_distro_from_id("rocky"@) == Some(Distro::RockyLinux),
        spec_distro_from_id("almalinux"@) == Some(Distro::AlmaLinux),
        spec_distro_from_id("amzn"@) == Some(Distro::AmazonLinux),
        spec_distro_from_id("opensuse"@) == Some(Distro::OpenSUSE),
        spec_distro_from_id("opensuse-leap"@) == Some(Distro::OpenSUSE),
        spec_distro_from_id("opensuse-tumbleweed"@) == Some(Distro::OpenSUSE),
        spec_distro_from_id("sles"@) == Some(Distro::OpenSUSE),
        spec_distro_from_id("alpine"@) == Some(Distro::Alpine),
        spec_distro_from_id("void"@) == Some(Distro::Void),
        spec_distro_from_id("gentoo"@) == Some(Distro::Gentoo),
        spec_distro_from_id("solus"@) == Some(Distro::Solus),
{
    lemma_id_chars();
}

/// The manifest key of each distribution is its official `os-release` ID.
pub proof fn lemma_manifest_keys()
    ensures
        spec_manifest_key(Distro::Arch) == seq!['a', 'r', 'c', 'h'],
        spec_manifest_key(Distro::Manjaro) == seq!['m', 'a', 'n', 'j', 'a', 'r', 'o'],
        spec_manifest_key(Distro::EndeavourOS) == seq!['e', 'n', 'd', 'e', 'a', 'v', 'o', 'u', 'r', 'o', 's'],
        spec_manifest_key(Distro::Debian) == seq!['d', 'e', 'b', 'i', 'a', 'n'],
        spec_manifest_key(Distro::Ubuntu) == seq!['u', 'b', 'u', 'n', 't', 'u'],
        spec_manifest_key(Distro::LinuxMint) == seq!['l', 'i', 'n', 'u', 'x', 'm', 'i', 'n', 't'],
        spec_manifest_key(Distro::PopOS) == seq!['p', 'o', 'p'],
        spec_manifest_key(Distro::ElementaryOS) == seq!['e', 'l', 'e', 'm', 'e', 'n', 't', 'a', 'r', 'y'],
        spec_manifest_key(Distro::Kali) == seq!['k', 'a', 'l', 'i'],
        spec_manifest_key(Distro::Fedora) == seq!['f', 'e', 'd', 'o', 'r', 'a'],
        spec_manifest_key(Distro::Rhel) == seq!['r', 'h', 'e', 'l'],
        spec_manifest_key(Distro::CentOS) == seq!['c', 'e', 'n', 't', 'o', 's'],
        spec_manifest_key(Distro::RockyLinux) == seq!['r', 'o', 'c', 'k', 'y'],
        spec_manifest_key(Distro::AlmaLinux) == seq!['a', 'l', 'm', 'a', 'l', 'i', 'n', 'u', 'x'],
        spec_manifest_key(Distro::AmazonLinux) == seq!['a', 'm', 'z', 'n'],
        spec_manifest_key(Distro::OpenSUSE) == seq!['o', 'p', 'e', 'n', 's', 'u', 's', 'e'],
        spec_manifest_key(Distro::Alpine) == seq!['a', 'l', 'p', 'i', 'n', 'e'],
        spec_manifest_key(Distro::Void) == seq!['v', 'o', 'i', 'd'],
        spec_manifest_key(Distro::Gentoo) == seq!['g', 'e', 'n', 't', 'o', 'o'],
        spec_manifest_key(Distro::Solus) == seq!['s', 'o', 'l', 'u', 's'],
{
    lemma_id_chars();
}

/// The native package manager of each distribution: pacman for the Arch
/// family, APT for the Debian family, DNF for the Red Hat family, zypper for
/// openSUSE, apk for Alpine, XBPS for Void, Portage for Gentoo and eopkg for
/// Solus.
pub proof fn lemma_package_manager_table()
    ensures
        spec_package_manager(Distro::Arch) == PackageManager::Pacman,
        spec_package_manager(Distro::Manjaro) == PackageManager::Pacman,
        spec_package_manager(Distro::EndeavourOS) == PackageManager::Pacman,
        spec_package_manager(Distro::Debian) == PackageManager::Apt,
        spec_package_manager(Distro::Ubuntu) == PackageManager::Apt,
        spec_package_manager(Distro::LinuxMint) == PackageManager::Apt,
        spec_package_manager(Distro::PopOS) == PackageManager::Apt,
        spec_package_manager(Distro::ElementaryOS) == PackageManager::Apt,
        spec_package_manager(Distro::Kali) == PackageManager::Apt,
        spec_package_manager(Distro::Fedora) == PackageManager::Dnf,
        spec_package_manager(Distro::Rhel) == PackageManager::Dnf,
        spec_package_manager(Distro::CentOS) == PackageManager::Dnf,
        spec_package_manager(Distro::RockyLinux) == PackageManager::Dnf,
        spec_package_manager(Distro::AlmaLinux) == PackageManager::Dnf,
        spec_package_manager(Distro::AmazonLinux) == PackageManager::Dnf,
        spec_package_manager(Distro::OpenSUSE) == PackageManager::Zypper,
        spec_package_manager(Distro::Alpine) == PackageManager::Apk,
        spec_package_manager(Distro::Void) == PackageManager::Xbps,
        spec_package_manager(Distro::Gentoo) == PackageManager::Portage,
        spec_package_manager(Distro::Solus) == PackageManager::Eopkg,
{
}

/// The executable and the install arguments of each package manager.
pub proof fn lemma_install_command_table()
    ensures
        spec_executable(PackageManager::Apt) == seq!['a', 'p', 't', '-', 'g', 'e', 't'],
        spec_install_args(PackageManager::Apt) == seq![seq!['i', 'n', 's', 't', 'a', 'l', 'l']],
        spec_executable(PackageManager::Pacman) == seq!['p', 'a', 'c', 'm', 'a', 'n'],
        spec_install_args(PackageManager::Pacman) == seq![seq!['-', 'S'], seq!['-', '-', 'n', 'e', 'e', 'd', 'e', 'd']],
        spec_executable(PackageManager::Dnf) == seq!['d', 'n', 'f'],
        spec_install_args(PackageManager::Dnf) == seq![seq!['i', 'n', 's', 't', 'a', 'l', 'l']],
        spec_executable(PackageManager::Zypper) == seq!['z', 'y', 'p', 'p', 'e', 'r'],
        spec_install_args(PackageManager::Zypper) == seq![seq!['i', 'n', 's', 't', 'a', 'l', 'l']],
        spec_executable(PackageManager::Apk) == seq!['a', 'p', 'k'],
        spec_install_args(PackageManager::Apk) == seq![seq!['a', 'd', 'd']],
        spec_executable(PackageManager::Xbps) == seq!['x', 'b', 'p', 's', '-', 'i', 'n', 's', 't', 'a', 'l', 'l'],
        spec_install_args(PackageManager::Xbps) == seq![seq!['-', 'S']],
        spec_executable(PackageManager::Portage) == seq!['e', 'm', 'e', 'r', 'g', 'e'],
        spec_install_args(PackageManager::Portage).len() == 0,
        spec_executable(PackageManager::Eopkg) == seq!['e', 'o', 'p', 'k', 'g'],
        spec_install_args(PackageManager::Eopkg) == seq![seq!['i', 'n', 's', 't', 'a', 'l', 'l']],
{
    reveal_strlit("--needed");
    assert("--needed"@ =~= seq!['-', '-', 'n', 'e', 'e', 'd', 'e', 'd']);
    reveal_strlit("-S");
    assert("-S"@ =~= seq!['-', 'S']);
    reveal_strlit("add");
    assert("add"@ =~= seq!['a', 'd', 'd']);
    reveal_strlit("apk");
    assert("apk"@ =~= seq!['a', 'p', 'k']);
    reveal_strlit("apt-get");
    assert("apt-get"@ =~= seq!['a', 'p', 't', '-', 'g', 'e', 't']);
    reveal_strlit("dnf");
    assert("dnf"@ =~= seq!['d', 'n', 'f']);
    reveal_strlit("emerge");
    assert("emerge"@ =~= seq!['e', 'm', 'e', 'r', 'g', 'e']);
    reveal_strlit("eopkg");
    assert("eopkg"@ =~= seq!['e', 'o', 'p', 'k', 'g']);
    reveal_strlit("install");
    assert("install"@ =~= seq!['i', 'n', 's', 't', 'a', 'l', 'l']);
    reveal_strlit("pacman");
    assert("pacman"@ =~= seq!['p', 'a', 'c', 'm', 'a', 'n']);
    reveal_strlit("xbps-install");
    assert("xbps-install"@ =~= seq!['x', 'b', 'p', 's', '-', 'i', 'n', 's', 't', 'a', 'l', 'l']);
    reveal_strlit("zypper");
    assert("zypper"@ =~= seq!['z', 'y', 'p', 'p', 'e', 'r']);
}

/// A line that starts with `key=`, for a key without `=`.
pub open spec fn starts_with_key(line: Seq<char>, key: Seq<char>) -> bool {
    key.len() + 1 <= line.len() && line.take(key.len() as int + 1) == key + seq!['=']
}

/// How the lines decide the value of `key`.
proof fn lemma_lookup_value_first(ls: Seq<Seq<char>>, key: Seq<char>, i: int)
    requires
        forall|j: int| 0 <= j < key.len() ==> key[j] != '=',
        0 <= i <= ls.len(),
        forall|t: int| 0 <= t < i ==> !starts_with_key(#[trigger] ls[t], key),
        i < ls.len() ==> starts_with_key(ls[i], key),
    ensures
        lookup_value(ls, key) == if i < ls.len() {
            Some(strip_quotes(ls[i].skip(key.len() as int + 1)))
        } else {
            None
        },
    decreases ls.len(),
{
    if ls.len() > 0 {
        let line = ls[0];
        lemma_index_of_bound(line, '=');
        let k = index_of(line, '=') as int;
        if i == 0 {
            assert forall|j: int| 0 <= j < key.len() implies line[j] != '=' by {
                assert(line.take(key.len() as int + 1)[j] == line[j]);
                assert((key + seq!['='])[j] == key[j]);
            }
            assert(line.take(key.len() as int + 1)[key.len() as int] == line[key.len() as int]);
            lemma_index_of(line, '=', key.len() as int);
            assert(line.take(k) =~= key) by {
                assert forall|j: int| 0 <= j < k implies line.take(k)[j] == key[j] by {
                    assert(line.take(key.len() as int + 1)[j] == line[j]);
                }
            }
        } else {
            assert(!starts_with_key(ls[0], key));
            if k < line.len() && line.take(k) == key {
                assert(line.take(key.len() as int + 1) =~= key + seq!['=']) by {
                    assert forall|j: int| 0 <= j < key.len() + 1 implies line.take(
                        key.len() as int + 1,
                    )[j] == (key + seq!['='])[j] by {
                        if j < key.len() {
                            assert(line.take(k)[j] == line[j]);
                        }
                    }
                }
                assert(false);
            }
            assert forall|t: int| 0 <= t < i - 1 implies !starts_with_key(
                #[trigger] ls.drop_first()[t],
                key,
            ) by {
                assert(ls.drop_first()[t] == ls[t + 1]);
            }
            if i < ls.len() {
                assert(ls.drop_first()[i - 1] == ls[i]);
            }
            lemma_lookup_value_first(ls.drop_first(), key, i - 1);
        }
    }
}

/// The value of a key without `=` is taken from the first line that starts
/// with `key=`: the rest of that line, without surrounding double quotes.
pub proof fn lemma_find_value_first_line(content: Seq<char>, key: Seq<char>, i: int)
    requires
        forall|j: int| 0 <= j < key.len() ==> key[j] != '=',
        0 <= i < lines(content).len(),
        starts_with_key(lines(content)[i], key),
        forall|t: int| 0 <= t < i ==> !starts_with_key(#[trigger] lines(content)[t], key),
    ensures
        spec_find_value(content, key) == Some(
            strip_quotes(lines(content)[i].skip(key.len() as int + 1)),
        ),
{
    lemma_lookup_value_first(lines(content), key, i);
}

/// A key without `=` that starts no line has no value.
pub proof fn lemma_find_value_absent(content: Seq<char>, key: Seq<char>)
    requires
        forall|j: int| 0 <= j < key.len() ==> key[j] != '=',
        forall|t: int|
            0 <= t < lines(content).len() ==> !starts_with_key(#[trigger] lines(content)[t], key),
    ensures
        spec_find_value(content, key) is None,
{
    lemma_lookup_value_first(lines(content), key, lines(content).len() as int);
}

/// The display name is `OS: <NAME>, <VERSION>, <RELEASE_TYPE>`, a missing
/// field standing as the empty string, and the distribution is read from
/// the `ID` field.
pub proof fn lemma_os_name_format(content: Seq<char>)
    ensures
        spec_os_name(content) == seq!['O', 'S', ':', ' '] + or_empty(
            spec_find_value(content, seq!['N', 'A', 'M', 'E']),
        ) + seq![',', ' '] + or_empty(spec_find_value(content, seq!['V', 'E', 'R', 'S', 'I', 'O', 'N']))
            + seq![',', ' '] + or_empty(spec_find_value(content, seq!['R', 'E', 'L', 'E', 'A', 'S', 'E', '_', 'T', 'Y', 'P', 'E'])),
        spec_find_value(content, "ID"@) == spec_find_value(content, seq!['I', 'D']),
{
    reveal_strlit("OS: ");
    assert("OS: "@ =~= seq!['O', 'S', ':', ' ']);
    reveal_strlit(", ");
    assert(", "@ =~= seq![',', ' ']);
    reveal_strlit("NAME");
    assert("NAME"@ =~= seq!['N', 'A', 'M', 'E']);
    reveal_strlit("VERSION");
    assert("VERSION"@ =~= seq!['V', 'E', 'R', 'S', 'I', 'O', 'N']);
    reveal_strlit("RELEASE_TYPE");
    assert("RELEASE_TYPE"@ =~= seq!['R', 'E', 'L', 'E', 'A', 'S', 'E', '_', 'T', 'Y', 'P', 'E']);
    reveal_strlit("ID");
    assert("ID"@ =~= seq!['I', 'D']);
}

} // verus!
