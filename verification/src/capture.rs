//! Capture of the installed packages, Flatpaks and enabled user services
//! into a new manifest, from the output of the package tools.

use vstd::prelude::*;
use crate::manifest::{is_ordered, DankLinux, Manifest, ManifestModel, PackageProfile};
use crate::paths::opt_view;
use crate::order::{
    char_seqs, insert_sorted, into_strings, lemma_is_sorted_set, same_elements, sorted_set,
    sorted_strict, strs,
};
use crate::os_details::{spec_manifest_key, spec_package_manager, Distro};
use crate::text::{
    is_space, lemma_index_of_space_bound, lemma_trim_start_shape,
    bounds_within, concat, find_space, index_of_space, line_bounds, pieces, range_string,
    skip_trimmed, slice_chars, to_chars, trim, trim_bounds, trim_start_in, trimmed_entries,
};

verus! {

/// The first whitespace-separated word of a line, if it has one.
pub open spec fn first_word(line: Seq<char>) -> Option<Seq<char>> {
    let t = trim_start_in(line, false);
    if t.len() == 0 {
        None
    } else {
        Some(t.take(index_of_space(t) as int))
    }
}

/// The first word of each line that has one, in order.
pub open spec fn first_words(ls: Seq<Seq<char>>) -> Seq<Seq<char>>
    decreases ls.len(),
{
    if ls.len() == 0 {
        seq![]
    } else {
        first_words(ls.drop_last()) + match first_word(ls.last()) {
            Some(w) => seq![w],
            None => seq![],
        }
    }
}

/// The entries of command output: the trimmed, non-empty lines, sorted,
/// each once.
pub open spec fn spec_entries(output: Seq<char>) -> Seq<Seq<char>> {
    sorted_set(trimmed_entries(crate::text::lines(output)))
}

/// Returns the trimmed, non-empty lines of `output`, sorted and without
/// duplicates.
pub fn lines(output: &str) -> (r: Vec<String>)
    ensures
        sorted_strict(strs(r@)),
        same_elements(strs(r@), trimmed_entries(crate::text::lines(output@))),
        strs(r@) == spec_entries(output@),
{
    let cs = to_chars(output);
    let bounds = line_bounds(&cs);
    let ghost ls = crate::text::lines(cs@);
    let mut acc: Vec<Vec<char>> = Vec::new();
    let mut i: usize = 0;
    assert(ls.take(0) =~= Seq::<Seq<char>>::empty());
    while i < bounds.len()
        invariant
            ls == crate::text::lines(cs@),
            bounds_within(bounds@, cs.len() as int),
            pieces(cs@, bounds@) == ls,
            i <= bounds.len(),
            sorted_strict(char_seqs(acc@)),
            same_elements(char_seqs(acc@), trimmed_entries(ls.take(i as int))),
        decreases bounds.len() - i,
    {
        let (a, b) = bounds[i];
        let (x, y) = trim_bounds(&cs, a, b, false);
        let ghost t = trim(ls[i as int]);
        let ghost before = char_seqs(acc@);
        let ghost prev = trimmed_entries(ls.take(i as int));
        assert(ls.take(i + 1).drop_last() =~= ls.take(i as int));
        assert(ls.take(i + 1).last() == ls[i as int]);
        assert(ls[i as int] == cs@.subrange(a as int, b as int));
        assert(cs@.subrange(x as int, y as int) == t);
        if x < y {
            let piece = slice_chars(&cs, x, y);
            insert_sorted(&mut acc, piece);
            assert(trimmed_entries(ls.take(i + 1)) == prev + seq![t]);
            assert forall|z: Seq<char>|
                char_seqs(acc@).contains(z) <==> trimmed_entries(ls.take(i + 1)).contains(z) by {
                if (prev + seq![t]).contains(z) {
                    let k = choose|k: int|
                        0 <= k < (prev + seq![t]).len() && (prev + seq![t])[k] == z;
                    if k < prev.len() {
                        assert(prev[k] == z);
                    }
                }
                if prev.contains(z) {
                    let k = choose|k: int| 0 <= k < prev.len() && prev[k] == z;
                    assert((prev + seq![t])[k] == z);
                }
                if z == t {
                    assert((prev + seq![t])[prev.len() as int] == z);
                }
            }
        } else {
            assert(trimmed_entries(ls.take(i + 1)) =~= prev);
        }
        i += 1;
    }
    assert(ls.take(bounds.len() as int) =~= ls);
    let r = into_strings(&acc);
    proof {
        lemma_is_sorted_set(strs(r@), trimmed_entries(ls));
    }
    r
}

/// Returns the first word of each line of `output` that has one: the unit
/// names in `systemctl list-unit-files --plain --no-legend` output.
pub fn user_services_from(output: &str) -> (r: Vec<String>)
    ensures
        strs(r@) == first_words(crate::text::lines(output@)),
{
    let cs = to_chars(output);
    let bounds = line_bounds(&cs);
    let ghost ls = crate::text::lines(cs@);
    let mut r: Vec<String> = Vec::new();
    let mut i: usize = 0;
    assert(ls.take(0) =~= Seq::<Seq<char>>::empty());
    while i < bounds.len()
        invariant
            ls == crate::text::lines(cs@),
            bounds_within(bounds@, cs.len() as int),
            pieces(cs@, bounds@) == ls,
            i <= bounds.len(),
            strs(r@) == first_words(ls.take(i as int)),
        decreases bounds.len() - i,
    {
        let (a, b) = bounds[i];
        let ghost line = ls[i as int];
        let ghost before = r@;
        assert(ls.take(i + 1).drop_last() =~= ls.take(i as int));
        assert(ls.take(i + 1).last() == line);
        assert(line == cs@.subrange(a as int, b as int));
        let x = skip_trimmed(&cs, a, b, false);
        if x < b {
            let e = find_space(&cs, x, b);
            let w = range_string(&cs, x, e);
            assert(cs@.subrange(x as int, b as int).take(e - x) =~= cs@.subrange(
                x as int,
                e as int,
            ));
            r.push(w);
            assert(strs(r@) =~= strs(before).push(w@));
        } else {
            assert(first_word(line) is None);
        }
        assert(strs(r@) =~= first_words(ls.take(i + 1)));
        i += 1;
    }
    assert(ls.take(bounds.len() as int) =~= ls);
    r
}

/// The command that lists the explicitly installed packages on each
/// distribution.
pub open spec fn spec_package_query(d: Distro) -> (Seq<char>, Seq<Seq<char>>) {
    match d {
        Distro::Arch | Distro::Manjaro | Distro::EndeavourOS => ("pacman"@, seq!["-Qqe"@]),
        Distro::Debian | Distro::Ubuntu | Distro::LinuxMint | Distro::PopOS
        | Distro::ElementaryOS | Distro::Kali => ("apt-mark"@, seq!["showmanual"@]),
        Distro::Fedora | Distro::Rhel | Distro::CentOS | Distro::RockyLinux
        | Distro::AlmaLinux | Distro::AmazonLinux => (
            "dnf"@,
            seq!["repoquery"@, "--userinstalled"@, "--qf"@, "%{name}\\n"@],
        ),
        Distro::OpenSUSE => (
            "zypper"@,
            seq!["search"@, "--installed-only"@, "--type"@, "package"@],
        ),
        Distro::Alpine => ("apk"@, seq!["info"@]),
        Distro::Void => ("xbps-query"@, seq!["-m"@]),
        Distro::Gentoo => ("qlist"@, seq!["-I"@]),
        Distro::Solus => ("eopkg"@, seq!["list-installed"@]),
    }
}

/// Returns the program and arguments that list the explicitly installed
/// packages on `distro`.
pub fn package_query(distro: Distro) -> (r: (&'static str, &'static [&'static str]))
    ensures
        r.0@ == spec_package_query(distro).0,
        crate::os_details::str_views(r.1@) == spec_package_query(distro).1,
{
    let r: (&'static str, &'static [&'static str]) = match distro {
        Distro::Arch | Distro::Manjaro | Distro::EndeavourOS => ("pacman", &["-Qqe"]),
        Distro::Debian | Distro::Ubuntu | Distro::LinuxMint | Distro::PopOS
        | Distro::ElementaryOS | Distro::Kali => ("apt-mark", &["showmanual"]),
        Distro::Fedora | Distro::Rhel | Distro::CentOS | Distro::RockyLinux
        | Distro::AlmaLinux | Distro::AmazonLinux => (
            "dnf",
            &["repoquery", "--userinstalled", "--qf", "%{name}\\n"],
        ),
        Distro::OpenSUSE => ("zypper", &["search", "--installed-only", "--type", "package"]),
        Distro::Alpine => ("apk", &["info"]),
        Distro::Void => ("xbps-query", &["-m"]),
        Distro::Gentoo => ("qlist", &["-I"]),
        Distro::Solus => ("eopkg", &["list-installed"]),
    };
    assert(crate::os_details::str_views(r.1@) =~= spec_package_query(distro).1);
    r
}

/// How a command that was asked to run ended.
#[derive(Debug, PartialEq, Eq)]
pub enum CommandOutcome {
    /// The command ran and exited; `status` is its exit status as text, and
    /// `stdout` its output decoded as UTF-8, or the decoding error as text.
    Exited { success: bool, status: String, stdout: Result<String, String> },
    /// The program does not exist.
    NotFound,
    /// The command could not be started; the text says why.
    Failed(String),
}

/// Returns the output of a command, the empty output where the program does
/// not exist.
///
/// # Errors
///
/// `Invalid UTF-8 from <program>: <error>` when the output of a successful
/// command is not UTF-8, `<program> exited with <status>` when the command
/// failed, and `Could not run <program>: <error>` when it could not start.
pub fn command_output(program: &str, outcome: CommandOutcome) -> (r: Result<String, String>)
    ensures
        match outcome {
            CommandOutcome::Exited { success, status, stdout } => if success {
                match stdout {
                    Ok(text) => r is Ok && r->Ok_0@ == text@,
                    Err(e) => r is Err && r->Err_0@ == "Invalid UTF-8 from "@ + program@ + ": "@
                        + e@,
                }
            } else {
                r is Err && r->Err_0@ == program@ + " exited with "@ + status@
            },
            CommandOutcome::NotFound => r is Ok && r->Ok_0@.len() == 0,
            CommandOutcome::Failed(e) => r is Err && r->Err_0@ == "Could not run "@ + program@
                + ": "@ + e@,
        },
{
    match outcome {
        CommandOutcome::Exited { success, status, stdout } => {
            if success {
                match stdout {
                    Ok(text) => Ok(text),
                    Err(e) => {
                        let mut m = concat("Invalid UTF-8 from ", program);
                        m.append(": ");
                        m.append(e.as_str());
                        Err(m)
                    },
                }
            } else {
                let mut m = concat(program, " exited with ");
                m.append(status.as_str());
                Err(m)
            }
        },
        CommandOutcome::NotFound => Ok(String::new()),
        CommandOutcome::Failed(e) => {
            let mut m = concat("Could not run ", program);
            m.append(": ");
            m.append(e.as_str());
            Err(m)
        },
    }
}

/// The user services that a listing output names, none where the listing
/// failed.
pub open spec fn captured_services(service_output: Option<Seq<char>>) -> Seq<Seq<char>> {
    match service_output {
        Some(o) => first_words(crate::text::lines(o)),
        None => seq![],
    }
}

/// `m` records the system that the outputs describe, captured on `d`.
pub open spec fn is_capture(
    m: ManifestModel,
    d: Distro,
    package_output: Seq<char>,
    flatpak_output: Seq<char>,
    service_output: Option<Seq<char>>,
) -> bool {
    &&& m.selected_profiles == seq!["captured"@]
    &&& m.profiles.len() == 1
    &&& m.profiles[0].0 == "captured"@
    &&& m.profiles[0].1.common.len() == 0
    &&& m.profiles[0].1.packages == seq![(spec_manifest_key(d), spec_entries(package_output))]
    &&& !m.danklinux_enabled
    &&& m.installer_url == "https://install.danklinux.com"@
    &&& m.flatpaks == spec_entries(flatpak_output)
    &&& m.system_services.len() == 0
    &&& m.user_services == captured_services(service_output)
    &&& m.dotfiles.len() == 0
}

/// Builds the manifest that records a captured system: the `captured`
/// profile, selected, with the distribution's packages; the Flatpaks; and
/// the enabled user services where their listing succeeded.
///
/// `package_output` and `flatpak_output` are the outputs of the package
/// query and of `flatpak list --app --columns=application`;
/// `service_output` is that of the user-service listing, or `None` where it
/// failed.
pub fn capture(
    distro: Distro,
    package_output: &str,
    flatpak_output: &str,
    service_output: Option<&str>,
) -> (m: Manifest)
    ensures
        m@.selected_profiles == seq!["captured"@],
        m@.profiles.len() == 1,
        m@.profiles[0].0 == "captured"@,
        m@.profiles[0].1.common.len() == 0,
        m@.profiles[0].1.packages == seq![
            (spec_manifest_key(distro), spec_entries(package_output@)),
        ],
        !m@.danklinux_enabled,
        m@.installer_url == "https://install.danklinux.com"@,
        m@.flatpaks == spec_entries(flatpak_output@),
        m@.system_services.len() == 0,
        m@.user_services == match service_output {
            Some(o) => first_words(crate::text::lines(o@)),
            None => seq![],
        },
        m@.dotfiles.len() == 0,
        is_capture(m@, distro, package_output@, flatpak_output@, opt_view(service_output)),
        is_ordered(m@),
{
    let packages = lines(package_output);
    let flatpaks = lines(flatpak_output);
    let user_services = match service_output {
        Some(o) => user_services_from(o),
        None => Vec::new(),
    };
    let key = distro.manifest_key().to_owned();
    let profile = PackageProfile { common: Vec::new(), packages: vec![(key, packages)] };
    let m = Manifest {
        selected_profiles: vec!["captured".to_owned()],
        profiles: vec![("captured".to_owned(), profile)],
        danklinux: DankLinux::default(),
        flatpaks,
        system_services: Vec::new(),
        user_services,
        dotfiles: Vec::new(),
    };
    assert(m@.selected_profiles =~= seq!["captured"@]);
    assert(m@.profiles[0].1.packages =~= seq![
        (spec_manifest_key(distro), spec_entries(package_output@)),
    ]);
    assert(m@.profiles[0].1.common =~= Seq::<Seq<char>>::empty());
    assert(m@.user_services =~= match service_output {
        Some(o) => first_words(crate::text::lines(o@)),
        None => seq![],
    });
    m
}

/// Distributions that share a package manager list their packages with the
/// same query.
pub proof fn lemma_package_query_follows_manager(d1: Distro, d2: Distro)
    requires
        spec_package_manager(d1) == spec_package_manager(d2),
    ensures
        spec_package_query(d1) == spec_package_query(d2),
{
}

/// The package query of each distribution. Each lists the packages the user
/// installed explicitly: `pacman -Qqe`, `apt-mark showmanual`, `dnf
/// repoquery --userinstalled`, and the installed-package listings of
/// zypper, apk, XBPS, Portage and eopkg.
pub proof fn lemma_package_query_table()
    ensures
        spec_package_query(Distro::Arch) == (seq!['p', 'a', 'c', 'm', 'a', 'n'], seq![seq!['-', 'Q', 'q', 'e']]),
        spec_package_query(Distro::Manjaro) == (seq!['p', 'a', 'c', 'm', 'a', 'n'], seq![seq!['-', 'Q', 'q', 'e']]),
        spec_package_query(Distro::EndeavourOS) == (seq!['p', 'a', 'c', 'm', 'a', 'n'], seq![seq!['-', 'Q', 'q', 'e']]),
        spec_package_query(Distro::Debian) == (seq!['a', 'p', 't', '-', 'm', 'a', 'r', 'k'], seq![seq!['s', 'h', 'o', 'w', 'm', 'a', 'n', 'u', 'a', 'l']]),
        spec_package_query(Distro::Ubuntu) == (seq!['a', 'p', 't', '-', 'm', 'a', 'r', 'k'], seq![seq!['s', 'h', 'o', 'w', 'm', 'a', 'n', 'u', 'a', 'l']]),
        spec_package_query(Distro::LinuxMint) == (seq!['a', 'p', 't', '-', 'm', 'a', 'r', 'k'], seq![seq!['s', 'h', 'o', 'w', 'm', 'a', 'n', 'u', 'a', 'l']]),
        spec_package_query(Distro::PopOS) == (seq!['a', 'p', 't', '-', 'm', 'a', 'r', 'k'], seq![seq!['s', 'h', 'o', 'w', 'm', 'a', 'n', 'u', 'a', 'l']]),
        spec_package_query(Distro::ElementaryOS) == (seq!['a', 'p', 't', '-', 'm', 'a', 'r', 'k'], seq![seq!['s', 'h', 'o', 'w', 'm', 'a', 'n', 'u', 'a', 'l']]),
        spec_package_query(Distro::Kali) == (seq!['a', 'p', 't', '-', 'm', 'a', 'r', 'k'], seq![seq!['s', 'h', 'o', 'w', 'm', 'a', 'n', 'u', 'a', 'l']]),
        spec_package_query(Distro::Fedora) == (seq!['d', 'n', 'f'], seq![seq!['r', 'e', 'p', 'o', 'q', 'u', 'e', 'r', 'y'], seq!['-', '-', 'u', 's', 'e', 'r', 'i', 'n', 's', 't', 'a', 'l', 'l', 'e', 'd'], seq!['-', '-', 'q', 'f'], seq!['%', '{', 'n', 'a', 'm', 'e', '}', '\\', 'n']]),
        spec_package_query(Distro::Rhel) == (seq!['d', 'n', 'f'], seq![seq!['r', 'e', 'p', 'o', 'q', 'u', 'e', 'r', 'y'], seq!['-', '-', 'u', 's', 'e', 'r', 'i', 'n', 's', 't', 'a', 'l', 'l', 'e', 'd'], seq!['-', '-', 'q', 'f'], seq!['%', '{', 'n', 'a', 'm', 'e', '}', '\\', 'n']]),
        spec_package_query(Distro::CentOS) == (seq!['d', 'n', 'f'], seq![seq!['r', 'e', 'p', 'o', 'q', 'u', 'e', 'r', 'y'], seq!['-', '-', 'u', 's', 'e', 'r', 'i', 'n', 's', 't', 'a', 'l', 'l', 'e', 'd'], seq!['-', '-', 'q', 'f'], seq!['%', '{', 'n', 'a', 'm', 'e', '}', '\\', 'n']]),
        spec_package_query(Distro::RockyLinux) == (seq!['d', 'n', 'f'], seq![seq!['r', 'e', 'p', 'o', 'q', 'u', 'e', 'r', 'y'], seq!['-', '-', 'u', 's', 'e', 'r', 'i', 'n', 's', 't', 'a', 'l', 'l', 'e', 'd'], seq!['-', '-', 'q', 'f'], seq!['%', '{', 'n', 'a', 'm', 'e', '}', '\\', 'n']]),
        spec_package_query(Distro::AlmaLinux) == (seq!['d', 'n', 'f'], seq![seq!['r', 'e', 'p', 'o', 'q', 'u', 'e', 'r', 'y'], seq!['-', '-', 'u', 's', 'e', 'r', 'i', 'n', 's', 't', 'a', 'l', 'l', 'e', 'd'], seq!['-', '-', 'q', 'f'], seq!['%', '{', 'n', 'a', 'm', 'e', '}', '\\', 'n']]),
        spec_package_query(Distro::AmazonLinux) == (seq!['d', 'n', 'f'], seq![seq!['r', 'e', 'p', 'o', 'q', 'u', 'e', 'r', 'y'], seq!['-', '-', 'u', 's', 'e', 'r', 'i', 'n', 's', 't', 'a', 'l', 'l', 'e', 'd'], seq!['-', '-', 'q', 'f'], seq!['%', '{', 'n', 'a', 'm', 'e', '}', '\\', 'n']]),
        spec_package_query(Distro::OpenSUSE) == (seq!['z', 'y', 'p', 'p', 'e', 'r'], seq![seq!['s', 'e', 'a', 'r', 'c', 'h'], seq!['-', '-', 'i', 'n', 's', 't', 'a', 'l', 'l', 'e', 'd', '-', 'o', 'n', 'l', 'y'], seq!['-', '-', 't', 'y', 'p', 'e'], seq!['p', 'a', 'c', 'k', 'a', 'g', 'e']]),
        spec_package_query(Distro::Alpine) == (seq!['a', 'p', 'k'], seq![seq!['i', 'n', 'f', 'o']]),
        spec_package_query(Distro::Void) == (seq!['x', 'b', 'p', 's', '-', 'q', 'u', 'e', 'r', 'y'], seq![seq!['-', 'm']]),
        spec_package_query(Distro::Gentoo) == (seq!['q', 'l', 'i', 's', 't'], seq![seq!['-', 'I']]),
        spec_package_query(Distro::Solus) == (seq!['e', 'o', 'p', 'k', 'g'], seq![seq!['l', 'i', 's', 't', '-', 'i', 'n', 's', 't', 'a', 'l', 'l', 'e', 'd']]),
{
    reveal_strlit("%{name}\\n");
    assert("%{name}\\n"@ =~= seq!['%', '{', 'n', 'a', 'm', 'e', '}', '\\', 'n']);
    reveal_strlit("--installed-only");
    assert("--installed-only"@ =~= seq!['-', '-', 'i', 'n', 's', 't', 'a', 'l', 'l', 'e', 'd', '-', 'o', 'n', 'l', 'y']);
    reveal_strlit("--qf");
    assert("--qf"@ =~= seq!['-', '-', 'q', 'f']);
    reveal_strlit("--type");
    assert("--type"@ =~= seq!['-', '-', 't', 'y', 'p', 'e']);
    reveal_strlit("--userinstalled");
    assert("--userinstalled"@ =~= seq!['-', '-', 'u', 's', 'e', 'r', 'i', 'n', 's', 't', 'a', 'l', 'l', 'e', 'd']);
    reveal_strlit("-I");
    assert("-I"@ =~= seq!['-', 'I']);
    reveal_strlit("-Qqe");
    assert("-Qqe"@ =~= seq!['-', 'Q', 'q', 'e']);
    reveal_strlit("-m");
    assert("-m"@ =~= seq!['-', 'm']);
    reveal_strlit("apk");
    assert("apk"@ =~= seq!['a', 'p', 'k']);
    reveal_strlit("apt-mark");
    assert("apt-mark"@ =~= seq!['a', 'p', 't', '-', 'm', 'a', 'r', 'k']);
    reveal_strlit("dnf");
    assert("dnf"@ =~= seq!['d', 'n', 'f']);
    reveal_strlit("eopkg");
    assert("eopkg"@ =~= seq!['e', 'o', 'p', 'k', 'g']);
    reveal_strlit("info");
    assert("info"@ =~= seq!['i', 'n', 'f', 'o']);
    reveal_strlit("list-installed");
    assert("list-installed"@ =~= seq!['l', 'i', 's', 't', '-', 'i', 'n', 's', 't', 'a', 'l', 'l', 'e', 'd']);
    reveal_strlit("package");
    assert("package"@ =~= seq!['p', 'a', 'c', 'k', 'a', 'g', 'e']);
    reveal_strlit("pacman");
    assert("pacman"@ =~= seq!['p', 'a', 'c', 'm', 'a', 'n']);
    reveal_strlit("qlist");
    assert("qlist"@ =~= seq!['q', 'l', 'i', 's', 't']);
    reveal_strlit("repoquery");
    assert("repoquery"@ =~= seq!['r', 'e', 'p', 'o', 'q', 'u', 'e', 'r', 'y']);
    reveal_strlit("search");
    assert("search"@ =~= seq!['s', 'e', 'a', 'r', 'c', 'h']);
    reveal_strlit("showmanual");
    assert("showmanual"@ =~= seq!['s', 'h', 'o', 'w', 'm', 'a', 'n', 'u', 'a', 'l']);
    reveal_strlit("xbps-query");
    assert("xbps-query"@ =~= seq!['x', 'b', 'p', 's', '-', 'q', 'u', 'e', 'r', 'y']);
    reveal_strlit("zypper");
    assert("zypper"@ =~= seq!['z', 'y', 'p', 'p', 'e', 'r']);
}

/// The first word of a line is its first run of non-whitespace characters:
/// it is not empty, holds no whitespace, only whitespace comes before it in
/// the line, and whitespace or the end of the line follows it. A line has
/// no first word exactly when it is all whitespace.
pub proof fn lemma_first_word_shape(line: Seq<char>)
    ensures
        first_word(line) is None <==> forall|i: int| 0 <= i < line.len() ==> is_space(
            #[trigger] line[i],
        ),
        first_word(line) is Some ==> {
            let w = first_word(line)->Some_0;
            &&& w.len() > 0
            &&& forall|i: int| 0 <= i < w.len() ==> !is_space(#[trigger] w[i])
            &&& exists|a: int|
                0 <= a && a + w.len() <= line.len() && #[trigger] line.subrange(a, a + w.len())
                    == w && (forall|i: int| 0 <= i < a ==> is_space(#[trigger] line[i])) && (a
                    + w.len() == line.len() || is_space(line[a + w.len()]))
        },
{
    let a = lemma_trim_start_shape(line, false);
    let t = line.skip(a);
    lemma_index_of_space_bound(t);
    if t.len() > 0 {
        let n = index_of_space(t) as int;
        let w = t.take(n);
        assert(!is_space(t[0]));
        assert(n > 0);
        assert forall|i: int| 0 <= i < w.len() implies !is_space(#[trigger] w[i]) by {
            assert(w[i] == t[i]);
        }
        assert(line.subrange(a, a + n) =~= w);
        if a + n < line.len() {
            assert(line[a + n] == t[n]);
        }
        assert(!is_space(line[a]));
    } else {
        assert forall|i: int| 0 <= i < line.len() implies is_space(#[trigger] line[i]) by {}
    }
}

} // verus!
