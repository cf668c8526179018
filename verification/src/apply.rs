//! Manifest planning: the operations that applying a manifest performs, in
//! order, and the failure that stops it.
//!
//! Applying a manifest installs the packages of the selected profiles,
//! bootstraps DankLinux, installs Flatpaks, enables services and copies
//! dotfiles. [`apply`] decides all of it; whoever runs the plan performs the
//! operations in order, stops at the first one that fails, and otherwise
//! reports the plan's failure, if it has one, once all its operations ran.

use vstd::prelude::*;
use crate::manifest::{
    lemma_lookup_first, lookup, profile_models, spec_packages_for, DotfileModel,
    Manifest, ManifestModel, PackageProfile, ProfileModel,
};
use crate::order::{
    char_seqs, insert_sorted, into_strings, lemma_is_sorted_set, lemma_same_elements_empty,
    lemma_sorted_set, lemma_sorted_set_of_sorted,
    lemma_same_elements_push, same_elements, sorted_set, sorted_strict, strs,
};
use crate::os_details::{
    spec_executable, spec_install_args, spec_package_manager, str_views, Distro, PackageManager,
};
use crate::capture::{captured_services, is_capture, spec_entries};
use crate::paths::{expand_home, join_path, opt_view, path_join, spec_expand_home};
use crate::shell::{shell_quote, spec_shell_quote};
use crate::text::{concat, starts_with, str_eq, to_chars};

verus! {

/// One step of applying a manifest.
#[derive(Debug, Clone, PartialEq, Eq)]
pub enum Operation {
    /// Run `program` with `args`.
    Run { program: String, args: Vec<String> },
    /// Copy the file or directory `source` to `target`; with `template`,
    /// `{{HOME}}` in file contents is replaced by the home directory.
    Copy { source: String, target: String, template: bool },
}

/// The model of an [`Operation`].
pub enum OperationModel {
    Run(Seq<char>, Seq<Seq<char>>),
    Copy(Seq<char>, Seq<char>, bool),
}

impl View for Operation {
    type V = OperationModel;

    open spec fn view(&self) -> OperationModel {
        match self {
            Operation::Run { program, args } => OperationModel::Run(program@, strs(args@)),
            Operation::Copy { source, target, template } => OperationModel::Copy(
                source@,
                target@,
                *template,
            ),
        }
    }
}

/// The models of a list of operations.
pub open spec fn operation_models(ops: Seq<Operation>) -> Seq<OperationModel> {
    Seq::new(ops.len(), |i: int| ops[i]@)
}

/// What applying a manifest does: the operations, in order, and the error
/// that ends it after them, if any.
#[derive(Debug, Clone, PartialEq, Eq)]
pub struct ApplyPlan {
    /// The operations to perform, in order.
    pub operations: Vec<Operation>,
    /// The error that applying the manifest ends with after the operations.
    pub failure: Option<String>,
}

/// The characters of an optional string.
pub open spec fn opt_string_view(o: Option<String>) -> Option<Seq<char>> {
    match o {
        Some(s) => Some(s@),
        None => None,
    }
}

impl View for ApplyPlan {
    type V = (Seq<OperationModel>, Option<Seq<char>>);

    open spec fn view(&self) -> (Seq<OperationModel>, Option<Seq<char>>) {
        (operation_models(self.operations@), opt_string_view(self.failure))
    }
}

/// The packages of the named profiles, in order, or the first name that
/// names no profile.
pub open spec fn resolve(
    profiles: Seq<(Seq<char>, ProfileModel)>,
    names: Seq<Seq<char>>,
    d: Distro,
) -> Result<Seq<Seq<char>>, Seq<char>>
    decreases names.len(),
{
    if names.len() == 0 {
        Ok(seq![])
    } else {
        match resolve(profiles, names.drop_last(), d) {
            Err(n) => Err(n),
            Ok(pkgs) => match lookup(profiles, names.last()) {
                None => Err(names.last()),
                Some(p) => Ok(pkgs + spec_packages_for(p, d)),
            },
        }
    }
}

/// Once a prefix of the names holds an unknown profile, so do all longer
/// lists: the first unknown name is the one reported.
pub proof fn lemma_resolve_stops(
    profiles: Seq<(Seq<char>, ProfileModel)>,
    names: Seq<Seq<char>>,
    k: int,
    d: Distro,
)
    requires
        0 <= k <= names.len(),
        resolve(profiles, names.take(k), d) is Err,
    ensures
        resolve(profiles, names, d) == resolve(profiles, names.take(k), d),
    decreases names.len() - k,
{
    if k == names.len() {
        assert(names.take(k) =~= names);
    } else {
        assert(names.drop_last().take(k) =~= names.take(k));
        lemma_resolve_stops(profiles, names.drop_last(), k, d);
    }
}

/// The package-manager arguments that install `packages`.
pub open spec fn spec_install_invocation(m: PackageManager, packages: Seq<Seq<char>>) -> Seq<
    Seq<char>,
> {
    seq![spec_executable(m)] + spec_install_args(m) + packages
}

/// The installation of the packages, each once and in order, where there
/// are any.
pub open spec fn install_operations(d: Distro, pkgs: Seq<Seq<char>>) -> Seq<OperationModel> {
    if pkgs.len() == 0 {
        seq![]
    } else {
        seq![
            OperationModel::Run(
                "sudo"@,
                spec_install_invocation(spec_package_manager(d), sorted_set(pkgs)),
            ),
        ]
    }
}

/// The URL starts with `https://`.
pub open spec fn is_https(url: Seq<char>) -> bool {
    "https://"@.len() <= url.len() && url.take("https://"@.len() as int) == "https://"@
}

/// The DankLinux bootstrap, where it is enabled.
pub open spec fn dank_operations(m: ManifestModel) -> Seq<OperationModel> {
    if m.danklinux_enabled {
        seq![
            OperationModel::Run(
                "sh"@,
                seq!["-c"@, "curl -fsSL "@ + spec_shell_quote(m.installer_url) + " | sh"@],
            ),
        ]
    } else {
        seq![]
    }
}

/// The Flatpak installation, where there are Flatpaks.
pub open spec fn flatpak_operations(flatpaks: Seq<Seq<char>>) -> Seq<OperationModel> {
    if flatpaks.len() == 0 {
        seq![]
    } else {
        seq![OperationModel::Run("flatpak"@, seq!["install"@, "-y"@, "flathub"@] + flatpaks)]
    }
}

/// Enabling and starting each system service, in order.
pub open spec fn system_service_operations(services: Seq<Seq<char>>) -> Seq<OperationModel> {
    Seq::new(
        services.len(),
        |i: int| OperationModel::Run("sudo"@, seq!["systemctl"@, "enable"@, "--now"@, services[i]]),
    )
}

/// Enabling and starting each user service, in order.
pub open spec fn user_service_operations(services: Seq<Seq<char>>) -> Seq<OperationModel> {
    Seq::new(
        services.len(),
        |i: int|
            OperationModel::Run("systemctl"@, seq!["--user"@, "enable"@, "--now"@, services[i]]),
    )
}

/// Copying each dotfile, its source resolved against `base` and its target
/// against the home directory, up to the first target that cannot be
/// resolved, whose error ends the list.
pub open spec fn dotfile_operations(
    ds: Seq<DotfileModel>,
    base: Seq<char>,
    home: Option<Seq<char>>,
) -> (Seq<OperationModel>, Option<Seq<char>>)
    decreases ds.len(),
{
    if ds.len() == 0 {
        (seq![], None)
    } else {
        match spec_expand_home(ds[0].target, home) {
            Err(e) => (seq![], Some(e)),
            Ok(t) => {
                let rest = dotfile_operations(ds.drop_first(), base, home);
                (
                    seq![OperationModel::Copy(path_join(base, ds[0].source), t, ds[0].template)]
                        + rest.0,
                    rest.1,
                )
            },
        }
    }
}

/// What applying manifest `m` does, for `distro`, with the manifest's
/// directory `base` and the home directory `home`: the packages of the
/// selected profiles (those named in `profiles`, or the manifest's
/// `selected_profiles` where `profiles` is empty), then DankLinux, Flatpaks,
/// system and user services, and dotfiles. An unknown profile stops it
/// before anything runs; an installer URL that is not HTTPS stops it after
/// the packages; a dotfile target that cannot be resolved stops it there.
pub open spec fn spec_apply(
    m: ManifestModel,
    base: Seq<char>,
    distro: Distro,
    profiles: Seq<Seq<char>>,
    home: Option<Seq<char>>,
) -> (Seq<OperationModel>, Option<Seq<char>>) {
    let selected = if profiles.len() == 0 {
        m.selected_profiles
    } else {
        profiles
    };
    match resolve(m.profiles, selected, distro) {
        Err(name) => (seq![], Some("Unknown package profile: "@ + name)),
        Ok(pkgs) => {
            let install = install_operations(distro, pkgs);
            if m.danklinux_enabled && !is_https(m.installer_url) {
                (install, Some("DankLinux installer_url must use HTTPS"@))
            } else {
                let before = install + dank_operations(m) + flatpak_operations(m.flatpaks)
                    + system_service_operations(m.system_services) + user_service_operations(
                    m.user_services,
                );
                let dots = dotfile_operations(m.dotfiles, base, home);
                (before + dots.0, dots.1)
            }
        },
    }
}

/// Returns the index of the first profile named `name`.
pub fn find_profile(profiles: &Vec<(String, PackageProfile)>, name: &str) -> (r: Option<usize>)
    ensures
        match lookup(profile_models(profiles@), name@) {
            None => r is None,
            Some(p) => r is Some && r.unwrap() < profiles.len() && profiles@[r.unwrap() as int].1@
                == p,
        },
        r is Some ==> profiles@[r.unwrap() as int].0@ == name@,
        r is Some ==> forall|k: int|
            0 <= k < r.unwrap() ==> (#[trigger] profiles@[k]).0@ != name@,
{
    let ghost entries = profile_models(profiles@);
    let mut i: usize = 0;
    while i < profiles.len()
        invariant
            i <= profiles.len(),
            entries == profile_models(profiles@),
            forall|k: int| 0 <= k < i ==> entries[k].0 != name@,
            forall|k: int| 0 <= k < i ==> (#[trigger] profiles@[k]).0@ != name@,
        decreases profiles.len() - i,
    {
        if str_eq(profiles[i].0.as_str(), name) {
            proof {
                lemma_lookup_first(entries, name@, i as int);
                assert(entries.skip(i as int)[0] == entries[i as int]);
            }
            return Some(i);
        }
        i += 1;
    }
    proof {
        lemma_lookup_first(entries, name@, i as int);
        assert(entries.skip(i as int).len() == 0);
    }
    None
}

/// Returns the packages of the named profiles for `distro`, sorted and each
/// once.
///
/// # Errors
///
/// `Unknown package profile: <name>` for the first name that names no
/// profile of the manifest.
pub fn resolve_packages(manifest: &Manifest, names: &[String], distro: Distro) -> (r: Result<
    Vec<String>,
    String,
>)
    ensures
        match resolve(manifest@.profiles, strs(names@), distro) {
            Err(n) => r is Err && r->Err_0@ == "Unknown package profile: "@ + n,
            Ok(p) => r is Ok && strs(r->Ok_0@) == sorted_set(p) && sorted_strict(strs(r->Ok_0@))
                && same_elements(strs(r->Ok_0@), p),
        },
{
    let ghost profiles = manifest@.profiles;
    let ghost ns = strs(names@);
    let mut acc: Vec<Vec<char>> = Vec::new();
    let ghost mut collected: Seq<Seq<char>> = seq![];
    let mut i: usize = 0;
    assert(ns.take(0) =~= Seq::<Seq<char>>::empty());
    while i < names.len()
        invariant
            profiles == manifest@.profiles,
            ns == strs(names@),
            i <= names.len(),
            resolve(profiles, ns.take(i as int), distro) == Ok::<Seq<Seq<char>>, Seq<char>>(
                collected,
            ),
            sorted_strict(char_seqs(acc@)),
            same_elements(char_seqs(acc@), collected),
        decreases names.len() - i,
    {
        assert(ns.take(i + 1).drop_last() =~= ns.take(i as int));
        assert(ns.take(i + 1).last() == names@[i as int]@);
        match find_profile(&manifest.profiles, names[i].as_str()) {
            None => {
                proof {
                    lemma_resolve_stops(profiles, ns, i + 1, distro);
                }
                return Err(concat("Unknown package profile: ", names[i].as_str()));
            },
            Some(k) => {
                let pk = manifest.profiles[k].1.packages_for(distro);
                let ghost start = collected;
                let mut j: usize = 0;
                assert(start + strs(pk@).take(0) =~= start);
                while j < pk.len()
                    invariant
                        j <= pk.len(),
                        sorted_strict(char_seqs(acc@)),
                        same_elements(char_seqs(acc@), start + strs(pk@).take(j as int)),
                    decreases pk.len() - j,
                {
                    let ghost before = char_seqs(acc@);
                    insert_sorted(&mut acc, to_chars(pk[j].as_str()));
                    proof {
                        lemma_same_elements_push(
                            before,
                            char_seqs(acc@),
                            start + strs(pk@).take(j as int),
                            pk@[j as int]@,
                        );
                        assert((start + strs(pk@).take(j as int)).push(pk@[j as int]@) =~= start
                            + strs(pk@).take(j + 1));
                    }
                    j += 1;
                }
                proof {
                    assert(strs(pk@).take(pk.len() as int) =~= strs(pk@));
                    collected = start + strs(pk@);
                }
            },
        }
        i += 1;
    }
    assert(ns.take(names.len() as int) =~= ns);
    let r = into_strings(&acc);
    proof {
        lemma_is_sorted_set(strs(r@), collected);
    }
    Ok(r)
}

/// Returns the arguments that make `manager` install `packages`: its
/// executable, its install arguments, then the packages.
pub fn install_invocation(manager: PackageManager, packages: &[String]) -> (r: Vec<String>)
    ensures
        strs(r@) == spec_install_invocation(manager, strs(packages@)),
{
    let mut r: Vec<String> = Vec::new();
    r.push(manager.executable().to_owned());
    let extra = manager.install_args();
    let ghost want = spec_install_invocation(manager, strs(packages@));
    let mut i: usize = 0;
    assert(strs(r@) =~= want.take(1));
    while i < extra.len()
        invariant
            i <= extra.len(),
            str_views(extra@) == spec_install_args(manager),
            want == spec_install_invocation(manager, strs(packages@)),
            strs(r@) == want.take(1 + i),
        decreases extra.len() - i,
    {
        let a = extra[i].to_owned();
        assert(a@ == extra@[i as int]@);
        assert(want[1 + i] == str_views(extra@)[i as int]);
        let ghost before = strs(r@);
        r.push(a);
        assert(strs(r@) =~= before.push(a@));
        assert(strs(r@) =~= want.take(1 + i + 1));
        i += 1;
    }
    let mut j: usize = 0;
    while j < packages.len()
        invariant
            j <= packages.len(),
            str_views(extra@) == spec_install_args(manager),
            want == spec_install_invocation(manager, strs(packages@)),
            strs(r@) == want.take(1 + extra.len() + j),
        decreases packages.len() - j,
    {
        let p = packages[j].clone();
        assert(p@ == packages@[j as int]@);
        assert(want[1 + extra.len() + j] == strs(packages@)[j as int]);
        let ghost before = strs(r@);
        r.push(p);
        assert(strs(r@) =~= before.push(p@));
        assert(strs(r@) =~= want.take(1 + extra.len() + j + 1));
        j += 1;
    }
    assert(want.take(1 + extra.len() + packages.len()) =~= want);
    r
}

/// Returns a run of `program` with the arguments `a`, `b`, `c` and `arg`.
fn service_run(program: &str, a: &str, b: &str, c: &str, arg: &String) -> (op: Operation)
    ensures
        op@ == OperationModel::Run(program@, seq![a@, b@, c@, arg@]),
{
    let args = vec![a.to_owned(), b.to_owned(), c.to_owned(), arg.clone()];
    assert(strs(args@) =~= seq![a@, b@, c@, arg@]);
    Operation::Run { program: program.to_owned(), args }
}

/// Returns the operations that applying `manifest` performs, in order, and
/// the error that ends it, for `distro`; `base_dir` is the directory of the
/// manifest, against which relative dotfile sources resolve, and `home` the
/// user's home directory where it is known. `profiles` selects the profiles
/// to install; where it is empty, the manifest's `selected_profiles` do.
pub fn apply(
    manifest: &Manifest,
    base_dir: &str,
    distro: Distro,
    profiles: &[String],
    home: Option<&str>,
) -> (plan: ApplyPlan)
    ensures
        plan@ == spec_apply(manifest@, base_dir@, distro, strs(profiles@), opt_view(home)),
{
    let ghost m = manifest@;
    let selected: &[String] = if profiles.len() == 0 {
        manifest.selected_profiles.as_slice()
    } else {
        profiles
    };
    let ghost sel = if strs(profiles@).len() == 0 {
        m.selected_profiles
    } else {
        strs(profiles@)
    };
    assert(strs(selected@) == sel);
    let packages = match resolve_packages(manifest, selected, distro) {
        Ok(p) => p,
        Err(e) => {
            let plan = ApplyPlan { operations: Vec::new(), failure: Some(e) };
            assert(plan@.0 =~= Seq::<OperationModel>::empty());
            return plan;
        },
    };
    let ghost pkgs = resolve(m.profiles, sel, distro)->Ok_0;
    proof {
        lemma_same_elements_empty(strs(packages@), pkgs);
    }
    let mut ops: Vec<Operation> = Vec::new();
    if packages.len() > 0 {
        let args = install_invocation(distro.package_manager(), packages.as_slice());
        ops.push(Operation::Run { program: "sudo".to_owned(), args });
    }
    assert(operation_models(ops@) =~= install_operations(distro, pkgs));
    if manifest.danklinux.enabled {
        if !starts_with(manifest.danklinux.installer_url.as_str(), "https://") {
            return ApplyPlan {
                operations: ops,
                failure: Some("DankLinux installer_url must use HTTPS".to_owned()),
            };
        }
        let mut script = "curl -fsSL ".to_owned();
        let quoted = shell_quote(manifest.danklinux.installer_url.as_str());
        script.append(quoted.as_str());
        script.append(" | sh");
        let args = vec!["-c".to_owned(), script];
        assert(strs(args@) =~= seq![
            "-c"@,
            "curl -fsSL "@ + spec_shell_quote(m.installer_url) + " | sh"@,
        ]);
        ops.push(Operation::Run { program: "sh".to_owned(), args });
    }
    assert(operation_models(ops@) =~= install_operations(distro, pkgs) + dank_operations(m));
    if manifest.flatpaks.len() > 0 {
        let mut args = vec!["install".to_owned(), "-y".to_owned(), "flathub".to_owned()];
        crate::manifest::extend_cloned(&mut args, &manifest.flatpaks);
        assert(strs(args@) =~= seq!["install"@, "-y"@, "flathub"@] + m.flatpaks);
        ops.push(Operation::Run { program: "flatpak".to_owned(), args });
    }
    let ghost prefix = install_operations(distro, pkgs) + dank_operations(m) + flatpak_operations(
        m.flatpaks,
    );
    assert(operation_models(ops@) =~= prefix);
    let mut i: usize = 0;
    while i < manifest.system_services.len()
        invariant
            m == manifest@,
            i <= manifest.system_services.len(),
            operation_models(ops@) == prefix + system_service_operations(m.system_services).take(
                i as int,
            ),
        decreases manifest.system_services.len() - i,
    {
        let op = service_run("sudo", "systemctl", "enable", "--now", &manifest.system_services[i]);
        let ghost before = operation_models(ops@);
        ops.push(op);
        assert(operation_models(ops@) =~= before.push(op@));
        assert(operation_models(ops@) =~= prefix + system_service_operations(
            m.system_services,
        ).take(i + 1));
        i += 1;
    }
    let ghost prefix2 = prefix + system_service_operations(m.system_services);
    assert(system_service_operations(m.system_services).take(
        manifest.system_services.len() as int,
    ) =~= system_service_operations(m.system_services));
    let mut i: usize = 0;
    while i < manifest.user_services.len()
        invariant
            m == manifest@,
            i <= manifest.user_services.len(),
            operation_models(ops@) == prefix2 + user_service_operations(m.user_services).take(
                i as int,
            ),
        decreases manifest.user_services.len() - i,
    {
        let op = service_run("systemctl", "--user", "enable", "--now", &manifest.user_services[i]);
        let ghost before = operation_models(ops@);
        ops.push(op);
        assert(operation_models(ops@) =~= before.push(op@));
        assert(operation_models(ops@) =~= prefix2 + user_service_operations(m.user_services).take(
            i + 1,
        ));
        i += 1;
    }
    let ghost prefix3 = prefix2 + user_service_operations(m.user_services);
    assert(user_service_operations(m.user_services).take(manifest.user_services.len() as int)
        =~= user_service_operations(m.user_services));
    let ghost ds = m.dotfiles;
    let ghost hv = opt_view(home);
    let ghost bv = base_dir@;
    let mut i: usize = 0;
    assert(ds.skip(0) =~= ds);
    assert(operation_models(ops@) =~= prefix3 + Seq::<OperationModel>::empty());
    assert(spec_apply(m, bv, distro, strs(profiles@), hv) == (
        prefix3 + dotfile_operations(ds, bv, hv).0,
        dotfile_operations(ds, bv, hv).1,
    ));
    while i < manifest.dotfiles.len()
        invariant
            spec_apply(m, bv, distro, strs(profiles@), hv) == (
                prefix3 + dotfile_operations(ds, bv, hv).0,
                dotfile_operations(ds, bv, hv).1,
            ),
            m == manifest@,
            ds == m.dotfiles,
            hv == opt_view(home),
            bv == base_dir@,
            i <= manifest.dotfiles.len(),
            prefix3 + dotfile_operations(ds, bv, hv).0 == operation_models(ops@)
                + dotfile_operations(ds.skip(i as int), bv, hv).0,
            dotfile_operations(ds, bv, hv).1 == dotfile_operations(ds.skip(i as int), bv, hv).1,
        decreases manifest.dotfiles.len() - i,
    {
        let d = &manifest.dotfiles[i];
        assert(ds.skip(i as int)[0] == d@);
        assert(ds.skip(i as int).drop_first() =~= ds.skip(i + 1));
        let source = join_path(base_dir, d.source.as_str());
        match expand_home(d.target.as_str(), home) {
            Err(e) => {
                assert(spec_expand_home(ds.skip(i as int)[0].target, hv) == Err::<
                    Seq<char>,
                    Seq<char>,
                >(e@));
                assert(dotfile_operations(ds.skip(i as int), bv, hv).1 == Some(e@));
                assert(dotfile_operations(ds.skip(i as int), bv, hv).0 =~= Seq::<
                    OperationModel,
                >::empty());
                let plan = ApplyPlan { operations: ops, failure: Some(e) };
                assert(plan@.1 == Some(e@));
                assert(plan@.0 =~= prefix3 + dotfile_operations(ds, bv, hv).0);
                return plan;
            },
            Ok(target) => {
                let ghost before = operation_models(ops@);
                let op = Operation::Copy { source, target, template: d.template };
                ops.push(op);
                assert(operation_models(ops@) =~= before.push(op@));
                assert(operation_models(ops@) + dotfile_operations(ds.skip(i + 1), bv, hv).0
                    =~= before + dotfile_operations(ds.skip(i as int), bv, hv).0);
            },
        }
        i += 1;
    }
    assert(ds.skip(i as int).len() == 0);
    let plan = ApplyPlan { operations: ops, failure: None };
    assert(plan@.0 =~= prefix3 + dotfile_operations(ds, bv, hv).0);
    plan
}

/// A profile that no manifest profile has stops applying before any
/// operation: nothing is installed, run or copied, and the error names the
/// first unknown profile.
pub proof fn lemma_unknown_profile_runs_nothing(
    m: ManifestModel,
    base: Seq<char>,
    distro: Distro,
    profiles: Seq<Seq<char>>,
    home: Option<Seq<char>>,
)
    requires
        resolve(m.profiles, if profiles.len() == 0 { m.selected_profiles } else { profiles }, distro) is Err,
    ensures
        spec_apply(m, base, distro, profiles, home).0.len() == 0,
        spec_apply(m, base, distro, profiles, home).1 is Some,
{
}

/// Every package of the selected profiles is installed, and each once, in
/// increasing order: the arguments after the package manager's own are a
/// strictly increasing sequence with exactly the packages of the profiles.
pub proof fn lemma_apply_installs_each_package_once(
    m: ManifestModel,
    base: Seq<char>,
    distro: Distro,
    profiles: Seq<Seq<char>>,
    home: Option<Seq<char>>,
)
    requires
        resolve(m.profiles, if profiles.len() == 0 { m.selected_profiles } else { profiles }, distro) is Ok,
    ensures
        ({
            let pkgs = resolve(
                m.profiles,
                if profiles.len() == 0 {
                    m.selected_profiles
                } else {
                    profiles
                },
                distro,
            )->Ok_0;
            let ops = spec_apply(m, base, distro, profiles, home).0;
            let pm = spec_package_manager(distro);
            let fixed = 1 + spec_install_args(pm).len() as int;
            pkgs.len() > 0 ==> {
                &&& ops.len() > 0
                &&& ops[0] matches OperationModel::Run(program, args) && program == "sudo"@
                    && args.take(fixed) == seq![spec_executable(pm)] + spec_install_args(pm)
                    && sorted_strict(args.skip(fixed)) && same_elements(args.skip(fixed), pkgs)
            }
        }),
{
    let sel = if profiles.len() == 0 {
        m.selected_profiles
    } else {
        profiles
    };
    let pkgs = resolve(m.profiles, sel, distro)->Ok_0;
    if pkgs.len() > 0 {
        lemma_sorted_set(pkgs);
        let pm = spec_package_manager(distro);
        let args = spec_install_invocation(pm, sorted_set(pkgs));
        let fixed = 1 + spec_install_args(pm).len() as int;
        assert(args.take(fixed) =~= seq![spec_executable(pm)] + spec_install_args(pm));
        assert(args.skip(fixed) =~= sorted_set(pkgs));
        let ops = spec_apply(m, base, distro, profiles, home).0;
        assert(ops[0] == OperationModel::Run("sudo"@, args));
    }
}

/// Applying a captured manifest, with no profiles named, on the distribution
/// it was captured on replicates the capture: it installs the captured
/// packages (each once, in order), then the captured Flatpaks, then enables
/// the captured user services, and ends without error.
pub proof fn lemma_apply_replicates_capture(
    m: ManifestModel,
    distro: Distro,
    package_output: Seq<char>,
    flatpak_output: Seq<char>,
    service_output: Option<Seq<char>>,
    base: Seq<char>,
    home: Option<Seq<char>>,
)
    requires
        is_capture(m, distro, package_output, flatpak_output, service_output),
    ensures
        spec_apply(m, base, distro, seq![], home) == (
            (if spec_entries(package_output).len() == 0 {
                seq![]
            } else {
                seq![
                    OperationModel::Run(
                        "sudo"@,
                        spec_install_invocation(
                            spec_package_manager(distro),
                            spec_entries(package_output),
                        ),
                    ),
                ]
            }) + flatpak_operations(spec_entries(flatpak_output)) + user_service_operations(
                captured_services(service_output),
            ),
            None::<Seq<char>>,
        ),
{
    let e = spec_entries(package_output);
    let key = crate::os_details::spec_manifest_key(distro);
    let names = seq!["captured"@];
    assert(names.drop_last() =~= Seq::<Seq<char>>::empty());
    assert(names.last() == "captured"@);
    assert(resolve(m.profiles, names.drop_last(), distro) == Ok::<Seq<Seq<char>>, Seq<char>>(
        Seq::<Seq<char>>::empty(),
    ));
    assert(lookup(m.profiles, "captured"@) == Some(m.profiles[0].1));
    assert(lookup(m.profiles[0].1.packages, key) == Some(e));
    assert(spec_packages_for(m.profiles[0].1, distro) =~= e);
    assert(resolve(m.profiles, names, distro) == Ok::<Seq<Seq<char>>, Seq<char>>(
        Seq::<Seq<char>>::empty() + e,
    ));
    assert(Seq::<Seq<char>>::empty() + e =~= e);
    lemma_sorted_set(crate::text::trimmed_entries(crate::text::lines(package_output)));
    lemma_sorted_set_of_sorted(e);
    assert(system_service_operations(m.system_services) =~= Seq::<OperationModel>::empty());
    assert(dank_operations(m) =~= Seq::<OperationModel>::empty());
    assert(dotfile_operations(m.dotfiles, base, home).0 =~= Seq::<OperationModel>::empty());
    let before = install_operations(distro, e) + dank_operations(m) + flatpak_operations(
        m.flatpaks,
    ) + system_service_operations(m.system_services) + user_service_operations(
        m.user_services,
    );
    assert(before + Seq::<OperationModel>::empty() =~= (if e.len() == 0 {
        seq![]
    } else {
        seq![OperationModel::Run("sudo"@, spec_install_invocation(spec_package_manager(distro), e))]
    }) + flatpak_operations(spec_entries(flatpak_output)) + user_service_operations(
        captured_services(service_output),
    ));
}

/// A key that some entry has is found.
pub proof fn lemma_lookup_found<V>(entries: Seq<(Seq<char>, V)>, key: Seq<char>, j: int)
    requires
        0 <= j < entries.len(),
        entries[j].0 == key,
    ensures
        lookup(entries, key) is Some,
    decreases entries.len(),
{
    if entries[0].0 != key {
        assert(entries.drop_first()[j - 1] == entries[j]);
        lemma_lookup_found(entries.drop_first(), key, j - 1);
    }
}

/// Names that all name profiles of the manifest resolve to packages.
pub proof fn lemma_resolve_known(
    profiles: Seq<(Seq<char>, ProfileModel)>,
    names: Seq<Seq<char>>,
    d: Distro,
)
    requires
        forall|i: int|
            #![trigger names[i]]
            0 <= i < names.len() ==> exists|j: int|
                #![trigger profiles[j]]
                0 <= j < profiles.len() && profiles[j].0 == names[i],
    ensures
        resolve(profiles, names, d) is Ok,
    decreases names.len(),
{
    if names.len() > 0 {
        let init = names.drop_last();
        assert forall|i: int| #![trigger init[i]] 0 <= i < init.len() implies exists|j: int|
            #![trigger profiles[j]]
            0 <= j < profiles.len() && profiles[j].0 == init[i] by {
            assert(init[i] == names[i]);
        }
        lemma_resolve_known(profiles, init, d);
        let last = names.len() - 1;
        assert(names[last] == names.last());
        let j = choose|j: int| #![trigger profiles[j]] 0 <= j < profiles.len() && profiles[j].0 == names[last];
        lemma_lookup_found(profiles, names.last(), j);
    }
}

/// With the home directory known, every dotfile is copied, in order, and
/// nothing fails.
pub proof fn lemma_dotfiles_with_home(ds: Seq<DotfileModel>, base: Seq<char>, home: Seq<char>)
    ensures
        dotfile_operations(ds, base, Some(home)).1 is None,
        dotfile_operations(ds, base, Some(home)).0.len() == ds.len(),
        forall|i: int|
            0 <= i < ds.len() ==> dotfile_operations(ds, base, Some(home)).0[i]
                == OperationModel::Copy(
                path_join(base, ds[i].source),
                spec_expand_home(ds[i].target, Some(home))->Ok_0,
                ds[i].template,
            ),
    decreases ds.len(),
{
    if ds.len() > 0 {
        lemma_dotfiles_with_home(ds.drop_first(), base, home);
        assert forall|i: int| 0 <= i < ds.len() implies dotfile_operations(ds, base, Some(home)).0[i]
            == OperationModel::Copy(
            path_join(base, ds[i].source),
            spec_expand_home(ds[i].target, Some(home))->Ok_0,
            ds[i].template,
        ) by {
            if i > 0 {
                assert(ds.drop_first()[i - 1] == ds[i]);
            }
        }
    }
}

/// The profiles that applying selects: those named, or the manifest's
/// `selected_profiles` where none are named.
pub open spec fn selected(m: ManifestModel, profiles: Seq<Seq<char>>) -> Seq<Seq<char>> {
    if profiles.len() == 0 {
        m.selected_profiles
    } else {
        profiles
    }
}

/// Every selected profile is a profile of the manifest, and an enabled
/// installer URL starts with `https://`: applying gets past both checks.
pub open spec fn passes_checks(m: ManifestModel, profiles: Seq<Seq<char>>) -> bool {
    &&& forall|i: int|
        #![trigger selected(m, profiles)[i]]
        0 <= i < selected(m, profiles).len() ==> exists|j: int|
            #![trigger m.profiles[j]]
            0 <= j < m.profiles.len() && m.profiles[j].0 == selected(m, profiles)[i]
    &&& m.danklinux_enabled ==> ("https://"@.len() <= m.installer_url.len() && m.installer_url.take(
        "https://"@.len() as int,
    ) == "https://"@)
}

/// Past its checks, the plan is the package installation, the DankLinux
/// bootstrap, the Flatpak installation, the services and the dotfile copies.
proof fn lemma_apply_layout(
    m: ManifestModel,
    base: Seq<char>,
    distro: Distro,
    profiles: Seq<Seq<char>>,
    home: Option<Seq<char>>,
)
    requires
        passes_checks(m, profiles),
    ensures
        resolve(m.profiles, selected(m, profiles), distro) is Ok,
        spec_apply(m, base, distro, profiles, home).0 == install_operations(
            distro,
            resolve(m.profiles, selected(m, profiles), distro)->Ok_0,
        ) + dank_operations(m) + flatpak_operations(m.flatpaks) + system_service_operations(
            m.system_services,
        ) + user_service_operations(m.user_services) + dotfile_operations(
            m.dotfiles,
            base,
            home,
        ).0,
        spec_apply(m, base, distro, profiles, home).1 == dotfile_operations(m.dotfiles, base, home).1,
{
    lemma_resolve_known(m.profiles, selected(m, profiles), distro);
}

/// When applying gets past its checks and the manifest lists Flatpaks, the
/// plan runs `flatpak install -y flathub` with every Flatpak of the
/// manifest, in the manifest's order.
pub proof fn lemma_apply_installs_every_flatpak(
    m: ManifestModel,
    base: Seq<char>,
    distro: Distro,
    profiles: Seq<Seq<char>>,
    home: Option<Seq<char>>,
)
    requires
        passes_checks(m, profiles),
        m.flatpaks.len() > 0,
    ensures
        exists|k: int|
            0 <= k < spec_apply(m, base, distro, profiles, home).0.len() && #[trigger] spec_apply(
                m,
                base,
                distro,
                profiles,
                home,
            ).0[k] == OperationModel::Run(
                "flatpak"@,
                seq!["install"@, "-y"@, "flathub"@] + m.flatpaks,
            ),
{
    lemma_apply_layout(m, base, distro, profiles, home);
    let ops = spec_apply(m, base, distro, profiles, home).0;
    let pre = install_operations(distro, resolve(m.profiles, selected(m, profiles), distro)->Ok_0)
        + dank_operations(m);
    let k = pre.len() as int;
    assert(ops[k] == flatpak_operations(m.flatpaks)[0]);
}

/// When applying gets past its checks, the plan enables and starts, one
/// after the other and in the manifest's order, each system service with
/// `sudo systemctl enable --now`, then each user service with
/// `systemctl --user enable --now`.
pub proof fn lemma_apply_enables_every_service(
    m: ManifestModel,
    base: Seq<char>,
    distro: Distro,
    profiles: Seq<Seq<char>>,
    home: Option<Seq<char>>,
)
    requires
        passes_checks(m, profiles),
    ensures
        exists|b: int|
            0 <= b && b + m.system_services.len() + m.user_services.len() <= spec_apply(
                m,
                base,
                distro,
                profiles,
                home,
            ).0.len() && #[trigger] spec_apply(m, base, distro, profiles, home).0.subrange(
                b,
                b + m.system_services.len() + m.user_services.len(),
            ) == Seq::new(
                m.system_services.len(),
                |i: int|
                    OperationModel::Run(
                        "sudo"@,
                        seq!["systemctl"@, "enable"@, "--now"@, m.system_services[i]],
                    ),
            ) + Seq::new(
                m.user_services.len(),
                |i: int|
                    OperationModel::Run(
                        "systemctl"@,
                        seq!["--user"@, "enable"@, "--now"@, m.user_services[i]],
                    ),
            ),
{
    lemma_apply_layout(m, base, distro, profiles, home);
    let ops = spec_apply(m, base, distro, profiles, home).0;
    let pre = install_operations(distro, resolve(m.profiles, selected(m, profiles), distro)->Ok_0)
        + dank_operations(m) + flatpak_operations(m.flatpaks);
    let sys = system_service_operations(m.system_services);
    let usr = user_service_operations(m.user_services);
    let rest = dotfile_operations(m.dotfiles, base, home).0;
    let b = pre.len() as int;
    let e = b + m.system_services.len() + m.user_services.len();
    assert(ops == pre + sys + usr + rest);
    assert(ops.subrange(b, e) =~= sys + usr);
}

/// When applying gets past its checks and the home directory is known, the
/// plan ends with a copy of each dotfile, in the manifest's order, and
/// without error. Each copy keeps the dotfile's template flag, and an
/// absolute source and a target that does not start with `~` are kept as
/// given.
pub proof fn lemma_apply_copies_every_dotfile(
    m: ManifestModel,
    base: Seq<char>,
    distro: Distro,
    profiles: Seq<Seq<char>>,
    home: Seq<char>,
)
    requires
        passes_checks(m, profiles),
    ensures
        spec_apply(m, base, distro, profiles, Some(home)).1 is None,
        spec_apply(m, base, distro, profiles, Some(home)).0.len() >= m.dotfiles.len(),
        forall|i: int|
            #![trigger m.dotfiles[i]]
            0 <= i < m.dotfiles.len() ==> {
                let ops = spec_apply(m, base, distro, profiles, Some(home)).0;
                let d = m.dotfiles[i];
                ops[ops.len() - m.dotfiles.len() + i] matches OperationModel::Copy(
                    source,
                    target,
                    template,
                ) && template == d.template && (d.source.len() > 0 && d.source[0] == '/' ==> source
                    == d.source) && (d.target.len() == 0 || d.target[0] != '~' ==> target
                    == d.target)
            },
{
    lemma_apply_layout(m, base, distro, profiles, Some(home));
    let ds = m.dotfiles;
    lemma_dotfiles_with_home(ds, base, home);
    let ops = spec_apply(m, base, distro, profiles, Some(home)).0;
    let dots = dotfile_operations(ds, base, Some(home)).0;
    let c = ops.len() - ds.len();
    assert forall|i: int| #![trigger ds[i]] 0 <= i < ds.len() implies ops[c + i] == dots[i] by {}
    assert forall|i: int| #![trigger ds[i]] 0 <= i < ds.len() implies (ds[i].target.len() == 0
        || ds[i].target[0] != '~') ==> !crate::paths::names_home(ds[i].target) by {}
}

/// `lookup` finds a key exactly when some entry has it.
pub proof fn lemma_lookup_some_iff<V>(entries: Seq<(Seq<char>, V)>, key: Seq<char>)
    ensures
        lookup(entries, key) is Some <==> exists|j: int|
            #![trigger entries[j]]
            0 <= j < entries.len() && entries[j].0 == key,
    decreases entries.len(),
{
    if entries.len() > 0 {
        lemma_lookup_some_iff(entries.drop_first(), key);
        if exists|j: int| #![trigger entries[j]] 0 <= j < entries.len() && entries[j].0 == key {
            let j = choose|j: int| #![trigger entries[j]] 0 <= j < entries.len() && entries[j].0 == key;
            if j > 0 {
                assert(entries.drop_first()[j - 1] == entries[j]);
            }
        }
        if exists|j: int|
            #![trigger entries.drop_first()[j]]
            0 <= j < entries.drop_first().len() && entries.drop_first()[j].0 == key {
            let j = choose|j: int|
                #![trigger entries.drop_first()[j]]
                0 <= j < entries.drop_first().len() && entries.drop_first()[j].0 == key;
            assert(entries[j + 1] == entries.drop_first()[j]);
        }
    }
}

/// Resolving fails exactly at the first name that no profile has; where it
/// succeeds, every name is a profile's.
pub proof fn lemma_resolve_result(
    profiles: Seq<(Seq<char>, ProfileModel)>,
    names: Seq<Seq<char>>,
    d: Distro,
)
    ensures
        resolve(profiles, names, d) is Ok ==> forall|t: int|
            #![trigger names[t]]
            0 <= t < names.len() ==> exists|j: int|
                #![trigger profiles[j]]
                0 <= j < profiles.len() && profiles[j].0 == names[t],
        resolve(profiles, names, d) is Err ==> exists|k: int|
            #![trigger names[k]]
            0 <= k < names.len() && resolve(profiles, names, d)->Err_0 == names[k] && (forall|j: int|
                #![trigger profiles[j]]
                0 <= j < profiles.len() ==> profiles[j].0 != names[k]) && (forall|t: int|
                #![trigger names[t]]
                0 <= t < k ==> exists|j: int|
                    #![trigger profiles[j]]
                    0 <= j < profiles.len() && profiles[j].0 == names[t]),
    decreases names.len(),
{
    if names.len() > 0 {
        let init = names.drop_last();
        let last = names.len() - 1;
        lemma_resolve_result(profiles, init, d);
        lemma_lookup_some_iff(profiles, names.last());
        assert(names[last] == names.last());
        assert forall|t: int| 0 <= t < init.len() implies #[trigger] init[t] == names[t] by {}
        if resolve(profiles, init, d) is Err {
            let k = choose|k: int|
                #![trigger init[k]]
                0 <= k < init.len() && resolve(profiles, init, d)->Err_0 == init[k] && (forall|j: int|
                    #![trigger profiles[j]]
                    0 <= j < profiles.len() ==> profiles[j].0 != init[k]) && (forall|t: int|
                    #![trigger init[t]]
                    0 <= t < k ==> exists|j: int|
                        #![trigger profiles[j]]
                        0 <= j < profiles.len() && profiles[j].0 == init[t]);
            assert(names[k] == init[k]);
            assert forall|t: int| #![trigger names[t]] 0 <= t < k implies exists|j: int|
                #![trigger profiles[j]]
                0 <= j < profiles.len() && profiles[j].0 == names[t] by {
                assert(init[t] == names[t]);
            }
        } else if lookup(profiles, names.last()) is None {
            assert(resolve(profiles, names, d)->Err_0 == names[last]);
            assert forall|t: int| #![trigger names[t]] 0 <= t < last implies exists|j: int|
                #![trigger profiles[j]]
                0 <= j < profiles.len() && profiles[j].0 == names[t] by {
                assert(init[t] == names[t]);
            }
        } else {
            assert forall|t: int| #![trigger names[t]] 0 <= t < names.len() implies exists|j: int|
                #![trigger profiles[j]]
                0 <= j < profiles.len() && profiles[j].0 == names[t] by {
                if t < last {
                    assert(init[t] == names[t]);
                }
            }
        }
    }
}

/// Where a selected profile is not a profile of the manifest, applying runs
/// nothing and fails with `Unknown package profile: <name>`, naming the
/// first selected profile that the manifest lacks, which comes no later than
/// the given one.
pub proof fn lemma_unknown_profile_reported(
    m: ManifestModel,
    base: Seq<char>,
    distro: Distro,
    profiles: Seq<Seq<char>>,
    home: Option<Seq<char>>,
    i: int,
)
    requires
        0 <= i < selected(m, profiles).len(),
        forall|j: int| 0 <= j < m.profiles.len() ==> (#[trigger] m.profiles[j]).0 != selected(
            m,
            profiles,
        )[i],
    ensures
        spec_apply(m, base, distro, profiles, home).0.len() == 0,
        exists|k: int|
            #![trigger selected(m, profiles)[k]]
            0 <= k <= i && spec_apply(m, base, distro, profiles, home).1 == Some(
                "Unknown package profile: "@ + selected(m, profiles)[k],
            ) && (forall|j: int|
                0 <= j < m.profiles.len() ==> (#[trigger] m.profiles[j]).0 != selected(
                    m,
                    profiles,
                )[k]) && (forall|t: int|
                #![trigger selected(m, profiles)[t]]
                0 <= t < k ==> exists|j: int|
                    #![trigger m.profiles[j]]
                    0 <= j < m.profiles.len() && m.profiles[j].0 == selected(m, profiles)[t]),
{
    let sel = selected(m, profiles);
    lemma_resolve_result(m.profiles, sel, distro);
    if resolve(m.profiles, sel, distro) is Ok {
        assert(sel[i] == sel[i]);
        assert(false);
    }
    let k = choose|k: int|
        #![trigger sel[k]]
        0 <= k < sel.len() && resolve(m.profiles, sel, distro)->Err_0 == sel[k] && (forall|j: int|
            #![trigger m.profiles[j]]
            0 <= j < m.profiles.len() ==> m.profiles[j].0 != sel[k]) && (forall|t: int|
            #![trigger sel[t]]
            0 <= t < k ==> exists|j: int|
                #![trigger m.profiles[j]]
                0 <= j < m.profiles.len() && m.profiles[j].0 == sel[t]);
    if k > i {
        assert(sel[i] == sel[i]);
        assert(false);
    }
    assert(sel[k] == sel[k]);
}

/// An enabled DankLinux bootstrap with an HTTPS installer URL runs, past
/// the other checks, as `sh -c "curl -fsSL <url> | sh"`, the URL quoted for
/// the shell.
pub proof fn lemma_apply_bootstraps_danklinux(
    m: ManifestModel,
    base: Seq<char>,
    distro: Distro,
    profiles: Seq<Seq<char>>,
    home: Option<Seq<char>>,
)
    requires
        passes_checks(m, profiles),
        m.danklinux_enabled,
    ensures
        exists|k: int|
            0 <= k < spec_apply(m, base, distro, profiles, home).0.len() && #[trigger] spec_apply(
                m,
                base,
                distro,
                profiles,
                home,
            ).0[k] == OperationModel::Run(
                "sh"@,
                seq!["-c"@, "curl -fsSL "@ + spec_shell_quote(m.installer_url) + " | sh"@],
            ),
{
    lemma_apply_layout(m, base, distro, profiles, home);
    let ops = spec_apply(m, base, distro, profiles, home).0;
    let pre = install_operations(distro, resolve(m.profiles, selected(m, profiles), distro)->Ok_0);
    let k = pre.len() as int;
    assert(ops[k] == dank_operations(m)[0]);
}

/// An enabled DankLinux bootstrap whose installer URL does not start with
/// `https://` stops applying with `DankLinux installer_url must use HTTPS`,
/// after at most the package installation: no bootstrap, Flatpak, service
/// or copy runs.
pub proof fn lemma_insecure_installer_refused(
    m: ManifestModel,
    base: Seq<char>,
    distro: Distro,
    profiles: Seq<Seq<char>>,
    home: Option<Seq<char>>,
)
    requires
        m.danklinux_enabled,
        !("https://"@.len() <= m.installer_url.len() && m.installer_url.take(
            "https://"@.len() as int,
        ) == "https://"@),
    ensures
        spec_apply(m, base, distro, profiles, home).0.len() <= 1,
        forall|k: int|
            0 <= k < spec_apply(m, base, distro, profiles, home).0.len() ==> ((#[trigger] spec_apply(
                m,
                base,
                distro,
                profiles,
                home,
            ).0[k]) matches OperationModel::Run(program, _) && program == "sudo"@),
        spec_apply(m, base, distro, profiles, home).1 is Some,
        resolve(m.profiles, selected(m, profiles), distro) is Ok ==> spec_apply(
            m,
            base,
            distro,
            profiles,
            home,
        ).1 == Some("DankLinux installer_url must use HTTPS"@),
{
}

/// The steps come in their order: the DankLinux bootstrap before the
/// Flatpak installation, and both before the services.
pub proof fn lemma_apply_step_order(
    m: ManifestModel,
    base: Seq<char>,
    distro: Distro,
    profiles: Seq<Seq<char>>,
    home: Option<Seq<char>>,
)
    requires
        passes_checks(m, profiles),
        m.danklinux_enabled,
        m.flatpaks.len() > 0,
    ensures
        exists|k: int|
            0 <= k && k + 2 + m.system_services.len() + m.user_services.len() <= spec_apply(
                m,
                base,
                distro,
                profiles,
                home,
            ).0.len() && #[trigger] spec_apply(m, base, distro, profiles, home).0.subrange(
                k,
                k + 2,
            ) == seq![
                OperationModel::Run(
                    "sh"@,
                    seq!["-c"@, "curl -fsSL "@ + spec_shell_quote(m.installer_url) + " | sh"@],
                ),
                OperationModel::Run("flatpak"@, seq!["install"@, "-y"@, "flathub"@] + m.flatpaks),
            ] && spec_apply(m, base, distro, profiles, home).0.subrange(
                k + 2,
                k + 2 + m.system_services.len() + m.user_services.len(),
            ) == Seq::new(
                m.system_services.len(),
                |i: int|
                    OperationModel::Run(
                        "sudo"@,
                        seq!["systemctl"@, "enable"@, "--now"@, m.system_services[i]],
                    ),
            ) + Seq::new(
                m.user_services.len(),
                |i: int|
                    OperationModel::Run(
                        "systemctl"@,
                        seq!["--user"@, "enable"@, "--now"@, m.user_services[i]],
                    ),
            ),
{
    lemma_apply_layout(m, base, distro, profiles, home);
    let ops = spec_apply(m, base, distro, profiles, home).0;
    let pre = install_operations(distro, resolve(m.profiles, selected(m, profiles), distro)->Ok_0);
    let dank = dank_operations(m);
    let fl = flatpak_operations(m.flatpaks);
    let sys = system_service_operations(m.system_services);
    let usr = user_service_operations(m.user_services);
    let rest = dotfile_operations(m.dotfiles, base, home).0;
    let k = pre.len() as int;
    let e = k + 2 + m.system_services.len() + m.user_services.len();
    assert(ops == pre + dank + fl + sys + usr + rest);
    assert(ops.subrange(k, k + 2) =~= dank + fl);
    assert(ops.subrange(k + 2, e) =~= sys + usr);
}

} // verus!
