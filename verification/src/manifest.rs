//! The declarative machine-replication manifest and its mathematical model.
//!
//! A manifest's maps (profiles by name, package lists by distribution ID)
//! are vectors of entries; a lookup finds the first entry with the key,
//! which is the only entry where the keys are distinct, as they are in a
//! manifest that was read from TOML.

use vstd::prelude::*;
use crate::order::{sorted_strict, strs};
use crate::os_details::{spec_manifest_key, Distro};
use crate::text::str_eq;

verus! {

/// A complete machine-replication manifest.
#[derive(Debug, Clone, PartialEq, Eq)]
pub struct Manifest {
    /// Profiles applied when no profiles are supplied on the command line.
    pub selected_profiles: Vec<String>,
    /// Named groups of packages.
    pub profiles: Vec<(String, PackageProfile)>,
    /// DankLinux bootstrap configuration.
    pub danklinux: DankLinux,
    /// Flatpak application identifiers.
    pub flatpaks: Vec<String>,
    /// System services to enable and start.
    pub system_services: Vec<String>,
    /// User services to enable and start.
    pub user_services: Vec<String>,
    /// Configuration trees to copy into the user's home directory.
    pub dotfiles: Vec<Dotfile>,
}

/// Packages belonging to one logical profile.
#[derive(Debug, Clone, PartialEq, Eq)]
pub struct PackageProfile {
    /// Packages with the same name on every supported distribution.
    pub common: Vec<String>,
    /// Package lists keyed by an `os-release` distribution ID.
    pub packages: Vec<(String, Vec<String>)>,
}

/// Configuration for the official DankLinux bootstrap installer.
#[derive(Debug, Clone, PartialEq, Eq)]
pub struct DankLinux {
    /// Whether to invoke the installer while applying the manifest.
    pub enabled: bool,
    /// HTTPS URL of the official installer script.
    pub installer_url: String,
}

/// A configuration tree copied from the manifest directory to a target path.
#[derive(Debug, Clone, PartialEq, Eq)]
pub struct Dotfile {
    /// Source file or directory, relative to the manifest unless absolute.
    pub source: String,
    /// Destination path. A leading `~/` expands to the current user's home.
    pub target: String,
    /// Replace `{{HOME}}` in UTF-8 file contents with the current user's home.
    pub template: bool,
}

/// The model of a [`PackageProfile`].
pub struct ProfileModel {
    pub common: Seq<Seq<char>>,
    pub packages: Seq<(Seq<char>, Seq<Seq<char>>)>,
}

/// The model of a [`Dotfile`].
pub struct DotfileModel {
    pub source: Seq<char>,
    pub target: Seq<char>,
    pub template: bool,
}

/// The model of a [`Manifest`].
pub struct ManifestModel {
    pub selected_profiles: Seq<Seq<char>>,
    pub profiles: Seq<(Seq<char>, ProfileModel)>,
    pub danklinux_enabled: bool,
    pub installer_url: Seq<char>,
    pub flatpaks: Seq<Seq<char>>,
    pub system_services: Seq<Seq<char>>,
    pub user_services: Seq<Seq<char>>,
    pub dotfiles: Seq<DotfileModel>,
}

/// The model of a list of package lists keyed by distribution ID.
pub open spec fn package_lists(v: Seq<(String, Vec<String>)>) -> Seq<(Seq<char>, Seq<Seq<char>>)> {
    Seq::new(v.len(), |i: int| (v[i].0@, strs(v[i].1@)))
}

impl View for PackageProfile {
    type V = ProfileModel;

    open spec fn view(&self) -> ProfileModel {
        ProfileModel { common: strs(self.common@), packages: package_lists(self.packages@) }
    }
}

impl View for Dotfile {
    type V = DotfileModel;

    open spec fn view(&self) -> DotfileModel {
        DotfileModel { source: self.source@, target: self.target@, template: self.template }
    }
}

/// The model of a list of named profiles.
pub open spec fn profile_models(v: Seq<(String, PackageProfile)>) -> Seq<(Seq<char>, ProfileModel)> {
    Seq::new(v.len(), |i: int| (v[i].0@, v[i].1@))
}

/// The model of a list of dotfile mappings.
pub open spec fn dotfile_models(v: Seq<Dotfile>) -> Seq<DotfileModel> {
    Seq::new(v.len(), |i: int| v[i]@)
}

impl View for Manifest {
    type V = ManifestModel;

    open spec fn view(&self) -> ManifestModel {
        ManifestModel {
            selected_profiles: strs(self.selected_profiles@),
            profiles: profile_models(self.profiles@),
            danklinux_enabled: self.danklinux.enabled,
            installer_url: self.danklinux.installer_url@,
            flatpaks: strs(self.flatpaks@),
            system_services: strs(self.system_services@),
            user_services: strs(self.user_services@),
            dotfiles: dotfile_models(self.dotfiles@),
        }
    }
}

/// The keys of the entries, in order.
pub open spec fn keys<V>(entries: Seq<(Seq<char>, V)>) -> Seq<Seq<char>> {
    Seq::new(entries.len(), |i: int| entries[i].0)
}

/// The manifest has the shape of one read from TOML, whose tables are
/// `BTreeMap`s: the profile names, and the distribution IDs within each
/// profile, are strictly increasing, so no key occurs twice.
pub open spec fn is_ordered(m: ManifestModel) -> bool {
    &&& sorted_strict(keys(m.profiles))
    &&& forall|i: int| 0 <= i < m.profiles.len() ==> sorted_strict(
        keys(#[trigger] m.profiles[i].1.packages),
    )
}

/// The value of the first entry whose key is `key`.
pub open spec fn lookup<V>(entries: Seq<(Seq<char>, V)>, key: Seq<char>) -> Option<V>
    decreases entries.len(),
{
    if entries.len() == 0 {
        None
    } else if entries[0].0 == key {
        Some(entries[0].1)
    } else {
        lookup(entries.drop_first(), key)
    }
}

/// The index of the first entry whose key is `key`, if any.
pub open spec fn lookup_index<V>(entries: Seq<(Seq<char>, V)>, key: Seq<char>) -> Option<int>
    decreases entries.len(),
{
    if entries.len() == 0 {
        None
    } else if entries[0].0 == key {
        Some(0)
    } else {
        match lookup_index(entries.drop_first(), key) {
            Some(i) => Some(i + 1),
            None => None,
        }
    }
}

/// `lookup` finds the entry at the first index whose key matches.
pub proof fn lemma_lookup_first<V>(entries: Seq<(Seq<char>, V)>, key: Seq<char>, i: int)
    requires
        0 <= i <= entries.len(),
        forall|k: int| 0 <= k < i ==> entries[k].0 != key,
    ensures
        lookup(entries, key) == lookup(entries.skip(i), key),
    decreases i,
{
    if i > 0 {
        assert(entries.skip(1) =~= entries.drop_first());
        lemma_lookup_first(entries.drop_first(), key, i - 1);
        assert(entries.drop_first().skip(i - 1) =~= entries.skip(i));
    } else {
        assert(entries.skip(0) =~= entries);
    }
}

/// The packages of a profile for a distribution: the common packages, then
/// those listed under the distribution's manifest key.
pub open spec fn spec_packages_for(p: ProfileModel, d: Distro) -> Seq<Seq<char>> {
    p.common + match lookup(p.packages, spec_manifest_key(d)) {
        Some(v) => v,
        None => seq![],
    }
}

/// Copies the strings of `src` onto the end of `dst`.
pub fn extend_cloned(dst: &mut Vec<String>, src: &Vec<String>)
    ensures
        strs(final(dst)@) == strs(old(dst)@) + strs(src@),
{
    let mut i: usize = 0;
    while i < src.len()
        invariant
            i <= src.len(),
            strs(dst@) == strs(old(dst)@) + strs(src@).take(i as int),
        decreases src.len() - i,
    {
        let c = src[i].clone();
        assert(c@ == src@[i as int]@);
        let ghost before = dst@;
        dst.push(c);
        assert(dst@ == before.push(c));
        assert(strs(dst@) =~= strs(before).push(c@));
        assert(strs(src@).take(i + 1) =~= strs(src@).take(i as int).push(src@[i as int]@));
        i += 1;
        assert(strs(dst@) =~= strs(old(dst)@) + strs(src@).take(i as int));
    }
    assert(strs(src@).take(src.len() as int) =~= strs(src@));
}

impl PackageProfile {
    /// Returns the common and distribution-specific packages for `distro`.
    pub fn packages_for(&self, distro: Distro) -> (r: Vec<String>)
        ensures
            strs(r@) == spec_packages_for(self@, distro),
    {
        let mut packages: Vec<String> = Vec::new();
        extend_cloned(&mut packages, &self.common);
        assert(strs(packages@) =~= strs(self.common@));
        let key = distro.manifest_key();
        let ghost entries = package_lists(self.packages@);
        let mut i: usize = 0;
        while i < self.packages.len()
            invariant
                i <= self.packages.len(),
                entries == package_lists(self.packages@),
                key@ == spec_manifest_key(distro),
                strs(packages@) == strs(self.common@),
                forall|k: int| 0 <= k < i ==> entries[k].0 != key@,
            decreases self.packages.len() - i,
        {
            if str_eq(self.packages[i].0.as_str(), key) {
                proof {
                    lemma_lookup_first(entries, key@, i as int);
                    assert(entries.skip(i as int)[0] == entries[i as int]);
                    assert(entries[i as int].1 == strs(self.packages@[i as int].1@));
                }
                extend_cloned(&mut packages, &self.packages[i].1);
                assert(strs(packages@) =~= spec_packages_for(self@, distro));
                return packages;
            }
            i += 1;
        }
        proof {
            lemma_lookup_first(entries, key@, i as int);
            assert(entries.skip(i as int).len() == 0);
        }
        assert(strs(packages@) =~= spec_packages_for(self@, distro));
        packages
    }
}

impl Default for DankLinux {
    fn default() -> (d: Self)
        ensures
            !d.enabled,
            d.installer_url@ == "https://install.danklinux.com"@,
    {
        DankLinux { enabled: false, installer_url: "https://install.danklinux.com".to_owned() }
    }
}

impl Default for PackageProfile {
    fn default() -> (p: Self)
        ensures
            p.common@.len() == 0,
            p.packages@.len() == 0,
    {
        PackageProfile { common: Vec::new(), packages: Vec::new() }
    }
}

impl Default for Manifest {
    fn default() -> (m: Self)
        ensures
            m.selected_profiles@.len() == 0,
            m.profiles@.len() == 0,
            !m.danklinux.enabled,
            m.danklinux.installer_url@ == "https://install.danklinux.com"@,
            m.flatpaks@.len() == 0,
            m.system_services@.len() == 0,
            m.user_services@.len() == 0,
            m.dotfiles@.len() == 0,
    {
        Manifest {
            selected_profiles: Vec::new(),
            profiles: Vec::new(),
            danklinux: DankLinux::default(),
            flatpaks: Vec::new(),
            system_services: Vec::new(),
            user_services: Vec::new(),
            dotfiles: Vec::new(),
        }
    }
}

/// A profile's packages for a distribution are its common packages, then
/// those of the first list under the distribution's manifest key.
pub proof fn lemma_packages_for_listed(p: ProfileModel, d: Distro, j: int)
    requires
        0 <= j < p.packages.len(),
        p.packages[j].0 == spec_manifest_key(d),
        forall|t: int| 0 <= t < j ==> (#[trigger] p.packages[t]).0 != spec_manifest_key(d),
    ensures
        spec_packages_for(p, d) == p.common + p.packages[j].1,
{
    lemma_lookup_first(p.packages, spec_manifest_key(d), j);
    assert(p.packages.skip(j)[0] == p.packages[j]);
}

/// Without a list under the distribution's manifest key, a profile's
/// packages for it are its common packages alone.
pub proof fn lemma_packages_for_unlisted(p: ProfileModel, d: Distro)
    requires
        forall|t: int| 0 <= t < p.packages.len() ==> (#[trigger] p.packages[t]).0
            != spec_manifest_key(d),
    ensures
        spec_packages_for(p, d) == p.common,
{
    lemma_lookup_first(p.packages, spec_manifest_key(d), p.packages.len() as int);
    assert(p.common + seq![] =~= p.common);
}

} // verus!
