use vstd::prelude::*;

use crate::package_key::PackageKey;
use crate::strings::{opt_string_copy, opt_view, seq_contains_str, vec_contains_str, vec_string_copy};
use crate::url::strings_view;
use crate::fbs::{key_index, map_get, FbsMap};
use crate::package_key::{key_from_text, KeyView};
use crate::repository::{find_repo, lemma_repo_index, repo_index, repos_view, LoadedRepository, RepositoryView};
use crate::version::VersionQuery;

verus! {

/// When a payload needs the machine to restart: after installing, after
/// updating, after uninstalling.
#[derive(Debug, Clone, Copy, PartialEq, Eq, Structural)]
pub struct RebootFlags {
    pub on_install: bool,
    pub on_update: bool,
    pub on_uninstall: bool,
}

/// A Windows executable installer.
#[derive(Debug, Clone)]
pub struct WindowsExecutable {
    pub url: String,
    pub product_code: String,
    pub kind: Option<String>,
    pub args: Option<String>,
    pub uninstall_args: Option<String>,
    pub requires_reboot: RebootFlags,
    pub size: u64,
    pub installed_size: u64,
}

/// A macOS installer package.
#[derive(Debug, Clone)]
pub struct MacOSPackage {
    pub url: String,
    pub pkg_id: String,
    pub requires_reboot: RebootFlags,
    pub size: u64,
    pub installed_size: u64,
}

/// A compressed tarball unpacked into a prefix.
#[derive(Debug, Clone)]
pub struct TarballPackage {
    pub url: String,
    pub size: u64,
    pub installed_size: u64,
}

/// The installable artifact of a target.
#[derive(Debug, Clone)]
pub enum Payload {
    WindowsExecutable(WindowsExecutable),
    MacOSPackage(MacOSPackage),
    TarballPackage(TarballPackage),
}

/// A dependency: a full package key URL, or an identifier in the same repository.
#[derive(Debug, Clone)]
pub enum DependencyKey {
    Remote(String),
    Local(String),
}

/// A platform specific build of a release.
#[derive(Debug, Clone)]
pub struct Target {
    pub platform: String,
    pub arch: Option<String>,
    pub dependencies: Vec<(DependencyKey, String)>,
    pub payload: Payload,
}

/// A released version of a package, possibly on a named channel.
#[derive(Debug, Clone)]
pub struct Release {
    pub version: String,
    pub channel: Option<String>,
    pub authors: Vec<String>,
    pub license: Option<String>,
    pub license_url: Option<String>,
    pub target: Vec<Target>,
}

/// A package as its repository describes it.
#[derive(Debug, Clone)]
pub struct Descriptor {
    pub id: String,
    pub tags: Vec<String>,
    pub name: Vec<(String, String)>,
    pub description: Vec<(String, String)>,
    pub release: Vec<Release>,
}

/// Copies a list of string pairs.
pub fn copy_string_pairs(v: &Vec<(String, String)>) -> (r: Vec<(String, String)>)
    ensures
        r@ == v@,
{
    let mut out: Vec<(String, String)> = Vec::new();
    let mut i: usize = 0;
    while i < v.len()
        invariant
            0 <= i <= v.len(),
            out@ == v@.subrange(0, i as int),
        decreases v.len() - i,
    {
        out.push((v[i].0.clone(), v[i].1.clone()));
        i = i + 1;
        assert(out@ == v@.subrange(0, i as int));
    }
    out
}

impl DependencyKey {
    /// Copies the dependency key.
    pub fn copy(&self) -> (r: DependencyKey)
        ensures
            r == *self,
    {
        match self {
            DependencyKey::Remote(u) => DependencyKey::Remote(u.clone()),
            DependencyKey::Local(i) => DependencyKey::Local(i.clone()),
        }
    }
}

impl Payload {
    /// The download size of the payload.
    pub fn size(&self) -> (r: u64)
        ensures
            r == payload_size(*self),
    {
        match self {
            Payload::WindowsExecutable(p) => p.size,
            Payload::MacOSPackage(p) => p.size,
            Payload::TarballPackage(p) => p.size,
        }
    }

    /// The size of the payload once installed.
    pub fn installed_size(&self) -> (r: u64)
        ensures
            r == payload_installed_size(*self),
    {
        match self {
            Payload::WindowsExecutable(p) => p.installed_size,
            Payload::MacOSPackage(p) => p.installed_size,
            Payload::TarballPackage(p) => p.installed_size,
        }
    }

    /// The URL the payload is downloaded from.
    pub fn url(&self) -> (r: &String)
        ensures
            r == payload_url(*self),
    {
        match self {
            Payload::WindowsExecutable(p) => &p.url,
            Payload::MacOSPackage(p) => &p.url,
            Payload::TarballPackage(p) => &p.url,
        }
    }

    /// Copies the payload.
    pub fn copy(&self) -> (r: Payload)
        ensures
            r == *self,
    {
        match self {
            Payload::WindowsExecutable(p) => Payload::WindowsExecutable(
                WindowsExecutable {
                    url: p.url.clone(),
                    product_code: p.product_code.clone(),
                    kind: opt_string_copy(&p.kind),
                    args: opt_string_copy(&p.args),
                    uninstall_args: opt_string_copy(&p.uninstall_args),
                    requires_reboot: p.requires_reboot,
                    size: p.size,
                    installed_size: p.installed_size,
                },
            ),
            Payload::MacOSPackage(p) => Payload::MacOSPackage(
                MacOSPackage {
                    url: p.url.clone(),
                    pkg_id: p.pkg_id.clone(),
                    requires_reboot: p.requires_reboot,
                    size: p.size,
                    installed_size: p.installed_size,
                },
            ),
            Payload::TarballPackage(p) => Payload::TarballPackage(
                TarballPackage { url: p.url.clone(), size: p.size, installed_size: p.installed_size },
            ),
        }
    }
}

/// The download size of a payload.
pub open spec fn payload_size(p: Payload) -> u64 {
    match p {
        Payload::WindowsExecutable(x) => x.size,
        Payload::MacOSPackage(x) => x.size,
        Payload::TarballPackage(x) => x.size,
    }
}

/// The installed size of a payload.
pub open spec fn payload_installed_size(p: Payload) -> u64 {
    match p {
        Payload::WindowsExecutable(x) => x.installed_size,
        Payload::MacOSPackage(x) => x.installed_size,
        Payload::TarballPackage(x) => x.installed_size,
    }
}

/// The download URL of a payload.
pub open spec fn payload_url(p: Payload) -> String {
    match p {
        Payload::WindowsExecutable(x) => x.url,
        Payload::MacOSPackage(x) => x.url,
        Payload::TarballPackage(x) => x.url,
    }
}

/// The contents of a target, its dependencies as a sequence.
pub struct TargetView {
    pub platform: String,
    pub arch: Option<String>,
    pub dependencies: Seq<(DependencyKey, String)>,
    pub payload: Payload,
}

impl View for Target {
    type V = TargetView;

    open spec fn view(&self) -> TargetView {
        TargetView {
            platform: self.platform,
            arch: self.arch,
            dependencies: self.dependencies@,
            payload: self.payload,
        }
    }
}

/// The contents of a list of targets.
pub open spec fn targets_view(s: Seq<Target>) -> Seq<TargetView> {
    s.map_values(|t: Target| t@)
}

impl Target {
    /// Copies the target.
    pub fn copy(&self) -> (r: Target)
        ensures
            r@ == self@,
    {
        let mut deps: Vec<(DependencyKey, String)> = Vec::new();
        let mut i: usize = 0;
        while i < self.dependencies.len()
            invariant
                0 <= i <= self.dependencies.len(),
                deps@ == self.dependencies@.subrange(0, i as int),
            decreases self.dependencies.len() - i,
        {
            deps.push((self.dependencies[i].0.copy(), self.dependencies[i].1.clone()));
            i = i + 1;
            assert(deps@ == self.dependencies@.subrange(0, i as int));
        }
        assert(deps@ == self.dependencies@);
        Target {
            platform: self.platform.clone(),
            arch: opt_string_copy(&self.arch),
            dependencies: deps,
            payload: self.payload.copy(),
        }
    }
}

/// Copies a list of targets.
pub fn copy_targets(v: &Vec<Target>) -> (r: Vec<Target>)
    ensures
        targets_view(r@) == targets_view(v@),
{
    let mut out: Vec<Target> = Vec::new();
    let mut i: usize = 0;
    while i < v.len()
        invariant
            0 <= i <= v.len(),
            out@.len() == i,
            forall|j: int| 0 <= j < i ==> #[trigger] out@[j]@ == v@[j]@,
        decreases v.len() - i,
    {
        out.push(v[i].copy());
        i = i + 1;
    }
    assert(targets_view(out@) =~= targets_view(v@));
    out
}

/// The contents of a release, its lists as sequences.
pub struct ReleaseView {
    pub version: String,
    pub channel: Option<String>,
    pub authors: Seq<String>,
    pub license: Option<String>,
    pub license_url: Option<String>,
    pub target: Seq<TargetView>,
}

impl View for Release {
    type V = ReleaseView;

    open spec fn view(&self) -> ReleaseView {
        ReleaseView {
            version: self.version,
            channel: self.channel,
            authors: self.authors@,
            license: self.license,
            license_url: self.license_url,
            target: targets_view(self.target@),
        }
    }
}

/// The contents of a list of releases.
pub open spec fn releases_view(s: Seq<Release>) -> Seq<ReleaseView> {
    s.map_values(|r: Release| r@)
}

impl Release {
    /// Copies the release.
    pub fn copy(&self) -> (r: Release)
        ensures
            r@ == self@,
    {
        Release {
            version: self.version.clone(),
            channel: opt_string_copy(&self.channel),
            authors: vec_string_copy(&self.authors),
            license: opt_string_copy(&self.license),
            license_url: opt_string_copy(&self.license_url),
            target: copy_targets(&self.target),
        }
    }
}

/// Copies a list of releases.
pub fn copy_releases(v: &Vec<Release>) -> (r: Vec<Release>)
    ensures
        releases_view(r@) == releases_view(v@),
{
    let mut out: Vec<Release> = Vec::new();
    let mut i: usize = 0;
    while i < v.len()
        invariant
            0 <= i <= v.len(),
            out@.len() == i,
            forall|j: int| 0 <= j < i ==> #[trigger] out@[j]@ == v@[j]@,
        decreases v.len() - i,
    {
        out.push(v[i].copy());
        i = i + 1;
    }
    assert(releases_view(out@) =~= releases_view(v@));
    out
}

/// The contents of a descriptor, its lists as sequences.
pub struct DescriptorView {
    pub id: String,
    pub tags: Seq<String>,
    pub name: Seq<(String, String)>,
    pub description: Seq<(String, String)>,
    pub release: Seq<ReleaseView>,
}

impl View for Descriptor {
    type V = DescriptorView;

    open spec fn view(&self) -> DescriptorView {
        DescriptorView {
            id: self.id,
            tags: self.tags@,
            name: self.name@,
            description: self.description@,
            release: releases_view(self.release@),
        }
    }
}

impl Descriptor {
    /// Copies the descriptor.
    pub fn copy(&self) -> (r: Descriptor)
        ensures
            r@ == self@,
    {
        Descriptor {
            id: self.id.clone(),
            tags: vec_string_copy(&self.tags),
            name: copy_string_pairs(&self.name),
            description: copy_string_pairs(&self.description),
            release: copy_releases(&self.release),
        }
    }
}

/// Why no payload could be found for a package.
pub use crate::transaction::PayloadError;

/// What a release query asks for: a platform, an architecture, accepted
/// channels, version constraints and payload kinds.
#[derive(Debug, Clone)]
pub struct ReleaseQuery {
    pub platform: String,
    pub arch: Option<String>,
    pub channels: Vec<String>,
    pub versions: Vec<VersionQuery>,
    pub payloads: Vec<String>,
}

/// The values a query falls back on where a package key leaves them open:
/// the platform and architecture of this build, and the payload kinds it installs.
#[derive(Debug, Clone)]
pub struct QueryDefaults {
    pub platform: String,
    pub arch: Option<String>,
    pub payloads: Vec<String>,
}

/// The contents of a release query.
pub struct ReleaseQueryView {
    pub platform: Seq<char>,
    pub arch: Option<Seq<char>>,
    pub channels: Seq<Seq<char>>,
    pub versions: Seq<VersionQuery>,
    pub payloads: Seq<Seq<char>>,
}

impl View for ReleaseQuery {
    type V = ReleaseQueryView;

    open spec fn view(&self) -> ReleaseQueryView {
        ReleaseQueryView {
            platform: self.platform@,
            arch: opt_view(self.arch),
            channels: strings_view(self.channels@),
            versions: self.versions@,
            payloads: strings_view(self.payloads@),
        }
    }
}

/// What a query selects releases by: platform, architecture and channels.
pub struct Selection {
    pub platform: Seq<char>,
    pub arch: Option<Seq<char>>,
    pub channels: Seq<Seq<char>>,
}

impl ReleaseQuery {
    /// The part of the query that selects releases.
    pub open spec fn selection(&self) -> Selection {
        Selection { platform: self.platform@, arch: opt_view(self.arch), channels: strings_view(self.channels@) }
    }
}

/// Whether a target is built for the queried platform and architecture: a
/// queried architecture accepts targets for that architecture and targets
/// for none; a query without one accepts only targets for none.
pub open spec fn target_accepted(q: Selection, t: TargetView) -> bool {
    &&& t.platform@ == q.platform
    &&& match q.arch {
        Some(a) => match t.arch {
            Some(ta) => ta@ == a,
            None => true,
        },
        None => t.arch is None,
    }
}

/// Whether a release's channel is accepted: releases on no channel always
/// are, releases on a channel only when the query lists it.
pub open spec fn channel_accepted(q: Selection, r: ReleaseView) -> bool {
    match r.channel {
        Some(c) => q.channels.contains(c@),
        None => true,
    }
}

/// Whether a release has an accepted target.
pub open spec fn has_accepted_target(q: Selection, r: ReleaseView) -> bool {
    exists|k: int| 0 <= k < r.target.len() && target_accepted(q, #[trigger] r.target[k])
}

/// Whether a release answers the query: its channel is accepted and one of
/// its targets is.
pub open spec fn release_yields(q: Selection, r: ReleaseView) -> bool {
    channel_accepted(q, r) && has_accepted_target(q, r)
}

/// A release on no channel answers every query whose platform and
/// architecture one of its targets matches, whatever channels the query
/// lists; a release on a channel the query does not list answers none.
pub proof fn lemma_channel_acceptance(q: Selection, r: ReleaseView)
    ensures
        r.channel is None ==> (release_yields(q, r) <==> exists|j: int|
            0 <= j < r.target.len() && #[trigger] target_accepted(q, r.target[j])),
        r.channel matches Some(c) && !q.channels.contains(c@) ==> !release_yields(q, r),
        r.channel matches Some(c) && q.channels.contains(c@) ==> (release_yields(q, r) <==> exists|j: int|
            0 <= j < r.target.len() && #[trigger] target_accepted(q, r.target[j])),
{
}

/// Whether `k` is the first accepted target of a release.
pub open spec fn first_accepted_target(q: Selection, r: ReleaseView, k: int) -> bool {
    &&& 0 <= k < r.target.len()
    &&& target_accepted(q, r.target[k])
    &&& forall|j: int| 0 <= j < k ==> !target_accepted(q, #[trigger] r.target[j])
}

/// Whether `i` is the first release of a descriptor that answers the query.
pub open spec fn first_yielding_release(q: Selection, d: DescriptorView, i: int) -> bool {
    &&& 0 <= i < d.release.len()
    &&& release_yields(q, d.release[i])
    &&& forall|j: int| 0 <= j < i ==> !release_yields(q, #[trigger] d.release[j])
}

/// The answer of a query on a descriptor: the positions of the first release
/// that answers it and of that release's first accepted target.
pub open spec fn query_response(q: Selection, d: DescriptorView) -> Option<(int, int)> {
    if exists|i: int| first_yielding_release(q, d, i) {
        let i = choose|i: int| first_yielding_release(q, d, i);
        let k = choose|k: int| first_accepted_target(q, d.release[i], k);
        Some((i, k))
    } else {
        None
    }
}

/// A release and one of its targets that answer a query, by position in the
/// descriptor.
#[derive(Debug, Clone, Copy, PartialEq, Eq, Structural)]
pub struct ReleaseQueryResponse {
    pub release_index: usize,
    pub target_index: usize,
}

/// Walks the releases of a descriptor in order, yielding those that answer a query.
#[derive(Debug, Clone, Copy)]
pub struct ReleaseQueryIter {
    pub next_release: usize,
}

impl ReleaseQuery {
    /// Whether a target is accepted by this query.
    pub fn accepts_target(&self, target: &Target) -> (r: bool)
        ensures
            r == target_accepted(self.selection(), target@),
    {
        if !target.platform.eq(&self.platform) {
            return false;
        }
        match &self.arch {
            Some(arch) => match &target.arch {
                Some(target_arch) => target_arch.eq(arch),
                None => true,
            },
            None => target.arch.is_none(),
        }
    }

    /// Whether a release's channel is accepted by this query.
    pub fn accepts_channel(&self, release: &Release) -> (r: bool)
        ensures
            r == channel_accepted(self.selection(), release@),
    {
        match &release.channel {
            Some(channel) => {
                let r = vec_contains_str(&self.channels, channel);
                proof {
                    let sv = strings_view(self.channels@);
                    if r {
                        let i = choose|i: int|
                            0 <= i < self.channels@.len() && #[trigger] self.channels@[i]@ == channel@;
                        assert(sv[i] == channel@);
                    } else if sv.contains(channel@) {
                        let i = choose|i: int| 0 <= i < sv.len() && sv[i] == channel@;
                        assert(self.channels@[i]@ == channel@);
                    }
                }
                r
            },
            None => true,
        }
    }

    /// The first target of a release that this query accepts.
    pub fn next_payload(&self, release: &Release) -> (r: Option<usize>)
        ensures
            match r {
                Some(k) => first_accepted_target(self.selection(), release@, k as int),
                None => !has_accepted_target(self.selection(), release@),
            },
    {
        let mut k: usize = 0;
        while k < release.target.len()
            invariant
                0 <= k <= release.target.len(),
                forall|j: int| 0 <= j < k ==> !target_accepted(self.selection(), #[trigger] release@.target[j]),
            decreases release.target.len() - k,
        {
            if self.accepts_target(&release.target[k]) {
                assert(release@.target[k as int] == release.target@[k as int]@);
                return Some(k);
            }
            assert(release@.target[k as int] == release.target@[k as int]@);
            k = k + 1;
        }
        None
    }

    /// An iterator over the releases of a descriptor, starting at the first.
    pub fn iter(&self) -> (r: ReleaseQueryIter)
        ensures
            r.next_release == 0,
    {
        ReleaseQueryIter { next_release: 0 }
    }

    /// The first release, and its first target, that answer this query.
    pub fn first_match(&self, descriptor: &Descriptor) -> (r: Option<ReleaseQueryResponse>)
        ensures
            match r {
                Some(resp) => {
                    &&& query_response(self.selection(), descriptor@) == Some(
                        (resp.release_index as int, resp.target_index as int),
                    )
                    &&& resp.release_index < descriptor@.release.len()
                    &&& resp.target_index < descriptor@.release[resp.release_index as int].target.len()
                },
                None => query_response(self.selection(), descriptor@) is None,
            },
    {
        let mut it = self.iter();
        let r = it.next(self, descriptor);
        proof {
            let q = self.selection();
            let d = descriptor@;
            match r {
                Some(resp) => {
                    let ri = resp.release_index as int;
                    let ti = resp.target_index as int;
                    assert(first_yielding_release(q, d, ri));
                    let i = choose|i: int| first_yielding_release(q, d, i);
                    if i < ri {
                        assert(!release_yields(q, d.release[i]));
                    }
                    if ri < i {
                        assert(!release_yields(q, d.release[ri]));
                    }
                    let k = choose|k: int| first_accepted_target(q, d.release[i], k);
                    if k < ti {
                        assert(!target_accepted(q, d.release[ri].target[k]));
                    }
                    if ti < k {
                        assert(!target_accepted(q, d.release[ri].target[ti]));
                    }
                },
                None => {
                    if exists|i: int| first_yielding_release(q, d, i) {
                        let i = choose|i: int| first_yielding_release(q, d, i);
                        assert(!release_yields(q, d.release[i]));
                    }
                },
            }
        }
        r
    }
}

impl ReleaseQueryIter {
    /// The next release, from the current position on, that answers the
    /// query, with its first accepted target; the position moves past it.
    pub fn next(&mut self, query: &ReleaseQuery, descriptor: &Descriptor) -> (r: Option<
        ReleaseQueryResponse,
    >)
        ensures
            match r {
                Some(resp) => {
                    &&& old(self).next_release <= resp.release_index < descriptor@.release.len()
                    &&& release_yields(query.selection(), descriptor@.release[resp.release_index as int])
                    &&& first_accepted_target(
                        query.selection(),
                        descriptor@.release[resp.release_index as int],
                        resp.target_index as int,
                    )
                    &&& forall|j: int|
                        old(self).next_release <= j < resp.release_index ==> !release_yields(
                            query.selection(),
                            #[trigger] descriptor@.release[j],
                        )
                    &&& final(self).next_release == resp.release_index + 1
                },
                None => {
                    &&& forall|j: int|
                        old(self).next_release <= j < descriptor@.release.len() ==> !release_yields(
                            query.selection(),
                            #[trigger] descriptor@.release[j],
                        )
                    &&& final(self).next_release == if old(self).next_release
                        < descriptor@.release.len() {
                        descriptor@.release.len() as usize
                    } else {
                        old(self).next_release
                    }
                },
            },
    {
        let ghost start = self.next_release;
        while self.next_release < descriptor.release.len()
            invariant
                start == old(self).next_release,
                start <= self.next_release,
                start < descriptor.release.len() ==> self.next_release <= descriptor.release.len(),
                start >= descriptor.release.len() ==> self.next_release == start,
                forall|j: int|
                    start <= j < self.next_release ==> !release_yields(
                        query.selection(),
                        #[trigger] descriptor@.release[j],
                    ),
            decreases descriptor.release.len() - self.next_release,
        {
            let i = self.next_release;
            let release = &descriptor.release[i];
            assert(descriptor@.release[i as int] == release@);
            if !query.accepts_channel(release) {
                self.next_release = i + 1;
                continue;
            }
            match query.next_payload(release) {
                Some(k) => {
                    self.next_release = i + 1;
                    assert(target_accepted(query.selection(), descriptor@.release[i as int].target[k as int]));
                    assert(release_yields(query.selection(), descriptor@.release[i as int]));
                    return Some(ReleaseQueryResponse { release_index: i, target_index: k });
                },
                None => {
                    self.next_release = i + 1;
                },
            }
        }
        None
    }
}

/// The channels a query for a key accepts: the key's own channel; failing
/// that, the channel its repository was loaded for; failing that, none.
pub open spec fn key_channels(k: KeyView, repos: Seq<RepositoryView>) -> Seq<Seq<char>> {
    match k.2.0 {
        Some(c) => seq![c],
        None => match repo_index(repos, k.0, 0) {
            Some(i) => match repos[i].channel {
                Some(c) => seq![c],
                None => Seq::empty(),
            },
            None => Seq::empty(),
        },
    }
}

/// What the query for a key selects releases by.
pub open spec fn key_selection(k: KeyView, repos: Seq<RepositoryView>, defaults: QueryDefaults) -> Selection {
    Selection {
        platform: match k.2.1 {
            Some(p) => p,
            None => defaults.platform@,
        },
        arch: match k.2.3 {
            Some(a) => Some(a),
            None => opt_view(defaults.arch),
        },
        channels: key_channels(k, repos),
    }
}

/// The descriptor a repository list holds for a repository URL and a package
/// identifier: the first repository with the URL, and in it the first entry
/// with the identifier.
pub open spec fn package_lookup(repos: Seq<RepositoryView>, url: Seq<char>, id: Seq<char>) -> Option<
    Descriptor,
> {
    match repo_index(repos, url, 0) {
        Some(i) => map_get(repos[i].packages, id),
        None => None,
    }
}

/// The first repository, from `start` on, whose index holds a package identifier.
pub open spec fn repo_with_package(repos: Seq<RepositoryView>, id: Seq<char>, start: int) -> Option<int>
    decreases repos.len() - start,
{
    if 0 <= start < repos.len() {
        if key_index(repos[start].packages.0, id, 0) is Some {
            Some(start)
        } else {
            repo_with_package(repos, id, start + 1)
        }
    } else {
        None
    }
}

/// The key and descriptor a package identifier finds: an identifier that
/// reads as a package key is looked up by that key; any other is looked for
/// in each repository in turn, and keyed by the first repository holding it.
pub open spec fn package_by_id(id: Seq<char>, repos: Seq<RepositoryView>) -> Option<(KeyView, DescriptorView)> {
    match key_from_text(id) {
        Ok(k) => match package_lookup(repos, k.0, k.1) {
            Some(d) => Some((k, d@)),
            None => None,
        },
        Err(_) => match repo_with_package(repos, id, 0) {
            Some(i) => Some(
                (
                    (repos[i].url, id, (None, None, None, None)),
                    map_get(repos[i].packages, id)->Some_0@,
                ),
            ),
            None => None,
        },
    }
}

/// The contents of an optional descriptor.
pub open spec fn opt_descriptor_view(d: Option<Descriptor>) -> Option<DescriptorView> {
    match d {
        Some(x) => Some(x@),
        None => None,
    }
}

/// What resolving a payload gives: the package's descriptor, then the first
/// release and target the query selects in it.
pub open spec fn payload_resolution(q: Selection, repos: Seq<RepositoryView>, k: KeyView) -> Result<
    (TargetView, ReleaseView, DescriptorView),
    PayloadError,
> {
    match package_lookup(repos, k.0, k.1) {
        None => Err(PayloadError::NoPackage),
        Some(d) => match query_response(q, d@) {
            Some((i, j)) => Ok((d@.release[i].target[j], d@.release[i], d@)),
            None => Err(PayloadError::NoPayloadFound),
        },
    }
}

/// The contents of a resolved payload.
pub open spec fn resolution_view(r: Result<(Target, Release, Descriptor), PayloadError>) -> Result<
    (TargetView, ReleaseView, DescriptorView),
    PayloadError,
> {
    match r {
        Ok((t, rel, d)) => Ok((t@, rel@, d@)),
        Err(e) => Err(e),
    }
}

impl ReleaseQuery {
    /// The query for a package key: its parameters where it has them, the
    /// channel its repository was loaded for, and the defaults otherwise. A
    /// version parameter is matched literally.
    pub fn new(key: &PackageKey, repos: &Vec<LoadedRepository>, defaults: &QueryDefaults) -> (r: ReleaseQuery)
        ensures
            r.platform@ == match key@.2.1 {
                Some(p) => p,
                None => defaults.platform@,
            },
            opt_view(r.arch) == match key@.2.3 {
                Some(a) => Some(a),
                None => opt_view(defaults.arch),
            },
            strings_view(r.channels@) == key_channels(key@, repos_view(repos@)),
            r.versions@.len() == if key@.2.2 is Some { 1int } else { 0int },
            key@.2.2 matches Some(v) ==> r.versions@[0] matches VersionQuery::Match(s) && s@ == v,
            strings_view(r.payloads@) == strings_view(defaults.payloads@),
            r.selection() == key_selection(key@, repos_view(repos@), *defaults),
    {
        let mut channels: Vec<String> = Vec::new();
        match &key.query.channel {
            Some(c) => channels.push(c.clone()),
            None => match find_repo(repos, &key.repository_url) {
                Some(i) => {
                    proof {
                        lemma_repo_index(repos_view(repos@), key@.0, 0);
                    }
                    proof {
                        assert(repos_view(repos@)[i as int] == repos@[i as int]@);
                    }
                    match &repos[i].meta().channel {
                        Some(c) => channels.push(c.clone()),
                        None => {},
                    }
                },
                None => {},
            },
        }
        proof {
            assert(strings_view(channels@) =~= key_channels(key@, repos_view(repos@)));
        }
        let platform = match &key.query.platform {
            Some(p) => p.clone(),
            None => defaults.platform.clone(),
        };
        let arch = match &key.query.arch {
            Some(a) => Some(a.clone()),
            None => opt_string_copy(&defaults.arch),
        };
        let mut versions: Vec<VersionQuery> = Vec::new();
        match &key.query.version {
            Some(v) => versions.push(VersionQuery::Match(v.clone())),
            None => {},
        }
        ReleaseQuery { platform, arch, channels, versions, payloads: vec_string_copy(&defaults.payloads) }
    }
}

/// The descriptor of the package a key names, from the first repository with
/// the key's URL.
pub fn find_package_by_key(package_key: &PackageKey, repos: &Vec<LoadedRepository>) -> (r: Option<
    Descriptor,
>)
    ensures
        opt_descriptor_view(r) == opt_descriptor_view(
            package_lookup(repos_view(repos@), package_key@.0, package_key@.1),
        ),
{
    let found = find_repo(repos, &package_key.repository_url);
    proof {
        lemma_repo_index(repos_view(repos@), package_key@.0, 0);
    }
    match found {
        Some(i) => {
            proof {
                assert(repos_view(repos@)[i as int] == repos@[i as int]@);
            }
            match repos[i].packages().get(&package_key.id) {
                Some(d) => Some(d.copy()),
                None => None,
            }
        },
        None => None,
    }
}

/// The key and descriptor a package identifier finds: an identifier that
/// reads as a package key is looked up by that key; any other is looked for
/// in each repository in turn.
pub fn find_package_by_id(package_id: &str, repos: &Vec<LoadedRepository>) -> (r: Option<
    (PackageKey, Descriptor),
>)
    ensures
        match r {
            Some((k, d)) => package_by_id(package_id@, repos_view(repos@)) == Some((k@, d@)),
            None => package_by_id(package_id@, repos_view(repos@)) is None,
        },
{
    match PackageKey::try_from_str(package_id) {
        Ok(k) => {
            return match find_package_by_key(&k, repos) {
                Some(d) => Some((k, d)),
                None => None,
            };
        },
        Err(_) => {},
    }
    let ghost rv = repos_view(repos@);
    let id = String::from_str(package_id);
    let mut i: usize = 0;
    while i < repos.len()
        invariant
            0 <= i <= repos.len(),
            rv == repos_view(repos@),
            id@ == package_id@,
            key_from_text(package_id@) is Err,
            repo_with_package(rv, package_id@, 0) == repo_with_package(rv, package_id@, i as int),
        decreases repos.len() - i,
    {
        let repo = &repos[i];
        assert(rv[i as int] == repo@);
        match repo.packages().get(&id) {
            Some(d) => {
                let key = PackageKey::unchecked_new(repo.url().copy(), id.clone(), None);
                return Some((key, d.copy()));
            },
            None => {},
        }
        i = i + 1;
    }
    None
}

/// The descriptor of the package a key names.
pub fn resolve_package(package_key: &PackageKey, repos: &Vec<LoadedRepository>) -> (r: Result<
    Descriptor,
    PayloadError,
>)
    ensures
        match r {
            Ok(d) => package_lookup(repos_view(repos@), package_key@.0, package_key@.1) matches Some(
                e,
            ) && d@ == e@,
            Err(e) => package_lookup(repos_view(repos@), package_key@.0, package_key@.1) is None
                && e == PayloadError::NoPackage,
        },
{
    match find_package_by_key(package_key, repos) {
        Some(d) => Ok(d),
        None => Err(PayloadError::NoPackage),
    }
}

/// The target, release and descriptor a query selects for a package key.
pub fn resolve_payload(package_key: &PackageKey, query: &ReleaseQuery, repos: &Vec<LoadedRepository>) -> (r:
    Result<(Target, Release, Descriptor), PayloadError>)
    ensures
        resolution_view(r) == payload_resolution(query.selection(), repos_view(repos@), package_key@),
{
    let descriptor = match resolve_package(package_key, repos) {
        Ok(d) => d,
        Err(e) => return Err(e),
    };
    match query.first_match(&descriptor) {
        Some(resp) => {
            let release = &descriptor.release[resp.release_index];
            let target = &release.target[resp.target_index];
            proof {
                assert(descriptor@.release[resp.release_index as int] == release@);
                assert(release@.target[resp.target_index as int] == target@);
            }
            Ok((target.copy(), release.copy(), descriptor.copy()))
        },
        None => Err(PayloadError::NoPayloadFound),
    }
}

/// The answers a query gives on a descriptor from release `from` on, in
/// order: each release that answers it with its first accepted target.
pub open spec fn query_responses(q: Selection, d: DescriptorView, from: int) -> Seq<(int, int)>
    decreases d.release.len() - from,
{
    if 0 <= from < d.release.len() {
        let rest = query_responses(q, d, from + 1);
        if release_yields(q, d.release[from]) {
            let k = choose|k: int| first_accepted_target(q, d.release[from], k);
            seq![(from, k)] + rest
        } else {
            rest
        }
    } else {
        Seq::empty()
    }
}

impl ReleaseQuery {
    /// Every answer of the query on a descriptor, in release order.
    pub fn all_matches(&self, descriptor: &Descriptor) -> (r: Vec<ReleaseQueryResponse>)
        ensures
            r@.map_values(|x: ReleaseQueryResponse| (x.release_index as int, x.target_index as int))
                == query_responses(self.selection(), descriptor@, 0),
            forall|i: int|
                0 <= i < r@.len() ==> (#[trigger] r@[i]).release_index < descriptor@.release.len()
                    && r@[i].target_index < descriptor@.release[r@[i].release_index as int].target.len(),
    {
        let ghost q = self.selection();
        let ghost d = descriptor@;
        let mut out: Vec<ReleaseQueryResponse> = Vec::new();
        let mut it = self.iter();
        let n = descriptor.release.len();
        proof {
            assert(out@.map_values(|x: ReleaseQueryResponse| (x.release_index as int, x.target_index as int))
                =~= Seq::<(int, int)>::empty());
        }
        while it.next_release < n
            invariant
                it.next_release <= n,
                n == d.release.len(),
                q == self.selection(),
                d == descriptor@,
                query_responses(q, d, 0) == out@.map_values(
                    |x: ReleaseQueryResponse| (x.release_index as int, x.target_index as int),
                ) + query_responses(q, d, it.next_release as int),
                forall|i: int|
                    0 <= i < out@.len() ==> (#[trigger] out@[i]).release_index < d.release.len()
                        && out@[i].target_index < d.release[out@[i].release_index as int].target.len(),
            decreases n - it.next_release,
        {
            let ghost start = it.next_release as int;
            let ghost before = out@.map_values(|x: ReleaseQueryResponse| (x.release_index as int, x.target_index as int));
            let r = it.next(self, descriptor);
            proof {
                lemma_query_responses_skip(q, d, start, match r {
                    Some(resp) => resp.release_index as int,
                    None => n as int,
                });
            }
            match r {
                Some(resp) => {
                    out.push(resp);
                    proof {
                        let i = resp.release_index as int;
                        let k = choose|k: int| first_accepted_target(q, d.release[i], k);
                        let t = resp.target_index as int;
                        if k < t {
                            assert(!target_accepted(q, d.release[i].target[k]));
                        }
                        if t < k {
                            assert(!target_accepted(q, d.release[i].target[t]));
                        }
                        assert(query_responses(q, d, i) == seq![(i, t)] + query_responses(q, d, i + 1));
                        assert(out@.map_values(|x: ReleaseQueryResponse| (x.release_index as int, x.target_index as int))
                            =~= before.push((i, t)));
                    }
                },
                None => {},
            }
        }
        proof {
            assert(query_responses(q, d, it.next_release as int) =~= Seq::<(int, int)>::empty());
        }
        out
    }
}

/// Releases that do not answer a query add no answers.
proof fn lemma_query_responses_skip(q: Selection, d: DescriptorView, from: int, to: int)
    requires
        0 <= from <= to <= d.release.len(),
        forall|j: int| from <= j < to ==> !release_yields(q, #[trigger] d.release[j]),
    ensures
        query_responses(q, d, from) == query_responses(q, d, to),
    decreases to - from,
{
    if from < to {
        lemma_query_responses_skip(q, d, from + 1, to);
    }
}

} // verus!
