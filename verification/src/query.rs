use vstd::prelude::*;

use crate::package_key::{KeyView, PackageKey};
use crate::repo::{
    copy_string_pairs, payload_installed_size, payload_size, query_response, key_selection, Descriptor, Payload,
    DescriptorView, QueryDefaults, Release, ReleaseQuery, ReleaseView, Selection, Target, TargetView,
};
use crate::repository::{repos_view, LoadedRepository, RepositoryView};
use crate::strings::{opt_string_copy, vec_contains_str, vec_string_copy};
use crate::transaction::{
    query_status, settle_status, settled_status, PackageStatus, PackageStatusError,
};
use crate::url::strings_view;

verus! {

/// A query for packages: by keys, by tags, on a channel. Only tags are
/// looked at when resolving it.
#[derive(Debug)]
pub struct PackageQuery {
    pub keys: Option<Vec<PackageKey>>,
    pub tags: Option<Vec<String>>,
    pub channel: Option<String>,
}

/// The release a query settled on, with the one target chosen.
#[derive(Debug)]
pub struct ResolvedRelease {
    pub version: String,
    pub channel: Option<String>,
    pub authors: Vec<String>,
    pub license: Option<String>,
    pub license_url: Option<String>,
    pub target: Target,
}

/// The contents of a resolved release.
pub struct ResolvedReleaseView {
    pub version: String,
    pub channel: Option<String>,
    pub authors: Seq<String>,
    pub license: Option<String>,
    pub license_url: Option<String>,
    pub target: TargetView,
}

impl View for ResolvedRelease {
    type V = ResolvedReleaseView;

    open spec fn view(&self) -> ResolvedReleaseView {
        ResolvedReleaseView {
            version: self.version,
            channel: self.channel,
            authors: self.authors@,
            license: self.license,
            license_url: self.license_url,
            target: self.target@,
        }
    }
}

/// A release with one chosen target.
pub open spec fn resolved_release(r: ReleaseView, t: TargetView) -> ResolvedReleaseView {
    ResolvedReleaseView {
        version: r.version,
        channel: r.channel,
        authors: r.authors,
        license: r.license,
        license_url: r.license_url,
        target: t,
    }
}

impl ResolvedRelease {
    /// A release with one chosen target.
    pub fn new(release: &Release, target: &Target) -> (r: ResolvedRelease)
        ensures
            r@ == resolved_release(release@, target@),
    {
        ResolvedRelease {
            version: release.version.clone(),
            channel: opt_string_copy(&release.channel),
            authors: vec_string_copy(&release.authors),
            license: opt_string_copy(&release.license),
            license_url: opt_string_copy(&release.license_url),
            target: target.copy(),
        }
    }
}

/// A package a query found, with its status and the release chosen for it.
#[derive(Debug)]
pub struct ResolvedDescriptor {
    pub key: PackageKey,
    pub status: PackageStatus,
    pub tags: Vec<String>,
    pub name: Vec<(String, String)>,
    pub description: Vec<(String, String)>,
    pub release: ResolvedRelease,
}

/// The contents of a resolved descriptor.
pub struct ResolvedDescriptorView {
    pub key: KeyView,
    pub status: PackageStatus,
    pub tags: Seq<String>,
    pub name: Seq<(String, String)>,
    pub description: Seq<(String, String)>,
    pub release: ResolvedReleaseView,
}

impl View for ResolvedDescriptor {
    type V = ResolvedDescriptorView;

    open spec fn view(&self) -> ResolvedDescriptorView {
        ResolvedDescriptorView {
            key: self.key@,
            status: self.status,
            tags: self.tags@,
            name: self.name@,
            description: self.description@,
            release: self.release@,
        }
    }
}

/// The contents of a list of resolved descriptors.
pub open spec fn resolved_view(s: Seq<ResolvedDescriptor>) -> Seq<ResolvedDescriptorView> {
    s.map_values(|d: ResolvedDescriptor| d@)
}

/// What a package query resolved to: the packages, their total download and
/// installed sizes, and the summary of their statuses.
#[derive(Debug)]
pub struct ResolvedPackageQuery {
    pub descriptors: Vec<ResolvedDescriptor>,
    pub size: u64,
    pub installed_size: u64,
    pub status: PackageStatus,
}

/// Whether any of a package's tags is among the queried tags.
pub open spec fn has_queried_tag(package_tags: Seq<String>, tags: Seq<Seq<char>>) -> bool {
    exists|i: int| 0 <= i < package_tags.len() && tags.contains(#[trigger] package_tags[i]@)
}

/// Whether any of a package's tags is among the queried tags.
pub fn matches_tags(package_tags: &Vec<String>, tags: &Vec<String>) -> (r: bool)
    ensures
        r == has_queried_tag(package_tags@, strings_view(tags@)),
{
    let ghost tv = strings_view(tags@);
    let mut i: usize = 0;
    while i < package_tags.len()
        invariant
            0 <= i <= package_tags.len(),
            tv == strings_view(tags@),
            forall|k: int| 0 <= k < i ==> !tv.contains(#[trigger] package_tags@[k]@),
        decreases package_tags.len() - i,
    {
        let hit = vec_contains_str(tags, &package_tags[i]);
        proof {
            if hit {
                let j = choose|j: int| 0 <= j < tags@.len() && #[trigger] tags@[j]@ == package_tags@[i as int]@;
                assert(tv[j] == package_tags@[i as int]@);
            } else if tv.contains(package_tags@[i as int]@) {
                let j = choose|j: int| 0 <= j < tv.len() && tv[j] == package_tags@[i as int]@;
                assert(tags@[j]@ == package_tags@[i as int]@);
            }
        }
        if hit {
            return true;
        }
        i = i + 1;
    }
    false
}

/// The positions of the packages with a queried tag among the first `n`
/// entries of a package index, in order.
pub open spec fn tagged_in(values: Seq<Descriptor>, n: int, tags: Seq<Seq<char>>) -> Seq<int>
    decreases n,
{
    if n <= 0 {
        Seq::empty()
    } else if has_queried_tag(values[n - 1].tags@, tags) {
        tagged_in(values, n - 1, tags).push(n - 1)
    } else {
        tagged_in(values, n - 1, tags)
    }
}

/// The packages with a queried tag in the first `n` repositories, as
/// positions of repository and index entry, repository by repository.
pub open spec fn tagged_positions(repos: Seq<RepositoryView>, n: int, tags: Seq<Seq<char>>) -> Seq<(int, int)>
    decreases n,
{
    if n <= 0 {
        Seq::empty()
    } else {
        let r = repos[n - 1];
        tagged_positions(repos, n - 1, tags) + tagged_in(r.packages.1, r.packages.0.len() as int, tags).map_values(
            |p: int| (n - 1, p),
        )
    }
}

/// The packages of the repositories with a queried tag, as positions of
/// repository and index entry, repository by repository.
pub fn tagged_packages(repos: &Vec<LoadedRepository>, tags: &Vec<String>) -> (r: Vec<(usize, usize)>)
    ensures
        r@.map_values(|p: (usize, usize)| (p.0 as int, p.1 as int)) == tagged_positions(
            repos_view(repos@),
            repos@.len() as int,
            strings_view(tags@),
        ),
{
    let ghost rv = repos_view(repos@);
    let ghost tv = strings_view(tags@);
    let mut out: Vec<(usize, usize)> = Vec::new();
    let mut i: usize = 0;
    while i < repos.len()
        invariant
            0 <= i <= repos.len(),
            rv == repos_view(repos@),
            tv == strings_view(tags@),
            out@.map_values(|p: (usize, usize)| (p.0 as int, p.1 as int)) == tagged_positions(rv, i as int, tv),
        decreases repos.len() - i,
    {
        let packages = repos[i].packages();
        assert(rv[i as int] == repos@[i as int]@);
        let ghost values = packages@.1;
        let ghost before = out@;
        let n = packages.len();
        let mut k: usize = 0;
        while k < n
            invariant
                0 <= k <= n,
                n == packages@.0.len(),
                packages@.0.len() <= packages@.1.len(),
                values == packages@.1,
                tv == strings_view(tags@),
                out@.map_values(|p: (usize, usize)| (p.0 as int, p.1 as int)) == before.map_values(
                    |p: (usize, usize)| (p.0 as int, p.1 as int),
                ) + tagged_in(values, k as int, tv).map_values(|p: int| (i as int, p)),
            decreases n - k,
        {
            let d = packages.value(k).unwrap();
            let ghost prev = out@;
            if matches_tags(&d.tags, tags) {
                out.push((i, k));
                proof {
                    assert(tagged_in(values, k + 1, tv) =~= tagged_in(values, k as int, tv).push(k as int));
                    assert(out@.map_values(|p: (usize, usize)| (p.0 as int, p.1 as int)) =~= prev.map_values(
                        |p: (usize, usize)| (p.0 as int, p.1 as int),
                    ).push((i as int, k as int)));
                    assert(tagged_in(values, k + 1, tv).map_values(|p: int| (i as int, p)) =~= tagged_in(
                        values,
                        k as int,
                        tv,
                    ).map_values(|p: int| (i as int, p)).push((i as int, k as int)));
                }
            } else {
                proof {
                    assert(tagged_in(values, k + 1, tv) =~= tagged_in(values, k as int, tv));
                }
            }
            k = k + 1;
        }
        proof {
            assert(rv[i as int].packages == packages@);
            assert(tagged_positions(rv, i + 1, tv) =~= tagged_positions(rv, i as int, tv) + tagged_in(
                values,
                n as int,
                tv,
            ).map_values(|p: int| (i as int, p)));
            assert(out@.map_values(|p: (usize, usize)| (p.0 as int, p.1 as int)) =~= tagged_positions(
                rv,
                i + 1,
                tv,
            ));
        }
        i = i + 1;
    }
    out
}

/// The status a package query reports for a package: the settled status
/// over the install targets, where it is not an error.
pub open spec fn settled_ok(statuses: Seq<Result<PackageStatus, PackageStatusError>>) -> Option<PackageStatus> {
    match settled_status(statuses) {
        Some(Ok(s)) => Some(s),
        _ => None,
    }
}

/// What a package found by a query resolves to: nothing where its status is
/// unknown or the query for its key selects no release; otherwise the
/// package with its status and the release and target selected.
pub open spec fn descriptor_resolution(
    k: KeyView,
    d: DescriptorView,
    statuses: Seq<Result<PackageStatus, PackageStatusError>>,
    q: Selection,
) -> Option<ResolvedDescriptorView> {
    match settled_ok(statuses) {
        None => None,
        Some(status) => match query_response(q, d) {
            None => None,
            Some((i, j)) => Some(
                ResolvedDescriptorView {
                    key: k,
                    status,
                    tags: d.tags,
                    name: d.name,
                    description: d.description,
                    release: resolved_release(d.release[i], d.release[i].target[j]),
                },
            ),
        },
    }
}

/// The contents of an optional resolved descriptor.
pub open spec fn opt_resolved_view(d: Option<ResolvedDescriptor>) -> Option<ResolvedDescriptorView> {
    match d {
        Some(x) => Some(x@),
        None => None,
    }
}

/// Resolves a package a query found, from its status under each install target.
pub fn resolve_descriptor(
    key: PackageKey,
    descriptor: &Descriptor,
    statuses: Vec<Result<PackageStatus, PackageStatusError>>,
    repos: &Vec<LoadedRepository>,
    defaults: &QueryDefaults,
) -> (r: Option<ResolvedDescriptor>)
    ensures
        opt_resolved_view(r) == descriptor_resolution(
            key@,
            descriptor@,
            statuses@,
            key_selection(key@, repos_view(repos@), *defaults),
        ),
{
    let status = match settle_status(statuses) {
        Some(Ok(s)) => s,
        _ => {
            return None;
        },
    };
    let query = ReleaseQuery::new(&key, repos, defaults);
    match query.first_match(descriptor) {
        None => None,
        Some(resp) => {
            let release = &descriptor.release[resp.release_index];
            let target = &release.target[resp.target_index];
            proof {
                assert(descriptor@.release[resp.release_index as int] == release@);
                assert(release@.target[resp.target_index as int] == target@);
            }
            Some(
                ResolvedDescriptor {
                    key,
                    status,
                    tags: vec_string_copy(&descriptor.tags),
                    name: copy_string_pairs(&descriptor.name),
                    description: copy_string_pairs(&descriptor.description),
                    release: ResolvedRelease::new(release, target),
                },
            )
        },
    }
}

/// The key of the package at a position of a repository's index.
pub open spec fn position_key(repos: Seq<RepositoryView>, p: (int, int)) -> KeyView {
    (repos[p.0].url, repos[p.0].packages.1[p.1].id@, (None, None, None, None))
}

/// The packages a tag query resolves to, from the positions of the tagged
/// packages and each one's status results, in order.
pub open spec fn query_descriptors(
    positions: Seq<(int, int)>,
    statuses: Seq<Seq<Result<PackageStatus, PackageStatusError>>>,
    repos: Seq<RepositoryView>,
    defaults: QueryDefaults,
) -> Seq<ResolvedDescriptorView>
    decreases positions.len(),
{
    if positions.len() == 0 {
        Seq::empty()
    } else {
        let n = positions.len() - 1;
        let prev = query_descriptors(positions.drop_last(), statuses.take(n), repos, defaults);
        let p = positions.last();
        let k = position_key(repos, p);
        match descriptor_resolution(
            k,
            repos[p.0].packages.1[p.1]@,
            statuses[n],
            key_selection(k, repos, defaults),
        ) {
            Some(x) => prev.push(x),
            None => prev,
        }
    }
}

/// The total download size of resolved packages.
pub open spec fn total_size(ds: Seq<ResolvedDescriptorView>) -> int
    decreases ds.len(),
{
    if ds.len() == 0 {
        0
    } else {
        total_size(ds.drop_last()) + payload_size(ds.last().release.target.payload)
    }
}

/// The total installed size of resolved packages.
pub open spec fn total_installed_size(ds: Seq<ResolvedDescriptorView>) -> int
    decreases ds.len(),
{
    if ds.len() == 0 {
        0
    } else {
        total_installed_size(ds.drop_last()) + payload_installed_size(ds.last().release.target.payload)
    }
}

/// The download size of one resolved package: its selected payload's size field.
proof fn lemma_single_sizes(d: ResolvedDescriptorView)
    ensures
        total_size(seq![d]) == match d.release.target.payload {
            Payload::WindowsExecutable(p) => p.size,
            Payload::MacOSPackage(p) => p.size,
            Payload::TarballPackage(p) => p.size,
        },
        total_installed_size(seq![d]) == match d.release.target.payload {
            Payload::WindowsExecutable(p) => p.installed_size,
            Payload::MacOSPackage(p) => p.installed_size,
            Payload::TarballPackage(p) => p.installed_size,
        },
{
    let one = seq![d];
    assert(one.drop_last() =~= Seq::<ResolvedDescriptorView>::empty());
    assert(one.last() == d);
    assert(total_size(one.drop_last()) == 0);
    assert(total_installed_size(one.drop_last()) == 0);
    assert(total_size(one) == total_size(one.drop_last()) + payload_size(d.release.target.payload));
    assert(total_installed_size(one) == total_installed_size(one.drop_last()) + payload_installed_size(
        d.release.target.payload,
    ));
}

/// The totals of a query add up over its packages: the totals of two lists
/// together are the sums of their totals, and a single package counts its
/// selected payload's download size and installed size fields, whatever
/// kind of payload it is.
pub proof fn lemma_total_sizes(a: Seq<ResolvedDescriptorView>, b: Seq<ResolvedDescriptorView>, d: ResolvedDescriptorView)
    ensures
        total_size(a + b) == total_size(a) + total_size(b),
        total_installed_size(a + b) == total_installed_size(a) + total_installed_size(b),
        total_size(seq![d]) == match d.release.target.payload {
            Payload::WindowsExecutable(p) => p.size,
            Payload::MacOSPackage(p) => p.size,
            Payload::TarballPackage(p) => p.size,
        },
        total_installed_size(seq![d]) == match d.release.target.payload {
            Payload::WindowsExecutable(p) => p.installed_size,
            Payload::MacOSPackage(p) => p.installed_size,
            Payload::TarballPackage(p) => p.installed_size,
        },
    decreases b.len(),
{
    lemma_single_sizes(d);
    if b.len() == 0 {
        assert(a + b =~= a);
    } else {
        lemma_total_sizes(a, b.drop_last(), d);
        assert((a + b).drop_last() =~= a + b.drop_last());
        assert((a + b).last() == b.last());
    }
}

/// The statuses of resolved packages, in order.
pub open spec fn statuses_of(ds: Seq<ResolvedDescriptorView>) -> Seq<PackageStatus> {
    ds.map_values(|d: ResolvedDescriptorView| d.status)
}

/// The tagged packages a query resolves to, from the positions that
/// `tagged_packages` gives and, for each, its status under each install target.
pub fn resolve_tagged(
    positions: &Vec<(usize, usize)>,
    statuses: Vec<Vec<Result<PackageStatus, PackageStatusError>>>,
    repos: &Vec<LoadedRepository>,
    defaults: &QueryDefaults,
) -> (r: Vec<ResolvedDescriptor>)
    requires
        statuses.len() == positions.len(),
        forall|i: int|
            0 <= i < positions.len() ==> (#[trigger] positions@[i]).0 < repos.len()
                && positions@[i].1 < repos@[positions@[i].0 as int]@.packages.0.len(),
    ensures
        resolved_view(r@) == query_descriptors(
            positions@.map_values(|p: (usize, usize)| (p.0 as int, p.1 as int)),
            statuses@.map_values(|v: Vec<Result<PackageStatus, PackageStatusError>>| v@),
            repos_view(repos@),
            *defaults,
        ),
{
    let ghost pv = positions@.map_values(|p: (usize, usize)| (p.0 as int, p.1 as int));
    let ghost all = statuses@.map_values(|v: Vec<Result<PackageStatus, PackageStatusError>>| v@);
    let ghost rv = repos_view(repos@);
    let mut remaining = statuses;
    let mut out: Vec<ResolvedDescriptor> = Vec::new();
    let n = positions.len();
    let mut i: usize = 0;
    proof {
        assert(pv.take(0) =~= Seq::<(int, int)>::empty());
        assert(resolved_view(out@) =~= Seq::<ResolvedDescriptorView>::empty());
    }
    while i < n
        invariant
            0 <= i <= n,
            n == positions.len(),
            pv == positions@.map_values(|p: (usize, usize)| (p.0 as int, p.1 as int)),
            all == statuses@.map_values(|v: Vec<Result<PackageStatus, PackageStatusError>>| v@),
            rv == repos_view(repos@),
            all.len() == n,
            remaining@.len() == n - i,
            forall|j: int| 0 <= j < remaining@.len() ==> #[trigger] remaining@[j]@ == all[i + j],
            forall|j: int|
                0 <= j < positions.len() ==> (#[trigger] positions@[j]).0 < repos.len()
                    && positions@[j].1 < repos@[positions@[j].0 as int]@.packages.0.len(),
            resolved_view(out@) == query_descriptors(pv.take(i as int), all.take(i as int), rv, *defaults),
        decreases n - i,
    {
        let ghost before = remaining@;
        let st = remaining.remove(0);
        let (ri, pi) = positions[i];
        let repo = &repos[ri];
        let packages = repo.packages();
        let descriptor = packages.value(pi).unwrap();
        let key = PackageKey::unchecked_new(repo.url().copy(), descriptor.id.clone(), None);
        proof {
            assert(st@ == all[i as int]);
            assert forall|j: int| 0 <= j < remaining@.len() implies #[trigger] remaining@[j]@ == all[i + 1
                + j] by {
                assert(remaining@[j] == before[j + 1]);
            }
            assert(rv[ri as int] == repos@[ri as int]@);
            assert(pv[i as int] == (ri as int, pi as int));
            assert(pv.take(i + 1).drop_last() =~= pv.take(i as int));
            assert(all.take(i + 1).take(i as int) =~= all.take(i as int));
            assert(all.take(i + 1)[i as int] == all[i as int]);
            assert(key@ == position_key(rv, (ri as int, pi as int)));
        }
        let ghost prev = resolved_view(out@);
        match resolve_descriptor(key, descriptor, st, repos, defaults) {
            Some(d) => {
                let ghost dv = d@;
                out.push(d);
                proof {
                    assert(resolved_view(out@) =~= prev.push(dv));
                }
            },
            None => {},
        }
        i = i + 1;
    }
    proof {
        assert(pv.take(n as int) =~= pv);
        assert(all.take(n as int) =~= all);
    }
    out
}

/// The positions `tagged_in` lists lie within the first `n` entries.
proof fn lemma_tagged_in_bounds(values: Seq<Descriptor>, n: int, tags: Seq<Seq<char>>)
    ensures
        forall|k: int| 0 <= k < tagged_in(values, n, tags).len() ==> 0 <= #[trigger] tagged_in(values, n, tags)[k] < n,
    decreases n,
{
    if n > 0 {
        lemma_tagged_in_bounds(values, n - 1, tags);
        let prev = tagged_in(values, n - 1, tags);
        assert forall|k: int| 0 <= k < tagged_in(values, n, tags).len() implies 0 <= #[trigger] tagged_in(
            values,
            n,
            tags,
        )[k] < n by {
            if k < prev.len() {
                assert(tagged_in(values, n, tags)[k] == prev[k]);
            }
        }
    }
}

/// The positions `tagged_positions` lists name existing index entries of
/// the first `n` repositories.
proof fn lemma_tagged_positions_bounds(repos: Seq<RepositoryView>, n: int, tags: Seq<Seq<char>>)
    requires
        n <= repos.len(),
    ensures
        forall|k: int|
            0 <= k < tagged_positions(repos, n, tags).len() ==> {
                let p = #[trigger] tagged_positions(repos, n, tags)[k];
                0 <= p.0 < n && 0 <= p.1 < repos[p.0].packages.0.len()
            },
    decreases n,
{
    if n > 0 {
        lemma_tagged_positions_bounds(repos, n - 1, tags);
        let r = repos[n - 1];
        lemma_tagged_in_bounds(r.packages.1, r.packages.0.len() as int, tags);
        let prev = tagged_positions(repos, n - 1, tags);
        let here = tagged_in(r.packages.1, r.packages.0.len() as int, tags).map_values(|p: int| (n - 1, p));
        assert forall|k: int| 0 <= k < tagged_positions(repos, n, tags).len() implies {
            let p = #[trigger] tagged_positions(repos, n, tags)[k];
            0 <= p.0 < n && 0 <= p.1 < repos[p.0].packages.0.len()
        } by {
            if k >= prev.len() {
                assert(tagged_positions(repos, n, tags)[k] == here[k - prev.len()]);
            } else {
                assert(tagged_positions(repos, n, tags)[k] == prev[k]);
            }
        }
    }
}

/// The totals of a prefix are at most the totals of the whole.
proof fn lemma_totals_prefix(ds: Seq<ResolvedDescriptorView>, i: int)
    requires
        0 <= i <= ds.len(),
    ensures
        total_size(ds.take(i)) <= total_size(ds),
        total_installed_size(ds.take(i)) <= total_installed_size(ds),
        0 <= total_size(ds.take(i)),
        0 <= total_installed_size(ds.take(i)),
    decreases ds.len(),
{
    if i == ds.len() {
        assert(ds.take(i) =~= ds);
        lemma_totals_nonnegative(ds);
    } else {
        assert(ds.drop_last().take(i) =~= ds.take(i));
        lemma_totals_prefix(ds.drop_last(), i);
    }
}

/// Totals are never negative.
proof fn lemma_totals_nonnegative(ds: Seq<ResolvedDescriptorView>)
    ensures
        0 <= total_size(ds),
        0 <= total_installed_size(ds),
    decreases ds.len(),
{
    if ds.len() > 0 {
        lemma_totals_nonnegative(ds.drop_last());
    }
}

/// Summarizes resolved packages: their total sizes and the summary of their
/// statuses.
pub fn summarize_query(descriptors: Vec<ResolvedDescriptor>) -> (r: ResolvedPackageQuery)
    requires
        total_size(resolved_view(descriptors@)) <= u64::MAX,
        total_installed_size(resolved_view(descriptors@)) <= u64::MAX,
    ensures
        resolved_view(r.descriptors@) == resolved_view(descriptors@),
        r.size == total_size(resolved_view(descriptors@)),
        r.installed_size == total_installed_size(resolved_view(descriptors@)),
        r.status == query_status(statuses_of(resolved_view(descriptors@))),
{
    let ghost dv = resolved_view(descriptors@);
    let mut size: u64 = 0;
    let mut installed_size: u64 = 0;
    let mut statuses: Vec<PackageStatus> = Vec::new();
    let mut i: usize = 0;
    while i < descriptors.len()
        invariant
            0 <= i <= descriptors.len(),
            dv == resolved_view(descriptors@),
            total_size(dv) <= u64::MAX,
            total_installed_size(dv) <= u64::MAX,
            size == total_size(dv.take(i as int)),
            installed_size == total_installed_size(dv.take(i as int)),
            statuses@ == statuses_of(dv.take(i as int)),
        decreases descriptors.len() - i,
    {
        let payload = &descriptors[i].release.target.payload;
        proof {
            assert(dv.take(i + 1).drop_last() =~= dv.take(i as int));
            assert(dv.take(i + 1).last() == descriptors@[i as int]@);
            lemma_totals_prefix(dv, i + 1);
        }
        size = size + payload.size();
        installed_size = installed_size + payload.installed_size();
        statuses.push(descriptors[i].status);
        proof {
            assert(statuses@ =~= statuses_of(dv.take(i + 1)));
        }
        i = i + 1;
    }
    proof {
        assert(dv.take(descriptors@.len() as int) =~= dv);
    }
    let status = crate::transaction::aggregate_query_status(&statuses);
    ResolvedPackageQuery { descriptors, size, installed_size, status }
}

/// The packages a query resolves to: for a tag query, the tagged packages
/// that resolve; for any other query, none.
pub open spec fn package_query_result(
    tags: Option<Seq<Seq<char>>>,
    statuses: Seq<Seq<Result<PackageStatus, PackageStatusError>>>,
    repos: Seq<RepositoryView>,
    defaults: QueryDefaults,
) -> Seq<ResolvedDescriptorView> {
    match tags {
        None => Seq::empty(),
        Some(t) => query_descriptors(tagged_positions(repos, repos.len() as int, t), statuses, repos, defaults),
    }
}

/// The queried tags, by contents.
pub open spec fn query_tags(q: PackageQuery) -> Option<Seq<Seq<char>>> {
    match q.tags {
        Some(t) => Some(strings_view(t@)),
        None => None,
    }
}

/// Resolves a package query; `statuses` holds, for each package that
/// `tagged_packages` lists for the query's tags, its status under each
/// install target.
pub fn resolve_package_query(
    query: &PackageQuery,
    statuses: Vec<Vec<Result<PackageStatus, PackageStatusError>>>,
    repos: &Vec<LoadedRepository>,
    defaults: &QueryDefaults,
) -> (r: ResolvedPackageQuery)
    requires
        query_tags(*query) matches Some(t) ==> statuses.len() == tagged_positions(
            repos_view(repos@),
            repos@.len() as int,
            t,
        ).len(),
        total_size(
            package_query_result(
                query_tags(*query),
                statuses@.map_values(|v: Vec<Result<PackageStatus, PackageStatusError>>| v@),
                repos_view(repos@),
                *defaults,
            ),
        ) <= u64::MAX,
        total_installed_size(
            package_query_result(
                query_tags(*query),
                statuses@.map_values(|v: Vec<Result<PackageStatus, PackageStatusError>>| v@),
                repos_view(repos@),
                *defaults,
            ),
        ) <= u64::MAX,
    ensures
        ({
            let ds = package_query_result(
                query_tags(*query),
                statuses@.map_values(|v: Vec<Result<PackageStatus, PackageStatusError>>| v@),
                repos_view(repos@),
                *defaults,
            );
            &&& resolved_view(r.descriptors@) == ds
            &&& r.size == total_size(ds)
            &&& r.installed_size == total_installed_size(ds)
            &&& r.status == query_status(statuses_of(ds))
        }),
{
    match &query.tags {
        None => {
            let out: Vec<ResolvedDescriptor> = Vec::new();
            proof {
                assert(resolved_view(out@) =~= Seq::<ResolvedDescriptorView>::empty());
            }
            summarize_query(out)
        },
        Some(tags) => {
            let positions = tagged_packages(repos, tags);
            proof {
                let pv = positions@.map_values(|p: (usize, usize)| (p.0 as int, p.1 as int));
                lemma_tagged_positions_bounds(repos_view(repos@), repos@.len() as int, strings_view(tags@));
                assert forall|i: int| 0 <= i < positions@.len() implies (#[trigger] positions@[i]).0 < repos.len()
                    && positions@[i].1 < repos@[positions@[i].0 as int]@.packages.0.len() by {
                    assert(pv[i] == (positions@[i].0 as int, positions@[i].1 as int));
                    assert(repos_view(repos@)[positions@[i].0 as int] == repos@[positions@[i].0 as int]@);
                }
            }
            let found = resolve_tagged(&positions, statuses, repos, defaults);
            summarize_query(found)
        },
    }
}

} // verus!
