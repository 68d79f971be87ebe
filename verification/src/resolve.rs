use vstd::prelude::*;

use crate::package_key::{key_from_text, key_url, KeyView, PackageKey};
use crate::repo::{
    find_package_by_id, package_by_id, payload_resolution, key_selection, resolve_payload,
    DependencyKey, Descriptor, DescriptorView, Payload,
    PayloadError, QueryDefaults, Release, ReleaseQuery, ReleaseView, Selection, Target, TargetView,
};
use crate::repository::{repos_view, LoadedRepository, RepositoryView};
use crate::transaction::{
    settle_status, settled_status, PackageActionType, PackageStatus, PackageStatusError,
};

verus! {

/// A package the resolution of a transaction settled on: what to do to it,
/// the release and target chosen, its status, and whether doing it needs a
/// restart.
#[derive(Debug)]
pub struct PackageCandidate {
    pub package_key: PackageKey,
    pub action: PackageActionType,
    pub descriptor: Descriptor,
    pub release: Release,
    pub target: Target,
    pub status: PackageStatus,
    pub is_reboot_required: bool,
}

/// The contents of a package candidate.
pub struct CandidateView {
    pub key: KeyView,
    pub action: PackageActionType,
    pub descriptor: DescriptorView,
    pub release: ReleaseView,
    pub target: TargetView,
    pub status: PackageStatus,
    pub is_reboot_required: bool,
}

impl View for PackageCandidate {
    type V = CandidateView;

    open spec fn view(&self) -> CandidateView {
        CandidateView {
            key: self.package_key@,
            action: self.action,
            descriptor: self.descriptor@,
            release: self.release@,
            target: self.target@,
            status: self.status,
            is_reboot_required: self.is_reboot_required,
        }
    }
}

/// The contents of a list of candidates.
pub open spec fn candidates_view(s: Seq<PackageCandidate>) -> Seq<CandidateView> {
    s.map_values(|c: PackageCandidate| c@)
}

impl PackageCandidate {
    /// Copies the candidate.
    pub fn copy(&self) -> (r: PackageCandidate)
        ensures
            r@ == self@,
    {
        PackageCandidate {
            package_key: self.package_key.copy(),
            action: self.action,
            descriptor: self.descriptor.copy(),
            release: self.release.copy(),
            target: self.target.copy(),
            status: self.status,
            is_reboot_required: self.is_reboot_required,
        }
    }
}

/// Why a package could not become a candidate of a transaction.
#[derive(Debug)]
pub enum PackageCandidateError {
    Status(PackageKey, PackageStatusError),
    Payload(PackageKey, PayloadError),
    UnresolvedId(String),
    UninstallConflict(PackageKey),
}

/// The contents of a candidate error.
pub enum CandidateErrorView {
    Status(KeyView, PackageStatusError),
    Payload(KeyView, PayloadError),
    UnresolvedId(Seq<char>),
    UninstallConflict(KeyView),
}

impl View for PackageCandidateError {
    type V = CandidateErrorView;

    open spec fn view(&self) -> CandidateErrorView {
        match self {
            PackageCandidateError::Status(k, e) => CandidateErrorView::Status(k@, *e),
            PackageCandidateError::Payload(k, e) => CandidateErrorView::Payload(k@, *e),
            PackageCandidateError::UnresolvedId(s) => CandidateErrorView::UnresolvedId(s@),
            PackageCandidateError::UninstallConflict(k) => CandidateErrorView::UninstallConflict(k@),
        }
    }
}

/// The contents of a candidate result.
pub open spec fn candidate_result_view(r: Result<PackageCandidate, PackageCandidateError>) -> Result<
    CandidateView,
    CandidateErrorView,
> {
    match r {
        Ok(c) => Ok(c@),
        Err(e) => Err(e@),
    }
}

/// Whether carrying out an action on a payload needs a restart, given the
/// package's status: installing a package that is not installed, or updating
/// one, restarts where the payload says so for that; an uninstall restarts
/// where the payload says so for uninstalling and the package is found not
/// installed. Tarballs never need a restart.
pub open spec fn needs_reboot(action: PackageActionType, payload: Payload, status: PackageStatus) -> bool {
    let flags = match payload {
        Payload::WindowsExecutable(p) => Some(p.requires_reboot),
        Payload::MacOSPackage(p) => Some(p.requires_reboot),
        Payload::TarballPackage(_) => None,
    };
    match flags {
        None => false,
        Some(f) => match action {
            PackageActionType::Install => match status {
                PackageStatus::NotInstalled => f.on_install,
                PackageStatus::RequiresUpdate => f.on_update,
                PackageStatus::UpToDate => false,
            },
            PackageActionType::Uninstall => match status {
                PackageStatus::NotInstalled => f.on_uninstall,
                _ => false,
            },
        },
    }
}

/// Whether carrying out an action on a payload needs a restart.
pub fn reboot_required(action: PackageActionType, payload: &Payload, status: PackageStatus) -> (r: bool)
    ensures
        r == needs_reboot(action, *payload, status),
{
    let flags = match payload {
        Payload::WindowsExecutable(p) => p.requires_reboot,
        Payload::MacOSPackage(p) => p.requires_reboot,
        Payload::TarballPackage(_) => {
            return false;
        },
    };
    match action {
        PackageActionType::Install => match status {
            PackageStatus::NotInstalled => flags.on_install,
            PackageStatus::RequiresUpdate => flags.on_update,
            PackageStatus::UpToDate => false,
        },
        PackageActionType::Uninstall => match status {
            PackageStatus::NotInstalled => flags.on_uninstall,
            _ => false,
        },
    }
}

/// What a package becomes for an action, given its status under each
/// install target in turn: no targets leave its identifier unresolved; the
/// settled status, if an error, is the error; otherwise the query for the
/// key selects its release and target.
pub open spec fn candidate_resolution(
    action: PackageActionType,
    k: KeyView,
    statuses: Seq<Result<PackageStatus, PackageStatusError>>,
    q: Selection,
    repos: Seq<RepositoryView>,
) -> Result<CandidateView, CandidateErrorView> {
    match settled_status(statuses) {
        None => Err(CandidateErrorView::UnresolvedId(key_url(k)->Some_0)),
        Some(Err(e)) => Err(CandidateErrorView::Status(k, e)),
        Some(Ok(status)) => match payload_resolution(q, repos, k) {
            Err(e) => Err(CandidateErrorView::Payload(k, e)),
            Ok((t, r, d)) => Ok(
                CandidateView {
                    key: k,
                    action,
                    descriptor: d,
                    release: r,
                    target: t,
                    status,
                    is_reboot_required: needs_reboot(action, t.payload, status),
                },
            ),
        },
    }
}

/// Resolves a package for an action into a candidate, from its status under
/// each install target, in the order the targets were given.
pub fn resolve_package_candidate(
    candidate: &(PackageActionType, PackageKey),
    statuses: Vec<Result<PackageStatus, PackageStatusError>>,
    repos: &Vec<LoadedRepository>,
    defaults: &QueryDefaults,
) -> (r: Result<PackageCandidate, PackageCandidateError>)
    ensures
        candidate_result_view(r) == candidate_resolution(
            candidate.0,
            candidate.1@,
            statuses@,
            key_selection(candidate.1@, repos_view(repos@), *defaults),
            repos_view(repos@),
        ),
{
    let package_key = &candidate.1;
    let query = ReleaseQuery::new(package_key, repos, defaults);
    let status = match settle_status(statuses) {
        None => {
            return Err(PackageCandidateError::UnresolvedId(package_key.to_string()));
        },
        Some(Err(e)) => {
            return Err(PackageCandidateError::Status(package_key.copy(), e));
        },
        Some(Ok(s)) => s,
    };
    let (target, release, descriptor) = match resolve_payload(package_key, &query, repos) {
        Ok(v) => v,
        Err(e) => {
            return Err(PackageCandidateError::Payload(package_key.copy(), e));
        },
    };
    let is_reboot_required = reboot_required(candidate.0, &target.payload, status);
    Ok(
        PackageCandidate {
            package_key: package_key.copy(),
            action: candidate.0,
            descriptor,
            release,
            target,
            status,
            is_reboot_required,
        },
    )
}

/// The key a dependency resolves to while gathering a package set: a remote
/// dependency must read as a package key; a local one is looked up by
/// identifier. Either failing leaves the dependency's text unresolved.
pub open spec fn dependency_resolution(dep: DependencyKey, repos: Seq<RepositoryView>) -> Result<
    KeyView,
    CandidateErrorView,
> {
    match dep {
        DependencyKey::Remote(u) => match key_from_text(u@) {
            Ok(k) => Ok(k),
            Err(_) => Err(CandidateErrorView::UnresolvedId(u@)),
        },
        DependencyKey::Local(id) => match package_by_id(id@, repos) {
            Some((k, _)) => Ok(k),
            None => Err(CandidateErrorView::UnresolvedId(id@)),
        },
    }
}

/// The contents of a key result of candidate resolution.
pub open spec fn key_candidate_view(r: Result<PackageKey, PackageCandidateError>) -> Result<
    KeyView,
    CandidateErrorView,
> {
    match r {
        Ok(k) => Ok(k@),
        Err(e) => Err(e@),
    }
}

/// Resolves a dependency to the key of the package it names.
pub fn resolve_dependency(dep: &DependencyKey, repos: &Vec<LoadedRepository>) -> (r: Result<
    PackageKey,
    PackageCandidateError,
>)
    ensures
        key_candidate_view(r) == dependency_resolution(*dep, repos_view(repos@)),
{
    match dep {
        DependencyKey::Remote(u) => match PackageKey::try_from_str(u.as_str()) {
            Ok(k) => Ok(k),
            Err(_) => Err(PackageCandidateError::UnresolvedId(u.clone())),
        },
        DependencyKey::Local(id) => match find_package_by_id(id.as_str(), repos) {
            Some((k, _)) => Ok(k),
            None => Err(PackageCandidateError::UnresolvedId(id.clone())),
        },
    }
}

/// The keys of a candidate set, in order.
pub open spec fn candidate_keys(set: Seq<CandidateView>) -> Seq<KeyView> {
    set.map_values(|c: CandidateView| c.key)
}

/// Whether a candidate set holds a candidate for a key.
pub fn set_contains_key(set: &Vec<PackageCandidate>, key: &PackageKey) -> (r: bool)
    ensures
        r == candidate_keys(candidates_view(set@)).contains(key@),
{
    let ghost keys = candidate_keys(candidates_view(set@));
    let mut i: usize = 0;
    while i < set.len()
        invariant
            0 <= i <= set.len(),
            keys == candidate_keys(candidates_view(set@)),
            forall|j: int| 0 <= j < i ==> keys[j] != key@,
        decreases set.len() - i,
    {
        if set[i].package_key.same_as(key) {
            assert(keys[i as int] == key@);
            return true;
        }
        i = i + 1;
    }
    proof {
        if keys.contains(key@) {
            let j = choose|j: int| 0 <= j < keys.len() && keys[j] == key@;
            assert(keys[j] != key@);
        }
    }
    false
}

/// The next dependency of a candidate, from position `from` on, that the set
/// still lacks: each dependency is resolved to a key in turn, the first that
/// fails to resolve failing the scan; dependencies already in the set are
/// passed over, and so are all dependencies of an uninstall.
pub open spec fn dependency_scan(
    parent: CandidateView,
    from: int,
    keys: Seq<KeyView>,
    repos: Seq<RepositoryView>,
) -> Result<Option<(int, KeyView)>, CandidateErrorView>
    decreases parent.target.dependencies.len() - from,
{
    if 0 <= from < parent.target.dependencies.len() {
        match dependency_resolution(parent.target.dependencies[from].0, repos) {
            Err(e) => Err(e),
            Ok(k) => if keys.contains(k) || parent.action == PackageActionType::Uninstall {
                dependency_scan(parent, from + 1, keys, repos)
            } else {
                Ok(Some((from, k)))
            },
        }
    } else {
        Ok(None)
    }
}

/// The contents of a scan result.
pub open spec fn scan_view(r: Result<Option<(usize, PackageKey)>, PackageCandidateError>) -> Result<
    Option<(int, KeyView)>,
    CandidateErrorView,
> {
    match r {
        Ok(Some((i, k))) => Ok(Some((i as int, k@))),
        Ok(None) => Ok(None),
        Err(e) => Err(e@),
    }
}

/// Finds the next dependency of a candidate, from position `from` on, that
/// the set lacks and that must therefore be resolved and added; `None` when
/// no dependency remains.
pub fn next_missing_dependency(
    parent: &PackageCandidate,
    from: usize,
    set: &Vec<PackageCandidate>,
    repos: &Vec<LoadedRepository>,
) -> (r: Result<Option<(usize, PackageKey)>, PackageCandidateError>)
    ensures
        scan_view(r) == dependency_scan(
            parent@,
            from as int,
            candidate_keys(candidates_view(set@)),
            repos_view(repos@),
        ),
{
    let ghost keys = candidate_keys(candidates_view(set@));
    let ghost rv = repos_view(repos@);
    let deps = &parent.target.dependencies;
    let mut j: usize = from;
    while j < deps.len()
        invariant
            from <= j,
            keys == candidate_keys(candidates_view(set@)),
            rv == repos_view(repos@),
            deps@ == parent@.target.dependencies,
            dependency_scan(parent@, from as int, keys, rv) == dependency_scan(parent@, j as int, keys, rv),
        decreases deps.len() - j,
    {
        let key = match resolve_dependency(&deps[j].0, repos) {
            Ok(k) => k,
            Err(e) => {
                return Err(e);
            },
        };
        if !set_contains_key(set, &key) && parent.action != PackageActionType::Uninstall {
            return Ok(Some((j, key)));
        }
        j = j + 1;
    }
    Ok(None)
}

/// The first position, from `start` on, of a candidate for a key.
pub open spec fn candidate_index(keys: Seq<KeyView>, key: KeyView, start: int) -> Option<int>
    decreases keys.len() - start,
{
    if 0 <= start < keys.len() {
        if keys[start] == key {
            Some(start)
        } else {
            candidate_index(keys, key, start + 1)
        }
    } else {
        None
    }
}

/// A candidate set after adding a candidate: it replaces the candidate for
/// the same key where there is one, and is appended otherwise.
pub open spec fn set_insert(set: Seq<CandidateView>, c: CandidateView) -> Seq<CandidateView> {
    match candidate_index(candidate_keys(set), c.key, 0) {
        Some(i) => set.update(i, c),
        None => set.push(c),
    }
}

/// What `candidate_index` finds: a candidate with the key and none before it
/// from `start` on, or no candidate with the key.
pub proof fn lemma_candidate_index(keys: Seq<KeyView>, key: KeyView, start: int)
    requires
        0 <= start,
    ensures
        match candidate_index(keys, key, start) {
            Some(i) => start <= i < keys.len() && keys[i] == key && forall|j: int|
                start <= j < i ==> keys[j] != key,
            None => forall|j: int| start <= j < keys.len() ==> keys[j] != key,
        },
    decreases keys.len() - start,
{
    if start < keys.len() && keys[start] != key {
        lemma_candidate_index(keys, key, start + 1);
    }
}

/// Adds a candidate to a set, replacing the candidate for the same key.
pub fn insert_candidate(set: &mut Vec<PackageCandidate>, candidate: PackageCandidate)
    ensures
        candidates_view(final(set)@) == set_insert(candidates_view(old(set)@), candidate@),
{
    let ghost keys = candidate_keys(candidates_view(set@));
    let mut i: usize = 0;
    while i < set.len()
        invariant
            0 <= i <= set.len(),
            keys == candidate_keys(candidates_view(set@)),
            set@ == old(set)@,
            candidate_index(keys, candidate@.key, 0) == candidate_index(keys, candidate@.key, i as int),
        decreases set.len() - i,
    {
        if set[i].package_key.same_as(&candidate.package_key) {
            let ghost c = candidate@;
            set.set(i, candidate);
            proof {
                assert(candidates_view(set@) =~= candidates_view(old(set)@).update(i as int, c));
            }
            return;
        }
        i = i + 1;
    }
    let ghost c = candidate@;
    set.push(candidate);
    proof {
        assert(candidates_view(set@) =~= candidates_view(old(set)@).push(c));
    }
}

/// Whether the keys of a set are all different.
pub open spec fn keys_unique(keys: Seq<KeyView>) -> bool {
    forall|i: int, j: int| 0 <= i < j < keys.len() ==> keys[i] != keys[j]
}

/// Adding a candidate keeps the keys of a set different, and leaves the set
/// with exactly the candidate for that key: the set maps each key to one
/// candidate, as a map keyed by package would.
pub proof fn lemma_set_insert(set: Seq<CandidateView>, c: CandidateView)
    requires
        keys_unique(candidate_keys(set)),
    ensures
        keys_unique(candidate_keys(set_insert(set, c))),
        candidate_keys(set_insert(set, c)).contains(c.key),
        forall|i: int|
            0 <= i < set_insert(set, c).len() && (#[trigger] set_insert(set, c)[i]).key == c.key
                ==> set_insert(set, c)[i] == c,
        forall|k: KeyView|
            k != c.key ==> (candidate_keys(set_insert(set, c)).contains(k) <==> #[trigger] candidate_keys(
                set,
            ).contains(k)),
{
    let keys = candidate_keys(set);
    lemma_candidate_index(keys, c.key, 0);
    let out = set_insert(set, c);
    let out_keys = candidate_keys(out);
    match candidate_index(keys, c.key, 0) {
        Some(i) => {
            assert(out_keys =~= keys.update(i, c.key));
            assert(out_keys[i] == c.key);
            assert forall|j: int| 0 <= j < out.len() && (#[trigger] out[j]).key == c.key implies out[j]
                == c by {
                if j != i {
                    assert(keys[j] == c.key);
                    assert(keys[i] == c.key);
                }
            }
            assert forall|k: KeyView| k != c.key implies (out_keys.contains(k) <==> keys.contains(k)) by {
                if out_keys.contains(k) {
                    let j = choose|j: int| 0 <= j < out_keys.len() && out_keys[j] == k;
                    assert(keys[j] == k);
                }
                if keys.contains(k) {
                    let j = choose|j: int| 0 <= j < keys.len() && keys[j] == k;
                    assert(out_keys[j] == k);
                }
            }
        },
        None => {
            assert(out_keys =~= keys.push(c.key));
            assert(out_keys[keys.len() as int] == c.key);
            assert forall|j: int| 0 <= j < out.len() && (#[trigger] out[j]).key == c.key implies out[j]
                == c by {
                if j < keys.len() {
                    assert(keys[j] == c.key);
                }
            }
            assert forall|k: KeyView| k != c.key implies (out_keys.contains(k) <==> keys.contains(k)) by {
                if out_keys.contains(k) {
                    let j = choose|j: int| 0 <= j < out_keys.len() && out_keys[j] == k;
                    assert(keys[j] == k);
                }
                if keys.contains(k) {
                    let j = choose|j: int| 0 <= j < keys.len() && keys[j] == k;
                    assert(out_keys[j] == k);
                }
            }
        },
    }
}

/// The requested actions, with their keys by contents.
pub open spec fn requests_view(s: Seq<(PackageActionType, PackageKey)>) -> Seq<(PackageActionType, KeyView)> {
    s.map_values(|p: (PackageActionType, PackageKey)| (p.0, p.1@))
}

/// The status results of each requested package, by contents.
pub open spec fn statuses_view(s: Seq<Vec<Result<PackageStatus, PackageStatusError>>>) -> Seq<
    Seq<Result<PackageStatus, PackageStatusError>>,
> {
    s.map_values(|v: Vec<Result<PackageStatus, PackageStatusError>>| v@)
}

/// The candidate set of the requested actions, resolved in order, each with
/// its own status results; the first that fails to resolve fails the set.
pub open spec fn initial_set(
    requests: Seq<(PackageActionType, KeyView)>,
    statuses: Seq<Seq<Result<PackageStatus, PackageStatusError>>>,
    repos: Seq<RepositoryView>,
    defaults: QueryDefaults,
) -> Result<Seq<CandidateView>, CandidateErrorView>
    decreases requests.len(),
{
    if requests.len() == 0 {
        Ok(Seq::empty())
    } else {
        match initial_set(requests.drop_last(), statuses.take(requests.len() - 1), repos, defaults) {
            Err(e) => Err(e),
            Ok(set) => {
                let (a, k) = requests.last();
                match candidate_resolution(
                    a,
                    k,
                    statuses[requests.len() - 1],
                    key_selection(k, repos, defaults),
                    repos,
                ) {
                    Err(e) => Err(e),
                    Ok(c) => Ok(set_insert(set, c)),
                }
            },
        }
    }
}

/// The contents of a set result.
pub open spec fn set_result_view(r: Result<Vec<PackageCandidate>, PackageCandidateError>) -> Result<
    Seq<CandidateView>,
    CandidateErrorView,
> {
    match r {
        Ok(v) => Ok(candidates_view(v@)),
        Err(e) => Err(e@),
    }
}

/// Resolves the requested actions into a candidate set; `statuses` holds,
/// for each request, its status under each install target.
pub fn resolve_initial_set(
    requests: &Vec<(PackageActionType, PackageKey)>,
    statuses: Vec<Vec<Result<PackageStatus, PackageStatusError>>>,
    repos: &Vec<LoadedRepository>,
    defaults: &QueryDefaults,
) -> (r: Result<Vec<PackageCandidate>, PackageCandidateError>)
    requires
        statuses.len() == requests.len(),
    ensures
        set_result_view(r) == initial_set(
            requests_view(requests@),
            statuses_view(statuses@),
            repos_view(repos@),
            *defaults,
        ),
{
    let ghost rq = requests_view(requests@);
    let ghost all = statuses_view(statuses@);
    let ghost rv = repos_view(repos@);
    let mut remaining = statuses;
    let mut set: Vec<PackageCandidate> = Vec::new();
    let n = requests.len();
    let mut i: usize = 0;
    proof {
        assert(rq.take(0) =~= Seq::<(PackageActionType, KeyView)>::empty());
        assert(candidates_view(set@) =~= Seq::<CandidateView>::empty());
        assert(statuses_view(remaining@) =~= all.subrange(0, n as int));
    }
    while i < n
        invariant
            0 <= i <= n,
            n == requests.len(),
            rq == requests_view(requests@),
            rv == repos_view(repos@),
            all == statuses_view(statuses@),
            all.len() == n,
            remaining@.len() == n - i,
            statuses_view(remaining@) =~= all.subrange(i as int, n as int),
            initial_set(rq.take(i as int), all.take(i as int), rv, *defaults) == Ok::<
                Seq<CandidateView>,
                CandidateErrorView,
            >(candidates_view(set@)),
        decreases n - i,
    {
        let ghost before = remaining@;
        assert(statuses_view(before)[0] == all[i as int]);
        let st = remaining.remove(0);
        proof {
            assert(st@ == all[i as int]);
            assert forall|j: int| 0 <= j < remaining@.len() implies #[trigger] statuses_view(
                remaining@,
            )[j] == all.subrange(i + 1, n as int)[j] by {
                assert(remaining@[j] == before[j + 1]);
                assert(statuses_view(before)[j + 1] == all[i + 1 + j]);
            }
            assert(statuses_view(remaining@) =~= all.subrange(i + 1, n as int));
            let pre = rq.take(i + 1);
            assert(pre.drop_last() =~= rq.take(i as int));
            assert(all.take(i + 1).take(i as int) =~= all.take(i as int));
            assert(pre.last() == (requests@[i as int].0, requests@[i as int].1@));
        }
        let c = match resolve_package_candidate(&requests[i], st, repos, defaults) {
            Ok(c) => c,
            Err(e) => {
                proof {
                    assert(all.take(i + 1)[i as int] == all[i as int]);
                    assert(initial_set(rq.take(i + 1), all.take(i + 1), rv, *defaults) == Err::<
                        Seq<CandidateView>,
                        CandidateErrorView,
                    >(e@));
                    lemma_initial_set_error_persists(rq, all, rv, *defaults, i as int + 1);
                }
                return Err(e);
            },
        };
        insert_candidate(&mut set, c);
        i = i + 1;
    }
    proof {
        assert(rq.take(n as int) =~= rq);
        assert(all.take(n as int) =~= all);
    }
    Ok(set)
}

/// Once a prefix of the requests fails to resolve, so does every longer one.
proof fn lemma_initial_set_error_persists(
    requests: Seq<(PackageActionType, KeyView)>,
    statuses: Seq<Seq<Result<PackageStatus, PackageStatusError>>>,
    repos: Seq<RepositoryView>,
    defaults: QueryDefaults,
    m: int,
)
    requires
        0 <= m <= requests.len(),
        requests.len() == statuses.len(),
        initial_set(requests.take(m), statuses.take(m), repos, defaults) is Err,
    ensures
        initial_set(requests, statuses, repos, defaults) == initial_set(
            requests.take(m),
            statuses.take(m),
            repos,
            defaults,
        ),
    decreases requests.len() - m,
{
    if m < requests.len() {
        let pre = requests.take(m + 1);
        assert(pre.drop_last() =~= requests.take(m));
        assert(statuses.take(m + 1).take(m) =~= statuses.take(m));
        lemma_initial_set_error_persists(requests, statuses, repos, defaults, m + 1);
    } else {
        assert(requests.take(m) =~= requests);
        assert(statuses.take(m) =~= statuses);
    }
}

/// The keys of requested actions.
pub open spec fn request_keys(requests: Seq<(PackageActionType, KeyView)>) -> Seq<KeyView> {
    requests.map_values(|r: (PackageActionType, KeyView)| r.1)
}

/// A resolved initial set answers every request once: its keys are all
/// different, and every requested package has its candidate in it.
pub proof fn lemma_initial_set_answers(
    requests: Seq<(PackageActionType, KeyView)>,
    statuses: Seq<Seq<Result<PackageStatus, PackageStatusError>>>,
    repos: Seq<RepositoryView>,
    defaults: QueryDefaults,
)
    requires
        initial_set(requests, statuses, repos, defaults) is Ok,
    ensures
        keys_unique(candidate_keys(initial_set(requests, statuses, repos, defaults)->Ok_0)),
        forall|i: int|
            0 <= i < requests.len() ==> candidate_keys(
                initial_set(requests, statuses, repos, defaults)->Ok_0,
            ).contains(#[trigger] requests[i].1),
    decreases requests.len(),
{
    if requests.len() > 0 {
        let init = requests.drop_last();
        let st = statuses.take(requests.len() - 1);
        lemma_initial_set_answers(init, st, repos, defaults);
        let set0 = initial_set(init, st, repos, defaults)->Ok_0;
        let (a, k) = requests.last();
        let c = candidate_resolution(a, k, statuses[requests.len() - 1], key_selection(k, repos, defaults), repos)->Ok_0;
        assert(c.key == k);
        lemma_set_insert(set0, c);
        let out = initial_set(requests, statuses, repos, defaults)->Ok_0;
        assert(out == set_insert(set0, c));
        assert forall|i: int| 0 <= i < requests.len() implies candidate_keys(out).contains(
            #[trigger] requests[i].1,
        ) by {
            if i < requests.len() - 1 {
                assert(init[i] == requests[i]);
                if requests[i].1 != c.key {
                    assert(candidate_keys(set0).contains(init[i].1));
                }
            }
        }
    }
}

/// Where the resolution of a package set stands: the candidate set so far,
/// the candidates of the requests, whose dependencies are added, and the
/// position of the scan over their dependencies.
pub struct PackageSetResolver {
    set: Vec<PackageCandidate>,
    parents: Vec<PackageCandidate>,
    parent: usize,
    from: usize,
    requested: Ghost<Seq<KeyView>>,
}

/// The next dependency the set lacks, scanning the dependencies of each
/// parent in turn from parent `p`, dependency `f` on: the parent's index,
/// the dependency's position and its key, or `None` when none remains; the
/// first dependency that does not resolve fails the scan.
pub open spec fn pending_dependency(
    parents: Seq<CandidateView>,
    p: int,
    f: int,
    keys: Seq<KeyView>,
    repos: Seq<RepositoryView>,
) -> Result<Option<(int, int, KeyView)>, CandidateErrorView>
    decreases parents.len() - p,
{
    if 0 <= p < parents.len() {
        match dependency_scan(parents[p], f, keys, repos) {
            Err(e) => Err(e),
            Ok(Some((pos, k))) => Ok(Some((p, pos, k))),
            Ok(None) => pending_dependency(parents, p + 1, 0, keys, repos),
        }
    } else {
        Ok(None)
    }
}

impl PackageSetResolver {
    /// The candidate set so far.
    pub closed spec fn set_view(&self) -> Seq<CandidateView> {
        candidates_view(self.set@)
    }

    /// The candidates whose dependencies are added.
    pub closed spec fn parents_view(&self) -> Seq<CandidateView> {
        candidates_view(self.parents@)
    }

    /// The parent whose dependencies are scanned.
    pub closed spec fn parent_index(&self) -> int {
        self.parent as int
    }

    /// The dependency of that parent the scan goes on from.
    pub closed spec fn dependency_index(&self) -> int {
        self.from as int
    }

    /// The keys of the requested packages.
    pub closed spec fn requested(&self) -> Seq<KeyView> {
        self.requested@
    }

    /// The resolution is consistent: the set has one candidate per key, and
    /// every requested package has one.
    pub open spec fn wf(&self) -> bool {
        &&& keys_unique(candidate_keys(self.set_view()))
        &&& forall|i: int|
            0 <= i < self.requested().len() ==> candidate_keys(self.set_view()).contains(
                #[trigger] self.requested()[i],
            )
    }

    /// Starts resolving the requested actions, from each request's status
    /// under the install targets: the set is the initial set of the
    /// requests, which are also the parents whose dependencies come next.
    pub fn start(
        requests: &Vec<(PackageActionType, PackageKey)>,
        statuses: Vec<Vec<Result<PackageStatus, PackageStatusError>>>,
        repos: &Vec<LoadedRepository>,
        defaults: &QueryDefaults,
    ) -> (r: Result<PackageSetResolver, PackageCandidateError>)
        requires
            statuses.len() == requests.len(),
        ensures
            match r {
                Ok(s) => {
                    &&& initial_set(
                        requests_view(requests@),
                        statuses_view(statuses@),
                        repos_view(repos@),
                        *defaults,
                    ) == Ok::<Seq<CandidateView>, CandidateErrorView>(s.set_view())
                    &&& s.parents_view() == s.set_view()
                    &&& s.parent_index() == 0
                    &&& s.dependency_index() == 0
                    &&& s.requested() == request_keys(requests_view(requests@))
                    &&& s.wf()
                },
                Err(e) => initial_set(
                    requests_view(requests@),
                    statuses_view(statuses@),
                    repos_view(repos@),
                    *defaults,
                ) == Err::<Seq<CandidateView>, CandidateErrorView>(e@),
            },
    {
        let ghost st = statuses_view(statuses@);
        let set = match resolve_initial_set(requests, statuses, repos, defaults) {
            Ok(s) => s,
            Err(e) => {
                return Err(e);
            },
        };
        proof {
            lemma_initial_set_answers(requests_view(requests@), st, repos_view(repos@), *defaults);
        }
        let mut parents: Vec<PackageCandidate> = Vec::new();
        let mut i: usize = 0;
        while i < set.len()
            invariant
                0 <= i <= set.len(),
                candidates_view(parents@) == candidates_view(set@).take(i as int),
            decreases set.len() - i,
        {
            let c = set[i].copy();
            let ghost before = candidates_view(parents@);
            parents.push(c);
            proof {
                assert(candidates_view(parents@) =~= before.push(c@));
                assert(candidates_view(set@)[i as int] == set@[i as int]@);
                assert(candidates_view(parents@) =~= candidates_view(set@).take(i + 1));
            }
            i = i + 1;
        }
        proof {
            assert(candidates_view(set@).take(set@.len() as int) =~= candidates_view(set@));
        }
        let ghost rk = request_keys(requests_view(requests@));
        let r = PackageSetResolver { set, parents, parent: 0, from: 0, requested: Ghost(rk) };
        proof {
            assert forall|i: int| 0 <= i < rk.len() implies candidate_keys(r.set_view()).contains(
                #[trigger] rk[i],
            ) by {
                assert(rk[i] == requests_view(requests@)[i].1);
            }
        }
        Ok(r)
    }

    /// Moves the scan to the next dependency the set lacks and gives its
    /// key, `None` when every parent's dependencies are in the set, or the
    /// error of the first dependency that does not resolve. The set stays
    /// as it is.
    pub fn next_dependency(&mut self, repos: &Vec<LoadedRepository>) -> (r: Result<
        Option<PackageKey>,
        PackageCandidateError,
    >)
        requires
            old(self).wf(),
        ensures
            final(self).wf(),
            final(self).set_view() == old(self).set_view(),
            final(self).parents_view() == old(self).parents_view(),
            final(self).requested() == old(self).requested(),
            match r {
                Ok(Some(k)) => pending_dependency(
                    old(self).parents_view(),
                    old(self).parent_index(),
                    old(self).dependency_index(),
                    candidate_keys(old(self).set_view()),
                    repos_view(repos@),
                ) matches Ok(Some((p, pos, k2))) && k@ == k2 && final(self).parent_index() == p
                    && final(self).dependency_index() == pos + 1 && !candidate_keys(
                    final(self).set_view(),
                ).contains(k@),
                Ok(None) => pending_dependency(
                    old(self).parents_view(),
                    old(self).parent_index(),
                    old(self).dependency_index(),
                    candidate_keys(old(self).set_view()),
                    repos_view(repos@),
                ) == Ok::<Option<(int, int, KeyView)>, CandidateErrorView>(None),
                Err(e) => pending_dependency(
                    old(self).parents_view(),
                    old(self).parent_index(),
                    old(self).dependency_index(),
                    candidate_keys(old(self).set_view()),
                    repos_view(repos@),
                ) == Err::<Option<(int, int, KeyView)>, CandidateErrorView>(e@),
            },
    {
        let ghost keys = candidate_keys(self.set_view());
        let ghost pv = self.parents_view();
        let ghost rv = repos_view(repos@);
        let ghost goal = pending_dependency(pv, self.parent as int, self.from as int, keys, rv);
        while self.parent < self.parents.len()
            invariant
                keys == candidate_keys(candidates_view(self.set@)),
                pv == candidates_view(self.parents@),
                rv == repos_view(repos@),
                self.set@ == old(self).set@,
                self.parents@ == old(self).parents@,
                self.requested == old(self).requested,
                old(self).wf(),
                goal == pending_dependency(pv, self.parent as int, self.from as int, keys, rv),
                goal == pending_dependency(
                    old(self).parents_view(),
                    old(self).parent_index(),
                    old(self).dependency_index(),
                    candidate_keys(old(self).set_view()),
                    repos_view(repos@),
                ),
            decreases self.parents.len() - self.parent,
        {
            let found = next_missing_dependency(&self.parents[self.parent], self.from, &self.set, repos);
            proof {
                assert(pv[self.parent as int] == self.parents@[self.parent as int]@);
            }
            match found {
                Err(e) => {
                    proof {
                        assert(self.set_view() == old(self).set_view());
                        assert(self.requested() == old(self).requested());
                    }
                    return Err(e);
                },
                Ok(Some((pos, key))) => {
                    let dep_count = self.parents[self.parent].target.dependencies.len();
                    proof {
                        lemma_scan_position(self.parents@[self.parent as int]@, self.from as int, keys, rv);
                        assert(pos < dep_count);
                    }
                    self.from = pos + 1;
                    proof {
                        assert(self.set_view() == old(self).set_view());
                        assert(self.requested() == old(self).requested());
                    }
                    return Ok(Some(key));
                },
                Ok(None) => {
                    self.parent = self.parent + 1;
                    self.from = 0;
                },
            }
        }
        proof {
            assert(self.set_view() == old(self).set_view());
            assert(self.requested() == old(self).requested());
        }
        Ok(None)
    }

    /// Resolves a dependency the scan gave, to be installed, from its status
    /// under the install targets, and adds it to the set.
    pub fn add_dependency(
        &mut self,
        key: &PackageKey,
        statuses: Vec<Result<PackageStatus, PackageStatusError>>,
        repos: &Vec<LoadedRepository>,
        defaults: &QueryDefaults,
    ) -> (r: Result<(), PackageCandidateError>)
        requires
            old(self).wf(),
        ensures
            final(self).wf(),
            final(self).parents_view() == old(self).parents_view(),
            final(self).parent_index() == old(self).parent_index(),
            final(self).dependency_index() == old(self).dependency_index(),
            final(self).requested() == old(self).requested(),
            match candidate_resolution(
                PackageActionType::Install,
                key@,
                statuses@,
                key_selection(key@, repos_view(repos@), *defaults),
                repos_view(repos@),
            ) {
                Ok(c) => r is Ok && final(self).set_view() == set_insert(old(self).set_view(), c),
                Err(e) => r matches Err(x) && x@ == e && final(self).set_view() == old(self).set_view(),
            },
    {
        let request = (PackageActionType::Install, key.copy());
        let c = match resolve_package_candidate(&request, statuses, repos, defaults) {
            Ok(c) => c,
            Err(e) => {
                return Err(e);
            },
        };
        let ghost cv = c@;
        let ghost before = self.set_view();
        proof {
            lemma_set_insert(before, cv);
        }
        insert_candidate(&mut self.set, c);
        proof {
            let after = self.set_view();
            assert forall|i: int| 0 <= i < self.requested().len() implies candidate_keys(after).contains(
                #[trigger] self.requested()[i],
            ) by {
                let k = self.requested()[i];
                assert(self.requested() == old(self).requested());
                assert(before == old(self).set_view());
                assert(candidate_keys(old(self).set_view()).contains(old(self).requested()[i]));
                assert(candidate_keys(before).contains(k));
            }
        }
        Ok(())
    }

    /// The candidate set so far.
    pub fn candidates(&self) -> (r: &Vec<PackageCandidate>)
        ensures
            candidates_view(r@) == self.set_view(),
    {
        &self.set
    }

    /// Ends the resolution: the candidates of the set that change anything,
    /// in dependency order.
    pub fn finish(self) -> (r: Vec<PackageCandidate>)
        ensures
            is_mutation_order(self.set_view(), candidates_view(r@)),
    {
        order_mutation_set(&self.set)
    }
}

/// A dependency the scan gives lies within the parent's dependencies, and
/// the set lacks it.
proof fn lemma_scan_position(parent: CandidateView, from: int, keys: Seq<KeyView>, repos: Seq<RepositoryView>)
    ensures
        dependency_scan(parent, from, keys, repos) matches Ok(Some((pos, k))) ==> from <= pos
            < parent.target.dependencies.len() && !keys.contains(k),
    decreases parent.target.dependencies.len() - from,
{
    if 0 <= from < parent.target.dependencies.len() {
        lemma_scan_position(parent, from + 1, keys, repos);
    }
}

/// Whether a candidate changes anything: installing a package that is up
/// to date and uninstalling one that is not installed change nothing.
pub open spec fn in_mutation_set(c: CandidateView) -> bool {
    &&& !(c.action == PackageActionType::Install && c.status == PackageStatus::UpToDate)
    &&& !(c.action == PackageActionType::Uninstall && c.status == PackageStatus::NotInstalled)
}

/// The candidates of a set that change anything, in order.
pub open spec fn mutation_filter(s: Seq<CandidateView>) -> Seq<CandidateView>
    decreases s.len(),
{
    if s.len() == 0 {
        s
    } else {
        let f = mutation_filter(s.drop_last());
        if in_mutation_set(s.last()) {
            f.push(s.last())
        } else {
            f
        }
    }
}

/// A candidate of a set is in its mutation set exactly when it changes
/// something: everything is kept but installing a package that is up to date
/// and uninstalling one that is not installed. In particular, uninstalling an
/// installed package, up to date or not, is always kept.
pub proof fn lemma_mutation_membership(s: Seq<CandidateView>, c: CandidateView)
    requires
        s.contains(c),
    ensures
        mutation_filter(s).contains(c) <==> (!(c.action == PackageActionType::Install && c.status
            == PackageStatus::UpToDate) && !(c.action == PackageActionType::Uninstall && c.status
            == PackageStatus::NotInstalled)),
        c.action == PackageActionType::Uninstall && c.status != PackageStatus::NotInstalled ==> mutation_filter(
            s,
        ).contains(c),
    decreases s.len(),
{
    let init = s.drop_last();
    if s.last() == c {
        if init.contains(c) {
            lemma_mutation_membership(init, c);
        } else {
            lemma_mutation_filter_subset(init, c);
        }
        if in_mutation_set(c) {
            assert(mutation_filter(s).last() == c);
            assert(mutation_filter(s)[mutation_filter(s).len() - 1] == c);
        }
    } else {
        let j = choose|j: int| 0 <= j < s.len() && s[j] == c;
        assert(j < init.len());
        assert(init[j] == c);
        lemma_mutation_membership(init, c);
        let f = mutation_filter(init);
        if f.contains(c) {
            let k = choose|k: int| 0 <= k < f.len() && f[k] == c;
            if in_mutation_set(s.last()) {
                assert(mutation_filter(s)[k] == c);
            }
        }
        if mutation_filter(s).contains(c) {
            let k = choose|k: int| 0 <= k < mutation_filter(s).len() && mutation_filter(s)[k] == c;
            if in_mutation_set(s.last()) {
                if k < f.len() {
                    assert(f[k] == c);
                } else {
                    assert(mutation_filter(s)[k] == s.last());
                }
            } else {
                assert(f[k] == c);
            }
        }
    }
}

/// A candidate not in a set is not in its mutation set.
proof fn lemma_mutation_filter_subset(s: Seq<CandidateView>, c: CandidateView)
    requires
        !s.contains(c),
    ensures
        !mutation_filter(s).contains(c),
    decreases s.len(),
{
    if s.len() > 0 {
        let init = s.drop_last();
        if init.contains(c) {
            let j = choose|j: int| 0 <= j < init.len() && init[j] == c;
            assert(s[j] == c);
        }
        lemma_mutation_filter_subset(init, c);
        if mutation_filter(s).contains(c) {
            let k = choose|k: int| 0 <= k < mutation_filter(s).len() && mutation_filter(s)[k] == c;
            if in_mutation_set(s.last()) && k == mutation_filter(init).len() {
                assert(s[s.len() - 1] == c);
            } else {
                assert(mutation_filter(init)[k] == c);
            }
        }
    }
}

/// The candidates of a set that change anything, in order.
pub fn mutation_candidates(set: &Vec<PackageCandidate>) -> (r: Vec<PackageCandidate>)
    ensures
        candidates_view(r@) == mutation_filter(candidates_view(set@)),
{
    let ghost sv = candidates_view(set@);
    let mut out: Vec<PackageCandidate> = Vec::new();
    let mut i: usize = 0;
    while i < set.len()
        invariant
            0 <= i <= set.len(),
            sv == candidates_view(set@),
            candidates_view(out@) == mutation_filter(sv.take(i as int)),
        decreases set.len() - i,
    {
        let c = &set[i];
        proof {
            assert(sv.take(i + 1).drop_last() =~= sv.take(i as int));
            assert(sv.take(i + 1).last() == c@);
        }
        let keep = !(c.action == PackageActionType::Install && c.status == PackageStatus::UpToDate)
            && !(c.action == PackageActionType::Uninstall && c.status == PackageStatus::NotInstalled);
        if keep {
            let ghost before = out@;
            out.push(c.copy());
            proof {
                assert(candidates_view(out@) =~= candidates_view(before).push(c@));
            }
        }
        i = i + 1;
    }
    proof {
        assert(sv.take(set@.len() as int) =~= sv);
    }
    out
}

/// The key a dependency names when counting dependencies within a set: a
/// remote dependency by its URL, a local one by its identifier in the
/// dependent's repository; a remote URL that is no package key names none.
pub open spec fn dependency_key_in(dep: DependencyKey, repo_url: Seq<char>) -> Option<KeyView> {
    match dep {
        DependencyKey::Remote(u) => match key_from_text(u@) {
            Ok(k) => Some(k),
            Err(_) => None,
        },
        DependencyKey::Local(id) => Some((repo_url, id@, (None, None, None, None))),
    }
}

/// How many of the dependencies name a key among `keys`.
pub open spec fn dependencies_in(
    deps: Seq<(DependencyKey, String)>,
    repo_url: Seq<char>,
    keys: Seq<KeyView>,
) -> nat
    decreases deps.len(),
{
    if deps.len() == 0 {
        0
    } else {
        dependencies_in(deps.drop_last(), repo_url, keys) + if dependency_key_in(
            deps.last().0,
            repo_url,
        ) matches Some(k) && keys.contains(k) {
            1nat
        } else {
            0nat
        }
    }
}

impl PackageCandidate {
    /// How many of this candidate's dependencies are in the set.
    pub fn dependencies_in_set(&self, set: &Vec<PackageCandidate>) -> (r: usize)
        ensures
            r == dependencies_in(
                self@.target.dependencies,
                self@.key.0,
                candidate_keys(candidates_view(set@)),
            ),
    {
        let ghost keys = candidate_keys(candidates_view(set@));
        let deps = &self.target.dependencies;
        let mut count: usize = 0;
        let mut i: usize = 0;
        while i < deps.len()
            invariant
                0 <= i <= deps.len(),
                count <= i,
                deps@ == self@.target.dependencies,
                keys == candidate_keys(candidates_view(set@)),
                count == dependencies_in(deps@.take(i as int), self@.key.0, keys),
            decreases deps.len() - i,
        {
            let key = match &deps[i].0 {
                DependencyKey::Remote(u) => match PackageKey::try_from_str(u.as_str()) {
                    Ok(k) => Some(k),
                    Err(_) => None,
                },
                DependencyKey::Local(id) => Some(
                    PackageKey::unchecked_new(self.package_key.repository_url.copy(), id.clone(), None),
                ),
            };
            let hit = match &key {
                Some(k) => set_contains_key(set, k),
                None => false,
            };
            proof {
                assert(deps@.take(i + 1).drop_last() =~= deps@.take(i as int));
                assert(deps@.take(i + 1).last() == deps@[i as int]);
            }
            if hit {
                count = count + 1;
            }
            i = i + 1;
        }
        proof {
            assert(deps@.take(deps@.len() as int) =~= deps@);
        }
        count
    }
}

/// Whether position `a` comes before position `b` in dependency order:
/// fewer dependencies in the set first, ties in set order.
pub open spec fn comes_before(counts: Seq<int>, a: int, b: int) -> bool {
    counts[a] < counts[b] || (counts[a] == counts[b] && a < b)
}

/// Whether `perm` lists the positions of `counts` in dependency order.
pub open spec fn in_dependency_order(counts: Seq<int>, perm: Seq<usize>) -> bool {
    &&& perm.len() == counts.len()
    &&& forall|i: int| 0 <= i < perm.len() ==> #[trigger] perm[i] < counts.len()
    &&& forall|i: int, j: int|
        0 <= i < j < perm.len() ==> comes_before(counts, #[trigger] perm[i] as int, #[trigger] perm[j] as int)
}

/// The positions of a set in dependency order, by an insertion sort, which
/// keeps positions with equal counts in their order.
pub fn dependency_order(counts: &Vec<usize>) -> (perm: Vec<usize>)
    ensures
        in_dependency_order(counts@.map_values(|c: usize| c as int), perm@),
{
    let ghost cv = counts@.map_values(|c: usize| c as int);
    let n = counts.len();
    let mut perm: Vec<usize> = Vec::new();
    let mut k: usize = 0;
    while k < n
        invariant
            0 <= k <= n,
            n == counts.len(),
            perm@.len() == k,
            forall|a: int| 0 <= a < k ==> #[trigger] perm@[a] == a,
        decreases n - k,
    {
        perm.push(k);
        k = k + 1;
    }
    let mut i: usize = 0;
    while i < n
        invariant
            0 <= i <= n,
            n == counts.len(),
            cv == counts@.map_values(|c: usize| c as int),
            perm@.len() == n,
            forall|a: int| 0 <= a < n ==> #[trigger] perm@[a] < n,
            forall|a: int, b: int| 0 <= a < b < n ==> #[trigger] perm@[a] != #[trigger] perm@[b],
            forall|a: int, b: int|
                0 <= a < b < i ==> comes_before(cv, #[trigger] perm@[a] as int, #[trigger] perm@[b] as int),
        decreases n - i,
    {
        let mut j: usize = i;
        while j > 0 && (counts[perm[j]] < counts[perm[j - 1]] || (counts[perm[j]] == counts[perm[j - 1]]
            && perm[j] < perm[j - 1]))
            invariant
                0 <= j <= i < n,
                n == counts.len(),
                cv == counts@.map_values(|c: usize| c as int),
                perm@.len() == n,
                forall|a: int| 0 <= a < n ==> #[trigger] perm@[a] < n,
                forall|a: int, b: int| 0 <= a < b < n ==> #[trigger] perm@[a] != #[trigger] perm@[b],
                forall|a: int, b: int|
                    0 <= a < b <= i && a != j && b != j ==> comes_before(
                        cv,
                        #[trigger] perm@[a] as int,
                        #[trigger] perm@[b] as int,
                    ),
                forall|b: int| j < b <= i ==> comes_before(cv, perm@[j as int] as int, #[trigger] perm@[b] as int),
            decreases j,
        {
            let x = perm[j];
            let y = perm[j - 1];
            let ghost old_perm = perm@;
            perm.set(j, y);
            perm.set(j - 1, x);
            proof {
                assert(perm@ =~= old_perm.update(j as int, y).update(j - 1, x));
                assert forall|a: int, b: int| 0 <= a < b < n implies #[trigger] perm@[a] != #[trigger] perm@[b] by {
                    let pa = if a == j { j - 1 } else if a == j - 1 { j as int } else { a };
                    let pb = if b == j { j - 1 } else if b == j - 1 { j as int } else { b };
                    assert(perm@[a] == old_perm[pa]);
                    assert(perm@[b] == old_perm[pb]);
                    if pa < pb {
                        assert(old_perm[pa] != old_perm[pb]);
                    } else {
                        assert(old_perm[pb] != old_perm[pa]);
                    }
                }
                assert forall|a: int, b: int|
                    0 <= a < b <= i && a != j - 1 && b != j - 1 implies comes_before(
                        cv,
                        #[trigger] perm@[a] as int,
                        #[trigger] perm@[b] as int,
                    ) by {
                    if a == j {
                        assert(perm@[a] == old_perm[j - 1]);
                        assert(perm@[b] == old_perm[b]);
                    } else if b == j {
                        assert(perm@[b] == old_perm[j - 1]);
                        assert(perm@[a] == old_perm[a]);
                    } else {
                        assert(perm@[a] == old_perm[a]);
                        assert(perm@[b] == old_perm[b]);
                    }
                }
                assert forall|b: int| j - 1 < b <= i implies comes_before(
                    cv,
                    perm@[j - 1] as int,
                    #[trigger] perm@[b] as int,
                ) by {
                    if b == j {
                        assert(perm@[b] == old_perm[j - 1]);
                    } else {
                        assert(perm@[b] == old_perm[b]);
                    }
                }
            }
            j = j - 1;
        }
        proof {
            if j > 0 {
                assert(perm@[j - 1] != perm@[j as int]);
                assert(comes_before(cv, perm@[j - 1] as int, perm@[j as int] as int));
            }
            assert forall|a: int, b: int| 0 <= a < b < i + 1 implies comes_before(
                cv,
                #[trigger] perm@[a] as int,
                #[trigger] perm@[b] as int,
            ) by {
                if b == j && a < j - 1 {
                    assert(comes_before(cv, perm@[a] as int, perm@[j - 1] as int));
                }
            }
        }
        i = i + 1;
    }
    perm
}

/// For each candidate of a set, how many of its dependencies are in the set.
pub open spec fn counts_of(f: Seq<CandidateView>) -> Seq<int> {
    Seq::new(
        f.len(),
        |i: int| dependencies_in(f[i].target.dependencies, f[i].key.0, candidate_keys(f)) as int,
    )
}

/// Whether `out` holds the candidates of `set` that change anything, in
/// dependency order: those with fewer of their dependencies among them come
/// first, and ties keep their order in the set.
pub open spec fn is_mutation_order(set: Seq<CandidateView>, out: Seq<CandidateView>) -> bool {
    let f = mutation_filter(set);
    exists|perm: Seq<usize>|
        in_dependency_order(counts_of(f), perm) && out == perm.map_values(|p: usize| f[p as int])
}

/// The candidates of a set that change anything, in dependency order.
pub fn order_mutation_set(set: &Vec<PackageCandidate>) -> (r: Vec<PackageCandidate>)
    ensures
        is_mutation_order(candidates_view(set@), candidates_view(r@)),
{
    let filtered = mutation_candidates(set);
    let ghost f = candidates_view(filtered@);
    let n = filtered.len();
    let mut counts: Vec<usize> = Vec::new();
    let mut i: usize = 0;
    while i < n
        invariant
            0 <= i <= n,
            n == filtered.len(),
            f == candidates_view(filtered@),
            counts@.len() == i,
            forall|k: int| 0 <= k < i ==> #[trigger] counts@[k] as int == counts_of(f)[k],
        decreases n - i,
    {
        let c = filtered[i].dependencies_in_set(&filtered);
        counts.push(c);
        i = i + 1;
    }
    assert(counts@.map_values(|c: usize| c as int) =~= counts_of(f));
    let perm = dependency_order(&counts);
    let mut out: Vec<PackageCandidate> = Vec::new();
    let mut i: usize = 0;
    while i < n
        invariant
            0 <= i <= n,
            n == filtered.len(),
            f == candidates_view(filtered@),
            in_dependency_order(counts_of(f), perm@),
            out@.len() == i,
            forall|k: int| 0 <= k < i ==> #[trigger] out@[k]@ == f[perm@[k] as int],
        decreases n - i,
    {
        let p = perm[i];
        out.push(filtered[p].copy());
        i = i + 1;
    }
    assert(candidates_view(out@) =~= perm@.map_values(|p: usize| f[p as int]));
    out
}

/// Every candidate `mutation_filter` keeps changes something, and is a
/// candidate of the set.
proof fn lemma_mutation_filter(s: Seq<CandidateView>)
    ensures
        forall|i: int|
            0 <= i < mutation_filter(s).len() ==> in_mutation_set(#[trigger] mutation_filter(s)[i])
                && s.contains(mutation_filter(s)[i]),
        mutation_filter(s).len() <= s.len(),
    decreases s.len(),
{
    if s.len() > 0 {
        let init = s.drop_last();
        lemma_mutation_filter(init);
        let f = mutation_filter(init);
        assert forall|i: int| 0 <= i < mutation_filter(s).len() implies in_mutation_set(
            #[trigger] mutation_filter(s)[i],
        ) && s.contains(mutation_filter(s)[i]) by {
            if i < f.len() {
                assert(mutation_filter(s)[i] == f[i]);
                let j = choose|j: int| 0 <= j < init.len() && init[j] == f[i];
                assert(s[j] == init[j]);
            } else {
                assert(mutation_filter(s)[i] == s.last());
                assert(s[s.len() - 1] == s.last());
            }
        }
    }
}

/// The ordered mutation set of a set: it holds only candidates of the set
/// that change something, as many as the set has, each exactly once, and
/// their counts of dependencies within it never decrease along the order;
/// among equal counts the set's order is kept.
pub proof fn lemma_mutation_order(set: Seq<CandidateView>, out: Seq<CandidateView>)
    requires
        is_mutation_order(set, out),
    ensures
        out.len() == mutation_filter(set).len(),
        forall|i: int| 0 <= i < out.len() ==> in_mutation_set(#[trigger] out[i]) && set.contains(out[i]),
        exists|perm: Seq<usize>|
            {
                &&& perm.len() == out.len()
                &&& forall|i: int|
                    0 <= i < out.len() ==> #[trigger] out[i] == mutation_filter(set)[perm[i] as int]
                &&& forall|i: int, j: int|
                    0 <= i < j < out.len() ==> #[trigger] perm[i] != #[trigger] perm[j]
                &&& forall|i: int, j: int|
                    0 <= i < j < out.len() ==> counts_of(mutation_filter(set))[#[trigger] perm[i] as int]
                        <= counts_of(mutation_filter(set))[#[trigger] perm[j] as int]
                &&& forall|i: int, j: int|
                    0 <= i < j < out.len() && counts_of(mutation_filter(set))[#[trigger] perm[i] as int]
                        == counts_of(mutation_filter(set))[#[trigger] perm[j] as int] ==> perm[i] < perm[j]
            },
{
    let f = mutation_filter(set);
    lemma_mutation_filter(set);
    let perm = choose|perm: Seq<usize>|
        in_dependency_order(counts_of(f), perm) && out == perm.map_values(|p: usize| f[p as int]);
    assert forall|i: int| 0 <= i < out.len() implies in_mutation_set(#[trigger] out[i]) && set.contains(
        out[i],
    ) by {
        assert(out[i] == f[perm[i] as int]);
        assert(perm[i] < counts_of(f).len());
    }
    assert forall|i: int, j: int| 0 <= i < j < out.len() implies #[trigger] perm[i] != #[trigger] perm[j] by {
        assert(comes_before(counts_of(f), perm[i] as int, perm[j] as int));
    }
    assert forall|i: int, j: int|
        0 <= i < j < out.len() implies counts_of(f)[#[trigger] perm[i] as int] <= counts_of(f)[#[trigger] perm[j] as int] by {
        assert(comes_before(counts_of(f), perm[i] as int, perm[j] as int));
    }
    assert forall|i: int, j: int|
        0 <= i < j < out.len() && counts_of(f)[#[trigger] perm[i] as int] == counts_of(f)[#[trigger] perm[j] as int]
            implies perm[i] < perm[j] by {
        assert(comes_before(counts_of(f), perm[i] as int, perm[j] as int));
    }
    assert forall|i: int| 0 <= i < out.len() implies #[trigger] out[i] == f[perm[i] as int] by {}
}

} // verus!
