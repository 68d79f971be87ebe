use vstd::prelude::*;

use crate::repo::{
    copy_string_pairs, releases_view, targets_view, Descriptor, DescriptorView, Payload, Release,
    ReleaseView, Target, TargetView,
};
use crate::strings::{opt_string_copy, opt_string_eq, opt_view};

verus! {

/// Why no repository was found above a path.
#[derive(Debug)]
pub enum FindRepoError {
    Io(std::io::Error),
    NotFound,
}

/// A request to add or update a release target of a package: the package,
/// optional new name and description, the release's channel and version, the
/// target, and an optional URL overriding the target's payload URL.
#[derive(Debug)]
pub struct Request {
    pub repo_path: String,
    pub id: String,
    pub name: Option<Vec<(String, String)>>,
    pub description: Option<Vec<(String, String)>>,
    pub channel: Option<String>,
    pub version: String,
    pub target: Target,
    pub url: Option<String>,
}

/// A payload with its URL replaced.
pub open spec fn payload_with_url(p: Payload, url: String) -> Payload {
    match p {
        Payload::WindowsExecutable(x) => Payload::WindowsExecutable(
            crate::repo::WindowsExecutable { url, ..x },
        ),
        Payload::MacOSPackage(x) => Payload::MacOSPackage(crate::repo::MacOSPackage { url, ..x }),
        Payload::TarballPackage(x) => Payload::TarballPackage(crate::repo::TarballPackage { url, ..x }),
    }
}

impl Payload {
    /// Replaces the payload's URL.
    pub fn set_url(&mut self, url: String)
        ensures
            *final(self) == payload_with_url(*old(self), url),
    {
        match self {
            Payload::WindowsExecutable(x) => x.url = url,
            Payload::MacOSPackage(x) => x.url = url,
            Payload::TarballPackage(x) => x.url = url,
        }
    }
}

/// The first position, from `start` on, of a release with a version and channel.
pub open spec fn release_index(
    rs: Seq<ReleaseView>,
    version: Seq<char>,
    channel: Option<Seq<char>>,
    start: int,
) -> Option<int>
    decreases rs.len() - start,
{
    if 0 <= start < rs.len() {
        if rs[start].version@ == version && opt_view(rs[start].channel) == channel {
            Some(start)
        } else {
            release_index(rs, version, channel, start + 1)
        }
    } else {
        None
    }
}

/// The first position, from `start` on, of a target for a platform.
pub open spec fn target_index(ts: Seq<TargetView>, platform: Seq<char>, start: int) -> Option<int>
    decreases ts.len() - start,
{
    if 0 <= start < ts.len() {
        if ts[start].platform@ == platform {
            Some(start)
        } else {
            target_index(ts, platform, start + 1)
        }
    } else {
        None
    }
}

/// The release a new version starts as: no authors, no license, no targets.
pub open spec fn new_release(version: String, channel: Option<String>) -> ReleaseView {
    ReleaseView {
        version,
        channel,
        authors: Seq::empty(),
        license: None,
        license_url: None,
        target: Seq::empty(),
    }
}

/// The target a new platform starts as: the requested platform, dependencies
/// and payload, with no architecture.
pub open spec fn new_target(t: TargetView) -> TargetView {
    TargetView { platform: t.platform, arch: None, dependencies: t.dependencies, payload: t.payload }
}

/// The targets of a release after an update: the first target for the
/// requested platform is replaced by the requested target, or a new target
/// is put first; then the URL, if given, overrides the payload URL of that target.
pub open spec fn updated_targets(ts: Seq<TargetView>, t: TargetView, url: Option<String>) -> Seq<TargetView> {
    let (placed, j) = match target_index(ts, t.platform@, 0) {
        Some(j) => (ts.update(j, t), j),
        None => (seq![new_target(t)] + ts, 0int),
    };
    match url {
        Some(u) => placed.update(
            j,
            TargetView { payload: payload_with_url(placed[j].payload, u), ..placed[j] },
        ),
        None => placed,
    }
}

/// The releases of a package after an update: the first release with the
/// requested version and channel gets the target, or a new release is put
/// first and gets it.
pub open spec fn updated_releases(
    rs: Seq<ReleaseView>,
    version: String,
    channel: Option<String>,
    t: TargetView,
    url: Option<String>,
) -> Seq<ReleaseView> {
    let (placed, i) = match release_index(rs, version@, opt_view(channel), 0) {
        Some(i) => (rs, i),
        None => (seq![new_release(version, channel)] + rs, 0int),
    };
    placed.update(i, ReleaseView { target: updated_targets(placed[i].target, t, url), ..placed[i] })
}

/// An update that gives a name or a description replaces the descriptor's
/// own, whatever it was; one that gives none leaves it as it was. The
/// identifier and tags never change.
pub proof fn lemma_update_texts(d: DescriptorView, req: Request)
    ensures
        req.name matches Some(n) ==> updated_descriptor(d, req).name == n@,
        req.name is None ==> updated_descriptor(d, req).name == d.name,
        req.description matches Some(n) ==> updated_descriptor(d, req).description == n@,
        req.description is None ==> updated_descriptor(d, req).description == d.description,
        updated_descriptor(d, req).id == d.id,
        updated_descriptor(d, req).tags == d.tags,
{
}

/// A descriptor after an update: name and description replaced where the
/// request gives them, and the target put in its release.
pub open spec fn updated_descriptor(d: DescriptorView, req: Request) -> DescriptorView {
    DescriptorView {
        name: match req.name {
            Some(n) => n@,
            None => d.name,
        },
        description: match req.description {
            Some(n) => n@,
            None => d.description,
        },
        release: updated_releases(d.release, req.version, req.channel, req.target@, req.url),
        ..d
    }
}

/// Puts a target into a release, as an update does.
fn update_targets(targets: &mut Vec<Target>, target: &Target, url: &Option<String>)
    ensures
        targets_view(final(targets)@) == updated_targets(targets_view(old(targets)@), target@, *url),
{
    let ghost tv = targets_view(targets@);
    let mut j: usize = 0;
    let mut found = false;
    while j < targets.len()
        invariant_except_break
            !found,
        invariant
            0 <= j <= targets.len(),
            tv == targets_view(targets@),
            target_index(tv, target@.platform@, 0) == target_index(tv, target@.platform@, j as int),
        ensures
            found ==> j < targets.len() && target_index(tv, target@.platform@, 0) == Some(j as int),
            !found ==> target_index(tv, target@.platform@, 0) is None,
        decreases targets.len() - j,
    {
        if targets[j].platform.eq(&target.platform) {
            found = true;
            break;
        }
        j = j + 1;
    }
    let ghost placed: Seq<TargetView>;
    if found {
        targets.set(j, target.copy());
        proof {
            placed = targets_view(targets@);
            assert(placed =~= tv.update(j as int, target@));
        }
    } else {
        let t = Target {
            platform: target.platform.clone(),
            arch: None,
            dependencies: copy_dependencies(&target.dependencies),
            payload: target.payload.copy(),
        };
        targets.insert(0, t);
        j = 0;
        proof {
            placed = targets_view(targets@);
            assert(placed =~= seq![new_target(target@)] + tv);
        }
    }
    match url {
        Some(u) => {
            let mut t = targets.remove(j);
            t.payload.set_url(u.clone());
            targets.insert(j, t);
            proof {
                assert(targets_view(targets@) =~= placed.update(
                    j as int,
                    TargetView { payload: payload_with_url(placed[j as int].payload, *u), ..placed[j as int] },
                ));
            }
        },
        None => {},
    }
}

/// Copies a list of dependencies.
fn copy_dependencies(v: &Vec<(crate::repo::DependencyKey, String)>) -> (r: Vec<(crate::repo::DependencyKey, String)>)
    ensures
        r@ == v@,
{
    let mut out: Vec<(crate::repo::DependencyKey, String)> = Vec::new();
    let mut i: usize = 0;
    while i < v.len()
        invariant
            0 <= i <= v.len(),
            out@ == v@.subrange(0, i as int),
        decreases v.len() - i,
    {
        out.push((v[i].0.copy(), v[i].1.clone()));
        i = i + 1;
        assert(out@ == v@.subrange(0, i as int));
    }
    out
}

/// Applies an update to a package descriptor.
pub fn update_descriptor(descriptor: &mut Descriptor, request: &Request)
    ensures
        final(descriptor)@ == updated_descriptor(old(descriptor)@, *request),
{
    match &request.name {
        Some(n) => descriptor.name = copy_string_pairs(n),
        None => {},
    }
    match &request.description {
        Some(d) => descriptor.description = copy_string_pairs(d),
        None => {},
    }
    let ghost rv = releases_view(descriptor.release@);
    let mut i: usize = 0;
    let mut found = false;
    while i < descriptor.release.len()
        invariant_except_break
            !found,
        invariant
            0 <= i <= descriptor.release.len(),
            rv == releases_view(descriptor.release@),
            release_index(rv, request.version@, opt_view(request.channel), 0) == release_index(
                rv,
                request.version@,
                opt_view(request.channel),
                i as int,
            ),
        ensures
            found ==> i < descriptor.release.len() && release_index(
                rv,
                request.version@,
                opt_view(request.channel),
                0,
            ) == Some(i as int),
            !found ==> release_index(rv, request.version@, opt_view(request.channel), 0) is None,
        decreases descriptor.release.len() - i,
    {
        let r = &descriptor.release[i];
        if r.version.eq(&request.version) && opt_string_eq(&r.channel, &request.channel) {
            found = true;
            break;
        }
        i = i + 1;
    }
    let ghost placed: Seq<ReleaseView>;
    if !found {
        let r = Release {
            version: request.version.clone(),
            channel: opt_string_copy(&request.channel),
            authors: Vec::new(),
            license: None,
            license_url: None,
            target: Vec::new(),
        };
        descriptor.release.insert(0, r);
        i = 0;
        proof {
            placed = releases_view(descriptor.release@);
            assert(targets_view(Seq::<Target>::empty()) =~= Seq::<TargetView>::empty());
            assert(placed =~= seq![new_release(request.version, request.channel)] + rv);
        }
    } else {
        proof {
            placed = rv;
        }
    }
    let mut release = descriptor.release.remove(i);
    update_targets(&mut release.target, &request.target, &request.url);
    descriptor.release.insert(i, release);
    proof {
        assert(releases_view(descriptor.release@) =~= placed.update(
            i as int,
            ReleaseView { target: updated_targets(placed[i as int].target, request.target@, request.url), ..placed[i as int] },
        ));
    }
}

/// What `release_index` finds: a matching release with none before it.
proof fn lemma_release_index(rs: Seq<ReleaseView>, version: Seq<char>, channel: Option<Seq<char>>, start: int)
    requires
        0 <= start,
    ensures
        match release_index(rs, version, channel, start) {
            Some(i) => start <= i < rs.len() && rs[i].version@ == version && opt_view(rs[i].channel)
                == channel && forall|j: int|
                start <= j < i ==> !(rs[j].version@ == version && opt_view(rs[j].channel) == channel),
            None => true,
        },
    decreases rs.len() - start,
{
    if start < rs.len() && !(rs[start].version@ == version && opt_view(rs[start].channel) == channel) {
        lemma_release_index(rs, version, channel, start + 1);
    }
}

/// A matching release with none before it is what `release_index` finds.
proof fn lemma_release_index_at(
    rs: Seq<ReleaseView>,
    version: Seq<char>,
    channel: Option<Seq<char>>,
    start: int,
    i: int,
)
    requires
        0 <= start <= i < rs.len(),
        rs[i].version@ == version && opt_view(rs[i].channel) == channel,
        forall|j: int| start <= j < i ==> !(rs[j].version@ == version && opt_view(rs[j].channel) == channel),
    ensures
        release_index(rs, version, channel, start) == Some(i),
    decreases i - start,
{
    if start < i {
        lemma_release_index_at(rs, version, channel, start + 1, i);
    }
}

/// What `target_index` finds: a target for the platform with none before it.
proof fn lemma_target_index(ts: Seq<TargetView>, platform: Seq<char>, start: int)
    requires
        0 <= start,
    ensures
        match target_index(ts, platform, start) {
            Some(j) => start <= j < ts.len() && ts[j].platform@ == platform && forall|k: int|
                start <= k < j ==> ts[k].platform@ != platform,
            None => forall|k: int| start <= k < ts.len() ==> ts[k].platform@ != platform,
        },
    decreases ts.len() - start,
{
    if start < ts.len() && ts[start].platform@ != platform {
        lemma_target_index(ts, platform, start + 1);
    }
}

/// A target for the platform with none before it is what `target_index` finds.
proof fn lemma_target_index_at(ts: Seq<TargetView>, platform: Seq<char>, start: int, j: int)
    requires
        0 <= start <= j < ts.len(),
        ts[j].platform@ == platform,
        forall|k: int| start <= k < j ==> ts[k].platform@ != platform,
    ensures
        target_index(ts, platform, start) == Some(j),
    decreases j - start,
{
    if start < j {
        lemma_target_index_at(ts, platform, start + 1, j);
    }
}

/// After an update the descriptor has a release with the requested version
/// and channel, and that release's first target for the requested platform
/// carries the requested payload, its URL replaced by the requested URL
/// where one is given, and the requested dependencies.
pub proof fn lemma_update_places_target(d: DescriptorView, req: Request)
    ensures
        ({
            let rs = updated_descriptor(d, req).release;
            let t = req.target@;
            &&& release_index(rs, req.version@, opt_view(req.channel), 0) matches Some(i)
            &&& target_index(rs[i].target, t.platform@, 0) matches Some(j)
            &&& rs[i].target[j].payload == match req.url {
                Some(u) => payload_with_url(t.payload, u),
                None => t.payload,
            }
            &&& rs[i].target[j].dependencies == t.dependencies
        }),
{
    let v = req.version@;
    let c = opt_view(req.channel);
    let t = req.target@;
    let rs0 = d.release;
    lemma_release_index(rs0, v, c, 0);
    let (placed, i) = match release_index(rs0, v, c, 0) {
        Some(i) => (rs0, i),
        None => (seq![new_release(req.version, req.channel)] + rs0, 0int),
    };
    let ts0 = placed[i].target;
    lemma_target_index(ts0, t.platform@, 0);
    let (tplaced, j) = match target_index(ts0, t.platform@, 0) {
        Some(j) => (ts0.update(j, t), j),
        None => (seq![new_target(t)] + ts0, 0int),
    };
    let ts = updated_targets(ts0, t, req.url);
    let rs = updated_releases(rs0, req.version, req.channel, t, req.url);
    assert(rs == placed.update(i, ReleaseView { target: ts, ..placed[i] }));
    assert(rs[i].version == placed[i].version && rs[i].channel == placed[i].channel);
    if release_index(rs0, v, c, 0) is None {
        assert(placed[0] == new_release(req.version, req.channel));
    }
    assert forall|k: int| 0 <= k < i implies !(rs[k].version@ == v && opt_view(rs[k].channel) == c) by {
        assert(rs[k] == placed[k]);
        assert(placed[k] == rs0[k]);
    }
    lemma_release_index_at(rs, v, c, 0, i);
    assert(rs[i].target == ts);
    assert(ts.len() == tplaced.len());
    assert forall|k: int| 0 <= k < j implies ts[k].platform@ != t.platform@ by {
        assert(ts[k] == tplaced[k]);
        assert(tplaced[k] == ts0[k]);
    }
    lemma_target_index_at(ts, t.platform@, 0, j);
}

} // verus!
