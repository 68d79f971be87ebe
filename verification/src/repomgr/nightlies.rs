use vstd::prelude::*;

use crate::repo::{payload_url, releases_view, Release, ReleaseView};

verus! {

/// Why no repository was found above a path.
#[derive(Debug)]
pub enum FindRepoError {
    Io(std::io::Error),
    NotFound,
}

/// A request to prune nightly releases: the repository, and how many
/// nightly releases of each package to keep.
#[derive(Debug, Clone)]
pub struct Request {
    pub repo_path: String,
    pub keep: u32,
}

/// Whether a release is on the nightly channel.
pub open spec fn is_nightly(r: ReleaseView) -> bool {
    r.channel matches Some(c) && c@ == "nightly"@
}

/// How many releases are nightly.
pub open spec fn nightly_count(rs: Seq<ReleaseView>) -> nat
    decreases rs.len(),
{
    if rs.len() == 0 {
        0
    } else {
        nightly_count(rs.drop_last()) + if is_nightly(rs.last()) {
            1nat
        } else {
            0nat
        }
    }
}

/// Whether the last release is a nightly beyond the first `keep` nightlies.
pub open spec fn dropped_last(rs: Seq<ReleaseView>, keep: nat) -> bool {
    rs.len() > 0 && is_nightly(rs.last()) && nightly_count(rs) > keep
}

/// The releases kept when pruning: every release but the nightlies after
/// the first `keep` of them, in order.
pub open spec fn pruned(rs: Seq<ReleaseView>, keep: nat) -> Seq<ReleaseView>
    decreases rs.len(),
{
    if rs.len() == 0 {
        Seq::empty()
    } else if dropped_last(rs, keep) {
        pruned(rs.drop_last(), keep)
    } else {
        pruned(rs.drop_last(), keep).push(rs.last())
    }
}

/// The payload URLs of the targets of a release.
pub open spec fn release_urls(r: ReleaseView) -> Seq<Seq<char>> {
    r.target.map_values(|t: crate::repo::TargetView| payload_url(t.payload)@)
}

/// The payload URLs of the releases dropped when pruning, release by release.
pub open spec fn dropped_urls(rs: Seq<ReleaseView>, keep: nat) -> Seq<Seq<char>>
    decreases rs.len(),
{
    if rs.len() == 0 {
        Seq::empty()
    } else if dropped_last(rs, keep) {
        dropped_urls(rs.drop_last(), keep) + release_urls(rs.last())
    } else {
        dropped_urls(rs.drop_last(), keep)
    }
}

/// Prunes nightly releases: keeps the first `keep` nightly releases and every
/// other release, in order, and gives the payload URLs of those dropped.
pub fn prune_nightlies(releases: Vec<Release>, keep: u32) -> (r: (Vec<Release>, Vec<String>))
    ensures
        releases_view(r.0@) == pruned(releases_view(releases@), keep as nat),
        r.1@.map_values(|u: String| u@) == dropped_urls(releases_view(releases@), keep as nat),
{
    let ghost rv = releases_view(releases@);
    let mut rest = releases;
    let mut kept: Vec<Release> = Vec::new();
    let mut urls: Vec<String> = Vec::new();
    let mut count: u64 = 0;
    let n = rest.len();
    let mut i: usize = 0;
    let nightly = String::from_str("nightly");
    proof {
        assert(rv.take(0) =~= Seq::<ReleaseView>::empty());
        assert(releases_view(kept@) =~= Seq::<ReleaseView>::empty());
        assert(urls@.map_values(|u: String| u@) =~= Seq::<Seq<char>>::empty());
    }
    while i < n
        invariant
            0 <= i <= n,
            n == rv.len(),
            rest@.len() == n - i,
            forall|j: int| 0 <= j < rest@.len() ==> #[trigger] rest@[j]@ == rv[i + j],
            nightly@ == "nightly"@,
            count == nightly_count(rv.take(i as int)),
            count <= i,
            releases_view(kept@) == pruned(rv.take(i as int), keep as nat),
            urls@.map_values(|u: String| u@) == dropped_urls(rv.take(i as int), keep as nat),
        decreases n - i,
    {
        let ghost before = rest@;
        let release = rest.remove(0);
        proof {
            assert(release@ == rv[i as int]);
            assert forall|j: int| 0 <= j < rest@.len() implies #[trigger] rest@[j]@ == rv[i + 1 + j] by {
                assert(rest@[j] == before[j + 1]);
            }
            assert(rv.take(i + 1).drop_last() =~= rv.take(i as int));
            assert(rv.take(i + 1).last() == release@);
        }
        let is_nightly_release = match &release.channel {
            Some(c) => c.eq(&nightly),
            None => false,
        };
        if is_nightly_release {
            count = count + 1;
        }
        if is_nightly_release && count > keep as u64 {
            let ghost before_urls = urls@.map_values(|u: String| u@);
            let mut k: usize = 0;
            while k < release.target.len()
                invariant
                    0 <= k <= release.target.len(),
                    urls@.map_values(|u: String| u@) == before_urls + release_urls(release@).take(k as int),
                decreases release.target.len() - k,
            {
                let ghost prev = urls@.map_values(|u: String| u@);
                let u = release.target[k].payload.url().clone();
                urls.push(u);
                proof {
                    assert(release@.target[k as int] == release.target@[k as int]@);
                    assert(release_urls(release@).take(k + 1) =~= release_urls(release@).take(k as int).push(u@));
                    assert(urls@.map_values(|u: String| u@) =~= prev.push(u@));
                }
                k = k + 1;
            }
            proof {
                assert(release_urls(release@).take(release.target.len() as int) =~= release_urls(release@));
            }
        } else {
            let ghost before_kept = releases_view(kept@);
            let ghost rel = release@;
            kept.push(release);
            proof {
                assert(releases_view(kept@) =~= before_kept.push(rel));
            }
        }
        i = i + 1;
    }
    proof {
        assert(rv.take(n as int) =~= rv);
    }
    (kept, urls)
}

/// The pruned releases hold the first `keep` nightly releases, or all of
/// them where there are fewer.
pub proof fn lemma_pruned_nightly_count(rs: Seq<ReleaseView>, keep: nat)
    ensures
        nightly_count(pruned(rs, keep)) == if nightly_count(rs) <= keep {
            nightly_count(rs)
        } else {
            keep
        },
    decreases rs.len(),
{
    if rs.len() > 0 {
        lemma_pruned_nightly_count(rs.drop_last(), keep);
        let p = pruned(rs.drop_last(), keep);
        if !dropped_last(rs, keep) {
            assert(p.push(rs.last()).drop_last() =~= p);
        }
    }
}

/// Pruning keeps every release that is not nightly: a release that is not
/// nightly is among the pruned releases as often as among all releases.
pub proof fn lemma_pruned_keeps_others(rs: Seq<ReleaseView>, keep: nat, r: ReleaseView)
    requires
        !is_nightly(r),
    ensures
        pruned(rs, keep).to_multiset().count(r) == rs.to_multiset().count(r),
    decreases rs.len(),
{
    if rs.len() > 0 {
        lemma_pruned_keeps_others(rs.drop_last(), keep, r);
        let init = rs.drop_last();
        let last = rs.last();
        assert(rs =~= init.push(last));
        init.to_multiset_ensures();
        assert(init.push(last).to_multiset() =~= init.to_multiset().insert(last));
        let p = pruned(init, keep);
        p.to_multiset_ensures();
        if !dropped_last(rs, keep) {
            assert(p.push(last).to_multiset() =~= p.to_multiset().insert(last));
        } else {
            assert(last != r);
        }
        assert(rs.to_multiset().count(r) == init.to_multiset().count(r) + if last == r {
            1nat
        } else {
            0nat
        });
    } else {
        assert(rs =~= Seq::<ReleaseView>::empty());
    }
}

/// Pruning twice with the same number to keep prunes nothing more.
pub proof fn lemma_prune_idempotent(rs: Seq<ReleaseView>, keep: nat)
    ensures
        pruned(pruned(rs, keep), keep) == pruned(rs, keep),
    decreases rs.len(),
{
    if rs.len() > 0 {
        let init = rs.drop_last();
        lemma_prune_idempotent(init, keep);
        lemma_pruned_nightly_count(init, keep);
        let p = pruned(init, keep);
        if !dropped_last(rs, keep) {
            let q = p.push(rs.last());
            assert(q.drop_last() =~= p);
            assert(q.last() == rs.last());
            if is_nightly(rs.last()) {
                assert(nightly_count(q) == nightly_count(p) + 1);
            }
        }
    }
}

} // verus!
