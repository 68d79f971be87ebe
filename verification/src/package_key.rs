use vstd::prelude::*;

use crate::strings::{opt_string_copy, opt_string_eq, opt_view};
use crate::url::{
    RepoUrlError, blank, is_blank, pairs_view, spec_url_append_pairs, spec_url_path_segments, spec_url_push_path,
    spec_url_query, spec_url_query_pairs, spec_url_replace_path, spec_url_serialization,
    spec_url_is_base, spec_url_without_fragment, spec_url_without_query, strings_view, url_append_pairs,
    url_path_segments, url_push_path, url_query, url_query_pairs, url_replace_path, url_serialization,
    url_without_fragment, url_without_query, RepoUrl,
};

verus! {

/// Query parameters of a package key: they narrow which release is meant.
#[derive(Debug, Clone, Default)]
pub struct PackageKeyParams {
    pub channel: Option<String>,
    pub platform: Option<String>,
    pub version: Option<String>,
    pub arch: Option<String>,
}

/// The contents of the query parameters: channel, platform, version, arch.
pub type ParamsView = (Option<Seq<char>>, Option<Seq<char>>, Option<Seq<char>>, Option<Seq<char>>);

impl View for PackageKeyParams {
    type V = ParamsView;

    open spec fn view(&self) -> ParamsView {
        (opt_view(self.channel), opt_view(self.platform), opt_view(self.version), opt_view(self.arch))
    }
}

impl PackageKeyParams {
    /// Parameters that narrow nothing.
    pub fn empty() -> (r: PackageKeyParams)
        ensures
            r@ == (None::<Seq<char>>, None::<Seq<char>>, None::<Seq<char>>, None::<Seq<char>>),
    {
        PackageKeyParams { channel: None, platform: None, version: None, arch: None }
    }

    /// Compares two parameter sets by their contents.
    pub fn same_as(&self, other: &PackageKeyParams) -> (r: bool)
        ensures
            r == (self@ == other@),
    {
        opt_string_eq(&self.channel, &other.channel) && opt_string_eq(&self.platform, &other.platform)
            && opt_string_eq(&self.version, &other.version) && opt_string_eq(&self.arch, &other.arch)
    }

    /// Copies the parameters.
    pub fn copy(&self) -> (r: PackageKeyParams)
        ensures
            r == *self,
    {
        PackageKeyParams {
            channel: opt_string_copy(&self.channel),
            platform: opt_string_copy(&self.platform),
            version: opt_string_copy(&self.version),
            arch: opt_string_copy(&self.arch),
        }
    }
}

/// Identifies a package: the repository it comes from, its identifier and
/// optional query parameters. The repository URL is held in its serialized form.
#[derive(Debug)]
pub struct PackageKey {
    pub repository_url: RepoUrl,
    pub id: String,
    pub query: PackageKeyParams,
}

/// The contents of a package key: repository URL, identifier, parameters.
pub type KeyView = (Seq<char>, Seq<char>, ParamsView);

impl View for PackageKey {
    type V = KeyView;

    open spec fn view(&self) -> KeyView {
        (self.repository_url@, self.id@, self.query@)
    }
}

/// Why a URL could not be read as a package key.
#[derive(Debug, Clone, Copy, PartialEq, Eq, Structural)]
#[non_exhaustive]
pub enum TryFromError {
    InvalidUrl,
    BaseForbidden,
    MissingPackagesSegment,
    InvalidPackageSegment,
}

impl PackageKey {
    /// Builds a key from its parts without checking them; absent parameters
    /// become empty parameters.
    pub fn unchecked_new(repository_url: RepoUrl, id: String, args: Option<PackageKeyParams>) -> (r:
        PackageKey)
        ensures
            r.repository_url == repository_url,
            r.id == id,
            r.query == match args {
                Some(p) => p,
                None => PackageKeyParams { channel: None, platform: None, version: None, arch: None },
            },
    {
        let query = match args {
            Some(p) => p,
            None => PackageKeyParams::empty(),
        };
        PackageKey { repository_url, id, query }
    }

    /// The same key with every query parameter removed.
    pub fn without_query_params(self) -> (r: PackageKey)
        ensures
            r.repository_url@ == self.repository_url@,
            r.id == self.id,
            r.query@ == (None::<Seq<char>>, None::<Seq<char>>, None::<Seq<char>>, None::<Seq<char>>),
    {
        PackageKey { repository_url: self.repository_url, id: self.id, query: PackageKeyParams::empty() }
    }

    /// Compares two keys by their contents.
    pub fn same_as(&self, other: &PackageKey) -> (r: bool)
        ensures
            r == (self@ == other@),
    {
        self.repository_url.same_as(&other.repository_url) && self.id == other.id && self.query.same_as(
            &other.query,
        )
    }

    /// Copies the key.
    pub fn copy(&self) -> (r: PackageKey)
        ensures
            r@ == self@,
    {
        PackageKey {
            repository_url: self.repository_url.copy(),
            id: self.id.clone(),
            query: self.query.copy(),
        }
    }
}

/// The query parameters a list of query pairs sets: the last `version`,
/// `channel`, `platform` and `arch` pair of each kind wins; other pairs are ignored.
pub open spec fn params_of_pairs(pairs: Seq<(Seq<char>, Seq<char>)>) -> ParamsView
    decreases pairs.len(),
{
    if pairs.len() == 0 {
        (None, None, None, None)
    } else {
        let p = params_of_pairs(pairs.drop_last());
        let (k, v) = pairs.last();
        if k == "version"@ {
            (p.0, p.1, Some(v), p.3)
        } else if k == "channel"@ {
            (Some(v), p.1, p.2, p.3)
        } else if k == "platform"@ {
            (p.0, Some(v), p.2, p.3)
        } else if k == "arch"@ {
            (p.0, p.1, p.2, Some(v))
        } else {
            p
        }
    }
}

/// The query pairs that express the parameters, in the order arch, channel,
/// platform, version; absent parameters give no pair.
pub open spec fn pairs_of_params(p: ParamsView) -> Seq<(Seq<char>, Seq<char>)> {
    let a = match p.3 {
        Some(v) => seq![("arch"@, v)],
        None => Seq::empty(),
    };
    let c = match p.0 {
        Some(v) => seq![("channel"@, v)],
        None => Seq::empty(),
    };
    let pl = match p.1 {
        Some(v) => seq![("platform"@, v)],
        None => Seq::empty(),
    };
    let ve = match p.2 {
        Some(v) => seq![("version"@, v)],
        None => Seq::empty(),
    };
    a + c + pl + ve
}

/// Reads the package key parameters from query pairs.
pub fn params_from_pairs(pairs: &Vec<(String, String)>) -> (r: PackageKeyParams)
    ensures
        r@ == params_of_pairs(pairs_view(pairs@)),
{
    let version_key = String::from_str("version");
    let channel_key = String::from_str("channel");
    let platform_key = String::from_str("platform");
    let arch_key = String::from_str("arch");
    proof {
        reveal_strlit("version");
        reveal_strlit("channel");
        reveal_strlit("platform");
        reveal_strlit("arch");
    }
    let mut query = PackageKeyParams::empty();
    let mut i: usize = 0;
    while i < pairs.len()
        invariant
            0 <= i <= pairs.len(),
            version_key@ == "version"@,
            channel_key@ == "channel"@,
            platform_key@ == "platform"@,
            arch_key@ == "arch"@,
            query@ == params_of_pairs(pairs_view(pairs@.subrange(0, i as int))),
        decreases pairs.len() - i,
    {
        let k = &pairs[i].0;
        let v = &pairs[i].1;
        if k.eq(&version_key) {
            query.version = Some(v.clone());
        } else if k.eq(&channel_key) {
            query.channel = Some(v.clone());
        } else if k.eq(&platform_key) {
            query.platform = Some(v.clone());
        } else if k.eq(&arch_key) {
            query.arch = Some(v.clone());
        }
        proof {
            let sub = pairs_view(pairs@.subrange(0, i + 1));
            assert(sub.drop_last() =~= pairs_view(pairs@.subrange(0, i as int)));
            assert(sub.last() == (pairs@[i as int].0@, pairs@[i as int].1@));
        }
        i = i + 1;
    }
    assert(pairs@.subrange(0, pairs@.len() as int) == pairs@);
    query
}

/// Writes the package key parameters as query pairs.
pub fn pairs_from_params(params: &PackageKeyParams) -> (r: Vec<(String, String)>)
    ensures
        pairs_view(r@) == pairs_of_params(params@),
{
    proof {
        reveal_strlit("version");
        reveal_strlit("channel");
        reveal_strlit("platform");
        reveal_strlit("arch");
    }
    let mut out: Vec<(String, String)> = Vec::new();
    if let Some(arch) = &params.arch {
        out.push((String::from_str("arch"), arch.clone()));
    }
    let ghost a = out@;
    if let Some(channel) = &params.channel {
        out.push((String::from_str("channel"), channel.clone()));
    }
    let ghost c = out@;
    if let Some(platform) = &params.platform {
        out.push((String::from_str("platform"), platform.clone()));
    }
    let ghost pl = out@;
    if let Some(version) = &params.version {
        out.push((String::from_str("version"), version.clone()));
    }
    assert(pairs_view(out@) =~= pairs_of_params(params@));
    out
}

/// Reading back the pairs written for some parameters gives the parameters.
pub proof fn lemma_params_pairs_roundtrip(p: ParamsView)
    ensures
        params_of_pairs(pairs_of_params(p)) == p,
{
    reveal_strlit("version");
    reveal_strlit("channel");
    reveal_strlit("platform");
    reveal_strlit("arch");
    let s = pairs_of_params(p);
    let a = match p.3 {
        Some(v) => seq![("arch"@, v)],
        None => Seq::<(Seq<char>, Seq<char>)>::empty(),
    };
    let c = match p.0 {
        Some(v) => seq![("channel"@, v)],
        None => Seq::<(Seq<char>, Seq<char>)>::empty(),
    };
    let pl = match p.1 {
        Some(v) => seq![("platform"@, v)],
        None => Seq::<(Seq<char>, Seq<char>)>::empty(),
    };
    let ve = match p.2 {
        Some(v) => seq![("version"@, v)],
        None => Seq::<(Seq<char>, Seq<char>)>::empty(),
    };
    assert("arch"@.len() == 4 && "version"@.len() == 7 && "channel"@.len() == 7
        && "platform"@.len() == 8);
    assert("channel"@[0] != "version"@[0]);
    let s1 = a;
    let s2 = a + c;
    let s3 = a + c + pl;
    assert(params_of_pairs(Seq::empty()) == (None::<Seq<char>>, None::<Seq<char>>, None::<Seq<char>>, None::<Seq<char>>));
    if p.3 is Some {
        assert(s1.drop_last() =~= Seq::<(Seq<char>, Seq<char>)>::empty());
    }
    assert(params_of_pairs(s1) == (None::<Seq<char>>, None::<Seq<char>>, None::<Seq<char>>, p.3));
    if p.0 is Some {
        assert(s2.drop_last() =~= s1);
    } else {
        assert(s2 =~= s1);
    }
    assert(params_of_pairs(s2) == (p.0, None::<Seq<char>>, None::<Seq<char>>, p.3));
    if p.1 is Some {
        assert(s3.drop_last() =~= s2);
    } else {
        assert(s3 =~= s2);
    }
    assert(params_of_pairs(s3) == (p.0, p.1, None::<Seq<char>>, p.3));
    if p.2 is Some {
        assert(s.drop_last() =~= s3);
    } else {
        assert(s =~= s3);
    }
}

/// How a URL path splits around its `packages` segment: the segments before
/// it and the package identifier after it. The first `packages` segment
/// counts, and exactly one segment must follow it.
pub open spec fn package_split(segs: Seq<Seq<char>>) -> Result<(Seq<Seq<char>>, Seq<char>), TryFromError> {
    if !segs.contains("packages"@) {
        Err(TryFromError::MissingPackagesSegment)
    } else if segs.len() >= 2 && segs[segs.len() - 2] == "packages"@ && !segs.subrange(
        0,
        segs.len() - 2,
    ).contains("packages"@) {
        Ok((segs.subrange(0, segs.len() - 2), segs[segs.len() - 1]))
    } else {
        Err(TryFromError::InvalidPackageSegment)
    }
}

/// The contents of a split result.
pub open spec fn split_view(r: Result<(Vec<String>, String), TryFromError>) -> Result<
    (Seq<Seq<char>>, Seq<char>),
    TryFromError,
> {
    match r {
        Ok((left, id)) => Ok((strings_view(left@), id@)),
        Err(e) => Err(e),
    }
}

/// Splits URL path segments around the first `packages` segment into the
/// repository part and the package identifier.
pub fn split_package_segments(segments: &Vec<String>) -> (r: Result<(Vec<String>, String), TryFromError>)
    ensures
        split_view(r) == package_split(strings_view(segments@)),
{
    let packages = String::from_str("packages");
    proof {
        reveal_strlit("packages");
    }
    let ghost segs = strings_view(segments@);
    let n = segments.len();
    let mut p: usize = 0;
    while p < n
        invariant
            0 <= p <= n,
            n == segments.len(),
            segs == strings_view(segments@),
            packages@ == "packages"@,
            forall|j: int| 0 <= j < p ==> segs[j] != "packages"@,
        ensures
            0 <= p <= n,
            forall|j: int| 0 <= j < p ==> segs[j] != "packages"@,
            p < n ==> segs[p as int] == "packages"@,
        decreases n - p,
    {
        if segments[p].eq(&packages) {
            break;
        }
        p = p + 1;
    }
    if p == n {
        assert(!segs.contains("packages"@)) by {
            if segs.contains("packages"@) {
                let k = choose|k: int| 0 <= k < segs.len() && segs[k] == "packages"@;
                assert(segs[k] != "packages"@);
            }
        }
        return Err(TryFromError::MissingPackagesSegment);
    }
    assert(segs[p as int] == "packages"@);
    assert(segs.contains("packages"@));
    if n - p != 2 {
        assert(!(segs.len() >= 2 && segs[segs.len() - 2] == "packages"@ && !segs.subrange(
            0,
            segs.len() - 2,
        ).contains("packages"@))) by {
            if segs.len() >= 2 && segs[segs.len() - 2] == "packages"@ {
                if p < n - 2 {
                    assert(segs.subrange(0, segs.len() - 2)[p as int] == "packages"@);
                }
            }
        }
        return Err(TryFromError::InvalidPackageSegment);
    }
    let mut left: Vec<String> = Vec::new();
    let mut i: usize = 0;
    while i < p
        invariant
            0 <= i <= p,
            p + 2 == n,
            n == segments.len(),
            left@ == segments@.subrange(0, i as int),
        decreases p - i,
    {
        left.push(segments[i].clone());
        i = i + 1;
        assert(left@ == segments@.subrange(0, i as int));
    }
    let id = segments[p + 1].clone();
    assert(strings_view(left@) =~= segs.subrange(0, segs.len() - 2));
    assert(!segs.subrange(0, segs.len() - 2).contains("packages"@)) by {
        let sub = segs.subrange(0, segs.len() - 2);
        if sub.contains("packages"@) {
            let k = choose|k: int| 0 <= k < sub.len() && sub[k] == "packages"@;
            assert(segs[k] == "packages"@);
        }
    }
    Ok((left, id))
}

/// Splitting the path of a repository base followed by `packages` and an
/// identifier gives the base and the identifier back, where the base itself
/// has no `packages` segment.
pub proof fn lemma_package_split_roundtrip(base: Seq<Seq<char>>, id: Seq<char>)
    requires
        !base.contains("packages"@),
    ensures
        package_split(base + seq!["packages"@, id]) == Ok::<(Seq<Seq<char>>, Seq<char>), TryFromError>(
            (base, id),
        ),
{
    let segs = base + seq!["packages"@, id];
    assert(segs[base.len() as int] == "packages"@);
    assert(segs.contains("packages"@));
    assert(segs.subrange(0, segs.len() - 2) =~= base);
}

/// The package key a URL reads as, with the URL given by its serialization:
/// the query gives the parameters, the query and fragment are dropped, and
/// the path splits around its `packages` segment; the repository URL keeps
/// the segments before it, with a trailing empty segment.
/// The repository URL is the URL that edited text parses to; where the
/// edit leaves a URL without a host with a path starting `//`, that is not
/// the edited text itself.
pub open spec fn key_from_url(url: Seq<char>) -> Result<KeyView, TryFromError> {
    match (spec_url_query_pairs(url), spec_url_without_query(url)) {
        (Some(pairs), Some(t1)) => match spec_url_without_fragment(t1) {
            None => Err(TryFromError::InvalidUrl),
            Some(t2) => match spec_url_path_segments(t2) {
                None => Err(TryFromError::InvalidUrl),
                Some(None) => Err(TryFromError::BaseForbidden),
                Some(Some(segs)) => match package_split(segs) {
                    Err(e) => Err(e),
                    Ok((left, id)) => match spec_url_replace_path(t2, left.push(Seq::empty())) {
                        None => Err(TryFromError::InvalidUrl),
                        Some(None) => Err(TryFromError::BaseForbidden),
                        Some(Some(t3)) => match spec_url_serialization(t3) {
                            None => Err(TryFromError::InvalidUrl),
                            Some(repo) => if spec_url_is_base(repo) {
                                Ok((repo, id, params_of_pairs(pairs)))
                            } else {
                                Err(TryFromError::BaseForbidden)
                            },
                        },
                    },
                },
            },
        },
        _ => Err(TryFromError::InvalidUrl),
    }
}

/// The package key a text reads as: it must parse as a URL first.
pub open spec fn key_from_text(text: Seq<char>) -> Result<KeyView, TryFromError> {
    match spec_url_serialization(text) {
        None => Err(TryFromError::InvalidUrl),
        Some(url) => key_from_url(url),
    }
}

/// The contents of a key result.
pub open spec fn key_result_view(r: Result<PackageKey, TryFromError>) -> Result<KeyView, TryFromError> {
    match r {
        Ok(k) => Ok(k@),
        Err(e) => Err(e),
    }
}

/// The URL of a package key: the repository URL with `packages` and the
/// identifier appended to its path and the parameters appended to its query,
/// a query left blank being removed. Each step's URL parses again, so the
/// steps always give a URL.
pub open spec fn key_url(k: KeyView) -> Option<Seq<char>> {
    match spec_url_push_path(k.0, seq!["packages"@, k.1]) {
        Some(Some(t1)) => match spec_url_append_pairs(t1, pairs_of_params(k.2)) {
            None => None,
            Some(t2) => match spec_url_query(t2) {
                None => None,
                Some(None) => Some(t2),
                Some(Some(q)) => if is_blank(q) {
                    spec_url_without_query(t2)
                } else {
                    Some(t2)
                },
            },
        },
        _ => None,
    }
}

impl PackageKey {
    /// Reads a package key from a URL given by its serialization.
    pub fn try_from_url(url: &str) -> (r: Result<PackageKey, TryFromError>)
        ensures
            key_result_view(r) == key_from_url(url@),
    {
        let pairs = match url_query_pairs(url) {
            Some(p) => p,
            None => return Err(TryFromError::InvalidUrl),
        };
        let t1 = match url_without_query(url) {
            Some(t) => t,
            None => return Err(TryFromError::InvalidUrl),
        };
        let t2 = match url_without_fragment(t1.as_str()) {
            Some(t) => t,
            None => return Err(TryFromError::InvalidUrl),
        };
        let query = params_from_pairs(&pairs);
        let segments = match url_path_segments(t2.as_str()) {
            None => return Err(TryFromError::InvalidUrl),
            Some(None) => return Err(TryFromError::BaseForbidden),
            Some(Some(s)) => s,
        };
        let (mut left, id) = match split_package_segments(&segments) {
            Ok(v) => v,
            Err(e) => return Err(e),
        };
        left.push(String::new());
        proof {
            assert(strings_view(left@) =~= package_split(strings_view(segments@))->Ok_0.0.push(
                Seq::empty(),
            ));
        }
        let t3 = match url_replace_path(t2.as_str(), &left) {
            None => return Err(TryFromError::InvalidUrl),
            Some(None) => return Err(TryFromError::BaseForbidden),
            Some(Some(t)) => t,
        };
        let repository_url = match RepoUrl::new(t3.as_str()) {
            Ok(u) => u,
            Err(RepoUrlError::InvalidUrl) => return Err(TryFromError::InvalidUrl),
            Err(RepoUrlError::CannotBeABase) => return Err(TryFromError::BaseForbidden),
        };
        Ok(PackageKey { repository_url, id, query })
    }

    /// Reads a package key from a text, which must parse as a URL.
    pub fn try_from_str(text: &str) -> (r: Result<PackageKey, TryFromError>)
        ensures
            key_result_view(r) == key_from_text(text@),
    {
        match url_serialization(text) {
            None => Err(TryFromError::InvalidUrl),
            Some(url) => PackageKey::try_from_url(url.as_str()),
        }
    }

    /// The URL of the key: the repository URL with `packages` and the
    /// identifier appended to its path, and the parameters to its query.
    pub fn to_string(&self) -> (r: String)
        ensures
            key_url(self@) == Some(r@),
    {
        let base = self.repository_url.as_str();
        let mut segments: Vec<String> = Vec::new();
        segments.push(String::from_str("packages"));
        segments.push(self.id.clone());
        proof {
            reveal_strlit("packages");
            assert(strings_view(segments@) =~= seq!["packages"@, self.id@]);
        }
        let t1 = match url_push_path(base, &segments) {
            Some(Some(t)) => t,
            _ => {
                assert(false);
                return String::new();
            },
        };
        let pairs = pairs_from_params(&self.query);
        let t2 = match url_append_pairs(t1.as_str(), &pairs) {
            Some(t) => t,
            None => {
                assert(false);
                return String::new();
            },
        };
        match url_query(t2.as_str()) {
            Some(Some(q)) => {
                if blank(q.as_str()) {
                    match url_without_query(t2.as_str()) {
                        Some(t) => t,
                        None => {
                            assert(false);
                            String::new()
                        },
                    }
                } else {
                    t2
                }
            },
            Some(None) => t2,
            None => {
                assert(false);
                String::new()
            },
        }
    }
}

} // verus!
