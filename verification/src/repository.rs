use vstd::prelude::*;

use crate::fbs::FbsMap;
use crate::package_key::{KeyView, PackageKey};
use crate::repo::Descriptor;
use crate::strings::{opt_string_copy, opt_view};
use crate::url::RepoUrl;

verus! {

/// What the client remembers about a loaded repository: the channel it
/// was loaded for.
#[derive(Debug, Clone)]
pub struct LoadedRepositoryMeta {
    pub channel: Option<String>,
}

/// A repository as loaded from its index: its URL, the repositories it links
/// to, its package index keyed by package identifier, and the client's notes.
#[derive(Debug)]
pub struct LoadedRepository {
    url: RepoUrl,
    linked_repositories: Vec<RepoUrl>,
    packages: FbsMap<Descriptor>,
    meta: LoadedRepositoryMeta,
}

/// The contents of a loaded repository.
pub struct RepositoryView {
    pub url: Seq<char>,
    pub linked_repositories: Seq<Seq<char>>,
    pub packages: (Seq<String>, Seq<Descriptor>),
    pub channel: Option<Seq<char>>,
}

impl View for LoadedRepository {
    type V = RepositoryView;

    closed spec fn view(&self) -> RepositoryView {
        RepositoryView {
            url: self.url@,
            linked_repositories: self.linked_repositories@.map_values(|u: RepoUrl| u@),
            packages: self.packages@,
            channel: opt_view(self.meta.channel),
        }
    }
}

/// The contents of a list of loaded repositories.
pub open spec fn repos_view(repos: Seq<LoadedRepository>) -> Seq<RepositoryView> {
    repos.map_values(|r: LoadedRepository| r@)
}

impl LoadedRepository {
    /// Every key of the package index has a value.
    #[verifier::type_invariant]
    spec fn index_complete(&self) -> bool {
        self.packages@.0.len() <= self.packages@.1.len()
    }

    /// A loaded repository; every key of its package index must have a value.
    pub fn new(
        url: RepoUrl,
        linked_repositories: Vec<RepoUrl>,
        packages: FbsMap<Descriptor>,
        meta: LoadedRepositoryMeta,
    ) -> (r: LoadedRepository)
        requires
            packages@.0.len() <= packages@.1.len(),
        ensures
            r@.url == url@,
            r@.linked_repositories == linked_repositories@.map_values(|u: RepoUrl| u@),
            r@.packages == packages@,
            r@.channel == opt_view(meta.channel),
    {
        LoadedRepository { url, linked_repositories, packages, meta }
    }

    /// The repository's URL.
    pub fn url(&self) -> (r: &RepoUrl)
        ensures
            r@ == self@.url,
    {
        &self.url
    }

    /// The repositories this one links to.
    pub fn linked_repositories(&self) -> (r: &Vec<RepoUrl>)
        ensures
            r@.map_values(|u: RepoUrl| u@) == self@.linked_repositories,
    {
        &self.linked_repositories
    }

    /// The package index, keyed by package identifier.
    pub fn packages(&self) -> (r: &FbsMap<Descriptor>)
        ensures
            r@ == self@.packages,
            r@.0.len() <= r@.1.len(),
    {
        proof {
            use_type_invariant(self);
        }
        &self.packages
    }

    /// The client's notes on the repository.
    pub fn meta(&self) -> (r: &LoadedRepositoryMeta)
        ensures
            opt_view(r.channel) == self@.channel,
    {
        &self.meta
    }

    /// The key of a package of this repository, without query parameters.
    pub fn package_key(&self, descriptor: &Descriptor) -> (r: PackageKey)
        ensures
            r@ == (self@.url, descriptor.id@, (None::<Seq<char>>, None::<Seq<char>>, None::<Seq<char>>, None::<Seq<char>>)),
    {
        PackageKey::unchecked_new(self.url.copy(), descriptor.id.clone(), None)
    }
}

/// The first position, from `start` on, of a repository with the given URL.
pub open spec fn repo_index(repos: Seq<RepositoryView>, url: Seq<char>, start: int) -> Option<int>
    decreases repos.len() - start,
{
    if 0 <= start < repos.len() {
        if repos[start].url == url {
            Some(start)
        } else {
            repo_index(repos, url, start + 1)
        }
    } else {
        None
    }
}

/// What `repo_index` finds: a repository with the URL and none before it from
/// `start` on, or no repository with the URL at all.
pub proof fn lemma_repo_index(repos: Seq<RepositoryView>, url: Seq<char>, start: int)
    requires
        0 <= start,
    ensures
        match repo_index(repos, url, start) {
            Some(i) => start <= i < repos.len() && repos[i].url == url && forall|j: int|
                start <= j < i ==> repos[j].url != url,
            None => forall|j: int| start <= j < repos.len() ==> repos[j].url != url,
        },
    decreases repos.len() - start,
{
    if start < repos.len() && repos[start].url != url {
        lemma_repo_index(repos, url, start + 1);
    }
}

/// Whether no two repositories share a URL, as in a map keyed by URL.
pub open spec fn urls_unique(repos: Seq<RepositoryView>) -> bool {
    forall|i: int, j: int| 0 <= i < j < repos.len() ==> repos[i].url != repos[j].url
}

/// The repositories after adding one, as a map keyed by URL would hold
/// them: it takes the place of the repository with its URL, or goes last.
pub open spec fn repos_insert(repos: Seq<RepositoryView>, repo: RepositoryView) -> Seq<RepositoryView> {
    match repo_index(repos, repo.url, 0) {
        Some(i) => repos.update(i, repo),
        None => repos.push(repo),
    }
}

/// Adds a loaded repository, replacing the one loaded before from the same URL.
pub fn insert_repository(repos: &mut Vec<LoadedRepository>, repo: LoadedRepository)
    ensures
        repos_view(final(repos)@) == repos_insert(repos_view(old(repos)@), repo@),
{
    let ghost rv = repos_view(repos@);
    let ghost r = repo@;
    proof {
        lemma_repo_index(rv, r.url, 0);
    }
    match find_repo(repos, repo.url()) {
        Some(i) => {
            repos.set(i, repo);
            proof {
                assert(repos_view(repos@) =~= rv.update(i as int, r));
            }
        },
        None => {
            repos.push(repo);
            proof {
                assert(repos_view(repos@) =~= rv.push(r));
            }
        },
    }
}

/// Adding a repository keeps the URLs distinct, and a lookup of its URL then
/// finds it.
pub proof fn lemma_repos_insert(repos: Seq<RepositoryView>, repo: RepositoryView)
    requires
        urls_unique(repos),
    ensures
        urls_unique(repos_insert(repos, repo)),
        repo_index(repos_insert(repos, repo), repo.url, 0) matches Some(i) && repos_insert(repos, repo)[i]
            == repo,
{
    lemma_repo_index(repos, repo.url, 0);
    let out = repos_insert(repos, repo);
    lemma_repo_index(out, repo.url, 0);
    match repo_index(repos, repo.url, 0) {
        Some(i) => {
            assert(out[i] == repo);
            assert forall|a: int, b: int| 0 <= a < b < out.len() implies out[a].url != out[b].url by {
                if a != i && b != i {
                    assert(out[a] == repos[a] && out[b] == repos[b]);
                } else if a == i {
                    assert(out[b] == repos[b]);
                } else {
                    assert(out[a] == repos[a]);
                }
            }
            match repo_index(out, repo.url, 0) {
                Some(k) => {
                    if k < i {
                        assert(out[k] == repos[k]);
                    }
                    if k > i {
                        assert(out[i].url == repo.url);
                    }
                },
                None => {
                    assert(out[i].url == repo.url);
                },
            }
        },
        None => {
            let n = repos.len() as int;
            assert(out[n] == repo);
            assert forall|a: int, b: int| 0 <= a < b < out.len() implies out[a].url != out[b].url by {
                assert(out[a] == repos[a]);
                if b < n {
                    assert(out[b] == repos[b]);
                }
            }
            match repo_index(out, repo.url, 0) {
                Some(k) => {
                    if k < n {
                        assert(out[k] == repos[k]);
                    }
                },
                None => {
                    assert(out[n].url == repo.url);
                },
            }
        },
    }
}

/// The position of the first repository with the given URL.
pub fn find_repo(repos: &Vec<LoadedRepository>, url: &RepoUrl) -> (r: Option<usize>)
    ensures
        match r {
            Some(i) => repo_index(repos_view(repos@), url@, 0) == Some(i as int),
            None => repo_index(repos_view(repos@), url@, 0) is None,
        },
{
    let ghost rv = repos_view(repos@);
    let mut i: usize = 0;
    while i < repos.len()
        invariant
            0 <= i <= repos.len(),
            rv == repos_view(repos@),
            repo_index(rv, url@, 0) == repo_index(rv, url@, i as int),
        decreases repos.len() - i,
    {
        if repos[i].url().same_as(url) {
            return Some(i);
        }
        i = i + 1;
    }
    None
}

impl LoadedRepositoryMeta {
    /// Copies the notes.
    pub fn copy(&self) -> (r: LoadedRepositoryMeta)
        ensures
            r.channel == self.channel,
    {
        LoadedRepositoryMeta { channel: opt_string_copy(&self.channel) }
    }
}

/// The contents of a key without query parameters.
pub open spec fn bare_key(url: Seq<char>, id: Seq<char>) -> KeyView {
    (url, id, (None, None, None, None))
}

/// The keys of every package a repository's index lists, in index order,
/// without query parameters; none where no repository has the URL.
pub open spec fn repo_package_keys_spec(repos: Seq<RepositoryView>, url: Seq<char>) -> Seq<KeyView> {
    match repo_index(repos, url, 0) {
        Some(i) => repos[i].packages.0.map_values(
            |id: String| bare_key(repos[i].url, id@),
        ),
        None => Seq::empty(),
    }
}

/// The keys of every package a repository lists, for asking each one's status.
pub fn repo_package_keys(repos: &Vec<LoadedRepository>, url: &RepoUrl) -> (r: Vec<PackageKey>)
    ensures
        r@.map_values(|k: PackageKey| k@) == repo_package_keys_spec(repos_view(repos@), url@),
{
    let mut out: Vec<PackageKey> = Vec::new();
    let found = find_repo(repos, url);
    proof {
        lemma_repo_index(repos_view(repos@), url@, 0);
    }
    match found {
        None => {
            proof {
                assert(out@.map_values(|k: PackageKey| k@) =~= Seq::<KeyView>::empty());
            }
            out
        },
        Some(i) => {
            let repo = &repos[i];
            proof {
                assert(repos_view(repos@)[i as int] == repo@);
            }
            let ids = repo.packages().keys();
            let mut k: usize = 0;
            while k < ids.len()
                invariant
                    0 <= k <= ids.len(),
                    ids@.len() == repo@.packages.0.len(),
                    forall|j: int| 0 <= j < ids@.len() ==> #[trigger] ids@[j] == &repo@.packages.0[j],
                    out@.map_values(|x: PackageKey| x@) == repo@.packages.0.take(k as int).map_values(
                        |id: String| bare_key(repo@.url, id@),
                    ),
                decreases ids.len() - k,
            {
                let ghost before = out@.map_values(|x: PackageKey| x@);
                let key = PackageKey::unchecked_new(repo.url().copy(), ids[k].clone(), None);
                out.push(key);
                proof {
                    assert(repo@.packages.0.take(k + 1) =~= repo@.packages.0.take(k as int).push(
                        repo@.packages.0[k as int],
                    ));
                    assert(out@.map_values(|x: PackageKey| x@) =~= before.push(
                        bare_key(repo@.url, repo@.packages.0[k as int]@),
                    ));
                }
                k = k + 1;
            }
            proof {
                assert(repo@.packages.0.take(ids@.len() as int) =~= repo@.packages.0);
            }
            out
        },
    }
}

/// The addresses a repository is loaded from: its index, then its binary
/// package index, each appended to the repository URL after a slash.
pub open spec fn index_addresses(url: Seq<char>) -> (Seq<char>, Seq<char>) {
    (url + "/index.toml"@, url + "/packages/index.bin"@)
}

/// The addresses a repository is loaded from.
pub fn index_urls(url: &RepoUrl) -> (r: (String, String))
    ensures
        (r.0@, r.1@) == index_addresses(url@),
{
    let mut index = String::from_str(url.as_str());
    index.append("/index.toml");
    let mut packages = String::from_str(url.as_str());
    packages.append("/packages/index.bin");
    (index, packages)
}

/// The URL that `url::Url::join` makes of a relative reference against a
/// base, or `None` where the base does not parse or the join fails.
pub uninterp spec fn spec_url_join(base: Seq<char>, relative: Seq<char>) -> Option<Seq<char>>;

/// Calls `url::Url::join` on the parsed base and gives the serialization of
/// the result.
#[verifier::external_body]
fn url_join(base: &str, relative: &str) -> (r: Option<String>)
    ensures
        opt_view(r) == spec_url_join(base@, relative@),
{
    url::Url::parse(base).ok().and_then(|u| u.join(relative).ok()).map(|u| u.to_string())
}

/// The address of a repository's strings in a language: `strings/` and then
/// the language's TOML file, resolved against the repository URL.
pub open spec fn strings_address(url: Seq<char>, language: Seq<char>) -> Option<Seq<char>> {
    match spec_url_join(url, "strings/"@) {
        Some(dir) => spec_url_join(dir, language + ".toml"@),
        None => None,
    }
}

/// The address of a repository's strings in a language; `None` where a join fails.
pub fn strings_url(url: &RepoUrl, language: &str) -> (r: Option<String>)
    ensures
        opt_view(r) == strings_address(url@, language@),
{
    match url_join(url.as_str(), "strings/") {
        Some(dir) => {
            let mut file = String::from_str(language);
            file.append(".toml");
            url_join(dir.as_str(), file.as_str())
        },
        None => None,
    }
}

} // verus!
