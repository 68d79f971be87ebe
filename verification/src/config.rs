use vstd::prelude::*;

use crate::strings::{opt_string_copy, opt_view};
use crate::url::RepoUrl;

verus! {

/// Whether a configuration file may be written.
#[derive(Debug, Clone, Copy, PartialEq, Eq, Structural)]
pub enum Permission {
    ReadOnly,
    ReadWrite,
}

/// What the configuration records of a repository: the channel to follow.
#[derive(Debug, Clone, Default)]
pub struct RepoRecord {
    pub channel: Option<String>,
}

impl RepoRecord {
    /// Copies the record.
    pub fn copy(&self) -> (r: RepoRecord)
        ensures
            r.channel == self.channel,
    {
        RepoRecord { channel: opt_string_copy(&self.channel) }
    }
}

/// The declaration of `indexmap::IndexMap`, the ordered map the configured
/// repositories are kept in.
#[verifier::external_type_specification]
#[verifier::external_body]
#[verifier::reject_recursive_types(K)]
#[verifier::reject_recursive_types(V)]
#[verifier::reject_recursive_types(S)]
pub struct ExIndexMap<K, V, S>(indexmap::IndexMap<K, V, S>);

/// The entries of a map of repositories, in the map's order: each
/// repository URL with the channel recorded for it.
pub uninterp spec fn repo_entries(m: indexmap::IndexMap<String, RepoRecord>) -> Seq<(Seq<char>, Option<Seq<char>>)>;

/// Whether the keys of entries are all different.
pub open spec fn entry_keys_unique(e: Seq<(Seq<char>, Option<Seq<char>>)>) -> bool {
    forall|i: int, j: int| 0 <= i < j < e.len() ==> e[i].0 != e[j].0
}

/// The first position, from `start` on, of an entry with a key.
pub open spec fn entry_index(e: Seq<(Seq<char>, Option<Seq<char>>)>, key: Seq<char>, start: int) -> Option<int>
    decreases e.len() - start,
{
    if 0 <= start < e.len() {
        if e[start].0 == key {
            Some(start)
        } else {
            entry_index(e, key, start + 1)
        }
    } else {
        None
    }
}

/// The value entries give a key.
pub open spec fn entry_lookup(e: Seq<(Seq<char>, Option<Seq<char>>)>, key: Seq<char>) -> Option<Option<Seq<char>>> {
    match entry_index(e, key, 0) {
        Some(i) => Some(e[i].1),
        None => None,
    }
}

/// The entries after inserting: an existing key keeps its place and takes
/// the new value; a new key goes last.
pub open spec fn entries_insert(e: Seq<(Seq<char>, Option<Seq<char>>)>, key: Seq<char>, value: Option<Seq<char>>) -> Seq<
    (Seq<char>, Option<Seq<char>>),
> {
    match entry_index(e, key, 0) {
        Some(i) => e.update(i, (key, value)),
        None => e.push((key, value)),
    }
}

/// The entries after removing a key by swapping: the last entry takes the
/// removed entry's place.
pub open spec fn entries_swap_remove(e: Seq<(Seq<char>, Option<Seq<char>>)>, key: Seq<char>) -> Seq<
    (Seq<char>, Option<Seq<char>>),
> {
    match entry_index(e, key, 0) {
        Some(i) => e.update(i, e.last()).drop_last(),
        None => e,
    }
}

/// An empty map, through `IndexMap::new`.
#[verifier::external_body]
fn index_map_new() -> (r: indexmap::IndexMap<String, RepoRecord>)
    ensures
        repo_entries(r) == Seq::<(Seq<char>, Option<Seq<char>>)>::empty(),
{
    indexmap::IndexMap::new()
}

/// `IndexMap::insert`: an equal key keeps its place in the order and takes
/// the new value, the old one being returned; a new key is put last. Keys
/// stay different.
#[verifier::external_body]
fn index_map_insert(m: &mut indexmap::IndexMap<String, RepoRecord>, key: String, value: RepoRecord) -> (r:
    Option<RepoRecord>)
    ensures
        repo_entries(*final(m)) == entries_insert(repo_entries(*old(m)), key@, opt_view(value.channel)),
        match r {
            Some(v) => entry_lookup(repo_entries(*old(m)), key@) == Some(opt_view(v.channel)),
            None => entry_lookup(repo_entries(*old(m)), key@) is None,
        },
        entry_keys_unique(repo_entries(*final(m))),
{
    m.insert(key, value)
}

/// `IndexMap::swap_remove`: the entry with the key is removed and the last
/// entry takes its place; its value is returned. Keys stay different.
#[verifier::external_body]
fn index_map_swap_remove(m: &mut indexmap::IndexMap<String, RepoRecord>, key: &String) -> (r: Option<
    RepoRecord,
>)
    ensures
        repo_entries(*final(m)) == entries_swap_remove(repo_entries(*old(m)), key@),
        match r {
            Some(v) => entry_lookup(repo_entries(*old(m)), key@) == Some(opt_view(v.channel)),
            None => entry_lookup(repo_entries(*old(m)), key@) is None,
        },
        entry_keys_unique(repo_entries(*final(m))),
{
    m.swap_remove(key)
}

/// `IndexMap::get`: the value of the key, if present.
#[verifier::external_body]
fn index_map_get<'a>(m: &'a indexmap::IndexMap<String, RepoRecord>, key: &String) -> (r: Option<&'a RepoRecord>)
    ensures
        match r {
            Some(v) => entry_lookup(repo_entries(*m), key@) == Some(opt_view(v.channel)),
            None => entry_lookup(repo_entries(*m), key@) is None,
        },
{
    m.get(key)
}

/// `IndexMap::len`: the number of entries.
#[verifier::external_body]
fn index_map_len(m: &indexmap::IndexMap<String, RepoRecord>) -> (r: usize)
    ensures
        r == repo_entries(*m).len(),
{
    m.len()
}

/// The configured repositories, by URL, in the order they were added.
#[derive(Debug)]
pub struct ReposData {
    map: indexmap::IndexMap<String, RepoRecord>,
}

impl View for ReposData {
    type V = Seq<(Seq<char>, Option<Seq<char>>)>;

    closed spec fn view(&self) -> Seq<(Seq<char>, Option<Seq<char>>)> {
        repo_entries(self.map)
    }
}

impl ReposData {
    /// No repositories.
    pub fn new() -> (r: ReposData)
        ensures
            r@ == Seq::<(Seq<char>, Option<Seq<char>>)>::empty(),
    {
        ReposData { map: index_map_new() }
    }

    /// Wraps a map read from a configuration file.
    pub fn from_map(map: indexmap::IndexMap<String, RepoRecord>) -> (r: ReposData)
        ensures
            r@ == repo_entries(map),
    {
        ReposData { map }
    }

    /// The number of repositories.
    pub fn len(&self) -> (r: usize)
        ensures
            r == self@.len(),
    {
        index_map_len(&self.map)
    }

    /// The record of a repository.
    pub fn get(&self, url: &RepoUrl) -> (r: Option<&RepoRecord>)
        ensures
            match r {
                Some(v) => entry_lookup(self@, url@) == Some(opt_view(v.channel)),
                None => entry_lookup(self@, url@) is None,
            },
    {
        let key = String::from_str(url.as_str());
        index_map_get(&self.map, &key)
    }

    /// The underlying map, to be written to a configuration file.
    pub fn map(&self) -> (r: &indexmap::IndexMap<String, RepoRecord>)
        ensures
            repo_entries(*r) == self@,
    {
        &self.map
    }
}

/// The configured repositories, the file they are kept in, and whether that
/// file may be written.
#[derive(Debug)]
pub struct Repos {
    path: String,
    data: ReposData,
    permission: Permission,
}

impl Repos {
    /// Repositories that are never written: no file, no entries.
    pub fn read_only() -> (r: Repos)
        ensures
            r.path()@ == "/dev/null"@,
            r.data()@ == Seq::<(Seq<char>, Option<Seq<char>>)>::empty(),
            r.permission() == Permission::ReadOnly,
    {
        Repos { path: String::from_str("/dev/null"), data: ReposData::new(), permission: Permission::ReadOnly }
    }

    /// Repositories read from a file.
    pub fn new(path: String, data: ReposData, permission: Permission) -> (r: Repos)
        ensures
            r.path() == path,
            r.data()@ == data@,
            r.permission() == permission,
    {
        Repos { path, data, permission }
    }

    /// The file the repositories are kept in.
    pub closed spec fn path(&self) -> String {
        self.path
    }

    /// The repositories.
    pub closed spec fn data(&self) -> ReposData {
        self.data
    }

    /// Whether the file may be written.
    pub closed spec fn permission(&self) -> Permission {
        self.permission
    }

    /// The file the repositories are kept in.
    pub fn file_path(&self) -> (r: &String)
        ensures
            *r == self.path(),
    {
        &self.path
    }

    /// The repositories.
    pub fn repos_data(&self) -> (r: &ReposData)
        ensures
            r@ == self.data()@,
    {
        &self.data
    }

    /// Whether the file may be reloaded or saved: only when writable.
    pub fn writable(&self) -> (r: bool)
        ensures
            r == (self.permission() == Permission::ReadWrite),
    {
        self.permission == Permission::ReadWrite
    }

    /// Replaces the repositories; the result tells whether to save them.
    pub fn set(&mut self, data: ReposData) -> (save: bool)
        ensures
            final(self).data()@ == data@,
            final(self).path() == old(self).path(),
            final(self).permission() == old(self).permission(),
            save == (old(self).permission() == Permission::ReadWrite),
    {
        self.data = data;
        self.permission == Permission::ReadWrite
    }

    /// Records a repository, replacing its record if it is there already;
    /// the result tells whether to save the repositories.
    pub fn insert(&mut self, key: &RepoUrl, value: RepoRecord) -> (save: bool)
        ensures
            final(self).data()@ == entries_insert(old(self).data()@, key@, opt_view(value.channel)),
            entry_keys_unique(final(self).data()@),
            final(self).path() == old(self).path(),
            final(self).permission() == old(self).permission(),
            save == (old(self).permission() == Permission::ReadWrite),
    {
        let k = String::from_str(key.as_str());
        let _ = index_map_insert(&mut self.data.map, k, value);
        self.permission == Permission::ReadWrite
    }

    /// Removes a repository; the result tells whether it was there and
    /// whether to save the repositories.
    pub fn remove(&mut self, key: &RepoUrl) -> (r: (bool, bool))
        ensures
            final(self).data()@ == entries_swap_remove(old(self).data()@, key@),
            entry_keys_unique(final(self).data()@),
            r.0 == entry_lookup(old(self).data()@, key@) is Some,
            final(self).path() == old(self).path(),
            final(self).permission() == old(self).permission(),
            r.1 == (old(self).permission() == Permission::ReadWrite),
    {
        let k = String::from_str(key.as_str());
        let removed = index_map_swap_remove(&mut self.data.map, &k).is_some();
        (removed, self.permission == Permission::ReadWrite)
    }
}

/// What `entry_index` finds: an entry with the key and none before it, or
/// no entry with the key.
pub proof fn lemma_entry_index(e: Seq<(Seq<char>, Option<Seq<char>>)>, key: Seq<char>, start: int)
    requires
        0 <= start,
    ensures
        match entry_index(e, key, start) {
            Some(i) => start <= i < e.len() && e[i].0 == key && forall|j: int| start <= j < i ==> e[j].0 != key,
            None => forall|j: int| start <= j < e.len() ==> e[j].0 != key,
        },
    decreases e.len() - start,
{
    if start < e.len() && e[start].0 != key {
        lemma_entry_index(e, key, start + 1);
    }
}

/// An entry with the key and none before it is what `entry_index` finds.
proof fn lemma_entry_index_at(e: Seq<(Seq<char>, Option<Seq<char>>)>, key: Seq<char>, start: int, i: int)
    requires
        0 <= start <= i < e.len(),
        e[i].0 == key,
        forall|j: int| start <= j < i ==> e[j].0 != key,
    ensures
        entry_index(e, key, start) == Some(i),
    decreases i - start,
{
    if start < i {
        lemma_entry_index_at(e, key, start + 1, i);
    }
}

/// A repository recorded with a channel is then found with that channel.
pub proof fn lemma_insert_then_lookup(e: Seq<(Seq<char>, Option<Seq<char>>)>, key: Seq<char>, value: Option<Seq<char>>)
    ensures
        entry_lookup(entries_insert(e, key, value), key) == Some(value),
{
    lemma_entry_index(e, key, 0);
    let e2 = entries_insert(e, key, value);
    match entry_index(e, key, 0) {
        Some(i) => {
            assert forall|j: int| 0 <= j < i implies e2[j].0 != key by {
                assert(e2[j] == e[j]);
            }
            lemma_entry_index_at(e2, key, 0, i);
        },
        None => {
            assert forall|j: int| 0 <= j < e.len() implies e2[j].0 != key by {
                assert(e2[j] == e[j]);
            }
            lemma_entry_index_at(e2, key, 0, e.len() as int);
        },
    }
}

/// Recording a repository leaves the records of the others as they were.
pub proof fn lemma_insert_keeps_others(
    e: Seq<(Seq<char>, Option<Seq<char>>)>,
    key: Seq<char>,
    value: Option<Seq<char>>,
    other: Seq<char>,
)
    requires
        other != key,
    ensures
        entry_lookup(entries_insert(e, key, value), other) == entry_lookup(e, other),
{
    lemma_entry_index(e, key, 0);
    lemma_entry_index(e, other, 0);
    let e2 = entries_insert(e, key, value);
    lemma_entry_index(e2, other, 0);
    match entry_index(e, other, 0) {
        Some(i) => {
            assert forall|j: int| 0 <= j < i implies e2[j].0 != other by {
                if j < e.len() {
                    assert(e2[j].0 == e[j].0 || e2[j].0 == key);
                }
            }
            assert(e2[i] == e[i]);
            lemma_entry_index_at(e2, other, 0, i);
        },
        None => {
            assert forall|j: int| 0 <= j < e2.len() implies e2[j].0 != other by {
                if j < e.len() {
                    assert(e2[j].0 == e[j].0 || e2[j].0 == key);
                }
            }
        },
    }
}

/// A removed repository is no longer found, where the keys are all different.
pub proof fn lemma_remove_then_lookup(e: Seq<(Seq<char>, Option<Seq<char>>)>, key: Seq<char>)
    requires
        entry_keys_unique(e),
    ensures
        entry_lookup(entries_swap_remove(e, key), key) is None,
{
    lemma_entry_index(e, key, 0);
    let e2 = entries_swap_remove(e, key);
    lemma_entry_index(e2, key, 0);
    match entry_index(e, key, 0) {
        Some(i) => {
            assert forall|j: int| 0 <= j < e2.len() implies e2[j].0 != key by {
                if j == i {
                    assert(e2[j] == e[e.len() - 1]);
                    assert(e.len() - 1 != i ==> e[e.len() - 1].0 != e[i].0);
                } else {
                    assert(e2[j] == e[j]);
                    if j < i {
                        assert(e[j].0 != e[i].0);
                    } else {
                        assert(e[i].0 != e[j].0);
                    }
                }
            }
        },
        None => {},
    }
}

/// Why a configuration location could not be read.
#[derive(Debug, Clone)]
pub enum ConfigPathError {
    InvalidScheme(String),
    InvalidUrl,
}

/// The kinds of location a configuration path may name: a file URL, or a
/// location inside an application container.
#[derive(Debug, Clone, Copy, PartialEq, Eq, Structural)]
pub enum ConfigPathScheme {
    File,
    Container,
}

/// The kind of location a configuration path names, by the start of its
/// text; any other text is not a configuration path.
pub open spec fn config_path_scheme_of(value: Seq<char>) -> Option<ConfigPathScheme> {
    if value.len() >= 5 && value.take(5) == "file:"@ {
        Some(ConfigPathScheme::File)
    } else if value.len() >= 10 && value.take(10) == "container:"@ {
        Some(ConfigPathScheme::Container)
    } else {
        None
    }
}

/// Whether `value` starts with `prefix`.
fn starts_with(value: &str, prefix: &str) -> (r: bool)
    ensures
        r == (prefix@.len() <= value@.len() && value@.take(prefix@.len() as int) == prefix@),
{
    let n = prefix.unicode_len();
    if n > value.unicode_len() {
        return false;
    }
    let mut i: usize = 0;
    while i < n
        invariant
            0 <= i <= n,
            n == prefix@.len(),
            n <= value@.len(),
            forall|j: int| 0 <= j < i ==> value@[j] == prefix@[j],
        decreases n - i,
    {
        if value.get_char(i) != prefix.get_char(i) {
            assert(value@.take(n as int)[i as int] != prefix@[i as int]);
            return false;
        }
        i = i + 1;
    }
    assert(value@.take(n as int) =~= prefix@);
    true
}

/// Reads the kind of location a configuration path names: a text starting
/// with `file:` or `container:`; any other text is an invalid URL.
pub fn config_path_scheme(value: &str) -> (r: Result<ConfigPathScheme, ConfigPathError>)
    ensures
        match r {
            Ok(s) => config_path_scheme_of(value@) == Some(s),
            Err(e) => config_path_scheme_of(value@) is None && e is InvalidUrl,
        },
{
    proof {
        reveal_strlit("file:");
        reveal_strlit("container:");
    }
    if starts_with(value, "file:") {
        Ok(ConfigPathScheme::File)
    } else if starts_with(value, "container:") {
        Ok(ConfigPathScheme::Container)
    } else {
        Err(ConfigPathError::InvalidUrl)
    }
}

/// What loading a configuration file falls back on when the file cannot be
/// read: a writable configuration creates the file afresh; a read-only one
/// keeps an empty configuration that is never written.
#[derive(Debug, Clone, Copy, PartialEq, Eq, Structural)]
pub enum LoadFallback {
    Create,
    ReadOnly,
}

/// The fallback for a configuration file that cannot be read.
pub fn load_fallback(permission: Permission) -> (r: LoadFallback)
    ensures
        r == match permission {
            Permission::ReadOnly => LoadFallback::ReadOnly,
            Permission::ReadWrite => LoadFallback::Create,
        },
{
    match permission {
        Permission::ReadOnly => LoadFallback::ReadOnly,
        Permission::ReadWrite => LoadFallback::Create,
    }
}

} // verus!
