//! Repository management: creating package descriptors, updating their
//! releases, and pruning nightly releases.

pub mod init;
pub mod nightlies;
pub mod update;
use vstd::prelude::*;

use crate::repo::Descriptor;
use crate::strings::opt_view;
use crate::url::{char_is_whitespace, is_blank};

verus! {

/// The declaration of `std::io::Error`, which a failed repository search carries.
#[verifier::external_type_specification]
#[verifier::external_body]
pub struct ExIoError(std::io::Error);

/// A map from language tag to text with an English entry only.
pub fn make_lang_tag_map(value: String) -> (r: Vec<(String, String)>)
    ensures
        r@.len() == 1,
        r@[0].0@ == "en"@,
        r@[0].1 == value,
{
    let mut out: Vec<(String, String)> = Vec::new();
    out.push((String::from_str("en"), value));
    out
}

/// A channel as typed in: the empty text means no channel.
pub fn channel_from_input(text: &str) -> (r: Option<String>)
    ensures
        r matches Some(c) ==> c@ == text@ && text@.len() > 0,
        r is None <==> text@.len() == 0,
{
    if text.unicode_len() == 0 {
        None
    } else {
        Some(String::from_str(text))
    }
}

/// The pieces of a text between single spaces, as `str::split(" ")` gives
/// them: empty pieces included, and one piece for a text without spaces.
pub open spec fn split_spaces(s: Seq<char>) -> Seq<Seq<char>>
    decreases s.len(),
{
    if s.len() == 0 {
        seq![Seq::empty()]
    } else {
        let p = split_spaces(s.drop_last());
        if s.last() == ' ' {
            p.push(Seq::empty())
        } else {
            p.update(p.len() - 1, p.last().push(s.last()))
        }
    }
}

/// The tags typed in as one text: none for a blank text, otherwise the
/// pieces between single spaces.
pub open spec fn tags_of_input(s: Seq<char>) -> Seq<Seq<char>> {
    if is_blank(s) {
        Seq::empty()
    } else {
        split_spaces(s)
    }
}

/// Reads space-delimited tags typed in as one text.
pub fn tags_from_input(text: &str) -> (r: Vec<String>)
    ensures
        r@.map_values(|t: String| t@) == tags_of_input(text@),
{
    let n = text.unicode_len();
    let mut blank_text = true;
    let mut k: usize = 0;
    while k < n
        invariant
            0 <= k <= n,
            n == text@.len(),
            blank_text == forall|j: int| 0 <= j < k ==> crate::url::spec_is_whitespace(#[trigger] text@[j]),
        decreases n - k,
    {
        if !char_is_whitespace(text.get_char(k)) {
            blank_text = false;
        }
        k = k + 1;
    }
    let mut out: Vec<String> = Vec::new();
    if blank_text {
        proof {
            assert(out@.map_values(|t: String| t@) =~= Seq::<Seq<char>>::empty());
        }
        return out;
    }
    let mut start: usize = 0;
    let mut i: usize = 0;
    proof {
        assert(text@.take(0) =~= Seq::<char>::empty());
        assert(out@.map_values(|t: String| t@).push(text@.subrange(0, 0)) =~= seq![Seq::<char>::empty()]);
    }
    while i < n
        invariant
            0 <= start <= i <= n,
            n == text@.len(),
            split_spaces(text@.take(i as int)) =~= out@.map_values(|t: String| t@).push(
                text@.subrange(start as int, i as int),
            ),
        decreases n - i,
    {
        let c = text.get_char(i);
        let ghost before = out@.map_values(|t: String| t@);
        let ghost p = split_spaces(text@.take(i as int));
        proof {
            assert(text@.take(i + 1).drop_last() =~= text@.take(i as int));
            assert(text@.take(i + 1).last() == c);
        }
        if c == ' ' {
            let piece = String::from_str(text.substring_char(start, i));
            out.push(piece);
            proof {
                assert(out@.map_values(|t: String| t@) =~= before.push(text@.subrange(start as int, i as int)));
                assert(split_spaces(text@.take(i + 1)) == p.push(Seq::empty()));
                assert(text@.subrange(i + 1, i + 1) =~= Seq::<char>::empty());
            }
            start = i + 1;
        } else {
            proof {
                assert(split_spaces(text@.take(i + 1)) == p.update(p.len() - 1, p.last().push(c)));
                assert(p.last() == text@.subrange(start as int, i as int));
                assert(text@.subrange(start as int, i + 1) =~= text@.subrange(start as int, i as int).push(c));
            }
        }
        i = i + 1;
    }
    out.push(String::from_str(text.substring_char(start, n)));
    proof {
        assert(text@.take(n as int) =~= text@);
    }
    out
}

/// A new package descriptor: an identifier, tags, and English name and
/// description, with no releases yet.
pub fn new_package_descriptor(id: String, name: String, description: String, tags: Vec<String>) -> (r:
    Descriptor)
    ensures
        r.id == id,
        r.tags@ == tags@,
        r.name@.len() == 1 && r.name@[0].0@ == "en"@ && r.name@[0].1 == name,
        r.description@.len() == 1 && r.description@[0].0@ == "en"@ && r.description@[0].1 == description,
        r.release@.len() == 0,
{
    Descriptor {
        id,
        tags,
        name: make_lang_tag_map(name),
        description: make_lang_tag_map(description),
        release: Vec::new(),
    }
}

/// The directory above a path, as `std::path::Path::parent` gives it on the
/// platform the library is built for: the path without its final component,
/// or `None` for a root, a prefix or the empty path.
pub uninterp spec fn spec_path_parent(path: Seq<char>) -> Option<Seq<char>>;

/// Whether the last components of a path are those of `child`, as
/// `std::path::Path::ends_with` decides on the platform the library is built for.
pub uninterp spec fn spec_path_ends_with(path: Seq<char>, child: Seq<char>) -> bool;

/// Calls `std::path::Path::parent`. Besides naming the result, only that the
/// parent is a shorter front part of the path is stated; which characters
/// separate components depends on the platform.
#[verifier::external_body]
fn path_parent(path: &str) -> (r: Option<String>)
    ensures
        opt_view(r) == spec_path_parent(path@),
        r matches Some(q) ==> q@.len() < path@.len() && q@ == path@.take(q@.len() as int),
{
    std::path::Path::new(path).parent().map(|q| q.to_string_lossy().into_owned())
}

/// Calls `std::path::Path::ends_with`.
#[verifier::external_body]
fn path_ends_with(path: &str, child: &str) -> (r: bool)
    ensures
        r == spec_path_ends_with(path@, child@),
{
    std::path::Path::new(path).ends_with(child)
}

/// The directory a repository search starts in: the directory above the
/// path where the path ends in an `index.toml` file, else the path itself.
pub open spec fn search_start(path: Seq<char>) -> Seq<char> {
    if spec_path_ends_with(path, "index.toml"@) {
        match spec_path_parent(path) {
            Some(dir) => dir,
            None => path,
        }
    } else {
        path
    }
}

/// A search for the repository a path lies in: the directory whose
/// `index.toml` is to be read next.
#[derive(Debug)]
pub struct RepoSearch {
    pub dir: String,
}

/// What a repository search does after reading a directory.
#[derive(Debug)]
pub enum SearchStep {
    /// The directory holds a repository.
    Found(String),
    /// Read the `index.toml` of the search's new directory.
    Next(RepoSearch),
    /// No directory above the path holds a repository.
    NotFound,
}

impl RepoSearch {
    /// Starts a search at a path: the directory itself, or the one holding
    /// the file where the path names an `index.toml`.
    pub fn new(path: &str) -> (r: RepoSearch)
        ensures
            r.dir@ == search_start(path@),
            r.dir@ == path@ || (r.dir@.len() < path@.len() && r.dir@ == path@.take(r.dir@.len() as int)),
    {
        if path_ends_with(path, "index.toml") {
            match path_parent(path) {
                Some(dir) => RepoSearch { dir },
                None => RepoSearch { dir: String::from_str(path) },
            }
        } else {
            RepoSearch { dir: String::from_str(path) }
        }
    }

    /// The next step once it is known whether the current directory holds
    /// a repository: that directory if it does, else the directory above
    /// (`Path::parent`), else, where there is none, the end of the search. Each directory tried is shorter than the
    /// one before, so a search ends.
    pub fn step(self, holds_repository: bool) -> (r: SearchStep)
        ensures
            holds_repository ==> r == SearchStep::Found(self.dir),
            !holds_repository ==> match r {
                SearchStep::Found(_) => false,
                SearchStep::Next(s) => s.dir@.len() < self.dir@.len() && s.dir@ == self.dir@.take(
                    s.dir@.len() as int,
                ),
                SearchStep::NotFound => true,
            },
            !holds_repository ==> match spec_path_parent(self.dir@) {
                Some(p) => r matches SearchStep::Next(s) && s.dir@ == p,
                None => r is NotFound,
            },
    {
        if holds_repository {
            SearchStep::Found(self.dir)
        } else {
            match path_parent(self.dir.as_str()) {
                Some(dir) => SearchStep::Next(RepoSearch { dir }),
                None => SearchStep::NotFound,
            }
        }
    }
}

} // verus!
