use vstd::prelude::*;

use crate::resolve::{comes_before, dependency_order, in_dependency_order};
use crate::transaction::PayloadError;

verus! {

/// Where a package is installed: for the whole system or for the current user.
#[derive(Debug, Clone, Copy, PartialEq, Eq, Structural, Hash, PartialOrd, Ord)]
#[non_exhaustive]
pub enum InstallTarget {
    System,
    User,
}

/// The byte that encodes an install target.
pub open spec fn target_code(t: InstallTarget) -> u8 {
    match t {
        InstallTarget::System => 0,
        InstallTarget::User => 1,
    }
}

/// The install target a byte decodes to: 1 is the user, anything else the system.
pub open spec fn target_of_code(value: u8) -> InstallTarget {
    if value == 1 {
        InstallTarget::User
    } else {
        InstallTarget::System
    }
}

impl InstallTarget {
    /// Encodes the target as a byte.
    pub fn to_u8(&self) -> (r: u8)
        ensures
            r == target_code(*self),
    {
        match self {
            InstallTarget::System => 0,
            InstallTarget::User => 1,
        }
    }

    /// Decodes a byte; every value other than 1 means the system.
    pub fn from_u8(value: u8) -> (r: InstallTarget)
        ensures
            r == target_of_code(value),
    {
        match value {
            1 => InstallTarget::User,
            _ => InstallTarget::System,
        }
    }

    /// The default target is the system.
    pub fn default_target() -> (r: InstallTarget)
        ensures
            r == InstallTarget::System,
    {
        InstallTarget::System
    }
}

/// Decoding a target's byte gives the target back.
pub proof fn lemma_install_target_roundtrip(t: InstallTarget)
    ensures
        target_of_code(target_code(t)) == t,
{
}

/// Encoding is a left inverse of decoding on the two bytes in use.
pub proof fn lemma_install_target_code_roundtrip(value: u8)
    requires
        value <= 1,
    ensures
        target_code(target_of_code(value)) == value,
{
}

/// Events of a long running operation: progress, completion or failure.
#[derive(Debug)]
pub enum ProgressEvent<P, C, E> {
    Progress(P),
    Complete(C),
    Error(E),
}

/// Why a payload could not be imported into the download cache.
#[derive(Debug)]
pub enum ImportError {
    Payload(PayloadError),
    Io(std::io::Error),
    InvalidPayloadType,
}

/// Where uninstall scripts for packages installed for the whole system are kept on macOS.
pub fn global_uninstall_path() -> (r: String)
    ensures
        r@ == "/Library/Application Support/Pahkat/uninstall"@,
{
    String::from_str("/Library/Application Support/Pahkat/uninstall")
}

/// The installation domain the macOS installer is given for a target.
pub open spec fn macos_domain(target: InstallTarget) -> Seq<char> {
    match target {
        InstallTarget::User => "CurrentUserHomeDirectory"@,
        InstallTarget::System => "LocalSystem"@,
    }
}

/// The arguments of the macOS installer for a package file and a target.
pub fn macos_install_args(pkg_path: &str, target: InstallTarget) -> (r: Vec<String>)
    ensures
        r@.len() == 4,
        r@[0]@ == "-pkg"@,
        r@[1]@ == pkg_path@,
        r@[2]@ == "-target"@,
        r@[3]@ == macos_domain(target),
{
    let domain = match target {
        InstallTarget::User => "CurrentUserHomeDirectory",
        InstallTarget::System => "LocalSystem",
    };
    let mut args: Vec<String> = Vec::new();
    args.push(String::from_str("-pkg"));
    args.push(String::from_str(pkg_path));
    args.push(String::from_str("-target"));
    args.push(String::from_str(domain));
    args
}

/// How many slashes a path has: the deeper the path, the more.
pub open spec fn slash_count(s: Seq<char>) -> nat
    decreases s.len(),
{
    if s.len() == 0 {
        0
    } else {
        slash_count(s.drop_last()) + if s.last() == '/' {
            1nat
        } else {
            0nat
        }
    }
}

/// Counts the slashes of a path.
pub fn count_slashes(s: &str) -> (r: usize)
    ensures
        r == slash_count(s@),
{
    let n = s.unicode_len();
    let mut count: usize = 0;
    let mut i: usize = 0;
    while i < n
        invariant
            0 <= i <= n,
            n == s@.len(),
            count <= i,
            count == slash_count(s@.take(i as int)),
        decreases n - i,
    {
        proof {
            assert(s@.take(i + 1).drop_last() =~= s@.take(i as int));
        }
        if s.get_char(i) == '/' {
            count = count + 1;
        }
        i = i + 1;
    }
    proof {
        assert(s@.take(n as int) =~= s@);
    }
    count
}

/// Whether `out` lists the directories of `dirs`, each once, deepest first.
pub open spec fn is_children_first(dirs: Seq<String>, out: Seq<String>) -> bool {
    exists|perm: Seq<usize>|
        {
            &&& perm.len() == dirs.len()
            &&& out.len() == dirs.len()
            &&& forall|i: int| 0 <= i < perm.len() ==> #[trigger] perm[i] < dirs.len()
            &&& forall|i: int, j: int| 0 <= i < j < perm.len() ==> #[trigger] perm[i] != #[trigger] perm[j]
            &&& forall|i: int| 0 <= i < out.len() ==> #[trigger] out[i]@ == dirs[perm[i] as int]@
            &&& forall|i: int, j: int|
                0 <= i < j < out.len() ==> slash_count(#[trigger] out[i]@) >= slash_count(#[trigger] out[j]@)
        }
}

/// Orders directories for removal so that children go before their parents:
/// deepest first, by number of slashes.
pub fn children_first(dirs: &Vec<String>) -> (r: Vec<String>)
    ensures
        is_children_first(dirs@, r@),
{
    let n = dirs.len();
    let mut counts: Vec<usize> = Vec::new();
    let mut deepest: usize = 0;
    let mut i: usize = 0;
    while i < n
        invariant
            0 <= i <= n,
            n == dirs.len(),
            counts@.len() == i,
            forall|k: int| 0 <= k < i ==> #[trigger] counts@[k] == slash_count(dirs@[k]@),
            forall|k: int| 0 <= k < i ==> counts@[k] <= deepest,
        decreases n - i,
    {
        let c = count_slashes(dirs[i].as_str());
        counts.push(c);
        if c > deepest {
            deepest = c;
        }
        i = i + 1;
    }
    let mut inverted: Vec<usize> = Vec::new();
    let mut i: usize = 0;
    while i < n
        invariant
            0 <= i <= n,
            n == dirs.len(),
            counts@.len() == n,
            forall|k: int| 0 <= k < n ==> counts@[k] <= deepest,
            inverted@.len() == i,
            forall|k: int| 0 <= k < i ==> #[trigger] inverted@[k] == deepest - counts@[k],
        decreases n - i,
    {
        inverted.push(deepest - counts[i]);
        i = i + 1;
    }
    let perm = dependency_order(&inverted);
    let ghost inv = inverted@.map_values(|c: usize| c as int);
    let mut out: Vec<String> = Vec::new();
    let mut i: usize = 0;
    while i < n
        invariant
            0 <= i <= n,
            n == dirs.len(),
            in_dependency_order(inv, perm@),
            inv.len() == n,
            out@.len() == i,
            forall|k: int| 0 <= k < i ==> #[trigger] out@[k]@ == dirs@[perm@[k] as int]@,
        decreases n - i,
    {
        out.push(dirs[perm[i]].clone());
        i = i + 1;
    }
    proof {
        assert forall|i: int, j: int| 0 <= i < j < perm@.len() implies #[trigger] perm@[i] != #[trigger] perm@[j] by {
            assert(comes_before(inv, perm@[i] as int, perm@[j] as int));
        }
        assert forall|i: int, j: int| 0 <= i < j < out@.len() implies slash_count(#[trigger] out@[i]@) >= slash_count(
            #[trigger] out@[j]@,
        ) by {
            assert(comes_before(inv, perm@[i] as int, perm@[j] as int));
            assert(inv[perm@[i] as int] == deepest - counts@[perm@[i] as int]);
            assert(inv[perm@[j] as int] == deepest - counts@[perm@[j] as int]);
        }
    }
    out
}

} // verus!
