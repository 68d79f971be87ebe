use vstd::prelude::*;

use crate::package_key::{KeyView, PackageKey};
use crate::package_store::InstallTarget;
use crate::repo::{Descriptor, DescriptorView, Release, ReleaseView, Target, TargetView};
use crate::resolve::{candidates_view, CandidateView, PackageCandidate};

verus! {

/// The installation status of a package relative to its repository.
#[derive(Debug, Clone, Copy, PartialEq, Eq, Structural, Hash)]
pub enum PackageStatus {
    NotInstalled,
    UpToDate,
    RequiresUpdate,
}

/// Why no payload could be found for a package.
#[derive(Debug, Clone)]
pub enum PayloadError {
    NoPackage,
    NoConcretePackage,
    NoPayloadFound,
    CriteriaUnmet(String),
}

/// Why the status of a package could not be determined.
#[derive(Debug, Clone)]
pub enum PackageStatusError {
    Payload(PayloadError),
    WrongPayloadType,
    ParsingVersion,
}

/// The numeric code handed across the foreign interface for a status query.
pub open spec fn status_code(result: Result<PackageStatus, PackageStatusError>) -> int {
    match result {
        Ok(PackageStatus::NotInstalled) => 0,
        Ok(PackageStatus::UpToDate) => 1,
        Ok(PackageStatus::RequiresUpdate) => 2,
        Err(PackageStatusError::Payload(PayloadError::NoPackage)) => -1,
        Err(PackageStatusError::Payload(PayloadError::NoConcretePackage)) => -1,
        Err(PackageStatusError::Payload(PayloadError::NoPayloadFound)) => -2,
        Err(PackageStatusError::Payload(PayloadError::CriteriaUnmet(_))) => -5,
        Err(PackageStatusError::WrongPayloadType) => -3,
        Err(PackageStatusError::ParsingVersion) => -4,
    }
}

/// Encodes a status query result as a signed byte.
pub fn status_to_i8(result: Result<PackageStatus, PackageStatusError>) -> (r: i8)
    ensures
        r == status_code(result),
{
    match result {
        Ok(status) => match status {
            PackageStatus::NotInstalled => 0,
            PackageStatus::UpToDate => 1,
            PackageStatus::RequiresUpdate => 2,
        },
        Err(error) => match error {
            PackageStatusError::Payload(e) => match e {
                PayloadError::NoPackage | PayloadError::NoConcretePackage => -1,
                PayloadError::NoPayloadFound => -2,
                PayloadError::CriteriaUnmet(_) => -5,
            },
            PackageStatusError::WrongPayloadType => -3,
            PackageStatusError::ParsingVersion => -4,
        },
    }
}


impl PackageStatus {
    /// A human readable description of the status.
    pub fn description(&self) -> (r: &'static str)
        ensures
            r@ == status_description(*self),
    {
        proof {
            reveal_strlit("Not installed");
            reveal_strlit("Up to date");
            reveal_strlit("Requires update");
        }
        match self {
            PackageStatus::NotInstalled => "Not installed",
            PackageStatus::UpToDate => "Up to date",
            PackageStatus::RequiresUpdate => "Requires update",
        }
    }
}

/// The text shown for a status.
pub open spec fn status_description(s: PackageStatus) -> Seq<char> {
    match s {
        PackageStatus::NotInstalled => "Not installed"@,
        PackageStatus::UpToDate => "Up to date"@,
        PackageStatus::RequiresUpdate => "Requires update"@,
    }
}

/// Whether an action installs or uninstalls a package.
#[derive(Debug, Clone, Copy, PartialEq, Eq, Structural)]
pub enum PackageActionType {
    Install,
    Uninstall,
}

/// The byte that encodes an action type.
pub open spec fn action_code(a: PackageActionType) -> u8 {
    match a {
        PackageActionType::Install => 0,
        PackageActionType::Uninstall => 1,
    }
}

/// The action type a byte in use decodes to.
pub open spec fn action_of_code(x: u8) -> PackageActionType {
    if x == 0 {
        PackageActionType::Install
    } else {
        PackageActionType::Uninstall
    }
}

impl PackageActionType {
    /// Decodes a byte: 0 installs, 1 uninstalls; other bytes are not action types.
    pub fn from_u8(x: u8) -> (r: PackageActionType)
        requires
            x <= 1,
        ensures
            r == action_of_code(x),
    {
        match x {
            0 => PackageActionType::Install,
            _ => PackageActionType::Uninstall,
        }
    }

    /// Encodes the action type as a byte.
    pub fn to_u8(&self) -> (r: u8)
        ensures
            r == action_code(*self),
    {
        match self {
            PackageActionType::Install => 0,
            PackageActionType::Uninstall => 1,
        }
    }
}

/// Decoding an action type's byte gives the action type back.
pub proof fn lemma_action_type_roundtrip(a: PackageActionType)
    ensures
        action_code(a) <= 1,
        action_of_code(action_code(a)) == a,
{
}

/// Encoding a decoded byte gives the byte back.
pub proof fn lemma_action_code_roundtrip(x: u8)
    requires
        x <= 1,
    ensures
        action_code(action_of_code(x)) == x,
{
}

/// An action requested of a transaction: what to do to which package, and where.
#[derive(Debug)]
pub struct PackageAction {
    pub id: PackageKey,
    pub action: PackageActionType,
    pub target: InstallTarget,
}

impl PackageAction {
    /// An install action.
    pub fn install(id: PackageKey, target: InstallTarget) -> (r: PackageAction)
        ensures
            r.id == id,
            r.action == PackageActionType::Install,
            r.target == target,
    {
        PackageAction { id, action: PackageActionType::Install, target }
    }

    /// An uninstall action.
    pub fn uninstall(id: PackageKey, target: InstallTarget) -> (r: PackageAction)
        ensures
            r.id == id,
            r.action == PackageActionType::Uninstall,
            r.target == target,
    {
        PackageAction { id, action: PackageActionType::Uninstall, target }
    }

    /// Whether this action installs.
    pub fn is_install(&self) -> (r: bool)
        ensures
            r == (self.action == PackageActionType::Install),
    {
        self.action == PackageActionType::Install
    }

    /// Whether this action uninstalls.
    pub fn is_uninstall(&self) -> (r: bool)
        ensures
            r == (self.action == PackageActionType::Uninstall),
    {
        self.action == PackageActionType::Uninstall
    }

    /// Copies the action.
    pub fn copy(&self) -> (r: PackageAction)
        ensures
            r.id@ == self.id@,
            r.action == self.action,
            r.target == self.target,
    {
        PackageAction { id: self.id.copy(), action: self.action, target: self.target }
    }
}

/// Errors while resolving the dependencies of a package.
#[derive(Debug, Clone)]
pub enum PackageDependencyError {
    PackageNotFound(String),
    VersionNotFound(String),
    PackageStatusError(String, PackageStatusError),
}

/// Errors while building a transaction.
#[derive(Debug, Clone)]
pub enum PackageTransactionError {
    NoPackage(String),
    Deps(PackageDependencyError),
    ActionContradiction(String),
    InvalidStatus(PackageStatusError),
    InvalidPayload(PayloadError),
}

/// One step of the status summary of a package query: the summary so far
/// combined with the status of the next package.
pub open spec fn combine_query_status(acc: PackageStatus, cur: PackageStatus) -> PackageStatus {
    match (acc, cur) {
        (PackageStatus::RequiresUpdate, _) => acc,
        (PackageStatus::NotInstalled, PackageStatus::RequiresUpdate) => cur,
        (PackageStatus::NotInstalled, PackageStatus::UpToDate) => PackageStatus::RequiresUpdate,
        (PackageStatus::UpToDate, PackageStatus::NotInstalled) => PackageStatus::RequiresUpdate,
        (PackageStatus::UpToDate, v) => v,
        _ => cur,
    }
}

/// The status summary of a package query: the statuses folded from the left,
/// starting from "up to date".
pub open spec fn query_status(statuses: Seq<PackageStatus>) -> PackageStatus
    decreases statuses.len(),
{
    if statuses.len() == 0 {
        PackageStatus::UpToDate
    } else {
        combine_query_status(query_status(statuses.drop_last()), statuses.last())
    }
}

/// Summarizes the statuses of the packages a query resolved to.
pub fn aggregate_query_status(statuses: &Vec<PackageStatus>) -> (r: PackageStatus)
    ensures
        r == query_status(statuses@),
{
    let mut acc = PackageStatus::UpToDate;
    let mut i: usize = 0;
    while i < statuses.len()
        invariant
            0 <= i <= statuses.len(),
            acc == query_status(statuses@.subrange(0, i as int)),
        decreases statuses.len() - i,
    {
        let cur = statuses[i];
        acc = match (acc, cur) {
            (PackageStatus::RequiresUpdate, _) => acc,
            (PackageStatus::NotInstalled, PackageStatus::RequiresUpdate) => cur,
            (PackageStatus::NotInstalled, PackageStatus::UpToDate) => PackageStatus::RequiresUpdate,
            (PackageStatus::UpToDate, PackageStatus::NotInstalled) => PackageStatus::RequiresUpdate,
            (PackageStatus::UpToDate, v) => v,
            _ => cur,
        };
        assert(statuses@.subrange(0, i + 1).drop_last() == statuses@.subrange(0, i as int));
        i = i + 1;
    }
    assert(statuses@.subrange(0, statuses@.len() as int) == statuses@);
    acc
}

/// The status summary of a query is "up to date" exactly when every package
/// it resolved to is up to date, and "requires update" otherwise; it is never
/// "not installed".
pub proof fn lemma_query_status_closed_form(statuses: Seq<PackageStatus>)
    ensures
        query_status(statuses) == if forall|i: int|
            0 <= i < statuses.len() ==> statuses[i] == PackageStatus::UpToDate {
            PackageStatus::UpToDate
        } else {
            PackageStatus::RequiresUpdate
        },
    decreases statuses.len(),
{
    if statuses.len() > 0 {
        let init = statuses.drop_last();
        lemma_query_status_closed_form(init);
        assert forall|i: int| 0 <= i < init.len() implies init[i] == statuses[i] by {}
        if !(forall|i: int| 0 <= i < init.len() ==> init[i] == PackageStatus::UpToDate) {
            let k = choose|k: int| 0 <= k < init.len() && init[k] != PackageStatus::UpToDate;
            assert(statuses[k] != PackageStatus::UpToDate);
        }
    }
}

/// Whether a status result already settles the status of a package: the
/// package was found installed, up to date or not.
pub open spec fn settles<E>(r: Result<PackageStatus, E>) -> bool {
    r matches Ok(v) && v != PackageStatus::NotInstalled
}

/// One step of settling a package's status over several install targets: a
/// settled result is kept, anything else is replaced by the next result.
pub open spec fn settle_step<E>(acc: Option<Result<PackageStatus, E>>, cur: Result<PackageStatus, E>) -> Option<
    Result<PackageStatus, E>,
> {
    if acc matches Some(r) && settles(r) {
        acc
    } else {
        Some(cur)
    }
}

/// The status of a package over several install targets, folded from the left:
/// `None` when there are no targets.
pub open spec fn settled_status<E>(results: Seq<Result<PackageStatus, E>>) -> Option<
    Result<PackageStatus, E>,
>
    decreases results.len(),
{
    if results.len() == 0 {
        None
    } else {
        settle_step(settled_status(results.drop_last()), results.last())
    }
}

/// The settled status is the first result that settles, or else the last result.
pub proof fn lemma_settled_status_closed_form<E>(results: Seq<Result<PackageStatus, E>>)
    ensures
        (exists|i: int| 0 <= i < results.len() && settles(#[trigger] results[i])) ==> {
            let i = choose|i: int|
                0 <= i < results.len() && settles(#[trigger] results[i]) && forall|j: int|
                    0 <= j < i ==> !settles(#[trigger] results[j]);
            &&& 0 <= i < results.len()
            &&& settled_status(results) == Some(results[i])
        },
        (forall|i: int| 0 <= i < results.len() ==> !settles(#[trigger] results[i])) ==> settled_status(
            results,
        ) == if results.len() == 0 {
            None
        } else {
            Some(results.last())
        },
    decreases results.len(),
{
    if results.len() > 0 {
        let init = results.drop_last();
        lemma_settled_status_closed_form(init);
        assert forall|i: int| 0 <= i < init.len() implies init[i] == results[i] by {}
        if exists|i: int| 0 <= i < results.len() && settles(#[trigger] results[i]) {
            let m = choose|i: int| 0 <= i < results.len() && settles(#[trigger] results[i]);
            lemma_first_index(results, m);
            let i = choose|i: int|
                0 <= i < results.len() && settles(#[trigger] results[i]) && forall|j: int|
                    0 <= j < i ==> !settles(#[trigger] results[j]);
            if i < init.len() {
                assert(settles(init[i]));
                let k = choose|k: int|
                    0 <= k < init.len() && settles(#[trigger] init[k]) && forall|j: int|
                        0 <= j < k ==> !settles(#[trigger] init[j]);
                if k < i {
                    assert(!settles(results[k]));
                }
                if i < k {
                    assert(!settles(init[i]));
                }
            } else {
                assert forall|j: int| 0 <= j < init.len() implies !settles(#[trigger] init[j]) by {
                    assert(!settles(results[j]));
                }
            }
        }
    }
}

/// Some index satisfying `settles` is preceded by a first one.
proof fn lemma_first_index<E>(results: Seq<Result<PackageStatus, E>>, m: int)
    requires
        0 <= m < results.len(),
        settles(results[m]),
    ensures
        exists|i: int|
            0 <= i < results.len() && settles(#[trigger] results[i]) && forall|j: int|
                0 <= j < i ==> !settles(#[trigger] results[j]),
    decreases m,
{
    if exists|j: int| 0 <= j < m && settles(#[trigger] results[j]) {
        let j = choose|j: int| 0 <= j < m && settles(#[trigger] results[j]);
        lemma_first_index(results, j);
    } else {
        assert(settles(results[m]) && forall|j: int| 0 <= j < m ==> !settles(#[trigger] results[j]));
    }
}

/// Settles the status of a package from its status under each install target,
/// in the order the targets were given: the first result that finds the
/// package installed wins; otherwise the last result stands.
pub fn settle_status<E>(results: Vec<Result<PackageStatus, E>>) -> (r: Option<Result<PackageStatus, E>>)
    ensures
        r == settled_status(results@),
{
    let ghost orig = results@;
    let mut results = results;
    let n = results.len();
    let mut i: usize = 0;
    let mut found: bool = false;
    while i < n
        invariant_except_break
            0 <= i <= n,
            n == results.len(),
            results@ == orig,
            forall|j: int| 0 <= j < i ==> !settles(#[trigger] orig[j]),
            !found,
        ensures
            0 <= i <= n,
            n == results.len(),
            results@ == orig,
            forall|j: int| 0 <= j < i ==> !settles(#[trigger] orig[j]),
            found ==> i < n && settles(orig[i as int]),
            !found ==> i == n,
        decreases n - i,
    {
        let hit = match &results[i] {
            Ok(v) => *v != PackageStatus::NotInstalled,
            Err(_) => false,
        };
        if hit {
            found = true;
            break;
        }
        i = i + 1;
    }
    proof {
        lemma_settled_status_closed_form(orig);
    }
    if found {
        let chosen = results.remove(i);
        proof {
            let k = choose|k: int|
                0 <= k < orig.len() && settles(#[trigger] orig[k]) && forall|j: int|
                    0 <= j < k ==> !settles(#[trigger] orig[j]);
            if k < i {
                assert(!settles(orig[k]));
            }
            if k > i {
                assert(!settles(orig[i as int]));
            }
        }
        Some(chosen)
    } else {
        results.pop()
    }
}

/// Whether some result settles a package's status.
pub open spec fn any_settles<E>(results: Seq<Result<PackageStatus, E>>) -> bool {
    exists|i: int| 0 <= i < results.len() && settles(#[trigger] results[i])
}

/// Once the results so far settle the status, later results change nothing:
/// the settled status of the results so far followed by any others is that
/// of the results so far.
pub proof fn lemma_settled_prefix<E>(taken: Seq<Result<PackageStatus, E>>, rest: Seq<Result<PackageStatus, E>>)
    requires
        settled_status(taken) matches Some(x) && settles(x),
    ensures
        settled_status(taken + rest) == settled_status(taken),
    decreases rest.len(),
{
    if rest.len() > 0 {
        let init = rest.drop_last();
        lemma_settled_prefix(taken, init);
        assert((taken + rest).drop_last() =~= taken + init);
    } else {
        assert(taken + rest =~= taken);
    }
}

/// The results settle the status exactly when one of them does.
proof fn lemma_settled_iff_any<E>(results: Seq<Result<PackageStatus, E>>)
    ensures
        (settled_status(results) matches Some(x) && settles(x)) <==> any_settles(results),
    decreases results.len(),
{
    if results.len() > 0 {
        let init = results.drop_last();
        lemma_settled_iff_any(init);
        if any_settles(init) {
            let i = choose|i: int| 0 <= i < init.len() && settles(#[trigger] init[i]);
            assert(settles(results[i]));
        }
        if settles(results.last()) {
            assert(settles(results[results.len() - 1]));
        }
        if any_settles(results) && !settles(results.last()) {
            let i = choose|i: int| 0 <= i < results.len() && settles(#[trigger] results[i]);
            assert(i < init.len());
            assert(settles(init[i]));
        }
    }
}

/// Whether the status of a package under one more install target is needed:
/// while targets remain and the results so far do not settle the status.
/// Asking in target order until this is false takes the statuses exactly up
/// to the first that settles, and by `lemma_settled_prefix` those settle the
/// status as all of them would.
pub fn status_needed<E>(taken: &Vec<Result<PackageStatus, E>>, target_count: usize) -> (r: bool)
    ensures
        r == (taken@.len() < target_count && !(settled_status(taken@) matches Some(x) && settles(x))),
{
    proof {
        lemma_settled_iff_any(taken@);
    }
    if taken.len() >= target_count {
        return false;
    }
    let mut i: usize = 0;
    while i < taken.len()
        invariant
            0 <= i <= taken.len(),
            taken@.len() < target_count,
            (settled_status(taken@) matches Some(x) && settles(x)) <==> any_settles(taken@),
            forall|j: int| 0 <= j < i ==> !settles(#[trigger] taken@[j]),
        decreases taken.len() - i,
    {
        let hit = match &taken[i] {
            Ok(v) => *v != PackageStatus::NotInstalled,
            Err(_) => false,
        };
        if hit {
            assert(settles(taken@[i as int]));
            assert(any_settles(taken@));
            return false;
        }
        i = i + 1;
    }
    true
}

/// The contents of an action: key, kind and install target.
pub type ActionView = (KeyView, PackageActionType, InstallTarget);

impl View for PackageAction {
    type V = ActionView;

    open spec fn view(&self) -> ActionView {
        (self.id@, self.action, self.target)
    }
}

/// The contents of a list of actions.
pub open spec fn actions_view(s: Seq<PackageAction>) -> Seq<ActionView> {
    s.map_values(|a: PackageAction| a@)
}

/// The install targets the actions name, each once, in the order they first occur.
pub open spec fn distinct_targets(actions: Seq<ActionView>) -> Seq<InstallTarget>
    decreases actions.len(),
{
    if actions.len() == 0 {
        Seq::empty()
    } else {
        let t = distinct_targets(actions.drop_last());
        if t.contains(actions.last().2) {
            t
        } else {
            t.push(actions.last().2)
        }
    }
}

/// The install targets of a set of actions, each once, in the order they
/// first occur; a package's status is looked for under each.
pub fn install_targets(actions: &Vec<PackageAction>) -> (r: Vec<InstallTarget>)
    ensures
        r@ == distinct_targets(actions_view(actions@)),
{
    let ghost av = actions_view(actions@);
    let mut out: Vec<InstallTarget> = Vec::new();
    let mut i: usize = 0;
    while i < actions.len()
        invariant
            0 <= i <= actions.len(),
            av == actions_view(actions@),
            out@ == distinct_targets(av.take(i as int)),
        decreases actions.len() - i,
    {
        let t = actions[i].target;
        proof {
            assert(av.take(i + 1).drop_last() =~= av.take(i as int));
            assert(av.take(i + 1).last().2 == t);
        }
        let mut seen = false;
        let mut j: usize = 0;
        while j < out.len()
            invariant
                0 <= j <= out.len(),
                seen == exists|k: int| 0 <= k < j && out@[k] == t,
            decreases out.len() - j,
        {
            if out[j] == t {
                seen = true;
            }
            j = j + 1;
        }
        if !seen {
            out.push(t);
        }
        i = i + 1;
    }
    proof {
        assert(av.take(actions@.len() as int) =~= av);
    }
    out
}

/// The package requests of a set of actions: each action's kind and key.
pub fn action_requests(actions: &Vec<PackageAction>) -> (r: Vec<(PackageActionType, PackageKey)>)
    ensures
        r@.len() == actions@.len(),
        forall|i: int| 0 <= i < r@.len() ==> (#[trigger] r@[i]).0 == actions@[i].action && r@[i].1@ == actions@[i].id@,
{
    let mut out: Vec<(PackageActionType, PackageKey)> = Vec::new();
    let mut i: usize = 0;
    while i < actions.len()
        invariant
            0 <= i <= actions.len(),
            out@.len() == i,
            forall|k: int| 0 <= k < i ==> (#[trigger] out@[k]).0 == actions@[k].action && out@[k].1@ == actions@[k].id@,
        decreases actions.len() - i,
    {
        out.push((actions[i].action, actions[i].id.copy()));
        i = i + 1;
    }
    out
}

/// A transaction step settled on: the action, and the descriptor, release and
/// target it acts on.
#[derive(Debug)]
pub struct ResolvedAction {
    pub action: PackageAction,
    pub descriptor: Descriptor,
    pub release: Release,
    pub target: Target,
}

/// The contents of a resolved action.
pub struct ResolvedActionView {
    pub action: ActionView,
    pub descriptor: DescriptorView,
    pub release: ReleaseView,
    pub target: TargetView,
}

impl View for ResolvedAction {
    type V = ResolvedActionView;

    open spec fn view(&self) -> ResolvedActionView {
        ResolvedActionView {
            action: self.action@,
            descriptor: self.descriptor@,
            release: self.release@,
            target: self.target@,
        }
    }
}

/// The first position, from `start` on, of an action on a key.
pub open spec fn action_index(actions: Seq<ActionView>, key: KeyView, start: int) -> Option<int>
    decreases actions.len() - start,
{
    if 0 <= start < actions.len() {
        if actions[start].0 == key {
            Some(start)
        } else {
            action_index(actions, key, start + 1)
        }
    } else {
        None
    }
}

/// The action a transaction takes on a candidate: the first requested action
/// on its key, or else the candidate's own action for the whole system.
pub open spec fn action_for(actions: Seq<ActionView>, c: CandidateView) -> ActionView {
    match action_index(actions, c.key, 0) {
        Some(i) => actions[i],
        None => (c.key, c.action, InstallTarget::System),
    }
}

/// Whether any candidate needs a restart.
pub open spec fn any_reboot(set: Seq<CandidateView>) -> bool {
    exists|i: int| 0 <= i < set.len() && (#[trigger] set[i]).is_reboot_required
}

/// A set of resolved actions ready to be carried out, in order, and whether
/// carrying them out needs a restart.
#[derive(Debug)]
pub struct PackageTransaction {
    actions: Vec<ResolvedAction>,
    is_reboot_required: bool,
}

/// What to do next while carrying out a transaction.
#[derive(Debug, Clone, Copy, PartialEq, Eq, Structural)]
pub enum TransactionStep {
    /// Install the package of the action at this position.
    Install(usize),
    /// Uninstall the package of the action at this position.
    Uninstall(usize),
    /// Every action is done.
    Complete,
}

impl PackageTransaction {
    /// The transaction for an ordered set of candidates: each candidate
    /// becomes an action, taken from the requested actions where one names
    /// its key.
    pub fn new(mutation_set: Vec<PackageCandidate>, actions: &Vec<PackageAction>) -> (r: PackageTransaction)
        ensures
            r.action_list().len() == mutation_set@.len(),
            forall|i: int|
                0 <= i < mutation_set@.len() ==> {
                    let c = #[trigger] mutation_set@[i]@;
                    &&& r.action_list()[i]@.action == action_for(actions_view(actions@), c)
                    &&& r.action_list()[i]@.descriptor == c.descriptor
                    &&& r.action_list()[i]@.release == c.release
                    &&& r.action_list()[i]@.target == c.target
                },
            r.needs_restart() == any_reboot(candidates_view(mutation_set@)),
    {
        let ghost av = actions_view(actions@);
        let ghost ms = mutation_set@;
        let mut reboot = false;
        let mut out: Vec<ResolvedAction> = Vec::new();
        let mut set = mutation_set;
        let n = set.len();
        let mut i: usize = 0;
        while i < n
            invariant
                0 <= i <= n,
                n == ms.len(),
                av == actions_view(actions@),
                set@ == ms.subrange(i as int, n as int),
                out@.len() == i,
                forall|k: int|
                    0 <= k < i ==> {
                        let c = #[trigger] ms[k]@;
                        &&& out@[k]@.action == action_for(av, c)
                        &&& out@[k]@.descriptor == c.descriptor
                        &&& out@[k]@.release == c.release
                        &&& out@[k]@.target == c.target
                    },
                reboot == exists|k: int| 0 <= k < i && (#[trigger] ms[k]).is_reboot_required,
            decreases n - i,
        {
            let c = set.remove(0);
            assert(c == ms[i as int]);
            let ghost cv = c@;
            if c.is_reboot_required {
                reboot = true;
            }
            let mut found: Option<usize> = None;
            let mut j: usize = 0;
            while j < actions.len()
                invariant_except_break
                    found is None,
                invariant
                    0 <= j <= actions.len(),
                    av == actions_view(actions@),
                    action_index(av, cv.key, 0) == action_index(av, cv.key, j as int),
                    cv == c@,
                ensures
                    match found {
                        Some(k) => action_index(av, cv.key, 0) == Some(k as int) && k < actions.len(),
                        None => action_index(av, cv.key, 0) is None,
                    },
                decreases actions.len() - j,
            {
                if actions[j].id.same_as(&c.package_key) {
                    found = Some(j);
                    break;
                }
                j = j + 1;
            }
            let action = match found {
                Some(k) => actions[k].copy(),
                None => PackageAction { id: c.package_key.copy(), action: c.action, target: InstallTarget::System },
            };
            out.push(ResolvedAction { action, descriptor: c.descriptor, release: c.release, target: c.target });
            i = i + 1;
        }
        proof {
            assert(candidates_view(ms).len() == ms.len());
            if reboot {
                let k = choose|k: int| 0 <= k < n && (#[trigger] ms[k]).is_reboot_required;
                assert(candidates_view(ms)[k].is_reboot_required);
            }
            if any_reboot(candidates_view(ms)) {
                let k = choose|k: int| 0 <= k < ms.len() && (#[trigger] candidates_view(ms)[k]).is_reboot_required;
                assert(ms[k].is_reboot_required);
            }
        }
        PackageTransaction { actions: out, is_reboot_required: reboot }
    }

    /// The actions, in the order they are carried out.
    pub closed spec fn action_list(&self) -> Seq<ResolvedAction> {
        self.actions@
    }

    /// Whether carrying out the transaction needs a restart.
    pub closed spec fn needs_restart(&self) -> bool {
        self.is_reboot_required
    }

    /// The actions, in the order they are carried out.
    pub fn actions(&self) -> (r: &Vec<ResolvedAction>)
        ensures
            r@ == self.action_list(),
    {
        &self.actions
    }

    /// Whether carrying out the transaction needs a restart.
    pub fn is_reboot_required(&self) -> (r: bool)
        ensures
            r == self.needs_restart(),
    {
        self.is_reboot_required
    }

    /// What to do after the actions before `position` are done: carry out the
    /// action at `position`, or finish.
    pub fn step(&self, position: usize) -> (r: TransactionStep)
        ensures
            position < self.action_list().len() ==> r == match self.action_list()[position as int].action.action {
                PackageActionType::Install => TransactionStep::Install(position),
                PackageActionType::Uninstall => TransactionStep::Uninstall(position),
            },
            position >= self.action_list().len() ==> r == TransactionStep::Complete,
    {
        if position >= self.actions.len() {
            return TransactionStep::Complete;
        }
        match self.actions[position].action.action {
            PackageActionType::Install => TransactionStep::Install(position),
            PackageActionType::Uninstall => TransactionStep::Uninstall(position),
        }
    }
}

} // verus!
