use vstd::prelude::*;
use vstd::future::FutureAdditionalSpecFns;

use crate::package_key::{key_from_text, key_result_view, key_url, PackageKey, TryFromError};
use crate::package_store::InstallTarget;
use crate::transaction::{status_code, status_to_i8, PackageStatus, PackageStatusError};

verus! {

/// Carries values across the foreign interface as JSON text.
#[derive(Debug)]
pub struct JsonMarshaler;

/// Reads values handed across the foreign interface as borrowed JSON text.
#[derive(Debug)]
pub struct JsonRefMarshaler;

/// Carries package keys across the foreign interface as their URL text.
#[derive(Debug)]
pub struct PackageKeyMarshaler;

impl PackageKeyMarshaler {
    /// The text a key is handed over as: its URL.
    pub fn to_foreign(key: &PackageKey) -> (r: String)
        ensures
            key_url(key@) == Some(r@),
    {
        key.to_string()
    }

    /// The key a text handed over reads as.
    pub fn from_foreign(text: &str) -> (r: Result<PackageKey, TryFromError>)
        ensures
            key_result_view(r) == key_from_text(text@),
    {
        PackageKey::try_from_str(text)
    }
}

/// Carries install targets across the foreign interface as text.
#[derive(Debug)]
pub struct TargetMarshaler;

/// The text of an install target.
pub open spec fn target_text(t: InstallTarget) -> Seq<char> {
    match t {
        InstallTarget::System => "system"@,
        InstallTarget::User => "user"@,
    }
}

/// The install target a text names: `user` names the user, anything else
/// the system.
pub open spec fn target_of_text(s: Seq<char>) -> InstallTarget {
    if s == "user"@ {
        InstallTarget::User
    } else {
        InstallTarget::System
    }
}

impl TargetMarshaler {
    /// The text an install target is handed over as.
    pub fn to_foreign(target: InstallTarget) -> (r: &'static str)
        ensures
            r@ == target_text(target),
    {
        match target {
            InstallTarget::System => "system",
            InstallTarget::User => "user",
        }
    }

    /// The install target a text handed over names.
    pub fn from_foreign(text: &str) -> (r: InstallTarget)
        ensures
            r == target_of_text(text@),
    {
        let user = String::from_str("user");
        if user.eq(&String::from_str(text)) {
            InstallTarget::User
        } else {
            InstallTarget::System
        }
    }
}

/// Handing an install target over and reading it back gives it back.
pub proof fn lemma_target_text_roundtrip(t: InstallTarget)
    ensures
        target_of_text(target_text(t)) == t,
{
    reveal_strlit("system");
    reveal_strlit("user");
    if t == InstallTarget::System {
        assert("system"@.len() != "user"@.len());
    }
}

/// A package status as handed across the foreign interface: whether it was
/// found for the whole system, and its numeric code.
#[derive(Debug, Default, Copy, Clone, PartialEq, Eq, Structural)]
pub struct CPackageStatus {
    pub is_system: bool,
    pub status: i8,
}

impl CPackageStatus {
    /// The foreign form of a status query result.
    pub fn new(result: Result<PackageStatus, PackageStatusError>, is_system: bool) -> (r: CPackageStatus)
        ensures
            r.is_system == is_system,
            r.status == status_code(result),
    {
        let status = status_to_i8(result);
        CPackageStatus { is_system, status }
    }
}

/// The severity of a log record.
#[derive(Debug, Clone, Copy, PartialEq, Eq, Structural)]
pub enum LogLevel {
    Error,
    Warn,
    Info,
    Debug,
    Trace,
}

/// The numeric code of a log level as handed to a logging callback.
pub open spec fn level_code(level: LogLevel) -> u8 {
    match level {
        LogLevel::Error => 1,
        LogLevel::Warn => 2,
        LogLevel::Info => 3,
        LogLevel::Debug => 4,
        LogLevel::Trace => 5,
    }
}

/// The name of the log level a numeric code enables: none for 0, and
/// everything above 4 means tracing.
pub open spec fn level_name(level: u8) -> Option<Seq<char>> {
    if level == 0 {
        None
    } else if level == 1 {
        Some("error"@)
    } else if level == 2 {
        Some("warn"@)
    } else if level == 3 {
        Some("info"@)
    } else if level == 4 {
        Some("debug"@)
    } else {
        Some("trace"@)
    }
}

/// The numeric code of a log level.
pub fn level_to_u8(level: LogLevel) -> (r: u8)
    ensures
        r == level_code(level),
{
    match level {
        LogLevel::Error => 1,
        LogLevel::Warn => 2,
        LogLevel::Info => 3,
        LogLevel::Debug => 4,
        LogLevel::Trace => 5,
    }
}

/// The name of the log level a numeric code enables.
pub fn level_u8_to_str(level: u8) -> (r: Option<&'static str>)
    ensures
        match r {
            Some(s) => level_name(level) == Some(s@),
            None => level_name(level) is None,
        },
{
    match level {
        0 => None,
        1 => Some("error"),
        2 => Some("warn"),
        3 => Some("info"),
        4 => Some("debug"),
        _ => Some("trace"),
    }
}

/// The log filter that enables a level for this library: `pahkat_client=` and
/// the level's name.
pub fn log_filter(level: u8) -> (r: Option<String>)
    ensures
        match r {
            Some(f) => level_name(level) matches Some(n) && f@ == "pahkat_client="@ + n,
            None => level_name(level) is None,
        },
{
    match level_u8_to_str(level) {
        Some(name) => {
            let mut filter = String::from_str("pahkat_client=");
            filter.append(name);
            Some(filter)
        },
        None => None,
    }
}

/// The declaration of `tokio::runtime::Runtime`, the runtime futures of the
/// foreign interface are run on.
#[verifier::external_type_specification]
#[verifier::external_body]
pub struct ExRuntime(tokio::runtime::Runtime);

/// Runs a future to completion with `tokio::runtime::Runtime::block_on`.
/// That call panics when the thread is already inside a runtime context, so
/// it is made only where `tokio::runtime::Handle::try_current` reports that
/// no runtime context is set; otherwise (a context is set, or the thread's
/// locals are being torn down) nothing is run and the result is `None`.
/// Where it runs, the result is the future's output; a panic of the future
/// itself is the future's own and passes through.
#[verifier::external_body]
fn run_on<F: std::future::Future>(runtime: &tokio::runtime::Runtime, future: F) -> (r: Option<F::Output>)
    ensures
        r matches Some(v) ==> v == future@,
{
    match tokio::runtime::Handle::try_current() {
        Err(e) if e.is_missing_context() => Some(runtime.block_on(future)),
        _ => None,
    }
}

/// Runs a future to completion on a runtime, for callers on the foreign
/// interface, which cannot await: the future's output, or `None` where the
/// calling thread is already driving asynchronous work and may not block.
pub fn block_on<F: std::future::Future>(runtime: &tokio::runtime::Runtime, future: F) -> (r: Option<F::Output>)
    ensures
        r matches Some(v) ==> v == future@,
{
    run_on(runtime, future)
}

} // verus!
