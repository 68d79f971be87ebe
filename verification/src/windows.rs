use vstd::prelude::*;

use crate::repo::{query_responses, Descriptor, DescriptorView, Payload, ReleaseQuery, ReleaseQueryResponse};
use crate::strings::opt_view;
use crate::transaction::PayloadError;

verus! {

/// The registry key, below the local machine hive, under which Windows lists
/// an installed program by its product code.
pub open spec fn uninstall_key(product_code: Seq<char>) -> Seq<char> {
    "Software\\Microsoft\\Windows\\CurrentVersion\\Uninstall"@ + "\\"@ + product_code
}

/// The registry key under which Windows lists an installed program.
pub fn uninstall_key_path(product_code: &str) -> (r: String)
    ensures
        r@ == uninstall_key(product_code@),
{
    let mut key = String::from_str("Software\\Microsoft\\Windows\\CurrentVersion\\Uninstall");
    key.append("\\");
    key.append(product_code);
    key
}

/// The command line that runs a Windows installer silently: the arguments
/// the payload gives; else, for a known installer kind, the installer with
/// that kind's silent switches; else the installer alone. An unknown kind
/// gives no command line.
pub open spec fn install_command(kind: Option<Seq<char>>, args: Option<Seq<char>>, pkg_path: Seq<char>) -> Seq<
    char,
> {
    match args {
        Some(a) => a,
        None => match kind {
            Some(k) => if k == "inno"@ {
                "\""@ + pkg_path + "\" /VERYSILENT /SP- /SUPPRESSMSGBOXES /NORESTART"@
            } else if k == "msi"@ {
                "msiexec /i \""@ + pkg_path + "\" /qn /norestart"@
            } else if k == "nsis"@ {
                "\""@ + pkg_path + "\" /S"@
            } else {
                Seq::empty()
            },
            None => pkg_path,
        },
    }
}

/// The command line that runs a Windows installer silently.
pub fn install_command_line(kind: &Option<String>, args: &Option<String>, pkg_path: &str) -> (r: String)
    ensures
        r@ == install_command(opt_view(*kind), opt_view(*args), pkg_path@),
{
    match args {
        Some(a) => a.clone(),
        None => match kind {
            Some(k) => {
                if k.eq(&String::from_str("inno")) {
                    let mut line = String::from_str("\"");
                    line.append(pkg_path);
                    line.append("\" /VERYSILENT /SP- /SUPPRESSMSGBOXES /NORESTART");
                    line
                } else if k.eq(&String::from_str("msi")) {
                    let mut line = String::from_str("msiexec /i \"");
                    line.append(pkg_path);
                    line.append("\" /qn /norestart");
                    line
                } else if k.eq(&String::from_str("nsis")) {
                    let mut line = String::from_str("\"");
                    line.append(pkg_path);
                    line.append("\" /S");
                    line
                } else {
                    String::new()
                }
            },
            None => String::from_str(pkg_path),
        },
    }
}

/// The reason given when a Windows payload offers no way to uninstall it silently.
pub open spec fn invalid_installer_type() -> Seq<char> {
    "Invalid type specified for package installer."@
}

/// The arguments that make a Windows uninstaller silent: those the payload
/// gives; else those of its installer kind. A payload of unknown or no kind
/// cannot be uninstalled silently.
pub open spec fn uninstall_args(kind: Option<Seq<char>>, args: Option<Seq<char>>, product_code: Seq<char>) -> Option<
    Seq<char>,
> {
    match args {
        Some(a) => Some(a),
        None => match kind {
            Some(k) => if k == "inno"@ {
                Some("/VERYSILENT /SP- /SUPPRESSMSGBOXES /NORESTART"@)
            } else if k == "msi"@ {
                Some("/x \""@ + product_code + "\" /qn /norestart"@)
            } else if k == "nsis"@ {
                Some("/S"@)
            } else {
                None
            },
            None => None,
        },
    }
}

/// Uninstall arguments the payload gives are the ones used, whatever the
/// installer kind; the kind's own arguments are used only where the payload
/// gives none.
pub proof fn lemma_payload_uninstall_args_win(kind: Option<Seq<char>>, args: Option<Seq<char>>, product_code: Seq<char>)
    ensures
        args matches Some(a) ==> uninstall_args(kind, args, product_code) == Some(a),
        args is None && kind is None ==> uninstall_args(kind, args, product_code) is None,
{
}

/// The arguments that make a Windows uninstaller silent.
pub fn uninstall_arguments(kind: &Option<String>, args: &Option<String>, product_code: &str) -> (r: Result<
    String,
    PayloadError,
>)
    ensures
        match r {
            Ok(a) => uninstall_args(opt_view(*kind), opt_view(*args), product_code@) == Some(a@),
            Err(e) => {
                &&& uninstall_args(opt_view(*kind), opt_view(*args), product_code@) is None
                &&& e matches PayloadError::CriteriaUnmet(m) && m@ == invalid_installer_type()
            },
        },
{
    match args {
        Some(a) => Ok(a.clone()),
        None => match kind {
            Some(k) => {
                if k.eq(&String::from_str("inno")) {
                    Ok(String::from_str("/VERYSILENT /SP- /SUPPRESSMSGBOXES /NORESTART"))
                } else if k.eq(&String::from_str("msi")) {
                    let mut line = String::from_str("/x \"");
                    line.append(product_code);
                    line.append("\" /qn /norestart");
                    Ok(line)
                } else if k.eq(&String::from_str("nsis")) {
                    Ok(String::from_str("/S"))
                } else {
                    Err(PayloadError::CriteriaUnmet(String::from_str("Invalid type specified for package installer.")))
                }
            },
            None => Err(PayloadError::CriteriaUnmet(String::from_str("Invalid type specified for package installer."))),
        },
    }
}

/// The message given when Windows records no quiet uninstall command for a program.
pub open spec fn no_uninstall_method() -> Seq<char> {
    "No compatible uninstallation method found."@
}

/// Why no uninstaller can be run for a program Windows may have registered.
#[derive(Debug)]
pub enum RegisteredUninstallError {
    /// Windows has no record of the program.
    NotInstalled,
    /// The record names no way to uninstall it quietly.
    Payload(PayloadError),
}

/// The uninstall command to run for a program, from what Windows records of
/// it: no record means the program is not installed; a record without a
/// quiet uninstall command leaves no compatible uninstallation method;
/// otherwise that command is run.
pub fn registered_uninstaller(registration: Option<Option<String>>) -> (r: Result<String, RegisteredUninstallError>)
    ensures
        match registration {
            None => r matches Err(RegisteredUninstallError::NotInstalled),
            Some(None) => r matches Err(RegisteredUninstallError::Payload(PayloadError::CriteriaUnmet(m)))
                && m@ == no_uninstall_method(),
            Some(Some(command)) => r == Ok::<String, RegisteredUninstallError>(command),
        },
{
    match registration {
        None => Err(RegisteredUninstallError::NotInstalled),
        Some(None) => {
            proof {
                reveal_strlit("No compatible uninstallation method found.");
            }
            Err(
                RegisteredUninstallError::Payload(
                    PayloadError::CriteriaUnmet(String::from_str("No compatible uninstallation method found.")),
                ),
            )
        },
        Some(Some(command)) => Ok(command),
    }
}

/// The answers among `rs` whose target carries a Windows installer, in order.
pub open spec fn windows_answers(d: DescriptorView, rs: Seq<(int, int)>) -> Seq<(int, int)>
    decreases rs.len(),
{
    if rs.len() == 0 {
        rs
    } else {
        let init = windows_answers(d, rs.drop_last());
        let (i, j) = rs.last();
        if d.release[i].target[j].payload is WindowsExecutable {
            init.push(rs.last())
        } else {
            init
        }
    }
}

/// The releases and targets, in order, whose installer may have registered
/// the package with Windows: every answer of the query whose target carries
/// a Windows installer. The first one registered gives the installed version.
pub fn installed_version_candidates(query: &ReleaseQuery, descriptor: &Descriptor) -> (r: Vec<
    ReleaseQueryResponse,
>)
    ensures
        r@.map_values(|x: ReleaseQueryResponse| (x.release_index as int, x.target_index as int))
            == windows_answers(descriptor@, query_responses(query.selection(), descriptor@, 0)),
{
    let all = query.all_matches(descriptor);
    let ghost av = all@.map_values(|x: ReleaseQueryResponse| (x.release_index as int, x.target_index as int));
    let mut out: Vec<ReleaseQueryResponse> = Vec::new();
    let mut k: usize = 0;
    proof {
        assert(av.take(0) =~= Seq::<(int, int)>::empty());
        assert(out@.map_values(|x: ReleaseQueryResponse| (x.release_index as int, x.target_index as int))
            =~= Seq::<(int, int)>::empty());
    }
    while k < all.len()
        invariant
            0 <= k <= all.len(),
            av == all@.map_values(|x: ReleaseQueryResponse| (x.release_index as int, x.target_index as int)),
            forall|i: int|
                0 <= i < all@.len() ==> (#[trigger] all@[i]).release_index < descriptor@.release.len()
                    && all@[i].target_index < descriptor@.release[all@[i].release_index as int].target.len(),
            out@.map_values(|x: ReleaseQueryResponse| (x.release_index as int, x.target_index as int))
                == windows_answers(descriptor@, av.take(k as int)),
        decreases all.len() - k,
    {
        let resp = all[k];
        let release = &descriptor.release[resp.release_index];
        let target = &release.target[resp.target_index];
        proof {
            assert(descriptor@.release[resp.release_index as int] == release@);
            assert(release@.target[resp.target_index as int] == target@);
            assert(av.take(k + 1).drop_last() =~= av.take(k as int));
            assert(av.take(k + 1).last() == (resp.release_index as int, resp.target_index as int));
        }
        let ghost before = out@.map_values(|x: ReleaseQueryResponse| (x.release_index as int, x.target_index as int));
        match &target.payload {
            Payload::WindowsExecutable(_) => {
                out.push(resp);
                proof {
                    assert(out@.map_values(|x: ReleaseQueryResponse| (x.release_index as int, x.target_index as int))
                        =~= before.push((resp.release_index as int, resp.target_index as int)));
                }
            },
            _ => {},
        }
        k = k + 1;
    }
    proof {
        assert(av.take(all@.len() as int) =~= av);
    }
    out
}

} // verus!
