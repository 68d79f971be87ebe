use vstd::prelude::*;

use crate::strings::opt_view;
use crate::url::RepoUrl;

verus! {

/// The text an optional borrowed string holds.
pub open spec fn opt_ref_view(o: Option<&String>) -> Option<Seq<char>> {
    match o {
        Some(s) => Some(s@),
        None => None,
    }
}

/// Borrows the string an option holds.
fn opt_ref(o: &Option<String>) -> (r: Option<&String>)
    ensures
        opt_ref_view(r) == opt_view(*o),
{
    match o {
        Some(s) => Some(s),
        None => None,
    }
}

/// Options every command takes: the configuration directory, the target
/// platform and the target channel.
#[derive(Debug, Default)]
pub struct GlobalOpts {
    pub config_path: Option<String>,
    pub platform: Option<String>,
    pub channel: Option<String>,
}

/// Download packages into a directory.
#[derive(Debug)]
pub struct Download {
    pub packages: Vec<String>,
    pub output_path: Option<String>,
    pub global_opts: GlobalOpts,
}

/// Install packages from the configured repositories.
#[derive(Debug)]
pub struct Install {
    pub packages: Vec<String>,
    pub global_opts: GlobalOpts,
}

/// Uninstall installed packages.
#[derive(Debug)]
pub struct Uninstall {
    pub packages: Vec<String>,
    pub global_opts: GlobalOpts,
}

/// Initialize the configuration.
#[derive(Debug)]
pub struct Init {
    pub global_opts: GlobalOpts,
}

/// Query the status of packages.
#[derive(Debug)]
pub struct Status {
    pub packages: Vec<String>,
    pub global_opts: GlobalOpts,
}

/// Options of the repository commands: the configuration directory.
#[derive(Debug, Default)]
pub struct RepoArgs {
    pub config_path: Option<String>,
}

/// Add or modify a repository entry.
#[derive(Debug)]
pub struct Add {
    pub repo_url: RepoUrl,
    pub channel: Option<String>,
    pub args: RepoArgs,
}

/// Remove a repository entry.
#[derive(Debug)]
pub struct Remove {
    pub repo_url: RepoUrl,
    pub args: RepoArgs,
}

/// List all repository entries.
#[derive(Debug, Default)]
pub struct List {
    pub config_path: Option<String>,
}

/// The repository commands.
#[derive(Debug)]
pub enum Repo {
    Add(Add),
    Remove(Remove),
    List(List),
}

/// The configuration commands.
#[derive(Debug)]
pub enum Config {
    Repo(Repo),
}

/// The commands of the command line.
#[derive(Debug)]
pub enum Args {
    Init(Init),
    Download(Download),
    Install(Install),
    Uninstall(Uninstall),
    Status(Status),
    Config(Config),
}

impl Repo {
    /// The configuration directory the command names.
    pub fn config_path(&self) -> (r: Option<&String>)
        ensures
            opt_ref_view(r) == match self {
                Repo::Add(x) => opt_view(x.args.config_path),
                Repo::Remove(x) => opt_view(x.args.config_path),
                Repo::List(x) => opt_view(x.config_path),
            },
    {
        match self {
            Repo::Add(x) => opt_ref(&x.args.config_path),
            Repo::Remove(x) => opt_ref(&x.args.config_path),
            Repo::List(x) => opt_ref(&x.config_path),
        }
    }
}

impl Config {
    /// The configuration directory the command names.
    pub fn config_path(&self) -> (r: Option<&String>)
        ensures
            opt_ref_view(r) == match self {
                Config::Repo(Repo::Add(x)) => opt_view(x.args.config_path),
                Config::Repo(Repo::Remove(x)) => opt_view(x.args.config_path),
                Config::Repo(Repo::List(x)) => opt_view(x.config_path),
            },
    {
        match self {
            Config::Repo(x) => x.config_path(),
        }
    }
}

/// The global options of a command, where it takes them.
pub open spec fn global_opts_of(a: Args) -> Option<GlobalOpts> {
    match a {
        Args::Init(x) => Some(x.global_opts),
        Args::Download(x) => Some(x.global_opts),
        Args::Install(x) => Some(x.global_opts),
        Args::Uninstall(x) => Some(x.global_opts),
        Args::Status(x) => Some(x.global_opts),
        Args::Config(_) => None,
    }
}

impl Args {
    /// The global options of the command, where it takes them.
    fn global_opts(&self) -> (r: Option<&GlobalOpts>)
        ensures
            match r {
                Some(g) => global_opts_of(*self) == Some(*g),
                None => global_opts_of(*self) is None,
            },
    {
        match self {
            Args::Init(x) => Some(&x.global_opts),
            Args::Download(x) => Some(&x.global_opts),
            Args::Install(x) => Some(&x.global_opts),
            Args::Uninstall(x) => Some(&x.global_opts),
            Args::Status(x) => Some(&x.global_opts),
            Args::Config(_) => None,
        }
    }

    /// The configuration directory the command names.
    pub fn config_path(&self) -> (r: Option<&String>)
        ensures
            opt_ref_view(r) == match *self {
                Args::Config(Config::Repo(Repo::Add(x))) => opt_view(x.args.config_path),
                Args::Config(Config::Repo(Repo::Remove(x))) => opt_view(x.args.config_path),
                Args::Config(Config::Repo(Repo::List(x))) => opt_view(x.config_path),
                _ => opt_view(global_opts_of(*self)->Some_0.config_path),
            },
    {
        match self {
            Args::Config(c) => c.config_path(),
            _ => match self.global_opts() {
                Some(g) => opt_ref(&g.config_path),
                None => None,
            },
        }
    }

    /// The target platform the command names; configuration commands name none.
    pub fn platform(&self) -> (r: Option<&String>)
        ensures
            opt_ref_view(r) == match global_opts_of(*self) {
                Some(g) => opt_view(g.platform),
                None => None,
            },
    {
        match self.global_opts() {
            Some(g) => opt_ref(&g.platform),
            None => None,
        }
    }
}

} // verus!
