use pahkat_client::config::{config_path_scheme, load_fallback, ConfigPathError, ConfigPathScheme, LoadFallback, Permission};
use pahkat_client::fbs::FbsMap;
use pahkat_client::package_key::PackageKey;
use pahkat_client::package_store::{children_first, count_slashes, InstallTarget};
use pahkat_client::query::matches_tags;
use pahkat_client::repo::{
    Descriptor, Payload, QueryDefaults, RebootFlags, Release, ReleaseQuery, TarballPackage, Target,
    WindowsExecutable,
};
use pahkat_client::repomgr::{RepoSearch, SearchStep};
use pahkat_client::repository::{index_urls, insert_repository, find_repo, repo_package_keys, strings_url, LoadedRepository, LoadedRepositoryMeta};
use pahkat_client::resolve::{mutation_candidates, resolve_initial_set};
use pahkat_client::transaction::{
    aggregate_query_status, status_needed, status_to_i8, PackageActionType, PackageStatus, PackageStatusError, PayloadError,
};
use pahkat_client::url::RepoUrl;
use pahkat_client::windows::{installed_version_candidates, registered_uninstaller, RegisteredUninstallError};

const REPO: &str = "https://example.com/repo/";

fn exe(code: &str) -> Payload {
    Payload::WindowsExecutable(WindowsExecutable {
        url: format!("https://dl/{}.exe", code),
        product_code: code.to_string(),
        kind: None,
        args: None,
        uninstall_args: None,
        requires_reboot: RebootFlags { on_install: false, on_update: false, on_uninstall: false },
        size: 1,
        installed_size: 1,
    })
}

fn tarball() -> Payload {
    Payload::TarballPackage(TarballPackage { url: "https://dl/t.txz".to_string(), size: 1, installed_size: 1 })
}

fn release(version: &str, payloads: Vec<Payload>) -> Release {
    Release {
        version: version.to_string(),
        channel: None,
        authors: vec![],
        license: None,
        license_url: None,
        target: payloads
            .into_iter()
            .map(|payload| Target { platform: "windows".to_string(), arch: None, dependencies: vec![], payload })
            .collect(),
    }
}

fn descriptor(id: &str, releases: Vec<Release>) -> Descriptor {
    Descriptor { id: id.to_string(), tags: vec![], name: vec![], description: vec![], release: releases }
}

fn repository(packages: Vec<Descriptor>) -> LoadedRepository {
    let keys = packages.iter().map(|d| d.id.clone()).collect();
    LoadedRepository::new(RepoUrl::new(REPO).unwrap(), vec![], FbsMap::new(keys, packages), LoadedRepositoryMeta { channel: None })
}

fn defaults() -> QueryDefaults {
    QueryDefaults { platform: "windows".to_string(), arch: None, payloads: vec![] }
}

fn key(id: &str) -> PackageKey {
    PackageKey::unchecked_new(RepoUrl::new(REPO).unwrap(), id.to_string(), None)
}

#[test]
fn query_status_summary() {
    let (n, u, r) = (PackageStatus::NotInstalled, PackageStatus::UpToDate, PackageStatus::RequiresUpdate);
    assert_eq!(aggregate_query_status(&vec![]), u);
    assert_eq!(aggregate_query_status(&vec![u, u]), u);
    assert_eq!(aggregate_query_status(&vec![u, n]), r);
    assert_eq!(aggregate_query_status(&vec![n]), r);
    assert_eq!(aggregate_query_status(&vec![r, u]), r);
}

#[test]
fn status_codes() {
    assert_eq!(status_to_i8(Ok(PackageStatus::NotInstalled)), 0);
    assert_eq!(status_to_i8(Ok(PackageStatus::UpToDate)), 1);
    assert_eq!(status_to_i8(Ok(PackageStatus::RequiresUpdate)), 2);
    assert_eq!(status_to_i8(Err(PackageStatusError::Payload(PayloadError::NoPackage))), -1);
    assert_eq!(status_to_i8(Err(PackageStatusError::Payload(PayloadError::NoPayloadFound))), -2);
    assert_eq!(status_to_i8(Err(PackageStatusError::WrongPayloadType)), -3);
    assert_eq!(status_to_i8(Err(PackageStatusError::ParsingVersion)), -4);
    assert_eq!(status_to_i8(Err(PackageStatusError::Payload(PayloadError::CriteriaUnmet("x".into())))), -5);
}

#[test]
fn target_and_action_bytes_round_trip() {
    for t in [InstallTarget::System, InstallTarget::User] {
        assert_eq!(InstallTarget::from_u8(t.to_u8()), t);
    }
    assert_eq!(InstallTarget::from_u8(7), InstallTarget::System);
    assert_eq!(InstallTarget::default_target(), InstallTarget::System);
    for a in [PackageActionType::Install, PackageActionType::Uninstall] {
        assert_eq!(PackageActionType::from_u8(a.to_u8()), a);
    }
}

#[test]
fn directories_are_removed_children_first() {
    assert_eq!(count_slashes("a/b/c"), 2);
    assert_eq!(count_slashes(""), 0);
    let dirs = vec!["a".to_string(), "a/b/c".to_string(), "a/b".to_string()];
    assert_eq!(children_first(&dirs), vec!["a/b/c".to_string(), "a/b".to_string(), "a".to_string()]);
}

#[test]
fn unreadable_configuration_fallback() {
    assert_eq!(load_fallback(Permission::ReadWrite), LoadFallback::Create);
    assert_eq!(load_fallback(Permission::ReadOnly), LoadFallback::ReadOnly);
}

#[test]
fn tag_matching() {
    let tags = vec!["spell".to_string(), "lib".to_string()];
    assert!(matches_tags(&vec!["lib".to_string()], &tags));
    assert!(!matches_tags(&vec!["other".to_string()], &tags));
    assert!(!matches_tags(&vec![], &tags));
}

#[test]
fn repository_addresses() {
    let url = RepoUrl::new(REPO).unwrap();
    let (index, packages) = index_urls(&url);
    assert_eq!(index, "https://example.com/repo//index.toml");
    assert_eq!(packages, "https://example.com/repo//packages/index.bin");
    assert_eq!(strings_url(&url, "se").as_deref(), Some("https://example.com/repo/strings/se.toml"));
}

#[test]
fn package_keys_of_a_repository() {
    let repos = vec![repository(vec![descriptor("a", vec![]), descriptor("b", vec![])])];
    let keys = repo_package_keys(&repos, &RepoUrl::new(REPO).unwrap());
    let ids: Vec<_> = keys.iter().map(|k| k.id.clone()).collect();
    assert_eq!(ids, vec!["a".to_string(), "b".to_string()]);
    assert!(repo_package_keys(&repos, &RepoUrl::new("https://other.example/").unwrap()).is_empty());
}

#[test]
fn all_answers_and_windows_candidates() {
    let d = descriptor("a", vec![release("2.0.0", vec![tarball(), exe("{B}")]), release("1.0.0", vec![exe("{A}")])]);
    let repos = vec![repository(vec![d.clone()])];
    let q = ReleaseQuery::new(&key("a"), &repos, &defaults());
    let all: Vec<_> = q.all_matches(&d).iter().map(|r| (r.release_index, r.target_index)).collect();
    assert_eq!(all, vec![(0, 0), (1, 0)]);
    let windows: Vec<_> =
        installed_version_candidates(&q, &d).iter().map(|r| (r.release_index, r.target_index)).collect();
    assert_eq!(windows, vec![(1, 0)]);
}

#[test]
fn only_changing_candidates_are_kept() {
    let d = descriptor("a", vec![release("1.0.0", vec![tarball()])]);
    let e = descriptor("b", vec![release("1.0.0", vec![tarball()])]);
    let repos = vec![repository(vec![d, e])];
    let requests = vec![(PackageActionType::Install, key("a")), (PackageActionType::Install, key("b"))];
    let statuses = vec![vec![Ok(PackageStatus::UpToDate)], vec![Ok(PackageStatus::NotInstalled)]];
    let set = resolve_initial_set(&requests, statuses, &repos, &defaults()).unwrap();
    let changing = mutation_candidates(&set);
    assert_eq!(changing.len(), 1);
    assert_eq!(changing[0].package_key.id, "b");
}

#[test]
fn repository_search_walks_up() {
    let search = RepoSearch::new("/srv/repo/index.toml");
    assert_eq!(search.dir, "/srv/repo");
    let search = RepoSearch::new("/srv/repo/packages/a");
    assert_eq!(search.dir, "/srv/repo/packages/a");
    let next = match search.step(false) {
        SearchStep::Next(s) => s,
        other => panic!("unexpected {:?}", other),
    };
    assert_eq!(next.dir, "/srv/repo/packages");
    match RepoSearch::new("/").step(false) {
        SearchStep::NotFound => {}
        other => panic!("unexpected {:?}", other),
    }
    match RepoSearch::new("/srv").step(true) {
        SearchStep::Found(dir) => assert_eq!(dir, "/srv"),
        other => panic!("unexpected {:?}", other),
    }
}

#[test]
fn configuration_path_schemes() {
    assert_eq!(config_path_scheme("file:///home/u/.cache/Pahkat").unwrap(), ConfigPathScheme::File);
    assert_eq!(config_path_scheme("container:/cache").unwrap(), ConfigPathScheme::Container);
    assert!(matches!(config_path_scheme("/home/u/.cache"), Err(ConfigPathError::InvalidUrl)));
    assert!(matches!(config_path_scheme("file"), Err(ConfigPathError::InvalidUrl)));
}

#[test]
fn futures_run_to_completion_outside_a_runtime() {
    let rt = tokio::runtime::Builder::new_multi_thread().enable_all().build().unwrap();
    assert_eq!(pahkat_client::ffi::block_on(&rt, async { 6 * 7 }), Some(42));
    let inner = tokio::runtime::Builder::new_multi_thread().enable_all().build().unwrap();
    let nested = rt.block_on(async { pahkat_client::ffi::block_on(&inner, async { 1 }) });
    assert_eq!(nested, None);
    drop(inner);
}

#[test]
fn statuses_are_asked_until_one_settles() {
    let none: Vec<Result<PackageStatus, PackageStatusError>> = vec![];
    assert!(status_needed(&none, 2));
    assert!(!status_needed(&none, 0));
    assert!(status_needed::<PackageStatusError>(&vec![Ok(PackageStatus::NotInstalled)], 2));
    assert!(status_needed(&vec![Err(PackageStatusError::ParsingVersion)], 2));
    assert!(!status_needed::<PackageStatusError>(&vec![Ok(PackageStatus::UpToDate)], 2));
    assert!(!status_needed::<PackageStatusError>(&vec![Ok(PackageStatus::NotInstalled), Ok(PackageStatus::NotInstalled)], 2));
}

#[test]
fn repositories_are_kept_once_per_url() {
    let mut repos = vec![];
    insert_repository(&mut repos, repository(vec![descriptor("a", vec![])]));
    insert_repository(&mut repos, repository(vec![descriptor("b", vec![]), descriptor("c", vec![])]));
    assert_eq!(repos.len(), 1);
    assert_eq!(repos[0].packages().len(), 2);
    assert_eq!(find_repo(&repos, &RepoUrl::new(REPO).unwrap()), Some(0));
}

#[test]
fn registered_uninstall_commands() {
    assert!(matches!(registered_uninstaller(None), Err(RegisteredUninstallError::NotInstalled)));
    match registered_uninstaller(Some(None)) {
        Err(RegisteredUninstallError::Payload(PayloadError::CriteriaUnmet(m))) => {
            assert_eq!(m, "No compatible uninstallation method found.")
        }
        other => panic!("unexpected {:?}", other),
    }
    assert_eq!(registered_uninstaller(Some(Some("unins000.exe /SILENT".to_string()))).unwrap(), "unins000.exe /SILENT");
}
