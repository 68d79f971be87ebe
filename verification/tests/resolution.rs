use pahkat_client::fbs::FbsMap;
use pahkat_client::package_key::{PackageKey, PackageKeyParams};
use pahkat_client::package_store::InstallTarget;
use pahkat_client::query::{resolve_package_query, tagged_packages, PackageQuery};
use pahkat_client::repo::{
    find_package_by_id, find_package_by_key, resolve_payload, DependencyKey, Descriptor, Payload,
    PayloadError, QueryDefaults, RebootFlags, Release, ReleaseQuery, TarballPackage, Target,
    WindowsExecutable,
};
use pahkat_client::repository::{find_repo, LoadedRepository, LoadedRepositoryMeta};
use pahkat_client::resolve::{
    dependency_order, insert_candidate, next_missing_dependency, order_mutation_set,
    reboot_required, resolve_initial_set, resolve_package_candidate, PackageCandidateError, PackageSetResolver,
};
use pahkat_client::transaction::{
    action_requests, install_targets, settle_status, PackageAction, PackageActionType,
    PackageStatus, PackageStatusError, PackageTransaction, TransactionStep,
};
use pahkat_client::url::RepoUrl;

const REPO: &str = "https://example.com/repo/";

fn flags(on_install: bool, on_update: bool, on_uninstall: bool) -> RebootFlags {
    RebootFlags { on_install, on_update, on_uninstall }
}

fn exe(url: &str, size: u64, reboot: RebootFlags) -> Payload {
    Payload::WindowsExecutable(WindowsExecutable {
        url: url.to_string(),
        product_code: "{PRODUCT}".to_string(),
        kind: Some("inno".to_string()),
        args: None,
        uninstall_args: None,
        requires_reboot: reboot,
        size,
        installed_size: size * 2,
    })
}

fn tarball(url: &str, size: u64) -> Payload {
    Payload::TarballPackage(TarballPackage { url: url.to_string(), size, installed_size: size * 3 })
}

fn target(platform: &str, arch: Option<&str>, deps: Vec<DependencyKey>, payload: Payload) -> Target {
    Target {
        platform: platform.to_string(),
        arch: arch.map(String::from),
        dependencies: deps.into_iter().map(|d| (d, "*".to_string())).collect(),
        payload,
    }
}

fn release(version: &str, channel: Option<&str>, targets: Vec<Target>) -> Release {
    Release {
        version: version.to_string(),
        channel: channel.map(String::from),
        authors: vec![],
        license: None,
        license_url: None,
        target: targets,
    }
}

fn descriptor(id: &str, tags: &[&str], releases: Vec<Release>) -> Descriptor {
    Descriptor {
        id: id.to_string(),
        tags: tags.iter().map(|t| t.to_string()).collect(),
        name: vec![("en".to_string(), id.to_uppercase())],
        description: vec![],
        release: releases,
    }
}

fn repository(url: &str, channel: Option<&str>, packages: Vec<Descriptor>) -> LoadedRepository {
    let keys = packages.iter().map(|d| d.id.clone()).collect();
    LoadedRepository::new(
        RepoUrl::new(url).unwrap(),
        vec![],
        FbsMap::new(keys, packages),
        LoadedRepositoryMeta { channel: channel.map(String::from) },
    )
}

fn defaults() -> QueryDefaults {
    QueryDefaults { platform: "windows".to_string(), arch: None, payloads: vec!["WindowsExecutable".to_string()] }
}

fn key(id: &str) -> PackageKey {
    PackageKey::unchecked_new(RepoUrl::new(REPO).unwrap(), id.to_string(), None)
}

fn sample_repos() -> Vec<LoadedRepository> {
    let a = descriptor(
        "a",
        &["spell"],
        vec![
            release("2.0.0", Some("beta"), vec![target("windows", None, vec![], exe("https://dl/a-beta.exe", 5, flags(true, true, true)))]),
            release(
                "1.0.0",
                None,
                vec![
                    target("macos", None, vec![], exe("https://dl/a-mac.pkg", 7, flags(false, false, false))),
                    target("windows", None, vec![DependencyKey::Local("b".to_string())], exe("https://dl/a.exe", 10, flags(true, false, true))),
                ],
            ),
        ],
    );
    let b = descriptor(
        "b",
        &["lib"],
        vec![release("0.1.0", None, vec![target("windows", None, vec![], tarball("https://dl/b.txz", 3))])],
    );
    vec![repository(REPO, None, vec![a, b])]
}

#[test]
fn query_uses_key_parameters_and_defaults() {
    let repos = vec![repository(REPO, Some("beta"), vec![])];
    let q = ReleaseQuery::new(&key("a"), &repos, &defaults());
    assert_eq!(q.platform, "windows");
    assert_eq!(q.arch, None);
    assert_eq!(q.channels, vec!["beta".to_string()]);
    assert!(q.versions.is_empty());

    let k = PackageKey::unchecked_new(
        RepoUrl::new(REPO).unwrap(),
        "a".to_string(),
        Some(PackageKeyParams {
            channel: Some("nightly".into()),
            platform: Some("macos".into()),
            version: Some("1.0.0".into()),
            arch: Some("arm64".into()),
        }),
    );
    let q = ReleaseQuery::new(&k, &repos, &defaults());
    assert_eq!(q.platform, "macos");
    assert_eq!(q.arch.as_deref(), Some("arm64"));
    assert_eq!(q.channels, vec!["nightly".to_string()]);
    assert_eq!(q.versions.len(), 1);
}

#[test]
fn release_selection_skips_unlisted_channels() {
    let repos = sample_repos();
    let d = find_package_by_key(&key("a"), &repos).unwrap();
    let q = ReleaseQuery::new(&key("a"), &repos, &defaults());
    let resp = q.first_match(&d).unwrap();
    assert_eq!(resp.release_index, 1);
    assert_eq!(resp.target_index, 1);

    let mut beta = ReleaseQuery::new(&key("a"), &repos, &defaults());
    beta.channels = vec!["beta".to_string()];
    let resp = beta.first_match(&d).unwrap();
    assert_eq!(resp.release_index, 0);
    assert_eq!(resp.target_index, 0);
}

#[test]
fn architecture_rules() {
    let d = descriptor(
        "x",
        &[],
        vec![release(
            "1.0.0",
            None,
            vec![
                target("windows", Some("x86"), vec![], tarball("https://dl/1", 1)),
                target("windows", None, vec![], tarball("https://dl/2", 1)),
            ],
        )],
    );
    let mut q = ReleaseQuery::new(&key("x"), &vec![], &defaults());
    assert_eq!(q.first_match(&d).unwrap().target_index, 1);
    q.arch = Some("x86_64".to_string());
    assert_eq!(q.first_match(&d).unwrap().target_index, 1);
    q.arch = Some("x86".to_string());
    assert_eq!(q.first_match(&d).unwrap().target_index, 0);
    q.platform = "linux".to_string();
    assert!(q.first_match(&d).is_none());
}

#[test]
fn finds_packages_by_key_and_id() {
    let repos = sample_repos();
    assert_eq!(find_repo(&repos, &RepoUrl::new(REPO).unwrap()), Some(0));
    assert_eq!(find_repo(&repos, &RepoUrl::new("https://other.example/").unwrap()), None);
    assert!(find_package_by_key(&key("missing"), &repos).is_none());
    let (k, d) = find_package_by_id("b", &repos).unwrap();
    assert_eq!(d.id, "b");
    assert_eq!(k.to_string(), "https://example.com/repo/packages/b");
    let (k, d) = find_package_by_id("https://example.com/repo/packages/a?channel=beta", &repos).unwrap();
    assert_eq!(d.id, "a");
    assert_eq!(k.query.channel.as_deref(), Some("beta"));
    assert!(find_package_by_id("nothing", &repos).is_none());
}

#[test]
fn payload_resolution_errors() {
    let repos = sample_repos();
    let q = ReleaseQuery::new(&key("zzz"), &repos, &defaults());
    assert!(matches!(resolve_payload(&key("zzz"), &q, &repos), Err(PayloadError::NoPackage)));
    let mut q = ReleaseQuery::new(&key("b"), &repos, &defaults());
    q.platform = "linux".to_string();
    assert!(matches!(resolve_payload(&key("b"), &q, &repos), Err(PayloadError::NoPayloadFound)));
}

#[test]
fn candidate_resolution() {
    let repos = sample_repos();
    let request = (PackageActionType::Install, key("a"));
    let c = resolve_package_candidate(&request, vec![Ok(PackageStatus::NotInstalled)], &repos, &defaults()).unwrap();
    assert_eq!(c.status, PackageStatus::NotInstalled);
    assert_eq!(c.release.version, "1.0.0");
    assert_eq!(c.target.platform, "windows");
    assert!(c.is_reboot_required);

    let c = resolve_package_candidate(&request, vec![Ok(PackageStatus::RequiresUpdate)], &repos, &defaults()).unwrap();
    assert!(!c.is_reboot_required);

    match resolve_package_candidate(&request, vec![], &repos, &defaults()) {
        Err(PackageCandidateError::UnresolvedId(s)) => assert_eq!(s, "https://example.com/repo/packages/a"),
        other => panic!("unexpected {:?}", other),
    }
    match resolve_package_candidate(&request, vec![Err(PackageStatusError::ParsingVersion)], &repos, &defaults()) {
        Err(PackageCandidateError::Status(k, PackageStatusError::ParsingVersion)) => assert_eq!(k.id, "a"),
        other => panic!("unexpected {:?}", other),
    }
    let missing = (PackageActionType::Install, key("nope"));
    match resolve_package_candidate(&missing, vec![Ok(PackageStatus::NotInstalled)], &repos, &defaults()) {
        Err(PackageCandidateError::Payload(_, PayloadError::NoPackage)) => {}
        other => panic!("unexpected {:?}", other),
    }
}

#[test]
fn first_settled_status_wins() {
    let r: Vec<Result<PackageStatus, ()>> =
        vec![Ok(PackageStatus::NotInstalled), Ok(PackageStatus::UpToDate), Ok(PackageStatus::RequiresUpdate)];
    assert_eq!(settle_status(r), Some(Ok(PackageStatus::UpToDate)));
    let r: Vec<Result<PackageStatus, ()>> = vec![Ok(PackageStatus::NotInstalled), Err(())];
    assert_eq!(settle_status(r), Some(Err(())));
    let r: Vec<Result<PackageStatus, ()>> = vec![];
    assert_eq!(settle_status(r), None);
}

#[test]
fn uninstall_reboot_follows_the_payload() {
    let p = exe("https://dl/x.exe", 1, flags(false, false, true));
    assert!(reboot_required(PackageActionType::Uninstall, &p, PackageStatus::NotInstalled));
    assert!(!reboot_required(PackageActionType::Uninstall, &p, PackageStatus::UpToDate));
    assert!(!reboot_required(PackageActionType::Install, &tarball("https://dl/t", 1), PackageStatus::NotInstalled));
}

fn status_of(k: &PackageKey) -> Vec<Result<PackageStatus, PackageStatusError>> {
    match k.id.as_str() {
        "b" => vec![Ok(PackageStatus::NotInstalled)],
        _ => vec![Ok(PackageStatus::RequiresUpdate)],
    }
}

#[test]
fn package_set_orders_dependencies_first() {
    let repos = sample_repos();
    let requests = vec![(PackageActionType::Install, key("a"))];
    let statuses = requests.iter().map(|r| status_of(&r.1)).collect();
    let mut set = resolve_initial_set(&requests, statuses, &repos, &defaults()).unwrap();
    let parents: Vec<_> = set.iter().map(|c| c.copy()).collect();
    for parent in &parents {
        let mut from = 0;
        while let Some((j, k)) = next_missing_dependency(parent, from, &set, &repos).unwrap() {
            let c = resolve_package_candidate(&(PackageActionType::Install, k.copy()), status_of(&k), &repos, &defaults()).unwrap();
            insert_candidate(&mut set, c);
            from = j + 1;
        }
    }
    assert_eq!(set.len(), 2);
    let ordered = order_mutation_set(&set);
    let ids: Vec<_> = ordered.iter().map(|c| c.package_key.id.clone()).collect();
    assert_eq!(ids, vec!["b".to_string(), "a".to_string()]);
    assert_eq!(ordered[1].dependencies_in_set(&ordered), 1);
}

#[test]
fn unchanged_packages_leave_the_mutation_set() {
    let repos = sample_repos();
    let requests = vec![(PackageActionType::Install, key("a")), (PackageActionType::Uninstall, key("b"))];
    let statuses = vec![vec![Ok(PackageStatus::UpToDate)], vec![Ok(PackageStatus::NotInstalled)]];
    let set = resolve_initial_set(&requests, statuses, &repos, &defaults()).unwrap();
    assert_eq!(set.len(), 2);
    assert!(order_mutation_set(&set).is_empty());
}

#[test]
fn later_request_for_same_key_replaces_earlier() {
    let repos = sample_repos();
    let requests = vec![(PackageActionType::Install, key("a")), (PackageActionType::Uninstall, key("a"))];
    let statuses = vec![vec![Ok(PackageStatus::NotInstalled)], vec![Ok(PackageStatus::UpToDate)]];
    let set = resolve_initial_set(&requests, statuses, &repos, &defaults()).unwrap();
    assert_eq!(set.len(), 1);
    assert_eq!(set[0].action, PackageActionType::Uninstall);
}

#[test]
fn unresolvable_dependency_fails() {
    let d = descriptor(
        "c",
        &[],
        vec![release("1.0.0", None, vec![target("windows", None, vec![DependencyKey::Remote("not a url".to_string())], tarball("https://dl/c", 1))])],
    );
    let repos = vec![repository(REPO, None, vec![d])];
    let requests = vec![(PackageActionType::Install, key("c"))];
    let set = resolve_initial_set(&requests, vec![vec![Ok(PackageStatus::NotInstalled)]], &repos, &defaults()).unwrap();
    match next_missing_dependency(&set[0], 0, &set, &repos) {
        Err(PackageCandidateError::UnresolvedId(s)) => assert_eq!(s, "not a url"),
        other => panic!("unexpected {:?}", other),
    }
}

#[test]
fn stable_dependency_order() {
    let counts = vec![2usize, 0, 1, 0, 2];
    assert_eq!(dependency_order(&counts), vec![1, 3, 2, 0, 4]);
    assert_eq!(dependency_order(&vec![]), Vec::<usize>::new());
}

#[test]
fn transaction_takes_requested_actions() {
    let repos = sample_repos();
    let actions = vec![
        PackageAction::install(key("a"), InstallTarget::User),
        PackageAction::install(key("a"), InstallTarget::System),
    ];
    assert_eq!(install_targets(&actions), vec![InstallTarget::User, InstallTarget::System]);
    let requests = action_requests(&actions);
    assert_eq!(requests.len(), 2);
    let set = resolve_initial_set(&requests, vec![vec![Ok(PackageStatus::NotInstalled)], vec![Ok(PackageStatus::NotInstalled)]], &repos, &defaults()).unwrap();
    let dep = resolve_package_candidate(&(PackageActionType::Install, key("b")), vec![Ok(PackageStatus::NotInstalled)], &repos, &defaults()).unwrap();
    let mut all = set;
    insert_candidate(&mut all, dep);
    let ordered = order_mutation_set(&all);
    let tx = PackageTransaction::new(ordered, &actions);
    assert!(tx.is_reboot_required());
    assert_eq!(tx.actions().len(), 2);
    assert_eq!(tx.actions()[0].action.id.id, "b");
    assert_eq!(tx.actions()[0].action.target, InstallTarget::System);
    assert_eq!(tx.actions()[1].action.target, InstallTarget::User);
    assert_eq!(tx.step(0), TransactionStep::Install(0));
    assert_eq!(tx.step(2), TransactionStep::Complete);
}

#[test]
fn tag_query() {
    let repos = sample_repos();
    let query = PackageQuery { keys: None, tags: Some(vec!["spell".to_string(), "lib".to_string()]), channel: None };
    let tags = query.tags.clone().unwrap();
    let positions = tagged_packages(&repos, &tags);
    assert_eq!(positions, vec![(0, 0), (0, 1)]);
    let statuses = vec![vec![Ok(PackageStatus::UpToDate)], vec![Ok(PackageStatus::NotInstalled)]];
    let result = resolve_package_query(&query, statuses, &repos, &defaults());
    assert_eq!(result.descriptors.len(), 2);
    assert_eq!(result.size, 13);
    assert_eq!(result.installed_size, 29);
    assert_eq!(result.status, PackageStatus::RequiresUpdate);
    assert_eq!(result.descriptors[0].release.version, "1.0.0");

    let none = PackageQuery { keys: None, tags: None, channel: None };
    let result = resolve_package_query(&none, vec![], &repos, &defaults());
    assert!(result.descriptors.is_empty());
    assert_eq!(result.status, PackageStatus::UpToDate);
}

#[test]
fn resolver_adds_missing_dependencies_once() {
    let repos = sample_repos();
    let requests = vec![(PackageActionType::Install, key("a"))];
    let statuses = requests.iter().map(|r| status_of(&r.1)).collect();
    let mut resolver = PackageSetResolver::start(&requests, statuses, &repos, &defaults()).unwrap();
    assert_eq!(resolver.candidates().len(), 1);
    let dep = resolver.next_dependency(&repos).unwrap().unwrap();
    assert_eq!(dep.id, "b");
    resolver.add_dependency(&dep, status_of(&dep), &repos, &defaults()).unwrap();
    assert!(resolver.next_dependency(&repos).unwrap().is_none());
    assert_eq!(resolver.candidates().len(), 2);
    let ids: Vec<_> = resolver.finish().iter().map(|c| c.package_key.id.clone()).collect();
    assert_eq!(ids, vec!["b".to_string(), "a".to_string()]);
}
