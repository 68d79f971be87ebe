use pahkat_client::common::index_fn;
use pahkat_client::config::{Permission, RepoRecord, Repos, ReposData};
use pahkat_client::download::{
    cached_file_name, content_length, download_dirs, download_file_name, parse_u64, DownloadError,
    DownloadProgress,
};
use pahkat_client::ffi::{
    level_to_u8, level_u8_to_str, log_filter, CPackageStatus, LogLevel, PackageKeyMarshaler,
    TargetMarshaler,
};
use pahkat_client::package_store::{global_uninstall_path, macos_install_args, InstallTarget};
use pahkat_client::repo::{Payload, RebootFlags, Release, TarballPackage, Target, WindowsExecutable};
use pahkat_client::repomgr::nightlies::prune_nightlies;
use pahkat_client::repomgr::update::{update_descriptor, Request};
use pahkat_client::repomgr::{channel_from_input, make_lang_tag_map, new_package_descriptor, tags_from_input};
use pahkat_client::transaction::{PackageStatus, PackageStatusError, PayloadError};
use pahkat_client::url::RepoUrl;
use pahkat_client::windows::{install_command_line, uninstall_arguments, uninstall_key_path};

fn tar(url: &str) -> Payload {
    Payload::TarballPackage(TarballPackage { url: url.to_string(), size: 1, installed_size: 1 })
}

fn release(version: &str, channel: Option<&str>, urls: &[&str]) -> Release {
    Release {
        version: version.to_string(),
        channel: channel.map(String::from),
        authors: vec![],
        license: None,
        license_url: None,
        target: urls
            .iter()
            .map(|u| Target { platform: "linux".into(), arch: None, dependencies: vec![], payload: tar(u) })
            .collect(),
    }
}

#[test]
fn prunes_nightlies_beyond_the_kept_ones() {
    let releases = vec![
        release("4", Some("nightly"), &["https://dl/4"]),
        release("3", None, &["https://dl/3"]),
        release("2", Some("nightly"), &["https://dl/2a", "https://dl/2b"]),
        release("1", Some("nightly"), &["https://dl/1"]),
        release("0", Some("beta"), &["https://dl/0"]),
    ];
    let (kept, urls) = prune_nightlies(releases, 1);
    let versions: Vec<_> = kept.iter().map(|r| r.version.clone()).collect();
    assert_eq!(versions, vec!["4", "3", "0"]);
    assert_eq!(urls, vec!["https://dl/2a", "https://dl/2b", "https://dl/1"]);
    let (again, urls) = prune_nightlies(kept, 1);
    assert_eq!(again.len(), 3);
    assert!(urls.is_empty());
}

#[test]
fn keeping_zero_nightlies_drops_them_all() {
    let releases = vec![release("2", Some("nightly"), &["a"]), release("1", None, &["b"])];
    let (kept, urls) = prune_nightlies(releases, 0);
    assert_eq!(kept.len(), 1);
    assert_eq!(kept[0].version, "1");
    assert_eq!(urls, vec!["a"]);
}

fn update_request(version: &str, channel: Option<&str>, platform: &str, url: Option<&str>) -> Request {
    Request {
        repo_path: "/repo".into(),
        id: "pkg".into(),
        name: None,
        description: Some(vec![("en".into(), "desc".into())]),
        channel: channel.map(String::from),
        version: version.into(),
        target: Target { platform: platform.into(), arch: Some("x86".into()), dependencies: vec![], payload: tar("https://dl/orig") },
        url: url.map(String::from),
    }
}

#[test]
fn update_adds_release_and_target_in_front() {
    let mut d = new_package_descriptor("pkg".into(), "Pkg".into(), "Old".into(), vec!["t".into()]);
    assert_eq!(d.name, vec![("en".to_string(), "Pkg".to_string())]);
    update_descriptor(&mut d, &update_request("1.0.0", None, "linux", Some("https://dl/new")));
    assert_eq!(d.release.len(), 1);
    assert_eq!(d.description, vec![("en".to_string(), "desc".to_string())]);
    let t = &d.release[0].target[0];
    assert_eq!(t.arch, None);
    assert_eq!(t.payload.url(), "https://dl/new");

    update_descriptor(&mut d, &update_request("2.0.0", Some("beta"), "linux", None));
    assert_eq!(d.release.len(), 2);
    assert_eq!(d.release[0].version, "2.0.0");

    update_descriptor(&mut d, &update_request("1.0.0", None, "linux", None));
    assert_eq!(d.release.len(), 2);
    let t = &d.release[1].target[0];
    assert_eq!(t.arch.as_deref(), Some("x86"));
    assert_eq!(t.payload.url(), "https://dl/orig");

    update_descriptor(&mut d, &update_request("1.0.0", None, "macos", None));
    assert_eq!(d.release[1].target.len(), 2);
    assert_eq!(d.release[1].target[0].platform, "macos");
}

#[test]
fn request_inputs() {
    assert_eq!(channel_from_input(""), None);
    assert_eq!(channel_from_input("nightly").as_deref(), Some("nightly"));
    assert_eq!(tags_from_input("  "), Vec::<String>::new());
    assert_eq!(tags_from_input("a b"), vec!["a".to_string(), "b".to_string()]);
    assert_eq!(tags_from_input("a  b"), vec!["a".to_string(), "".to_string(), "b".to_string()]);
    assert_eq!(make_lang_tag_map("x".into()), vec![("en".to_string(), "x".to_string())]);
}

#[test]
fn download_locations() {
    let dirs = download_dirs("https://example.com/file.exe");
    assert_eq!(dirs.len(), 3);
    assert_eq!(dirs[0].len(), 2);
    assert_eq!(dirs[1].len(), 2);
    assert_eq!(dirs[2].len(), 60);
    let joined = format!("{}{}{}", dirs[0], dirs[1], dirs[2]);
    assert_eq!(joined.len(), 64);
    assert!(joined.chars().all(|c| c.is_ascii_hexdigit() && !c.is_ascii_uppercase()));
    assert_ne!(download_dirs("https://example.com/other.exe"), dirs);
    assert_eq!(download_file_name("https://example.com/a/b/file.exe").unwrap(), "file.exe");
    assert!(matches!(download_file_name("not a url"), Err(DownloadError::InvalidUrl)));
    assert_eq!(cached_file_name("mailto:x@y"), "");
    assert_eq!(cached_file_name("https://example.com/dir/"), "");
}

#[test]
fn sha256_of_known_text() {
    let dirs = download_dirs("abc");
    let joined = format!("{}{}{}", dirs[0], dirs[1], dirs[2]);
    assert_eq!(joined, "ba7816bf8f01cfea414140de5dae2223b00361a396177a9cb410ff61f20015ad");
}

#[test]
fn progress_events() {
    let mut p = DownloadProgress::new(100);
    assert!(!p.record_chunk(40, 10));
    assert!(p.record_chunk(10, 800));
    assert!(p.record_chunk(50, 0));
    assert_eq!(p.downloaded, 100);
}

#[test]
fn content_lengths() {
    assert_eq!(parse_u64("123"), Some(123));
    assert_eq!(parse_u64("+7"), Some(7));
    assert_eq!(parse_u64("+"), None);
    assert_eq!(parse_u64(""), None);
    assert_eq!(parse_u64("-1"), None);
    assert_eq!(parse_u64("18446744073709551615"), Some(u64::MAX));
    assert_eq!(parse_u64("18446744073709551616"), None);
    assert_eq!(parse_u64("12a"), None);
    assert_eq!(content_length(Some("2048")), 2048);
    assert_eq!(content_length(Some("lots")), 0);
    assert_eq!(content_length(None), 0);
}

#[test]
fn windows_installer_arguments() {
    let inno = Some("inno".to_string());
    let msi = Some("msi".to_string());
    let nsis = Some("nsis".to_string());
    assert_eq!(
        install_command_line(&inno, &None, "C:\\p.exe"),
        "\"C:\\p.exe\" /VERYSILENT /SP- /SUPPRESSMSGBOXES /NORESTART"
    );
    assert_eq!(install_command_line(&msi, &None, "C:\\p.msi"), "msiexec /i \"C:\\p.msi\" /qn /norestart");
    assert_eq!(install_command_line(&nsis, &None, "C:\\p.exe"), "\"C:\\p.exe\" /S");
    assert_eq!(install_command_line(&None, &None, "C:\\p.exe"), "C:\\p.exe");
    assert_eq!(install_command_line(&Some("odd".into()), &None, "C:\\p.exe"), "");
    assert_eq!(install_command_line(&msi, &Some("/custom".into()), "C:\\p.msi"), "/custom");

    assert_eq!(uninstall_arguments(&msi, &None, "{ABC}").unwrap(), "/x \"{ABC}\" /qn /norestart");
    assert_eq!(uninstall_arguments(&nsis, &None, "x").unwrap(), "/S");
    assert_eq!(uninstall_arguments(&inno, &None, "x").unwrap(), "/VERYSILENT /SP- /SUPPRESSMSGBOXES /NORESTART");
    assert_eq!(uninstall_arguments(&None, &Some("/q".into()), "x").unwrap(), "/q");
    match uninstall_arguments(&None, &None, "x") {
        Err(PayloadError::CriteriaUnmet(m)) => assert_eq!(m, "Invalid type specified for package installer."),
        other => panic!("unexpected {:?}", other),
    }
    assert_eq!(
        uninstall_key_path("{ABC}"),
        "Software\\Microsoft\\Windows\\CurrentVersion\\Uninstall\\{ABC}"
    );
}

#[test]
fn foreign_interface_values() {
    assert_eq!(TargetMarshaler::to_foreign(InstallTarget::User), "user");
    assert_eq!(TargetMarshaler::from_foreign("user"), InstallTarget::User);
    assert_eq!(TargetMarshaler::from_foreign("anything"), InstallTarget::System);
    assert_eq!(TargetMarshaler::from_foreign(TargetMarshaler::to_foreign(InstallTarget::System)), InstallTarget::System);
    let s = CPackageStatus::new(Err(PackageStatusError::ParsingVersion), true);
    assert_eq!(s, CPackageStatus { is_system: true, status: -4 });
    let s = CPackageStatus::new(Ok(PackageStatus::UpToDate), false);
    assert_eq!(s.status, 1);
    assert_eq!(level_u8_to_str(0), None);
    assert_eq!(level_u8_to_str(3), Some("info"));
    assert_eq!(level_u8_to_str(200), Some("trace"));
    assert_eq!(level_to_u8(LogLevel::Warn), 2);
    assert_eq!(level_u8_to_str(level_to_u8(LogLevel::Debug)), Some("debug"));
    assert_eq!(log_filter(1).as_deref(), Some("pahkat_client=error"));
    assert_eq!(log_filter(0), None);
    let key = PackageKeyMarshaler::from_foreign("https://example.com/r/packages/x").unwrap();
    assert_eq!(PackageKeyMarshaler::to_foreign(&key), "https://example.com/r/packages/x");
}

#[test]
fn macos_paths() {
    assert_eq!(global_uninstall_path(), "/Library/Application Support/Pahkat/uninstall");
    assert_eq!(
        macos_install_args("/tmp/a.pkg", InstallTarget::User),
        vec!["-pkg", "/tmp/a.pkg", "-target", "CurrentUserHomeDirectory"]
    );
    assert_eq!(macos_install_args("/tmp/a.pkg", InstallTarget::System)[3], "LocalSystem");
}

#[test]
fn index_file_names() {
    assert_eq!(index_fn(Some("nightly")), "index.nightly.json");
    assert_eq!(index_fn(None), "index.json");
}

#[test]
fn repos_configuration() {
    let mut repos = Repos::new("/cfg/repos.toml".into(), ReposData::new(), Permission::ReadWrite);
    let a = RepoUrl::new("https://a.example/").unwrap();
    let b = RepoUrl::new("https://b.example/").unwrap();
    let c = RepoUrl::new("https://c.example/").unwrap();
    assert!(repos.insert(&a, RepoRecord { channel: None }));
    assert!(repos.insert(&b, RepoRecord { channel: Some("beta".into()) }));
    assert!(repos.insert(&c, RepoRecord { channel: None }));
    assert!(repos.insert(&a, RepoRecord { channel: Some("nightly".into()) }));
    assert_eq!(repos.repos_data().len(), 3);
    assert_eq!(repos.repos_data().get(&a).unwrap().channel.as_deref(), Some("nightly"));
    let keys: Vec<_> = repos.repos_data().map().keys().cloned().collect();
    assert_eq!(keys, vec!["https://a.example/", "https://b.example/", "https://c.example/"]);
    assert_eq!(repos.remove(&a), (true, true));
    let keys: Vec<_> = repos.repos_data().map().keys().cloned().collect();
    assert_eq!(keys, vec!["https://c.example/", "https://b.example/"]);
    assert!(repos.repos_data().get(&a).is_none());
    assert_eq!(repos.remove(&a), (false, true));

    let mut ro = Repos::read_only();
    assert!(!ro.writable());
    assert!(!ro.insert(&a, RepoRecord::default()));
    assert_eq!(ro.file_path(), "/dev/null");
}

#[test]
fn payload_urls_can_be_replaced() {
    let mut p = Payload::WindowsExecutable(WindowsExecutable {
        url: "https://dl/old".into(),
        product_code: "x".into(),
        kind: None,
        args: None,
        uninstall_args: None,
        requires_reboot: RebootFlags { on_install: false, on_update: false, on_uninstall: false },
        size: 1,
        installed_size: 2,
    });
    p.set_url("https://dl/new".into());
    assert_eq!(p.url(), "https://dl/new");
    assert_eq!(p.size(), 1);
}
