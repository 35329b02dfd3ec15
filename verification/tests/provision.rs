use editor_support::clangd::CLspAdapter;
use editor_support::fetch::{
    advance, binary_path, fetch_step, pending_step, start_fetch, status_is_success, FetchAction,
    FetchEvent, FetchState,
};
use editor_support::provision::{
    cached_binary_candidate, get_cached_server_binary, join_path, os_suffix, plain_binary,
    select_version, stale_entries, user_installed_binary, DirectoryEntry, GitHubLspBinaryVersion,
    GithubRelease, GithubReleaseAsset, LanguageServerBinary, ProvisionError, SERVER_NAME,
};

fn asset(name: &str, url: &str) -> GithubReleaseAsset {
    GithubReleaseAsset { name: name.to_string(), browser_download_url: url.to_string() }
}

fn release(tag: &str, assets: Vec<GithubReleaseAsset>) -> GithubRelease {
    GithubRelease { tag_name: tag.to_string(), assets }
}

fn version(name: &str, url: &str) -> GitHubLspBinaryVersion {
    GitHubLspBinaryVersion { name: name.to_string(), url: url.to_string() }
}

fn entry(name: &str, is_dir: bool) -> DirectoryEntry {
    DirectoryEntry { name: name.to_string(), is_dir }
}

fn binary(path: &str) -> LanguageServerBinary {
    LanguageServerBinary { path: path.to_string(), arguments: Vec::new(), env: None }
}

#[test]
fn each_supported_system_has_its_own_suffix() {
    assert_eq!(os_suffix("macos"), Ok("mac"));
    assert_eq!(os_suffix("linux"), Ok("linux"));
    assert_eq!(os_suffix("windows"), Ok("windows"));
    let suffixes = [os_suffix("macos"), os_suffix("linux"), os_suffix("windows")];
    for i in 0..3 {
        for j in 0..3 {
            assert_eq!(suffixes[i] == suffixes[j], i == j);
        }
    }
}

#[test]
fn other_systems_are_not_supported() {
    for os in ["freebsd", "android", "ios", "mac", "Linux", "", "windows ", "macos\n"] {
        assert_eq!(os_suffix(os), Err(ProvisionError::UnsupportedPlatform));
    }
}

#[test]
fn the_asset_of_the_system_is_selected() {
    let latest = release(
        "18.1.3",
        vec![
            asset("clangd-linux-18.1.3.zip", "https://example.test/linux"),
            asset("clangd-mac-18.1.3.zip", "https://example.test/mac"),
            asset("clangd-windows-18.1.3.zip", "https://example.test/windows"),
            asset("clangd_indexing_tools-linux-18.1.3.zip", "https://example.test/tools"),
        ],
    );
    assert_eq!(select_version(&latest, "macos"), Ok(version("18.1.3", "https://example.test/mac")));
    assert_eq!(select_version(&latest, "linux"), Ok(version("18.1.3", "https://example.test/linux")));
    assert_eq!(
        CLspAdapter.fetch_latest_server_version(&latest, "windows"),
        Ok(version("18.1.3", "https://example.test/windows"))
    );
}

#[test]
fn the_first_asset_of_the_name_is_selected() {
    let latest = release(
        "1",
        vec![
            asset("clangd-linux-2.zip", "wrong"),
            asset("clangd-linux-1.zip", "first"),
            asset("clangd-linux-1.zip", "second"),
        ],
    );
    assert_eq!(select_version(&latest, "linux"), Ok(version("1", "first")));
}

#[test]
fn a_release_without_the_asset_gives_asset_not_found() {
    let latest = release("18.1.3", vec![asset("clangd-linux-18.1.3.zip", "l")]);
    assert_eq!(select_version(&latest, "macos"), Err(ProvisionError::AssetNotFound));
    assert_eq!(select_version(&release("1", vec![]), "linux"), Err(ProvisionError::AssetNotFound));
    let other_tag = release("2", vec![asset("clangd-linux-1.zip", "l")]);
    assert_eq!(select_version(&other_tag, "linux"), Err(ProvisionError::AssetNotFound));
    let near = release("1", vec![asset("clangd-linux-1.zip ", "l"), asset("Clangd-linux-1.zip", "l")]);
    assert_eq!(select_version(&near, "linux"), Err(ProvisionError::AssetNotFound));
}

#[test]
fn an_unsupported_system_comes_before_a_missing_asset() {
    assert_eq!(select_version(&release("1", vec![]), "freebsd"), Err(ProvisionError::UnsupportedPlatform));
    let latest = release("1", vec![asset("clangd-freebsd-1.zip", "f")]);
    assert_eq!(
        CLspAdapter.fetch_latest_server_version(&latest, "freebsd"),
        Err(ProvisionError::UnsupportedPlatform)
    );
}

#[test]
fn paths_are_joined_with_one_slash() {
    assert_eq!(join_path("/cache", "clangd_1/bin/clangd"), "/cache/clangd_1/bin/clangd");
    assert_eq!(join_path("/cache/", "clangd_1"), "/cache/clangd_1");
    assert_eq!(join_path("", "clangd_1"), "clangd_1");
    assert_eq!(join_path("/", "x"), "/x");
    assert_eq!(join_path("a", ""), "a/");
    assert_eq!(join_path("caf\u{e9}", "x"), "caf\u{e9}/x");
    assert_eq!(binary_path(&version("18.1.3", "u"), "/cache"), "/cache/clangd_18.1.3/bin/clangd");
    assert_eq!(binary_path(&version("18.1.3", "u"), "/cache/"), "/cache/clangd_18.1.3/bin/clangd");
}

#[test]
fn a_binary_of_the_user_runs_without_arguments() {
    assert_eq!(SERVER_NAME, "clangd");
    assert_eq!(CLspAdapter.name(), "clangd");
    assert_eq!(user_installed_binary(None), None);
    assert_eq!(user_installed_binary(Some("/usr/bin/clangd".to_string())), Some(binary("/usr/bin/clangd")));
    assert_eq!(CLspAdapter.check_if_user_installed(Some("/opt/clangd".to_string())), Some(binary("/opt/clangd")));
    assert_eq!(CLspAdapter.check_if_user_installed(None), None);
    assert_eq!(plain_binary("x".to_string()), binary("x"));
}

#[test]
fn an_empty_or_unreadable_container_has_no_cached_binary() {
    assert_eq!(cached_binary_candidate("/cache", None), None);
    assert_eq!(cached_binary_candidate("/cache", Some(&vec![])), None);
    assert_eq!(get_cached_server_binary(None, false), None);
    assert_eq!(get_cached_server_binary(None, true), None);
    assert_eq!(CLspAdapter.cached_server_binary(None, true), None);
}

#[test]
fn a_container_without_directories_has_no_cached_binary() {
    let listing = vec![entry("clangd.zip", false), entry("notes.txt", false)];
    assert_eq!(cached_binary_candidate("/cache", Some(&listing)), None);
}

#[test]
fn the_last_directory_listed_is_the_candidate() {
    let listing = vec![
        entry("clangd_17", true),
        entry("clangd_18", true),
        entry("download.zip", false),
    ];
    assert_eq!(
        cached_binary_candidate("/cache", Some(&listing)),
        Some("/cache/clangd_18/bin/clangd".to_string())
    );
    let unordered = vec![entry("clangd_18", true), entry("x", false), entry("clangd_17", true)];
    assert_eq!(
        cached_binary_candidate("/cache/", Some(&unordered)),
        Some("/cache/clangd_17/bin/clangd".to_string())
    );
    let single = vec![entry("anything", true)];
    assert_eq!(
        cached_binary_candidate("c", Some(&single)),
        Some("c/anything/bin/clangd".to_string())
    );
}

#[test]
fn a_candidate_without_a_file_is_a_miss() {
    let path = "/cache/clangd_18/bin/clangd".to_string();
    assert_eq!(get_cached_server_binary(Some(path.clone()), false), None);
    assert_eq!(get_cached_server_binary(Some(path.clone()), true), Some(binary(&path)));
    assert_eq!(CLspAdapter.cached_server_binary(Some(path.clone()), true), Some(binary(&path)));
    assert_eq!(CLspAdapter.cached_server_binary(Some(path), false), None);
}

#[test]
fn all_but_the_new_version_is_stale() {
    let entries: Vec<String> =
        ["clangd_17", "clangd_18", "download.zip", "clangd_16"].iter().map(|s| s.to_string()).collect();
    assert_eq!(stale_entries(&entries, "clangd_18"), vec!["clangd_17", "download.zip", "clangd_16"]);
    let remaining: Vec<&String> =
        entries.iter().filter(|e| !stale_entries(&entries, "clangd_18").contains(e)).collect();
    assert_eq!(remaining, vec!["clangd_18"]);
    assert_eq!(stale_entries(&entries, "clangd_19"), entries);
    assert_eq!(stale_entries(&vec!["clangd_18".to_string()], "clangd_18"), Vec::<String>::new());
    assert_eq!(stale_entries(&vec![], "clangd_18"), Vec::<String>::new());
}

fn run(events: &[FetchEvent]) -> (FetchState, Vec<FetchAction>) {
    let v = version("18.1.3", "https://example.test/clangd.zip");
    let (mut state, action) = CLspAdapter.fetch_server_binary(&v, "/cache", None);
    let mut actions = vec![action];
    for event in events {
        let (next, action) = CLspAdapter.fetch_server_binary(&v, "/cache", Some((state, *event)));
        state = next;
        actions.push(action);
    }
    (state, actions)
}

#[test]
fn a_missing_binary_is_downloaded_unpacked_and_the_rest_evicted() {
    let (state, actions) = run(&[
        FetchEvent::BinaryChecked { exists: false },
        FetchEvent::Downloaded { status: 200 },
        FetchEvent::Extracted { ok: true },
        FetchEvent::Evicted,
    ]);
    assert_eq!(state, FetchState::Done);
    assert_eq!(
        actions,
        vec![
            FetchAction::CheckBinary { path: "/cache/clangd_18.1.3/bin/clangd".to_string() },
            FetchAction::Download { url: "https://example.test/clangd.zip".to_string() },
            FetchAction::Extract { into: "/cache".to_string() },
            FetchAction::Evict { container_dir: "/cache".to_string(), keep: "clangd_18.1.3".to_string() },
            FetchAction::Finish(binary("/cache/clangd_18.1.3/bin/clangd")),
        ]
    );
}

#[test]
fn a_binary_on_disk_is_not_downloaded_again() {
    let (state, actions) = run(&[FetchEvent::BinaryChecked { exists: true }]);
    assert_eq!(state, FetchState::Done);
    assert_eq!(
        actions,
        vec![
            FetchAction::CheckBinary { path: "/cache/clangd_18.1.3/bin/clangd".to_string() },
            FetchAction::Finish(binary("/cache/clangd_18.1.3/bin/clangd")),
        ]
    );
    let (state, actions) = run(&[
        FetchEvent::BinaryChecked { exists: true },
        FetchEvent::BinaryChecked { exists: false },
        FetchEvent::Downloaded { status: 200 },
        FetchEvent::Extracted { ok: true },
        FetchEvent::Evicted,
    ]);
    assert_eq!(state, FetchState::Done);
    for action in &actions[1..] {
        assert_eq!(*action, FetchAction::Finish(binary("/cache/clangd_18.1.3/bin/clangd")));
    }
}

#[test]
fn a_download_that_is_refused_fails_with_its_status() {
    for status in [404u16, 500, 199, 300, 301, 0, 65535] {
        let (state, actions) =
            run(&[FetchEvent::BinaryChecked { exists: false }, FetchEvent::Downloaded { status }]);
        assert_eq!(state, FetchState::Failed(ProvisionError::DownloadFailed(status)));
        assert_eq!(actions[2], FetchAction::Fail(ProvisionError::DownloadFailed(status)));
    }
    for status in [200u16, 201, 204, 299] {
        assert!(status_is_success(status));
        assert_eq!(advance(FetchState::Downloading, FetchEvent::Downloaded { status }), FetchState::Extracting);
    }
    assert!(!status_is_success(199));
    assert!(!status_is_success(300));
}

#[test]
fn an_archive_that_cannot_be_unpacked_fails_without_eviction() {
    let (state, actions) = run(&[
        FetchEvent::BinaryChecked { exists: false },
        FetchEvent::Downloaded { status: 200 },
        FetchEvent::Extracted { ok: false },
        FetchEvent::Evicted,
    ]);
    assert_eq!(state, FetchState::Failed(ProvisionError::ExtractionFailed));
    assert_eq!(actions[3], FetchAction::Fail(ProvisionError::ExtractionFailed));
    assert_eq!(actions[4], FetchAction::Fail(ProvisionError::ExtractionFailed));
    for action in &actions {
        assert!(!matches!(action, FetchAction::Evict { .. }));
    }
}

#[test]
fn an_event_that_answers_another_step_changes_nothing() {
    let v = version("1", "u");
    let states = [
        FetchState::Checking,
        FetchState::Downloading,
        FetchState::Extracting,
        FetchState::Evicting,
        FetchState::Done,
        FetchState::Failed(ProvisionError::ExtractionFailed),
    ];
    let events = [
        FetchEvent::BinaryChecked { exists: true },
        FetchEvent::BinaryChecked { exists: false },
        FetchEvent::Downloaded { status: 200 },
        FetchEvent::Downloaded { status: 404 },
        FetchEvent::Extracted { ok: true },
        FetchEvent::Extracted { ok: false },
        FetchEvent::Evicted,
    ];
    for (s, state) in states.iter().enumerate() {
        for (e, event) in events.iter().enumerate() {
            let answers = match s {
                0 => e <= 1,
                1 => e == 2 || e == 3,
                2 => e == 4 || e == 5,
                3 => e == 6,
                _ => false,
            };
            let (next, action) = fetch_step(&v, "c", *state, *event);
            assert_eq!(next, advance(*state, *event));
            assert_eq!(action, pending_step(&v, "c", next));
            if !answers {
                assert_eq!(next, *state);
            } else {
                assert_ne!(next, *state);
            }
        }
    }
    assert_eq!(start_fetch(&v, "c"), (FetchState::Checking, FetchAction::CheckBinary { path: "c/clangd_1/bin/clangd".to_string() }));
}
