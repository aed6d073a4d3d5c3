use wrun::{
    archive_format, install_action, replace_all_exec, strip_outer, ArchiveFormat, DownloadManager,
    DownloadOverride, DownloadOverrideInfo, Install, InstallAction, InstallError, SystemInfo, Tool,
    VecMap,
};

fn host() -> SystemInfo {
    SystemInfo {
        triple: "x86_64-unknown-linux-gnu".to_owned(),
        arch: "x86_64".to_owned(),
        os: "linux".to_owned(),
    }
}

fn info(triple: Option<&str>, os: Option<&str>, arch: Option<&str>, ext: Option<&str>) -> DownloadOverrideInfo {
    DownloadOverrideInfo {
        triple: triple.map(|s| s.to_owned()),
        os: os.map(|s| s.to_owned()),
        arch: arch.map(|s| s.to_owned()),
        ext: ext.map(|s| s.to_owned()),
    }
}

fn download(url: &str, version: &str, ext: &str, overrides: Vec<DownloadOverride>) -> Tool {
    Tool {
        deps: Vec::new(),
        install: Install::Download {
            version: version.to_owned(),
            url: url.to_owned(),
            ext: ext.to_owned(),
            overrides,
        },
    }
}

#[test]
fn url_template_without_overrides() {
    let mut tools = VecMap::new();
    tools.insert(
        "just".to_owned(),
        download("https://example.com/v#version#/#triple#.#ext#", "1.0", "tar.gz", vec![]),
    );
    let manager = DownloadManager::new("/state".to_owned(), &tools);
    let jobs = manager.jobs(&host());
    assert_eq!(jobs.len(), 1);
    assert_eq!(jobs[0].url, "https://example.com/v1.0/x86_64-unknown-linux-gnu.tar.gz");
    assert_eq!(jobs[0].install_dir, "/state/tools/just/1.0");
    assert_eq!(jobs[0].archive, "/state/downloads/just/1.0.tar.gz");
    assert_eq!(jobs[0].ext, "tar.gz");
}

#[test]
fn override_matches_on_any_field_and_folds_in_order() {
    let overrides = vec![
        DownloadOverride {
            condition: info(None, Some("linux"), Some("aarch64"), None),
            set: info(None, Some("musl-linux"), None, Some("zip")),
        },
        DownloadOverride {
            condition: info(None, Some("linux"), None, None),
            set: info(Some("never"), None, None, None),
        },
        DownloadOverride {
            condition: info(None, Some("musl-linux"), None, None),
            set: info(None, None, Some("amd64"), None),
        },
    ];
    let mut tools = VecMap::new();
    tools.insert("t".to_owned(), download("#os#-#arch#-#triple#.#ext#", "2", "tar.gz", overrides));
    let manager = DownloadManager::new("s".to_owned(), &tools);
    let jobs = manager.jobs(&host());
    assert_eq!(jobs[0].url, "musl-linux-amd64-x86_64-unknown-linux-gnu.zip");
    assert_eq!(jobs[0].archive, "s/downloads/t/2.zip");
}

#[test]
fn system_tools_have_no_job() {
    let mut tools = VecMap::new();
    tools.insert(
        "sys".to_owned(),
        Tool {
            deps: Vec::new(),
            install: Install::System {
                local_path: Some("/usr/bin/sys".to_owned()),
                install_action: None,
            },
        },
    );
    tools.insert("dl".to_owned(), download("u", "1", "tar.gz", vec![]));
    let manager = DownloadManager::new("s".to_owned(), &tools);
    let jobs = manager.jobs(&host());
    assert_eq!(jobs.len(), 1);
    assert_eq!(jobs[0].name, "dl");
}

#[test]
fn condition_and_apply() {
    let mut sys = host();
    assert!(info(Some("nope"), None, Some("x86_64"), None).matches(&sys));
    assert!(!info(Some("nope"), Some("windows"), None, None).matches(&sys));
    assert!(!info(None, None, None, Some("zip")).matches(&sys));
    sys.apply(&info(None, Some("macos"), None, Some("zip")));
    assert_eq!(sys.os, "macos");
    assert_eq!(sys.arch, "x86_64");
}

#[test]
fn replace_is_left_to_right_without_overlap() {
    assert_eq!(replace_all_exec("aaa", "aa", "b"), "ba");
    assert_eq!(replace_all_exec("#x##x#", "#x#", "1"), "11");
    assert_eq!(replace_all_exec("abc", "", "z"), "abc");
    assert_eq!(replace_all_exec("ab", "abc", "z"), "ab");
}

#[test]
fn only_tar_gz_unpacks() {
    assert_eq!(archive_format("tar.gz"), Ok(ArchiveFormat::TarGz));
    assert_eq!(
        archive_format("zip"),
        Err(InstallError::UnsupportedFormat("zip".to_owned()))
    );
}

#[test]
fn single_directory_is_stripped() {
    assert!(strip_outer(&[true]));
    assert!(!strip_outer(&[false]));
    assert!(!strip_outer(&[true, true]));
    assert!(!strip_outer(&[]));
}

#[test]
fn second_run_fetches_nothing() {
    assert_eq!(install_action(false, false), InstallAction::FetchAndUnpack);
    assert_eq!(install_action(false, true), InstallAction::Unpack);
    assert_eq!(install_action(true, true), InstallAction::Skip);
    assert_eq!(install_action(true, false), InstallAction::Skip);
}
