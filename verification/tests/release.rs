use vvitools_core::release::{
    is_newer_version, normalize_version, update_info_from_release, version_parts, GitHubRelease,
};

fn release(tag: &str, draft: bool, prerelease: bool) -> GitHubRelease {
    GitHubRelease {
        tag_name: tag.into(),
        html_url: "https://github.com/Valiant-Cat/VviTools/releases/tag/x".into(),
        draft,
        prerelease,
    }
}

#[test]
fn version_parts_read_every_digit_run() {
    assert_eq!(version_parts("1.2.3"), vec![1, 2, 3]);
    assert_eq!(version_parts("v10.0.1-beta.2"), vec![10, 0, 1, 2]);
    assert_eq!(version_parts("no digits"), Vec::<u64>::new());
    assert_eq!(version_parts(""), Vec::<u64>::new());
    assert_eq!(version_parts("99999999999999999999999.1"), vec![0, 1]);
}

#[test]
fn newer_versions_compare_part_by_part() {
    assert!(is_newer_version("1.2.1", "1.2.0"));
    assert!(is_newer_version("1.10.0", "1.9.9"));
    assert!(is_newer_version("2", "1.99"));
    assert!(is_newer_version("1.0.1", "1"));
    assert!(!is_newer_version("1.2.0", "1.2.0"));
    assert!(!is_newer_version("1.2.0", "1.2"));
    assert!(!is_newer_version("1.2", "1.2.0"));
    assert!(!is_newer_version("1.1.9", "1.2.0"));
}

#[test]
fn tags_are_trimmed_and_lose_leading_v() {
    assert_eq!(normalize_version(" v1.2.0 "), "1.2.0");
    assert_eq!(normalize_version("vv2.0"), "2.0");
    assert_eq!(normalize_version("1.0"), "1.0");
    assert_eq!(normalize_version("version1"), "ersion1");
}

#[test]
fn update_check_without_release_reports_current_version() {
    let info = update_info_from_release("0.3.0", None).unwrap();
    assert_eq!(info.current_version, "0.3.0");
    assert_eq!(info.latest_version, "0.3.0");
    assert!(!info.has_update);
    assert_eq!(
        info.release_url,
        "https://github.com/Valiant-Cat/VviTools/releases"
    );
    assert_eq!(info.message, "暂无发布版本");
}

#[test]
fn update_check_refuses_drafts_and_prereleases() {
    assert_eq!(
        update_info_from_release("0.3.0", Some(release("v0.4.0", true, false))),
        Err("暂无稳定更新版本".to_string())
    );
    assert_eq!(
        update_info_from_release("0.3.0", Some(release("v0.4.0", false, true))),
        Err("暂无稳定更新版本".to_string())
    );
}

#[test]
fn update_check_compares_with_latest_release() {
    let info = update_info_from_release("0.3.0", Some(release("v0.4.0", false, false))).unwrap();
    assert!(info.has_update);
    assert_eq!(info.latest_version, "0.4.0");
    assert_eq!(info.message, "发现新版本 0.4.0");
    assert_eq!(
        info.release_url,
        "https://github.com/Valiant-Cat/VviTools/releases/tag/x"
    );
    let same = update_info_from_release("0.4.0", Some(release("v0.4.0", false, false))).unwrap();
    assert!(!same.has_update);
    assert_eq!(same.message, "已是最新版本");
    let older = update_info_from_release("0.5.0", Some(release("v0.4.0", false, false))).unwrap();
    assert!(!older.has_update);
    assert_eq!(older.latest_version, "0.4.0");
}
