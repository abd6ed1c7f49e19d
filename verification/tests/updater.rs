use vvitools_core::updater::{
    installing_progress, progress_step, update_error, update_info, FoundUpdate, UpdateFailure,
    UpdateRefusal, UpdateState,
};

#[test]
fn missing_feed_is_not_reported_as_latest() {
    assert!(update_error(&UpdateFailure::ReleaseNotFound).contains("尚未就绪"));
}

#[test]
fn missing_platform_is_actionable() {
    assert!(update_error(&UpdateFailure::TargetsNotFound(vec![])).contains("系统架构"));
}

#[test]
fn state_rejects_parallel_operations_and_starts_without_install() {
    let mut state: UpdateState<()> = UpdateState::new();
    assert!(state.begin_check(true).is_ok());
    assert!(!state.installed);
    assert!(state.pending.is_none());
    assert_eq!(state.begin_check(true), Err(UpdateRefusal::Busy));
    state.finish_check(None);
    assert!(state.begin_check(true).is_ok());
}

#[test]
fn update_failures_have_messages() {
    assert!(update_error(&UpdateFailure::TargetNotFound("x".into())).contains("系统架构"));
    assert!(update_error(&UpdateFailure::Minisign).contains("签名"));
    assert!(update_error(&UpdateFailure::Base64).contains("签名"));
    assert!(update_error(&UpdateFailure::SignatureUtf8).contains("签名"));
    assert!(update_error(&UpdateFailure::AuthenticationFailed).contains("授权"));
    assert_eq!(update_error(&UpdateFailure::Other("boom".into())), "更新失败：boom");
}

#[test]
fn install_and_restart_follow_the_protocol() {
    let mut state: UpdateState<u32> = UpdateState::new();
    assert_eq!(state.begin_install(true), Err(UpdateRefusal::NothingToInstall));
    assert_eq!(state.begin_restart(true), Err(UpdateRefusal::NotInstalled));
    assert_eq!(state.begin_check(false), Err(UpdateRefusal::NotMainWindow));
    state.begin_check(true).unwrap();
    assert_eq!(state.begin_install(true), Err(UpdateRefusal::Busy));
    assert_eq!(state.begin_restart(true), Err(UpdateRefusal::Busy));
    state.finish_check(Some(7));
    assert_eq!(state.pending_update(), Some(&7));
    state.begin_install(true).unwrap();
    state.finish_install(false);
    assert_eq!(state.pending, Some(7));
    state.begin_install(true).unwrap();
    state.finish_install(true);
    assert!(state.installed && state.pending.is_none());
    assert_eq!(state.begin_check(true), Err(UpdateRefusal::AlreadyInstalled));
    assert_eq!(state.begin_install(true), Err(UpdateRefusal::AlreadyInstalled));
    assert!(state.begin_restart(true).is_ok());
    assert_eq!(state.begin_restart(false), Err(UpdateRefusal::NotMainWindow));
    assert_eq!(UpdateRefusal::Busy.message(), "更新操作正在进行中");
    assert_eq!(UpdateRefusal::NotInstalled.message(), "尚未安装更新");
}

#[test]
fn update_info_reports_found_release() {
    let found = update_info(
        "1.0.0".into(),
        Some(FoundUpdate { version: "1.1.0".into(), notes: Some("fixes".into()) }),
    );
    assert!(found.has_update);
    assert_eq!(found.latest_version, "1.1.0");
    assert_eq!(found.notes, "fixes");
    let none = update_info("1.0.0".into(), None);
    assert!(!none.has_update);
    assert_eq!(none.latest_version, "1.0.0");
    assert_eq!(none.notes, "");
}

#[test]
fn progress_is_throttled_but_reports_completion() {
    let (n, report) = progress_step(0, 10, Some(100), 1_000);
    assert_eq!(n, 10);
    assert!(report.is_none());
    let (n, report) = progress_step(n, 10, Some(100), 200_000_000);
    assert_eq!(n, 20);
    assert_eq!(report.unwrap().phase, "downloading");
    let (n, report) = progress_step(90, 10, Some(100), 0);
    assert_eq!(n, 100);
    assert_eq!(report.unwrap().downloaded, 100);
    let (n, _) = progress_step(u64::MAX - 1, 10, None, 0);
    assert_eq!(n, u64::MAX);
    let done = installing_progress(5);
    assert_eq!(done.phase, "installing");
    assert_eq!(done.total, Some(5));
}
