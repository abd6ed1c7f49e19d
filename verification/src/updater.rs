use vstd::prelude::*;

use crate::text::{concat, owned};

verus! {

/// The in-app update protocol: at most one check, install or restart at a
/// time, only from the main window; an install needs an update that a
/// check found, a restart needs an installed update, and once an update is
/// installed only a restart is left. `U` is the update a check found.
pub struct UpdateState<U> {
    pub pending: Option<U>,
    pub installed: bool,
    pub busy: bool,
}

/// Why an update operation is refused.
#[derive(Clone, Copy, Debug, PartialEq, Eq, Structural)]
pub enum UpdateRefusal {
    NotMainWindow,
    Busy,
    AlreadyInstalled,
    NothingToInstall,
    NotInstalled,
}

/// The text shown for a refused update operation.
pub open spec fn refusal_text(r: UpdateRefusal) -> Seq<char> {
    match r {
        UpdateRefusal::NotMainWindow => "请从主面板设置页更新应用"@,
        UpdateRefusal::Busy => "更新操作正在进行中"@,
        UpdateRefusal::AlreadyInstalled => "更新已安装，请重启应用"@,
        UpdateRefusal::NothingToInstall => "请先检查更新"@,
        UpdateRefusal::NotInstalled => "尚未安装更新"@,
    }
}

impl UpdateRefusal {
    /// The text shown for this refusal.
    pub fn message(&self) -> (r: String)
        ensures
            r@ == refusal_text(*self),
    {
        match self {
            UpdateRefusal::NotMainWindow => owned("请从主面板设置页更新应用"),
            UpdateRefusal::Busy => owned("更新操作正在进行中"),
            UpdateRefusal::AlreadyInstalled => owned("更新已安装，请重启应用"),
            UpdateRefusal::NothingToInstall => owned("请先检查更新"),
            UpdateRefusal::NotInstalled => owned("尚未安装更新"),
        }
    }
}

/// Whether a check may start, and why not.
pub open spec fn check_refusal<U>(s: UpdateState<U>, from_main: bool) -> Option<UpdateRefusal> {
    if !from_main {
        Some(UpdateRefusal::NotMainWindow)
    } else if s.busy {
        Some(UpdateRefusal::Busy)
    } else if s.installed {
        Some(UpdateRefusal::AlreadyInstalled)
    } else {
        None
    }
}

/// Whether an install may start, and why not.
pub open spec fn install_refusal<U>(s: UpdateState<U>, from_main: bool) -> Option<UpdateRefusal> {
    if !from_main {
        Some(UpdateRefusal::NotMainWindow)
    } else if s.busy {
        Some(UpdateRefusal::Busy)
    } else if s.installed {
        Some(UpdateRefusal::AlreadyInstalled)
    } else if s.pending is None {
        Some(UpdateRefusal::NothingToInstall)
    } else {
        None
    }
}

/// Whether a restart may happen, and why not.
pub open spec fn restart_refusal<U>(s: UpdateState<U>, from_main: bool) -> Option<UpdateRefusal> {
    if !from_main {
        Some(UpdateRefusal::NotMainWindow)
    } else if s.busy {
        Some(UpdateRefusal::Busy)
    } else if !s.installed {
        Some(UpdateRefusal::NotInstalled)
    } else {
        None
    }
}

/// The state while a check runs: busy, any earlier finding dropped.
pub open spec fn checking<U>(s: UpdateState<U>) -> UpdateState<U> {
    UpdateState { pending: None, busy: true, ..s }
}

/// The state after a check: idle, holding what it found.
pub open spec fn checked<U>(s: UpdateState<U>, found: Option<U>) -> UpdateState<U> {
    UpdateState { pending: found, busy: false, ..s }
}

/// The state while an install runs.
pub open spec fn installing<U>(s: UpdateState<U>) -> UpdateState<U> {
    UpdateState { busy: true, ..s }
}

/// The state after an install: idle; when it succeeded, installed with
/// nothing pending; when it failed, as before.
pub open spec fn install_done<U>(s: UpdateState<U>, succeeded: bool) -> UpdateState<U> {
    if succeeded {
        UpdateState { pending: None, installed: true, busy: false }
    } else {
        UpdateState { busy: false, ..s }
    }
}

impl<U> UpdateState<U> {
    /// A fresh state: nothing found, nothing installed, idle.
    pub fn new() -> (r: Self)
        ensures
            r.pending is None,
            !r.installed,
            !r.busy,
    {
        UpdateState { pending: None, installed: false, busy: false }
    }

    /// Starts a check for updates, unless refused.
    pub fn begin_check(&mut self, from_main: bool) -> (r: Result<(), UpdateRefusal>)
        ensures
            match check_refusal(*old(self), from_main) {
                Some(why) => r == Err::<(), UpdateRefusal>(why) && *final(self) == *old(self),
                None => r is Ok && *final(self) == checking(*old(self)),
            },
    {
        if !from_main {
            return Err(UpdateRefusal::NotMainWindow);
        }
        if self.busy {
            return Err(UpdateRefusal::Busy);
        }
        if self.installed {
            return Err(UpdateRefusal::AlreadyInstalled);
        }
        self.pending = None;
        self.busy = true;
        Ok(())
    }

    /// Ends a check with what it found (`None` also when it failed).
    pub fn finish_check(&mut self, found: Option<U>)
        requires
            old(self).busy,
        ensures
            *final(self) == checked(*old(self), found),
    {
        self.pending = found;
        self.busy = false;
    }

    /// Starts installing the update a check found, unless refused.
    pub fn begin_install(&mut self, from_main: bool) -> (r: Result<(), UpdateRefusal>)
        ensures
            match install_refusal(*old(self), from_main) {
                Some(why) => r == Err::<(), UpdateRefusal>(why) && *final(self) == *old(self),
                None => r is Ok && *final(self) == installing(*old(self)),
            },
    {
        if !from_main {
            return Err(UpdateRefusal::NotMainWindow);
        }
        if self.busy {
            return Err(UpdateRefusal::Busy);
        }
        if self.installed {
            return Err(UpdateRefusal::AlreadyInstalled);
        }
        if self.pending.is_none() {
            return Err(UpdateRefusal::NothingToInstall);
        }
        self.busy = true;
        Ok(())
    }

    /// The update that a check found, if any.
    pub fn pending_update(&self) -> (r: Option<&U>)
        ensures
            match self.pending {
                Some(u) => r == Some(&u),
                None => r is None,
            },
    {
        match &self.pending {
            Some(u) => Some(u),
            None => None,
        }
    }

    /// Ends an install.
    pub fn finish_install(&mut self, succeeded: bool)
        requires
            old(self).busy,
        ensures
            *final(self) == install_done(*old(self), succeeded),
    {
        if succeeded {
            self.installed = true;
            self.pending = None;
        }
        self.busy = false;
    }

    /// Allows the restart that completes an installed update, unless
    /// refused; the state is left as it is.
    pub fn begin_restart(&self, from_main: bool) -> (r: Result<(), UpdateRefusal>)
        ensures
            r == match restart_refusal(*self, from_main) {
                Some(why) => Err(why),
                None => Ok(()),
            },
    {
        if !from_main {
            return Err(UpdateRefusal::NotMainWindow);
        }
        if self.busy {
            return Err(UpdateRefusal::Busy);
        }
        if !self.installed {
            return Err(UpdateRefusal::NotInstalled);
        }
        Ok(())
    }
}

/// A window may run update operations only when it is the main window.
pub fn is_main_window(label: &str) -> (r: bool)
    ensures
        r == (label@ == "main"@),
{
    crate::text::same(label, "main")
}

/// While an update operation runs, any other check, install or restart
/// asked from the main window is refused as busy.
pub proof fn law_parallel_operations_refused<U>(s: UpdateState<U>)
    requires
        s.busy,
    ensures
        check_refusal(s, true) == Some(UpdateRefusal::Busy),
        install_refusal(s, true) == Some(UpdateRefusal::Busy),
        restart_refusal(s, true) == Some(UpdateRefusal::Busy),
{
}

/// Only the main window may check, install or restart.
pub proof fn law_main_window_only<U>(s: UpdateState<U>)
    ensures
        check_refusal(s, false) == Some(UpdateRefusal::NotMainWindow),
        install_refusal(s, false) == Some(UpdateRefusal::NotMainWindow),
        restart_refusal(s, false) == Some(UpdateRefusal::NotMainWindow),
{
}

/// A restart is allowed only once an update is installed, and an install
/// only when a check has found an update.
pub proof fn law_restart_and_install_preconditions<U>(s: UpdateState<U>, from_main: bool)
    ensures
        restart_refusal(s, from_main) is None ==> s.installed,
        install_refusal(s, from_main) is None ==> s.pending is Some && !s.installed,
{
}

/// A fresh state allows a check, refuses an install (nothing found) and a
/// restart (nothing installed).
pub proof fn law_fresh_state<U>(s: UpdateState<U>)
    requires
        s.pending is None,
        !s.installed,
        !s.busy,
    ensures
        check_refusal(s, true) is None,
        install_refusal(s, true) == Some(UpdateRefusal::NothingToInstall),
        restart_refusal(s, true) == Some(UpdateRefusal::NotInstalled),
{
}

/// An update that a check found can be installed; once the install
/// succeeds, further checks and installs are refused and only the restart
/// is left; a failed install keeps the update for another try.
pub proof fn law_check_install_restart<U>(s: UpdateState<U>, u: U)
    requires
        check_refusal(s, true) is None,
    ensures
        install_refusal(checked(checking(s), Some(u)), true) is None,
        check_refusal(install_done(installing(checked(checking(s), Some(u))), true), true)
            == Some(UpdateRefusal::AlreadyInstalled),
        install_refusal(install_done(installing(checked(checking(s), Some(u))), true), true)
            == Some(UpdateRefusal::AlreadyInstalled),
        restart_refusal(install_done(installing(checked(checking(s), Some(u))), true), true) is None,
        install_done(installing(checked(checking(s), Some(u))), false) == checked(
            checking(s),
            Some(u),
        ),
{
}

/// Why an update could not be found, downloaded or installed, as the
/// updater reports it.
#[derive(Clone, Debug, PartialEq, Eq)]
pub enum UpdateFailure {
    ReleaseNotFound,
    TargetNotFound(String),
    TargetsNotFound(Vec<String>),
    Minisign,
    Base64,
    SignatureUtf8,
    AuthenticationFailed,
    Other(String),
}

/// The text shown for an update failure: a missing release feed is not
/// reported as "up to date", a missing platform asks for a later release,
/// signature problems block the install.
pub open spec fn failure_text(f: UpdateFailure) -> Seq<char> {
    match f {
        UpdateFailure::ReleaseNotFound => "更新源尚未就绪，请稍后重试或查看发布页"@,
        UpdateFailure::TargetNotFound(_) => "此版本尚未提供适用于当前系统架构的更新包"@,
        UpdateFailure::TargetsNotFound(_) => "此版本尚未提供适用于当前系统架构的更新包"@,
        UpdateFailure::Minisign => "更新包签名校验失败，已阻止安装，请重新检查更新"@,
        UpdateFailure::Base64 => "更新包签名校验失败，已阻止安装，请重新检查更新"@,
        UpdateFailure::SignatureUtf8 => "更新包签名校验失败，已阻止安装，请重新检查更新"@,
        UpdateFailure::AuthenticationFailed => "安装授权已取消或失败，可重试安装"@,
        UpdateFailure::Other(text) => "更新失败："@ + text@,
    }
}

/// The text shown for an update failure.
pub fn update_error(failure: &UpdateFailure) -> (r: String)
    ensures
        r@ == failure_text(*failure),
{
    match failure {
        UpdateFailure::ReleaseNotFound => owned("更新源尚未就绪，请稍后重试或查看发布页"),
        UpdateFailure::TargetNotFound(_) => owned("此版本尚未提供适用于当前系统架构的更新包"),
        UpdateFailure::TargetsNotFound(_) => owned("此版本尚未提供适用于当前系统架构的更新包"),
        UpdateFailure::Minisign => owned("更新包签名校验失败，已阻止安装，请重新检查更新"),
        UpdateFailure::Base64 => owned("更新包签名校验失败，已阻止安装，请重新检查更新"),
        UpdateFailure::SignatureUtf8 => owned("更新包签名校验失败，已阻止安装，请重新检查更新"),
        UpdateFailure::AuthenticationFailed => owned("安装授权已取消或失败，可重试安装"),
        UpdateFailure::Other(text) => concat("更新失败：", text.as_str()),
    }
}

/// The outcome of an update check, as the settings page shows it.
#[derive(Clone, Debug, PartialEq, Eq)]
pub struct UpdateInfo {
    pub current_version: String,
    pub latest_version: String,
    pub has_update: bool,
    pub notes: String,
}

/// A release that a check found: its version and release notes.
#[derive(Clone, Debug, PartialEq, Eq)]
pub struct FoundUpdate {
    pub version: String,
    pub notes: Option<String>,
}

/// The outcome of a check: with an update found, its version and notes
/// (empty when it has none); without, the running version as the latest.
pub fn update_info(current_version: String, found: Option<FoundUpdate>) -> (r: UpdateInfo)
    ensures
        r.current_version == current_version,
        r.has_update == found is Some,
        match found {
            Some(f) => r.latest_version == f.version && match f.notes {
                Some(n) => r.notes == n,
                None => r.notes@.len() == 0,
            },
            None => r.latest_version == current_version && r.notes@.len() == 0,
        },
{
    match found {
        Some(f) => UpdateInfo {
            current_version,
            latest_version: f.version,
            has_update: true,
            notes: match f.notes {
                Some(n) => n,
                None => String::new(),
            },
        },
        None => UpdateInfo {
            latest_version: current_version.clone(),
            current_version,
            has_update: false,
            notes: String::new(),
        },
    }
}

/// Download progress as the settings page receives it.
#[derive(Clone, Debug, PartialEq, Eq)]
pub struct UpdateProgress {
    pub phase: String,
    pub downloaded: u64,
    pub total: Option<u64>,
}

/// The least time between two progress reports during a download, in
/// nanoseconds.
pub const PROGRESS_INTERVAL_NANOS: u128 = 100_000_000;

/// One downloaded chunk: the new byte count (saturating) and the progress
/// report to send, if any: one is sent when 100 ms have passed since the
/// last, and when the download is complete.
pub fn progress_step(downloaded: u64, chunk: usize, total: Option<u64>, elapsed_nanos: u128) -> (r: (
    u64,
    Option<UpdateProgress>,
))
    ensures
        r.0 == if downloaded + chunk > u64::MAX {
            u64::MAX as int
        } else {
            downloaded + chunk
        },
        (elapsed_nanos >= PROGRESS_INTERVAL_NANOS || total == Some(r.0)) ==> (r.1 matches Some(p)
            && p.phase@ == "downloading"@ && p.downloaded == r.0 && p.total == total),
        !(elapsed_nanos >= PROGRESS_INTERVAL_NANOS || total == Some(r.0)) ==> r.1 is None,
{
    let add: u64 = if chunk as u128 > u64::MAX as u128 {
        u64::MAX
    } else {
        chunk as u64
    };
    let now: u64 = if downloaded > u64::MAX - add {
        u64::MAX
    } else {
        downloaded + add
    };
    let complete = match total {
        Some(t) => t == now,
        None => false,
    };
    if elapsed_nanos >= PROGRESS_INTERVAL_NANOS || complete {
        (now, Some(UpdateProgress { phase: owned("downloading"), downloaded: now, total }))
    } else {
        (now, None)
    }
}

/// The report sent when the downloaded package starts installing.
pub fn installing_progress(size: usize) -> (r: UpdateProgress)
    requires
        size <= u64::MAX,
    ensures
        r.phase@ == "installing"@,
        r.downloaded == size,
        r.total == Some(size as u64),
{
    UpdateProgress { phase: owned("installing"), downloaded: size as u64, total: Some(size as u64) }
}

} // verus!
