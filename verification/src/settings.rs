use vstd::prelude::*;

use crate::text::{chars_of, owned, same, trim, trimmed};

verus! {

/// The application settings kept on disk. `status_bar_mode` is the older
/// spelling of the dock setting, inverted.
#[derive(Clone, Copy, Debug, PartialEq, Eq, Structural)]
pub struct AppSettings {
    pub dock_visible: Option<bool>,
    pub status_bar_mode: Option<bool>,
}

/// The dock icon is hidden unless the user shows it.
pub fn default_dock_visible() -> (r: bool)
    ensures
        !r,
{
    false
}

/// Whether the dock icon shows: the dock setting when there is one, else
/// the opposite of the older status-bar setting, else hidden.
pub open spec fn dock_shown(s: AppSettings) -> bool {
    match s.dock_visible {
        Some(v) => v,
        None => match s.status_bar_mode {
            Some(m) => !m,
            None => false,
        },
    }
}

impl AppSettings {
    /// Settings with nothing chosen.
    pub fn new() -> (r: Self)
        ensures
            r.dock_visible is None,
            r.status_bar_mode is None,
    {
        AppSettings { dock_visible: None, status_bar_mode: None }
    }

    /// Whether the dock icon shows.
    pub fn dock_visible(&self) -> (r: bool)
        ensures
            r == dock_shown(*self),
    {
        match self.dock_visible {
            Some(v) => v,
            None => match self.status_bar_mode {
                Some(m) => !m,
                None => default_dock_visible(),
            },
        }
    }

    /// The settings with the dock icon shown or hidden; the older setting
    /// is dropped.
    pub fn with_dock_visible(&self, enabled: bool) -> (r: Self)
        ensures
            r.dock_visible == Some(enabled),
            r.status_bar_mode is None,
            dock_shown(r) == enabled,
    {
        AppSettings { dock_visible: Some(enabled), status_bar_mode: None }
    }
}

/// Whether the dock icon shows, given the settings read from disk (`None`
/// when they could not be read): unreadable settings hide it.
pub fn load_dock_visible_setting(loaded: Option<AppSettings>) -> (r: bool)
    ensures
        r == match loaded {
            Some(s) => dock_shown(s),
            None => false,
        },
{
    match loaded {
        Some(s) => s.dock_visible(),
        None => default_dock_visible(),
    }
}

/// The request to show or hide the dock icon.
#[derive(Clone, Copy, Debug, PartialEq, Eq, Structural)]
pub struct DockVisibilityRequest {
    pub enabled: bool,
}

/// The request to turn starting at login on or off.
#[derive(Clone, Copy, Debug, PartialEq, Eq, Structural)]
pub struct AutostartRequest {
    pub enabled: bool,
}

/// The bundle id of this application, which is never remembered as the
/// application to paste into.
pub open spec fn app_bundle_id() -> Seq<char> {
    "dev.vvicat.vvitools"@
}

/// An ASCII letter or digit, or one of `.`, `-`, `_`.
pub open spec fn is_bundle_id_char(c: char) -> bool {
    ('a' <= c && c <= 'z') || ('A' <= c && c <= 'Z') || ('0' <= c && c <= '9') || c == '.' || c
        == '-' || c == '_'
}

/// A bundle id that is safe to put into a script: non-empty, made of ASCII
/// letters, digits, `.`, `-` and `_`.
pub open spec fn is_safe_bundle(s: Seq<char>) -> bool {
    s.len() > 0 && forall|i: int| 0 <= i < s.len() ==> is_bundle_id_char(#[trigger] s[i])
}

/// Whether a text may be used as a bundle id in a script.
pub fn is_safe_bundle_id(value: &str) -> (r: bool)
    ensures
        r == is_safe_bundle(value@),
{
    let cs = chars_of(value);
    if cs.len() == 0 {
        return false;
    }
    let mut i: usize = 0;
    while i < cs.len()
        invariant
            cs@ == value@,
            i <= cs.len(),
            forall|k: int| 0 <= k < i ==> is_bundle_id_char(#[trigger] value@[k]),
        decreases cs.len() - i,
    {
        let c = cs[i];
        let ok = ('a' <= c && c <= 'z') || ('A' <= c && c <= 'Z') || ('0' <= c && c <= '9') || c
            == '.' || c == '-' || c == '_';
        if !ok {
            return false;
        }
        i = i + 1;
    }
    true
}

/// The bundle id that a query for the frontmost application printed: its
/// output, trimmed, when the query succeeded and the id is safe.
pub fn bundle_id_from_output(succeeded: bool, stdout: &str) -> (r: Option<String>)
    ensures
        r matches Some(id) ==> succeeded && id@ == trimmed(stdout@) && is_safe_bundle(id@),
        r is None ==> !succeeded || !is_safe_bundle(trimmed(stdout@)),
{
    if !succeeded {
        return None;
    }
    let id = trim(stdout);
    if is_safe_bundle_id(id.as_str()) {
        Some(id)
    } else {
        None
    }
}

/// Remembers the frontmost application, to paste into later, unless it is
/// this application.
pub fn remember_frontmost_app(previous: &mut Option<String>, frontmost: Option<String>)
    ensures
        match frontmost {
            Some(id) => if id@ != app_bundle_id() {
                *final(previous) == Some(id)
            } else {
                *final(previous) == *old(previous)
            },
            None => *final(previous) == *old(previous),
        },
{
    if let Some(id) = frontmost {
        if !same(id.as_str(), "dev.vvicat.vvitools") {
            *previous = Some(id);
        }
    }
}

/// The script that pastes into the application the user came from:
/// activate it (when known), wait briefly, then press Command-V.
pub open spec fn paste_script_text(bundle: Option<Seq<char>>) -> Seq<char> {
    let keystroke = "tell application \"System Events\" to keystroke \"v\" using command down"@;
    match bundle {
        Some(id) => "tell application id \""@ + id + "\" to activate\n"@ + "delay 0.08\n"@
            + keystroke,
        None => keystroke,
    }
}

/// The script that pastes into the application the user came from.
pub fn paste_script(bundle: &Option<String>) -> (r: String)
    ensures
        r@ == paste_script_text(
            match bundle {
                Some(id) => Some(id@),
                None => None,
            },
        ),
{
    let mut script = String::new();
    if let Some(id) = bundle {
        script.append("tell application id \"");
        script.append(id.as_str());
        script.append("\" to activate\n");
        script.append("delay 0.08\n");
    }
    script.append("tell application \"System Events\" to keystroke \"v\" using command down");
    script
}

/// Whether this application may paste into others, and what to tell the
/// user.
#[derive(Clone, Debug, PartialEq, Eq)]
pub struct AccessibilityPermissionStatus {
    pub granted: bool,
    pub supported: bool,
    pub app_path: String,
    pub message: String,
}

/// The hint shown when pasting needs the accessibility permission: after
/// asking for it, where to grant it; otherwise why a granted permission
/// may have gone stale.
pub open spec fn permission_hint(prompted: bool) -> Seq<char> {
    if prompted {
        "已复制。请在系统设置中允许当前 VviTools 使用辅助功能权限，开启后可自动粘贴到原输入框。"@
    } else {
        "已复制。VviTools 当前仍未取得有效辅助功能权限；如果系统设置里已经开启，通常是本地重新打包后 macOS 授权记录失效，请移除 VviTools 后重新添加当前应用，或使用稳定签名的安装包。"@
    }
}

/// The hint shown when pasting needs the accessibility permission.
pub fn accessibility_permission_message(prompted: bool) -> (r: String)
    ensures
        r@ == permission_hint(prompted),
{
    if prompted {
        owned(
            "已复制。请在系统设置中允许当前 VviTools 使用辅助功能权限，开启后可自动粘贴到原输入框。",
        )
    } else {
        owned(
            "已复制。VviTools 当前仍未取得有效辅助功能权限；如果系统设置里已经开启，通常是本地重新打包后 macOS 授权记录失效，请移除 VviTools 后重新添加当前应用，或使用稳定签名的安装包。",
        )
    }
}

/// The permission status: on macOS the permission is needed and `granted`
/// says whether the system grants it; elsewhere it is not needed.
pub fn accessibility_status(macos: bool, granted: bool, prompted: bool, app_path: String) -> (r:
    AccessibilityPermissionStatus)
    ensures
        r.app_path == app_path,
        r.supported == macos,
        r.granted == (!macos || granted),
        r.message@ == if !macos {
            "当前系统不需要辅助功能授权"@
        } else if granted {
            "自动粘贴权限已开启"@
        } else {
            permission_hint(prompted)
        },
{
    if macos {
        AccessibilityPermissionStatus {
            granted,
            supported: true,
            app_path,
            message: if granted {
                owned("自动粘贴权限已开启")
            } else {
                accessibility_permission_message(prompted)
            },
        }
    } else {
        AccessibilityPermissionStatus {
            granted: true,
            supported: false,
            app_path,
            message: owned("当前系统不需要辅助功能授权"),
        }
    }
}

/// What pasting an entry achieved.
#[derive(Clone, Debug, PartialEq, Eq)]
pub struct ClipboardPasteResult {
    pub copied: bool,
    pub paste_requested: bool,
    pub needs_accessibility_permission: bool,
    pub message: String,
}

/// The answer when the entry was copied but could not be pasted for want
/// of the permission, given the permission status read again.
pub fn paste_blocked_result(status: AccessibilityPermissionStatus) -> (r: ClipboardPasteResult)
    ensures
        r.copied,
        !r.paste_requested,
        r.needs_accessibility_permission == !status.granted,
        r.message@ == if status.granted {
            "已复制，请再次选择记录以自动粘贴"@
        } else {
            status.message@
        },
{
    ClipboardPasteResult {
        copied: true,
        paste_requested: false,
        needs_accessibility_permission: !status.granted,
        message: if status.granted {
            owned("已复制，请再次选择记录以自动粘贴")
        } else {
            status.message
        },
    }
}

/// The answer when the entry was copied and pasted.
pub fn paste_done_result() -> (r: ClipboardPasteResult)
    ensures
        r.copied,
        r.paste_requested,
        !r.needs_accessibility_permission,
        r.message@ == "已复制并自动粘贴"@,
{
    ClipboardPasteResult {
        copied: true,
        paste_requested: true,
        needs_accessibility_permission: false,
        message: owned("已复制并自动粘贴"),
    }
}

} // verus!
