use vvitools_core::digest::{sha256_hex, to_hex};
use vvitools_core::paths::{
    app_settings_path, bundled_plugins_dir, clipboard_data_dir, clipboard_history_path,
    clipboard_image_path, clipboard_images_dir, clipboard_settings_path, default_plugins_dir,
};
use vvitools_core::settings::{
    accessibility_permission_message, accessibility_status, bundle_id_from_output,
    default_dock_visible, is_safe_bundle_id, load_dock_visible_setting, paste_blocked_result,
    paste_done_result, paste_script, remember_frontmost_app, AppSettings,
};
use vvitools_core::window::{hides_on_focus_loss, launcher_toggle, tray_icon_rgba, LauncherToggle};

#[test]
fn dock_setting_prefers_new_key_then_inverted_legacy_key() {
    assert!(!default_dock_visible());
    assert!(!load_dock_visible_setting(None));
    assert!(!load_dock_visible_setting(Some(AppSettings::new())));
    let shown = AppSettings {
        dock_visible: Some(true),
        status_bar_mode: Some(true),
    };
    assert!(load_dock_visible_setting(Some(shown)));
    let legacy = AppSettings {
        dock_visible: None,
        status_bar_mode: Some(false),
    };
    assert!(load_dock_visible_setting(Some(legacy)));
    let legacy_hidden = AppSettings {
        dock_visible: None,
        status_bar_mode: Some(true),
    };
    assert!(!legacy_hidden.dock_visible());
    let updated = legacy_hidden.with_dock_visible(true);
    assert_eq!(updated.dock_visible, Some(true));
    assert_eq!(updated.status_bar_mode, None);
    assert!(updated.dock_visible());
}

#[test]
fn frontmost_app_is_remembered_unless_it_is_this_app() {
    let mut previous: Option<String> = None;
    remember_frontmost_app(&mut previous, Some("com.apple.Notes".into()));
    assert_eq!(previous.as_deref(), Some("com.apple.Notes"));
    remember_frontmost_app(&mut previous, Some("dev.vvicat.vvitools".into()));
    assert_eq!(previous.as_deref(), Some("com.apple.Notes"));
    remember_frontmost_app(&mut previous, None);
    assert_eq!(previous.as_deref(), Some("com.apple.Notes"));
    remember_frontmost_app(&mut previous, Some("com.apple.Safari".into()));
    assert_eq!(previous.as_deref(), Some("com.apple.Safari"));
}

#[test]
fn bundle_ids_are_checked_before_use_in_scripts() {
    assert!(is_safe_bundle_id("com.apple.Notes"));
    assert!(is_safe_bundle_id("a-b_c.9"));
    assert!(!is_safe_bundle_id(""));
    assert!(!is_safe_bundle_id("com.apple\" to quit"));
    assert!(!is_safe_bundle_id("com apple"));
    assert_eq!(
        bundle_id_from_output(true, " com.apple.Notes\n"),
        Some("com.apple.Notes".to_string())
    );
    assert_eq!(bundle_id_from_output(false, "com.apple.Notes"), None);
    assert_eq!(bundle_id_from_output(true, "bad id"), None);
    assert_eq!(bundle_id_from_output(true, "  "), None);
}

#[test]
fn paste_script_activates_the_previous_app_first() {
    assert_eq!(
        paste_script(&Some("com.apple.Notes".into())),
        "tell application id \"com.apple.Notes\" to activate\ndelay 0.08\ntell application \"System Events\" to keystroke \"v\" using command down"
    );
    assert_eq!(
        paste_script(&None),
        "tell application \"System Events\" to keystroke \"v\" using command down"
    );
}

#[test]
fn accessibility_status_and_paste_results() {
    let other = accessibility_status(false, false, false, "/app".into());
    assert!(other.granted);
    assert!(!other.supported);
    assert_eq!(other.message, "当前系统不需要辅助功能授权");
    let ok = accessibility_status(true, true, false, "/app".into());
    assert!(ok.granted && ok.supported);
    assert_eq!(ok.message, "自动粘贴权限已开启");
    assert_eq!(ok.app_path, "/app");
    let missing = accessibility_status(true, false, true, "/app".into());
    assert!(!missing.granted);
    assert_eq!(missing.message, accessibility_permission_message(true));
    assert!(accessibility_permission_message(true).contains("系统设置"));
    assert!(accessibility_permission_message(false).contains("重新添加"));

    let blocked = paste_blocked_result(missing.clone());
    assert!(blocked.copied && !blocked.paste_requested);
    assert!(blocked.needs_accessibility_permission);
    assert_eq!(blocked.message, missing.message);
    let retry = paste_blocked_result(ok);
    assert!(!retry.needs_accessibility_permission);
    assert_eq!(retry.message, "已复制，请再次选择记录以自动粘贴");
    let done = paste_done_result();
    assert!(done.copied && done.paste_requested && !done.needs_accessibility_permission);
    assert_eq!(done.message, "已复制并自动粘贴");
}

#[test]
fn data_paths_live_under_the_app_directory() {
    let data = Some("/home/u/.local/share".to_string());
    assert_eq!(default_plugins_dir(&data), "/home/u/.local/share/VviTools/plugins");
    assert_eq!(app_settings_path(&data), "/home/u/.local/share/VviTools/settings.json");
    assert_eq!(clipboard_data_dir(&data), "/home/u/.local/share/VviTools/clipboard");
    assert_eq!(
        clipboard_history_path(&data),
        "/home/u/.local/share/VviTools/clipboard/history.json"
    );
    assert_eq!(
        clipboard_settings_path(&data),
        "/home/u/.local/share/VviTools/clipboard/settings.json"
    );
    assert_eq!(
        clipboard_images_dir(&data),
        "/home/u/.local/share/VviTools/clipboard/images"
    );
    assert_eq!(
        clipboard_image_path(&data, "image-abc"),
        "/home/u/.local/share/VviTools/clipboard/images/image-abc.png"
    );
    assert_eq!(default_plugins_dir(&None), "./VviTools/plugins");
    assert_eq!(bundled_plugins_dir("/src/app/src-tauri"), "/src/app/plugins");
    assert_eq!(bundled_plugins_dir("/"), "./plugins");
}

#[test]
fn launcher_windows_hide_and_toggle() {
    assert!(hides_on_focus_loss("main"));
    assert!(hides_on_focus_loss("clipboard"));
    assert!(!hides_on_focus_loss("settings"));
    assert_eq!(launcher_toggle(true), LauncherToggle::Hide);
    assert_eq!(launcher_toggle(false), LauncherToggle::Show);
}

#[test]
fn tray_icon_is_an_opaque_shape_on_transparent_ground() {
    let rgba = tray_icon_rgba();
    assert_eq!(rgba.len(), 18 * 18 * 4);
    let alpha = |x: usize, y: usize| rgba[(y * 18 + x) * 4 + 3];
    assert_eq!(alpha(0, 0), 0);
    assert_eq!(alpha(4, 3), 255);
    assert_eq!(alpha(14, 13), 255);
    assert_eq!(alpha(9, 8), 255);
    assert_eq!(alpha(9, 15), 255);
    assert_eq!(alpha(9, 4), 0);
    assert_eq!(alpha(17, 17), 0);
    assert!(rgba.chunks(4).all(|px| px[0] == 0 && px[1] == 0 && px[2] == 0));
}

#[test]
fn digests_are_lower_case_hex() {
    assert_eq!(to_hex(&[0x00, 0xab, 0x0f, 0xff]), "00ab0fff");
    assert_eq!(
        sha256_hex(b"abc"),
        "ba7816bf8f01cfea414140de5dae2223b00361a396177a9cb410ff61f20015ad"
    );
    assert_eq!(
        sha256_hex(b""),
        "e3b0c44298fc1c149afbf4c8996fb92427ae41e4649b934ca495991b7852b855"
    );
}
