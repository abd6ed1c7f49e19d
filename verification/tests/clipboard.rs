use chrono::{DateTime, Duration as ChronoDuration, Utc};
use sha2::{Digest, Sha256};
use vvitools_core::clipboard::{
    clipboard_files_id, clipboard_files_preview, clipboard_image_id, clipboard_item_id,
    clipboard_file_paths, clipboard_preview, clipboard_storage_info, copy_target,
    default_clipboard_capture, entry_to_copy,
    file_names_preview, kept_by_retention,
    default_clipboard_enabled, default_clipboard_max_items, delete_entry, discarded_image_paths,
    normalize_clipboard_settings, prune_clipboard_history, record_clipboard_files,
    record_clipboard_image, record_clipboard_text, record_restored_entry, remember_entry,
    tick_reads, toggle_favorite, ClipboardItem, ClipboardSettings, CopyTarget, TickRecord,
    WatcherState,
};
use vvitools_core::instant::{
    instant_holds, retention_in_range, UtcInstant, UTC_MAX_SECS, UTC_MIN_SECS,
};
use vvitools_core::pixels::{clipboard_image_pixels, image_fits, image_size_message};

fn instant(t: DateTime<Utc>) -> UtcInstant {
    UtcInstant { secs: t.timestamp(), nanos: t.timestamp_subsec_nanos() }
}

fn clipboard_item(id: &str, copied_at: DateTime<Utc>, favorite: bool) -> ClipboardItem {
    ClipboardItem {
        id: id.into(),
        kind: "text".into(),
        text: id.into(),
        preview: id.into(),
        copied_at: copied_at.to_rfc3339(),
        favorite,
        image_path: String::new(),
        width: 0,
        height: 0,
        file_paths: Vec::new(),
    }
}

fn ids(items: &[ClipboardItem]) -> Vec<&str> {
    items.iter().map(|item| item.id.as_str()).collect()
}

#[test]
fn clipboard_retention_keeps_favorites() {
    let now = Utc::now();
    let settings = ClipboardSettings { retention_days: 7, ..ClipboardSettings::default() };
    let history = vec![
        clipboard_item("recent", now - ChronoDuration::days(2), false),
        clipboard_item("expired", now - ChronoDuration::days(12), false),
        clipboard_item("favorite", now - ChronoDuration::days(30), true),
    ];

    let cleaned = prune_clipboard_history(history, &settings, instant(now));

    assert_eq!(ids(&cleaned), vec!["recent", "favorite"]);
}

#[test]
fn clipboard_capacity_prioritizes_favorites_without_reordering() {
    let now = Utc::now();
    let settings = ClipboardSettings { max_items: 2, ..ClipboardSettings::default() };
    let history = vec![
        clipboard_item("newest", now, false),
        clipboard_item("favorite", now - ChronoDuration::minutes(1), true),
        clipboard_item("older", now - ChronoDuration::minutes(2), false),
    ];

    let cleaned = prune_clipboard_history(history, &settings, instant(now));

    assert_eq!(ids(&cleaned), vec!["newest", "favorite"]);
}

#[test]
fn clipboard_settings_are_bounded() {
    let settings = normalize_clipboard_settings(ClipboardSettings {
        retention_days: u32::MAX,
        max_items: 0,
        ..ClipboardSettings::default()
    });

    assert_eq!(settings.retention_days, 3650);
    assert_eq!(settings.max_items, 10);
}

#[test]
fn clipboard_settings_defaults_and_upper_bound() {
    let defaults = ClipboardSettings::default();
    assert!(defaults.enabled && defaults.capture_text && defaults.capture_images);
    assert!(defaults.capture_files);
    assert_eq!(defaults.retention_days, 0);
    assert_eq!(defaults.max_items, 200);
    assert!(default_clipboard_enabled() && default_clipboard_capture());
    assert_eq!(default_clipboard_max_items(), 200);
    let capped = normalize_clipboard_settings(ClipboardSettings {
        retention_days: 30,
        max_items: 9000,
        ..defaults
    });
    assert_eq!(capped.retention_days, 30);
    assert_eq!(capped.max_items, 5000);
    let again = normalize_clipboard_settings(capped);
    assert_eq!(again, capped);
}

#[test]
fn prune_with_too_many_favorites_keeps_the_earliest_favorites() {
    let now = Utc::now();
    let settings = ClipboardSettings { max_items: 2, ..ClipboardSettings::default() };
    let history = vec![
        clipboard_item("a", now, false),
        clipboard_item("fav1", now, true),
        clipboard_item("fav2", now, true),
        clipboard_item("fav3", now, true),
    ];
    let cleaned = prune_clipboard_history(history, &settings, instant(now));
    assert_eq!(ids(&cleaned), vec!["fav1", "fav2"]);
}

#[test]
fn prune_keeps_unreadable_timestamps_and_is_idempotent() {
    let now = Utc::now();
    let settings = ClipboardSettings { retention_days: 1, max_items: 3, ..ClipboardSettings::default() };
    let mut odd = clipboard_item("odd", now, false);
    odd.copied_at = "yesterday-ish".into();
    let history = vec![
        odd,
        clipboard_item("old", now - ChronoDuration::days(3), false),
        clipboard_item("new1", now - ChronoDuration::hours(1), false),
        clipboard_item("new2", now - ChronoDuration::hours(2), false),
        clipboard_item("new3", now - ChronoDuration::hours(3), false),
    ];
    let once = prune_clipboard_history(history, &settings, instant(now));
    assert_eq!(ids(&once), vec!["odd", "new1", "new2"]);
    let twice = prune_clipboard_history(once.clone(), &settings, instant(now));
    assert_eq!(twice, once);
}

#[test]
fn prune_without_retention_keeps_everything_that_fits() {
    let now = Utc::now();
    let settings = ClipboardSettings::default();
    let history = vec![
        clipboard_item("a", now - ChronoDuration::days(4000), false),
        clipboard_item("b", now, false),
    ];
    let cleaned = prune_clipboard_history(history.clone(), &settings, instant(now));
    assert_eq!(cleaned, history);
}

#[test]
fn retention_boundary_is_inclusive() {
    let now = DateTime::parse_from_rfc3339("2024-05-10T12:00:00Z").unwrap().with_timezone(&Utc);
    let settings = ClipboardSettings { retention_days: 1, ..ClipboardSettings::default() };
    let mut edge = clipboard_item("edge", now, false);
    edge.copied_at = "2024-05-09T12:00:00Z".into();
    let mut before = clipboard_item("before", now, false);
    before.copied_at = "2024-05-09T11:59:59.999+00:00".into();
    let mut offset = clipboard_item("offset", now, false);
    offset.copied_at = "2024-05-09T20:00:00+08:00".into();
    let cleaned = prune_clipboard_history(vec![edge, before, offset], &settings, instant(now));
    assert_eq!(ids(&cleaned), vec!["edge", "offset"]);
}

#[test]
fn preview_collapses_whitespace_and_truncates() {
    assert_eq!(clipboard_preview("  hello \n\t world  "), "hello world");
    assert_eq!(clipboard_preview("a\u{3000}b\u{00A0}c"), "a b c");
    assert_eq!(clipboard_preview(""), "");
    let long = "字".repeat(200);
    assert_eq!(clipboard_preview(&long).chars().count(), 160);
}

#[test]
fn files_preview_names_first_file_and_count() {
    assert_eq!(clipboard_files_preview(&vec![]), "文件");
    assert_eq!(clipboard_files_preview(&vec!["/tmp/a.txt".into()]), "a.txt");
    assert_eq!(
        clipboard_files_preview(&vec!["/tmp/a.txt".into(), "/tmp/b.txt".into(), "/tmp/c".into()]),
        "a.txt 等 3 个文件"
    );
    assert_eq!(clipboard_files_preview(&vec!["/".into()]), "文件");
}

#[test]
fn ids_are_sha256_hex() {
    assert_eq!(
        clipboard_item_id("abc"),
        "ba7816bf8f01cfea414140de5dae2223b00361a396177a9cb410ff61f20015ad"
    );
    assert_eq!(clipboard_item_id("abc").len(), 64);
    assert_ne!(clipboard_item_id("abc"), clipboard_item_id("abd"));
    let one = clipboard_files_id(&vec!["ab".into(), "c".into()]);
    let two = clipboard_files_id(&vec!["a".into(), "bc".into()]);
    assert_ne!(one, two);
    assert_eq!(one.len(), 64);
    let img = clipboard_image_id(2, 1, &[0, 0, 0, 255, 1, 1, 1, 255]);
    assert_ne!(img, clipboard_image_id(1, 2, &[0, 0, 0, 255, 1, 1, 1, 255]));
    assert_eq!(img, clipboard_image_id(2, 1, &[0, 0, 0, 255, 1, 1, 1, 255]));
}

#[test]
fn recording_puts_entry_first_and_drops_duplicates() {
    let now = Utc::now();
    let settings = ClipboardSettings::default();
    let id = clipboard_item_id("hello");
    let mut old = clipboard_item(&id, now, true);
    old.text = "hello".into();
    let history = vec![clipboard_item("x", now, false), old];
    let at = DateTime::parse_from_rfc3339("2024-01-01T00:00:00+00:00").unwrap().with_timezone(&Utc);
    let recorded = record_clipboard_text(history, &settings, "hello", instant(at)).unwrap();
    assert_eq!(recorded.len(), 2);
    assert_eq!(recorded[0].copied_at, "2024-01-01T00:00:00+00:00");
    assert_eq!(recorded[0].id, id);
    assert_eq!(recorded[0].kind, "text");
    assert!(!recorded[0].favorite);
    assert_eq!(recorded[0].preview, "hello");
    assert_eq!(recorded[1].id, "x");

    let off = ClipboardSettings { capture_text: false, ..settings };
    assert!(record_clipboard_text(vec![], &off, "hello", instant(Utc::now())).is_none());
}

#[test]
fn recording_images_and_files() {
    let settings = ClipboardSettings::default();
    let now = Utc::now();
    let images = record_clipboard_image(
        vec![],
        &settings,
        "img".into(),
        640,
        480,
        "/data/img.png".into(),
        instant(now),
    )
    .unwrap();
    assert_eq!(images[0].preview, "640 x 480 图片");
    assert_eq!(images[0].kind, "image");
    assert_eq!(images[0].image_path, "/data/img.png");
    assert_eq!(images[0].copied_at, now.to_rfc3339());

    let files = record_clipboard_files(
        images,
        &settings,
        vec!["/a/x.txt".into(), "/a/y.txt".into()],
        "files".into(),
        instant(now),
    )
    .unwrap();
    assert_eq!(files[0].text, "/a/x.txt\n/a/y.txt");
    assert_eq!(files[0].preview, "x.txt 等 2 个文件");
    assert_eq!(files.len(), 2);

    let no_images = ClipboardSettings { capture_images: false, ..settings };
    assert!(record_clipboard_image(vec![], &no_images, "i".into(), 1, 1, "p".into(), instant(now))
        .is_none());
    let disabled = ClipboardSettings { enabled: false, ..settings };
    assert!(record_clipboard_files(vec![], &disabled, vec![], "f".into(), instant(now)).is_none());
}

#[test]
fn restoring_keeps_favorite_and_updates_time() {
    let now = Utc::now();
    let settings = ClipboardSettings::default();
    let mut image = clipboard_item("img", now, true);
    image.kind = "image".into();
    let history = vec![clipboard_item("x", now, false), image.clone()];
    let later = now + ChronoDuration::seconds(5);
    let restored = record_restored_entry(history, &settings, image.clone(), instant(later)).unwrap();
    assert_eq!(ids(&restored), vec!["img", "x"]);
    assert!(restored[0].favorite);
    assert_eq!(restored[0].copied_at, later.to_rfc3339());
    let no_files = ClipboardSettings { capture_files: false, ..settings };
    let mut file = image.clone();
    file.kind = "file".into();
    assert!(record_restored_entry(vec![], &no_files, file, instant(later)).is_none());
}

#[test]
fn toggling_favorite_twice_restores_history() {
    let now = Utc::now();
    let history = vec![clipboard_item("a", now, false), clipboard_item("b", now, false)];
    let once = toggle_favorite(history.clone(), "b").unwrap();
    assert!(once[1].favorite && !once[0].favorite);
    let twice = toggle_favorite(once, "b").unwrap();
    assert_eq!(twice, history);
    assert_eq!(toggle_favorite(history, "zz").unwrap_err(), "剪贴板记录不存在");
}

#[test]
fn deleting_removes_entry_and_reports_its_image() {
    let now = Utc::now();
    let mut image = clipboard_item("img", now, false);
    image.kind = "image".into();
    image.image_path = "/data/img.png".into();
    let history = vec![clipboard_item("a", now, false), image];
    let (kept, to_remove) = delete_entry(history.clone(), "img");
    assert_eq!(ids(&kept), vec!["a"]);
    assert_eq!(to_remove.as_deref(), Some("/data/img.png"));
    let (kept, to_remove) = delete_entry(history, "a");
    assert_eq!(ids(&kept), vec!["img"]);
    assert!(to_remove.is_none());
}

#[test]
fn discarded_images_are_those_no_entry_refers_to() {
    let now = Utc::now();
    let mut a = clipboard_item("a", now, false);
    a.kind = "image".into();
    a.image_path = "/i/a.png".into();
    let mut b = clipboard_item("b", now, false);
    b.kind = "image".into();
    b.image_path = "/i/b.png".into();
    let original = vec![a.clone(), b, clipboard_item("c", now, false)];
    assert_eq!(discarded_image_paths(&original, &vec![a]), vec!["/i/b.png".to_string()]);
}

#[test]
fn storage_info_counts_images() {
    let now = Utc::now();
    let mut a = clipboard_item("a", now, false);
    a.kind = "image".into();
    let info = clipboard_storage_info("/dir".into(), 42, &vec![a, clipboard_item("b", now, false)]);
    assert_eq!(info.item_count, 2);
    assert_eq!(info.image_count, 1);
    assert_eq!(info.total_bytes, 42);
    assert_eq!(info.directory, "/dir");
}

#[test]
fn copy_targets_follow_kind() {
    assert_eq!(copy_target("file"), CopyTarget::Files);
    assert_eq!(copy_target("image"), CopyTarget::Image);
    assert_eq!(copy_target("text"), CopyTarget::Text);
}

#[test]
fn remembering_replaces_same_id() {
    let now = Utc::now();
    let history = vec![clipboard_item("a", now, false), clipboard_item("b", now, false)];
    let result = remember_entry(history, clipboard_item("b", now, true));
    assert_eq!(ids(&result), vec!["b", "a"]);
    assert!(result[0].favorite);
}

#[test]
fn watcher_records_each_copy_once() {
    let settings = ClipboardSettings::default();
    let mut watcher = WatcherState::new();
    assert!(watcher.observe_text("hi"));
    assert!(!watcher.observe_text("hi"));
    assert!(!watcher.observe_text("   "));
    assert!(watcher.observe_files(&settings, "f1"));
    assert!(!watcher.observe_files(&settings, "f1"));
    let no_files = ClipboardSettings { capture_files: false, ..settings };
    assert!(!watcher.observe_files(&no_files, "f2"));
    assert!(watcher.observe_image("i1"));
    assert!(!watcher.observe_image("i1"));
}

#[test]
fn retention_range_follows_chrono_limits() {
    let now = instant(Utc::now());
    assert!(retention_in_range(now, 0));
    assert!(retention_in_range(now, 3650));
    let earliest = UtcInstant { secs: UTC_MIN_SECS, nanos: 0 };
    assert!(retention_in_range(earliest, 0));
    assert!(!retention_in_range(earliest, 1));
    let day_later = UtcInstant { secs: UTC_MIN_SECS + 86400, nanos: 0 };
    assert!(retention_in_range(day_later, 1));
    assert!(!retention_in_range(day_later, 2));
    let leap = UtcInstant { secs: UTC_MIN_SECS + 86399, nanos: 1_500_000_000 };
    assert!(retention_in_range(leap, 1));
    assert!(!retention_in_range(UtcInstant { secs: UTC_MAX_SECS + 1, nanos: 0 }, 0));
    assert!(!retention_in_range(UtcInstant { secs: 0, nanos: 2_000_000_000 }, 0));
}

#[test]
fn image_and_file_ids_hash_their_exact_bytes() {
    let rgba = [0u8, 0, 0, 255, 1, 1, 1, 255];
    let mut bytes = Vec::new();
    bytes.extend_from_slice(&2usize.to_le_bytes());
    bytes.extend_from_slice(&1usize.to_le_bytes());
    bytes.extend_from_slice(&rgba);
    let expected = format!("{:x}", Sha256::digest(&bytes));
    assert_eq!(clipboard_image_id(2, 1, &rgba), expected);
    let expected_files = format!("{:x}", Sha256::digest(b"ab\0c\0"));
    assert_eq!(
        clipboard_files_id(&vec!["ab".into(), "c".into()]),
        expected_files
    );
}

#[test]
fn retention_keeps_unreadable_and_recent_copies() {
    let cutoff = UtcInstant { secs: 1_000, nanos: 500 };
    assert!(kept_by_retention(None, cutoff));
    assert!(kept_by_retention(Some((1_000, 500)), cutoff));
    assert!(kept_by_retention(Some((1_001, 0)), cutoff));
    assert!(!kept_by_retention(Some((1_000, 499)), cutoff));
    assert!(!kept_by_retention(Some((999, 999_999_999)), cutoff));
}

#[test]
fn file_names_make_the_preview() {
    assert_eq!(file_names_preview(&vec![]), "文件");
    assert_eq!(file_names_preview(&vec!["a.txt".into()]), "a.txt");
    assert_eq!(
        file_names_preview(&vec!["a.txt".into(), "b.txt".into(), "c".into()]),
        "a.txt 等 3 个文件"
    );
}

#[test]
fn watcher_tick_reads_and_records_by_the_settings() {
    let off = ClipboardSettings { enabled: false, ..ClipboardSettings::default() };
    let r = tick_reads(&off);
    assert!(!r.files && !r.text && !r.image);
    let no_text = ClipboardSettings { capture_text: false, ..ClipboardSettings::default() };
    let r = tick_reads(&no_text);
    assert!(r.files && !r.text && r.image);

    let on = ClipboardSettings::default();
    let mut seen = WatcherState::new();
    let none = TickRecord { files: None, text: false, image: false };
    assert_eq!(seen.tick(&off, &vec!["/a".into()], &Some("hi".into()), &Some("img".into())), none);

    let files: Vec<String> = vec!["/a".into()];
    let first = seen.tick(&on, &files, &Some("hi".into()), &Some("img".into()));
    assert_eq!(first.files, Some(clipboard_files_id(&files)));
    assert!(!first.text && !first.image);
    assert_eq!(seen.tick(&on, &files, &None, &None), none);

    let both = seen.tick(&on, &vec![], &Some("hi".into()), &Some("img".into()));
    assert_eq!(both, TickRecord { files: None, text: true, image: true });
    assert_eq!(seen.tick(&on, &vec![], &Some("hi".into()), &Some("img".into())), none);
    assert_eq!(seen.tick(&on, &vec![], &Some("  ".into()), &None), none);
    assert_eq!(
        seen.tick(&no_text, &vec![], &Some("new".into()), &Some("img2".into())),
        TickRecord { files: None, text: false, image: true }
    );
    assert_eq!(seen.last_text, "hi");
    assert_eq!(seen.last_image_id, "img2");
}

#[test]
fn copy_times_are_instants_chrono_accepts() {
    assert!(instant_holds(instant(Utc::now())));
    assert!(instant_holds(UtcInstant { secs: 59, nanos: 1_500_000_000 }));
    assert!(!instant_holds(UtcInstant { secs: 58, nanos: 1_500_000_000 }));
    assert!(instant_holds(UtcInstant { secs: -1, nanos: 1_000_000_000 }));
    assert!(!instant_holds(UtcInstant { secs: -2, nanos: 1_000_000_000 }));
    assert!(!instant_holds(UtcInstant { secs: UTC_MAX_SECS + 1, nanos: 0 }));
    assert!(instant_holds(UtcInstant { secs: UTC_MIN_SECS, nanos: 0 }));
}

#[test]
fn copied_file_lists_are_read_from_json() {
    assert_eq!(clipboard_file_paths(false, b"garbage"), Ok(vec![]));
    assert_eq!(
        clipboard_file_paths(true, br#"["/a/x.txt","/b"]"#),
        Ok(vec!["/a/x.txt".to_string(), "/b".to_string()])
    );
    assert_eq!(clipboard_file_paths(true, b"[]"), Ok(vec![]));
    assert!(clipboard_file_paths(true, b"not json").is_err());
}

#[test]
fn entries_to_copy_are_found_or_refused() {
    let now = Utc::now();
    let history = vec![clipboard_item("a", now, false), clipboard_item("b", now, false)];
    assert_eq!(entry_to_copy(&history, "b"), Ok(1));
    assert_eq!(entry_to_copy(&history, "z"), Err("剪贴板记录不存在".to_string()));
}

#[test]
fn image_sizes_are_checked_against_their_bytes() {
    assert!(image_fits(2, 3, 24));
    assert!(image_fits(2, 3, 25));
    assert!(!image_fits(2, 3, 23));
    assert!(image_fits(0, 100, 0));
    assert!(!image_fits(u32::MAX, u32::MAX, usize::MAX));
    assert_eq!(image_size_message(640, 480), "图片数据尺寸不匹配: 640x480");
}

#[test]
fn saved_images_decode_back_to_their_pixels() {
    let pixels: Vec<u8> = vec![255, 0, 0, 255, 0, 255, 0, 128];
    let buffer: image::RgbaImage = image::ImageBuffer::from_raw(2, 1, pixels.clone()).unwrap();
    let mut png = Vec::new();
    buffer
        .write_to(&mut std::io::Cursor::new(&mut png), image::ImageFormat::Png)
        .unwrap();
    assert_eq!(clipboard_image_pixels(&png), Ok((2, 1, pixels)));
    assert!(clipboard_image_pixels(b"not an image").is_err());
}
