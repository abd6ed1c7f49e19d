use std::io::{Cursor, Write};
use sha2::{Digest, Sha256};
use vvitools_core::archive::{archive_writes, plan_archive_writes, ArchiveWrite, ZipEntry};
use vvitools_core::plugin::{
    plan_marketplace_unpack, plugin_exit_result, MarketplaceEntry, PermissionDecision, PluginError,
};
use zip::write::SimpleFileOptions;
use zip::ZipWriter;

fn sample_zip() -> Vec<u8> {
    let mut zip = ZipWriter::new(Cursor::new(Vec::new()));
    zip.add_directory("ui/", SimpleFileOptions::default()).unwrap();
    zip.start_file("plugin.json", SimpleFileOptions::default()).unwrap();
    zip.write_all(b"{}").unwrap();
    zip.start_file("ui/../../evil.sh", SimpleFileOptions::default()).unwrap();
    zip.write_all(b"echo").unwrap();
    zip.finish().unwrap().into_inner()
}

#[test]
fn archive_entries_are_planned_under_the_target() {
    let writes = archive_writes(&sample_zip(), "/tmp/target").unwrap();
    assert_eq!(writes.len(), 3);
    assert_eq!(writes[0], ArchiveWrite::Dir("/tmp/target/ui".into()));
    assert_eq!(
        writes[1],
        ArchiveWrite::File { path: "/tmp/target/plugin.json".into(), contents: b"{}".to_vec() }
    );
    match &writes[2] {
        ArchiveWrite::File { path, contents } => {
            assert!(path.starts_with("/tmp/target/"));
            assert!(!path.contains(".."));
            assert_eq!(contents, &b"echo".to_vec());
        }
        other => panic!("unexpected write {:?}", other),
    }
}

#[test]
fn unreadable_archives_give_no_writes() {
    assert!(archive_writes(b"not a zip", "/tmp/target").is_err());
    assert!(archive_writes(&[], "/tmp/target").is_err());
}

#[test]
fn entries_become_dirs_and_files() {
    let entries = vec![
        ZipEntry { path: "a".into(), is_dir: true, contents: vec![] },
        ZipEntry { path: "a/b.txt".into(), is_dir: false, contents: vec![1, 2] },
    ];
    assert_eq!(
        plan_archive_writes("/root", entries),
        vec![
            ArchiveWrite::Dir("/root/a".into()),
            ArchiveWrite::File { path: "/root/a/b.txt".into(), contents: vec![1, 2] },
        ]
    );
    assert_eq!(plan_archive_writes("/root", vec![]), vec![]);
}

fn entry(permissions: Vec<String>, sha256: Option<String>) -> MarketplaceEntry {
    MarketplaceEntry {
        id: "dev.vvicat.echo".into(),
        name: "回显工具".into(),
        version: "1.0.0".into(),
        description: "测试插件".into(),
        icon: String::new(),
        runtime: "node".into(),
        entry: "main.js".into(),
        bundled: false,
        download_url: "echo.zip".into(),
        sha256,
        categories: vec![],
        permissions,
    }
}

#[test]
fn marketplace_unpack_checks_permission_then_checksum_then_archive() {
    let bytes = sample_zip();
    let good = format!("sha256:{:x}", Sha256::digest(&bytes));
    let asks = vec!["clipboard".to_string()];

    let denied = plan_marketplace_unpack(
        &entry(asks.clone(), Some("bad".into())),
        PermissionDecision::Denied,
        b"not a zip",
        "/tmp/t",
    );
    assert_eq!(
        denied,
        Err(PluginError::PermissionApprovalRequired { permissions: asks.clone() })
    );

    let mismatch = plan_marketplace_unpack(
        &entry(asks.clone(), Some("bad".into())),
        PermissionDecision::Approved,
        b"not a zip",
        "/tmp/t",
    );
    assert_eq!(mismatch, Err(PluginError::ChecksumMismatch));

    let broken = plan_marketplace_unpack(&entry(vec![], None), PermissionDecision::Denied, b"not a zip", "/tmp/t");
    let zip_error = archive_writes(b"not a zip", "/tmp/t").unwrap_err();
    assert!(!zip_error.is_empty());
    assert_eq!(broken, Err(PluginError::InvalidArchive { message: zip_error.clone() }));
    assert_eq!(PluginError::InvalidArchive { message: zip_error.clone() }.message(), zip_error);

    let writes = plan_marketplace_unpack(&entry(asks, Some(good)), PermissionDecision::Approved, &bytes, "/tmp/t")
        .unwrap();
    assert_eq!(writes, archive_writes(&bytes, "/tmp/t").unwrap());
    assert_eq!(writes[0], ArchiveWrite::Dir("/tmp/t/ui".into()));
}

#[test]
fn plugin_exit_reports_trimmed_error_output() {
    assert_eq!(plugin_exit_result(true, "warning"), Ok(()));
    assert_eq!(
        plugin_exit_result(false, "  boom \n"),
        Err("插件执行失败: boom".to_string())
    );
    assert_eq!(plugin_exit_result(false, ""), Err("插件执行失败: ".to_string()));
}
