use tempfile::tempdir;
use vvitools_core::plugin::{
    action_allowed, bundled_marketplace, check_custom_manifest, check_import_list,
    check_install_permission, check_marketplace_manifest, check_user_plugin_id, checksum_matches,
    ensure_action_allowed, find_plugin, import_source, installing_dir_name,
    load_available_plugins_from, permission_decision, plan_plugin_action, plan_plugin_command,
    plugin_to_view, run_builtin_command, runtime_name, score_texts, search_commands,
    sort_plugins_by_name,
    validate_manifest, verify_sha256, BuiltinPluginSpec, CommandPlan, CustomPluginImportRequest,
    ImportSource, InstalledPlugin, ManifestError, MarketplaceEntry, PermissionDecision,
    PlannedAction, PluginCommand, PluginError, PluginManifest, PluginRuntime, PluginUiSpec,
    RpcAction, RpcResult,
};

fn sample_manifest(runtime: PluginRuntime, entry: &str) -> PluginManifest {
    PluginManifest {
        id: "dev.vvicat.echo".into(),
        name: "回显工具".into(),
        version: "1.0.0".into(),
        description: "返回输入文本".into(),
        icon: String::new(),
        keywords: vec!["echo".into(), "回显".into()],
        categories: vec!["efficiency".into()],
        runtime,
        entry: entry.into(),
        builtin: None,
        ui: None,
        permissions: vec!["clipboard".into()],
        commands: vec![PluginCommand {
            id: "echo.run".into(),
            title: "回显文本".into(),
            keyword: "echo".into(),
            input: "text".into(),
        }],
    }
}

fn plugin(manifest: PluginManifest, dir: &str) -> InstalledPlugin {
    InstalledPlugin { manifest, dir: dir.into() }
}

fn one_command(id: &str, name: &str, keyword: &str, title: &str) -> PluginManifest {
    let mut m = sample_manifest(PluginRuntime::Shell, "main.sh");
    m.id = id.into();
    m.name = name.into();
    m.description = String::new();
    m.keywords = vec![];
    m.commands = vec![PluginCommand {
        id: format!("{}.run", id),
        title: title.into(),
        keyword: keyword.into(),
        input: "text".into(),
    }];
    m
}

fn marketplace_entry(permissions: Vec<String>) -> MarketplaceEntry {
    MarketplaceEntry {
        id: "dev.vvicat.echo".into(),
        name: "回显工具".into(),
        version: "1.0.0".into(),
        description: "测试插件".into(),
        icon: String::new(),
        runtime: "node".into(),
        entry: "main.js".into(),
        bundled: false,
        download_url: "https://example.invalid/echo.zip".into(),
        sha256: None,
        categories: vec!["efficiency".into()],
        permissions,
    }
}

fn clipboard_builtin() -> PluginManifest {
    let mut m = sample_manifest(PluginRuntime::Builtin, "builtin:clipboard");
    m.id = "dev.vvicat.system-clipboard".into();
    m.name = "系统剪贴板".into();
    m.builtin = Some(BuiltinPluginSpec {
        module: "builtin.ts".into(),
        bridge: "host.clipboard".into(),
        host_commands: vec!["clipboard.open".into()],
    });
    m.commands = vec![
        PluginCommand {
            id: "clipboard.open".into(),
            title: "打开剪贴板".into(),
            keyword: "cb".into(),
            input: "none".into(),
        },
        PluginCommand {
            id: "clipboard.clear".into(),
            title: "清空剪贴板".into(),
            keyword: "cbc".into(),
            input: "none".into(),
        },
    ];
    m
}

#[test]
fn plugin_action_requires_declared_permission() {
    let allowed_dir = tempdir().unwrap();
    let allowed = InstalledPlugin {
        manifest: sample_manifest(PluginRuntime::Shell, "main.sh"),
        dir: allowed_dir.path().to_string_lossy().into_owned(),
    };
    assert!(action_allowed(
        &allowed,
        &RpcAction::Copy {
            value: "hello".into()
        }
    ));

    let mut manifest = sample_manifest(PluginRuntime::Shell, "main.sh");
    manifest.permissions.clear();
    let denied_dir = tempdir().unwrap();
    let denied = InstalledPlugin {
        manifest,
        dir: denied_dir.path().to_string_lossy().into_owned(),
    };
    assert!(!action_allowed(
        &denied,
        &RpcAction::Copy {
            value: "hello".into()
        }
    ));
}

#[test]
fn clipboard_write_permission_also_allows_copy() {
    let mut m = sample_manifest(PluginRuntime::Shell, "main.sh");
    m.permissions = vec!["clipboard:write".into()];
    let p = plugin(m, "/plugins/echo");
    assert!(action_allowed(&p, &RpcAction::Copy { value: "x".into() }));
    assert!(!action_allowed(&p, &RpcAction::OpenUrl { url: "https://a".into() }));
    assert!(!action_allowed(&p, &RpcAction::Shell { command: "ls".into() }));
}

#[test]
fn refused_action_names_plugin_and_permissions() {
    let p = plugin(sample_manifest(PluginRuntime::Shell, "main.sh"), "/plugins/echo");
    assert!(ensure_action_allowed(&p, &RpcAction::Copy { value: "x".into() }).is_ok());
    let err = ensure_action_allowed(&p, &RpcAction::OpenUrl { url: "https://a".into() })
        .unwrap_err();
    assert_eq!(
        err,
        PluginError::PermissionNotDeclared {
            plugin_id: "dev.vvicat.echo".into(),
            required: vec!["open-url".into()],
        }
    );
    assert_eq!(err.message(), "插件 dev.vvicat.echo 未声明权限: open-url");
    let mut m = sample_manifest(PluginRuntime::Shell, "main.sh");
    m.permissions.clear();
    let bare = plugin(m, "/plugins/echo");
    let err = ensure_action_allowed(&bare, &RpcAction::Copy { value: "x".into() }).unwrap_err();
    assert_eq!(
        err.message(),
        "插件 dev.vvicat.echo 未声明权限: clipboard 或 clipboard:write"
    );
}

#[test]
fn valid_manifest_passes_and_each_rule_is_reported() {
    let good = sample_manifest(PluginRuntime::Shell, "main.sh");
    assert_eq!(validate_manifest(&good), Ok(()));

    let mut m = good.clone();
    m.id = "  ".into();
    assert_eq!(validate_manifest(&m), Err(ManifestError::BlankId));

    let mut m = good.clone();
    m.name = String::new();
    assert_eq!(validate_manifest(&m), Err(ManifestError::BlankName));

    let mut m = good.clone();
    m.entry = "../main.sh".into();
    assert_eq!(validate_manifest(&m), Err(ManifestError::EntryParentPath));

    let mut m = good.clone();
    m.icon = "icons/../../x.png".into();
    assert_eq!(validate_manifest(&m), Err(ManifestError::IconParentPath));

    let mut m = good.clone();
    m.ui = Some(PluginUiSpec {
        window: "../Window.svelte".into(),
        settings: String::new(),
        styles: String::new(),
    });
    assert_eq!(validate_manifest(&m), Err(ManifestError::UiParentPath));
    assert_eq!(
        ManifestError::UiParentPath.message(),
        "插件界面路径不能包含上级目录"
    );

    let mut m = good.clone();
    m.ui = Some(PluginUiSpec {
        window: "ui/Window.svelte".into(),
        settings: "ui/Settings.svelte".into(),
        styles: "ui/styles.css".into(),
    });
    assert_eq!(validate_manifest(&m), Ok(()));

    let mut m = good.clone();
    m.runtime = PluginRuntime::Builtin;
    assert_eq!(validate_manifest(&m), Err(ManifestError::BuiltinSpecMissing));

    m.builtin = Some(BuiltinPluginSpec {
        module: " ".into(),
        bridge: "host.x".into(),
        host_commands: vec!["echo.run".into()],
    });
    assert_eq!(validate_manifest(&m), Err(ManifestError::BuiltinSpecBlank));

    m.builtin = Some(BuiltinPluginSpec {
        module: "../builtin.ts".into(),
        bridge: "host.x".into(),
        host_commands: vec!["echo.run".into()],
    });
    assert_eq!(validate_manifest(&m), Err(ManifestError::BuiltinParentPath));

    m.builtin = Some(BuiltinPluginSpec {
        module: "builtin.ts".into(),
        bridge: "host.x".into(),
        host_commands: vec![],
    });
    assert_eq!(
        validate_manifest(&m),
        Err(ManifestError::BuiltinHostCommandsMissing)
    );

    let mut m = good.clone();
    m.commands.clear();
    assert_eq!(validate_manifest(&m), Err(ManifestError::CommandsMissing));
    assert_eq!(
        PluginError::InvalidManifest(ManifestError::CommandsMissing).message(),
        "插件至少需要声明一个命令"
    );
}

#[test]
fn search_ranks_exact_keyword_then_prefix_then_substring() {
    let plugins = vec![
        plugin(one_command("dev.c", "Cee", "zz", "say echo"), "/p/c"),
        plugin(one_command("dev.d", "Dee", "none", "nothing"), "/p/d"),
        plugin(one_command("dev.b", "Bee", "bee", "Echo things"), "/p/b"),
        plugin(sample_manifest(PluginRuntime::Shell, "main.sh"), "/p/echo"),
    ];
    let found = search_commands(&plugins, "  ECHO ");
    let ids: Vec<(String, u16)> = found
        .iter()
        .map(|m| (m.plugin_id.clone(), m.score))
        .collect();
    assert_eq!(
        ids,
        vec![
            ("dev.vvicat.echo".to_string(), 100),
            ("dev.b".to_string(), 70),
            ("dev.c".to_string(), 40),
        ]
    );
    assert_eq!(found[0].command_id, "echo.run");
    assert_eq!(found[0].keyword, "echo");
    assert_eq!(found[0].plugin_name, "回显工具");
}

#[test]
fn search_matches_plugin_name_and_blank_query_lists_all_by_title() {
    let plugins = vec![
        plugin(one_command("dev.c", "Cee", "zz", "say echo"), "/p/c"),
        plugin(one_command("dev.d", "Dee", "none", "nothing"), "/p/d"),
        plugin(one_command("dev.b", "Bee", "bee", "Echo things"), "/p/b"),
        plugin(sample_manifest(PluginRuntime::Shell, "main.sh"), "/p/echo"),
    ];
    let found = search_commands(&plugins, "回显");
    assert_eq!(found.len(), 1);
    assert_eq!(found[0].plugin_id, "dev.vvicat.echo");
    assert_eq!(found[0].command_id, "echo.run");
    assert_eq!(found[0].score, 70);

    let all = search_commands(&plugins, "   ");
    let titles: Vec<&str> = all.iter().map(|m| m.title.as_str()).collect();
    assert_eq!(titles, vec!["Echo things", "nothing", "say echo", "回显文本"]);
    assert!(all.iter().all(|m| m.score == 1));

    assert!(search_commands(&plugins, "qqq").is_empty());
}

#[test]
fn bundled_plugin_wins_over_user_plugin_with_same_id() {
    let bundled = vec![plugin(clipboard_builtin(), "/bundled/clip")];
    let mut shadow = sample_manifest(PluginRuntime::Shell, "main.sh");
    shadow.id = "dev.vvicat.system-clipboard".into();
    shadow.name = "user copy".into();
    let mut other = sample_manifest(PluginRuntime::Shell, "main.sh");
    other.id = "dev.alpha".into();
    other.name = "Alpha".into();
    let user = vec![plugin(shadow, "/user/clip"), plugin(other, "/user/alpha")];
    let merged = load_available_plugins_from(bundled, user);
    let names: Vec<&str> = merged.iter().map(|p| p.manifest.name.as_str()).collect();
    assert_eq!(names, vec!["Alpha", "系统剪贴板"]);
    assert_eq!(merged[1].manifest.runtime, PluginRuntime::Builtin);
    assert_eq!(merged[1].dir, "/bundled/clip");
}

#[test]
fn plugins_sort_by_name_stably() {
    let mut a = sample_manifest(PluginRuntime::Shell, "main.sh");
    a.name = "b".into();
    a.id = "first".into();
    let mut b = sample_manifest(PluginRuntime::Shell, "main.sh");
    b.name = "a".into();
    let mut c = sample_manifest(PluginRuntime::Shell, "main.sh");
    c.name = "b".into();
    c.id = "second".into();
    let sorted = sort_plugins_by_name(vec![plugin(a, "/1"), plugin(b, "/2"), plugin(c, "/3")]);
    let dirs: Vec<&str> = sorted.iter().map(|p| p.dir.as_str()).collect();
    assert_eq!(dirs, vec!["/2", "/1", "/3"]);
}

#[test]
fn install_requires_permission_approval() {
    let entry = marketplace_entry(vec!["clipboard".into()]);
    let denied = check_install_permission(&entry, PermissionDecision::Denied).unwrap_err();
    assert_eq!(
        denied,
        PluginError::PermissionApprovalRequired {
            permissions: vec!["clipboard".into()]
        }
    );
    assert!(denied.message().contains("权限"));
    assert_eq!(denied.message(), "安装插件需要确认权限: clipboard");
    assert!(check_install_permission(&entry, PermissionDecision::Approved).is_ok());
    let free = marketplace_entry(vec![]);
    assert!(check_install_permission(&free, PermissionDecision::Denied).is_ok());
    assert_eq!(permission_decision(true), PermissionDecision::Approved);
    assert_eq!(permission_decision(false), PermissionDecision::Denied);
}

#[test]
fn checksum_accepts_prefixed_and_plain_hex() {
    let hex = "ba7816bf8f01cfea414140de5dae2223b00361a396177a9cb410ff61f20015ad";
    assert_eq!(verify_sha256(b"abc", hex), Ok(()));
    assert_eq!(verify_sha256(b"abc", &format!("sha256:{}", hex)), Ok(()));
    assert_eq!(
        verify_sha256(b"abd", hex),
        Err(PluginError::ChecksumMismatch)
    );
    assert_eq!(
        verify_sha256(b"abc", &hex.to_uppercase()),
        Err(PluginError::ChecksumMismatch)
    );
    assert_eq!(
        PluginError::ChecksumMismatch.message(),
        "插件包校验失败"
    );
}

#[test]
fn downloaded_and_imported_manifests_are_checked() {
    let m = sample_manifest(PluginRuntime::Node, "main.js");
    let entry = marketplace_entry(vec![]);
    assert_eq!(check_marketplace_manifest(&m, &entry), Ok(()));
    let mut other = m.clone();
    other.id = "dev.other".into();
    assert_eq!(
        check_marketplace_manifest(&other, &entry),
        Err(PluginError::MarketplaceIdMismatch)
    );
    let mut bad = m.clone();
    bad.commands.clear();
    assert_eq!(
        check_marketplace_manifest(&bad, &entry),
        Err(PluginError::InvalidManifest(ManifestError::CommandsMissing))
    );

    assert_eq!(check_custom_manifest(&m), Ok(()));
    assert_eq!(
        check_custom_manifest(&clipboard_builtin()),
        Err(PluginError::BuiltinImportRefused)
    );
    assert_eq!(
        PluginError::BuiltinImportRefused.message(),
        "自定义插件暂不允许导入 builtin 运行时"
    );
}

#[test]
fn user_plugin_ids_cannot_escape_the_plugin_directory() {
    assert_eq!(check_user_plugin_id("dev.vvicat.echo"), Ok(()));
    assert_eq!(check_user_plugin_id(" "), Err(PluginError::InvalidPluginId));
    assert_eq!(check_user_plugin_id("../etc"), Err(PluginError::InvalidPluginId));
    assert_eq!(check_user_plugin_id("a/b"), Err(PluginError::InvalidPluginId));
    assert_eq!(installing_dir_name("dev.x"), ".dev.x.installing");
}

#[test]
fn builtin_clipboard_command_is_answered_by_the_host() {
    let p = plugin(clipboard_builtin(), "/bundled/clip");
    assert_eq!(
        run_builtin_command(&p, "clipboard.open"),
        Ok(RpcResult::Text {
            text: "使用 Alt + V 打开系统剪贴板。".into()
        })
    );
    let err = run_builtin_command(&p, "clipboard.clear").unwrap_err();
    assert_eq!(
        err,
        PluginError::HostCommandUndeclared {
            plugin_id: "dev.vvicat.system-clipboard".into(),
            command_id: "clipboard.clear".into(),
        }
    );
    assert_eq!(
        err.message(),
        "内置插件 dev.vvicat.system-clipboard 未声明宿主命令: clipboard.clear"
    );

    let mut m = clipboard_builtin();
    m.id = "dev.other".into();
    let other = plugin(m, "/bundled/other");
    assert_eq!(
        run_builtin_command(&other, "clipboard.open"),
        Err(PluginError::UnknownBuiltinCommand {
            command_id: "clipboard.open".into()
        })
    );

    let mut m = clipboard_builtin();
    m.builtin = None;
    let bare = plugin(m, "/bundled/bare");
    assert_eq!(
        run_builtin_command(&bare, "clipboard.open"),
        Err(PluginError::BuiltinBridgeMissing {
            plugin_id: "dev.vvicat.system-clipboard".into()
        })
    );
}

#[test]
fn commands_are_planned_by_runtime() {
    let shell = plugin(sample_manifest(PluginRuntime::Shell, "main.sh"), "/p/echo");
    assert_eq!(
        plan_plugin_command(&shell, "echo.run"),
        Ok(CommandPlan::Script { program: "sh".into() })
    );
    let node = plugin(sample_manifest(PluginRuntime::Node, "main.js"), "/p/echo");
    assert_eq!(
        plan_plugin_command(&node, "echo.run"),
        Ok(CommandPlan::Script { program: "node".into() })
    );
    let err = plan_plugin_command(&shell, "nope").unwrap_err();
    assert_eq!(
        err,
        PluginError::CommandNotFound {
            command_id: "nope".into()
        }
    );
    assert_eq!(err.message(), "插件命令不存在: nope");
    let builtin = plugin(clipboard_builtin(), "/bundled/clip");
    assert_eq!(
        plan_plugin_command(&builtin, "clipboard.open"),
        Ok(CommandPlan::Reply(RpcResult::Text {
            text: "使用 Alt + V 打开系统剪贴板。".into()
        }))
    );
}

#[test]
fn views_and_marketplace_entries_of_plugins() {
    let p = plugin(sample_manifest(PluginRuntime::Shell, "main.sh"), "/app/bundled/echo");
    let view = plugin_to_view(p.clone(), "/app/bundled");
    assert!(view.bundled);
    assert_eq!(view.runtime, "shell");
    assert_eq!(view.commands, 1);
    assert_eq!(view.id, "dev.vvicat.echo");
    let user = plugin(sample_manifest(PluginRuntime::Shell, "main.sh"), "/app/bundledx/echo");
    assert!(!plugin_to_view(user, "/app/bundled").bundled);
    let builtin = plugin(clipboard_builtin(), "/elsewhere");
    assert!(plugin_to_view(builtin, "/app/bundled").bundled);

    let entries = bundled_marketplace(vec![p]);
    assert_eq!(entries.len(), 1);
    assert!(entries[0].bundled);
    assert_eq!(entries[0].runtime, "shell");
    assert_eq!(entries[0].download_url, "");
    assert_eq!(entries[0].sha256, None);
    assert_eq!(entries[0].permissions, vec!["clipboard".to_string()]);
    assert_eq!(runtime_name(PluginRuntime::Node), "node");
    assert_eq!(runtime_name(PluginRuntime::Builtin), "builtin");
}

#[test]
fn import_requests_pick_their_source() {
    let pasted = CustomPluginImportRequest {
        content: "[]".into(),
        url: "https://a/b.json".into(),
    };
    assert_eq!(import_source(&pasted), Ok(ImportSource::Content("[]".into())));
    let remote = CustomPluginImportRequest {
        content: "  ".into(),
        url: " https://a/b.json ".into(),
    };
    assert_eq!(
        import_source(&remote),
        Ok(ImportSource::Url("https://a/b.json".into()))
    );
    let empty = CustomPluginImportRequest {
        content: String::new(),
        url: " ".into(),
    };
    assert_eq!(
        import_source(&empty),
        Err("请选择本地 JSON 文件或输入远程 URL".to_string())
    );
    assert_eq!(
        check_import_list(&vec![]),
        Err("配置文件中没有插件".to_string())
    );
    assert_eq!(
        check_import_list(&vec![sample_manifest(PluginRuntime::Shell, "main.sh")]),
        Ok(())
    );
}

#[test]
fn plugins_are_found_by_id_and_actions_planned() {
    let mut second = sample_manifest(PluginRuntime::Shell, "main.sh");
    second.id = "dev.second".into();
    second.permissions = vec!["shell".into(), "open-url".into()];
    let plugins = vec![
        plugin(sample_manifest(PluginRuntime::Shell, "main.sh"), "/p/echo"),
        plugin(second, "/p/second"),
    ];
    assert_eq!(find_plugin(&plugins, "dev.second"), Ok(1));
    assert_eq!(find_plugin(&plugins, "nope"), Err("插件不存在: nope".to_string()));

    assert_eq!(
        plan_plugin_action(&plugins[0], RpcAction::Copy { value: "hi".into() }),
        Ok(PlannedAction::CopyText("hi".into()))
    );
    assert_eq!(
        plan_plugin_action(&plugins[0], RpcAction::OpenUrl { url: "https://a".into() }),
        Err("插件 dev.vvicat.echo 未声明权限: open-url".to_string())
    );
    assert_eq!(
        plan_plugin_action(&plugins[1], RpcAction::OpenUrl { url: "https://a".into() }),
        Ok(PlannedAction::OpenUrl("https://a".into()))
    );
    assert_eq!(
        plan_plugin_action(&plugins[1], RpcAction::Shell { command: "ls".into() }),
        Err("暂不允许插件通过结果动作执行 shell".to_string())
    );
    assert_eq!(
        RpcAction::Copy { value: "x".into() }.required_permissions(),
        vec!["clipboard", "clipboard:write"]
    );
}

#[test]
fn query_scores_against_lowered_texts() {
    let texts: Vec<String> = vec!["echo".into(), "回显文本".into(), "say echo now".into()];
    assert_eq!(score_texts("", &texts), 1);
    assert_eq!(score_texts("echo", &texts), 100);
    assert_eq!(score_texts("ec", &texts), 70);
    assert_eq!(score_texts("say", &texts), 70);
    assert_eq!(score_texts("now", &texts), 40);
    assert_eq!(score_texts("xyz", &texts), 0);
    assert_eq!(score_texts("a", &Vec::new()), 0);
}

#[test]
fn checksums_match_with_or_without_prefix() {
    assert!(checksum_matches("abc123", "abc123"));
    assert!(checksum_matches("abc123", "sha256:abc123"));
    assert!(!checksum_matches("abc123", "sha256:abc124"));
    assert!(!checksum_matches("abc123", "SHA256:abc123"));
    assert!(checksum_matches("", "sha256:"));
}

#[test]
fn search_ignores_ascii_case_and_padding() {
    let plugins = vec![
        plugin(one_command("dev.c", "Cee", "zz", "say echo"), "/p/c"),
        plugin(one_command("dev.b", "Bee", "bee", "Echo things"), "/p/b"),
        plugin(sample_manifest(PluginRuntime::Shell, "main.sh"), "/p/echo"),
    ];
    for q in ["echo", "Ec", "things", "bee", "", "say e"] {
        let padded = format!("  {}  ", q.to_ascii_uppercase());
        assert_eq!(search_commands(&plugins, q), search_commands(&plugins, &padded));
    }
}
