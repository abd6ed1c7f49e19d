use vstd::prelude::*;

use crate::archive::{archive_writes, are_entry_writes, zip_listing, ArchiveWrite};
use crate::digest::{hex_lower, sha256, sha256_hex};
use crate::ranking::{is_ranked, lemma_ranked, rank, ranked, Ranked};
use crate::text::{
    ascii_lowered, ascii_uppered, blank, chars_of, concat, contains, contains_char, copy_strings,
    first_non_blank, lemma_trim_bounds, occurs_at,
    has_char, has_parent_ref, is_ascii_text, is_blank, is_infix_of, is_prefix_of, join, joined,
    lemma_lowered_uppered, lemma_trimmed_padded, lemma_trimmed_uppered, lemma_lex_irreflexive, lemma_lex_total, lemma_lex_transitive, less_than, lex_lt, lowercase,
    owned, parent_ref, push_char, same, starts_with, to_lowercase, trim, trimmed, views,
};

verus! {

/// How a plugin's commands are run.
#[derive(Clone, Copy, Debug, PartialEq, Eq, Structural)]
pub enum PluginRuntime {
    Node,
    Shell,
    Builtin,
}

/// A command that a plugin offers to the launcher.
#[derive(Clone, Debug, PartialEq, Eq)]
pub struct PluginCommand {
    pub id: String,
    pub title: String,
    pub keyword: String,
    pub input: String,
}

/// The host bridge of a plugin shipped with the application.
#[derive(Clone, Debug, PartialEq, Eq)]
pub struct BuiltinPluginSpec {
    pub module: String,
    pub bridge: String,
    pub host_commands: Vec<String>,
}

/// The front-end files of a plugin, relative to its directory.
#[derive(Clone, Debug, PartialEq, Eq)]
pub struct PluginUiSpec {
    pub window: String,
    pub settings: String,
    pub styles: String,
}

/// The content of a plugin's `plugin.json`.
#[derive(Clone, Debug, PartialEq, Eq)]
pub struct PluginManifest {
    pub id: String,
    pub name: String,
    pub version: String,
    pub description: String,
    pub icon: String,
    pub keywords: Vec<String>,
    pub categories: Vec<String>,
    pub runtime: PluginRuntime,
    pub entry: String,
    pub builtin: Option<BuiltinPluginSpec>,
    pub ui: Option<PluginUiSpec>,
    pub permissions: Vec<String>,
    pub commands: Vec<PluginCommand>,
}

/// A plugin found on disk: its manifest and its directory.
#[derive(Clone, Debug, PartialEq, Eq)]
pub struct InstalledPlugin {
    pub manifest: PluginManifest,
    pub dir: String,
}

/// A plugin command that matched a search, with its score.
#[derive(Clone, Debug, PartialEq, Eq)]
pub struct CommandMatch {
    pub plugin_id: String,
    pub plugin_name: String,
    pub command_id: String,
    pub title: String,
    pub keyword: String,
    pub score: u16,
}

/// What a plugin hands back after running a command.
#[derive(Clone, Debug, PartialEq, Eq)]
pub enum RpcResult {
    Text { text: String },
    Markdown { markdown: String },
    List { items: Vec<RpcListItem> },
    Error { message: String },
}

/// One row of a list result.
#[derive(Clone, Debug, PartialEq, Eq)]
pub struct RpcListItem {
    pub title: String,
    pub subtitle: String,
    pub action: Option<RpcAction>,
}

/// An action that a result row asks the host to perform.
#[derive(Clone, Debug, PartialEq, Eq)]
pub enum RpcAction {
    Copy { value: String },
    OpenUrl { url: String },
    Shell { command: String },
}

/// A plugin offered by the marketplace.
#[derive(Clone, Debug, PartialEq, Eq)]
pub struct MarketplaceEntry {
    pub id: String,
    pub name: String,
    pub version: String,
    pub description: String,
    pub icon: String,
    pub runtime: String,
    pub entry: String,
    pub bundled: bool,
    pub download_url: String,
    pub sha256: Option<String>,
    pub categories: Vec<String>,
    pub permissions: Vec<String>,
}

/// The user's answer to a plugin's permission request.
#[derive(Clone, Copy, Debug, PartialEq, Eq, Structural)]
pub enum PermissionDecision {
    Approved,
    Denied,
}

/// Why a manifest is refused.
#[derive(Clone, Copy, Debug, PartialEq, Eq, Structural)]
pub enum ManifestError {
    BlankId,
    BlankName,
    EntryParentPath,
    IconParentPath,
    UiParentPath,
    BuiltinSpecMissing,
    BuiltinSpecBlank,
    BuiltinParentPath,
    BuiltinHostCommandsMissing,
    CommandsMissing,
}

/// Why a plugin operation is refused.
#[derive(Clone, Debug, PartialEq, Eq)]
pub enum PluginError {
    InvalidManifest(ManifestError),
    BuiltinImportRefused,
    InvalidPluginId,
    PermissionApprovalRequired { permissions: Vec<String> },
    ChecksumMismatch,
    MarketplaceIdMismatch,
    CommandNotFound { command_id: String },
    BuiltinBridgeMissing { plugin_id: String },
    HostCommandUndeclared { plugin_id: String, command_id: String },
    UnknownBuiltinCommand { command_id: String },
    PermissionNotDeclared { plugin_id: String, required: Vec<String> },
    InvalidArchive { message: String },
}

/// The UI files of a plugin name a parent directory.
pub open spec fn ui_has_parent_ref(ui: PluginUiSpec) -> bool {
    has_parent_ref(ui.window@) || has_parent_ref(ui.settings@) || has_parent_ref(ui.styles@)
}

/// The first rule that a manifest breaks, in the order they are checked;
/// `None` when it breaks none.
pub open spec fn manifest_problem(m: PluginManifest) -> Option<ManifestError> {
    if is_blank(m.id@) {
        Some(ManifestError::BlankId)
    } else if is_blank(m.name@) {
        Some(ManifestError::BlankName)
    } else if has_parent_ref(m.entry@) {
        Some(ManifestError::EntryParentPath)
    } else if has_parent_ref(m.icon@) {
        Some(ManifestError::IconParentPath)
    } else if m.ui is Some && ui_has_parent_ref(m.ui->0) {
        Some(ManifestError::UiParentPath)
    } else if m.runtime == PluginRuntime::Builtin && m.builtin is None {
        Some(ManifestError::BuiltinSpecMissing)
    } else if m.runtime == PluginRuntime::Builtin && (is_blank(m.builtin->0.module@) || is_blank(
        m.builtin->0.bridge@,
    )) {
        Some(ManifestError::BuiltinSpecBlank)
    } else if m.runtime == PluginRuntime::Builtin && (has_parent_ref(m.builtin->0.module@)
        || has_parent_ref(m.builtin->0.bridge@)) {
        Some(ManifestError::BuiltinParentPath)
    } else if m.runtime == PluginRuntime::Builtin && m.builtin->0.host_commands.len() == 0 {
        Some(ManifestError::BuiltinHostCommandsMissing)
    } else if m.commands.len() == 0 {
        Some(ManifestError::CommandsMissing)
    } else {
        None
    }
}

/// Checks a manifest against the rules every plugin must meet: a non-blank
/// id and name, no parent-directory references in the entry, icon, UI
/// files or builtin bridge, a complete builtin bridge for builtin plugins,
/// and at least one command.
pub fn validate_manifest(manifest: &PluginManifest) -> (r: Result<(), ManifestError>)
    ensures
        r == match manifest_problem(*manifest) {
            Some(e) => Err(e),
            None => Ok(()),
        },
{
    if blank(manifest.id.as_str()) {
        return Err(ManifestError::BlankId);
    }
    if blank(manifest.name.as_str()) {
        return Err(ManifestError::BlankName);
    }
    if parent_ref(manifest.entry.as_str()) {
        return Err(ManifestError::EntryParentPath);
    }
    if parent_ref(manifest.icon.as_str()) {
        return Err(ManifestError::IconParentPath);
    }
    if let Some(ui) = &manifest.ui {
        if parent_ref(ui.window.as_str()) || parent_ref(ui.settings.as_str()) || parent_ref(
            ui.styles.as_str(),
        ) {
            return Err(ManifestError::UiParentPath);
        }
    }
    if manifest.runtime == PluginRuntime::Builtin {
        match &manifest.builtin {
            None => {
                return Err(ManifestError::BuiltinSpecMissing);
            },
            Some(spec) => {
                if blank(spec.module.as_str()) || blank(spec.bridge.as_str()) {
                    return Err(ManifestError::BuiltinSpecBlank);
                }
                if parent_ref(spec.module.as_str()) || parent_ref(spec.bridge.as_str()) {
                    return Err(ManifestError::BuiltinParentPath);
                }
                if spec.host_commands.len() == 0 {
                    return Err(ManifestError::BuiltinHostCommandsMissing);
                }
            },
        }
    }
    if manifest.commands.len() == 0 {
        return Err(ManifestError::CommandsMissing);
    }
    Ok(())
}

/// The text shown for a refused manifest.
pub open spec fn manifest_error_text(e: ManifestError) -> Seq<char> {
    match e {
        ManifestError::BlankId => "插件 id 不能为空"@,
        ManifestError::BlankName => "插件名称不能为空"@,
        ManifestError::EntryParentPath => "插件入口不能包含上级目录"@,
        ManifestError::IconParentPath => "插件图标路径不能包含上级目录"@,
        ManifestError::UiParentPath => "插件界面路径不能包含上级目录"@,
        ManifestError::BuiltinSpecMissing => "内置插件必须声明 builtin 配置"@,
        ManifestError::BuiltinSpecBlank => "内置插件 builtin.module 和 builtin.bridge 不能为空"@,
        ManifestError::BuiltinParentPath => "内置插件 builtin 路径不能包含上级目录"@,
        ManifestError::BuiltinHostCommandsMissing => "内置插件至少需要声明一个宿主命令"@,
        ManifestError::CommandsMissing => "插件至少需要声明一个命令"@,
    }
}

impl ManifestError {
    /// The text shown for this refusal.
    pub fn message(&self) -> (r: String)
        ensures
            r@ == manifest_error_text(*self),
    {
        let text = match self {
            ManifestError::BlankId => "插件 id 不能为空",
            ManifestError::BlankName => "插件名称不能为空",
            ManifestError::EntryParentPath => "插件入口不能包含上级目录",
            ManifestError::IconParentPath => "插件图标路径不能包含上级目录",
            ManifestError::UiParentPath => "插件界面路径不能包含上级目录",
            ManifestError::BuiltinSpecMissing => "内置插件必须声明 builtin 配置",
            ManifestError::BuiltinSpecBlank => "内置插件 builtin.module 和 builtin.bridge 不能为空",
            ManifestError::BuiltinParentPath => "内置插件 builtin 路径不能包含上级目录",
            ManifestError::BuiltinHostCommandsMissing => "内置插件至少需要声明一个宿主命令",
            ManifestError::CommandsMissing => "插件至少需要声明一个命令",
        };
        owned(text)
    }
}

/// The permissions any one of which lets a plugin ask for an action.
pub open spec fn permission_names(action: RpcAction) -> Seq<Seq<char>> {
    match action {
        RpcAction::Copy { .. } => seq!["clipboard"@, "clipboard:write"@],
        RpcAction::OpenUrl { .. } => seq!["open-url"@],
        RpcAction::Shell { .. } => seq!["shell"@],
    }
}

impl RpcAction {
    /// The permissions any one of which lets a plugin ask for this action.
    pub fn required_permissions(&self) -> (r: Vec<&'static str>)
        ensures
            r@.map_values(|s: &str| s@) == permission_names(*self),
    {
        let r = match self {
            RpcAction::Copy { .. } => vec!["clipboard", "clipboard:write"],
            RpcAction::OpenUrl { .. } => vec!["open-url"],
            RpcAction::Shell { .. } => vec!["shell"],
        };
        assert(r@.map_values(|s: &str| s@) =~= permission_names(*self));
        r
    }
}

/// The plugin declares a permission that allows the action.
pub open spec fn permits(m: PluginManifest, action: RpcAction) -> bool {
    exists|i: int, j: int|
        0 <= i < permission_names(action).len() && 0 <= j < m.permissions.len()
            && #[trigger] permission_names(action)[i] == #[trigger] m.permissions@[j]@
}

/// Whether the plugin has declared one of the permissions the action needs.
pub fn action_allowed(plugin: &InstalledPlugin, action: &RpcAction) -> (r: bool)
    ensures
        r == permits(plugin.manifest, *action),
{
    let required = action.required_permissions();
    let ghost names = permission_names(*action);
    let perms = &plugin.manifest.permissions;
    let mut i: usize = 0;
    while i < required.len()
        invariant
            required@.map_values(|s: &str| s@) == names,
            names == permission_names(*action),
            perms == plugin.manifest.permissions,
            i <= required.len(),
            forall|a: int, b: int|
                0 <= a < i && 0 <= b < perms.len() ==> #[trigger] names[a] != #[trigger] perms@[b]@,
        decreases required.len() - i,
    {
        let mut j: usize = 0;
        while j < perms.len()
            invariant
                required@.map_values(|s: &str| s@) == names,
                names == permission_names(*action),
                perms == plugin.manifest.permissions,
                names.len() == required.len(),
                i < required.len(),
                j <= perms.len(),
                forall|a: int, b: int|
                    0 <= a < i && 0 <= b < perms.len() ==> #[trigger] names[a]
                        != #[trigger] perms@[b]@,
                forall|b: int| 0 <= b < j ==> names[i as int] != #[trigger] perms@[b]@,
            decreases perms.len() - j,
        {
            assert(names[i as int] == required@[i as int]@);
            if same(required[i], perms[j].as_str()) {
                assert(permission_names(*action)[i as int]
                    == plugin.manifest.permissions@[j as int]@);
                return true;
            }
            j = j + 1;
        }
        i = i + 1;
    }
    false
}

/// The text shown for a refused plugin operation.
pub open spec fn plugin_error_text(e: PluginError) -> Seq<char> {
    match e {
        PluginError::InvalidManifest(m) => manifest_error_text(m),
        PluginError::BuiltinImportRefused => "自定义插件暂不允许导入 builtin 运行时"@,
        PluginError::InvalidPluginId => "插件 id 不合法"@,
        PluginError::PermissionApprovalRequired { permissions } => "安装插件需要确认权限: "@
            + joined(views(permissions@), ", "@),
        PluginError::ChecksumMismatch => "插件包校验失败"@,
        PluginError::MarketplaceIdMismatch => "市场插件 id 与清单不一致"@,
        PluginError::CommandNotFound { command_id } => "插件命令不存在: "@ + command_id@,
        PluginError::BuiltinBridgeMissing { plugin_id } => "内置插件缺少 builtin 桥接声明: "@
            + plugin_id@,
        PluginError::HostCommandUndeclared { plugin_id, command_id } => "内置插件 "@ + plugin_id@
            + " 未声明宿主命令: "@ + command_id@,
        PluginError::UnknownBuiltinCommand { command_id } => "未知内置插件命令: "@ + command_id@,
        PluginError::PermissionNotDeclared { plugin_id, required } => "插件 "@ + plugin_id@
            + " 未声明权限: "@ + joined(views(required@), " 或 "@),
        PluginError::InvalidArchive { message } => message@,
    }
}

impl PluginError {
    /// The text shown for this refusal.
    pub fn message(&self) -> (r: String)
        ensures
            r@ == plugin_error_text(*self),
    {
        match self {
            PluginError::InvalidManifest(m) => m.message(),
            PluginError::BuiltinImportRefused => owned("自定义插件暂不允许导入 builtin 运行时"),
            PluginError::InvalidPluginId => owned("插件 id 不合法"),
            PluginError::PermissionApprovalRequired { permissions } => {
                let mut r = owned("安装插件需要确认权限: ");
                let list = join(permissions, ", ");
                r.append(list.as_str());
                r
            },
            PluginError::ChecksumMismatch => owned("插件包校验失败"),
            PluginError::MarketplaceIdMismatch => owned("市场插件 id 与清单不一致"),
            PluginError::CommandNotFound { command_id } => concat(
                "插件命令不存在: ",
                command_id.as_str(),
            ),
            PluginError::BuiltinBridgeMissing { plugin_id } => concat(
                "内置插件缺少 builtin 桥接声明: ",
                plugin_id.as_str(),
            ),
            PluginError::HostCommandUndeclared { plugin_id, command_id } => {
                let mut r = concat("内置插件 ", plugin_id.as_str());
                r.append(" 未声明宿主命令: ");
                r.append(command_id.as_str());
                r
            },
            PluginError::UnknownBuiltinCommand { command_id } => concat(
                "未知内置插件命令: ",
                command_id.as_str(),
            ),
            PluginError::PermissionNotDeclared { plugin_id, required } => {
                let mut r = concat("插件 ", plugin_id.as_str());
                r.append(" 未声明权限: ");
                let list = join(required, " 或 ");
                r.append(list.as_str());
                r
            },
            PluginError::InvalidArchive { message } => message.clone(),
        }
    }
}

/// Owned copies of static strings.
fn owned_all(v: &Vec<&'static str>) -> (r: Vec<String>)
    ensures
        views(r@) == v@.map_values(|s: &str| s@),
{
    let mut out: Vec<String> = Vec::new();
    let mut i: usize = 0;
    while i < v.len()
        invariant
            i <= v.len(),
            views(out@) == v@.map_values(|s: &str| s@).take(i as int),
        decreases v.len() - i,
    {
        let s = owned(v[i]);
        let ghost before = out@;
        out.push(s);
        assert(views(out@) =~= views(before).push(s@));
        assert(v@.map_values(|s: &str| s@).take(i + 1) =~= v@.map_values(|s: &str| s@).take(
            i as int,
        ).push(v@[i as int]@));
        i = i + 1;
    }
    assert(v@.map_values(|s: &str| s@).take(v.len() as int) =~= v@.map_values(|s: &str| s@));
    out
}

/// Refuses the action unless the plugin has declared one of the
/// permissions it needs; the refusal names the plugin and those
/// permissions.
pub fn ensure_action_allowed(plugin: &InstalledPlugin, action: &RpcAction) -> (r: Result<
    (),
    PluginError,
>)
    ensures
        match r {
            Ok(()) => permits(plugin.manifest, *action),
            Err(PluginError::PermissionNotDeclared { plugin_id, required }) => {
                &&& !permits(plugin.manifest, *action)
                &&& plugin_id@ == plugin.manifest.id@
                &&& views(required@) == permission_names(*action)
            },
            Err(_) => false,
        },
{
    if action_allowed(plugin, action) {
        return Ok(());
    }
    let required = owned_all(&action.required_permissions());
    Err(PluginError::PermissionNotDeclared { plugin_id: plugin.manifest.id.clone(), required })
}

impl Ranked for CommandMatch {
    /// Higher scores first; equal scores by title.
    open spec fn precedes(self, other: Self) -> bool {
        self.score > other.score || (self.score == other.score && lex_lt(self.title@, other.title@))
    }

    proof fn lemma_precedes_asymmetric(a: Self, b: Self) {
        if a.score == b.score && lex_lt(a.title@, b.title@) && lex_lt(b.title@, a.title@) {
            lemma_lex_transitive(a.title@, b.title@, a.title@);
            lemma_lex_irreflexive(a.title@);
        }
    }

    proof fn lemma_not_precedes_transitive(a: Self, b: Self, c: Self) {
        if a.score == b.score && b.score == c.score && lex_lt(a.title@, c.title@) {
            lemma_lex_total(a.title@, b.title@);
            if lex_lt(b.title@, a.title@) {
                lemma_lex_transitive(b.title@, a.title@, c.title@);
            }
        }
    }

    fn goes_before(&self, other: &Self) -> (r: bool) {
        self.score > other.score || (self.score == other.score && less_than(
            self.title.as_str(),
            other.title.as_str(),
        ))
    }
}

/// The lower-cased texts that a search query is matched against: the
/// command's keyword and title, the plugin's name, description and
/// keywords joined by spaces.
pub open spec fn haystacks(m: PluginManifest, c: PluginCommand) -> Seq<Seq<char>> {
    seq![
        lowercase(c.keyword@),
        lowercase(c.title@),
        lowercase(m.name@),
        lowercase(m.description@),
        lowercase(joined(views(m.keywords@), " "@)),
    ]
}

/// The score of a query against lower-cased texts, the first of which is
/// the keyword: 1 for an empty query, 100 when it is the keyword, 70 when a
/// text starts with it, 40 when a text contains it, 0 otherwise.
pub open spec fn texts_score(q: Seq<char>, hs: Seq<Seq<char>>) -> u16 {
    if q.len() == 0 {
        1
    } else if hs.len() > 0 && hs[0] == q {
        100
    } else if exists|i: int| 0 <= i < hs.len() && is_prefix_of(q, #[trigger] hs[i]) {
        70
    } else if exists|i: int| 0 <= i < hs.len() && is_infix_of(q, #[trigger] hs[i]) {
        40
    } else {
        0
    }
}

/// The score of a command for a normalized (trimmed, lower-cased) query:
/// that of the query against the command's texts (see `haystacks`), whose
/// first is its lower-cased keyword.
pub open spec fn command_score(m: PluginManifest, c: PluginCommand, q: Seq<char>) -> u16 {
    texts_score(q, haystacks(m, c))
}

/// The match reported for a command.
pub open spec fn command_match(m: PluginManifest, c: PluginCommand, score: u16) -> CommandMatch {
    CommandMatch {
        plugin_id: m.id,
        plugin_name: m.name,
        command_id: c.id,
        title: c.title,
        keyword: c.keyword,
        score,
    }
}

/// The matches of the given commands of one plugin, in order.
pub open spec fn plugin_candidates(m: PluginManifest, cmds: Seq<PluginCommand>, q: Seq<char>) -> Seq<
    CommandMatch,
>
    decreases cmds.len(),
{
    if cmds.len() == 0 {
        Seq::empty()
    } else {
        let prev = plugin_candidates(m, cmds.drop_last(), q);
        let s = command_score(m, cmds.last(), q);
        if s > 0 {
            prev.push(command_match(m, cmds.last(), s))
        } else {
            prev
        }
    }
}

/// The matches of all commands of all plugins, plugin by plugin, in order.
pub open spec fn search_candidates(plugins: Seq<InstalledPlugin>, q: Seq<char>) -> Seq<
    CommandMatch,
>
    decreases plugins.len(),
{
    if plugins.len() == 0 {
        Seq::empty()
    } else {
        search_candidates(plugins.drop_last(), q) + plugin_candidates(
            plugins.last().manifest,
            plugins.last().manifest.commands@,
            q,
        )
    }
}

/// The query as it is matched: trimmed and lower-cased.
pub open spec fn normalized_query(query: Seq<char>) -> Seq<char> {
    lowercase(trimmed(query))
}

/// Some text in `hs` starts with `q`.
fn any_starts_with(hs: &Vec<String>, q: &str) -> (r: bool)
    ensures
        r == exists|i: int| 0 <= i < hs@.len() && is_prefix_of(q@, #[trigger] hs@[i]@),
{
    let mut i: usize = 0;
    while i < hs.len()
        invariant
            i <= hs.len(),
            forall|k: int| 0 <= k < i ==> !is_prefix_of(q@, #[trigger] hs@[k]@),
        decreases hs.len() - i,
    {
        if starts_with(hs[i].as_str(), q) {
            return true;
        }
        i = i + 1;
    }
    false
}

/// Some text in `hs` contains `q`.
fn any_contains(hs: &Vec<String>, q: &str) -> (r: bool)
    ensures
        r == exists|i: int| 0 <= i < hs@.len() && is_infix_of(q@, #[trigger] hs@[i]@),
{
    let mut i: usize = 0;
    while i < hs.len()
        invariant
            i <= hs.len(),
            forall|k: int| 0 <= k < i ==> !is_infix_of(q@, #[trigger] hs@[k]@),
        decreases hs.len() - i,
    {
        if contains(hs[i].as_str(), q) {
            return true;
        }
        i = i + 1;
    }
    false
}

/// The score of a normalized query against lower-cased texts, the first
/// of which is the keyword (see `texts_score`).
pub fn score_texts(query: &str, haystacks: &Vec<String>) -> (r: u16)
    ensures
        r == texts_score(query@, views(haystacks@)),
{
    let ghost hs = views(haystacks@);
    if query.is_empty() {
        return 1;
    }
    if haystacks.len() > 0 && same(haystacks[0].as_str(), query) {
        return 100;
    }
    if any_starts_with(haystacks, query) {
        proof {
            let i = choose|i: int|
                0 <= i < haystacks@.len() && is_prefix_of(query@, #[trigger] haystacks@[i]@);
            assert(is_prefix_of(query@, hs[i]));
        }
        return 70;
    }
    if any_contains(haystacks, query) {
        proof {
            let i = choose|i: int|
                0 <= i < haystacks@.len() && is_infix_of(query@, #[trigger] haystacks@[i]@);
            assert(is_infix_of(query@, hs[i]));
        }
        return 40;
    }
    proof {
        assert forall|i: int| 0 <= i < hs.len() implies !is_prefix_of(query@, #[trigger] hs[i]) by {
            assert(hs[i] == haystacks@[i]@);
        }
        assert forall|i: int| 0 <= i < hs.len() implies !is_infix_of(query@, #[trigger] hs[i]) by {
            assert(hs[i] == haystacks@[i]@);
        }
    }
    0
}

/// The score of one command for a normalized query.
fn score_command(m: &PluginManifest, c: &PluginCommand, q: &String) -> (r: u16)
    ensures
        r == command_score(*m, *c, q@),
{
    let joined_keywords = join(&m.keywords, " ");
    let mut hs: Vec<String> = Vec::new();
    hs.push(to_lowercase(c.keyword.as_str()));
    hs.push(to_lowercase(c.title.as_str()));
    hs.push(to_lowercase(m.name.as_str()));
    hs.push(to_lowercase(m.description.as_str()));
    hs.push(to_lowercase(joined_keywords.as_str()));
    assert(views(hs@) =~= haystacks(*m, *c));
    score_texts(q.as_str(), &hs)
}

/// Trimming ASCII text leaves ASCII text.
proof fn lemma_trimmed_ascii(s: Seq<char>)
    ensures
        is_ascii_text(s) ==> is_ascii_text(trimmed(s)),
{
    if is_ascii_text(s) && !is_blank(s) {
        lemma_trim_bounds(s);
        let t = trimmed(s);
        assert forall|i: int| 0 <= i < t.len() implies (#[trigger] t[i] as u32) < 128 by {
            assert(t[i] == s[first_non_blank(s) + i]);
        }
    }
}

/// Searches the commands of all plugins. Each command gets a score for
/// the trimmed, lower-cased query (see `command_score`); those that score
/// are returned, highest score first, equal scores ordered by title, and
/// otherwise in plugin and command order.
pub fn search_commands(plugins: &[InstalledPlugin], query: &str) -> (r: Vec<CommandMatch>)
    ensures
        r@ == ranked(search_candidates(plugins@, normalized_query(query@))),
        is_blank(query@) ==> normalized_query(query@).len() == 0,
        is_ascii_text(query@) ==> normalized_query(query@) == ascii_lowered(trimmed(query@)),
        forall|i: int, j: int|
            0 <= i < j < r@.len() ==> (#[trigger] r@[i]).score >= (#[trigger] r@[j]).score && (
            r@[i].score == r@[j].score ==> !lex_lt(r@[j].title@, r@[i].title@)),
{
    let trimmed_query = trim(query);
    proof {
        lemma_trimmed_ascii(query@);
    }
    let q = to_lowercase(trimmed_query.as_str());
    let ghost qs = normalized_query(query@);
    let mut matches: Vec<CommandMatch> = Vec::new();
    let mut i: usize = 0;
    while i < plugins.len()
        invariant
            q@ == qs,
            i <= plugins.len(),
            matches@ == search_candidates(plugins@.take(i as int), qs),
        decreases plugins.len() - i,
    {
        let m = &plugins[i].manifest;
        let ghost base = matches@;
        let mut j: usize = 0;
        while j < m.commands.len()
            invariant
                q@ == qs,
                *m == plugins@[i as int].manifest,
                j <= m.commands.len(),
                matches@ == base + plugin_candidates(*m, m.commands@.take(j as int), qs),
            decreases m.commands.len() - j,
        {
            let c = &m.commands[j];
            let score = score_command(m, c, &q);
            proof {
                assert(m.commands@.take(j + 1).drop_last() =~= m.commands@.take(j as int));
                assert(m.commands@.take(j + 1).last() == *c);
            }
            if score > 0 {
                let found = CommandMatch {
                    plugin_id: m.id.clone(),
                    plugin_name: m.name.clone(),
                    command_id: c.id.clone(),
                    title: c.title.clone(),
                    keyword: c.keyword.clone(),
                    score,
                };
                assert(found == command_match(*m, *c, score));
                let ghost before = matches@;
                matches.push(found);
                assert(matches@ =~= before.push(found));
            }
            j = j + 1;
        }
        proof {
            assert(m.commands@.take(m.commands.len() as int) =~= m.commands@);
            assert(plugins@.take(i + 1).drop_last() =~= plugins@.take(i as int));
            assert(plugins@.take(i + 1).last() == plugins@[i as int]);
        }
        i = i + 1;
    }
    assert(plugins@.take(plugins.len() as int) =~= plugins@);
    proof {
        law_matches_sorted_by_score_then_title(matches@);
    }
    rank(matches)
}

impl Ranked for InstalledPlugin {
    /// Ordered by plugin name.
    open spec fn precedes(self, other: Self) -> bool {
        lex_lt(self.manifest.name@, other.manifest.name@)
    }

    proof fn lemma_precedes_asymmetric(a: Self, b: Self) {
        if lex_lt(b.manifest.name@, a.manifest.name@) {
            lemma_lex_transitive(a.manifest.name@, b.manifest.name@, a.manifest.name@);
            lemma_lex_irreflexive(a.manifest.name@);
        }
    }

    proof fn lemma_not_precedes_transitive(a: Self, b: Self, c: Self) {
        if lex_lt(a.manifest.name@, c.manifest.name@) {
            lemma_lex_total(a.manifest.name@, b.manifest.name@);
            if lex_lt(b.manifest.name@, a.manifest.name@) {
                lemma_lex_transitive(b.manifest.name@, a.manifest.name@, c.manifest.name@);
            }
        }
    }

    fn goes_before(&self, other: &Self) -> (r: bool) {
        less_than(self.manifest.name.as_str(), other.manifest.name.as_str())
    }
}

/// Plugins sorted by name; plugins of the same name keep their order.
pub fn sort_plugins_by_name(plugins: Vec<InstalledPlugin>) -> (r: Vec<InstalledPlugin>)
    ensures
        r@ == ranked(plugins@),
        r@.to_multiset() == plugins@.to_multiset(),
        forall|i: int, j: int|
            0 <= i < j < r@.len() ==> !lex_lt(
                #[trigger] r@[j].manifest.name@,
                #[trigger] r@[i].manifest.name@,
            ),
{
    let r = rank(plugins);
    proof {
        law_plugins_sorted_by_name(plugins@);
    }
    r
}

/// Some plugin of `plugins` has the id `id`.
pub open spec fn has_plugin_id(plugins: Seq<InstalledPlugin>, id: Seq<char>) -> bool {
    exists|i: int| 0 <= i < plugins.len() && (#[trigger] plugins[i]).manifest.id@ == id
}

/// The plugins of `user` whose id no plugin of `bundled` has, in order.
pub open spec fn unshadowed(bundled: Seq<InstalledPlugin>, user: Seq<InstalledPlugin>) -> Seq<
    InstalledPlugin,
>
    decreases user.len(),
{
    if user.len() == 0 {
        Seq::empty()
    } else {
        let prev = unshadowed(bundled, user.drop_last());
        if has_plugin_id(bundled, user.last().manifest.id@) {
            prev
        } else {
            prev.push(user.last())
        }
    }
}

/// Whether a plugin with the given id is among `plugins`.
fn contains_plugin_id(plugins: &Vec<InstalledPlugin>, id: &String) -> (r: bool)
    ensures
        r == has_plugin_id(plugins@, id@),
{
    let mut i: usize = 0;
    while i < plugins.len()
        invariant
            i <= plugins.len(),
            forall|k: int| 0 <= k < i ==> (#[trigger] plugins@[k]).manifest.id@ != id@,
        decreases plugins.len() - i,
    {
        if plugins[i].manifest.id == *id {
            return true;
        }
        i = i + 1;
    }
    false
}

/// The plugins available to the launcher, given those loaded from the
/// bundled plugin directory and those loaded from the user's plugin
/// directory: the bundled ones, then the user-installed ones whose id no
/// bundled plugin has (a bundled plugin wins over a user plugin with its
/// id), all sorted by name.
pub fn load_available_plugins_from(bundled: Vec<InstalledPlugin>, user: Vec<InstalledPlugin>) -> (r: Vec<
    InstalledPlugin,
>)
    ensures
        r@ == ranked(bundled@ + unshadowed(bundled@, user@)),
        forall|i: int, j: int|
            0 <= i < j < r@.len() ==> !lex_lt(
                #[trigger] r@[j].manifest.name@,
                #[trigger] r@[i].manifest.name@,
            ),
{
    proof {
        law_plugins_sorted_by_name(bundled@ + unshadowed(bundled@, user@));
    }
    let ghost users = user@;
    let mut rest = user;
    let mut kept: Vec<InstalledPlugin> = Vec::new();
    let ghost mut i: int = 0;
    assert(users.skip(0) =~= users);
    while rest.len() > 0
        invariant
            0 <= i <= users.len(),
            rest@ == users.skip(i),
            kept@ == unshadowed(bundled@, users.take(i)),
        decreases rest.len(),
    {
        let p = rest.remove(0);
        proof {
            assert(p == users[i]);
            assert(users.skip(i).drop_first() =~= users.skip(i + 1));
            assert(users.take(i + 1).drop_last() =~= users.take(i));
            assert(users.take(i + 1).last() == p);
        }
        if !contains_plugin_id(&bundled, &p.manifest.id) {
            kept.push(p);
        }
        proof {
            i = i + 1;
        }
    }
    assert(users.take(i) =~= users);
    let mut all = bundled;
    let ghost b = all@;
    let mut kept_rest = kept;
    let ghost k = kept_rest@;
    all.append(&mut kept_rest);
    assert(all@ =~= b + k);
    rank(all)
}

/// Installing a marketplace plugin that asks for permissions needs the
/// user's approval; one that asks for none is installed either way.
pub fn check_install_permission(entry: &MarketplaceEntry, decision: PermissionDecision) -> (r:
    Result<(), PluginError>)
    ensures
        match r {
            Ok(()) => entry.permissions.len() == 0 || decision == PermissionDecision::Approved,
            Err(PluginError::PermissionApprovalRequired { permissions }) => {
                &&& entry.permissions.len() > 0
                &&& decision != PermissionDecision::Approved
                &&& permissions@ == entry.permissions@
            },
            Err(_) => false,
        },
{
    if entry.permissions.len() > 0 && decision != PermissionDecision::Approved {
        return Err(
            PluginError::PermissionApprovalRequired { permissions: copy_strings(&entry.permissions) },
        );
    }
    Ok(())
}

/// `e` without a leading `sha256:` (`str::strip_prefix`, or `e` itself).
pub open spec fn checksum_text(e: Seq<char>) -> Seq<char> {
    if is_prefix_of("sha256:"@, e) {
        e.skip(7)
    } else {
        e
    }
}

/// Checks a downloaded package against the expected SHA-256 checksum,
/// given as lower-case hexadecimal text with an optional `sha256:` prefix.
pub fn verify_sha256(bytes: &[u8], expected: &str) -> (r: Result<(), PluginError>)
    ensures
        match r {
            Ok(()) => hex_lower(sha256(bytes@)) == checksum_text(expected@),
            Err(e) => e == PluginError::ChecksumMismatch && hex_lower(sha256(bytes@))
                != checksum_text(expected@),
        },
{
    let actual = sha256_hex(bytes);
    if !checksum_matches(actual.as_str(), expected) {
        return Err(PluginError::ChecksumMismatch);
    }
    Ok(())
}

/// Whether the hexadecimal digest `actual` is the expected checksum, given
/// with an optional `sha256:` prefix.
pub fn checksum_matches(actual: &str, expected: &str) -> (r: bool)
    ensures
        r == (actual@ == checksum_text(expected@)),
{
    let prefix = "sha256:";
    proof {
        reveal_strlit("sha256:");
    }
    let normalized = if starts_with(expected, prefix) {
        let cs = chars_of(expected);
        let mut rest = String::new();
        let mut i: usize = 7;
        while i < cs.len()
            invariant
                cs@ == expected@,
                7 <= i <= cs.len(),
                rest@ == expected@.subrange(7, i as int),
            decreases cs.len() - i,
        {
            push_char(&mut rest, cs[i]);
            assert(expected@.subrange(7, i as int).push(expected@[i as int]) =~= expected@.subrange(
                7,
                i + 1,
            ));
            i = i + 1;
        }
        assert(expected@.subrange(7, cs.len() as int) =~= expected@.skip(7));
        rest
    } else {
        owned(expected)
    };
    same(actual, normalized.as_str())
}

/// Decides what installing a downloaded marketplace package writes into
/// the scratch directory `target`: refused first when the entry asks for
/// permissions that were not approved, then when its checksum (if the
/// entry gives one) does not match the bytes, then when the bytes are not a
/// readable zip archive (with the zip crate's error text); otherwise the
/// writes that unpack the archive.
/// Nothing is to be written unless all three checks pass.
pub fn plan_marketplace_unpack(
    entry: &MarketplaceEntry,
    decision: PermissionDecision,
    bytes: &[u8],
    target: &str,
) -> (r: Result<Vec<ArchiveWrite>, PluginError>)
    ensures
        entry.permissions.len() > 0 && decision != PermissionDecision::Approved ==> (r matches Err(
            PluginError::PermissionApprovalRequired { permissions },
        ) && permissions@ == entry.permissions@),
        !(entry.permissions.len() > 0 && decision != PermissionDecision::Approved) ==> {
            let checksum_ok = match entry.sha256 {
                Some(expected) => hex_lower(sha256(bytes@)) == checksum_text(expected@),
                None => true,
            };
            if !checksum_ok {
                r == Err::<Vec<ArchiveWrite>, PluginError>(PluginError::ChecksumMismatch)
            } else {
                match zip_listing(bytes@) {
                    Err(text) => r matches Err(PluginError::InvalidArchive { message }) && message@
                        == text,
                    Ok(l) => r matches Ok(w) && are_entry_writes(target@, l, w@),
                }
            }
        },
{
    match check_install_permission(entry, decision) {
        Ok(()) => {},
        Err(e) => {
            return Err(e);
        },
    }
    if let Some(expected) = &entry.sha256 {
        match verify_sha256(bytes, expected.as_str()) {
            Ok(()) => {},
            Err(e) => {
                return Err(e);
            },
        }
    }
    match archive_writes(bytes, target) {
        Ok(w) => Ok(w),
        Err(message) => Err(PluginError::InvalidArchive { message }),
    }
}

/// How a plugin process ended: fine when it exited successfully, otherwise
/// refused with its trimmed error output.
pub fn plugin_exit_result(success: bool, stderr: &str) -> (r: Result<(), String>)
    ensures
        success ==> r is Ok,
        !success ==> (r matches Err(msg) && msg@ == "插件执行失败: "@ + trimmed(stderr@)),
{
    if success {
        return Ok(());
    }
    let detail = trim(stderr);
    Err(concat("插件执行失败: ", detail.as_str()))
}

/// Checks the manifest found in a downloaded marketplace package: it must
/// be valid and carry the id under which the marketplace lists it.
pub fn check_marketplace_manifest(manifest: &PluginManifest, entry: &MarketplaceEntry) -> (r:
    Result<(), PluginError>)
    ensures
        r == match manifest_problem(*manifest) {
            Some(e) => Err(PluginError::InvalidManifest(e)),
            None => if manifest.id@ == entry.id@ {
                Ok(())
            } else {
                Err(PluginError::MarketplaceIdMismatch)
            },
        },
{
    match validate_manifest(manifest) {
        Err(e) => Err(PluginError::InvalidManifest(e)),
        Ok(()) => {
            if manifest.id == entry.id {
                Ok(())
            } else {
                Err(PluginError::MarketplaceIdMismatch)
            }
        },
    }
}

/// Checks a manifest that the user imports: it must be valid and may not
/// use the builtin runtime, which only bundled plugins may use.
pub fn check_custom_manifest(manifest: &PluginManifest) -> (r: Result<(), PluginError>)
    ensures
        r == match manifest_problem(*manifest) {
            Some(e) => Err(PluginError::InvalidManifest(e)),
            None => if manifest.runtime == PluginRuntime::Builtin {
                Err(PluginError::BuiltinImportRefused)
            } else {
                Ok(())
            },
        },
{
    match validate_manifest(manifest) {
        Err(e) => Err(PluginError::InvalidManifest(e)),
        Ok(()) => {
            if manifest.runtime == PluginRuntime::Builtin {
                Err(PluginError::BuiltinImportRefused)
            } else {
                Ok(())
            }
        },
    }
}

/// A plugin id that may name a directory under the user's plugin root: not
/// blank, without `..` and without `/`.
pub open spec fn is_safe_plugin_id(id: Seq<char>) -> bool {
    !is_blank(id) && !has_parent_ref(id) && !has_char(id, '/')
}

/// Refuses a plugin id that could escape the user's plugin directory.
pub fn check_user_plugin_id(plugin_id: &str) -> (r: Result<(), PluginError>)
    ensures
        r == if is_safe_plugin_id(plugin_id@) {
            Ok(())
        } else {
            Err(PluginError::InvalidPluginId)
        },
{
    if blank(plugin_id) || parent_ref(plugin_id) || contains_char(plugin_id, '/') {
        return Err(PluginError::InvalidPluginId);
    }
    Ok(())
}

/// The name of the scratch directory a package is unpacked into:
/// `.{id}.installing`.
pub fn installing_dir_name(plugin_id: &str) -> (r: String)
    ensures
        r@ == "."@ + plugin_id@ + ".installing"@,
{
    let mut r = concat(".", plugin_id);
    r.append(".installing");
    r
}

/// The lower-case name of a runtime, as manifests spell it.
pub open spec fn runtime_label(rt: PluginRuntime) -> Seq<char> {
    match rt {
        PluginRuntime::Node => "node"@,
        PluginRuntime::Shell => "shell"@,
        PluginRuntime::Builtin => "builtin"@,
    }
}

/// The lower-case name of a runtime.
pub fn runtime_name(rt: PluginRuntime) -> (r: String)
    ensures
        r@ == runtime_label(rt),
{
    match rt {
        PluginRuntime::Node => owned("node"),
        PluginRuntime::Shell => owned("shell"),
        PluginRuntime::Builtin => owned("builtin"),
    }
}

/// Some command of the manifest has the id `id`.
pub open spec fn declares_command(m: PluginManifest, id: Seq<char>) -> bool {
    exists|i: int| 0 <= i < m.commands.len() && (#[trigger] m.commands@[i]).id@ == id
}

/// Some string of `v` equals `s`.
pub open spec fn lists(v: Seq<String>, s: Seq<char>) -> bool {
    exists|i: int| 0 <= i < v.len() && (#[trigger] v[i])@ == s
}

fn list_has(v: &Vec<String>, s: &str) -> (r: bool)
    ensures
        r == lists(v@, s@),
{
    let mut i: usize = 0;
    while i < v.len()
        invariant
            i <= v.len(),
            forall|k: int| 0 <= k < i ==> (#[trigger] v@[k])@ != s@,
        decreases v.len() - i,
    {
        if same(v[i].as_str(), s) {
            return true;
        }
        i = i + 1;
    }
    false
}

/// What the host answers for a command of a builtin plugin: the plugin
/// needs a builtin bridge that lists the command; the clipboard plugin's
/// `clipboard.open` is answered with a hint, any other command is unknown.
pub open spec fn is_builtin_reply(
    plugin: InstalledPlugin,
    command_id: Seq<char>,
    r: Result<RpcResult, PluginError>,
) -> bool {
    match plugin.manifest.builtin {
        None => r matches Err(PluginError::BuiltinBridgeMissing { plugin_id }) && plugin_id
            == plugin.manifest.id,
        Some(spec) => if !lists(spec.host_commands@, command_id) {
            r matches Err(PluginError::HostCommandUndeclared { plugin_id, command_id: c })
                && plugin_id == plugin.manifest.id && c@ == command_id
        } else if plugin.manifest.id@ == "dev.vvicat.system-clipboard"@ && command_id
            == "clipboard.open"@ {
            r matches Ok(RpcResult::Text { text }) && text@ == "使用 Alt + V 打开系统剪贴板。"@
        } else {
            r matches Err(PluginError::UnknownBuiltinCommand { command_id: c }) && c@ == command_id
        },
    }
}

/// Serves a command of a builtin plugin.
pub fn run_builtin_command(plugin: &InstalledPlugin, command_id: &str) -> (r: Result<
    RpcResult,
    PluginError,
>)
    ensures
        is_builtin_reply(*plugin, command_id@, r),
{
    match &plugin.manifest.builtin {
        None => Err(PluginError::BuiltinBridgeMissing { plugin_id: plugin.manifest.id.clone() }),
        Some(spec) => {
            if !list_has(&spec.host_commands, command_id) {
                return Err(
                    PluginError::HostCommandUndeclared {
                        plugin_id: plugin.manifest.id.clone(),
                        command_id: owned(command_id),
                    },
                );
            }
            if same(plugin.manifest.id.as_str(), "dev.vvicat.system-clipboard") && same(
                command_id,
                "clipboard.open",
            ) {
                Ok(RpcResult::Text { text: owned("使用 Alt + V 打开系统剪贴板。") })
            } else {
                Err(PluginError::UnknownBuiltinCommand { command_id: owned(command_id) })
            }
        },
    }
}

/// How a plugin command is carried out: answered by the host, or by
/// running the plugin's entry script with the named program.
#[derive(Clone, Debug, PartialEq, Eq)]
pub enum CommandPlan {
    Reply(RpcResult),
    Script { program: String },
}

/// The program that runs the entry script of a script plugin.
pub open spec fn script_program(rt: PluginRuntime) -> Seq<char> {
    match rt {
        PluginRuntime::Node => "node"@,
        _ => "sh"@,
    }
}

/// Decides how to carry out a plugin command: the command must be declared
/// by the plugin; builtin plugins are answered by the host (see
/// `is_builtin_reply`); node plugins run under `node`, shell plugins under
/// `sh`.
pub fn plan_plugin_command(plugin: &InstalledPlugin, command_id: &str) -> (r: Result<
    CommandPlan,
    PluginError,
>)
    ensures
        !declares_command(plugin.manifest, command_id@) ==> (r matches Err(
            PluginError::CommandNotFound { command_id: c },
        ) && c@ == command_id@),
        declares_command(plugin.manifest, command_id@) && plugin.manifest.runtime
            == PluginRuntime::Builtin ==> match r {
            Ok(CommandPlan::Reply(reply)) => is_builtin_reply(*plugin, command_id@, Ok(reply)),
            Ok(CommandPlan::Script { .. }) => false,
            Err(e) => is_builtin_reply(*plugin, command_id@, Err(e)),
        },
        declares_command(plugin.manifest, command_id@) && plugin.manifest.runtime
            != PluginRuntime::Builtin ==> (r matches Ok(CommandPlan::Script { program })
            && program@ == script_program(plugin.manifest.runtime)),
{
    let cmds = &plugin.manifest.commands;
    let mut found = false;
    let mut i: usize = 0;
    while i < cmds.len()
        invariant
            cmds == plugin.manifest.commands,
            i <= cmds.len(),
            found == exists|k: int| 0 <= k < i && (#[trigger] cmds@[k]).id@ == command_id@,
        decreases cmds.len() - i,
    {
        if same(cmds[i].id.as_str(), command_id) {
            found = true;
        }
        i = i + 1;
    }
    if !found {
        return Err(PluginError::CommandNotFound { command_id: owned(command_id) });
    }
    match plugin.manifest.runtime {
        PluginRuntime::Builtin => match run_builtin_command(plugin, command_id) {
            Ok(reply) => Ok(CommandPlan::Reply(reply)),
            Err(e) => Err(e),
        },
        PluginRuntime::Node => Ok(CommandPlan::Script { program: owned("node") }),
        PluginRuntime::Shell => Ok(CommandPlan::Script { program: owned("sh") }),
    }
}

/// The marketplace entry that lists a bundled plugin.
pub open spec fn is_bundled_entry(p: InstalledPlugin, e: MarketplaceEntry) -> bool {
    &&& e.id == p.manifest.id
    &&& e.name == p.manifest.name
    &&& e.version == p.manifest.version
    &&& e.description == p.manifest.description
    &&& e.icon == p.manifest.icon
    &&& e.runtime@ == runtime_label(p.manifest.runtime)
    &&& e.entry == p.manifest.entry
    &&& e.bundled
    &&& e.download_url@ == Seq::<char>::empty()
    &&& e.sha256 is None
    &&& e.categories == p.manifest.categories
    &&& e.permissions == p.manifest.permissions
}

/// The marketplace entries of the bundled plugins, one per plugin, in order.
pub fn bundled_marketplace(plugins: Vec<InstalledPlugin>) -> (r: Vec<MarketplaceEntry>)
    ensures
        r.len() == plugins.len(),
        forall|i: int| 0 <= i < plugins.len() ==> is_bundled_entry(plugins@[i], #[trigger] r@[i]),
{
    let ghost orig = plugins@;
    let mut rest = plugins;
    let mut out: Vec<MarketplaceEntry> = Vec::new();
    assert(orig.skip(0) =~= orig);
    while rest.len() > 0
        invariant
            out.len() <= orig.len(),
            rest@ == orig.skip(out.len() as int),
            forall|i: int| 0 <= i < out.len() ==> is_bundled_entry(orig[i], #[trigger] out@[i]),
        decreases rest.len(),
    {
        let p = rest.remove(0);
        proof {
            assert(p == orig[out.len() as int]);
            assert(orig.skip(out.len() as int).drop_first() =~= orig.skip(out.len() + 1));
        }
        let m = p.manifest;
        let runtime = runtime_name(m.runtime);
        let e = MarketplaceEntry {
            id: m.id,
            name: m.name,
            version: m.version,
            description: m.description,
            icon: m.icon,
            runtime,
            entry: m.entry,
            bundled: true,
            download_url: String::new(),
            sha256: None,
            categories: m.categories,
            permissions: m.permissions,
        };
        out.push(e);
    }
    out
}

/// `path` lies under `base`, component by component.
pub uninterp spec fn path_within(path: Seq<char>, base: Seq<char>) -> bool;

/// `Path::starts_with`: whether `base` is a leading run of whole components
/// of `path`. Named, not stated: what a component is follows the
/// platform's path syntax.
#[verifier::external_body]
pub(crate) fn path_starts_with(path: &str, base: &str) -> (r: bool)
    ensures
        r == path_within(path@, base@),
{
    std::path::Path::new(path).starts_with(base)
}

/// A plugin as the plugin list shows it.
#[derive(Clone, Debug, PartialEq, Eq)]
pub struct PluginView {
    pub id: String,
    pub name: String,
    pub version: String,
    pub description: String,
    pub icon: String,
    pub runtime: String,
    pub entry: String,
    pub bundled: bool,
    pub categories: Vec<String>,
    pub permissions: Vec<String>,
    pub commands: usize,
}

/// The list view of a plugin: its manifest's fields, the number of its
/// commands, and whether it ships with the application (a builtin plugin,
/// or one under the bundled plugin directory `bundled_root`).
pub fn plugin_to_view(plugin: InstalledPlugin, bundled_root: &str) -> (r: PluginView)
    ensures
        r.id == plugin.manifest.id,
        r.name == plugin.manifest.name,
        r.version == plugin.manifest.version,
        r.description == plugin.manifest.description,
        r.icon == plugin.manifest.icon,
        r.runtime@ == runtime_label(plugin.manifest.runtime),
        r.entry == plugin.manifest.entry,
        r.bundled == (plugin.manifest.runtime == PluginRuntime::Builtin || path_within(
            plugin.dir@,
            bundled_root@,
        )),
        r.categories == plugin.manifest.categories,
        r.permissions == plugin.manifest.permissions,
        r.commands == plugin.manifest.commands.len(),
{
    let bundled = plugin.manifest.runtime == PluginRuntime::Builtin || path_starts_with(
        plugin.dir.as_str(),
        bundled_root,
    );
    let m = plugin.manifest;
    let commands = m.commands.len();
    PluginView {
        id: m.id,
        name: m.name,
        version: m.version,
        description: m.description,
        icon: m.icon,
        runtime: runtime_name(m.runtime),
        entry: m.entry,
        bundled,
        categories: m.categories,
        permissions: m.permissions,
        commands,
    }
}

/// The request to install a marketplace plugin, with the user's answer to
/// its permission request.
#[derive(Clone, Debug, PartialEq, Eq)]
pub struct InstallRequest {
    pub entry: MarketplaceEntry,
    pub approved: bool,
}

/// The user's answer as a permission decision.
pub fn permission_decision(approved: bool) -> (r: PermissionDecision)
    ensures
        r == if approved {
            PermissionDecision::Approved
        } else {
            PermissionDecision::Denied
        },
{
    if approved {
        PermissionDecision::Approved
    } else {
        PermissionDecision::Denied
    }
}

/// The request to delete a user-installed plugin.
#[derive(Clone, Debug, PartialEq, Eq)]
pub struct DeletePluginRequest {
    pub plugin_id: String,
}

/// The request to import plugin manifests, pasted as JSON or fetched from
/// a URL.
#[derive(Clone, Debug, PartialEq, Eq)]
pub struct CustomPluginImportRequest {
    pub content: String,
    pub url: String,
}

/// Where imported manifests come from.
#[derive(Clone, Debug, PartialEq, Eq)]
pub enum ImportSource {
    Content(String),
    Url(String),
}

/// Where to read imported manifests from: the pasted JSON when it is not
/// blank, else the URL (trimmed) when it is not blank; with neither, the
/// request is refused.
pub fn import_source(request: &CustomPluginImportRequest) -> (r: Result<ImportSource, String>)
    ensures
        !is_blank(request.content@) ==> (r matches Ok(ImportSource::Content(c)) && c
            == request.content),
        is_blank(request.content@) && !is_blank(request.url@) ==> (r matches Ok(
            ImportSource::Url(u),
        ) && u@ == trimmed(request.url@)),
        is_blank(request.content@) && is_blank(request.url@) ==> (r matches Err(msg) && msg@
            == "请选择本地 JSON 文件或输入远程 URL"@),
{
    if !blank(request.content.as_str()) {
        Ok(ImportSource::Content(request.content.clone()))
    } else if !blank(request.url.as_str()) {
        Ok(ImportSource::Url(trim(request.url.as_str())))
    } else {
        Err(owned("请选择本地 JSON 文件或输入远程 URL"))
    }
}

/// An import must hold at least one manifest.
pub fn check_import_list(manifests: &Vec<PluginManifest>) -> (r: Result<(), String>)
    ensures
        manifests.len() > 0 ==> r is Ok,
        manifests.len() == 0 ==> (r matches Err(msg) && msg@ == "配置文件中没有插件"@),
{
    if manifests.len() == 0 {
        return Err(owned("配置文件中没有插件"));
    }
    Ok(())
}

/// The position of the first plugin with the given id; the refusal names
/// the id.
pub fn find_plugin(plugins: &Vec<InstalledPlugin>, plugin_id: &str) -> (r: Result<usize, String>)
    ensures
        match r {
            Ok(i) => i < plugins.len() && plugins@[i as int].manifest.id@ == plugin_id@ && forall|
                k: int,
            | 0 <= k < i ==> (#[trigger] plugins@[k]).manifest.id@ != plugin_id@,
            Err(msg) => !has_plugin_id(plugins@, plugin_id@) && msg@ == "插件不存在: "@
                + plugin_id@,
        },
{
    let mut i: usize = 0;
    while i < plugins.len()
        invariant
            i <= plugins.len(),
            forall|k: int| 0 <= k < i ==> (#[trigger] plugins@[k]).manifest.id@ != plugin_id@,
        decreases plugins.len() - i,
    {
        if same(plugins[i].manifest.id.as_str(), plugin_id) {
            return Ok(i);
        }
        i = i + 1;
    }
    Err(concat("插件不存在: ", plugin_id))
}

/// The request to perform an action of a plugin's result.
#[derive(Clone, Debug, PartialEq, Eq)]
pub struct ActionRequest {
    pub plugin_id: String,
    pub action: RpcAction,
}

/// What the host does for a permitted result action.
#[derive(Clone, Debug, PartialEq, Eq)]
pub enum PlannedAction {
    CopyText(String),
    OpenUrl(String),
}

/// Decides a result action: refused unless the plugin declared a
/// permission for it; a shell action is refused even then; copying and
/// opening a URL are carried out.
pub fn plan_plugin_action(plugin: &InstalledPlugin, action: RpcAction) -> (r: Result<
    PlannedAction,
    String,
>)
    ensures
        !permits(plugin.manifest, action) ==> (r matches Err(msg) && msg@ == "插件 "@
            + plugin.manifest.id@ + " 未声明权限: "@ + joined(permission_names(action), " 或 "@)),
        permits(plugin.manifest, action) ==> match action {
            RpcAction::Copy { value } => r == Ok::<PlannedAction, String>(
                PlannedAction::CopyText(value),
            ),
            RpcAction::OpenUrl { url } => r == Ok::<PlannedAction, String>(
                PlannedAction::OpenUrl(url),
            ),
            RpcAction::Shell { .. } => r matches Err(msg) && msg@
                == "暂不允许插件通过结果动作执行 shell"@,
        },
{
    match ensure_action_allowed(plugin, &action) {
        Err(e) => Err(e.message()),
        Ok(()) => match action {
            RpcAction::Copy { value } => Ok(PlannedAction::CopyText(value)),
            RpcAction::OpenUrl { url } => Ok(PlannedAction::OpenUrl(url)),
            RpcAction::Shell { .. } => Err(owned("暂不允许插件通过结果动作执行 shell")),
        },
    }
}

/// An empty query scores every command 1, so a blank search lists every
/// command.
pub proof fn law_empty_query_scores_one(m: PluginManifest, c: PluginCommand)
    ensures
        command_score(m, c, Seq::empty()) == 1,
{
}

/// Search results are ranked (higher scores first, equal scores by title)
/// and are exactly the commands that score, each once.
pub proof fn law_search_results(plugins: Seq<InstalledPlugin>, query: Seq<char>)
    ensures
        is_ranked(ranked(search_candidates(plugins, normalized_query(query)))),
        ranked(search_candidates(plugins, normalized_query(query))).to_multiset()
            =~= search_candidates(plugins, normalized_query(query)).to_multiset(),
{
    lemma_ranked(search_candidates(plugins, normalized_query(query)));
}

proof fn lemma_unshadowed(bundled: Seq<InstalledPlugin>, user: Seq<InstalledPlugin>)
    ensures
        forall|i: int|
            0 <= i < unshadowed(bundled, user).len() ==> !has_plugin_id(
                bundled,
                (#[trigger] unshadowed(bundled, user)[i]).manifest.id@,
            ) && user.contains(unshadowed(bundled, user)[i]),
        forall|i: int|
            0 <= i < user.len() && !has_plugin_id(bundled, (#[trigger] user[i]).manifest.id@)
                ==> unshadowed(bundled, user).contains(user[i]),
    decreases user.len(),
{
    if user.len() > 0 {
        let t = user.drop_last();
        lemma_unshadowed(bundled, t);
        let s = unshadowed(bundled, user);
        let st = unshadowed(bundled, t);
        assert forall|i: int| 0 <= i < s.len() implies !has_plugin_id(
            bundled,
            (#[trigger] s[i]).manifest.id@,
        ) && user.contains(s[i]) by {
            if i < st.len() {
                assert(s[i] == st[i]);
                assert(t.contains(st[i]));
                let k = choose|k: int| 0 <= k < t.len() && t[k] == st[i];
                assert(user[k] == st[i]);
            } else {
                assert(s[i] == user.last());
                assert(user[user.len() - 1] == user.last());
            }
        }
        assert forall|i: int|
            0 <= i < user.len() && !has_plugin_id(
                bundled,
                (#[trigger] user[i]).manifest.id@,
            ) implies s.contains(user[i]) by {
            if i < t.len() {
                assert(t[i] == user[i]);
                assert(st.contains(t[i]));
                let k = choose|k: int| 0 <= k < st.len() && st[k] == t[i];
                assert(s[k] == st[k]);
            } else {
                assert(s[s.len() - 1] == user.last());
            }
        }
    }
}

/// The available plugins are sorted by name and hold every bundled plugin
/// and exactly those user plugins whose id no bundled plugin has: a
/// bundled plugin always wins over a user plugin with its id.
pub proof fn law_bundled_plugins_win(bundled: Seq<InstalledPlugin>, user: Seq<InstalledPlugin>)
    ensures
        is_ranked(ranked(bundled + unshadowed(bundled, user))),
        ranked(bundled + unshadowed(bundled, user)).to_multiset() =~= (bundled + unshadowed(
            bundled,
            user,
        )).to_multiset(),
        forall|i: int|
            0 <= i < unshadowed(bundled, user).len() ==> !has_plugin_id(
                bundled,
                (#[trigger] unshadowed(bundled, user)[i]).manifest.id@,
            ),
        forall|i: int|
            0 <= i < user.len() && !has_plugin_id(bundled, (#[trigger] user[i]).manifest.id@)
                ==> unshadowed(bundled, user).contains(user[i]),
{
    lemma_ranked(bundled + unshadowed(bundled, user));
    lemma_unshadowed(bundled, user);
}

/// Copying a value is allowed exactly when the plugin declares `clipboard`
/// or `clipboard:write`.
pub proof fn law_copy_permission(m: PluginManifest, value: String)
    ensures
        permits(m, RpcAction::Copy { value }) <==> (lists(m.permissions@, "clipboard"@) || lists(
            m.permissions@,
            "clipboard:write"@,
        )),
{
    let names = permission_names(RpcAction::Copy { value });
    if lists(m.permissions@, "clipboard"@) {
        let j = choose|j: int| 0 <= j < m.permissions.len() && (#[trigger] m.permissions@[j])@
            == "clipboard"@;
        assert(names[0] == m.permissions@[j]@);
    }
    if lists(m.permissions@, "clipboard:write"@) {
        let j = choose|j: int| 0 <= j < m.permissions.len() && (#[trigger] m.permissions@[j])@
            == "clipboard:write"@;
        assert(names[1] == m.permissions@[j]@);
    }
    if permits(m, RpcAction::Copy { value }) {
        let (i, j) = choose|i: int, j: int|
            0 <= i < names.len() && 0 <= j < m.permissions.len() && #[trigger] names[i]
                == #[trigger] m.permissions@[j]@;
        assert(m.permissions@[j]@ == names[i]);
    }
}


/// Searching ignores ASCII case and surrounding white space: an ASCII
/// query, upper-cased and put between blanks, is matched as the query
/// itself, so it finds the same commands in the same order.
pub proof fn law_search_ignores_ascii_case_and_padding(
    plugins: Seq<InstalledPlugin>,
    q: Seq<char>,
    left: Seq<char>,
    right: Seq<char>,
)
    requires
        is_ascii_text(q),
        is_ascii_text(left),
        is_ascii_text(right),
        is_blank(left),
        is_blank(right),
    ensures
        is_ascii_text(left + ascii_uppered(q) + right),
        ascii_lowered(trimmed(left + ascii_uppered(q) + right)) == ascii_lowered(trimmed(q)),
        ranked(search_candidates(plugins, ascii_lowered(trimmed(left + ascii_uppered(q) + right))))
            == ranked(search_candidates(plugins, ascii_lowered(trimmed(q)))),
{
    let u = ascii_uppered(q);
    let p = left + u + right;
    assert forall|i: int| 0 <= i < p.len() implies (#[trigger] p[i] as u32) < 128 by {
        if i < left.len() {
            assert(p[i] == left[i]);
        } else if i < left.len() + u.len() {
            assert(p[i] == u[i - left.len()]);
            assert((q[i - left.len()] as u32) < 128);
        } else {
            assert(p[i] == right[i - left.len() - u.len()]);
        }
    }
    lemma_trimmed_padded(left, u, right);
    lemma_trimmed_uppered(q);
    lemma_lowered_uppered(trimmed(q));
}

/// Plugins in rank order are in order of their names: no plugin's name
/// comes before that of a plugin ahead of it; no plugin is lost or added.
pub proof fn law_plugins_sorted_by_name(s: Seq<InstalledPlugin>)
    ensures
        ranked(s).to_multiset() == s.to_multiset(),
        ranked(s).len() == s.len(),
        forall|i: int, j: int|
            0 <= i < j < ranked(s).len() ==> !lex_lt(
                #[trigger] ranked(s)[j].manifest.name@,
                #[trigger] ranked(s)[i].manifest.name@,
            ),
{
    lemma_ranked(s);
    let r = ranked(s);
    assert forall|i: int, j: int| 0 <= i < j < r.len() implies !lex_lt(
        #[trigger] r[j].manifest.name@,
        #[trigger] r[i].manifest.name@,
    ) by {
        assert(!r[j].precedes(r[i]));
    }
}

/// Search results in rank order go by score, highest first, and equal
/// scores by title.
pub proof fn law_matches_sorted_by_score_then_title(s: Seq<CommandMatch>)
    ensures
        ranked(s).to_multiset() == s.to_multiset(),
        forall|i: int, j: int|
            0 <= i < j < ranked(s).len() ==> (#[trigger] ranked(s)[i]).score >= (
            #[trigger] ranked(s)[j]).score && (ranked(s)[i].score == ranked(s)[j].score
                ==> !lex_lt(ranked(s)[j].title@, ranked(s)[i].title@)),
{
    lemma_ranked(s);
    let r = ranked(s);
    assert forall|i: int, j: int| 0 <= i < j < r.len() implies (#[trigger] r[i]).score >= (
    #[trigger] r[j]).score && (r[i].score == r[j].score ==> !lex_lt(r[j].title@, r[i].title@)) by {
        assert(!r[j].precedes(r[i]));
    }
}

/// How a command scores against a normalized query, over the command's own
/// texts lower-cased: its keyword and title, its plugin's name, description
/// and keywords (joined by spaces). An empty query scores 1; the exact
/// keyword 100; a query that one of those texts starts with 70; one that
/// one of them contains 40; any other 0.
pub proof fn law_command_score_texts(m: PluginManifest, c: PluginCommand, q: Seq<char>)
    ensures
        q.len() == 0 ==> command_score(m, c, q) == 1,
        q.len() > 0 && lowercase(c.keyword@) == q ==> command_score(m, c, q) == 100,
        q.len() > 0 && lowercase(c.keyword@) != q && (is_prefix_of(q, lowercase(c.keyword@))
            || is_prefix_of(q, lowercase(c.title@)) || is_prefix_of(q, lowercase(m.name@))
            || is_prefix_of(q, lowercase(m.description@)) || is_prefix_of(
            q,
            lowercase(joined(views(m.keywords@), " "@)),
        )) ==> command_score(m, c, q) == 70,
        q.len() > 0 && !(is_prefix_of(q, lowercase(c.keyword@)) || is_prefix_of(
            q,
            lowercase(c.title@),
        ) || is_prefix_of(q, lowercase(m.name@)) || is_prefix_of(q, lowercase(m.description@))
            || is_prefix_of(q, lowercase(joined(views(m.keywords@), " "@)))) && (is_infix_of(
            q,
            lowercase(c.keyword@),
        ) || is_infix_of(q, lowercase(c.title@)) || is_infix_of(q, lowercase(m.name@))
            || is_infix_of(q, lowercase(m.description@)) || is_infix_of(
            q,
            lowercase(joined(views(m.keywords@), " "@)),
        )) ==> command_score(m, c, q) == 40,
        q.len() > 0 && !(is_infix_of(q, lowercase(c.keyword@)) || is_infix_of(
            q,
            lowercase(c.title@),
        ) || is_infix_of(q, lowercase(m.name@)) || is_infix_of(q, lowercase(m.description@))
            || is_infix_of(q, lowercase(joined(views(m.keywords@), " "@)))) ==> command_score(m, c, q)
            == 0,
{
    let hs = haystacks(m, c);
    assert(hs[0] == lowercase(c.keyword@));
    assert(hs[1] == lowercase(c.title@));
    assert(hs[2] == lowercase(m.name@));
    assert(hs[3] == lowercase(m.description@));
    assert(hs[4] == lowercase(joined(views(m.keywords@), " "@)));
    if q.len() > 0 && lowercase(c.keyword@) == q {
        assert(is_prefix_of(q, hs[0])) by {
            assert(hs[0].subrange(0, q.len() as int) =~= hs[0]);
        }
        assert(occurs_at(q, hs[0], 0)) by {
            assert(hs[0].subrange(0, q.len() as int) =~= hs[0]);
        }
    }
    assert forall|k: int| 0 <= k < hs.len() && is_prefix_of(q, hs[k]) implies is_infix_of(
        q,
        hs[k],
    ) by {
        assert(occurs_at(q, hs[k], 0));
    }
    if q.len() > 0 && !(exists|k: int| 0 <= k < hs.len() && is_infix_of(q, #[trigger] hs[k])) {
        assert(lowercase(c.keyword@) != q) by {
            if lowercase(c.keyword@) == q {
                assert(hs[0].subrange(0, q.len() as int) =~= hs[0]);
                assert(occurs_at(q, hs[0], 0));
            }
        }
        assert(!(exists|k: int| 0 <= k < hs.len() && is_prefix_of(q, #[trigger] hs[k])));
    }
}

/// Plugin `i`'s command `j` shows among the matches for the normalized query
/// `q` when it scores: its match, with its score, is a result of the search.
proof fn lemma_candidate_found(plugins: Seq<InstalledPlugin>, q: Seq<char>, i: int, j: int)
    requires
        0 <= i < plugins.len(),
        0 <= j < plugins[i].manifest.commands.len(),
        command_score(plugins[i].manifest, plugins[i].manifest.commands@[j], q) > 0,
    ensures
        search_candidates(plugins, q).contains(
            command_match(
                plugins[i].manifest,
                plugins[i].manifest.commands@[j],
                command_score(plugins[i].manifest, plugins[i].manifest.commands@[j], q),
            ),
        ),
    decreases plugins.len(),
{
    let m = plugins[i].manifest;
    let c = m.commands@[j];
    let x = command_match(m, c, command_score(m, c, q));
    let t = plugins.drop_last();
    if i < plugins.len() - 1 {
        assert(t[i] == plugins[i]);
        lemma_candidate_found(t, q, i, j);
        let k = choose|k: int| 0 <= k < search_candidates(t, q).len() && search_candidates(t, q)[k]
            == x;
        assert(search_candidates(plugins, q)[k] == x);
    } else {
        assert(plugins.last() == plugins[i]);
        lemma_plugin_candidate_found(m, m.commands@, q, j);
        let pc = plugin_candidates(m, m.commands@, q);
        let k = choose|k: int| 0 <= k < pc.len() && pc[k] == x;
        assert(search_candidates(plugins, q)[search_candidates(t, q).len() + k] == x);
    }
}

proof fn lemma_plugin_candidate_found(m: PluginManifest, cmds: Seq<PluginCommand>, q: Seq<char>, j: int)
    requires
        0 <= j < cmds.len(),
        command_score(m, cmds[j], q) > 0,
    ensures
        plugin_candidates(m, cmds, q).contains(command_match(m, cmds[j], command_score(m, cmds[j], q))),
    decreases cmds.len(),
{
    let x = command_match(m, cmds[j], command_score(m, cmds[j], q));
    let t = cmds.drop_last();
    if j < cmds.len() - 1 {
        assert(t[j] == cmds[j]);
        lemma_plugin_candidate_found(m, t, q, j);
        let k = choose|k: int| 0 <= k < plugin_candidates(m, t, q).len() && plugin_candidates(
            m,
            t,
            q,
        )[k] == x;
        assert(plugin_candidates(m, cmds, q)[k] == x);
    } else {
        assert(cmds.last() == cmds[j]);
        let pc = plugin_candidates(m, cmds, q);
        assert(pc[pc.len() - 1] == x);
    }
}

/// A command whose plugin's lower-cased description contains the
/// (non-empty, normalized) query is found by the search, with a score of at
/// least 40.
pub proof fn law_search_finds_description_matches(
    plugins: Seq<InstalledPlugin>,
    q: Seq<char>,
    i: int,
    j: int,
)
    requires
        q.len() > 0,
        0 <= i < plugins.len(),
        0 <= j < plugins[i].manifest.commands.len(),
        is_infix_of(q, lowercase(plugins[i].manifest.description@)),
    ensures
        command_score(plugins[i].manifest, plugins[i].manifest.commands@[j], q) >= 40,
        ranked(search_candidates(plugins, q)).contains(
            command_match(
                plugins[i].manifest,
                plugins[i].manifest.commands@[j],
                command_score(plugins[i].manifest, plugins[i].manifest.commands@[j], q),
            ),
        ),
{
    broadcast use vstd::seq_lib::group_to_multiset_ensures;

    let m = plugins[i].manifest;
    let c = m.commands@[j];
    law_command_score_texts(m, c, q);
    lemma_candidate_found(plugins, q, i, j);
    lemma_ranked(search_candidates(plugins, q));
    let x = command_match(m, c, command_score(m, c, q));
    assert(search_candidates(plugins, q).to_multiset().count(x) > 0);
    assert(ranked(search_candidates(plugins, q)).to_multiset().count(x) > 0);
}

/// The rules every accepted manifest meets, stated on its fields: a
/// manifest is accepted exactly when its id and name are not blank; its
/// entry, icon and UI files hold no `..`; a builtin manifest declares a
/// bridge whose module and bridge are not blank and hold no `..` and that
/// lists at least one host command; and it declares at least one command.
pub proof fn law_manifest_rules(m: PluginManifest)
    ensures
        (manifest_problem(m) is None) <==> {
            &&& !is_blank(m.id@)
            &&& !is_blank(m.name@)
            &&& !has_parent_ref(m.entry@)
            &&& !has_parent_ref(m.icon@)
            &&& (m.ui matches Some(ui) ==> !has_parent_ref(ui.window@) && !has_parent_ref(
                ui.settings@,
            ) && !has_parent_ref(ui.styles@))
            &&& (m.runtime == PluginRuntime::Builtin ==> (m.builtin matches Some(b) && !is_blank(
                b.module@,
            ) && !is_blank(b.bridge@) && !has_parent_ref(b.module@) && !has_parent_ref(b.bridge@)
                && b.host_commands.len() > 0))
            &&& m.commands.len() > 0
        },
{
}
} // verus!
