use std::path::{Path, PathBuf};
use vstd::prelude::*;

use crate::text::concat;

verus! {

/// The parent directory of a path, as `Path::parent` finds it.
pub uninterp spec fn parent_of(path: Seq<char>) -> Option<Seq<char>>;

/// A path with another appended, as `Path::join` forms it.
pub uninterp spec fn joined_path(base: Seq<char>, child: Seq<char>) -> Seq<char>;

/// `Path::parent`, read back as text. Named, not stated: what counts as
/// the parent (trailing separators, roots, prefixes) follows the
/// platform's path syntax.
#[verifier::external_body]
pub(crate) fn path_parent(path: &str) -> (r: Option<String>)
    ensures
        match r {
            Some(p) => parent_of(path@) == Some(p@),
            None => parent_of(path@) is None,
        },
{
    match Path::new(path).parent() {
        Some(p) => Some(p.to_string_lossy().into_owned()),
        None => None,
    }
}

/// `Path::join`, read back as text. Named, not stated: the separator and
/// the treatment of an absolute `child` follow the platform's path syntax.
#[verifier::external_body]
pub(crate) fn path_join(base: &str, child: &str) -> (r: String)
    ensures
        r@ == joined_path(base@, child@),
{
    PathBuf::from(base).join(child).to_string_lossy().into_owned()
}

/// The directory of the plugins that ship with the application: `plugins`
/// beside the directory of the host's manifest (`manifest_dir`), or under
/// `.` when that has no parent.
pub fn bundled_plugins_dir(manifest_dir: &str) -> (r: String)
    ensures
        r@ == joined_path(
            match parent_of(manifest_dir@) {
                Some(p) => p,
                None => "."@,
            },
            "plugins"@,
        ),
{
    match path_parent(manifest_dir) {
        Some(p) => path_join(p.as_str(), "plugins"),
        None => path_join(".", "plugins"),
    }
}

/// The application's data directory: `VviTools` under the user's data
/// directory (`data_dir`), or under `.` when there is none.
pub open spec fn app_data_dir(data_dir: Option<Seq<char>>) -> Seq<char> {
    joined_path(
        match data_dir {
            Some(d) => d,
            None => "."@,
        },
        "VviTools"@,
    )
}

fn app_data(data_dir: &Option<String>) -> (r: String)
    ensures
        r@ == app_data_dir(
            match data_dir {
                Some(d) => Some(d@),
                None => None,
            },
        ),
{
    match data_dir {
        Some(d) => path_join(d.as_str(), "VviTools"),
        None => path_join(".", "VviTools"),
    }
}

/// The view of an optional directory.
pub open spec fn dir_view(d: Option<String>) -> Option<Seq<char>> {
    match d {
        Some(s) => Some(s@),
        None => None,
    }
}

/// Where user-installed plugins live: `VviTools/plugins` under the user's
/// data directory.
pub fn default_plugins_dir(data_dir: &Option<String>) -> (r: String)
    ensures
        r@ == joined_path(app_data_dir(dir_view(*data_dir)), "plugins"@),
{
    let base = app_data(data_dir);
    path_join(base.as_str(), "plugins")
}

/// Where the application settings are kept.
pub fn app_settings_path(data_dir: &Option<String>) -> (r: String)
    ensures
        r@ == joined_path(app_data_dir(dir_view(*data_dir)), "settings.json"@),
{
    let base = app_data(data_dir);
    path_join(base.as_str(), "settings.json")
}

/// Where the clipboard history and its images are kept.
pub open spec fn clipboard_dir(data_dir: Option<Seq<char>>) -> Seq<char> {
    joined_path(app_data_dir(data_dir), "clipboard"@)
}

/// Where the clipboard history and its images are kept.
pub fn clipboard_data_dir(data_dir: &Option<String>) -> (r: String)
    ensures
        r@ == clipboard_dir(dir_view(*data_dir)),
{
    let base = app_data(data_dir);
    path_join(base.as_str(), "clipboard")
}

/// Where the clipboard history is kept.
pub fn clipboard_history_path(data_dir: &Option<String>) -> (r: String)
    ensures
        r@ == joined_path(clipboard_dir(dir_view(*data_dir)), "history.json"@),
{
    let base = clipboard_data_dir(data_dir);
    path_join(base.as_str(), "history.json")
}

/// Where the clipboard settings are kept.
pub fn clipboard_settings_path(data_dir: &Option<String>) -> (r: String)
    ensures
        r@ == joined_path(clipboard_dir(dir_view(*data_dir)), "settings.json"@),
{
    let base = clipboard_data_dir(data_dir);
    path_join(base.as_str(), "settings.json")
}

/// Where copied images are saved.
pub fn clipboard_images_dir(data_dir: &Option<String>) -> (r: String)
    ensures
        r@ == joined_path(clipboard_dir(dir_view(*data_dir)), "images"@),
{
    let base = clipboard_data_dir(data_dir);
    path_join(base.as_str(), "images")
}

/// Where the image of the entry with id `id` is saved: `{id}.png` in the
/// image directory.
pub fn clipboard_image_path(data_dir: &Option<String>, id: &str) -> (r: String)
    ensures
        r@ == joined_path(
            joined_path(clipboard_dir(dir_view(*data_dir)), "images"@),
            id@ + ".png"@,
        ),
{
    let dir = clipboard_images_dir(data_dir);
    let name = concat(id, ".png");
    path_join(dir.as_str(), name.as_str())
}

} // verus!
