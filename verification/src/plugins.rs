//! Plugins: where they are installed, what their manifests say, and the
//! answers of the installer.
use vstd::prelude::*;

use crate::errors::{AppError, AppErrorView};
use crate::paths::{join_path, opt_str_view, path_join};
use crate::text::{concat, to_string};

verus! {

/// A plugin's name as installed: its directory's name.
pub struct PluginId {
    id: String,
}

impl PluginId {
    pub fn new(id: String) -> (r: PluginId)
        ensures
            r@ == id@,
    {
        PluginId { id }
    }

    pub fn as_str(&self) -> (r: &str)
        ensures
            r@ == self@,
    {
        self.id.as_str()
    }
}

impl View for PluginId {
    type V = Seq<char>;

    closed spec fn view(&self) -> Seq<char> {
        self.id@
    }
}

/// The state of a plugin.
#[derive(Clone, Copy, PartialEq, Eq, Structural)]
pub enum PluginStatus {
    Installed,
}

/// What `plugin.json` declares.
pub struct PluginManifest {
    pub name: String,
    pub version: String,
    pub description: String,
    pub entry_point: String,
}

/// An installed plugin.
pub struct PluginInfo {
    pub id: PluginId,
    pub name: String,
    pub version: String,
    pub description: String,
    pub path: String,
    pub status: PluginStatus,
}

/// The plugins directory under a home directory: `<home>/.agent/plugins`.
pub open spec fn plugins_dir_of(home: Seq<char>) -> Seq<char> {
    path_join(path_join(home, ".agent"@), "plugins"@)
}

fn plugins_dir_exec(home: &str) -> (r: String)
    ensures
        r@ == plugins_dir_of(home@),
{
    let a = join_path(home, ".agent");
    join_path(a.as_str(), "plugins")
}

/// Where the plugins are looked for; none when the home directory is unknown.
pub fn plugins_dir(home: Option<&str>) -> (r: Option<String>)
    ensures
        match home {
            Some(h) => r matches Some(p) && p@ == plugins_dir_of(h@),
            None => r is None,
        },
{
    match home {
        Some(h) => Some(plugins_dir_exec(h)),
        None => None,
    }
}

/// Where plugins are installed; an error when the home directory is unknown.
pub fn plugins_base_dir(home: Option<&str>) -> (r: Result<String, AppError>)
    ensures
        match home {
            Some(h) => r matches Ok(p) && p@ == plugins_dir_of(h@),
            None => r matches Err(e) && e@ == AppErrorView::Internal(
                "cannot determine home directory"@,
            ),
        },
{
    match home {
        Some(h) => Ok(plugins_dir_exec(h)),
        None => Err(AppError::Internal(to_string("cannot determine home directory"))),
    }
}

/// The plugin found in directory `dir` (named `dir_name`) with this manifest.
pub fn plugin_info(dir_name: &str, dir: &str, manifest: PluginManifest) -> (r: PluginInfo)
    ensures
        r.id@ == dir_name@,
        r.name@ == manifest.name@,
        r.version@ == manifest.version@,
        r.description@ == manifest.description@,
        r.path@ == dir@,
        r.status == PluginStatus::Installed,
{
    PluginInfo {
        id: PluginId::new(to_string(dir_name)),
        name: manifest.name,
        version: manifest.version,
        description: manifest.description,
        path: to_string(dir),
        status: PluginStatus::Installed,
    }
}

/// Installs and removes plugins.
pub struct PluginInstaller;

impl PluginInstaller {
    pub fn new() -> (r: PluginInstaller) {
        PluginInstaller
    }

    /// The refusal when the source of an installation does not exist.
    pub fn missing_source(src: &str) -> (e: AppError)
        ensures
            e@ == AppErrorView::BadRequest("Source plugin path does not exist: "@ + src@),
    {
        AppError::BadRequest(concat("Source plugin path does not exist: ", src))
    }

    /// The error when the destination cannot be created.
    pub fn destination_failure(dest: &str, reason: &str) -> (e: AppError)
        ensures
            e@ == AppErrorView::Internal(
                "Failed to create plugin destination "@ + dest@ + ": "@ + reason@,
            ),
    {
        let a = concat("Failed to create plugin destination ", dest);
        let b = concat(a.as_str(), ": ");
        AppError::Internal(concat(b.as_str(), reason))
    }

    /// The directory of an installed plugin.
    pub fn plugin_path(base: &str, id: &PluginId) -> (r: String)
        ensures
            r@ == path_join(base@, id@),
    {
        join_path(base, id.as_str())
    }

    /// The refusal to remove a plugin that is not installed.
    pub fn not_installed(id: &PluginId) -> (e: AppError)
        ensures
            e@ == AppErrorView::BadRequest("Plugin '"@ + id@ + "' is not installed"@),
    {
        let a = concat("Plugin '", id.as_str());
        AppError::BadRequest(concat(a.as_str(), "' is not installed"))
    }

    /// The error when a plugin's directory cannot be removed.
    pub fn removal_failure(path: &str, reason: &str) -> (e: AppError)
        ensures
            e@ == AppErrorView::Internal(
                "Failed to remove plugin directory "@ + path@ + ": "@ + reason@,
            ),
    {
        let a = concat("Failed to remove plugin directory ", path);
        let b = concat(a.as_str(), ": ");
        AppError::Internal(concat(b.as_str(), reason))
    }
}

impl Default for PluginInstaller {
    fn default() -> (r: PluginInstaller) {
        PluginInstaller::new()
    }
}

/// What copying a directory does with one of its entries.
pub enum CopyStep {
    /// Create the directory at the destination and copy into it.
    Descend { dst: String },
    /// Copy the file to the destination.
    CopyFile { dst: String },
}

/// The step for entry `name` of a directory being copied to `dst_dir`.
pub fn copy_step(dst_dir: &str, name: &str, is_dir: bool) -> (r: CopyStep)
    ensures
        is_dir ==> (r matches CopyStep::Descend { dst } && dst@ == path_join(dst_dir@, name@)),
        !is_dir ==> (r matches CopyStep::CopyFile { dst } && dst@ == path_join(dst_dir@, name@)),
{
    let dst = join_path(dst_dir, name);
    if is_dir {
        CopyStep::Descend { dst }
    } else {
        CopyStep::CopyFile { dst }
    }
}

} // verus!
