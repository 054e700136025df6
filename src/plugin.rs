//! Plugin descriptions: the name, version and permissions a plugin declares.

use vstd::prelude::*;

verus! {

/// A capability that a plugin may be granted.
#[derive(Debug, Clone, Copy, PartialEq, Eq, Structural)]
pub enum Permission {
    ReadFiles,
    WriteFiles,
    SpawnProcess,
    NetworkAccess,
}

/// What a plugin declares about itself.
#[derive(Debug, Clone)]
pub struct PluginMetadata {
    pub name: String,
    pub version: String,
    pub permissions: Vec<Permission>,
}

/// The permissions every built-in language plugin declares.
pub open spec fn language_plugin_permissions() -> Seq<Permission> {
    seq![Permission::ReadFiles, Permission::WriteFiles, Permission::SpawnProcess]
}

/// The version shared by the built-in language plugins.
pub open spec fn language_plugin_version() -> Seq<char> {
    "0.1.0"@
}

/// Metadata of a built-in language plugin called `name`.
pub fn language_plugin(name: &str) -> (m: PluginMetadata)
    ensures
        m.name@ == name@,
        m.version@ == language_plugin_version(),
        m.permissions@ == language_plugin_permissions(),
{
    let mut permissions: Vec<Permission> = Vec::new();
    permissions.push(Permission::ReadFiles);
    permissions.push(Permission::WriteFiles);
    permissions.push(Permission::SpawnProcess);
    assert(permissions@ =~= language_plugin_permissions());
    PluginMetadata {
        name: String::from_str(name),
        version: String::from_str("0.1.0"),
        permissions,
    }
}

} // verus!
