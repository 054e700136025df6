//! The go language plugin.

use crate::plugin::{language_plugin, language_plugin_permissions, language_plugin_version, PluginMetadata};
use vstd::prelude::*;

verus! {

/// Command that starts the go language server.
pub const GOPLS_COMMAND: &'static str = "gopls";

/// Metadata of the go plugin.
pub fn metadata() -> (m: PluginMetadata)
    ensures
        m.name@ == "go"@,
        m.version@ == language_plugin_version(),
        m.permissions@ == language_plugin_permissions(),
{
    language_plugin("go")
}

} // verus!
