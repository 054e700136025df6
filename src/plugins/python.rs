//! The python language plugin.

use crate::plugin::{language_plugin, language_plugin_permissions, language_plugin_version, PluginMetadata};
use vstd::prelude::*;

verus! {

/// Command that starts the python language server.
pub const PYLSP_COMMAND: &'static str = "python-language-server";

/// Metadata of the python plugin.
pub fn metadata() -> (m: PluginMetadata)
    ensures
        m.name@ == "python"@,
        m.version@ == language_plugin_version(),
        m.permissions@ == language_plugin_permissions(),
{
    language_plugin("python")
}

} // verus!
