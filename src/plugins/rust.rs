//! The rust language plugin.

use crate::plugin::{language_plugin, language_plugin_permissions, language_plugin_version, PluginMetadata};
use vstd::prelude::*;

verus! {

/// Command that starts the rust language server.
pub const RUST_ANALYZER_COMMAND: &'static str = "rust-analyzer";

/// Metadata of the rust plugin.
pub fn metadata() -> (m: PluginMetadata)
    ensures
        m.name@ == "rust"@,
        m.version@ == language_plugin_version(),
        m.permissions@ == language_plugin_permissions(),
{
    language_plugin("rust")
}

} // verus!
