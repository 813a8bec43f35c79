//! What a plugin's host grants it.

use vstd::prelude::*;
use crate::plugin::types::{capability_text, Capability, PluginError, PluginId};

verus! {

/// A plugin's identity and the capabilities its manifest declared.
#[derive(Debug, Clone)]
pub struct PluginHost {
    pub id: PluginId,
    pub capabilities: Vec<Capability>,
}

impl PluginHost {
    /// A host for plugin `id` granting `capabilities`.
    pub fn new(id: PluginId, capabilities: Vec<Capability>) -> (r: PluginHost)
        ensures
            r.id.0@ == id.0@,
            r.capabilities@ == capabilities@,
    {
        PluginHost { id, capabilities }
    }

    /// Succeeds when the plugin was granted `cap`; otherwise a
    /// `PermissionDenied` naming the capability and the plugin.
    pub fn require_capability(&self, cap: &Capability) -> (r: Result<(), PluginError>)
        ensures
            r is Ok <==> self.capabilities@.contains(*cap),
            r matches Err(e) ==> (e matches PluginError::PermissionDenied { capability, plugin_id }
                && capability@ == capability_text(*cap) && plugin_id@ == self.id.0@),
    {
        let mut i: usize = 0;
        while i < self.capabilities.len()
            invariant
                i <= self.capabilities@.len(),
                forall|j: int| 0 <= j < i ==> self.capabilities@[j] != *cap,
            decreases self.capabilities.len() - i,
        {
            if self.capabilities[i] == *cap {
                return Ok(());
            }
            i = i + 1;
        }
        Err(PluginError::PermissionDenied { capability: cap.to_string(), plugin_id: self.id.to_string() })
    }
}

} // verus!
