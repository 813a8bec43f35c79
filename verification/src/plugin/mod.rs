//! Plugin bookkeeping: identities, versions, capabilities, manifests,
//! per-plugin storage keys, event filters and the plugin lifecycle.

pub mod types;
pub mod manifest;
pub mod loader;
pub mod storage;
pub mod api;
pub mod events;
pub mod execution;
pub mod log;
pub mod host;
pub mod registry;
pub mod owned;

use vstd::prelude::*;
use crate::plugin::host::PluginHost;
use crate::plugin::types::{Capability, PluginError, PluginMeta};

verus! {

/// Whether `cap` occurs in `caps`.
pub fn capability_listed(caps: &[Capability], cap: &Capability) -> (r: bool)
    ensures
        r == caps@.contains(*cap),
{
    let mut i: usize = 0;
    while i < caps.len()
        invariant
            i <= caps@.len(),
            forall|j: int| 0 <= j < i ==> caps@[j] != *cap,
        decreases caps.len() - i,
    {
        if caps[i] == *cap {
            return true;
        }
        i = i + 1;
    }
    false
}

/// A loaded plugin, as a script or module runtime presents it to the host.
/// The lifecycle hooks are called in order: load, then enable and disable
/// any number of times, then unload.
pub trait Plugin {
    /// The capabilities the plugin declares.
    spec fn declared_capabilities(&self) -> Seq<Capability>;

    fn meta(&self) -> &PluginMeta;

    fn capabilities(&self) -> (r: &[Capability])
        ensures
            r@ == self.declared_capabilities(),
    ;

    fn on_load(&mut self, host: std::sync::Arc<PluginHost>) -> Result<(), PluginError>;

    fn on_enable(&mut self) -> Result<(), PluginError>;

    fn on_disable(&mut self) -> Result<(), PluginError>;

    fn on_unload(&mut self);

    /// Whether the plugin declared `cap`.
    fn has_capability(&self, cap: &Capability) -> (r: bool)
        ensures
            r == self.declared_capabilities().contains(*cap),
    {
        capability_listed(self.capabilities(), cap)
    }
}

} // verus!
