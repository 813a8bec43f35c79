//! Choosing the runtime for a plugin directory.

use vstd::prelude::*;
use vstd::string::StringExecFns;
use crate::broker::string_views;
use crate::text::{chars_eq_str, string_of};
use crate::plugin::manifest::{
    capability_failures, extension_of, file_extension, is_manifest_error, manifest_problem,
    PluginManifest,
};
use crate::plugin::types::{capability_parse, version_parse, Capability, PluginError, PluginMeta, PluginVersion};

verus! {

broadcast use vstd::string::group_string_axioms;

/// The runtime a plugin's entry file runs in.
#[derive(Debug, Clone, Copy, PartialEq, Eq, Structural)]
pub enum EntryKind {
    Rhai,
    Wasm,
}

/// Everything needed to construct a checked plugin in its runtime.
#[derive(Debug, Clone)]
pub struct LoadPlan {
    pub meta: PluginMeta,
    pub capabilities: Vec<Capability>,
    pub kind: EntryKind,
    pub max_memory_mb: u32,
}

/// Reads plugin directories.
pub struct PluginLoader;

proof fn lemma_no_failures(caps: Seq<Seq<char>>)
    requires
        capability_failures(caps).len() == 0,
    ensures
        forall|i: int| 0 <= i < caps.len() ==> capability_parse(#[trigger] caps[i]) is Ok,
    decreases caps.len(),
{
    if caps.len() > 0 {
        let rest = capability_failures(caps.drop_last());
        if capability_parse(caps.last()) is Err {
            assert(capability_failures(caps).len() == rest.len() + 1);
        }
        lemma_no_failures(caps.drop_last());
        assert forall|i: int| 0 <= i < caps.len() implies capability_parse(#[trigger] caps[i]) is Ok by {
            if i < caps.len() - 1 {
                assert(caps.drop_last()[i] == caps[i]);
            }
        }
    }
}

impl PluginLoader {
    /// Checks a plugin's manifest (its entry file looked up by the caller)
    /// and picks the runtime from the entry's extension: `.rhai` or
    /// `.wasm`. A failed check is the manifest's first problem.
    pub fn load_from_dir(manifest: &PluginManifest, entry_is_file: bool) -> (r: Result<
        LoadPlan,
        PluginError,
    >)
        ensures
            r is Ok <==> manifest_problem(
                manifest.id@,
                manifest.version@,
                string_views(manifest.capabilities@),
                manifest.entry@,
                entry_is_file,
            ) is None,
            r matches Err(e) ==> is_manifest_error(
                e,
                manifest_problem(
                    manifest.id@,
                    manifest.version@,
                    string_views(manifest.capabilities@),
                    manifest.entry@,
                    entry_is_file,
                )->Some_0,
            ),
            r matches Ok(p) ==> {
                &&& version_parse(manifest.version@) == Ok::<PluginVersion, Seq<char>>(
                    p.meta.version,
                )
                &&& p.meta.id.0@ == manifest.id@
                &&& p.meta.name@ == manifest.name@
                &&& p.meta.description@ == manifest.description@
                &&& p.meta.author@ == manifest.author@
                &&& p.capabilities@.len() == manifest.capabilities@.len()
                &&& forall|i: int|
                    0 <= i < p.capabilities@.len() ==> capability_parse(
                        #[trigger] manifest.capabilities@[i]@,
                    ) == Ok::<Capability, Seq<char>>(p.capabilities@[i])
                &&& p.kind == (if file_extension(manifest.entry@) == Some("rhai"@) {
                    EntryKind::Rhai
                } else {
                    EntryKind::Wasm
                })
                &&& p.max_memory_mb == manifest.permissions.max_memory_mb
            },
    {
        match manifest.check(entry_is_file) {
            Ok(()) => {},
            Err(e) => {
                return Err(e);
            },
        }
        let ghost cv = string_views(manifest.capabilities@);
        proof {
            lemma_no_failures(cv);
            assert forall|i: int| 0 <= i < manifest.capabilities@.len() implies capability_parse(
                #[trigger] manifest.capabilities@[i]@,
            ) is Ok by {
                assert(cv[i] == manifest.capabilities@[i]@);
            }
        }
        let meta = match manifest.to_meta() {
            Ok(m) => m,
            Err(e) => {
                return Err(e);
            },
        };
        let capabilities = match manifest.to_capabilities() {
            Ok(c) => c,
            Err(e) => {
                return Err(e);
            },
        };
        let ext = extension_of(manifest.entry.as_str());
        let kind = match &ext {
            Some(e) => {
                if chars_eq_str(e, "rhai") {
                    EntryKind::Rhai
                } else if chars_eq_str(e, "wasm") {
                    EntryKind::Wasm
                } else {
                    let t = string_of(e);
                    return Err(
                        PluginError::LoadFailed(
                            String::from_str("unknown entry type: ").concat(t.as_str()),
                        ),
                    );
                }
            },
            None => {
                return Err(PluginError::LoadFailed(String::from_str("unknown entry type: ")));
            },
        };
        Ok(
            LoadPlan {
                meta,
                capabilities,
                kind,
                max_memory_mb: manifest.permissions.max_memory_mb,
            },
        )
    }
}

} // verus!
