//! Plugin identity, version, capability and error types.

use vstd::prelude::*;
use vstd::string::StringExecFns;
use crate::text::{
    lemma_parse_decimal, lemma_split_by_concat, lemma_split_by_none, ascii_lower,
    chars_eq_str, chars_of, dec_digits, decimal, int_error_text, lower_ascii, parse_u32_or_error,
    parse_u32_spec, split_by, split_on_any, string_of, to_ascii_lower, u32_error_kind, views,
};

verus! {

broadcast use vstd::string::group_string_axioms;

/// A plugin's identifier (kebab-case once a manifest has been checked).
#[derive(Debug, Clone, PartialEq, Eq, Hash)]
pub struct PluginId(pub String);

impl PluginId {
    /// The identifier text.
    pub fn as_str(&self) -> (r: &str)
        ensures
            r@ == self.0@,
    {
        self.0.as_str()
    }

    /// The identifier text, as `Display` writes it.
    pub fn to_string(&self) -> (r: String)
        ensures
            r@ == self.0@,
    {
        self.0.clone()
    }
}

impl From<String> for PluginId {
    fn from(s: String) -> (r: PluginId) {
        PluginId(s)
    }
}

impl vstd::std_specs::convert::FromSpecImpl<String> for PluginId {
    open spec fn obeys_from_spec() -> bool {
        true
    }

    open spec fn from_spec(v: String) -> PluginId {
        PluginId(v)
    }
}

/// A semantic version `major.minor.patch`.
#[derive(Debug, Clone, Copy, PartialEq, Eq, Hash, Structural)]
pub struct PluginVersion {
    pub major: u32,
    pub minor: u32,
    pub patch: u32,
}

/// The pieces of a version string between dots.
pub open spec fn dot_parts(s: Seq<char>) -> Seq<Seq<char>> {
    split_by(s, |c: char| c == '.')
}

/// What parsing a version string gives: three dot-separated decimal `u32`
/// parts, else the error text naming the first part that fails.
pub open spec fn version_parse(s: Seq<char>) -> Result<PluginVersion, Seq<char>> {
    let p = dot_parts(s);
    if p.len() != 3 {
        Err("invalid version string: "@ + s)
    } else {
        match parse_u32_spec(p[0]) {
            None => Err("invalid major: "@ + int_error_text(u32_error_kind(p[0]))),
            Some(major) => match parse_u32_spec(p[1]) {
                None => Err("invalid minor: "@ + int_error_text(u32_error_kind(p[1]))),
                Some(minor) => match parse_u32_spec(p[2]) {
                    None => Err("invalid patch: "@ + int_error_text(u32_error_kind(p[2]))),
                    Some(patch) => Ok(PluginVersion { major, minor, patch }),
                },
            },
        }
    }
}

/// The text of a version, as `Display` writes it.
pub open spec fn version_text(v: PluginVersion) -> Seq<char> {
    dec_digits(v.major as nat) + "."@ + dec_digits(v.minor as nat) + "."@ + dec_digits(
        v.patch as nat,
    )
}

/// Parses one version part, naming it in the error.
fn version_part(p: &Vec<char>, label: &str) -> (r: Result<u32, String>)
    ensures
        r matches Ok(v) ==> parse_u32_spec(p@) == Some(v),
        r matches Err(e) ==> parse_u32_spec(p@) is None && e@ == label@ + int_error_text(
            u32_error_kind(p@),
        ),
{
    match parse_u32_or_error(p) {
        Ok(v) => Ok(v),
        Err(k) => {
            let mut m = String::from_str(label);
            m.append(k.message());
            Err(m)
        },
    }
}

impl PluginVersion {
    /// Parses `major.minor.patch`, each part a decimal `u32`.
    pub fn try_from(value: &str) -> (r: Result<PluginVersion, String>)
        ensures
            r matches Ok(v) ==> version_parse(value@) == Ok::<PluginVersion, Seq<char>>(v),
            r matches Err(e) ==> version_parse(value@) == Err::<PluginVersion, Seq<char>>(e@),
    {
        let s = chars_of(value);
        let mut dot: Vec<char> = Vec::new();
        dot.push('.');
        let parts = split_on_any(&s, &dot);
        assert forall|c: char| dot@.contains(c) <==> c == '.' by {
            if c == '.' {
                assert(dot@[0] == c);
            }
        }
        assert((|c: char| dot@.contains(c)) =~= (|c: char| c == '.'));
        assert(views(parts@) == dot_parts(value@));
        if parts.len() != 3 {
            let mut m = String::from_str("invalid version string: ");
            m.append(value);
            return Err(m);
        }
        assert(views(parts@)[0] == parts@[0]@);
        assert(views(parts@)[1] == parts@[1]@);
        assert(views(parts@)[2] == parts@[2]@);
        let major = match version_part(&parts[0], "invalid major: ") {
            Ok(v) => v,
            Err(e) => {
                return Err(e);
            },
        };
        let minor = match version_part(&parts[1], "invalid minor: ") {
            Ok(v) => v,
            Err(e) => {
                return Err(e);
            },
        };
        let patch = match version_part(&parts[2], "invalid patch: ") {
            Ok(v) => v,
            Err(e) => {
                return Err(e);
            },
        };
        Ok(PluginVersion { major, minor, patch })
    }

    /// `major.minor.patch`, as `Display` writes it.
    pub fn to_string(&self) -> (r: String)
        ensures
            r@ == version_text(*self),
    {
        let mut s = decimal(self.major as u64);
        s.append(".");
        let minor = decimal(self.minor as u64);
        s.append(minor.as_str());
        s.append(".");
        let patch = decimal(self.patch as u64);
        s.append(patch.as_str());
        s
    }
}

/// Describes a plugin.
#[derive(Debug, Clone)]
pub struct PluginMeta {
    pub id: PluginId,
    pub name: String,
    pub version: PluginVersion,
    pub description: String,
    pub author: String,
}

/// What a plugin may ask the host for.
#[derive(Debug, Clone, Copy, PartialEq, Eq, Hash, Structural)]
pub enum Capability {
    MarketData,
    Execution,
    Storage,
    Events,
    Indicators,
    Analytics,
    DslExtension,
    UiPanels,
    Scheduler,
}

/// The canonical camel-case name of a capability.
pub open spec fn capability_text(c: Capability) -> Seq<char> {
    match c {
        Capability::MarketData => "marketData"@,
        Capability::Execution => "execution"@,
        Capability::Storage => "storage"@,
        Capability::Events => "events"@,
        Capability::Indicators => "indicators"@,
        Capability::Analytics => "analytics"@,
        Capability::DslExtension => "dslExtension"@,
        Capability::UiPanels => "uiPanels"@,
        Capability::Scheduler => "scheduler"@,
    }
}

/// The capability a lower-cased name denotes (`snake_case`, `kebab-case`
/// and run-together spellings of the multi-word ones).
pub open spec fn capability_named(n: Seq<char>) -> Option<Capability> {
    if n == "marketdata"@ || n == "market_data"@ || n == "market-data"@ {
        Some(Capability::MarketData)
    } else if n == "execution"@ {
        Some(Capability::Execution)
    } else if n == "storage"@ {
        Some(Capability::Storage)
    } else if n == "events"@ {
        Some(Capability::Events)
    } else if n == "indicators"@ {
        Some(Capability::Indicators)
    } else if n == "analytics"@ {
        Some(Capability::Analytics)
    } else if n == "dslextension"@ || n == "dsl_extension"@ || n == "dsl-extension"@ {
        Some(Capability::DslExtension)
    } else if n == "uipanels"@ || n == "ui_panels"@ || n == "ui-panels"@ {
        Some(Capability::UiPanels)
    } else if n == "scheduler"@ {
        Some(Capability::Scheduler)
    } else {
        None
    }
}

/// Parsing a capability name, ignoring ASCII case.
pub open spec fn capability_parse(v: Seq<char>) -> Result<Capability, Seq<char>> {
    match capability_named(lower_ascii(v)) {
        Some(c) => Ok(c),
        None => Err("unknown capability: "@ + lower_ascii(v)),
    }
}

fn capability_of(n: &Vec<char>) -> (r: Option<Capability>)
    ensures
        r == capability_named(n@),
{
    if chars_eq_str(n, "marketdata") || chars_eq_str(n, "market_data") || chars_eq_str(
        n,
        "market-data",
    ) {
        Some(Capability::MarketData)
    } else if chars_eq_str(n, "execution") {
        Some(Capability::Execution)
    } else if chars_eq_str(n, "storage") {
        Some(Capability::Storage)
    } else if chars_eq_str(n, "events") {
        Some(Capability::Events)
    } else if chars_eq_str(n, "indicators") {
        Some(Capability::Indicators)
    } else if chars_eq_str(n, "analytics") {
        Some(Capability::Analytics)
    } else if chars_eq_str(n, "dslextension") || chars_eq_str(n, "dsl_extension")
        || chars_eq_str(n, "dsl-extension") {
        Some(Capability::DslExtension)
    } else if chars_eq_str(n, "uipanels") || chars_eq_str(n, "ui_panels") || chars_eq_str(
        n,
        "ui-panels",
    ) {
        Some(Capability::UiPanels)
    } else if chars_eq_str(n, "scheduler") {
        Some(Capability::Scheduler)
    } else {
        None
    }
}

impl Capability {
    /// The canonical camel-case name.
    pub fn as_str(&self) -> (r: &'static str)
        ensures
            r@ == capability_text(*self),
    {
        match self {
            Capability::MarketData => "marketData",
            Capability::Execution => "execution",
            Capability::Storage => "storage",
            Capability::Events => "events",
            Capability::Indicators => "indicators",
            Capability::Analytics => "analytics",
            Capability::DslExtension => "dslExtension",
            Capability::UiPanels => "uiPanels",
            Capability::Scheduler => "scheduler",
        }
    }

    /// The canonical name, as `Display` writes it.
    pub fn to_string(&self) -> (r: String)
        ensures
            r@ == capability_text(*self),
    {
        String::from_str(self.as_str())
    }

    /// Parses a capability name, ignoring ASCII case.
    pub fn try_from(value: &str) -> (r: Result<Capability, String>)
        ensures
            r matches Ok(c) ==> capability_parse(value@) == Ok::<Capability, Seq<char>>(c),
            r matches Err(e) ==> capability_parse(value@) == Err::<Capability, Seq<char>>(e@),
    {
        let n = to_ascii_lower(&chars_of(value));
        match capability_of(&n) {
            Some(c) => Ok(c),
            None => {
                let mut m = String::from_str("unknown capability: ");
                let t = string_of(&n);
                m.append(t.as_str());
                Err(m)
            },
        }
    }
}

/// Where a plugin is in its lifecycle.
#[derive(Debug, Clone)]
pub enum PluginStatus {
    Loaded,
    Enabled,
    Disabled,
    Failed(String),
}

/// Why a plugin operation failed.
#[derive(Debug, Clone)]
pub enum PluginError {
    ManifestParse(String),
    LoadFailed(String),
    ApiError(String),
    PermissionDenied { capability: String, plugin_id: String },
    Timeout(String),
    NotFound(String),
}

/// The text of an error, as `Display` writes it.
pub open spec fn plugin_error_text(e: PluginError) -> Seq<char> {
    match e {
        PluginError::ManifestParse(m) => "manifest parse error: "@ + m@,
        PluginError::LoadFailed(m) => "load failed: "@ + m@,
        PluginError::ApiError(m) => "api error: "@ + m@,
        PluginError::PermissionDenied { capability, plugin_id } => "permission denied for capability "@
            + capability@ + " in plugin "@ + plugin_id@,
        PluginError::Timeout(m) => "timeout: "@ + m@,
        PluginError::NotFound(m) => "not found: "@ + m@,
    }
}

impl PluginError {
    /// The error text, as `Display` writes it.
    pub fn to_string(&self) -> (r: String)
        ensures
            r@ == plugin_error_text(*self),
    {
        match self {
            PluginError::ManifestParse(m) => String::from_str("manifest parse error: ").concat(
                m.as_str(),
            ),
            PluginError::LoadFailed(m) => String::from_str("load failed: ").concat(m.as_str()),
            PluginError::ApiError(m) => String::from_str("api error: ").concat(m.as_str()),
            PluginError::PermissionDenied { capability, plugin_id } => {
                let mut s = String::from_str("permission denied for capability ");
                s.append(capability.as_str());
                s.append(" in plugin ");
                s.append(plugin_id.as_str());
                s
            },
            PluginError::Timeout(m) => String::from_str("timeout: ").concat(m.as_str()),
            PluginError::NotFound(m) => String::from_str("not found: ").concat(m.as_str()),
        }
    }
}

/// Severity of a notification a plugin shows.
#[derive(Debug, Clone, Copy, PartialEq, Eq, Hash, Structural)]
pub enum NotificationKind {
    Info,
    Warning,
    Error,
}

/// The lower-case name of a notification kind.
pub open spec fn notification_text(k: NotificationKind) -> Seq<char> {
    match k {
        NotificationKind::Info => "info"@,
        NotificationKind::Warning => "warning"@,
        NotificationKind::Error => "error"@,
    }
}

impl NotificationKind {
    /// The lower-case name, as `Display` writes it.
    pub fn to_string(&self) -> (r: String)
        ensures
            r@ == notification_text(*self),
    {
        match self {
            NotificationKind::Info => String::from_str("info"),
            NotificationKind::Warning => String::from_str("warning"),
            NotificationKind::Error => String::from_str("error"),
        }
    }
}

/// One row of the plugin list shown to the user.
#[derive(Debug, Clone)]
pub struct PluginListEntry {
    pub meta: PluginMeta,
    pub status: PluginStatus,
    pub capabilities: Vec<Capability>,
}


/// A copy of a status.
pub fn copy_status(s: &PluginStatus) -> (r: PluginStatus)
    ensures
        match (r, *s) {
            (PluginStatus::Loaded, PluginStatus::Loaded) => true,
            (PluginStatus::Enabled, PluginStatus::Enabled) => true,
            (PluginStatus::Disabled, PluginStatus::Disabled) => true,
            (PluginStatus::Failed(a), PluginStatus::Failed(b)) => a@ == b@,
            _ => false,
        },
{
    match s {
        PluginStatus::Loaded => PluginStatus::Loaded,
        PluginStatus::Enabled => PluginStatus::Enabled,
        PluginStatus::Disabled => PluginStatus::Disabled,
        PluginStatus::Failed(m) => PluginStatus::Failed(m.clone()),
    }
}

/// A copy of plugin metadata.
pub fn copy_meta(m: &PluginMeta) -> (r: PluginMeta)
    ensures
        r.id.0@ == m.id.0@,
        r.name@ == m.name@,
        r.version == m.version,
        r.description@ == m.description@,
        r.author@ == m.author@,
{
    PluginMeta {
        id: PluginId(m.id.0.clone()),
        name: m.name.clone(),
        version: m.version,
        description: m.description.clone(),
        author: m.author.clone(),
    }
}

/// A copy of a capability list.
pub fn copy_capabilities(v: &Vec<Capability>) -> (r: Vec<Capability>)
    ensures
        r@ == v@,
{
    let r = v.clone();
    assert(r@ =~= v@);
    r
}


/// A version's text parses back to the same version.
pub proof fn lemma_version_round_trip(v: PluginVersion)
    ensures
        version_parse(version_text(v)) == Ok::<PluginVersion, Seq<char>>(v),
{
    let a = dec_digits(v.major as nat);
    let b = dec_digits(v.minor as nat);
    let c = dec_digits(v.patch as nat);
    let f = |ch: char| ch == '.';
    lemma_parse_decimal(v.major);
    lemma_parse_decimal(v.minor);
    lemma_parse_decimal(v.patch);
    reveal_strlit(".");
    assert("."@ =~= seq!['.']);
    let t = version_text(v);
    assert(t =~= a + seq!['.'] + (b + seq!['.'] + c));
    assert forall|i: int| 0 <= i < a.len() implies !f(#[trigger] a[i]) by {}
    assert forall|i: int| 0 <= i < b.len() implies !f(#[trigger] b[i]) by {}
    assert forall|i: int| 0 <= i < c.len() implies !f(#[trigger] c[i]) by {}
    lemma_split_by_none(a, f);
    lemma_split_by_none(b, f);
    lemma_split_by_none(c, f);
    lemma_split_by_concat(b, '.', c, f);
    lemma_split_by_concat(a, '.', b + seq!['.'] + c, f);
    let p = dot_parts(t);
    assert(p =~= seq![a, b, c]);
}

/// Each capability's canonical name parses back to it.
pub proof fn lemma_capability_round_trip(c: Capability)
    ensures
        capability_parse(capability_text(c)) == Ok::<Capability, Seq<char>>(c),
{
    reveal_strlit("marketData");
    reveal_strlit("marketdata");
    reveal_strlit("market_data");
    reveal_strlit("market-data");
    reveal_strlit("execution");
    reveal_strlit("storage");
    reveal_strlit("events");
    reveal_strlit("indicators");
    reveal_strlit("analytics");
    reveal_strlit("dslExtension");
    reveal_strlit("dslextension");
    reveal_strlit("dsl_extension");
    reveal_strlit("dsl-extension");
    reveal_strlit("uiPanels");
    reveal_strlit("uipanels");
    reveal_strlit("ui_panels");
    reveal_strlit("ui-panels");
    reveal_strlit("scheduler");
    match c {
        Capability::MarketData => {
            let n = lower_ascii("marketData"@);
            assert(n =~= "marketdata"@);
            assert(n.len() == 10 && n[0] == 'm');
        },
        Capability::Execution => {
            let n = lower_ascii("execution"@);
            assert(n =~= "execution"@);
            assert(n.len() == 9 && n[0] == 'e');
        },
        Capability::Storage => {
            let n = lower_ascii("storage"@);
            assert(n =~= "storage"@);
            assert(n.len() == 7 && n[0] == 's');
        },
        Capability::Events => {
            let n = lower_ascii("events"@);
            assert(n =~= "events"@);
            assert(n.len() == 6 && n[0] == 'e');
        },
        Capability::Indicators => {
            let n = lower_ascii("indicators"@);
            assert(n =~= "indicators"@);
            assert(n.len() == 10 && n[0] == 'i');
        },
        Capability::Analytics => {
            let n = lower_ascii("analytics"@);
            assert(n =~= "analytics"@);
            assert(n.len() == 9 && n[0] == 'a');
        },
        Capability::DslExtension => {
            let n = lower_ascii("dslExtension"@);
            assert(n =~= "dslextension"@);
            assert(n.len() == 12 && n[0] == 'd');
        },
        Capability::UiPanels => {
            let n = lower_ascii("uiPanels"@);
            assert(n =~= "uipanels"@);
            assert(n.len() == 8 && n[0] == 'u');
        },
        Capability::Scheduler => {
            let n = lower_ascii("scheduler"@);
            assert(n =~= "scheduler"@);
            assert(n.len() == 9 && n[0] == 's');
        },
    }
}

} // verus!
