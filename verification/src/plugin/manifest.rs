//! Plugin manifests: the checks a manifest must pass before its plugin is
//! loaded, and its conversion to metadata and capabilities.

use vstd::prelude::*;
use vstd::string::StringExecFns;
use crate::broker::string_views;
use crate::text::{chars_eq_str, chars_of, string_of};
use crate::plugin::types::{
    capability_parse, version_parse, Capability, PluginError, PluginId, PluginMeta,
    PluginVersion,
};

verus! {

broadcast use vstd::string::group_string_axioms;

/// A plugin's `plugin.toml`, as read.
#[derive(Debug, Clone)]
pub struct PluginManifest {
    pub id: String,
    pub name: String,
    pub version: String,
    pub description: String,
    pub author: String,
    pub capabilities: Vec<String>,
    pub entry: String,
    pub permissions: PluginPermissions,
}

/// What a plugin is allowed beyond its capabilities.
#[derive(Debug, Clone)]
pub struct PluginPermissions {
    pub network: bool,
    pub file_system: bool,
    pub max_memory_mb: u32,
    pub allowed_symbols: Vec<String>,
}

/// The memory cap, in megabytes, a manifest gets when it names none.
pub fn default_memory() -> (r: u32)
    ensures
        r == 32,
{
    32
}

/// What `regex::Regex::new(pattern)` followed by `is_match(text)` gives:
/// `None` where the pattern does not compile.
pub uninterp spec fn regex_match(pattern: Seq<char>, text: Seq<char>) -> Option<bool>;

/// The pattern plugin identifiers must match.
pub open spec fn kebab_pattern() -> Seq<char> {
    "^[a-z0-9][a-z0-9\\-]*[a-z0-9]$"@
}

/// A lower-case ASCII letter or digit.
pub open spec fn lower_alnum(c: char) -> bool {
    ('a' <= c && c <= 'z') || ('0' <= c && c <= '9')
}

/// Kebab case: at least two characters, lower-case letters, digits and
/// hyphens, starting and ending with a letter or digit.
pub open spec fn is_kebab(s: Seq<char>) -> bool {
    &&& s.len() >= 2
    &&& lower_alnum(s[0])
    &&& lower_alnum(s[s.len() - 1])
    &&& forall|i: int| 0 < i < s.len() - 1 ==> lower_alnum(#[trigger] s[i]) || s[i] == '-'
}

/// `regex::Regex::new(pattern)` then `Regex::is_match(text)`; `None` where
/// the pattern does not compile. The result is named `regex_match`; for the
/// plugin-id pattern (anchored at both ends, one letter-or-digit, any run
/// of letters, digits and hyphens, one letter-or-digit) the contract states
/// what the crate's documented syntax makes it match.
#[verifier::external_body]
fn regex_is_match(pattern: &str, text: &str) -> (r: Option<bool>)
    ensures
        r == regex_match(pattern@, text@),
        pattern@ == kebab_pattern() ==> r == Some(is_kebab(text@)),
{
    match regex::Regex::new(pattern) {
        Ok(re) => Some(re.is_match(text)),
        Err(_) => None,
    }
}

/// The index just past the last `/` of a path (0 if none).
pub open spec fn slash_end(p: Seq<char>) -> int
    decreases p.len(),
{
    if p.len() == 0 {
        0
    } else if p.last() == '/' {
        p.len() as int
    } else {
        slash_end(p.drop_last())
    }
}

/// The index of the last `.` of a name.
pub open spec fn last_dot(f: Seq<char>) -> Option<int>
    decreases f.len(),
{
    if f.len() == 0 {
        None
    } else if f.last() == '.' {
        Some(f.len() - 1)
    } else {
        last_dot(f.drop_last())
    }
}

/// `Path::extension` of a path naming a file: the text after the last `.`
/// of its final component, unless that dot starts the name.
pub open spec fn file_extension(p: Seq<char>) -> Option<Seq<char>> {
    let f = p.skip(slash_end(p));
    match last_dot(f) {
        Some(i) => if i == 0 {
            None
        } else {
            Some(f.skip(i + 1))
        },
        None => None,
    }
}

proof fn lemma_slash_end(p: Seq<char>)
    ensures
        0 <= slash_end(p) <= p.len(),
    decreases p.len(),
{
    if p.len() > 0 {
        lemma_slash_end(p.drop_last());
    }
}

proof fn lemma_last_dot(f: Seq<char>)
    ensures
        last_dot(f) matches Some(i) ==> 0 <= i < f.len(),
    decreases f.len(),
{
    if f.len() > 0 {
        lemma_last_dot(f.drop_last());
    }
}

/// The extension of a file path, computed as `file_extension` states it.
pub fn extension_of(p: &str) -> (r: Option<Vec<char>>)
    ensures
        r matches Some(e) ==> file_extension(p@) == Some(e@),
        r is None ==> file_extension(p@) is None,
{
    let v = chars_of(p);
    let mut start: usize = 0;
    let mut i: usize = 0;
    assert(v@.take(0) =~= Seq::<char>::empty());
    while i < v.len()
        invariant
            i <= v@.len(),
            start == slash_end(v@.take(i as int)),
        decreases v.len() - i,
    {
        assert(v@.take(i + 1).drop_last() =~= v@.take(i as int));
        if v[i] == '/' {
            start = i + 1;
        }
        i = i + 1;
    }
    assert(v@.take(v.len() as int) =~= v@);
    proof {
        lemma_slash_end(v@);
    }
    let mut f: Vec<char> = Vec::new();
    let mut j: usize = start;
    while j < v.len()
        invariant
            start <= j <= v@.len(),
            f@ =~= v@.subrange(start as int, j as int),
        decreases v.len() - j,
    {
        f.push(v[j]);
        j = j + 1;
    }
    assert(f@ =~= v@.skip(start as int));
    let mut dot: Option<usize> = None;
    let mut k: usize = 0;
    assert(f@.take(0) =~= Seq::<char>::empty());
    while k < f.len()
        invariant
            k <= f@.len(),
            dot == (match last_dot(f@.take(k as int)) {
                Some(d) => Some(d as usize),
                None => None::<usize>,
            }),
            dot matches Some(d) ==> d < k,
        decreases f.len() - k,
    {
        assert(f@.take(k + 1).drop_last() =~= f@.take(k as int));
        if f[k] == '.' {
            dot = Some(k);
        }
        k = k + 1;
    }
    assert(f@.take(f.len() as int) =~= f@);
    proof {
        lemma_last_dot(f@);
    }
    match dot {
        Some(d) => {
            if d == 0 {
                None
            } else {
                let mut e: Vec<char> = Vec::new();
                let mut m: usize = d + 1;
                while m < f.len()
                    invariant
                        d + 1 <= m <= f@.len(),
                        e@ =~= f@.subrange(d + 1, m as int),
                    decreases f.len() - m,
                {
                    e.push(f[m]);
                    m = m + 1;
                }
                assert(e@ =~= f@.skip(d + 1));
                Some(e)
            }
        },
        None => None,
    }
}

/// `a` and `b` joined with `sep` between neighbours.
pub open spec fn join(parts: Seq<Seq<char>>, sep: Seq<char>) -> Seq<char>
    decreases parts.len(),
{
    if parts.len() == 0 {
        Seq::empty()
    } else if parts.len() == 1 {
        parts[0]
    } else {
        join(parts.drop_last(), sep) + sep + parts.last()
    }
}

/// For each capability name that does not parse, the name followed by the
/// parse error in brackets, in manifest order.
pub open spec fn capability_failures(caps: Seq<Seq<char>>) -> Seq<Seq<char>>
    decreases caps.len(),
{
    if caps.len() == 0 {
        Seq::empty()
    } else {
        let rest = capability_failures(caps.drop_last());
        match capability_parse(caps.last()) {
            Ok(_) => rest,
            Err(e) => rest.push(caps.last() + " ("@ + e + ")"@),
        }
    }
}

/// The first problem a manifest has, in the order the loader checks:
/// identifier, version, capabilities, entry file, entry extension.
pub open spec fn manifest_problem(
    id: Seq<char>,
    version: Seq<char>,
    caps: Seq<Seq<char>>,
    entry: Seq<char>,
    entry_is_file: bool,
) -> Option<Seq<char>> {
    if !is_kebab(id) {
        Some("id must be kebab-case"@)
    } else if version_parse(version) is Err {
        Some(version_parse(version)->Err_0)
    } else if capability_failures(caps).len() > 0 {
        Some("unknown capabilities: "@ + join(capability_failures(caps), ", "@))
    } else if !entry_is_file {
        Some("entry file '"@ + entry + "' not found"@)
    } else if file_extension(entry) != Some("rhai"@) && file_extension(entry) != Some("wasm"@) {
        Some("entry must be .rhai or .wasm"@)
    } else {
        None
    }
}

/// The `ManifestParse` error carrying `msg`.
pub open spec fn is_manifest_error(e: PluginError, msg: Seq<char>) -> bool {
    e matches PluginError::ManifestParse(m) && m@ == msg
}

/// The list of capability failures, joined.
fn unknown_capabilities(caps: &Vec<String>) -> (r: (usize, String))
    ensures
        r.0 == capability_failures(string_views(caps@)).len(),
        r.1@ == join(capability_failures(string_views(caps@)), ", "@),
{
    let ghost cv = string_views(caps@);
    let mut n: usize = 0;
    let mut out = String::new();
    let mut i: usize = 0;
    assert(cv.take(0) =~= Seq::<Seq<char>>::empty());
    while i < caps.len()
        invariant
            i <= caps@.len(),
            cv == string_views(caps@),
            n == capability_failures(cv.take(i as int)).len(),
            n <= i,
            out@ == join(capability_failures(cv.take(i as int)), ", "@),
        decreases caps.len() - i,
    {
        assert(cv.take(i + 1).drop_last() =~= cv.take(i as int));
        assert(cv.take(i + 1).last() == caps@[i as int]@);
        match Capability::try_from(caps[i].as_str()) {
            Ok(_) => {},
            Err(e) => {
                let ghost prev = capability_failures(cv.take(i as int));
                let mut item = caps[i].clone();
                item.append(" (");
                item.append(e.as_str());
                item.append(")");
                if n > 0 {
                    out.append(", ");
                }
                out.append(item.as_str());
                n = n + 1;
                proof {
                    let now = capability_failures(cv.take(i + 1));
                    assert(now == prev.push(item@));
                    assert(now.drop_last() =~= prev);
                    if prev.len() == 0 {
                        assert(out@ =~= item@);
                    }
                }
            },
        }
        i = i + 1;
    }
    assert(cv.take(caps.len() as int) =~= cv);
    (n, out)
}

impl PluginManifest {
    /// Runs the load-time checks on a manifest whose entry file the caller
    /// has looked up (`entry_is_file`): a kebab-case id, a parseable
    /// version, known capabilities, an existing entry file with a `.rhai`
    /// or `.wasm` extension. The first failing check gives the error.
    pub fn check(&self, entry_is_file: bool) -> (r: Result<(), PluginError>)
        ensures
            r is Ok <==> manifest_problem(
                self.id@,
                self.version@,
                string_views(self.capabilities@),
                self.entry@,
                entry_is_file,
            ) is None,
            r matches Err(e) ==> is_manifest_error(
                e,
                manifest_problem(
                    self.id@,
                    self.version@,
                    string_views(self.capabilities@),
                    self.entry@,
                    entry_is_file,
                )->Some_0,
            ),
    {
        let ok = regex_is_match("^[a-z0-9][a-z0-9\\-]*[a-z0-9]$", self.id.as_str());
        if ok != Some(true) {
            return Err(PluginError::ManifestParse(String::from_str("id must be kebab-case")));
        }
        match PluginVersion::try_from(self.version.as_str()) {
            Ok(_) => {},
            Err(e) => {
                return Err(PluginError::ManifestParse(e));
            },
        }
        let (n, joined) = unknown_capabilities(&self.capabilities);
        if n > 0 {
            let m = String::from_str("unknown capabilities: ").concat(joined.as_str());
            return Err(PluginError::ManifestParse(m));
        }
        if !entry_is_file {
            let mut m = String::from_str("entry file '");
            m.append(self.entry.as_str());
            m.append("' not found");
            return Err(PluginError::ManifestParse(m));
        }
        let supported = match extension_of(self.entry.as_str()) {
            Some(e) => chars_eq_str(&e, "rhai") || chars_eq_str(&e, "wasm"),
            None => false,
        };
        if !supported {
            return Err(PluginError::ManifestParse(String::from_str("entry must be .rhai or .wasm")));
        }
        Ok(())
    }

    /// The plugin's metadata; a version that does not parse is a
    /// `ManifestParse` error carrying the parse error.
    pub fn to_meta(&self) -> (r: Result<PluginMeta, PluginError>)
        ensures
            r matches Ok(m) ==> version_parse(self.version@) == Ok::<PluginVersion, Seq<char>>(
                m.version,
            ) && m.id.0@ == self.id@ && m.name@ == self.name@ && m.description@
                == self.description@ && m.author@ == self.author@,
            r matches Err(e) ==> version_parse(self.version@) is Err && is_manifest_error(
                e,
                version_parse(self.version@)->Err_0,
            ),
    {
        let version = match PluginVersion::try_from(self.version.as_str()) {
            Ok(v) => v,
            Err(e) => {
                return Err(PluginError::ManifestParse(e));
            },
        };
        Ok(
            PluginMeta {
                id: PluginId(self.id.clone()),
                name: self.name.clone(),
                version,
                description: self.description.clone(),
                author: self.author.clone(),
            },
        )
    }

    /// The declared capabilities, in order; the first name that does not
    /// parse is a `ManifestParse` error carrying its parse error.
    pub fn to_capabilities(&self) -> (r: Result<Vec<Capability>, PluginError>)
        ensures
            r matches Ok(v) ==> v@.len() == self.capabilities@.len() && forall|i: int|
                0 <= i < v@.len() ==> capability_parse(#[trigger] self.capabilities@[i]@)
                    == Ok::<Capability, Seq<char>>(v@[i]),
            r matches Err(e) ==> exists|k: int|
                0 <= k < self.capabilities@.len() && (forall|i: int|
                    0 <= i < k ==> capability_parse(#[trigger] self.capabilities@[i]@) is Ok)
                    && capability_parse(self.capabilities@[k]@) is Err && is_manifest_error(
                    e,
                    capability_parse(self.capabilities@[k]@)->Err_0,
                ),
    {
        let mut out: Vec<Capability> = Vec::new();
        let mut i: usize = 0;
        while i < self.capabilities.len()
            invariant
                i <= self.capabilities@.len(),
                out@.len() == i,
                forall|j: int|
                    0 <= j < i ==> capability_parse(#[trigger] self.capabilities@[j]@) == Ok::<
                        Capability,
                        Seq<char>,
                    >(out@[j]),
            decreases self.capabilities.len() - i,
        {
            match Capability::try_from(self.capabilities[i].as_str()) {
                Ok(c) => {
                    out.push(c);
                },
                Err(e) => {
                    let r = PluginError::ManifestParse(e);
                    assert(forall|j: int|
                        0 <= j < i ==> capability_parse(#[trigger] self.capabilities@[j]@) is Ok);
                    return Err(r);
                },
            }
            i = i + 1;
        }
        Ok(out)
    }
}

} // verus!
