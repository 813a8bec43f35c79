//! Per-plugin key-value storage: how keys become file names, and which
//! stored keys a prefix listing returns.

use vstd::prelude::*;
use vstd::string::StringExecFns;
use crate::broker::string_views;
use crate::text::{chars_of, has_prefix, starts_with, string_of};
use crate::plugin::types::PluginId;

verus! {

broadcast use vstd::string::group_string_axioms;

/// Where a plugin's values live: one file per key under `base_dir`.
#[derive(Debug, Clone)]
pub struct PluginKvStore {
    pub plugin_id: PluginId,
    pub base_dir: String,
}

/// The longest key a file name carries, in characters.
pub const MAX_KEY_CHARS: usize = 200;

/// Path separators and the drive separator become `_`.
pub open spec fn unsep(c: char) -> char {
    if c == '/' || c == '\\' || c == ':' {
        '_'
    } else {
        c
    }
}

/// Each `..` becomes `__`, scanning left to right without overlap.
pub open spec fn undot(s: Seq<char>) -> Seq<char>
    decreases s.len(),
{
    if s.len() >= 2 && s[0] == '.' && s[1] == '.' {
        seq!['_', '_'] + undot(s.skip(2))
    } else if s.len() >= 1 {
        seq![s[0]] + undot(s.skip(1))
    } else {
        s
    }
}

/// The file-name-safe form of a storage key: separators replaced, `..`
/// replaced, cut to 200 characters, `_empty_` for an empty result.
pub open spec fn sanitized(key: Seq<char>) -> Seq<char> {
    let t = undot(key.map_values(|c: char| unsep(c)));
    let cut = if t.len() > 200 {
        t.take(200)
    } else {
        t
    };
    if cut.len() == 0 {
        "_empty_"@
    } else {
        cut
    }
}

/// The file a key is stored in: `<base_dir>/<sanitized key>.val`, joined
/// as `Path::join` joins a relative name.
pub open spec fn key_path(base: Seq<char>, key: Seq<char>) -> Seq<char> {
    let name = sanitized(key) + ".val"@;
    if base.len() == 0 {
        name
    } else if base.last() == '/' {
        base + name
    } else {
        base + "/"@ + name
    }
}

proof fn lemma_undot_len(s: Seq<char>)
    ensures
        undot(s).len() == s.len(),
    decreases s.len(),
{
    if s.len() >= 2 && s[0] == '.' && s[1] == '.' {
        lemma_undot_len(s.skip(2));
    } else if s.len() >= 1 {
        lemma_undot_len(s.skip(1));
    }
}

/// Undotting never yields a `..`, and never starts with `.` when the input
/// starts with `..`; its first character is the input's first, or `_`.
proof fn lemma_undot_shape(s: Seq<char>)
    ensures
        forall|i: int| 0 <= i < undot(s).len() - 1 ==> !(#[trigger] undot(s)[i] == '.' && undot(s)[i + 1] == '.'),
        s.len() > 0 ==> undot(s).len() > 0 && (undot(s)[0] == s[0] || undot(s)[0] == '_'),
        s.len() > 0 && s[0] != '.' ==> undot(s)[0] == s[0],
        forall|i: int| 0 <= i < undot(s).len() ==> (#[trigger] undot(s)[i] == '_' || s.contains(undot(s)[i])),
    decreases s.len(),
{
    lemma_undot_len(s);
    if s.len() >= 2 && s[0] == '.' && s[1] == '.' {
        let rest = s.skip(2);
        lemma_undot_shape(rest);
        lemma_undot_len(rest);
        let u = undot(s);
        assert(u == seq!['_', '_'] + undot(rest));
        assert forall|i: int| 0 <= i < u.len() - 1 implies !(#[trigger] u[i] == '.' && u[i + 1] == '.') by {
            if i >= 2 {
                assert(u[i] == undot(rest)[i - 2]);
                assert(u[i + 1] == undot(rest)[i - 1]);
            }
        }
        assert forall|i: int| 0 <= i < u.len() implies (#[trigger] u[i] == '_' || s.contains(u[i])) by {
            if i >= 2 {
                assert(u[i] == undot(rest)[i - 2]);
                if rest.contains(u[i]) {
                    let j = choose|j: int| 0 <= j < rest.len() && rest[j] == u[i];
                    assert(s[j + 2] == u[i]);
                }
            }
        }
    } else if s.len() >= 1 {
        let rest = s.skip(1);
        lemma_undot_shape(rest);
        lemma_undot_len(rest);
        let u = undot(s);
        assert(u == seq![s[0]] + undot(rest));
        assert forall|i: int| 0 <= i < u.len() - 1 implies !(#[trigger] u[i] == '.' && u[i + 1] == '.') by {
            if i >= 1 {
                assert(u[i] == undot(rest)[i - 1]);
                assert(u[i + 1] == undot(rest)[i]);
            } else {
                if s[0] == '.' && rest.len() > 0 {
                    assert(rest[0] == s[1]);
                    assert(s[1] != '.');
                    assert(undot(rest)[0] == rest[0]);
                }
            }
        }
        assert forall|i: int| 0 <= i < u.len() implies (#[trigger] u[i] == '_' || s.contains(u[i])) by {
            if i >= 1 {
                assert(u[i] == undot(rest)[i - 1]);
                if rest.contains(u[i]) {
                    let j = choose|j: int| 0 <= j < rest.len() && rest[j] == u[i];
                    assert(s[j + 1] == u[i]);
                }
            } else {
                assert(s[0] == u[0]);
            }
        }
    }
}

/// A sanitized key is non-empty, at most 200 characters, and holds no
/// `/`, `\`, `:` and no `..`: it names one file inside the store's
/// directory, whatever key a plugin passes.
pub proof fn lemma_sanitized_is_safe(key: Seq<char>)
    ensures
        0 < sanitized(key).len() <= 200,
        forall|i: int|
            0 <= i < sanitized(key).len() ==> #[trigger] sanitized(key)[i] != '/'
                && sanitized(key)[i] != '\\' && sanitized(key)[i] != ':',
        forall|i: int|
            0 <= i < sanitized(key).len() - 1 ==> !(#[trigger] sanitized(key)[i] == '.'
                && sanitized(key)[i + 1] == '.'),
{
    let m = key.map_values(|c: char| unsep(c));
    let t = undot(m);
    lemma_undot_len(m);
    lemma_undot_shape(m);
    reveal_strlit("_empty_");
    assert forall|i: int| 0 <= i < t.len() implies t[i] != '/' && t[i] != '\\' && t[i] != ':' by {
        if t[i] != '_' {
            assert(m.contains(t[i]));
            let j = choose|j: int| 0 <= j < m.len() && m[j] == t[i];
            assert(m[j] == unsep(key[j]));
        }
    }
    let cut = if t.len() > 200 {
        t.take(200)
    } else {
        t
    };
    assert forall|i: int| 0 <= i < cut.len() implies cut[i] == t[i] by {}
}

/// Replaces path separators, then `..`, cuts to 200 characters, and gives
/// `_empty_` for an empty key.
pub fn sanitize_key(key: &str) -> (r: String)
    ensures
        r@ == sanitized(key@),
{
    let v = chars_of(key);
    let mut m: Vec<char> = Vec::new();
    let mut i: usize = 0;
    while i < v.len()
        invariant
            i <= v@.len(),
            m@ == v@.take(i as int).map_values(|c: char| unsep(c)),
        decreases v.len() - i,
    {
        let c = v[i];
        if c == '/' || c == '\\' || c == ':' {
            m.push('_');
        } else {
            m.push(c);
        }
        i = i + 1;
        assert(m@ =~= v@.take(i as int).map_values(|c: char| unsep(c)));
    }
    assert(v@.take(v.len() as int) =~= v@);
    let mut out: Vec<char> = Vec::new();
    let mut j: usize = 0;
    assert(m@.skip(0) =~= m@);
    while j < m.len()
        invariant
            j <= m@.len(),
            undot(m@) == out@ + undot(m@.skip(j as int)),
        decreases m.len() - j,
    {
        if j + 1 < m.len() && m[j] == '.' && m[j + 1] == '.' {
            assert(m@.skip(j as int).skip(2) =~= m@.skip(j + 2));
            out.push('_');
            out.push('_');
            j = j + 2;
        } else {
            assert(m@.skip(j as int).skip(1) =~= m@.skip(j + 1));
            out.push(m[j]);
            j = j + 1;
        }
    }
    assert(m@.skip(m.len() as int) =~= Seq::<char>::empty());
    assert(out@ =~= undot(m@));
    let mut cut: Vec<char> = Vec::new();
    let mut k: usize = 0;
    while k < out.len() && k < 200
        invariant
            k <= out@.len(),
            k <= 200,
            cut@ =~= out@.take(k as int),
        decreases out.len() - k,
    {
        cut.push(out[k]);
        k = k + 1;
    }
    if out.len() <= 200 {
        assert(cut@ =~= out@);
    }
    if cut.len() == 0 {
        String::from_str("_empty_")
    } else {
        string_of(&cut)
    }
}

/// The file a key is stored in.
pub fn path_for(base_dir: &str, key: &str) -> (r: String)
    ensures
        r@ == key_path(base_dir@, key@),
{
    let mut name = sanitize_key(key);
    name.append(".val");
    let b = chars_of(base_dir);
    if b.len() == 0 {
        name
    } else if b[b.len() - 1] == '/' {
        String::from_str(base_dir).concat(name.as_str())
    } else {
        let mut p = String::from_str(base_dir);
        p.append("/");
        p.append(name.as_str());
        p
    }
}

/// The key part of a stored file name: the name without `.val`, if it ends so.
pub open spec fn stored_key(name: Seq<char>) -> Option<Seq<char>> {
    if name.len() >= 4 && name.skip(name.len() - 4) == ".val"@ {
        Some(name.take(name.len() - 4))
    } else {
        None
    }
}

/// The keys a prefix listing returns from the store's file names: names
/// ending in `.val`, stripped, that start with the sanitized prefix, in
/// directory order.
pub open spec fn listed_keys(names: Seq<Seq<char>>, prefix: Seq<char>) -> Seq<Seq<char>>
    decreases names.len(),
{
    if names.len() == 0 {
        Seq::empty()
    } else {
        let rest = listed_keys(names.drop_last(), prefix);
        match stored_key(names.last()) {
            Some(k) => if has_prefix(k, sanitized(prefix)) {
                rest.push(k)
            } else {
                rest
            },
            None => rest,
        }
    }
}

fn stored_key_of(name: &String) -> (r: Option<Vec<char>>)
    ensures
        r matches Some(k) ==> stored_key(name@) == Some(k@),
        r is None ==> stored_key(name@) is None,
{
    let v = chars_of(name.as_str());
    let n = v.len();
    proof {
        reveal_strlit(".val");
    }
    if n >= 4 && v[n - 4] == '.' && v[n - 3] == 'v' && v[n - 2] == 'a' && v[n - 1] == 'l' {
        assert(v@.skip(n - 4) =~= ".val"@);
        let mut k: Vec<char> = Vec::new();
        let mut i: usize = 0;
        while i < n - 4
            invariant
                n == v@.len(),
                n >= 4,
                i <= n - 4,
                k@ =~= v@.take(i as int),
            decreases n - 4 - i,
        {
            k.push(v[i]);
            i = i + 1;
        }
        Some(k)
    } else {
        proof {
            if n >= 4 && v@.skip(n - 4) == ".val"@ {
                assert(v@.skip(n - 4)[0] == v@[n - 4]);
                assert(v@.skip(n - 4)[1] == v@[n - 3]);
                assert(v@.skip(n - 4)[2] == v@[n - 2]);
                assert(v@.skip(n - 4)[3] == v@[n - 1]);
            }
        }
        None
    }
}

/// The keys a prefix listing returns, from the file names found in the
/// store's directory.
pub fn select_keys(names: &Vec<String>, prefix: &str) -> (r: Vec<String>)
    ensures
        string_views(r@) == listed_keys(string_views(names@), prefix@),
{
    let p = chars_of(sanitize_key(prefix).as_str());
    let ghost nv = string_views(names@);
    let mut out: Vec<String> = Vec::new();
    let mut i: usize = 0;
    assert(nv.take(0) =~= Seq::<Seq<char>>::empty());
    assert(string_views(out@) =~= Seq::<Seq<char>>::empty());
    while i < names.len()
        invariant
            i <= names@.len(),
            nv == string_views(names@),
            p@ == sanitized(prefix@),
            string_views(out@) == listed_keys(nv.take(i as int), prefix@),
        decreases names.len() - i,
    {
        assert(nv.take(i + 1).drop_last() =~= nv.take(i as int));
        assert(nv.take(i + 1).last() == names@[i as int]@);
        match stored_key_of(&names[i]) {
            Some(k) => {
                if starts_with(&k, &p) {
                    let ghost before = out@;
                    out.push(string_of(&k));
                    assert(string_views(out@) =~= string_views(before).push(k@));
                }
            },
            None => {},
        }
        i = i + 1;
    }
    assert(nv.take(names.len() as int) =~= nv);
    out
}

impl PluginKvStore {
    /// The file that holds `key`.
    pub fn key_path(&self, key: &str) -> (r: String)
        ensures
            r@ == key_path(self.base_dir@, key@),
    {
        path_for(self.base_dir.as_str(), key)
    }
}

} // verus!
