//! Plugin manifests and the in-memory plugin registry.
//!
//! Plugins are registered by manifest under a unique name and looked up by
//! domain or capability. Executing a plugin needs a WebAssembly runtime,
//! which this build does not include.

use vstd::prelude::*;
use std::collections::HashMap;
use crate::text::{
    lowercase, has_prefix, has_suffix, to_lower, chars_of, str_eq, ends_with_chars, chars_eq,
    occurs_at_exec, concat2, push_str, owned,
};

verus! {

/// External declaration of `serde_json::Value`, carried opaquely.
#[verifier::external_type_specification]
#[verifier::external_body]
pub struct ExJsonValue(serde_json::Value);

/// Declares what a plugin is able to do.
#[derive(Debug, Clone, Copy, PartialEq, Eq, Structural)]
pub enum PluginCapability {
    /// Custom content extraction from a page.
    Extract,
    /// Modify / transform page content.
    Transform,
    /// Custom navigation logic.
    Navigate,
    /// Custom authentication flow.
    Auth,
    /// Custom search provider.
    Search,
}

/// Metadata describing a plugin.
#[derive(Debug, Clone)]
pub struct PluginManifest {
    /// Unique plugin name (the registry key).
    pub name: String,
    pub version: String,
    pub description: String,
    pub author: Option<String>,
    /// Domain patterns the plugin handles; a leading `*.` is a wildcard.
    pub domains: Vec<String>,
    pub capabilities: Vec<PluginCapability>,
    /// Name of the function to call when executing the plugin.
    pub entry_point: String,
}

/// Data passed into a plugin execution.
#[derive(Debug, Clone)]
pub struct PluginInput {
    pub url: String,
    pub html: String,
    pub dom_snapshot: Option<String>,
    pub custom_data: HashMap<String, String>,
}

/// Result returned from a plugin execution.
#[derive(Debug)]
pub struct PluginOutput {
    pub success: bool,
    pub data: serde_json::Value,
    pub actions: Vec<String>,
    pub error: Option<String>,
    pub duration_ms: u64,
}

/// A plugin that has been registered.
#[derive(Debug, Clone)]
pub struct RegisteredPlugin {
    pub manifest: PluginManifest,
    /// Raw module bytes; `None` if not loaded.
    pub wasm_bytes: Option<Vec<u8>>,
    pub loaded: bool,
}

/// In-memory registry of plugins, each name at most once.
pub struct PluginRegistry {
    plugins: Vec<RegisteredPlugin>,
}

// ---------------------------------------------------------------------------
// Specifications
// ---------------------------------------------------------------------------

/// Plugin names occur at most once.
pub open spec fn names_unique(ps: Seq<RegisteredPlugin>) -> bool {
    forall|i: int, j: int|
        0 <= i < j < ps.len() ==> ps[i].manifest.name@ != ps[j].manifest.name@
}

/// Some plugin is registered under `name`.
pub open spec fn has_name(ps: Seq<RegisteredPlugin>, name: Seq<char>) -> bool {
    exists|i: int| 0 <= i < ps.len() && #[trigger] ps[i].manifest.name@ == name
}

/// Whether a manifest domain pattern `pattern` covers the lower-cased `domain`.
pub open spec fn domain_pattern_matches(pattern: Seq<char>, domain: Seq<char>) -> bool {
    let d = lowercase(pattern);
    if has_prefix(d, "*."@) {
        has_suffix(domain, d.subrange(1, d.len() as int)) || domain == d.subrange(
            2,
            d.len() as int,
        )
    } else {
        d == domain
    }
}

/// Some domain pattern of the manifest covers the lower-cased `domain`.
pub open spec fn handles_domain(m: PluginManifest, domain: Seq<char>) -> bool {
    exists|i: int| 0 <= i < m.domains.len() && domain_pattern_matches(#[trigger] m.domains@[i]@, domain)
}

/// The plugins whose manifests cover the lower-cased `domain`, in order.
pub open spec fn plugins_for_domain(ps: Seq<RegisteredPlugin>, domain: Seq<char>) -> Seq<RegisteredPlugin>
    decreases ps.len(),
{
    if ps.len() == 0 {
        Seq::empty()
    } else {
        let rest = plugins_for_domain(ps.drop_last(), domain);
        if handles_domain(ps.last().manifest, domain) {
            rest.push(ps.last())
        } else {
            rest
        }
    }
}

/// The plugins that declare `cap`, in order.
pub open spec fn plugins_with_capability(ps: Seq<RegisteredPlugin>, cap: PluginCapability) -> Seq<RegisteredPlugin>
    decreases ps.len(),
{
    if ps.len() == 0 {
        Seq::empty()
    } else {
        let rest = plugins_with_capability(ps.drop_last(), cap);
        if ps.last().manifest.capabilities@.contains(cap) {
            rest.push(ps.last())
        } else {
            rest
        }
    }
}

/// `ps` without the plugins named `name`, in order.
pub open spec fn without_name(ps: Seq<RegisteredPlugin>, name: Seq<char>) -> Seq<RegisteredPlugin>
    decreases ps.len(),
{
    if ps.len() == 0 {
        Seq::empty()
    } else {
        let rest = without_name(ps.drop_last(), name);
        if ps.last().manifest.name@ == name {
            rest
        } else {
            rest.push(ps.last())
        }
    }
}

/// The entry a freshly registered manifest gets.
pub open spec fn fresh_entry(m: PluginManifest) -> RegisteredPlugin {
    RegisteredPlugin { manifest: m, wasm_bytes: None, loaded: false }
}

/// Message of a rejected duplicate registration.
pub open spec fn duplicate_message(name: Seq<char>) -> Seq<char> {
    "plugin '"@ + name + "' is already registered"@
}

/// Message of a plugin execution without a runtime.
pub open spec fn no_runtime_message() -> Seq<char> {
    "WASM runtime not available \u{2014} compile with --features wasm"@
}

// ---------------------------------------------------------------------------
// Domain matching
// ---------------------------------------------------------------------------

fn pattern_matches(pattern: &str, domain: &Vec<char>) -> (b: bool)
    ensures
        b == domain_pattern_matches(pattern@, domain@),
{
    let dl = to_lower(pattern);
    let d = chars_of(dl.as_str());
    let star = chars_of("*.");
    proof { reveal_strlit("*."); }
    if occurs_at_exec(&d, &star, 0) {
        let mut tail1: Vec<char> = Vec::new();
        let mut i: usize = 1;
        while i < d.len()
            invariant
                1 <= i <= d.len(),
                tail1@ == d@.subrange(1, i as int),
            decreases d.len() - i,
        {
            tail1.push(d[i]);
            i += 1;
            assert(d@.subrange(1, i as int) =~= d@.subrange(1, i - 1).push(d@[i - 1]));
        }
        let mut tail2: Vec<char> = Vec::new();
        let mut j: usize = 2;
        while j < d.len()
            invariant
                2 <= j <= d.len(),
                tail2@ == d@.subrange(2, j as int),
            decreases d.len() - j,
        {
            tail2.push(d[j]);
            j += 1;
            assert(d@.subrange(2, j as int) =~= d@.subrange(2, j - 1).push(d@[j - 1]));
        }
        proof {
            assert(star@ == "*."@);
            assert(d@.subrange(0, star@.len() as int) == star@);
        }
        ends_with_chars(domain, &tail1) || chars_eq(domain, &tail2)
    } else {
        chars_eq(&d, domain)
    }
}

fn manifest_handles(m: &PluginManifest, domain: &Vec<char>) -> (b: bool)
    ensures
        b == handles_domain(*m, domain@),
{
    let mut i: usize = 0;
    while i < m.domains.len()
        invariant
            i <= m.domains.len(),
            forall|k: int| 0 <= k < i ==> !domain_pattern_matches(#[trigger] m.domains@[k]@, domain@),
        decreases m.domains.len() - i,
    {
        if pattern_matches(m.domains[i].as_str(), domain) {
            return true;
        }
        i += 1;
    }
    false
}

fn has_capability(caps: &Vec<PluginCapability>, cap: PluginCapability) -> (b: bool)
    ensures
        b == caps@.contains(cap),
{
    let mut i: usize = 0;
    while i < caps.len()
        invariant
            i <= caps.len(),
            forall|k: int| 0 <= k < i ==> caps@[k] != cap,
        decreases caps.len() - i,
    {
        if caps[i] == cap {
            return true;
        }
        i += 1;
    }
    false
}

// ---------------------------------------------------------------------------
// Registry
// ---------------------------------------------------------------------------

impl PluginRegistry {
    /// The registered plugins, in registration order.
    pub closed spec fn entries(&self) -> Seq<RegisteredPlugin> {
        self.plugins@
    }

    /// No name is registered twice.
    pub open spec fn wf(&self) -> bool {
        names_unique(self.entries())
    }

    /// An empty registry.
    pub fn new() -> (r: Self)
        ensures
            r.wf(),
            r.entries() == Seq::<RegisteredPlugin>::empty(),
    {
        PluginRegistry { plugins: Vec::new() }
    }

    /// Register a plugin from its manifest. A name that is already
    /// registered is refused with an error and the registry is unchanged.
    pub fn register(&mut self, manifest: PluginManifest) -> (r: Result<(), String>)
        requires
            old(self).wf(),
        ensures
            final(self).wf(),
            has_name(old(self).entries(), manifest.name@) ==> r is Err,
            has_name(old(self).entries(), manifest.name@) ==> r->Err_0@ == duplicate_message(
                manifest.name@,
            ),
            has_name(old(self).entries(), manifest.name@) ==> final(self).entries() == old(
                self,
            ).entries(),
            !has_name(old(self).entries(), manifest.name@) ==> r is Ok && final(self).entries()
                == old(self).entries().push(fresh_entry(manifest)),
    {
        let mut i: usize = 0;
        while i < self.plugins.len()
            invariant
                i <= self.plugins.len(),
                self.plugins@ == old(self).plugins@,
                names_unique(self.plugins@),
                forall|k: int| 0 <= k < i ==> self.plugins@[k].manifest.name@ != manifest.name@,
            decreases self.plugins.len() - i,
        {
            if str_eq(self.plugins[i].manifest.name.as_str(), manifest.name.as_str()) {
                let mut msg = concat2("plugin '", manifest.name.as_str());
                push_str(&mut msg, "' is already registered");
                assert(msg@ == duplicate_message(manifest.name@));
                assert(has_name(self.plugins@, manifest.name@));
                return Err(msg);
            }
            i += 1;
        }
        let ghost before = self.plugins@;
        assert(!has_name(before, manifest.name@));
        self.plugins.push(RegisteredPlugin { manifest, wasm_bytes: None, loaded: false });
        proof {
            let n = self.plugins@;
            assert forall|a: int, b: int| 0 <= a < b < n.len() implies n[a].manifest.name@
                != n[b].manifest.name@ by {
                if b == n.len() - 1 {
                    assert(n[a] == before[a]);
                } else {
                    assert(n[a] == before[a] && n[b] == before[b]);
                }
            }
        }
        Ok(())
    }

    /// Register a plugin found on disk with its module bytes, if they could
    /// be read; it counts as loaded when they were. A name that is already
    /// registered is skipped and the registry is unchanged. Answers whether
    /// the plugin was added.
    pub fn register_loaded(&mut self, manifest: PluginManifest, wasm_bytes: Option<Vec<u8>>) -> (added: bool)
        requires
            old(self).wf(),
        ensures
            final(self).wf(),
            added == !has_name(old(self).entries(), manifest.name@),
            !added ==> final(self).entries() == old(self).entries(),
            added ==> final(self).entries() == old(self).entries().push(RegisteredPlugin {
                manifest,
                loaded: wasm_bytes is Some,
                wasm_bytes,
            }),
    {
        let mut i: usize = 0;
        while i < self.plugins.len()
            invariant
                i <= self.plugins.len(),
                self.plugins@ == old(self).plugins@,
                names_unique(self.plugins@),
                forall|k: int| 0 <= k < i ==> self.plugins@[k].manifest.name@ != manifest.name@,
            decreases self.plugins.len() - i,
        {
            if str_eq(self.plugins[i].manifest.name.as_str(), manifest.name.as_str()) {
                assert(has_name(self.plugins@, manifest.name@));
                return false;
            }
            i += 1;
        }
        let ghost before = self.plugins@;
        assert(!has_name(before, manifest.name@));
        let loaded = wasm_bytes.is_some();
        self.plugins.push(RegisteredPlugin { manifest, wasm_bytes, loaded });
        proof {
            let n = self.plugins@;
            assert forall|a: int, b: int| 0 <= a < b < n.len() implies n[a].manifest.name@
                != n[b].manifest.name@ by {
                if b == n.len() - 1 {
                    assert(n[a] == before[a]);
                } else {
                    assert(n[a] == before[a] && n[b] == before[b]);
                }
            }
        }
        true
    }

    /// The plugins whose domain list covers `domain` (compared in lower
    /// case; `*.example.com` covers `shop.example.com` and `example.com`).
    pub fn find_for_domain(&self, domain: &str) -> (r: Vec<&RegisteredPlugin>)
        ensures
            r@.map_values(|p: &RegisteredPlugin| *p) == plugins_for_domain(
                self.entries(),
                lowercase(domain@),
            ),
    {
        let lower = to_lower(domain);
        let lc = chars_of(lower.as_str());
        let mut r: Vec<&RegisteredPlugin> = Vec::new();
        let mut i: usize = 0;
        while i < self.plugins.len()
            invariant
                i <= self.plugins.len(),
                lc@ == lowercase(domain@),
                r@.map_values(|p: &RegisteredPlugin| *p) == plugins_for_domain(
                    self.plugins@.take(i as int),
                    lc@,
                ),
            decreases self.plugins.len() - i,
        {
            assert(self.plugins@.take(i + 1).drop_last() =~= self.plugins@.take(i as int));
            let ghost before = r@.map_values(|p: &RegisteredPlugin| *p);
            if manifest_handles(&self.plugins[i].manifest, &lc) {
                r.push(&self.plugins[i]);
                assert(r@.map_values(|p: &RegisteredPlugin| *p) =~= before.push(self.plugins@[i as int]));
            }
            i += 1;
        }
        assert(self.plugins@.take(i as int) =~= self.plugins@);
        r
    }

    /// The plugins that declare capability `cap`.
    pub fn find_by_capability(&self, cap: PluginCapability) -> (r: Vec<&RegisteredPlugin>)
        ensures
            r@.map_values(|p: &RegisteredPlugin| *p) == plugins_with_capability(self.entries(), cap),
    {
        let mut r: Vec<&RegisteredPlugin> = Vec::new();
        let mut i: usize = 0;
        while i < self.plugins.len()
            invariant
                i <= self.plugins.len(),
                r@.map_values(|p: &RegisteredPlugin| *p) == plugins_with_capability(
                    self.plugins@.take(i as int),
                    cap,
                ),
            decreases self.plugins.len() - i,
        {
            assert(self.plugins@.take(i + 1).drop_last() =~= self.plugins@.take(i as int));
            let ghost before = r@.map_values(|p: &RegisteredPlugin| *p);
            if has_capability(&self.plugins[i].manifest.capabilities, cap) {
                r.push(&self.plugins[i]);
                assert(r@.map_values(|p: &RegisteredPlugin| *p) =~= before.push(self.plugins@[i as int]));
            }
            i += 1;
        }
        assert(self.plugins@.take(i as int) =~= self.plugins@);
        r
    }

    /// The manifests of all registered plugins, in registration order.
    pub fn list(&self) -> (r: Vec<&PluginManifest>)
        ensures
            r@.map_values(|m: &PluginManifest| *m) == self.entries().map_values(
                |p: RegisteredPlugin| p.manifest,
            ),
    {
        let mut r: Vec<&PluginManifest> = Vec::new();
        let mut i: usize = 0;
        while i < self.plugins.len()
            invariant
                i <= self.plugins.len(),
                r@.map_values(|m: &PluginManifest| *m) == self.plugins@.take(i as int).map_values(
                    |p: RegisteredPlugin| p.manifest,
                ),
            decreases self.plugins.len() - i,
        {
            let ghost before = r@.map_values(|m: &PluginManifest| *m);
            r.push(&self.plugins[i].manifest);
            assert(r@.map_values(|m: &PluginManifest| *m) =~= before.push(self.plugins@[i as int].manifest));
            assert(self.plugins@.take(i + 1).map_values(|p: RegisteredPlugin| p.manifest) =~= self.plugins@.take(
                i as int,
            ).map_values(|p: RegisteredPlugin| p.manifest).push(self.plugins@[i as int].manifest));
            i += 1;
        }
        assert(self.plugins@.take(i as int) =~= self.plugins@);
        r
    }

    /// Remove the plugin named `name`; `true` when one was removed.
    pub fn remove(&mut self, name: &str) -> (b: bool)
        requires
            old(self).wf(),
        ensures
            final(self).wf(),
            final(self).entries() == without_name(old(self).entries(), name@),
            b == has_name(old(self).entries(), name@),
    {
        let mut kept: Vec<RegisteredPlugin> = Vec::new();
        let mut found = false;
        let ghost old_ps = self.plugins@;
        while self.plugins.len() > 0
            invariant
                old_ps.len() >= self.plugins@.len(),
                self.plugins@ == old_ps.take(self.plugins@.len() as int),
                names_unique(old_ps),
                without_name(old_ps, name@) == without_name(self.plugins@, name@) + kept@.reverse(),
                found == exists|k: int|
                    self.plugins@.len() <= k < old_ps.len() && #[trigger] old_ps[k].manifest.name@
                        == name@,
            decreases self.plugins.len(),
        {
            let ghost cur = self.plugins@;
            let p = self.plugins.pop().unwrap();
            assert(cur.drop_last() =~= self.plugins@);
            assert(old_ps.take(self.plugins@.len() as int) =~= cur.drop_last());
            assert(cur.last() == old_ps[self.plugins@.len() as int]);
            if str_eq(p.manifest.name.as_str(), name) {
                found = true;
            } else {
                let ghost kbefore = kept@;
                kept.push(p);
                assert(kept@.reverse() =~= seq![cur.last()] + kbefore.reverse());
                assert(without_name(cur, name@) == without_name(self.plugins@, name@).push(cur.last()));
                assert(without_name(self.plugins@, name@).push(cur.last()) + kbefore.reverse()
                    =~= without_name(self.plugins@, name@) + kept@.reverse());
            }
        }
        let mut out: Vec<RegisteredPlugin> = Vec::new();
        let ghost rev = kept@.reverse();
        assert(without_name(self.plugins@, name@) =~= Seq::<RegisteredPlugin>::empty());
        assert(without_name(old_ps, name@) =~= rev);
        while kept.len() > 0
            invariant
                rev == without_name(old_ps, name@),
                out@ + kept@.reverse() == rev,
            decreases kept.len(),
        {
            let ghost kb = kept@;
            let p = kept.pop().unwrap();
            assert(kb.reverse() =~= seq![p] + kept@.reverse());
            out.push(p);
            assert(out@ + kept@.reverse() =~= rev);
        }
        assert(out@ =~= rev);
        self.plugins = out;
        proof { lemma_without_name_sub(old_ps, name@); }
        found
    }

    /// The number of registered plugins.
    pub fn plugin_count(&self) -> (n: usize)
        ensures
            n == self.entries().len(),
    {
        self.plugins.len()
    }
}

/// Execute a plugin. This build has no WebAssembly runtime, so execution is
/// always refused with the same message.
pub fn execute_plugin(plugin: &RegisteredPlugin, input: PluginInput) -> (r: Result<PluginOutput, String>)
    ensures
        r is Err && r->Err_0@ == no_runtime_message(),
{
    Err(owned("WASM runtime not available \u{2014} compile with --features wasm"))
}

// ---------------------------------------------------------------------------
// Laws
// ---------------------------------------------------------------------------

proof fn lemma_without_name_sub(ps: Seq<RegisteredPlugin>, name: Seq<char>)
    requires
        names_unique(ps),
    ensures
        names_unique(without_name(ps, name)),
        forall|i: int| 0 <= i < without_name(ps, name).len() ==> #[trigger] without_name(ps, name)[i].manifest.name@ != name,
        forall|i: int|
            0 <= i < without_name(ps, name).len() ==> ps.contains(#[trigger] without_name(ps, name)[i]),
    decreases ps.len(),
{
    if ps.len() > 0 {
        let front = ps.drop_last();
        assert(names_unique(front));
        lemma_without_name_sub(front, name);
        let rest = without_name(front, name);
        if ps.last().manifest.name@ != name {
            assert forall|i: int| 0 <= i < rest.len() implies rest[i].manifest.name@ != ps.last().manifest.name@ by {
                assert(front.contains(rest[i]));
                let k = choose|k: int| 0 <= k < front.len() && front[k] == rest[i];
                assert(front[k] == ps[k]);
            }
            let n = rest.push(ps.last());
            assert forall|i: int| 0 <= i < n.len() implies ps.contains(#[trigger] n[i]) by {
                if i < rest.len() {
                    assert(front.contains(rest[i]));
                    let k = choose|k: int| 0 <= k < front.len() && front[k] == rest[i];
                    assert(ps[k] == front[k]);
                } else {
                    assert(ps[ps.len() - 1] == ps.last());
                }
            }
        } else {
            assert forall|i: int| 0 <= i < rest.len() implies ps.contains(#[trigger] rest[i]) by {
                assert(front.contains(rest[i]));
                let k = choose|k: int| 0 <= k < front.len() && front[k] == rest[i];
                assert(ps[k] == front[k]);
            }
        }
    }
}

proof fn lemma_without_absent(ps: Seq<RegisteredPlugin>, name: Seq<char>)
    requires
        !has_name(ps, name),
    ensures
        without_name(ps, name) == ps,
    decreases ps.len(),
{
    if ps.len() > 0 {
        assert(!has_name(ps.drop_last(), name)) by {
            if has_name(ps.drop_last(), name) {
                let k = choose|k: int| 0 <= k < ps.drop_last().len() && #[trigger] ps.drop_last()[k].manifest.name@ == name;
                assert(ps[k] == ps.drop_last()[k]);
            }
        }
        lemma_without_absent(ps.drop_last(), name);
        assert(ps.last() == ps[ps.len() - 1]);
        assert(ps.drop_last().push(ps.last()) =~= ps);
    }
}

/// Registering a new name and then removing it gives back the registry's
/// previous contents.
pub proof fn lemma_remove_undoes_register(ps: Seq<RegisteredPlugin>, m: PluginManifest)
    requires
        !has_name(ps, m.name@),
    ensures
        without_name(ps.push(fresh_entry(m)), m.name@) == ps,
{
    let n = ps.push(fresh_entry(m));
    assert(n.drop_last() =~= ps);
    lemma_without_absent(ps, m.name@);
}

/// After removal, no plugin of that name is registered.
pub proof fn lemma_removed_name_absent(ps: Seq<RegisteredPlugin>, name: Seq<char>)
    requires
        names_unique(ps),
    ensures
        !has_name(without_name(ps, name), name),
{
    lemma_without_name_sub(ps, name);
}

/// A wildcard pattern `*.d` covers every subdomain of `d`, and `d` itself.
pub proof fn lemma_wildcard_covers(pattern: Seq<char>, d: Seq<char>, s: Seq<char>)
    requires
        lowercase(pattern) == "*."@ + d,
    ensures
        domain_pattern_matches(pattern, s + "."@ + d),
        domain_pattern_matches(pattern, d),
{
    reveal_strlit("*.");
    reveal_strlit(".");
    let p = lowercase(pattern);
    assert(p.subrange(0, 2) =~= "*."@);
    assert(p.subrange(1, p.len() as int) =~= "."@ + d);
    assert(p.subrange(2, p.len() as int) =~= d);
    let dom = s + "."@ + d;
    let suf = "."@ + d;
    assert(dom.subrange(dom.len() - suf.len(), dom.len() as int) =~= suf);
}

/// A domain lookup returns every registered plugin whose manifest lists a
/// pattern covering the domain: in particular, a plugin listing `*.d` is
/// found by a lookup of any subdomain `s.d` (and of `d`).
pub proof fn lemma_lookup_finds_wildcard(ps: Seq<RegisteredPlugin>, i: int, k: int, d: Seq<char>, s: Seq<char>)
    requires
        0 <= i < ps.len(),
        0 <= k < ps[i].manifest.domains.len(),
        lowercase(ps[i].manifest.domains@[k]@) == "*."@ + d,
    ensures
        plugins_for_domain(ps, s + "."@ + d).contains(ps[i]),
        plugins_for_domain(ps, d).contains(ps[i]),
{
    lemma_wildcard_covers(ps[i].manifest.domains@[k]@, d, s);
    assert(handles_domain(ps[i].manifest, s + "."@ + d));
    assert(handles_domain(ps[i].manifest, d));
    lemma_handling_plugin_found(ps, i, s + "."@ + d);
    lemma_handling_plugin_found(ps, i, d);
}

/// A plugin whose manifest lists the looked-up domain itself (in any case)
/// is returned by the lookup.
pub proof fn lemma_lookup_finds_exact(ps: Seq<RegisteredPlugin>, i: int, k: int, domain: Seq<char>)
    requires
        0 <= i < ps.len(),
        0 <= k < ps[i].manifest.domains.len(),
        lowercase(ps[i].manifest.domains@[k]@) == domain,
    ensures
        plugins_for_domain(ps, domain).contains(ps[i]),
{
    reveal_strlit("*.");
    let d = lowercase(ps[i].manifest.domains@[k]@);
    if has_prefix(d, "*."@) {
        assert(d.len() >= 2);
        assert(domain.subrange(domain.len() - d.subrange(1, d.len() as int).len(), domain.len() as int)
            =~= d.subrange(1, d.len() as int));
    }
    assert(domain_pattern_matches(ps[i].manifest.domains@[k]@, domain));
    assert(handles_domain(ps[i].manifest, domain));
    lemma_handling_plugin_found(ps, i, domain);
}

proof fn lemma_handling_plugin_found(ps: Seq<RegisteredPlugin>, i: int, domain: Seq<char>)
    requires
        0 <= i < ps.len(),
        handles_domain(ps[i].manifest, domain),
    ensures
        plugins_for_domain(ps, domain).contains(ps[i]),
    decreases ps.len(),
{
    let r = plugins_for_domain(ps, domain);
    if i == ps.len() - 1 {
        assert(r.last() == ps[i]);
        assert(r[r.len() - 1] == ps[i]);
    } else {
        let p = ps.drop_last();
        assert(p[i] == ps[i]);
        lemma_handling_plugin_found(p, i, domain);
        let rest = plugins_for_domain(p, domain);
        let j = choose|j: int| 0 <= j < rest.len() && rest[j] == ps[i];
        if handles_domain(ps.last().manifest, domain) {
            assert(r[j] == rest[j]);
        }
    }
}

/// Removal takes away exactly one plugin when the name is registered and
/// none otherwise (names being unique).
pub proof fn lemma_remove_count(ps: Seq<RegisteredPlugin>, name: Seq<char>)
    requires
        names_unique(ps),
    ensures
        without_name(ps, name).len() == ps.len() - (if has_name(ps, name) { 1int } else { 0int }),
    decreases ps.len(),
{
    if ps.len() > 0 {
        let p = ps.drop_last();
        assert(names_unique(p)) by {
            assert forall|i: int, j: int| 0 <= i < j < p.len() implies p[i].manifest.name@ != p[j].manifest.name@ by {
                assert(p[i] == ps[i] && p[j] == ps[j]);
            }
        }
        lemma_remove_count(p, name);
        if ps.last().manifest.name@ == name {
            assert(has_name(ps, name)) by {
                assert(ps[ps.len() - 1].manifest.name@ == name);
            }
            assert(!has_name(p, name)) by {
                if has_name(p, name) {
                    let k = choose|k: int| 0 <= k < p.len() && #[trigger] p[k].manifest.name@ == name;
                    assert(ps[k].manifest.name@ != ps[ps.len() - 1].manifest.name@);
                }
            }
        } else {
            assert(has_name(ps, name) == has_name(p, name)) by {
                if has_name(ps, name) {
                    let k = choose|k: int| 0 <= k < ps.len() && #[trigger] ps[k].manifest.name@ == name;
                    assert(k < p.len());
                    assert(p[k] == ps[k]);
                }
                if has_name(p, name) {
                    let k = choose|k: int| 0 <= k < p.len() && #[trigger] p[k].manifest.name@ == name;
                    assert(ps[k] == p[k]);
                }
            }
        }
    }
}

/// A capability search returns only plugins declaring that capability,
/// and a domain search only plugins covering that domain.
pub proof fn lemma_search_results_match(ps: Seq<RegisteredPlugin>, cap: PluginCapability, domain: Seq<char>)
    ensures
        forall|i: int| 0 <= i < plugins_with_capability(ps, cap).len() ==>
            (#[trigger] plugins_with_capability(ps, cap)[i]).manifest.capabilities@.contains(cap),
        forall|i: int| 0 <= i < plugins_for_domain(ps, domain).len() ==>
            handles_domain((#[trigger] plugins_for_domain(ps, domain)[i]).manifest, domain),
    decreases ps.len(),
{
    if ps.len() > 0 {
        lemma_search_results_match(ps.drop_last(), cap, domain);
    }
}

} // verus!
