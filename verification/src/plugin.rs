//! The plugin registry: plugins that take over the rendering of fenced
//! blocks, directives or widgets with a given name.

use vstd::prelude::*;
use crate::plugins::MarkplusPlugin;

verus! {

/// What kind of node a plugin intercepts.
#[derive(Debug, Clone, Copy, PartialEq, Eq, Structural, Hash)]
pub enum PluginType {
    Fenced,
    Directive,
    Widget,
}

/// The plugins this crate provides.
#[derive(Debug, Clone, Copy, PartialEq, Eq, Structural, Hash)]
pub enum Plugin {
    Columns,
    Mermaid,
    Tabs,
    Tooltip,
}

/// The key under which a plugin is registered.
pub type PluginKey = (PluginType, Seq<char>);

/// The registry's contents: each key maps to the plugin registered under it.
pub type PluginMap = Map<(PluginType, Seq<char>), PluginEntry>;

impl Plugin {
    pub open spec fn spec_name(self) -> Seq<char> {
        match self {
            Plugin::Columns => "columns"@,
            Plugin::Mermaid => "mermaid"@,
            Plugin::Tabs => "tabs"@,
            Plugin::Tooltip => "tooltip"@,
        }
    }

    pub open spec fn spec_type(self) -> PluginType {
        match self {
            Plugin::Columns => PluginType::Directive,
            Plugin::Mermaid => PluginType::Fenced,
            Plugin::Tabs => PluginType::Directive,
            Plugin::Tooltip => PluginType::Widget,
        }
    }

    pub open spec fn key(self) -> (PluginType, Seq<char>) {
        (self.spec_type(), self.spec_name())
    }

    /// The name this plugin triggers on.
    pub fn name(&self) -> (r: &'static str)
        ensures
            r@ == self.spec_name(),
    {
        match self {
            Plugin::Columns => "columns",
            Plugin::Mermaid => "mermaid",
            Plugin::Tabs => "tabs",
            Plugin::Tooltip => "tooltip",
        }
    }

    /// The kind of node this plugin intercepts.
    pub fn plugin_type(&self) -> (r: PluginType)
        ensures
            r == self.spec_type(),
    {
        match self {
            Plugin::Columns => PluginType::Directive,
            Plugin::Mermaid => PluginType::Fenced,
            Plugin::Tabs => PluginType::Directive,
            Plugin::Tooltip => PluginType::Widget,
        }
    }
}

/// A registered plugin: one that this crate ships, which renders nested
/// blocks with the registry it is found in, or one written by the user.
pub enum PluginEntry {
    Builtin(Plugin),
    Custom(Box<dyn MarkplusPlugin>),
}

impl PluginEntry {
    /// The key the entry is registered under: its type and its name.
    pub open spec fn key(&self) -> (PluginType, Seq<char>) {
        match self {
            PluginEntry::Builtin(p) => p.key(),
            PluginEntry::Custom(c) => (c.spec_type(), c.spec_name()),
        }
    }

    /// The name the entry triggers on.
    pub fn name(&self) -> (r: &str)
        ensures
            r@ == self.key().1,
    {
        match self {
            PluginEntry::Builtin(p) => p.name(),
            PluginEntry::Custom(c) => c.name(),
        }
    }

    /// The kind of node the entry intercepts.
    pub fn plugin_type(&self) -> (r: PluginType)
        ensures
            r == self.key().0,
    {
        match self {
            PluginEntry::Builtin(p) => p.plugin_type(),
            PluginEntry::Custom(c) => c.plugin_type(),
        }
    }
}

/// Index of the first entry of `s` registered under `k`, or -1.
pub open spec fn first_index(s: Seq<PluginEntry>, k: (PluginType, Seq<char>)) -> int
    decreases s.len(),
{
    if s.len() == 0 {
        -1
    } else if first_index(s.drop_last(), k) >= 0 {
        first_index(s.drop_last(), k)
    } else if s.last().key() == k {
        s.len() - 1
    } else {
        -1
    }
}

pub proof fn lemma_first_index(s: Seq<PluginEntry>, k: (PluginType, Seq<char>))
    ensures
        -1 <= first_index(s, k) < s.len(),
        first_index(s, k) >= 0 ==> s[first_index(s, k)].key() == k,
        first_index(s, k) >= 0 ==> forall|j: int| 0 <= j < first_index(s, k) ==> s[j].key() != k,
        first_index(s, k) < 0 ==> forall|j: int| 0 <= j < s.len() ==> s[j].key() != k,
    decreases s.len(),
{
    if s.len() > 0 {
        lemma_first_index(s.drop_last(), k);
        assert forall|j: int| 0 <= j < s.len() - 1 implies s.drop_last()[j] == s[j] by {}
    }
}

/// The first entry with key `k` sits at `i`.
pub proof fn lemma_first_index_at(s: Seq<PluginEntry>, k: (PluginType, Seq<char>), i: int)
    requires
        0 <= i < s.len(),
        s[i].key() == k,
        forall|j: int| 0 <= j < i ==> s[j].key() != k,
    ensures
        first_index(s, k) == i,
{
    lemma_first_index(s, k);
    let f = first_index(s, k);
    if f < 0 {
        assert(s[i].key() != k);
    } else if f < i {
        assert(s[f].key() != k);
    } else if f > i {
        assert(s[i].key() != k);
    }
}

/// A registry of plugins, keyed by (plugin type, name).
pub struct PluginRegistry {
    entries: Vec<PluginEntry>,
}

impl View for PluginRegistry {
    type V = Map<(PluginType, Seq<char>), PluginEntry>;

    closed spec fn view(&self) -> Map<(PluginType, Seq<char>), PluginEntry> {
        registry_map(self.entries@)
    }
}

/// The key/plugin map that a sequence of registered plugins stands for: the
/// first entry under each key.
pub open spec fn registry_map(s: Seq<PluginEntry>) -> Map<(PluginType, Seq<char>), PluginEntry> {
    Map::new(|k: (PluginType, Seq<char>)| first_index(s, k) >= 0, |k: (PluginType, Seq<char>)| s[first_index(s, k)])
}

impl PluginRegistry {
    /// An empty registry.
    pub fn new() -> (r: PluginRegistry)
        ensures
            r@ == Map::<(PluginType, Seq<char>), PluginEntry>::empty(),
    {
        let r = PluginRegistry { entries: Vec::new() };
        proof {
            assert(r@ =~= Map::<(PluginType, Seq<char>), PluginEntry>::empty());
        }
        r
    }
}

/// Every plugin in a registry is registered under its own key.
pub proof fn lemma_registry_keys(registry: &PluginRegistry, k: (PluginType, Seq<char>))
    ensures
        registry@.contains_key(k) ==> registry@[k].key() == k,
{
    lemma_first_index(registry.entries@, k);
}

fn same_type(a: PluginType, b: PluginType) -> (r: bool)
    ensures
        r == (a == b),
{
    match (a, b) {
        (PluginType::Fenced, PluginType::Fenced) => true,
        (PluginType::Directive, PluginType::Directive) => true,
        (PluginType::Widget, PluginType::Widget) => true,
        _ => false,
    }
}

/// Index of the entry registered under (`ptype`, `name`), if any.
fn find_entry(registry: &PluginRegistry, ptype: PluginType, name: &str) -> (r: Option<usize>)
    ensures
        match r {
            Some(i) => i < registry.entries@.len() && first_index(registry.entries@, (ptype, name@)) == i,
            None => first_index(registry.entries@, (ptype, name@)) < 0,
        },
{
    let ghost k = (ptype, name@);
    let n = registry.entries.len();
    let mut i: usize = 0;
    while i < n
        invariant
            n == registry.entries@.len(),
            i <= n,
            k == (ptype, name@),
            forall|j: int| 0 <= j < i ==> registry.entries@[j].key() != k,
        decreases n - i,
    {
        let e = &registry.entries[i];
        if same_type(e.plugin_type(), ptype) && crate::text::str_eq(e.name(), name) {
            proof {
                lemma_first_index_at(registry.entries@, k, i as int);
            }
            return Some(i);
        }
        i += 1;
    }
    proof {
        lemma_first_index(registry.entries@, k);
        if first_index(registry.entries@, k) >= 0 {
            assert(registry.entries@[first_index(registry.entries@, k)].key() != k);
        }
    }
    None
}

/// Registers `plugin` under its own type and name, replacing whatever was
/// registered under that key.
pub fn register_plugin(registry: &mut PluginRegistry, plugin: PluginEntry)
    ensures
        final(registry)@ == old(registry)@.insert(plugin.key(), plugin),
{
    let ghost ke = plugin.key();
    let ghost e = plugin;
    let ghost s = registry.entries@;
    let ptype = plugin.plugin_type();
    let found = find_entry(registry, ptype, plugin.name());
    proof {
        lemma_first_index(s, ke);
    }
    match found {
        Some(i) => {
            registry.entries.set(i, plugin);
            proof {
                let s2 = registry.entries@;
                assert(s2 == s.update(i as int, e));
                assert forall|k: (PluginType, Seq<char>)| #![auto]
                    first_index(s2, k) == (if k == ke { i as int } else { first_index(s, k) }) by {
                    lemma_first_index(s, k);
                    if k == ke {
                        lemma_first_index_at(s2, k, i as int);
                    } else if first_index(s, k) >= 0 {
                        lemma_first_index_at(s2, k, first_index(s, k));
                    } else {
                        lemma_first_index(s2, k);
                        if first_index(s2, k) >= 0 {
                            assert(s2[first_index(s2, k)].key() == k);
                            assert(s[first_index(s2, k)].key() != k);
                        }
                    }
                }
                assert forall|k: (PluginType, Seq<char>)| #[trigger] registry_map(s2).contains_key(k)
                    == registry_map(s).insert(ke, e).contains_key(k) by {
                    lemma_first_index(s, k);
                }
                assert forall|k: (PluginType, Seq<char>)| #[trigger] registry_map(s2).contains_key(k)
                    implies registry_map(s2)[k] == registry_map(s).insert(ke, e)[k] by {
                    lemma_first_index(s, k);
                    lemma_first_index(s2, k);
                }
                assert(registry_map(s2) =~= registry_map(s).insert(ke, e));
            }
        },
        None => {
            registry.entries.push(plugin);
            proof {
                let s2 = registry.entries@;
                assert(s2 == s.push(e));
                assert forall|k: (PluginType, Seq<char>)| #![auto]
                    first_index(s2, k) == (if k == ke { s.len() as int } else { first_index(s, k) }) by {
                    lemma_first_index(s, k);
                    if k == ke {
                        lemma_first_index_at(s2, k, s.len() as int);
                    } else if first_index(s, k) >= 0 {
                        lemma_first_index_at(s2, k, first_index(s, k));
                    } else {
                        lemma_first_index(s2, k);
                        if first_index(s2, k) >= 0 {
                            assert(s2[first_index(s2, k)].key() == k);
                            assert(s[first_index(s2, k)].key() != k);
                        }
                    }
                }
                assert forall|k: (PluginType, Seq<char>)| #[trigger] registry_map(s2).contains_key(k)
                    == registry_map(s).insert(ke, e).contains_key(k) by {
                    lemma_first_index(s, k);
                }
                assert forall|k: (PluginType, Seq<char>)| #[trigger] registry_map(s2).contains_key(k)
                    implies registry_map(s2)[k] == registry_map(s).insert(ke, e)[k] by {
                    lemma_first_index(s, k);
                    lemma_first_index(s2, k);
                }
                assert(registry_map(s2) =~= registry_map(s).insert(ke, e));
            }
        },
    }
}

/// The plugin registered under (`ptype`, `name`), if any.
pub fn get_plugin<'a>(registry: &'a PluginRegistry, ptype: PluginType, name: &str) -> (r: Option<&'a PluginEntry>)
    ensures
        match r {
            Some(e) => registry@.contains_key((ptype, name@)) && *e == registry@[(ptype, name@)],
            None => !registry@.contains_key((ptype, name@)),
        },
{
    match find_entry(registry, ptype, name) {
        Some(i) => Some(&registry.entries[i]),
        None => None,
    }
}

/// Looking a plugin up after registering it finds it under its own type and
/// name; every other key keeps what it had before.
pub proof fn lemma_register_then_get(before: PluginMap, plugin: PluginEntry, k: PluginKey)
    ensures
        before.insert(plugin.key(), plugin).contains_key(plugin.key()),
        before.insert(plugin.key(), plugin)[plugin.key()] == plugin,
        k != plugin.key() ==> before.insert(plugin.key(), plugin).contains_key(k) == before.contains_key(k),
        k != plugin.key() && before.contains_key(k) ==> before.insert(plugin.key(), plugin)[k] == before[k],
{
}

/// Registering a plugin twice under one key leaves the registry as once.
pub proof fn lemma_register_twice(before: PluginMap, plugin: PluginEntry)
    ensures
        before.insert(plugin.key(), plugin).insert(plugin.key(), plugin) == before.insert(plugin.key(), plugin),
{
    assert(before.insert(plugin.key(), plugin).insert(plugin.key(), plugin) =~= before.insert(plugin.key(), plugin));
}

} // verus!
