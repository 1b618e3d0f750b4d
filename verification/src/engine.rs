//! The render engine: a set of named templates (with the library's filters
//! registered) and a plugin registry.

use vstd::prelude::*;
use crate::error::RenderError;
use crate::text::push_char;
use crate::plugin::{PluginEntry, PluginRegistry, PluginType, register_plugin};
use crate::template::{template_compiles, env_templates, env_default, env_configured, env_new, env_add_template, error_text, register_filters};

verus! {

/// Renders documents through named templates.
pub struct RenderEngine {
    pub(crate) env: minijinja::Environment<'static>,
    pub(crate) plugins: PluginRegistry,
}

/// Configures and builds a [`RenderEngine`].
pub struct RenderEngineBuilder {
    templates_dir: Option<String>,
}

/// The templates of a list of (name, source) pairs, a later pair replacing
/// an earlier one of the same name.
pub open spec fn templates_of(list: Seq<(Seq<char>, Seq<char>)>) -> Map<Seq<char>, Seq<char>>
    decreases list.len(),
{
    if list.len() == 0 {
        Map::empty()
    } else {
        templates_of(list.drop_last()).insert(list.last().0, list.last().1)
    }
}

pub open spec fn pair_strings(v: Seq<(String, String)>) -> Seq<(Seq<char>, Seq<char>)> {
    v.map_values(|p: (String, String)| (p.0@, p.1@))
}

impl RenderEngineBuilder {
    /// The templates directory that `build` loads from, if one was set.
    pub closed spec fn spec_templates_dir(self) -> Option<Seq<char>> {
        match self.templates_dir {
            Some(d) => Some(d@),
            None => None,
        }
    }

    /// A builder with no templates directory set.
    pub fn new() -> (r: RenderEngineBuilder)
        ensures
            r.spec_templates_dir() is None,
    {
        RenderEngineBuilder { templates_dir: None }
    }

    /// Sets the templates directory.
    pub fn with_templates(self, path: &str) -> (r: RenderEngineBuilder)
        ensures
            r.spec_templates_dir() == Some(path@),
    {
        let mut d = String::new();
        crate::text::push_str(&mut d, path);
        RenderEngineBuilder { templates_dir: Some(d) }
    }

    /// The templates directory that was set, if any.
    pub fn templates_dir(&self) -> (r: Option<&str>)
        ensures
            match r {
                Some(d) => self.spec_templates_dir() == Some(d@),
                None => self.spec_templates_dir() is None,
            },
    {
        match &self.templates_dir {
            Some(d) => Some(d.as_str()),
            None => None,
        }
    }

    /// The directory that `build` loads templates from: the one that was
    /// set, else `templates`.
    pub fn load_dir(&self) -> (r: &str)
        ensures
            r@ == match self.spec_templates_dir() {
                Some(d) => d,
                None => "templates"@,
            },
    {
        match &self.templates_dir {
            Some(d) => d.as_str(),
            None => "templates",
        }
    }

    /// Builds an engine from (name, source) templates, with the library's
    /// filters registered and no plugins. A template that does not compile
    /// stops the build with `TeraRender`.
    pub fn build_with_templates(self, templates: Vec<(String, String)>) -> (r: Result<RenderEngine, RenderError>)
        ensures
            r matches Ok(e) ==> e.templates() == templates_of(pair_strings(templates@)) && e.plugin_map()
                == Map::<(PluginType, Seq<char>), PluginEntry>::empty(),
            r matches Err(e) ==> e is TeraRender,
            r is Ok <==> forall|i: int| 0 <= i < templates@.len() ==> template_compiles(#[trigger] templates@[i].1@),
    {
        let mut env = env_new();
        let ghost list = pair_strings(templates@);
        let n = templates.len();
        let mut i: usize = 0;
        while i < n
            invariant
                n == templates@.len(),
                i <= n,
                list == pair_strings(templates@),
                env_templates(env) == templates_of(list.take(i as int)),
                env_default(env),
                forall|j: int| 0 <= j < i ==> template_compiles(#[trigger] templates@[j].1@),
            decreases n - i,
        {
            let name = templates[i].0.clone();
            let source = templates[i].1.clone();
            proof {
                assert(list.take(i + 1).drop_last() == list.take(i as int));
                assert(list.take(i + 1).last() == (name@, source@));
            }
            match env_add_template(&mut env, name, source) {
                Ok(()) => {},
                Err(e) => {
                    return Err(RenderError::TeraRender(error_text(&e)));
                },
            }
            i += 1;
        }
        proof {
            assert(list.take(n as int) == list);
        }
        register_filters(&mut env);
        Ok(RenderEngine { env, plugins: PluginRegistry::new() })
    }
}

impl RenderEngine {
    /// An engine's environment has the library's filters.
    #[verifier::type_invariant]
    pub(crate) open spec fn well_formed(self) -> bool {
        env_configured(self.env)
    }

    /// The engine's templates: name to source.
    pub closed spec fn templates(self) -> Map<Seq<char>, Seq<char>> {
        env_templates(self.env)
    }

    /// The engine's plugin registry.
    pub closed spec fn plugin_map(self) -> Map<(PluginType, Seq<char>), PluginEntry> {
        self.plugins@
    }

    /// What the engine's closed views stand for.
    pub(crate) proof fn lemma_views(&self)
        ensures
            self.templates() == env_templates(self.env),
            self.plugin_map() == self.plugins@,
    {
    }

    /// A builder with no templates directory set.
    pub fn builder() -> (r: RenderEngineBuilder)
        ensures
            r.spec_templates_dir() is None,
    {
        RenderEngineBuilder::new()
    }

    /// The engine's plugin registry.
    pub fn plugins(&self) -> (r: &PluginRegistry)
        ensures
            r@ == self.plugin_map(),
    {
        &self.plugins
    }

    /// Registers a plugin with this engine.
    pub fn register_plugin(&mut self, plugin: PluginEntry)
        ensures
            final(self).plugin_map() == old(self).plugin_map().insert(plugin.key(), plugin),
            final(self).templates() == old(self).templates(),
    {
        proof {
            use_type_invariant(&*self);
        }
        let mut plugins = PluginRegistry::new();
        std::mem::swap(&mut plugins, &mut self.plugins);
        register_plugin(&mut plugins, plugin);
        self.plugins = plugins;
    }
}

/// The name of a template file: its path below the templates directory,
/// with every `\\` turned into `/`.
pub open spec fn template_name_of(relative_path: Seq<char>) -> Seq<char> {
    relative_path.map_values(|c: char| if c == '\\' { '/' } else { c })
}

/// The name a template file is registered under (see `template_name_of`).
pub fn template_name(relative_path: &str) -> (r: String)
    ensures
        r@ == template_name_of(relative_path@),
{
    let mut out = String::new();
    let ghost full = relative_path@;
    for c in it: relative_path.chars()
        invariant
            it.seq() == full,
            it.index() <= full.len(),
            out@ == template_name_of(full.take(it.index() as int)),
    {
        if c == '\\' {
            push_char(&mut out, '/');
        } else {
            push_char(&mut out, c);
        }
        proof {
            assert(out@ =~= template_name_of(full.take(it.index() + 1)));
        }
    }
    proof {
        assert(full.take(full.len() as int) == full);
    }
    out
}

} // verus!
