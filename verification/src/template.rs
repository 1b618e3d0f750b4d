//! The template engine (minijinja) behind trusted items: an environment of
//! named templates, the library's filters, and rendering with a context
//! given as JSON text.

use vstd::prelude::*;
use crate::filters::{filter_slugify, filter_date_fmt, filter_safe_html};

verus! {

#[verifier::external_type_specification]
#[verifier::external_body]
pub struct ExEnvironment<'source>(minijinja::Environment<'source>);

#[verifier::external_type_specification]
#[verifier::external_body]
pub struct ExError(minijinja::Error);

#[verifier::external_type_specification]
#[verifier::external_body]
pub struct ExKwargs(minijinja::value::Kwargs);

/// The templates an environment holds: name to source. Environments made by
/// this library have no template loader, so these are all the templates they
/// can serve.
pub uninterp spec fn env_templates(env: minijinja::Environment<'static>) -> Map<Seq<char>, Seq<char>>;

/// Whether an environment has the configuration that `Environment::new`
/// gives (its built-in filters, tests and globals, default settings),
/// whatever templates it holds.
pub uninterp spec fn env_default(env: minijinja::Environment<'static>) -> bool;

/// Whether an environment has the configuration of `Environment::new` with
/// this library's `slugify`, `date_fmt` and `safe_html` filters added,
/// whatever templates it holds.
pub uninterp spec fn env_configured(env: minijinja::Environment<'static>) -> bool;

/// Whether `source` is a template that compiles (has no syntax error).
pub uninterp spec fn template_compiles(source: Seq<char>) -> bool;

/// What rendering template `name` gives, in an environment that holds
/// `templates` and has the library's configuration, for the context whose
/// JSON text is `ctx_json`: the output, or the error's display text.
pub uninterp spec fn rendered(templates: Map<Seq<char>, Seq<char>>, name: Seq<char>, ctx_json: Seq<char>) -> Result<Seq<char>, Seq<char>>;

/// `Environment::new`: an environment with the default configuration and no
/// templates.
#[verifier::external_body]
pub(crate) fn env_new() -> (r: minijinja::Environment<'static>)
    ensures
        env_templates(r).is_empty(),
        env_default(r),
{
    minijinja::Environment::new()
}

/// `Environment::add_template_owned`: compiles `source` and stores it under
/// `name`, replacing a template of that name. It succeeds exactly when the
/// source compiles (named by `template_compiles`: with the default syntax
/// that `env_default` includes, this depends on the source alone). The contract claims the stored templates on success; on a syntax
/// error it claims nothing of them. The configuration is left as it was
/// either way.
#[verifier::external_body]
pub(crate) fn env_add_template(env: &mut minijinja::Environment<'static>, name: String, source: String) -> (r: Result<(), minijinja::Error>)
    requires
        env_default(*old(env)),
    ensures
        r is Ok <==> template_compiles(source@),
        r is Ok ==> env_templates(*final(env)) == env_templates(*old(env)).insert(name@, source@),
        env_default(*final(env)) == env_default(*old(env)),
        env_configured(*final(env)) == env_configured(*old(env)),
{
    env.add_template_owned(name, source)
}

/// `Environment::get_template`, then `Template::render` with the context
/// read from its JSON text (`serde_json`'s deserializer, without its
/// nesting limit); an error as its display text. Without a loader, a name
/// that is not stored gives an error. The output, or the error's text, is
/// named by `rendered`, a function of the stored templates, the name and
/// the text.
#[verifier::external_body]
pub(crate) fn render_json(env: &minijinja::Environment<'static>, name: &str, ctx_json: &str) -> (r: Result<String, String>)
    requires
        env_configured(*env),
    ensures
        !env_templates(*env).contains_key(name@) ==> r is Err,
        match r {
            Ok(s) => rendered(env_templates(*env), name@, ctx_json@) == Ok::<Seq<char>, Seq<char>>(s@),
            Err(m) => rendered(env_templates(*env), name@, ctx_json@) == Err::<Seq<char>, Seq<char>>(m@),
        },
{
    let mut de = serde_json::Deserializer::from_str(ctx_json);
    de.disable_recursion_limit();
    let ctx = match <serde_json::Value as serde::Deserialize>::deserialize(&mut de) {
        Ok(v) => v,
        Err(e) => return Err(e.to_string()),
    };
    let template = match env.get_template(name) {
        Ok(t) => t,
        Err(e) => return Err(e.to_string()),
    };
    match template.render(ctx) {
        Ok(s) => Ok(s),
        Err(e) => Err(e.to_string()),
    }
}

/// The display text of a template error (`Error`'s `Display`); not described.
#[verifier::external_body]
pub(crate) fn error_text(e: &minijinja::Error) -> (r: String) {
    e.to_string()
}

/// `Kwargs::get::<Option<String>>("format")`: the `format` keyword argument
/// of a filter call, if given; an error when it is not a string. Not
/// described further.
#[verifier::external_body]
fn kwargs_format(k: &minijinja::value::Kwargs) -> (r: Result<Option<String>, minijinja::Error>) {
    k.get::<Option<String>>("format")
}

/// What the `date_fmt` filter gives once its `format` keyword argument has
/// been read: with a format, `value` formatted with it; without one, `value`
/// formatted with the default format (`%B %d, %Y`); when the argument could
/// not be read, that error.
pub fn date_fmt_outcome(value: &str, format: Result<Option<String>, minijinja::Error>) -> (r: Result<
    String,
    minijinja::Error,
>)
    ensures
        match format {
            Ok(Some(f)) => r matches Ok(s) && s@ == crate::filters::date_fmt(value@, f@),
            Ok(None) => r matches Ok(s) && s@ == crate::filters::date_fmt(value@, crate::filters::default_date_format()),
            Err(e) => r == Err::<String, minijinja::Error>(e),
        },
{
    match format {
        Ok(Some(f)) => Ok(filter_date_fmt(value, f.as_str())),
        Ok(None) => {
            proof {
                reveal_strlit("%B %d, %Y");
            }
            Ok(filter_date_fmt(value, "%B %d, %Y"))
        },
        Err(e) => Err(e),
    }
}

/// The `date_fmt` filter as templates call it: `value | date_fmt` uses the
/// default format, `value | date_fmt(format="…")` the given one (see
/// `date_fmt_outcome`, which gets what `kwargs_format` read).
fn date_fmt_filter(value: String, kwargs: minijinja::value::Kwargs) -> (r: Result<String, minijinja::Error>)
    ensures
        r matches Ok(s) ==> s@ == crate::filters::date_fmt(value@, crate::filters::default_date_format())
            || exists|f: Seq<char>| s@ == crate::filters::date_fmt(value@, f),
{
    date_fmt_outcome(value.as_str(), kwargs_format(&kwargs))
}

/// Registers the `slugify`, `date_fmt` and `safe_html` filters
/// (`Environment::add_filter`, with closures that call this library's
/// filters). The stored templates stay as they are; an environment with the
/// default configuration, or one that already has these filters, ends with
/// the library's configuration.
#[verifier::external_body]
pub fn register_filters(env: &mut minijinja::Environment<'static>)
    ensures
        env_templates(*final(env)) == env_templates(*old(env)),
        env_default(*old(env)) || env_configured(*old(env)) ==> env_configured(*final(env)),
{
    env.add_filter("slugify", |value: String| filter_slugify(value.as_str()));
    env.add_filter("date_fmt", |value: String, kwargs: minijinja::value::Kwargs| date_fmt_filter(value, kwargs));
    env.add_filter("safe_html", |value: String| filter_safe_html(value.as_str()));
}

} // verus!
