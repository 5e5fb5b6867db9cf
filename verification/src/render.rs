//! The template engine, behind trusted wrappers.
//!
//! Rendering itself is done by the `tera` crate; this module declares its
//! engine type to the verifier and wraps the calls the library makes. The
//! set of registered templates is modeled as a map from template name to
//! template text; what a render call returns is not modeled, since a
//! template may invoke context-dependent engine builtins.

use vstd::prelude::*;

verus! {

#[verifier::external_type_specification]
#[verifier::external_body]
pub struct ExTera(tera::Tera);

/// The registered templates of an engine: name to source text.
pub uninterp spec fn templates_of(t: tera::Tera) -> Map<Seq<char>, Seq<char>>;

/// The engine has no templates registered.
pub open spec fn no_templates(t: tera::Tera) -> bool {
    templates_of(t) == Map::<Seq<char>, Seq<char>>::empty()
}

/// Relies on `tera::Tera::default`: a fresh engine with no templates
/// registered.
#[verifier::external_body]
pub(crate) fn tera_new() -> (engine: tera::Tera)
    ensures
        no_templates(engine),
{
    tera::Tera::default()
}

/// Relies on `tera::Tera::add_raw_template`: on success the template source
/// is registered under the given name. On failure the error's rendering is
/// returned; the source inserts the parsed template before checking
/// inheritance chains, so a failed call may or may not have registered it.
#[verifier::external_body]
pub(crate) fn tera_add_template(t: &mut tera::Tera, name: &str, content: &str) -> (r: Result<(), String>)
    ensures
        r is Ok ==> templates_of(*final(t)) == templates_of(*old(t)).insert(name@, content@),
        r is Err ==> templates_of(*final(t)) == templates_of(*old(t)) || templates_of(*final(t))
            == templates_of(*old(t)).insert(name@, content@),
{
    match t.add_raw_template(name, content) {
        Ok(()) => Ok(()),
        Err(e) => Err(e.to_string()),
    }
}

/// Relies on `tera::Tera::register_function`: registering a render-time
/// function leaves the registered templates unchanged. The function handed
/// over only converts the engine's argument values and calls the library's
/// own [`crate::dates::date_range_checked`].
#[verifier::external_body]
pub(crate) fn tera_register_date_range(t: &mut tera::Tera)
    ensures
        templates_of(*final(t)) == templates_of(*old(t)),
{
    t.register_function("date_range", |args: &std::collections::HashMap<String, tera::Value>| {
        let start = args.get("start").map(|v| match v.as_str() {
            Some(s) => Ok(s.to_string()),
            None => Err(v.to_string()),
        });
        let end = args.get("end").map(|v| match v.as_str() {
            Some(s) => Ok(s.to_string()),
            None => Err(v.to_string()),
        });
        match crate::dates::date_range_checked(start, end) {
            Ok(items) => Ok(tera::Value::from(items)),
            Err(e) => Err(tera::Error::msg(e.message())),
        }
    });
}

/// Relies on `tera::Tera::render`, called with an empty context: the
/// rendered text on success, the error's rendering (with its cause) on
/// failure. Nothing is claimed of the rendered text: a template may call
/// engine builtins whose output depends on the environment.
#[verifier::external_body]
pub(crate) fn tera_render(t: &tera::Tera, entry: &str) -> (r: Result<String, String>)
{
    match t.render(entry, &tera::Context::new()) {
        Ok(s) => Ok(s),
        Err(e) => match std::error::Error::source(&e) {
            Some(cause) => Err(format!("{}: {}", e, cause)),
            None => Err(e.to_string()),
        },
    }
}

} // verus!
