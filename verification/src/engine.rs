//! The template engine and its rendering context, as this library sees them:
//! tera's `Tera` and `Context`, with what each call does to what they hold.
//!
//! The library registers templates with the engine and never asks it to
//! render: rendering runs the templates, and no contract can say of a
//! template that running it ends well. The caller renders.

use vstd::prelude::*;
use crate::json::{json_model, Json};
use crate::text::option_view;

verus! {

/// `tera::Tera`, carried as it is: the engine, with the templates it holds.
#[verifier::external_type_specification]
#[verifier::external_body]
pub struct ExTera(tera::Tera);

/// `tera::Context`, carried as it is: the variables that templates are
/// rendered with.
#[verifier::external_type_specification]
#[verifier::external_body]
pub struct ExContext(tera::Context);

/// What a context holds: its variables by name, each with the shape of its
/// value.
pub type Entries = Map<Seq<char>, Json>;

/// What an engine holds, as far as this library reads it: the names of its
/// templates, each with the name of the template that it extends, if it
/// extends one.
pub type Parents = Map<Seq<char>, Option<Seq<char>>>;

/// What `engine` holds.
pub uninterp spec fn engine_parents(engine: tera::Tera) -> Parents;

/// The template that a template with the text `source` extends, as the
/// engine's parser reads it wherever it accepts the text: `Some(None)` where
/// it extends none. `None` for a text that the parser accepts in no call.
/// Whether a given call accepts is not a matter of the text alone, as the
/// parser also refuses where it runs short of stack, and nothing here says
/// that a call accepts.
pub uninterp spec fn source_parent(source: Seq<char>) -> Option<Option<Seq<char>>>;

/// What `context` holds.
pub uninterp spec fn context_entries(context: tera::Context) -> Entries;

/// The template that stands `steps` steps up from `from`, each step leading
/// from a held template to the one it extends. `None` where the way ends
/// sooner.
pub open spec fn ancestor(parents: Parents, from: Seq<char>, steps: nat) -> Option<Seq<char>>
    decreases steps,
{
    if steps == 0 {
        Some(from)
    } else if parents.contains_key(from) && parents[from] is Some {
        ancestor(parents, parents[from]->0, (steps - 1) as nat)
    } else {
        None
    }
}

/// Whether the way up from `from` arrives at `to`.
pub open spec fn leads_to(parents: Parents, from: Seq<char>, to: Seq<char>) -> bool {
    exists|steps: nat| #[trigger] ancestor(parents, from, steps) == Some(to)
}

/// Whether the way up from `from` arrives, after `steps` steps, at a held
/// template that extends none.
pub open spec fn ends_at_root(parents: Parents, from: Seq<char>, steps: nat) -> bool {
    ancestor(parents, from, steps) matches Some(root) && parents.contains_key(root)
        && parents[root] is None
}

/// Whether the way up from every held template ends at a held template that
/// extends none: no template extends one that is missing, and none extends
/// itself, at once or by way of others.
pub open spec fn rooted(parents: Parents) -> bool {
    forall|name: Seq<char>| #[trigger]
        parents.contains_key(name) ==> exists|steps: nat| ends_at_root(parents, name, steps)
}

/// Whether `source` may be handed to the engine under `name`: unless `name`
/// is new to the engine, the template that `source` extends must not lead
/// back to `name`.
pub open spec fn may_add(parents: Parents, name: Seq<char>, source: Seq<char>) -> bool {
    parents.contains_key(name) ==> (source_parent(source) matches Some(Some(parent)) ==> !leads_to(
        parents,
        parent,
        name,
    ))
}

/// `Tera::default`: an engine with tera's built-in filters, tests and
/// functions, and no template.
#[verifier::external_body]
pub(crate) fn new_engine() -> (engine: tera::Tera)
    ensures
        engine_parents(engine) == Parents::empty(),
{
    tera::Tera::default()
}

/// `Template::new`, asked only for the `parent` of the template it makes:
/// the name behind `extends` in `source`. Where the parser accepts, that is
/// the parent that it reads in this text; where it refuses, its error comes
/// back, and nothing is stated.
#[verifier::external_body]
pub(crate) fn parse_parent(source: &str) -> (parent: Result<Option<String>, tera::Error>)
    ensures
        parent matches Ok(found) ==> source_parent(source@) == Some(option_view(found)),
{
    match tera::Template::new("", None, source) {
        Ok(template) => Ok(template.parent),
        Err(refusal) => Err(refusal),
    }
}

/// `Tera::get_template`, asked only for the `parent` of the template held
/// under `name`.
#[verifier::external_body]
pub(crate) fn held_parent(engine: &tera::Tera, name: &str) -> (parent: Option<Option<String>>)
    ensures
        parent is Some <==> engine_parents(*engine).contains_key(name@),
        parent matches Some(found) ==> engine_parents(*engine)[name@] == option_view(found),
{
    match engine.get_template(name) {
        Ok(template) => Some(template.parent.clone()),
        Err(_) => None,
    }
}

/// `Error::circular_extend`: the error with which the engine refuses a
/// template whose chain of parents, `chain`, leads back to itself.
#[verifier::external_body]
pub(crate) fn circular_extend(name: &str, chain: Vec<String>) -> (error: tera::Error) {
    tera::Error::circular_extend(name, chain)
}

/// `Error::template_not_found`: the error with which the engine answers a
/// request for a template that it does not hold.
#[verifier::external_body]
pub(crate) fn template_not_found(name: &str) -> (error: tera::Error) {
    tera::Error::template_not_found(name)
}

/// `Tera::add_raw_template`.
///
/// The engine parses `content`, puts the template under `name` in place of
/// what it held there, and then follows, for every template it holds, the
/// chain of parents to its end. It answers `Ok` only if every chain ended at
/// a template without parent; the new template then has the parent that the
/// parser read, and no other template has changed its parent.
///
/// Following a chain, the engine stops only at a template without parent, at
/// a missing one, or back at the template it set out from. A chain that runs
/// into a circle from outside is followed without end. Hence the
/// precondition: the templates held are rooted, and the new template closes
/// no circle. A name that is new to the engine cannot close one that another
/// template runs into, as no held template extends it.
pub assume_specification[ tera::Tera::add_raw_template ](
    engine: &mut tera::Tera,
    name: &str,
    content: &str,
) -> (added: Result<(), tera::Error>)
    requires
        rooted(engine_parents(*old(engine))),
        may_add(engine_parents(*old(engine)), name@, content@),
    ensures
        added is Ok ==> source_parent(content@) is Some,
        added is Ok ==> engine_parents(*final(engine)) == engine_parents(*old(engine)).insert(
            name@,
            source_parent(content@)->0,
        ),
        added is Ok ==> rooted(engine_parents(*final(engine))),
;

/// `Context::new`: a context without variables.
pub assume_specification[ tera::Context::new ]() -> (context: tera::Context)
    ensures
        context_entries(context) == Entries::empty(),
;

/// `Context::extend`: every variable of `source` is set in `context`, over
/// what `context` held under the same name.
pub assume_specification[ tera::Context::extend ](
    context: &mut tera::Context,
    source: tera::Context,
)
    ensures
        context_entries(*final(context)) == context_entries(*old(context)).union_prefer_right(
            context_entries(source),
        ),
;

/// `Context::insert` of a `serde_json::Value`: `key` is set to `value`, over
/// what `context` held under `key`. Converting a value to a value keeps its
/// shape and cannot fail.
#[verifier::external_body]
pub(crate) fn context_insert(context: &mut tera::Context, key: String, value: &serde_json::Value)
    ensures
        context_entries(*final(context)) == context_entries(*old(context)).insert(
            key@,
            json_model(*value),
        ),
{
    context.insert(key, value)
}

} // verus!
