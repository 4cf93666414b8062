//! The context of a run: variables from a data file, from assignments and
//! from the environment, laid over one another in that order.

use vstd::prelude::*;
use vstd::std_specs::iter::IteratorSpec;
use crate::engine::{context_entries, context_insert, Entries};
use crate::error::TemplateError;
use crate::json::{
    into_members, json_model, json_parse, members_map, parse_json, string_value, Json,
};
use crate::text::{begins_with, cut_once, option_str_view, split_once, texts, trim, trimmed};

verus! {

/// The value that the text of an assignment stands for: the value it is JSON
/// for, and the text itself, as a string, where it is no JSON.
pub open spec fn value_of_text(text: Seq<char>) -> Json {
    match json_parse(text) {
        Some(value) => value,
        None => Json::String(text),
    }
}

/// What an assignment `KEY=VALUE` sets: the key, without the whitespace
/// around it, and the value. The text is cut at its first `=`. Text without
/// `=`, or with nothing but whitespace ahead of it, is no assignment.
pub open spec fn assignment(text: Seq<char>) -> Option<(Seq<char>, Json)> {
    match split_once(text, '=') {
        Some((key, value)) => if trim(key).len() == 0 {
            None
        } else {
            Some((trim(key), value_of_text(value)))
        },
        None => None,
    }
}

/// The message for an assignment without `=`.
pub open spec fn invalid_assignment(text: Seq<char>) -> Seq<char> {
    "Invalid key=value format: '"@ + text + "'. Expected format: KEY=VALUE"@
}

/// The message for an assignment without a key.
pub open spec fn empty_key() -> Seq<char> {
    "Key cannot be empty in key=value pair"@
}

/// The message for a data file that holds something other than an object.
pub open spec fn not_an_object() -> Seq<char> {
    "JSON file must contain an object at root level"@
}

/// The value for the text of an assignment, given what parsing the text as
/// JSON gave: the parsed value, or else the text as a string.
pub fn value_or_text(
    parsed: Result<serde_json::Value, serde_json::Error>,
    text: &str,
) -> (value: serde_json::Value)
    ensures
        match parsed {
            Ok(given) => value == given,
            Err(_) => json_model(value) == Json::String(text@),
        },
{
    match parsed {
        Ok(given) => given,
        Err(_) => string_value(text.to_owned()),
    }
}

/// Reads an assignment `KEY=VALUE`.
pub fn parse_key_value(kv: &str) -> (parsed: Result<(String, serde_json::Value), TemplateError>)
    ensures
        match parsed {
            Ok((key, value)) => assignment(kv@) == Some((key@, json_model(value))),
            Err(e) => {
                &&& assignment(kv@) is None
                &&& e matches TemplateError::InvalidArgument(text)
                &&& text@ == if split_once(kv@, '=') is None {
                    invalid_assignment(kv@)
                } else {
                    empty_key()
                }
            },
        },
{
    let (head, tail) = match cut_once(kv, '=') {
        Some(parts) => parts,
        None => {
            let text = String::from_str("Invalid key=value format: '").concat(kv).concat(
                "'. Expected format: KEY=VALUE",
            );
            return Err(TemplateError::InvalidArgument(text));
        },
    };
    let key = trimmed(head.as_str());
    if key.as_str().unicode_len() == 0 {
        return Err(
            TemplateError::InvalidArgument(
                String::from_str("Key cannot be empty in key=value pair"),
            ),
        );
    }
    let value = value_or_text(parse_json(tail.as_str()), tail.as_str());
    Ok((key, value))
}

/// The variables of a data file, given what parsing its text as JSON gave.
/// The value must be an object; each of its members is a variable.
pub fn values_of(parsed: Result<serde_json::Value, serde_json::Error>) -> (loaded: Result<
    tera::Context,
    TemplateError,
>)
    ensures
        match parsed {
            Ok(value) => match json_model(value) {
                Json::Object(members) => loaded matches Ok(context) && context_entries(context)
                    == members,
                _ => loaded matches Err(TemplateError::InvalidArgument(text)) && text@
                    == not_an_object(),
            },
            Err(cause) => loaded matches Err(e) && e == TemplateError::JsonParse(cause),
        },
{
    let value = match parsed {
        Ok(value) => value,
        Err(cause) => {
            return Err(TemplateError::JsonParse(cause));
        },
    };
    let members = match into_members(value) {
        Some(members) => members,
        None => {
            return Err(
                TemplateError::InvalidArgument(
                    String::from_str("JSON file must contain an object at root level"),
                ),
            );
        },
    };
    let ghost all = members@;
    let mut context = tera::Context::new();
    for member in it: members.into_iter()
        invariant
            it.seq() == all,
            context_entries(context) == members_map(all.take(it.index() as int)),
    {
        let ghost k = it.index() as int;
        let (key, value) = member;
        context_insert(&mut context, key, &value);
        proof {
            assert(all.take(k + 1).drop_last() =~= all.take(k));
        }
    }
    assert(all.take(all.len() as int) =~= all);
    Ok(context)
}

/// The variables of a data file with the text `content`.
pub fn load_values_from_file(content: &str) -> (loaded: Result<tera::Context, TemplateError>)
    ensures
        match json_parse(content@) {
            Some(Json::Object(members)) => loaded matches Ok(context) && context_entries(context)
                == members,
            Some(_) => loaded matches Err(TemplateError::InvalidArgument(text)) && text@
                == not_an_object(),
            None => loaded matches Err(TemplateError::JsonParse(_)),
        },
{
    values_of(parse_json(content))
}

/// The name under which the environment variable `name` enters a context.
pub open spec fn env_key(name: Seq<char>) -> Seq<char> {
    "ENV_"@ + name
}

/// Whether the filter lets a variable named `name` in: every name where
/// there is no filter, else the names that begin with the filter's prefix.
pub open spec fn passes(name: Seq<char>, prefix: Option<Seq<char>>) -> bool {
    match prefix {
        Some(p) => p.is_prefix_of(name),
        None => true,
    }
}

/// `entries` with the environment `vars` laid over it: each variable that
/// passes the filter, in turn, is set as a string under its `ENV_` name.
pub open spec fn with_env(
    entries: Entries,
    vars: Seq<(String, String)>,
    prefix: Option<Seq<char>>,
) -> Entries
    decreases vars.len(),
{
    if vars.len() == 0 {
        entries
    } else {
        let before = with_env(entries, vars.drop_last(), prefix);
        if passes(vars.last().0@, prefix) {
            before.insert(env_key(vars.last().0@), Json::String(vars.last().1@))
        } else {
            before
        }
    }
}

/// `entries` with the first `n` of the assignments `list` laid over it, each
/// in turn; an item of the list that is no assignment sets nothing.
pub open spec fn with_assignments(entries: Entries, list: Seq<Seq<char>>, n: int) -> Entries
    decreases n,
{
    if n <= 0 {
        entries
    } else {
        let before = with_assignments(entries, list, n - 1);
        match assignment(list[n - 1]) {
            Some((key, value)) => before.insert(key, value),
            None => before,
        }
    }
}

/// What the environment sets under `key`: the value of the last variable that
/// passes the filter and whose `ENV_` name is `key`.
pub open spec fn env_value(
    vars: Seq<(String, String)>,
    prefix: Option<Seq<char>>,
    key: Seq<char>,
) -> Option<Json>
    decreases vars.len(),
{
    if vars.len() == 0 {
        None
    } else if passes(vars.last().0@, prefix) && env_key(vars.last().0@) == key {
        Some(Json::String(vars.last().1@))
    } else {
        env_value(vars.drop_last(), prefix, key)
    }
}

/// What the first `n` assignments of `list` set under `key`: the value of the
/// last of them with that key.
pub open spec fn assigned_value(list: Seq<Seq<char>>, n: int, key: Seq<char>) -> Option<Json>
    decreases n,
{
    if n <= 0 {
        None
    } else {
        match assignment(list[n - 1]) {
            Some((k, value)) => if k == key {
                Some(value)
            } else {
                assigned_value(list, n - 1, key)
            },
            None => assigned_value(list, n - 1, key),
        }
    }
}

/// What a key holds once the environment is laid over `entries`: what the
/// environment sets under it, else what `entries` held.
pub proof fn lemma_with_env(
    entries: Entries,
    vars: Seq<(String, String)>,
    prefix: Option<Seq<char>>,
    key: Seq<char>,
)
    ensures
        with_env(entries, vars, prefix).contains_key(key) <==> env_value(vars, prefix, key) is Some
            || entries.contains_key(key),
        with_env(entries, vars, prefix)[key] == match env_value(vars, prefix, key) {
            Some(value) => value,
            None => entries[key],
        },
    decreases vars.len(),
{
    if vars.len() > 0 {
        lemma_with_env(entries, vars.drop_last(), prefix, key);
    }
}

/// What a key holds once assignments are laid over `entries`: what the
/// assignments set under it, else what `entries` held.
pub proof fn lemma_with_assignments(entries: Entries, list: Seq<Seq<char>>, n: int, key: Seq<char>)
    ensures
        with_assignments(entries, list, n).contains_key(key) <==> assigned_value(list, n, key)
            is Some || entries.contains_key(key),
        with_assignments(entries, list, n)[key] == match assigned_value(list, n, key) {
            Some(value) => value,
            None => entries[key],
        },
    decreases n,
{
    if n > 0 {
        lemma_with_assignments(entries, list, n - 1, key);
    }
}

/// The environment sets a key exactly where one of its variables passes the
/// filter and has that key as its `ENV_` name: with a filter, only variables
/// whose name begins with the prefix are imported.
pub proof fn lemma_environment_import(
    vars: Seq<(String, String)>,
    prefix: Option<Seq<char>>,
    key: Seq<char>,
)
    ensures
        env_value(vars, prefix, key) is Some <==> exists|i: int|
            0 <= i < vars.len() && passes((#[trigger] vars[i]).0@, prefix) && env_key(vars[i].0@)
                == key,
    decreases vars.len(),
{
    if vars.len() > 0 {
        let init = vars.drop_last();
        lemma_environment_import(init, prefix, key);
        if env_value(vars, prefix, key) is Some {
            if passes(vars.last().0@, prefix) && env_key(vars.last().0@) == key {
                let i = vars.len() - 1;
                assert(passes(vars[i].0@, prefix) && env_key(vars[i].0@) == key);
            } else {
                let i = choose|i: int|
                    0 <= i < init.len() && passes((#[trigger] init[i]).0@, prefix) && env_key(
                        init[i].0@,
                    ) == key;
                assert(passes(vars[i].0@, prefix) && env_key(vars[i].0@) == key);
            }
        }
        if exists|i: int|
            0 <= i < vars.len() && passes((#[trigger] vars[i]).0@, prefix) && env_key(vars[i].0@)
                == key {
            let i = choose|i: int|
                0 <= i < vars.len() && passes((#[trigger] vars[i]).0@, prefix) && env_key(
                    vars[i].0@,
                ) == key;
            if i < init.len() {
                assert(passes(init[i].0@, prefix) && env_key(init[i].0@) == key);
            }
        }
    }
}

/// Without a filter every variable of the environment is imported: whatever
/// the context held, it then holds each variable under its `ENV_` name.
pub proof fn lemma_import_without_filter(entries: Entries, vars: Seq<(String, String)>)
    ensures
        forall|i: int|
            0 <= i < vars.len() ==> with_env(entries, vars, None).contains_key(
                env_key((#[trigger] vars[i]).0@),
            ),
{
    assert forall|i: int| 0 <= i < vars.len() implies with_env(entries, vars, None).contains_key(
        env_key((#[trigger] vars[i]).0@),
    ) by {
        let key = env_key(vars[i].0@);
        lemma_environment_import(vars, None, key);
        assert(passes(vars[i].0@, None));
        lemma_with_env(entries, vars, None, key);
    }
}

/// The name that a variable is imported under is never the variable's own
/// name, and it begins with `ENV_`: the environment sets nothing under a key
/// without that beginning.
pub proof fn lemma_env_keys_apart(
    vars: Seq<(String, String)>,
    prefix: Option<Seq<char>>,
    key: Seq<char>,
)
    ensures
        env_key(key) != key,
        !"ENV_"@.is_prefix_of(key) ==> env_value(vars, prefix, key) is None,
    decreases vars.len(),
{
    reveal_strlit("ENV_");
    assert(env_key(key).len() == key.len() + 4);
    if vars.len() > 0 {
        lemma_env_keys_apart(vars.drop_last(), prefix, key);
        let name = vars.last().0@;
        assert(env_key(name).subrange(0, 4) =~= "ENV_"@);
    }
}

/// The precedence of the three layers. Under any key, the context holds what
/// the environment sets there, where it is imported and sets anything;
/// else what the assignments set there; else what the data file holds there.
pub proof fn lemma_precedence(
    base: Entries,
    assignments: Seq<Seq<char>>,
    env: Option<EnvImport>,
    key: Seq<char>,
)
    ensures
        ({
            let from_env = match env {
                Some(import) => env_value(import.vars@, filter_of(import.prefix@), key),
                None => None,
            };
            let from_assignments = assigned_value(assignments, assignments.len() as int, key);
            let built = layered(base, assignments, env);
            &&& built.contains_key(key) <==> from_env is Some || from_assignments is Some
                || base.contains_key(key)
            &&& built[key] == match from_env {
                Some(value) => value,
                None => match from_assignments {
                    Some(value) => value,
                    None => base[key],
                },
            }
        }),
{
    let n = assignments.len() as int;
    let assigned = with_assignments(base, assignments, n);
    lemma_with_assignments(base, assignments, n, key);
    match env {
        Some(import) => {
            lemma_with_env(assigned, import.vars@, filter_of(import.prefix@), key);
        },
        None => {},
    }
}

/// Lays the environment over the context: every variable of `vars` whose
/// name begins with the prefix, or every variable where no prefix is given,
/// is set as a string under its name with `ENV_` in front.
pub fn add_env_vars(
    context: &mut tera::Context,
    vars: &Vec<(String, String)>,
    prefix_filter: Option<&str>,
)
    ensures
        context_entries(*final(context)) == with_env(
            context_entries(*old(context)),
            vars@,
            option_str_view(prefix_filter),
        ),
{
    let ghost prefix = option_str_view(prefix_filter);
    let ghost start = context_entries(*context);
    let mut i: usize = 0;
    while i < vars.len()
        invariant
            i <= vars.len(),
            prefix == option_str_view(prefix_filter),
            context_entries(*context) == with_env(start, vars@.take(i as int), prefix),
        decreases vars.len() - i,
    {
        let name = &vars[i].0;
        let value = &vars[i].1;
        let wanted = match prefix_filter {
            Some(p) => begins_with(name.as_str(), p),
            None => true,
        };
        if wanted {
            let key = String::from_str("ENV_").concat(name.as_str());
            context_insert(context, key, &string_value(value.clone()));
        }
        proof {
            assert(vars@.take(i + 1).drop_last() =~= vars@.take(i as int));
        }
        i += 1;
    }
    assert(vars@.take(vars.len() as int) =~= vars@);
}

/// Lays the assignments `list` over the context, each in turn. The first
/// item that is no assignment ends it, with the assignments ahead of it
/// applied.
pub fn apply_assignments(context: &mut tera::Context, list: &Vec<String>) -> (applied: Result<
    (),
    TemplateError,
>)
    ensures
        match applied {
            Ok(_) => {
                &&& forall|i: int| 0 <= i < list@.len() ==> assignment(#[trigger] list@[i]@) is Some
                &&& context_entries(*final(context)) == with_assignments(
                    context_entries(*old(context)),
                    texts(list@),
                    list@.len() as int,
                )
            },
            Err(e) => exists|k: int|
                {
                    &&& 0 <= k < list@.len()
                    &&& assignment(#[trigger] list@[k]@) is None
                    &&& forall|j: int| 0 <= j < k ==> assignment(#[trigger] list@[j]@) is Some
                    &&& e matches TemplateError::InvalidArgument(text)
                    &&& text@ == if split_once(list@[k]@, '=') is None {
                        invalid_assignment(list@[k]@)
                    } else {
                        empty_key()
                    }
                    &&& context_entries(*final(context)) == with_assignments(
                        context_entries(*old(context)),
                        texts(list@),
                        k,
                    )
                },
        },
{
    let ghost start = context_entries(*context);
    let mut i: usize = 0;
    while i < list.len()
        invariant
            i <= list.len(),
            start == context_entries(*old(context)),
            forall|j: int| 0 <= j < i ==> assignment(#[trigger] list@[j]@) is Some,
            context_entries(*context) == with_assignments(start, texts(list@), i as int),
        decreases list.len() - i,
    {
        let (key, value) = match parse_key_value(list[i].as_str()) {
            Ok(pair) => pair,
            Err(e) => {
                return Err(e);
            },
        };
        context_insert(context, key, &value);
        i += 1;
    }
    Ok(())
}

/// A request to import the environment: its variables, and the prefix that
/// the names of the imported ones begin with. An empty prefix imports all.
#[derive(Debug)]
pub struct EnvImport {
    pub prefix: String,
    pub vars: Vec<(String, String)>,
}

/// The filter that a prefix stands for: none where the prefix is empty.
pub open spec fn filter_of(prefix: Seq<char>) -> Option<Seq<char>> {
    if prefix.len() == 0 {
        None
    } else {
        Some(prefix)
    }
}

/// The variables of a data file with this text, where it is JSON for an
/// object; no variables where there is no data file.
pub open spec fn file_layer(values: Option<Seq<char>>) -> Option<Entries> {
    match values {
        Some(text) => match json_parse(text) {
            Some(Json::Object(members)) => Some(members),
            _ => None,
        },
        None => Some(Map::empty()),
    }
}

/// The three layers, one over the other: the data file at the bottom, the
/// assignments over it, and the environment, where it is imported, on top.
pub open spec fn layered(
    base: Entries,
    assignments: Seq<Seq<char>>,
    env: Option<EnvImport>,
) -> Entries {
    let assigned = with_assignments(base, assignments, assignments.len() as int);
    match env {
        Some(import) => with_env(assigned, import.vars@, filter_of(import.prefix@)),
        None => assigned,
    }
}

/// Builds the context of a run from its three sources, in the fixed order:
/// the data file with the text `values`, then the assignments, then the
/// environment. Later layers replace what earlier ones set under the same
/// name. The environment enters only where `env` asks for it.
pub fn build_context(
    values: Option<&str>,
    assignments: &Vec<String>,
    env: Option<&EnvImport>,
) -> (built: Result<tera::Context, TemplateError>)
    ensures
        match built {
            Ok(context) => {
                &&& file_layer(option_str_view(values)) matches Some(base)
                &&& forall|i: int|
                    0 <= i < assignments@.len() ==> assignment(#[trigger] assignments@[i]@) is Some
                &&& context_entries(context) == layered(
                    base,
                    texts(assignments@),
                    match env {
                        Some(import) => Some(*import),
                        None => None,
                    },
                )
            },
            Err(e) => match file_layer(option_str_view(values)) {
                Some(_) => exists|k: int|
                    {
                        &&& 0 <= k < assignments@.len()
                        &&& assignment(#[trigger] assignments@[k]@) is None
                        &&& forall|j: int|
                            0 <= j < k ==> assignment(#[trigger] assignments@[j]@) is Some
                        &&& e matches TemplateError::InvalidArgument(text)
                        &&& text@ == if split_once(assignments@[k]@, '=') is None {
                            invalid_assignment(assignments@[k]@)
                        } else {
                            empty_key()
                        }
                    },
                None => if json_parse(values->0@) is None {
                    e is JsonParse
                } else {
                    e matches TemplateError::InvalidArgument(text) && text@ == not_an_object()
                },
            },
        },
{
    let mut context = tera::Context::new();
    match values {
        Some(text) => {
            let loaded = match load_values_from_file(text) {
                Ok(loaded) => loaded,
                Err(e) => {
                    return Err(e);
                },
            };
            context.extend(loaded);
            assert(context_entries(context) =~= file_layer(option_str_view(values))->0);
        },
        None => {},
    }
    match apply_assignments(&mut context, assignments) {
        Ok(_) => {},
        Err(e) => {
            return Err(e);
        },
    }
    match env {
        Some(import) => {
            if import.prefix.as_str().unicode_len() == 0 {
                add_env_vars(&mut context, &import.vars, None);
            } else {
                add_env_vars(&mut context, &import.vars, Some(import.prefix.as_str()));
            }
        },
        None => {},
    }
    Ok(context)
}

} // verus!
