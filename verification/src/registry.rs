//! The template registry: template sources by name, and the engine that holds
//! them for rendering.

use vstd::prelude::*;
use crate::engine::{
    ancestor, circular_extend, ends_at_root, engine_parents, held_parent, leads_to, new_engine,
    parse_parent, rooted, source_parent, Parents,
};
use crate::error::TemplateError;

verus! {

/// A registered template: its logical name and its source text.
#[derive(Debug)]
pub struct TemplateEntry {
    pub name: String,
    pub source: String,
}

/// What a list of entries registers: each entry in turn is set under its
/// name, so a later entry replaces an earlier one of the same name.
pub open spec fn entries_map(entries: Seq<TemplateEntry>) -> Map<Seq<char>, Seq<char>>
    decreases entries.len(),
{
    if entries.len() == 0 {
        Map::empty()
    } else {
        entries_map(entries.drop_last()).insert(entries.last().name@, entries.last().source@)
    }
}

/// Whether no two entries of the list share a name.
pub open spec fn distinct_names(entries: Seq<TemplateEntry>) -> bool {
    forall|i: int, j: int|
        0 <= i < j < entries.len() ==> (#[trigger] entries[i]).name@ != (#[trigger] entries[j]).name@
}

/// The names that a list of entries registers are the names of its entries.
proof fn lemma_entries_names(entries: Seq<TemplateEntry>, name: Seq<char>)
    ensures
        entries_map(entries).contains_key(name) <==> exists|i: int|
            0 <= i < entries.len() && (#[trigger] entries[i]).name@ == name,
    decreases entries.len(),
{
    if entries.len() > 0 {
        let init = entries.drop_last();
        lemma_entries_names(init, name);
        if entries_map(entries).contains_key(name) {
            if entries.last().name@ == name {
                assert(entries[entries.len() - 1].name@ == name);
            } else {
                let i = choose|i: int| 0 <= i < init.len() && (#[trigger] init[i]).name@ == name;
                assert(entries[i].name@ == name);
            }
        }
        if exists|i: int| 0 <= i < entries.len() && (#[trigger] entries[i]).name@ == name {
            let i = choose|i: int| 0 <= i < entries.len() && (#[trigger] entries[i]).name@ == name;
            if i < init.len() {
                assert(init[i].name@ == name);
            }
        }
    }
}

/// Among entries with distinct names, each name leads to the source of its
/// own entry, and there are as many names as entries.
proof fn lemma_entries_sources(entries: Seq<TemplateEntry>)
    requires
        distinct_names(entries),
    ensures
        forall|i: int|
            0 <= i < entries.len() ==> entries_map(entries).contains_key(
                (#[trigger] entries[i]).name@,
            ) && entries_map(entries)[entries[i].name@] == entries[i].source@,
        entries_map(entries).dom().finite(),
        entries_map(entries).len() == entries.len(),
    decreases entries.len(),
{
    if entries.len() > 0 {
        let init = entries.drop_last();
        let last = entries.last();
        assert forall|i: int, j: int| 0 <= i < j < init.len() implies (#[trigger] init[i]).name@ != (
        #[trigger] init[j]).name@ by {
            assert(entries[i].name@ != entries[j].name@);
        }
        lemma_entries_sources(init);
        lemma_entries_names(init, last.name@);
        if entries_map(init).contains_key(last.name@) {
            let i = choose|i: int| 0 <= i < init.len() && (#[trigger] init[i]).name@ == last.name@;
            assert(entries[i].name@ == entries[entries.len() - 1].name@);
        }
        assert forall|i: int| 0 <= i < entries.len() implies entries_map(entries).contains_key(
            (#[trigger] entries[i]).name@,
        ) && entries_map(entries)[entries[i].name@] == entries[i].source@ by {
            if i < init.len() {
                assert(init[i].name@ == entries[i].name@);
                assert(entries[i].name@ != entries[entries.len() - 1].name@);
            }
        }
    }
}

/// Putting a new source in the place of an entry, under the same name, is
/// registering that source under that name.
proof fn lemma_entries_replaced(entries: Seq<TemplateEntry>, at: int, entry: TemplateEntry)
    requires
        distinct_names(entries),
        0 <= at < entries.len(),
        entry.name@ == entries[at].name@,
    ensures
        distinct_names(entries.update(at, entry)),
        entries_map(entries.update(at, entry)) == entries_map(entries).insert(
            entry.name@,
            entry.source@,
        ),
    decreases entries.len(),
{
    let after = entries.update(at, entry);
    assert forall|i: int, j: int| 0 <= i < j < after.len() implies (#[trigger] after[i]).name@ != (
    #[trigger] after[j]).name@ by {
        assert(entries[i].name@ != entries[j].name@);
    }
    let init = entries.drop_last();
    if at == entries.len() - 1 {
        assert(after.drop_last() =~= init);
        assert(entries_map(after) =~= entries_map(entries).insert(entry.name@, entry.source@));
    } else {
        assert forall|i: int, j: int| 0 <= i < j < init.len() implies (#[trigger] init[i]).name@ != (
        #[trigger] init[j]).name@ by {
            assert(entries[i].name@ != entries[j].name@);
        }
        lemma_entries_replaced(init, at, entry);
        assert(after.drop_last() =~= init.update(at, entry));
        assert(after.last() == entries.last());
        assert(entries[at].name@ != entries[entries.len() - 1].name@);
        assert(entries_map(after) =~= entries_map(entries).insert(entry.name@, entry.source@));
    }
}

/// Last write wins: of two registrations under one name only the later one
/// stays, and the name is registered once.
pub proof fn lemma_last_registration_wins(
    registered: Map<Seq<char>, Seq<char>>,
    name: Seq<char>,
    first: Seq<char>,
    second: Seq<char>,
)
    requires
        registered.dom().finite(),
    ensures
        registered.insert(name, first).insert(name, second) == registered.insert(name, second),
        registered.insert(name, first).insert(name, second)[name] == second,
        registered.insert(name, first).insert(name, second).len() == registered.insert(
            name,
            first,
        ).len(),
{
    assert(registered.insert(name, first).insert(name, second) =~= registered.insert(name, second));
    assert(registered.insert(name, first).dom() =~= registered.insert(name, second).dom());
}

/// One step more up the parents leads from where the steps so far have led.
proof fn lemma_ancestor_next(parents: Parents, from: Seq<char>, steps: nat)
    ensures
        ancestor(parents, from, steps + 1) == match ancestor(parents, from, steps) {
            Some(at) => if parents.contains_key(at) && parents[at] is Some {
                Some(parents[at]->0)
            } else {
                None
            },
            None => None,
        },
    decreases steps,
{
    if parents.contains_key(from) && parents[from] is Some {
        let parent = parents[from]->0;
        if steps == 0 {
            assert(ancestor(parents, parent, 0) == Some(parent));
        } else {
            lemma_ancestor_next(parents, parent, (steps - 1) as nat);
            assert(ancestor(parents, from, steps + 1) == ancestor(parents, parent, steps));
        }
    }
}

/// Where the way up has ended, it stays ended.
proof fn lemma_ancestor_ended(parents: Parents, from: Seq<char>, steps: nat, later: nat)
    requires
        ancestor(parents, from, steps) is None,
        steps <= later,
    ensures
        ancestor(parents, from, later) is None,
    decreases later - steps,
{
    if steps < later {
        lemma_ancestor_next(parents, from, steps);
        lemma_ancestor_ended(parents, from, steps + 1, later);
    }
}

/// The templates of a run: each source under its logical name, and the engine
/// that renders them. Names are unique; registering under a name that is
/// taken replaces what was there.
#[derive(Debug)]
pub struct Registry {
    engine: tera::Tera,
    entries: Vec<TemplateEntry>,
}

impl View for Registry {
    type V = Map<Seq<char>, Seq<char>>;

    /// The registered sources by name.
    closed spec fn view(&self) -> Map<Seq<char>, Seq<char>> {
        entries_map(self.entries@)
    }
}

impl Registry {
    #[verifier::type_invariant]
    spec fn consistent(self) -> bool {
        &&& distinct_names(self.entries@)
        &&& engine_parents(self.engine).dom() == entries_map(self.entries@).dom()
        &&& rooted(engine_parents(self.engine))
    }

    /// A registry without templates.
    pub fn new() -> (registry: Registry)
        ensures
            registry@ == Map::<Seq<char>, Seq<char>>::empty(),
            registry.parents() == Parents::empty(),
    {
        let registry = Registry { engine: new_engine(), entries: Vec::new() };
        assert(entries_map(registry.entries@).dom() =~= engine_parents(registry.engine).dom());
        registry
    }

    /// For each registered name, the template that its source extends, as
    /// the engine read it.
    pub closed spec fn parents(&self) -> Parents {
        engine_parents(self.engine)
    }

    /// Whether registering `source` under `name` would make a registered
    /// template extend itself, at once or by way of others: `name` is taken,
    /// and the way up from the template that `source` extends leads to `name`.
    pub open spec fn closes_circle(&self, name: Seq<char>, source: Seq<char>) -> bool {
        &&& self@.contains_key(name)
        &&& source_parent(source) matches Some(Some(parent))
        &&& leads_to(self.parents(), parent, name)
    }

    /// The registered templates, each once, in the order in which their names
    /// were first registered.
    pub fn entries(&self) -> (entries: &Vec<TemplateEntry>)
        ensures
            distinct_names(entries@),
            entries_map(entries@) == self@,
    {
        proof {
            use_type_invariant(self);
        }
        &self.entries
    }

    /// How many templates are registered.
    pub fn len(&self) -> (count: usize)
        ensures
            self@.dom().finite(),
            count == self@.len(),
    {
        proof {
            use_type_invariant(self);
            lemma_entries_sources(self.entries@);
        }
        self.entries.len()
    }

    /// Where the entry of `name` stands among the entries.
    fn position(&self, name: &String) -> (found: Option<usize>)
        ensures
            match found {
                Some(i) => i < self.entries@.len() && self.entries@[i as int].name@ == name@,
                None => !self@.contains_key(name@),
            },
    {
        let mut i: usize = 0;
        while i < self.entries.len()
            invariant
                i <= self.entries@.len(),
                forall|j: int| 0 <= j < i ==> (#[trigger] self.entries@[j]).name@ != name@,
            decreases self.entries@.len() - i,
        {
            if self.entries[i].name == *name {
                return Some(i);
            }
            i += 1;
        }
        proof {
            lemma_entries_names(self.entries@, name@);
        }
        None
    }

    /// The source registered under `name`.
    pub fn source(&self, name: &str) -> (found: Option<&String>)
        ensures
            match found {
                Some(text) => self@.contains_key(name@) && self@[name@] == text@,
                None => !self@.contains_key(name@),
            },
    {
        let key = name.to_owned();
        match self.position(&key) {
            Some(i) => {
                proof {
                    use_type_invariant(self);
                    lemma_entries_sources(self.entries@);
                }
                Some(&self.entries[i].source)
            },
            None => None,
        }
    }

    /// Whether a template is registered under `name`.
    pub fn contains(&self, name: &str) -> (yes: bool)
        ensures
            yes == self@.contains_key(name@),
    {
        let key = name.to_owned();
        let found = self.position(&key);
        proof {
            lemma_entries_names(self.entries@, name@);
        }
        found.is_some()
    }

    /// The engine, for rendering. It holds a template under each registered
    /// name and under no other.
    pub fn engine(&self) -> (engine: &tera::Tera)
        ensures
            engine_parents(*engine) == self.parents(),
            engine_parents(*engine).dom() == self@.dom(),
    {
        proof {
            use_type_invariant(self);
        }
        &self.engine
    }

    /// The way up the parents from `parent`, where it arrives at `name`: the
    /// names it passes, `parent` first and `name` last.
    fn way_to(&self, parent: String, name: &String) -> (way: Option<Vec<String>>)
        ensures
            way is Some <==> leads_to(engine_parents(self.engine), parent@, name@),
    {
        proof {
            use_type_invariant(self);
        }
        let ghost parents = engine_parents(self.engine);
        let ghost mut steps: nat = 0;
        let ghost mut left: nat = if parents.contains_key(parent@) {
            choose|n: nat| ends_at_root(parents, parent@, n)
        } else {
            0
        };
        let mut at = parent;
        let mut way: Vec<String> = Vec::new();
        loop
            invariant
                parents == engine_parents(self.engine),
                ancestor(parents, parent@, steps) == Some(at@),
                forall|k: nat| k < steps ==> ancestor(parents, parent@, k) != Some(name@),
                parents.contains_key(at@) ==> ends_at_root(parents, at@, left),
            decreases left,
        {
            way.push(at.clone());
            if at == *name {
                return Some(way);
            }
            match held_parent(&self.engine, at.as_str()) {
                Some(Some(next)) => {
                    proof {
                        lemma_ancestor_next(parents, parent@, steps);
                        steps = steps + 1;
                        left = (left - 1) as nat;
                    }
                    at = next;
                },
                _ => {
                    proof {
                        lemma_ancestor_next(parents, parent@, steps);
                        assert forall|k: nat| ancestor(parents, parent@, k) != Some(name@) by {
                            if k > steps {
                                lemma_ancestor_ended(parents, parent@, steps + 1, k);
                            }
                        }
                    }
                    return None;
                },
            }
        }
    }

    /// Registers `source` under `name`, in place of what was registered there.
    ///
    /// Whether the source is accepted is the engine's decision: it parses the
    /// source and links it with the templates it already holds. Where `name`
    /// is taken, the source is first parsed for the template it extends: a
    /// source that the parser refuses fails with the parser's error, and one
    /// that would make a registered template extend itself, at once or by way
    /// of others, fails with the engine's error for that. The engine is
    /// called for the others only.
    pub fn register(self, name: &str, source: &str) -> (registered: Result<Registry, TemplateError>)
        ensures
            self.closes_circle(name@, source@) ==> registered is Err,
            match registered {
                Ok(registry) => {
                    &&& registry@ == self@.insert(name@, source@)
                    &&& source_parent(source@) matches Some(parent)
                    &&& registry.parents() == self.parents().insert(name@, parent)
                },
                Err(e) => e is TeraError,
            },
    {
        proof {
            use_type_invariant(&self);
            assert(self@.contains_key(name@) == engine_parents(self.engine).contains_key(name@));
        }
        let key = name.to_owned();
        let at = self.position(&key);
        if at.is_some() {
            match parse_parent(source) {
                Ok(Some(parent)) => {
                    match self.way_to(parent, &key) {
                        Some(way) => {
                            return Err(TemplateError::TeraError(circular_extend(name, way)));
                        },
                        None => {},
                    }
                },
                Ok(None) => {},
                Err(refusal) => {
                    return Err(TemplateError::TeraError(refusal));
                },
            }
        }
        let Registry { engine, entries } = self;
        let mut engine = engine;
        let mut entries = entries;
        match engine.add_raw_template(name, source) {
            Ok(()) => {
                let entry = TemplateEntry { name: key, source: source.to_owned() };
                match at {
                    Some(i) => {
                        proof {
                            lemma_entries_replaced(entries@, i as int, entry);
                        }
                        entries.set(i, entry);
                    },
                    None => {
                        proof {
                            let after = entries@.push(entry);
                            assert(after.drop_last() =~= entries@);
                            assert forall|i: int, j: int|
                                0 <= i < j < after.len() implies (#[trigger] after[i]).name@ != (
                            #[trigger] after[j]).name@ by {
                                lemma_entries_names(entries@, name@);
                            }
                        }
                        entries.push(entry);
                    },
                }
                assert(engine_parents(engine).dom() =~= entries_map(entries@).dom());
                Ok(Registry { engine, entries })
            },
            Err(cause) => Err(TemplateError::TeraError(cause)),
        }
    }
}

} // verus!
