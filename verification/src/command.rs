//! The command that runs in a sandbox, and its environment.

use crate::text;
use vstd::prelude::*;

verus! {

/// Environment variables. No name occurs twice.
#[derive(Debug)]
pub struct EnvVars {
    entries: Vec<(String, String)>,
}

/// What a list of names and values means: a later entry counts for its name.
pub open spec fn entries_map(entries: Seq<(String, String)>) -> Map<Seq<char>, Seq<char>>
    decreases entries.len(),
{
    if entries.len() == 0 {
        Map::empty()
    } else {
        entries_map(entries.drop_last()).insert(entries.last().0@, entries.last().1@)
    }
}

/// Whether a name occurs in a list of names and values.
pub open spec fn names(entries: Seq<(String, String)>, key: Seq<char>) -> bool {
    exists|i: int| 0 <= i < entries.len() && (#[trigger] entries[i]).0@ == key
}

/// The entries with other names, in their order.
pub open spec fn others(entries: Seq<(String, String)>, key: Seq<char>) -> Seq<(String, String)> {
    entries.filter(|entry: (String, String)| entry.0@ != key)
}

proof fn lemma_others_step(entries: Seq<(String, String)>, key: Seq<char>)
    requires
        entries.len() > 0,
    ensures
        others(entries, key) == if entries.last().0@ != key {
            others(entries.drop_last(), key).push(entries.last())
        } else {
            others(entries.drop_last(), key)
        },
{
    reveal(Seq::filter);
}

/// The entries with other names are kept as they are and in their order, and
/// those with the name are left out, wherever they stand.
pub proof fn others_keep_their_order(
    entries: Seq<(String, String)>,
    entry: (String, String),
    key: Seq<char>,
)
    ensures
        others(Seq::empty(), key).len() == 0,
        entry.0@ != key ==> others(entries.push(entry), key) == others(entries, key).push(entry),
        entry.0@ == key ==> others(entries.push(entry), key) == others(entries, key),
{
    reveal(Seq::filter);
    lemma_others_step(entries.push(entry), key);
    assert(entries.push(entry).drop_last() =~= entries);
}

/// Of several entries with one name the last one counts.
pub proof fn last_entry_counts(entries: Seq<(String, String)>, entry: (String, String))
    ensures
        entries_map(Seq::empty()) == Map::<Seq<char>, Seq<char>>::empty(),
        entries_map(entries.push(entry)) == entries_map(entries).insert(entry.0@, entry.1@),
{
    assert(entries.push(entry).drop_last() =~= entries);
}

proof fn lemma_entries_dom(entries: Seq<(String, String)>, key: Seq<char>)
    ensures
        entries_map(entries).dom().contains(key) <==> names(entries, key),
    decreases entries.len(),
{
    if entries.len() > 0 {
        let rest = entries.drop_last();
        lemma_entries_dom(rest, key);
        if names(rest, key) {
            let i = choose|i: int| 0 <= i < rest.len() && (#[trigger] rest[i]).0@ == key;
            assert(entries[i].0@ == key);
        }
        if names(entries, key) {
            let i = choose|i: int| 0 <= i < entries.len() && (#[trigger] entries[i]).0@ == key;
            if i < rest.len() {
                assert(rest[i].0@ == key);
            }
        }
        if entries.last().0@ == key {
            assert(entries[entries.len() - 1].0@ == key);
        }
    }
}

/// Whether `after` is `before` with a variable set: the other entries in their
/// order, and then the variable.
pub open spec fn set_last(
    before: Seq<(String, String)>,
    key: Seq<char>,
    value: Seq<char>,
    after: Seq<(String, String)>,
) -> bool {
    &&& after.len() > 0
    &&& after.drop_last() == others(before, key)
    &&& after.last().0@ == key
    &&& after.last().1@ == value
}

/// A variable that is set stands last in the list with its value, and the other
/// variables stay as they were.
pub proof fn set_variable_stands_last(
    before: Seq<(String, String)>,
    key: Seq<char>,
    value: Seq<char>,
    after: Seq<(String, String)>,
)
    requires
        set_last(before, key, value, after),
    ensures
        after.len() > 0,
        after[after.len() - 1].0@ == key,
        after[after.len() - 1].1@ == value,
        after.take(after.len() - 1) == others(before, key),
        others(after, key) == others(others(before, key), key),
{
    assert(after.take(after.len() - 1) =~= after.drop_last());
    lemma_others_step(after, key);
}

impl View for EnvVars {
    type V = Map<Seq<char>, Seq<char>>;

    closed spec fn view(&self) -> Map<Seq<char>, Seq<char>> {
        entries_map(self.entries@)
    }
}

impl EnvVars {
    /// The entries, in the order in which they were last set.
    pub closed spec fn list(self) -> Seq<(String, String)> {
        self.entries@
    }

    /// No name occurs twice.
    #[verifier::type_invariant]
    pub closed spec fn wf(self) -> bool {
        forall|i: int, j: int|
            0 <= i < j < self.entries@.len() ==> (#[trigger] self.entries@[i]).0@ != (
            #[trigger] self.entries@[j]).0@
    }

    /// No variables.
    pub fn new() -> (r: EnvVars)
        ensures
            r@ == Map::<Seq<char>, Seq<char>>::empty(),
            r.list() == Seq::<(String, String)>::empty(),
    {
        EnvVars { entries: Vec::new() }
    }

    /// How many variables there are.
    pub fn len(&self) -> (r: usize)
        ensures
            r == self.list().len(),
    {
        self.entries.len()
    }

    /// The name and value of a variable by its place in the list.
    pub fn entry(&self, i: usize) -> (r: (&String, &String))
        requires
            i < self.list().len(),
        ensures
            r.0 == self.list()[i as int].0,
            r.1 == self.list()[i as int].1,
    {
        (&self.entries[i].0, &self.entries[i].1)
    }

    /// The value of a variable.
    pub fn get(&self, key: &str) -> (r: Option<String>)
        ensures
            match r {
                Some(value) => self@.dom().contains(key@) && self@[key@] == value@,
                None => !self@.dom().contains(key@),
            },
    {
        let mut i: usize = self.entries.len();
        assert(self.entries@.take(i as int) =~= self.entries@);
        while i > 0
            invariant
                i <= self.entries@.len(),
                self@.dom().contains(key@) == entries_map(
                    self.entries@.take(i as int),
                ).dom().contains(key@),
                self@.dom().contains(key@) ==> self@[key@] == entries_map(
                    self.entries@.take(i as int),
                )[key@],
            decreases i,
        {
            i -= 1;
            assert(self.entries@.take(i + 1).drop_last() =~= self.entries@.take(i as int));
            if text::same(self.entries[i].0.as_str(), key) {
                return Some(self.entries[i].1.clone());
            }
        }
        None
    }

    fn without(&self, key: &str) -> (r: Vec<(String, String)>)
        ensures
            r@ == others(self.list(), key@),
            entries_map(r@) == self@.remove(key@),
            !names(r@, key@),
            forall|i: int, j: int|
                0 <= i < j < r@.len() ==> (#[trigger] r@[i]).0@ != (#[trigger] r@[j]).0@,
            forall|i: int| 0 <= i < r@.len() ==> names(self.list(), (#[trigger] r@[i]).0@),
    {
        proof {
            use_type_invariant(self);
        }
        let mut kept: Vec<(String, String)> = Vec::new();
        let mut i: usize = 0;
        assert(entries_map(kept@) =~= entries_map(self.entries@.take(0)).remove(key@));
        assert(kept@ =~= others(self.entries@.take(0), key@)) by {
            reveal(Seq::filter);
        }
        while i < self.entries.len()
            invariant
                i <= self.entries@.len(),
                self.wf(),
                kept@ == others(self.entries@.take(i as int), key@),
                entries_map(kept@) == entries_map(self.entries@.take(i as int)).remove(key@),
                forall|a: int| 0 <= a < kept@.len() ==> (#[trigger] kept@[a]).0@ != key@,
                forall|a: int|
                    0 <= a < kept@.len() ==> names(
                        self.entries@.take(i as int),
                        (#[trigger] kept@[a]).0@,
                    ),
                forall|a: int, b: int|
                    0 <= a < b < kept@.len() ==> (#[trigger] kept@[a]).0@ != (
                    #[trigger] kept@[b]).0@,
            decreases self.entries.len() - i,
        {
            let ghost seen = self.entries@.take(i as int);
            let ghost more = self.entries@.take(i + 1);
            let ghost before = kept@;
            assert(more.drop_last() =~= seen);
            proof {
                lemma_others_step(more, key@);
            }
            assert forall|k: Seq<char>| names(seen, k) implies names(more, k) by {
                let a = choose|a: int| 0 <= a < seen.len() && (#[trigger] seen[a]).0@ == k;
                assert(more[a].0@ == k);
            }
            if !text::same(self.entries[i].0.as_str(), key) {
                let name = self.entries[i].0.clone();
                let value = self.entries[i].1.clone();
                assert forall|a: int| 0 <= a < before.len() implies (#[trigger] before[a]).0@
                    != name@ by {
                    let b = choose|b: int|
                        0 <= b < seen.len() && (#[trigger] seen[b]).0@ == before[a].0@;
                    assert(self.entries@[b].0@ != self.entries@[i as int].0@);
                }
                kept.push((name, value));
                assert(kept@.drop_last() =~= before);
                assert(more[i as int].0@ == name@);
                assert(entries_map(kept@) =~= entries_map(more).remove(key@));
            } else {
                assert(entries_map(kept@) =~= entries_map(more).remove(key@));
            }
            i += 1;
        }
        assert(self.entries@.take(i as int) =~= self.entries@);
        kept
    }

    /// Takes a variable out; the others keep their order.
    pub fn remove(&mut self, key: &str)
        ensures
            final(self)@ == old(self)@.remove(key@),
            final(self).list() == others(old(self).list(), key@),
    {
        let kept = self.without(key);
        *self = EnvVars { entries: kept };
    }

    /// Sets a variable, in place of the value it had. It comes last; the others
    /// keep their order.
    pub fn insert(&mut self, key: &str, value: &str)
        ensures
            final(self)@ == old(self)@.insert(key@, value@),
            set_last(old(self).list(), key@, value@, final(self).list()),
    {
        let mut kept = self.without(key);
        let ghost before = kept@;
        let ghost map = self@;
        kept.push((key.to_owned(), value.to_owned()));
        assert(kept@.drop_last() =~= before);
        assert forall|i: int, j: int| 0 <= i < j < kept@.len() implies (#[trigger] kept@[i]).0@ != (
        #[trigger] kept@[j]).0@ by {
            assert(kept@[i] == before[i]);
            if j < before.len() {
                assert(kept@[j] == before[j]);
            } else {
                assert(!names(before, key@));
                assert(before[i].0@ != key@);
            }
        }
        assert(entries_map(kept@) =~= map.insert(key@, value@));
        *self = EnvVars { entries: kept };
    }
}

proof fn lemma_entries_value(entries: Seq<(String, String)>, i: int)
    requires
        0 <= i < entries.len(),
        forall|a: int, b: int|
            0 <= a < b < entries.len() ==> (#[trigger] entries[a]).0@ != (
            #[trigger] entries[b]).0@,
    ensures
        entries_map(entries)[entries[i].0@] == entries[i].1@,
    decreases entries.len(),
{
    if i < entries.len() - 1 {
        let rest = entries.drop_last();
        assert forall|a: int, b: int| 0 <= a < b < rest.len() implies (#[trigger] rest[a]).0@ != (
        #[trigger] rest[b]).0@ by {
            assert(entries[a].0@ != entries[b].0@);
        }
        lemma_entries_value(rest, i);
        assert(rest[i] == entries[i]);
        assert(entries[i].0@ != entries[entries.len() - 1].0@);
    }
}

/// The list holds each variable once, with its value.
pub proof fn variables_are_listed(env: EnvVars, key: Seq<char>)
    requires
        env.wf(),
    ensures
        env@.dom().contains(key) <==> names(env.list(), key),
        forall|i: int|
            0 <= i < env.list().len() && (#[trigger] env.list()[i]).0@ == key ==> env@[key]
                == env.list()[i].1@,
        forall|i: int, j: int|
            0 <= i < j < env.list().len() ==> (#[trigger] env.list()[i]).0@ != (
            #[trigger] env.list()[j]).0@,
{
    lemma_entries_dom(env.entries@, key);
    assert forall|i: int|
        0 <= i < env.list().len() && (#[trigger] env.list()[i]).0@ == key implies env@[key]
        == env.list()[i].1@ by {
        lemma_entries_value(env.entries@, i);
    }
}

impl Clone for EnvVars {
    /// The same variables in the same order.
    fn clone(&self) -> (r: EnvVars)
        ensures
            r.list() == self.list(),
            r@ == self@,
    {
        proof {
            use_type_invariant(self);
        }
        let mut copy: Vec<(String, String)> = Vec::new();
        let mut i: usize = 0;
        while i < self.entries.len()
            invariant
                i <= self.entries@.len(),
                copy@ == self.entries@.take(i as int),
            decreases self.entries.len() - i,
        {
            copy.push((self.entries[i].0.clone(), self.entries[i].1.clone()));
            i += 1;
            assert(copy@ =~= self.entries@.take(i as int));
        }
        assert(copy@ =~= self.entries@);
        EnvVars { entries: copy }
    }
}

/// A command and the conditions that it runs under.
#[derive(Debug, Clone)]
pub struct CommandSpec {
    /// The program: a path, or a name to be looked up in `PATH`.
    pub program: String,
    /// Its arguments, without its name.
    pub args: Vec<String>,
    /// Its working directory.
    pub cwd: String,
    /// Its environment.
    pub env: EnvVars,
    /// How long it may run, in milliseconds.
    pub timeout_millis: u64,
}

impl Default for CommandSpec {
    /// No program, no arguments and no environment, in the current directory,
    /// for thirty seconds.
    fn default() -> (r: CommandSpec)
        ensures
            r.program@ == Seq::<char>::empty(),
            r.args@ == Seq::<String>::empty(),
            r.cwd@ == "."@,
            r.env@ == Map::<Seq<char>, Seq<char>>::empty(),
            r.env.list() == Seq::<(String, String)>::empty(),
            r.timeout_millis == 30_000,
    {
        CommandSpec {
            program: String::new(),
            args: Vec::new(),
            cwd: ".".to_owned(),
            env: EnvVars::new(),
            timeout_millis: 30_000,
        }
    }
}

impl CommandSpec {
    /// Sets the program.
    pub fn with_program(self, program: &str) -> (r: CommandSpec)
        ensures
            r.program@ == program@,
            r == (CommandSpec { program: r.program, ..self }),
    {
        let mut spec = self;
        spec.program = program.to_owned();
        spec
    }

    /// Sets the arguments.
    pub fn with_args(self, args: Vec<String>) -> (r: CommandSpec)
        ensures
            r == (CommandSpec { args, ..self }),
    {
        let mut spec = self;
        spec.args = args;
        spec
    }

    /// Sets the working directory.
    pub fn with_cwd(self, cwd: &str) -> (r: CommandSpec)
        ensures
            r.cwd@ == cwd@,
            r == (CommandSpec { cwd: r.cwd, ..self }),
    {
        let mut spec = self;
        spec.cwd = cwd.to_owned();
        spec
    }

    /// Empties the environment.
    pub fn with_clearenv(self) -> (r: CommandSpec)
        ensures
            r.env@ == Map::<Seq<char>, Seq<char>>::empty(),
            r.env.list() == Seq::<(String, String)>::empty(),
            r == (CommandSpec { env: r.env, ..self }),
    {
        let mut spec = self;
        spec.env = EnvVars::new();
        spec
    }

    /// Sets an environment variable.
    pub fn with_env(self, key: &str, value: &str) -> (r: CommandSpec)
        ensures
            r.env@ == self.env@.insert(key@, value@),
            set_last(self.env.list(), key@, value@, r.env.list()),
            r == (CommandSpec { env: r.env, ..self }),
    {
        let mut spec = self;
        spec.env.insert(key, value);
        spec
    }

    /// Sets how long the command may run, in milliseconds.
    pub fn with_timeout(self, timeout_millis: u64) -> (r: CommandSpec)
        ensures
            r == (CommandSpec { timeout_millis, ..self }),
    {
        let mut spec = self;
        spec.timeout_millis = timeout_millis;
        spec
    }
}

} // verus!
