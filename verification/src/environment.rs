//! The environment snapshot: a mapping from names to text, built once at
//! the start of an invocation and handed to whoever needs it.

use crate::text::{chars_of, same_chars};
use vstd::prelude::*;

verus! {

/// One name with its value.
pub struct Binding {
    /// The name, character by character.
    pub name: Vec<char>,
    /// The raw text bound to it.
    pub value: String,
}

/// What `name` is bound to in `bindings`; of two bindings of one name the
/// later counts.
pub open spec fn bound(bindings: Seq<Binding>, name: Seq<char>) -> Option<Seq<char>>
    decreases bindings.len(),
{
    if bindings.len() == 0 {
        None
    } else if bindings.last().name@ == name {
        Some(bindings.last().value@)
    } else {
        bound(bindings.drop_last(), name)
    }
}

/// The mapping that `bindings` stand for.
pub open spec fn mapping(bindings: Seq<Binding>) -> Map<Seq<char>, Seq<char>> {
    Map::new(
        |name: Seq<char>| bound(bindings, name) is Some,
        |name: Seq<char>| bound(bindings, name)->0,
    )
}

/// An environment snapshot.
pub struct Env {
    /// The bindings in the order in which they were made.
    pub bindings: Vec<Binding>,
}

impl View for Env {
    type V = Map<Seq<char>, Seq<char>>;

    open spec fn view(&self) -> Map<Seq<char>, Seq<char>> {
        mapping(self.bindings@)
    }
}

impl Env {
    /// The empty snapshot.
    pub fn new() -> (env: Env)
        ensures
            env@ == Map::<Seq<char>, Seq<char>>::empty(),
    {
        let env = Env { bindings: Vec::new() };
        assert(env@ =~= Map::<Seq<char>, Seq<char>>::empty());
        env
    }

    /// Binds `name` to `value`, replacing what it was bound to.
    pub fn insert(&mut self, name: &str, value: &str)
        ensures
            final(self)@ == old(self)@.insert(name@, value@),
    {
        let binding = Binding { name: chars_of(name), value: String::from_str(value) };
        let ghost before = self.bindings@;
        self.bindings.push(binding);
        proof {
            let after = self.bindings@;
            assert(after.drop_last() =~= before);
            assert forall|k: Seq<char>| #[trigger]
                bound(after, k) == (if k == name@ {
                    Some(value@)
                } else {
                    bound(before, k)
                }) by {}
            assert(mapping(after) =~= mapping(before).insert(name@, value@));
        }
    }

    /// The value of the name `v[from..to]`, if it has one.
    pub fn lookup(&self, v: &Vec<char>, from: usize, to: usize) -> (value: Option<&String>)
        requires
            from <= to <= v@.len(),
        ensures
            match value {
                Some(text) => self@.contains_key(v@.subrange(from as int, to as int)) && self@[v@.subrange(
                    from as int,
                    to as int,
                )] == text@,
                None => !self@.contains_key(v@.subrange(from as int, to as int)),
            },
    {
        let ghost name = v@.subrange(from as int, to as int);
        let mut i: usize = self.bindings.len();
        assert(self.bindings@.subrange(0, i as int) =~= self.bindings@);
        while i > 0
            invariant
                from <= to <= v@.len(),
                name == v@.subrange(from as int, to as int),
                i <= self.bindings@.len(),
                bound(self.bindings@, name) == bound(self.bindings@.subrange(0, i as int), name),
            decreases i,
        {
            let ghost prefix = self.bindings@.subrange(0, i as int);
            assert(prefix.drop_last() =~= self.bindings@.subrange(0, i - 1));
            assert(prefix.last() == self.bindings@[i - 1]);
            i = i - 1;
            if same_chars(&self.bindings[i].name, v, from, to) {
                return Some(&self.bindings[i].value);
            }
        }
        assert(self.bindings@.subrange(0, 0).len() == 0);
        None
    }

    /// The value of `name`, if it has one.
    pub fn get(&self, name: &str) -> (value: Option<&String>)
        ensures
            match value {
                Some(text) => self@.contains_key(name@) && self@[name@] == text@,
                None => !self@.contains_key(name@),
            },
    {
        let v = chars_of(name);
        assert(v@.subrange(0, v@.len() as int) =~= v@);
        self.lookup(&v, 0, v.len())
    }
}

} // verus!
