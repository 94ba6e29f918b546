//! The environment: the variables that placeholders stand for.

use vstd::prelude::*;
use vstd::string::*;
use crate::string_map::{put, StringMap};

verus! {

/// A flat store of variables, each a name with a value. The store lives
/// in memory only. Whoever shares it between tasks guards it with a lock
/// of their own and holds that lock for one call at a time.
#[derive(Debug)]
pub struct EnvStore {
    vars: StringMap,
}

impl View for EnvStore {
    type V = Map<Seq<char>, Seq<char>>;

    closed spec fn view(&self) -> Map<Seq<char>, Seq<char>> {
        self.vars@
    }
}

impl EnvStore {
    /// The variables in the order in which substitution applies them:
    /// the order in which their names were first set.
    pub closed spec fn entries(&self) -> Seq<(Seq<char>, Seq<char>)> {
        self.vars.entries()
    }

    /// A store without variables.
    pub fn new() -> (store: EnvStore)
        ensures
            store@ == Map::<Seq<char>, Seq<char>>::empty(),
            store.entries() == Seq::<(Seq<char>, Seq<char>)>::empty(),
    {
        EnvStore { vars: StringMap::new() }
    }

    /// Sets the variable `name` to `value`, in place of any value it
    /// had. Any name and any value are taken.
    pub fn set(&mut self, name: String, value: String)
        ensures
            final(self)@ == old(self)@.insert(name@, value@),
            final(self).entries() == put(old(self).entries(), name@, value@),
    {
        self.vars.insert(name, value);
    }

    /// The value of the variable `name`, if it is set.
    pub fn get(&self, name: &str) -> (value: Option<String>)
        ensures
            match value {
                Some(text) => self@.contains_key(name@) && text@ == self@[name@],
                None => !self@.contains_key(name@),
            },
    {
        match self.vars.get(name) {
            Some(text) => Some(text.clone()),
            None => None,
        }
    }

    /// A copy of all variables as they are now. What is set later does
    /// not show in the copy.
    pub fn get_all(&self) -> (snapshot: StringMap)
        ensures
            snapshot@ == self@,
            snapshot.entries() == self.entries(),
    {
        self.vars.snapshot()
    }
}

/// A value that was set is the value that is read, until it is set again.
pub proof fn lemma_set_then_get(vars: Map<Seq<char>, Seq<char>>, name: Seq<char>, value: Seq<char>)
    ensures
        vars.insert(name, value).contains_key(name),
        vars.insert(name, value)[name] == value,
{
}

/// Setting one variable leaves every other variable as it was: set or
/// not set, and with the value it had.
pub proof fn lemma_set_keeps_others(
    vars: Map<Seq<char>, Seq<char>>,
    name: Seq<char>,
    value: Seq<char>,
    other: Seq<char>,
)
    requires
        other != name,
    ensures
        vars.insert(name, value).contains_key(other) == vars.contains_key(other),
        vars.contains_key(other) ==> vars.insert(name, value)[other] == vars[other],
{
}

/// Of two values set one after the other under different names, neither
/// is lost.
pub proof fn lemma_no_lost_update(
    vars: Map<Seq<char>, Seq<char>>,
    first: Seq<char>,
    first_value: Seq<char>,
    second: Seq<char>,
    second_value: Seq<char>,
)
    requires
        first != second,
    ensures
        vars.insert(first, first_value).insert(second, second_value)[first] == first_value,
        vars.insert(first, first_value).insert(second, second_value)[second] == second_value,
{
}

} // verus!
