//! Named parameters that gate transitions and weigh or select blend inputs.

use vstd::prelude::*;

verus! {

/// The value of a parameter.
#[derive(Clone, Copy, Debug, PartialEq, Eq, Structural)]
pub enum Parameter {
    /// A weight for blending, in units of one over `WEIGHT_ONE`.
    Weight(u64),
    /// A condition for a transition.
    Rule(bool),
    /// A selector among the inputs of a blend by index.
    Index(i32),
}

/// The value under `name` in a list of entries: that of the last entry with
/// that name.
pub open spec fn lookup(s: Seq<(String, Parameter)>, name: Seq<char>) -> Option<Parameter>
    decreases s.len(),
{
    if s.len() == 0 {
        None
    } else if s.last().0@ == name {
        Some(s.last().1)
    } else {
        lookup(s.drop_last(), name)
    }
}

/// Replacing the value of the last entry named `name` changes what is found
/// under that name and nothing else.
pub proof fn lemma_lookup_update(
    s: Seq<(String, Parameter)>,
    i: int,
    name: String,
    value: Parameter,
    other: Seq<char>,
)
    requires
        0 <= i < s.len(),
        s[i].0@ == name@,
        forall|k: int| i < k < s.len() ==> (#[trigger] s[k]).0@ != name@,
    ensures
        lookup(s.update(i, (name, value)), other) == if other == name@ {
            Some(value)
        } else {
            lookup(s, other)
        },
    decreases s.len(),
{
    let t = s.update(i, (name, value));
    if i == s.len() - 1 {
        assert(t.drop_last() =~= s.drop_last());
    } else {
        assert(s.last().0@ != name@);
        assert(t.last() == s.last());
        assert(t.drop_last() =~= s.drop_last().update(i, (name, value)));
        lemma_lookup_update(s.drop_last(), i, name, value, other);
    }
}

/// The parameters of a machine, by name. A name has at most one value; its
/// kind is that of the value last assigned.
#[derive(Clone, Debug, PartialEq, Eq)]
pub struct ParameterContainer {
    pub entries: Vec<(String, Parameter)>,
}

impl ParameterContainer {
    /// The value under `name`, if there is one.
    pub open spec fn value_of(&self, name: Seq<char>) -> Option<Parameter> {
        lookup(self.entries@, name)
    }

    /// What a transition reads under `name`: the value of a rule, and
    /// `false` where the name is absent or holds another kind.
    pub open spec fn rule_spec(&self, name: Seq<char>) -> bool {
        match self.value_of(name) {
            Some(Parameter::Rule(b)) => b,
            _ => false,
        }
    }

    /// What a blend reads under `name`: the value of a weight, and zero
    /// where the name is absent or holds another kind.
    pub open spec fn weight_spec(&self, name: Seq<char>) -> u64 {
        match self.value_of(name) {
            Some(Parameter::Weight(w)) => w,
            _ => 0,
        }
    }

    /// What an indexed blend reads under `name`: the value of an index, and
    /// nothing where the name is absent or holds another kind.
    pub open spec fn index_spec(&self, name: Seq<char>) -> Option<i32> {
        match self.value_of(name) {
            Some(Parameter::Index(i)) => Some(i),
            _ => None,
        }
    }

    pub fn new() -> (r: Self)
        ensures
            forall|n: Seq<char>| r.value_of(n) is None,
            r.entries@.len() == 0,
    {
        ParameterContainer { entries: Vec::new() }
    }

    /// The place of the last entry named `name`.
    fn position(&self, name: &String) -> (r: Option<usize>)
        ensures
            r is Some <==> self.value_of(name@) is Some,
            r is Some ==> r->0 < self.entries@.len() && self.entries@[r->0 as int].0@ == name@
                && self.value_of(name@) == Some(self.entries@[r->0 as int].1) && forall|k: int|
                r->0 < k < self.entries@.len() ==> (#[trigger] self.entries@[k]).0@ != name@,
    {
        let mut i: usize = self.entries.len();
        assert(self.entries@.take(i as int) =~= self.entries@);
        while i > 0
            invariant
                i <= self.entries@.len(),
                lookup(self.entries@, name@) == lookup(self.entries@.take(i as int), name@),
                forall|k: int| i <= k < self.entries@.len() ==> (#[trigger] self.entries@[k]).0@
                    != name@,
            decreases i,
        {
            i -= 1;
            assert(self.entries@.take(i as int + 1).drop_last() =~= self.entries@.take(i as int));
            if self.entries[i].0 == *name {
                return Some(i);
            }
        }
        None
    }

    /// The value under `name`.
    pub fn get(&self, name: &str) -> (r: Option<Parameter>)
        ensures
            r == self.value_of(name@),
    {
        let key = name.to_owned();
        match self.position(&key) {
            Some(i) => Some(self.entries[i].1),
            None => None,
        }
    }

    /// The value under `name`, for changing it in place.
    pub fn get_mut(&mut self, name: &str) -> (r: Option<&mut Parameter>)
        ensures
            r is Some <==> old(self).value_of(name@) is Some,
            r is Some ==> Some(*r->0) == old(self).value_of(name@),
            r is Some ==> forall|n: Seq<char>| #[trigger]
                final(self).value_of(n) == if n == name@ {
                    Some(*final(r->0))
                } else {
                    old(self).value_of(n)
                },
            r is None ==> *final(self) == *old(self),
    {
        let key = name.to_owned();
        match self.position(&key) {
            Some(i) => {
                let entry = &mut self.entries[i];
                let ghost stored = entry.0;
                let value = &mut entry.1;
                proof {
                    assert forall|n: Seq<char>| #[trigger]
                        lookup(old(self).entries@.update(i as int, (stored, *final(value))), n)
                            == if n == name@ {
                            Some(*final(value))
                        } else {
                            old(self).value_of(n)
                        } by {
                        lemma_lookup_update(old(self).entries@, i as int, stored, *final(value), n);
                    }
                }
                Some(value)
            },
            None => None,
        }
    }

    /// Gives `name` the value `value` unless it has one already.
    pub fn add(&mut self, name: &str, value: Parameter)
        ensures
            forall|n: Seq<char>| #[trigger]
                final(self).value_of(n) == if n == name@ && old(self).value_of(n) is None {
                    Some(value)
                } else {
                    old(self).value_of(n)
                },
    {
        let key = name.to_owned();
        if self.position(&key).is_none() {
            self.entries.push((key, value));
            assert(self.entries@.drop_last() =~= old(self).entries@);
        }
    }

    /// Gives `name` the value `value`, in place of the one it had if it had
    /// one.
    pub fn set(&mut self, name: &str, value: Parameter)
        ensures
            forall|n: Seq<char>| #[trigger]
                final(self).value_of(n) == if n == name@ {
                    Some(value)
                } else {
                    old(self).value_of(n)
                },
    {
        let key = name.to_owned();
        match self.position(&key) {
            Some(i) => {
                assert forall|n: Seq<char>| #[trigger]
                    lookup(old(self).entries@.update(i as int, (key, value)), n) == if n == name@ {
                        Some(value)
                    } else {
                        old(self).value_of(n)
                    } by {
                    lemma_lookup_update(old(self).entries@, i as int, key, value, n);
                }
                self.entries.set(i, (key, value));
            },
            None => {
                self.entries.push((key, value));
                assert(self.entries@.drop_last() =~= old(self).entries@);
            },
        }
    }

    /// The value of the rule `name`; `false` where there is no such rule.
    pub fn rule(&self, name: &str) -> (r: bool)
        ensures
            r == self.rule_spec(name@),
    {
        match self.get(name) {
            Some(Parameter::Rule(b)) => b,
            _ => false,
        }
    }

    /// The value of the weight `name`; zero where there is no such weight.
    pub fn weight(&self, name: &str) -> (r: u64)
        ensures
            r == self.weight_spec(name@),
    {
        match self.get(name) {
            Some(Parameter::Weight(w)) => w,
            _ => 0,
        }
    }

    /// The value of the index `name`, where there is such an index.
    pub fn index(&self, name: &str) -> (r: Option<i32>)
        ensures
            r == self.index_spec(name@),
    {
        match self.get(name) {
            Some(Parameter::Index(i)) => Some(i),
            _ => None,
        }
    }
}

} // verus!
