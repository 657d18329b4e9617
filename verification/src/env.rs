//! The session state the interpreter evaluates against: a variable
//! environment mapping names to values, and a table of user-defined
//! functions. Both live for the whole interactive session and are owned by
//! the session driver, which passes them by mutable reference into each
//! evaluation.

use vstd::pervasive::VecAdditionalExecFns;
use vstd::prelude::*;

use crate::ast::{Ast, Parameters, SpecValue};

verus! {

/// The model of an association list: the map each binding was inserted into,
/// in order.
pub open spec fn bindings_map(s: Seq<(String, Parameters)>) -> Map<Seq<char>, SpecValue>
    decreases s.len(),
{
    if s.len() == 0 {
        Map::empty()
    } else {
        bindings_map(s.drop_last()).insert(s.last().0@, s.last().1@)
    }
}

/// No two bindings share a name.
pub open spec fn names_unique(s: Seq<(String, Parameters)>) -> bool {
    forall|a: int, b: int| 0 <= a < b < s.len() ==> s[a].0@ != s[b].0@
}

proof fn lemma_bindings_map_found(s: Seq<(String, Parameters)>, j: int)
    requires
        names_unique(s),
        0 <= j < s.len(),
    ensures
        bindings_map(s).dom().contains(s[j].0@),
        bindings_map(s)[s[j].0@] == s[j].1@,
    decreases s.len(),
{
    if j == s.len() - 1 {
    } else {
        assert(s.drop_last()[j] == s[j]);
        assert(names_unique(s.drop_last()));
        lemma_bindings_map_found(s.drop_last(), j);
        assert(s[j].0@ != s.last().0@);
    }
}

proof fn lemma_bindings_map_absent(s: Seq<(String, Parameters)>, k: Seq<char>)
    requires
        forall|i: int| 0 <= i < s.len() ==> s[i].0@ != k,
    ensures
        !bindings_map(s).dom().contains(k),
    decreases s.len(),
{
    if s.len() > 0 {
        lemma_bindings_map_absent(s.drop_last(), k);
    }
}

proof fn lemma_bindings_map_update(s: Seq<(String, Parameters)>, j: int, p: (String, Parameters))
    requires
        names_unique(s),
        0 <= j < s.len(),
        s[j].0@ == p.0@,
    ensures
        bindings_map(s.update(j, p)) == bindings_map(s).insert(p.0@, p.1@),
    decreases s.len(),
{
    if j == s.len() - 1 {
        assert(s.update(j, p).drop_last() =~= s.drop_last());
        assert(s.update(j, p).last() == p);
        assert(bindings_map(s.update(j, p)) =~= bindings_map(s).insert(p.0@, p.1@));
    } else {
        assert(names_unique(s.drop_last()));
        assert(s.drop_last()[j] == s[j]);
        lemma_bindings_map_update(s.drop_last(), j, p);
        assert(s.update(j, p).drop_last() =~= s.drop_last().update(j, p));
        assert(s.update(j, p).last() == s.last());
        assert(s[j].0@ != s.last().0@);
        assert(bindings_map(s.update(j, p)) =~= bindings_map(s).insert(p.0@, p.1@));
    }
}

/// The variable environment: name-to-value bindings, case-sensitive, seeded
/// by the session driver and mutated only by assignment.
pub struct Environment {
    pairs: Vec<(String, Parameters)>,
}

impl View for Environment {
    type V = Map<Seq<char>, SpecValue>;

    closed spec fn view(&self) -> Map<Seq<char>, SpecValue> {
        bindings_map(self.pairs@)
    }
}

impl Environment {
    /// Well-formed: no name is bound twice.
    pub closed spec fn wf(&self) -> bool {
        names_unique(self.pairs@)
    }

    /// A fresh, empty environment.
    pub fn new() -> (r: Environment)
        ensures
            r.wf(),
            r@ == Map::<Seq<char>, SpecValue>::empty(),
    {
        Environment { pairs: Vec::new() }
    }

    /// An environment pre-seeded with the two session constants, `pi` and
    /// `e`, bound to the values the session driver supplies for them.
    pub fn with_constants(pi_value: Parameters, e_value: Parameters) -> (r: Environment)
        ensures
            r.wf(),
            r@ == Map::<Seq<char>, SpecValue>::empty().insert("pi"@, pi_value@).insert(
                "e"@,
                e_value@,
            ),
    {
        proof {
            reveal_strlit("pi");
            reveal_strlit("e");
        }
        let mut r = Environment::new();
        r.insert("pi".to_owned(), pi_value);
        r.insert("e".to_owned(), e_value);
        r
    }

    /// The value bound to `name`, if any.
    pub fn get(&self, name: &String) -> (r: Option<&Parameters>)
        requires
            self.wf(),
        ensures
            match r {
                Some(v) => self@.dom().contains(name@) && v@ == self@[name@],
                None => !self@.dom().contains(name@),
            },
    {
        let mut i: usize = 0;
        while i < self.pairs.len()
            invariant
                self.wf(),
                i <= self.pairs.len(),
                forall|k: int| 0 <= k < i ==> self.pairs@[k].0@ != name@,
            decreases self.pairs.len() - i,
        {
            let p = &self.pairs[i];
            if p.0 == *name {
                proof {
                    lemma_bindings_map_found(self.pairs@, i as int);
                }
                return Some(&p.1);
            }
            i = i + 1;
        }
        proof {
            lemma_bindings_map_absent(self.pairs@, name@);
        }
        None
    }

    /// Binds `value` to `name`, replacing any earlier binding of that name.
    pub fn insert(&mut self, name: String, value: Parameters)
        requires
            old(self).wf(),
        ensures
            final(self).wf(),
            final(self)@ == old(self)@.insert(name@, value@),
    {
        let ghost s0 = self.pairs@;
        let mut i: usize = 0;
        while i < self.pairs.len()
            invariant
                self.pairs@ == s0,
                s0 == old(self).pairs@,
                names_unique(s0),
                i <= self.pairs.len(),
                forall|k: int| 0 <= k < i ==> self.pairs@[k].0@ != name@,
            decreases self.pairs.len() - i,
        {
            let found = self.pairs[i].0 == name;
            if found {
                proof {
                    lemma_bindings_map_update(s0, i as int, (name, value));
                }
                self.pairs.set(i, (name, value));
                proof {
                    assert forall|a: int, b: int|
                        0 <= a < b < self.pairs@.len() implies self.pairs@[a].0@
                        != self.pairs@[b].0@ by {
                        assert(s0[a].0@ != s0[b].0@);
                    }
                }
                return ;
            }
            i = i + 1;
        }
        self.pairs.push((name, value));
        proof {
            assert(self.pairs@.drop_last() =~= s0);
            assert(self.pairs@.last() == (name, value));
            assert forall|a: int, b: int|
                0 <= a < b < self.pairs@.len() implies self.pairs@[a].0@ != self.pairs@[b].0@ by {
                if b < s0.len() {
                    assert(s0[a].0@ != s0[b].0@);
                }
            }
        }
    }
}

/// The table of user-defined functions: each name maps to the ordered list
/// of parameter trees and the body tree. The interpreter threads it through
/// evaluation; the definition path that fills it belongs to the session
/// driver.
pub struct FunctionTable {
    entries: Vec<(String, (Vec<Ast>, Ast))>,
}

impl FunctionTable {
    /// How many functions are defined.
    pub closed spec fn spec_len(&self) -> nat {
        self.entries@.len()
    }

    /// A fresh, empty table.
    pub fn new() -> (r: FunctionTable)
        ensures
            r.spec_len() == 0,
    {
        FunctionTable { entries: Vec::new() }
    }
}

} // verus!
