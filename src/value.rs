//! Runtime values and the variable store.
use vstd::prelude::*;
use crate::text::{int_text, int_to_string, text_is};

verus! {

/// A floating-point value, held by what produced it: the sine of a whole
/// number of degrees. The library never computes with it; a host that prints
/// it evaluates it there.
#[derive(PartialEq, Eq, Structural, Debug, Clone, Copy)]
pub struct Sine {
    pub degrees: i64,
}

/// A runtime value. Its variant is whatever was last assigned.
#[derive(Debug)]
pub enum Value {
    Integer(i64),
    Float(Sine),
    String(String),
    Bool(bool),
}

/// The model of a `Value`.
pub enum Val {
    Integer(i64),
    Float(Sine),
    Str(Seq<char>),
    Bool(bool),
}

impl View for Value {
    type V = Val;

    open spec fn view(&self) -> Val {
        match self {
            Value::Integer(n) => Val::Integer(*n),
            Value::Float(f) => Val::Float(*f),
            Value::String(s) => Val::Str(s@),
            Value::Bool(b) => Val::Bool(*b),
        }
    }
}

impl Value {
    /// A copy of this value.
    pub fn duplicate(&self) -> (r: Value)
        ensures
            r@ == self@,
    {
        match self {
            Value::Integer(n) => Value::Integer(*n),
            Value::Float(f) => Value::Float(*f),
            Value::String(s) => Value::String(s.clone()),
            Value::Bool(b) => Value::Bool(*b),
        }
    }
}

/// The canonical text of a value: decimal digits for an integer, `true` or
/// `false`, the raw characters of a string. A float has none here: its digits
/// are the host's to compute.
pub open spec fn text_of(v: Val) -> Option<Seq<char>> {
    match v {
        Val::Integer(n) => Some(int_text(n as int)),
        Val::Str(s) => Some(s),
        Val::Bool(b) => Some(if b { "true"@ } else { "false"@ }),
        Val::Float(_) => None,
    }
}

impl Value {
    /// The canonical text of this value, when it is not a float.
    pub fn render(&self) -> (r: Option<String>)
        ensures
            match r {
                Some(t) => text_of(self@) == Some(t@),
                None => text_of(self@) is None,
            },
    {
        match self {
            Value::Integer(n) => Some(int_to_string(*n)),
            Value::String(s) => Some(s.clone()),
            Value::Bool(b) => if *b {
                Some("true".to_string())
            } else {
                Some("false".to_string())
            },
            Value::Float(_) => None,
        }
    }
}

pub open spec fn vals(vs: Seq<Value>) -> Seq<Val> {
    vs.map_values(|v: Value| v@)
}

/// The mapping that a list of bindings denotes; a later binding of a name
/// hides an earlier one.
pub open spec fn env_map(es: Seq<(String, Value)>) -> Map<Seq<char>, Val>
    decreases es.len(),
{
    if es.len() == 0 {
        Map::empty()
    } else {
        env_map(es.drop_last()).insert(es.last().0@, es.last().1@)
    }
}

pub open spec fn keys_unique(es: Seq<(String, Value)>) -> bool {
    forall|i: int, j: int| 0 <= i < j < es.len() ==> es[i].0@ != es[j].0@
}

proof fn lemma_env_has(es: Seq<(String, Value)>, i: int)
    requires
        keys_unique(es),
        0 <= i < es.len(),
    ensures
        env_map(es).contains_key(es[i].0@),
        env_map(es)[es[i].0@] == es[i].1@,
    decreases es.len(),
{
    if i < es.len() - 1 {
        let d = es.drop_last();
        assert(keys_unique(d));
        assert(d[i] == es[i]);
        lemma_env_has(d, i);
        assert(es.last() == es[es.len() - 1]);
    }
}

proof fn lemma_env_lacks(es: Seq<(String, Value)>, k: Seq<char>)
    requires
        forall|i: int| 0 <= i < es.len() ==> (#[trigger] es[i]).0@ != k,
    ensures
        !env_map(es).contains_key(k),
    decreases es.len(),
{
    if es.len() > 0 {
        let d = es.drop_last();
        assert forall|i: int| 0 <= i < d.len() implies (#[trigger] d[i]).0@ != k by {
            assert(d[i] == es[i]);
        }
        lemma_env_lacks(d, k);
        assert(es.last() == es[es.len() - 1]);
    }
}

proof fn lemma_env_update(es: Seq<(String, Value)>, i: int, e: (String, Value))
    requires
        keys_unique(es),
        0 <= i < es.len(),
        e.0@ == es[i].0@,
    ensures
        env_map(es.update(i, e)) == env_map(es).insert(e.0@, e.1@),
        keys_unique(es.update(i, e)),
    decreases es.len(),
{
    let u = es.update(i, e);
    let d = es.drop_last();
    if i == es.len() - 1 {
        assert(u.drop_last() =~= d);
        assert(env_map(u) =~= env_map(es).insert(e.0@, e.1@));
    } else {
        assert(u.drop_last() =~= d.update(i, e));
        assert(keys_unique(d));
        lemma_env_update(d, i, e);
        assert(es.last() == es[es.len() - 1]);
        assert(es.last().0@ != e.0@);
        assert(env_map(u) =~= env_map(es).insert(e.0@, e.1@));
    }
    assert forall|a: int, b: int| 0 <= a < b < u.len() implies u[a].0@ != u[b].0@ by {
        assert(es[a].0@ != es[b].0@);
    }
}

/// The variable store: each name bound at most once.
pub struct Env {
    entries: Vec<(String, Value)>,
}

impl Env {
    pub closed spec fn view_map(&self) -> Map<Seq<char>, Val> {
        env_map(self.entries@)
    }

    pub closed spec fn wf(&self) -> bool {
        keys_unique(self.entries@)
    }

    /// An empty store.
    pub fn new() -> (r: Env)
        ensures
            r.wf(),
            r.view_map() == Map::<Seq<char>, Val>::empty(),
    {
        Env { entries: Vec::new() }
    }

    fn index_of(&self, k: &String) -> (r: Option<usize>)
        requires
            self.wf(),
        ensures
            match r {
                Some(i) => i < self.entries@.len() && self.entries@[i as int].0@ == k@,
                None => forall|i: int|
                    0 <= i < self.entries@.len() ==> (#[trigger] self.entries@[i]).0@ != k@,
            },
    {
        let mut i: usize = 0;
        while i < self.entries.len()
            invariant
                i <= self.entries@.len(),
                forall|j: int| 0 <= j < i ==> (#[trigger] self.entries@[j]).0@ != k@,
            decreases self.entries@.len() - i,
        {
            if text_is(&self.entries[i].0, k.as_str()) {
                return Some(i);
            }
            i = i + 1;
        }
        None
    }

    /// The value bound to `k`, if any.
    pub fn get(&self, k: &String) -> (r: Option<Value>)
        requires
            self.wf(),
        ensures
            match r {
                Some(v) => self.view_map().contains_key(k@) && self.view_map()[k@] == v@,
                None => !self.view_map().contains_key(k@),
            },
    {
        match self.index_of(k) {
            Some(i) => {
                proof {
                    lemma_env_has(self.entries@, i as int);
                }
                Some(self.entries[i].1.duplicate())
            },
            None => {
                proof {
                    lemma_env_lacks(self.entries@, k@);
                }
                None
            },
        }
    }

    /// Whether `k` is bound.
    pub fn contains(&self, k: &String) -> (r: bool)
        requires
            self.wf(),
        ensures
            r == self.view_map().contains_key(k@),
    {
        match self.index_of(k) {
            Some(i) => {
                proof {
                    lemma_env_has(self.entries@, i as int);
                }
                true
            },
            None => {
                proof {
                    lemma_env_lacks(self.entries@, k@);
                }
                false
            },
        }
    }

    /// Binds `k` to `v`, replacing any earlier binding.
    pub fn set(&mut self, k: String, v: Value)
        requires
            old(self).wf(),
        ensures
            final(self).wf(),
            final(self).view_map() == old(self).view_map().insert(k@, v@),
    {
        match self.index_of(&k) {
            Some(i) => {
                proof {
                    lemma_env_update(self.entries@, i as int, (k, v));
                }
                self.entries.set(i, (k, v));
            },
            None => {
                let ghost es = self.entries@;
                self.entries.push((k, v));
                proof {
                    assert(self.entries@.drop_last() =~= es);
                    assert forall|a: int, b: int|
                        0 <= a < b < self.entries@.len() implies self.entries@[a].0@
                        != self.entries@[b].0@ by {
                        if b == es.len() {
                            assert(self.entries@[a] == es[a]);
                        } else {
                            assert(self.entries@[a] == es[a]);
                            assert(self.entries@[b] == es[b]);
                        }
                    }
                }
            },
        }
    }
}

} // verus!
