//! Runtime values, the evaluator's unified value shape, and the variable
//! bindings a caller supplies.

use vstd::prelude::*;
use crate::strutil::str_eq;

verus! {

/// A caller-supplied binding value. A float carries the bit pattern of its
/// IEEE binary64 value.
#[derive(Debug, PartialEq)]
pub enum RuntimeValue {
    Integer(i64),
    Float(u64),
    String(String),
    Boolean(bool),
    Null,
}

/// The evaluator's internal value shape, which literals and bound values both
/// normalize into.
#[derive(Debug, PartialEq)]
pub enum SubValue {
    Integer(i64),
    Float(u64),
    String(String),
    Boolean(bool),
    Null,
}

/// The mathematical value both `RuntimeValue` and `SubValue` denote: strings
/// are their character sequences.
pub ghost enum SpecVal {
    Int(i64),
    Fl(u64),
    Str(Seq<char>),
    Bool(bool),
    Null,
}

/// The value a runtime binding denotes.
pub open spec fn rv_spec(v: RuntimeValue) -> SpecVal {
    match v {
        RuntimeValue::Integer(n) => SpecVal::Int(n),
        RuntimeValue::Float(b) => SpecVal::Fl(b),
        RuntimeValue::String(s) => SpecVal::Str(s@),
        RuntimeValue::Boolean(b) => SpecVal::Bool(b),
        RuntimeValue::Null => SpecVal::Null,
    }
}

/// The value an evaluator-internal value denotes.
pub open spec fn sv_spec(v: SubValue) -> SpecVal {
    match v {
        SubValue::Integer(n) => SpecVal::Int(n),
        SubValue::Float(b) => SpecVal::Fl(b),
        SubValue::String(s) => SpecVal::Str(s@),
        SubValue::Boolean(b) => SpecVal::Bool(b),
        SubValue::Null => SpecVal::Null,
    }
}

/// The value a literal denotes.
pub open spec fn lit_spec(l: crate::ast::ValueLiteral) -> SpecVal {
    match l {
        crate::ast::ValueLiteral::Integer(n) => SpecVal::Int(n),
        crate::ast::ValueLiteral::Float(b) => SpecVal::Fl(b),
        crate::ast::ValueLiteral::String(s) => SpecVal::Str(s@),
        crate::ast::ValueLiteral::Boolean(b) => SpecVal::Bool(b),
        crate::ast::ValueLiteral::Null => SpecVal::Null,
    }
}

/// The type name used in diagnostics.
pub open spec fn type_str(v: SpecVal) -> Seq<char> {
    match v {
        SpecVal::Int(_) => "integer"@,
        SpecVal::Fl(_) => "float"@,
        SpecVal::Str(_) => "string"@,
        SpecVal::Bool(_) => "boolean"@,
        SpecVal::Null => "NULL"@,
    }
}

impl Clone for RuntimeValue {
    /// A copy equal to the original.
    fn clone(&self) -> (r: Self)
        ensures
            r == *self,
    {
        match self {
            RuntimeValue::Integer(n) => RuntimeValue::Integer(*n),
            RuntimeValue::Float(b) => RuntimeValue::Float(*b),
            RuntimeValue::String(s) => RuntimeValue::String(s.clone()),
            RuntimeValue::Boolean(b) => RuntimeValue::Boolean(*b),
            RuntimeValue::Null => RuntimeValue::Null,
        }
    }
}

impl SubValue {
    /// The unified shape of a bound runtime value.
    pub fn from_runtime(rv: &RuntimeValue) -> (r: SubValue)
        ensures
            sv_spec(r) == rv_spec(*rv),
    {
        match rv {
            RuntimeValue::Integer(n) => SubValue::Integer(*n),
            RuntimeValue::Float(b) => SubValue::Float(*b),
            RuntimeValue::String(s) => SubValue::String(s.clone()),
            RuntimeValue::Boolean(b) => SubValue::Boolean(*b),
            RuntimeValue::Null => SubValue::Null,
        }
    }

    /// The unified shape of a literal.
    pub fn from_literal(l: &crate::ast::ValueLiteral) -> (r: SubValue)
        ensures
            sv_spec(r) == lit_spec(*l),
    {
        match l {
            crate::ast::ValueLiteral::Integer(n) => SubValue::Integer(*n),
            crate::ast::ValueLiteral::Float(b) => SubValue::Float(*b),
            crate::ast::ValueLiteral::String(s) => SubValue::String(s.clone()),
            crate::ast::ValueLiteral::Boolean(b) => SubValue::Boolean(*b),
            crate::ast::ValueLiteral::Null => SubValue::Null,
        }
    }

    /// Whether this value is NULL.
    pub fn is_null(&self) -> (r: bool)
        ensures
            r == (sv_spec(*self) is Null),
    {
        match self {
            SubValue::Null => true,
            _ => false,
        }
    }

    /// The type name used in diagnostics.
    pub fn kind_name(&self) -> (r: &'static str)
        ensures
            r@ == type_str(sv_spec(*self)),
    {
        match self {
            SubValue::Integer(_) => "integer",
            SubValue::Float(_) => "float",
            SubValue::String(_) => "string",
            SubValue::Boolean(_) => "boolean",
            SubValue::Null => "NULL",
        }
    }
}

/// The bindings consulted during evaluation: a name-to-value association,
/// where a later insertion for the same name wins.
pub struct Bindings {
    entries: Vec<(String, RuntimeValue)>,
}

/// The mapping a sequence of insertions denotes.
pub open spec fn map_of(s: Seq<(String, RuntimeValue)>) -> Map<Seq<char>, SpecVal>
    decreases s.len(),
{
    if s.len() == 0 {
        Map::empty()
    } else {
        map_of(s.drop_last()).insert(s.last().0@, rv_spec(s.last().1))
    }
}

impl View for Bindings {
    type V = Map<Seq<char>, SpecVal>;

    closed spec fn view(&self) -> Map<Seq<char>, SpecVal> {
        map_of(self.entries@)
    }
}

/// Removing an entry whose key is not `k` leaves the mapping at `k` alone.
proof fn lemma_map_of_skip_last(s: Seq<(String, RuntimeValue)>, k: Seq<char>)
    requires
        s.len() > 0,
        s.last().0@ != k,
    ensures
        map_of(s).contains_key(k) == map_of(s.drop_last()).contains_key(k),
        map_of(s).contains_key(k) ==> map_of(s)[k] == map_of(s.drop_last())[k],
{
}

impl Bindings {
    /// An empty set of bindings.
    pub fn new() -> (r: Bindings)
        ensures
            r@ == Map::<Seq<char>, SpecVal>::empty(),
    {
        Bindings { entries: Vec::new() }
    }

    /// Binds `name` to `value`, shadowing any earlier binding of that name.
    pub fn insert(&mut self, name: String, value: RuntimeValue)
        ensures
            final(self)@ == old(self)@.insert(name@, rv_spec(value)),
    {
        let ghost old_entries = self.entries@;
        self.entries.push((name, value));
        proof {
            assert(self.entries@.drop_last() =~= old_entries);
        }
    }

    /// Looks a name up, yielding the value bound latest, if any.
    pub fn get(&self, name: &str) -> (r: Option<&RuntimeValue>)
        ensures
            match r {
                Some(v) => self@.contains_key(name@) && rv_spec(*v) == self@[name@],
                None => !self@.contains_key(name@),
            },
    {
        let ghost whole = self.entries@;
        let ghost k = name@;
        let mut i: usize = self.entries.len();
        proof {
            assert(whole.subrange(0, i as int) =~= whole);
        }
        while i > 0
            invariant
                i <= self.entries.len(),
                whole == self.entries@,
                k == name@,
                map_of(whole).contains_key(k) == map_of(whole.subrange(0, i as int)).contains_key(
                    k,
                ),
                map_of(whole).contains_key(k) ==> map_of(whole)[k] == map_of(
                    whole.subrange(0, i as int),
                )[k],
            decreases i,
        {
            proof {
                assert(whole.subrange(0, i as int) =~= whole.subrange(0, i as int));
            }
            i = i - 1;
            let hit = str_eq(self.entries[i].0.as_str(), name);
            proof {
                let pre = whole.subrange(0, i + 1 as int);
                assert(pre.last() == whole[i as int]);
                assert(pre.drop_last() =~= whole.subrange(0, i as int));
                if whole[i as int].0@ != k {
                    lemma_map_of_skip_last(pre, k);
                }
            }
            if hit {
                return Some(&self.entries[i].1);
            }
        }
        proof {
            assert(whole.subrange(0, 0) =~= Seq::<(String, RuntimeValue)>::empty());
        }
        None
    }

    /// How many insertions have been made.
    pub fn len(&self) -> usize {
        self.entries.len()
    }
}

} // verus!
