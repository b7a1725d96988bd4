use vstd::prelude::*;
use crate::assembler::error::{AsmError, AsmResult};
use crate::text::{chars_eq, chars_of, concat3};

verus! {

/// The value bound to `name` in a list of bindings (the latest one wins).
pub open spec fn lookup(es: Seq<(Seq<char>, i64)>, name: Seq<char>) -> Option<i64>
    decreases es.len(),
{
    if es.len() == 0 {
        None
    } else if es.last().0 == name {
        Some(es.last().1)
    } else {
        lookup(es.drop_last(), name)
    }
}

/// Maps label names and `.equ` constants to their integer values.
#[derive(Debug)]
pub struct SymbolTable {
    entries: Vec<(String, i64)>,
}

impl View for SymbolTable {
    type V = Seq<(Seq<char>, i64)>;

    closed spec fn view(&self) -> Seq<(Seq<char>, i64)> {
        self.entries@.map_values(|e: (String, i64)| (e.0@, e.1))
    }
}

impl SymbolTable {
    pub fn new() -> (t: Self)
        ensures
            t@ == Seq::<(Seq<char>, i64)>::empty(),
    {
        let t = SymbolTable { entries: Vec::new() };
        assert(t@ =~= Seq::<(Seq<char>, i64)>::empty());
        t
    }

    /// The value bound to `name`, searching the latest bindings first.
    fn find(&self, name: &str) -> (r: Option<i64>)
        ensures
            r == lookup(self@, name@),
    {
        let key = chars_of(name);
        let mut i: usize = self.entries.len();
        assert(self@.take(i as int) =~= self@);
        while i > 0
            invariant
                i <= self.entries@.len(),
                key@ == name@,
                lookup(self@, name@) == lookup(self@.take(i as int), name@),
            decreases i,
        {
            let k = chars_of(self.entries[i - 1].0.as_str());
            assert(self@.take(i as int).drop_last() =~= self@.take(i - 1));
            if chars_eq(k.as_slice(), key.as_slice()) {
                return Some(self.entries[i - 1].1);
            }
            i -= 1;
        }
        None
    }

    /// Define a symbol. Returns an error if the name is already defined.
    pub fn define(&mut self, name: &str, value: i64, line: usize) -> (r: AsmResult<()>)
        ensures
            match lookup(old(self)@, name@) {
                Some(_) => r is Err && r->Err_0.line == line && r->Err_0.message@ == "symbol '"@ + name@
                    + "' is already defined"@ && final(self)@ == old(self)@,
                None => r is Ok && final(self)@ == old(self)@.push((name@, value)),
            },
    {
        if self.find(name).is_some() {
            return Err(AsmError::new(line, concat3("symbol '", name, "' is already defined")));
        }
        self.entries.push((name.to_owned(), value));
        assert(self@ =~= old(self)@.push((name@, value)));
        Ok(())
    }

    /// Look up a symbol. Returns an error if it is not defined.
    pub fn resolve(&self, name: &str, line: usize) -> (r: AsmResult<i64>)
        ensures
            match lookup(self@, name@) {
                Some(v) => r is Ok && r->Ok_0 == v,
                None => r is Err && r->Err_0.line == line && r->Err_0.message@ == "undefined symbol '"@ + name@
                    + "'"@,
            },
    {
        match self.find(name) {
            Some(v) => Ok(v),
            None => Err(AsmError::new(line, concat3("undefined symbol '", name, "'"))),
        }
    }

    /// All symbols, in the order they were defined.
    pub fn iter(&self) -> (es: &[(String, i64)])
        ensures
            es@.map_values(|e: (String, i64)| (e.0@, e.1)) == self@,
    {
        self.entries.as_slice()
    }
}

impl Default for SymbolTable {
    fn default() -> (t: Self)
        ensures
            t@ == Seq::<(Seq<char>, i64)>::empty(),
    {
        Self::new()
    }
}

/// A symbol defined in a table resolves to its value; defining a name that
/// is already bound is refused.
pub proof fn lemma_define_resolve(es: Seq<(Seq<char>, i64)>, name: Seq<char>, value: i64)
    ensures
        lookup(es.push((name, value)), name) == Some(value),
{
    assert(es.push((name, value)).drop_last() =~= es);
}

} // verus!
