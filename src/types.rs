use vstd::prelude::*;
use crate::expr::{Ctx, lookup};
use crate::value::{Json, Value};

verus! {

/// A parsed and validated configuration: descriptive metadata, named
/// variables in their order, and the output schema.
pub struct DataFakeConfig {
    pub metadata: Option<Metadata>,
    pub variables: Vec<(String, Value)>,
    pub schema: Value,
}

/// Free-form descriptive fields; they carry no meaning for generation.
pub struct Metadata {
    pub name: Option<String>,
    pub version: Option<String>,
    pub description: Option<String>,
    pub extra: Vec<(String, Value)>,
}

/// The model of named entries: each name with the model of its value.
pub open spec fn bindings(m: Seq<(String, Value)>) -> Ctx {
    Seq::new(m.len(), |i: int| (m[i].0@, m[i].1@))
}

/// The variables of one generation call, bound to their values.
pub struct GenerationContext {
    pub variables: Vec<(String, Value)>,
}

impl View for GenerationContext {
    type V = Ctx;

    open spec fn view(&self) -> Ctx {
        bindings(self.variables@)
    }
}

impl GenerationContext {
    /// A context with no variables.
    pub fn new() -> (r: Self)
        ensures
            r@ == Seq::<(Seq<char>, Json)>::empty(),
    {
        let r = GenerationContext { variables: Vec::new() };
        assert(r@ =~= Seq::<(Seq<char>, Json)>::empty());
        r
    }

    /// A context with the given bindings.
    pub fn with_variables(variables: Vec<(String, Value)>) -> (r: Self)
        ensures
            r@ == bindings(variables@),
    {
        GenerationContext { variables }
    }

    /// The value bound to a name; a later binding hides an earlier one.
    pub fn get_variable(&self, name: &str) -> (r: Option<&Value>)
        ensures
            r matches Some(v) ==> lookup(self@, name@) == Some(v@),
            r is None ==> lookup(self@, name@) is None,
    {
        let mut i: usize = self.variables.len();
        assert(self@.subrange(0, i as int) =~= self@);
        while i > 0
            invariant
                i <= self.variables.len(),
                lookup(self@, name@) == lookup(self@.subrange(0, i as int), name@),
            decreases i,
        {
            let ghost pre = self@.subrange(0, i as int);
            assert(pre.drop_last() =~= self@.subrange(0, i - 1));
            assert(pre.last() == self@[i - 1]);
            if crate::value::str_eq(self.variables[i - 1].0.as_str(), name) {
                return Some(&self.variables[i - 1].1);
            }
            i = i - 1;
        }
        None
    }

    /// Binds a name to a value, hiding any earlier binding of the name.
    pub fn set_variable(&mut self, name: String, value: Value)
        ensures
            lookup(final(self)@, name@) == Some(value@),
            forall|n: Seq<char>| n != name@ ==> lookup(final(self)@, n) == lookup(old(self)@, n),
    {
        let ghost before = self@;
        let ghost entry = (name@, value@);
        self.variables.push((name, value));
        assert(self@ =~= before.push(entry));
        assert(self@.drop_last() =~= before);
    }
}

impl Default for GenerationContext {
    fn default() -> (r: Self)
        ensures
            r@ == Seq::<(Seq<char>, Json)>::empty(),
    {
        Self::new()
    }
}

} // verus!
