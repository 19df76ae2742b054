use vstd::prelude::*;
use crate::config::{ConfigParser, MetadataModel, config_model, doc_metadata, error_is, metadata_view, parse_doc};
use crate::engine::{Engine, resolve, resolution_fails, resolved, vars_node};
use crate::error::{DataFakeError, ErrorKind};
use crate::expr::{Ctx, Det, agrees, conforms, ev, is_expression, rel, sure};
use crate::types::{DataFakeConfig, GenerationContext};
use crate::value::{Json, Value};

verus! {

/// What one generation call gives where it does not depend on random draws:
/// the schema rendered against the resolved variables.
pub open spec fn generation(vars: Ctx, schema: Json) -> Det {
    match resolve(vars) {
        Some(Ok(ctx)) => ev(schema, ctx),
        Some(Err(e)) => Some(Err(e)),
        None => None,
    }
}

/// A possible output of one generation call: the schema rendered, with its
/// structure kept, against one context that the variables resolve to.
pub open spec fn generated(vars: Ctx, schema: Json, out: Json) -> bool {
    exists|ctx: Ctx| #[trigger] resolved(vars, ctx) && conforms(schema, ctx, out) && rel(schema, ctx, Ok(out))
}

/// How one generation call may fail: variable resolution fails, or the
/// schema fails against a context that the variables resolve to.
pub open spec fn generation_fails(vars: Ctx, schema: Json, k: ErrorKind) -> bool {
    resolution_fails(vars, k) || exists|ctx: Ctx| #[trigger] resolved(vars, ctx) && rel(schema, ctx, Err(k))
}

/// Configurations whose generation is sure to succeed whatever is drawn:
/// variables that render surely into an object, and a schema that renders
/// surely against any context.
pub open spec fn sure_to_generate(vars: Ctx, schema: Json) -> bool {
    &&& sure(vars_node(vars), Seq::empty())
    &&& !is_expression(vars_node(vars))
    &&& forall|ctx: Ctx| #[trigger] sure(schema, ctx)
}

/// Generates documents from one immutable configuration.
pub struct DataGenerator {
    config: DataFakeConfig,
}

impl DataGenerator {
    pub closed spec fn spec_config(&self) -> DataFakeConfig {
        self.config
    }

    /// The model of the configuration: its variables and schema.
    pub closed spec fn model(&self) -> (Ctx, Json) {
        config_model(self.config)
    }

    /// The model of the configuration's metadata.
    pub closed spec fn metadata_model(&self) -> Option<MetadataModel> {
        metadata_view(self.config.metadata)
    }

    /// A generator for a configuration.
    pub fn new(config: DataFakeConfig) -> (r: Self)
        ensures
            r.model() == config_model(config),
            r.metadata_model() == metadata_view(config.metadata),
    {
        DataGenerator { config }
    }

    /// A generator for a configuration document, which is parsed and
    /// validated first.
    pub fn from_value(json_value: Value) -> (r: Result<Self, DataFakeError>)
        ensures
            parse_doc(json_value@) matches Ok(c) ==> (r matches Ok(g) && g.model() == c),
            parse_doc(json_value@) matches Err(f) ==> (r matches Err(e) && error_is(e, f)),
            r matches Ok(g) ==> g.metadata_model() == doc_metadata(json_value@),
    {
        let config = ConfigParser::parse_value(json_value)?;
        Ok(Self::new(config))
    }

    /// One document: the variables are resolved once into a fresh context,
    /// then the schema is rendered against it.
    pub fn generate(&self) -> (r: Result<Value, DataFakeError>)
        ensures
            agrees(generation(self.model().0, self.model().1), r),
            r matches Ok(v) ==> generated(self.model().0, self.model().1, v@),
            sure_to_generate(self.model().0, self.model().1) ==> r is Ok,
            r matches Err(e) ==> generation_fails(self.model().0, self.model().1, e.spec_kind()),
    {
        let vars = Engine::generate_variables(&self.config.variables)?;
        let context = GenerationContext::with_variables(vars);
        assert(sure_to_generate(self.model().0, self.model().1) ==> sure(self.model().1, context@));
        let r = Engine::process_schema(&self.config.schema, &context);
        assert(resolved(self.model().0, context@));
        r
    }

    /// `count` independent documents, in order; the first failure fails the
    /// whole batch.
    pub fn generate_batch(&self, count: usize) -> (r: Result<Vec<Value>, DataFakeError>)
        ensures
            r matches Ok(vs) ==> vs.len() == count,
            r matches Ok(vs) ==> forall|i: int| 0 <= i < count ==> generated(self.model().0, self.model().1, #[trigger] vs@[i]@),
            r matches Ok(vs) ==> forall|i: int| 0 <= i < count ==> agrees(generation(self.model().0, self.model().1), Ok(#[trigger] vs@[i])),
            count > 0 ==> (generation(self.model().0, self.model().1) matches Some(Err(k)) ==> (r matches Err(e) && e.spec_kind() == k)),
            sure_to_generate(self.model().0, self.model().1) ==> r is Ok,
            r matches Err(e) ==> generation_fails(self.model().0, self.model().1, e.spec_kind()),
            count == 0 ==> (r matches Ok(vs) && vs.len() == 0),
    {
        let mut results: Vec<Value> = Vec::new();
        let mut i: usize = 0;
        while i < count
            invariant
                i <= count,
                results.len() == i,
                forall|k: int| 0 <= k < i ==> generated(self.model().0, self.model().1, #[trigger] results@[k]@),
                forall|k: int| 0 <= k < i ==> agrees(generation(self.model().0, self.model().1), Ok(#[trigger] results@[k])),
                i > 0 ==> !(generation(self.model().0, self.model().1) matches Some(Err(_))),
            decreases count - i,
        {
            let v = self.generate()?;
            results.push(v);
            i = i + 1;
        }
        Ok(results)
    }

    /// The configuration.
    pub fn config(&self) -> (r: &DataFakeConfig)
        ensures
            config_model(*r) == self.model(),
            metadata_view(r.metadata) == self.metadata_model(),
    {
        &self.config
    }
}

} // verus!
