use vstd::prelude::*;
use vstd::string::{StrSliceExecFns, StringExecFns};
use crate::error::{DataFakeError, ErrorKind};
use crate::expr::{
    Op, agrees, sure, rel, items_rel, operands_rel, arg_rel, junction_rel, if_rel, if_final_rel,
    apply_rel, op_rel, apply, argn, arith_exec, cat_exec, compare, conforms,
    ev, ev_arg, ev_if, ev_if_pairs, ev_items, ev_junction, ev_op, ev_operands, extreme_exec,
    is_expression, loose_equal, member_exec, merge_exec, nargs, op_error, op_from_name,
    op_of, outcome,
};
use crate::operators::fake::{FakeOperator, fake_fault, view_args};
use crate::types::{GenerationContext, bindings};
use crate::value::{
    Json, Value, chars_of, clone_entries, scalar_text, key_views, lemma_array_view, lemma_object_view, value_views, views, truthy,
};

verus! {

/// The tree-walking evaluator of schemas and expressions.
pub struct Engine;

/// The outcome of evaluating a sequence of nodes, by its model.
pub open spec fn outcome_items(r: Result<Vec<Value>, DataFakeError>) -> Result<Seq<Json>, ErrorKind> {
    match r {
        Ok(vs) => Ok(views(vs@)),
        Err(e) => Err(e.spec_kind()),
    }
}

/// Each output item conforms to its node.
pub open spec fn items_conform(a: Seq<Value>, ctx: crate::expr::Ctx, out: Seq<Value>) -> bool {
    out.len() == a.len() && forall|k: int| 0 <= k < a.len() ==> conforms(#[trigger] a[k]@, ctx, out[k]@)
}

pub proof fn lemma_items_stuck(a: Seq<Json>, ctx: crate::expr::Ctx, i: int, k: int)
    requires
        0 <= i <= k <= a.len(),
        !(ev_items(a, ctx, i) matches Some(Ok(_))),
    ensures
        ev_items(a, ctx, k) == ev_items(a, ctx, i),
    decreases k - i,
{
    if k > i {
        lemma_items_stuck(a, ctx, i, k - 1);
    }
}

pub proof fn lemma_junction_stuck(j: Json, ctx: crate::expr::Ctx, i: int, k: int, stop_on: bool)
    requires
        0 <= i <= k <= nargs(j),
        !(ev_junction(j, ctx, i, stop_on) matches Some(Ok((false, _)))),
    ensures
        ev_junction(j, ctx, k, stop_on) == ev_junction(j, ctx, i, stop_on),
    decreases k - i,
{
    if k > i {
        lemma_junction_stuck(j, ctx, i, k - 1, stop_on);
    }
}

pub proof fn lemma_if_stuck(j: Json, ctx: crate::expr::Ctx, t: int, k: int)
    requires
        0 <= t <= k,
        2 * k <= nargs(j),
        !(ev_if_pairs(j, ctx, t) matches Some(Ok(None))),
    ensures
        ev_if_pairs(j, ctx, k) == ev_if_pairs(j, ctx, t),
    decreases k - t,
{
    if k > t {
        lemma_if_stuck(j, ctx, t, k - 1);
    }
}


/// The variables of a configuration as one object node.
pub open spec fn vars_node(vars: crate::expr::Ctx) -> Json {
    Json::Object(Seq::new(vars.len(), |i: int| vars[i].0), Seq::new(vars.len(), |i: int| vars[i].1))
}

/// Variable resolution: the variables, rendered as one object node against
/// an empty context, give the bindings of the generation context.
pub open spec fn resolve(vars: crate::expr::Ctx) -> Option<Result<crate::expr::Ctx, ErrorKind>> {
    match ev(vars_node(vars), Seq::empty()) {
        Some(Ok(Json::Object(ks, vs))) => Some(Ok(Seq::new(vs.len(), |i: int| (ks[i], vs[i])))),
        Some(Ok(_)) => Some(Err(ErrorKind::FakeOperator)),
        Some(Err(e)) => Some(Err(e)),
        None => None,
    }
}

/// How variable resolution may fail: rendering the variables fails, or
/// gives something other than an object.
pub open spec fn resolution_fails(vars: crate::expr::Ctx, k: ErrorKind) -> bool {
    rel(vars_node(vars), Seq::empty(), Err(k)) || (k == ErrorKind::FakeOperator && exists|out: Json|
        #[trigger] rel(vars_node(vars), Seq::empty(), Ok(out)) && !(out is Object))
}

/// The bindings that the rendered variables give.
pub open spec fn resolved(vars: crate::expr::Ctx, ctx: crate::expr::Ctx) -> bool {
    conforms(vars_node(vars), Seq::empty(), vars_node(ctx))
        && rel(vars_node(vars), Seq::empty(), Ok(vars_node(ctx)))
        && (resolve(vars) matches Some(x) ==> x == Ok::<crate::expr::Ctx, ErrorKind>(ctx))
}

pub proof fn lemma_items_rel_err(a: Seq<Json>, ctx: crate::expr::Ctx, i: int, k: int, e: ErrorKind)
    requires
        1 <= i <= k <= a.len(),
        items_rel(a, ctx, i, Err(e)),
    ensures
        items_rel(a, ctx, k, Err(e)),
    decreases k - i,
{
    if k > i {
        lemma_items_rel_err(a, ctx, i, k - 1, e);
    }
}

pub proof fn lemma_junction_rel_err(j: Json, ctx: crate::expr::Ctx, i: int, k: int, stop_on: bool, e: ErrorKind)
    requires
        1 <= i <= k <= nargs(j),
        junction_rel(j, ctx, i, stop_on, Err(e)),
    ensures
        junction_rel(j, ctx, k, stop_on, Err(e)),
    decreases k - i,
{
    if k > i {
        lemma_junction_rel_err(j, ctx, i, k - 1, stop_on, e);
    }
}

pub proof fn lemma_if_rel_err(j: Json, ctx: crate::expr::Ctx, t: int, k: int, e: ErrorKind)
    requires
        1 <= t <= k,
        2 * k <= nargs(j),
        if_rel(j, ctx, t, Err(e)),
    ensures
        if_rel(j, ctx, k, Err(e)),
    decreases k - t,
{
    if k > t {
        lemma_if_rel_err(j, ctx, t, k - 1, e);
    }
}


proof fn lemma_items_step_ok(a: Seq<Json>, ctx: crate::expr::Ctx, i: int, vs: Seq<Json>, v: Json)
    requires
        0 <= i < a.len(),
        items_rel(a, ctx, i, Ok(vs)),
        rel(a[i], ctx, Ok(v)),
    ensures
        items_rel(a, ctx, i + 1, Ok(vs.push(v))),
{
    assert(vs.push(v).drop_last() =~= vs);
    if i > 0 {
        assert(vs.len() == i);
    }
}

proof fn lemma_items_step_err(a: Seq<Json>, ctx: crate::expr::Ctx, k: int, vs: Seq<Json>, e: ErrorKind)
    requires
        1 <= k <= a.len(),
        items_rel(a, ctx, k - 1, Ok(vs)),
        rel(a[k - 1], ctx, Err(e)),
    ensures
        items_rel(a, ctx, k, Err(e)),
{
    assert(crate::expr::witness(vs));
}

proof fn lemma_junction_step(j: Json, ctx: crate::expr::Ctx, k: int, stop_on: bool, stopped: bool, last: Json, out: Result<Json, ErrorKind>)
    requires
        1 <= k <= nargs(j),
        junction_rel(j, ctx, k - 1, stop_on, Ok((stopped, last))),
        !stopped ==> arg_rel(j, k - 1, ctx, out),
        crate::expr::witness(last),
    ensures
        stopped ==> junction_rel(j, ctx, k, stop_on, Ok((true, last))),
        !stopped ==> match out {
            Ok(v) => junction_rel(j, ctx, k, stop_on, Ok((truthy(v) == stop_on, v))),
            Err(e) => junction_rel(j, ctx, k, stop_on, Err(e)),
        },
{
}

proof fn lemma_if_step(j: Json, ctx: crate::expr::Ctx, k: int, chosen: Option<Json>, c: Result<Json, ErrorKind>, v: Result<Json, ErrorKind>)
    requires
        1 <= k,
        2 * k <= nargs(j),
        if_rel(j, ctx, k - 1, Ok(chosen)),
        chosen is None ==> arg_rel(j, 2 * k - 2, ctx, c),
        chosen is None && (c matches Ok(cv) && truthy(cv)) ==> arg_rel(j, 2 * k - 1, ctx, v),
        c matches Ok(cv) ==> crate::expr::witness(cv),
    ensures
        chosen is Some ==> if_rel(j, ctx, k, Ok(chosen)),
        chosen is None ==> match c {
            Err(e) => if_rel(j, ctx, k, Err(e)),
            Ok(cv) => if !truthy(cv) {
                if_rel(j, ctx, k, Ok(None))
            } else {
                match v {
                    Ok(w) => if_rel(j, ctx, k, Ok(Some(w))),
                    Err(e) => if_rel(j, ctx, k, Err(e)),
                }
            },
        },
{
}

/// The index of the first `.` of a character sequence, or its length.
fn dot_position(cs: &Vec<char>) -> (r: usize)
    ensures
        r as int == crate::expr::dot_index(cs@, 0),
        r <= cs.len(),
{
    let mut i: usize = 0;
    while i < cs.len() && cs[i] != '.'
        invariant
            i <= cs.len(),
            crate::expr::dot_index(cs@, 0) == crate::expr::dot_index(cs@, i as int),
        decreases cs.len() - i,
    {
        i = i + 1;
    }
    i
}

/// The value at a dotted path of object keys within a value.
fn path_get_exec<'a>(v: &'a Value, path: &str) -> (r: Option<&'a Value>)
    ensures
        r matches Some(w) ==> crate::expr::path_get(v@, path@) == Some(w@),
        r is None ==> crate::expr::path_get(v@, path@) is None,
    decreases path@.len(),
{
    let cs = chars_of(path);
    let d = dot_position(&cs);
    let key = path.substring_char(0, d);
    let here = v.get(key);
    if d >= cs.len() {
        return here;
    }
    match here {
        Some(w) => {
            let rest = path.substring_char(d + 1, cs.len());
            path_get_exec(w, rest)
        },
        None => None,
    }
}

/// The value that a `var` name reaches.
fn var_lookup<'a>(ctx: &'a GenerationContext, name: &str) -> (r: Option<&'a Value>)
    ensures
        r matches Some(w) ==> crate::expr::var_value(ctx@, name@) == Some(w@),
        r is None ==> crate::expr::var_value(ctx@, name@) is None,
{
    match ctx.get_variable(name) {
        Some(v) => Some(v),
        None => {
            let cs = chars_of(name);
            let d = dot_position(&cs);
            if d < cs.len() {
                let prefix = name.substring_char(0, d);
                match ctx.get_variable(prefix) {
                    Some(v) => path_get_exec(v, name.substring_char(d + 1, cs.len())),
                    None => None,
                }
            } else {
                None
            }
        },
    }
}


pub proof fn lemma_each_stuck(logic: Json, items: Seq<Json>, i: int, k: int)
    requires
        0 <= i <= k <= items.len(),
        !(crate::expr::ev_each(logic, items, i) matches Some(Ok(_))),
    ensures
        crate::expr::ev_each(logic, items, k) == crate::expr::ev_each(logic, items, i),
    decreases k - i,
{
    if k > i {
        lemma_each_stuck(logic, items, i, k - 1);
    }
}

pub proof fn lemma_each_rel_err(logic: Json, items: Seq<Json>, i: int, k: int, e: ErrorKind)
    requires
        1 <= i <= k <= items.len(),
        crate::expr::each_rel(logic, items, i, Err(e)),
    ensures
        crate::expr::each_rel(logic, items, k, Err(e)),
    decreases k - i,
{
    if k > i {
        lemma_each_rel_err(logic, items, i, k - 1, e);
    }
}

proof fn lemma_each_step(logic: Json, items: Seq<Json>, k: int, vs: Seq<Json>, out: Result<Json, ErrorKind>)
    requires
        1 <= k <= items.len(),
        crate::expr::each_rel(logic, items, k - 1, Ok(vs)),
        rel(logic, crate::expr::item_ctx(items[k - 1]), out),
        crate::expr::witness(vs),
    ensures
        match out {
            Ok(v) => crate::expr::each_rel(logic, items, k, Ok(vs.push(v))),
            Err(e) => crate::expr::each_rel(logic, items, k, Err(e)),
        },
{
    if let Ok(v) = out {
        assert(vs.push(v).drop_last() =~= vs);
    }
}

/// The context of one item of an iteration.
fn item_context(item: &Value) -> (r: GenerationContext)
    ensures
        r@ == crate::expr::item_ctx(item@),
{
    match item {
        Value::Object(m) => {
            proof {
                lemma_object_view(*m);
            }
            let mut vars = clone_entries(m);
            let ghost before = vars@;
            vars.push((String::new(), item.deep_clone()));
            proof {
                let ks = key_views(m@);
                let vs = value_views(m@);
                assert(bindings(before) =~= Seq::new(vs.len(), |i: int| (ks[i], vs[i])));
                assert(bindings(vars@) =~= bindings(before).push((Seq::<char>::empty(), item@)));
            }
            GenerationContext::with_variables(vars)
        },
        _ => {
            let mut vars: Vec<(String, Value)> = Vec::new();
            vars.push((String::new(), item.deep_clone()));
            assert(bindings(vars@) =~= seq![(Seq::<char>::empty(), item@)]);
            GenerationContext::with_variables(vars)
        },
    }
}

/// The value of an iteration from its items and the results for each.
fn iteration_value_exec(op: Op, items: &Vec<Value>, results: Vec<Value>) -> (r: Value)
    requires
        crate::expr::is_iteration(op),
        results.len() == items.len(),
    ensures
        r@ == crate::expr::iteration_value(op, views(items@), views(results@)),
{
    let ghost vi = views(items@);
    let ghost vr = views(results@);
    if op == Op::MapEach {
        proof {
            lemma_array_view(results);
        }
        return Value::Array(results);
    }
    if op == Op::Filter {
        let mut out: Vec<Value> = Vec::new();
        let mut k: usize = 0;
        assert(views(out@) =~= Seq::<Json>::empty());
        while k < items.len()
            invariant
                vi == views(items@),
                vr == views(results@),
                results.len() == items.len(),
                k <= items.len(),
                views(out@) == crate::expr::filter_fold(vi, vr, k as int),
            decreases items.len() - k,
        {
            assert(vr[k as int] == results@[k as int]@);
            assert(vi[k as int] == items@[k as int]@);
            if results[k].is_truthy() {
                let ghost before = views(out@);
                let c = items[k].deep_clone();
                out.push(c);
                assert(views(out@) =~= before.push(vi[k as int]));
            }
            k = k + 1;
        }
        proof {
            lemma_array_view(out);
        }
        return Value::Array(out);
    }
    let mut all = true;
    let mut any = false;
    let mut k: usize = 0;
    while k < results.len()
        invariant
            vr == views(results@),
            k <= results.len(),
            all == (forall|i: int| 0 <= i < k ==> truthy(#[trigger] vr[i])),
            any == (exists|i: int| 0 <= i < k && truthy(#[trigger] vr[i])),
        decreases results.len() - k,
    {
        assert(vr[k as int] == results@[k as int]@);
        let t = results[k].is_truthy();
        if !t {
            all = false;
        } else {
            any = true;
        }
        k = k + 1;
    }
    if op == Op::All {
        Value::Bool(results.len() > 0 && all)
    } else if op == Op::NoneOf {
        Value::Bool(!any)
    } else {
        Value::Bool(any)
    }
}


pub proof fn lemma_fold_stuck(logic: Json, items: Seq<Json>, init: Json, i: int, k: int)
    requires
        0 <= i <= k <= items.len(),
        !(crate::expr::ev_fold(logic, items, init, i) matches Some(Ok(_))),
    ensures
        crate::expr::ev_fold(logic, items, init, k) == crate::expr::ev_fold(logic, items, init, i),
    decreases k - i,
{
    if k > i {
        lemma_fold_stuck(logic, items, init, i, k - 1);
    }
}

pub proof fn lemma_fold_rel_err(logic: Json, items: Seq<Json>, init: Json, i: int, k: int, e: ErrorKind)
    requires
        1 <= i <= k <= items.len(),
        crate::expr::fold_rel(logic, items, init, i, Err(e)),
    ensures
        crate::expr::fold_rel(logic, items, init, k, Err(e)),
    decreases k - i,
{
    if k > i {
        lemma_fold_rel_err(logic, items, init, i, k - 1, e);
    }
}

proof fn lemma_fold_step(logic: Json, items: Seq<Json>, init: Json, k: int, acc: Json, out: Result<Json, ErrorKind>)
    requires
        1 <= k <= items.len(),
        crate::expr::fold_rel(logic, items, init, k - 1, Ok(acc)),
        rel(logic, crate::expr::reduce_ctx(items[k - 1], acc), out),
        crate::expr::witness(acc),
    ensures
        crate::expr::fold_rel(logic, items, init, k, out),
{
}

/// The context of one step of `reduce`.
fn reduce_context(item: &Value, acc: &Value) -> (r: GenerationContext)
    ensures
        r@ == crate::expr::reduce_ctx(item@, acc@),
{
    let mut vars: Vec<(String, Value)> = Vec::new();
    vars.push((String::from_str("current"), item.deep_clone()));
    vars.push((String::from_str("accumulator"), acc.deep_clone()));
    assert(bindings(vars@) =~= crate::expr::reduce_ctx(item@, acc@));
    GenerationContext::with_variables(vars)
}

/// The names that no variable binds, in order.
fn missing_names(names: &Vec<Value>, ctx: &GenerationContext) -> (r: Vec<Value>)
    ensures
        views(r@) == crate::expr::missing_fold(views(names@), ctx@, names.len() as int),
        r.len() <= names.len(),
{
    let ghost vn = views(names@);
    let mut out: Vec<Value> = Vec::new();
    let mut i: usize = 0;
    assert(views(out@) =~= Seq::<Json>::empty());
    while i < names.len()
        invariant
            vn == views(names@),
            i <= names.len(),
            views(out@) == crate::expr::missing_fold(vn, ctx@, i as int),
            out.len() <= i,
        decreases names.len() - i,
    {
        assert(vn[i as int] == names@[i as int]@);
        let bound = match &names[i] {
            Value::Str(n) => ctx.get_variable(n.as_str()).is_some(),
            _ => false,
        };
        if !bound {
            let ghost before = views(out@);
            let c = names[i].deep_clone();
            out.push(c);
            assert(views(out@) =~= before.push(vn[i as int]));
        }
        i = i + 1;
    }
    out
}

/// `substr` over evaluated arguments.
fn substr_exec(args: &Vec<Value>) -> (r: Result<Value, DataFakeError>)
    ensures
        outcome(r) == crate::expr::substr(views(args@)),
{
    let ghost va = views(args@);
    if args.len() == 0 {
        return Err(op_error("substr takes a text"));
    }
    assert(argn(va, 0) == args@[0]@);
    let t = match scalar_text(&args[0]) {
        Some(t) => t,
        None => {
            return Err(op_error("substr takes a text"));
        },
    };
    if args.len() < 2 {
        return Err(op_error("substr takes a start"));
    }
    assert(argn(va, 1) == args@[1]@);
    let st = match &args[1] {
        Value::Int(st) => *st,
        _ => {
            return Err(op_error("substr takes an integral start"));
        },
    };
    let n = t.as_str().unicode_len();
    let ni = n as i128;
    let b: i128 = if st < 0 {
        if ni + st < 0 { 0 } else { ni + st }
    } else if st > ni {
        ni
    } else {
        st
    };
    let e: i128 = if args.len() > 2 {
        assert(va[2] == args@[2]@);
        match &args[2] {
            Value::Int(l) => {
                let l = *l;
                if l < 0 {
                    if ni + l < b { b } else { ni + l }
                } else if l > ni - b {
                    ni
                } else {
                    b + l
                }
            },
            _ => {
                return Err(op_error("substr takes an integral length"));
            },
        }
    } else {
        ni
    };
    let piece = t.as_str().substring_char(b as usize, e as usize);
    Ok(Value::Str(String::from_str(piece)))
}

/// The number of operands of an operand list.
fn arg_count(j: &Value) -> (r: usize)
    ensures
        r as int == nargs(j@),
{
    match j {
        Value::Array(a) => {
            proof {
                lemma_array_view(*a);
            }
            a.len()
        },
        _ => 1,
    }
}

/// An operator applied to its evaluated arguments.
fn apply_op(op: Op, args: &Vec<Value>, ctx: &GenerationContext) -> (r: Result<Value, DataFakeError>)
    ensures
        agrees(apply(op, views(args@), ctx@), r),
        op == Op::Fake && fake_fault(views(args@)) is None ==> r is Ok,
        apply_rel(op, views(args@), ctx@, outcome(r)),
{
    let ghost va = views(args@);
    let null = Value::Null;
    let a0: &Value = if args.len() > 0 { &args[0] } else { &null };
    let a1: &Value = if args.len() > 1 { &args[1] } else { &null };
    assert(a0@ == argn(va, 0));
    assert(a1@ == argn(va, 1));
    match op {
        Op::Var => {
            match a0 {
                Value::Str(s) => match var_lookup(ctx, s.as_str()) {
                    Some(v) => Ok(v.deep_clone()),
                    None => Ok(a1.deep_clone()),
                },
                _ => Ok(a1.deep_clone()),
            }
        },
        Op::Eq => Ok(Value::Bool(loose_equal(a0, a1))),
        Op::Ne => Ok(Value::Bool(!loose_equal(a0, a1))),
        Op::StrictEq => Ok(Value::Bool(crate::value::values_equal(a0, a1))),
        Op::StrictNe => Ok(Value::Bool(!crate::value::values_equal(a0, a1))),
        Op::Not => Ok(Value::Bool(!a0.is_truthy())),
        Op::NotNot => Ok(Value::Bool(a0.is_truthy())),
        Op::Gt | Op::Ge | Op::Lt | Op::Le => {
            let c = compare(a0, a1)?;
            let b = if op == Op::Gt {
                c > 0
            } else if op == Op::Ge {
                c >= 0
            } else if op == Op::Lt {
                c < 0
            } else {
                c <= 0
            };
            Ok(Value::Bool(b))
        },
        Op::Add | Op::Sub | Op::Mul | Op::Div | Op::Mod => arith_exec(op, args),
        Op::Max | Op::Min => {
            if args.len() == 0 {
                Ok(Value::Null)
            } else {
                let v = extreme_exec(op == Op::Max, args)?;
                Ok(Value::Int(v))
            }
        },
        Op::Cat => {
            let s = cat_exec(args)?;
            Ok(Value::Str(s))
        },
        Op::In => {
            let b = member_exec(a0, a1)?;
            Ok(Value::Bool(b))
        },
        Op::Merge => {
            let out = merge_exec(args);
            proof {
                lemma_array_view(out);
            }
            Ok(Value::Array(out))
        },
        Op::Log => Ok(a0.deep_clone()),
        Op::Missing => {
            let names: &Vec<Value> = match a0 {
                Value::Array(xs) => xs,
                _ => args,
            };
            proof {
                if let Value::Array(xs) = a0 {
                    lemma_array_view(*xs);
                }
            }
            let m = missing_names(names, ctx);
            proof {
                lemma_array_view(m);
            }
            Ok(Value::Array(m))
        },
        Op::MissingSome => match (a0, a1) {
            (Value::Int(need), Value::Array(names)) => {
                proof {
                    lemma_array_view(*names);
                }
                let m = missing_names(names, ctx);
                let present = (names.len() - m.len()) as i128;
                let empty: Vec<Value> = Vec::new();
                assert(views(empty@) =~= Seq::<Json>::empty());
                let out = if present >= *need {
                    empty
                } else {
                    m
                };
                proof {
                    lemma_array_view(out);
                }
                Ok(Value::Array(out))
            },
            _ => Err(op_error("missing_some takes a count and an array of names")),
        },
        Op::Substr => substr_exec(args),
        Op::Fake => {
            let r = FakeOperator::generate(args.as_slice());
            assert(view_args(args@) =~= va);
            r
        },
        _ => Err(op_error("operator is not supported")),
    }
}

impl Engine {
    /// Whether a key names an operator of the expression language.
    pub fn is_jsonlogic_operator(key: &str) -> (r: bool)
        ensures
            r == (op_of(key@) is Some),
    {
        op_from_name(key).is_some()
    }


    /// Renders the variables once, as one object node against an empty
    /// context, into the bindings of a generation context.
    pub fn generate_variables(variables: &Vec<(String, Value)>) -> (r: Result<Vec<(String, Value)>, DataFakeError>)
        ensures
            r matches Ok(m) ==> resolved(bindings(variables@), bindings(m@)),
            r matches Err(e) ==> !(resolve(bindings(variables@)) matches Some(Ok(_))),
            r matches Err(e) ==> resolution_fails(bindings(variables@), e.spec_kind()),
            resolve(bindings(variables@)) matches Some(Err(k)) ==> (r matches Err(e) && e.spec_kind() == k),
            sure(vars_node(bindings(variables@)), Seq::empty()) && !is_expression(vars_node(bindings(variables@))) ==> r is Ok,
    {
        let ghost vars = bindings(variables@);
        let entries = clone_entries(variables);
        proof {
            lemma_object_view(entries);
            assert(key_views(entries@) =~= vars_node(vars)->Object_0);
            assert(value_views(entries@) =~= vars_node(vars)->Object_1);
        }
        let node = Value::Object(entries);
        assert(node@ == vars_node(vars));
        let empty = GenerationContext::new();
        match Self::process_schema(&node, &empty) {
            Ok(Value::Object(m)) => {
                proof {
                    lemma_object_view(m);
                    assert(vars_node(bindings(m@)) =~= Value::Object(m)@) by {
                        assert(vars_node(bindings(m@))->Object_0 =~= key_views(m@));
                        assert(vars_node(bindings(m@))->Object_1 =~= value_views(m@));
                    }
                    if let Some(Ok(Json::Object(ks, vs))) = ev(vars_node(vars), Seq::empty()) {
                        assert(Seq::new(vs.len(), |i: int| (ks[i], vs[i])) =~= bindings(m@));
                    }
                }
                Ok(m)
            },
            Ok(other) => {
                assert(!(sure(vars_node(vars), Seq::empty()) && !is_expression(vars_node(vars))));
                assert(rel(vars_node(vars), Seq::empty(), Ok(other@)));
                Err(op_error("Variables evaluation did not return an object"))
            },
            Err(e) => Err(e),
        }
    }

    /// Evaluates an expression (or any node) against a context.
    pub fn evaluate(expression: &Value, context: &GenerationContext) -> (r: Result<Value, DataFakeError>)
        ensures
            agrees(ev(expression@, context@), r),
            sure(expression@, context@) ==> r is Ok,
            rel(expression@, context@, outcome(r)),
            r matches Ok(v) ==> conforms(expression@, context@, v@),
    {
        Self::process_schema(expression, context)
    }

    /// Renders a schema against a context: literals stay as they are, arrays
    /// and non-expression objects keep their shape, expressions are computed.
    pub fn process_schema(schema: &Value, context: &GenerationContext) -> (r: Result<Value, DataFakeError>)
        ensures
            agrees(ev(schema@, context@), r),
            sure(schema@, context@) ==> r is Ok,
            rel(schema@, context@, outcome(r)),
            r matches Ok(v) ==> conforms(schema@, context@, v@),
        decreases schema, 0int,
    {
        match schema {
            Value::Object(m) => {
                proof {
                    lemma_object_view(*m);
                }
                if m.len() == 1 {
                    match op_from_name(m[0].0.as_str()) {
                        Some(op) => {
                            proof {
                                assert(decreases_to!(*schema => schema->Object_0));
                                assert(decreases_to!(schema->Object_0 => schema->Object_0[0]));
                                assert(decreases_to!(schema->Object_0[0] => schema->Object_0[0].1));
                                assert(value_views(m@)[0] == m@[0].1@);
                                assert(key_views(m@)[0] == m@[0].0@);
                            }
                            return Self::eval_op(op, &m[0].1, context);
                        },
                        None => {
                            assert(key_views(m@)[0] == m@[0].0@);
                        },
                    }
                }
                assert(!is_expression(schema@));
                let ghost vs = value_views(m@);
                let mut out: Vec<(String, Value)> = Vec::new();
                let mut i: usize = 0;
                assert(value_views(out@) =~= Seq::<Json>::empty());
                while i < m.len()
                    invariant
                        *schema == Value::Object(*m),
                        schema@ == Json::Object(key_views(m@), vs),
                        vs == value_views(m@),
                        !is_expression(schema@),
                        i <= m.len(),
                        out.len() == i,
                        forall|k: int| 0 <= k < i ==> (#[trigger] out@[k]).0@ == m@[k].0@,
                        forall|k: int| 0 <= k < i ==> conforms(#[trigger] vs[k], context@, out@[k].1@),
                        ev_items(vs, context@, i as int) matches Some(x) ==> x == Ok::<Seq<Json>, ErrorKind>(value_views(out@)),
                        sure(schema@, context@) ==> forall|k: int| 0 <= k < vs.len() ==> sure(#[trigger] vs[k], context@),
                        items_rel(vs, context@, i as int, Ok(value_views(out@))),
                    decreases m.len() - i,
                {
                    proof {
                        assert(decreases_to!(*schema => schema->Object_0));
                        assert(decreases_to!(schema->Object_0 => schema->Object_0[i as int]));
                        assert(decreases_to!(schema->Object_0[i as int] => schema->Object_0[i as int].1));
                    }
                    assert(vs[i as int] == m@[i as int].1@);
                    let r = Self::process_schema(&m[i].1, context);
                    match r {
                        Ok(v) => {
                            let k = m[i].0.clone();
                            let ghost prev = out@;
                            out.push((k, v));
                            assert(value_views(out@) =~= value_views(prev).push(out@[i as int].1@));
                            proof {
                                lemma_items_step_ok(vs, context@, i as int, value_views(prev), out@[i as int].1@);
                            }
                        },
                        Err(e) => {
                            proof {
                                lemma_items_stuck(vs, context@, i + 1, m.len() as int);
                                lemma_items_step_err(vs, context@, i + 1, value_views(out@), e.spec_kind());
                                lemma_items_rel_err(vs, context@, i + 1, m.len() as int, e.spec_kind());
                            }
                            return Err(e);
                        },
                    }
                    i = i + 1;
                }
                proof {
                    lemma_object_view(out);
                    assert(key_views(out@) =~= key_views(m@));
                }
                Ok(Value::Object(out))
            },
            Value::Array(a) => {
                proof {
                    lemma_array_view(*a);
                }
                proof {
                    if sure(schema@, context@) {
                        assert forall|k: int| 0 <= k < a.len() implies sure(#[trigger] a@[k]@, context@) by {
                            assert(views(a@)[k] == a@[k]@);
                        }
                    }
                }
                let r = Self::render_items(a, context);
                match r {
                    Ok(items) => {
                        proof {
                            lemma_array_view(items);
                        }
                        Ok(Value::Array(items))
                    },
                    Err(e) => Err(e),
                }
            },
            _ => Ok(schema.deep_clone()),
        }
    }

    /// Renders each node of a sequence, left to right, up to the first error.
    fn render_items(a: &Vec<Value>, context: &GenerationContext) -> (r: Result<Vec<Value>, DataFakeError>)
        ensures
            ev_items(views(a@), context@, a.len() as int) matches Some(x) ==> outcome_items(r) == x,
            r matches Ok(vs) ==> items_conform(a@, context@, vs@),
            (forall|k: int| 0 <= k < a.len() ==> sure(#[trigger] a@[k]@, context@)) ==> r is Ok,
            items_rel(views(a@), context@, a.len() as int, outcome_items(r)),
        decreases a, 0int,
    {
        let ghost va = views(a@);
        let mut out: Vec<Value> = Vec::new();
        let mut i: usize = 0;
        assert(views(out@) =~= Seq::<Json>::empty());
        while i < a.len()
            invariant
                va == views(a@),
                i <= a.len(),
                out.len() == i,
                forall|k: int| 0 <= k < i ==> conforms(#[trigger] a@[k]@, context@, out@[k]@),
                ev_items(va, context@, i as int) matches Some(x) ==> x == Ok::<Seq<Json>, ErrorKind>(views(out@)),
                items_rel(va, context@, i as int, Ok(views(out@))),
            decreases a.len() - i,
        {
            proof {
                assert(decreases_to!(*a => a[i as int]));
            }
            assert(va[i as int] == a@[i as int]@);
            let r = Self::process_schema(&a[i], context);
            match r {
                Ok(v) => {
                    let ghost prev = out@;
                    out.push(v);
                    assert(views(out@) =~= views(prev).push(out@[i as int]@));
                    proof {
                        lemma_items_step_ok(va, context@, i as int, views(prev), out@[i as int]@);
                    }
                },
                Err(e) => {
                    proof {
                        lemma_items_stuck(va, context@, i + 1, a.len() as int);
                        lemma_items_step_err(va, context@, i + 1, views(out@), e.spec_kind());
                        lemma_items_rel_err(va, context@, i + 1, a.len() as int, e.spec_kind());
                    }
                    return Err(e);
                },
            }
            i = i + 1;
        }
        Ok(out)
    }

    /// Evaluates every operand of an operand list.
    fn render_operands(j: &Value, context: &GenerationContext) -> (r: Result<Vec<Value>, DataFakeError>)
        ensures
            ev_operands(j@, context@) matches Some(x) ==> outcome_items(r) == x,
            operands_rel(j@, context@, outcome_items(r)),
        decreases j, 1int,
    {
        match j {
            Value::Array(a) => {
                proof {
                    lemma_array_view(*a);
                }
                Self::render_items(a, context)
            },
            _ => {
                let v = Self::process_schema(j, context)?;
                let mut out: Vec<Value> = Vec::new();
                out.push(v);
                assert(views(out@) =~= seq![out@[0]@]);
                assert(views(out@)[0] == out@[0]@);
                Ok(out)
            },
        }
    }

    /// Evaluates one operand of an operand list.
    fn render_arg(j: &Value, k: usize, context: &GenerationContext) -> (r: Result<Value, DataFakeError>)
        requires
            k < nargs(j@),
        ensures
            agrees(ev_arg(j@, k as int, context@), r),
            arg_rel(j@, k as int, context@, outcome(r)),
        decreases j, 2int,
    {
        match j {
            Value::Array(a) => {
                proof {
                    lemma_array_view(*a);
                    assert(decreases_to!(*j => j->Array_0));
                    assert(decreases_to!(j->Array_0 => j->Array_0[k as int]));
                }
                assert(views(a@)[k as int] == a@[k as int]@);
                Self::process_schema(&a[k], context)
            },
            _ => Self::process_schema(j, context),
        }
    }

    /// `and` (stopping at a falsy value) or `or` (stopping at a truthy one):
    /// the last value evaluated; later operands are not evaluated.
    fn eval_junction(j: &Value, context: &GenerationContext, stop_on: bool) -> (r: Result<Value, DataFakeError>)
        ensures
            agrees(
                match ev_junction(j@, context@, nargs(j@), stop_on) {
                    Some(Ok((_, v))) => Some(Ok(v)),
                    Some(Err(e)) => Some(Err(e)),
                    None => None,
                },
                r,
            ),
            match outcome(r) {
                Ok(v) => junction_rel(j@, context@, nargs(j@), stop_on, Ok((true, v))) || junction_rel(j@, context@, nargs(j@), stop_on, Ok((false, v))),
                Err(e) => junction_rel(j@, context@, nargs(j@), stop_on, Err(e)),
            },
        decreases j, 3int,
    {
        let n = arg_count(j);
        let mut stopped = false;
        let mut last = Value::Null;
        let mut i: usize = 0;
        while i < n
            invariant
                n as int == nargs(j@),
                i <= n,
                ev_junction(j@, context@, i as int, stop_on) matches Some(x) ==> x == Ok::<(bool, Json), ErrorKind>((stopped, last@)),
                junction_rel(j@, context@, i as int, stop_on, Ok((stopped, last@))),
            decreases n - i,
        {
            let ghost prev_last = last@;
            if !stopped {
                match Self::render_arg(j, i, context) {
                    Ok(v) => {
                        proof {
                            lemma_junction_step(j@, context@, i + 1, stop_on, false, prev_last, Ok(v@));
                        }
                        stopped = v.is_truthy() == stop_on;
                        last = v;
                    },
                    Err(e) => {
                        proof {
                            lemma_junction_stuck(j@, context@, i + 1, n as int, stop_on);
                            lemma_junction_step(j@, context@, i + 1, stop_on, false, prev_last, Err(e.spec_kind()));
                            lemma_junction_rel_err(j@, context@, i + 1, n as int, stop_on, e.spec_kind());
                        }
                        return Err(e);
                    },
                }
            } else {
                proof {
                    lemma_junction_step(j@, context@, i + 1, stop_on, true, prev_last, Ok(prev_last));
                }
            }
            i = i + 1;
        }
        Ok(last)
    }

    /// `if`: evaluates conditions left to right and only the result that the
    /// first holding condition selects, else the trailing else-operand.
    fn eval_if(j: &Value, context: &GenerationContext) -> (r: Result<Value, DataFakeError>)
        ensures
            agrees(ev_if(j@, context@), r),
            if_final_rel(j@, context@, outcome(r)),
        decreases j, 4int,
    {
        let n = arg_count(j);
        let pairs = n / 2;
        let mut chosen: Option<Value> = None;
        let mut t: usize = 0;
        while t < pairs
            invariant
                n as int == nargs(j@),
                pairs == n / 2,
                t <= pairs,
                ev_if_pairs(j@, context@, t as int) matches Some(x) ==> x == Ok::<Option<Json>, ErrorKind>(
                    match chosen {
                        Some(v) => Some(v@),
                        None => None,
                    },
                ),
                if_rel(j@, context@, t as int, Ok(match chosen {
                    Some(v) => Some(v@),
                    None => None,
                })),
            decreases pairs - t,
        {
            let ghost before: Option<Json> = match &chosen {
                Some(v) => Some(v@),
                None => None,
            };
            if chosen.is_none() {
                match Self::render_arg(j, 2 * t, context) {
                    Ok(c) => {
                        if c.is_truthy() {
                            match Self::render_arg(j, 2 * t + 1, context) {
                                Ok(v) => {
                                    proof {
                                        lemma_if_step(j@, context@, t + 1, before, Ok(c@), Ok(v@));
                                    }
                                    chosen = Some(v);
                                },
                                Err(e) => {
                                    proof {
                                        lemma_if_stuck(j@, context@, t + 1, pairs as int);
                                        lemma_if_step(j@, context@, t + 1, before, Ok(c@), Err(e.spec_kind()));
                                        lemma_if_rel_err(j@, context@, t + 1, pairs as int, e.spec_kind());
                                    }
                                    return Err(e);
                                },
                            }
                        } else {
                            proof {
                                lemma_if_step(j@, context@, t + 1, before, Ok(c@), Ok(Json::Null));
                            }
                        }
                    },
                    Err(e) => {
                        proof {
                            lemma_if_stuck(j@, context@, t + 1, pairs as int);
                            lemma_if_step(j@, context@, t + 1, before, Err(e.spec_kind()), Ok(Json::Null));
                            lemma_if_rel_err(j@, context@, t + 1, pairs as int, e.spec_kind());
                        }
                        return Err(e);
                    },
                }
            } else {
                proof {
                    lemma_if_step(j@, context@, t + 1, before, Ok(Json::Null), Ok(Json::Null));
                }
            }
            t = t + 1;
        }
        match chosen {
            Some(v) => Ok(v),
            None => {
                if n % 2 == 1 {
                    Self::render_arg(j, n - 1, context)
                } else {
                    Ok(Value::Null)
                }
            },
        }
    }


    /// An iteration: evaluates the array operand, then the sub-expression
    /// once for each item in that item's context.
    fn eval_iteration(op: Op, j: &Value, context: &GenerationContext) -> (r: Result<Value, DataFakeError>)
        requires
            crate::expr::is_iteration(op),
        ensures
            agrees(crate::expr::ev_iteration(op, j@, context@), r),
            crate::expr::iteration_rel(op, j@, context@, outcome(r)),
        decreases j, 4int,
    {
        match j {
            Value::Array(a) => {
                proof {
                    lemma_array_view(*a);
                }
                if a.len() != 2 {
                    return Err(op_error("an iteration takes an array and an expression"));
                }
                proof {
                    assert(decreases_to!(*j => j->Array_0));
                    assert(decreases_to!(j->Array_0 => j->Array_0[0]));
                    assert(decreases_to!(j->Array_0 => j->Array_0[1]));
                }
                assert(views(a@)[0] == a@[0]@);
                assert(views(a@)[1] == a@[1]@);
                let arr = Self::process_schema(&a[0], context)?;
                let empty: Vec<Value> = Vec::new();
                let items: &Vec<Value> = match &arr {
                    Value::Array(xs) => {
                        proof {
                            lemma_array_view(*xs);
                        }
                        xs
                    },
                    _ => &empty,
                };
                assert(views(items@) =~= crate::expr::items_of(arr@));
                let ghost vi = views(items@);
                let logic = &a[1];
                let mut results: Vec<Value> = Vec::new();
                let mut i: usize = 0;
                assert(views(results@) =~= Seq::<Json>::empty());
                while i < items.len()
                    invariant
                        j@ == Json::Array(views(a@)),
                        a.len() == 2,
                        rel(views(a@)[0], context@, Ok(arr@)),
                        ev(views(a@)[0], context@) matches Some(x) ==> x == Ok::<Json, ErrorKind>(arr@),
                        vi == views(items@),
                        vi == crate::expr::items_of(arr@),
                        logic@ == views(a@)[1],
                        decreases_to!(*j => *logic),
                        i <= items.len(),
                        results.len() == i,
                        crate::expr::ev_each(logic@, vi, i as int) matches Some(x) ==> x == Ok::<Seq<Json>, ErrorKind>(views(results@)),
                        crate::expr::each_rel(logic@, vi, i as int, Ok(views(results@))),
                    decreases items.len() - i,
                {
                    assert(vi[i as int] == items@[i as int]@);
                    let ictx = item_context(&items[i]);
                    let r = Self::process_schema(logic, &ictx);
                    proof {
                        assert(crate::expr::witness(views(results@)));
                        lemma_each_step(logic@, vi, i + 1, views(results@), outcome(r));
                    }
                    match r {
                        Ok(v) => {
                            let ghost prev = views(results@);
                            results.push(v);
                            assert(views(results@) =~= prev.push(results@[i as int]@));
                        },
                        Err(e) => {
                            proof {
                                lemma_each_stuck(logic@, vi, i + 1, vi.len() as int);
                                lemma_each_rel_err(logic@, vi, i + 1, vi.len() as int, e.spec_kind());
                                assert(crate::expr::witness(arr@));
                            }
                            return Err(e);
                        },
                    }
                    i = i + 1;
                }
                let v = iteration_value_exec(op, items, results);
                proof {
                    assert(crate::expr::witness((arr@, views(results@))));
                }
                Ok(v)
            },
            _ => Err(op_error("an iteration takes an array and an expression")),
        }
    }


    /// `reduce`: evaluates the array operand and the initial value, then the
    /// sub-expression once per item with the item and the value so far.
    fn eval_reduce(j: &Value, context: &GenerationContext) -> (r: Result<Value, DataFakeError>)
        ensures
            agrees(crate::expr::ev_reduce(j@, context@), r),
            crate::expr::reduce_rel(j@, context@, outcome(r)),
        decreases j, 4int,
    {
        match j {
            Value::Array(a) => {
                proof {
                    lemma_array_view(*a);
                }
                if a.len() != 3 {
                    return Err(op_error("reduce takes an array, an expression and an initial value"));
                }
                proof {
                    assert(decreases_to!(*j => j->Array_0));
                    assert(decreases_to!(j->Array_0 => j->Array_0[0]));
                    assert(decreases_to!(j->Array_0 => j->Array_0[1]));
                    assert(decreases_to!(j->Array_0 => j->Array_0[2]));
                }
                assert(views(a@)[0] == a@[0]@);
                assert(views(a@)[1] == a@[1]@);
                assert(views(a@)[2] == a@[2]@);
                let arr = Self::process_schema(&a[0], context)?;
                assert(crate::expr::witness(arr@));
                let init = Self::process_schema(&a[2], context)?;
                assert(crate::expr::witness(init@));
                let empty: Vec<Value> = Vec::new();
                let items: &Vec<Value> = match &arr {
                    Value::Array(xs) => {
                        proof {
                            lemma_array_view(*xs);
                        }
                        xs
                    },
                    _ => &empty,
                };
                assert(views(items@) =~= crate::expr::items_of(arr@));
                let ghost vi = views(items@);
                let logic = &a[1];
                let mut acc = init.deep_clone();
                let mut i: usize = 0;
                while i < items.len()
                    invariant
                        j@ == Json::Array(views(a@)),
                        a.len() == 3,
                        rel(views(a@)[0], context@, Ok(arr@)),
                        ev(views(a@)[0], context@) matches Some(x) ==> x == Ok::<Json, ErrorKind>(arr@),
                        rel(views(a@)[2], context@, Ok(init@)),
                        ev(views(a@)[2], context@) matches Some(x) ==> x == Ok::<Json, ErrorKind>(init@),
                        crate::expr::witness(arr@),
                        crate::expr::witness(init@),
                        vi == views(items@),
                        vi == crate::expr::items_of(arr@),
                        logic@ == views(a@)[1],
                        decreases_to!(*j => *logic),
                        i <= items.len(),
                        crate::expr::ev_fold(logic@, vi, init@, i as int) matches Some(x) ==> x == Ok::<Json, ErrorKind>(acc@),
                        crate::expr::fold_rel(logic@, vi, init@, i as int, Ok(acc@)),
                    decreases items.len() - i,
                {
                    assert(vi[i as int] == items@[i as int]@);
                    let step = reduce_context(&items[i], &acc);
                    let r = Self::process_schema(logic, &step);
                    proof {
                        assert(crate::expr::witness(acc@));
                        lemma_fold_step(logic@, vi, init@, i + 1, acc@, outcome(r));
                    }
                    match r {
                        Ok(v) => {
                            acc = v;
                        },
                        Err(e) => {
                            proof {
                                lemma_fold_stuck(logic@, vi, init@, i + 1, vi.len() as int);
                                lemma_fold_rel_err(logic@, vi, init@, i + 1, vi.len() as int, e.spec_kind());
                            }
                            return Err(e);
                        },
                    }
                    i = i + 1;
                }
                Ok(acc)
            },
            _ => Err(op_error("reduce takes an array, an expression and an initial value")),
        }
    }

    /// Evaluates an expression from its operator and operand list.
    fn eval_op(op: Op, j: &Value, context: &GenerationContext) -> (r: Result<Value, DataFakeError>)
        ensures
            agrees(ev_op(op, j@, context@), r),
            op == Op::Fake && (ev_operands(j@, context@) matches Some(Ok(args)) && fake_fault(args) is None) ==> r is Ok,
            op_rel(op, j@, context@, outcome(r)),
        decreases j, 5int,
    {
        if op == Op::Preserve {
            Ok(j.deep_clone())
        } else if op == Op::MapEach || op == Op::Filter || op == Op::All || op == Op::NoneOf || op == Op::SomeOf {
            Self::eval_iteration(op, j, context)
        } else if op == Op::Reduce {
            Self::eval_reduce(j, context)
        } else if op == Op::And || op == Op::Or {
            Self::eval_junction(j, context, op == Op::Or)
        } else if op == Op::If || op == Op::Ternary {
            Self::eval_if(j, context)
        } else {
            match Self::render_operands(j, context) {
                Ok(args) => {
                    let r = apply_op(op, &args, context);
                    assert(operands_rel(j@, context@, Ok(views(args@))));
                    assert(crate::expr::witness(views(args@)));
                    r
                },
                Err(e) => Err(e),
            }
        }
    }
}

} // verus!
