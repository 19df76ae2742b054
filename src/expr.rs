use vstd::prelude::*;
use crate::error::ErrorKind;
use crate::error::DataFakeError;
use crate::value::{Json, Value, int_text, int_in_range, text_of, truthy, views, values_equal, int_to_string, scalar_text, chars_of, chars_eq, lemma_array_view};
use vstd::string::StringExecFns;
use crate::operators::fake::{fake_admits, fake_fault};

verus! {

/// The operators of the expression language.
#[derive(Debug, Clone, Copy, PartialEq, Eq, Structural)]
pub enum Op {
    Var,
    Eq,
    Ne,
    StrictEq,
    StrictNe,
    Not,
    NotNot,
    Or,
    And,
    Ternary,
    If,
    Gt,
    Ge,
    Lt,
    Le,
    Max,
    Min,
    Add,
    Sub,
    Mul,
    Div,
    Mod,
    MapEach,
    Filter,
    Reduce,
    All,
    NoneOf,
    SomeOf,
    Merge,
    In,
    Cat,
    Substr,
    Log,
    Method,
    Preserve,
    Missing,
    MissingSome,
    Fake,
}

/// The operator that a key names, if any.
pub open spec fn op_of(k: Seq<char>) -> Option<Op> {
    if k == "var"@ { Some(Op::Var) }
    else if k == "=="@ { Some(Op::Eq) }
    else if k == "!="@ { Some(Op::Ne) }
    else if k == "==="@ { Some(Op::StrictEq) }
    else if k == "!=="@ { Some(Op::StrictNe) }
    else if k == "!"@ { Some(Op::Not) }
    else if k == "!!"@ { Some(Op::NotNot) }
    else if k == "or"@ { Some(Op::Or) }
    else if k == "and"@ { Some(Op::And) }
    else if k == "?:"@ { Some(Op::Ternary) }
    else if k == "if"@ { Some(Op::If) }
    else if k == ">"@ { Some(Op::Gt) }
    else if k == ">="@ { Some(Op::Ge) }
    else if k == "<"@ { Some(Op::Lt) }
    else if k == "<="@ { Some(Op::Le) }
    else if k == "max"@ { Some(Op::Max) }
    else if k == "min"@ { Some(Op::Min) }
    else if k == "+"@ { Some(Op::Add) }
    else if k == "-"@ { Some(Op::Sub) }
    else if k == "*"@ { Some(Op::Mul) }
    else if k == "/"@ { Some(Op::Div) }
    else if k == "%"@ { Some(Op::Mod) }
    else if k == "map"@ { Some(Op::MapEach) }
    else if k == "filter"@ { Some(Op::Filter) }
    else if k == "reduce"@ { Some(Op::Reduce) }
    else if k == "all"@ { Some(Op::All) }
    else if k == "none"@ { Some(Op::NoneOf) }
    else if k == "some"@ { Some(Op::SomeOf) }
    else if k == "merge"@ { Some(Op::Merge) }
    else if k == "in"@ { Some(Op::In) }
    else if k == "cat"@ { Some(Op::Cat) }
    else if k == "substr"@ { Some(Op::Substr) }
    else if k == "log"@ { Some(Op::Log) }
    else if k == "method"@ { Some(Op::Method) }
    else if k == "preserve"@ { Some(Op::Preserve) }
    else if k == "missing"@ { Some(Op::Missing) }
    else if k == "missing_some"@ { Some(Op::MissingSome) }
    else if k == "fake"@ { Some(Op::Fake) }
    else { None }
}

/// An object with exactly one key, which names an operator: an expression.
/// Such an object is always evaluated, even where a literal field of that
/// name was meant (`{"var": ...}` as data); objects of any other shape are
/// templates.
pub open spec fn is_expression(node: Json) -> bool {
    match node {
        Json::Object(ks, vs) => ks.len() == 1 && vs.len() == 1 && op_of(ks[0]) is Some,
        _ => false,
    }
}

/// The model of a variable context: names bound to values, later bindings
/// hiding earlier ones.
pub type Ctx = Seq<(Seq<char>, Json)>;

/// The value bound to a name.
pub open spec fn lookup(ctx: Ctx, name: Seq<char>) -> Option<Json>
    decreases ctx.len(),
{
    if ctx.len() == 0 {
        None
    } else if ctx.last().0 == name {
        Some(ctx.last().1)
    } else {
        lookup(ctx.drop_last(), name)
    }
}

/// The index of the first `.` of a text from `i` on, or its length.
pub open spec fn dot_index(s: Seq<char>, i: int) -> int
    decreases s.len() - i,
{
    if i < 0 || i >= s.len() {
        s.len() as int
    } else if s[i] == '.' {
        i
    } else {
        dot_index(s, i + 1)
    }
}

/// The value at a dotted path of object keys within a value.
pub open spec fn path_get(v: Json, path: Seq<char>) -> Option<Json>
    decreases path.len(),
{
    let d = dot_index(path, 0);
    let here = match v {
        Json::Object(ks, vs) => crate::config::field(ks, vs, path.subrange(0, d)),
        _ => None,
    };
    if d >= path.len() || d < 0 {
        here
    } else {
        match here {
            Some(w) => path_get(w, path.subrange(d + 1, path.len() as int)),
            None => None,
        }
    }
}

/// The value that a `var` name reaches: the variable of that name, else,
/// for a dotted name, the path after the first `.` within the variable
/// named by the part before it.
pub open spec fn var_value(ctx: Ctx, name: Seq<char>) -> Option<Json> {
    match lookup(ctx, name) {
        Some(v) => Some(v),
        None => {
            let d = dot_index(name, 0);
            if 0 <= d < name.len() {
                match lookup(ctx, name.subrange(0, d)) {
                    Some(v) => path_get(v, name.subrange(d + 1, name.len() as int)),
                    None => None,
                }
            } else {
                None
            }
        },
    }
}

/// The outcome of evaluation when it does not depend on random draws;
/// `None` where it does.
pub type Det = Option<Result<Json, ErrorKind>>;

/// The number of operands of an operand list; a non-array is one operand.
pub open spec fn nargs(j: Json) -> int {
    match j {
        Json::Array(a) => a.len() as int,
        _ => 1,
    }
}

/// The `k`th operand of an operand list.
pub open spec fn arg(j: Json, k: int) -> Json {
    match j {
        Json::Array(a) => a[k],
        _ => j,
    }
}

/// The `i`th evaluated argument, `null` past the end.
pub open spec fn argn(args: Seq<Json>, i: int) -> Json {
    if 0 <= i < args.len() {
        args[i]
    } else {
        Json::Null
    }
}

/// Evaluation of a node: literals stand for themselves, arrays and
/// non-expression objects are evaluated item by item, expressions are
/// computed.
pub open spec fn ev(node: Json, ctx: Ctx) -> Det
    decreases node, 0int,
{
    match node {
        Json::Array(a) => match ev_items(a, ctx, a.len() as int) {
            Some(Ok(vs)) => Some(Ok(Json::Array(vs))),
            Some(Err(e)) => Some(Err(e)),
            None => None,
        },
        Json::Object(ks, vs) => {
            if ks.len() == 1 && vs.len() == 1 && op_of(ks[0]) is Some {
                ev_op(op_of(ks[0])->0, vs[0], ctx)
            } else {
                match ev_items(vs, ctx, vs.len() as int) {
                    Some(Ok(rs)) => Some(Ok(Json::Object(ks, rs))),
                    Some(Err(e)) => Some(Err(e)),
                    None => None,
                }
            }
        },
        _ => Some(Ok(node)),
    }
}

/// Evaluation of the first `i` items of a sequence, left to right, up to
/// the first error.
pub open spec fn ev_items(a: Seq<Json>, ctx: Ctx, i: int) -> Option<Result<Seq<Json>, ErrorKind>>
    decreases a, i,
{
    if i <= 0 {
        Some(Ok(Seq::empty()))
    } else if i > a.len() {
        None
    } else {
        match ev_items(a, ctx, i - 1) {
            Some(Ok(vs)) => match ev(a[i - 1], ctx) {
                Some(Ok(v)) => Some(Ok(vs.push(v))),
                Some(Err(e)) => Some(Err(e)),
                None => None,
            },
            other => other,
        }
    }
}

/// Evaluation of every operand of an operand list.
pub open spec fn ev_operands(j: Json, ctx: Ctx) -> Option<Result<Seq<Json>, ErrorKind>>
    decreases j, 1int,
{
    match j {
        Json::Array(a) => ev_items(a, ctx, a.len() as int),
        _ => match ev(j, ctx) {
            Some(Ok(v)) => Some(Ok(seq![v])),
            Some(Err(e)) => Some(Err(e)),
            None => None,
        },
    }
}

/// Evaluation of an operand by its index.
pub open spec fn ev_arg(j: Json, k: int, ctx: Ctx) -> Det
    decreases j, 2int,
{
    match j {
        Json::Array(a) => if 0 <= k < a.len() {
            ev(a[k], ctx)
        } else {
            None
        },
        _ => ev(j, ctx),
    }
}

/// The state of `and` / `or` after the first `i` operands: whether it has
/// stopped, and the last value evaluated. `and` stops at a falsy value,
/// `or` at a truthy one; operands after the stop are not evaluated.
pub open spec fn ev_junction(j: Json, ctx: Ctx, i: int, stop_on: bool) -> Option<Result<(bool, Json), ErrorKind>>
    decreases j, i + 3,
{
    if i <= 0 {
        Some(Ok((false, Json::Null)))
    } else if i > nargs(j) {
        None
    } else {
        match ev_junction(j, ctx, i - 1, stop_on) {
            Some(Ok((false, _))) => match ev_arg(j, i - 1, ctx) {
                Some(Ok(v)) => Some(Ok((truthy(v) == stop_on, v))),
                Some(Err(e)) => Some(Err(e)),
                None => None,
            },
            other => other,
        }
    }
}

/// The state of `if` after the first `t` condition/result pairs: the
/// result chosen, if a condition held. Only the chosen result is evaluated.
pub open spec fn ev_if_pairs(j: Json, ctx: Ctx, t: int) -> Option<Result<Option<Json>, ErrorKind>>
    decreases j, t + 3,
{
    if t <= 0 {
        Some(Ok(None))
    } else if 2 * t > nargs(j) {
        None
    } else {
        match ev_if_pairs(j, ctx, t - 1) {
            Some(Ok(None)) => match ev_arg(j, 2 * t - 2, ctx) {
                Some(Ok(c)) => if truthy(c) {
                    match ev_arg(j, 2 * t - 1, ctx) {
                        Some(Ok(v)) => Some(Ok(Some(v))),
                        Some(Err(e)) => Some(Err(e)),
                        None => None,
                    }
                } else {
                    Some(Ok(None))
                },
                Some(Err(e)) => Some(Err(e)),
                None => None,
            },
            other => other,
        }
    }
}

/// `if`: the result of the first condition that holds, else the trailing
/// else-operand, else `null`.
pub open spec fn ev_if(j: Json, ctx: Ctx) -> Det
    decreases j, nargs(j) + 4,
{
    let n = nargs(j);
    if n < 0 {
        None
    } else {
        match ev_if_pairs(j, ctx, n / 2) {
            Some(Ok(Some(v))) => Some(Ok(v)),
            Some(Ok(None)) => if n % 2 == 1 {
                ev_arg(j, n - 1, ctx)
            } else {
                Some(Ok(Json::Null))
            },
            Some(Err(e)) => Some(Err(e)),
            None => None,
        }
    }
}


/// The operators that evaluate a sub-expression once for each item of an
/// array: `map`, `filter`, `all`, `none` and `some`.
pub open spec fn is_iteration(op: Op) -> bool {
    op is MapEach || op is Filter || op is All || op is NoneOf || op is SomeOf
}

/// The context of one item: the item under the empty name, and the entries
/// of an object item under their keys.
pub open spec fn item_ctx(item: Json) -> Ctx {
    match item {
        Json::Object(ks, vs) => Seq::new(vs.len(), |i: int| (ks[i], vs[i])).push((Seq::<char>::empty(), item)),
        _ => seq![(Seq::<char>::empty(), item)],
    }
}

/// The items that an iteration walks: those of an array, else none.
pub open spec fn items_of(v: Json) -> Seq<Json> {
    match v {
        Json::Array(xs) => xs,
        _ => Seq::empty(),
    }
}

/// The items among the first `i` whose result is truthy.
pub open spec fn filter_fold(items: Seq<Json>, results: Seq<Json>, i: int) -> Seq<Json>
    decreases i,
{
    if i <= 0 || i > items.len() || i > results.len() {
        Seq::empty()
    } else if truthy(results[i - 1]) {
        filter_fold(items, results, i - 1).push(items[i - 1])
    } else {
        filter_fold(items, results, i - 1)
    }
}

/// The value of an iteration from its items and the sub-expression's result
/// for each.
pub open spec fn iteration_value(op: Op, items: Seq<Json>, results: Seq<Json>) -> Json {
    if op is MapEach {
        Json::Array(results)
    } else if op is Filter {
        Json::Array(filter_fold(items, results, items.len() as int))
    } else if op is All {
        Json::Bool(results.len() > 0 && forall|i: int| 0 <= i < results.len() ==> truthy(#[trigger] results[i]))
    } else if op is NoneOf {
        Json::Bool(forall|i: int| 0 <= i < results.len() ==> !truthy(#[trigger] results[i]))
    } else {
        Json::Bool(exists|i: int| 0 <= i < results.len() && truthy(#[trigger] results[i]))
    }
}

/// The sub-expression evaluated for the first `i` items, each in its own
/// context, up to the first error.
pub open spec fn ev_each(logic: Json, items: Seq<Json>, i: int) -> Option<Result<Seq<Json>, ErrorKind>>
    decreases logic, i,
{
    if i <= 0 {
        Some(Ok(Seq::empty()))
    } else if i > items.len() {
        None
    } else {
        match ev_each(logic, items, i - 1) {
            Some(Ok(vs)) => match ev(logic, item_ctx(items[i - 1])) {
                Some(Ok(v)) => Some(Ok(vs.push(v))),
                Some(Err(e)) => Some(Err(e)),
                None => None,
            },
            other => other,
        }
    }
}

/// An iteration: the array operand is evaluated, then the sub-expression
/// once per item.
pub open spec fn ev_iteration(op: Op, j: Json, ctx: Ctx) -> Det
    decreases j, 4int,
{
    match j {
        Json::Array(a) => if a.len() == 2 {
            match ev(a[0], ctx) {
                Some(Ok(arr)) => match ev_each(a[1], items_of(arr), items_of(arr).len() as int) {
                    Some(Ok(rs)) => Some(Ok(iteration_value(op, items_of(arr), rs))),
                    Some(Err(e)) => Some(Err(e)),
                    None => None,
                },
                Some(Err(e)) => Some(Err(e)),
                None => None,
            }
        } else {
            Some(Err(ErrorKind::FakeOperator))
        },
        _ => Some(Err(ErrorKind::FakeOperator)),
    }
}


/// The context of one step of `reduce`: the item as `current` and the value
/// so far as `accumulator`.
pub open spec fn reduce_ctx(item: Json, acc: Json) -> Ctx {
    seq![("current"@, item), ("accumulator"@, acc)]
}

/// The value of `reduce` after the first `i` items, up to the first error.
pub open spec fn ev_fold(logic: Json, items: Seq<Json>, init: Json, i: int) -> Det
    decreases logic, i,
{
    if i <= 0 {
        Some(Ok(init))
    } else if i > items.len() {
        None
    } else {
        match ev_fold(logic, items, init, i - 1) {
            Some(Ok(acc)) => ev(logic, reduce_ctx(items[i - 1], acc)),
            other => other,
        }
    }
}

/// `reduce`: the array operand and the initial value are evaluated, then
/// the sub-expression once per item, each step seeing the value so far.
pub open spec fn ev_reduce(j: Json, ctx: Ctx) -> Det
    decreases j, 4int,
{
    match j {
        Json::Array(a) => if a.len() == 3 {
            match ev(a[0], ctx) {
                Some(Ok(arr)) => match ev(a[2], ctx) {
                    Some(Ok(init)) => ev_fold(a[1], items_of(arr), init, items_of(arr).len() as int),
                    Some(Err(e)) => Some(Err(e)),
                    None => None,
                },
                Some(Err(e)) => Some(Err(e)),
                None => None,
            }
        } else {
            Some(Err(ErrorKind::FakeOperator))
        },
        _ => Some(Err(ErrorKind::FakeOperator)),
    }
}

/// Evaluation of an expression with its operator and operand list. `preserve`
/// gives its operand list unevaluated; `map`, `filter`, `all`, `none`, `some`
/// and `reduce` evaluate their sub-expression once per item; `and`, `or` and
/// `if` evaluate their operands lazily; every other operator evaluates all
/// its operands first.
pub open spec fn ev_op(op: Op, j: Json, ctx: Ctx) -> Det
    decreases j, nargs(j) + 5,
{
    if nargs(j) < 0 {
        None
    } else if op is Preserve {
        Some(Ok(j))
    } else if is_iteration(op) {
        ev_iteration(op, j, ctx)
    } else if op is Reduce {
        ev_reduce(j, ctx)
    } else if op is And || op is Or {
        match ev_junction(j, ctx, nargs(j), op is Or) {
            Some(Ok((_, v))) => Some(Ok(v)),
            Some(Err(e)) => Some(Err(e)),
            None => None,
        }
    } else if op is If || op is Ternary {
        ev_if(j, ctx)
    } else {
        match ev_operands(j, ctx) {
            Some(Ok(args)) => apply(op, args, ctx),
            Some(Err(e)) => Some(Err(e)),
            None => None,
        }
    }
}


/// The outcomes that evaluation may have, drawn values included: `rel`
/// holds of a node, a context and an outcome when some run of the evaluator
/// gives that outcome. Arrays and non-expression objects are evaluated item
/// by item up to the first error; an expression as `op_rel` says.
pub open spec fn rel(node: Json, ctx: Ctx, out: Result<Json, ErrorKind>) -> bool
    decreases node, 0int,
{
    match node {
        Json::Array(a) => match out {
            Ok(Json::Array(vs)) => items_rel(a, ctx, a.len() as int, Ok(vs)),
            Ok(_) => false,
            Err(e) => items_rel(a, ctx, a.len() as int, Err(e)),
        },
        Json::Object(ks, vs) => {
            if ks.len() == 1 && vs.len() == 1 && op_of(ks[0]) is Some {
                op_rel(op_of(ks[0])->0, vs[0], ctx, out)
            } else {
                match out {
                    Ok(Json::Object(ks2, ws)) => ks2 == ks && items_rel(vs, ctx, vs.len() as int, Ok(ws)),
                    Ok(_) => false,
                    Err(e) => items_rel(vs, ctx, vs.len() as int, Err(e)),
                }
            }
        },
        _ => out == Ok::<Json, ErrorKind>(node),
    }
}

/// A value that stands as a witness of an intermediate result.
pub open spec fn witness<T>(x: T) -> bool {
    true
}

/// The possible states after evaluating the first `i` items of a sequence:
/// the values so far, or the first error.
pub open spec fn items_rel(a: Seq<Json>, ctx: Ctx, i: int, st: Result<Seq<Json>, ErrorKind>) -> bool
    decreases a, i,
{
    if i <= 0 {
        st == Ok::<Seq<Json>, ErrorKind>(Seq::empty())
    } else if i > a.len() {
        false
    } else {
        match st {
            Ok(vs) => vs.len() == i && items_rel(a, ctx, i - 1, Ok(vs.drop_last())) && rel(
                a[i - 1],
                ctx,
                Ok(vs.last()),
            ),
            Err(e) => items_rel(a, ctx, i - 1, Err(e)) || exists|vs: Seq<Json>|
                #[trigger] witness(vs) && items_rel(a, ctx, i - 1, Ok(vs)) && rel(a[i - 1], ctx, Err(e)),
        }
    }
}

/// The possible outcomes of evaluating every operand of an operand list.
pub open spec fn operands_rel(j: Json, ctx: Ctx, st: Result<Seq<Json>, ErrorKind>) -> bool
    decreases j, 1int,
{
    match j {
        Json::Array(a) => items_rel(a, ctx, a.len() as int, st),
        _ => match st {
            Ok(vs) => vs.len() == 1 && rel(j, ctx, Ok(vs[0])),
            Err(e) => rel(j, ctx, Err(e)),
        },
    }
}

/// The possible outcomes of evaluating one operand by its index.
pub open spec fn arg_rel(j: Json, k: int, ctx: Ctx, out: Result<Json, ErrorKind>) -> bool
    decreases j, 2int,
{
    match j {
        Json::Array(a) => 0 <= k < a.len() && rel(a[k], ctx, out),
        _ => rel(j, ctx, out),
    }
}

/// The possible states of `and` / `or` after the first `i` operands: whether
/// it has stopped and the last value, or an error.
pub open spec fn junction_rel(j: Json, ctx: Ctx, i: int, stop_on: bool, st: Result<(bool, Json), ErrorKind>) -> bool
    decreases j, i + 3,
{
    if i <= 0 {
        st == Ok::<(bool, Json), ErrorKind>((false, Json::Null))
    } else if i > nargs(j) {
        false
    } else {
        match st {
            Err(e) => junction_rel(j, ctx, i - 1, stop_on, Err(e)) || exists|u: Json|
                #[trigger] witness(u) && junction_rel(j, ctx, i - 1, stop_on, Ok((false, u))) && arg_rel(j, i - 1, ctx, Err(e)),
            Ok((true, v)) => junction_rel(j, ctx, i - 1, stop_on, Ok((true, v))) || (
            exists|u: Json| #[trigger] witness(u) && junction_rel(j, ctx, i - 1, stop_on, Ok((false, u))) && arg_rel(j, i - 1, ctx, Ok(v))
                && truthy(v) == stop_on),
            Ok((false, v)) => (exists|u: Json| #[trigger] witness(u) && junction_rel(j, ctx, i - 1, stop_on, Ok((false, u))) && arg_rel(
                j,
                i - 1,
                ctx,
                Ok(v),
            ) && truthy(v) != stop_on),
        }
    }
}

/// The possible states of `if` after the first `t` condition/result pairs:
/// the chosen result, none yet, or an error. Conditions after the chosen
/// one and results of conditions that failed are never evaluated.
pub open spec fn if_rel(j: Json, ctx: Ctx, t: int, st: Result<Option<Json>, ErrorKind>) -> bool
    decreases j, t + 3,
{
    if t <= 0 {
        st == Ok::<Option<Json>, ErrorKind>(None)
    } else if 2 * t > nargs(j) {
        false
    } else {
        match st {
            Err(e) => if_rel(j, ctx, t - 1, Err(e)) || (if_rel(j, ctx, t - 1, Ok(None)) && (arg_rel(j, 2 * t - 2, ctx, Err(e)) || exists|c: Json|
                #[trigger] witness(c) && arg_rel(j, 2 * t - 2, ctx, Ok(c)) && truthy(c) && arg_rel(j, 2 * t - 1, ctx, Err(e)))),
            Ok(Some(v)) => if_rel(j, ctx, t - 1, Ok(Some(v))) || (if_rel(j, ctx, t - 1, Ok(None)) && exists|c: Json|
                #[trigger] witness(c) && arg_rel(j, 2 * t - 2, ctx, Ok(c)) && truthy(c) && arg_rel(j, 2 * t - 1, ctx, Ok(v))),
            Ok(None) => if_rel(j, ctx, t - 1, Ok(None)) && exists|c: Json|
                #[trigger] witness(c) && arg_rel(j, 2 * t - 2, ctx, Ok(c)) && !truthy(c),
        }
    }
}

/// The possible outcomes of `if`: the chosen result, else the trailing
/// else-operand, else `null`.
pub open spec fn if_final_rel(j: Json, ctx: Ctx, out: Result<Json, ErrorKind>) -> bool
    decreases j, nargs(j) + 4,
{
    let n = nargs(j);
    if n < 0 {
        false
    } else {
        match out {
            Ok(v) => if_rel(j, ctx, n / 2, Ok(Some(v))) || (if_rel(j, ctx, n / 2, Ok(None)) && (if n % 2 == 1 {
                arg_rel(j, n - 1, ctx, Ok(v))
            } else {
                v == Json::Null
            })),
            Err(e) => if_rel(j, ctx, n / 2, Err(e)) || (if_rel(j, ctx, n / 2, Ok(None)) && n % 2 == 1 && arg_rel(
                j,
                n - 1,
                ctx,
                Err(e),
            )),
        }
    }
}

/// The possible outcomes of an operator on its evaluated arguments: the
/// generation operator fails exactly where `fake_fault` says and otherwise
/// gives any value that `fake_admits`; every other operator is `apply`.
pub open spec fn apply_rel(op: Op, args: Seq<Json>, ctx: Ctx, out: Result<Json, ErrorKind>) -> bool {
    if op is Fake {
        match fake_fault(args) {
            Some(e) => out == Err::<Json, ErrorKind>(e),
            None => out matches Ok(v) && fake_admits(args, v),
        }
    } else {
        apply(op, args, ctx) == Some(out)
    }
}


/// The possible states of a sub-expression evaluated for the first `i`
/// items.
pub open spec fn each_rel(logic: Json, items: Seq<Json>, i: int, st: Result<Seq<Json>, ErrorKind>) -> bool
    decreases logic, i,
{
    if i <= 0 {
        st == Ok::<Seq<Json>, ErrorKind>(Seq::empty())
    } else if i > items.len() {
        false
    } else {
        match st {
            Ok(vs) => vs.len() == i && each_rel(logic, items, i - 1, Ok(vs.drop_last())) && rel(
                logic,
                item_ctx(items[i - 1]),
                Ok(vs.last()),
            ),
            Err(e) => each_rel(logic, items, i - 1, Err(e)) || exists|vs: Seq<Json>|
                #[trigger] witness(vs) && each_rel(logic, items, i - 1, Ok(vs)) && rel(logic, item_ctx(items[i - 1]), Err(e)),
        }
    }
}

/// The possible outcomes of an iteration.
pub open spec fn iteration_rel(op: Op, j: Json, ctx: Ctx, out: Result<Json, ErrorKind>) -> bool
    decreases j, 4int,
{
    match j {
        Json::Array(a) => if a.len() == 2 {
            match out {
                Ok(v) => exists|arr: Json, rs: Seq<Json>| #[trigger] witness((arr, rs)) && rel(a[0], ctx, Ok(arr)) && each_rel(
                    a[1],
                    items_of(arr),
                    items_of(arr).len() as int,
                    Ok(rs),
                ) && v == iteration_value(op, items_of(arr), rs),
                Err(e) => rel(a[0], ctx, Err(e)) || exists|arr: Json| #[trigger] witness(arr) && rel(a[0], ctx, Ok(arr)) && each_rel(
                    a[1],
                    items_of(arr),
                    items_of(arr).len() as int,
                    Err(e),
                ),
            }
        } else {
            out == Err::<Json, ErrorKind>(ErrorKind::FakeOperator)
        },
        _ => out == Err::<Json, ErrorKind>(ErrorKind::FakeOperator),
    }
}


/// The possible values of `reduce` after the first `i` items.
pub open spec fn fold_rel(logic: Json, items: Seq<Json>, init: Json, i: int, st: Result<Json, ErrorKind>) -> bool
    decreases logic, i,
{
    if i <= 0 {
        st == Ok::<Json, ErrorKind>(init)
    } else if i > items.len() {
        false
    } else {
        (st is Err && fold_rel(logic, items, init, i - 1, st)) || exists|acc: Json|
            #[trigger] witness(acc) && fold_rel(logic, items, init, i - 1, Ok(acc)) && rel(logic, reduce_ctx(items[i - 1], acc), st)
    }
}

/// The possible outcomes of `reduce`.
pub open spec fn reduce_rel(j: Json, ctx: Ctx, out: Result<Json, ErrorKind>) -> bool
    decreases j, 4int,
{
    match j {
        Json::Array(a) => if a.len() == 3 {
            (out is Err && rel(a[0], ctx, out)) || exists|arr: Json|
                #[trigger] witness(arr) && rel(a[0], ctx, Ok(arr)) && ((out is Err && rel(a[2], ctx, out)) || exists|init: Json|
                    #[trigger] witness(init) && rel(a[2], ctx, Ok(init)) && fold_rel(a[1], items_of(arr), init, items_of(arr).len() as int, out))
        } else {
            out == Err::<Json, ErrorKind>(ErrorKind::FakeOperator)
        },
        _ => out == Err::<Json, ErrorKind>(ErrorKind::FakeOperator),
    }
}

/// The possible outcomes of an expression with its operator and operands.
pub open spec fn op_rel(op: Op, j: Json, ctx: Ctx, out: Result<Json, ErrorKind>) -> bool
    decreases j, nargs(j) + 5,
{
    if nargs(j) < 0 {
        false
    } else if op is Preserve {
        out == Ok::<Json, ErrorKind>(j)
    } else if is_iteration(op) {
        iteration_rel(op, j, ctx, out)
    } else if op is Reduce {
        reduce_rel(j, ctx, out)
    } else if op is And || op is Or {
        match out {
            Ok(v) => junction_rel(j, ctx, nargs(j), op is Or, Ok((true, v))) || junction_rel(j, ctx, nargs(j), op is Or, Ok((false, v))),
            Err(e) => junction_rel(j, ctx, nargs(j), op is Or, Err(e)),
        }
    } else if op is If || op is Ternary {
        if_final_rel(j, ctx, out)
    } else {
        match out {
            Err(e) => operands_rel(j, ctx, Err(e)) || exists|args: Seq<Json>|
                #[trigger] witness(args) && operands_rel(j, ctx, Ok(args)) && apply_rel(op, args, ctx, Err(e)),
            Ok(v) => exists|args: Seq<Json>| #[trigger] witness(args) && operands_rel(j, ctx, Ok(args)) && apply_rel(op, args, ctx, Ok(v)),
        }
    }
}

/// The output of a node keeps the node's literal structure: literals are
/// copied, arrays keep their length and non-expression objects their keys
/// in order, item by item; an expression gives its deterministic value
/// wherever it has one.
pub open spec fn conforms(node: Json, ctx: Ctx, out: Json) -> bool
    decreases node,
{
    match node {
        Json::Array(a) => match out {
            Json::Array(b) => b.len() == a.len() && forall|i: int|
                0 <= i < a.len() ==> conforms(#[trigger] a[i], ctx, b[i]),
            _ => false,
        },
        Json::Object(ks, vs) => {
            if ks.len() == 1 && vs.len() == 1 && op_of(ks[0]) is Some {
                ev(node, ctx) matches Some(Ok(v)) ==> out == v
            } else {
                match out {
                    Json::Object(ks2, ws) => ks2 == ks && ws.len() == vs.len() && forall|i: int|
                        0 <= i < vs.len() ==> conforms(#[trigger] vs[i], ctx, ws[i]),
                    _ => false,
                }
            }
        },
        _ => out == node,
    }
}


/// Nodes whose rendering is sure to succeed whatever is drawn: literals,
/// arrays and non-expression objects of such nodes, expressions with a
/// deterministic value, and generation calls on literal arguments that the
/// kind accepts.
pub open spec fn sure(node: Json, ctx: Ctx) -> bool
    decreases node,
{
    match node {
        Json::Array(a) => forall|i: int| 0 <= i < a.len() ==> sure(#[trigger] a[i], ctx),
        Json::Object(ks, vs) => {
            if ks.len() == 1 && vs.len() == 1 && op_of(ks[0]) is Some {
                (ev(node, ctx) matches Some(Ok(_))) || (op_of(ks[0]) == Some(Op::Fake) && (ev_operands(vs[0], ctx) matches Some(Ok(args)) && fake_fault(args) is None))
            } else {
                forall|i: int| 0 <= i < vs.len() ==> sure(#[trigger] vs[i], ctx)
            }
        },
        _ => true,
    }
}

/// Loose equality: an integer equals its decimal text and a boolean its
/// number; otherwise values are equal when they are the same.
pub open spec fn loose_eq(a: Json, b: Json) -> bool {
    match (a, b) {
        (Json::Int(x), Json::Str(s)) => s == int_text(x),
        (Json::Str(s), Json::Int(x)) => s == int_text(x),
        (Json::Int(x), Json::Bool(c)) => x == (if c { 1int } else { 0int }),
        (Json::Bool(c), Json::Int(x)) => x == (if c { 1int } else { 0int }),
        _ => a == b,
    }
}

pub open spec fn is_number(j: Json) -> bool {
    j is Int || j is Float
}

/// Lexicographic order of character sequences: -1, 0 or 1.
pub open spec fn lex_cmp(s: Seq<char>, t: Seq<char>) -> int
    decreases s.len(),
{
    if s.len() == 0 {
        if t.len() == 0 { 0 } else { -1 }
    } else if t.len() == 0 {
        1
    } else if (s[0] as u32) < (t[0] as u32) {
        -1
    } else if (s[0] as u32) > (t[0] as u32) {
        1
    } else {
        lex_cmp(s.drop_first(), t.drop_first())
    }
}

/// The order of two values for `<` and its kin: numeric for two integers,
/// else lexicographic on their texts.
pub open spec fn order(a: Json, b: Json) -> Result<int, ErrorKind> {
    match (a, b) {
        (Json::Int(x), Json::Int(y)) => Ok(if x < y { -1 } else if x > y { 1 } else { 0 }),
        _ => if is_number(a) && is_number(b) {
            Err(ErrorKind::TypeConversion)
        } else {
            match (text_of(a), text_of(b)) {
                (Some(s), Some(t)) => Ok(lex_cmp(s, t)),
                _ => Err(ErrorKind::FakeOperator),
            }
        },
    }
}

/// The integer that an operand of arithmetic stands for.
pub open spec fn num_of(x: Json) -> Result<int, ErrorKind> {
    match x {
        Json::Int(n) => if int_in_range(n) { Ok(n) } else { Err(ErrorKind::TypeConversion) },
        Json::Float(_) => Err(ErrorKind::TypeConversion),
        _ => Err(ErrorKind::FakeOperator),
    }
}

pub open spec fn abs(n: int) -> nat {
    if n < 0 { (-n) as nat } else { n as nat }
}

/// Division rounding toward zero.
pub open spec fn trunc_div(a: int, b: int) -> int {
    let q = (abs(a) / abs(b)) as int;
    if (a < 0) != (b < 0) { -q } else { q }
}

/// The remainder of `trunc_div`, with the sign of the dividend.
pub open spec fn trunc_rem(a: int, b: int) -> int {
    a - b * trunc_div(a, b)
}

/// One step of an arithmetic fold.
pub open spec fn arith_step(op: Op, acc: int, x: Json) -> Result<int, ErrorKind> {
    match num_of(x) {
        Err(e) => Err(e),
        Ok(y) => {
            let r = if op is Add {
                Ok(acc + y)
            } else if op is Sub {
                Ok(acc - y)
            } else if op is Mul {
                Ok(acc * y)
            } else if y == 0 {
                Err(ErrorKind::TypeConversion)
            } else if op is Div {
                if trunc_rem(acc, y) != 0 { Err(ErrorKind::TypeConversion) } else { Ok(trunc_div(acc, y)) }
            } else {
                Ok(trunc_rem(acc, y))
            };
            match r {
                Ok(v) => if int_in_range(v) { Ok(v) } else { Err(ErrorKind::TypeConversion) },
                Err(e) => Err(e),
            }
        },
    }
}

/// A left fold of arithmetic over the first `i` arguments. `+` starts from
/// 0 and `*` from 1; the others start from their first argument.
pub open spec fn arith_fold(op: Op, args: Seq<Json>, i: int) -> Result<int, ErrorKind>
    decreases i,
{
    if i <= 0 {
        Ok(if op is Mul { 1int } else { 0int })
    } else if i == 1 && !(op is Add || op is Mul) {
        num_of(argn(args, 0))
    } else {
        match arith_fold(op, args, i - 1) {
            Ok(acc) => arith_step(op, acc, argn(args, i - 1)),
            Err(e) => Err(e),
        }
    }
}

/// Arithmetic: `+ - * / %` over the argument list.
pub open spec fn arith(op: Op, args: Seq<Json>) -> Result<Json, ErrorKind> {
    let n = args.len() as int;
    if op is Sub && n == 0 {
        Err(ErrorKind::FakeOperator)
    } else if (op is Div || op is Mod) && n < 2 {
        Err(ErrorKind::FakeOperator)
    } else if op is Sub && n == 1 {
        match num_of(args[0]) {
            Ok(x) => if int_in_range(-x) { Ok(Json::Int(-x)) } else { Err(ErrorKind::TypeConversion) },
            Err(e) => Err(e),
        }
    } else {
        match arith_fold(op, args, n) {
            Ok(v) => Ok(Json::Int(v)),
            Err(e) => Err(e),
        }
    }
}

/// The least (`min`) or greatest (`max`) of the first `i` arguments.
pub open spec fn extreme_fold(is_max: bool, args: Seq<Json>, i: int) -> Result<int, ErrorKind>
    decreases i,
{
    if i <= 1 {
        num_of(argn(args, 0))
    } else {
        match extreme_fold(is_max, args, i - 1) {
            Ok(acc) => match num_of(argn(args, i - 1)) {
                Ok(y) => Ok(if is_max { if y > acc { y } else { acc } } else { if y < acc { y } else { acc } }),
                Err(e) => Err(e),
            },
            Err(e) => Err(e),
        }
    }
}

/// The concatenated texts of the first `i` arguments.
pub open spec fn cat_fold(args: Seq<Json>, i: int) -> Result<Seq<char>, ErrorKind>
    decreases i,
{
    if i <= 0 {
        Ok(Seq::empty())
    } else {
        match cat_fold(args, i - 1) {
            Ok(s) => match text_of(argn(args, i - 1)) {
                Some(t) => Ok(s + t),
                None => Err(ErrorKind::FakeOperator),
            },
            Err(e) => Err(e),
        }
    }
}

/// The first `i` arguments with arrays spliced in one level deep.
pub open spec fn merge_fold(args: Seq<Json>, i: int) -> Seq<Json>
    decreases i,
{
    if i <= 0 {
        Seq::empty()
    } else {
        match argn(args, i - 1) {
            Json::Array(xs) => merge_fold(args, i - 1) + xs,
            x => merge_fold(args, i - 1).push(x),
        }
    }
}

/// The names among the first `i` that no variable binds, in order; a
/// name that is not a text counts as missing.
pub open spec fn missing_fold(names: Seq<Json>, ctx: Ctx, i: int) -> Seq<Json>
    decreases i,
{
    if i <= 0 || i > names.len() {
        Seq::empty()
    } else {
        match names[i - 1] {
            Json::Str(s) => if lookup(ctx, s) is Some {
                missing_fold(names, ctx, i - 1)
            } else {
                missing_fold(names, ctx, i - 1).push(names[i - 1])
            },
            x => missing_fold(names, ctx, i - 1).push(x),
        }
    }
}

/// The names that `missing` checks: the items of a first array argument,
/// else all the arguments.
pub open spec fn names_of(args: Seq<Json>) -> Seq<Json> {
    match argn(args, 0) {
        Json::Array(xs) => xs,
        _ => args,
    }
}

/// Where `substr` starts: a negative start counts from the end; both are
/// clamped to the text.
pub open spec fn substr_begin(n: int, start: int) -> int {
    if start < 0 {
        if n + start < 0 { 0 } else { n + start }
    } else if start > n {
        n
    } else {
        start
    }
}

/// Where `substr` ends: to the end with no length, a negative length drops
/// characters from the end; clamped to the text and not before the start.
pub open spec fn substr_end(n: int, b: int, len: Option<int>) -> int {
    match len {
        None => n,
        Some(l) => if l < 0 {
            if n + l < b { b } else { n + l }
        } else if b + l > n {
            n
        } else {
            b + l
        },
    }
}

/// `substr` of a scalar's text.
pub open spec fn substr(args: Seq<Json>) -> Result<Json, ErrorKind> {
    match text_of(argn(args, 0)) {
        None => Err(ErrorKind::FakeOperator),
        Some(t) => match argn(args, 1) {
            Json::Int(st) => {
                let b = substr_begin(t.len() as int, st);
                if args.len() > 2 {
                    match args[2] {
                        Json::Int(l) => Ok(Json::Str(t.subrange(b, substr_end(t.len() as int, b, Some(l))))),
                        _ => Err(ErrorKind::FakeOperator),
                    }
                } else {
                    Ok(Json::Str(t.subrange(b, t.len() as int)))
                }
            },
            _ => Err(ErrorKind::FakeOperator),
        },
    }
}

/// Whether `t` occurs in `s` as a contiguous piece.
pub open spec fn contains_seq(s: Seq<char>, t: Seq<char>) -> bool {
    exists|i: int| 0 <= i && i + t.len() <= s.len() && #[trigger] s.subrange(i, i + t.len()) == t
}

/// Membership: a piece of a string, or an item of an array.
pub open spec fn member(a: Json, b: Json) -> Result<bool, ErrorKind> {
    match b {
        Json::Str(s) => match text_of(a) {
            Some(t) => Ok(contains_seq(s, t)),
            None => Err(ErrorKind::FakeOperator),
        },
        Json::Array(xs) => Ok(xs.contains(a)),
        _ => Ok(false),
    }
}

/// An operator applied to its evaluated arguments. A `var` reaches a
/// variable, or a dotted path within one; where it reaches nothing it gives
/// its second operand, else `null`; it never fails. Arithmetic
/// and `min`/`max` work on integers; a non-integral operand, a result out of
/// range, a division by zero or one with a remainder is a conversion error.
/// `missing` lists the names that no variable binds, `missing_some` does so
/// only when fewer than the count are bound, and `substr` slices a text by
/// character. `method` is refused; the iterating operators and `reduce`
/// are evaluated by `ev_iteration` and `ev_reduce` and never reach here.
/// The generation operator is deterministic only where it fails.
pub open spec fn apply(op: Op, args: Seq<Json>, ctx: Ctx) -> Det {
    let a0 = argn(args, 0);
    let a1 = argn(args, 1);
    match op {
        Op::Var => match a0 {
            Json::Str(s) => match var_value(ctx, s) {
                Some(v) => Some(Ok(v)),
                None => Some(Ok(a1)),
            },
            _ => Some(Ok(a1)),
        },
        Op::Eq => Some(Ok(Json::Bool(loose_eq(a0, a1)))),
        Op::Ne => Some(Ok(Json::Bool(!loose_eq(a0, a1)))),
        Op::StrictEq => Some(Ok(Json::Bool(a0 == a1))),
        Op::StrictNe => Some(Ok(Json::Bool(a0 != a1))),
        Op::Not => Some(Ok(Json::Bool(!truthy(a0)))),
        Op::NotNot => Some(Ok(Json::Bool(truthy(a0)))),
        Op::Gt | Op::Ge | Op::Lt | Op::Le => match order(a0, a1) {
            Ok(c) => Some(Ok(Json::Bool(
                if op is Gt { c > 0 } else if op is Ge { c >= 0 } else if op is Lt { c < 0 } else { c <= 0 },
            ))),
            Err(e) => Some(Err(e)),
        },
        Op::Add | Op::Sub | Op::Mul | Op::Div | Op::Mod => Some(arith(op, args)),
        Op::Max | Op::Min => if args.len() == 0 {
            Some(Ok(Json::Null))
        } else {
            match extreme_fold(op is Max, args, args.len() as int) {
                Ok(v) => Some(Ok(Json::Int(v))),
                Err(e) => Some(Err(e)),
            }
        },
        Op::Cat => match cat_fold(args, args.len() as int) {
            Ok(s) => Some(Ok(Json::Str(s))),
            Err(e) => Some(Err(e)),
        },
        Op::In => match member(a0, a1) {
            Ok(b) => Some(Ok(Json::Bool(b))),
            Err(e) => Some(Err(e)),
        },
        Op::Merge => Some(Ok(Json::Array(merge_fold(args, args.len() as int)))),
        Op::Log => Some(Ok(a0)),
        Op::Missing => Some(Ok(Json::Array(missing_fold(names_of(args), ctx, names_of(args).len() as int)))),
        Op::MissingSome => match (a0, a1) {
            (Json::Int(need), Json::Array(names)) => {
                let m = missing_fold(names, ctx, names.len() as int);
                Some(Ok(Json::Array(if names.len() - m.len() >= need { Seq::empty() } else { m })))
            },
            _ => Some(Err(ErrorKind::FakeOperator)),
        },
        Op::Substr => Some(substr(args)),
        Op::Fake => match fake_fault(args) {
            Some(e) => Some(Err(e)),
            None => None,
        },
        _ => Some(Err(ErrorKind::FakeOperator)),
    }
}


/// The outcome of a computation, by its model.
pub open spec fn outcome(r: Result<Value, DataFakeError>) -> Result<Json, ErrorKind> {
    match r {
        Ok(v) => Ok(v@),
        Err(e) => Err(e.spec_kind()),
    }
}

/// A computation agrees with a deterministic outcome wherever there is one.
pub open spec fn agrees(d: Det, r: Result<Value, DataFakeError>) -> bool {
    d matches Some(x) ==> outcome(r) == x
}

pub fn op_error(msg: &str) -> (e: DataFakeError)
    ensures
        e.spec_kind() == ErrorKind::FakeOperator,
{
    DataFakeError::FakeOperatorError(String::from_str(msg))
}

pub fn conversion_error(msg: &str) -> (e: DataFakeError)
    ensures
        e.spec_kind() == ErrorKind::TypeConversion,
{
    DataFakeError::TypeConversion(String::from_str(msg))
}

/// Loose equality of two values.
pub fn loose_equal(a: &Value, b: &Value) -> (r: bool)
    ensures
        r == loose_eq(a@, b@),
{
    match (a, b) {
        (Value::Int(x), Value::Str(s)) => {
            let t = int_to_string(*x);
            *s == t
        },
        (Value::Str(s), Value::Int(x)) => {
            let t = int_to_string(*x);
            *s == t
        },
        (Value::Int(x), Value::Bool(c)) => *x == (if *c { 1 } else { 0 }),
        (Value::Bool(c), Value::Int(x)) => *x == (if *c { 1 } else { 0 }),
        _ => values_equal(a, b),
    }
}

/// Lexicographic order of two character sequences.
pub fn lex_compare(s: &Vec<char>, t: &Vec<char>) -> (r: i8)
    ensures
        r as int == lex_cmp(s@, t@),
{
    let mut i: usize = 0;
    assert(s@.skip(0) =~= s@);
    assert(t@.skip(0) =~= t@);
    while i < s.len() && i < t.len()
        invariant
            i <= s.len(),
            i <= t.len(),
            lex_cmp(s@, t@) == lex_cmp(s@.skip(i as int), t@.skip(i as int)),
        decreases s.len() - i,
    {
        let a = s[i];
        let b = t[i];
        assert(s@.skip(i as int)[0] == a);
        assert(t@.skip(i as int)[0] == b);
        if (a as u32) < (b as u32) {
            return -1;
        }
        if (a as u32) > (b as u32) {
            return 1;
        }
        assert(s@.skip(i as int).drop_first() =~= s@.skip(i + 1));
        assert(t@.skip(i as int).drop_first() =~= t@.skip(i + 1));
        i = i + 1;
    }
    assert(s@.skip(i as int).len() == s.len() - i);
    assert(t@.skip(i as int).len() == t.len() - i);
    if i == s.len() {
        if i == t.len() {
            0
        } else {
            -1
        }
    } else {
        1
    }
}

fn is_num(v: &Value) -> (r: bool)
    ensures
        r == is_number(v@),
{
    match v {
        Value::Int(_) => true,
        Value::Float(_) => true,
        _ => false,
    }
}

/// The order of two values for `<` and its kin.
pub fn compare(a: &Value, b: &Value) -> (r: Result<i8, DataFakeError>)
    ensures
        order(a@, b@) matches Ok(c) ==> (r matches Ok(x) && x as int == c),
        order(a@, b@) matches Err(k) ==> (r matches Err(e) && e.spec_kind() == k),
{
    match (a, b) {
        (Value::Int(x), Value::Int(y)) => Ok(
            if *x < *y {
                -1
            } else if *x > *y {
                1
            } else {
                0
            },
        ),
        _ => {
            if is_num(a) && is_num(b) {
                return Err(conversion_error("non-integral numbers cannot be compared"));
            }
            match (scalar_text(a), scalar_text(b)) {
                (Some(s), Some(t)) => {
                    let cs = chars_of(s.as_str());
                    let ct = chars_of(t.as_str());
                    Ok(lex_compare(&cs, &ct))
                },
                _ => Err(op_error("composite values cannot be compared")),
            }
        },
    }
}

/// The integer that an operand of arithmetic stands for.
pub fn num_value(x: &Value) -> (r: Result<i128, DataFakeError>)
    ensures
        num_of(x@) matches Ok(n) ==> (r matches Ok(m) && m as int == n),
        num_of(x@) matches Err(k) ==> (r matches Err(e) && e.spec_kind() == k),
{
    match x {
        Value::Int(n) => {
            if crate::value::INT_MIN <= *n && *n <= crate::value::INT_MAX {
                Ok(*n)
            } else {
                Err(conversion_error("number out of range"))
            }
        },
        Value::Float(_) => Err(conversion_error("non-integral numbers are not computed with")),
        _ => Err(op_error("arithmetic on a value that is not a number")),
    }
}

pub proof fn lemma_trunc(a: int, b: int)
    requires
        b != 0,
    ensures
        trunc_rem(a, b) == (if a < 0 { -((abs(a) % abs(b)) as int) } else { (abs(a) % abs(b)) as int }),
{
    let q = (abs(a) / abs(b)) as int;
    let r = (abs(a) % abs(b)) as int;
    vstd::arithmetic::div_mod::lemma_fundamental_div_mod(abs(a) as int, abs(b) as int);
    assert(abs(a) as int == abs(b) as int * q + r);
    if a < 0 {
        if b < 0 {
            assert(trunc_div(a, b) == q);
            assert(b * q == -(abs(b) * q)) by (nonlinear_arith)
                requires b < 0, abs(b) == -b;
        } else {
            assert(trunc_div(a, b) == -q);
            assert(b * (-q) == -(abs(b) * q)) by (nonlinear_arith)
                requires b > 0, abs(b) == b;
        }
    } else {
        if b < 0 {
            assert(trunc_div(a, b) == -q);
            assert(b * (-q) == abs(b) * q) by (nonlinear_arith)
                requires b < 0, abs(b) == -b;
        } else {
            assert(trunc_div(a, b) == q);
        }
    }
}

/// One step of an arithmetic fold.
pub fn arith_step_exec(op: Op, acc: i128, x: &Value) -> (r: Result<i128, DataFakeError>)
    requires
        int_in_range(acc as int),
        op is Add || op is Sub || op is Mul || op is Div || op is Mod,
    ensures
        arith_step(op, acc as int, x@) matches Ok(n) ==> (r matches Ok(m) && m as int == n),
        arith_step(op, acc as int, x@) matches Err(k) ==> (r matches Err(e) && e.spec_kind() == k),
{
    let y = num_value(x)?;
    let v: i128 = match op {
        Op::Add => acc + y,
        Op::Sub => acc - y,
        Op::Mul => match acc.checked_mul(y) {
            Some(p) => p,
            None => {
                return Err(conversion_error("product out of range"));
            },
        },
        _ => {
            if y == 0 {
                return Err(conversion_error("division by zero"));
            }
            let ua: u128 = if acc < 0 { (-acc) as u128 } else { acc as u128 };
            let ub: u128 = if y < 0 { (-y) as u128 } else { y as u128 };
            let q: u128 = ua / ub;
            let rem: u128 = ua % ub;
            proof {
                lemma_trunc(acc as int, y as int);
                assert(ua as int == abs(acc as int));
                assert(ub as int == abs(y as int));
                assert(q <= ua) by (nonlinear_arith)
                    requires ub >= 1, q == ua / ub;
            }
            if op == Op::Div {
                if rem != 0 {
                    return Err(conversion_error("division leaves a remainder"));
                }
                if (acc < 0) != (y < 0) {
                    -(q as i128)
                } else {
                    q as i128
                }
            } else {
                if acc < 0 {
                    -(rem as i128)
                } else {
                    rem as i128
                }
            }
        },
    };
    if crate::value::INT_MIN <= v && v <= crate::value::INT_MAX {
        Ok(v)
    } else {
        Err(conversion_error("result out of range"))
    }
}

pub proof fn lemma_arith_stuck(op: Op, args: Seq<Json>, i: int, k: int)
    requires
        1 <= i <= k,
        arith_fold(op, args, i) is Err,
    ensures
        arith_fold(op, args, k) == arith_fold(op, args, i),
    decreases k - i,
{
    if k > i {
        lemma_arith_stuck(op, args, i, k - 1);
    }
}

/// Arithmetic over evaluated arguments.
pub fn arith_exec(op: Op, args: &Vec<Value>) -> (r: Result<Value, DataFakeError>)
    requires
        op is Add || op is Sub || op is Mul || op is Div || op is Mod,
    ensures
        outcome(r) == arith(op, views(args@)),
{
    let ghost va = views(args@);
    let n = args.len();
    if op == Op::Sub && n == 0 {
        return Err(op_error("- takes at least one operand"));
    }
    if (op == Op::Div || op == Op::Mod) && n < 2 {
        return Err(op_error("/ and % take at least two operands"));
    }
    if op == Op::Sub && n == 1 {
        assert(va[0] == args@[0]@);
        let x = num_value(&args[0])?;
        let v = -x;
        if crate::value::INT_MIN <= v && v <= crate::value::INT_MAX {
            return Ok(Value::Int(v));
        } else {
            return Err(conversion_error("result out of range"));
        }
    }
    let mut acc: i128 = if op == Op::Mul { 1 } else { 0 };
    let mut i: usize = 0;
    if !(op == Op::Add || op == Op::Mul) {
        assert(va[0] == args@[0]@);
        assert(argn(va, 0) == va[0]);
        match num_value(&args[0]) {
            Ok(x) => {
                acc = x;
            },
            Err(e) => {
                proof {
                    lemma_arith_stuck(op, va, 1, n as int);
                }
                return Err(e);
            },
        }
        i = 1;
    }
    while i < n
        invariant
            n == args.len(),
            va == views(args@),
            0 <= i <= n,
            op is Add || op is Sub || op is Mul || op is Div || op is Mod,
            !(op is Add || op is Mul) ==> i >= 1,
            arith_fold(op, va, i as int) == Ok::<int, ErrorKind>(acc as int),
            int_in_range(acc as int),
        decreases n - i,
    {
        assert(argn(va, i as int) == args@[i as int]@);
        let step = arith_step_exec(op, acc, &args[i]);
        match step {
            Ok(v) => {
                acc = v;
            },
            Err(e) => {
                proof {
                    lemma_arith_stuck(op, va, i + 1, n as int);
                }
                return Err(e);
            },
        }
        i = i + 1;
    }
    Ok(Value::Int(acc))
}

pub proof fn lemma_extreme_stuck(is_max: bool, args: Seq<Json>, i: int, k: int)
    requires
        1 <= i <= k,
        extreme_fold(is_max, args, i) is Err,
    ensures
        extreme_fold(is_max, args, k) == extreme_fold(is_max, args, i),
    decreases k - i,
{
    if k > i {
        lemma_extreme_stuck(is_max, args, i, k - 1);
    }
}

/// The least or greatest of at least one evaluated argument.
pub fn extreme_exec(is_max: bool, args: &Vec<Value>) -> (r: Result<i128, DataFakeError>)
    requires
        args.len() >= 1,
    ensures
        extreme_fold(is_max, views(args@), args.len() as int) matches Ok(n) ==> (r matches Ok(m) && m as int == n),
        extreme_fold(is_max, views(args@), args.len() as int) matches Err(k) ==> (r matches Err(e) && e.spec_kind() == k),
{
    let ghost va = views(args@);
    assert(argn(va, 0) == args@[0]@);
    let mut acc: i128 = 0;
    match num_value(&args[0]) {
        Ok(x) => {
            acc = x;
        },
        Err(e) => {
            proof {
                lemma_extreme_stuck(is_max, va, 1, args.len() as int);
            }
            return Err(e);
        },
    }
    let mut i: usize = 1;
    while i < args.len()
        invariant
            va == views(args@),
            1 <= i <= args.len(),
            extreme_fold(is_max, va, i as int) == Ok::<int, ErrorKind>(acc as int),
        decreases args.len() - i,
    {
        assert(argn(va, i as int) == args@[i as int]@);
        match num_value(&args[i]) {
            Ok(y) => {
                if is_max {
                    if y > acc {
                        acc = y;
                    }
                } else {
                    if y < acc {
                        acc = y;
                    }
                }
            },
            Err(e) => {
                proof {
                    lemma_extreme_stuck(is_max, va, i + 1, args.len() as int);
                }
                return Err(e);
            },
        }
        i = i + 1;
    }
    Ok(acc)
}

pub proof fn lemma_cat_stuck(args: Seq<Json>, i: int, k: int)
    requires
        0 <= i <= k,
        cat_fold(args, i) is Err,
    ensures
        cat_fold(args, k) == cat_fold(args, i),
    decreases k - i,
{
    if k > i {
        lemma_cat_stuck(args, i, k - 1);
    }
}

/// The concatenated texts of the evaluated arguments.
pub fn cat_exec(args: &Vec<Value>) -> (r: Result<String, DataFakeError>)
    ensures
        cat_fold(views(args@), args.len() as int) matches Ok(t) ==> (r matches Ok(s) && s@ == t),
        cat_fold(views(args@), args.len() as int) matches Err(k) ==> (r matches Err(e) && e.spec_kind() == k),
{
    let ghost va = views(args@);
    let mut s = String::new();
    let mut i: usize = 0;
    while i < args.len()
        invariant
            va == views(args@),
            i <= args.len(),
            cat_fold(va, i as int) == Ok::<Seq<char>, ErrorKind>(s@),
        decreases args.len() - i,
    {
        assert(argn(va, i as int) == args@[i as int]@);
        match scalar_text(&args[i]) {
            Some(t) => {
                s.append(t.as_str());
            },
            None => {
                proof {
                    lemma_cat_stuck(va, i + 1, args.len() as int);
                }
                return Err(op_error("cat takes scalar operands"));
            },
        }
        i = i + 1;
    }
    Ok(s)
}

/// The evaluated arguments with arrays spliced in one level deep.
pub fn merge_exec(args: &Vec<Value>) -> (r: Vec<Value>)
    ensures
        views(r@) == merge_fold(views(args@), args.len() as int),
{
    let ghost va = views(args@);
    let mut out: Vec<Value> = Vec::new();
    let mut i: usize = 0;
    while i < args.len()
        invariant
            va == views(args@),
            i <= args.len(),
            views(out@) == merge_fold(va, i as int),
        decreases args.len() - i,
    {
        assert(argn(va, i as int) == args@[i as int]@);
        match &args[i] {
            Value::Array(xs) => {
                proof {
                    lemma_array_view(*xs);
                }
                let ghost before = views(out@);
                let mut k: usize = 0;
                while k < xs.len()
                    invariant
                        k <= xs.len(),
                        views(out@) == before + views(xs@).subrange(0, k as int),
                    decreases xs.len() - k,
                {
                    let c = xs[k].deep_clone();
                    let ghost prev = out@;
                    out.push(c);
                    assert(views(out@) =~= views(prev).push(xs@[k as int]@));
                    assert(views(xs@).subrange(0, k + 1) =~= views(xs@).subrange(0, k as int).push(xs@[k as int]@));
                    k = k + 1;
                    assert(views(out@) =~= before + views(xs@).subrange(0, k as int));
                }
                assert(views(xs@).subrange(0, k as int) =~= views(xs@));
            },
            _ => {
                let ghost before = views(out@);
                let c = args[i].deep_clone();
                let ghost prev = out@;
                out.push(c);
                assert(views(out@) =~= views(prev).push(c@));
                assert(views(out@) =~= before.push(args@[i as int]@));
            },
        }
        i = i + 1;
    }
    out
}

/// Whether `t` occurs in `s`.
pub fn contains_chars(s: &Vec<char>, t: &Vec<char>) -> (r: bool)
    ensures
        r == contains_seq(s@, t@),
{
    if t.len() > s.len() {
        return false;
    }
    let last = s.len() - t.len();
    let mut i: usize = 0;
    while i <= last
        invariant
            last == s.len() - t.len(),
            t.len() <= s.len(),
            forall|p: int| 0 <= p < i ==> #[trigger] s@.subrange(p, p + t.len()) != t@,
        decreases last + 1 - i,
    {
        let mut k: usize = 0;
        let mut same = true;
        assert(s@.subrange(i as int, i as int) =~= t@.subrange(0, 0));
        while k < t.len()
            invariant
                i <= last,
                last == s.len() - t.len(),
                k <= t.len(),
                same == (s@.subrange(i as int, i + k) == t@.subrange(0, k as int)),
            decreases t.len() - k,
        {
            if s[i + k] != t[k] {
                same = false;
            }
            proof {
                assert(s@.subrange(i as int, i + k + 1) =~= s@.subrange(i as int, i + k).push(s@[i + k]));
                assert(t@.subrange(0, k + 1) =~= t@.subrange(0, k as int).push(t@[k as int]));
                if s@.subrange(i as int, i + k + 1) == t@.subrange(0, k + 1) {
                    assert(s@.subrange(i as int, i + k + 1)[k as int] == t@.subrange(0, k + 1)[k as int]);
                    assert(s@.subrange(i as int, i + k) =~= s@.subrange(i as int, i + k + 1).drop_last());
                    assert(t@.subrange(0, k as int) =~= t@.subrange(0, k + 1).drop_last());
                }
            }
            k = k + 1;
        }
        assert(t@.subrange(0, t.len() as int) =~= t@);
        if same {
            assert(s@.subrange(i as int, i + t.len()) == t@);
            return true;
        }
        if i == last {
            assert forall|p: int| 0 <= p && p + t.len() <= s.len() implies #[trigger] s@.subrange(p, p + t.len()) != t@ by {
                assert(p < i + 1);
            }
            assert(!contains_seq(s@, t@));
            return false;
        }
        i = i + 1;
    }
    false
}

/// Membership of a value in a string or an array.
pub fn member_exec(a: &Value, b: &Value) -> (r: Result<bool, DataFakeError>)
    ensures
        member(a@, b@) matches Ok(x) ==> (r matches Ok(y) && y == x),
        member(a@, b@) matches Err(k) ==> (r matches Err(e) && e.spec_kind() == k),
{
    match b {
        Value::Str(s) => match scalar_text(a) {
            Some(t) => {
                let cs = chars_of(s.as_str());
                let ct = chars_of(t.as_str());
                Ok(contains_chars(&cs, &ct))
            },
            None => Err(op_error("in takes a scalar to look for in a string")),
        },
        Value::Array(xs) => {
            proof {
                lemma_array_view(*xs);
            }
            let mut i: usize = 0;
            while i < xs.len()
                invariant
                    b@ == Json::Array(views(xs@)),
                    i <= xs.len(),
                    forall|k: int| 0 <= k < i ==> views(xs@)[k] != a@,
                decreases xs.len() - i,
            {
                if values_equal(&xs[i], a) {
                    assert(views(xs@)[i as int] == a@);
                    return Ok(true);
                }
                i = i + 1;
            }
            Ok(false)
        },
        _ => Ok(false),
    }
}

/// The operator that a key names, if any.
pub fn op_from_name(k: &str) -> (r: Option<Op>)
    ensures
        r == op_of(k@),
{
    let c = chars_of(k);
    if chars_eq(&c, &chars_of("var")) {
        return Some(Op::Var);
    }
    if chars_eq(&c, &chars_of("==")) {
        return Some(Op::Eq);
    }
    if chars_eq(&c, &chars_of("!=")) {
        return Some(Op::Ne);
    }
    if chars_eq(&c, &chars_of("===")) {
        return Some(Op::StrictEq);
    }
    if chars_eq(&c, &chars_of("!==")) {
        return Some(Op::StrictNe);
    }
    if chars_eq(&c, &chars_of("!")) {
        return Some(Op::Not);
    }
    if chars_eq(&c, &chars_of("!!")) {
        return Some(Op::NotNot);
    }
    if chars_eq(&c, &chars_of("or")) {
        return Some(Op::Or);
    }
    if chars_eq(&c, &chars_of("and")) {
        return Some(Op::And);
    }
    if chars_eq(&c, &chars_of("?:")) {
        return Some(Op::Ternary);
    }
    if chars_eq(&c, &chars_of("if")) {
        return Some(Op::If);
    }
    if chars_eq(&c, &chars_of(">")) {
        return Some(Op::Gt);
    }
    if chars_eq(&c, &chars_of(">=")) {
        return Some(Op::Ge);
    }
    if chars_eq(&c, &chars_of("<")) {
        return Some(Op::Lt);
    }
    if chars_eq(&c, &chars_of("<=")) {
        return Some(Op::Le);
    }
    if chars_eq(&c, &chars_of("max")) {
        return Some(Op::Max);
    }
    if chars_eq(&c, &chars_of("min")) {
        return Some(Op::Min);
    }
    if chars_eq(&c, &chars_of("+")) {
        return Some(Op::Add);
    }
    if chars_eq(&c, &chars_of("-")) {
        return Some(Op::Sub);
    }
    if chars_eq(&c, &chars_of("*")) {
        return Some(Op::Mul);
    }
    if chars_eq(&c, &chars_of("/")) {
        return Some(Op::Div);
    }
    if chars_eq(&c, &chars_of("%")) {
        return Some(Op::Mod);
    }
    if chars_eq(&c, &chars_of("map")) {
        return Some(Op::MapEach);
    }
    if chars_eq(&c, &chars_of("filter")) {
        return Some(Op::Filter);
    }
    if chars_eq(&c, &chars_of("reduce")) {
        return Some(Op::Reduce);
    }
    if chars_eq(&c, &chars_of("all")) {
        return Some(Op::All);
    }
    if chars_eq(&c, &chars_of("none")) {
        return Some(Op::NoneOf);
    }
    if chars_eq(&c, &chars_of("some")) {
        return Some(Op::SomeOf);
    }
    if chars_eq(&c, &chars_of("merge")) {
        return Some(Op::Merge);
    }
    if chars_eq(&c, &chars_of("in")) {
        return Some(Op::In);
    }
    if chars_eq(&c, &chars_of("cat")) {
        return Some(Op::Cat);
    }
    if chars_eq(&c, &chars_of("substr")) {
        return Some(Op::Substr);
    }
    if chars_eq(&c, &chars_of("log")) {
        return Some(Op::Log);
    }
    if chars_eq(&c, &chars_of("method")) {
        return Some(Op::Method);
    }
    if chars_eq(&c, &chars_of("preserve")) {
        return Some(Op::Preserve);
    }
    if chars_eq(&c, &chars_of("missing")) {
        return Some(Op::Missing);
    }
    if chars_eq(&c, &chars_of("missing_some")) {
        return Some(Op::MissingSome);
    }
    if chars_eq(&c, &chars_of("fake")) {
        return Some(Op::Fake);
    }
    None
}

} // verus!
