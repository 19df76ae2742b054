use vstd::prelude::*;
use crate::config::{Fault, doc_metadata, check_config, check_node, field, field_from, parse_doc, read_doc, entries, is_numeric_method};
use crate::expr::{Ctx, Op, conforms, rel, op_rel, operands_rel, apply_rel, if_rel, if_final_rel, arg_rel, items_rel, witness, ev, ev_arg, ev_if, ev_if_pairs, ev_junction, ev_op, ev_operands, apply, op_of, argn, nargs};
use crate::operators::fake::{fake_admits, int_domain, method_of};
use crate::value::{Json, truthy};

verus! {

/// An expression node: one operator key over an operand list.
pub open spec fn expr_node(op: Seq<char>, operands: Json) -> Json {
    Json::Object(seq![op], seq![operands])
}

/// The operator keys used below name their operators.
proof fn lemma_operator_names()
    ensures
        op_of("var"@) == Some(Op::Var),
        op_of("or"@) == Some(Op::Or),
        op_of("and"@) == Some(Op::And),
        op_of("if"@) == Some(Op::If),
{
    reveal_strlit("var");
    reveal_strlit("==");
    reveal_strlit("!=");
    reveal_strlit("===");
    reveal_strlit("!==");
    reveal_strlit("!");
    reveal_strlit("!!");
    reveal_strlit("or");
    reveal_strlit("and");
    reveal_strlit("?:");
    reveal_strlit("if");
    assert("var"@.len() == 3);
    assert("var"@[0] == 'v');
    assert("var"@[1] == 'a');
    assert("=="@.len() == 2);
    assert("=="@[0] == '=');
    assert("=="@[1] == '=');
    assert("!="@.len() == 2);
    assert("!="@[0] == '!');
    assert("!="@[1] == '=');
    assert("==="@.len() == 3);
    assert("==="@[0] == '=');
    assert("==="@[1] == '=');
    assert("!=="@.len() == 3);
    assert("!=="@[0] == '!');
    assert("!=="@[1] == '=');
    assert("!"@.len() == 1);
    assert("!"@[0] == '!');
    assert("!!"@.len() == 2);
    assert("!!"@[0] == '!');
    assert("!!"@[1] == '!');
    assert("or"@.len() == 2);
    assert("or"@[0] == 'o');
    assert("or"@[1] == 'r');
    assert("and"@.len() == 3);
    assert("and"@[0] == 'a');
    assert("and"@[1] == 'n');
    assert("?:"@.len() == 2);
    assert("?:"@[0] == '?');
    assert("?:"@[1] == ':');
    assert("if"@.len() == 2);
    assert("if"@[0] == 'i');
    assert("if"@[1] == 'f');
}


/// Within one context, every reference to a variable gives the same value,
/// whatever was drawn: the value bound to the name, else `null`.
pub proof fn lemma_var_reference_outcome(ctx: Ctx, name: Seq<char>, out: Result<Json, crate::error::ErrorKind>)
    requires
        rel(expr_node("var"@, Json::Str(name)), ctx, out),
    ensures
        out == Ok::<Json, crate::error::ErrorKind>(match crate::expr::var_value(ctx, name) {
            Some(v) => v,
            None => Json::Null,
        }),
{
    lemma_operator_names();
    let j = Json::Str(name);
    assert(op_rel(Op::Var, j, ctx, out));
    assert(!operands_rel(j, ctx, Err(crate::error::ErrorKind::FakeOperator)) || true);
    match out {
        Ok(v) => {
            let args = choose|args: Seq<Json>| #[trigger] witness(args) && operands_rel(j, ctx, Ok(args)) && apply_rel(Op::Var, args, ctx, Ok(v));
            assert(args.len() == 1 && rel(j, ctx, Ok(args[0])));
            assert(args[0] == j);
            assert(argn(args, 0) == j);
            assert(argn(args, 1) == Json::Null);
        },
        Err(e) => {
            if operands_rel(j, ctx, Err(e)) {
                assert(rel(j, ctx, Err(e)));
            } else {
                let args = choose|args: Seq<Json>| #[trigger] witness(args) && operands_rel(j, ctx, Ok(args)) && apply_rel(Op::Var, args, ctx, Err(e));
                assert(args.len() == 1 && rel(j, ctx, Ok(args[0])));
                assert(args[0] == j);
                assert(argn(args, 0) == j);
            }
        },
    }
}

/// `if` evaluates only the branch that its condition selects, drawn values
/// included: with a falsy condition every outcome of the else-branch is an
/// outcome of the whole, and with a truthy one every outcome of the
/// then-branch, whatever the other branch would do.
pub proof fn lemma_if_is_lazy_for_draws(c: Json, a: Json, b: Json, ctx: Ctx, cv: Json, out: Result<Json, crate::error::ErrorKind>)
    requires
        rel(c, ctx, Ok(cv)),
        if truthy(cv) { rel(a, ctx, out) } else { rel(b, ctx, out) },
    ensures
        rel(expr_node("if"@, Json::Array(seq![c, a, b])), ctx, out),
{
    lemma_operator_names();
    let j = Json::Array(seq![c, a, b]);
    assert(nargs(j) == 3);
    assert(arg_rel(j, 0, ctx, Ok(cv)));
    assert(witness(cv));
    assert(if_rel(j, ctx, 0, Ok(None)));
    if truthy(cv) {
        assert(arg_rel(j, 1, ctx, out));
        match out {
            Ok(v) => {
                assert(if_rel(j, ctx, 1, Ok(Some(v))));
            },
            Err(e) => {
                assert(if_rel(j, ctx, 1, Err(e)));
            },
        }
    } else {
        assert(if_rel(j, ctx, 1, Ok(None)));
        assert(arg_rel(j, 2, ctx, out));
    }
    assert(if_final_rel(j, ctx, out));
}

/// A drawn integer with literal bounds lies within them, wherever the
/// generation call stands: every outcome of the call is such an integer.
pub proof fn lemma_drawn_value_in_range(key: Seq<char>, m: Seq<char>, lo: int, hi: int, ctx: Ctx, out: Json)
    requires
        op_of(key) == Some(Op::Fake),
        method_of(m) matches Some(k) && int_domain(k) is Some,
        rel(expr_node(key, Json::Array(seq![Json::Str(m), Json::Int(lo), Json::Int(hi)])), ctx, Ok(out)),
    ensures
        out matches Json::Int(v) && lo <= v <= hi,
{
    let lits = seq![Json::Str(m), Json::Int(lo), Json::Int(hi)];
    let j = Json::Array(lits);
    assert(op_rel(Op::Fake, j, ctx, Ok(out)));
    let args = choose|args: Seq<Json>| #[trigger] witness(args) && operands_rel(j, ctx, Ok(args)) && apply_rel(Op::Fake, args, ctx, Ok(out));
    assert(items_rel(lits, ctx, 3, Ok(args)));
    assert(items_rel(lits, ctx, 2, Ok(args.drop_last())));
    assert(items_rel(lits, ctx, 1, Ok(args.drop_last().drop_last())));
    let a1 = args.drop_last().drop_last();
    assert(a1.len() == 1);
    assert(items_rel(lits, ctx, 0, Ok(a1.drop_last())));
    assert(rel(lits[0], ctx, Ok(a1.last())));
    assert(lits[0] == Json::Str(m));
    assert(args.drop_last().drop_last().last() == lits[0]);
    assert(rel(lits[1], ctx, Ok(args.drop_last().last())));
    assert(lits[1] == Json::Int(lo));
    assert(args.drop_last().last() == lits[1]);
    assert(args.last() == lits[2]);
    assert(args =~= lits);
    lemma_range_law(m, lo, hi, out);
}

/// Every reference to the same variable name renders to the same value:
/// in outputs that conform to their nodes under one context, two `var`
/// expressions naming the same variable give equal values.
pub proof fn lemma_var_references_agree(ctx: Ctx, name: Seq<char>, o1: Json, o2: Json)
    requires
        conforms(expr_node("var"@, Json::Str(name)), ctx, o1),
        conforms(expr_node("var"@, Json::Str(name)), ctx, o2),
    ensures
        o1 == o2,
        o1 == (match crate::expr::var_value(ctx, name) {
            Some(v) => v,
            None => Json::Null,
        }),
{
    let node = expr_node("var"@, Json::Str(name));
    lemma_operator_names();
    let args = seq![Json::Str(name)];
    assert(ev(Json::Str(name), ctx) == Some(Ok::<Json, crate::error::ErrorKind>(Json::Str(name))));
    assert(ev_operands(Json::Str(name), ctx) == Some(Ok::<Seq<Json>, crate::error::ErrorKind>(args)));
    assert(argn(args, 0) == Json::Str(name));
    assert(argn(args, 1) == Json::Null);
    assert(ev_op(Op::Var, Json::Str(name), ctx) == apply(Op::Var, args, ctx));
    assert(ev(node, ctx) == ev_op(Op::Var, Json::Str(name), ctx));
}

/// `if` evaluates only the branch that its condition selects: with a falsy
/// condition the outcome is the else-branch's, whatever the then-branch is
/// (even one that would fail or draw at random), and with a truthy one it
/// is the then-branch's, whatever the else-branch is.
pub proof fn lemma_if_is_lazy(c: Json, a: Json, b: Json, ctx: Ctx)
    requires
        ev(c, ctx) matches Some(Ok(v)),
    ensures
        ev(expr_node("if"@, Json::Array(seq![c, a, b])), ctx) == (if truthy(ev(c, ctx)->Some_0->Ok_0) {
            ev(a, ctx)
        } else {
            ev(b, ctx)
        }),
{
    let j = Json::Array(seq![c, a, b]);
    lemma_operator_names();
    assert(nargs(j) == 3);
    assert(ev_arg(j, 0, ctx) == ev(c, ctx));
    assert(ev_arg(j, 1, ctx) == ev(a, ctx));
    assert(ev_arg(j, 2, ctx) == ev(b, ctx));
    assert(ev_if_pairs(j, ctx, 0) == Some(Ok::<Option<Json>, crate::error::ErrorKind>(None)));
    let p1 = ev_if_pairs(j, ctx, 1);
    assert(ev_if(j, ctx) == match p1 {
        Some(Ok(Some(v))) => Some(Ok(v)),
        Some(Ok(None)) => ev_arg(j, 2, ctx),
        Some(Err(e)) => Some(Err(e)),
        None => None,
    });
    assert(ev_op(Op::If, j, ctx) == ev_if(j, ctx));
    match ev(a, ctx) {
        Some(Ok(v)) => {},
        _ => {},
    }
}

/// `and` stops at its first falsy operand, whose value it gives; the
/// operands after it are not evaluated.
pub proof fn lemma_and_is_lazy(x: Json, y: Json, ctx: Ctx)
    requires
        ev(x, ctx) matches Some(Ok(v)) && !truthy(v),
    ensures
        ev(expr_node("and"@, Json::Array(seq![x, y])), ctx) == ev(x, ctx),
{
    let j = Json::Array(seq![x, y]);
    lemma_operator_names();
    assert(nargs(j) == 2);
    assert(ev_arg(j, 0, ctx) == ev(x, ctx));
    let v = ev(x, ctx)->Some_0->Ok_0;
    assert(ev_junction(j, ctx, 0, false) == Some(Ok::<(bool, Json), crate::error::ErrorKind>((false, Json::Null))));
    assert(ev_junction(j, ctx, 1, false) == Some(Ok::<(bool, Json), crate::error::ErrorKind>((true, v))));
    assert(ev_junction(j, ctx, 2, false) == ev_junction(j, ctx, 1, false));
    assert(ev_op(Op::And, j, ctx) == Some(Ok::<Json, crate::error::ErrorKind>(v)));
}

/// `or` stops at its first truthy operand, whose value it gives; the
/// operands after it are not evaluated.
pub proof fn lemma_or_is_lazy(x: Json, y: Json, ctx: Ctx)
    requires
        ev(x, ctx) matches Some(Ok(v)) && truthy(v),
    ensures
        ev(expr_node("or"@, Json::Array(seq![x, y])), ctx) == ev(x, ctx),
{
    let j = Json::Array(seq![x, y]);
    lemma_operator_names();
    assert(nargs(j) == 2);
    assert(ev_arg(j, 0, ctx) == ev(x, ctx));
    let v = ev(x, ctx)->Some_0->Ok_0;
    assert(ev_junction(j, ctx, 0, true) == Some(Ok::<(bool, Json), crate::error::ErrorKind>((false, Json::Null))));
    assert(ev_junction(j, ctx, 1, true) == Some(Ok::<(bool, Json), crate::error::ErrorKind>((true, v))));
    assert(ev_junction(j, ctx, 2, true) == ev_junction(j, ctx, 1, true));
    assert(ev_op(Op::Or, j, ctx) == Some(Ok::<Json, crate::error::ErrorKind>(v)));
}

/// Every integer drawn with explicit bounds lies within them.
pub proof fn lemma_range_law(m: Seq<char>, lo: int, hi: int, out: Json)
    requires
        method_of(m) matches Some(k) && int_domain(k) is Some,
        fake_admits(seq![Json::Str(m), Json::Int(lo), Json::Int(hi)], out),
    ensures
        out matches Json::Int(v) && lo <= v <= hi,
{
    let args = seq![Json::Str(m), Json::Int(lo), Json::Int(hi)];
    assert(args[0]->Str_0 == m);
    assert(args[1] == Json::Int(lo));
    assert(args[2] == Json::Int(hi));
}

proof fn lemma_field_push(ks: Seq<Seq<char>>, vs: Seq<Json>, x: Seq<char>, y: Json, k: Seq<char>, i: int)
    requires
        ks.len() == vs.len(),
        0 <= i <= ks.len(),
    ensures
        field_from(ks.push(x), vs.push(y), k, i) == (match field_from(ks, vs, k, i) {
            Some(v) => Some(v),
            None => if x == k { Some(y) } else { None },
        }),
    decreases ks.len() - i,
{
    if i < ks.len() {
        assert(ks.push(x)[i] == ks[i]);
        assert(vs.push(y)[i] == vs[i]);
        lemma_field_push(ks, vs, x, y, k, i + 1);
    } else {
        assert(ks.push(x)[i] == x);
        assert(vs.push(y)[i] == y);
        assert(field_from(ks.push(x), vs.push(y), k, i + 1) is None);
    }
}

/// A document without `variables` parses exactly as the same document with
/// an empty `variables` object.
pub proof fn lemma_absent_variables(ks: Seq<Seq<char>>, vs: Seq<Json>)
    requires
        ks.len() == vs.len(),
        field(ks, vs, "variables"@) is None,
    ensures
        parse_doc(Json::Object(ks, vs)) == parse_doc(
            Json::Object(ks.push("variables"@), vs.push(Json::Object(Seq::empty(), Seq::empty()))),
        ),
        doc_metadata(Json::Object(ks, vs)) == doc_metadata(
            Json::Object(ks.push("variables"@), vs.push(Json::Object(Seq::empty(), Seq::empty()))),
        ),
{
    reveal_strlit("variables");
    reveal_strlit("schema");
    reveal_strlit("metadata");
    let e = Json::Object(Seq::empty(), Seq::empty());
    lemma_field_push(ks, vs, "variables"@, e, "schema"@, 0);
    lemma_field_push(ks, vs, "variables"@, e, "variables"@, 0);
    lemma_field_push(ks, vs, "variables"@, e, "metadata"@, 0);
    assert(entries(Seq::empty(), Seq::empty()) =~= Seq::<(Seq<char>, Json)>::empty());
    assert("variables"@.len() == 9);
    assert("schema"@.len() == 6);
    assert("metadata"@.len() == 8);
    assert("variables"@ != "schema"@);
    assert("variables"@ != "metadata"@);
    let ks2 = ks.push("variables"@);
    let vs2 = vs.push(e);
    assert(field(ks2, vs2, "schema"@) == field(ks, vs, "schema"@));
    assert(field(ks2, vs2, "metadata"@) == field(ks, vs, "metadata"@));
    assert(field(ks2, vs2, "variables"@) == Some(e));
    assert(read_doc(Json::Object(ks, vs)) == read_doc(Json::Object(ks.push("variables"@), vs.push(e))));
}

/// A configuration that parsing accepted passes validation again.
pub proof fn lemma_revalidation_accepts(doc: Json)
    requires
        parse_doc(doc) is Ok,
    ensures
        check_config(parse_doc(doc)->Ok_0.0, parse_doc(doc)->Ok_0.1) is None,
{
}

/// A generation call with a numeric range whose minimum exceeds its maximum
/// is refused with that range before anything is generated.
pub proof fn lemma_reversed_range_rejected(key: Seq<char>, m: Seq<char>, lo: int, hi: int)
    requires
        key.len() > 0,
        key != "fake"@,
        key != "var"@,
        is_numeric_method(m),
        lo > hi,
    ensures
        parse_doc(
            Json::Object(
                seq!["schema"@],
                seq![Json::Object(seq![key], seq![expr_node("fake"@, Json::Array(seq![Json::Str(m), Json::Int(lo), Json::Int(hi)]))])],
            ),
        ) == Err::<(Ctx, Json), Fault>(Fault::Range(lo, hi)),
{
    reveal_strlit("variables");
    reveal_strlit("schema");
    reveal_strlit("metadata");
    reveal_strlit("fake");
    reveal_strlit("u8");
    reveal_strlit("u16");
    reveal_strlit("u32");
    reveal_strlit("u64");
    reveal_strlit("i8");
    reveal_strlit("i16");
    reveal_strlit("i32");
    reveal_strlit("i64");
    reveal_strlit("f32");
    reveal_strlit("f64");
    let args = Json::Array(seq![Json::Str(m), Json::Int(lo), Json::Int(hi)]);
    let call = expr_node("fake"@, args);
    let schema = Json::Object(seq![key], seq![call]);
    let doc = Json::Object(seq!["schema"@], seq![schema]);
    assert("variables"@.len() == 9);
    assert("schema"@.len() == 6);
    assert("metadata"@.len() == 8);
    assert(field(seq!["schema"@], seq![schema], "schema"@) == Some(schema));
    assert(field_from(seq!["schema"@], seq![schema], "variables"@, 1) is None);
    assert(field_from(seq!["schema"@], seq![schema], "metadata"@, 1) is None);
    assert(field(seq!["schema"@], seq![schema], "variables"@) is None);
    assert(field(seq!["schema"@], seq![schema], "metadata"@) is None);
    assert(field_from(seq![key], seq![call], "fake"@, 1) is None);
    assert(field_from(seq![key], seq![call], "var"@, 1) is None);
    assert(field(seq![key], seq![call], "fake"@) is None);
    assert(field(seq![key], seq![call], "var"@) is None);
    assert(field(seq!["fake"@], seq![args], "fake"@) == Some(args));
    assert(m.len() > 0);
    assert(check_node(call) == Some(Fault::Range(lo, hi)));
    assert(check_node(schema) == Some(Fault::Range(lo, hi)));
}

} // verus!
