//! Proved laws of the interpreter, stated over the ghost semantics.

use vstd::prelude::*;

use crate::env::env_define;
use crate::env::env_extend;
use crate::env::env_lookup;
use crate::env::st_wf;
use crate::env::FrameV;
use crate::objects::ObjV;
use crate::semantics::eval_args_spec;
use crate::semantics::eval_atom_spec;
use crate::semantics::eval_binop_spec;
use crate::semantics::eval_call_spec;
use crate::semantics::eval_car_spec;
use crate::semantics::eval_cdr_spec;
use crate::semantics::eval_cons_spec;
use crate::semantics::eval_data_spec;
use crate::semantics::eval_define_spec;
use crate::semantics::eval_if_spec;
use crate::semantics::eval_list_spec;
use crate::semantics::eval_obj_spec;
use crate::semantics::eval_progn_spec;
use crate::semantics::fits_i64;
use crate::semantics::is_atomic;
use crate::semantics::is_binop_sym;

verus! {

/// The keyword and operator literals are pairwise distinct where the
/// dispatch needs it.
proof fn lemma_distinct_keywords()
    ensures
        !is_binop_sym("define"@),
        !is_binop_sym("if"@),
        !is_binop_sym("lambda"@),
        !is_binop_sym("atom"@),
        !is_binop_sym("quote"@),
        "if"@ != "define"@,
        "lambda"@ != "define"@,
        "lambda"@ != "if"@,
        "atom"@ != "define"@,
        "atom"@ != "if"@,
        "atom"@ != "lambda"@,
        "quote"@ != "define"@,
        "quote"@ != "if"@,
        "quote"@ != "lambda"@,
        "quote"@ != "atom"@,
        "+"@ != "-"@,
        "+"@ != "*"@,
        "+"@ != "/"@,
        "-"@ != "*"@,
        "-"@ != "/"@,
        "*"@ != "/"@,
{
    broadcast use vstd::string::group_string_axioms;

    reveal_strlit("+");
    reveal_strlit("-");
    reveal_strlit("*");
    reveal_strlit("/");
    reveal_strlit("<");
    reveal_strlit(">");
    reveal_strlit("==");
    reveal_strlit("!=");
    reveal_strlit("define");
    reveal_strlit("if");
    reveal_strlit("lambda");
    reveal_strlit("atom");
    reveal_strlit("quote");
    assert("+"@[0] == '+');
    assert("-"@[0] == '-');
    assert("*"@[0] == '*');
    assert("/"@[0] == '/');
    assert("<"@[0] == '<');
    assert(">"@[0] == '>');
    assert("=="@[0] == '=');
    assert("!="@[0] == '!');
    assert("if"@[0] == 'i');
    assert("lambda"@[0] == 'l');
    assert("atom"@[0] == 'a');
    assert("quote"@[0] == 'q');
    assert("define"@[0] == 'd');
    assert("+"@.len() == 1);
    assert("-"@.len() == 1);
    assert("*"@.len() == 1);
    assert("/"@.len() == 1);
    assert("<"@.len() == 1);
    assert(">"@.len() == 1);
    assert("=="@.len() == 2);
    assert("!="@.len() == 2);
    assert("if"@.len() == 2);
    assert("define"@.len() == 6);
    assert("lambda"@.len() == 6);
    assert("atom"@.len() == 4);
    assert("quote"@.len() == 5);
}

/// The list form `(op a b)`.
pub open spec fn binop_form(op: Seq<char>, a: i64, b: i64) -> ObjV {
    ObjV::List(seq![ObjV::Symbol(op), ObjV::Integer(a as int), ObjV::Integer(b as int)])
}

/// The arithmetic forms compute the exact mathematical result: whenever the
/// exact sum, difference or product of two 64-bit integers is itself
/// representable, the form yields exactly it and leaves the chain untouched;
/// division by zero is a failure, never a value.
pub proof fn lemma_arith_exact(op: Seq<char>, a: i64, b: i64, st: Seq<FrameV>, f: int, fuel: nat)
    requires
        fuel >= 2,
    ensures
        op == "+"@ && fits_i64(a + b) ==> eval_obj_spec(binop_form(op, a, b), st, f, fuel) == (
        Ok::<ObjV, ()>(ObjV::Integer(a + b)),
        st,
        ),
        op == "-"@ && fits_i64(a - b) ==> eval_obj_spec(binop_form(op, a, b), st, f, fuel) == (
        Ok::<ObjV, ()>(ObjV::Integer(a - b)),
        st,
        ),
        op == "*"@ && fits_i64(a * b) ==> eval_obj_spec(binop_form(op, a, b), st, f, fuel) == (
        Ok::<ObjV, ()>(ObjV::Integer(a * b)),
        st,
        ),
        op == "/"@ && b == 0 ==> eval_obj_spec(binop_form(op, a, b), st, f, fuel).0 is Err
            && eval_obj_spec(binop_form(op, a, b), st, f, fuel).1 == st,
{
    lemma_distinct_keywords();
    reveal_with_fuel(eval_obj_spec, 3);
}

/// The list form `(if c t e)`.
pub open spec fn if_form(c: ObjV, t: ObjV, e: ObjV) -> ObjV {
    ObjV::List(seq![ObjV::Symbol("if"@), c, t, e])
}

/// `if` evaluates exactly one branch: once the condition has evaluated to a
/// truth value, the whole form behaves as the taken branch alone, evaluated
/// in the chain the condition left behind. The untaken branch contributes
/// nothing — no value, no binding, no failure.
pub proof fn lemma_if_short_circuit(
    c: ObjV,
    t: ObjV,
    e: ObjV,
    st: Seq<FrameV>,
    f: int,
    fuel: nat,
)
    requires
        fuel >= 1,
    ensures
        ({
            let s1 = eval_obj_spec(c, st, f, (fuel - 1) as nat);
            &&& (s1.0 == Ok::<ObjV, ()>(ObjV::Bool(true)) ==> eval_obj_spec(
                if_form(c, t, e),
                st,
                f,
                fuel,
            ) == eval_obj_spec(t, s1.1, f, (fuel - 1) as nat))
            &&& (s1.0 == Ok::<ObjV, ()>(ObjV::Bool(false)) ==> eval_obj_spec(
                if_form(c, t, e),
                st,
                f,
                fuel,
            ) == eval_obj_spec(e, s1.1, f, (fuel - 1) as nat))
        }),
{
    lemma_distinct_keywords();
    reveal_with_fuel(eval_obj_spec, 3);
}

/// The list form `(quote x)`.
pub open spec fn quote_form(x: ObjV) -> ObjV {
    ObjV::List(seq![ObjV::Symbol("quote"@), x])
}

/// `quote` yields its operand completely unevaluated, whatever the operand
/// is, and leaves the chain untouched.
pub proof fn lemma_quote_literal(x: ObjV, st: Seq<FrameV>, f: int, fuel: nat)
    requires
        fuel >= 1,
    ensures
        eval_obj_spec(quote_form(x), st, f, fuel) == (Ok::<ObjV, ()>(x), st),
{
    lemma_distinct_keywords();
    reveal_with_fuel(eval_obj_spec, 3);
}

/// The list form `(atom x)`.
pub open spec fn atom_form(x: ObjV) -> ObjV {
    ObjV::List(seq![ObjV::Symbol("atom"@), x])
}

/// `atom` classifies whatever its operand evaluates to: true of `NIL`,
/// integers, truth values and symbols; false of lists and function values.
pub proof fn lemma_atom_classification(x: ObjV, st: Seq<FrameV>, f: int, fuel: nat)
    requires
        fuel >= 1,
    ensures
        ({
            let s1 = eval_obj_spec(x, st, f, (fuel - 1) as nat);
            s1.0 matches Ok(v) ==> eval_obj_spec(atom_form(x), st, f, fuel) == (
            Ok::<ObjV, ()>(ObjV::Bool(is_atomic(v))),
            s1.1,
            )
        }),
{
    lemma_distinct_keywords();
    reveal_with_fuel(eval_obj_spec, 3);
}

/// What evaluation may do to the chain, seen from frame `f`: it may bind in
/// `f` and hang new frames at the end, but every other existing frame is
/// left exactly as it was, and no frame's parent ever changes.
pub open spec fn frames_preserved(st: Seq<FrameV>, st2: Seq<FrameV>, f: int) -> bool {
    &&& st.len() <= st2.len()
    &&& st_wf(st2)
    &&& forall|g: int| 0 <= g < st.len() && g != f ==> st2[g] == st[g]
    &&& 0 <= f < st.len() ==> st2[f].parent == st[f].parent
}

/// Binding in one frame touches nothing else.
proof fn lemma_define_preserved(st: Seq<FrameV>, f: int, name: Seq<char>, v: ObjV)
    requires
        st_wf(st),
        0 <= f < st.len(),
    ensures
        frames_preserved(st, env_define(st, f, name, v), f),
        env_define(st, f, name, v).len() == st.len(),
{
    let st2 = env_define(st, f, name, v);
    assert forall|i: int| 0 <= i < st2.len() implies match (#[trigger] st2[i]).parent {
        Some(p) => 0 <= p < i,
        None => true,
    } by {
        assert(st2[i].parent == st[i].parent);
    }
}

/// A fresh frame under a valid parent keeps the chain well-formed.
proof fn lemma_extend_preserved(st: Seq<FrameV>, f: int)
    requires
        st_wf(st),
        0 <= f < st.len(),
    ensures
        st_wf(env_extend(st, f)),
        env_extend(st, f).len() == st.len() + 1,
        forall|g: int| 0 <= g < st.len() ==> env_extend(st, f)[g] == st[g],
{
    let st2 = env_extend(st, f);
    assert forall|i: int| 0 <= i < st2.len() implies match (#[trigger] st2[i]).parent {
        Some(p) => 0 <= p < i,
        None => true,
    } by {
        if i < st.len() {
            assert(st2[i] == st[i]);
        }
    }
}

/// Evaluating any expression in frame `f` preserves every other existing
/// frame (see [`frames_preserved`]).
pub proof fn lemma_eval_obj_frames(o: ObjV, st: Seq<FrameV>, f: int, fuel: nat)
    requires
        st_wf(st),
        0 <= f < st.len(),
    ensures
        frames_preserved(st, eval_obj_spec(o, st, f, fuel).1, f),
    decreases fuel, 9int, 0int,
{
    if fuel != 0 {
        match o {
            ObjV::List(items) => lemma_eval_list_frames(items, st, f, fuel),
            _ => {},
        }
    }
}

proof fn lemma_eval_list_frames(items: Seq<ObjV>, st: Seq<FrameV>, f: int, fuel: nat)
    requires
        st_wf(st),
        0 <= f < st.len(),
    ensures
        frames_preserved(st, eval_list_spec(items, st, f, fuel).1, f),
    decreases fuel, 8int, 0int,
{
    if items.len() == 0 {
        return ;
    }
    match items[0] {
        ObjV::Symbol(s) => {
            if is_binop_sym(s) {
                lemma_binop_frames(items, st, f, fuel);
            } else if s == "define"@ {
                lemma_define_frames(items, st, f, fuel);
            } else if s == "if"@ {
                lemma_if_frames(items, st, f, fuel);
            } else if s == "lambda"@ {
            } else if s == "atom"@ {
                lemma_one_operand_frames(items, st, f, fuel);
            } else if s == "quote"@ {
            } else if s == "cons"@ {
                lemma_cons_frames(items, st, f, fuel);
            } else if s == "car"@ {
                lemma_car_frames(items, st, f, fuel);
            } else if s == "cdr"@ {
                lemma_one_operand_frames(items, st, f, fuel);
            } else if s == "progn"@ {
                lemma_progn_frames(items, 1, st, f, fuel);
            } else {
                lemma_call_frames(s, items, st, f, fuel);
            }
        },
        _ => lemma_data_frames(items, 0, Seq::empty(), st, f, fuel),
    }
}

proof fn lemma_binop_frames(items: Seq<ObjV>, st: Seq<FrameV>, f: int, fuel: nat)
    requires
        st_wf(st),
        0 <= f < st.len(),
    ensures
        frames_preserved(st, eval_binop_spec(items, st, f, fuel).1, f),
    decreases fuel, 7int, 0int,
{
    if fuel == 0 || items.len() != 3 {
        return ;
    }
    lemma_eval_obj_frames(items[1], st, f, (fuel - 1) as nat);
    let s1 = eval_obj_spec(items[1], st, f, (fuel - 1) as nat);
    match s1.0 {
        Ok(ObjV::Integer(_)) => {
            lemma_eval_obj_frames(items[2], s1.1, f, (fuel - 1) as nat);
        },
        _ => {},
    }
}

proof fn lemma_define_frames(items: Seq<ObjV>, st: Seq<FrameV>, f: int, fuel: nat)
    requires
        st_wf(st),
        0 <= f < st.len(),
    ensures
        frames_preserved(st, eval_define_spec(items, st, f, fuel).1, f),
    decreases fuel, 7int, 0int,
{
    if fuel == 0 || items.len() != 3 {
        return ;
    }
    match items[1] {
        ObjV::Symbol(name) => {
            lemma_eval_obj_frames(items[2], st, f, (fuel - 1) as nat);
            let s1 = eval_obj_spec(items[2], st, f, (fuel - 1) as nat);
            match s1.0 {
                Ok(v) => {
                    lemma_define_preserved(s1.1, f, name, v);
                },
                Err(_) => {},
            }
        },
        _ => {},
    }
}

proof fn lemma_if_frames(items: Seq<ObjV>, st: Seq<FrameV>, f: int, fuel: nat)
    requires
        st_wf(st),
        0 <= f < st.len(),
    ensures
        frames_preserved(st, eval_if_spec(items, st, f, fuel).1, f),
    decreases fuel, 7int, 0int,
{
    if fuel == 0 || items.len() != 4 {
        return ;
    }
    lemma_eval_obj_frames(items[1], st, f, (fuel - 1) as nat);
    let s1 = eval_obj_spec(items[1], st, f, (fuel - 1) as nat);
    match s1.0 {
        Ok(ObjV::Bool(b)) => {
            if b {
                lemma_eval_obj_frames(items[2], s1.1, f, (fuel - 1) as nat);
            } else {
                lemma_eval_obj_frames(items[3], s1.1, f, (fuel - 1) as nat);
            }
        },
        _ => {},
    }
}

/// Covers `atom` and `cdr`, whose single operand is evaluated once.
proof fn lemma_one_operand_frames(items: Seq<ObjV>, st: Seq<FrameV>, f: int, fuel: nat)
    requires
        st_wf(st),
        0 <= f < st.len(),
    ensures
        frames_preserved(st, eval_atom_spec(items, st, f, fuel).1, f),
        frames_preserved(st, eval_cdr_spec(items, st, f, fuel).1, f),
    decreases fuel, 7int, 0int,
{
    if fuel == 0 || items.len() != 2 {
        return ;
    }
    lemma_eval_obj_frames(items[1], st, f, (fuel - 1) as nat);
}

proof fn lemma_cons_frames(items: Seq<ObjV>, st: Seq<FrameV>, f: int, fuel: nat)
    requires
        st_wf(st),
        0 <= f < st.len(),
    ensures
        frames_preserved(st, eval_cons_spec(items, st, f, fuel).1, f),
    decreases fuel, 7int, 0int,
{
    if fuel == 0 || items.len() != 3 {
        return ;
    }
    lemma_eval_obj_frames(items[1], st, f, (fuel - 1) as nat);
    let s1 = eval_obj_spec(items[1], st, f, (fuel - 1) as nat);
    match s1.0 {
        Ok(_) => {
            lemma_eval_obj_frames(items[2], s1.1, f, (fuel - 1) as nat);
        },
        Err(_) => {},
    }
}

proof fn lemma_car_frames(items: Seq<ObjV>, st: Seq<FrameV>, f: int, fuel: nat)
    requires
        st_wf(st),
        0 <= f < st.len(),
    ensures
        frames_preserved(st, eval_car_spec(items, st, f, fuel).1, f),
    decreases fuel, 7int, 0int,
{
    if fuel == 0 || items.len() != 2 {
        return ;
    }
    lemma_eval_obj_frames(items[1], st, f, (fuel - 1) as nat);
    let s1 = eval_obj_spec(items[1], st, f, (fuel - 1) as nat);
    match s1.0 {
        Ok(ObjV::List(l)) => {
            if l.len() != 0 {
                lemma_eval_obj_frames(l[0], s1.1, f, (fuel - 1) as nat);
            }
        },
        _ => {},
    }
}

proof fn lemma_progn_frames(items: Seq<ObjV>, i: int, st: Seq<FrameV>, f: int, fuel: nat)
    requires
        st_wf(st),
        0 <= f < st.len(),
    ensures
        frames_preserved(st, eval_progn_spec(items, i, st, f, fuel).1, f),
    decreases fuel, 7int, items.len() - i,
{
    if fuel == 0 || i < 1 || i >= items.len() {
        return ;
    }
    lemma_eval_obj_frames(items[i], st, f, (fuel - 1) as nat);
    let s1 = eval_obj_spec(items[i], st, f, (fuel - 1) as nat);
    if i != items.len() - 1 {
        lemma_progn_frames(items, i + 1, s1.1, f, fuel);
    }
}

proof fn lemma_data_frames(
    items: Seq<ObjV>,
    i: int,
    acc: Seq<ObjV>,
    st: Seq<FrameV>,
    f: int,
    fuel: nat,
)
    requires
        st_wf(st),
        0 <= f < st.len(),
    ensures
        frames_preserved(st, eval_data_spec(items, i, acc, st, f, fuel).1, f),
    decreases fuel, 7int, items.len() - i,
{
    if fuel == 0 || i < 0 || i >= items.len() {
        return ;
    }
    lemma_eval_obj_frames(items[i], st, f, (fuel - 1) as nat);
    let s1 = eval_obj_spec(items[i], st, f, (fuel - 1) as nat);
    match s1.0 {
        Ok(ObjV::Nil) => lemma_data_frames(items, i + 1, acc, s1.1, f, fuel),
        Ok(v) => lemma_data_frames(items, i + 1, acc.push(v), s1.1, f, fuel),
        Err(_) => {},
    }
}

proof fn lemma_call_frames(
    name: Seq<char>,
    items: Seq<ObjV>,
    st: Seq<FrameV>,
    f: int,
    fuel: nat,
)
    requires
        st_wf(st),
        0 <= f < st.len(),
    ensures
        frames_preserved(st, eval_call_spec(name, items, st, f, fuel).1, f),
    decreases fuel, 7int, 0int,
{
    if fuel == 0 {
        return ;
    }
    match env_lookup(st, f, name) {
        Some(ObjV::Lambda(params, body)) => {
            if params.len() + 1 == items.len() {
                lemma_extend_preserved(st, f);
                let st1 = env_extend(st, f);
                lemma_args_frames(items, params, body, 0, st1, f, st.len() as int, fuel);
                let s = eval_args_spec(items, params, body, 0, st1, f, st.len() as int, fuel);
                assert forall|g: int| 0 <= g < st.len() && g != f implies s.1[g] == st[g] by {
                    assert(st1[g] == st[g]);
                }
            }
        },
        _ => {},
    }
}

/// Argument binding and the body run touch only the caller's frame `f`, the
/// fresh frame `g`, and frames created later.
proof fn lemma_args_frames(
    items: Seq<ObjV>,
    params: Seq<Seq<char>>,
    body: Seq<ObjV>,
    i: int,
    st: Seq<FrameV>,
    f: int,
    g: int,
    fuel: nat,
)
    requires
        st_wf(st),
        0 <= f < st.len(),
        0 <= g < st.len(),
    ensures
        ({
            let s = eval_args_spec(items, params, body, i, st, f, g, fuel);
            &&& st.len() <= s.1.len()
            &&& st_wf(s.1)
            &&& forall|h: int| 0 <= h < st.len() && h != f && h != g ==> s.1[h] == st[h]
            &&& s.1[f].parent == st[f].parent
            &&& s.1[g].parent == st[g].parent
        }),
    decreases fuel, 6int, params.len() - i,
{
    if fuel == 0 {
        return ;
    }
    if i < 0 || i >= params.len() {
        lemma_eval_obj_frames(ObjV::List(body), st, g, (fuel - 1) as nat);
        return ;
    }
    lemma_eval_obj_frames(items[i + 1], st, f, (fuel - 1) as nat);
    let s1 = eval_obj_spec(items[i + 1], st, f, (fuel - 1) as nat);
    match s1.0 {
        Ok(v) => {
            lemma_define_preserved(s1.1, g, params[i], v);
            lemma_args_frames(
                items,
                params,
                body,
                i + 1,
                env_define(s1.1, g, params[i], v),
                f,
                g,
                fuel,
            );
        },
        Err(_) => {},
    }
}

/// What a chain resolves at frame `f` depends only on frames up to `f`.
proof fn lemma_lookup_depends_below(
    st: Seq<FrameV>,
    st2: Seq<FrameV>,
    f: int,
    name: Seq<char>,
)
    requires
        0 <= f < st.len(),
        st.len() <= st2.len(),
        forall|h: int| 0 <= h <= f ==> st2[h] == st[h],
    ensures
        env_lookup(st2, f, name) == env_lookup(st, f, name),
    decreases f,
{
    match st[f].parent {
        Some(p) => {
            if 0 <= p < f {
                lemma_lookup_depends_below(st, st2, p, name);
            }
        },
        None => {},
    }
}

/// Shadowing: whatever runs in a call frame `g` — `define`s included —
/// cannot alter what any older frame `f` resolves; after the call the
/// caller's bindings read exactly as before.
pub proof fn lemma_shadowing(
    o: ObjV,
    st: Seq<FrameV>,
    g: int,
    f: int,
    name: Seq<char>,
    fuel: nat,
)
    requires
        st_wf(st),
        0 <= f < g < st.len(),
    ensures
        env_lookup(eval_obj_spec(o, st, g, fuel).1, f, name) == env_lookup(st, f, name),
{
    lemma_eval_obj_frames(o, st, g, fuel);
    let st2 = eval_obj_spec(o, st, g, fuel).1;
    assert forall|h: int| 0 <= h <= f implies st2[h] == st[h] by {}
    lemma_lookup_depends_below(st, st2, f, name);
}

} // verus!
