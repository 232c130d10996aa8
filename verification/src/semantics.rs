//! The ghost interpreter: the mathematical meaning of evaluation.
//!
//! Evaluation threads an environment chain through every step, so each ghost
//! function yields a pair: the outcome (a value, or a failure) and the chain
//! it leaves behind. Failures carry no message at this level; the executable
//! interpreter chooses the wording.
//!
//! Every function takes a `fuel` bound on the depth of nested evaluations and
//! fails when it runs out; the executable interpreter starts each top-level
//! evaluation with [`EVAL_BUDGET`]. A user program that recurses without a
//! base case therefore ends in an error instead of exhausting the native
//! stack. Walking across the operands of one form costs no fuel; only
//! descending into a nested evaluation does.

use vstd::prelude::*;

use crate::env::env_define;
use crate::env::env_extend;
use crate::env::env_lookup;
use crate::env::FrameV;
use crate::objects::ObjV;
use crate::parser::spec_parse_program;

verus! {

/// The depth budget of one top-level evaluation.
pub const EVAL_BUDGET: u64 = 1000;

/// Whether a value counts as atomic for the `atom` form: everything but
/// lists and function values.
pub open spec fn is_atomic(v: ObjV) -> bool {
    v is Nil || v is Integer || v is Bool || v is Symbol
}

/// The eight binary operator symbols.
pub open spec fn is_binop_sym(s: Seq<char>) -> bool {
    s == "+"@ || s == "-"@ || s == "*"@ || s == "/"@ || s == "<"@ || s == ">"@ || s == "=="@ || s
        == "!="@
}

/// Division truncated toward zero, as 64-bit machine division rounds.
pub open spec fn tdiv(a: int, b: int) -> int {
    if a == 0 {
        0
    } else if a > 0 && b > 0 {
        a / b
    } else if a < 0 && b < 0 {
        (a * -1) / (b * -1)
    } else if a < 0 {
        ((a * -1) / b) * -1
    } else {
        (a / (b * -1)) * -1
    }
}

/// Whether a value fits a signed 64-bit integer.
pub open spec fn fits_i64(v: int) -> bool {
    i64::MIN as int <= v && v <= i64::MAX as int
}

/// What one binary operator yields on two integer operands. Arithmetic whose
/// exact result does not fit 64 bits fails, as does division by zero.
pub open spec fn binop_value(op: Seq<char>, a: int, b: int) -> Result<ObjV, ()> {
    if op == "+"@ {
        if fits_i64(a + b) {
            Ok(ObjV::Integer(a + b))
        } else {
            Err(())
        }
    } else if op == "-"@ {
        if fits_i64(a - b) {
            Ok(ObjV::Integer(a - b))
        } else {
            Err(())
        }
    } else if op == "*"@ {
        if fits_i64(a * b) {
            Ok(ObjV::Integer(a * b))
        } else {
            Err(())
        }
    } else if op == "/"@ {
        if b == 0 {
            Err(())
        } else if fits_i64(tdiv(a, b)) {
            Ok(ObjV::Integer(tdiv(a, b)))
        } else {
            Err(())
        }
    } else if op == "<"@ {
        Ok(ObjV::Bool(a < b))
    } else if op == ">"@ {
        Ok(ObjV::Bool(a > b))
    } else if op == "=="@ {
        Ok(ObjV::Bool(a == b))
    } else if op == "!="@ {
        Ok(ObjV::Bool(a != b))
    } else {
        Err(())
    }
}

/// Whether every element is a bare symbol: the shape of a parameter list.
pub open spec fn all_symbols(ps: Seq<ObjV>) -> bool {
    forall|i: int| 0 <= i < ps.len() ==> (#[trigger] ps[i]) is Symbol
}

/// The names of a parameter list of bare symbols.
pub open spec fn sym_names(ps: Seq<ObjV>) -> Seq<Seq<char>> {
    Seq::new(ps.len(), |i: int| ps[i]->Symbol_0)
}

/// One evaluation step: a value or a failure, and the chain left behind.
/// Self-evaluating shapes pass through; a symbol resolves as
/// [`eval_symbol_spec`] says; a list dispatches on its head.
pub open spec fn eval_obj_spec(o: ObjV, st: Seq<FrameV>, f: int, fuel: nat) -> (
    Result<ObjV, ()>,
    Seq<FrameV>,
)
    decreases fuel, 9int, 0int,
{
    if fuel == 0 {
        (Err(()), st)
    } else {
        match o {
            ObjV::Nil => (Ok(o), st),
            ObjV::Integer(_) => (Ok(o), st),
            ObjV::Bool(_) => (Ok(o), st),
            ObjV::Symbol(name) => (eval_symbol_spec(name, st, f), st),
            ObjV::Lambda(_, _) => (Ok(o), st),
            ObjV::List(items) => eval_list_spec(items, st, f, fuel),
        }
    }
}

/// A symbol: `NIL`, `T` and `F` are language-level constants; anything else
/// resolves by environment lookup, and fails when unbound.
pub open spec fn eval_symbol_spec(name: Seq<char>, st: Seq<FrameV>, f: int) -> Result<ObjV, ()> {
    if name == "NIL"@ {
        Ok(ObjV::Nil)
    } else if name == "T"@ {
        Ok(ObjV::Bool(true))
    } else if name == "F"@ {
        Ok(ObjV::Bool(false))
    } else {
        match env_lookup(st, f, name) {
            Some(v) => Ok(v),
            None => Err(()),
        }
    }
}

/// A list: empty evaluates to `Nil`; a head symbol dispatches to a special
/// form or a user-function call; any other head makes it a data list.
pub open spec fn eval_list_spec(items: Seq<ObjV>, st: Seq<FrameV>, f: int, fuel: nat) -> (
    Result<ObjV, ()>,
    Seq<FrameV>,
)
    decreases fuel, 8int, 0int,
{
    if items.len() == 0 {
        (Ok(ObjV::Nil), st)
    } else {
        match items[0] {
            ObjV::Symbol(s) => if is_binop_sym(s) {
                eval_binop_spec(items, st, f, fuel)
            } else if s == "define"@ {
                eval_define_spec(items, st, f, fuel)
            } else if s == "if"@ {
                eval_if_spec(items, st, f, fuel)
            } else if s == "lambda"@ {
                (eval_lambda_spec(items), st)
            } else if s == "atom"@ {
                eval_atom_spec(items, st, f, fuel)
            } else if s == "quote"@ {
                (eval_quote_spec(items), st)
            } else if s == "cons"@ {
                eval_cons_spec(items, st, f, fuel)
            } else if s == "car"@ {
                eval_car_spec(items, st, f, fuel)
            } else if s == "cdr"@ {
                eval_cdr_spec(items, st, f, fuel)
            } else if s == "progn"@ {
                eval_progn_spec(items, 1, st, f, fuel)
            } else {
                eval_call_spec(s, items, st, f, fuel)
            },
            _ => eval_data_spec(items, 0, Seq::empty(), st, f, fuel),
        }
    }
}

/// A binary operator form: exactly two operands, each of which must evaluate
/// to an integer; the operator then yields what [`binop_value`] says.
pub open spec fn eval_binop_spec(items: Seq<ObjV>, st: Seq<FrameV>, f: int, fuel: nat) -> (
    Result<ObjV, ()>,
    Seq<FrameV>,
)
    decreases fuel, 7int, 0int,
{
    if fuel == 0 || items.len() != 3 {
        (Err(()), st)
    } else {
        let s1 = eval_obj_spec(items[1], st, f, (fuel - 1) as nat);
        match s1.0 {
            Ok(ObjV::Integer(a)) => {
                let s2 = eval_obj_spec(items[2], s1.1, f, (fuel - 1) as nat);
                match s2.0 {
                    Ok(ObjV::Integer(b)) => match items[0] {
                        ObjV::Symbol(op) => (binop_value(op, a, b), s2.1),
                        _ => (Err(()), s2.1),
                    },
                    Ok(_) => (Err(()), s2.1),
                    Err(_) => (Err(()), s2.1),
                }
            },
            Ok(_) => (Err(()), s1.1),
            Err(_) => (Err(()), s1.1),
        }
    }
}

/// `(define symbol expr)`: evaluates `expr`, binds the result to `symbol` in
/// the current frame alone, and yields `Nil`.
pub open spec fn eval_define_spec(items: Seq<ObjV>, st: Seq<FrameV>, f: int, fuel: nat) -> (
    Result<ObjV, ()>,
    Seq<FrameV>,
)
    decreases fuel, 7int, 0int,
{
    if fuel == 0 || items.len() != 3 {
        (Err(()), st)
    } else {
        match items[1] {
            ObjV::Symbol(name) => {
                let s1 = eval_obj_spec(items[2], st, f, (fuel - 1) as nat);
                match s1.0 {
                    Ok(v) => (Ok(ObjV::Nil), env_define(s1.1, f, name, v)),
                    Err(_) => (Err(()), s1.1),
                }
            },
            _ => (Err(()), st),
        }
    }
}

/// `(if cond then else)`: the condition must evaluate to a truth value, and
/// exactly one branch is then evaluated; the other is never touched.
pub open spec fn eval_if_spec(items: Seq<ObjV>, st: Seq<FrameV>, f: int, fuel: nat) -> (
    Result<ObjV, ()>,
    Seq<FrameV>,
)
    decreases fuel, 7int, 0int,
{
    if fuel == 0 || items.len() != 4 {
        (Err(()), st)
    } else {
        let s1 = eval_obj_spec(items[1], st, f, (fuel - 1) as nat);
        match s1.0 {
            Ok(ObjV::Bool(b)) => if b {
                eval_obj_spec(items[2], s1.1, f, (fuel - 1) as nat)
            } else {
                eval_obj_spec(items[3], s1.1, f, (fuel - 1) as nat)
            },
            Ok(_) => (Err(()), s1.1),
            Err(_) => (Err(()), s1.1),
        }
    }
}

/// `(lambda (params...) body)`: the parameters must be bare symbols and the
/// body a list; nothing is evaluated and no environment is captured.
pub open spec fn eval_lambda_spec(items: Seq<ObjV>) -> Result<ObjV, ()> {
    if items.len() != 3 {
        Err(())
    } else {
        match items[1] {
            ObjV::List(ps) => if all_symbols(ps) {
                match items[2] {
                    ObjV::List(body) => Ok(ObjV::Lambda(sym_names(ps), body)),
                    _ => Err(()),
                }
            } else {
                Err(())
            },
            _ => Err(()),
        }
    }
}

/// `(atom x)`: evaluates the operand and tells whether it is atomic.
pub open spec fn eval_atom_spec(items: Seq<ObjV>, st: Seq<FrameV>, f: int, fuel: nat) -> (
    Result<ObjV, ()>,
    Seq<FrameV>,
)
    decreases fuel, 7int, 0int,
{
    if fuel == 0 || items.len() != 2 {
        (Err(()), st)
    } else {
        let s1 = eval_obj_spec(items[1], st, f, (fuel - 1) as nat);
        match s1.0 {
            Ok(v) => (Ok(ObjV::Bool(is_atomic(v))), s1.1),
            Err(_) => (Err(()), s1.1),
        }
    }
}

/// `(quote x)`: yields the operand completely unevaluated.
pub open spec fn eval_quote_spec(items: Seq<ObjV>) -> Result<ObjV, ()> {
    if items.len() != 2 {
        Err(())
    } else {
        Ok(items[1])
    }
}

/// `(cons h t)`: evaluates both operands; the second must yield a list or
/// `Nil`, and the first is prepended to it.
pub open spec fn eval_cons_spec(items: Seq<ObjV>, st: Seq<FrameV>, f: int, fuel: nat) -> (
    Result<ObjV, ()>,
    Seq<FrameV>,
)
    decreases fuel, 7int, 0int,
{
    if fuel == 0 || items.len() != 3 {
        (Err(()), st)
    } else {
        let s1 = eval_obj_spec(items[1], st, f, (fuel - 1) as nat);
        match s1.0 {
            Ok(h) => {
                let s2 = eval_obj_spec(items[2], s1.1, f, (fuel - 1) as nat);
                match s2.0 {
                    Ok(ObjV::List(l)) => (Ok(ObjV::List(seq![h] + l)), s2.1),
                    Ok(ObjV::Nil) => (Ok(ObjV::List(seq![h])), s2.1),
                    Ok(_) => (Err(()), s2.1),
                    Err(_) => (Err(()), s2.1),
                }
            },
            Err(_) => (Err(()), s1.1),
        }
    }
}

/// `(car x)`: the operand must evaluate to a non-empty list; its first
/// element is then evaluated once more and that result is yielded.
pub open spec fn eval_car_spec(items: Seq<ObjV>, st: Seq<FrameV>, f: int, fuel: nat) -> (
    Result<ObjV, ()>,
    Seq<FrameV>,
)
    decreases fuel, 7int, 0int,
{
    if fuel == 0 || items.len() != 2 {
        (Err(()), st)
    } else {
        let s1 = eval_obj_spec(items[1], st, f, (fuel - 1) as nat);
        match s1.0 {
            Ok(ObjV::List(l)) => if l.len() == 0 {
                (Err(()), s1.1)
            } else {
                eval_obj_spec(l[0], s1.1, f, (fuel - 1) as nat)
            },
            Ok(_) => (Err(()), s1.1),
            Err(_) => (Err(()), s1.1),
        }
    }
}

/// `(cdr x)`: the operand must evaluate to a list; the list minus its first
/// element is yielded, or `Nil` when nothing is left.
pub open spec fn eval_cdr_spec(items: Seq<ObjV>, st: Seq<FrameV>, f: int, fuel: nat) -> (
    Result<ObjV, ()>,
    Seq<FrameV>,
)
    decreases fuel, 7int, 0int,
{
    if fuel == 0 || items.len() != 2 {
        (Err(()), st)
    } else {
        let s1 = eval_obj_spec(items[1], st, f, (fuel - 1) as nat);
        match s1.0 {
            Ok(ObjV::List(l)) => if l.len() <= 1 {
                (Ok(ObjV::Nil), s1.1)
            } else {
                (Ok(ObjV::List(l.skip(1))), s1.1)
            },
            Ok(_) => (Err(()), s1.1),
            Err(_) => (Err(()), s1.1),
        }
    }
}

/// `(progn e...)`: evaluates the operands from position `i` on in order and
/// yields the outcome of the last one, or `Nil` when there are none. An
/// earlier operand's failure is superseded by the outcome of a later one.
pub open spec fn eval_progn_spec(items: Seq<ObjV>, i: int, st: Seq<FrameV>, f: int, fuel: nat) -> (
    Result<ObjV, ()>,
    Seq<FrameV>,
)
    decreases fuel, 7int, items.len() - i,
{
    if fuel == 0 {
        (Err(()), st)
    } else if i < 1 || i >= items.len() {
        (Ok(ObjV::Nil), st)
    } else {
        let s1 = eval_obj_spec(items[i], st, f, (fuel - 1) as nat);
        if i == items.len() - 1 {
            s1
        } else {
            eval_progn_spec(items, i + 1, s1.1, f, fuel)
        }
    }
}

/// A data list: every element from position `i` on is evaluated in order and
/// the non-`Nil` results are collected; any failure stops the walk.
pub open spec fn eval_data_spec(
    items: Seq<ObjV>,
    i: int,
    acc: Seq<ObjV>,
    st: Seq<FrameV>,
    f: int,
    fuel: nat,
) -> (Result<ObjV, ()>, Seq<FrameV>)
    decreases fuel, 7int, items.len() - i,
{
    if fuel == 0 {
        (Err(()), st)
    } else if i < 0 || i >= items.len() {
        (Ok(ObjV::List(acc)), st)
    } else {
        let s1 = eval_obj_spec(items[i], st, f, (fuel - 1) as nat);
        match s1.0 {
            Ok(ObjV::Nil) => eval_data_spec(items, i + 1, acc, s1.1, f, fuel),
            Ok(v) => eval_data_spec(items, i + 1, acc.push(v), s1.1, f, fuel),
            Err(_) => (Err(()), s1.1),
        }
    }
}

/// A user-function call: the head symbol must resolve to a function value of
/// the right arity; a fresh frame is then hung under the caller's frame and
/// the arguments and body are handled by [`eval_args_spec`].
pub open spec fn eval_call_spec(
    name: Seq<char>,
    items: Seq<ObjV>,
    st: Seq<FrameV>,
    f: int,
    fuel: nat,
) -> (Result<ObjV, ()>, Seq<FrameV>)
    decreases fuel, 7int, 0int,
{
    if fuel == 0 {
        (Err(()), st)
    } else {
        match env_lookup(st, f, name) {
            Some(ObjV::Lambda(params, body)) => if params.len() + 1 != items.len() {
                (Err(()), st)
            } else {
                eval_args_spec(items, params, body, 0, env_extend(st, f), f, st.len() as int, fuel)
            },
            Some(_) => (Err(()), st),
            None => (Err(()), st),
        }
    }
}

/// Binds the remaining arguments of a call one by one — each argument is
/// evaluated in the caller's frame `f` and bound in the fresh frame `g` —
/// then evaluates the body as one expression list in `g`.
pub open spec fn eval_args_spec(
    items: Seq<ObjV>,
    params: Seq<Seq<char>>,
    body: Seq<ObjV>,
    i: int,
    st: Seq<FrameV>,
    f: int,
    g: int,
    fuel: nat,
) -> (Result<ObjV, ()>, Seq<FrameV>)
    decreases fuel, 6int, params.len() - i,
{
    if fuel == 0 {
        (Err(()), st)
    } else if i < 0 || i >= params.len() {
        eval_obj_spec(ObjV::List(body), st, g, (fuel - 1) as nat)
    } else {
        let s1 = eval_obj_spec(items[i + 1], st, f, (fuel - 1) as nat);
        match s1.0 {
            Ok(v) => eval_args_spec(
                items,
                params,
                body,
                i + 1,
                env_define(s1.1, g, params[i], v),
                f,
                g,
                fuel,
            ),
            Err(_) => (Err(()), s1.1),
        }
    }
}

/// A whole program: parse the source text, then evaluate the root form in
/// frame `0` with a fresh depth budget. A parse failure leaves the chain
/// untouched.
pub open spec fn eval_program_spec(s: Seq<char>, st: Seq<FrameV>) -> (Result<ObjV, ()>, Seq<FrameV>) {
    match spec_parse_program(s) {
        Ok(o) => eval_obj_spec(o, st, 0, EVAL_BUDGET as nat),
        Err(_) => (Err(()), st),
    }
}

} // verus!
