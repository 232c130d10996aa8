//! The evaluator: walks an expression tree against an environment chain and
//! is proved to agree with the ghost interpreter in [`crate::semantics`] on
//! every input.

use vstd::prelude::*;
use vstd::string::StringExecFns;

use crate::env::st_wf;
use crate::env::str_eq;
use crate::env::Env;
use crate::env::FrameV;
use crate::objects::names_view;
use crate::objects::objs_view;
use crate::objects::Object;
use crate::objects::ObjV;
use crate::parser::parse_program;
use crate::semantics::eval_args_spec;
use crate::semantics::eval_atom_spec;
use crate::semantics::eval_binop_spec;
use crate::semantics::eval_call_spec;
use crate::semantics::eval_car_spec;
use crate::semantics::eval_cdr_spec;
use crate::semantics::eval_cons_spec;
use crate::semantics::eval_data_spec;
use crate::semantics::eval_define_spec;
use crate::semantics::eval_if_spec;
use crate::semantics::eval_lambda_spec;
use crate::semantics::eval_list_spec;
use crate::semantics::eval_obj_spec;
use crate::semantics::eval_program_spec;
use crate::semantics::eval_progn_spec;
use crate::semantics::eval_quote_spec;
use crate::semantics::eval_symbol_spec;
use crate::semantics::sym_names;
use crate::semantics::EVAL_BUDGET;

verus! {

/// How an executable outcome relates to one ghost step: the same verdict,
/// the same value image, and the same environment chain.
pub open spec fn step_matches(
    r: Result<Object, String>,
    st_new: Seq<FrameV>,
    step: (Result<ObjV, ()>, Seq<FrameV>),
) -> bool {
    &&& match r {
        Ok(o) => step.0 == Ok::<ObjV, ()>(o@),
        Err(_) => step.0 is Err,
    }
    &&& st_new == step.1
}

/// The error every evaluation yields once its depth budget is spent.
fn budget_error() -> (r: Result<Object, String>)
    ensures
        r is Err,
{
    Err(String::from_str("evaluation budget exhausted"))
}

/// A binary operator form: both operands must evaluate to integers.
pub fn eval_binary_op(list: &Vec<Object>, env: &mut Env, frame: usize, fuel: u64) -> (r: Result<
    Object,
    String,
>)
    requires
        st_wf(old(env)@),
        frame < old(env)@.len(),
    ensures
        st_wf(final (env)@),
        old(env)@.len() <= final (env)@.len(),
        step_matches(r, final (env)@, eval_binop_spec(objs_view(list@), old(env)@, frame as int, fuel as nat)),
    decreases fuel, 7int, 0int,
{
    if fuel == 0 {
        return budget_error();
    }
    if list.len() != 3 {
        return Err(String::from_str("wrong number of operands for a binary operator"));
    }
    let left = match eval_object(&list[1], env, frame, fuel - 1) {
        Ok(Object::Integer(n)) => n,
        Ok(_) => {
            return Err(String::from_str("left operand must be an integer"));
        },
        Err(e) => {
            return Err(e);
        },
    };
    let right = match eval_object(&list[2], env, frame, fuel - 1) {
        Ok(Object::Integer(n)) => n,
        Ok(_) => {
            return Err(String::from_str("right operand must be an integer"));
        },
        Err(e) => {
            return Err(e);
        },
    };
    match &list[0] {
        Object::Symbol(s) => {
            if str_eq(s.as_str(), "+") {
                match left.checked_add(right) {
                    Some(v) => Ok(Object::Integer(v)),
                    None => Err(String::from_str("integer overflow")),
                }
            } else if str_eq(s.as_str(), "-") {
                match left.checked_sub(right) {
                    Some(v) => Ok(Object::Integer(v)),
                    None => Err(String::from_str("integer overflow")),
                }
            } else if str_eq(s.as_str(), "*") {
                match left.checked_mul(right) {
                    Some(v) => Ok(Object::Integer(v)),
                    None => Err(String::from_str("integer overflow")),
                }
            } else if str_eq(s.as_str(), "/") {
                if right == 0 {
                    Err(String::from_str("division by zero"))
                } else {
                    match left.checked_div(right) {
                        Some(v) => Ok(Object::Integer(v)),
                        None => Err(String::from_str("integer overflow")),
                    }
                }
            } else if str_eq(s.as_str(), "<") {
                Ok(Object::Bool(left < right))
            } else if str_eq(s.as_str(), ">") {
                Ok(Object::Bool(left > right))
            } else if str_eq(s.as_str(), "==") {
                Ok(Object::Bool(left == right))
            } else if str_eq(s.as_str(), "!=") {
                Ok(Object::Bool(left != right))
            } else {
                Err(String::from_str("operator must be one of the eight operator symbols"))
            }
        },
        _ => Err(String::from_str("operator must be a symbol")),
    }
}

/// `(define symbol expr)`: binds into the current frame, yields `Nil`.
pub fn eval_define(list: &Vec<Object>, env: &mut Env, frame: usize, fuel: u64) -> (r: Result<
    Object,
    String,
>)
    requires
        st_wf(old(env)@),
        frame < old(env)@.len(),
    ensures
        st_wf(final (env)@),
        old(env)@.len() <= final (env)@.len(),
        step_matches(r, final (env)@, eval_define_spec(objs_view(list@), old(env)@, frame as int, fuel as nat)),
    decreases fuel, 7int, 0int,
{
    if fuel == 0 {
        return budget_error();
    }
    if list.len() != 3 {
        return Err(String::from_str("wrong number of operands for define"));
    }
    let found = match &list[1] {
        Object::Symbol(_) => true,
        _ => false,
    };
    if !found {
        return Err(String::from_str("define needs a symbol to bind"));
    }
    let val = match eval_object(&list[2], env, frame, fuel - 1) {
        Ok(v) => v,
        Err(e) => {
            return Err(e);
        },
    };
    match &list[1] {
        Object::Symbol(name) => {
            env.set_object(frame, name.as_str(), val);
            Ok(Object::Nil)
        },
        _ => Err(String::from_str("define needs a symbol to bind")),
    }
}

/// `(if cond then else)`: evaluates exactly one branch.
pub fn eval_if(list: &Vec<Object>, env: &mut Env, frame: usize, fuel: u64) -> (r: Result<
    Object,
    String,
>)
    requires
        st_wf(old(env)@),
        frame < old(env)@.len(),
    ensures
        st_wf(final (env)@),
        old(env)@.len() <= final (env)@.len(),
        step_matches(r, final (env)@, eval_if_spec(objs_view(list@), old(env)@, frame as int, fuel as nat)),
    decreases fuel, 7int, 0int,
{
    if fuel == 0 {
        return budget_error();
    }
    if list.len() != 4 {
        return Err(String::from_str("wrong number of operands for if"));
    }
    let cond = match eval_object(&list[1], env, frame, fuel - 1) {
        Ok(Object::Bool(b)) => b,
        Ok(_) => {
            return Err(String::from_str("condition must be a boolean"));
        },
        Err(e) => {
            return Err(e);
        },
    };
    if cond {
        eval_object(&list[2], env, frame, fuel - 1)
    } else {
        eval_object(&list[3], env, frame, fuel - 1)
    }
}

/// `(lambda (params...) body)`: builds a function value; nothing is
/// evaluated and no environment is captured.
#[verifier::loop_isolation(false)]
pub fn eval_lambda(list: &Vec<Object>) -> (r: Result<Object, String>)
    ensures
        match r {
            Ok(o) => eval_lambda_spec(objs_view(list@)) == Ok::<ObjV, ()>(o@),
            Err(_) => eval_lambda_spec(objs_view(list@)) is Err,
        },
{
    if list.len() != 3 {
        return Err(String::from_str("wrong number of operands for lambda"));
    }
    let ghost items = objs_view(list@);
    let params: Vec<String> = match &list[1] {
        Object::List(ps) => {
            proof {
                assert(items[1]->List_0 =~= objs_view(ps@));
            }
            let mut params: Vec<String> = Vec::new();
            let mut i: usize = 0;
            while i < ps.len()
                invariant
                    i <= ps@.len(),
                    params@.len() == i as int,
                    forall|j: int|
                        0 <= j < i as int ==> (#[trigger] ps@[j])@ is Symbol && params@[j]@
                            == ps@[j]@->Symbol_0,
                decreases ps@.len() - i,
            {
                match &ps[i] {
                    Object::Symbol(s) => {
                        params.push(s.clone());
                    },
                    _ => {
                        proof {
                            assert(!(items[1]->List_0[i as int] is Symbol));
                        }
                        return Err(String::from_str("lambda parameter is not a symbol"));
                    },
                }
                i = i + 1;
            }
            proof {
                assert(objs_view(ps@) =~= items[1]->List_0);
                assert(names_view(params@) =~~= sym_names(items[1]->List_0));
            }
            params
        },
        _ => {
            return Err(String::from_str("lambda needs a parameter list"));
        },
    };
    let body: Vec<Object> = match &list[2] {
        Object::List(b) => {
            proof {
                assert(items[2]->List_0 =~= objs_view(b@));
            }
            dup_vec(b)
        },
        _ => {
            return Err(String::from_str("lambda body is not a list"));
        },
    };
    let ghost pnames = names_view(params@);
    let ghost bodyv = objs_view(body@);
    let out = Object::Lambda(params, body);
    proof {
        assert(out@->Lambda_0 =~~= pnames);
        assert(out@->Lambda_1 =~~= bodyv);
        assert(out@ =~~= ObjV::Lambda(sym_names(items[1]->List_0), items[2]->List_0));
    }
    Ok(out)
}

/// A structural copy of an expression vector.
fn dup_vec(v: &Vec<Object>) -> (r: Vec<Object>)
    ensures
        objs_view(r@) == objs_view(v@),
{
    let mut r: Vec<Object> = Vec::new();
    let mut i: usize = 0;
    while i < v.len()
        invariant
            i <= v@.len(),
            r@.len() == i as int,
            forall|j: int| 0 <= j < i as int ==> r@[j]@ == v@[j]@,
        decreases v@.len() - i,
    {
        r.push(v[i].dup());
        i = i + 1;
    }
    proof {
        assert(objs_view(r@) =~~= objs_view(v@));
    }
    r
}

/// A user-function call: the head symbol must resolve to a function value of
/// matching arity; arguments are evaluated in the caller's frame and bound in
/// a fresh child frame, where the body then runs as one expression list.
#[verifier::loop_isolation(false)]
pub fn eval_func_call(name: &str, list: &Vec<Object>, env: &mut Env, frame: usize, fuel: u64) -> (r:
    Result<Object, String>)
    requires
        st_wf(old(env)@),
        frame < old(env)@.len(),
    ensures
        st_wf(final (env)@),
        old(env)@.len() <= final (env)@.len(),
        step_matches(r, final (env)@, eval_call_spec(name@, objs_view(list@), old(env)@, frame as int, fuel as nat)),
    decreases fuel, 7int, 0int,
{
    if fuel == 0 {
        return budget_error();
    }
    let ghost st0 = old(env)@;
    let ghost items = objs_view(list@);
    let func = match env.get_object(frame, name) {
        Some(o) => o,
        None => {
            let mut m = String::from_str("unbound function: ");
            m.append(name);
            return Err(m);
        },
    };
    let ghost fv = func@;
    match func {
        Object::Lambda(params, body) => {
            let ghost pv = names_view(params@);
            let ghost bv = objs_view(body@);
            proof {
                assert(fv->Lambda_0 =~~= pv);
                assert(fv->Lambda_1 =~~= bv);
                assert(fv =~~= ObjV::Lambda(pv, bv));
            }
            if list.len() == 0 || params.len() != list.len() - 1 {
                let mut m = String::from_str("wrong number of arguments for function: ");
                m.append(name);
                return Err(m);
            }
            let g = env.extend(frame);
            let ghost callspec = eval_call_spec(name@, items, st0, frame as int, fuel as nat);
            let mut i: usize = 0;
            while i < params.len()
                invariant
                    st_wf(env@),
                    st0.len() <= env@.len(),
                    frame < env@.len(),
                    (g as int) < env@.len(),
                    i <= params@.len(),
                    list@.len() == params@.len() + 1,
                    callspec == eval_args_spec(
                        items,
                        pv,
                        bv,
                        i as int,
                        env@,
                        frame as int,
                        g as int,
                        fuel as nat,
                    ),
                decreases params@.len() - i,
            {
                let val = match eval_object(&list[i + 1], env, frame, fuel - 1) {
                    Ok(v) => v,
                    Err(e) => {
                        return Err(e);
                    },
                };
                env.set_object(g, params[i].as_str(), val);
                i = i + 1;
            }
            let body_obj = Object::List(body);
            proof {
                assert(body_obj@->List_0 =~~= bv);
                assert(body_obj@ =~~= ObjV::List(bv));
            }
            eval_object(&body_obj, env, g, fuel - 1)
        },
        _ => {
            let mut m = String::from_str("not callable: ");
            m.append(name);
            Err(m)
        },
    }
}

/// `(atom x)`: whether the operand evaluates to an atomic value.
pub fn eval_atom(list: &Vec<Object>, env: &mut Env, frame: usize, fuel: u64) -> (r: Result<
    Object,
    String,
>)
    requires
        st_wf(old(env)@),
        frame < old(env)@.len(),
    ensures
        st_wf(final (env)@),
        old(env)@.len() <= final (env)@.len(),
        step_matches(r, final (env)@, eval_atom_spec(objs_view(list@), old(env)@, frame as int, fuel as nat)),
    decreases fuel, 7int, 0int,
{
    if fuel == 0 {
        return budget_error();
    }
    if list.len() != 2 {
        return Err(String::from_str("wrong number of operands for atom"));
    }
    match eval_object(&list[1], env, frame, fuel - 1) {
        Ok(o) => match o {
            Object::Nil => Ok(Object::Bool(true)),
            Object::Bool(_) => Ok(Object::Bool(true)),
            Object::Integer(_) => Ok(Object::Bool(true)),
            Object::Symbol(_) => Ok(Object::Bool(true)),
            _ => Ok(Object::Bool(false)),
        },
        Err(e) => Err(e),
    }
}

/// A symbol: `NIL`, `T` and `F` are constants; anything else is looked up.
pub fn eval_symbol(name: &str, env: &Env, frame: usize) -> (r: Result<Object, String>)
    requires
        st_wf(env@),
        frame < env@.len(),
    ensures
        match r {
            Ok(o) => eval_symbol_spec(name@, env@, frame as int) == Ok::<ObjV, ()>(o@),
            Err(_) => eval_symbol_spec(name@, env@, frame as int) is Err,
        },
{
    if str_eq(name, "NIL") {
        Ok(Object::Nil)
    } else if str_eq(name, "T") {
        Ok(Object::Bool(true))
    } else if str_eq(name, "F") {
        Ok(Object::Bool(false))
    } else {
        match env.get_object(frame, name) {
            Some(v) => Ok(v),
            None => {
                let mut m = String::from_str("unbound symbol: ");
                m.append(name);
                Err(m)
            },
        }
    }
}

/// `(quote x)`: yields the operand unevaluated, as a structural copy.
pub fn eval_quote(list: &Vec<Object>) -> (r: Result<Object, String>)
    ensures
        match r {
            Ok(o) => eval_quote_spec(objs_view(list@)) == Ok::<ObjV, ()>(o@),
            Err(_) => eval_quote_spec(objs_view(list@)) is Err,
        },
{
    if list.len() != 2 {
        return Err(String::from_str("wrong number of operands for quote"));
    }
    Ok(list[1].dup())
}

/// `(cons h t)`: prepends the first result to the second, which must be a
/// list or `NIL`.
pub fn eval_cons(list: &Vec<Object>, env: &mut Env, frame: usize, fuel: u64) -> (r: Result<
    Object,
    String,
>)
    requires
        st_wf(old(env)@),
        frame < old(env)@.len(),
    ensures
        st_wf(final (env)@),
        old(env)@.len() <= final (env)@.len(),
        step_matches(r, final (env)@, eval_cons_spec(objs_view(list@), old(env)@, frame as int, fuel as nat)),
    decreases fuel, 7int, 0int,
{
    if fuel == 0 {
        return budget_error();
    }
    if list.len() != 3 {
        return Err(String::from_str("wrong number of operands for cons"));
    }
    let head = match eval_object(&list[1], env, frame, fuel - 1) {
        Ok(v) => v,
        Err(e) => {
            return Err(e);
        },
    };
    let ghost hv = head@;
    let tail = match eval_object(&list[2], env, frame, fuel - 1) {
        Ok(v) => v,
        Err(e) => {
            return Err(e);
        },
    };
    let ghost tv = tail@;
    match tail {
        Object::List(l) => {
            let ghost lv = objs_view(l@);
            proof {
                assert(tv->List_0 =~= lv);
            }
            let mut l2 = l;
            l2.insert(0, head);
            let out = Object::List(l2);
            proof {
                assert(out@->List_0 =~~= seq![hv] + lv);
                assert(out@ =~~= ObjV::List(seq![hv] + tv->List_0));
            }
            Ok(out)
        },
        Object::Nil => {
            let mut l2: Vec<Object> = Vec::new();
            l2.push(head);
            let out = Object::List(l2);
            proof {
                assert(out@->List_0 =~~= seq![hv]);
                assert(out@ =~~= ObjV::List(seq![hv]));
            }
            Ok(out)
        },
        _ => Err(String::from_str("second operand of cons must be a list or NIL")),
    }
}

/// `(car x)`: the first element of a non-empty list result, evaluated once
/// more.
pub fn eval_car(list: &Vec<Object>, env: &mut Env, frame: usize, fuel: u64) -> (r: Result<
    Object,
    String,
>)
    requires
        st_wf(old(env)@),
        frame < old(env)@.len(),
    ensures
        st_wf(final (env)@),
        old(env)@.len() <= final (env)@.len(),
        step_matches(r, final (env)@, eval_car_spec(objs_view(list@), old(env)@, frame as int, fuel as nat)),
    decreases fuel, 7int, 0int,
{
    if fuel == 0 {
        return budget_error();
    }
    if list.len() != 2 {
        return Err(String::from_str("wrong number of operands for car"));
    }
    match eval_object(&list[1], env, frame, fuel - 1) {
        Ok(Object::List(l)) => {
            if l.len() == 0 {
                return Err(String::from_str("car of an empty list"));
            }
            eval_object(&l[0], env, frame, fuel - 1)
        },
        Ok(_) => Err(String::from_str("operand of car is not a list")),
        Err(e) => Err(e),
    }
}

/// `(cdr x)`: the list result minus its first element, or `NIL`.
pub fn eval_cdr(list: &Vec<Object>, env: &mut Env, frame: usize, fuel: u64) -> (r: Result<
    Object,
    String,
>)
    requires
        st_wf(old(env)@),
        frame < old(env)@.len(),
    ensures
        st_wf(final (env)@),
        old(env)@.len() <= final (env)@.len(),
        step_matches(r, final (env)@, eval_cdr_spec(objs_view(list@), old(env)@, frame as int, fuel as nat)),
    decreases fuel, 7int, 0int,
{
    if fuel == 0 {
        return budget_error();
    }
    if list.len() != 2 {
        return Err(String::from_str("wrong number of operands for cdr"));
    }
    let got = match eval_object(&list[1], env, frame, fuel - 1) {
        Ok(v) => v,
        Err(e) => {
            return Err(e);
        },
    };
    let ghost tv = got@;
    match got {
        Object::List(l) => {
            let ghost lv = objs_view(l@);
            proof {
                assert(tv->List_0 =~= lv);
            }
            if l.len() <= 1 {
                return Ok(Object::Nil);
            }
            let mut l2 = l;
            l2.remove(0);
            let out = Object::List(l2);
            proof {
                assert(out@->List_0 =~~= lv.skip(1));
                assert(out@ =~~= ObjV::List(tv->List_0.skip(1)));
            }
            Ok(out)
        },
        _ => Err(String::from_str("operand of cdr is not a list")),
    }
}

/// `(progn e...)`: evaluates the operands in order, yields the last outcome.
#[verifier::loop_isolation(false)]
pub fn eval_progn(list: &Vec<Object>, env: &mut Env, frame: usize, fuel: u64) -> (r: Result<
    Object,
    String,
>)
    requires
        st_wf(old(env)@),
        frame < old(env)@.len(),
    ensures
        st_wf(final (env)@),
        old(env)@.len() <= final (env)@.len(),
        step_matches(r, final (env)@, eval_progn_spec(objs_view(list@), 1, old(env)@, frame as int, fuel as nat)),
    decreases fuel, 7int, 0int,
{
    if fuel == 0 {
        return budget_error();
    }
    if list.len() <= 1 {
        return Ok(Object::Nil);
    }
    let ghost items = objs_view(list@);
    let ghost goal = eval_progn_spec(items, 1, old(env)@, frame as int, fuel as nat);
    let mut i: usize = 1;
    loop
        invariant
            st_wf(env@),
            old(env)@.len() <= env@.len(),
            frame < env@.len(),
            1 <= i < list@.len(),
            goal == eval_progn_spec(items, i as int, env@, frame as int, fuel as nat),
        decreases list@.len() - i,
    {
        let r = eval_object(&list[i], env, frame, fuel - 1);
        if i == list.len() - 1 {
            return r;
        }
        i = i + 1;
    }
}

/// A list expression: empty is `Nil`; a head symbol dispatches to a special
/// form or a function call; any other head makes a data list, whose elements
/// are evaluated in order with `Nil` results dropped.
#[verifier::loop_isolation(false)]
pub fn eval_list(list: &Vec<Object>, env: &mut Env, frame: usize, fuel: u64) -> (r: Result<
    Object,
    String,
>)
    requires
        st_wf(old(env)@),
        frame < old(env)@.len(),
    ensures
        st_wf(final (env)@),
        old(env)@.len() <= final (env)@.len(),
        step_matches(r, final (env)@, eval_list_spec(objs_view(list@), old(env)@, frame as int, fuel as nat)),
    decreases fuel, 8int, 0int,
{
    if list.len() == 0 {
        return Ok(Object::Nil);
    }
    let ghost items = objs_view(list@);
    let is_symbol_head = match &list[0] {
        Object::Symbol(_) => true,
        _ => false,
    };
    if is_symbol_head {
        let op = match &list[0] {
            Object::Symbol(s) => s.as_str(),
            _ => "",
        };
        if str_eq(op, "+") || str_eq(op, "-") || str_eq(op, "*") || str_eq(op, "/") || str_eq(
            op,
            "<",
        ) || str_eq(op, ">") || str_eq(op, "==") || str_eq(op, "!=") {
            eval_binary_op(list, env, frame, fuel)
        } else if str_eq(op, "define") {
            eval_define(list, env, frame, fuel)
        } else if str_eq(op, "if") {
            eval_if(list, env, frame, fuel)
        } else if str_eq(op, "lambda") {
            match eval_lambda(list) {
                Ok(o) => Ok(o),
                Err(e) => Err(e),
            }
        } else if str_eq(op, "atom") {
            eval_atom(list, env, frame, fuel)
        } else if str_eq(op, "quote") {
            match eval_quote(list) {
                Ok(o) => Ok(o),
                Err(e) => Err(e),
            }
        } else if str_eq(op, "cons") {
            eval_cons(list, env, frame, fuel)
        } else if str_eq(op, "car") {
            eval_car(list, env, frame, fuel)
        } else if str_eq(op, "cdr") {
            eval_cdr(list, env, frame, fuel)
        } else if str_eq(op, "progn") {
            eval_progn(list, env, frame, fuel)
        } else {
            eval_func_call(op, list, env, frame, fuel)
        }
    } else {
        if fuel == 0 {
            return budget_error();
        }
        let ghost goal = eval_data_spec(items, 0, Seq::empty(), old(env)@, frame as int, fuel as nat);
        let mut out: Vec<Object> = Vec::new();
        let mut i: usize = 0;
        proof {
            assert(objs_view(out@) =~= Seq::<ObjV>::empty());
        }
        while i < list.len()
            invariant
                st_wf(env@),
                old(env)@.len() <= env@.len(),
                frame < env@.len(),
                i <= list@.len(),
                goal == eval_data_spec(items, i as int, objs_view(out@), env@, frame as int, fuel as nat),
            decreases list@.len() - i,
        {
            let ghost acc = objs_view(out@);
            match eval_object(&list[i], env, frame, fuel - 1) {
                Ok(o) => {
                    let keep = match &o {
                        Object::Nil => false,
                        _ => true,
                    };
                    if keep {
                        let ghost ov = o@;
                        out.push(o);
                        proof {
                            assert(objs_view(out@) =~= acc.push(ov));
                        }
                    }
                },
                Err(e) => {
                    return Err(e);
                },
            }
            i = i + 1;
        }
        let res = Object::List(out);
        proof {
            assert(res@->List_0 =~~= objs_view(out@));
            assert(res@ =~~= ObjV::List(objs_view(out@)));
        }
        Ok(res)
    }
}

/// One evaluation step, dispatching on the shape of the expression.
pub fn eval_object(obj: &Object, env: &mut Env, frame: usize, fuel: u64) -> (r: Result<
    Object,
    String,
>)
    requires
        st_wf(old(env)@),
        frame < old(env)@.len(),
    ensures
        st_wf(final (env)@),
        old(env)@.len() <= final (env)@.len(),
        step_matches(r, final (env)@, eval_obj_spec(obj@, old(env)@, frame as int, fuel as nat)),
    decreases fuel, 9int, 0int,
{
    if fuel == 0 {
        return budget_error();
    }
    match obj {
        Object::Nil => Ok(Object::Nil),
        Object::Integer(n) => Ok(Object::Integer(*n)),
        Object::Bool(b) => Ok(Object::Bool(*b)),
        Object::Symbol(s) => eval_symbol(s.as_str(), env, frame),
        Object::Lambda(_, _) => Ok(obj.dup()),
        Object::List(items) => {
            proof {
                assert(obj@->List_0 =~~= objs_view(items@));
            }
            eval_list(items, env, frame, fuel)
        },
    }
}

/// The one entry operation: evaluates a whole source text against frame `0`
/// of the given environment and yields the final value or a descriptive
/// error. Bindings made by `define` persist in the environment across calls.
pub fn eval(program: &str, env: &mut Env) -> (r: Result<Object, String>)
    requires
        st_wf(old(env)@),
        old(env)@.len() >= 1,
    ensures
        st_wf(final (env)@),
        old(env)@.len() <= final (env)@.len(),
        step_matches(r, final (env)@, eval_program_spec(program@, old(env)@)),
{
    let parsed = match parse_program(program) {
        Ok(o) => o,
        Err(e) => {
            return Err(e);
        },
    };
    eval_object(&parsed, env, 0, EVAL_BUDGET)
}

} // verus!
