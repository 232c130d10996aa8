use minilisp::env::Env;
use minilisp::eval::eval;
use minilisp::objects::Object;

fn sym(s: &str) -> Object {
    Object::Symbol(s.to_string())
}

fn run(program: &str) -> Result<Object, String> {
    let mut env = Env::new();
    eval(program, &mut env)
}

#[test]
fn arithmetic_is_exact() {
    assert_eq!(run("(+ 2 3)"), Ok(Object::Integer(5)));
    assert_eq!(run("(- 2 5)"), Ok(Object::Integer(-3)));
    assert_eq!(run("(* 6 7)"), Ok(Object::Integer(42)));
    assert_eq!(run("(/ 7 2)"), Ok(Object::Integer(3)));
    assert_eq!(run("(/ -7 2)"), Ok(Object::Integer(-3)));
}

#[test]
fn division_by_zero_is_an_error() {
    assert!(run("(/ 1 0)").is_err());
}

#[test]
fn arithmetic_overflow_is_an_error() {
    assert!(run("(+ 9223372036854775807 1)").is_err());
    assert!(run("(- -9223372036854775808 1)").is_err());
    assert!(run("(* 4611686018427387904 2)").is_err());
    assert!(run("(/ -9223372036854775808 -1)").is_err());
}

#[test]
fn comparisons_yield_booleans() {
    assert_eq!(run("(< 1 2)"), Ok(Object::Bool(true)));
    assert_eq!(run("(> 1 2)"), Ok(Object::Bool(false)));
    assert_eq!(run("(== 3 3)"), Ok(Object::Bool(true)));
    assert_eq!(run("(!= 3 3)"), Ok(Object::Bool(false)));
}

#[test]
fn binary_operator_rejects_bad_operands() {
    assert!(run("(+ 1)").is_err());
    assert!(run("(+ 1 2 3)").is_err());
    assert!(run("(+ T 1)").is_err());
    assert!(run("(+ 1 T)").is_err());
}

#[test]
fn if_takes_exactly_one_branch() {
    assert_eq!(run("(if T 1 2)"), Ok(Object::Integer(1)));
    assert_eq!(run("(if F 1 2)"), Ok(Object::Integer(2)));
}

#[test]
fn untaken_branch_has_no_side_effects() {
    // The define in the untaken branch must not bind x, so reading x fails.
    let r = run("(progn (if T 1 (define x 9)) x)");
    match r {
        Err(m) => assert!(m.contains("x")),
        Ok(v) => panic!("expected an unbound-symbol error, got {:?}", v),
    }
}

#[test]
fn if_condition_must_be_boolean() {
    assert!(run("(if 1 2 3)").is_err());
    assert!(run("(if T 1)").is_err());
}

#[test]
fn quote_returns_the_literal_list() {
    assert_eq!(
        run("(quote (a b c))"),
        Ok(Object::List(vec![sym("a"), sym("b"), sym("c")]))
    );
}

#[test]
fn quote_sugar_matches_quote_form() {
    assert_eq!(run("(car '(9 8))"), run("(car (quote (9 8)))"));
}

#[test]
fn cons_prepends() {
    assert_eq!(
        run("(cons 1 (quote (2 3)))"),
        Ok(Object::List(vec![
            Object::Integer(1),
            Object::Integer(2),
            Object::Integer(3)
        ]))
    );
    assert_eq!(run("(cons 1 NIL)"), Ok(Object::List(vec![Object::Integer(1)])));
}

#[test]
fn cons_rejects_a_non_list_tail() {
    assert!(run("(cons 1 2)").is_err());
}

#[test]
fn car_and_cdr() {
    assert_eq!(run("(car (quote (1 2 3)))"), Ok(Object::Integer(1)));
    assert_eq!(
        run("(cdr (quote (1 2 3)))"),
        Ok(Object::List(vec![Object::Integer(2), Object::Integer(3)]))
    );
    assert_eq!(run("(cdr (quote (1)))"), Ok(Object::Nil));
}

#[test]
fn car_of_an_empty_list_is_an_error() {
    assert!(run("(car (quote ()))").is_err());
    assert!(run("(car 5)").is_err());
    assert!(run("(cdr 5)").is_err());
}

#[test]
fn recursive_map_terminates_with_the_right_value() {
    let program = "(progn
            (define map
                (lambda (f l)
                    (if (atom l)
                        NIL
                        (cons (f (car l)) (map f (cdr l)))
                    )
                )
            )
            (define dbl (lambda (x) (* x 2)))
            (map dbl (quote (1 2 3)))
        )";
    assert_eq!(
        run(program),
        Ok(Object::List(vec![
            Object::Integer(2),
            Object::Integer(4),
            Object::Integer(6)
        ]))
    );
}

#[test]
fn undefined_function_error_names_it() {
    let r = run("(undefinedfn 1)");
    match r {
        Err(m) => assert!(m.contains("undefinedfn")),
        Ok(v) => panic!("expected an error, got {:?}", v),
    }
}

#[test]
fn calling_a_non_function_is_not_callable() {
    let r = run("(progn (define x 5) (x 1))");
    match r {
        Err(m) => {
            assert!(m.contains("not callable"));
            assert!(m.contains("x"));
        },
        Ok(v) => panic!("expected an error, got {:?}", v),
    }
}

#[test]
fn wrong_arity_call_is_an_error() {
    let r = run("(progn (define f (lambda (x) (* x 2))) (f 1 2))");
    match r {
        Err(m) => assert!(m.contains("f")),
        Ok(v) => panic!("expected an error, got {:?}", v),
    }
}

#[test]
fn atom_classifies_values() {
    assert_eq!(run("(atom NIL)"), Ok(Object::Bool(true)));
    assert_eq!(run("(atom 5)"), Ok(Object::Bool(true)));
    assert_eq!(run("(atom T)"), Ok(Object::Bool(true)));
    assert_eq!(run("(atom (quote a))"), Ok(Object::Bool(true)));
    assert_eq!(run("(atom (quote (1 2)))"), Ok(Object::Bool(false)));
    assert_eq!(run("(atom (lambda (x) (x)))"), Ok(Object::Bool(false)));
}

#[test]
fn shadowing_does_not_leak_out_of_the_call_frame() {
    let program = "(progn
            (define x 1)
            (define f (lambda (y) (progn (define x 99) y)))
            (f 5)
            x
        )";
    assert_eq!(run(program), Ok(Object::Integer(1)));
}

#[test]
fn define_returns_nil_and_persists_across_calls() {
    let mut env = Env::new();
    assert_eq!(eval("(define a 41)", &mut env), Ok(Object::Nil));
    assert_eq!(eval("(+ a 1)", &mut env), Ok(Object::Integer(42)));
}

#[test]
fn define_rejects_bad_shapes() {
    assert!(run("(define 1 2)").is_err());
    assert!(run("(define a)").is_err());
}

#[test]
fn lambda_rejects_bad_shapes() {
    assert!(run("(lambda (x 1) (x))").is_err());
    assert!(run("(lambda x (x))").is_err());
    assert!(run("(lambda (x) 5)").is_err());
    assert!(run("(lambda (x))").is_err());
}

#[test]
fn empty_list_evaluates_to_nil() {
    assert_eq!(run("()"), Ok(Object::Nil));
}

#[test]
fn data_list_collects_non_nil_results() {
    assert_eq!(
        run("((quote a) NIL 7)"),
        Ok(Object::List(vec![sym("a"), Object::Integer(7)]))
    );
}

#[test]
fn progn_returns_the_last_value() {
    assert_eq!(run("(progn 1 2 3)"), Ok(Object::Integer(3)));
    assert_eq!(run("(progn)"), Ok(Object::Nil));
}

#[test]
fn symbols_t_and_f_are_constants() {
    assert_eq!(run("(if (< 1 2) T F)"), Ok(Object::Bool(true)));
    let r = run("(progn y)");
    match r {
        Err(m) => assert!(m.contains("y")),
        Ok(v) => panic!("expected an error, got {:?}", v),
    }
}

#[test]
fn runaway_recursion_ends_in_a_budget_error() {
    let r = run("(progn (define f (lambda (x) (f x))) (f 1))");
    match r {
        Err(m) => assert!(m.contains("budget")),
        Ok(v) => panic!("expected an error, got {:?}", v),
    }
}

#[test]
fn closures_use_the_call_site_environment() {
    // A function body sees bindings visible from the caller's frame at call
    // time; K is defined at top level before the call, so mulK sees it.
    let program = "(progn
            (define K 7)
            (define mulK (lambda (x) (progn (define L (+ K 1)) (* x L))))
            (mulK 3)
        )";
    assert_eq!(run(program), Ok(Object::Integer(24)));
}
