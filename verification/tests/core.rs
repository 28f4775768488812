use lambdalisp::common::fileinfo::{CompileError, FileInfo, Location, Range};
use lambdalisp::common::natural::Natural;
use lambdalisp::corelang::eval::{eval, eval_bounded};
use lambdalisp::corelang::printer::simple::SimplePrinter;
use lambdalisp::corelang::syntax::{
    checked_shift_index, checked_substitution, equiv_term, equiv_term_vec, shift_index,
    substitution, Term,
};

fn num(n: u32) -> Term {
    Term::Number(None, Natural::from_u32(n))
}

fn big(text: &str) -> Natural {
    Natural::from_decimal(&text.chars().collect()).unwrap()
}

fn show(t: &Term) -> String {
    SimplePrinter::default().print(t)
}

fn here(line: usize, col: usize) -> Option<FileInfo> {
    Some(FileInfo {
        filepath: "a.lisp".to_string(),
        range: Range {
            from: Location { line, col },
            to: Location { line, col },
        },
    })
}

fn apply(op: Term, args: Vec<Term>) -> Term {
    Term::Apply(None, Box::new(op), args)
}

#[test]
fn natural_arithmetic_is_exact_beyond_machine_words() {
    let a = big("340282366920938463463374607431768211456");
    let b = big("18446744073709551616");
    assert_eq!(a.plus(&b).to_string(), "340282366920938463481821351505477763072");
    assert_eq!(a.times(&b).to_string(), "6277101735386680763835789423207666416102355444464034512896");
    assert_eq!(a.quotient(&b).unwrap().to_string(), "18446744073709551616");
    assert_eq!(a.remainder(&big("1000")).unwrap().to_string(), "456");
    assert_eq!(a.minus_saturating(&b).to_string(), "340282366920938463444927863358058659840");
    assert_eq!(b.minus_saturating(&a).to_string(), "0");
    assert!(b.less_than(&a));
    assert!(!a.less_than(&b));
    assert!(!a.less_than(&a));
    assert!(a.equals(&big("340282366920938463463374607431768211456")));
    assert!(!a.equals(&b));
}

#[test]
fn natural_zero_and_division_by_zero() {
    assert!(Natural::zero().is_zero());
    assert!(!Natural::from_u32(7).is_zero());
    assert!(big("000").is_zero());
    assert!(Natural::from_u32(7).quotient(&Natural::zero()).is_none());
    assert!(Natural::from_u32(7).remainder(&Natural::zero()).is_none());
    assert_eq!(Natural::from_u32(4294967295).to_string(), "4294967295");
    assert_eq!(big("0042").to_string(), "42");
}

#[test]
fn natural_from_decimal_rejects_what_is_no_number() {
    assert!(Natural::from_decimal(&Vec::new()).is_none());
    assert!(Natural::from_decimal(&"12a".chars().collect()).is_none());
    assert!(Natural::from_decimal(&"+12".chars().collect()).is_none());
    assert!(Natural::from_decimal(&"1_2".chars().collect()).is_none());
}

#[test]
fn equiv_is_an_equivalence_on_examples() {
    let a = Term::Lambda(here(0, 0), 1, Box::new(Term::Variable(here(0, 3), 0, 0)));
    let b = Term::Lambda(None, 1, Box::new(Term::Variable(here(5, 5), 0, 0)));
    let c = Term::Lambda(here(9, 9), 1, Box::new(Term::Variable(None, 0, 0)));
    let d = Term::Lambda(None, 2, Box::new(Term::Variable(None, 0, 0)));
    assert!(equiv_term(&a, &a));
    assert!(equiv_term(&a, &b) && equiv_term(&b, &a));
    assert!(equiv_term(&b, &c) && equiv_term(&a, &c));
    assert!(!equiv_term(&a, &d) && !equiv_term(&d, &a));
    assert!(!equiv_term(&Term::Add(None), &Term::Sub(None)));
    assert!(equiv_term(&Term::Car(None), &Term::Car(here(1, 1))));
    assert!(!equiv_term(&Term::Variable(None, 0, 1), &Term::Variable(None, 1, 0)));
    assert!(!equiv_term(&num(1), &num(2)));
    assert!(equiv_term(&num(2), &Term::Number(here(0, 0), Natural::from_u32(2))));
    assert!(!equiv_term(&Term::Bool(None, true), &Term::Bool(None, false)));
    assert!(!equiv_term(&Term::Nil(None), &Term::Bool(None, false)));
}

#[test]
fn equiv_of_vectors_compares_length_and_items() {
    assert!(equiv_term_vec(&vec![], &vec![]));
    assert!(equiv_term_vec(&vec![num(1), num(2)], &vec![num(1), num(2)]));
    assert!(!equiv_term_vec(&vec![num(1), num(2)], &vec![num(1)]));
    assert!(!equiv_term_vec(&vec![num(1), num(2)], &vec![num(1), num(3)]));
}

#[test]
fn shift_by_zero_changes_nothing() {
    let t = apply(
        Term::Lambda(None, 2, Box::new(Term::Variable(None, 3, 1))),
        vec![Term::Variable(None, 0, 0), Term::Quote(None, Box::new(num(3)))],
    );
    assert!(equiv_term(&shift_index(&t, 0, 0), &t));
    assert_eq!(show(&shift_index(&t, 0, 0)), show(&t));
}

#[test]
fn shift_moves_free_variables_only() {
    let t = Term::Lambda(
        None,
        1,
        Box::new(apply(
            Term::Variable(None, 0, 0),
            vec![Term::Variable(None, 1, 0), Term::Variable(None, 2, 3)],
        )),
    );
    assert_eq!(
        show(&shift_index(&t, 0, 2)),
        "(lambda<1-ary> (ARG<0-up 0-th> ARG<3-up 0-th> ARG<4-up 3-th>))"
    );
    assert_eq!(
        show(&shift_index(&t, 1, 2)),
        "(lambda<1-ary> (ARG<0-up 0-th> ARG<1-up 0-th> ARG<4-up 3-th>))"
    );
}

#[test]
fn shift_past_the_machine_word_is_refused() {
    let t = Term::Variable(None, usize::MAX, 0);
    assert!(checked_shift_index(&t, 0, 1).is_none());
    assert!(checked_shift_index(&t, 0, 0).is_some());
    let under = Term::Lambda(None, 1, Box::new(Term::Variable(None, usize::MAX, 0)));
    assert!(checked_shift_index(&under, usize::MAX, 1).is_some());
}

#[test]
fn substitution_replaces_the_level_and_shifts_under_lambdas() {
    let body = apply(
        Term::Variable(None, 0, 1),
        vec![Term::Lambda(
            None,
            1,
            Box::new(apply(
                Term::Variable(None, 1, 0),
                vec![Term::Variable(None, 0, 0)],
            )),
        )],
    );
    let values = vec![Term::Variable(None, 4, 2), num(9)];
    assert_eq!(
        show(&substitution(&body, 0, &values)),
        "(9 (lambda<1-ary> (ARG<5-up 2-th> ARG<0-up 0-th>)))"
    );
}

#[test]
fn substitution_without_a_value_for_a_slot_is_refused() {
    let body = Term::Variable(None, 0, 2);
    assert!(checked_substitution(&body, 0, &vec![num(1), num(2)]).is_none());
    assert!(checked_substitution(&body, 1, &vec![num(1), num(2)]).is_some());
    let deep = Term::Lambda(None, 1, Box::new(Term::Nil(None)));
    assert!(checked_substitution(&deep, 0, &vec![Term::Variable(None, usize::MAX, 0)]).is_none());
}

#[test]
fn applying_a_lambda_is_substituting_its_body() {
    let body = apply(
        Term::Add(None),
        vec![Term::Variable(None, 0, 0), Term::Variable(None, 0, 1)],
    );
    let lam = Term::Lambda(None, 2, Box::new(body.clone()));
    let values = vec![num(3), num(4)];
    let applied = eval(&apply(lam, values.clone())).unwrap();
    let substituted = eval(&substitution(&body, 0, &values)).unwrap();
    assert_eq!(show(&applied), "7");
    assert_eq!(show(&applied), show(&substituted));
}

#[test]
fn eval_of_a_quote_is_the_value_of_the_quoted_term() {
    let t = apply(Term::Mul(None), vec![num(6), num(7)]);
    let quoted = apply(Term::Eval(None), vec![Term::Quote(None, Box::new(t.clone()))]);
    assert_eq!(show(&eval(&quoted).unwrap()), "42");
    assert_eq!(show(&eval(&quoted).unwrap()), show(&eval(&t).unwrap()));
}

#[test]
fn quote_is_not_reduced() {
    let t = Term::Quote(here(0, 0), Box::new(apply(Term::Add(None), vec![num(1), num(2)])));
    let v = eval(&t).unwrap();
    assert_eq!(show(&v), "(quote (+ 1 2))");
    assert!(v.file_info().is_none());
}

#[test]
fn subtraction_saturates_at_zero() {
    assert_eq!(show(&eval(&apply(Term::Sub(None), vec![num(2), num(4)])).unwrap()), "0");
    assert_eq!(show(&eval(&apply(Term::Sub(None), vec![num(4), num(2)])).unwrap()), "2");
    assert_eq!(show(&eval(&apply(Term::Sub(None), vec![num(4), num(4)])).unwrap()), "0");
}

#[test]
fn if_reduces_only_the_branch_taken() {
    let bad = apply(num(1), vec![]);
    let t = Term::If(
        None,
        Box::new(Term::Bool(None, true)),
        Box::new(num(1)),
        Box::new(bad.clone()),
    );
    assert_eq!(show(&eval(&t).unwrap()), "1");
    let e = Term::If(
        None,
        Box::new(Term::Bool(None, false)),
        Box::new(bad),
        Box::new(num(2)),
    );
    assert_eq!(show(&eval(&e).unwrap()), "2");
}

fn message(r: Result<Term, CompileError>) -> String {
    match r {
        Ok(t) => format!("value {}", show(&t)),
        Err(e) => e.message.unwrap_or("<none>".to_string()),
    }
}

#[test]
fn evaluation_errors_name_their_cause() {
    let not_bool = Term::If(None, Box::new(num(1)), Box::new(num(1)), Box::new(num(2)));
    assert_eq!(message(eval(&not_bool)), "expect bool for if condition");
    assert_eq!(message(eval(&apply(num(1), vec![num(2)]))), "operator expected");
    assert_eq!(
        message(eval(&apply(Term::Div(None), vec![num(1), num(0)]))),
        "division operator got 0 for divisor."
    );
    assert_eq!(
        message(eval(&apply(Term::Rem(None), vec![num(1), num(0)]))),
        "remainder operator got 0 for divisor."
    );
    assert_eq!(
        message(eval(&apply(Term::Add(None), vec![num(1), Term::Nil(None)]))),
        "addition operator only accepts 2 numbers."
    );
    assert_eq!(
        message(eval(&apply(Term::Mul(None), vec![num(1)]))),
        "multiplication operator only accepts 2 numbers."
    );
    assert_eq!(
        message(eval(&apply(Term::Sub(None), vec![num(1), num(2), num(3)]))),
        "subtraction operator only accepts 2 numbers: found 3 args"
    );
    assert_eq!(
        message(eval(&apply(Term::Div(None), vec![num(1)]))),
        "division operator only accepts 2 numbers."
    );
    assert_eq!(
        message(eval(&apply(Term::Rem(None), vec![Term::Nil(None), num(1)]))),
        "remainder operator only accepts 2 numbers."
    );
    assert_eq!(message(eval(&apply(Term::Car(None), vec![num(1)]))), "car operator only 1 cons.");
    assert_eq!(message(eval(&apply(Term::Cdr(None), vec![]))), "cdr operator only 1 cons.");
    assert_eq!(message(eval(&apply(Term::Eval(None), vec![num(1)]))), "quote expected");
    assert_eq!(message(eval(&apply(Term::Eval(None), vec![]))), "eval error");
    assert_eq!(message(eval(&apply(Term::Eq(None), vec![num(1)]))), "<none>");
    let lam = Term::Lambda(None, 2, Box::new(Term::Nil(None)));
    assert_eq!(
        message(eval(&apply(lam, vec![num(1)]))),
        "the lambda function needs 2 args but found 1 arg(s)"
    );
    let open = Term::Lambda(None, 1, Box::new(Term::Variable(None, 0, 5)));
    assert_eq!(message(eval(&apply(open, vec![num(1)]))), "substitution failed");
}

#[test]
fn arguments_are_reduced_from_left_to_right() {
    let first = apply(Term::Car(None), vec![num(1)]);
    let second = apply(Term::Cdr(None), vec![num(1)]);
    let t = apply(Term::Add(None), vec![first, second]);
    assert_eq!(message(eval(&t)), "car operator only 1 cons.");
}

#[test]
fn reduction_that_nests_too_deep_is_an_error() {
    let omega_half = Term::Lambda(
        None,
        1,
        Box::new(apply(Term::Variable(None, 0, 0), vec![Term::Variable(None, 0, 0)])),
    );
    let omega = apply(omega_half.clone(), vec![omega_half]);
    assert_eq!(message(eval_bounded(&omega, 50)), "evaluation nests too deep");
    assert_eq!(message(eval_bounded(&apply(Term::Add(None), vec![num(1), num(2)]), 0)),
        "evaluation nests too deep");
    assert_eq!(message(eval_bounded(&apply(Term::Add(None), vec![num(1), num(2)]), 1)), "value 3");
}

#[test]
fn error_positions_are_rendered_from_one() {
    let e = CompileError {
        info: Some(FileInfo {
            filepath: "a.lisp".to_string(),
            range: Range {
                from: Location { line: 0, col: 2 },
                to: Location { line: 1, col: 0 },
            },
        }),
        message: Some("boom".to_string()),
    };
    assert_eq!(e.to_string(), "a.lisp: (line 1 col 3-line 2 col 1): boom");
    let single = CompileError { info: here(4, 9), message: None };
    assert_eq!(single.to_string(), "a.lisp: (line 5 col 10): <no message>");
    let nowhere = CompileError { info: None, message: Some("boom".to_string()) };
    assert_eq!(nowhere.to_string(), "<no file>: boom");
    assert_eq!(Location { line: 11, col: 0 }.to_string(), "line 12 col 1");
}

#[test]
fn errors_carry_the_position_of_the_operator_or_the_application() {
    let t = Term::Apply(here(3, 4), Box::new(Term::Car(here(3, 1))), vec![num(1)]);
    let e = eval(&t).unwrap_err();
    assert_eq!(e.to_string(), "a.lisp: (line 4 col 5): car operator only 1 cons.");
    let u = Term::Apply(here(3, 4), Box::new(num(1)), vec![]);
    assert_eq!(eval(&u).unwrap_err().to_string(), "a.lisp: (line 4 col 5): operator expected");
}

#[test]
fn map_file_info_and_map_subterm_rebuild_the_term() {
    let t = Term::Cons(here(1, 1), Box::new(num(1)), Box::new(num(2)));
    let moved = t.map_file_info(|_| None);
    assert!(moved.file_info().is_none());
    assert_eq!(show(&moved), "(cons 1 2)");
    let mapped = t.map_subterm(|s| Term::Quote(None, Box::new(s)));
    assert_eq!(show(&mapped), "(cons (quote 1) (quote 2))");
    assert!(mapped.file_info().is_some());
    let a = apply(Term::Add(None), vec![num(1), num(2)]);
    assert_eq!(show(&a.map_subterm(|_| Term::Nil(None))), "(nil nil nil)");
    assert_eq!(show(&num(5).map_subterm(|_| Term::Nil(None))), "5");
}

#[test]
fn printer_shows_every_core_form() {
    let t = Term::If(
        None,
        Box::new(Term::Bool(None, true)),
        Box::new(apply(Term::Eq(None), vec![Term::Nil(None), Term::Eval(None)])),
        Box::new(apply(
            Term::Mul(None),
            vec![Term::Div(None), Term::Rem(None), Term::Car(None), Term::Cdr(None)],
        )),
    );
    assert_eq!(show(&t), "(if true (eq nil eval) (* / % car cdr))");
    assert_eq!(show(&apply(Term::Add(None), vec![])), "(+ )");
    assert_eq!(show(&Term::Bool(None, false)), "false");
}

#[test]
fn runaway_reduction_ends_in_an_error() {
    let half = Term::Lambda(
        None,
        1,
        Box::new(apply(Term::Variable(None, 0, 0), vec![Term::Variable(None, 0, 0)])),
    );
    let omega = apply(half.clone(), vec![half]);
    assert_eq!(message(eval_bounded(&omega, 300)), "evaluation nests too deep");
}

#[test]
fn metadata_of_values_does_not_change_what_an_application_gives() {
    let body = Term::Quote(None, Box::new(Term::Variable(None, 0, 0)));
    let lam = Term::Lambda(here(0, 0), 1, Box::new(body.clone()));
    let marked = vec![Term::Number(here(2, 2), Natural::from_u32(8))];
    let plain = vec![num(8)];
    let a = eval(&apply(lam.clone(), marked.clone())).unwrap();
    let b = eval(&apply(lam, plain)).unwrap();
    let c = eval(&substitution(&body, 0, &marked)).unwrap();
    assert!(equiv_term(&a, &b) && equiv_term(&a, &c));
    assert_eq!(show(&a), "(quote 8)");
}
