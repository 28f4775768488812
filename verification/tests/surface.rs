use lambdalisp::action::run::{error_line, input_line, output_line};
use lambdalisp::common::fileinfo::CompileError;
use lambdalisp::common::natural::Natural;
use lambdalisp::common::resolver::{
    is_file_request, library_file_name, resolve_failure, ContentResolveResult, ContentResolver,
    ResolveFailure,
};
use lambdalisp::corelang::printer::simple::SimplePrinter as CorePrinter;
use lambdalisp::corelang::syntax::Term;
use lambdalisp::metalang::eval::{
    absorb_module, module_from_answer, run_module, MetaEvaluator, RunMode,
};
use lambdalisp::metalang::parser::{is_identifier, is_identifier_head, MetaParser};
use lambdalisp::metalang::printer::simple::{print_string, SimplePrinter};
use lambdalisp::metalang::syntax::{
    transform_to_core, MetaEnv, MetaExport, MetaStatement, MetaTerm,
};
use lambdalisp::parse_string;
use std::path::PathBuf;

/// Modules held in memory, and a count of the requests made.
struct Shelf {
    asked: usize,
}

impl ContentResolver for Shelf {
    fn resolve(
        &mut self,
        _from_path: &Option<PathBuf>,
        to_resolve: &String,
    ) -> Result<ContentResolveResult, String> {
        self.asked += 1;
        let content = match to_resolve.as_str() {
            "one" => "(def one 1) (def hidden 5) (export one)",
            "two" => "(import \"one\") (def two (+ one one)) (export two \"one\")",
            "loop" => "(import \"loop\")",
            "broken" => "(def x",
            "checked" => "(assert false)",
            _ => return Err("nothing there".to_string()),
        };
        Ok(ContentResolveResult {
            content: content.to_string(),
            filepath: None,
        })
    }
}

fn parse(source: &str) -> Result<Vec<MetaStatement>, CompileError> {
    let mut p = MetaParser::new("<test>".into(), source.chars().collect());
    p.parse_stmt_vec()
}

fn run_with(source: &str, do_assert: bool) -> Result<String, String> {
    let mut evaluator = MetaEvaluator::new(Shelf { asked: 0 });
    evaluator.do_assert = do_assert;
    evaluator.depth = 512;
    evaluator.import_depth = 16;
    let stmts = parse(source).map_err(|e| e.to_string())?;
    let values = evaluator.eval_vec(&stmts).map_err(|e| e.to_string())?;
    Ok(values
        .iter()
        .map(|v| CorePrinter::default().print(v))
        .collect::<Vec<String>>()
        .join("\n"))
}

fn run(source: &str) -> Result<String, String> {
    run_with(source, false)
}

fn reprint(source: &str) -> String {
    let stmts = parse(source).unwrap();
    stmts
        .iter()
        .map(|s| SimplePrinter::default().print_stmt(s))
        .collect::<Vec<String>>()
        .join("\n")
}

fn parse_error(source: &str) -> String {
    match parse(source) {
        Ok(_) => "parsed".to_string(),
        Err(e) => e.to_string(),
    }
}

#[test]
fn statements_print_back_in_their_surface_forms() {
    assert_eq!(reprint("(def  a   (+ 1 2))"), "(def a (+ 1 2))");
    assert_eq!(
        reprint("(lambda (a b) (if a (list 1 b) (quote (cons nil true))))"),
        "(lambda (a b) (if a (list 1 b) (quote (cons nil true))))"
    );
    assert_eq!(reprint("(assert (eq 1 1))"), "(assert (eq 1 1))");
    assert_eq!(reprint("(import \"a\" \"b/c\")"), "(import \"a\" \"b/c\")");
    assert_eq!(reprint("(export a \"b\" c)"), "(export a \"b\" c)");
    assert_eq!(
        reprint("(defrec f (n) (g n) g (a b) (f a))"),
        "(defrec f (n) (g n) g (a b) (f a))"
    );
    assert_eq!(reprint("(car cdr eval eq + - * / % false)"), "(car cdr eval eq + - * / % false)");
    assert_eq!(reprint("1 2\n3"), "1\n2\n3");
    assert_eq!(reprint(""), "");
    assert_eq!(reprint("(f)"), "(f )");
}

#[test]
fn strings_are_read_with_their_escapes() {
    let stmts = parse("(import \"a\\\\b\\n\\r\\t\\\"c\")").unwrap();
    match &stmts[0] {
        MetaStatement::Import(_, paths) => {
            assert_eq!(paths.len(), 1);
            assert_eq!(paths[0], "a\\b\n\r\t\"c");
            assert_eq!(
                print_string(&paths[0]),
                "\"a\\\\b\\n\\r\\t\\\"c\""
            );
        }
        _ => panic!("an import was expected"),
    }
}

#[test]
fn numbers_of_any_size_are_read() {
    assert_eq!(
        run("(+ 340282366920938463463374607431768211456 1)").unwrap(),
        "340282366920938463463374607431768211457"
    );
    assert_eq!(run("007").unwrap(), "7");
}

#[test]
fn parse_errors_carry_position_and_cause() {
    assert_eq!(
        parse_error("(+ 1"),
        "<test>: (line 1 col 5): value expected: found <EOF>"
    );
    assert_eq!(
        parse_error(")"),
        "<test>: (line 1 col 1): value expected: found ')'"
    );
    assert_eq!(
        parse_error("()"),
        "<test>: (line 1 col 3): Apply without operator not allowed"
    );
    assert_eq!(
        parse_error("(cons 1)"),
        "<test>: (line 1 col 9): cons only accepts 2 terms"
    );
    assert_eq!(
        parse_error("(quote 1 2)"),
        "<test>: (line 1 col 12): quote only accepts 1 term"
    );
    assert_eq!(
        parse_error("(if 1 2)"),
        "<test>: (line 1 col 9): if only accepts 3 terms"
    );
    assert_eq!(
        parse_error("(def 1 2)"),
        "<test>: (line 1 col 6): def should follow variable name"
    );
    assert_eq!(
        parse_error("(def lambda 2)"),
        "<test>: (line 1 col 12): expected string starting double quotation: found ' '"
    );
    assert_eq!(
        parse_error("(def a 2"),
        "<test>: (line 1 col 9): expect def statement end parenthesis: found <EOF>"
    );
    assert_eq!(
        parse_error("(assert true 1)"),
        "<test>: (line 1 col 15): expect assert statement end parenthesis: found '1'"
    );
    assert_eq!(
        parse_error("(lambda a a)"),
        "<test>: (line 1 col 10): lambda args: expect start parenthesis for args: got 'a'"
    );
    assert_eq!(
        parse_error("(lambda (1) a)"),
        "<test>: (line 1 col 10): identifier expected: found \"'1'\""
    );
    assert_eq!(
        parse_error("(lambda (a) a b)"),
        "<test>: (line 1 col 16): expect lambda end parenthesis for args: found 'b'"
    );
    assert_eq!(
        parse_error("(import a)"),
        "<test>: (line 1 col 10): expected string starting double quotation: found ')'"
    );
    assert_eq!(
        parse_error("(import \"a"),
        "<test>: (line 1 col 11): expected string ending double quotation: found <EOF>"
    );
    assert_eq!(
        parse_error("(import \"a\\"),
        "<test>: (line 1 col 12): expected string ending double quotation: found <EOF>"
    );
    assert_eq!(
        parse_error("(import \"a\\q\")"),
        "<test>: (line 1 col 13): unknown string escape sequence \"\\q\""
    );
    assert_eq!(
        parse_error("(export 1)"),
        "<test>: (line 1 col 9): export statement expects string or identifier for variable exported"
    );
    assert_eq!(
        parse_error("(defrec (n) n)"),
        "<test>: (line 1 col 9): expect defrec definition variable name"
    );
    assert_eq!(
        parse_error("(defrec f n n)"),
        "<test>: (line 1 col 12): defrec definition args: expect start parenthesis for args: got 'n'"
    );
    assert_eq!(
        parse_error("1\n (+ 1"),
        "<test>: (line 2 col 6): value expected: found <EOF>"
    );
}

#[test]
fn parse_string_reads_a_whole_text() {
    let stmts = parse_string("(def a 1) a".to_string()).unwrap();
    assert_eq!(stmts.len(), 2);
    let e = parse_string("(".to_string()).unwrap_err();
    assert_eq!(e.to_string(), "<string>: (line 1 col 2): value expected: found <EOF>");
}

#[test]
fn atoms_carry_the_columns_they_stand_in() {
    let mut p = MetaParser::new("f".into(), "  true".chars().collect());
    let t = p.parse_term().unwrap();
    let info = t.file_info().clone().unwrap();
    assert_eq!(info.to_string(), "f: (line 1 col 3-line 1 col 7)");
}

fn lower(source: &str) -> Result<String, String> {
    let stmts = parse(source).map_err(|e| e.to_string())?;
    let env = MetaEnv::new();
    match &stmts[0] {
        MetaStatement::Term(_, t) => transform_to_core(&env, t)
            .map(|c| CorePrinter::default().print(&c))
            .map_err(|e| e.message.unwrap()),
        _ => Err("a term was expected".to_string()),
    }
}

#[test]
fn lowering_turns_names_into_depth_and_slot() {
    assert_eq!(
        lower("(lambda (a b) (lambda (c) (a b c)))").unwrap(),
        "(lambda<2-ary> (lambda<1-ary> (ARG<1-up 0-th> ARG<1-up 1-th> ARG<0-up 0-th>)))"
    );
    assert_eq!(
        lower("(lambda (a) (lambda (a) a))").unwrap(),
        "(lambda<1-ary> (lambda<1-ary> ARG<0-up 0-th>))"
    );
    assert_eq!(lower("(lambda () 1)").unwrap(), "(lambda<0-ary> 1)");
}

#[test]
fn lowering_keeps_constants() {
    assert_eq!(lower("12").unwrap(), "12");
    assert_eq!(lower("nil").unwrap(), "nil");
    assert_eq!(lower("true").unwrap(), "true");
    assert_eq!(lower("false").unwrap(), "false");
    assert_eq!(lower("(list eq eval + - * / % car cdr)").unwrap(),
        "(cons eq (cons eval (cons + (cons - (cons * (cons / (cons % (cons car (cons cdr nil)))))))))");
}

#[test]
fn lowering_errors() {
    assert_eq!(
        lower("(lambda (a a) a)").unwrap_err(),
        "Variable names in one lambda should be unique."
    );
    assert_eq!(
        lower("(+ 1 x)").unwrap_err(),
        "Variable name \"x\" is not defined variable."
    );
    assert_eq!(
        lower("(list 1 y z)").unwrap_err(),
        "Variable name \"y\" is not defined variable."
    );
}

#[test]
fn definitions_are_inlined_and_shadowed_by_binders() {
    assert_eq!(run("(def a 7) ((lambda (a) a) 1) a").unwrap(), "1\n7");
    assert_eq!(run("(def a 1) (def f (lambda (n) (+ n a))) (def a 10) (f 1)").unwrap(), "2");
}

#[test]
fn list_items_are_reached_by_car_and_cdr() {
    assert_eq!(run("(car (list 7 8 9))").unwrap(), "7");
    assert_eq!(run("(car (cdr (list 7 8 9)))").unwrap(), "8");
    assert_eq!(run("(car (cdr (cdr (list 7 8 9))))").unwrap(), "9");
    assert_eq!(run("(cdr (cdr (cdr (list 7 8 9))))").unwrap(), "nil");
}

#[test]
fn recursive_groups_recur_through_applications() {
    assert_eq!(
        run("(defrec fact (n) (if (eq n 0) 1 (* n (fact (- n 1))))) (fact 5) (fact 20)").unwrap(),
        "120\n2432902008176640000"
    );
    assert_eq!(
        run("(defrec even (n) (if (eq n 0) true (odd (- n 1)))
                     odd (n) (if (eq n 0) false (even (- n 1))))
             (even 10) (odd 10) (even 7)")
        .unwrap(),
        "true\nfalse\nfalse"
    );
    assert_eq!(
        run("(defrec fib (n) (if (eq n 0) 0 (if (eq n 1) 1 (+ (fib (- n 1)) (fib (- n 2)))))) (fib 10)")
            .unwrap(),
        "55"
    );
}

#[test]
fn recursive_group_with_a_repeated_name_is_refused() {
    assert_eq!(
        run("(defrec f (f) 1)").unwrap_err(),
        "<test>: (line 1 col 17): Variable names in one lambda should be unique."
    );
}

#[test]
fn assertions_are_checked_only_when_asked_for() {
    assert_eq!(run_with("(assert (eq 1 1)) 5", true).unwrap(), "5");
    assert_eq!(run_with("(assert false) 5", false).unwrap(), "5");
    assert_eq!(
        run_with("(assert false) 5", true).unwrap_err(),
        "<test>: (line 1 col 15): assertion failed"
    );
    assert_eq!(
        run_with("(assert 1)", true).unwrap_err(),
        "<test>: (line 1 col 11): assertion failed"
    );
    assert_eq!(
        run_with("(import \"checked\")", true).unwrap_err(),
        "checked: (line 1 col 15): assertion failed"
    );
    assert_eq!(run_with("(import \"checked\") 1", false).unwrap(), "1");
}

#[test]
fn imports_bring_exports_only() {
    assert_eq!(run("(import \"one\") one").unwrap(), "1");
    assert_eq!(
        run("(import \"one\") hidden").unwrap_err(),
        "<test>: (line 1 col 16-line 1 col 22): Variable name \"hidden\" is not defined variable."
    );
    assert_eq!(run("(import \"two\") (+ one two)").unwrap(), "3");
    assert_eq!(run("(import \"one\" \"two\") two").unwrap(), "2");
    assert_eq!(run("(import) 4").unwrap(), "4");
}

#[test]
fn import_failures() {
    assert_eq!(
        run("(import \"nowhere\")").unwrap_err(),
        "<no file>: resolve error: nothing there"
    );
    assert_eq!(
        run("(import \"broken\")").unwrap_err(),
        "broken: (line 1 col 7): value expected: found <EOF>"
    );
    assert_eq!(
        run("(import \"loop\")").unwrap_err(),
        "<no file>: imports nest too deep"
    );
}

#[test]
fn exports_fill_the_exported_environment() {
    let mut evaluator = MetaEvaluator::new(Shelf { asked: 0 });
    let stmts = parse("(def a 1) (def b 2) (export a \"two\")").unwrap();
    evaluator.eval_vec(&stmts).unwrap();
    let name = |s: &str| s.to_string();
    assert!(evaluator.exported.get(&name("a")).is_some());
    assert!(evaluator.exported.get(&name("b")).is_none());
    assert!(evaluator.exported.get(&name("two")).is_some());
    assert!(evaluator.exported.get(&name("one")).is_some());
    assert!(evaluator.env.get(&name("two")).is_none());
    assert_eq!(evaluator.resolver.asked, 3);
    assert_eq!(
        run("(export nothing)").unwrap_err(),
        "<test>: (line 1 col 9): variable \"nothing\" cannot be exported. not found"
    );
}

#[test]
fn a_module_text_runs_from_empty_environments() {
    let mut shelf = Shelf { asked: 0 };
    let found = ContentResolveResult {
        content: "(def a 3) (def b (* a a)) (export b)".to_string(),
        filepath: None,
    };
    let mode = RunMode { do_assert: false, depth: 100 };
    let exported = run_module(&mut shelf, &"m".to_string(), found, mode, 4).unwrap();
    assert_eq!(
        CorePrinter::default().print(exported.get(&"b".to_string()).unwrap()),
        "(* 3 3)"
    );
    assert!(exported.get(&"a".to_string()).is_none());
    assert_eq!(shelf.asked, 0);
}

#[test]
fn environment_keeps_the_latest_binding() {
    let mut env = MetaEnv::new();
    let key = "k".to_string();
    assert!(env.get(&key).is_none());
    env.insert(key.clone(), Term::Number(None, Natural::from_u32(1)));
    env.insert("other".to_string(), Term::Nil(None));
    env.insert(key.clone(), Term::Number(None, Natural::from_u32(2)));
    assert_eq!(CorePrinter::default().print(env.get(&key).unwrap()), "2");
    let mut more = MetaEnv::new();
    more.insert(key.clone(), Term::Bool(None, true));
    env.absorb(&more);
    assert_eq!(CorePrinter::default().print(env.get(&key).unwrap()), "true");
    assert_eq!(CorePrinter::default().print(env.get(&"other".to_string()).unwrap()), "nil");
}

#[test]
fn printer_of_items() {
    let p = SimplePrinter::default();
    assert_eq!(p.print_import(&"a\"b".to_string()), "\"a\\\"b\"");
    assert_eq!(
        p.print_import_vec(&vec!["x".to_string(), "y".to_string()]),
        "\"x\" \"y\""
    );
    assert_eq!(p.print_import_vec(&vec![]), "");
    assert_eq!(p.print_export(&MetaExport::Var("v".to_string())), "v");
    assert_eq!(p.print_export(&MetaExport::Path("p".to_string())), "\"p\"");
    assert_eq!(
        p.print_export_vec(&vec![
            MetaExport::Var("v".to_string()),
            MetaExport::Path("p".to_string())
        ]),
        "v \"p\""
    );
    assert_eq!(p.print_term(&MetaTerm::Variable(None, "x".to_string())), "x");
}

#[test]
fn meta_map_subterm_rebuilds_the_term() {
    let p = SimplePrinter::default();
    let t = MetaTerm::List(
        None,
        vec![
            MetaTerm::Variable(None, "a".to_string()),
            MetaTerm::Variable(None, "b".to_string()),
        ],
    );
    let mapped = t.map_subterm(|s| MetaTerm::Quote(None, Box::new(s)));
    assert_eq!(p.print_term(&mapped), "(list (quote a) (quote b))");
}

#[test]
fn run_reports() {
    let stmts = parse("(def a (+ 1 2))").unwrap();
    assert_eq!(input_line(3, &stmts[0]), "In[3] = (def a (+ 1 2))");
    assert_eq!(
        output_line(12, &Term::Number(None, Natural::from_u32(5))),
        "Out[12] = 5"
    );
    let e = CompileError { info: None, message: Some("m".to_string()) };
    assert_eq!(error_line(&e), "EVAL ERROR: <no file>: m");
}

#[test]
fn resolver_requests() {
    assert!(is_file_request(&"./a".to_string()));
    assert!(is_file_request(&"..".to_string()));
    assert!(!is_file_request(&"std".to_string()));
    assert!(!is_file_request(&"".to_string()));
    assert_eq!(library_file_name(&"std/arith".to_string()), "std/arith.lisp");
    let r = "x".to_string();
    assert_eq!(resolve_failure(ResolveFailure::CurrentDir, &r), "could not get current directly");
    assert_eq!(resolve_failure(ResolveFailure::Canonicalize, &r), "could not canonicalize \"x\"");
    assert_eq!(resolve_failure(ResolveFailure::Open, &r), "could not open \"x\"");
    assert_eq!(resolve_failure(ResolveFailure::NotUtf8, &r), "could not read \"x\" as UTF-8");
    assert_eq!(resolve_failure(ResolveFailure::NotInLibrary, &r), "not found built-in lib \"x\"");
}

#[test]
fn whitespace_separates_and_control_characters_end_names() {
    assert_eq!(run("(+\t1\n\u{3000}2)").unwrap(), "3");
    assert_eq!(
        parse_error("(def a\u{1} 1)"),
        "<test>: (line 1 col 7): value expected: found '\u{1}'"
    );
    assert_eq!(
        parse_error("(a'b)"),
        "<test>: (line 1 col 3): value expected: found '''"
    );
}

#[test]
fn the_depth_of_reduction_can_be_set() {
    let source = "(defrec down (n) (if (eq n 0) 0 (down (- n 1)))) (down 30)";
    let stmts = parse(source).unwrap();
    let mut shallow = MetaEvaluator::new(Shelf { asked: 0 });
    shallow.depth = 20;
    let e = shallow.eval_vec(&stmts).unwrap_err();
    assert_eq!(e.message.unwrap(), "evaluation nests too deep");
    let mut deep = MetaEvaluator::new(Shelf { asked: 0 });
    deep.depth = 400;
    let values = deep.eval_vec(&stmts).unwrap();
    assert_eq!(CorePrinter::default().print(&values[0]), "0");
}

#[test]
fn the_answer_of_the_resolver_decides_an_import() {
    let mode = RunMode { do_assert: false, depth: 100 };
    let name = "m".to_string();
    let mut shelf = Shelf { asked: 0 };
    let refused = module_from_answer(&mut shelf, &name, Err("gone".to_string()), mode, 4);
    assert_eq!(refused.unwrap_err().to_string(), "<no file>: resolve error: gone");
    let found = ContentResolveResult {
        content: "(def a 2) (export a)".to_string(),
        filepath: None,
    };
    let exported = module_from_answer(&mut shelf, &name, Ok(found), mode, 4).unwrap();
    assert_eq!(CorePrinter::default().print(exported.get(&"a".to_string()).unwrap()), "2");
    let broken = ContentResolveResult { content: "(".to_string(), filepath: None };
    let e = module_from_answer(&mut shelf, &name, Ok(broken), mode, 4).unwrap_err();
    assert_eq!(e.to_string(), "m: (line 1 col 2): value expected: found <EOF>");
    assert_eq!(shelf.asked, 0);
}

fn listed_white_space(c: char) -> bool {
    matches!(
        c as u32,
        0x9..=0xd
            | 0x20
            | 0x85
            | 0xa0
            | 0x1680
            | 0x2000..=0x200a
            | 0x2028
            | 0x2029
            | 0x202f
            | 0x205f
            | 0x3000
    )
}

fn listed_control(c: char) -> bool {
    matches!(c as u32, 0..=0x1f | 0x7f..=0x9f)
}

#[test]
fn identifier_characters_are_all_but_the_listed_ones() {
    for code in 0..=0x10ffffu32 {
        if let Some(c) = char::from_u32(code) {
            let excluded = listed_white_space(c)
                || listed_control(c)
                || c == '('
                || c == ')'
                || c == '"'
                || c == '\'';
            assert_eq!(is_identifier(c), !excluded, "code point {:x}", code);
            assert_eq!(
                is_identifier_head(c),
                !excluded && !('0'..='9').contains(&c),
                "code point {:x}",
                code
            );
            assert_eq!(c.is_whitespace(), listed_white_space(c), "code point {:x}", code);
            assert_eq!(c.is_control(), listed_control(c), "code point {:x}", code);
        }
    }
}

#[test]
fn a_new_driver_has_the_depths_of_the_machine() {
    let evaluator = MetaEvaluator::new(Shelf { asked: 0 });
    assert_eq!(evaluator.depth, usize::MAX);
    assert_eq!(evaluator.import_depth, usize::MAX);
    assert!(!evaluator.do_assert);
}

#[test]
fn what_a_module_gave_is_added_to_the_environment() {
    let show = |env: &MetaEnv, key: &str| {
        env.get(&key.to_string()).map(|t| CorePrinter::default().print(t))
    };
    let mut env = MetaEnv::new();
    env.insert("a".to_string(), Term::Number(None, Natural::from_u32(1)));
    env.insert("b".to_string(), Term::Number(None, Natural::from_u32(2)));
    let mut module = MetaEnv::new();
    module.insert("b".to_string(), Term::Bool(None, true));
    module.insert("c".to_string(), Term::Nil(None));
    assert!(absorb_module(&mut env, Ok(module)).is_ok());
    assert_eq!(show(&env, "a"), Some("1".to_string()));
    assert_eq!(show(&env, "b"), Some("true".to_string()));
    assert_eq!(show(&env, "c"), Some("nil".to_string()));
    let failure = CompileError { info: None, message: Some("no".to_string()) };
    let e = absorb_module(&mut env, Err(failure)).unwrap_err();
    assert_eq!(e.to_string(), "<no file>: no");
    assert_eq!(show(&env, "b"), Some("true".to_string()));
    assert_eq!(show(&env, "d"), None);
}

#[test]
fn an_import_adds_the_exports_of_the_module_and_nothing_else() {
    let mut evaluator = MetaEvaluator::new(Shelf { asked: 0 });
    let stmts = parse("(def hidden 9) (import \"one\") one hidden").unwrap();
    let values = evaluator.eval_vec(&stmts).unwrap();
    assert_eq!(values.len(), 2);
    assert_eq!(CorePrinter::default().print(&values[0]), "1");
    assert_eq!(CorePrinter::default().print(&values[1]), "9");
    assert!(evaluator.exported.get(&"one".to_string()).is_none());
}

#[test]
fn what_stands_before_the_first_request_runs_without_the_resolver() {
    let mut evaluator = MetaEvaluator::new(Shelf { asked: 0 });
    let stmts = parse("(def a 1) b (import \"one\")").unwrap();
    let e = evaluator.eval_vec(&stmts).unwrap_err();
    assert_eq!(e.message.unwrap(), "Variable name \"b\" is not defined variable.");
    assert!(evaluator.env.get(&"a".to_string()).is_some());
    assert_eq!(evaluator.resolver.asked, 0);

    let mut exporter = MetaEvaluator::new(Shelf { asked: 0 });
    let stmts = parse("(def a 1) (export a nothing \"one\")").unwrap();
    let e = exporter.eval_vec(&stmts).unwrap_err();
    assert_eq!(e.message.unwrap(), "variable \"nothing\" cannot be exported. not found");
    assert!(exporter.exported.get(&"a".to_string()).is_some());
    assert!(exporter.exported.get(&"one".to_string()).is_none());
    assert_eq!(exporter.resolver.asked, 0);
}

#[test]
fn an_import_at_depth_zero_fails_without_asking() {
    let mut evaluator = MetaEvaluator::new(Shelf { asked: 0 });
    evaluator.import_depth = 0;
    let stmts = parse("(def a 1) (import \"one\")").unwrap();
    let e = evaluator.eval_vec(&stmts).unwrap_err();
    assert_eq!(e.to_string(), "<no file>: imports nest too deep");
    assert_eq!(evaluator.resolver.asked, 0);
    evaluator.import_depth = 1;
    assert!(evaluator.eval_vec(&stmts).is_ok());
    assert_eq!(evaluator.resolver.asked, 1);
}
