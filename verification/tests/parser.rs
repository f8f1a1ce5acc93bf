use buguc::lexer::tokenize;
use buguc::parser::{check_syntax, parsing, Parser, ParseError};

fn body(src: &str) -> String {
    let tokens = tokenize(src.to_string()).unwrap();
    let (prog, _) = parsing(&tokens);
    format!("{:?}", prog.funcs[0].stmt)
}

fn error(src: &str) -> (usize, String) {
    let tokens = tokenize(src.to_string()).unwrap();
    match check_syntax(&tokens) {
        Ok(()) => panic!("parsed"),
        Err(ParseError { pos, msg }) => (pos, msg),
    }
}

#[test]
fn one_function_and_no_globals() {
    let tokens = tokenize("int main() { return 0; }".to_string()).unwrap();
    let (prog, _) = parsing(&tokens);
    assert_eq!(prog.funcs.len(), 1);
    assert_eq!(prog.funcs[0].name, "main");
    assert!(prog.funcs[0].params.is_empty());
    assert!(prog.global_vars.is_empty());
}

#[test]
fn multiplication_binds_tighter_than_addition() {
    assert_eq!(
        body("int f() { return 1 + 2 * 3; }"),
        "[Stmt(Ret(Add(Unary(Int(1)), Mul(Unary(Int(2)), Unary(Int(3))))))]"
    );
}

#[test]
fn subtraction_associates_to_the_left() {
    assert_eq!(
        body("int f() { return 1 - 2 - 3; }"),
        "[Stmt(Ret(Sub(Sub(Unary(Int(1)), Unary(Int(2))), Unary(Int(3)))))]"
    );
}

#[test]
fn division_and_modulo() {
    assert_eq!(
        body("int f() { return 8 / 4 % 3; }"),
        "[Stmt(Ret(Mod(Div(Unary(Int(8)), Unary(Int(4))), Unary(Int(3)))))]"
    );
}

#[test]
fn comparisons() {
    assert_eq!(
        body("int f() { return 1 <= 2 < 3; }"),
        "[Stmt(Ret(Lt(Let(Unary(Int(1)), Unary(Int(2))), Unary(Int(3)))))]"
    );
    assert_eq!(
        body("int f() { return 1 >= 2 > 3; }"),
        "[Stmt(Ret(Gt(Get(Unary(Int(1)), Unary(Int(2))), Unary(Int(3)))))]"
    );
}

#[test]
fn equality_and_logic() {
    assert_eq!(
        body("int f() { return 1 == 2 || 3 != 4 && 5; }"),
        "[Stmt(Ret(Or(Equals(Unary(Int(1)), Unary(Int(2))), And(NotEquals(Unary(Int(3)), Unary(Int(4))), Unary(Int(5))))))]"
    );
}

#[test]
fn conditional_expression() {
    assert_eq!(
        body("int f() { return 1 ? 2 : 3 ? 4 : 5; }"),
        "[Stmt(Ret(Cond(Unary(Int(1)), Unary(Int(2)), Cond(Unary(Int(3)), Unary(Int(4)), Unary(Int(5))))))]"
    );
}

#[test]
fn assignment_is_right_associative() {
    assert_eq!(
        body("int f() { x = y = 3; }"),
        "[Stmt(Expr(Some(Assign([1, 2], \"x\", Assign([1, 2], \"y\", Unary(Int(3)))))))]"
    );
}

#[test]
fn names_on_the_left_of_double_equals_read_as_assignments() {
    // `a == 1` starts like `a = ...`, and `= 1` is no expression.
    assert_eq!(error("int f() { return a == 1; }"), (9, "expected , actual Equal".to_string()));
}

#[test]
fn negation_and_brackets() {
    assert_eq!(
        body("int f() { return -(1 + x); }"),
        "[Stmt(Ret(Unary(Neg(Primary(Add(Unary(Int(1)), Unary(Identifier([1, 2], \"x\"))))))))]"
    );
}

#[test]
fn closing_bracket_is_passed_over_unread() {
    assert_eq!(body("int f() { return (1 + 2 3; }"), body("int f() { return (1 + 2); }"));
}

#[test]
fn lone_bar_ends_the_expression() {
    assert_eq!(error("int f() { return 1 | 2; }"), (8, "Semicolon expected , actual Num(2)".to_string()));
}

#[test]
fn declarations_go_into_the_table() {
    let tokens = tokenize("int f() { int a; int b = 5; return b; }".to_string()).unwrap();
    let (prog, table) = parsing(&tokens);
    assert_eq!(
        format!("{:?}", prog.funcs[0].stmt),
        "[Decl(Decl { t: Integer, name: \"a\", indexes: [], expr: None, scope: [1, 2] }), \
Decl(Decl { t: Integer, name: \"b\", indexes: [], expr: Some(Unary(Int(5))), scope: [1, 2] }), \
Stmt(Ret(Unary(Identifier([1, 2], \"b\"))))]"
    );
    assert!(table.contains(&vec![1, 2], &"a".to_string()));
    assert!(table.contains(&vec![1, 2], &"b".to_string()));
    assert!(!table.contains(&vec![1], &"a".to_string()));
    assert_eq!(table.get(&vec![1, 2], &"b".to_string()).reg, None);
}

#[test]
fn if_with_and_without_else() {
    assert_eq!(
        body("int f() { if (1) return 2; else return 3; if (4) ; }"),
        "[Stmt(If(Unary(Int(1)), Ret(Unary(Int(2))), Some(Ret(Unary(Int(3)))))), Stmt(If(Unary(Int(4)), Expr(Some(Null)), None))]"
    );
}

#[test]
fn empty_statement() {
    assert_eq!(body("int f() { ; }"), "[Stmt(Expr(Some(Null)))]");
}

#[test]
fn tokens_after_the_function_are_not_read() {
    assert_eq!(body("int f() { return 1; } 5 + )"), body("int f() { return 1; }"));
}

#[test]
fn name_expected() {
    assert_eq!(error("int 5() { }"), (1, "ident expected".to_string()));
}

#[test]
fn type_expected() {
    assert_eq!(error("main() { }"), (0, "Int expected , actual Ident(\"main\")".to_string()));
}

#[test]
fn closing_parenthesis_expected() {
    assert_eq!(error("int f( { }"), (3, "RightParen expected , actual LeftBrace".to_string()));
}

#[test]
fn initializer_expected() {
    assert_eq!(error("int f() { int a 5; }"), (8, "; or expr expected from decl".to_string()));
}

#[test]
fn operand_expected() {
    assert_eq!(error("int f() { return ); }"), (7, "expected , actual RightParen".to_string()));
}

#[test]
fn end_of_tokens() {
    assert_eq!(error("int f() { return 1;"), (8, "unexpected end of tokens".to_string()));
    assert_eq!(error(""), (0, "unexpected end of tokens".to_string()));
}

#[test]
fn bad_token_reports_the_current_position() {
    let tokens = tokenize("int".to_string()).unwrap();
    let p = Parser::new(tokens);
    let e = p.bad_token("boom");
    assert_eq!(e.pos, 0);
    assert_eq!(e.msg, "boom");
}

#[test]
fn parameters_share_the_function_scope() {
    let tokens = tokenize("int f(int a, int b) { return a; }".to_string()).unwrap();
    let (prog, table) = parsing(&tokens);
    assert_eq!(
        format!("{:?}", prog.funcs[0].params),
        "[Param { t: Integer, scope: [1, 2], name: \"a\" }, Param { t: Integer, scope: [1, 2], name: \"b\" }]"
    );
    assert_eq!(format!("{:?}", prog.funcs[0].stmt), "[Stmt(Ret(Unary(Identifier([1, 2], \"a\"))))]");
    assert!(table.contains(&vec![1, 2], &"a".to_string()));
    assert!(table.contains(&vec![1, 2], &"b".to_string()));
}

#[test]
fn parameter_expected_after_a_comma() {
    assert_eq!(error("int f(int a,) { }"), (6, "Int expected , actual RightParen".to_string()));
}

#[test]
fn while_loop() {
    assert_eq!(body("int f() { while (1) ; }"), "[Stmt(While(Unary(Int(1)), Expr(Some(Null))))]");
}

#[test]
fn blocks_open_scopes_of_their_own() {
    assert_eq!(
        body("int f() { int a; { int b; a = b; } { int a; a = 1; } return a; }"),
        "[Decl(Decl { t: Integer, name: \"a\", indexes: [], expr: None, scope: [1, 2] }), \
Stmt(Block([Decl(Decl { t: Integer, name: \"b\", indexes: [], expr: None, scope: [1, 2, 3] }), \
Stmt(Expr(Some(Assign([1, 2], \"a\", Unary(Identifier([1, 2, 3], \"b\"))))))])), \
Stmt(Block([Decl(Decl { t: Integer, name: \"a\", indexes: [], expr: None, scope: [1, 2, 4] }), \
Stmt(Expr(Some(Assign([1, 2, 4], \"a\", Unary(Int(1))))))])), \
Stmt(Ret(Unary(Identifier([1, 2], \"a\"))))]"
    );
}

#[test]
fn a_name_declared_in_a_block_is_not_seen_after_it() {
    let tokens = tokenize("int f() { { int b; } return b; }".to_string()).unwrap();
    let (prog, table) = parsing(&tokens);
    assert_eq!(format!("{:?}", prog.funcs[0].stmt[1]), "Stmt(Ret(Unary(Identifier([1, 2], \"b\"))))");
    assert!(table.contains(&vec![1, 2, 3], &"b".to_string()));
    assert!(!table.contains(&vec![1, 2], &"b".to_string()));
}

#[test]
fn closing_brace_of_a_block_expected() {
    assert_eq!(error("int f() { { return 1; "), (9, "unexpected end of tokens".to_string()));
}

#[test]
fn check_syntax_accepts_what_parses() {
    let tokens = tokenize("int f(int a) { while (a) { a = a - 1; } return a; }".to_string()).unwrap();
    assert!(check_syntax(&tokens).is_ok());
    let (prog, _) = parsing(&tokens);
    assert_eq!(prog.funcs[0].params.len(), 1);
}
