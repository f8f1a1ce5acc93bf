use buguc::lexer::tokenize;

fn kinds(src: &str) -> Option<String> {
    tokenize(src.to_string()).map(|ts| {
        ts.iter().map(|t| format!("{:?}", t.ty)).collect::<Vec<_>>().join(" ")
    })
}

#[test]
fn tokens_of_a_declaration() {
    assert_eq!(kinds("int x = 10;").unwrap(), "Int Ident(\"x\") Equal Num(10) Semicolon");
}

#[test]
fn keywords_and_identifiers() {
    assert_eq!(
        kinds("if else return int while ifx _a1 Return whiles").unwrap(),
        "If Else Return Int While Ident(\"ifx\") Ident(\"_a1\") Ident(\"Return\") Ident(\"whiles\")"
    );
}

#[test]
fn every_punctuation_character() {
    assert_eq!(
        kinds("(){};=?:|&!<>+-*/%").unwrap(),
        "LeftParen RightParen LeftBrace RightBrace Semicolon Equal Ques Colon Or And Not Lt Gt Add Neg Mul Div Mod"
    );
}

#[test]
fn two_character_operators_are_two_tokens() {
    assert_eq!(kinds("a<=b==c||d").unwrap(), "Ident(\"a\") Lt Equal Ident(\"b\") Equal Equal Ident(\"c\") Or Or Ident(\"d\")");
}

#[test]
fn a_number_ends_where_a_name_begins() {
    assert_eq!(kinds("12ab 007").unwrap(), "Num(12) Ident(\"ab\") Num(7)");
}

#[test]
fn white_space_separates_and_is_dropped() {
    assert_eq!(kinds(" \tint\n\r main ").unwrap(), "Int Ident(\"main\")");
    assert_eq!(kinds("").unwrap(), "");
    assert_eq!(kinds("   \n").unwrap(), "");
}

#[test]
fn largest_number_that_fits() {
    assert_eq!(kinds("2147483647").unwrap(), "Num(2147483647)");
}

#[test]
fn number_out_of_range_is_refused() {
    assert_eq!(kinds("2147483648"), None);
    assert_eq!(kinds("x = 99999999999999999999999;"), None);
}

#[test]
fn unknown_character_is_refused() {
    assert_eq!(kinds("a @ b"), None);
    assert_eq!(kinds("a[1]"), None);
    assert_eq!(kinds("1.5"), None);
}

#[test]
fn comma_separates_names() {
    assert_eq!(kinds("a, b").unwrap(), "Ident(\"a\") Comma Ident(\"b\")");
}

#[test]
fn space_separated_texts_lex_to_joined_tokens() {
    let a = "x1 = 25 +";
    let b = "if(y)";
    let joined = kinds(&format!("{} {}", a, b)).unwrap();
    assert_eq!(joined, format!("{} {}", kinds(a).unwrap(), kinds(b).unwrap()));
    assert_eq!(kinds(&format!("{} {}", a, "#")), None);
    assert_eq!(kinds(&format!("{} {}", "#", b)), None);
}
