use tank::compiler::{CompileError, Compiler};
use tank::error::Diagnostic;
use tank::gen::GenError;
use tank::parser::ParseError;
use tank::reserved::Reserved;
use tank::strutil::append_decimal;
use tank::symbol_table::{SymbolError, SymbolTable};
use tank::token::TokenType;

fn compile_str(template: &str) -> Result<String, CompileError> {
    let mut c = Compiler::new(template.to_string(), "test.tank".to_string());
    c.compile()
}

#[test]
fn test_compile_single_element() {
    assert_eq!(
        compile_str("div() -> hello").unwrap(),
        "<div>\n  hello\n</div>\n"
    );
}

#[test]
fn test_compile_nested_elements() {
    assert_eq!(
        compile_str("div() -> p() -> hello").unwrap(),
        "<div>\n  <p>\n    hello\n  </p>\n</div>\n"
    );
}

#[test]
fn test_compile_attributes() {
    assert_eq!(
        compile_str("a(href: index) -> home").unwrap(),
        "<a href=\"index\">\n  home\n</a>\n"
    );
}

#[test]
fn test_compile_two_top_level_elements() {
    assert_eq!(
        compile_str("div() -> one p() -> two").unwrap(),
        "<div>\n  one\n</div>\n<p>\n  two\n</p>\n"
    );
}

#[test]
fn test_compile_if_true_emits_body() {
    assert_eq!(
        compile_str("let x: int = 10 if x > 9 { div() -> yes }").unwrap(),
        "<div>\n  yes\n</div>\n"
    );
}

#[test]
fn test_compile_if_false_emits_nothing() {
    assert_eq!(
        compile_str("let x: int = 10 if x > 10 { div() -> yes }").unwrap(),
        ""
    );
}

#[test]
fn test_compile_if_all_operators() {
    // value bound: x = 10; each template holds one comparison and a body.
    let cases: Vec<(&str, bool)> = vec![
        ("let x: int = 10 if x > 9 { div() -> y }", true),
        ("let x: int = 10 if x > 10 { div() -> y }", false),
        ("let x: int = 10 if x >= 10 { div() -> y }", true),
        ("let x: int = 10 if x >= 11 { div() -> y }", false),
        ("let x: int = 10 if x < 11 { div() -> y }", true),
        ("let x: int = 10 if x < 10 { div() -> y }", false),
        ("let x: int = 10 if x <= 10 { div() -> y }", true),
        ("let x: int = 10 if x <= 9 { div() -> y }", false),
        ("let x: int = 10 if x == 10 { div() -> y }", true),
        ("let x: int = 10 if x == 11 { div() -> y }", false),
        ("let x: int = 10 if x != 11 { div() -> y }", true),
        ("let x: int = 10 if x != 10 { div() -> y }", false),
    ];
    for (template, expect_body) in cases {
        let html = compile_str(template).unwrap();
        let expected = if expect_body { "<div>\n  y\n</div>\n" } else { "" };
        assert_eq!(html, expected, "template: {}", template);
    }
}

#[test]
fn test_compile_assignment_only_writes_nothing() {
    assert_eq!(compile_str("let x: int = 10 div() -> ok").unwrap(), "<div>\n  ok\n</div>\n");
}

#[test]
fn test_compile_redeclaration_fails() {
    match compile_str("let x: int = 1 let x: int = 1 div() -> y") {
        Err(CompileError::Parse { err: ParseError::Symbol { err, .. } }) => {
            assert_eq!(err, SymbolError::Redeclared);
        },
        other => panic!("unexpected compile outcome: {:?}", other),
    }
}

#[test]
fn test_compile_unbound_for_fails() {
    match compile_str("for a in b div() -> y") {
        Err(CompileError::Gen { err }) => {
            assert_eq!(err, GenError::UnboundLoopSource);
        },
        other => panic!("unexpected compile outcome: {:?}", other),
    }
}

#[test]
fn test_compile_for_with_config_binding() {
    let mut c = Compiler::from_config_file(
        "for a in b div() -> y".to_string(),
        "test.tank".to_string(),
        "{\"b\": \"3\"}",
    )
    .unwrap();
    assert_eq!(c.compile().unwrap(), "<div>\n  y\n</div>\n");
}

#[test]
fn test_compile_config_seeds_symbols() {
    let mut c = Compiler::from_config_file(
        "if port == 8080 { div() -> open }".to_string(),
        "test.tank".to_string(),
        "{\"port\": \"8080\"}",
    )
    .unwrap();
    assert_eq!(c.compile().unwrap(), "<div>\n  open\n</div>\n");
}

#[test]
fn test_compile_bad_config_refused() {
    let r = Compiler::from_config_file(
        "div() -> y".to_string(),
        "test.tank".to_string(),
        "this is not json",
    );
    assert_eq!(r.err(), Some(CompileError::Config));
}

#[test]
fn test_compile_config_must_map_to_strings() {
    let r = Compiler::from_config_file(
        "div() -> y".to_string(),
        "test.tank".to_string(),
        "{\"b\": 3}",
    );
    assert_eq!(r.err(), Some(CompileError::Config));
}

#[test]
fn test_parse_error_diagnostic_line() {
    let mut c = Compiler::new("if".to_string(), "test.tank".to_string());
    let r = c.compile();
    assert!(r.is_err());
    let errors = c.parser.diagnostic.errors();
    assert_eq!(errors.len(), 1);
    assert_eq!(
        errors[0],
        "tank: Parse error at line 0, pos 0 - Expected LeftBrace, found Eof"
    );
}

#[test]
fn test_reserved_words() {
    let r = Reserved::new();
    assert!(r.contains("if"));
    assert!(r.contains("let"));
    assert!(r.contains("for"));
    assert!(r.contains("in"));
    assert!(r.contains("int"));
    assert!(r.contains("bool"));
    assert!(r.contains("string"));
    assert!(!r.contains("div"));
    assert!(!r.contains(""));
}

#[test]
fn test_symbol_table_for_binding() {
    let mut t = SymbolTable::new();
    let mut id = tank::ast::Ast::new_from_value(tank::ast::AstType::Ident, "item");
    id.var_type = Some("int".to_string());
    t.insert_for_id(&id).unwrap();
    let sym = t.get("item").unwrap();
    assert_eq!(sym.scope, "for");
    assert_eq!(sym.val, "item");
    // Rebinding the same name is refused.
    assert_eq!(t.insert_for_id(&id), Err(SymbolError::Redeclared));
}

#[test]
fn test_append_decimal_renders() {
    let mut s = String::from("line ");
    append_decimal(&mut s, 0);
    s.push(' ');
    append_decimal(&mut s, 907);
    assert_eq!(s, "line 0 907");
}

#[test]
fn test_token_type_names() {
    assert_eq!(tank::token::token_type_name(TokenType::LeftBrace), "LeftBrace");
    assert_eq!(tank::token::token_type_name(TokenType::Eof), "Eof");
}
