use tank::ast::{Ast, AstType};
use tank::parser::{ParseError, Parser};
use tank::symbol_table::SymbolTable;
use tank::token::TokenType;

fn setup_parser(template: &str) -> Parser {
    let symbol_table = SymbolTable::new();
    Parser::new(template.to_string(), symbol_table)
}

/// Structural equality of two trees: tag, value, declared type and
/// children, recursively.
fn ast_eq(a: &Ast, b: &Ast) -> bool {
    if a.ast_type != b.ast_type || a.val != b.val || a.var_type != b.var_type {
        return false;
    }
    if a.children.len() != b.children.len() {
        return false;
    }
    for i in 0..a.children.len() {
        if !ast_eq(&a.children[i], &b.children[i]) {
            return false;
        }
    }
    true
}

#[test]
fn test_parse_empty_file() {
    let mut parser = setup_parser("");
    assert_eq!(parser.parse(), Err(ParseError::NothingToParse));
    assert_eq!(
        parser.diagnostic.errors()[0],
        "tank: End of input reached, nothing to parse!"
    );
}

#[test]
fn test_parse_if_expr_no_left_brace() {
    let mut parser = setup_parser("if x > 10 div() -> y");
    match parser.parse() {
        Err(ParseError::Expected { expected, found, .. }) => {
            assert_eq!(expected, TokenType::LeftBrace);
            assert_eq!(found, TokenType::Ident);
        },
        other => panic!("unexpected parse outcome: {:?}", other),
    }
}

#[test]
fn test_parse_if_expr_no_right_brace() {
    let mut parser = setup_parser("if x > 10 {");
    match parser.parse() {
        Err(ParseError::Expected { expected, .. }) => {
            assert_eq!(expected, TokenType::RightBrace);
        },
        other => panic!("unexpected parse outcome: {:?}", other),
    }
}

#[test]
fn test_parse_if_valid_expr() {
    let mut parser = setup_parser("if x > 10 { }");
    parser.parse().unwrap();

    // Assert that the ast root is of the correct form.
    let ast = parser.root;
    assert_eq!(ast.ast_type, AstType::Template);
    assert_eq!(ast.children.len(), 2);

    // Assert that the first child is the if expression.
    let if_ast = &ast.children[0];
    assert_eq!(if_ast.ast_type, AstType::IfExpr);
    assert_eq!(if_ast.children.len(), 2);

    // Assert that the ast for the operator contains two terms.
    let if_expr_ast = &if_ast.children[0];
    assert_eq!(if_expr_ast.children.len(), 2);

    // Assert that the terms are equal to those found in the template.
    let first_term = &if_expr_ast.children[0];
    let second_term = &if_expr_ast.children[1];
    assert_eq!(first_term.ast_type, AstType::Ident);
    assert_eq!(first_term.val, "x".to_owned());
    assert_eq!(second_term.ast_type, AstType::Number);
    assert_eq!(second_term.val, "10".to_owned());
}

#[test]
fn test_parse_element_no_attribute_list() {
    let mut parser = setup_parser("div() -> divContents");
    parser.parse().unwrap();

    let ast = parser.root;
    assert_eq!(ast.children.len(), 2);

    let el_ast = &ast.children[0];
    assert_eq!(el_ast.ast_type, AstType::Element);
    assert_eq!(el_ast.children.len(), 3);

    let el_name_ast = &el_ast.children[0];
    assert_eq!(el_name_ast.ast_type, AstType::ElementName);
    assert_eq!(el_name_ast.val, "div".to_owned());

    let attr_list_ast = &el_ast.children[1];
    assert_eq!(attr_list_ast.ast_type, AstType::AttrList);
    assert_eq!(attr_list_ast.children.len(), 0);

    let el_contents_ast = &el_ast.children[2];
    assert_eq!(el_contents_ast.ast_type, AstType::Ident);
    assert_eq!(el_contents_ast.val, "divContents".to_owned());
}

#[test]
fn test_parse_nested_elements() {
    let mut parser = setup_parser("div() -> p() -> pContents");
    parser.parse().unwrap();

    let ast = parser.root;
    let el_ast = &ast.children[0];
    assert_eq!(el_ast.ast_type, AstType::Element);
    assert_eq!(el_ast.children.len(), 3);

    let first_element = &el_ast.children[0];
    assert_eq!(first_element.ast_type, AstType::ElementName);
    assert_eq!(first_element.val, "div".to_owned());

    let element_contents = &el_ast.children[2];
    assert_eq!(element_contents.ast_type, AstType::Element);
    assert_eq!(element_contents.children.len(), 3);

    let nested_element = &element_contents.children[0];
    assert_eq!(nested_element.ast_type, AstType::ElementName);
    assert_eq!(nested_element.val, "p".to_owned());

    let nested_element_contents = &element_contents.children[2];
    assert_eq!(nested_element_contents.ast_type, AstType::Ident);
    assert_eq!(nested_element_contents.val, "pContents".to_owned());
}

#[test]
fn test_parse_element_with_attribute_list() {

}

#[test]
fn test_parse_attribute_list_contents() {
    let mut parser = setup_parser("div(id: main class: wide) -> hello");
    parser.parse().unwrap();

    let ast = parser.root;
    let el_ast = &ast.children[0];
    let attr_list_ast = &el_ast.children[1];
    assert_eq!(attr_list_ast.ast_type, AstType::AttrList);
    assert_eq!(attr_list_ast.children.len(), 4);
    assert_eq!(attr_list_ast.children[0].val, "id");
    assert_eq!(attr_list_ast.children[1].val, "main");
    assert_eq!(attr_list_ast.children[2].val, "class");
    assert_eq!(attr_list_ast.children[3].val, "wide");
}

#[test]
fn test_parse_let_fills_symbol_table() {
    let mut parser = setup_parser("let x: int = 10 div() -> y");
    parser.parse().unwrap();
    let sym = parser.symbol_table.get("x").expect("x should be bound");
    assert_eq!(sym.name, "x");
    assert_eq!(sym.sym_type, "int");
    assert_eq!(sym.val, "10");
    assert_eq!(sym.scope, "global");
}

#[test]
fn test_parse_redeclaration_is_fatal() {
    let mut parser = setup_parser("let x: int = 1 let x: int = 2 div() -> y");
    match parser.parse() {
        Err(ParseError::Symbol { err, .. }) => {
            assert_eq!(err, tank::symbol_table::SymbolError::Redeclared);
        },
        other => panic!("unexpected parse outcome: {:?}", other),
    }
}

#[test]
fn test_parse_twice_yields_identical_trees() {
    let template = "div(id: main) -> p() -> hello";
    let mut first = setup_parser(template);
    first.parse().unwrap();
    let mut second = setup_parser(template);
    second.parse().unwrap();
    assert!(ast_eq(&first.root, &second.root));
}
