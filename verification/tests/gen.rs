use tank::ast::{Ast, AstType};
use tank::gen::{Gen, GenError};
use tank::symbol_table::SymbolTable;

fn setup_gen() -> Gen {
    let symbol_table = SymbolTable::new();
    Gen::new(symbol_table)
}

fn element(name: &str, attrs: Vec<Ast>, third: Ast) -> Ast {
    let mut el = Ast::new(AstType::Element);
    el.children.push(Ast::new_from_value(AstType::ElementName, name));
    let mut attr_list = Ast::new(AstType::AttrList);
    for a in attrs {
        attr_list.children.push(a);
    }
    el.children.push(attr_list);
    el.children.push(third);
    el
}

#[test]
fn test_output_should_write_nothing_for_assignment() {
    let mut gen = setup_gen();
    let mut valid_ast = Ast::new(AstType::Template);
    let mut first_child = Ast::new(AstType::Element);

    first_child.children.push(Ast::new(AstType::AssignExpr));
    valid_ast.children.push(first_child);

    gen.output(&valid_ast).unwrap();

    assert!(gen.output_text().is_empty());
}

#[test]
fn test_output_invalid_ast_type_records_error() {
    let mut gen = setup_gen();
    let invalid_ast = Ast::new(AstType::Eof);

    // The wrong root kind and the missing children are complained
    // about; with nothing to walk, generation still ends.
    gen.output(&invalid_ast).unwrap();

    let errors = gen.diagnostic.errors();
    assert_eq!(
        errors[0],
        "tank: Invalid ast provided to generator. Found Eof, expected Template"
    );
    assert_eq!(errors[1], "tank: Empty ast found, nothing to generate.");
}

#[test]
fn test_output_no_element_children_is_fatal() {
    let mut gen = setup_gen();
    let mut invalid_ast = Ast::new(AstType::Template);
    invalid_ast.children.push(Ast::new(AstType::Element));

    assert_eq!(gen.output(&invalid_ast), Err(GenError::NoChildrenElement));
    assert_eq!(
        gen.diagnostic.errors()[0],
        "tank: Invalid element found, no children present in ast"
    );
}

#[test]
fn test_output_element_not_enough_children_is_fatal() {
    let mut gen = setup_gen();
    let mut invalid_ast = Ast::new(AstType::Template);
    let mut first_child = Ast::new(AstType::Element);
    first_child.children.push(Ast::new(AstType::Element));
    invalid_ast.children.push(first_child);

    assert_eq!(gen.output(&invalid_ast), Err(GenError::ElementArity));
}

#[test]
fn test_output_invalid_if_expr_is_fatal() {
    let mut gen = setup_gen();
    let mut valid_ast = Ast::new(AstType::Template);
    valid_ast.children.push(Ast::new(AstType::IfExpr));

    assert_eq!(gen.output(&valid_ast), Err(GenError::IfNoChildren));
}

#[test]
fn test_output_if_expr_not_enough_children_is_fatal() {
    let mut gen = setup_gen();
    let mut valid_ast = Ast::new(AstType::Template);
    let mut first_child = Ast::new(AstType::IfExpr);
    first_child.children.push(Ast::new(AstType::AssignExpr));
    valid_ast.children.push(first_child);

    assert_eq!(gen.output(&valid_ast), Err(GenError::IfExprArity));
}

#[test]
fn test_output_single_element_exact() {
    let mut gen = setup_gen();
    let mut tmpl = Ast::new(AstType::Template);
    tmpl.children.push(element(
        "div",
        vec![],
        Ast::new_from_value(AstType::Ident, "content"),
    ));
    gen.output(&tmpl).unwrap();
    assert_eq!(gen.output_text(), "<div>\n  content\n</div>\n");
}

#[test]
fn test_output_nested_elements_exact() {
    let mut gen = setup_gen();
    let mut tmpl = Ast::new(AstType::Template);
    let inner = element("p", vec![], Ast::new_from_value(AstType::Ident, "content"));
    tmpl.children.push(element("div", vec![], inner));
    gen.output(&tmpl).unwrap();
    assert_eq!(
        gen.output_text(),
        "<div>\n  <p>\n    content\n  </p>\n</div>\n"
    );
}

#[test]
fn test_output_attribute_pairs_exact() {
    let mut gen = setup_gen();
    let mut tmpl = Ast::new(AstType::Template);
    tmpl.children.push(element(
        "div",
        vec![
            Ast::new_from_value(AstType::Ident, "id"),
            Ast::new_from_value(AstType::Ident, "main"),
            Ast::new_from_value(AstType::Ident, "class"),
            Ast::new_from_value(AstType::Ident, "wide"),
        ],
        Ast::new_from_value(AstType::Ident, "hello"),
    ));
    gen.output(&tmpl).unwrap();
    assert_eq!(
        gen.output_text(),
        "<div id=\"main\" class=\"wide\">\n  hello\n</div>\n"
    );
}

#[test]
fn test_output_attribute_odd_count_is_fatal() {
    let mut gen = setup_gen();
    let mut tmpl = Ast::new(AstType::Template);
    tmpl.children.push(element(
        "div",
        vec![Ast::new_from_value(AstType::Ident, "id")],
        Ast::new_from_value(AstType::Ident, "hello"),
    ));
    assert_eq!(gen.output(&tmpl), Err(GenError::AttrArity));
}

#[test]
fn test_output_attribute_non_ident_is_fatal() {
    let mut gen = setup_gen();
    let mut tmpl = Ast::new(AstType::Template);
    tmpl.children.push(element(
        "div",
        vec![
            Ast::new_from_value(AstType::Number, "1"),
            Ast::new_from_value(AstType::Ident, "main"),
        ],
        Ast::new_from_value(AstType::Ident, "hello"),
    ));
    assert_eq!(
        gen.output(&tmpl),
        Err(GenError::AttrNotIdent { found: AstType::Number })
    );
}

#[test]
fn test_output_unbound_for_is_fatal_before_output() {
    let mut gen = setup_gen();
    let mut tmpl = Ast::new(AstType::Template);
    let mut for_ast = Ast::new(AstType::ForExpr);
    for_ast.children.push(Ast::new_from_value(AstType::Ident, "a"));
    for_ast.children.push(Ast::new_from_value(AstType::Ident, "b"));
    for_ast.children.push(element(
        "div",
        vec![],
        Ast::new_from_value(AstType::Ident, "hello"),
    ));
    tmpl.children.push(for_ast);
    assert_eq!(gen.output(&tmpl), Err(GenError::UnboundLoopSource));
    assert!(gen.output_text().is_empty());
}

#[test]
fn test_include_html_inlines_and_closes() {
    let mut gen = setup_gen();
    gen.include_html("<hr>\n");
    assert_eq!(gen.output_text(), "<hr>\n");
}
