use tank::ast::{Ast, AstType};
use tank::eval::{parse_i64, EvalError, Evaluator};
use tank::symbol_table::SymbolTable;

const IDENT_NAME: &str = "ident";
const IDENT_VAL: &str = "10";

fn setup() -> Evaluator {
    let mut table = SymbolTable::new();
    let mut ident = Ast::new(AstType::AssignExpr);

    let mut var = Ast::new_from_value(AstType::Ident, IDENT_NAME);
    var.var_type = Some(String::from("int"));

    let var_val = Ast::new_from_value(AstType::Number, IDENT_VAL);

    ident.children.push(var);
    ident.children.push(var_val);

    table.insert(&ident).unwrap();

    Evaluator::new(table)
}

fn cmp_ast(t: AstType, value: &str) -> Ast {
    let mut expr_ast = Ast::new(t);
    let ident = Ast::new_from_value(AstType::Ident, IDENT_NAME);
    let value = Ast::new_from_value(AstType::Number, value);
    expr_ast.children.push(ident);
    expr_ast.children.push(value);
    expr_ast
}

#[test]
fn test_eval_gt_false() {
    let eval = setup();
    let expr_ast = cmp_ast(AstType::Gt, "11");
    assert_eq!(eval.gt(&expr_ast).unwrap(), false);
}

#[test]
fn test_eval_gt_when_true() {
    let eval = setup();
    let expr_ast = cmp_ast(AstType::Gt, "9");
    assert_eq!(eval.gt(&expr_ast).unwrap(), true);
}

#[test]
fn test_eval_gt_equals() {
    let eval = setup();
    let expr_ast = cmp_ast(AstType::GtEquals, "11");
    assert_eq!(eval.gt_equals(&expr_ast).unwrap(), false);
}

#[test]
fn test_eval_gt_equals_when_equal() {
    let eval = setup();
    let expr_ast = cmp_ast(AstType::GtEquals, "10");
    assert_eq!(eval.gt_equals(&expr_ast).unwrap(), true);
}

#[test]
fn test_eval_lt() {
    let eval = setup();
    let expr_ast = cmp_ast(AstType::Lt, "11");
    assert_eq!(eval.lt(&expr_ast).unwrap(), true);
}

#[test]
fn test_eval_lt_equals() {
    let eval = setup();
    let expr_ast = cmp_ast(AstType::LtEquals, "9");
    assert_eq!(eval.lt_equals(&expr_ast).unwrap(), false);
}

#[test]
fn test_eval_equals_equals() {
    let eval = setup();
    let expr_ast = cmp_ast(AstType::EqualsEquals, "11");
    assert_eq!(eval.equals_equals(&expr_ast).unwrap(), false);
}

#[test]
fn test_eval_not_equals() {
    let eval = setup();
    let expr_ast = cmp_ast(AstType::Gt, "11");
    assert_eq!(eval.not_equals(&expr_ast).unwrap(), true);
}

#[test]
fn test_eval_undefined_variable() {
    let eval = Evaluator::new(SymbolTable::new());
    let expr_ast = cmp_ast(AstType::Gt, "11");
    assert_eq!(eval.gt(&expr_ast), Err(EvalError::UndefinedVariable));
}

#[test]
fn test_eval_not_enough_children() {
    let eval = setup();
    let expr_ast = Ast::new(AstType::Gt);
    assert_eq!(eval.gt(&expr_ast), Err(EvalError::NotEnoughChildren));
}

#[test]
fn test_eval_non_numeric_operand() {
    let eval = setup();
    let mut expr_ast = Ast::new(AstType::Gt);
    expr_ast.children.push(Ast::new_from_value(AstType::Ident, IDENT_NAME));
    expr_ast.children.push(Ast::new_from_value(AstType::Ident, "word"));
    assert_eq!(eval.gt(&expr_ast), Err(EvalError::NotAnInteger));
}

#[test]
fn test_parse_i64_values() {
    assert_eq!(parse_i64("0"), Ok(0));
    assert_eq!(parse_i64("42"), Ok(42));
    assert_eq!(parse_i64("+42"), Ok(42));
    assert_eq!(parse_i64("-42"), Ok(-42));
    assert_eq!(parse_i64("9223372036854775807"), Ok(i64::MAX));
    assert_eq!(parse_i64("-9223372036854775808"), Ok(i64::MIN));
    assert_eq!(parse_i64("9223372036854775808"), Err(EvalError::NotAnInteger));
    assert_eq!(parse_i64("-9223372036854775809"), Err(EvalError::NotAnInteger));
    assert_eq!(parse_i64(""), Err(EvalError::NotAnInteger));
    assert_eq!(parse_i64("-"), Err(EvalError::NotAnInteger));
    assert_eq!(parse_i64("12a"), Err(EvalError::NotAnInteger));
    assert_eq!(parse_i64(" 1"), Err(EvalError::NotAnInteger));
}
