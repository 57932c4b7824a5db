use expr_syntax::tools::generate_structs::define_ast;

#[test]
fn generator_writes_traits_and_structs() {
    let source = define_ast(
        "Expr",
        &[("Binary", "Expr left, Token operator, Expr right"), ("Literal", "Object value")],
    )
    .expect("every field has a type and a name");
    let expected = "\
pub trait Expr {
    fn accept<R>(&self, visitor: &mut dyn ExprVisitor<R>) -> R;
}

pub trait ExprVisitor<R> {
    fn visit_binary_expr(&mut self, expr: &Binary) -> R;
    fn visit_literal_expr(&mut self, expr: &Literal) -> R;
}

#[derive(Debug, Clone)]
pub struct Binary {
    pub left: Box<Expr>,
    pub operator: Token,
    pub right: Box<Expr>,
}

impl Expr for Binary {
    fn accept<R>(&self, visitor: &mut dyn ExprVisitor<R>) -> R {
        visitor.visit_binary_expr(self)
    }
}

#[derive(Debug, Clone)]
pub struct Literal {
    pub value: Literal,
}

impl Expr for Literal {
    fn accept<R>(&self, visitor: &mut dyn ExprVisitor<R>) -> R {
        visitor.visit_literal_expr(self)
    }
}

";
    assert_eq!(source, expected);
}

#[test]
fn generator_without_types_writes_the_traits_alone() {
    let source = define_ast("Stmt", &[]).expect("there is no field");
    assert_eq!(
        source,
        "pub trait Stmt {\n    fn accept<R>(&self, visitor: &mut dyn StmtVisitor<R>) -> R;\n}\n\n\
         pub trait StmtVisitor<R> {\n}\n\n"
    );
}

#[test]
fn generator_keeps_types_it_does_not_know() {
    let source = define_ast("Node", &[("Pair", "  u8   first  extra, \tVec<Expr>\u{a0}rest")])
        .expect("every field has a type and a name");
    assert!(source.contains("    pub first: u8,\n    pub rest: Vec<Expr>,\n"));
    assert!(source.contains("visitor.visit_pair_node(self)"));
}

#[test]
fn generator_lowers_the_case_of_names_in_operations() {
    let source = define_ast("AST", &[("\u{c9}TAT", "Expr e")]).expect("the field is a field");
    assert!(source.contains("fn visit_\u{e9}tat_ast(&mut self, expr: &\u{c9}TAT) -> R;"));
    assert!(source.contains("pub struct \u{c9}TAT {\n    pub e: Box<Expr>,\n}"));
}

#[test]
fn generator_gives_nothing_for_a_field_without_a_name() {
    assert_eq!(define_ast("Expr", &[("Unary", "Token")]), None);
    assert_eq!(define_ast("Expr", &[("Unary", "")]), None);
    assert_eq!(define_ast("Expr", &[("Unary", "Token operator, ")]), None);
    assert_eq!(define_ast("Expr", &[("Unary", "Token operator,Expr right"), ("Bad", "x")]), None);
    assert_eq!(
        define_ast("Expr", &[("Good", "Token operator"), ("Bad", "Expr left, , Expr right")]),
        None
    );
}

#[test]
fn generator_splits_fields_at_comma_and_space_only() {
    let source =
        define_ast("Expr", &[("Call", "Expr callee,Token paren")]).expect("one field");
    assert!(source.contains("pub struct Call {\n    pub callee,Token: Box<Expr>,\n}"));
}
