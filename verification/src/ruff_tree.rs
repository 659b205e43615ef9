//! The Ruff parser and its tree.
//!
//! The parser is called, and its tree is read, through a handful of
//! functions whose contracts are taken on trust; everything that decides
//! what the tree means for this library is verified against them.

use vstd::prelude::*;
use vstd::string::*;
use crate::parser::{MAX_SOURCE_BYTES, parse_outcome};
use crate::syntax::{
    Element, ElementView, Expression, ExpressionView, Statement, StatementView, Syntax,
    SyntaxView, element_views, expression_views, statement_views,
};

verus! {

/// `ruff_python_ast::Mod`, the root of a parsed tree. Opaque to the verifier.
#[verifier::external_type_specification]
#[verifier::external_body]
pub struct ExMod(ruff_python_ast::Mod);

/// `ruff_python_ast::Stmt`, a statement of a parsed tree. Opaque to the verifier.
#[verifier::external_type_specification]
#[verifier::external_body]
pub struct ExStmt(ruff_python_ast::Stmt);

/// `ruff_python_ast::Expr`, an expression of a parsed tree. Opaque to the verifier.
#[verifier::external_type_specification]
#[verifier::external_body]
pub struct ExExpr(ruff_python_ast::Expr);

/// `ruff_python_parser::ParseError`, the parser's reason for rejecting a
/// source text. Opaque to the verifier.
#[verifier::external_type_specification]
#[verifier::external_body]
pub struct ExParseError(ruff_python_parser::ParseError);

/// What a parsed expression holds, one level deep.
enum ExpressionParts<'a> {
    Name(String),
    Tuple(&'a Vec<ruff_python_ast::Expr>),
    List(&'a Vec<ruff_python_ast::Expr>),
    StringLiteral(String),
    Other,
}

/// The mathematical form of `ExpressionParts`.
pub enum ExpressionShape {
    Name(Seq<char>),
    Tuple(Seq<ruff_python_ast::Expr>),
    List(Seq<ruff_python_ast::Expr>),
    StringLiteral(Seq<char>),
    Other,
}

impl<'a> View for ExpressionParts<'a> {
    type V = ExpressionShape;

    closed spec fn view(&self) -> ExpressionShape {
        match self {
            ExpressionParts::Name(id) => ExpressionShape::Name(id@),
            ExpressionParts::Tuple(elements) => ExpressionShape::Tuple(elements@),
            ExpressionParts::List(elements) => ExpressionShape::List(elements@),
            ExpressionParts::StringLiteral(value) => ExpressionShape::StringLiteral(value@),
            ExpressionParts::Other => ExpressionShape::Other,
        }
    }
}

/// What a parsed statement holds, one level deep.
enum StatementParts<'a> {
    FunctionDef(String),
    ClassDef(String),
    Assign(&'a Vec<ruff_python_ast::Expr>, &'a ruff_python_ast::Expr),
    Other,
}

/// The mathematical form of `StatementParts`.
pub enum StatementShape {
    FunctionDef(Seq<char>),
    ClassDef(Seq<char>),
    Assign(Seq<ruff_python_ast::Expr>, ruff_python_ast::Expr),
    Other,
}

impl<'a> View for StatementParts<'a> {
    type V = StatementShape;

    closed spec fn view(&self) -> StatementShape {
        match self {
            StatementParts::FunctionDef(name) => StatementShape::FunctionDef(name@),
            StatementParts::ClassDef(name) => StatementShape::ClassDef(name@),
            StatementParts::Assign(targets, value) => StatementShape::Assign(targets@, **value),
            StatementParts::Other => StatementShape::Other,
        }
    }
}

/// The text that a `ParseError` displays as.
pub uninterp spec fn failure_message(error: ruff_python_parser::ParseError) -> Seq<char>;

/// The top-level statements of a parsed tree whose root is a module.
pub uninterp spec fn module_body(syntax: ruff_python_ast::Mod) -> Option<
    Seq<ruff_python_ast::Stmt>,
>;

/// What a parsed statement holds.
pub uninterp spec fn statement_shape(statement: ruff_python_ast::Stmt) -> StatementShape;

/// What a parsed expression holds.
pub uninterp spec fn expression_shape(expression: ruff_python_ast::Expr) -> ExpressionShape;

/// How a parsed expression reads as an element of a tuple or list display.
pub open spec fn element_view(expression: ruff_python_ast::Expr) -> ElementView {
    match expression_shape(expression) {
        ExpressionShape::Name(id) => ElementView::Name(id),
        ExpressionShape::StringLiteral(value) => ElementView::StringLiteral(value),
        _ => ElementView::Other,
    }
}

/// How a parsed expression reads as a target or a right-hand side.
pub open spec fn expression_view(expression: ruff_python_ast::Expr) -> ExpressionView {
    match expression_shape(expression) {
        ExpressionShape::Name(id) => ExpressionView::Name(id),
        ExpressionShape::Tuple(elements) => ExpressionView::Tuple(
            elements.map_values(|e: ruff_python_ast::Expr| element_view(e)),
        ),
        ExpressionShape::List(elements) => ExpressionView::List(
            elements.map_values(|e: ruff_python_ast::Expr| element_view(e)),
        ),
        _ => ExpressionView::Other,
    }
}

/// How a parsed statement reads.
pub open spec fn statement_view(statement: ruff_python_ast::Stmt) -> StatementView {
    match statement_shape(statement) {
        StatementShape::FunctionDef(name) => StatementView::FunctionDef(name),
        StatementShape::ClassDef(name) => StatementView::ClassDef(name),
        StatementShape::Assign(targets, value) => StatementView::Assign {
            targets: targets.map_values(|e: ruff_python_ast::Expr| expression_view(e)),
            value: expression_view(value),
        },
        StatementShape::Other => StatementView::Other,
    }
}

/// How a parsed tree reads.
pub open spec fn syntax_view(syntax: ruff_python_ast::Mod) -> SyntaxView {
    match module_body(syntax) {
        Some(body) => SyntaxView::Module(
            body.map_values(|s: ruff_python_ast::Stmt| statement_view(s)),
        ),
        None => SyntaxView::Other,
    }
}

/// Calls `ruff_python_parser::parse` on `source`, in module mode and with the
/// target version `major.minor`, and hands back the tree without its tokens.
///
/// The parser's lexer refuses, with a panic, a text whose length in bytes
/// does not fit in 32 bits; such a text may not be handed in.
///
/// Trusted: that on any other text the parser returns, and that what it
/// returns is a function of the source text and the version alone.
/// `parse_outcome` names its result.
#[verifier::external_body]
pub(crate) fn parse_source(source: &str, major: u8, minor: u8) -> (parsed: Result<
    ruff_python_ast::Mod,
    ruff_python_parser::ParseError,
>)
    requires
        source.spec_bytes().len() <= MAX_SOURCE_BYTES,
    ensures
        match parsed {
            Ok(syntax) => parse_outcome(source@, major, minor) == Ok::<SyntaxView, Seq<char>>(
                syntax_view(syntax),
            ),
            Err(error) => parse_outcome(source@, major, minor) == Err::<SyntaxView, Seq<char>>(
                failure_message(error),
            ),
        },
{
    let version = ruff_python_ast::PythonVersion { major, minor };
    let mode = ruff_python_parser::Mode::Module;
    let options = ruff_python_parser::ParseOptions::from(mode).with_target_version(version);
    ruff_python_parser::parse(source, options).map(ruff_python_parser::Parsed::into_syntax)
}

/// Formats a `ParseError` by its `Display` impl.
///
/// Trusted: that the text depends on the error alone.
#[verifier::external_body]
pub(crate) fn failure_text(error: &ruff_python_parser::ParseError) -> (text: String)
    ensures
        text@ == failure_message(*error),
{
    error.to_string()
}

/// Borrows the `body` of a `Mod::Module`; a `Mod::Expression` has none.
///
/// Trusted: that the statements handed out are those that `module_body` names.
#[verifier::external_body]
fn module_statements(syntax: &ruff_python_ast::Mod) -> (body: Option<&[ruff_python_ast::Stmt]>)
    ensures
        match body {
            Some(statements) => module_body(*syntax) == Some(statements@),
            None => module_body(*syntax) is None,
        },
{
    match syntax {
        ruff_python_ast::Mod::Module(module) => Some(module.body.as_slice()),
        ruff_python_ast::Mod::Expression(_) => None,
    }
}

/// Tells the variants of `ruff_python_ast::Stmt` apart: the `name` of a
/// `FunctionDef` or `ClassDef`, the `targets` and `value` of an `Assign`.
///
/// Trusted: that the parts handed out are those that `statement_shape` names.
#[verifier::external_body]
fn statement_parts(statement: &ruff_python_ast::Stmt) -> (parts: StatementParts<'_>)
    ensures
        parts@ == statement_shape(*statement),
{
    match statement {
        ruff_python_ast::Stmt::FunctionDef(def) => StatementParts::FunctionDef(def.name.to_string()),
        ruff_python_ast::Stmt::ClassDef(def) => StatementParts::ClassDef(def.name.to_string()),
        ruff_python_ast::Stmt::Assign(assign) => StatementParts::Assign(&assign.targets, &assign.value),
        _ => StatementParts::Other,
    }
}

/// Tells the variants of `ruff_python_ast::Expr` apart: the `id` of a `Name`,
/// the `elts` of a `Tuple` or `List`, the `value` of a `StringLiteral`.
///
/// Trusted: that the parts handed out are those that `expression_shape` names.
#[verifier::external_body]
fn expression_parts(expression: &ruff_python_ast::Expr) -> (parts: ExpressionParts<'_>)
    ensures
        parts@ == expression_shape(*expression),
{
    match expression {
        ruff_python_ast::Expr::Name(name) => ExpressionParts::Name(name.id.to_string()),
        ruff_python_ast::Expr::Tuple(tuple) => ExpressionParts::Tuple(&tuple.elts),
        ruff_python_ast::Expr::List(list) => ExpressionParts::List(&list.elts),
        ruff_python_ast::Expr::StringLiteral(literal) => ExpressionParts::StringLiteral(literal.value.to_string()),
        _ => ExpressionParts::Other,
    }
}

/// Reads a parsed expression as an element of a tuple or list display.
fn element_of(expression: &ruff_python_ast::Expr) -> (element: Element)
    ensures
        element@ == element_view(*expression),
{
    match expression_parts(expression) {
        ExpressionParts::Name(id) => Element::Name(id),
        ExpressionParts::StringLiteral(value) => Element::StringLiteral(value),
        _ => Element::Other,
    }
}

/// Reads parsed expressions as the elements of a tuple or list display.
fn elements_of(expressions: &Vec<ruff_python_ast::Expr>) -> (elements: Vec<Element>)
    ensures
        element_views(elements@) == expressions@.map_values(
            |e: ruff_python_ast::Expr| element_view(e),
        ),
{
    let mut elements: Vec<Element> = Vec::new();
    let mut i: usize = 0;
    while i < expressions.len()
        invariant
            i <= expressions.len(),
            elements@.len() == i,
            forall|k: int| 0 <= k < i ==> elements@[k]@ == element_view(expressions@[k]),
        decreases expressions.len() - i,
    {
        elements.push(element_of(&expressions[i]));
        i += 1;
    }
    elements
}

/// Reads a parsed expression as a target or a right-hand side.
fn expression_of(expression: &ruff_python_ast::Expr) -> (read: Expression)
    ensures
        read@ == expression_view(*expression),
{
    match expression_parts(expression) {
        ExpressionParts::Name(id) => Expression::Name(id),
        ExpressionParts::Tuple(elements) => Expression::Tuple(elements_of(elements)),
        ExpressionParts::List(elements) => Expression::List(elements_of(elements)),
        _ => Expression::Other,
    }
}

/// Reads a parsed statement.
fn statement_of(statement: &ruff_python_ast::Stmt) -> (read: Statement)
    ensures
        read@ == statement_view(*statement),
{
    match statement_parts(statement) {
        StatementParts::FunctionDef(name) => Statement::FunctionDef(name),
        StatementParts::ClassDef(name) => Statement::ClassDef(name),
        StatementParts::Assign(targets, value) => {
            let mut read: Vec<Expression> = Vec::new();
            let mut i: usize = 0;
            while i < targets.len()
                invariant
                    i <= targets.len(),
                    read@.len() == i,
                    forall|k: int| 0 <= k < i ==> read@[k]@ == expression_view(targets@[k]),
                decreases targets.len() - i,
            {
                read.push(expression_of(&targets[i]));
                i += 1;
            }
            assert(expression_views(read@) =~= targets@.map_values(
                |e: ruff_python_ast::Expr| expression_view(e),
            ));
            Statement::Assign { targets: read, value: expression_of(value) }
        },
        StatementParts::Other => Statement::Other,
    }
}

/// Reads a parsed tree.
pub(crate) fn syntax_of(syntax: &ruff_python_ast::Mod) -> (read: Syntax)
    ensures
        read@ == syntax_view(*syntax),
{
    match module_statements(syntax) {
        Some(statements) => {
            let mut body: Vec<Statement> = Vec::new();
            let mut i: usize = 0;
            while i < statements.len()
                invariant
                    i <= statements.len(),
                    body@.len() == i,
                    forall|k: int| 0 <= k < i ==> body@[k]@ == statement_view(statements@[k]),
                decreases statements.len() - i,
            {
                body.push(statement_of(&statements[i]));
                i += 1;
            }
            assert(statement_views(body@) =~= statements@.map_values(
                |s: ruff_python_ast::Stmt| statement_view(s),
            ));
            Syntax::Module(body)
        },
        None => Syntax::Other,
    }
}

} // verus!
