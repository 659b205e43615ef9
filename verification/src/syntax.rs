//! The syntax of a module, as far as its exposed names depend on it.

use vstd::prelude::*;

verus! {

/// One element of a tuple or list display.
#[derive(Debug, Clone, PartialEq, Eq)]
pub enum Element {
    /// A bare name, with its identifier.
    Name(String),
    /// A string literal, with its value.
    StringLiteral(String),
    /// Any other expression.
    Other,
}

/// The mathematical form of an `Element`.
pub enum ElementView {
    Name(Seq<char>),
    StringLiteral(Seq<char>),
    Other,
}

impl View for Element {
    type V = ElementView;

    open spec fn view(&self) -> ElementView {
        match self {
            Element::Name(id) => ElementView::Name(id@),
            Element::StringLiteral(value) => ElementView::StringLiteral(value@),
            Element::Other => ElementView::Other,
        }
    }
}

/// The views of a sequence of elements, in order.
pub open spec fn element_views(elements: Seq<Element>) -> Seq<ElementView> {
    elements.map_values(|e: Element| e@)
}

/// An assignment target, or the right-hand side of an assignment.
#[derive(Debug, Clone, PartialEq, Eq)]
pub enum Expression {
    /// A bare name, with its identifier.
    Name(String),
    /// A tuple, with its elements in order.
    Tuple(Vec<Element>),
    /// A list display, with its elements in order.
    List(Vec<Element>),
    /// Any other expression.
    Other,
}

/// The mathematical form of an `Expression`.
pub enum ExpressionView {
    Name(Seq<char>),
    Tuple(Seq<ElementView>),
    List(Seq<ElementView>),
    Other,
}

impl View for Expression {
    type V = ExpressionView;

    open spec fn view(&self) -> ExpressionView {
        match self {
            Expression::Name(id) => ExpressionView::Name(id@),
            Expression::Tuple(elements) => ExpressionView::Tuple(element_views(elements@)),
            Expression::List(elements) => ExpressionView::List(element_views(elements@)),
            Expression::Other => ExpressionView::Other,
        }
    }
}

/// The views of a sequence of expressions, in order.
pub open spec fn expression_views(expressions: Seq<Expression>) -> Seq<ExpressionView> {
    expressions.map_values(|e: Expression| e@)
}

/// A top-level statement.
#[derive(Debug, Clone, PartialEq, Eq)]
pub enum Statement {
    /// A function definition, with the function's name.
    FunctionDef(String),
    /// A class definition, with the class's name.
    ClassDef(String),
    /// An assignment, with its targets in order and its right-hand side.
    Assign { targets: Vec<Expression>, value: Expression },
    /// Any other statement.
    Other,
}

/// The mathematical form of a `Statement`.
pub enum StatementView {
    FunctionDef(Seq<char>),
    ClassDef(Seq<char>),
    Assign { targets: Seq<ExpressionView>, value: ExpressionView },
    Other,
}

impl View for Statement {
    type V = StatementView;

    open spec fn view(&self) -> StatementView {
        match self {
            Statement::FunctionDef(name) => StatementView::FunctionDef(name@),
            Statement::ClassDef(name) => StatementView::ClassDef(name@),
            Statement::Assign { targets, value } => StatementView::Assign {
                targets: expression_views(targets@),
                value: value@,
            },
            Statement::Other => StatementView::Other,
        }
    }
}

/// The views of a sequence of statements, in order.
pub open spec fn statement_views(statements: Seq<Statement>) -> Seq<StatementView> {
    statements.map_values(|s: Statement| s@)
}

/// The root of a syntax tree.
#[derive(Debug, Clone, PartialEq, Eq)]
pub enum Syntax {
    /// A module, with its top-level statements in source order.
    Module(Vec<Statement>),
    /// Anything else.
    Other,
}

/// The mathematical form of a `Syntax`.
pub enum SyntaxView {
    Module(Seq<StatementView>),
    Other,
}

impl View for Syntax {
    type V = SyntaxView;

    open spec fn view(&self) -> SyntaxView {
        match self {
            Syntax::Module(body) => SyntaxView::Module(statement_views(body@)),
            Syntax::Other => SyntaxView::Other,
        }
    }
}

} // verus!
