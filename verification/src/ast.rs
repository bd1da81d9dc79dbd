//! The tree that parsing produces, and the operator table.

use vstd::prelude::*;
use crate::text::same_text;

verus! {

/// A literal as the evaluator receives it. A float keeps the text it was
/// written with.
#[derive(Debug, PartialEq, Eq)]
pub enum Value {
    IntLiteral(i64),
    FloatLiteral(String),
    BoolLiteral(bool),
    StringLiteral(String),
    CharLiteral(char),
}

/// The kind of a binary operator.
#[derive(Debug, Clone, Copy, PartialEq, Eq, Structural)]
pub enum Operand {
    Mul,
    Div,
    Plus,
    Minus,
    Equals,
    NEquals,
    Lt,
    Gt,
    LtEquals,
    GtEquals,
}

/// An expression. A call holds the callee first and then the arguments, in
/// the order they were written.
#[derive(Debug, PartialEq, Eq)]
pub enum Expression {
    Atom(Value),
    Identifier(String),
    Operation(Box<Expression>, Operand, Box<Expression>),
    Call(Box<Vec<Expression>>),
    Function(Function),
    Return(Option<Box<Expression>>),
}

/// A function literal. One without a body stands for a binding that is
/// defined elsewhere.
#[derive(Debug, PartialEq, Eq)]
pub struct Function {
    pub name: Option<String>,
    pub args: Vec<String>,
    pub body: Option<Vec<Statement>>,
}

/// A statement.
#[derive(Debug, PartialEq, Eq)]
pub enum Statement {
    Block(Box<Vec<Statement>>),
    Definition(String, Box<Expression>),
    Assignment(String, Box<Expression>),
    Expression(Box<Expression>),
    If(Box<Expression>, Box<Vec<Statement>>),
    IfElse(Box<Expression>, Box<Vec<Statement>>, Box<Vec<Statement>>),
}

/// A literal as a mathematical value.
pub enum ValueView {
    IntLiteral(i64),
    FloatLiteral(Seq<char>),
    BoolLiteral(bool),
    StringLiteral(Seq<char>),
    CharLiteral(char),
}

/// An expression as a mathematical value.
pub enum ExpressionView {
    Atom(ValueView),
    Identifier(Seq<char>),
    Operation(Box<ExpressionView>, Operand, Box<ExpressionView>),
    Call(Seq<ExpressionView>),
    Function(FunctionView),
    Return(Option<Box<ExpressionView>>),
}

/// A function literal as a mathematical value.
pub struct FunctionView {
    pub name: Option<Seq<char>>,
    pub args: Seq<Seq<char>>,
    pub body: Option<Seq<StatementView>>,
}

/// A statement as a mathematical value.
pub enum StatementView {
    Block(Seq<StatementView>),
    Definition(Seq<char>, Box<ExpressionView>),
    Assignment(Seq<char>, Box<ExpressionView>),
    Expression(Box<ExpressionView>),
    If(Box<ExpressionView>, Seq<StatementView>),
    IfElse(Box<ExpressionView>, Seq<StatementView>, Seq<StatementView>),
}

/// The operator that `text` spells, with its binding strength: the lower the
/// number, the tighter the operator binds.
pub open spec fn operand_of(text: Seq<char>) -> Option<(Operand, u8)> {
    if text == "*"@ {
        Some((Operand::Mul, 1u8))
    } else if text == "/"@ {
        Some((Operand::Div, 1u8))
    } else if text == "+"@ {
        Some((Operand::Plus, 2u8))
    } else if text == "-"@ {
        Some((Operand::Minus, 2u8))
    } else if text == "=="@ {
        Some((Operand::Equals, 3u8))
    } else if text == "!="@ {
        Some((Operand::NEquals, 3u8))
    } else if text == "<"@ {
        Some((Operand::Lt, 4u8))
    } else if text == ">"@ {
        Some((Operand::Gt, 4u8))
    } else if text == "<="@ {
        Some((Operand::LtEquals, 4u8))
    } else if text == ">="@ {
        Some((Operand::GtEquals, 4u8))
    } else {
        None
    }
}

/// Looks `v` up in the operator table.
pub fn operand(v: &str) -> (entry: Option<(Operand, u8)>)
    ensures
        entry == operand_of(v@),
{
    if same_text(v, "*") {
        Some((Operand::Mul, 1))
    } else if same_text(v, "/") {
        Some((Operand::Div, 1))
    } else if same_text(v, "+") {
        Some((Operand::Plus, 2))
    } else if same_text(v, "-") {
        Some((Operand::Minus, 2))
    } else if same_text(v, "==") {
        Some((Operand::Equals, 3))
    } else if same_text(v, "!=") {
        Some((Operand::NEquals, 3))
    } else if same_text(v, "<") {
        Some((Operand::Lt, 4))
    } else if same_text(v, ">") {
        Some((Operand::Gt, 4))
    } else if same_text(v, "<=") {
        Some((Operand::LtEquals, 4))
    } else if same_text(v, ">=") {
        Some((Operand::GtEquals, 4))
    } else {
        None
    }
}

impl Clone for Value {
    fn clone(&self) -> (copy: Self)
        ensures
            copy == *self,
    {
        match self {
            Value::IntLiteral(n) => Value::IntLiteral(*n),
            Value::FloatLiteral(text) => Value::FloatLiteral(text.clone()),
            Value::BoolLiteral(b) => Value::BoolLiteral(*b),
            Value::StringLiteral(text) => Value::StringLiteral(text.clone()),
            Value::CharLiteral(c) => Value::CharLiteral(*c),
        }
    }
}

impl Value {
    pub open spec fn view(&self) -> ValueView {
        match self {
            Value::IntLiteral(n) => ValueView::IntLiteral(*n),
            Value::FloatLiteral(text) => ValueView::FloatLiteral(text@),
            Value::BoolLiteral(b) => ValueView::BoolLiteral(*b),
            Value::StringLiteral(text) => ValueView::StringLiteral(text@),
            Value::CharLiteral(c) => ValueView::CharLiteral(*c),
        }
    }
}

/// A list of names as a mathematical value.
pub open spec fn names_view(names: Seq<String>) -> Seq<Seq<char>> {
    Seq::new(names.len(), |i: int| names[i]@)
}

/// A list of expressions as a mathematical value.
pub open spec fn expressions_view(items: Seq<Expression>) -> Seq<ExpressionView>
    decreases items,
{
    Seq::new(
        items.len(),
        |i: int|
            if 0 <= i < items.len() {
                items[i].view()
            } else {
                arbitrary()
            },
    )
}

/// A list of statements as a mathematical value.
pub open spec fn statements_view(items: Seq<Statement>) -> Seq<StatementView>
    decreases items,
{
    Seq::new(
        items.len(),
        |i: int|
            if 0 <= i < items.len() {
                items[i].view()
            } else {
                arbitrary()
            },
    )
}

impl Expression {
    pub open spec fn view(&self) -> ExpressionView
        decreases self,
    {
        match self {
            Expression::Atom(value) => ExpressionView::Atom(value.view()),
            Expression::Identifier(name) => ExpressionView::Identifier(name@),
            Expression::Operation(left, op, right) => ExpressionView::Operation(
                Box::new(left.view()),
                *op,
                Box::new(right.view()),
            ),
            Expression::Call(items) => ExpressionView::Call(expressions_view(items@)),
            Expression::Function(function) => ExpressionView::Function(function.view()),
            Expression::Return(None) => ExpressionView::Return(None),
            Expression::Return(Some(value)) => ExpressionView::Return(Some(Box::new(value.view()))),
        }
    }
}

impl Function {
    pub open spec fn view(&self) -> FunctionView
        decreases self,
    {
        FunctionView {
            name: match self.name {
                Some(name) => Some(name@),
                None => None,
            },
            args: names_view(self.args@),
            body: match self.body {
                Some(body) => Some(statements_view(body@)),
                None => None,
            },
        }
    }
}

impl Statement {
    pub open spec fn view(&self) -> StatementView
        decreases self,
    {
        match self {
            Statement::Block(body) => StatementView::Block(statements_view(body@)),
            Statement::Definition(name, value) => StatementView::Definition(
                name@,
                Box::new(value.view()),
            ),
            Statement::Assignment(name, value) => StatementView::Assignment(
                name@,
                Box::new(value.view()),
            ),
            Statement::Expression(value) => StatementView::Expression(Box::new(value.view())),
            Statement::If(condition, body) => StatementView::If(
                Box::new(condition.view()),
                statements_view(body@),
            ),
            Statement::IfElse(condition, body, otherwise) => StatementView::IfElse(
                Box::new(condition.view()),
                statements_view(body@),
                statements_view(otherwise@),
            ),
        }
    }
}

/// A copy of a list of names.
fn copy_names(names: &Vec<String>) -> (copy: Vec<String>)
    ensures
        names_view(copy@) == names_view(names@),
{
    let mut copy: Vec<String> = Vec::new();
    let mut i: usize = 0;
    while i < names.len()
        invariant
            i <= names.len(),
            copy.len() == i,
            forall|j: int| 0 <= j < i ==> copy[j]@ == names[j]@,
        decreases names.len() - i,
    {
        copy.push(names[i].clone());
        i += 1;
    }
    assert(names_view(copy@) =~= names_view(names@));
    copy
}

/// A copy of a list of expressions that shares nothing with it.
fn copy_expressions(items: &Vec<Expression>) -> (copy: Vec<Expression>)
    ensures
        expressions_view(copy@) == expressions_view(items@),
    decreases items,
{
    let mut copy: Vec<Expression> = Vec::new();
    let mut i: usize = 0;
    while i < items.len()
        invariant
            i <= items.len(),
            copy.len() == i,
            forall|j: int| 0 <= j < i ==> copy[j].view() == items[j].view(),
        decreases items.len() - i,
    {
        copy.push(items[i].clone());
        i += 1;
    }
    assert(expressions_view(copy@) =~= expressions_view(items@));
    copy
}

/// A copy of a list of statements that shares nothing with it.
fn copy_statements(items: &Vec<Statement>) -> (copy: Vec<Statement>)
    ensures
        statements_view(copy@) == statements_view(items@),
    decreases items,
{
    let mut copy: Vec<Statement> = Vec::new();
    let mut i: usize = 0;
    while i < items.len()
        invariant
            i <= items.len(),
            copy.len() == i,
            forall|j: int| 0 <= j < i ==> copy[j].view() == items[j].view(),
        decreases items.len() - i,
    {
        copy.push(items[i].clone());
        i += 1;
    }
    assert(statements_view(copy@) =~= statements_view(items@));
    copy
}

impl Clone for Expression {
    fn clone(&self) -> (copy: Self)
        ensures
            copy.view() == self.view(),
        decreases self,
    {
        match self {
            Expression::Atom(value) => Expression::Atom(value.clone()),
            Expression::Identifier(name) => Expression::Identifier(name.clone()),
            Expression::Operation(left, op, right) => {
                let left: &Expression = left;
                let right: &Expression = right;
                Expression::Operation(Box::new(left.clone()), *op, Box::new(right.clone()))
            },
            Expression::Call(items) => Expression::Call(Box::new(copy_expressions(items))),
            Expression::Function(function) => Expression::Function(function.clone()),
            Expression::Return(None) => Expression::Return(None),
            Expression::Return(Some(value)) => {
                let value: &Expression = value;
                Expression::Return(Some(Box::new(value.clone())))
            },
        }
    }
}

impl Clone for Function {
    fn clone(&self) -> (copy: Self)
        ensures
            copy.view() == self.view(),
        decreases self,
    {
        Function {
            name: match &self.name {
                Some(name) => Some(name.clone()),
                None => None,
            },
            args: copy_names(&self.args),
            body: match &self.body {
                Some(body) => Some(copy_statements(body)),
                None => None,
            },
        }
    }
}

impl Clone for Statement {
    fn clone(&self) -> (copy: Self)
        ensures
            copy.view() == self.view(),
        decreases self,
    {
        match self {
            Statement::Block(body) => Statement::Block(Box::new(copy_statements(body))),
            Statement::Definition(name, value) => {
                let value: &Expression = value;
                Statement::Definition(name.clone(), Box::new(value.clone()))
            },
            Statement::Assignment(name, value) => {
                let value: &Expression = value;
                Statement::Assignment(name.clone(), Box::new(value.clone()))
            },
            Statement::Expression(value) => {
                let value: &Expression = value;
                Statement::Expression(Box::new(value.clone()))
            },
            Statement::If(condition, body) => {
                let condition: &Expression = condition;
                Statement::If(Box::new(condition.clone()), Box::new(copy_statements(body)))
            },
            Statement::IfElse(condition, body, otherwise) => {
                let condition: &Expression = condition;
                Statement::IfElse(
                    Box::new(condition.clone()),
                    Box::new(copy_statements(body)),
                    Box::new(copy_statements(otherwise)),
                )
            },
        }
    }
}

} // verus!
