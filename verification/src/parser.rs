//! The parser: a cursor driven through the grammar.

use vstd::prelude::*;
use vstd::string::*;
use crate::ast::{
    expressions_view, names_view, operand, statements_view, Expression, ExpressionView, Function,
    Operand, Statement, StatementView, Value,
};
use crate::error::{ErrorKind, ErrorView, ParseError};
use crate::grammar::{
    arguments_from, atom_at, bare, block_body, body, body_at, call_at, chain_from, conditional_at,
    definition_at, expression_at, failure, function_at, group_at, has_text, named_at, nested,
    nested_after_reduction, operation_at, parameterized_at, parameters_from, reduced, return_at,
    signature_at, statement_at, statements_from, token_at,
};
use crate::text::{int_literal, same_text};
use crate::token::{copy_tokens, tokens_view, Category, Token, TokenType, TokenView};
use crate::traveler::Traveler;

verus! {

/// How many levels of nesting a parser made by `Parser::new` enters.
pub const NESTING_LIMIT: usize = 64;

/// A parser over the tokens of its cursor. It keeps count of how many levels
/// of nesting it may still enter; every step leaves that count as it found
/// it.
pub struct Parser {
    traveler: Traveler,
    depth: usize,
}

/// A parser as a mathematical value: the tokens, the index that the cursor
/// rests on, and how many levels of nesting may still be entered.
pub struct ParserView {
    pub tokens: Seq<TokenView>,
    pub position: nat,
    pub depth: nat,
}

impl View for Parser {
    type V = ParserView;

    closed spec fn view(&self) -> ParserView {
        ParserView {
            tokens: tokens_view(self.traveler@.tokens),
            position: self.traveler@.position,
            depth: self.depth as nat,
        }
    }
}

impl ParserView {
    /// What reading the statements from the position on yields.
    pub open spec fn outcome(self) -> Result<Seq<StatementView>, ErrorView> {
        statements_from(self.tokens, self.position, Seq::empty(), self.depth)
    }

    /// Where the cursor rests after that reading: past the last token, or
    /// where the failure says.
    pub open spec fn landing(self) -> nat {
        match self.outcome() {
            Ok(_) => self.tokens.len(),
            Err(error) => error.cursor(),
        }
    }
}

/// What a reading handed out, as a mathematical value.
pub open spec fn outcome_view(parsed: Result<Vec<Statement>, ParseError>) -> Result<
    Seq<StatementView>,
    ErrorView,
> {
    match parsed {
        Ok(statements) => Ok(statements_view(statements@)),
        Err(error) => Err(error@),
    }
}

/// What holds of a step that reads an expression, where `model` is what the
/// grammar yields at the position the step began at: the step hands out the
/// expression and rests on its last token, or hands out the failure and rests
/// where the failure says. Tokens and depth are as they were.
pub open spec fn read_expression(
    before: ParserView,
    after: ParserView,
    parsed: Result<Expression, ParseError>,
    model: Result<(ExpressionView, nat), ErrorView>,
) -> bool {
    &&& after.tokens == before.tokens
    &&& after.depth == before.depth
    &&& match parsed {
        Ok(value) => {
            &&& model == Ok::<(ExpressionView, nat), ErrorView>((value@, after.position))
            &&& before.position <= after.position < after.tokens.len()
        },
        Err(error) => {
            &&& model == Err::<(ExpressionView, nat), ErrorView>(error@)
            &&& after.position == error@.cursor()
        },
    }
}

/// The same of a step that reads a statement.
pub open spec fn read_statement(
    before: ParserView,
    after: ParserView,
    parsed: Result<Statement, ParseError>,
    model: Result<(StatementView, nat), ErrorView>,
) -> bool {
    &&& after.tokens == before.tokens
    &&& after.depth == before.depth
    &&& match parsed {
        Ok(value) => {
            &&& model == Ok::<(StatementView, nat), ErrorView>((value@, after.position))
            &&& before.position <= after.position < after.tokens.len()
        },
        Err(error) => {
            &&& model == Err::<(StatementView, nat), ErrorView>(error@)
            &&& after.position == error@.cursor()
        },
    }
}

/// The same of a step that reads a body.
pub open spec fn read_body(
    before: ParserView,
    after: ParserView,
    parsed: Result<Vec<Statement>, ParseError>,
    model: Result<(Seq<StatementView>, nat), ErrorView>,
) -> bool {
    &&& after.tokens == before.tokens
    &&& after.depth == before.depth
    &&& match parsed {
        Ok(value) => {
            &&& model == Ok::<(Seq<StatementView>, nat), ErrorView>(
                (statements_view(value@), after.position),
            )
            &&& before.position <= after.position < after.tokens.len()
        },
        Err(error) => {
            &&& model == Err::<(Seq<StatementView>, nat), ErrorView>(error@)
            &&& after.position == error@.cursor()
        },
    }
}

/// Joins the last two pending operands by `op`.
fn reduce(pending: &mut Vec<Expression>, op: Operand)
    requires
        old(pending).len() >= 2,
    ensures
        final(pending).len() == old(pending).len() - 1,
        expressions_view(final(pending)@) == reduced(expressions_view(old(pending)@), op),
{
    let right = pending.pop().unwrap();
    let left = pending.pop().unwrap();
    pending.push(Expression::Operation(Box::new(left), op, Box::new(right)));
    assert(expressions_view(pending@) =~= reduced(expressions_view(old(pending)@), op));
}

impl Parser {
    /// A parser that reads from where `traveler` rests and enters at most
    /// `NESTING_LIMIT` levels of nesting.
    pub fn new(traveler: Traveler) -> (parser: Parser)
        ensures
            parser@ == (ParserView {
                tokens: tokens_view(traveler@.tokens),
                position: traveler@.position,
                depth: NESTING_LIMIT as nat,
            }),
    {
        Parser { traveler, depth: NESTING_LIMIT }
    }

    /// The index that the parser's cursor rests on.
    pub fn position(&self) -> (position: usize)
        ensures
            position == self@.position,
    {
        self.traveler.position()
    }

    /// Reads statements from the position on until the tokens end: all of
    /// them, or the first failure and no statement. Leaves the cursor past the
    /// last token where that succeeds, and else where the failure says.
    pub fn parse(&mut self) -> (parsed: Result<Vec<Statement>, ParseError>)
        ensures
            outcome_view(parsed) == old(self)@.outcome(),
            final(self)@ == (ParserView { position: old(self)@.landing(), ..old(self)@ }),
        decreases old(self)@.depth, 9nat, 0nat,
    {
        let ghost ts = self@.tokens;
        let ghost whole = statements_from(ts, self@.position, Seq::empty(), self@.depth);
        let mut stack: Vec<Statement> = Vec::new();
        proof {
            use_type_invariant(&self.traveler);
            assert(statements_view(stack@) =~= Seq::empty());
        }
        while self.more()
            invariant
                self@.depth == old(self)@.depth,
                self@.tokens == ts,
                ts == old(self)@.tokens,
                self@.position <= ts.len(),
                whole == statements_from(
                    ts,
                    old(self)@.position,
                    Seq::empty(),
                    old(self)@.depth,
                ),
                whole == statements_from(
                    ts,
                    self@.position,
                    statements_view(stack@),
                    old(self)@.depth,
                ),
            decreases ts.len() - self@.position,
        {
            let ghost done = statements_view(stack@);
            match self.statement() {
                Ok(statement) => {
                    stack.push(statement);
                    assert(statements_view(stack@) =~= done.push(statement@));
                },
                Err(error) => {
                    return Err(error);
                },
            }
            self.traveler.next();
        }
        Ok(stack)
    }

    /// Whether a token stands at the position.
    fn more(&self) -> (more: bool)
        ensures
            more == (self@.position < self@.tokens.len()),
            self@.position <= self@.tokens.len(),
    {
        proof {
            use_type_invariant(&self.traveler);
        }
        self.traveler.remaining() > 1
    }

    /// The token at the position, where one stands there.
    fn here(&self) -> (here: Option<&Token>)
        ensures
            match here {
                Some(token) => {
                    &&& self@.position < self@.tokens.len()
                    &&& *token == self.traveler@.tokens[self@.position as int]
                    &&& token.view() == token_at(self@.tokens, self@.position)
                },
                None => self@.position == self@.tokens.len(),
            },
    {
        if self.more() {
            Some(self.traveler.current())
        } else {
            None
        }
    }

    /// The token after the one at the position, where one stands there.
    fn ahead(&self) -> (ahead: Option<&Token>)
        ensures
            match ahead {
                Some(token) => {
                    &&& self@.position + 1 < self@.tokens.len()
                    &&& *token == self.traveler@.tokens[self@.position as int + 1]
                    &&& token.view() == token_at(self@.tokens, self@.position + 1)
                },
                None => self@.position + 1 >= self@.tokens.len(),
            },
    {
        proof {
            use_type_invariant(&self.traveler);
        }
        if self.traveler.remaining() > 2 {
            Some(self.traveler.get(self.traveler.position() + 1))
        } else {
            None
        }
    }

    /// Whether a token of `category` stands at the position.
    fn at(&self, category: Category) -> (at: bool)
        ensures
            at == (self@.position < self@.tokens.len() && token_at(
                self@.tokens,
                self@.position,
            ).category == category),
    {
        match self.here() {
            Some(token) => token.token_type.category() == category,
            None => false,
        }
    }

    /// Whether a token of `category` follows the one at the position.
    fn before(&self, category: Category) -> (before: bool)
        ensures
            before == (self@.position + 1 < self@.tokens.len() && token_at(
                self@.tokens,
                self@.position + 1,
            ).category == category),
    {
        match self.ahead() {
            Some(token) => token.token_type.category() == category,
            None => false,
        }
    }

    /// Whether a token stands at the position and reads `text`.
    fn reads(&self, text: &str) -> (reads: bool)
        ensures
            reads == has_text(self@.tokens, self@.position, text@),
    {
        match self.here() {
            Some(token) => same_text(token.content().as_str(), text),
            None => false,
        }
    }

    /// Whether a token follows the one at the position and reads `text`.
    fn reads_ahead(&self, text: &str) -> (reads: bool)
        ensures
            reads == has_text(self@.tokens, self@.position + 1, text@),
    {
        match self.ahead() {
            Some(token) => same_text(token.content().as_str(), text),
            None => false,
        }
    }

    /// Whether a body begins after the token at the position.
    fn body_follows(&self) -> (follows: bool)
        ensures
            follows == body_at(self@.tokens, self@.position + 1),
    {
        match self.ahead() {
            Some(token) => {
                let text = token.content().as_str();
                match token.token_type.category() {
                    Category::IntLiteral
                    | Category::FloatLiteral
                    | Category::BoolLiteral
                    | Category::StringLiteral
                    | Category::CharLiteral
                    | Category::Identifier
                    | Category::Block => true,
                    Category::Symbol => same_text(text, "("),
                    Category::Keyword => same_text(text, "fun") || same_text(text, "return"),
                    Category::Operator => false,
                }
            },
            None => false,
        }
    }

    /// The failure of kind `kind` at the position.
    fn fail(&self, kind: ErrorKind, expected: &str) -> (error: ParseError)
        ensures
            error@ == failure(kind, self@.tokens, self@.position, expected@),
            error@.cursor() == self@.position,
    {
        match self.here() {
            Some(token) => ParseError::new(
                kind,
                self.traveler.position(),
                expected,
                token.content().as_str(),
            ),
            None => {
                proof {
                    reveal_strlit("");
                    assert(""@ =~= Seq::<char>::empty());
                }
                ParseError::new(kind, self.traveler.position(), expected, "")
            },
        }
    }

    /// The text of the token at the position, which has to be of the category
    /// of `wanted`.
    fn require(&self, wanted: TokenType) -> (found: Result<String, ParseError>)
        ensures
            match found {
                Ok(text) => {
                    &&& self@.position < self@.tokens.len()
                    &&& token_at(self@.tokens, self@.position).category == wanted@
                    &&& text@ == token_at(self@.tokens, self@.position).text
                },
                Err(error) => {
                    &&& !(self@.position < self@.tokens.len() && token_at(
                        self@.tokens,
                        self@.position,
                    ).category == wanted@)
                    &&& error@ == failure(
                        if self@.position < self@.tokens.len() {
                            ErrorKind::UnexpectedCategory
                        } else {
                            ErrorKind::PrematureEnd
                        },
                        self@.tokens,
                        self@.position,
                        wanted@.name_text(),
                    )
                    &&& error@.cursor() == self@.position
                },
            },
    {
        if !self.more() {
            return Err(self.fail(ErrorKind::PrematureEnd, wanted.category().name()));
        }
        match self.traveler.expect(wanted) {
            Ok(token) => Ok(token.content().clone()),
            Err(error) => Err(error),
        }
    }

    /// Nothing, if the token at the position reads `wanted`.
    fn require_text(&self, wanted: &str) -> (found: Result<(), ParseError>)
        ensures
            match found {
                Ok(_) => has_text(self@.tokens, self@.position, wanted@),
                Err(error) => {
                    &&& !has_text(self@.tokens, self@.position, wanted@)
                    &&& error@ == failure(
                        if self@.position < self@.tokens.len() {
                            ErrorKind::UnexpectedText
                        } else {
                            ErrorKind::PrematureEnd
                        },
                        self@.tokens,
                        self@.position,
                        wanted@,
                    )
                    &&& error@.cursor() == self@.position
                },
            },
    {
        if !self.more() {
            return Err(self.fail(ErrorKind::PrematureEnd, wanted));
        }
        match self.traveler.expect_content(wanted.to_owned()) {
            Ok(_) => Ok(()),
            Err(error) => Err(error),
        }
    }

    /// The text of the token at the position.
    fn text(&self) -> (text: String)
        requires
            self@.position < self@.tokens.len(),
        ensures
            text@ == token_at(self@.tokens, self@.position).text,
    {
        self.traveler.current_content()
    }

    /// The statement at the position: an assignment, a definition, a
    /// conditional, or an expression as a statement of its own. Leaves the
    /// cursor on the statement's last token.
    pub fn statement(&mut self) -> (parsed: Result<Statement, ParseError>)
        ensures
            read_statement(
                old(self)@,
                final(self)@,
                parsed,
                statement_at(old(self)@.tokens, old(self)@.position, old(self)@.depth),
            ),
        decreases old(self)@.depth, 8nat, 0nat,
    {
        if self.at(Category::Identifier) {
            if self.reads_ahead("=") {
                let name = self.text();
                self.traveler.next();
                self.traveler.next();
                match self.expression() {
                    Ok(value) => Ok(Statement::Assignment(name, Box::new(value))),
                    Err(error) => Err(error),
                }
            } else {
                self.bare()
            }
        } else if self.at(Category::Keyword) {
            if self.reads("var") {
                self.definition()
            } else if self.reads("if") {
                self.conditional()
            } else if self.reads("fun") || self.reads("return") {
                self.bare()
            } else {
                Err(self.fail(ErrorKind::Unrecognized, "statement"))
            }
        } else {
            self.bare()
        }
    }

    /// An expression as a statement of its own.
    fn bare(&mut self) -> (parsed: Result<Statement, ParseError>)
        ensures
            read_statement(
                old(self)@,
                final(self)@,
                parsed,
                bare(expression_at(old(self)@.tokens, old(self)@.position, old(self)@.depth)),
            ),
        decreases old(self)@.depth, 7nat, 0nat,
    {
        match self.expression() {
            Ok(value) => Ok(Statement::Expression(Box::new(value))),
            Err(error) => Err(error),
        }
    }

    fn definition(&mut self) -> (parsed: Result<Statement, ParseError>)
        requires
            old(self)@.position < old(self)@.tokens.len(),
        ensures
            read_statement(
                old(self)@,
                final(self)@,
                parsed,
                definition_at(old(self)@.tokens, old(self)@.position, old(self)@.depth),
            ),
        decreases old(self)@.depth, 7nat, 0nat,
    {
        self.traveler.next();
        let name = match self.require(TokenType::Identifier) {
            Ok(name) => name,
            Err(error) => {
                return Err(error);
            },
        };
        self.traveler.next();
        if let Err(error) = self.require_text("=") {
            return Err(error);
        }
        self.traveler.next();
        match self.expression() {
            Ok(value) => Ok(Statement::Definition(name, Box::new(value))),
            Err(error) => Err(error),
        }
    }

    fn conditional(&mut self) -> (parsed: Result<Statement, ParseError>)
        requires
            old(self)@.position < old(self)@.tokens.len(),
        ensures
            read_statement(
                old(self)@,
                final(self)@,
                parsed,
                conditional_at(old(self)@.tokens, old(self)@.position, old(self)@.depth),
            ),
        decreases old(self)@.depth, 7nat, 0nat,
    {
        self.traveler.next();
        let condition = match self.expression() {
            Ok(condition) => condition,
            Err(error) => {
                return Err(error);
            },
        };
        self.traveler.next();
        let then = match self.body() {
            Ok(then) => then,
            Err(error) => {
                return Err(error);
            },
        };
        if self.reads_ahead("else") {
            self.traveler.next();
            self.traveler.next();
            match self.body() {
                Ok(otherwise) => Ok(
                    Statement::IfElse(Box::new(condition), Box::new(then), Box::new(otherwise)),
                ),
                Err(error) => Err(error),
            }
        } else {
            Ok(Statement::If(Box::new(condition), Box::new(then)))
        }
    }

    /// A body: the statements of a block, or one expression as the only
    /// statement.
    fn body(&mut self) -> (parsed: Result<Vec<Statement>, ParseError>)
        ensures
            read_body(
                old(self)@,
                final(self)@,
                parsed,
                body(old(self)@.tokens, old(self)@.position, old(self)@.depth),
            ),
        decreases old(self)@.depth, 6nat, 0nat,
    {
        if self.at(Category::Block) {
            self.block()
        } else {
            match self.expression() {
                Ok(value) => {
                    let mut statements: Vec<Statement> = Vec::new();
                    statements.push(Statement::Expression(Box::new(value)));
                    assert(statements_view(statements@) =~= seq![
                        StatementView::Expression(Box::new(value@)),
                    ]);
                    Ok(statements)
                },
                Err(error) => Err(error),
            }
        }
    }

    /// The statements inside the block at the position, read by a parser of
    /// their own over a copy of them.
    pub fn block(&self) -> (parsed: Result<Vec<Statement>, ParseError>)
        ensures
            match parsed {
                Ok(statements) => {
                    &&& block_body(self@.tokens, self@.position, self@.depth) == Ok::<
                        Seq<StatementView>,
                        ErrorView,
                    >(statements_view(statements@))
                    &&& self@.position < self@.tokens.len()
                },
                Err(error) => {
                    &&& block_body(self@.tokens, self@.position, self@.depth) == Err::<
                        Seq<StatementView>,
                        ErrorView,
                    >(error@)
                    &&& self@.position == error@.cursor()
                },
            },
        decreases self@.depth, 0nat, 0nat,
    {
        let position = self.traveler.position();
        let inner = match self.here() {
            Some(token) => match &token.token_type {
                TokenType::Block(inner) => Some(inner),
                _ => None,
            },
            None => None,
        };
        match inner {
            None => Err(self.fail(ErrorKind::UnexpectedCategory, "block")),
            Some(inner) => {
                if self.depth == 0 {
                    return Err(self.fail(ErrorKind::TooDeep, "block"));
                }
                let traveler = Traveler::new(copy_tokens(inner));
                let mut parser = Parser { traveler, depth: self.depth - 1 };
                match parser.parse() {
                    Ok(statements) => Ok(statements),
                    Err(error) => Err(error.within(position)),
                }
            },
        }
    }

    /// The expression at the position, one level of nesting further in.
    fn deeper(&mut self) -> (parsed: Result<Expression, ParseError>)
        requires
            old(self)@.depth > 0,
        ensures
            read_expression(
                old(self)@,
                final(self)@,
                parsed,
                expression_at(
                    old(self)@.tokens,
                    old(self)@.position,
                    (old(self)@.depth - 1) as nat,
                ),
            ),
        decreases old(self)@.depth, 0nat, 0nat,
    {
        self.depth = self.depth - 1;
        let parsed = self.expression();
        self.depth = self.depth + 1;
        parsed
    }

    /// The expression at the position: one atom, or the chain of atoms and
    /// operators that begins with it.
    pub fn expression(&mut self) -> (parsed: Result<Expression, ParseError>)
        ensures
            read_expression(
                old(self)@,
                final(self)@,
                parsed,
                expression_at(old(self)@.tokens, old(self)@.position, old(self)@.depth),
            ),
        decreases old(self)@.depth, 5nat, 0nat,
    {
        let first = match self.atom() {
            Ok(first) => first,
            Err(error) => {
                return Err(error);
            },
        };
        if self.before(Category::Operator) {
            self.traveler.next();
            self.operation(first)
        } else {
            Ok(first)
        }
    }

    /// The chain of operators and operands whose first operand is
    /// `expression`, with the cursor on the first operator. Leaves the cursor
    /// on the last token of the last operand.
    pub fn operation(&mut self, expression: Expression) -> (parsed: Result<
        Expression,
        ParseError,
    >)
        requires
            old(self)@.position < old(self)@.tokens.len(),
        ensures
            read_expression(
                old(self)@,
                final(self)@,
                parsed,
                operation_at(old(self)@.tokens, old(self)@.position, expression@, old(self)@.depth),
            ),
        decreases old(self)@.depth, 4nat, 0nat,
    {
        let ghost ts = self@.tokens;
        let ghost start = self@.position;
        let ghost whole = operation_at(ts, start, expression@, old(self)@.depth);
        let first = match operand(self.traveler.current().content().as_str()) {
            Some(first) => first,
            None => {
                return Err(self.fail(ErrorKind::Unrecognized, "operator"));
            },
        };
        let mut ex_stack: Vec<Expression> = Vec::new();
        let mut op_stack: Vec<(Operand, u8)> = Vec::new();
        ex_stack.push(expression);
        op_stack.push(first);
        self.traveler.next();
        match self.atom() {
            Ok(second) => {
                ex_stack.push(second);
                assert(expressions_view(ex_stack@) =~= seq![expression@, second@]);
                assert(op_stack@ =~= seq![first]);
            },
            Err(error) => {
                return Err(error);
            },
        }
        while self.before(Category::Operator)
            invariant
                self@.depth == old(self)@.depth,
                self@.tokens == ts,
                ts == old(self)@.tokens,
                start == old(self)@.position,
                whole == operation_at(ts, start, expression@, old(self)@.depth),
                start < self@.position < ts.len(),
                ex_stack.len() == op_stack.len() + 1,
                op_stack.len() >= 1,
                whole == chain_from(
                    ts,
                    self@.position,
                    expressions_view(ex_stack@),
                    op_stack@,
                    old(self)@.depth,
                ),
            decreases ts.len() - self@.position,
        {
            let ghost items = expressions_view(ex_stack@);
            let ghost ops = op_stack@;
            self.traveler.next();
            let op = match operand(self.traveler.current().content().as_str()) {
                Some(op) => op,
                None => {
                    return Err(self.fail(ErrorKind::Unrecognized, "operator"));
                },
            };
            let top = op_stack[op_stack.len() - 1];
            if op.1 > top.1 {
                op_stack.pop();
                reduce(&mut ex_stack, top.0);
            }
            self.traveler.next();
            let ghost pending = expressions_view(ex_stack@);
            match self.atom() {
                Ok(next) => {
                    ex_stack.push(next);
                    assert(expressions_view(ex_stack@) =~= pending.push(next@));
                },
                Err(error) => {
                    return Err(error);
                },
            }
            op_stack.push(op);
        }
        let ghost joined = nested(expressions_view(ex_stack@), op_stack@);
        while op_stack.len() > 0
            invariant
                ex_stack.len() == op_stack.len() + 1,
                joined == nested(expressions_view(ex_stack@), op_stack@),
            decreases op_stack.len(),
        {
            proof {
                nested_after_reduction(expressions_view(ex_stack@), op_stack@);
            }
            let top = op_stack.pop().unwrap();
            reduce(&mut ex_stack, top.0);
        }
        Ok(ex_stack.pop().unwrap())
    }

    /// The atom at the position: a literal, a name or the call of it, a
    /// parenthesized expression, a function literal or a return. An operator
    /// after it is left to whoever asked for the atom.
    pub fn atom(&mut self) -> (parsed: Result<Expression, ParseError>)
        ensures
            read_expression(
                old(self)@,
                final(self)@,
                parsed,
                atom_at(old(self)@.tokens, old(self)@.position, old(self)@.depth),
            ),
        decreases old(self)@.depth, 2nat, 0nat,
    {
        let category = match self.here() {
            Some(token) => token.token_type.category(),
            None => {
                return Err(self.fail(ErrorKind::PrematureEnd, "expression"));
            },
        };
        match category {
            Category::IntLiteral => {
                match int_literal(self.traveler.current().content().as_str()) {
                    Some(n) => Ok(Expression::Atom(Value::IntLiteral(n))),
                    None => Err(self.fail(ErrorKind::UnexpectedText, "integer literal")),
                }
            },
            Category::FloatLiteral => Ok(Expression::Atom(Value::FloatLiteral(self.text()))),
            Category::BoolLiteral => Ok(Expression::Atom(Value::BoolLiteral(self.reads("yes")))),
            Category::StringLiteral => Ok(Expression::Atom(Value::StringLiteral(self.text()))),
            Category::CharLiteral => {
                let text = self.traveler.current().content().as_str();
                if text.is_empty() {
                    Err(self.fail(ErrorKind::UnexpectedText, "character literal"))
                } else {
                    Ok(Expression::Atom(Value::CharLiteral(text.get_char(0))))
                }
            },
            Category::Identifier => self.named(),
            Category::Symbol => {
                if self.reads("(") {
                    self.group()
                } else {
                    Err(self.fail(ErrorKind::Unrecognized, "expression"))
                }
            },
            Category::Keyword => {
                if self.reads("fun") {
                    self.function()
                } else if self.reads("return") {
                    self.returned()
                } else {
                    Err(self.fail(ErrorKind::Unrecognized, "expression"))
                }
            },
            Category::Operator | Category::Block => Err(
                self.fail(ErrorKind::UnexpectedCategory, "expression"),
            ),
        }
    }

    /// What the identifier at the position stands for.
    fn named(&mut self) -> (parsed: Result<Expression, ParseError>)
        requires
            old(self)@.position < old(self)@.tokens.len(),
        ensures
            read_expression(
                old(self)@,
                final(self)@,
                parsed,
                named_at(old(self)@.tokens, old(self)@.position, old(self)@.depth),
            ),
        decreases old(self)@.depth, 1nat, 0nat,
    {
        let name = Expression::Identifier(self.text());
        if self.before(Category::Symbol) {
            if self.reads_ahead("(") {
                self.traveler.next();
                self.call(name)
            } else if self.reads_ahead("~") {
                self.traveler.next();
                let mut items: Vec<Expression> = Vec::new();
                items.push(name);
                assert(expressions_view(items@) =~= seq![name@]);
                Ok(Expression::Call(Box::new(items)))
            } else if self.reads_ahead(",") || self.reads_ahead(")") {
                Ok(name)
            } else {
                self.traveler.next();
                Err(self.fail(ErrorKind::Unrecognized, "call or separator"))
            }
        } else {
            Ok(name)
        }
    }

    /// The call of `expr`, with the cursor on the opening parenthesis. Leaves
    /// the cursor on the closing one.
    pub fn call(&mut self, expr: Expression) -> (parsed: Result<Expression, ParseError>)
        requires
            old(self)@.position < old(self)@.tokens.len(),
        ensures
            read_expression(
                old(self)@,
                final(self)@,
                parsed,
                call_at(old(self)@.tokens, old(self)@.position, expr@, old(self)@.depth),
            ),
        decreases old(self)@.depth, 0nat, 1nat,
    {
        if self.depth == 0 {
            return Err(self.fail(ErrorKind::TooDeep, "arguments"));
        }
        let ghost ts = self@.tokens;
        let ghost start = self@.position;
        let ghost whole = call_at(ts, start, expr@, old(self)@.depth);
        self.traveler.next();
        let mut stack: Vec<Expression> = Vec::new();
        stack.push(expr);
        assert(expressions_view(stack@) =~= seq![expr@]);
        while self.more() && !self.reads(")")
            invariant
                self@.depth == old(self)@.depth,
                self@.tokens == ts,
                ts == old(self)@.tokens,
                start == old(self)@.position,
                whole == call_at(ts, start, expr@, old(self)@.depth),
                start < self@.position <= ts.len(),
                old(self)@.depth > 0,
                whole == arguments_from(
                    ts,
                    self@.position,
                    expressions_view(stack@),
                    (old(self)@.depth - 1) as nat,
                ),
            decreases ts.len() - self@.position,
        {
            let ghost items = expressions_view(stack@);
            match self.deeper() {
                Ok(argument) => {
                    stack.push(argument);
                    assert(expressions_view(stack@) =~= items.push(argument@));
                },
                Err(error) => {
                    return Err(error);
                },
            }
            self.traveler.next();
            if self.reads(",") {
                self.traveler.next();
            }
        }
        if !self.more() {
            return Err(self.fail(ErrorKind::PrematureEnd, ")"));
        }
        Ok(Expression::Call(Box::new(stack)))
    }

    /// The parenthesized expression at the position, or the call of it.
    fn group(&mut self) -> (parsed: Result<Expression, ParseError>)
        requires
            old(self)@.position < old(self)@.tokens.len(),
        ensures
            read_expression(
                old(self)@,
                final(self)@,
                parsed,
                group_at(old(self)@.tokens, old(self)@.position, old(self)@.depth),
            ),
        decreases old(self)@.depth, 1nat, 0nat,
    {
        if self.depth == 0 {
            return Err(self.fail(ErrorKind::TooDeep, "expression"));
        }
        self.traveler.next();
        let inner = match self.deeper() {
            Ok(inner) => inner,
            Err(error) => {
                return Err(error);
            },
        };
        self.traveler.next();
        if let Err(error) = self.require_text(")") {
            return Err(error);
        }
        if self.reads_ahead("(") {
            self.traveler.next();
            self.call(inner)
        } else {
            Ok(inner)
        }
    }

    /// The names of a parameter list from the position on. Leaves the cursor
    /// on the first token that is no part of the list.
    fn parameters(&mut self) -> (names: Vec<String>)
        ensures
            final(self)@.tokens == old(self)@.tokens,
            final(self)@.depth == old(self)@.depth,
            old(self)@.position <= final(self)@.position <= final(self)@.tokens.len(),
            parameters_from(old(self)@.tokens, old(self)@.position, Seq::empty()) == (
                names_view(names@),
                final(self)@.position,
            ),
    {
        let ghost ts = self@.tokens;
        let ghost whole = parameters_from(ts, self@.position, Seq::empty());
        let mut names: Vec<String> = Vec::new();
        proof {
            use_type_invariant(&self.traveler);
            assert(names_view(names@) =~= Seq::empty());
        }
        while self.at(Category::Identifier)
            invariant
                self@.depth == old(self)@.depth,
                self@.tokens == ts,
                ts == old(self)@.tokens,
                old(self)@.position <= self@.position <= ts.len(),
                whole == parameters_from(ts, old(self)@.position, Seq::empty()),
                whole == parameters_from(ts, self@.position, names_view(names@)),
            decreases ts.len() - self@.position,
        {
            let ghost read = names_view(names@);
            let name = self.text();
            names.push(name);
            assert(names_view(names@) =~= read.push(name@));
            self.traveler.next();
            if self.reads(",") {
                self.traveler.next();
            }
        }
        names
    }

    /// The function literal at the position.
    fn function(&mut self) -> (parsed: Result<Expression, ParseError>)
        requires
            old(self)@.position < old(self)@.tokens.len(),
        ensures
            read_expression(
                old(self)@,
                final(self)@,
                parsed,
                function_at(old(self)@.tokens, old(self)@.position, old(self)@.depth),
            ),
        decreases old(self)@.depth, 1nat, 0nat,
    {
        if self.depth == 0 {
            return Err(self.fail(ErrorKind::TooDeep, "function"));
        }
        self.traveler.next();
        let name = if self.at(Category::Identifier) {
            let name = self.text();
            self.traveler.next();
            Some(name)
        } else {
            None
        };
        self.depth = self.depth - 1;
        let parsed = self.signature(name);
        self.depth = self.depth + 1;
        parsed
    }

    /// The rest of a function literal called `name`, from its parameter list
    /// or its body on.
    fn signature(&mut self, name: Option<String>) -> (parsed: Result<
        Expression,
        ParseError,
    >)
        ensures
            read_expression(
                old(self)@,
                final(self)@,
                parsed,
                signature_at(
                    old(self)@.tokens,
                    old(self)@.position,
                    match name {
                        Some(name) => Some(name@),
                        None => None,
                    },
                    old(self)@.depth,
                ),
            ),
        decreases old(self)@.depth, 8nat, 0nat,
    {
        if !self.more() {
            return Err(self.fail(ErrorKind::PrematureEnd, "function body"));
        }
        if self.at(Category::Symbol) {
            if self.reads("(") {
                self.parameterized(name)
            } else {
                Err(self.fail(ErrorKind::Unrecognized, "("))
            }
        } else {
            match self.body() {
                Ok(body) => {
                    let args: Vec<String> = Vec::new();
                    assert(names_view(args@) =~= Seq::empty());
                    let function = Function { name, args, body: Some(body) };
                    assert(function.view().body == Some(statements_view(body@)));
                    Ok(Expression::Function(function))
                },
                Err(error) => Err(error),
            }
        }
    }

    /// The rest of a function literal called `name`, from the opening
    /// parenthesis of its parameter list on.
    fn parameterized(&mut self, name: Option<String>) -> (parsed: Result<
        Expression,
        ParseError,
    >)
        requires
            old(self)@.position < old(self)@.tokens.len(),
        ensures
            read_expression(
                old(self)@,
                final(self)@,
                parsed,
                parameterized_at(
                    old(self)@.tokens,
                    old(self)@.position,
                    match name {
                        Some(name) => Some(name@),
                        None => None,
                    },
                    old(self)@.depth,
                ),
            ),
        decreases old(self)@.depth, 7nat, 0nat,
    {
        self.traveler.next();
        let args = self.parameters();
        if let Err(error) = self.require_text(")") {
            return Err(error);
        }
        if self.body_follows() {
            self.traveler.next();
            match self.body() {
                Ok(body) => {
                    let function = Function { name, args, body: Some(body) };
                    assert(function.view().body == Some(statements_view(body@)));
                    Ok(Expression::Function(function))
                },
                Err(error) => Err(error),
            }
        } else {
            let function = Function { name, args, body: None };
            assert(function.view().body.is_none());
            Ok(Expression::Function(function))
        }
    }

    /// The return at the position.
    fn returned(&mut self) -> (parsed: Result<Expression, ParseError>)
        requires
            old(self)@.position < old(self)@.tokens.len(),
        ensures
            read_expression(
                old(self)@,
                final(self)@,
                parsed,
                return_at(old(self)@.tokens, old(self)@.position, old(self)@.depth),
            ),
        decreases old(self)@.depth, 1nat, 0nat,
    {
        if self.reads_ahead("~") {
            self.traveler.next();
            Ok(Expression::Return(None))
        } else if self.depth == 0 {
            Err(self.fail(ErrorKind::TooDeep, "expression"))
        } else {
            self.traveler.next();
            match self.deeper() {
                Ok(value) => Ok(Expression::Return(Some(Box::new(value)))),
                Err(error) => Err(error),
            }
        }
    }
}

} // verus!
