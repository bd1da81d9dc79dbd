//! What the parser's steps hand out, where the grammar's laws say what the
//! tokens spell: each law here joins a step's contract with a law of the
//! grammar.

use vstd::prelude::*;
use crate::ast::{operand_of, Expression, ExpressionView, Operand, Statement, StatementView};
use crate::error::{ErrorView, ParseError};
use crate::grammar::{
    atom_at, block_at, expression_at, has_text, keyword_at, operation_at, operator_at,
    statement_at, symbol_at, text_at,
};
use crate::laws::{
    conditional_with_expression_bodies, operation_tighter_first, operation_tighter_second,
    parenthesized_operation_is_one_operand,
};
use crate::parser::{read_expression, read_statement, ParserView};

verus! {

/// `Parser::operation`, with `a` handed in and the cursor on the first
/// operator of `a op1 b op2 c` where `op1` binds strictly tighter than `op2`,
/// hands out `(a op1 b) op2 c` and rests on the last token of `c`.
pub proof fn operation_groups_tighter_first(
    before: ParserView,
    after: ParserView,
    parsed: Result<Expression, ParseError>,
    a: ExpressionView,
    op1: (Operand, u8),
    b: ExpressionView,
    b_end: nat,
    op2: (Operand, u8),
    c: ExpressionView,
    c_end: nat,
)
    requires
        read_expression(
            before,
            after,
            parsed,
            operation_at(before.tokens, before.position, a, before.depth),
        ),
        operator_at(before.tokens, before.position),
        operand_of(text_at(before.tokens, before.position)) == Some(op1),
        atom_at(before.tokens, before.position + 1, before.depth) == Ok::<
            (ExpressionView, nat),
            ErrorView,
        >((b, b_end)),
        operator_at(before.tokens, b_end + 1),
        operand_of(text_at(before.tokens, b_end + 1)) == Some(op2),
        atom_at(before.tokens, b_end + 2, before.depth) == Ok::<(ExpressionView, nat), ErrorView>(
            (c, c_end),
        ),
        !operator_at(before.tokens, c_end + 1),
        op1.1 < op2.1,
    ensures
        parsed matches Ok(value) && value@ == ExpressionView::Operation(
            Box::new(ExpressionView::Operation(Box::new(a), op1.0, Box::new(b))),
            op2.0,
            Box::new(c),
        ),
        after.position == c_end,
        after.tokens == before.tokens,
{
    operation_tighter_first(
        before.tokens,
        before.position,
        before.depth,
        a,
        op1,
        b,
        b_end,
        op2,
        c,
        c_end,
    );
}

/// `Parser::operation`, with `a` handed in and the cursor on the first
/// operator of `a op1 b op2 c` where `op2` binds strictly tighter than `op1`,
/// hands out `a op1 (b op2 c)` and rests on the last token of `c`.
pub proof fn operation_groups_tighter_second(
    before: ParserView,
    after: ParserView,
    parsed: Result<Expression, ParseError>,
    a: ExpressionView,
    op1: (Operand, u8),
    b: ExpressionView,
    b_end: nat,
    op2: (Operand, u8),
    c: ExpressionView,
    c_end: nat,
)
    requires
        read_expression(
            before,
            after,
            parsed,
            operation_at(before.tokens, before.position, a, before.depth),
        ),
        operator_at(before.tokens, before.position),
        operand_of(text_at(before.tokens, before.position)) == Some(op1),
        atom_at(before.tokens, before.position + 1, before.depth) == Ok::<
            (ExpressionView, nat),
            ErrorView,
        >((b, b_end)),
        operator_at(before.tokens, b_end + 1),
        operand_of(text_at(before.tokens, b_end + 1)) == Some(op2),
        atom_at(before.tokens, b_end + 2, before.depth) == Ok::<(ExpressionView, nat), ErrorView>(
            (c, c_end),
        ),
        !operator_at(before.tokens, c_end + 1),
        op2.1 < op1.1,
    ensures
        parsed matches Ok(value) && value@ == ExpressionView::Operation(
            Box::new(a),
            op1.0,
            Box::new(ExpressionView::Operation(Box::new(b), op2.0, Box::new(c))),
        ),
        after.position == c_end,
        after.tokens == before.tokens,
{
    operation_tighter_second(
        before.tokens,
        before.position,
        before.depth,
        a,
        op1,
        b,
        b_end,
        op2,
        c,
        c_end,
    );
}

/// `Parser::expression`, with the cursor on the opening parenthesis of
/// `( a op1 b ) op2 c`, hands out `(a op1 b) op2 c` whatever the strengths
/// of the two operators, and rests on the last token of `c`.
pub proof fn expression_takes_group_as_operand(
    before: ParserView,
    after: ParserView,
    parsed: Result<Expression, ParseError>,
    a: ExpressionView,
    a_end: nat,
    op1: (Operand, u8),
    b: ExpressionView,
    b_end: nat,
    op2: (Operand, u8),
    c: ExpressionView,
    c_end: nat,
)
    requires
        read_expression(
            before,
            after,
            parsed,
            expression_at(before.tokens, before.position, before.depth),
        ),
        before.depth > 0,
        symbol_at(before.tokens, before.position),
        has_text(before.tokens, before.position, "("@),
        atom_at(before.tokens, before.position + 1, (before.depth - 1) as nat) == Ok::<
            (ExpressionView, nat),
            ErrorView,
        >((a, a_end)),
        operator_at(before.tokens, a_end + 1),
        operand_of(text_at(before.tokens, a_end + 1)) == Some(op1),
        atom_at(before.tokens, a_end + 2, (before.depth - 1) as nat) == Ok::<
            (ExpressionView, nat),
            ErrorView,
        >((b, b_end)),
        symbol_at(before.tokens, b_end + 1),
        has_text(before.tokens, b_end + 1, ")"@),
        operator_at(before.tokens, b_end + 2),
        operand_of(text_at(before.tokens, b_end + 2)) == Some(op2),
        atom_at(before.tokens, b_end + 3, before.depth) == Ok::<(ExpressionView, nat), ErrorView>(
            (c, c_end),
        ),
        !operator_at(before.tokens, c_end + 1),
    ensures
        parsed matches Ok(value) && value@ == ExpressionView::Operation(
            Box::new(ExpressionView::Operation(Box::new(a), op1.0, Box::new(b))),
            op2.0,
            Box::new(c),
        ),
        after.position == c_end,
        after.tokens == before.tokens,
{
    parenthesized_operation_is_one_operand(
        before.tokens,
        before.position,
        before.depth,
        a,
        a_end,
        op1,
        b,
        b_end,
        op2,
        c,
        c_end,
    );
}

/// `Parser::statement`, with the cursor on the `if` of `if a b else c` where
/// neither `b` nor `c` begins with a block, hands out the conditional on `a`
/// whose two bodies hold one statement each, `b` and `c`, and rests on the
/// last token of `c`.
pub proof fn statement_reads_expression_bodies(
    before: ParserView,
    after: ParserView,
    parsed: Result<Statement, ParseError>,
    a: ExpressionView,
    a_end: nat,
    b: ExpressionView,
    b_end: nat,
    c: ExpressionView,
    c_end: nat,
)
    requires
        read_statement(
            before,
            after,
            parsed,
            statement_at(before.tokens, before.position, before.depth),
        ),
        keyword_at(before.tokens, before.position),
        has_text(before.tokens, before.position, "if"@),
        expression_at(before.tokens, before.position + 1, before.depth) == Ok::<
            (ExpressionView, nat),
            ErrorView,
        >((a, a_end)),
        !block_at(before.tokens, a_end + 1),
        expression_at(before.tokens, a_end + 1, before.depth) == Ok::<
            (ExpressionView, nat),
            ErrorView,
        >((b, b_end)),
        has_text(before.tokens, b_end + 1, "else"@),
        !block_at(before.tokens, b_end + 2),
        expression_at(before.tokens, b_end + 2, before.depth) == Ok::<
            (ExpressionView, nat),
            ErrorView,
        >((c, c_end)),
    ensures
        parsed matches Ok(value) && value@ == StatementView::IfElse(
            Box::new(a),
            seq![StatementView::Expression(Box::new(b))],
            seq![StatementView::Expression(Box::new(c))],
        ),
        after.position == c_end,
        after.tokens == before.tokens,
{
    conditional_with_expression_bodies(
        before.tokens,
        before.position,
        before.depth,
        a,
        a_end,
        b,
        b_end,
        c,
        c_end,
    );
}

} // verus!
