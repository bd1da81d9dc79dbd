//! The grammar, as functions from a token sequence and a position to what
//! parsing from there yields.
//!
//! A position is an index into the sequence. A construct that parses yields
//! its tree and the index of its last token; one that does not yields the
//! failure. `depth` is how many levels of nesting may still be entered: each
//! parenthesized group, argument list, function literal, returned expression
//! and block takes one.
//!
//! The functions call one another. Each is measured by the depth, then by a
//! rank that is higher than that of whatever it calls at the same depth, then
//! by the tokens left where it calls itself further on in the sequence.

use vstd::prelude::*;
use crate::ast::{operand_of, ExpressionView, FunctionView, Operand, StatementView, ValueView};
use crate::error::{ErrorKind, ErrorView};
use crate::text::int_literal_value;
use crate::token::{Category, TokenView};

verus! {

/// How many tokens lie at or after `pos`.
pub open spec fn tokens_left(ts: Seq<TokenView>, pos: nat) -> nat {
    if pos < ts.len() {
        (ts.len() - pos) as nat
    } else {
        0
    }
}

/// The later of a construct's start and the index it is said to end at. A
/// construct never ends before it starts (module `spans` proves it), so this
/// is its end; taking the later one shows at a glance that what follows lies
/// further on.
pub open spec fn furthest(start: nat, end: nat) -> nat {
    if end >= start {
        end
    } else {
        start
    }
}

/// The token at `pos`.
pub open spec fn token_at(ts: Seq<TokenView>, pos: nat) -> TokenView {
    ts[pos as int]
}

/// The text of the token at `pos`; no text past the last token.
pub open spec fn text_at(ts: Seq<TokenView>, pos: nat) -> Seq<char> {
    if pos < ts.len() {
        token_at(ts, pos).text
    } else {
        Seq::empty()
    }
}

/// Whether a token stands at `pos` and reads `text`.
pub open spec fn has_text(ts: Seq<TokenView>, pos: nat, text: Seq<char>) -> bool {
    pos < ts.len() && token_at(ts, pos).text == text
}

/// Whether an operator token stands at `pos`.
pub open spec fn operator_at(ts: Seq<TokenView>, pos: nat) -> bool {
    pos < ts.len() && token_at(ts, pos).category == Category::Operator
}

/// Whether an identifier token stands at `pos`.
pub open spec fn identifier_at(ts: Seq<TokenView>, pos: nat) -> bool {
    pos < ts.len() && token_at(ts, pos).category == Category::Identifier
}

/// Whether a keyword token stands at `pos`.
pub open spec fn keyword_at(ts: Seq<TokenView>, pos: nat) -> bool {
    pos < ts.len() && token_at(ts, pos).category == Category::Keyword
}

/// Whether a symbol token stands at `pos`.
pub open spec fn symbol_at(ts: Seq<TokenView>, pos: nat) -> bool {
    pos < ts.len() && token_at(ts, pos).category == Category::Symbol
}

/// Whether a block token stands at `pos`.
pub open spec fn block_at(ts: Seq<TokenView>, pos: nat) -> bool {
    pos < ts.len() && token_at(ts, pos).category == Category::Block
}

/// A failure of kind `kind` at `pos`, where `expected` was asked for.
pub open spec fn failure(
    kind: ErrorKind,
    ts: Seq<TokenView>,
    pos: nat,
    expected: Seq<char>,
) -> ErrorView {
    ErrorView { kind, position: pos, path: Seq::empty(), expected, found: text_at(ts, pos) }
}

/// The failure of running out of tokens where `expected` was asked for.
pub open spec fn missing(ts: Seq<TokenView>, expected: Seq<char>) -> ErrorView {
    failure(ErrorKind::PrematureEnd, ts, ts.len(), expected)
}

/// Whether an expression can begin with `token`.
pub open spec fn starts_expression(token: TokenView) -> bool {
    match token.category {
        Category::IntLiteral
        | Category::FloatLiteral
        | Category::BoolLiteral
        | Category::StringLiteral
        | Category::CharLiteral
        | Category::Identifier => true,
        Category::Symbol => token.text == "("@,
        Category::Keyword => token.text == "fun"@ || token.text == "return"@,
        Category::Operator | Category::Block => false,
    }
}

/// Whether a body, a block or a single expression, begins at `pos`.
pub open spec fn body_at(ts: Seq<TokenView>, pos: nat) -> bool {
    block_at(ts, pos) || (pos < ts.len() && starts_expression(token_at(ts, pos)))
}

/// An expression as a statement of its own.
pub open spec fn bare(parsed: Result<(ExpressionView, nat), ErrorView>) -> Result<
    (StatementView, nat),
    ErrorView,
> {
    match parsed {
        Ok((value, end)) => Ok((StatementView::Expression(Box::new(value)), end)),
        Err(error) => Err(error),
    }
}

/// The operands `items` joined by the operators `ops`, each operator taking
/// all that follows it as its right side: `a o b p c` is `a o (b p c)`.
pub open spec fn nested(items: Seq<ExpressionView>, ops: Seq<(Operand, u8)>) -> ExpressionView
    decreases ops.len(),
{
    if ops.len() == 0 {
        items[0]
    } else {
        ExpressionView::Operation(
            Box::new(items[0]),
            ops[0].0,
            Box::new(nested(items.skip(1), ops.skip(1))),
        )
    }
}

/// The pending operands with the last two joined by `op`.
pub open spec fn reduced(items: Seq<ExpressionView>, op: Operand) -> Seq<ExpressionView> {
    items.take(items.len() - 2).push(
        ExpressionView::Operation(
            Box::new(items[items.len() - 2]),
            op,
            Box::new(items[items.len() - 1]),
        ),
    )
}

/// Joining the last two pending operands by the last pending operator leaves
/// what the pending operands and operators nest to as it was.
pub proof fn nested_after_reduction(items: Seq<ExpressionView>, ops: Seq<(Operand, u8)>)
    requires
        ops.len() >= 1,
        items.len() == ops.len() + 1,
    ensures
        nested(reduced(items, ops.last().0), ops.drop_last()) == nested(items, ops),
    decreases ops.len(),
{
    let joined = reduced(items, ops.last().0);
    let rest = ops.drop_last();
    if ops.len() == 1 {
        assert(nested(items.skip(1), ops.skip(1)) == items[1]);
        assert(nested(joined, rest) == joined[0]);
    } else {
        nested_after_reduction(items.skip(1), ops.skip(1));
        assert(reduced(items.skip(1), ops.skip(1).last().0) =~= joined.skip(1));
        assert(ops.skip(1).drop_last() =~= rest.skip(1));
        assert(nested(joined.skip(1), rest.skip(1)) == nested(items.skip(1), ops.skip(1)));
        assert(nested(joined, rest) == ExpressionView::Operation(
            Box::new(joined[0]),
            rest[0].0,
            Box::new(nested(joined.skip(1), rest.skip(1))),
        ));
    }
}

/// The statements from `pos` to the end of `ts`, after `done`.
pub open spec fn statements_from(
    ts: Seq<TokenView>,
    pos: nat,
    done: Seq<StatementView>,
    depth: nat,
) -> Result<Seq<StatementView>, ErrorView>
    decreases depth, 9nat, tokens_left(ts, pos),
{
    if pos >= ts.len() {
        Ok(done)
    } else {
        match statement_at(ts, pos, depth) {
            Ok((statement, end)) => statements_from(
                ts,
                furthest(pos, end) + 1,
                done.push(statement),
                depth,
            ),
            Err(error) => Err(error),
        }
    }
}

/// The statements inside the block token at `pos`.
pub open spec fn block_body(ts: Seq<TokenView>, pos: nat, depth: nat) -> Result<
    Seq<StatementView>,
    ErrorView,
>
    decreases depth, 0nat, 0nat,
{
    if !block_at(ts, pos) {
        Err(failure(ErrorKind::UnexpectedCategory, ts, pos, "block"@))
    } else if depth == 0 {
        Err(failure(ErrorKind::TooDeep, ts, pos, "block"@))
    } else {
        match statements_from(token_at(ts, pos).inner, 0, Seq::empty(), (depth - 1) as nat) {
            Ok(body) => Ok(body),
            Err(error) => Err(error.within(pos)),
        }
    }
}

/// A body at `pos`: the statements of a block, or one expression as the only
/// statement.
pub open spec fn body(ts: Seq<TokenView>, pos: nat, depth: nat) -> Result<
    (Seq<StatementView>, nat),
    ErrorView,
>
    decreases depth, 6nat, 0nat,
{
    if block_at(ts, pos) {
        match block_body(ts, pos, depth) {
            Ok(statements) => Ok((statements, pos)),
            Err(error) => Err(error),
        }
    } else {
        match expression_at(ts, pos, depth) {
            Ok((value, end)) => Ok((seq![StatementView::Expression(Box::new(value))], end)),
            Err(error) => Err(error),
        }
    }
}

/// The statement that begins at `pos`.
pub open spec fn statement_at(ts: Seq<TokenView>, pos: nat, depth: nat) -> Result<
    (StatementView, nat),
    ErrorView,
>
    decreases depth, 8nat, 0nat,
{
    if identifier_at(ts, pos) {
        if has_text(ts, pos + 1, "="@) {
            match expression_at(ts, pos + 2, depth) {
                Ok((value, end)) => Ok(
                    (StatementView::Assignment(token_at(ts, pos).text, Box::new(value)), end),
                ),
                Err(error) => Err(error),
            }
        } else {
            bare(expression_at(ts, pos, depth))
        }
    } else if keyword_at(ts, pos) {
        if has_text(ts, pos, "var"@) {
            definition_at(ts, pos, depth)
        } else if has_text(ts, pos, "if"@) {
            conditional_at(ts, pos, depth)
        } else if has_text(ts, pos, "fun"@) || has_text(ts, pos, "return"@) {
            bare(expression_at(ts, pos, depth))
        } else {
            Err(failure(ErrorKind::Unrecognized, ts, pos, "statement"@))
        }
    } else {
        bare(expression_at(ts, pos, depth))
    }
}

/// The definition whose keyword stands at `pos`: a name, the assignment sign
/// and the expression that the name is bound to.
pub open spec fn definition_at(ts: Seq<TokenView>, pos: nat, depth: nat) -> Result<
    (StatementView, nat),
    ErrorView,
>
    decreases depth, 7nat, 0nat,
{
    if pos + 1 >= ts.len() {
        Err(missing(ts, "identifier"@))
    } else if !identifier_at(ts, pos + 1) {
        Err(failure(ErrorKind::UnexpectedCategory, ts, pos + 1, "identifier"@))
    } else if pos + 2 >= ts.len() {
        Err(missing(ts, "="@))
    } else if !has_text(ts, pos + 2, "="@) {
        Err(failure(ErrorKind::UnexpectedText, ts, pos + 2, "="@))
    } else {
        match expression_at(ts, pos + 3, depth) {
            Ok((value, end)) => Ok(
                (StatementView::Definition(token_at(ts, pos + 1).text, Box::new(value)), end),
            ),
            Err(error) => Err(error),
        }
    }
}

/// The conditional whose keyword stands at `pos`: a condition and a body,
/// and another body where `else` follows the first.
pub open spec fn conditional_at(ts: Seq<TokenView>, pos: nat, depth: nat) -> Result<
    (StatementView, nat),
    ErrorView,
>
    decreases depth, 7nat, 0nat,
{
    match expression_at(ts, pos + 1, depth) {
        Ok((condition, condition_end)) => match body(ts, condition_end + 1, depth) {
            Ok((then, then_end)) => if has_text(ts, then_end + 1, "else"@) {
                match body(ts, then_end + 2, depth) {
                    Ok((otherwise, end)) => Ok(
                        (StatementView::IfElse(Box::new(condition), then, otherwise), end),
                    ),
                    Err(error) => Err(error),
                }
            } else {
                Ok((StatementView::If(Box::new(condition), then), then_end))
            },
            Err(error) => Err(error),
        },
        Err(error) => Err(error),
    }
}

/// The expression that begins at `pos`: one atom, or the chain of atoms and
/// operators that begins with it.
pub open spec fn expression_at(ts: Seq<TokenView>, pos: nat, depth: nat) -> Result<
    (ExpressionView, nat),
    ErrorView,
>
    decreases depth, 5nat, 0nat,
{
    match atom_at(ts, pos, depth) {
        Ok((first, end)) => if operator_at(ts, end + 1) {
            operation_at(ts, end + 1, first, depth)
        } else {
            Ok((first, end))
        },
        Err(error) => Err(error),
    }
}

/// The chain whose first operand is `first` and whose first operator stands
/// at `pos`.
pub open spec fn operation_at(
    ts: Seq<TokenView>,
    pos: nat,
    first: ExpressionView,
    depth: nat,
) -> Result<(ExpressionView, nat), ErrorView>
    decreases depth, 4nat, 0nat,
{
    match operand_of(text_at(ts, pos)) {
        Some(op) => match atom_at(ts, pos + 1, depth) {
            Ok((second, end)) => chain_from(
                ts,
                furthest(pos + 1, end),
                seq![first, second],
                seq![op],
                depth,
            ),
            Err(error) => Err(error),
        },
        None => Err(failure(ErrorKind::Unrecognized, ts, pos, "operator"@)),
    }
}

/// The rest of a chain that has been read up to the token at `end`, with the
/// operands `items` and the operators `ops` pending, one operator fewer than
/// operands.
///
/// An operator that binds less tightly than the last pending one first joins
/// the last two pending operands by that one; any other operator is put on
/// top as it comes. When no operator follows, what is pending is joined from
/// the last operator down.
pub open spec fn chain_from(
    ts: Seq<TokenView>,
    end: nat,
    items: Seq<ExpressionView>,
    ops: Seq<(Operand, u8)>,
    depth: nat,
) -> Result<(ExpressionView, nat), ErrorView>
    decreases depth, 3nat, tokens_left(ts, end),
{
    if operator_at(ts, end + 1) {
        match operand_of(text_at(ts, end + 1)) {
            Some(op) => match atom_at(ts, end + 2, depth) {
                Ok((next, next_end)) => if op.1 > ops.last().1 {
                    chain_from(
                        ts,
                        furthest(end + 2, next_end),
                        reduced(items, ops.last().0).push(next),
                        ops.drop_last().push(op),
                        depth,
                    )
                } else {
                    chain_from(
                        ts,
                        furthest(end + 2, next_end),
                        items.push(next),
                        ops.push(op),
                        depth,
                    )
                },
                Err(error) => Err(error),
            },
            None => Err(failure(ErrorKind::Unrecognized, ts, end + 1, "operator"@)),
        }
    } else {
        Ok((nested(items, ops), end))
    }
}

/// The atom that begins at `pos`.
pub open spec fn atom_at(ts: Seq<TokenView>, pos: nat, depth: nat) -> Result<
    (ExpressionView, nat),
    ErrorView,
>
    decreases depth, 2nat, 0nat,
{
    if pos >= ts.len() {
        Err(missing(ts, "expression"@))
    } else {
        let text = token_at(ts, pos).text;
        match token_at(ts, pos).category {
            Category::IntLiteral => match int_literal_value(text) {
                Some(n) => Ok((ExpressionView::Atom(ValueView::IntLiteral(n)), pos)),
                None => Err(failure(ErrorKind::UnexpectedText, ts, pos, "integer literal"@)),
            },
            Category::FloatLiteral => Ok(
                (ExpressionView::Atom(ValueView::FloatLiteral(text)), pos),
            ),
            Category::BoolLiteral => Ok(
                (ExpressionView::Atom(ValueView::BoolLiteral(text == "yes"@)), pos),
            ),
            Category::StringLiteral => Ok(
                (ExpressionView::Atom(ValueView::StringLiteral(text)), pos),
            ),
            Category::CharLiteral => if text.len() > 0 {
                Ok((ExpressionView::Atom(ValueView::CharLiteral(text[0])), pos))
            } else {
                Err(failure(ErrorKind::UnexpectedText, ts, pos, "character literal"@))
            },
            Category::Identifier => named_at(ts, pos, depth),
            Category::Symbol => if text == "("@ {
                group_at(ts, pos, depth)
            } else {
                Err(failure(ErrorKind::Unrecognized, ts, pos, "expression"@))
            },
            Category::Keyword => if text == "fun"@ {
                function_at(ts, pos, depth)
            } else if text == "return"@ {
                return_at(ts, pos, depth)
            } else {
                Err(failure(ErrorKind::Unrecognized, ts, pos, "expression"@))
            },
            Category::Operator | Category::Block => Err(
                failure(ErrorKind::UnexpectedCategory, ts, pos, "expression"@),
            ),
        }
    }
}

/// What the identifier at `pos` stands for: the call of it where an opening
/// parenthesis follows, the call of it without arguments where `~` follows,
/// else the name alone. A symbol after it that neither opens a call nor ends
/// an item of a list has no rule.
pub open spec fn named_at(ts: Seq<TokenView>, pos: nat, depth: nat) -> Result<
    (ExpressionView, nat),
    ErrorView,
>
    decreases depth, 1nat, 0nat,
{
    let name = ExpressionView::Identifier(token_at(ts, pos).text);
    if symbol_at(ts, pos + 1) {
        if has_text(ts, pos + 1, "("@) {
            call_at(ts, pos + 1, name, depth)
        } else if has_text(ts, pos + 1, "~"@) {
            Ok((ExpressionView::Call(seq![name]), pos + 1))
        } else if has_text(ts, pos + 1, ","@) || has_text(ts, pos + 1, ")"@) {
            Ok((name, pos))
        } else {
            Err(failure(ErrorKind::Unrecognized, ts, pos + 1, "call or separator"@))
        }
    } else {
        Ok((name, pos))
    }
}

/// The call of `callee` whose opening parenthesis stands at `pos`.
pub open spec fn call_at(
    ts: Seq<TokenView>,
    pos: nat,
    callee: ExpressionView,
    depth: nat,
) -> Result<(ExpressionView, nat), ErrorView>
    decreases depth, 0nat, 0nat,
{
    if depth == 0 {
        Err(failure(ErrorKind::TooDeep, ts, pos, "arguments"@))
    } else {
        arguments_from(ts, pos + 1, seq![callee], (depth - 1) as nat)
    }
}

/// The rest of a call from `pos` on: arguments up to the closing parenthesis,
/// a comma after an argument being passed over. `items` holds the callee and
/// the arguments read so far.
pub open spec fn arguments_from(
    ts: Seq<TokenView>,
    pos: nat,
    items: Seq<ExpressionView>,
    depth: nat,
) -> Result<(ExpressionView, nat), ErrorView>
    decreases depth, 6nat, tokens_left(ts, pos),
{
    if pos >= ts.len() {
        Err(missing(ts, ")"@))
    } else if has_text(ts, pos, ")"@) {
        Ok((ExpressionView::Call(items), pos))
    } else {
        match expression_at(ts, pos, depth) {
            Ok((argument, end)) => {
                let next = furthest(pos, end) + 1;
                arguments_from(
                    ts,
                    if has_text(ts, next, ","@) {
                        next + 1
                    } else {
                        next
                    },
                    items.push(argument),
                    depth,
                )
            },
            Err(error) => Err(error),
        }
    }
}

/// The parenthesized expression whose opening parenthesis stands at `pos`;
/// the call of it, where another opening parenthesis follows the closing one.
pub open spec fn group_at(ts: Seq<TokenView>, pos: nat, depth: nat) -> Result<
    (ExpressionView, nat),
    ErrorView,
>
    decreases depth, 1nat, 0nat,
{
    if depth == 0 {
        Err(failure(ErrorKind::TooDeep, ts, pos, "expression"@))
    } else {
        match expression_at(ts, pos + 1, (depth - 1) as nat) {
            Ok((inner, end)) => if end + 1 >= ts.len() {
                Err(missing(ts, ")"@))
            } else if !has_text(ts, end + 1, ")"@) {
                Err(failure(ErrorKind::UnexpectedText, ts, end + 1, ")"@))
            } else if has_text(ts, end + 2, "("@) {
                call_at(ts, end + 2, inner, depth)
            } else {
                Ok((inner, end + 1))
            },
            Err(error) => Err(error),
        }
    }
}

/// The names of a parameter list from `pos` on, after `names`, a comma after
/// a name being passed over; with them the index of the first token that is
/// no part of the list.
pub open spec fn parameters_from(ts: Seq<TokenView>, pos: nat, names: Seq<Seq<char>>) -> (
    Seq<Seq<char>>,
    nat,
)
    decreases tokens_left(ts, pos),
{
    if identifier_at(ts, pos) {
        parameters_from(
            ts,
            if has_text(ts, pos + 1, ","@) {
                pos + 2
            } else {
                pos + 1
            },
            names.push(token_at(ts, pos).text),
        )
    } else {
        (names, pos)
    }
}

/// The function literal whose keyword stands at `pos`: an optional name,
/// then either a parameter list with or without a body after it, or a body
/// alone.
pub open spec fn function_at(ts: Seq<TokenView>, pos: nat, depth: nat) -> Result<
    (ExpressionView, nat),
    ErrorView,
>
    decreases depth, 1nat, 0nat,
{
    if depth == 0 {
        Err(failure(ErrorKind::TooDeep, ts, pos, "function"@))
    } else if identifier_at(ts, pos + 1) {
        signature_at(ts, pos + 2, Some(token_at(ts, pos + 1).text), (depth - 1) as nat)
    } else {
        signature_at(ts, pos + 1, None, (depth - 1) as nat)
    }
}

/// The function literal called `name` whose parameter list or body begins at
/// `pos`. An opening parenthesis there always opens a parameter list.
pub open spec fn signature_at(
    ts: Seq<TokenView>,
    pos: nat,
    name: Option<Seq<char>>,
    depth: nat,
) -> Result<(ExpressionView, nat), ErrorView>
    decreases depth, 8nat, 0nat,
{
    if pos >= ts.len() {
        Err(missing(ts, "function body"@))
    } else if symbol_at(ts, pos) {
        if has_text(ts, pos, "("@) {
            parameterized_at(ts, pos, name, depth)
        } else {
            Err(failure(ErrorKind::Unrecognized, ts, pos, "("@))
        }
    } else {
        match body(ts, pos, depth) {
            Ok((statements, end)) => Ok(
                (
                    ExpressionView::Function(
                        FunctionView { name, args: Seq::empty(), body: Some(statements) },
                    ),
                    end,
                ),
            ),
            Err(error) => Err(error),
        }
    }
}

/// The function literal called `name` whose parameter list opens at `pos`.
/// It has a body where one begins after the list, and none otherwise.
pub open spec fn parameterized_at(
    ts: Seq<TokenView>,
    pos: nat,
    name: Option<Seq<char>>,
    depth: nat,
) -> Result<(ExpressionView, nat), ErrorView>
    decreases depth, 7nat, 0nat,
{
    let (args, close) = parameters_from(ts, pos + 1, Seq::empty());
    if close >= ts.len() {
        Err(missing(ts, ")"@))
    } else if !has_text(ts, close, ")"@) {
        Err(failure(ErrorKind::UnexpectedText, ts, close, ")"@))
    } else if body_at(ts, close + 1) {
        match body(ts, close + 1, depth) {
            Ok((statements, end)) => Ok(
                (
                    ExpressionView::Function(FunctionView { name, args, body: Some(statements) }),
                    end,
                ),
            ),
            Err(error) => Err(error),
        }
    } else {
        Ok((ExpressionView::Function(FunctionView { name, args, body: None }), close))
    }
}

/// The return whose keyword stands at `pos`: of nothing where `~` follows,
/// else of the expression that follows.
pub open spec fn return_at(ts: Seq<TokenView>, pos: nat, depth: nat) -> Result<
    (ExpressionView, nat),
    ErrorView,
>
    decreases depth, 1nat, 0nat,
{
    if has_text(ts, pos + 1, "~"@) {
        Ok((ExpressionView::Return(None), pos + 1))
    } else if depth == 0 {
        Err(failure(ErrorKind::TooDeep, ts, pos, "expression"@))
    } else {
        match expression_at(ts, pos + 1, (depth - 1) as nat) {
            Ok((value, end)) => Ok((ExpressionView::Return(Some(Box::new(value))), end)),
            Err(error) => Err(error),
        }
    }
}

} // verus!
