//! Where what the grammar yields ends: never before the token it begins
//! at, and always on a token of the sequence.

use vstd::prelude::*;
use crate::ast::{operand_of, ExpressionView, Operand};
use crate::error::ErrorView;
use crate::grammar::{
    arguments_from, atom_at, block_at, body, call_at, chain_from, conditional_at, definition_at,
    expression_at, function_at, furthest, group_at, has_text, identifier_at, keyword_at,
    named_at, operation_at, operator_at, parameterized_at, parameters_from, reduced, return_at,
    signature_at, statement_at, symbol_at, text_at, token_at, tokens_left,
};
use crate::token::{Category, TokenView};

verus! {

/// Whether what was parsed from `pos` in a sequence of `len` tokens, if
/// anything, ends at or after `pos` and on a token of the sequence.
pub open spec fn spans<T>(parsed: Result<(T, nat), ErrorView>, pos: nat, len: nat) -> bool {
    match parsed {
        Ok((_, end)) => pos <= end < len,
        Err(_) => true,
    }
}

/// A parameter list ends at or after the position it is read from.
pub proof fn parameters_span(ts: Seq<TokenView>, pos: nat, names: Seq<Seq<char>>)
    ensures
        pos <= parameters_from(ts, pos, names).1,
    decreases tokens_left(ts, pos),
{
    if identifier_at(ts, pos) {
        parameters_span(
            ts,
            if has_text(ts, pos + 1, ","@) {
                pos + 2
            } else {
                pos + 1
            },
            names.push(token_at(ts, pos).text),
        );
    }
}

/// A statement ends at or after the token it begins at, and on a token.
pub proof fn statement_span(ts: Seq<TokenView>, pos: nat, depth: nat)
    ensures
        spans(statement_at(ts, pos, depth), pos, ts.len()),
    decreases depth, 8nat, 0nat,
{
    if identifier_at(ts, pos) {
        if has_text(ts, pos + 1, "="@) {
            expression_span(ts, pos + 2, depth);
        } else {
            expression_span(ts, pos, depth);
        }
    } else if keyword_at(ts, pos) {
        if has_text(ts, pos, "var"@) {
            definition_span(ts, pos, depth);
        } else if has_text(ts, pos, "if"@) {
            conditional_span(ts, pos, depth);
        } else if has_text(ts, pos, "fun"@) || has_text(ts, pos, "return"@) {
            expression_span(ts, pos, depth);
        }
    } else {
        expression_span(ts, pos, depth);
    }
}

/// A definition ends after its keyword, and on a token.
pub proof fn definition_span(ts: Seq<TokenView>, pos: nat, depth: nat)
    ensures
        spans(definition_at(ts, pos, depth), pos, ts.len()),
    decreases depth, 7nat, 0nat,
{
    expression_span(ts, pos + 3, depth);
}

/// A conditional ends after its keyword, and on a token.
pub proof fn conditional_span(ts: Seq<TokenView>, pos: nat, depth: nat)
    ensures
        spans(conditional_at(ts, pos, depth), pos, ts.len()),
    decreases depth, 7nat, 0nat,
{
    expression_span(ts, pos + 1, depth);
    match expression_at(ts, pos + 1, depth) {
        Ok((_, condition_end)) => {
            body_span(ts, condition_end + 1, depth);
            match body(ts, condition_end + 1, depth) {
                Ok((_, then_end)) => {
                    body_span(ts, then_end + 2, depth);
                },
                Err(_) => {},
            }
        },
        Err(_) => {},
    }
}

/// A body ends at or after the token it begins at, and on a token.
pub proof fn body_span(ts: Seq<TokenView>, pos: nat, depth: nat)
    ensures
        spans(body(ts, pos, depth), pos, ts.len()),
    decreases depth, 6nat, 0nat,
{
    if !block_at(ts, pos) {
        expression_span(ts, pos, depth);
    }
}

/// An expression ends at or after the token it begins at, and on a token.
pub proof fn expression_span(ts: Seq<TokenView>, pos: nat, depth: nat)
    ensures
        spans(expression_at(ts, pos, depth), pos, ts.len()),
    decreases depth, 5nat, 0nat,
{
    atom_span(ts, pos, depth);
    match atom_at(ts, pos, depth) {
        Ok((first, end)) => {
            if operator_at(ts, end + 1) {
                operation_span(ts, end + 1, first, depth);
            }
        },
        Err(_) => {},
    }
}

/// A chain ends after its first operator, and on a token.
pub proof fn operation_span(ts: Seq<TokenView>, pos: nat, first: ExpressionView, depth: nat)
    ensures
        spans(operation_at(ts, pos, first, depth), pos, ts.len()),
    decreases depth, 4nat, 0nat,
{
    match operand_of(text_at(ts, pos)) {
        Some(op) => {
            atom_span(ts, pos + 1, depth);
            match atom_at(ts, pos + 1, depth) {
                Ok((second, end)) => {
                    chain_span(ts, end, seq![first, second], seq![op], depth);
                },
                Err(_) => {},
            }
        },
        None => {},
    }
}

/// The rest of a chain that has been read up to a token ends at or after
/// that token, and on a token.
pub proof fn chain_span(
    ts: Seq<TokenView>,
    end: nat,
    items: Seq<ExpressionView>,
    ops: Seq<(Operand, u8)>,
    depth: nat,
)
    requires
        end < ts.len(),
    ensures
        spans(chain_from(ts, end, items, ops, depth), end, ts.len()),
    decreases depth, 3nat, tokens_left(ts, end),
{
    if operator_at(ts, end + 1) {
        match operand_of(text_at(ts, end + 1)) {
            Some(op) => {
                atom_span(ts, end + 2, depth);
                match atom_at(ts, end + 2, depth) {
                    Ok((next, next_end)) => {
                        if op.1 > ops.last().1 {
                            chain_span(
                                ts,
                                next_end,
                                reduced(items, ops.last().0).push(next),
                                ops.drop_last().push(op),
                                depth,
                            );
                        } else {
                            chain_span(ts, next_end, items.push(next), ops.push(op), depth);
                        }
                    },
                    Err(_) => {},
                }
            },
            None => {},
        }
    }
}

/// An atom ends at or after the token it begins at, and on a token.
pub proof fn atom_span(ts: Seq<TokenView>, pos: nat, depth: nat)
    ensures
        spans(atom_at(ts, pos, depth), pos, ts.len()),
    decreases depth, 2nat, 0nat,
{
    if pos < ts.len() {
        let text = token_at(ts, pos).text;
        match token_at(ts, pos).category {
            Category::Identifier => {
                named_span(ts, pos, depth);
            },
            Category::Symbol => {
                if text == "("@ {
                    group_span(ts, pos, depth);
                }
            },
            Category::Keyword => {
                if text == "fun"@ {
                    function_span(ts, pos, depth);
                } else if text == "return"@ {
                    return_span(ts, pos, depth);
                }
            },
            _ => {},
        }
    }
}

/// What an identifier stands for ends at or after it, and on a token.
pub proof fn named_span(ts: Seq<TokenView>, pos: nat, depth: nat)
    requires
        pos < ts.len(),
    ensures
        spans(named_at(ts, pos, depth), pos, ts.len()),
    decreases depth, 1nat, 0nat,
{
    if symbol_at(ts, pos + 1) && has_text(ts, pos + 1, "("@) {
        call_span(ts, pos + 1, ExpressionView::Identifier(token_at(ts, pos).text), depth);
    }
}

/// A call ends after its opening parenthesis, and on a token.
pub proof fn call_span(ts: Seq<TokenView>, pos: nat, callee: ExpressionView, depth: nat)
    ensures
        spans(call_at(ts, pos, callee, depth), pos, ts.len()),
    decreases depth, 0nat, 0nat,
{
    if depth > 0 {
        arguments_span(ts, pos + 1, seq![callee], (depth - 1) as nat);
    }
}

/// The rest of a call ends at or after the position it is read from, and on
/// a token.
pub proof fn arguments_span(ts: Seq<TokenView>, pos: nat, items: Seq<ExpressionView>, depth: nat)
    ensures
        spans(arguments_from(ts, pos, items, depth), pos, ts.len()),
    decreases depth, 6nat, tokens_left(ts, pos),
{
    if pos < ts.len() && !has_text(ts, pos, ")"@) {
        expression_span(ts, pos, depth);
        match expression_at(ts, pos, depth) {
            Ok((argument, end)) => {
                let next = furthest(pos, end) + 1;
                arguments_span(
                    ts,
                    if has_text(ts, next, ","@) {
                        next + 1
                    } else {
                        next
                    },
                    items.push(argument),
                    depth,
                );
            },
            Err(_) => {},
        }
    }
}

/// A parenthesized expression ends after its opening parenthesis, and on a
/// token.
pub proof fn group_span(ts: Seq<TokenView>, pos: nat, depth: nat)
    ensures
        spans(group_at(ts, pos, depth), pos, ts.len()),
    decreases depth, 1nat, 0nat,
{
    if depth > 0 {
        expression_span(ts, pos + 1, (depth - 1) as nat);
        match expression_at(ts, pos + 1, (depth - 1) as nat) {
            Ok((inner, end)) => {
                if has_text(ts, end + 2, "("@) {
                    call_span(ts, end + 2, inner, depth);
                }
            },
            Err(_) => {},
        }
    }
}

/// A function literal ends after its keyword, and on a token.
pub proof fn function_span(ts: Seq<TokenView>, pos: nat, depth: nat)
    ensures
        spans(function_at(ts, pos, depth), pos, ts.len()),
    decreases depth, 1nat, 0nat,
{
    if depth > 0 {
        if identifier_at(ts, pos + 1) {
            signature_span(ts, pos + 2, Some(token_at(ts, pos + 1).text), (depth - 1) as nat);
        } else {
            signature_span(ts, pos + 1, None, (depth - 1) as nat);
        }
    }
}

/// The rest of a function literal ends at or after the position it is read
/// from, and on a token.
pub proof fn signature_span(ts: Seq<TokenView>, pos: nat, name: Option<Seq<char>>, depth: nat)
    ensures
        spans(signature_at(ts, pos, name, depth), pos, ts.len()),
    decreases depth, 8nat, 0nat,
{
    if pos < ts.len() {
        if symbol_at(ts, pos) {
            if has_text(ts, pos, "("@) {
                parameterized_span(ts, pos, name, depth);
            }
        } else {
            body_span(ts, pos, depth);
        }
    }
}

/// A function literal with a parameter list ends after the list's opening
/// parenthesis, and on a token.
pub proof fn parameterized_span(ts: Seq<TokenView>, pos: nat, name: Option<Seq<char>>, depth: nat)
    ensures
        spans(parameterized_at(ts, pos, name, depth), pos, ts.len()),
    decreases depth, 7nat, 0nat,
{
    parameters_span(ts, pos + 1, Seq::empty());
    let close = parameters_from(ts, pos + 1, Seq::empty()).1;
    body_span(ts, close + 1, depth);
}

/// A return ends after its keyword, and on a token.
pub proof fn return_span(ts: Seq<TokenView>, pos: nat, depth: nat)
    ensures
        spans(return_at(ts, pos, depth), pos, ts.len()),
    decreases depth, 1nat, 0nat,
{
    if depth > 0 {
        expression_span(ts, pos + 1, (depth - 1) as nat);
    }
}

} // verus!
