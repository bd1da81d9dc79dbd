//! What the limit on nesting leaves as it is: whatever parses, or fails for
//! another reason than the limit, does the same under every greater limit.

use vstd::prelude::*;
use crate::ast::{operand_of, ExpressionView, Operand, StatementView};
use crate::error::{ErrorKind, ErrorView};
use crate::grammar::{
    arguments_from, atom_at, block_at, block_body, body, body_at, call_at, chain_from,
    conditional_at, expression_at, function_at, furthest, group_at, has_text, identifier_at,
    keyword_at, named_at, operation_at, operator_at, parameterized_at, parameters_from, reduced,
    return_at, signature_at, statement_at, statements_from, symbol_at, text_at, token_at,
    tokens_left,
};
use crate::token::{Category, TokenView};

verus! {

/// Whether an outcome is anything but a failure for the limit on nesting.
pub open spec fn settled<T>(outcome: Result<T, ErrorView>) -> bool {
    match outcome {
        Ok(_) => true,
        Err(error) => error.kind != ErrorKind::TooDeep,
    }
}

/// Statements that parse within a limit parse alike within the next.
pub proof fn statements_deeper(
    ts: Seq<TokenView>,
    pos: nat,
    done: Seq<StatementView>,
    depth: nat,
)
    ensures
        settled(statements_from(ts, pos, done, depth)) ==> statements_from(
            ts,
            pos,
            done,
            depth + 1,
        ) == statements_from(ts, pos, done, depth),
    decreases depth, 9nat, tokens_left(ts, pos),
{
    if pos < ts.len() {
        statement_deeper(ts, pos, depth);
        match statement_at(ts, pos, depth) {
            Ok((statement, end)) => {
                statements_deeper(ts, furthest(pos, end) + 1, done.push(statement), depth);
            },
            Err(_) => {},
        }
    }
}

/// The statements of a block that parse within a limit parse alike within
/// the next.
pub proof fn block_deeper(ts: Seq<TokenView>, pos: nat, depth: nat)
    ensures
        settled(block_body(ts, pos, depth)) ==> block_body(ts, pos, depth + 1) == block_body(
            ts,
            pos,
            depth,
        ),
    decreases depth, 0nat, 0nat,
{
    if block_at(ts, pos) && depth > 0 {
        statements_deeper(token_at(ts, pos).inner, 0, Seq::empty(), (depth - 1) as nat);
    }
}

/// A body that parses within a limit parses alike within the next.
pub proof fn body_deeper(ts: Seq<TokenView>, pos: nat, depth: nat)
    ensures
        settled(body(ts, pos, depth)) ==> body(ts, pos, depth + 1) == body(ts, pos, depth),
    decreases depth, 6nat, 0nat,
{
    if block_at(ts, pos) {
        block_deeper(ts, pos, depth);
    } else {
        expression_deeper(ts, pos, depth);
    }
}

/// A statement that parses within a limit parses alike within the next.
pub proof fn statement_deeper(ts: Seq<TokenView>, pos: nat, depth: nat)
    ensures
        settled(statement_at(ts, pos, depth)) ==> statement_at(ts, pos, depth + 1) == statement_at(
            ts,
            pos,
            depth,
        ),
    decreases depth, 8nat, 0nat,
{
    if identifier_at(ts, pos) {
        if has_text(ts, pos + 1, "="@) {
            expression_deeper(ts, pos + 2, depth);
        } else {
            expression_deeper(ts, pos, depth);
        }
    } else if keyword_at(ts, pos) {
        if has_text(ts, pos, "var"@) {
            expression_deeper(ts, pos + 3, depth);
        } else if has_text(ts, pos, "if"@) {
            conditional_deeper(ts, pos, depth);
        } else if has_text(ts, pos, "fun"@) || has_text(ts, pos, "return"@) {
            expression_deeper(ts, pos, depth);
        }
    } else {
        expression_deeper(ts, pos, depth);
    }
}

/// A conditional that parses within a limit parses alike within the next.
pub proof fn conditional_deeper(ts: Seq<TokenView>, pos: nat, depth: nat)
    ensures
        settled(conditional_at(ts, pos, depth)) ==> conditional_at(ts, pos, depth + 1)
            == conditional_at(ts, pos, depth),
    decreases depth, 7nat, 0nat,
{
    expression_deeper(ts, pos + 1, depth);
    match expression_at(ts, pos + 1, depth) {
        Ok((_, condition_end)) => {
            body_deeper(ts, condition_end + 1, depth);
            match body(ts, condition_end + 1, depth) {
                Ok((_, then_end)) => {
                    body_deeper(ts, then_end + 2, depth);
                },
                Err(_) => {},
            }
        },
        Err(_) => {},
    }
}

/// An expression that parses within a limit parses alike within the next.
pub proof fn expression_deeper(ts: Seq<TokenView>, pos: nat, depth: nat)
    ensures
        settled(expression_at(ts, pos, depth)) ==> expression_at(ts, pos, depth + 1)
            == expression_at(ts, pos, depth),
    decreases depth, 5nat, 0nat,
{
    atom_deeper(ts, pos, depth);
    match atom_at(ts, pos, depth) {
        Ok((first, end)) => {
            if operator_at(ts, end + 1) {
                operation_deeper(ts, end + 1, first, depth);
            }
        },
        Err(_) => {},
    }
}

/// A chain that parses within a limit parses alike within the next.
pub proof fn operation_deeper(ts: Seq<TokenView>, pos: nat, first: ExpressionView, depth: nat)
    ensures
        settled(operation_at(ts, pos, first, depth)) ==> operation_at(ts, pos, first, depth + 1)
            == operation_at(ts, pos, first, depth),
    decreases depth, 4nat, 0nat,
{
    match operand_of(text_at(ts, pos)) {
        Some(op) => {
            atom_deeper(ts, pos + 1, depth);
            match atom_at(ts, pos + 1, depth) {
                Ok((second, end)) => {
                    chain_deeper(ts, furthest(pos + 1, end), seq![first, second], seq![op], depth);
                },
                Err(_) => {},
            }
        },
        None => {},
    }
}

/// The rest of a chain that parses within a limit parses alike within the
/// next.
pub proof fn chain_deeper(
    ts: Seq<TokenView>,
    end: nat,
    items: Seq<ExpressionView>,
    ops: Seq<(Operand, u8)>,
    depth: nat,
)
    ensures
        settled(chain_from(ts, end, items, ops, depth)) ==> chain_from(
            ts,
            end,
            items,
            ops,
            depth + 1,
        ) == chain_from(ts, end, items, ops, depth),
    decreases depth, 3nat, tokens_left(ts, end),
{
    if operator_at(ts, end + 1) {
        match operand_of(text_at(ts, end + 1)) {
            Some(op) => {
                atom_deeper(ts, end + 2, depth);
                match atom_at(ts, end + 2, depth) {
                    Ok((next, next_end)) => {
                        if op.1 > ops.last().1 {
                            chain_deeper(
                                ts,
                                furthest(end + 2, next_end),
                                reduced(items, ops.last().0).push(next),
                                ops.drop_last().push(op),
                                depth,
                            );
                        } else {
                            chain_deeper(
                                ts,
                                furthest(end + 2, next_end),
                                items.push(next),
                                ops.push(op),
                                depth,
                            );
                        }
                    },
                    Err(_) => {},
                }
            },
            None => {},
        }
    }
}

/// An atom that parses within a limit parses alike within the next.
pub proof fn atom_deeper(ts: Seq<TokenView>, pos: nat, depth: nat)
    ensures
        settled(atom_at(ts, pos, depth)) ==> atom_at(ts, pos, depth + 1) == atom_at(
            ts,
            pos,
            depth,
        ),
    decreases depth, 2nat, 0nat,
{
    if pos < ts.len() {
        let text = token_at(ts, pos).text;
        match token_at(ts, pos).category {
            Category::Identifier => {
                named_deeper(ts, pos, depth);
            },
            Category::Symbol => {
                if text == "("@ {
                    group_deeper(ts, pos, depth);
                }
            },
            Category::Keyword => {
                if text == "fun"@ {
                    function_deeper(ts, pos, depth);
                } else if text == "return"@ {
                    return_deeper(ts, pos, depth);
                }
            },
            _ => {},
        }
    }
}

/// What an identifier stands for within a limit, it stands for within the
/// next.
pub proof fn named_deeper(ts: Seq<TokenView>, pos: nat, depth: nat)
    ensures
        settled(named_at(ts, pos, depth)) ==> named_at(ts, pos, depth + 1) == named_at(
            ts,
            pos,
            depth,
        ),
    decreases depth, 1nat, 0nat,
{
    if symbol_at(ts, pos + 1) && has_text(ts, pos + 1, "("@) {
        call_deeper(ts, pos + 1, ExpressionView::Identifier(token_at(ts, pos).text), depth);
    }
}

/// A call that parses within a limit parses alike within the next.
pub proof fn call_deeper(ts: Seq<TokenView>, pos: nat, callee: ExpressionView, depth: nat)
    ensures
        settled(call_at(ts, pos, callee, depth)) ==> call_at(ts, pos, callee, depth + 1)
            == call_at(ts, pos, callee, depth),
    decreases depth, 0nat, 0nat,
{
    if depth > 0 {
        arguments_deeper(ts, pos + 1, seq![callee], (depth - 1) as nat);
    }
}

/// The rest of a call that parses within a limit parses alike within the
/// next.
pub proof fn arguments_deeper(
    ts: Seq<TokenView>,
    pos: nat,
    items: Seq<ExpressionView>,
    depth: nat,
)
    ensures
        settled(arguments_from(ts, pos, items, depth)) ==> arguments_from(
            ts,
            pos,
            items,
            depth + 1,
        ) == arguments_from(ts, pos, items, depth),
    decreases depth, 6nat, tokens_left(ts, pos),
{
    if pos < ts.len() && !has_text(ts, pos, ")"@) {
        expression_deeper(ts, pos, depth);
        match expression_at(ts, pos, depth) {
            Ok((argument, end)) => {
                let next = furthest(pos, end) + 1;
                arguments_deeper(
                    ts,
                    if has_text(ts, next, ","@) {
                        next + 1
                    } else {
                        next
                    },
                    items.push(argument),
                    depth,
                );
            },
            Err(_) => {},
        }
    }
}

/// A parenthesized expression that parses within a limit parses alike within
/// the next.
pub proof fn group_deeper(ts: Seq<TokenView>, pos: nat, depth: nat)
    ensures
        settled(group_at(ts, pos, depth)) ==> group_at(ts, pos, depth + 1) == group_at(
            ts,
            pos,
            depth,
        ),
    decreases depth, 1nat, 0nat,
{
    if depth > 0 {
        expression_deeper(ts, pos + 1, (depth - 1) as nat);
        match expression_at(ts, pos + 1, (depth - 1) as nat) {
            Ok((inner, end)) => {
                if has_text(ts, end + 2, "("@) {
                    call_deeper(ts, end + 2, inner, depth);
                }
            },
            Err(_) => {},
        }
    }
}

/// A function literal that parses within a limit parses alike within the
/// next.
pub proof fn function_deeper(ts: Seq<TokenView>, pos: nat, depth: nat)
    ensures
        settled(function_at(ts, pos, depth)) ==> function_at(ts, pos, depth + 1) == function_at(
            ts,
            pos,
            depth,
        ),
    decreases depth, 1nat, 0nat,
{
    if depth > 0 {
        if identifier_at(ts, pos + 1) {
            signature_deeper(ts, pos + 2, Some(token_at(ts, pos + 1).text), (depth - 1) as nat);
        } else {
            signature_deeper(ts, pos + 1, None, (depth - 1) as nat);
        }
    }
}

/// The rest of a function literal that parses within a limit parses alike
/// within the next.
pub proof fn signature_deeper(ts: Seq<TokenView>, pos: nat, name: Option<Seq<char>>, depth: nat)
    ensures
        settled(signature_at(ts, pos, name, depth)) ==> signature_at(ts, pos, name, depth + 1)
            == signature_at(ts, pos, name, depth),
    decreases depth, 8nat, 0nat,
{
    if pos < ts.len() {
        if symbol_at(ts, pos) {
            if has_text(ts, pos, "("@) {
                parameterized_deeper(ts, pos, name, depth);
            }
        } else {
            body_deeper(ts, pos, depth);
        }
    }
}

/// A function literal with a parameter list that parses within a limit
/// parses alike within the next.
pub proof fn parameterized_deeper(
    ts: Seq<TokenView>,
    pos: nat,
    name: Option<Seq<char>>,
    depth: nat,
)
    ensures
        settled(parameterized_at(ts, pos, name, depth)) ==> parameterized_at(
            ts,
            pos,
            name,
            depth + 1,
        ) == parameterized_at(ts, pos, name, depth),
    decreases depth, 7nat, 0nat,
{
    let close = parameters_from(ts, pos + 1, Seq::empty()).1;
    if body_at(ts, close + 1) {
        body_deeper(ts, close + 1, depth);
    }
}

/// A return that parses within a limit parses alike within the next.
pub proof fn return_deeper(ts: Seq<TokenView>, pos: nat, depth: nat)
    ensures
        settled(return_at(ts, pos, depth)) ==> return_at(ts, pos, depth + 1) == return_at(
            ts,
            pos,
            depth,
        ),
    decreases depth, 1nat, 0nat,
{
    if depth > 0 {
        expression_deeper(ts, pos + 1, (depth - 1) as nat);
    }
}

/// Whatever parses from `pos` within the limit `depth`, or fails there for
/// another reason than the limit, does the same within every limit from
/// `depth` on.
pub proof fn limit_leaves_outcome(
    ts: Seq<TokenView>,
    pos: nat,
    done: Seq<StatementView>,
    depth: nat,
    greater: nat,
)
    requires
        depth <= greater,
        settled(statements_from(ts, pos, done, depth)),
    ensures
        statements_from(ts, pos, done, greater) == statements_from(ts, pos, done, depth),
    decreases greater - depth,
{
    if depth < greater {
        statements_deeper(ts, pos, done, depth);
        limit_leaves_outcome(ts, pos, done, depth + 1, greater);
    }
}

} // verus!
