//! What holds of the grammar for every token sequence.

use vstd::prelude::*;
use crate::ast::{operand_of, ExpressionView, Operand, Statement, StatementView};
use crate::error::{ErrorKind, ErrorView, ParseError};
use crate::grammar::{
    arguments_from, atom_at, bare, block_at, body, call_at, chain_from, conditional_at,
    expression_at,
    failure, group_at, has_text, identifier_at, keyword_at, missing, named_at, nested,
    operation_at, operator_at, reduced, statement_at, statements_from, symbol_at, text_at,
    token_at,
};
use crate::parser::{outcome_view, ParserView};
use crate::spans::{atom_span, expression_span, statement_span};
use crate::token::TokenView;

verus! {

/// The operator table: what each operator's text stands for and how tightly
/// it binds, and that an opening parenthesis spells no operator.
pub proof fn operator_table()
    ensures
        operand_of("*"@) == Some((Operand::Mul, 1u8)),
        operand_of("/"@) == Some((Operand::Div, 1u8)),
        operand_of("+"@) == Some((Operand::Plus, 2u8)),
        operand_of("-"@) == Some((Operand::Minus, 2u8)),
        operand_of("=="@) == Some((Operand::Equals, 3u8)),
        operand_of("!="@) == Some((Operand::NEquals, 3u8)),
        operand_of("<"@) == Some((Operand::Lt, 4u8)),
        operand_of(">"@) == Some((Operand::Gt, 4u8)),
        operand_of("<="@) == Some((Operand::LtEquals, 4u8)),
        operand_of(">="@) == Some((Operand::GtEquals, 4u8)),
        operand_of("("@) is None,
{
    reveal_strlit("*");
    reveal_strlit("/");
    reveal_strlit("+");
    reveal_strlit("-");
    reveal_strlit("==");
    reveal_strlit("!=");
    reveal_strlit("<");
    reveal_strlit(">");
    reveal_strlit("<=");
    reveal_strlit(">=");
    reveal_strlit("(");
    assert("*"@[0] == '*');
    assert("/"@[0] == '/');
    assert("+"@[0] == '+');
    assert("-"@[0] == '-');
    assert("=="@[0] == '=');
    assert("!="@[0] == '!');
    assert("<"@[0] == '<');
    assert(">"@[0] == '>');
    assert("<="@[0] == '<');
    assert(">="@[0] == '>');
    assert("("@[0] == '(');
    assert("<"@.len() == 1 && "<="@.len() == 2);
    assert(">"@.len() == 1 && ">="@.len() == 2);
}

/// `a op b`, with no operator after `b`, is the operation of `a` and `b`, in
/// that order.
pub proof fn single_operation(
    ts: Seq<TokenView>,
    pos: nat,
    depth: nat,
    a: ExpressionView,
    op: (Operand, u8),
    b: ExpressionView,
    b_end: nat,
)
    requires
        operand_of(text_at(ts, pos)) == Some(op),
        atom_at(ts, pos + 1, depth) == Ok::<(ExpressionView, nat), ErrorView>((b, b_end)),
        !operator_at(ts, b_end + 1),
    ensures
        operation_at(ts, pos, a, depth) == Ok::<(ExpressionView, nat), ErrorView>(
            (ExpressionView::Operation(Box::new(a), op.0, Box::new(b)), b_end),
        ),
{
    atom_span(ts, pos + 1, depth);
    let items = seq![a, b];
    let ops = seq![op];
    assert(nested(items.skip(1), ops.skip(1)) == b);
    assert(nested(items, ops) == ExpressionView::Operation(Box::new(a), op.0, Box::new(b)));
    assert(operation_at(ts, pos, a, depth) == chain_from(ts, b_end, items, ops, depth));
}

/// With `a` read and the first operator of `a op1 b op2 c` at `pos`, where
/// `op1` binds strictly tighter than `op2`: `a op1 b` is the left operand of
/// `op2`, and the chain ends where `c` ends.
pub proof fn operation_tighter_first(
    ts: Seq<TokenView>,
    pos: nat,
    depth: nat,
    a: ExpressionView,
    op1: (Operand, u8),
    b: ExpressionView,
    b_end: nat,
    op2: (Operand, u8),
    c: ExpressionView,
    c_end: nat,
)
    requires
        operand_of(text_at(ts, pos)) == Some(op1),
        atom_at(ts, pos + 1, depth) == Ok::<(ExpressionView, nat), ErrorView>((b, b_end)),
        operator_at(ts, b_end + 1),
        operand_of(text_at(ts, b_end + 1)) == Some(op2),
        atom_at(ts, b_end + 2, depth) == Ok::<(ExpressionView, nat), ErrorView>((c, c_end)),
        !operator_at(ts, c_end + 1),
        op1.1 < op2.1,
    ensures
        operation_at(ts, pos, a, depth) == Ok::<(ExpressionView, nat), ErrorView>(
            (
                ExpressionView::Operation(
                    Box::new(ExpressionView::Operation(Box::new(a), op1.0, Box::new(b))),
                    op2.0,
                    Box::new(c),
                ),
                c_end,
            ),
        ),
{
    atom_span(ts, pos + 1, depth);
    atom_span(ts, b_end + 2, depth);
    let joined = ExpressionView::Operation(Box::new(a), op1.0, Box::new(b));
    let first = seq![a, b];
    let second = reduced(first, op1.0).push(c);
    assert(second =~= seq![joined, c]);
    assert(seq![op1].drop_last().push(op2) =~= seq![op2]);
    assert(chain_from(ts, b_end, first, seq![op1], depth) == chain_from(
        ts,
        c_end,
        second,
        seq![op2],
        depth,
    ));
    assert(nested(second.skip(1), seq![op2].skip(1)) == c);
    assert(nested(second, seq![op2]) == ExpressionView::Operation(
        Box::new(joined),
        op2.0,
        Box::new(c),
    ));
    assert(operation_at(ts, pos, a, depth) == chain_from(ts, b_end, first, seq![op1], depth));
}

/// With `a` read and the first operator of `a op1 b op2 c` at `pos`, where
/// `op2` binds strictly tighter than `op1`: `b op2 c` is the right operand
/// of `op1`, and the chain ends where `c` ends.
pub proof fn operation_tighter_second(
    ts: Seq<TokenView>,
    pos: nat,
    depth: nat,
    a: ExpressionView,
    op1: (Operand, u8),
    b: ExpressionView,
    b_end: nat,
    op2: (Operand, u8),
    c: ExpressionView,
    c_end: nat,
)
    requires
        operand_of(text_at(ts, pos)) == Some(op1),
        atom_at(ts, pos + 1, depth) == Ok::<(ExpressionView, nat), ErrorView>((b, b_end)),
        operator_at(ts, b_end + 1),
        operand_of(text_at(ts, b_end + 1)) == Some(op2),
        atom_at(ts, b_end + 2, depth) == Ok::<(ExpressionView, nat), ErrorView>((c, c_end)),
        !operator_at(ts, c_end + 1),
        op2.1 < op1.1,
    ensures
        operation_at(ts, pos, a, depth) == Ok::<(ExpressionView, nat), ErrorView>(
            (
                ExpressionView::Operation(
                    Box::new(a),
                    op1.0,
                    Box::new(ExpressionView::Operation(Box::new(b), op2.0, Box::new(c))),
                ),
                c_end,
            ),
        ),
{
    operation_not_weaker_second(ts, pos, depth, a, op1, b, b_end, op2, c, c_end);
}

/// The same where `op2` binds at least as tightly as `op1`.
pub proof fn operation_not_weaker_second(
    ts: Seq<TokenView>,
    pos: nat,
    depth: nat,
    a: ExpressionView,
    op1: (Operand, u8),
    b: ExpressionView,
    b_end: nat,
    op2: (Operand, u8),
    c: ExpressionView,
    c_end: nat,
)
    requires
        operand_of(text_at(ts, pos)) == Some(op1),
        atom_at(ts, pos + 1, depth) == Ok::<(ExpressionView, nat), ErrorView>((b, b_end)),
        operator_at(ts, b_end + 1),
        operand_of(text_at(ts, b_end + 1)) == Some(op2),
        atom_at(ts, b_end + 2, depth) == Ok::<(ExpressionView, nat), ErrorView>((c, c_end)),
        !operator_at(ts, c_end + 1),
        op2.1 <= op1.1,
    ensures
        operation_at(ts, pos, a, depth) == Ok::<(ExpressionView, nat), ErrorView>(
            (
                ExpressionView::Operation(
                    Box::new(a),
                    op1.0,
                    Box::new(ExpressionView::Operation(Box::new(b), op2.0, Box::new(c))),
                ),
                c_end,
            ),
        ),
{
    atom_span(ts, pos + 1, depth);
    atom_span(ts, b_end + 2, depth);
    let first = seq![a, b];
    let items = first.push(c);
    let ops = seq![op1].push(op2);
    assert(chain_from(ts, b_end, first, seq![op1], depth) == chain_from(
        ts,
        c_end,
        items,
        ops,
        depth,
    ));
    assert(items.skip(1).skip(1) =~= seq![c]);
    assert(ops.skip(1).skip(1) =~= Seq::<(Operand, u8)>::empty());
    assert(nested(items.skip(1).skip(1), ops.skip(1).skip(1)) == c);
    assert(nested(items.skip(1), ops.skip(1)) == ExpressionView::Operation(
        Box::new(b),
        op2.0,
        Box::new(c),
    ));
    assert(nested(items, ops) == ExpressionView::Operation(
        Box::new(a),
        op1.0,
        Box::new(nested(items.skip(1), ops.skip(1))),
    ));
    assert(operation_at(ts, pos, a, depth) == chain_from(ts, b_end, first, seq![op1], depth));
}

/// In `a op1 b op2 c` where `op1` binds strictly tighter than `op2`, `a op1 b`
/// is the left operand of `op2`.
pub proof fn tighter_first_groups_left(
    ts: Seq<TokenView>,
    pos: nat,
    depth: nat,
    a: ExpressionView,
    a_end: nat,
    op1: (Operand, u8),
    b: ExpressionView,
    b_end: nat,
    op2: (Operand, u8),
    c: ExpressionView,
    c_end: nat,
)
    requires
        atom_at(ts, pos, depth) == Ok::<(ExpressionView, nat), ErrorView>((a, a_end)),
        operator_at(ts, a_end + 1),
        operand_of(text_at(ts, a_end + 1)) == Some(op1),
        atom_at(ts, a_end + 2, depth) == Ok::<(ExpressionView, nat), ErrorView>((b, b_end)),
        operator_at(ts, b_end + 1),
        operand_of(text_at(ts, b_end + 1)) == Some(op2),
        atom_at(ts, b_end + 2, depth) == Ok::<(ExpressionView, nat), ErrorView>((c, c_end)),
        !operator_at(ts, c_end + 1),
        op1.1 < op2.1,
    ensures
        expression_at(ts, pos, depth) == Ok::<(ExpressionView, nat), ErrorView>(
            (
                ExpressionView::Operation(
                    Box::new(ExpressionView::Operation(Box::new(a), op1.0, Box::new(b))),
                    op2.0,
                    Box::new(c),
                ),
                c_end,
            ),
        ),
{
    operation_tighter_first(ts, a_end + 1, depth, a, op1, b, b_end, op2, c, c_end);
}

/// In `a op1 b op2 c` where `op2` binds strictly tighter than `op1`, `b op2 c`
/// is the right operand of `op1`.
pub proof fn tighter_second_groups_right(
    ts: Seq<TokenView>,
    pos: nat,
    depth: nat,
    a: ExpressionView,
    a_end: nat,
    op1: (Operand, u8),
    b: ExpressionView,
    b_end: nat,
    op2: (Operand, u8),
    c: ExpressionView,
    c_end: nat,
)
    requires
        atom_at(ts, pos, depth) == Ok::<(ExpressionView, nat), ErrorView>((a, a_end)),
        operator_at(ts, a_end + 1),
        operand_of(text_at(ts, a_end + 1)) == Some(op1),
        atom_at(ts, a_end + 2, depth) == Ok::<(ExpressionView, nat), ErrorView>((b, b_end)),
        operator_at(ts, b_end + 1),
        operand_of(text_at(ts, b_end + 1)) == Some(op2),
        atom_at(ts, b_end + 2, depth) == Ok::<(ExpressionView, nat), ErrorView>((c, c_end)),
        !operator_at(ts, c_end + 1),
        op2.1 < op1.1,
    ensures
        expression_at(ts, pos, depth) == Ok::<(ExpressionView, nat), ErrorView>(
            (
                ExpressionView::Operation(
                    Box::new(a),
                    op1.0,
                    Box::new(ExpressionView::Operation(Box::new(b), op2.0, Box::new(c))),
                ),
                c_end,
            ),
        ),
{
    operation_not_weaker_second(ts, a_end + 1, depth, a, op1, b, b_end, op2, c, c_end);
}

/// In `a op1 b op2 c` where `op2` binds as tightly as `op1`, `b op2 c` is the
/// right operand of `op1` as well: operators of one strength group to the
/// right.
pub proof fn equal_strength_groups_right(
    ts: Seq<TokenView>,
    pos: nat,
    depth: nat,
    a: ExpressionView,
    a_end: nat,
    op1: (Operand, u8),
    b: ExpressionView,
    b_end: nat,
    op2: (Operand, u8),
    c: ExpressionView,
    c_end: nat,
)
    requires
        atom_at(ts, pos, depth) == Ok::<(ExpressionView, nat), ErrorView>((a, a_end)),
        operator_at(ts, a_end + 1),
        operand_of(text_at(ts, a_end + 1)) == Some(op1),
        atom_at(ts, a_end + 2, depth) == Ok::<(ExpressionView, nat), ErrorView>((b, b_end)),
        operator_at(ts, b_end + 1),
        operand_of(text_at(ts, b_end + 1)) == Some(op2),
        atom_at(ts, b_end + 2, depth) == Ok::<(ExpressionView, nat), ErrorView>((c, c_end)),
        !operator_at(ts, c_end + 1),
        op2.1 == op1.1,
    ensures
        expression_at(ts, pos, depth) == Ok::<(ExpressionView, nat), ErrorView>(
            (
                ExpressionView::Operation(
                    Box::new(a),
                    op1.0,
                    Box::new(ExpressionView::Operation(Box::new(b), op2.0, Box::new(c))),
                ),
                c_end,
            ),
        ),
{
    operation_not_weaker_second(ts, a_end + 1, depth, a, op1, b, b_end, op2, c, c_end);
}

/// The operands `items` joined by the operators `ops`, each operator taking
/// all that precedes it as its left side: `a o b p c` is `(a o b) p c`.
pub open spec fn nested_left(items: Seq<ExpressionView>, ops: Seq<(Operand, u8)>) -> ExpressionView
    decreases ops.len(),
{
    if ops.len() == 0 {
        items[0]
    } else {
        ExpressionView::Operation(
            Box::new(nested_left(items.drop_last(), ops.drop_last())),
            ops.last().0,
            Box::new(items.last()),
        )
    }
}

/// Where the operand of index `i` begins in a chain that begins at `pos` and
/// whose operands end at `ends`: two tokens after the operand before it.
pub open spec fn operand_start(pos: nat, ends: Seq<nat>, i: int) -> nat {
    if i <= 0 {
        pos
    } else {
        ends[i - 1] + 2
    }
}

/// Whether `ts` spells, from `pos` on, a chain of the operands `items` with
/// the operators `ops` between them and no operator after the last operand,
/// the operand of index `i` ending at `ends[i]`.
pub open spec fn spells_chain(
    ts: Seq<TokenView>,
    pos: nat,
    depth: nat,
    items: Seq<ExpressionView>,
    ends: Seq<nat>,
    ops: Seq<(Operand, u8)>,
) -> bool {
    &&& items.len() == ops.len() + 1
    &&& ends.len() == items.len()
    &&& forall|i: int|
        0 <= i < items.len() ==> atom_at(ts, operand_start(pos, ends, i), depth) == Ok::<
            (ExpressionView, nat),
            ErrorView,
        >((#[trigger] items[i], ends[i]))
    &&& forall|i: int|
        0 <= i < ops.len() ==> operator_at(ts, ends[i] + 1) && operand_of(
            text_at(ts, ends[i] + 1),
        ) == Some(#[trigger] ops[i])
    &&& !operator_at(ts, ends.last() + 1)
}

/// A chain in which every operator binds strictly less tightly than the one
/// before it groups to the left, as the usual precedence rules have it.
pub proof fn falling_strength_groups_left(
    ts: Seq<TokenView>,
    pos: nat,
    depth: nat,
    items: Seq<ExpressionView>,
    ends: Seq<nat>,
    ops: Seq<(Operand, u8)>,
)
    requires
        spells_chain(ts, pos, depth, items, ends, ops),
        forall|i: int| 0 <= i < ops.len() - 1 ==> (#[trigger] ops[i]).1 < ops[i + 1].1,
    ensures
        expression_at(ts, pos, depth) == Ok::<(ExpressionView, nat), ErrorView>(
            (nested_left(items, ops), ends.last()),
        ),
{
    assert(atom_at(ts, operand_start(pos, ends, 0), depth) == Ok::<
        (ExpressionView, nat),
        ErrorView,
    >((items[0], ends[0])));
    if ops.len() > 0 {
        assert(operand_of(text_at(ts, ends[0] + 1)) == Some(ops[0]));
        assert(atom_at(ts, operand_start(pos, ends, 1), depth) == Ok::<
            (ExpressionView, nat),
            ErrorView,
        >((items[1], ends[1])));
        atom_span(ts, ends[0] + 2, depth);
        assert(items.take(1) =~= seq![items[0]]);
        assert(nested_left(items.take(1), ops.take(0)) == items[0]);
        left_grouping_from(ts, pos, depth, items, ends, ops, 1);
        assert(operation_at(ts, ends[0] + 1, items[0], depth) == chain_from(
            ts,
            ends[1],
            seq![items[0], items[1]],
            seq![ops[0]],
            depth,
        ));
    }
}

/// The step of `falling_strength_groups_left`: once the operands up to index
/// `k` are read, all before the last of them are joined to the left.
proof fn left_grouping_from(
    ts: Seq<TokenView>,
    pos: nat,
    depth: nat,
    items: Seq<ExpressionView>,
    ends: Seq<nat>,
    ops: Seq<(Operand, u8)>,
    k: int,
)
    requires
        spells_chain(ts, pos, depth, items, ends, ops),
        forall|i: int| 0 <= i < ops.len() - 1 ==> (#[trigger] ops[i]).1 < ops[i + 1].1,
        1 <= k < items.len(),
    ensures
        chain_from(
            ts,
            ends[k],
            seq![nested_left(items.take(k), ops.take(k - 1)), items[k]],
            seq![ops[k - 1]],
            depth,
        ) == Ok::<(ExpressionView, nat), ErrorView>((nested_left(items, ops), ends.last())),
    decreases items.len() - k,
{
    let joined = nested_left(items.take(k), ops.take(k - 1));
    let pending = seq![joined, items[k]];
    let next = ExpressionView::Operation(Box::new(joined), ops[k - 1].0, Box::new(items[k]));
    assert(items.take(k + 1).drop_last() =~= items.take(k));
    assert(ops.take(k).drop_last() =~= ops.take(k - 1));
    assert(nested_left(items.take(k + 1), ops.take(k)) == next);
    if k == items.len() - 1 {
        assert(items.take(k + 1) =~= items);
        assert(ops.take(k) =~= ops);
        assert(nested(pending.skip(1), seq![ops[k - 1]].skip(1)) == items[k]);
        assert(nested(pending, seq![ops[k - 1]]) == next);
    } else {
        assert(operand_of(text_at(ts, ends[k] + 1)) == Some(ops[k]));
        assert(ops[k - 1].1 < ops[k].1);
        assert(atom_at(ts, operand_start(pos, ends, k + 1), depth) == Ok::<
            (ExpressionView, nat),
            ErrorView,
        >((items[k + 1], ends[k + 1])));
        atom_span(ts, ends[k] + 2, depth);
        assert(reduced(pending, ops[k - 1].0).push(items[k + 1]) =~= seq![next, items[k + 1]]);
        assert(seq![ops[k - 1]].drop_last().push(ops[k]) =~= seq![ops[k]]);
        left_grouping_from(ts, pos, depth, items, ends, ops, k + 1);
    }
}

/// A chain in which every operator binds at least as tightly as the one
/// before it groups to the right.
pub proof fn rising_strength_groups_right(
    ts: Seq<TokenView>,
    pos: nat,
    depth: nat,
    items: Seq<ExpressionView>,
    ends: Seq<nat>,
    ops: Seq<(Operand, u8)>,
)
    requires
        spells_chain(ts, pos, depth, items, ends, ops),
        forall|i: int| 0 <= i < ops.len() - 1 ==> (#[trigger] ops[i]).1 >= ops[i + 1].1,
    ensures
        expression_at(ts, pos, depth) == Ok::<(ExpressionView, nat), ErrorView>(
            (nested(items, ops), ends.last()),
        ),
{
    assert(atom_at(ts, operand_start(pos, ends, 0), depth) == Ok::<
        (ExpressionView, nat),
        ErrorView,
    >((items[0], ends[0])));
    if ops.len() > 0 {
        assert(operand_of(text_at(ts, ends[0] + 1)) == Some(ops[0]));
        assert(atom_at(ts, operand_start(pos, ends, 1), depth) == Ok::<
            (ExpressionView, nat),
            ErrorView,
        >((items[1], ends[1])));
        atom_span(ts, ends[0] + 2, depth);
        assert(items.take(2) =~= seq![items[0], items[1]]);
        assert(ops.take(1) =~= seq![ops[0]]);
        right_grouping_from(ts, pos, depth, items, ends, ops, 1);
        assert(operation_at(ts, ends[0] + 1, items[0], depth) == chain_from(
            ts,
            ends[1],
            seq![items[0], items[1]],
            seq![ops[0]],
            depth,
        ));
    }
}

/// The step of `rising_strength_groups_right`: once the operands up to index
/// `k` are read, all of them are pending.
proof fn right_grouping_from(
    ts: Seq<TokenView>,
    pos: nat,
    depth: nat,
    items: Seq<ExpressionView>,
    ends: Seq<nat>,
    ops: Seq<(Operand, u8)>,
    k: int,
)
    requires
        spells_chain(ts, pos, depth, items, ends, ops),
        forall|i: int| 0 <= i < ops.len() - 1 ==> (#[trigger] ops[i]).1 >= ops[i + 1].1,
        1 <= k < items.len(),
    ensures
        chain_from(ts, ends[k], items.take(k + 1), ops.take(k), depth) == Ok::<
            (ExpressionView, nat),
            ErrorView,
        >((nested(items, ops), ends.last())),
    decreases items.len() - k,
{
    if k == items.len() - 1 {
        assert(items.take(k + 1) =~= items);
        assert(ops.take(k) =~= ops);
    } else {
        assert(operand_of(text_at(ts, ends[k] + 1)) == Some(ops[k]));
        assert(ops[k - 1].1 >= ops[k].1);
        assert(ops.take(k).last() == ops[k - 1]);
        assert(atom_at(ts, operand_start(pos, ends, k + 1), depth) == Ok::<
            (ExpressionView, nat),
            ErrorView,
        >((items[k + 1], ends[k + 1])));
        atom_span(ts, ends[k] + 2, depth);
        assert(items.take(k + 1).push(items[k + 1]) =~= items.take(k + 2));
        assert(ops.take(k).push(ops[k]) =~= ops.take(k + 1));
        right_grouping_from(ts, pos, depth, items, ends, ops, k + 1);
    }
}

/// Parentheses override binding strength: in `( x ) op c`, the expression in
/// the parentheses is the left operand of `op`, whatever operators it holds.
pub proof fn group_is_one_operand(
    ts: Seq<TokenView>,
    pos: nat,
    depth: nat,
    inner: ExpressionView,
    inner_end: nat,
    op: (Operand, u8),
    c: ExpressionView,
    c_end: nat,
)
    requires
        depth > 0,
        symbol_at(ts, pos),
        has_text(ts, pos, "("@),
        expression_at(ts, pos + 1, (depth - 1) as nat) == Ok::<(ExpressionView, nat), ErrorView>(
            (inner, inner_end),
        ),
        has_text(ts, inner_end + 1, ")"@),
        operator_at(ts, inner_end + 2),
        operand_of(text_at(ts, inner_end + 2)) == Some(op),
        atom_at(ts, inner_end + 3, depth) == Ok::<(ExpressionView, nat), ErrorView>((c, c_end)),
        !operator_at(ts, c_end + 1),
    ensures
        expression_at(ts, pos, depth) == Ok::<(ExpressionView, nat), ErrorView>(
            (ExpressionView::Operation(Box::new(inner), op.0, Box::new(c)), c_end),
        ),
{
    operator_table();
    atom_span(ts, inner_end + 3, depth);
    assert(!has_text(ts, inner_end + 2, "("@));
    assert(group_at(ts, pos, depth) == Ok::<(ExpressionView, nat), ErrorView>(
        (inner, inner_end + 1),
    ));
    assert(atom_at(ts, pos, depth) == group_at(ts, pos, depth));
    let items = seq![inner, c];
    let ops = seq![op];
    assert(chain_from(ts, c_end, items, ops, depth) == Ok::<(ExpressionView, nat), ErrorView>(
        (nested(items, ops), c_end),
    ));
    assert(nested(items.skip(1), ops.skip(1)) == c);
    assert(nested(items, ops) == ExpressionView::Operation(
        Box::new(inner),
        op.0,
        Box::new(c),
    ));
    assert(operation_at(ts, inner_end + 2, inner, depth) == chain_from(
        ts,
        c_end,
        items,
        ops,
        depth,
    ));
}

/// `( a op1 b ) op2 c` is the operation by `op2` of `a op1 b` and `c`,
/// whatever the strengths of the two operators.
pub proof fn parenthesized_operation_is_one_operand(
    ts: Seq<TokenView>,
    pos: nat,
    depth: nat,
    a: ExpressionView,
    a_end: nat,
    op1: (Operand, u8),
    b: ExpressionView,
    b_end: nat,
    op2: (Operand, u8),
    c: ExpressionView,
    c_end: nat,
)
    requires
        depth > 0,
        symbol_at(ts, pos),
        has_text(ts, pos, "("@),
        atom_at(ts, pos + 1, (depth - 1) as nat) == Ok::<(ExpressionView, nat), ErrorView>(
            (a, a_end),
        ),
        operator_at(ts, a_end + 1),
        operand_of(text_at(ts, a_end + 1)) == Some(op1),
        atom_at(ts, a_end + 2, (depth - 1) as nat) == Ok::<(ExpressionView, nat), ErrorView>(
            (b, b_end),
        ),
        symbol_at(ts, b_end + 1),
        has_text(ts, b_end + 1, ")"@),
        operator_at(ts, b_end + 2),
        operand_of(text_at(ts, b_end + 2)) == Some(op2),
        atom_at(ts, b_end + 3, depth) == Ok::<(ExpressionView, nat), ErrorView>((c, c_end)),
        !operator_at(ts, c_end + 1),
    ensures
        expression_at(ts, pos, depth) == Ok::<(ExpressionView, nat), ErrorView>(
            (
                ExpressionView::Operation(
                    Box::new(ExpressionView::Operation(Box::new(a), op1.0, Box::new(b))),
                    op2.0,
                    Box::new(c),
                ),
                c_end,
            ),
        ),
{
    let inner = ExpressionView::Operation(Box::new(a), op1.0, Box::new(b));
    single_operation(ts, a_end + 1, (depth - 1) as nat, a, op1, b, b_end);
    assert(expression_at(ts, pos + 1, (depth - 1) as nat) == Ok::<
        (ExpressionView, nat),
        ErrorView,
    >((inner, b_end)));
    group_is_one_operand(ts, pos, depth, inner, b_end, op2, c, c_end);
}

/// Two parsers over the same tokens, at the same position and with the same
/// depth to descend, hand out the same tree or the same failure: nothing else
/// has a part in what is parsed.
pub proof fn same_tokens_same_outcome(
    first: ParserView,
    second: ParserView,
    from_first: Result<Vec<Statement>, ParseError>,
    from_second: Result<Vec<Statement>, ParseError>,
)
    requires
        first.tokens == second.tokens,
        first.position == second.position,
        first.depth == second.depth,
        outcome_view(from_first) == first.outcome(),
        outcome_view(from_second) == second.outcome(),
    ensures
        outcome_view(from_first) == outcome_view(from_second),
{
}

/// An expression is a statement of its own wherever it stands in the place
/// of one, unless it is a name that the assignment sign follows.
pub proof fn expression_is_a_statement(ts: Seq<TokenView>, pos: nat, depth: nat)
    requires
        atom_at(ts, pos, depth) is Ok,
        !(identifier_at(ts, pos) && has_text(ts, pos + 1, "="@)),
    ensures
        statement_at(ts, pos, depth) == bare(expression_at(ts, pos, depth)),
{
    reveal_strlit("var");
    reveal_strlit("if");
    reveal_strlit("fun");
    reveal_strlit("return");
    assert("var"@[0] != "fun"@[0] && "var"@[0] != "return"@[0]);
    assert("if"@[0] != "fun"@[0] && "if"@[0] != "return"@[0]);
}

/// Statements follow one another: after a statement, the reading goes on
/// from the token after its last.
pub proof fn statements_follow(
    ts: Seq<TokenView>,
    pos: nat,
    done: Seq<StatementView>,
    depth: nat,
    statement: StatementView,
    end: nat,
)
    requires
        statement_at(ts, pos, depth) == Ok::<(StatementView, nat), ErrorView>((statement, end)),
    ensures
        pos <= end < ts.len(),
        statements_from(ts, pos, done, depth) == statements_from(
            ts,
            end + 1,
            done.push(statement),
            depth,
        ),
        end + 1 == ts.len() ==> statements_from(ts, pos, done, depth) == Ok::<
            Seq<StatementView>,
            ErrorView,
        >(done.push(statement)),
{
    statement_span(ts, pos, depth);
}

/// A block is one token of the sequence that holds it: its statements are
/// read from the tokens it carries, from their first on, and where the
/// reading of the holding sequence stands is left as it was.
pub proof fn block_is_one_token(
    ts: Seq<TokenView>,
    pos: nat,
    depth: nat,
    statements: Seq<StatementView>,
    end: nat,
)
    requires
        block_at(ts, pos),
        body(ts, pos, depth) == Ok::<(Seq<StatementView>, nat), ErrorView>((statements, end)),
    ensures
        end == pos,
        depth > 0,
        statements_from(token_at(ts, pos).inner, 0, Seq::empty(), (depth - 1) as nat) == Ok::<
            Seq<StatementView>,
            ErrorView,
        >(statements),
{
}

/// A statement that fails makes the whole reading fail, with that failure:
/// nothing that was read before it is handed out.
pub proof fn failure_is_fatal(
    ts: Seq<TokenView>,
    pos: nat,
    done: Seq<StatementView>,
    depth: nat,
    error: ErrorView,
)
    requires
        pos < ts.len(),
        statement_at(ts, pos, depth) == Err::<(StatementView, nat), ErrorView>(error),
    ensures
        statements_from(ts, pos, done, depth) == Err::<Seq<StatementView>, ErrorView>(error),
{
}

/// `var` that no identifier follows fails, naming the identifier it asks for
/// and the place where it is missing.
pub proof fn definition_needs_a_name(ts: Seq<TokenView>, pos: nat, depth: nat)
    requires
        keyword_at(ts, pos),
        has_text(ts, pos, "var"@),
        !identifier_at(ts, pos + 1),
    ensures
        statement_at(ts, pos, depth) == Err::<(StatementView, nat), ErrorView>(
            failure(
                if pos + 1 < ts.len() {
                    ErrorKind::UnexpectedCategory
                } else {
                    ErrorKind::PrematureEnd
                },
                ts,
                pos + 1,
                "identifier"@,
            ),
        ),
{
}

/// An opening parenthesis whose expression no closing parenthesis follows
/// fails, naming the parenthesis it asks for and the place where it is
/// missing.
pub proof fn group_needs_closing(
    ts: Seq<TokenView>,
    pos: nat,
    depth: nat,
    inner: ExpressionView,
    inner_end: nat,
)
    requires
        depth > 0,
        symbol_at(ts, pos),
        has_text(ts, pos, "("@),
        expression_at(ts, pos + 1, (depth - 1) as nat) == Ok::<(ExpressionView, nat), ErrorView>(
            (inner, inner_end),
        ),
        !has_text(ts, inner_end + 1, ")"@),
    ensures
        atom_at(ts, pos, depth) == Err::<(ExpressionView, nat), ErrorView>(
            failure(
                if inner_end + 1 < ts.len() {
                    ErrorKind::UnexpectedText
                } else {
                    ErrorKind::PrematureEnd
                },
                ts,
                inner_end + 1,
                ")"@,
            ),
        ),
{
    expression_span(ts, pos + 1, (depth - 1) as nat);
    assert(atom_at(ts, pos, depth) == group_at(ts, pos, depth));
}

/// A call whose arguments run to the end of the tokens fails, naming the
/// closing parenthesis it asks for.
pub proof fn call_needs_closing(ts: Seq<TokenView>, items: Seq<ExpressionView>, depth: nat)
    ensures
        arguments_from(ts, ts.len(), items, depth) == Err::<(ExpressionView, nat), ErrorView>(
            missing(ts, ")"@),
        ),
{
}

/// `var name = value` defines `name` as `value`.
pub proof fn var_defines(
    ts: Seq<TokenView>,
    pos: nat,
    depth: nat,
    value: ExpressionView,
    end: nat,
)
    requires
        keyword_at(ts, pos),
        has_text(ts, pos, "var"@),
        identifier_at(ts, pos + 1),
        has_text(ts, pos + 2, "="@),
        expression_at(ts, pos + 3, depth) == Ok::<(ExpressionView, nat), ErrorView>((value, end)),
    ensures
        statement_at(ts, pos, depth) == Ok::<(StatementView, nat), ErrorView>(
            (StatementView::Definition(token_at(ts, pos + 1).text, Box::new(value)), end),
        ),
{
}

/// `name = value`, without `var`, assigns `value` to `name`.
pub proof fn name_assigns(
    ts: Seq<TokenView>,
    pos: nat,
    depth: nat,
    value: ExpressionView,
    end: nat,
)
    requires
        identifier_at(ts, pos),
        has_text(ts, pos + 1, "="@),
        expression_at(ts, pos + 2, depth) == Ok::<(ExpressionView, nat), ErrorView>((value, end)),
    ensures
        statement_at(ts, pos, depth) == Ok::<(StatementView, nat), ErrorView>(
            (StatementView::Assignment(token_at(ts, pos).text, Box::new(value)), end),
        ),
{
}

/// `if a b else c`, where `b` and `c` are expressions and no blocks, is a
/// conditional whose two bodies hold one statement each: `b` and `c`.
pub proof fn conditional_with_expression_bodies(
    ts: Seq<TokenView>,
    pos: nat,
    depth: nat,
    a: ExpressionView,
    a_end: nat,
    b: ExpressionView,
    b_end: nat,
    c: ExpressionView,
    c_end: nat,
)
    requires
        keyword_at(ts, pos),
        has_text(ts, pos, "if"@),
        expression_at(ts, pos + 1, depth) == Ok::<(ExpressionView, nat), ErrorView>((a, a_end)),
        !block_at(ts, a_end + 1),
        expression_at(ts, a_end + 1, depth) == Ok::<(ExpressionView, nat), ErrorView>((b, b_end)),
        has_text(ts, b_end + 1, "else"@),
        !block_at(ts, b_end + 2),
        expression_at(ts, b_end + 2, depth) == Ok::<(ExpressionView, nat), ErrorView>((c, c_end)),
    ensures
        statement_at(ts, pos, depth) == Ok::<(StatementView, nat), ErrorView>(
            (
                StatementView::IfElse(
                    Box::new(a),
                    seq![StatementView::Expression(Box::new(b))],
                    seq![StatementView::Expression(Box::new(c))],
                ),
                c_end,
            ),
        ),
{
    reveal_strlit("if");
    reveal_strlit("var");
    assert("if"@[0] != "var"@[0]);
    assert(conditional_at(ts, pos, depth) == statement_at(ts, pos, depth));
}

/// `f~` and `f()` are the same call of `f` without arguments.
pub proof fn calls_without_arguments(ts: Seq<TokenView>, pos: nat, depth: nat)
    requires
        identifier_at(ts, pos),
        symbol_at(ts, pos + 1),
    ensures
        ({
            let call = ExpressionView::Call(
                seq![ExpressionView::Identifier(token_at(ts, pos).text)],
            );
            &&& has_text(ts, pos + 1, "~"@) ==> atom_at(ts, pos, depth) == Ok::<
                (ExpressionView, nat),
                ErrorView,
            >((call, pos + 1))
            &&& has_text(ts, pos + 1, "("@) && has_text(ts, pos + 2, ")"@) && depth > 0
                ==> atom_at(ts, pos, depth) == Ok::<(ExpressionView, nat), ErrorView>(
                (call, pos + 2),
            )
        }),
{
    reveal_strlit("~");
    reveal_strlit("(");
    assert("~"@[0] != "("@[0]);
    let name = ExpressionView::Identifier(token_at(ts, pos).text);
    assert(atom_at(ts, pos, depth) == named_at(ts, pos, depth));
    if has_text(ts, pos + 1, "("@) && has_text(ts, pos + 2, ")"@) && depth > 0 {
        assert(call_at(ts, pos + 1, name, depth) == arguments_from(
            ts,
            pos + 2,
            seq![name],
            (depth - 1) as nat,
        ));
    }
}

/// `f(a, b)` is the call of `f` with `a` and `b`, in that order.
pub proof fn call_with_two_arguments(
    ts: Seq<TokenView>,
    pos: nat,
    depth: nat,
    a: ExpressionView,
    a_end: nat,
    b: ExpressionView,
    b_end: nat,
)
    requires
        depth > 0,
        identifier_at(ts, pos),
        symbol_at(ts, pos + 1),
        has_text(ts, pos + 1, "("@),
        !has_text(ts, pos + 2, ")"@),
        expression_at(ts, pos + 2, (depth - 1) as nat) == Ok::<(ExpressionView, nat), ErrorView>(
            (a, a_end),
        ),
        has_text(ts, a_end + 1, ","@),
        !has_text(ts, a_end + 2, ")"@),
        expression_at(ts, a_end + 2, (depth - 1) as nat) == Ok::<(ExpressionView, nat), ErrorView>(
            (b, b_end),
        ),
        has_text(ts, b_end + 1, ")"@),
    ensures
        atom_at(ts, pos, depth) == Ok::<(ExpressionView, nat), ErrorView>(
            (
                ExpressionView::Call(
                    seq![ExpressionView::Identifier(token_at(ts, pos).text), a, b],
                ),
                b_end + 1,
            ),
        ),
{
    reveal_strlit(",");
    reveal_strlit(")");
    assert(","@[0] != ")"@[0]);
    let name = ExpressionView::Identifier(token_at(ts, pos).text);
    let inner = (depth - 1) as nat;
    expression_span(ts, pos + 2, inner);
    expression_span(ts, a_end + 2, inner);
    assert(atom_at(ts, pos, depth) == named_at(ts, pos, depth));
    assert(call_at(ts, pos + 1, name, depth) == arguments_from(ts, pos + 2, seq![name], inner));
    assert(seq![name].push(a) =~= seq![name, a]);
    assert(arguments_from(ts, pos + 2, seq![name], inner) == arguments_from(
        ts,
        a_end + 2,
        seq![name, a],
        inner,
    ));
    assert(seq![name, a].push(b) =~= seq![name, a, b]);
    assert(arguments_from(ts, a_end + 2, seq![name, a], inner) == arguments_from(
        ts,
        b_end + 1,
        seq![name, a, b],
        inner,
    ));
}

} // verus!
