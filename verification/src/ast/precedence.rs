//! Operator precedence, stated without the two stacks.
//!
//! The tree of a chain of operands and operators has at its root the
//! operator that is applied last: the one that binds loosest, and among
//! those the last where they group to the left, the first where they group
//! to the right. Its two subtrees are the trees of what stands to the left
//! and to the right of that operator. The theorem of this module is that
//! the two stacks of the parser build exactly this tree.

use crate::ast::expresions::{
    applies_before, balanced, binary_of, binding_power, fold_operators, groups_left,
    lemma_reduce_all_balanced, reduce_all, reduce_for, reduce_once, shift, shift_all, BinaryOp,
    ExpresionView, Stacks,
};
use vstd::prelude::*;

verus! {

/// The index of the operator that is applied last among the first `n`:
/// each operator takes the place of the one found so far if that one is
/// applied before it.
pub open spec fn root_upto(ops: Seq<BinaryOp>, n: int) -> int
    decreases n,
{
    if n <= 1 {
        0
    } else {
        let r = root_upto(ops, n - 1);
        if applies_before(ops[r], ops[n - 1]) {
            n - 1
        } else {
            r
        }
    }
}

/// The index of the operator that is applied last.
pub open spec fn root(ops: Seq<BinaryOp>) -> int {
    root_upto(ops, ops.len() as int)
}

/// The `k`-th of the first `n` operators is applied last among them: every
/// operator to its left is applied before it, and it is applied before
/// none to its right.
pub open spec fn is_root_upto(ops: Seq<BinaryOp>, n: int, k: int) -> bool {
    &&& 0 <= k < n
    &&& forall|i: int| 0 <= i < k ==> applies_before(#[trigger] ops[i], ops[k])
    &&& forall|i: int| k < i < n ==> !applies_before(ops[k], #[trigger] ops[i])
}

/// The tree of the operands with the operators between them.
pub open spec fn tree_of(operands: Seq<ExpresionView>, ops: Seq<BinaryOp>) -> ExpresionView
    decreases ops.len(),
{
    let k = root(ops);
    if ops.len() == 0 || !(0 <= k < ops.len()) {
        operands[0]
    } else {
        binary_of(
            tree_of(operands.subrange(0, k + 1), ops.subrange(0, k)),
            tree_of(
                operands.subrange(k + 1, operands.len() as int),
                ops.subrange(k + 1, ops.len() as int),
            ),
            ops[k],
        )
    }
}

/// The operands of a chain: the first, and those after the operators.
pub open spec fn chain_operands(first: ExpresionView, rest: Seq<(BinaryOp, ExpresionView)>) -> Seq<
    ExpresionView,
> {
    seq![first] + rest.map_values(|p: (BinaryOp, ExpresionView)| p.1)
}

/// The operators of a chain.
pub open spec fn chain_operators(rest: Seq<(BinaryOp, ExpresionView)>) -> Seq<BinaryOp> {
    rest.map_values(|p: (BinaryOp, ExpresionView)| p.0)
}

/// No operator on the stack is applied before the one above it.
pub open spec fn ascending(ops: Seq<BinaryOp>) -> bool {
    forall|i: int| 0 <= i < ops.len() - 1 ==> !applies_before(#[trigger] ops[i], ops[i + 1])
}

/// The operands with the `j`-th operator applied to its two.
pub open spec fn merged(operands: Seq<ExpresionView>, ops: Seq<BinaryOp>, j: int) -> Seq<
    ExpresionView,
> {
    operands.subrange(0, j).push(binary_of(operands[j], operands[j + 1], ops[j]))
        + operands.subrange(j + 2, operands.len() as int)
}

/// Operators that bind as tight group the same way, so "is applied before"
/// orders the operators: it goes on through a chain, and what is not
/// applied before an operator that another is applied before is itself
/// applied before that other.
pub proof fn lemma_applies_before(a: BinaryOp, b: BinaryOp, c: BinaryOp)
    ensures
        binding_power(a) == binding_power(b) ==> groups_left(a) == groups_left(b),
        applies_before(a, b) && applies_before(b, c) ==> applies_before(a, c),
        !applies_before(a, b) && !applies_before(b, c) ==> !applies_before(a, c),
        !applies_before(a, b) && applies_before(a, c) ==> applies_before(b, c),
        applies_before(a, c) && !applies_before(b, c) ==> applies_before(a, b),
{
    assert(binding_power(a) == 0 <==> a == BinaryOp::Assign);
    assert(binding_power(b) == 0 <==> b == BinaryOp::Assign);
    assert(binding_power(c) == 0 <==> c == BinaryOp::Assign);
}

/// The scan finds the operator that is applied last.
pub proof fn lemma_root_upto(ops: Seq<BinaryOp>, n: int)
    requires
        1 <= n <= ops.len(),
    ensures
        is_root_upto(ops, n, root_upto(ops, n)),
    decreases n,
{
    if n > 1 {
        lemma_root_upto(ops, n - 1);
        let r = root_upto(ops, n - 1);
        let q = ops[n - 1];
        if applies_before(ops[r], q) {
            assert forall|i: int| 0 <= i < n - 1 implies applies_before(#[trigger] ops[i], q) by {
                lemma_applies_before(ops[i], ops[r], q);
                lemma_applies_before(ops[r], ops[i], q);
            }
        }
    }
}

/// Only one operator is applied last.
pub proof fn lemma_root_unique(ops: Seq<BinaryOp>, n: int, k1: int, k2: int)
    requires
        is_root_upto(ops, n, k1),
        is_root_upto(ops, n, k2),
    ensures
        k1 == k2,
{
    if k1 < k2 {
        assert(applies_before(ops[k1], ops[k2]));
        assert(!applies_before(ops[k1], ops[k2]));
    } else if k2 < k1 {
        assert(applies_before(ops[k2], ops[k1]));
        assert(!applies_before(ops[k2], ops[k1]));
    }
}

/// An operator that is applied last is the root.
pub proof fn lemma_root_is(ops: Seq<BinaryOp>, k: int)
    requires
        is_root_upto(ops, ops.len() as int, k),
    ensures
        root(ops) == k,
{
    lemma_root_upto(ops, ops.len() as int);
    lemma_root_unique(ops, ops.len() as int, k, root(ops));
}

/// The tree of a chain with an operator, by its root.
pub proof fn lemma_tree_step(operands: Seq<ExpresionView>, ops: Seq<BinaryOp>)
    requires
        ops.len() > 0,
    ensures
        is_root_upto(ops, ops.len() as int, root(ops)),
        tree_of(operands, ops) == binary_of(
            tree_of(operands.subrange(0, root(ops) + 1), ops.subrange(0, root(ops))),
            tree_of(
                operands.subrange(root(ops) + 1, operands.len() as int),
                ops.subrange(root(ops) + 1, ops.len() as int),
            ),
            ops[root(ops)],
        ),
{
    lemma_root_upto(ops, ops.len() as int);
}

/// The tree of a chain without an operator is its operand.
pub proof fn lemma_tree_leaf(operands: Seq<ExpresionView>, ops: Seq<BinaryOp>)
    requires
        ops.len() == 0,
    ensures
        tree_of(operands, ops) == operands[0],
{
}

/// Without an operator that is not applied last, the one that is applied
/// last stays the same.
pub proof fn lemma_root_without(ops: Seq<BinaryOp>, j: int)
    requires
        ops.len() >= 2,
        0 <= j < ops.len(),
        j != root(ops),
    ensures
        root(ops.remove(j)) == if j < root(ops) {
            root(ops) - 1
        } else {
            root(ops)
        },
        ops.remove(j)[root(ops.remove(j))] == ops[root(ops)],
{
    let n = ops.len() as int;
    lemma_root_upto(ops, n);
    let k = root(ops);
    let ops2 = ops.remove(j);
    let k2 = if j < k {
        k - 1
    } else {
        k
    };
    assert(ops2[k2] == ops[k]);
    assert forall|i: int| 0 <= i < k2 implies applies_before(#[trigger] ops2[i], ops2[k2]) by {
        if i < j {
            assert(ops2[i] == ops[i]);
        } else {
            assert(ops2[i] == ops[i + 1]);
        }
    }
    assert forall|i: int| k2 < i < n - 1 implies !applies_before(ops2[k2], #[trigger] ops2[i]) by {
        if i < j {
            assert(ops2[i] == ops[i]);
        } else {
            assert(ops2[i] == ops[i + 1]);
        }
    }
    lemma_root_is(ops2, k2);
}

/// An operator that the one to its left is not applied before, and that is
/// applied before the one to its right, is not the one applied last, unless
/// it is the only one.
pub proof fn lemma_peak_is_no_root(ops: Seq<BinaryOp>, j: int)
    requires
        ops.len() >= 2,
        0 <= j < ops.len(),
        j == 0 || !applies_before(ops[j - 1], ops[j]),
        j == ops.len() - 1 || applies_before(ops[j], ops[j + 1]),
    ensures
        root(ops) != j,
{
    lemma_root_upto(ops, ops.len() as int);
    if root(ops) == j {
        if j > 0 {
            assert(applies_before(ops[j - 1], ops[j]));
        } else {
            assert(!applies_before(ops[j], ops[j + 1]));
        }
    }
}

/// An operator that is applied before the one to its right, and that the
/// one to its left is not applied before, can be applied first: the tree
/// is the same.
pub proof fn lemma_merge(operands: Seq<ExpresionView>, ops: Seq<BinaryOp>, j: int)
    requires
        operands.len() == ops.len() + 1,
        0 <= j < ops.len(),
        j == 0 || !applies_before(ops[j - 1], ops[j]),
        j == ops.len() - 1 || applies_before(ops[j], ops[j + 1]),
    ensures
        tree_of(merged(operands, ops, j), ops.remove(j)) == tree_of(operands, ops),
    decreases ops.len(),
{
    let n = ops.len() as int;
    let es2 = merged(operands, ops, j);
    let ops2 = ops.remove(j);
    if n == 1 {
        lemma_tree_step(operands, ops);
        lemma_tree_leaf(operands.subrange(0, 1), ops.subrange(0, 0));
        lemma_tree_leaf(operands.subrange(1, 2), ops.subrange(1, 1));
        lemma_tree_leaf(es2, ops2);
        assert(operands.subrange(0, 1)[0] == operands[0]);
        assert(operands.subrange(1, 2)[0] == operands[1]);
        assert(es2[0] == binary_of(operands[0], operands[1], ops[0]));
    } else {
        lemma_peak_is_no_root(ops, j);
        lemma_root_without(ops, j);
        lemma_tree_step(operands, ops);
        lemma_tree_step(es2, ops2);
        let k = root(ops);
        let k2 = root(ops2);
        let left_es = operands.subrange(0, k + 1);
        let left_ops = ops.subrange(0, k);
        let right_es = operands.subrange(k + 1, operands.len() as int);
        let right_ops = ops.subrange(k + 1, n);
        let left_es2 = es2.subrange(0, k2 + 1);
        let left_ops2 = ops2.subrange(0, k2);
        let right_es2 = es2.subrange(k2 + 1, es2.len() as int);
        let right_ops2 = ops2.subrange(k2 + 1, n - 1);
        if j < k {
            assert(left_es2 == merged(left_es, left_ops, j)) by {
                assert(left_es2 =~= merged(left_es, left_ops, j));
            }
            assert(left_ops2 == left_ops.remove(j)) by {
                assert(left_ops2 =~= left_ops.remove(j));
            }
            assert(right_es2 == right_es) by {
                assert(right_es2 =~= right_es);
            }
            assert(right_ops2 == right_ops) by {
                assert(right_ops2 =~= right_ops);
            }
            assert(j == 0 || left_ops[j - 1] == ops[j - 1]);
            assert(left_ops[j] == ops[j]);
            assert(j == k - 1 || left_ops[j + 1] == ops[j + 1]);
            lemma_merge(left_es, left_ops, j);
        } else {
            let j2 = j - k - 1;
            assert(right_es2 == merged(right_es, right_ops, j2)) by {
                assert(right_es2 =~= merged(right_es, right_ops, j2));
            }
            assert(right_ops2 == right_ops.remove(j2)) by {
                assert(right_ops2 =~= right_ops.remove(j2));
            }
            assert(left_es2 == left_es) by {
                assert(left_es2 =~= left_es);
            }
            assert(left_ops2 == left_ops) by {
                assert(left_ops2 =~= left_ops);
            }
            assert(j2 == 0 || right_ops[j2 - 1] == ops[j - 1]);
            assert(right_ops[j2] == ops[j]);
            assert(j == n - 1 || right_ops[j2 + 1] == ops[j + 1]);
            lemma_merge(right_es, right_ops, j2);
        }
    }
}

/// To apply the top operator of the stacks changes nothing of the tree of
/// what is on the stacks and what comes after, where what comes next lets
/// the top operator go first.
pub proof fn lemma_reduce_once_tree(
    st: Stacks,
    more_operands: Seq<ExpresionView>,
    more_ops: Seq<BinaryOp>,
)
    requires
        balanced(st),
        st.operators.len() > 0,
        ascending(st.operators),
        more_operands.len() == more_ops.len(),
        more_ops.len() == 0 || applies_before(st.operators.last(), more_ops[0]),
    ensures
        tree_of(
            reduce_once(st).operands + more_operands,
            reduce_once(st).operators + more_ops,
        ) == tree_of(st.operands + more_operands, st.operators + more_ops),
        ascending(reduce_once(st).operators),
        balanced(reduce_once(st)),
{
    let es = st.operands + more_operands;
    let ops = st.operators + more_ops;
    let j = st.operators.len() - 1;
    assert(ops[j] == st.operators[j]);
    if j > 0 {
        assert(ops[j - 1] == st.operators[j - 1]);
    }
    if more_ops.len() > 0 {
        assert(ops[j + 1] == more_ops[0]);
    }
    lemma_merge(es, ops, j);
    let after = reduce_once(st);
    assert(merged(es, ops, j) =~= after.operands + more_operands);
    assert(ops.remove(j) =~= after.operators + more_ops);
    assert forall|i: int| 0 <= i < after.operators.len() - 1 implies !applies_before(
        #[trigger] after.operators[i],
        after.operators[i + 1],
    ) by {
        assert(after.operators[i] == st.operators[i]);
        assert(after.operators[i + 1] == st.operators[i + 1]);
    }
}

/// To make room for an incoming operator changes nothing of the tree of
/// what is on the stacks, the incoming operator, and what comes after it;
/// and the incoming operator can go on the stack.
pub proof fn lemma_reduce_for_tree(
    st: Stacks,
    incoming: BinaryOp,
    more_operands: Seq<ExpresionView>,
    more_ops: Seq<BinaryOp>,
)
    requires
        balanced(st),
        ascending(st.operators),
        more_operands.len() == more_ops.len(),
        more_ops.len() > 0,
        more_ops[0] == incoming,
    ensures
        tree_of(
            reduce_for(st, incoming).operands + more_operands,
            reduce_for(st, incoming).operators + more_ops,
        ) == tree_of(st.operands + more_operands, st.operators + more_ops),
        ascending(reduce_for(st, incoming).operators.push(incoming)),
        balanced(reduce_for(st, incoming)),
    decreases st.operators.len(),
{
    if st.operators.len() > 0 && applies_before(st.operators.last(), incoming) {
        lemma_reduce_once_tree(st, more_operands, more_ops);
        lemma_reduce_for_tree(reduce_once(st), incoming, more_operands, more_ops);
    } else {
        let pushed = st.operators.push(incoming);
        assert forall|i: int| 0 <= i < pushed.len() - 1 implies !applies_before(
            #[trigger] pushed[i],
            pushed[i + 1],
        ) by {
            if i < st.operators.len() - 1 {
                assert(pushed[i] == st.operators[i]);
                assert(pushed[i + 1] == st.operators[i + 1]);
            }
        }
    }
}

/// To apply all operators on the stacks changes nothing of their tree.
pub proof fn lemma_reduce_all_tree(st: Stacks)
    requires
        balanced(st),
        ascending(st.operators),
    ensures
        tree_of(reduce_all(st).operands, reduce_all(st).operators) == tree_of(
            st.operands,
            st.operators,
        ),
    decreases st.operators.len(),
{
    if st.operators.len() > 0 {
        lemma_reduce_once_tree(st, Seq::empty(), Seq::empty());
        assert(st.operands + Seq::<ExpresionView>::empty() =~= st.operands);
        assert(st.operators + Seq::<BinaryOp>::empty() =~= st.operators);
        let after = reduce_once(st);
        assert(after.operands + Seq::<ExpresionView>::empty() =~= after.operands);
        assert(after.operators + Seq::<BinaryOp>::empty() =~= after.operators);
        lemma_reduce_all_tree(after);
    }
}

/// After a part of a chain has come in, the tree of what is on the stacks
/// and of whatever comes after is the tree of the whole.
pub proof fn lemma_shift_all_tree(
    first: ExpresionView,
    rest: Seq<(BinaryOp, ExpresionView)>,
    more_operands: Seq<ExpresionView>,
    more_ops: Seq<BinaryOp>,
)
    requires
        more_operands.len() == more_ops.len(),
    ensures
        ({
            let st = shift_all(Stacks { operands: seq![first], operators: Seq::empty() }, rest);
            &&& balanced(st)
            &&& ascending(st.operators)
            &&& tree_of(st.operands + more_operands, st.operators + more_ops) == tree_of(
                chain_operands(first, rest) + more_operands,
                chain_operators(rest) + more_ops,
            )
        }),
    decreases rest.len(),
{
    let init = Stacks { operands: seq![first], operators: Seq::empty() };
    if rest.len() == 0 {
        assert(chain_operands(first, rest) =~= seq![first]);
        assert(chain_operators(rest) =~= Seq::empty());
    } else {
        let front = rest.drop_last();
        let op = rest.last().0;
        let operand = rest.last().1;
        let next_operands = seq![operand] + more_operands;
        let next_ops = seq![op] + more_ops;
        lemma_shift_all_tree(first, front, next_operands, next_ops);
        let before = shift_all(init, front);
        lemma_reduce_for_tree(before, op, next_operands, next_ops);
        let reduced = reduce_for(before, op);
        let st = shift(before, op, operand);
        assert(st.operands + more_operands =~= reduced.operands + next_operands);
        assert(st.operators + more_ops =~= reduced.operators + next_ops);
        assert(chain_operands(first, rest) + more_operands =~= chain_operands(first, front)
            + next_operands);
        assert(chain_operators(rest) + more_ops =~= chain_operators(front) + next_ops);
    }
}

/// The two stacks build the tree of the chain by binding power and
/// grouping: at its root stands the operator that is applied last.
pub proof fn lemma_fold_operators_is_tree(
    first: ExpresionView,
    rest: Seq<(BinaryOp, ExpresionView)>,
)
    ensures
        fold_operators(first, rest) == tree_of(chain_operands(first, rest), chain_operators(rest)),
{
    let init = Stacks { operands: seq![first], operators: Seq::empty() };
    let st = shift_all(init, rest);
    lemma_shift_all_tree(first, rest, Seq::empty(), Seq::empty());
    assert(st.operands + Seq::<ExpresionView>::empty() =~= st.operands);
    assert(st.operators + Seq::<BinaryOp>::empty() =~= st.operators);
    assert(chain_operands(first, rest) + Seq::<ExpresionView>::empty() =~= chain_operands(
        first,
        rest,
    ));
    assert(chain_operators(rest) + Seq::<BinaryOp>::empty() =~= chain_operators(rest));
    lemma_reduce_all_tree(st);
    lemma_reduce_all_balanced(st);
}

} // verus!
