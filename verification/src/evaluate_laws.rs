//! Laws of evaluation: a postfix program means the boolean expression that
//! it spells.

use vstd::prelude::*;
use crate::evaluate::{
    any_tag_matches, apply_binary, height, lemma_run_height, run, step, verdict, well_formed,
};
use crate::filter::TokenView;

verus! {

/// Whether a token is one of the five binary operators.
pub open spec fn is_binary(token: TokenView) -> bool {
    token is And || token is Or || token is Xor || token is Nand || token is Xnor
}

/// A token that finds its operands on a stack finds them as well with more
/// values below, and leaves those alone.
pub proof fn lemma_step_above(
    below: Seq<bool>,
    stack: Seq<bool>,
    token: TokenView,
    tags: Option<Seq<Seq<char>>>,
)
    requires
        step(stack, token, tags) is Some,
    ensures
        step(below + stack, token, tags) == Some(below + step(stack, token, tags).unwrap()),
{
    let whole = below + stack;
    match token {
        TokenView::Atom(text) => {
            assert(whole.push(any_tag_matches(tags, text)) =~= below + stack.push(
                any_tag_matches(tags, text),
            ));
        },
        TokenView::Not => {
            assert(whole.drop_last().push(!whole.last()) =~= below + stack.drop_last().push(
                !stack.last(),
            ));
        },
        TokenView::GroupOpen | TokenView::GroupClose => {},
        _ => {
            let left = stack[stack.len() - 2];
            let right = stack.last();
            assert(whole[whole.len() - 2] == left);
            assert(whole.take(whole.len() - 2).push(apply_binary(token, left, right)) =~= below
                + stack.take(stack.len() - 2).push(apply_binary(token, left, right)));
        },
    }
}

/// Running one program after another leaves the values of the first with
/// those of the second on top, provided each runs by itself.
pub proof fn lemma_run_after(
    first: Seq<TokenView>,
    second: Seq<TokenView>,
    tags: Option<Seq<Seq<char>>>,
)
    requires
        run(first, tags) is Some,
        run(second, tags) is Some,
    ensures
        run(first + second, tags) == Some(run(first, tags).unwrap() + run(second, tags).unwrap()),
    decreases second.len(),
{
    let below = run(first, tags).unwrap();
    if second.len() == 0 {
        assert(first + second =~= first);
        assert(below + run(second, tags).unwrap() =~= below);
    } else {
        let shorter = second.drop_last();
        lemma_run_after(first, shorter, tags);
        assert((first + second).drop_last() =~= first + shorter);
        assert((first + second).last() == second.last());
        lemma_step_above(below, run(shorter, tags).unwrap(), second.last(), tags);
    }
}

/// An atom alone is a well-formed program, and its verdict is whether some
/// tag matches it.
pub proof fn lemma_verdict_of_atom(text: Seq<char>, tags: Option<Seq<Seq<char>>>)
    ensures
        well_formed(seq![TokenView::Atom(text)]),
        verdict(seq![TokenView::Atom(text)], tags) == any_tag_matches(tags, text),
{
    let program = seq![TokenView::Atom(text)];
    assert(program.drop_last() =~= Seq::<TokenView>::empty());
    assert(height(program.drop_last()) == Some(0int));
    assert(run(program.drop_last(), tags) == Some(Seq::<bool>::empty()));
}

/// A well-formed program followed by `Not` is well formed, and its verdict
/// is the opposite.
pub proof fn lemma_verdict_of_not(program: Seq<TokenView>, tags: Option<Seq<Seq<char>>>)
    requires
        well_formed(program),
    ensures
        well_formed(program.push(TokenView::Not)),
        verdict(program.push(TokenView::Not), tags) == !verdict(program, tags),
{
    lemma_run_height(program, tags);
    assert(program.push(TokenView::Not).drop_last() =~= program);
}

/// Two well-formed programs followed by a binary operator are a
/// well-formed program, and its verdict is the operator applied to their
/// verdicts, the first program's on the left.
pub proof fn lemma_verdict_of_binary(
    left: Seq<TokenView>,
    right: Seq<TokenView>,
    operator: TokenView,
    tags: Option<Seq<Seq<char>>>,
)
    requires
        well_formed(left),
        well_formed(right),
        is_binary(operator),
    ensures
        well_formed((left + right).push(operator)),
        verdict((left + right).push(operator), tags) == apply_binary(
            operator,
            verdict(left, tags),
            verdict(right, tags),
        ),
{
    let both = left + right;
    lemma_run_height(left, tags);
    lemma_run_height(right, tags);
    lemma_run_after(left, right, tags);
    lemma_run_height(both, tags);
    assert(both.push(operator).drop_last() =~= both);
    let stack = run(both, tags).unwrap();
    assert(stack[0] == verdict(left, tags));
    assert(stack[1] == verdict(right, tags));
    lemma_run_height(both.push(operator), tags);
}

} // verus!
