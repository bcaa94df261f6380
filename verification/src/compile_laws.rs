//! Laws of compilation: when an expression has a program, and what a
//! program keeps of its expression.

use vstd::prelude::*;
use crate::filter::{compile_from, compiled, innermost_open, lemma_innermost_open, TokenView};

verus! {

/// The number of `Not` tokens that the sequence ends with.
pub open spec fn trailing_nots(tokens: Seq<TokenView>) -> nat
    decreases tokens.len(),
{
    if tokens.len() == 0 || !(tokens.last() is Not) {
        0
    } else {
        1 + trailing_nots(tokens.drop_last())
    }
}

/// Whether compilation, on reaching position `at`, will meet a `Not` with
/// nothing after it.
pub open spec fn dangles_from(tokens: Seq<TokenView>, at: int) -> bool
    decreases tokens.len() - at,
{
    if at < 0 || at >= tokens.len() {
        false
    } else if tokens[at] is Not {
        if at + 1 >= tokens.len() {
            true
        } else {
            dangles_from(tokens, at + 2)
        }
    } else {
        dangles_from(tokens, at + 1)
    }
}

/// The run of `Not` tokens at the end is made of `Not` tokens and cannot
/// be extended to the left.
pub proof fn lemma_trailing_nots(tokens: Seq<TokenView>)
    ensures
        trailing_nots(tokens) <= tokens.len(),
        forall|j: int|
            tokens.len() - trailing_nots(tokens) <= j < tokens.len() ==> #[trigger] tokens[j] is Not,
        trailing_nots(tokens) < tokens.len() ==> !(tokens[tokens.len() - trailing_nots(tokens) - 1]
            is Not),
    decreases tokens.len(),
{
    if tokens.len() > 0 && tokens.last() is Not {
        let shorter = tokens.drop_last();
        lemma_trailing_nots(shorter);
        assert forall|j: int|
            tokens.len() - trailing_nots(tokens) <= j < tokens.len() implies #[trigger] tokens[j] is Not by {
            if j < shorter.len() {
                assert(shorter[j] is Not);
            }
        }
        if trailing_nots(tokens) < tokens.len() {
            assert(shorter[shorter.len() - trailing_nots(shorter) - 1] == tokens[tokens.len()
                - trailing_nots(tokens) - 1]);
        }
    }
}

/// Compilation fails exactly where it will meet a `Not` with nothing after
/// it, whatever it holds so far.
pub proof fn lemma_compile_fails_where_dangling(
    tokens: Seq<TokenView>,
    at: int,
    ops: Seq<TokenView>,
    out: Seq<TokenView>,
)
    ensures
        compile_from(tokens, at, ops, out) is None <==> dangles_from(tokens, at),
    decreases tokens.len() - at,
{
    if 0 <= at < tokens.len() {
        match tokens[at] {
            TokenView::Atom(_) => {
                lemma_compile_fails_where_dangling(tokens, at + 1, ops, out.push(tokens[at]));
            },
            TokenView::Not => {
                if at + 1 < tokens.len() {
                    lemma_compile_fails_where_dangling(
                        tokens,
                        at + 2,
                        ops,
                        out.push(tokens[at + 1]).push(TokenView::Not),
                    );
                }
            },
            TokenView::GroupClose => {
                let open = innermost_open(ops);
                lemma_compile_fails_where_dangling(
                    tokens,
                    at + 1,
                    ops.take(if open < 0 { 0 } else { open }),
                    out + ops.skip(open + 1).reverse(),
                );
            },
            _ => {
                lemma_compile_fails_where_dangling(tokens, at + 1, ops.push(tokens[at]), out);
            },
        }
    }
}

/// From a position before the final run of `Not` tokens, compilation meets
/// a dangling `Not` exactly when that run is of odd length; from a position
/// inside the run, exactly when an odd number of tokens is left.
pub proof fn lemma_dangles_by_parity(tokens: Seq<TokenView>, at: int)
    requires
        0 <= at <= tokens.len(),
    ensures
        dangles_from(tokens, at) <==> if at <= tokens.len() - trailing_nots(tokens) {
            trailing_nots(tokens) % 2 == 1
        } else {
            (tokens.len() - at) % 2 == 1
        },
    decreases tokens.len() - at,
{
    lemma_trailing_nots(tokens);
    let start = tokens.len() - trailing_nots(tokens);
    if at < tokens.len() {
        if at >= start {
            if at + 1 < tokens.len() {
                lemma_dangles_by_parity(tokens, at + 2);
            }
        } else if tokens[at] is Not {
            assert(at + 1 < start);
            lemma_dangles_by_parity(tokens, at + 2);
        } else {
            lemma_dangles_by_parity(tokens, at + 1);
        }
    }
}

/// An expression has no program exactly when it ends with an odd number of
/// `Not` tokens: the last of them then has nothing to negate. In
/// particular, a single `Not` at the end of an expression fails.
pub proof fn lemma_trailing_not_fails(tokens: Seq<TokenView>)
    ensures
        compiled(tokens) is None <==> trailing_nots(tokens) % 2 == 1,
{
    lemma_compile_fails_where_dangling(tokens, 0, Seq::empty(), Seq::empty());
    lemma_dangles_by_parity(tokens, 0);
    lemma_trailing_nots(tokens);
}

/// The atoms of a sequence of tokens, in their order.
pub open spec fn atoms(tokens: Seq<TokenView>) -> Seq<TokenView>
    decreases tokens.len(),
{
    if tokens.len() == 0 {
        Seq::empty()
    } else if tokens[0] is Atom {
        seq![tokens[0]] + atoms(tokens.drop_first())
    } else {
        atoms(tokens.drop_first())
    }
}

/// The atoms of two sequences joined are the atoms of the first followed
/// by those of the second.
pub proof fn lemma_atoms_of_joined(left: Seq<TokenView>, right: Seq<TokenView>)
    ensures
        atoms(left + right) == atoms(left) + atoms(right),
    decreases left.len(),
{
    if left.len() == 0 {
        assert(left + right =~= right);
        assert(atoms(left) + atoms(right) =~= atoms(right));
    } else {
        lemma_atoms_of_joined(left.drop_first(), right);
        assert((left + right).drop_first() =~= left.drop_first() + right);
        assert(atoms(left + right) =~= atoms(left) + atoms(right));
    }
}

/// A sequence that holds no atom has no atoms.
pub proof fn lemma_atoms_of_operators(tokens: Seq<TokenView>)
    requires
        forall|j: int| 0 <= j < tokens.len() ==> !(#[trigger] tokens[j] is Atom),
    ensures
        atoms(tokens) == Seq::<TokenView>::empty(),
    decreases tokens.len(),
{
    if tokens.len() > 0 {
        let rest = tokens.drop_first();
        assert forall|j: int| 0 <= j < rest.len() implies !(#[trigger] rest[j] is Atom) by {
            assert(rest[j] == tokens[j + 1]);
        }
        lemma_atoms_of_operators(rest);
    }
}

/// The atoms of a single token: itself if it is an atom, else none.
pub proof fn lemma_atoms_of_one(token: TokenView)
    ensures
        atoms(seq![token]) == if token is Atom {
            seq![token]
        } else {
            Seq::<TokenView>::empty()
        },
{
    let one = seq![token];
    assert(one.drop_first() =~= Seq::<TokenView>::empty());
    assert(atoms(one.drop_first()) =~= Seq::<TokenView>::empty());
    assert(one[0] == token);
    if token is Atom {
        assert(atoms(one) =~= seq![token]);
    }
}

/// The atoms from a position on are those of the token there followed by
/// those after it.
pub proof fn lemma_atoms_from_position(tokens: Seq<TokenView>, at: int)
    requires
        0 <= at < tokens.len(),
    ensures
        atoms(tokens.skip(at)) == atoms(seq![tokens[at]]) + atoms(tokens.skip(at + 1)),
{
    assert(tokens.skip(at) =~= seq![tokens[at]] + tokens.skip(at + 1));
    lemma_atoms_of_joined(seq![tokens[at]], tokens.skip(at + 1));
}

/// With no atom on the operator stack, the atoms of the program are those
/// already emitted followed by those of the input still to come.
pub proof fn lemma_atoms_from(
    tokens: Seq<TokenView>,
    at: int,
    ops: Seq<TokenView>,
    out: Seq<TokenView>,
)
    requires
        0 <= at <= tokens.len(),
        forall|j: int| 0 <= j < ops.len() ==> !(#[trigger] ops[j] is Atom),
    ensures
        compile_from(tokens, at, ops, out) matches Some(program) ==> atoms(program) == atoms(out)
            + atoms(tokens.skip(at)),
    decreases tokens.len() - at,
{
    let none = Seq::<TokenView>::empty();
    if at >= tokens.len() {
        let flushed = ops.reverse();
        assert forall|j: int| 0 <= j < flushed.len() implies !(#[trigger] flushed[j] is Atom) by {
            assert(flushed[j] == ops[ops.len() - 1 - j]);
        }
        lemma_atoms_of_operators(flushed);
        lemma_atoms_of_joined(out, flushed);
        assert(tokens.skip(at) =~= none);
    } else {
        let token = tokens[at];
        lemma_atoms_from_position(tokens, at);
        lemma_atoms_of_one(token);
        match token {
            TokenView::Atom(_) => {
                lemma_atoms_from(tokens, at + 1, ops, out.push(token));
                assert(out.push(token) =~= out + seq![token]);
                lemma_atoms_of_joined(out, seq![token]);
                assert((atoms(out) + seq![token]) + atoms(tokens.skip(at + 1)) =~= atoms(out) + (
                    seq![token] + atoms(tokens.skip(at + 1))));
            },
            TokenView::Not => {
                if at + 1 < tokens.len() {
                    let operand = tokens[at + 1];
                    let emitted = out.push(operand).push(TokenView::Not);
                    lemma_atoms_from(tokens, at + 2, ops, emitted);
                    lemma_atoms_from_position(tokens, at + 1);
                    assert(emitted =~= (out + seq![operand]) + seq![TokenView::Not]);
                    lemma_atoms_of_joined(out + seq![operand], seq![TokenView::Not]);
                    lemma_atoms_of_joined(out, seq![operand]);
                    assert(atoms(emitted) =~= atoms(out) + atoms(seq![operand]));
                    assert(none + atoms(tokens.skip(at + 1)) =~= atoms(tokens.skip(at + 1)));
                    assert((atoms(out) + atoms(seq![operand])) + atoms(tokens.skip(at + 2)) =~= atoms(
                        out,
                    ) + (atoms(seq![operand]) + atoms(tokens.skip(at + 2))));
                }
            },
            TokenView::GroupClose => {
                let open = innermost_open(ops);
                lemma_innermost_open(ops);
                let kept = ops.take(if open < 0 { 0 } else { open });
                let flushed = ops.skip(open + 1).reverse();
                assert forall|j: int| 0 <= j < flushed.len() implies !(#[trigger] flushed[j] is Atom) by {
                    assert(flushed[j] == ops[ops.len() - 1 - j]);
                }
                lemma_atoms_of_operators(flushed);
                lemma_atoms_of_joined(out, flushed);
                assert(atoms(out) + none =~= atoms(out));
                lemma_atoms_from(tokens, at + 1, kept, out + flushed);
                assert(none + atoms(tokens.skip(at + 1)) =~= atoms(tokens.skip(at + 1)));
            },
            _ => {
                let pushed = ops.push(token);
                assert forall|j: int| 0 <= j < pushed.len() implies !(#[trigger] pushed[j] is Atom) by {
                    if j < ops.len() {
                        assert(pushed[j] == ops[j]);
                    }
                }
                lemma_atoms_from(tokens, at + 1, pushed, out);
                assert(none + atoms(tokens.skip(at + 1)) =~= atoms(tokens.skip(at + 1)));
            },
        }
    }
}

/// Compilation moves operators only: the atoms of a program are the atoms
/// of the expression, all of them and in the order in which they were
/// written.
pub proof fn lemma_compile_keeps_atoms(tokens: Seq<TokenView>)
    ensures
        compiled(tokens) matches Some(program) ==> atoms(program) == atoms(tokens),
{
    lemma_atoms_from(tokens, 0, Seq::empty(), Seq::empty());
    assert(tokens.skip(0) =~= tokens);
    assert(atoms(Seq::<TokenView>::empty()) + atoms(tokens) =~= atoms(tokens));
}

} // verus!
