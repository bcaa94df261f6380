//! The evaluator: runs a postfix program against a set of tags.

use vstd::prelude::*;
use crate::filter::{Token, TokenView};
use crate::tag::{criteria_is_usable, criteria_usable, tag_matches, Tag};

verus! {

/// Whether some tag of the set matches the criteria. A file that cannot
/// hold tags matches nothing.
pub open spec fn any_tag_matches(tags: Option<Seq<Seq<char>>>, criteria: Seq<char>) -> bool {
    match tags {
        Some(list) => some_tag_matches(list, criteria),
        None => false,
    }
}

/// Whether some tag of the list matches the criteria.
pub open spec fn some_tag_matches(list: Seq<Seq<char>>, criteria: Seq<char>) -> bool {
    exists|i: int| 0 <= i < list.len() && tag_matches(#[trigger] list[i], criteria)
}

/// The truth table of the binary operators, for the operands in the order
/// in which they were written.
pub open spec fn apply_binary(operator: TokenView, left: bool, right: bool) -> bool {
    match operator {
        TokenView::Or => left || right,
        TokenView::Xor => left != right,
        TokenView::And => left && right,
        TokenView::Xnor => left == right,
        TokenView::Nand => !(left && right),
        _ => false,
    }
}

/// The evaluation stack after one token: an atom pushes its verdict, `Not`
/// negates the top, a binary operator replaces the two topmost values by
/// its result, and parentheses do nothing. `None` where the stack holds too
/// few values.
pub open spec fn step(stack: Seq<bool>, token: TokenView, tags: Option<Seq<Seq<char>>>) -> Option<
    Seq<bool>,
> {
    match token {
        TokenView::Atom(text) => Some(stack.push(any_tag_matches(tags, text))),
        TokenView::Not => if stack.len() >= 1 {
            Some(stack.drop_last().push(!stack.last()))
        } else {
            None
        },
        TokenView::GroupOpen | TokenView::GroupClose => Some(stack),
        _ => if stack.len() >= 2 {
            Some(
                stack.take(stack.len() - 2).push(
                    apply_binary(token, stack[stack.len() - 2], stack.last()),
                ),
            )
        } else {
            None
        },
    }
}

/// The evaluation stack after a whole program, or `None` where some token
/// found too few values on it.
pub open spec fn run(program: Seq<TokenView>, tags: Option<Seq<Seq<char>>>) -> Option<Seq<bool>>
    decreases program.len(),
{
    if program.len() == 0 {
        Some(Seq::empty())
    } else {
        match run(program.drop_last(), tags) {
            Some(stack) => step(stack, program.last(), tags),
            None => None,
        }
    }
}

/// The number of values on the stack after a program, whatever the tags,
/// or `None` where some token finds too few.
pub open spec fn height(program: Seq<TokenView>) -> Option<int>
    decreases program.len(),
{
    if program.len() == 0 {
        Some(0)
    } else {
        match height(program.drop_last()) {
            None => None,
            Some(below) => match program.last() {
                TokenView::Atom(_) => Some(below + 1),
                TokenView::Not => if below >= 1 {
                    Some(below)
                } else {
                    None
                },
                TokenView::GroupOpen | TokenView::GroupClose => Some(below),
                _ => if below >= 2 {
                    Some(below - 1)
                } else {
                    None
                },
            },
        }
    }
}

/// A program is well formed when every operator finds its operands and
/// exactly one value is left at the end.
pub open spec fn well_formed(program: Seq<TokenView>) -> bool {
    height(program) == Some(1int)
}

/// The verdict of a well-formed program: the one value left on the stack.
pub open spec fn verdict(program: Seq<TokenView>, tags: Option<Seq<Seq<char>>>) -> bool {
    run(program, tags).unwrap()[0]
}

/// Whether every atom of the program is a criteria that the engine accepts.
pub open spec fn atoms_usable(program: Seq<TokenView>) -> bool {
    forall|i: int|
        0 <= i < program.len() ==> (#[trigger] program[i] matches TokenView::Atom(text)
            ==> criteria_usable(text))
}

/// Whether a program can be run against a set of tags: it is well formed,
/// and its atoms are usable if there is any tag to match them with.
pub open spec fn runnable(program: Seq<TokenView>, tags: Option<Seq<Seq<char>>>) -> bool {
    &&& well_formed(program)
    &&& (tags matches Some(list) && list.len() > 0) ==> atoms_usable(program)
}

/// The stack that `run` leaves is as high as `height` says, for any tags.
pub proof fn lemma_run_height(program: Seq<TokenView>, tags: Option<Seq<Seq<char>>>)
    ensures
        match height(program) {
            Some(h) => run(program, tags) is Some && run(program, tags).unwrap().len() == h,
            None => run(program, tags) is None,
        },
    decreases program.len(),
{
    if program.len() > 0 {
        lemma_run_height(program.drop_last(), tags);
    }
}

/// A well-formed program leaves exactly one value on the stack, whatever
/// the tags it is run against.
pub proof fn lemma_well_formed_leaves_one_value(
    program: Seq<TokenView>,
    tags: Option<Seq<Seq<char>>>,
)
    requires
        well_formed(program),
    ensures
        run(program, tags) is Some,
        run(program, tags).unwrap().len() == 1,
{
    lemma_run_height(program, tags);
}

/// Every prefix of a program that does not underflow does not underflow.
pub proof fn lemma_height_prefix(program: Seq<TokenView>, n: int)
    requires
        height(program) is Some,
        0 <= n <= program.len(),
    ensures
        height(program.take(n)) is Some,
    decreases program.len(),
{
    if n == program.len() {
        assert(program.take(n) =~= program);
    } else {
        lemma_height_prefix(program.drop_last(), n);
        assert(program.drop_last().take(n) =~= program.take(n));
    }
}

/// Tests whether a program is well formed.
pub fn is_well_formed(program: &Vec<Token>) -> (ok: bool)
    ensures
        ok == well_formed(program.deep_view()),
{
    let ghost all = program.deep_view();
    let mut depth: usize = 0;
    let mut i: usize = 0;
    while i < program.len()
        invariant
            all == program.deep_view(),
            i <= program.len(),
            depth <= i,
            height(all.take(i as int)) == Some(depth as int),
        decreases program.len() - i,
    {
        proof {
            assert(all.take(i + 1).drop_last() =~= all.take(i as int));
        }
        match &program[i] {
            Token::Atom(_) => {
                depth = depth + 1;
            },
            Token::Not => {
                if depth < 1 {
                    proof {
                        lemma_underflow_stays(all, i + 1);
                    }
                    return false;
                }
            },
            Token::GroupOpen => {},
            Token::GroupClose => {},
            _ => {
                if depth < 2 {
                    proof {
                        lemma_underflow_stays(all, i + 1);
                    }
                    return false;
                }
                depth = depth - 1;
            },
        }
        i = i + 1;
    }
    proof {
        assert(all.take(i as int) =~= all);
    }
    depth == 1
}

/// A program with a prefix that underflows underflows.
proof fn lemma_underflow_stays(program: Seq<TokenView>, n: int)
    requires
        0 <= n <= program.len(),
        height(program.take(n)) is None,
    ensures
        height(program) is None,
{
    if height(program) is Some {
        lemma_height_prefix(program, n);
    }
}

/// Tests whether every atom of a program is a usable criteria.
pub fn atoms_are_usable(program: &Vec<Token>) -> (ok: bool)
    ensures
        ok == atoms_usable(program.deep_view()),
{
    let ghost all = program.deep_view();
    let mut i: usize = 0;
    while i < program.len()
        invariant
            all == program.deep_view(),
            i <= program.len(),
            atoms_usable(all.take(i as int)),
        decreases program.len() - i,
    {
        match &program[i] {
            Token::Atom(text) => {
                if !criteria_is_usable(text.as_str()) {
                    proof {
                        assert(all[i as int] == TokenView::Atom(text@));
                    }
                    return false;
                }
            },
            _ => {},
        }
        proof {
            assert forall|k: int| 0 <= k < i + 1 implies (#[trigger] all.take(i + 1)[k] matches TokenView::Atom(
                text,
            ) ==> criteria_usable(text)) by {
                if k < i {
                    assert(all.take(i as int)[k] == all.take(i + 1)[k]);
                }
            }
        }
        i = i + 1;
    }
    proof {
        assert(all.take(i as int) =~= all);
    }
    true
}

/// Whether some tag of the list matches the criteria.
fn any_matches(tags: Option<&Vec<Tag>>, criteria: &str) -> (hit: bool)
    requires
        (tags matches Some(list) && list.len() > 0) ==> criteria_usable(criteria@),
    ensures
        hit == any_tag_matches(tags.deep_view(), criteria@),
{
    match tags {
        None => false,
        Some(list) => {
            let ghost views = list.deep_view();
            let mut i: usize = 0;
            while i < list.len()
                invariant
                    views == list.deep_view(),
                    tags.deep_view() == Some(views),
                    i <= list.len(),
                    list.len() > 0 ==> criteria_usable(criteria@),
                    forall|k: int| 0 <= k < i ==> !tag_matches(#[trigger] views[k], criteria@),
                decreases list.len() - i,
            {
                if list[i].matches(criteria) {
                    proof {
                        assert(views[i as int] == list@[i as int]@);
                    }
                    return true;
                }
                i = i + 1;
            }
            false
        },
    }
}

/// Runs a program against a set of tags and gives its verdict. `None` for
/// the tags stands for a file that cannot hold any. The program must be
/// runnable; `try_evaluate` tests that first.
pub fn evaluate(program: &Vec<Token>, tags: Option<&Vec<Tag>>) -> (result: bool)
    requires
        runnable(program.deep_view(), tags.deep_view()),
    ensures
        result == verdict(program.deep_view(), tags.deep_view()),
{
    let ghost all = program.deep_view();
    let ghost labels = tags.deep_view();
    let mut stack: Vec<bool> = Vec::new();
    let mut i: usize = 0;
    proof {
        lemma_run_height(all, labels);
    }
    while i < program.len()
        invariant
            all == program.deep_view(),
            labels == tags.deep_view(),
            runnable(all, labels),
            i <= program.len(),
            run(all.take(i as int), labels) == Some(stack@),
        decreases program.len() - i,
    {
        proof {
            assert(all.take(i + 1).drop_last() =~= all.take(i as int));
            lemma_height_prefix(all, i + 1);
            lemma_run_height(all.take(i + 1), labels);
        }
        match &program[i] {
            Token::Atom(content) => {
                let hit = any_matches(tags, content.as_str());
                stack.push(hit);
            },
            Token::Or => {
                let right = stack.pop().unwrap();
                let left = stack.pop().unwrap();
                stack.push(left || right);
            },
            Token::Xor => {
                let right = stack.pop().unwrap();
                let left = stack.pop().unwrap();
                stack.push(left ^ right);
            },
            Token::And => {
                let right = stack.pop().unwrap();
                let left = stack.pop().unwrap();
                stack.push(left && right);
            },
            Token::Xnor => {
                let right = stack.pop().unwrap();
                let left = stack.pop().unwrap();
                stack.push(!(left ^ right));
            },
            Token::Nand => {
                let right = stack.pop().unwrap();
                let left = stack.pop().unwrap();
                stack.push(!(left && right));
            },
            Token::Not => {
                let left = stack.pop().unwrap();
                stack.push(!left);
            },
            Token::GroupOpen => {},
            Token::GroupClose => {},
        }
        i = i + 1;
    }
    proof {
        assert(all.take(i as int) =~= all);
        lemma_run_height(all, labels);
    }
    stack.pop().unwrap()
}

/// Runs a program against a set of tags, or gives `None` where the program
/// cannot be run: it is not well formed, or one of its atoms is refused by
/// the engine while there are tags to match.
pub fn try_evaluate(program: &Vec<Token>, tags: Option<&Vec<Tag>>) -> (result: Option<bool>)
    ensures
        result == if runnable(program.deep_view(), tags.deep_view()) {
            Some(verdict(program.deep_view(), tags.deep_view()))
        } else {
            None
        },
{
    if !is_well_formed(program) {
        return None;
    }
    let matching = match tags {
        Some(list) => list.len() > 0,
        None => false,
    };
    if matching && !atoms_are_usable(program) {
        return None;
    }
    Some(evaluate(program, tags))
}

} // verus!
