//! Selecting files by a query expression: the compiler and the evaluator
//! put together over a collection.

use vstd::prelude::*;
use crate::evaluate::{runnable, verdict};
use crate::filter::{parse, parsed, Token, TokenView, TOKEN_GRAMMAR};
use crate::media::{Media, MediaView};
use crate::pattern::{accepts, regex_accepts};

verus! {

/// The files that pass a program, in the order in which they were given.
pub open spec fn selected(program: Seq<TokenView>, media: Seq<MediaView>) -> Seq<MediaView>
    decreases media.len(),
{
    if media.len() == 0 {
        Seq::empty()
    } else if verdict(program, media.last().tags) {
        selected(program, media.drop_last()).push(media.last())
    } else {
        selected(program, media.drop_last())
    }
}

/// Whether a program can be run on the tags of every one of the files.
pub open spec fn all_runnable(program: Seq<TokenView>, media: Seq<MediaView>) -> bool {
    forall|i: int| 0 <= i < media.len() ==> runnable(program, (#[trigger] media[i]).tags)
}

/// What an expression selects from a collection: the files that pass its
/// program, and nothing where it has no program.
pub open spec fn selection(expression: Seq<char>, media: Seq<MediaView>) -> Seq<MediaView> {
    match parsed(expression) {
        Some(program) => selected(program, media),
        None => Seq::empty(),
    }
}

/// Whether an expression can be used on a collection: the engine accepts
/// the grammar and, where the expression has a program, that program can
/// be run on every file.
pub open spec fn selectable(expression: Seq<char>, media: Seq<MediaView>) -> bool {
    &&& regex_accepts(TOKEN_GRAMMAR@)
    &&& parsed(expression) matches Some(program) ==> all_runnable(program, media)
}

/// Keeps the files that pass a program, in their order.
pub fn select(program: &Vec<Token>, media: Vec<Media>) -> (chosen: Vec<Media>)
    requires
        all_runnable(program.deep_view(), media.deep_view()),
    ensures
        chosen.deep_view() == selected(program.deep_view(), media.deep_view()),
{
    let ghost all = media.deep_view();
    let ghost code = program.deep_view();
    let mut chosen: Vec<Media> = Vec::new();
    for file in it: media
        invariant
            code == program.deep_view(),
            all_runnable(code, all),
            it.seq().len() == all.len(),
            forall|k: int| 0 <= k < all.len() ==> (#[trigger] it.seq()[k])@ == all[k],
            chosen.deep_view() == selected(code, all.take(it.index() as int)),
    {
        let ghost done = it.index() as int;
        proof {
            assert(all.take(done + 1).drop_last() =~= all.take(done));
        }
        if file.matches_filter(program) {
            chosen.push(file);
        }
    }
    proof {
        assert(all.take(all.len() as int) =~= all);
    }
    chosen
}

/// Compiles an expression and keeps the files that pass it, in their
/// order. An expression that has no program selects nothing. The
/// expression must be usable on the collection; `try_compile_and_select`
/// tests that first.
pub fn compile_and_select(expression: String, media: Vec<Media>) -> (chosen: Vec<Media>)
    requires
        selectable(expression@, media.deep_view()),
    ensures
        chosen.deep_view() == selection(expression@, media.deep_view()),
{
    match parse(expression) {
        Some(program) => select(&program, media),
        None => Vec::new(),
    }
}

/// Compiles an expression and keeps the files that pass it, or gives `None`
/// where the expression cannot be used on the collection: the engine
/// refuses the grammar, or the program cannot be run on one of the files.
pub fn try_compile_and_select(expression: String, media: Vec<Media>) -> (chosen: Option<Vec<Media>>)
    ensures
        chosen.deep_view() == if selectable(expression@, media.deep_view()) {
            Some(selection(expression@, media.deep_view()))
        } else {
            None
        },
{
    if !accepts(TOKEN_GRAMMAR) {
        return None;
    }
    let ghost all = media.deep_view();
    match parse(expression) {
        Some(program) => {
            let ghost code = program.deep_view();
            let mut i: usize = 0;
            while i < media.len()
                invariant
                    i <= media.len(),
                    all == media.deep_view(),
                    code == program.deep_view(),
                    parsed(expression@) == Some(code),
                    regex_accepts(TOKEN_GRAMMAR@),
                    forall|k: int| 0 <= k < i ==> runnable(code, (#[trigger] all[k]).tags),
                decreases media.len() - i,
            {
                proof {
                    assert(all[i as int] == media@[i as int]@);
                }
                if media[i].try_matches_filter(&program).is_none() {
                    return None;
                }
                i = i + 1;
            }
            Some(select(&program, media))
        },
        None => Some(Vec::new()),
    }
}

} // verus!
