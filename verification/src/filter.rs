//! The query language: its tokens, and the compiler that orders them into
//! a postfix program.

use std::collections::VecDeque;
use vstd::prelude::*;
use vstd::std_specs::cmp::PartialEqSpecImpl;
use crate::pattern::{accepts, all_matches, regex_accepts, regex_matches};
use crate::text::{to_uppercase, uppercase_of};

verus! {

/// The grammar of a query expression: a parenthesis or `!` alone, a quoted
/// phrase, or a run of characters that are none of these nor blank.
pub const TOKEN_GRAMMAR: &'static str = r#"([\(\)!])|(?:(".*")?("[^"]+")|([^()"!\s]+))"#;

/// One lexical unit of a query expression.
#[derive(Debug, Eq)]
pub enum Token {
    Atom(String),
    Not,
    And,
    Or,
    Nand,
    Xor,
    Xnor,
    GroupOpen,
    GroupClose,
}

/// The mathematical value of a token: the same variants, an atom carrying
/// its text as a sequence of characters.
pub enum TokenView {
    Atom(Seq<char>),
    Not,
    And,
    Or,
    Nand,
    Xor,
    Xnor,
    GroupOpen,
    GroupClose,
}

impl View for Token {
    type V = TokenView;

    open spec fn view(&self) -> TokenView {
        match self {
            Token::Atom(text) => TokenView::Atom(text@),
            Token::Not => TokenView::Not,
            Token::And => TokenView::And,
            Token::Or => TokenView::Or,
            Token::Nand => TokenView::Nand,
            Token::Xor => TokenView::Xor,
            Token::Xnor => TokenView::Xnor,
            Token::GroupOpen => TokenView::GroupOpen,
            Token::GroupClose => TokenView::GroupClose,
        }
    }
}

impl DeepView for Token {
    type V = TokenView;

    open spec fn deep_view(&self) -> TokenView {
        self@
    }
}

impl PartialEq for Token {
    fn eq(&self, other: &Token) -> (same: bool) {
        match (self, other) {
            (Token::Atom(left), Token::Atom(right)) => *left == *right,
            (Token::Not, Token::Not) => true,
            (Token::And, Token::And) => true,
            (Token::Or, Token::Or) => true,
            (Token::Nand, Token::Nand) => true,
            (Token::Xor, Token::Xor) => true,
            (Token::Xnor, Token::Xnor) => true,
            (Token::GroupOpen, Token::GroupOpen) => true,
            (Token::GroupClose, Token::GroupClose) => true,
            _ => false,
        }
    }
}

impl PartialEqSpecImpl for Token {
    open spec fn obeys_eq_spec() -> bool {
        true
    }

    open spec fn eq_spec(&self, other: &Token) -> bool {
        self@ == other@
    }
}

impl Clone for Token {
    fn clone(&self) -> (copy: Token)
        ensures
            copy@ == self@,
    {
        match self {
            Token::Atom(text) => Token::Atom(text.clone()),
            Token::Not => Token::Not,
            Token::And => Token::And,
            Token::Or => Token::Or,
            Token::Nand => Token::Nand,
            Token::Xor => Token::Xor,
            Token::Xnor => Token::Xnor,
            Token::GroupOpen => Token::GroupOpen,
            Token::GroupClose => Token::GroupClose,
        }
    }
}

/// The token that a word stands for, given the word in upper case: the
/// operator or parenthesis that the upper-case form spells, else an atom
/// that carries the word as it was written.
pub open spec fn token_for(upper: Seq<char>, written: Seq<char>) -> TokenView {
    if upper == "AND"@ || upper == "&"@ {
        TokenView::And
    } else if upper == "OR"@ || upper == "|"@ {
        TokenView::Or
    } else if upper == "NOT"@ || upper == "!"@ {
        TokenView::Not
    } else if upper == "XOR"@ {
        TokenView::Xor
    } else if upper == "NAND"@ {
        TokenView::Nand
    } else if upper == "XNOR"@ {
        TokenView::Xnor
    } else if upper == "("@ {
        TokenView::GroupOpen
    } else if upper == ")"@ {
        TokenView::GroupClose
    } else {
        TokenView::Atom(written)
    }
}

/// The token that a word stands for: words are recognised whatever their
/// case.
pub open spec fn token_of(word: Seq<char>) -> TokenView {
    token_for(uppercase_of(word), word)
}

/// Whether a text is a given word.
fn is_word(text: &String, word: &str) -> (same: bool)
    ensures
        same == (text@ == word@),
{
    *text == word.to_owned()
}

impl Token {
    /// Classifies a word whose upper-case form is already known.
    pub fn classify(upper: &str, written: &str) -> (token: Token)
        ensures
            token@ == token_for(upper@, written@),
    {
        let upper = upper.to_owned();
        if is_word(&upper, "AND") || is_word(&upper, "&") {
            Token::And
        } else if is_word(&upper, "OR") || is_word(&upper, "|") {
            Token::Or
        } else if is_word(&upper, "NOT") || is_word(&upper, "!") {
            Token::Not
        } else if is_word(&upper, "XOR") {
            Token::Xor
        } else if is_word(&upper, "NAND") {
            Token::Nand
        } else if is_word(&upper, "XNOR") {
            Token::Xnor
        } else if is_word(&upper, "(") {
            Token::GroupOpen
        } else if is_word(&upper, ")") {
            Token::GroupClose
        } else {
            Token::Atom(written.to_owned())
        }
    }

    /// The token that a word stands for. Operators are recognised whatever
    /// their case; anything else is an atom with the word unchanged.
    pub fn into(token: &str) -> (result: Token)
        ensures
            result@ == token_of(token@),
    {
        let upper = to_uppercase(token);
        Token::classify(upper.as_str(), token)
    }
}

/// The position on the operator stack of the innermost group that is still
/// open, or -1 where no group is open.
pub open spec fn innermost_open(ops: Seq<TokenView>) -> int
    decreases ops.len(),
{
    if ops.len() == 0 {
        -1
    } else if ops.last() is GroupOpen {
        ops.len() - 1
    } else {
        innermost_open(ops.drop_last())
    }
}

/// The program that compilation yields from position `at` of the input on,
/// with `ops` on the operator stack and `out` already emitted.
///
/// An atom is emitted. A `Not` emits the token that follows it, whatever
/// that is, and then itself; with nothing following there is no program.
/// A closing parenthesis emits the operators above the innermost open
/// group, last pushed first, and drops that group; with no group open it
/// emits the whole stack. Everything else is pushed on the stack, with no
/// regard to precedence. At the end of the input the stack is emitted, last
/// pushed first.
pub open spec fn compile_from(
    tokens: Seq<TokenView>,
    at: int,
    ops: Seq<TokenView>,
    out: Seq<TokenView>,
) -> Option<Seq<TokenView>>
    decreases tokens.len() - at,
{
    if at < 0 || at >= tokens.len() {
        Some(out + ops.reverse())
    } else {
        match tokens[at] {
            TokenView::Atom(_) => compile_from(tokens, at + 1, ops, out.push(tokens[at])),
            TokenView::Not => if at + 1 >= tokens.len() {
                None
            } else {
                compile_from(tokens, at + 2, ops, out.push(tokens[at + 1]).push(TokenView::Not))
            },
            TokenView::GroupClose => {
                let open = innermost_open(ops);
                compile_from(
                    tokens,
                    at + 1,
                    ops.take(if open < 0 { 0 } else { open }),
                    out + ops.skip(open + 1).reverse(),
                )
            },
            _ => compile_from(tokens, at + 1, ops.push(tokens[at]), out),
        }
    }
}

/// The postfix program of a sequence of tokens, or `None` where a `Not`
/// has nothing after it.
pub open spec fn compiled(tokens: Seq<TokenView>) -> Option<Seq<TokenView>> {
    compile_from(tokens, 0, Seq::empty(), Seq::empty())
}

/// Where the innermost open group stands: below the top of the stack, on a
/// `GroupOpen` if there is one, with no `GroupOpen` above it.
pub proof fn lemma_innermost_open(ops: Seq<TokenView>)
    ensures
        -1 <= innermost_open(ops) < ops.len(),
        innermost_open(ops) >= 0 ==> ops[innermost_open(ops)] is GroupOpen,
        forall|j: int| innermost_open(ops) < j < ops.len() ==> !(#[trigger] ops[j] is GroupOpen),
    decreases ops.len(),
{
    if ops.len() > 0 && !(ops.last() is GroupOpen) {
        let below = ops.drop_last();
        lemma_innermost_open(below);
        assert forall|j: int| innermost_open(ops) < j < ops.len() implies !(#[trigger] ops[j]
            is GroupOpen) by {
            if j < below.len() {
                assert(below[j] == ops[j]);
            }
        }
    }
}

/// Orders tokens into a postfix program.
pub fn compile(tokens: VecDeque<Token>) -> (program: Option<Vec<Token>>)
    ensures
        program.deep_view() == compiled(tokens.deep_view()),
{
    let ghost all = tokens.deep_view();
    let mut rest = tokens;
    let mut ops: Vec<Token> = Vec::new();
    let mut out: Vec<Token> = Vec::new();
    let ghost mut at: int = 0;
    while rest.len() > 0
        invariant
            all == tokens.deep_view(),
            0 <= at <= all.len(),
            rest.deep_view() == all.skip(at),
            compile_from(all, at, ops.deep_view(), out.deep_view()) == compiled(all),
        decreases rest.len(),
    {
        let ghost ops0 = ops.deep_view();
        let ghost out0 = out.deep_view();
        let ghost rest0 = rest.deep_view();
        let token = rest.pop_front().unwrap();
        proof {
            assert(rest0.len() > 0);
            assert(token@ == rest0[0]);
            assert forall|i: int| 0 <= i < rest@.len() implies rest.deep_view()[i] == all.skip(
                at + 1,
            )[i] by {
                assert(rest0[i + 1] == all.skip(at)[i + 1]);
            }
        }
        match token {
            Token::Atom(_) => {
                out.push(token);
                proof {
                    assert(out.deep_view() =~= out0.push(all[at]));
                    at = at + 1;
                }
            },
            Token::Not => {
                let ghost rest1 = rest.deep_view();
                match rest.pop_front() {
                    Some(operand) => {
                        proof {
                            assert(operand@ == rest1[0]);
                            assert forall|i: int| 0 <= i < rest@.len() implies rest.deep_view()[i]
                                == all.skip(at + 2)[i] by {
                                assert(rest1[i + 1] == all.skip(at + 1)[i + 1]);
                            }
                        }
                        out.push(operand);
                        out.push(token);
                        proof {
                            assert(out.deep_view() =~= out0.push(all[at + 1]).push(TokenView::Not));
                            at = at + 2;
                        }
                    },
                    None => {
                        return None;
                    },
                }
            },
            Token::GroupClose => {
                let ghost open = innermost_open(ops0);
                proof {
                    lemma_innermost_open(ops0);
                }
                let mut closed = false;
                while !closed && ops.len() > 0
                    invariant
                        ops.len() <= ops0.len(),
                        -1 <= open < ops0.len(),
                        open >= 0 ==> ops0[open] is GroupOpen,
                        forall|j: int| open < j < ops0.len() ==> !(#[trigger] ops0[j] is GroupOpen),
                        !closed ==> open < ops.len(),
                        !closed ==> ops.deep_view() == ops0.take(ops.len() as int),
                        !closed ==> out.deep_view() == out0 + ops0.skip(ops.len() as int).reverse(),
                        closed ==> open >= 0,
                        closed ==> ops.deep_view() == ops0.take(open),
                        closed ==> out.deep_view() == out0 + ops0.skip(open + 1).reverse(),
                    decreases ops.len() + (if closed { 0int } else { 1int }),
                {
                    let ghost before = ops.deep_view();
                    let ghost emitted = out.deep_view();
                    let ghost top = ops.len() - 1;
                    let operator = ops.pop().unwrap();
                    proof {
                        assert(operator@ == before[top]);
                    }
                    match operator {
                        Token::GroupOpen => {
                            closed = true;
                        },
                        _ => {
                            out.push(operator);
                            proof {
                                assert(out.deep_view() =~= emitted.push(ops0[top]));
                                assert(ops0.skip(top).reverse() =~= ops0.skip(top + 1).reverse().push(
                                    ops0[top],
                                ));
                            }
                        },
                    }
                }
                proof {
                    at = at + 1;
                }
            },
            _ => {
                ops.push(token);
                proof {
                    assert(ops.deep_view() =~= ops0.push(all[at]));
                    at = at + 1;
                }
            },
        }
    }
    let ghost result = out.deep_view() + ops.deep_view().reverse();
    while ops.len() > 0
        invariant
            out.deep_view() + ops.deep_view().reverse() == result,
        decreases ops.len(),
    {
        let operator = ops.pop().unwrap();
        out.push(operator);
    }
    Some(out)
}

/// The tokens of an expression: the words that the grammar finds in it, in
/// order, each classified.
pub open spec fn lexed(text: Seq<char>) -> Seq<TokenView> {
    regex_matches(TOKEN_GRAMMAR@, text).map_values(|word: Seq<char>| token_of(word))
}

/// The program of an expression, or `None` where a `Not` has nothing
/// after it.
pub open spec fn parsed(text: Seq<char>) -> Option<Seq<TokenView>> {
    compiled(lexed(text))
}

/// Splits an expression into its tokens.
fn lex(filter: &str) -> (tokens: VecDeque<Token>)
    requires
        regex_accepts(TOKEN_GRAMMAR@),
    ensures
        tokens.deep_view() == lexed(filter@),
{
    let words = all_matches(TOKEN_GRAMMAR, filter);
    let mut tokens: VecDeque<Token> = VecDeque::new();
    let mut i: usize = 0;
    while i < words.len()
        invariant
            i <= words.len(),
            words.deep_view() == regex_matches(TOKEN_GRAMMAR@, filter@),
            tokens.deep_view() == lexed(filter@).take(i as int),
        decreases words.len() - i,
    {
        let ghost before = tokens.deep_view();
        let token = Token::into(words[i].as_str());
        tokens.push_back(token);
        proof {
            assert(tokens.deep_view() =~= before.push(token@));
        }
        i = i + 1;
    }
    tokens
}

/// Compiles an expression into a postfix program. `None` where a `Not` has
/// nothing after it. The engine must accept the grammar; `try_parse` tests
/// that first.
pub fn parse(filter: String) -> (program: Option<Vec<Token>>)
    requires
        regex_accepts(TOKEN_GRAMMAR@),
    ensures
        program.deep_view() == parsed(filter@),
{
    compile(lex(filter.as_str()))
}

/// Compiles an expression into a postfix program, or gives `None` where
/// the engine refuses the grammar.
pub fn try_parse(filter: String) -> (outcome: Option<Option<Vec<Token>>>)
    ensures
        outcome.deep_view() == if regex_accepts(TOKEN_GRAMMAR@) {
            Some(parsed(filter@))
        } else {
            None
        },
{
    if accepts(TOKEN_GRAMMAR) {
        Some(parse(filter))
    } else {
        None
    }
}

} // verus!
