use crate::error::ParseError;
use crate::token::{tokens_view, Token, TokenKind, TokenView};
use vstd::prelude::*;

verus! {

/// A reader's record assembly: a state that takes in one token after the
/// other, keeps a partly built record for each level of nesting, and lets a
/// finished record into its parent only where it is complete.
pub trait Assembler: Sized {
    /// The mathematical value of a state.
    type State;

    /// The mathematical value of this state.
    spec fn state(&self) -> Self::State;

    /// Whether every record that was let in is complete.
    spec fn sound(&self) -> bool;

    /// How many records the state holds at its lowest level. One token adds
    /// one record at most, so a document holds no more records than tokens.
    spec fn size(&self) -> nat;

    /// What the token at `at` makes of a state, and the place of the token to
    /// go on with.
    spec fn step_spec(
        state: Self::State,
        tokens: Seq<TokenView>,
        text: Seq<char>,
        at: int,
    ) -> Result<(Self::State, int), ParseError>;

    /// Takes in the token at `at`, and what belongs to it behind it; gives
    /// the place of the token to go on with.
    fn step(&mut self, tokens: &Vec<Token>, text: &str, at: usize) -> (res: Result<
        usize,
        ParseError,
    >)
        requires
            at < tokens.len(),
            old(self).sound(),
        ensures
            match res {
                Ok(next) => {
                    &&& Self::step_spec(old(self).state(), tokens_view(tokens@), text@, at as int)
                        == Ok::<(Self::State, int), ParseError>((final(self).state(), next as int))
                    &&& at < next <= tokens.len()
                    &&& final(self).sound()
                    &&& final(self).size() <= old(self).size() + 1
                },
                Err(e) => Self::step_spec(old(self).state(), tokens_view(tokens@), text@, at as int)
                    == Err::<(Self::State, int), ParseError>(e),
            },
    ;
}

/// What the tokens from `at` on make of a state: each token is taken in, in
/// order, up to the end of the document.
pub open spec fn run_spec<A: Assembler>(
    state: A::State,
    tokens: Seq<TokenView>,
    text: Seq<char>,
    at: int,
) -> Result<A::State, ParseError>
    decreases tokens.len() - at,
{
    if at < 0 || at >= tokens.len() || tokens[at].kind == TokenKind::Eof {
        Ok(state)
    } else {
        match A::step_spec(state, tokens, text, at) {
            Err(e) => Err(e),
            Ok((next_state, next)) => if at < next <= tokens.len() {
                run_spec::<A>(next_state, tokens, text, next)
            } else {
                Ok(next_state)
            },
        }
    }
}

/// Runs an assembler over a whole document; see [`run_spec`].
pub fn run<A: Assembler>(assembler: &mut A, tokens: &Vec<Token>, text: &str) -> (res: Result<
    (),
    ParseError,
>)
    requires
        old(assembler).sound(),
    ensures
        match res {
            Ok(_) => {
                &&& run_spec::<A>(old(assembler).state(), tokens_view(tokens@), text@, 0) == Ok::<
                    A::State,
                    ParseError,
                >(final(assembler).state())
                &&& final(assembler).sound()
                &&& final(assembler).size() <= old(assembler).size() + tokens.len()
            },
            Err(e) => run_spec::<A>(old(assembler).state(), tokens_view(tokens@), text@, 0)
                == Err::<A::State, ParseError>(e),
        },
{
    let ghost all = tokens_view(tokens@);
    let ghost goal = run_spec::<A>(assembler.state(), all, text@, 0);
    let mut at: usize = 0;
    while at < tokens.len()
        invariant
            at <= tokens.len(),
            all == tokens_view(tokens@),
            goal == run_spec::<A>(old(assembler).state(), all, text@, 0),
            assembler.sound(),
            assembler.size() <= old(assembler).size() + at,
            run_spec::<A>(assembler.state(), all, text@, at as int) == goal,
        decreases tokens.len() - at,
    {
        if tokens[at].kind == TokenKind::Eof {
            return Ok(());
        }
        match assembler.step(tokens, text, at) {
            Err(e) => {
                return Err(e);
            },
            Ok(next) => {
                at = next;
            },
        }
    }
    Ok(())
}

} // verus!
