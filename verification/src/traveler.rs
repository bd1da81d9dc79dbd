//! A cursor over a token sequence.

use vstd::prelude::*;
use crate::error::{ErrorKind, ErrorView, ParseError};
use crate::text::same_text;
use crate::token::{copy_tokens, tokens_view, Token, TokenType};

verus! {

/// A position in a sequence of tokens that it owns and never changes. The
/// position may rest one past the last token, and no further.
#[derive(Debug)]
pub struct Traveler {
    tokens: Vec<Token>,
    top: usize,
}

/// A cursor as a mathematical value.
pub struct TravelerView {
    pub tokens: Seq<Token>,
    pub position: nat,
}

impl TravelerView {
    /// The index that the cursor reads: its position, or the last index where
    /// the position lies past it.
    pub open spec fn index(self) -> int {
        if self.position < self.tokens.len() {
            self.position as int
        } else {
            self.tokens.len() - 1
        }
    }

    /// The token that the cursor reads.
    pub open spec fn current(self) -> Token {
        self.tokens[self.index()]
    }

    /// What `expect` reports when the current token is of another category
    /// than `wanted`.
    pub open spec fn wrong_category(self, wanted: TokenType) -> ErrorView {
        ErrorView {
            kind: ErrorKind::UnexpectedCategory,
            position: self.position,
            path: Seq::empty(),
            expected: wanted@.name_text(),
            found: self.current().content@,
        }
    }

    /// What `expect_content` reports when the current token's text is not
    /// `wanted`.
    pub open spec fn wrong_text(self, wanted: Seq<char>) -> ErrorView {
        ErrorView {
            kind: ErrorKind::UnexpectedText,
            position: self.position,
            path: Seq::empty(),
            expected: wanted,
            found: self.current().content@,
        }
    }

    /// The token `ahead` places after the position.
    pub open spec fn ahead(self, ahead: int) -> Token {
        self.tokens[self.position + ahead]
    }

    /// Whether the token `ahead` places after the position exists and reads
    /// `wanted`.
    pub open spec fn reads_ahead(self, ahead: int, wanted: Seq<char>) -> bool {
        self.position + ahead < self.tokens.len() && self.ahead(ahead).content@ == wanted
    }

    /// What `expecte_contents` reports when the token `ahead` places after the
    /// position is the first that does not read `wanted`.
    pub open spec fn wrong_ahead(self, ahead: int, wanted: Seq<char>) -> ErrorView {
        if self.position + ahead < self.tokens.len() {
            ErrorView {
                kind: ErrorKind::UnexpectedText,
                position: (self.position + ahead) as nat,
                path: Seq::empty(),
                expected: wanted,
                found: self.ahead(ahead).content@,
            }
        } else {
            ErrorView {
                kind: ErrorKind::PrematureEnd,
                position: (self.position + ahead) as nat,
                path: Seq::empty(),
                expected: wanted,
                found: Seq::empty(),
            }
        }
    }
}

impl View for Traveler {
    type V = TravelerView;

    closed spec fn view(&self) -> TravelerView {
        TravelerView { tokens: self.tokens@, position: self.top as nat }
    }
}

impl Clone for Traveler {
    /// A cursor at the same position over a copy of the tokens.
    fn clone(&self) -> (copy: Self)
        ensures
            tokens_view(copy@.tokens) == tokens_view(self@.tokens),
            copy@.position == self@.position,
    {
        proof {
            use_type_invariant(self);
        }
        let tokens = copy_tokens(&self.tokens);
        assert(tokens_view(tokens@).len() == tokens@.len());
        assert(tokens_view(self.tokens@).len() == self.tokens@.len());
        Traveler { tokens, top: self.top }
    }
}

impl Traveler {
    #[verifier::type_invariant]
    pub open spec fn in_bounds(&self) -> bool {
        self@.position <= self@.tokens.len() <= usize::MAX
    }

    /// A cursor on the first of `tokens`.
    pub fn new(tokens: Vec<Token>) -> (traveler: Traveler)
        ensures
            traveler@.tokens == tokens@,
            traveler@.position == 0,
    {
        assert(tokens.len() <= usize::MAX);
        Traveler { tokens, top: 0 }
    }

    /// The tokens that the cursor moves over.
    pub fn tokens(&self) -> (tokens: &Vec<Token>)
        ensures
            tokens@ == self@.tokens,
    {
        &self.tokens
    }

    /// The index that the cursor rests on.
    pub fn position(&self) -> (position: usize)
        ensures
            position == self@.position,
            position <= self@.tokens.len(),
    {
        proof {
            use_type_invariant(self);
        }
        self.top
    }

    /// Moves one token forward, unless the cursor rests past the last token.
    /// Says whether it moved.
    pub fn next(&mut self) -> (moved: bool)
        ensures
            final(self)@.tokens == old(self)@.tokens,
            moved == (old(self)@.position < old(self)@.tokens.len()),
            final(self)@.position == if moved {
                old(self)@.position + 1
            } else {
                old(self)@.position
            },
    {
        proof {
            use_type_invariant(&*self);
        }
        if self.top < self.tokens.len() {
            self.top += 1;
            return true;
        }
        false
    }

    /// Moves one token back, unless the cursor rests on the first token. Says
    /// whether it moved.
    pub fn prev(&mut self) -> (moved: bool)
        ensures
            final(self)@.tokens == old(self)@.tokens,
            moved == (old(self)@.position > 0),
            final(self)@.position == if moved {
                old(self)@.position - 1
            } else {
                old(self)@.position as int
            },
    {
        proof {
            use_type_invariant(&*self);
        }
        if self.top > 0 {
            self.top -= 1;
            return true;
        }
        false
    }

    /// One more than the number of tokens from the position on; the largest
    /// count there is, where that number is no count.
    pub fn remaining(&self) -> (count: usize)
        ensures
            count == if self@.tokens.len() - self@.position < usize::MAX {
                self@.tokens.len() - self@.position + 1
            } else {
                usize::MAX as int
            },
    {
        proof {
            use_type_invariant(self);
        }
        (self.tokens.len() - self.top).saturating_add(1)
    }

    /// The token at the position; the last token where the position lies past
    /// it.
    pub fn current(&self) -> (token: &Token)
        requires
            self@.tokens.len() > 0,
        ensures
            *token == self@.current(),
    {
        proof {
            use_type_invariant(self);
        }
        if self.top > self.tokens.len() - 1 {
            return &self.tokens[self.tokens.len() - 1];
        }
        &self.tokens[self.top]
    }

    /// The token at index `i`, which is not the first.
    pub fn get(&self, i: usize) -> (token: &Token)
        requires
            0 < i < self@.tokens.len(),
        ensures
            *token == self@.tokens[i as int],
    {
        &self.tokens[i]
    }

    /// The text of the current token.
    pub fn current_content(&self) -> (content: String)
        requires
            self@.tokens.len() > 0,
        ensures
            content == self@.current().content,
    {
        self.current().content().clone()
    }

    /// The current token, if it is of the category of `token`.
    pub fn expect(&self, token: TokenType) -> (found: Result<&Token, ParseError>)
        requires
            self@.tokens.len() > 0,
        ensures
            match found {
                Ok(current) => {
                    &&& *current == self@.current()
                    &&& current.token_type@ == token@
                },
                Err(error) => {
                    &&& self@.current().token_type@ != token@
                    &&& error@ == self@.wrong_category(token)
                },
            },
    {
        let current = self.current();
        if current.token_type.category() == token.category() {
            Ok(current)
        } else {
            Err(
                ParseError::new(
                    ErrorKind::UnexpectedCategory,
                    self.top,
                    token.category().name(),
                    current.content().as_str(),
                ),
            )
        }
    }

    /// The current token, if its text is `content`.
    pub fn expect_content(&self, content: String) -> (found: Result<&Token, ParseError>)
        requires
            self@.tokens.len() > 0,
        ensures
            match found {
                Ok(current) => *current == self@.current() && current.content@ == content@,
                Err(error) => {
                    &&& self@.current().content@ != content@
                    &&& error@ == self@.wrong_text(content@)
                },
            },
    {
        let current = self.current();
        if same_text(current.content().as_str(), content.as_str()) {
            Ok(current)
        } else {
            Err(
                ParseError::new(
                    ErrorKind::UnexpectedText,
                    self.top,
                    content.as_str(),
                    current.content().as_str(),
                ),
            )
        }
    }

    /// The tokens from the position on, as many as `sequence` is long, if each
    /// reads as `sequence` says in its place. Otherwise the first that does
    /// not, or the end of the tokens where that comes first.
    pub fn expecte_contents(&self, sequence: Vec<String>) -> (found: Result<
        Vec<&Token>,
        ParseError,
    >)
        ensures
            match found {
                Ok(run) => {
                    &&& run.len() == sequence.len()
                    &&& forall|i: int|
                        0 <= i < sequence.len() ==> self@.reads_ahead(i, #[trigger] sequence[i]@)
                    &&& forall|i: int|
                        0 <= i < sequence.len() ==> *#[trigger] run[i] == self@.ahead(i)
                },
                Err(error) => {
                    let first = error@.position - self@.position;
                    &&& 0 <= first < sequence.len()
                    &&& forall|i: int|
                        0 <= i < first ==> self@.reads_ahead(i, #[trigger] sequence[i]@)
                    &&& !self@.reads_ahead(first, sequence[first]@)
                    &&& error@ == self@.wrong_ahead(first, sequence[first]@)
                },
            },
    {
        proof {
            use_type_invariant(self);
        }
        let mut run: Vec<&Token> = Vec::new();
        let mut accum: usize = 0;
        while accum < sequence.len()
            invariant
                self.top <= self.tokens.len(),
                accum <= sequence.len(),
                run.len() == accum,
                self.top + accum <= self.tokens.len(),
                forall|i: int| 0 <= i < accum ==> self@.reads_ahead(i, #[trigger] sequence[i]@),
                forall|i: int| 0 <= i < accum ==> *#[trigger] run[i] == self@.ahead(i),
            decreases sequence.len() - accum,
        {
            if accum >= self.tokens.len() - self.top {
                proof {
                    reveal_strlit("");
                    assert(""@ =~= Seq::<char>::empty());
                }
                return Err(
                    ParseError::new(
                        ErrorKind::PrematureEnd,
                        self.tokens.len(),
                        sequence[accum].as_str(),
                        "",
                    ),
                );
            }
            let token = &self.tokens[self.top + accum];
            if !same_text(sequence[accum].as_str(), token.content().as_str()) {
                return Err(
                    ParseError::new(
                        ErrorKind::UnexpectedText,
                        self.top + accum,
                        sequence[accum].as_str(),
                        token.content().as_str(),
                    ),
                );
            }
            run.push(token);
            accum += 1;
        }
        Ok(run)
    }
}

} // verus!
