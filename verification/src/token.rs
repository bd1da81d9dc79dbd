//! Tokens, as the lexer hands them over.

use vstd::prelude::*;

verus! {

/// What kind of lexical unit a token is.
#[derive(Debug, Clone, Copy, PartialEq, Eq, Structural)]
pub enum Category {
    Identifier,
    Keyword,
    Operator,
    Symbol,
    IntLiteral,
    FloatLiteral,
    BoolLiteral,
    StringLiteral,
    CharLiteral,
    Block,
}

/// The category of a token. A block carries the tokens that stood between its
/// braces.
#[derive(Debug, PartialEq, Eq)]
pub enum TokenType {
    Identifier,
    Keyword,
    Operator,
    Symbol,
    IntLiteral,
    FloatLiteral,
    BoolLiteral,
    StringLiteral,
    CharLiteral,
    Block(Vec<Token>),
}

/// A lexical unit: a category and the text it was read from.
#[derive(Debug, PartialEq, Eq)]
pub struct Token {
    pub token_type: TokenType,
    pub content: String,
}

/// A token as a mathematical value. `inner` holds what a block carries, and
/// nothing for any other token.
pub struct TokenView {
    pub category: Category,
    pub text: Seq<char>,
    pub inner: Seq<TokenView>,
}

/// The tokens of a sequence as mathematical values, blocks included.
pub open spec fn tokens_view(tokens: Seq<Token>) -> Seq<TokenView>
    decreases tokens,
{
    Seq::new(
        tokens.len(),
        |i: int|
            if 0 <= i < tokens.len() {
                tokens[i].view()
            } else {
                arbitrary()
            },
    )
}

impl Category {
    /// The category's name, as diagnostics give it.
    pub open spec fn name_text(self) -> Seq<char> {
        match self {
            Category::Identifier => "identifier"@,
            Category::Keyword => "keyword"@,
            Category::Operator => "operator"@,
            Category::Symbol => "symbol"@,
            Category::IntLiteral => "integer literal"@,
            Category::FloatLiteral => "float literal"@,
            Category::BoolLiteral => "boolean literal"@,
            Category::StringLiteral => "string literal"@,
            Category::CharLiteral => "character literal"@,
            Category::Block => "block"@,
        }
    }

    /// The category's name, as diagnostics give it.
    pub fn name(self) -> (name: &'static str)
        ensures
            name@ == self.name_text(),
    {
        match self {
            Category::Identifier => "identifier",
            Category::Keyword => "keyword",
            Category::Operator => "operator",
            Category::Symbol => "symbol",
            Category::IntLiteral => "integer literal",
            Category::FloatLiteral => "float literal",
            Category::BoolLiteral => "boolean literal",
            Category::StringLiteral => "string literal",
            Category::CharLiteral => "character literal",
            Category::Block => "block",
        }
    }
}

impl View for TokenType {
    type V = Category;

    open spec fn view(&self) -> Category {
        match self {
            TokenType::Identifier => Category::Identifier,
            TokenType::Keyword => Category::Keyword,
            TokenType::Operator => Category::Operator,
            TokenType::Symbol => Category::Symbol,
            TokenType::IntLiteral => Category::IntLiteral,
            TokenType::FloatLiteral => Category::FloatLiteral,
            TokenType::BoolLiteral => Category::BoolLiteral,
            TokenType::StringLiteral => Category::StringLiteral,
            TokenType::CharLiteral => Category::CharLiteral,
            TokenType::Block(_) => Category::Block,
        }
    }
}

impl TokenType {
    /// The category, without what a block carries.
    pub fn category(&self) -> (category: Category)
        ensures
            category == self@,
    {
        match self {
            TokenType::Identifier => Category::Identifier,
            TokenType::Keyword => Category::Keyword,
            TokenType::Operator => Category::Operator,
            TokenType::Symbol => Category::Symbol,
            TokenType::IntLiteral => Category::IntLiteral,
            TokenType::FloatLiteral => Category::FloatLiteral,
            TokenType::BoolLiteral => Category::BoolLiteral,
            TokenType::StringLiteral => Category::StringLiteral,
            TokenType::CharLiteral => Category::CharLiteral,
            TokenType::Block(_) => Category::Block,
        }
    }
}

impl Token {
    pub open spec fn view(&self) -> TokenView
        decreases self,
    {
        TokenView {
            category: self.token_type@,
            text: self.content@,
            inner: match self.token_type {
                TokenType::Block(inner) => tokens_view(inner@),
                _ => Seq::empty(),
            },
        }
    }

    pub fn new(token_type: TokenType, content: String) -> (token: Token)
        ensures
            token.token_type == token_type,
            token.content == content,
    {
        Token { token_type, content }
    }

    /// The text the token was read from.
    pub fn content(&self) -> (content: &String)
        ensures
            *content == self.content,
    {
        &self.content
    }
}

/// A copy of a token sequence that shares nothing with it.
pub fn copy_tokens(tokens: &Vec<Token>) -> (copy: Vec<Token>)
    ensures
        tokens_view(copy@) == tokens_view(tokens@),
    decreases tokens,
{
    let mut copy: Vec<Token> = Vec::new();
    let mut i: usize = 0;
    while i < tokens.len()
        invariant
            i <= tokens.len(),
            copy.len() == i,
            forall|j: int| 0 <= j < i ==> copy[j].view() == tokens[j].view(),
        decreases tokens.len() - i,
    {
        copy.push(tokens[i].clone());
        i += 1;
    }
    assert(tokens_view(copy@) =~= tokens_view(tokens@));
    copy
}

impl Clone for TokenType {
    fn clone(&self) -> (copy: Self)
        ensures
            copy@ == self@,
            match (*self, copy) {
                (TokenType::Block(inner), TokenType::Block(copied)) => tokens_view(copied@)
                    == tokens_view(inner@),
                _ => true,
            },
        decreases self,
    {
        match self {
            TokenType::Identifier => TokenType::Identifier,
            TokenType::Keyword => TokenType::Keyword,
            TokenType::Operator => TokenType::Operator,
            TokenType::Symbol => TokenType::Symbol,
            TokenType::IntLiteral => TokenType::IntLiteral,
            TokenType::FloatLiteral => TokenType::FloatLiteral,
            TokenType::BoolLiteral => TokenType::BoolLiteral,
            TokenType::StringLiteral => TokenType::StringLiteral,
            TokenType::CharLiteral => TokenType::CharLiteral,
            TokenType::Block(inner) => TokenType::Block(copy_tokens(inner)),
        }
    }
}

impl Clone for Token {
    fn clone(&self) -> (copy: Self)
        ensures
            copy.view() == self.view(),
        decreases self,
    {
        Token { token_type: self.token_type.clone(), content: self.content.clone() }
    }
}

} // verus!
