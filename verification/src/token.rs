//! The token form of a declaration, as the host language's macro expander
//! hands it over: words, string literals and punctuation.

use vstd::prelude::*;

verus! {

/// One token of a declaration or of its option list.
pub enum Token {
    /// An identifier, keyword or number word.
    Word(String),
    /// A quoted string literal, unescaped.
    LitStr(String),
    LParen,
    RParen,
    LBrace,
    RBrace,
    LBracket,
    RBracket,
    Lt,
    Gt,
    Comma,
    Colon,
    Semi,
    Eq,
    Arrow,
    Pound,
    /// Any other punctuation character.
    Other(char),
}

/// Mathematical shape of a `Token`.
pub enum TokenV {
    Word(Seq<char>),
    LitStr(Seq<char>),
    LParen,
    RParen,
    LBrace,
    RBrace,
    LBracket,
    RBracket,
    Lt,
    Gt,
    Comma,
    Colon,
    Semi,
    Eq,
    Arrow,
    Pound,
    Other(char),
}

impl View for Token {
    type V = TokenV;

    open spec fn view(&self) -> TokenV {
        match self {
            Token::Word(s) => TokenV::Word(s@),
            Token::LitStr(s) => TokenV::LitStr(s@),
            Token::LParen => TokenV::LParen,
            Token::RParen => TokenV::RParen,
            Token::LBrace => TokenV::LBrace,
            Token::RBrace => TokenV::RBrace,
            Token::LBracket => TokenV::LBracket,
            Token::RBracket => TokenV::RBracket,
            Token::Lt => TokenV::Lt,
            Token::Gt => TokenV::Gt,
            Token::Comma => TokenV::Comma,
            Token::Colon => TokenV::Colon,
            Token::Semi => TokenV::Semi,
            Token::Eq => TokenV::Eq,
            Token::Arrow => TokenV::Arrow,
            Token::Pound => TokenV::Pound,
            Token::Other(c) => TokenV::Other(*c),
        }
    }
}

/// The shapes of a token sequence.
pub open spec fn tokens_view(ts: Seq<Token>) -> Seq<TokenV> {
    ts.map_values(|t: Token| t@)
}

/// Whether the token at this position is the given word.
pub open spec fn spec_is_word(t: Seq<TokenV>, pos: int, w: Seq<char>) -> bool {
    0 <= pos < t.len() && t[pos] == TokenV::Word(w)
}

/// Tests whether the token at `pos` is exactly the word `w`.
pub fn is_word(tokens: &Vec<Token>, pos: usize, w: &str) -> (r: bool)
    ensures
        r == spec_is_word(tokens_view(tokens@), pos as int, w@),
{
    proof {
        assert(pos < tokens@.len() ==> tokens_view(tokens@)[pos as int] == tokens@[pos as int]@);
    }
    if pos < tokens.len() {
        match &tokens[pos] {
            Token::Word(s) => s.eq(&String::from_str(w)),
            _ => false,
        }
    } else {
        false
    }
}

} // verus!
