use vstd::prelude::*;

verus! {

/// The closed set of token kinds.
#[derive(Debug, Clone, Copy, PartialEq, Eq, Structural)]
pub enum TokenType {
    // Single-character tokens.
    LeftParen,
    RightParen,
    LeftBrace,
    RightBrace,
    Comma,
    Dot,
    Minus,
    Plus,
    Semicolon,
    Slash,
    Star,
    // One or two character tokens.
    Bang,
    BangEqual,
    Equal,
    EqualEqual,
    Greater,
    GreaterEqual,
    Less,
    LessEqual,
    // Literals.
    Identifier,
    String,
    Number,
    // Keywords.
    And,
    Class,
    Else,
    False,
    Fun,
    For,
    If,
    Nil,
    Or,
    Print,
    Return,
    Super,
    This,
    True,
    Var,
    While,
    EOF,
}

/// The payload of a literal token.  A number is the bit pattern of a double.
#[derive(Debug)]
pub enum LiteralValue {
    NumberValue(u64),
    StringValue(String),
    BooleanValue(bool),
    NilValue,
}

/// What a `LiteralValue` stands for.
pub enum LiteralModel {
    Number(u64),
    Text(Seq<char>),
    Boolean(bool),
    Nil,
}

impl View for LiteralValue {
    type V = LiteralModel;

    open spec fn view(&self) -> LiteralModel {
        match self {
            LiteralValue::NumberValue(n) => LiteralModel::Number(*n),
            LiteralValue::StringValue(s) => LiteralModel::Text(s@),
            LiteralValue::BooleanValue(b) => LiteralModel::Boolean(*b),
            LiteralValue::NilValue => LiteralModel::Nil,
        }
    }
}

impl Clone for LiteralValue {
    fn clone(&self) -> (copy: Self)
        ensures
            copy == *self,
    {
        match self {
            LiteralValue::NumberValue(n) => LiteralValue::NumberValue(*n),
            LiteralValue::StringValue(s) => LiteralValue::StringValue(s.clone()),
            LiteralValue::BooleanValue(b) => LiteralValue::BooleanValue(*b),
            LiteralValue::NilValue => LiteralValue::NilValue,
        }
    }
}

/// One token: its kind, the source text it was read from, its literal payload,
/// the line it ends on and an id that no other token of the same scanner has.
#[derive(Debug)]
pub struct Token {
    pub token_type: TokenType,
    pub lexeme: String,
    pub literal: Option<LiteralValue>,
    pub line: i32,
    pub id: u32,
}

/// What a `Token` stands for.
pub struct TokenModel {
    pub kind: TokenType,
    pub lexeme: Seq<char>,
    pub literal: Option<LiteralModel>,
    pub line: i32,
    pub id: u32,
}

pub open spec fn literal_view(literal: Option<LiteralValue>) -> Option<LiteralModel> {
    match literal {
        Some(l) => Some(l@),
        None => None,
    }
}

impl View for Token {
    type V = TokenModel;

    open spec fn view(&self) -> TokenModel {
        TokenModel {
            kind: self.token_type,
            lexeme: self.lexeme@,
            literal: literal_view(self.literal),
            line: self.line,
            id: self.id,
        }
    }
}

impl Clone for Token {
    fn clone(&self) -> (copy: Self)
        ensures
            copy == *self,
    {
        let literal = match &self.literal {
            Some(l) => Some(l.clone()),
            None => None,
        };
        Token {
            token_type: self.token_type,
            lexeme: self.lexeme.clone(),
            literal,
            line: self.line,
            id: self.id,
        }
    }
}

/// The models of a sequence of tokens, in order.
pub open spec fn token_views(tokens: Seq<Token>) -> Seq<TokenModel> {
    Seq::new(tokens.len(), |i: int| tokens[i]@)
}

} // verus!
