//! Tokens of the surface language and their textual form.

use vstd::prelude::*;

verus! {

/// One lexical unit.
#[derive(Debug, Clone, PartialEq, Eq)]
pub enum Token {
    Import,
    From,
    Page,
    Layout,
    Render,
    Functions,
    Ident(String),
    StringLiteral(String),
    /// A numeric literal, kept as the digits (and at most one interior dot) it was written with.
    Number(String),
    /// A run of markup text, already trimmed.
    Text(String),
    LBrace,
    RBrace,
    Colon,
    Comma,
    LParen,
    RParen,
    LT,
    GT,
    SlashGT,
    Arrow,
    Slash,
    SemiColon,
    Plus,
    Minus,
    Star,
    EQ,
    EOF,
}

/// The mathematical value of a `Token`.
pub enum TokenModel {
    Import,
    From,
    Page,
    Layout,
    Render,
    Functions,
    Ident(Seq<char>),
    StringLiteral(Seq<char>),
    Number(Seq<char>),
    Text(Seq<char>),
    LBrace,
    RBrace,
    Colon,
    Comma,
    LParen,
    RParen,
    LT,
    GT,
    SlashGT,
    Arrow,
    Slash,
    SemiColon,
    Plus,
    Minus,
    Star,
    EQ,
    EOF,
}

impl View for Token {
    type V = TokenModel;

    open spec fn view(&self) -> TokenModel {
        match self {
            Token::Import => TokenModel::Import,
            Token::From => TokenModel::From,
            Token::Page => TokenModel::Page,
            Token::Layout => TokenModel::Layout,
            Token::Render => TokenModel::Render,
            Token::Functions => TokenModel::Functions,
            Token::Ident(s) => TokenModel::Ident(s@),
            Token::StringLiteral(s) => TokenModel::StringLiteral(s@),
            Token::Number(s) => TokenModel::Number(s@),
            Token::Text(s) => TokenModel::Text(s@),
            Token::LBrace => TokenModel::LBrace,
            Token::RBrace => TokenModel::RBrace,
            Token::Colon => TokenModel::Colon,
            Token::Comma => TokenModel::Comma,
            Token::LParen => TokenModel::LParen,
            Token::RParen => TokenModel::RParen,
            Token::LT => TokenModel::LT,
            Token::GT => TokenModel::GT,
            Token::SlashGT => TokenModel::SlashGT,
            Token::Arrow => TokenModel::Arrow,
            Token::Slash => TokenModel::Slash,
            Token::SemiColon => TokenModel::SemiColon,
            Token::Plus => TokenModel::Plus,
            Token::Minus => TokenModel::Minus,
            Token::Star => TokenModel::Star,
            Token::EQ => TokenModel::EQ,
            Token::EOF => TokenModel::EOF,
        }
    }
}

/// The models of a sequence of tokens.
pub open spec fn models(v: Seq<Token>) -> Seq<TokenModel> {
    v.map_values(|t: Token| t@)
}

/// The text a token is written as: keywords and punctuation as in the source,
/// string literals between double quotes, the end of input as nothing.
pub open spec fn render(t: TokenModel) -> Seq<char> {
    match t {
        TokenModel::Import => "import"@,
        TokenModel::From => "from"@,
        TokenModel::Page => "page"@,
        TokenModel::Layout => "layout"@,
        TokenModel::Render => "render"@,
        TokenModel::Functions => "functions"@,
        TokenModel::Ident(s) => s,
        TokenModel::StringLiteral(s) => "\""@ + s + "\""@,
        TokenModel::Number(s) => s,
        TokenModel::Text(s) => s,
        TokenModel::LBrace => "{"@,
        TokenModel::RBrace => "}"@,
        TokenModel::Colon => ":"@,
        TokenModel::Comma => ","@,
        TokenModel::LParen => "("@,
        TokenModel::RParen => ")"@,
        TokenModel::LT => "<"@,
        TokenModel::GT => ">"@,
        TokenModel::SlashGT => "/>"@,
        TokenModel::Arrow => "=>"@,
        TokenModel::Slash => "/"@,
        TokenModel::SemiColon => ";"@,
        TokenModel::Plus => "+"@,
        TokenModel::Minus => "-"@,
        TokenModel::Star => "*"@,
        TokenModel::EQ => "="@,
        TokenModel::EOF => Seq::empty(),
    }
}

impl Token {
    /// The text this token is written as.
    pub fn render(&self) -> (r: String)
        ensures
            r@ == render(self@),
    {
        match self {
            Token::Import => String::from_str("import"),
            Token::From => String::from_str("from"),
            Token::Page => String::from_str("page"),
            Token::Layout => String::from_str("layout"),
            Token::Render => String::from_str("render"),
            Token::Functions => String::from_str("functions"),
            Token::Ident(s) => s.clone(),
            Token::StringLiteral(s) => {
                let mut r = String::from_str("\"");
                r.append(s.as_str());
                r.append("\"");
                r
            },
            Token::Number(s) => s.clone(),
            Token::Text(s) => s.clone(),
            Token::LBrace => String::from_str("{"),
            Token::RBrace => String::from_str("}"),
            Token::Colon => String::from_str(":"),
            Token::Comma => String::from_str(","),
            Token::LParen => String::from_str("("),
            Token::RParen => String::from_str(")"),
            Token::LT => String::from_str("<"),
            Token::GT => String::from_str(">"),
            Token::SlashGT => String::from_str("/>"),
            Token::Arrow => String::from_str("=>"),
            Token::Slash => String::from_str("/"),
            Token::SemiColon => String::from_str(";"),
            Token::Plus => String::from_str("+"),
            Token::Minus => String::from_str("-"),
            Token::Star => String::from_str("*"),
            Token::EQ => String::from_str("="),
            Token::EOF => String::new(),
        }
    }

    /// A copy of this token.
    pub fn duplicate(&self) -> (r: Token)
        ensures
            r@ == self@,
    {
        match self {
            Token::Ident(s) => Token::Ident(s.clone()),
            Token::StringLiteral(s) => Token::StringLiteral(s.clone()),
            Token::Number(s) => Token::Number(s.clone()),
            Token::Text(s) => Token::Text(s.clone()),
            Token::Import => Token::Import,
            Token::From => Token::From,
            Token::Page => Token::Page,
            Token::Layout => Token::Layout,
            Token::Render => Token::Render,
            Token::Functions => Token::Functions,
            Token::LBrace => Token::LBrace,
            Token::RBrace => Token::RBrace,
            Token::Colon => Token::Colon,
            Token::Comma => Token::Comma,
            Token::LParen => Token::LParen,
            Token::RParen => Token::RParen,
            Token::LT => Token::LT,
            Token::GT => Token::GT,
            Token::SlashGT => Token::SlashGT,
            Token::Arrow => Token::Arrow,
            Token::Slash => Token::Slash,
            Token::SemiColon => Token::SemiColon,
            Token::Plus => Token::Plus,
            Token::Minus => Token::Minus,
            Token::Star => Token::Star,
            Token::EQ => Token::EQ,
            Token::EOF => Token::EOF,
        }
    }
}

} // verus!
