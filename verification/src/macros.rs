//! The syntax of macro declarations: tokens, parameters, repetitions and
//! rules, as plain data.
use vstd::prelude::*;

verus! {

/// A syntax category: a keyword, a punctuation mark, or a token that carries
/// its own text.
pub enum TokenNode {
    Identifier(String),
    LiteralNumber(String),
    ShortString(String),
    String(String),
    As,
    Const,
    Else,
    Enum,
    Extern,
    False,
    Function,
    If,
    While,
    For,
    Loop,
    Impl,
    Implicits,
    Let,
    Macro,
    Match,
    Module,
    Mut,
    NoPanic,
    Of,
    Ref,
    Continue,
    Return,
    Break,
    Struct,
    Trait,
    True,
    Type,
    Use,
    Pub,
    And,
    AndAnd,
    Arrow,
    At,
    BadCharacters(String),
    Colon,
    ColonColon,
    Comma,
    Div,
    DivEq,
    Dollar,
    Dot,
    DotDot,
    DotDotEq,
    EndOfFile,
    Eq,
    EqEq,
    GE,
    GT,
    Hash,
    LBrace,
    LBrack,
    LE,
    LParen,
    LT,
    MatchArrow,
    Minus,
    MinusEq,
    Mod,
    ModEq,
    Mul,
    MulEq,
    Neq,
    Not,
    BitNot,
    Or,
    OrOr,
    Plus,
    PlusEq,
    QuestionMark,
    RBrace,
    RBrack,
    RParen,
    Semicolon,
    Underscore,
    Xor,
    Empty,
}

/// The kind of fragment that a macro parameter matches.
pub enum MacroParamKind {
    Identifier(String),
    Expr(String),
    Missing,
}

/// A macro parameter: `$name` or `$name:kind`.
pub struct MacroParam {
    pub name: String,
    pub kind: Option<MacroParamKind>,
}

/// How often a repetition may match.
pub enum MacroRepetitionOperator {
    ZeroOrOne,
    ZeroOrMore,
    OneOrMore,
    Missing,
}

/// A repetition: `$(elements)`, an optional comma, and the operator.
pub struct MacroRepetition {
    pub elements: Vec<MacroElement>,
    pub comma: bool,
    pub operator: MacroRepetitionOperator,
}

/// Elements between a pair of brackets.
pub enum WrappedMacro {
    Parenthesized(Vec<MacroElement>),
    Braced(Vec<MacroElement>),
    Bracketed(Vec<MacroElement>),
}

/// One element of a macro's pattern or expansion.
pub enum MacroElement {
    Token(TokenNode),
    Param(MacroParam),
    Subtree(WrappedMacro),
    Repetition(MacroRepetition),
}

/// A rule of a macro: the pattern, `=>`, and the expansion between braces.
pub struct MacroRule {
    pub lhs: MacroElement,
    pub rhs: Vec<MacroElement>,
}

/// A macro declaration. The attributes and the visibility are held as their
/// source text.
pub struct MacroDeclarationItem {
    pub attributes: String,
    pub visibility: String,
    pub name: String,
    pub rules: Vec<MacroRule>,
}

} // verus!
