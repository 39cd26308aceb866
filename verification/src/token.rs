//! Tokens: the closed set of kinds and the text each token carries.

use vstd::prelude::*;

verus! {

/// What a token is. The set is closed: every decision in the library is an
/// exhaustive match on it.
#[derive(Clone, Copy, Debug, PartialEq, Eq, Structural)]
pub enum TokenKind {
    Number,
    LeftParen,
    RightParen,
    Add,
    Sub,
    Mul,
    Div,
    Pow,
    Sin,
    Cos,
    Tan,
    Cot,
}

impl TokenKind {
    /// The five binary operators.
    pub open spec fn is_operator(self) -> bool {
        self is Add || self is Sub || self is Mul || self is Div || self is Pow
    }

    /// The four trigonometric functions.
    pub open spec fn is_function(self) -> bool {
        self is Sin || self is Cos || self is Tan || self is Cot
    }

    /// How tightly a kind binds. Parentheses sit below every operator, so no
    /// operator ever pops one by comparison.
    pub open spec fn precedence(self) -> int {
        match self {
            TokenKind::Pow => 3,
            TokenKind::Mul | TokenKind::Div => 2,
            TokenKind::Add | TokenKind::Sub => 1,
            TokenKind::LeftParen | TokenKind::RightParen => -1,
            _ => 0,
        }
    }

    /// The text that stands for a kind in an expression: empty for `Number`,
    /// whose text is its numeral.
    pub open spec fn symbol(self) -> Seq<char> {
        match self {
            TokenKind::Number => seq![],
            TokenKind::LeftParen => seq!['('],
            TokenKind::RightParen => seq![')'],
            TokenKind::Add => seq!['+'],
            TokenKind::Sub => seq!['-'],
            TokenKind::Mul => seq!['*'],
            TokenKind::Div => seq!['/'],
            TokenKind::Pow => seq!['^'],
            TokenKind::Sin => seq!['s', 'i', 'n'],
            TokenKind::Cos => seq!['c', 'o', 's'],
            TokenKind::Tan => seq!['t', 'g'],
            TokenKind::Cot => seq!['c', 't', 'g'],
        }
    }

    /// Whether the kind is one of the five binary operators.
    pub fn operator(self) -> (r: bool)
        ensures
            r == self.is_operator(),
    {
        match self {
            TokenKind::Add | TokenKind::Sub | TokenKind::Mul | TokenKind::Div | TokenKind::Pow => {
                true
            },
            _ => false,
        }
    }

    /// Whether the kind is one of the four trigonometric functions.
    pub fn function(self) -> (r: bool)
        ensures
            r == self.is_function(),
    {
        match self {
            TokenKind::Sin | TokenKind::Cos | TokenKind::Tan | TokenKind::Cot => true,
            _ => false,
        }
    }

    /// How tightly the kind binds.
    pub fn binding(self) -> (r: i8)
        ensures
            r == self.precedence(),
    {
        match self {
            TokenKind::Pow => 3,
            TokenKind::Mul | TokenKind::Div => 2,
            TokenKind::Add | TokenKind::Sub => 1,
            TokenKind::LeftParen | TokenKind::RightParen => -1,
            _ => 0,
        }
    }
}

/// A token as the contracts see it: its kind and its text as characters.
pub struct TokenView {
    pub kind: TokenKind,
    pub text: Seq<char>,
}

/// A token: a kind and the literal text it carries. For a `Number` the text is
/// a numeral; a constant's name never reaches a token, its stored numeral does.
#[derive(Clone, Debug, PartialEq, Eq)]
pub struct Token {
    pub kind: TokenKind,
    pub text: String,
}

impl View for Token {
    type V = TokenView;

    open spec fn view(&self) -> TokenView {
        TokenView { kind: self.kind, text: self.text@ }
    }
}

impl DeepView for Token {
    type V = TokenView;

    open spec fn deep_view(&self) -> TokenView {
        self@
    }
}

impl TokenView {
    /// The text agrees with the kind: an operator, parenthesis or function
    /// carries its own symbol. A `Number` may carry any text.
    pub open spec fn well_formed(self) -> bool {
        self.kind is Number || self.text == self.kind.symbol()
    }
}

impl Token {
    /// A token of this kind with this text.
    pub fn new(kind: TokenKind, text: String) -> (r: Token)
        ensures
            r@ == (TokenView { kind, text: text@ }),
    {
        Token { kind, text }
    }
}

} // verus!
