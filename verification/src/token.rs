//! Tokens: the classified lexical units of the language, and the fixed
//! classification tables (keywords, punctuation) shared by the lexer.

use vstd::prelude::*;
use vstd::string::StringExecFns;

verus! {

/// The closed set of token classes.
#[derive(Clone, Copy, Debug, PartialEq, Eq, Structural)]
pub enum TokenKind {
    Illegal,
    Eof,

    Ident,
    Int,

    Assign,
    Plus,
    Minus,
    Bang,
    Asterisk,
    Slash,

    Lt,
    Gt,

    Eq,
    NotEq,

    Comma,
    Semicolon,

    Lparen,
    Rparen,
    Lbrace,
    Rbrace,

    Function,
    Let,
    True,
    False,
    If,
    Else,
    Return,
}

/// A classified lexical unit: its class together with the exact source text
/// it was scanned from.
#[derive(Clone, Debug, PartialEq, Eq)]
pub struct Token {
    pub kind: TokenKind,
    pub literal: String,
}

/// The mathematical content of a [`Token`]: its class and the scanned text as
/// a sequence of characters.
pub struct SpecToken {
    pub kind: TokenKind,
    pub literal: Seq<char>,
}

impl View for Token {
    type V = SpecToken;

    open spec fn view(&self) -> SpecToken {
        SpecToken { kind: self.kind, literal: self.literal@ }
    }
}

/// The whitespace characters the scanner skips: space, tab, CR, LF.
pub open spec fn spec_is_whitespace(c: char) -> bool {
    c == ' ' || c == '\t' || c == '\r' || c == '\n'
}

/// The characters an identifier or keyword is made of.
pub open spec fn spec_is_letter(c: char) -> bool {
    ('a' as u32 <= c as u32 && c as u32 <= 'z' as u32) || ('A' as u32 <= c as u32 && c as u32
        <= 'Z' as u32) || c == '_'
}

/// The ASCII digits an integer literal is made of.
pub open spec fn spec_is_digit(c: char) -> bool {
    '0' as u32 <= c as u32 && c as u32 <= '9' as u32
}

/// The numeric value a digit character denotes.
pub open spec fn spec_digit_value(c: char) -> int {
    c as u32 - '0' as u32
}

/// Whether every character of `s` is an ASCII digit.
pub open spec fn spec_all_digits(s: Seq<char>) -> bool {
    forall|i: int| 0 <= i < s.len() ==> spec_is_digit(#[trigger] s[i])
}

/// The number a digit string denotes in base ten.
pub open spec fn spec_digits_val(s: Seq<char>) -> int
    decreases s.len(),
{
    if s.len() == 0 {
        0
    } else {
        spec_digits_val(s.drop_last()) * 10 + spec_digit_value(s.last())
    }
}

/// A digit string denotes a non-negative number.
pub proof fn lemma_digits_val_nonneg(s: Seq<char>)
    requires
        spec_all_digits(s),
    ensures
        spec_digits_val(s) >= 0,
    decreases s.len(),
{
    if s.len() > 0 {
        assert forall|i: int| 0 <= i < s.drop_last().len() implies spec_is_digit(
            #[trigger] s.drop_last()[i],
        ) by {
            assert(s.drop_last()[i] == s[i]);
        }
        lemma_digits_val_nonneg(s.drop_last());
    }
}

/// A prefix of a digit string denotes no more than the whole string.
pub proof fn lemma_digits_val_prefix(s: Seq<char>, i: int)
    requires
        spec_all_digits(s),
        0 <= i <= s.len(),
    ensures
        spec_digits_val(s.subrange(0, i)) <= spec_digits_val(s),
    decreases s.len() - i,
{
    if i < s.len() {
        let t = s.subrange(0, i + 1);
        assert(t.drop_last() =~= s.subrange(0, i));
        assert(t.last() == s[i]);
        assert forall|j: int| 0 <= j < s.subrange(0, i).len() implies spec_is_digit(
            #[trigger] s.subrange(0, i)[j],
        ) by {
            assert(s.subrange(0, i)[j] == s[j]);
        }
        lemma_digits_val_nonneg(s.subrange(0, i));
        lemma_digits_val_prefix(s, i + 1);
    } else {
        assert(s.subrange(0, s.len() as int) =~= s);
    }
}

/// The keyword table: the class of an identifier-shaped character run.
pub open spec fn spec_lookup_ident(s: Seq<char>) -> TokenKind {
    if s == "fn"@ {
        TokenKind::Function
    } else if s == "let"@ {
        TokenKind::Let
    } else if s == "if"@ {
        TokenKind::If
    } else if s == "else"@ {
        TokenKind::Else
    } else if s == "return"@ {
        TokenKind::Return
    } else if s == "true"@ {
        TokenKind::True
    } else if s == "false"@ {
        TokenKind::False
    } else {
        TokenKind::Ident
    }
}

/// The class of a single punctuation or operator character; any character
/// that starts no token class at all is `Illegal`.
pub open spec fn spec_char_kind(c: char) -> TokenKind {
    if c == '=' {
        TokenKind::Assign
    } else if c == '+' {
        TokenKind::Plus
    } else if c == '-' {
        TokenKind::Minus
    } else if c == '!' {
        TokenKind::Bang
    } else if c == '*' {
        TokenKind::Asterisk
    } else if c == '/' {
        TokenKind::Slash
    } else if c == '<' {
        TokenKind::Lt
    } else if c == '>' {
        TokenKind::Gt
    } else if c == ',' {
        TokenKind::Comma
    } else if c == ';' {
        TokenKind::Semicolon
    } else if c == '(' {
        TokenKind::Lparen
    } else if c == ')' {
        TokenKind::Rparen
    } else if c == '{' {
        TokenKind::Lbrace
    } else if c == '}' {
        TokenKind::Rbrace
    } else {
        TokenKind::Illegal
    }
}

/// What [`TokenKind::to_literal`] returns: the fixed two-character spelling
/// of the comparison operators, and the given character for every other kind.
pub open spec fn spec_to_literal(kind: TokenKind, c: char) -> Seq<char> {
    if kind == TokenKind::Eq {
        "=="@
    } else if kind == TokenKind::NotEq {
        "!="@
    } else {
        seq![c]
    }
}

/// What [`TokenKind::to_tok`] returns: the class of a one-token source
/// fragment, given one fragment of lookahead to tell `==` from `=` and
/// `!=` from `!`.
pub open spec fn spec_to_tok(s: Seq<char>, next: Seq<char>) -> TokenKind {
    if s == "="@ {
        if next == "="@ {
            TokenKind::Eq
        } else {
            TokenKind::Assign
        }
    } else if s == "!"@ {
        if next == "="@ {
            TokenKind::NotEq
        } else {
            TokenKind::Bang
        }
    } else if s == "+"@ {
        TokenKind::Plus
    } else if s == "-"@ {
        TokenKind::Minus
    } else if s == "*"@ {
        TokenKind::Asterisk
    } else if s == "/"@ {
        TokenKind::Slash
    } else if s == "<"@ {
        TokenKind::Lt
    } else if s == ">"@ {
        TokenKind::Gt
    } else if s == ","@ {
        TokenKind::Comma
    } else if s == ";"@ {
        TokenKind::Semicolon
    } else if s == "("@ {
        TokenKind::Lparen
    } else if s == ")"@ {
        TokenKind::Rparen
    } else if s == "{"@ {
        TokenKind::Lbrace
    } else if s == "}"@ {
        TokenKind::Rbrace
    } else if s == "fn"@ {
        TokenKind::Function
    } else if s == "let"@ {
        TokenKind::Let
    } else if s == "if"@ {
        TokenKind::If
    } else if s == "else"@ {
        TokenKind::Else
    } else if s == "return"@ {
        TokenKind::Return
    } else if s == "\u{0}"@ {
        TokenKind::Eof
    } else {
        TokenKind::Illegal
    }
}

/// The printable name of a token class, as it appears in syntax-error
/// messages.
pub open spec fn spec_kind_name(kind: TokenKind) -> Seq<char> {
    match kind {
        TokenKind::Illegal => "Illegal"@,
        TokenKind::Eof => "Eof"@,
        TokenKind::Ident => "Ident"@,
        TokenKind::Int => "Int"@,
        TokenKind::Assign => "Assign"@,
        TokenKind::Plus => "Plus"@,
        TokenKind::Minus => "Minus"@,
        TokenKind::Bang => "Bang"@,
        TokenKind::Asterisk => "Asterisk"@,
        TokenKind::Slash => "Slash"@,
        TokenKind::Lt => "Lt"@,
        TokenKind::Gt => "Gt"@,
        TokenKind::Eq => "Eq"@,
        TokenKind::NotEq => "NotEq"@,
        TokenKind::Comma => "Comma"@,
        TokenKind::Semicolon => "Semicolon"@,
        TokenKind::Lparen => "Lparen"@,
        TokenKind::Rparen => "Rparen"@,
        TokenKind::Lbrace => "Lbrace"@,
        TokenKind::Rbrace => "Rbrace"@,
        TokenKind::Function => "Function"@,
        TokenKind::Let => "Let"@,
        TokenKind::True => "True"@,
        TokenKind::False => "False"@,
        TokenKind::If => "If"@,
        TokenKind::Else => "Else"@,
        TokenKind::Return => "Return"@,
    }
}

/// Relies on `String::push`: appends exactly the given character to the end
/// of the string.
#[verifier::external_body]
pub(crate) fn push_char(s: &mut String, c: char)
    ensures
        final(s)@ == old(s)@ + seq![c],
{
    s.push(c);
}

/// Character-by-character string equality; `true` exactly when the two
/// strings hold the same character sequence.
pub fn str_eq(a: &str, b: &str) -> (r: bool)
    ensures
        r == (a@ == b@),
{
    let n = a.unicode_len();
    if n != b.unicode_len() {
        return false;
    }
    let mut i: usize = 0;
    while i < n
        invariant
            i <= n,
            n == a@.len(),
            n == b@.len(),
            forall|j: int| 0 <= j < i ==> a@[j] == b@[j],
        decreases n - i,
    {
        if a.get_char(i) != b.get_char(i) {
            return false;
        }
        i = i + 1;
    }
    proof {
        assert(a@ =~= b@);
    }
    true
}

impl TokenKind {
    /// Classify an identifier-shaped character run against the keyword table;
    /// anything that is not a keyword is an `Ident`.
    pub fn lookup_ident(name: &str) -> (kind: TokenKind)
        ensures
            kind == spec_lookup_ident(name@),
    {
        if str_eq(name, "fn") {
            TokenKind::Function
        } else if str_eq(name, "let") {
            TokenKind::Let
        } else if str_eq(name, "if") {
            TokenKind::If
        } else if str_eq(name, "else") {
            TokenKind::Else
        } else if str_eq(name, "return") {
            TokenKind::Return
        } else if str_eq(name, "true") {
            TokenKind::True
        } else if str_eq(name, "false") {
            TokenKind::False
        } else {
            TokenKind::Ident
        }
    }

    /// The source spelling of a token of this kind whose defining character is
    /// `literal`: the comparison operators spell themselves in full, every
    /// other kind spells its single character.
    pub fn to_literal(&self, literal: char) -> (r: String)
        ensures
            r@ == spec_to_literal(*self, literal),
    {
        if *self == TokenKind::Eq {
            return String::from_str("==");
        } else if *self == TokenKind::NotEq {
            return String::from_str("!=");
        }
        let mut s = String::new();
        push_char(&mut s, literal);
        s
    }

    /// Classify a one-token source fragment, with one fragment of lookahead to
    /// tell the two-character comparison operators from `=` and `!`.
    pub fn to_tok(s: &str, next_char: &str) -> (kind: Self)
        ensures
            kind == spec_to_tok(s@, next_char@),
    {
        if str_eq(s, "=") {
            if str_eq(next_char, "=") {
                return TokenKind::Eq;
            }
            TokenKind::Assign
        } else if str_eq(s, "!") {
            if str_eq(next_char, "=") {
                return TokenKind::NotEq;
            }
            TokenKind::Bang
        } else if str_eq(s, "+") {
            TokenKind::Plus
        } else if str_eq(s, "-") {
            TokenKind::Minus
        } else if str_eq(s, "*") {
            TokenKind::Asterisk
        } else if str_eq(s, "/") {
            TokenKind::Slash
        } else if str_eq(s, "<") {
            TokenKind::Lt
        } else if str_eq(s, ">") {
            TokenKind::Gt
        } else if str_eq(s, ",") {
            TokenKind::Comma
        } else if str_eq(s, ";") {
            TokenKind::Semicolon
        } else if str_eq(s, "(") {
            TokenKind::Lparen
        } else if str_eq(s, ")") {
            TokenKind::Rparen
        } else if str_eq(s, "{") {
            TokenKind::Lbrace
        } else if str_eq(s, "}") {
            TokenKind::Rbrace
        } else if str_eq(s, "fn") {
            TokenKind::Function
        } else if str_eq(s, "let") {
            TokenKind::Let
        } else if str_eq(s, "if") {
            TokenKind::If
        } else if str_eq(s, "else") {
            TokenKind::Else
        } else if str_eq(s, "return") {
            TokenKind::Return
        } else if str_eq(s, "\u{0}") {
            TokenKind::Eof
        } else {
            TokenKind::Illegal
        }
    }

    /// The token class of a single punctuation or operator character.
    pub fn of_char(c: char) -> (kind: TokenKind)
        ensures
            kind == spec_char_kind(c),
    {
        if c == '=' {
            TokenKind::Assign
        } else if c == '+' {
            TokenKind::Plus
        } else if c == '-' {
            TokenKind::Minus
        } else if c == '!' {
            TokenKind::Bang
        } else if c == '*' {
            TokenKind::Asterisk
        } else if c == '/' {
            TokenKind::Slash
        } else if c == '<' {
            TokenKind::Lt
        } else if c == '>' {
            TokenKind::Gt
        } else if c == ',' {
            TokenKind::Comma
        } else if c == ';' {
            TokenKind::Semicolon
        } else if c == '(' {
            TokenKind::Lparen
        } else if c == ')' {
            TokenKind::Rparen
        } else if c == '{' {
            TokenKind::Lbrace
        } else if c == '}' {
            TokenKind::Rbrace
        } else {
            TokenKind::Illegal
        }
    }

    /// The printable name of this token class, for diagnostics.
    pub fn name(&self) -> (r: String)
        ensures
            r@ == spec_kind_name(*self),
    {
        match *self {
            TokenKind::Illegal => String::from_str("Illegal"),
            TokenKind::Eof => String::from_str("Eof"),
            TokenKind::Ident => String::from_str("Ident"),
            TokenKind::Int => String::from_str("Int"),
            TokenKind::Assign => String::from_str("Assign"),
            TokenKind::Plus => String::from_str("Plus"),
            TokenKind::Minus => String::from_str("Minus"),
            TokenKind::Bang => String::from_str("Bang"),
            TokenKind::Asterisk => String::from_str("Asterisk"),
            TokenKind::Slash => String::from_str("Slash"),
            TokenKind::Lt => String::from_str("Lt"),
            TokenKind::Gt => String::from_str("Gt"),
            TokenKind::Eq => String::from_str("Eq"),
            TokenKind::NotEq => String::from_str("NotEq"),
            TokenKind::Comma => String::from_str("Comma"),
            TokenKind::Semicolon => String::from_str("Semicolon"),
            TokenKind::Lparen => String::from_str("Lparen"),
            TokenKind::Rparen => String::from_str("Rparen"),
            TokenKind::Lbrace => String::from_str("Lbrace"),
            TokenKind::Rbrace => String::from_str("Rbrace"),
            TokenKind::Function => String::from_str("Function"),
            TokenKind::Let => String::from_str("Let"),
            TokenKind::True => String::from_str("True"),
            TokenKind::False => String::from_str("False"),
            TokenKind::If => String::from_str("If"),
            TokenKind::Else => String::from_str("Else"),
            TokenKind::Return => String::from_str("Return"),
        }
    }
}

} // verus!
