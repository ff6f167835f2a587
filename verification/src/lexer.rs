//! The lexical analyzer: a single forward scan over the source text that
//! produces one classified token per call, with maximal munch for identifier
//! and number runs and one character of lookahead for `==` and `!=`.
//!
//! The scan itself is specified by the spec functions below
//! ([`spec_next_token`], [`spec_next_pos`]); [`Lexer::next_token`] is proved
//! to follow them exactly. The proof functions state the global laws of the
//! scan: it never moves backwards and classifies every character
//! ([`lemma_scan_progress`]); end of input is a terminal, idempotent state
//! ([`lemma_eof_terminal`]); and an unbroken letter or digit run is consumed
//! whole ([`lemma_letter_run_is_one_token`], [`lemma_digit_run_is_one_token`]).

use vstd::prelude::*;

use crate::token::{
    push_char, spec_char_kind, spec_is_digit, spec_is_letter, spec_is_whitespace,
    spec_lookup_ident, SpecToken, Token, TokenKind,
};

verus! {

/// The position reached by skipping the whitespace run that starts at `i`.
pub open spec fn spec_skip_ws(s: Seq<char>, i: int) -> int
    recommends
        0 <= i <= s.len(),
    decreases s.len() - i,
{
    if i < s.len() && spec_is_whitespace(s[i]) {
        spec_skip_ws(s, i + 1)
    } else {
        i
    }
}

/// The end of the letter run that starts at `i` (maximal munch).
pub open spec fn spec_letter_end(s: Seq<char>, i: int) -> int
    recommends
        0 <= i <= s.len(),
    decreases s.len() - i,
{
    if i < s.len() && spec_is_letter(s[i]) {
        spec_letter_end(s, i + 1)
    } else {
        i
    }
}

/// The end of the digit run that starts at `i` (maximal munch).
pub open spec fn spec_digit_end(s: Seq<char>, i: int) -> int
    recommends
        0 <= i <= s.len(),
    decreases s.len() - i,
{
    if i < s.len() && spec_is_digit(s[i]) {
        spec_digit_end(s, i + 1)
    } else {
        i
    }
}

/// The token scanned at a position `j` at which whitespace has already been
/// skipped: end of input yields `Eof`; `=` and `!` look one character ahead
/// for `=`; a letter starts an identifier or keyword run; a digit starts an
/// integer run; everything else is a single-character token, `Illegal` if it
/// starts no token class.
pub open spec fn spec_token_at(s: Seq<char>, j: int) -> SpecToken
    recommends
        0 <= j <= s.len(),
{
    if j >= s.len() {
        SpecToken { kind: TokenKind::Eof, literal: seq!['\u{0}'] }
    } else if s[j] == '=' && j + 1 < s.len() && s[j + 1] == '=' {
        SpecToken { kind: TokenKind::Eq, literal: "=="@ }
    } else if s[j] == '!' && j + 1 < s.len() && s[j + 1] == '=' {
        SpecToken { kind: TokenKind::NotEq, literal: "!="@ }
    } else if spec_is_letter(s[j]) {
        SpecToken {
            kind: spec_lookup_ident(s.subrange(j, spec_letter_end(s, j))),
            literal: s.subrange(j, spec_letter_end(s, j)),
        }
    } else if spec_is_digit(s[j]) {
        SpecToken { kind: TokenKind::Int, literal: s.subrange(j, spec_digit_end(s, j)) }
    } else {
        SpecToken { kind: spec_char_kind(s[j]), literal: seq![s[j]] }
    }
}

/// The position just after the token scanned at `j` (whitespace already
/// skipped there).
pub open spec fn spec_end_at(s: Seq<char>, j: int) -> int
    recommends
        0 <= j <= s.len(),
{
    if j >= s.len() {
        j
    } else if s[j] == '=' && j + 1 < s.len() && s[j + 1] == '=' {
        j + 2
    } else if s[j] == '!' && j + 1 < s.len() && s[j + 1] == '=' {
        j + 2
    } else if spec_is_letter(s[j]) {
        spec_letter_end(s, j)
    } else if spec_is_digit(s[j]) {
        spec_digit_end(s, j)
    } else {
        j + 1
    }
}

/// The token produced by one `next_token` call made at position `i`.
pub open spec fn spec_next_token(s: Seq<char>, i: int) -> SpecToken {
    spec_token_at(s, spec_skip_ws(s, i))
}

/// The position at which the scan stands after that call.
pub open spec fn spec_next_pos(s: Seq<char>, i: int) -> int {
    spec_end_at(s, spec_skip_ws(s, i))
}

proof fn lemma_skip_ws_bounds(s: Seq<char>, i: int)
    requires
        0 <= i <= s.len(),
    ensures
        i <= spec_skip_ws(s, i) <= s.len(),
    decreases s.len() - i,
{
    if i < s.len() && spec_is_whitespace(s[i]) {
        lemma_skip_ws_bounds(s, i + 1);
    }
}

proof fn lemma_letter_end_bounds(s: Seq<char>, i: int)
    requires
        0 <= i <= s.len(),
    ensures
        i <= spec_letter_end(s, i) <= s.len(),
        i < s.len() && spec_is_letter(s[i]) ==> spec_letter_end(s, i) >= i + 1,
    decreases s.len() - i,
{
    if i < s.len() && spec_is_letter(s[i]) {
        lemma_letter_end_bounds(s, i + 1);
    }
}

proof fn lemma_digit_end_bounds(s: Seq<char>, i: int)
    requires
        0 <= i <= s.len(),
    ensures
        i <= spec_digit_end(s, i) <= s.len(),
        i < s.len() && spec_is_digit(s[i]) ==> spec_digit_end(s, i) >= i + 1,
    decreases s.len() - i,
{
    if i < s.len() && spec_is_digit(s[i]) {
        lemma_digit_end_bounds(s, i + 1);
    }
}

/// Every position of every source string scans to some classified token, the
/// scan never moves backwards, and every token other than `Eof` consumes at
/// least one character; `Eof` is reported exactly at end of input.
pub proof fn lemma_scan_progress(s: Seq<char>, i: int)
    requires
        0 <= i <= s.len(),
    ensures
        i <= spec_skip_ws(s, i) <= spec_next_pos(s, i) <= s.len(),
        spec_next_token(s, i).kind == TokenKind::Eof <==> spec_skip_ws(s, i) == s.len(),
        spec_next_token(s, i).kind != TokenKind::Eof ==> spec_next_pos(s, i) >= spec_skip_ws(s, i) + 1,
{
    lemma_skip_ws_bounds(s, i);
    let j = spec_skip_ws(s, i);
    if j < s.len() {
        lemma_letter_end_bounds(s, j);
        lemma_digit_end_bounds(s, j);
    }
}

/// End of input is terminal and idempotent: once the scan reports `Eof` it
/// stands at the end of the source, and every later scan reports the same
/// `Eof` token from the same position.
pub proof fn lemma_eof_terminal(s: Seq<char>, i: int)
    requires
        0 <= i <= s.len(),
        spec_next_token(s, i).kind == TokenKind::Eof,
    ensures
        spec_next_pos(s, i) == s.len(),
        spec_next_token(s, spec_next_pos(s, i)) == spec_next_token(s, i),
        spec_next_pos(s, spec_next_pos(s, i)) == spec_next_pos(s, i),
{
    lemma_scan_progress(s, i);
}

/// The whole token stream the scan produces from position `i`: every token
/// in order, up to and including the final `Eof`.
pub open spec fn spec_tokens(s: Seq<char>, i: int) -> Seq<SpecToken>
    decreases s.len() - i
        when 0 <= i <= s.len()
        via spec_tokens_decreases
{
    if spec_next_token(s, i).kind == TokenKind::Eof {
        seq![spec_next_token(s, i)]
    } else {
        seq![spec_next_token(s, i)] + spec_tokens(s, spec_next_pos(s, i))
    }
}

#[via_fn]
proof fn spec_tokens_decreases(s: Seq<char>, i: int) {
    lemma_scan_progress(s, i);
}

proof fn lemma_letter_end_full(s: Seq<char>, j: int)
    requires
        0 <= j <= s.len(),
        forall|i: int| 0 <= i < s.len() ==> spec_is_letter(#[trigger] s[i]),
    ensures
        spec_letter_end(s, j) == s.len(),
    decreases s.len() - j,
{
    if j < s.len() {
        lemma_letter_end_full(s, j + 1);
    }
}

proof fn lemma_digit_end_full(s: Seq<char>, j: int)
    requires
        0 <= j <= s.len(),
        forall|i: int| 0 <= i < s.len() ==> spec_is_digit(#[trigger] s[i]),
    ensures
        spec_digit_end(s, j) == s.len(),
    decreases s.len() - j,
{
    if j < s.len() {
        lemma_digit_end_full(s, j + 1);
    }
}

/// Maximal munch: a source that is one unbroken letter run scans to a single
/// identifier-or-keyword token holding the whole text, followed by `Eof`.
pub proof fn lemma_letter_run_is_one_token(s: Seq<char>)
    requires
        s.len() > 0,
        forall|i: int| 0 <= i < s.len() ==> spec_is_letter(#[trigger] s[i]),
    ensures
        spec_tokens(s, 0) =~= seq![
            SpecToken { kind: spec_lookup_ident(s), literal: s },
            SpecToken { kind: TokenKind::Eof, literal: seq!['\u{0}'] },
        ],
{
    assert(spec_is_letter(s[0]));
    assert(!spec_is_whitespace(s[0]));
    assert(spec_skip_ws(s, 0) == 0);
    lemma_letter_end_full(s, 0);
    assert(s.subrange(0, s.len() as int) =~= s);
    assert(spec_next_token(s, 0).literal == s);
    assert(spec_next_token(s, 0).kind == spec_lookup_ident(s));
    assert(spec_next_token(s, 0).kind != TokenKind::Eof);
    assert(spec_next_pos(s, 0) == s.len());
    assert(spec_tokens(s, 0) == seq![spec_next_token(s, 0)] + spec_tokens(s, s.len() as int));
    assert(spec_skip_ws(s, s.len() as int) == s.len());
    assert(spec_next_token(s, s.len() as int).kind == TokenKind::Eof);
    assert(spec_tokens(s, s.len() as int) == seq![spec_next_token(s, s.len() as int)]);
}

/// Maximal munch: a source that is one unbroken digit run scans to a single
/// integer token holding the whole text, followed by `Eof`.
pub proof fn lemma_digit_run_is_one_token(s: Seq<char>)
    requires
        s.len() > 0,
        forall|i: int| 0 <= i < s.len() ==> spec_is_digit(#[trigger] s[i]),
    ensures
        spec_tokens(s, 0) =~= seq![
            SpecToken { kind: TokenKind::Int, literal: s },
            SpecToken { kind: TokenKind::Eof, literal: seq!['\u{0}'] },
        ],
{
    assert(spec_is_digit(s[0]));
    assert(!spec_is_whitespace(s[0]));
    assert(spec_skip_ws(s, 0) == 0);
    lemma_digit_end_full(s, 0);
    assert(s.subrange(0, s.len() as int) =~= s);
    assert(spec_next_token(s, 0).literal == s);
    assert(spec_next_token(s, 0).kind == TokenKind::Int);
    assert(spec_next_pos(s, 0) == s.len());
    assert(spec_tokens(s, 0) == seq![spec_next_token(s, 0)] + spec_tokens(s, s.len() as int));
    assert(spec_skip_ws(s, s.len() as int) == s.len());
    assert(spec_next_token(s, s.len() as int).kind == TokenKind::Eof);
    assert(spec_tokens(s, s.len() as int) == seq![spec_next_token(s, s.len() as int)]);
}

/// The lexer: the source text as characters, the scan position, the position
/// one character ahead, and the character under the scan position (NUL at
/// end of input).
pub struct Lexer {
    input: Vec<char>,
    position: usize,
    read_position: usize,
    ch: char,
}

impl Lexer {
    /// The source text under scan.
    pub closed spec fn src(&self) -> Seq<char> {
        self.input@
    }

    /// The current scan position.
    pub closed spec fn pos(&self) -> int {
        self.position as int
    }

    /// The cursor invariant: the position is inside the text or just past it,
    /// the read position is one ahead (saturating at the end), and `ch`
    /// caches the character under the position, NUL at end of input.
    pub closed spec fn wf(&self) -> bool {
        let n = self.input@.len() as int;
        &&& (self.position as int) <= n
        &&& ((self.position as int) < n ==> self.read_position as int == self.position as int + 1)
        &&& ((self.position as int) == n ==> self.read_position as int == n)
        &&& ((self.position as int) < n ==> self.ch == self.input@[self.position as int])
        &&& ((self.position as int) == n ==> self.ch == '\u{0}')
    }

    /// A well-formed lexer stands inside its source text or just past it.
    pub proof fn lemma_wf_pos(&self)
        requires
            self.wf(),
        ensures
            0 <= self.pos() <= self.src().len(),
    {
    }

    /// Build a lexer over the given source text, standing at its first
    /// character.
    pub fn new(input: &str) -> (lex: Lexer)
        ensures
            lex.wf(),
            lex.src() == input@,
            lex.pos() == 0,
    {
        let n = input.unicode_len();
        let mut chars: Vec<char> = Vec::new();
        let mut i: usize = 0;
        proof {
            assert(chars@ =~= input@.subrange(0, 0));
        }
        while i < n
            invariant
                i <= n,
                n == input@.len(),
                chars@ == input@.subrange(0, i as int),
            decreases n - i,
        {
            chars.push(input.get_char(i));
            proof {
                assert(chars@ =~= input@.subrange(0, i + 1));
            }
            i = i + 1;
        }
        proof {
            assert(chars@ =~= input@);
        }
        let mut lex = Lexer { input: chars, position: 0, read_position: 0, ch: '\u{0}' };
        lex.read_char();
        lex
    }

    /// Advance the cursor by one character; at end of input it stays put and
    /// `ch` reads NUL.
    fn read_char(&mut self)
        requires
            old(self).read_position as int <= old(self).input@.len(),
        ensures
            final(self).input@ == old(self).input@,
            final(self).wf(),
            (old(self).read_position as int) < old(self).input@.len() ==> final(self).position
                == old(self).read_position,
            (old(self).read_position as int) >= old(self).input@.len() ==> final(self).position as int
                == old(self).input@.len(),
    {
        if self.read_position >= self.input.len() {
            self.ch = '\u{0}';
            self.position = self.input.len();
            self.read_position = self.input.len();
        } else {
            self.ch = self.input[self.read_position];
            self.position = self.read_position;
            self.read_position = self.read_position + 1;
        }
    }

    /// Skip the whitespace run under the cursor.
    fn skip_whitespace(&mut self)
        requires
            old(self).wf(),
        ensures
            final(self).wf(),
            final(self).src() == old(self).src(),
            final(self).pos() == spec_skip_ws(old(self).src(), old(self).pos()),
    {
        while self.ch == ' ' || self.ch == '\t' || self.ch == '\r' || self.ch == '\n'
            invariant
                self.wf(),
                self.src() == old(self).src(),
                spec_skip_ws(self.src(), self.pos()) == spec_skip_ws(old(self).src(), old(self).pos()),
            decreases self.src().len() - self.pos(),
        {
            self.read_char();
        }
    }

    /// Whether `ch` can stand in an identifier or keyword.
    fn is_letter(ch: char) -> (r: bool)
        ensures
            r == spec_is_letter(ch),
    {
        let u = ch as u32;
        ('a' as u32 <= u && u <= 'z' as u32) || ('A' as u32 <= u && u <= 'Z' as u32) || ch == '_'
    }

    /// Whether `ch` is an ASCII digit.
    fn is_num(ch: char) -> (r: bool)
        ensures
            r == spec_is_digit(ch),
    {
        let u = ch as u32;
        '0' as u32 <= u && u <= '9' as u32
    }

    /// Consume the digit run under the cursor and return its text.
    fn read_num(&mut self) -> (num: String)
        requires
            old(self).wf(),
        ensures
            final(self).wf(),
            final(self).src() == old(self).src(),
            final(self).pos() == spec_digit_end(old(self).src(), old(self).pos()),
            num@ == old(self).src().subrange(old(self).pos(), final(self).pos()),
    {
        let mut num = String::new();
        while Self::is_num(self.ch)
            invariant
                self.wf(),
                self.src() == old(self).src(),
                old(self).pos() <= self.pos(),
                spec_digit_end(self.src(), self.pos()) == spec_digit_end(
                    old(self).src(),
                    old(self).pos(),
                ),
                num@ == self.src().subrange(old(self).pos(), self.pos()),
            decreases self.src().len() - self.pos(),
        {
            push_char(&mut num, self.ch);
            self.read_char();
            proof {
                assert(num@ =~= self.src().subrange(old(self).pos(), self.pos()));
            }
        }
        num
    }

    /// Consume the letter run under the cursor and return its text.
    fn read_identifier(&mut self) -> (ident: String)
        requires
            old(self).wf(),
        ensures
            final(self).wf(),
            final(self).src() == old(self).src(),
            final(self).pos() == spec_letter_end(old(self).src(), old(self).pos()),
            ident@ == old(self).src().subrange(old(self).pos(), final(self).pos()),
    {
        let mut ident = String::new();
        while Self::is_letter(self.ch)
            invariant
                self.wf(),
                self.src() == old(self).src(),
                old(self).pos() <= self.pos(),
                spec_letter_end(self.src(), self.pos()) == spec_letter_end(
                    old(self).src(),
                    old(self).pos(),
                ),
                ident@ == self.src().subrange(old(self).pos(), self.pos()),
            decreases self.src().len() - self.pos(),
        {
            push_char(&mut ident, self.ch);
            self.read_char();
            proof {
                assert(ident@ =~= self.src().subrange(old(self).pos(), self.pos()));
            }
        }
        ident
    }

    /// Produce the next token and advance past it. The scan follows
    /// [`spec_next_token`] exactly: it never fails, never moves backwards,
    /// and keeps returning `Eof` from the end of the input.
    pub fn next_token(&mut self) -> (tok: Token)
        requires
            old(self).wf(),
        ensures
            final(self).wf(),
            final(self).src() == old(self).src(),
            tok@ == spec_next_token(old(self).src(), old(self).pos()),
            final(self).pos() == spec_next_pos(old(self).src(), old(self).pos()),
    {
        self.skip_whitespace();
        if self.position >= self.input.len() {
            let kind = TokenKind::Eof;
            let literal = kind.to_literal('\u{0}');
            return Token { kind, literal };
        }
        let c = self.ch;
        if Self::is_letter(c) {
            let literal = self.read_identifier();
            let kind = TokenKind::lookup_ident(literal.as_str());
            return Token { kind, literal };
        }
        if Self::is_num(c) {
            let literal = self.read_num();
            return Token { kind: TokenKind::Int, literal };
        }
        if (c == '=' || c == '!') && self.read_position < self.input.len() {
            let peeked = self.input[self.read_position];
            if peeked == '=' {
                let kind = if c == '=' {
                    TokenKind::Eq
                } else {
                    TokenKind::NotEq
                };
                let literal = kind.to_literal(c);
                self.read_char();
                self.read_char();
                return Token { kind, literal };
            }
        }
        let kind = TokenKind::of_char(c);
        let literal = kind.to_literal(c);
        self.read_char();
        Token { kind, literal }
    }
}

} // verus!

