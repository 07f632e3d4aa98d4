//! The lexer: from source text to spanned tokens.
//!
//! The grammar of tokens is written down as spec functions over the
//! characters of the source; `lexer` is proved to compute exactly what they
//! say.

use crate::ast::Span;
use crate::text::{chars_of, string_of};
use vstd::prelude::*;

verus! {

/// One token. `S` is the type of the text that a token carries: `String` in
/// compiled code, `Seq<char>` in contracts.
#[derive(Debug, Clone, PartialEq, Eq)]
pub enum Token<S> {
    Keyword(Keyword),
    /// A number, as the text that wrote it
    Number(S),
    /// A string literal, as the text between its quotes, with `""` where the
    /// string holds a quote
    String(S),
    Identifier(S),
    OpAssign,
    OpPlus,
    OpMinus,
    OpTimes,
    OpDivide,
    OpMod,
    OpPower,
    OpEqual,
    OpNotEqual,
    OpGreater,
    OpGreatEqual,
    OpLesser,
    OpLessEqual,
    OpAssignPlus,
    OpAssignMinus,
    OpAssignTimes,
    OpAssignDivide,
    OpAssignMod,
    OpAssignPower,
    LParen,
    RParen,
    LSquare,
    RSquare,
    LCurly,
    RCurly,
    AddressOf,
    Comma,
    Dot,
    Colon,
    /// A comment, as the text after `//`
    Comment(S),
    /// The quiet line terminator: a line break
    EOL,
    /// The loud line terminator: `;`
    Semicolon,
    /// `++`, which the language does not have; lexed so that the parser can
    /// say so
    OpIncrement,
    /// `--`, which the language does not have
    OpDecrement,
}

impl View for Token<String> {
    type V = Token<Seq<char>>;

    open spec fn view(&self) -> Token<Seq<char>> {
        match *self {
            Token::Keyword(k) => Token::Keyword(k),
            Token::Number(s) => Token::Number(s@),
            Token::String(s) => Token::String(s@),
            Token::Identifier(s) => Token::Identifier(s@),
            Token::OpAssign => Token::OpAssign,
            Token::OpPlus => Token::OpPlus,
            Token::OpMinus => Token::OpMinus,
            Token::OpTimes => Token::OpTimes,
            Token::OpDivide => Token::OpDivide,
            Token::OpMod => Token::OpMod,
            Token::OpPower => Token::OpPower,
            Token::OpEqual => Token::OpEqual,
            Token::OpNotEqual => Token::OpNotEqual,
            Token::OpGreater => Token::OpGreater,
            Token::OpGreatEqual => Token::OpGreatEqual,
            Token::OpLesser => Token::OpLesser,
            Token::OpLessEqual => Token::OpLessEqual,
            Token::OpAssignPlus => Token::OpAssignPlus,
            Token::OpAssignMinus => Token::OpAssignMinus,
            Token::OpAssignTimes => Token::OpAssignTimes,
            Token::OpAssignDivide => Token::OpAssignDivide,
            Token::OpAssignMod => Token::OpAssignMod,
            Token::OpAssignPower => Token::OpAssignPower,
            Token::LParen => Token::LParen,
            Token::RParen => Token::RParen,
            Token::LSquare => Token::LSquare,
            Token::RSquare => Token::RSquare,
            Token::LCurly => Token::LCurly,
            Token::RCurly => Token::RCurly,
            Token::AddressOf => Token::AddressOf,
            Token::Comma => Token::Comma,
            Token::Dot => Token::Dot,
            Token::Colon => Token::Colon,
            Token::Comment(s) => Token::Comment(s@),
            Token::EOL => Token::EOL,
            Token::Semicolon => Token::Semicolon,
            Token::OpIncrement => Token::OpIncrement,
            Token::OpDecrement => Token::OpDecrement,
        }
    }
}

/// The reserved words.
#[derive(Debug, Clone, Copy, PartialEq, Eq, Structural)]
pub enum Keyword {
    Break,
    Continue,
    End,
    If,
    Then,
    Else,
    For,
    In,
    While,
    Function,
    Isa,
    New,
    Null,
    Return,
    And,
    Or,
    Not,
    True,
    False,
    /// Reserved, without a meaning yet
    Repeat,
}

/// The keyword that `text` spells, if it spells one.
pub open spec fn keyword_of(text: Seq<char>) -> Option<Keyword> {
    if text == "break"@ {
        Some(Keyword::Break)
    } else if text == "continue"@ {
        Some(Keyword::Continue)
    } else if text == "end"@ {
        Some(Keyword::End)
    } else if text == "if"@ {
        Some(Keyword::If)
    } else if text == "then"@ {
        Some(Keyword::Then)
    } else if text == "else"@ {
        Some(Keyword::Else)
    } else if text == "for"@ {
        Some(Keyword::For)
    } else if text == "in"@ {
        Some(Keyword::In)
    } else if text == "while"@ {
        Some(Keyword::While)
    } else if text == "function"@ {
        Some(Keyword::Function)
    } else if text == "isa"@ {
        Some(Keyword::Isa)
    } else if text == "new"@ {
        Some(Keyword::New)
    } else if text == "null"@ {
        Some(Keyword::Null)
    } else if text == "return"@ {
        Some(Keyword::Return)
    } else if text == "and"@ {
        Some(Keyword::And)
    } else if text == "or"@ {
        Some(Keyword::Or)
    } else if text == "not"@ {
        Some(Keyword::Not)
    } else if text == "true"@ {
        Some(Keyword::True)
    } else if text == "false"@ {
        Some(Keyword::False)
    } else if text == "repeat"@ {
        Some(Keyword::Repeat)
    } else {
        None
    }
}

/// Whether the characters `chars[from..to]` spell `word`.
fn spells(chars: &Vec<char>, from: usize, to: usize, word: &str) -> (same: bool)
    requires
        from <= to <= chars@.len(),
    ensures
        same == (chars@.subrange(from as int, to as int) == word@),
{
    let n = word.unicode_len();
    if to - from != n {
        return false;
    }
    let mut i: usize = 0;
    while i < n
        invariant
            from <= to <= chars@.len(),
            to - from == n,
            n == word@.len(),
            i <= n,
            forall|j: int| 0 <= j < i ==> chars@[from + j] == word@[j],
        decreases n - i,
    {
        if chars[from + i] != word.get_char(i) {
            assert(chars@.subrange(from as int, to as int)[i as int] != word@[i as int]);
            return false;
        }
        i += 1;
    }
    assert(chars@.subrange(from as int, to as int) =~= word@);
    true
}

impl Keyword {
    /// The token that holds this keyword.
    pub fn token(&self) -> (token: Token<String>)
        ensures
            token@ == Token::<Seq<char>>::Keyword(*self),
    {
        Token::Keyword(*self)
    }

    /// The keyword that `chars[from..to]` spells, if it spells one.
    pub fn lookup(chars: &Vec<char>, from: usize, to: usize) -> (found: Option<Keyword>)
        requires
            from <= to <= chars@.len(),
        ensures
            found == keyword_of(chars@.subrange(from as int, to as int)),
    {
        if spells(chars, from, to, "break") {
            Some(Keyword::Break)
        } else if spells(chars, from, to, "continue") {
            Some(Keyword::Continue)
        } else if spells(chars, from, to, "end") {
            Some(Keyword::End)
        } else if spells(chars, from, to, "if") {
            Some(Keyword::If)
        } else if spells(chars, from, to, "then") {
            Some(Keyword::Then)
        } else if spells(chars, from, to, "else") {
            Some(Keyword::Else)
        } else if spells(chars, from, to, "for") {
            Some(Keyword::For)
        } else if spells(chars, from, to, "in") {
            Some(Keyword::In)
        } else if spells(chars, from, to, "while") {
            Some(Keyword::While)
        } else if spells(chars, from, to, "function") {
            Some(Keyword::Function)
        } else if spells(chars, from, to, "isa") {
            Some(Keyword::Isa)
        } else if spells(chars, from, to, "new") {
            Some(Keyword::New)
        } else if spells(chars, from, to, "null") {
            Some(Keyword::Null)
        } else if spells(chars, from, to, "return") {
            Some(Keyword::Return)
        } else if spells(chars, from, to, "and") {
            Some(Keyword::And)
        } else if spells(chars, from, to, "or") {
            Some(Keyword::Or)
        } else if spells(chars, from, to, "not") {
            Some(Keyword::Not)
        } else if spells(chars, from, to, "true") {
            Some(Keyword::True)
        } else if spells(chars, from, to, "false") {
            Some(Keyword::False)
        } else if spells(chars, from, to, "repeat") {
            Some(Keyword::Repeat)
        } else {
            None
        }
    }
}

/// Code points above this one may stand in an identifier.
pub const UNICODE_FALLOFF: u32 = 0x9F;

/// Why the lexer could not read a token.
#[derive(Debug, Clone, Copy, PartialEq, Eq, Structural)]
pub enum LexErrorKind {
    /// No token starts with this character.
    UnexpectedCharacter,
    /// A string literal opens here and no quote closes it.
    UnterminatedString,
}

/// A character at which no token starts, with the reason.
#[derive(Debug, Clone, Copy, PartialEq, Eq, Structural)]
pub struct LexError {
    /// The offending character
    pub span: Span,
    pub kind: LexErrorKind,
}

impl LexErrorKind {
    /// The fixed wording of the reason.
    pub open spec fn spec_reason(&self) -> Seq<char> {
        match *self {
            LexErrorKind::UnexpectedCharacter => "unexpected character"@,
            LexErrorKind::UnterminatedString => "unterminated string literal"@,
        }
    }

    /// The fixed wording of the reason.
    pub fn reason(&self) -> (text: String)
        ensures
            text@ == self.spec_reason(),
    {
        match self {
            LexErrorKind::UnexpectedCharacter => "unexpected character".to_owned(),
            LexErrorKind::UnterminatedString => "unterminated string literal".to_owned(),
        }
    }
}

/// The number of bytes that UTF-8 takes for `c`.
pub open spec fn utf8_width(c: char) -> int {
    if (c as u32) < 0x80 {
        1
    } else if (c as u32) < 0x800 {
        2
    } else if (c as u32) < 0x10000 {
        3
    } else {
        4
    }
}

/// The byte at which character `index` starts in the UTF-8 form of `chars`.
pub open spec fn byte_offset(chars: Seq<char>, index: int) -> int
    decreases index,
{
    if index <= 0 {
        0
    } else {
        byte_offset(chars, index - 1) + utf8_width(chars[index - 1])
    }
}

/// `n` as a `usize`, or the largest `usize` where `n` is beyond it.
pub open spec fn clip(n: int) -> usize {
    if n > usize::MAX {
        usize::MAX
    } else if n < 0 {
        0usize
    } else {
        n as usize
    }
}

/// The byte range of the characters `chars[from..to]`. An offset that no
/// `usize` holds is given as the largest `usize`.
pub open spec fn span_of(chars: Seq<char>, from: int, to: int) -> Span {
    Span { start: clip(byte_offset(chars, from)), end: clip(byte_offset(chars, to)) }
}

/// Whether `c` is a decimal digit.
pub open spec fn is_digit(c: char) -> bool {
    0x30 <= (c as u32) <= 0x39
}

/// Whether `c` is a letter of ASCII.
pub open spec fn is_ascii_letter(c: char) -> bool {
    (0x41 <= (c as u32) <= 0x5A) || (0x61 <= (c as u32) <= 0x7A)
}

/// Whether an identifier may start with `c`: an ASCII letter, `_`, or any
/// code point above `UNICODE_FALLOFF`.
pub open spec fn is_ident_start(c: char) -> bool {
    is_ascii_letter(c) || c == '_' || (c as u32) > UNICODE_FALLOFF
}

/// Whether an identifier may go on with `c`: what may start one, or a digit.
pub open spec fn is_ident_continue(c: char) -> bool {
    is_ident_start(c) || is_digit(c)
}

/// Whether `c` has the Unicode property White_Space.
pub open spec fn is_whitespace(c: char) -> bool {
    let u = c as u32;
    (0x09 <= u <= 0x0D) || u == 0x20 || u == 0x85 || u == 0xA0 || u == 0x1680 || (0x2000 <= u
        <= 0x200A) || u == 0x2028 || u == 0x2029 || u == 0x202F || u == 0x205F || u == 0x3000
}

/// Whether `c` is dropped between tokens: white space other than the line
/// break.
pub open spec fn is_padding(c: char) -> bool {
    is_whitespace(c) && c != '\n'
}

/// Whether `chars` holds `c` at `pos`.
pub open spec fn char_at(chars: Seq<char>, pos: int, c: char) -> bool {
    0 <= pos < chars.len() && chars[pos] == c
}

/// Whether `chars` holds a digit at `pos`.
pub open spec fn digit_at(chars: Seq<char>, pos: int) -> bool {
    0 <= pos < chars.len() && is_digit(chars[pos])
}

/// The end of the run of digits that starts at `pos`.
pub open spec fn digits_end(chars: Seq<char>, pos: int) -> int
    decreases chars.len() - pos,
{
    if digit_at(chars, pos) {
        digits_end(chars, pos + 1)
    } else {
        pos
    }
}

/// The end of the number that starts at `pos`: an optional `-`, digits, an
/// optional `.` with optional digits, an optional exponent (`e` or `E`, an
/// optional sign, digits). `None` where no digit follows the optional `-`.
pub open spec fn number_end(chars: Seq<char>, pos: int) -> Option<int> {
    let start = if char_at(chars, pos, '-') {
        pos + 1
    } else {
        pos
    };
    if !digit_at(chars, start) {
        None
    } else {
        let whole = digits_end(chars, start);
        let frac = if char_at(chars, whole, '.') {
            digits_end(chars, whole + 1)
        } else {
            whole
        };
        let power = if char_at(chars, frac + 1, '+') || char_at(chars, frac + 1, '-') {
            frac + 2
        } else {
            frac + 1
        };
        if (char_at(chars, frac, 'e') || char_at(chars, frac, 'E')) && digit_at(chars, power) {
            Some(digits_end(chars, power))
        } else {
            Some(frac)
        }
    }
}

/// The place of the quote that closes a string whose text goes on at `pos`:
/// the first `"` that no second `"` follows, pairs being taken from the left.
pub open spec fn string_close(chars: Seq<char>, pos: int) -> Option<int>
    decreases chars.len() - pos,
{
    if pos < 0 || pos >= chars.len() {
        None
    } else if chars[pos] != '"' {
        string_close(chars, pos + 1)
    } else if char_at(chars, pos + 1, '"') {
        string_close(chars, pos + 2)
    } else {
        Some(pos)
    }
}

/// The end of the run of identifier characters that starts at `pos`.
pub open spec fn ident_end(chars: Seq<char>, pos: int) -> int
    decreases chars.len() - pos,
{
    if 0 <= pos < chars.len() && is_ident_continue(chars[pos]) {
        ident_end(chars, pos + 1)
    } else {
        pos
    }
}

/// The end of the identifier that starts at `pos`, if one starts there.
pub open spec fn ident_at(chars: Seq<char>, pos: int) -> Option<int> {
    if 0 <= pos < chars.len() && is_ident_start(chars[pos]) {
        Some(ident_end(chars, pos + 1))
    } else {
        None
    }
}

/// The end of the line that holds `pos`: the place of the next line break, or
/// the end of the text.
pub open spec fn line_end(chars: Seq<char>, pos: int) -> int
    decreases chars.len() - pos,
{
    if 0 <= pos < chars.len() && chars[pos] != '\n' {
        line_end(chars, pos + 1)
    } else {
        pos
    }
}

/// The operator or punctuation mark at `pos` with its length. Two-character
/// operators win over their first character.
pub open spec fn symbol_at(chars: Seq<char>, pos: int) -> Option<(Token<Seq<char>>, int)> {
    if !(0 <= pos < chars.len()) {
        None
    } else {
        let c = chars[pos];
        if c == '+' {
            if char_at(chars, pos + 1, '+') {
                Some((Token::OpIncrement, 2))
            } else if char_at(chars, pos + 1, '=') {
                Some((Token::OpAssignPlus, 2))
            } else {
                Some((Token::OpPlus, 1))
            }
        } else if c == '-' {
            if char_at(chars, pos + 1, '-') {
                Some((Token::OpDecrement, 2))
            } else if char_at(chars, pos + 1, '=') {
                Some((Token::OpAssignMinus, 2))
            } else {
                Some((Token::OpMinus, 1))
            }
        } else if c == '=' {
            if char_at(chars, pos + 1, '=') {
                Some((Token::OpEqual, 2))
            } else {
                Some((Token::OpAssign, 1))
            }
        } else if c == '!' {
            if char_at(chars, pos + 1, '=') {
                Some((Token::OpNotEqual, 2))
            } else {
                None
            }
        } else if c == '>' {
            if char_at(chars, pos + 1, '=') {
                Some((Token::OpGreatEqual, 2))
            } else {
                Some((Token::OpGreater, 1))
            }
        } else if c == '<' {
            if char_at(chars, pos + 1, '=') {
                Some((Token::OpLessEqual, 2))
            } else {
                Some((Token::OpLesser, 1))
            }
        } else if c == '*' {
            if char_at(chars, pos + 1, '=') {
                Some((Token::OpAssignTimes, 2))
            } else {
                Some((Token::OpTimes, 1))
            }
        } else if c == '/' {
            if char_at(chars, pos + 1, '=') {
                Some((Token::OpAssignDivide, 2))
            } else {
                Some((Token::OpDivide, 1))
            }
        } else if c == '%' {
            if char_at(chars, pos + 1, '=') {
                Some((Token::OpAssignMod, 2))
            } else {
                Some((Token::OpMod, 1))
            }
        } else if c == '^' {
            if char_at(chars, pos + 1, '=') {
                Some((Token::OpAssignPower, 2))
            } else {
                Some((Token::OpPower, 1))
            }
        } else if c == '(' {
            Some((Token::LParen, 1))
        } else if c == ')' {
            Some((Token::RParen, 1))
        } else if c == '[' {
            Some((Token::LSquare, 1))
        } else if c == ']' {
            Some((Token::RSquare, 1))
        } else if c == '{' {
            Some((Token::LCurly, 1))
        } else if c == '}' {
            Some((Token::RCurly, 1))
        } else if c == '.' {
            Some((Token::Dot, 1))
        } else if c == ',' {
            Some((Token::Comma, 1))
        } else if c == ':' {
            Some((Token::Colon, 1))
        } else if c == '@' {
            Some((Token::AddressOf, 1))
        } else {
            None
        }
    }
}

/// The token that starts at `pos` and the place where it ends. The kinds are
/// tried in this order: number, string, identifier or keyword, comment, line
/// break, semicolon, operator or punctuation.
pub open spec fn scan(chars: Seq<char>, pos: int) -> Option<(Token<Seq<char>>, int)> {
    if !(0 <= pos < chars.len()) {
        None
    } else if number_end(chars, pos) is Some {
        let end = number_end(chars, pos)->0;
        Some((Token::Number(chars.subrange(pos, end)), end))
    } else if chars[pos] == '"' {
        match string_close(chars, pos + 1) {
            Some(close) => Some((Token::String(chars.subrange(pos + 1, close)), close + 1)),
            None => None,
        }
    } else if ident_at(chars, pos) is Some {
        let end = ident_at(chars, pos)->0;
        let text = chars.subrange(pos, end);
        match keyword_of(text) {
            Some(keyword) => Some((Token::Keyword(keyword), end)),
            None => Some((Token::Identifier(text), end)),
        }
    } else if chars[pos] == '/' && char_at(chars, pos + 1, '/') {
        let end = line_end(chars, pos + 2);
        Some((Token::Comment(chars.subrange(pos + 2, end)), end))
    } else if chars[pos] == '\n' {
        Some((Token::EOL, pos + 1))
    } else if chars[pos] == ';' {
        Some((Token::Semicolon, pos + 1))
    } else {
        match symbol_at(chars, pos) {
            Some((token, len)) => Some((token, pos + len)),
            None => None,
        }
    }
}

/// The error that the lexer reports where no token starts at `pos`.
pub open spec fn error_at(chars: Seq<char>, pos: int) -> LexError {
    LexError {
        span: span_of(chars, pos, pos + 1),
        kind: if chars[pos] == '"' {
            LexErrorKind::UnterminatedString
        } else {
            LexErrorKind::UnexpectedCharacter
        },
    }
}

/// What the lexer makes of a text: its tokens, and the characters at which it
/// found none.
pub struct Lexed {
    pub tokens: Seq<(Token<Seq<char>>, Span)>,
    pub errors: Seq<LexError>,
}

/// The tokens and errors of `chars` from `pos` on. Padding is dropped; where a
/// token starts it is taken whole; where none starts the character is
/// reported and skipped.
pub open spec fn lex_from(chars: Seq<char>, pos: int) -> Lexed
    decreases chars.len() - pos,
{
    if pos < 0 || pos >= chars.len() {
        Lexed { tokens: Seq::empty(), errors: Seq::empty() }
    } else if is_padding(chars[pos]) {
        lex_from(chars, pos + 1)
    } else {
        match scan(chars, pos) {
            Some((token, end)) if pos < end <= chars.len() => {
                let rest = lex_from(chars, end);
                Lexed {
                    tokens: seq![(token, span_of(chars, pos, end))] + rest.tokens,
                    errors: rest.errors,
                }
            },
            _ => {
                let rest = lex_from(chars, pos + 1);
                Lexed { tokens: rest.tokens, errors: seq![error_at(chars, pos)] + rest.errors }
            },
        }
    }
}

/// The tokens and errors of a whole text.
pub open spec fn lex(chars: Seq<char>) -> Lexed {
    lex_from(chars, 0)
}

/// A `-` that no digit follows is no number: the lexer reads it as an
/// operator, and leaves it to the parser to tell negation from subtraction.
pub proof fn lone_minus_is_no_number(chars: Seq<char>, pos: int)
    requires
        char_at(chars, pos, '-'),
        !digit_at(chars, pos + 1),
    ensures
        number_end(chars, pos) is None,
        scan(chars, pos) == (if char_at(chars, pos + 1, '-') {
            Some((Token::<Seq<char>>::OpDecrement, pos + 2))
        } else if char_at(chars, pos + 1, '=') {
            Some((Token::<Seq<char>>::OpAssignMinus, pos + 2))
        } else {
            Some((Token::<Seq<char>>::OpMinus, pos + 1))
        }),
{
}

/// The text of a number lexes to one token, which is a number and carries
/// the text as it is written.
pub proof fn number_lexes_to_itself(chars: Seq<char>)
    requires
        number_end(chars, 0) == Some(chars.len() as int),
    ensures
        lex(chars).errors.len() == 0,
        lex(chars).tokens == seq![
            (Token::<Seq<char>>::Number(chars), span_of(chars, 0, chars.len() as int)),
        ],
{
    assert(chars.len() > 0);
    assert(!is_padding(chars[0]));
    assert(chars.subrange(0, chars.len() as int) =~= chars);
    let rest = lex_from(chars, chars.len() as int);
    assert(rest.tokens =~= Seq::empty());
    assert(lex(chars).tokens =~= seq![
        (Token::<Seq<char>>::Number(chars), span_of(chars, 0, chars.len() as int)),
    ]);
}

/// The run of digits of a text is where it was when something is put before
/// the text.
pub proof fn digits_end_after(before: Seq<char>, chars: Seq<char>, pos: int)
    requires
        0 <= pos,
    ensures
        digits_end(before + chars, before.len() + pos) == before.len() + digits_end(chars, pos),
    decreases chars.len() - pos,
{
    let all = before + chars;
    if pos < chars.len() {
        assert(all[before.len() + pos] == chars[pos]);
        if is_digit(chars[pos]) {
            digits_end_after(before, chars, pos + 1);
        }
    }
}

/// A number ends where it did when something is put before its text.
pub proof fn number_end_after(before: Seq<char>, chars: Seq<char>)
    requires
        number_end(chars, 0) is Some,
    ensures
        number_end(before + chars, before.len() as int) == Some(
            before.len() + number_end(chars, 0)->0,
        ),
{
    let all = before + chars;
    let shift = before.len() as int;
    assert forall|i: int| 0 <= i < chars.len() implies all[shift + i] == chars[i] by {}
    assert forall|i: int, c: char| 0 <= i implies char_at(all, shift + i, c) == char_at(
        chars,
        i,
        c,
    ) by {
        if i < chars.len() {
            assert(all[shift + i] == chars[i]);
        }
    }
    assert forall|i: int| 0 <= i implies digit_at(all, shift + i) == digit_at(chars, i) by {
        if i < chars.len() {
            assert(all[shift + i] == chars[i]);
        }
    }
    let start = if char_at(chars, 0, '-') {
        1int
    } else {
        0int
    };
    assert(char_at(all, shift + 0, '-') == char_at(chars, 0, '-'));
    assert(digit_at(all, shift + start) == digit_at(chars, start));
    digits_end_after(before, chars, start);
    let whole = digits_end(chars, start);
    digits_end_nonnegative(chars, start);
    assert(char_at(all, shift + whole, '.') == char_at(chars, whole, '.'));
    digits_end_after(before, chars, whole + 1);
    let frac = if char_at(chars, whole, '.') {
        digits_end(chars, whole + 1)
    } else {
        whole
    };
    digits_end_nonnegative(chars, whole + 1);
    assert(char_at(all, shift + frac, 'e') == char_at(chars, frac, 'e'));
    assert(char_at(all, shift + frac, 'E') == char_at(chars, frac, 'E'));
    assert(char_at(all, shift + (frac + 1), '+') == char_at(chars, frac + 1, '+'));
    assert(char_at(all, shift + (frac + 1), '-') == char_at(chars, frac + 1, '-'));
    let power = if char_at(chars, frac + 1, '+') || char_at(chars, frac + 1, '-') {
        frac + 2
    } else {
        frac + 1
    };
    assert(digit_at(all, shift + power) == digit_at(chars, power));
    digits_end_after(before, chars, power);
}

/// A run of digits ends at or after its start.
pub proof fn digits_end_nonnegative(chars: Seq<char>, pos: int)
    ensures
        digits_end(chars, pos) >= pos,
    decreases chars.len() - pos,
{
    if digit_at(chars, pos) {
        digits_end_nonnegative(chars, pos + 1);
    }
}

/// The text `print`, a blank and a number lexes to two tokens: the name
/// `print`, and the number with its text as it is written.
pub proof fn print_of_a_number_lexes(literal: Seq<char>)
    requires
        number_end(literal, 0) == Some(literal.len() as int),
    ensures
        lex("print "@ + literal).errors.len() == 0,
        lex("print "@ + literal).tokens == seq![
            (Token::<Seq<char>>::Identifier("print"@), span_of("print "@ + literal, 0, 5)),
            (
                Token::<Seq<char>>::Number(literal),
                span_of("print "@ + literal, 6, 6 + literal.len() as int),
            ),
        ],
{
    reveal_strlit("print ");
    reveal_strlit("print");
    reveal_strlit("break");
    reveal_strlit("continue");
    reveal_strlit("end");
    reveal_strlit("if");
    reveal_strlit("then");
    reveal_strlit("else");
    reveal_strlit("for");
    reveal_strlit("in");
    reveal_strlit("while");
    reveal_strlit("function");
    reveal_strlit("isa");
    reveal_strlit("new");
    reveal_strlit("null");
    reveal_strlit("return");
    reveal_strlit("and");
    reveal_strlit("or");
    reveal_strlit("not");
    reveal_strlit("true");
    reveal_strlit("false");
    reveal_strlit("repeat");
    let before = "print "@;
    let src = before + literal;
    let n = src.len() as int;
    assert(before.len() == 6);
    assert(src[0] == 'p' && src[1] == 'r' && src[2] == 'i' && src[3] == 'n' && src[4] == 't'
        && src[5] == ' ');
    assert(number_end(src, 0) is None);
    reveal_with_fuel(ident_end, 6);
    assert(ident_at(src, 0) == Some(5int));
    let name = src.subrange(0, 5);
    assert(name =~= "print"@);
    assert(name[0] == 'p' && name[1] == 'r' && name[2] == 'i');
    assert(keyword_of(name) is None);
    assert(scan(src, 0) == Some((Token::<Seq<char>>::Identifier("print"@), 5int)));
    number_end_after(before, literal);
    assert(number_end(src, 6) == Some(n));
    assert(src.subrange(6, n) =~= literal);
    assert(literal.len() > 0);
    assert(src[6] == literal[0]);
    assert(!is_padding(src[6]));
    assert(scan(src, 6) == Some((Token::<Seq<char>>::Number(literal), n)));
    let last = lex_from(src, n);
    assert(last.tokens =~= Seq::empty() && last.errors =~= Seq::empty());
    let second = lex_from(src, 6);
    assert(second.tokens =~= seq![(Token::<Seq<char>>::Number(literal), span_of(src, 6, n))]);
    assert(second.errors =~= Seq::empty());
    assert(is_padding(src[5]));
    assert(lex_from(src, 5) == second);
    assert(!is_padding(src[0]));
    let first = lex_from(src, 0);
    assert(first.tokens =~= seq![
        (Token::<Seq<char>>::Identifier("print"@), span_of(src, 0, 5)),
        (Token::<Seq<char>>::Number(literal), span_of(src, 6, n)),
    ]);
    assert(first.errors =~= Seq::empty());
}

/// The tokens of compiled code as contracts see them.
pub open spec fn tokens_view(tokens: Seq<(Token<String>, Span)>) -> Seq<(Token<Seq<char>>, Span)> {
    Seq::new(tokens.len(), |i: int| (tokens[i].0@, tokens[i].1))
}

fn digit_char(c: char) -> (r: bool)
    ensures
        r == is_digit(c),
{
    let u: u32 = c as u32;
    0x30 <= u && u <= 0x39
}

fn ident_start_char(c: char) -> (r: bool)
    ensures
        r == is_ident_start(c),
{
    let u: u32 = c as u32;
    (0x41 <= u && u <= 0x5A) || (0x61 <= u && u <= 0x7A) || c == '_' || u > UNICODE_FALLOFF
}

fn ident_continue_char(c: char) -> (r: bool)
    ensures
        r == is_ident_continue(c),
{
    ident_start_char(c) || digit_char(c)
}

fn padding_char(c: char) -> (r: bool)
    ensures
        r == is_padding(c),
{
    let u: u32 = c as u32;
    c != '\n' && ((0x09 <= u && u <= 0x0D) || u == 0x20 || u == 0x85 || u == 0xA0 || u == 0x1680
        || (0x2000 <= u && u <= 0x200A) || u == 0x2028 || u == 0x2029 || u == 0x202F || u
        == 0x205F || u == 0x3000)
}

fn holds(chars: &Vec<char>, pos: usize, c: char) -> (r: bool)
    ensures
        r == char_at(chars@, pos as int, c),
{
    pos < chars.len() && chars[pos] == c
}

fn holds_digit(chars: &Vec<char>, pos: usize) -> (r: bool)
    ensures
        r == digit_at(chars@, pos as int),
{
    pos < chars.len() && digit_char(chars[pos])
}

fn scan_digits(chars: &Vec<char>, pos: usize) -> (end: usize)
    requires
        pos <= chars@.len(),
    ensures
        end == digits_end(chars@, pos as int),
        pos <= end <= chars@.len(),
{
    let mut i: usize = pos;
    while i < chars.len() && digit_char(chars[i])
        invariant
            pos <= i <= chars@.len(),
            digits_end(chars@, i as int) == digits_end(chars@, pos as int),
        decreases chars@.len() - i,
    {
        i += 1;
    }
    i
}

fn scan_number(chars: &Vec<char>, pos: usize) -> (end: Option<usize>)
    requires
        pos < chars@.len(),
    ensures
        end == (match number_end(chars@, pos as int) {
            Some(e) => Some(e as usize),
            None => None,
        }),
        end is Some ==> pos < end->0 <= chars@.len(),
        end is Some ==> number_end(chars@, pos as int) == Some(end->0 as int),
{
    let n = chars.len();
    let start: usize = if chars[pos] == '-' {
        pos + 1
    } else {
        pos
    };
    if !holds_digit(chars, start) {
        return None;
    }
    let whole = scan_digits(chars, start + 1);
    let frac: usize = if holds(chars, whole, '.') {
        scan_digits(chars, whole + 1)
    } else {
        whole
    };
    if frac < n && (chars[frac] == 'e' || chars[frac] == 'E') {
        let signed = frac + 1 < n && (chars[frac + 1] == '+' || chars[frac + 1] == '-');
        if signed {
            if holds_digit(chars, frac + 2) {
                return Some(scan_digits(chars, frac + 2));
            }
        } else if holds_digit(chars, frac + 1) {
            return Some(scan_digits(chars, frac + 1));
        }
    }
    Some(frac)
}

fn scan_string(chars: &Vec<char>, pos: usize) -> (close: Option<usize>)
    requires
        pos <= chars@.len(),
    ensures
        close is Some ==> string_close(chars@, pos as int) == Some(close->0 as int),
        close is None ==> string_close(chars@, pos as int) is None,
        close is Some ==> pos <= close->0 < chars@.len(),
{
    let n = chars.len();
    let mut i: usize = pos;
    while i < n
        invariant
            n == chars@.len(),
            pos <= i <= n,
            string_close(chars@, i as int) == string_close(chars@, pos as int),
        decreases n - i,
    {
        if chars[i] != '"' {
            i += 1;
        } else if i + 1 < n && chars[i + 1] == '"' {
            i += 2;
        } else {
            return Some(i);
        }
    }
    None
}

/// The end of the identifier that starts at `pos`: a first character that may
/// start one, followed by as many as may continue one. `None` where no
/// identifier starts at `pos`.
pub fn ident(chars: &Vec<char>, pos: usize) -> (end: Option<usize>)
    ensures
        end is Some ==> ident_at(chars@, pos as int) == Some(end->0 as int),
        end is None ==> ident_at(chars@, pos as int) is None,
        end is Some ==> pos < end->0 <= chars@.len(),
{
    let n = chars.len();
    if pos >= n || !ident_start_char(chars[pos]) {
        return None;
    }
    let mut i: usize = pos + 1;
    while i < n && ident_continue_char(chars[i])
        invariant
            n == chars@.len(),
            pos < i <= n,
            ident_end(chars@, i as int) == ident_end(chars@, pos + 1),
        decreases n - i,
    {
        i += 1;
    }
    Some(i)
}

fn scan_line(chars: &Vec<char>, pos: usize) -> (end: usize)
    requires
        pos <= chars@.len(),
    ensures
        end == line_end(chars@, pos as int),
        pos <= end <= chars@.len(),
{
    let mut i: usize = pos;
    while i < chars.len() && chars[i] != '\n'
        invariant
            pos <= i <= chars@.len(),
            line_end(chars@, i as int) == line_end(chars@, pos as int),
        decreases chars@.len() - i,
    {
        i += 1;
    }
    i
}

fn scan_symbol(chars: &Vec<char>, pos: usize) -> (found: Option<(Token<String>, usize)>)
    requires
        pos < chars@.len(),
    ensures
        match found {
            Some((token, len)) => symbol_at(chars@, pos as int) == Some((token@, len as int)) && 1
                <= len && pos + len <= chars@.len(),
            None => symbol_at(chars@, pos as int) is None,
        },
{
    let n = chars.len();
    let c = chars[pos];
    let assigns = holds(chars, pos + 1, '=');
    if c == '+' {
        if holds(chars, pos + 1, '+') {
            Some((Token::OpIncrement, 2))
        } else if assigns {
            Some((Token::OpAssignPlus, 2))
        } else {
            Some((Token::OpPlus, 1))
        }
    } else if c == '-' {
        if holds(chars, pos + 1, '-') {
            Some((Token::OpDecrement, 2))
        } else if assigns {
            Some((Token::OpAssignMinus, 2))
        } else {
            Some((Token::OpMinus, 1))
        }
    } else if c == '=' {
        if assigns {
            Some((Token::OpEqual, 2))
        } else {
            Some((Token::OpAssign, 1))
        }
    } else if c == '!' {
        if assigns {
            Some((Token::OpNotEqual, 2))
        } else {
            None
        }
    } else if c == '>' {
        if assigns {
            Some((Token::OpGreatEqual, 2))
        } else {
            Some((Token::OpGreater, 1))
        }
    } else if c == '<' {
        if assigns {
            Some((Token::OpLessEqual, 2))
        } else {
            Some((Token::OpLesser, 1))
        }
    } else if c == '*' {
        if assigns {
            Some((Token::OpAssignTimes, 2))
        } else {
            Some((Token::OpTimes, 1))
        }
    } else if c == '/' {
        if assigns {
            Some((Token::OpAssignDivide, 2))
        } else {
            Some((Token::OpDivide, 1))
        }
    } else if c == '%' {
        if assigns {
            Some((Token::OpAssignMod, 2))
        } else {
            Some((Token::OpMod, 1))
        }
    } else if c == '^' {
        if assigns {
            Some((Token::OpAssignPower, 2))
        } else {
            Some((Token::OpPower, 1))
        }
    } else if c == '(' {
        Some((Token::LParen, 1))
    } else if c == ')' {
        Some((Token::RParen, 1))
    } else if c == '[' {
        Some((Token::LSquare, 1))
    } else if c == ']' {
        Some((Token::RSquare, 1))
    } else if c == '{' {
        Some((Token::LCurly, 1))
    } else if c == '}' {
        Some((Token::RCurly, 1))
    } else if c == '.' {
        Some((Token::Dot, 1))
    } else if c == ',' {
        Some((Token::Comma, 1))
    } else if c == ':' {
        Some((Token::Colon, 1))
    } else if c == '@' {
        Some((Token::AddressOf, 1))
    } else {
        None
    }
}

/// The token that starts at `pos`, with the place where it ends.
fn scan_token(chars: &Vec<char>, pos: usize) -> (found: Option<(Token<String>, usize)>)
    requires
        pos < chars@.len(),
    ensures
        match found {
            Some((token, end)) => scan(chars@, pos as int) == Some((token@, end as int)) && pos
                < end <= chars@.len(),
            None => scan(chars@, pos as int) is None,
        },
{
    let n = chars.len();
    if let Some(end) = scan_number(chars, pos) {
        return Some((Token::Number(string_of(chars, pos, end)), end));
    }
    if chars[pos] == '"' {
        return match scan_string(chars, pos + 1) {
            Some(close) => Some((Token::String(string_of(chars, pos + 1, close)), close + 1)),
            None => None,
        };
    }
    if let Some(end) = ident(chars, pos) {
        return match Keyword::lookup(chars, pos, end) {
            Some(keyword) => Some((Token::Keyword(keyword), end)),
            None => Some((Token::Identifier(string_of(chars, pos, end)), end)),
        };
    }
    if chars[pos] == '/' && holds(chars, pos + 1, '/') {
        let end = scan_line(chars, pos + 2);
        return Some((Token::Comment(string_of(chars, pos + 2, end)), end));
    }
    if chars[pos] == '\n' {
        return Some((Token::EOL, pos + 1));
    }
    if chars[pos] == ';' {
        return Some((Token::Semicolon, pos + 1));
    }
    match scan_symbol(chars, pos) {
        Some((token, len)) => Some((token, pos + len)),
        None => None,
    }
}

fn width_of(c: char) -> (w: usize)
    ensures
        w == utf8_width(c),
{
    let u: u32 = c as u32;
    if u < 0x80 {
        1
    } else if u < 0x800 {
        2
    } else if u < 0x10000 {
        3
    } else {
        4
    }
}

proof fn byte_offset_grows(chars: Seq<char>, index: int)
    ensures
        byte_offset(chars, index) >= 0,
    decreases index,
{
    if index > 0 {
        byte_offset_grows(chars, index - 1);
    }
}

/// The byte offset of every character of `chars`, and of the end of the text.
fn offsets_of(chars: &Vec<char>) -> (offsets: Vec<usize>)
    ensures
        offsets@.len() == chars@.len() + 1,
        forall|i: int| 0 <= i <= chars@.len() ==> offsets@[i] == clip(byte_offset(chars@, i)),
{
    let mut offsets: Vec<usize> = Vec::new();
    offsets.push(0);
    let mut i: usize = 0;
    let mut offset: usize = 0;
    while i < chars.len()
        invariant
            i <= chars@.len(),
            offsets@.len() == i + 1,
            offset == clip(byte_offset(chars@, i as int)),
            forall|j: int| 0 <= j <= i ==> offsets@[j] == clip(byte_offset(chars@, j)),
        decreases chars@.len() - i,
    {
        let w = width_of(chars[i]);
        proof {
            byte_offset_grows(chars@, i as int);
        }
        offset = if offset > usize::MAX - w {
            usize::MAX
        } else {
            offset + w
        };
        i += 1;
        offsets.push(offset);
    }
    offsets
}

/// Reads `source` into tokens with their spans. Comments are kept as tokens.
///
/// Gives the tokens where every character belongs to a token or to the
/// padding between tokens, and otherwise every character at which no token
/// starts, in order, each with its reason.
pub fn lexer(source: &str) -> (result: Result<Vec<(Token<String>, Span)>, Vec<LexError>>)
    ensures
        match result {
            Ok(tokens) => lex(source@).errors.len() == 0 && tokens_view(tokens@) == lex(
                source@,
            ).tokens,
            Err(errors) => errors@.len() > 0 && errors@ == lex(source@).errors,
        },
{
    let chars = chars_of(source);
    let offsets = offsets_of(&chars);
    let mut tokens: Vec<(Token<String>, Span)> = Vec::new();
    let mut errors: Vec<LexError> = Vec::new();
    let mut pos: usize = 0;
    while pos < chars.len()
        invariant
            chars@ == source@,
            pos <= chars@.len(),
            offsets@.len() == chars@.len() + 1,
            forall|i: int| 0 <= i <= chars@.len() ==> offsets@[i] == clip(byte_offset(chars@, i)),
            lex(chars@).tokens == tokens_view(tokens@) + lex_from(chars@, pos as int).tokens,
            lex(chars@).errors == errors@ + lex_from(chars@, pos as int).errors,
        decreases chars@.len() - pos,
    {
        if padding_char(chars[pos]) {
            pos += 1;
        } else {
            match scan_token(&chars, pos) {
                Some((token, end)) => {
                    let span = Span { start: offsets[pos], end: offsets[end] };
                    let ghost before = tokens_view(tokens@);
                    let ghost seen = token@;
                    tokens.push((token, span));
                    assert(tokens_view(tokens@) == before.push((seen, span)));
                    assert(before.push((seen, span)) + lex_from(chars@, end as int).tokens
                        == before + (seq![(seen, span)] + lex_from(chars@, end as int).tokens));
                    pos = end;
                },
                None => {
                    let span = Span { start: offsets[pos], end: offsets[pos + 1] };
                    let kind = if chars[pos] == '"' {
                        LexErrorKind::UnterminatedString
                    } else {
                        LexErrorKind::UnexpectedCharacter
                    };
                    let ghost before = errors@;
                    let error = LexError { span, kind };
                    errors.push(error);
                    assert(before.push(error) + lex_from(chars@, pos + 1).errors == before + (
                        seq![error] + lex_from(chars@, pos + 1).errors));
                    pos += 1;
                },
            }
        }
    }
    if errors.len() == 0 {
        Ok(tokens)
    } else {
        Err(errors)
    }
}

} // verus!
