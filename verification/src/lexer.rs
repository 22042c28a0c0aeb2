//! Splitting assembly source text into tokens, each with its line number.
use vstd::prelude::*;
use vstd::string::StringSliceAdditionalSpecFns;
use vstd::utf8::{decode_utf8, valid_utf8};
use crate::error::{Fault, SimError};
use crate::text::{char_debug, concat2, debug_char, owned};

verus! {

#[derive(Debug, Clone, PartialEq, Eq)]
pub enum Token {
    Ident(String),
    Number(i64),
    StringLit(Vec<u8>),
    Colon,
    Comma,
    LBracket,
    RBracket,
    Plus,
    Minus,
    Star,
    Newline,
    Eof,
}

/// A token with its text as characters or bytes.
pub enum TokenV {
    Ident(Seq<char>),
    Number(i64),
    StringLit(Seq<u8>),
    Colon,
    Comma,
    LBracket,
    RBracket,
    Plus,
    Minus,
    Star,
    Newline,
    Eof,
}

impl View for Token {
    type V = TokenV;

    open spec fn view(&self) -> TokenV {
        match self {
            Token::Ident(s) => TokenV::Ident(s@),
            Token::Number(n) => TokenV::Number(*n),
            Token::StringLit(v) => TokenV::StringLit(v@),
            Token::Colon => TokenV::Colon,
            Token::Comma => TokenV::Comma,
            Token::LBracket => TokenV::LBracket,
            Token::RBracket => TokenV::RBracket,
            Token::Plus => TokenV::Plus,
            Token::Minus => TokenV::Minus,
            Token::Star => TokenV::Star,
            Token::Newline => TokenV::Newline,
            Token::Eof => TokenV::Eof,
        }
    }
}

/// The views of tokens paired with their line numbers.
pub open spec fn tokens_view(ts: Seq<(Token, usize)>) -> Seq<(TokenV, usize)> {
    ts.map_values(|p: (Token, usize)| (p.0@, p.1))
}

pub open spec fn is_space(b: u8) -> bool {
    b == 32 || b == 9 || b == 13
}

pub open spec fn is_digit(b: u8) -> bool {
    48 <= b <= 57
}

pub open spec fn is_alpha(b: u8) -> bool {
    (65 <= b <= 90) || (97 <= b <= 122)
}

/// A letter, `_` or `.` starts an identifier.
pub open spec fn is_ident_start(b: u8) -> bool {
    is_alpha(b) || b == 95 || b == 46
}

/// Letters, digits, `_` and `.` continue an identifier.
pub open spec fn is_ident_char(b: u8) -> bool {
    is_alpha(b) || is_digit(b) || b == 95 || b == 46
}

/// Whether `b` is a digit in base `radix` (16, 2, 8, or else 10).
pub open spec fn radix_digit(b: u8, radix: u32) -> bool {
    if radix == 16 {
        is_digit(b) || (97 <= b <= 102) || (65 <= b <= 70)
    } else if radix == 2 {
        b == 48 || b == 49
    } else if radix == 8 {
        48 <= b <= 55
    } else {
        is_digit(b)
    }
}

/// The value of a digit character.
pub open spec fn digit_value(b: u8) -> nat {
    if is_digit(b) { (b - 48) as nat } else if 97 <= b { (b - 87) as nat } else { (b - 55) as nat }
}

/// The value of a digit string in base `radix`, most significant digit first.
pub open spec fn digits_value(ds: Seq<u8>, radix: u32) -> nat
    decreases ds.len(),
{
    if ds.len() == 0 { 0 } else { digits_value(ds.drop_last(), radix) * radix as nat + digit_value(ds.last()) }
}

/// The characters that ASCII bytes stand for.
pub open spec fn ascii_chars(bs: Seq<u8>) -> Seq<char> {
    bs.map_values(|b: u8| b as char)
}

/// A position in the source: byte offset, line and column, both counted from 1.
pub struct Cursor {
    pub pos: int,
    pub line: int,
    pub col: int,
}

pub open spec fn at(s: Seq<u8>, c: Cursor) -> Option<u8> {
    if 0 <= c.pos < s.len() { Some(s[c.pos]) } else { None }
}

/// The byte after the one at the cursor.
pub open spec fn at_next(s: Seq<u8>, c: Cursor) -> Option<u8> {
    if 0 <= c.pos + 1 < s.len() { Some(s[c.pos + 1]) } else { None }
}

/// Whether a digit follows the byte at the cursor.
pub open spec fn next_is_digit(s: Seq<u8>, c: Cursor) -> bool {
    match at_next(s, c) {
        Some(n) => is_digit(n),
        None => false,
    }
}

/// The cursor past the byte at it: a newline starts the next line at column 1.
pub open spec fn bump(s: Seq<u8>, c: Cursor) -> Cursor {
    if 0 <= c.pos < s.len() {
        if s[c.pos] == 10 {
            Cursor { pos: c.pos + 1, line: c.line + 1, col: 1 }
        } else {
            Cursor { pos: c.pos + 1, line: c.line, col: c.col + 1 }
        }
    } else {
        c
    }
}

/// Past spaces, tabs and carriage returns.
pub open spec fn skip_space(s: Seq<u8>, c: Cursor) -> Cursor
    decreases s.len() - c.pos,
{
    if 0 <= c.pos < s.len() && is_space(s[c.pos]) { skip_space(s, bump(s, c)) } else { c }
}

/// Up to the end of the line, or of the source.
pub open spec fn skip_line(s: Seq<u8>, c: Cursor) -> Cursor
    decreases s.len() - c.pos,
{
    if 0 <= c.pos < s.len() && s[c.pos] != 10 { skip_line(s, bump(s, c)) } else { c }
}

/// Past the identifier characters at the cursor.
pub open spec fn ident_end(s: Seq<u8>, c: Cursor) -> Cursor
    decreases s.len() - c.pos,
{
    if 0 <= c.pos < s.len() && is_ident_char(s[c.pos]) { ident_end(s, bump(s, c)) } else { c }
}

/// The digits of base `radix` at the cursor, skipping `_` separators, and the cursor past them.
pub open spec fn scan_digits(s: Seq<u8>, c: Cursor, radix: u32) -> (Seq<u8>, Cursor)
    decreases s.len() - c.pos,
{
    if 0 <= c.pos < s.len() && radix_digit(s[c.pos], radix) {
        let (ds, c2) = scan_digits(s, bump(s, c), radix);
        (seq![s[c.pos]] + ds, c2)
    } else if 0 <= c.pos < s.len() && s[c.pos] == 95 {
        scan_digits(s, bump(s, c), radix)
    } else {
        (Seq::empty(), c)
    }
}

/// The base given by a `0x`, `0b` or `0o` prefix (either case) at the cursor, else 10.
pub open spec fn number_radix(s: Seq<u8>, c: Cursor) -> u32 {
    if at(s, c) == Some(48u8) && (at_next(s, c) == Some(120u8) || at_next(s, c) == Some(88u8)) {
        16
    } else if at(s, c) == Some(48u8) && (at_next(s, c) == Some(98u8) || at_next(s, c) == Some(66u8)) {
        2
    } else if at(s, c) == Some(48u8) && (at_next(s, c) == Some(111u8) || at_next(s, c) == Some(79u8)) {
        8
    } else {
        10
    }
}

/// A number: an optional `-`, an optional base prefix and digits. Without a sign, hexadecimal,
/// binary and octal numbers may use all 64 bits (read as two's complement); others must fit
/// an `i64`. No digits, or a value out of range, is an error at the number's start.
pub open spec fn scan_number(s: Seq<u8>, c: Cursor) -> Result<(i64, Cursor), Fault> {
    let negative = at(s, c) == Some(45u8);
    let c1 = if negative { bump(s, c) } else { c };
    let radix = number_radix(s, c1);
    let c2 = if radix == 10 { c1 } else { bump(s, bump(s, c1)) };
    let (ds, c3) = scan_digits(s, c2, radix);
    let v = digits_value(ds, radix);
    let err = Fault::Lex { line: c.line as usize, col: c.col as usize, msg: "number overflow: "@ + ascii_chars(ds) };
    if ds.len() == 0 {
        Err(Fault::Lex { line: c.line as usize, col: c.col as usize, msg: "expected digits"@ })
    } else if !negative && radix != 10 {
        if v <= u64::MAX { Ok((v as u64 as i64, c3)) } else { Err(err) }
    } else if v <= i64::MAX {
        Ok(((if negative { -(v as int) } else { v as int }) as i64, c3))
    } else {
        Err(err)
    }
}

/// The byte that an escape `\e` stands for: `n`, `r`, `t`, `0` give newline, carriage
/// return, tab and zero; any other byte stands for itself.
pub open spec fn escape_byte(e: u8) -> u8 {
    if e == 110 { 10 } else if e == 114 { 13 } else if e == 116 { 9 } else if e == 48 { 0 } else { e }
}

/// The bytes of a string literal up to its closing quote, and the cursor past that quote.
/// Running out of input is an error at `line`, `col`, where the literal began.
pub open spec fn scan_string_body(s: Seq<u8>, c: Cursor, line: int, col: int) -> Result<(Seq<u8>, Cursor), Fault>
    decreases s.len() - c.pos,
{
    if !(0 <= c.pos < s.len()) {
        Err(Fault::Lex { line: line as usize, col: col as usize, msg: "unterminated string"@ })
    } else if s[c.pos] == 34 {
        Ok((Seq::empty(), bump(s, c)))
    } else if s[c.pos] == 92 {
        let c1 = bump(s, c);
        if !(0 <= c1.pos < s.len()) {
            Err(Fault::Lex { line: line as usize, col: col as usize, msg: "unterminated escape"@ })
        } else {
            match scan_string_body(s, bump(s, c1), line, col) {
                Ok((bs, c2)) => Ok((seq![escape_byte(s[c1.pos])] + bs, c2)),
                Err(f) => Err(f),
            }
        }
    } else {
        match scan_string_body(s, bump(s, c), line, col) {
            Ok((bs, c2)) => Ok((seq![s[c.pos]] + bs, c2)),
            Err(f) => Err(f),
        }
    }
}

/// In a string literal an escape stands for its control byte: `\n` for a newline (10), `\r`
/// for a carriage return (13), `\t` for a tab (9) and `\0` for zero; any other escaped byte
/// stands for itself. The literal reads on after the two bytes of the escape.
pub proof fn law_string_escapes(s: Seq<u8>, c: Cursor, line: int, col: int)
    requires
        0 <= c.pos,
        c.pos + 1 < s.len(),
        s[c.pos] == 92,
    ensures ({
        let e = s[c.pos + 1];
        let rest = scan_string_body(s, bump(s, bump(s, c)), line, col);
        match scan_string_body(s, c, line, col) {
            Ok((bs, c2)) => {
                &&& rest matches Ok((bs2, c3)) && c3 == c2 && bs.len() == bs2.len() + 1 && bs.drop_first() == bs2
                &&& e == 110 ==> bs[0] == 10
                &&& e == 114 ==> bs[0] == 13
                &&& e == 116 ==> bs[0] == 9
                &&& e == 48 ==> bs[0] == 0
                &&& (e != 110 && e != 114 && e != 116 && e != 48) ==> bs[0] == e
            },
            Err(f) => rest == Err::<(Seq<u8>, Cursor), Fault>(f),
        }
    }),
{
    if let Ok((bs2, c3)) = scan_string_body(s, bump(s, bump(s, c)), line, col) {
        assert((seq![escape_byte(s[c.pos + 1])] + bs2).drop_first() =~= bs2);
    }
}

/// The token that starts at the cursor, if it is not a comment or the end, and the cursor
/// past it.
pub open spec fn scan_token(s: Seq<u8>, c: Cursor) -> Result<(Option<TokenV>, Cursor), Fault> {
    let b = s[c.pos];
    if b == 10 {
        Ok((Some(TokenV::Newline), bump(s, c)))
    } else if b == 59 || b == 35 {
        Ok((None, skip_line(s, c)))
    } else if b == 58 {
        Ok((Some(TokenV::Colon), bump(s, c)))
    } else if b == 44 {
        Ok((Some(TokenV::Comma), bump(s, c)))
    } else if b == 91 {
        Ok((Some(TokenV::LBracket), bump(s, c)))
    } else if b == 93 {
        Ok((Some(TokenV::RBracket), bump(s, c)))
    } else if b == 43 {
        Ok((Some(TokenV::Plus), bump(s, c)))
    } else if b == 42 {
        Ok((Some(TokenV::Star), bump(s, c)))
    } else if b == 34 {
        match scan_string_body(s, bump(s, c), c.line, c.col) {
            Ok((bs, c2)) => Ok((Some(TokenV::StringLit(bs)), c2)),
            Err(f) => Err(f),
        }
    } else if (b == 45 && next_is_digit(s, c)) || is_digit(b) {
        match scan_number(s, c) {
            Ok((n, c2)) => Ok((Some(TokenV::Number(n)), c2)),
            Err(f) => Err(f),
        }
    } else if b == 45 {
        Ok((Some(TokenV::Minus), bump(s, c)))
    } else if is_ident_start(b) {
        let c2 = ident_end(s, c);
        Ok((Some(TokenV::Ident(ascii_chars(s.subrange(c.pos, c2.pos)))), c2))
    } else {
        Err(Fault::Lex { line: c.line as usize, col: c.col as usize, msg: "unexpected character: "@ + char_debug(b) })
    }
}

/// The tokens from the cursor to the end of the source, each with the line it starts on, and
/// an `Eof` token last; or the first error.
pub open spec fn scan_tokens(s: Seq<u8>, c: Cursor) -> Result<Seq<(TokenV, usize)>, Fault>
    decreases s.len() - c.pos,
{
    let c0 = skip_space(s, c);
    if !(0 <= c0.pos < s.len()) {
        Ok(seq![(TokenV::Eof, c0.line as usize)])
    } else {
        match scan_token(s, c0) {
            Err(f) => Err(f),
            Ok((t, c1)) => {
                proof {
                    lemma_skip_space_moves(s, c);
                    lemma_token_moves(s, c0);
                }
                match scan_tokens(s, c1) {
                    Err(f) => Err(f),
                    Ok(rest) => match t {
                        Some(tok) => Ok(seq![(tok, c0.line as usize)] + rest),
                        None => Ok(rest),
                    },
                }
            },
        }
    }
}

/// Skipping spaces never moves back, nor past the end.
pub proof fn lemma_skip_space_moves(s: Seq<u8>, c: Cursor)
    requires c.pos <= s.len(),
    ensures c.pos <= skip_space(s, c).pos <= s.len(),
    decreases s.len() - c.pos,
{
    if 0 <= c.pos < s.len() && is_space(s[c.pos]) {
        lemma_skip_space_moves(s, bump(s, c));
    }
}

/// Skipping to the end of the line never moves back, nor past the end.
pub proof fn lemma_skip_line_moves(s: Seq<u8>, c: Cursor)
    requires c.pos <= s.len(),
    ensures c.pos <= skip_line(s, c).pos <= s.len(),
    decreases s.len() - c.pos,
{
    if 0 <= c.pos < s.len() && s[c.pos] != 10 {
        lemma_skip_line_moves(s, bump(s, c));
    }
}

/// An identifier never ends before it starts, nor past the end.
pub proof fn lemma_ident_end_moves(s: Seq<u8>, c: Cursor)
    requires c.pos <= s.len(),
    ensures c.pos <= ident_end(s, c).pos <= s.len(),
    decreases s.len() - c.pos,
{
    if 0 <= c.pos < s.len() && is_ident_char(s[c.pos]) {
        lemma_ident_end_moves(s, bump(s, c));
    }
}

/// Reading digits never moves back, nor past the end, and moves on when it reads one.
pub proof fn lemma_digits_move(s: Seq<u8>, c: Cursor, radix: u32)
    requires c.pos <= s.len(),
    ensures
        c.pos <= scan_digits(s, c, radix).1.pos <= s.len(),
        scan_digits(s, c, radix).0.len() > 0 ==> c.pos < scan_digits(s, c, radix).1.pos,
    decreases s.len() - c.pos,
{
    if 0 <= c.pos < s.len() && (radix_digit(s[c.pos], radix) || s[c.pos] == 95) {
        lemma_digits_move(s, bump(s, c), radix);
    }
}

/// The body of a string literal ends past the cursor and within the source.
pub proof fn lemma_string_moves(s: Seq<u8>, c: Cursor, line: int, col: int)
    requires c.pos <= s.len(),
    ensures scan_string_body(s, c, line, col) matches Ok((_, c2)) ==> c.pos < c2.pos <= s.len(),
    decreases s.len() - c.pos,
{
    if 0 <= c.pos < s.len() && s[c.pos] != 34 {
        if s[c.pos] == 92 {
            let c1 = bump(s, c);
            if 0 <= c1.pos < s.len() {
                lemma_string_moves(s, bump(s, c1), line, col);
            }
        } else {
            lemma_string_moves(s, bump(s, c), line, col);
        }
    }
}

/// Every token, and every comment, takes up at least one byte and ends within the source.
pub proof fn lemma_token_moves(s: Seq<u8>, c: Cursor)
    requires 0 <= c.pos < s.len(),
    ensures scan_token(s, c) matches Ok((_, c1)) ==> c.pos < c1.pos <= s.len(),
{
    let b1 = bump(s, c);
    lemma_skip_line_moves(s, b1);
    lemma_ident_end_moves(s, b1);
    lemma_string_moves(s, b1, c.line, c.col);
    let negative = at(s, c) == Some(45u8);
    let n1 = if negative { b1 } else { c };
    let radix = number_radix(s, n1);
    let n2 = if radix == 10 { n1 } else { bump(s, bump(s, n1)) };
    assert(n2.pos <= s.len());
    lemma_digits_move(s, n2, radix);
}

/// Bytes below 128 are valid UTF-8 and decode to the characters with the same codes.
proof fn lemma_ascii_utf8(bs: Seq<u8>)
    requires forall|i: int| 0 <= i < bs.len() ==> bs[i] < 128,
    ensures valid_utf8(bs), decode_utf8(bs) == ascii_chars(bs),
    decreases bs.len(),
{
    if bs.len() > 0 {
        let rest = bs.subrange(1, bs.len() as int);
        assert(vstd::utf8::pop_first_scalar(bs) == rest);
        lemma_ascii_utf8(rest);
        let b0 = bs[0];
        assert((b0 & 0x7f) as u32 == b0 as u32) by (bit_vector) requires b0 < 128;
        assert(vstd::utf8::decode_first_scalar(bs) == b0 as u32);
        assert(decode_utf8(bs) =~= ascii_chars(bs));
    } else {
        assert(decode_utf8(bs) =~= ascii_chars(bs));
    }
}

/// `std::str::from_utf8`: the text whose UTF-8 encoding is `bytes`, when they are valid UTF-8.
#[verifier::external_body]
fn utf8_text(bytes: &[u8]) -> (r: Option<&str>)
    ensures
        r is Some <==> valid_utf8(bytes@),
        r matches Some(s) ==> s.spec_bytes() == bytes@,
{
    match std::str::from_utf8(bytes) {
        Ok(s) => Some(s),
        Err(_) => None,
    }
}

/// The text of ASCII bytes.
fn ascii_string(bytes: &[u8]) -> (s: String)
    requires forall|i: int| 0 <= i < bytes@.len() ==> bytes@[i] < 128,
    ensures s@ == ascii_chars(bytes@),
{
    proof { lemma_ascii_utf8(bytes@); }
    match utf8_text(bytes) {
        Some(t) => {
            proof { vstd::utf8::encode_utf8_decode_utf8(t@); }
            t.to_owned()
        },
        None => String::new(),
    }
}

/// The view of a token that may be absent.
pub open spec fn token_opt_view(t: Option<Token>) -> Option<TokenV> {
    match t {
        Some(tok) => Some(tok@),
        None => None,
    }
}

/// A scan result with `pre` put in front of its bytes.
pub open spec fn with_prefix(pre: Seq<u8>, r: Result<(Seq<u8>, Cursor), Fault>) -> Result<(Seq<u8>, Cursor), Fault> {
    match r {
        Ok((bs, c)) => Ok((pre + bs, c)),
        Err(f) => Err(f),
    }
}

/// A tokenizing result with `pre` put in front of its tokens.
pub open spec fn with_tokens(pre: Seq<(TokenV, usize)>, r: Result<Seq<(TokenV, usize)>, Fault>) -> Result<Seq<(TokenV, usize)>, Fault> {
    match r {
        Ok(ts) => Ok(pre + ts),
        Err(f) => Err(f),
    }
}

pub struct Lexer<'a> {
    src: &'a [u8],
    pos: usize,
    pub line: usize,
    pub col: usize,
}

impl<'a> Lexer<'a> {
    /// The source bytes.
    pub closed spec fn input(&self) -> Seq<u8> {
        self.src@
    }

    /// The current position, line and column.
    pub closed spec fn cursor(&self) -> Cursor {
        Cursor { pos: self.pos as int, line: self.line as int, col: self.col as int }
    }

    /// The position lies within the source, and the line and column cannot pass it.
    pub closed spec fn wf(&self) -> bool {
        &&& self.src@.len() < usize::MAX
        &&& self.pos <= self.src@.len()
        &&& 1 <= self.line <= self.pos + 1
        &&& 1 <= self.col <= self.pos + 1
    }

    pub fn new(src: &'a str) -> (l: Self)
        requires src.spec_bytes().len() < usize::MAX,
        ensures
            l.wf(),
            l.input() == src.spec_bytes(),
            l.cursor() == (Cursor { pos: 0, line: 1, col: 1 }),
    {
        Lexer { src: src.as_bytes(), pos: 0, line: 1, col: 1 }
    }

    fn peek(&self) -> (r: Option<u8>)
        ensures r == at(self.input(), self.cursor()),
    {
        if self.pos < self.src.len() { Some(self.src[self.pos]) } else { None }
    }

    fn peek2(&self) -> (r: Option<u8>)
        requires self.wf(),
        ensures r == at_next(self.input(), self.cursor()),
    {
        if self.pos + 1 < self.src.len() { Some(self.src[self.pos + 1]) } else { None }
    }

    fn advance(&mut self) -> (r: Option<u8>)
        requires old(self).wf(),
        ensures
            final(self).wf(),
            final(self).input() == old(self).input(),
            r == at(old(self).input(), old(self).cursor()),
            final(self).cursor() == bump(old(self).input(), old(self).cursor()),
    {
        if self.pos >= self.src.len() {
            return None;
        }
        let b = self.src[self.pos];
        self.pos = self.pos + 1;
        if b == 10 {
            self.line = self.line + 1;
            self.col = 1;
        } else {
            self.col = self.col + 1;
        }
        Some(b)
    }

    fn skip_whitespace(&mut self)
        requires old(self).wf(),
        ensures
            final(self).wf(),
            final(self).input() == old(self).input(),
            final(self).cursor() == skip_space(old(self).input(), old(self).cursor()),
            old(self).cursor().pos <= final(self).cursor().pos,
    {
        loop
            invariant
                self.wf(),
                self.input() == old(self).input(),
                old(self).cursor().pos <= self.cursor().pos,
                skip_space(self.input(), self.cursor()) == skip_space(old(self).input(), old(self).cursor()),
            ensures
                old(self).cursor().pos <= self.cursor().pos,
                self.cursor() == skip_space(old(self).input(), old(self).cursor()),
            decreases self.input().len() - self.cursor().pos,
        {
            let b = match self.peek() {
                Some(b) => b,
                None => break,
            };
            if b == 32 || b == 9 || b == 13 {
                self.advance();
            } else {
                break;
            }
        }
    }

    fn skip_comment(&mut self)
        requires old(self).wf(),
        ensures
            final(self).wf(),
            final(self).input() == old(self).input(),
            final(self).cursor() == skip_line(old(self).input(), old(self).cursor()),
            at(old(self).input(), old(self).cursor()) matches Some(b) && b != 10 ==> old(self).cursor().pos < final(self).cursor().pos,
    {
        let ghost first = at(self.input(), self.cursor());
        loop
            invariant
                self.wf(),
                self.input() == old(self).input(),
                old(self).cursor().pos <= self.cursor().pos,
                first == at(old(self).input(), old(self).cursor()),
                first is Some && first != Some(10u8) && self.cursor().pos == old(self).cursor().pos ==> at(self.input(), self.cursor()) == first,
                skip_line(self.input(), self.cursor()) == skip_line(old(self).input(), old(self).cursor()),
            ensures
                first is Some && first != Some(10u8) ==> old(self).cursor().pos < self.cursor().pos,
                self.cursor() == skip_line(old(self).input(), old(self).cursor()),
            decreases self.input().len() - self.cursor().pos,
        {
            let b = match self.peek() {
                Some(b) => b,
                None => break,
            };
            if b == 10 {
                break;
            }
            self.advance();
        }
    }

    fn read_ident(&mut self) -> (s: String)
        requires old(self).wf(),
        ensures
            final(self).wf(),
            final(self).input() == old(self).input(),
            final(self).cursor() == ident_end(old(self).input(), old(self).cursor()),
            s@ == ascii_chars(old(self).input().subrange(old(self).cursor().pos, final(self).cursor().pos)),
            at(old(self).input(), old(self).cursor()) matches Some(b) && is_ident_char(b) ==> old(self).cursor().pos < final(self).cursor().pos,
    {
        let start = self.pos;
        let ghost first = at(self.input(), self.cursor());
        loop
            invariant
                self.wf(),
                self.input() == old(self).input(),
                start <= self.pos,
                start == old(self).cursor().pos,
                first == at(old(self).input(), old(self).cursor()),
                self.pos == start ==> at(self.input(), self.cursor()) == first,
                ident_end(self.input(), self.cursor()) == ident_end(old(self).input(), old(self).cursor()),
                forall|i: int| start <= i < self.pos ==> is_ident_char(#[trigger] self.src@[i]),
            ensures
                self.cursor() == ident_end(old(self).input(), old(self).cursor()),
                start <= self.pos,
                forall|i: int| start <= i < self.pos ==> is_ident_char(#[trigger] self.src@[i]),
                first matches Some(b) && is_ident_char(b) ==> start < self.pos,
            decreases self.input().len() - self.cursor().pos,
        {
            let b = match self.peek() {
                Some(b) => b,
                None => break,
            };
            if (65 <= b && b <= 90) || (97 <= b && b <= 122) || (48 <= b && b <= 57) || b == 95 || b == 46 {
                self.advance();
            } else {
                break;
            }
        }
        let piece = &self.src[start..self.pos];
        ascii_string(piece)
    }

    /// The digits of base `radix`, skipping `_` separators.
    fn read_digits(&mut self, radix: u32) -> (ds: Vec<u8>)
        requires old(self).wf(),
        ensures
            final(self).wf(),
            final(self).input() == old(self).input(),
            (ds@, final(self).cursor()) == scan_digits(old(self).input(), old(self).cursor(), radix),
            ds@.len() > 0 ==> old(self).cursor().pos < final(self).cursor().pos,
    {
        let mut ds: Vec<u8> = Vec::new();
        loop
            invariant
                self.wf(),
                self.input() == old(self).input(),
                ds@.len() > 0 ==> old(self).cursor().pos < self.cursor().pos,
                old(self).cursor().pos <= self.cursor().pos,
                ({
                    let (rest, c) = scan_digits(self.input(), self.cursor(), radix);
                    (ds@ + rest, c) == scan_digits(old(self).input(), old(self).cursor(), radix)
                }),
            ensures
                (ds@, self.cursor()) == scan_digits(old(self).input(), old(self).cursor(), radix),
                ds@.len() > 0 ==> old(self).cursor().pos < self.cursor().pos,
            decreases self.input().len() - self.cursor().pos,
        {
            let b = match self.peek() {
                Some(b) => b,
                None => {
                    assert(ds@ + Seq::<u8>::empty() =~= ds@);
                    break;
                },
            };
            let ok = if radix == 16 {
                (48 <= b && b <= 57) || (97 <= b && b <= 102) || (65 <= b && b <= 70)
            } else if radix == 2 {
                b == 48 || b == 49
            } else if radix == 8 {
                48 <= b && b <= 55
            } else {
                48 <= b && b <= 57
            };
            if ok {
                let ghost before = ds@;
                ds.push(b);
                let ghost c = self.cursor();
                self.advance();
                proof {
                    let (rest, c2) = scan_digits(self.input(), self.cursor(), radix);
                    assert(before + (seq![b] + rest) =~= ds@ + rest);
                }
            } else if b == 95 {
                self.advance();
            } else {
                assert(ds@ + Seq::<u8>::empty() =~= ds@);
                break;
            }
        }
        ds
    }

    fn peek_is(&self, b: u8) -> (r: bool)
        ensures r == (at(self.input(), self.cursor()) == Some(b)),
    {
        match self.peek() {
            Some(x) => x == b,
            None => false,
        }
    }

    fn peek2_is(&self, b: u8) -> (r: bool)
        requires self.wf(),
        ensures r == (at_next(self.input(), self.cursor()) == Some(b)),
    {
        match self.peek2() {
            Some(x) => x == b,
            None => false,
        }
    }

    fn read_number(&mut self) -> (r: Result<i64, SimError>)
        requires old(self).wf(),
        ensures
            final(self).wf(),
            final(self).input() == old(self).input(),
            match scan_number(old(self).input(), old(self).cursor()) {
                Ok((n, c)) => r matches Ok(v) && v == n && final(self).cursor() == c
                    && old(self).cursor().pos < c.pos,
                Err(f) => r matches Err(e) && e@ == f,
            },
    {
        let line = self.line;
        let col = self.col;
        let negative = if self.peek_is(45) {
            self.advance();
            true
        } else {
            false
        };
        let radix: u32 = if self.peek_is(48) && (self.peek2_is(120) || self.peek2_is(88)) {
            self.advance();
            self.advance();
            16
        } else if self.peek_is(48) && (self.peek2_is(98) || self.peek2_is(66)) {
            self.advance();
            self.advance();
            2
        } else if self.peek_is(48) && (self.peek2_is(111) || self.peek2_is(79)) {
            self.advance();
            self.advance();
            8
        } else {
            10
        };
        let ghost digits_at = self.cursor();
        let ds = self.read_digits(radix);
        if ds.len() == 0 {
            return Err(SimError::Lex { line, col, msg: owned("expected digits") });
        }
        proof { lemma_scanned_digits(self.input(), digits_at, radix); }
        let limit: u64 = if !negative && radix != 10 { u64::MAX } else { 0x7FFF_FFFF_FFFF_FFFF };
        let val = match parse_digits(&ds, radix, limit) {
            Some(u) => #[verifier::truncate] (u as i64),
            None => {
                let text = ascii_string(ds.as_slice());
                return Err(SimError::Lex { line, col, msg: concat2("number overflow: ", text.as_str()) });
            },
        };
        Ok(if negative { -val } else { val })
    }

    fn read_string(&mut self) -> (r: Result<Vec<u8>, SimError>)
        requires
            old(self).wf(),
            at(old(self).input(), old(self).cursor()) == Some(34u8),
        ensures
            final(self).wf(),
            final(self).input() == old(self).input(),
            match scan_string_body(
                old(self).input(),
                bump(old(self).input(), old(self).cursor()),
                old(self).cursor().line,
                old(self).cursor().col,
            ) {
                Ok((bs, c)) => r matches Ok(v) && v@ == bs && final(self).cursor() == c
                    && old(self).cursor().pos < c.pos,
                Err(f) => r matches Err(e) && e@ == f,
            },
    {
        let line = self.line;
        let col = self.col;
        self.advance();
        let ghost target = scan_string_body(self.input(), self.cursor(), line as int, col as int);
        let mut bytes: Vec<u8> = Vec::new();
        loop
            invariant_except_break
                with_prefix(bytes@, scan_string_body(self.input(), self.cursor(), line as int, col as int)) == target,
            invariant
                self.wf(),
                self.input() == old(self).input(),
                line == old(self).cursor().line,
                col == old(self).cursor().col,
                target == scan_string_body(
                    old(self).input(),
                    bump(old(self).input(), old(self).cursor()),
                    old(self).cursor().line,
                    old(self).cursor().col,
                ),
                old(self).cursor().pos < self.cursor().pos,
            ensures
                target matches Ok((bs, c)) && bytes@ == bs && self.cursor() == c,
            decreases self.input().len() - self.cursor().pos,
        {
            let ghost c = self.cursor();
            let ghost before = bytes@;
            match self.advance() {
                None => {
                    assert(scan_string_body(self.input(), c, line as int, col as int)
                        == Err::<(Seq<u8>, Cursor), Fault>(Fault::Lex { line, col, msg: "unterminated string"@ }));
                    return Err(SimError::Lex { line, col, msg: owned("unterminated string") });
                },
                Some(b) => {
                    if b == 34 {
                        assert(bytes@ + Seq::<u8>::empty() =~= bytes@);
                        break;
                    } else if b == 92 {
                        match self.advance() {
                            None => {
                                assert(scan_string_body(self.input(), c, line as int, col as int)
                                    == Err::<(Seq<u8>, Cursor), Fault>(Fault::Lex { line, col, msg: "unterminated escape"@ }));
                                return Err(SimError::Lex { line, col, msg: owned("unterminated escape") });
                            },
                            Some(e) => {
                                let v: u8 = if e == 110 {
                                    10
                                } else if e == 114 {
                                    13
                                } else if e == 116 {
                                    9
                                } else if e == 48 {
                                    0
                                } else {
                                    e
                                };
                                bytes.push(v);
                                proof {
                                    match scan_string_body(self.input(), self.cursor(), line as int, col as int) {
                                        Ok((bs, c2)) => {
                                            assert(before + (seq![v] + bs) =~= bytes@ + bs);
                                        },
                                        Err(f) => {},
                                    }
                                }
                            },
                        }
                    } else {
                        bytes.push(b);
                        proof {
                            match scan_string_body(self.input(), self.cursor(), line as int, col as int) {
                                Ok((bs, c2)) => {
                                    assert(before + (seq![b] + bs) =~= bytes@ + bs);
                                },
                                Err(f) => {},
                            }
                        }
                    }
                },
            }
        }
        Ok(bytes)
    }

    /// The token at the cursor, or `None` for a comment.
    fn next_token(&mut self) -> (r: Result<Option<Token>, SimError>)
        requires
            old(self).wf(),
            at(old(self).input(), old(self).cursor()) is Some,
        ensures
            final(self).wf(),
            final(self).input() == old(self).input(),
            match scan_token(old(self).input(), old(self).cursor()) {
                Ok((t, c)) => r matches Ok(ot) && token_opt_view(ot) == t && final(self).cursor() == c
                    && old(self).cursor().pos < c.pos,
                Err(f) => r matches Err(e) && e@ == f,
            },
    {
        let b = match self.peek() {
            Some(b) => b,
            None => return Ok(None),
        };
        if b == 10 {
            self.advance();
            Ok(Some(Token::Newline))
        } else if b == 59 || b == 35 {
            self.skip_comment();
            Ok(None)
        } else if b == 58 {
            self.advance();
            Ok(Some(Token::Colon))
        } else if b == 44 {
            self.advance();
            Ok(Some(Token::Comma))
        } else if b == 91 {
            self.advance();
            Ok(Some(Token::LBracket))
        } else if b == 93 {
            self.advance();
            Ok(Some(Token::RBracket))
        } else if b == 43 {
            self.advance();
            Ok(Some(Token::Plus))
        } else if b == 42 {
            self.advance();
            Ok(Some(Token::Star))
        } else if b == 34 {
            let bytes = self.read_string()?;
            Ok(Some(Token::StringLit(bytes)))
        } else if b == 45 || (48 <= b && b <= 57) {
            let digit_next = match self.peek2() {
                Some(n) => 48 <= n && n <= 57,
                None => false,
            };
            if b == 45 && !digit_next {
                self.advance();
                Ok(Some(Token::Minus))
            } else {
                let n = self.read_number()?;
                Ok(Some(Token::Number(n)))
            }
        } else if (65 <= b && b <= 90) || (97 <= b && b <= 122) || b == 95 || b == 46 {
            let s = self.read_ident();
            Ok(Some(Token::Ident(s)))
        } else {
            let shown = debug_char(b);
            Err(SimError::Lex {
                line: self.line,
                col: self.col,
                msg: concat2("unexpected character: ", shown.as_str()),
            })
        }
    }

    /// The tokens of the whole source, each with the line it starts on, ending with `Eof`.
    pub fn tokenize(&mut self) -> (r: Result<Vec<(Token, usize)>, SimError>)
        requires old(self).wf(),
        ensures
            final(self).wf(),
            final(self).input() == old(self).input(),
            match scan_tokens(old(self).input(), old(self).cursor()) {
                Ok(ts) => r matches Ok(v) && tokens_view(v@) == ts,
                Err(f) => r matches Err(e) && e@ == f,
            },
    {
        let ghost target = scan_tokens(self.input(), self.cursor());
        let mut tokens: Vec<(Token, usize)> = Vec::new();
        loop
            invariant_except_break
                with_tokens(tokens_view(tokens@), scan_tokens(self.input(), self.cursor())) == target,
            invariant
                self.wf(),
                self.input() == old(self).input(),
                target == scan_tokens(old(self).input(), old(self).cursor()),
            ensures
                target matches Ok(ts) && tokens_view(tokens@) == ts,
            decreases self.input().len() - self.cursor().pos,
        {
            let ghost c = self.cursor();
            let ghost before = tokens@;
            self.skip_whitespace();
            let line = self.line;
            if self.peek().is_none() {
                tokens.push((Token::Eof, line));
                proof {
                    assert(tokens_view(tokens@) =~= tokens_view(before) + seq![(TokenV::Eof, line)]);
                }
                break;
            }
            let ghost c0 = self.cursor();
            let t = match self.next_token() {
                Ok(t) => t,
                Err(e) => {
                    assert(scan_tokens(self.input(), c) == Err::<Seq<(TokenV, usize)>, Fault>(e@));
                    return Err(e);
                },
            };
            assert(c.pos < self.cursor().pos <= self.input().len());
            match t {
                Some(tok) => {
                    tokens.push((tok, line));
                    proof {
                        let rest = scan_tokens(self.input(), self.cursor());
                        assert(tokens_view(tokens@) =~= tokens_view(before) + seq![(tok@, line)]);
                        match rest {
                            Ok(rs) => {
                                assert(tokens_view(before) + (seq![(tok@, line)] + rs)
                                    =~= tokens_view(tokens@) + rs);
                            },
                            Err(f) => {},
                        }
                    }
                },
                None => {},
            }
        }
        Ok(tokens)
    }
}

/// Scanned digits are digits of their base, and so ASCII.
proof fn lemma_scanned_digits(s: Seq<u8>, c: Cursor, radix: u32)
    ensures
        forall|i: int| 0 <= i < scan_digits(s, c, radix).0.len() ==> radix_digit(#[trigger] scan_digits(s, c, radix).0[i], radix),
    decreases s.len() - c.pos,
{
    if 0 <= c.pos < s.len() && radix_digit(s[c.pos], radix) {
        lemma_scanned_digits(s, bump(s, c), radix);
        let rest = scan_digits(s, bump(s, c), radix).0;
        let all = scan_digits(s, c, radix).0;
        assert(all == seq![s[c.pos]] + rest);
        assert forall|i: int| 0 <= i < all.len() implies radix_digit(#[trigger] all[i], radix) by {
            if i > 0 {
                assert(all[i] == rest[i - 1]);
            }
        }
    } else if 0 <= c.pos < s.len() && s[c.pos] == 95 {
        lemma_scanned_digits(s, bump(s, c), radix);
        assert(scan_digits(s, c, radix) == scan_digits(s, bump(s, c), radix));
    } else {
        assert(scan_digits(s, c, radix).0.len() == 0);
    }
}

/// A prefix of a digit string is worth no more than the whole.
proof fn lemma_digits_prefix(ds: Seq<u8>, radix: u32, i: int)
    requires 0 <= i <= ds.len(), radix >= 1,
    ensures digits_value(ds.take(i), radix) <= digits_value(ds, radix),
    decreases ds.len(),
{
    if i < ds.len() {
        assert(ds.drop_last().take(i) =~= ds.take(i));
        lemma_digits_prefix(ds.drop_last(), radix, i);
        assert(digits_value(ds.drop_last(), radix) <= digits_value(ds.drop_last(), radix) * radix as nat) by (nonlinear_arith)
            requires radix >= 1;
    } else {
        assert(ds.take(i) =~= ds);
    }
}

/// The value of a digit string, when it is at most `limit`.
fn parse_digits(ds: &Vec<u8>, radix: u32, limit: u64) -> (r: Option<u64>)
    requires
        radix == 2 || radix == 8 || radix == 10 || radix == 16,
        forall|i: int| 0 <= i < ds@.len() ==> radix_digit(#[trigger] ds@[i], radix),
    ensures
        match r {
            Some(v) => v == digits_value(ds@, radix) && v <= limit,
            None => digits_value(ds@, radix) > limit,
        },
{
    let mut acc: u64 = 0;
    let mut i: usize = 0;
    while i < ds.len()
        invariant
            i <= ds@.len(),
            radix == 2 || radix == 8 || radix == 10 || radix == 16,
            forall|j: int| 0 <= j < ds@.len() ==> radix_digit(#[trigger] ds@[j], radix),
            acc == digits_value(ds@.take(i as int), radix),
            acc <= limit,
        decreases ds@.len() - i,
    {
        let b = ds[i];
        let d: u64 = if b <= 57 { (b - 48) as u64 } else if b >= 97 { (b - 87) as u64 } else { (b - 55) as u64 };
        proof {
            assert(ds@.take(i + 1).drop_last() =~= ds@.take(i as int));
            assert(d == digit_value(b));
        }
        let next = match acc.checked_mul(radix as u64) {
            Some(m) => m.checked_add(d),
            None => None,
        };
        match next {
            Some(v) if v <= limit => {
                acc = v;
                i = i + 1;
            },
            _ => {
                proof { lemma_digits_prefix(ds@, radix, i + 1); }
                return None;
            },
        }
    }
    proof { assert(ds@.take(ds@.len() as int) =~= ds@); }
    Some(acc)
}

/// Tokenizing, when it succeeds, ends with an `Eof` token, and with no other `Eof` before it.
pub proof fn law_tokens_end_with_eof(s: Seq<u8>, c: Cursor)
    ensures
        scan_tokens(s, c) matches Ok(ts) ==> ts.len() > 0 && ts.last().0 is Eof
            && forall|i: int| 0 <= i < ts.len() - 1 ==> !(#[trigger] ts[i].0 is Eof),
    decreases s.len() - c.pos,
{
    let c0 = skip_space(s, c);
    if 0 <= c0.pos < s.len() {
        if let Ok((t, c1)) = scan_token(s, c0) {
            lemma_skip_space_moves(s, c);
            lemma_token_moves(s, c0);
            law_tokens_end_with_eof(s, c1);
            if let Ok(rest) = scan_tokens(s, c1) {
                if let Some(tok) = t {
                    let ts = seq![(tok, c0.line as usize)] + rest;
                    assert(!(tok is Eof));
                    assert forall|i: int| 0 <= i < ts.len() - 1 implies !(#[trigger] ts[i].0 is Eof) by {
                        if i > 0 {
                            assert(ts[i] == rest[i - 1]);
                        }
                    }
                }
            }
        }
    }
}

} // verus!
