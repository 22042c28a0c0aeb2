//! Numbers in decimal and hexadecimal, and the text helpers that messages are built with.
use vstd::prelude::*;
use vstd::utf8::{decode_utf8, valid_utf8};
use crate::ast::{Op, Operand, OperandV};
use crate::lexer::{Token, TokenV};

verus! {

/// The character of a digit value below 16: `0` to `9`, then `a` to `f`.
pub open spec fn digit_char(d: nat) -> char {
    if d < 10 { (48 + d) as char } else { (87 + d) as char }
}

/// The decimal digits of `n`, most significant first, without leading zeros.
pub open spec fn decimal_digits(n: nat) -> Seq<char>
    decreases n,
{
    if n < 10 { seq![digit_char(n)] } else { decimal_digits(n / 10).push(digit_char(n % 10)) }
}

/// The lowercase hexadecimal digits of `n`, most significant first, without leading zeros.
pub open spec fn hex_digits(n: nat) -> Seq<char>
    decreases n,
{
    if n < 16 { seq![digit_char(n)] } else { hex_digits(n / 16).push(digit_char(n % 16)) }
}

/// `s` with zeros put in front up to `width` characters.
pub open spec fn zero_pad(s: Seq<char>, width: nat) -> Seq<char> {
    if s.len() >= width { s } else { Seq::new((width - s.len()) as nat, |i: int| '0') + s }
}

/// `0x` and the hexadecimal digits of `n`.
pub open spec fn hex_text(n: nat) -> Seq<char> {
    seq!['0', 'x'] + hex_digits(n)
}

/// What `{:?}` shows for the byte `b` taken as a `char`: the character quoted, escaped where
/// it is not printable.
pub uninterp spec fn char_debug(b: u8) -> Seq<char>;

/// What `{:?}` shows for a text: the text in double quotes, with quotes, backslashes and
/// characters that do not print escaped.
pub uninterp spec fn str_debug(s: Seq<char>) -> Seq<char>;

/// The text of one digit below 16.
fn digit_text(d: u64) -> (r: &'static str)
    requires d < 16,
    ensures r@ == seq![digit_char(d as nat)],
{
    match d {
        0 => { proof { reveal_strlit("0"); } "0" },
        1 => { proof { reveal_strlit("1"); } "1" },
        2 => { proof { reveal_strlit("2"); } "2" },
        3 => { proof { reveal_strlit("3"); } "3" },
        4 => { proof { reveal_strlit("4"); } "4" },
        5 => { proof { reveal_strlit("5"); } "5" },
        6 => { proof { reveal_strlit("6"); } "6" },
        7 => { proof { reveal_strlit("7"); } "7" },
        8 => { proof { reveal_strlit("8"); } "8" },
        9 => { proof { reveal_strlit("9"); } "9" },
        10 => { proof { reveal_strlit("a"); } "a" },
        11 => { proof { reveal_strlit("b"); } "b" },
        12 => { proof { reveal_strlit("c"); } "c" },
        13 => { proof { reveal_strlit("d"); } "d" },
        14 => { proof { reveal_strlit("e"); } "e" },
        _ => { proof { reveal_strlit("f"); } "f" },
    }
}

/// The decimal digits of `n`.
pub(crate) fn decimal(n: u64) -> (r: String)
    ensures r@ == decimal_digits(n as nat),
    decreases n,
{
    if n < 10 {
        digit_text(n).to_owned()
    } else {
        let mut r = decimal(n / 10);
        r.append(digit_text(n % 10));
        r
    }
}

/// The lowercase hexadecimal digits of `n`.
fn hex_string(n: u64) -> (r: String)
    ensures r@ == hex_digits(n as nat),
    decreases n,
{
    if n < 16 {
        digit_text(n).to_owned()
    } else {
        let mut r = hex_string(n / 16);
        r.append(digit_text(n % 16));
        r
    }
}

/// `0x` and the lowercase hexadecimal digits of `n`.
pub(crate) fn hex(n: u64) -> (r: String)
    ensures r@ == hex_text(n as nat),
{
    let mut r = "0x".to_owned();
    r.append(hex_string(n).as_str());
    proof { reveal_strlit("0x"); }
    r
}

/// `0x` and the lowercase hexadecimal digits of `n` padded with zeros to sixteen.
pub(crate) fn hex_padded(n: u64) -> (r: String)
    ensures r@ == seq!['0', 'x'] + zero_pad(hex_digits(n as nat), 16),
{
    let digits = hex_string(n);
    let len = digits.as_str().unicode_len();
    let mut r = "0x".to_owned();
    proof { reveal_strlit("0x"); reveal_strlit("0"); }
    let mut i: usize = len;
    while i < 16
        invariant
            len == hex_digits(n as nat).len(),
            len <= i <= 16 || (len > 16 && i == len),
            r@ == seq!['0', 'x'] + Seq::new((i - len) as nat, |k: int| '0'),
        decreases 16 - i,
    {
        r.append("0");
        proof { reveal_strlit("0"); }
        assert(Seq::new((i + 1 - len) as nat, |k: int| '0') =~= Seq::new((i - len) as nat, |k: int| '0') + seq!['0']);
        i = i + 1;
    }
    r.append(digits.as_str());
    proof {
        if len < 16 {
            assert(zero_pad(hex_digits(n as nat), 16) =~= Seq::new((16 - len) as nat, |k: int| '0') + hex_digits(n as nat));
        } else {
            assert(Seq::new((i - len) as nat, |k: int| '0') =~= Seq::<char>::empty());
        }
    }
    r
}

/// `format!` with `{:?}` on a byte taken as a `char`.
#[verifier::external_body]
pub(crate) fn debug_char(b: u8) -> (r: String)
    ensures r@ == char_debug(b),
{
    format!("{:?}", b as char)
}

/// `format!` with `{:?}` on a text.
#[verifier::external_body]
pub(crate) fn debug_str(s: &str) -> (r: String)
    ensures r@ == str_debug(s@),
{
    format!("{:?}", s)
}

/// What `String::from_utf8_lossy` gives for `bytes`: their text, with each invalid sequence
/// replaced by U+FFFD.
pub uninterp spec fn utf8_lossy(bytes: Seq<u8>) -> Seq<char>;

/// `String::from_utf8_lossy`, owned. Bytes that are valid UTF-8 give exactly their text.
#[verifier::external_body]
pub(crate) fn lossy_text(bytes: &[u8]) -> (r: String)
    ensures
        r@ == utf8_lossy(bytes@),
        valid_utf8(bytes@) ==> r@ == decode_utf8(bytes@),
{
    String::from_utf8_lossy(bytes).into_owned()
}

/// An owned copy of `s`.
pub fn owned(s: &str) -> (r: String)
    ensures r@ == s@,
{
    s.to_owned()
}

/// `a` and `b` one after another.
pub fn concat2(a: &str, b: &str) -> (r: String)
    ensures r@ == a@ + b@,
{
    let mut r = a.to_owned();
    r.append(b);
    r
}

/// `a`, `b` and `c` one after another.
pub fn concat3(a: &str, b: &str, c: &str) -> (r: String)
    ensures r@ == a@ + b@ + c@,
{
    let mut r = a.to_owned();
    r.append(b);
    r.append(c);
    r
}

/// `a`, `b`, `c` and `d` one after another.
pub fn concat4(a: &str, b: &str, c: &str, d: &str) -> (r: String)
    ensures r@ == a@ + b@ + c@ + d@,
{
    let mut r = a.to_owned();
    r.append(b);
    r.append(c);
    r.append(d);
    r
}

} // verus!
