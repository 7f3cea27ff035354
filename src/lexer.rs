use vstd::prelude::*;

use crate::ir::Register;

verus! {

/// The tokens of the textual IR. An identifier's text is the source between
/// the bounds of its lexeme.
#[derive(Clone, Copy, Debug, PartialEq, Eq, Structural)]
pub enum Token {
    Ret,
    Jmp,
    Cmp,
    If,
    Call,
    Phi,
    Print,
    Dump,
    Nop,
    Jz,
    Jnz,
    Je,
    Jne,
    Jl,
    Jle,
    Jg,
    Jge,
    Jnl,
    Jnle,
    Jng,
    Jnge,
    LParen,
    RParen,
    Colon,
    Assign,
    Comma,
    Add,
    Sub,
    Mul,
    Div,
    Mod,
    LShift,
    RShift,
    RShiftLog,
    Eq,
    Neq,
    Less,
    Leq,
    Greater,
    Geq,
    BitAnd,
    BitXor,
    BitOr,
    BitNot,
    LogAnd,
    LogOr,
    LogNot,
    NewLine,
    /// `#n`
    Temp(u64),
    /// `@n`
    Block(u64),
    /// A decimal or `0x` hexadecimal 32-bit constant.
    Const(i32),
    /// `[A-Za-z_][A-Za-z0-9_]*`, not a keyword.
    Id,
    /// Bytes that form no token, or a number out of range.
    Error,
}

/// A token with the byte range `start..end` of the source it was read from.
#[derive(Clone, Copy, Debug, PartialEq, Eq, Structural)]
pub struct Lexeme {
    pub tok: Token,
    pub start: usize,
    pub end: usize,
}

/// The byte classes that the lexer reads runs of.
#[derive(Clone, Copy, Debug, PartialEq, Eq, Structural)]
pub enum CharClass {
    Digit,
    HexDigit,
    Space,
    IdChar,
    NotNewline,
    Zero,
}

pub open spec fn is_digit(c: u8) -> bool {
    48 <= c <= 57
}

pub open spec fn is_hex_digit(c: u8) -> bool {
    is_digit(c) || (97 <= c <= 102) || (65 <= c <= 70)
}

pub open spec fn hex_digit_value(c: u8) -> int {
    if is_digit(c) {
        c - 48
    } else if 97 <= c <= 102 {
        c - 87
    } else {
        c - 55
    }
}

/// Horizontal white space: space, tab, form feed, vertical tab, carriage return.
pub open spec fn is_space(c: u8) -> bool {
    c == 32 || c == 9 || c == 12 || c == 11 || c == 13
}

pub open spec fn is_id_start(c: u8) -> bool {
    (65 <= c <= 90) || (97 <= c <= 122) || c == 95
}

pub open spec fn is_id_char(c: u8) -> bool {
    is_id_start(c) || is_digit(c)
}

pub open spec fn in_class(c: u8, k: CharClass) -> bool {
    match k {
        CharClass::Digit => is_digit(c),
        CharClass::HexDigit => is_hex_digit(c),
        CharClass::Space => is_space(c),
        CharClass::IdChar => is_id_char(c),
        CharClass::NotNewline => c != 10,
        CharClass::Zero => c == 48,
    }
}

/// The end of the run of class-`k` bytes that starts at `i`.
pub open spec fn run_end(s: Seq<u8>, i: int, k: CharClass) -> int
    decreases s.len() - i,
{
    if 0 <= i < s.len() && in_class(s[i], k) {
        run_end(s, i + 1, k)
    } else {
        i
    }
}

/// Byte `i` is `c`.
pub open spec fn at(s: Seq<u8>, i: int, c: u8) -> bool {
    0 <= i < s.len() && s[i] == c
}

/// The end of a number's digits from `i`: a lone `0`, or a run of digits.
pub open spec fn num_end(s: Seq<u8>, i: int) -> int {
    if at(s, i, 48) {
        i + 1
    } else {
        run_end(s, i, CharClass::Digit)
    }
}

/// The value of decimal digits.
pub open spec fn dec_value(d: Seq<u8>) -> int
    decreases d.len(),
{
    if d.len() == 0 {
        0
    } else {
        dec_value(d.drop_last()) * 10 + (d.last() - 48)
    }
}

/// The value of hexadecimal digits.
pub open spec fn hex_value(d: Seq<u8>) -> int
    decreases d.len(),
{
    if d.len() == 0 {
        0
    } else {
        hex_value(d.drop_last()) * 16 + hex_digit_value(d.last())
    }
}

/// The number of bytes that a UTF-8 character with first byte `c` takes.
pub open spec fn utf8_width(c: u8) -> int {
    if 0xC0 <= c <= 0xDF {
        2
    } else if 0xE0 <= c <= 0xEF {
        3
    } else if 0xF0 <= c <= 0xF7 {
        4
    } else {
        1
    }
}

pub open spec fn is_continuation(c: u8) -> bool {
    0x80 <= c <= 0xBF
}

/// The end of at most `k` continuation bytes from `j`.
pub open spec fn cont_end(s: Seq<u8>, j: int, k: nat) -> int
    decreases k,
{
    if k > 0 && 0 <= j < s.len() && is_continuation(s[j]) {
        cont_end(s, j + 1, (k - 1) as nat)
    } else {
        j
    }
}

/// The end of the character that starts at byte `i`: its first byte and the
/// continuation bytes that follow, as many as the first byte announces.
pub open spec fn char_end(s: Seq<u8>, i: int) -> int {
    cont_end(s, i + 1, (utf8_width(s[i]) - 1) as nat)
}

/// An operator or punctuation token at `i`, longest first, and its end; an
/// unknown character is an error token over the whole character.
pub open spec fn op_scan(s: Seq<u8>, i: int) -> (Option<Token>, int) {
    let c = s[i];
    if c == 40 {
        (Some(Token::LParen), i + 1)
    } else if c == 41 {
        (Some(Token::RParen), i + 1)
    } else if c == 58 {
        (Some(Token::Colon), i + 1)
    } else if c == 44 {
        (Some(Token::Comma), i + 1)
    } else if c == 43 {
        (Some(Token::Add), i + 1)
    } else if c == 45 {
        (Some(Token::Sub), i + 1)
    } else if c == 42 {
        (Some(Token::Mul), i + 1)
    } else if c == 47 {
        (Some(Token::Div), i + 1)
    } else if c == 37 {
        (Some(Token::Mod), i + 1)
    } else if c == 94 {
        (Some(Token::BitXor), i + 1)
    } else if c == 126 {
        (Some(Token::BitNot), i + 1)
    } else if c == 61 {
        if at(s, i + 1, 61) { (Some(Token::Eq), i + 2) } else { (Some(Token::Assign), i + 1) }
    } else if c == 33 {
        if at(s, i + 1, 61) { (Some(Token::Neq), i + 2) } else { (Some(Token::LogNot), i + 1) }
    } else if c == 60 {
        if at(s, i + 1, 60) {
            (Some(Token::LShift), i + 2)
        } else if at(s, i + 1, 61) {
            (Some(Token::Leq), i + 2)
        } else {
            (Some(Token::Less), i + 1)
        }
    } else if c == 62 {
        if at(s, i + 1, 62) {
            if at(s, i + 2, 62) { (Some(Token::RShiftLog), i + 3) } else { (Some(Token::RShift), i + 2) }
        } else if at(s, i + 1, 61) {
            (Some(Token::Geq), i + 2)
        } else {
            (Some(Token::Greater), i + 1)
        }
    } else if c == 38 {
        if at(s, i + 1, 38) { (Some(Token::LogAnd), i + 2) } else { (Some(Token::BitAnd), i + 1) }
    } else if c == 124 {
        if at(s, i + 1, 124) { (Some(Token::LogOr), i + 2) } else { (Some(Token::BitOr), i + 1) }
    } else {
        (Some(Token::Error), char_end(s, i))
    }
}

/// The token that starts at byte `i` (`None` for white space and comments) and
/// where it ends: the longest match, a keyword before an identifier.
pub open spec fn scan(s: Seq<u8>, i: int) -> (Option<Token>, int) {
    let c = s[i];
    if is_space(c) {
        (None, run_end(s, i, CharClass::Space))
    } else if c == 47 && at(s, i + 1, 47) {
        (None, run_end(s, i, CharClass::NotNewline))
    } else if c == 10 {
        (Some(Token::NewLine), i + 1)
    } else if (c == 35 || c == 64) && i + 1 < s.len() && is_digit(s[i + 1]) {
        let e = num_end(s, i + 1);
        let v = dec_value(s.subrange(i + 1, e));
        (
            Some(
                if v > u64::MAX {
                    Token::Error
                } else if c == 35 {
                    Token::Temp(v as u64)
                } else {
                    Token::Block(v as u64)
                },
            ),
            e,
        )
    } else if c == 48 && (at(s, i + 1, 120) || at(s, i + 1, 88)) && i + 2 < s.len() && is_hex_digit(
        s[i + 2],
    ) {
        let e = run_end(s, i + 2, CharClass::HexDigit);
        let z = run_end(s, i + 2, CharClass::Zero);
        (
            Some(
                if e - z > 8 {
                    Token::Error
                } else {
                    Token::Const(hex_value(s.subrange(i + 2, e)) as i32)
                },
            ),
            e,
        )
    } else if is_digit(c) {
        let e = num_end(s, i);
        let v = dec_value(s.subrange(i, e));
        (Some(if v > i32::MAX { Token::Error } else { Token::Const(v as i32) }), e)
    } else if c == 45 && i + 1 < s.len() && is_digit(s[i + 1]) {
        let e = num_end(s, i + 1);
        let v = dec_value(s.subrange(i + 1, e));
        (Some(if v > 2147483648 { Token::Error } else { Token::Const((-v) as i32) }), e)
    } else if is_id_start(c) {
        let e = run_end(s, i, CharClass::IdChar);
        (
            Some(
                match keyword(s.subrange(i, e)) {
                    Some(k) => k,
                    None => Token::Id,
                },
            ),
            e,
        )
    } else {
        op_scan(s, i)
    }
}

/// The lexemes of `s` from byte `i` on.
pub open spec fn lex_from(s: Seq<u8>, i: int) -> Seq<Lexeme>
    decreases s.len() - i,
{
    if 0 <= i < s.len() {
        let (t, j) = scan(s, i);
        if i < j <= s.len() {
            match t {
                Some(tok) => seq![Lexeme { tok, start: i as usize, end: j as usize }] + lex_from(s, j),
                None => lex_from(s, j),
            }
        } else {
            Seq::empty()
        }
    } else {
        Seq::empty()
    }
}

/// The lexemes of `s`.
pub open spec fn lex_spec(s: Seq<u8>) -> Seq<Lexeme> {
    lex_from(s, 0)
}

/// The keyword spelled by the identifier bytes `w`, if it is one.
pub open spec fn keyword(w: Seq<u8>) -> Option<Token> {
    if w.len() == 3 && w[0] == 114u8 && w[1] == 101u8 && w[2] == 116u8 {
        Some(Token::Ret)
    } else if w.len() == 3 && w[0] == 106u8 && w[1] == 109u8 && w[2] == 112u8 {
        Some(Token::Jmp)
    } else if w.len() == 3 && w[0] == 99u8 && w[1] == 109u8 && w[2] == 112u8 {
        Some(Token::Cmp)
    } else if w.len() == 2 && w[0] == 105u8 && w[1] == 102u8 {
        Some(Token::If)
    } else if w.len() == 4 && w[0] == 99u8 && w[1] == 97u8 && w[2] == 108u8 && w[3] == 108u8 {
        Some(Token::Call)
    } else if w.len() == 3 && w[0] == 112u8 && w[1] == 104u8 && w[2] == 105u8 {
        Some(Token::Phi)
    } else if w.len() == 5 && w[0] == 112u8 && w[1] == 114u8 && w[2] == 105u8 && w[3] == 110u8 && w[4] == 116u8 {
        Some(Token::Print)
    } else if w.len() == 4 && w[0] == 100u8 && w[1] == 117u8 && w[2] == 109u8 && w[3] == 112u8 {
        Some(Token::Dump)
    } else if w.len() == 3 && w[0] == 110u8 && w[1] == 111u8 && w[2] == 112u8 {
        Some(Token::Nop)
    } else if w.len() == 2 && w[0] == 106u8 && w[1] == 122u8 {
        Some(Token::Jz)
    } else if w.len() == 3 && w[0] == 106u8 && w[1] == 110u8 && w[2] == 122u8 {
        Some(Token::Jnz)
    } else if w.len() == 2 && w[0] == 106u8 && w[1] == 101u8 {
        Some(Token::Je)
    } else if w.len() == 3 && w[0] == 106u8 && w[1] == 110u8 && w[2] == 101u8 {
        Some(Token::Jne)
    } else if w.len() == 2 && w[0] == 106u8 && w[1] == 108u8 {
        Some(Token::Jl)
    } else if w.len() == 3 && w[0] == 106u8 && w[1] == 108u8 && w[2] == 101u8 {
        Some(Token::Jle)
    } else if w.len() == 2 && w[0] == 106u8 && w[1] == 103u8 {
        Some(Token::Jg)
    } else if w.len() == 3 && w[0] == 106u8 && w[1] == 103u8 && w[2] == 101u8 {
        Some(Token::Jge)
    } else if w.len() == 3 && w[0] == 106u8 && w[1] == 110u8 && w[2] == 108u8 {
        Some(Token::Jnl)
    } else if w.len() == 4 && w[0] == 106u8 && w[1] == 110u8 && w[2] == 108u8 && w[3] == 101u8 {
        Some(Token::Jnle)
    } else if w.len() == 3 && w[0] == 106u8 && w[1] == 110u8 && w[2] == 103u8 {
        Some(Token::Jng)
    } else if w.len() == 4 && w[0] == 106u8 && w[1] == 110u8 && w[2] == 103u8 && w[3] == 101u8 {
        Some(Token::Jnge)
    } else {
        None
    }
}

/// The register named by the identifier bytes `w`, if it is one.
pub open spec fn register_named(w: Seq<u8>) -> Option<Register> {
    if w.len() == 3 && w[0] == 101u8 && w[1] == 97u8 && w[2] == 120u8 {
        Some(Register::EAX)
    } else if w.len() == 3 && w[0] == 101u8 && w[1] == 98u8 && w[2] == 120u8 {
        Some(Register::EBX)
    } else if w.len() == 3 && w[0] == 101u8 && w[1] == 99u8 && w[2] == 120u8 {
        Some(Register::ECX)
    } else if w.len() == 3 && w[0] == 101u8 && w[1] == 100u8 && w[2] == 120u8 {
        Some(Register::EDX)
    } else if w.len() == 3 && w[0] == 101u8 && w[1] == 100u8 && w[2] == 105u8 {
        Some(Register::EDI)
    } else if w.len() == 3 && w[0] == 101u8 && w[1] == 115u8 && w[2] == 105u8 {
        Some(Register::ESI)
    } else if w.len() == 3 && w[0] == 101u8 && w[1] == 98u8 && w[2] == 112u8 {
        Some(Register::EBP)
    } else if w.len() == 3 && w[0] == 114u8 && w[1] == 56u8 && w[2] == 100u8 {
        Some(Register::R8D)
    } else if w.len() == 3 && w[0] == 114u8 && w[1] == 57u8 && w[2] == 100u8 {
        Some(Register::R9D)
    } else if w.len() == 4 && w[0] == 114u8 && w[1] == 49u8 && w[2] == 48u8 && w[3] == 100u8 {
        Some(Register::R10D)
    } else if w.len() == 4 && w[0] == 114u8 && w[1] == 49u8 && w[2] == 49u8 && w[3] == 100u8 {
        Some(Register::R11D)
    } else if w.len() == 4 && w[0] == 114u8 && w[1] == 49u8 && w[2] == 50u8 && w[3] == 100u8 {
        Some(Register::R12D)
    } else if w.len() == 4 && w[0] == 114u8 && w[1] == 49u8 && w[2] == 51u8 && w[3] == 100u8 {
        Some(Register::R13D)
    } else if w.len() == 4 && w[0] == 114u8 && w[1] == 49u8 && w[2] == 52u8 && w[3] == 100u8 {
        Some(Register::R14D)
    } else if w.len() == 4 && w[0] == 114u8 && w[1] == 49u8 && w[2] == 53u8 && w[3] == 100u8 {
        Some(Register::R15D)
    } else {
        None
    }
}

/// The keyword spelled by `s[i..e]`, if it is one.
pub fn keyword_at(s: &[u8], i: usize, e: usize) -> (r: Option<Token>)
    requires
        i <= e <= s@.len(),
    ensures
        r == keyword(s@.subrange(i as int, e as int)),
{
    let n = e - i;
    let ghost w = s@.subrange(i as int, e as int);
    if n == 3 && s[i] == 114u8 && s[i + 1] == 101u8 && s[i + 2] == 116u8 {
        Some(Token::Ret)
    } else if n == 3 && s[i] == 106u8 && s[i + 1] == 109u8 && s[i + 2] == 112u8 {
        Some(Token::Jmp)
    } else if n == 3 && s[i] == 99u8 && s[i + 1] == 109u8 && s[i + 2] == 112u8 {
        Some(Token::Cmp)
    } else if n == 2 && s[i] == 105u8 && s[i + 1] == 102u8 {
        Some(Token::If)
    } else if n == 4 && s[i] == 99u8 && s[i + 1] == 97u8 && s[i + 2] == 108u8 && s[i + 3] == 108u8 {
        Some(Token::Call)
    } else if n == 3 && s[i] == 112u8 && s[i + 1] == 104u8 && s[i + 2] == 105u8 {
        Some(Token::Phi)
    } else if n == 5 && s[i] == 112u8 && s[i + 1] == 114u8 && s[i + 2] == 105u8 && s[i + 3] == 110u8 && s[i + 4] == 116u8 {
        Some(Token::Print)
    } else if n == 4 && s[i] == 100u8 && s[i + 1] == 117u8 && s[i + 2] == 109u8 && s[i + 3] == 112u8 {
        Some(Token::Dump)
    } else if n == 3 && s[i] == 110u8 && s[i + 1] == 111u8 && s[i + 2] == 112u8 {
        Some(Token::Nop)
    } else if n == 2 && s[i] == 106u8 && s[i + 1] == 122u8 {
        Some(Token::Jz)
    } else if n == 3 && s[i] == 106u8 && s[i + 1] == 110u8 && s[i + 2] == 122u8 {
        Some(Token::Jnz)
    } else if n == 2 && s[i] == 106u8 && s[i + 1] == 101u8 {
        Some(Token::Je)
    } else if n == 3 && s[i] == 106u8 && s[i + 1] == 110u8 && s[i + 2] == 101u8 {
        Some(Token::Jne)
    } else if n == 2 && s[i] == 106u8 && s[i + 1] == 108u8 {
        Some(Token::Jl)
    } else if n == 3 && s[i] == 106u8 && s[i + 1] == 108u8 && s[i + 2] == 101u8 {
        Some(Token::Jle)
    } else if n == 2 && s[i] == 106u8 && s[i + 1] == 103u8 {
        Some(Token::Jg)
    } else if n == 3 && s[i] == 106u8 && s[i + 1] == 103u8 && s[i + 2] == 101u8 {
        Some(Token::Jge)
    } else if n == 3 && s[i] == 106u8 && s[i + 1] == 110u8 && s[i + 2] == 108u8 {
        Some(Token::Jnl)
    } else if n == 4 && s[i] == 106u8 && s[i + 1] == 110u8 && s[i + 2] == 108u8 && s[i + 3] == 101u8 {
        Some(Token::Jnle)
    } else if n == 3 && s[i] == 106u8 && s[i + 1] == 110u8 && s[i + 2] == 103u8 {
        Some(Token::Jng)
    } else if n == 4 && s[i] == 106u8 && s[i + 1] == 110u8 && s[i + 2] == 103u8 && s[i + 3] == 101u8 {
        Some(Token::Jnge)
    } else {
        None
    }
}

/// The register named by `s[i..e]`, if it is one.
pub fn register_at(s: &[u8], i: usize, e: usize) -> (r: Option<Register>)
    requires
        i <= e <= s@.len(),
    ensures
        r == register_named(s@.subrange(i as int, e as int)),
{
    let n = e - i;
    if n == 3 && s[i] == 101u8 && s[i + 1] == 97u8 && s[i + 2] == 120u8 {
        Some(Register::EAX)
    } else if n == 3 && s[i] == 101u8 && s[i + 1] == 98u8 && s[i + 2] == 120u8 {
        Some(Register::EBX)
    } else if n == 3 && s[i] == 101u8 && s[i + 1] == 99u8 && s[i + 2] == 120u8 {
        Some(Register::ECX)
    } else if n == 3 && s[i] == 101u8 && s[i + 1] == 100u8 && s[i + 2] == 120u8 {
        Some(Register::EDX)
    } else if n == 3 && s[i] == 101u8 && s[i + 1] == 100u8 && s[i + 2] == 105u8 {
        Some(Register::EDI)
    } else if n == 3 && s[i] == 101u8 && s[i + 1] == 115u8 && s[i + 2] == 105u8 {
        Some(Register::ESI)
    } else if n == 3 && s[i] == 101u8 && s[i + 1] == 98u8 && s[i + 2] == 112u8 {
        Some(Register::EBP)
    } else if n == 3 && s[i] == 114u8 && s[i + 1] == 56u8 && s[i + 2] == 100u8 {
        Some(Register::R8D)
    } else if n == 3 && s[i] == 114u8 && s[i + 1] == 57u8 && s[i + 2] == 100u8 {
        Some(Register::R9D)
    } else if n == 4 && s[i] == 114u8 && s[i + 1] == 49u8 && s[i + 2] == 48u8 && s[i + 3] == 100u8 {
        Some(Register::R10D)
    } else if n == 4 && s[i] == 114u8 && s[i + 1] == 49u8 && s[i + 2] == 49u8 && s[i + 3] == 100u8 {
        Some(Register::R11D)
    } else if n == 4 && s[i] == 114u8 && s[i + 1] == 49u8 && s[i + 2] == 50u8 && s[i + 3] == 100u8 {
        Some(Register::R12D)
    } else if n == 4 && s[i] == 114u8 && s[i + 1] == 49u8 && s[i + 2] == 51u8 && s[i + 3] == 100u8 {
        Some(Register::R13D)
    } else if n == 4 && s[i] == 114u8 && s[i + 1] == 49u8 && s[i + 2] == 52u8 && s[i + 3] == 100u8 {
        Some(Register::R14D)
    } else if n == 4 && s[i] == 114u8 && s[i + 1] == 49u8 && s[i + 2] == 53u8 && s[i + 3] == 100u8 {
        Some(Register::R15D)
    } else {
        None
    }
}

fn in_class_exec(c: u8, k: CharClass) -> (r: bool)
    ensures
        r == in_class(c, k),
{
    match k {
        CharClass::Digit => 48 <= c && c <= 57,
        CharClass::HexDigit => (48 <= c && c <= 57) || (97 <= c && c <= 102) || (65 <= c && c <= 70),
        CharClass::Space => c == 32 || c == 9 || c == 12 || c == 11 || c == 13,
        CharClass::IdChar => (65 <= c && c <= 90) || (97 <= c && c <= 122) || c == 95 || (48 <= c
            && c <= 57),
        CharClass::NotNewline => c != 10,
        CharClass::Zero => c == 48,
    }
}

proof fn lemma_run_end_bounds(s: Seq<u8>, i: int, k: CharClass)
    requires
        0 <= i <= s.len(),
    ensures
        i <= run_end(s, i, k) <= s.len(),
        forall|j: int| i <= j < run_end(s, i, k) ==> in_class(#[trigger] s[j], k),
    decreases s.len() - i,
{
    if i < s.len() && in_class(s[i], k) {
        lemma_run_end_bounds(s, i + 1, k);
    }
}

/// The end of the run of class-`k` bytes from `i`.
fn run_end_at(s: &[u8], i: usize, k: CharClass) -> (r: usize)
    requires
        i <= s@.len(),
    ensures
        r == run_end(s@, i as int, k),
        i <= r <= s@.len(),
        i < s@.len() && in_class(s@[i as int], k) ==> i < r,
{
    let mut j = i;
    while j < s.len() && in_class_exec(s[j], k)
        invariant
            i <= j <= s@.len(),
            run_end(s@, j as int, k) == run_end(s@, i as int, k),
        decreases s@.len() - j,
    {
        j = j + 1;
    }
    proof {
        lemma_run_end_bounds(s@, i as int, k);
        if i < s@.len() && in_class(s@[i as int], k) {
            lemma_run_end_bounds(s@, i + 1, k);
        }
    }
    j
}

/// The end of a number's digits from `i`.
fn num_end_at(s: &[u8], i: usize) -> (r: usize)
    requires
        i <= s@.len(),
    ensures
        r == num_end(s@, i as int),
        i <= r <= s@.len(),
        i < s@.len() && is_digit(s@[i as int]) ==> i < r,
{
    if i < s.len() && s[i] == 48 {
        i + 1
    } else {
        run_end_at(s, i, CharClass::Digit)
    }
}

proof fn lemma_dec_value_grows(d: Seq<u8>)
    requires
        d.len() > 0,
        is_digit(d.last()),
        dec_value(d.drop_last()) >= 0,
    ensures
        dec_value(d) >= dec_value(d.drop_last()),
        dec_value(d) >= 0,
{
}

proof fn lemma_dec_value_nonneg(d: Seq<u8>)
    requires
        forall|j: int| 0 <= j < d.len() ==> is_digit(#[trigger] d[j]),
    ensures
        dec_value(d) >= 0,
    decreases d.len(),
{
    if d.len() > 0 {
        lemma_dec_value_nonneg(d.drop_last());
    }
}

/// The value of the decimal digits `s[i..e]`, or `None` where it exceeds
/// `limit`.
pub(crate) fn dec_at(s: &[u8], i: usize, e: usize, limit: u64) -> (r: Option<u64>)
    requires
        i <= e <= s@.len(),
        forall|j: int| i <= j < e ==> is_digit(#[trigger] s@[j]),
        limit >= 9,
    ensures
        match r {
            Some(v) => v == dec_value(s@.subrange(i as int, e as int)) && v <= limit,
            None => dec_value(s@.subrange(i as int, e as int)) > limit,
        },
{
    let mut v: u64 = 0;
    let mut over = false;
    let mut k = i;
    while k < e
        invariant
            i <= k <= e <= s@.len(),
            forall|j: int| i <= j < e ==> is_digit(#[trigger] s@[j]),
            limit >= 9,
            dec_value(s@.subrange(i as int, k as int)) >= 0,
            !over ==> v == dec_value(s@.subrange(i as int, k as int)) && v <= limit,
            over ==> dec_value(s@.subrange(i as int, k as int)) > limit,
        decreases e - k,
    {
        let ghost prev = s@.subrange(i as int, k as int);
        let ghost next = s@.subrange(i as int, k + 1);
        assert(next.drop_last() =~= prev);
        assert(next.last() == s@[k as int]);
        assert(is_digit(s@[k as int]));
        let d = (s[k] - 48) as u64;
        proof {
            lemma_dec_value_grows(next);
        }
        if !over {
            if v <= (limit - d) / 10 {
                assert(v * 10 + d <= limit) by (nonlinear_arith)
                    requires
                        v <= (limit - d) / 10,
                        d <= 9,
                        limit >= 9,
                ;
                v = v * 10 + d;
            } else {
                assert(v * 10 + d > limit) by (nonlinear_arith)
                    requires
                        v > (limit - d) / 10,
                        d <= 9,
                        limit >= 9,
                ;
                over = true;
            }
        }
        k = k + 1;
    }
    if over {
        None
    } else {
        Some(v)
    }
}

/// The value of the hexadecimal digits `s[i..e]`, at most eight of them.
fn hex_at(s: &[u8], i: usize, e: usize) -> (r: u64)
    requires
        i <= e <= s@.len(),
        e - i <= 8,
        forall|j: int| i <= j < e ==> is_hex_digit(#[trigger] s@[j]),
    ensures
        r == hex_value(s@.subrange(i as int, e as int)),
{
    let mut v: u64 = 0;
    let mut k = i;
    while k < e
        invariant
            i <= k <= e <= s@.len(),
            e - i <= 8,
            forall|j: int| i <= j < e ==> is_hex_digit(#[trigger] s@[j]),
            v == hex_value(s@.subrange(i as int, k as int)),
            v < pow16((k - i) as nat),
        decreases e - k,
    {
        let ghost next = s@.subrange(i as int, k + 1);
        assert(next.drop_last() =~= s@.subrange(i as int, k as int));
        assert(next.last() == s@[k as int]);
        let c = s[k];
        let d: u64 = if 48 <= c && c <= 57 {
            (c - 48) as u64
        } else if 97 <= c && c <= 102 {
            (c - 87) as u64
        } else {
            (c - 55) as u64
        };
        assert(d < 16);
        assert(pow16((k + 1 - i) as nat) == 16 * pow16((k - i) as nat));
        assert(pow16((k - i) as nat) <= 0x1_0000_0000) by {
            lemma_pow16_le((k - i) as nat);
        }
        assert(v * 16 + d < 16 * pow16((k - i) as nat)) by (nonlinear_arith)
            requires
                v < pow16((k - i) as nat),
                d < 16,
        ;
        v = v * 16 + d;
        k = k + 1;
    }
    v
}

spec fn pow16(n: nat) -> int
    decreases n,
{
    if n == 0 {
        1
    } else {
        16 * pow16((n - 1) as nat)
    }
}

proof fn lemma_pow16_le(n: nat)
    requires
        n <= 8,
    ensures
        pow16(n) <= 0x1_0000_0000,
        pow16(n) >= 1,
{
    reveal_with_fuel(pow16, 9);
    if n == 0 {
    } else if n == 1 {
    } else if n == 2 {
    } else if n == 3 {
    } else if n == 4 {
    } else if n == 5 {
    } else if n == 6 {
    } else if n == 7 {
    } else {
    }
}


fn at_exec(s: &[u8], i: usize, c: u8) -> (r: bool)
    ensures
        r == at(s@, i as int, c),
{
    i < s.len() && s[i] == c
}

/// The operator or punctuation token at `i` and its end.
fn op_scan_at(s: &[u8], i: usize) -> (r: (Token, usize))
    requires
        i < s@.len(),
    ensures
        (Some(r.0), r.1 as int) == op_scan(s@, i as int),
        i < r.1 <= s@.len(),
{
    let c = s[i];
    if c == 40 {
        (Token::LParen, i + 1)
    } else if c == 41 {
        (Token::RParen, i + 1)
    } else if c == 58 {
        (Token::Colon, i + 1)
    } else if c == 44 {
        (Token::Comma, i + 1)
    } else if c == 43 {
        (Token::Add, i + 1)
    } else if c == 45 {
        (Token::Sub, i + 1)
    } else if c == 42 {
        (Token::Mul, i + 1)
    } else if c == 47 {
        (Token::Div, i + 1)
    } else if c == 37 {
        (Token::Mod, i + 1)
    } else if c == 94 {
        (Token::BitXor, i + 1)
    } else if c == 126 {
        (Token::BitNot, i + 1)
    } else if c == 61 {
        if at_exec(s, i + 1, 61) { (Token::Eq, i + 2) } else { (Token::Assign, i + 1) }
    } else if c == 33 {
        if at_exec(s, i + 1, 61) { (Token::Neq, i + 2) } else { (Token::LogNot, i + 1) }
    } else if c == 60 {
        if at_exec(s, i + 1, 60) {
            (Token::LShift, i + 2)
        } else if at_exec(s, i + 1, 61) {
            (Token::Leq, i + 2)
        } else {
            (Token::Less, i + 1)
        }
    } else if c == 62 {
        if at_exec(s, i + 1, 62) {
            if at_exec(s, i + 2, 62) { (Token::RShiftLog, i + 3) } else { (Token::RShift, i + 2) }
        } else if at_exec(s, i + 1, 61) {
            (Token::Geq, i + 2)
        } else {
            (Token::Greater, i + 1)
        }
    } else if c == 38 {
        if at_exec(s, i + 1, 38) { (Token::LogAnd, i + 2) } else { (Token::BitAnd, i + 1) }
    } else if c == 124 {
        if at_exec(s, i + 1, 124) { (Token::LogOr, i + 2) } else { (Token::BitOr, i + 1) }
    } else {
        (Token::Error, char_end_at(s, i))
    }
}

/// The end of the character that starts at byte `i`.
fn char_end_at(s: &[u8], i: usize) -> (r: usize)
    requires
        i < s@.len(),
    ensures
        r == char_end(s@, i as int),
        i < r <= s@.len(),
{
    let c = s[i];
    let w: usize = if 0xC0 <= c && c <= 0xDF {
        2
    } else if 0xE0 <= c && c <= 0xEF {
        3
    } else if 0xF0 <= c && c <= 0xF7 {
        4
    } else {
        1
    };
    let mut j = i + 1;
    let mut k = w - 1;
    while k > 0 && j < s.len() && 0x80 <= s[j] && s[j] <= 0xBF
        invariant
            i < j <= s@.len(),
            cont_end(s@, j as int, k as nat) == char_end(s@, i as int),
        decreases k,
    {
        j = j + 1;
        k = k - 1;
    }
    j
}

/// The token that starts at byte `i` (`None` for white space and comments)
/// and where it ends.
pub fn scan_at(s: &[u8], i: usize) -> (r: (Option<Token>, usize))
    requires
        i < s@.len(),
    ensures
        (r.0, r.1 as int) == scan(s@, i as int),
        i < r.1 <= s@.len(),
{
    let c = s[i];
    if c == 32 || c == 9 || c == 12 || c == 11 || c == 13 {
        let e = run_end_at(s, i, CharClass::Space);
        (None, e)
    } else if c == 47 && at_exec(s, i + 1, 47) {
        let e = run_end_at(s, i, CharClass::NotNewline);
        (None, e)
    } else if c == 10 {
        (Some(Token::NewLine), i + 1)
    } else if (c == 35 || c == 64) && i + 1 < s.len() && 48 <= s[i + 1] && s[i + 1] <= 57 {
        let e = num_end_at(s, i + 1);
        proof {
            lemma_run_end_bounds(s@, i + 1, CharClass::Digit);
        }
        let t = match dec_at(s, i + 1, e, u64::MAX) {
            None => Token::Error,
            Some(v) => if c == 35 {
                Token::Temp(v)
            } else {
                Token::Block(v)
            },
        };
        (Some(t), e)
    } else if c == 48 && (at_exec(s, i + 1, 120) || at_exec(s, i + 1, 88)) && i + 2 < s.len() && ((
    48 <= s[i + 2] && s[i + 2] <= 57) || (97 <= s[i + 2] && s[i + 2] <= 102) || (65 <= s[i + 2]
        && s[i + 2] <= 70)) {
        let e = run_end_at(s, i + 2, CharClass::HexDigit);
        let z = run_end_at(s, i + 2, CharClass::Zero);
        proof {
            lemma_run_end_bounds(s@, i + 2, CharClass::HexDigit);
            lemma_run_end_bounds(s@, i + 2, CharClass::Zero);
            lemma_zeros_within(s@, i + 2);
        }
        if e - z > 8 {
            (Some(Token::Error), e)
        } else {
            let v = hex_at(s, z, e);
            proof {
                lemma_hex_leading_zeros(s@, i + 2, z as int, e as int);
            }
            (Some(Token::Const(#[verifier::truncate] (v as i32))), e)
        }
    } else if 48 <= c && c <= 57 {
        let e = num_end_at(s, i);
        proof {
            lemma_run_end_bounds(s@, i as int, CharClass::Digit);
        }
        let t = match dec_at(s, i, e, 2147483647) {
            None => Token::Error,
            Some(v) => Token::Const(v as i32),
        };
        (Some(t), e)
    } else if c == 45 && i + 1 < s.len() && 48 <= s[i + 1] && s[i + 1] <= 57 {
        let e = num_end_at(s, i + 1);
        proof {
            lemma_run_end_bounds(s@, i + 1, CharClass::Digit);
        }
        let t = match dec_at(s, i + 1, e, 2147483648) {
            None => Token::Error,
            Some(v) => {
                let neg: i64 = -(v as i64);
                Token::Const(neg as i32)
            },
        };
        (Some(t), e)
    } else if (65 <= c && c <= 90) || (97 <= c && c <= 122) || c == 95 {
        let e = run_end_at(s, i, CharClass::IdChar);
        let t = match keyword_at(s, i, e) {
            Some(k) => k,
            None => Token::Id,
        };
        (Some(t), e)
    } else {
        let (t, e) = op_scan_at(s, i);
        (Some(t), e)
    }
}

proof fn lemma_zeros_within(s: Seq<u8>, i: int)
    requires
        0 <= i <= s.len(),
    ensures
        i <= run_end(s, i, CharClass::Zero) <= run_end(s, i, CharClass::HexDigit),
    decreases s.len() - i,
{
    if i < s.len() && s[i] == 48 {
        lemma_zeros_within(s, i + 1);
    } else {
        lemma_run_end_bounds(s, i, CharClass::HexDigit);
    }
}

proof fn lemma_hex_leading_zeros(s: Seq<u8>, i: int, z: int, e: int)
    requires
        0 <= i <= z <= e <= s.len(),
        forall|j: int| i <= j < z ==> s[j] == 48,
    ensures
        hex_value(s.subrange(i, e)) == hex_value(s.subrange(z, e)),
    decreases e - i,
{
    if e > z {
        lemma_hex_leading_zeros(s, i, z, e - 1);
        assert(s.subrange(i, e).drop_last() =~= s.subrange(i, e - 1));
        assert(s.subrange(z, e).drop_last() =~= s.subrange(z, e - 1));
    } else {
        lemma_hex_zeros(s.subrange(i, e));
        assert(s.subrange(z, e) =~= Seq::<u8>::empty());
    }
}

proof fn lemma_hex_zeros(d: Seq<u8>)
    requires
        forall|j: int| 0 <= j < d.len() ==> d[j] == 48,
    ensures
        hex_value(d) == 0,
    decreases d.len(),
{
    if d.len() > 0 {
        lemma_hex_zeros(d.drop_last());
    }
}

/// Splits `s` into lexemes.
pub fn lex(s: &[u8]) -> (r: Vec<Lexeme>)
    ensures
        r@ == lex_spec(s@),
{
    let mut out: Vec<Lexeme> = Vec::new();
    let mut i: usize = 0;
    while i < s.len()
        invariant
            i <= s@.len(),
            lex_from(s@, 0) == out@ + lex_from(s@, i as int),
        decreases s@.len() - i,
    {
        let (t, e) = scan_at(s, i);
        let ghost before = out@;
        match t {
            Some(tok) => {
                out.push(Lexeme { tok, start: i, end: e });
                assert(out@ + lex_from(s@, e as int) =~= before + lex_from(s@, i as int));
            },
            None => {},
        }
        i = e;
    }
    assert(out@ =~= out@ + lex_from(s@, i as int));
    out
}


/// Every lexeme lies within the source, and an identifier's bytes are
/// identifier characters.
pub open spec fn lexemes_sane(s: Seq<u8>, t: Seq<Lexeme>) -> bool {
    forall|k: int|
        0 <= k < t.len() ==> {
            &&& (#[trigger] t[k]).start <= t[k].end <= s.len()
            &&& t[k].tok is Id ==> forall|j: int|
                t[k].start <= j < t[k].end ==> is_id_char(#[trigger] s[j])
        }
}

proof fn lemma_lex_from_sane(s: Seq<u8>, i: int)
    requires
        0 <= i <= s.len(),
        s.len() <= usize::MAX,
    ensures
        lexemes_sane(s, lex_from(s, i)),
    decreases s.len() - i,
{
    if i < s.len() {
        let (t, j) = scan(s, i);
        if i < j <= s.len() {
            lemma_lex_from_sane(s, j);
            if let Some(tok) = t {
                let rest = lex_from(s, j);
                let all = seq![Lexeme { tok, start: i as usize, end: j as usize }] + rest;
                if tok is Id {
                    lemma_run_end_bounds(s, i, CharClass::IdChar);
                }
                assert forall|k: int| 0 <= k < all.len() implies {
                    &&& (#[trigger] all[k]).start <= all[k].end <= s.len()
                    &&& all[k].tok is Id ==> forall|m: int|
                        all[k].start <= m < all[k].end ==> is_id_char(#[trigger] s[m])
                } by {
                    if k > 0 {
                        assert(all[k] == rest[k - 1]);
                    }
                }
            }
        }
    }
}

/// The lexemes of a source lie within it.
pub proof fn lemma_lex_sane(s: Seq<u8>)
    requires
        s.len() <= usize::MAX,
    ensures
        lexemes_sane(s, lex_spec(s)),
{
    lemma_lex_from_sane(s, 0);
}

} // verus!
