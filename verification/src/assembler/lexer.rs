//! The lexer of the AtlASM assembler: from characters to tokens.

use vstd::prelude::*;

use crate::assembler::tokens::{
    err_at, tokens_view, AssembleError, AssembleErrorType, AssemblyToken, AssemblyTokenType,
    ErrorKind, ErrorView, TokenKind, TokenView,
};

verus! {

/// The result of `char::is_alphanumeric` (the Unicode Alphabetic property, or a numeric
/// general category).
pub uninterp spec fn alphanumeric(c: char) -> bool;

/// `char::is_alphanumeric`. Its result is the name `alphanumeric` applied to the argument.
/// Of the Unicode tables behind it only the ASCII range is stated: there the alphabetic
/// characters are the letters and the numeric ones the digits, so an ASCII character is
/// alphanumeric exactly when it is a letter or a digit.
#[verifier::external_body]
fn char_is_alphanumeric(c: char) -> (b: bool)
    ensures
        b == alphanumeric(c),
        (c as u32) < 128 ==> (b <==> is_ascii_alphanumeric(c)),
{
    c.is_alphanumeric()
}

/// A character that starts an identifier.
pub open spec fn is_ident_start(c: char) -> bool {
    ('a' <= c && c <= 'z') || ('A' <= c && c <= 'Z') || c == '.'
}

/// An ASCII letter or digit.
pub open spec fn is_ascii_alphanumeric(c: char) -> bool {
    ('a' <= c && c <= 'z') || ('A' <= c && c <= 'Z') || ('0' <= c && c <= '9')
}

/// Whether `char::is_alphanumeric` holds of a character: in the ASCII range, a letter or a
/// digit; beyond it, what the Unicode tables say.
pub open spec fn is_alphanumeric(c: char) -> bool {
    if (c as u32) < 128 {
        is_ascii_alphanumeric(c)
    } else {
        alphanumeric(c)
    }
}

/// A character that continues an identifier.
pub open spec fn is_ident_continue(c: char) -> bool {
    is_alphanumeric(c) || c == '.' || c == '_'
}

/// The value of a character as a digit (0-9, then a-z and A-Z from 10); 36 for any other.
pub open spec fn digit_value(c: char) -> int {
    if '0' <= c && c <= '9' {
        c as int - '0' as int
    } else if 'a' <= c && c <= 'z' {
        c as int - 'a' as int + 10
    } else if 'A' <= c && c <= 'Z' {
        c as int - 'A' as int + 10
    } else {
        36
    }
}

/// `char::is_digit(base)`.
pub open spec fn is_digit_in(c: char, base: int) -> bool {
    digit_value(c) < base
}

/// The end of the run of identifier characters that starts at `i`.
pub open spec fn ident_end(s: Seq<char>, i: int) -> int
    decreases s.len() - i,
{
    if 0 <= i < s.len() && is_ident_continue(s[i]) {
        ident_end(s, i + 1)
    } else {
        i
    }
}

/// The end of the run of digits of the given base that starts at `i`.
pub open spec fn digit_end(s: Seq<char>, i: int, base: int) -> int
    decreases s.len() - i,
{
    if 0 <= i < s.len() && is_digit_in(s[i], base) {
        digit_end(s, i + 1, base)
    } else {
        i
    }
}

/// The number written by a list of digits in the given base, most significant first.
pub open spec fn digits_value(d: Seq<char>, base: int) -> int
    decreases d.len(),
{
    if d.len() == 0 {
        0
    } else {
        digits_value(d.drop_last(), base) * base + digit_value(d.last())
    }
}

/// The character that an escape sequence `\e` stands for.
pub open spec fn unescape(e: char) -> char {
    if e == 'n' {
        '\n'
    } else {
        e
    }
}

/// Reads the body of a string literal from `k` on, after the opening quote. Gives the
/// characters and the position after the closing quote, or `None` at the end of the input.
pub open spec fn lex_string(s: Seq<char>, k: int, acc: Seq<char>) -> Option<(Seq<char>, int)>
    decreases s.len() - k,
{
    if k < 0 || k >= s.len() {
        None
    } else if s[k] == '\\' {
        if k + 1 >= s.len() {
            None
        } else {
            lex_string(s, k + 2, acc.push(unescape(s[k + 1])))
        }
    } else if s[k] != '"' {
        lex_string(s, k + 1, acc.push(s[k]))
    } else {
        Some((acc, k + 1))
    }
}

/// What lexing gives: the tokens, an error, or `Malformed` where a number or register has
/// no digits or does not fit its type (an input that the lexer does not accept).
pub enum LexOutcome {
    Tokens(Seq<TokenView>),
    Failed(ErrorView),
    Malformed,
}

/// A token of the given kind on the given line.
pub open spec fn tok(kind: TokenKind, line: nat) -> TokenView {
    TokenView { kind, line }
}

pub proof fn lemma_ident_end_bounds(s: Seq<char>, i: int)
    requires
        0 <= i <= s.len(),
    ensures
        i <= ident_end(s, i) <= s.len(),
    decreases s.len() - i,
{
    if i < s.len() && is_ident_continue(s[i]) {
        lemma_ident_end_bounds(s, i + 1);
    }
}

pub proof fn lemma_digit_end_bounds(s: Seq<char>, i: int, base: int)
    requires
        0 <= i <= s.len(),
    ensures
        i <= digit_end(s, i, base) <= s.len(),
    decreases s.len() - i,
{
    if i < s.len() && is_digit_in(s[i], base) {
        lemma_digit_end_bounds(s, i + 1, base);
    }
}

pub proof fn lemma_lex_string_progress(s: Seq<char>, k: int, acc: Seq<char>)
    requires
        0 <= k,
    ensures
        lex_string(s, k, acc) matches Some((_, j)) ==> k < j <= s.len(),
    decreases s.len() - k,
{
    if k < s.len() {
        if s[k] == '\\' {
            if k + 1 < s.len() {
                lemma_lex_string_progress(s, k + 2, acc.push(unescape(s[k + 1])));
            }
        } else if s[k] != '"' {
            lemma_lex_string_progress(s, k + 1, acc.push(s[k]));
        }
    }
}

/// The lexer, from position `i` on the given line, with the tokens read so far.
pub open spec fn lex_loop(s: Seq<char>, i: int, line: nat, acc: Seq<TokenView>) -> LexOutcome
    decreases s.len() - i,
{
    if i < 0 || i >= s.len() {
        LexOutcome::Tokens(acc)
    } else {
        let c = s[i];
        if is_ident_start(c) {
            let j = ident_end(s, i + 1);
            proof {
                lemma_ident_end_bounds(s, i + 1);
            }
            lex_loop(s, j, line, acc.push(tok(TokenKind::Identifier(s.subrange(i, j)), line)))
        } else if '0' <= c && c <= '9' {
            if c == '0' && i + 1 < s.len() && s[i + 1] != 'b' && s[i + 1] != 'x' {
                lex_loop(s, i + 1, line, acc.push(tok(TokenKind::Number(0), line)))
            } else {
                let base: int = if c == '0' && i + 1 < s.len() && s[i + 1] == 'b' {
                    2
                } else if c == '0' && i + 1 < s.len() && s[i + 1] == 'x' {
                    16
                } else {
                    10
                };
                let start: int = if c == '0' {
                    if i + 1 < s.len() {
                        i + 2
                    } else {
                        i + 1
                    }
                } else {
                    i
                };
                let j = digit_end(s, start, base);
                proof {
                    lemma_digit_end_bounds(s, start, base);
                }
                let v = digits_value(s.subrange(start, j), base);
                if j <= start || v > u32::MAX {
                    LexOutcome::Malformed
                } else {
                    lex_loop(s, j, line, acc.push(tok(TokenKind::Number(v as u32), line)))
                }
            }
        } else if c == '$' {
            let j = digit_end(s, i + 1, 10);
            proof {
                lemma_digit_end_bounds(s, i + 1, 10);
            }
            let v = digits_value(s.subrange(i + 1, j), 10);
            if j <= i + 1 || v > usize::MAX {
                LexOutcome::Malformed
            } else {
                lex_loop(s, j, line, acc.push(tok(TokenKind::Register(v as usize), line)))
            }
        } else if c == '"' {
            match lex_string(s, i + 1, seq![]) {
                None => LexOutcome::Failed(err_at(ErrorKind::UnexpectedEOF, line)),
                Some((st, j)) => {
                    proof {
                        lemma_lex_string_progress(s, i + 1, seq![]);
                    }
                    lex_loop(s, j, line, acc.push(tok(TokenKind::Str(st), line)))
                },
            }
        } else if c == ':' {
            lex_loop(s, i + 1, line, acc.push(tok(TokenKind::Colon, line)))
        } else if c == ',' {
            lex_loop(s, i + 1, line, acc.push(tok(TokenKind::Comma, line)))
        } else if c == '[' {
            lex_loop(s, i + 1, line, acc.push(tok(TokenKind::LSquare, line)))
        } else if c == ']' {
            lex_loop(s, i + 1, line, acc.push(tok(TokenKind::RSquare, line)))
        } else if c == '\n' {
            lex_loop(s, i + 1, line + 1, acc)
        } else if c == ' ' || c == '\t' || c == '\r' {
            lex_loop(s, i + 1, line, acc)
        } else {
            LexOutcome::Failed(err_at(ErrorKind::InvalidCharacter(c), line))
        }
    }
}

/// The tokens of an assembly program, lexed from its start on line 1.
pub open spec fn lex(s: Seq<char>) -> LexOutcome {
    lex_loop(s, 0, 1, seq![])
}


// Lexing a program that is joined to another by a blank.

/// An identifier or a run of digits ends at a blank: the runs in a prefix that a blank
/// follows are the runs in the whole.
proof fn lemma_runs_in_prefix(a: Seq<char>, s: Seq<char>, i: int, base: int)
    requires
        a.len() < s.len(),
        a == s.subrange(0, a.len() as int),
        s[a.len() as int] == ' ',
        0 <= i <= a.len(),
        base <= 36,
    ensures
        ident_end(s, i) == ident_end(a, i),
        digit_end(s, i, base) == digit_end(a, i, base),
    decreases a.len() - i,
{
    if i < a.len() {
        assert(s[i] == a[i]);
        lemma_runs_in_prefix(a, s, i + 1, base);
    } else {
        assert(!is_ident_continue(s[i]));
        assert(!is_digit_in(s[i], base));
    }
}

/// A string literal that closes in a prefix closes the same way in the whole.
proof fn lemma_string_in_prefix(a: Seq<char>, s: Seq<char>, k: int, acc: Seq<char>)
    requires
        a.len() < s.len(),
        a == s.subrange(0, a.len() as int),
        0 <= k,
        lex_string(a, k, acc) is Some,
    ensures
        lex_string(s, k, acc) == lex_string(a, k, acc),
    decreases a.len() - k,
{
    assert(s[k] == a[k]);
    if a[k] == '\\' {
        assert(s[k + 1] == a[k + 1]);
        lemma_string_in_prefix(a, s, k + 2, acc.push(unescape(a[k + 1])));
    } else if a[k] != '"' {
        lemma_string_in_prefix(a, s, k + 1, acc.push(a[k]));
    }
}

/// Lexing a prefix that a blank follows and that holds no line break reads, in the whole,
/// the tokens that it reads alone, and stops at the blank.
proof fn lemma_lex_in_prefix(a: Seq<char>, s: Seq<char>, i: int, line: nat, acc: Seq<TokenView>, t: Seq<TokenView>)
    requires
        a.len() < s.len(),
        a == s.subrange(0, a.len() as int),
        s[a.len() as int] == ' ',
        forall|k: int| 0 <= k < a.len() ==> a[k] != '\n',
        0 <= i <= a.len(),
        lex_loop(a, i, line, acc) == LexOutcome::Tokens(t),
    ensures
        lex_loop(s, i, line, acc) == lex_loop(s, a.len() as int, line, t),
    decreases a.len() - i,
{
    if i < a.len() {
        let c = a[i];
        assert(s[i] == c);
        if i + 1 < a.len() {
            assert(s[i + 1] == a[i + 1]);
        }
        if is_ident_start(c) {
            lemma_runs_in_prefix(a, s, i + 1, 10);
            lemma_ident_end_bounds(a, i + 1);
            let j = ident_end(a, i + 1);
            assert(s.subrange(i, j) =~= a.subrange(i, j));
            lemma_lex_in_prefix(a, s, j, line, acc.push(tok(TokenKind::Identifier(a.subrange(i, j)), line)), t);
        } else if '0' <= c && c <= '9' {
            if c == '0' && i + 1 < a.len() && a[i + 1] != 'b' && a[i + 1] != 'x' {
                lemma_lex_in_prefix(a, s, i + 1, line, acc.push(tok(TokenKind::Number(0), line)), t);
            } else {
                let base: int = if c == '0' && i + 1 < a.len() && a[i + 1] == 'b' {
                    2
                } else if c == '0' && i + 1 < a.len() && a[i + 1] == 'x' {
                    16
                } else {
                    10
                };
                let start: int = if c == '0' {
                    if i + 1 < a.len() {
                        i + 2
                    } else {
                        i + 1
                    }
                } else {
                    i
                };
                lemma_runs_in_prefix(a, s, start, base);
                lemma_digit_end_bounds(a, start, base);
                let j = digit_end(a, start, base);
                assert(s.subrange(start, j) =~= a.subrange(start, j));
                let v = digits_value(a.subrange(start, j), base);
                lemma_lex_in_prefix(a, s, j, line, acc.push(tok(TokenKind::Number(v as u32), line)), t);
            }
        } else if c == '$' {
            lemma_runs_in_prefix(a, s, i + 1, 10);
            lemma_digit_end_bounds(a, i + 1, 10);
            let j = digit_end(a, i + 1, 10);
            assert(s.subrange(i + 1, j) =~= a.subrange(i + 1, j));
            let v = digits_value(a.subrange(i + 1, j), 10);
            lemma_lex_in_prefix(a, s, j, line, acc.push(tok(TokenKind::Register(v as usize), line)), t);
        } else if c == '"' {
            lemma_string_in_prefix(a, s, i + 1, seq![]);
            lemma_lex_string_progress(a, i + 1, seq![]);
            let (st, j) = lex_string(a, i + 1, seq![]).unwrap();
            lemma_lex_in_prefix(a, s, j, line, acc.push(tok(TokenKind::Str(st), line)), t);
        } else if c == ':' {
            lemma_lex_in_prefix(a, s, i + 1, line, acc.push(tok(TokenKind::Colon, line)), t);
        } else if c == ',' {
            lemma_lex_in_prefix(a, s, i + 1, line, acc.push(tok(TokenKind::Comma, line)), t);
        } else if c == '[' {
            lemma_lex_in_prefix(a, s, i + 1, line, acc.push(tok(TokenKind::LSquare, line)), t);
        } else if c == ']' {
            lemma_lex_in_prefix(a, s, i + 1, line, acc.push(tok(TokenKind::RSquare, line)), t);
        } else {
            lemma_lex_in_prefix(a, s, i + 1, line, acc, t);
        }
    }
}

/// The runs of identifier characters and digits in the second part of a joined program
/// are those of the part alone, moved by the length of the first.
proof fn lemma_runs_shifted(p: Seq<char>, b: Seq<char>, k: int, base: int)
    requires
        0 <= k <= b.len(),
    ensures
        ident_end(p + b, p.len() + k) == p.len() + ident_end(b, k),
        digit_end(p + b, p.len() + k, base) == p.len() + digit_end(b, k, base),
    decreases b.len() - k,
{
    if k < b.len() {
        assert((p + b)[p.len() + k] == b[k]);
        lemma_runs_shifted(p, b, k + 1, base);
    }
}

/// A string literal in the second part of a joined program reads as in the part alone.
proof fn lemma_string_shifted(p: Seq<char>, b: Seq<char>, k: int, acc: Seq<char>)
    requires
        0 <= k,
    ensures
        lex_string(p + b, p.len() + k, acc) == (match lex_string(b, k, acc) {
            None => None,
            Some((st, j)) => Some((st, p.len() + j)),
        }),
    decreases b.len() - k,
{
    if k < b.len() {
        assert((p + b)[p.len() + k] == b[k]);
        if b[k] == '\\' {
            if k + 1 < b.len() {
                assert((p + b)[p.len() + k + 1] == b[k + 1]);
                lemma_string_shifted(p, b, k + 2, acc.push(unescape(b[k + 1])));
            }
        } else if b[k] != '"' {
            lemma_string_shifted(p, b, k + 1, acc.push(b[k]));
        }
    }
}

/// Lexing the second part of a joined program reads the tokens that the part reads alone,
/// after those read before it.
proof fn lemma_lex_shifted(p: Seq<char>, b: Seq<char>, k: int, line: nat, pre: Seq<TokenView>, acc: Seq<TokenView>, t: Seq<TokenView>)
    requires
        0 <= k <= b.len(),
        lex_loop(b, k, line, acc) == LexOutcome::Tokens(t),
    ensures
        lex_loop(p + b, p.len() + k, line, pre + acc) == LexOutcome::Tokens(pre + t),
    decreases b.len() - k,
{
    let s = p + b;
    let m = p.len() as int;
    if k < b.len() {
        let c = b[k];
        assert(s[m + k] == c);
        if k + 1 < b.len() {
            assert(s[m + k + 1] == b[k + 1]);
        }
        if is_ident_start(c) {
            lemma_runs_shifted(p, b, k + 1, 10);
            lemma_ident_end_bounds(b, k + 1);
            let j = ident_end(b, k + 1);
            assert(s.subrange(m + k, m + j) =~= b.subrange(k, j));
            let x = tok(TokenKind::Identifier(b.subrange(k, j)), line);
            assert((pre + acc).push(x) =~= pre + acc.push(x));
            lemma_lex_shifted(p, b, j, line, pre, acc.push(x), t);
        } else if '0' <= c && c <= '9' {
            if c == '0' && k + 1 < b.len() && b[k + 1] != 'b' && b[k + 1] != 'x' {
                let x = tok(TokenKind::Number(0), line);
                assert((pre + acc).push(x) =~= pre + acc.push(x));
                lemma_lex_shifted(p, b, k + 1, line, pre, acc.push(x), t);
            } else {
                let base: int = if c == '0' && k + 1 < b.len() && b[k + 1] == 'b' {
                    2
                } else if c == '0' && k + 1 < b.len() && b[k + 1] == 'x' {
                    16
                } else {
                    10
                };
                let start: int = if c == '0' {
                    if k + 1 < b.len() {
                        k + 2
                    } else {
                        k + 1
                    }
                } else {
                    k
                };
                lemma_runs_shifted(p, b, start, base);
                lemma_digit_end_bounds(b, start, base);
                let j = digit_end(b, start, base);
                assert(s.subrange(m + start, m + j) =~= b.subrange(start, j));
                let v = digits_value(b.subrange(start, j), base);
                let x = tok(TokenKind::Number(v as u32), line);
                assert((pre + acc).push(x) =~= pre + acc.push(x));
                lemma_lex_shifted(p, b, j, line, pre, acc.push(x), t);
            }
        } else if c == '$' {
            lemma_runs_shifted(p, b, k + 1, 10);
            lemma_digit_end_bounds(b, k + 1, 10);
            let j = digit_end(b, k + 1, 10);
            assert(s.subrange(m + k + 1, m + j) =~= b.subrange(k + 1, j));
            let v = digits_value(b.subrange(k + 1, j), 10);
            let x = tok(TokenKind::Register(v as usize), line);
            assert((pre + acc).push(x) =~= pre + acc.push(x));
            lemma_lex_shifted(p, b, j, line, pre, acc.push(x), t);
        } else if c == '"' {
            lemma_string_shifted(p, b, k + 1, seq![]);
            lemma_lex_string_progress(b, k + 1, seq![]);
            let (st, j) = lex_string(b, k + 1, seq![]).unwrap();
            let x = tok(TokenKind::Str(st), line);
            assert((pre + acc).push(x) =~= pre + acc.push(x));
            lemma_lex_shifted(p, b, j, line, pre, acc.push(x), t);
        } else if c == ':' || c == ',' || c == '[' || c == ']' {
            let kind = if c == ':' {
                TokenKind::Colon
            } else if c == ',' {
                TokenKind::Comma
            } else if c == '[' {
                TokenKind::LSquare
            } else {
                TokenKind::RSquare
            };
            let x = tok(kind, line);
            assert((pre + acc).push(x) =~= pre + acc.push(x));
            lemma_lex_shifted(p, b, k + 1, line, pre, acc.push(x), t);
        } else if c == '\n' {
            lemma_lex_shifted(p, b, k + 1, line + 1, pre, acc, t);
        } else {
            lemma_lex_shifted(p, b, k + 1, line, pre, acc, t);
        }
    }
}

/// Programs joined by a blank lex independently: where the first holds no line break, the
/// tokens of the two joined by a blank are the tokens of the first, then those of the
/// second, with the same kinds and lines.
pub proof fn lemma_lex_joined_by_blank(a: Seq<char>, b: Seq<char>, ta: Seq<TokenView>, tb: Seq<TokenView>)
    requires
        lex(a) == LexOutcome::Tokens(ta),
        lex(b) == LexOutcome::Tokens(tb),
        forall|k: int| 0 <= k < a.len() ==> a[k] != '\n',
    ensures
        lex(a + seq![' '] + b) == LexOutcome::Tokens(ta + tb),
{
    let p = a + seq![' '];
    let s = p + b;
    let n = a.len() as int;
    assert(a =~= s.subrange(0, n));
    assert(s[n] == ' ');
    lemma_lex_in_prefix(a, s, 0, 1, seq![], ta);
    assert(lex_loop(s, n, 1, ta) == lex_loop(s, n + 1, 1, ta));
    assert(ta + seq![] =~= ta);
    lemma_lex_shifted(p, b, 0, 1, ta, seq![], tb);
}

/// Numbers are read in the base their prefix names: digits that start with 1 to 9 are
/// decimal, `0x` starts a hexadecimal number and `0b` a binary one. The number is the
/// value of the longest run of digits of that base, if it fits in 32 bits.
pub proof fn lemma_lex_number_base(s: Seq<char>, i: int, line: nat, acc: Seq<TokenView>)
    requires
        0 <= i < s.len(),
    ensures
        '1' <= s[i] <= '9' ==> lex_loop(s, i, line, acc) == ({
            let j = digit_end(s, i, 10);
            let v = digits_value(s.subrange(i, j), 10);
            if v <= u32::MAX {
                lex_loop(s, j, line, acc.push(tok(TokenKind::Number(v as u32), line)))
            } else {
                LexOutcome::Malformed
            }
        }),
        s[i] == '0' && i + 1 < s.len() && s[i + 1] == 'x' ==> lex_loop(s, i, line, acc) == ({
            let j = digit_end(s, i + 2, 16);
            let v = digits_value(s.subrange(i + 2, j), 16);
            if j > i + 2 && v <= u32::MAX {
                lex_loop(s, j, line, acc.push(tok(TokenKind::Number(v as u32), line)))
            } else {
                LexOutcome::Malformed
            }
        }),
        s[i] == '0' && i + 1 < s.len() && s[i + 1] == 'b' ==> lex_loop(s, i, line, acc) == ({
            let j = digit_end(s, i + 2, 2);
            let v = digits_value(s.subrange(i + 2, j), 2);
            if j > i + 2 && v <= u32::MAX {
                lex_loop(s, j, line, acc.push(tok(TokenKind::Number(v as u32), line)))
            } else {
                LexOutcome::Malformed
            }
        }),
{
    if '1' <= s[i] <= '9' {
        assert(is_digit_in(s[i], 10));
        assert(digit_end(s, i, 10) == digit_end(s, i + 1, 10));
        lemma_digit_end_bounds(s, i + 1, 10);
    }
}

/// The end of a run of decimal digits that reaches the end of the input.
proof fn lemma_decimal_run_to_end(d: Seq<char>, i: int)
    requires
        0 <= i <= d.len(),
        forall|k: int| 0 <= k < d.len() ==> '0' <= #[trigger] d[k] <= '9',
    ensures
        digit_end(d, i, 10) == d.len(),
    decreases d.len() - i,
{
    if i < d.len() {
        assert(is_digit_in(d[i], 10));
        lemma_decimal_run_to_end(d, i + 1);
    }
}

/// A program that is a decimal number with no leading zero lexes to that number, read in
/// base 10: the digits `d` give `Number(n)` where `n` is the sum of each digit times the
/// power of ten of its place.
pub proof fn lemma_lex_decimal(d: Seq<char>)
    requires
        d.len() > 0,
        '1' <= d[0] <= '9',
        forall|k: int| 0 <= k < d.len() ==> '0' <= #[trigger] d[k] <= '9',
        digits_value(d, 10) <= u32::MAX,
    ensures
        lex(d) == LexOutcome::Tokens(seq![tok(TokenKind::Number(digits_value(d, 10) as u32), 1)]),
{
    lemma_lex_number_base(d, 0, 1, seq![]);
    lemma_decimal_run_to_end(d, 0);
    assert(d.subrange(0, d.len() as int) =~= d);
    assert(seq![].push(tok(TokenKind::Number(digits_value(d, 10) as u32), 1)) =~= seq![tok(TokenKind::Number(digits_value(d, 10) as u32), 1)]);
}

/// The value of a character as a digit.
fn digit_value_of(c: char) -> (d: u32)
    ensures
        d as int == digit_value(c),
{
    if '0' <= c && c <= '9' {
        (c as u32) - ('0' as u32)
    } else if 'a' <= c && c <= 'z' {
        (c as u32) - ('a' as u32) + 10
    } else if 'A' <= c && c <= 'Z' {
        (c as u32) - ('A' as u32) + 10
    } else {
        36
    }
}

/// Returns the end of the run of identifier characters from `start`.
fn scan_ident(s: &Vec<char>, start: usize) -> (j: usize)
    requires
        start <= s@.len(),
    ensures
        j as int == ident_end(s@, start as int),
        start <= j <= s@.len(),
{
    let mut k = start;
    while k < s.len() && (char_is_alphanumeric(s[k]) || s[k] == '.' || s[k] == '_')
        invariant
            start <= k <= s@.len(),
            ident_end(s@, k as int) == ident_end(s@, start as int),
        decreases s@.len() - k,
    {
        k = k + 1;
    }
    k
}

/// Copies the characters from `i` to `j`.
fn copy_range(s: &Vec<char>, i: usize, j: usize) -> (r: Vec<char>)
    requires
        i <= j <= s@.len(),
    ensures
        r@ == s@.subrange(i as int, j as int),
{
    let mut r: Vec<char> = Vec::new();
    let mut k = i;
    while k < j
        invariant
            i <= k <= j <= s@.len(),
            r@ == s@.subrange(i as int, k as int),
        decreases j - k,
    {
        r.push(s[k]);
        k = k + 1;
        assert(r@ =~= s@.subrange(i as int, k as int));
    }
    r
}

proof fn lemma_digits_value_push(d: Seq<char>, c: char, base: int)
    ensures
        digits_value(d.push(c), base) == digits_value(d, base) * base + digit_value(c),
{
    assert(d.push(c).drop_last() =~= d);
}

proof fn lemma_digits_value_nonneg(d: Seq<char>, base: int)
    requires
        base >= 0,
    ensures
        digits_value(d, base) >= 0,
    decreases d.len(),
{
    if d.len() > 0 {
        lemma_digits_value_nonneg(d.drop_last(), base);
        let x = digits_value(d.drop_last(), base);
        assert(x * base >= 0) by (nonlinear_arith)
            requires
                x >= 0,
                base >= 0,
        ;
    }
}

/// Reads the run of digits of the given base from `start`. Gives its end and, where the
/// number it writes is at most `limit`, that number.
fn scan_digits(s: &Vec<char>, start: usize, base: u32, limit: u64) -> (r: (usize, Option<u64>))
    requires
        start <= s@.len(),
        2 <= base <= 16,
    ensures
        r.0 as int == digit_end(s@, start as int, base as int),
        start <= r.0 <= s@.len(),
        0 <= digits_value(s@.subrange(start as int, r.0 as int), base as int),
        digits_value(s@.subrange(start as int, r.0 as int), base as int) <= limit
            ==> r.1 == Some(digits_value(s@.subrange(start as int, r.0 as int), base as int) as u64),
        digits_value(s@.subrange(start as int, r.0 as int), base as int) > limit ==> r.1 is None,
{
    let mut k = start;
    let mut val: u64 = 0;
    let mut over = false;
    while k < s.len() && digit_value_of(s[k]) < base
        invariant
            start <= k <= s@.len(),
            2 <= base <= 16,
            digit_end(s@, k as int, base as int) == digit_end(s@, start as int, base as int),
            !over ==> val as int == digits_value(s@.subrange(start as int, k as int), base as int),
            !over ==> val <= limit,
            over ==> digits_value(s@.subrange(start as int, k as int), base as int) > limit,
        decreases s@.len() - k,
    {
        let d = digit_value_of(s[k]);
        let ghost prev = s@.subrange(start as int, k as int);
        proof {
            assert(s@.subrange(start as int, k + 1) =~= prev.push(s@[k as int]));
            lemma_digits_value_push(prev, s@[k as int], base as int);
            lemma_digits_value_nonneg(prev, base as int);
        }
        if !over {
            assert((val as u128) * (base as u128) <= 0xffff_ffff_ffff_ffffu128 * 16) by (nonlinear_arith)
                requires
                    base <= 16,
            ;
            let next: u128 = (val as u128) * (base as u128) + (d as u128);
            if next > limit as u128 {
                over = true;
            } else {
                val = next as u64;
            }
        } else {
            proof {
                let x = digits_value(prev, base as int);
                assert(x * base + d > limit) by (nonlinear_arith)
                    requires
                        x > limit,
                        base >= 2,
                        d >= 0,
                ;
            }
        }
        k = k + 1;
    }
    proof {
        lemma_digit_end_bounds(s@, start as int, base as int);
        lemma_digits_value_nonneg(s@.subrange(start as int, k as int), base as int);
    }
    if over {
        (k, None)
    } else {
        (k, Some(val))
    }
}

/// Reads the body of a string literal from `k`, after its opening quote.
fn scan_string(s: &Vec<char>, k: usize) -> (r: Option<(Vec<char>, usize)>)
    requires
        k <= s@.len(),
    ensures
        match lex_string(s@, k as int, seq![]) {
            None => r is None,
            Some((st, j)) => r matches Some((v, e)) && v@ == st && e as int == j,
        },
{
    let mut acc: Vec<char> = Vec::new();
    let mut p = k;
    loop
        invariant
            k <= p <= s@.len(),
            lex_string(s@, p as int, acc@) == lex_string(s@, k as int, seq![]),
        decreases s@.len() - p,
    {
        if p >= s.len() {
            return None;
        }
        let c = s[p];
        if c == '\\' {
            if p + 1 >= s.len() {
                return None;
            }
            let e = s[p + 1];
            if e == 'n' {
                acc.push('\n');
            } else {
                acc.push(e);
            }
            p = p + 2;
        } else if c != '"' {
            acc.push(c);
            p = p + 1;
        } else {
            return Some((acc, p + 1));
        }
    }
}

/// What the lexer gives: the tokens, an error, or `Malformed` (a number or register with no
/// digits, or too large for its type).
pub enum LexResult {
    Tokens(Vec<AssemblyToken>),
    Failed(AssembleError),
    Malformed,
}

/// Lexes an assembly program.
pub fn lex_assembly(s: &Vec<char>) -> (r: LexResult)
    requires
        s@.len() < usize::MAX,
    ensures
        match lex(s@) {
            LexOutcome::Tokens(t) => r matches LexResult::Tokens(v) && tokens_view(v@) == t,
            LexOutcome::Failed(e) => r matches LexResult::Failed(err) && err@ == e,
            LexOutcome::Malformed => r is Malformed,
        },
{
    let mut result: Vec<AssemblyToken> = Vec::new();
    let mut i: usize = 0;
    let mut line_no: usize = 1;
    let n = s.len();
    assert(tokens_view(result@) =~= seq![]);
    while i < n
        invariant
            n == s@.len(),
            n < usize::MAX,
            i <= n,
            1 <= line_no <= i + 1,
            lex_loop(s@, i as int, line_no as nat, tokens_view(result@)) == lex(s@),
        decreases n - i,
    {
        let c = s[i];
        let ghost acc = tokens_view(result@);
        if ('a' <= c && c <= 'z') || ('A' <= c && c <= 'Z') || c == '.' {
            let j = scan_ident(s, i + 1);
            let ident = copy_range(s, i, j);
            result.push(AssemblyToken { ttype: AssemblyTokenType::Identifier(ident), line_no });
            assert(tokens_view(result@) =~= acc.push(
                tok(TokenKind::Identifier(s@.subrange(i as int, j as int)), line_no as nat),
            ));
            i = j;
        } else if '0' <= c && c <= '9' {
            if c == '0' && i + 1 < n && s[i + 1] != 'b' && s[i + 1] != 'x' {
                result.push(AssemblyToken { ttype: AssemblyTokenType::Number(0), line_no });
                assert(tokens_view(result@) =~= acc.push(tok(TokenKind::Number(0), line_no as nat)));
                i = i + 1;
            } else {
                let base: u32 = if c == '0' && i + 1 < n && s[i + 1] == 'b' {
                    2
                } else if c == '0' && i + 1 < n && s[i + 1] == 'x' {
                    16
                } else {
                    10
                };
                let start: usize = if c == '0' {
                    if i + 1 < n {
                        i + 2
                    } else {
                        i + 1
                    }
                } else {
                    i
                };
                let (j, val) = scan_digits(s, start, base, 0xffff_ffff);
                if j <= start {
                    return LexResult::Malformed;
                }
                match val {
                    None => {
                        return LexResult::Malformed;
                    },
                    Some(v) => {
                        let num = v as u32;
                        result.push(AssemblyToken { ttype: AssemblyTokenType::Number(num), line_no });
                        assert(tokens_view(result@) =~= acc.push(tok(TokenKind::Number(num), line_no as nat)));
                        i = j;
                    },
                }
            }
        } else if c == '$' {
            let (j, val) = scan_digits(s, i + 1, 10, usize::MAX as u64);
            if j <= i + 1 {
                return LexResult::Malformed;
            }
            match val {
                None => {
                    return LexResult::Malformed;
                },
                Some(v) => {
                    let reg = v as usize;
                    result.push(AssemblyToken { ttype: AssemblyTokenType::Register(reg), line_no });
                    assert(tokens_view(result@) =~= acc.push(tok(TokenKind::Register(reg), line_no as nat)));
                    i = j;
                },
            }
        } else if c == '"' {
            match scan_string(s, i + 1) {
                None => {
                    return LexResult::Failed(AssembleError { etype: AssembleErrorType::UnexpectedEOF, line_no });
                },
                Some((st, j)) => {
                    proof {
                        lemma_lex_string_progress(s@, i + 1, seq![]);
                    }
                    let ghost stv = st@;
                    result.push(AssemblyToken { ttype: AssemblyTokenType::Str(st), line_no });
                    assert(tokens_view(result@) =~= acc.push(tok(TokenKind::Str(stv), line_no as nat)));
                    i = j;
                },
            }
        } else if c == ':' {
            result.push(AssemblyToken { ttype: AssemblyTokenType::Colon, line_no });
            assert(tokens_view(result@) =~= acc.push(tok(TokenKind::Colon, line_no as nat)));
            i = i + 1;
        } else if c == ',' {
            result.push(AssemblyToken { ttype: AssemblyTokenType::Comma, line_no });
            assert(tokens_view(result@) =~= acc.push(tok(TokenKind::Comma, line_no as nat)));
            i = i + 1;
        } else if c == '[' {
            result.push(AssemblyToken { ttype: AssemblyTokenType::LSquare, line_no });
            assert(tokens_view(result@) =~= acc.push(tok(TokenKind::LSquare, line_no as nat)));
            i = i + 1;
        } else if c == ']' {
            result.push(AssemblyToken { ttype: AssemblyTokenType::RSquare, line_no });
            assert(tokens_view(result@) =~= acc.push(tok(TokenKind::RSquare, line_no as nat)));
            i = i + 1;
        } else if c == '\n' {
            line_no = line_no + 1;
            i = i + 1;
        } else if c == ' ' || c == '\t' || c == '\r' {
            i = i + 1;
        } else {
            return LexResult::Failed(AssembleError { etype: AssembleErrorType::InvalidCharacter(c), line_no });
        }
    }
    LexResult::Tokens(result)
}

} // verus!
