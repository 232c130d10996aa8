//! The tokenizer: source text to a flat sequence of tokens.
//!
//! `(`, `)` and `'` are recognized even without surrounding whitespace; every
//! other maximal run of non-whitespace characters becomes one word. A word
//! that reads as a base-10 signed 64-bit integer becomes an integer token;
//! any other word becomes a symbol token verbatim. No input is rejected.

use vstd::prelude::*;
use vstd::string::StrSliceExecFns;
use vstd::string::StringExecFns;

verus! {

/// One lexical token. Tokens carry no position information.
#[derive(Debug, Clone, PartialEq, Eq)]
pub enum Token {
    Integer(i64),
    Symbol(String),
    LParen,
    RParen,
    Quote,
}

/// The ghost image of a token.
#[verifier::ext_equal]
pub enum TokenV {
    Integer(int),
    Symbol(Seq<char>),
    LParen,
    RParen,
    Quote,
}

impl View for Token {
    type V = TokenV;

    open spec fn view(&self) -> TokenV {
        match self {
            Token::Integer(n) => TokenV::Integer(*n as int),
            Token::Symbol(s) => TokenV::Symbol(s@),
            Token::LParen => TokenV::LParen,
            Token::RParen => TokenV::RParen,
            Token::Quote => TokenV::Quote,
        }
    }
}

/// The ghost image of a token sequence.
pub open spec fn tokens_view(ts: Seq<Token>) -> Seq<TokenV> {
    Seq::new(ts.len(), |i: int| ts[i]@)
}

/// Whitespace, by Unicode's White_Space property: what separates words.
pub open spec fn is_space(c: char) -> bool {
    let u = c as u32;
    u == 0x20 || (0x09 <= u && u <= 0x0D) || u == 0x85 || u == 0xA0 || u == 0x1680 || (0x2000
        <= u && u <= 0x200A) || u == 0x2028 || u == 0x2029 || u == 0x202F || u == 0x205F || u
        == 0x3000
}

/// The three characters that always stand alone as tokens.
pub open spec fn is_delim(c: char) -> bool {
    c == '(' || c == ')' || c == '\''
}

/// An ASCII decimal digit.
pub open spec fn is_digit(c: char) -> bool {
    0x30 <= c as u32 && c as u32 <= 0x39
}

/// The numeric value of a digit character.
pub open spec fn digit_val(c: char) -> int {
    c as u32 - 0x30
}

/// Whether every character of `s` is a digit.
pub open spec fn all_digits(s: Seq<char>) -> bool {
    forall|i: int| 0 <= i < s.len() ==> is_digit(#[trigger] s[i])
}

/// The base-10 value of a digit string.
pub open spec fn digits_val(s: Seq<char>) -> int
    decreases s.len(),
{
    if s.len() == 0 {
        0
    } else {
        digits_val(s.drop_last()) * 10 + digit_val(s.last())
    }
}

/// The mathematical integer a word denotes: an optional sign followed by one
/// or more digits; `None` when the word is not of that shape.
pub open spec fn int_text_val(s: Seq<char>) -> Option<int> {
    let digits = if s.len() > 0 && (s[0] == '+' || s[0] == '-') {
        s.skip(1)
    } else {
        s
    };
    if digits.len() > 0 && all_digits(digits) {
        if s.len() > 0 && s[0] == '-' {
            Some(-digits_val(digits))
        } else {
            Some(digits_val(digits))
        }
    } else {
        None
    }
}

/// The 64-bit integer a word denotes, or `None` when the word is not an
/// integer or its value does not fit.
pub open spec fn spec_parse_i64(s: Seq<char>) -> Option<i64> {
    match int_text_val(s) {
        Some(v) => if i64::MIN as int <= v && v <= i64::MAX as int {
            Some(v as i64)
        } else {
            None
        },
        None => None,
    }
}

/// The token a word denotes.
pub open spec fn token_of_word(w: Seq<char>) -> TokenV {
    match spec_parse_i64(w) {
        Some(v) => TokenV::Integer(v as int),
        None => TokenV::Symbol(w),
    }
}

/// The first position at or after `i` that ends a word.
pub open spec fn word_end(s: Seq<char>, i: int) -> int
    decreases s.len() - i,
{
    if i < 0 || i >= s.len() {
        i
    } else if is_space(s[i]) || is_delim(s[i]) {
        i
    } else {
        word_end(s, i + 1)
    }
}

/// `word_end` stays within bounds, covers only word characters, and stops at
/// a separator.
pub proof fn lemma_word_end(s: Seq<char>, i: int)
    requires
        0 <= i <= s.len(),
    ensures
        i <= word_end(s, i) <= s.len(),
        forall|k: int| i <= k < word_end(s, i) ==> !is_space(#[trigger] s[k]) && !is_delim(s[k]),
        word_end(s, i) < s.len() ==> is_space(s[word_end(s, i)]) || is_delim(s[word_end(s, i)]),
    decreases s.len() - i,
{
    if i < s.len() && !is_space(s[i]) && !is_delim(s[i]) {
        lemma_word_end(s, i + 1);
    }
}

/// The tokens of the text from position `i` on.
pub open spec fn lex_from(s: Seq<char>, i: int) -> Seq<TokenV>
    decreases s.len() - i,
        via lex_from_dec
{
    if i < 0 || i >= s.len() {
        Seq::empty()
    } else if is_space(s[i]) {
        lex_from(s, i + 1)
    } else if s[i] == '(' {
        seq![TokenV::LParen] + lex_from(s, i + 1)
    } else if s[i] == ')' {
        seq![TokenV::RParen] + lex_from(s, i + 1)
    } else if s[i] == '\'' {
        seq![TokenV::Quote] + lex_from(s, i + 1)
    } else {
        seq![token_of_word(s.subrange(i, word_end(s, i)))] + lex_from(s, word_end(s, i))
    }
}

#[via_fn]
proof fn lex_from_dec(s: Seq<char>, i: int) {
    if 0 <= i && i < s.len() && !is_space(s[i]) && !is_delim(s[i]) {
        lemma_word_end(s, i + 1);
        assert(word_end(s, i) == word_end(s, i + 1));
    }
}

/// The token sequence of a whole text.
pub open spec fn lex_spec(s: Seq<char>) -> Seq<TokenV> {
    lex_from(s, 0)
}

/// Exec mirror of [`is_space`].
fn space(c: char) -> (r: bool)
    ensures
        r == is_space(c),
{
    let u = c as u32;
    u == 0x20 || (0x09 <= u && u <= 0x0D) || u == 0x85 || u == 0xA0 || u == 0x1680 || (0x2000
        <= u && u <= 0x200A) || u == 0x2028 || u == 0x2029 || u == 0x202F || u == 0x205F || u
        == 0x3000
}

/// Exec mirror of [`is_delim`].
fn delim(c: char) -> (r: bool)
    ensures
        r == is_delim(c),
{
    c == '(' || c == ')' || c == '\''
}

/// A digit string is worth at least any of its prefixes.
proof fn lemma_digits_val_prefix(s: Seq<char>, k: int)
    requires
        all_digits(s),
        0 <= k <= s.len(),
    ensures
        digits_val(s.take(k)) >= 0,
        digits_val(s) >= digits_val(s.take(k)),
    decreases s.len(),
{
    if k == s.len() {
        assert(s.take(k) =~= s);
        lemma_digits_val_nonneg(s);
    } else {
        assert(s.drop_last().take(k) =~= s.take(k));
        assert(all_digits(s.drop_last()));
        lemma_digits_val_prefix(s.drop_last(), k);
        lemma_digits_val_nonneg(s.drop_last());
    }
}

/// A digit string is worth a nonnegative value.
proof fn lemma_digits_val_nonneg(s: Seq<char>)
    requires
        all_digits(s),
    ensures
        digits_val(s) >= 0,
    decreases s.len(),
{
    if s.len() > 0 {
        assert(all_digits(s.drop_last()));
        lemma_digits_val_nonneg(s.drop_last());
    }
}

/// Reads a word as a base-10 signed 64-bit integer, exactly where
/// [`spec_parse_i64`] says one is denoted.
#[verifier::loop_isolation(false)]
pub fn parse_i64(w: &str) -> (r: Option<i64>)
    ensures
        r == spec_parse_i64(w@),
{
    let n = w.unicode_len();
    if n == 0 {
        return None;
    }
    let c0 = w.get_char(0);
    let neg = c0 == '-';
    let start: usize = if c0 == '-' || c0 == '+' {
        1
    } else {
        0
    };
    let ghost d: Seq<char> = if start == 1 {
        w@.skip(1)
    } else {
        w@
    };
    if start == n {
        return None;
    }
    let limit: u64 = if neg {
        9223372036854775808
    } else {
        9223372036854775807
    };
    let mut acc: u64 = 0;
    let mut k = start;
    proof {
        assert(d.take(0) =~= Seq::<char>::empty());
    }
    while k < n
        invariant
            start <= k <= n,
            n == w@.len(),
            d.len() == n - start,
            forall|j: int| 0 <= j < d.len() ==> d[j] == w@[j + start as int],
            all_digits(d.take(k - start as int)),
            acc as int == digits_val(d.take(k - start as int)),
            acc <= limit,
        decreases n - k,
    {
        let c = w.get_char(k);
        let u = c as u32;
        if !(0x30 <= u && u <= 0x39) {
            proof {
                assert(!is_digit(d[k - start as int]));
                assert(!all_digits(d));
            }
            return None;
        }
        let dd: u64 = (u - 0x30) as u64;
        let ghost pre = d.take(k - start as int);
        let ghost pre1 = d.take(k + 1 - start as int);
        proof {
            assert(pre1.drop_last() =~= pre);
            assert(pre1.last() == d[k - start as int]);
            assert(digits_val(pre1) == acc as int * 10 + dd as int);
        }
        let next = match acc.checked_mul(10) {
            Some(x) => x.checked_add(dd),
            None => None,
        };
        let over = match next {
            Some(y) => y > limit,
            None => true,
        };
        if over {
            proof {
                assert(digits_val(pre1) > limit as int);
                if all_digits(d) {
                    lemma_digits_val_prefix(d, k + 1 - start as int);
                    assert(digits_val(d) > limit as int);
                }
            }
            return None;
        }
        acc = match next {
            Some(y) => y,
            None => 0,
        };
        k = k + 1;
    }
    proof {
        assert(d.take(n - start as int) =~= d);
        assert(d.len() > 0);
        assert(int_text_val(w@) == if neg {
            Some(-digits_val(d))
        } else {
            Some(digits_val(d))
        });
    }
    if neg {
        if acc == 9223372036854775808 {
            Some(i64::MIN)
        } else {
            Some(-(acc as i64))
        }
    } else {
        Some(acc as i64)
    }
}

/// Finds the end of the word that starts at `start`.
#[verifier::loop_isolation(false)]
fn scan_word(program: &str, start: usize, n: usize) -> (j: usize)
    requires
        n == program@.len(),
        start < n,
        !is_space(program@[start as int]),
        !is_delim(program@[start as int]),
    ensures
        start < j <= n,
        j as int == word_end(program@, start as int),
{
    let ghost s = program@;
    proof {
        lemma_word_end(s, start as int);
        assert(word_end(s, start as int) == word_end(s, start as int + 1));
    }
    let mut j = start + 1;
    let mut more: usize = 1;
    while more == 1
        invariant
            start < j <= n,
            word_end(s, start as int) == word_end(s, j as int),
            more <= 1,
            more == 0 ==> j as int == word_end(s, start as int),
        decreases n - j + more,
    {
        if j == n {
            more = 0;
        } else {
            let cj = program.get_char(j);
            if space(cj) || delim(cj) {
                more = 0;
            } else {
                proof {
                    assert(word_end(s, j as int) == word_end(s, j as int + 1));
                }
                j = j + 1;
            }
        }
    }
    j
}

/// Splits source text into tokens, exactly as [`lex_spec`] describes.
#[verifier::loop_isolation(false)]
pub fn lex(program: &str) -> (tokens: Vec<Token>)
    ensures
        tokens_view(tokens@) == lex_spec(program@),
{
    let n = program.unicode_len();
    let mut tokens: Vec<Token> = Vec::new();
    let mut i: usize = 0;
    proof {
        assert(tokens_view(tokens@) =~= Seq::<TokenV>::empty());
    }
    while i < n
        invariant
            i <= n,
            n == program@.len(),
            lex_spec(program@) == tokens_view(tokens@) + lex_from(program@, i as int),
        decreases n - i,
    {
        let ghost s = program@;
        let ghost pre = tokens_view(tokens@);
        let c = program.get_char(i);
        if space(c) {
            i = i + 1;
        } else if c == '(' {
            tokens.push(Token::LParen);
            proof {
                assert(tokens_view(tokens@) =~= pre.push(TokenV::LParen));
                assert(pre + (seq![TokenV::LParen] + lex_from(s, i + 1)) =~= pre.push(
                    TokenV::LParen,
                ) + lex_from(s, i + 1));
            }
            i = i + 1;
        } else if c == ')' {
            tokens.push(Token::RParen);
            proof {
                assert(tokens_view(tokens@) =~= pre.push(TokenV::RParen));
                assert(pre + (seq![TokenV::RParen] + lex_from(s, i + 1)) =~= pre.push(
                    TokenV::RParen,
                ) + lex_from(s, i + 1));
            }
            i = i + 1;
        } else if c == '\'' {
            tokens.push(Token::Quote);
            proof {
                assert(tokens_view(tokens@) =~= pre.push(TokenV::Quote));
                assert(pre + (seq![TokenV::Quote] + lex_from(s, i + 1)) =~= pre.push(
                    TokenV::Quote,
                ) + lex_from(s, i + 1));
            }
            i = i + 1;
        } else {
            let start = i;
            proof {
                lemma_word_end(s, start as int);
            }
            let j = scan_word(program, start, n);
            let word = program.substring_char(start, j);
            let tok = match parse_i64(word) {
                Some(v) => Token::Integer(v),
                None => Token::Symbol(String::from_str(word)),
            };
            proof {
                assert(word@ == s.subrange(start as int, j as int));
                assert(tok@ == token_of_word(s.subrange(start as int, word_end(s, start as int))));
            }
            tokens.push(tok);
            proof {
                assert(tokens_view(tokens@) =~= pre.push(tok@));
                assert(pre + (seq![tok@] + lex_from(s, j as int)) =~= pre.push(tok@) + lex_from(
                    s,
                    j as int,
                ));
            }
            i = j;
        }
    }
    proof {
        assert(lex_from(program@, n as int) =~= Seq::<TokenV>::empty());
        assert(tokens_view(tokens@) + Seq::<TokenV>::empty() =~= tokens_view(tokens@));
    }
    tokens
}

} // verus!
