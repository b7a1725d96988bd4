//! Tokeniser for the assembly language.
use vstd::prelude::*;
use crate::assembler::error::{AsmError, AsmResult};
use crate::text::{
    alphabetic, alphanumeric, chars_of, is_alphabetic, is_alphanumeric, push_char, string_of,
};

verus! {

#[derive(Debug, Clone, PartialEq)]
pub enum Token {
    Ident(String),
    Reg(u8),
    Number(i64),
    Str(String),
    Dot,
    Colon,
    Comma,
    LBracket,
    RBracket,
    Newline,
}

/// A token with its text as a character sequence.
pub enum TokenView {
    Ident(Seq<char>),
    Reg(u8),
    Number(i64),
    Str(Seq<char>),
    Dot,
    Colon,
    Comma,
    LBracket,
    RBracket,
    Newline,
}

impl View for Token {
    type V = TokenView;

    open spec fn view(&self) -> TokenView {
        match self {
            Token::Ident(s) => TokenView::Ident(s@),
            Token::Reg(r) => TokenView::Reg(*r),
            Token::Number(n) => TokenView::Number(*n),
            Token::Str(s) => TokenView::Str(s@),
            Token::Dot => TokenView::Dot,
            Token::Colon => TokenView::Colon,
            Token::Comma => TokenView::Comma,
            Token::LBracket => TokenView::LBracket,
            Token::RBracket => TokenView::RBracket,
            Token::Newline => TokenView::Newline,
        }
    }
}

pub open spec fn tokens_view(ts: Seq<Token>) -> Seq<TokenView> {
    ts.map_values(|t: Token| t@)
}

// ── character classes and digit runs ─────────────────────────────────────────

/// Digit classes of number literals.
pub open spec fn in_class(c: char, radix: int) -> bool {
    if radix == 16 {
        ('0' <= c <= '9') || ('a' <= c <= 'f') || ('A' <= c <= 'F')
    } else if radix == 2 {
        c == '0' || c == '1'
    } else {
        '0' <= c <= '9'
    }
}

pub open spec fn digit_value(c: char) -> int {
    if '0' <= c <= '9' {
        c as int - '0' as int
    } else if 'a' <= c <= 'f' {
        c as int - 'a' as int + 10
    } else {
        c as int - 'A' as int + 10
    }
}

/// End of the run of digits of class `radix` (and `_` separators) starting at `i`.
pub open spec fn run_end(cs: Seq<char>, i: int, radix: int) -> int
    decreases cs.len() - i,
{
    if i >= cs.len() || i < 0 {
        i
    } else if in_class(cs[i], radix) || cs[i] == '_' {
        run_end(cs, i + 1, radix)
    } else {
        i
    }
}

/// The value of the digits in `cs[i..j]`, `_` separators skipped.
pub open spec fn run_value(cs: Seq<char>, i: int, j: int, radix: int) -> int
    decreases j - i,
{
    if j <= i {
        0
    } else if cs[j - 1] == '_' {
        run_value(cs, i, j - 1, radix)
    } else {
        run_value(cs, i, j - 1, radix) * radix + digit_value(cs[j - 1])
    }
}

/// The number of digits (not separators) in `cs[i..j]`.
pub open spec fn run_digits(cs: Seq<char>, i: int, j: int) -> int
    decreases j - i,
{
    if j <= i {
        0
    } else if cs[j - 1] == '_' {
        run_digits(cs, i, j - 1)
    } else {
        run_digits(cs, i, j - 1) + 1
    }
}

/// End of an identifier whose first character is at `i - 1`.
pub open spec fn ident_end(cs: Seq<char>, i: int) -> int
    decreases cs.len() - i,
{
    if i >= cs.len() || i < 0 {
        i
    } else if alphanumeric(cs[i]) || cs[i] == '_' {
        ident_end(cs, i + 1)
    } else {
        i
    }
}

/// Index of the newline ending a comment that starts before `i` (or the end).
pub open spec fn comment_end(cs: Seq<char>, i: int) -> int
    decreases cs.len() - i,
{
    if i >= cs.len() || i < 0 {
        i
    } else if cs[i] == '\n' {
        i
    } else {
        comment_end(cs, i + 1)
    }
}

/// The character an escape `\c` stands for in a string literal.
pub open spec fn escape_of(c: char) -> Option<char> {
    if c == 'n' {
        Some('\n')
    } else if c == 't' {
        Some('\t')
    } else if c == 'r' {
        Some('\r')
    } else if c == '0' {
        Some('\0')
    } else if c == '"' {
        Some('"')
    } else if c == '\\' {
        Some('\\')
    } else {
        None
    }
}

/// The contents of a string literal whose opening quote is just before `k`,
/// and the index after its closing quote; `None` if it is unterminated or
/// holds an unknown escape.
pub open spec fn scan_string(cs: Seq<char>, k: int) -> Option<(Seq<char>, int)>
    decreases cs.len() - k,
{
    if k >= cs.len() || k < 0 {
        None
    } else if cs[k] == '"' {
        Some((Seq::empty(), k + 1))
    } else if cs[k] == '\\' {
        if k + 1 >= cs.len() {
            None
        } else {
            match escape_of(cs[k + 1]) {
                None => None,
                Some(e) => match scan_string(cs, k + 2) {
                    None => None,
                    Some((s, j)) => Some((seq![e] + s, j)),
                },
            }
        }
    } else {
        match scan_string(cs, k + 1) {
            None => None,
            Some((s, j)) => Some((seq![cs[k]] + s, j)),
        }
    }
}

/// The register an identifier names: `r` or `R` followed by decimal digits
/// whose value is at most 15.
pub open spec fn reg_number(s: Seq<char>) -> Option<u8> {
    if s.len() >= 2 && (s[0] == 'r' || s[0] == 'R') && (forall|k: int|
        1 <= k < s.len() ==> '0' <= #[trigger] s[k] <= '9') && run_value(s, 1, s.len() as int, 10)
        <= 15 {
        Some(run_value(s, 1, s.len() as int, 10) as u8)
    } else {
        None
    }
}

/// Append a newline token unless the last token already is one.
pub open spec fn push_newline(acc: Seq<TokenView>) -> Seq<TokenView> {
    if acc.len() > 0 && acc.last() is Newline {
        acc
    } else {
        acc.push(TokenView::Newline)
    }
}

pub open spec fn single_char_token(c: char) -> Option<TokenView> {
    if c == ',' {
        Some(TokenView::Comma)
    } else if c == ':' {
        Some(TokenView::Colon)
    } else if c == '[' {
        Some(TokenView::LBracket)
    } else if c == ']' {
        Some(TokenView::RBracket)
    } else if c == '.' {
        Some(TokenView::Dot)
    } else {
        None
    }
}

pub proof fn lemma_run_end_advances(cs: Seq<char>, i: int, radix: int)
    requires
        0 <= i,
    ensures
        i <= run_end(cs, i, radix) <= if i <= cs.len() { cs.len() as int } else { i },
    decreases cs.len() - i,
{
    if i < cs.len() && (in_class(cs[i], radix) || cs[i] == '_') {
        lemma_run_end_advances(cs, i + 1, radix);
    }
}

pub proof fn lemma_ident_end_advances(cs: Seq<char>, i: int)
    requires
        0 <= i,
    ensures
        i <= ident_end(cs, i) <= if i <= cs.len() { cs.len() as int } else { i },
    decreases cs.len() - i,
{
    if i < cs.len() && (alphanumeric(cs[i]) || cs[i] == '_') {
        lemma_ident_end_advances(cs, i + 1);
    }
}

pub proof fn lemma_comment_end_advances(cs: Seq<char>, i: int)
    requires
        0 <= i,
    ensures
        i <= comment_end(cs, i) <= if i <= cs.len() { cs.len() as int } else { i },
    decreases cs.len() - i,
{
    if i < cs.len() && cs[i] != '\n' {
        lemma_comment_end_advances(cs, i + 1);
    }
}

pub proof fn lemma_scan_string_advances(cs: Seq<char>, k: int)
    requires
        0 <= k,
    ensures
        scan_string(cs, k) matches Some((_, j)) ==> k < j <= cs.len(),
    decreases cs.len() - k,
{
    if k < cs.len() && cs[k] != '"' {
        if cs[k] == '\\' {
            if k + 1 < cs.len() {
                lemma_scan_string_advances(cs, k + 2);
            }
        } else {
            lemma_scan_string_advances(cs, k + 1);
        }
    }
}

/// Tokenising `cs` from index `i` on line `line`, with `acc` already
/// produced: the full token list, or the line of the first error.
pub open spec fn lex_from(cs: Seq<char>, i: int, line: int, acc: Seq<TokenView>) -> Result<Seq<TokenView>, int>
    decreases cs.len() - i,
{
    if i >= cs.len() || i < 0 {
        Ok(push_newline(acc))
    } else {
        let c = cs[i];
        if c == ' ' || c == '\t' || c == '\r' {
            lex_from(cs, i + 1, line, acc)
        } else if c == '\n' {
            lex_from(cs, i + 1, line + 1, push_newline(acc))
        } else if c == ';' {
            proof {
                lemma_comment_end_advances(cs, i + 1);
            }
            lex_from(cs, comment_end(cs, i + 1), line, acc)
        } else if single_char_token(c) is Some {
            lex_from(cs, i + 1, line, acc.push(single_char_token(c).unwrap()))
        } else if c == '"' {
            match scan_string(cs, i + 1) {
                None => Err(line),
                Some((s, j)) => {
                    proof {
                        lemma_scan_string_advances(cs, i + 1);
                    }
                    lex_from(cs, j, line, acc.push(TokenView::Str(s)))
                },
            }
        } else if c == '0' && i + 1 < cs.len() && (cs[i + 1] == 'x' || cs[i + 1] == 'X'
            || cs[i + 1] == 'b' || cs[i + 1] == 'B') {
            let radix = if cs[i + 1] == 'x' || cs[i + 1] == 'X' { 16int } else { 2int };
            let j = run_end(cs, i + 2, radix);
            proof {
                lemma_run_end_advances(cs, i + 2, radix);
            }
            if run_digits(cs, i + 2, j) == 0 || run_value(cs, i + 2, j, radix) > i64::MAX {
                Err(line)
            } else {
                lex_from(cs, j, line, acc.push(TokenView::Number(run_value(cs, i + 2, j, radix) as i64)))
            }
        } else if ('0' <= c <= '9') || (c == '-' && i + 1 < cs.len() && '0' <= cs[i + 1] <= '9') {
            let start = if c == '-' { i + 1 } else { i };
            let j = run_end(cs, i + 1, 10);
            proof {
                lemma_run_end_advances(cs, i + 1, 10);
            }
            let mag = run_value(cs, start, j, 10);
            let v = if c == '-' { -mag } else { mag };
            if v < i64::MIN || v > i64::MAX {
                Err(line)
            } else {
                lex_from(cs, j, line, acc.push(TokenView::Number(v as i64)))
            }
        } else if alphabetic(c) || c == '_' {
            let j = ident_end(cs, i + 1);
            proof {
                lemma_ident_end_advances(cs, i + 1);
            }
            let word = cs.subrange(i, j);
            match reg_number(word) {
                Some(r) => lex_from(cs, j, line, acc.push(TokenView::Reg(r))),
                None => lex_from(cs, j, line, acc.push(TokenView::Ident(word))),
            }
        } else {
            Err(line)
        }
    }
}

/// The tokens of a source text, or the line of its first lexical error.
pub open spec fn lex_spec(cs: Seq<char>) -> Result<Seq<TokenView>, int> {
    lex_from(cs, 0, 1, Seq::empty())
}


/// Scan a run of digits of class `radix` (with `_` separators) from `i`:
/// its end, whether it holds a digit, and its value (`over`: above 2^63).
fn scan_number(cs: &Vec<char>, i: usize, radix: u64) -> (r: (usize, bool, u64, bool))
    requires
        i <= cs@.len(),
        radix == 2 || radix == 10 || radix == 16,
    ensures
        r.0 == run_end(cs@, i as int, radix as int),
        r.1 == (run_digits(cs@, i as int, r.0 as int) > 0),
        run_digits(cs@, i as int, r.0 as int) >= 0,
        !r.3 ==> r.2 == run_value(cs@, i as int, r.0 as int, radix as int) && r.2 <= 0x8000_0000_0000_0000u64,
        r.3 ==> run_value(cs@, i as int, r.0 as int, radix as int) > 0x8000_0000_0000_0000u64,
{
    let mut j: usize = i;
    let mut any: bool = false;
    let mut v: u64 = 0;
    let mut over: bool = false;
    proof {
        lemma_run_end_advances(cs@, i as int, radix as int);
    }
    while j < cs.len()
        invariant
            i <= j <= cs@.len(),
            radix == 2 || radix == 10 || radix == 16,
            run_end(cs@, j as int, radix as int) == run_end(cs@, i as int, radix as int),
            any == (run_digits(cs@, i as int, j as int) > 0),
            run_digits(cs@, i as int, j as int) >= 0,
            run_value(cs@, i as int, j as int, radix as int) >= 0,
            !over ==> v == run_value(cs@, i as int, j as int, radix as int) && v <= 0x8000_0000_0000_0000u64,
            over ==> run_value(cs@, i as int, j as int, radix as int) > 0x8000_0000_0000_0000u64,
        ensures
            i <= j <= cs@.len(),
            j == run_end(cs@, i as int, radix as int),
            any == (run_digits(cs@, i as int, j as int) > 0),
            run_digits(cs@, i as int, j as int) >= 0,
            !over ==> v == run_value(cs@, i as int, j as int, radix as int) && v <= 0x8000_0000_0000_0000u64,
            over ==> run_value(cs@, i as int, j as int, radix as int) > 0x8000_0000_0000_0000u64,
        decreases cs@.len() - j,
    {
        let c = cs[j];
        let inc = if radix == 16 {
            ('0' <= c && c <= '9') || ('a' <= c && c <= 'f') || ('A' <= c && c <= 'F')
        } else if radix == 2 {
            c == '0' || c == '1'
        } else {
            '0' <= c && c <= '9'
        };
        if !inc && c != '_' {
            break;
        }
        let ghost old_rv = run_value(cs@, i as int, j as int, radix as int);
        if c != '_' {
            let d: u64 = if '0' <= c && c <= '9' {
                (c as u32 - '0' as u32) as u64
            } else if 'a' <= c && c <= 'f' {
                (c as u32 - 'a' as u32 + 10) as u64
            } else {
                (c as u32 - 'A' as u32 + 10) as u64
            };
            assert(d == digit_value(c));
            assert(d < radix);
            any = true;
            assert(old_rv * radix + d >= old_rv) by (nonlinear_arith)
                requires
                    old_rv >= 0,
                    radix >= 2,
                    d >= 0,
            ;
            if !over {
                assert(v * radix + d <= 0x8000_0000_0000_0000u64 * 16 + 16) by (nonlinear_arith)
                    requires
                        v <= 0x8000_0000_0000_0000u64,
                        radix <= 16,
                        d < 16,
                ;
                let nv: u128 = (v as u128) * (radix as u128) + (d as u128);
                if nv > 0x8000_0000_0000_0000u128 {
                    over = true;
                } else {
                    v = nv as u64;
                }
            }
        }
        j += 1;
    }
    (j, any, v, over)
}

/// The end of an identifier whose first character is just before `i`.
fn scan_ident_end(cs: &Vec<char>, i: usize) -> (j: usize)
    requires
        i <= cs@.len(),
    ensures
        j == ident_end(cs@, i as int),
        i <= j <= cs@.len(),
{
    let mut j = i;
    proof {
        lemma_ident_end_advances(cs@, i as int);
    }
    while j < cs.len()
        invariant
            i <= j <= cs@.len(),
            ident_end(cs@, j as int) == ident_end(cs@, i as int),
        ensures
            i <= j <= cs@.len(),
            j == ident_end(cs@, i as int),
        decreases cs@.len() - j,
    {
        if !(is_alphanumeric(cs[j]) || cs[j] == '_') {
            break;
        }
        j += 1;
    }
    j
}

/// The index of the newline that ends a comment (or the end of the text).
fn scan_comment_end(cs: &Vec<char>, i: usize) -> (j: usize)
    requires
        i <= cs@.len(),
    ensures
        j == comment_end(cs@, i as int),
        i <= j <= cs@.len(),
{
    let mut j = i;
    while j < cs.len()
        invariant
            i <= j <= cs@.len(),
            comment_end(cs@, j as int) == comment_end(cs@, i as int),
        ensures
            i <= j <= cs@.len(),
            j == comment_end(cs@, i as int),
        decreases cs@.len() - j,
    {
        if cs[j] == '\n' {
            break;
        }
        j += 1;
    }
    j
}

/// Scan a string literal whose opening quote is just before `k`.
fn scan_str(cs: &Vec<char>, k: usize) -> (r: Option<(Vec<char>, usize)>)
    requires
        k <= cs@.len(),
    ensures
        match scan_string(cs@, k as int) {
            None => r is None,
            Some((s, j)) => r matches Some((v, jj)) && v@ == s && jj == j,
        },
{
    let mut acc: Vec<char> = Vec::new();
    let mut p: usize = k;
    assert(acc@ + Seq::<char>::empty() =~= Seq::<char>::empty());
    loop
        invariant
            k <= p <= cs@.len() + 1,
            p <= cs@.len() || scan_string(cs@, p as int) is None,
            scan_string(cs@, k as int) == match scan_string(cs@, p as int) {
                None => None,
                Some((s, j)) => Some((acc@ + s, j)),
            },
        decreases cs@.len() + 1 - p,
    {
        if p >= cs.len() {
            return None;
        }
        let c = cs[p];
        if c == '"' {
            assert(acc@ + Seq::<char>::empty() =~= acc@);
            return Some((acc, p + 1));
        } else if c == '\\' {
            if p + 1 >= cs.len() {
                return None;
            }
            let e = cs[p + 1];
            let esc: char = if e == 'n' {
                '\n'
            } else if e == 't' {
                '\t'
            } else if e == 'r' {
                '\r'
            } else if e == '0' {
                '\0'
            } else if e == '"' {
                '"'
            } else if e == '\\' {
                '\\'
            } else {
                return None;
            };
            let ghost before = acc@;
            acc.push(esc);
            proof {
                match scan_string(cs@, p + 2) {
                    None => {},
                    Some((s, j)) => {
                        assert(before + (seq![esc] + s) =~= acc@ + s);
                    },
                }
            }
            p = p + 2;
        } else {
            let ghost before = acc@;
            acc.push(c);
            proof {
                match scan_string(cs@, p + 1) {
                    None => {},
                    Some((s, j)) => {
                        assert(before + (seq![c] + s) =~= acc@ + s);
                    },
                }
            }
            p = p + 1;
        }
    }
}

/// The register an identifier names (`r0`–`r15`, either case of `r`).
fn parse_reg(s: &[char]) -> (r: Option<u8>)
    ensures
        r == reg_number(s@),
{
    if s.len() < 2 || !(s[0] == 'r' || s[0] == 'R') {
        return None;
    }
    let mut k: usize = 1;
    let mut v: u8 = 0;
    let mut big: bool = false;
    while k < s.len()
        invariant
            2 <= s@.len(),
            1 <= k <= s@.len(),
            forall|m: int| 1 <= m < k ==> '0' <= #[trigger] s@[m] <= '9',
            run_value(s@, 1, k as int, 10) >= 0,
            !big ==> v == run_value(s@, 1, k as int, 10) && v <= 15,
            big ==> run_value(s@, 1, k as int, 10) > 15,
        decreases s@.len() - k,
    {
        let c = s[k];
        if !('0' <= c && c <= '9') {
            return None;
        }
        let d: u8 = (c as u32 - '0' as u32) as u8;
        assert(d == digit_value(c));
        if !big {
            let nv: u16 = (v as u16) * 10 + d as u16;
            if nv > 15 {
                big = true;
            } else {
                v = nv as u8;
            }
        }
        k += 1;
    }
    if big {
        None
    } else {
        Some(v)
    }
}

/// Append a newline token unless the last token already is one.
fn push_newline_token(tokens: &mut Vec<Token>)
    ensures
        tokens_view(final(tokens)@) == push_newline(tokens_view(old(tokens)@)),
{
    let last_is_newline = tokens.len() > 0 && match tokens[tokens.len() - 1] {
        Token::Newline => true,
        _ => false,
    };
    if !last_is_newline {
        tokens.push(Token::Newline);
        assert(tokens_view(tokens@) =~= tokens_view(old(tokens)@).push(TokenView::Newline));
    }
}

/// The characters `cs[i..j]` as a string.
fn string_of_range(cs: &Vec<char>, i: usize, j: usize) -> (s: String)
    requires
        i <= j <= cs@.len(),
    ensures
        s@ == cs@.subrange(i as int, j as int),
{
    let mut s = String::new();
    let mut k = i;
    while k < j
        invariant
            i <= k <= j <= cs@.len(),
            s@ == cs@.subrange(i as int, k as int),
        decreases j - k,
    {
        push_char(&mut s, cs[k]);
        k += 1;
        assert(s@ =~= cs@.subrange(i as int, k as int));
    }
    s
}

fn lex_error(line: usize, msg: &str) -> (e: AsmError)
    ensures
        e.line == line,
{
    AsmError::new(line, msg.to_owned())
}

/// Split assembly source text into tokens; the list always ends with a
/// newline token, and runs of blank lines give a single newline token.
pub fn lex(src: &str) -> (r: AsmResult<Vec<Token>>)
    requires
        src@.len() < usize::MAX,
    ensures
        match lex_spec(src@) {
            Ok(ts) => r is Ok && tokens_view(r->Ok_0@) == ts,
            Err(line) => r is Err && r->Err_0.line == line,
        },
{
    let cs = chars_of(src);
    let n = cs.len();
    let mut tokens: Vec<Token> = Vec::new();
    let mut i: usize = 0;
    let mut line: usize = 1;
    assert(tokens_view(tokens@) =~= Seq::<TokenView>::empty());
    while i < n
        invariant
            n == cs@.len(),
            cs@ == src@,
            n < usize::MAX,
            i <= n,
            1 <= line <= i + 1,
            lex_from(cs@, i as int, line as int, tokens_view(tokens@)) == lex_spec(cs@),
        decreases n - i,
    {
        let ch = cs[i];
        let ghost acc = tokens_view(tokens@);
        if ch == ' ' || ch == '\t' || ch == '\r' {
            i += 1;
        } else if ch == '\n' {
            push_newline_token(&mut tokens);
            line += 1;
            i += 1;
        } else if ch == ';' {
            i = scan_comment_end(&cs, i + 1);
        } else if ch == ',' || ch == ':' || ch == '[' || ch == ']' || ch == '.' {
            let t = if ch == ',' {
                Token::Comma
            } else if ch == ':' {
                Token::Colon
            } else if ch == '[' {
                Token::LBracket
            } else if ch == ']' {
                Token::RBracket
            } else {
                Token::Dot
            };
            tokens.push(t);
            assert(tokens_view(tokens@) =~= acc.push(t@));
            i += 1;
        } else if ch == '"' {
            match scan_str(&cs, i + 1) {
                None => {
                    return Err(lex_error(line, "unterminated string literal or unknown escape"));
                },
                Some((s, j)) => {
                    proof {
                        lemma_scan_string_advances(cs@, i + 1);
                    }
                    let t = Token::Str(string_of(s.as_slice()));
                    tokens.push(t);
                    assert(tokens_view(tokens@) =~= acc.push(t@));
                    i = j;
                },
            }
        } else if ch == '0' && i + 1 < n && (cs[i + 1] == 'x' || cs[i + 1] == 'X' || cs[i + 1] == 'b'
            || cs[i + 1] == 'B') {
            let hex = cs[i + 1] == 'x' || cs[i + 1] == 'X';
            let radix: u64 = if hex { 16 } else { 2 };
            let (j, any, v, over) = scan_number(&cs, i + 2, radix);
            proof {
                lemma_run_end_advances(cs@, i + 2, radix as int);
            }
            if !any {
                return Err(
                    lex_error(
                        line,
                        if hex { "expected hex digits after '0x'" } else { "expected binary digits after '0b'" },
                    ),
                );
            }
            if over || v > 0x7FFF_FFFF_FFFF_FFFF {
                return Err(lex_error(line, if hex { "invalid hex literal" } else { "invalid binary literal" }));
            }
            let t = Token::Number(v as i64);
            tokens.push(t);
            assert(tokens_view(tokens@) =~= acc.push(t@));
            i = j;
        } else if ('0' <= ch && ch <= '9') || (ch == '-' && i + 1 < n && '0' <= cs[i + 1] && cs[i + 1]
            <= '9') {
            let neg = ch == '-';
            let start = if neg { i + 1 } else { i };
            let (j, _any, mag, over) = scan_number(&cs, start, 10);
            proof {
                lemma_run_end_advances(cs@, i + 1, 10);
                assert(run_end(cs@, start as int, 10) == run_end(cs@, i + 1, 10));
            }
            if over || (!neg && mag > 0x7FFF_FFFF_FFFF_FFFF) {
                return Err(lex_error(line, "invalid integer"));
            }
            let v: i64 = if neg {
                if mag == 0x8000_0000_0000_0000u64 {
                    i64::MIN
                } else {
                    -(mag as i64)
                }
            } else {
                mag as i64
            };
            let t = Token::Number(v);
            tokens.push(t);
            assert(tokens_view(tokens@) =~= acc.push(t@));
            i = j;
        } else if is_alphabetic(ch) || ch == '_' {
            let j = scan_ident_end(&cs, i + 1);
            let word = string_of_range(&cs, i, j);
            let wchars = chars_of(word.as_str());
            let t = match parse_reg(wchars.as_slice()) {
                Some(reg) => Token::Reg(reg),
                None => Token::Ident(word),
            };
            tokens.push(t);
            assert(tokens_view(tokens@) =~= acc.push(t@));
            i = j;
        } else {
            let mut msg = "unexpected character '".to_owned();
            push_char(&mut msg, ch);
            push_char(&mut msg, '\'');
            return Err(AsmError::new(line, msg));
        }
    }
    push_newline_token(&mut tokens);
    Ok(tokens)
}

} // verus!
