use vstd::prelude::*;

use crate::script::scanner::{
    alnum_end, char_at, col_after, digit_end, eol_end, is_ws, lemma_alnum_end, lemma_digit_end,
    lemma_eol_end, lemma_line_col_bounds, lemma_number_end, lemma_scan_step_bounds,
    lemma_skip_ws, lemma_string_close, line_after, number_end, scan_from, scan_step, skip_ws,
    spec_is_alpha, spec_is_alpha_numeric, spec_is_digit, spec_tokenize, string_close, token_at,
    eof_token, ScanOutcome, Step,
};
use crate::script::tokens::SpecToken;

verus! {

// ---------------------------------------------------------------------------
// Scanning a source with a blank inserted between two tokens.
// ---------------------------------------------------------------------------

/// `chars` with a blank inserted at index `m`.
pub open spec fn insert_blank(chars: Seq<char>, m: int) -> Seq<char> {
    chars.take(m) + seq![' '] + chars.skip(m)
}

/// Whether scanning from `i` comes to rest at `m`, with only whole tokens
/// between them: `m` is `i`, or the end of a token scanned from `i` on.
pub open spec fn reaches(chars: Seq<char>, i: int, m: int) -> bool
    decreases chars.len() - i,
{
    if i == m {
        true
    } else if i < 0 || i > m || i >= chars.len() {
        false
    } else {
        match scan_step(chars, i) {
            Step::Tok(_, t) => {
                proof {
                    lemma_scan_step_bounds(chars, i);
                }
                reaches(chars, t, m)
            },
            _ => false,
        }
    }
}

/// The same kinds and lexemes, token by token; positions may differ.
pub open spec fn same_tokens(a: Seq<SpecToken>, b: Seq<SpecToken>) -> bool {
    &&& a.len() == b.len()
    &&& forall|k: int|
        0 <= k < a.len() ==> (#[trigger] a[k]).type_ == b[k].type_ && a[k].lexeme == b[k].lexeme
}

proof fn lemma_prefix_char(c: Seq<char>, m: int, j: int)
    requires
        0 <= m <= c.len(),
        j < m,
    ensures
        char_at(insert_blank(c, m), j) == char_at(c, j),
{
    let d = insert_blank(c, m);
    if j >= 0 {
        assert(d[j] == c[j]);
    }
}

proof fn lemma_blank_char(c: Seq<char>, m: int)
    requires
        0 <= m <= c.len(),
    ensures
        char_at(insert_blank(c, m), m) == ' ',
        insert_blank(c, m).len() == c.len() + 1,
{
    let d = insert_blank(c, m);
    assert(d[m] == ' ');
}

proof fn lemma_shift_char(c: Seq<char>, m: int, j: int)
    requires
        0 <= m <= c.len(),
        m <= j,
    ensures
        char_at(insert_blank(c, m), j + 1) == char_at(c, j),
{
    let d = insert_blank(c, m);
    assert(d.len() == c.len() + 1);
    if j < c.len() {
        assert(d[j + 1] == c[j]);
    }
}

/// Positions before the blank are those of the source.
proof fn lemma_prefix_pos(c: Seq<char>, m: int, n: int)
    requires
        0 <= m <= c.len(),
        n <= m,
    ensures
        col_after(insert_blank(c, m), n) == col_after(c, n),
        line_after(insert_blank(c, m), n) == line_after(c, n),
    decreases n,
{
    if n > 0 {
        lemma_prefix_char(c, m, n - 2);
        lemma_prefix_pos(c, m, n - 1);
    }
}

/// After the blank, a column is never less than in the source.
proof fn lemma_shift_col(c: Seq<char>, m: int, j: int)
    requires
        0 <= m <= c.len(),
        m + 1 <= j,
    ensures
        col_after(insert_blank(c, m), j + 1) >= col_after(c, j),
    decreases j,
{
    let d = insert_blank(c, m);
    if j == m + 1 {
        lemma_blank_char(c, m);
        lemma_prefix_char(c, m, m - 1);
        lemma_prefix_pos(c, m, m);
        lemma_line_col_bounds(d, m + 1);
    } else {
        lemma_shift_char(c, m, j - 2);
        lemma_shift_col(c, m, j - 1);
    }
}

proof fn lemma_prefix_eol(c: Seq<char>, m: int, i: int)
    requires
        0 <= m <= c.len(),
        0 <= i,
        eol_end(c, i) < m,
    ensures
        eol_end(insert_blank(c, m), i) == eol_end(c, i),
    decreases c.len() - i,
{
    let d = insert_blank(c, m);
    lemma_eol_end(c, i);
    lemma_prefix_char(c, m, i);
    if c[i] != '\n' {
        lemma_prefix_eol(c, m, i + 1);
    }
}

proof fn lemma_shift_eol(c: Seq<char>, m: int, j: int)
    requires
        0 <= m <= c.len(),
        m <= j,
    ensures
        eol_end(insert_blank(c, m), j + 1) == eol_end(c, j) + 1,
    decreases c.len() - j,
{
    lemma_shift_char(c, m, j);
    if j < c.len() && c[j] != '\n' {
        lemma_shift_eol(c, m, j + 1);
    }
}

proof fn lemma_prefix_skip(c: Seq<char>, m: int, i: int)
    requires
        0 <= m <= c.len(),
        0 <= i,
        skip_ws(c, i) < m,
    ensures
        skip_ws(insert_blank(c, m), i) == skip_ws(c, i),
    decreases c.len() - i,
{
    let d = insert_blank(c, m);
    lemma_skip_ws(c, i);
    lemma_prefix_char(c, m, i);
    lemma_blank_char(c, m);
    if i + 1 < m {
        lemma_prefix_char(c, m, i + 1);
    }
    if char_at(c, i) == '/' && char_at(c, i + 1) == '/' {
        lemma_eol_end(c, i);
        let j = eol_end(c, i);
        if is_ws(char_at(c, j)) {
            lemma_skip_ws(c, j + 1);
        }
        lemma_prefix_eol(c, m, i);
        lemma_prefix_char(c, m, j);
        if is_ws(char_at(c, j)) {
            lemma_prefix_skip(c, m, j + 1);
        }
    } else if is_ws(char_at(c, i)) {
        lemma_skip_ws(c, i + 1);
        lemma_prefix_skip(c, m, i + 1);
    }
}

proof fn lemma_shift_skip(c: Seq<char>, m: int, j: int)
    requires
        0 <= m <= c.len(),
        m <= j,
    ensures
        skip_ws(insert_blank(c, m), j + 1) == skip_ws(c, j) + 1,
    decreases c.len() - j,
{
    lemma_blank_char(c, m);
    if j < c.len() {
        lemma_shift_char(c, m, j);
        lemma_shift_char(c, m, j + 1);
        lemma_eol_end(c, j);
        let k = if char_at(c, j) == '/' && char_at(c, j + 1) == '/' {
            lemma_shift_eol(c, m, j);
            eol_end(c, j)
        } else {
            j
        };
        lemma_shift_char(c, m, k);
        if is_ws(char_at(c, k)) {
            lemma_shift_skip(c, m, k + 1);
        }
    }
}

proof fn lemma_prefix_alnum(c: Seq<char>, m: int, i: int)
    requires
        0 <= m <= c.len(),
        0 <= i <= c.len(),
        alnum_end(c, i) <= m,
    ensures
        alnum_end(insert_blank(c, m), i) == alnum_end(c, i),
    decreases c.len() - i,
{
    lemma_alnum_end(c, i);
    lemma_blank_char(c, m);
    if i < m {
        lemma_prefix_char(c, m, i);
    }
    if i < c.len() && spec_is_alpha_numeric(c[i]) {
        lemma_prefix_alnum(c, m, i + 1);
    }
}

proof fn lemma_shift_alnum(c: Seq<char>, m: int, j: int)
    requires
        0 <= m <= c.len(),
        m <= j,
    ensures
        alnum_end(insert_blank(c, m), j + 1) == alnum_end(c, j) + 1,
    decreases c.len() - j,
{
    lemma_blank_char(c, m);
    lemma_shift_char(c, m, j);
    if j < c.len() && spec_is_alpha_numeric(c[j]) {
        lemma_shift_alnum(c, m, j + 1);
    }
}

proof fn lemma_prefix_digits(c: Seq<char>, m: int, i: int)
    requires
        0 <= m <= c.len(),
        0 <= i <= c.len(),
        digit_end(c, i) <= m,
    ensures
        digit_end(insert_blank(c, m), i) == digit_end(c, i),
    decreases c.len() - i,
{
    lemma_digit_end(c, i);
    lemma_blank_char(c, m);
    if i < m {
        lemma_prefix_char(c, m, i);
    }
    if i < c.len() && spec_is_digit(c[i]) {
        lemma_prefix_digits(c, m, i + 1);
    }
}

proof fn lemma_shift_digits(c: Seq<char>, m: int, j: int)
    requires
        0 <= m <= c.len(),
        m <= j,
    ensures
        digit_end(insert_blank(c, m), j + 1) == digit_end(c, j) + 1,
    decreases c.len() - j,
{
    lemma_blank_char(c, m);
    lemma_shift_char(c, m, j);
    if j < c.len() && spec_is_digit(c[j]) {
        lemma_shift_digits(c, m, j + 1);
    }
}

proof fn lemma_prefix_number(c: Seq<char>, m: int, s: int)
    requires
        0 <= m <= c.len(),
        0 <= s < c.len(),
        number_end(c, s) <= m,
    ensures
        number_end(insert_blank(c, m), s) == number_end(c, s),
{
    lemma_blank_char(c, m);
    lemma_digit_end(c, s + 1);
    let t1 = digit_end(c, s + 1);
    if char_at(c, t1) == '.' && spec_is_digit(char_at(c, t1 + 1)) {
        assert(digit_end(c, t1 + 1) == digit_end(c, t1 + 2));
        lemma_digit_end(c, t1 + 2);
        lemma_prefix_digits(c, m, t1 + 1);
        lemma_prefix_char(c, m, t1);
        lemma_prefix_char(c, m, t1 + 1);
    }
    lemma_prefix_digits(c, m, s + 1);
    if t1 < m {
        lemma_prefix_char(c, m, t1);
    }
    if t1 + 1 < m {
        lemma_prefix_char(c, m, t1 + 1);
    }
}

proof fn lemma_shift_number(c: Seq<char>, m: int, s: int)
    requires
        0 <= m <= c.len(),
        m <= s,
    ensures
        number_end(insert_blank(c, m), s + 1) == number_end(c, s) + 1,
{
    lemma_shift_digits(c, m, s + 1);
    let t1 = digit_end(c, s + 1);
    if s + 1 <= c.len() {
        lemma_digit_end(c, s + 1);
    }
    lemma_shift_char(c, m, t1);
    lemma_shift_char(c, m, t1 + 1);
    lemma_shift_digits(c, m, t1 + 1);
}

proof fn lemma_prefix_string(c: Seq<char>, m: int, p: int)
    requires
        0 <= m <= c.len(),
        0 <= p,
        string_close(c, p) matches Some(r) && r < m,
    ensures
        string_close(insert_blank(c, m), p) == string_close(c, p),
    decreases c.len() - p,
{
    let d = insert_blank(c, m);
    lemma_string_close(c, p);
    let q = if char_at(c, p) == '\\' && p + 1 < c.len() {
        p + 1
    } else {
        p
    };
    if c[q + 1] != '"' {
        lemma_string_close(c, q + 1);
    }
    lemma_prefix_char(c, m, p);
    lemma_prefix_char(c, m, q + 1);
    assert(d[q + 1] == c[q + 1]);
    if c[q + 1] != '"' {
        lemma_prefix_string(c, m, q + 1);
    }
}

proof fn lemma_shift_string(c: Seq<char>, m: int, p: int)
    requires
        0 <= m <= c.len(),
        m <= p,
    ensures
        string_close(insert_blank(c, m), p + 1) == match string_close(c, p) {
            Some(r) => Some(r + 1),
            None => None::<int>,
        },
    decreases c.len() - p,
{
    let d = insert_blank(c, m);
    lemma_blank_char(c, m);
    lemma_shift_char(c, m, p);
    let q = if char_at(c, p) == '\\' && p + 1 < c.len() {
        p + 1
    } else {
        p
    };
    lemma_shift_char(c, m, q + 1);
    if q + 1 < c.len() {
        assert(d[q + 2] == c[q + 1]);
        if c[q + 1] != '"' {
            lemma_shift_string(c, m, q + 1);
        }
    }
}


proof fn lemma_prefix_all(c: Seq<char>, m: int)
    requires
        0 <= m <= c.len(),
    ensures
        forall|k: int| 0 <= k < m ==> #[trigger] insert_blank(c, m)[k] == c[k],
{
    let d = insert_blank(c, m);
    assert forall|k: int| 0 <= k < m implies #[trigger] d[k] == c[k] by {
        lemma_prefix_char(c, m, k);
    }
}

proof fn lemma_shift_all(c: Seq<char>, m: int)
    requires
        0 <= m <= c.len(),
    ensures
        forall|k: int| m <= k < c.len() ==> #[trigger] insert_blank(c, m)[k + 1] == c[k],
{
    let d = insert_blank(c, m);
    assert forall|k: int| m <= k < c.len() implies #[trigger] d[k + 1] == c[k] by {
        lemma_shift_char(c, m, k);
    }
}

proof fn lemma_token_at_bounds(c: Seq<char>, s: int)
    requires
        0 <= s < c.len(),
    ensures
        token_at(c, s) matches Step::Tok(tok, t) ==> s < t <= c.len(),
{
    lemma_alnum_end(c, s + 1);
    lemma_number_end(c, s);
    lemma_string_close(c, s);
}

/// A token that ends at or before the blank is scanned alike.
proof fn lemma_prefix_token(c: Seq<char>, m: int, s: int)
    requires
        0 <= m <= c.len(),
        0 <= s < c.len(),
        token_at(c, s) matches Step::Tok(tok, t) && t <= m,
    ensures
        token_at(insert_blank(c, m), s) == token_at(c, s),
{
    let d = insert_blank(c, m);
    lemma_token_at_bounds(c, s);
    lemma_blank_char(c, m);
    lemma_prefix_all(c, m);
    lemma_prefix_char(c, m, s);
    let t = token_at(c, s)->Tok_1;
    lemma_prefix_pos(c, m, t);
    assert(d.subrange(s, t) =~= c.subrange(s, t));
    let ch = c[s];
    assert(d[s] == ch);
    if spec_is_alpha(ch) {
        lemma_alnum_end(c, s + 1);
        lemma_prefix_alnum(c, m, s + 1);
    } else if spec_is_digit(ch) {
        lemma_prefix_number(c, m, s);
    } else if ch == '"' {
        let r = string_close(c, s)->0;
        lemma_string_close(c, s);
        lemma_prefix_string(c, m, s);
        assert(d.subrange(s + 1, r) =~= c.subrange(s + 1, r));
    } else {
        if s + 1 < m {
            lemma_prefix_char(c, m, s + 1);
        }
    }
}

/// A token that starts after the blank is scanned one place later, with the
/// same kind and lexeme, at a column no smaller.
proof fn lemma_shift_token(c: Seq<char>, m: int, s: int)
    requires
        0 <= m <= s < c.len(),
    ensures
        token_at(c, s) matches Step::Tok(tok, t) ==> (token_at(insert_blank(c, m), s + 1) matches Step::Tok(
            tok2,
            t2,
        ) && t2 == t + 1 && tok2.type_ == tok.type_ && tok2.lexeme == tok.lexeme),
{
    let d = insert_blank(c, m);
    if let Step::Tok(tok, t) = token_at(c, s) {
        lemma_token_at_bounds(c, s);
        lemma_blank_char(c, m);
        lemma_shift_all(c, m);
        lemma_shift_char(c, m, s);
        lemma_shift_char(c, m, s + 1);
        lemma_shift_col(c, m, t);
        assert(d.subrange(s + 1, t + 1) =~= c.subrange(s, t));
        let ch = c[s];
        assert(d[s + 1] == ch);
        if spec_is_alpha(ch) {
            lemma_shift_alnum(c, m, s + 1);
        } else if spec_is_digit(ch) {
            lemma_shift_number(c, m, s);
        } else if ch == '"' {
            let r = string_close(c, s)->0;
            lemma_string_close(c, s);
            lemma_shift_string(c, m, s);
            assert(d.subrange(s + 2, r + 1) =~= c.subrange(s + 1, r));
        }
    }
}

proof fn lemma_prefix_step(c: Seq<char>, m: int, i: int)
    requires
        0 <= m <= c.len(),
        0 <= i < c.len(),
        scan_step(c, i) matches Step::Tok(tok, t) && t <= m,
    ensures
        scan_step(insert_blank(c, m), i) == scan_step(c, i),
{
    lemma_skip_ws(c, i);
    let s = skip_ws(c, i);
    lemma_token_at_bounds(c, s);
    lemma_prefix_skip(c, m, i);
    lemma_blank_char(c, m);
    lemma_prefix_token(c, m, s);
}

proof fn lemma_shift_step(c: Seq<char>, m: int, i: int)
    requires
        0 <= m <= i < c.len(),
    ensures
        scan_step(c, i) is End ==> scan_step(insert_blank(c, m), i + 1) is End,
        scan_step(c, i) matches Step::Tok(tok, t) ==> (scan_step(insert_blank(c, m), i + 1) matches Step::Tok(
            tok2,
            t2,
        ) && t2 == t + 1 && tok2.type_ == tok.type_ && tok2.lexeme == tok.lexeme),
{
    lemma_skip_ws(c, i);
    lemma_shift_skip(c, m, i);
    lemma_blank_char(c, m);
    let s = skip_ws(c, i);
    if s < c.len() {
        lemma_shift_token(c, m, s);
    }
}

/// From the blank on, scanning stays in step with the source one place later.
proof fn lemma_shift_scan(c: Seq<char>, m: int, i: int, acc1: Seq<SpecToken>, acc2: Seq<SpecToken>)
    requires
        0 <= m <= c.len(),
        m <= i,
        same_tokens(acc1, acc2),
        scan_from(c, i, acc1) is Tokens,
    ensures
        scan_from(insert_blank(c, m), i + 1, acc2) is Tokens,
        same_tokens(scan_from(c, i, acc1)->Tokens_0, scan_from(insert_blank(c, m), i + 1, acc2)->Tokens_0),
    decreases c.len() - i,
{
    let d = insert_blank(c, m);
    lemma_blank_char(c, m);
    if i >= c.len() {
        let r1 = acc1.push(eof_token(c));
        let r2 = acc2.push(eof_token(d));
        assert(same_tokens(r1, r2)) by {
            assert forall|k: int| 0 <= k < r1.len() implies (#[trigger] r1[k]).type_ == r2[k].type_
                && r1[k].lexeme == r2[k].lexeme by {
                if k < acc1.len() {
                    assert(r1[k] == acc1[k]);
                    assert(r2[k] == acc2[k]);
                }
            }
        }
    } else {
        lemma_scan_step_bounds(c, i);
        lemma_shift_step(c, m, i);
        match scan_step(c, i) {
            Step::End => {
                let r1 = acc1.push(eof_token(c));
                let r2 = acc2.push(eof_token(d));
                assert(same_tokens(r1, r2)) by {
                    assert forall|k: int| 0 <= k < r1.len() implies (#[trigger] r1[k]).type_
                        == r2[k].type_ && r1[k].lexeme == r2[k].lexeme by {
                        if k < acc1.len() {
                            assert(r1[k] == acc1[k]);
                            assert(r2[k] == acc2[k]);
                        }
                    }
                }
            },
            Step::Tok(tok, t) => {
                let tok2 = scan_step(d, i + 1)->Tok_0;
                let n1 = acc1.push(tok);
                let n2 = acc2.push(tok2);
                assert(same_tokens(n1, n2)) by {
                    assert forall|k: int| 0 <= k < n1.len() implies (#[trigger] n1[k]).type_
                        == n2[k].type_ && n1[k].lexeme == n2[k].lexeme by {
                        if k < acc1.len() {
                            assert(n1[k] == acc1[k]);
                            assert(n2[k] == acc2[k]);
                        }
                    }
                }
                lemma_shift_scan(c, m, t, n1, n2);
            },
            _ => {},
        }
    }
}

/// At the blank, scanning skips it.
proof fn lemma_blank_start(c: Seq<char>, m: int, acc: Seq<SpecToken>)
    requires
        0 <= m <= c.len(),
    ensures
        scan_from(insert_blank(c, m), m, acc) == scan_from(insert_blank(c, m), m + 1, acc),
{
    let d = insert_blank(c, m);
    lemma_blank_char(c, m);
    assert(skip_ws(d, m) == skip_ws(d, m + 1));
}

proof fn lemma_reaches_bound(c: Seq<char>, i: int, m: int)
    requires
        0 <= i <= c.len(),
        reaches(c, i, m),
    ensures
        i <= m <= c.len(),
    decreases c.len() - i,
{
    if i != m {
        lemma_scan_step_bounds(c, i);
        let t = scan_step(c, i)->Tok_1;
        lemma_reaches_bound(c, t, m);
    }
}

/// Up to the blank, scanning gives the very same tokens; after it, the same
/// kinds and lexemes.
proof fn lemma_prefix_scan(c: Seq<char>, m: int, i: int, acc: Seq<SpecToken>)
    requires
        0 <= m <= c.len(),
        0 <= i,
        reaches(c, i, m),
        scan_from(c, i, acc) is Tokens,
    ensures
        scan_from(insert_blank(c, m), i, acc) is Tokens,
        same_tokens(scan_from(c, i, acc)->Tokens_0, scan_from(insert_blank(c, m), i, acc)->Tokens_0),
    decreases c.len() - i,
{
    let d = insert_blank(c, m);
    lemma_blank_char(c, m);
    if i == m {
        lemma_blank_start(c, m, acc);
        assert(same_tokens(acc, acc));
        lemma_shift_scan(c, m, m, acc, acc);
    } else {
        lemma_scan_step_bounds(c, i);
        let tok = scan_step(c, i)->Tok_0;
        let t = scan_step(c, i)->Tok_1;
        lemma_reaches_bound(c, t, m);
        lemma_prefix_step(c, m, i);
        lemma_prefix_scan(c, m, t, acc.push(tok));
    }
}

/// Law: a blank inserted where scanning comes to rest between two tokens (or
/// at the start) changes nothing but positions: the source with the blank
/// scans to as many tokens, with the same kinds and lexemes, one by one.
pub proof fn law_blank_between_tokens(chars: Seq<char>, m: int, toks: Seq<SpecToken>)
    requires
        spec_tokenize(chars) == ScanOutcome::Tokens(toks),
        reaches(chars, 0, m),
    ensures
        spec_tokenize(insert_blank(chars, m)) matches ScanOutcome::Tokens(toks2) && same_tokens(
            toks,
            toks2,
        ),
{
    lemma_reaches_bound(chars, 0, m);
    lemma_prefix_scan(chars, m, 0, Seq::empty());
}

} // verus!
