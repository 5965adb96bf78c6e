//! Shell command lexer: argv tokenization, splitting at chain operators,
//! and quote-aware detection of pipes, redirects and substitutions.
//!
//! Handles single quotes (no escaping inside), double quotes (backslash
//! escapes inside), backslash escaping outside quotes, the chain operators
//! `&&`, `||`, `;`, `&` and newline, pipes `|`, output redirects `>`/`>>`,
//! command substitution `$(...)` and backticks (including inside double
//! quotes, where the shell still performs it), and process substitution
//! `<(...)` / `>(...)`. An unterminated quote is an error of `tokenize`.
use vstd::prelude::*;
use crate::text::{
    chars_of, contains_sub, find_from, occurs_at, occurs_at_exec, string_from, string_of, string_views, trim,
    trimmed_string,
};

verus! {

/// Operators that separate sub-commands in a shell command chain.
#[derive(Debug, Clone, PartialEq, Eq, Structural)]
pub enum Operator {
    /// First command (no preceding operator)
    First,
    /// `&&`
    And,
    /// `||`
    Or,
    /// `;`
    Semi,
    /// `&` (background)
    Background,
    /// newline
    Newline,
}

// ───────────────────────────── lexical specification ─────────────────────────────

/// Index `i + k`, or the end of `s` when that lies beyond it.
pub open spec fn adv(s: Seq<char>, i: int, k: int) -> int {
    if i + k <= s.len() { i + k } else { s.len() as int }
}

/// `s[i]` exists and equals `c`.
pub open spec fn at(s: Seq<char>, i: int, c: char) -> bool {
    0 <= i < s.len() && s[i] == c
}

/// End of a single-quoted run whose body starts at `i`: just past the
/// closing quote, or the end of input when there is none.
pub open spec fn sq_end(s: Seq<char>, i: int) -> int {
    let j = find_from(s, i, '\'');
    if j < s.len() { j + 1 } else { s.len() as int }
}

/// End of a run whose body starts at `i` and that closes at `q`, where a
/// backslash makes the next character part of the body.
pub open spec fn esc_end(s: Seq<char>, i: int, q: char) -> int
    decreases s.len() - i,
{
    if i < 0 || i >= s.len() {
        s.len() as int
    } else if s[i] == q {
        i + 1
    } else if s[i] == '\\' {
        esc_end(s, adv(s, i, 2), q)
    } else {
        esc_end(s, i + 1, q)
    }
}

/// End of a parenthesised block (`$(`, `<(`, `>(`) entered at `i` with
/// `d` open parentheses; quotes inside are skipped as units.
pub open spec fn paren_end(s: Seq<char>, i: int, d: nat) -> int
    decreases s.len() - i,
{
    if i < 0 || i >= s.len() || d == 0 {
        if i < 0 { 0 } else if i > s.len() { s.len() as int } else { i }
    } else if s[i] == '(' {
        paren_end(s, i + 1, d + 1)
    } else if s[i] == ')' {
        paren_end(s, i + 1, (d - 1) as nat)
    } else if s[i] == '\'' {
        proof {
            lemma_find_from_range(s, i + 1, '\'');
        }
        paren_end(s, sq_end(s, i + 1), d)
    } else if s[i] == '"' {
        proof {
            lemma_esc_end_range(s, i + 1, '"');
        }
        paren_end(s, esc_end(s, i + 1, '"'), d)
    } else {
        paren_end(s, i + 1, d)
    }
}

/// End of a parenthesised block counting parentheses only.
pub open spec fn paren_plain_end(s: Seq<char>, i: int, d: nat) -> int
    decreases s.len() - i,
{
    if i < 0 || i >= s.len() || d == 0 {
        if i < 0 { 0 } else if i > s.len() { s.len() as int } else { i }
    } else if s[i] == '(' {
        paren_plain_end(s, i + 1, d + 1)
    } else if s[i] == ')' {
        paren_plain_end(s, i + 1, (d - 1) as nat)
    } else {
        paren_plain_end(s, i + 1, d)
    }
}

/// `s[i]` opens a quoted or escaped unit: `'`, `"` or a backslash.
pub open spec fn is_quoting(c: char) -> bool {
    c == '\'' || c == '"' || c == '\\'
}

/// Index just past the quoted or escaped unit that starts at `i`.
pub open spec fn quote_skip(s: Seq<char>, i: int) -> int {
    if s[i] == '\'' {
        sq_end(s, i + 1)
    } else if s[i] == '"' {
        esc_end(s, i + 1, '"')
    } else {
        adv(s, i, 2)
    }
}

pub proof fn lemma_find_from_range(s: Seq<char>, i: int, c: char)
    requires
        0 <= i <= s.len(),
    ensures
        i <= sq_end(s, i) <= s.len(),
        i < s.len() ==> i < sq_end(s, i),
        i <= find_from(s, i, c) <= s.len(),
        find_from(s, i, c) < s.len() ==> s[find_from(s, i, c)] == c,
        forall|k: int| i <= k < find_from(s, i, c) ==> s[k] != c,
    decreases s.len() - i,
{
    if i < s.len() && s[i] != c {
        lemma_find_from_range(s, i + 1, c);
    }
    if i < s.len() && s[i] != '\'' {
        lemma_find_from_range(s, i + 1, '\'');
    }
}

pub proof fn lemma_esc_end_range(s: Seq<char>, i: int, q: char)
    requires
        0 <= i <= s.len(),
    ensures
        i <= esc_end(s, i, q) <= s.len(),
        i < s.len() ==> i < esc_end(s, i, q),
    decreases s.len() - i,
{
    if i < s.len() && s[i] != q {
        if s[i] == '\\' {
            lemma_esc_end_range(s, adv(s, i, 2), q);
        } else {
            lemma_esc_end_range(s, i + 1, q);
        }
    }
}

pub proof fn lemma_paren_end_range(s: Seq<char>, i: int, d: nat)
    requires
        0 <= i <= s.len(),
    ensures
        i <= paren_end(s, i, d) <= s.len(),
    decreases s.len() - i,
{
    if i < s.len() && d != 0 {
        if s[i] == '(' {
            lemma_paren_end_range(s, i + 1, d + 1);
        } else if s[i] == ')' {
            lemma_paren_end_range(s, i + 1, (d - 1) as nat);
        } else if s[i] == '\'' {
            lemma_find_from_range(s, i + 1, '\'');
            lemma_paren_end_range(s, sq_end(s, i + 1), d);
        } else if s[i] == '"' {
            lemma_esc_end_range(s, i + 1, '"');
            lemma_paren_end_range(s, esc_end(s, i + 1, '"'), d);
        } else {
            lemma_paren_end_range(s, i + 1, d);
        }
    }
}

pub proof fn lemma_paren_plain_end_range(s: Seq<char>, i: int, d: nat)
    requires
        0 <= i <= s.len(),
    ensures
        i <= paren_plain_end(s, i, d) <= s.len(),
    decreases s.len() - i,
{
    if i < s.len() && d != 0 {
        if s[i] == '(' {
            lemma_paren_plain_end_range(s, i + 1, d + 1);
        } else if s[i] == ')' {
            lemma_paren_plain_end_range(s, i + 1, (d - 1) as nat);
        } else {
            lemma_paren_plain_end_range(s, i + 1, d);
        }
    }
}

pub proof fn lemma_quote_skip_range(s: Seq<char>, i: int)
    requires
        0 <= i < s.len(),
    ensures
        i < quote_skip(s, i) <= s.len(),
{
    lemma_find_from_range(s, i + 1, '\'');
    lemma_esc_end_range(s, i + 1, '"');
}

// ───────────────────────────── detection predicates ─────────────────────────────

/// Scan for `p` outside quotes from index `i`.
pub open spec fn unquoted_from(s: Seq<char>, p: Seq<char>, i: int) -> bool
    decreases s.len() - i,
{
    if i < 0 || i >= s.len() {
        false
    } else if is_quoting(s[i]) {
        proof {
            lemma_quote_skip_range(s, i);
        }
        unquoted_from(s, p, quote_skip(s, i))
    } else if occurs_at(s, p, i) {
        true
    } else {
        unquoted_from(s, p, i + 1)
    }
}

/// `p` occurs in `s` outside quotes and escapes (an empty `p` always does).
pub open spec fn spec_has_unquoted(s: Seq<char>, p: Seq<char>) -> bool {
    p.len() == 0 || unquoted_from(s, p, 0)
}

/// Scan for a pipe from index `i`.
pub open spec fn pipe_from(s: Seq<char>, i: int) -> bool
    decreases s.len() - i,
{
    if i < 0 || i >= s.len() {
        false
    } else if is_quoting(s[i]) {
        proof {
            lemma_quote_skip_range(s, i);
        }
        pipe_from(s, quote_skip(s, i))
    } else if s[i] == '|' {
        if at(s, i + 1, '|') {
            pipe_from(s, i + 2)
        } else {
            true
        }
    } else {
        pipe_from(s, i + 1)
    }
}

/// The input holds an unquoted pipe: a `|` that is not half of `||`.
pub open spec fn spec_has_pipe(s: Seq<char>) -> bool {
    pipe_from(s, 0)
}

/// Scan for an output redirect from index `i`.
pub open spec fn redirect_from(s: Seq<char>, i: int) -> bool
    decreases s.len() - i,
{
    if i < 0 || i >= s.len() {
        false
    } else if is_quoting(s[i]) {
        proof {
            lemma_quote_skip_range(s, i);
        }
        redirect_from(s, quote_skip(s, i))
    } else if s[i] == '>' {
        if at(s, i + 1, '(') {
            proof {
                lemma_paren_plain_end_range(s, i + 2, 1);
            }
            redirect_from(s, paren_plain_end(s, i + 2, 1))
        } else {
            true
        }
    } else {
        redirect_from(s, i + 1)
    }
}

/// The input holds an unquoted output redirect (`>` or `>>`, not `>(`).
pub open spec fn spec_has_redirect(s: Seq<char>) -> bool {
    redirect_from(s, 0)
}

/// Scan, from index `i`, for command substitution the shell performs:
/// outside quotes and also inside double quotes, where `$(` and backticks
/// still expand. Single quotes and backslash escapes keep them literal.
/// `in_dq` tells whether the scan is inside double quotes.
pub open spec fn cmdsub_from(s: Seq<char>, i: int, in_dq: bool) -> bool
    decreases s.len() - i,
{
    if i < 0 || i >= s.len() {
        false
    } else if !in_dq && s[i] == '\'' {
        proof {
            lemma_find_from_range(s, i + 1, '\'');
        }
        cmdsub_from(s, sq_end(s, i + 1), in_dq)
    } else if s[i] == '\\' {
        cmdsub_from(s, adv(s, i, 2), in_dq)
    } else if s[i] == '"' {
        cmdsub_from(s, i + 1, !in_dq)
    } else if s[i] == '$' && at(s, i + 1, '(') {
        true
    } else if s[i] == '`' {
        true
    } else {
        cmdsub_from(s, i + 1, in_dq)
    }
}

/// The input holds command substitution (`$(` or a backtick) that the
/// shell performs: unquoted, or inside double quotes. Inside single quotes
/// and after a backslash it is literal.
pub open spec fn spec_has_command_substitution(s: Seq<char>) -> bool {
    cmdsub_from(s, 0, false)
}

/// Scan for process substitution from index `i`.
pub open spec fn procsub_from(s: Seq<char>, i: int) -> bool
    decreases s.len() - i,
{
    if i < 0 || i >= s.len() {
        false
    } else if is_quoting(s[i]) {
        proof {
            lemma_quote_skip_range(s, i);
        }
        procsub_from(s, quote_skip(s, i))
    } else if (s[i] == '<' || s[i] == '>') && at(s, i + 1, '(') {
        true
    } else {
        procsub_from(s, i + 1)
    }
}

/// The input holds unquoted process substitution (`<(` or `>(`).
pub open spec fn spec_has_process_substitution(s: Seq<char>) -> bool {
    procsub_from(s, 0)
}

// ───────────────────────────── tokenizer specification ─────────────────────────────

/// Body of a single-quoted run starting at `i` and the index past its
/// closing quote, or `None` when the quote is never closed.
pub open spec fn sq_body(s: Seq<char>, i: int) -> Option<(Seq<char>, int)> {
    let j = find_from(s, i, '\'');
    if j < s.len() {
        Some((s.subrange(i, j), j + 1))
    } else {
        None
    }
}

/// Characters that a backslash escapes inside double quotes.
pub open spec fn dq_escapable(c: char) -> bool {
    c == '\\' || c == '"' || c == '$' || c == '`' || c == '\n'
}

/// Body of a double-quoted run from `i` (appended to `acc`) and the index
/// past its closing quote, or `None` when the quote is never closed.
pub open spec fn dq_body(s: Seq<char>, i: int, acc: Seq<char>) -> Option<(Seq<char>, int)>
    decreases s.len() - i,
{
    if i < 0 || i >= s.len() {
        None
    } else if s[i] == '"' {
        Some((acc, i + 1))
    } else if s[i] == '\\' && i + 1 < s.len() {
        if dq_escapable(s[i + 1]) {
            dq_body(s, i + 2, acc.push(s[i + 1]))
        } else {
            dq_body(s, i + 1, acc.push('\\'))
        }
    } else {
        dq_body(s, i + 1, acc.push(s[i]))
    }
}

/// Tokens after ending the current token, if one is open.
pub open spec fn flushed(toks: Seq<Seq<char>>, cur: Seq<char>, open: bool) -> Seq<Seq<char>> {
    if open { toks.push(cur) } else { toks }
}

/// Current token after ending it.
pub open spec fn flushed_cur(cur: Seq<char>, open: bool) -> Seq<char> {
    if open { Seq::empty() } else { cur }
}

/// Tokenizer run from index `i` with tokens `toks` so far, current token
/// `cur`, and `open` telling whether a token is in progress. `Err(q)` is an
/// unterminated quote `q`.
pub open spec fn tok_from(s: Seq<char>, i: int, toks: Seq<Seq<char>>, cur: Seq<char>, open: bool)
    -> Result<Seq<Seq<char>>, char>
    decreases s.len() - i,
{
    if i < 0 || i >= s.len() {
        Ok(flushed(toks, cur, open))
    } else {
        let c = s[i];
        let ft = flushed(toks, cur, open);
        let fc = flushed_cur(cur, open);
        if c == '\'' {
            proof {
                lemma_find_from_range(s, i + 1, '\'');
            }
            match sq_body(s, i + 1) {
                None => Err('\''),
                Some((body, j)) => tok_from(s, j, toks, cur + body, true),
            }
        } else if c == '"' {
            proof {
                lemma_dq_body_range(s, i + 1, cur);
            }
            match dq_body(s, i + 1, cur) {
                None => Err('"'),
                Some((body, j)) => tok_from(s, j, toks, body, true),
            }
        } else if c == '\\' {
            if i + 1 < s.len() {
                tok_from(s, i + 2, toks, cur.push(s[i + 1]), true)
            } else {
                tok_from(s, i + 1, toks, cur.push('\\'), true)
            }
        } else if c == ' ' || c == '\t' || c == '\n' || c == ';' {
            tok_from(s, i + 1, ft, fc, false)
        } else if c == '&' || c == '|' {
            if at(s, i + 1, c) {
                tok_from(s, i + 2, ft, fc, false)
            } else {
                tok_from(s, i + 1, ft, fc, false)
            }
        } else if c == '>' {
            if at(s, i + 1, '(') {
                proof {
                    lemma_paren_end_range(s, i + 2, 1);
                }
                tok_from(s, paren_end(s, i + 2, 1), ft, fc, false)
            } else if at(s, i + 1, '>') {
                tok_from(s, i + 2, ft, fc, false)
            } else {
                tok_from(s, i + 1, ft, fc, false)
            }
        } else if c == '<' {
            if at(s, i + 1, '(') {
                proof {
                    lemma_paren_end_range(s, i + 2, 1);
                }
                tok_from(s, paren_end(s, i + 2, 1), ft, fc, false)
            } else {
                tok_from(s, i + 1, ft, fc, false)
            }
        } else if c == '$' && at(s, i + 1, '(') {
            proof {
                lemma_paren_end_range(s, i + 2, 1);
            }
            tok_from(s, paren_end(s, i + 2, 1), ft, fc, false)
        } else if c == '`' {
            proof {
                lemma_esc_end_range(s, i + 1, '`');
            }
            tok_from(s, esc_end(s, i + 1, '`'), ft, fc, false)
        } else {
            tok_from(s, i + 1, toks, cur.push(c), true)
        }
    }
}

/// The argv tokens of `s`, or the unterminated quote character.
pub open spec fn spec_tokenize(s: Seq<char>) -> Result<Seq<Seq<char>>, char> {
    tok_from(s, 0, Seq::empty(), Seq::empty(), false)
}

/// Error message for an unterminated quote `q`.
pub open spec fn unterminated_message(q: char) -> Seq<char> {
    if q == '\'' {
        "Unterminated single quote"@
    } else {
        "Unterminated double quote"@
    }
}

pub proof fn lemma_dq_body_range(s: Seq<char>, i: int, acc: Seq<char>)
    requires
        0 <= i <= s.len(),
    ensures
        dq_body(s, i, acc) matches Some((b, j)) ==> i < j <= s.len(),
    decreases s.len() - i,
{
    if 0 <= i < s.len() && s[i] != '"' {
        if s[i] == '\\' && i + 1 < s.len() {
            if dq_escapable(s[i + 1]) {
                lemma_dq_body_range(s, i + 2, acc.push(s[i + 1]));
            } else {
                lemma_dq_body_range(s, i + 1, acc.push('\\'));
            }
        } else {
            lemma_dq_body_range(s, i + 1, acc.push(s[i]));
        }
    }
}

// ───────────────────────────── splitter specification ─────────────────────────────

/// Commands so far plus the segment `seg` under operator `op`, when the
/// segment is not empty.
pub open spec fn with_segment(res: Seq<(Operator, Seq<char>)>, seg: Seq<char>, op: Operator)
    -> Seq<(Operator, Seq<char>)> {
    if seg.len() == 0 { res } else { res.push((op, seg)) }
}

/// Splitter run from index `i`; the current segment starts at `start` and
/// is preceded by operator `op`.
pub open spec fn split_from(
    s: Seq<char>,
    i: int,
    res: Seq<(Operator, Seq<char>)>,
    start: int,
    op: Operator,
) -> Seq<(Operator, Seq<char>)>
    decreases s.len() - i,
{
    if i < 0 || i >= s.len() {
        with_segment(res, trim(s.subrange(start, s.len() as int)), op)
    } else {
        let c = s[i];
        let res2 = with_segment(res, trim(s.subrange(start, i)), op);
        if is_quoting(c) {
            proof {
                lemma_quote_skip_range(s, i);
            }
            split_from(s, quote_skip(s, i), res, start, op)
        } else if (c == '$' || c == '<' || c == '>') && at(s, i + 1, '(') {
            proof {
                lemma_paren_end_range(s, i + 2, 1);
            }
            split_from(s, paren_end(s, i + 2, 1), res, start, op)
        } else if c == '`' {
            proof {
                lemma_esc_end_range(s, i + 1, '`');
            }
            split_from(s, esc_end(s, i + 1, '`'), res, start, op)
        } else if c == '&' {
            if at(s, i + 1, '&') {
                split_from(s, i + 2, res2, i + 2, Operator::And)
            } else {
                split_from(s, i + 1, res2, i + 1, Operator::Background)
            }
        } else if c == '|' && at(s, i + 1, '|') {
            split_from(s, i + 2, res2, i + 2, Operator::Or)
        } else if c == ';' {
            split_from(s, i + 1, res2, i + 1, Operator::Semi)
        } else if c == '\n' {
            split_from(s, i + 1, res2, i + 1, Operator::Newline)
        } else {
            split_from(s, i + 1, res, start, op)
        }
    }
}

/// The sub-commands of `s`, each trimmed and paired with the operator
/// that precedes it; empty segments are dropped.
pub open spec fn spec_split_commands(s: Seq<char>) -> Seq<(Operator, Seq<char>)> {
    split_from(s, 0, Seq::empty(), 0, Operator::First)
}

/// View of a split result.
pub open spec fn split_view(v: Seq<(Operator, String)>) -> Seq<(Operator, Seq<char>)> {
    v.map_values(|p: (Operator, String)| (p.0, p.1@))
}

// ───────────────────────────── executable scanners ─────────────────────────────

/// Index past a single-quoted run whose body starts at `i`.
fn skip_single(v: &Vec<char>, i: usize) -> (r: usize)
    requires
        i <= v.len(),
    ensures
        r == sq_end(v@, i as int),
{
    let mut j = i;
    while j < v.len() && v[j] != '\''
        invariant
            i <= j <= v.len(),
            find_from(v@, j as int, '\'') == find_from(v@, i as int, '\''),
        decreases v.len() - j,
    {
        j += 1;
    }
    if j < v.len() {
        j + 1
    } else {
        j
    }
}

/// Index past a run closing at `q` with backslash escapes, body from `i`.
fn skip_escaped(v: &Vec<char>, i: usize, q: char) -> (r: usize)
    requires
        i <= v.len(),
    ensures
        r == esc_end(v@, i as int, q),
{
    let mut j = i;
    while j < v.len() && v[j] != q
        invariant
            i <= j <= v.len(),
            esc_end(v@, j as int, q) == esc_end(v@, i as int, q),
        decreases v.len() - j,
    {
        if v[j] == '\\' {
            j = if v.len() - j >= 2 { j + 2 } else { v.len() };
        } else {
            j += 1;
        }
    }
    if j < v.len() {
        j + 1
    } else {
        j
    }
}

/// Index past a parenthesised block entered at `i` with one open paren.
fn skip_parens(v: &Vec<char>, i: usize) -> (r: usize)
    requires
        1 <= i <= v.len(),
    ensures
        r == paren_end(v@, i as int, 1),
{
    let mut j = i;
    let mut d: usize = 1;
    while j < v.len() && d > 0
        invariant
            1 <= i <= j <= v.len(),
            d <= j - i + 1,
            paren_end(v@, j as int, d as nat) == paren_end(v@, i as int, 1),
        decreases v.len() - j,
    {
        let c = v[j];
        if c == '(' {
            d += 1;
            j += 1;
        } else if c == ')' {
            d -= 1;
            j += 1;
        } else if c == '\'' {
            proof {
                lemma_find_from_range(v@, j + 1, '\'');
            }
            j = skip_single(v, j + 1);
        } else if c == '"' {
            proof {
                lemma_esc_end_range(v@, j + 1, '"');
            }
            j = skip_escaped(v, j + 1, '"');
        } else {
            j += 1;
        }
    }
    j
}

/// Index past a block entered at `i`, counting parentheses only.
fn skip_parens_plain(v: &Vec<char>, i: usize) -> (r: usize)
    requires
        1 <= i <= v.len(),
    ensures
        r == paren_plain_end(v@, i as int, 1),
{
    let mut j = i;
    let mut d: usize = 1;
    while j < v.len() && d > 0
        invariant
            1 <= i <= j <= v.len(),
            d <= j - i + 1,
            paren_plain_end(v@, j as int, d as nat) == paren_plain_end(v@, i as int, 1),
        decreases v.len() - j,
    {
        let c = v[j];
        if c == '(' {
            d += 1;
        } else if c == ')' {
            d -= 1;
        }
        j += 1;
    }
    j
}

/// Index past the quoted or escaped unit at `i`.
fn skip_quoting(v: &Vec<char>, i: usize) -> (r: usize)
    requires
        i < v.len(),
        is_quoting(v@[i as int]),
    ensures
        r == quote_skip(v@, i as int),
        i < r <= v.len(),
{
    proof {
        lemma_quote_skip_range(v@, i as int);
    }
    if v[i] == '\'' {
        skip_single(v, i + 1)
    } else if v[i] == '"' {
        skip_escaped(v, i + 1, '"')
    } else if v.len() - i >= 2 {
        i + 2
    } else {
        v.len()
    }
}

fn is_quoting_char(c: char) -> (r: bool)
    ensures
        r == is_quoting(c),
{
    c == '\'' || c == '"' || c == '\\'
}

/// Whether `v[i]` exists and equals `c`.
fn at_exec(v: &Vec<char>, i: usize, c: char) -> (r: bool)
    ensures
        r == at(v@, i as int, c),
{
    i < v.len() && v[i] == c
}

// ───────────────────────────── public API ─────────────────────────────

/// Returns `true` if `pattern` appears unquoted in `input`.
///
/// This is a character-level scan that respects single/double quotes and
/// backslash escaping.
pub fn has_unquoted(input: &str, pattern: &str) -> (r: bool)
    ensures
        r == spec_has_unquoted(input@, pattern@),
{
    let v = chars_of(input);
    let p = chars_of(pattern);
    if p.len() == 0 {
        return true;
    }
    let mut i: usize = 0;
    while i < v.len()
        invariant
            v@ == input@,
            p@ == pattern@,
            p.len() > 0,
            i <= v.len(),
            unquoted_from(v@, p@, i as int) == unquoted_from(v@, p@, 0),
        decreases v.len() - i,
    {
        if is_quoting_char(v[i]) {
            i = skip_quoting(&v, i);
        } else {
            if occurs_at_exec(&v, &p, i) {
                return true;
            }
            i += 1;
        }
    }
    false
}

/// Returns `true` if the input contains an unquoted pipe (`|` not part of `||`).
pub fn has_pipe(input: &str) -> (r: bool)
    ensures
        r == spec_has_pipe(input@),
{
    let v = chars_of(input);
    let mut i: usize = 0;
    while i < v.len()
        invariant
            v@ == input@,
            i <= v.len(),
            pipe_from(v@, i as int) == pipe_from(v@, 0),
        decreases v.len() - i,
    {
        if is_quoting_char(v[i]) {
            i = skip_quoting(&v, i);
        } else if v[i] == '|' {
            if at_exec(&v, i + 1, '|') {
                i += 2;
            } else {
                return true;
            }
        } else {
            i += 1;
        }
    }
    false
}

/// Returns `true` if the input contains an unquoted output redirect (`>` or `>>`).
pub fn has_redirect(input: &str) -> (r: bool)
    ensures
        r == spec_has_redirect(input@),
{
    let v = chars_of(input);
    let mut i: usize = 0;
    while i < v.len()
        invariant
            v@ == input@,
            i <= v.len(),
            redirect_from(v@, i as int) == redirect_from(v@, 0),
        decreases v.len() - i,
    {
        if is_quoting_char(v[i]) {
            i = skip_quoting(&v, i);
        } else if v[i] == '>' {
            if at_exec(&v, i + 1, '(') {
                proof {
                    lemma_paren_plain_end_range(v@, i + 2, 1);
                }
                i = skip_parens_plain(&v, i + 2);
            } else {
                return true;
            }
        } else {
            i += 1;
        }
    }
    false
}

/// Returns `true` if the input holds command substitution (`$(...)` or
/// backticks) that the shell performs: unquoted, or inside double quotes.
pub fn has_command_substitution(input: &str) -> (r: bool)
    ensures
        r == spec_has_command_substitution(input@),
{
    let v = chars_of(input);
    let mut i: usize = 0;
    let mut in_dq = false;
    while i < v.len()
        invariant
            v@ == input@,
            i <= v.len(),
            cmdsub_from(v@, i as int, in_dq) == cmdsub_from(v@, 0, false),
        decreases v.len() - i,
    {
        if !in_dq && v[i] == '\'' {
            proof {
                lemma_find_from_range(v@, i + 1, '\'');
            }
            i = skip_single(&v, i + 1);
        } else if v[i] == '\\' {
            i = if v.len() - i >= 2 { i + 2 } else { v.len() };
        } else if v[i] == '"' {
            in_dq = !in_dq;
            i += 1;
        } else if v[i] == '$' && at_exec(&v, i + 1, '(') {
            return true;
        } else if v[i] == '`' {
            return true;
        } else {
            i += 1;
        }
    }
    false
}

/// Returns `true` if the input contains unquoted process substitution
/// (`<(...)` or `>(...)`).
pub fn has_process_substitution(input: &str) -> (r: bool)
    ensures
        r == spec_has_process_substitution(input@),
{
    let v = chars_of(input);
    let mut i: usize = 0;
    while i < v.len()
        invariant
            v@ == input@,
            i <= v.len(),
            procsub_from(v@, i as int) == procsub_from(v@, 0),
        decreases v.len() - i,
    {
        if is_quoting_char(v[i]) {
            i = skip_quoting(&v, i);
        } else if (v[i] == '<' || v[i] == '>') && at_exec(&v, i + 1, '(') {
            return true;
        } else {
            i += 1;
        }
    }
    false
}

/// Views of a sequence of character vectors.
pub open spec fn vec_views(v: Seq<Vec<char>>) -> Seq<Seq<char>> {
    v.map_values(|t: Vec<char>| t@)
}

/// Ends the current token, if one is open.
fn flush(toks: &mut Vec<Vec<char>>, cur: &mut Vec<char>, open: &mut bool)
    ensures
        vec_views(final(toks)@) == flushed(vec_views(old(toks)@), old(cur)@, *old(open)),
        final(cur)@ == flushed_cur(old(cur)@, *old(open)),
        *final(open) == false,
{
    if *open {
        let mut done: Vec<char> = Vec::new();
        std::mem::swap(cur, &mut done);
        let ghost before = toks@;
        toks.push(done);
        assert(vec_views(toks@) =~= vec_views(before).push(done@));
        *open = false;
    }
}

/// Appends the body of a single-quoted run starting at `i` to `cur`;
/// returns the index past the closing quote, or `None` if there is none.
fn scan_single(v: &Vec<char>, i: usize, cur: &mut Vec<char>) -> (r: Option<usize>)
    requires
        i <= v.len(),
    ensures
        match sq_body(v@, i as int) {
            None => r is None,
            Some((b, j)) => r == Some(j as usize) && final(cur)@ == old(cur)@ + b,
        },
{
    let ghost c0 = cur@;
    let mut j = i;
    while j < v.len() && v[j] != '\''
        invariant
            i <= j <= v.len(),
            find_from(v@, j as int, '\'') == find_from(v@, i as int, '\''),
            cur@ == c0 + v@.subrange(i as int, j as int),
        decreases v.len() - j,
    {
        cur.push(v[j]);
        assert(v@.subrange(i as int, j + 1) == v@.subrange(i as int, j as int).push(v@[j as int]));
        j += 1;
    }
    if j < v.len() {
        Some(j + 1)
    } else {
        None
    }
}

/// Appends the body of a double-quoted run starting at `i` to `cur`;
/// returns the index past the closing quote, or `None` if there is none.
fn scan_double(v: &Vec<char>, i: usize, cur: &mut Vec<char>) -> (r: Option<usize>)
    requires
        i <= v.len(),
    ensures
        match dq_body(v@, i as int, old(cur)@) {
            None => r is None,
            Some((b, j)) => r == Some(j as usize) && final(cur)@ == b,
        },
{
    let ghost c0 = cur@;
    let mut j = i;
    while j < v.len()
        invariant
            i <= j <= v.len(),
            dq_body(v@, j as int, cur@) == dq_body(v@, i as int, c0),
            c0 == old(cur)@,
        decreases v.len() - j,
    {
        let c = v[j];
        if c == '"' {
            assert(dq_body(v@, j as int, cur@) == Some((cur@, j + 1)));
            return Some(j + 1);
        } else if c == '\\' && j + 1 < v.len() {
            let n = v[j + 1];
            if n == '\\' || n == '"' || n == '$' || n == '`' || n == '\n' {
                cur.push(n);
                j += 2;
            } else {
                cur.push('\\');
                j += 1;
            }
        } else {
            cur.push(c);
            j += 1;
        }
    }
    None
}

/// Tokenize a shell command string into argv tokens.
///
/// Returns `Err` if the input contains an unterminated quote. Operators
/// (`&&`, `||`, `;`, `&`, `|`, `>`, `>>`, newlines) are not included as
/// tokens: they act only as delimiters, and substitutions are skipped.
pub fn tokenize(input: &str) -> (r: Result<Vec<String>, String>)
    ensures
        match spec_tokenize(input@) {
            Ok(ts) => r is Ok && string_views(r->Ok_0@) == ts,
            Err(q) => r is Err && r->Err_0@ == unterminated_message(q),
        },
{
    let v = chars_of(input);
    let mut toks: Vec<Vec<char>> = Vec::new();
    let mut cur: Vec<char> = Vec::new();
    let mut open = false;
    let mut i: usize = 0;
    assert(vec_views(toks@) =~= Seq::<Seq<char>>::empty());
    while i < v.len()
        invariant
            v@ == input@,
            i <= v.len(),
            tok_from(v@, i as int, vec_views(toks@), cur@, open) == spec_tokenize(v@),
        decreases v.len() - i,
    {
        let c = v[i];
        if c == '\'' {
            match scan_single(&v, i + 1, &mut cur) {
                None => {
                    return Err(string_from("Unterminated single quote"));
                },
                Some(j) => {
                    proof {
                        lemma_find_from_range(v@, i + 1, '\'');
                    }
                    open = true;
                    i = j;
                },
            }
        } else if c == '"' {
            proof {
                lemma_dq_body_range(v@, i + 1, cur@);
            }
            match scan_double(&v, i + 1, &mut cur) {
                None => {
                    return Err(string_from("Unterminated double quote"));
                },
                Some(j) => {
                    open = true;
                    i = j;
                },
            }
        } else if c == '\\' {
            if i + 1 < v.len() {
                cur.push(v[i + 1]);
                i += 2;
            } else {
                cur.push('\\');
                i += 1;
            }
            open = true;
        } else if c == ' ' || c == '\t' || c == '\n' || c == ';' {
            flush(&mut toks, &mut cur, &mut open);
            i += 1;
        } else if c == '&' || c == '|' {
            flush(&mut toks, &mut cur, &mut open);
            if at_exec(&v, i + 1, c) {
                i += 2;
            } else {
                i += 1;
            }
        } else if c == '>' {
            flush(&mut toks, &mut cur, &mut open);
            if at_exec(&v, i + 1, '(') {
                proof {
                    lemma_paren_end_range(v@, i + 2, 1);
                }
                i = skip_parens(&v, i + 2);
            } else if at_exec(&v, i + 1, '>') {
                i += 2;
            } else {
                i += 1;
            }
        } else if c == '<' {
            flush(&mut toks, &mut cur, &mut open);
            if at_exec(&v, i + 1, '(') {
                proof {
                    lemma_paren_end_range(v@, i + 2, 1);
                }
                i = skip_parens(&v, i + 2);
            } else {
                i += 1;
            }
        } else if c == '$' && at_exec(&v, i + 1, '(') {
            flush(&mut toks, &mut cur, &mut open);
            proof {
                lemma_paren_end_range(v@, i + 2, 1);
            }
            i = skip_parens(&v, i + 2);
        } else if c == '`' {
            flush(&mut toks, &mut cur, &mut open);
            proof {
                lemma_esc_end_range(v@, i + 1, '`');
            }
            i = skip_escaped(&v, i + 1, '`');
        } else {
            cur.push(c);
            open = true;
            i += 1;
        }
    }
    flush(&mut toks, &mut cur, &mut open);
    let mut out: Vec<String> = Vec::new();
    let mut k: usize = 0;
    while k < toks.len()
        invariant
            k <= toks.len(),
            string_views(out@) == vec_views(toks@).take(k as int),
        decreases toks.len() - k,
    {
        let t = string_of(&toks[k]);
        let ghost before = out@;
        out.push(t);
        assert(string_views(out@) =~= string_views(before).push(t@));
        assert(vec_views(toks@).take(k + 1) =~= vec_views(toks@).take(k as int).push(toks@[k as int]@));
        k += 1;
    }
    assert(vec_views(toks@).take(toks.len() as int) =~= vec_views(toks@));
    Ok(out)
}

/// Appends `(op, trim(v[lo..hi]))` to the result when the trimmed segment is
/// not empty.
fn push_segment(res: &mut Vec<(Operator, String)>, v: &Vec<char>, lo: usize, hi: usize, op: Operator)
    requires
        lo <= hi <= v.len(),
    ensures
        split_view(final(res)@) == with_segment(split_view(old(res)@), trim(v@.subrange(lo as int, hi as int)), op),
{
    let t = trimmed_string(v, lo, hi);
    if !t.as_str().is_empty() {
        let ghost before = res@;
        let ghost tv = t@;
        res.push((op, t));
        assert(split_view(res@) =~= split_view(before).push((op, tv)));
    }
}

/// Split a shell command string into sub-commands at unquoted `&&`, `||`,
/// `;`, `&`, and newline.
///
/// Returns a list of `(Operator, raw_substring)` pairs; the `Operator`
/// describes what preceded the sub-command.
pub fn split_commands(input: &str) -> (r: Vec<(Operator, String)>)
    ensures
        split_view(r@) == spec_split_commands(input@),
{
    let v = chars_of(input);
    let mut res: Vec<(Operator, String)> = Vec::new();
    let mut i: usize = 0;
    let mut start: usize = 0;
    let mut op = Operator::First;
    assert(split_view(res@) =~= Seq::<(Operator, Seq<char>)>::empty());
    while i < v.len()
        invariant
            v@ == input@,
            start <= i <= v.len(),
            split_from(v@, i as int, split_view(res@), start as int, op) == spec_split_commands(v@),
        decreases v.len() - i,
    {
        let c = v[i];
        if is_quoting_char(c) {
            i = skip_quoting(&v, i);
        } else if (c == '$' || c == '<' || c == '>') && at_exec(&v, i + 1, '(') {
            proof {
                lemma_paren_end_range(v@, i + 2, 1);
            }
            i = skip_parens(&v, i + 2);
        } else if c == '`' {
            proof {
                lemma_esc_end_range(v@, i + 1, '`');
            }
            i = skip_escaped(&v, i + 1, '`');
        } else if c == '&' {
            push_segment(&mut res, &v, start, i, op);
            if at_exec(&v, i + 1, '&') {
                op = Operator::And;
                i += 2;
            } else {
                op = Operator::Background;
                i += 1;
            }
            start = i;
        } else if c == '|' && at_exec(&v, i + 1, '|') {
            push_segment(&mut res, &v, start, i, op);
            op = Operator::Or;
            i += 2;
            start = i;
        } else if c == ';' {
            push_segment(&mut res, &v, start, i, op);
            op = Operator::Semi;
            i += 1;
            start = i;
        } else if c == '\n' {
            push_segment(&mut res, &v, start, i, op);
            op = Operator::Newline;
            i += 1;
            start = i;
        } else {
            i += 1;
        }
    }
    push_segment(&mut res, &v, start, v.len(), op);
    res
}

// ───────────────────────────── laws ─────────────────────────────

proof fn lemma_unquoted_from_occurs(s: Seq<char>, p: Seq<char>, i: int)
    requires
        0 <= i,
    ensures
        unquoted_from(s, p, i) ==> exists|j: int| i <= j && occurs_at(s, p, j),
    decreases s.len() - i,
{
    if i < s.len() {
        if is_quoting(s[i]) {
            lemma_quote_skip_range(s, i);
            lemma_unquoted_from_occurs(s, p, quote_skip(s, i));
        } else if !occurs_at(s, p, i) {
            lemma_unquoted_from_occurs(s, p, i + 1);
        }
    }
}

proof fn lemma_plain_unquoted_from(s: Seq<char>, p: Seq<char>, i: int)
    requires
        0 <= i,
        p.len() > 0,
        forall|k: int| 0 <= k < s.len() ==> !is_quoting(#[trigger] s[k]),
    ensures
        unquoted_from(s, p, i) <== exists|j: int| i <= j && occurs_at(s, p, j),
    decreases s.len() - i,
{
    if i < s.len() && !occurs_at(s, p, i) {
        lemma_plain_unquoted_from(s, p, i + 1);
        if exists|j: int| i <= j && occurs_at(s, p, j) {
            let j = choose|j: int| i <= j && occurs_at(s, p, j);
            assert(i + 1 <= j);
        }
    }
}

/// `has_unquoted` only finds occurrences that are really there, and on
/// input without quotes or backslashes it finds every one: there it is
/// plain containment.
pub proof fn lemma_unquoted_is_containment(s: Seq<char>, p: Seq<char>)
    ensures
        spec_has_unquoted(s, p) ==> contains_sub(s, p),
        (forall|k: int| 0 <= k < s.len() ==> !is_quoting(#[trigger] s[k])) ==> (spec_has_unquoted(s, p)
            == contains_sub(s, p)),
{
    if p.len() == 0 {
        assert(s.subrange(0, 0) =~= p);
        assert(occurs_at(s, p, 0));
    } else {
        lemma_unquoted_from_occurs(s, p, 0);
        if forall|k: int| 0 <= k < s.len() ==> !is_quoting(#[trigger] s[k]) {
            lemma_plain_unquoted_from(s, p, 0);
            if contains_sub(s, p) {
                let j = choose|j: int| occurs_at(s, p, j);
                assert(0 <= j && occurs_at(s, p, j));
            }
        }
    }
}

proof fn lemma_tok_from_ok(s: Seq<char>, i: int, toks: Seq<Seq<char>>, cur: Seq<char>, open: bool)
    requires
        0 <= i,
        forall|k: int| 0 <= k < s.len() ==> #[trigger] s[k] != '\'' && s[k] != '"',
    ensures
        tok_from(s, i, toks, cur, open) is Ok,
    decreases s.len() - i,
{
    if i < s.len() {
        let c = s[i];
        let ft = flushed(toks, cur, open);
        let fc = flushed_cur(cur, open);
        if c == '\\' {
            if i + 1 < s.len() {
                lemma_tok_from_ok(s, i + 2, toks, cur.push(s[i + 1]), true);
            } else {
                lemma_tok_from_ok(s, i + 1, toks, cur.push('\\'), true);
            }
        } else if c == ' ' || c == '\t' || c == '\n' || c == ';' {
            lemma_tok_from_ok(s, i + 1, ft, fc, false);
        } else if c == '&' || c == '|' {
            if at(s, i + 1, c) {
                lemma_tok_from_ok(s, i + 2, ft, fc, false);
            } else {
                lemma_tok_from_ok(s, i + 1, ft, fc, false);
            }
        } else if c == '>' {
            if at(s, i + 1, '(') {
                lemma_paren_end_range(s, i + 2, 1);
                lemma_tok_from_ok(s, paren_end(s, i + 2, 1), ft, fc, false);
            } else if at(s, i + 1, '>') {
                lemma_tok_from_ok(s, i + 2, ft, fc, false);
            } else {
                lemma_tok_from_ok(s, i + 1, ft, fc, false);
            }
        } else if c == '<' {
            if at(s, i + 1, '(') {
                lemma_paren_end_range(s, i + 2, 1);
                lemma_tok_from_ok(s, paren_end(s, i + 2, 1), ft, fc, false);
            } else {
                lemma_tok_from_ok(s, i + 1, ft, fc, false);
            }
        } else if c == '$' && at(s, i + 1, '(') {
            lemma_paren_end_range(s, i + 2, 1);
            lemma_tok_from_ok(s, paren_end(s, i + 2, 1), ft, fc, false);
        } else if c == '`' {
            lemma_esc_end_range(s, i + 1, '`');
            lemma_tok_from_ok(s, esc_end(s, i + 1, '`'), ft, fc, false);
        } else {
            lemma_tok_from_ok(s, i + 1, toks, cur.push(c), true);
        }
    }
}

/// Only an unterminated quote stops the tokenizer: input without quote
/// characters always tokenizes.
pub proof fn lemma_quote_free_tokenizes(s: Seq<char>)
    requires
        forall|k: int| 0 <= k < s.len() ==> #[trigger] s[k] != '\'' && s[k] != '"',
    ensures
        spec_tokenize(s) is Ok,
{
    lemma_tok_from_ok(s, 0, Seq::empty(), Seq::empty(), false);
}

/// A word character: an ASCII letter or digit, `.`, `/`, `_` or `-`.
pub open spec fn word_char(c: char) -> bool {
    let u = c as u32;
    ||| 0x61 <= u <= 0x7a
    ||| 0x41 <= u <= 0x5a
    ||| 0x30 <= u <= 0x39
    ||| c == '.'
    ||| c == '/'
    ||| c == '_'
    ||| c == '-'
}

/// A space or a tab.
pub open spec fn is_blank(c: char) -> bool {
    c == ' ' || c == '\t'
}

/// `s` split at runs of spaces and tabs into its words, as
/// `str::split_whitespace` splits text made of words, spaces and tabs.
pub open spec fn split_blanks(s: Seq<char>) -> Seq<Seq<char>>
    decreases s.len(),
{
    if s.len() == 0 {
        seq![]
    } else {
        let rest = split_blanks(s.drop_first());
        if is_blank(s[0]) {
            rest
        } else if s.len() > 1 && !is_blank(s[1]) && rest.len() > 0 {
            seq![seq![s[0]] + rest[0]] + rest.drop_first()
        } else {
            seq![seq![s[0]]] + rest
        }
    }
}

/// The words of `s[i..]` with the unfinished word `cur` in front.
pub open spec fn words_after(s: Seq<char>, i: int, cur: Seq<char>) -> Seq<Seq<char>> {
    let w = split_blanks(s.subrange(i, s.len() as int));
    if cur.len() == 0 {
        w
    } else if i < s.len() && !is_blank(s[i]) && w.len() > 0 {
        seq![cur + w[0]] + w.drop_first()
    } else {
        seq![cur] + w
    }
}

proof fn lemma_split_blanks_nonempty(s: Seq<char>)
    requires
        s.len() > 0,
        !is_blank(s[0]),
    ensures
        split_blanks(s).len() > 0,
{
    let rest = split_blanks(s.drop_first());
}

proof fn lemma_tok_from_split(s: Seq<char>, i: int, toks: Seq<Seq<char>>, cur: Seq<char>, open: bool)
    requires
        0 <= i <= s.len(),
        forall|k: int| 0 <= k < s.len() ==> word_char(#[trigger] s[k]) || is_blank(s[k]),
        open <==> cur.len() > 0,
    ensures
        tok_from(s, i, toks, cur, open) == Ok::<Seq<Seq<char>>, char>(toks + words_after(s, i, cur)),
    decreases s.len() - i,
{
    let t = s.subrange(i, s.len() as int);
    if i >= s.len() {
        assert(t.len() == 0);
        if cur.len() > 0 {
            assert(toks.push(cur) =~= toks + seq![cur]);
        } else {
            assert(toks + Seq::<Seq<char>>::empty() =~= toks);
        }
    } else {
        let c = s[i];
        assert(word_char(c) || is_blank(c));
        assert(t.drop_first() =~= s.subrange(i + 1, s.len() as int));
        assert(t[0] == c);
        let w2 = split_blanks(s.subrange(i + 1, s.len() as int));
        if is_blank(c) {
            assert(c == ' ' || c == '\t');
            lemma_tok_from_split(s, i + 1, flushed(toks, cur, open), flushed_cur(cur, open), false);
            assert(split_blanks(t) == w2);
            if cur.len() > 0 {
                assert(toks.push(cur) + w2 =~= toks + (seq![cur] + w2));
            }
        } else {
            assert(!(c == ' ' || c == '\t' || c == '\n' || c == ';' || c == '&' || c == '|' || c == '>' || c == '<'
                || c == '$' || c == '`' || c == '\'' || c == '"' || c == '\\'));
            lemma_tok_from_split(s, i + 1, toks, cur.push(c), true);
            let w = split_blanks(t);
            let next_word = i + 1 < s.len() && !is_blank(s[i + 1]);
            if next_word {
                lemma_split_blanks_nonempty(s.subrange(i + 1, s.len() as int));
                assert(t[1] == s[i + 1]);
                assert(w == seq![seq![c] + w2[0]] + w2.drop_first());
                assert(w[0] == seq![c] + w2[0]);
                assert(w.drop_first() =~= w2.drop_first());
                assert(cur.push(c) + w2[0] =~= cur + (seq![c] + w2[0]));
                if cur.len() == 0 {
                    assert(cur.push(c) =~= seq![c]);
                }
                assert(toks + (seq![cur.push(c) + w2[0]] + w2.drop_first()) =~= toks + words_after(s, i, cur));
            } else {
                if t.len() > 1 {
                    assert(t[1] == s[i + 1]);
                }
                assert(w == seq![seq![c]] + w2);
                assert(w[0] == seq![c]);
                assert(w.drop_first() =~= w2);
                if cur.len() == 0 {
                    assert(cur.push(c) =~= seq![c]);
                } else {
                    assert(cur.push(c) =~= cur + seq![c]);
                }
                assert(toks + (seq![cur.push(c)] + w2) =~= toks + words_after(s, i, cur));
            }
        }
    }
}

/// Text made of words, spaces and tabs tokenizes into its words, as
/// `str::split_whitespace` splits it.
pub proof fn lemma_words_tokenize_to_split(s: Seq<char>)
    requires
        forall|k: int| 0 <= k < s.len() ==> word_char(#[trigger] s[k]) || is_blank(s[k]),
    ensures
        spec_tokenize(s) == Ok::<Seq<Seq<char>>, char>(split_blanks(s)),
{
    lemma_tok_from_split(s, 0, Seq::empty(), Seq::empty(), false);
    assert(s.subrange(0, s.len() as int) =~= s);
    assert(Seq::<Seq<char>>::empty() + split_blanks(s) =~= split_blanks(s));
}

/// The split so far is well formed: every piece is non-empty and trimmed,
/// only the first piece may carry `First`, and once a piece is recorded
/// the current operator is no longer `First`.
pub open spec fn split_well_formed(res: Seq<(Operator, Seq<char>)>, op: Operator) -> bool {
    &&& (op == Operator::First ==> res.len() == 0)
    &&& forall|k: int|
        0 <= k < res.len() ==> (#[trigger] res[k]).1.len() > 0 && trim(res[k].1) == res[k].1 && (res[k].0
            == Operator::First ==> k == 0)
}

proof fn lemma_split_from_well_formed(s: Seq<char>, i: int, res: Seq<(Operator, Seq<char>)>, start: int, op: Operator)
    requires
        0 <= i,
        split_well_formed(res, op),
    ensures
        split_well_formed(split_from(s, i, res, start, op), Operator::And),
    decreases s.len() - i,
{
    if i >= s.len() {
        let seg = trim(s.subrange(start, s.len() as int));
        let r = with_segment(res, seg, op);
        crate::text::lemma_trim_idempotent(s.subrange(start, s.len() as int));
        assert forall|k: int| 0 <= k < r.len() implies (#[trigger] r[k]).1.len() > 0 && trim(r[k].1) == r[k].1 && (r[k].0 == Operator::First ==> k == 0) by {
            if k < res.len() {
                assert(r[k] == res[k]);
            }
        }
    } else {
        let c = s[i];
        let res2 = with_segment(res, trim(s.subrange(start, i)), op);
        crate::text::lemma_trim_idempotent(s.subrange(start, i));
        assert forall|k: int| 0 <= k < res2.len() implies (#[trigger] res2[k]).1.len() > 0 && trim(res2[k].1) == res2[k].1 && (res2[k].0 == Operator::First ==> k == 0) by {
            if k < res.len() {
                assert(res2[k] == res[k]);
            }
        }
        if is_quoting(c) {
            lemma_quote_skip_range(s, i);
            lemma_split_from_well_formed(s, quote_skip(s, i), res, start, op);
        } else if (c == '$' || c == '<' || c == '>') && at(s, i + 1, '(') {
            lemma_paren_end_range(s, i + 2, 1);
            lemma_split_from_well_formed(s, paren_end(s, i + 2, 1), res, start, op);
        } else if c == '`' {
            lemma_esc_end_range(s, i + 1, '`');
            lemma_split_from_well_formed(s, esc_end(s, i + 1, '`'), res, start, op);
        } else if c == '&' {
            if at(s, i + 1, '&') {
                lemma_split_from_well_formed(s, i + 2, res2, i + 2, Operator::And);
            } else {
                lemma_split_from_well_formed(s, i + 1, res2, i + 1, Operator::Background);
            }
        } else if c == '|' && at(s, i + 1, '|') {
            lemma_split_from_well_formed(s, i + 2, res2, i + 2, Operator::Or);
        } else if c == ';' {
            lemma_split_from_well_formed(s, i + 1, res2, i + 1, Operator::Semi);
        } else if c == '\n' {
            lemma_split_from_well_formed(s, i + 1, res2, i + 1, Operator::Newline);
        } else {
            lemma_split_from_well_formed(s, i + 1, res, start, op);
        }
    }
}

/// No chain operator character: `&`, `|`, `;` or a newline.
pub open spec fn no_chain_chars(s: Seq<char>) -> bool {
    forall|k: int| 0 <= k < s.len() ==> #[trigger] s[k] != '&' && s[k] != '|' && s[k] != ';' && s[k] != '\n'
}

proof fn lemma_split_from_single(s: Seq<char>, i: int, res: Seq<(Operator, Seq<char>)>, start: int, op: Operator)
    requires
        0 <= i,
        no_chain_chars(s),
    ensures
        split_from(s, i, res, start, op) == with_segment(res, trim(s.subrange(start, s.len() as int)), op),
    decreases s.len() - i,
{
    if i < s.len() {
        let c = s[i];
        if is_quoting(c) {
            lemma_quote_skip_range(s, i);
            lemma_split_from_single(s, quote_skip(s, i), res, start, op);
        } else if (c == '$' || c == '<' || c == '>') && at(s, i + 1, '(') {
            lemma_paren_end_range(s, i + 2, 1);
            lemma_split_from_single(s, paren_end(s, i + 2, 1), res, start, op);
        } else if c == '`' {
            lemma_esc_end_range(s, i + 1, '`');
            lemma_split_from_single(s, esc_end(s, i + 1, '`'), res, start, op);
        } else {
            lemma_split_from_single(s, i + 1, res, start, op);
        }
    }
}

/// What `split_commands` returns is well formed: every sub-command is
/// non-empty and trimmed, and only the first one carries `First`. Input without chain
/// operator characters is one sub-command, the trimmed input (none when
/// that is empty).
pub proof fn lemma_split_commands_shape(s: Seq<char>)
    ensures
        forall|k: int|
            0 <= k < spec_split_commands(s).len() ==> (#[trigger] spec_split_commands(s)[k]).1.len() > 0 && trim(
                spec_split_commands(s)[k].1,
            ) == spec_split_commands(s)[k].1 && (spec_split_commands(s)[k].0 == Operator::First ==> k == 0),
        no_chain_chars(s) ==> spec_split_commands(s) == (if trim(s).len() == 0 {
            Seq::<(Operator, Seq<char>)>::empty()
        } else {
            seq![(Operator::First, trim(s))]
        }),
{
    lemma_split_from_well_formed(s, 0, Seq::empty(), 0, Operator::First);
    if no_chain_chars(s) {
        lemma_split_from_single(s, 0, Seq::empty(), 0, Operator::First);
        assert(s.subrange(0, s.len() as int) =~= s);
        if trim(s).len() > 0 {
            assert(Seq::<(Operator, Seq<char>)>::empty().push((Operator::First, trim(s))) =~= seq![(Operator::First, trim(s))]);
        }
    }
}

/// `pos` places the pieces of `res` in `s`: each piece is the text of `s`
/// at its position, and the pieces come in order without overlapping, all
/// before `bound`.
pub open spec fn placed(s: Seq<char>, res: Seq<(Operator, Seq<char>)>, pos: Seq<int>, bound: int) -> bool {
    &&& pos.len() == res.len()
    &&& forall|k: int|
        0 <= k < res.len() ==> 0 <= #[trigger] pos[k] && pos[k] + res[k].1.len() <= (if k + 1 < res.len() {
            pos[k + 1]
        } else {
            bound
        }) && s.subrange(pos[k], pos[k] + res[k].1.len()) == res[k].1
}

proof fn lemma_placed_push(
    s: Seq<char>,
    res: Seq<(Operator, Seq<char>)>,
    pos: Seq<int>,
    start: int,
    e: int,
    op: Operator,
    bound: int,
) -> (out: Seq<int>)
    requires
        placed(s, res, pos, start),
        0 <= start <= e <= bound <= s.len(),
    ensures
        placed(s, with_segment(res, trim(s.subrange(start, e)), op), out, bound),
{
    let sub = s.subrange(start, e);
    let seg = trim(sub);
    if seg.len() == 0 {
        pos
    } else {
        crate::text::lemma_trim_is_slice(sub);
        let a = choose|a: int| 0 <= a && a + seg.len() <= sub.len() && #[trigger] sub.subrange(a, a + seg.len()) == seg;
        assert(s.subrange(start + a, start + a + seg.len()) =~= sub.subrange(a, a + seg.len()));
        let out = pos.push(start + a);
        let r = res.push((op, seg));
        assert forall|k: int| 0 <= k < r.len() implies 0 <= #[trigger] out[k] && out[k] + r[k].1.len() <= (if k + 1
            < r.len() {
            out[k + 1]
        } else {
            bound
        }) && s.subrange(out[k], out[k] + r[k].1.len()) == r[k].1 by {
            if k < res.len() {
                assert(out[k] == pos[k] && r[k] == res[k]);
                if k + 1 == res.len() {
                    assert(out[k + 1] == start + a);
                }
            }
        }
        out
    }
}

proof fn lemma_split_from_placed(
    s: Seq<char>,
    i: int,
    res: Seq<(Operator, Seq<char>)>,
    start: int,
    op: Operator,
    pos: Seq<int>,
) -> (out: Seq<int>)
    requires
        0 <= start <= i,
        start <= s.len(),
        placed(s, res, pos, start),
    ensures
        placed(s, split_from(s, i, res, start, op), out, s.len() as int),
    decreases s.len() - i,
{
    if i >= s.len() {
        lemma_placed_push(s, res, pos, start, s.len() as int, op, s.len() as int)
    } else {
        let c = s[i];
        if is_quoting(c) {
            lemma_quote_skip_range(s, i);
            lemma_split_from_placed(s, quote_skip(s, i), res, start, op, pos)
        } else if (c == '$' || c == '<' || c == '>') && at(s, i + 1, '(') {
            lemma_paren_end_range(s, i + 2, 1);
            lemma_split_from_placed(s, paren_end(s, i + 2, 1), res, start, op, pos)
        } else if c == '`' {
            lemma_esc_end_range(s, i + 1, '`');
            lemma_split_from_placed(s, esc_end(s, i + 1, '`'), res, start, op, pos)
        } else if c == '&' {
            if at(s, i + 1, '&') {
                let p2 = lemma_placed_push(s, res, pos, start, i, op, i + 2);
                lemma_split_from_placed(s, i + 2, with_segment(res, trim(s.subrange(start, i)), op), i + 2, Operator::And, p2)
            } else {
                let p2 = lemma_placed_push(s, res, pos, start, i, op, i + 1);
                lemma_split_from_placed(s, i + 1, with_segment(res, trim(s.subrange(start, i)), op), i + 1, Operator::Background, p2)
            }
        } else if c == '|' && at(s, i + 1, '|') {
            let p2 = lemma_placed_push(s, res, pos, start, i, op, i + 2);
            lemma_split_from_placed(s, i + 2, with_segment(res, trim(s.subrange(start, i)), op), i + 2, Operator::Or, p2)
        } else if c == ';' {
            let p2 = lemma_placed_push(s, res, pos, start, i, op, i + 1);
            lemma_split_from_placed(s, i + 1, with_segment(res, trim(s.subrange(start, i)), op), i + 1, Operator::Semi, p2)
        } else if c == '\n' {
            let p2 = lemma_placed_push(s, res, pos, start, i, op, i + 1);
            lemma_split_from_placed(s, i + 1, with_segment(res, trim(s.subrange(start, i)), op), i + 1, Operator::Newline, p2)
        } else {
            lemma_split_from_placed(s, i + 1, res, start, op, pos)
        }
    }
}

/// The sub-commands `split_commands` returns are pieces of the input, in
/// the input's order and without overlapping.
pub proof fn lemma_split_commands_in_order(s: Seq<char>)
    ensures
        exists|pos: Seq<int>| placed(s, spec_split_commands(s), pos, s.len() as int),
{
    let pos = lemma_split_from_placed(s, 0, Seq::empty(), 0, Operator::First, Seq::empty());
    assert(placed(s, spec_split_commands(s), pos, s.len() as int));
}

} // verus!
