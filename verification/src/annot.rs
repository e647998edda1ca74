//! The annotation parser.
//!
//! Two grammars are accepted. The file-rule form is
//! `"<root>" , { <name> in "<regex>" [if !<path>] , <name> = "<template>" , ... }`
//! with an optional trailing comma; `in` marks the Pattern rule, `=` a
//! Template rule, and the `if !<path>` suffix is parsed only after `in`.
//! The case-source form is either a single string literal (the path handed to
//! the default case-file loader) or any other non-empty text, captured
//! verbatim as a case-producing expression and never evaluated here.
//!
//! String literals are written `"..."` with the escapes `\"`, `\\`, `\n`,
//! `\t`, `\r`, `\0`, `\'` (numeric escapes such as `\x41` are rejected),
//! or raw, `r"..."` and `r#"..."#` with any number of hash guards, taken
//! verbatim up to the closing quote. Every failure carries the character
//! offset of the offending position.
//!
//! The spec functions in this module are the grammar's definition: a
//! deterministic recursive descent over the character sequence. Each
//! executable function returns exactly what its spec function says.

use vstd::prelude::*;
use crate::rules::{Rule, RuleSet, RuleV, RuleSetV, rules_view};
use crate::text::{
    is_ws, is_ident_start, is_ident_cont, ws_char, ident_start_char, ident_cont_char, push_char,
    str_eq_str,
};

verus! {

/// First index at or after `i` holding no whitespace.
pub open spec fn skip_ws_s(s: Seq<char>, i: int) -> int
    decreases s.len() - i,
{
    if 0 <= i && i < s.len() && is_ws(s[i]) {
        skip_ws_s(s, i + 1)
    } else {
        i
    }
}

pub proof fn lemma_skip_ws(s: Seq<char>, i: int)
    requires
        0 <= i <= s.len(),
    ensures
        i <= skip_ws_s(s, i) <= s.len(),
        skip_ws_s(s, i) < s.len() ==> !is_ws(s[skip_ws_s(s, i)]),
    decreases s.len() - i,
{
    if i < s.len() && is_ws(s[i]) {
        lemma_skip_ws(s, i + 1);
    }
}

pub fn skip_ws_e(s: &str, i: usize) -> (r: usize)
    requires
        i <= s@.len(),
    ensures
        r == skip_ws_s(s@, i as int),
        i <= r <= s@.len(),
    decreases s@.len() - i,
{
    let n = s.unicode_len();
    if i < n && ws_char(s.get_char(i)) {
        skip_ws_e(s, i + 1)
    } else {
        i
    }
}

/// First index at or after `i` holding no identifier character.
pub open spec fn ident_end(s: Seq<char>, i: int) -> int
    decreases s.len() - i,
{
    if 0 <= i && i < s.len() && is_ident_cont(s[i]) {
        ident_end(s, i + 1)
    } else {
        i
    }
}

pub proof fn lemma_ident_end(s: Seq<char>, i: int)
    requires
        0 <= i <= s.len(),
    ensures
        i <= ident_end(s, i) <= s.len(),
        i < s.len() && is_ident_cont(s[i]) ==> i + 1 <= ident_end(s, i),
    decreases s.len() - i,
{
    if i < s.len() && is_ident_cont(s[i]) {
        lemma_ident_end(s, i + 1);
    }
}

pub fn ident_end_e(s: &str, i: usize) -> (r: usize)
    requires
        i <= s@.len(),
    ensures
        r == ident_end(s@, i as int),
        i <= r <= s@.len(),
    decreases s@.len() - i,
{
    let n = s.unicode_len();
    if i < n && ident_cont_char(s.get_char(i)) {
        ident_end_e(s, i + 1)
    } else {
        i
    }
}

/// What a backslash escape denotes, if it is accepted.
pub open spec fn esc(c: char) -> Option<char> {
    if c == '"' {
        Option::Some('"')
    } else if c == '\\' {
        Option::Some('\\')
    } else if c == 'n' {
        Option::Some('\n')
    } else if c == 't' {
        Option::Some('\t')
    } else if c == 'r' {
        Option::Some('\r')
    } else if c == '0' {
        Option::Some('\0')
    } else if c == '\'' {
        Option::Some('\'')
    } else {
        Option::None
    }
}

pub fn esc_e(c: char) -> (r: Option<char>)
    ensures
        r == esc(c),
{
    if c == '"' {
        Some('"')
    } else if c == '\\' {
        Some('\\')
    } else if c == 'n' {
        Some('\n')
    } else if c == 't' {
        Some('\t')
    } else if c == 'r' {
        Some('\r')
    } else if c == '0' {
        Some('\0')
    } else if c == '\'' {
        Some('\'')
    } else {
        None
    }
}

/// Scans the body of a `"..."` literal from `i` (just after the opening
/// quote): the cooked content and the index after the closing quote, or the
/// offset where scanning failed.
pub open spec fn scan_cooked(s: Seq<char>, i: int) -> Result<(Seq<char>, int), int>
    decreases s.len() - i,
{
    if !(0 <= i && i < s.len()) {
        Result::Err(i)
    } else if s[i] == '"' {
        Result::Ok((Seq::empty(), i + 1))
    } else if s[i] == '\\' {
        if i + 1 < s.len() {
            match esc(s[i + 1]) {
                Option::Some(c) => match scan_cooked(s, i + 2) {
                    Result::Ok((rest, n)) => Result::Ok((seq![c] + rest, n)),
                    Result::Err(e) => Result::Err(e),
                },
                Option::None => Result::Err(i),
            }
        } else {
            Result::Err(i)
        }
    } else {
        match scan_cooked(s, i + 1) {
            Result::Ok((rest, n)) => Result::Ok((seq![s[i]] + rest, n)),
            Result::Err(e) => Result::Err(e),
        }
    }
}

pub proof fn lemma_scan_cooked_next(s: Seq<char>, i: int)
    requires
        0 <= i,
    ensures
        match scan_cooked(s, i) {
            Result::Ok((c, n)) => i < n <= s.len(),
            Result::Err(_) => true,
        },
    decreases s.len() - i,
{
    if 0 <= i && i < s.len() {
        if s[i] == '"' {
        } else if s[i] == '\\' {
            if i + 1 < s.len() {
                lemma_scan_cooked_next(s, i + 2);
            }
        } else {
            lemma_scan_cooked_next(s, i + 1);
        }
    }
}

pub fn scan_cooked_e(s: &str, i: usize) -> (r: Result<(String, usize), usize>)
    requires
        i <= s@.len(),
    ensures
        match r {
            Result::Ok((c, n)) => scan_cooked(s@, i as int) == Result::Ok::<(Seq<char>, int), int>(
                (c@, n as int),
            ),
            Result::Err(e) => scan_cooked(s@, i as int) == Result::Err::<(Seq<char>, int), int>(
                e as int,
            ),
        },
    decreases s@.len() - i,
{
    let n = s.unicode_len();
    if i >= n {
        return Err(i);
    }
    let c = s.get_char(i);
    if c == '"' {
        Ok((String::new(), i + 1))
    } else if c == '\\' {
        if i + 1 < n {
            match esc_e(s.get_char(i + 1)) {
                Some(m) => match scan_cooked_e(s, i + 2) {
                    Ok((rest, nn)) => {
                        let mut out = String::new();
                        push_char(&mut out, m);
                        out.append(rest.as_str());
                        Ok((out, nn))
                    },
                    Err(e) => Err(e),
                },
                None => Err(i),
            }
        } else {
            Err(i)
        }
    } else {
        match scan_cooked_e(s, i + 1) {
            Ok((rest, nn)) => {
                let mut out = String::new();
                push_char(&mut out, c);
                out.append(rest.as_str());
                Ok((out, nn))
            },
            Err(e) => Err(e),
        }
    }
}

/// First index at or after `i` holding no hash mark.
pub open spec fn hash_end(s: Seq<char>, i: int) -> int
    decreases s.len() - i,
{
    if 0 <= i && i < s.len() && s[i] == '#' {
        hash_end(s, i + 1)
    } else {
        i
    }
}

pub proof fn lemma_hash_end(s: Seq<char>, i: int)
    requires
        0 <= i <= s.len(),
    ensures
        i <= hash_end(s, i) <= s.len(),
    decreases s.len() - i,
{
    if i < s.len() && s[i] == '#' {
        lemma_hash_end(s, i + 1);
    }
}

pub fn hash_end_e(s: &str, i: usize) -> (r: usize)
    requires
        i <= s@.len(),
    ensures
        r == hash_end(s@, i as int),
        i <= r <= s@.len(),
    decreases s@.len() - i,
{
    let n = s.unicode_len();
    if i < n && s.get_char(i) == '#' {
        hash_end_e(s, i + 1)
    } else {
        i
    }
}

/// `n` hash marks stand at `i`.
pub open spec fn hashes_at(s: Seq<char>, i: int, n: int) -> bool
    decreases n,
{
    n <= 0 || (i < s.len() && s[i] == '#' && hashes_at(s, i + 1, n - 1))
}

/// Hash marks standing at `i` reach no further than the text.
pub proof fn lemma_hashes_at_len(s: Seq<char>, i: int, n: int)
    requires
        hashes_at(s, i, n),
        n > 0,
    ensures
        i + n <= s.len(),
    decreases n,
{
    if n > 1 {
        lemma_hashes_at_len(s, i + 1, n - 1);
    }
}

pub fn hashes_at_e(s: &str, i: usize, n: usize) -> (r: bool)
    requires
        i <= s@.len(),
    ensures
        r == hashes_at(s@, i as int, n as int),
    decreases n,
{
    if n == 0 {
        true
    } else {
        let len = s.unicode_len();
        if i < len && s.get_char(i) == '#' {
            hashes_at_e(s, i + 1, n - 1)
        } else {
            false
        }
    }
}

/// First index at or after `i` closing a raw literal guarded by `n` hash
/// marks: a quote followed by `n` hashes. The text's length when none does.
pub open spec fn raw_close(s: Seq<char>, i: int, n: int) -> int
    decreases s.len() - i,
{
    if 0 <= i && i < s.len() {
        if s[i] == '"' && hashes_at(s, i + 1, n) {
            i
        } else {
            raw_close(s, i + 1, n)
        }
    } else {
        s.len() as int
    }
}

pub proof fn lemma_raw_close(s: Seq<char>, i: int, n: int)
    requires
        0 <= i <= s.len(),
    ensures
        i <= raw_close(s, i, n) <= s.len(),
        raw_close(s, i, n) < s.len() ==> hashes_at(s, raw_close(s, i, n) + 1, n),
    decreases s.len() - i,
{
    if 0 <= i && i < s.len() && !(s[i] == '"' && hashes_at(s, i + 1, n)) {
        lemma_raw_close(s, i + 1, n);
    }
}

pub fn raw_close_e(s: &str, i: usize, n: usize) -> (r: usize)
    requires
        i <= s@.len(),
    ensures
        r == raw_close(s@, i as int, n as int),
        i <= r <= s@.len(),
    decreases s@.len() - i,
{
    let len = s.unicode_len();
    if i < len {
        if s.get_char(i) == '"' && hashes_at_e(s, i + 1, n) {
            i
        } else {
            raw_close_e(s, i + 1, n)
        }
    } else {
        i
    }
}

/// Parses a string literal token at `p`: the content and the index after it.
/// A raw literal `r"..."` may guard its quotes with any number of hash
/// marks, `r#"..."#`; its content ends at the first quote followed by as
/// many hashes as opened it.
pub open spec fn parse_string(s: Seq<char>, p: int) -> Result<(Seq<char>, int), int> {
    if 0 <= p && p < s.len() && s[p] == '"' {
        scan_cooked(s, p + 1)
    } else if 0 <= p && p < s.len() && s[p] == 'r' {
        let h = hash_end(s, p + 1);
        if h < s.len() && s[h] == '"' {
            let n = h - (p + 1);
            let e = raw_close(s, h + 1, n);
            if e < s.len() {
                Result::Ok((s.subrange(h + 1, e), e + 1 + n))
            } else {
                Result::Err(p)
            }
        } else {
            Result::Err(p)
        }
    } else {
        Result::Err(p)
    }
}

pub proof fn lemma_parse_string_next(s: Seq<char>, p: int)
    requires
        0 <= p,
    ensures
        match parse_string(s, p) {
            Result::Ok((c, n)) => p < n <= s.len(),
            Result::Err(_) => true,
        },
{
    if 0 <= p && p < s.len() && s[p] == '"' {
        lemma_scan_cooked_next(s, p + 1);
    } else if 0 <= p && p < s.len() && s[p] == 'r' {
        lemma_hash_end(s, p + 1);
        let h = hash_end(s, p + 1);
        if h < s.len() && s[h] == '"' {
            let n = h - (p + 1);
            lemma_raw_close(s, h + 1, n);
            let e = raw_close(s, h + 1, n);
            if e < s.len() && n > 0 {
                lemma_hashes_at_len(s, e + 1, n);
            }
        }
    }
}

pub fn parse_string_e(s: &str, p: usize) -> (r: Result<(String, usize), usize>)
    requires
        p <= s@.len(),
    ensures
        match r {
            Result::Ok((c, n)) => parse_string(s@, p as int) == Result::Ok::<(Seq<char>, int), int>(
                (c@, n as int),
            ) && p < n <= s@.len(),
            Result::Err(e) => parse_string(s@, p as int) == Result::Err::<(Seq<char>, int), int>(
                e as int,
            ),
        },
{
    proof {
        lemma_parse_string_next(s@, p as int);
    }
    let len = s.unicode_len();
    if p < len && s.get_char(p) == '"' {
        scan_cooked_e(s, p + 1)
    } else if p < len && s.get_char(p) == 'r' {
        let h = hash_end_e(s, p + 1);
        if h < len && s.get_char(h) == '"' {
            let n = h - (p + 1);
            let e = raw_close_e(s, h + 1, n);
            if e < len {
                let sub = s.substring_char(h + 1, e);
                Ok((String::from_str(sub), e + 1 + n))
            } else {
                Err(p)
            }
        } else {
            Err(p)
        }
    } else {
        Err(p)
    }
}

/// Parses the `::ident` continuations of a predicate path; `acc` holds the
/// canonical text of the segments read so far.
pub open spec fn path_rest(s: Seq<char>, i: int, acc: Seq<char>) -> Result<(Seq<char>, int), int>
    decreases s.len() - i,
        when 0 <= i <= s.len()
        via path_rest_dec
{
    let j = skip_ws_s(s, i);
    if j < s.len() && s[j] == ':' && j + 1 < s.len() && s[j + 1] == ':' {
        let k = skip_ws_s(s, j + 2);
        if k < s.len() && is_ident_start(s[k]) {
            let e = ident_end(s, k);
            path_rest(s, e, acc + "::"@ + s.subrange(k, e))
        } else {
            Result::Err(k)
        }
    } else {
        Result::Ok((acc, i))
    }
}

#[via_fn]
proof fn path_rest_dec(s: Seq<char>, i: int, acc: Seq<char>) {
    lemma_skip_ws(s, i);
    let j = skip_ws_s(s, i);
    if j < s.len() && s[j] == ':' && j + 1 < s.len() && s[j + 1] == ':' {
        lemma_skip_ws(s, j + 2);
        let k = skip_ws_s(s, j + 2);
        if k < s.len() && is_ident_start(s[k]) {
            lemma_ident_end(s, k);
        }
    }
}

pub proof fn lemma_path_rest_next(s: Seq<char>, i: int, acc: Seq<char>)
    requires
        0 <= i <= s.len(),
    ensures
        match path_rest(s, i, acc) {
            Result::Ok((_, n)) => i <= n <= s.len(),
            Result::Err(_) => true,
        },
    decreases s.len() - i,
{
    lemma_skip_ws(s, i);
    let j = skip_ws_s(s, i);
    if j < s.len() && s[j] == ':' && j + 1 < s.len() && s[j + 1] == ':' {
        lemma_skip_ws(s, j + 2);
        let k = skip_ws_s(s, j + 2);
        if k < s.len() && is_ident_start(s[k]) {
            lemma_ident_end(s, k);
            let e = ident_end(s, k);
            lemma_path_rest_next(s, e, acc + "::"@ + s.subrange(k, e));
        }
    }
}

pub fn path_rest_e(s: &str, i: usize, acc: String) -> (r: Result<(String, usize), usize>)
    requires
        i <= s@.len(),
    ensures
        match r {
            Result::Ok((p, n)) => path_rest(s@, i as int, acc@) == Result::Ok::<
                (Seq<char>, int),
                int,
            >((p@, n as int)) && i <= n <= s@.len(),
            Result::Err(e) => path_rest(s@, i as int, acc@) == Result::Err::<(Seq<char>, int), int>(
                e as int,
            ),
        },
    decreases s@.len() - i,
{
    let n = s.unicode_len();
    let j = skip_ws_e(s, i);
    if j < n && s.get_char(j) == ':' && j + 1 < n && s.get_char(j + 1) == ':' {
        let k = skip_ws_e(s, j + 2);
        if k < n && ident_start_char(s.get_char(k)) {
            let e = ident_end_e(s, k);
            let mut acc2 = acc;
            acc2.append("::");
            acc2.append(s.substring_char(k, e));
            path_rest_e(s, e, acc2)
        } else {
            Err(k)
        }
    } else {
        Ok((acc, i))
    }
}

/// Parses a predicate path `ident (:: ident)*` at `i`: its canonical text
/// (segments joined by `::`) and the index after its last segment.
pub open spec fn parse_path(s: Seq<char>, i: int) -> Result<(Seq<char>, int), int> {
    if 0 <= i && i < s.len() && is_ident_start(s[i]) {
        let e = ident_end(s, i);
        path_rest(s, e, s.subrange(i, e))
    } else {
        Result::Err(i)
    }
}

pub proof fn lemma_parse_path_next(s: Seq<char>, i: int)
    requires
        0 <= i <= s.len(),
    ensures
        match parse_path(s, i) {
            Result::Ok((_, n)) => i < n <= s.len(),
            Result::Err(_) => true,
        },
{
    if 0 <= i && i < s.len() && is_ident_start(s[i]) {
        lemma_ident_end(s, i);
        let e = ident_end(s, i);
        lemma_path_rest_next(s, e, s.subrange(i, e));
    }
}

pub fn parse_path_e(s: &str, i: usize) -> (r: Result<(String, usize), usize>)
    requires
        i <= s@.len(),
    ensures
        match r {
            Result::Ok((p, n)) => parse_path(s@, i as int) == Result::Ok::<(Seq<char>, int), int>(
                (p@, n as int),
            ) && i < n <= s@.len(),
            Result::Err(e) => parse_path(s@, i as int) == Result::Err::<(Seq<char>, int), int>(
                e as int,
            ),
        },
{
    proof {
        lemma_parse_path_next(s@, i as int);
    }
    let n = s.unicode_len();
    if i < n && ident_start_char(s.get_char(i)) {
        let e = ident_end_e(s, i);
        let first = String::from_str(s.substring_char(i, e));
        path_rest_e(s, e, first)
    } else {
        Err(i)
    }
}

/// Parses one rule at `i`: the rule and the index after it. `= "text"`
/// yields a Template rule, `in "text"` a Pattern rule, and only a Pattern
/// rule may carry an `if !path` suffix. Only the grammar's own keywords,
/// `in` and `if`, are refused as rule names: a rule named by another Rust
/// keyword parses, and is inert, since no Rust function can declare a
/// parameter of that name for it to bind.
pub open spec fn parse_rule(s: Seq<char>, i: int) -> Result<(RuleV, int), int> {
    let j = skip_ws_s(s, i);
    if !(j < s.len() && is_ident_start(s[j])) {
        Result::Err(j)
    } else {
        let e = ident_end(s, j);
        let name = s.subrange(j, e);
        if name == "in"@ || name == "if"@ {
            Result::Err(j)
        } else {
            let k = skip_ws_s(s, e);
            if k < s.len() && s[k] == '=' {
                match parse_string(s, skip_ws_s(s, k + 1)) {
                    Result::Ok((v, n)) => Result::Ok(
                        (
                            RuleV {
                                name,
                                is_pattern: false,
                                expr: v,
                                ignore_pred: Option::None,
                                name_offset: j,
                            },
                            n,
                        ),
                    ),
                    Result::Err(e2) => Result::Err(e2),
                }
            } else if k < s.len() && is_ident_start(s[k]) && s.subrange(k, ident_end(s, k))
                == "in"@ {
                let m = ident_end(s, k);
                match parse_string(s, skip_ws_s(s, m)) {
                    Result::Err(e2) => Result::Err(e2),
                    Result::Ok((v, n)) => {
                        let q = skip_ws_s(s, n);
                        if q < s.len() && is_ident_start(s[q]) && s.subrange(q, ident_end(s, q))
                            == "if"@ {
                            let q2 = skip_ws_s(s, ident_end(s, q));
                            if q2 < s.len() && s[q2] == '!' {
                                match parse_path(s, skip_ws_s(s, q2 + 1)) {
                                    Result::Ok((pp, n2)) => Result::Ok(
                                        (
                                            RuleV {
                                                name,
                                                is_pattern: true,
                                                expr: v,
                                                ignore_pred: Option::Some(pp),
                                                name_offset: j,
                                            },
                                            n2,
                                        ),
                                    ),
                                    Result::Err(e2) => Result::Err(e2),
                                }
                            } else {
                                Result::Err(q2)
                            }
                        } else {
                            Result::Ok(
                                (
                                    RuleV {
                                        name,
                                        is_pattern: true,
                                        expr: v,
                                        ignore_pred: Option::None,
                                        name_offset: j,
                                    },
                                    n,
                                ),
                            )
                        }
                    },
                }
            } else {
                Result::Err(k)
            }
        }
    }
}

pub proof fn lemma_parse_rule_next(s: Seq<char>, i: int)
    requires
        0 <= i <= s.len(),
    ensures
        match parse_rule(s, i) {
            Result::Ok((_, n)) => i < n <= s.len(),
            Result::Err(_) => true,
        },
{
    lemma_skip_ws(s, i);
    let j = skip_ws_s(s, i);
    if j < s.len() && is_ident_start(s[j]) {
        lemma_ident_end(s, j);
        let e = ident_end(s, j);
        lemma_skip_ws(s, e);
        let k = skip_ws_s(s, e);
        if k < s.len() && s[k] == '=' {
            lemma_skip_ws(s, k + 1);
            lemma_parse_string_next(s, skip_ws_s(s, k + 1));
        } else if k < s.len() && is_ident_start(s[k]) {
            lemma_ident_end(s, k);
            let m = ident_end(s, k);
            lemma_skip_ws(s, m);
            lemma_parse_string_next(s, skip_ws_s(s, m));
            match parse_string(s, skip_ws_s(s, m)) {
                Result::Ok((_, n)) => {
                    lemma_skip_ws(s, n);
                    let q = skip_ws_s(s, n);
                    if q < s.len() {
                        lemma_ident_end(s, q);
                        lemma_skip_ws(s, ident_end(s, q));
                        let q2 = skip_ws_s(s, ident_end(s, q));
                        if q2 < s.len() {
                            lemma_skip_ws(s, q2 + 1);
                            lemma_parse_path_next(s, skip_ws_s(s, q2 + 1));
                        }
                    }
                },
                Result::Err(_) => {},
            }
        }
    }
}

/// Executable mirror of [`parse_rule`].
pub fn parse_rule_e(s: &str, i: usize) -> (r: Result<(Rule, usize), usize>)
    requires
        i <= s@.len(),
    ensures
        match r {
            Result::Ok((ru, n)) => parse_rule(s@, i as int) == Result::Ok::<(RuleV, int), int>(
                (ru@, n as int),
            ) && i < n <= s@.len(),
            Result::Err(e) => parse_rule(s@, i as int) == Result::Err::<(RuleV, int), int>(
                e as int,
            ),
        },
{
    proof {
        lemma_parse_rule_next(s@, i as int);
    }
    let n = s.unicode_len();
    let j = skip_ws_e(s, i);
    if !(j < n && ident_start_char(s.get_char(j))) {
        return Err(j);
    }
    let e = ident_end_e(s, j);
    let name_sub = s.substring_char(j, e);
    if str_eq_str(name_sub, "in") || str_eq_str(name_sub, "if") {
        return Err(j);
    }
    let k = skip_ws_e(s, e);
    if k < n && s.get_char(k) == '=' {
        let p = skip_ws_e(s, k + 1);
        match parse_string_e(s, p) {
            Ok((v, nn)) => Ok(
                (
                    Rule {
                        name: String::from_str(name_sub),
                        is_pattern: false,
                        expr: v,
                        ignore_pred: None,
                        name_offset: j,
                    },
                    nn,
                ),
            ),
            Err(e2) => Err(e2),
        }
    } else if k < n && ident_start_char(s.get_char(k)) && str_eq_str(
        s.substring_char(k, ident_end_e(s, k)),
        "in",
    ) {
        let m = ident_end_e(s, k);
        match parse_string_e(s, skip_ws_e(s, m)) {
            Err(e2) => Err(e2),
            Ok((v, nn)) => {
                let q = skip_ws_e(s, nn);
                if q < n && ident_start_char(s.get_char(q)) && str_eq_str(
                    s.substring_char(q, ident_end_e(s, q)),
                    "if",
                ) {
                    let q2 = skip_ws_e(s, ident_end_e(s, q));
                    if q2 < n && s.get_char(q2) == '!' {
                        match parse_path_e(s, skip_ws_e(s, q2 + 1)) {
                            Ok((pp, n2)) => Ok(
                                (
                                    Rule {
                                        name: String::from_str(name_sub),
                                        is_pattern: true,
                                        expr: v,
                                        ignore_pred: Some(pp),
                                        name_offset: j,
                                    },
                                    n2,
                                ),
                            ),
                            Err(e2) => Err(e2),
                        }
                    } else {
                        Err(q2)
                    }
                } else {
                    Ok(
                        (
                            Rule {
                                name: String::from_str(name_sub),
                                is_pattern: true,
                                expr: v,
                                ignore_pred: None,
                                name_offset: j,
                            },
                            nn,
                        ),
                    )
                }
            },
        }
    } else {
        Err(k)
    }
}

/// Parses the rules between the braces: a possibly empty, comma-separated
/// list with an optional trailing comma. Returns the rules and the position
/// where the closing brace is expected.
pub open spec fn parse_rule_list(s: Seq<char>, i: int) -> Result<(Seq<RuleV>, int), int>
    decreases s.len() - i,
        when 0 <= i <= s.len()
        via parse_rule_list_dec
{
    let j = skip_ws_s(s, i);
    if j < s.len() && s[j] == '}' {
        Result::Ok((Seq::empty(), j))
    } else {
        match parse_rule(s, i) {
            Result::Err(e) => Result::Err(e),
            Result::Ok((r, n)) => {
                let k = skip_ws_s(s, n);
                if k < s.len() && s[k] == ',' {
                    match parse_rule_list(s, k + 1) {
                        Result::Ok((rest, n2)) => Result::Ok((seq![r] + rest, n2)),
                        Result::Err(e) => Result::Err(e),
                    }
                } else {
                    Result::Ok((seq![r], k))
                }
            },
        }
    }
}

#[via_fn]
proof fn parse_rule_list_dec(s: Seq<char>, i: int) {
    lemma_parse_rule_next(s, i);
    match parse_rule(s, i) {
        Result::Ok((_, n)) => {
            lemma_skip_ws(s, n);
        },
        Result::Err(_) => {},
    }
}

/// Executable mirror of [`parse_rule_list`].
pub fn parse_rule_list_e(s: &str, i: usize) -> (r: Result<(Vec<Rule>, usize), usize>)
    requires
        i <= s@.len(),
    ensures
        match r {
            Result::Ok((rs, n)) => parse_rule_list(s@, i as int) == Result::Ok::<
                (Seq<RuleV>, int),
                int,
            >((rules_view(rs@), n as int)) && n <= s@.len(),
            Result::Err(e) => parse_rule_list(s@, i as int) == Result::Err::<(Seq<RuleV>, int), int>(
                e as int,
            ),
        },
    decreases s@.len() - i,
{
    proof {
        lemma_parse_rule_next(s@, i as int);
    }
    let n = s.unicode_len();
    let j = skip_ws_e(s, i);
    if j < n && s.get_char(j) == '}' {
        let v: Vec<Rule> = Vec::new();
        proof {
            assert(rules_view(v@) =~= Seq::<RuleV>::empty());
        }
        Ok((v, j))
    } else {
        match parse_rule_e(s, i) {
            Err(e) => Err(e),
            Ok((ru, nn)) => {
                let k = skip_ws_e(s, nn);
                if k < n && s.get_char(k) == ',' {
                    match parse_rule_list_e(s, k + 1) {
                        Ok((rest, n2)) => {
                            let ghost restv = rules_view(rest@);
                            let mut out = rest;
                            out.insert(0, ru);
                            proof {
                                assert(rules_view(out@) =~= seq![ru@] + restv);
                            }
                            Ok((out, n2))
                        },
                        Err(e) => Err(e),
                    }
                } else {
                    let mut v: Vec<Rule> = Vec::new();
                    v.push(ru);
                    proof {
                        assert(rules_view(v@) =~= seq![ru@]);
                    }
                    Ok((v, k))
                }
            },
        }
    }
}

/// Whether some rule in `rs` is keyed by `name`.
pub open spec fn has_name(rs: Seq<RuleV>, name: Seq<char>) -> bool {
    exists|k: int| 0 <= k < rs.len() && (#[trigger] rs[k]).name == name
}

/// Keeps, for each argument name, only its last rule: a later rule for the
/// same name replaces an earlier one, as an insertion into a map would.
pub open spec fn dedup_rules(rs: Seq<RuleV>) -> Seq<RuleV>
    decreases rs.len(),
{
    if rs.len() == 0 {
        rs
    } else if has_name(rs.skip(1), rs[0].name) {
        dedup_rules(rs.skip(1))
    } else {
        seq![rs[0]] + dedup_rules(rs.skip(1))
    }
}

/// Deduplication keeps exactly the names of the original rules.
pub proof fn lemma_dedup_names(rs: Seq<RuleV>, name: Seq<char>)
    ensures
        has_name(dedup_rules(rs), name) == has_name(rs, name),
    decreases rs.len(),
{
    if rs.len() > 0 {
        lemma_dedup_names(rs.skip(1), name);
        let rest = dedup_rules(rs.skip(1));
        if has_name(rs.skip(1), rs[0].name) {
            if has_name(rs, name) {
                let k = choose|k: int| 0 <= k < rs.len() && (#[trigger] rs[k]).name == name;
                if k == 0 {
                    assert(has_name(rs.skip(1), name));
                } else {
                    assert(rs.skip(1)[k - 1].name == name);
                }
            }
            if has_name(rs.skip(1), name) {
                let k = choose|k: int|
                    0 <= k < rs.skip(1).len() && (#[trigger] rs.skip(1)[k]).name == name;
                assert(rs[k + 1].name == name);
            }
        } else {
            assert(dedup_rules(rs) == seq![rs[0]] + rest);
            if has_name(rs, name) {
                let k = choose|k: int| 0 <= k < rs.len() && (#[trigger] rs[k]).name == name;
                if k == 0 {
                    assert((seq![rs[0]] + rest)[0].name == name);
                } else {
                    assert(rs.skip(1)[k - 1].name == name);
                    let k2 = choose|k2: int|
                        0 <= k2 < rest.len() && (#[trigger] rest[k2]).name == name;
                    assert((seq![rs[0]] + rest)[k2 + 1].name == name);
                }
            }
            if has_name(dedup_rules(rs), name) {
                let k = choose|k: int|
                    0 <= k < dedup_rules(rs).len() && (#[trigger] dedup_rules(rs)[k]).name
                        == name;
                if k == 0 {
                    assert(rs[0].name == name);
                } else {
                    assert(rest[k - 1].name == name);
                    let k2 = choose|k2: int|
                        0 <= k2 < rs.skip(1).len() && (#[trigger] rs.skip(1)[k2]).name == name;
                    assert(rs[k2 + 1].name == name);
                }
            }
        }
    }
}

/// After deduplication, no two rules share a name.
pub proof fn lemma_dedup_unique(rs: Seq<RuleV>)
    ensures
        crate::rules::rule_names_unique(dedup_rules(rs)),
    decreases rs.len(),
{
    if rs.len() > 0 {
        lemma_dedup_unique(rs.skip(1));
        let rest = dedup_rules(rs.skip(1));
        if !has_name(rs.skip(1), rs[0].name) {
            lemma_dedup_names(rs.skip(1), rs[0].name);
            let d = seq![rs[0]] + rest;
            assert forall|i: int, j: int| 0 <= i < j < d.len() implies d[i].name != d[j].name by {
                if i == 0 {
                    assert(d[j] == rest[j - 1]);
                    if rest[j - 1].name == rs[0].name {
                        assert(has_name(rest, rs[0].name));
                    }
                } else {
                    assert(d[i] == rest[i - 1]);
                    assert(d[j] == rest[j - 1]);
                }
            }
        }
    }
}

/// Whether some rule in `rules` is keyed by `name`.
pub fn name_present(rules: &Vec<Rule>, name: &String) -> (r: bool)
    ensures
        r == has_name(rules_view(rules@), name@),
{
    let ghost rv = rules_view(rules@);
    let mut i: usize = 0;
    while i < rules.len()
        invariant
            i <= rules.len(),
            rv == rules_view(rules@),
            forall|j: int| 0 <= j < i ==> (#[trigger] rv[j]).name != name@,
        decreases rules.len() - i,
    {
        if str_eq_str(rules[i].name.as_str(), name.as_str()) {
            proof {
                assert(rv[i as int].name == name@);
            }
            return true;
        }
        i += 1;
    }
    false
}

/// Parses a whole file-rule annotation:
/// `"<root>" , { <rules> }` with nothing but whitespace after the braces.
pub open spec fn parse_files_annotation(s: Seq<char>) -> Result<RuleSetV, int> {
    match parse_string(s, skip_ws_s(s, 0)) {
        Result::Err(e) => Result::Err(e),
        Result::Ok((root, n)) => {
            let j = skip_ws_s(s, n);
            if j < s.len() && s[j] == ',' {
                let k = skip_ws_s(s, j + 1);
                if k < s.len() && s[k] == '{' {
                    match parse_rule_list(s, k + 1) {
                        Result::Err(e) => Result::Err(e),
                        Result::Ok((rules, m)) => {
                            if m < s.len() && s[m] == '}' {
                                let t = skip_ws_s(s, m + 1);
                                if t == s.len() {
                                    Result::Ok(RuleSetV { root, rules: dedup_rules(rules) })
                                } else {
                                    Result::Err(t)
                                }
                            } else {
                                Result::Err(m)
                            }
                        },
                    }
                } else {
                    Result::Err(k)
                }
            } else {
                Result::Err(j)
            }
        },
    }
}

/// Executable mirror of [`parse_files_annotation`].
pub fn parse_files_annotation_e(s: &str) -> (r: Result<RuleSet, usize>)
    ensures
        match r {
            Result::Ok(rs) => parse_files_annotation(s@) == Result::Ok::<RuleSetV, int>(rs@),
            Result::Err(e) => parse_files_annotation(s@) == Result::Err::<RuleSetV, int>(e as int),
        },
{
    let n = s.unicode_len();
    let p0 = skip_ws_e(s, 0);
    match parse_string_e(s, p0) {
        Err(e) => Err(e),
        Ok((root, nn)) => {
            let j = skip_ws_e(s, nn);
            if j < n && s.get_char(j) == ',' {
                let k = skip_ws_e(s, j + 1);
                if k < n && s.get_char(k) == '{' {
                    match parse_rule_list_e(s, k + 1) {
                        Err(e) => Err(e),
                        Ok((rules, m)) => {
                            if m < n && s.get_char(m) == '}' {
                                let t = skip_ws_e(s, m + 1);
                                if t == n {
                                    let ghost rulesv = rules_view(rules@);
                                    let deduped = dedup_rules_e(rules);
                                    let rs = RuleSet { root, rules: deduped };
                                    proof {
                                        assert(rs@.rules == dedup_rules(rulesv));
                                    }
                                    Ok(rs)
                                } else {
                                    Err(t)
                                }
                            } else {
                                Err(m)
                            }
                        },
                    }
                } else {
                    Err(k)
                }
            } else {
                Err(j)
            }
        },
    }
}

/// The rule-set invariant: whatever a file-rule annotation parses to keys
/// its rules by unique argument names.
pub proof fn law_parsed_rule_names_unique(s: Seq<char>)
    ensures
        match parse_files_annotation(s) {
            Result::Ok(rsv) => crate::rules::rule_names_unique(rsv.rules),
            Result::Err(_) => true,
        },
{
    match parse_string(s, skip_ws_s(s, 0)) {
        Result::Err(_) => {},
        Result::Ok((_, n)) => {
            let j = skip_ws_s(s, n);
            if j < s.len() && s[j] == ',' {
                let k = skip_ws_s(s, j + 1);
                if k < s.len() && s[k] == '{' {
                    match parse_rule_list(s, k + 1) {
                        Result::Err(_) => {},
                        Result::Ok((rules, _)) => {
                            lemma_dedup_unique(rules);
                        },
                    }
                }
            }
        },
    }
}

/// The case source of a case-driven annotation: either the path handed to
/// the default case-file loader, or a case-producing expression captured
/// verbatim.
pub enum CaseSource {
    LoaderPath(String),
    Verbatim(String),
}

/// Mathematical image of a case source.
pub enum CaseSourceV {
    LoaderPath(Seq<char>),
    Verbatim(Seq<char>),
}

impl View for CaseSource {
    type V = CaseSourceV;

    open spec fn view(&self) -> CaseSourceV {
        match self {
            CaseSource::LoaderPath(p) => CaseSourceV::LoaderPath(p@),
            CaseSource::Verbatim(t) => CaseSourceV::Verbatim(t@),
        }
    }
}

/// First index `<= j` such that everything from it to `j` is whitespace.
pub open spec fn ws_trim_end(s: Seq<char>, j: int) -> int
    decreases j,
{
    if 0 < j && j <= s.len() && is_ws(s[j - 1]) {
        ws_trim_end(s, j - 1)
    } else {
        j
    }
}

pub proof fn lemma_ws_trim_end(s: Seq<char>, j: int, i: int)
    requires
        0 <= i < j <= s.len(),
        !is_ws(s[i]),
    ensures
        i + 1 <= ws_trim_end(s, j) <= j,
    decreases j,
{
    if 0 < j && j <= s.len() && is_ws(s[j - 1]) {
        lemma_ws_trim_end(s, j - 1, i);
    }
}

pub fn ws_trim_end_e(s: &str, j: usize) -> (r: usize)
    requires
        j <= s@.len(),
    ensures
        r == ws_trim_end(s@, j as int),
        r <= j,
    decreases j,
{
    if 0 < j && ws_char(s.get_char(j - 1)) {
        ws_trim_end_e(s, j - 1)
    } else {
        j
    }
}

/// Parses a case-source annotation: a lone string literal names the path for
/// the default case-file loader; any other non-empty text is captured
/// verbatim (trimmed of surrounding whitespace) as the case-producing
/// expression, which is embedded, never evaluated, by this generator.
pub open spec fn parse_data_annotation(s: Seq<char>) -> Result<CaseSourceV, int> {
    let i = skip_ws_s(s, 0);
    if i < s.len() && (s[i] == '"' || (s[i] == 'r' && hash_end(s, i + 1) < s.len() && s[hash_end(
        s,
        i + 1,
    )] == '"')) {
        match parse_string(s, i) {
            Result::Err(e) => Result::Err(e),
            Result::Ok((p, n)) => {
                let t = skip_ws_s(s, n);
                if t == s.len() {
                    Result::Ok(CaseSourceV::LoaderPath(p))
                } else {
                    Result::Err(t)
                }
            },
        }
    } else if i < s.len() {
        Result::Ok(CaseSourceV::Verbatim(s.subrange(i, ws_trim_end(s, s.len() as int))))
    } else {
        Result::Err(i)
    }
}

/// Executable mirror of [`parse_data_annotation`].
pub fn parse_data_annotation_e(s: &str) -> (r: Result<CaseSource, usize>)
    ensures
        match r {
            Result::Ok(c) => parse_data_annotation(s@) == Result::Ok::<CaseSourceV, int>(c@),
            Result::Err(e) => parse_data_annotation(s@) == Result::Err::<CaseSourceV, int>(
                e as int,
            ),
        },
{
    let n = s.unicode_len();
    let i = skip_ws_e(s, 0);
    let raw_start = if i < n && s.get_char(i) == 'r' {
        let h = hash_end_e(s, i + 1);
        h < n && s.get_char(h) == '"'
    } else {
        false
    };
    if i < n && (s.get_char(i) == '"' || raw_start) {
        match parse_string_e(s, i) {
            Err(e) => Err(e),
            Ok((p, nn)) => {
                let t = skip_ws_e(s, nn);
                if t == n {
                    Ok(CaseSource::LoaderPath(p))
                } else {
                    Err(t)
                }
            },
        }
    } else if i < n {
        proof {
            lemma_skip_ws(s@, 0);
            assert(!is_ws(s@[i as int]));
            lemma_ws_trim_end(s@, s@.len() as int, i as int);
        }
        let e = ws_trim_end_e(s, n);
        let text = String::from_str(s.substring_char(i, e));
        Ok(CaseSource::Verbatim(text))
    } else {
        Err(i)
    }
}

/// Executable mirror of [`dedup_rules`].
pub fn dedup_rules_e(rules: Vec<Rule>) -> (r: Vec<Rule>)
    ensures
        rules_view(r@) == dedup_rules(rules_view(rules@)),
    decreases rules@.len(),
{
    let ghost rv = rules_view(rules@);
    let mut rules = rules;
    if rules.len() == 0 {
        rules
    } else {
        let first = rules.remove(0);
        proof {
            assert(rules_view(rules@) =~= rv.skip(1));
            assert(first@ == rv[0]);
        }
        let dup = name_present(&rules, &first.name);
        let rest = dedup_rules_e(rules);
        if dup {
            rest
        } else {
            let ghost restv = rules_view(rest@);
            let mut out = rest;
            out.insert(0, first);
            proof {
                assert(rules_view(out@) =~= seq![first@] + restv);
            }
            out
        }
    }
}

} // verus!
