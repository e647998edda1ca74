//! The generator's model of the annotated function: its name, its
//! function-level decorations, and the shape of each declared parameter.

use vstd::prelude::*;
use crate::annot::{skip_ws_s, skip_ws_e, ident_end, ident_end_e};
use crate::text::{is_ident_start, ident_start_char, str_eq_str, strs_view};

verus! {

/// Mathematical image of one declared parameter.
pub struct ParamV {
    pub simple: bool,
    pub name: Seq<char>,
    pub ty: Seq<char>,
    pub by_ref: bool,
    pub elem: Seq<char>,
}

/// Shape of one declared parameter of the annotated function.
///
/// Only a simple named binding (`name: Type`, no destructuring, no `self`)
/// can be matched against a rule. For a simple binding, `ty` is the full type
/// text; `by_ref` says whether the type is a reference, and `elem` is the
/// referent's type text then (`ty` itself otherwise).
pub enum ParamShape {
    Simple { name: String, ty: String, by_ref: bool, elem: String },
    Other,
}

impl View for ParamShape {
    type V = ParamV;

    open spec fn view(&self) -> ParamV {
        match self {
            ParamShape::Simple { name, ty, by_ref, elem } => ParamV {
                simple: true,
                name: name@,
                ty: ty@,
                by_ref: *by_ref,
                elem: elem@,
            },
            ParamShape::Other => ParamV {
                simple: false,
                name: Seq::empty(),
                ty: Seq::empty(),
                by_ref: false,
                elem: Seq::empty(),
            },
        }
    }
}

/// View of a parameter sequence.
pub open spec fn params_view(s: Seq<ParamShape>) -> Seq<ParamV> {
    s.map_values(|p: ParamShape| p@)
}

/// The annotated function, as the generator sees it: name, the identifiers of
/// its outer attributes in order, and its declared parameters in order.
pub struct FnModel {
    pub name: String,
    pub attrs: Vec<String>,
    pub params: Vec<ParamShape>,
}

/// Function-level markers read from the attribute list.
pub struct FuncInfo {
    pub ignore: bool,
    pub bench: bool,
}

/// `s` with its first occurrence of `x` removed.
pub open spec fn remove_first(s: Seq<Seq<char>>, x: Seq<char>) -> Seq<Seq<char>>
    decreases s.len(),
{
    if s.len() == 0 {
        s
    } else if s[0] == x {
        s.skip(1)
    } else {
        seq![s[0]] + remove_first(s.skip(1), x)
    }
}

/// Removing an absent element changes nothing.
pub proof fn lemma_remove_first_absent(s: Seq<Seq<char>>, x: Seq<char>)
    requires
        !s.contains(x),
    ensures
        remove_first(s, x) == s,
    decreases s.len(),
{
    if s.len() > 0 {
        assert(s[0] != x);
        assert forall|y: Seq<char>| s.skip(1).contains(y) implies s.contains(y) by {
            let k = choose|k: int| 0 <= k < s.skip(1).len() && s.skip(1)[k] == y;
            assert(s[k + 1] == y);
        }
        lemma_remove_first_absent(s.skip(1), x);
        assert(seq![s[0]] + s.skip(1) =~= s);
    }
}

/// How `remove_first` treats an element appended at the back.
pub proof fn lemma_remove_first_push(s: Seq<Seq<char>>, x: Seq<char>, a: Seq<char>)
    ensures
        remove_first(s.push(a), x) == if !s.contains(x) && a == x {
            s
        } else {
            remove_first(s, x).push(a)
        },
    decreases s.len(),
{
    if s.len() == 0 {
        if a == x {
            assert(s.push(a).skip(1) =~= s);
        } else {
            assert(s.push(a)[0] == a);
            assert(s.push(a).skip(1) =~= Seq::<Seq<char>>::empty().push(a).skip(1));
            assert(remove_first(s.push(a), x) =~= seq![a] + remove_first(s.push(a).skip(1), x));
            assert(s.push(a).skip(1).len() == 0);
            assert(remove_first(s.push(a), x) =~= remove_first(s, x).push(a));
        }
    } else {
        assert(s.push(a)[0] == s[0]);
        assert(s.push(a).skip(1) =~= s.skip(1).push(a));
        if s[0] == x {
            assert(s.contains(x)) by {
                assert(s[0] == x);
            }
            assert(remove_first(s.push(a), x) == s.push(a).skip(1));
            assert(remove_first(s, x).push(a) =~= s.skip(1).push(a));
        } else {
            lemma_remove_first_push(s.skip(1), x, a);
            if !s.skip(1).contains(x) && a == x {
                assert(!s.contains(x)) by {
                    if s.contains(x) {
                        let k = choose|k: int| 0 <= k < s.len() && s[k] == x;
                        assert(k > 0);
                        assert(s.skip(1)[k - 1] == x);
                    }
                }
                assert(remove_first(s.push(a), x) =~= seq![s[0]] + s.skip(1));
                assert(seq![s[0]] + s.skip(1) =~= s);
            } else {
                assert(s.contains(x) || a != x) by {
                    if s.skip(1).contains(x) {
                        let k = choose|k: int| 0 <= k < s.skip(1).len() && s.skip(1)[k] == x;
                        assert(s[k + 1] == x);
                    }
                }
                assert(remove_first(s.push(a), x) =~= seq![s[0]] + remove_first(s.skip(1), x).push(a));
                assert(seq![s[0]] + remove_first(s.skip(1), x).push(a) =~= (seq![s[0]]
                    + remove_first(s.skip(1), x)).push(a));
            }
        }
    }
}

/// Whether some attribute in `attrs` is named `x`.
pub fn has_attr(attrs: &Vec<String>, x: &str) -> (r: bool)
    ensures
        r == strs_view(attrs@).contains(x@),
{
    let mut i: usize = 0;
    while i < attrs.len()
        invariant
            i <= attrs.len(),
            forall|j: int| 0 <= j < i ==> strs_view(attrs@)[j] != x@,
        decreases attrs.len() - i,
    {
        if str_eq_str(attrs[i].as_str(), x) {
            assert(strs_view(attrs@)[i as int] == x@);
            return true;
        }
        i += 1;
    }
    assert(forall|j: int| 0 <= j < strs_view(attrs@).len() ==> strs_view(attrs@)[j] != x@);
    false
}

/// `attrs` with its first attribute named `x` removed.
pub fn remove_first_attr(attrs: &Vec<String>, x: &str) -> (r: Vec<String>)
    ensures
        strs_view(r@) == remove_first(strs_view(attrs@), x@),
{
    let ghost s = strs_view(attrs@);
    let mut out: Vec<String> = Vec::new();
    let mut found = false;
    let mut i: usize = 0;
    while i < attrs.len()
        invariant
            i <= attrs.len(),
            s == strs_view(attrs@),
            found == s.take(i as int).contains(x@),
            strs_view(out@) == remove_first(s.take(i as int), x@),
        decreases attrs.len() - i,
    {
        let ghost iv = i as int;
        let a = &attrs[i];
        proof {
            assert(s[iv] == a@);
            assert(s.take(iv + 1) =~= s.take(iv).push(a@));
            lemma_remove_first_push(s.take(iv), x@, a@);
        }
        if !found && str_eq_str(a.as_str(), x) {
            found = true;
            proof {
                lemma_remove_first_absent(s.take(iv), x@);
                assert(s.take(iv + 1).contains(x@)) by {
                    assert(s.take(iv + 1)[iv] == x@);
                }
            }
        } else {
            out.push(a.clone());
            proof {
                assert(strs_view(out@) =~= remove_first(s.take(iv), x@).push(a@));
                if found {
                    assert(s.take(iv + 1).contains(x@)) by {
                        let k = choose|k: int| 0 <= k < iv && s.take(iv)[k] == x@;
                        assert(s.take(iv + 1)[k] == x@);
                    }
                } else {
                    assert(a@ != x@);
                    assert(!s.take(iv + 1).contains(x@)) by {
                        if s.take(iv + 1).contains(x@) {
                            let k = choose|k: int|
                                0 <= k < iv + 1 && #[trigger] s.take(iv + 1)[k] == x@;
                            if k < iv {
                                assert(s.take(iv)[k] == x@);
                            }
                        }
                    }
                }
            }
        }
        i += 1;
    }
    proof {
        assert(s.take(attrs.len() as int) =~= s);
    }
    out
}

/// Reads and consumes the recognized function-level decorations, as the
/// generator does before emission: the first `test`, `bench` and `ignore`
/// attribute each are removed (historically `test`/`bench` only improved IDE
/// integration; this generator supplies its own registration), and the flags
/// report whether `ignore` and `bench` were present.
pub fn scan_attrs(attrs: &Vec<String>) -> (r: (Vec<String>, FuncInfo))
    ensures
        strs_view(r.0@) == remove_first(
            remove_first(remove_first(strs_view(attrs@), "test"@), "bench"@),
            "ignore"@,
        ),
        r.1.bench == strs_view(attrs@).contains("bench"@),
        r.1.ignore == strs_view(attrs@).contains("ignore"@),
{
    let bench = has_attr(attrs, "bench");
    let ignore = has_attr(attrs, "ignore");
    let a1 = remove_first_attr(attrs, "test");
    let a2 = remove_first_attr(&a1, "bench");
    let a3 = remove_first_attr(&a2, "ignore");
    (a3, FuncInfo { ignore, bench })
}

/// First index after the bracketed group opened before `i`, scanning from
/// `i` with `depth` groups open; the text's length when the group never
/// closes. The scan counts brackets only; it does not read string literals
/// inside attribute arguments.
pub open spec fn bracket_close(s: Seq<char>, i: int, depth: int) -> int
    decreases s.len() - i,
{
    if 0 <= i && i < s.len() {
        if s[i] == ']' {
            if depth <= 1 {
                i + 1
            } else {
                bracket_close(s, i + 1, depth - 1)
            }
        } else if s[i] == '[' {
            bracket_close(s, i + 1, depth + 1)
        } else {
            bracket_close(s, i + 1, depth)
        }
    } else {
        s.len() as int
    }
}

pub proof fn lemma_bracket_close(s: Seq<char>, i: int, depth: int)
    requires
        0 <= i <= s.len(),
    ensures
        i <= bracket_close(s, i, depth) <= s.len(),
        i < s.len() ==> i + 1 <= bracket_close(s, i, depth),
    decreases s.len() - i,
{
    if 0 <= i && i < s.len() {
        if s[i] == ']' {
            if depth > 1 {
                lemma_bracket_close(s, i + 1, depth - 1);
            }
        } else if s[i] == '[' {
            lemma_bracket_close(s, i + 1, depth + 1);
        } else {
            lemma_bracket_close(s, i + 1, depth);
        }
    }
}

pub fn bracket_close_e(s: &str, i: usize, depth: usize) -> (r: usize)
    requires
        i <= s@.len(),
        depth + (s@.len() - i) <= usize::MAX,
    ensures
        r == bracket_close(s@, i as int, depth as int),
        i <= r <= s@.len(),
    decreases s@.len() - i,
{
    proof {
        lemma_bracket_close(s@, i as int, depth as int);
    }
    let n = s.unicode_len();
    if i < n {
        let c = s.get_char(i);
        if c == ']' {
            if depth <= 1 {
                i + 1
            } else {
                bracket_close_e(s, i + 1, depth - 1)
            }
        } else if c == '[' {
            bracket_close_e(s, i + 1, depth + 1)
        } else {
            bracket_close_e(s, i + 1, depth)
        }
    } else {
        n
    }
}

/// The attribute's name when its bracketed content is one bare identifier:
/// the content spans `[k, e)`, and the closing bracket stands at `e`.
pub open spec fn bare_attr_ident(s: Seq<char>, k: int, e: int) -> Option<Seq<char>> {
    let p = skip_ws_s(s, k);
    if p < e && is_ident_start(s[p]) {
        let q = ident_end(s, p);
        if skip_ws_s(s, q) == e {
            Option::Some(s.subrange(p, q))
        } else {
            Option::None
        }
    } else {
        Option::None
    }
}

/// The text from `i` on with the first not-yet-removed `#[test]`,
/// `#[bench]` and `#[ignore]` of the leading attribute block dropped;
/// everything from the first non-attribute construct on is kept verbatim.
pub open spec fn strip_from(s: Seq<char>, i: int, t: bool, b: bool, g: bool) -> Seq<char>
    decreases s.len() - i,
        when 0 <= i <= s.len()
        via strip_from_dec
{
    let j = skip_ws_s(s, i);
    if j < s.len() && s[j] == '#' {
        let k = skip_ws_s(s, j + 1);
        if k < s.len() && s[k] == '[' {
            let e = bracket_close(s, k + 1, 1);
            let name = if k + 2 <= e && s[e - 1] == ']' {
                bare_attr_ident(s, k + 1, e - 1)
            } else {
                Option::None
            };
            if name == Option::Some("test"@) && !t {
                s.subrange(i, j) + strip_from(s, e, true, b, g)
            } else if name == Option::Some("bench"@) && !b {
                s.subrange(i, j) + strip_from(s, e, t, true, g)
            } else if name == Option::Some("ignore"@) && !g {
                s.subrange(i, j) + strip_from(s, e, t, b, true)
            } else {
                s.subrange(i, e) + strip_from(s, e, t, b, g)
            }
        } else {
            s.subrange(i, s.len() as int)
        }
    } else {
        s.subrange(i, s.len() as int)
    }
}

#[via_fn]
proof fn strip_from_dec(s: Seq<char>, i: int, t: bool, b: bool, g: bool) {
    lemma_skip_ws_pub(s, i);
    let j = skip_ws_s(s, i);
    if j < s.len() && s[j] == '#' {
        lemma_skip_ws_pub(s, j + 1);
        let k = skip_ws_s(s, j + 1);
        if k < s.len() && s[k] == '[' {
            lemma_bracket_close(s, k + 1, 1);
        }
    }
}

proof fn lemma_skip_ws_pub(s: Seq<char>, i: int)
    requires
        0 <= i <= s.len(),
    ensures
        i <= skip_ws_s(s, i) <= s.len(),
{
    crate::annot::lemma_skip_ws(s, i);
}

/// Executable mirror of [`strip_from`].
pub fn strip_from_e(s: &str, i: usize, t: bool, b: bool, g: bool) -> (r: String)
    requires
        i <= s@.len(),
    ensures
        r@ == strip_from(s@, i as int, t, b, g),
    decreases s@.len() - i,
{
    let n = s.unicode_len();
    let j = skip_ws_e(s, i);
    if j < n && s.get_char(j) == '#' {
        let k = skip_ws_e(s, j + 1);
        if k < n && s.get_char(k) == '[' {
            proof {
                lemma_bracket_close(s@, k as int + 1, 1);
            }
            let e = bracket_close_e(s, k + 1, 1);
            let ghost sname = if k + 2 <= e as int && s@[e as int - 1] == ']' {
                bare_attr_ident(s@, k as int + 1, e as int - 1)
            } else {
                Option::<Seq<char>>::None
            };
            let mut name: Option<String> = None;
            if e >= 2 && k <= e - 2 && s.get_char(e - 1) == ']' {
                let p = skip_ws_e(s, k + 1);
                if p < e - 1 && ident_start_char(s.get_char(p)) {
                    let q = ident_end_e(s, p);
                    if skip_ws_e(s, q) == e - 1 {
                        name = Some(String::from_str(s.substring_char(p, q)));
                    }
                }
            }
            proof {
                if name is Some {
                    assert(sname == Option::Some(name->Some_0@));
                } else {
                    assert(sname is None);
                }
            }
            let is_t = match &name {
                Some(nm) => str_eq_str(nm.as_str(), "test"),
                None => false,
            };
            let is_b = match &name {
                Some(nm) => str_eq_str(nm.as_str(), "bench"),
                None => false,
            };
            let is_g = match &name {
                Some(nm) => str_eq_str(nm.as_str(), "ignore"),
                None => false,
            };
            proof {
                assert(is_t == (sname == Option::Some("test"@)));
                assert(is_b == (sname == Option::Some("bench"@)));
                assert(is_g == (sname == Option::Some("ignore"@)));
            }
            if is_t && !t {
                let mut out = String::from_str(s.substring_char(i, j));
                let rest = strip_from_e(s, e, true, b, g);
                out.append(rest.as_str());
                out
            } else if is_b && !b {
                let mut out = String::from_str(s.substring_char(i, j));
                let rest = strip_from_e(s, e, t, true, g);
                out.append(rest.as_str());
                out
            } else if is_g && !g {
                let mut out = String::from_str(s.substring_char(i, j));
                let rest = strip_from_e(s, e, t, b, true);
                out.append(rest.as_str());
                out
            } else {
                let mut out = String::from_str(s.substring_char(i, e));
                let rest = strip_from_e(s, e, t, b, g);
                out.append(rest.as_str());
                out
            }
        } else {
            String::from_str(s.substring_char(i, n))
        }
    } else {
        String::from_str(s.substring_char(i, n))
    }
}

/// The annotated function's text, re-emitted with the recognized
/// decorations removed: the first `#[test]`, `#[bench]` and `#[ignore]` of
/// its leading attribute block each. The block is read as bare `#[name]`
/// groups and bracket-balanced other attributes; a bracket inside a literal
/// within an attribute argument, or a marker standing after a doc comment,
/// is beyond this scan and left in place.
pub open spec fn strip_markers(s: Seq<char>) -> Seq<char> {
    strip_from(s, 0, false, false, false)
}

/// Executable mirror of [`strip_markers`].
pub fn strip_markers_e(s: &str) -> (r: String)
    ensures
        r@ == strip_markers(s@),
{
    strip_from_e(s, 0, false, false, false)
}

} // verus!
