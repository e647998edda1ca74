//! The code emitter: renders the registration glue, the descriptor constant
//! and the trampoline function as source text for the harness's crate.
//!
//! The spec functions here are the emitted text's definition; each executable
//! function returns exactly that text. Registration follows one of two
//! strategies: the native marker `#[test_case]` for a toolchain whose test
//! collection facility picks descriptors up itself, or an ordinary
//! registration function that the program's startup routine calls once per
//! test before the harness runs — an explicit registry build, in place of a
//! pre-main constructor hook splicing an intrusive list node, whose safety
//! argument rested entirely on the hook discipline.

use vstd::prelude::*;
use crate::annot::CaseSourceV;
use crate::matcher::PlanEntry;
use crate::text::{push_char, strs_view};

verus! {

/// Which registration strategy the target toolchain takes.
#[derive(Clone, Copy, PartialEq, Eq, Structural, Debug)]
pub enum Channel {
    Stable,
    Nightly,
}

/// Decimal digit character of `d`.
pub open spec fn digit_char(d: nat) -> char {
    if d == 0 {
        '0'
    } else if d == 1 {
        '1'
    } else if d == 2 {
        '2'
    } else if d == 3 {
        '3'
    } else if d == 4 {
        '4'
    } else if d == 5 {
        '5'
    } else if d == 6 {
        '6'
    } else if d == 7 {
        '7'
    } else if d == 8 {
        '8'
    } else {
        '9'
    }
}

/// Decimal representation of `n`, most significant digit first.
pub open spec fn dec_rep(n: nat) -> Seq<char>
    decreases n,
{
    if n < 10 {
        seq![digit_char(n)]
    } else {
        dec_rep(n / 10) + seq![digit_char(n % 10)]
    }
}

fn digit_char_e(d: usize) -> (c: char)
    requires
        d < 10,
    ensures
        c == digit_char(d as nat),
{
    if d == 0 {
        '0'
    } else if d == 1 {
        '1'
    } else if d == 2 {
        '2'
    } else if d == 3 {
        '3'
    } else if d == 4 {
        '4'
    } else if d == 5 {
        '5'
    } else if d == 6 {
        '6'
    } else if d == 7 {
        '7'
    } else if d == 8 {
        '8'
    } else {
        '9'
    }
}

/// Renders `n` in decimal.
pub fn dec_text(n: usize) -> (r: String)
    ensures
        r@ == dec_rep(n as nat),
    decreases n,
{
    if n < 10 {
        let mut out = String::new();
        push_char(&mut out, digit_char_e(n));
        proof {
            assert(out@ =~= seq![digit_char(n as nat)]);
        }
        out
    } else {
        let mut out = dec_text(n / 10);
        push_char(&mut out, digit_char_e(n % 10));
        proof {
            assert(out@ =~= dec_rep(n as nat / 10) + seq![digit_char(n as nat % 10)]);
        }
        out
    }
}

/// How one character is written inside an emitted string literal.
pub open spec fn esc_char_rep(c: char) -> Seq<char> {
    if c == '\\' {
        seq!['\\', '\\']
    } else if c == '"' {
        seq!['\\', '"']
    } else if c == '\n' {
        seq!['\\', 'n']
    } else if c == '\t' {
        seq!['\\', 't']
    } else if c == '\r' {
        seq!['\\', 'r']
    } else {
        seq![c]
    }
}

/// `s` written inside an emitted string literal.
pub open spec fn esc_lit(s: Seq<char>) -> Seq<char>
    decreases s.len(),
{
    if s.len() == 0 {
        Seq::empty()
    } else {
        esc_char_rep(s[0]) + esc_lit(s.skip(1))
    }
}

pub proof fn lemma_esc_lit_snoc(t: Seq<char>, c: char)
    ensures
        esc_lit(t.push(c)) == esc_lit(t) + esc_char_rep(c),
    decreases t.len(),
{
    if t.len() == 0 {
        assert(t.push(c)[0] == c);
        assert(t.push(c).skip(1) =~= Seq::<char>::empty());
        assert(esc_char_rep(c) + esc_lit(Seq::<char>::empty()) =~= esc_char_rep(c));
        assert(esc_lit(t) + esc_char_rep(c) =~= esc_char_rep(c));
    } else {
        assert(t.push(c)[0] == t[0]);
        assert(t.push(c).skip(1) =~= t.skip(1).push(c));
        lemma_esc_lit_snoc(t.skip(1), c);
        assert(esc_char_rep(t[0]) + (esc_lit(t.skip(1)) + esc_char_rep(c)) =~= (esc_char_rep(t[0])
            + esc_lit(t.skip(1))) + esc_char_rep(c));
    }
}

/// Escapes `s` for embedding in an emitted string literal.
pub fn esc_text(s: &str) -> (r: String)
    ensures
        r@ == esc_lit(s@),
{
    let n = s.unicode_len();
    let mut out = String::new();
    let mut i: usize = 0;
    proof {
        assert(out@ =~= esc_lit(s@.take(0)));
    }
    while i < n
        invariant
            n == s@.len(),
            i <= n,
            out@ == esc_lit(s@.take(i as int)),
        decreases n - i,
    {
        let c = s.get_char(i);
        proof {
            assert(s@.take(i as int + 1) =~= s@.take(i as int).push(c));
            lemma_esc_lit_snoc(s@.take(i as int), c);
        }
        if c == '\\' {
            push_char(&mut out, '\\');
            push_char(&mut out, '\\');
        } else if c == '"' {
            push_char(&mut out, '\\');
            push_char(&mut out, '"');
        } else if c == '\n' {
            push_char(&mut out, '\\');
            push_char(&mut out, 'n');
        } else if c == '\t' {
            push_char(&mut out, '\\');
            push_char(&mut out, 't');
        } else if c == '\r' {
            push_char(&mut out, '\\');
            push_char(&mut out, 'r');
        } else {
            push_char(&mut out, c);
        }
        proof {
            assert(out@ =~= esc_lit(s@.take(i as int)) + esc_char_rep(c));
        }
        i += 1;
    }
    proof {
        assert(s@.take(n as int) =~= s@);
    }
    out
}

/// `s` as an emitted string literal, quotes included.
pub open spec fn lit_of(s: Seq<char>) -> Seq<char> {
    seq!['"'] + esc_lit(s) + seq!['"']
}

/// Renders `s` as a quoted, escaped string literal.
pub fn lit_text(s: &str) -> (r: String)
    ensures
        r@ == lit_of(s@),
{
    let mut out = String::new();
    push_char(&mut out, '"');
    let e = esc_text(s);
    out.append(e.as_str());
    push_char(&mut out, '"');
    proof {
        assert(out@ =~= lit_of(s@));
    }
    out
}

/// The emitted `true`/`false` token.
pub open spec fn bool_text(b: bool) -> Seq<char> {
    if b {
        "true"@
    } else {
        "false"@
    }
}

/// The descriptor constant's identifier.
pub open spec fn desc_ident(fn_name: Seq<char>) -> Seq<char> {
    "__TEST_"@ + fn_name
}

/// The trampoline function's identifier.
pub open spec fn trampoline_ident(fn_name: Seq<char>) -> Seq<char> {
    "__TEST_TRAMPOLINE_"@ + fn_name
}

/// The describe function's identifier.
pub open spec fn describe_ident(fn_name: Seq<char>) -> Seq<char> {
    "__TEST_DESCRIBE_"@ + fn_name
}

/// The registration function's identifier.
pub open spec fn registration_ident(fn_name: Seq<char>) -> Seq<char> {
    "__TEST_"@ + fn_name + "__REGISTRATION"@
}

fn desc_ident_text(fn_name: &String) -> (r: String)
    ensures
        r@ == desc_ident(fn_name@),
{
    let mut out = String::from_str("__TEST_");
    out.append(fn_name.as_str());
    out
}

fn trampoline_ident_text(fn_name: &String) -> (r: String)
    ensures
        r@ == trampoline_ident(fn_name@),
{
    let mut out = String::from_str("__TEST_TRAMPOLINE_");
    out.append(fn_name.as_str());
    out
}

fn describe_ident_text(fn_name: &String) -> (r: String)
    ensures
        r@ == describe_ident(fn_name@),
{
    let mut out = String::from_str("__TEST_DESCRIBE_");
    out.append(fn_name.as_str());
    out
}

fn registration_ident_text(fn_name: &String) -> (r: String)
    ensures
        r@ == registration_ident(fn_name@),
{
    let mut out = String::from_str("__TEST_");
    out.append(fn_name.as_str());
    out.append("__REGISTRATION");
    out
}

/// The registration glue for one descriptor: the native collection marker on
/// the nightly strategy, an ordinary registration function for the program's
/// startup routine to call on the stable strategy.
pub open spec fn registration_text(channel: Channel, fn_name: Seq<char>) -> Seq<char> {
    match channel {
        Channel::Nightly => "#[test_case]\n"@,
        Channel::Stable => "#[allow(non_snake_case)]\npub fn "@ + registration_ident(fn_name)
            + "(registry: &mut ::datatest::Registry) {\n    registry.add(&"@ + desc_ident(fn_name)
            + ");\n}\n"@,
    }
}

/// Renders the registration glue.
pub fn registration(channel: Channel, fn_name: &String) -> (r: String)
    ensures
        r@ == registration_text(channel, fn_name@),
{
    match channel {
        Channel::Nightly => String::from_str("#[test_case]\n"),
        Channel::Stable => {
            let mut out = String::from_str("#[allow(non_snake_case)]\npub fn ");
            let ri = registration_ident_text(fn_name);
            out.append(ri.as_str());
            out.append("(registry: &mut ::datatest::Registry) {\n    registry.add(&");
            let di = desc_ident_text(fn_name);
            out.append(di.as_str());
            out.append(");\n}\n");
            out
        },
    }
}

/// The comma-separated list of the bound expressions as string literals.
pub open spec fn lits_join(es: Seq<Seq<char>>) -> Seq<char>
    decreases es.len(),
{
    if es.len() == 0 {
        Seq::empty()
    } else if es.len() == 1 {
        lit_of(es[0])
    } else {
        lit_of(es[0]) + ", "@ + lits_join(es.skip(1))
    }
}

fn lits_join_from(es: &Vec<String>, i: usize) -> (r: String)
    requires
        i <= es@.len(),
    ensures
        r@ == lits_join(strs_view(es@).skip(i as int)),
    decreases es@.len() - i,
{
    let ghost sv = strs_view(es@);
    if i == es.len() {
        proof {
            assert(sv.skip(i as int).len() == 0);
        }
        String::new()
    } else {
        proof {
            assert(sv.skip(i as int)[0] == es@[i as int]@);
        }
        let first = lit_text(es[i].as_str());
        if i + 1 == es.len() {
            proof {
                assert(sv.skip(i as int).len() == 1);
            }
            first
        } else {
            proof {
                assert(sv.skip(i as int).len() > 1);
                assert(sv.skip(i as int).skip(1) =~= sv.skip(i as int + 1));
            }
            let mut out = first;
            out.append(", ");
            let rest = lits_join_from(es, i + 1);
            out.append(rest.as_str());
            out
        }
    }
}

/// One derive-and-take argument of the trampoline's positional call: derives
/// the declared type from the path at plan position `j`.
pub open spec fn invoke_arg_text(ty: Seq<char>, j: nat) -> Seq<char> {
    "::datatest::TakeArg::take(&mut <"@ + ty + " as ::datatest::DeriveArg>::derive(&paths_arg["@
        + dec_rep(j) + "]))"@
}

/// The comma-separated argument list of the positional call, plan positions
/// `j0` on.
pub open spec fn invoke_list_text(tys: Seq<Seq<char>>, j0: nat) -> Seq<char>
    decreases tys.len(),
{
    if tys.len() == 0 {
        Seq::empty()
    } else if tys.len() == 1 {
        invoke_arg_text(tys[0], j0)
    } else {
        invoke_arg_text(tys[0], j0) + ", "@ + invoke_list_text(tys.skip(1), (j0 + 1) as nat)
    }
}

/// The declared types of the plan's entries.
pub open spec fn entries_tys(es: Seq<PlanEntry>) -> Seq<Seq<char>> {
    es.map_values(|e: PlanEntry| e.ty@)
}

fn invoke_arg(ty: &String, j: usize) -> (r: String)
    ensures
        r@ == invoke_arg_text(ty@, j as nat),
{
    let mut out = String::from_str("::datatest::TakeArg::take(&mut <");
    out.append(ty.as_str());
    out.append(" as ::datatest::DeriveArg>::derive(&paths_arg[");
    let d = dec_text(j);
    out.append(d.as_str());
    out.append("]))");
    out
}

fn invoke_list_from(entries: &Vec<PlanEntry>, i: usize) -> (r: String)
    requires
        i <= entries@.len(),
    ensures
        r@ == invoke_list_text(entries_tys(entries@).skip(i as int), i as nat),
    decreases entries@.len() - i,
{
    let ghost tv = entries_tys(entries@);
    if i == entries.len() {
        proof {
            assert(tv.skip(i as int).len() == 0);
        }
        String::new()
    } else {
        proof {
            assert(tv.skip(i as int)[0] == entries@[i as int].ty@);
        }
        let first = invoke_arg(&entries[i].ty, i);
        if i + 1 == entries.len() {
            proof {
                assert(tv.skip(i as int).len() == 1);
            }
            first
        } else {
            proof {
                assert(tv.skip(i as int).len() > 1);
                assert(tv.skip(i as int).skip(1) =~= tv.skip(i as int + 1));
            }
            let mut out = first;
            out.append(", ");
            let rest = invoke_list_from(entries, i + 1);
            out.append(rest.as_str());
            out
        }
    }
}

/// The emitted `ignorefn` field value.
pub open spec fn ignore_fn_text(ipred: Option<Seq<char>>) -> Seq<char> {
    match ipred {
        Option::Some(p) => "Some("@ + p + ")"@,
        Option::None => "None"@,
    }
}

/// The run kind the descriptor carries the trampoline under.
pub open spec fn run_kind_text(bench: bool) -> Seq<char> {
    if bench {
        "BenchFn"@
    } else {
        "TestFn"@
    }
}

/// The emitted file-driven descriptor constant.
pub open spec fn files_desc_text(
    fn_name: Seq<char>,
    ignore: bool,
    root: Seq<char>,
    exprs: Seq<Seq<char>>,
    pattern: nat,
    ipred: Option<Seq<char>>,
    bench: bool,
) -> Seq<char> {
    "#[allow(non_upper_case_globals)]\nconst "@ + desc_ident(fn_name)
        + ": ::datatest::FilesTestDesc = ::datatest::FilesTestDesc {\n    name: concat!(module_path!(), \"::\", \""@
        + esc_lit(fn_name) + "\"),\n    ignore: "@ + bool_text(ignore) + ",\n    root: \""@
        + esc_lit(root) + "\",\n    params: &["@ + lits_join(exprs) + "],\n    pattern: "@
        + dec_rep(pattern) + ",\n    ignorefn: "@ + ignore_fn_text(ipred)
        + ",\n    testfn: ::datatest::FilesTestFn::"@ + run_kind_text(bench) + "("@
        + trampoline_ident(fn_name) + "),\n};\n"@
}

/// Renders the file-driven descriptor constant.
pub fn files_desc(d: &crate::descriptor::FilesTestDesc) -> (r: String)
    ensures
        r@ == files_desc_text(
            d.name@,
            d.ignore,
            d.root@,
            strs_view(d.params@),
            d.pattern as nat,
            crate::rules::opt_view(d.ignore_fn),
            d.is_bench,
        ),
{
    let mut out = String::from_str("#[allow(non_upper_case_globals)]\nconst ");
    let di = desc_ident_text(&d.name);
    out.append(di.as_str());
    out.append(
        ": ::datatest::FilesTestDesc = ::datatest::FilesTestDesc {\n    name: concat!(module_path!(), \"::\", \"",
    );
    let en = esc_text(d.name.as_str());
    out.append(en.as_str());
    out.append("\"),\n    ignore: ");
    if d.ignore {
        out.append("true");
    } else {
        out.append("false");
    }
    out.append(",\n    root: \"");
    let er = esc_text(d.root.as_str());
    out.append(er.as_str());
    out.append("\",\n    params: &[");
    let pj = lits_join_from(&d.params, 0);
    proof {
        assert(strs_view(d.params@).skip(0) =~= strs_view(d.params@));
    }
    out.append(pj.as_str());
    out.append("],\n    pattern: ");
    let pd = dec_text(d.pattern);
    out.append(pd.as_str());
    out.append(",\n    ignorefn: ");
    match &d.ignore_fn {
        Some(p) => {
            out.append("Some(");
            out.append(p.as_str());
            out.append(")");
        },
        None => {
            out.append("None");
        },
    }
    out.append(",\n    testfn: ::datatest::FilesTestFn::");
    if d.is_bench {
        out.append("BenchFn");
    } else {
        out.append("TestFn");
    }
    out.append("(");
    let ti = trampoline_ident_text(&d.name);
    out.append(ti.as_str());
    out.append("),\n};\n");
    proof {
        assert(out@ =~= files_desc_text(
            d.name@,
            d.ignore,
            d.root@,
            strs_view(d.params@),
            d.pattern as nat,
            crate::rules::opt_view(d.ignore_fn),
            d.is_bench,
        ));
    }
    out
}

/// The emitted file-driven trampoline: receives the harness's ordered path
/// slice, derives each declared parameter type from its path, calls the
/// original function positionally, and hands its result to the uniform
/// assertion helper.
pub open spec fn files_tramp_text(fn_name: Seq<char>, tys: Seq<Seq<char>>, bench: bool) -> Seq<
    char,
> {
    "#[allow(non_snake_case)]\nfn "@ + trampoline_ident(fn_name) + "("@ + (if bench {
        "bencher: &mut ::datatest::Bencher, "@
    } else {
        Seq::empty()
    }) + "paths_arg: &[::std::path::PathBuf]) {\n    let result = "@ + fn_name + "("@ + (if bench {
        "bencher, "@
    } else {
        Seq::empty()
    }) + invoke_list_text(tys, 0) + ");\n    ::datatest::assert_test_result(result);\n}\n"@
}

/// Renders the file-driven trampoline.
pub fn files_tramp(fn_name: &String, entries: &Vec<PlanEntry>, bench: bool) -> (r: String)
    ensures
        r@ == files_tramp_text(fn_name@, entries_tys(entries@), bench),
{
    let mut out = String::from_str("#[allow(non_snake_case)]\nfn ");
    let ti = trampoline_ident_text(fn_name);
    out.append(ti.as_str());
    out.append("(");
    if bench {
        out.append("bencher: &mut ::datatest::Bencher, ");
    }
    out.append("paths_arg: &[::std::path::PathBuf]) {\n    let result = ");
    out.append(fn_name.as_str());
    out.append("(");
    if bench {
        out.append("bencher, ");
    }
    let il = invoke_list_from(entries, 0);
    proof {
        assert(entries_tys(entries@).skip(0) =~= entries_tys(entries@));
    }
    out.append(il.as_str());
    out.append(");\n    ::datatest::assert_test_result(result);\n}\n");
    proof {
        assert(out@ =~= files_tramp_text(fn_name@, entries_tys(entries@), bench));
    }
    out
}

/// The whole emitted unit of one file-driven test: registration glue, then
/// the descriptor constant, then the trampoline.
pub open spec fn files_output_text(
    channel: Channel,
    fn_name: Seq<char>,
    ignore: bool,
    root: Seq<char>,
    exprs: Seq<Seq<char>>,
    tys: Seq<Seq<char>>,
    pattern: nat,
    ipred: Option<Seq<char>>,
    bench: bool,
) -> Seq<char> {
    registration_text(channel, fn_name) + files_desc_text(
        fn_name,
        ignore,
        root,
        exprs,
        pattern,
        ipred,
        bench,
    ) + files_tramp_text(fn_name, tys, bench)
}

/// The emitted case-driven descriptor constant.
pub open spec fn data_desc_text(fn_name: Seq<char>, ignore: bool) -> Seq<char> {
    "#[allow(non_upper_case_globals)]\nconst "@ + desc_ident(fn_name)
        + ": ::datatest::DataTestDesc = ::datatest::DataTestDesc {\n    name: concat!(module_path!(), \"::\", \""@
        + esc_lit(fn_name) + "\"),\n    ignore: "@ + bool_text(ignore)
        + ",\n    describefn: "@ + describe_ident(fn_name) + ",\n};\n"@
}

/// Renders the case-driven descriptor constant.
pub fn data_desc(d: &crate::descriptor::DataTestDesc) -> (r: String)
    ensures
        r@ == data_desc_text(d.name@, d.ignore),
{
    let mut out = String::from_str("#[allow(non_upper_case_globals)]\nconst ");
    let di = desc_ident_text(&d.name);
    out.append(di.as_str());
    out.append(
        ": ::datatest::DataTestDesc = ::datatest::DataTestDesc {\n    name: concat!(module_path!(), \"::\", \"",
    );
    let en = esc_text(d.name.as_str());
    out.append(en.as_str());
    out.append("\"),\n    ignore: ");
    if d.ignore {
        out.append("true");
    } else {
        out.append("false");
    }
    out.append(",\n    describefn: ");
    let de = describe_ident_text(&d.name);
    out.append(de.as_str());
    out.append(",\n};\n");
    proof {
        assert(out@ =~= data_desc_text(d.name@, d.ignore));
    }
    out
}

/// The emitted case-driven trampoline: receives one case value by the
/// declared type — the referent's type, re-borrowed at the call, when the
/// parameter borrows its case — calls the original function, and hands its
/// result to the uniform assertion helper.
pub open spec fn data_tramp_text(
    fn_name: Seq<char>,
    elem_ty: Seq<char>,
    by_ref: bool,
    bench: bool,
) -> Seq<char> {
    "#[allow(non_snake_case)]\nfn "@ + trampoline_ident(fn_name) + "("@ + (if bench {
        "bencher: &mut ::datatest::Bencher, "@
    } else {
        Seq::empty()
    }) + "arg: "@ + elem_ty + ") {\n    let result = "@ + fn_name + "("@ + (if bench {
        "bencher, "@
    } else {
        Seq::empty()
    }) + (if by_ref {
        "&"@
    } else {
        Seq::empty()
    }) + "arg);\n    ::datatest::assert_test_result(result);\n}\n"@
}

/// Renders the case-driven trampoline.
pub fn data_tramp(fn_name: &String, elem_ty: &String, by_ref: bool, bench: bool) -> (r: String)
    ensures
        r@ == data_tramp_text(fn_name@, elem_ty@, by_ref, bench),
{
    let mut out = String::from_str("#[allow(non_snake_case)]\nfn ");
    let ti = trampoline_ident_text(fn_name);
    out.append(ti.as_str());
    out.append("(");
    if bench {
        out.append("bencher: &mut ::datatest::Bencher, ");
    }
    out.append("arg: ");
    out.append(elem_ty.as_str());
    out.append(") {\n    let result = ");
    out.append(fn_name.as_str());
    out.append("(");
    if bench {
        out.append("bencher, ");
    }
    if by_ref {
        out.append("&");
    }
    out.append("arg);\n    ::datatest::assert_test_result(result);\n}\n");
    proof {
        assert(out@ =~= data_tramp_text(fn_name@, elem_ty@, by_ref, bench));
    }
    out
}

/// How the describe function wraps one case for the harness.
pub open spec fn case_ctor_text(fn_name: Seq<char>, bench: bool) -> Seq<char> {
    if bench {
        "::datatest::DataTestFn::BenchFn(Box::new(::datatest::DataBenchFn("@ + trampoline_ident(
            fn_name,
        ) + ", case)))"@
    } else {
        "::datatest::DataTestFn::TestFn(Box::new(move || "@ + trampoline_ident(fn_name)
            + "(case)))"@
    }
}

/// The case-producing expression the describe function evaluates: the default
/// loader on the given path, or the captured expression verbatim.
pub open spec fn cases_expr_text(src: CaseSourceV) -> Seq<char> {
    match src {
        CaseSourceV::LoaderPath(p) => "datatest::yaml(\""@ + esc_lit(p) + "\")"@,
        CaseSourceV::Verbatim(t) => t,
    }
}

/// The emitted describe function: evaluates the case source, wraps each case
/// with its name and location kept, and stops the run if no case was found.
pub open spec fn describe_text(fn_name: Seq<char>, src: CaseSourceV, bench: bool) -> Seq<char> {
    "#[allow(non_snake_case)]\nfn "@ + describe_ident(fn_name)
        + "() -> Vec<::datatest::DataTestCaseDesc<::datatest::DataTestFn>> {\n    let result = "@
        + cases_expr_text(src)
        + "\n        .into_iter()\n        .map(|input| {\n            let case = input.case;\n            ::datatest::DataTestCaseDesc {\n                case: "@
        + case_ctor_text(fn_name, bench)
        + ",\n                name: input.name,\n                location: input.location,\n            }\n        })\n        .collect::<Vec<_>>();\n    assert!(!result.is_empty(), \"no test cases were found!\");\n    result\n}\n"@
}

/// Renders the describe function.
pub fn describe_fn_body(fn_name: &String, src: &crate::annot::CaseSource, bench: bool) -> (r:
    String)
    ensures
        r@ == describe_text(fn_name@, src@, bench),
{
    let mut out = String::from_str("#[allow(non_snake_case)]\nfn ");
    let de = describe_ident_text(fn_name);
    out.append(de.as_str());
    out.append("() -> Vec<::datatest::DataTestCaseDesc<::datatest::DataTestFn>> {\n    let result = ");
    match src {
        crate::annot::CaseSource::LoaderPath(p) => {
            out.append("datatest::yaml(\"");
            let ep = esc_text(p.as_str());
            out.append(ep.as_str());
            out.append("\")");
        },
        crate::annot::CaseSource::Verbatim(t) => {
            out.append(t.as_str());
        },
    }
    out.append(
        "\n        .into_iter()\n        .map(|input| {\n            let case = input.case;\n            ::datatest::DataTestCaseDesc {\n                case: ",
    );
    if bench {
        out.append("::datatest::DataTestFn::BenchFn(Box::new(::datatest::DataBenchFn(");
        let ti = trampoline_ident_text(fn_name);
        out.append(ti.as_str());
        out.append(", case)))");
    } else {
        out.append("::datatest::DataTestFn::TestFn(Box::new(move || ");
        let ti = trampoline_ident_text(fn_name);
        out.append(ti.as_str());
        out.append("(case)))");
    }
    out.append(
        ",\n                name: input.name,\n                location: input.location,\n            }\n        })\n        .collect::<Vec<_>>();\n    assert!(!result.is_empty(), \"no test cases were found!\");\n    result\n}\n",
    );
    proof {
        assert(out@ =~= describe_text(fn_name@, src@, bench));
    }
    out
}

/// The whole emitted unit of one case-driven test: registration glue, the
/// descriptor constant, the trampoline, then the describe function.
pub open spec fn data_output_text(
    channel: Channel,
    fn_name: Seq<char>,
    ignore: bool,
    src: CaseSourceV,
    elem_ty: Seq<char>,
    by_ref: bool,
    bench: bool,
) -> Seq<char> {
    registration_text(channel, fn_name) + data_desc_text(fn_name, ignore) + data_tramp_text(
        fn_name,
        elem_ty,
        by_ref,
        bench,
    ) + describe_text(fn_name, src, bench)
}

/// Renders the whole case-driven unit.
pub fn emit_data_test(
    channel: Channel,
    d: &crate::descriptor::DataTestDesc,
    src: &crate::annot::CaseSource,
    elem_ty: &String,
    by_ref: bool,
) -> (r: String)
    ensures
        r@ == data_output_text(channel, d.name@, d.ignore, src@, elem_ty@, by_ref, d.is_bench),
{
    let mut out = registration(channel, &d.name);
    let dd = data_desc(d);
    out.append(dd.as_str());
    let tt = data_tramp(&d.name, elem_ty, by_ref, d.is_bench);
    out.append(tt.as_str());
    let df = describe_fn_body(&d.name, src, d.is_bench);
    out.append(df.as_str());
    out
}

/// Renders the whole file-driven unit.
pub fn emit_files_test(
    channel: Channel,
    d: &crate::descriptor::FilesTestDesc,
    entries: &Vec<PlanEntry>,
) -> (r: String)
    ensures
        r@ == files_output_text(
            channel,
            d.name@,
            d.ignore,
            d.root@,
            strs_view(d.params@),
            entries_tys(entries@),
            d.pattern as nat,
            crate::rules::opt_view(d.ignore_fn),
            d.is_bench,
        ),
{
    let mut out = registration(channel, &d.name);
    let dd = files_desc(d);
    out.append(dd.as_str());
    let tt = files_tramp(&d.name, entries, d.is_bench);
    out.append(tt.as_str());
    out
}

} // verus!
