//! Generator for a data-driven test harness.
//!
//! Given (a) the text of a file-rule or case-source annotation and (b) the
//! source of the annotated test function, the generator validates the
//! annotation against the function's parameter list and produces the source
//! text of a test descriptor constant, an adapter ("trampoline") function
//! translating the harness's uniform calling convention (`fn(&[PathBuf])`
//! for file-driven tests, one case value for case-driven tests) into the
//! function's concrete parameter types, and registration glue. All failures
//! are generation-time diagnostics bound to the offending source position;
//! the one runtime check the generator owns, the empty-case check of a
//! case-driven descriptor, lives in [`cases`].

use vstd::prelude::*;

pub mod annot;
pub mod cases;
pub mod descriptor;
pub mod emit;
pub mod laws;
pub mod matcher;
pub mod rules;
pub mod sig;
pub mod synsig;
pub mod text;

use crate::annot::{parse_files_annotation, parse_files_annotation_e, parse_data_annotation,
    parse_data_annotation_e, CaseSource, CaseSourceV, skip_ws_s, skip_ws_e};
use crate::descriptor::{build_files_desc, build_data_desc};
use crate::emit::{Channel, emit_files_test, emit_data_test, files_output_text, data_output_text};
use crate::matcher::{MatchError, match_signature, match_spec_error, bshift, plan_exprs, plan_tys,
    pattern_pos_from, spec_ignore_pred, binds_pattern, lemma_pattern_pos_from};
use crate::sig::{FnModel, ParamV, params_view, scan_attrs, strip_markers, strip_markers_e};
use crate::synsig::{analyze_function, check_expr, expr_parses, fn_parses, fn_name_of,
    fn_attrs_of, fn_params_of};
use crate::rules::lookup_rule;
use crate::text::strs_view;

verus! {

/// A generation-time diagnostic, bound to the offending source position.
#[derive(Clone, Copy, PartialEq, Eq, Structural, Debug)]
pub enum GenError {
    /// The annotation text is malformed; the character offset of the failure.
    AnnotationSyntax { offset: usize },
    /// The function source is not a free function item.
    SignatureSyntax,
    /// The parameter at this declared index is not a simple named binding.
    UnexpectedArgument { param_index: usize },
    /// No rule is keyed by the name of the parameter at this declared index.
    UnmappedArgument { param_index: usize },
    /// A second parameter bound a Pattern rule; the offset of that rule's
    /// argument-name token in the annotation text.
    TwoPatterns { offset: usize },
    /// No parameter bound a Pattern rule; reported at the call site.
    NoPatternDefined,
    /// A case-driven function declares no simple case parameter after the
    /// optional benchmark controller.
    MissingCaseParameter,
}

/// The diagnostic's message text.
pub open spec fn message_spec(e: GenError) -> Seq<char> {
    match e {
        GenError::AnnotationSyntax { .. } => "malformed annotation"@,
        GenError::SignatureSyntax => "expected a function item"@,
        GenError::UnexpectedArgument {
            ..
        } => "unexpected argument; only simple argument types are allowed (`&str`, `String`, `&[u8]`, `Vec<u8>`, `&Path`, etc)"@,
        GenError::UnmappedArgument { .. } => "mapping is not defined for the argument"@,
        GenError::TwoPatterns { .. } => "two patterns are not allowed!"@,
        GenError::NoPatternDefined => "must have exactly one pattern mapping defined via `pattern in r#\"<regular expression>\"`"@,
        GenError::MissingCaseParameter => "expected an argument to receive the test case"@,
    }
}

impl GenError {
    /// The diagnostic's message, as its reader sees it.
    pub fn message(&self) -> (m: String)
        ensures
            m@ == message_spec(*self),
    {
        match self {
            GenError::AnnotationSyntax { .. } => String::from_str("malformed annotation"),
            GenError::SignatureSyntax => String::from_str("expected a function item"),
            GenError::UnexpectedArgument { .. } => String::from_str(
                "unexpected argument; only simple argument types are allowed (`&str`, `String`, `&[u8]`, `Vec<u8>`, `&Path`, etc)",
            ),
            GenError::UnmappedArgument { .. } => String::from_str(
                "mapping is not defined for the argument",
            ),
            GenError::TwoPatterns { .. } => String::from_str("two patterns are not allowed!"),
            GenError::NoPatternDefined => String::from_str(
                "must have exactly one pattern mapping defined via `pattern in r#\"<regular expression>\"`",
            ),
            GenError::MissingCaseParameter => String::from_str(
                "expected an argument to receive the test case",
            ),
        }
    }
}

/// The diagnostic a matching failure turns into.
pub open spec fn gen_error_of_match(e: MatchError) -> GenError {
    match e {
        MatchError::UnexpectedArgument { param_index } => GenError::UnexpectedArgument {
            param_index,
        },
        MatchError::UnmappedArgument { param_index } => GenError::UnmappedArgument { param_index },
        MatchError::TwoPatterns { rule_offset } => GenError::TwoPatterns { offset: rule_offset },
        MatchError::NoPattern => GenError::NoPatternDefined,
    }
}

fn map_match_error(e: MatchError) -> (r: GenError)
    ensures
        r == gen_error_of_match(e),
{
    match e {
        MatchError::UnexpectedArgument { param_index } => GenError::UnexpectedArgument {
            param_index,
        },
        MatchError::UnmappedArgument { param_index } => GenError::UnmappedArgument { param_index },
        MatchError::TwoPatterns { rule_offset } => GenError::TwoPatterns { offset: rule_offset },
        MatchError::NoPattern => GenError::NoPatternDefined,
    }
}

/// Everything a file-driven generation run does, as one function of its
/// inputs: parse the annotation, read the decorations, match the signature,
/// and emit registration, descriptor and trampoline; or the first
/// diagnostic.
pub open spec fn spec_files_generate(
    s: Seq<char>,
    fn_name: Seq<char>,
    attrs: Seq<Seq<char>>,
    params: Seq<ParamV>,
    channel: Channel,
) -> Result<Seq<char>, GenError> {
    match parse_files_annotation(s) {
        Result::Err(off) => Result::Err(GenError::AnnotationSyntax { offset: off as usize }),
        Result::Ok(rsv) => {
            let bench = attrs.contains("bench"@);
            let ignore = attrs.contains("ignore"@);
            match match_spec_error(params, rsv.rules, bench) {
                Option::Some(e) => Result::Err(gen_error_of_match(e)),
                Option::None => Result::Ok(
                    files_output_text(
                        channel,
                        fn_name,
                        ignore,
                        rsv.root,
                        plan_exprs(params, rsv.rules, bshift(bench)),
                        plan_tys(params, bshift(bench)),
                        pattern_pos_from(params, rsv.rules, bshift(bench), bshift(bench)) as nat,
                        spec_ignore_pred(params, rsv.rules, bshift(bench)),
                        bench,
                    ),
                ),
            }
        },
    }
}

/// Generates the file-driven unit for one annotated function, already read
/// into the generator's model.
pub fn files_generate(annotation: &str, func: &FnModel, channel: Channel) -> (r: Result<
    String,
    GenError,
>)
    ensures
        match r {
            Result::Ok(out) => spec_files_generate(
                annotation@,
                func.name@,
                strs_view(func.attrs@),
                params_view(func.params@),
                channel,
            ) == Result::Ok::<Seq<char>, GenError>(out@),
            Result::Err(e) => spec_files_generate(
                annotation@,
                func.name@,
                strs_view(func.attrs@),
                params_view(func.params@),
                channel,
            ) == Result::Err::<Seq<char>, GenError>(e),
        },
{
    match parse_files_annotation_e(annotation) {
        Err(off) => Err(GenError::AnnotationSyntax { offset: off }),
        Ok(rs) => {
            let info = scan_attrs(&func.attrs).1;
            match match_signature(&func.params, &rs, info.bench) {
                Err(e) => Err(map_match_error(e)),
                Ok(plan) => {
                    let desc = build_files_desc(&func.name, &info, &rs.root, &plan);
                    let out = emit_files_test(channel, &desc, &plan.entries);
                    proof {
                        let pv = params_view(func.params@);
                        let rv = rs@.rules;
                        let b = bshift(info.bench);
                        let m = plan.entries@.len() as int;
                        assert(crate::matcher::plan_matches(plan, pv, rv, b));
                        assert(m == pv.len() - b);
                        assert(strs_view(desc.params@).len() == m);
                        assert(plan_exprs(pv, rv, b).len() == m);
                        assert(crate::emit::entries_tys(plan.entries@).len() == m);
                        assert(plan_tys(pv, b).len() == m);
                        assert forall|j: int| 0 <= j < m implies #[trigger] strs_view(
                            desc.params@,
                        )[j] == plan_exprs(pv, rv, b)[j] by {
                            assert(plan.entries@[j].ty@ == pv[j + b].ty);
                            assert(strs_view(desc.params@)[j] == plan.entries@[j].expr@);
                            assert(lookup_rule(rv, pv[j + b].name) is Some);
                        }
                        assert forall|j: int| 0 <= j < m implies #[trigger] crate::emit::entries_tys(
                            plan.entries@,
                        )[j] == plan_tys(pv, b)[j] by {
                            assert(plan.entries@[j].ty@ == pv[j + b].ty);
                            assert(crate::emit::entries_tys(plan.entries@)[j]
                                == plan.entries@[j].ty@);
                        }
                        assert(strs_view(desc.params@) =~~= plan_exprs(pv, rv, b));
                        assert(crate::emit::entries_tys(plan.entries@) =~~= plan_tys(pv, b));
                        let pi = plan.pattern_index as int;
                        assert(binds_pattern(pv, rv, pi + b));
                        assert forall|j: int| b <= j < pi + b implies !binds_pattern(
                            pv,
                            rv,
                            j,
                        ) by {
                            assert(!plan.entries@[j - b].is_pattern);
                        }
                        lemma_pattern_pos_from(pv, rv, b, b, pi + b);
                        assert(pattern_pos_from(pv, rv, b, b) == pi);
                    }
                    Ok(out)
                },
            }
        },
    }
}

/// Everything a case-driven generation run does, as one function of its
/// inputs: parse the case source, read the decorations, take the first
/// declared parameter after the optional benchmark controller as the case
/// parameter, and emit registration, descriptor, trampoline and describe
/// function; or the first diagnostic. Parameters beyond the case parameter
/// are not the generator's concern: the emitted call hands the function the
/// one case value.
pub open spec fn spec_data_generate(
    s: Seq<char>,
    fn_name: Seq<char>,
    attrs: Seq<Seq<char>>,
    params: Seq<ParamV>,
    channel: Channel,
) -> Result<Seq<char>, GenError> {
    match parse_data_annotation(s) {
        Result::Err(off) => Result::Err(GenError::AnnotationSyntax { offset: off as usize }),
        Result::Ok(srcv) => {
            let expr_ok = match srcv {
                CaseSourceV::Verbatim(tt) => expr_parses(tt),
                CaseSourceV::LoaderPath(_) => true,
            };
            if !expr_ok {
                Result::Err(GenError::AnnotationSyntax { offset: skip_ws_s(s, 0) as usize })
            } else {
                spec_data_generate_checked(s, fn_name, attrs, params, channel, srcv)
            }
        },
    }
}

/// The case-driven run past the case-source checks.
pub open spec fn spec_data_generate_checked(
    s: Seq<char>,
    fn_name: Seq<char>,
    attrs: Seq<Seq<char>>,
    params: Seq<ParamV>,
    channel: Channel,
    srcv: CaseSourceV,
) -> Result<Seq<char>, GenError> {
    let bench = attrs.contains("bench"@);
    let ignore = attrs.contains("ignore"@);
    let ci = bshift(bench);
    if params.len() <= ci || !params[ci].simple {
        Result::Err(GenError::MissingCaseParameter)
    } else {
        Result::Ok(
            data_output_text(channel, fn_name, ignore, srcv, params[ci].elem, params[ci].by_ref, bench),
        )
    }
}

/// Generates the case-driven unit for one annotated function, already read
/// into the generator's model.
pub fn data_generate(annotation: &str, func: &FnModel, channel: Channel) -> (r: Result<
    String,
    GenError,
>)
    ensures
        match r {
            Result::Ok(out) => spec_data_generate(
                annotation@,
                func.name@,
                strs_view(func.attrs@),
                params_view(func.params@),
                channel,
            ) == Result::Ok::<Seq<char>, GenError>(out@),
            Result::Err(e) => spec_data_generate(
                annotation@,
                func.name@,
                strs_view(func.attrs@),
                params_view(func.params@),
                channel,
            ) == Result::Err::<Seq<char>, GenError>(e),
        },
{
    match parse_data_annotation_e(annotation) {
        Err(off) => Err(GenError::AnnotationSyntax { offset: off }),
        Ok(src) => {
            let expr_ok = match &src {
                CaseSource::Verbatim(tt) => check_expr(tt.as_str()),
                CaseSource::LoaderPath(_) => true,
            };
            if !expr_ok {
                let off = skip_ws_e(annotation, 0);
                return Err(GenError::AnnotationSyntax { offset: off });
            }
            let info = scan_attrs(&func.attrs).1;
            let ci: usize = if info.bench {
                1
            } else {
                0
            };
            if func.params.len() <= ci {
                return Err(GenError::MissingCaseParameter);
            }
            match &func.params[ci] {
                crate::sig::ParamShape::Other => Err(GenError::MissingCaseParameter),
                crate::sig::ParamShape::Simple { name: _, ty: _, by_ref, elem } => {
                    let desc = build_data_desc(&func.name, &info);
                    let out = emit_data_test(channel, &desc, &src, elem, *by_ref);
                    proof {
                        let pv = params_view(func.params@);
                        assert(pv[ci as int].simple);
                        assert(pv[ci as int].elem == elem@);
                        assert(pv[ci as int].by_ref == *by_ref);
                    }
                    Ok(out)
                },
            }
        },
    }
}

/// Generates a file-driven unit from the annotation text and the annotated
/// function's source, for one registration strategy: the whole emitted unit
/// is the generated glue followed by the function itself, re-emitted with
/// its recognized decorations removed. The annotation is parsed first; the
/// function source then goes through the `syn` boundary.
fn files_entry(args: &str, func_src: &str, channel: Channel) -> (r: Result<String, GenError>)
    ensures
        match parse_files_annotation(args@) {
            Result::Err(off) => r == Result::Err::<String, GenError>(
                GenError::AnnotationSyntax { offset: off as usize },
            ),
            Result::Ok(_) => {
                if fn_parses(func_src@) {
                    match (spec_files_generate(
                        args@,
                        fn_name_of(func_src@),
                        fn_attrs_of(func_src@),
                        fn_params_of(func_src@),
                        channel,
                    ), r) {
                        (Result::Ok(tt), Result::Ok(out)) => out@ == tt + strip_markers(func_src@),
                        (Result::Err(e1), Result::Err(e2)) => e2 == e1,
                        _ => false,
                    }
                } else {
                    r == Result::Err::<String, GenError>(GenError::SignatureSyntax)
                }
            },
        },
{
    match parse_files_annotation_e(args) {
        Err(off) => Err(GenError::AnnotationSyntax { offset: off }),
        Ok(_) => match analyze_function(func_src) {
            None => Err(GenError::SignatureSyntax),
            Some(fm) => match files_generate(args, &fm, channel) {
                Err(e) => Err(e),
                Ok(glue) => {
                    let mut out = glue;
                    let tail = strip_markers_e(func_src);
                    out.append(tail.as_str());
                    Ok(out)
                },
            },
        },
    }
}

/// Generates a case-driven unit from the annotation text and the annotated
/// function's source, for one registration strategy; the whole emitted unit
/// is the generated glue followed by the function itself, re-emitted with
/// its recognized decorations removed.
fn data_entry(args: &str, func_src: &str, channel: Channel) -> (r: Result<String, GenError>)
    ensures
        match parse_data_annotation(args@) {
            Result::Err(off) => r == Result::Err::<String, GenError>(
                GenError::AnnotationSyntax { offset: off as usize },
            ),
            Result::Ok(_) => {
                if fn_parses(func_src@) {
                    match (spec_data_generate(
                        args@,
                        fn_name_of(func_src@),
                        fn_attrs_of(func_src@),
                        fn_params_of(func_src@),
                        channel,
                    ), r) {
                        (Result::Ok(tt), Result::Ok(out)) => out@ == tt + strip_markers(func_src@),
                        (Result::Err(e1), Result::Err(e2)) => e2 == e1,
                        _ => false,
                    }
                } else {
                    r == Result::Err::<String, GenError>(GenError::SignatureSyntax)
                }
            },
        },
{
    match parse_data_annotation_e(args) {
        Err(off) => Err(GenError::AnnotationSyntax { offset: off }),
        Ok(_) => match analyze_function(func_src) {
            None => Err(GenError::SignatureSyntax),
            Some(fm) => match data_generate(args, &fm, channel) {
                Err(e) => Err(e),
                Ok(glue) => {
                    let mut out = glue;
                    let tail = strip_markers_e(func_src);
                    out.append(tail.as_str());
                    Ok(out)
                },
            },
        },
    }
}

/// File-driven generation under the stable registration strategy: the
/// result is exactly the annotation diagnostic, the signature diagnostic,
/// or the generated unit with the re-emitted function, as
/// [`spec_files_generate`] and [`strip_markers`] fix it.
pub fn files_stable(args: &str, func_src: &str) -> (r: Result<String, GenError>)
    ensures
        match parse_files_annotation(args@) {
            Result::Err(off) => r == Result::Err::<String, GenError>(
                GenError::AnnotationSyntax { offset: off as usize },
            ),
            Result::Ok(_) => {
                if fn_parses(func_src@) {
                    match (spec_files_generate(
                        args@,
                        fn_name_of(func_src@),
                        fn_attrs_of(func_src@),
                        fn_params_of(func_src@),
                        Channel::Stable,
                    ), r) {
                        (Result::Ok(tt), Result::Ok(out)) => out@ == tt + strip_markers(func_src@),
                        (Result::Err(e1), Result::Err(e2)) => e2 == e1,
                        _ => false,
                    }
                } else {
                    r == Result::Err::<String, GenError>(GenError::SignatureSyntax)
                }
            },
        },
{
    files_entry(args, func_src, Channel::Stable)
}

/// File-driven generation under the nightly registration strategy; the
/// result is fixed as for [`files_stable`], under its channel.
pub fn files_nightly(args: &str, func_src: &str) -> (r: Result<String, GenError>)
    ensures
        match parse_files_annotation(args@) {
            Result::Err(off) => r == Result::Err::<String, GenError>(
                GenError::AnnotationSyntax { offset: off as usize },
            ),
            Result::Ok(_) => {
                if fn_parses(func_src@) {
                    match (spec_files_generate(
                        args@,
                        fn_name_of(func_src@),
                        fn_attrs_of(func_src@),
                        fn_params_of(func_src@),
                        Channel::Nightly,
                    ), r) {
                        (Result::Ok(tt), Result::Ok(out)) => out@ == tt + strip_markers(func_src@),
                        (Result::Err(e1), Result::Err(e2)) => e2 == e1,
                        _ => false,
                    }
                } else {
                    r == Result::Err::<String, GenError>(GenError::SignatureSyntax)
                }
            },
        },
{
    files_entry(args, func_src, Channel::Nightly)
}

/// Case-driven generation under the stable registration strategy; the
/// result is exactly the annotation diagnostic, the signature diagnostic,
/// or the generated unit with the re-emitted function, as
/// [`spec_data_generate`] and [`strip_markers`] fix it.
pub fn data_stable(args: &str, func_src: &str) -> (r: Result<String, GenError>)
    ensures
        match parse_data_annotation(args@) {
            Result::Err(off) => r == Result::Err::<String, GenError>(
                GenError::AnnotationSyntax { offset: off as usize },
            ),
            Result::Ok(_) => {
                if fn_parses(func_src@) {
                    match (spec_data_generate(
                        args@,
                        fn_name_of(func_src@),
                        fn_attrs_of(func_src@),
                        fn_params_of(func_src@),
                        Channel::Stable,
                    ), r) {
                        (Result::Ok(tt), Result::Ok(out)) => out@ == tt + strip_markers(func_src@),
                        (Result::Err(e1), Result::Err(e2)) => e2 == e1,
                        _ => false,
                    }
                } else {
                    r == Result::Err::<String, GenError>(GenError::SignatureSyntax)
                }
            },
        },
{
    data_entry(args, func_src, Channel::Stable)
}

/// Case-driven generation under the nightly registration strategy; the
/// result is fixed as for [`data_stable`], under its channel.
pub fn data_nightly(args: &str, func_src: &str) -> (r: Result<String, GenError>)
    ensures
        match parse_data_annotation(args@) {
            Result::Err(off) => r == Result::Err::<String, GenError>(
                GenError::AnnotationSyntax { offset: off as usize },
            ),
            Result::Ok(_) => {
                if fn_parses(func_src@) {
                    match (spec_data_generate(
                        args@,
                        fn_name_of(func_src@),
                        fn_attrs_of(func_src@),
                        fn_params_of(func_src@),
                        Channel::Nightly,
                    ), r) {
                        (Result::Ok(tt), Result::Ok(out)) => out@ == tt + strip_markers(func_src@),
                        (Result::Err(e1), Result::Err(e2)) => e2 == e1,
                        _ => false,
                    }
                } else {
                    r == Result::Err::<String, GenError>(GenError::SignatureSyntax)
                }
            },
        },
{
    data_entry(args, func_src, Channel::Nightly)
}

} // verus!
