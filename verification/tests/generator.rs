use datatest_gen::annot::{parse_data_annotation_e, parse_files_annotation_e, CaseSource};
use datatest_gen::cases::{wrap_cases, CaseInput, CaseRun};
use datatest_gen::descriptor::build_files_desc;
use datatest_gen::emit::{dec_text, esc_text, Channel};
use datatest_gen::matcher::{match_signature, MatchError};
use datatest_gen::sig::{scan_attrs, FnModel, FuncInfo, ParamShape};
use datatest_gen::{
    data_generate, data_nightly, data_stable, files_generate, files_nightly, files_stable,
    GenError,
};

fn simple(name: &str, ty: &str) -> ParamShape {
    ParamShape::Simple {
        name: name.to_string(),
        ty: ty.to_string(),
        by_ref: ty.starts_with('&'),
        elem: ty.trim_start_matches('&').trim_start().to_string(),
    }
}

fn model(name: &str, attrs: &[&str], params: Vec<ParamShape>) -> FnModel {
    FnModel {
        name: name.to_string(),
        attrs: attrs.iter().map(|a| a.to_string()).collect(),
        params,
    }
}

#[test]
fn single_pattern_plan() {
    let rs = parse_files_annotation_e("\"tests\", { input in r\"(.*)\\.in\" }").unwrap();
    let params = vec![simple("input", "& str")];
    let plan = match_signature(&params, &rs, false).unwrap();
    assert_eq!(plan.entries.len(), 1);
    assert_eq!(plan.pattern_index, 0);
    assert_eq!(plan.entries[0].expr, "(.*)\\.in");
    assert!(plan.entries[0].is_pattern);
    assert_eq!(plan.entries[0].source_index, 0);
}

#[test]
fn zero_patterns_fails_at_call_site() {
    let rs = parse_files_annotation_e("\"tests\", { a = \"x\", b = \"y\" }").unwrap();
    let params = vec![simple("a", "& str"), simple("b", "& str")];
    let err = match_signature(&params, &rs, false).unwrap_err();
    assert_eq!(err, MatchError::NoPattern);
}

#[test]
fn two_patterns_fail_at_second_rule_token() {
    let annotation = "\"tests\", { a in \"x\", b in \"y\" }";
    let rs = parse_files_annotation_e(annotation).unwrap();
    let params = vec![simple("a", "& str"), simple("b", "& str")];
    let err = match_signature(&params, &rs, false).unwrap_err();
    let expected_offset = annotation.find('b').unwrap();
    assert_eq!(
        err,
        MatchError::TwoPatterns {
            rule_offset: expected_offset
        }
    );
}

#[test]
fn unmapped_argument_fails_wherever_it_stands() {
    let rs = parse_files_annotation_e("\"tests\", { a in \"x\" }").unwrap();
    let params = vec![simple("a", "& str"), simple("missing", "& str")];
    let err = match_signature(&params, &rs, false).unwrap_err();
    assert_eq!(err, MatchError::UnmappedArgument { param_index: 1 });

    let params_front = vec![simple("missing", "& str"), simple("a", "& str")];
    let err2 = match_signature(&params_front, &rs, false).unwrap_err();
    assert_eq!(err2, MatchError::UnmappedArgument { param_index: 0 });
}

#[test]
fn non_simple_parameter_is_unexpected() {
    let rs = parse_files_annotation_e("\"tests\", { a in \"x\" }").unwrap();
    let params = vec![ParamShape::Other, simple("a", "& str")];
    let err = match_signature(&params, &rs, false).unwrap_err();
    assert_eq!(err, MatchError::UnexpectedArgument { param_index: 0 });
}

#[test]
fn bench_first_parameter_is_excluded() {
    let rs = parse_files_annotation_e("\"tests\", { input in \"x\", out = \"y\" }").unwrap();
    let params = vec![
        simple("bencher", "& mut Bencher"),
        simple("input", "& str"),
        simple("out", "& str"),
    ];
    let plan = match_signature(&params, &rs, true).unwrap();
    assert_eq!(plan.entries.len(), 2);
    // the second declared parameter stands at plan position 0
    assert_eq!(plan.entries[0].source_index, 1);
    assert_eq!(plan.pattern_index, 0);
}

#[test]
fn descriptor_params_track_declaration_order() {
    let annotation = "\"tests\", { input in r\"(.*)\\.in\", output = \"${1}.out\" }";
    let reordered = "\"tests\", { output = \"${1}.out\", input in r\"(.*)\\.in\" }";
    let params = vec![simple("input", "& str"), simple("output", "& str")];
    let info = FuncInfo {
        ignore: false,
        bench: false,
    };
    let name = "run".to_string();

    let rs1 = parse_files_annotation_e(annotation).unwrap();
    let plan1 = match_signature(&params, &rs1, false).unwrap();
    let d1 = build_files_desc(&name, &info, &rs1.root, &plan1);

    let rs2 = parse_files_annotation_e(reordered).unwrap();
    let plan2 = match_signature(&params, &rs2, false).unwrap();
    let d2 = build_files_desc(&name, &info, &rs2.root, &plan2);

    assert_eq!(d1.params, vec!["(.*)\\.in".to_string(), "${1}.out".to_string()]);
    assert_eq!(d1.pattern, 0);
    assert_eq!(d1.params, d2.params);
    assert_eq!(d1.pattern, d2.pattern);
    assert_eq!(d1.root, d2.root);
    assert_eq!(d1.name, d2.name);
}

#[test]
fn ignore_predicate_is_kept_on_the_pattern() {
    let rs = parse_files_annotation_e("\"tests\", { a in \"x\" if !my::pred }").unwrap();
    let params = vec![simple("a", "& str")];
    let plan = match_signature(&params, &rs, false).unwrap();
    assert_eq!(plan.ignore_pred.as_deref(), Some("my::pred"));

    let func = model("run", &[], vec![simple("a", "& str")]);
    let out = files_generate(
        "\"tests\", { a in \"x\" if !my::pred }",
        &func,
        Channel::Nightly,
    )
    .unwrap();
    assert!(out.contains("ignorefn: Some(my::pred),"));
}

#[test]
fn later_rule_for_same_name_replaces_earlier() {
    let rs = parse_files_annotation_e("\"tests\", { a = \"1\", a in \"2\" }").unwrap();
    let params = vec![simple("a", "& str")];
    let plan = match_signature(&params, &rs, false).unwrap();
    assert_eq!(plan.entries[0].expr, "2");
    assert!(plan.entries[0].is_pattern);
}

#[test]
fn annotation_accepts_trailing_comma_and_ws() {
    let rs = parse_files_annotation_e("  \"root/dir\" , {\n  a in \"x\" ,\n }  ").unwrap();
    assert_eq!(rs.root, "root/dir");
    assert_eq!(rs.rules.len(), 1);
    assert_eq!(rs.rules[0].name, "a");
}

#[test]
fn annotation_cooked_escapes() {
    let rs = parse_files_annotation_e("\"a\\\"b\\\\c\\n\", { x in \"p\" }").unwrap();
    assert_eq!(rs.root, "a\"b\\c\n");
}

#[test]
fn annotation_rejects_unknown_escape() {
    let text = "\"a\\qb\", { x in \"p\" }";
    let err = parse_files_annotation_e(text).unwrap_err();
    assert_eq!(err, text.find("\\q").unwrap());
}

#[test]
fn annotation_rejects_unterminated_string() {
    assert!(parse_files_annotation_e("\"abc").is_err());
}

#[test]
fn annotation_rejects_missing_braces() {
    assert!(parse_files_annotation_e("\"abc\", a in \"x\"").is_err());
}

#[test]
fn data_annotation_literal_and_expression() {
    match parse_data_annotation_e(" \"cases.yaml\" ").unwrap() {
        CaseSource::LoaderPath(p) => assert_eq!(p, "cases.yaml"),
        CaseSource::Verbatim(_) => panic!("expected a loader path"),
    }
    match parse_data_annotation_e("  my_cases(1, 2)  ").unwrap() {
        CaseSource::Verbatim(t) => assert_eq!(t, "my_cases(1, 2)"),
        CaseSource::LoaderPath(_) => panic!("expected a verbatim expression"),
    }
    assert!(parse_data_annotation_e("   ").is_err());
}

#[test]
fn scan_attrs_strips_first_of_each_marker() {
    let attrs: Vec<String> = ["test", "bench", "ignore", "other", "test"]
        .iter()
        .map(|a| a.to_string())
        .collect();
    let (rest, info) = scan_attrs(&attrs);
    assert_eq!(rest, vec!["other".to_string(), "test".to_string()]);
    assert!(info.bench);
    assert!(info.ignore);

    let plain: Vec<String> = vec!["test".to_string()];
    let (rest2, info2) = scan_attrs(&plain);
    assert!(rest2.is_empty());
    assert!(!info2.bench);
    assert!(!info2.ignore);
}

#[test]
fn empty_case_source_fails() {
    let none: Vec<CaseInput<u32>> = Vec::new();
    assert!(wrap_cases(none, false).is_err());
}

#[test]
fn cases_are_wrapped_with_names_and_locations_kept() {
    let inputs = vec![
        CaseInput {
            case: 7u32,
            name: "seven".to_string(),
            location: "cases.yaml:1".to_string(),
        },
        CaseInput {
            case: 9u32,
            name: "nine".to_string(),
            location: "cases.yaml:2".to_string(),
        },
    ];
    let wrapped = wrap_cases(inputs, false).unwrap();
    assert_eq!(wrapped.len(), 2);
    assert_eq!(wrapped[0].name, "seven");
    assert_eq!(wrapped[0].location, "cases.yaml:1");
    assert!(matches!(wrapped[0].case, CaseRun::TestCase(7)));
    assert_eq!(wrapped[1].name, "nine");
    assert!(matches!(wrapped[1].case, CaseRun::TestCase(9)));

    let bench_inputs = vec![CaseInput {
        case: 1u32,
        name: "one".to_string(),
        location: "here".to_string(),
    }];
    let bench_wrapped = wrap_cases(bench_inputs, true).unwrap();
    assert!(matches!(bench_wrapped[0].case, CaseRun::BenchCase(1)));
}

#[test]
fn files_generate_emits_the_whole_unit() {
    let func = model("run", &[], vec![simple("input", "& str")]);
    let out = files_generate("\"tests\", { input in r\"x\" }", &func, Channel::Nightly).unwrap();
    let expected: String = [
        "#[test_case]",
        "#[allow(non_upper_case_globals)]",
        "const __TEST_run: ::datatest::FilesTestDesc = ::datatest::FilesTestDesc {",
        "    name: concat!(module_path!(), \"::\", \"run\"),",
        "    ignore: false,",
        "    root: \"tests\",",
        "    params: &[\"x\"],",
        "    pattern: 0,",
        "    ignorefn: None,",
        "    testfn: ::datatest::FilesTestFn::TestFn(__TEST_TRAMPOLINE_run),",
        "};",
        "#[allow(non_snake_case)]",
        "fn __TEST_TRAMPOLINE_run(paths_arg: &[::std::path::PathBuf]) {",
        "    let result = run(::datatest::TakeArg::take(&mut <& str as ::datatest::DeriveArg>::derive(&paths_arg[0])));",
        "    ::datatest::assert_test_result(result);",
        "}",
        "",
    ]
    .join("\n");
    assert_eq!(out, expected);
}

#[test]
fn files_generate_escapes_params_and_counts_positions() {
    let func = model("t", &[], vec![simple("a", "String"), simple("b", "String")]);
    let out = files_generate(
        "\"d\", { a in r\"(.*)\\.in\", b = \"${1}.out\" }",
        &func,
        Channel::Nightly,
    )
    .unwrap();
    assert!(out.contains("params: &[\"(.*)\\\\.in\", \"${1}.out\"],"));
    assert!(out.contains("pattern: 0,"));
    assert!(out.contains("&paths_arg[1]"));
}

#[test]
fn files_generate_stable_emits_registration_function() {
    let func = model("run", &[], vec![simple("input", "& str")]);
    let out = files_generate("\"tests\", { input in r\"x\" }", &func, Channel::Stable).unwrap();
    assert!(out.starts_with("#[allow(non_snake_case)]\npub fn __TEST_run__REGISTRATION"));
    assert!(out.contains("registry.add(&__TEST_run);"));
    assert!(!out.contains("#[test_case]"));
}

#[test]
fn files_generate_bench_threads_the_controller() {
    let func = model(
        "b",
        &["bench"],
        vec![simple("bencher", "& mut Bencher"), simple("input", "& str")],
    );
    let out = files_generate("\"d\", { input in \"x\" }", &func, Channel::Nightly).unwrap();
    assert!(out.contains("testfn: ::datatest::FilesTestFn::BenchFn(__TEST_TRAMPOLINE_b),"));
    assert!(out.contains("fn __TEST_TRAMPOLINE_b(bencher: &mut ::datatest::Bencher, paths_arg"));
    assert!(out.contains("let result = b(bencher, "));
}

#[test]
fn ignore_attribute_reaches_the_descriptor() {
    let func = model("run", &["ignore"], vec![simple("input", "& str")]);
    let out = files_generate("\"tests\", { input in \"x\" }", &func, Channel::Nightly).unwrap();
    assert!(out.contains("    ignore: true,\n"));
}

#[test]
fn files_generate_reports_match_errors() {
    let func = model("run", &[], vec![simple("input", "& str")]);
    let err = files_generate("\"tests\", { other in \"x\" }", &func, Channel::Nightly).unwrap_err();
    assert_eq!(err, GenError::UnmappedArgument { param_index: 0 });
    assert_eq!(err.message(), "mapping is not defined for the argument");

    let err2 = files_generate("\"tests\", { input = \"x\" }", &func, Channel::Nightly).unwrap_err();
    assert_eq!(err2, GenError::NoPatternDefined);
    assert_eq!(
        err2.message(),
        "must have exactly one pattern mapping defined via `pattern in r#\"<regular expression>\"`"
    );
}

#[test]
fn files_generate_reports_annotation_errors() {
    let func = model("run", &[], vec![simple("input", "& str")]);
    let err = files_generate("\"tests\" { input in \"x\" }", &func, Channel::Nightly).unwrap_err();
    assert!(matches!(err, GenError::AnnotationSyntax { .. }));
    assert_eq!(err.message(), "malformed annotation");
}

#[test]
fn two_pattern_message_matches() {
    let func = model("run", &[], vec![simple("a", "& str"), simple("b", "& str")]);
    let annotation = "\"tests\", { a in \"x\", b in \"y\" }";
    let err = files_generate(annotation, &func, Channel::Nightly).unwrap_err();
    assert_eq!(
        err,
        GenError::TwoPatterns {
            offset: annotation.find('b').unwrap()
        }
    );
    assert_eq!(err.message(), "two patterns are not allowed!");
}

#[test]
fn unexpected_argument_message_matches() {
    let func = model("run", &[], vec![ParamShape::Other]);
    let err = files_generate("\"tests\", { a in \"x\" }", &func, Channel::Nightly).unwrap_err();
    assert_eq!(err, GenError::UnexpectedArgument { param_index: 0 });
    assert_eq!(
        err.message(),
        "unexpected argument; only simple argument types are allowed (`&str`, `String`, `&[u8]`, `Vec<u8>`, `&Path`, etc)"
    );
}

#[test]
fn data_generate_with_loader_path() {
    let func = model("t", &[], vec![simple("case", "& MyCase")]);
    let out = data_generate("\"cases.yaml\"", &func, Channel::Nightly).unwrap();
    assert!(out.contains("describefn: __TEST_DESCRIBE_t,"));
    assert!(out.contains("let result = datatest::yaml(\"cases.yaml\")\n"));
    assert!(out.contains("fn __TEST_TRAMPOLINE_t(arg: MyCase) {\n"));
    assert!(out.contains("let result = t(&arg);"));
    assert!(out.contains("assert!(!result.is_empty(), \"no test cases were found!\");"));
    assert!(out.contains("::datatest::DataTestFn::TestFn(Box::new(move || __TEST_TRAMPOLINE_t(case)))"));
}

#[test]
fn data_generate_with_expression_and_owned_case() {
    let func = model("t", &[], vec![simple("case", "MyCase")]);
    let out = data_generate("my_cases()", &func, Channel::Nightly).unwrap();
    assert!(out.contains("let result = my_cases()\n"));
    assert!(out.contains("fn __TEST_TRAMPOLINE_t(arg: MyCase) {\n"));
    assert!(out.contains("let result = t(arg);"));
}

#[test]
fn data_generate_bench_wraps_bench_case() {
    let func = model(
        "t",
        &["bench"],
        vec![simple("bencher", "& mut Bencher"), simple("case", "MyCase")],
    );
    let out = data_generate("src()", &func, Channel::Nightly).unwrap();
    assert!(out.contains("::datatest::DataTestFn::BenchFn(Box::new(::datatest::DataBenchFn(__TEST_TRAMPOLINE_t, case)))"));
    assert!(out.contains("fn __TEST_TRAMPOLINE_t(bencher: &mut ::datatest::Bencher, arg: MyCase)"));
}

#[test]
fn data_generate_requires_a_case_parameter() {
    let func = model("t", &[], vec![]);
    let err = data_generate("src()", &func, Channel::Nightly).unwrap_err();
    assert_eq!(err, GenError::MissingCaseParameter);
    assert_eq!(err.message(), "expected an argument to receive the test case");
}

#[test]
fn entry_points_parse_real_function_sources() {
    let out = files_nightly(
        "\"tests\", { input in r\"(.*)\\.in\", output = \"${1}.out\" }",
        "fn run(input: &str, output: &str) {}",
    )
    .unwrap();
    assert!(out.contains("params: &[\"(.*)\\\\.in\", \"${1}.out\"],"));
    assert!(out.contains("pattern: 0,"));

    let out2 = files_stable(
        "\"tests\", { input in r\"x\" }",
        "#[test]\nfn checked(input: String) -> std::io::Result<()> { Ok(()) }",
    )
    .unwrap();
    assert!(out2.contains("pub fn __TEST_checked__REGISTRATION"));
    assert!(out2.contains("<String as ::datatest::DeriveArg>::derive"));
}

#[test]
fn entry_points_read_attributes_and_references() {
    let out = data_stable(
        "\"cases.yaml\"",
        "#[ignore]\nfn t(case: &MyCase) {}",
    )
    .unwrap();
    assert!(out.contains("    ignore: true,\n"));
    assert!(out.contains("fn __TEST_TRAMPOLINE_t(arg: MyCase)"));
    assert!(out.contains("let result = t(&arg);"));

    let out2 = data_nightly("case_list()", "fn t(case: u32) {}").unwrap();
    assert!(out2.starts_with("#[test_case]\n"));
    assert!(out2.contains("fn __TEST_TRAMPOLINE_t(arg: u32)"));
    assert!(out2.contains("let result = t(arg);"));

    let err = data_nightly("\"cases.yaml\"", "struct NotAFn;").unwrap_err();
    assert_eq!(err, GenError::SignatureSyntax);
    assert_eq!(err.message(), "expected a function item");
}

#[test]
fn entry_points_reject_destructured_parameters() {
    let err = files_nightly(
        "\"tests\", { a in \"x\" }",
        "fn run((a, b): (u8, u8)) {}",
    )
    .unwrap_err();
    assert_eq!(err, GenError::UnexpectedArgument { param_index: 0 });
}

#[test]
fn keyword_rule_names_are_rejected() {
    assert!(parse_files_annotation_e("\"t\", { in in \"x\" }").is_err());
    assert!(parse_files_annotation_e("\"t\", { if = \"x\" }").is_err());
}

#[test]
fn predicate_path_keeps_all_segments() {
    let rs =
        parse_files_annotation_e("\"t\", { a in \"x\" if !crate_a :: helpers::skip , b = \"y\" }")
            .unwrap();
    let pattern = rs.rules.iter().find(|r| r.is_pattern).unwrap();
    assert_eq!(pattern.ignore_pred.as_deref(), Some("crate_a::helpers::skip"));
    assert_eq!(rs.rules.len(), 2);
}

#[test]
fn template_rule_refuses_ignore_predicate() {
    assert!(parse_files_annotation_e("\"t\", { a = \"x\" if !p, b in \"y\" }").is_err());
}

#[test]
fn empty_rule_list_has_no_pattern() {
    let rs = parse_files_annotation_e("\"t\", { }").unwrap();
    let params: Vec<ParamShape> = Vec::new();
    let err = match_signature(&params, &rs, false).unwrap_err();
    assert_eq!(err, MatchError::NoPattern);
}

#[test]
fn non_ascii_text_is_carried_through() {
    let rs = parse_files_annotation_e("\"données\", { a in \"déjà\" }").unwrap();
    assert_eq!(rs.root, "données");
    assert_eq!(rs.rules[0].expr, "déjà");
}

#[test]
fn raw_strings_take_hash_guards() {
    let rs = parse_files_annotation_e("\"t\", { a in r#\"say \\\"hi\\\"\"# }").unwrap();
    assert_eq!(rs.rules[0].expr, "say \\\"hi\\\"");

    // the no-pattern diagnostic's own recommended syntax is accepted
    let rs2 = parse_files_annotation_e("\"t\", { pattern in r#\"<regular expression>\"# }").unwrap();
    assert_eq!(rs2.rules[0].expr, "<regular expression>");
    assert!(rs2.rules[0].is_pattern);

    let rs3 = parse_files_annotation_e("\"t\", { a in r##\"x\"# y\"## }").unwrap();
    assert_eq!(rs3.rules[0].expr, "x\"# y");

    assert!(parse_files_annotation_e("\"t\", { a in r#\"never closed\" }").is_err());
}

#[test]
fn quote_escape_in_cooked_strings() {
    let rs = parse_files_annotation_e("\"a\\'b\", { x in \"p\" }").unwrap();
    assert_eq!(rs.root, "a'b");
}

#[test]
fn entry_output_re_emits_the_stripped_function() {
    let out = files_nightly("\"tests\", { input in r\"x\" }", "fn run(input: &str) {}").unwrap();
    let expected: String = [
        "#[test_case]",
        "#[allow(non_upper_case_globals)]",
        "const __TEST_run: ::datatest::FilesTestDesc = ::datatest::FilesTestDesc {",
        "    name: concat!(module_path!(), \"::\", \"run\"),",
        "    ignore: false,",
        "    root: \"tests\",",
        "    params: &[\"x\"],",
        "    pattern: 0,",
        "    ignorefn: None,",
        "    testfn: ::datatest::FilesTestFn::TestFn(__TEST_TRAMPOLINE_run),",
        "};",
        "#[allow(non_snake_case)]",
        "fn __TEST_TRAMPOLINE_run(paths_arg: &[::std::path::PathBuf]) {",
        "    let result = run(::datatest::TakeArg::take(&mut <& str as ::datatest::DeriveArg>::derive(&paths_arg[0])));",
        "    ::datatest::assert_test_result(result);",
        "}",
        "fn run(input: &str) {}",
    ]
    .join("\n");
    assert_eq!(out, expected);
}

#[test]
fn markers_are_stripped_from_the_re_emitted_function() {
    let out = files_stable(
        "\"tests\", { input in r\"x\" }",
        "#[ignore]\n#[test]\nfn run(input: &str) {}",
    )
    .unwrap();
    assert!(out.ends_with("\nfn run(input: &str) {}"));
    assert!(!out.contains("#[ignore]"));
    assert!(!out.contains("#[test]\n"));
    assert!(out.contains("    ignore: true,\n"));

    // other attributes are kept, and only the first marker of each kind goes
    let out2 = data_nightly(
        "cases()",
        "#[test]\n#[allow(dead_code)]\n#[test]\nfn t(case: u32) {}",
    )
    .unwrap();
    assert!(out2.ends_with("\n#[allow(dead_code)]\n#[test]\nfn t(case: u32) {}"));
}

#[test]
fn malformed_case_expression_is_a_generation_diagnostic() {
    let func = model("t", &[], vec![simple("case", "u32")]);
    let err = data_generate("][ oops", &func, Channel::Nightly).unwrap_err();
    assert_eq!(err, GenError::AnnotationSyntax { offset: 0 });

    let err2 = data_nightly("  ][ oops", "fn t(case: u32) {}").unwrap_err();
    assert_eq!(err2, GenError::AnnotationSyntax { offset: 2 });

    assert!(data_nightly("my_cases(1 + 2)", "fn t(case: u32) {}").is_ok());
}

#[test]
fn emitted_text_helpers() {
    assert_eq!(dec_text(0), "0");
    assert_eq!(dec_text(120), "120");
    assert_eq!(esc_text("a\"b\\c\nd"), "a\\\"b\\\\c\\nd");
}
