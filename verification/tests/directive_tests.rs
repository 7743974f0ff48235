use cargo_emit::emit::pair;
use cargo_emit::helpers::{
    rerun_if_changed, rerun_if_env_changed, rustc_cdylib_link_arg, rustc_cfg, rustc_env,
    rustc_flags, rustc_link_arg, rustc_link_arg_bin, rustc_link_arg_bins, rustc_link_lib,
    rustc_link_search, warning,
};
use cargo_emit::sink::Sink;
use cargo_emit::template::{resolve_template, FmtArg};

fn no_args() -> Vec<FmtArg> {
    Vec::new()
}

#[test]
fn pair_single_literal() {
    let mut output = Sink::capture();
    pair(&mut output, "KEY", "VALUE", &no_args());
    assert_eq!(output.captured(), "cargo:KEY=VALUE\n");
}

#[test]
fn pair_single_with_key_formatted_by_index() {
    let mut output = Sink::capture();
    pair(&mut output, "{}", "VALUE", &vec![FmtArg::positional("KEY")]);
    assert_eq!(output.captured(), "cargo:KEY=VALUE\n");
}

#[test]
fn pair_single_with_key_formatted_by_name() {
    let mut output = Sink::capture();
    pair(&mut output, "{key}", "VALUE", &vec![FmtArg::named("key", "KEY")]);
    assert_eq!(output.captured(), "cargo:KEY=VALUE\n");
}

#[test]
fn pair_single_with_value_formatted_by_index() {
    let mut output = Sink::capture();
    pair(&mut output, "KEY", "{}", &vec![FmtArg::positional("VALUE")]);
    assert_eq!(output.captured(), "cargo:KEY=VALUE\n");
}

#[test]
fn pair_single_with_value_formatted_by_name() {
    let mut output = Sink::capture();
    pair(&mut output, "KEY", "{value}", &vec![FmtArg::named("value", "VALUE")]);
    assert_eq!(output.captured(), "cargo:KEY=VALUE\n");
}

#[test]
fn pair_single_with_key_and_value_formatted_by_index() {
    let mut output = Sink::capture();
    pair(
        &mut output,
        "{}",
        "{}",
        &vec![FmtArg::positional("KEY"), FmtArg::positional("VALUE")],
    );
    assert_eq!(output.captured(), "cargo:KEY=VALUE\n");
}

#[test]
fn pair_single_with_key_and_value_formatted_by_name() {
    let mut output = Sink::capture();
    pair(
        &mut output,
        "{key}",
        "{value}",
        &vec![FmtArg::named("key", "KEY"), FmtArg::named("value", "VALUE")],
    );
    assert_eq!(output.captured(), "cargo:KEY=VALUE\n");
}

#[test]
fn rerun_if_changed_single_literal() {
    let mut output = Sink::capture();
    rerun_if_changed(&mut output, &vec!["/path/to/resource".to_string()]);
    assert_eq!(output.captured(), "cargo:rerun-if-changed=/path/to/resource\n");
}

#[test]
fn single_expression() {
    let mut output = Sink::capture();
    let path = std::path::PathBuf::from("/path/to/resource");
    rerun_if_changed(&mut output, &vec![format!("{}", path.display())]);
    assert_eq!(output.captured(), "cargo:rerun-if-changed=/path/to/resource\n");
}

#[test]
fn multiple_literals() {
    let mut output = Sink::capture();
    rerun_if_changed(
        &mut output,
        &vec![
            "/path/to/resource1".to_string(),
            "/path/to/resource2".to_string(),
            "/path/to/resource3".to_string(),
            "/path/to/resource4".to_string(),
        ],
    );
    assert_eq!(
        output.captured(),
        "cargo:rerun-if-changed=/path/to/resource1\n\
         cargo:rerun-if-changed=/path/to/resource2\n\
         cargo:rerun-if-changed=/path/to/resource3\n\
         cargo:rerun-if-changed=/path/to/resource4\n"
    );
}

#[test]
fn multiple_expressions() {
    let mut output = Sink::capture();
    let paths: Vec<String> = vec![
        format!("{}", std::path::PathBuf::from("/path/to/resource1").display()),
        format!("{}", std::path::PathBuf::from("/path/to/resource2").display()),
        format!("{}", std::path::PathBuf::from("/path/to/resource3").display()),
        format!("{}", std::path::PathBuf::from("/path/to/resource4").display()),
    ];
    rerun_if_changed(&mut output, &paths);
    assert_eq!(
        output.captured(),
        "cargo:rerun-if-changed=/path/to/resource1\n\
         cargo:rerun-if-changed=/path/to/resource2\n\
         cargo:rerun-if-changed=/path/to/resource3\n\
         cargo:rerun-if-changed=/path/to/resource4\n"
    );
}

#[test]
fn multiple_mixed() {
    let mut output = Sink::capture();
    let paths: Vec<String> = vec![
        "/path/to/resource1".to_string(),
        format!("{}", std::path::PathBuf::from("/path/to/resource2").display()),
        "/path/to/resource3".to_string(),
        format!("{}", std::path::PathBuf::from("/path/to/resource4").display()),
    ];
    rerun_if_changed(&mut output, &paths);
    assert_eq!(
        output.captured(),
        "cargo:rerun-if-changed=/path/to/resource1\n\
         cargo:rerun-if-changed=/path/to/resource2\n\
         cargo:rerun-if-changed=/path/to/resource3\n\
         cargo:rerun-if-changed=/path/to/resource4\n"
    );
}

#[test]
fn rerun_if_env_changed_single() {
    let mut output = Sink::capture();
    rerun_if_env_changed(&mut output, &vec!["KEY".to_string()]);
    assert_eq!(output.captured(), "cargo:rerun-if-env-changed=KEY\n");
}

#[test]
fn rerun_if_env_changed_multiple() {
    let mut output = Sink::capture();
    rerun_if_env_changed(
        &mut output,
        &vec!["KEY1".to_string(), "KEY2".to_string(), "KEY3".to_string()],
    );
    assert_eq!(
        output.captured(),
        "cargo:rerun-if-env-changed=KEY1\n\
         cargo:rerun-if-env-changed=KEY2\n\
         cargo:rerun-if-env-changed=KEY3\n"
    );
}

#[test]
fn rustc_cdylib_link_arg_single() {
    let mut output = Sink::capture();
    rustc_cdylib_link_arg(&mut output, &vec!["ARG".to_string()]);
    assert_eq!(output.captured(), "cargo:rustc-cdylib-link-arg=ARG\n");
}

#[test]
fn rustc_cdylib_link_arg_multiple() {
    let mut output = Sink::capture();
    rustc_cdylib_link_arg(&mut output, &vec!["ARG1".to_string(), "ARG2".to_string()]);
    assert_eq!(
        output.captured(),
        "cargo:rustc-cdylib-link-arg=ARG1\ncargo:rustc-cdylib-link-arg=ARG2\n"
    );
}

#[test]
fn literal() {
    let mut output = Sink::capture();
    rustc_cfg(&mut output, "CFG", &no_args());
    assert_eq!(output.captured(), "cargo:rustc-cfg=CFG\n");
}

#[test]
fn formatted() {
    let mut output = Sink::capture();
    rustc_cfg(&mut output, "{}", &vec![FmtArg::positional("CFG")]);
    assert_eq!(output.captured(), "cargo:rustc-cfg=CFG\n");
}

#[test]
fn rustc_env_single_literal() {
    let mut output = Sink::capture();
    rustc_env(&mut output, "KEY", "VALUE", &no_args());
    assert_eq!(output.captured(), "cargo:rustc-env=KEY=VALUE\n");
}

#[test]
fn rustc_env_single_with_key_formatted_by_index() {
    let mut output = Sink::capture();
    rustc_env(&mut output, "{}", "VALUE", &vec![FmtArg::positional("KEY")]);
    assert_eq!(output.captured(), "cargo:rustc-env=KEY=VALUE\n");
}

#[test]
fn rustc_env_single_with_key_formatted_by_name() {
    let mut output = Sink::capture();
    rustc_env(&mut output, "{key}", "VALUE", &vec![FmtArg::named("key", "KEY")]);
    assert_eq!(output.captured(), "cargo:rustc-env=KEY=VALUE\n");
}

#[test]
fn rustc_env_single_with_value_formatted_by_index() {
    let mut output = Sink::capture();
    rustc_env(&mut output, "KEY", "{}", &vec![FmtArg::positional("VALUE")]);
    assert_eq!(output.captured(), "cargo:rustc-env=KEY=VALUE\n");
}

#[test]
fn rustc_env_single_with_value_formatted_by_name() {
    let mut output = Sink::capture();
    rustc_env(&mut output, "KEY", "{value}", &vec![FmtArg::named("value", "VALUE")]);
    assert_eq!(output.captured(), "cargo:rustc-env=KEY=VALUE\n");
}

#[test]
fn rustc_env_single_with_key_and_value_formatted_by_index() {
    let mut output = Sink::capture();
    rustc_env(
        &mut output,
        "{}",
        "{}",
        &vec![FmtArg::positional("KEY"), FmtArg::positional("VALUE")],
    );
    assert_eq!(output.captured(), "cargo:rustc-env=KEY=VALUE\n");
}

#[test]
fn rustc_env_single_with_key_and_value_formatted_by_name() {
    let mut output = Sink::capture();
    rustc_env(
        &mut output,
        "{key}",
        "{value}",
        &vec![FmtArg::named("key", "KEY"), FmtArg::named("value", "VALUE")],
    );
    assert_eq!(output.captured(), "cargo:rustc-env=KEY=VALUE\n");
}

#[test]
fn rustc_flags_single() {
    let mut output = Sink::capture();
    rustc_flags(&mut output, &vec!["FLAG".to_string()]);
    assert_eq!(output.captured(), "cargo:rustc-flags=FLAG\n");
}

#[test]
fn rustc_flags_multiple() {
    let mut output = Sink::capture();
    rustc_flags(&mut output, &vec!["FLAG1".to_string(), "FLAG2".to_string()]);
    assert_eq!(
        output.captured(),
        "cargo:rustc-flags=FLAG1\ncargo:rustc-flags=FLAG2\n"
    );
}

#[test]
fn rustc_link_arg_single() {
    let mut output = Sink::capture();
    rustc_link_arg(&mut output, &vec!["ARG".to_string()]);
    assert_eq!(output.captured(), "cargo:rustc-link-arg=ARG\n");
}

#[test]
fn rustc_link_arg_multiple() {
    let mut output = Sink::capture();
    rustc_link_arg(&mut output, &vec!["ARG1".to_string(), "ARG2".to_string()]);
    assert_eq!(
        output.captured(),
        "cargo:rustc-link-arg=ARG1\ncargo:rustc-link-arg=ARG2\n"
    );
}

#[test]
fn rustc_link_arg_bin_single() {
    let mut output = Sink::capture();
    rustc_link_arg_bin(&mut output, &vec![("BIN".to_string(), "FLAGS".to_string())]);
    assert_eq!(output.captured(), "cargo:rustc-link-arg-bin=BIN=FLAGS\n");
}

#[test]
fn rustc_link_arg_bin_multiple() {
    let mut output = Sink::capture();
    rustc_link_arg_bin(
        &mut output,
        &vec![
            ("BIN1".to_string(), "FLAGS1".to_string()),
            ("BIN2".to_string(), "FLAGS2".to_string()),
        ],
    );
    assert_eq!(
        output.captured(),
        "cargo:rustc-link-arg-bin=BIN1=FLAGS1\ncargo:rustc-link-arg-bin=BIN2=FLAGS2\n"
    );
}

#[test]
fn rustc_link_arg_bins_single() {
    let mut output = Sink::capture();
    rustc_link_arg_bins(&mut output, &vec!["ARG".to_string()]);
    assert_eq!(output.captured(), "cargo:rustc-link-arg-bins=ARG\n");
}

#[test]
fn rustc_link_arg_bins_multiple() {
    let mut output = Sink::capture();
    rustc_link_arg_bins(&mut output, &vec!["ARG1".to_string(), "ARG2".to_string()]);
    assert_eq!(
        output.captured(),
        "cargo:rustc-link-arg-bins=ARG1\ncargo:rustc-link-arg-bins=ARG2\n"
    );
}

#[test]
fn rustc_link_lib_single_name_literal() {
    let mut output = Sink::capture();
    rustc_link_lib(&mut output, &vec![("NAME".to_string(), None)]);
    assert_eq!(output.captured(), "cargo:rustc-link-lib=NAME\n");
}

#[test]
fn rustc_link_lib_single_name_expression() {
    let mut output = Sink::capture();
    let name = "NAME";
    rustc_link_lib(&mut output, &vec![(name.to_string(), None)]);
    assert_eq!(output.captured(), "cargo:rustc-link-lib=NAME\n");
}

#[test]
fn rustc_link_lib_single_name_literal_with_kind() {
    let mut output = Sink::capture();
    rustc_link_lib(&mut output, &vec![("NAME".to_string(), Some("KIND".to_string()))]);
    assert_eq!(output.captured(), "cargo:rustc-link-lib=KIND=NAME\n");
}

#[test]
fn rustc_link_lib_single_name_expression_with_kind() {
    let mut output = Sink::capture();
    let name = "NAME";
    let kind = "KIND";
    rustc_link_lib(&mut output, &vec![(name.to_string(), Some(kind.to_string()))]);
    assert_eq!(output.captured(), "cargo:rustc-link-lib=KIND=NAME\n");
}

#[test]
fn rustc_link_lib_multiple_name_expression_with_kind() {
    let mut output = Sink::capture();
    let name2 = "NAME2";
    let kind2 = "KIND2";
    rustc_link_lib(
        &mut output,
        &vec![
            ("NAME1".to_string(), Some("KIND1".to_string())),
            (name2.to_string(), Some(kind2.to_string())),
        ],
    );
    assert_eq!(
        output.captured(),
        "cargo:rustc-link-lib=KIND1=NAME1\ncargo:rustc-link-lib=KIND2=NAME2\n"
    );
}

#[test]
fn rustc_link_search_single_name_literal() {
    let mut output = Sink::capture();
    rustc_link_search(&mut output, &vec![("PATH".to_string(), None)]);
    assert_eq!(output.captured(), "cargo:rustc-link-search=PATH\n");
}

#[test]
fn rustc_link_search_single_name_expression() {
    let mut output = Sink::capture();
    let path = "PATH";
    rustc_link_search(&mut output, &vec![(path.to_string(), None)]);
    assert_eq!(output.captured(), "cargo:rustc-link-search=PATH\n");
}

#[test]
fn rustc_link_search_single_name_literal_with_kind() {
    let mut output = Sink::capture();
    rustc_link_search(&mut output, &vec![("PATH".to_string(), Some("KIND".to_string()))]);
    assert_eq!(output.captured(), "cargo:rustc-link-search=KIND=PATH\n");
}

#[test]
fn rustc_link_search_single_name_expression_with_kind() {
    let mut output = Sink::capture();
    let path = "PATH";
    let kind = "KIND";
    rustc_link_search(&mut output, &vec![(path.to_string(), Some(kind.to_string()))]);
    assert_eq!(output.captured(), "cargo:rustc-link-search=KIND=PATH\n");
}

#[test]
fn rustc_link_search_multiple_name_expression_with_kind() {
    let mut output = Sink::capture();
    let path2 = "PATH2";
    let kind2 = "KIND2";
    rustc_link_search(
        &mut output,
        &vec![
            ("PATH1".to_string(), Some("KIND1".to_string())),
            (path2.to_string(), Some(kind2.to_string())),
        ],
    );
    assert_eq!(
        output.captured(),
        "cargo:rustc-link-search=KIND1=PATH1\ncargo:rustc-link-search=KIND2=PATH2\n"
    );
}

#[test]
fn warning_single_literal() {
    let mut output = Sink::capture();
    warning(&mut output, "WARNING", &no_args());
    assert_eq!(output.captured(), "cargo:warning=WARNING\n");
}

#[test]
fn single_formatted_by_index() {
    let mut output = Sink::capture();
    warning(&mut output, "{}", &vec![FmtArg::positional("WARNING")]);
    assert_eq!(output.captured(), "cargo:warning=WARNING\n");
}

#[test]
fn single_formatted_by_key() {
    let mut output = Sink::capture();
    warning(&mut output, "{warning}", &vec![FmtArg::named("warning", "WARNING")]);
    assert_eq!(output.captured(), "cargo:warning=WARNING\n");
}

#[test]
fn link_library_kind_examples() {
    let mut output = Sink::capture();
    rustc_link_lib(&mut output, &vec![("ssl".to_string(), None)]);
    assert_eq!(output.captured(), "cargo:rustc-link-lib=ssl\n");
    let mut qualified = Sink::capture();
    rustc_link_lib(&mut qualified, &vec![("ruby".to_string(), Some("static".to_string()))]);
    assert_eq!(qualified.captured(), "cargo:rustc-link-lib=static=ruby\n");
}

#[test]
fn compiler_env_assign_build_hash() {
    let mut output = Sink::capture();
    rustc_env(&mut output, "BUILD_HASH", "{}", &vec![FmtArg::positional("abc123")]);
    assert_eq!(output.captured(), "cargo:rustc-env=BUILD_HASH=abc123\n");
}

#[test]
fn template_escaped_braces() {
    let resolved = resolve_template("a{{b}}c", &no_args());
    assert_eq!(resolved.as_deref(), Some("a{b}c"));
}

#[test]
fn template_missing_positional_argument() {
    assert!(resolve_template("{}", &no_args()).is_none());
}

#[test]
fn template_missing_named_argument() {
    assert!(resolve_template("{key}", &vec![FmtArg::named("other", "X")]).is_none());
}

#[test]
fn template_unmatched_brace() {
    assert!(resolve_template("{key", &vec![FmtArg::named("key", "X")]).is_none());
    assert!(resolve_template("}", &no_args()).is_none());
}

#[test]
fn template_mixed_positional_and_named() {
    let resolved = resolve_template(
        "{}-{mid}-{}",
        &vec![
            FmtArg::positional("A"),
            FmtArg::positional("C"),
            FmtArg::named("mid", "B"),
        ],
    );
    assert_eq!(resolved.as_deref(), Some("A-B-C"));
}

#[test]
fn stdout_sink_writes_without_capturing() {
    let mut output = Sink::stdout();
    pair(&mut output, "KEY", "VALUE", &no_args());
    assert_eq!(output.captured(), "");
}
