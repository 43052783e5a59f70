use marginalia::options::{
    assignment_of, choose_file, flag_of, parse_cli_options, CliOptions, LaunchField,
};

fn args(tokens: &[&str]) -> Vec<String> {
    tokens.iter().map(|t| t.to_string()).collect()
}

fn some(text: &str) -> Option<String> {
    Some(text.to_string())
}

#[test]
fn open_selects_the_following_operand() {
    let options = parse_cli_options(&args(&["app", "open", "doc.md"]));
    assert_eq!(options.file_path, some("doc.md"));
    assert_eq!(options.bundle_dir, None);
    assert_eq!(options.principles_path, None);
    assert_eq!(options.out_path, None);
}

#[test]
fn open_wins_over_earlier_and_later_operands() {
    let options = parse_cli_options(&args(&["app", "first", "open", "wanted", "last"]));
    assert_eq!(options.file_path, some("wanted"));
}

#[test]
fn first_open_counts_when_open_is_repeated() {
    let options = parse_cli_options(&args(&["app", "open", "a", "open", "b"]));
    assert_eq!(options.file_path, some("a"));
    let options = parse_cli_options(&args(&["app", "open", "open", "b"]));
    assert_eq!(options.file_path, some("open"));
}

#[test]
fn open_reaches_over_flags_to_the_next_operand() {
    let options = parse_cli_options(&args(&["app", "open", "--verbose", "--out", "o", "doc.md"]));
    assert_eq!(options.file_path, some("doc.md"));
    assert_eq!(options.out_path, some("o"));
}

#[test]
fn open_at_the_end_selects_nothing() {
    let options = parse_cli_options(&args(&["app", "open"]));
    assert_eq!(options.file_path, None);
    let options = parse_cli_options(&args(&["app", "notes.md", "open"]));
    assert_eq!(options.file_path, None);
    let options = parse_cli_options(&args(&["app", "notes.md", "open", "--out=x"]));
    assert_eq!(options.file_path, None);
    assert_eq!(options.out_path, some("x"));
}

#[test]
fn first_operand_is_the_file_without_open() {
    let options = parse_cli_options(&args(&["app", "one.md", "two.md"]));
    assert_eq!(options.file_path, some("one.md"));
    let options = parse_cli_options(&args(&["app", "--verbose", "one.md"]));
    assert_eq!(options.file_path, some("one.md"));
}

#[test]
fn no_operand_gives_no_file() {
    let options = parse_cli_options(&args(&["app"]));
    assert_eq!(options, CliOptions::new());
    let options = parse_cli_options(&args(&["app", "--out", "x", "--verbose"]));
    assert_eq!(options.file_path, None);
    assert_eq!(options.out_path, some("x"));
}

#[test]
fn empty_argument_vector_gives_empty_options() {
    let options = parse_cli_options(&[]);
    assert_eq!(options, CliOptions::new());
    assert_eq!(CliOptions::default(), CliOptions::new());
}

#[test]
fn program_name_is_skipped() {
    let options = parse_cli_options(&args(&["open", "doc.md"]));
    assert_eq!(options.file_path, some("doc.md"));
    let options = parse_cli_options(&args(&["--out=x"]));
    assert_eq!(options.out_path, None);
}

#[test]
fn both_forms_of_bundle_dir_agree() {
    let joint = parse_cli_options(&args(&["app", "--bundle-dir=/tmp/x"]));
    let spaced = parse_cli_options(&args(&["app", "--bundle-dir", "/tmp/x"]));
    assert_eq!(joint.bundle_dir, some("/tmp/x"));
    assert_eq!(spaced.bundle_dir, some("/tmp/x"));
    assert_eq!(joint, spaced);
}

#[test]
fn both_forms_of_principles_and_out_agree() {
    let joint = parse_cli_options(&args(&["app", "--principles=p.md", "--out=o.md", "doc"]));
    let spaced = parse_cli_options(&args(&["app", "--principles", "p.md", "--out", "o.md", "doc"]));
    assert_eq!(joint.principles_path, some("p.md"));
    assert_eq!(joint.out_path, some("o.md"));
    assert_eq!(joint.file_path, some("doc"));
    assert_eq!(joint, spaced);
}

#[test]
fn trailing_out_is_dropped() {
    let options = parse_cli_options(&args(&["app", "doc.md", "--out"]));
    assert_eq!(options.out_path, None);
    assert_eq!(options.file_path, some("doc.md"));
    let options = parse_cli_options(&args(&["app", "--out", "first", "--out"]));
    assert_eq!(options.out_path, some("first"));
}

#[test]
fn trailing_bundle_dir_and_principles_are_dropped() {
    let options = parse_cli_options(&args(&["app", "--bundle-dir"]));
    assert_eq!(options, CliOptions::new());
    let options = parse_cli_options(&args(&["app", "--principles"]));
    assert_eq!(options, CliOptions::new());
}

#[test]
fn unknown_flags_change_nothing() {
    let plain = parse_cli_options(&args(&["app", "--bundle-dir", "b", "open", "doc.md", "--out=o"]));
    let noisy = parse_cli_options(&args(&[
        "app", "--verbose", "--bundle-dir", "b", "-x", "open", "--trace=3", "doc.md", "-", "--out=o",
        "--",
    ]));
    assert_eq!(plain, noisy);
    assert_eq!(noisy.bundle_dir, some("b"));
    assert_eq!(noisy.file_path, some("doc.md"));
    assert_eq!(noisy.out_path, some("o"));
}

#[test]
fn unknown_flag_takes_no_value() {
    let options = parse_cli_options(&args(&["app", "--verbose", "doc.md"]));
    assert_eq!(options.file_path, some("doc.md"));
}

#[test]
fn unknown_flag_behind_a_waiting_flag_is_its_value() {
    let options = parse_cli_options(&args(&["app", "--out", "--verbose", "x"]));
    assert_eq!(options.out_path, some("--verbose"));
    assert_eq!(options.file_path, some("x"));
}

#[test]
fn later_value_replaces_earlier() {
    let options = parse_cli_options(&args(&["app", "--out", "a", "--out=b", "--out", "c"]));
    assert_eq!(options.out_path, some("c"));
    let options = parse_cli_options(&args(&["app", "--out=b", "--out", "c", "--out=d"]));
    assert_eq!(options.out_path, some("d"));
}

#[test]
fn empty_inline_value_is_kept() {
    let options = parse_cli_options(&args(&["app", "--principles="]));
    assert_eq!(options.principles_path, some(""));
}

#[test]
fn similar_flags_are_unknown() {
    let options = parse_cli_options(&args(&["app", "--output", "x", "--bundle-dirs=y", "--Out=z"]));
    assert_eq!(options.out_path, None);
    assert_eq!(options.bundle_dir, None);
    assert_eq!(options.file_path, some("x"));
}

#[test]
fn non_ascii_tokens_are_kept_whole() {
    let options = parse_cli_options(&args(&["app", "--out=é/ü.md", "open", "日本語.md"]));
    assert_eq!(options.out_path, some("é/ü.md"));
    assert_eq!(options.file_path, some("日本語.md"));
}

#[test]
fn flag_of_knows_the_three_flags() {
    assert_eq!(flag_of("--bundle-dir"), Some(LaunchField::BundleDir));
    assert_eq!(flag_of("--principles"), Some(LaunchField::PrinciplesPath));
    assert_eq!(flag_of("--out"), Some(LaunchField::OutPath));
    assert_eq!(flag_of("--out="), None);
    assert_eq!(flag_of("out"), None);
    assert_eq!(flag_of(""), None);
}

#[test]
fn assignment_of_splits_at_the_equals_sign() {
    assert_eq!(assignment_of("--bundle-dir=/tmp/x"), Some((LaunchField::BundleDir, "/tmp/x")));
    assert_eq!(assignment_of("--principles=a=b"), Some((LaunchField::PrinciplesPath, "a=b")));
    assert_eq!(assignment_of("--out="), Some((LaunchField::OutPath, "")));
    assert_eq!(assignment_of("--out"), None);
    assert_eq!(assignment_of("--other=1"), None);
}

#[test]
fn choose_file_follows_the_operands() {
    assert_eq!(choose_file(&args(&[])), None);
    assert_eq!(choose_file(&args(&["a", "b"])), some("a"));
    assert_eq!(choose_file(&args(&["a", "open", "b"])), some("b"));
    assert_eq!(choose_file(&args(&["a", "open"])), None);
}

#[test]
fn with_value_sets_one_field() {
    let options = CliOptions::new().with_value(LaunchField::OutPath, "o".to_string());
    assert_eq!(options.out_path, some("o"));
    assert_eq!(options.bundle_dir, None);
    let options = options.with_value(LaunchField::BundleDir, "b".to_string());
    let options = options.with_value(LaunchField::PrinciplesPath, "p".to_string());
    assert_eq!(options.out_path, some("o"));
    assert_eq!(options.bundle_dir, some("b"));
    assert_eq!(options.principles_path, some("p"));
    assert_eq!(options.file_path, None);
}
