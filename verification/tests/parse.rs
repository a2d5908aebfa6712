use cliparse::{parse, Command, ParseError, Parser, SubCommand};

fn args(raw: &[&str]) -> Vec<String> {
    raw.iter().map(|s| s.to_string()).collect()
}

#[test]
fn path_only() {
    let p = parse(&args(&["p"])).unwrap();
    assert_eq!(p.get_path(), "p");
    assert_eq!(p.get_command().len(), 0);
    assert_eq!(p.get_args().len(), 0);
}

#[test]
fn succeeds_when_command_precedes_subcommand() {
    let p = parse(&args(&["p", "-a", "x", "--v", "y", "-b", "--w:1"]));
    assert!(p.is_ok());
}

#[test]
fn orphan_subcommand_fails() {
    let e = parse(&args(&["p", "--x"])).unwrap_err();
    match &e {
        ParseError::OrphanSubCommand(t) => assert_eq!(t, "--x"),
    }
    assert_eq!(e.token(), "--x");
}

#[test]
fn orphan_subcommand_fails_after_plain_tokens() {
    let e = parse(&args(&["p", "foo", "bar", "--x:1"])).unwrap_err();
    assert_eq!(e.token(), "--x:1");
}

#[test]
fn duplicate_commands_are_kept() {
    let p = parse(&args(&["p", "-a", "-a"])).unwrap();
    let cmds = p.get_command();
    assert_eq!(cmds.len(), 2);
    assert_eq!(cmds[0].get_command(), "a");
    assert_eq!(cmds[1].get_command(), "a");
}

#[test]
fn duplicate_subcommands_merge() {
    let p = parse(&args(&["p", "-a", "--x:1", "--x:2"])).unwrap();
    let cmds = p.get_command();
    assert_eq!(cmds.len(), 1);
    let subs = cmds[0].get_sub_command();
    assert_eq!(subs.len(), 1);
    assert_eq!(subs[0].get_command(), "x");
    assert_eq!(subs[0].get_args(), &args(&["1", "2"]));
}

#[test]
fn split_at_first_separator() {
    let p = parse(&args(&["p", "-a", "--x=1:2"])).unwrap();
    let subs = p.get_command()[0].get_sub_command();
    assert_eq!(subs.len(), 1);
    assert_eq!(subs[0].get_command(), "x");
    assert_eq!(subs[0].get_args(), &args(&["1:2"]));
}

#[test]
fn colon_before_equals_splits_at_colon() {
    let p = parse(&args(&["p", "-a", "--x:1=2"])).unwrap();
    let subs = p.get_command()[0].get_sub_command();
    assert_eq!(subs[0].get_command(), "x");
    assert_eq!(subs[0].get_args(), &args(&["1=2"]));
}

#[test]
fn plain_tokens_before_any_command_go_to_the_top() {
    let p = parse(&args(&["p", "foo", "-a", "bar"])).unwrap();
    assert_eq!(p.get_args(), &args(&["foo"]));
    let cmds = p.get_command();
    assert_eq!(cmds.len(), 1);
    assert_eq!(cmds[0].get_command(), "a");
    assert_eq!(cmds[0].get_args(), &args(&["bar"]));
}

#[test]
fn bare_flag_redeclaration_is_idempotent() {
    let p = parse(&args(&["p", "-a", "--v", "--v"])).unwrap();
    let subs = p.get_command()[0].get_sub_command();
    assert_eq!(subs.len(), 1);
    assert_eq!(subs[0].get_command(), "v");
    assert_eq!(subs[0].get_args().len(), 0);
}

#[test]
fn full_invocation_round_trip() {
    let p = parse(&args(&[
        "/bin/prog",
        "hello",
        "-build",
        "--target:release",
        "file.txt",
        "-test",
        "--verbose",
    ]))
    .unwrap();
    assert_eq!(p.get_path(), "/bin/prog");
    assert_eq!(p.get_args(), &args(&["hello"]));
    let cmds = p.get_command();
    assert_eq!(cmds.len(), 2);
    assert_eq!(cmds[0].get_command(), "build");
    assert_eq!(cmds[0].get_args(), &args(&["file.txt"]));
    let build_subs = cmds[0].get_sub_command();
    assert_eq!(build_subs.len(), 1);
    assert_eq!(build_subs[0].get_command(), "target");
    assert_eq!(build_subs[0].get_args(), &args(&["release"]));
    assert_eq!(cmds[1].get_command(), "test");
    assert_eq!(cmds[1].get_args().len(), 0);
    let test_subs = cmds[1].get_sub_command();
    assert_eq!(test_subs.len(), 1);
    assert_eq!(test_subs[0].get_command(), "verbose");
    assert_eq!(test_subs[0].get_args().len(), 0);
}

#[test]
fn lone_dash_is_a_command_with_empty_name() {
    let p = parse(&args(&["p", "-"])).unwrap();
    let cmds = p.get_command();
    assert_eq!(cmds.len(), 1);
    assert_eq!(cmds[0].get_command(), "");
}

#[test]
fn lone_double_dash_is_a_subcommand_with_empty_name() {
    let p = parse(&args(&["p", "-a", "--"])).unwrap();
    let subs = p.get_command()[0].get_sub_command();
    assert_eq!(subs.len(), 1);
    assert_eq!(subs[0].get_command(), "");
    assert_eq!(subs[0].get_args().len(), 0);
}

#[test]
fn lone_double_dash_without_command_fails() {
    let e = parse(&args(&["p", "--"])).unwrap_err();
    assert_eq!(e.token(), "--");
}

#[test]
fn separator_first_gives_empty_subcommand_name() {
    let p = parse(&args(&["p", "-a", "--=v"])).unwrap();
    let subs = p.get_command()[0].get_sub_command();
    assert_eq!(subs.len(), 1);
    assert_eq!(subs[0].get_command(), "");
    assert_eq!(subs[0].get_args(), &args(&["v"]));
}

#[test]
fn trailing_separator_gives_empty_value() {
    let p = parse(&args(&["p", "-a", "--x:"])).unwrap();
    let subs = p.get_command()[0].get_sub_command();
    assert_eq!(subs[0].get_command(), "x");
    assert_eq!(subs[0].get_args(), &args(&[""]));
}

#[test]
fn plain_token_after_subcommand_goes_to_the_command() {
    let p = parse(&args(&["p", "-a", "--v", "tail"])).unwrap();
    let cmds = p.get_command();
    assert_eq!(cmds[0].get_args(), &args(&["tail"]));
    assert_eq!(cmds[0].get_sub_command()[0].get_args().len(), 0);
}

#[test]
fn later_duplicate_command_is_the_active_one() {
    let p = parse(&args(&["p", "-a", "x", "-a", "y"])).unwrap();
    let cmds = p.get_command();
    assert_eq!(cmds.len(), 2);
    assert_eq!(cmds[0].get_args(), &args(&["x"]));
    assert_eq!(cmds[1].get_args(), &args(&["y"]));
}

#[test]
fn empty_string_is_a_plain_token() {
    let p = parse(&args(&["p", "", "-a", ""])).unwrap();
    assert_eq!(p.get_args(), &args(&[""]));
    assert_eq!(p.get_command()[0].get_args(), &args(&[""]));
}

#[test]
fn get_command_by_name_finds_the_first_match() {
    let p = parse(&args(&["p", "-a", "x", "-b", "-a", "y"])).unwrap();
    let c = p.get_command_by_name("a".to_string()).unwrap();
    assert_eq!(c.get_command(), "a");
    assert_eq!(c.get_args(), &args(&["x"]));
    assert!(p.get_command_by_name("missing".to_string()).is_none());
}

#[test]
fn get_sub_command_by_name_finds_the_match() {
    let p = parse(&args(&["p", "-a", "--x:1", "--y:2"])).unwrap();
    let c = p.get_command_by_name("a".to_string()).unwrap();
    let sc = c.get_sub_command_by_name("y".to_string()).unwrap();
    assert_eq!(sc.get_command(), "y");
    assert_eq!(sc.get_args(), &args(&["2"]));
    assert!(c.get_sub_command_by_name("z".to_string()).is_none());
}

#[test]
fn tree_can_be_built_by_hand() {
    let mut p = Parser::new("prog".to_string());
    p.add_arg("top".to_string());
    let mut c = Command::new("run".to_string());
    c.add_arg("file".to_string());
    let mut sc = SubCommand::new("level".to_string());
    sc.add_arg("3".to_string());
    c.add_sub_command(sc);
    p.add_command(c);
    assert_eq!(p.get_path(), "prog");
    assert_eq!(p.get_args(), &args(&["top"]));
    assert_eq!(p.get_command()[0].get_command(), "run");
    assert_eq!(p.get_command()[0].get_sub_command()[0].get_args(), &args(&["3"]));
}
