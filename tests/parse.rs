use bshell::{
    extract_simple, get_command_list, parse, split_at_separator, split_whitespace, Command,
    CommandListType,
};

fn line(s: &str) -> String {
    String::from(s)
}

fn simple_parts(c: &Command) -> (String, Vec<String>, bool) {
    match c {
        Command::SimpleCommand(sc) => (sc.command.clone(), sc.args.clone(), sc.background),
        _ => panic!("not a simple command"),
    }
}

#[test]
fn parse_strips_terminator_and_reads_simple_command() {
    let mut s = line("ls -l\n");
    let c = parse(&mut s);
    assert_eq!(s, "ls -l");
    let (cmd, args, bg) = simple_parts(&c);
    assert_eq!(cmd, "ls");
    assert_eq!(args, vec!["ls".to_string(), "-l".to_string()]);
    assert!(!bg);
}

#[test]
fn parse_empty_line_is_no_command() {
    let mut s = line("\n");
    assert!(matches!(parse(&mut s), Command::NoCommand));
    let mut blank = line("   \t \n");
    assert!(matches!(parse(&mut blank), Command::NoCommand));
    let mut nothing = String::new();
    assert!(matches!(parse(&mut nothing), Command::NoCommand));
    assert_eq!(nothing, "");
}

#[test]
fn parse_keeps_a_last_character_that_is_not_a_newline() {
    let mut s = line("ab");
    let (cmd, args, _) = simple_parts(&parse(&mut s));
    assert_eq!(s, "ab");
    assert_eq!(cmd, "ab");
    assert_eq!(args, vec!["ab".to_string()]);
}

#[test]
fn split_with_empty_separator_cuts_at_every_character() {
    assert_eq!(split_at_separator("abc", ""), "abc".split("").collect::<Vec<&str>>());
    assert_eq!(split_at_separator("abc", ""), vec!["", "a", "b", "c", ""]);
    assert_eq!(split_at_separator("", ""), vec!["", ""]);
    let list = get_command_list("ab", "");
    assert_eq!(list.len(), 2);
    assert_eq!(list[0].command, "a");
    assert_eq!(list[1].args, vec!["b".to_string()]);
}

#[test]
fn parse_background_command() {
    let mut s = line("sleep &\n");
    let (cmd, args, bg) = simple_parts(&parse(&mut s));
    assert_eq!(cmd, "sleep");
    assert_eq!(args, vec!["sleep".to_string()]);
    assert!(bg);

    let mut t = line("xterm -e  &  \n");
    let (cmd, args, bg) = simple_parts(&parse(&mut t));
    assert_eq!(cmd, "xterm");
    assert_eq!(args, vec!["xterm".to_string(), "-e".to_string()]);
    assert!(bg);
}

#[test]
fn parse_ampersand_without_space_is_not_background() {
    let mut s = line("sleep&\n");
    let (cmd, args, bg) = simple_parts(&parse(&mut s));
    assert_eq!(cmd, "sleep&");
    assert_eq!(args, vec!["sleep&".to_string()]);
    assert!(!bg);
}

#[test]
fn parse_and_chain() {
    let mut s = line("true && false&&echo hi \n");
    match parse(&mut s) {
        Command::CommandList(cl) => {
            assert_eq!(cl.kind, CommandListType::AND);
            assert_eq!(cl.commands.len(), 3);
            assert_eq!(cl.commands[0].command, "true");
            assert_eq!(cl.commands[1].command, "false");
            assert_eq!(cl.commands[2].command, "echo");
            assert_eq!(cl.commands[2].args, vec!["echo".to_string(), "hi".to_string()]);
            assert!(cl.commands.iter().all(|c| !c.background));
        }
        _ => panic!("expected a chain"),
    }
}

#[test]
fn parse_pipe_and_or_chains() {
    let mut p = line("echo hello | cat\n");
    match parse(&mut p) {
        Command::CommandList(cl) => {
            assert_eq!(cl.kind, CommandListType::PIPE);
            assert_eq!(cl.commands.len(), 2);
            assert_eq!(cl.commands[0].args, vec!["echo".to_string(), "hello".to_string()]);
            assert_eq!(cl.commands[1].args, vec!["cat".to_string()]);
        }
        _ => panic!("expected a pipeline"),
    }
    let mut o = line("false || true || echo x\n");
    match parse(&mut o) {
        Command::CommandList(cl) => {
            assert_eq!(cl.kind, CommandListType::OR);
            assert_eq!(cl.commands.len(), 3);
        }
        _ => panic!("expected an or-chain"),
    }
}

#[test]
fn parse_leading_space_or_digits_fall_back_to_words() {
    let mut s = line(" a && b\n");
    let (cmd, args, _) = simple_parts(&parse(&mut s));
    assert_eq!(cmd, "a");
    assert_eq!(args, vec!["a".to_string(), "&&".to_string(), "b".to_string()]);

    let mut t = line("cd dir1 | cat\n");
    let (cmd, args, _) = simple_parts(&parse(&mut t));
    assert_eq!(cmd, "cd");
    assert_eq!(args.len(), 4);
}

#[test]
fn split_whitespace_drops_empty_words() {
    assert_eq!(split_whitespace("  a\tbc  d "), vec!["a", "bc", "d"]);
    assert_eq!(split_whitespace(""), Vec::<&str>::new());
    assert_eq!(split_whitespace("x\u{3000}y"), vec!["x", "y"]);
}

#[test]
fn split_at_separator_is_left_to_right() {
    assert_eq!(split_at_separator("a&&b&&c", "&&"), vec!["a", "b", "c"]);
    assert_eq!(split_at_separator("a&&&b", "&&"), vec!["a", "&b"]);
    assert_eq!(split_at_separator("a||b", "|"), vec!["a", "", "b"]);
    assert_eq!(split_at_separator("abc", "|"), vec!["abc"]);
    assert_eq!(split_at_separator("", "|"), vec![""]);
}

#[test]
fn get_command_list_skips_pieces_without_words() {
    let list = get_command_list("ls -a |  | wc", "|");
    assert_eq!(list.len(), 2);
    assert_eq!(list[0].command, "ls");
    assert_eq!(list[0].args, vec!["ls".to_string(), "-a".to_string()]);
    assert_eq!(list[1].command, "wc");
    assert!(!list[1].background);
}

#[test]
fn extract_simple_keeps_program_name_first() {
    let words = vec!["grep", "-i", "x"];
    let (cmd, args) = extract_simple(&words);
    assert_eq!(cmd, Some("grep"));
    assert_eq!(args, vec!["grep".to_string(), "-i".to_string(), "x".to_string()]);
    let empty: Vec<&str> = Vec::new();
    let (cmd, args) = extract_simple(&empty);
    assert_eq!(cmd, None);
    assert!(args.is_empty());
}
