use filetool::cli::{parse_command, Command, ParseError};

fn args(v: &[&str]) -> Vec<String> {
    v.iter().map(|s| s.to_string()).collect()
}

#[test]
fn parse_help_keywords() {
    for kw in ["help", "--help", "-h"] {
        let r = parse_command(&args(&["prog", kw]));
        assert_eq!(r, Ok(Command::Help));
    }
}

#[test]
fn parse_help_ignores_extra_arguments() {
    let r = parse_command(&args(&["prog", "help", "whatever", "else"]));
    assert_eq!(r, Ok(Command::Help));
}

#[test]
fn parse_count_with_file() {
    let r = parse_command(&args(&["prog", "count", "notes.txt"]));
    assert_eq!(r, Ok(Command::Count { file: "notes.txt".to_string() }));
}

#[test]
fn parse_count_arity_zero_fails() {
    let r = parse_command(&args(&["prog", "count"]));
    assert_eq!(r, Err(ParseError::CountUsage));
}

#[test]
fn parse_count_arity_two_fails() {
    let r = parse_command(&args(&["prog", "count", "a.txt", "b.txt"]));
    assert_eq!(r, Err(ParseError::CountUsage));
}

#[test]
fn parse_info_with_file() {
    let r = parse_command(&args(&["prog", "info", "Cargo.toml"]));
    assert_eq!(r, Ok(Command::Info { file: "Cargo.toml".to_string() }));
}

#[test]
fn parse_info_arity_fails() {
    assert_eq!(parse_command(&args(&["prog", "info"])), Err(ParseError::InfoUsage));
    assert_eq!(
        parse_command(&args(&["prog", "info", "a", "b"])),
        Err(ParseError::InfoUsage)
    );
}

#[test]
fn parse_find_with_file_and_pattern() {
    let r = parse_command(&args(&["prog", "find", "a.txt", "needle"]));
    assert_eq!(
        r,
        Ok(Command::Find { file: "a.txt".to_string(), pattern: "needle".to_string() })
    );
}

#[test]
fn parse_find_arity_fails() {
    assert_eq!(parse_command(&args(&["prog", "find"])), Err(ParseError::FindUsage));
    assert_eq!(
        parse_command(&args(&["prog", "find", "a.txt"])),
        Err(ParseError::FindUsage)
    );
    assert_eq!(
        parse_command(&args(&["prog", "find", "a.txt", "x", "y"])),
        Err(ParseError::FindUsage)
    );
}

#[test]
fn parse_list_with_directory() {
    let r = parse_command(&args(&["prog", "list", "src"]));
    assert_eq!(r, Ok(Command::List { directory: "src".to_string() }));
}

#[test]
fn parse_list_defaults_to_current_directory() {
    let r = parse_command(&args(&["prog", "list"]));
    assert_eq!(r, Ok(Command::List { directory: ".".to_string() }));
}

#[test]
fn parse_create_joins_content_with_spaces() {
    let r = parse_command(&args(&["prog", "create", "hello.txt", "Hello,", "Rust!"]));
    assert_eq!(
        r,
        Ok(Command::Create {
            file: "hello.txt".to_string(),
            content: "Hello, Rust!".to_string()
        })
    );
}

#[test]
fn parse_create_single_content_token() {
    let r = parse_command(&args(&["prog", "create", "f.txt", "hi"]));
    assert_eq!(
        r,
        Ok(Command::Create { file: "f.txt".to_string(), content: "hi".to_string() })
    );
}

#[test]
fn parse_create_arity_fails() {
    assert_eq!(parse_command(&args(&["prog", "create"])), Err(ParseError::CreateUsage));
    assert_eq!(
        parse_command(&args(&["prog", "create", "f.txt"])),
        Err(ParseError::CreateUsage)
    );
}

#[test]
fn parse_unknown_keyword_names_it() {
    let r = parse_command(&args(&["prog", "frobnicate", "x"]));
    assert_eq!(
        r,
        Err(ParseError::UnknownCommand { keyword: "frobnicate".to_string() })
    );
}

#[test]
fn parse_unknown_never_builds_a_command() {
    for kw in ["copy", "delete", "", "Count", "COUNT", "hel p"] {
        let r = parse_command(&args(&["prog", kw, "a", "b"]));
        assert!(matches!(r, Err(ParseError::UnknownCommand { .. })));
    }
}
