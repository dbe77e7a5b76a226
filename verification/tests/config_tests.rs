use minigrep::Config;

fn args_of(parts: &[&str]) -> Vec<String> {
    parts.iter().map(|p| p.to_string()).collect()
}

#[test]
fn builds_with_case_flag() {
    let args = args_of(&["prog", "-c", "foo", "file.txt"]);
    let config = Config::build(&args).unwrap();
    assert_eq!("foo", config.query);
    assert_eq!("file.txt", config.file_path);
    assert!(!config.ignore_case);
}

#[test]
fn rejects_too_few_arguments() {
    let args = args_of(&["prog", "bad"]);
    let err = Config::build(&args).unwrap_err();
    assert_eq!("not enough arguments", err);
}

#[test]
fn rejects_unrecognized_flag() {
    let args = args_of(&["prog", "-x", "foo", "file.txt"]);
    let err = Config::build(&args).unwrap_err();
    assert_eq!("Usage: minigrep [-c] <query> <file>", err);
}

#[test]
fn extra_arguments_keep_the_default_mode() {
    let args = args_of(&["prog", "ignored", "foo", "file.txt", "extra"]);
    let config = Config::build(&args).unwrap();
    assert_eq!("foo", config.query);
    assert_eq!("file.txt", config.file_path);
    assert!(config.ignore_case);
}

#[test]
fn matching_lines_follows_the_configuration() {
    let contents = "Rust:\nsafe, fast, productive.\nPick three.";
    let exact = Config::build(&args_of(&["prog", "-c", "rUsT", "file.txt"])).unwrap();
    assert_eq!(
        Vec::<String>::new(),
        minigrep::matching_lines(&exact, contents)
    );
    let lowered = Config::build(&args_of(&["prog", "pad", "rUsT", "file.txt", "pad"])).unwrap();
    assert_eq!(
        vec!["Rust:".to_string()],
        minigrep::matching_lines(&lowered, contents)
    );
}

#[test]
fn one_argument_is_not_enough() {
    let args = args_of(&["prog"]);
    let err = Config::build(&args).unwrap_err();
    assert_eq!("not enough arguments", err);
}
