use exa::config::{get_args_from_str, trim, UnclosedQuote};

#[test]
fn empty() {
    let args = get_args_from_str("").unwrap();
    assert!(args.is_empty());
}

#[test]
fn single() {
    assert_eq!(vec!["--binary"], get_args_from_str("--binary").unwrap());
}

#[test]
fn multiple() {
    assert_eq!(
        vec!["--binary", "--time-style=iso"],
        get_args_from_str("--binary --time-style=iso").unwrap()
    );
}

#[test]
fn quotes() {
    assert_eq!(
        vec!["--time-style", "iso"],
        get_args_from_str("--time-style \"iso\"").unwrap()
    );
}

#[test]
fn multi_line() {
    let config = "
        -l
        --sort newest
        --time-style=iso
        ";
    assert_eq!(
        vec!["-l", "--sort", "newest", "--time-style=iso"],
        get_args_from_str(config).unwrap()
    );
}

#[test]
fn comments() {
    let config = "
        # Display file metadata as a table
        -l
        # Sort by newest
        --sort newest
        # Use ISO timestamp format
        --time-style=iso
        ";
    assert_eq!(
        vec!["-l", "--sort", "newest", "--time-style=iso"],
        get_args_from_str(config).unwrap()
    );
}

#[test]
fn unclosed_quote() {
    assert_eq!(get_args_from_str("-l\n--sort \"name"), Err(UnclosedQuote));
}

#[test]
fn trims_like_std() {
    for s in ["", "   ", " a ", "\t\u{3000}b c\u{85}\n", "x", "\u{a0}\u{2028}"] {
        assert_eq!(trim(s), s.trim());
    }
}
