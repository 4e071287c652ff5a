use pro_lang::utils::{compile_error_lines, levenshtein_distance, syntax_error, Color, SyntaxErrorType};

#[test]
fn levenshtein_known_values() {
    assert_eq!(levenshtein_distance("kitten", "sitting"), 3);
    assert_eq!(levenshtein_distance("", "abc"), 3);
    assert_eq!(levenshtein_distance("abc", ""), 3);
    assert_eq!(levenshtein_distance("flaw", "lawn"), 2);
    assert_eq!(levenshtein_distance("helloword", "helloworld"), 1);
    assert_eq!(levenshtein_distance("héllo", "hello"), 1);
}

#[test]
fn levenshtein_laws_on_values() {
    assert_eq!(levenshtein_distance("abc", "abc"), 0);
    assert_eq!(
        levenshtein_distance("sunday", "saturday"),
        levenshtein_distance("saturday", "sunday")
    );
    assert!(levenshtein_distance("ab", "abcd") >= 2);
    assert!(levenshtein_distance("ab", "abcd") <= 4);
}

#[test]
fn syntax_error_unknown_keyword() {
    let msgs = syntax_error(4, "  foo bar", SyntaxErrorType::UnknownKeyword, None);
    assert_eq!(
        msgs,
        vec![
            format!("[{}!{}] Syntax error on line 5 - Unknown keyword \"foo\":", Color::RED, Color::RESET),
            format!(" {}=> {}5:{}   foo bar{}", Color::GREEN, Color::RESET, Color::LIGHT_BLUE, Color::RESET),
        ]
    );
}

#[test]
fn syntax_error_missing_bracket() {
    let msgs = syntax_error(0, "fn main", SyntaxErrorType::MissingBracket, None);
    assert_eq!(msgs.len(), 5);
    assert_eq!(msgs[0], format!("[{}!{}] Syntax error on line 1:", Color::RED, Color::RESET));
    assert_eq!(msgs[2], "");
    assert_eq!(
        msgs[3],
        format!("[^-^] {}HELP: You are missing a bracket:{}", Color::BLUE, Color::RESET)
    );
    assert_eq!(
        msgs[4],
        format!(
            "{}   +>{} 1: {}fn main {}{{{}",
            Color::BLUE,
            Color::RESET,
            Color::LIGHT_BLUE,
            Color::GOLD,
            Color::RESET
        )
    );
}

#[test]
fn syntax_error_function_names() {
    let var = syntax_error(9, "var int x () nope", SyntaxErrorType::FunctionDoesntExist, Some("note"));
    assert_eq!(
        var[0],
        format!("[{}!{}] Syntax error on line 10 - Function doesn't exist \"nope\":", Color::RED, Color::RESET)
    );
    assert_eq!(var.len(), 4);
    assert_eq!(
        var[3],
        format!("[^-^] {}HELP: Similar function exists: note{}", Color::BLUE, Color::RESET)
    );
    let assign = syntax_error(0, "= x () nope", SyntaxErrorType::StdLibFuncNoStd, Some("nope"));
    assert!(assign[0].ends_with("Function doesn't exist \"nope\":"));
    assert_eq!(
        assign[3],
        format!(
            "[^-^] {}HELP: Function \"nope\" exists in the standard library which is not included{}",
            Color::BLUE,
            Color::RESET
        )
    );
    let call = syntax_error(0, "() nope", SyntaxErrorType::FunctionDoesntExist, None);
    assert_eq!(call.len(), 2);
}

#[test]
fn syntax_error_other_kinds() {
    let a = syntax_error(1, "fn f int {", SyntaxErrorType::InvalidFunctionArguments, None);
    assert!(a[0].ends_with("on line 2 - Invalid function arguments:"));
    let w = syntax_error(1, "() f", SyntaxErrorType::WrongNumOfArgs, None);
    assert!(w[0].ends_with("on line 2 - Wrong ammount of arguments:"));
    let i = syntax_error(11, "import x", SyntaxErrorType::ImportNotFound, None);
    assert!(i[0].ends_with("on line 12:"));
    assert_eq!(i.len(), 2);
}

#[test]
fn framed_report() {
    let lines = compile_error_lines(&vec!["one".to_string(), "two".to_string(), "three".to_string()]);
    assert_eq!(
        lines,
        vec![
            format!("{}╭{} one", Color::BLUE, Color::RESET),
            format!("{}│{} two", Color::BLUE, Color::RESET),
            format!("{}│{} three", Color::BLUE, Color::RESET),
        ]
    );
}

#[test]
fn levenshtein_triangle_on_values() {
    let words = ["", "a", "kitten", "sitting", "mitten", "sit"];
    for a in words {
        for b in words {
            for c in words {
                assert!(
                    levenshtein_distance(a, c)
                        <= levenshtein_distance(a, b) + levenshtein_distance(b, c)
                );
            }
        }
    }
}
