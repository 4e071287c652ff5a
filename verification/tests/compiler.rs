use pro_lang::compiler::{
    compile, fn_decl, handle_func_call, std_lib_functions, CompileError, Compiled,
    FunctionDeclaration,
};
use pro_lang::utils::SyntaxErrorType;

fn compiled(source: &str) -> Compiled {
    match compile(source) {
        Ok(c) => c,
        Err(e) => panic!("unexpected error: {:?}", e),
    }
}

fn syntax(source: &str) -> (usize, String, SyntaxErrorType, Option<String>) {
    match compile(source) {
        Err(CompileError::Syntax(e)) => (e.line_nr, e.line, e.error_type, e.additional),
        other => panic!("expected a syntax error, got {:?}", other),
    }
}

#[test]
fn hello_world() {
    let code = compiled(
        r#"
fn main {
    () helloworld
}
"#,
    );
    assert!(code.include_std);
    assert_eq!(code.code, "void main() {\nhelloworld();\n}\n");
}

#[test]
fn print_line() {
    let code = compiled(
        r#"
fn main {
    () println "test"
}
"#,
    );
    assert!(code.include_std);
    assert_eq!(code.code, "void main() {\nprintf(\"test\\n\");\n}\n");
}

#[test]
fn vars() {
    let code = compiled(
        r#"
fn main {
    var int number 5
    = number 7
    () println %d number
}
"#,
    );
    assert_eq!(
        code.code,
        "void main() {\nint number = 5;\nnumber = 7;\nprintf(\"%d\\n\", number);\n}\n"
    );
}

#[test]
fn fn_sum() {
    let code = compiled(
        r#"
fn test int num1 int num2 > int {
    ret num1 + num2
}

fn main {
    var int sum () test 1 5
    () println %d sum
}
"#,
    );
    assert_eq!(
        code.code,
        "int test(int num1, int num2) {\nreturn num1 + num2;\n}\nvoid main() {\nint sum = test(1, 5);\nprintf(\"%d\\n\", sum);\n}\n"
    );
}

#[test]
fn fn_void() {
    let code = compiled(
        r#"
fn voidfn {
}
fn main {
    () voidfn
}
"#,
    );
    assert_eq!(code.code, "void voidfn() {\n}\nvoid main() {\nvoidfn();\n}\n");
}

#[test]
fn fn_args_no_ret() {
    let code = compiled(
        r#"
fn argsfn int arg1 {
}
fn main {
    () argsfn 10
}
"#,
    );
    assert_eq!(code.code, "void argsfn(int arg1) {\n}\nvoid main() {\nargsfn(10);\n}\n");
}

#[test]
fn fn_ret_int() {
    let code = compiled(
        r#"
fn intret > int {
    ret 0
}
fn main {
    var int var1 () intret
}
"#,
    );
    assert_eq!(
        code.code,
        "int intret() {\nreturn 0;\n}\nvoid main() {\nint var1 = intret();\n}\n"
    );
}

#[test]
fn fn_args_ret() {
    let code = compiled(
        r#"
fn argsret int arg1 > int {
    ret arg1
}
fn main {
    var int var1 () argsret 10
}
"#,
    );
    assert_eq!(
        code.code,
        "int argsret(int arg1) {\nreturn arg1;\n}\nvoid main() {\nint var1 = argsret(10);\n}\n"
    );
}

#[test]
fn c_var() {
    let code = compiled(
        r#"
fn main {
C   int var = 1;
    () println %d var
}
"#,
    );
    assert_eq!(
        code.code,
        "void main() {\nint var = 1;\nprintf(\"%d\\n\", var);\n}\n"
    );
}

#[test]
fn c_func() {
    let code = compiled(
        r#"
C int func() {
C     return 0;
C }
export func 0

fn main {
    var int result () func
    () println %d result
}
"#,
    );
    assert_eq!(
        code.code,
        "int func() {\nreturn 0;\n}\nvoid main() {\nint result = func();\nprintf(\"%d\\n\", result);\n}\n"
    );
}

#[test]
fn empty_source_includes_std() {
    let code = compiled("");
    assert!(code.include_std);
    assert_eq!(code.code, "");
}

#[test]
fn nostd_first_line() {
    let code = compiled("// no std\nfn main {\n}\n");
    assert!(!code.include_std);
    assert_eq!(code.code, "void main() {\n}\n");
}

#[test]
fn comments_and_blank_lines_are_skipped() {
    let code = compiled("\n   // a comment\n\t\nfn main {\n  // () nothing\n}\n");
    assert_eq!(code.code, "void main() {\n}\n");
}

#[test]
fn crlf_line_endings() {
    let code = compiled("fn main {\r\n}\r\n");
    assert_eq!(code.code, "void main() {\n}\n");
}

#[test]
fn print_variants() {
    let code = compiled(
        "fn main {\n() print \"a\"\n() eprint \"b\"\n() eprintln \"c\"\n() print plain text\n() eprintln plain\n() eprint %s s\n() print\n}\n",
    );
    assert_eq!(
        code.code,
        "void main() {\nprintf(\"a\");\nfprintf(stderr, \"b\");\nfprintf(stderr, \"c\\n\");\nprintf(\"plain text\");\nfprintf(stderr, \"plain\\n\");\nfprintf(stderr, \"%s\", s);\nprintf(\"\");\n}\n"
    );
}

#[test]
fn print_underscores() {
    // an underscore reads as a space; it stays when the character at twice its
    // index is a backslash
    let code = compiled("fn main {\n() print a_b\n() print x_\\_\n}\n");
    assert_eq!(
        code.code,
        "void main() {\nprintf(\"a b\");\nprintf(\"x_\\ \");\n}\n"
    );
}

#[test]
fn loops_and_conditions() {
    let code = compiled(
        "fn main {\nloop {\ncontinue\n}\nloop i < 10 {\n++ i\n-- j\n}\nif a == 1 {\n}\nelif a == 2 {\n}\nelse {\n}\n}\n",
    );
    assert_eq!(
        code.code,
        "void main() {\nwhile (1) {\ncontinue;\n}\nwhile (i < 10) {\ni = i + 1;\nj = j - 1;\n}\nif (a == 1) {\n}\nelse if (a == 2) {\n}\nelse {\n}\n}\n"
    );
}

#[test]
fn var_declaration_and_assignment_forms() {
    let code = compiled("fn main {\nvar int x\nvar int y 3 ignored\n= x y + 1\n}\n");
    assert_eq!(
        code.code,
        "void main() {\nint x;\nint y = 3;\nx = y + 1;\n}\n"
    );
}

#[test]
fn ret_removes_every_ret() {
    let code = compiled("fn f > int {\nret return_value\n}\n");
    assert_eq!(code.code, "int f() {\nreturn urn_value;\n}\n");
}

#[test]
fn export_accepts_plus_sign() {
    let code = compiled("export ext +2\nfn main {\n() ext 1 2\n}\n");
    assert_eq!(code.code, "void main() {\next(1, 2);\n}\n");
}

#[test]
fn export_bad_count() {
    let (line_nr, line, kind, extra) = syntax("export ext two\n");
    assert_eq!(line_nr, 0);
    assert_eq!(line, "export ext two");
    assert_eq!(kind, SyntaxErrorType::General);
    assert_eq!(extra, None);
}

#[test]
fn missing_bracket() {
    let (line_nr, _, kind, _) = syntax("\nfn main\n");
    assert_eq!(line_nr, 1);
    assert_eq!(kind, SyntaxErrorType::MissingBracket);
    let (_, _, kind, _) = syntax("loop\n");
    assert_eq!(kind, SyntaxErrorType::MissingBracket);
}

#[test]
fn general_errors() {
    assert_eq!(syntax("fn {\n").2, SyntaxErrorType::General);
    assert_eq!(syntax("var int\n").2, SyntaxErrorType::General);
    assert_eq!(syntax("= x\n").2, SyntaxErrorType::General);
    assert_eq!(syntax("()\n").2, SyntaxErrorType::General);
    assert_eq!(syntax("if x\n").2, SyntaxErrorType::General);
    assert_eq!(syntax("else\n").2, SyntaxErrorType::General);
    assert_eq!(syntax("C\n").2, SyntaxErrorType::General);
    assert_eq!(syntax("++\n").2, SyntaxErrorType::General);
}

#[test]
fn invalid_function_arguments() {
    let (_, _, kind, _) = syntax("fn f int {\n");
    assert_eq!(kind, SyntaxErrorType::InvalidFunctionArguments);
}

#[test]
fn unknown_keyword() {
    let (line_nr, line, kind, _) = syntax("fn main {\n  whatever x\n");
    assert_eq!(line_nr, 1);
    assert_eq!(line, "  whatever x");
    assert_eq!(kind, SyntaxErrorType::UnknownKeyword);
}

#[test]
fn unknown_function_with_hint() {
    let (_, _, kind, extra) = syntax("fn main {\n() helloword\n");
    assert_eq!(kind, SyntaxErrorType::FunctionDoesntExist);
    assert_eq!(extra, Some("helloworld".to_string()));
}

#[test]
fn unknown_function_without_hint() {
    let (_, _, kind, extra) = syntax("fn main {\n() zzzzzzzz\n");
    assert_eq!(kind, SyntaxErrorType::FunctionDoesntExist);
    assert_eq!(extra, None);
}

#[test]
fn std_function_without_std() {
    let (_, _, kind, extra) = syntax("//nostd\nfn main {\n() helloworld\n");
    assert_eq!(kind, SyntaxErrorType::StdLibFuncNoStd);
    assert_eq!(extra, Some("helloworld".to_string()));
    let (_, _, kind, extra) = syntax("//nostd\nfn main {\n() nothing\n");
    assert_eq!(kind, SyntaxErrorType::FunctionDoesntExist);
    assert_eq!(extra, None);
}

#[test]
fn wrong_number_of_arguments() {
    let (_, _, kind, _) = syntax("fn f int a {\n}\n() f\n");
    assert_eq!(kind, SyntaxErrorType::WrongNumOfArgs);
}

#[test]
fn call_marker_without_name() {
    match compile("var int x ()\n") {
        Err(CompileError::MissingCallee { line_nr }) => assert_eq!(line_nr, 0),
        other => panic!("unexpected {:?}", other),
    }
    match compile("= x ()\n") {
        Err(CompileError::MissingCallee { line_nr }) => assert_eq!(line_nr, 0),
        other => panic!("unexpected {:?}", other),
    }
}

#[test]
fn first_error_wins() {
    let (line_nr, _, kind, _) = syntax("fn main {\nbogus\nfn\n");
    assert_eq!(line_nr, 1);
    assert_eq!(kind, SyntaxErrorType::UnknownKeyword);
}

fn words_of(line: &str) -> Vec<Vec<char>> {
    line.split_whitespace().map(|w| w.chars().collect()).collect()
}

#[test]
fn declarations() {
    assert_eq!(fn_decl("x", 2), FunctionDeclaration { name: "x".to_string(), n_args: 2 });
    let std = std_lib_functions();
    assert_eq!(std.len(), 25);
    assert_eq!(std[0], fn_decl("print", 0));
    assert_eq!(std[20], fn_decl("modVecString", 3));
}

#[test]
fn call_translation() {
    let decls = vec![fn_decl("f", 2), fn_decl("g", 0)];
    let std = std_lib_functions();
    let mut out = String::from("x = ");
    handle_func_call(&mut out, &words_of("() f 1 y"), &decls, true, &std, 3, "= x () f 1 y").unwrap();
    assert_eq!(out, "x = f(1, y);
");
    let mut out = String::new();
    handle_func_call(&mut out, &words_of("() g"), &decls, true, &std, 0, "() g").unwrap();
    assert_eq!(out, "g();
");
    let mut out = String::new();
    let err = handle_func_call(&mut out, &words_of("() h"), &decls, true, &std, 7, "() h").unwrap_err();
    assert_eq!(err.line_nr, 7);
    assert_eq!(err.line, "() h");
    assert_eq!(err.error_type, SyntaxErrorType::FunctionDoesntExist);
    assert_eq!(err.additional, Some("f".to_string()));
}

#[test]
fn failed_call_leaves_output_alone() {
    let decls = vec![fn_decl("test", 2)];
    let std = std_lib_functions();
    let mut out = String::from("int x = ");
    let err = handle_func_call(&mut out, &words_of("() test 1"), &decls, true, &std, 5, "() test 1").unwrap_err();
    assert_eq!(err.error_type, SyntaxErrorType::WrongNumOfArgs);
    assert_eq!(err.line_nr, 5);
    assert_eq!(out, "int x = ");
}

#[test]
fn eprint_mirrors_print_on_values() {
    let std = std_lib_functions();
    for (plain, err) in [("print", "eprint"), ("println", "eprintln")] {
        for args in ["\"hi there\"", "%d x y", "a_b c"] {
            let mut p = String::new();
            handle_func_call(&mut p, &words_of(&format!("() {plain} {args}")), &std, true, &std, 0, "").unwrap();
            let mut e = String::new();
            handle_func_call(&mut e, &words_of(&format!("() {err} {args}")), &std, true, &std, 0, "").unwrap();
            assert_eq!(e, p.replacen("printf(", "fprintf(stderr, ", 1));
        }
    }
}
