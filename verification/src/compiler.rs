//! Translation of the language into C, one line at a time.
use vstd::prelude::*;
use crate::text::{
    chars_of, copy_chars, join, lines, parse_usize, push_all, push_join, push_range, push_word, remove_all,
    string_of, trim, trim_chars, remove_all_chars, split_words, split_lines_chars, word_is, words,
    words_tail, lemma_words_shape, lemma_lines_from_bound, parse_usize_chars,
};
use crate::utils::{edit_distance, edit_distance_chars, has_called_name, syntax_error_ok, SyntaxErrorType};

verus! {

/// A function that calls may name: its name and how many arguments it takes.
#[derive(PartialEq, Clone, Debug)]
pub struct FunctionDeclaration {
    pub name: String,
    pub n_args: usize,
}

impl DeepView for FunctionDeclaration {
    type V = (Seq<char>, usize);

    open spec fn deep_view(&self) -> (Seq<char>, usize) {
        (self.name@, self.n_args)
    }
}

/// A syntax error: the zero-based number and the text of the offending line,
/// the kind of error, and the function name a hint mentions, if any.
#[derive(Clone, Debug)]
pub struct SyntaxError {
    pub line_nr: usize,
    pub line: String,
    pub error_type: SyntaxErrorType,
    pub additional: Option<String>,
}

/// Why a program could not be translated.
#[derive(Clone, Debug)]
pub enum CompileError {
    /// The program breaks a rule of the language.
    Syntax(SyntaxError),
    /// A `var` or `=` line ends in the call marker `()` with no function name after it.
    MissingCallee { line_nr: usize },
}

/// What a translation failure is, as a value.
pub enum Failure {
    Syntax { line_nr: nat, line: Seq<char>, error_type: SyntaxErrorType, additional: Option<Seq<char>> },
    MissingCallee { line_nr: nat },
}

impl View for SyntaxError {
    type V = Failure;

    open spec fn view(&self) -> Failure {
        Failure::Syntax {
            line_nr: self.line_nr as nat,
            line: self.line@,
            error_type: self.error_type,
            additional: match self.additional {
                Some(a) => Some(a@),
                None => None,
            },
        }
    }
}

impl View for CompileError {
    type V = Failure;

    open spec fn view(&self) -> Failure {
        match self {
            CompileError::Syntax(e) => e@,
            CompileError::MissingCallee { line_nr } => Failure::MissingCallee { line_nr: *line_nr as nat },
        }
    }
}

/// The result of translating a program: whether the standard library is to be
/// put in front of the code, and the C code for the program's own lines.
#[derive(Clone, Debug)]
pub struct Compiled {
    pub include_std: bool,
    pub code: String,
}

/// A declaration as a value: name and number of arguments.
pub type Decl = (Seq<char>, usize);

/// The state of a translation between two lines.
pub struct Translation {
    pub include_std: bool,
    pub declared: Seq<Decl>,
    pub out: Seq<char>,
}

/// The functions of the standard library, with their numbers of arguments.
pub open spec fn std_lib() -> Seq<Decl> {
    seq![
        ("print"@, 0usize),
        ("println"@, 0usize),
        ("helloworld"@, 0usize),
        ("initVecString"@, 1usize),
        ("newVecString"@, 0usize),
        ("resizeVecString"@, 1usize),
        ("freeVecString"@, 1usize),
        ("pushVecString"@, 2usize),
        ("getVecString"@, 2usize),
        ("stringSplit"@, 2usize),
        ("stringSplitWhitespace"@, 1usize),
        ("stringTrim"@, 1usize),
        ("stringEmpty"@, 1usize),
        ("readToString"@, 1usize),
        ("readToLines"@, 1usize),
        ("readToLinesNonEmpty"@, 1usize),
        ("stringCmp"@, 2usize),
        ("strlen"@, 1usize),
        ("splitToLines"@, 1usize),
        ("joinVecString"@, 2usize),
        ("modVecString"@, 3usize),
        ("djb2Hash"@, 1usize),
        ("getArgsVec"@, 2usize),
        ("containsVecString"@, 2usize),
        ("findVecString"@, 2usize),
    ]
}

/// The first declaration in `decls` with the given name.
pub open spec fn find_decl(decls: Seq<Decl>, name: Seq<char>) -> Option<Decl>
    decreases decls.len(),
{
    if decls.len() == 0 {
        None
    } else if decls[0].0 == name {
        Some(decls[0])
    } else {
        find_decl(decls.drop_first(), name)
    }
}

/// The name offered as a hint for the unknown function `name`: going through
/// `decls` in order, a declared name within distance 2 of `name` is taken when
/// no hint is held yet, or when its distance to `name` is below its distance to
/// the held hint. Empty when there is none.
pub open spec fn suggestion(decls: Seq<Decl>, name: Seq<char>) -> Seq<char>
    decreases decls.len(),
{
    if decls.len() == 0 {
        Seq::<char>::empty()
    } else {
        let best = suggestion(decls.drop_last(), name);
        let f = decls.last().0;
        let d = edit_distance(f, name);
        if d < 3 {
            if best.len() > 0 {
                if d < edit_distance(f, best) {
                    f
                } else {
                    best
                }
            } else {
                f
            }
        } else {
            best
        }
    }
}

/// The text of a print call with its underscores read: an underscore stands
/// for a space, except that it stays an underscore when it is not the first
/// character and the character at twice its index is a backslash.
pub open spec fn read_underscores(t: Seq<char>) -> Seq<char> {
    Seq::new(
        t.len(),
        |i: int|
            if t[i] == '_' {
                if i != 0 && 2 * i < t.len() && t[2 * i] == '\\' {
                    '_'
                } else {
                    ' '
                }
            } else {
                t[i]
            },
    )
}

/// The four printing functions built into calls.
pub enum PrintKind {
    Print,
    EPrint,
    PrintLn,
    EPrintLn,
}

pub open spec fn print_kind(name: Seq<char>) -> Option<PrintKind> {
    if name == "print"@ {
        Some(PrintKind::Print)
    } else if name == "eprint"@ {
        Some(PrintKind::EPrint)
    } else if name == "println"@ {
        Some(PrintKind::PrintLn)
    } else if name == "eprintln"@ {
        Some(PrintKind::EPrintLn)
    } else {
        None
    }
}

/// The C call a print kind opens with.
pub open spec fn print_open(kind: PrintKind) -> Seq<char> {
    match kind {
        PrintKind::Print => "printf("@,
        PrintKind::PrintLn => "printf("@,
        PrintKind::EPrint => "fprintf(stderr, "@,
        PrintKind::EPrintLn => "fprintf(stderr, "@,
    }
}

pub open spec fn print_newline(kind: PrintKind) -> bool {
    match kind {
        PrintKind::PrintLn => true,
        PrintKind::EPrintLn => true,
        _ => false,
    }
}

/// The free text of a print call with words `toks`: the words after the
/// function name, joined by spaces.
pub open spec fn print_text(toks: Seq<Seq<char>>) -> Seq<char> {
    if toks.len() < 3 {
        Seq::<char>::empty()
    } else {
        join(toks.subrange(2, toks.len() as int), " "@)
    }
}

/// What follows the opening of a print call: a string literal `p` is passed as
/// it stands, text starting with `%` is a format word followed by its
/// arguments, other text is quoted; the `ln` variants add a `\n` escape.
pub open spec fn print_body(newline: bool, p: Seq<char>, toks: Seq<Seq<char>>) -> Seq<char> {
    if p.len() > 0 && p[0] == '"' {
        if newline {
            p.drop_last() + "\\n\");\n"@
        } else {
            p + ");\n"@
        }
    } else if p.len() > 0 && p[0] == '%' {
        let rest = join(toks.subrange(3, toks.len() as int), " "@);
        if newline {
            "\""@ + toks[2] + "\\n\", "@ + rest + ");\n"@
        } else {
            "\""@ + toks[2] + "\", "@ + rest + ");\n"@
        }
    } else {
        if newline {
            "\""@ + p + "\\n\");\n"@
        } else {
            "\""@ + p + "\");\n"@
        }
    }
}

/// The C statement for a print call with words `toks` (`toks[0]` is `()`,
/// `toks[1]` the print function).
pub open spec fn print_call(kind: PrintKind, toks: Seq<Seq<char>>) -> Seq<char> {
    print_open(kind) + print_body(print_newline(kind), read_underscores(print_text(toks)), toks)
}

pub open spec fn syntax_failure(
    line_nr: nat,
    line: Seq<char>,
    error_type: SyntaxErrorType,
    additional: Option<Seq<char>>,
) -> Failure {
    Failure::Syntax { line_nr, line, error_type, additional }
}

/// What a call with words `toks` (`toks[0]` is `()`, `toks[1]` the function)
/// translates to, on line `line_nr` reading `line`.
pub open spec fn call_output(
    toks: Seq<Seq<char>>,
    declared: Seq<Decl>,
    include_std: bool,
    stdlib: Seq<Decl>,
    line_nr: nat,
    line: Seq<char>,
) -> Result<Seq<char>, Failure> {
    let name = toks[1];
    let n = toks.len();
    match print_kind(name) {
        Some(kind) => Ok(print_call(kind, toks)),
        None => match find_decl(declared, name) {
            None => if include_std {
                let hint = suggestion(declared, name);
                Err(
                    syntax_failure(
                        line_nr,
                        line,
                        SyntaxErrorType::FunctionDoesntExist,
                        if hint.len() == 0 {
                            None
                        } else {
                            Some(hint)
                        },
                    ),
                )
            } else {
                match find_decl(stdlib, name) {
                    Some(d) => Err(
                        syntax_failure(line_nr, line, SyntaxErrorType::StdLibFuncNoStd, Some(d.0)),
                    ),
                    None => Err(
                        syntax_failure(line_nr, line, SyntaxErrorType::FunctionDoesntExist, None),
                    ),
                }
            },
            Some(d) => if n - 2 != d.1 {
                Err(syntax_failure(line_nr, line, SyntaxErrorType::WrongNumOfArgs, None))
            } else if n > 2 {
                Ok(name + "("@ + join(toks.subrange(2, n as int), ", "@) + ");\n"@)
            } else {
                Ok(name + "();\n"@)
            },
        },
    }
}

/// The parameter list of a function header: the words taken two at a time,
/// each pair joined by a space.
pub open spec fn param_pairs(args: Seq<Seq<char>>) -> Seq<Seq<char>> {
    Seq::new(args.len() / 2, |k: int| args[2 * k] + " "@ + args[2 * k + 1])
}

pub open spec fn with_out(st: Translation, more: Seq<char>) -> Translation {
    Translation { out: st.out + more, ..st }
}

pub open spec fn with_decl(st: Translation, d: Decl) -> Translation {
    Translation { declared: st.declared.push(d), ..st }
}

/// A `fn` line: a function header, its parameters given as type/name pairs
/// and an optional `> type` before the closing `{`.
pub open spec fn fn_line(st: Translation, line_nr: nat, line: Seq<char>, w: Seq<Seq<char>>) -> Result<
    Translation,
    Failure,
> {
    let n = w.len();
    if w.last() != "{"@ {
        Err(syntax_failure(line_nr, line, SyntaxErrorType::MissingBracket, None))
    } else if n < 3 {
        Err(syntax_failure(line_nr, line, SyntaxErrorType::General, None))
    } else {
        let arrow = w[n - 3] == ">"@;
        let rt = if arrow {
            w[n - 2]
        } else {
            "void"@
        };
        let name = w[1];
        if n > (if arrow { 5int } else { 3int }) {
            let args = w.subrange(2, n - (if arrow { 3int } else { 1int }));
            if args.len() % 2 != 0 {
                Err(syntax_failure(line_nr, line, SyntaxErrorType::InvalidFunctionArguments, None))
            } else {
                Ok(
                    with_decl(
                        with_out(
                            st,
                            rt + " "@ + name + "("@ + join(param_pairs(args), ", "@) + ") {\n"@,
                        ),
                        (name, (args.len() / 2) as usize),
                    ),
                )
            }
        } else {
            Ok(with_decl(with_out(st, rt + " "@ + name + "() {\n"@), (name, 0usize)))
        }
    }
}

/// A `var` line: a declaration, optionally initialised by a value or a call.
pub open spec fn var_line(st: Translation, line_nr: nat, line: Seq<char>, w: Seq<Seq<char>>) -> Result<
    Translation,
    Failure,
> {
    let n = w.len();
    if n < 3 {
        Err(syntax_failure(line_nr, line, SyntaxErrorType::General, None))
    } else if n > 3 {
        let decl = w[1] + " "@ + w[2] + " = "@;
        if w[3] == "()"@ {
            if n < 5 {
                Err(Failure::MissingCallee { line_nr })
            } else {
                match call_output(
                    w.subrange(3, n as int),
                    st.declared,
                    st.include_std,
                    std_lib(),
                    line_nr,
                    line,
                ) {
                    Ok(c) => Ok(with_out(st, decl + c)),
                    Err(e) => Err(e),
                }
            }
        } else {
            Ok(with_out(st, decl + w[3] + ";\n"@))
        }
    } else {
        Ok(with_out(st, w[1] + " "@ + w[2] + ";\n"@))
    }
}

/// A `loop` line: an endless loop, or a loop while a condition holds.
pub open spec fn loop_line(st: Translation, line_nr: nat, line: Seq<char>, w: Seq<Seq<char>>) -> Result<
    Translation,
    Failure,
> {
    let n = w.len();
    if w.last() != "{"@ {
        Err(syntax_failure(line_nr, line, SyntaxErrorType::MissingBracket, None))
    } else if n < 2 {
        Err(syntax_failure(line_nr, line, SyntaxErrorType::General, None))
    } else if n == 2 {
        Ok(with_out(st, "while (1) {\n"@))
    } else {
        Ok(with_out(st, "while ("@ + join(w.subrange(1, n - 1), " "@) + ") {\n"@))
    }
}

/// A `()` line: a call whose result is dropped.
pub open spec fn call_line(st: Translation, line_nr: nat, line: Seq<char>, w: Seq<Seq<char>>) -> Result<
    Translation,
    Failure,
> {
    if w.len() < 2 {
        Err(syntax_failure(line_nr, line, SyntaxErrorType::General, None))
    } else {
        match call_output(w, st.declared, st.include_std, std_lib(), line_nr, line) {
            Ok(c) => Ok(with_out(st, c)),
            Err(e) => Err(e),
        }
    }
}

/// A `=` line: an assignment of an expression or of a call's result.
pub open spec fn assign_line(st: Translation, line_nr: nat, line: Seq<char>, w: Seq<Seq<char>>) -> Result<
    Translation,
    Failure,
> {
    let n = w.len();
    if n < 3 {
        Err(syntax_failure(line_nr, line, SyntaxErrorType::General, None))
    } else if w[2] == "()"@ {
        if n < 4 {
            Err(Failure::MissingCallee { line_nr })
        } else {
            match call_output(
                w.subrange(2, n as int),
                st.declared,
                st.include_std,
                std_lib(),
                line_nr,
                line,
            ) {
                Ok(c) => Ok(with_out(st, w[1] + " = "@ + c)),
                Err(e) => Err(e),
            }
        }
    } else {
        Ok(with_out(st, w[1] + " = "@ + join(w.subrange(2, n as int), " "@) + ";\n"@))
    }
}

/// An `if` or `elif` line: `open` is the C text that starts the condition.
pub open spec fn cond_line(
    st: Translation,
    line_nr: nat,
    line: Seq<char>,
    w: Seq<Seq<char>>,
    open: Seq<char>,
) -> Result<Translation, Failure> {
    let n = w.len();
    if n < 3 || w.last() != "{"@ {
        Err(syntax_failure(line_nr, line, SyntaxErrorType::General, None))
    } else {
        Ok(with_out(st, open + join(w.subrange(1, n - 1), " "@) + ") {\n"@))
    }
}

/// An `else` line.
pub open spec fn else_line(st: Translation, line_nr: nat, line: Seq<char>, w: Seq<Seq<char>>) -> Result<
    Translation,
    Failure,
> {
    if w.len() != 2 || w.last() != "{"@ {
        Err(syntax_failure(line_nr, line, SyntaxErrorType::General, None))
    } else {
        Ok(with_out(st, "else {\n"@))
    }
}

/// A `C` line: the rest of the line is C code, copied trimmed.
pub open spec fn c_line(st: Translation, line_nr: nat, line: Seq<char>, w: Seq<Seq<char>>) -> Result<
    Translation,
    Failure,
> {
    if w.len() == 1 {
        Err(syntax_failure(line_nr, line, SyntaxErrorType::General, None))
    } else {
        Ok(with_out(st, trim(trim(line).drop_first()) + "\n"@))
    }
}

/// An `export` line: declares a function defined in C, with its number of arguments.
pub open spec fn export_line(st: Translation, line_nr: nat, line: Seq<char>, w: Seq<Seq<char>>) -> Result<
    Translation,
    Failure,
> {
    if w.len() < 3 {
        Err(syntax_failure(line_nr, line, SyntaxErrorType::General, None))
    } else {
        match parse_usize(w[2]) {
            Some(k) => Ok(with_decl(st, (w[1], k))),
            None => Err(syntax_failure(line_nr, line, SyntaxErrorType::General, None)),
        }
    }
}

/// A `++` or `--` line: `step` is the C text after `v = v`.
pub open spec fn step_line(
    st: Translation,
    line_nr: nat,
    line: Seq<char>,
    w: Seq<Seq<char>>,
    step: Seq<char>,
) -> Result<Translation, Failure> {
    if w.len() < 2 {
        Err(syntax_failure(line_nr, line, SyntaxErrorType::General, None))
    } else {
        Ok(with_out(st, w[1] + " = "@ + w[1] + step))
    }
}

/// The translation of a non-blank, non-comment line `line` (number `line_nr`)
/// from state `st`, chosen by its first word.
pub open spec fn compile_line(st: Translation, line_nr: nat, line: Seq<char>) -> Result<
    Translation,
    Failure,
> {
    let w = words(line);
    let kw = w[0];
    if kw == "fn"@ {
        fn_line(st, line_nr, line, w)
    } else if kw == "var"@ {
        var_line(st, line_nr, line, w)
    } else if kw == "loop"@ {
        loop_line(st, line_nr, line, w)
    } else if kw == "()"@ {
        call_line(st, line_nr, line, w)
    } else if kw == "="@ {
        assign_line(st, line_nr, line, w)
    } else if kw == "}"@ {
        Ok(with_out(st, "}\n"@))
    } else if kw == "ret"@ {
        Ok(with_out(st, "return "@ + trim(remove_all(trim(line), "ret"@)) + ";\n"@))
    } else if kw == "continue"@ {
        Ok(with_out(st, "continue;\n"@))
    } else if kw == "if"@ {
        cond_line(st, line_nr, line, w, "if ("@)
    } else if kw == "elif"@ {
        cond_line(st, line_nr, line, w, "else if ("@)
    } else if kw == "else"@ {
        else_line(st, line_nr, line, w)
    } else if kw == "C"@ {
        c_line(st, line_nr, line, w)
    } else if kw == "export"@ {
        export_line(st, line_nr, line, w)
    } else if kw == "++"@ {
        step_line(st, line_nr, line, w, " + 1;\n"@)
    } else if kw == "--"@ {
        step_line(st, line_nr, line, w, " - 1;\n"@)
    } else {
        Err(syntax_failure(line_nr, line, SyntaxErrorType::UnknownKeyword, None))
    }
}

/// Whether a line is skipped: blank, or a comment (`//` after leading whitespace).
pub open spec fn skipped(line: Seq<char>) -> bool {
    let t = trim(line);
    t.len() == 0 || (t.len() >= 2 && t[0] == '/' && t[1] == '/')
}

/// Whether a first line switches the standard library off: its words run
/// together read `//nostd`.
pub open spec fn is_nostd(line: Seq<char>) -> bool {
    join(words(line), Seq::<char>::empty()) == "//nostd"@
}

/// The state after reading the first line's choice about the standard library.
pub open spec fn first_line_state(st: Translation, line: Seq<char>) -> Translation {
    if is_nostd(line) {
        Translation { include_std: false, ..st }
    } else {
        Translation { declared: st.declared + std_lib(), ..st }
    }
}

/// The translation of lines `ls[i..]` from state `st`.
pub open spec fn compile_from(ls: Seq<Seq<char>>, i: int, st: Translation) -> Result<
    Translation,
    Failure,
>
    decreases ls.len() - i,
{
    if i < 0 || i >= ls.len() {
        Ok(st)
    } else {
        let line = ls[i];
        let st1 = if i == 0 {
            first_line_state(st, line)
        } else {
            st
        };
        if skipped(line) {
            compile_from(ls, i + 1, st1)
        } else {
            match compile_line(st1, i as nat, line) {
                Ok(st2) => compile_from(ls, i + 1, st2),
                Err(e) => Err(e),
            }
        }
    }
}

pub open spec fn initial_translation() -> Translation {
    Translation { include_std: true, declared: Seq::empty(), out: Seq::empty() }
}

/// The translation of a whole program: whether the standard library is
/// included, and the C code of the program's lines.
pub open spec fn compile_spec(source: Seq<char>) -> Result<(bool, Seq<char>), Failure> {
    match compile_from(lines(source), 0, initial_translation()) {
        Ok(st) => Ok((st.include_std, st.out)),
        Err(e) => Err(e),
    }
}

/// Every name in `decls` is shorter than `usize::MAX` characters.
pub open spec fn names_fit(decls: Seq<Decl>) -> bool {
    forall|k: int| 0 <= k < decls.len() ==> (#[trigger] decls[k]).0.len() < usize::MAX
}

/// A declaration of the function `name` taking `n_args` arguments.
pub fn fn_decl(name: &str, n_args: usize) -> (res: FunctionDeclaration)
    ensures
        res.deep_view() == (name@, n_args),
{
    FunctionDeclaration { name: String::from_str(name), n_args }
}

/// The names of the standard library are short.
pub proof fn lemma_std_lib_names()
    ensures
        forall|k: int| 0 <= k < std_lib().len() ==> (#[trigger] std_lib()[k]).0.len() <= 21,
{
    reveal_strlit("print");
    reveal_strlit("println");
    reveal_strlit("helloworld");
    reveal_strlit("initVecString");
    reveal_strlit("newVecString");
    reveal_strlit("resizeVecString");
    reveal_strlit("freeVecString");
    reveal_strlit("pushVecString");
    reveal_strlit("getVecString");
    reveal_strlit("stringSplit");
    reveal_strlit("stringSplitWhitespace");
    reveal_strlit("stringTrim");
    reveal_strlit("stringEmpty");
    reveal_strlit("readToString");
    reveal_strlit("readToLines");
    reveal_strlit("readToLinesNonEmpty");
    reveal_strlit("stringCmp");
    reveal_strlit("strlen");
    reveal_strlit("splitToLines");
    reveal_strlit("joinVecString");
    reveal_strlit("modVecString");
    reveal_strlit("djb2Hash");
    reveal_strlit("getArgsVec");
    reveal_strlit("containsVecString");
    reveal_strlit("findVecString");
}

/// The declarations of the standard library's functions.
pub fn std_lib_functions() -> (res: Vec<FunctionDeclaration>)
    ensures
        res.deep_view() == std_lib(),
{
    let res = vec![
        fn_decl("print", 0),
        fn_decl("println", 0),
        fn_decl("helloworld", 0),
        fn_decl("initVecString", 1),
        fn_decl("newVecString", 0),
        fn_decl("resizeVecString", 1),
        fn_decl("freeVecString", 1),
        fn_decl("pushVecString", 2),
        fn_decl("getVecString", 2),
        fn_decl("stringSplit", 2),
        fn_decl("stringSplitWhitespace", 1),
        fn_decl("stringTrim", 1),
        fn_decl("stringEmpty", 1),
        fn_decl("readToString", 1),
        fn_decl("readToLines", 1),
        fn_decl("readToLinesNonEmpty", 1),
        fn_decl("stringCmp", 2),
        fn_decl("strlen", 1),
        fn_decl("splitToLines", 1),
        fn_decl("joinVecString", 2),
        fn_decl("modVecString", 3),
        fn_decl("djb2Hash", 1),
        fn_decl("getArgsVec", 2),
        fn_decl("containsVecString", 2),
        fn_decl("findVecString", 2),
    ];
    assert(res.deep_view() =~= std_lib());
    res
}

proof fn lemma_find_decl_skip(decls: Seq<Decl>, name: Seq<char>, i: int)
    requires
        0 <= i <= decls.len(),
        forall|k: int| 0 <= k < i ==> (#[trigger] decls[k]).0 != name,
    ensures
        find_decl(decls, name) == find_decl(decls.skip(i), name),
    decreases i,
{
    if i == 0 {
        assert(decls.skip(0) =~= decls);
    } else {
        let rest = decls.drop_first();
        assert forall|k: int| 0 <= k < i - 1 implies (#[trigger] rest[k]).0 != name by {
            assert(rest[k] == decls[k + 1]);
        }
        lemma_find_decl_skip(rest, name, i - 1);
        assert(rest.skip(i - 1) =~= decls.skip(i));
    }
}

/// The position of the first declaration of `name` in `decls`.
fn find_decl_index(decls: &Vec<FunctionDeclaration>, name: &Vec<char>) -> (res: Option<usize>)
    ensures
        match find_decl(decls.deep_view(), name@) {
            Some(d) => res matches Some(k) && k < decls@.len() && decls.deep_view()[k as int] == d,
            None => res is None,
        },
{
    let ghost dv = decls.deep_view();
    let mut i: usize = 0;
    while i < decls.len()
        invariant
            dv == decls.deep_view(),
            i <= dv.len(),
            forall|k: int| 0 <= k < i ==> (#[trigger] dv[k]).0 != name@,
        decreases dv.len() - i,
    {
        let found = eq_str_string(name, &decls[i].name);
        assert(dv[i as int] == decls@[i as int].deep_view());
        if found {
            proof {
                lemma_find_decl_skip(dv, name@, i as int);
                assert(dv.skip(i as int)[0] == dv[i as int]);
            }
            return Some(i);
        }
        i += 1;
    }
    proof {
        lemma_find_decl_skip(dv, name@, i as int);
        assert(dv.skip(i as int).len() == 0);
    }
    None
}

/// Whether `v` holds exactly the characters of `s`.
fn eq_str_string(v: &Vec<char>, s: &String) -> (res: bool)
    ensures
        res == (v@ == s@),
{
    crate::text::eq_str(v, s.as_str())
}

/// The hint for the unknown function `name`, as `suggestion` gives it.
fn suggest(decls: &Vec<FunctionDeclaration>, name: &Vec<char>) -> (res: Vec<char>)
    requires
        names_fit(decls.deep_view()),
        name@.len() < usize::MAX,
    ensures
        res@ == suggestion(decls.deep_view(), name@),
{
    let ghost dv = decls.deep_view();
    let mut best: Vec<char> = Vec::new();
    let mut i: usize = 0;
    while i < decls.len()
        invariant
            dv == decls.deep_view(),
            names_fit(dv),
            name@.len() < usize::MAX,
            i <= dv.len(),
            best@ == suggestion(dv.take(i as int), name@),
            best@.len() < usize::MAX,
        decreases dv.len() - i,
    {
        let f = chars_of(decls[i].name.as_str());
        assert(dv[i as int] == decls@[i as int].deep_view());
        assert(dv[i as int].0.len() < usize::MAX);
        let d = edit_distance_chars(&f, name);
        if d < 3 {
            if best.len() > 0 {
                if d < edit_distance_chars(&f, &best) {
                    best = f;
                }
            } else {
                best = f;
            }
        }
        proof {
            let pre = dv.take(i + 1);
            assert(pre.drop_last() =~= dv.take(i as int));
            assert(pre.last() == dv[i as int]);
        }
        i += 1;
    }
    assert(dv.take(i as int) =~= dv);
    best
}

/// Which printing function, if any, the word `name` is.
fn print_kind_of(name: &Vec<char>) -> (res: Option<PrintKind>)
    ensures
        res == print_kind(name@),
{
    if crate::text::eq_str(name, "print") {
        Some(PrintKind::Print)
    } else if crate::text::eq_str(name, "eprint") {
        Some(PrintKind::EPrint)
    } else if crate::text::eq_str(name, "println") {
        Some(PrintKind::PrintLn)
    } else if crate::text::eq_str(name, "eprintln") {
        Some(PrintKind::EPrintLn)
    } else {
        None
    }
}

/// The words `toks[from..to]` joined by single spaces.
fn join_spaced(toks: &Vec<Vec<char>>, from: usize, to: usize) -> (res: Vec<char>)
    requires
        from <= to <= toks@.len(),
    ensures
        res@ == join(toks.deep_view().subrange(from as int, to as int), " "@),
{
    let mut s = String::new();
    push_join(&mut s, toks, from, to, " ");
    assert(s@ == join(toks.deep_view().subrange(from as int, to as int), " "@));
    chars_of(s.as_str())
}

/// `t` with its underscores read as `read_underscores` says.
fn read_underscores_chars(t: &Vec<char>) -> (res: Vec<char>)
    ensures
        res@ == read_underscores(t@),
{
    let n = t.len();
    let mut res: Vec<char> = Vec::new();
    let mut i: usize = 0;
    while i < n
        invariant
            n == t@.len(),
            i <= n,
            res@.len() == i,
            forall|k: int| 0 <= k < i ==> #[trigger] res@[k] == read_underscores(t@)[k],
        decreases n - i,
    {
        let c = t[i];
        let r = if c == '_' {
            if i != 0 && i < n - i && t[2 * i] == '\\' {
                '_'
            } else {
                ' '
            }
        } else {
            c
        };
        res.push(r);
        i += 1;
    }
    assert(res@ =~= read_underscores(t@));
    res
}

/// Appends `print_body(newline, p, toks)` to `out`.
fn push_print_body(out: &mut String, newline: bool, p: &Vec<char>, toks: &Vec<Vec<char>>)
    requires
        toks@.len() >= 2,
        p@.len() > 0 && p@[0] == '%' ==> toks@.len() >= 3,
    ensures
        final(out)@ == old(out)@ + print_body(newline, p@, toks.deep_view()),
{
    let n = toks.len();
    if p.len() > 0 && p[0] == '"' {
        if newline {
            push_range(out, p, 0, p.len() - 1);
            out.append("\\n\");\n");
            assert(p@.drop_last() =~= p@.subrange(0, p@.len() - 1));
        } else {
            push_all(out, p);
            out.append(");\n");
        }
    } else if p.len() > 0 && p[0] == '%' {
        out.append("\"");
        push_word(out, toks, 2);
        if newline {
            out.append("\\n\", ");
        } else {
            out.append("\", ");
        }
        push_join(out, toks, 3, n, " ");
        out.append(");\n");
    } else {
        out.append("\"");
        push_all(out, p);
        if newline {
            out.append("\\n\");\n");
        } else {
            out.append("\");\n");
        }
    }
    assert(final(out)@ =~= old(out)@ + print_body(newline, p@, toks.deep_view()));
}

/// Appends the C statement for a print call with words `toks` to `out`.
fn push_print_call(out: &mut String, kind: PrintKind, toks: &Vec<Vec<char>>)
    requires
        toks@.len() >= 2,
    ensures
        final(out)@ == old(out)@ + print_call(kind, toks.deep_view()),
{
    let n = toks.len();
    let text = if n < 3 {
        Vec::new()
    } else {
        join_spaced(toks, 2, n)
    };
    assert(text@ == print_text(toks.deep_view()));
    let p = read_underscores_chars(&text);
    let newline = match kind {
        PrintKind::PrintLn | PrintKind::EPrintLn => true,
        _ => false,
    };
    match kind {
        PrintKind::Print | PrintKind::PrintLn => out.append("printf("),
        PrintKind::EPrint | PrintKind::EPrintLn => out.append("fprintf(stderr, "),
    }
    push_print_body(out, newline, &p, toks);
    assert(final(out)@ =~= old(out)@ + print_call(kind, toks.deep_view()));
}

/// Translates the call with words `tokens` (`tokens[0]` is the call marker
/// `()`, `tokens[1]` the called function, the rest its arguments) and appends
/// it to `compiled`. The print functions take free text; any other function
/// must be declared and given as many arguments as it takes, else the error
/// says what is wrong, with a hint at a similar name or at the standard library.
pub fn handle_func_call(
    compiled: &mut String,
    tokens: &Vec<Vec<char>>,
    declared_functions: &Vec<FunctionDeclaration>,
    include_std: bool,
    std_lib_functions: &Vec<FunctionDeclaration>,
    line_nr: usize,
    line: &str,
) -> (res: Result<(), SyntaxError>)
    requires
        tokens@.len() >= 2,
        names_fit(declared_functions.deep_view()),
        tokens.deep_view()[1].len() < usize::MAX,
    ensures
        match call_output(
            tokens.deep_view(),
            declared_functions.deep_view(),
            include_std,
            std_lib_functions.deep_view(),
            line_nr as nat,
            line@,
        ) {
            Ok(c) => res is Ok && final(compiled)@ == old(compiled)@ + c,
            Err(e) => res matches Err(se) && se@ == e,
        },
        res is Err ==> final(compiled)@ == old(compiled)@,
{
    let ghost toks = tokens.deep_view();
    let name = &tokens[1];
    assert(toks[1] == name@);
    let n = tokens.len();
    match print_kind_of(name) {
        Some(kind) => {
            push_print_call(compiled, kind, tokens);
            return Ok(());
        },
        None => {},
    }
    match find_decl_index(declared_functions, name) {
        None => {
            if include_std {
                let hint = suggest(declared_functions, name);
                let additional = if hint.len() == 0 {
                    None
                } else {
                    Some(string_of(&hint))
                };
                Err(
                    SyntaxError {
                        line_nr,
                        line: String::from_str(line),
                        error_type: SyntaxErrorType::FunctionDoesntExist,
                        additional,
                    },
                )
            } else {
                match find_decl_index(std_lib_functions, name) {
                    Some(k) => {
                        let f = std_lib_functions[k].name.clone();
                        assert(std_lib_functions.deep_view()[k as int] == std_lib_functions@[k as int].deep_view());
                        Err(
                            SyntaxError {
                                line_nr,
                                line: String::from_str(line),
                                error_type: SyntaxErrorType::StdLibFuncNoStd,
                                additional: Some(f),
                            },
                        )
                    },
                    None => Err(
                        SyntaxError {
                            line_nr,
                            line: String::from_str(line),
                            error_type: SyntaxErrorType::FunctionDoesntExist,
                            additional: None,
                        },
                    ),
                }
            }
        },
        Some(k) => {
            assert(declared_functions.deep_view()[k as int] == declared_functions@[k as int].deep_view());
            if n - 2 != declared_functions[k].n_args {
                return Err(
                    SyntaxError {
                        line_nr,
                        line: String::from_str(line),
                        error_type: SyntaxErrorType::WrongNumOfArgs,
                        additional: None,
                    },
                );
            }
            push_all(compiled, name);
            if n > 2 {
                compiled.append("(");
                push_join(compiled, tokens, 2, n, ", ");
                compiled.append(");\n");
            } else {
                compiled.append("();\n");
            }
            Ok(())
        },
    }
}

/// The state of a translation as the compiler holds it.
struct TranslationState {
    include_std: bool,
    declared: Vec<FunctionDeclaration>,
    out: String,
}

impl View for TranslationState {
    type V = Translation;

    closed spec fn view(&self) -> Translation {
        Translation { include_std: self.include_std, declared: self.declared.deep_view(), out: self.out@ }
    }
}

/// The error for a syntax error of kind `error_type` on line `line_nr`.
fn syntax_err(line_nr: usize, line: &Vec<char>, error_type: SyntaxErrorType) -> (res: CompileError)
    ensures
        res@ == syntax_failure(line_nr as nat, line@, error_type, None),
{
    CompileError::Syntax(SyntaxError { line_nr, line: string_of(line), error_type, additional: None })
}

/// What every line handler needs: the words of the line and the bounds that
/// keep names and line numbers within `usize`.
spec fn line_ready(st: Translation, line_nr: usize, line: Seq<char>, w: Seq<Seq<char>>) -> bool {
    &&& w == words(line)
    &&& w.len() >= 1
    &&& line.len() < usize::MAX
    &&& names_fit(st.declared)
    &&& forall|k: int| 0 <= k < w.len() ==> 0 < (#[trigger] w[k]).len() <= line.len()
}

/// Whether the translation `r` of a line is what the handler produced.
spec fn handled(
    r: Result<Translation, Failure>,
    res: Result<(), CompileError>,
    old_st: Translation,
    new_st: Translation,
) -> bool {
    &&& match r {
        Ok(s2) => res is Ok && new_st == s2,
        Err(e) => res matches Err(ce) && ce@ == e,
    }
    &&& new_st.include_std == old_st.include_std
    &&& names_fit(new_st.declared)
}

proof fn lemma_words_fit(w: Seq<Seq<char>>, line: Seq<char>, k: int)
    requires
        forall|j: int| 0 <= j < w.len() ==> 0 < (#[trigger] w[j]).len() <= line.len(),
        line.len() < usize::MAX,
        0 <= k < w.len(),
    ensures
        w[k].len() < usize::MAX,
{
}

/// Appends the parameter list of `args = w[from..to]` to `out`.
fn push_params(out: &mut String, w: &Vec<Vec<char>>, from: usize, to: usize)
    requires
        from <= to <= w@.len(),
        (to - from) % 2 == 0,
    ensures
        final(out)@ == old(out)@ + join(
            param_pairs(w.deep_view().subrange(from as int, to as int)),
            ", "@,
        ),
{
    let ghost args = w.deep_view().subrange(from as int, to as int);
    let ghost pairs = param_pairs(args);
    let half = (to - from) / 2;
    let mut k: usize = 0;
    while k < half
        invariant
            from <= to <= w@.len(),
            half == (to - from) / 2,
            args == w.deep_view().subrange(from as int, to as int),
            pairs == param_pairs(args),
            pairs.len() == half,
            k <= half,
            out@ == old(out)@ + join(pairs.take(k as int), ", "@),
        decreases half - k,
    {
        if k > 0 {
            out.append(", ");
        }
        push_word(out, w, from + 2 * k);
        out.append(" ");
        push_word(out, w, from + 2 * k + 1);
        proof {
            let pre = pairs.take(k + 1);
            assert(pre.drop_last() =~= pairs.take(k as int));
            assert(pre.last() == args[2 * k] + " "@ + args[2 * k + 1]);
            if k == 0 {
                assert(pairs.take(0).len() == 0);
                assert(join(pairs.take(0), ", "@) =~= Seq::<char>::empty());
            }
        }
        k += 1;
    }
    assert(pairs.take(half as int) =~= pairs);
}

fn fn_line_exec(st: &mut TranslationState, line_nr: usize, line: &Vec<char>, w: &Vec<Vec<char>>) -> (res: Result<(), CompileError>)
    requires
        line_ready(old(st)@, line_nr, line@, w.deep_view()),
    ensures
        handled(fn_line(old(st)@, line_nr as nat, line@, w.deep_view()), res, old(st)@, final(st)@),
{
    let ghost ws = w.deep_view();
    let ghost st0 = st@;
    let n = w.len();
    if !word_is(w, n - 1, "{") {
        return Err(syntax_err(line_nr, line, SyntaxErrorType::MissingBracket));
    }
    if n < 3 {
        return Err(syntax_err(line_nr, line, SyntaxErrorType::General));
    }
    let arrow = word_is(w, n - 3, ">");
    let ghost rt = if arrow { ws[n - 2] } else { "void"@ };
    let limit: usize = if arrow { 5 } else { 3 };
    let end: usize = if n > limit { n - if arrow { 3 } else { 1 } } else { 2 };
    if n > limit && (end - 2) % 2 != 0 {
        return Err(syntax_err(line_nr, line, SyntaxErrorType::InvalidFunctionArguments));
    }
    if arrow {
        push_word(&mut st.out, w, n - 2);
    } else {
        st.out.append("void");
    }
    st.out.append(" ");
    push_word(&mut st.out, w, 1);
    let ghost head = st.out@;
    assert(head =~= st0.out + rt + " "@ + ws[1]);
    let n_args: usize;
    if n > limit {
        st.out.append("(");
        push_params(&mut st.out, w, 2, end);
        st.out.append(") {\n");
        n_args = (end - 2) / 2;
        assert(st.out@ =~= st0.out + (rt + " "@ + ws[1] + "("@ + join(
            param_pairs(ws.subrange(2, end as int)),
            ", "@,
        ) + ") {\n"@));
    } else {
        st.out.append("() {\n");
        n_args = 0;
        assert(st.out@ =~= st0.out + (rt + " "@ + ws[1] + "() {\n"@));
    }
    let name = copy_chars(&w[1]);
    assert(ws[1] == w@[1]@);
    let ghost before = st.declared.deep_view();
    st.declared.push(FunctionDeclaration { name: string_of(&name), n_args });
    proof {
        lemma_words_fit(ws, line@, 1);
        assert(st.declared.deep_view() =~= before.push((ws[1], n_args)));
        assert(st@.declared == st0.declared.push((ws[1], n_args)));
    }
    Ok(())
}

/// Translates the call with words `w[from..]` and appends it to the output.
fn call_into(
    st: &mut TranslationState,
    line_nr: usize,
    line: &Vec<char>,
    w: &Vec<Vec<char>>,
    from: usize,
    stdlib: &Vec<FunctionDeclaration>,
) -> (res: Result<(), CompileError>)
    requires
        line_ready(old(st)@, line_nr, line@, w.deep_view()),
        from + 2 <= w@.len(),
        stdlib.deep_view() == std_lib(),
    ensures
        match call_output(
            w.deep_view().subrange(from as int, w@.len() as int),
            old(st)@.declared,
            old(st)@.include_std,
            std_lib(),
            line_nr as nat,
            line@,
        ) {
            Ok(c) => res is Ok && final(st)@ == with_out(old(st)@, c),
            Err(e) => res matches Err(ce) && ce@ == e,
        },
        final(st)@.declared == old(st)@.declared,
        final(st)@.include_std == old(st)@.include_std,
{
    let tail = words_tail(w, from);
    proof {
        lemma_words_fit(w.deep_view(), line@, from + 1);
    }
    let text = string_of(line);
    match handle_func_call(&mut st.out, &tail, &st.declared, st.include_std, stdlib, line_nr, text.as_str()) {
        Ok(()) => Ok(()),
        Err(e) => Err(CompileError::Syntax(e)),
    }
}

fn var_line_exec(
    st: &mut TranslationState,
    line_nr: usize,
    line: &Vec<char>,
    w: &Vec<Vec<char>>,
    stdlib: &Vec<FunctionDeclaration>,
) -> (res: Result<(), CompileError>)
    requires
        line_ready(old(st)@, line_nr, line@, w.deep_view()),
        stdlib.deep_view() == std_lib(),
    ensures
        handled(var_line(old(st)@, line_nr as nat, line@, w.deep_view()), res, old(st)@, final(st)@),
{
    let ghost ws = w.deep_view();
    let ghost st0 = st@;
    let n = w.len();
    if n < 3 {
        return Err(syntax_err(line_nr, line, SyntaxErrorType::General));
    }
    if n > 3 {
        let is_call = word_is(w, 3, "()");
        if is_call && n < 5 {
            return Err(CompileError::MissingCallee { line_nr });
        }
        push_word(&mut st.out, w, 1);
        st.out.append(" ");
        push_word(&mut st.out, w, 2);
        st.out.append(" = ");
        let ghost decl = ws[1] + " "@ + ws[2] + " = "@;
        assert(st.out@ =~= st0.out + decl);
        if is_call {
            let r = call_into(st, line_nr, line, w, 3, stdlib);
            proof {
                match call_output(ws.subrange(3, n as int), st0.declared, st0.include_std, std_lib(), line_nr as nat, line@) {
                    Ok(c) => {
                        assert(st.out@ =~= st0.out + (decl + c));
                    },
                    Err(e) => {},
                }
            }
            r
        } else {
            push_word(&mut st.out, w, 3);
            st.out.append(";\n");
            assert(st.out@ =~= st0.out + (decl + ws[3] + ";\n"@));
            Ok(())
        }
    } else {
        push_word(&mut st.out, w, 1);
        st.out.append(" ");
        push_word(&mut st.out, w, 2);
        st.out.append(";\n");
        assert(st.out@ =~= st0.out + (ws[1] + " "@ + ws[2] + ";\n"@));
        Ok(())
    }
}

fn loop_line_exec(st: &mut TranslationState, line_nr: usize, line: &Vec<char>, w: &Vec<Vec<char>>) -> (res: Result<(), CompileError>)
    requires
        line_ready(old(st)@, line_nr, line@, w.deep_view()),
    ensures
        handled(loop_line(old(st)@, line_nr as nat, line@, w.deep_view()), res, old(st)@, final(st)@),
{
    let ghost ws = w.deep_view();
    let ghost st0 = st@;
    let n = w.len();
    if !word_is(w, n - 1, "{") {
        return Err(syntax_err(line_nr, line, SyntaxErrorType::MissingBracket));
    }
    if n < 2 {
        return Err(syntax_err(line_nr, line, SyntaxErrorType::General));
    }
    if n == 2 {
        st.out.append("while (1) {\n");
    } else {
        st.out.append("while (");
        push_join(&mut st.out, w, 1, n - 1, " ");
        st.out.append(") {\n");
        assert(st.out@ =~= st0.out + ("while ("@ + join(ws.subrange(1, n - 1), " "@) + ") {\n"@));
    }
    Ok(())
}

fn call_line_exec(
    st: &mut TranslationState,
    line_nr: usize,
    line: &Vec<char>,
    w: &Vec<Vec<char>>,
    stdlib: &Vec<FunctionDeclaration>,
) -> (res: Result<(), CompileError>)
    requires
        line_ready(old(st)@, line_nr, line@, w.deep_view()),
        stdlib.deep_view() == std_lib(),
    ensures
        handled(call_line(old(st)@, line_nr as nat, line@, w.deep_view()), res, old(st)@, final(st)@),
{
    let ghost ws = w.deep_view();
    if w.len() < 2 {
        return Err(syntax_err(line_nr, line, SyntaxErrorType::General));
    }
    assert(ws.subrange(0, ws.len() as int) =~= ws);
    call_into(st, line_nr, line, w, 0, stdlib)
}

fn assign_line_exec(
    st: &mut TranslationState,
    line_nr: usize,
    line: &Vec<char>,
    w: &Vec<Vec<char>>,
    stdlib: &Vec<FunctionDeclaration>,
) -> (res: Result<(), CompileError>)
    requires
        line_ready(old(st)@, line_nr, line@, w.deep_view()),
        stdlib.deep_view() == std_lib(),
    ensures
        handled(assign_line(old(st)@, line_nr as nat, line@, w.deep_view()), res, old(st)@, final(st)@),
{
    let ghost ws = w.deep_view();
    let ghost st0 = st@;
    let n = w.len();
    if n < 3 {
        return Err(syntax_err(line_nr, line, SyntaxErrorType::General));
    }
    let is_call = word_is(w, 2, "()");
    if is_call && n < 4 {
        return Err(CompileError::MissingCallee { line_nr });
    }
    push_word(&mut st.out, w, 1);
    st.out.append(" = ");
    let ghost head = ws[1] + " = "@;
    assert(st.out@ =~= st0.out + head);
    if is_call {
        let r = call_into(st, line_nr, line, w, 2, stdlib);
        proof {
            match call_output(ws.subrange(2, n as int), st0.declared, st0.include_std, std_lib(), line_nr as nat, line@) {
                Ok(c) => {
                    assert(st.out@ =~= st0.out + (head + c));
                },
                Err(e) => {},
            }
        }
        r
    } else {
        push_join(&mut st.out, w, 2, n, " ");
        st.out.append(";\n");
        assert(st.out@ =~= st0.out + (head + join(ws.subrange(2, n as int), " "@) + ";\n"@));
        Ok(())
    }
}

fn cond_line_exec(
    st: &mut TranslationState,
    line_nr: usize,
    line: &Vec<char>,
    w: &Vec<Vec<char>>,
    open: &str,
) -> (res: Result<(), CompileError>)
    requires
        line_ready(old(st)@, line_nr, line@, w.deep_view()),
    ensures
        handled(cond_line(old(st)@, line_nr as nat, line@, w.deep_view(), open@), res, old(st)@, final(st)@),
{
    let ghost ws = w.deep_view();
    let ghost st0 = st@;
    let n = w.len();
    if n < 3 || !word_is(w, n - 1, "{") {
        return Err(syntax_err(line_nr, line, SyntaxErrorType::General));
    }
    st.out.append(open);
    push_join(&mut st.out, w, 1, n - 1, " ");
    st.out.append(") {\n");
    assert(st.out@ =~= st0.out + (open@ + join(ws.subrange(1, n - 1), " "@) + ") {\n"@));
    Ok(())
}

fn else_line_exec(st: &mut TranslationState, line_nr: usize, line: &Vec<char>, w: &Vec<Vec<char>>) -> (res: Result<(), CompileError>)
    requires
        line_ready(old(st)@, line_nr, line@, w.deep_view()),
    ensures
        handled(else_line(old(st)@, line_nr as nat, line@, w.deep_view()), res, old(st)@, final(st)@),
{
    let n = w.len();
    if n != 2 || !word_is(w, n - 1, "{") {
        return Err(syntax_err(line_nr, line, SyntaxErrorType::General));
    }
    st.out.append("else {\n");
    Ok(())
}

fn c_line_exec(st: &mut TranslationState, line_nr: usize, line: &Vec<char>, w: &Vec<Vec<char>>) -> (res: Result<(), CompileError>)
    requires
        line_ready(old(st)@, line_nr, line@, w.deep_view()),
        trim(line@).len() > 0,
    ensures
        handled(c_line(old(st)@, line_nr as nat, line@, w.deep_view()), res, old(st)@, final(st)@),
{
    let ghost st0 = st@;
    if w.len() == 1 {
        return Err(syntax_err(line_nr, line, SyntaxErrorType::General));
    }
    let t = trim_chars(line);
    let mut rest: Vec<char> = Vec::new();
    let mut k: usize = 1;
    while k < t.len()
        invariant
            1 <= k <= t@.len(),
            rest@ == t@.subrange(1, k as int),
        decreases t@.len() - k,
    {
        rest.push(t[k]);
        k += 1;
    }
    assert(rest@ =~= t@.drop_first());
    let code = trim_chars(&rest);
    push_all(&mut st.out, &code);
    st.out.append("\n");
    assert(st.out@ =~= st0.out + (trim(trim(line@).drop_first()) + "\n"@));
    Ok(())
}

fn export_line_exec(st: &mut TranslationState, line_nr: usize, line: &Vec<char>, w: &Vec<Vec<char>>) -> (res: Result<(), CompileError>)
    requires
        line_ready(old(st)@, line_nr, line@, w.deep_view()),
    ensures
        handled(export_line(old(st)@, line_nr as nat, line@, w.deep_view()), res, old(st)@, final(st)@),
{
    let ghost ws = w.deep_view();
    let ghost st0 = st@;
    if w.len() < 3 {
        return Err(syntax_err(line_nr, line, SyntaxErrorType::General));
    }
    assert(ws[2] == w@[2]@);
    assert(ws[1] == w@[1]@);
    match parse_usize_chars(&w[2]) {
        Some(k) => {
            let name = string_of(&w[1]);
            let ghost before = st.declared.deep_view();
            st.declared.push(FunctionDeclaration { name, n_args: k });
            proof {
                lemma_words_fit(ws, line@, 1);
                assert(st.declared.deep_view() =~= before.push((ws[1], k)));
            }
            Ok(())
        },
        None => Err(syntax_err(line_nr, line, SyntaxErrorType::General)),
    }
}

fn step_line_exec(
    st: &mut TranslationState,
    line_nr: usize,
    line: &Vec<char>,
    w: &Vec<Vec<char>>,
    step: &str,
) -> (res: Result<(), CompileError>)
    requires
        line_ready(old(st)@, line_nr, line@, w.deep_view()),
    ensures
        handled(step_line(old(st)@, line_nr as nat, line@, w.deep_view(), step@), res, old(st)@, final(st)@),
{
    let ghost ws = w.deep_view();
    let ghost st0 = st@;
    if w.len() < 2 {
        return Err(syntax_err(line_nr, line, SyntaxErrorType::General));
    }
    push_word(&mut st.out, w, 1);
    st.out.append(" = ");
    push_word(&mut st.out, w, 1);
    st.out.append(step);
    assert(st.out@ =~= st0.out + (ws[1] + " = "@ + ws[1] + step@));
    Ok(())
}

fn ret_line_exec(st: &mut TranslationState, line: &Vec<char>)
    ensures
        final(st)@ == with_out(old(st)@, "return "@ + trim(remove_all(trim(line@), "ret"@)) + ";\n"@),
{
    let ghost st0 = st@;
    let t = trim_chars(line);
    let pat = chars_of("ret");
    proof { reveal_strlit("ret"); }
    assert(pat@.len() == 3);
    let removed = remove_all_chars(&t, &pat);
    let value = trim_chars(&removed);
    st.out.append("return ");
    push_all(&mut st.out, &value);
    st.out.append(";\n");
    assert(st.out@ =~= st0.out + ("return "@ + trim(remove_all(trim(line@), "ret"@)) + ";\n"@));
}

/// Translates one line that is neither blank nor a comment.
fn compile_line_exec(
    st: &mut TranslationState,
    line_nr: usize,
    line: &Vec<char>,
    stdlib: &Vec<FunctionDeclaration>,
) -> (res: Result<(), CompileError>)
    requires
        !skipped(line@),
        names_fit(old(st)@.declared),
        line@.len() < usize::MAX,
        stdlib.deep_view() == std_lib(),
    ensures
        handled(compile_line(old(st)@, line_nr as nat, line@), res, old(st)@, final(st)@),
{
    let w = split_words(line);
    proof {
        lemma_words_shape(line@);
    }
    if word_is(&w, 0, "fn") {
        fn_line_exec(st, line_nr, line, &w)
    } else if word_is(&w, 0, "var") {
        var_line_exec(st, line_nr, line, &w, stdlib)
    } else if word_is(&w, 0, "loop") {
        loop_line_exec(st, line_nr, line, &w)
    } else if word_is(&w, 0, "()") {
        call_line_exec(st, line_nr, line, &w, stdlib)
    } else if word_is(&w, 0, "=") {
        assign_line_exec(st, line_nr, line, &w, stdlib)
    } else if word_is(&w, 0, "}") {
        st.out.append("}\n");
        Ok(())
    } else if word_is(&w, 0, "ret") {
        ret_line_exec(st, line);
        Ok(())
    } else if word_is(&w, 0, "continue") {
        st.out.append("continue;\n");
        Ok(())
    } else if word_is(&w, 0, "if") {
        cond_line_exec(st, line_nr, line, &w, "if (")
    } else if word_is(&w, 0, "elif") {
        cond_line_exec(st, line_nr, line, &w, "else if (")
    } else if word_is(&w, 0, "else") {
        else_line_exec(st, line_nr, line, &w)
    } else if word_is(&w, 0, "C") {
        c_line_exec(st, line_nr, line, &w)
    } else if word_is(&w, 0, "export") {
        export_line_exec(st, line_nr, line, &w)
    } else if word_is(&w, 0, "++") {
        step_line_exec(st, line_nr, line, &w, " + 1;\n")
    } else if word_is(&w, 0, "--") {
        step_line_exec(st, line_nr, line, &w, " - 1;\n")
    } else {
        Err(syntax_err(line_nr, line, SyntaxErrorType::UnknownKeyword))
    }
}

/// Whether `line` is blank or a comment.
fn is_skipped(line: &Vec<char>) -> (res: bool)
    ensures
        res == skipped(line@),
{
    let t = trim_chars(line);
    t.len() == 0 || (t.len() >= 2 && t[0] == '/' && t[1] == '/')
}

/// Whether the words `w` of a first line run together read `//nostd`.
fn is_nostd_words(w: &Vec<Vec<char>>) -> (res: bool)
    ensures
        res == (join(w.deep_view(), Seq::<char>::empty()) == "//nostd"@),
{
    let mut joined = String::new();
    push_join(&mut joined, w, 0, w.len(), "");
    proof {
        reveal_strlit("");
        assert(""@ =~= Seq::<char>::empty());
        assert(w.deep_view().subrange(0, w@.len() as int) =~= w.deep_view());
    }
    let c = chars_of(joined.as_str());
    crate::text::eq_str(&c, "//nostd")
}

/// Translates a program into C.
///
/// Reads the program line by line: a first line whose words read `//nostd`
/// leaves the standard library out, blank lines and `//` comments are
/// skipped, and every other line is translated by its first word. The first
/// line that breaks a rule ends the translation with its error.
pub fn compile(source_code: &str) -> (res: Result<Compiled, CompileError>)
    requires
        source_code@.len() < usize::MAX,
    ensures
        match compile_spec(source_code@) {
            Ok((include_std, code)) => res matches Ok(c) && c.include_std == include_std && c.code@
                == code,
            Err(e) => res matches Err(ce) && ce@ == e,
        },
        res matches Err(CompileError::Syntax(e)) ==> syntax_error_ok(e.line_nr, e.line@, e.error_type),
{
    let ghost s = source_code@;
    let src = chars_of(source_code);
    let ls = split_lines_chars(&src);
    let ghost lns = lines(s);
    let stdlib = std_lib_functions();
    let mut st = TranslationState { include_std: true, declared: Vec::new(), out: String::new() };
    proof {
        lemma_lines_from_bound(s, 0);
        lemma_std_lib_names();
        assert(st.declared.deep_view() =~= Seq::<Decl>::empty());
        assert(st.out@ =~= Seq::<char>::empty());
        assert(st@ == initial_translation());
    }
    let mut i: usize = 0;
    while i < ls.len()
        invariant
            ls.deep_view() == lns,
            lns == lines(s),
            s == source_code@,
            s.len() < usize::MAX,
            forall|k: int| 0 <= k < lns.len() ==> (#[trigger] lns[k]).len() <= s.len(),
            forall|k: int| 0 <= k < std_lib().len() ==> (#[trigger] std_lib()[k]).0.len() <= 21,
            stdlib.deep_view() == std_lib(),
            i <= lns.len(),
            i == 0 ==> st@ == initial_translation(),
            compile_from(lns, 0, initial_translation()) == compile_from(lns, i as int, st@),
            names_fit(st@.declared),
        decreases lns.len() - i,
    {
        let line = &ls[i];
        assert(lns[i as int] == line@);
        let ghost st_before = st@;
        if i == 0 {
            let w0 = split_words(line);
            if is_nostd_words(&w0) {
                st.include_std = false;
            } else {
                st.declared = std_lib_functions();
            }
            assert(st@ =~= first_line_state(st_before, line@));
        }
        if !is_skipped(line) {
            match compile_line_exec(&mut st, i, line, &stdlib) {
                Ok(()) => {},
                Err(e) => {
                    assert(compile_from(lns, i as int, st_before) == Err::<Translation, Failure>(e@));
                    assert(compile_from(lns, 0, initial_translation()) == Err::<Translation, Failure>(e@));
                    assert(compile_spec(s) == Err::<(bool, Seq<char>), Failure>(e@));
                    proof {
                        failure_names_a_source_line(s);
                    }
                    return Err(e);
                },
            }
        }
        i += 1;
    }
    Ok(Compiled { include_std: st.include_std, code: st.out })
}

/// What a failure says of where it happened.
pub open spec fn failure_line_nr(e: Failure) -> nat {
    match e {
        Failure::Syntax { line_nr, .. } => line_nr,
        Failure::MissingCallee { line_nr } => line_nr,
    }
}

/// A failure on line `line_nr` reading `line`.
pub open spec fn located(e: Failure, line_nr: nat, line: Seq<char>) -> bool {
    match e {
        Failure::Syntax { line_nr: n, line: l, .. } => n == line_nr && l == line,
        Failure::MissingCallee { line_nr: n } => n == line_nr,
    }
}

proof fn lemma_call_output_located(
    toks: Seq<Seq<char>>,
    declared: Seq<Decl>,
    include_std: bool,
    stdlib: Seq<Decl>,
    line_nr: nat,
    line: Seq<char>,
)
    ensures
        call_output(toks, declared, include_std, stdlib, line_nr, line) matches Err(e) ==> located(
            e,
            line_nr,
            line,
        ),
{
}

/// A line's translation keeps the standard-library choice, and any failure
/// it ends in is located at that line.
proof fn lemma_compile_line(st: Translation, line_nr: nat, line: Seq<char>)
    ensures
        compile_line(st, line_nr, line) matches Ok(st2) ==> st2.include_std == st.include_std,
        compile_line(st, line_nr, line) matches Err(e) ==> located(e, line_nr, line),
        !skipped(line) ==> (compile_line(st, line_nr, line) matches Err(e) ==> reportable(e)),
{
    let w = words(line);
    reveal_strlit("var");
    reveal_strlit("=");
    reveal_strlit("()");
    lemma_words_shape(line);
    lemma_call_output_located(w, st.declared, st.include_std, std_lib(), line_nr, line);
    if w.len() > 3 {
        lemma_call_output_located(w.subrange(3, w.len() as int), st.declared, st.include_std, std_lib(), line_nr, line);
    }
    if w.len() > 2 {
        lemma_call_output_located(w.subrange(2, w.len() as int), st.declared, st.include_std, std_lib(), line_nr, line);
    }
}

proof fn lemma_compile_from(ls: Seq<Seq<char>>, i: int, st: Translation)
    requires
        1 <= i <= ls.len(),
    ensures
        compile_from(ls, i, st) matches Ok(st2) ==> st2.include_std == st.include_std,
        compile_from(ls, i, st) matches Err(e) ==> i <= failure_line_nr(e) < ls.len()
            && located(e, failure_line_nr(e), ls[failure_line_nr(e) as int]) && reportable(e),
    decreases ls.len() - i,
{
    if i < ls.len() {
        let line = ls[i];
        if skipped(line) {
            lemma_compile_from(ls, i + 1, st);
        } else {
            lemma_compile_line(st, i as nat, line);
            match compile_line(st, i as nat, line) {
                Ok(st2) => {
                    lemma_compile_from(ls, i + 1, st2);
                },
                Err(e) => {},
            }
        }
    }
}

/// A failure whose report can be written: the words that the report quotes
/// are on the line.
pub open spec fn reportable(e: Failure) -> bool {
    match e {
        Failure::Syntax { line, error_type, .. } => {
            &&& error_type == SyntaxErrorType::UnknownKeyword ==> words(line).len() >= 1
            &&& (error_type == SyntaxErrorType::FunctionDoesntExist || error_type
                == SyntaxErrorType::StdLibFuncNoStd) ==> has_called_name(line)
        },
        Failure::MissingCallee { .. } => true,
    }
}

/// The standard library is left out exactly when the program's first line,
/// its whitespace removed, reads `//nostd`.
pub proof fn nostd_decides_std(source: Seq<char>)
    ensures
        compile_spec(source) matches Ok((include_std, _)) ==> include_std == !(lines(source).len() > 0
            && is_nostd(lines(source)[0])),
{
    let ls = lines(source);
    let init = initial_translation();
    if ls.len() > 0 {
        let st1 = first_line_state(init, ls[0]);
        assert(st1.include_std == !is_nostd(ls[0]));
        lemma_compile_from(ls, 1, st1);
        if !skipped(ls[0]) {
            lemma_compile_line(st1, 0, ls[0]);
            match compile_line(st1, 0, ls[0]) {
                Ok(st2) => {
                    lemma_compile_from(ls, 1, st2);
                },
                Err(_) => {},
            }
        }
    }
}

/// A failed translation names a line of the program: its number is a line
/// number of the source and, for a syntax error, its text is that line, which
/// holds the words its report quotes.
pub proof fn failure_names_a_source_line(source: Seq<char>)
    ensures
        compile_spec(source) matches Err(e) ==> failure_line_nr(e) < lines(source).len() && located(
            e,
            failure_line_nr(e),
            lines(source)[failure_line_nr(e) as int],
        ) && reportable(e),
{
    let ls = lines(source);
    let init = initial_translation();
    if ls.len() > 0 {
        let st1 = first_line_state(init, ls[0]);
        lemma_compile_from(ls, 1, st1);
        if !skipped(ls[0]) {
            lemma_compile_line(st1, 0, ls[0]);
            match compile_line(st1, 0, ls[0]) {
                Ok(st2) => {
                    lemma_compile_from(ls, 1, st2);
                },
                Err(_) => {},
            }
        }
    }
}

/// A hint, when there is one, is the name of a declared function within
/// distance 2 of the unknown name.
pub proof fn hint_is_a_close_declared_name(decls: Seq<Decl>, name: Seq<char>)
    ensures
        suggestion(decls, name).len() > 0 ==> exists|k: int|
            0 <= k < decls.len() && (#[trigger] decls[k]).0 == suggestion(decls, name) && edit_distance(
                decls[k].0,
                name,
            ) < 3,
    decreases decls.len(),
{
    if decls.len() > 0 {
        let pre = decls.drop_last();
        hint_is_a_close_declared_name(pre, name);
        let best = suggestion(pre, name);
        let last = decls.len() - 1;
        if suggestion(decls, name) == best && best.len() > 0 {
            let k = choose|k: int|
                0 <= k < pre.len() && (#[trigger] pre[k]).0 == best && edit_distance(pre[k].0, name) < 3;
            assert(decls[k] == pre[k]);
        } else if suggestion(decls, name).len() > 0 {
            assert(decls[last].0 == suggestion(decls, name));
        }
    }
}

/// `eprint` and `eprintln` mirror `print` and `println` on the error stream:
/// the same call with the function name prefixed by `e` gives the same C
/// statement, opened by `fprintf(stderr, ` in place of `printf(`.
pub proof fn eprint_mirrors_print(
    toks: Seq<Seq<char>>,
    declared: Seq<Decl>,
    include_std: bool,
    stdlib: Seq<Decl>,
    line_nr: nat,
    line: Seq<char>,
)
    requires
        toks.len() >= 2,
        toks[1] == "print"@ || toks[1] == "println"@,
    ensures
        ({
            let etoks = toks.update(1, "e"@ + toks[1]);
            let body = print_body(toks[1] == "println"@, read_underscores(print_text(toks)), toks);
            &&& call_output(toks, declared, include_std, stdlib, line_nr, line) == Ok::<
                Seq<char>,
                Failure,
            >("printf("@ + body)
            &&& call_output(etoks, declared, include_std, stdlib, line_nr, line) == Ok::<
                Seq<char>,
                Failure,
            >("fprintf(stderr, "@ + body)
        }),
{
    reveal_strlit("e");
    reveal_strlit("print");
    reveal_strlit("println");
    reveal_strlit("eprint");
    reveal_strlit("eprintln");
    let etoks = toks.update(1, "e"@ + toks[1]);
    assert(etoks.subrange(2, etoks.len() as int) =~= toks.subrange(2, toks.len() as int));
    if toks.len() >= 3 {
        assert(etoks.subrange(3, etoks.len() as int) =~= toks.subrange(3, toks.len() as int));
    }
    assert(print_text(etoks) == print_text(toks));
    if toks[1] == "print"@ {
        assert(etoks[1] =~= "eprint"@);
        assert(etoks[1] != "print"@);
        assert(toks[1] != "println"@);
    } else {
        assert(etoks[1] =~= "eprintln"@);
        assert(etoks[1] != "print"@);
        assert(etoks[1] != "eprint"@);
        assert(etoks[1] != "println"@);
        assert(toks[1] != "print"@);
        assert(toks[1] != "eprint"@);
    }
}

/// The keywords and call marker, read character by character.
proof fn lemma_keywords()
    ensures
        "fn"@ =~= seq!['f', 'n'],
        "var"@ =~= seq!['v', 'a', 'r'],
        "loop"@ =~= seq!['l', 'o', 'o', 'p'],
        "()"@ =~= seq!['(', ')'],
        "="@ =~= seq!['='],
        "}"@ =~= seq!['}'],
        "ret"@ =~= seq!['r', 'e', 't'],
        "continue"@ =~= seq!['c', 'o', 'n', 't', 'i', 'n', 'u', 'e'],
        "if"@ =~= seq!['i', 'f'],
        "elif"@ =~= seq!['e', 'l', 'i', 'f'],
        "{"@ =~= seq!['{'],
{
    reveal_strlit("fn");
    reveal_strlit("var");
    reveal_strlit("loop");
    reveal_strlit("()");
    reveal_strlit("=");
    reveal_strlit("}");
    reveal_strlit("ret");
    reveal_strlit("continue");
    reveal_strlit("if");
    reveal_strlit("elif");
    reveal_strlit("{");
}

/// `decls[k]` is the first declaration named `name`.
pub open spec fn first_declared(decls: Seq<Decl>, name: Seq<char>, k: int) -> bool {
    &&& 0 <= k < decls.len()
    &&& decls[k].0 == name
    &&& forall|j: int| 0 <= j < k ==> (#[trigger] decls[j]).0 != name
}

/// Whether `name` is none of the four print functions.
pub open spec fn not_a_print(name: Seq<char>) -> bool {
    &&& name != "print"@
    &&& name != "eprint"@
    &&& name != "println"@
    &&& name != "eprintln"@
}

proof fn lemma_first_declared(decls: Seq<Decl>, name: Seq<char>, k: int)
    requires
        first_declared(decls, name, k),
    ensures
        find_decl(decls, name) == Some(decls[k]),
{
    lemma_find_decl_skip(decls, name, k);
    assert(decls.skip(k)[0] == decls[k]);
}

/// The C call `f(a1, .., ak);`.
pub open spec fn c_call(f: Seq<char>, args: Seq<Seq<char>>) -> Seq<char> {
    f + "("@ + join(args, ", "@) + ");\n"@
}

proof fn lemma_declared_call_output(
    toks: Seq<Seq<char>>,
    f: Seq<char>,
    args: Seq<Seq<char>>,
    declared: Seq<Decl>,
    include_std: bool,
    line_nr: nat,
    line: Seq<char>,
    k: int,
)
    requires
        toks == seq!["()"@, f] + args,
        not_a_print(f),
        first_declared(declared, f, k),
        declared[k].1 == args.len(),
    ensures
        call_output(toks, declared, include_std, std_lib(), line_nr, line) == Ok::<
            Seq<char>,
            Failure,
        >(c_call(f, args)),
{
    lemma_first_declared(declared, f, k);
    assert(toks[1] == f);
    assert(toks.subrange(2, toks.len() as int) =~= args);
    if args.len() == 0 {
        reveal_strlit("(");
        reveal_strlit(");\n");
        reveal_strlit("();\n");
        assert(join(args, ", "@) =~= Seq::<char>::empty());
        assert(f + "("@ + join(args, ", "@) + ");\n"@ =~= f + "();\n"@);
    }
}

/// A call line `() f a1 .. ak` of a function whose first declaration takes
/// `k` arguments appends `f(a1, .., ak);` and changes nothing else.
pub proof fn declared_call_translates(
    st: Translation,
    line_nr: nat,
    line: Seq<char>,
    f: Seq<char>,
    args: Seq<Seq<char>>,
    k: int,
)
    requires
        words(line) == seq!["()"@, f] + args,
        not_a_print(f),
        first_declared(st.declared, f, k),
        st.declared[k].1 == args.len(),
    ensures
        compile_line(st, line_nr, line) == Ok::<Translation, Failure>(
            Translation {
                include_std: st.include_std,
                declared: st.declared,
                out: st.out + f + "("@ + join(args, ", "@) + ");\n"@,
            },
        ),
{
    lemma_keywords();
    let w = words(line);
    assert(w[0] == "()"@);
    lemma_declared_call_output(w, f, args, st.declared, st.include_std, line_nr, line, k);
    assert(st.out + c_call(f, args) =~= st.out + f + "("@ + join(args, ", "@) + ");\n"@);
}

/// An assignment of a call, `= v () f a1 .. ak`, of a function whose first
/// declaration takes `k` arguments appends `v = f(a1, .., ak);`: the call's
/// result is assigned to `v`.
pub proof fn assigned_call_translates(
    st: Translation,
    line_nr: nat,
    line: Seq<char>,
    v: Seq<char>,
    f: Seq<char>,
    args: Seq<Seq<char>>,
    k: int,
)
    requires
        words(line) == seq!["="@, v, "()"@, f] + args,
        not_a_print(f),
        first_declared(st.declared, f, k),
        st.declared[k].1 == args.len(),
    ensures
        compile_line(st, line_nr, line) == Ok::<Translation, Failure>(
            Translation {
                include_std: st.include_std,
                declared: st.declared,
                out: st.out + v + " = "@ + f + "("@ + join(args, ", "@) + ");\n"@,
            },
        ),
{
    lemma_keywords();
    let w = words(line);
    assert(w[0] == "="@);
    assert(w[2] == "()"@);
    let toks = w.subrange(2, w.len() as int);
    assert(toks =~= seq!["()"@, f] + args);
    lemma_declared_call_output(toks, f, args, st.declared, st.include_std, line_nr, line, k);
    assert(st.out + (v + " = "@ + c_call(f, args)) =~= st.out + v + " = "@ + f + "("@ + join(
        args,
        ", "@,
    ) + ");\n"@);
}

/// A declaration initialised by a call, `var t v () f a1 .. ak`, of a function
/// whose first declaration takes `k` arguments appends `t v = f(a1, .., ak);`.
pub proof fn declared_by_call_translates(
    st: Translation,
    line_nr: nat,
    line: Seq<char>,
    t: Seq<char>,
    v: Seq<char>,
    f: Seq<char>,
    args: Seq<Seq<char>>,
    k: int,
)
    requires
        words(line) == seq!["var"@, t, v, "()"@, f] + args,
        not_a_print(f),
        first_declared(st.declared, f, k),
        st.declared[k].1 == args.len(),
    ensures
        compile_line(st, line_nr, line) == Ok::<Translation, Failure>(
            Translation {
                include_std: st.include_std,
                declared: st.declared,
                out: st.out + t + " "@ + v + " = "@ + f + "("@ + join(args, ", "@) + ");\n"@,
            },
        ),
{
    lemma_keywords();
    let w = words(line);
    assert(w[0] == "var"@);
    assert(w[3] == "()"@);
    let toks = w.subrange(3, w.len() as int);
    assert(toks =~= seq!["()"@, f] + args);
    lemma_declared_call_output(toks, f, args, st.declared, st.include_std, line_nr, line, k);
    assert(st.out + (t + " "@ + v + " = "@ + c_call(f, args)) =~= st.out + t + " "@ + v
        + " = "@ + f + "("@ + join(args, ", "@) + ");\n"@);
}

/// A loop with a condition, `loop c1 .. ck {` with `k >= 1`, becomes
/// `while (c1 .. ck) {`; only the bare `loop {` becomes the endless
/// `while (1) {`.
pub proof fn loop_translates(st: Translation, line_nr: nat, line: Seq<char>, cond: Seq<Seq<char>>)
    requires
        words(line) == seq!["loop"@] + cond + seq!["{"@],
    ensures
        compile_line(st, line_nr, line) == Ok::<Translation, Failure>(
            Translation {
                include_std: st.include_std,
                declared: st.declared,
                out: st.out + if cond.len() == 0 {
                    "while (1) {\n"@
                } else {
                    "while ("@ + join(cond, " "@) + ") {\n"@
                },
            },
        ),
{
    lemma_keywords();
    let w = words(line);
    assert(w[0] == "loop"@);
    assert(w.last() == "{"@);
    assert(w.subrange(1, w.len() - 1) =~= cond);
}

/// A condition `if c1 .. ck {` (or `elif`) with `k >= 1` is always accepted
/// and becomes `if (c1 .. ck) {` (or `else if (c1 .. ck) {`).
pub proof fn condition_translates(
    st: Translation,
    line_nr: nat,
    line: Seq<char>,
    cond: Seq<Seq<char>>,
    elif: bool,
)
    requires
        words(line) == seq![if elif { "elif"@ } else { "if"@ }] + cond + seq!["{"@],
        cond.len() >= 1,
    ensures
        compile_line(st, line_nr, line) == Ok::<Translation, Failure>(
            Translation {
                include_std: st.include_std,
                declared: st.declared,
                out: st.out + if elif {
                    "else if ("@
                } else {
                    "if ("@
                } + join(cond, " "@) + ") {\n"@,
            },
        ),
{
    lemma_keywords();
    let w = words(line);
    assert(w[0] == if elif { "elif"@ } else { "if"@ });
    assert(w.last() == "{"@);
    assert(w.subrange(1, w.len() - 1) =~= cond);
    let open = if elif { "else if ("@ } else { "if ("@ };
    assert(st.out + (open + join(cond, " "@) + ") {\n"@) =~= st.out + open + join(cond, " "@)
        + ") {\n"@);
}

/// A condition line fails exactly when it has fewer than three words or does
/// not end in `{`, and then with a general syntax error on that line.
pub proof fn condition_fails_only_when_malformed(st: Translation, line_nr: nat, line: Seq<char>)
    requires
        words(line).len() >= 1,
        words(line)[0] == "if"@ || words(line)[0] == "elif"@,
    ensures
        compile_line(st, line_nr, line) is Err <==> (words(line).len() < 3 || words(line).last()
            != "{"@),
        compile_line(st, line_nr, line) is Err ==> compile_line(st, line_nr, line) == Err::<
            Translation,
            Failure,
        >(Failure::Syntax { line_nr, line, error_type: SyntaxErrorType::General, additional: None }),
{
    lemma_keywords();
}

/// The opening of a print call with words `toks` (`toks[1]` is `print`), and
/// the position in its output of the quote that closes the format string.
pub open spec fn format_close(toks: Seq<Seq<char>>, c: Seq<char>) -> int {
    if toks.len() >= 3 && toks[2].len() > 0 && toks[2][0] == '%' {
        8 + toks[2].len() as int
    } else {
        c.len() - 4
    }
}

proof fn lemma_join_ends(ws: Seq<Seq<char>>, sep: Seq<char>)
    requires
        ws.len() >= 1,
        forall|k: int| 0 <= k < ws.len() ==> (#[trigger] ws[k]).len() > 0,
    ensures
        join(ws, sep).len() > 0,
        join(ws, sep)[0] == ws[0][0],
        join(ws, sep).last() == ws.last().last(),
    decreases ws.len(),
{
    if ws.len() > 1 {
        lemma_join_ends(ws.drop_last(), sep);
        assert(ws.drop_last()[0] == ws[0]);
    }
}

/// `println` is `print` followed by a line feed: for the same words, its
/// statement is the `print` statement with the escape `\n` put in front of the
/// quote that closes the format string. (A string literal argument is taken to
/// end in its closing quote.)
pub proof fn println_adds_newline(
    toks: Seq<Seq<char>>,
    declared: Seq<Decl>,
    include_std: bool,
    stdlib: Seq<Decl>,
    line_nr: nat,
    line: Seq<char>,
)
    requires
        toks.len() >= 2,
        toks[1] == "print"@,
        forall|k: int| 0 <= k < toks.len() ==> (#[trigger] toks[k]).len() > 0,
        toks.len() >= 3 && toks[2][0] == '"' ==> toks.last().last() == '"',
    ensures
        ({
            let ltoks = toks.update(1, "println"@);
            call_output(toks, declared, include_std, stdlib, line_nr, line) matches Ok(c) && {
                let q = format_close(toks, c);
                &&& 0 <= q < c.len()
                &&& c[q] == '"'
                &&& call_output(ltoks, declared, include_std, stdlib, line_nr, line) == Ok::<
                    Seq<char>,
                    Failure,
                >(c.subrange(0, q) + "\\n"@ + c.subrange(q, c.len() as int))
            }
        }),
{
    reveal_strlit("print");
    reveal_strlit("println");
    reveal_strlit("eprint");
    reveal_strlit("printf(\"");
    reveal_strlit("printf(");
    reveal_strlit("\\n\");\n");
    reveal_strlit(");\n");
    reveal_strlit("\"");
    reveal_strlit("\\n\", ");
    reveal_strlit("\", ");
    reveal_strlit("\");\n");
    reveal_strlit("\\n");
    let ltoks = toks.update(1, "println"@);
    assert(ltoks[1] == "println"@);
    assert(ltoks[1] != "print"@);
    assert(ltoks.subrange(2, ltoks.len() as int) =~= toks.subrange(2, toks.len() as int));
    if toks.len() >= 3 {
        assert(ltoks.subrange(3, ltoks.len() as int) =~= toks.subrange(3, toks.len() as int));
        let rest = toks.subrange(2, toks.len() as int);
        assert forall|k: int| 0 <= k < rest.len() implies (#[trigger] rest[k]).len() > 0 by {
            assert(rest[k] == toks[k + 2]);
        }
        lemma_join_ends(rest, " "@);
        assert(rest[0] == toks[2]);
        assert(rest.last() == toks.last());
    }
    let text = print_text(toks);
    let p = read_underscores(text);
    assert(print_text(ltoks) == text);
    let c = "printf("@ + print_body(false, p, toks);
    let lc = "printf("@ + print_body(true, p, toks);
    assert(call_output(toks, declared, include_std, stdlib, line_nr, line) == Ok::<Seq<char>, Failure>(c));
    assert(call_output(ltoks, declared, include_std, stdlib, line_nr, line) == Ok::<Seq<char>, Failure>(lc));
    let q = format_close(toks, c);
    if p.len() > 0 && p[0] == '"' {
        assert(text[0] == '"');
        assert(p.last() == '"') by {
            assert(p[p.len() - 1] == text[text.len() - 1]);
        }
        assert(c =~= "printf("@ + p + ");\n"@);
        assert(q == c.len() - 4);
        assert(lc =~= c.subrange(0, q) + "\\n"@ + c.subrange(q, c.len() as int));
    } else if p.len() > 0 && p[0] == '%' {
        assert(text[0] == '%');
        let rest = join(toks.subrange(3, toks.len() as int), " "@);
        assert(c =~= "printf(\""@ + toks[2] + "\", "@ + rest + ");\n"@);
        assert(q == 8 + toks[2].len());
        assert(lc =~= c.subrange(0, q) + "\\n"@ + c.subrange(q, c.len() as int));
    } else {
        if toks.len() >= 3 {
            assert(text[0] != '%' && text[0] != '"');
        }
        assert(c =~= "printf(\""@ + p + "\");\n"@);
        assert(q == c.len() - 4);
        assert(lc =~= c.subrange(0, q) + "\\n"@ + c.subrange(q, c.len() as int));
    }
}

proof fn lemma_std_entry_0()
    ensures
        find_decl(std_lib(), "print"@) == Some(("print"@, 0usize)),
{
    reveal_strlit("print");
    let t = std_lib();
    reveal_with_fuel(find_decl, 2);
}

proof fn lemma_std_entry_1()
    ensures
        find_decl(std_lib(), "println"@) == Some(("println"@, 0usize)),
{
    reveal_strlit("print");
    reveal_strlit("println");
    assert("println"@.len() != "print"@.len());
    let t = std_lib();
    reveal_with_fuel(find_decl, 3);
}

proof fn lemma_std_entry_2()
    ensures
        find_decl(std_lib(), "helloworld"@) == Some(("helloworld"@, 0usize)),
{
    reveal_strlit("print");
    reveal_strlit("println");
    reveal_strlit("helloworld");
    assert("helloworld"@[0] != "print"@[0]);
    assert("helloworld"@[0] != "println"@[0]);
    let t = std_lib();
    reveal_with_fuel(find_decl, 4);
}

proof fn lemma_std_entry_3()
    ensures
        find_decl(std_lib(), "initVecString"@) == Some(("initVecString"@, 1usize)),
{
    reveal_strlit("print");
    reveal_strlit("println");
    reveal_strlit("helloworld");
    reveal_strlit("initVecString");
    assert("initVecString"@[0] != "print"@[0]);
    assert("initVecString"@[0] != "println"@[0]);
    assert("initVecString"@[0] != "helloworld"@[0]);
    let t = std_lib();
    reveal_with_fuel(find_decl, 5);
}

proof fn lemma_std_entry_4()
    ensures
        find_decl(std_lib(), "newVecString"@) == Some(("newVecString"@, 0usize)),
{
    reveal_strlit("print");
    reveal_strlit("println");
    reveal_strlit("helloworld");
    reveal_strlit("initVecString");
    reveal_strlit("newVecString");
    assert("newVecString"@[0] != "print"@[0]);
    assert("newVecString"@[0] != "println"@[0]);
    assert("newVecString"@[0] != "helloworld"@[0]);
    assert("newVecString"@[0] != "initVecString"@[0]);
    let t = std_lib();
    reveal_with_fuel(find_decl, 6);
}

proof fn lemma_std_entry_5()
    ensures
        find_decl(std_lib(), "resizeVecString"@) == Some(("resizeVecString"@, 1usize)),
{
    reveal_strlit("print");
    reveal_strlit("println");
    reveal_strlit("helloworld");
    reveal_strlit("initVecString");
    reveal_strlit("newVecString");
    reveal_strlit("resizeVecString");
    assert("resizeVecString"@[0] != "print"@[0]);
    assert("resizeVecString"@[0] != "println"@[0]);
    assert("resizeVecString"@[0] != "helloworld"@[0]);
    assert("resizeVecString"@[0] != "initVecString"@[0]);
    assert("resizeVecString"@[0] != "newVecString"@[0]);
    let t = std_lib();
    reveal_with_fuel(find_decl, 7);
}

proof fn lemma_std_entry_6()
    ensures
        find_decl(std_lib(), "freeVecString"@) == Some(("freeVecString"@, 1usize)),
{
    reveal_strlit("print");
    reveal_strlit("println");
    reveal_strlit("helloworld");
    reveal_strlit("initVecString");
    reveal_strlit("newVecString");
    reveal_strlit("resizeVecString");
    reveal_strlit("freeVecString");
    assert("freeVecString"@[0] != "print"@[0]);
    assert("freeVecString"@[0] != "println"@[0]);
    assert("freeVecString"@[0] != "helloworld"@[0]);
    assert("freeVecString"@[0] != "initVecString"@[0]);
    assert("freeVecString"@[0] != "newVecString"@[0]);
    assert("freeVecString"@[0] != "resizeVecString"@[0]);
    let t = std_lib();
    reveal_with_fuel(find_decl, 8);
}

proof fn lemma_std_entry_7()
    ensures
        find_decl(std_lib(), "pushVecString"@) == Some(("pushVecString"@, 2usize)),
{
    reveal_strlit("print");
    reveal_strlit("println");
    reveal_strlit("helloworld");
    reveal_strlit("initVecString");
    reveal_strlit("newVecString");
    reveal_strlit("resizeVecString");
    reveal_strlit("freeVecString");
    reveal_strlit("pushVecString");
    assert("pushVecString"@[1] != "print"@[1]);
    assert("pushVecString"@[1] != "println"@[1]);
    assert("pushVecString"@[0] != "helloworld"@[0]);
    assert("pushVecString"@[0] != "initVecString"@[0]);
    assert("pushVecString"@[0] != "newVecString"@[0]);
    assert("pushVecString"@[0] != "resizeVecString"@[0]);
    assert("pushVecString"@[0] != "freeVecString"@[0]);
    let t = std_lib();
    reveal_with_fuel(find_decl, 9);
}

proof fn lemma_std_entry_8()
    ensures
        find_decl(std_lib(), "getVecString"@) == Some(("getVecString"@, 2usize)),
{
    reveal_strlit("print");
    reveal_strlit("println");
    reveal_strlit("helloworld");
    reveal_strlit("initVecString");
    reveal_strlit("newVecString");
    reveal_strlit("resizeVecString");
    reveal_strlit("freeVecString");
    reveal_strlit("pushVecString");
    reveal_strlit("getVecString");
    assert("getVecString"@[0] != "print"@[0]);
    assert("getVecString"@[0] != "println"@[0]);
    assert("getVecString"@[0] != "helloworld"@[0]);
    assert("getVecString"@[0] != "initVecString"@[0]);
    assert("getVecString"@[0] != "newVecString"@[0]);
    assert("getVecString"@[0] != "resizeVecString"@[0]);
    assert("getVecString"@[0] != "freeVecString"@[0]);
    assert("getVecString"@[0] != "pushVecString"@[0]);
    let t = std_lib();
    reveal_with_fuel(find_decl, 10);
}

proof fn lemma_std_entry_9()
    ensures
        find_decl(std_lib(), "stringSplit"@) == Some(("stringSplit"@, 2usize)),
{
    reveal_strlit("print");
    reveal_strlit("println");
    reveal_strlit("helloworld");
    reveal_strlit("initVecString");
    reveal_strlit("newVecString");
    reveal_strlit("resizeVecString");
    reveal_strlit("freeVecString");
    reveal_strlit("pushVecString");
    reveal_strlit("getVecString");
    reveal_strlit("stringSplit");
    assert("stringSplit"@[0] != "print"@[0]);
    assert("stringSplit"@[0] != "println"@[0]);
    assert("stringSplit"@[0] != "helloworld"@[0]);
    assert("stringSplit"@[0] != "initVecString"@[0]);
    assert("stringSplit"@[0] != "newVecString"@[0]);
    assert("stringSplit"@[0] != "resizeVecString"@[0]);
    assert("stringSplit"@[0] != "freeVecString"@[0]);
    assert("stringSplit"@[0] != "pushVecString"@[0]);
    assert("stringSplit"@[0] != "getVecString"@[0]);
    let t = std_lib();
    reveal_with_fuel(find_decl, 11);
}

proof fn lemma_std_entry_10()
    ensures
        find_decl(std_lib(), "stringSplitWhitespace"@) == Some(("stringSplitWhitespace"@, 1usize)),
{
    reveal_strlit("print");
    reveal_strlit("println");
    reveal_strlit("helloworld");
    reveal_strlit("initVecString");
    reveal_strlit("newVecString");
    reveal_strlit("resizeVecString");
    reveal_strlit("freeVecString");
    reveal_strlit("pushVecString");
    reveal_strlit("getVecString");
    reveal_strlit("stringSplit");
    reveal_strlit("stringSplitWhitespace");
    assert("stringSplitWhitespace"@[0] != "print"@[0]);
    assert("stringSplitWhitespace"@[0] != "println"@[0]);
    assert("stringSplitWhitespace"@[0] != "helloworld"@[0]);
    assert("stringSplitWhitespace"@[0] != "initVecString"@[0]);
    assert("stringSplitWhitespace"@[0] != "newVecString"@[0]);
    assert("stringSplitWhitespace"@[0] != "resizeVecString"@[0]);
    assert("stringSplitWhitespace"@[0] != "freeVecString"@[0]);
    assert("stringSplitWhitespace"@[0] != "pushVecString"@[0]);
    assert("stringSplitWhitespace"@[0] != "getVecString"@[0]);
    assert("stringSplitWhitespace"@.len() != "stringSplit"@.len());
    let t = std_lib();
    reveal_with_fuel(find_decl, 12);
}

proof fn lemma_std_entry_11()
    ensures
        find_decl(std_lib(), "stringTrim"@) == Some(("stringTrim"@, 1usize)),
{
    reveal_strlit("print");
    reveal_strlit("println");
    reveal_strlit("helloworld");
    reveal_strlit("initVecString");
    reveal_strlit("newVecString");
    reveal_strlit("resizeVecString");
    reveal_strlit("freeVecString");
    reveal_strlit("pushVecString");
    reveal_strlit("getVecString");
    reveal_strlit("stringSplit");
    reveal_strlit("stringSplitWhitespace");
    reveal_strlit("stringTrim");
    assert("stringTrim"@[0] != "print"@[0]);
    assert("stringTrim"@[0] != "println"@[0]);
    assert("stringTrim"@[0] != "helloworld"@[0]);
    assert("stringTrim"@[0] != "initVecString"@[0]);
    assert("stringTrim"@[0] != "newVecString"@[0]);
    assert("stringTrim"@[0] != "resizeVecString"@[0]);
    assert("stringTrim"@[0] != "freeVecString"@[0]);
    assert("stringTrim"@[0] != "pushVecString"@[0]);
    assert("stringTrim"@[0] != "getVecString"@[0]);
    assert("stringTrim"@[6] != "stringSplit"@[6]);
    assert("stringTrim"@[6] != "stringSplitWhitespace"@[6]);
    let t = std_lib();
    reveal_with_fuel(find_decl, 13);
}

proof fn lemma_std_entry_12()
    ensures
        find_decl(std_lib(), "stringEmpty"@) == Some(("stringEmpty"@, 1usize)),
{
    reveal_strlit("print");
    reveal_strlit("println");
    reveal_strlit("helloworld");
    reveal_strlit("initVecString");
    reveal_strlit("newVecString");
    reveal_strlit("resizeVecString");
    reveal_strlit("freeVecString");
    reveal_strlit("pushVecString");
    reveal_strlit("getVecString");
    reveal_strlit("stringSplit");
    reveal_strlit("stringSplitWhitespace");
    reveal_strlit("stringTrim");
    reveal_strlit("stringEmpty");
    assert("stringEmpty"@[0] != "print"@[0]);
    assert("stringEmpty"@[0] != "println"@[0]);
    assert("stringEmpty"@[0] != "helloworld"@[0]);
    assert("stringEmpty"@[0] != "initVecString"@[0]);
    assert("stringEmpty"@[0] != "newVecString"@[0]);
    assert("stringEmpty"@[0] != "resizeVecString"@[0]);
    assert("stringEmpty"@[0] != "freeVecString"@[0]);
    assert("stringEmpty"@[0] != "pushVecString"@[0]);
    assert("stringEmpty"@[0] != "getVecString"@[0]);
    assert("stringEmpty"@[6] != "stringSplit"@[6]);
    assert("stringEmpty"@[6] != "stringSplitWhitespace"@[6]);
    assert("stringEmpty"@[6] != "stringTrim"@[6]);
    let t = std_lib();
    reveal_with_fuel(find_decl, 14);
}

proof fn lemma_std_entry_13()
    ensures
        find_decl(std_lib(), "readToString"@) == Some(("readToString"@, 1usize)),
{
    reveal_strlit("print");
    reveal_strlit("println");
    reveal_strlit("helloworld");
    reveal_strlit("initVecString");
    reveal_strlit("newVecString");
    reveal_strlit("resizeVecString");
    reveal_strlit("freeVecString");
    reveal_strlit("pushVecString");
    reveal_strlit("getVecString");
    reveal_strlit("stringSplit");
    reveal_strlit("stringSplitWhitespace");
    reveal_strlit("stringTrim");
    reveal_strlit("stringEmpty");
    reveal_strlit("readToString");
    assert("readToString"@[0] != "print"@[0]);
    assert("readToString"@[0] != "println"@[0]);
    assert("readToString"@[0] != "helloworld"@[0]);
    assert("readToString"@[0] != "initVecString"@[0]);
    assert("readToString"@[0] != "newVecString"@[0]);
    assert("readToString"@[2] != "resizeVecString"@[2]);
    assert("readToString"@[0] != "freeVecString"@[0]);
    assert("readToString"@[0] != "pushVecString"@[0]);
    assert("readToString"@[0] != "getVecString"@[0]);
    assert("readToString"@[0] != "stringSplit"@[0]);
    assert("readToString"@[0] != "stringSplitWhitespace"@[0]);
    assert("readToString"@[0] != "stringTrim"@[0]);
    assert("readToString"@[0] != "stringEmpty"@[0]);
    let t = std_lib();
    reveal_with_fuel(find_decl, 15);
}

proof fn lemma_std_entry_14()
    ensures
        find_decl(std_lib(), "readToLines"@) == Some(("readToLines"@, 1usize)),
{
    reveal_strlit("print");
    reveal_strlit("println");
    reveal_strlit("helloworld");
    reveal_strlit("initVecString");
    reveal_strlit("newVecString");
    reveal_strlit("resizeVecString");
    reveal_strlit("freeVecString");
    reveal_strlit("pushVecString");
    reveal_strlit("getVecString");
    reveal_strlit("stringSplit");
    reveal_strlit("stringSplitWhitespace");
    reveal_strlit("stringTrim");
    reveal_strlit("stringEmpty");
    reveal_strlit("readToString");
    reveal_strlit("readToLines");
    assert("readToLines"@[0] != "print"@[0]);
    assert("readToLines"@[0] != "println"@[0]);
    assert("readToLines"@[0] != "helloworld"@[0]);
    assert("readToLines"@[0] != "initVecString"@[0]);
    assert("readToLines"@[0] != "newVecString"@[0]);
    assert("readToLines"@[2] != "resizeVecString"@[2]);
    assert("readToLines"@[0] != "freeVecString"@[0]);
    assert("readToLines"@[0] != "pushVecString"@[0]);
    assert("readToLines"@[0] != "getVecString"@[0]);
    assert("readToLines"@[0] != "stringSplit"@[0]);
    assert("readToLines"@[0] != "stringSplitWhitespace"@[0]);
    assert("readToLines"@[0] != "stringTrim"@[0]);
    assert("readToLines"@[0] != "stringEmpty"@[0]);
    assert("readToLines"@[6] != "readToString"@[6]);
    let t = std_lib();
    reveal_with_fuel(find_decl, 16);
}

proof fn lemma_std_entry_15()
    ensures
        find_decl(std_lib(), "readToLinesNonEmpty"@) == Some(("readToLinesNonEmpty"@, 1usize)),
{
    reveal_strlit("print");
    reveal_strlit("println");
    reveal_strlit("helloworld");
    reveal_strlit("initVecString");
    reveal_strlit("newVecString");
    reveal_strlit("resizeVecString");
    reveal_strlit("freeVecString");
    reveal_strlit("pushVecString");
    reveal_strlit("getVecString");
    reveal_strlit("stringSplit");
    reveal_strlit("stringSplitWhitespace");
    reveal_strlit("stringTrim");
    reveal_strlit("stringEmpty");
    reveal_strlit("readToString");
    reveal_strlit("readToLines");
    reveal_strlit("readToLinesNonEmpty");
    assert("readToLinesNonEmpty"@[0] != "print"@[0]);
    assert("readToLinesNonEmpty"@[0] != "println"@[0]);
    assert("readToLinesNonEmpty"@[0] != "helloworld"@[0]);
    assert("readToLinesNonEmpty"@[0] != "initVecString"@[0]);
    assert("readToLinesNonEmpty"@[0] != "newVecString"@[0]);
    assert("readToLinesNonEmpty"@[2] != "resizeVecString"@[2]);
    assert("readToLinesNonEmpty"@[0] != "freeVecString"@[0]);
    assert("readToLinesNonEmpty"@[0] != "pushVecString"@[0]);
    assert("readToLinesNonEmpty"@[0] != "getVecString"@[0]);
    assert("readToLinesNonEmpty"@[0] != "stringSplit"@[0]);
    assert("readToLinesNonEmpty"@[0] != "stringSplitWhitespace"@[0]);
    assert("readToLinesNonEmpty"@[0] != "stringTrim"@[0]);
    assert("readToLinesNonEmpty"@[0] != "stringEmpty"@[0]);
    assert("readToLinesNonEmpty"@[6] != "readToString"@[6]);
    assert("readToLinesNonEmpty"@.len() != "readToLines"@.len());
    let t = std_lib();
    reveal_with_fuel(find_decl, 17);
}

proof fn lemma_std_entry_16()
    ensures
        find_decl(std_lib(), "stringCmp"@) == Some(("stringCmp"@, 2usize)),
{
    reveal_strlit("print");
    reveal_strlit("println");
    reveal_strlit("helloworld");
    reveal_strlit("initVecString");
    reveal_strlit("newVecString");
    reveal_strlit("resizeVecString");
    reveal_strlit("freeVecString");
    reveal_strlit("pushVecString");
    reveal_strlit("getVecString");
    reveal_strlit("stringSplit");
    reveal_strlit("stringSplitWhitespace");
    reveal_strlit("stringTrim");
    reveal_strlit("stringEmpty");
    reveal_strlit("readToString");
    reveal_strlit("readToLines");
    reveal_strlit("readToLinesNonEmpty");
    reveal_strlit("stringCmp");
    assert("stringCmp"@[0] != "print"@[0]);
    assert("stringCmp"@[0] != "println"@[0]);
    assert("stringCmp"@[0] != "helloworld"@[0]);
    assert("stringCmp"@[0] != "initVecString"@[0]);
    assert("stringCmp"@[0] != "newVecString"@[0]);
    assert("stringCmp"@[0] != "resizeVecString"@[0]);
    assert("stringCmp"@[0] != "freeVecString"@[0]);
    assert("stringCmp"@[0] != "pushVecString"@[0]);
    assert("stringCmp"@[0] != "getVecString"@[0]);
    assert("stringCmp"@[6] != "stringSplit"@[6]);
    assert("stringCmp"@[6] != "stringSplitWhitespace"@[6]);
    assert("stringCmp"@[6] != "stringTrim"@[6]);
    assert("stringCmp"@[6] != "stringEmpty"@[6]);
    assert("stringCmp"@[0] != "readToString"@[0]);
    assert("stringCmp"@[0] != "readToLines"@[0]);
    assert("stringCmp"@[0] != "readToLinesNonEmpty"@[0]);
    let t = std_lib();
    reveal_with_fuel(find_decl, 18);
}

proof fn lemma_std_entry_17()
    ensures
        find_decl(std_lib(), "strlen"@) == Some(("strlen"@, 1usize)),
{
    reveal_strlit("print");
    reveal_strlit("println");
    reveal_strlit("helloworld");
    reveal_strlit("initVecString");
    reveal_strlit("newVecString");
    reveal_strlit("resizeVecString");
    reveal_strlit("freeVecString");
    reveal_strlit("pushVecString");
    reveal_strlit("getVecString");
    reveal_strlit("stringSplit");
    reveal_strlit("stringSplitWhitespace");
    reveal_strlit("stringTrim");
    reveal_strlit("stringEmpty");
    reveal_strlit("readToString");
    reveal_strlit("readToLines");
    reveal_strlit("readToLinesNonEmpty");
    reveal_strlit("stringCmp");
    reveal_strlit("strlen");
    assert("strlen"@[0] != "print"@[0]);
    assert("strlen"@[0] != "println"@[0]);
    assert("strlen"@[0] != "helloworld"@[0]);
    assert("strlen"@[0] != "initVecString"@[0]);
    assert("strlen"@[0] != "newVecString"@[0]);
    assert("strlen"@[0] != "resizeVecString"@[0]);
    assert("strlen"@[0] != "freeVecString"@[0]);
    assert("strlen"@[0] != "pushVecString"@[0]);
    assert("strlen"@[0] != "getVecString"@[0]);
    assert("strlen"@[3] != "stringSplit"@[3]);
    assert("strlen"@[3] != "stringSplitWhitespace"@[3]);
    assert("strlen"@[3] != "stringTrim"@[3]);
    assert("strlen"@[3] != "stringEmpty"@[3]);
    assert("strlen"@[0] != "readToString"@[0]);
    assert("strlen"@[0] != "readToLines"@[0]);
    assert("strlen"@[0] != "readToLinesNonEmpty"@[0]);
    assert("strlen"@[3] != "stringCmp"@[3]);
    let t = std_lib();
    reveal_with_fuel(find_decl, 19);
}

proof fn lemma_std_entry_18()
    ensures
        find_decl(std_lib(), "splitToLines"@) == Some(("splitToLines"@, 1usize)),
{
    reveal_strlit("print");
    reveal_strlit("println");
    reveal_strlit("helloworld");
    reveal_strlit("initVecString");
    reveal_strlit("newVecString");
    reveal_strlit("resizeVecString");
    reveal_strlit("freeVecString");
    reveal_strlit("pushVecString");
    reveal_strlit("getVecString");
    reveal_strlit("stringSplit");
    reveal_strlit("stringSplitWhitespace");
    reveal_strlit("stringTrim");
    reveal_strlit("stringEmpty");
    reveal_strlit("readToString");
    reveal_strlit("readToLines");
    reveal_strlit("readToLinesNonEmpty");
    reveal_strlit("stringCmp");
    reveal_strlit("strlen");
    reveal_strlit("splitToLines");
    assert("splitToLines"@[0] != "print"@[0]);
    assert("splitToLines"@[0] != "println"@[0]);
    assert("splitToLines"@[0] != "helloworld"@[0]);
    assert("splitToLines"@[0] != "initVecString"@[0]);
    assert("splitToLines"@[0] != "newVecString"@[0]);
    assert("splitToLines"@[0] != "resizeVecString"@[0]);
    assert("splitToLines"@[0] != "freeVecString"@[0]);
    assert("splitToLines"@[0] != "pushVecString"@[0]);
    assert("splitToLines"@[0] != "getVecString"@[0]);
    assert("splitToLines"@[1] != "stringSplit"@[1]);
    assert("splitToLines"@[1] != "stringSplitWhitespace"@[1]);
    assert("splitToLines"@[1] != "stringTrim"@[1]);
    assert("splitToLines"@[1] != "stringEmpty"@[1]);
    assert("splitToLines"@[0] != "readToString"@[0]);
    assert("splitToLines"@[0] != "readToLines"@[0]);
    assert("splitToLines"@[0] != "readToLinesNonEmpty"@[0]);
    assert("splitToLines"@[1] != "stringCmp"@[1]);
    assert("splitToLines"@[1] != "strlen"@[1]);
    let t = std_lib();
    reveal_with_fuel(find_decl, 20);
}

proof fn lemma_std_entry_19()
    ensures
        find_decl(std_lib(), "joinVecString"@) == Some(("joinVecString"@, 2usize)),
{
    reveal_strlit("print");
    reveal_strlit("println");
    reveal_strlit("helloworld");
    reveal_strlit("initVecString");
    reveal_strlit("newVecString");
    reveal_strlit("resizeVecString");
    reveal_strlit("freeVecString");
    reveal_strlit("pushVecString");
    reveal_strlit("getVecString");
    reveal_strlit("stringSplit");
    reveal_strlit("stringSplitWhitespace");
    reveal_strlit("stringTrim");
    reveal_strlit("stringEmpty");
    reveal_strlit("readToString");
    reveal_strlit("readToLines");
    reveal_strlit("readToLinesNonEmpty");
    reveal_strlit("stringCmp");
    reveal_strlit("strlen");
    reveal_strlit("splitToLines");
    reveal_strlit("joinVecString");
    assert("joinVecString"@[0] != "print"@[0]);
    assert("joinVecString"@[0] != "println"@[0]);
    assert("joinVecString"@[0] != "helloworld"@[0]);
    assert("joinVecString"@[0] != "initVecString"@[0]);
    assert("joinVecString"@[0] != "newVecString"@[0]);
    assert("joinVecString"@[0] != "resizeVecString"@[0]);
    assert("joinVecString"@[0] != "freeVecString"@[0]);
    assert("joinVecString"@[0] != "pushVecString"@[0]);
    assert("joinVecString"@[0] != "getVecString"@[0]);
    assert("joinVecString"@[0] != "stringSplit"@[0]);
    assert("joinVecString"@[0] != "stringSplitWhitespace"@[0]);
    assert("joinVecString"@[0] != "stringTrim"@[0]);
    assert("joinVecString"@[0] != "stringEmpty"@[0]);
    assert("joinVecString"@[0] != "readToString"@[0]);
    assert("joinVecString"@[0] != "readToLines"@[0]);
    assert("joinVecString"@[0] != "readToLinesNonEmpty"@[0]);
    assert("joinVecString"@[0] != "stringCmp"@[0]);
    assert("joinVecString"@[0] != "strlen"@[0]);
    assert("joinVecString"@[0] != "splitToLines"@[0]);
    let t = std_lib();
    reveal_with_fuel(find_decl, 21);
}

proof fn lemma_std_entry_20()
    ensures
        find_decl(std_lib(), "modVecString"@) == Some(("modVecString"@, 3usize)),
{
    reveal_strlit("print");
    reveal_strlit("println");
    reveal_strlit("helloworld");
    reveal_strlit("initVecString");
    reveal_strlit("newVecString");
    reveal_strlit("resizeVecString");
    reveal_strlit("freeVecString");
    reveal_strlit("pushVecString");
    reveal_strlit("getVecString");
    reveal_strlit("stringSplit");
    reveal_strlit("stringSplitWhitespace");
    reveal_strlit("stringTrim");
    reveal_strlit("stringEmpty");
    reveal_strlit("readToString");
    reveal_strlit("readToLines");
    reveal_strlit("readToLinesNonEmpty");
    reveal_strlit("stringCmp");
    reveal_strlit("strlen");
    reveal_strlit("splitToLines");
    reveal_strlit("joinVecString");
    reveal_strlit("modVecString");
    assert("modVecString"@[0] != "print"@[0]);
    assert("modVecString"@[0] != "println"@[0]);
    assert("modVecString"@[0] != "helloworld"@[0]);
    assert("modVecString"@[0] != "initVecString"@[0]);
    assert("modVecString"@[0] != "newVecString"@[0]);
    assert("modVecString"@[0] != "resizeVecString"@[0]);
    assert("modVecString"@[0] != "freeVecString"@[0]);
    assert("modVecString"@[0] != "pushVecString"@[0]);
    assert("modVecString"@[0] != "getVecString"@[0]);
    assert("modVecString"@[0] != "stringSplit"@[0]);
    assert("modVecString"@[0] != "stringSplitWhitespace"@[0]);
    assert("modVecString"@[0] != "stringTrim"@[0]);
    assert("modVecString"@[0] != "stringEmpty"@[0]);
    assert("modVecString"@[0] != "readToString"@[0]);
    assert("modVecString"@[0] != "readToLines"@[0]);
    assert("modVecString"@[0] != "readToLinesNonEmpty"@[0]);
    assert("modVecString"@[0] != "stringCmp"@[0]);
    assert("modVecString"@[0] != "strlen"@[0]);
    assert("modVecString"@[0] != "splitToLines"@[0]);
    assert("modVecString"@[0] != "joinVecString"@[0]);
    let t = std_lib();
    reveal_with_fuel(find_decl, 22);
}

proof fn lemma_std_entry_21()
    ensures
        find_decl(std_lib(), "djb2Hash"@) == Some(("djb2Hash"@, 1usize)),
{
    reveal_strlit("print");
    reveal_strlit("println");
    reveal_strlit("helloworld");
    reveal_strlit("initVecString");
    reveal_strlit("newVecString");
    reveal_strlit("resizeVecString");
    reveal_strlit("freeVecString");
    reveal_strlit("pushVecString");
    reveal_strlit("getVecString");
    reveal_strlit("stringSplit");
    reveal_strlit("stringSplitWhitespace");
    reveal_strlit("stringTrim");
    reveal_strlit("stringEmpty");
    reveal_strlit("readToString");
    reveal_strlit("readToLines");
    reveal_strlit("readToLinesNonEmpty");
    reveal_strlit("stringCmp");
    reveal_strlit("strlen");
    reveal_strlit("splitToLines");
    reveal_strlit("joinVecString");
    reveal_strlit("modVecString");
    reveal_strlit("djb2Hash");
    assert("djb2Hash"@[0] != "print"@[0]);
    assert("djb2Hash"@[0] != "println"@[0]);
    assert("djb2Hash"@[0] != "helloworld"@[0]);
    assert("djb2Hash"@[0] != "initVecString"@[0]);
    assert("djb2Hash"@[0] != "newVecString"@[0]);
    assert("djb2Hash"@[0] != "resizeVecString"@[0]);
    assert("djb2Hash"@[0] != "freeVecString"@[0]);
    assert("djb2Hash"@[0] != "pushVecString"@[0]);
    assert("djb2Hash"@[0] != "getVecString"@[0]);
    assert("djb2Hash"@[0] != "stringSplit"@[0]);
    assert("djb2Hash"@[0] != "stringSplitWhitespace"@[0]);
    assert("djb2Hash"@[0] != "stringTrim"@[0]);
    assert("djb2Hash"@[0] != "stringEmpty"@[0]);
    assert("djb2Hash"@[0] != "readToString"@[0]);
    assert("djb2Hash"@[0] != "readToLines"@[0]);
    assert("djb2Hash"@[0] != "readToLinesNonEmpty"@[0]);
    assert("djb2Hash"@[0] != "stringCmp"@[0]);
    assert("djb2Hash"@[0] != "strlen"@[0]);
    assert("djb2Hash"@[0] != "splitToLines"@[0]);
    assert("djb2Hash"@[0] != "joinVecString"@[0]);
    assert("djb2Hash"@[0] != "modVecString"@[0]);
    let t = std_lib();
    reveal_with_fuel(find_decl, 23);
}

proof fn lemma_std_entry_22()
    ensures
        find_decl(std_lib(), "getArgsVec"@) == Some(("getArgsVec"@, 2usize)),
{
    reveal_strlit("print");
    reveal_strlit("println");
    reveal_strlit("helloworld");
    reveal_strlit("initVecString");
    reveal_strlit("newVecString");
    reveal_strlit("resizeVecString");
    reveal_strlit("freeVecString");
    reveal_strlit("pushVecString");
    reveal_strlit("getVecString");
    reveal_strlit("stringSplit");
    reveal_strlit("stringSplitWhitespace");
    reveal_strlit("stringTrim");
    reveal_strlit("stringEmpty");
    reveal_strlit("readToString");
    reveal_strlit("readToLines");
    reveal_strlit("readToLinesNonEmpty");
    reveal_strlit("stringCmp");
    reveal_strlit("strlen");
    reveal_strlit("splitToLines");
    reveal_strlit("joinVecString");
    reveal_strlit("modVecString");
    reveal_strlit("djb2Hash");
    reveal_strlit("getArgsVec");
    assert("getArgsVec"@[0] != "print"@[0]);
    assert("getArgsVec"@[0] != "println"@[0]);
    assert("getArgsVec"@[0] != "helloworld"@[0]);
    assert("getArgsVec"@[0] != "initVecString"@[0]);
    assert("getArgsVec"@[0] != "newVecString"@[0]);
    assert("getArgsVec"@[0] != "resizeVecString"@[0]);
    assert("getArgsVec"@[0] != "freeVecString"@[0]);
    assert("getArgsVec"@[0] != "pushVecString"@[0]);
    assert("getArgsVec"@[3] != "getVecString"@[3]);
    assert("getArgsVec"@[0] != "stringSplit"@[0]);
    assert("getArgsVec"@[0] != "stringSplitWhitespace"@[0]);
    assert("getArgsVec"@[0] != "stringTrim"@[0]);
    assert("getArgsVec"@[0] != "stringEmpty"@[0]);
    assert("getArgsVec"@[0] != "readToString"@[0]);
    assert("getArgsVec"@[0] != "readToLines"@[0]);
    assert("getArgsVec"@[0] != "readToLinesNonEmpty"@[0]);
    assert("getArgsVec"@[0] != "stringCmp"@[0]);
    assert("getArgsVec"@[0] != "strlen"@[0]);
    assert("getArgsVec"@[0] != "splitToLines"@[0]);
    assert("getArgsVec"@[0] != "joinVecString"@[0]);
    assert("getArgsVec"@[0] != "modVecString"@[0]);
    assert("getArgsVec"@[0] != "djb2Hash"@[0]);
    let t = std_lib();
    reveal_with_fuel(find_decl, 24);
}

proof fn lemma_std_entry_23()
    ensures
        find_decl(std_lib(), "containsVecString"@) == Some(("containsVecString"@, 2usize)),
{
    reveal_strlit("print");
    reveal_strlit("println");
    reveal_strlit("helloworld");
    reveal_strlit("initVecString");
    reveal_strlit("newVecString");
    reveal_strlit("resizeVecString");
    reveal_strlit("freeVecString");
    reveal_strlit("pushVecString");
    reveal_strlit("getVecString");
    reveal_strlit("stringSplit");
    reveal_strlit("stringSplitWhitespace");
    reveal_strlit("stringTrim");
    reveal_strlit("stringEmpty");
    reveal_strlit("readToString");
    reveal_strlit("readToLines");
    reveal_strlit("readToLinesNonEmpty");
    reveal_strlit("stringCmp");
    reveal_strlit("strlen");
    reveal_strlit("splitToLines");
    reveal_strlit("joinVecString");
    reveal_strlit("modVecString");
    reveal_strlit("djb2Hash");
    reveal_strlit("getArgsVec");
    reveal_strlit("containsVecString");
    assert("containsVecString"@[0] != "print"@[0]);
    assert("containsVecString"@[0] != "println"@[0]);
    assert("containsVecString"@[0] != "helloworld"@[0]);
    assert("containsVecString"@[0] != "initVecString"@[0]);
    assert("containsVecString"@[0] != "newVecString"@[0]);
    assert("containsVecString"@[0] != "resizeVecString"@[0]);
    assert("containsVecString"@[0] != "freeVecString"@[0]);
    assert("containsVecString"@[0] != "pushVecString"@[0]);
    assert("containsVecString"@[0] != "getVecString"@[0]);
    assert("containsVecString"@[0] != "stringSplit"@[0]);
    assert("containsVecString"@[0] != "stringSplitWhitespace"@[0]);
    assert("containsVecString"@[0] != "stringTrim"@[0]);
    assert("containsVecString"@[0] != "stringEmpty"@[0]);
    assert("containsVecString"@[0] != "readToString"@[0]);
    assert("containsVecString"@[0] != "readToLines"@[0]);
    assert("containsVecString"@[0] != "readToLinesNonEmpty"@[0]);
    assert("containsVecString"@[0] != "stringCmp"@[0]);
    assert("containsVecString"@[0] != "strlen"@[0]);
    assert("containsVecString"@[0] != "splitToLines"@[0]);
    assert("containsVecString"@[0] != "joinVecString"@[0]);
    assert("containsVecString"@[0] != "modVecString"@[0]);
    assert("containsVecString"@[0] != "djb2Hash"@[0]);
    assert("containsVecString"@[0] != "getArgsVec"@[0]);
    let t = std_lib();
    reveal_with_fuel(find_decl, 25);
}

proof fn lemma_std_entry_24()
    ensures
        find_decl(std_lib(), "findVecString"@) == Some(("findVecString"@, 2usize)),
{
    reveal_strlit("print");
    reveal_strlit("println");
    reveal_strlit("helloworld");
    reveal_strlit("initVecString");
    reveal_strlit("newVecString");
    reveal_strlit("resizeVecString");
    reveal_strlit("freeVecString");
    reveal_strlit("pushVecString");
    reveal_strlit("getVecString");
    reveal_strlit("stringSplit");
    reveal_strlit("stringSplitWhitespace");
    reveal_strlit("stringTrim");
    reveal_strlit("stringEmpty");
    reveal_strlit("readToString");
    reveal_strlit("readToLines");
    reveal_strlit("readToLinesNonEmpty");
    reveal_strlit("stringCmp");
    reveal_strlit("strlen");
    reveal_strlit("splitToLines");
    reveal_strlit("joinVecString");
    reveal_strlit("modVecString");
    reveal_strlit("djb2Hash");
    reveal_strlit("getArgsVec");
    reveal_strlit("containsVecString");
    reveal_strlit("findVecString");
    assert("findVecString"@[0] != "print"@[0]);
    assert("findVecString"@[0] != "println"@[0]);
    assert("findVecString"@[0] != "helloworld"@[0]);
    assert("findVecString"@[0] != "initVecString"@[0]);
    assert("findVecString"@[0] != "newVecString"@[0]);
    assert("findVecString"@[0] != "resizeVecString"@[0]);
    assert("findVecString"@[1] != "freeVecString"@[1]);
    assert("findVecString"@[0] != "pushVecString"@[0]);
    assert("findVecString"@[0] != "getVecString"@[0]);
    assert("findVecString"@[0] != "stringSplit"@[0]);
    assert("findVecString"@[0] != "stringSplitWhitespace"@[0]);
    assert("findVecString"@[0] != "stringTrim"@[0]);
    assert("findVecString"@[0] != "stringEmpty"@[0]);
    assert("findVecString"@[0] != "readToString"@[0]);
    assert("findVecString"@[0] != "readToLines"@[0]);
    assert("findVecString"@[0] != "readToLinesNonEmpty"@[0]);
    assert("findVecString"@[0] != "stringCmp"@[0]);
    assert("findVecString"@[0] != "strlen"@[0]);
    assert("findVecString"@[0] != "splitToLines"@[0]);
    assert("findVecString"@[0] != "joinVecString"@[0]);
    assert("findVecString"@[0] != "modVecString"@[0]);
    assert("findVecString"@[0] != "djb2Hash"@[0]);
    assert("findVecString"@[0] != "getArgsVec"@[0]);
    assert("findVecString"@[0] != "containsVecString"@[0]);
    let t = std_lib();
    reveal_with_fuel(find_decl, 26);
}

/// The standard library declares each of its functions with the number of
/// arguments given here: the call checker finds that declaration first.
pub proof fn std_lib_arities()
    ensures
        find_decl(std_lib(), "print"@) == Some(("print"@, 0usize)),
        find_decl(std_lib(), "println"@) == Some(("println"@, 0usize)),
        find_decl(std_lib(), "helloworld"@) == Some(("helloworld"@, 0usize)),
        find_decl(std_lib(), "initVecString"@) == Some(("initVecString"@, 1usize)),
        find_decl(std_lib(), "newVecString"@) == Some(("newVecString"@, 0usize)),
        find_decl(std_lib(), "resizeVecString"@) == Some(("resizeVecString"@, 1usize)),
        find_decl(std_lib(), "freeVecString"@) == Some(("freeVecString"@, 1usize)),
        find_decl(std_lib(), "pushVecString"@) == Some(("pushVecString"@, 2usize)),
        find_decl(std_lib(), "getVecString"@) == Some(("getVecString"@, 2usize)),
        find_decl(std_lib(), "stringSplit"@) == Some(("stringSplit"@, 2usize)),
        find_decl(std_lib(), "stringSplitWhitespace"@) == Some(("stringSplitWhitespace"@, 1usize)),
        find_decl(std_lib(), "stringTrim"@) == Some(("stringTrim"@, 1usize)),
        find_decl(std_lib(), "stringEmpty"@) == Some(("stringEmpty"@, 1usize)),
        find_decl(std_lib(), "readToString"@) == Some(("readToString"@, 1usize)),
        find_decl(std_lib(), "readToLines"@) == Some(("readToLines"@, 1usize)),
        find_decl(std_lib(), "readToLinesNonEmpty"@) == Some(("readToLinesNonEmpty"@, 1usize)),
        find_decl(std_lib(), "stringCmp"@) == Some(("stringCmp"@, 2usize)),
        find_decl(std_lib(), "strlen"@) == Some(("strlen"@, 1usize)),
        find_decl(std_lib(), "splitToLines"@) == Some(("splitToLines"@, 1usize)),
        find_decl(std_lib(), "joinVecString"@) == Some(("joinVecString"@, 2usize)),
        find_decl(std_lib(), "modVecString"@) == Some(("modVecString"@, 3usize)),
        find_decl(std_lib(), "djb2Hash"@) == Some(("djb2Hash"@, 1usize)),
        find_decl(std_lib(), "getArgsVec"@) == Some(("getArgsVec"@, 2usize)),
        find_decl(std_lib(), "containsVecString"@) == Some(("containsVecString"@, 2usize)),
        find_decl(std_lib(), "findVecString"@) == Some(("findVecString"@, 2usize)),
{
    lemma_std_entry_0();
    lemma_std_entry_1();
    lemma_std_entry_2();
    lemma_std_entry_3();
    lemma_std_entry_4();
    lemma_std_entry_5();
    lemma_std_entry_6();
    lemma_std_entry_7();
    lemma_std_entry_8();
    lemma_std_entry_9();
    lemma_std_entry_10();
    lemma_std_entry_11();
    lemma_std_entry_12();
    lemma_std_entry_13();
    lemma_std_entry_14();
    lemma_std_entry_15();
    lemma_std_entry_16();
    lemma_std_entry_17();
    lemma_std_entry_18();
    lemma_std_entry_19();
    lemma_std_entry_20();
    lemma_std_entry_21();
    lemma_std_entry_22();
    lemma_std_entry_23();
    lemma_std_entry_24();
}

} // verus!
