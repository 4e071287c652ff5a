//! Diagnostics (colours, syntax error reports) and edit distance.
use vstd::prelude::*;
use crate::text::{chars_of, decimal, eq_str, push_all, push_decimal, split_words, words};

verus! {

/// ANSI terminal escape sequences.
pub struct Color;

impl Color {
    pub const BLACK: &'static str = "\x1b[30m";
    pub const RED: &'static str = "\x1b[31m";
    pub const GREEN: &'static str = "\x1b[32m";
    pub const GOLD: &'static str = "\x1b[33m";
    pub const BLUE: &'static str = "\x1b[34m";
    pub const PINK: &'static str = "\x1b[35m";
    pub const CYAN: &'static str = "\x1b[36m";
    pub const GRAY: &'static str = "\x1b[90m";
    pub const LIGHT_RED: &'static str = "\x1b[91m";
    pub const LIGHT_GREEN: &'static str = "\x1b[92m";
    pub const YELLOW: &'static str = "\x1b[93m";
    pub const PURPLE: &'static str = "\x1b[94m";
    pub const LIGHT_PINK: &'static str = "\x1b[95m";
    pub const LIGHT_BLUE: &'static str = "\x1b[96m";
    pub const WHITE: &'static str = "\x1b[97m";
    pub const RESET: &'static str = "\x1b[00m";
    pub const BOLD: &'static str = "\x1b[1m";
    pub const FAINT: &'static str = "\x1b[2m";
    pub const ITALIC: &'static str = "\x1b[3m";
    pub const UNDERLINE: &'static str = "\x1b[4m";
    pub const BLINK: &'static str = "\x1b[5m";
    pub const INVERT: &'static str = "\x1b[7m";
    pub const STRIKE: &'static str = "\x1b[9m";
}

/// The kinds of syntax error the compiler reports.
#[derive(Clone, Copy, Debug, PartialEq, Eq, Structural)]
pub enum SyntaxErrorType {
    General,
    MissingBracket,
    UnknownKeyword,
    FunctionDoesntExist,
    InvalidFunctionArguments,
    WrongNumOfArgs,
    StdLibFuncNoStd,
    ImportNotFound,
}

/// The word of a call line that names the called function: the fifth word of a
/// `var` line, the fourth of a `=` line, the second of any other line.
pub open spec fn called_name(line: Seq<char>) -> Seq<char> {
    let w = words(line);
    if w[0] == "var"@ {
        w[4]
    } else if w[0] == "="@ {
        w[3]
    } else {
        w[1]
    }
}

/// Whether `line` has the word that `called_name` picks.
pub open spec fn has_called_name(line: Seq<char>) -> bool {
    let w = words(line);
    &&& w.len() >= 1
    &&& if w[0] == "var"@ {
        w.len() >= 5
    } else if w[0] == "="@ {
        w.len() >= 4
    } else {
        w.len() >= 2
    }
}

/// What a syntax error report needs of its arguments: a line number that can
/// be shown one-based, and the words the message quotes.
pub open spec fn syntax_error_ok(line_nr: usize, line: Seq<char>, error_type: SyntaxErrorType) -> bool {
    &&& line_nr < usize::MAX
    &&& error_type == SyntaxErrorType::UnknownKeyword ==> words(line).len() >= 1
    &&& (error_type == SyntaxErrorType::FunctionDoesntExist || error_type
        == SyntaxErrorType::StdLibFuncNoStd) ==> has_called_name(line)
}

/// `[!] Syntax error on line N` (coloured), N being one-based.
pub open spec fn error_heading(line_nr: nat) -> Seq<char> {
    "["@ + Color::RED@ + "!"@ + Color::RESET@ + "] Syntax error on line "@ + decimal(line_nr + 1)
}

/// The first line of a syntax error report.
pub open spec fn error_title(line_nr: nat, line: Seq<char>, error_type: SyntaxErrorType) -> Seq<
    char,
> {
    let head = error_heading(line_nr);
    match error_type {
        SyntaxErrorType::UnknownKeyword => head + " - Unknown keyword \""@ + words(line)[0] + "\":"@,
        SyntaxErrorType::FunctionDoesntExist => head + " - Function doesn't exist \""@
            + called_name(line) + "\":"@,
        SyntaxErrorType::StdLibFuncNoStd => head + " - Function doesn't exist \""@ + called_name(
            line,
        ) + "\":"@,
        SyntaxErrorType::InvalidFunctionArguments => head + " - Invalid function arguments:"@,
        SyntaxErrorType::WrongNumOfArgs => head + " - Wrong ammount of arguments:"@,
        _ => head + ":"@,
    }
}

/// The second line of a syntax error report: the line number and the line.
pub open spec fn error_location(line_nr: nat, line: Seq<char>) -> Seq<char> {
    " "@ + Color::GREEN@ + "=> "@ + Color::RESET@ + decimal(line_nr + 1) + ":"@ + Color::LIGHT_BLUE@
        + " "@ + line + Color::RESET@
}

/// The help lines that close a syntax error report.
pub open spec fn error_help(
    line_nr: nat,
    line: Seq<char>,
    error_type: SyntaxErrorType,
    additional: Option<Seq<char>>,
) -> Seq<Seq<char>> {
    match error_type {
        SyntaxErrorType::MissingBracket => seq![
            Seq::<char>::empty(),
            "[^-^] "@ + Color::BLUE@ + "HELP: You are missing a bracket:"@ + Color::RESET@,
            Color::BLUE@ + "   +>"@ + Color::RESET@ + " "@ + decimal(line_nr + 1) + ": "@
                + Color::LIGHT_BLUE@ + line + " "@ + Color::GOLD@ + "{"@ + Color::RESET@,
        ],
        SyntaxErrorType::FunctionDoesntExist => match additional {
            Some(f) => seq![
                Seq::<char>::empty(),
                "[^-^] "@ + Color::BLUE@ + "HELP: Similar function exists: "@ + f + Color::RESET@,
            ],
            None => seq![],
        },
        SyntaxErrorType::StdLibFuncNoStd => match additional {
            Some(f) => seq![
                Seq::<char>::empty(),
                "[^-^] "@ + Color::BLUE@ + "HELP: Function \""@ + f
                    + "\" exists in the standard library which is not included"@ + Color::RESET@,
            ],
            None => seq![],
        },
        _ => seq![],
    }
}

/// The lines of a syntax error report.
pub open spec fn error_report(
    line_nr: nat,
    line: Seq<char>,
    error_type: SyntaxErrorType,
    additional: Option<Seq<char>>,
) -> Seq<Seq<char>> {
    seq![error_title(line_nr, line, error_type), error_location(line_nr, line)] + error_help(
        line_nr,
        line,
        error_type,
        additional,
    )
}

fn push_heading(out: &mut String, line_nr: usize)
    requires
        line_nr < usize::MAX,
    ensures
        final(out)@ == old(out)@ + error_heading(line_nr as nat),
{
    out.append("[");
    out.append(Color::RED);
    out.append("!");
    out.append(Color::RESET);
    out.append("] Syntax error on line ");
    push_decimal(out, line_nr + 1);
}

/// The first line of the report, when it quotes the word `w`.
fn title_quoting(line_nr: usize, what: &str, w: &Vec<char>) -> (res: String)
    requires
        line_nr < usize::MAX,
    ensures
        res@ == error_heading(line_nr as nat) + what@ + w@ + "\":"@,
{
    let mut out = String::new();
    push_heading(&mut out, line_nr);
    out.append(what);
    push_all(&mut out, w);
    out.append("\":");
    assert(out@ =~= error_heading(line_nr as nat) + what@ + w@ + "\":"@);
    out
}

/// The report of a syntax error on line `line_nr` (zero-based) reading `line`:
/// a title naming the error, the offending line, and help where there is any.
pub fn syntax_error(
    line_nr: usize,
    line: &str,
    error_type: SyntaxErrorType,
    additional: Option<&str>,
) -> (res: Vec<String>)
    requires
        syntax_error_ok(line_nr, line@, error_type),
    ensures
        res.deep_view() == error_report(
            line_nr as nat,
            line@,
            error_type,
            match additional {
                Some(a) => Some(a@),
                None => None,
            },
        ),
{
    let chars = chars_of(line);
    let w = split_words(&chars);
    let ghost ln = line_nr as nat;
    proof {
        assert(w@.len() == words(line@).len());
        assert forall|i: int| 0 <= i < w@.len() implies w@[i]@ == #[trigger] words(line@)[i] by {
            assert(w.deep_view()[i] == w@[i]@);
        }
    }
    let title = match error_type {
        SyntaxErrorType::UnknownKeyword => title_quoting(line_nr, " - Unknown keyword \"", &w[0]),
        SyntaxErrorType::FunctionDoesntExist | SyntaxErrorType::StdLibFuncNoStd => {
            let idx: usize = if eq_str(&w[0], "var") {
                4
            } else if eq_str(&w[0], "=") {
                3
            } else {
                1
            };
            title_quoting(line_nr, " - Function doesn't exist \"", &w[idx])
        },
        SyntaxErrorType::InvalidFunctionArguments => {
            let mut out = String::new();
            push_heading(&mut out, line_nr);
            out.append(" - Invalid function arguments:");
            out
        },
        SyntaxErrorType::WrongNumOfArgs => {
            let mut out = String::new();
            push_heading(&mut out, line_nr);
            out.append(" - Wrong ammount of arguments:");
            out
        },
        _ => {
            let mut out = String::new();
            push_heading(&mut out, line_nr);
            out.append(":");
            out
        },
    };
    assert(title@ == error_title(ln, line@, error_type));
    let mut location = String::new();
    location.append(" ");
    location.append(Color::GREEN);
    location.append("=> ");
    location.append(Color::RESET);
    push_decimal(&mut location, line_nr + 1);
    location.append(":");
    location.append(Color::LIGHT_BLUE);
    location.append(" ");
    location.append(line);
    location.append(Color::RESET);
    assert(location@ == error_location(ln, line@));
    let mut msgs: Vec<String> = Vec::new();
    msgs.push(title);
    msgs.push(location);
    let ghost head = msgs.deep_view();
    assert(head =~= seq![error_title(ln, line@, error_type), error_location(ln, line@)]);
    match error_type {
        SyntaxErrorType::MissingBracket => {
            msgs.push(String::new());
            let mut help = String::new();
            help.append("[^-^] ");
            help.append(Color::BLUE);
            help.append("HELP: You are missing a bracket:");
            help.append(Color::RESET);
            msgs.push(help);
            let mut shown = String::new();
            shown.append(Color::BLUE);
            shown.append("   +>");
            shown.append(Color::RESET);
            shown.append(" ");
            push_decimal(&mut shown, line_nr + 1);
            shown.append(": ");
            shown.append(Color::LIGHT_BLUE);
            shown.append(line);
            shown.append(" ");
            shown.append(Color::GOLD);
            shown.append("{");
            shown.append(Color::RESET);
            msgs.push(shown);
        },
        SyntaxErrorType::FunctionDoesntExist => {
            if let Some(f) = additional {
                msgs.push(String::new());
                let mut help = String::new();
                help.append("[^-^] ");
                help.append(Color::BLUE);
                help.append("HELP: Similar function exists: ");
                help.append(f);
                help.append(Color::RESET);
                msgs.push(help);
            }
        },
        SyntaxErrorType::StdLibFuncNoStd => {
            if let Some(f) = additional {
                msgs.push(String::new());
                let mut help = String::new();
                help.append("[^-^] ");
                help.append(Color::BLUE);
                help.append("HELP: Function \"");
                help.append(f);
                help.append("\" exists in the standard library which is not included");
                help.append(Color::RESET);
                msgs.push(help);
            }
        },
        _ => {},
    }
    assert(msgs.deep_view() =~= error_report(
        ln,
        line@,
        error_type,
        match additional {
            Some(a) => Some(a@),
            None => None,
        },
    ));
    msgs
}

/// A report framed for the terminal: the first line opens with `╭`, the
/// others with `│`, both in blue.
pub open spec fn framed(msgs: Seq<Seq<char>>) -> Seq<Seq<char>> {
    Seq::new(
        msgs.len(),
        |i: int|
            if i == 0 {
                Color::BLUE@ + "╭"@ + Color::RESET@ + " "@ + msgs[i]
            } else {
                Color::BLUE@ + "│"@ + Color::RESET@ + " "@ + msgs[i]
            },
    )
}

/// The lines to print for the report `msg`, framed as the compiler shows
/// errors.
pub fn compile_error_lines(msg: &Vec<String>) -> (res: Vec<String>)
    ensures
        res.deep_view() == framed(msg.deep_view()),
{
    let mut res: Vec<String> = Vec::new();
    let mut i: usize = 0;
    while i < msg.len()
        invariant
            i <= msg@.len(),
            res@.len() == i,
            forall|k: int| 0 <= k < i ==> #[trigger] res@[k]@ == framed(msg.deep_view())[k],
        decreases msg@.len() - i,
    {
        let mut out = String::new();
        out.append(Color::BLUE);
        if i == 0 {
            out.append("╭");
        } else {
            out.append("│");
        }
        out.append(Color::RESET);
        out.append(" ");
        out.append(msg[i].as_str());
        assert(msg.deep_view()[i as int] == msg@[i as int]@);
        res.push(out);
        i += 1;
    }
    assert(res.deep_view() =~= framed(msg.deep_view())) by {
        assert forall|k: int| 0 <= k < res@.len() implies res.deep_view()[k] == framed(msg.deep_view())[k] by {
            assert(res.deep_view()[k] == res@[k]@);
        }
    }
    res
}

pub open spec fn min3(x: nat, y: nat, z: nat) -> nat {
    if x <= y && x <= z {
        x
    } else if y <= z {
        y
    } else {
        z
    }
}

/// The Levenshtein distance between `a` and `b`: the least number of
/// single-character insertions, deletions and substitutions that turn one into
/// the other.
pub open spec fn edit_distance(a: Seq<char>, b: Seq<char>) -> nat
    decreases a.len() + b.len(),
{
    if a.len() == 0 {
        b.len()
    } else if b.len() == 0 {
        a.len()
    } else {
        min3(
            edit_distance(a.drop_last(), b) + 1,
            edit_distance(a, b.drop_last()) + 1,
            edit_distance(a.drop_last(), b.drop_last()) + if a.last() == b.last() {
                0nat
            } else {
                1nat
            },
        )
    }
}

/// The distance is at most the length of the longer string.
pub proof fn lemma_edit_distance_at_most_longer(a: Seq<char>, b: Seq<char>)
    ensures
        edit_distance(a, b) <= if a.len() >= b.len() { a.len() } else { b.len() },
    decreases a.len() + b.len(),
{
    if a.len() > 0 && b.len() > 0 {
        lemma_edit_distance_at_most_longer(a.drop_last(), b.drop_last());
    }
}

/// The Levenshtein distance between `a` and `b`, counted in characters.
pub fn levenshtein_distance(a: &str, b: &str) -> (res: usize)
    requires
        a@.len() < usize::MAX,
        b@.len() < usize::MAX,
    ensures
        res == edit_distance(a@, b@),
{
    let av = chars_of(a);
    let bv = chars_of(b);
    edit_distance_chars(&av, &bv)
}

/// The Levenshtein distance between the character sequences `av` and `bv`.
pub fn edit_distance_chars(av: &Vec<char>, bv: &Vec<char>) -> (res: usize)
    requires
        av@.len() < usize::MAX,
        bv@.len() < usize::MAX,
    ensures
        res == edit_distance(av@, bv@),
{
    let a_len = av.len();
    let b_len = bv.len();
    if a_len == 0 {
        return b_len;
    }
    if b_len == 0 {
        return a_len;
    }
    let ghost sa = av@;
    let ghost sb = bv@;
    let mut prev: Vec<usize> = Vec::new();
    let mut j: usize = 0;
    while j <= b_len
        invariant
            b_len == sb.len(),
            b_len < usize::MAX,
            j <= b_len + 1,
            prev@.len() == j,
            forall|k: int| 0 <= k < j ==> #[trigger] prev@[k] == edit_distance(sa.take(0), sb.take(k)),
        decreases b_len + 1 - j,
    {
        assert(sa.take(0).len() == 0);
        prev.push(j);
        j += 1;
    }
    let mut i: usize = 1;
    while i <= a_len
        invariant
            a_len == sa.len(),
            b_len == sb.len(),
            av@ == sa,
            bv@ == sb,
            a_len < usize::MAX,
            b_len < usize::MAX,
            1 <= i <= a_len + 1,
            prev@.len() == b_len + 1,
            forall|k: int| 0 <= k <= b_len ==> #[trigger] prev@[k] == edit_distance(sa.take(i - 1), sb.take(k)),
        decreases a_len + 1 - i,
    {
        let ghost ai = sa.take(i as int);
        let ghost ap = sa.take(i - 1);
        assert(ai.drop_last() =~= ap);
        let mut cur: Vec<usize> = Vec::new();
        assert(sb.take(0).len() == 0);
        cur.push(i);
        let mut j: usize = 1;
        while j <= b_len
            invariant
                a_len == sa.len(),
                b_len == sb.len(),
                av@ == sa,
                bv@ == sb,
                a_len < usize::MAX,
                b_len < usize::MAX,
                1 <= i <= a_len,
                ai == sa.take(i as int),
                ap == sa.take(i - 1),
                ai.drop_last() == ap,
                1 <= j <= b_len + 1,
                prev@.len() == b_len + 1,
                cur@.len() == j,
                forall|k: int| 0 <= k <= b_len ==> #[trigger] prev@[k] == edit_distance(ap, sb.take(k)),
                forall|k: int| 0 <= k < j ==> #[trigger] cur@[k] == edit_distance(ai, sb.take(k)),
            decreases b_len + 1 - j,
        {
            let ghost bj = sb.take(j as int);
            assert(bj.drop_last() =~= sb.take(j - 1));
            proof {
                lemma_edit_distance_at_most_longer(ap, bj);
                lemma_edit_distance_at_most_longer(ai, sb.take(j - 1));
                lemma_edit_distance_at_most_longer(ap, sb.take(j - 1));
            }
            let cost: usize = if av[i - 1] == bv[j - 1] { 0 } else { 1 };
            let del = prev[j] + 1;
            let ins = cur[j - 1] + 1;
            let sub = prev[j - 1] + cost;
            let best = if del <= ins && del <= sub {
                del
            } else if ins <= sub {
                ins
            } else {
                sub
            };
            assert(ai.last() == sa[i - 1]);
            assert(bj.last() == sb[j - 1]);
            assert(best == edit_distance(ai, bj));
            cur.push(best);
            j += 1;
        }
        prev = cur;
        i += 1;
    }
    assert(sa.take(a_len as int) =~= sa);
    assert(sb.take(b_len as int) =~= sb);
    prev[b_len]
}

/// Levenshtein distance is symmetric.
pub proof fn edit_distance_symmetric(a: Seq<char>, b: Seq<char>)
    ensures
        edit_distance(a, b) == edit_distance(b, a),
    decreases a.len() + b.len(),
{
    if a.len() > 0 && b.len() > 0 {
        edit_distance_symmetric(a.drop_last(), b);
        edit_distance_symmetric(a, b.drop_last());
        edit_distance_symmetric(a.drop_last(), b.drop_last());
    }
}

/// The distance is zero exactly when the strings are equal.
pub proof fn edit_distance_zero_iff_equal(a: Seq<char>, b: Seq<char>)
    ensures
        edit_distance(a, b) == 0 <==> a == b,
    decreases a.len() + b.len(),
{
    if a.len() > 0 && b.len() > 0 {
        edit_distance_zero_iff_equal(a.drop_last(), b.drop_last());
        if a == b {
            assert(a.drop_last() == b.drop_last());
        }
        if edit_distance(a, b) == 0 {
            assert(a =~= a.drop_last().push(a.last()));
            assert(b =~= b.drop_last().push(b.last()));
        }
    } else if a.len() == 0 && b.len() == 0 {
        assert(a =~= b);
    }
}

/// The distance is at least the difference of the lengths and at most the
/// longer length.
pub proof fn edit_distance_bounds(a: Seq<char>, b: Seq<char>)
    ensures
        a.len() - b.len() <= edit_distance(a, b),
        b.len() - a.len() <= edit_distance(a, b),
        edit_distance(a, b) <= if a.len() >= b.len() { a.len() } else { b.len() },
    decreases a.len() + b.len(),
{
    lemma_edit_distance_at_most_longer(a, b);
    if a.len() > 0 && b.len() > 0 {
        edit_distance_bounds(a.drop_last(), b);
        edit_distance_bounds(a, b.drop_last());
        edit_distance_bounds(a.drop_last(), b.drop_last());
    }
}

/// The triangle inequality: turning `a` into `c` costs no more than turning
/// `a` into `b` and then `b` into `c`.
pub proof fn edit_distance_triangle(a: Seq<char>, b: Seq<char>, c: Seq<char>)
    ensures
        edit_distance(a, c) <= edit_distance(a, b) + edit_distance(b, c),
    decreases a.len() + b.len() + c.len(),
{
    if a.len() == 0 || b.len() == 0 || c.len() == 0 {
        edit_distance_bounds(a, b);
        edit_distance_bounds(b, c);
        edit_distance_bounds(a, c);
    } else {
        let a1 = a.drop_last();
        let b1 = b.drop_last();
        let c1 = c.drop_last();
        edit_distance_triangle(a1, b, c);
        edit_distance_triangle(a, b, c1);
        edit_distance_triangle(a, b1, c);
        edit_distance_triangle(a, b1, c1);
        edit_distance_triangle(a1, b1, c);
        edit_distance_triangle(a1, b1, c1);
    }
}

} // verus!
