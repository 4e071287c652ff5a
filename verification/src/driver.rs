//! The decisions around a translation: imports, the change-detection hash,
//! which C compiler builds the program and how, and what the command line asks.
use vstd::prelude::*;
use crate::compiler::Compiled;
use crate::text::{chars_of, join, lines, push_all, split_lines_chars, split_words, word_is, words};

verus! {

/// What a source line is with respect to imports.
pub enum ImportDirective {
    /// An ordinary line of code.
    Code,
    /// `import <path>`: the line stands for the file at `path`.
    Import(String),
    /// `import` with no path after it.
    MissingPath,
}

/// Whether `line` imports a file, and which.
pub fn import_directive(line: &str) -> (res: ImportDirective)
    ensures
        ({
            let w = words(line@);
            if w.len() >= 1 && w[0] == "import"@ {
                if w.len() >= 2 {
                    res matches ImportDirective::Import(p) && p@ == w[1]
                } else {
                    res is MissingPath
                }
            } else {
                res is Code
            }
        }),
{
    let c = chars_of(line);
    let w = split_words(&c);
    if w.len() >= 1 && word_is(&w, 0, "import") {
        if w.len() >= 2 {
            let mut p = String::new();
            push_all(&mut p, &w[1]);
            assert(w.deep_view()[1] == w@[1]@);
            ImportDirective::Import(p)
        } else {
            ImportDirective::MissingPath
        }
    } else {
        ImportDirective::Code
    }
}

/// The lines of `source`, as `str::lines` yields them.
pub fn split_lines(source: &str) -> (res: Vec<String>)
    ensures
        res.deep_view() == lines(source@),
{
    let c = chars_of(source);
    let ls = split_lines_chars(&c);
    let mut res: Vec<String> = Vec::new();
    let mut i: usize = 0;
    while i < ls.len()
        invariant
            ls.deep_view() == lines(source@),
            i <= ls@.len(),
            res@.len() == i,
            res.deep_view() == ls.deep_view().take(i as int),
        decreases ls@.len() - i,
    {
        let mut s = String::new();
        push_all(&mut s, &ls[i]);
        let ghost sv = s@;
        res.push(s);
        assert(res.deep_view() =~= ls.deep_view().take(i + 1)) by {
            assert(res@[i as int]@ == sv);
            assert(res.deep_view()[i as int] == res@[i as int]@);
            assert(ls.deep_view()[i as int] == ls@[i as int]@);
        }
        i += 1;
    }
    assert(ls.deep_view().take(i as int) =~= ls.deep_view());
    res
}

/// The lines joined by line feeds, as `[String]::join("\n")` gives it.
pub fn join_lines(lines: &Vec<String>) -> (res: String)
    ensures
        res@ == join(lines.deep_view(), "\n"@),
{
    let ghost dv = lines.deep_view();
    let mut res = String::new();
    let mut i: usize = 0;
    while i < lines.len()
        invariant
            dv == lines.deep_view(),
            i <= dv.len(),
            res@ == join(dv.take(i as int), "\n"@),
        decreases dv.len() - i,
    {
        if i > 0 {
            res.append("\n");
        }
        res.append(lines[i].as_str());
        proof {
            let pre = dv.take(i + 1);
            assert(pre.drop_last() =~= dv.take(i as int));
            assert(pre.last() == lines@[i as int]@);
            if i == 0 {
                assert(join(dv.take(0), "\n"@) =~= Seq::<char>::empty());
            }
        }
        i += 1;
    }
    assert(dv.take(i as int) =~= dv);
    res
}

/// The program text to hand to the C compiler: the standard library's source
/// followed by the translation, or the translation alone when the program
/// leaves the standard library out.
pub fn with_stdlib(stdlib: &str, compiled: &Compiled) -> (res: String)
    ensures
        res@ == if compiled.include_std {
            stdlib@ + compiled.code@
        } else {
            compiled.code@
        },
{
    let mut res = String::new();
    if compiled.include_std {
        res.append(stdlib);
    }
    res.append(compiled.code.as_str());
    res
}

/// 2^32.
pub open spec fn two_to_32() -> nat {
    4294967296
}

/// The djb2 hash of `bytes`: start from 5381 and, for each byte, multiply by
/// 33 and add the byte, modulo 2^32.
pub open spec fn djb2(bytes: Seq<u8>) -> u32
    decreases bytes.len(),
{
    if bytes.len() == 0 {
        5381
    } else {
        ((djb2(bytes.drop_last()) as nat * 33 + bytes.last() as nat) % two_to_32()) as u32
    }
}

/// The djb2 hash of the UTF-8 bytes of `s`.
pub fn djb2_hash(s: &str) -> (res: u32)
    ensures
        res == djb2(vstd::utf8::encode_utf8(s@)),
{
    let bytes = s.as_bytes();
    let ghost b = bytes@;
    let mut h: u32 = 5381;
    let mut i: usize = 0;
    while i < bytes.len()
        invariant
            b == bytes@,
            i <= b.len(),
            h == djb2(b.take(i as int)),
        decreases b.len() - i,
    {
        let byte = bytes[i];
        let ghost h0 = h;
        let m = h.wrapping_mul(33);
        let next = m.wrapping_add(byte as u32);
        proof {
            let x = h0 as int * 33;
            vstd::arithmetic::div_mod::lemma_add_mod_noop(x, byte as int, two_to_32() as int);
            vstd::arithmetic::div_mod::lemma_small_mod(byte as nat, two_to_32());
            assert(m as int == x % (two_to_32() as int));
            if m as int + byte as int > u32::MAX {
                vstd::arithmetic::div_mod::lemma_mod_self_0(two_to_32() as int);
                vstd::arithmetic::div_mod::lemma_mod_sub_multiples_vanish(m as int + byte as int, two_to_32() as int);
                vstd::arithmetic::div_mod::lemma_small_mod((m as int + byte as int - two_to_32()) as nat, two_to_32());
            } else {
                vstd::arithmetic::div_mod::lemma_small_mod((m as int + byte as int) as nat, two_to_32());
            }
            assert(next as int == (x + byte as int) % (two_to_32() as int));
            let pre = b.take(i + 1);
            assert(pre.drop_last() =~= b.take(i as int));
            assert(pre.last() == byte);
        }
        h = next;
        i += 1;
    }
    assert(b.take(i as int) =~= b);
    h
}

/// The big-endian bytes of `h`.
pub open spec fn be_bytes(h: u32) -> Seq<u8> {
    seq![
        (h / 16777216) as u8,
        ((h / 65536) % 256) as u8,
        ((h / 256) % 256) as u8,
        (h % 256) as u8,
    ]
}

/// The big-endian bytes of `h`, as `u32::to_be_bytes` gives them.
pub fn hash_bytes(h: u32) -> (res: Vec<u8>)
    ensures
        res@ == be_bytes(h),
{
    let mut res: Vec<u8> = Vec::new();
    res.push((h / 16777216) as u8);
    res.push(((h / 65536) % 256) as u8);
    res.push(((h / 256) % 256) as u8);
    res.push((h % 256) as u8);
    assert(res@ =~= be_bytes(h));
    res
}

/// Where the hash of the source is kept in a built binary.
pub open spec fn hash_start() -> int {
    10
}

/// Whether the binary whose first bytes are `header` (if it exists) must be
/// built anew for a source with hash `hash`: always when forced or when there
/// is no binary; otherwise when bytes 10 to 13 of the binary do not hold the
/// hash in big-endian order.
pub fn needs_rebuild(header: Option<&Vec<u8>>, hash: u32, force: bool) -> (res: bool)
    requires
        header matches Some(h) ==> h@.len() >= 14,
    ensures
        res == (force || match header {
            None => true,
            Some(h) => h@.subrange(10, 14) != be_bytes(hash),
        }),
{
    if force {
        return true;
    }
    match header {
        None => true,
        Some(h) => {
            let expected = hash_bytes(hash);
            let same = h[10] == expected[0] && h[11] == expected[1] && h[12] == expected[2] && h[13]
                == expected[3];
            if same {
                assert(h@.subrange(10, 14) =~= be_bytes(hash));
            } else {
                assert(h@.subrange(10, 14) != be_bytes(hash)) by {
                    if h@.subrange(10, 14) == be_bytes(hash) {
                        assert(h@.subrange(10, 14)[0] == h@[10]);
                        assert(h@.subrange(10, 14)[1] == h@[11]);
                        assert(h@.subrange(10, 14)[2] == h@[12]);
                        assert(h@.subrange(10, 14)[3] == h@[13]);
                    }
                }
            }
            !same
        },
    }
}

/// The C compilers a program can be built with.
#[derive(Clone, Copy, Debug, PartialEq, Eq, Structural)]
pub enum CCompiler {
    Tcc,
    Gcc,
    Clang,
}

/// The compiler to use: TCC when it is there, else GCC, else Clang; none when
/// none of them is there.
pub fn pick_compiler(tcc: bool, gcc: bool, clang: bool) -> (res: Option<CCompiler>)
    ensures
        res == if tcc {
            Some(CCompiler::Tcc)
        } else if gcc {
            Some(CCompiler::Gcc)
        } else if clang {
            Some(CCompiler::Clang)
        } else {
            None
        },
{
    if tcc {
        Some(CCompiler::Tcc)
    } else if gcc {
        Some(CCompiler::Gcc)
    } else if clang {
        Some(CCompiler::Clang)
    } else {
        None
    }
}

/// The program name of a compiler.
pub fn compiler_name(c: CCompiler) -> (res: &'static str)
    ensures
        res@ == match c {
            CCompiler::Tcc => "tcc"@,
            CCompiler::Gcc => "gcc"@,
            CCompiler::Clang => "clang"@,
        },
{
    match c {
        CCompiler::Tcc => "tcc",
        CCompiler::Gcc => "gcc",
        CCompiler::Clang => "clang",
    }
}

/// A command that builds the binary: a program and its arguments.
pub struct BuildCommand {
    pub program: String,
    pub args: Vec<String>,
}

fn string_from(s: &str) -> (res: String)
    ensures
        res@ == s@,
{
    String::from_str(s)
}

/// How to build `output_file` from the C file `ir_file`: a release build is an
/// optimised GCC build, which cannot be had without GCC (`None`); any other
/// build uses the chosen compiler.
pub fn build_command(
    release_build: bool,
    gcc_available: bool,
    compiler: CCompiler,
    output_file: &str,
    ir_file: &str,
) -> (res: Option<BuildCommand>)
    ensures
        release_build && !gcc_available ==> res is None,
        release_build && gcc_available ==> (res matches Some(b) && b.program@ == "gcc"@
            && b.args.deep_view() == seq!["-O3"@, "-o"@, output_file@, ir_file@]),
        !release_build ==> (res matches Some(b) && b.program@ == (match compiler {
            CCompiler::Tcc => "tcc"@,
            CCompiler::Gcc => "gcc"@,
            CCompiler::Clang => "clang"@,
        }) && b.args.deep_view() == seq!["-o"@, output_file@, ir_file@]),
{
    if release_build {
        if !gcc_available {
            return None;
        }
        let args = vec![string_from("-O3"), string_from("-o"), string_from(output_file), string_from(ir_file)];
        assert(args.deep_view() =~= seq!["-O3"@, "-o"@, output_file@, ir_file@]);
        Some(BuildCommand { program: string_from("gcc"), args })
    } else {
        let args = vec![string_from("-o"), string_from(output_file), string_from(ir_file)];
        assert(args.deep_view() =~= seq!["-o"@, output_file@, ir_file@]);
        Some(BuildCommand { program: string_from(compiler_name(compiler)), args })
    }
}

/// What the command line asks for.
pub enum Action {
    /// Translate and build the given file.
    Compile(String),
    /// Translate, build and run the given file.
    Run(String),
    /// Nothing usable was asked for.
    Usage,
}

/// The action for the command-line options: `--test` runs `tests.pro`;
/// otherwise `--compile` builds its file, else `--run` runs its file.
pub fn choose_action(test: bool, compile: Option<String>, run: Option<String>) -> (res: Action)
    ensures
        test ==> (res matches Action::Run(f) && f@ == "tests.pro"@),
        !test && compile is Some ==> (res matches Action::Compile(f) && f == compile->0),
        !test && compile is None && run is Some ==> (res matches Action::Run(f) && f == run->0),
        !test && compile is None && run is None ==> res is Usage,
{
    if test {
        Action::Run(string_from("tests.pro"))
    } else if let Some(f) = compile {
        Action::Compile(f)
    } else if let Some(f) = run {
        Action::Run(f)
    } else {
        Action::Usage
    }
}

/// Different hashes are stored as different bytes: a binary counts as up to
/// date only for sources with the hash it holds.
pub proof fn be_bytes_injective(a: u32, b: u32)
    ensures
        be_bytes(a) == be_bytes(b) ==> a == b,
{
    if be_bytes(a) == be_bytes(b) {
        assert(be_bytes(a)[0] == be_bytes(b)[0]);
        assert(be_bytes(a)[1] == be_bytes(b)[1]);
        assert(be_bytes(a)[2] == be_bytes(b)[2]);
        assert(be_bytes(a)[3] == be_bytes(b)[3]);
        assert(((a / 16777216) as u8 == (b / 16777216) as u8 && ((a / 65536) % 256) as u8 == ((b
            / 65536) % 256) as u8 && ((a / 256) % 256) as u8 == ((b / 256) % 256) as u8 && (a
            % 256) as u8 == (b % 256) as u8) ==> a == b) by (bit_vector);
    }
}

} // verus!
