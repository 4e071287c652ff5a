use pro_lang::compiler::Compiled;
use pro_lang::driver::{
    build_command, choose_action, djb2_hash, hash_bytes, import_directive, join_lines, needs_rebuild,
    pick_compiler, split_lines, with_stdlib, Action, CCompiler, ImportDirective,
};

#[test]
fn djb2_values() {
    assert_eq!(djb2_hash(""), 5381);
    assert_eq!(djb2_hash("a"), 5381 * 33 + 97);
    let mut h: u32 = 5381;
    for b in "hello, world\n".bytes() {
        h = h.wrapping_mul(33).wrapping_add(b as u32);
    }
    assert_eq!(djb2_hash("hello, world\n"), h);
}

#[test]
fn hash_bytes_big_endian() {
    assert_eq!(hash_bytes(0x01020304), vec![1, 2, 3, 4]);
    assert_eq!(hash_bytes(5381), 5381u32.to_be_bytes().to_vec());
}

#[test]
fn rebuild_decisions() {
    let h = djb2_hash("fn main {\n}");
    let mut header = vec![0u8; 14];
    header[10..14].copy_from_slice(&h.to_be_bytes());
    assert!(!needs_rebuild(Some(&header), h, false));
    assert!(needs_rebuild(Some(&header), h, true));
    assert!(needs_rebuild(Some(&header), h.wrapping_add(1), false));
    assert!(needs_rebuild(None, h, false));
}

#[test]
fn compiler_preference() {
    assert_eq!(pick_compiler(true, true, true), Some(CCompiler::Tcc));
    assert_eq!(pick_compiler(false, true, true), Some(CCompiler::Gcc));
    assert_eq!(pick_compiler(false, false, true), Some(CCompiler::Clang));
    assert_eq!(pick_compiler(false, false, false), None);
}

#[test]
fn build_commands() {
    assert!(build_command(true, false, CCompiler::Tcc, "out.app", "compiler_ir.c").is_none());
    let release = build_command(true, true, CCompiler::Tcc, "out.app", "compiler_ir.c").unwrap();
    assert_eq!(release.program, "gcc");
    assert_eq!(release.args, vec!["-O3", "-o", "out.app", "compiler_ir.c"]);
    let debug = build_command(false, false, CCompiler::Clang, "a", "b.c").unwrap();
    assert_eq!(debug.program, "clang");
    assert_eq!(debug.args, vec!["-o", "a", "b.c"]);
}

#[test]
fn command_line_actions() {
    assert!(matches!(choose_action(true, Some("x".into()), None), Action::Run(f) if f == "tests.pro"));
    assert!(matches!(choose_action(false, Some("x".into()), Some("y".into())), Action::Compile(f) if f == "x"));
    assert!(matches!(choose_action(false, None, Some("y".into())), Action::Run(f) if f == "y"));
    assert!(matches!(choose_action(false, None, None), Action::Usage));
}

#[test]
fn import_lines() {
    assert!(matches!(import_directive("  import lib.pro  "), ImportDirective::Import(p) if p == "lib.pro"));
    assert!(matches!(import_directive("import"), ImportDirective::MissingPath));
    assert!(matches!(import_directive("var int x 1"), ImportDirective::Code));
    assert!(matches!(import_directive(""), ImportDirective::Code));
}

#[test]
fn lines_split_and_join() {
    assert_eq!(split_lines("a\nb\r\n\nc\n"), vec!["a", "b", "", "c"]);
    assert_eq!(split_lines(""), Vec::<String>::new());
    assert_eq!(split_lines("x\r"), vec!["x\r"]);
    let parts = vec!["a".to_string(), "".to_string(), "c".to_string()];
    assert_eq!(join_lines(&parts), "a\n\nc");
    assert_eq!(join_lines(&split_lines("one\ntwo\n")), "one\ntwo");
}

#[test]
fn stdlib_prefix() {
    let with = Compiled { include_std: true, code: "int main() {}\n".to_string() };
    assert_eq!(with_stdlib("/* std */\n", &with), "/* std */\nint main() {}\n");
    let without = Compiled { include_std: false, code: "x\n".to_string() };
    assert_eq!(with_stdlib("/* std */\n", &without), "x\n");
}
