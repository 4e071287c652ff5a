# pro_lang

A compiler for Pro-Lang, a small line-oriented language that is translated
into C and built with TCC, GCC or Clang.

- `src/` is the verified library (Verus):
  - `text.rs`: whitespace, words, lines, trimming, joining, decimal numbers and
    integer parsing, each specified over `Seq<char>`;
  - `compiler.rs`: the translation of a program into C (`compile`), with the
    rules of each keyword as spec functions and laws about the result;
  - `utils.rs`: terminal colours, syntax error reports, Levenshtein distance;
  - `driver.rs`: import lines, the djb2 change-detection hash stored in a built
    binary, the choice of C compiler and its command line, and the command-line
    action.
- `app/` is the command-line program: argument parsing, files, processes.
- `tests/` runs the library on concrete programs.
