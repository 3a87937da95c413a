use gta5_script_decompiler::formatters::code_builder::CodeBuilder;

#[test]
fn line_is_indented_and_ended() {
    let mut b = CodeBuilder::default();
    b.line("a");
    b.branch(|b| {
        b.line("b");
    });
    b.line("c");
    assert_eq!(b.collect(), "a\n\tb\nc\n");
}

#[test]
fn code_replaces_newlines_with_the_indentation() {
    let mut b = CodeBuilder::default();
    b.branch(|b| {
        b.branch(|b| {
            b.code("x\ny\n");
        });
    });
    assert_eq!(b.collect(), "x\t\ty\t\t");
}

#[test]
fn code_without_newlines_is_kept() {
    let mut b = CodeBuilder::default();
    b.code("if (x) ").code("{");
    assert_eq!(b.collect(), "if (x) {");
}
