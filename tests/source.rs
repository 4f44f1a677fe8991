use ptx_conformance::shift::Shl;
use ptx_conformance::source::{prepare_compiled_source, prepare_direct_source, PTX_HEADER};
use ptx_conformance::testcase::{Backend, TestFixture, TestKind};

fn direct_reference(header: &str, args: &[&str], body: &str) -> String {
    let sig: Vec<_> = args.iter().map(|a| format!(".param .u64 {}", a)).collect();
    let mut loads = String::new();
    for a in args {
        loads.push_str(&format!(".reg .u64    {}_addr;\n", a));
        loads.push_str(&format!("ld.param.u64 {}_addr, [{}];\n", a, a));
    }
    format!("{}\n.entry run({})\n{{\n{}\n{}\nret;\n}}", header, sig.join(", "), loads, body)
}

fn compiled_reference(args: &[&str], body: &str) -> String {
    let sig: Vec<_> = args.iter().map(|a| format!("unsigned long long * {}", a)).collect();
    let mut loads = String::new();
    for (i, a) in args.iter().enumerate() {
        loads.push_str(&format!(".reg .u64 {}_addr;\n", a));
        loads.push_str(&format!("mov.u64   {}_addr, %{};\n", a, i));
    }
    let text = format!("{}\n{}", loads, body.replace("%", "%%"));
    let quoted = text.lines().map(|l| format!("\"{}\"\n", l)).collect::<Vec<_>>().join("    ");
    let operands = args.iter().map(|a| format!("\"l\"({})", a)).collect::<Vec<_>>().join(", ");
    format!(
        "extern \"C\" __global__ void run({}) {{\nasm({}    :: {});\n}}",
        sig.join(", "),
        quoted,
        operands
    )
}

#[test]
fn direct_source_loads_each_address() {
    let args = vec!["input_a", "input_b", "output"];
    let body = "add.u32 r, a, b;";
    let s = prepare_direct_source(PTX_HEADER, &args, body);
    assert_eq!(s, direct_reference(PTX_HEADER, &args, body));
    assert!(s.contains(".entry run(.param .u64 input_a, .param .u64 input_b, .param .u64 output)"));
    assert!(s.contains("ld.param.u64 input_b_addr, [input_b];\n"));
    assert!(s.ends_with("add.u32 r, a, b;\nret;\n}"));
}

#[test]
fn direct_source_without_arguments() {
    let args: Vec<&str> = vec![];
    let s = prepare_direct_source("H", &args, "B");
    assert_eq!(s, "H\n.entry run()\n{\n\nB\nret;\n}");
}

#[test]
fn compiled_source_escapes_percent_and_quotes_lines() {
    let args = vec!["a", "b"];
    let body = "mov.u32 t, %tid.x;\nst.u32 [b_addr], t;";
    let s = prepare_compiled_source(&args, body);
    assert_eq!(s, compiled_reference(&args, body));
    assert!(s.starts_with("extern \"C\" __global__ void run(unsigned long long * a, unsigned long long * b) {\nasm("));
    assert!(s.contains("\"mov.u32 t, %%tid.x;\"\n"));
    assert!(s.contains("\"mov.u64   b_addr, %1;\"\n"));
    assert!(s.ends_with("    :: \"l\"(a), \"l\"(b));\n}"));
}

#[test]
fn compiled_source_numbers_many_operands() {
    let args = vec!["a0", "a1", "a2", "a3", "a4", "a5", "a6", "a7", "a8", "a9", "a10", "a11"];
    let body = "ret;\n";
    let s = prepare_compiled_source(&args, body);
    assert_eq!(s, compiled_reference(&args, body));
    assert!(s.contains("mov.u64   a11_addr, %11;"));
}

#[test]
fn fixture_sources_follow_backend() {
    let kind = TestKind::Shl(Shl {});
    let args = kind.ptx_args();
    let body = kind.ptx();
    let direct = TestFixture { backend: Backend::Direct }.prepare_test_source(&kind);
    assert_eq!(direct, direct_reference(PTX_HEADER, &args, &body));
    let compiled = TestFixture { backend: Backend::Compiled }.prepare_test_source(&kind);
    assert_eq!(compiled, compiled_reference(&args, &body));
}

#[test]
fn compiled_source_keeps_blank_lines() {
    let args = vec!["x"];
    for body in ["", "\n", "a\n\nb", "a\n\n", "%r\n%%"] {
        assert_eq!(prepare_compiled_source(&args, body), compiled_reference(&args, body));
    }
}
