use interrupt_bindgen::codegen::{generate_binding, generate_inline_asm};
use interrupt_bindgen::diag::Diagnostics;
use interrupt_bindgen::hex::hex_literal_string;
use interrupt_bindgen::output::generate_file;
use interrupt_bindgen::spec::{binding_number, ArgSpec, Bindgen, Binding};

fn arg(name: &str, reg: &str, ty: &str) -> ArgSpec {
    ArgSpec { name: name.to_string(), reg: reg.to_string(), ty: ty.to_string() }
}

fn binding(name: &str, offset: u32, args: Vec<ArgSpec>, ret: &str) -> Binding {
    Binding { name: name.to_string(), offset, args, ret: ret.to_string() }
}

fn config(sig: Option<u16>, bindings: Vec<Binding>) -> Bindgen {
    Bindgen {
        interrupt_number: 0x80,
        function_sig: sig,
        bindings,
        function_register: "r8".to_string(),
    }
}

fn print_binding() -> Binding {
    binding("print", 0x6, vec![arg("ptr", "r9", "*const u8"), arg("len", "r10", "usize")], "u64")
}

const PRINT_TEXT: &str = "#[inline(never)]\n#[no_mangle]\n#[doc = \"Calls the Function \\\"print\\\" with the arguments \\\"ptr, len\\\".\"]\npub unsafe extern \"C\" fn print(\nptr: *const u8,\nlen: usize,\n) -> u64\n{\nlet mut _ret: u64;\n::core::arch::asm!(\n\"int 0x80\",\nin(\"r8\") 0x6,\nin(\"r9\") ptr,\nin(\"r10\") len,\nlateout(\"r8\") _ret,\noptions(nostack, nomem, raw)\n);\nreturn _ret & 0x6 }\n";

#[test]
fn print_binding_without_signature() {
    let c = config(None, vec![print_binding()]);
    let b = print_binding();
    assert_eq!(binding_number(&c, &b), 0x6);
    let mut d = Diagnostics::new(false);
    let code = generate_binding(&c, &b, &mut d);
    assert_eq!(code, PRINT_TEXT);
    assert!(code.contains("in(\"r8\") 0x6,\n"));
    assert!(code.contains("in(\"r9\") ptr,\nin(\"r10\") len,\n"));
    assert!(code.contains("lateout(\"r8\") _ret,\n"));
    assert!(code.ends_with("return _ret & 0x6 }\n"));
}

#[test]
fn signature_fills_high_half() {
    let c = config(Some(0xffff), vec![]);
    let b = binding("max_function", 0, vec![], "u64");
    assert_eq!(binding_number(&c, &b), 0xffff0000);
    assert_eq!(hex_literal_string(0xffff0000), "0xffff0000");
    let mut d = Diagnostics::new(false);
    let code = generate_binding(&c, &b, &mut d);
    assert!(code.contains("in(\"r8\") 0xffff0000,\n"));
    assert!(code.ends_with("return _ret & 0xffff0000 }\n"));
}

#[test]
fn signature_or_offset() {
    let c = config(Some(0x12), vec![]);
    let b = binding("f", 0x34, vec![], "u32");
    assert_eq!(binding_number(&c, &b), 0x0012_0034);
    let none = config(None, vec![]);
    let big = binding("g", 0xdead_beef, vec![], "u32");
    assert_eq!(binding_number(&none, &big), 0xdead_beef);
    let with = config(Some(0x1), vec![]);
    assert_eq!(binding_number(&with, &big), 0xdead_beef | 0x0001_0000);
}

#[test]
fn dispatch_literal_equals_mask_literal() {
    let c = config(Some(0xab), vec![]);
    let b = binding("h", 0x1c, vec![arg("x", "rdi", "u64")], "u64");
    let mut d = Diagnostics::new(false);
    let code = generate_binding(&c, &b, &mut d);
    assert!(code.contains("in(\"r8\") 0xab001c,\n"));
    assert!(code.ends_with("return _ret & 0xab001c }\n"));
}

#[test]
fn hex_literals() {
    assert_eq!(hex_literal_string(0), "0x0");
    assert_eq!(hex_literal_string(9), "0x9");
    assert_eq!(hex_literal_string(10), "0xa");
    assert_eq!(hex_literal_string(255), "0xff");
    assert_eq!(hex_literal_string(0x100), "0x100");
    assert_eq!(hex_literal_string(u32::MAX), "0xffffffff");
}

#[test]
fn operands_keep_declared_order() {
    let c = config(None, vec![]);
    let b = binding(
        "three",
        1,
        vec![arg("c", "r12", "u8"), arg("a", "r10", "u8"), arg("b", "r11", "u8")],
        "u8",
    );
    let mut d = Diagnostics::new(false);
    let code = generate_inline_asm(&c, &b, &mut d);
    let expected = "let mut _ret: u8;\n::core::arch::asm!(\n\"int 0x80\",\nin(\"r8\") 0x1,\nin(\"r12\") c,\nin(\"r10\") a,\nin(\"r11\") b,\nlateout(\"r8\") _ret,\noptions(nostack, nomem, raw)\n);\n";
    assert_eq!(code, expected);
    let full = generate_binding(&c, &b, &mut d);
    assert!(full.contains("three(\nc: u8,\na: u8,\nb: u8,\n) -> u8\n"));
}

#[test]
fn doc_with_no_arguments() {
    let c = config(None, vec![]);
    let b = binding("nothing", 2, vec![], "u64");
    let mut d = Diagnostics::new(false);
    let code = generate_binding(&c, &b, &mut d);
    assert!(code.contains(
        "#[doc = \"Calls the Function \\\"nothing\\\" with the arguments \\\"\\\".\"]\n"
    ));
    assert!(code.contains("fn nothing(\n) -> u64\n{\n"));
}

#[test]
fn doc_joins_names() {
    let c = config(None, vec![]);
    let one = binding("one", 2, vec![arg("x", "r9", "u64")], "u64");
    let mut d = Diagnostics::new(false);
    let code = generate_binding(&c, &one, &mut d);
    assert!(code.contains("with the arguments \\\"x\\\".\"]"));
    let three = binding(
        "three",
        3,
        vec![arg("x", "r9", "u64"), arg("y", "r10", "u64"), arg("z", "r11", "u64")],
        "u64",
    );
    let code = generate_binding(&c, &three, &mut d);
    assert!(code.contains("with the arguments \\\"x, y, z\\\".\"]"));
}

#[test]
fn blocks_labelled_per_binding() {
    let exit = binding("exit", 1, vec![arg("code", "r9", "u64")], "u64");
    let c = config(None, vec![print_binding(), exit.clone()]);
    let mut d = Diagnostics::new(true);
    assert_eq!(d.get_current_binding(), "BINDGEN");
    let first = generate_binding(&c, &c.bindings[0], &mut d);
    assert!(d.current_binding.is_none());
    let after_first = d.lines.len();
    assert!(after_first > 1);
    assert_eq!(d.lines[0], "[BINDGEN] Generating binding for print");
    assert!(d.lines[1..].iter().all(|l| l.starts_with("[BINDGEN | PRINT] ")));
    let second = generate_binding(&c, &c.bindings[1], &mut d);
    assert!(d.current_binding.is_none());
    assert!(d.lines.len() > after_first + 1);
    assert_eq!(d.lines[after_first], "[BINDGEN] Generating binding for exit");
    assert!(d.lines[after_first + 1..].iter().all(|l| l.starts_with("[BINDGEN | EXIT] ")));
    assert_eq!(d.get_current_binding(), "BINDGEN");

    let mut e = Diagnostics::new(false);
    let file = generate_file(&c, &mut e);
    assert!(e.lines.is_empty());
    assert!(e.current_binding.is_none());
    let expected = format!(
        "#![no_std]\nextern crate core;\n{}{}\n    #[panic_handler]\n    fn panic(_info: &core::panic::PanicInfo) -> !{{\n        unsafe {{ ::core::hint::unreachable_unchecked() }}\n    }}\n    ",
        first, second
    );
    assert_eq!(file, expected);
}

#[test]
fn announcement_uses_label_before_binding() {
    let c = config(None, vec![print_binding()]);
    let mut d = Diagnostics::new(true);
    let _ = generate_binding(&c, &c.bindings[0], &mut d);
    assert_eq!(d.lines[0], "[BINDGEN] Generating binding for print");
    assert!(d.lines.len() > 1);
    for line in &d.lines[1..] {
        assert!(line.starts_with("[BINDGEN | PRINT] "));
    }

    let mut e = Diagnostics::new(true);
    e.set_current_binding("outer");
    let _ = generate_binding(&c, &c.bindings[0], &mut e);
    assert_eq!(e.lines[0], "[BINDGEN | OUTER] Generating binding for print");
    assert!(e.current_binding.is_none());
}

#[test]
fn file_lines_outside_blocks_carry_own_label() {
    let exit = binding("exit", 1, vec![], "u64");
    let c = config(None, vec![print_binding(), exit]);
    let mut d = Diagnostics::new(true);
    d.verbose_println("earlier");
    d.set_current_binding("stale");
    let _ = generate_file(&c, &mut d);
    assert_eq!(d.lines[0], "[BINDGEN] earlier");
    assert_eq!(d.lines[1], "[BINDGEN] Adding no_std attribute");
    assert_eq!(d.lines[2], "[BINDGEN] Generating binding for print");
    assert_eq!(d.lines.last().unwrap(), "[BINDGEN] Adding panic handler");
    let exit_at = d.lines.iter().position(|l| l == "[BINDGEN] Generating binding for exit").unwrap();
    assert!(d.lines[3..exit_at].iter().all(|l| l.starts_with("[BINDGEN | PRINT] ")));
    let last = d.lines.len() - 1;
    assert!(exit_at + 1 < last);
    assert!(d.lines[exit_at + 1..last].iter().all(|l| l.starts_with("[BINDGEN | EXIT] ")));
    assert!(d.current_binding.is_none());
}

#[test]
fn no_bindings_leaves_no_label() {
    let c = config(None, vec![]);
    let mut d = Diagnostics::new(true);
    d.set_current_binding("stale");
    let file = generate_file(&c, &mut d);
    assert!(d.current_binding.is_none());
    assert!(file.starts_with("#![no_std]\nextern crate core;\n\n    #[panic_handler]"));
}

#[test]
fn generating_twice_is_identical() {
    let exit = binding("exit", 1, vec![arg("code", "r9", "u64")], "u64");
    let c = config(Some(0x7), vec![print_binding(), exit]);
    let mut quiet = Diagnostics::new(false);
    let mut loud = Diagnostics::new(true);
    let a = generate_file(&c, &mut quiet);
    let b = generate_file(&c.clone(), &mut loud);
    assert_eq!(a, b);
}

#[test]
fn labels_and_lines() {
    let mut d = Diagnostics::new(true);
    d.verbose_println("outside");
    d.set_current_binding("test");
    assert_eq!(d.get_current_binding(), "BINDGEN | TEST");
    d.verbose_println("inside");
    d.reset_current_binding();
    d.verbose_println("after");
    assert_eq!(d.lines, vec!["[BINDGEN] outside", "[BINDGEN | TEST] inside", "[BINDGEN] after"]);

    let mut q = Diagnostics::new(false);
    q.verbose_println("dropped");
    assert!(q.lines.is_empty());
}

#[test]
fn register_and_doc_are_quoted_and_escaped() {
    let c = Bindgen {
        interrupt_number: 0x21,
        function_sig: None,
        bindings: vec![],
        function_register: "a\"x".to_string(),
    };
    let b = binding("q", 0, vec![], "u16");
    let mut d = Diagnostics::new(false);
    let code = generate_inline_asm(&c, &b, &mut d);
    assert!(code.contains("\"int 0x21\",\nin(\"a\\\"x\") 0x0,\nlateout(\"a\\\"x\") _ret,\n"));
}
