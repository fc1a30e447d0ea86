//! Emission of one binding: its attributes, documentation, signature and the
//! inline-assembly block that performs the interrupt call.
use vstd::prelude::*;
use vstd::string::*;
use crate::Code;
use crate::diag::{
    binding_label, extends_labeled, keeps_prefix, label_text, lemma_extends_refl, lemma_extends_trans,
    lemma_keeps_prefix_trans, line_prefix, Diagnostics,
};
use crate::hex::{hex_literal, hex_literal_string};
use crate::spec::{binding_number, packed_number, ArgSpec, Bindgen, Binding};

verus! {

/// Names what the `Debug` rendering of a string (`{:?}`) returns for it.
pub uninterp spec fn debug_of(s: Seq<char>) -> Seq<char>;

/// Relies on the `Debug` impl of `str`, through `format!("{:?}", ..)`: a quoted,
/// escaped rendering that depends on the characters alone.
#[verifier::external_body]
fn debug_quoted(s: &str) -> (r: String)
    ensures
        r@ == debug_of(s@),
{
    format!("{:?}", s)
}

/// The argument names joined with `, `, in declared order.
pub open spec fn names_joined(args: Seq<ArgSpec>) -> Seq<char>
    decreases args.len(),
{
    if args.len() == 0 {
        Seq::empty()
    } else if args.len() == 1 {
        args[0].name@
    } else {
        names_joined(args.drop_last()) + ", "@ + args.last().name@
    }
}

/// The documentation string of a binding.
pub open spec fn doc_text(b: Binding) -> Seq<char> {
    "Calls the Function \""@ + b.name@ + "\" with the arguments \""@ + names_joined(b.args@) + "\"."@
}

/// One formal parameter of the signature.
pub open spec fn param_text(a: ArgSpec) -> Seq<char> {
    a.name@ + ": "@ + a.ty@ + ",\n"@
}

/// The formal parameters, in declared order.
pub open spec fn params_text(args: Seq<ArgSpec>) -> Seq<char>
    decreases args.len(),
{
    if args.len() == 0 {
        Seq::empty()
    } else {
        params_text(args.drop_last()) + param_text(args.last())
    }
}

/// An input operand that loads `value` into the register `reg`.
pub open spec fn operand_text(reg: Seq<char>, value: Seq<char>) -> Seq<char> {
    "in("@ + debug_of(reg) + ") "@ + value + ",\n"@
}

/// The input operands of the arguments, in declared order.
pub open spec fn operands_text(args: Seq<ArgSpec>) -> Seq<char>
    decreases args.len(),
{
    if args.len() == 0 {
        Seq::empty()
    } else {
        operands_text(args.drop_last()) + operand_text(args.last().reg@, args.last().name@)
    }
}

/// The packed binding number of `b` under `c`, as a hexadecimal literal.
pub open spec fn number_literal(c: Bindgen, b: Binding) -> Seq<char> {
    hex_literal(packed_number(c.function_sig, b.offset) as nat)
}

/// The statement that masks the raw return value with `mask` and returns it.
pub open spec fn return_text(mask: Seq<char>) -> Seq<char> {
    "return _ret & "@ + mask + " }\n"@
}

/// The return-value declaration and the inline-assembly block of a binding.
pub open spec fn asm_text(c: Bindgen, b: Binding) -> Seq<char> {
    "let mut _ret: "@ + b.ret@ + ";\n"@
        + "::core::arch::asm!(\n"@
        + "\"int "@ + hex_literal(c.interrupt_number as nat) + "\",\n"@
        + operand_text(c.function_register@, number_literal(c, b))
        + operands_text(b.args@)
        + "lateout("@ + debug_of(c.function_register@) + ") _ret,\n"@
        + "options(nostack, nomem, raw)\n"@
        + ");\n"@
}

/// Everything of a binding's function before its body.
pub open spec fn header_text(b: Binding) -> Seq<char> {
    "#[inline(never)]\n"@
        + "#[no_mangle]\n"@
        + "#[doc = "@ + debug_of(doc_text(b)) + "]\n"@
        + "pub unsafe extern \"C\" fn "@ + b.name@ + "(\n"@
        + params_text(b.args@)
        + ") -> "@ + b.ret@ + "\n{\n"@
}

/// The whole function emitted for `b` under `c`.
pub open spec fn binding_text(c: Bindgen, b: Binding) -> Seq<char> {
    header_text(b) + asm_text(c, b) + return_text(number_literal(c, b))
}

fn push_names_joined(out: &mut String, args: &Vec<ArgSpec>)
    ensures
        final(out)@ == old(out)@ + names_joined(args@),
{
    let ghost base = out@;
    let n = args.len();
    let mut i: usize = 0;
    assert(args@.subrange(0, 0) =~= Seq::<ArgSpec>::empty());
    assert(out@ =~= base + names_joined(args@.subrange(0, 0)));
    while i < n
        invariant
            n == args@.len(),
            i <= n,
            out@ == base + names_joined(args@.subrange(0, i as int)),
        decreases n - i,
    {
        let ghost prev = args@.subrange(0, i as int);
        let ghost next = args@.subrange(0, i + 1);
        assert(next.drop_last() =~= prev);
        if i > 0 {
            out.append(", ");
        }
        out.append(args[i].name.as_str());
        assert(out@ =~= base + names_joined(next));
        i = i + 1;
    }
    assert(args@.subrange(0, n as int) =~= args@);
}

fn push_params(out: &mut String, args: &Vec<ArgSpec>)
    ensures
        final(out)@ == old(out)@ + params_text(args@),
{
    let ghost base = out@;
    let n = args.len();
    let mut i: usize = 0;
    assert(out@ =~= base + params_text(args@.subrange(0, 0)));
    while i < n
        invariant
            n == args@.len(),
            i <= n,
            out@ == base + params_text(args@.subrange(0, i as int)),
        decreases n - i,
    {
        let ghost next = args@.subrange(0, i + 1);
        assert(next.drop_last() =~= args@.subrange(0, i as int));
        out.append(args[i].name.as_str());
        out.append(": ");
        out.append(args[i].ty.as_str());
        out.append(",\n");
        assert(out@ =~= base + params_text(next));
        i = i + 1;
    }
    assert(args@.subrange(0, n as int) =~= args@);
}

fn push_operand(out: &mut String, reg: &str, value: &str)
    ensures
        final(out)@ == old(out)@ + operand_text(reg@, value@),
{
    out.append("in(");
    let quoted = debug_quoted(reg);
    out.append(quoted.as_str());
    out.append(") ");
    out.append(value);
    out.append(",\n");
    assert(out@ =~= old(out)@ + operand_text(reg@, value@));
}

fn push_operands(out: &mut String, args: &Vec<ArgSpec>)
    ensures
        final(out)@ == old(out)@ + operands_text(args@),
{
    let ghost base = out@;
    let n = args.len();
    let mut i: usize = 0;
    assert(out@ =~= base + operands_text(args@.subrange(0, 0)));
    while i < n
        invariant
            n == args@.len(),
            i <= n,
            out@ == base + operands_text(args@.subrange(0, i as int)),
        decreases n - i,
    {
        let ghost next = args@.subrange(0, i + 1);
        assert(next.drop_last() =~= args@.subrange(0, i as int));
        push_operand(out, args[i].reg.as_str(), args[i].name.as_str());
        assert(out@ =~= base + operands_text(next));
        i = i + 1;
    }
    assert(args@.subrange(0, n as int) =~= args@);
}

/// Emits the return-value declaration and the inline-assembly block of
/// `binding`: the interrupt instruction, the packed binding number loaded into
/// the dispatch register, one input operand per argument in declared order, the
/// late output of the dispatch register, and the options clause. Diagnostic
/// lines carry the current label.
pub fn generate_inline_asm(bindgen: &Bindgen, binding: &Binding, diag: &mut Diagnostics) -> (r: Code)
    ensures
        r@ == asm_text(*bindgen, *binding),
        final(diag).verbose == old(diag).verbose,
        final(diag).current_binding == old(diag).current_binding,
        extends_labeled(old(diag).lines@, final(diag).lines@, label_text(old(diag).current_binding)),
        !old(diag).verbose ==> final(diag).lines@ == old(diag).lines@,
{
    let ghost label = label_text(diag.current_binding);
    diag.verbose_println("Generating inline assembly");
    let mut code = String::from_str("let mut _ret: ");
    code.append(binding.ret.as_str());
    code.append(";\n");
    code.append("::core::arch::asm!(\n");
    code.append("\"int ");
    let int_lit = hex_literal_string(bindgen.interrupt_number as u32);
    code.append(int_lit.as_str());
    code.append("\",\n");
    let number = binding_number(bindgen, binding);
    let number_lit = hex_literal_string(number);
    push_operand(&mut code, bindgen.function_register.as_str(), number_lit.as_str());
    let ghost before_args = diag.lines@;
    diag.verbose_println("Adding argument operands");
    proof { lemma_extends_trans(old(diag).lines@, before_args, diag.lines@, label); }
    push_operands(&mut code, &binding.args);
    code.append("lateout(");
    let quoted = debug_quoted(bindgen.function_register.as_str());
    code.append(quoted.as_str());
    code.append(") _ret,\n");
    code.append("options(nostack, nomem, raw)\n");
    code.append(");\n");
    assert(code@ =~= asm_text(*bindgen, *binding));
    code
}

/// Emits the whole function for `binding`: attributes, documentation,
/// signature, inline assembly and the masked return. The first diagnostic line
/// announces the binding under the label that was current before; then
/// `binding` becomes the current binding, so every later line carries its
/// label; afterwards no binding is current.
pub fn generate_binding(bindgen: &Bindgen, binding: &Binding, diag: &mut Diagnostics) -> (r: Code)
    ensures
        r@ == binding_text(*bindgen, *binding),
        final(diag).verbose == old(diag).verbose,
        final(diag).current_binding is None,
        keeps_prefix(old(diag).lines@, final(diag).lines@),
        old(diag).verbose ==> {
            &&& final(diag).lines@.len() > old(diag).lines@.len()
            &&& final(diag).lines@[old(diag).lines@.len() as int]@
                == line_prefix(label_text(old(diag).current_binding)) + "Generating binding for "@ + binding.name@
            &&& extends_labeled(
                final(diag).lines@.subrange(0, old(diag).lines@.len() + 1 as int),
                final(diag).lines@,
                binding_label(binding.name@),
            )
        },
        !old(diag).verbose ==> final(diag).lines@ == old(diag).lines@,
{
    let ghost label = binding_label(binding.name@);
    let ghost start = diag.lines@;
    let mut announce = String::from_str("Generating binding for ");
    announce.append(binding.name.as_str());
    diag.verbose_println(announce.as_str());
    let ghost l0 = diag.lines@;
    diag.set_current_binding(binding.name.as_str());
    proof { lemma_extends_refl(l0, label); }

    let mut code = String::from_str("#[inline(never)]\n");
    code.append("#[no_mangle]\n");

    let mut doc = String::from_str("Calls the Function \"");
    doc.append(binding.name.as_str());
    doc.append("\" with the arguments \"");
    push_names_joined(&mut doc, &binding.args);
    doc.append("\".");
    assert(doc@ =~= doc_text(*binding));
    code.append("#[doc = ");
    let quoted = debug_quoted(doc.as_str());
    code.append(quoted.as_str());
    code.append("]\n");

    code.append("pub unsafe extern \"C\" fn ");
    code.append(binding.name.as_str());
    code.append("(\n");
    push_params(&mut code, &binding.args);
    code.append(") -> ");
    code.append(binding.ret.as_str());
    code.append("\n{\n");
    assert(code@ =~= header_text(*binding));

    let ghost l1 = diag.lines@;
    let body = generate_inline_asm(bindgen, binding, diag);
    proof { lemma_extends_trans(l0, l1, diag.lines@, label); }
    code.append(body.as_str());

    let number = binding_number(bindgen, binding);
    let mask = hex_literal_string(number);
    code.append("return _ret & ");
    code.append(mask.as_str());
    code.append(" }\n");
    assert(code@ =~= binding_text(*bindgen, *binding));

    let ghost l2 = diag.lines@;
    diag.verbose_println("Binding generation complete");
    proof {
        lemma_extends_trans(l0, l2, diag.lines@, label);
        assert(keeps_prefix(start, l0)) by {
            assert(l0.subrange(0, start.len() as int) =~= start);
        }
        assert(keeps_prefix(l0, diag.lines@));
        lemma_keeps_prefix_trans(start, l0, diag.lines@);
        if old(diag).verbose {
            assert(diag.lines@[start.len() as int] == l0.last()) by {
                assert(diag.lines@.subrange(0, l0.len() as int)[start.len() as int] == l0[start.len() as int]);
            }
        }
    }
    diag.reset_current_binding();
    code
}

} // verus!
