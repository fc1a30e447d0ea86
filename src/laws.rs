//! Laws of the generated text.
use vstd::prelude::*;
use crate::codegen::{
    asm_text, binding_text, doc_text, header_text, names_joined, operand_text, operands_text, params_text,
    return_text,
};
use crate::hex::hex_literal;
use crate::output::{bindings_text, file_text};
use crate::spec::{packed_number, ArgSpec, Bindgen, Binding};

verus! {

/// `p` stands in `t` from position `i` on.
pub open spec fn occurs_at(t: Seq<char>, p: Seq<char>, i: int) -> bool {
    0 <= i && i + p.len() <= t.len() && t.subrange(i, i + p.len()) == p
}

/// The packed binding number appears twice in a function and both times as the
/// same literal: once loaded into the dispatch register before the interrupt,
/// and once as the mask at the end of the function.
pub proof fn lemma_mask_matches_dispatch(c: Bindgen, b: Binding)
    ensures
        ({
            let t = binding_text(c, b);
            let lit = hex_literal(packed_number(c.function_sig, b.offset) as nat);
            let load = operand_text(c.function_register@, lit);
            let mask = return_text(lit);
            &&& exists|i: int| #[trigger] occurs_at(t, load, i)
            &&& mask.len() <= t.len()
            &&& t.subrange(t.len() - mask.len(), t.len() as int) == mask
        }),
{
    let t = binding_text(c, b);
    let lit = hex_literal(packed_number(c.function_sig, b.offset) as nat);
    let load = operand_text(c.function_register@, lit);
    let mask = return_text(lit);
    let pre = header_text(b) + "let mut _ret: "@ + b.ret@ + ";\n"@ + "::core::arch::asm!(\n"@
        + "\"int "@ + hex_literal(c.interrupt_number as nat) + "\",\n"@;
    let rest = operands_text(b.args@) + "lateout("@ + crate::codegen::debug_of(c.function_register@)
        + ") _ret,\n"@ + "options(nostack, nomem, raw)\n"@ + ");\n"@;
    assert(t =~= pre + load + rest + mask);
    assert(t.subrange(pre.len() as int, (pre.len() + load.len()) as int) =~= load);
    assert(t.subrange(t.len() - mask.len(), t.len() as int) =~= mask);
    assert(occurs_at(t, load, pre.len() as int));
}

/// The operands of a sequence of arguments are the operands of its parts, in
/// the same order: one operand per argument, never permuted.
pub proof fn lemma_operands_in_order(a: Seq<ArgSpec>, b: Seq<ArgSpec>)
    ensures
        operands_text(a + b) == operands_text(a) + operands_text(b),
    decreases b.len(),
{
    if b.len() == 0 {
        assert(a + b =~= a);
        assert(operands_text(a) + operands_text(b) =~= operands_text(a));
    } else {
        assert((a + b).drop_last() =~= a + b.drop_last());
        assert((a + b).last() == b.last());
        lemma_operands_in_order(a, b.drop_last());
        assert(operands_text(a + b) =~= operands_text(a) + operands_text(b));
    }
}

/// A single argument yields exactly its own operand, loading its name into its
/// register.
pub proof fn lemma_operand_of_one(x: ArgSpec)
    ensures
        operands_text(seq![x]) == operand_text(x.reg@, x.name@),
{
    assert(seq![x].drop_last() =~= Seq::<ArgSpec>::empty());
    assert(seq![x].last() == x);
    assert(operands_text(Seq::<ArgSpec>::empty()) == Seq::<char>::empty());
    assert(operands_text(seq![x]) =~= operand_text(x.reg@, x.name@));
}

/// The formal parameters of a sequence of arguments are those of its parts, in
/// the same order.
pub proof fn lemma_params_in_order(a: Seq<ArgSpec>, b: Seq<ArgSpec>)
    ensures
        params_text(a + b) == params_text(a) + params_text(b),
    decreases b.len(),
{
    if b.len() == 0 {
        assert(a + b =~= a);
        assert(params_text(a) + params_text(b) =~= params_text(a));
    } else {
        assert((a + b).drop_last() =~= a + b.drop_last());
        assert((a + b).last() == b.last());
        lemma_params_in_order(a, b.drop_last());
        assert(params_text(a + b) =~= params_text(a) + params_text(b));
    }
}

/// The argument list of the documentation string is the comma-space join of
/// the names in declared order: empty for no arguments, and two non-empty parts
/// are joined by exactly one separator, so none trails.
pub proof fn lemma_names_joined(a: Seq<ArgSpec>, b: Seq<ArgSpec>)
    ensures
        names_joined(Seq::<ArgSpec>::empty()) == Seq::<char>::empty(),
        a.len() == 1 ==> names_joined(a) == a[0].name@,
        a.len() > 0 && b.len() > 0 ==> names_joined(a + b) == names_joined(a) + ", "@ + names_joined(b),
    decreases b.len(),
{
    if a.len() > 0 && b.len() > 0 {
        assert((a + b).drop_last() =~= a + b.drop_last());
        assert((a + b).last() == b.last());
        if b.len() == 1 {
            assert(a + b.drop_last() =~= a);
        } else {
            lemma_names_joined(a, b.drop_last());
            assert(names_joined(a + b) =~= names_joined(a) + ", "@ + names_joined(b));
        }
    }
}

/// The functions generated for a sequence of bindings are those generated for
/// its parts, one after the other: each binding gets its own block, and a block
/// depends on the configuration and its own binding alone.
pub proof fn lemma_bindings_in_order(c: Bindgen, a: Seq<Binding>, b: Seq<Binding>)
    ensures
        bindings_text(c, a + b) == bindings_text(c, a) + bindings_text(c, b),
    decreases b.len(),
{
    if b.len() == 0 {
        assert(a + b =~= a);
        assert(bindings_text(c, a) + bindings_text(c, b) =~= bindings_text(c, a));
    } else {
        assert((a + b).drop_last() =~= a + b.drop_last());
        assert((a + b).last() == b.last());
        lemma_bindings_in_order(c, a, b.drop_last());
        assert(bindings_text(c, a + b) =~= bindings_text(c, a) + bindings_text(c, b));
    }
}

/// A single binding yields exactly its own function.
pub proof fn lemma_binding_of_one(c: Bindgen, x: Binding)
    ensures
        bindings_text(c, seq![x]) == binding_text(c, x),
{
    assert(seq![x].drop_last() =~= Seq::<Binding>::empty());
    assert(seq![x].last() == x);
    assert(bindings_text(c, Seq::<Binding>::empty()) == Seq::<char>::empty());
    assert(bindings_text(c, seq![x]) =~= binding_text(c, x));
}

/// Two arguments that read the same.
pub open spec fn same_arg(x: ArgSpec, y: ArgSpec) -> bool {
    x.name@ == y.name@ && x.reg@ == y.reg@ && x.ty@ == y.ty@
}

/// Two argument lists that read the same, argument by argument.
pub open spec fn same_args(a: Seq<ArgSpec>, b: Seq<ArgSpec>) -> bool {
    a.len() == b.len() && forall|i: int| 0 <= i < a.len() ==> #[trigger] same_arg(a[i], b[i])
}

/// Two bindings that read the same.
pub open spec fn same_binding(x: Binding, y: Binding) -> bool {
    x.name@ == y.name@ && x.offset == y.offset && x.ret@ == y.ret@ && same_args(x.args@, y.args@)
}

/// Two binding lists that read the same, binding by binding.
pub open spec fn same_bindings(a: Seq<Binding>, b: Seq<Binding>) -> bool {
    a.len() == b.len() && forall|i: int| 0 <= i < a.len() ==> #[trigger] same_binding(a[i], b[i])
}

/// Two configurations that read the same.
pub open spec fn same_config(c: Bindgen, d: Bindgen) -> bool {
    &&& c.interrupt_number == d.interrupt_number
    &&& c.function_sig == d.function_sig
    &&& c.function_register@ == d.function_register@
    &&& same_bindings(c.bindings@, d.bindings@)
}

proof fn lemma_same_args_text(a: Seq<ArgSpec>, b: Seq<ArgSpec>)
    requires
        same_args(a, b),
    ensures
        names_joined(a) == names_joined(b),
        params_text(a) == params_text(b),
        operands_text(a) == operands_text(b),
    decreases a.len(),
{
    if a.len() > 0 {
        assert(same_arg(a[a.len() - 1], b[b.len() - 1]));
        assert(same_args(a.drop_last(), b.drop_last())) by {
            assert forall|i: int| 0 <= i < a.len() - 1 implies #[trigger] same_arg(a.drop_last()[i], b.drop_last()[i]) by {
                assert(same_arg(a[i], b[i]));
            }
        }
        lemma_same_args_text(a.drop_last(), b.drop_last());
        if a.len() == 1 {
            assert(same_arg(a[0], b[0]));
        }
    }
}

proof fn lemma_same_binding_text(c: Bindgen, d: Bindgen, x: Binding, y: Binding)
    requires
        same_config(c, d),
        same_binding(x, y),
    ensures
        binding_text(c, x) == binding_text(d, y),
{
    lemma_same_args_text(x.args@, y.args@);
    assert(doc_text(x) == doc_text(y));
    assert(header_text(x) == header_text(y));
    assert(asm_text(c, x) == asm_text(d, y));
}

proof fn lemma_same_bindings_text(c: Bindgen, d: Bindgen, a: Seq<Binding>, b: Seq<Binding>)
    requires
        same_config(c, d),
        same_bindings(a, b),
    ensures
        bindings_text(c, a) == bindings_text(d, b),
    decreases a.len(),
{
    if a.len() > 0 {
        assert(same_binding(a[a.len() - 1], b[b.len() - 1]));
        lemma_same_binding_text(c, d, a.last(), b.last());
        assert(same_bindings(a.drop_last(), b.drop_last())) by {
            assert forall|i: int| 0 <= i < a.len() - 1 implies #[trigger] same_binding(a.drop_last()[i], b.drop_last()[i]) by {
                assert(same_binding(a[i], b[i]));
            }
        }
        lemma_same_bindings_text(c, d, a.drop_last(), b.drop_last());
    }
}

/// Generation is deterministic: two configurations that read the same give
/// byte-identical files, so generating twice from one configuration gives the
/// same output.
pub proof fn lemma_generation_deterministic(c: Bindgen, d: Bindgen)
    requires
        same_config(c, d),
    ensures
        file_text(c) == file_text(d),
{
    lemma_same_bindings_text(c, d, c.bindings@, d.bindings@);
}

} // verus!
