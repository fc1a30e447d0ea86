//! The complete generated file: a fixed prologue, one function per binding in
//! specification order, and a fixed panic handler.
use vstd::prelude::*;
use vstd::string::*;
use crate::Code;
use crate::codegen::{binding_text, generate_binding};
use crate::diag::{
    binding_label, keeps_prefix, lemma_keeps_prefix_trans, line_prefix, starts_with, Diagnostics,
};
use crate::spec::{Bindgen, Binding};

verus! {

/// The functions emitted for `bs` under `c`, one after the other in order.
pub open spec fn bindings_text(c: Bindgen, bs: Seq<Binding>) -> Seq<char>
    decreases bs.len(),
{
    if bs.len() == 0 {
        Seq::empty()
    } else {
        bindings_text(c, bs.drop_last()) + binding_text(c, bs.last())
    }
}

/// What the generated file starts with.
pub open spec fn prologue_text() -> Seq<char> {
    "#![no_std]\nextern crate core;\n"@
}

/// What the generated file ends with: a panic handler that never returns,
/// since the target cannot unwind.
pub open spec fn epilogue_text() -> Seq<char> {
    "\n    #[panic_handler]\n    fn panic(_info: &core::panic::PanicInfo) -> !{\n        unsafe { ::core::hint::unreachable_unchecked() }\n    }\n    "@
}

/// The complete generated file for `c`.
pub open spec fn file_text(c: Bindgen) -> Seq<char> {
    prologue_text() + bindings_text(c, c.bindings@) + epilogue_text()
}

/// `lines[from..to]` are the diagnostic lines of the block of the binding named
/// `name`: first its announcement under the generator's own label, then lines
/// under the binding's label.
pub open spec fn block_labeled(lines: Seq<String>, from: int, to: int, name: Seq<char>) -> bool {
    &&& 0 <= from < to <= lines.len()
    &&& lines[from]@ == line_prefix("BINDGEN"@) + "Generating binding for "@ + name
    &&& forall|k: int| from < k < to ==> #[trigger] starts_with(lines[k]@, line_prefix(binding_label(name)))
}

/// The lines between consecutive `bounds` are the blocks of `bs`, in order.
pub open spec fn blocks_labeled(lines: Seq<String>, bounds: Seq<int>, bs: Seq<Binding>) -> bool {
    &&& bounds.len() == bs.len() + 1
    &&& forall|j: int| 0 <= j < bs.len() ==> #[trigger] block_labeled(lines, bounds[j], bounds[j + 1], bs[j].name@)
}

proof fn lemma_block_labeled_grow(a: Seq<String>, b: Seq<String>, from: int, to: int, name: Seq<char>)
    requires
        keeps_prefix(a, b),
        block_labeled(a, from, to, name),
    ensures
        block_labeled(b, from, to, name),
{
    assert forall|k: int| from <= k < to implies b[k] == a[k] by {
        assert(b.subrange(0, a.len() as int)[k] == a[k]);
    }
    assert forall|k: int| from < k < to implies #[trigger] starts_with(b[k]@, line_prefix(binding_label(name))) by {
        assert(b[k] == a[k]);
        assert(starts_with(a[k]@, line_prefix(binding_label(name))));
    }
}

/// Emits the complete file for `bindgen`: the prologue, one function per
/// binding in specification order, and the panic handler. The text depends on
/// `bindgen` alone. Diagnostic lines are only added; those before the first
/// binding and after the last carry the generator's own label, since no binding
/// is current there, and none is current afterwards, also when there are none.
pub fn generate_file(bindgen: &Bindgen, diag: &mut Diagnostics) -> (r: Code)
    ensures
        r@ == file_text(*bindgen),
        final(diag).verbose == old(diag).verbose,
        final(diag).current_binding is None,
        keeps_prefix(old(diag).lines@, final(diag).lines@),
        old(diag).verbose ==> {
            &&& final(diag).lines@.len() >= old(diag).lines@.len() + 2
            &&& final(diag).lines@[old(diag).lines@.len() as int]@
                == line_prefix("BINDGEN"@) + "Adding no_std attribute"@
            &&& final(diag).lines@.last()@ == line_prefix("BINDGEN"@) + "Adding panic handler"@
            &&& exists|bounds: Seq<int>|
                #[trigger] blocks_labeled(final(diag).lines@, bounds, bindgen.bindings@)
                    && bounds[0] == old(diag).lines@.len() + 1
                    && bounds.last() == final(diag).lines@.len() - 1
        },
        !old(diag).verbose ==> final(diag).lines@ == old(diag).lines@,
{
    let ghost start = diag.lines@;
    diag.reset_current_binding();
    diag.verbose_println("Adding no_std attribute");
    let ghost l0 = diag.lines@;
    proof {
        assert(keeps_prefix(start, l0)) by {
            assert(l0.subrange(0, start.len() as int) =~= start);
        }
        assert(l0.subrange(0, l0.len() as int) =~= l0);
    }
    let mut code = String::from_str("#![no_std]\nextern crate core;\n");
    let ghost base = code@;
    let n = bindgen.bindings.len();
    let mut i: usize = 0;
    let ghost mut bounds: Seq<int> = seq![l0.len() as int];
    assert(code@ =~= base + bindings_text(*bindgen, bindgen.bindings@.subrange(0, 0)));
    while i < n
        invariant
            n == bindgen.bindings@.len(),
            i <= n,
            base == prologue_text(),
            code@ == base + bindings_text(*bindgen, bindgen.bindings@.subrange(0, i as int)),
            diag.verbose == old(diag).verbose,
            !old(diag).verbose ==> diag.lines@ == old(diag).lines@,
            keeps_prefix(start, l0),
            keeps_prefix(l0, diag.lines@),
            start == old(diag).lines@,
            old(diag).verbose ==> l0.len() == start.len() + 1,
            diag.current_binding is None,
            old(diag).verbose ==> {
                &&& blocks_labeled(diag.lines@, bounds, bindgen.bindings@.subrange(0, i as int))
                &&& bounds[0] == l0.len()
                &&& bounds.last() == diag.lines@.len()
            },
        decreases n - i,
    {
        let ghost next = bindgen.bindings@.subrange(0, i + 1);
        assert(next.drop_last() =~= bindgen.bindings@.subrange(0, i as int));
        let ghost before = diag.lines@;
        let one = generate_binding(bindgen, &bindgen.bindings[i], diag);
        proof {
            lemma_keeps_prefix_trans(l0, before, diag.lines@);
            if old(diag).verbose {
                let after = diag.lines@;
                let done = bindgen.bindings@.subrange(0, i as int);
                let new_bounds = bounds.push(after.len() as int);
                assert forall|j: int| 0 <= j < next.len() implies #[trigger] block_labeled(
                    after,
                    new_bounds[j],
                    new_bounds[j + 1],
                    next[j].name@,
                ) by {
                    if j < i {
                        assert(block_labeled(before, bounds[j], bounds[j + 1], done[j].name@));
                        lemma_block_labeled_grow(before, after, bounds[j], bounds[j + 1], done[j].name@);
                    } else {
                        let name = bindgen.bindings@[i as int].name@;
                        let head = after.subrange(0, before.len() + 1 as int);
                        assert forall|k: int| before.len() < k < after.len() implies #[trigger] starts_with(
                            after[k]@,
                            line_prefix(binding_label(name)),
                        ) by {
                            assert(head.len() <= k);
                        }
                    }
                }
                bounds = new_bounds;
            }
        }
        code.append(one.as_str());
        assert(code@ =~= base + bindings_text(*bindgen, next));
        i = i + 1;
    }
    assert(bindgen.bindings@.subrange(0, n as int) =~= bindgen.bindings@);
    diag.reset_current_binding();
    let ghost before_last = diag.lines@;
    diag.verbose_println("Adding panic handler");
    proof {
        assert(keeps_prefix(before_last, diag.lines@)) by {
            assert(diag.lines@.subrange(0, before_last.len() as int) =~= before_last);
        }
        lemma_keeps_prefix_trans(l0, before_last, diag.lines@);
        lemma_keeps_prefix_trans(start, l0, diag.lines@);
        if old(diag).verbose {
            assert forall|j: int| 0 <= j < bindgen.bindings@.len() implies #[trigger] block_labeled(
                diag.lines@,
                bounds[j],
                bounds[j + 1],
                bindgen.bindings@[j].name@,
            ) by {
                assert(block_labeled(before_last, bounds[j], bounds[j + 1], bindgen.bindings@[j].name@));
                lemma_block_labeled_grow(before_last, diag.lines@, bounds[j], bounds[j + 1], bindgen.bindings@[j].name@);
            }
            assert(blocks_labeled(diag.lines@, bounds, bindgen.bindings@));
            assert(diag.lines@[start.len() as int] == l0.last()) by {
                assert(diag.lines@.subrange(0, l0.len() as int)[start.len() as int] == l0[start.len() as int]);
            }
        }
    }
    code.append("\n    #[panic_handler]\n    fn panic(_info: &core::panic::PanicInfo) -> !{\n        unsafe { ::core::hint::unreachable_unchecked() }\n    }\n    ");
    assert(code@ =~= file_text(*bindgen));
    code
}

} // verus!
