//! The in-memory model of a binding specification.
use vstd::prelude::*;

verus! {

/// One argument of a binding: its name, the register it is passed in, and its
/// source-level type.
#[derive(Clone, Debug)]
pub struct ArgSpec {
    pub name: String,
    pub reg: String,
    pub ty: String,
}

/// One function to generate: its name, its offset within the dispatch family,
/// its arguments in declared order and its return type.
#[derive(Clone, Debug)]
pub struct Binding {
    pub name: String,
    pub offset: u32,
    pub args: Vec<ArgSpec>,
    pub ret: String,
}

/// The dispatch configuration shared by all bindings of one specification.
#[derive(Clone, Debug)]
pub struct Bindgen {
    pub interrupt_number: u16,
    pub function_sig: Option<u16>,
    pub bindings: Vec<Binding>,
    pub function_register: String,
}

/// The packed binding number: the signature tag, if any, in the high sixteen
/// bits, or-ed with the offset.
pub open spec fn packed_number(sig: Option<u16>, offset: u32) -> u32 {
    match sig {
        Some(s) => ((s as u32) << 16u32) | offset,
        None => offset,
    }
}

/// Computes the packed binding number of `binding` under `bindgen`. The same
/// value is loaded into the dispatch register and masks the return value.
pub fn binding_number(bindgen: &Bindgen, binding: &Binding) -> (r: u32)
    ensures
        r == packed_number(bindgen.function_sig, binding.offset),
        bindgen.function_sig is None ==> r == binding.offset,
        forall|s: u16| bindgen.function_sig == Some(s) ==> r == ((s as u32) << 16u32) | binding.offset,
{
    match bindgen.function_sig {
        Some(s) => ((s as u32) << 16u32) | binding.offset,
        None => binding.offset,
    }
}

} // verus!
