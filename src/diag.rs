//! Diagnostic output, labelled with the binding that is being generated.
use vstd::prelude::*;
use vstd::string::*;

verus! {

/// Names what `str::to_uppercase` returns for a string.
pub uninterp spec fn upper_of(s: Seq<char>) -> Seq<char>;

/// Relies on `str::to_uppercase`: the result depends on the characters alone.
#[verifier::external_body]
fn uppercase(s: &str) -> (r: String)
    ensures
        r@ == upper_of(s@),
{
    s.to_uppercase()
}

/// The label of the binding named `name`.
pub open spec fn binding_label(name: Seq<char>) -> Seq<char> {
    "BINDGEN | "@ + upper_of(name)
}

/// The label that diagnostic lines carry: the current binding's, or the
/// generator's own outside any binding.
pub open spec fn label_text(current: Option<String>) -> Seq<char> {
    match current {
        Some(l) => l@,
        None => "BINDGEN"@,
    }
}

/// What a diagnostic line with the given label starts with.
pub open spec fn line_prefix(label: Seq<char>) -> Seq<char> {
    "["@ + label + "] "@
}

/// `s` begins with `p`.
pub open spec fn starts_with(s: Seq<char>, p: Seq<char>) -> bool {
    p.len() <= s.len() && s.subrange(0, p.len() as int) == p
}

/// `new` is `old` followed by further lines.
pub open spec fn keeps_prefix(old: Seq<String>, new: Seq<String>) -> bool {
    old.len() <= new.len() && new.subrange(0, old.len() as int) == old
}

/// Lines are only ever added after the kept ones.
pub proof fn lemma_keeps_prefix_trans(a: Seq<String>, b: Seq<String>, c: Seq<String>)
    requires
        keeps_prefix(a, b),
        keeps_prefix(b, c),
    ensures
        keeps_prefix(a, c),
{
    assert(c.subrange(0, a.len() as int) =~= a) by {
        assert forall|i: int| 0 <= i < a.len() implies c[i] == a[i] by {
            assert(c.subrange(0, b.len() as int)[i] == b[i]);
            assert(b.subrange(0, a.len() as int)[i] == a[i]);
        }
    }
}

/// `new` is `old` followed by lines that all carry `label`.
pub open spec fn extends_labeled(old: Seq<String>, new: Seq<String>, label: Seq<char>) -> bool {
    &&& old.len() <= new.len()
    &&& new.subrange(0, old.len() as int) == old
    &&& forall|i: int|
        old.len() <= i < new.len() ==> #[trigger] starts_with(new[i]@, line_prefix(label))
}

/// A list of lines extends itself, under any label.
pub proof fn lemma_extends_refl(s: Seq<String>, label: Seq<char>)
    ensures
        extends_labeled(s, s, label),
{
    assert(s.subrange(0, s.len() as int) =~= s);
}

/// Labelled extension composes: lines added in two steps under one label are
/// lines added under that label.
pub proof fn lemma_extends_trans(a: Seq<String>, b: Seq<String>, c: Seq<String>, label: Seq<char>)
    requires
        extends_labeled(a, b, label),
        extends_labeled(b, c, label),
    ensures
        extends_labeled(a, c, label),
{
    assert(c.subrange(0, a.len() as int) =~= a) by {
        assert forall|i: int| 0 <= i < a.len() implies c[i] == a[i] by {
            assert(c.subrange(0, b.len() as int)[i] == b[i]);
            assert(b.subrange(0, a.len() as int)[i] == a[i]);
        }
    }
    assert forall|i: int| a.len() <= i < c.len() implies #[trigger] starts_with(c[i]@, line_prefix(label)) by {
        if i < b.len() {
            assert(c.subrange(0, b.len() as int)[i] == b[i]);
            assert(starts_with(b[i]@, line_prefix(label)));
        }
    }
}

/// Diagnostic state threaded through generation: whether diagnostics are kept,
/// the label of the binding being generated, and the lines kept so far.
pub struct Diagnostics {
    pub verbose: bool,
    pub current_binding: Option<String>,
    pub lines: Vec<String>,
}

impl Diagnostics {
    /// Starts with no current binding and no lines.
    pub fn new(verbose: bool) -> (r: Diagnostics)
        ensures
            r.verbose == verbose,
            r.current_binding is None,
            r.lines@.len() == 0,
    {
        Diagnostics { verbose, current_binding: None, lines: Vec::new() }
    }

    /// The label of the current binding, or `BINDGEN` outside any binding.
    pub fn get_current_binding(&self) -> (r: String)
        ensures
            r@ == label_text(self.current_binding),
    {
        match &self.current_binding {
            Some(l) => l.clone(),
            None => String::from_str("BINDGEN"),
        }
    }

    /// Marks `binding` as the binding being generated.
    pub fn set_current_binding(&mut self, binding: &str)
        ensures
            final(self).current_binding matches Some(l) && l@ == binding_label(binding@),
            final(self).verbose == old(self).verbose,
            final(self).lines == old(self).lines,
    {
        let mut label = String::from_str("BINDGEN | ");
        let upper = uppercase(binding);
        label.append(upper.as_str());
        self.current_binding = Some(label);
    }

    /// Clears the current binding.
    pub fn reset_current_binding(&mut self)
        ensures
            final(self).current_binding is None,
            final(self).verbose == old(self).verbose,
            final(self).lines == old(self).lines,
    {
        self.current_binding = None;
    }

    /// Keeps `msg`, prefixed with the current label in brackets, when
    /// diagnostics are on; does nothing otherwise.
    pub fn verbose_println(&mut self, msg: &str)
        ensures
            final(self).verbose == old(self).verbose,
            final(self).current_binding == old(self).current_binding,
            old(self).verbose ==> final(self).lines@ == old(self).lines@.push(final(self).lines@.last())
                && final(self).lines@.last()@ == line_prefix(label_text(old(self).current_binding)) + msg@,
            !old(self).verbose ==> final(self).lines@ == old(self).lines@,
            extends_labeled(old(self).lines@, final(self).lines@, label_text(old(self).current_binding)),
    {
        proof { lemma_extends_refl(self.lines@, label_text(self.current_binding)); }
        if self.verbose {
            let mut line = String::from_str("[");
            let label = self.get_current_binding();
            line.append(label.as_str());
            line.append("] ");
            line.append(msg);
            let ghost p = line_prefix(label_text(self.current_binding));
            assert(line@ =~= p + msg@);
            assert(line@.subrange(0, p.len() as int) =~= p);
            self.lines.push(line);
            assert(self.lines@.subrange(0, old(self).lines@.len() as int) =~= old(self).lines@);
        }
    }
}

} // verus!
