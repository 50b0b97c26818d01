//! The emission model shared by the backends.
//!
//! A renderer's behaviour is captured at the spec level by an [`Emit`] value:
//! the text it produces, the diagnostics it writes to the error channel,
//! whether it requested the flattening helper of the dual-emission mode, and
//! whether it aborted with a fatal error.  Sequential composition of renderers
//! is [`Emit::and_then`], which stops at the first fatal error.

use vstd::prelude::*;

verus! {

/// A fatal error: the affected rule's emission is abandoned.
#[derive(Clone, Copy, PartialEq, Eq, Structural, Debug)]
pub enum EmitError {
    /// A member key with no representable rendering.
    UnsupportedMemberKey,
    /// A control operator the active dialect cannot express.
    UnsupportedControl,
    /// Fixed-arity and variable-cardinality elements mixed in one array group
    /// under the validator-builder dialect.
    MixedArity,
    /// Occurrence bounds with the lower bound above the finite upper bound.
    InvalidBounds,
}

/// What one renderer does: its output text, its diagnostics, whether it needs
/// the flattening helper, and whether it failed.
pub struct Emit {
    pub text: Seq<char>,
    pub err: Seq<char>,
    pub flatten: bool,
    pub fail: Option<EmitError>,
}

impl Emit {
    /// Successful emission of `text` alone.
    pub open spec fn of(text: Seq<char>) -> Emit {
        Emit { text, err: Seq::empty(), flatten: false, fail: None }
    }

    /// Emission of nothing at all.
    pub open spec fn empty() -> Emit {
        Emit::of(Seq::empty())
    }

    /// A diagnostic on the error channel, no output.
    pub open spec fn diag(err: Seq<char>) -> Emit {
        Emit { text: Seq::empty(), err, flatten: false, fail: None }
    }

    /// An immediate fatal error.
    pub open spec fn fatal(e: EmitError) -> Emit {
        Emit { text: Seq::empty(), err: Seq::empty(), flatten: false, fail: Some(e) }
    }

    /// `self`, then `next` — unless `self` already failed.
    pub open spec fn and_then(self, next: Emit) -> Emit {
        if self.fail is Some {
            self
        } else {
            Emit {
                text: self.text + next.text,
                err: self.err + next.err,
                flatten: self.flatten || next.flatten,
                fail: next.fail,
            }
        }
    }

    /// `self`, then the plain text `text`.
    pub open spec fn and_text(self, text: Seq<char>) -> Emit {
        self.and_then(Emit::of(text))
    }

    /// `self` with the flattening helper requested.
    pub open spec fn with_flatten(self) -> Emit {
        Emit { flatten: true, ..self }
    }

    /// `self` with its output text replaced: diagnostics, flatten request and
    /// failure kept.
    pub open spec fn with_text(self, text: Seq<char>) -> Emit {
        Emit { text, ..self }
    }
}

/// Prepending no text changes nothing.
pub broadcast proof fn lemma_seq_empty_add(s: Seq<char>)
    ensures
        #[trigger] (Seq::<char>::empty() + s) == s,
{
    assert(Seq::<char>::empty() + s =~= s);
}

/// Appending no text changes nothing.
pub broadcast proof fn lemma_seq_add_empty(s: Seq<char>)
    ensures
        #[trigger] (s + Seq::<char>::empty()) == s,
{
    assert(s + Seq::<char>::empty() =~= s);
}

/// Text concatenation associates.
pub broadcast proof fn lemma_seq_add_assoc(a: Seq<char>, b: Seq<char>, c: Seq<char>)
    ensures
        #[trigger] ((a + b) + c) == a + (b + c),
{
    assert((a + b) + c =~= a + (b + c));
}

/// Sequential composition associates.
pub proof fn lemma_and_then_assoc(a: Emit, b: Emit, c: Emit)
    ensures
        a.and_then(b).and_then(c) == a.and_then(b.and_then(c)),
{
    if a.fail is Some {
    } else if b.fail is Some {
        assert(a.and_then(b).and_then(c) == a.and_then(b));
    } else {
        assert((a.text + b.text) + c.text =~= a.text + (b.text + c.text));
        assert((a.err + b.err) + c.err =~= a.err + (b.err + c.err));
    }
}

/// The broadcast form of [`lemma_and_then_assoc`].
pub broadcast proof fn lemma_emit_assoc(a: Emit, b: Emit, c: Emit)
    ensures
        #[trigger] (a.and_then(b).and_then(c)) == a.and_then(b.and_then(c)),
{
    lemma_and_then_assoc(a, b, c);
}

/// The normalization facts the renderers' proofs lean on.
pub broadcast group group_emit_lemmas {
    lemma_seq_empty_add,
    lemma_seq_add_empty,
    lemma_seq_add_assoc,
    lemma_emit_assoc,
}

} // verus!
