//! The cardinality resolver: occurrence specifiers become closed numeric
//! bounds, and bounds become an expansion plan — render exactly `n` copies,
//! enumerate every admissible fixed arity, or fall back to an open-ended
//! sequence form.

use vstd::prelude::*;

use crate::ast::Occur;
use crate::ast::Occurrence;
use crate::emit::EmitError;

verus! {

/// The sentinel for an unbounded upper occurrence limit.
pub const UNBOUNDED: usize = usize::MAX;

/// Bounded ranges narrower than this are expanded into an enumeration of
/// fixed-arity alternatives; anything wider uses the open-ended form.
pub const EXPANSION_THRESHOLD: usize = 8;

/// The closed bounds `(lower, upper)` of an occurrence, `upper == UNBOUNDED`
/// standing for an absent limit.
pub open spec fn occurrence_bounds(o: Option<Occurrence>) -> (usize, usize) {
    match o {
        Some(oc) => match oc.occur {
            Occur::ZeroOrMore => (0usize, UNBOUNDED),
            Occur::Exact { lower, upper } => (
                match lower {
                    Some(l) => l,
                    None => 0usize,
                },
                match upper {
                    Some(u) => u,
                    None => UNBOUNDED,
                },
            ),
            Occur::OneOrMore => (1usize, UNBOUNDED),
            Occur::Optional => (0usize, 1usize),
        },
        None => (1usize, 1usize),
    }
}

/// Resolves an occurrence specifier to closed bounds.
pub fn calculate_occurrence(occur: &Option<Occurrence>) -> (r: (usize, usize))
    ensures
        r == occurrence_bounds(*occur),
{
    match occur {
        Some(oc) => match &oc.occur {
            Occur::ZeroOrMore => (0, UNBOUNDED),
            Occur::Exact { lower, upper } => (
                match lower {
                    Some(l) => *l,
                    None => 0,
                },
                match upper {
                    Some(u) => *u,
                    None => UNBOUNDED,
                },
            ),
            Occur::OneOrMore => (1, UNBOUNDED),
            Occur::Optional => (0, 1),
        },
        None => (1, 1),
    }
}

/// Whether an occurrence marks its entry optional: its normalized lower
/// bound is zero (an absent lower bound of explicit bounds normalizes to
/// zero).
pub open spec fn occurrence_is_optional(o: Option<Occurrence>) -> bool {
    match o {
        Some(oc) => match oc.occur {
            Occur::Exact { lower, upper: _ } => (match lower {
                Some(l) => l,
                None => 0usize,
            }) == 0,
            Occur::ZeroOrMore => true,
            Occur::Optional => true,
            _ => false,
        },
        None => false,
    }
}

/// Decides whether a group entry's occurrence makes it optional.
pub fn is_group_entry_occurence_optional(occur: &Option<Occurrence>) -> (r: bool)
    ensures
        r == occurrence_is_optional(*occur),
{
    match occur {
        Some(oc) => match &oc.occur {
            Occur::Exact { lower, upper: _ } => match lower {
                Some(l) => *l == 0,
                None => true,
            },
            Occur::ZeroOrMore => true,
            Occur::Optional => true,
            _ => false,
        },
        None => false,
    }
}

/// How a repeated element is rendered.
#[derive(Clone, Copy, PartialEq, Eq, Structural, Debug)]
pub enum Expansion {
    /// Exactly `count` copies, no union wrapper.
    Exact { count: usize },
    /// One fixed-arity alternative for every length in `lower..=upper`,
    /// unioned together.
    Enumerate { lower: usize, upper: usize },
    /// An open-ended sequence form, preceded by a fixed prefix of `prefix`
    /// copies — the lower bound itself, so the prefix is empty exactly when
    /// the lower bound is zero.
    Unbounded { prefix: usize },
}

/// The expansion plan for closed bounds: equal bounds render exactly;
/// a finite range narrower than [`EXPANSION_THRESHOLD`] enumerates each
/// admissible arity; anything wider or unbounded is open-ended.  Bounds with
/// `lower > upper` are rejected.
pub open spec fn spec_expansion_plan(lower: usize, upper: usize) -> Result<Expansion, EmitError> {
    if lower == upper {
        Ok(Expansion::Exact { count: lower })
    } else if lower > upper {
        Err(EmitError::InvalidBounds)
    } else if upper != UNBOUNDED && upper - lower < EXPANSION_THRESHOLD {
        Ok(Expansion::Enumerate { lower, upper })
    } else {
        Ok(Expansion::Unbounded { prefix: lower })
    }
}

/// Plans the rendering of an element repeated between `lower` and `upper`
/// times.
pub fn expansion_plan(lower: usize, upper: usize) -> (r: Result<Expansion, EmitError>)
    ensures
        r == spec_expansion_plan(lower, upper),
{
    if lower == upper {
        Ok(Expansion::Exact { count: lower })
    } else if lower > upper {
        Err(EmitError::InvalidBounds)
    } else if upper != UNBOUNDED && upper - lower < EXPANSION_THRESHOLD {
        Ok(Expansion::Enumerate { lower, upper })
    } else {
        Ok(Expansion::Unbounded { prefix: lower })
    }
}

} // verus!
