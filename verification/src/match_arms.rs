//! Patterns and coverage of `match` expressions.
//!
//! A match on a label takes label patterns of the scrutinee's own index, a
//! match on a union takes constructor patterns of the scrutinee's own type;
//! no arm may repeat an earlier one, and every label or constructor must be
//! covered.  Arms are checked one at a time, in order, against the names
//! the earlier arms covered.

use crate::index::{IndexRefV, IndexTypeRef, ResolvedName, Symbol};
use crate::rules::Span;
use crate::types::{InferredIndex, InferredStructType};
use vstd::prelude::*;

verus! {

/// The pattern of one match arm.
#[derive(Clone, Copy, Debug, PartialEq, Eq, Structural)]
pub enum ArmPattern {
    /// `Index.Variant`.
    Label { index: ResolvedName, variant: Symbol, span: Span },
    /// A constructor `member` of the union `owning_type`.
    Constructor { owning_type: ResolvedName, member: Symbol, span: Span },
}

/// Why a match arm or a match is rejected.
#[derive(Debug, PartialEq, Eq)]
pub enum MatchArmError {
    /// A label match with a constructor pattern; the span is the arm's.
    LabelPatternExpected { span: Span },
    /// A union match with a label pattern; the span is the arm's.
    ConstructorPatternExpected { span: Span },
    /// A label of another index than the scrutinee's.
    IndexMismatch { expected: IndexTypeRef, found: ResolvedName, span: Span },
    /// A label the scrutinee's index does not declare.
    UnknownVariant { variant: Symbol, span: Span },
    /// A constructor of another type than the scrutinee's.
    ForeignConstructor { member: Symbol, span: Span },
    /// The arm repeats a label or constructor of an earlier arm.
    DuplicateArm { name: Symbol, span: Span },
    /// A label or constructor no arm covers.
    NonExhaustive { missing: Symbol, span: Span },
}

/// Value-level view of a match error.
pub enum MatchArmErrorV {
    LabelPatternExpected { span: Span },
    ConstructorPatternExpected { span: Span },
    IndexMismatch { expected: IndexRefV, found: ResolvedName, span: Span },
    UnknownVariant { variant: Symbol, span: Span },
    ForeignConstructor { member: Symbol, span: Span },
    DuplicateArm { name: Symbol, span: Span },
    NonExhaustive { missing: Symbol, span: Span },
}

impl View for MatchArmError {
    type V = MatchArmErrorV;

    open spec fn view(&self) -> MatchArmErrorV {
        match *self {
            MatchArmError::LabelPatternExpected { span } => MatchArmErrorV::LabelPatternExpected { span },
            MatchArmError::ConstructorPatternExpected { span } => MatchArmErrorV::ConstructorPatternExpected {
                span,
            },
            MatchArmError::IndexMismatch { expected, found, span } => MatchArmErrorV::IndexMismatch {
                expected: expected@,
                found,
                span,
            },
            MatchArmError::UnknownVariant { variant, span } => MatchArmErrorV::UnknownVariant { variant, span },
            MatchArmError::ForeignConstructor { member, span } => MatchArmErrorV::ForeignConstructor {
                member,
                span,
            },
            MatchArmError::DuplicateArm { name, span } => MatchArmErrorV::DuplicateArm { name, span },
            MatchArmError::NonExhaustive { missing, span } => MatchArmErrorV::NonExhaustive { missing, span },
        }
    }
}

/// The check of one arm of a label match; on success the arm covers its
/// variant.
pub open spec fn label_arm_v(
    scrutinee: IndexRefV,
    variants: Seq<Symbol>,
    covered: Seq<Symbol>,
    arm: ArmPattern,
    arm_span: Span,
) -> Result<Symbol, MatchArmErrorV> {
    match arm {
        ArmPattern::Constructor { .. } => Err(MatchArmErrorV::LabelPatternExpected { span: arm_span }),
        ArmPattern::Label { index, variant, span } => if scrutinee != IndexRefV::Declared(index) {
            Err(MatchArmErrorV::IndexMismatch { expected: scrutinee, found: index, span })
        } else if !variants.contains(variant) {
            Err(MatchArmErrorV::UnknownVariant { variant, span })
        } else if covered.contains(variant) {
            Err(MatchArmErrorV::DuplicateArm { name: variant, span })
        } else {
            Ok(variant)
        },
    }
}

/// The check of one arm of a union match; on success the arm covers its
/// constructor.
pub open spec fn constructor_arm_v(
    scrutinee: ResolvedName,
    covered: Seq<Symbol>,
    arm: ArmPattern,
    arm_span: Span,
) -> Result<Symbol, MatchArmErrorV> {
    match arm {
        ArmPattern::Label { .. } => Err(MatchArmErrorV::ConstructorPatternExpected { span: arm_span }),
        ArmPattern::Constructor { owning_type, member, span } => if owning_type != scrutinee {
            Err(MatchArmErrorV::ForeignConstructor { member, span })
        } else if covered.contains(member) {
            Err(MatchArmErrorV::DuplicateArm { name: member, span })
        } else {
            Ok(member)
        },
    }
}

fn contains_symbol(v: &Vec<Symbol>, s: Symbol) -> (b: bool)
    ensures
        b == v@.contains(s),
{
    let mut k: usize = 0;
    while k < v.len()
        invariant
            k <= v@.len(),
            forall|j: int| 0 <= j < k ==> v@[j] != s,
        decreases v@.len() - k,
    {
        if v[k] == s {
            proof {
                assert(v@[k as int] == s);
            }
            return true;
        }
        k += 1;
    }
    false
}

/// Checks one arm of a match on a label of `scrutinee`, whose index declares
/// `variants`; `covered` holds the variants of the earlier arms and gains
/// this arm's variant.
pub fn check_label_arm(
    scrutinee: &InferredIndex,
    variants: &Vec<Symbol>,
    covered: &mut Vec<Symbol>,
    arm: ArmPattern,
    arm_span: Span,
) -> (r: Result<(), MatchArmError>)
    ensures
        match (r, label_arm_v(scrutinee@, variants@, old(covered)@, arm, arm_span)) {
            (Ok(()), Ok(v)) => final(covered)@ == old(covered)@.push(v),
            (Err(e), Err(v)) => e@ == v && final(covered)@ == old(covered)@,
            _ => false,
        },
{
    match arm {
        ArmPattern::Constructor { .. } => Err(MatchArmError::LabelPatternExpected { span: arm_span }),
        ArmPattern::Label { index, variant, span } => {
            if !scrutinee.matches_resolved(&index) {
                return Err(
                    MatchArmError::IndexMismatch {
                        expected: scrutinee.type_ref().clone(),
                        found: index,
                        span,
                    },
                );
            }
            if !contains_symbol(variants, variant) {
                return Err(MatchArmError::UnknownVariant { variant, span });
            }
            if contains_symbol(covered, variant) {
                return Err(MatchArmError::DuplicateArm { name: variant, span });
            }
            covered.push(variant);
            Ok(())
        },
    }
}

/// Checks one arm of a match on a value of the union `scrutinee`;
/// `covered` holds the constructors of the earlier arms and gains this arm's
/// constructor.
pub fn check_constructor_arm(
    scrutinee: &InferredStructType,
    covered: &mut Vec<Symbol>,
    arm: ArmPattern,
    arm_span: Span,
) -> (r: Result<(), MatchArmError>)
    ensures
        match (r, constructor_arm_v(scrutinee.spec_ref().spec_resolved(), old(covered)@, arm, arm_span)) {
            (Ok(()), Ok(v)) => final(covered)@ == old(covered)@.push(v),
            (Err(e), Err(v)) => e@ == v && final(covered)@ == old(covered)@,
            _ => false,
        },
{
    match arm {
        ArmPattern::Label { .. } => Err(MatchArmError::ConstructorPatternExpected { span: arm_span }),
        ArmPattern::Constructor { owning_type, member, span } => {
            if !scrutinee.matches_resolved(&owning_type) {
                return Err(MatchArmError::ForeignConstructor { member, span });
            }
            if contains_symbol(covered, member) {
                return Err(MatchArmError::DuplicateArm { name: member, span });
            }
            covered.push(member);
            Ok(())
        },
    }
}

/// Checks that the arms covered every required label or constructor; the
/// first uncovered one, in declaration order, is reported at the match.
pub fn check_match_coverage(required: &Vec<Symbol>, covered: &Vec<Symbol>, match_span: Span) -> (r: Result<
    (),
    MatchArmError,
>)
    ensures
        r is Ok <==> forall|k: int| 0 <= k < required@.len() ==> covered@.contains(#[trigger] required@[k]),
        r matches Err(e) ==> exists|k: int|
            {
                &&& 0 <= k < required@.len()
                &&& !covered@.contains(#[trigger] required@[k])
                &&& e@ == (MatchArmErrorV::NonExhaustive { missing: required@[k], span: match_span })
                &&& forall|j: int| 0 <= j < k ==> covered@.contains(#[trigger] required@[j])
            },
{
    let mut k: usize = 0;
    while k < required.len()
        invariant
            k <= required@.len(),
            forall|j: int| 0 <= j < k ==> covered@.contains(#[trigger] required@[j]),
        decreases required@.len() - k,
    {
        if !contains_symbol(covered, required[k]) {
            return Err(MatchArmError::NonExhaustive { missing: required[k], span: match_span });
        }
        k += 1;
    }
    Ok(())
}

} // verus!
