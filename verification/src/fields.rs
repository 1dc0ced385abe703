//! Field names of constructor calls and constructor patterns.
//!
//! A constructor call initializes each field of its variant exactly once: a
//! repeated initializer is reported first, then initializers of fields the
//! variant does not have, then fields left out. A constructor pattern binds
//! each field at most once and only fields of its variant; bindings are
//! checked in order.

use crate::index::Symbol;
use vstd::prelude::*;

verus! {

/// `names[i]` repeats a name that occurs before it.
pub open spec fn repeats_earlier(names: Seq<Symbol>, i: int) -> bool {
    exists|j: int| 0 <= j < i && names[j] == names[i]
}

/// The names of `names` (in order) that `other` does not contain.
pub open spec fn absent_from(names: Seq<Symbol>, other: Seq<Symbol>) -> Seq<Symbol> {
    names.filter(|n: Symbol| !other.contains(n))
}

/// Why the initializers of a constructor call do not match its variant.
#[derive(Debug, PartialEq, Eq)]
pub enum ConstructorFieldsError {
    /// The initializer at this position repeats an earlier field.
    DuplicateField { position: usize },
    /// Initialized fields the variant does not declare, in call order.
    ExtraFields { names: Vec<Symbol> },
    /// Declared fields without an initializer, in declaration order.
    MissingFields { names: Vec<Symbol> },
}

/// Why the bindings of a constructor pattern do not match its variant.
#[derive(Clone, Copy, Debug, PartialEq, Eq, Structural)]
pub enum PatternFieldError {
    /// The binding at this position repeats an earlier field.
    DuplicateBinding { position: usize },
    /// The binding at this position names a field the variant does not declare.
    UnknownField { position: usize },
}

/// Whether `names` contains `name`.
pub(crate) fn contains_symbol(names: &Vec<Symbol>, name: Symbol) -> (b: bool)
    ensures
        b == names@.contains(name),
{
    let mut i: usize = 0;
    while i < names.len()
        invariant
            i <= names@.len(),
            forall|j: int| 0 <= j < i ==> names@[j] != name,
        decreases names@.len() - i,
    {
        if names[i] == name {
            assert(names@[i as int] == name);
            return true;
        }
        i += 1;
    }
    false
}

/// Whether the name at `position` repeats an earlier one.
fn repeats_before(names: &Vec<Symbol>, position: usize) -> (b: bool)
    requires
        position < names@.len(),
    ensures
        b == repeats_earlier(names@, position as int),
{
    let mut j: usize = 0;
    while j < position
        invariant
            position < names@.len(),
            j <= position,
            forall|k: int| 0 <= k < j ==> names@[k] != names@[position as int],
        decreases position - j,
    {
        if names[j] == names[position] {
            return true;
        }
        j += 1;
    }
    false
}

/// The names of `names`, in order, that `other` does not contain.
fn names_absent_from(names: &Vec<Symbol>, other: &Vec<Symbol>) -> (r: Vec<Symbol>)
    ensures
        r@ == absent_from(names@, other@),
{
    let mut r: Vec<Symbol> = Vec::new();
    let mut i: usize = 0;
    while i < names.len()
        invariant
            i <= names@.len(),
            r@ == absent_from(names@.subrange(0, i as int), other@),
        decreases names@.len() - i,
    {
        proof {
            assert(names@.subrange(0, i as int + 1).drop_last() =~= names@.subrange(0, i as int));
            reveal(Seq::filter);
        }
        if !contains_symbol(other, names[i]) {
            r.push(names[i]);
        }
        i += 1;
    }
    proof {
        assert(names@.subrange(0, names@.len() as int) =~= names@);
    }
    r
}

/// Check the field initializers of a constructor call against the fields its
/// variant declares.
pub fn constructor_fields_rule(defined: &Vec<Symbol>, provided: &Vec<Symbol>) -> (r: Result<
    (),
    ConstructorFieldsError,
>)
    ensures
        (exists|i: int| 0 <= i < provided@.len() && repeats_earlier(provided@, i)) <==> (r matches Err(
            ConstructorFieldsError::DuplicateField { .. },
        )),
        r matches Err(ConstructorFieldsError::DuplicateField { position }) ==> position
            < provided@.len() && repeats_earlier(provided@, position as int) && forall|j: int|
            0 <= j < position ==> !repeats_earlier(provided@, j),
        r matches Err(ConstructorFieldsError::ExtraFields { names }) ==> names@ == absent_from(
            provided@,
            defined@,
        ) && names@.len() > 0,
        r matches Err(ConstructorFieldsError::MissingFields { names }) ==> names@ == absent_from(
            defined@,
            provided@,
        ) && names@.len() > 0 && absent_from(provided@, defined@).len() == 0,
        r is Ok <==> (forall|i: int| 0 <= i < provided@.len() ==> !repeats_earlier(provided@, i))
            && absent_from(provided@, defined@).len() == 0 && absent_from(defined@, provided@).len()
            == 0,
{
    let mut i: usize = 0;
    while i < provided.len()
        invariant
            i <= provided@.len(),
            forall|j: int| 0 <= j < i ==> !repeats_earlier(provided@, j),
        decreases provided@.len() - i,
    {
        if repeats_before(provided, i) {
            return Err(ConstructorFieldsError::DuplicateField { position: i });
        }
        i += 1;
    }
    let extra = names_absent_from(provided, defined);
    if extra.len() > 0 {
        return Err(ConstructorFieldsError::ExtraFields { names: extra });
    }
    let missing = names_absent_from(defined, provided);
    if missing.len() > 0 {
        return Err(ConstructorFieldsError::MissingFields { names: missing });
    }
    Ok(())
}

/// A pattern binding is acceptable: it repeats no earlier binding and names a
/// declared field.
pub open spec fn binding_ok(defined: Seq<Symbol>, bound: Seq<Symbol>, i: int) -> bool {
    !repeats_earlier(bound, i) && defined.contains(bound[i])
}

/// Check the field bindings of a constructor pattern, in order, against the
/// fields its variant declares.
pub fn pattern_fields_rule(defined: &Vec<Symbol>, bound: &Vec<Symbol>) -> (r: Result<(), PatternFieldError>)
    ensures
        r is Ok <==> forall|i: int| 0 <= i < bound@.len() ==> binding_ok(defined@, bound@, i),
        r matches Err(e) ==> exists|p: int|
            0 <= p < bound@.len() && !binding_ok(defined@, bound@, p) && (forall|j: int|
                0 <= j < p ==> binding_ok(defined@, bound@, j)) && e == (if repeats_earlier(
                bound@,
                p,
            ) {
                PatternFieldError::DuplicateBinding { position: p as usize }
            } else {
                PatternFieldError::UnknownField { position: p as usize }
            }),
{
    let mut i: usize = 0;
    while i < bound.len()
        invariant
            i <= bound@.len(),
            forall|j: int| 0 <= j < i ==> binding_ok(defined@, bound@, j),
        decreases bound@.len() - i,
    {
        if repeats_before(bound, i) {
            assert(!binding_ok(defined@, bound@, i as int));
            return Err(PatternFieldError::DuplicateBinding { position: i });
        }
        if !contains_symbol(defined, bound[i]) {
            assert(!binding_ok(defined@, bound@, i as int));
            return Err(PatternFieldError::UnknownField { position: i });
        }
        i += 1;
    }
    Ok(())
}

} // verus!
