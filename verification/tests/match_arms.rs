use graphcal_compiler::index::{DagId, IndexTypeRef, ResolvedName, StructTypeRef, Symbol};
use graphcal_compiler::match_arms::{
    check_constructor_arm, check_label_arm, check_match_coverage, ArmPattern, MatchArmError,
};
use graphcal_compiler::rules::Span;
use graphcal_compiler::types::{InferredIndex, InferredStructType};

fn name(n: u64) -> ResolvedName {
    ResolvedName { owner: DagId(1), name: Symbol(n) }
}

// `index Phase = { Coast, Burn }` and `index Stage = { First }`.
fn phase() -> ResolvedName {
    name(10)
}

fn stage() -> ResolvedName {
    name(11)
}

fn coast() -> Symbol {
    Symbol(1)
}

fn burn() -> Symbol {
    Symbol(2)
}

fn label(index: ResolvedName, variant: Symbol, at: usize) -> ArmPattern {
    ArmPattern::Label { index, variant, span: Span::new(at, at + 1) }
}

fn arm_span(at: usize) -> Span {
    Span::new(at, at + 10)
}

#[test]
fn a_label_match_covering_every_variant_is_accepted() {
    let scrutinee = InferredIndex::from_resolved(phase());
    let variants = vec![coast(), burn()];
    let mut covered = Vec::new();
    assert_eq!(check_label_arm(&scrutinee, &variants, &mut covered, label(phase(), burn(), 10), arm_span(10)), Ok(()));
    assert_eq!(check_label_arm(&scrutinee, &variants, &mut covered, label(phase(), coast(), 20), arm_span(20)), Ok(()));
    assert_eq!(covered, vec![burn(), coast()]);
    assert_eq!(check_match_coverage(&variants, &covered, Span::new(0, 40)), Ok(()));
}

#[test]
fn label_arms_are_checked_against_the_scrutinee_index() {
    let scrutinee = InferredIndex::from_resolved(phase());
    let variants = vec![coast(), burn()];
    let mut covered = vec![coast()];
    assert_eq!(
        check_label_arm(&scrutinee, &variants, &mut covered, label(stage(), Symbol(3), 10), arm_span(10)),
        Err(MatchArmError::IndexMismatch {
            expected: IndexTypeRef::from_resolved(phase()),
            found: stage(),
            span: Span::new(10, 11),
        })
    );
    assert_eq!(
        check_label_arm(&scrutinee, &variants, &mut covered, label(phase(), Symbol(9), 10), arm_span(10)),
        Err(MatchArmError::UnknownVariant { variant: Symbol(9), span: Span::new(10, 11) })
    );
    assert_eq!(
        check_label_arm(&scrutinee, &variants, &mut covered, label(phase(), coast(), 10), arm_span(10)),
        Err(MatchArmError::DuplicateArm { name: coast(), span: Span::new(10, 11) })
    );
    let constructor = ArmPattern::Constructor { owning_type: name(20), member: Symbol(4), span: Span::new(12, 13) };
    assert_eq!(
        check_label_arm(&scrutinee, &variants, &mut covered, constructor, arm_span(10)),
        Err(MatchArmError::LabelPatternExpected { span: arm_span(10) })
    );
    assert_eq!(covered, vec![coast()]);
}

#[test]
fn the_first_uncovered_variant_in_declaration_order_is_reported() {
    let required = vec![coast(), burn(), Symbol(3)];
    assert_eq!(
        check_match_coverage(&required, &vec![coast()], Span::new(0, 40)),
        Err(MatchArmError::NonExhaustive { missing: burn(), span: Span::new(0, 40) })
    );
}

// `type Shape { Circle(r: Length), Square(a: Length) }`.
fn shape() -> ResolvedName {
    name(20)
}

fn constructor(owning_type: ResolvedName, member: u64, at: usize) -> ArmPattern {
    ArmPattern::Constructor { owning_type, member: Symbol(member), span: Span::new(at, at + 1) }
}

#[test]
fn union_arms_take_constructors_of_the_scrutinee_type_once() {
    let scrutinee = InferredStructType::from_ref(StructTypeRef::from_resolved(shape()));
    let mut covered = Vec::new();
    assert_eq!(check_constructor_arm(&scrutinee, &mut covered, constructor(shape(), 5, 10), arm_span(10)), Ok(()));
    assert_eq!(
        check_constructor_arm(&scrutinee, &mut covered, constructor(shape(), 5, 20), arm_span(20)),
        Err(MatchArmError::DuplicateArm { name: Symbol(5), span: Span::new(20, 21) })
    );
    assert_eq!(
        check_constructor_arm(&scrutinee, &mut covered, constructor(name(21), 7, 30), arm_span(30)),
        Err(MatchArmError::ForeignConstructor { member: Symbol(7), span: Span::new(30, 31) })
    );
    assert_eq!(
        check_constructor_arm(&scrutinee, &mut covered, label(phase(), coast(), 40), arm_span(40)),
        Err(MatchArmError::ConstructorPatternExpected { span: arm_span(40) })
    );
    assert_eq!(
        check_match_coverage(&vec![Symbol(5), Symbol(6)], &covered, Span::new(0, 50)),
        Err(MatchArmError::NonExhaustive { missing: Symbol(6), span: Span::new(0, 50) })
    );
    assert_eq!(check_constructor_arm(&scrutinee, &mut covered, constructor(shape(), 6, 45), arm_span(45)), Ok(()));
    assert_eq!(check_match_coverage(&vec![Symbol(5), Symbol(6)], &covered, Span::new(0, 50)), Ok(()));
}
