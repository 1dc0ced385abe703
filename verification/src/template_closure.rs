//! Parametric closure rule for reusable DAG template bodies.
//!
//! A `pub(bind)` Static declaration with a local definition is an optional
//! input, not a constant. Template bodies are checked as if every Static input
//! were rigid; only parameter defaults may observe an optional input's default,
//! because consumers that override the input must reconcile those values.

use vstd::prelude::*;

verus! {

/// What kind of Static declaration an input is.
#[derive(Clone, Copy, Debug, PartialEq, Eq, Structural, Hash)]
pub enum StaticInputKind {
    Type,
    Dimension,
    Index,
}

/// How a template's consumers may supply a Static declaration.
#[derive(Clone, Copy, Debug, PartialEq, Eq, Structural, Hash)]
pub enum StaticRole {
    /// Defined by the template and never replaced.
    Fixed,
    /// Defined locally but replaceable by a consumer binding.
    OptionalInput,
    /// Has no local definition; a consumer must bind it.
    RequiredInput,
}

/// Semantic context in which a Static dependency occurs.
#[derive(Clone, Copy, Debug, PartialEq, Eq, Structural, Hash)]
pub enum StaticUseContext {
    /// A parameter default, protected by reconciliation.
    ParameterDefault,
    /// A node, const, sink, or runtime-unit body.
    TemplateBody,
}

/// Whether an operation is parametric or observes a concrete Static default.
#[derive(Clone, Copy, Debug, PartialEq, Eq, Structural, Hash)]
pub enum StaticDependency {
    /// The operation remains valid for every admissible binding.
    Abstract,
    /// The operation needs the optional port's concrete default definition.
    DefaultDefinition,
}

/// One complete input to the pure template-closure rule.
#[derive(Clone, Copy, Debug, PartialEq, Eq, Structural, Hash)]
pub struct TemplateClosureCheck {
    pub kind: StaticInputKind,
    pub role: StaticRole,
    pub context: StaticUseContext,
    pub dependency: StaticDependency,
}

/// Typed semantic reason for rejecting a template body.
#[derive(Clone, Copy, Debug, PartialEq, Eq, Structural)]
pub struct TemplateClosureViolation {
    pub kind: StaticInputKind,
}

/// The rule: a template body may not depend on the default definition of an
/// optional input.
pub open spec fn closure_violated(check: TemplateClosureCheck) -> bool {
    &&& check.role == StaticRole::OptionalInput
    &&& check.context == StaticUseContext::TemplateBody
    &&& check.dependency == StaticDependency::DefaultDefinition
}

/// Validate one dependency without consulting syntax or diagnostic prose.
pub fn validate(check: TemplateClosureCheck) -> (r: Result<(), TemplateClosureViolation>)
    ensures
        r is Err <==> closure_violated(check),
        r matches Err(v) ==> v.kind == check.kind,
{
    if check.role == StaticRole::OptionalInput && check.context == StaticUseContext::TemplateBody
        && check.dependency == StaticDependency::DefaultDefinition {
        Err(TemplateClosureViolation { kind: check.kind })
    } else {
        Ok(())
    }
}

} // verus!
