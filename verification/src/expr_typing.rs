//! Typing of whole expression trees and dimension checking of declarations.
//!
//! An expression is typed bottom-up: every operand is typed first, left to
//! right, and the first operand that fails decides the outcome; then the
//! node's own rule (operators, conditionals, conversions, index access,
//! reductions) types the node from its operands' types.  A constructor call
//! binds its generic arguments and checks its field names first, then types
//! each field value against its field's type in call order.  A declaration
//! is accepted when its body types and its annotation accepts that type, so
//! a mistake such as `1.0 km + 1.0 kg` anywhere in a body rejects it.

use crate::aggregation::{aggregation_rule, aggregation_v, AggregationError};
use crate::builtin_call::{type_rule_for_builtin, type_rule_v, BuiltinTypeRule};
use crate::const_fold::{exponent_fold_v, infer_binop_from_operands};
use crate::declared::{inferred_from_declared, types_match, types_match_v, DeclaredType};
use crate::dimension::{dim_mul_v, Dimension};
use crate::hir::{ConstRef, Expr, ExprId, ExprKind, FunctionRef, IndexArg};
use crate::index::{IndexRefV, ResolvedName};
use crate::index_access::{
    access_arg_view, access_tv, index_access_type, lemma_access_views, AccessArgV, AxisDef, IndexAccessArg,
    IndexAccessError, IndexAccessErrorV,
};
use crate::rules::{
    binop_v, convert_rule, convert_v, if_rule, if_v, time_scale_conversion_rule, time_scale_conversion_v,
    match_arms_rule, mm, unary_rule, unary_v, MismatchReason, Operand, Span, TypeRuleError,
};
use crate::match_arms::{
    check_constructor_arm, check_label_arm, check_match_coverage, constructor_arm_v, label_arm_v, ArmPattern,
    MatchArmError, MatchArmErrorV,
};
use crate::hir::MatchPattern;
use crate::index::DagId;
use crate::inline_dag::{
    inline_call_v, inline_dag_output_type, InlineDagBinding, InlineDagCallError, InlineDagCallErrorV,
    InlineDagInterface, ProjectedV,
};
use crate::resolved::{resolved_to_inferred, resolved_type_v};
use crate::builtin_call::BuiltinFnName;
use crate::signature::{args_view as sig_args_view, infer_fn_dim, infer_fn_dim_v, FunctionSignature, SigErrV, SignatureError};
use crate::rules::{display_timezone_rule, display_timezone_v, expect_quantity, expect_quantity_v, timezone_exists};
use crate::index_access::{axis_def, axis_def_v};
use crate::type_conversion::{operand_views, type_conversion_rule, type_conversion_v, TypeConversionError};
use crate::complex::types_view;
use crate::for_comp::{
    binding_axes_v, binding_local_v, binding_span_v, binding_valid_v, for_binding_local_type, for_comp_type,
    ForBindingIndex, ForCompError,
};
use crate::keys::{
    axes_view, check_map_literal_keys, checked_key_space, indexed_over, indexed_over_v, key_space, map_keys_v,
    MapKeyError, MapKeyErrorV, MapLiteralTypeError,
};
use crate::hir::MapKey;
use crate::scan::{scan_result, scan_source, scan_source_v, ScanError};
use crate::unfold::{unfold_coordinate_type, unfold_coordinate_v, UnfoldAxisError};
use crate::ctor_generics::{
    resolve_constructor_generic_args, resolve_v, CtorGenericArg, CtorGenericError, CtorGenericParam,
};
use crate::fields::{absent_from, constructor_fields_rule, repeats_earlier, ConstructorFieldsError};
use crate::index::{StructTypeRef, Symbol};
use crate::types::{args_view, lemma_args_view, type_equal, ArgV, InferredGenericArg, InferredStructType};
use crate::types::{InferredIndex, InferredType, TimeScale, TypeV};
use vstd::prelude::*;

verus! {

broadcast use {vstd::std_specs::vec::axiom_vec_index_decreases, vstd::std_specs::hash::group_hash_axioms};

/// What typing an expression can consult.
#[derive(Debug)]
pub struct TypingEnv {
    /// Types of the locals in scope, by identity; a later entry shadows an
    /// earlier one.
    pub locals: Vec<(u64, InferredType)>,
    /// Declared types of the declarations a body may reference.
    pub decls: Vec<(ResolvedName, DeclaredType)>,
    /// Dimensions of the units a quantity literal or conversion may name.
    pub units: Vec<(ResolvedName, Dimension)>,
    /// The index of each label.
    pub variants: Vec<(ResolvedName, ResolvedName)>,
    /// Definitions of the declared indexes.
    pub axis_defs: Vec<(ResolvedName, AxisDef)>,
    /// The constructors a call may name, each type's constructors in
    /// declaration order.
    pub constructors: Vec<(ResolvedName, CtorDef)>,
    /// The labels of each named index, in declaration order.
    pub index_variants: Vec<(ResolvedName, Vec<Symbol>)>,
    /// The dimension signatures of the built-in functions typed by signature.
    pub signatures: Vec<(BuiltinFnName, FunctionSignature)>,
    /// What an inline call sees of each DAG.
    pub dags: Vec<(DagId, InlineDagInterface)>,
}

/// What a match discriminates, viewed.
pub enum ScrutV {
    /// A label of this index.
    Label(IndexRefV),
    /// A value of this union type.
    Union(ResolvedName),
}

/// What a match discriminates.
pub enum Scrutinee {
    Label(InferredIndex),
    Union(InferredStructType),
}

impl View for Scrutinee {
    type V = ScrutV;

    open spec fn view(&self) -> ScrutV {
        match *self {
            Scrutinee::Label(i) => ScrutV::Label(i@),
            Scrutinee::Union(s) => ScrutV::Union(s.spec_ref().spec_resolved()),
        }
    }
}

/// The declared type of a constructor field.
#[derive(Debug)]
pub enum CtorFieldType {
    /// A type that mentions no generic parameter.
    Declared(DeclaredType),
    /// The type argument bound to the generic parameter at this position.
    TypeParam(usize),
}

/// A constructor: the type it builds, that type's generic parameters and
/// the constructor's fields.
#[derive(Debug)]
pub struct CtorDef {
    pub owner: StructTypeRef,
    pub params: Vec<CtorGenericParam>,
    pub fields: Vec<(Symbol, CtorFieldType)>,
}

/// Value-level view of a field-name error of a constructor call.
pub enum FieldsErrV {
    DuplicateField { position: usize },
    ExtraFields { names: Seq<Symbol> },
    MissingFields { names: Seq<Symbol> },
}

pub open spec fn fields_err_view(e: ConstructorFieldsError) -> FieldsErrV {
    match e {
        ConstructorFieldsError::DuplicateField { position } => FieldsErrV::DuplicateField { position },
        ConstructorFieldsError::ExtraFields { names } => FieldsErrV::ExtraFields { names: names@ },
        ConstructorFieldsError::MissingFields { names } => FieldsErrV::MissingFields { names: names@ },
    }
}

/// Why an expression does not type.
#[derive(Debug, PartialEq, Eq)]
pub enum ExprTypeError {
    Rule(TypeRuleError),
    Access(IndexAccessError),
    Aggregation(AggregationError),
    Conversion(TypeConversionError),
    UnknownLocal { span: Span },
    UnknownDecl { span: Span },
    UnknownUnit { span: Span },
    UnknownVariant { span: Span },
    /// A string literal where a value is expected.
    StringLiteral { span: Span },
    /// A type-system name where a value is expected.
    TypeSystemRef { span: Span },
    /// The product of a literal's or conversion's units overflows.
    DimensionOverflow { span: Span },
    /// A node without the operands its kind needs.
    Malformed { span: Span },
    /// A built-in call with another number of arguments than it takes.
    WrongArity { expected: usize, got: usize, span: Span },
    /// A field access on a value that is not a record: not a struct, or a
    /// type with other than one constructor.
    NotAStruct { span: Span },
    /// A field the record's constructor does not declare.
    UnknownField { field: Symbol, span: Span },
    /// A comparison with an indexed operand; `found` is that operand's type.
    IndexedComparison { found: InferredType, span: Span },
    /// A comprehension binding.
    ForComp(ForCompError),
    /// A built-in function without a dimension signature.
    UnknownFunction { span: Span },
    /// An inline call of a DAG this environment does not describe.
    UnknownDag { span: Span },
    /// The bindings or the projection of an inline DAG call.
    InlineDag(InlineDagCallError),
    /// A projected declaration whose type mentions an unbound generic
    /// parameter or applies a generic struct.
    UnresolvedOutput { span: Span },
    /// A call that does not fit its function's dimension signature.
    Signature(SignatureError),
    /// A match arm or the coverage of a match.
    Match(MatchArmError),
    /// A match on a value that is neither a label nor a union value.
    NotMatchable { span: Span },
    /// A match on a label of an index that has no definition.
    UnknownIndex { span: Span },
    /// A match on a label of a range index.
    MatchOnRange { span: Span },
    /// The source or body of a scan.
    Scan(ScanError),
    /// A scan whose initial accumulator is not of the source's element type.
    ScanInitMismatch { span: Span },
    /// The axis of an unfold.
    Unfold(UnfoldAxisError),
    /// An unfold whose body does not return the initial state's type.
    UnfoldBodyMismatch { span: Span },
    /// A call of a constructor this environment does not define.
    UnknownConstructor { span: Span },
    /// The generic arguments of a constructor call.
    CtorGenerics(CtorGenericError),
    /// The field names of a constructor call.
    Fields(ConstructorFieldsError),
    /// A field value whose type is not the field's type.
    FieldMismatch { field: Symbol, span: Span },
    /// A constructor with fields used as a value without them.
    ConstructorNeedsFields { span: Span },
    /// A `datetime()` call without one or two arguments.
    DatetimeArity { got: usize, span: Span },
    /// A time scale where a value is expected.
    TimeScaleValue { span: Span },
    /// The keys of a map literal.
    MapKeys(MapKeyError),
    /// A map-literal key on a range index.
    MapRangeKey { span: Span },
    /// A key of a later map-literal entry on another index than the first
    /// entry's key at that position.
    MapKeyIndexMismatch { entry: usize, axis: usize, span: Span },
    /// A map literal whose key tuples outnumber what memory can address.
    KeySpaceOverflow { span: Span },
    /// A map-literal entry value indexed by labels.
    MapElementIndexed { span: Span },
    /// The entry values of a map literal.
    MapLiteralType(MapLiteralTypeError),
    /// A node that other passes type, never a declaration body: datetime
    /// literals, key forms, and calls of functions other than built-ins.
    Unsupported { span: Span },
}

/// Value-level view of a typing error.
pub enum ExprTypeErrorV {
    Rule(TypeRuleError),
    Access(IndexAccessErrorV),
    Aggregation(AggregationError),
    Conversion(TypeConversionError),
    UnknownLocal { span: Span },
    UnknownDecl { span: Span },
    UnknownUnit { span: Span },
    UnknownVariant { span: Span },
    StringLiteral { span: Span },
    TypeSystemRef { span: Span },
    DimensionOverflow { span: Span },
    Malformed { span: Span },
    WrongArity { expected: usize, got: usize, span: Span },
    NotAStruct { span: Span },
    UnknownField { field: Symbol, span: Span },
    IndexedComparison { found: TypeV, span: Span },
    ForComp(ForCompError),
    UnknownFunction { span: Span },
    UnknownDag { span: Span },
    InlineDag(InlineDagCallErrorV),
    UnresolvedOutput { span: Span },
    Signature(SigErrV),
    Match(MatchArmErrorV),
    NotMatchable { span: Span },
    UnknownIndex { span: Span },
    MatchOnRange { span: Span },
    Scan(ScanError),
    ScanInitMismatch { span: Span },
    Unfold(UnfoldAxisError),
    UnfoldBodyMismatch { span: Span },
    UnknownConstructor { span: Span },
    CtorGenerics(CtorGenericError),
    Fields(FieldsErrV),
    FieldMismatch { field: Symbol, span: Span },
    ConstructorNeedsFields { span: Span },
    DatetimeArity { got: usize, span: Span },
    TimeScaleValue { span: Span },
    MapKeys(MapKeyErrorV),
    MapRangeKey { span: Span },
    MapKeyIndexMismatch { entry: usize, axis: usize, span: Span },
    KeySpaceOverflow { span: Span },
    MapElementIndexed { span: Span },
    MapLiteralType(MapLiteralTypeError),
    Unsupported { span: Span },
}

impl View for ExprTypeError {
    type V = ExprTypeErrorV;

    open spec fn view(&self) -> ExprTypeErrorV {
        match *self {
            ExprTypeError::Rule(e) => ExprTypeErrorV::Rule(e),
            ExprTypeError::Access(e) => ExprTypeErrorV::Access(e@),
            ExprTypeError::Aggregation(e) => ExprTypeErrorV::Aggregation(e),
            ExprTypeError::Conversion(e) => ExprTypeErrorV::Conversion(e),
            ExprTypeError::UnknownLocal { span } => ExprTypeErrorV::UnknownLocal { span },
            ExprTypeError::UnknownDecl { span } => ExprTypeErrorV::UnknownDecl { span },
            ExprTypeError::UnknownUnit { span } => ExprTypeErrorV::UnknownUnit { span },
            ExprTypeError::UnknownVariant { span } => ExprTypeErrorV::UnknownVariant { span },
            ExprTypeError::StringLiteral { span } => ExprTypeErrorV::StringLiteral { span },
            ExprTypeError::TypeSystemRef { span } => ExprTypeErrorV::TypeSystemRef { span },
            ExprTypeError::DimensionOverflow { span } => ExprTypeErrorV::DimensionOverflow { span },
            ExprTypeError::Malformed { span } => ExprTypeErrorV::Malformed { span },
            ExprTypeError::WrongArity { expected, got, span } => ExprTypeErrorV::WrongArity { expected, got, span },
            ExprTypeError::NotAStruct { span } => ExprTypeErrorV::NotAStruct { span },
            ExprTypeError::UnknownField { field, span } => ExprTypeErrorV::UnknownField { field, span },
            ExprTypeError::IndexedComparison { found, span } => ExprTypeErrorV::IndexedComparison {
                found: found@,
                span,
            },
            ExprTypeError::ForComp(e) => ExprTypeErrorV::ForComp(e),
            ExprTypeError::Match(e) => ExprTypeErrorV::Match(e@),
            ExprTypeError::UnknownFunction { span } => ExprTypeErrorV::UnknownFunction { span },
            ExprTypeError::UnknownDag { span } => ExprTypeErrorV::UnknownDag { span },
            ExprTypeError::InlineDag(e) => ExprTypeErrorV::InlineDag(e@),
            ExprTypeError::UnresolvedOutput { span } => ExprTypeErrorV::UnresolvedOutput { span },
            ExprTypeError::Signature(e) => ExprTypeErrorV::Signature(e@),
            ExprTypeError::NotMatchable { span } => ExprTypeErrorV::NotMatchable { span },
            ExprTypeError::UnknownIndex { span } => ExprTypeErrorV::UnknownIndex { span },
            ExprTypeError::MatchOnRange { span } => ExprTypeErrorV::MatchOnRange { span },
            ExprTypeError::Scan(e) => ExprTypeErrorV::Scan(e),
            ExprTypeError::ScanInitMismatch { span } => ExprTypeErrorV::ScanInitMismatch { span },
            ExprTypeError::Unfold(e) => ExprTypeErrorV::Unfold(e),
            ExprTypeError::UnfoldBodyMismatch { span } => ExprTypeErrorV::UnfoldBodyMismatch { span },
            ExprTypeError::UnknownConstructor { span } => ExprTypeErrorV::UnknownConstructor { span },
            ExprTypeError::CtorGenerics(e) => ExprTypeErrorV::CtorGenerics(e),
            ExprTypeError::Fields(e) => ExprTypeErrorV::Fields(fields_err_view(e)),
            ExprTypeError::FieldMismatch { field, span } => ExprTypeErrorV::FieldMismatch { field, span },
            ExprTypeError::ConstructorNeedsFields { span } => ExprTypeErrorV::ConstructorNeedsFields { span },
            ExprTypeError::DatetimeArity { got, span } => ExprTypeErrorV::DatetimeArity { got, span },
            ExprTypeError::TimeScaleValue { span } => ExprTypeErrorV::TimeScaleValue { span },
            ExprTypeError::MapKeys(e) => ExprTypeErrorV::MapKeys(e@),
            ExprTypeError::MapRangeKey { span } => ExprTypeErrorV::MapRangeKey { span },
            ExprTypeError::MapKeyIndexMismatch { entry, axis, span } => ExprTypeErrorV::MapKeyIndexMismatch {
                entry,
                axis,
                span,
            },
            ExprTypeError::KeySpaceOverflow { span } => ExprTypeErrorV::KeySpaceOverflow { span },
            ExprTypeError::MapElementIndexed { span } => ExprTypeErrorV::MapElementIndexed { span },
            ExprTypeError::MapLiteralType(e) => ExprTypeErrorV::MapLiteralType(e),
            ExprTypeError::Unsupported { span } => ExprTypeErrorV::Unsupported { span },
        }
    }
}

/// An executable outcome agrees with a value-level one.
pub open spec fn same_typing(r: Result<InferredType, ExprTypeError>, s: Result<TypeV, ExprTypeErrorV>) -> bool {
    match (r, s) {
        (Ok(t), Ok(v)) => t@ == v,
        (Err(e), Err(f)) => e@ == f,
        _ => false,
    }
}

/// Position of the first entry named `n`.
pub open spec fn first_key<A>(s: Seq<(ResolvedName, A)>, n: ResolvedName) -> Option<int>
    decreases s.len(),
{
    if s.len() == 0 {
        None
    } else if s[0].0 == n {
        Some(0)
    } else {
        match first_key(s.drop_first(), n) {
            Some(i) => Some(i + 1),
            None => None,
        }
    }
}

fn lookup<A>(s: &Vec<(ResolvedName, A)>, n: ResolvedName) -> (r: Option<usize>)
    ensures
        match (r, first_key(s@, n)) {
            (Some(i), Some(j)) => i == j && i < s@.len(),
            (None, None) => true,
            _ => false,
        },
{
    let mut i: usize = 0;
    proof {
        assert(s@.subrange(0, s@.len() as int) =~= s@);
    }
    while i < s.len()
        invariant
            i <= s@.len(),
            first_key(s@, n) == (match first_key(s@.subrange(i as int, s@.len() as int), n) {
                Some(j) => Some(j + i),
                None => None::<int>,
            }),
        decreases s@.len() - i,
    {
        proof {
            let rest = s@.subrange(i as int, s@.len() as int);
            assert(rest.drop_first() =~= s@.subrange(i + 1, s@.len() as int));
        }
        if s[i].0 == n {
            return Some(i);
        }
        i += 1;
    }
    None
}

/// Position of the first field named `n`.
pub open spec fn first_field(s: Seq<(Symbol, CtorFieldType)>, n: Symbol) -> Option<int>
    decreases s.len(),
{
    if s.len() == 0 {
        None
    } else if s[0].0 == n {
        Some(0)
    } else {
        match first_field(s.drop_first(), n) {
            Some(i) => Some(i + 1),
            None => None,
        }
    }
}

fn lookup_field(s: &Vec<(Symbol, CtorFieldType)>, n: Symbol) -> (r: Option<usize>)
    ensures
        match (r, first_field(s@, n)) {
            (Some(i), Some(j)) => i == j && i < s@.len(),
            (None, None) => true,
            _ => false,
        },
{
    let mut i: usize = 0;
    proof {
        assert(s@.subrange(0, s@.len() as int) =~= s@);
    }
    while i < s.len()
        invariant
            i <= s@.len(),
            first_field(s@, n) == (match first_field(s@.subrange(i as int, s@.len() as int), n) {
                Some(j) => Some(j + i),
                None => None::<int>,
            }),
        decreases s@.len() - i,
    {
        proof {
            let rest = s@.subrange(i as int, s@.len() as int);
            assert(rest.drop_first() =~= s@.subrange(i + 1, s@.len() as int));
        }
        if s[i].0 == n {
            return Some(i);
        }
        i += 1;
    }
    None
}

/// The dimension of the product of the first `n` unit terms.
pub open spec fn unit_dims_v(units: Seq<(ResolvedName, Dimension)>, terms: Seq<ResolvedName>, n: int, span: Span) -> Result<
    Seq<(int, int)>,
    ExprTypeErrorV,
>
    decreases n,
{
    if n <= 0 || n > terms.len() {
        Ok(Seq::empty())
    } else {
        match unit_dims_v(units, terms, n - 1, span) {
            Err(e) => Err(e),
            Ok(d) => match first_key(units, terms[n - 1]) {
                None => Err(ExprTypeErrorV::UnknownUnit { span }),
                Some(k) => match dim_mul_v(d, units[k].1@) {
                    None => Err(ExprTypeErrorV::DimensionOverflow { span }),
                    Some(p) => Ok(p),
                },
            },
        }
    }
}

fn unit_dims(units: &Vec<(ResolvedName, Dimension)>, terms: &Vec<ResolvedName>, span: Span) -> (r: Result<
    Dimension,
    ExprTypeError,
>)
    ensures
        match (r, unit_dims_v(units@, terms@, terms@.len() as int, span)) {
            (Ok(d), Ok(v)) => d@ == v,
            (Err(e), Err(f)) => e@ == f,
            _ => false,
        },
{
    let mut d = Dimension::dimensionless();
    proof {
        assert(d@ =~= Seq::<(int, int)>::empty());
    }
    let mut k: usize = 0;
    while k < terms.len()
        invariant
            k <= terms@.len(),
            unit_dims_v(units@, terms@, k as int, span) == Ok::<Seq<(int, int)>, ExprTypeErrorV>(d@),
        decreases terms@.len() - k,
    {
        match lookup(units, terms[k]) {
            None => {
                proof {
                    lemma_unit_dims_err(units@, terms@, k as int + 1, terms@.len() as int, span);
                }
                return Err(ExprTypeError::UnknownUnit { span });
            },
            Some(i) => match d.checked_mul(&units[i].1) {
                Ok(p) => {
                    d = p;
                },
                Err(_) => {
                    proof {
                        lemma_unit_dims_err(units@, terms@, k as int + 1, terms@.len() as int, span);
                    }
                    return Err(ExprTypeError::DimensionOverflow { span });
                },
            },
        }
        k += 1;
    }
    Ok(d)
}

proof fn lemma_unit_dims_err(
    units: Seq<(ResolvedName, Dimension)>,
    terms: Seq<ResolvedName>,
    k: int,
    m: int,
    span: Span,
)
    requires
        0 <= k <= m <= terms.len(),
        unit_dims_v(units, terms, k, span) is Err,
    ensures
        unit_dims_v(units, terms, m, span) == unit_dims_v(units, terms, k, span),
    decreases m - k,
{
    if k < m {
        lemma_unit_dims_err(units, terms, k, m - 1, span);
    }
}

pub open spec fn rule_v(r: Result<TypeV, TypeRuleError>) -> Result<TypeV, ExprTypeErrorV> {
    match r {
        Ok(t) => Ok(t),
        Err(e) => Err(ExprTypeErrorV::Rule(e)),
    }
}

/// The type of a declaration reference.
pub open spec fn decl_type_v(env: TypingEnv, n: ResolvedName, span: Span) -> Result<TypeV, ExprTypeErrorV> {
    match first_key(env.decls@, n) {
        Some(k) => Ok(env.decls@[k].1@),
        None => Err(ExprTypeErrorV::UnknownDecl { span }),
    }
}

/// The locals of a scope, viewed.
pub open spec fn scope_view(s: Seq<(u64, InferredType)>) -> Seq<(u64, TypeV)> {
    s.map_values(|p: (u64, InferredType)| (p.0, p.1@))
}

/// The type of the innermost local `id` of a scope.
pub open spec fn local_v(sc: Seq<(u64, TypeV)>, id: u64) -> Option<TypeV>
    decreases sc.len(),
{
    if sc.len() == 0 {
        None
    } else if sc.last().0 == id {
        Some(sc.last().1)
    } else {
        local_v(sc.drop_last(), id)
    }
}

/// The type of an expression in the environment's own scope.
pub open spec fn infer_v(e: Expr, env: TypingEnv) -> Result<TypeV, ExprTypeErrorV> {
    infer_in(e, env, scope_view(env.locals@))
}

/// The type of an expression with the locals `sc` in scope.
pub open spec fn infer_in(e: Expr, env: TypingEnv, sc: Seq<(u64, TypeV)>) -> Result<TypeV, ExprTypeErrorV>
    decreases e, 0int,
{
    match e.kind {
        ExprKind::Number => Ok(TypeV::Quantity(Seq::empty())),
        ExprKind::Integer(_) => Ok(TypeV::Int),
        ExprKind::Bool(_) => Ok(TypeV::Bool),
        ExprKind::StringLiteral => Err(ExprTypeErrorV::StringLiteral { span: e.span }),
        ExprKind::TypeSystemRef => Err(ExprTypeErrorV::TypeSystemRef { span: e.span }),
        ExprKind::QuantityLiteral { unit } => match unit_dims_v(env.units@, unit@, unit@.len() as int, e.span) {
            Ok(d) => Ok(TypeV::Quantity(d)),
            Err(err) => Err(err),
        },
        ExprKind::GraphRef(n) => decl_type_v(env, n, e.span),
        ExprKind::ConstRef(ConstRef::Decl(n)) => decl_type_v(env, n, e.span),
        ExprKind::ConstRef(ConstRef::Constructor(c)) => match first_key(env.constructors@, c) {
            None => Err(ExprTypeErrorV::UnknownConstructor { span: e.span }),
            Some(k) => {
                let def = env.constructors@[k].1;
                if def.fields@.len() > 0 {
                    Err(ExprTypeErrorV::ConstructorNeedsFields { span: e.span })
                } else {
                    match resolve_v(def.params@, Seq::empty(), e.span) {
                        Err(err) => Err(ExprTypeErrorV::CtorGenerics(err)),
                        Ok(targs) => Ok(TypeV::Struct(def.owner, type_args_v(targs))),
                    }
                }
            },
        },
        ExprKind::LocalRef(id) => match local_v(sc, id) {
            Some(t) => Ok(t),
            None => Err(ExprTypeErrorV::UnknownLocal { span: e.span }),
        },
        ExprKind::VariantLiteral(n) => match first_key(env.variants@, n) {
            Some(k) => Ok(TypeV::Key(IndexRefV::Declared(env.variants@[k].1))),
            None => Err(ExprTypeErrorV::UnknownVariant { span: e.span }),
        },
        ExprKind::ConstRef(ConstRef::TimeScale(_)) => Err(ExprTypeErrorV::TimeScaleValue { span: e.span }),
        ExprKind::DisplayTimezone { zone_known, .. } => if e.operands@.len() != 1 {
            Err(ExprTypeErrorV::Malformed { span: e.span })
        } else {
            match infer_in(e.operands@[0], env, sc) {
                Err(err) => Err(err),
                Ok(t) => match display_timezone_v(t, e.operands@[0].span, zone_known, e.span) {
                    Ok(r) => Ok(r),
                    Err(err) => Err(ExprTypeErrorV::Rule(err)),
                },
            }
        },
        ExprKind::FnCall(FunctionRef::Builtin(BuiltinFnName::Datetime)) => if e.operands@.len() == 0
            || e.operands@.len() > 2 {
            Err(ExprTypeErrorV::DatetimeArity { got: e.operands@.len() as usize, span: e.span })
        } else if !(e.operands@[0].kind is StringLiteral) {
            match infer_in(e.operands@[0], env, sc) {
                Err(err) => Err(err),
                Ok(_) => Err(
                    ExprTypeErrorV::Rule(
                        TypeRuleError::Mismatch {
                            reason: MismatchReason::DatetimeTextNotString,
                            span: e.operands@[0].span,
                        },
                    ),
                ),
            }
        } else if e.operands@.len() == 2 && !(e.operands@[1].kind is StringLiteral) {
            match infer_in(e.operands@[1], env, sc) {
                Err(err) => Err(err),
                Ok(_) => Err(
                    ExprTypeErrorV::Rule(
                        TypeRuleError::Mismatch {
                            reason: MismatchReason::DatetimeZoneNotString,
                            span: e.operands@[1].span,
                        },
                    ),
                ),
            }
        } else {
            Ok(TypeV::Datetime(TimeScale::UTC))
        },
        ExprKind::FnCall(FunctionRef::Builtin(BuiltinFnName::Epoch)) => if e.operands@.len() != 2 {
            Err(ExprTypeErrorV::WrongArity { expected: 2, got: e.operands@.len() as usize, span: e.span })
        } else if !(e.operands@[0].kind is StringLiteral) {
            Err(
                ExprTypeErrorV::Rule(
                    TypeRuleError::Mismatch { reason: MismatchReason::EpochTextNotString, span: e.operands@[0].span },
                ),
            )
        } else {
            match e.operands@[1].kind {
                ExprKind::ConstRef(ConstRef::TimeScale(scale)) => Ok(TypeV::Datetime(scale)),
                _ => Err(
                    ExprTypeErrorV::Rule(
                        TypeRuleError::Mismatch {
                            reason: MismatchReason::EpochScaleNotTimeScale,
                            span: e.operands@[1].span,
                        },
                    ),
                ),
            }
        },
        ExprKind::BinOp(_) | ExprKind::UnaryOp(_) | ExprKind::If | ExprKind::Convert { .. }
        | ExprKind::IndexAccess { .. } | ExprKind::FnCall(_) | ExprKind::FieldAccess { .. } => match operands_v(
            e.operands,
            env,
            sc,
            e.operands@.len() as int,
        ) {
            Err(err) => Err(err),
            Ok(ts) => node_v(e, env, ts),
        },
        ExprKind::ConstructorCall { callee, generic_args, fields } => if fields@.len() != e.operands@.len() {
            Err(ExprTypeErrorV::Malformed { span: e.span })
        } else {
            match first_key(env.constructors@, callee) {
                None => Err(ExprTypeErrorV::UnknownConstructor { span: e.span }),
                Some(k) => {
                    let def = env.constructors@[k].1;
                    match resolve_v(def.params@, generic_args@, e.span) {
                        Err(err) => Err(ExprTypeErrorV::CtorGenerics(err)),
                        Ok(targs) => match fields_rule_v(def_names(def.fields@), fields@) {
                            Err(err) => Err(ExprTypeErrorV::Fields(err)),
                            Ok(()) => match ctor_values_v(
                                e.operands,
                                env,
                                sc,
                                fields@,
                                def,
                                targs,
                                e.span,
                                fields@.len() as int,
                            ) {
                                Err(err) => Err(err),
                                Ok(()) => Ok(TypeV::Struct(def.owner, type_args_v(targs))),
                            },
                        },
                    }
                },
            }
        },
        ExprKind::ForComp { locals, indexes } => if locals@.len() != indexes@.len() || e.operands@.len() != 1 {
            Err(ExprTypeErrorV::Malformed { span: e.span })
        } else {
            match for_scope_v(env.axis_defs@, sc, locals@, indexes@, locals@.len() as int) {
                Err(err) => Err(ExprTypeErrorV::ForComp(err)),
                Ok(inner) => match infer_in(e.operands@[0], env, inner) {
                    Err(err) => Err(err),
                    Ok(body) => match for_result_v(indexes@, body) {
                        Ok(t) => Ok(t),
                        Err(err) => Err(ExprTypeErrorV::ForComp(err)),
                    },
                },
            }
        },
        ExprKind::Scan { acc, item } => if e.operands@.len() != 3 {
            Err(ExprTypeErrorV::Malformed { span: e.span })
        } else {
            match infer_in(e.operands@[0], env, sc) {
                Err(err) => Err(err),
                Ok(source) => match scan_source_v(source, e.operands@[0].span) {
                    Err(err) => Err(ExprTypeErrorV::Scan(err)),
                    Ok((element, axis)) => match infer_in(e.operands@[1], env, sc) {
                        Err(err) => Err(err),
                        Ok(init) => if init != element {
                            Err(ExprTypeErrorV::ScanInitMismatch { span: e.operands@[1].span })
                        } else {
                            match infer_in(e.operands@[2], env, sc.push((acc, element)).push((item, element))) {
                                Err(err) => Err(err),
                                Ok(body) => if body == init {
                                    Ok(TypeV::Indexed(Box::new(init), axis))
                                } else {
                                    Err(ExprTypeErrorV::Scan(ScanError::BodyMismatch { span: e.operands@[2].span }))
                                },
                            }
                        },
                    },
                },
            }
        },
        ExprKind::Unfold { index, prev, curr } => if e.operands@.len() != 2 {
            Err(ExprTypeErrorV::Malformed { span: e.span })
        } else {
            match infer_in(e.operands@[0], env, sc) {
                Err(err) => Err(err),
                Ok(init) => match unfold_coordinate_v(env.axis_defs@, index, e.operands@[1].span) {
                    Err(err) => Err(ExprTypeErrorV::Unfold(err)),
                    Ok(coord) => match infer_in(e.operands@[1], env, sc.push((prev, coord)).push((curr, coord))) {
                        Err(err) => Err(err),
                        Ok(body) => if body == init {
                            Ok(TypeV::Indexed(Box::new(init), IndexRefV::Declared(index)))
                        } else {
                            Err(ExprTypeErrorV::UnfoldBodyMismatch { span: e.operands@[1].span })
                        },
                    },
                },
            }
        },
        ExprKind::DagCall { dag, targets, output } => if targets@.len() != e.operands@.len() {
            Err(ExprTypeErrorV::Malformed { span: e.span })
        } else {
            match first_dag(env.dags@, dag) {
                None => Err(ExprTypeErrorV::UnknownDag { span: e.span }),
                Some(k) => match operands_v(e.operands, env, sc, e.operands@.len() as int) {
                    Err(err) => Err(err),
                    Ok(ts) => dag_call_v(env.dags@[k].1, targets@, e.operands, ts, output, e.span),
                },
            }
        },
        ExprKind::Match { patterns } => if e.operands@.len() != patterns@.len() + 1 {
            Err(ExprTypeErrorV::Malformed { span: e.span })
        } else {
            match infer_in(e.operands@[0], env, sc) {
                Err(err) => Err(err),
                Ok(st) => match scrutinee_v(env, st, e.operands@[0].span) {
                    Err(err) => Err(err),
                    Ok((scrut, required)) => match arms_v(
                        e.operands,
                        env,
                        sc,
                        scrut,
                        required,
                        patterns@,
                        patterns@.len() as int,
                    ) {
                        Err(err) => Err(err),
                        Ok((covered, ts)) => match coverage_v(required, covered, e.span) {
                            Err(err) => Err(ExprTypeErrorV::Match(err)),
                            Ok(()) => match arm_types_v(ts, arm_spans(e.operands, ts.len() as int), e.span) {
                                Ok(t) => Ok(t),
                                Err(err) => Err(ExprTypeErrorV::Rule(err)),
                            },
                        },
                    },
                },
            }
        },
        ExprKind::MapLiteral { keys } => if keys@.len() != e.operands@.len() {
            Err(ExprTypeErrorV::Malformed { span: e.span })
        } else {
            match map_keys_checked_v(env, keys@, e.span) {
                Err(err) => Err(err),
                Ok(axes) => match operands_v(e.operands, env, sc, e.operands@.len() as int) {
                    Err(err) => Err(err),
                    Ok(ts) => map_values_v(env, axes, e.operands, ts),
                },
            }
        },
        _ => Err(ExprTypeErrorV::Unsupported { span: e.span }),
    }
}

/// The variant a map key names.
pub open spec fn key_symbol(k: MapKey) -> Symbol {
    match k {
        MapKey::Label(l) => l.name,
        MapKey::NatRange { variant } => variant,
    }
}

/// The declared index a map key is a label of; none for a position of a
/// nat-range index or a label this environment does not know.
pub open spec fn key_index_v(env: TypingEnv, k: MapKey) -> Option<ResolvedName> {
    match k {
        MapKey::Label(l) => match first_key(env.variants@, l) {
            Some(j) => Some(env.variants@[j].1),
            None => None,
        },
        MapKey::NatRange { .. } => None,
    }
}

/// The first entry, from position `i` on, without `n` keys.
pub open spec fn first_short_entry(keys: Seq<Vec<MapKey>>, n: nat, i: int) -> Option<int>
    decreases keys.len() - i,
{
    if i < 0 || i >= keys.len() {
        None
    } else if keys[i]@.len() != n {
        Some(i)
    } else {
        first_short_entry(keys, n, i + 1)
    }
}

/// The axes of a map literal from the first `n` keys of its first entry:
/// each a label of a declared index of labels.
pub open spec fn map_axes_v(env: TypingEnv, first: Seq<MapKey>, n: int, span: Span) -> Result<
    Seq<ResolvedName>,
    ExprTypeErrorV,
>
    decreases n,
{
    if n <= 0 || n > first.len() {
        Ok(Seq::empty())
    } else {
        match map_axes_v(env, first, n - 1, span) {
            Err(err) => Err(err),
            Ok(a) => match first[n - 1] {
                MapKey::NatRange { .. } => Err(ExprTypeErrorV::MapRangeKey { span }),
                MapKey::Label(l) => match first_key(env.variants@, l) {
                    None => Err(ExprTypeErrorV::UnknownVariant { span }),
                    Some(j) => match axis_def_v(env.axis_defs@, IndexRefV::Declared(env.variants@[j].1)) {
                        None => Err(ExprTypeErrorV::UnknownIndex { span }),
                        Some(AxisDef::Named) => Ok(a.push(env.variants@[j].1)),
                        Some(_) => Err(ExprTypeErrorV::MapRangeKey { span }),
                    },
                },
            },
        }
    }
}

/// The first key of `row`, from position `a` on, that is not a label of
/// axis `a`.
pub open spec fn first_off_axis(env: TypingEnv, row: Seq<MapKey>, axes: Seq<ResolvedName>, a: int) -> Option<int>
    decreases axes.len() - a,
{
    if a < 0 || a >= axes.len() || a >= row.len() {
        None
    } else if key_index_v(env, row[a]) != Some(axes[a]) {
        Some(a)
    } else {
        first_off_axis(env, row, axes, a + 1)
    }
}

/// The first entry, from position `i` on, with a key off its axis, and
/// that key's position.
pub open spec fn first_off_axis_entry(env: TypingEnv, keys: Seq<Vec<MapKey>>, axes: Seq<ResolvedName>, i: int) -> Option<
    (int, int),
>
    decreases keys.len() - i,
{
    if i < 0 || i >= keys.len() {
        None
    } else {
        match first_off_axis(env, keys[i]@, axes, 0) {
            Some(a) => Some((i, a)),
            None => first_off_axis_entry(env, keys, axes, i + 1),
        }
    }
}

/// The variants of each axis.
pub open spec fn axis_variants(env: TypingEnv, axes: Seq<ResolvedName>) -> Seq<Seq<Symbol>> {
    axes.map_values(|r: ResolvedName| variants_of(env.index_variants@, r))
}

/// The variants each entry names.
pub open spec fn entry_variants(keys: Seq<Vec<MapKey>>) -> Seq<Seq<Symbol>> {
    keys.map_values(|row: Vec<MapKey>| row@.map_values(|k: MapKey| key_symbol(k)))
}

/// The axes of a map literal with the given entry keys, once its keys are
/// checked: entries present and of one arity, the axes from the first
/// entry, every later key on its axis, then the keys against the axes'
/// variants.
pub open spec fn map_keys_checked_v(env: TypingEnv, keys: Seq<Vec<MapKey>>, span: Span) -> Result<
    Seq<ResolvedName>,
    ExprTypeErrorV,
> {
    if keys.len() == 0 {
        Err(ExprTypeErrorV::MapKeys(MapKeyErrorV::Empty))
    } else {
        match first_short_entry(keys, keys[0]@.len(), 1) {
            Some(i) => Err(ExprTypeErrorV::MapKeys(MapKeyErrorV::InconsistentArity { entry: i as usize })),
            None => match map_axes_v(env, keys[0]@, keys[0]@.len() as int, span) {
                Err(err) => Err(err),
                Ok(axes) => match first_off_axis_entry(env, keys, axes, 1) {
                    Some((i, a)) => Err(
                        ExprTypeErrorV::MapKeyIndexMismatch { entry: i as usize, axis: a as usize, span },
                    ),
                    None => if key_space(axis_variants(env, axes)) > usize::MAX {
                        Err(ExprTypeErrorV::KeySpaceOverflow { span })
                    } else {
                        match map_keys_v(axis_variants(env, axes), entry_variants(keys)) {
                            Err(k) => Err(ExprTypeErrorV::MapKeys(k)),
                            Ok(()) => Ok(axes),
                        }
                    },
                },
            },
        }
    }
}

/// The first entry type, from position `k` on, that differs from the first.
pub open spec fn first_unequal(ts: Seq<TypeV>, k: int) -> Option<int>
    decreases ts.len() - k,
{
    if k < 0 || k >= ts.len() {
        None
    } else if ts[k] != ts[0] {
        Some(k)
    } else {
        first_unequal(ts, k + 1)
    }
}

/// The type of a map literal over `axes` whose entry values have types
/// `ts`: the first value may not be indexed by labels, every value has the
/// first one's type, and the literal is that type indexed by the axes.
pub open spec fn map_values_v(env: TypingEnv, axes: Seq<ResolvedName>, v: Vec<Expr>, ts: Seq<TypeV>) -> Result<
    TypeV,
    ExprTypeErrorV,
> {
    if ts.len() == 0 {
        Err(ExprTypeErrorV::MapLiteralType(MapLiteralTypeError::Empty))
    } else if ts[0] is Indexed && axis_def_v(env.axis_defs@, ts[0]->1) == Some(AxisDef::Named) {
        Err(ExprTypeErrorV::MapElementIndexed { span: v@[0].span })
    } else {
        match first_unequal(ts, 1) {
            Some(k) => Err(
                ExprTypeErrorV::MapLiteralType(
                    MapLiteralTypeError::EntryTypeMismatch { entry: k as usize, span: v@[k].span },
                ),
            ),
            None => Ok(indexed_over_v(ts[0], axes.map_values(|r: ResolvedName| IndexRefV::Declared(r)))),
        }
    }
}

/// A call typed by the dimension signature of `name`: one argument per
/// parameter, each a quantity, fitting the signature.
pub open spec fn registry_v(e: Expr, env: TypingEnv, ts: Seq<TypeV>, name: BuiltinFnName) -> Result<TypeV, ExprTypeErrorV> {
    match first_sig(env.signatures@, name) {
        None => Err(ExprTypeErrorV::UnknownFunction { span: e.span }),
        Some(k) => {
            let sig = env.signatures@[k].1;
            if ts.len() != sig.param_kinds().len() {
                Err(
                    ExprTypeErrorV::WrongArity {
                        expected: sig.param_kinds().len() as usize,
                        got: ts.len() as usize,
                        span: e.span,
                    },
                )
            } else {
                match quantity_args_v(e, ts, ts.len() as int) {
                    Err(err) => Err(ExprTypeErrorV::Rule(err)),
                    Ok(args) => match infer_fn_dim_v(sig.param_kinds(), sig.result@, args, e.span) {
                        Ok(d) => Ok(TypeV::Quantity(d)),
                        Err(err) => Err(ExprTypeErrorV::Signature(err)),
                    },
                }
            }
        },
    }
}

/// A datetime extractor or numeric conversion: one datetime argument, and
/// the result `result`.
pub open spec fn datetime_unary_v(e: Expr, ts: Seq<TypeV>, result: TypeV) -> Result<TypeV, ExprTypeErrorV> {
    if ts.len() != 1 {
        Err(ExprTypeErrorV::WrongArity { expected: 1, got: ts.len() as usize, span: e.span })
    } else if ts[0] is Datetime {
        Ok(result)
    } else {
        Err(
            ExprTypeErrorV::Rule(
                TypeRuleError::Mismatch {
                    reason: MismatchReason::DatetimeArgumentNotDatetime,
                    span: e.operands@[0].span,
                },
            ),
        )
    }
}

/// The labels declared for index `r`; none for a required index.
pub open spec fn variants_of(t: Seq<(ResolvedName, Vec<Symbol>)>, r: ResolvedName) -> Seq<Symbol> {
    match first_key(t, r) {
        Some(k) => t[k].1@,
        None => Seq::empty(),
    }
}

/// The constructors of `owner` among the first `n`, in order.
pub open spec fn members_of(cs: Seq<(ResolvedName, CtorDef)>, owner: StructTypeRef, n: int) -> Seq<Symbol>
    decreases n,
{
    if n <= 0 || n > cs.len() {
        Seq::empty()
    } else if cs[n - 1].1.owner == owner {
        members_of(cs, owner, n - 1).push(cs[n - 1].0.name)
    } else {
        members_of(cs, owner, n - 1)
    }
}

/// What a match on a value of type `t` discriminates, and the labels or
/// constructors its arms must cover.
pub open spec fn scrutinee_v(env: TypingEnv, t: TypeV, span: Span) -> Result<(ScrutV, Seq<Symbol>), ExprTypeErrorV> {
    match t {
        TypeV::Key(i) => label_scrutinee_v(env, i, span),
        TypeV::NamedIndexCase(i) => label_scrutinee_v(env, i, span),
        TypeV::Struct(s, _) => Ok(
            (ScrutV::Union(s.spec_resolved()), members_of(env.constructors@, s, env.constructors@.len() as int)),
        ),
        _ => Err(ExprTypeErrorV::NotMatchable { span }),
    }
}

pub open spec fn label_scrutinee_v(env: TypingEnv, i: IndexRefV, span: Span) -> Result<
    (ScrutV, Seq<Symbol>),
    ExprTypeErrorV,
> {
    match i {
        IndexRefV::NatRange(_) => Err(ExprTypeErrorV::MatchOnRange { span }),
        IndexRefV::Declared(r) => match axis_def_v(env.axis_defs@, i) {
            None => Err(ExprTypeErrorV::UnknownIndex { span }),
            Some(AxisDef::Named) => Ok((ScrutV::Label(i), variants_of(env.index_variants@, r))),
            Some(_) => Err(ExprTypeErrorV::MatchOnRange { span }),
        },
    }
}

/// The pattern of a match arm, resolved.
pub open spec fn arm_pattern_v(env: TypingEnv, p: MatchPattern, span: Span) -> Result<ArmPattern, ExprTypeErrorV> {
    match p {
        MatchPattern::IndexLabel(l) => match first_key(env.variants@, l) {
            Some(k) => Ok(ArmPattern::Label { index: env.variants@[k].1, variant: l.name, span }),
            None => Err(ExprTypeErrorV::UnknownVariant { span }),
        },
        MatchPattern::Constructor(c) => match first_key(env.constructors@, c) {
            Some(k) => Ok(
                ArmPattern::Constructor {
                    owning_type: env.constructors@[k].1.owner.spec_resolved(),
                    member: c.name,
                    span,
                },
            ),
            None => Err(ExprTypeErrorV::UnknownConstructor { span }),
        },
    }
}

/// The check of one arm against the scrutinee and the earlier arms.
pub open spec fn check_arm_v(scrut: ScrutV, required: Seq<Symbol>, covered: Seq<Symbol>, arm: ArmPattern, span: Span) -> Result<
    Symbol,
    MatchArmErrorV,
> {
    match scrut {
        ScrutV::Label(i) => label_arm_v(i, required, covered, arm, span),
        ScrutV::Union(r) => constructor_arm_v(r, covered, arm, span),
    }
}

/// The first `n` arms, in order: each pattern is checked, then its body
/// typed; the names covered and the body types.
pub open spec fn arms_v(
    v: Vec<Expr>,
    env: TypingEnv,
    sc: Seq<(u64, TypeV)>,
    scrut: ScrutV,
    required: Seq<Symbol>,
    pats: Seq<MatchPattern>,
    n: int,
) -> Result<(Seq<Symbol>, Seq<TypeV>), ExprTypeErrorV>
    decreases v, n,
{
    if n <= 0 || n > pats.len() || n >= v@.len() {
        Ok((Seq::empty(), Seq::empty()))
    } else {
        match arms_v(v, env, sc, scrut, required, pats, n - 1) {
            Err(err) => Err(err),
            Ok((covered, ts)) => match arm_pattern_v(env, pats[n - 1], v@[n].span) {
                Err(err) => Err(err),
                Ok(arm) => match check_arm_v(scrut, required, covered, arm, v@[n].span) {
                    Err(err) => Err(ExprTypeErrorV::Match(err)),
                    Ok(name) => match infer_in(v@[n], env, sc) {
                        Err(err) => Err(err),
                        Ok(t) => Ok((covered.push(name), ts.push(t))),
                    },
                },
            },
        }
    }
}

/// The first of the first `n` required names no arm covers.
pub open spec fn first_missing(required: Seq<Symbol>, covered: Seq<Symbol>, n: int) -> Option<int>
    decreases n,
{
    if n <= 0 {
        None
    } else {
        match first_missing(required, covered, n - 1) {
            Some(k) => Some(k),
            None => if !covered.contains(required[n - 1]) {
                Some(n - 1)
            } else {
                None
            },
        }
    }
}

/// Every required label or constructor is covered; else the first that is not.
pub open spec fn coverage_v(required: Seq<Symbol>, covered: Seq<Symbol>, span: Span) -> Result<(), MatchArmErrorV> {
    match first_missing(required, covered, required.len() as int) {
        Some(k) => Err(MatchArmErrorV::NonExhaustive { missing: required[k], span }),
        None => Ok(()),
    }
}

/// The spans of the first `n` arm bodies.
pub open spec fn arm_spans(v: Vec<Expr>, n: int) -> Seq<Span> {
    Seq::new(n as nat, |i: int| v@[i + 1].span)
}

/// The first arm among the first `n` whose type differs from the first arm's.
pub open spec fn first_mismatch(ts: Seq<TypeV>, n: int) -> Option<int>
    decreases n,
{
    if n <= 1 {
        None
    } else {
        match first_mismatch(ts, n - 1) {
            Some(i) => Some(i),
            None => if ts[n - 1] != ts[0] {
                Some(n - 1)
            } else {
                None
            },
        }
    }
}

/// The type of a match from its arms' types: all arms of one type.
pub open spec fn arm_types_v(ts: Seq<TypeV>, spans: Seq<Span>, span: Span) -> Result<TypeV, TypeRuleError> {
    if ts.len() == 0 {
        Err(TypeRuleError::NoMatchArms { span })
    } else {
        match first_mismatch(ts, ts.len() as int) {
            Some(i) => Err(mm(MismatchReason::MatchArmMismatch, spans[i])),
            None => Ok(ts[0]),
        }
    }
}

/// The scope extended by the locals of the first `n` comprehension bindings.
pub open spec fn for_scope_v(
    defs: Seq<(ResolvedName, AxisDef)>,
    sc: Seq<(u64, TypeV)>,
    locals: Seq<u64>,
    indexes: Seq<ForBindingIndex>,
    n: int,
) -> Result<Seq<(u64, TypeV)>, ForCompError>
    decreases n,
{
    if n <= 0 || n > locals.len() || n > indexes.len() {
        Ok(sc)
    } else {
        match for_scope_v(defs, sc, locals, indexes, n - 1) {
            Err(err) => Err(err),
            Ok(s) => match binding_local_v(defs, indexes[n - 1]) {
                Err(err) => Err(err),
                Ok(t) => Ok(s.push((locals[n - 1], t))),
            },
        }
    }
}

/// The last of the first `n` bindings whose range is not a valid index.
pub open spec fn last_invalid(bs: Seq<ForBindingIndex>, n: int) -> Option<int>
    decreases n,
{
    if n <= 0 {
        None
    } else if !binding_valid_v(bs[n - 1]) {
        Some(n - 1)
    } else {
        last_invalid(bs, n - 1)
    }
}

/// The type of a comprehension from its body's type: the body indexed by
/// every binding's axis, outermost first.
pub open spec fn for_result_v(bs: Seq<ForBindingIndex>, body: TypeV) -> Result<TypeV, ForCompError> {
    match last_invalid(bs, bs.len() as int) {
        Some(j) => Err(ForCompError::InvalidRange { span: binding_span_v(bs[j]) }),
        None => Ok(indexed_over_v(body, binding_axes_v(bs))),
    }
}

/// The field names of a constructor, in declaration order.
pub open spec fn def_names(fs: Seq<(Symbol, CtorFieldType)>) -> Seq<Symbol> {
    fs.map_values(|f: (Symbol, CtorFieldType)| f.0)
}

/// Type arguments as generic arguments of a struct type.
pub open spec fn type_args_v(targs: Seq<TypeV>) -> Seq<ArgV> {
    targs.map_values(|t: TypeV| ArgV::Type(Box::new(t)))
}

/// The position of the first name among the first `n` that repeats an earlier one.
pub open spec fn first_repeat(names: Seq<Symbol>, n: int) -> Option<int>
    decreases n,
{
    if n <= 0 {
        None
    } else {
        match first_repeat(names, n - 1) {
            Some(i) => Some(i),
            None => if repeats_earlier(names, n - 1) {
                Some(n - 1)
            } else {
                None
            },
        }
    }
}

/// The field names of a call against those its constructor declares: a
/// repeated name first, then names the constructor lacks, then names left out.
pub open spec fn fields_rule_v(defined: Seq<Symbol>, provided: Seq<Symbol>) -> Result<(), FieldsErrV> {
    match first_repeat(provided, provided.len() as int) {
        Some(i) => Err(FieldsErrV::DuplicateField { position: i as usize }),
        None => if absent_from(provided, defined).len() > 0 {
            Err(FieldsErrV::ExtraFields { names: absent_from(provided, defined) })
        } else if absent_from(defined, provided).len() > 0 {
            Err(FieldsErrV::MissingFields { names: absent_from(defined, provided) })
        } else {
            Ok(())
        },
    }
}

/// The type a constructor field expects once the type arguments are bound.
pub open spec fn ctor_field_type_v(t: CtorFieldType, targs: Seq<TypeV>) -> Option<TypeV> {
    match t {
        CtorFieldType::Declared(d) => Some(d@),
        CtorFieldType::TypeParam(j) => if j < targs.len() {
            Some(targs[j as int])
        } else {
            None
        },
    }
}

/// The first `n` field values of a constructor call, each typed and compared
/// with its field's type, in call order; the first failure decides.
pub open spec fn ctor_values_v(
    v: Vec<Expr>,
    env: TypingEnv,
    sc: Seq<(u64, TypeV)>,
    fields: Seq<Symbol>,
    def: CtorDef,
    targs: Seq<TypeV>,
    span: Span,
    n: int,
) -> Result<(), ExprTypeErrorV>
    decreases v, n,
{
    if n <= 0 || n > v@.len() || n > fields.len() {
        Ok(())
    } else {
        match ctor_values_v(v, env, sc, fields, def, targs, span, n - 1) {
            Err(err) => Err(err),
            Ok(()) => match first_field(def.fields@, fields[n - 1]) {
                None => Err(ExprTypeErrorV::Malformed { span }),
                Some(k) => match infer_in(v@[n - 1], env, sc) {
                    Err(err) => Err(err),
                    Ok(t) => match ctor_field_type_v(def.fields@[k].1, targs) {
                        None => Err(ExprTypeErrorV::Malformed { span }),
                        Some(x) => if t == x {
                            Ok(())
                        } else {
                            Err(ExprTypeErrorV::FieldMismatch { field: fields[n - 1], span: v@[n - 1].span })
                        },
                    },
                },
            },
        }
    }
}

/// The types of the first `n` operands, in order; the first failure decides.
pub open spec fn operands_v(v: Vec<Expr>, env: TypingEnv, sc: Seq<(u64, TypeV)>, n: int) -> Result<
    Seq<TypeV>,
    ExprTypeErrorV,
>
    decreases v, n,
{
    if n <= 0 || n > v@.len() {
        Ok(Seq::empty())
    } else {
        match operands_v(v, env, sc, n - 1) {
            Err(err) => Err(err),
            Ok(ts) => match infer_in(v@[n - 1], env, sc) {
                Err(err) => Err(err),
                Ok(t) => Ok(ts.push(t)),
            },
        }
    }
}

/// The index-access arguments of `e`, viewed, for the first `n` entries.
pub open spec fn access_args_v(e: Expr, env: TypingEnv, ts: Seq<TypeV>, args: Seq<IndexArg>, n: int) -> Result<
    Seq<AccessArgV>,
    ExprTypeErrorV,
>
    decreases n,
{
    if n <= 0 || n > args.len() {
        Ok(Seq::empty())
    } else {
        match access_args_v(e, env, ts, args, n - 1) {
            Err(err) => Err(err),
            Ok(av) => match args[n - 1] {
                IndexArg::Operand(k) => if 1 <= k < ts.len() && k < e.operands@.len() {
                    let o = e.operands@[k as int];
                    Ok(
                        av.push(
                            if o.kind is LocalRef {
                                AccessArgV::Local(ts[k as int], o.span)
                            } else {
                                AccessArgV::Expr(ts[k as int], o.span)
                            },
                        ),
                    )
                } else {
                    Err(ExprTypeErrorV::Malformed { span: e.span })
                },
                IndexArg::Variant(nm) => match first_key(env.variants@, nm) {
                    Some(j) => Ok(av.push(AccessArgV::Variant(IndexRefV::Declared(env.variants@[j].1), e.span))),
                    None => Err(ExprTypeErrorV::UnknownVariant { span: e.span }),
                },
            },
        }
    }
}

/// The positions, among the first `n`, of the constructors of `owner`.
pub open spec fn owner_ctors(cs: Seq<(ResolvedName, CtorDef)>, owner: StructTypeRef, n: int) -> Seq<int>
    decreases n,
{
    if n <= 0 || n > cs.len() {
        Seq::empty()
    } else if cs[n - 1].1.owner == owner {
        owner_ctors(cs, owner, n - 1).push(n - 1)
    } else {
        owner_ctors(cs, owner, n - 1)
    }
}

/// The type argument at position `j` of a struct type.
pub open spec fn struct_type_arg_v(args: Seq<ArgV>, j: int) -> Option<TypeV> {
    if 0 <= j < args.len() {
        match args[j] {
            ArgV::Type(t) => Some(*t),
            _ => None,
        }
    } else {
        None
    }
}

/// The type of field `field` of a value of the record type `owner<args>`.
pub open spec fn field_type_of_v(
    env: TypingEnv,
    owner: StructTypeRef,
    args: Seq<ArgV>,
    field: Symbol,
    value_span: Span,
    span: Span,
) -> Result<TypeV, ExprTypeErrorV> {
    let ks = owner_ctors(env.constructors@, owner, env.constructors@.len() as int);
    if ks.len() != 1 {
        Err(ExprTypeErrorV::NotAStruct { span: value_span })
    } else {
        let def = env.constructors@[ks[0]].1;
        match first_field(def.fields@, field) {
            None => Err(ExprTypeErrorV::UnknownField { field, span }),
            Some(j) => match def.fields@[j].1 {
                CtorFieldType::Declared(d) => Ok(d@),
                CtorFieldType::TypeParam(p) => match struct_type_arg_v(args, p as int) {
                    Some(t) => Ok(t),
                    None => Err(ExprTypeErrorV::Malformed { span }),
                },
            },
        }
    }
}

/// Position of the first interface of DAG `n`.
pub open spec fn first_dag(s: Seq<(DagId, InlineDagInterface)>, n: DagId) -> Option<int>
    decreases s.len(),
{
    if s.len() == 0 {
        None
    } else if s[0].0 == n {
        Some(0)
    } else {
        match first_dag(s.drop_first(), n) {
            Some(i) => Some(i + 1),
            None => None,
        }
    }
}

/// The bindings of an inline call: value `i`, of type `ts[i]`, bound to
/// `targets[i]`.
pub open spec fn dag_bindings_v(targets: Seq<Symbol>, v: Vec<Expr>, ts: Seq<TypeV>) -> Seq<InlineDagBinding> {
    Seq::new(
        ts.len(),
        |i: int|
            InlineDagBinding {
                target: targets[i],
                target_span: v@[i].span,
                value_span: v@[i].span,
                found: choose|x: InferredType| x@ == ts[i],
            },
    )
}

/// The type an inline call projects.
pub open spec fn dag_call_v(
    d: InlineDagInterface,
    targets: Seq<Symbol>,
    v: Vec<Expr>,
    ts: Seq<TypeV>,
    output: Symbol,
    span: Span,
) -> Result<TypeV, ExprTypeErrorV> {
    match inline_call_v(d, dag_bindings_v(targets, v, ts), output, span, span) {
        Err(err) => Err(ExprTypeErrorV::InlineDag(err)),
        Ok(p) => match (match p {
            ProjectedV::Node(i) => resolved_type_v(d.nodes@[i].ty),
            ProjectedV::Param(i) => resolved_type_v(d.params@[i].ty),
        }) {
            Some(t) => Ok(t),
            None => Err(ExprTypeErrorV::UnresolvedOutput { span }),
        },
    }
}

/// Position of the first signature of `n`.
pub open spec fn first_sig(s: Seq<(BuiltinFnName, FunctionSignature)>, n: BuiltinFnName) -> Option<int>
    decreases s.len(),
{
    if s.len() == 0 {
        None
    } else if s[0].0 == n {
        Some(0)
    } else {
        match first_sig(s.drop_first(), n) {
            Some(i) => Some(i + 1),
            None => None,
        }
    }
}

/// The dimensions of the first `n` arguments with their spans; the first
/// argument that is not a quantity decides.
pub open spec fn quantity_args_v(e: Expr, ts: Seq<TypeV>, n: int) -> Result<Seq<(Seq<(int, int)>, Span)>, TypeRuleError>
    decreases n,
{
    if n <= 0 || n > ts.len() {
        Ok(Seq::empty())
    } else {
        match quantity_args_v(e, ts, n - 1) {
            Err(err) => Err(err),
            Ok(a) => match expect_quantity_v(ts[n - 1], e.operands@[n - 1].span) {
                Err(err) => Err(err),
                Ok(d) => Ok(a.push((d, e.operands@[n - 1].span))),
            },
        }
    }
}

/// The operand types paired with their spans.
pub open spec fn typed_operands(e: Expr, ts: Seq<TypeV>) -> Seq<(TypeV, Span)> {
    Seq::new(ts.len(), |i: int| (ts[i], e.operands@[i].span))
}

/// The type of a node from its operands' types.
pub open spec fn node_v(e: Expr, env: TypingEnv, ts: Seq<TypeV>) -> Result<TypeV, ExprTypeErrorV> {
    let sp = |i: int| e.operands@[i].span;
    match e.kind {
        ExprKind::BinOp(op) => if ts.len() == 2 {
            match binop_v(op, ts[0], sp(0), ts[1], sp(1), e.span, exponent_fold_v(op, e.operands@[1])) {
                Ok(t) => Ok(t),
                Err(TypeRuleError::IndexedComparisonOperand { span }) => Err(
                    ExprTypeErrorV::IndexedComparison {
                        found: if ts[0] is Indexed {
                            ts[0]
                        } else {
                            ts[1]
                        },
                        span,
                    },
                ),
                Err(err) => Err(ExprTypeErrorV::Rule(err)),
            }
        } else {
            Err(ExprTypeErrorV::Malformed { span: e.span })
        },
        ExprKind::UnaryOp(op) => if ts.len() == 1 {
            rule_v(unary_v(op, ts[0], sp(0)))
        } else {
            Err(ExprTypeErrorV::Malformed { span: e.span })
        },
        ExprKind::If => if ts.len() == 3 {
            rule_v(if_v(ts[0], sp(0), ts[1], ts[2], sp(2)))
        } else {
            Err(ExprTypeErrorV::Malformed { span: e.span })
        },
        ExprKind::Convert { target } => if ts.len() == 1 {
            match unit_dims_v(env.units@, target@, target@.len() as int, e.span) {
                Err(err) => Err(err),
                Ok(d) => rule_v(convert_v(ts[0], sp(0), d, e.span)),
            }
        } else {
            Err(ExprTypeErrorV::Malformed { span: e.span })
        },
        ExprKind::IndexAccess { args } => if ts.len() >= 1 {
            match access_args_v(e, env, ts, args@, args@.len() as int) {
                Err(err) => Err(err),
                Ok(av) => match access_tv(env.axis_defs@, ts[0], av, 0, e.span) {
                    Ok(t) => Ok(t),
                    Err(err) => Err(ExprTypeErrorV::Access(err)),
                },
            }
        } else {
            Err(ExprTypeErrorV::Malformed { span: e.span })
        },
        ExprKind::FieldAccess { field } => if ts.len() == 1 {
            match ts[0] {
                TypeV::Struct(s, args) => field_type_of_v(env, s, args, field, sp(0), e.span),
                _ => Err(ExprTypeErrorV::NotAStruct { span: sp(0) }),
            }
        } else {
            Err(ExprTypeErrorV::Malformed { span: e.span })
        },
        ExprKind::FnCall(FunctionRef::Builtin(name)) => match type_rule_v(name) {
            BuiltinTypeRule::CollectionAggregation(kind) => if ts.len() == 1 {
                match aggregation_v(kind, ts[0], sp(0)) {
                    Some(Ok(t)) => Ok(t),
                    Some(Err(err)) => Err(ExprTypeErrorV::Aggregation(err)),
                    None => registry_v(e, env, ts, name),
                }
            } else {
                registry_v(e, env, ts, name)
            },
            BuiltinTypeRule::TypeConversion(kind) => match type_conversion_v(kind, typed_operands(e, ts), e.span) {
                Ok(t) => Ok(t),
                Err(err) => Err(ExprTypeErrorV::Conversion(err)),
            },
            BuiltinTypeRule::TimeScaleConversion(scale) => if ts.len() == 1 {
                rule_v(time_scale_conversion_v(ts[0], sp(0), scale))
            } else {
                Err(ExprTypeErrorV::WrongArity { expected: 1, got: ts.len() as usize, span: e.span })
            },
            BuiltinTypeRule::DatetimeExtract => datetime_unary_v(e, ts, TypeV::Int),
            BuiltinTypeRule::DatetimeToNumeric => datetime_unary_v(e, ts, TypeV::Quantity(Seq::empty())),
            BuiltinTypeRule::DatetimeFromNumeric => if ts.len() == 1 {
                if ts[0] == TypeV::Quantity(Seq::empty()) || ts[0] is Int || ts[0] is Fin {
                    Ok(TypeV::Datetime(TimeScale::UTC))
                } else {
                    Err(
                        ExprTypeErrorV::Rule(
                            TypeRuleError::Mismatch { reason: MismatchReason::DatetimeFromNotNumeric, span: sp(0) },
                        ),
                    )
                }
            } else {
                Err(ExprTypeErrorV::WrongArity { expected: 1, got: ts.len() as usize, span: e.span })
            },
            BuiltinTypeRule::RegistrySignature => registry_v(e, env, ts, name),
            _ => Err(ExprTypeErrorV::Unsupported { span: e.span }),
        },
        _ => Err(ExprTypeErrorV::Unsupported { span: e.span }),
    }
}

proof fn lemma_operands_err(v: Vec<Expr>, env: TypingEnv, sc: Seq<(u64, TypeV)>, k: int, m: int)
    requires
        0 <= k <= m <= v@.len(),
        operands_v(v, env, sc, k) is Err,
    ensures
        operands_v(v, env, sc, m) == operands_v(v, env, sc, k),
    decreases m - k,
{
    if k < m {
        lemma_operands_err(v, env, sc, k, m - 1);
    }
}

proof fn lemma_access_args_err(e: Expr, env: TypingEnv, ts: Seq<TypeV>, args: Seq<IndexArg>, k: int, m: int)
    requires
        0 <= k <= m <= args.len(),
        access_args_v(e, env, ts, args, k) is Err,
    ensures
        access_args_v(e, env, ts, args, m) == access_args_v(e, env, ts, args, k),
    decreases m - k,
{
    if k < m {
        lemma_access_args_err(e, env, ts, args, k, m - 1);
    }
}

/// Types an expression tree: operands first, left to right, then the node.
pub fn infer_expr_type(expr: &Expr, env: &TypingEnv) -> (r: Result<InferredType, ExprTypeError>)
    ensures
        same_typing(r, infer_v(*expr, *env)),
{
    infer_scoped(expr, env, &env.locals)
}

/// The innermost local `id` of a scope.
fn lookup_local(scope: &Vec<(u64, InferredType)>, id: u64) -> (r: Option<InferredType>)
    ensures
        match (r, local_v(scope_view(scope@), id)) {
            (Some(t), Some(v)) => t@ == v,
            (None, None) => true,
            _ => false,
        },
{
    let mut i: usize = scope.len();
    proof {
        assert(scope_view(scope@).take(i as int) =~= scope_view(scope@));
    }
    while i > 0
        invariant
            i <= scope@.len(),
            local_v(scope_view(scope@), id) == local_v(scope_view(scope@).take(i as int), id),
        decreases i,
    {
        proof {
            assert(scope_view(scope@).take(i as int).drop_last() =~= scope_view(scope@).take(i - 1));
        }
        if scope[i - 1].0 == id {
            return Some(scope[i - 1].1.clone());
        }
        i -= 1;
    }
    None
}

/// The scope `scope` with the local `id` of type `t` innermost.
fn extend_scope(scope: &Vec<(u64, InferredType)>, id: u64, t: &InferredType) -> (r: Vec<(u64, InferredType)>)
    ensures
        scope_view(r@) == scope_view(scope@).push((id, t@)),
{
    let mut r: Vec<(u64, InferredType)> = Vec::new();
    let mut i: usize = 0;
    while i < scope.len()
        invariant
            i <= scope@.len(),
            scope_view(r@) == scope_view(scope@).take(i as int),
        decreases scope@.len() - i,
    {
        let ghost prev = r@;
        let entry = (scope[i].0, scope[i].1.clone());
        r.push(entry);
        i += 1;
        proof {
            assert(scope_view(r@) =~= scope_view(prev).push((scope@[i - 1].0, scope@[i - 1].1@)));
            assert(scope_view(scope@).take(i as int) =~= scope_view(scope@).take(i - 1).push(
                (scope@[i - 1].0, scope@[i - 1].1@),
            ));
        }
    }
    let ghost prev = r@;
    r.push((id, t.clone()));
    proof {
        assert(scope_view(scope@).take(i as int) =~= scope_view(scope@));
        assert(scope_view(r@) =~= scope_view(prev).push((id, t@)));
    }
    r
}

/// Types an expression tree with the locals `scope` in scope.
fn infer_scoped(expr: &Expr, env: &TypingEnv, scope: &Vec<(u64, InferredType)>) -> (r: Result<
    InferredType,
    ExprTypeError,
>)
    ensures
        same_typing(r, infer_in(*expr, *env, scope_view(scope@))),
    decreases expr, 1int,
{
    match &expr.kind {
        ExprKind::Number => {
            let d = Dimension::dimensionless();
            proof {
                assert(d@ =~= Seq::<(int, int)>::empty());
            }
            Ok(InferredType::Quantity(d))
        },
        ExprKind::Integer(_) => Ok(InferredType::Int),
        ExprKind::Bool(_) => Ok(InferredType::Bool),
        ExprKind::StringLiteral => Err(ExprTypeError::StringLiteral { span: expr.span }),
        ExprKind::TypeSystemRef => Err(ExprTypeError::TypeSystemRef { span: expr.span }),
        ExprKind::QuantityLiteral { unit } => match unit_dims(&env.units, unit, expr.span) {
            Ok(d) => Ok(InferredType::Quantity(d)),
            Err(e) => Err(e),
        },
        ExprKind::GraphRef(n) => decl_type(env, *n, expr.span),
        ExprKind::ConstRef(ConstRef::Decl(n)) => decl_type(env, *n, expr.span),
        ExprKind::ConstRef(ConstRef::Constructor(c)) => {
            let k = match lookup(&env.constructors, *c) {
                Some(k) => k,
                None => {
                    return Err(ExprTypeError::UnknownConstructor { span: expr.span });
                },
            };
            let def = &env.constructors[k].1;
            if def.fields.len() > 0 {
                return Err(ExprTypeError::ConstructorNeedsFields { span: expr.span });
            }
            let none: Vec<CtorGenericArg> = Vec::new();
            proof {
                assert(none@ =~= Seq::<CtorGenericArg>::empty());
            }
            let targs = match resolve_constructor_generic_args(&def.params, &none, expr.span) {
                Ok(t) => t,
                Err(e) => {
                    return Err(ExprTypeError::CtorGenerics(e));
                },
            };
            let args = type_args(&targs);
            Ok(InferredType::Struct(InferredStructType::from_ref(def.owner), args))
        },
        ExprKind::LocalRef(id) => match lookup_local(scope, *id) {
            Some(t) => Ok(t),
            None => Err(ExprTypeError::UnknownLocal { span: expr.span }),
        },
        ExprKind::VariantLiteral(n) => match lookup(&env.variants, *n) {
            Some(k) => Ok(InferredType::Key(InferredIndex::from_resolved(env.variants[k].1))),
            None => Err(ExprTypeError::UnknownVariant { span: expr.span }),
        },
        ExprKind::ConstRef(ConstRef::TimeScale(_)) => Err(ExprTypeError::TimeScaleValue { span: expr.span }),
        ExprKind::DisplayTimezone { .. } => infer_display(expr, env, scope),
        ExprKind::FnCall(FunctionRef::Builtin(BuiltinFnName::Datetime)) => infer_datetime_call(expr, env, scope),
        ExprKind::FnCall(FunctionRef::Builtin(BuiltinFnName::Epoch)) => {
            if expr.operands.len() != 2 {
                return Err(ExprTypeError::WrongArity { expected: 2, got: expr.operands.len(), span: expr.span });
            }
            match &expr.operands[0].kind {
                ExprKind::StringLiteral => {},
                _ => {
                    return Err(
                        ExprTypeError::Rule(
                            TypeRuleError::Mismatch {
                                reason: MismatchReason::EpochTextNotString,
                                span: expr.operands[0].span,
                            },
                        ),
                    );
                },
            }
            match &expr.operands[1].kind {
                ExprKind::ConstRef(ConstRef::TimeScale(scale)) => Ok(InferredType::Datetime(*scale)),
                _ => Err(
                    ExprTypeError::Rule(
                        TypeRuleError::Mismatch {
                            reason: MismatchReason::EpochScaleNotTimeScale,
                            span: expr.operands[1].span,
                        },
                    ),
                ),
            }
        },
        ExprKind::BinOp(_) | ExprKind::UnaryOp(_) | ExprKind::If | ExprKind::Convert { .. }
        | ExprKind::IndexAccess { .. } | ExprKind::FnCall(_) | ExprKind::FieldAccess { .. } => {
            proof {
                assert(decreases_to!(*expr => expr.operands));
            }
            match infer_operands(&expr.operands, env, scope) {
                Err(e) => Err(e),
                Ok(ts) => node_type(expr, env, &ts),
            }
        },
        ExprKind::ConstructorCall { .. } => infer_ctor_call(expr, env, scope),
        ExprKind::ForComp { .. } => infer_for_comp(expr, env, scope),
        ExprKind::Scan { .. } => infer_scan(expr, env, scope),
        ExprKind::Unfold { .. } => infer_unfold(expr, env, scope),
        ExprKind::Match { .. } => infer_match(expr, env, scope),
        ExprKind::DagCall { dag, targets, output } => {
            if targets.len() != expr.operands.len() {
                return Err(ExprTypeError::Malformed { span: expr.span });
            }
            let k = match lookup_dag(&env.dags, *dag) {
                Some(k) => k,
                None => {
                    return Err(ExprTypeError::UnknownDag { span: expr.span });
                },
            };
            proof {
                assert(decreases_to!(*expr => expr.operands));
            }
            let ts = infer_operands(&expr.operands, env, scope)?;
            dag_call(expr, env, k, ts, targets, *output)
        },
        ExprKind::MapLiteral { .. } => infer_map_literal(expr, env, scope),
        _ => Err(ExprTypeError::Unsupported { span: expr.span }),
    }
}

fn key_index(env: &TypingEnv, k: &MapKey) -> (r: Option<ResolvedName>)
    ensures
        r == key_index_v(*env, *k),
{
    match k {
        MapKey::Label(l) => match lookup(&env.variants, *l) {
            Some(j) => Some(env.variants[j].1),
            None => None,
        },
        MapKey::NatRange { .. } => None,
    }
}

proof fn lemma_map_axes_err(env: TypingEnv, first: Seq<MapKey>, n: int, m: int, span: Span)
    requires
        0 <= n <= m <= first.len(),
        map_axes_v(env, first, n, span) is Err,
    ensures
        map_axes_v(env, first, m, span) == map_axes_v(env, first, n, span),
    decreases m - n,
{
    if n < m {
        lemma_map_axes_err(env, first, n, m - 1, span);
    }
}

fn map_axes(env: &TypingEnv, first: &Vec<MapKey>, span: Span) -> (r: Result<Vec<ResolvedName>, ExprTypeError>)
    ensures
        match (r, map_axes_v(*env, first@, first@.len() as int, span)) {
            (Ok(a), Ok(b)) => a@ == b,
            (Err(e), Err(f)) => e@ == f,
            _ => false,
        },
{
    let mut axes: Vec<ResolvedName> = Vec::new();
    let mut n: usize = 0;
    while n < first.len()
        invariant
            n <= first@.len(),
            map_axes_v(*env, first@, n as int, span) == Ok::<Seq<ResolvedName>, ExprTypeErrorV>(axes@),
        decreases first@.len() - n,
    {
        let err = match first[n] {
            MapKey::NatRange { .. } => ExprTypeError::MapRangeKey { span },
            MapKey::Label(l) => match lookup(&env.variants, l) {
                None => ExprTypeError::UnknownVariant { span },
                Some(j) => {
                    let r = env.variants[j].1;
                    let idx = InferredIndex::from_resolved(r);
                    match axis_def(&env.axis_defs, &idx) {
                        None => ExprTypeError::UnknownIndex { span },
                        Some(AxisDef::Named) => {
                            axes.push(r);
                            n += 1;
                            continue;
                        },
                        Some(_) => ExprTypeError::MapRangeKey { span },
                    }
                },
            },
        };
        proof {
            lemma_map_axes_err(*env, first@, n + 1, first@.len() as int, span);
        }
        return Err(err);
    }
    Ok(axes)
}

fn first_short(keys: &Vec<Vec<MapKey>>) -> (r: Option<usize>)
    requires
        keys@.len() > 0,
    ensures
        match (r, first_short_entry(keys@, keys@[0]@.len(), 1)) {
            (Some(i), Some(j)) => i == j,
            (None, None) => true,
            _ => false,
        },
{
    let n = keys[0].len();
    let mut i: usize = 1;
    while i < keys.len()
        invariant
            1 <= i <= keys@.len(),
            n == keys@[0]@.len(),
            first_short_entry(keys@, n as nat, 1) == first_short_entry(keys@, n as nat, i as int),
        decreases keys@.len() - i,
    {
        if keys[i].len() != n {
            return Some(i);
        }
        i += 1;
    }
    None
}

fn off_axis(env: &TypingEnv, row: &Vec<MapKey>, axes: &Vec<ResolvedName>) -> (r: Option<usize>)
    ensures
        match (r, first_off_axis(*env, row@, axes@, 0)) {
            (Some(a), Some(b)) => a == b,
            (None, None) => true,
            _ => false,
        },
{
    let mut a: usize = 0;
    while a < axes.len() && a < row.len()
        invariant
            a <= axes@.len(),
            first_off_axis(*env, row@, axes@, 0) == first_off_axis(*env, row@, axes@, a as int),
        decreases axes@.len() - a,
    {
        match key_index(env, &row[a]) {
            Some(r) => {
                if r != axes[a] {
                    return Some(a);
                }
            },
            None => {
                return Some(a);
            },
        }
        a += 1;
    }
    None
}

fn off_axis_entry(env: &TypingEnv, keys: &Vec<Vec<MapKey>>, axes: &Vec<ResolvedName>) -> (r: Option<(usize, usize)>)
    ensures
        match (r, first_off_axis_entry(*env, keys@, axes@, 1)) {
            (Some((i, a)), Some((j, b))) => i == j && a == b,
            (None, None) => true,
            _ => false,
        },
{
    let mut i: usize = 1;
    if keys.len() == 0 {
        return None;
    }
    while i < keys.len()
        invariant
            1 <= i <= keys@.len(),
            first_off_axis_entry(*env, keys@, axes@, 1) == first_off_axis_entry(*env, keys@, axes@, i as int),
        decreases keys@.len() - i,
    {
        match off_axis(env, &keys[i], axes) {
            Some(a) => {
                return Some((i, a));
            },
            None => {},
        }
        i += 1;
    }
    None
}

fn axis_variant_lists(env: &TypingEnv, axes: &Vec<ResolvedName>) -> (r: Vec<Vec<Symbol>>)
    ensures
        axes_view(r@) == axis_variants(*env, axes@),
{
    let mut r: Vec<Vec<Symbol>> = Vec::new();
    let mut i: usize = 0;
    while i < axes.len()
        invariant
            i <= axes@.len(),
            r@.len() == i,
            axes_view(r@) == axis_variants(*env, axes@.subrange(0, i as int)),
        decreases axes@.len() - i,
    {
        let v = variants_lookup(&env.index_variants, axes[i]);
        let ghost before = r@;
        r.push(v);
        i += 1;
        proof {
            let now = axis_variants(*env, axes@.subrange(0, i as int));
            let was = axis_variants(*env, axes@.subrange(0, i - 1));
            assert forall|j: int| 0 <= j < i implies #[trigger] axes_view(r@)[j] == now[j] by {
                if j < i - 1 {
                    assert(r@[j] == before[j]);
                    assert(axes_view(before)[j] == was[j]);
                }
            }
            assert(axes_view(r@) =~= now);
        }
    }
    proof {
        assert(axes@.subrange(0, i as int) =~= axes@);
    }
    r
}

fn entry_variant_lists(keys: &Vec<Vec<MapKey>>) -> (r: Vec<Vec<Symbol>>)
    ensures
        axes_view(r@) == entry_variants(keys@),
{
    let mut r: Vec<Vec<Symbol>> = Vec::new();
    let mut i: usize = 0;
    while i < keys.len()
        invariant
            i <= keys@.len(),
            r@.len() == i,
            axes_view(r@) == entry_variants(keys@.subrange(0, i as int)),
        decreases keys@.len() - i,
    {
        let row = &keys[i];
        let mut out: Vec<Symbol> = Vec::new();
        let mut a: usize = 0;
        while a < row.len()
            invariant
                a <= row@.len(),
                out@ == row@.subrange(0, a as int).map_values(|k: MapKey| key_symbol(k)),
            decreases row@.len() - a,
        {
            let sym = match row[a] {
                MapKey::Label(l) => l.name,
                MapKey::NatRange { variant } => variant,
            };
            out.push(sym);
            a += 1;
            proof {
                assert(out@ =~= row@.subrange(0, a as int).map_values(|k: MapKey| key_symbol(k)));
            }
        }
        proof {
            assert(row@.subrange(0, a as int) =~= row@);
        }
        let ghost before = r@;
        r.push(out);
        i += 1;
        proof {
            let now = entry_variants(keys@.subrange(0, i as int));
            let was = entry_variants(keys@.subrange(0, i - 1));
            assert forall|j: int| 0 <= j < i implies #[trigger] axes_view(r@)[j] == now[j] by {
                if j < i - 1 {
                    assert(r@[j] == before[j]);
                    assert(axes_view(before)[j] == was[j]);
                }
            }
            assert(axes_view(r@) =~= now);
        }
    }
    proof {
        assert(keys@.subrange(0, i as int) =~= keys@);
    }
    r
}

fn map_keys_checked(env: &TypingEnv, keys: &Vec<Vec<MapKey>>, span: Span) -> (r: Result<
    Vec<ResolvedName>,
    ExprTypeError,
>)
    ensures
        match (r, map_keys_checked_v(*env, keys@, span)) {
            (Ok(a), Ok(b)) => a@ == b,
            (Err(e), Err(f)) => e@ == f,
            _ => false,
        },
{
    if keys.len() == 0 {
        return Err(ExprTypeError::MapKeys(MapKeyError::Empty));
    }
    if let Some(i) = first_short(keys) {
        return Err(ExprTypeError::MapKeys(MapKeyError::InconsistentArity { entry: i }));
    }
    let axes = map_axes(env, &keys[0], span)?;
    if let Some((i, a)) = off_axis_entry(env, keys, &axes) {
        return Err(ExprTypeError::MapKeyIndexMismatch { entry: i, axis: a, span });
    }
    let vars = axis_variant_lists(env, &axes);
    if checked_key_space(&vars).is_none() {
        return Err(ExprTypeError::KeySpaceOverflow { span });
    }
    let ents = entry_variant_lists(keys);
    match check_map_literal_keys(&vars, &ents) {
        Ok(()) => Ok(axes),
        Err(k) => Err(ExprTypeError::MapKeys(k)),
    }
}

fn map_values(env: &TypingEnv, axes: Vec<ResolvedName>, v: &Vec<Expr>, ts: Vec<InferredType>) -> (r: Result<
    InferredType,
    ExprTypeError,
>)
    requires
        ts@.len() == v@.len(),
    ensures
        same_typing(r, map_values_v(*env, axes@, *v, types_view(ts@))),
{
    let ghost tv = types_view(ts@);
    if ts.len() == 0 {
        return Err(ExprTypeError::MapLiteralType(MapLiteralTypeError::Empty));
    }
    proof {
        assert(tv[0] == ts@[0]@);
    }
    match &ts[0] {
        InferredType::Indexed { index, .. } => match axis_def(&env.axis_defs, index) {
            Some(AxisDef::Named) => {
                return Err(ExprTypeError::MapElementIndexed { span: v[0].span });
            },
            _ => {},
        },
        _ => {},
    }
    let mut k: usize = 1;
    while k < ts.len()
        invariant
            1 <= k <= ts@.len(),
            ts@.len() == v@.len(),
            tv == types_view(ts@),
            !(tv[0] is Indexed && axis_def_v(env.axis_defs@, tv[0]->1) == Some(AxisDef::Named)),
            first_unequal(tv, 1) == first_unequal(tv, k as int),
        decreases ts@.len() - k,
    {
        proof {
            assert(tv[k as int] == ts@[k as int]@);
            assert(tv[0] == ts@[0]@);
        }
        if !type_equal(&ts[k], &ts[0]) {
            return Err(ExprTypeError::MapLiteralType(MapLiteralTypeError::EntryTypeMismatch { entry: k, span: v[k].span }));
        }
        k += 1;
    }
    let mut idx: Vec<InferredIndex> = Vec::new();
    let mut i: usize = 0;
    while i < axes.len()
        invariant
            i <= axes@.len(),
            idx@.len() == i,
            idx@.map_values(|x: InferredIndex| x@) == axes@.subrange(0, i as int).map_values(
                |r: ResolvedName| IndexRefV::Declared(r),
            ),
        decreases axes@.len() - i,
    {
        let ghost before = idx@;
        idx.push(InferredIndex::from_resolved(axes[i]));
        i += 1;
        proof {
            let was = axes@.subrange(0, i - 1).map_values(|r: ResolvedName| IndexRefV::Declared(r));
            assert forall|j: int| 0 <= j < i - 1 implies #[trigger] idx@[j]@ == was[j] by {
                assert(idx@[j] == before[j]);
                assert(before.map_values(|x: InferredIndex| x@)[j] == was[j]);
            }
            assert(idx@.map_values(|x: InferredIndex| x@) =~= axes@.subrange(0, i as int).map_values(
                |r: ResolvedName| IndexRefV::Declared(r),
            ));
        }
    }
    proof {
        assert(axes@.subrange(0, i as int) =~= axes@);
    }
    let mut ts = ts;
    let first = ts.remove(0);
    Ok(indexed_over(first, idx))
}

fn infer_map_literal(expr: &Expr, env: &TypingEnv, scope: &Vec<(u64, InferredType)>) -> (r: Result<
    InferredType,
    ExprTypeError,
>)
    requires
        expr.kind is MapLiteral,
    ensures
        same_typing(r, infer_in(*expr, *env, scope_view(scope@))),
    decreases expr, 0int,
{
    match &expr.kind {
        ExprKind::MapLiteral { keys } => {
            if keys.len() != expr.operands.len() {
                return Err(ExprTypeError::Malformed { span: expr.span });
            }
            let axes = map_keys_checked(env, keys, expr.span)?;
            proof {
                assert(decreases_to!(*expr => expr.operands));
            }
            let ts = infer_operands(&expr.operands, env, scope)?;
            map_values(env, axes, &expr.operands, ts)
        },
        _ => Err(ExprTypeError::Malformed { span: expr.span }),
    }
}

fn infer_display(expr: &Expr, env: &TypingEnv, scope: &Vec<(u64, InferredType)>) -> (r: Result<
    InferredType,
    ExprTypeError,
>)
    requires
        expr.kind is DisplayTimezone,
    ensures
        same_typing(r, infer_in(*expr, *env, scope_view(scope@))),
    decreases expr, 0int,
{
    match &expr.kind {
        ExprKind::DisplayTimezone { zone_known, .. } => {
            if expr.operands.len() != 1 {
                return Err(ExprTypeError::Malformed { span: expr.span });
            }
            proof {
                assert(decreases_to!(*expr => expr.operands));
                assert(decreases_to!(expr.operands => expr.operands@[0]));
            }
            let t = infer_scoped(&expr.operands[0], env, scope)?;
            let inner = Operand { ty: t, span: expr.operands[0].span };
            match display_timezone_rule(&inner, *zone_known, expr.span) {
                Ok(r) => Ok(r),
                Err(e) => Err(ExprTypeError::Rule(e)),
            }
        },
        _ => Err(ExprTypeError::Malformed { span: expr.span }),
    }
}

/// A node showing `value` in the IANA time zone `zone`, with the time-zone
/// database asked whether it holds that zone.
pub fn display_timezone_node(id: ExprId, span: Span, value: Expr, zone: &str) -> (e: Expr)
    ensures
        e.id == Some(id),
        e.span == span,
        e.operands@ == seq![value],
        e.kind is DisplayTimezone,
{
    let known = timezone_exists(zone);
    let mut operands: Vec<Expr> = Vec::new();
    operands.push(value);
    Expr::new(id, span, ExprKind::DisplayTimezone { zone_known: known }, operands)
}

fn infer_datetime_call(expr: &Expr, env: &TypingEnv, scope: &Vec<(u64, InferredType)>) -> (r: Result<
    InferredType,
    ExprTypeError,
>)
    requires
        expr.kind == ExprKind::FnCall(FunctionRef::Builtin(BuiltinFnName::Datetime)),
    ensures
        same_typing(r, infer_in(*expr, *env, scope_view(scope@))),
    decreases expr, 0int,
{
    let n = expr.operands.len();
    if n == 0 || n > 2 {
        return Err(ExprTypeError::DatetimeArity { got: n, span: expr.span });
    }
    proof {
        assert(decreases_to!(*expr => expr.operands));
        assert(decreases_to!(expr.operands => expr.operands@[0]));
    }
    match &expr.operands[0].kind {
        ExprKind::StringLiteral => {},
        _ => {
            let _ = infer_scoped(&expr.operands[0], env, scope)?;
            return Err(
                ExprTypeError::Rule(
                    TypeRuleError::Mismatch { reason: MismatchReason::DatetimeTextNotString, span: expr.operands[0].span },
                ),
            );
        },
    }
    if n == 2 {
        proof {
            assert(decreases_to!(expr.operands => expr.operands@[1]));
        }
        match &expr.operands[1].kind {
            ExprKind::StringLiteral => {},
            _ => {
                let _ = infer_scoped(&expr.operands[1], env, scope)?;
                return Err(
                    ExprTypeError::Rule(
                        TypeRuleError::Mismatch {
                            reason: MismatchReason::DatetimeZoneNotString,
                            span: expr.operands[1].span,
                        },
                    ),
                );
            },
        }
    }
    Ok(InferredType::Datetime(TimeScale::UTC))
}

fn infer_ctor_call(expr: &Expr, env: &TypingEnv, scope: &Vec<(u64, InferredType)>) -> (r: Result<
    InferredType,
    ExprTypeError,
>)
    requires
        expr.kind is ConstructorCall,
    ensures
        same_typing(r, infer_in(*expr, *env, scope_view(scope@))),
    decreases expr, 0int,
{
    match &expr.kind {
        ExprKind::ConstructorCall { callee, generic_args, fields } => {
    if fields.len() != expr.operands.len() {
        return Err(ExprTypeError::Malformed { span: expr.span });
    }
    let k = match lookup(&env.constructors, *callee) {
        Some(k) => k,
        None => {
            return Err(ExprTypeError::UnknownConstructor { span: expr.span });
        },
    };
    let def = &env.constructors[k].1;
    let targs = match resolve_constructor_generic_args(&def.params, generic_args, expr.span) {
        Ok(t) => t,
        Err(e) => {
            return Err(ExprTypeError::CtorGenerics(e));
        },
    };
    let names = field_names(&def.fields);
    let checked = constructor_fields_rule(&names, fields);
    proof {
        lemma_fields_rule(names@, fields@, checked);
    }
    match checked {
        Ok(()) => {},
        Err(e) => {
            return Err(ExprTypeError::Fields(e));
        },
    }
    proof {
        assert(decreases_to!(*expr => expr.operands));
    }
    match ctor_values(&expr.operands, env, scope, fields, def, &targs, expr.span) {
        Ok(()) => {},
        Err(e) => {
            return Err(e);
        },
    }
    let args = type_args(&targs);
    Ok(InferredType::Struct(InferredStructType::from_ref(def.owner), args))
        },
        _ => Err(ExprTypeError::Malformed { span: expr.span }),
    }
}

fn infer_for_comp(expr: &Expr, env: &TypingEnv, scope: &Vec<(u64, InferredType)>) -> (r: Result<
    InferredType,
    ExprTypeError,
>)
    requires
        expr.kind is ForComp,
    ensures
        same_typing(r, infer_in(*expr, *env, scope_view(scope@))),
    decreases expr, 0int,
{
    match &expr.kind {
        ExprKind::ForComp { locals, indexes } => {
    if locals.len() != indexes.len() || expr.operands.len() != 1 {
        return Err(ExprTypeError::Malformed { span: expr.span });
    }
    let inner = match for_scope(env, scope, locals, indexes) {
        Ok(s) => s,
        Err(e) => {
            return Err(ExprTypeError::ForComp(e));
        },
    };
    proof {
        assert(decreases_to!(*expr => expr.operands));
        assert(decreases_to!(expr.operands => expr.operands@[0]));
    }
    let body = infer_scoped(&expr.operands[0], env, &inner)?;
    let ghost bv = body@;
    let r = for_comp_type(indexes, body);
    proof {
        lemma_for_result(indexes@, bv, r);
    }
    match r {
        Ok(t) => Ok(t),
        Err(e) => Err(ExprTypeError::ForComp(e)),
    }
        },
        _ => Err(ExprTypeError::Malformed { span: expr.span }),
    }
}

fn infer_scan(expr: &Expr, env: &TypingEnv, scope: &Vec<(u64, InferredType)>) -> (r: Result<
    InferredType,
    ExprTypeError,
>)
    requires
        expr.kind is Scan,
    ensures
        same_typing(r, infer_in(*expr, *env, scope_view(scope@))),
    decreases expr, 0int,
{
    match &expr.kind {
        ExprKind::Scan { acc, item } => {
    if expr.operands.len() != 3 {
        return Err(ExprTypeError::Malformed { span: expr.span });
    }
    proof {
        assert(decreases_to!(*expr => expr.operands));
        assert(decreases_to!(expr.operands => expr.operands@[0]));
        assert(decreases_to!(expr.operands => expr.operands@[1]));
        assert(decreases_to!(expr.operands => expr.operands@[2]));
    }
    let source = infer_scoped(&expr.operands[0], env, scope)?;
    let (element, axis) = match scan_source(&Operand { ty: source, span: expr.operands[0].span }) {
        Ok(p) => p,
        Err(e) => {
            return Err(ExprTypeError::Scan(e));
        },
    };
    let init = infer_scoped(&expr.operands[1], env, scope)?;
    if !type_equal(&init, &element) {
        return Err(ExprTypeError::ScanInitMismatch { span: expr.operands[1].span });
    }
    let with_acc = extend_scope(scope, *acc, &element);
    let inner = extend_scope(&with_acc, *item, &element);
    let body = infer_scoped(&expr.operands[2], env, &inner)?;
    match scan_result(
        axis,
        &Operand { ty: init, span: expr.operands[1].span },
        &Operand { ty: body, span: expr.operands[2].span },
    ) {
        Ok(t) => Ok(t),
        Err(e) => Err(ExprTypeError::Scan(e)),
    }
        },
        _ => Err(ExprTypeError::Malformed { span: expr.span }),
    }
}

fn infer_unfold(expr: &Expr, env: &TypingEnv, scope: &Vec<(u64, InferredType)>) -> (r: Result<
    InferredType,
    ExprTypeError,
>)
    requires
        expr.kind is Unfold,
    ensures
        same_typing(r, infer_in(*expr, *env, scope_view(scope@))),
    decreases expr, 0int,
{
    match &expr.kind {
        ExprKind::Unfold { index, prev, curr } => {
    if expr.operands.len() != 2 {
        return Err(ExprTypeError::Malformed { span: expr.span });
    }
    proof {
        assert(decreases_to!(*expr => expr.operands));
        assert(decreases_to!(expr.operands => expr.operands@[0]));
        assert(decreases_to!(expr.operands => expr.operands@[1]));
    }
    let init = infer_scoped(&expr.operands[0], env, scope)?;
    let coord = match unfold_coordinate_type(*index, &env.axis_defs, expr.operands[1].span) {
        Ok(t) => t,
        Err(e) => {
            return Err(ExprTypeError::Unfold(e));
        },
    };
    let with_prev = extend_scope(scope, *prev, &coord);
    let inner = extend_scope(&with_prev, *curr, &coord);
    let body = infer_scoped(&expr.operands[1], env, &inner)?;
    if !type_equal(&body, &init) {
        return Err(ExprTypeError::UnfoldBodyMismatch { span: expr.operands[1].span });
    }
    Ok(InferredType::Indexed { element: Box::new(init), index: InferredIndex::from_resolved(*index) })
        },
        _ => Err(ExprTypeError::Malformed { span: expr.span }),
    }
}


fn decl_type(env: &TypingEnv, n: ResolvedName, span: Span) -> (r: Result<InferredType, ExprTypeError>)
    ensures
        same_typing(r, decl_type_v(*env, n, span)),
{
    match lookup(&env.decls, n) {
        Some(k) => Ok(inferred_from_declared(&env.decls[k].1)),
        None => Err(ExprTypeError::UnknownDecl { span }),
    }
}

fn field_names(fs: &Vec<(Symbol, CtorFieldType)>) -> (r: Vec<Symbol>)
    ensures
        r@ == def_names(fs@),
{
    let mut r: Vec<Symbol> = Vec::new();
    let mut i: usize = 0;
    while i < fs.len()
        invariant
            i <= fs@.len(),
            r@ == def_names(fs@).take(i as int),
        decreases fs@.len() - i,
    {
        r.push(fs[i].0);
        i += 1;
        proof {
            assert(r@ =~= def_names(fs@).take(i as int));
        }
    }
    proof {
        assert(def_names(fs@).take(i as int) =~= def_names(fs@));
    }
    r
}

fn type_args(targs: &Vec<InferredType>) -> (r: Vec<InferredGenericArg>)
    ensures
        args_view(r, r@.len() as int) == type_args_v(types_view(targs@)),
{
    let mut r: Vec<InferredGenericArg> = Vec::new();
    let mut i: usize = 0;
    while i < targs.len()
        invariant
            i <= targs@.len(),
            r@.len() == i,
            forall|j: int| 0 <= j < i ==> #[trigger] arg_view_of(r@[j]) == ArgV::Type(Box::new(targs@[j]@)),
        decreases targs@.len() - i,
    {
        r.push(InferredGenericArg::Type(targs[i].clone()));
        i += 1;
    }
    proof {
        lemma_args_view(r, r@.len() as int);
        assert forall|j: int| 0 <= j < r@.len() implies args_view(r, r@.len() as int)[j] == type_args_v(
            types_view(targs@),
        )[j] by {
            assert(arg_view_of(r@[j]) == ArgV::Type(Box::new(targs@[j]@)));
            assert(types_view(targs@)[j] == targs@[j]@);
        }
        assert(args_view(r, r@.len() as int) =~= type_args_v(types_view(targs@)));
    }
    r
}

spec fn arg_view_of(a: InferredGenericArg) -> ArgV {
    crate::types::arg_view(a)
}

proof fn lemma_first_repeat(names: Seq<Symbol>, n: int)
    requires
        0 <= n <= names.len(),
    ensures
        first_repeat(names, n) matches Some(i) ==> 0 <= i < n && repeats_earlier(names, i) && forall|j: int|
            0 <= j < i ==> !repeats_earlier(names, j),
        first_repeat(names, n) is None ==> forall|j: int| 0 <= j < n ==> !repeats_earlier(names, j),
    decreases n,
{
    if n > 0 {
        lemma_first_repeat(names, n - 1);
    }
}

proof fn lemma_fields_rule(defined: Seq<Symbol>, provided: Seq<Symbol>, r: Result<(), ConstructorFieldsError>)
    requires
        (exists|i: int| 0 <= i < provided.len() && repeats_earlier(provided, i)) <==> (r matches Err(
            ConstructorFieldsError::DuplicateField { .. },
        )),
        r matches Err(ConstructorFieldsError::DuplicateField { position }) ==> position < provided.len()
            && repeats_earlier(provided, position as int) && forall|j: int|
            0 <= j < position ==> !repeats_earlier(provided, j),
        r matches Err(ConstructorFieldsError::ExtraFields { names }) ==> names@ == absent_from(provided, defined)
            && names@.len() > 0,
        r matches Err(ConstructorFieldsError::MissingFields { names }) ==> names@ == absent_from(defined, provided)
            && names@.len() > 0 && absent_from(provided, defined).len() == 0,
        r is Ok <==> (forall|i: int| 0 <= i < provided.len() ==> !repeats_earlier(provided, i))
            && absent_from(provided, defined).len() == 0 && absent_from(defined, provided).len() == 0,
    ensures
        match (r, fields_rule_v(defined, provided)) {
            (Ok(()), Ok(())) => true,
            (Err(e), Err(f)) => fields_err_view(e) == f,
            _ => false,
        },
{
    lemma_first_repeat(provided, provided.len() as int);
    match first_repeat(provided, provided.len() as int) {
        Some(i) => {
            assert(r matches Err(ConstructorFieldsError::DuplicateField { .. }));
            if let Err(ConstructorFieldsError::DuplicateField { position }) = r {
                if i < position {
                    assert(!repeats_earlier(provided, i));
                } else if position < i {
                    assert(!repeats_earlier(provided, position as int));
                }
            }
        },
        None => {
            if r matches Err(ConstructorFieldsError::DuplicateField { .. }) {
                let i = choose|i: int| 0 <= i < provided.len() && repeats_earlier(provided, i);
                assert(!repeats_earlier(provided, i));
            }
        },
    }
}

proof fn lemma_ctor_values_err(
    v: Vec<Expr>,
    env: TypingEnv,
    sc: Seq<(u64, TypeV)>,
    fields: Seq<Symbol>,
    def: CtorDef,
    targs: Seq<TypeV>,
    span: Span,
    k: int,
    m: int,
)
    requires
        0 <= k <= m <= v@.len(),
        m <= fields.len(),
        ctor_values_v(v, env, sc, fields, def, targs, span, k) is Err,
    ensures
        ctor_values_v(v, env, sc, fields, def, targs, span, m) == ctor_values_v(v, env, sc, fields, def, targs, span, k),
    decreases m - k,
{
    if k < m {
        lemma_ctor_values_err(v, env, sc, fields, def, targs, span, k, m - 1);
    }
}

/// Types the field values of a constructor call in order, each against its
/// field's type.
fn ctor_values(
    v: &Vec<Expr>,
    env: &TypingEnv,
    scope: &Vec<(u64, InferredType)>,
    fields: &Vec<Symbol>,
    def: &CtorDef,
    targs: &Vec<InferredType>,
    span: Span,
) -> (r: Result<(), ExprTypeError>)
    requires
        fields@.len() == v@.len(),
    ensures
        match (r, ctor_values_v(*v, *env, scope_view(scope@), fields@, *def, types_view(targs@), span, fields@.len() as int)) {
            (Ok(()), Ok(())) => true,
            (Err(e), Err(f)) => e@ == f,
            _ => false,
        },
    decreases v, 0int,
{
    let ghost tv = types_view(targs@);
    let mut i: usize = 0;
    while i < fields.len()
        invariant
            fields@.len() == v@.len(),
            i <= fields@.len(),
            tv == types_view(targs@),
            ctor_values_v(*v, *env, scope_view(scope@), fields@, *def, tv, span, i as int) == Ok::<(), ExprTypeErrorV>(()),
        decreases fields@.len() - i,
    {
        let k = match lookup_field(&def.fields, fields[i]) {
            Some(k) => k,
            None => {
                proof {
                    lemma_ctor_values_err(*v, *env, scope_view(scope@), fields@, *def, tv, span, i + 1, fields@.len() as int);
                }
                return Err(ExprTypeError::Malformed { span });
            },
        };
        proof {
            assert(decreases_to!(*v => v@[i as int]));
        }
        let t = match infer_scoped(&v[i], env, scope) {
            Ok(t) => t,
            Err(e) => {
                proof {
                    lemma_ctor_values_err(*v, *env, scope_view(scope@), fields@, *def, tv, span, i + 1, fields@.len() as int);
                }
                return Err(e);
            },
        };
        let same = match &def.fields[k].1 {
            CtorFieldType::Declared(d) => {
                let expected = inferred_from_declared(d);
                type_equal(&t, &expected)
            },
            CtorFieldType::TypeParam(j) => {
                if *j >= targs.len() {
                    proof {
                        lemma_ctor_values_err(*v, *env, scope_view(scope@), fields@, *def, tv, span, i + 1, fields@.len() as int);
                    }
                    return Err(ExprTypeError::Malformed { span });
                }
                type_equal(&t, &targs[*j])
            },
        };
        if !same {
            proof {
                lemma_ctor_values_err(*v, *env, scope_view(scope@), fields@, *def, tv, span, i + 1, fields@.len() as int);
            }
            return Err(ExprTypeError::FieldMismatch { field: fields[i], span: v[i].span });
        }
        i += 1;
    }
    Ok(())
}

proof fn lemma_for_scope_err(
    defs: Seq<(ResolvedName, AxisDef)>,
    sc: Seq<(u64, TypeV)>,
    locals: Seq<u64>,
    indexes: Seq<ForBindingIndex>,
    k: int,
    m: int,
)
    requires
        0 <= k <= m <= locals.len(),
        m <= indexes.len(),
        for_scope_v(defs, sc, locals, indexes, k) is Err,
    ensures
        for_scope_v(defs, sc, locals, indexes, m) == for_scope_v(defs, sc, locals, indexes, k),
    decreases m - k,
{
    if k < m {
        lemma_for_scope_err(defs, sc, locals, indexes, k, m - 1);
    }
}

/// The scope with the locals of the comprehension bindings added in order.
fn for_scope(
    env: &TypingEnv,
    scope: &Vec<(u64, InferredType)>,
    locals: &Vec<u64>,
    indexes: &Vec<ForBindingIndex>,
) -> (r: Result<Vec<(u64, InferredType)>, ForCompError>)
    requires
        locals@.len() == indexes@.len(),
    ensures
        match (r, for_scope_v(env.axis_defs@, scope_view(scope@), locals@, indexes@, locals@.len() as int)) {
            (Ok(s), Ok(v)) => scope_view(s@) == v,
            (Err(e), Err(f)) => e == f,
            _ => false,
        },
{
    let mut cur = copy_scope(scope);
    let mut i: usize = 0;
    while i < locals.len()
        invariant
            locals@.len() == indexes@.len(),
            i <= locals@.len(),
            for_scope_v(env.axis_defs@, scope_view(scope@), locals@, indexes@, i as int) == Ok::<
                Seq<(u64, TypeV)>,
                ForCompError,
            >(scope_view(cur@)),
        decreases locals@.len() - i,
    {
        let t = match for_binding_local_type(&indexes[i], &env.axis_defs) {
            Ok(t) => t,
            Err(e) => {
                proof {
                    lemma_for_scope_err(
                        env.axis_defs@,
                        scope_view(scope@),
                        locals@,
                        indexes@,
                        i + 1,
                        locals@.len() as int,
                    );
                }
                return Err(e);
            },
        };
        cur = extend_scope(&cur, locals[i], &t);
        i += 1;
    }
    Ok(cur)
}

fn copy_scope(scope: &Vec<(u64, InferredType)>) -> (r: Vec<(u64, InferredType)>)
    ensures
        scope_view(r@) == scope_view(scope@),
{
    let mut r: Vec<(u64, InferredType)> = Vec::new();
    let mut i: usize = 0;
    while i < scope.len()
        invariant
            i <= scope@.len(),
            scope_view(r@) == scope_view(scope@).take(i as int),
        decreases scope@.len() - i,
    {
        let ghost prev = r@;
        let entry = (scope[i].0, scope[i].1.clone());
        r.push(entry);
        i += 1;
        proof {
            assert(scope_view(r@) =~= scope_view(prev).push((scope@[i - 1].0, scope@[i - 1].1@)));
            assert(scope_view(scope@).take(i as int) =~= scope_view(scope@).take(i - 1).push(
                (scope@[i - 1].0, scope@[i - 1].1@),
            ));
        }
    }
    proof {
        assert(scope_view(scope@).take(i as int) =~= scope_view(scope@));
    }
    r
}

proof fn lemma_last_invalid(bs: Seq<ForBindingIndex>, n: int)
    requires
        0 <= n <= bs.len(),
    ensures
        last_invalid(bs, n) is None <==> forall|j: int| 0 <= j < n ==> #[trigger] binding_valid_v(bs[j]),
        last_invalid(bs, n) matches Some(j) ==> 0 <= j < n && !binding_valid_v(bs[j]) && forall|i: int|
            j < i < n ==> #[trigger] binding_valid_v(bs[i]),
    decreases n,
{
    if n > 0 {
        lemma_last_invalid(bs, n - 1);
    }
}

proof fn lemma_for_result(bs: Seq<ForBindingIndex>, body: TypeV, r: Result<InferredType, ForCompError>)
    requires
        (forall|j: int| 0 <= j < bs.len() ==> #[trigger] binding_valid_v(bs[j])) ==> (r matches Ok(t) && t@
            == indexed_over_v(body, binding_axes_v(bs))),
        r is Ok ==> forall|j: int| 0 <= j < bs.len() ==> #[trigger] binding_valid_v(bs[j]),
        r matches Err(e) ==> exists|j: int|
            {
                &&& 0 <= j < bs.len()
                &&& !#[trigger] binding_valid_v(bs[j])
                &&& e == (ForCompError::InvalidRange { span: binding_span_v(bs[j]) })
                &&& forall|i: int| j < i < bs.len() ==> #[trigger] binding_valid_v(bs[i])
            },
    ensures
        match (r, for_result_v(bs, body)) {
            (Ok(t), Ok(v)) => t@ == v,
            (Err(e), Err(f)) => e == f,
            _ => false,
        },
{
    lemma_last_invalid(bs, bs.len() as int);
    if let Err(e) = r {
        let j = choose|j: int|
            {
                &&& 0 <= j < bs.len()
                &&& !#[trigger] binding_valid_v(bs[j])
                &&& e == (ForCompError::InvalidRange { span: binding_span_v(bs[j]) })
                &&& forall|i: int| j < i < bs.len() ==> #[trigger] binding_valid_v(bs[i])
            };
        let k = last_invalid(bs, bs.len() as int)->Some_0;
        if k < j {
            assert(binding_valid_v(bs[j]));
        } else if j < k {
            assert(binding_valid_v(bs[k]));
        }
    }
}

fn variants_lookup(t: &Vec<(ResolvedName, Vec<Symbol>)>, r: ResolvedName) -> (v: Vec<Symbol>)
    ensures
        v@ == variants_of(t@, r),
{
    match lookup(t, r) {
        Some(k) => {
            let mut out: Vec<Symbol> = Vec::new();
            let mut i: usize = 0;
            while i < t[k].1.len()
                invariant
                    k < t@.len(),
                    i <= t@[k as int].1@.len(),
                    out@ == t@[k as int].1@.take(i as int),
                decreases t@[k as int].1@.len() - i,
            {
                out.push(t[k].1[i]);
                i += 1;
                proof {
                    assert(out@ =~= t@[k as int].1@.take(i as int));
                }
            }
            proof {
                assert(t@[k as int].1@.take(i as int) =~= t@[k as int].1@);
            }
            out
        },
        None => Vec::new(),
    }
}

fn members_lookup(cs: &Vec<(ResolvedName, CtorDef)>, owner: StructTypeRef) -> (v: Vec<Symbol>)
    ensures
        v@ == members_of(cs@, owner, cs@.len() as int),
{
    let mut out: Vec<Symbol> = Vec::new();
    let mut i: usize = 0;
    while i < cs.len()
        invariant
            i <= cs@.len(),
            out@ == members_of(cs@, owner, i as int),
        decreases cs@.len() - i,
    {
        if cs[i].1.owner == owner {
            out.push(cs[i].0.name);
        }
        i += 1;
    }
    out
}

fn scrutinee_of(env: &TypingEnv, t: &InferredType, span: Span) -> (r: Result<(Scrutinee, Vec<Symbol>), ExprTypeError>)
    ensures
        match (r, scrutinee_v(*env, t@, span)) {
            (Ok((x, v)), Ok((y, w))) => x@ == y && v@ == w,
            (Err(e), Err(f)) => e@ == f,
            _ => false,
        },
{
    let index = match t {
        InferredType::Key(i) => i,
        InferredType::NamedIndexCase(i) => i,
        InferredType::Struct(s, _) => {
            return Ok((Scrutinee::Union(*s), members_lookup(&env.constructors, *s.type_ref())));
        },
        _ => {
            return Err(ExprTypeError::NotMatchable { span });
        },
    };
    let r = match index.declared_resolved() {
        Some(r) => r,
        None => {
            return Err(ExprTypeError::MatchOnRange { span });
        },
    };
    match axis_def(&env.axis_defs, index) {
        None => Err(ExprTypeError::UnknownIndex { span }),
        Some(AxisDef::Named) => Ok((Scrutinee::Label(index.clone()), variants_lookup(&env.index_variants, r))),
        Some(_) => Err(ExprTypeError::MatchOnRange { span }),
    }
}

fn arm_pattern(env: &TypingEnv, p: &MatchPattern, span: Span) -> (r: Result<ArmPattern, ExprTypeError>)
    ensures
        match (r, arm_pattern_v(*env, *p, span)) {
            (Ok(a), Ok(b)) => a == b,
            (Err(e), Err(f)) => e@ == f,
            _ => false,
        },
{
    match p {
        MatchPattern::IndexLabel(l) => match lookup(&env.variants, *l) {
            Some(k) => Ok(ArmPattern::Label { index: env.variants[k].1, variant: l.name, span }),
            None => Err(ExprTypeError::UnknownVariant { span }),
        },
        MatchPattern::Constructor(c) => match lookup(&env.constructors, *c) {
            Some(k) => Ok(
                ArmPattern::Constructor { owning_type: *env.constructors[k].1.owner.resolved(), member: c.name, span },
            ),
            None => Err(ExprTypeError::UnknownConstructor { span }),
        },
    }
}

proof fn lemma_arms_err(
    v: Vec<Expr>,
    env: TypingEnv,
    sc: Seq<(u64, TypeV)>,
    scrut: ScrutV,
    required: Seq<Symbol>,
    pats: Seq<MatchPattern>,
    k: int,
    m: int,
)
    requires
        0 <= k <= m <= pats.len(),
        m < v@.len(),
        arms_v(v, env, sc, scrut, required, pats, k) is Err,
    ensures
        arms_v(v, env, sc, scrut, required, pats, m) == arms_v(v, env, sc, scrut, required, pats, k),
    decreases m - k,
{
    if k < m {
        lemma_arms_err(v, env, sc, scrut, required, pats, k, m - 1);
    }
}

/// Checks each arm's pattern, then types its body, in order.
fn match_arms(
    v: &Vec<Expr>,
    env: &TypingEnv,
    scope: &Vec<(u64, InferredType)>,
    scrut: &Scrutinee,
    required: &Vec<Symbol>,
    pats: &Vec<MatchPattern>,
) -> (r: Result<(Vec<Symbol>, Vec<InferredType>), ExprTypeError>)
    requires
        v@.len() == pats@.len() + 1,
    ensures
        match (r, arms_v(*v, *env, scope_view(scope@), scrut@, required@, pats@, pats@.len() as int)) {
            (Ok((c, t)), Ok((cv, tv))) => c@ == cv && types_view(t@) == tv && t@.len() == pats@.len(),
            (Err(e), Err(f)) => e@ == f,
            _ => false,
        },
    decreases v, 0int,
{
    let ghost sc = scope_view(scope@);
    let mut covered: Vec<Symbol> = Vec::new();
    let mut ts: Vec<InferredType> = Vec::new();
    let mut i: usize = 0;
    proof {
        assert(types_view(ts@) =~= Seq::<TypeV>::empty());
        assert(covered@ =~= Seq::<Symbol>::empty());
    }
    while i < pats.len()
        invariant
            v@.len() == pats@.len() + 1,
            i <= pats@.len(),
            sc == scope_view(scope@),
            ts@.len() == i,
            arms_v(*v, *env, sc, scrut@, required@, pats@, i as int) == Ok::<
                (Seq<Symbol>, Seq<TypeV>),
                ExprTypeErrorV,
            >((covered@, types_view(ts@))),
        decreases pats@.len() - i,
    {
        let span = v[i + 1].span;
        let arm = match arm_pattern(env, &pats[i], span) {
            Ok(a) => a,
            Err(e) => {
                proof {
                    lemma_arms_err(*v, *env, sc, scrut@, required@, pats@, i + 1, pats@.len() as int);
                }
                return Err(e);
            },
        };
        let checked = match scrut {
            Scrutinee::Label(index) => check_label_arm(index, required, &mut covered, arm, span),
            Scrutinee::Union(s) => check_constructor_arm(s, &mut covered, arm, span),
        };
        match checked {
            Ok(()) => {},
            Err(e) => {
                proof {
                    lemma_arms_err(*v, *env, sc, scrut@, required@, pats@, i + 1, pats@.len() as int);
                }
                return Err(ExprTypeError::Match(e));
            },
        }
        proof {
            assert(decreases_to!(*v => v@[i + 1]));
        }
        let t = match infer_scoped(&v[i + 1], env, scope) {
            Ok(t) => t,
            Err(e) => {
                proof {
                    lemma_arms_err(*v, *env, sc, scrut@, required@, pats@, i + 1, pats@.len() as int);
                }
                return Err(e);
            },
        };
        let ghost prev = ts@;
        ts.push(t);
        proof {
            assert(types_view(ts@) =~= types_view(prev).push(t@));
        }
        i += 1;
    }
    Ok((covered, ts))
}

proof fn lemma_first_missing(required: Seq<Symbol>, covered: Seq<Symbol>, n: int)
    requires
        0 <= n <= required.len(),
    ensures
        first_missing(required, covered, n) is None <==> forall|k: int|
            0 <= k < n ==> covered.contains(#[trigger] required[k]),
        first_missing(required, covered, n) matches Some(k) ==> 0 <= k < n && !covered.contains(required[k])
            && forall|j: int| 0 <= j < k ==> covered.contains(#[trigger] required[j]),
    decreases n,
{
    if n > 0 {
        lemma_first_missing(required, covered, n - 1);
    }
}

proof fn lemma_coverage(required: Seq<Symbol>, covered: Seq<Symbol>, span: Span, r: Result<(), MatchArmError>)
    requires
        r is Ok <==> forall|k: int| 0 <= k < required.len() ==> covered.contains(#[trigger] required[k]),
        r matches Err(e) ==> exists|k: int|
            {
                &&& 0 <= k < required.len()
                &&& !covered.contains(#[trigger] required[k])
                &&& e@ == (MatchArmErrorV::NonExhaustive { missing: required[k], span })
                &&& forall|j: int| 0 <= j < k ==> covered.contains(#[trigger] required[j])
            },
    ensures
        match (r, coverage_v(required, covered, span)) {
            (Ok(()), Ok(())) => true,
            (Err(e), Err(f)) => e@ == f,
            _ => false,
        },
{
    lemma_first_missing(required, covered, required.len() as int);
    if let Err(e) = r {
        let k = choose|k: int|
            {
                &&& 0 <= k < required.len()
                &&& !covered.contains(#[trigger] required[k])
                &&& e@ == (MatchArmErrorV::NonExhaustive { missing: required[k], span })
                &&& forall|j: int| 0 <= j < k ==> covered.contains(#[trigger] required[j])
            };
        let m = first_missing(required, covered, required.len() as int)->Some_0;
        if m < k {
            assert(covered.contains(required[m]));
        } else if k < m {
            assert(covered.contains(required[k]));
        }
    }
}

proof fn lemma_first_mismatch(ts: Seq<TypeV>, n: int)
    requires
        1 <= n <= ts.len(),
    ensures
        first_mismatch(ts, n) is None <==> forall|i: int| 0 <= i < n ==> #[trigger] ts[i] == ts[0],
        first_mismatch(ts, n) matches Some(i) ==> 1 <= i < n && ts[i] != ts[0] && forall|j: int|
            0 <= j < i ==> #[trigger] ts[j] == ts[0],
    decreases n,
{
    if n > 1 {
        lemma_first_mismatch(ts, n - 1);
    }
}

proof fn lemma_arm_types(ts: Seq<InferredType>, spans: Seq<Span>, span: Span, r: Result<InferredType, TypeRuleError>)
    requires
        spans.len() == ts.len(),
        ts.len() == 0 ==> r == Err::<InferredType, TypeRuleError>(TypeRuleError::NoMatchArms { span }),
        r matches Ok(t) ==> ts.len() > 0 && t@ == ts[0]@ && forall|i: int|
            0 <= i < ts.len() ==> #[trigger] ts[i]@ == ts[0]@,
        r matches Err(e) ==> ts.len() == 0 || exists|i: int|
            1 <= i < ts.len() && ts[i]@ != ts[0]@ && (forall|j: int| 0 <= j < i ==> #[trigger] ts[j]@ == ts[0]@)
                && e == mm(MismatchReason::MatchArmMismatch, spans[i]),
    ensures
        match (r, arm_types_v(types_view(ts), spans, span)) {
            (Ok(t), Ok(v)) => t@ == v,
            (Err(e), Err(f)) => e == f,
            _ => false,
        },
{
    let tv = types_view(ts);
    if ts.len() > 0 {
        lemma_first_mismatch(tv, tv.len() as int);
        match r {
            Ok(t) => {
                assert forall|i: int| 0 <= i < tv.len() implies #[trigger] tv[i] == tv[0] by {
                    assert(ts[i]@ == ts[0]@);
                }
            },
            Err(e) => {
                let i = choose|i: int|
                    1 <= i < ts.len() && ts[i]@ != ts[0]@ && (forall|j: int|
                        0 <= j < i ==> #[trigger] ts[j]@ == ts[0]@) && e == mm(MismatchReason::MatchArmMismatch, spans[i]);
                assert(tv[i] != tv[0]);
                let m = first_mismatch(tv, tv.len() as int)->Some_0;
                if m < i {
                    assert(ts[m]@ == ts[0]@);
                } else if i < m {
                    assert(tv[i] == tv[0]);
                }
            },
        }
    }
}

fn arm_body_spans(v: &Vec<Expr>, n: usize) -> (r: Vec<Span>)
    requires
        n < v@.len(),
    ensures
        r@ == arm_spans(*v, n as int),
{
    let mut r: Vec<Span> = Vec::new();
    let mut i: usize = 0;
    while i < n
        invariant
            n < v@.len(),
            i <= n,
            r@ == arm_spans(*v, i as int),
        decreases n - i,
    {
        r.push(v[i + 1].span);
        i += 1;
        proof {
            assert(r@ =~= arm_spans(*v, i as int));
        }
    }
    r
}

fn infer_match(expr: &Expr, env: &TypingEnv, scope: &Vec<(u64, InferredType)>) -> (r: Result<
    InferredType,
    ExprTypeError,
>)
    requires
        expr.kind is Match,
    ensures
        same_typing(r, infer_in(*expr, *env, scope_view(scope@))),
    decreases expr, 0int,
{
    match &expr.kind {
        ExprKind::Match { patterns } => {
            if expr.operands.len() == 0 || expr.operands.len() - 1 != patterns.len() {
                return Err(ExprTypeError::Malformed { span: expr.span });
            }
            proof {
                assert(decreases_to!(*expr => expr.operands));
                assert(decreases_to!(expr.operands => expr.operands@[0]));
            }
            let st = infer_scoped(&expr.operands[0], env, scope)?;
            let (scrut, required) = scrutinee_of(env, &st, expr.operands[0].span)?;
            let (covered, ts) = match_arms(&expr.operands, env, scope, &scrut, &required, patterns)?;
            let cov = check_match_coverage(&required, &covered, expr.span);
            proof {
                lemma_coverage(required@, covered@, expr.span, cov);
            }
            match cov {
                Ok(()) => {},
                Err(e) => {
                    return Err(ExprTypeError::Match(e));
                },
            }
            let spans = arm_body_spans(&expr.operands, ts.len());
            let t = match_arms_rule(&ts, &spans, expr.span);
            proof {
                lemma_arm_types(ts@, spans@, expr.span, t);
            }
            match t {
                Ok(t) => Ok(t),
                Err(e) => Err(ExprTypeError::Rule(e)),
            }
        },
        _ => Err(ExprTypeError::Malformed { span: expr.span }),
    }
}

fn lookup_sig(s: &Vec<(BuiltinFnName, FunctionSignature)>, n: BuiltinFnName) -> (r: Option<usize>)
    ensures
        match (r, first_sig(s@, n)) {
            (Some(i), Some(j)) => i == j && i < s@.len(),
            (None, None) => true,
            _ => false,
        },
{
    let mut i: usize = 0;
    proof {
        assert(s@.subrange(0, s@.len() as int) =~= s@);
    }
    while i < s.len()
        invariant
            i <= s@.len(),
            first_sig(s@, n) == (match first_sig(s@.subrange(i as int, s@.len() as int), n) {
                Some(j) => Some(j + i),
                None => None::<int>,
            }),
        decreases s@.len() - i,
    {
        proof {
            let rest = s@.subrange(i as int, s@.len() as int);
            assert(rest.drop_first() =~= s@.subrange(i + 1, s@.len() as int));
        }
        if s[i].0 == n {
            return Some(i);
        }
        i += 1;
    }
    None
}

proof fn lemma_quantity_args_err(e: Expr, ts: Seq<TypeV>, k: int, m: int)
    requires
        0 <= k <= m <= ts.len(),
        quantity_args_v(e, ts, k) is Err,
    ensures
        quantity_args_v(e, ts, m) == quantity_args_v(e, ts, k),
    decreases m - k,
{
    if k < m {
        lemma_quantity_args_err(e, ts, k, m - 1);
    }
}

/// Types a call of a built-in function by its dimension signature.
fn registry_call(expr: &Expr, env: &TypingEnv, ts: &Vec<InferredType>, name: BuiltinFnName) -> (r: Result<
    InferredType,
    ExprTypeError,
>)
    requires
        ts@.len() == expr.operands@.len(),
    ensures
        same_typing(r, registry_v(*expr, *env, types_view(ts@), name)),
{
    let ghost tv = types_view(ts@);
    let k = match lookup_sig(&env.signatures, name) {
        Some(k) => k,
        None => {
            return Err(ExprTypeError::UnknownFunction { span: expr.span });
        },
    };
    let sig = &env.signatures[k].1;
    if ts.len() != sig.arity() {
        return Err(ExprTypeError::WrongArity { expected: sig.arity(), got: ts.len(), span: expr.span });
    }
    let mut args: Vec<(Dimension, Span)> = Vec::new();
    let mut i: usize = 0;
    proof {
        assert(sig_args_view(args@) =~= Seq::<(Seq<(int, int)>, Span)>::empty());
    }
    while i < ts.len()
        invariant
            k < env.signatures@.len(),
            first_sig(env.signatures@, name) == Some(k as int),
            *sig == env.signatures@[k as int].1,
            ts@.len() == sig.param_kinds().len(),
            i <= ts@.len(),
            ts@.len() == expr.operands@.len(),
            tv == types_view(ts@),
            quantity_args_v(*expr, tv, i as int) == Ok::<Seq<(Seq<(int, int)>, Span)>, TypeRuleError>(
                sig_args_view(args@),
            ),
        decreases ts@.len() - i,
    {
        let span = expr.operands[i].span;
        let d = match expect_quantity(&ts[i], span) {
            Ok(d) => d.clone(),
            Err(e) => {
                proof {
                    lemma_quantity_args_err(*expr, tv, i + 1, ts@.len() as int);
                }
                return Err(ExprTypeError::Rule(e));
            },
        };
        let ghost prev = args@;
        let ghost dv = d@;
        args.push((d, span));
        proof {
            assert(sig_args_view(args@) =~= sig_args_view(prev).push((dv, span)));
        }
        i += 1;
    }
    match infer_fn_dim(sig, &args, expr.span) {
        Ok(d) => Ok(InferredType::Quantity(d)),
        Err(e) => Err(ExprTypeError::Signature(e)),
    }
}

fn owner_ctor_positions(cs: &Vec<(ResolvedName, CtorDef)>, owner: StructTypeRef) -> (r: Vec<usize>)
    ensures
        r@.map_values(|i: usize| i as int) == owner_ctors(cs@, owner, cs@.len() as int),
        forall|i: int| 0 <= i < r@.len() ==> r@[i] < cs@.len(),
{
    let mut r: Vec<usize> = Vec::new();
    let mut i: usize = 0;
    while i < cs.len()
        invariant
            i <= cs@.len(),
            r@.map_values(|x: usize| x as int) == owner_ctors(cs@, owner, i as int),
            forall|x: int| 0 <= x < r@.len() ==> r@[x] < i,
        decreases cs@.len() - i,
    {
        if cs[i].1.owner == owner {
            let ghost prev = r@;
            r.push(i);
            proof {
                assert(r@.map_values(|x: usize| x as int) =~= prev.map_values(|x: usize| x as int).push(i as int));
            }
        }
        i += 1;
    }
    r
}

/// Types a field access on a value of the record type `owner<args>`.
fn field_type_of(
    env: &TypingEnv,
    owner: StructTypeRef,
    args: &Vec<InferredGenericArg>,
    field: Symbol,
    value_span: Span,
    span: Span,
) -> (r: Result<InferredType, ExprTypeError>)
    ensures
        same_typing(r, field_type_of_v(*env, owner, args_view(*args, args@.len() as int), field, value_span, span)),
{
    let ks = owner_ctor_positions(&env.constructors, owner);
    proof {
        assert(ks@.map_values(|i: usize| i as int).len() == ks@.len());
    }
    if ks.len() != 1 {
        return Err(ExprTypeError::NotAStruct { span: value_span });
    }
    proof {
        assert(ks@.map_values(|i: usize| i as int)[0] == ks@[0] as int);
    }
    let def = &env.constructors[ks[0]].1;
    let j = match lookup_field(&def.fields, field) {
        Some(j) => j,
        None => {
            return Err(ExprTypeError::UnknownField { field, span });
        },
    };
    match &def.fields[j].1 {
        CtorFieldType::Declared(d) => Ok(inferred_from_declared(d)),
        CtorFieldType::TypeParam(p) => {
            proof {
                lemma_args_view(*args, args@.len() as int);
            }
            if *p < args.len() {
                match &args[*p] {
                    InferredGenericArg::Type(t) => Ok(t.clone()),
                    _ => Err(ExprTypeError::Malformed { span }),
                }
            } else {
                Err(ExprTypeError::Malformed { span })
            }
        },
    }
}

fn lookup_dag(s: &Vec<(DagId, InlineDagInterface)>, n: DagId) -> (r: Option<usize>)
    ensures
        match (r, first_dag(s@, n)) {
            (Some(i), Some(j)) => i == j && i < s@.len(),
            (None, None) => true,
            _ => false,
        },
{
    let mut i: usize = 0;
    proof {
        assert(s@.subrange(0, s@.len() as int) =~= s@);
    }
    while i < s.len()
        invariant
            i <= s@.len(),
            first_dag(s@, n) == (match first_dag(s@.subrange(i as int, s@.len() as int), n) {
                Some(j) => Some(j + i),
                None => None::<int>,
            }),
        decreases s@.len() - i,
    {
        proof {
            let rest = s@.subrange(i as int, s@.len() as int);
            assert(rest.drop_first() =~= s@.subrange(i + 1, s@.len() as int));
        }
        if s[i].0 == n {
            return Some(i);
        }
        i += 1;
    }
    None
}

/// Two binding lists that agree on everything an inline call reads.
pub open spec fn same_bindings(b1: Seq<InlineDagBinding>, b2: Seq<InlineDagBinding>) -> bool {
    &&& b1.len() == b2.len()
    &&& forall|i: int|
        0 <= i < b1.len() ==> (#[trigger] b1[i]).target == b2[i].target && b1[i].target_span == b2[i].target_span
            && b1[i].value_span == b2[i].value_span && b1[i].found@ == b2[i].found@
}

proof fn lemma_bindings_congruent(ps: Seq<crate::inline_dag::InlineDagParam>, b1: Seq<InlineDagBinding>, b2: Seq<InlineDagBinding>, k: int)
    requires
        same_bindings(b1, b2),
        0 <= k <= b1.len(),
    ensures
        crate::inline_dag::bindings_v(ps, b1, k) == crate::inline_dag::bindings_v(ps, b2, k),
    decreases k,
{
    if k > 0 {
        lemma_bindings_congruent(ps, b1, b2, k - 1);
        assert(b1[k - 1].target == b2[k - 1].target);
    }
}

proof fn lemma_missing_congruent(ps: Seq<crate::inline_dag::InlineDagParam>, b1: Seq<InlineDagBinding>, b2: Seq<InlineDagBinding>, n: int)
    requires
        same_bindings(b1, b2),
        0 <= n <= ps.len(),
    ensures
        crate::inline_dag::missing_v(ps, b1, n) == crate::inline_dag::missing_v(ps, b2, n),
    decreases n,
{
    if n > 0 {
        lemma_missing_congruent(ps, b1, b2, n - 1);
        let name = ps[n - 1].name;
        if crate::inline_dag::is_bound(b1, name) {
            let k = choose|k: int| 0 <= k < b1.len() && #[trigger] b1[k].target == name;
            assert(b2[k].target == name);
        }
        if crate::inline_dag::is_bound(b2, name) {
            let k = choose|k: int| 0 <= k < b2.len() && #[trigger] b2[k].target == name;
            assert(b1[k].target == name);
        }
    }
}

/// Checks the bindings of an inline DAG call whose values have the types
/// `ts`, then types the projected declaration.
fn dag_call(
    expr: &Expr,
    env: &TypingEnv,
    k: usize,
    ts: Vec<InferredType>,
    targets: &Vec<Symbol>,
    output: Symbol,
) -> (r: Result<InferredType, ExprTypeError>)
    requires
        k < env.dags@.len(),
        ts@.len() == expr.operands@.len(),
        targets@.len() == ts@.len(),
    ensures
        same_typing(r, dag_call_v(env.dags@[k as int].1, targets@, expr.operands, types_view(ts@), output, expr.span)),
{
    let ghost tv = types_view(ts@);
    let mut bs: Vec<InlineDagBinding> = Vec::new();
    let mut i: usize = 0;
    while i < ts.len()
        invariant
            ts@.len() == expr.operands@.len(),
            targets@.len() == ts@.len(),
            i <= ts@.len(),
            bs@.len() == i,
            forall|j: int|
                0 <= j < i ==> (#[trigger] bs@[j]).target == targets@[j] && bs@[j].target_span
                    == expr.operands@[j].span && bs@[j].value_span == expr.operands@[j].span && bs@[j].found@
                    == ts@[j]@,
        decreases ts@.len() - i,
    {
        let span = expr.operands[i].span;
        bs.push(InlineDagBinding { target: targets[i], target_span: span, value_span: span, found: ts[i].clone() });
        i += 1;
    }
    proof {
        let spec_bs = dag_bindings_v(targets@, expr.operands, tv);
        assert forall|j: int| 0 <= j < spec_bs.len() implies spec_bs[j].found@ == tv[j] by {
            assert(ts@[j]@ == tv[j]);
        }
        assert(same_bindings(bs@, spec_bs));
        let d = env.dags@[k as int].1;
        lemma_bindings_congruent(d.params@, bs@, spec_bs, bs@.len() as int);
        lemma_missing_congruent(d.params@, bs@, spec_bs, d.params@.len() as int);
    }
    match inline_dag_output_type(&env.dags[k].1, &bs, output, expr.span, expr.span) {
        Err(e) => Err(ExprTypeError::InlineDag(e)),
        Ok(rt) => match resolved_to_inferred(rt) {
            Some(t) => Ok(t),
            None => Err(ExprTypeError::UnresolvedOutput { span: expr.span }),
        },
    }
}

/// Types the operands in order; the first that fails decides.
fn infer_operands(v: &Vec<Expr>, env: &TypingEnv, scope: &Vec<(u64, InferredType)>) -> (r: Result<
    Vec<InferredType>,
    ExprTypeError,
>)
    ensures
        match (r, operands_v(*v, *env, scope_view(scope@), v@.len() as int)) {
            (Ok(ts), Ok(s)) => types_view(ts@) == s && ts@.len() == v@.len(),
            (Err(e), Err(f)) => e@ == f,
            _ => false,
        },
    decreases v, 0int,
{
    let mut ts: Vec<InferredType> = Vec::new();
    let mut i: usize = 0;
    proof {
        assert(types_view(ts@) =~= Seq::<TypeV>::empty());
    }
    while i < v.len()
        invariant
            i <= v@.len(),
            ts@.len() == i,
            operands_v(*v, *env, scope_view(scope@), i as int) == Ok::<Seq<TypeV>, ExprTypeErrorV>(types_view(ts@)),
        decreases v@.len() - i,
    {
        proof {
            assert(decreases_to!(*v => v@[i as int]));
        }
        match infer_scoped(&v[i], env, scope) {
            Ok(t) => {
                proof {
                    assert(types_view(ts@.push(t)) =~= types_view(ts@).push(t@));
                }
                ts.push(t);
            },
            Err(e) => {
                proof {
                    lemma_operands_err(*v, *env, scope_view(scope@), i as int + 1, v@.len() as int);
                }
                return Err(e);
            },
        }
        i += 1;
    }
    Ok(ts)
}

fn operand_at(expr: &Expr, ts: &Vec<InferredType>, i: usize) -> (o: Operand)
    requires
        i < ts@.len(),
        ts@.len() == expr.operands@.len(),
    ensures
        o.ty@ == ts@[i as int]@,
        o.span == expr.operands@[i as int].span,
{
    Operand { ty: ts[i].clone(), span: expr.operands[i].span }
}

fn all_operands(expr: &Expr, ts: &Vec<InferredType>) -> (r: Vec<Operand>)
    requires
        ts@.len() == expr.operands@.len(),
    ensures
        operand_views(r@) == typed_operands(*expr, types_view(ts@)),
{
    let mut r: Vec<Operand> = Vec::new();
    let mut i: usize = 0;
    while i < ts.len()
        invariant
            i <= ts@.len(),
            ts@.len() == expr.operands@.len(),
            r@.len() == i,
            forall|j: int|
                0 <= j < i ==> (#[trigger] r@[j]).ty@ == ts@[j]@ && r@[j].span == expr.operands@[j].span,
        decreases ts@.len() - i,
    {
        let o = operand_at(expr, ts, i);
        r.push(o);
        i += 1;
    }
    proof {
        assert(operand_views(r@) =~= typed_operands(*expr, types_view(ts@)));
    }
    r
}

fn access_args(expr: &Expr, env: &TypingEnv, ts: &Vec<InferredType>, args: &Vec<IndexArg>) -> (r: Result<
    Vec<IndexAccessArg>,
    ExprTypeError,
>)
    requires
        ts@.len() == expr.operands@.len(),
    ensures
        match (r, access_args_v(*expr, *env, types_view(ts@), args@, args@.len() as int)) {
            (Ok(a), Ok(v)) => a@.map_values(|x: IndexAccessArg| access_arg_view(x)) == v,
            (Err(e), Err(f)) => e@ == f,
            _ => false,
        },
{
    let ghost tv = types_view(ts@);
    let mut out: Vec<IndexAccessArg> = Vec::new();
    let mut i: usize = 0;
    proof {
        assert(out@.map_values(|x: IndexAccessArg| access_arg_view(x)) =~= Seq::<AccessArgV>::empty());
    }
    while i < args.len()
        invariant
            i <= args@.len(),
            ts@.len() == expr.operands@.len(),
            tv == types_view(ts@),
            access_args_v(*expr, *env, tv, args@, i as int) == Ok::<Seq<AccessArgV>, ExprTypeErrorV>(
                out@.map_values(|x: IndexAccessArg| access_arg_view(x)),
            ),
        decreases args@.len() - i,
    {
        let a = match args[i] {
            IndexArg::Operand(k) => {
                if k < 1 || k >= ts.len() {
                    proof {
                        lemma_access_args_err(*expr, *env, tv, args@, i as int + 1, args@.len() as int);
                    }
                    return Err(ExprTypeError::Malformed { span: expr.span });
                }
                let o = &expr.operands[k];
                let ty = ts[k].clone();
                match &o.kind {
                    ExprKind::LocalRef(_) => IndexAccessArg::Local { ty, span: o.span },
                    _ => IndexAccessArg::Expr { ty, span: o.span },
                }
            },
            IndexArg::Variant(nm) => match lookup(&env.variants, nm) {
                Some(j) => IndexAccessArg::Variant {
                    index: InferredIndex::from_resolved(env.variants[j].1),
                    span: expr.span,
                },
                None => {
                    proof {
                        lemma_access_args_err(*expr, *env, tv, args@, i as int + 1, args@.len() as int);
                    }
                    return Err(ExprTypeError::UnknownVariant { span: expr.span });
                },
            },
        };
        proof {
            assert(out@.push(a).map_values(|x: IndexAccessArg| access_arg_view(x)) =~= out@.map_values(
                |x: IndexAccessArg| access_arg_view(x),
            ).push(access_arg_view(a)));
        }
        out.push(a);
        i += 1;
    }
    Ok(out)
}

/// Types one node from its operands' types.
fn node_type(expr: &Expr, env: &TypingEnv, ts: &Vec<InferredType>) -> (r: Result<InferredType, ExprTypeError>)
    requires
        ts@.len() == expr.operands@.len(),
    ensures
        same_typing(r, node_v(*expr, *env, types_view(ts@))),
{
    let ghost tv = types_view(ts@);
    match &expr.kind {
        ExprKind::BinOp(op) => {
            if ts.len() != 2 {
                return Err(ExprTypeError::Malformed { span: expr.span });
            }
            let l = operand_at(expr, ts, 0);
            let rr = operand_at(expr, ts, 1);
            match infer_binop_from_operands(expr.span, *op, &l, &rr, &expr.operands[1]) {
                Ok(t) => Ok(t),
                Err(TypeRuleError::IndexedComparisonOperand { span }) => {
                    let found = match &ts[0] {
                        InferredType::Indexed { .. } => ts[0].clone(),
                        _ => ts[1].clone(),
                    };
                    Err(ExprTypeError::IndexedComparison { found, span })
                },
                Err(e) => Err(ExprTypeError::Rule(e)),
            }
        },
        ExprKind::UnaryOp(op) => {
            if ts.len() != 1 {
                return Err(ExprTypeError::Malformed { span: expr.span });
            }
            let o = operand_at(expr, ts, 0);
            match unary_rule(*op, &o) {
                Ok(t) => Ok(t),
                Err(e) => Err(ExprTypeError::Rule(e)),
            }
        },
        ExprKind::If => {
            if ts.len() != 3 {
                return Err(ExprTypeError::Malformed { span: expr.span });
            }
            let c = operand_at(expr, ts, 0);
            let a = operand_at(expr, ts, 1);
            let b = operand_at(expr, ts, 2);
            match if_rule(&c, &a, &b) {
                Ok(t) => Ok(t),
                Err(e) => Err(ExprTypeError::Rule(e)),
            }
        },
        ExprKind::Convert { target } => {
            if ts.len() != 1 {
                return Err(ExprTypeError::Malformed { span: expr.span });
            }
            let d = unit_dims(&env.units, target, expr.span)?;
            let o = operand_at(expr, ts, 0);
            match convert_rule(&o, &d, expr.span) {
                Ok(t) => Ok(t),
                Err(e) => Err(ExprTypeError::Rule(e)),
            }
        },
        ExprKind::IndexAccess { args } => {
            if ts.len() < 1 {
                return Err(ExprTypeError::Malformed { span: expr.span });
            }
            let built = access_args(expr, env, ts, args)?;
            proof {
                lemma_access_views(env.axis_defs@, tv[0], built@, 0, expr.span);
            }
            match index_access_type(&ts[0], &built, &env.axis_defs, expr.span) {
                Ok(t) => Ok(t),
                Err(e) => Err(ExprTypeError::Access(e)),
            }
        },
        ExprKind::FieldAccess { field } => {
            if ts.len() != 1 {
                return Err(ExprTypeError::Malformed { span: expr.span });
            }
            match &ts[0] {
                InferredType::Struct(st, args) => field_type_of(
                    env,
                    *st.type_ref(),
                    args,
                    *field,
                    expr.operands[0].span,
                    expr.span,
                ),
                _ => Err(ExprTypeError::NotAStruct { span: expr.operands[0].span }),
            }
        },
        ExprKind::FnCall(FunctionRef::Builtin(name)) => match type_rule_for_builtin(*name) {
            BuiltinTypeRule::CollectionAggregation(kind) => {
                if ts.len() != 1 {
                    return registry_call(expr, env, ts, *name);
                }
                let o = operand_at(expr, ts, 0);
                match aggregation_rule(kind, &o) {
                    Some(Ok(t)) => Ok(t),
                    Some(Err(e)) => Err(ExprTypeError::Aggregation(e)),
                    None => registry_call(expr, env, ts, *name),
                }
            },
            BuiltinTypeRule::TypeConversion(kind) => {
                let ops = all_operands(expr, ts);
                match type_conversion_rule(kind, &ops, expr.span) {
                    Ok(t) => Ok(t),
                    Err(e) => Err(ExprTypeError::Conversion(e)),
                }
            },
            BuiltinTypeRule::TimeScaleConversion(scale) => {
                if ts.len() != 1 {
                    return Err(ExprTypeError::WrongArity { expected: 1, got: ts.len(), span: expr.span });
                }
                let o = operand_at(expr, ts, 0);
                match time_scale_conversion_rule(&o, scale) {
                    Ok(t) => Ok(t),
                    Err(e) => Err(ExprTypeError::Rule(e)),
                }
            },
            BuiltinTypeRule::RegistrySignature => registry_call(expr, env, ts, *name),
            BuiltinTypeRule::DatetimeExtract => datetime_unary(expr, &ts, InferredType::Int),
            BuiltinTypeRule::DatetimeToNumeric => {
                let d = Dimension::dimensionless();
                proof {
                    assert(d@ =~= Seq::<(int, int)>::empty());
                }
                datetime_unary(expr, &ts, InferredType::Quantity(d))
            },
            BuiltinTypeRule::DatetimeFromNumeric => {
                if ts.len() != 1 {
                    return Err(ExprTypeError::WrongArity { expected: 1, got: ts.len(), span: expr.span });
                }
                proof {
                    assert(tv[0] == ts@[0]@);
                }
                let numeric = match &ts[0] {
                    InferredType::Quantity(d) => {
                        let b = d.is_dimensionless();
                        proof {
                            if b {
                                assert(d@ =~= Seq::<(int, int)>::empty());
                            }
                        }
                        b
                    },
                    InferredType::Int | InferredType::Fin(_) => true,
                    _ => false,
                };
                if numeric {
                    Ok(InferredType::Datetime(TimeScale::UTC))
                } else {
                    Err(
                        ExprTypeError::Rule(
                            TypeRuleError::Mismatch {
                                reason: MismatchReason::DatetimeFromNotNumeric,
                                span: expr.operands[0].span,
                            },
                        ),
                    )
                }
            },
            _ => Err(ExprTypeError::Unsupported { span: expr.span }),
        },
        _ => Err(ExprTypeError::Unsupported { span: expr.span }),
    }
}

fn datetime_unary(expr: &Expr, ts: &Vec<InferredType>, result: InferredType) -> (r: Result<InferredType, ExprTypeError>)
    requires
        ts@.len() == expr.operands@.len(),
    ensures
        same_typing(r, datetime_unary_v(*expr, types_view(ts@), result@)),
{
    if ts.len() != 1 {
        return Err(ExprTypeError::WrongArity { expected: 1, got: ts.len(), span: expr.span });
    }
    proof {
        assert(types_view(ts@)[0] == ts@[0]@);
    }
    match &ts[0] {
        InferredType::Datetime(_) => Ok(result),
        _ => Err(
            ExprTypeError::Rule(
                TypeRuleError::Mismatch { reason: MismatchReason::DatetimeArgumentNotDatetime, span: expr.operands[0].span },
            ),
        ),
    }
}

/// A declaration to check: its annotation and, unless it is a parameter
/// without a default, its body.
#[derive(Debug)]
pub struct Declaration {
    pub name: ResolvedName,
    pub annotation: DeclaredType,
    pub annotation_span: Span,
    pub body: Option<Expr>,
}

/// Why a declaration is rejected.
#[derive(Debug, PartialEq, Eq)]
pub enum DimError {
    /// Its body does not type.
    Expr { name: ResolvedName, error: ExprTypeError },
    /// Its body types, but not as its annotation says.
    AnnotationMismatch { name: ResolvedName, span: Span, inferred: InferredType },
}

/// Value-level view of a rejection.
pub enum DimErrorV {
    Expr { name: ResolvedName, error: ExprTypeErrorV },
    AnnotationMismatch { name: ResolvedName, span: Span, inferred: TypeV },
}

impl View for DimError {
    type V = DimErrorV;

    open spec fn view(&self) -> DimErrorV {
        match *self {
            DimError::Expr { name, error } => DimErrorV::Expr { name, error: error@ },
            DimError::AnnotationMismatch { name, span, inferred } => DimErrorV::AnnotationMismatch {
                name,
                span,
                inferred: inferred@,
            },
        }
    }
}

/// The check of one declaration.
pub open spec fn decl_check_v(d: Declaration, env: TypingEnv) -> Result<(), DimErrorV> {
    match d.body {
        None => Ok(()),
        Some(b) => match infer_v(b, env) {
            Err(e) => Err(DimErrorV::Expr { name: d.name, error: e }),
            Ok(t) => if types_match_v(d.annotation@, t) {
                Ok(())
            } else {
                Err(DimErrorV::AnnotationMismatch { name: d.name, span: d.annotation_span, inferred: t })
            },
        },
    }
}

/// The check of the first `n` declarations, in order: the first rejection decides.
pub open spec fn program_v(decls: Seq<Declaration>, env: TypingEnv, n: int) -> Result<(), DimErrorV>
    decreases n,
{
    if n <= 0 || n > decls.len() {
        Ok(())
    } else {
        match program_v(decls, env, n - 1) {
            Err(e) => Err(e),
            Ok(()) => decl_check_v(decls[n - 1], env),
        }
    }
}

proof fn lemma_program_err(decls: Seq<Declaration>, env: TypingEnv, k: int, m: int)
    requires
        0 <= k <= m <= decls.len(),
        program_v(decls, env, k) is Err,
    ensures
        program_v(decls, env, m) == program_v(decls, env, k),
    decreases m - k,
{
    if k < m {
        lemma_program_err(decls, env, k, m - 1);
    }
}

/// Checks one declaration: its body must type, and as its annotation says.
pub fn check_declaration(d: &Declaration, env: &TypingEnv) -> (r: Result<(), DimError>)
    ensures
        match (r, decl_check_v(*d, *env)) {
            (Ok(()), Ok(())) => true,
            (Err(e), Err(f)) => e@ == f,
            _ => false,
        },
{
    match &d.body {
        None => Ok(()),
        Some(b) => match infer_expr_type(b, env) {
            Err(error) => Err(DimError::Expr { name: d.name, error }),
            Ok(t) => if types_match(&d.annotation, &t) {
                Ok(())
            } else {
                Err(DimError::AnnotationMismatch { name: d.name, span: d.annotation_span, inferred: t })
            },
        },
    }
}

/// Checks every declaration in order and reports the first rejection.
pub fn check_dimensions(decls: &Vec<Declaration>, env: &TypingEnv) -> (r: Result<(), DimError>)
    ensures
        match (r, program_v(decls@, *env, decls@.len() as int)) {
            (Ok(()), Ok(())) => true,
            (Err(e), Err(f)) => e@ == f,
            _ => false,
        },
{
    let mut i: usize = 0;
    while i < decls.len()
        invariant
            i <= decls@.len(),
            program_v(decls@, *env, i as int) == Ok::<(), DimErrorV>(()),
        decreases decls@.len() - i,
    {
        match check_declaration(&decls[i], env) {
            Ok(()) => {},
            Err(e) => {
                proof {
                    lemma_program_err(decls@, *env, i as int + 1, decls@.len() as int);
                }
                return Err(e);
            },
        }
        i += 1;
    }
    Ok(())
}

/// The node kinds typed from their operands' types.
pub open spec fn typed_from_operands(k: ExprKind) -> bool {
    ||| k is BinOp || k is UnaryOp || k is If || k is Convert || k is IndexAccess || k is FieldAccess
    ||| k is FnCall && k != ExprKind::FnCall(FunctionRef::Builtin(BuiltinFnName::Datetime)) && k
        != ExprKind::FnCall(FunctionRef::Builtin(BuiltinFnName::Epoch))
}

/// Why an override value is refused for a parameter.
#[derive(Debug, PartialEq, Eq)]
pub enum OverrideError {
    /// No declaration of that name.
    UnknownParam,
    /// The value does not type.
    Expr(ExprTypeError),
    /// The value types, but not as the parameter is declared.
    DimensionMismatch { span: Span, inferred: InferredType },
}

/// Value-level view of a refused override.
pub enum OverrideErrorV {
    UnknownParam,
    Expr(ExprTypeErrorV),
    DimensionMismatch { span: Span, inferred: TypeV },
}

impl View for OverrideError {
    type V = OverrideErrorV;

    open spec fn view(&self) -> OverrideErrorV {
        match *self {
            OverrideError::UnknownParam => OverrideErrorV::UnknownParam,
            OverrideError::Expr(e) => OverrideErrorV::Expr(e@),
            OverrideError::DimensionMismatch { span, inferred } => OverrideErrorV::DimensionMismatch {
                span,
                inferred: inferred@,
            },
        }
    }
}

/// The check of an override value for parameter `param`.
pub open spec fn override_v(e: Expr, param: ResolvedName, env: TypingEnv) -> Result<(), OverrideErrorV> {
    match first_key(env.decls@, param) {
        None => Err(OverrideErrorV::UnknownParam),
        Some(k) => match infer_v(e, env) {
            Err(err) => Err(OverrideErrorV::Expr(err)),
            Ok(t) => if types_match_v(env.decls@[k].1@, t) {
                Ok(())
            } else {
                Err(OverrideErrorV::DimensionMismatch { span: e.span, inferred: t })
            },
        },
    }
}

/// Checks a value supplied to override a parameter against the parameter's
/// declared type.
pub fn check_override_dimension(expr: &Expr, param: ResolvedName, env: &TypingEnv) -> (r: Result<
    (),
    OverrideError,
>)
    ensures
        match (r, override_v(*expr, param, *env)) {
            (Ok(()), Ok(())) => true,
            (Err(e), Err(f)) => e@ == f,
            _ => false,
        },
{
    let k = match lookup(&env.decls, param) {
        Some(k) => k,
        None => {
            return Err(OverrideError::UnknownParam);
        },
    };
    match infer_expr_type(expr, env) {
        Err(e) => Err(OverrideError::Expr(e)),
        Ok(t) => if types_match(&env.decls[k].1, &t) {
            Ok(())
        } else {
            Err(OverrideError::DimensionMismatch { span: expr.span, inferred: t })
        },
    }
}

} // verus!