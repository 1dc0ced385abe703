//! Concrete nominal-type checks for transport-independent model schemas.
//!
//! A model schema is expanded only for a union type whose generic application
//! has the right arity, the right sort for every argument, and only concrete
//! arguments: constant Nat forms, indexes that are bound, and nested types
//! that are themselves valid concrete applications.  The domain bounds of its
//! fields are then checked against the field types with the arguments
//! substituted.

use crate::declared::{
    darg_view, dargs_view, inferred_from_declared, lemma_dargs_view, DeclaredGenericArg, DeclaredType,
};
use crate::domain_bounds::{
    bound_check_v, check_bound_type, expected_bound_from_inferred, expected_bound_v, DomainBoundError,
};
use crate::rules::Span;
use crate::types::InferredType;
use crate::index::{MAX_INDEX_CARDINALITY, IndexRefV, IndexTypeRef, ResolvedName, StructTypeRef, Symbol};
use crate::types::{ArgV, TypeV};
use vstd::prelude::*;

verus! {

broadcast use vstd::std_specs::vec::axiom_vec_index_decreases;

/// The sort a generic parameter accepts.
#[derive(Clone, Copy, Debug, PartialEq, Eq, Structural)]
pub enum TypeGenericConstraint {
    Dim,
    Index,
    Nat,
    Type,
}

/// One generic parameter of a type definition.
#[derive(Clone, Copy, Debug, PartialEq, Eq, Structural)]
pub struct GenericParam {
    pub name: Symbol,
    pub constraint: TypeGenericConstraint,
}

/// The type of a field, as written in its definition.
#[derive(Debug)]
pub enum FieldType {
    /// A type that mentions no generic parameter.
    Declared(DeclaredType),
    /// A quantity of the dimension given by the generic parameter at this
    /// position.
    DimParam(usize),
}

/// One domain bound of a field: the type its expression was checked to have.
#[derive(Debug)]
pub struct FieldBound {
    pub value: InferredType,
    pub span: Span,
}

/// One field of a union member.
#[derive(Debug)]
pub struct FieldDef {
    pub name: Symbol,
    pub field_type: FieldType,
    pub bounds: Vec<FieldBound>,
}

/// One constructor of a union type.
#[derive(Debug)]
pub struct UnionMemberDef {
    pub name: Symbol,
    pub fields: Vec<FieldDef>,
}

/// What a type definition declares.
#[derive(Debug)]
pub enum TypeDefKind {
    /// An algebraic union of constructors.
    Union { members: Vec<UnionMemberDef> },
    /// A required type that a binding must supply.
    Required,
}

/// A nominal type definition.
#[derive(Debug)]
pub struct TypeDef {
    pub generic_params: Vec<GenericParam>,
    pub kind: TypeDefKind,
}

/// An index definition; a required index must be bound by the caller.
#[derive(Clone, Copy, Debug, PartialEq, Eq, Structural)]
pub struct IndexDef {
    pub required: bool,
}

/// The type and index definitions visible to schema expansion.
#[derive(Debug)]
pub struct SchemaEnv {
    pub struct_types: Vec<(ResolvedName, TypeDef)>,
    pub index_defs: Vec<(ResolvedName, IndexDef)>,
}

/// Failure to construct a checked concrete type for model-schema expansion.
#[derive(Debug)]
pub enum ConcreteModelTypeError {
    UnknownType { identity: StructTypeRef },
    RequiredType { identity: StructTypeRef },
    GenericArityMismatch { identity: StructTypeRef, expected: usize, actual: usize },
    GenericSortMismatch {
        identity: StructTypeRef,
        parameter: Symbol,
        expected: TypeGenericConstraint,
        actual: TypeGenericConstraint,
    },
    NonConcreteGenericArgument { identity: StructTypeRef, parameter: Symbol },
    IndexTypeArgument { identity: StructTypeRef, parameter: Symbol },
    IndexedTypeArgument { identity: StructTypeRef, parameter: Symbol },
    NonConcreteIndex { index: IndexTypeRef },
    UnknownIndex { index: IndexTypeRef },
    RequiredIndex { index: IndexTypeRef },
    /// A bounded field whose substituted type carries no numeric bounds.
    InvalidDomainTarget { identity: StructTypeRef, field: Symbol, span: Span },
    /// A bound that does not fit its field's substituted type.
    DomainBound { identity: StructTypeRef, field: Symbol, error: DomainBoundError, span: Span },
    /// A field typed by a dimension parameter whose argument is not a dimension.
    MissingFieldType { identity: StructTypeRef, field: Symbol },
}

/// Value-level view of a schema error.
pub enum SchemaErrV {
    UnknownType { identity: StructTypeRef },
    RequiredType { identity: StructTypeRef },
    GenericArityMismatch { identity: StructTypeRef, expected: usize, actual: usize },
    GenericSortMismatch {
        identity: StructTypeRef,
        parameter: Symbol,
        expected: TypeGenericConstraint,
        actual: TypeGenericConstraint,
    },
    NonConcreteGenericArgument { identity: StructTypeRef, parameter: Symbol },
    IndexTypeArgument { identity: StructTypeRef, parameter: Symbol },
    IndexedTypeArgument { identity: StructTypeRef, parameter: Symbol },
    NonConcreteIndex { index: IndexRefV },
    UnknownIndex { index: IndexRefV },
    RequiredIndex { index: IndexRefV },
    InvalidDomainTarget { identity: StructTypeRef, field: Symbol, span: Span },
    DomainBound { identity: StructTypeRef, field: Symbol, error: DomainBoundError, span: Span },
    MissingFieldType { identity: StructTypeRef, field: Symbol },
}

impl View for ConcreteModelTypeError {
    type V = SchemaErrV;

    open spec fn view(&self) -> SchemaErrV {
        match *self {
            ConcreteModelTypeError::UnknownType { identity } => SchemaErrV::UnknownType { identity },
            ConcreteModelTypeError::RequiredType { identity } => SchemaErrV::RequiredType { identity },
            ConcreteModelTypeError::GenericArityMismatch { identity, expected, actual } => {
                SchemaErrV::GenericArityMismatch { identity, expected, actual }
            },
            ConcreteModelTypeError::GenericSortMismatch { identity, parameter, expected, actual } => {
                SchemaErrV::GenericSortMismatch { identity, parameter, expected, actual }
            },
            ConcreteModelTypeError::NonConcreteGenericArgument { identity, parameter } => {
                SchemaErrV::NonConcreteGenericArgument { identity, parameter }
            },
            ConcreteModelTypeError::IndexTypeArgument { identity, parameter } => {
                SchemaErrV::IndexTypeArgument { identity, parameter }
            },
            ConcreteModelTypeError::IndexedTypeArgument { identity, parameter } => {
                SchemaErrV::IndexedTypeArgument { identity, parameter }
            },
            ConcreteModelTypeError::NonConcreteIndex { index } => SchemaErrV::NonConcreteIndex {
                index: index@,
            },
            ConcreteModelTypeError::UnknownIndex { index } => SchemaErrV::UnknownIndex { index: index@ },
            ConcreteModelTypeError::RequiredIndex { index } => SchemaErrV::RequiredIndex {
                index: index@,
            },
            ConcreteModelTypeError::InvalidDomainTarget { identity, field, span } => {
                SchemaErrV::InvalidDomainTarget { identity, field, span }
            },
            ConcreteModelTypeError::DomainBound { identity, field, error, span } => {
                SchemaErrV::DomainBound { identity, field, error, span }
            },
            ConcreteModelTypeError::MissingFieldType { identity, field } => SchemaErrV::MissingFieldType {
                identity,
                field,
            },
        }
    }
}

/// The first definition registered under a name.
pub open spec fn find_type_v(defs: Seq<(ResolvedName, TypeDef)>, r: ResolvedName) -> Option<int>
    decreases defs.len(),
{
    if defs.len() == 0 {
        None
    } else if defs[0].0 == r {
        Some(0)
    } else {
        match find_type_v(defs.drop_first(), r) {
            Some(i) => Some(i + 1),
            None => None,
        }
    }
}

pub open spec fn find_index_v(defs: Seq<(ResolvedName, IndexDef)>, r: ResolvedName) -> Option<IndexDef>
    decreases defs.len(),
{
    if defs.len() == 0 {
        None
    } else if defs[0].0 == r {
        Some(defs[0].1)
    } else {
        find_index_v(defs.drop_first(), r)
    }
}

pub open spec fn arg_sort_v(a: ArgV) -> TypeGenericConstraint {
    match a {
        ArgV::Dim(_) => TypeGenericConstraint::Dim,
        ArgV::Index(_) => TypeGenericConstraint::Index,
        ArgV::Nat(_) => TypeGenericConstraint::Nat,
        ArgV::Type(_) => TypeGenericConstraint::Type,
    }
}

/// An index argument is concrete: a constant `range(n)` or a bound declared index.
pub open spec fn index_valid_v(env: SchemaEnv, i: IndexRefV) -> Result<(), SchemaErrV> {
    match i {
        IndexRefV::NatRange(f) => if f.1.len() == 0 && 1 <= f.0 <= MAX_INDEX_CARDINALITY {
            Ok(())
        } else {
            Err(SchemaErrV::NonConcreteIndex { index: i })
        },
        IndexRefV::Declared(r) => match find_index_v(env.index_defs@, r) {
            None => Err(SchemaErrV::UnknownIndex { index: i }),
            Some(d) => if d.required {
                Err(SchemaErrV::RequiredIndex { index: i })
            } else {
                Ok(())
            },
        },
    }
}

/// A nominal application is a valid concrete model type.
pub open spec fn valid_model_v(env: SchemaEnv, identity: StructTypeRef, args: Seq<ArgV>) -> Result<
    (),
    SchemaErrV,
>
    decreases args, args.len() + 1,
{
    match find_type_v(env.struct_types@, identity.spec_resolved()) {
        None => Err(SchemaErrV::UnknownType { identity }),
        Some(k) => {
            let def = env.struct_types@[k].1;
            if def.kind is Required {
                Err(SchemaErrV::RequiredType { identity })
            } else if def.generic_params@.len() != args.len() {
                Err(
                    SchemaErrV::GenericArityMismatch {
                        identity,
                        expected: def.generic_params@.len() as usize,
                        actual: args.len() as usize,
                    },
                )
            } else {
                check_params_v(env, identity, def.generic_params@, args, 0)
            }
        },
    }
}

/// Parameters `k..` accept their arguments.
pub open spec fn check_params_v(
    env: SchemaEnv,
    identity: StructTypeRef,
    params: Seq<GenericParam>,
    args: Seq<ArgV>,
    k: int,
) -> Result<(), SchemaErrV>
    decreases args, args.len() - k,
{
    if k < 0 || k >= args.len() || k >= params.len() {
        Ok(())
    } else if arg_sort_v(args[k]) != params[k].constraint {
        Err(
            SchemaErrV::GenericSortMismatch {
                identity,
                parameter: params[k].name,
                expected: params[k].constraint,
                actual: arg_sort_v(args[k]),
            },
        )
    } else {
        match valid_arg_v(env, identity, params[k].name, args[k]) {
            Err(e) => Err(e),
            Ok(_) => check_params_v(env, identity, params, args, k + 1),
        }
    }
}

pub open spec fn valid_arg_v(env: SchemaEnv, identity: StructTypeRef, parameter: Symbol, a: ArgV) -> Result<
    (),
    SchemaErrV,
>
    decreases a, 0int,
{
    match a {
        ArgV::Dim(_) => Ok(()),
        ArgV::Index(i) => index_valid_v(env, i),
        ArgV::Nat(f) => if f.1.len() == 0 {
            Ok(())
        } else {
            Err(SchemaErrV::NonConcreteGenericArgument { identity, parameter })
        },
        ArgV::Type(t) => valid_type_arg_v(env, identity, parameter, *t),
    }
}

pub open spec fn valid_type_arg_v(env: SchemaEnv, identity: StructTypeRef, parameter: Symbol, t: TypeV) -> Result<
    (),
    SchemaErrV,
>
    decreases t, 0int,
{
    match t {
        TypeV::Struct(nested, nargs) => valid_model_v(env, nested, nargs),
        TypeV::Key(i) => index_valid_v(env, i),
        TypeV::IndexArg(_) => Err(SchemaErrV::IndexTypeArgument { identity, parameter }),
        TypeV::Indexed(_, _) => Err(SchemaErrV::IndexedTypeArgument { identity, parameter }),
        _ => Ok(()),
    }
}

pub open spec fn same_unit(r: Result<(), ConcreteModelTypeError>, s: Result<(), SchemaErrV>) -> bool {
    match (r, s) {
        (Ok(_), Ok(_)) => true,
        (Err(e), Err(f)) => e@ == f,
        _ => false,
    }
}

fn find_type<'a>(defs: &'a Vec<(ResolvedName, TypeDef)>, r: ResolvedName) -> (o: Option<usize>)
    ensures
        match (o, find_type_v(defs@, r)) {
            (Some(i), Some(j)) => i == j && i < defs@.len(),
            (None, None) => true,
            _ => false,
        },
{
    let mut i: usize = 0;
    proof {
        assert(defs@.subrange(0, defs@.len() as int) =~= defs@);
    }
    while i < defs.len()
        invariant
            i <= defs@.len(),
            find_type_v(defs@, r) == (match find_type_v(defs@.subrange(i as int, defs@.len() as int), r) {
                Some(j) => Some(j + i),
                None => None::<int>,
            }),
        decreases defs@.len() - i,
    {
        let ghost rest = defs@.subrange(i as int, defs@.len() as int);
        proof {
            assert(rest.drop_first() =~= defs@.subrange(i + 1, defs@.len() as int));
        }
        if defs[i].0 == r {
            return Some(i);
        }
        i += 1;
    }
    proof {
        assert(defs@.subrange(i as int, defs@.len() as int).len() == 0);
    }
    None
}

fn find_index(defs: &Vec<(ResolvedName, IndexDef)>, r: ResolvedName) -> (o: Option<IndexDef>)
    ensures
        o == find_index_v(defs@, r),
{
    let mut i: usize = 0;
    proof {
        assert(defs@.subrange(0, defs@.len() as int) =~= defs@);
    }
    while i < defs.len()
        invariant
            i <= defs@.len(),
            find_index_v(defs@, r) == find_index_v(defs@.subrange(i as int, defs@.len() as int), r),
        decreases defs@.len() - i,
    {
        let ghost rest = defs@.subrange(i as int, defs@.len() as int);
        proof {
            assert(rest.drop_first() =~= defs@.subrange(i + 1, defs@.len() as int));
        }
        if defs[i].0 == r {
            return Some(defs[i].1);
        }
        i += 1;
    }
    None
}

/// The sort of a generic argument.
pub fn generic_argument_sort(argument: &DeclaredGenericArg) -> (c: TypeGenericConstraint)
    ensures
        c == arg_sort_v(argument@),
{
    match argument {
        DeclaredGenericArg::Dim(_) => TypeGenericConstraint::Dim,
        DeclaredGenericArg::Index(_) => TypeGenericConstraint::Index,
        DeclaredGenericArg::Nat(_) => TypeGenericConstraint::Nat,
        DeclaredGenericArg::Type(_) => TypeGenericConstraint::Type,
    }
}

/// An index argument must be concrete and bound.
pub fn validate_concrete_index(env: &SchemaEnv, index: &IndexTypeRef) -> (r: Result<
    (),
    ConcreteModelTypeError,
>)
    ensures
        same_unit(r, index_valid_v(*env, index@)),
{
    match index.concrete_nat_range() {
        Some(_) => {
            return Ok(());
        },
        None => {},
    }
    let resolved = match index.declared_resolved() {
        Some(r) => r,
        None => {
            return Err(ConcreteModelTypeError::NonConcreteIndex { index: index.clone() });
        },
    };
    match find_index(&env.index_defs, resolved) {
        None => Err(ConcreteModelTypeError::UnknownIndex { index: index.clone() }),
        Some(d) => {
            if d.required {
                Err(ConcreteModelTypeError::RequiredIndex { index: index.clone() })
            } else {
                Ok(())
            }
        },
    }
}

/// A generic type argument must be a concrete, unindexed value type.
pub fn validate_concrete_type_argument(
    env: &SchemaEnv,
    identity: &StructTypeRef,
    parameter: &Symbol,
    declared_type: &DeclaredType,
) -> (r: Result<(), ConcreteModelTypeError>)
    ensures
        same_unit(r, valid_type_arg_v(*env, *identity, *parameter, declared_type@)),
    decreases declared_type, 0int,
{
    match declared_type {
        DeclaredType::Struct(nested_identity, nested_args) => {
            validate_model_type_definition(env, nested_identity, nested_args)
        },
        DeclaredType::Key(index) => validate_concrete_index(env, index),
        DeclaredType::IndexArg(_) => Err(
            ConcreteModelTypeError::IndexTypeArgument { identity: *identity, parameter: *parameter },
        ),
        DeclaredType::Indexed { .. } => Err(
            ConcreteModelTypeError::IndexedTypeArgument { identity: *identity, parameter: *parameter },
        ),
        DeclaredType::Quantity(_) | DeclaredType::Complex(_) | DeclaredType::Bool
        | DeclaredType::Int | DeclaredType::Datetime(_) => Ok(()),
    }
}

/// One generic argument must be concrete.
pub fn validate_concrete_generic_argument(
    env: &SchemaEnv,
    identity: &StructTypeRef,
    parameter: &Symbol,
    argument: &DeclaredGenericArg,
) -> (r: Result<(), ConcreteModelTypeError>)
    ensures
        same_unit(r, valid_arg_v(*env, *identity, *parameter, argument@)),
    decreases argument, 0int,
{
    match argument {
        DeclaredGenericArg::Dim(_) => Ok(()),
        DeclaredGenericArg::Index(index) => validate_concrete_index(env, index),
        DeclaredGenericArg::Nat(form) => {
            if form.is_constant() {
                Ok(())
            } else {
                Err(
                    ConcreteModelTypeError::NonConcreteGenericArgument {
                        identity: *identity,
                        parameter: *parameter,
                    },
                )
            }
        },
        DeclaredGenericArg::Type(declared_type) => validate_concrete_type_argument(
            env,
            identity,
            parameter,
            declared_type,
        ),
    }
}

/// Validate one nominal application before model-schema expansion: the
/// definition exists, is a union, and accepts the arguments.
pub fn validate_model_type_definition(
    env: &SchemaEnv,
    identity: &StructTypeRef,
    generic_args: &Vec<DeclaredGenericArg>,
) -> (r: Result<(), ConcreteModelTypeError>)
    ensures
        same_unit(r, valid_model_v(*env, *identity, dargs_view(*generic_args, generic_args@.len() as int))),
    decreases generic_args, 1int,
{
    let ghost args = dargs_view(*generic_args, generic_args@.len() as int);
    proof {
        lemma_dargs_view(*generic_args, generic_args@.len() as int);
    }
    let k = match find_type(&env.struct_types, *identity.resolved()) {
        Some(k) => k,
        None => {
            return Err(ConcreteModelTypeError::UnknownType { identity: *identity });
        },
    };
    let type_def = &env.struct_types[k].1;
    match &type_def.kind {
        TypeDefKind::Union { .. } => {},
        TypeDefKind::Required => {
            return Err(ConcreteModelTypeError::RequiredType { identity: *identity });
        },
    }
    let params = &type_def.generic_params;
    if generic_args.len() != params.len() {
        return Err(
            ConcreteModelTypeError::GenericArityMismatch {
                identity: *identity,
                expected: params.len(),
                actual: generic_args.len(),
            },
        );
    }
    let mut i: usize = 0;
    assert(valid_model_v(*env, *identity, args) == check_params_v(*env, *identity, params@, args, 0));
    while i < params.len()
        invariant
            valid_model_v(*env, *identity, args) == check_params_v(*env, *identity, params@, args, 0),
            params@.len() == generic_args@.len(),
            args == dargs_view(*generic_args, generic_args@.len() as int),
            args.len() == generic_args@.len(),
            forall|j: int| 0 <= j < args.len() ==> #[trigger] args[j] == darg_view(generic_args@[j]),
            i <= params@.len(),
            check_params_v(*env, *identity, params@, args, 0) == check_params_v(
                *env,
                *identity,
                params@,
                args,
                i as int,
            ),
        decreases params@.len() - i,
    {
        let parameter = params[i];
        let actual = generic_argument_sort(&generic_args[i]);
        proof {
            assert(args[i as int] == darg_view(generic_args@[i as int]));
        }
        if parameter.constraint != actual {
            return Err(
                ConcreteModelTypeError::GenericSortMismatch {
                    identity: *identity,
                    parameter: parameter.name,
                    expected: parameter.constraint,
                    actual,
                },
            );
        }
        proof {
            assert(decreases_to!(*generic_args => generic_args@[i as int]));
        }
        match validate_concrete_generic_argument(env, identity, &parameter.name, &generic_args[i]) {
            Ok(()) => {},
            Err(e) => {
                return Err(e);
            },
        }
        i += 1;
    }
    Ok(())
}

/// The type of a field with the generic arguments substituted; `None` when
/// a dimension parameter position does not hold a dimension argument.
pub open spec fn field_type_v(t: FieldType, args: Seq<ArgV>) -> Option<TypeV> {
    match t {
        FieldType::Declared(d) => Some(d@),
        FieldType::DimParam(k) => if k < args.len() {
            match args[k as int] {
                ArgV::Dim(d) => Some(TypeV::Quantity(d)),
                _ => None,
            }
        } else {
            None
        },
    }
}

/// The check of one bound of a field.
pub open spec fn bound_v(identity: StructTypeRef, f: FieldDef, args: Seq<ArgV>, b: FieldBound) -> Result<
    (),
    SchemaErrV,
> {
    match field_type_v(f.field_type, args) {
        None => Err(SchemaErrV::InvalidDomainTarget { identity, field: f.name, span: b.span }),
        Some(t) => match expected_bound_v(t) {
            None => Err(SchemaErrV::InvalidDomainTarget { identity, field: f.name, span: b.span }),
            Some(e) => match bound_check_v(b.value@, e) {
                Ok(()) => Ok(()),
                Err(error) => Err(SchemaErrV::DomainBound { identity, field: f.name, error, span: b.span }),
            },
        },
    }
}

/// The first failing bound among the first `n` bounds of a field.
pub open spec fn bounds_v(identity: StructTypeRef, f: FieldDef, args: Seq<ArgV>, n: int) -> Result<(), SchemaErrV>
    decreases n,
{
    if n <= 0 || n > f.bounds@.len() {
        Ok(())
    } else {
        match bounds_v(identity, f, args, n - 1) {
            Err(e) => Err(e),
            Ok(()) => bound_v(identity, f, args, f.bounds@[n - 1]),
        }
    }
}

/// The first failing bound among the fields `fs[..n]`, in order.
pub open spec fn fields_v(identity: StructTypeRef, fs: Seq<FieldDef>, args: Seq<ArgV>, n: int) -> Result<
    (),
    SchemaErrV,
>
    decreases n,
{
    if n <= 0 || n > fs.len() {
        Ok(())
    } else {
        match fields_v(identity, fs, args, n - 1) {
            Err(e) => Err(e),
            Ok(()) => bounds_v(identity, fs[n - 1], args, fs[n - 1].bounds@.len() as int),
        }
    }
}

/// The first failing bound among the members `ms[..n]`, in order.
pub open spec fn members_v(identity: StructTypeRef, ms: Seq<UnionMemberDef>, args: Seq<ArgV>, n: int) -> Result<
    (),
    SchemaErrV,
>
    decreases n,
{
    if n <= 0 || n > ms.len() {
        Ok(())
    } else {
        match members_v(identity, ms, args, n - 1) {
            Err(e) => Err(e),
            Ok(()) => fields_v(identity, ms[n - 1].fields@, args, ms[n - 1].fields@.len() as int),
        }
    }
}

/// The field obligations of a definition applied to `args`.
pub open spec fn obligations_v(identity: StructTypeRef, def: TypeDef, args: Seq<ArgV>) -> Result<(), SchemaErrV> {
    match def.kind {
        TypeDefKind::Union { members } => members_v(identity, members@, args, members@.len() as int),
        TypeDefKind::Required => Ok(()),
    }
}

/// A nominal application is a valid concrete model type and meets the
/// domain bounds of its fields.
pub open spec fn concrete_model_v(env: SchemaEnv, identity: StructTypeRef, args: Seq<ArgV>) -> Result<
    (),
    SchemaErrV,
> {
    match valid_model_v(env, identity, args) {
        Err(e) => Err(e),
        Ok(()) => match find_type_v(env.struct_types@, identity.spec_resolved()) {
            Some(k) => obligations_v(identity, env.struct_types@[k].1, args),
            None => Ok(()),
        },
    }
}

proof fn lemma_bounds_err(identity: StructTypeRef, f: FieldDef, args: Seq<ArgV>, k: int, m: int)
    requires
        0 <= k <= m <= f.bounds@.len(),
        bounds_v(identity, f, args, k) is Err,
    ensures
        bounds_v(identity, f, args, m) == bounds_v(identity, f, args, k),
    decreases m - k,
{
    if k < m {
        lemma_bounds_err(identity, f, args, k, m - 1);
    }
}

proof fn lemma_fields_err(identity: StructTypeRef, fs: Seq<FieldDef>, args: Seq<ArgV>, k: int, m: int)
    requires
        0 <= k <= m <= fs.len(),
        fields_v(identity, fs, args, k) is Err,
    ensures
        fields_v(identity, fs, args, m) == fields_v(identity, fs, args, k),
    decreases m - k,
{
    if k < m {
        lemma_fields_err(identity, fs, args, k, m - 1);
    }
}

proof fn lemma_members_err(identity: StructTypeRef, ms: Seq<UnionMemberDef>, args: Seq<ArgV>, k: int, m: int)
    requires
        0 <= k <= m <= ms.len(),
        members_v(identity, ms, args, k) is Err,
    ensures
        members_v(identity, ms, args, m) == members_v(identity, ms, args, k),
    decreases m - k,
{
    if k < m {
        lemma_members_err(identity, ms, args, k, m - 1);
    }
}

fn field_type(t: &FieldType, generic_args: &Vec<DeclaredGenericArg>) -> (r: Option<InferredType>)
    ensures
        match (r, field_type_v(*t, dargs_view(*generic_args, generic_args@.len() as int))) {
            (Some(x), Some(v)) => x@ == v,
            (None, None) => true,
            _ => false,
        },
{
    proof {
        lemma_dargs_view(*generic_args, generic_args@.len() as int);
    }
    match t {
        FieldType::Declared(d) => Some(inferred_from_declared(d)),
        FieldType::DimParam(k) => {
            if *k < generic_args.len() {
                match &generic_args[*k] {
                    DeclaredGenericArg::Dim(d) => Some(InferredType::Quantity(d.clone())),
                    _ => None,
                }
            } else {
                None
            }
        },
    }
}

fn check_field(identity: &StructTypeRef, f: &FieldDef, generic_args: &Vec<DeclaredGenericArg>) -> (r: Result<
    (),
    ConcreteModelTypeError,
>)
    ensures
        same_unit(
            r,
            bounds_v(
                *identity,
                *f,
                dargs_view(*generic_args, generic_args@.len() as int),
                f.bounds@.len() as int,
            ),
        ),
{
    let ghost args = dargs_view(*generic_args, generic_args@.len() as int);
    let target = field_type(&f.field_type, generic_args);
    let mut k: usize = 0;
    while k < f.bounds.len()
        invariant
            k <= f.bounds@.len(),
            args == dargs_view(*generic_args, generic_args@.len() as int),
            match (target, field_type_v(f.field_type, args)) {
                (Some(x), Some(v)) => x@ == v,
                (None, None) => true,
                _ => false,
            },
            bounds_v(*identity, *f, args, k as int) is Ok,
        decreases f.bounds@.len() - k,
    {
        let b = &f.bounds[k];
        let outcome: Result<(), ConcreteModelTypeError> = match &target {
            None => Err(ConcreteModelTypeError::InvalidDomainTarget { identity: *identity, field: f.name, span: b.span }),
            Some(t) => match expected_bound_from_inferred(t) {
                None => Err(
                    ConcreteModelTypeError::InvalidDomainTarget { identity: *identity, field: f.name, span: b.span },
                ),
                Some(e) => match check_bound_type(&b.value, &e) {
                    Ok(()) => Ok(()),
                    Err(error) => Err(
                        ConcreteModelTypeError::DomainBound { identity: *identity, field: f.name, error, span: b.span },
                    ),
                },
            },
        };
        proof {
            assert(same_unit(outcome, bound_v(*identity, *f, args, f.bounds@[k as int])));
        }
        match outcome {
            Err(e) => {
                proof {
                    lemma_bounds_err(*identity, *f, args, k as int + 1, f.bounds@.len() as int);
                }
                return Err(e);
            },
            Ok(()) => {},
        }
        k += 1;
    }
    Ok(())
}

fn check_fields(identity: &StructTypeRef, fs: &Vec<FieldDef>, generic_args: &Vec<DeclaredGenericArg>) -> (r:
    Result<(), ConcreteModelTypeError>)
    ensures
        same_unit(
            r,
            fields_v(*identity, fs@, dargs_view(*generic_args, generic_args@.len() as int), fs@.len() as int),
        ),
{
    let ghost args = dargs_view(*generic_args, generic_args@.len() as int);
    let mut k: usize = 0;
    while k < fs.len()
        invariant
            k <= fs@.len(),
            args == dargs_view(*generic_args, generic_args@.len() as int),
            fields_v(*identity, fs@, args, k as int) is Ok,
        decreases fs@.len() - k,
    {
        match check_field(identity, &fs[k], generic_args) {
            Err(e) => {
                proof {
                    lemma_fields_err(*identity, fs@, args, k as int + 1, fs@.len() as int);
                }
                return Err(e);
            },
            Ok(()) => {},
        }
        k += 1;
    }
    Ok(())
}

/// Checks the domain bounds of every field of every constructor, in order,
/// with the generic arguments substituted into the field types.
fn check_obligations(identity: &StructTypeRef, def: &TypeDef, generic_args: &Vec<DeclaredGenericArg>) -> (r:
    Result<(), ConcreteModelTypeError>)
    ensures
        same_unit(r, obligations_v(*identity, *def, dargs_view(*generic_args, generic_args@.len() as int))),
{
    let ghost args = dargs_view(*generic_args, generic_args@.len() as int);
    let members = match &def.kind {
        TypeDefKind::Union { members } => members,
        TypeDefKind::Required => {
            return Ok(());
        },
    };
    let mut k: usize = 0;
    while k < members.len()
        invariant
            def.kind == (TypeDefKind::Union { members: *members }),
            k <= members@.len(),
            args == dargs_view(*generic_args, generic_args@.len() as int),
            members_v(*identity, members@, args, k as int) is Ok,
        decreases members@.len() - k,
    {
        match check_fields(identity, &members[k].fields, generic_args) {
            Err(e) => {
                proof {
                    lemma_members_err(*identity, members@, args, k as int + 1, members@.len() as int);
                }
                return Err(e);
            },
            Ok(()) => {},
        }
        k += 1;
    }
    Ok(())
}

/// A concrete algebraic model type whose generic application has been checked.
#[derive(Debug)]
pub struct ConcreteModelType {
    identity: StructTypeRef,
    generic_args: Vec<DeclaredGenericArg>,
}

impl ConcreteModelType {
    pub closed spec fn spec_identity(self) -> StructTypeRef {
        self.identity
    }

    pub closed spec fn spec_args(self) -> Seq<ArgV> {
        dargs_view(self.generic_args, self.generic_args@.len() as int)
    }

    /// Validate one nominal application against the schema environment,
    /// then check the domain bounds of its fields with the arguments
    /// substituted.
    pub fn try_new(env: &SchemaEnv, identity: &StructTypeRef, generic_args: &Vec<DeclaredGenericArg>) -> (r:
        Result<ConcreteModelType, ConcreteModelTypeError>)
        ensures
            match (r, concrete_model_v(*env, *identity, dargs_view(*generic_args, generic_args@.len() as int))) {
                (Ok(t), Ok(_)) => t.spec_identity() == *identity && t.spec_args() == dargs_view(
                    *generic_args,
                    generic_args@.len() as int,
                ),
                (Err(e), Err(f)) => e@ == f,
                _ => false,
            },
    {
        validate_model_type_definition(env, identity, generic_args)?;
        match find_type(&env.struct_types, *identity.resolved()) {
            Some(k) => {
                check_obligations(identity, &env.struct_types[k].1, generic_args)?;
            },
            None => {},
        }
        let mut args: Vec<DeclaredGenericArg> = Vec::new();
        let mut i: usize = 0;
        while i < generic_args.len()
            invariant
                i <= generic_args@.len(),
                args@.len() == i,
                forall|j: int| 0 <= j < i ==> #[trigger] darg_view(args@[j]) == darg_view(generic_args@[j]),
            decreases generic_args@.len() - i,
        {
            args.push(generic_args[i].clone());
            i += 1;
        }
        proof {
            lemma_dargs_view(args, args@.len() as int);
            lemma_dargs_view(*generic_args, generic_args@.len() as int);
            assert(dargs_view(args, args@.len() as int) =~= dargs_view(
                *generic_args,
                generic_args@.len() as int,
            ));
        }
        Ok(ConcreteModelType { identity: *identity, generic_args: args })
    }

    pub fn identity(&self) -> (r: &StructTypeRef)
        ensures
            *r == self.spec_identity(),
    {
        &self.identity
    }

    pub fn generic_args(&self) -> (r: &Vec<DeclaredGenericArg>)
        ensures
            dargs_view(*r, r@.len() as int) == self.spec_args(),
    {
        &self.generic_args
    }

    /// Expand this checked type into its constructors, each with its
    /// fields' types after substituting the generic arguments.
    pub fn constructors(&self, env: &SchemaEnv) -> (r: Result<Vec<ConcreteModelConstructor>, ConcreteModelTypeError>)
        ensures
            match (r, constructors_v(*env, self.spec_identity(), self.spec_args())) {
                (Ok(v), Ok(s)) => v@.map_values(|c: ConcreteModelConstructor| ctor_view(c)) == s,
                (Err(e), Err(f)) => e@ == f,
                _ => false,
            },
    {
        match find_type(&env.struct_types, *self.identity.resolved()) {
            None => Err(ConcreteModelTypeError::UnknownType { identity: self.identity }),
            Some(k) => match &env.struct_types[k].1.kind {
                TypeDefKind::Required => Err(ConcreteModelTypeError::RequiredType { identity: self.identity }),
                TypeDefKind::Union { members } => expand_members(&self.identity, members, &self.generic_args),
            },
        }
    }
}

/// A field with the generic arguments substituted into its type.
pub open spec fn field_expansion_v(identity: StructTypeRef, f: FieldDef, args: Seq<ArgV>) -> Result<
    (Symbol, TypeV),
    SchemaErrV,
> {
    match field_type_v(f.field_type, args) {
        Some(t) => Ok((f.name, t)),
        None => Err(SchemaErrV::MissingFieldType { identity, field: f.name }),
    }
}

/// The first `n` fields, expanded in order; the first failure decides.
pub open spec fn fields_expansion_v(identity: StructTypeRef, fs: Seq<FieldDef>, args: Seq<ArgV>, n: int) -> Result<
    Seq<(Symbol, TypeV)>,
    SchemaErrV,
>
    decreases n,
{
    if n <= 0 || n > fs.len() {
        Ok(Seq::empty())
    } else {
        match fields_expansion_v(identity, fs, args, n - 1) {
            Err(e) => Err(e),
            Ok(s) => match field_expansion_v(identity, fs[n - 1], args) {
                Err(e) => Err(e),
                Ok(x) => Ok(s.push(x)),
            },
        }
    }
}

/// The first `n` constructors, expanded in order; the first failure decides.
pub open spec fn members_expansion_v(
    identity: StructTypeRef,
    ms: Seq<UnionMemberDef>,
    args: Seq<ArgV>,
    n: int,
) -> Result<Seq<(Symbol, Seq<(Symbol, TypeV)>)>, SchemaErrV>
    decreases n,
{
    if n <= 0 || n > ms.len() {
        Ok(Seq::empty())
    } else {
        match members_expansion_v(identity, ms, args, n - 1) {
            Err(e) => Err(e),
            Ok(s) => match fields_expansion_v(identity, ms[n - 1].fields@, args, ms[n - 1].fields@.len() as int) {
                Err(e) => Err(e),
                Ok(fs) => Ok(s.push((ms[n - 1].name, fs))),
            },
        }
    }
}

/// The constructors of a nominal application, each with its fields'
/// substituted types.
pub open spec fn constructors_v(env: SchemaEnv, identity: StructTypeRef, args: Seq<ArgV>) -> Result<
    Seq<(Symbol, Seq<(Symbol, TypeV)>)>,
    SchemaErrV,
> {
    match find_type_v(env.struct_types@, identity.spec_resolved()) {
        None => Err(SchemaErrV::UnknownType { identity }),
        Some(k) => match env.struct_types@[k].1.kind {
            TypeDefKind::Required => Err(SchemaErrV::RequiredType { identity }),
            TypeDefKind::Union { members } => members_expansion_v(identity, members@, args, members@.len() as int),
        },
    }
}

pub open spec fn field_view(f: ConcreteModelField) -> (Symbol, TypeV) {
    (f.spec_name(), f.spec_type())
}

pub open spec fn ctor_view(c: ConcreteModelConstructor) -> (Symbol, Seq<(Symbol, TypeV)>) {
    (c.spec_name(), c.spec_fields().map_values(|f: ConcreteModelField| field_view(f)))
}

fn declared_field_type(t: &FieldType, generic_args: &Vec<DeclaredGenericArg>) -> (r: Option<DeclaredType>)
    ensures
        match (r, field_type_v(*t, dargs_view(*generic_args, generic_args@.len() as int))) {
            (Some(x), Some(v)) => x@ == v,
            (None, None) => true,
            _ => false,
        },
{
    proof {
        lemma_dargs_view(*generic_args, generic_args@.len() as int);
    }
    match t {
        FieldType::Declared(d) => Some(d.clone()),
        FieldType::DimParam(k) => {
            if *k < generic_args.len() {
                match &generic_args[*k] {
                    DeclaredGenericArg::Dim(d) => Some(DeclaredType::Quantity(d.clone())),
                    _ => None,
                }
            } else {
                None
            }
        },
    }
}

proof fn lemma_fields_expansion_err(identity: StructTypeRef, fs: Seq<FieldDef>, args: Seq<ArgV>, k: int, m: int)
    requires
        0 <= k <= m <= fs.len(),
        fields_expansion_v(identity, fs, args, k) is Err,
    ensures
        fields_expansion_v(identity, fs, args, m) == fields_expansion_v(identity, fs, args, k),
    decreases m - k,
{
    if k < m {
        lemma_fields_expansion_err(identity, fs, args, k, m - 1);
    }
}

proof fn lemma_members_expansion_err(
    identity: StructTypeRef,
    ms: Seq<UnionMemberDef>,
    args: Seq<ArgV>,
    k: int,
    m: int,
)
    requires
        0 <= k <= m <= ms.len(),
        members_expansion_v(identity, ms, args, k) is Err,
    ensures
        members_expansion_v(identity, ms, args, m) == members_expansion_v(identity, ms, args, k),
    decreases m - k,
{
    if k < m {
        lemma_members_expansion_err(identity, ms, args, k, m - 1);
    }
}

fn expand_fields(identity: &StructTypeRef, fs: &Vec<FieldDef>, generic_args: &Vec<DeclaredGenericArg>) -> (r:
    Result<Vec<ConcreteModelField>, ConcreteModelTypeError>)
    ensures
        match (r, fields_expansion_v(*identity, fs@, dargs_view(*generic_args, generic_args@.len() as int), fs@.len() as int)) {
            (Ok(v), Ok(s)) => v@.map_values(|f: ConcreteModelField| field_view(f)) == s,
            (Err(e), Err(f)) => e@ == f,
            _ => false,
        },
{
    let ghost args = dargs_view(*generic_args, generic_args@.len() as int);
    let mut out: Vec<ConcreteModelField> = Vec::new();
    let mut i: usize = 0;
    proof {
        assert(out@.map_values(|f: ConcreteModelField| field_view(f)) =~= Seq::<(Symbol, TypeV)>::empty());
    }
    while i < fs.len()
        invariant
            i <= fs@.len(),
            args == dargs_view(*generic_args, generic_args@.len() as int),
            fields_expansion_v(*identity, fs@, args, i as int) == Ok::<Seq<(Symbol, TypeV)>, SchemaErrV>(
                out@.map_values(|f: ConcreteModelField| field_view(f)),
            ),
        decreases fs@.len() - i,
    {
        let f = &fs[i];
        let t = match declared_field_type(&f.field_type, generic_args) {
            Some(t) => t,
            None => {
                proof {
                    lemma_fields_expansion_err(*identity, fs@, args, i + 1, fs@.len() as int);
                }
                return Err(ConcreteModelTypeError::MissingFieldType { identity: *identity, field: f.name });
            },
        };
        let field = ConcreteModelField::new(f.name, t);
        let ghost fv = field_view(field);
        let ghost prev = out@;
        out.push(field);
        proof {
            assert(out@.map_values(|f: ConcreteModelField| field_view(f)) =~= prev.map_values(
                |f: ConcreteModelField| field_view(f),
            ).push(fv));
        }
        i += 1;
    }
    Ok(out)
}

fn expand_members(identity: &StructTypeRef, ms: &Vec<UnionMemberDef>, generic_args: &Vec<DeclaredGenericArg>) -> (r:
    Result<Vec<ConcreteModelConstructor>, ConcreteModelTypeError>)
    ensures
        match (r, members_expansion_v(*identity, ms@, dargs_view(*generic_args, generic_args@.len() as int), ms@.len() as int)) {
            (Ok(v), Ok(s)) => v@.map_values(|c: ConcreteModelConstructor| ctor_view(c)) == s,
            (Err(e), Err(f)) => e@ == f,
            _ => false,
        },
{
    let ghost args = dargs_view(*generic_args, generic_args@.len() as int);
    let mut out: Vec<ConcreteModelConstructor> = Vec::new();
    let mut i: usize = 0;
    proof {
        assert(out@.map_values(|c: ConcreteModelConstructor| ctor_view(c)) =~= Seq::<
            (Symbol, Seq<(Symbol, TypeV)>),
        >::empty());
    }
    while i < ms.len()
        invariant
            i <= ms@.len(),
            args == dargs_view(*generic_args, generic_args@.len() as int),
            members_expansion_v(*identity, ms@, args, i as int) == Ok::<Seq<(Symbol, Seq<(Symbol, TypeV)>)>, SchemaErrV>(
                out@.map_values(|c: ConcreteModelConstructor| ctor_view(c)),
            ),
        decreases ms@.len() - i,
    {
        let fields = match expand_fields(identity, &ms[i].fields, generic_args) {
            Ok(v) => v,
            Err(e) => {
                proof {
                    lemma_members_expansion_err(*identity, ms@, args, i + 1, ms@.len() as int);
                }
                return Err(e);
            },
        };
        let c = ConcreteModelConstructor::new(ms[i].name, fields);
        let ghost cv = ctor_view(c);
        let ghost prev = out@;
        out.push(c);
        proof {
            assert(out@.map_values(|c: ConcreteModelConstructor| ctor_view(c)) =~= prev.map_values(
                |c: ConcreteModelConstructor| ctor_view(c),
            ).push(cv));
        }
        i += 1;
    }
    Ok(out)
}

/// One concrete field after applying all nominal generic arguments.
#[derive(Debug)]
pub struct ConcreteModelField {
    name: Symbol,
    declared_type: DeclaredType,
}

impl ConcreteModelField {
    pub fn new(name: Symbol, declared_type: DeclaredType) -> (f: ConcreteModelField)
        ensures
            f.spec_name() == name,
            f.spec_type() == declared_type@,
    {
        ConcreteModelField { name, declared_type }
    }

    pub closed spec fn spec_name(self) -> Symbol {
        self.name
    }

    pub closed spec fn spec_type(self) -> TypeV {
        self.declared_type@
    }

    pub fn name(&self) -> (r: &Symbol)
        ensures
            *r == self.spec_name(),
    {
        &self.name
    }

    pub fn declared_type(&self) -> (r: &DeclaredType)
        ensures
            r@ == self.spec_type(),
    {
        &self.declared_type
    }
}

/// One constructor in a concrete algebraic type.
#[derive(Debug)]
pub struct ConcreteModelConstructor {
    name: Symbol,
    fields: Vec<ConcreteModelField>,
}

impl ConcreteModelConstructor {
    pub fn new(name: Symbol, fields: Vec<ConcreteModelField>) -> (c: ConcreteModelConstructor)
        ensures
            c.spec_name() == name,
            c.spec_fields() == fields@,
    {
        ConcreteModelConstructor { name, fields }
    }

    pub closed spec fn spec_name(self) -> Symbol {
        self.name
    }

    pub closed spec fn spec_fields(self) -> Seq<ConcreteModelField> {
        self.fields@
    }

    pub fn name(&self) -> (r: &Symbol)
        ensures
            *r == self.spec_name(),
    {
        &self.name
    }

    pub fn fields(&self) -> (r: &Vec<ConcreteModelField>)
        ensures
            r@ == self.spec_fields(),
    {
        &self.fields
    }
}

} // verus!
