//! Algebraic laws of the dimension and typing kernels.

use crate::declared::{arg_match_v, args_match_v, lemma_args_match_v, types_match_v};
use crate::dimension::{
    dim_div_v, dim_mul_v, div_fits, div_seq, exp_at, lemma_trim, lemma_trimmed_ext, max_len,
    mul_fits, mul_seq, trim, trimmed,
};
use crate::rational::{lemma_norm_zero, rat_add, rat_sub, rat_zero};
use crate::rules::{binop_v, mm, multiplicative_v, BinOp, MismatchReason, Span};
use crate::types::{ArgV, TypeV};
use crate::index::{IndexRefV, ResolvedName};
use crate::index_access::{access_v, arg_check_v, AxisDef, IndexAccessArg};
use crate::keys::{
    entries_cover, entry_ok, first_bad_arity, first_bad_entry, indexed_from, indexed_over_v, map_keys_v,
};
use crate::plot::{axes_v, element_v};
use crate::for_comp::{binding_axes_v, binding_local_v, ForBindingIndex};
use crate::expr_typing::{
    axis_variants, ctor_values_v, decl_check_v, entry_variants, infer_in, map_keys_checked_v, infer_v, operands_v, scope_view, program_v, typed_from_operands, CtorDef, Declaration,
    DimErrorV, ExprTypeErrorV, TypingEnv,
};
use crate::index::Symbol;
use crate::expression_facts::{
    node_step_v, publication_v, record_ready_v, run_from, BodyRevision, CheckedExpressionRecord, IndexCardinalities, PublishStateV,
};
use crate::hir::{post_order_roots, Expr, ExprId, ExprKind};
use crate::index::DagId;
use crate::dimension::{base_position, base_v, BaseDimId, PreludeBaseDimension};
use crate::types::TimeScale;
use crate::rules::{time_scale_conversion_v, TypeRuleError};
use crate::linear_algebra::{la_v, quantity_over_v, LaErrV, LinearAlgebraFn};
use crate::complex::{angle_v, complex_v, ComplexFn, ComplexTypeError};
use crate::builtin_call::{spelling_v, type_rule_v, BuiltinFnName, BuiltinTypeRule};
use vstd::prelude::*;

verus! {

/// The sum of two exact rationals does not depend on operand order.
pub proof fn law_rational_sum_commutes(a: (int, int), b: (int, int))
    ensures
        rat_add(a, b) == rat_add(b, a),
{
    assert(a.0 * b.1 + b.0 * a.1 == b.0 * a.1 + a.0 * b.1);
    assert(a.1 * b.1 == b.1 * a.1) by (nonlinear_arith);
}

/// A rational minus itself is zero.
pub proof fn law_rational_difference_with_itself(a: (int, int))
    requires
        a.1 > 0,
    ensures
        rat_sub(a, a) == rat_zero(),
{
    assert(a.1 * a.1 > 0) by (nonlinear_arith)
        requires
            a.1 > 0,
    ;
    lemma_norm_zero(a.1 * a.1);
}

/// The product of two dimensions does not depend on operand order: `a * b`
/// and `b * a` both overflow, or give the same dimension.
pub proof fn law_dimension_product_commutes(a: Seq<(int, int)>, b: Seq<(int, int)>)
    ensures
        dim_mul_v(a, b) == dim_mul_v(b, a),
{
    assert forall|i: int| 0 <= i implies #[trigger] rat_add(exp_at(a, i), exp_at(b, i)) == rat_add(
        exp_at(b, i),
        exp_at(a, i),
    ) by {
        law_rational_sum_commutes(exp_at(a, i), exp_at(b, i));
    }
    assert(mul_seq(a, b) =~= mul_seq(b, a));
    if mul_fits(a, b) {
        assert forall|i: int| 0 <= i implies crate::dimension::exp_fits(
            #[trigger] rat_add(exp_at(b, i), exp_at(a, i)),
        ) by {
            assert(crate::dimension::exp_fits(rat_add(exp_at(a, i), exp_at(b, i))));
            law_rational_sum_commutes(exp_at(a, i), exp_at(b, i));
        }
    }
    if mul_fits(b, a) {
        assert forall|i: int| 0 <= i implies crate::dimension::exp_fits(
            #[trigger] rat_add(exp_at(a, i), exp_at(b, i)),
        ) by {
            assert(crate::dimension::exp_fits(rat_add(exp_at(b, i), exp_at(a, i))));
            law_rational_sum_commutes(exp_at(a, i), exp_at(b, i));
        }
    }
}

/// Every exponent of a dimension view has a positive denominator.
pub open spec fn valid_exponents(a: Seq<(int, int)>) -> bool {
    forall|i: int| 0 <= i < a.len() ==> (#[trigger] a[i]).1 > 0
}

/// Dividing a dimension by itself never overflows and gives the
/// dimensionless dimension.
pub proof fn law_dimension_quotient_by_itself(a: Seq<(int, int)>)
    requires
        valid_exponents(a),
    ensures
        dim_div_v(a, a) == Some(Seq::<(int, int)>::empty()),
{
    assert forall|i: int| 0 <= i implies #[trigger] rat_sub(exp_at(a, i), exp_at(a, i)) == rat_zero() by {
        if i < a.len() {
            assert(a[i].1 > 0);
        }
        law_rational_difference_with_itself(exp_at(a, i));
    }
    assert(div_fits(a, a));
    let q = div_seq(a, a);
    lemma_trim(q);
    assert forall|i: int| 0 <= i implies #[trigger] exp_at(trim(q), i) == exp_at(
        Seq::<(int, int)>::empty(),
        i,
    ) by {
        assert(exp_at(trim(q), i) == exp_at(q, i));
        if i < q.len() {
            assert(q[i] == rat_sub(exp_at(a, i), exp_at(a, i)));
        }
    }
    lemma_trimmed_ext(trim(q), Seq::<(int, int)>::empty());
}

/// The multiplication typing rule accepts operands in either order, and when
/// it accepts them it gives the same type.
pub proof fn law_product_type_commutes(l: TypeV, ls: Span, r: TypeV, rs: Span, es: Span)
    ensures
        multiplicative_v(false, l, ls, r, rs, es) is Ok <==> multiplicative_v(false, r, rs, l, ls, es) is Ok,
        multiplicative_v(false, l, ls, r, rs, es) is Ok ==> multiplicative_v(false, l, ls, r, rs, es)
            == multiplicative_v(false, r, rs, l, ls, es),
{
    match (crate::rules::operand_dim_v(l, ls), crate::rules::operand_dim_v(r, rs)) {
        (Ok((ld, _)), Ok((rd, _))) => {
            law_dimension_product_commutes(ld, rd);
        },
        _ => {},
    }
}

/// Dividing a quantity by a quantity of the same dimension gives a
/// dimensionless quantity.
pub proof fn law_quotient_by_same_dimension_is_dimensionless(d: Seq<(int, int)>, ls: Span, rs: Span, es: Span)
    requires
        valid_exponents(d),
    ensures
        multiplicative_v(true, TypeV::Quantity(d), ls, TypeV::Quantity(d), rs, es) == Ok::<
            TypeV,
            crate::rules::TypeRuleError,
        >(TypeV::Quantity(Seq::empty())),
{
    law_dimension_quotient_by_itself(d);
}

/// A type view built only from the forms that annotations can match by
/// identity: no complex quantities and no `key()` types.
pub open spec fn annotation_comparable(t: TypeV) -> bool
    decreases t, 0int,
{
    match t {
        TypeV::Quantity(_) | TypeV::Bool | TypeV::Int | TypeV::Datetime(_) | TypeV::IndexArg(_) => true,
        TypeV::Struct(_, args) => args_comparable(args, args.len() as int),
        TypeV::Indexed(e, _) => annotation_comparable(*e),
        _ => false,
    }
}

pub open spec fn args_comparable(args: Seq<ArgV>, n: int) -> bool
    decreases args, n,
{
    if n <= 0 || n > args.len() {
        true
    } else {
        args_comparable(args, n - 1) && arg_comparable(args[n - 1])
    }
}

pub open spec fn arg_comparable(a: ArgV) -> bool
    decreases a, 0int,
{
    match a {
        ArgV::Type(t) => annotation_comparable(*t),
        _ => true,
    }
}

/// An annotation accepts a value of exactly the type it denotes.
pub proof fn law_annotation_accepts_its_own_type(t: TypeV)
    requires
        annotation_comparable(t),
    ensures
        types_match_v(t, t),
    decreases t, 1int,
{
    match t {
        TypeV::Struct(_, args) => {
            lemma_args_accept(args, args.len() as int);
            lemma_args_match_v(args, args, args.len() as int);
        },
        TypeV::Indexed(e, _) => {
            law_annotation_accepts_its_own_type(*e);
        },
        _ => {},
    }
}

proof fn lemma_args_accept(args: Seq<ArgV>, n: int)
    requires
        0 <= n <= args.len(),
        args_comparable(args, n),
    ensures
        forall|i: int| 0 <= i < n ==> #[trigger] arg_match_v(args[i], args[i]),
    decreases args, n,
{
    if n > 0 {
        lemma_args_accept(args, n - 1);
        assert(arg_comparable(args[n - 1]));
        match args[n - 1] {
            ArgV::Type(t) => {
                law_annotation_accepts_its_own_type(*t);
            },
            _ => {},
        }
    }
}

proof fn lemma_label_access_from(
    defs: Seq<(ResolvedName, AxisDef)>,
    element: TypeV,
    axes: Seq<IndexRefV>,
    args: Seq<IndexAccessArg>,
    k: int,
    span: Span,
)
    requires
        args.len() == axes.len(),
        0 <= k <= axes.len(),
        forall|j: int| 0 <= j < args.len() ==> (#[trigger] args[j] matches IndexAccessArg::Variant {
            index,
            ..
        } && index@ == axes[j]),
    ensures
        access_v(defs, indexed_from(element, axes, k), args, k, span) == Ok::<
            TypeV,
            crate::index_access::IndexAccessErrorV,
        >(element),
    decreases axes.len() - k,
{
    if k < axes.len() {
        lemma_label_access_from(defs, element, axes, args, k + 1, span);
        assert(args[k] matches IndexAccessArg::Variant { index, .. } && index@ == axes[k]);
        assert(arg_check_v(defs, axes[k], args[k]) is Ok);
    }
}

/// Selecting every axis of a collection, outermost first, with a label of
/// that axis gives back the collection's element type.
pub proof fn law_label_access_undoes_indexing(
    defs: Seq<(ResolvedName, AxisDef)>,
    element: TypeV,
    axes: Seq<IndexRefV>,
    args: Seq<IndexAccessArg>,
    span: Span,
)
    requires
        args.len() == axes.len(),
        forall|j: int| 0 <= j < args.len() ==> (#[trigger] args[j] matches IndexAccessArg::Variant {
            index,
            ..
        } && index@ == axes[j]),
    ensures
        access_v(defs, indexed_over_v(element, axes), args, 0, span) == Ok::<
            TypeV,
            crate::index_access::IndexAccessErrorV,
        >(element),
{
    lemma_label_access_from(defs, element, axes, args, 0, span);
}

proof fn lemma_channel_axes_from(element: TypeV, axes: Seq<IndexRefV>, k: int)
    requires
        !(element is Indexed),
        0 <= k <= axes.len(),
    ensures
        axes_v(indexed_from(element, axes, k)) == axes.subrange(k, axes.len() as int),
        element_v(indexed_from(element, axes, k)) == element,
    decreases axes.len() - k,
{
    if k < axes.len() {
        lemma_channel_axes_from(element, axes, k + 1);
        assert(seq![axes[k]] + axes.subrange(k + 1, axes.len() as int) =~= axes.subrange(
            k,
            axes.len() as int,
        ));
    } else {
        assert(axes.subrange(k, axes.len() as int) =~= Seq::<IndexRefV>::empty());
    }
}

/// A plot channel over a collection built from a non-indexed element ranges
/// over exactly the collection's axes, outermost first, and plots that
/// element.
pub proof fn law_channel_axes_are_collection_axes(element: TypeV, axes: Seq<IndexRefV>)
    requires
        !(element is Indexed),
    ensures
        axes_v(indexed_over_v(element, axes)) == axes,
        element_v(indexed_over_v(element, axes)) == element,
{
    lemma_channel_axes_from(element, axes, 0);
    assert(axes.subrange(0, axes.len() as int) =~= axes);
}

proof fn lemma_locals_access_from(
    defs: Seq<(ResolvedName, AxisDef)>,
    bindings: Seq<ForBindingIndex>,
    body: TypeV,
    args: Seq<IndexAccessArg>,
    k: int,
    span: Span,
)
    requires
        args.len() == bindings.len(),
        0 <= k <= bindings.len(),
        forall|j: int| 0 <= j < args.len() ==> (#[trigger] args[j] matches IndexAccessArg::Local {
            ty,
            ..
        } && binding_local_v(defs, bindings[j]) == Ok::<TypeV, crate::for_comp::ForCompError>(ty@)),
    ensures
        access_v(defs, indexed_from(body, binding_axes_v(bindings), k), args, k, span) == Ok::<
            TypeV,
            crate::index_access::IndexAccessErrorV,
        >(body),
    decreases bindings.len() - k,
{
    let axes = binding_axes_v(bindings);
    if k < bindings.len() {
        lemma_locals_access_from(defs, bindings, body, args, k + 1, span);
        assert(args[k] matches IndexAccessArg::Local { ty, .. } && binding_local_v(defs, bindings[k])
            == Ok::<TypeV, crate::for_comp::ForCompError>(ty@));
        match args[k] {
            IndexAccessArg::Local { ty, .. } => {
                match ty@ {
                    TypeV::Fin(f) => {
                        assert(crate::index_access::form_leq(f, f));
                    },
                    _ => {},
                }
            },
            _ => {},
        }
        assert(arg_check_v(defs, axes[k], args[k]) is Ok);
    }
}

/// Indexing a comprehension with its own loop locals, one per binding in
/// order, gives back the type of its body.
pub proof fn law_comprehension_indexed_by_its_locals(
    defs: Seq<(ResolvedName, AxisDef)>,
    bindings: Seq<ForBindingIndex>,
    body: TypeV,
    args: Seq<IndexAccessArg>,
    span: Span,
)
    requires
        args.len() == bindings.len(),
        forall|j: int| 0 <= j < args.len() ==> (#[trigger] args[j] matches IndexAccessArg::Local {
            ty,
            ..
        } && binding_local_v(defs, bindings[j]) == Ok::<TypeV, crate::for_comp::ForCompError>(ty@)),
    ensures
        access_v(defs, indexed_over_v(body, binding_axes_v(bindings)), args, 0, span) == Ok::<
            TypeV,
            crate::index_access::IndexAccessErrorV,
        >(body),
{
    lemma_locals_access_from(defs, bindings, body, args, 0, span);
}

/// Adding or subtracting quantities of different dimensions (`km + kg`) is
/// rejected at the right operand; quantities of one dimension add and
/// subtract to that dimension.
pub proof fn law_sums_need_one_dimension(
    a: Seq<(int, int)>,
    b: Seq<(int, int)>,
    ls: Span,
    rs: Span,
    es: Span,
    rhs_const: Option<i64>,
)
    ensures
        a != b ==> binop_v(BinOp::Add, TypeV::Quantity(a), ls, TypeV::Quantity(b), rs, es, rhs_const)
            == Err::<TypeV, crate::rules::TypeRuleError>(mm(MismatchReason::AdditionDimensionMismatch, rs)),
        a != b ==> binop_v(BinOp::Sub, TypeV::Quantity(a), ls, TypeV::Quantity(b), rs, es, rhs_const)
            == Err::<TypeV, crate::rules::TypeRuleError>(mm(MismatchReason::AdditionDimensionMismatch, rs)),
        binop_v(BinOp::Add, TypeV::Quantity(a), ls, TypeV::Quantity(a), rs, es, rhs_const) == Ok::<
            TypeV,
            crate::rules::TypeRuleError,
        >(TypeV::Quantity(a)),
        binop_v(BinOp::Sub, TypeV::Quantity(a), ls, TypeV::Quantity(a), rs, es, rhs_const) == Ok::<
            TypeV,
            crate::rules::TypeRuleError,
        >(TypeV::Quantity(a)),
{
}

proof fn lemma_program_prefix(decls: Seq<Declaration>, env: TypingEnv, n: int)
    requires
        0 <= n <= decls.len(),
    ensures
        program_v(decls, env, n) is Ok <==> forall|i: int| 0 <= i < n ==> #[trigger] decl_check_v(decls[i], env) is Ok,
        program_v(decls, env, n) is Err ==> exists|j: int|
            0 <= j < n && program_v(decls, env, n) == decl_check_v(decls[j], env) && forall|i: int|
                0 <= i < j ==> #[trigger] decl_check_v(decls[i], env) is Ok,
    decreases n,
{
    if n > 0 {
        lemma_program_prefix(decls, env, n - 1);
        if program_v(decls, env, n - 1) is Err {
            let j = choose|j: int|
                0 <= j < n - 1 && program_v(decls, env, n - 1) == decl_check_v(decls[j], env) && forall|i: int|
                    0 <= i < j ==> #[trigger] decl_check_v(decls[i], env) is Ok;
            assert(decl_check_v(decls[j], env) is Err);
        }
    }
}

/// A program is accepted exactly when every declaration in it is accepted;
/// when it is rejected, the reason given is that of the first declaration
/// rejected.
pub proof fn law_program_accepted_iff_every_declaration_is(decls: Seq<Declaration>, env: TypingEnv)
    ensures
        program_v(decls, env, decls.len() as int) is Ok <==> forall|i: int|
            0 <= i < decls.len() ==> #[trigger] decl_check_v(decls[i], env) is Ok,
        program_v(decls, env, decls.len() as int) is Err ==> exists|j: int|
            0 <= j < decls.len() && program_v(decls, env, decls.len() as int) == decl_check_v(decls[j], env)
                && forall|i: int| 0 <= i < j ==> #[trigger] decl_check_v(decls[i], env) is Ok,
{
    lemma_program_prefix(decls, env, decls.len() as int);
}

proof fn lemma_operands_ok(v: Vec<Expr>, env: TypingEnv, sc: Seq<(u64, TypeV)>, n: int)
    requires
        0 <= n <= v@.len(),
        operands_v(v, env, sc, n) is Ok,
    ensures
        forall|i: int| 0 <= i < n ==> #[trigger] infer_in(v@[i], env, sc) is Ok,
    decreases n,
{
    if n > 0 {
        lemma_operands_ok(v, env, sc, n - 1);
    }
}

/// An expression types only if every one of its operands types, so a
/// mistake anywhere inside a body rejects the whole body.
pub proof fn law_typed_expression_has_typed_operands(e: Expr, env: TypingEnv)
    requires
        typed_from_operands(e.kind),
        infer_v(e, env) is Ok,
    ensures
        forall|i: int| 0 <= i < e.operands@.len() ==> #[trigger] infer_v(e.operands@[i], env) is Ok,
{
    lemma_operands_ok(e.operands, env, scope_view(env.locals@), e.operands@.len() as int);
}

/// A declaration whose body adds quantities of two different dimensions
/// (`1.0 km + 1.0 kg`) is rejected, at the right operand, whatever its
/// annotation.
pub proof fn law_declaration_adding_different_dimensions_is_rejected(
    d: Declaration,
    env: TypingEnv,
    a: Seq<(int, int)>,
    b: Seq<(int, int)>,
)
    requires
        d.body is Some,
        d.body.unwrap().kind == ExprKind::BinOp(BinOp::Add),
        d.body.unwrap().operands@.len() == 2,
        infer_v(d.body.unwrap().operands@[0], env) == Ok::<TypeV, ExprTypeErrorV>(TypeV::Quantity(a)),
        infer_v(d.body.unwrap().operands@[1], env) == Ok::<TypeV, ExprTypeErrorV>(TypeV::Quantity(b)),
        a != b,
    ensures
        decl_check_v(d, env) == Err::<(), DimErrorV>(
            DimErrorV::Expr {
                name: d.name,
                error: ExprTypeErrorV::Rule(
                    mm(MismatchReason::AdditionDimensionMismatch, d.body.unwrap().operands@[1].span),
                ),
            },
        ),
{
    let body = d.body.unwrap();
    let s0 = Seq::<TypeV>::empty();
    let sc = scope_view(env.locals@);
    assert(operands_v(body.operands, env, sc, 0) == Ok::<Seq<TypeV>, ExprTypeErrorV>(s0));
    assert(operands_v(body.operands, env, sc, 1) == Ok::<Seq<TypeV>, ExprTypeErrorV>(s0.push(TypeV::Quantity(a))));
    let s2 = s0.push(TypeV::Quantity(a)).push(TypeV::Quantity(b));
    assert(operands_v(body.operands, env, sc, 2) == Ok::<Seq<TypeV>, ExprTypeErrorV>(s2));
    assert(s2[0] == TypeV::Quantity(a) && s2[1] == TypeV::Quantity(b) && s2.len() == 2);
    law_sums_need_one_dimension(
        a,
        b,
        body.operands@[0].span,
        body.operands@[1].span,
        body.span,
        crate::const_fold::exponent_fold_v(BinOp::Add, body.operands@[1]),
    );
}

proof fn lemma_run_records(
    nodes: Seq<Expr>,
    owner: DagId,
    revision: BodyRevision,
    records: Map<ExprId, Box<CheckedExpressionRecord>>,
    cat: IndexCardinalities,
    st: PublishStateV,
)
    requires
        run_from(nodes, owner, revision, records, cat, st) is Ok,
    ensures
        run_from(nodes, owner, revision, records, cat, st) matches Ok(st1) && (forall|k: ExprId|
            #[trigger] st1.0.contains_key(k) <==> st.0.contains_key(k) || exists|i: int|
                0 <= i < nodes.len() && nodes[i].id == Some(k)) && (forall|k: ExprId|
            #[trigger] st.0.contains_key(k) ==> st1.0[k] == st.0[k]) && (forall|k: ExprId|
            #[trigger] st1.1.contains(k) ==> st.1.contains(k) || exists|i: int|
                0 <= i < nodes.len() && nodes[i].id == Some(k)) && (forall|i: int|
            0 <= i < nodes.len() ==> ((#[trigger] nodes[i]).id matches Some(k) && records.contains_key(k)
                && records[k].environment.owner == owner && records[k].environment.revision == revision
                && st1.0.contains_key(k) && st1.0[k] == nodes[i].span)),
    decreases nodes.len(),
{
    if nodes.len() > 0 {
        let rest = nodes.drop_first();
        match node_step_v(nodes[0], owner, revision, records, cat, st) {
            Err(_) => {},
            Ok(sa) => {
                lemma_run_records(rest, owner, revision, records, cat, sa);
                let st1 = run_from(rest, owner, revision, records, cat, sa)->Ok_0;
                let k0 = nodes[0].id->Some_0;
                assert(sa.0 == st.0.insert(k0, nodes[0].span));
                assert(run_from(nodes, owner, revision, records, cat, st) == run_from(
                    rest,
                    owner,
                    revision,
                    records,
                    cat,
                    sa,
                ));
                assert forall|k: ExprId| #[trigger] st.0.contains_key(k) implies st1.0[k] == st.0[k] by {
                    assert(sa.0.contains_key(k));
                    if k == k0 {
                        assert(st.0[k0] == nodes[0].span);
                    }
                }
                assert forall|k: ExprId| #[trigger] st1.0.contains_key(k) <==> st.0.contains_key(k) || exists|i: int|
                    0 <= i < nodes.len() && nodes[i].id == Some(k) by {
                    if st1.0.contains_key(k) && !st.0.contains_key(k) {
                        if k == k0 {
                            assert(nodes[0].id == Some(k));
                        } else {
                            let j = choose|j: int| 0 <= j < rest.len() && rest[j].id == Some(k);
                            assert(nodes[j + 1] == rest[j]);
                        }
                    }
                    if exists|i: int| 0 <= i < nodes.len() && nodes[i].id == Some(k) {
                        let i = choose|i: int| 0 <= i < nodes.len() && nodes[i].id == Some(k);
                        if i > 0 {
                            assert(rest[i - 1] == nodes[i]);
                        }
                    }
                }
                assert forall|k: ExprId| #[trigger] st1.1.contains(k) implies st.1.contains(k) || exists|i: int|
                    0 <= i < nodes.len() && nodes[i].id == Some(k) by {
                    if !st.1.contains(k) {
                        if sa.1.contains(k) {
                            assert(k == k0);
                            assert(nodes[0].id == Some(k));
                        } else {
                            let j = choose|j: int| 0 <= j < rest.len() && rest[j].id == Some(k);
                            assert(nodes[j + 1] == rest[j]);
                        }
                    }
                }
                assert forall|i: int| 0 <= i < nodes.len() implies ((#[trigger] nodes[i]).id matches Some(k)
                    && records.contains_key(k) && records[k].environment.owner == owner
                    && records[k].environment.revision == revision && st1.0.contains_key(k) && st1.0[k]
                    == nodes[i].span) by {
                    if i > 0 {
                        assert(rest[i - 1] == nodes[i]);
                    } else {
                        assert(sa.0.contains_key(k0));
                    }
                }
            },
        }
    }
}

/// When a body's facts are published, the records are exactly those of the
/// nodes reachable from its roots, every record comes from the publishing
/// owner and revision, only recorded identities are deferred, and each
/// identity keeps the one span of its node.
pub proof fn law_published_records_are_the_reachable_nodes(
    owner: DagId,
    revision: BodyRevision,
    roots: Seq<Expr>,
    records: Map<ExprId, Box<CheckedExpressionRecord>>,
    cat: IndexCardinalities,
)
    requires
        publication_v(owner, revision, roots, records, cat) matches Ok(st) && forall|k: ExprId|
            #[trigger] records.contains_key(k) ==> st.0.contains_key(k),
    ensures
        forall|k: ExprId| #[trigger]
            records.contains_key(k) <==> exists|i: int|
                0 <= i < post_order_roots(roots, roots.len() as int).len() && post_order_roots(
                    roots,
                    roots.len() as int,
                )[i].id == Some(k),
        forall|k: ExprId| #[trigger]
            records.contains_key(k) ==> records[k].environment.owner == owner && records[k].environment.revision
                == revision,
        publication_v(owner, revision, roots, records, cat) matches Ok(st) && forall|k: ExprId|
            #[trigger] st.1.contains(k) ==> records.contains_key(k),
        publication_v(owner, revision, roots, records, cat) matches Ok(st) && forall|i: int|
            0 <= i < post_order_roots(roots, roots.len() as int).len() ==> ((#[trigger] post_order_roots(
                roots,
                roots.len() as int,
            )[i]).id matches Some(k) && st.0[k] == post_order_roots(roots, roots.len() as int)[i].span),
{
    let nodes = post_order_roots(roots, roots.len() as int);
    let st0: PublishStateV = (Map::empty(), Set::empty());
    lemma_run_records(nodes, owner, revision, records, cat, st0);
    let st = publication_v(owner, revision, roots, records, cat)->Ok_0;
    assert forall|k: ExprId| #[trigger] records.contains_key(k) implies records[k].environment.owner == owner
        && records[k].environment.revision == revision by {
        assert(st.0.contains_key(k));
        let i = choose|i: int| 0 <= i < nodes.len() && nodes[i].id == Some(k);
        assert(nodes[i].id matches Some(k2) && k2 == k);
    }
    assert forall|k: ExprId| #[trigger] st.1.contains(k) implies records.contains_key(k) by {
        let i = choose|i: int| 0 <= i < nodes.len() && nodes[i].id == Some(k);
        assert(nodes[i].id matches Some(k2) && records.contains_key(k2));
    }
    assert forall|k: ExprId| #[trigger] records.contains_key(k) <==> exists|i: int|
        0 <= i < nodes.len() && nodes[i].id == Some(k) by {
        if records.contains_key(k) {
            assert(st.0.contains_key(k));
        }
        if exists|i: int| 0 <= i < nodes.len() && nodes[i].id == Some(k) {
            let i = choose|i: int| 0 <= i < nodes.len() && nodes[i].id == Some(k);
            assert(nodes[i].id matches Some(k2) && records.contains_key(k2));
        }
    }
}

proof fn lemma_ctor_values_ok(
    v: Vec<Expr>,
    env: TypingEnv,
    sc: Seq<(u64, TypeV)>,
    fields: Seq<Symbol>,
    def: CtorDef,
    targs: Seq<TypeV>,
    span: Span,
    n: int,
)
    requires
        0 <= n <= v@.len(),
        n <= fields.len(),
        ctor_values_v(v, env, sc, fields, def, targs, span, n) is Ok,
    ensures
        forall|i: int| 0 <= i < n ==> #[trigger] infer_in(v@[i], env, sc) is Ok,
    decreases n,
{
    if n > 0 {
        lemma_ctor_values_ok(v, env, sc, fields, def, targs, span, n - 1);
    }
}

/// A constructor call types only if every one of its field values types.
pub proof fn law_typed_constructor_call_has_typed_fields(e: Expr, env: TypingEnv)
    requires
        e.kind is ConstructorCall,
        infer_v(e, env) is Ok,
    ensures
        forall|i: int| 0 <= i < e.operands@.len() ==> #[trigger] infer_v(e.operands@[i], env) is Ok,
{
    if let ExprKind::ConstructorCall { callee, generic_args, fields } = e.kind {
        let k = crate::expr_typing::first_key(env.constructors@, callee)->Some_0;
        let def = env.constructors@[k].1;
        let targs = crate::ctor_generics::resolve_v(def.params@, generic_args@, e.span)->Ok_0;
        lemma_ctor_values_ok(e.operands, env, scope_view(env.locals@), fields@, def, targs, e.span, fields@.len() as int);
    }
}

proof fn lemma_run_deferred(
    nodes: Seq<Expr>,
    owner: DagId,
    revision: BodyRevision,
    records: Map<ExprId, Box<CheckedExpressionRecord>>,
    cat: IndexCardinalities,
    st: PublishStateV,
)
    requires
        run_from(nodes, owner, revision, records, cat, st) is Ok,
    ensures
        forall|k: ExprId|
            #![trigger run_from(nodes, owner, revision, records, cat, st)->Ok_0.1.contains(k)]
            run_from(nodes, owner, revision, records, cat, st)->Ok_0.1.contains(k) <==> st.1.contains(k)
                || exists|i: int|
                0 <= i < nodes.len() && nodes[i].id == Some(k) && record_ready_v(
                    *records[k],
                    (#[trigger] run_from(nodes.take(i), owner, revision, records, cat, st))->Ok_0.1,
                    cat,
                ) == Ok::<bool, crate::expression_facts::FactsErrV>(false),
    decreases nodes.len(),
{
    if nodes.len() > 0 {
        let rest = nodes.drop_first();
        match node_step_v(nodes[0], owner, revision, records, cat, st) {
            Err(_) => {},
            Ok(sa) => {
                lemma_run_deferred(rest, owner, revision, records, cat, sa);
                let st1 = run_from(nodes, owner, revision, records, cat, st)->Ok_0;
                assert(run_from(nodes, owner, revision, records, cat, st) == run_from(
                    rest,
                    owner,
                    revision,
                    records,
                    cat,
                    sa,
                ));
                let k0 = nodes[0].id->Some_0;
                assert(nodes.take(0) =~= Seq::<Expr>::empty());
                assert(run_from(nodes.take(0), owner, revision, records, cat, st) == Ok::<
                    PublishStateV,
                    crate::expression_facts::FactsErrV,
                >(st));
                assert forall|j: int| 0 <= j < rest.len() implies run_from(
                    nodes.take(j + 1),
                    owner,
                    revision,
                    records,
                    cat,
                    st,
                ) == run_from(rest.take(j), owner, revision, records, cat, sa) by {
                    assert(nodes.take(j + 1).drop_first() =~= rest.take(j));
                    assert(nodes.take(j + 1)[0] == nodes[0]);
                }
                assert forall|k: ExprId| #[trigger] st1.1.contains(k) <==> st.1.contains(k) || exists|i: int|
                    0 <= i < nodes.len() && nodes[i].id == Some(k) && record_ready_v(
                        *records[k],
                        (#[trigger] run_from(nodes.take(i), owner, revision, records, cat, st))->Ok_0.1,
                        cat,
                    ) == Ok::<bool, crate::expression_facts::FactsErrV>(false) by {
                    let at0 = nodes[0].id == Some(k) && record_ready_v(*records[k], st.1, cat) == Ok::<
                        bool,
                        crate::expression_facts::FactsErrV,
                    >(false);
                    let later = exists|j: int|
                        0 <= j < rest.len() && rest[j].id == Some(k) && record_ready_v(
                            *records[k],
                            (#[trigger] run_from(rest.take(j), owner, revision, records, cat, sa))->Ok_0.1,
                            cat,
                        ) == Ok::<bool, crate::expression_facts::FactsErrV>(false);
                    assert(sa.1.contains(k) <==> st.1.contains(k) || at0);
                    if later {
                        let j = choose|j: int|
                            0 <= j < rest.len() && rest[j].id == Some(k) && record_ready_v(
                                *records[k],
                                (#[trigger] run_from(rest.take(j), owner, revision, records, cat, sa))->Ok_0.1,
                                cat,
                            ) == Ok::<bool, crate::expression_facts::FactsErrV>(false);
                        assert(nodes[j + 1] == rest[j]);
                        assert(run_from(nodes.take(j + 1), owner, revision, records, cat, st) == run_from(
                            rest.take(j),
                            owner,
                            revision,
                            records,
                            cat,
                            sa,
                        ));
                    }
                    if at0 {
                        assert(run_from(nodes.take(0), owner, revision, records, cat, st)->Ok_0.1 == st.1);
                    }
                    if exists|i: int|
                        0 <= i < nodes.len() && nodes[i].id == Some(k) && record_ready_v(
                            *records[k],
                            (#[trigger] run_from(nodes.take(i), owner, revision, records, cat, st))->Ok_0.1,
                            cat,
                        ) == Ok::<bool, crate::expression_facts::FactsErrV>(false) {
                        let i = choose|i: int|
                            0 <= i < nodes.len() && nodes[i].id == Some(k) && record_ready_v(
                                *records[k],
                                (#[trigger] run_from(nodes.take(i), owner, revision, records, cat, st))->Ok_0.1,
                                cat,
                            ) == Ok::<bool, crate::expression_facts::FactsErrV>(false);
                        if i > 0 {
                            assert(rest[i - 1] == nodes[i]);
                            assert(run_from(nodes.take(i), owner, revision, records, cat, st) == run_from(
                                rest.take(i - 1),
                                owner,
                                revision,
                                records,
                                cat,
                                sa,
                            ));
                        }
                    }
                }
            },
        }
    }
}

/// An identity is deferred in a publication exactly when, at some node that
/// carries it, its record is not ready given the identities deferred by the
/// nodes checked before that one (post-order: operands before their node).
pub proof fn law_deferred_identities_are_the_unready_nodes(
    owner: DagId,
    revision: BodyRevision,
    roots: Seq<Expr>,
    records: Map<ExprId, Box<CheckedExpressionRecord>>,
    cat: IndexCardinalities,
)
    requires
        publication_v(owner, revision, roots, records, cat) is Ok,
    ensures
        forall|k: ExprId|
            #![trigger publication_v(owner, revision, roots, records, cat)->Ok_0.1.contains(k)]
            publication_v(owner, revision, roots, records, cat)->Ok_0.1.contains(k) <==> exists|i: int|
                0 <= i < post_order_roots(roots, roots.len() as int).len() && post_order_roots(
                    roots,
                    roots.len() as int,
                )[i].id == Some(k) && record_ready_v(
                    *records[k],
                    (#[trigger] run_from(
                        post_order_roots(roots, roots.len() as int).take(i),
                        owner,
                        revision,
                        records,
                        cat,
                        (Map::empty(), Set::empty()),
                    ))->Ok_0.1,
                    cat,
                ) == Ok::<bool, crate::expression_facts::FactsErrV>(false),
{
    let nodes = post_order_roots(roots, roots.len() as int);
    let st0: PublishStateV = (Map::empty(), Set::empty());
    lemma_run_deferred(nodes, owner, revision, records, cat, st0);
}

proof fn lemma_no_bad_arity(entries: Seq<Seq<Symbol>>, n: nat, i: int)
    requires
        0 <= i <= entries.len(),
        first_bad_arity(entries, n, i) is None,
    ensures
        forall|j: int| i <= j < entries.len() ==> #[trigger] entries[j].len() == n,
    decreases entries.len() - i,
{
    if i < entries.len() {
        lemma_no_bad_arity(entries, n, i + 1);
    }
}

proof fn lemma_no_bad_entry(axes: Seq<Seq<Symbol>>, entries: Seq<Seq<Symbol>>, i: int)
    requires
        0 <= i <= entries.len(),
        first_bad_entry(axes, entries, i) is None,
    ensures
        forall|j: int| i <= j < entries.len() ==> entry_ok(axes, entries, j),
    decreases entries.len() - i,
{
    if i < entries.len() {
        lemma_no_bad_entry(axes, entries, i + 1);
    }
}

/// A map literal that types lists every key tuple of its axes exactly once:
/// its keys pass the key check against the variants of the axes its first
/// entry names, and the entries cover those axes' key space.
pub proof fn law_accepted_map_literal_covers_its_key_space(e: Expr, env: TypingEnv)
    requires
        e.kind is MapLiteral,
        infer_v(e, env) is Ok,
    ensures
        match e.kind {
            ExprKind::MapLiteral { keys } => exists|axes: Seq<ResolvedName>|
                map_keys_checked_v(env, keys@, e.span) == Ok::<Seq<ResolvedName>, ExprTypeErrorV>(axes)
                    && #[trigger] entries_cover(axis_variants(env, axes), entry_variants(keys@)),
            _ => true,
        },
{
    match e.kind {
        ExprKind::MapLiteral { keys } => {
            let r = map_keys_checked_v(env, keys@, e.span);
            assert(r is Ok);
            let axes = r->Ok_0;
            let av = axis_variants(env, axes);
            let ev = entry_variants(keys@);
            assert(map_keys_v(av, ev) is Ok);
            lemma_no_bad_arity(ev, av.len(), 0);
            lemma_no_bad_entry(av, ev, 0);
            assert(entries_cover(av, ev));
        },
        _ => {},
    }
}

/// The Time dimension: exponent one on Time and zero on every other base.
pub open spec fn time_dim() -> Seq<(int, int)> {
    base_v(base_position(BaseDimId::Prelude(PreludeBaseDimension::Time)))
}

/// Subtracting two datetimes of one time scale gives a Time duration, never
/// a datetime; adding that duration back to a datetime of the scale gives a
/// datetime of the same scale.
pub proof fn law_datetime_difference_is_a_duration(s: TimeScale, ls: Span, rs: Span, es: Span, c: Option<i64>)
    ensures
        binop_v(BinOp::Sub, TypeV::Datetime(s), ls, TypeV::Datetime(s), rs, es, c) == Ok::<TypeV, TypeRuleError>(
            TypeV::Quantity(time_dim()),
        ),
        binop_v(
            BinOp::Add,
            TypeV::Datetime(s),
            ls,
            binop_v(BinOp::Sub, TypeV::Datetime(s), ls, TypeV::Datetime(s), rs, es, c)->Ok_0,
            rs,
            es,
            c,
        ) == Ok::<TypeV, TypeRuleError>(TypeV::Datetime(s)),
{
}

/// The outer product of a vector over `a` and a vector over `b` is a matrix
/// whose rows run along `a` and whose columns run along `b`, holding the
/// product of the two dimensions.
pub proof fn law_outer_product_rows_follow_the_first_vector(
    dl: Seq<(int, int)>,
    a: IndexRefV,
    dr: Seq<(int, int)>,
    b: IndexRefV,
    card: Option<usize>,
)
    requires
        dim_mul_v(dl, dr) is Some,
    ensures
        la_v(
            LinearAlgebraFn::Outer,
            seq![TypeV::Indexed(Box::new(TypeV::Quantity(dl)), a), TypeV::Indexed(Box::new(TypeV::Quantity(dr)), b)],
            card,
        ) matches Ok(t) && crate::linear_algebra::axes_v(t) == seq![a, b] && crate::linear_algebra::leaf_v(t)
            == TypeV::Quantity(dim_mul_v(dl, dr)->0),
{
    let u = TypeV::Indexed(Box::new(TypeV::Quantity(dl)), a);
    let v = TypeV::Indexed(Box::new(TypeV::Quantity(dr)), b);
    assert(crate::linear_algebra::axes_v(TypeV::Quantity(dl)) =~= Seq::<IndexRefV>::empty());
    assert(crate::linear_algebra::axes_v(TypeV::Quantity(dr)) =~= Seq::<IndexRefV>::empty());
    assert(crate::linear_algebra::axes_v(u) =~= seq![a]);
    assert(crate::linear_algebra::axes_v(v) =~= seq![b]);
    let d = dim_mul_v(dl, dr)->0;
    let t = quantity_over_v(d, seq![a, b]);
    assert(seq![a, b].drop_first() =~= seq![b]);
    assert(seq![b].drop_first() =~= Seq::<IndexRefV>::empty());
    let q = quantity_over_v(d, Seq::<IndexRefV>::empty());
    assert(q == TypeV::Quantity(d));
    let inner = quantity_over_v(d, seq![b]);
    assert(inner == TypeV::Indexed(Box::new(q), b));
    assert(t == TypeV::Indexed(Box::new(inner), a));
    assert(crate::linear_algebra::axes_v(q) =~= Seq::<IndexRefV>::empty());
    assert(crate::linear_algebra::axes_v(inner) =~= seq![b]);
    assert(crate::linear_algebra::axes_v(t) =~= seq![a, b]);
    assert(crate::linear_algebra::leaf_v(q) == q);
    assert(crate::linear_algebra::leaf_v(TypeV::Quantity(dl)) == TypeV::Quantity(dl));
    assert(crate::linear_algebra::leaf_v(TypeV::Quantity(dr)) == TypeV::Quantity(dr));
    assert(crate::linear_algebra::leaf_v(inner) == q);
    assert(crate::linear_algebra::leaf_v(t) == q);
    assert(crate::linear_algebra::leaf_v(u) == TypeV::Quantity(dl));
    assert(crate::linear_algebra::leaf_v(v) == TypeV::Quantity(dr));
}

/// A complex number built from a magnitude and an angle carries the
/// magnitude's dimension, and its absolute value gives the magnitude's
/// dimension back.
pub proof fn law_polar_carries_the_magnitude_dimension(dm: Seq<(int, int)>)
    ensures
        complex_v(ComplexFn::Polar, seq![TypeV::Quantity(dm), TypeV::Quantity(angle_v())]) == Ok::<
            TypeV,
            ComplexTypeError,
        >(TypeV::Complex(dm)),
        complex_v(
            ComplexFn::Absolute,
            seq![complex_v(ComplexFn::Polar, seq![TypeV::Quantity(dm), TypeV::Quantity(angle_v())])->Ok_0],
        ) == Ok::<TypeV, ComplexTypeError>(TypeV::Quantity(dm)),
{
}

/// How a time scale is written in lower case.
pub open spec fn scale_spelling(s: TimeScale) -> Seq<char> {
    match s {
        TimeScale::UTC => "utc"@,
        TimeScale::TAI => "tai"@,
        TimeScale::TT => "tt"@,
        TimeScale::TDB => "tdb"@,
        TimeScale::ET => "et"@,
        TimeScale::GPST => "gpst"@,
        TimeScale::GST => "gst"@,
        TimeScale::BDT => "bdt"@,
        TimeScale::QZSST => "qzsst"@,
    }
}

/// A built-in typed as a time-scale conversion converts to the scale its
/// name spells (`to_tai` to TAI, `to_utc` to UTC, ...), and converting any
/// datetime with it gives a datetime of that scale.
pub proof fn law_scale_conversions_convert_to_the_scale_they_name(n: BuiltinFnName, t: TypeV, span: Span)
    requires
        type_rule_v(n) is TimeScaleConversion,
    ensures
        spelling_v(n) == "to_"@ + scale_spelling(type_rule_v(n)->TimeScaleConversion_0),
        t is Datetime ==> time_scale_conversion_v(t, span, type_rule_v(n)->TimeScaleConversion_0)
            == Ok::<TypeV, TypeRuleError>(TypeV::Datetime(type_rule_v(n)->TimeScaleConversion_0)),
{
    reveal_strlit("to_");
    match n {
        BuiltinFnName::ToUtc => {
            reveal_strlit("to_utc");
            reveal_strlit("utc");
            assert(spelling_v(n) =~= "to_"@ + "utc"@);
        },
        BuiltinFnName::ToTai => {
            reveal_strlit("to_tai");
            reveal_strlit("tai");
            assert(spelling_v(n) =~= "to_"@ + "tai"@);
        },
        BuiltinFnName::ToTt => {
            reveal_strlit("to_tt");
            reveal_strlit("tt");
            assert(spelling_v(n) =~= "to_"@ + "tt"@);
        },
        BuiltinFnName::ToTdb => {
            reveal_strlit("to_tdb");
            reveal_strlit("tdb");
            assert(spelling_v(n) =~= "to_"@ + "tdb"@);
        },
        BuiltinFnName::ToEt => {
            reveal_strlit("to_et");
            reveal_strlit("et");
            assert(spelling_v(n) =~= "to_"@ + "et"@);
        },
        BuiltinFnName::ToGpst => {
            reveal_strlit("to_gpst");
            reveal_strlit("gpst");
            assert(spelling_v(n) =~= "to_"@ + "gpst"@);
        },
        BuiltinFnName::ToGst => {
            reveal_strlit("to_gst");
            reveal_strlit("gst");
            assert(spelling_v(n) =~= "to_"@ + "gst"@);
        },
        BuiltinFnName::ToBdt => {
            reveal_strlit("to_bdt");
            reveal_strlit("bdt");
            assert(spelling_v(n) =~= "to_"@ + "bdt"@);
        },
        BuiltinFnName::ToQzsst => {
            reveal_strlit("to_qzsst");
            reveal_strlit("qzsst");
            assert(spelling_v(n) =~= "to_"@ + "qzsst"@);
        },
        _ => {},
    }
}

/// A datetime annotation accepts a datetime only of its own time scale, so
/// a declaration annotated with one scale whose body gives a datetime of
/// another is rejected.
pub proof fn law_datetime_annotation_needs_the_same_scale(a: TimeScale, b: TimeScale, d: Declaration, env: TypingEnv)
    requires
        d.annotation@ == TypeV::Datetime(a),
        d.body matches Some(e) && infer_v(e, env) == Ok::<TypeV, ExprTypeErrorV>(TypeV::Datetime(b)),
    ensures
        types_match_v(TypeV::Datetime(a), TypeV::Datetime(b)) <==> a == b,
        decl_check_v(d, env) is Ok <==> a == b,
{
}

/// A matrix of `d` with rows along `a` and columns along `b`.
pub open spec fn matrix_v(d: Seq<(int, int)>, a: IndexRefV, b: IndexRefV) -> TypeV {
    TypeV::Indexed(Box::new(TypeV::Indexed(Box::new(TypeV::Quantity(d)), b)), a)
}

proof fn lemma_matrix(d: Seq<(int, int)>, a: IndexRefV, b: IndexRefV)
    ensures
        quantity_over_v(d, seq![a, b]) == matrix_v(d, a, b),
        crate::linear_algebra::axes_v(matrix_v(d, a, b)) == seq![a, b],
        crate::linear_algebra::leaf_v(matrix_v(d, a, b)) == TypeV::Quantity(d),
{
    assert(seq![a, b].drop_first() =~= seq![b]);
    assert(seq![b].drop_first() =~= Seq::<IndexRefV>::empty());
    let q = TypeV::Quantity(d);
    assert(quantity_over_v(d, Seq::<IndexRefV>::empty()) == q);
    assert(quantity_over_v(d, seq![b]) == TypeV::Indexed(Box::new(q), b));
    assert(crate::linear_algebra::axes_v(q) =~= Seq::<IndexRefV>::empty());
    assert(crate::linear_algebra::axes_v(TypeV::Indexed(Box::new(q), b)) =~= seq![b]);
    assert(crate::linear_algebra::axes_v(matrix_v(d, a, b)) =~= seq![a, b]);
    assert(crate::linear_algebra::leaf_v(q) == q);
    assert(crate::linear_algebra::leaf_v(TypeV::Indexed(Box::new(q), b)) == q);
}

/// Transposing a matrix swaps its row and column axes and keeps its
/// dimension; transposing twice gives the matrix back.
pub proof fn law_transpose_swaps_the_axes(d: Seq<(int, int)>, a: IndexRefV, b: IndexRefV, card: Option<usize>)
    ensures
        la_v(LinearAlgebraFn::Transpose, seq![matrix_v(d, a, b)], card) == Ok::<TypeV, LaErrV>(matrix_v(d, b, a)),
        la_v(LinearAlgebraFn::Transpose, seq![la_v(LinearAlgebraFn::Transpose, seq![matrix_v(d, a, b)], card)->Ok_0], card)
            == Ok::<TypeV, LaErrV>(matrix_v(d, a, b)),
{
    lemma_matrix(d, a, b);
    lemma_matrix(d, b, a);
}

/// The product of a matrix over rows `a` and columns `b` with a matrix over
/// rows `b` and columns `c` runs along `a` and `c` and holds the product of
/// the dimensions.
pub proof fn law_matrix_product_keeps_the_outer_axes(
    dl: Seq<(int, int)>,
    dr: Seq<(int, int)>,
    a: IndexRefV,
    b: IndexRefV,
    c: IndexRefV,
    card: Option<usize>,
)
    requires
        dim_mul_v(dl, dr) is Some,
    ensures
        la_v(LinearAlgebraFn::Matmul, seq![matrix_v(dl, a, b), matrix_v(dr, b, c)], card) == Ok::<TypeV, LaErrV>(
            matrix_v(dim_mul_v(dl, dr)->0, a, c),
        ),
{
    lemma_matrix(dl, a, b);
    lemma_matrix(dr, b, c);
    lemma_matrix(dim_mul_v(dl, dr)->0, a, c);
}

/// A Time duration moves a datetime within its time scale, from either
/// side; a datetime plus a non-Time quantity, the sum of two datetimes and
/// the difference of datetimes of two scales are rejected.
pub proof fn law_durations_shift_datetimes(
    s: TypeV,
    q: Seq<(int, int)>,
    ls: Span,
    rs: Span,
    es: Span,
    c: Option<i64>,
)
    requires
        s is Datetime,
    ensures
        binop_v(BinOp::Add, s, ls, TypeV::Quantity(time_dim()), rs, es, c) == Ok::<TypeV, TypeRuleError>(s),
        binop_v(BinOp::Sub, s, ls, TypeV::Quantity(time_dim()), rs, es, c) == Ok::<TypeV, TypeRuleError>(s),
        binop_v(BinOp::Add, TypeV::Quantity(time_dim()), ls, s, rs, es, c) == Ok::<TypeV, TypeRuleError>(s),
        q != time_dim() ==> binop_v(BinOp::Add, s, ls, TypeV::Quantity(q), rs, es, c) is Err,
        binop_v(BinOp::Add, s, ls, s, rs, es, c) is Err,
        forall|t: TimeScale| t != s->Datetime_0 ==> #[trigger] binop_v(BinOp::Sub, s, ls, TypeV::Datetime(t), rs, es, c) is Err,
{
}

/// A quantity annotation accepts exactly the quantities of its dimension.
pub proof fn law_quantity_annotation_needs_the_same_dimension(a: Seq<(int, int)>, b: Seq<(int, int)>)
    ensures
        types_match_v(TypeV::Quantity(a), TypeV::Quantity(b)) <==> a == b,
        !types_match_v(TypeV::Quantity(a), TypeV::Bool),
        !types_match_v(TypeV::Bool, TypeV::Quantity(b)),
{
}

/// A complex built from two parts of one dimension, or from one real
/// quantity, has that dimension, and its real and imaginary parts give it
/// back as a real quantity.
pub proof fn law_complex_parts_keep_the_dimension(d: Seq<(int, int)>)
    ensures
        complex_v(ComplexFn::Rectangular, seq![TypeV::Quantity(d), TypeV::Quantity(d)]) == Ok::<TypeV, ComplexTypeError>(
            TypeV::Complex(d),
        ),
        complex_v(ComplexFn::ToComplex, seq![TypeV::Quantity(d)]) == Ok::<TypeV, ComplexTypeError>(TypeV::Complex(d)),
        complex_v(ComplexFn::Real, seq![TypeV::Complex(d)]) == Ok::<TypeV, ComplexTypeError>(TypeV::Quantity(d)),
        complex_v(ComplexFn::Imaginary, seq![TypeV::Complex(d)]) == Ok::<TypeV, ComplexTypeError>(TypeV::Quantity(d)),
        complex_v(ComplexFn::Conjugate, seq![TypeV::Complex(d)]) == Ok::<TypeV, ComplexTypeError>(TypeV::Complex(d)),
{
}

} // verus!
