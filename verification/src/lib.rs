//! Dimension and type checking kernels of the Graphcal compiler's typed IR.

pub mod rational;
pub mod dimension;
pub mod nat_form;
pub mod index;
pub mod types;
pub mod declared;
pub mod rules;
pub mod complex;
pub mod linear_algebra;
pub mod builtin_call;
pub mod materialized_shape;
pub mod cycles;
pub mod model_schema;
pub mod hir;
pub mod static_index;
pub mod expression_facts;
pub mod template_closure;
pub mod assertions;
pub mod dag_cycles;
pub mod laws;
pub mod keys;
pub mod bound_nat;
pub mod domain_bounds;
pub mod fields;
pub mod signature;
pub mod const_fold;
pub mod resolved;
pub mod inline_dag;
pub mod reconciliation;
pub mod plot;
pub mod fin_bound;
pub mod index_access;
pub mod scan;
pub mod for_comp;
pub mod match_arms;
pub mod type_conversion;
pub mod aggregation;
pub mod unfold;
pub mod expr_typing;
pub mod tir_check;
pub mod ctor_generics;
pub mod nat_poly;
pub mod presentation;
