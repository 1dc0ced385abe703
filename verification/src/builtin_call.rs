//! Routing of built-in calls to the type rule that checks them.
//!
//! Most built-ins are checked against their scalar dimension signature; the
//! ones listed here need a custom rule.

use crate::types::TimeScale;
use vstd::prelude::*;

verus! {

/// Names of built-in functions.
#[derive(Clone, Copy, Debug, PartialEq, Eq, Structural, Hash)]
pub enum BuiltinFnName {
    Sqrt,
    Abs,
    Exp,
    Ln,
    Log10,
    Sin,
    Cos,
    Tan,
    Asin,
    Acos,
    Atan,
    Atan2,
    Floor,
    Ceil,
    Round,
    Sum,
    Min,
    Max,
    Mean,
    Count,
    ToFloat,
    ToInt,
    ToUtc,
    ToTai,
    ToTt,
    ToTdb,
    ToEt,
    ToGpst,
    ToGst,
    ToBdt,
    ToQzsst,
    Datetime,
    Epoch,
    Year,
    Month,
    Day,
    Hour,
    Minute,
    Second,
    Weekday,
    DayOfYear,
    FromJd,
    FromMjd,
    FromUnix,
    ToJd,
    ToMjd,
    ToUnix,
}

/// Canonical source spelling of a built-in.
pub open spec fn spelling_v(name: BuiltinFnName) -> Seq<char> {
    match name {
        BuiltinFnName::Sqrt => "sqrt"@,
        BuiltinFnName::Abs => "abs"@,
        BuiltinFnName::Exp => "exp"@,
        BuiltinFnName::Ln => "ln"@,
        BuiltinFnName::Log10 => "log10"@,
        BuiltinFnName::Sin => "sin"@,
        BuiltinFnName::Cos => "cos"@,
        BuiltinFnName::Tan => "tan"@,
        BuiltinFnName::Asin => "asin"@,
        BuiltinFnName::Acos => "acos"@,
        BuiltinFnName::Atan => "atan"@,
        BuiltinFnName::Atan2 => "atan2"@,
        BuiltinFnName::Floor => "floor"@,
        BuiltinFnName::Ceil => "ceil"@,
        BuiltinFnName::Round => "round"@,
        BuiltinFnName::Sum => "sum"@,
        BuiltinFnName::Min => "min"@,
        BuiltinFnName::Max => "max"@,
        BuiltinFnName::Mean => "mean"@,
        BuiltinFnName::Count => "count"@,
        BuiltinFnName::ToFloat => "to_float"@,
        BuiltinFnName::ToInt => "to_int"@,
        BuiltinFnName::ToUtc => "to_utc"@,
        BuiltinFnName::ToTai => "to_tai"@,
        BuiltinFnName::ToTt => "to_tt"@,
        BuiltinFnName::ToTdb => "to_tdb"@,
        BuiltinFnName::ToEt => "to_et"@,
        BuiltinFnName::ToGpst => "to_gpst"@,
        BuiltinFnName::ToGst => "to_gst"@,
        BuiltinFnName::ToBdt => "to_bdt"@,
        BuiltinFnName::ToQzsst => "to_qzsst"@,
        BuiltinFnName::Datetime => "datetime"@,
        BuiltinFnName::Epoch => "epoch"@,
        BuiltinFnName::Year => "year"@,
        BuiltinFnName::Month => "month"@,
        BuiltinFnName::Day => "day"@,
        BuiltinFnName::Hour => "hour"@,
        BuiltinFnName::Minute => "minute"@,
        BuiltinFnName::Second => "second"@,
        BuiltinFnName::Weekday => "weekday"@,
        BuiltinFnName::DayOfYear => "day_of_year"@,
        BuiltinFnName::FromJd => "from_jd"@,
        BuiltinFnName::FromMjd => "from_mjd"@,
        BuiltinFnName::FromUnix => "from_unix"@,
        BuiltinFnName::ToJd => "to_jd"@,
        BuiltinFnName::ToMjd => "to_mjd"@,
        BuiltinFnName::ToUnix => "to_unix"@,
    }
}

impl BuiltinFnName {
    /// Canonical source spelling.
    pub fn as_str(self) -> (s: &'static str)
        ensures
            s@ == spelling_v(self),
    {
        match self {
            BuiltinFnName::Sqrt => "sqrt",
            BuiltinFnName::Abs => "abs",
            BuiltinFnName::Exp => "exp",
            BuiltinFnName::Ln => "ln",
            BuiltinFnName::Log10 => "log10",
            BuiltinFnName::Sin => "sin",
            BuiltinFnName::Cos => "cos",
            BuiltinFnName::Tan => "tan",
            BuiltinFnName::Asin => "asin",
            BuiltinFnName::Acos => "acos",
            BuiltinFnName::Atan => "atan",
            BuiltinFnName::Atan2 => "atan2",
            BuiltinFnName::Floor => "floor",
            BuiltinFnName::Ceil => "ceil",
            BuiltinFnName::Round => "round",
            BuiltinFnName::Sum => "sum",
            BuiltinFnName::Min => "min",
            BuiltinFnName::Max => "max",
            BuiltinFnName::Mean => "mean",
            BuiltinFnName::Count => "count",
            BuiltinFnName::ToFloat => "to_float",
            BuiltinFnName::ToInt => "to_int",
            BuiltinFnName::ToUtc => "to_utc",
            BuiltinFnName::ToTai => "to_tai",
            BuiltinFnName::ToTt => "to_tt",
            BuiltinFnName::ToTdb => "to_tdb",
            BuiltinFnName::ToEt => "to_et",
            BuiltinFnName::ToGpst => "to_gpst",
            BuiltinFnName::ToGst => "to_gst",
            BuiltinFnName::ToBdt => "to_bdt",
            BuiltinFnName::ToQzsst => "to_qzsst",
            BuiltinFnName::Datetime => "datetime",
            BuiltinFnName::Epoch => "epoch",
            BuiltinFnName::Year => "year",
            BuiltinFnName::Month => "month",
            BuiltinFnName::Day => "day",
            BuiltinFnName::Hour => "hour",
            BuiltinFnName::Minute => "minute",
            BuiltinFnName::Second => "second",
            BuiltinFnName::Weekday => "weekday",
            BuiltinFnName::DayOfYear => "day_of_year",
            BuiltinFnName::FromJd => "from_jd",
            BuiltinFnName::FromMjd => "from_mjd",
            BuiltinFnName::FromUnix => "from_unix",
            BuiltinFnName::ToJd => "to_jd",
            BuiltinFnName::ToMjd => "to_mjd",
            BuiltinFnName::ToUnix => "to_unix",
        }
    }
}

/// How type inference checks a built-in function call.
#[derive(Clone, Copy, Debug, PartialEq, Eq, Structural)]
pub enum BuiltinTypeRule {
    /// Use the registry's scalar dimension signature.
    RegistrySignature,
    /// One-argument reductions over indexed values.
    CollectionAggregation(AggregationFn),
    /// Type-category conversions between `Int` and dimensionless scalars.
    TypeConversion(TypeConversionFn),
    /// Datetime time-scale conversion to the carried target scale.
    TimeScaleConversion(TimeScale),
    /// Datetime constructors with constructor-specific scale rules.
    DatetimeConstructor(DatetimeConstructorFn),
    /// Datetime component extraction such as `year` and `second`.
    DatetimeExtract,
    /// Numeric-to-datetime constructors such as `from_jd`.
    DatetimeFromNumeric,
    /// Datetime-to-numeric extractors such as `to_jd`.
    DatetimeToNumeric,
}

/// Aggregation functions that reduce an indexed collection.
#[derive(Clone, Copy, Debug, PartialEq, Eq, Structural)]
pub enum AggregationFn {
    Sum,
    Min,
    Max,
    Mean,
    Count,
}

/// Type conversion functions.
#[derive(Clone, Copy, Debug, PartialEq, Eq, Structural)]
pub enum TypeConversionFn {
    ToFloat,
    ToInt,
}

impl TypeConversionFn {
    /// Canonical source spelling, for diagnostics.
    pub fn as_str(self) -> (s: &'static str)
        ensures
            s@ == spelling_v(
                match self {
                    TypeConversionFn::ToFloat => BuiltinFnName::ToFloat,
                    TypeConversionFn::ToInt => BuiltinFnName::ToInt,
                },
            ),
    {
        match self {
            TypeConversionFn::ToFloat => BuiltinFnName::ToFloat.as_str(),
            TypeConversionFn::ToInt => BuiltinFnName::ToInt.as_str(),
        }
    }
}

/// Datetime constructor functions.
#[derive(Clone, Copy, Debug, PartialEq, Eq, Structural)]
pub enum DatetimeConstructorFn {
    Datetime,
    Epoch,
}

/// The rule table.
pub open spec fn type_rule_v(name: BuiltinFnName) -> BuiltinTypeRule {
    match name {
        BuiltinFnName::Sum => BuiltinTypeRule::CollectionAggregation(AggregationFn::Sum),
        BuiltinFnName::Min => BuiltinTypeRule::CollectionAggregation(AggregationFn::Min),
        BuiltinFnName::Max => BuiltinTypeRule::CollectionAggregation(AggregationFn::Max),
        BuiltinFnName::Mean => BuiltinTypeRule::CollectionAggregation(AggregationFn::Mean),
        BuiltinFnName::Count => BuiltinTypeRule::CollectionAggregation(AggregationFn::Count),
        BuiltinFnName::ToFloat => BuiltinTypeRule::TypeConversion(TypeConversionFn::ToFloat),
        BuiltinFnName::ToInt => BuiltinTypeRule::TypeConversion(TypeConversionFn::ToInt),
        BuiltinFnName::ToUtc => BuiltinTypeRule::TimeScaleConversion(TimeScale::UTC),
        BuiltinFnName::ToTai => BuiltinTypeRule::TimeScaleConversion(TimeScale::TAI),
        BuiltinFnName::ToTt => BuiltinTypeRule::TimeScaleConversion(TimeScale::TT),
        BuiltinFnName::ToTdb => BuiltinTypeRule::TimeScaleConversion(TimeScale::TDB),
        BuiltinFnName::ToEt => BuiltinTypeRule::TimeScaleConversion(TimeScale::ET),
        BuiltinFnName::ToGpst => BuiltinTypeRule::TimeScaleConversion(TimeScale::GPST),
        BuiltinFnName::ToGst => BuiltinTypeRule::TimeScaleConversion(TimeScale::GST),
        BuiltinFnName::ToBdt => BuiltinTypeRule::TimeScaleConversion(TimeScale::BDT),
        BuiltinFnName::ToQzsst => BuiltinTypeRule::TimeScaleConversion(TimeScale::QZSST),
        BuiltinFnName::Datetime => BuiltinTypeRule::DatetimeConstructor(DatetimeConstructorFn::Datetime),
        BuiltinFnName::Epoch => BuiltinTypeRule::DatetimeConstructor(DatetimeConstructorFn::Epoch),
        BuiltinFnName::Year | BuiltinFnName::Month | BuiltinFnName::Day | BuiltinFnName::Hour
        | BuiltinFnName::Minute | BuiltinFnName::Second | BuiltinFnName::Weekday
        | BuiltinFnName::DayOfYear => BuiltinTypeRule::DatetimeExtract,
        BuiltinFnName::FromJd | BuiltinFnName::FromMjd | BuiltinFnName::FromUnix => {
            BuiltinTypeRule::DatetimeFromNumeric
        },
        BuiltinFnName::ToJd | BuiltinFnName::ToMjd | BuiltinFnName::ToUnix => {
            BuiltinTypeRule::DatetimeToNumeric
        },
        _ => BuiltinTypeRule::RegistrySignature,
    }
}

/// Classify a built-in for the type-inference call path.
pub fn type_rule_for_builtin(name: BuiltinFnName) -> (r: BuiltinTypeRule)
    ensures
        r == type_rule_v(name),
{
    match name {
        BuiltinFnName::Sum => BuiltinTypeRule::CollectionAggregation(AggregationFn::Sum),
        BuiltinFnName::Min => BuiltinTypeRule::CollectionAggregation(AggregationFn::Min),
        BuiltinFnName::Max => BuiltinTypeRule::CollectionAggregation(AggregationFn::Max),
        BuiltinFnName::Mean => BuiltinTypeRule::CollectionAggregation(AggregationFn::Mean),
        BuiltinFnName::Count => BuiltinTypeRule::CollectionAggregation(AggregationFn::Count),
        BuiltinFnName::ToFloat => BuiltinTypeRule::TypeConversion(TypeConversionFn::ToFloat),
        BuiltinFnName::ToInt => BuiltinTypeRule::TypeConversion(TypeConversionFn::ToInt),
        BuiltinFnName::ToUtc => BuiltinTypeRule::TimeScaleConversion(TimeScale::UTC),
        BuiltinFnName::ToTai => BuiltinTypeRule::TimeScaleConversion(TimeScale::TAI),
        BuiltinFnName::ToTt => BuiltinTypeRule::TimeScaleConversion(TimeScale::TT),
        BuiltinFnName::ToTdb => BuiltinTypeRule::TimeScaleConversion(TimeScale::TDB),
        BuiltinFnName::ToEt => BuiltinTypeRule::TimeScaleConversion(TimeScale::ET),
        BuiltinFnName::ToGpst => BuiltinTypeRule::TimeScaleConversion(TimeScale::GPST),
        BuiltinFnName::ToGst => BuiltinTypeRule::TimeScaleConversion(TimeScale::GST),
        BuiltinFnName::ToBdt => BuiltinTypeRule::TimeScaleConversion(TimeScale::BDT),
        BuiltinFnName::ToQzsst => BuiltinTypeRule::TimeScaleConversion(TimeScale::QZSST),
        BuiltinFnName::Datetime => BuiltinTypeRule::DatetimeConstructor(DatetimeConstructorFn::Datetime),
        BuiltinFnName::Epoch => BuiltinTypeRule::DatetimeConstructor(DatetimeConstructorFn::Epoch),
        BuiltinFnName::Year | BuiltinFnName::Month | BuiltinFnName::Day | BuiltinFnName::Hour
        | BuiltinFnName::Minute | BuiltinFnName::Second | BuiltinFnName::Weekday
        | BuiltinFnName::DayOfYear => BuiltinTypeRule::DatetimeExtract,
        BuiltinFnName::FromJd | BuiltinFnName::FromMjd | BuiltinFnName::FromUnix => {
            BuiltinTypeRule::DatetimeFromNumeric
        },
        BuiltinFnName::ToJd | BuiltinFnName::ToMjd | BuiltinFnName::ToUnix => {
            BuiltinTypeRule::DatetimeToNumeric
        },
        _ => BuiltinTypeRule::RegistrySignature,
    }
}

} // verus!
