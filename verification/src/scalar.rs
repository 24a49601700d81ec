//! The type mapper: from a column's native type name to the graph type
//! system's scalar kind, with the textual kinds as the safe default; and the
//! coercer's dispatch table, which picks the typed accessor for a native
//! type. The two tables are proved to agree family by family.

use vstd::prelude::*;

use crate::text::str_eq;

verus! {

/// The graph type system's primitive kinds.
#[derive(PartialEq, Eq, Structural, Clone, Copy, Debug)]
pub enum ScalarKind {
    Boolean,
    Integer,
    Float,
    Text,
}

/// The scalar kind declared for a native column type: booleans, the integer
/// families, the float families, the character families, timestamps as fixed
/// UTC text, and text as the default for anything unrecognized.
pub open spec fn spec_col_type(t: Seq<char>) -> ScalarKind {
    if t == "bool"@ {
        ScalarKind::Boolean
    } else if t == "varchar"@ || t == "char(n)"@ || t == "text"@ || t == "name"@ {
        ScalarKind::Text
    } else if t == "char"@ {
        ScalarKind::Text
    } else if t == "int2"@ || t == "smallserial"@ || t == "smallint"@ {
        ScalarKind::Integer
    } else if t == "integer"@ || t == "int"@ || t == "int4"@ || t == "serial"@ {
        ScalarKind::Integer
    } else if t == "int8"@ || t == "bigserial"@ || t == "bigint"@ {
        ScalarKind::Integer
    } else if t == "float4"@ || t == "real"@ {
        ScalarKind::Float
    } else if t == "float8"@ || t == "double precision"@ {
        ScalarKind::Float
    } else if t == "timestamp"@ || t == "timestamptz"@ {
        ScalarKind::Text
    } else {
        ScalarKind::Text
    }
}

/// Maps a native column type name to its graph scalar kind.
pub fn col_type(pg_type: &str) -> (k: ScalarKind)
    ensures
        k == spec_col_type(pg_type@),
{
    if str_eq(pg_type, "bool") {
        ScalarKind::Boolean
    } else if str_eq(pg_type, "varchar") || str_eq(pg_type, "char(n)") || str_eq(pg_type, "text")
        || str_eq(pg_type, "name") {
        ScalarKind::Text
    } else if str_eq(pg_type, "char") {
        ScalarKind::Text
    } else if str_eq(pg_type, "int2") || str_eq(pg_type, "smallserial") || str_eq(
        pg_type,
        "smallint",
    ) {
        ScalarKind::Integer
    } else if str_eq(pg_type, "integer") || str_eq(pg_type, "int") || str_eq(pg_type, "int4")
        || str_eq(pg_type, "serial") {
        ScalarKind::Integer
    } else if str_eq(pg_type, "int8") || str_eq(pg_type, "bigserial") || str_eq(
        pg_type,
        "bigint",
    ) {
        ScalarKind::Integer
    } else if str_eq(pg_type, "float4") || str_eq(pg_type, "real") {
        ScalarKind::Float
    } else if str_eq(pg_type, "float8") || str_eq(pg_type, "double precision") {
        ScalarKind::Float
    } else if str_eq(pg_type, "timestamp") || str_eq(pg_type, "timestamptz") {
        ScalarKind::Text
    } else {
        ScalarKind::Text
    }
}

/// The typed accessor a raw result row is read through for a native type.
#[derive(PartialEq, Eq, Structural, Clone, Copy, Debug)]
pub enum AccessorKind {
    BoolRead,
    TextRead,
    CharRead,
    SmallIntRead,
    IntRead,
    BigIntRead,
    Float4Read,
    Float8Read,
    TimestampRead,
    UnknownRead,
}

/// The dispatch table of the value coercer: which typed accessor serves a
/// native column type. Mirrors the families of the type mapper.
pub open spec fn spec_accessor_kind(t: Seq<char>) -> AccessorKind {
    if t == "bool"@ {
        AccessorKind::BoolRead
    } else if t == "varchar"@ || t == "char(n)"@ || t == "text"@ || t == "name"@ {
        AccessorKind::TextRead
    } else if t == "char"@ {
        AccessorKind::CharRead
    } else if t == "int2"@ || t == "smallserial"@ || t == "smallint"@ {
        AccessorKind::SmallIntRead
    } else if t == "integer"@ || t == "int"@ || t == "int4"@ || t == "serial"@ {
        AccessorKind::IntRead
    } else if t == "int8"@ || t == "bigserial"@ || t == "bigint"@ {
        AccessorKind::BigIntRead
    } else if t == "float4"@ || t == "real"@ {
        AccessorKind::Float4Read
    } else if t == "float8"@ || t == "double precision"@ {
        AccessorKind::Float8Read
    } else if t == "timestamp"@ || t == "timestamptz"@ {
        AccessorKind::TimestampRead
    } else {
        AccessorKind::UnknownRead
    }
}

/// Picks the typed accessor for a native column type.
pub fn accessor_kind(pg_type: &str) -> (k: AccessorKind)
    ensures
        k == spec_accessor_kind(pg_type@),
{
    if str_eq(pg_type, "bool") {
        AccessorKind::BoolRead
    } else if str_eq(pg_type, "varchar") || str_eq(pg_type, "char(n)") || str_eq(pg_type, "text")
        || str_eq(pg_type, "name") {
        AccessorKind::TextRead
    } else if str_eq(pg_type, "char") {
        AccessorKind::CharRead
    } else if str_eq(pg_type, "int2") || str_eq(pg_type, "smallserial") || str_eq(
        pg_type,
        "smallint",
    ) {
        AccessorKind::SmallIntRead
    } else if str_eq(pg_type, "integer") || str_eq(pg_type, "int") || str_eq(pg_type, "int4")
        || str_eq(pg_type, "serial") {
        AccessorKind::IntRead
    } else if str_eq(pg_type, "int8") || str_eq(pg_type, "bigserial") || str_eq(
        pg_type,
        "bigint",
    ) {
        AccessorKind::BigIntRead
    } else if str_eq(pg_type, "float4") || str_eq(pg_type, "real") {
        AccessorKind::Float4Read
    } else if str_eq(pg_type, "float8") || str_eq(pg_type, "double precision") {
        AccessorKind::Float8Read
    } else if str_eq(pg_type, "timestamp") || str_eq(pg_type, "timestamptz") {
        AccessorKind::TimestampRead
    } else {
        AccessorKind::UnknownRead
    }
}

/// The scalar kind whose textual values an accessor's rendering belongs to.
pub open spec fn scalar_of_accessor(k: AccessorKind) -> ScalarKind {
    match k {
        AccessorKind::BoolRead => ScalarKind::Boolean,
        AccessorKind::TextRead => ScalarKind::Text,
        AccessorKind::CharRead => ScalarKind::Text,
        AccessorKind::SmallIntRead => ScalarKind::Integer,
        AccessorKind::IntRead => ScalarKind::Integer,
        AccessorKind::BigIntRead => ScalarKind::Integer,
        AccessorKind::Float4Read => ScalarKind::Float,
        AccessorKind::Float8Read => ScalarKind::Float,
        AccessorKind::TimestampRead => ScalarKind::Text,
        AccessorKind::UnknownRead => ScalarKind::Text,
    }
}

/// The type mapper and the value coercer's dispatch agree on the scalar
/// family of every native column type: the accessor picked for a type reads
/// into the same family that the type is declared with.
pub proof fn lemma_dispatch_agreement(t: Seq<char>)
    ensures
        scalar_of_accessor(spec_accessor_kind(t)) == spec_col_type(t),
{
}

} // verus!
