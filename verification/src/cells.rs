//! The value coercer: a raw result cell, read through one of the typed
//! accessors, re-rendered to the textual form that bridges rows to field
//! resolution. An absent value renders as the `NULL` sentinel whatever the
//! column's declared type; an unrecognized native type renders as a fixed
//! marker instead of failing.

use vstd::prelude::*;

use crate::numeral::dec_int;
use crate::numeral::i64_to_dec;
use crate::numeral::lemma_dec_int_not_sentinel;
use crate::numeral::lemma_parse_dec_int;
use crate::numeral::spec_parse_i64;
use crate::trusted::render_utc;
use crate::trusted::utc_text_of;

verus! {

/// A single column value as the typed accessor dispatch reads it: one
/// variant per accessor family. Float values arrive already rendered to
/// their decimal text, since the bridge carries text only; a timestamp is an
/// epoch offset in seconds and nanoseconds.
#[derive(Debug, Clone, PartialEq, Eq)]
pub enum RawCell {
    /// SQL NULL, whatever the declared type.
    Absent,
    Boolean(bool),
    /// The one-byte character type, read as a signed byte.
    CharByte(i8),
    SmallInt(i16),
    Integer(i32),
    BigInt(i64),
    /// A float of either width, rendered to decimal text by the row bridge.
    FloatText(String),
    Text(String),
    Timestamp { secs: i64, nanos: u32 },
    /// A value of a native type outside the dispatch table.
    Unrecognized,
}

impl RawCell {
    /// A well-formed cell: a timestamp stays inside the renderable calendar
    /// (years 1 through 9999) with a valid nanosecond part.
    pub open spec fn wf(self) -> bool {
        match self {
            RawCell::Timestamp { secs, nanos } => -62135596800 <= secs < 253402300800 && nanos
                < 1_000_000_000,
            _ => true,
        }
    }
}

/// The text a raw cell renders to: the sentinel `NULL` for an absent value,
/// `true`/`false` for booleans, exact decimal digits for the integer
/// families, the carried text for the textual and float families, the fixed
/// UTC rendering for timestamps, and the marker `CANNOT PARSE` for a native
/// type outside the table.
pub open spec fn spec_render_cell(c: RawCell) -> Seq<char> {
    match c {
        RawCell::Absent => "NULL"@,
        RawCell::Boolean(b) => if b {
            "true"@
        } else {
            "false"@
        },
        RawCell::CharByte(v) => dec_int(v as int),
        RawCell::SmallInt(v) => dec_int(v as int),
        RawCell::Integer(v) => dec_int(v as int),
        RawCell::BigInt(v) => dec_int(v as int),
        RawCell::FloatText(s) => s@,
        RawCell::Text(s) => s@,
        RawCell::Timestamp { secs, nanos } => utc_text_of(secs as int, nanos as int),
        RawCell::Unrecognized => "CANNOT PARSE"@,
    }
}

/// Re-renders one raw column value to the textual form carried per row.
/// The sentinel for an absent value does not depend on the declared native
/// type: SQL NULL coerces to `NULL` whatever `native_type` says.
pub fn reflective_get(native_type: &str, cell: &RawCell) -> (r: String)
    requires
        cell.wf(),
    ensures
        r@ == spec_render_cell(*cell),
        *cell is Absent ==> r@ == "NULL"@,
{
    match cell {
        RawCell::Absent => String::from_str("NULL"),
        RawCell::Boolean(b) => if *b {
            String::from_str("true")
        } else {
            String::from_str("false")
        },
        RawCell::CharByte(v) => i64_to_dec(*v as i64),
        RawCell::SmallInt(v) => i64_to_dec(*v as i64),
        RawCell::Integer(v) => i64_to_dec(*v as i64),
        RawCell::BigInt(v) => i64_to_dec(*v),
        RawCell::FloatText(s) => s.clone(),
        RawCell::Text(s) => s.clone(),
        RawCell::Timestamp { secs, nanos } => render_utc(*secs, *nanos),
        RawCell::Unrecognized => String::from_str("CANNOT PARSE"),
    }
}

/// The coercion round trip: a boolean cell renders to a text that the strict
/// two-outcome boolean parse maps back to the stored truth, and every
/// integer-family cell renders to a text that the strict decimal parse maps
/// back to the stored number — and neither rendering collides with the
/// `NULL` sentinel, so the typed value always survives the textual bridge.
pub proof fn lemma_coercion_round_trip(c: RawCell)
    ensures
        c matches RawCell::Boolean(b) ==> (((spec_render_cell(c) == "true"@) <==> b)
            && spec_render_cell(c) != "NULL"@),
        c matches RawCell::CharByte(v) ==> (spec_parse_i64(spec_render_cell(c)) == Some(v as i64)
            && spec_render_cell(c) != "NULL"@),
        c matches RawCell::SmallInt(v) ==> (spec_parse_i64(spec_render_cell(c)) == Some(v as i64)
            && spec_render_cell(c) != "NULL"@),
        c matches RawCell::Integer(v) ==> (spec_parse_i64(spec_render_cell(c)) == Some(v as i64)
            && spec_render_cell(c) != "NULL"@),
        c matches RawCell::BigInt(v) ==> (spec_parse_i64(spec_render_cell(c)) == Some(v)
            && spec_render_cell(c) != "NULL"@),
{
    reveal_strlit("true");
    reveal_strlit("false");
    reveal_strlit("NULL");
    match c {
        RawCell::Boolean(b) => {
            assert("false"@.len() == 5);
            assert("true"@.len() == 4);
            assert("NULL"@[0] == 'N');
            assert("true"@[0] == 't');
            assert("false"@[0] == 'f');
        },
        RawCell::CharByte(v) => {
            lemma_parse_dec_int(v as int);
            lemma_dec_int_not_sentinel(v as int);
        },
        RawCell::SmallInt(v) => {
            lemma_parse_dec_int(v as int);
            lemma_dec_int_not_sentinel(v as int);
        },
        RawCell::Integer(v) => {
            lemma_parse_dec_int(v as int);
            lemma_dec_int_not_sentinel(v as int);
        },
        RawCell::BigInt(v) => {
            lemma_parse_dec_int(v as int);
            lemma_dec_int_not_sentinel(v as int);
        },
        _ => {},
    }
}

} // verus!
