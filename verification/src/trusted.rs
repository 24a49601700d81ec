//! The crate's trusted boundary: contracts assumed of functions from outside
//! the crate, each named in a doc comment above the item that relies on it.

use vstd::prelude::*;

verus! {

/// What `str::to_uppercase` returns for a given character sequence; the
/// result depends on the characters alone.
pub uninterp spec fn upper_of(s: Seq<char>) -> Seq<char>;

/// Relies on `str::to_uppercase` from the standard library: the uppercased
/// form of a string is a function of its characters alone.
pub assume_specification[ str::to_uppercase ](s: &str) -> (r: String)
    ensures
        r@ == upper_of(s@),
;

/// Relies on `String::push` from the standard library: it appends exactly
/// the one character to the string.
pub assume_specification[ String::push ](s: &mut String, c: char)
    ensures
        final(s)@ == old(s)@.push(c),
;

/// What the fixed UTC textual rendering of the instant `secs` seconds plus
/// `nanos` nanoseconds after the epoch looks like; the text depends on the
/// instant alone.
pub uninterp spec fn utc_text_of(secs: int, nanos: int) -> Seq<char>;

/// Relies on `chrono::DateTime::<chrono::Utc>::from_timestamp` and on the
/// `Display` rendering of `chrono::DateTime<chrono::Utc>`: an in-range epoch
/// offset converts to a calendar instant (`Some` throughout the years 1
/// through 9999, well inside chrono's documented range), and the rendering
/// is a fixed UTC text determined by the instant alone.
#[verifier::external_body]
pub(crate) fn render_utc(secs: i64, nanos: u32) -> (r: String)
    requires
        -62135596800 <= secs < 253402300800,
        nanos < 1_000_000_000,
    ensures
        r@ == utc_text_of(secs as int, nanos as int),
{
    let instant = chrono::DateTime::<chrono::Utc>::from_timestamp(secs, nanos).unwrap();
    format!("{}", instant)
}

} // verus!
