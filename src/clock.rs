use vstd::prelude::*;

verus! {

/// Appends one character to a string.
///
/// Relies on `String::push`: the character is added at the end.
#[verifier::external_body]
pub(crate) fn push_char(s: &mut String, c: char)
    ensures
        final(s)@ == old(s)@.push(c),
{
    s.push(c)
}

/// The local wall-clock time as `YYYYMMDDHHMMSS`.
///
/// Relies on `chrono::Local::now` and its `format("%Y%m%d%H%M%S")`. Nothing is
/// promised of the text: it depends on the moment of the call.
#[verifier::external_body]
pub(crate) fn local_stamp() -> (r: String) {
    chrono::Local::now().format("%Y%m%d%H%M%S").to_string()
}

/// The local year and month (1 to 12) now.
///
/// Relies on `chrono::Local::now` with `Datelike::year` and `Datelike::month`;
/// chrono gives the month as a number from 1 to 12.
#[verifier::external_body]
pub(crate) fn local_year_month() -> (r: (i32, u32))
    ensures
        1 <= r.1 <= 12,
{
    let now = chrono::Local::now();
    (chrono::Datelike::year(&now), chrono::Datelike::month(&now))
}

/// What `str::trim` leaves of a text.
pub uninterp spec fn trim_of(s: Seq<char>) -> Seq<char>;

/// The text without leading and trailing whitespace.
///
/// Relies on `str::trim`, whose result depends on the text alone.
#[verifier::external_body]
pub(crate) fn trim(s: &str) -> (r: &str)
    ensures
        r@ == trim_of(s@),
{
    s.trim()
}

} // verus!
