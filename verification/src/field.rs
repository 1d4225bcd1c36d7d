//! The five numeric arguments: port, map width, map height, clients per
//! team and tick frequency. Each is a positive decimal numeral that fits
//! the integer type of its field.

use crate::numeral::{
    decimal_digits, denotes_at_most, is_numeral, lemma_decimal_digits_denote, numeral_value,
    parse_decimal,
};
use vstd::prelude::*;

verus! {

/// What reading `s` as a positive number of at most `max` gives: the
/// number, or the reason it is refused. Text that is no numeral, and a
/// numeral above `max`, are refused with `malformed`; a numeral worth
/// zero is refused with `zero`.
pub open spec fn bounded_outcome(
    s: Seq<char>,
    max: nat,
    malformed: Seq<char>,
    zero: Seq<char>,
) -> Result<nat, Seq<char>> {
    if !denotes_at_most(s, max) {
        Err(malformed)
    } else if numeral_value(s) == 0 {
        Err(zero)
    } else {
        Ok(numeral_value(s))
    }
}

/// The outcome of reading `s` as a listen port.
pub open spec fn port_outcome(s: Seq<char>) -> Result<nat, Seq<char>> {
    bounded_outcome(s, 0xffff, "not a valid port"@, "Port must be greater than 0."@)
}

/// The outcome of reading `s` as a map width.
pub open spec fn width_outcome(s: Seq<char>) -> Result<nat, Seq<char>> {
    bounded_outcome(s, 0xff, "not a valid width"@, "Width must be greater than 0"@)
}

/// The outcome of reading `s` as a map height.
pub open spec fn height_outcome(s: Seq<char>) -> Result<nat, Seq<char>> {
    bounded_outcome(s, 0xff, "not a valid height"@, "Height must be greater than 0"@)
}

/// The outcome of reading `s` as the number of clients allowed per team.
pub open spec fn nb_clients_outcome(s: Seq<char>) -> Result<nat, Seq<char>> {
    bounded_outcome(
        s,
        0xffff_ffff_ffff_ffff,
        "not a valid clients number"@,
        "Clients number must greater than 0"@,
    )
}

/// The outcome of reading `s` as a tick frequency.
pub open spec fn freq_outcome(s: Seq<char>) -> Result<nat, Seq<char>> {
    bounded_outcome(s, 0xffff, "not a valid freq number"@, "freq must greater than 0"@)
}

/// Reads `s` as a positive decimal number of at most `max`, answering a
/// refusal with a copy of `malformed` or of `zero`.
pub fn parse_positive(s: &str, max: u64, malformed: &str, zero: &str) -> (r: Result<u64, String>)
    ensures
        r matches Ok(v) ==> bounded_outcome(s@, max as nat, malformed@, zero@) == Ok::<
            nat,
            Seq<char>,
        >(v as nat),
        r matches Err(e) ==> bounded_outcome(s@, max as nat, malformed@, zero@) == Err::<
            nat,
            Seq<char>,
        >(e@),
{
    match parse_decimal(s, max) {
        None => Err(malformed.to_owned()),
        Some(v) => {
            if v == 0 {
                Err(zero.to_owned())
            } else {
                Ok(v)
            }
        },
    }
}

/// Reads a map height: a decimal numeral from 1 to 255.
pub fn parse_height(s: &str) -> (r: Result<u8, String>)
    ensures
        r matches Ok(v) ==> height_outcome(s@) == Ok::<nat, Seq<char>>(v as nat),
        r matches Err(e) ==> height_outcome(s@) == Err::<nat, Seq<char>>(e@),
{
    match parse_positive(s, 0xff, "not a valid height", "Height must be greater than 0") {
        Ok(v) => Ok(v as u8),
        Err(e) => Err(e),
    }
}

/// Reads a map width: a decimal numeral from 1 to 255.
pub fn parse_width(s: &str) -> (r: Result<u8, String>)
    ensures
        r matches Ok(v) ==> width_outcome(s@) == Ok::<nat, Seq<char>>(v as nat),
        r matches Err(e) ==> width_outcome(s@) == Err::<nat, Seq<char>>(e@),
{
    match parse_positive(s, 0xff, "not a valid width", "Width must be greater than 0") {
        Ok(v) => Ok(v as u8),
        Err(e) => Err(e),
    }
}

/// Reads a listen port: a decimal numeral from 1 to 65535.
pub fn parse_port(s: &str) -> (r: Result<u16, String>)
    ensures
        r matches Ok(v) ==> port_outcome(s@) == Ok::<nat, Seq<char>>(v as nat),
        r matches Err(e) ==> port_outcome(s@) == Err::<nat, Seq<char>>(e@),
{
    match parse_positive(s, 0xffff, "not a valid port", "Port must be greater than 0.") {
        Ok(v) => Ok(v as u16),
        Err(e) => Err(e),
    }
}

/// Reads the number of clients allowed per team: a decimal numeral from 1
/// to 2^64 - 1.
pub fn parse_nb_clients(s: &str) -> (r: Result<u64, String>)
    ensures
        r matches Ok(v) ==> nb_clients_outcome(s@) == Ok::<nat, Seq<char>>(v as nat),
        r matches Err(e) ==> nb_clients_outcome(s@) == Err::<nat, Seq<char>>(e@),
{
    parse_positive(
        s,
        0xffff_ffff_ffff_ffff,
        "not a valid clients number",
        "Clients number must greater than 0",
    )
}

/// Reads a tick frequency: a decimal numeral from 1 to 65535.
pub fn parse_freq(s: &str) -> (r: Result<u16, String>)
    ensures
        r matches Ok(v) ==> freq_outcome(s@) == Ok::<nat, Seq<char>>(v as nat),
        r matches Err(e) ==> freq_outcome(s@) == Err::<nat, Seq<char>>(e@),
{
    match parse_positive(s, 0xffff, "not a valid freq number", "freq must greater than 0") {
        Ok(v) => Ok(v as u16),
        Err(e) => Err(e),
    }
}

/// Every positive number that fits a field is accepted by that field when
/// written in base ten, and comes back unchanged.
pub proof fn lemma_positive_in_range_accepted(n: nat)
    requires
        n >= 1,
    ensures
        n <= 0xffff ==> port_outcome(decimal_digits(n)) == Ok::<nat, Seq<char>>(n),
        n <= 0xff ==> width_outcome(decimal_digits(n)) == Ok::<nat, Seq<char>>(n),
        n <= 0xff ==> height_outcome(decimal_digits(n)) == Ok::<nat, Seq<char>>(n),
        n <= 0xffff_ffff_ffff_ffff ==> nb_clients_outcome(decimal_digits(n)) == Ok::<
            nat,
            Seq<char>,
        >(n),
        n <= 0xffff ==> freq_outcome(decimal_digits(n)) == Ok::<nat, Seq<char>>(n),
{
    lemma_decimal_digits_denote(n);
}

/// A numeral worth zero is refused by every field, however it is written
/// (`0`, `000`, `+0`).
pub proof fn lemma_zero_refused(s: Seq<char>)
    requires
        is_numeral(s),
        numeral_value(s) == 0,
    ensures
        port_outcome(s) == Err::<nat, Seq<char>>("Port must be greater than 0."@),
        width_outcome(s) == Err::<nat, Seq<char>>("Width must be greater than 0"@),
        height_outcome(s) == Err::<nat, Seq<char>>("Height must be greater than 0"@),
        nb_clients_outcome(s) == Err::<nat, Seq<char>>("Clients number must greater than 0"@),
        freq_outcome(s) == Err::<nat, Seq<char>>("freq must greater than 0"@),
{
}

/// A number too large for a field is refused by that field when written
/// in base ten.
pub proof fn lemma_excess_refused(n: nat)
    ensures
        n > 0xffff ==> port_outcome(decimal_digits(n)) == Err::<nat, Seq<char>>(
            "not a valid port"@,
        ),
        n > 0xff ==> width_outcome(decimal_digits(n)) == Err::<nat, Seq<char>>(
            "not a valid width"@,
        ),
        n > 0xff ==> height_outcome(decimal_digits(n)) == Err::<nat, Seq<char>>(
            "not a valid height"@,
        ),
        n > 0xffff_ffff_ffff_ffff ==> nb_clients_outcome(decimal_digits(n)) == Err::<
            nat,
            Seq<char>,
        >("not a valid clients number"@),
        n > 0xffff ==> freq_outcome(decimal_digits(n)) == Err::<nat, Seq<char>>(
            "not a valid freq number"@,
        ),
{
    lemma_decimal_digits_denote(n);
}

/// Text that is not a decimal numeral is refused by every field.
pub proof fn lemma_non_numeral_refused(s: Seq<char>)
    requires
        !is_numeral(s),
    ensures
        port_outcome(s) == Err::<nat, Seq<char>>("not a valid port"@),
        width_outcome(s) == Err::<nat, Seq<char>>("not a valid width"@),
        height_outcome(s) == Err::<nat, Seq<char>>("not a valid height"@),
        nb_clients_outcome(s) == Err::<nat, Seq<char>>("not a valid clients number"@),
        freq_outcome(s) == Err::<nat, Seq<char>>("not a valid freq number"@),
{
}

} // verus!
