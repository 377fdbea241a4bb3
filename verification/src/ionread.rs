//! The checks that Ion values read back must pass: the constraints of
//! their types on decimals and on blob and clob sizes, and the single type
//! annotation that tags a value.
use vstd::prelude::*;
use crate::ion::{RidlError, precision_exceeded};

verus! {

/// The message of the first constraint of a type that a decimal read
/// breaks, given the digits counted in it and its scale (its negated
/// exponent): the precision, then the exponent.
pub open spec fn read_decimal_violation(counted: int, scale: int, precision: Option<u64>, exponent: Option<i64>)
    -> Option<Seq<char>> {
    if precision_exceeded(counted, precision) {
        Some("Decimal value precision exceeded the type's precision constraint"@)
    } else if exponent matches Some(e) && -e < scale {
        Some("Decimal value exponent exceeded the type's exponent constraint"@)
    } else {
        None
    }
}

/// Checks a decimal that was read against a type's constraints, given the
/// digits counted in it and its scale: success, or the read error of the
/// first broken constraint.
pub fn check_read_decimal(counted: u64, scale: i64, precision: Option<u64>, exponent: Option<i64>)
    -> (r: Result<(), RidlError>)
    requires
        exponent matches Some(e) ==> e > i64::MIN,
    ensures
        r is Ok <==> read_decimal_violation(counted as int, scale as int, precision, exponent) is None,
        r matches Err(e) ==> e matches RidlError::ReadError(m)
            && read_decimal_violation(counted as int, scale as int, precision, exponent) == Some(m@),
{
    if let Some(p) = precision {
        if p < counted {
            return Err(RidlError::ReadError(String::from_str(
                "Decimal value precision exceeded the type's precision constraint")));
        }
    }
    if let Some(e) = exponent {
        if -e < scale {
            return Err(RidlError::ReadError(String::from_str(
                "Decimal value exponent exceeded the type's exponent constraint")));
        }
    }
    Ok(())
}

/// Checks the length of a blob or clob that was read against the size its
/// type sets: success exactly when they are equal, else the read error
/// `message`.
pub fn check_read_bytes(len: u64, size: u64, message: &str) -> (r: Result<(), RidlError>)
    ensures
        r is Ok <==> len == size,
        r matches Err(e) ==> e matches RidlError::ReadError(m) && m@ == message@,
{
    if len != size {
        Err(RidlError::ReadError(message.to_string()))
    } else {
        Ok(())
    }
}

/// The annotation of a value, where it has exactly one readable annotation
/// and that one has text: the annotations that could not be read are
/// passed over; fewer or more than one is the first error, no text the
/// second.
pub open spec fn single_tag(anns: Seq<Option<Option<String>>>) -> Result<Seq<char>, Seq<char>> {
    let ok = anns.filter(|a: Option<Option<String>>| a is Some);
    if ok.len() != 1 {
        Err("Expected a type annotation, but found none."@)
    } else {
        match ok[0] {
            Some(Some(t)) => Ok(t@),
            _ => Err("Failed to read annotation"@),
        }
    }
}

fn field_eq(a: &String, b: &String) -> (r: bool)
    ensures
        r == (a@ == b@),
{
    *a == *b
}

/// Checks the annotations of a value against the expected tag.
pub fn tag_check(anns: &Vec<Option<Option<String>>>, tag: &String) -> (r: Result<(), RidlError>)
    ensures
        match single_tag(anns@) {
            Err(m) => r matches Err(RidlError::ReadError(x)) && x@ == m,
            Ok(t) => if t == tag@ {
                r is Ok
            } else {
                r matches Err(RidlError::ReadError(x)) && x@ == "Type annotation did not match expected value."@
            },
        },
{
    let mut ok: Vec<&Option<String>> = Vec::new();
    let mut i: usize = 0;
    while i < anns.len()
        invariant
            i <= anns@.len(),
            ok@.len() == anns@.take(i as int).filter(|a: Option<Option<String>>| a is Some).len(),
            forall|j: int| 0 <= j < ok@.len() ==> Some(*#[trigger] ok@[j])
                == anns@.take(i as int).filter(|a: Option<Option<String>>| a is Some)[j],
        decreases anns@.len() - i,
    {
        proof {
            reveal(Seq::filter);
            assert(anns@.take(i + 1).drop_last() =~= anns@.take(i as int));
        }
        if let Some(a) = &anns[i] {
            ok.push(a);
        }
        i += 1;
    }
    proof { assert(anns@.take(anns@.len() as int) =~= anns@); }
    if ok.len() != 1 {
        return Err(RidlError::ReadError(String::from_str("Expected a type annotation, but found none.")));
    }
    match ok[0] {
        None => Err(RidlError::ReadError(String::from_str("Failed to read annotation"))),
        Some(t) => if field_eq(t, tag) {
            Ok(())
        } else {
            Err(RidlError::ReadError(String::from_str("Type annotation did not match expected value.")))
        },
    }
}

} // verus!
