//! Classification of an optional integer reading into a report or a refusal.

use vstd::prelude::*;
use crate::decimal::{decimal, push_decimal};

verus! {

/// What `process_result` returns for `value`, as character sequences.
pub open spec fn process_result_spec(value: Option<i32>) -> Result<Seq<char>, Seq<char>> {
    match value {
        Some(n) => if n > 0 {
            Ok("Positive: "@ + decimal(n as nat))
        } else if n == 0 {
            Ok("Zero"@)
        } else {
            Err("Negative values not allowed"@)
        },
        None => Err("No value provided"@),
    }
}

/// Reports a positive or zero value; refuses a negative or missing one.
pub fn process_result(value: Option<i32>) -> (r: Result<String, &'static str>)
    ensures
        match r {
            Ok(s) => process_result_spec(value) == Ok::<Seq<char>, Seq<char>>(s@),
            Err(e) => process_result_spec(value) == Err::<Seq<char>, Seq<char>>(e@),
        },
{
    match value {
        Some(n) => {
            if n > 0 {
                let mut s = String::from_str("Positive: ");
                push_decimal(&mut s, n as usize);
                Ok(s)
            } else if n == 0 {
                Ok(String::from_str("Zero"))
            } else {
                Err("Negative values not allowed")
            }
        },
        None => Err("No value provided"),
    }
}

} // verus!
