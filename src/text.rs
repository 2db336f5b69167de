//! Small text helpers for diagnostic messages.

use vstd::prelude::*;
use crate::graph::{MorphismId, ObjectId};

verus! {

/// The decimal digit for `d`, which is below ten.
pub open spec fn digit_char(d: nat) -> char {
    if d == 0 {
        '0'
    } else if d == 1 {
        '1'
    } else if d == 2 {
        '2'
    } else if d == 3 {
        '3'
    } else if d == 4 {
        '4'
    } else if d == 5 {
        '5'
    } else if d == 6 {
        '6'
    } else if d == 7 {
        '7'
    } else if d == 8 {
        '8'
    } else {
        '9'
    }
}

/// The decimal notation of `n`, without leading zeros.
pub open spec fn decimal_of(n: nat) -> Seq<char>
    decreases n,
{
    if n < 10 {
        seq![digit_char(n)]
    } else {
        decimal_of(n / 10) + seq![digit_char(n % 10)]
    }
}

fn digit_str(d: u64) -> (r: &'static str)
    requires
        d < 10,
    ensures
        r@ == seq![digit_char(d as nat)],
{
    proof {
        reveal_strlit("0");
        reveal_strlit("1");
        reveal_strlit("2");
        reveal_strlit("3");
        reveal_strlit("4");
        reveal_strlit("5");
        reveal_strlit("6");
        reveal_strlit("7");
        reveal_strlit("8");
        reveal_strlit("9");
    }
    if d == 0 {
        "0"
    } else if d == 1 {
        "1"
    } else if d == 2 {
        "2"
    } else if d == 3 {
        "3"
    } else if d == 4 {
        "4"
    } else if d == 5 {
        "5"
    } else if d == 6 {
        "6"
    } else if d == 7 {
        "7"
    } else if d == 8 {
        "8"
    } else {
        proof {
            assert(seq!['9'] =~= "9"@);
        }
        "9"
    }
}

/// The decimal notation of `n`.
pub fn decimal(n: u64) -> (r: String)
    ensures
        r@ == decimal_of(n as nat),
    decreases n,
{
    if n < 10 {
        String::from_str(digit_str(n))
    } else {
        decimal(n / 10).concat(digit_str(n % 10))
    }
}

/// `ObjectId(n)`.
pub open spec fn object_id_seq(id: ObjectId) -> Seq<char> {
    "ObjectId("@ + decimal_of(id.0 as nat) + ")"@
}

/// `MorphismId(n)`.
pub open spec fn morphism_id_seq(id: MorphismId) -> Seq<char> {
    "MorphismId("@ + decimal_of(id.0 as nat) + ")"@
}

/// `ObjectId(n)`, as the id is shown in messages.
pub fn object_id_text(id: ObjectId) -> (r: String)
    ensures
        r@ == "ObjectId("@ + decimal_of(id.0 as nat) + ")"@,
{
    String::from_str("ObjectId(").concat(decimal(id.0 as u64).as_str()).concat(")")
}

/// `MorphismId(n)`, as the id is shown in messages.
pub fn morphism_id_text(id: MorphismId) -> (r: String)
    ensures
        r@ == "MorphismId("@ + decimal_of(id.0 as nat) + ")"@,
{
    String::from_str("MorphismId(").concat(decimal(id.0 as u64).as_str()).concat(")")
}

/// The concatenation of three pieces.
pub fn concat3(a: &str, b: &str, c: &str) -> (r: String)
    ensures
        r@ == a@ + b@ + c@,
{
    String::from_str(a).concat(b).concat(c)
}

/// The concatenation of five pieces.
pub fn concat5(a: &str, b: &str, c: &str, d: &str, e: &str) -> (r: String)
    ensures
        r@ == a@ + b@ + c@ + d@ + e@,
{
    String::from_str(a).concat(b).concat(c).concat(d).concat(e)
}

} // verus!
