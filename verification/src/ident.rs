//! Comment identifiers, and the branch name and data-file path derived
//! from them.
//!
//! An identifier is `<epoch-seconds>_<random>`, the random part drawn by
//! the caller uniformly below [`RANDOM_BOUND`]. Identifiers sort by
//! creation time under normal clock behaviour; uniqueness is
//! probabilistic, not absolute. Reading the clock and the randomness
//! source is the caller's edge work: the functions here are pure.

use vstd::prelude::*;
use vstd::string::StringExecFns;
use crate::text::{
    decimal_chars, chars_to_string, digits_value, is_digit, lemma_decimal_is_digits,
    lemma_decimal_len, lemma_decimal_value, pow10, spec_decimal,
};

verus! {

/// Exclusive upper bound of the random suffix.
pub const RANDOM_BOUND: u64 = 999_999_999;

/// The identifier formed from a timestamp and a random suffix.
pub open spec fn spec_comment_id(time: u64, rand: u64) -> Seq<char> {
    spec_decimal(time as nat) + seq!['_'] + spec_decimal(rand as nat)
}

/// Combines epoch seconds and the random suffix into the identifier.
pub fn make_comment_id(time: u64, rand: u64) -> (id: String)
    ensures
        id@ == spec_comment_id(time, rand),
{
    let mut v = decimal_chars(time);
    v.push('_');
    let mut w = decimal_chars(rand);
    v.append(&mut w);
    proof {
        assert(v@ =~= spec_comment_id(time, rand));
    }
    chars_to_string(&v)
}

/// The topic branch holding one submission's change.
pub fn branch_name_for(id: &str) -> (r: String)
    ensures
        r@ == "comments/"@ + id@,
{
    "comments/".to_owned().concat(id)
}

/// The data file holding the comments of one content item.
pub fn data_file_path(submission_path: &str) -> (r: String)
    ensures
        r@ == "content"@ + submission_path@ + "comments.yaml"@,
{
    "content".to_owned().concat(submission_path).concat("comments.yaml")
}

/// Law: an identifier is the decimal seconds, an underscore, and one to
/// nine digits of the random suffix; reading the prefix back yields the
/// timestamp. In other words, it matches `digits "_" digits{1,9}`.
pub proof fn lemma_comment_id_format(time: u64, rand: u64)
    requires
        rand < RANDOM_BOUND,
    ensures
        ({
            let tp = spec_decimal(time as nat);
            let rp = spec_decimal(rand as nat);
            &&& spec_comment_id(time, rand) == tp + seq!['_'] + rp
            &&& 1 <= tp.len()
            &&& forall|i: int| 0 <= i < tp.len() ==> is_digit(#[trigger] tp[i])
            &&& 1 <= rp.len() <= 9
            &&& forall|i: int| 0 <= i < rp.len() ==> is_digit(#[trigger] rp[i])
            &&& digits_value(tp) == time
        }),
{
    lemma_decimal_is_digits(time as nat);
    lemma_decimal_is_digits(rand as nat);
    lemma_decimal_value(time as nat);
    assert(pow10(0) == 1);
    assert(pow10(1) == 10);
    assert(pow10(2) == 100);
    assert(pow10(3) == 1000);
    assert(pow10(4) == 10000);
    assert(pow10(5) == 100000);
    assert(pow10(6) == 1000000);
    assert(pow10(7) == 10000000);
    assert(pow10(8) == 100000000);
    assert(pow10(9) == 1000000000);
    lemma_decimal_len(rand as nat, 9);
}

} // verus!
