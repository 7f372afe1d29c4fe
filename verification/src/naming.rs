//! The plot file's name: account id, first nonce, and nonce count, each in
//! decimal, joined by underscores.

use vstd::prelude::*;
use vstd::arithmetic::div_mod::{lemma_div_decreases, lemma_div_pos_is_pos};

verus! {

/// The character of one decimal digit.
pub open spec fn spec_digit(d: int) -> char {
    seq!['0', '1', '2', '3', '4', '5', '6', '7', '8', '9'][d]
}

/// The decimal representation of a nonnegative integer: no leading zeros, a
/// single zero for zero.
pub open spec fn spec_u64_dec(n: int) -> Seq<char>
    decreases n,
    via spec_u64_dec_decreases
{
    if n <= 9 {
        seq![spec_digit(n)]
    } else {
        spec_u64_dec(n / 10).push(spec_digit(n % 10))
    }
}

#[via_fn]
proof fn spec_u64_dec_decreases(n: int) {
    if n > 9 {
        lemma_div_decreases(n, 10);
        lemma_div_pos_is_pos(n, 10);
    }
}

/// The file stem of a plot: the three task numbers joined by underscores.
pub open spec fn spec_plot_file_name(id: u64, start: u64, nonces: u64) -> Seq<char> {
    spec_u64_dec(id as int) + seq!['_'] + spec_u64_dec(start as int) + seq!['_'] + spec_u64_dec(
        nonces as int,
    )
}

/// The character of one decimal digit.
pub fn digit_char(d: u64) -> (c: char)
    requires
        d <= 9,
    ensures
        c == spec_digit(d as int),
{
    match d {
        0 => '0',
        1 => '1',
        2 => '2',
        3 => '3',
        4 => '4',
        5 => '5',
        6 => '6',
        7 => '7',
        8 => '8',
        _ => '9',
    }
}

/// The decimal digits of `n`, most significant first.
pub fn u64_dec(n: u64) -> (r: Vec<char>)
    ensures
        r@ == spec_u64_dec(n as int),
{
    let mut r: Vec<char> = Vec::new();
    let mut m: u64 = n;
    while m > 9
        invariant
            spec_u64_dec(n as int) == spec_u64_dec(m as int) + r@,
        decreases m,
    {
        let ghost r_old = r@;
        let d = m % 10;
        r.insert(0, digit_char(d));
        proof {
            assert(r@ =~= seq![spec_digit(m as int % 10)] + r_old);
            assert(spec_u64_dec(m as int / 10).push(spec_digit(m as int % 10)) + r_old
                =~= spec_u64_dec(m as int / 10) + r@);
        }
        m = m / 10;
    }
    let ghost r_old = r@;
    r.insert(0, digit_char(m));
    proof {
        assert(r@ =~= seq![spec_digit(m as int)] + r_old);
    }
    r
}

/// Append the characters of `src` to `dst`.
fn append_chars(dst: &mut Vec<char>, src: &Vec<char>)
    ensures
        final(dst)@ == old(dst)@ + src@,
{
    let mut i: usize = 0;
    while i < src.len()
        invariant
            i <= src@.len(),
            dst@ == old(dst)@ + src@.take(i as int),
        decreases src@.len() - i,
    {
        dst.push(src[i]);
        i += 1;
        proof {
            assert(dst@ =~= old(dst)@ + src@.take(i as int));
        }
    }
    proof {
        assert(dst@ =~= old(dst)@ + src@);
    }
}

/// Relies on `String::from_iter` over `char`: collecting characters yields a
/// string of exactly those characters.
#[verifier::external_body]
fn chars_to_string(v: &Vec<char>) -> (r: String)
    ensures
        r@ == v@,
{
    v.iter().collect()
}

/// The name of the plot file for a task, `"<id>_<start>_<nonces>"`.
pub fn plot_file_name(id: u64, start: u64, nonces: u64) -> (r: String)
    ensures
        r@ == spec_plot_file_name(id, start, nonces),
{
    let mut v = u64_dec(id);
    let b = u64_dec(start);
    let c = u64_dec(nonces);
    v.push('_');
    append_chars(&mut v, &b);
    v.push('_');
    append_chars(&mut v, &c);
    proof {
        assert(v@ =~= spec_plot_file_name(id, start, nonces));
    }
    chars_to_string(&v)
}

} // verus!
