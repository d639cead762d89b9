//! Synthesized temporary names.
//!
//! Code generation threads the value of an expression-valued construct
//! through a fresh temporary. A temporary's name is `tmp_` followed by the
//! decimal rendering of a monotonically increasing counter, and the
//! rendering is injective (`lemma_temp_names_distinct`), so names minted
//! from distinct counter values never collide, however deeply constructs
//! are nested.

use vstd::arithmetic::div_mod::{lemma_div_decreases, lemma_fundamental_div_mod};
use vstd::prelude::*;
use vstd::string::StringExecFns;

verus! {

/// The decimal digit character for `d` in `0..10`.
pub open spec fn dec_digit_char(d: int) -> char {
    if d == 0 {
        '0'
    } else if d == 1 {
        '1'
    } else if d == 2 {
        '2'
    } else if d == 3 {
        '3'
    } else if d == 4 {
        '4'
    } else if d == 5 {
        '5'
    } else if d == 6 {
        '6'
    } else if d == 7 {
        '7'
    } else if d == 8 {
        '8'
    } else {
        '9'
    }
}

#[via_fn]
proof fn dec_rep_decreases(n: nat) {
    if n >= 10 {
        lemma_div_decreases(n as int, 10);
    }
}

/// The decimal rendering of `n`, most significant digit first, no leading
/// zeros (a lone zero for `n == 0`).
pub open spec fn dec_rep(n: nat) -> Seq<char>
    decreases n
        via dec_rep_decreases
{
    if n < 10 {
        seq![dec_digit_char(n as int)]
    } else {
        dec_rep(n / 10).push(dec_digit_char((n % 10) as int))
    }
}

/// The name of the temporary minted for counter value `n`.
pub open spec fn temp_name_text(n: nat) -> Seq<char> {
    seq!['t', 'm', 'p', '_'] + dec_rep(n)
}

proof fn lemma_dec_rep_len(n: nat)
    ensures
        dec_rep(n).len() >= 1,
        n >= 10 ==> dec_rep(n).len() >= 2,
    decreases n,
{
    if n >= 10 {
        lemma_div_decreases(n as int, 10);
        lemma_dec_rep_len(n / 10);
    }
}

proof fn lemma_dec_rep_injective(a: nat, b: nat)
    requires
        dec_rep(a) == dec_rep(b),
    ensures
        a == b,
    decreases a + b,
{
    lemma_dec_rep_len(a);
    lemma_dec_rep_len(b);
    if a < 10 && b < 10 {
        assert(dec_rep(a)[0] == dec_digit_char(a as int));
        assert(dec_rep(b)[0] == dec_digit_char(b as int));
        assert(a == b);
    } else if a < 10 {
        assert(dec_rep(a).len() == 1);
        assert(false);
    } else if b < 10 {
        assert(dec_rep(b).len() == 1);
        assert(false);
    } else {
        let pa = dec_rep(a / 10);
        let pb = dec_rep(b / 10);
        let da = dec_digit_char((a % 10) as int);
        let db = dec_digit_char((b % 10) as int);
        assert(dec_rep(a) == pa.push(da));
        assert(dec_rep(b) == pb.push(db));
        assert(dec_rep(a).last() == da);
        assert(dec_rep(b).last() == db);
        assert(a % 10 == b % 10);
        assert(pa =~= dec_rep(a).drop_last());
        assert(pb =~= dec_rep(b).drop_last());
        lemma_div_decreases(a as int, 10);
        lemma_div_decreases(b as int, 10);
        lemma_dec_rep_injective(a / 10, b / 10);
        lemma_fundamental_div_mod(a as int, 10);
        lemma_fundamental_div_mod(b as int, 10);
    }
}

/// Distinct counter values yield distinct temporary names, so the names
/// minted across one code-generation run are pairwise distinct.
pub proof fn lemma_temp_names_distinct(a: nat, b: nat)
    requires
        a != b,
    ensures
        temp_name_text(a) != temp_name_text(b),
{
    if temp_name_text(a) == temp_name_text(b) {
        assert(dec_rep(a) =~= temp_name_text(a).subrange(4, temp_name_text(a).len() as int));
        assert(dec_rep(b) =~= temp_name_text(b).subrange(4, temp_name_text(b).len() as int));
        lemma_dec_rep_injective(a, b);
    }
}

fn digit_str(d: u64) -> (r: &'static str)
    requires
        d < 10,
    ensures
        r@ == seq![dec_digit_char(d as int)],
{
    proof {
        reveal_strlit("0");
        reveal_strlit("1");
        reveal_strlit("2");
        reveal_strlit("3");
        reveal_strlit("4");
        reveal_strlit("5");
        reveal_strlit("6");
        reveal_strlit("7");
        reveal_strlit("8");
        reveal_strlit("9");
    }
    match d {
        0 => "0",
        1 => "1",
        2 => "2",
        3 => "3",
        4 => "4",
        5 => "5",
        6 => "6",
        7 => "7",
        8 => "8",
        _ => "9",
    }
}

fn push_dec(n: u64, out: &mut String)
    ensures
        final(out)@ == old(out)@ + dec_rep(n as nat),
    decreases n,
{
    if n >= 10 {
        push_dec(n / 10, out);
    }
    let d = digit_str(n % 10);
    out.append(d);
    proof {
        if n < 10 {
            assert((n % 10) as nat == n as nat);
            assert(out@ =~= old(out)@ + dec_rep(n as nat));
        } else {
            assert((n / 10) as nat == (n as nat) / 10);
            assert((n % 10) as nat == (n as nat) % 10);
            assert(out@ =~= old(out)@ + dec_rep(n as nat));
        }
    }
}

/// Render the temporary name for counter value `n`.
pub fn temp_name(n: u64) -> (r: String)
    ensures
        r@ == temp_name_text(n as nat),
{
    let mut s = String::from_str("tmp_");
    proof {
        reveal_strlit("tmp_");
        assert(s@ =~= seq!['t', 'm', 'p', '_']);
    }
    push_dec(n, &mut s);
    proof {
        assert(s@ =~= temp_name_text(n as nat));
    }
    s
}

} // verus!
