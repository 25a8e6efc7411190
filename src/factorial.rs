use vstd::prelude::*;

use crate::decimal::Dec;
use crate::multiplex::types::{Multiplex, all_wf};

verus! {

/// Largest argument whose factorial is a single scalar of the table.
pub const FAC_TABLE_MAX: usize = 27;

/// `n!`.
pub open spec fn fact(n: nat) -> int
    decreases n,
{
    if n == 0 {
        1
    } else {
        n * fact((n - 1) as nat)
    }
}

/// The factors `m_fac` gives for `n!`: the table's entry for `min(n, 27)!`, then the
/// integers `28 ..= n`.
pub open spec fn fac_factors(n: nat) -> Seq<Dec>
    decreases n,
{
    if n <= FAC_TABLE_MAX {
        seq![Dec::int_spec(fact(n))]
    } else {
        fac_factors((n - 1) as nat).push(Dec::int_spec(n as int))
    }
}

/// Product of the integer values of scale-0 factors.
pub open spec fn int_product(s: Seq<Dec>) -> int
    decreases s.len(),
{
    if s.len() == 0 {
        1
    } else {
        int_product(s.drop_last()) * s.last().mant
    }
}

/// The factors of `m_fac(n)` are integers whose product is `n!`.
pub proof fn lemma_fac_factors(n: nat)
    requires
        n <= usize::MAX,
    ensures
        int_product(fac_factors(n)) == fact(n),
        all_wf(fac_factors(n)),
        forall|i: int| 0 <= i < fac_factors(n).len() ==> (#[trigger] fac_factors(n)[i]).scale == 0,
    decreases n,
{
    if n <= FAC_TABLE_MAX {
        lemma_fact_table(n);
        let s = fac_factors(n);
        assert(s.drop_last() =~= Seq::<Dec>::empty());
        assert(int_product(Seq::<Dec>::empty()) == 1);
        assert(int_product(s) == int_product(s.drop_last()) * s.last().mant);
    } else {
        lemma_fac_factors((n - 1) as nat);
        let s = fac_factors(n);
        assert(s.drop_last() =~= fac_factors((n - 1) as nat));
        assert(s.last().mant == n);
        assert(int_product(s) == int_product(s.drop_last()) * s.last().mant);
        assert(n * fact((n - 1) as nat) == fact((n - 1) as nat) * n) by (nonlinear_arith);
    }
}

/// The table's factorials fit a scalar's mantissa.
pub proof fn lemma_fact_table(n: nat)
    requires
        n <= FAC_TABLE_MAX,
    ensures
        0 < fact(n) <= 10888869450418352160768000000,
        fact(n) as i128 == fact(n),
{
    lemma_fact_table_values();
}

/// The table's entries.
pub proof fn lemma_fact_table_values()
    ensures
        fact(0) == 1,
        fact(1) == 1,
        fact(2) == 2,
        fact(3) == 6,
        fact(4) == 24,
        fact(5) == 120,
        fact(6) == 720,
        fact(7) == 5040,
        fact(8) == 40320,
        fact(9) == 362880,
        fact(10) == 3628800,
        fact(11) == 39916800,
        fact(12) == 479001600,
        fact(13) == 6227020800,
        fact(14) == 87178291200,
        fact(15) == 1307674368000,
        fact(16) == 20922789888000,
        fact(17) == 355687428096000,
        fact(18) == 6402373705728000,
        fact(19) == 121645100408832000,
        fact(20) == 2432902008176640000,
        fact(21) == 51090942171709440000,
        fact(22) == 1124000727777607680000,
        fact(23) == 25852016738884976640000,
        fact(24) == 620448401733239439360000,
        fact(25) == 15511210043330985984000000,
        fact(26) == 403291461126605635584000000,
        fact(27) == 10888869450418352160768000000,
{
    assert(fact(0) == 1);
    assert(fact(1) == 1);
    assert(fact(2) == 2);
    assert(fact(3) == 6);
    assert(fact(4) == 24);
    assert(fact(5) == 120);
    assert(fact(6) == 720);
    assert(fact(7) == 5040);
    assert(fact(8) == 40320);
    assert(fact(9) == 362880);
    assert(fact(10) == 3628800);
    assert(fact(11) == 39916800);
    assert(fact(12) == 479001600);
    assert(fact(13) == 6227020800);
    assert(fact(14) == 87178291200);
    assert(fact(15) == 1307674368000);
    assert(fact(16) == 20922789888000);
    assert(fact(17) == 355687428096000);
    assert(fact(18) == 6402373705728000);
    assert(fact(19) == 121645100408832000);
    assert(fact(20) == 2432902008176640000);
    assert(fact(21) == 51090942171709440000);
    assert(fact(22) == 1124000727777607680000);
    assert(fact(23) == 25852016738884976640000);
    assert(fact(24) == 620448401733239439360000);
    assert(fact(25) == 15511210043330985984000000);
    assert(fact(26) == 403291461126605635584000000);
    assert(fact(27) == 10888869450418352160768000000);
}

/// `k!` for `k <= 27`, from a table.
pub fn fac_table(k: usize) -> (r: Dec)
    requires
        k <= FAC_TABLE_MAX,
    ensures
        r == Dec::int_spec(fact(k as nat)),
        r.wf(),
{
    proof {
        lemma_fact_table(k as nat);
        lemma_fact_table_values();
    }
    let m: i128 = match k {
        0 => 1,
        1 => 1,
        2 => 2,
        3 => 6,
        4 => 24,
        5 => 120,
        6 => 720,
        7 => 5040,
        8 => 40320,
        9 => 362880,
        10 => 3628800,
        11 => 39916800,
        12 => 479001600,
        13 => 6227020800,
        14 => 87178291200,
        15 => 1307674368000,
        16 => 20922789888000,
        17 => 355687428096000,
        18 => 6402373705728000,
        19 => 121645100408832000,
        20 => 2432902008176640000,
        21 => 51090942171709440000,
        22 => 1124000727777607680000,
        23 => 25852016738884976640000,
        24 => 620448401733239439360000,
        25 => 15511210043330985984000000,
        26 => 403291461126605635584000000,
        _ => 10888869450418352160768000000,
    };
    Dec::new(m, 0)
}

/// `n!` as an unevaluated product: the table's value for small arguments, extended by
/// the integers above the table for larger ones.
pub fn m_fac(n: usize) -> (r: Multiplex)
    ensures
        r.mul@ == fac_factors(n as nat),
        r.div@ == Seq::<Dec>::empty(),
        r.wf(),
{
    proof {
        lemma_fac_factors(n as nat);
    }
    let top: usize = if n <= FAC_TABLE_MAX { n } else { FAC_TABLE_MAX };
    let mut r = Multiplex::new().mul_dec(fac_table(top));
    assert(r.mul@ =~= fac_factors(top as nat));
    let mut k: usize = top;
    while k < n
        invariant
            top <= k <= n,
            r.mul@ == fac_factors(k as nat),
            r.div@ == Seq::<Dec>::empty(),
            n <= FAC_TABLE_MAX ==> k == n,
            k >= FAC_TABLE_MAX || k == n,
        decreases n - k,
    {
        k = k + 1;
        r = r.mul_dec(crate::arithmetic::dec(k));
    }
    proof {
        lemma_fac_factors(n as nat);
    }
    r
}

} // verus!
