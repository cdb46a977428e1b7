use vstd::arithmetic::power::*;
use vstd::prelude::*;

verus! {

/// Whether partitions of `p` notes at depth `d` leave at most `m` of the
/// `k^l` melodies in one leaf directory: `m * (k^d)^p >= k^l`.
pub open spec fn covers(k: nat, l: nat, m: nat, d: nat, p: nat) -> bool {
    m * pow(k as int, d * p) >= pow(k as int, l)
}

/// The first `q >= p` that covers, searching no further than `l`.
pub open spec fn least_cover(k: nat, l: nat, m: nat, d: nat, p: nat) -> nat
    decreases l - p,
{
    if p >= l || covers(k, l, m, d, p) {
        p
    } else {
        least_cover(k, l, m, d, p + 1)
    }
}

/// Notes per partition: the ceiling of the logarithm, to base `k^d`, of the
/// number of melodies over the number of files allowed per directory.
/// With depth zero nothing is encoded and the length is zero.
pub open spec fn partition_length(k: nat, l: nat, m: nat, d: nat) -> nat {
    if d == 0 {
        0
    } else {
        least_cover(k, l, m, d, 0)
    }
}

pub proof fn lemma_pow_nonnegative(b: nat, e: nat)
    ensures
        pow(b as int, e) >= 0,
        b >= 1 ==> pow(b as int, e) >= 1,
{
    if b >= 1 {
        lemma_pow_positive(b as int, e);
    } else {
        if e == 0 {
            lemma_pow0(0);
        } else {
            lemma0_pow(e);
        }
    }
}

/// With at least one note, covering at `p` below the melody length means
/// that the tail left after the partitions has at most `m` melodies.
pub proof fn lemma_covers_tail(k: nat, l: nat, m: nat, d: nat, p: nat)
    requires
        k >= 1,
        d * p <= l,
    ensures
        covers(k, l, m, d, p) <==> pow(k as int, (l - d * p) as nat) <= m,
{
    let head = pow(k as int, d * p);
    let tail = pow(k as int, (l - d * p) as nat);
    lemma_pow_adds(k as int, d * p, (l - d * p) as nat);
    assert(d * p + (l - d * p) as nat == l);
    assert(pow(k as int, l) == head * tail);
    lemma_pow_positive(k as int, d * p);
    lemma_pow_positive(k as int, (l - d * p) as nat);
    assert((m * head >= head * tail) <==> (tail <= m)) by (nonlinear_arith)
        requires
            head > 0,
            tail > 0,
            m >= 0,
    ;
}

/// Once the partitions take in the whole melody, they cover.
pub proof fn lemma_covers_whole(k: nat, l: nat, m: nat, d: nat, p: nat)
    requires
        k >= 1,
        m >= 1,
        d * p >= l,
    ensures
        covers(k, l, m, d, p),
{
    lemma_pow_increases(k, l, d * p);
    lemma_pow_positive(k as int, d * p);
    let head = pow(k as int, d * p);
    assert(m * head >= head) by (nonlinear_arith)
        requires
            m >= 1,
            head > 0,
    ;
}

/// The search does not go back, and does not go past the melody length.
pub proof fn lemma_least_cover_bound(k: nat, l: nat, m: nat, d: nat, p: nat)
    ensures
        p <= least_cover(k, l, m, d, p),
        p <= l ==> least_cover(k, l, m, d, p) <= l,
    decreases l - p,
{
    if p < l && !covers(k, l, m, d, p) {
        lemma_least_cover_bound(k, l, m, d, p + 1);
    }
}

/// The search returns a value that covers, and nothing before it does.
pub proof fn lemma_least_cover(k: nat, l: nat, m: nat, d: nat, p: nat)
    requires
        k >= 1,
        m >= 1,
        d >= 1,
        p <= l,
    ensures
        p <= least_cover(k, l, m, d, p) <= l,
        covers(k, l, m, d, least_cover(k, l, m, d, p)),
        forall|q: nat| p <= q < least_cover(k, l, m, d, p) ==> !covers(k, l, m, d, q),
    decreases l - p,
{
    if p >= l {
        assert(d * p >= l) by (nonlinear_arith)
            requires
                d >= 1,
                p >= l,
        ;
        lemma_covers_whole(k, l, m, d, p);
    } else if covers(k, l, m, d, p) {
    } else {
        lemma_least_cover(k, l, m, d, p + 1);
    }
}

/// The partition length is the least number of notes per partition that
/// keeps every leaf directory within the limit, and it never exceeds the
/// melody length.
pub proof fn lemma_partition_length_is_least(k: nat, l: nat, m: nat, d: nat)
    requires
        k >= 1,
        m >= 1,
        d >= 1,
    ensures
        partition_length(k, l, m, d) <= l,
        covers(k, l, m, d, partition_length(k, l, m, d)),
        forall|q: nat| q < partition_length(k, l, m, d) ==> !covers(k, l, m, d, q),
{
    lemma_least_cover(k, l, m, d, 0);
}

/// When nothing smaller covers and `p` does, the search from zero ends at `p`.
pub proof fn lemma_least_cover_unique(k: nat, l: nat, m: nat, d: nat, p: nat)
    requires
        k >= 1,
        m >= 1,
        d >= 1,
        p <= l,
        covers(k, l, m, d, p),
        forall|q: nat| q < p ==> !covers(k, l, m, d, q),
    ensures
        partition_length(k, l, m, d) == p,
{
    lemma_least_cover(k, l, m, d, 0);
    let r = partition_length(k, l, m, d);
    if r < p {
        assert(!covers(k, l, m, d, r));
    } else if p < r {
        assert(!covers(k, l, m, d, p));
    }
}

} // verus!
