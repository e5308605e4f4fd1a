//! A connection records when a destination was last seen and a decayed
//! weight used by the flood detector.
//!
//! The weight starts at 100 and is rescaled on every observation: by 0.9
//! when less than 500 ms passed since the previous one, by 20.2 otherwise.
//! It is held exactly as the rational `num / den`, where `den` is always a
//! power of ten.

use vstd::prelude::*;

use crate::digits::canonical;
use crate::digits::dec_mul;
use crate::digits::dec_val;
use crate::digits::lemma_len_decides_below;
use crate::digits::pow10;
use crate::digits::pow10_rep;

verus! {

/// A gap of strictly less than this many milliseconds counts as a burst
/// arrival and decays the weight.
pub const BURST_GAP_MS: u64 = 500;

pub struct Connection {
    /// When the destination was seen before the current observation, in
    /// Unix milliseconds.
    pub last: u64,
    /// When the destination was seen last, in Unix milliseconds.
    pub current: u64,
    /// Weight numerator, little-endian decimal digits.
    pub num: Vec<u8>,
    /// Weight denominator, a power of ten as little-endian decimal digits.
    pub den: Vec<u8>,
}

/// What a connection entry denotes: its two timestamps and the exact
/// weight rational.
pub ghost struct ConnInfo {
    pub last: u64,
    pub current: u64,
    pub num: nat,
    pub den: nat,
}

impl View for Connection {
    type V = ConnInfo;

    open spec fn view(&self) -> ConnInfo {
        ConnInfo {
            last: self.last,
            current: self.current,
            num: self.weight_num(),
            den: self.weight_den(),
        }
    }
}

/// What one observation at `t` does to an entry: the timestamps rotate
/// (time never moves backwards; an earlier stamp counts as the same
/// moment) and the weight is rescaled by 9/10 for a burst gap and by
/// 202/10 otherwise.
pub open spec fn conn_step(c: ConnInfo, t: u64) -> ConnInfo {
    let t2: u64 = if t >= c.current {
        t
    } else {
        c.current
    };
    ConnInfo {
        last: c.current,
        current: t2,
        num: c.num * (if t2 - c.current < BURST_GAP_MS {
            9nat
        } else {
            202nat
        }),
        den: c.den * 10,
    }
}

/// The entry a first observation at `t` creates.
pub open spec fn fresh_conn(t: u64) -> ConnInfo {
    ConnInfo { last: t, current: t, num: 100, den: 1 }
}

impl Connection {
    /// Well-formed entry: time moves forward and the weight digits are in
    /// canonical form.
    pub open spec fn wf(&self) -> bool {
        &&& self.last <= self.current
        &&& canonical(self.num@)
        &&& pow10_rep(self.den@)
    }

    /// The weight numerator as a number.
    pub open spec fn weight_num(&self) -> nat {
        dec_val(self.num@)
    }

    /// The weight denominator as a number.
    pub open spec fn weight_den(&self) -> nat {
        dec_val(self.den@)
    }

    /// The weight is below the alarm threshold of one.
    pub open spec fn spec_alarm(&self) -> bool {
        self.weight_num() < self.weight_den()
    }

    /// A fresh entry: both timestamps equal the observation time and the
    /// weight is exactly 100.
    pub fn new(time: u64) -> (r: Connection)
        ensures
            r.wf(),
            r.last == time,
            r.current == time,
            r.weight_num() == 100,
            r.weight_den() == 1,
    {
        let mut num: Vec<u8> = Vec::new();
        num.push(0);
        num.push(0);
        num.push(1);
        let mut den: Vec<u8> = Vec::new();
        den.push(1);
        proof {
            reveal_with_fuel(dec_val, 5);
            let s = seq![0u8, 0u8, 1u8];
            assert(num@ =~= s);
            assert(den@ =~= seq![1u8]);
            assert(s.skip(1) =~= seq![0u8, 1u8]);
            assert(seq![0u8, 1u8].skip(1) =~= seq![1u8]);
            assert(seq![1u8].skip(1) =~= Seq::<u8>::empty());
            assert(dec_val(seq![1u8]) == 1);
            assert(dec_val(seq![0u8, 1u8]) == 10);
            assert(dec_val(s) == 100);
        }
        Connection { last: time, current: time, num, den }
    }

    /// Record an observation at `time`: the timestamps rotate and the
    /// weight is rescaled, by 0.9 for a gap under 500 ms and by 20.2
    /// otherwise.  Returns whether the new weight is below one.
    pub fn update(&mut self, time: u64) -> (alarm: bool)
        requires
            old(self).wf(),
            time >= old(self).current,
        ensures
            final(self).wf(),
            final(self).last == old(self).current,
            final(self).current == time,
            final(self).weight_den() == old(self).weight_den() * 10,
            time - old(self).current < BURST_GAP_MS ==> final(self).weight_num() == old(
                self,
            ).weight_num() * 9,
            time - old(self).current >= BURST_GAP_MS ==> final(self).weight_num() == old(
                self,
            ).weight_num() * 202,
            alarm == final(self).spec_alarm(),
    {
        self.last = self.current;
        self.current = time;
        let gap: u64 = time - self.last;
        if gap < BURST_GAP_MS {
            self.num = dec_mul(&self.num, 9);
        } else {
            self.num = dec_mul(&self.num, 202);
        }
        let ghost d0 = self.den@;
        self.den.insert(0, 0);
        proof {
            assert(self.den@[0] == 0);
            assert(self.den@.skip(1) =~= d0);
            assert(dec_val(self.den@) == 10 * dec_val(d0));
            assert(pow10_rep(self.den@)) by {
                assert(self.den@.len() == d0.len() + 1);
                assert(self.den@[self.den@.len() - 1] == d0[d0.len() - 1]);
                assert forall|i: int| 0 <= i < self.den@.len() - 1 implies self.den@[i] == 0 by {
                    if i > 0 {
                        assert(self.den@[i] == d0[i - 1]);
                    }
                }
            }
            lemma_len_decides_below(self.num@, self.den@);
        }
        self.num.len() < self.den.len()
    }

    /// A fresh entry with the same timestamps and weight.
    pub fn duplicate(&self) -> (r: Connection)
        ensures
            r@ == self@,
            r.last == self.last,
            r.current == self.current,
            r.num@ == self.num@,
            r.den@ == self.den@,
            self.wf() ==> r.wf(),
    {
        Connection {
            last: self.last,
            current: self.current,
            num: copy_digits(&self.num),
            den: copy_digits(&self.den),
        }
    }
}

/// A fresh vector with the same digits.
fn copy_digits(v: &Vec<u8>) -> (r: Vec<u8>)
    ensures
        r@ == v@,
{
    let n = v.len();
    let mut r: Vec<u8> = Vec::new();
    let mut i: usize = 0;
    while i < n
        invariant
            n == v@.len(),
            i <= n,
            r@ == v@.take(i as int),
        decreases n - i,
    {
        r.push(v[i]);
        proof {
            assert(r@ =~= v@.take(i + 1));
        }
        i = i + 1;
    }
    proof {
        assert(v@.take(n as int) =~= v@);
    }
    r
}

/// A scoreboard step rescales the weight exactly as one law-model step
/// with the clamped gap's burst flag.
pub proof fn lemma_conn_step_weight(c: ConnInfo, t: u64)
    ensures
        ({
            let t2: u64 = if t >= c.current {
                t
            } else {
                c.current
            };
            (conn_step(c, t).num, conn_step(c, t).den) == step_weight(
                (c.num, c.den),
                t2 - c.current < BURST_GAP_MS,
            )
        }),
{
}

/// One observation rescales a weight `(num, den)`: a burst arrival by
/// 9/10, any other by 202/10.
pub open spec fn step_weight(w: (nat, nat), fast: bool) -> (nat, nat) {
    if fast {
        (w.0 * 9, w.1 * 10)
    } else {
        (w.0 * 202, w.1 * 10)
    }
}

/// The weight after a sequence of observations, `true` standing for a
/// burst arrival (gap under 500 ms).
pub open spec fn run_weight(w: (nat, nat), s: Seq<bool>) -> (nat, nat)
    decreases s.len(),
{
    if s.len() == 0 {
        w
    } else {
        run_weight(step_weight(w, s[0]), s.skip(1))
    }
}

/// The weight a fresh entry starts from: exactly 100.
pub open spec fn start_weight() -> (nat, nat) {
    (100nat, 1nat)
}

/// How many observations of a sequence were burst arrivals.
pub open spec fn count_fast(s: Seq<bool>) -> nat
    decreases s.len(),
{
    if s.len() == 0 {
        0
    } else {
        (if s[0] {
            1nat
        } else {
            0nat
        }) + count_fast(s.skip(1))
    }
}

pub open spec fn pow_nat(b: nat, e: nat) -> nat
    decreases e,
{
    if e == 0 {
        1
    } else {
        b * pow_nat(b, (e - 1) as nat)
    }
}

/// Running a sequence of observations multiplies the numerator by 9 once
/// for every burst arrival and by 202 for every other one, and the
/// denominator by 10 every time.
pub proof fn lemma_run_product(w: (nat, nat), s: Seq<bool>)
    ensures
        run_weight(w, s) == ((w.0 * pow_nat(9, count_fast(s)) * pow_nat(
            202,
            (s.len() - count_fast(s)) as nat,
        )), (w.1 * pow10(s.len()))),
    decreases s.len(),
{
    lemma_count_fast_le(s);
    if s.len() == 0 {
        assert(w.0 * pow_nat(9, 0) * pow_nat(202, 0) == w.0) by (nonlinear_arith);
        assert(w.1 * pow10(0) == w.1) by (nonlinear_arith);
    } else {
        let t = s.skip(1);
        let w1 = step_weight(w, s[0]);
        lemma_run_product(w1, t);
        lemma_count_fast_le(t);
        let f = count_fast(s);
        let g = (s.len() - f) as nat;
        let ft = count_fast(t);
        let gt = (t.len() - ft) as nat;
        if s[0] {
            assert(f == 1 + ft);
            assert(g == gt);
            assert((w.0 * 9) * pow_nat(9, ft) * pow_nat(202, gt) == w.0 * (9 * pow_nat(9, ft))
                * pow_nat(202, gt)) by (nonlinear_arith);
            assert(pow_nat(9, f) == 9 * pow_nat(9, ft));
        } else {
            assert(f == ft);
            assert(g == 1 + gt);
            assert((w.0 * 202) * pow_nat(9, ft) * pow_nat(202, gt) == w.0 * pow_nat(9, ft) * (202
                * pow_nat(202, gt))) by (nonlinear_arith);
            assert(pow_nat(202, g) == 202 * pow_nat(202, gt));
            assert(w.0 * pow_nat(9, ft) * (202 * pow_nat(202, gt)) == w.0 * pow_nat(9, f) * pow_nat(
                202,
                g,
            )) by (nonlinear_arith)
                requires
                    pow_nat(202, g) == 202 * pow_nat(202, gt),
                    f == ft,
            ;
        }
        assert((w.1 * 10) * pow10(t.len()) == w.1 * (10 * pow10(t.len()))) by (nonlinear_arith);
        assert(pow10(s.len()) == 10 * pow10(t.len()));
    }
}

/// No more burst arrivals than observations.
pub proof fn lemma_count_fast_le(s: Seq<bool>)
    ensures
        count_fast(s) <= s.len(),
    decreases s.len(),
{
    if s.len() > 0 {
        lemma_count_fast_le(s.skip(1));
    }
}

/// Starting from 100, a run of `n` burst arrivals leaves the weight at
/// exactly `100 * 0.9^n`: numerator `100 * 9^n` over denominator `10^n`.
pub proof fn lemma_burst_decay(n: nat)
    ensures
        run_weight(start_weight(), Seq::new(n, |i: int| true)) == ((100 * pow_nat(9, n)), pow10(n)),
{
    let s = Seq::new(n, |i: int| true);
    lemma_count_fast_all(s);
    lemma_run_product(start_weight(), s);
    assert(1 * pow10(n) == pow10(n)) by (nonlinear_arith);
    assert(100 * pow_nat(9, n) * pow_nat(202, 0) == 100 * pow_nat(9, n)) by (nonlinear_arith);
}

proof fn lemma_count_fast_all(s: Seq<bool>)
    requires
        forall|i: int| 0 <= i < s.len() ==> s[i],
    ensures
        count_fast(s) == s.len(),
    decreases s.len(),
{
    if s.len() > 0 {
        lemma_count_fast_all(s.skip(1));
    }
}

proof fn lemma_pow_nat_pos(b: nat, e: nat)
    requires
        b >= 1,
    ensures
        pow_nat(b, e) >= 1,
    decreases e,
{
    if e > 0 {
        lemma_pow_nat_pos(b, (e - 1) as nat);
        assert(b * pow_nat(b, (e - 1) as nat) >= 1) by (nonlinear_arith)
            requires
                b >= 1,
                pow_nat(b, (e - 1) as nat) >= 1,
        ;
    }
}

proof fn lemma_pow_nat_base_mono(a: nat, b: nat, e: nat)
    requires
        a <= b,
    ensures
        pow_nat(a, e) <= pow_nat(b, e),
    decreases e,
{
    if e > 0 {
        lemma_pow_nat_base_mono(a, b, (e - 1) as nat);
        assert(a * pow_nat(a, (e - 1) as nat) <= b * pow_nat(b, (e - 1) as nat))
            by (nonlinear_arith)
            requires
                a <= b,
                pow_nat(a, (e - 1) as nat) <= pow_nat(b, (e - 1) as nat),
        ;
    }
}

proof fn lemma_pow_nat_adds(b: nat, e1: nat, e2: nat)
    ensures
        pow_nat(b, e1 + e2) == pow_nat(b, e1) * pow_nat(b, e2),
    decreases e1,
{
    if e1 == 0 {
        assert(1 * pow_nat(b, e2) == pow_nat(b, e2)) by (nonlinear_arith);
    } else {
        lemma_pow_nat_adds(b, (e1 - 1) as nat, e2);
        assert(b * (pow_nat(b, (e1 - 1) as nat) * pow_nat(b, e2)) == (b * pow_nat(
            b,
            (e1 - 1) as nat,
        )) * pow_nat(b, e2)) by (nonlinear_arith);
    }
}

proof fn lemma_pow10_is_pow_nat(n: nat)
    ensures
        pow10(n) == pow_nat(10, n),
    decreases n,
{
    if n > 0 {
        lemma_pow10_is_pow_nat((n - 1) as nat);
    }
}

/// `202^2 * 9^100` tops `10^100`.
proof fn lemma_ground_val(b: nat, e: nat, p: nat)
    requires
        pow_nat(b, e) == p,
    ensures
        pow_nat(b, e + e) == p * p,
        pow_nat(b, e + e + 1) == b * (p * p),
{
    lemma_pow_nat_adds(b, e, e);
}

#[verifier::rlimit(60)]
proof fn lemma_ground_hundred()
    ensures
        40804 * pow_nat(9, 100) >= pow_nat(10, 100),
{
    reveal_with_fuel(pow_nat, 4);
    assert(pow_nat(9, 3) == 729);
    lemma_ground_val(9, 3, 729nat);
    assert(pow_nat(9, 6) == 531441nat);
    lemma_ground_val(9, 6, 531441nat);
    assert(pow_nat(9, 12) == 282429536481nat);
    lemma_ground_val(9, 12, 282429536481nat);
    assert(pow_nat(9, 25) == 717897987691852588770249nat);
    lemma_ground_val(9, 25, 717897987691852588770249nat);
    assert(pow_nat(9, 50) == 515377520732011331036461129765621272702107522001nat);
    lemma_ground_val(9, 50, 515377520732011331036461129765621272702107522001nat);
    assert(pow_nat(9, 100)
        == 265613988875874769338781322035779626829233452653394495974574961739092490901302182994384699044001nat);
    assert(pow_nat(10, 3) == 1000);
    lemma_ground_val(10, 3, 1000nat);
    assert(pow_nat(10, 6) == 1000000nat);
    lemma_ground_val(10, 6, 1000000nat);
    assert(pow_nat(10, 12) == 1000000000000nat);
    lemma_ground_val(10, 12, 1000000000000nat);
    assert(pow_nat(10, 25) == 10000000000000000000000000nat);
    lemma_ground_val(10, 25, 10000000000000000000000000nat);
    assert(pow_nat(10, 50) == 100000000000000000000000000000000000000000000000000nat);
    lemma_ground_val(10, 50, 100000000000000000000000000000000000000000000000000nat);
    assert(pow_nat(10, 100)
        == 10000000000000000000000000000000000000000000000000000000000000000000000000000000000000000000000000000nat);
}

/// With at most 100 decays, `202^2 * 9^f` still tops `10^f`.
proof fn lemma_recovery_bound(f: nat)
    requires
        f <= 100,
    ensures
        40804 * pow_nat(9, f) >= pow10(f),
{
    let d = (100 - f) as nat;
    lemma_pow_nat_adds(9, f, d);
    lemma_pow10_is_pow_nat(f);
    lemma_pow10_is_pow_nat(d);
    lemma_pow10_is_pow_nat(100);
    lemma_pow_nat_adds(10, f, d);
    lemma_pow_nat_base_mono(9, 10, d);
    lemma_pow_nat_pos(10, d);
    lemma_ground_hundred();
    // 40804 * 9^f * 10^d >= 40804 * 9^f * 9^d == 40804 * 9^100 >= 10^100
    assert((40804 * pow_nat(9, f)) * pow_nat(10, d) >= 40804 * (pow_nat(9, f) * pow_nat(9, d)))
        by (nonlinear_arith)
        requires
            pow_nat(9, d) <= pow_nat(10, d),
    ;
    assert(40804 * (pow_nat(9, f) * pow_nat(9, d)) == 40804 * pow_nat(9, 100));
    assert(pow_nat(10, 100) == pow_nat(10, f) * pow_nat(10, d));
    assert(40804 * pow_nat(9, f) >= pow_nat(10, f)) by (nonlinear_arith)
        requires
            (40804 * pow_nat(9, f)) * pow_nat(10, d) >= pow_nat(10, f) * pow_nat(10, d),
            pow_nat(10, d) >= 1,
    ;
}

/// Recovery: however the weight was reached, as long as at most 100 of
/// the observations were burst arrivals, two further arrivals with gaps
/// of at least 500 ms bring the weight to one or above.
pub proof fn lemma_recovery(s: Seq<bool>)
    requires
        count_fast(s) <= 100,
    ensures
        run_weight(start_weight(), s.push(false).push(false)).0 >= run_weight(
            start_weight(),
            s.push(false).push(false),
        ).1,
{
    let s2 = s.push(false).push(false);
    lemma_pow10_is_pow_nat(count_fast(s.push(false).push(false)));
    lemma_count_fast_push_slow(s);
    lemma_count_fast_push_slow(s.push(false));
    let f = count_fast(s2);
    assert(f == count_fast(s));
    lemma_count_fast_le(s);
    let g = (s2.len() - f) as nat;
    let gs = (s.len() - f) as nat;
    assert(g == gs + 2);
    lemma_run_product(start_weight(), s2);
    lemma_recovery_bound(f);
    lemma_pow_nat_base_mono(10, 202, gs);
    lemma_pow10_is_pow_nat(gs);
    lemma_pow_nat_adds(202, gs, 2);
    lemma_pow10_is_pow_nat(s2.len());
    lemma_pow_nat_adds(10, f, (gs + 2) as nat);
    lemma_pow_nat_adds(10, gs, 2);
    lemma_pow_nat_pos(10, gs);
    lemma_pow_nat_pos(10, f);
    lemma_pow_nat_pos(9, f);
    lemma_pow_nat_pos(202, gs);
    // numerator: 100 * 9^f * (202^gs * 40804)
    assert(pow_nat(202, 2) == 40804) by {
        reveal_with_fuel(pow_nat, 3);
    }
    assert(pow_nat(10, 2) == 100) by {
        reveal_with_fuel(pow_nat, 3);
    }
    // (40804 * 9^f) * 202^gs >= 10^f * 10^gs
    assert((40804 * pow_nat(9, f)) * pow_nat(202, gs) >= pow_nat(10, f) * pow_nat(10, gs))
        by (nonlinear_arith)
        requires
            40804 * pow_nat(9, f) >= pow_nat(10, f),
            pow_nat(202, gs) >= pow_nat(10, gs),
            pow_nat(10, f) >= 1,
            pow_nat(10, gs) >= 1,
            pow_nat(9, f) >= 1,
    ;
    let w = run_weight(start_weight(), s2);
    assert(w.0 == 100 * pow_nat(9, f) * pow_nat(202, g));
    assert(w.1 == 1 * pow10(s2.len()));
    assert(pow10(f) == pow_nat(10, f));
    assert(w.1 == pow_nat(10, f) * (pow_nat(10, gs) * 100)) by {
        assert(w.1 == 1 * pow10(s2.len()));
        assert(pow10(s2.len()) == pow_nat(10, s2.len()));
        assert(s2.len() == f + (gs + 2));
        assert(pow_nat(10, s2.len()) == pow_nat(10, f) * pow_nat(10, (gs + 2) as nat));
        assert(pow_nat(10, (gs + 2) as nat) == pow_nat(10, gs) * 100);
        assert(1 * (pow_nat(10, f) * (pow_nat(10, gs) * 100)) == pow_nat(10, f) * (pow_nat(10, gs)
            * 100)) by (nonlinear_arith);
    }
    assert(w.0 == (100 * pow_nat(9, f)) * (pow_nat(202, gs) * 40804)) by {
        assert(pow_nat(202, g) == pow_nat(202, gs) * 40804);
        assert(100 * pow_nat(9, f) * (pow_nat(202, gs) * 40804) == (100 * pow_nat(9, f)) * (
        pow_nat(202, gs) * 40804)) by (nonlinear_arith);
    }
    assert(w.0 >= w.1) by (nonlinear_arith)
        requires
            w.0 == (100 * pow_nat(9, f)) * (pow_nat(202, gs) * 40804),
            w.1 == pow_nat(10, f) * (pow_nat(10, gs) * 100),
            (40804 * pow_nat(9, f)) * pow_nat(202, gs) >= pow_nat(10, f) * pow_nat(10, gs),
    ;
}

/// An arrival with a gap of 500 ms or more never raises the burst count.
proof fn lemma_count_fast_push_slow(s: Seq<bool>)
    ensures
        count_fast(s.push(false)) == count_fast(s),
    decreases s.len(),
{
    reveal_with_fuel(count_fast, 3);
    if s.len() == 0 {
        assert(s.push(false)[0] == false);
        assert(s.push(false).skip(1) =~= Seq::<bool>::empty());
    } else {
        assert(s.push(false).skip(1) =~= s.skip(1).push(false));
        lemma_count_fast_push_slow(s.skip(1));
        assert(s.push(false)[0] == s[0]);
    }
}

/// 44 burst arrivals from 100 cross below one; 43 do not.
pub proof fn lemma_burst_threshold()
    ensures
        100 * pow_nat(9, 44) < pow10(44),
        100 * pow_nat(9, 43) >= pow10(43),
{
    reveal_with_fuel(pow_nat, 45);
    reveal_with_fuel(pow10, 45);
    assert(pow_nat(9, 44) == 969773729787523602876821942164080815560161nat);
    assert(pow_nat(9, 43) == 107752636643058178097424660240453423951129nat);
    assert(pow10(44) == 100000000000000000000000000000000000000000000nat);
    assert(pow10(43) == 10000000000000000000000000000000000000000000nat);
}

} // verus!
