use vstd::arithmetic::div_mod::lemma_fundamental_div_mod_converse;
use crate::constant::{exchange_named, Exchange};
use crate::object::BarData;
use vstd::prelude::*;
use vstd::string::StrSliceExecFns;

verus! {

/// The multiple of `tick` nearest to `value`; a value halfway between two
/// multiples goes to the even one.
pub open spec fn round_to_spec(value: int, tick: int) -> int
    recommends
        tick > 0,
{
    let q = value / tick;
    let r = value % tick;
    let n = if 2 * r > tick {
        q + 1
    } else if 2 * r < tick {
        q
    } else if q % 2 == 0 {
        q
    } else {
        q + 1
    };
    n * tick
}

/// Rounding to a tick grid in exact integer arithmetic. The result never
/// leaves `i128`, whatever the two `i64` arguments are.
pub(crate) fn round_to_wide(value: i64, target: i64) -> (r: i128)
    requires
        target > 0,
    ensures
        r == round_to_spec(value as int, target as int),
{
    let v: i128 = value as i128;
    let t: i128 = target as i128;
    let q: i128;
    let rem: i128;
    if v >= 0 {
        q = v / t;
        rem = v % t;
        assert(v == q * t + rem) by (nonlinear_arith)
            requires
                q == v / t,
                rem == v % t,
                t > 0,
                v >= 0,
        ;
        proof {
            lemma_fundamental_div_mod_converse(v as int, t as int, q as int, rem as int);
        }
    } else {
        let a: i128 = -v;
        let q0: i128 = a / t;
        let r0: i128 = a % t;
        assert(a == q0 * t + r0) by (nonlinear_arith)
            requires
                q0 == a / t,
                r0 == a % t,
                t > 0,
                a > 0,
        ;
        if r0 == 0 {
            q = -q0;
            rem = 0;
        } else {
            q = -q0 - 1;
            rem = t - r0;
        }
        assert(v == q * t + rem) by (nonlinear_arith)
            requires
                a == q0 * t + r0,
                v == -a,
                r0 == 0 ==> (q == -q0 && rem == 0),
                r0 != 0 ==> (q == -q0 - 1 && rem == t - r0),
        ;
        proof {
            lemma_fundamental_div_mod_converse(v as int, t as int, q as int, rem as int);
        }
    }
    assert(-0x8000_0000_0000_0000 <= q <= 0x8000_0000_0000_0000) by (nonlinear_arith)
        requires
            v == q * t + rem,
            0 <= rem < t,
            t >= 1,
            -0x8000_0000_0000_0000 <= v < 0x8000_0000_0000_0000,
    ;
    let n: i128 = if 2 * rem > t {
        q + 1
    } else if 2 * rem < t {
        q
    } else if q % 2 == 0 {
        q
    } else {
        q + 1
    };
    assert(-0x8000_0000_0000_0001 <= n <= 0x8000_0000_0000_0001);
    assert(-0x8000_0000_0000_0001 * 0x8000_0000_0000_0000 <= n * t <= 0x8000_0000_0000_0001
        * 0x8000_0000_0000_0000) by (nonlinear_arith)
        requires
            -0x8000_0000_0000_0001 <= n <= 0x8000_0000_0000_0001,
            1 <= t < 0x8000_0000_0000_0000,
    ;
    n * t
}

/// Rounds `value` to the grid of `target` (the price tick), exactly.
pub fn round_to(value: i64, target: i64) -> (r: i64)
    requires
        target > 0,
        i64::MIN <= round_to_spec(value as int, target as int) <= i64::MAX,
    ensures
        r == round_to_spec(value as int, target as int),
{
    round_to_wide(value, target) as i64
}

/// Rounding to a tick is idempotent: a value already on the grid stays where it is.
pub proof fn lemma_round_to_idempotent(p: int, tick: int)
    requires
        tick > 0,
    ensures
        round_to_spec(round_to_spec(p, tick), tick) == round_to_spec(p, tick),
{
    let once = round_to_spec(p, tick);
    let q = p / tick;
    let r = p % tick;
    let n = if 2 * r > tick {
        q + 1
    } else if 2 * r < tick {
        q
    } else if q % 2 == 0 {
        q
    } else {
        q + 1
    };
    assert(once == n * tick);
    lemma_fundamental_div_mod_converse(once, tick, n, 0);
}

/// Index of the last `.` in `s`, or -1 when there is none.
pub open spec fn last_dot(s: Seq<char>) -> int
    decreases s.len(),
{
    if s.len() == 0 {
        -1
    } else if s.last() == '.' {
        s.len() - 1
    } else {
        last_dot(s.drop_last())
    }
}

proof fn lemma_last_dot(s: Seq<char>, k: int)
    requires
        -1 <= k < s.len(),
        k >= 0 ==> s[k] == '.',
        forall|m: int| k < m < s.len() ==> s[m] != '.',
    ensures
        last_dot(s) == k,
    decreases s.len(),
{
    if s.len() > 0 && s.last() != '.' {
        lemma_last_dot(s.drop_last(), k);
    }
}

/// The symbol and venue of a `vt_symbol` written `<symbol>.<venue>`: the text
/// is split at its last dot, and the venue must be a known one.
pub open spec fn vt_symbol_parts(s: Seq<char>) -> Option<(Seq<char>, Exchange)> {
    let k = last_dot(s);
    if k < 0 {
        None
    } else {
        match exchange_named(s.subrange(k + 1, s.len() as int)) {
            Some(e) => Some((s.subrange(0, k), e)),
            None => None,
        }
    }
}

/// Splits a `vt_symbol` into its symbol and venue; `None` when it has no dot
/// or names no known venue.
pub fn extract_vt_symbol(vt_symbol: &str) -> (r: Option<(String, Exchange)>)
    ensures
        r is None <==> vt_symbol_parts(vt_symbol@) is None,
        r matches Some(p) ==> vt_symbol_parts(vt_symbol@) == Some((p.0@, p.1)),
{
    let n = vt_symbol.unicode_len();
    let mut k: usize = n;
    while k > 0 && vt_symbol.get_char(k - 1) != '.'
        invariant
            n == vt_symbol@.len(),
            k <= n,
            forall|m: int| k <= m < n ==> vt_symbol@[m] != '.',
        decreases k,
    {
        k -= 1;
    }
    proof {
        lemma_last_dot(vt_symbol@, k - 1);
    }
    if k == 0 {
        return None;
    }
    let symbol = vt_symbol.substring_char(0, k - 1);
    let venue = vt_symbol.substring_char(k, n);
    match Exchange::from_name(venue) {
        Some(e) => Some((symbol.to_owned(), e)),
        None => None,
    }
}

/// The last `size` bars' fields, oldest first, for indicators.
pub struct ArrayManager {
    pub count: usize,
    pub size: usize,
    pub inited: bool,
    pub open_array: Vec<i64>,
    pub high_array: Vec<i64>,
    pub low_array: Vec<i64>,
    pub close_array: Vec<i64>,
    pub volume_array: Vec<i64>,
    pub turnover_array: Vec<i64>,
    pub open_interest_array: Vec<i64>,
}

/// A window of `size` values: the oldest goes, `v` comes in last.
pub open spec fn shifted(s: Seq<i64>, v: i64) -> Seq<i64> {
    s.subrange(1, s.len() as int).push(v)
}

fn shift_in(a: &mut Vec<i64>, v: i64)
    requires
        old(a)@.len() > 0,
    ensures
        final(a)@ == shifted(old(a)@, v),
{
    a.remove(0);
    a.push(v);
    assert(final(a)@ =~= shifted(old(a)@, v));
}

impl ArrayManager {
    /// Every array holds `size` values.
    pub open spec fn wf(&self) -> bool {
        &&& self.open_array@.len() == self.size
        &&& self.high_array@.len() == self.size
        &&& self.low_array@.len() == self.size
        &&& self.close_array@.len() == self.size
        &&& self.volume_array@.len() == self.size
        &&& self.turnover_array@.len() == self.size
        &&& self.open_interest_array@.len() == self.size
    }

    /// A manager of `size` zeros per field.
    pub fn new(size: usize) -> (r: Self)
        ensures
            r.wf(),
            r.count == 0,
            r.size == size,
            !r.inited,
            r.close_array@ == Seq::new(size as nat, |i: int| 0i64),
    {
        ArrayManager {
            count: 0,
            size,
            inited: false,
            open_array: vec![0i64; size],
            high_array: vec![0i64; size],
            low_array: vec![0i64; size],
            close_array: vec![0i64; size],
            volume_array: vec![0i64; size],
            turnover_array: vec![0i64; size],
            open_interest_array: vec![0i64; size],
        }
    }

    /// Takes in one bar; the manager is filled once it has seen `size` bars.
    pub fn update_bar(&mut self, bar: &BarData)
        requires
            old(self).wf(),
            old(self).size > 0,
            old(self).count < usize::MAX,
        ensures
            final(self).wf(),
            final(self).size == old(self).size,
            final(self).count == old(self).count + 1,
            final(self).inited == (old(self).inited || final(self).count >= old(self).size),
            final(self).open_array@ == shifted(old(self).open_array@, bar.open_price),
            final(self).high_array@ == shifted(old(self).high_array@, bar.high_price),
            final(self).low_array@ == shifted(old(self).low_array@, bar.low_price),
            final(self).close_array@ == shifted(old(self).close_array@, bar.close_price),
            final(self).volume_array@ == shifted(old(self).volume_array@, bar.volume),
            final(self).turnover_array@ == shifted(old(self).turnover_array@, bar.turnover),
            final(self).open_interest_array@ == shifted(old(self).open_interest_array@, bar.open_interest),
    {
        self.count += 1;
        if !self.inited && self.count >= self.size {
            self.inited = true;
        }
        shift_in(&mut self.open_array, bar.open_price);
        shift_in(&mut self.high_array, bar.high_price);
        shift_in(&mut self.low_array, bar.low_price);
        shift_in(&mut self.close_array, bar.close_price);
        shift_in(&mut self.volume_array, bar.volume);
        shift_in(&mut self.turnover_array, bar.turnover);
        shift_in(&mut self.open_interest_array, bar.open_interest);
    }
}

} // verus!
