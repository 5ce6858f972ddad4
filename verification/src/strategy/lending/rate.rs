//! The fair lending rate, estimated from the trades on record.
//!
//! The estimate blends the highest rate and the mean rate of the trades of
//! the last three hours. Where that window is empty, the most recent
//! hundred trades take its place, whatever their age.

use vstd::prelude::*;

use crate::error::Error;
use crate::strategy::lending::{Millis, Rate, Trade};

verus! {

/// Length of the window of recent trades: three hours.
pub const WINDOW_MS: i64 = 10_800_000;

/// Number of trades that stand in for an empty window.
pub const FALLBACK_TRADES: usize = 100;

/// The key under which the trades of `symbol` are on record: the symbol
/// qualified as a funding instrument.
pub open spec fn funding_key(symbol: Seq<char>) -> Seq<char> {
    seq!['f'] + symbol
}

/// Qualifies `symbol` as a funding instrument.
pub fn funding_symbol(symbol: &str) -> (key: String)
    ensures
        key@ == funding_key(symbol@),
{
    proof {
        reveal_strlit("f");
        assert("f"@ =~= seq!['f']);
    }
    let mut key = String::from_str("f");
    key.append(symbol);
    key
}

/// Whether a trade took place within the three hours before `now`.
pub open spec fn in_window(trade: Trade, now: Millis) -> bool {
    trade.mts > now - WINDOW_MS
}

/// The rates of the trades within the window, in the order of the record.
pub open spec fn window_rates(trades: Seq<Trade>, now: Millis) -> Seq<Rate> {
    trades.filter(|t: Trade| in_window(t, now)).map_values(|t: Trade| t.rate)
}

/// Whether the trade at `a` is more recent than the one at `b`: it took
/// place later, or at the same instant and was recorded later.
pub open spec fn newer(trades: Seq<Trade>, a: int, b: int) -> bool {
    trades[a].mts > trades[b].mts || (trades[a].mts == trades[b].mts && a > b)
}

/// How many of the trades from position `from` on are more recent than the
/// one at `i`.
pub open spec fn newer_from(trades: Seq<Trade>, i: int, from: int) -> nat
    decreases trades.len() - from,
{
    if from < 0 || from >= trades.len() {
        0
    } else if newer(trades, from, i) {
        1 + newer_from(trades, i, from + 1)
    } else {
        newer_from(trades, i, from + 1)
    }
}

/// How many trades on record are more recent than the one at `i`.
pub open spec fn rank(trades: Seq<Trade>, i: int) -> nat {
    newer_from(trades, i, 0)
}

/// The rates of those among the first `upto` trades on record that have
/// fewer than `limit` more recent trades, in the order of the record.
pub open spec fn recent_rates_upto(trades: Seq<Trade>, limit: nat, upto: int) -> Seq<Rate>
    decreases upto,
{
    if upto <= 0 {
        Seq::empty()
    } else if rank(trades, upto - 1) < limit {
        recent_rates_upto(trades, limit, upto - 1).push(trades[upto - 1].rate)
    } else {
        recent_rates_upto(trades, limit, upto - 1)
    }
}

/// The rates of the `limit` most recent trades.
pub open spec fn recent_rates(trades: Seq<Trade>, limit: nat) -> Seq<Rate> {
    recent_rates_upto(trades, limit, trades.len() as int)
}

/// The highest of `rates`; zero where there is none.
pub open spec fn highest(rates: Seq<Rate>) -> int
    decreases rates.len(),
{
    if rates.len() == 0 {
        0
    } else if rates.last() >= highest(rates.drop_last()) {
        rates.last() as int
    } else {
        highest(rates.drop_last())
    }
}

/// The sum of `rates`.
pub open spec fn total(rates: Seq<Rate>) -> int
    decreases rates.len(),
{
    if rates.len() == 0 {
        0
    } else {
        total(rates.drop_last()) + rates.last()
    }
}

/// Four parts the highest rate and one part the mean rate, the mean and
/// the blend each rounded down.
pub open spec fn blend(rates: Seq<Rate>) -> int
    recommends
        rates.len() > 0,
{
    (4 * highest(rates) + total(rates) / (rates.len() as int)) / 5
}

/// The fair rate for the trades on record of one instrument: the blend
/// over the window, else over the most recent hundred; no rate where
/// nothing is on record.
pub open spec fn estimate(trades: Seq<Trade>, now: Millis) -> Result<Rate, Error> {
    if window_rates(trades, now).len() > 0 {
        Ok(blend(window_rates(trades, now)) as Rate)
    } else if trades.len() > 0 {
        Ok(blend(recent_rates(trades, FALLBACK_TRADES as nat)) as Rate)
    } else {
        Err(Error::DataUnavailable)
    }
}

/// The sum of rates is at most their number times the highest.
pub proof fn lemma_total_bound(rates: Seq<Rate>)
    ensures
        0 <= total(rates) <= rates.len() * highest(rates),
        0 <= highest(rates) <= u64::MAX,
    decreases rates.len(),
{
    if rates.len() > 0 {
        let front = rates.drop_last();
        lemma_total_bound(front);
        let top = highest(rates);
        assert(front.len() * highest(front) <= front.len() * top) by (nonlinear_arith)
            requires
                0 <= highest(front) <= top,
        ;
        assert(rates.len() * top == front.len() * top + top) by (nonlinear_arith)
            requires
                rates.len() == front.len() + 1,
        ;
    }
}

/// A blend lies between zero and the highest rate.
pub proof fn lemma_blend_bound(rates: Seq<Rate>)
    requires
        rates.len() > 0,
    ensures
        0 <= blend(rates) <= highest(rates) <= u64::MAX,
{
    lemma_total_bound(rates);
    let count = rates.len() as int;
    let top = highest(rates);
    let sum = total(rates);
    assert(0 <= sum / count <= top) by (nonlinear_arith)
        requires
            count > 0,
            0 <= sum <= count * top,
    ;
}

/// What one more trade adds to the rates within the window.
proof fn lemma_window_push(trades: Seq<Trade>, now: Millis, trade: Trade)
    ensures
        window_rates(trades.push(trade), now) == if in_window(trade, now) {
            window_rates(trades, now).push(trade.rate)
        } else {
            window_rates(trades, now)
        },
{
    reveal(Seq::filter);
    assert(trades.push(trade).drop_last() =~= trades);
    let kept = trades.filter(|t: Trade| in_window(t, now));
    if in_window(trade, now) {
        assert(kept.push(trade).map_values(|t: Trade| t.rate) =~= kept.map_values(
            |t: Trade| t.rate,
        ).push(trade.rate));
    }
}

/// Counting from further back never counts fewer.
proof fn lemma_newer_from_grows(trades: Seq<Trade>, i: int, early: int, late: int)
    requires
        0 <= early <= late,
    ensures
        newer_from(trades, i, early) >= newer_from(trades, i, late),
    decreases late - early,
{
    if early < late {
        lemma_newer_from_grows(trades, i, early + 1, late);
    }
}

/// Running tallies over a selection of rates.
struct Tally {
    count: usize,
    sum: u128,
    top: u64,
}

impl Tally {
    spec fn holds(&self, rates: Seq<Rate>) -> bool {
        &&& self.count == rates.len()
        &&& self.sum == total(rates)
        &&& self.top == highest(rates)
    }

    fn new() -> (tally: Tally)
        ensures
            tally.holds(Seq::empty()),
    {
        Tally { count: 0, sum: 0, top: 0 }
    }

    fn add(&mut self, rate: Rate, Ghost(rates): Ghost<Seq<Rate>>)
        requires
            old(self).holds(rates),
            rates.len() < usize::MAX,
        ensures
            final(self).holds(rates.push(rate)),
    {
        proof {
            lemma_total_bound(rates);
            assert(rates.push(rate).drop_last() =~= rates);
            assert(rates.len() * highest(rates) <= usize::MAX * u64::MAX) by (nonlinear_arith)
                requires
                    0 <= rates.len() < usize::MAX,
                    0 <= highest(rates) <= u64::MAX,
            ;
        }
        self.count = self.count + 1;
        self.sum = self.sum + rate as u128;
        if rate >= self.top {
            self.top = rate;
        }
    }

    fn blend(&self, Ghost(rates): Ghost<Seq<Rate>>) -> (rate: Rate)
        requires
            self.holds(rates),
            rates.len() > 0,
        ensures
            rate == blend(rates),
    {
        proof {
            lemma_blend_bound(rates);
            lemma_total_bound(rates);
        }
        let mean: u128 = self.sum / (self.count as u128);
        ((4 * (self.top as u128) + mean) / 5) as u64
    }
}

/// Decides whether fewer than `limit` trades are more recent than the one
/// at `i`, looking at the latest records first.
fn among_recent(trades: &Vec<Trade>, i: usize, limit: usize) -> (yes: bool)
    requires
        i < trades.len(),
    ensures
        yes == (rank(trades@, i as int) < limit),
{
    let mut count: usize = 0;
    let mut j: usize = trades.len();
    while j > 0 && count < limit
        invariant
            i < trades.len(),
            j <= trades.len(),
            count <= limit,
            count == newer_from(trades@, i as int, j as int),
        decreases j,
    {
        j -= 1;
        if trades[j].mts > trades[i].mts || (trades[j].mts == trades[i].mts && j > i) {
            count += 1;
        }
    }
    proof {
        lemma_newer_from_grows(trades@, i as int, 0, j as int);
    }
    count < limit
}

/// No trade has more trades more recent than itself than there are others.
proof fn lemma_newer_from_bound(trades: Seq<Trade>, i: int, from: int)
    requires
        0 <= i < trades.len(),
        0 <= from <= trades.len(),
    ensures
        newer_from(trades, i, from) <= trades.len() - from - if from <= i {
            1int
        } else {
            0int
        },
    decreases trades.len() - from,
{
    if from < trades.len() {
        lemma_newer_from_bound(trades, i, from + 1);
    }
}

/// Of two trades, the less recent has more trades more recent than
/// itself: all those of the other one, and the other one.
proof fn lemma_newer_from_order(trades: Seq<Trade>, i: int, j: int, from: int)
    requires
        0 <= i < trades.len(),
        0 <= j < trades.len(),
        newer(trades, j, i),
        0 <= from <= trades.len(),
    ensures
        newer_from(trades, i, from) >= newer_from(trades, j, from) + if from <= j {
            1int
        } else {
            0int
        },
    decreases trades.len() - from,
{
    if from < trades.len() {
        lemma_newer_from_order(trades, i, j, from + 1);
    }
}

/// The positions among the first `upto` whose trades have fewer than
/// `limit` more recent ones.
spec fn recent_set(trades: Seq<Trade>, limit: nat, upto: int) -> Set<int> {
    Set::new(|i: int| 0 <= i < upto && rank(trades, i) < limit)
}

/// The positions that are not among the most recent.
spec fn older_set(trades: Seq<Trade>, limit: nat) -> Set<int> {
    Set::new(|i: int| 0 <= i < trades.len() && rank(trades, i) >= limit)
}

proof fn lemma_recent_set_len(trades: Seq<Trade>, limit: nat, upto: int)
    requires
        0 <= upto,
    ensures
        recent_set(trades, limit, upto).finite(),
        recent_set(trades, limit, upto).len() == recent_rates_upto(trades, limit, upto).len(),
    decreases upto,
{
    if upto == 0 {
        assert(recent_set(trades, limit, upto) =~= Set::<int>::empty());
    } else {
        lemma_recent_set_len(trades, limit, upto - 1);
        let before = recent_set(trades, limit, upto - 1);
        if rank(trades, upto - 1) < limit {
            assert(recent_set(trades, limit, upto) =~= before.insert(upto - 1));
        } else {
            assert(recent_set(trades, limit, upto) =~= before);
        }
    }
}

/// A set of positions whose ranks all lie in `[low, high)` has at most
/// `high - low` members, because no two trades share a rank.
proof fn lemma_ranked_set_len(trades: Seq<Trade>, members: Set<int>, low: int, high: int)
    requires
        members.finite(),
        low <= high,
        forall|i: int|
            members.contains(i) ==> 0 <= i < trades.len() && low <= #[trigger] rank(trades, i)
                < high,
    ensures
        members.len() <= high - low,
{
    let rank_of = |i: int| rank(trades, i) as int;
    assert(vstd::relations::injective_on(rank_of, members)) by {
        assert forall|a: int, b: int|
            members.contains(a) && members.contains(b) && #[trigger] rank_of(a)
                == #[trigger] rank_of(b) implies a == b by {
            if a != b {
                if newer(trades, a, b) {
                    lemma_newer_from_order(trades, b, a, 0);
                } else {
                    lemma_newer_from_order(trades, a, b, 0);
                }
            }
        }
    }
    let ranks = members.map(rank_of);
    vstd::set_lib::lemma_map_size(members, ranks, rank_of);
    vstd::set_lib::lemma_int_range(low, high);
    assert(ranks.subset_of(vstd::set_lib::set_int_range(low, high))) by {
        assert forall|r: int| ranks.contains(r) implies vstd::set_lib::set_int_range(
            low,
            high,
        ).contains(r) by {
            let i = choose|i: int| members.contains(i) && rank_of(i) == r;
            assert(low <= rank(trades, i) < high);
        }
    }
    vstd::set_lib::lemma_len_subset(ranks, vstd::set_lib::set_int_range(low, high));
}

/// The most recent trades are as many as asked for, or all there are.
pub proof fn lemma_recent_count(trades: Seq<Trade>, limit: nat)
    ensures
        recent_rates(trades, limit).len() == if limit <= trades.len() {
            limit
        } else {
            trades.len()
        },
{
    let n = trades.len() as int;
    let recent = recent_set(trades, limit, n);
    let older = older_set(trades, limit);
    let all = vstd::set_lib::set_int_range(0, n);
    lemma_recent_set_len(trades, limit, n);
    vstd::set_lib::lemma_int_range(0, n);
    assert(older.subset_of(all));
    vstd::set_lib::lemma_len_subset(older, all);
    assert forall|i: int| 0 <= i < n implies #[trigger] rank(trades, i) < n by {
        lemma_newer_from_bound(trades, i, 0);
    }
    let top = if limit <= n {
        limit as int
    } else {
        n
    };
    lemma_ranked_set_len(trades, recent, 0, top);
    if limit <= n {
        lemma_ranked_set_len(trades, older, limit as int, n);
        assert(recent.union(older) =~= all);
        assert(recent.disjoint(older));
        vstd::set_lib::lemma_set_disjoint_lens(recent, older);
    } else {
        assert(recent =~= all);
    }
}

/// Each of the most recent trades took place no earlier than any trade
/// that is not among them.
pub proof fn lemma_recent_are_latest(trades: Seq<Trade>, limit: nat, inside: int, outside: int)
    requires
        0 <= inside < trades.len(),
        0 <= outside < trades.len(),
        rank(trades, inside) < limit,
        rank(trades, outside) >= limit,
    ensures
        trades[inside].mts >= trades[outside].mts,
{
    if newer(trades, outside, inside) {
        lemma_newer_from_order(trades, inside, outside, 0);
    }
}

/// A record that is not empty has a most recent trade, so its most recent
/// trades are not empty either.
pub proof fn lemma_recent_not_empty(trades: Seq<Trade>, limit: nat)
    requires
        trades.len() > 0,
        limit > 0,
    ensures
        recent_rates(trades, limit).len() > 0,
{
    lemma_recent_count(trades, limit);
}

/// Estimates the fair rate from the trades on record of one instrument.
pub fn estimate_rate(trades: &Vec<Trade>, now: Millis) -> (rate: Result<Rate, Error>)
    ensures
        rate == estimate(trades@, now),
        rate.is_err() <==> trades@.len() == 0,
{
    let since: i128 = now as i128 - WINDOW_MS as i128;
    let mut tally = Tally::new();
    let ghost mut rates: Seq<Rate> = Seq::empty();
    let mut i: usize = 0;
    proof {
        reveal(Seq::filter);
        assert(trades@.take(0) =~= Seq::<Trade>::empty());
        assert(window_rates(trades@.take(0), now) =~= Seq::<Rate>::empty());
    }
    while i < trades.len()
        invariant
            i <= trades.len(),
            since == now - WINDOW_MS,
            rates == window_rates(trades@.take(i as int), now),
            rates.len() <= i,
            tally.holds(rates),
        decreases trades.len() - i,
    {
        proof {
            lemma_window_push(trades@.take(i as int), now, trades@[i as int]);
            assert(trades@.take(i as int).push(trades@[i as int]) =~= trades@.take(i + 1));
        }
        if trades[i].mts as i128 > since {
            tally.add(trades[i].rate, Ghost(rates));
            proof {
                rates = rates.push(trades@[i as int].rate);
            }
        }
        i += 1;
    }
    proof {
        assert(trades@.take(trades.len() as int) =~= trades@);
    }
    if tally.count > 0 {
        proof {
            lemma_window_not_empty(trades@, now);
        }
        return Ok(tally.blend(Ghost(rates)));
    }
    if trades.len() == 0 {
        return Err(Error::DataUnavailable);
    }
    let mut tally = Tally::new();
    let ghost mut rates: Seq<Rate> = Seq::empty();
    let mut i: usize = 0;
    while i < trades.len()
        invariant
            i <= trades.len(),
            rates == recent_rates_upto(trades@, FALLBACK_TRADES as nat, i as int),
            rates.len() <= i,
            tally.holds(rates),
        decreases trades.len() - i,
    {
        if among_recent(trades, i, FALLBACK_TRADES) {
            tally.add(trades[i].rate, Ghost(rates));
            proof {
                rates = rates.push(trades@[i as int].rate);
            }
        }
        i += 1;
    }
    proof {
        lemma_recent_not_empty(trades@, FALLBACK_TRADES as nat);
    }
    Ok(tally.blend(Ghost(rates)))
}

/// A window with a rate in it belongs to a record with a trade in it.
proof fn lemma_window_not_empty(trades: Seq<Trade>, now: Millis)
    ensures
        window_rates(trades, now).len() <= trades.len(),
{
    trades.lemma_filter_len(|t: Trade| in_window(t, now));
}

/// Where every trade on record is older than the window, the estimate is
/// the blend over the most recent hundred of them.
pub proof fn lemma_estimate_falls_back(trades: Seq<Trade>, now: Millis)
    requires
        trades.len() > 0,
        forall|i: int| 0 <= i < trades.len() ==> !in_window(trades[i], now),
    ensures
        estimate(trades, now) == Ok::<Rate, Error>(
            blend(recent_rates(trades, FALLBACK_TRADES as nat)) as Rate,
        ),
{
    trades.lemma_all_neg_filter_empty(|t: Trade| in_window(t, now));
}

/// With nothing on record there is no estimate.
pub proof fn lemma_estimate_unavailable(trades: Seq<Trade>, now: Millis)
    ensures
        estimate(trades, now) == Err::<Rate, Error>(Error::DataUnavailable) <==> trades.len() == 0,
{
    lemma_window_not_empty(trades, now);
}

} // verus!
