//! Capital allocation: which offers to place for a balance, a fair rate
//! and a snapshot of the order book.

use vstd::prelude::*;

use crate::strategy::lending::period::{period_by_rate, period_of};
use crate::strategy::lending::{is_near_fair, near_fair, Amount, Book, Config, Limits, Rate};

verus! {

/// An offer to place on the market.
#[derive(Clone, Copy, Debug, PartialEq, Eq, Structural)]
pub struct OfferRequest {
    pub amount: Amount,
    pub rate: Rate,
    pub period: u32,
}

/// Whether a book level is worth considering: it is on the ask side, and
/// either its rate is near the fair rate or its duration is no longer than
/// its own rate justifies.
pub open spec fn is_candidate(book: Book, fair: Rate) -> bool {
    book.amount < 0 && (near_fair(fair as int, book.rate as int) || period_of(book.rate as int)
        >= book.period)
}

/// The `(rate, period)` pairs of the candidates among `books`, in book
/// order.
pub open spec fn candidates(books: Seq<Book>, fair: Rate) -> Seq<(Rate, u32)> {
    books.filter(|b: Book| is_candidate(b, fair)).map_values(|b: Book| (b.rate, b.period))
}

/// `tier` put into `sorted`, behind every pair whose rate is not lower.
pub open spec fn insert_tier(sorted: Seq<(Rate, u32)>, tier: (Rate, u32)) -> Seq<(Rate, u32)>
    decreases sorted.len(),
{
    if sorted.len() == 0 {
        seq![tier]
    } else if sorted.last().0 >= tier.0 {
        sorted.push(tier)
    } else {
        insert_tier(sorted.drop_last(), tier).push(sorted.last())
    }
}

/// `tiers` ordered by rate, highest first; pairs of equal rate keep the
/// order they came in.
pub open spec fn by_rate_descending(tiers: Seq<(Rate, u32)>) -> Seq<(Rate, u32)>
    decreases tiers.len(),
{
    if tiers.len() == 0 {
        Seq::empty()
    } else {
        insert_tier(by_rate_descending(tiers.drop_last()), tiers.last())
    }
}

/// Whether the rates of `tiers` never rise from one pair to the next.
pub open spec fn rates_descend(tiers: Seq<(Rate, u32)>) -> bool {
    forall|i: int, j: int| 0 <= i <= j < tiers.len() ==> tiers[i].0 >= tiers[j].0
}

/// Inserting at the place where the rates stop being lower is what
/// `insert_tier` does.
proof fn lemma_insert_at(sorted: Seq<(Rate, u32)>, tier: (Rate, u32), at: int)
    requires
        0 <= at <= sorted.len(),
        forall|j: int| at <= j < sorted.len() ==> sorted[j].0 < tier.0,
        at > 0 ==> sorted[at - 1].0 >= tier.0,
    ensures
        insert_tier(sorted, tier) == sorted.insert(at, tier),
    decreases sorted.len() - at,
{
    if sorted.len() == 0 {
        assert(sorted.insert(at, tier) =~= seq![tier]);
    } else if at == sorted.len() {
        assert(sorted.insert(at, tier) =~= sorted.push(tier));
    } else {
        lemma_insert_at(sorted.drop_last(), tier, at);
        assert(sorted.insert(at, tier) =~= sorted.drop_last().insert(at, tier).push(
            sorted.last(),
        ));
    }
}

/// Insertion keeps the rates descending and adds exactly the new pair.
pub proof fn lemma_insert_tier(sorted: Seq<(Rate, u32)>, tier: (Rate, u32))
    requires
        rates_descend(sorted),
    ensures
        rates_descend(insert_tier(sorted, tier)),
        insert_tier(sorted, tier).len() == sorted.len() + 1,
        insert_tier(sorted, tier).to_multiset() == sorted.to_multiset().insert(tier),
    decreases sorted.len(),
{
    broadcast use vstd::seq_lib::group_to_multiset_ensures;

    if sorted.len() == 0 {
    } else if sorted.last().0 >= tier.0 {
    } else {
        let front = sorted.drop_last();
        lemma_insert_tier(front, tier);
        let placed = insert_tier(front, tier);
        let joined = placed.push(sorted.last());
        assert(sorted =~= front.push(sorted.last()));
        assert forall|i: int, j: int| 0 <= i <= j < joined.len() implies joined[i].0
            >= joined[j].0 by {
            if j == placed.len() && i < j {
                // Every pair of `placed` is the new one or comes from `front`.
                assert(placed.to_multiset().count(placed[i]) > 0);
                if placed[i] != tier {
                    assert(front.to_multiset().count(placed[i]) > 0);
                    let k = choose|k: int| 0 <= k < front.len() && front[k] == placed[i];
                    assert(sorted[k] == front[k]);
                }
            }
        }
    }
}

/// The ordered pairs descend by rate and are the given pairs, each as
/// often as it was given.
pub proof fn lemma_by_rate_descending(tiers: Seq<(Rate, u32)>)
    ensures
        rates_descend(by_rate_descending(tiers)),
        by_rate_descending(tiers).len() == tiers.len(),
        by_rate_descending(tiers).to_multiset() == tiers.to_multiset(),
    decreases tiers.len(),
{
    broadcast use vstd::seq_lib::group_to_multiset_ensures;

    if tiers.len() == 0 {
        assert(tiers =~= Seq::empty());
    } else {
        lemma_by_rate_descending(tiers.drop_last());
        lemma_insert_tier(by_rate_descending(tiers.drop_last()), tiers.last());
        assert(tiers =~= tiers.drop_last().push(tiers.last()));
    }
}

/// The pairs of `tiers` that carry the rate `rate`, in their order.
pub open spec fn at_rate(tiers: Seq<(Rate, u32)>, rate: Rate) -> Seq<(Rate, u32)> {
    tiers.filter(|tier: (Rate, u32)| tier.0 == rate)
}

proof fn lemma_at_rate_push(tiers: Seq<(Rate, u32)>, tier: (Rate, u32), rate: Rate)
    ensures
        at_rate(tiers.push(tier), rate) == if tier.0 == rate {
            at_rate(tiers, rate).push(tier)
        } else {
            at_rate(tiers, rate)
        },
{
    reveal(Seq::filter);
    assert(tiers.push(tier).drop_last() =~= tiers);
}

proof fn lemma_insert_keeps_ties(sorted: Seq<(Rate, u32)>, tier: (Rate, u32), rate: Rate)
    ensures
        at_rate(insert_tier(sorted, tier), rate) == at_rate(sorted.push(tier), rate),
    decreases sorted.len(),
{
    if sorted.len() == 0 {
        assert(sorted.push(tier) =~= seq![tier]);
    } else if sorted.last().0 < tier.0 {
        let front = sorted.drop_last();
        assert(sorted =~= front.push(sorted.last()));
        lemma_insert_keeps_ties(front, tier, rate);
        lemma_at_rate_push(insert_tier(front, tier), sorted.last(), rate);
        lemma_at_rate_push(front, tier, rate);
        lemma_at_rate_push(front, sorted.last(), rate);
        lemma_at_rate_push(sorted, tier, rate);
    }
}

/// Ordering keeps pairs of equal rate in the order they came in: for each
/// rate, the pairs that carry it are the same before and after, one behind
/// the other as before.
pub proof fn lemma_ties_keep_order(tiers: Seq<(Rate, u32)>, rate: Rate)
    ensures
        at_rate(by_rate_descending(tiers), rate) == at_rate(tiers, rate),
    decreases tiers.len(),
{
    if tiers.len() == 0 {
        assert(tiers =~= Seq::empty());
    } else {
        let front = tiers.drop_last();
        assert(tiers =~= front.push(tiers.last()));
        lemma_ties_keep_order(front, rate);
        lemma_insert_keeps_ties(by_rate_descending(front), tiers.last(), rate);
        lemma_at_rate_push(by_rate_descending(front), tiers.last(), rate);
        lemma_at_rate_push(front, tiers.last(), rate);
    }
}

/// What one more book level adds to the candidates.
proof fn lemma_candidates_push(books: Seq<Book>, fair: Rate, book: Book)
    ensures
        candidates(books.push(book), fair) == if is_candidate(book, fair) {
            candidates(books, fair).push((book.rate, book.period))
        } else {
            candidates(books, fair)
        },
{
    reveal(Seq::filter);
    assert(books.push(book).drop_last() =~= books);
    let kept = books.filter(|b: Book| is_candidate(b, fair));
    if is_candidate(book, fair) {
        assert(kept.push(book).map_values(|b: Book| (b.rate, b.period)) =~= kept.map_values(
            |b: Book| (b.rate, b.period),
        ).push((book.rate, book.period)));
    }
}

/// Decides `is_candidate`.
fn candidate(book: &Book, fair: Rate) -> (yes: bool)
    ensures
        yes == is_candidate(*book, fair),
{
    book.amount < 0 && (is_near_fair(fair, book.rate) || period_by_rate(book.rate) >= book.period)
}

/// Puts `tier` into a list ordered by rate, behind its equals.
fn insert_sorted(sorted: &mut Vec<(Rate, u32)>, tier: (Rate, u32))
    ensures
        final(sorted)@ == insert_tier(old(sorted)@, tier),
{
    let mut at: usize = sorted.len();
    while at > 0 && sorted[at - 1].0 < tier.0
        invariant
            at <= sorted.len(),
            forall|j: int| at <= j < sorted.len() ==> sorted[j].0 < tier.0,
        decreases at,
    {
        at -= 1;
    }
    proof {
        lemma_insert_at(sorted@, tier, at as int);
    }
    sorted.insert(at, tier);
}

/// Selects the book levels worth lending into and orders them by rate,
/// highest first.
pub fn fair_offer_pairs(books: &Vec<Book>, fair: Rate) -> (pairs: Vec<(Rate, u32)>)
    ensures
        pairs@ == by_rate_descending(candidates(books@, fair)),
{
    let mut pairs: Vec<(Rate, u32)> = Vec::new();
    let mut i: usize = 0;
    proof {
        reveal(Seq::filter);
        assert(books@.take(0) =~= Seq::<Book>::empty());
        assert(candidates(books@.take(0), fair) =~= Seq::<(Rate, u32)>::empty());
    }
    while i < books.len()
        invariant
            i <= books.len(),
            pairs@ == by_rate_descending(candidates(books@.take(i as int), fair)),
        decreases books.len() - i,
    {
        let book = &books[i];
        proof {
            lemma_candidates_push(books@.take(i as int), fair, *book);
            assert(books@.take(i as int).push(*book) =~= books@.take(i + 1));
        }
        if candidate(book, fair) {
            proof {
                let before = candidates(books@.take(i as int), fair);
                assert(before.push((book.rate, book.period)).drop_last() =~= before);
            }
            insert_sorted(&mut pairs, (book.rate, book.period));
        }
        i += 1;
    }
    proof {
        assert(books@.take(books.len() as int) =~= books@);
    }
    pairs
}

/// What to place into one tier while `remaining` is left of the balance,
/// if anything: at the duration the tier's rate justifies where the
/// balance and the rate allow a full commitment, else at the tier's own
/// duration where that is short.
pub open spec fn tier_offer(
    tier: (Rate, u32),
    remaining: int,
    limits: Limits,
) -> Option<OfferRequest> {
    let justified = period_of(tier.0 as int);
    if remaining > limits.lending_size && (tier.0 > limits.max_apy || (remaining
        > limits.reserved_1 && justified >= tier.1 && tier.0 >= limits.min_apy)) {
        Some(OfferRequest { amount: limits.lending_size, rate: tier.0, period: justified as u32 })
    } else if remaining > limits.reserved_2 && tier.1 <= 5 && tier.0 >= limits.min_apy {
        Some(OfferRequest { amount: limits.lending_size, rate: tier.0, period: tier.1 })
    } else {
        None
    }
}

/// The offers placed while walking `tiers` in order, starting with
/// `remaining` left of the balance; each offer takes one lending size off.
pub open spec fn tier_offers(
    tiers: Seq<(Rate, u32)>,
    remaining: int,
    limits: Limits,
) -> Seq<OfferRequest>
    decreases tiers.len(),
{
    if tiers.len() == 0 {
        Seq::empty()
    } else {
        match tier_offer(tiers[0], remaining, limits) {
            Some(offer) => seq![offer] + tier_offers(
                tiers.drop_first(),
                remaining - limits.lending_size,
                limits,
            ),
            None => tier_offers(tiers.drop_first(), remaining, limits),
        }
    }
}

/// Whether the offer at the fair rate is placed.
pub open spec fn places_fair_offer(balance: Amount, fair: Rate, limits: Limits) -> bool {
    balance >= limits.lending_size && (fair >= limits.min_apy || balance > limits.reserved_1)
}

/// The offer at the fair rate.
pub open spec fn fair_offer(fair: Rate, limits: Limits) -> OfferRequest {
    OfferRequest {
        amount: limits.lending_size,
        rate: fair,
        period: period_of(fair as int) as u32,
    }
}

/// The offers to place, in the order of placing: nothing while the balance
/// is below one lending size; else the offer at the fair rate, where the
/// rate or the balance warrants it, and then the tiers of the book from
/// the highest rate down.
pub open spec fn allocation(
    balance: Amount,
    fair: Rate,
    books: Seq<Book>,
    limits: Limits,
) -> Seq<OfferRequest> {
    let tiers = by_rate_descending(candidates(books, fair));
    if balance < limits.lending_size {
        Seq::empty()
    } else if places_fair_offer(balance, fair, limits) {
        seq![fair_offer(fair, limits)] + tier_offers(
            tiers,
            balance - limits.lending_size,
            limits,
        )
    } else {
        tier_offers(tiers, balance as int, limits)
    }
}

/// Decides `tier_offer`.
fn offer_for_tier(
    tier: (Rate, u32),
    remaining: i128,
    limits: &Limits,
) -> (offer: Option<OfferRequest>)
    ensures
        offer == tier_offer(tier, remaining as int, *limits),
{
    let justified = period_by_rate(tier.0);
    if remaining > limits.lending_size as i128 && (tier.0 > limits.max_apy || (remaining
        > limits.reserved_1 as i128 && justified >= tier.1 && tier.0 >= limits.min_apy)) {
        Some(OfferRequest { amount: limits.lending_size, rate: tier.0, period: justified })
    } else if remaining > limits.reserved_2 as i128 && tier.1 <= 5 && tier.0 >= limits.min_apy {
        Some(OfferRequest { amount: limits.lending_size, rate: tier.0, period: tier.1 })
    } else {
        None
    }
}

/// Decides the offers to place for an available balance, the fair rate and
/// a snapshot of the order book.
pub fn allocate(
    balance: Amount,
    fair: Rate,
    books: &Vec<Book>,
    config: &Config,
) -> (offers: Vec<OfferRequest>)
    ensures
        offers@ == allocation(balance, fair, books@, config.spec_limits()),
        balance < config.spec_limits().lending_size ==> offers@.len() == 0,
{
    let limits = config.limits();
    let mut offers: Vec<OfferRequest> = Vec::new();
    if balance < limits.lending_size {
        return offers;
    }
    let mut remaining: i128 = balance as i128;
    if fair >= limits.min_apy || balance > limits.reserved_1 {
        offers.push(
            OfferRequest {
                amount: limits.lending_size,
                rate: fair,
                period: period_by_rate(fair),
            },
        );
        remaining = remaining - limits.lending_size as i128;
    }
    let tiers = fair_offer_pairs(books, fair);
    let ghost head = offers@;
    let ghost start = remaining as int;
    let mut i: usize = 0;
    proof {
        assert(tiers@.skip(0) =~= tiers@);
    }
    while i < tiers.len()
        invariant
            i <= tiers.len(),
            -(u64::MAX as int) <= remaining <= u64::MAX as int,
            head + tier_offers(tiers@, start, limits) == offers@ + tier_offers(
                tiers@.skip(i as int),
                remaining as int,
                limits,
            ),
        decreases tiers.len() - i,
    {
        let ghost rest = tiers@.skip(i as int);
        proof {
            assert(rest[0] == tiers@[i as int]);
            assert(rest.drop_first() =~= tiers@.skip(i + 1));
        }
        match offer_for_tier(tiers[i], remaining, &limits) {
            Some(offer) => {
                proof {
                    let tail = tier_offers(
                        rest.drop_first(),
                        remaining - limits.lending_size,
                        limits,
                    );
                    assert(offers@ + (seq![offer] + tail) =~= offers@.push(offer) + tail);
                }
                offers.push(offer);
                remaining = remaining - limits.lending_size as i128;
            },
            None => {},
        }
        i += 1;
    }
    proof {
        assert(tiers@.skip(tiers.len() as int) =~= Seq::<(Rate, u32)>::empty());
        assert(offers@ + Seq::<OfferRequest>::empty() =~= offers@);
        assert(Seq::<OfferRequest>::empty() + tier_offers(tiers@, start, limits) =~= tier_offers(
            tiers@,
            start,
            limits,
        ));
    }
    offers
}

/// Whether the rates of `offers` never rise from one offer to the next.
pub open spec fn offer_rates_descend(offers: Seq<OfferRequest>) -> bool {
    forall|i: int, j: int| 0 <= i <= j < offers.len() ==> offers[i].rate >= offers[j].rate
}

/// Whether an offer runs for as long as its rate justifies, or for five
/// days at most.
pub open spec fn runs_as_justified_or_short(offer: OfferRequest) -> bool {
    offer.period == period_of(offer.rate as int) || offer.period <= 5
}

/// Every offer placed into the tiers is of exactly one lending size,
/// carries the rate of one of the tiers, and runs for as long as that rate
/// justifies or for five days at most.
pub proof fn lemma_tier_offers_whole(tiers: Seq<(Rate, u32)>, remaining: int, limits: Limits)
    ensures
        forall|k: int|
            0 <= k < tier_offers(tiers, remaining, limits).len() ==> {
                &&& (#[trigger] tier_offers(tiers, remaining, limits)[k]).amount
                    == limits.lending_size
                &&& runs_as_justified_or_short(tier_offers(tiers, remaining, limits)[k])
                &&& exists|t: int|
                    0 <= t < tiers.len() && tiers[t].0 == tier_offers(
                        tiers,
                        remaining,
                        limits,
                    )[k].rate
            },
    decreases tiers.len(),
{
    if tiers.len() > 0 {
        let rest = tiers.drop_first();
        let offers = tier_offers(tiers, remaining, limits);
        match tier_offer(tiers[0], remaining, limits) {
            Some(offer) => {
                let tail = tier_offers(rest, remaining - limits.lending_size, limits);
                lemma_tier_offers_whole(rest, remaining - limits.lending_size, limits);
                assert forall|k: int| 0 <= k < offers.len() implies {
                    &&& (#[trigger] offers[k]).amount == limits.lending_size
                    &&& runs_as_justified_or_short(offers[k])
                    &&& exists|t: int| 0 <= t < tiers.len() && tiers[t].0 == offers[k].rate
                } by {
                    if k == 0 {
                        assert(tiers[0].0 == offers[0].rate);
                    } else {
                        assert(offers[k] == tail[k - 1]);
                        let t = choose|t: int| 0 <= t < rest.len() && rest[t].0 == tail[k - 1].rate;
                        assert(tiers[t + 1].0 == offers[k].rate);
                    }
                }
            },
            None => {
                lemma_tier_offers_whole(rest, remaining, limits);
                assert forall|k: int| 0 <= k < offers.len() implies {
                    &&& (#[trigger] offers[k]).amount == limits.lending_size
                    &&& runs_as_justified_or_short(offers[k])
                    &&& exists|t: int| 0 <= t < tiers.len() && tiers[t].0 == offers[k].rate
                } by {
                    let inner = tier_offers(rest, remaining, limits);
                    assert(offers[k] == inner[k]);
                    let t = choose|t: int| 0 <= t < rest.len() && rest[t].0 == inner[k].rate;
                    assert(tiers[t + 1].0 == offers[k].rate);
                }
            },
        }
    }
}

/// Walking tiers that descend by rate places offers that descend by rate.
pub proof fn lemma_tier_offers_descend(tiers: Seq<(Rate, u32)>, remaining: int, limits: Limits)
    requires
        rates_descend(tiers),
    ensures
        offer_rates_descend(tier_offers(tiers, remaining, limits)),
    decreases tiers.len(),
{
    if tiers.len() > 0 {
        let rest = tiers.drop_first();
        assert(rates_descend(rest)) by {
            assert forall|i: int, j: int| 0 <= i <= j < rest.len() implies rest[i].0
                >= rest[j].0 by {
                assert(rest[i] == tiers[i + 1] && rest[j] == tiers[j + 1]);
            }
        }
        match tier_offer(tiers[0], remaining, limits) {
            Some(offer) => {
                let left = remaining - limits.lending_size;
                let tail = tier_offers(rest, left, limits);
                let offers = tier_offers(tiers, remaining, limits);
                lemma_tier_offers_descend(rest, left, limits);
                lemma_tier_offers_whole(rest, left, limits);
                assert forall|i: int, j: int| 0 <= i <= j < offers.len() implies offers[i].rate
                    >= offers[j].rate by {
                    if j > 0 {
                        assert(offers[j] == tail[j - 1]);
                        if i == 0 {
                            let t = choose|t: int|
                                0 <= t < rest.len() && rest[t].0 == tail[j - 1].rate;
                            assert(rest[t] == tiers[t + 1]);
                        } else {
                            assert(offers[i] == tail[i - 1]);
                        }
                    }
                }
            },
            None => {
                lemma_tier_offers_descend(rest, remaining, limits);
            },
        }
    }
}

/// Where the second balance floor is not below the lending size, the
/// tiers never take more than what remains.
pub proof fn lemma_tier_offers_within(tiers: Seq<(Rate, u32)>, remaining: int, limits: Limits)
    requires
        limits.reserved_2 >= limits.lending_size,
        remaining >= 0,
    ensures
        tier_offers(tiers, remaining, limits).len() * limits.lending_size <= remaining,
    decreases tiers.len(),
{
    let size = limits.lending_size as int;
    if tiers.len() > 0 {
        let rest = tiers.drop_first();
        match tier_offer(tiers[0], remaining, limits) {
            Some(offer) => {
                let tail = tier_offers(rest, remaining - size, limits);
                lemma_tier_offers_within(rest, remaining - size, limits);
                assert((1 + tail.len()) * size == size + tail.len() * size) by (nonlinear_arith);
            },
            None => {
                lemma_tier_offers_within(rest, remaining, limits);
            },
        }
    } else {
        assert(0 * size == 0);
    }
}

/// Every offer of an allocation is of exactly one lending size, never a
/// fraction of it, and runs for as long as its rate justifies or for five
/// days at most; and no offer is placed from a balance below one lending
/// size.
pub proof fn lemma_allocation_whole(balance: Amount, fair: Rate, books: Seq<Book>, limits: Limits)
    ensures
        forall|k: int|
            0 <= k < allocation(balance, fair, books, limits).len() ==> {
                &&& (#[trigger] allocation(balance, fair, books, limits)[k]).amount
                    == limits.lending_size
                &&& runs_as_justified_or_short(allocation(balance, fair, books, limits)[k])
            },
        balance < limits.lending_size ==> allocation(balance, fair, books, limits).len() == 0,
{
    crate::strategy::lending::period::lemma_period_in_range(fair as int);
    let tiers = by_rate_descending(candidates(books, fair));
    lemma_tier_offers_whole(tiers, balance - limits.lending_size, limits);
    lemma_tier_offers_whole(tiers, balance as int, limits);
}

/// Where the second balance floor is not below the lending size, an
/// allocation never exceeds the balance: before each offer at least one
/// lending size was left. A lower floor lets a short loan be placed from
/// less than one lending size, so such limits are left out.
pub proof fn lemma_allocation_within_balance(
    balance: Amount,
    fair: Rate,
    books: Seq<Book>,
    limits: Limits,
)
    requires
        limits.reserved_2 >= limits.lending_size,
    ensures
        allocation(balance, fair, books, limits).len() * limits.lending_size <= balance,
{
    let size = limits.lending_size as int;
    let tiers = by_rate_descending(candidates(books, fair));
    if balance < limits.lending_size {
        assert(0 * size == 0);
    } else if places_fair_offer(balance, fair, limits) {
        let tail = tier_offers(tiers, balance - size, limits);
        lemma_tier_offers_within(tiers, balance - size, limits);
        assert((1 + tail.len()) * size == size + tail.len() * size) by (nonlinear_arith);
    } else {
        lemma_tier_offers_within(tiers, balance as int, limits);
    }
}

/// After the offer at the fair rate, if there is one, the offers of an
/// allocation come in descending order of rate.
pub proof fn lemma_allocation_descends(
    balance: Amount,
    fair: Rate,
    books: Seq<Book>,
    limits: Limits,
)
    ensures
        places_fair_offer(balance, fair, limits) ==> {
            &&& allocation(balance, fair, books, limits).len() > 0
            &&& allocation(balance, fair, books, limits)[0] == fair_offer(fair, limits)
            &&& offer_rates_descend(allocation(balance, fair, books, limits).skip(1))
        },
        !places_fair_offer(balance, fair, limits) ==> offer_rates_descend(
            allocation(balance, fair, books, limits),
        ),
{
    let tiers = by_rate_descending(candidates(books, fair));
    lemma_by_rate_descending(candidates(books, fair));
    if balance < limits.lending_size {
    } else if places_fair_offer(balance, fair, limits) {
        let tail = tier_offers(tiers, balance - limits.lending_size, limits);
        lemma_tier_offers_descend(tiers, balance - limits.lending_size, limits);
        assert((seq![fair_offer(fair, limits)] + tail).skip(1) =~= tail);
    } else {
        lemma_tier_offers_descend(tiers, balance as int, limits);
    }
}

/// With no more than one lending size left, and a second balance floor
/// not below the lending size, nothing is placed into any tier.
proof fn lemma_nothing_left(tiers: Seq<(Rate, u32)>, remaining: int, limits: Limits)
    requires
        limits.reserved_2 >= limits.lending_size,
        remaining <= limits.lending_size,
    ensures
        tier_offers(tiers, remaining, limits).len() == 0,
    decreases tiers.len(),
{
    if tiers.len() > 0 {
        lemma_nothing_left(tiers.drop_first(), remaining, limits);
    }
}

/// Where every tier offers more than the maximum rate, and the second
/// balance floor is not below the lending size, the tiers are taken one
/// after the other, each at the duration its rate justifies, until no more
/// than one lending size is left.
pub proof fn lemma_tiers_above_maximum(tiers: Seq<(Rate, u32)>, remaining: int, limits: Limits)
    requires
        limits.reserved_2 >= limits.lending_size,
        forall|t: int| 0 <= t < tiers.len() ==> (#[trigger] tiers[t]).0 > limits.max_apy,
    ensures
        tier_offers(tiers, remaining, limits).len() <= tiers.len(),
        forall|k: int|
            0 <= k < tier_offers(tiers, remaining, limits).len() ==> {
                &&& #[trigger] tier_offers(tiers, remaining, limits)[k] == (OfferRequest {
                    amount: limits.lending_size,
                    rate: tiers[k].0,
                    period: period_of(tiers[k].0 as int) as u32,
                })
                &&& remaining - k * limits.lending_size > limits.lending_size
            },
        tier_offers(tiers, remaining, limits).len() < tiers.len() ==> remaining - tier_offers(
            tiers,
            remaining,
            limits,
        ).len() * limits.lending_size <= limits.lending_size,
    decreases tiers.len(),
{
    let size = limits.lending_size as int;
    let offers = tier_offers(tiers, remaining, limits);
    if tiers.len() > 0 {
        let rest = tiers.drop_first();
        if remaining > size {
            let tail = tier_offers(rest, remaining - size, limits);
            assert(tiers[0].0 > limits.max_apy);
            assert forall|t: int| 0 <= t < rest.len() implies (#[trigger] rest[t]).0
                > limits.max_apy by {
                assert(rest[t] == tiers[t + 1]);
            }
            lemma_tiers_above_maximum(rest, remaining - size, limits);
            assert(offers.len() == 1 + tail.len());
            assert forall|k: int| 0 <= k < offers.len() implies {
                &&& #[trigger] offers[k] == (OfferRequest {
                    amount: limits.lending_size,
                    rate: tiers[k].0,
                    period: period_of(tiers[k].0 as int) as u32,
                })
                &&& remaining - k * size > size
            } by {
                if k > 0 {
                    assert(offers[k] == tail[k - 1]);
                    assert(rest[k - 1] == tiers[k]);
                    assert((remaining - size) - (k - 1) * size == remaining - k * size)
                        by (nonlinear_arith);
                } else {
                    assert(0 * size == 0);
                }
            }
            assert((remaining - size) - tail.len() * size == remaining - offers.len() * size)
                by (nonlinear_arith)
                requires
                    offers.len() == 1 + tail.len(),
            ;
        } else {
            lemma_nothing_left(tiers, remaining, limits);
            assert(0 * size == 0);
        }
    }
}

} // verus!
