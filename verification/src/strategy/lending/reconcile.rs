//! Reconciliation of the offers that are still open with the fair rate.
//!
//! An open offer is withdrawn when its rate has drifted more than 5% from
//! the fair rate and it has been open for more than an hour, both at once:
//! a fresh offer gets time to be taken, and an old offer near the fair
//! rate stays.

use vstd::prelude::*;

use crate::strategy::lending::{is_off_fair, off_fair, Millis, Offer, Rate};

verus! {

/// Age beyond which an offer off the fair rate is withdrawn: one hour.
pub const MAX_OFFER_AGE_MS: i64 = 3_600_000;

/// Whether an offer was created more than an hour before `last_tick`.
pub open spec fn is_aged(offer: Offer, last_tick: Millis) -> bool {
    last_tick - offer.mts_created > MAX_OFFER_AGE_MS
}

/// Whether an offer is to be withdrawn.
pub open spec fn is_stale(offer: Offer, fair: Rate, last_tick: Millis) -> bool {
    off_fair(fair as int, offer.rate as int) && is_aged(offer, last_tick)
}

/// The ids of the offers to withdraw, in the order the offers came in.
pub open spec fn cancellations(offers: Seq<Offer>, fair: Rate, last_tick: Millis) -> Seq<u32> {
    offers.filter(|o: Offer| is_stale(o, fair, last_tick)).map_values(|o: Offer| o.id)
}

/// What one more offer adds to the cancellations.
proof fn lemma_cancellations_push(offers: Seq<Offer>, fair: Rate, last_tick: Millis, offer: Offer)
    ensures
        cancellations(offers.push(offer), fair, last_tick) == if is_stale(offer, fair, last_tick) {
            cancellations(offers, fair, last_tick).push(offer.id)
        } else {
            cancellations(offers, fair, last_tick)
        },
{
    reveal(Seq::filter);
    assert(offers.push(offer).drop_last() =~= offers);
    let kept = offers.filter(|o: Offer| is_stale(o, fair, last_tick));
    if is_stale(offer, fair, last_tick) {
        assert(kept.push(offer).map_values(|o: Offer| o.id) =~= kept.map_values(
            |o: Offer| o.id,
        ).push(offer.id));
    }
}

/// Decides `is_stale`.
pub fn should_cancel(offer: &Offer, fair: Rate, last_tick: Millis) -> (stale: bool)
    ensures
        stale == is_stale(*offer, fair, last_tick),
{
    let age: i128 = last_tick as i128 - offer.mts_created as i128;
    is_off_fair(fair, offer.rate) && age > MAX_OFFER_AGE_MS as i128
}

/// Selects the open offers to withdraw.
pub fn reconcile(offers: &Vec<Offer>, fair: Rate, last_tick: Millis) -> (ids: Vec<u32>)
    ensures
        ids@ == cancellations(offers@, fair, last_tick),
{
    let mut ids: Vec<u32> = Vec::new();
    let mut i: usize = 0;
    proof {
        reveal(Seq::filter);
        assert(offers@.take(0) =~= Seq::<Offer>::empty());
        assert(cancellations(offers@.take(0), fair, last_tick) =~= Seq::<u32>::empty());
    }
    while i < offers.len()
        invariant
            i <= offers.len(),
            ids@ == cancellations(offers@.take(i as int), fair, last_tick),
        decreases offers.len() - i,
    {
        proof {
            lemma_cancellations_push(offers@.take(i as int), fair, last_tick, offers@[i as int]);
            assert(offers@.take(i as int).push(offers@[i as int]) =~= offers@.take(i + 1));
        }
        if should_cancel(&offers[i], fair, last_tick) {
            ids.push(offers[i].id);
        }
        i += 1;
    }
    proof {
        assert(offers@.take(offers.len() as int) =~= offers@);
    }
    ids
}

/// An id is withdrawn exactly when it is the id of an open offer that is
/// both off the fair rate and aged: neither condition suffices alone.
pub proof fn lemma_cancelled_iff_both(offers: Seq<Offer>, fair: Rate, last_tick: Millis, id: u32)
    ensures
        cancellations(offers, fair, last_tick).contains(id) <==> exists|i: int|
            0 <= i < offers.len() && (#[trigger] offers[i]).id == id && off_fair(
                fair as int,
                offers[i].rate as int,
            ) && is_aged(offers[i], last_tick),
    decreases offers.len(),
{
    let ids = cancellations(offers, fair, last_tick);
    if offers.len() == 0 {
        reveal(Seq::filter);
        assert(ids =~= Seq::<u32>::empty());
    } else {
        let front = offers.drop_last();
        let last = offers.last();
        let before = cancellations(front, fair, last_tick);
        lemma_cancelled_iff_both(front, fair, last_tick, id);
        lemma_cancellations_push(front, fair, last_tick, last);
        assert(front.push(last) =~= offers);
        if ids.contains(id) {
            let k = choose|k: int| 0 <= k < ids.len() && ids[k] == id;
            if k < before.len() {
                assert(before[k] == id);
                let i = choose|i: int|
                    0 <= i < front.len() && (#[trigger] front[i]).id == id && off_fair(
                        fair as int,
                        front[i].rate as int,
                    ) && is_aged(front[i], last_tick);
                assert(offers[i] == front[i]);
            } else {
                assert(offers[offers.len() - 1] == last);
            }
        }
        if exists|i: int|
            0 <= i < offers.len() && (#[trigger] offers[i]).id == id && off_fair(
                fair as int,
                offers[i].rate as int,
            ) && is_aged(offers[i], last_tick) {
            let i = choose|i: int|
                0 <= i < offers.len() && (#[trigger] offers[i]).id == id && off_fair(
                    fair as int,
                    offers[i].rate as int,
                ) && is_aged(offers[i], last_tick);
            if i < front.len() {
                assert(front[i] == offers[i]);
                assert(before.contains(id));
                let k = choose|k: int| 0 <= k < before.len() && before[k] == id;
                assert(ids[k] == id);
            } else {
                assert(ids[ids.len() - 1] == id);
            }
        }
    }
}

} // verus!
