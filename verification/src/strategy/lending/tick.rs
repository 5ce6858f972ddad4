//! One execution cycle of the lending strategy, as a state machine.
//!
//! The strategy itself neither talks to the exchange nor touches the
//! store. It is handed what happened (`Event`) and answers with what is to
//! be done next (`Action`); whoever drives it performs the action and comes
//! back with its outcome. A cycle starts with `Event::Tick` and ends with
//! `Action::Report` or `Action::Abort`.

use vstd::prelude::*;

use crate::error::Error;
use crate::strategy::lending::allocate::{allocate, allocation, OfferRequest};
use crate::strategy::lending::rate::{estimate, estimate_rate};
use crate::strategy::lending::reconcile::{cancellations, reconcile};
use crate::strategy::lending::{Amount, Book, Config, Info, Limits, Millis, Offer, Rate, Trade};

verus! {

/// Time between two ticks, and length of one history window: a minute.
pub const TICK_MS: i64 = 60_000;

/// What the strategy is waiting for.
#[derive(Clone, Copy, Debug, PartialEq, Eq, Structural)]
pub enum Stage {
    /// Nothing: the next tick may start.
    Idle,
    /// The trades of the history window to be fetched and recorded.
    LoggingHistory,
    /// The record of trades, to estimate the fair rate from.
    ReadingTrades,
    /// The offers of this account that are still open.
    FetchingOffers,
    /// The withdrawal of one open offer.
    Cancelling,
    /// The balance available for lending.
    FetchingBalance,
    /// A snapshot of the order book.
    FetchingBooks,
    /// The placement of one offer.
    Submitting,
    /// The closed credits to be fetched and stored.
    LoggingCredits,
    /// The open credits to be fetched and stored.
    LoggingProvided,
    /// The market's funding figures.
    FetchingInfo,
}

/// The part of a cycle that a stage belongs to.
#[derive(Clone, Copy, Debug, PartialEq, Eq, Structural)]
pub enum Phase {
    Idle,
    FetchingHistory,
    Reconciling,
    Allocating,
    Persisting,
    Reporting,
}

/// What a cycle observed, for the record.
#[derive(Clone, Copy, Debug, PartialEq, Eq, Structural)]
pub struct Summary {
    /// The market's current yield for lenders.
    pub yield_lend: Rate,
    /// The fair rate this cycle worked with.
    pub fair_rate: Rate,
    /// The market's average loan duration, in hundredths of a day.
    pub duration_lend: u64,
}

/// What the driver is to do next.
#[derive(Clone, Copy, Debug, PartialEq, Eq, Structural)]
pub enum Action {
    /// Fetch the trades from `start` up to `end` and append them to the
    /// record. Answer with `Event::Done`.
    LogHistory { start: Millis, end: Millis },
    /// Read the trades on record for the funding instrument, and the
    /// clock. Answer with `Event::Trades`.
    ReadTrades,
    /// Fetch the open offers. Answer with `Event::Offers`.
    FetchOffers,
    /// Withdraw the offer `id`. Answer with `Event::Done`.
    Cancel { id: u32 },
    /// Fetch the available balance. Answer with `Event::Balance`.
    FetchBalance,
    /// Fetch the order book. Answer with `Event::Books`.
    FetchBooks,
    /// Place `offer`. Answer with `Event::Done`.
    Submit { offer: OfferRequest },
    /// Fetch the closed credits and store each under its id. Answer with
    /// `Event::Done`.
    LogCredits,
    /// Fetch the open credits and store each under its id. Answer with
    /// `Event::Done`.
    LogProvided,
    /// Fetch the funding figures. Answer with `Event::Info`.
    FetchInfo,
    /// The cycle is complete; put `summary` on record.
    Report { summary: Summary },
    /// The cycle is over without completing, for the reason given.
    Abort { error: Error },
    /// The event is not the one awaited; nothing has changed.
    Refuse,
}

/// What happened.
pub enum Event {
    /// The scheduler asks for a cycle.
    Tick,
    /// An action that yields nothing has ended.
    Done(Result<(), Error>),
    /// The trades on record, and the time at which they were read.
    Trades { trades: Result<Vec<Trade>, Error>, now: Millis },
    /// The open offers.
    Offers(Result<Vec<Offer>, Error>),
    /// The available balance.
    Balance(Result<Amount, Error>),
    /// The order book.
    Books(Result<Vec<Book>, Error>),
    /// The funding figures.
    Info(Result<Info, Error>),
}

/// The instant a minute before `now`, or the earliest instant there is.
pub open spec fn minute_before(now: Millis) -> Millis {
    if now >= i64::MIN + TICK_MS {
        (now - TICK_MS) as Millis
    } else {
        i64::MIN
    }
}

/// The instant a minute after `now`, or the latest instant there is.
pub open spec fn minute_after(now: Millis) -> Millis {
    if now <= i64::MAX - TICK_MS {
        (now + TICK_MS) as Millis
    } else {
        i64::MAX
    }
}

/// The state of a strategy between two events.
pub struct State {
    /// The thresholds the strategy was configured with.
    pub limits: Limits,
    /// End of the next history window.
    pub now: Millis,
    /// Start of the next history window.
    pub last_tick: Millis,
    /// What is awaited.
    pub stage: Stage,
    /// The fair rate of the running cycle.
    pub fair: Rate,
    /// The balance of the running cycle.
    pub balance: Amount,
    /// The offers this cycle withdraws.
    pub cancels: Seq<u32>,
    /// The offers this cycle places.
    pub offers: Seq<OfferRequest>,
    /// Position, in `cancels` or `offers`, of the one under way.
    pub cursor: int,
}

impl Stage {
    /// The part of the cycle this stage belongs to.
    pub open spec fn phase(self) -> Phase {
        match self {
            Stage::Idle => Phase::Idle,
            Stage::LoggingHistory => Phase::FetchingHistory,
            Stage::ReadingTrades | Stage::FetchingOffers | Stage::Cancelling => Phase::Reconciling,
            Stage::FetchingBalance | Stage::FetchingBooks | Stage::Submitting => Phase::Allocating,
            Stage::LoggingCredits | Stage::LoggingProvided => Phase::Persisting,
            Stage::FetchingInfo => Phase::Reporting,
        }
    }
}

impl State {
    /// The state of a strategy created at `now`: idle, with the minute
    /// before `now` as its first history window.
    pub open spec fn initial(limits: Limits, now: Millis) -> State {
        State {
            limits,
            now,
            last_tick: minute_before(now),
            stage: Stage::Idle,
            fair: 0,
            balance: 0,
            cancels: Seq::empty(),
            offers: Seq::empty(),
            cursor: 0,
        }
    }

    /// This state, awaiting something else.
    pub open spec fn at(self, stage: Stage) -> State {
        State { stage, ..self }
    }

    /// The cycle ends here without completing.
    pub open spec fn abort(self, error: Error) -> (State, Action) {
        (self.at(Stage::Idle), Action::Abort { error })
    }

    /// The event is not the one awaited.
    pub open spec fn refuse(self) -> (State, Action) {
        (self, Action::Refuse)
    }

    /// The history window after an attempt to log it: the next minute
    /// where the attempt succeeded, the same window where it failed.
    pub open spec fn after_history(self, logged: bool) -> State {
        if logged {
            State { last_tick: self.now, now: minute_after(self.now), ..self }
        } else {
            self
        }
    }

    /// Withdraws the offer at `cursor`, or turns to the balance when none
    /// is left to withdraw.
    pub open spec fn cancel_from(self, cursor: int) -> (State, Action) {
        if 0 <= cursor < self.cancels.len() {
            (
                State { cursor, ..self.at(Stage::Cancelling) },
                Action::Cancel { id: self.cancels[cursor] },
            )
        } else {
            (self.at(Stage::FetchingBalance), Action::FetchBalance)
        }
    }

    /// Places the offer at `cursor`, or turns to persisting when none is
    /// left to place.
    pub open spec fn submit_from(self, cursor: int) -> (State, Action) {
        if 0 <= cursor < self.offers.len() {
            (
                State { cursor, ..self.at(Stage::Submitting) },
                Action::Submit { offer: self.offers[cursor] },
            )
        } else {
            (self.at(Stage::LoggingCredits), Action::LogCredits)
        }
    }

    /// The state after `event`, and the action it calls for.
    pub open spec fn step(self, event: Event) -> (State, Action) {
        match (self.stage, event) {
            (Stage::Idle, Event::Tick) => (
                self.at(Stage::LoggingHistory),
                Action::LogHistory { start: self.last_tick, end: self.now },
            ),
            (Stage::LoggingHistory, Event::Done(outcome)) => (
                self.after_history(outcome.is_ok()).at(Stage::ReadingTrades),
                Action::ReadTrades,
            ),
            (Stage::ReadingTrades, Event::Trades { trades: Err(error), now }) => self.abort(error),
            (Stage::ReadingTrades, Event::Trades { trades: Ok(trades), now }) => match estimate(
                trades@,
                now,
            ) {
                Ok(fair) => (State { fair, ..self.at(Stage::FetchingOffers) }, Action::FetchOffers),
                Err(error) => self.abort(error),
            },
            (Stage::FetchingOffers, Event::Offers(Err(error))) => self.abort(error),
            (Stage::FetchingOffers, Event::Offers(Ok(offers))) => State {
                cancels: cancellations(offers@, self.fair, self.last_tick),
                ..self
            }.cancel_from(0),
            (Stage::Cancelling, Event::Done(Err(error))) => self.abort(error),
            (Stage::Cancelling, Event::Done(Ok(_))) => self.cancel_from(self.cursor + 1),
            (Stage::FetchingBalance, Event::Balance(Err(error))) => self.abort(error),
            (Stage::FetchingBalance, Event::Balance(Ok(balance))) => if balance
                < self.limits.lending_size {
                (self.at(Stage::LoggingCredits), Action::LogCredits)
            } else {
                (State { balance, ..self.at(Stage::FetchingBooks) }, Action::FetchBooks)
            },
            (Stage::FetchingBooks, Event::Books(Err(error))) => self.abort(error),
            (Stage::FetchingBooks, Event::Books(Ok(books))) => State {
                offers: allocation(self.balance, self.fair, books@, self.limits),
                ..self
            }.submit_from(0),
            (Stage::Submitting, Event::Done(Err(error))) => self.abort(error),
            (Stage::Submitting, Event::Done(Ok(_))) => self.submit_from(self.cursor + 1),
            (Stage::LoggingCredits, Event::Done(Err(error))) => self.abort(error),
            (Stage::LoggingCredits, Event::Done(Ok(_))) => (
                self.at(Stage::LoggingProvided),
                Action::LogProvided,
            ),
            (Stage::LoggingProvided, Event::Done(Err(error))) => self.abort(error),
            (Stage::LoggingProvided, Event::Done(Ok(_))) => (
                self.at(Stage::FetchingInfo),
                Action::FetchInfo,
            ),
            (Stage::FetchingInfo, Event::Info(Err(error))) => self.abort(error),
            (Stage::FetchingInfo, Event::Info(Ok(info))) => (
                self.at(Stage::Idle),
                Action::Report {
                    summary: Summary {
                        yield_lend: info.yield_lend,
                        fair_rate: self.fair,
                        duration_lend: info.duration_lend,
                    },
                },
            ),
            _ => self.refuse(),
        }
    }
}

/// A lending strategy for one symbol of one exchange, with the state of
/// its run.
pub struct Strategy {
    config: Config,
    now: Millis,
    last_tick: Millis,
    stage: Stage,
    fair: Rate,
    balance: Amount,
    cancels: Vec<u32>,
    offers: Vec<OfferRequest>,
    cursor: usize,
}

impl View for Strategy {
    type V = State;

    closed spec fn view(&self) -> State {
        State {
            limits: self.config.spec_limits(),
            now: self.now,
            last_tick: self.last_tick,
            stage: self.stage,
            fair: self.fair,
            balance: self.balance,
            cancels: self.cancels@,
            offers: self.offers@,
            cursor: self.cursor as int,
        }
    }
}

impl Strategy {
    /// The history window never ends before it starts.
    #[verifier::type_invariant]
    spec fn ordered(&self) -> bool {
        self.last_tick <= self.now
    }

    /// The configuration this strategy was created with.
    pub closed spec fn spec_config(&self) -> Config {
        self.config
    }

    /// Creates the strategy at the instant `now`.
    pub fn new(config: Config, now: Millis) -> (strategy: Strategy)
        ensures
            strategy@ == State::initial(config.spec_limits(), now),
            strategy.spec_config() == config,
    {
        let last_tick = if now >= i64::MIN + TICK_MS {
            now - TICK_MS
        } else {
            i64::MIN
        };
        Strategy {
            config,
            now,
            last_tick,
            stage: Stage::Idle,
            fair: 0,
            balance: 0,
            cancels: Vec::new(),
            offers: Vec::new(),
            cursor: 0,
        }
    }

    /// The configuration this strategy was created with.
    pub fn config(&self) -> (config: &Config)
        ensures
            *config == self.spec_config(),
            config.spec_limits() == self@.limits,
    {
        &self.config
    }

    /// What the strategy is waiting for.
    pub fn stage(&self) -> (stage: Stage)
        ensures
            stage == self@.stage,
    {
        self.stage
    }

    /// The next history window, start and end.
    pub fn window(&self) -> (window: (Millis, Millis))
        ensures
            window == (self@.last_tick, self@.now),
            window.0 <= window.1,
    {
        proof {
            use_type_invariant(self);
        }
        (self.last_tick, self.now)
    }

    fn abort(&mut self, error: Error) -> (action: Action)
        ensures
            (final(self)@, action) == old(self)@.abort(error),
            final(self).spec_config() == old(self).spec_config(),
    {
        proof {
            use_type_invariant(&*self);
        }
        self.stage = Stage::Idle;
        Action::Abort { error }
    }

    fn cancel_from(&mut self, cursor: usize) -> (action: Action)
        ensures
            (final(self)@, action) == old(self)@.cancel_from(cursor as int),
            final(self).spec_config() == old(self).spec_config(),
    {
        proof {
            use_type_invariant(&*self);
        }
        if cursor < self.cancels.len() {
            self.cursor = cursor;
            self.stage = Stage::Cancelling;
            Action::Cancel { id: self.cancels[cursor] }
        } else {
            self.stage = Stage::FetchingBalance;
            Action::FetchBalance
        }
    }

    fn submit_from(&mut self, cursor: usize) -> (action: Action)
        ensures
            (final(self)@, action) == old(self)@.submit_from(cursor as int),
            final(self).spec_config() == old(self).spec_config(),
    {
        proof {
            use_type_invariant(&*self);
        }
        if cursor < self.offers.len() {
            self.cursor = cursor;
            self.stage = Stage::Submitting;
            Action::Submit { offer: self.offers[cursor] }
        } else {
            self.stage = Stage::LoggingCredits;
            Action::LogCredits
        }
    }

    /// The position after `cursor`: one that is past the end where there
    /// is none.
    fn following(cursor: usize, len: usize) -> (next: usize)
        ensures
            next < len <==> cursor + 1 < len,
            next < len ==> next == cursor + 1,
    {
        if cursor < len {
            cursor + 1
        } else {
            len
        }
    }

    /// Takes in what happened and says what is to be done next.
    pub fn step(&mut self, event: Event) -> (action: Action)
        ensures
            (final(self)@, action) == old(self)@.step(event),
            final(self).spec_config() == old(self).spec_config(),
    {
        proof {
            use_type_invariant(&*self);
        }
        match (self.stage, event) {
            (Stage::Idle, Event::Tick) => {
                self.stage = Stage::LoggingHistory;
                Action::LogHistory { start: self.last_tick, end: self.now }
            },
            (Stage::LoggingHistory, Event::Done(outcome)) => {
                if outcome.is_ok() {
                    self.last_tick = self.now;
                    self.now = if self.now <= i64::MAX - TICK_MS {
                        self.now + TICK_MS
                    } else {
                        i64::MAX
                    };
                }
                self.stage = Stage::ReadingTrades;
                Action::ReadTrades
            },
            (Stage::ReadingTrades, Event::Trades { trades: Err(error), now }) => self.abort(error),
            (Stage::ReadingTrades, Event::Trades { trades: Ok(trades), now }) => {
                match estimate_rate(&trades, now) {
                    Ok(fair) => {
                        self.fair = fair;
                        self.stage = Stage::FetchingOffers;
                        Action::FetchOffers
                    },
                    Err(error) => self.abort(error),
                }
            },
            (Stage::FetchingOffers, Event::Offers(Err(error))) => self.abort(error),
            (Stage::FetchingOffers, Event::Offers(Ok(offers))) => {
                self.cancels = reconcile(&offers, self.fair, self.last_tick);
                self.cancel_from(0)
            },
            (Stage::Cancelling, Event::Done(Err(error))) => self.abort(error),
            (Stage::Cancelling, Event::Done(Ok(_))) => {
                let next = Self::following(self.cursor, self.cancels.len());
                self.cancel_from(next)
            },
            (Stage::FetchingBalance, Event::Balance(Err(error))) => self.abort(error),
            (Stage::FetchingBalance, Event::Balance(Ok(balance))) => {
                if balance < self.config.limits().lending_size {
                    self.stage = Stage::LoggingCredits;
                    Action::LogCredits
                } else {
                    self.balance = balance;
                    self.stage = Stage::FetchingBooks;
                    Action::FetchBooks
                }
            },
            (Stage::FetchingBooks, Event::Books(Err(error))) => self.abort(error),
            (Stage::FetchingBooks, Event::Books(Ok(books))) => {
                self.offers = allocate(self.balance, self.fair, &books, &self.config);
                self.submit_from(0)
            },
            (Stage::Submitting, Event::Done(Err(error))) => self.abort(error),
            (Stage::Submitting, Event::Done(Ok(_))) => {
                let next = Self::following(self.cursor, self.offers.len());
                self.submit_from(next)
            },
            (Stage::LoggingCredits, Event::Done(Err(error))) => self.abort(error),
            (Stage::LoggingCredits, Event::Done(Ok(_))) => {
                self.stage = Stage::LoggingProvided;
                Action::LogProvided
            },
            (Stage::LoggingProvided, Event::Done(Err(error))) => self.abort(error),
            (Stage::LoggingProvided, Event::Done(Ok(_))) => {
                self.stage = Stage::FetchingInfo;
                Action::FetchInfo
            },
            (Stage::FetchingInfo, Event::Info(Err(error))) => self.abort(error),
            (Stage::FetchingInfo, Event::Info(Ok(info))) => {
                self.stage = Stage::Idle;
                Action::Report {
                    summary: Summary {
                        yield_lend: info.yield_lend,
                        fair_rate: self.fair,
                        duration_lend: info.duration_lend,
                    },
                }
            },
            _ => Action::Refuse,
        }
    }
}

impl Stage {
    /// Position of a stage within a cycle.
    pub open spec fn order(self) -> int {
        match self {
            Stage::Idle => 0,
            Stage::LoggingHistory => 1,
            Stage::ReadingTrades => 2,
            Stage::FetchingOffers => 3,
            Stage::Cancelling => 4,
            Stage::FetchingBalance => 5,
            Stage::FetchingBooks => 6,
            Stage::Submitting => 7,
            Stage::LoggingCredits => 8,
            Stage::LoggingProvided => 9,
            Stage::FetchingInfo => 10,
        }
    }
}

impl Phase {
    /// Position of a phase within a cycle.
    pub open spec fn order(self) -> int {
        match self {
            Phase::Idle => 0,
            Phase::FetchingHistory => 1,
            Phase::Reconciling => 2,
            Phase::Allocating => 3,
            Phase::Persisting => 4,
            Phase::Reporting => 5,
        }
    }
}

impl Event {
    /// Whether the event reports that an action which yields nothing went
    /// well.
    pub open spec fn success(self) -> bool {
        match self {
            Event::Done(Ok(_)) => true,
            _ => false,
        }
    }

    /// The failure an event reports, if it reports one.
    pub open spec fn failure(self) -> Option<Error> {
        match self {
            Event::Done(Err(error)) => Some(error),
            Event::Trades { trades: Err(error), now } => Some(error),
            Event::Offers(Err(error)) => Some(error),
            Event::Balance(Err(error)) => Some(error),
            Event::Books(Err(error)) => Some(error),
            Event::Info(Err(error)) => Some(error),
            _ => None,
        }
    }
}

/// The history window never ends before it starts, whatever happens.
pub proof fn lemma_window_stays_ordered(state: State, event: Event)
    requires
        state.last_tick <= state.now,
    ensures
        state.step(event).0.last_tick <= state.step(event).0.now,
{
}

/// The history window moves only when its trades were logged, and then to
/// the minute that follows it, so that no instant is skipped or fetched
/// twice; after a failure the same window is tried again.
pub proof fn lemma_window_moves_when_logged(state: State, event: Event)
    ensures
        state.stage == Stage::LoggingHistory && event.success() ==> {
            &&& state.step(event).0.last_tick == state.now
            &&& state.step(event).0.now == minute_after(state.now)
        },
        !(state.stage == Stage::LoggingHistory && event.success()) ==> {
            &&& state.step(event).0.last_tick == state.last_tick
            &&& state.step(event).0.now == state.now
        },
{
}

/// While a cycle is running, a tick is refused and changes nothing.
pub proof fn lemma_single_flight(state: State)
    requires
        state.stage != Stage::Idle,
    ensures
        state.step(Event::Tick) == (state, Action::Refuse),
{
}

/// A cycle walks through its phases in order: a step stays in the phase,
/// moves to a later one, or ends the cycle.
pub proof fn lemma_phases_in_order(state: State, event: Event)
    ensures
        state.step(event).0.stage == Stage::Idle || state.stage.phase().order() <= state.step(
            event,
        ).0.stage.phase().order(),
{
}

/// Every event that is taken in brings the cycle nearer to its end: the
/// cycle is over, or has reached a later stage, or has moved on to the next
/// of the offers it is withdrawing or placing. So a cycle ends after as
/// many events as it has stages and offers, at most.
pub proof fn lemma_cycle_progresses(state: State, event: Event)
    requires
        state.cursor >= 0,
    ensures
        ({
            let (next, action) = state.step(event);
            ||| action == Action::Refuse && next == state
            ||| next.stage == Stage::Idle
            ||| state.stage.order() < next.stage.order()
            ||| {
                &&& next.stage == state.stage
                &&& next.stage == Stage::Cancelling || next.stage == Stage::Submitting
                &&& next.cancels == state.cancels
                &&& next.offers == state.offers
                &&& next.cursor == state.cursor + 1
                &&& next.stage == Stage::Cancelling ==> next.cursor < next.cancels.len()
                &&& next.stage == Stage::Submitting ==> next.cursor < next.offers.len()
            }
        }),
{
}

impl State {
    /// Whether two states differ at most in what the stage they are at no
    /// longer reads: between cycles that is everything but the thresholds
    /// and the history window.
    pub open spec fn alike(self, other: State) -> bool {
        &&& self.stage == other.stage
        &&& self.limits == other.limits
        &&& self.now == other.now
        &&& self.last_tick == other.last_tick
        &&& self.stage.order() >= Stage::FetchingOffers.order() ==> self.fair == other.fair
        &&& self.stage == Stage::Cancelling ==> self.cancels == other.cancels && self.cursor
            == other.cursor
        &&& self.stage == Stage::FetchingBooks ==> self.balance == other.balance
        &&& self.stage == Stage::Submitting ==> self.offers == other.offers && self.cursor
            == other.cursor
    }
}

/// A cycle takes nothing over from the cycles before it but the thresholds
/// and the history window: whatever else two strategies remember, alike
/// they answer every event with the same action and stay alike.
pub proof fn lemma_nothing_carried_over(one: State, other: State, event: Event)
    requires
        one.alike(other),
    ensures
        one.step(event).1 == other.step(event).1,
        one.step(event).0.alike(other.step(event).0),
{
}

/// A failure to log the history does not end the cycle: the rate is
/// estimated next in either case.
pub proof fn lemma_history_failure_goes_on(state: State, outcome: Result<(), Error>)
    requires
        state.stage == Stage::LoggingHistory,
    ensures
        state.step(Event::Done(outcome)).1 == Action::ReadTrades,
        state.step(Event::Done(outcome)).0.stage == Stage::ReadingTrades,
{
}

/// After the history stage, a failure reported by an awaited event ends
/// the cycle at once, with that failure: nothing more is withdrawn, placed
/// or stored.
pub proof fn lemma_failure_aborts(state: State, event: Event, error: Error)
    requires
        state.stage != Stage::Idle,
        state.stage != Stage::LoggingHistory,
        event.failure() == Some(error),
        state.step(event).1 != Action::Refuse,
    ensures
        state.step(event) == state.abort(error),
        state.step(event).0.stage == Stage::Idle,
{
}

/// With no trade on record there is no fair rate, and the cycle ends
/// before any offer is withdrawn or placed.
pub proof fn lemma_no_rate_no_offer(state: State, trades: Vec<Trade>, now: Millis)
    requires
        state.stage == Stage::ReadingTrades,
        trades@.len() == 0,
    ensures
        state.step(Event::Trades { trades: Ok(trades), now }) == state.abort(
            Error::DataUnavailable,
        ),
{
    crate::strategy::lending::rate::lemma_estimate_unavailable(trades@, now);
}

/// Only the actions of a running cycle withdraw or place an offer, and
/// what they withdraw or place is what reconciliation and allocation
/// selected.
pub proof fn lemma_offers_follow_the_plan(state: State, event: Event)
    ensures
        match state.step(event).1 {
            Action::Cancel { id } => {
                let next = state.step(event).0;
                &&& next.stage == Stage::Cancelling
                &&& 0 <= next.cursor < next.cancels.len()
                &&& id == next.cancels[next.cursor]
                &&& match event {
                    Event::Offers(Ok(offers)) => next.cancels == cancellations(
                        offers@,
                        state.fair,
                        state.last_tick,
                    ) && next.cursor == 0,
                    _ => next.cancels == state.cancels && next.cursor == state.cursor + 1,
                }
            },
            Action::Submit { offer } => {
                let next = state.step(event).0;
                &&& next.stage == Stage::Submitting
                &&& 0 <= next.cursor < next.offers.len()
                &&& offer == next.offers[next.cursor]
                &&& match event {
                    Event::Books(Ok(books)) => next.offers == allocation(
                        state.balance,
                        state.fair,
                        books@,
                        state.limits,
                    ) && next.cursor == 0,
                    _ => next.offers == state.offers && next.cursor == state.cursor + 1,
                }
            },
            _ => true,
        },
{
}

} // verus!
