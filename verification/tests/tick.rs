use tradebot::error::Error;
use tradebot::strategy::lending::allocate::OfferRequest;
use tradebot::strategy::lending::tick::{Action, Event, Stage, Strategy, Summary, TICK_MS};
use tradebot::strategy::lending::{Book, Config, Info, Offer, Trade};

const NOW: i64 = 1_700_000_000_000;

fn strategy() -> Strategy {
    Strategy::new(Config::new("USD".to_string()), NOW)
}

fn trades(rate: u64) -> Event {
    Event::Trades {
        trades: Ok(vec![Trade { mts: NOW - 1_000, amount: -10_000, rate, period: 2 }]),
        now: NOW,
    }
}

fn open_offer(id: u32, rate: u64, age_minutes: i64) -> Offer {
    Offer { id, symbol: "fUSD".to_string(), rate, mts_created: NOW - age_minutes * 60_000 }
}

/// Brings a fresh strategy to the point where it asks for the open offers.
fn at_offers(fair: u64) -> Strategy {
    let mut s = strategy();
    assert_eq!(s.step(Event::Tick), Action::LogHistory { start: NOW - TICK_MS, end: NOW });
    assert_eq!(s.step(Event::Done(Ok(()))), Action::ReadTrades);
    assert_eq!(s.step(trades(fair)), Action::FetchOffers);
    s
}

#[test]
fn new_strategy_is_idle_with_the_last_minute_as_window() {
    let s = strategy();
    assert_eq!(s.stage(), Stage::Idle);
    assert_eq!(s.window(), (NOW - 60_000, NOW));
    assert_eq!(s.config().symbol, "USD");
    let early = Strategy::new(Config::new("USD".to_string()), i64::MIN + 5);
    assert_eq!(early.window(), (i64::MIN, i64::MIN + 5));
}

#[test]
fn tick_runs_a_whole_cycle() {
    let mut s = strategy();
    assert_eq!(s.step(Event::Tick), Action::LogHistory { start: NOW - 60_000, end: NOW });
    assert_eq!(s.stage(), Stage::LoggingHistory);
    assert_eq!(s.step(Event::Done(Ok(()))), Action::ReadTrades);
    assert_eq!(s.window(), (NOW, NOW + 60_000));
    assert_eq!(s.step(trades(500_000)), Action::FetchOffers);
    // The window has moved: ages are measured from its new start.
    let offers = vec![
        open_offer(11, 600_000, 120),
        open_offer(12, 510_000, 120),
        open_offer(13, 400_000, 61),
        open_offer(14, 400_000, 10),
    ];
    assert_eq!(s.step(Event::Offers(Ok(offers))), Action::Cancel { id: 11 });
    assert_eq!(s.stage(), Stage::Cancelling);
    assert_eq!(s.step(Event::Done(Ok(()))), Action::Cancel { id: 13 });
    assert_eq!(s.step(Event::Done(Ok(()))), Action::FetchBalance);
    assert_eq!(s.step(Event::Balance(Ok(150_000))), Action::FetchBooks);
    let books = vec![
        Book { amount: -1, rate: 900_000, period: 2 },
        Book { amount: 1, rate: 990_000, period: 2 },
        Book { amount: -1, rate: 950_000, period: 2 },
    ];
    assert_eq!(
        s.step(Event::Books(Ok(books))),
        Action::Submit { offer: OfferRequest { amount: 20_000, rate: 500_000, period: 15 } }
    );
    assert_eq!(s.stage(), Stage::Submitting);
    assert_eq!(
        s.step(Event::Done(Ok(()))),
        Action::Submit { offer: OfferRequest { amount: 20_000, rate: 950_000, period: 2 } }
    );
    assert_eq!(
        s.step(Event::Done(Ok(()))),
        Action::Submit { offer: OfferRequest { amount: 20_000, rate: 900_000, period: 2 } }
    );
    assert_eq!(s.step(Event::Done(Ok(()))), Action::LogCredits);
    assert_eq!(s.step(Event::Done(Ok(()))), Action::LogProvided);
    assert_eq!(s.step(Event::Done(Ok(()))), Action::FetchInfo);
    let info = Info { yield_lend: 420_000, duration_lend: 4_750 };
    assert_eq!(
        s.step(Event::Info(Ok(info))),
        Action::Report {
            summary: Summary { yield_lend: 420_000, fair_rate: 500_000, duration_lend: 4_750 }
        }
    );
    assert_eq!(s.stage(), Stage::Idle);
    // The next cycle fetches the next minute.
    assert_eq!(s.step(Event::Tick), Action::LogHistory { start: NOW, end: NOW + 60_000 });
}

#[test]
fn tick_keeps_the_window_when_history_fails() {
    let mut s = strategy();
    s.step(Event::Tick);
    assert_eq!(s.step(Event::Done(Err(Error::Transport))), Action::ReadTrades);
    assert_eq!(s.window(), (NOW - 60_000, NOW));
    assert_eq!(s.step(trades(0)), Action::FetchOffers);
    assert_eq!(s.step(Event::Offers(Err(Error::Transport))), Action::Abort { error: Error::Transport });
    // The same window is asked for again.
    assert_eq!(s.step(Event::Tick), Action::LogHistory { start: NOW - 60_000, end: NOW });
}

#[test]
fn tick_without_trades_is_aborted_for_want_of_data() {
    let mut s = strategy();
    s.step(Event::Tick);
    s.step(Event::Done(Ok(())));
    let none = Event::Trades { trades: Ok(Vec::new()), now: NOW };
    assert_eq!(s.step(none), Action::Abort { error: Error::DataUnavailable });
    assert_eq!(s.stage(), Stage::Idle);
    assert_eq!(s.window(), (NOW, NOW + 60_000));
}

#[test]
fn tick_is_aborted_when_the_record_cannot_be_read() {
    let mut s = strategy();
    s.step(Event::Tick);
    s.step(Event::Done(Ok(())));
    let failed = Event::Trades { trades: Err(Error::Persistence), now: NOW };
    assert_eq!(s.step(failed), Action::Abort { error: Error::Persistence });
    assert_eq!(s.stage(), Stage::Idle);
}

#[test]
fn tick_is_aborted_by_a_failed_cancellation() {
    let mut s = at_offers(500_000);
    let offers = vec![open_offer(1, 900_000, 600), open_offer(2, 900_000, 600)];
    assert_eq!(s.step(Event::Offers(Ok(offers))), Action::Cancel { id: 1 });
    assert_eq!(s.step(Event::Done(Err(Error::Transport))), Action::Abort { error: Error::Transport });
    assert_eq!(s.stage(), Stage::Idle);
    assert_eq!(s.step(Event::Done(Ok(()))), Action::Refuse);
}

#[test]
fn tick_is_aborted_by_a_failed_placement() {
    let mut s = at_offers(500_000);
    assert_eq!(s.step(Event::Offers(Ok(Vec::new()))), Action::FetchBalance);
    assert_eq!(s.step(Event::Balance(Ok(60_000))), Action::FetchBooks);
    let books = vec![Book { amount: -1, rate: 950_000, period: 2 }];
    assert_eq!(
        s.step(Event::Books(Ok(books))),
        Action::Submit { offer: OfferRequest { amount: 20_000, rate: 500_000, period: 15 } }
    );
    assert_eq!(s.step(Event::Done(Err(Error::Transport))), Action::Abort { error: Error::Transport });
    assert_eq!(s.stage(), Stage::Idle);
}

#[test]
fn tick_is_aborted_by_failures_to_fetch() {
    let mut s = at_offers(500_000);
    s.step(Event::Offers(Ok(Vec::new())));
    assert_eq!(s.step(Event::Balance(Err(Error::Transport))), Action::Abort { error: Error::Transport });

    let mut s = at_offers(500_000);
    s.step(Event::Offers(Ok(Vec::new())));
    s.step(Event::Balance(Ok(60_000)));
    assert_eq!(s.step(Event::Books(Err(Error::Transport))), Action::Abort { error: Error::Transport });

    let mut s = at_offers(500_000);
    s.step(Event::Offers(Ok(Vec::new())));
    assert_eq!(s.step(Event::Balance(Ok(0))), Action::LogCredits);
    assert_eq!(s.step(Event::Done(Err(Error::Persistence))), Action::Abort { error: Error::Persistence });

    let mut s = at_offers(500_000);
    s.step(Event::Offers(Ok(Vec::new())));
    s.step(Event::Balance(Ok(0)));
    s.step(Event::Done(Ok(())));
    assert_eq!(s.step(Event::Done(Err(Error::Transport))), Action::Abort { error: Error::Transport });

    let mut s = at_offers(500_000);
    s.step(Event::Offers(Ok(Vec::new())));
    s.step(Event::Balance(Ok(0)));
    s.step(Event::Done(Ok(())));
    s.step(Event::Done(Ok(())));
    assert_eq!(s.step(Event::Info(Err(Error::Transport))), Action::Abort { error: Error::Transport });
    assert_eq!(s.stage(), Stage::Idle);
}

#[test]
fn tick_places_nothing_from_a_small_balance() {
    let mut s = at_offers(500_000);
    assert_eq!(s.step(Event::Offers(Ok(Vec::new()))), Action::FetchBalance);
    // The book is not even asked for.
    assert_eq!(s.step(Event::Balance(Ok(19_999))), Action::LogCredits);
    assert_eq!(s.stage(), Stage::LoggingCredits);
}

#[test]
fn tick_with_an_empty_allocation_goes_on_to_persist() {
    let mut s = at_offers(200_000);
    s.step(Event::Offers(Ok(Vec::new())));
    // fair rate below the minimum, balance below the first floor
    assert_eq!(s.step(Event::Balance(Ok(30_000))), Action::FetchBooks);
    assert_eq!(s.step(Event::Books(Ok(Vec::new()))), Action::LogCredits);
}

#[test]
fn tick_is_single_flight() {
    let mut s = strategy();
    s.step(Event::Tick);
    assert_eq!(s.step(Event::Tick), Action::Refuse);
    assert_eq!(s.stage(), Stage::LoggingHistory);
    s.step(Event::Done(Ok(())));
    assert_eq!(s.step(Event::Tick), Action::Refuse);
    assert_eq!(s.stage(), Stage::ReadingTrades);
    assert_eq!(s.window(), (NOW, NOW + 60_000));
}

#[test]
fn tick_refuses_what_it_does_not_await() {
    let mut s = strategy();
    assert_eq!(s.step(Event::Done(Ok(()))), Action::Refuse);
    assert_eq!(s.step(Event::Balance(Ok(1))), Action::Refuse);
    assert_eq!(s.step(Event::Info(Err(Error::Transport))), Action::Refuse);
    assert_eq!(s.stage(), Stage::Idle);
    s.step(Event::Tick);
    assert_eq!(s.step(Event::Offers(Ok(Vec::new()))), Action::Refuse);
    assert_eq!(s.step(Event::Books(Err(Error::Transport))), Action::Refuse);
    assert_eq!(s.stage(), Stage::LoggingHistory);
    assert_eq!(s.window(), (NOW - 60_000, NOW));
}

#[test]
fn window_end_stops_at_the_last_instant() {
    let mut s = Strategy::new(Config::new("USD".to_string()), i64::MAX - 1);
    s.step(Event::Tick);
    s.step(Event::Done(Ok(())));
    assert_eq!(s.window(), (i64::MAX - 1, i64::MAX));
}
