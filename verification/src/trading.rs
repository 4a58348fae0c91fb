use vstd::prelude::*;
use crate::counter::Counter;
use crate::error::Error;
use crate::log::{newest_first, LogState, RecordLog, MAX_RECORDS};
use crate::principal::Principal;
use crate::record::{Entry, Keyed};
use crate::scan::{named_by, newest};

verus! {

/// A trade that a trader executed on a pair.
#[derive(Debug, PartialEq, Eq)]
pub struct Trade {
    pub id: u64,
    pub trader: Principal,
    pub pair: String,
    pub amount: i128,
    pub price: i128,
    pub timestamp: u64,
    pub is_buy: bool,
}

impl Clone for Trade {
    fn clone(&self) -> (copy: Trade)
        ensures
            copy == *self,
    {
        Trade {
            id: self.id,
            trader: self.trader.clone(),
            pair: self.pair.clone(),
            amount: self.amount,
            price: self.price,
            timestamp: self.timestamp,
            is_buy: self.is_buy,
        }
    }
}

impl Entry for Trade {
    open spec fn names(&self, actor: Seq<char>) -> bool {
        self.trader@ == actor
    }

    open spec fn stamp(&self) -> u64 {
        self.timestamp
    }

    fn involves(&self, actor: &Principal) -> (hit: bool) {
        self.trader.same_as(actor)
    }

    fn duplicate(&self) -> (copy: Trade) {
        self.clone()
    }
}

impl Keyed for Trade {
    open spec fn key(&self) -> u64 {
        self.id
    }

    open spec fn sealed(self, id: u64, at: u64) -> Trade {
        Trade {
            id,
            trader: self.trader,
            pair: self.pair,
            amount: self.amount,
            price: self.price,
            timestamp: at,
            is_buy: self.is_buy,
        }
    }

    fn id(&self) -> (id: u64) {
        self.id
    }

    fn seal(self, id: u64, at: u64) -> (full: Trade) {
        Trade {
            id,
            trader: self.trader,
            pair: self.pair,
            amount: self.amount,
            price: self.price,
            timestamp: at,
            is_buy: self.is_buy,
        }
    }

    proof fn sealed_is_stamped(self, id: u64, at: u64) {
    }
}

/// The counts of the exchange: how many trades were executed, the volume
/// they add up to, and the identifier of the last one.
#[derive(Clone, Copy, Debug, PartialEq, Eq, Structural)]
pub struct TradeStats {
    pub total_trades: u64,
    pub total_volume: i128,
    pub last_trade_id: u64,
}

/// A volume and an amount added up, held at the greatest and at the least
/// volume.
pub open spec fn swollen(volume: i128, amount: i128) -> i128 {
    if volume + amount > i128::MAX {
        i128::MAX
    } else if volume + amount < i128::MIN {
        i128::MIN
    } else {
        (volume + amount) as i128
    }
}

/// The volume that a run of trades adds up to, each amount added in turn.
pub open spec fn volume_of(trades: Seq<Trade>) -> i128
    decreases trades.len(),
{
    if trades.len() == 0 {
        0
    } else {
        swollen(volume_of(trades.drop_last()), trades.last().amount)
    }
}

/// Adds an amount to a volume, held at the greatest and at the least volume.
pub fn swell(volume: i128, amount: i128) -> (sum: i128)
    ensures
        sum == swollen(volume, amount),
{
    match volume.checked_add(amount) {
        Some(sum) => sum,
        None => if amount > 0 {
            i128::MAX
        } else {
            i128::MIN
        },
    }
}

/// The exchange: a log of the trades that were executed, and their volume.
pub struct TradingContract {
    log: RecordLog<Trade>,
    volume: i128,
}

impl View for TradingContract {
    type V = LogState<Trade>;

    closed spec fn view(&self) -> LogState<Trade> {
        self.log@
    }
}

impl TradingContract {
    /// The exchange is one that the engine hands out.
    pub closed spec fn wf(&self) -> bool {
        self.log.wf() && self.volume == volume_of(self.log@.records)
    }

    /// The counts that belong to a state of the exchange.
    pub open spec fn stats_of(state: LogState<Trade>) -> TradeStats {
        TradeStats {
            total_trades: state.records.len() as u64,
            total_volume: volume_of(state.records),
            last_trade_id: state.records.len() as u64,
        }
    }

    /// What is known of every exchange that the engine hands out.
    pub proof fn lemma_valid(&self)
        requires
            self.wf(),
        ensures
            self@.valid(),
    {
    }

    /// An exchange that was never set up.
    pub fn new() -> (exchange: TradingContract)
        ensures
            exchange.wf(),
            exchange@ == LogState::<Trade>::fresh(),
    {
        TradingContract { log: RecordLog::new(), volume: 0 }
    }

    /// Sets the exchange up: no trade is executed yet and the first will get
    /// the identifier 1. An exchange that was set up before stays as it is.
    pub fn init(&mut self) -> (res: Result<(), Error>)
        requires
            old(self).wf(),
        ensures
            final(self).wf(),
            res is Ok,
            final(self)@ == old(self)@.set_up(),
    {
        self.log.init();
        Ok(())
    }

    /// Executes a trade of `trader` at the instant `now`. The caller must have
    /// proved the identity of `trader`, and the exchange must have been set
    /// up. The trade gets the next identifier, which is returned, and its
    /// amount is added to the volume. A refusal leaves the exchange as it is.
    pub fn execute_trade(
        &mut self,
        trader_authorized: bool,
        trader: Principal,
        pair: String,
        amount: i128,
        price: i128,
        is_buy: bool,
        now: u64,
    ) -> (res: Result<u64, Error>)
        requires
            old(self).wf(),
            old(self)@.records.len() < MAX_RECORDS,
        ensures
            final(self).wf(),
            !trader_authorized ==> res == Err::<u64, Error>(Error::Unauthorized),
            trader_authorized && !old(self)@.ready ==> res == Err::<u64, Error>(
                Error::NotInitialized,
            ),
            trader_authorized && old(self)@.ready ==> res == Ok::<u64, Error>(old(self)@.next_id()),
            res is Err ==> final(self)@ == old(self)@,
            res is Ok ==> final(self)@.ready && final(self)@.records == old(self)@.records.push(
                Trade { id: old(self)@.next_id(), trader, pair, amount, price, timestamp: now, is_buy },
            ),
            old(self)@.chronological() && (old(self)@.records.len() == 0
                || old(self)@.records.last().stamp() <= now) ==> final(self)@.chronological(),
    {
        if !trader_authorized {
            return Err(Error::Unauthorized);
        }
        let draft = Trade { id: 0, trader, pair, amount, price, timestamp: 0, is_buy };
        let res = self.log.append(draft, now);
        if res.is_ok() {
            proof {
                assert(self.log@.records.drop_last() =~= old(self).log@.records);
            }
            self.volume = swell(self.volume, amount);
        }
        res
    }

    /// The counts of the exchange: the number of trades that were ever
    /// executed, the volume they add up to, and the identifier of the last.
    /// An exchange without trades has all three at nothing.
    pub fn get_stats(&self) -> (stats: TradeStats)
        requires
            self.wf(),
        ensures
            stats == Self::stats_of(self@),
    {
        let n = self.log.len() as u64;
        TradeStats { total_trades: n, total_volume: self.volume, last_trade_id: n }
    }

    /// Copies of the trades of `trader`, the most recently executed first, at
    /// most `limit` of them.
    pub fn get_user_trades(&self, trader: &Principal, limit: u32) -> (out: Vec<Trade>)
        ensures
            out@ == newest(self@.records, named_by::<Trade>(trader@), limit as nat),
            out@.len() <= limit,
            self@.valid() && self@.chronological() ==> newest_first(out@),
    {
        self.log.recent(trader, limit)
    }

    /// The exchange that was stored as `stats` and `trades`, if the two make
    /// an exchange that the engine could have handed out: the counts and the
    /// volume agree with the trades, and the k-th trade has the identifier k.
    pub fn restore(stats: Option<TradeStats>, trades: Vec<Trade>) -> (exchange: Option<
        TradingContract,
    >)
        ensures
            exchange is Some <==> {
                &&& LogState { ready: stats is Some, records: trades@ }.valid()
                &&& stats matches Some(s) ==> s == Self::stats_of(
                    LogState { ready: true, records: trades@ },
                )
            },
            exchange matches Some(x) ==> x.wf() && x@ == (LogState {
                ready: stats is Some,
                records: trades@,
            }),
    {
        let mut volume: i128 = 0;
        let mut i: usize = 0;
        while i < trades.len()
            invariant
                i <= trades@.len(),
                volume == volume_of(trades@.take(i as int)),
            decreases trades@.len() - i,
        {
            proof {
                assert(trades@.take(i + 1).drop_last() =~= trades@.take(i as int));
            }
            volume = swell(volume, trades[i].amount);
            i += 1;
        }
        proof {
            assert(trades@.take(trades@.len() as int) =~= trades@);
        }
        let counter = match stats {
            Some(s) => {
                if s.total_volume != volume || s.last_trade_id != s.total_trades
                    || s.total_trades == u64::MAX {
                    return None;
                }
                match Counter::restore(s.total_trades + 1, s.total_trades) {
                    Some(c) => Some(c),
                    None => {
                        return None;
                    },
                }
            },
            None => None,
        };
        match RecordLog::restore(counter, trades) {
            Some(log) => Some(TradingContract { log, volume }),
            None => None,
        }
    }

    /// The number of trades that were executed.
    pub fn len(&self) -> (n: usize)
        ensures
            n == self@.records.len(),
    {
        self.log.len()
    }

    /// The counts and the trades, to be stored.
    pub fn into_parts(self) -> (parts: (Option<TradeStats>, Vec<Trade>))
        requires
            self.wf(),
        ensures
            parts.0 is Some <==> self@.ready,
            parts.0 matches Some(s) ==> s == Self::stats_of(self@),
            parts.1@ == self@.records,
    {
        let volume = self.volume;
        let (counter, trades) = self.log.into_parts();
        let stats = match counter {
            Some(c) => Some(
                TradeStats {
                    total_trades: c.total_count(),
                    total_volume: volume,
                    last_trade_id: c.total_count(),
                },
            ),
            None => None,
        };
        (stats, trades)
    }
}

} // verus!
