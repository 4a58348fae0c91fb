use record_engine::error::Error;
use record_engine::principal::Principal;
use record_engine::trading::{swell, Trade, TradeStats, TradingContract};

fn trading_actor(name: &str) -> Principal {
    Principal::new(name.to_string())
}

fn trade(contract: &mut TradingContract, trader: &str, amount: i128, at: u64) -> u64 {
    contract
        .execute_trade(true, trading_actor(trader), "USDT".to_string(), amount, 100, true, at)
        .unwrap()
}

#[test]
fn test_trading_contract_init() {
    let mut contract = TradingContract::new();

    let result = contract.init();
    assert!(result.is_ok());

    let stats = contract.get_stats();
    assert_eq!(stats.total_trades, 0);
    assert_eq!(stats.total_volume, 0);
    assert_eq!(stats.last_trade_id, 0);
}

#[test]
fn test_execute_trade() {
    let mut contract = TradingContract::new();

    contract.init().unwrap();

    let trader = trading_actor("trader");
    let pair = "USDT".to_string();
    let amount = 1000i128;
    let price = 100i128;

    let trade_id = contract
        .execute_trade(true, trader.clone(), pair, amount, price, true, 0)
        .unwrap();

    assert_eq!(trade_id, 1);

    let stats = contract.get_stats();
    assert_eq!(stats.total_trades, 1);
    assert_eq!(stats.total_volume, 1000);
}

#[test]
fn test_get_user_trades() {
    let mut contract = TradingContract::new();

    contract.init().unwrap();

    let trader = trading_actor("trader");
    let pair = "USDT".to_string();

    // Execute multiple trades
    for i in 0..3 {
        contract
            .execute_trade(true, trader.clone(), pair.clone(), (i + 1) as i128 * 100, 100, true, 0)
            .unwrap();
    }

    let trades = contract.get_user_trades(&trader, 10);
    assert_eq!(trades.len(), 3);
}

#[test]
fn trading_refuses_before_it_is_set_up() {
    let mut contract = TradingContract::new();
    assert_eq!(
        contract.execute_trade(true, trading_actor("ann"), "USDT".to_string(), 5, 1, true, 0),
        Err(Error::NotInitialized)
    );
    assert_eq!(
        contract.get_stats(),
        TradeStats { total_trades: 0, total_volume: 0, last_trade_id: 0 }
    );
    assert!(contract.get_user_trades(&trading_actor("ann"), 10).is_empty());
}

#[test]
fn trading_refuses_an_unproved_trader() {
    let mut contract = TradingContract::new();
    contract.init().unwrap();
    assert_eq!(
        contract.execute_trade(false, trading_actor("ann"), "USDT".to_string(), 5, 1, true, 0),
        Err(Error::Unauthorized)
    );
    assert_eq!(
        contract.get_stats(),
        TradeStats { total_trades: 0, total_volume: 0, last_trade_id: 0 }
    );
    assert_eq!(contract.len(), 0);
}

#[test]
fn trading_identifiers_count_up_and_the_volume_adds_up() {
    let mut contract = TradingContract::new();
    contract.init().unwrap();
    let mut volume = 0i128;
    for k in 1..=15u64 {
        let amount = k as i128 * 100 - 450;
        volume += amount;
        assert_eq!(trade(&mut contract, "ann", amount, k), k);
        assert_eq!(
            contract.get_stats(),
            TradeStats { total_trades: k, total_volume: volume, last_trade_id: k }
        );
    }
    assert_eq!(volume, 5_250);
}

#[test]
fn trading_stores_the_trade_as_given() {
    let mut contract = TradingContract::new();
    contract.init().unwrap();
    let id = contract
        .execute_trade(true, trading_actor("ann"), "USDT".to_string(), -7, 99, false, 1234)
        .unwrap();
    assert_eq!(
        contract.get_user_trades(&trading_actor("ann"), 10),
        vec![Trade {
            id,
            trader: trading_actor("ann"),
            pair: "USDT".to_string(),
            amount: -7,
            price: 99,
            timestamp: 1234,
            is_buy: false,
        }]
    );
}

#[test]
fn trading_volume_is_held_at_the_greatest_and_at_the_least() {
    assert_eq!(swell(1, 2), 3);
    assert_eq!(swell(-1, -2), -3);
    assert_eq!(swell(i128::MAX, 1), i128::MAX);
    assert_eq!(swell(i128::MAX - 1, 1), i128::MAX);
    assert_eq!(swell(i128::MAX, -1), i128::MAX - 1);
    assert_eq!(swell(i128::MIN, -1), i128::MIN);
    assert_eq!(swell(i128::MIN, 1), i128::MIN + 1);
    assert_eq!(swell(i128::MIN, i128::MIN), i128::MIN);
    assert_eq!(swell(i128::MAX, i128::MAX), i128::MAX);
    assert_eq!(swell(i128::MAX, i128::MIN), -1);

    let mut contract = TradingContract::new();
    contract.init().unwrap();
    trade(&mut contract, "ann", i128::MAX, 0);
    trade(&mut contract, "ann", 10, 0);
    assert_eq!(contract.get_stats().total_volume, i128::MAX);
    trade(&mut contract, "ann", -10, 0);
    assert_eq!(contract.get_stats().total_volume, i128::MAX - 10);
    assert_eq!(contract.get_stats().total_trades, 3);
}

#[test]
fn trading_query_takes_the_most_recent_of_a_trader() {
    let mut contract = TradingContract::new();
    contract.init().unwrap();
    for k in 0..5u64 {
        trade(&mut contract, "ann", 1, k);
    }
    for k in 0..3u64 {
        trade(&mut contract, "bob", 1, 10 + k);
    }
    trade(&mut contract, "ann", 1, 20);
    let ids = |found: Vec<Trade>| found.iter().map(|t| t.id).collect::<Vec<u64>>();
    assert_eq!(ids(contract.get_user_trades(&trading_actor("ann"), 10)), vec![9, 5, 4, 3, 2, 1]);
    assert_eq!(ids(contract.get_user_trades(&trading_actor("ann"), 2)), vec![9, 5]);
    assert_eq!(ids(contract.get_user_trades(&trading_actor("bob"), 2)), vec![8, 7]);
    assert_eq!(ids(contract.get_user_trades(&trading_actor("bob"), 3)), vec![8, 7, 6]);
    assert!(contract.get_user_trades(&trading_actor("bob"), 0).is_empty());
    assert!(contract.get_user_trades(&trading_actor("eve"), 5).is_empty());
}

#[test]
fn trading_set_up_twice_keeps_what_it_holds() {
    let mut contract = TradingContract::new();
    contract.init().unwrap();
    trade(&mut contract, "ann", 700, 0);
    assert!(contract.init().is_ok());
    assert_eq!(
        contract.get_stats(),
        TradeStats { total_trades: 1, total_volume: 700, last_trade_id: 1 }
    );
    assert_eq!(trade(&mut contract, "ann", 1, 0), 2);
}

#[test]
fn trading_comes_back_from_its_parts() {
    let mut contract = TradingContract::new();
    contract.init().unwrap();
    trade(&mut contract, "ann", 700, 1);
    trade(&mut contract, "bob", -200, 2);
    let (stats, trades) = contract.into_parts();
    assert_eq!(
        stats,
        Some(TradeStats { total_trades: 2, total_volume: 500, last_trade_id: 2 })
    );
    let mut again = TradingContract::restore(stats, trades).unwrap();
    assert_eq!(trade(&mut again, "ann", 1, 3), 3);
    assert_eq!(again.get_stats().total_volume, 501);

    let (stats, trades) = TradingContract::new().into_parts();
    assert_eq!(stats, None);
    assert!(trades.is_empty());
}

#[test]
fn trading_rejects_parts_that_disagree() {
    let made = |id: u64, amount: i128| Trade {
        id,
        trader: trading_actor("ann"),
        pair: "USDT".to_string(),
        amount,
        price: 1,
        timestamp: 0,
        is_buy: true,
    };
    let stats = |total_trades: u64, total_volume: i128, last_trade_id: u64| {
        Some(TradeStats { total_trades, total_volume, last_trade_id })
    };
    assert!(TradingContract::restore(stats(2, 30, 2), vec![made(1, 10), made(2, 20)]).is_some());
    // a volume that the trades do not add up to
    assert!(TradingContract::restore(stats(2, 31, 2), vec![made(1, 10), made(2, 20)]).is_none());
    // counts that do not match the trades
    assert!(TradingContract::restore(stats(3, 30, 3), vec![made(1, 10), made(2, 20)]).is_none());
    assert!(TradingContract::restore(stats(2, 30, 1), vec![made(1, 10), made(2, 20)]).is_none());
    assert!(TradingContract::restore(stats(u64::MAX, 0, u64::MAX), Vec::new()).is_none());
    // identifiers that do not count up from one
    assert!(TradingContract::restore(stats(2, 30, 2), vec![made(2, 10), made(3, 20)]).is_none());
    // trades without counts
    assert!(TradingContract::restore(None, vec![made(1, 10)]).is_none());
    assert!(TradingContract::restore(None, Vec::new()).is_some());
    assert!(TradingContract::restore(stats(0, 0, 0), Vec::new()).is_some());
}

#[test]
fn trading_five_trades_of_one_trader_and_three_of_another() {
    let mut contract = TradingContract::new();
    contract.init().unwrap();
    for k in 0..5u64 {
        trade(&mut contract, "ann", 10 + k as i128, k);
    }
    for k in 0..3u64 {
        trade(&mut contract, "bob", 20 + k as i128, 5 + k);
    }
    let of_ann = contract.get_user_trades(&trading_actor("ann"), 10);
    assert_eq!(of_ann.len(), 5);
    let ids: Vec<u64> = of_ann.iter().map(|t| t.id).collect();
    assert_eq!(ids, vec![5, 4, 3, 2, 1]);
    let amounts: Vec<i128> = of_ann.iter().map(|t| t.amount).collect();
    assert_eq!(amounts, vec![14, 13, 12, 11, 10]);
    let two = contract.get_user_trades(&trading_actor("ann"), 2);
    assert_eq!(two.len(), 2);
    assert_eq!(two[0].id, 5);
    assert_eq!(two[1].id, 4);
    assert_eq!(contract.get_stats().total_trades, 8);
}
