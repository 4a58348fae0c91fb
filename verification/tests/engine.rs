use record_engine::counter::Counter;
use record_engine::error::Error;
use record_engine::ledger::{tier, Ledger, UserRewards};
use record_engine::log::{RecordLog, MAX_RECORDS};
use record_engine::messaging::Message;
use record_engine::principal::Principal;
use record_engine::messaging::UnreadBy;
use record_engine::scan::{count, every, recent, scan, select, Filter, NamedBy};
use record_engine::social_rewards::Engagement;

fn engine_actor(name: &str) -> Principal {
    Principal::new(name.to_string())
}

fn draft(from: &str, to: &str) -> Message {
    Message {
        id: 0,
        sender: engine_actor(from),
        recipient: engine_actor(to),
        content_hash: "hash".to_string(),
        timestamp: 0,
        is_read: false,
    }
}

fn engagement(user: &str, points: u32, timestamp: u64) -> Engagement {
    Engagement {
        user: engine_actor(user),
        engagement_type: "like".to_string(),
        points,
        timestamp,
    }
}

#[test]
fn principal_is_its_key() {
    let ann = engine_actor("ann");
    assert_eq!(ann.key(), "ann");
    assert!(ann.same_as(&engine_actor("ann")));
    assert!(!ann.same_as(&engine_actor("anne")));
    assert!(!ann.same_as(&engine_actor("")));
    assert!(engine_actor("").same_as(&engine_actor("")));
    assert_eq!(ann.clone(), ann);
}

#[test]
fn counter_hands_out_one_two_three() {
    let mut counter = Counter::new();
    assert_eq!(counter.next_id(), 1);
    assert_eq!(counter.total_count(), 0);
    for k in 1..=50u64 {
        assert_eq!(counter.allocate(), k);
        assert_eq!(counter.next_id(), k + 1);
        assert_eq!(counter.total_count(), k);
    }
}

#[test]
fn counter_comes_back_only_when_its_parts_agree() {
    let counter = Counter::restore(8, 7).unwrap();
    assert_eq!(counter.next_id(), 8);
    assert_eq!(counter.total_count(), 7);
    assert!(Counter::restore(1, 0).is_some());
    assert!(Counter::restore(0, 0).is_none());
    assert!(Counter::restore(7, 7).is_none());
    assert!(Counter::restore(9, 7).is_none());
    assert!(Counter::restore(0, u64::MAX).is_none());
    assert!(Counter::restore(u64::MAX, u64::MAX - 1).is_some());
}

#[test]
fn log_attaches_identifier_and_instant() {
    let mut log: RecordLog<Message> = RecordLog::new();
    assert!(!log.is_ready());
    assert_eq!(log.append(draft("ann", "bob"), 5), Err(Error::NotInitialized));
    assert_eq!(log.len(), 0);
    log.init();
    assert!(log.is_ready());
    let mut sent = draft("ann", "bob");
    sent.id = 999;
    sent.timestamp = 999;
    assert_eq!(log.append(sent, 5), Ok(1));
    assert_eq!(log.append(draft("bob", "ann"), 6), Ok(2));
    assert_eq!(log.len(), 2);
    assert_eq!(log.records()[0].id, 1);
    assert_eq!(log.records()[0].timestamp, 5);
    assert_eq!(log.records()[0].sender, engine_actor("ann"));
    assert_eq!(log.records()[1].id, 2);
    assert_eq!(log.records()[1].timestamp, 6);
    let counter = log.counter().unwrap();
    assert_eq!(counter.total_count(), 2);
    assert_eq!(counter.next_id(), 3);
    assert!(MAX_RECORDS as u64 == u32::MAX as u64);
}

#[test]
fn log_finds_a_record_by_its_identifier() {
    let mut log: RecordLog<Message> = RecordLog::new();
    assert_eq!(log.find(1), None);
    log.init();
    for k in 0..4 {
        log.append(draft("ann", "bob"), k).unwrap();
    }
    assert_eq!(log.find(0), None);
    assert_eq!(log.find(1), Some(0));
    assert_eq!(log.find(4), Some(3));
    assert_eq!(log.find(5), None);
    assert!(log.contains(3));
    assert!(!log.contains(5));
    assert!(!log.contains(0));
}

#[test]
fn log_amends_only_for_the_entitled_actor() {
    let mut log: RecordLog<Message> = RecordLog::new();
    log.init();
    log.append(draft("ann", "bob"), 1).unwrap();
    log.append(draft("ann", "cat"), 2).unwrap();
    assert_eq!(log.amend(false, 1, &engine_actor("bob")), Err(Error::Unauthorized));
    assert_eq!(log.amend(true, 3, &engine_actor("bob")), Err(Error::NotFound));
    assert_eq!(log.amend(true, 2, &engine_actor("bob")), Err(Error::Forbidden));
    assert!(!log.records()[0].is_read);
    assert!(!log.records()[1].is_read);
    assert_eq!(log.amend(true, 1, &engine_actor("bob")), Ok(()));
    assert!(log.records()[0].is_read);
    assert!(!log.records()[1].is_read);
    assert_eq!(log.records()[0].id, 1);
    assert_eq!(log.records()[0].timestamp, 1);
    assert_eq!(log.len(), 2);
}

#[test]
fn log_comes_back_only_when_its_parts_agree() {
    let numbered = |id: u64| {
        let mut m = draft("ann", "bob");
        m.id = id;
        m
    };
    let counter = |n: u64| Counter::restore(n + 1, n);
    assert!(RecordLog::restore(counter(2), vec![numbered(1), numbered(2)]).is_some());
    assert!(RecordLog::restore(counter(1), vec![numbered(1), numbered(2)]).is_none());
    assert!(RecordLog::restore(counter(2), vec![numbered(1), numbered(1)]).is_none());
    assert!(RecordLog::restore(counter(2), vec![numbered(0), numbered(1)]).is_none());
    assert!(RecordLog::<Message>::restore(None, vec![numbered(1)]).is_none());
    assert!(RecordLog::<Message>::restore(None, Vec::new()).is_some());
    let log = RecordLog::restore(counter(2), vec![numbered(1), numbered(2)]).unwrap();
    let (c, records) = log.into_parts();
    assert_eq!(c, counter(2));
    assert_eq!(records, vec![numbered(1), numbered(2)]);
}

#[test]
fn scan_five_for_one_actor_and_three_for_another() {
    let mut stream = Vec::new();
    for k in 0..5u32 {
        stream.push(engagement("ann", k, k as u64));
    }
    for k in 0..3u32 {
        stream.push(engagement("bob", 100 + k, 5 + k as u64));
    }
    let points = |found: Vec<Engagement>| found.iter().map(|e| e.points).collect::<Vec<u32>>();
    assert_eq!(points(recent(&stream, &engine_actor("ann"), 10)), vec![4, 3, 2, 1, 0]);
    assert_eq!(points(recent(&stream, &engine_actor("ann"), 2)), vec![4, 3]);
    assert_eq!(points(recent(&stream, &engine_actor("bob"), 10)), vec![102, 101, 100]);
    assert_eq!(points(every(&stream, &engine_actor("ann"))), vec![0, 1, 2, 3, 4]);
    assert_eq!(points(every(&stream, &engine_actor("bob"))), vec![100, 101, 102]);
}

#[test]
fn scan_of_nothing_and_scan_for_nothing() {
    let empty: Vec<Engagement> = Vec::new();
    assert!(recent(&empty, &engine_actor("ann"), 10).is_empty());
    assert!(every(&empty, &engine_actor("ann")).is_empty());
    let stream = vec![engagement("ann", 1, 0), engagement("ann", 2, 0)];
    assert!(recent(&stream, &engine_actor("ann"), 0).is_empty());
    assert!(recent(&stream, &engine_actor("bob"), 10).is_empty());
    assert_eq!(recent(&stream, &engine_actor("ann"), 1), vec![engagement("ann", 2, 0)]);
    assert_eq!(recent(&stream, &engine_actor("ann"), u32::MAX).len(), 2);
}

#[test]
fn scan_never_hands_out_more_than_the_limit() {
    let mut stream = Vec::new();
    for k in 0..30u32 {
        let who = if k % 3 == 0 { "ann" } else { "bob" };
        stream.push(engagement(who, k, (k / 4) as u64));
    }
    for limit in 0..35u32 {
        for who in ["ann", "bob", "eve"] {
            let found = recent(&stream, &engine_actor(who), limit);
            let all = every(&stream, &engine_actor(who));
            assert_eq!(found.len(), (limit as usize).min(all.len()));
            let newest: Vec<Engagement> = all.iter().rev().take(limit as usize).cloned().collect();
            assert_eq!(found, newest);
            for pair in found.windows(2) {
                assert!(pair[0].timestamp >= pair[1].timestamp);
            }
        }
    }
}

#[test]
fn ledger_adds_and_spends() {
    let mut ledger = Ledger::new();
    let ann = engine_actor("ann");
    assert_eq!(
        ledger.get(&ann),
        UserRewards { user: engine_actor("ann"), total_points: 0, tier: 1 }
    );
    assert_eq!(ledger.spend(&ann, 5), Err(Error::NotFound));
    assert_eq!(ledger.claim(&ann), Err(Error::NotFound));
    let now = ledger.contribute(&ann, 50);
    assert_eq!((now.total_points, now.tier), (50, 1));
    let now = ledger.contribute(&ann, 60);
    assert_eq!((now.total_points, now.tier), (110, 2));
    assert_eq!(now.user, ann);
    let now = ledger.spend(&ann, 15).unwrap();
    assert_eq!((now.total_points, now.tier), (95, 1));
    let now = ledger.spend(&ann, 1_000).unwrap();
    assert_eq!((now.total_points, now.tier), (0, 1));
    let now = ledger.contribute(&ann, 0);
    assert_eq!((now.total_points, now.tier), (0, 1));
    let now = ledger.contribute(&ann, 345);
    assert_eq!((now.total_points, now.tier), (345, 4));
    assert_eq!(ledger.claim(&ann), Ok(40));
    assert_eq!(ledger.get(&ann).total_points, 305);
    assert_eq!(ledger.get(&ann).tier, 4);
    assert_eq!(ledger.claim(&ann), Ok(40));
    assert_eq!(ledger.get(&ann).total_points, 265);
    assert_eq!(ledger.get(&ann).tier, 3);
    assert_eq!(tier(265), 3);
}

#[test]
fn ledger_contribution_of_nothing_makes_the_actor_known() {
    let mut ledger = Ledger::new();
    let ann = engine_actor("ann");
    assert_eq!(ledger.claim(&ann), Err(Error::NotFound));
    ledger.contribute(&ann, 0);
    assert_eq!(ledger.claim(&ann), Ok(10));
    assert_eq!(ledger.get(&ann).total_points, 0);
    assert_eq!(ledger.into_entries().len(), 1);
}

#[test]
fn ledger_comes_back_only_when_its_entries_agree() {
    let entry = |user: &str, total_points: u32| UserRewards {
        user: engine_actor(user),
        total_points,
        tier: tier(total_points),
    };
    let mut ledger = Ledger::restore(vec![entry("ann", 250), entry("bob", 3)]).unwrap();
    assert_eq!(ledger.get(&engine_actor("ann")).tier, 3);
    assert_eq!(ledger.contribute(&engine_actor("bob"), 100).total_points, 103);
    assert_eq!(
        ledger.into_entries(),
        vec![entry("ann", 250), entry("bob", 103)]
    );
    assert!(Ledger::restore(vec![entry("ann", 250), entry("ann", 3)]).is_none());
    let mut wrong = entry("ann", 250);
    wrong.tier = 2;
    assert!(Ledger::restore(vec![wrong]).is_none());
    assert!(Ledger::restore(Vec::new()).is_some());
}

struct WorthAtLeast(u32);

impl Filter<Engagement> for WorthAtLeast {
    fn keeps(&self, record: Engagement) -> bool {
        record.points >= self.0
    }

    fn admits(&self, record: &Engagement) -> bool {
        record.points >= self.0
    }
}

#[test]
fn scan_with_a_filter_of_its_caller() {
    let mut stream = Vec::new();
    for k in 0..10u32 {
        stream.push(engagement(if k % 2 == 0 { "ann" } else { "bob" }, k, k as u64));
    }
    let points = |found: Vec<Engagement>| found.iter().map(|e| e.points).collect::<Vec<u32>>();
    assert_eq!(points(scan(&stream, &WorthAtLeast(6), 10)), vec![9, 8, 7, 6]);
    assert_eq!(points(scan(&stream, &WorthAtLeast(6), 3)), vec![9, 8, 7]);
    assert_eq!(points(scan(&stream, &WorthAtLeast(0), 2)), vec![9, 8]);
    assert!(scan(&stream, &WorthAtLeast(10), 5).is_empty());
    assert!(scan(&stream, &WorthAtLeast(0), 0).is_empty());
    assert_eq!(points(select(&stream, &WorthAtLeast(7))), vec![7, 8, 9]);
    assert_eq!(count(&stream, &WorthAtLeast(7)), 3);
    assert_eq!(count(&stream, &WorthAtLeast(0)), 10);
    assert_eq!(count(&stream, &WorthAtLeast(11)), 0);
    let ann = engine_actor("ann");
    assert_eq!(points(scan(&stream, &NamedBy { actor: &ann }, 2)), vec![8, 6]);
    assert_eq!(points(select(&stream, &NamedBy { actor: &ann })), vec![0, 2, 4, 6, 8]);
    assert_eq!(count(&stream, &NamedBy { actor: &ann }), 5);
    assert_eq!(
        scan(&stream, &NamedBy { actor: &ann }, 4),
        recent(&stream, &ann, 4)
    );
}

#[test]
fn count_of_what_an_actor_has_not_read() {
    let mut read = draft("ann", "bob");
    read.is_read = true;
    let stream = vec![draft("ann", "bob"), read, draft("bob", "ann"), draft("cat", "bob")];
    let bob = engine_actor("bob");
    let ann = engine_actor("ann");
    assert_eq!(count(&stream, &UnreadBy { actor: &bob }), 2);
    assert_eq!(count(&stream, &UnreadBy { actor: &ann }), 1);
    assert_eq!(count(&stream, &NamedBy { actor: &bob }), 4);
    assert_eq!(select(&stream, &UnreadBy { actor: &bob }).len(), 2);
}
