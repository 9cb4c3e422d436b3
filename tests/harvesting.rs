use feed_harvest::extract::{Element, Fragment};
use feed_harvest::harvest::{
    decide_scroll, HarvestAction, HarvestConfig, HarvestState, ObservedItem, ScrollState,
    StopReason,
};
use feed_harvest::timestamp::Timestamp;

fn item(id: Option<&str>, height: u32) -> ObservedItem {
    let anchors = match id {
        Some(i) => vec![Element {
            tag: "a".to_string(),
            attributes: vec![("href".to_string(), format!("/feed/status/{}", i))],
        }],
        None => Vec::new(),
    };
    ObservedItem {
        fragment: Some(Fragment {
            time_element: None,
            time_parent: None,
            anchors,
            text_container: Some("post".to_string()),
            full_text: "post".to_string(),
        }),
        height,
    }
}

fn at(secs: i64) -> Timestamp {
    Timestamp { secs, nanos: 0 }
}

fn fresh(cfg: &HarvestConfig) -> ScrollState {
    ScrollState { step_height: cfg.initial_step, failed_cycles: 0, first_scroll_done: false }
}

#[test]
fn standard_config_values() {
    let c = HarvestConfig::standard();
    assert_eq!(c.item_limit, 50);
    assert_eq!(c.max_failed_cycles, 3);
    assert_eq!(c.initial_step, 250_000);
    assert_eq!(c.noise_floor, 10_000);
    assert_eq!(c.recovery_floor, 800_000);
    assert_eq!(c.min_scroll, 10_000);
    assert_eq!(c.last_resort_scroll, 1_000_000);
}

#[test]
fn first_scroll_is_one_and_a_half_steps() {
    let cfg = HarvestConfig::standard();
    let mut st = fresh(&cfg);
    let a = decide_scroll(&cfg, &mut st, 2, 300_000, 2);
    assert_eq!(a, HarvestAction::Scroll { distance: 450_000, extended_settle: false });
    assert_eq!(st, ScrollState { step_height: 300_000, failed_cycles: 0, first_scroll_done: true });
}

#[test]
fn productive_cycle_scrolls_one_step() {
    let cfg = HarvestConfig::standard();
    let mut st = ScrollState { step_height: 250_000, failed_cycles: 2, first_scroll_done: true };
    let a = decide_scroll(&cfg, &mut st, 1, 400_000, 10);
    assert_eq!(a, HarvestAction::Scroll { distance: 400_000, extended_settle: false });
    assert_eq!(st.failed_cycles, 0);
    assert_eq!(st.step_height, 400_000);
}

#[test]
fn height_at_noise_floor_keeps_step() {
    let cfg = HarvestConfig::standard();
    let mut st = ScrollState { step_height: 250_000, failed_cycles: 0, first_scroll_done: true };
    let a = decide_scroll(&cfg, &mut st, 3, 10_000, 10);
    assert_eq!(st.step_height, 250_000);
    assert_eq!(a, HarvestAction::Scroll { distance: 250_000, extended_settle: false });
}

#[test]
fn idle_cycle_keeps_step_and_scrolls_to_recover() {
    let cfg = HarvestConfig::standard();
    let mut st = ScrollState { step_height: 250_000, failed_cycles: 0, first_scroll_done: true };
    let a = decide_scroll(&cfg, &mut st, 0, 900_000, 10);
    assert_eq!(st.step_height, 250_000);
    assert_eq!(st.failed_cycles, 1);
    assert_eq!(a, HarvestAction::Scroll { distance: 800_000, extended_settle: true });
    let mut tall = ScrollState { step_height: 400_000, failed_cycles: 0, first_scroll_done: true };
    let b = decide_scroll(&cfg, &mut tall, 0, 0, 10);
    assert_eq!(b, HarvestAction::Scroll { distance: 1_000_000, extended_settle: true });
}

#[test]
fn idle_cycles_exhaust_after_three() {
    let cfg = HarvestConfig::standard();
    let mut st = fresh(&cfg);
    let mut actions = Vec::new();
    loop {
        let a = decide_scroll(&cfg, &mut st, 0, 0, 0);
        actions.push(a);
        if let HarvestAction::Stop { .. } = a {
            break;
        }
        assert!(actions.len() < 10);
    }
    assert_eq!(actions.len(), 3);
    assert_eq!(actions[2], HarvestAction::Stop { reason: StopReason::Exhausted });
    assert_eq!(st.step_height, 250_000);
}

#[test]
fn limit_reached_stops() {
    let cfg = HarvestConfig::standard();
    let mut st = fresh(&cfg);
    let a = decide_scroll(&cfg, &mut st, 5, 0, 50);
    assert_eq!(a, HarvestAction::Stop { reason: StopReason::LimitReached });
}

#[test]
fn small_scroll_counts_as_failure_then_last_resort() {
    let cfg = HarvestConfig {
        item_limit: 50,
        max_failed_cycles: 5,
        initial_step: 4_000,
        noise_floor: 1_000,
        recovery_floor: 5_000,
        min_scroll: 10_000,
        last_resort_scroll: 1_000_000,
    };
    let mut st = ScrollState { step_height: 4_000, failed_cycles: 0, first_scroll_done: true };
    let a = decide_scroll(&cfg, &mut st, 1, 0, 1);
    assert_eq!(a, HarvestAction::LastResortScroll { distance: 1_000_000 });
    assert_eq!(st.failed_cycles, 1);
    let mut last = ScrollState { step_height: 4_000, failed_cycles: 3, first_scroll_done: true };
    let b = decide_scroll(&cfg, &mut last, 0, 0, 1);
    assert_eq!(b, HarvestAction::Stop { reason: StopReason::Exhausted });
    assert_eq!(last.failed_cycles, 5);
}

#[test]
fn cycle_keeps_new_identifiers_once() {
    let cfg = HarvestConfig::standard();
    let mut st = HarvestState::new(&cfg);
    let items = vec![item(Some("1"), 300_000), item(Some("2"), 500_000), item(Some("1"), 900_000), item(None, 700_000)];
    let a = st.harvest_cycle(&cfg, &items, "me", 2, at(10));
    assert_eq!(a, HarvestAction::Scroll { distance: 750_000, extended_settle: false });
    assert_eq!(st.records.len(), 2);
    assert_eq!(st.records[0].tweet_id, "1");
    assert_eq!(st.records[1].tweet_id, "2");
    assert_eq!(st.seen_ids, vec!["1".to_string(), "2".to_string()]);
    assert_eq!(st.scroll.step_height, 500_000);

    let again = vec![item(Some("2"), 100_000), item(Some("3"), 200_000)];
    let b = st.harvest_cycle(&cfg, &again, "me", 2, at(20));
    assert_eq!(b, HarvestAction::Scroll { distance: 200_000, extended_settle: false });
    assert_eq!(st.records.len(), 3);
    assert_eq!(st.records[2].tweet_id, "3");
    let ids: Vec<&String> = st.records.iter().map(|r| &r.tweet_id).collect();
    for (i, x) in ids.iter().enumerate() {
        assert!(!x.is_empty());
        for y in ids.iter().skip(i + 1) {
            assert_ne!(x, y);
        }
    }
}

#[test]
fn cycle_instants_never_decrease() {
    let cfg = HarvestConfig::standard();
    let mut st = HarvestState::new(&cfg);
    st.harvest_cycle(&cfg, &vec![item(Some("1"), 0)], "me", 2, at(50));
    st.harvest_cycle(&cfg, &vec![item(Some("2"), 0)], "me", 2, at(40));
    assert_eq!(st.records[0].saved_at, at(50));
    assert_eq!(st.records[1].saved_at, at(50));
    assert_eq!(st.last_saved, Some(at(50)));
}

#[test]
fn cycle_stops_at_limit() {
    let mut cfg = HarvestConfig::standard();
    cfg.item_limit = 2;
    let mut st = HarvestState::new(&cfg);
    let items = vec![item(Some("1"), 0), item(Some("2"), 0), item(Some("3"), 0)];
    let a = st.harvest_cycle(&cfg, &items, "me", 2, at(1));
    assert_eq!(a, HarvestAction::Stop { reason: StopReason::LimitReached });
    assert_eq!(st.records.len(), 2);
}

#[test]
fn empty_views_exhaust_the_harvest() {
    let cfg = HarvestConfig::standard();
    let mut st = HarvestState::new(&cfg);
    let mut cycles = 0;
    loop {
        cycles += 1;
        let a = st.run_cycle(&cfg, &Vec::new(), "me", 2);
        if a == (HarvestAction::Stop { reason: StopReason::Exhausted }) {
            break;
        }
        assert!(cycles < 10);
    }
    assert_eq!(cycles, 3);
    assert!(st.records.is_empty());
}

#[test]
fn run_cycle_stamps_with_the_clock() {
    let cfg = HarvestConfig::standard();
    let mut st = HarvestState::new(&cfg);
    st.run_cycle(&cfg, &vec![item(Some("8"), 0)], "me", 2);
    assert!(st.records[0].saved_at.secs > 1_600_000_000);
}
