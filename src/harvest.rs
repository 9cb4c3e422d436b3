//! The harvest cycle: extracting the items in view, keeping those whose
//! identifier is new, and deciding how far to scroll next or whether to stop.
//! Heights and distances are in thousandths of a CSS pixel.

use vstd::prelude::*;
use crate::extract::{
    created_at_of, describes, extract_airdrop, lemma_first_id_nonempty, resolved_id,
    strategy_order, str_seqs, Airdrop, Fragment,
};
use crate::timestamp::{clock_now, later_of, not_after, Timestamp};

verus! {

/// The tunables of a harvest.
#[derive(Clone, Copy, PartialEq, Eq, Structural, Debug)]
pub struct HarvestConfig {
    /// How many records end the harvest.
    pub item_limit: usize,
    /// How many consecutive cycles without a new record end the harvest.
    pub max_failed_cycles: u32,
    /// The step height before any item height was observed.
    pub initial_step: u32,
    /// Observed heights at or below this are noise and leave the step height as it is.
    pub noise_floor: u32,
    /// The least distance of a recovery scroll.
    pub recovery_floor: u32,
    /// A scroll distance at or below this counts as a failure.
    pub min_scroll: u32,
    /// The distance of the scroll made when the computed one is too small.
    pub last_resort_scroll: u32,
}

impl HarvestConfig {
    /// Whether the configuration can drive a harvest.
    pub open spec fn valid(self) -> bool {
        self.max_failed_cycles > 0
    }

    /// The standard tunables: 50 items, 3 failed cycles, a 250 px first step,
    /// a 10 px noise floor and least scroll, an 800 px recovery floor, and a
    /// 1000 px last-resort scroll.
    pub fn standard() -> (r: HarvestConfig)
        ensures
            r.valid(),
            r.item_limit == 50,
            r.max_failed_cycles == 3,
            r.initial_step == 250_000,
            r.noise_floor == 10_000,
            r.recovery_floor == 800_000,
            r.min_scroll == 10_000,
            r.last_resort_scroll == 1_000_000,
    {
        HarvestConfig {
            item_limit: 50,
            max_failed_cycles: 3,
            initial_step: 250_000,
            noise_floor: 10_000,
            recovery_floor: 800_000,
            min_scroll: 10_000,
            last_resort_scroll: 1_000_000,
        }
    }
}

/// The scroll part of the harvest state.
#[derive(Clone, Copy, PartialEq, Eq, Structural, Debug)]
pub struct ScrollState {
    /// The adaptive step height.
    pub step_height: u32,
    /// How many cycles in a row produced no new record.
    pub failed_cycles: u32,
    /// Whether the first scroll was made.
    pub first_scroll_done: bool,
}

/// Why a harvest stopped.
#[derive(Clone, Copy, PartialEq, Eq, Structural, Debug)]
pub enum StopReason {
    /// The configured number of records was collected.
    LimitReached,
    /// Too many cycles in a row produced no new record.
    Exhausted,
}

/// What the driver does after a cycle.
#[derive(Clone, Copy, PartialEq, Eq, Structural, Debug)]
pub enum HarvestAction {
    /// End the harvest.
    Stop { reason: StopReason },
    /// Scroll down by `distance`, then settle; for longer when `extended_settle`.
    Scroll { distance: u64, extended_settle: bool },
    /// Scroll down by `distance` to recover, settle for longer, and scan again.
    LastResortScroll { distance: u64 },
}

/// The scroll state after a cycle that produced `new_items` new records, the
/// tallest of height `tallest`, with `total` records collected in all, and
/// the action that follows.
pub open spec fn scroll_decision(
    cfg: HarvestConfig,
    st: ScrollState,
    new_items: nat,
    tallest: u32,
    total: nat,
) -> (ScrollState, HarvestAction) {
    if total >= cfg.item_limit {
        (st, HarvestAction::Stop { reason: StopReason::LimitReached })
    } else {
        let step: u32 = if new_items > 0 && tallest > cfg.noise_floor {
            tallest
        } else {
            st.step_height
        };
        let failed: int = if new_items > 0 {
            0
        } else {
            st.failed_cycles + 1
        };
        if failed >= cfg.max_failed_cycles {
            (
                ScrollState {
                    step_height: step,
                    failed_cycles: failed as u32,
                    first_scroll_done: st.first_scroll_done,
                },
                HarvestAction::Stop { reason: StopReason::Exhausted },
            )
        } else {
            let distance: int = if !st.first_scroll_done {
                step * 3 / 2
            } else if new_items > 0 {
                step as int
            } else if step * 5 / 2 >= cfg.recovery_floor {
                step * 5 / 2
            } else {
                cfg.recovery_floor as int
            };
            if distance <= cfg.min_scroll {
                let failed2 = failed + 1;
                let st2 = ScrollState {
                    step_height: step,
                    failed_cycles: failed2 as u32,
                    first_scroll_done: true,
                };
                if failed2 >= cfg.max_failed_cycles {
                    (st2, HarvestAction::Stop { reason: StopReason::Exhausted })
                } else {
                    (
                        st2,
                        HarvestAction::LastResortScroll { distance: cfg.last_resort_scroll as u64 },
                    )
                }
            } else {
                (
                    ScrollState {
                        step_height: step,
                        failed_cycles: failed as u32,
                        first_scroll_done: true,
                    },
                    HarvestAction::Scroll {
                        distance: distance as u64,
                        extended_settle: st.first_scroll_done && new_items == 0,
                    },
                )
            }
        }
    }
}

/// Updates the scroll state after a cycle that produced `new_items` new
/// records, the tallest of height `tallest`, with `total` records collected in
/// all, and says what the driver does next.
pub fn decide_scroll(
    cfg: &HarvestConfig,
    st: &mut ScrollState,
    new_items: usize,
    tallest: u32,
    total: usize,
) -> (a: HarvestAction)
    requires
        old(st).failed_cycles < cfg.max_failed_cycles,
    ensures
        (*final(st), a) == scroll_decision(*cfg, *old(st), new_items as nat, tallest, total as nat),
{
    if total >= cfg.item_limit {
        return HarvestAction::Stop { reason: StopReason::LimitReached };
    }
    if new_items > 0 && tallest > cfg.noise_floor {
        st.step_height = tallest;
    }
    if new_items > 0 {
        st.failed_cycles = 0;
    } else {
        st.failed_cycles = st.failed_cycles + 1;
    }
    if st.failed_cycles >= cfg.max_failed_cycles {
        return HarvestAction::Stop { reason: StopReason::Exhausted };
    }
    let step = st.step_height as u64;
    let distance: u64 = if !st.first_scroll_done {
        step * 3 / 2
    } else if new_items > 0 {
        step
    } else if step * 5 / 2 >= cfg.recovery_floor as u64 {
        step * 5 / 2
    } else {
        cfg.recovery_floor as u64
    };
    let extended_settle = st.first_scroll_done && new_items == 0;
    st.first_scroll_done = true;
    if distance <= cfg.min_scroll as u64 {
        st.failed_cycles = st.failed_cycles + 1;
        if st.failed_cycles >= cfg.max_failed_cycles {
            return HarvestAction::Stop { reason: StopReason::Exhausted };
        }
        return HarvestAction::LastResortScroll { distance: cfg.last_resort_scroll as u64 };
    }
    HarvestAction::Scroll { distance, extended_settle }
}

/// The step height changes only after a cycle that produced a new record and
/// observed a height above the noise floor; it then becomes that height. A
/// cycle without new records leaves it as it was.
pub proof fn lemma_step_height_only_from_new_items(
    cfg: HarvestConfig,
    st: ScrollState,
    new_items: nat,
    tallest: u32,
    total: nat,
)
    ensures
        scroll_decision(cfg, st, new_items, tallest, total).0.step_height == (if total
            < cfg.item_limit && new_items > 0 && tallest > cfg.noise_floor {
            tallest
        } else {
            st.step_height
        }),
        new_items == 0 ==> scroll_decision(cfg, st, new_items, tallest, total).0.step_height
            == st.step_height,
{
}

/// Whether cycles that produce no new record, started from `st` with `total`
/// records collected, end in a stop within `k` cycles.
pub open spec fn idle_cycles_stop_within(
    cfg: HarvestConfig,
    st: ScrollState,
    total: nat,
    k: nat,
) -> bool
    decreases k,
{
    k > 0 && {
        let (next, a) = scroll_decision(cfg, st, 0, 0, total);
        a is Stop || idle_cycles_stop_within(cfg, next, total, (k - 1) as nat)
    }
}

/// When no new item ever appears, the harvest stops within as many cycles as
/// the failures it still allows, whatever the page does.
pub proof fn lemma_idle_harvest_stops(cfg: HarvestConfig, st: ScrollState, total: nat, k: nat)
    requires
        st.failed_cycles < cfg.max_failed_cycles,
        k >= cfg.max_failed_cycles - st.failed_cycles,
    ensures
        idle_cycles_stop_within(cfg, st, total, k),
    decreases k,
{
    let (next, a) = scroll_decision(cfg, st, 0, 0, total);
    if !(a is Stop) {
        assert(next.failed_cycles > st.failed_cycles);
        lemma_idle_harvest_stops(cfg, next, total, (k - 1) as nat);
    }
}

/// One feed item as the driver observed it in a cycle.
pub struct ObservedItem {
    /// The item's fragment; none where the driver could not read it.
    pub fragment: Option<Fragment>,
    /// The item's rendered height; zero where it is unknown.
    pub height: u32,
}

/// The identifier of an observed item, where it has one.
pub open spec fn item_id(it: ObservedItem) -> Option<Seq<char>> {
    match it.fragment {
        Some(f) => resolved_id(f),
        None => None,
    }
}

/// Going through `items` in order with the identifiers `seen` already taken:
/// every identifier taken at the end, and the positions of the items that gave
/// a new record. No item is taken once `limit` identifiers are.
pub open spec fn pick_scan(seen: Seq<Seq<char>>, items: Seq<ObservedItem>, limit: nat) -> (
    Seq<Seq<char>>,
    Seq<int>,
)
    decreases items.len(),
{
    if items.len() == 0 {
        (seen, Seq::empty())
    } else {
        let (ids, picks) = pick_scan(seen, items.drop_last(), limit);
        if ids.len() >= limit {
            (ids, picks)
        } else {
            match item_id(items.last()) {
                Some(id) => if ids.contains(id) {
                    (ids, picks)
                } else {
                    (ids.push(id), picks.push(items.len() - 1))
                },
                None => (ids, picks),
            }
        }
    }
}

/// The greatest height among the items at positions `picks`; zero for none.
pub open spec fn tallest_of(items: Seq<ObservedItem>, picks: Seq<int>) -> u32
    decreases picks.len(),
{
    if picks.len() == 0 {
        0
    } else {
        let t = tallest_of(items, picks.drop_last());
        let h = items[picks.last()].height;
        if h > t {
            h
        } else {
            t
        }
    }
}

/// The identifiers of a sequence of records.
pub open spec fn record_ids(rs: Seq<Airdrop>) -> Seq<Seq<char>> {
    rs.map_values(|r: Airdrop| r.tweet_id@)
}

/// The instant given to the records of a cycle: the clock's reading, or the
/// last instant given where the clock reads earlier.
pub open spec fn saved_stamp(last: Option<Timestamp>, now: Timestamp) -> Timestamp {
    match last {
        Some(l) => if not_after(now, l) {
            l
        } else {
            now
        },
        None => now,
    }
}

/// The mutable state of one harvest.
pub struct HarvestState {
    pub scroll: ScrollState,
    /// The identifiers of `records`, in the same order.
    pub seen_ids: Vec<String>,
    /// The records collected so far, in the order they were found.
    pub records: Vec<Airdrop>,
    /// The instant given to the records of the last cycle.
    pub last_saved: Option<Timestamp>,
}

impl HarvestState {
    /// The records have non-empty, distinct identifiers, which `seen_ids`
    /// lists, and instants that never decrease.
    pub open spec fn consistent(self) -> bool {
        &&& str_seqs(self.seen_ids@) == record_ids(self.records@)
        &&& record_ids(self.records@).no_duplicates()
        &&& forall|i: int|
            0 <= i < self.records@.len() ==> (#[trigger] self.records@[i]).tweet_id@.len() > 0
        &&& forall|i: int, j: int|
            0 <= i <= j < self.records@.len() ==> not_after(
                (#[trigger] self.records@[i]).saved_at,
                (#[trigger] self.records@[j]).saved_at,
            )
        &&& forall|i: int|
            0 <= i < self.records@.len() ==> self.last_saved is Some && not_after(
                (#[trigger] self.records@[i]).saved_at,
                self.last_saved->0,
            )
    }

    /// Whether another cycle may run under `cfg`.
    pub open spec fn ready(self, cfg: HarvestConfig) -> bool {
        self.consistent() && self.scroll.failed_cycles < cfg.max_failed_cycles
    }

    /// The state of a harvest that has not begun.
    pub fn new(cfg: &HarvestConfig) -> (r: HarvestState)
        requires
            cfg.valid(),
        ensures
            r.ready(*cfg),
            r.records@.len() == 0,
            r.last_saved is None,
            r.scroll == (ScrollState {
                step_height: cfg.initial_step,
                failed_cycles: 0,
                first_scroll_done: false,
            }),
    {
        let r = HarvestState {
            scroll: ScrollState {
                step_height: cfg.initial_step,
                failed_cycles: 0,
                first_scroll_done: false,
            },
            seen_ids: Vec::new(),
            records: Vec::new(),
            last_saved: None,
        };
        assert(str_seqs(r.seen_ids@) =~= record_ids(r.records@));
        r
    }
}

/// What a cycle does to the harvest state `old`, giving `new` and the action
/// `a`, when the records it finds are given the instant `stamp`.
pub open spec fn cycle_post(
    old: HarvestState,
    new: HarvestState,
    cfg: HarvestConfig,
    items: Seq<ObservedItem>,
    author: Seq<char>,
    deepness: u32,
    stamp: Timestamp,
    a: HarvestAction,
) -> bool {
    let (ids, picks) = pick_scan(str_seqs(old.seen_ids@), items, cfg.item_limit as nat);
    let n = old.records@.len();
    &&& str_seqs(new.seen_ids@) == ids
    &&& new.records@.len() == n + picks.len()
    &&& new.records@.take(n as int) == old.records@
    &&& forall|j: int|
        0 <= j < picks.len() ==> {
            let f = items[#[trigger] picks[j]].fragment->0;
            &&& items[picks[j]].fragment is Some
            &&& describes(new.records@[n + j], f, ids[n + j], author, deepness, created_at_of(f), stamp)
        }
    &&& new.last_saved == Some(stamp)
    &&& (new.scroll, a) == scroll_decision(
        cfg,
        old.scroll,
        picks.len(),
        tallest_of(items, picks),
        new.records@.len() as nat,
    )
    &&& new.consistent()
    &&& !(a is Stop) ==> new.ready(cfg)
}

impl HarvestState {
    /// Runs one cycle on the items in view: extracts each, keeps the records
    /// whose identifier is new until the limit is reached, gives them the
    /// instant `now` (or the last one given, if later), and decides what the
    /// driver does next.
    pub fn harvest_cycle(
        &mut self,
        cfg: &HarvestConfig,
        items: &Vec<ObservedItem>,
        author_id: &str,
        deepness: u32,
        now: Timestamp,
    ) -> (a: HarvestAction)
        requires
            old(self).ready(*cfg),
        ensures
            cycle_post(
                *old(self),
                *final(self),
                *cfg,
                items@,
                author_id@,
                deepness,
                saved_stamp(old(self).last_saved, now),
                a,
            ),
    {
        let ghost old_state = *self;
        let stamp = match self.last_saved {
            Some(l) => later_of(now, l),
            None => now,
        };
        self.last_saved = Some(stamp);
        let ghost n = old_state.records@.len();
        let ghost seen0 = str_seqs(old_state.seen_ids@);
        let ghost limit = cfg.item_limit as nat;
        let ghost mut picks: Seq<int> = Seq::empty();
        let mut new_items: usize = 0;
        let mut tallest: u32 = 0;
        let mut i: usize = 0;
        assert(items@.take(0) =~= Seq::<ObservedItem>::empty());
        assert(self.records@.take(n as int) =~= old_state.records@);
        while i < items.len()
            invariant
                i <= items.len(),
                self.scroll == old_state.scroll,
                self.last_saved == Some(stamp),
                stamp == saved_stamp(old_state.last_saved, now),
                (str_seqs(self.seen_ids@), picks) == pick_scan(seen0, items@.take(i as int), limit),
                seen0 == str_seqs(old_state.seen_ids@),
                limit == cfg.item_limit as nat,
                n == old_state.records@.len(),
                self.records@.len() == n + picks.len(),
                self.records@.take(n as int) == old_state.records@,
                forall|j: int| 0 <= j < picks.len() ==> 0 <= #[trigger] picks[j] < i,
                forall|j: int|
                    0 <= j < picks.len() ==> {
                        let f = items@[#[trigger] picks[j]].fragment->0;
                        &&& items@[picks[j]].fragment is Some
                        &&& describes(
                            self.records@[n + j],
                            f,
                            str_seqs(self.seen_ids@)[n + j],
                            author_id@,
                            deepness,
                            created_at_of(f),
                            stamp,
                        )
                    },
                new_items == picks.len(),
                tallest == tallest_of(items@, picks),
                self.consistent(),
            decreases items.len() - i,
        {
            assert(items@.take(i + 1).drop_last() =~= items@.take(i as int));
            assert(items@.take(i + 1).last() == items@[i as int]);
            if self.records.len() < cfg.item_limit {
                match &items[i].fragment {
                    Some(f) => {
                        let r = extract_airdrop(f, author_id, deepness, &self.seen_ids, stamp);
                        match r {
                            Some(rec) => {
                                proof {
                                    lemma_first_id_nonempty(strategy_order(), *f);
                                }
                                let ghost prev = *self;
                                let id = rec.tweet_id.clone();
                                self.seen_ids.push(id);
                                self.records.push(rec);
                                proof {
                                    assert(str_seqs(self.seen_ids@) =~= str_seqs(prev.seen_ids@).push(rec.tweet_id@));
                                    assert(record_ids(self.records@) =~= record_ids(prev.records@).push(rec.tweet_id@));
                                    assert(self.records@.take(n as int) =~= prev.records@.take(n as int));
                                    let old_picks = picks;
                                    picks = picks.push(i as int);
                                    assert(picks.drop_last() =~= old_picks);
                                    assert(forall|k: int| 0 <= k < prev.records@.len() ==> self.records@[k] == prev.records@[k]);
                                    assert(forall|k: int| 0 <= k < prev.records@.len() ==> str_seqs(self.seen_ids@)[k] == str_seqs(prev.seen_ids@)[k]);
                                }
                                new_items += 1;
                                if items[i].height > tallest {
                                    tallest = items[i].height;
                                }
                            },
                            None => {},
                        }
                    },
                    None => {},
                }
            }
            i += 1;
        }
        assert(items@.take(items@.len() as int) =~= items@);
        let total = self.records.len();
        decide_scroll(cfg, &mut self.scroll, new_items, tallest, total)
    }

    /// Runs one cycle on the items in view at the current wall-clock time:
    /// as [`HarvestState::harvest_cycle`] does, for some instant given to the
    /// records found, which is never before the last one given.
    pub fn run_cycle(
        &mut self,
        cfg: &HarvestConfig,
        items: &Vec<ObservedItem>,
        author_id: &str,
        deepness: u32,
    ) -> (a: HarvestAction)
        requires
            old(self).ready(*cfg),
        ensures
            exists|stamp: Timestamp|
                cycle_post(*old(self), *final(self), *cfg, items@, author_id@, deepness, stamp, a),
    {
        let ghost old_state = *self;
        let now = clock_now();
        let a = self.harvest_cycle(cfg, items, author_id, deepness, now);
        assert(cycle_post(
            old_state,
            *self,
            *cfg,
            items@,
            author_id@,
            deepness,
            saved_stamp(old_state.last_saved, now),
            a,
        ));
        a
    }
}

/// Every record a harvest holds has a non-empty identifier, and no two hold the same one.
pub proof fn lemma_harvest_ids_unique(st: HarvestState)
    requires
        st.consistent(),
    ensures
        forall|i: int| 0 <= i < st.records@.len() ==> (#[trigger] st.records@[i]).tweet_id@.len() > 0,
        forall|i: int, j: int|
            0 <= i < st.records@.len() && 0 <= j < st.records@.len() && i != j
                ==> (#[trigger] st.records@[i]).tweet_id@ != (#[trigger] st.records@[j]).tweet_id@,
{
    assert forall|i: int, j: int|
        0 <= i < st.records@.len() && 0 <= j < st.records@.len() && i != j implies (
        #[trigger] st.records@[i]).tweet_id@ != (#[trigger] st.records@[j]).tweet_id@ by {
        assert(record_ids(st.records@)[i] == st.records@[i].tweet_id@);
        assert(record_ids(st.records@)[j] == st.records@[j].tweet_id@);
    }
}

/// A cycle whose items carry no identifier outside `seen` takes no item and
/// adds no identifier; its scroll decision is then that of an idle cycle.
pub proof fn lemma_no_new_identifiers_take_nothing(
    seen: Seq<Seq<char>>,
    items: Seq<ObservedItem>,
    limit: nat,
)
    requires
        forall|i: int|
            0 <= i < items.len() ==> match item_id(#[trigger] items[i]) {
                Some(id) => seen.contains(id),
                None => true,
            },
    ensures
        pick_scan(seen, items, limit) == (seen, Seq::<int>::empty()),
    decreases items.len(),
{
    if items.len() > 0 {
        let rest = items.drop_last();
        assert forall|i: int| 0 <= i < rest.len() implies match item_id(#[trigger] rest[i]) {
            Some(id) => seen.contains(id),
            None => true,
        } by {
            assert(rest[i] == items[i]);
        }
        lemma_no_new_identifiers_take_nothing(seen, rest, limit);
        let _ = item_id(items[items.len() - 1]);
    }
}

} // verus!
