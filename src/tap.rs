//! Multi-tap counting: each pointer Down is matched against recent taps
//! nearby, and Down, Up and Move events are stamped with the running count
//! (1 for a single tap, 2 for a double tap, ...).
//!
//! Positions are integers in a unit that the caller chooses; the slop
//! distance is in the same unit. Times are nanoseconds.
use vstd::prelude::*;

verus! {

/// The platform settings that tap counting reads.
#[derive(Clone, Copy, Debug)]
pub struct TapConfig {
    /// Two taps closer than this (Euclidean distance) may form a multi-tap.
    pub scaled_double_tap_slop: i32,
    /// Milliseconds after an Up within which the next Down continues the
    /// multi-tap; values under 400 count as 400.
    pub multi_press_timeout: i32,
}

/// One pointer sample.
#[derive(Clone, Copy, Debug)]
pub struct PointerState {
    pub time: u64,
    pub x: i32,
    pub y: i32,
    /// The tap count; 0 until a counter stamps it.
    pub count: u8,
}

/// A pointer event, reduced to what tap counting reads and writes.
#[derive(Debug)]
pub enum PointerEvent {
    Down { pointer_id: Option<u64>, state: PointerState },
    Up { pointer_id: Option<u64>, state: PointerState },
    Move {
        pointer_id: Option<u64>,
        current: PointerState,
        coalesced: Vec<PointerState>,
        predicted: Vec<PointerState>,
    },
    Cancel { pointer_id: Option<u64> },
    Enter { pointer_id: Option<u64> },
    Leave { pointer_id: Option<u64> },
    Scroll { pointer_id: Option<u64>, state: PointerState },
}

/// A recent tap.
#[derive(Clone, Copy, Debug)]
pub struct TapState {
    /// The pointer that the following Move and Up events belong to.
    pub pointer_id: Option<u64>,
    pub down_time: u64,
    /// Equal to `down_time` while the pointer is down.
    pub up_time: u64,
    /// The count as of the last Down.
    pub count: u8,
    pub x: i32,
    pub y: i32,
}

/// The multi-press window in nanoseconds.
pub open spec fn window(cfg: TapConfig) -> int {
    (if cfg.multi_press_timeout > 400 {
        cfg.multi_press_timeout as int
    } else {
        400
    }) * 1_000_000
}

/// Strictly closer to `(x, y)` than the slop distance.
pub open spec fn near(t: TapState, x: i32, y: i32, cfg: TapConfig) -> bool {
    let dx = t.x - x;
    let dy = t.y - y;
    let slop = cfg.scaled_double_tap_slop as int;
    slop > 0 && dx * dx + dy * dy < slop * slop
}

/// Still pressed.
pub open spec fn live(t: TapState) -> bool {
    t.down_time == t.up_time
}

/// Not yet retired at `time`: still pressed, or released within the window.
pub open spec fn kept(t: TapState, time: u64, cfg: TapConfig) -> bool {
    live(t) || t.up_time + window(cfg) > time
}

/// A question asked of each recent tap, first to last.
pub enum TapQuery {
    /// Close to this Down, and released recently enough before it.
    Joins { x: i32, y: i32, time: u64 },
    /// Belongs to this pointer.
    Pointer { pointer_id: Option<u64> },
    /// Belongs to this pointer and is still pressed.
    LivePointer { pointer_id: Option<u64> },
}

pub open spec fn answers(t: TapState, q: TapQuery, cfg: TapConfig) -> bool {
    match q {
        TapQuery::Joins { x, y, time } => near(t, x, y, cfg) && t.up_time + window(cfg) > time,
        TapQuery::Pointer { pointer_id } => t.pointer_id == pointer_id,
        TapQuery::LivePointer { pointer_id } => t.pointer_id == pointer_id && live(t),
    }
}

/// The index of the first tap from `i` on that answers `q`, or -1.
pub open spec fn first_from(taps: Seq<TapState>, q: TapQuery, cfg: TapConfig, i: nat) -> int
    decreases taps.len() - i,
{
    if i >= taps.len() {
        -1
    } else if answers(taps[i as int], q, cfg) {
        i as int
    } else {
        first_from(taps, q, cfg, i + 1)
    }
}

/// The index of the first tap that answers `q`, or -1.
pub open spec fn first(taps: Seq<TapState>, q: TapQuery, cfg: TapConfig) -> int {
    first_from(taps, q, cfg, 0)
}

pub open spec fn kept_at(time: u64, cfg: TapConfig) -> spec_fn(TapState) -> bool {
    |t: TapState| kept(t, time, cfg)
}

pub open spec fn other_pointer(pointer_id: Option<u64>) -> spec_fn(TapState) -> bool {
    |t: TapState| t.pointer_id != pointer_id
}

/// One more tap, saturating.
pub open spec fn next_count(c: u8) -> u8 {
    if c < 255 {
        (c + 1) as u8
    } else {
        255
    }
}

/// The taps after a Down of `pointer_id` at `st` (before expired ones are
/// retired), and the count that the Down gets.
pub open spec fn after_down(taps: Seq<TapState>, cfg: TapConfig, pointer_id: Option<u64>, st: PointerState) -> (Seq<TapState>, u8) {
    let i = first(taps, TapQuery::Joins { x: st.x, y: st.y, time: st.time }, cfg);
    if i >= 0 {
        let c = next_count(taps[i].count);
        (
            taps.update(
                i,
                TapState {
                    pointer_id,
                    down_time: st.time,
                    up_time: st.time,
                    count: c,
                    x: st.x,
                    y: st.y,
                },
            ),
            c,
        )
    } else {
        (
            taps.push(
                TapState {
                    pointer_id,
                    down_time: st.time,
                    up_time: st.time,
                    count: 1,
                    x: st.x,
                    y: st.y,
                },
            ),
            1,
        )
    }
}

/// The taps after a Down of `pointer_id` at `st`.
pub open spec fn down_taps(taps: Seq<TapState>, cfg: TapConfig, pointer_id: Option<u64>, st: PointerState) -> Seq<TapState> {
    after_down(taps, cfg, pointer_id, st).0.filter(kept_at(st.time, cfg))
}

/// The taps after an Up of `pointer_id` at `st`.
pub open spec fn up_taps(taps: Seq<TapState>, cfg: TapConfig, pointer_id: Option<u64>, st: PointerState) -> Seq<TapState> {
    let i = first(taps, TapQuery::Pointer { pointer_id }, cfg);
    if i >= 0 {
        taps.update(i, TapState { up_time: st.time, ..taps[i] })
    } else {
        taps
    }
}

pub open spec fn with_count(s: PointerState, c: u8) -> PointerState {
    PointerState { count: c, ..s }
}

pub open spec fn stamp(s: Seq<PointerState>, c: u8) -> Seq<PointerState> {
    s.map_values(|p: PointerState| with_count(p, c))
}

fn same_pointer(a: Option<u64>, b: Option<u64>) -> (r: bool)
    ensures
        r == (a == b),
{
    match (a, b) {
        (Some(x), Some(y)) => x == y,
        (None, None) => true,
        _ => false,
    }
}

proof fn lemma_square_bound(d: int)
    requires
        -0x1_0000_0000 <= d <= 0x1_0000_0000,
    ensures
        0 <= d * d <= 0x1_0000_0000_0000_0000,
{
    assert(0 <= d * d <= 0x1_0000_0000_0000_0000) by (nonlinear_arith)
        requires
            -0x1_0000_0000 <= d <= 0x1_0000_0000,
    ;
}

fn window_ns(cfg: &TapConfig) -> (r: u64)
    ensures
        r == window(*cfg),
{
    let timeout: u64 = if cfg.multi_press_timeout > 400 {
        cfg.multi_press_timeout as u64
    } else {
        400
    };
    timeout * 1_000_000
}

fn tap_answers(t: &TapState, q: &TapQuery, cfg: &TapConfig) -> (r: bool)
    ensures
        r == answers(*t, *q, *cfg),
{
    match q {
        TapQuery::Joins { x, y, time } => {
            let dx = t.x as i128 - *x as i128;
            let dy = t.y as i128 - *y as i128;
            let slop = cfg.scaled_double_tap_slop as i128;
            proof {
                lemma_square_bound(dx as int);
                lemma_square_bound(dy as int);
                lemma_square_bound(slop as int);
            }
            let close = slop > 0 && dx * dx + dy * dy < slop * slop;
            close && (t.up_time as u128) + (window_ns(cfg) as u128) > (*time as u128)
        },
        TapQuery::Pointer { pointer_id } => same_pointer(t.pointer_id, *pointer_id),
        TapQuery::LivePointer { pointer_id } => same_pointer(t.pointer_id, *pointer_id)
            && t.down_time == t.up_time,
    }
}

fn find_first(taps: &Vec<TapState>, q: &TapQuery, cfg: &TapConfig) -> (r: Option<usize>)
    ensures
        match r {
            Some(i) => i == first(taps@, *q, *cfg) && i < taps@.len(),
            None => first(taps@, *q, *cfg) == -1,
        },
{
    let mut i: usize = 0;
    while i < taps.len()
        invariant
            i <= taps@.len(),
            first(taps@, *q, *cfg) == first_from(taps@, *q, *cfg, i as nat),
        decreases taps@.len() - i,
    {
        if tap_answers(&taps[i], q, cfg) {
            return Some(i);
        }
        i = i + 1;
    }
    None
}

/// The taps that stay: with `expiry`, those not retired at `time`; else
/// those of other pointers. Order is kept.
fn retain_taps(taps: &Vec<TapState>, time: u64, pointer_id: Option<u64>, expiry: bool, cfg: &TapConfig) -> (r: Vec<TapState>)
    ensures
        expiry ==> r@ == taps@.filter(kept_at(time, *cfg)),
        !expiry ==> r@ == taps@.filter(other_pointer(pointer_id)),
{
    let ghost pred = if expiry {
        kept_at(time, *cfg)
    } else {
        other_pointer(pointer_id)
    };
    let win = window_ns(cfg);
    let mut r: Vec<TapState> = Vec::new();
    let mut i: usize = 0;
    proof {
        reveal(Seq::filter);
        assert(taps@.take(0) =~= Seq::<TapState>::empty());
    }
    while i < taps.len()
        invariant
            i <= taps@.len(),
            win == window(*cfg),
            pred == (if expiry {
                kept_at(time, *cfg)
            } else {
                other_pointer(pointer_id)
            }),
            r@ == taps@.take(i as int).filter(pred),
        decreases taps@.len() - i,
    {
        let t = taps[i];
        let keep = if expiry {
            t.down_time == t.up_time || (t.up_time as u128) + (win as u128) > (time as u128)
        } else {
            !same_pointer(t.pointer_id, pointer_id)
        };
        proof {
            reveal(Seq::filter);
            assert(taps@.take(i + 1).drop_last() =~= taps@.take(i as int));
            assert(keep == pred(t));
        }
        if keep {
            r.push(t);
        }
        i = i + 1;
    }
    proof {
        assert(taps@.take(taps@.len() as int) =~= taps@);
    }
    r
}

fn stamp_all(v: &Vec<PointerState>, c: u8) -> (r: Vec<PointerState>)
    ensures
        r@ == stamp(v@, c),
{
    let mut r: Vec<PointerState> = Vec::new();
    let mut i: usize = 0;
    while i < v.len()
        invariant
            i <= v@.len(),
            r@ == stamp(v@.take(i as int), c),
        decreases v@.len() - i,
    {
        r.push(PointerState { count: c, ..v[i] });
        i = i + 1;
        proof {
            assert(stamp(v@.take(i as int), c) =~= r@);
        }
    }
    proof {
        assert(v@.take(v@.len() as int) =~= v@);
    }
    r
}

/// What a [`TapCounter`] holds.
pub struct TapCounterView {
    pub config: TapConfig,
    /// The recent taps, oldest first.
    pub taps: Seq<TapState>,
}

impl TapCounterView {
    /// Every held tap has been counted at least once.
    pub open spec fn wf(self) -> bool {
        forall|i: int| 0 <= i < self.taps.len() ==> #[trigger] self.taps[i].count >= 1
    }
}

/// Filtering keeps the counts of the taps it keeps, and only taps that pass.
proof fn lemma_filtered_taps(taps: Seq<TapState>, p: spec_fn(TapState) -> bool)
    requires
        forall|i: int| 0 <= i < taps.len() ==> #[trigger] taps[i].count >= 1,
    ensures
        forall|i: int|
            0 <= i < taps.filter(p).len() ==> #[trigger] taps.filter(p)[i].count >= 1 && p(
                taps.filter(p)[i],
            ),
{
    assert forall|i: int| 0 <= i < taps.filter(p).len() implies #[trigger] taps.filter(p)[i].count
        >= 1 && p(taps.filter(p)[i]) by {
        taps.lemma_filter_pred(p, i);
        let x = taps.filter(p)[i];
        assert(taps.filter(p).contains(x));
        taps.lemma_filter_contains_rev(p, x);
        let j = choose|j: int| 0 <= j < taps.len() && taps[j] == x;
        assert(taps[j].count >= 1);
    }
}

/// Tracks recent taps and stamps pointer events with their tap count.
pub struct TapCounter {
    config: TapConfig,
    taps: Vec<TapState>,
}

impl View for TapCounter {
    type V = TapCounterView;

    closed spec fn view(&self) -> TapCounterView {
        TapCounterView { config: self.config, taps: self.taps@ }
    }
}

impl TapCounter {
    /// A counter with no recent taps.
    pub fn new(config: TapConfig) -> (r: TapCounter)
        ensures
            r@.wf(),
            r@.config == config,
            r@.taps == Seq::<TapState>::empty(),
    {
        TapCounter { config, taps: Vec::new() }
    }

    pub fn config(&self) -> (r: TapConfig)
        ensures
            r == self@.config,
    {
        self.config
    }

    /// The number of recent taps held.
    pub fn len(&self) -> (r: usize)
        ensures
            r == self@.taps.len(),
    {
        self.taps.len()
    }

    /// Returns `e` with its tap count attached, and records it.
    ///
    /// - Down: the first recent tap that is near and was released within the
    ///   window takes the Down, its count one higher (saturating at 255);
    ///   without one, a new tap with count 1 is added. Then every tap that is
    ///   neither pressed nor released within the window is retired.
    /// - Up: the first tap of the pointer takes the Up time and the event gets
    ///   its count; without one the event passes unchanged.
    /// - Move: the first pressed tap of the pointer lends its count to the
    ///   current, coalesced and predicted samples.
    /// - Cancel, Leave: the pointer's taps are dropped.
    /// - Enter, Scroll: unchanged.
    pub fn attach_count(&mut self, e: PointerEvent) -> (r: PointerEvent)
        requires
            old(self)@.wf(),
        ensures
            final(self)@.wf(),
            final(self)@.config == old(self)@.config,
            e matches PointerEvent::Down { state, .. } ==> {
                &&& r matches PointerEvent::Down { state: s2, .. } && s2.count >= 1
                &&& forall|i: int|
                    0 <= i < final(self)@.taps.len() ==> kept(
                        #[trigger] final(self)@.taps[i],
                        state.time,
                        old(self)@.config,
                    )
            },
            e matches PointerEvent::Up { pointer_id, .. } ==> (first(
                old(self)@.taps,
                TapQuery::Pointer { pointer_id },
                old(self)@.config,
            ) >= 0 ==> (r matches PointerEvent::Up { state: s2, .. } && s2.count >= 1)),
            ({
                let cfg = old(self)@.config;
                let taps = old(self)@.taps;
                match e {
                    PointerEvent::Down { pointer_id, state } => {
                        &&& final(self)@.taps == down_taps(taps, cfg, pointer_id, state)
                        &&& r == PointerEvent::Down {
                            pointer_id,
                            state: with_count(state, after_down(taps, cfg, pointer_id, state).1),
                        }
                    },
                    PointerEvent::Up { pointer_id, state } => {
                        let i = first(taps, TapQuery::Pointer { pointer_id }, cfg);
                        &&& final(self)@.taps == up_taps(taps, cfg, pointer_id, state)
                        &&& if i >= 0 {
                            r == PointerEvent::Up {
                                pointer_id,
                                state: with_count(state, taps[i].count),
                            }
                        } else {
                            r == e
                        }
                    },
                    PointerEvent::Move { pointer_id, current, coalesced, predicted } => {
                        let i = first(taps, TapQuery::LivePointer { pointer_id }, cfg);
                        &&& final(self)@.taps == taps
                        &&& i < 0 ==> r == e
                        &&& i >= 0 ==> match r {
                            PointerEvent::Move {
                                pointer_id: p2,
                                current: c2,
                                coalesced: co2,
                                predicted: pr2,
                            } => {
                                &&& p2 == pointer_id
                                &&& c2 == with_count(current, taps[i].count)
                                &&& co2@ == stamp(coalesced@, taps[i].count)
                                &&& pr2@ == stamp(predicted@, taps[i].count)
                            },
                            _ => false,
                        }
                    },
                    PointerEvent::Cancel { pointer_id } | PointerEvent::Leave { pointer_id } => {
                        final(self)@.taps == taps.filter(other_pointer(pointer_id)) && r == e
                    },
                    _ => final(self)@.taps == taps && r == e,
                }
            }),
    {
        match e {
            PointerEvent::Down { pointer_id, state } => {
                let q = TapQuery::Joins { x: state.x, y: state.y, time: state.time };
                let c: u8 = match find_first(&self.taps, &q, &self.config) {
                    Some(i) => {
                        let old_count = self.taps[i].count;
                        let c: u8 = if old_count < 255 {
                            old_count + 1
                        } else {
                            255
                        };
                        self.taps.set(
                            i,
                            TapState {
                                pointer_id,
                                down_time: state.time,
                                up_time: state.time,
                                count: c,
                                x: state.x,
                                y: state.y,
                            },
                        );
                        c
                    },
                    None => {
                        self.taps.push(
                            TapState {
                                pointer_id,
                                down_time: state.time,
                                up_time: state.time,
                                count: 1,
                                x: state.x,
                                y: state.y,
                            },
                        );
                        1
                    },
                };
                let ghost t1 = self.taps@;
                self.taps = retain_taps(&self.taps, state.time, None, true, &self.config);
                proof {
                    assert forall|i: int| 0 <= i < t1.len() implies #[trigger] t1[i].count >= 1 by {
                        if i < old(self)@.taps.len() {
                            assert(old(self)@.taps[i].count >= 1);
                        }
                    }
                    lemma_filtered_taps(t1, kept_at(state.time, self.config));
                }
                PointerEvent::Down { pointer_id, state: PointerState { count: c, ..state } }
            },
            PointerEvent::Up { pointer_id, state } => {
                let q = TapQuery::Pointer { pointer_id };
                match find_first(&self.taps, &q, &self.config) {
                    Some(i) => {
                        let t = self.taps[i];
                        self.taps.set(i, TapState { up_time: state.time, ..t });
                        PointerEvent::Up { pointer_id, state: PointerState { count: t.count, ..state } }
                    },
                    None => e,
                }
            },
            PointerEvent::Move { pointer_id, current, coalesced, predicted } => {
                let q = TapQuery::LivePointer { pointer_id };
                match find_first(&self.taps, &q, &self.config) {
                    Some(i) => {
                        let c = self.taps[i].count;
                        PointerEvent::Move {
                            pointer_id,
                            current: PointerState { count: c, ..current },
                            coalesced: stamp_all(&coalesced, c),
                            predicted: stamp_all(&predicted, c),
                        }
                    },
                    None => PointerEvent::Move { pointer_id, current, coalesced, predicted },
                }
            },
            PointerEvent::Cancel { pointer_id } => {
                proof {
                    lemma_filtered_taps(self.taps@, other_pointer(pointer_id));
                }
                self.taps = retain_taps(&self.taps, 0, pointer_id, false, &self.config);
                PointerEvent::Cancel { pointer_id }
            },
            PointerEvent::Leave { pointer_id } => {
                proof {
                    lemma_filtered_taps(self.taps@, other_pointer(pointer_id));
                }
                self.taps = retain_taps(&self.taps, 0, pointer_id, false, &self.config);
                PointerEvent::Leave { pointer_id }
            },
            _ => e,
        }
    }
}

/// A sample at `(x, y)` at `time`, not yet counted.
pub open spec fn sample(time: u64, x: i32, y: i32) -> PointerState {
    PointerState { time, x, y, count: 0 }
}

/// `n` taps, saturating at 255.
pub open spec fn sat_count(n: nat) -> u8 {
    if n < 255 {
        n as u8
    } else {
        255
    }
}

/// The taps after presses (Down then Up) of one pointer at `(x, y)`, at the
/// given (down, up) times, starting with no taps.
pub open spec fn presses(cfg: TapConfig, pointer_id: Option<u64>, x: i32, y: i32, times: Seq<(u64, u64)>) -> Seq<TapState>
    decreases times.len(),
{
    if times.len() == 0 {
        Seq::empty()
    } else {
        let prev = presses(cfg, pointer_id, x, y, times.drop_last());
        let (d, u) = times.last();
        up_taps(down_taps(prev, cfg, pointer_id, sample(d, x, y)), cfg, pointer_id, sample(u, x, y))
    }
}

/// Each press is released after it went down, and each Down follows the
/// previous Up by less than the multi-press window.
pub open spec fn quick_presses(cfg: TapConfig, times: Seq<(u64, u64)>) -> bool {
    &&& forall|i: int| 0 <= i < times.len() ==> times[i].0 < times[i].1
    &&& forall|i: int|
        0 < i < times.len() ==> times[i - 1].1 <= times[i].0 && times[i].0 < times[i - 1].1
            + window(cfg)
}

proof fn lemma_filter_single(t: TapState, p: spec_fn(TapState) -> bool)
    ensures
        seq![t].filter(p) == (if p(t) {
            seq![t]
        } else {
            Seq::<TapState>::empty()
        }),
{
    reveal(Seq::filter);
    assert(seq![t].drop_last() =~= Seq::<TapState>::empty());
    assert(Seq::<TapState>::empty().filter(p) =~= Seq::<TapState>::empty());
}

proof fn lemma_first_single(t: TapState, q: TapQuery, cfg: TapConfig)
    ensures
        first(seq![t], q, cfg) == (if answers(t, q, cfg) {
            0int
        } else {
            -1int
        }),
{
    if !answers(t, q, cfg) {
        assert(first_from(seq![t], q, cfg, 1) == -1);
    }
}

/// Presses of one pointer at one point, each Down less than the multi-press
/// window after the previous Up, count 1, 2, 3, ... (saturating at 255): the
/// n-th Down is stamped with n, and one tap remains, holding that count.
pub proof fn lemma_quick_presses_count_up(cfg: TapConfig, pointer_id: Option<u64>, x: i32, y: i32, times: Seq<(u64, u64)>)
    requires
        cfg.scaled_double_tap_slop > 0,
        times.len() > 0,
        quick_presses(cfg, times),
    ensures
        after_down(
            presses(cfg, pointer_id, x, y, times.drop_last()),
            cfg,
            pointer_id,
            sample(times.last().0, x, y),
        ).1 == sat_count(times.len()),
        presses(cfg, pointer_id, x, y, times) == seq![
            TapState {
                pointer_id,
                down_time: times.last().0,
                up_time: times.last().1,
                count: sat_count(times.len()),
                x,
                y,
            },
        ],
    decreases times.len(),
{
    let prev_times = times.drop_last();
    let (d, u) = times.last();
    let prev = presses(cfg, pointer_id, x, y, prev_times);
    let pressed = TapState { pointer_id, down_time: d, up_time: d, count: sat_count(times.len()), x, y };
    if times.len() == 1 {
        assert(prev == Seq::<TapState>::empty());
        assert(first_from(prev, TapQuery::Joins { x, y, time: d }, cfg, 0) == -1);
        assert(Seq::<TapState>::empty().push(pressed) =~= seq![pressed]);
    } else {
        assert(quick_presses(cfg, prev_times)) by {
            assert forall|i: int| 0 < i < prev_times.len() implies prev_times[i - 1].1
                <= prev_times[i].0 && prev_times[i].0 < prev_times[i - 1].1 + window(cfg) by {
                assert(prev_times[i] == times[i] && prev_times[i - 1] == times[i - 1]);
            }
        }
        lemma_quick_presses_count_up(cfg, pointer_id, x, y, prev_times);
        let t = prev[0];
        assert(prev_times.last() == times[times.len() - 2]);
        assert(times[times.len() - 2].0 < times[times.len() - 2].1);
        lemma_first_single(t, TapQuery::Joins { x, y, time: d }, cfg);
        let slop = cfg.scaled_double_tap_slop as int;
        assert(slop * slop > 0) by (nonlinear_arith)
            requires
                slop > 0,
        ;
        assert(times[times.len() - 1].0 < times[times.len() - 2].1 + window(cfg));
        assert(t.x == x && t.y == y);
        assert((t.x - x) * (t.x - x) + (t.y - y) * (t.y - y) == 0);
        assert(near(t, x, y, cfg));
        assert(answers(t, TapQuery::Joins { x, y, time: d }, cfg));
        assert(seq![t].update(0, pressed) =~= seq![pressed]);
    }
    lemma_filter_single(pressed, kept_at(d, cfg));
    lemma_first_single(pressed, TapQuery::Pointer { pointer_id }, cfg);
    assert(seq![pressed].update(0, TapState { up_time: u, ..pressed }) =~= seq![
        TapState { up_time: u, ..pressed },
    ]);
}

/// A Down at least the multi-press window after the last Up starts again at
/// count 1, and the old tap is retired.
pub proof fn lemma_late_press_resets(cfg: TapConfig, t: TapState, pointer_id: Option<u64>, st: PointerState)
    requires
        !live(t),
        t.up_time + window(cfg) <= st.time,
    ensures
        after_down(seq![t], cfg, pointer_id, st).1 == 1,
        down_taps(seq![t], cfg, pointer_id, st) == seq![
            TapState { pointer_id, down_time: st.time, up_time: st.time, count: 1, x: st.x, y: st.y },
        ],
{
    let fresh = TapState { pointer_id, down_time: st.time, up_time: st.time, count: 1, x: st.x, y: st.y };
    lemma_first_single(t, TapQuery::Joins { x: st.x, y: st.y, time: st.time }, cfg);
    reveal(Seq::filter);
    let both = seq![t].push(fresh);
    assert(both.drop_last() =~= seq![t]);
    lemma_filter_single(t, kept_at(st.time, cfg));
    assert(both.filter(kept_at(st.time, cfg)) =~= seq![fresh]);
}

/// Two Downs at least the slop distance apart each count 1, however close
/// in time.
pub proof fn lemma_far_downs_count_one(
    cfg: TapConfig,
    first_id: Option<u64>,
    a: PointerState,
    second_id: Option<u64>,
    b: PointerState,
)
    requires
        (a.x - b.x) * (a.x - b.x) + (a.y - b.y) * (a.y - b.y) >= cfg.scaled_double_tap_slop
            * cfg.scaled_double_tap_slop,
        a.time <= b.time,
    ensures
        after_down(Seq::empty(), cfg, first_id, a).1 == 1,
        after_down(down_taps(Seq::empty(), cfg, first_id, a), cfg, second_id, b).1 == 1,
{
    let ta = TapState { pointer_id: first_id, down_time: a.time, up_time: a.time, count: 1, x: a.x, y: a.y };
    assert(first_from(Seq::<TapState>::empty(), TapQuery::Joins { x: a.x, y: a.y, time: a.time }, cfg, 0) == -1);
    assert(Seq::<TapState>::empty().push(ta) =~= seq![ta]);
    lemma_filter_single(ta, kept_at(a.time, cfg));
    assert((ta.x - b.x) * (ta.x - b.x) == (a.x - b.x) * (a.x - b.x));
    lemma_first_single(ta, TapQuery::Joins { x: b.x, y: b.y, time: b.time }, cfg);
}

} // verus!
