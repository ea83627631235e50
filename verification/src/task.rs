//! The watch-list task's control logic. The task owns the tracked codes and
//! their per-code candlestick resolution; each wakeup — a command, a timer
//! tick, or the command channel closing — is one step of a state machine
//! that returns the actions the surrounding loop must perform. The loop
//! itself (channels, timers, HTTP) lives outside the library; every decision
//! is taken here, so a fetch failure can only ever skip one emission and
//! never ends the loop.

use vstd::prelude::*;
use crate::message::StockCammnd;
use crate::stock::KLineScale;
use crate::text::{split_str, spec_split, str_eq};

verus! {

/// One wakeup of the control loop.
#[derive(Debug)]
pub enum TaskEvent {
    /// A command arrived.
    Command(StockCammnd),
    /// The quote-refresh timer fired.
    QuoteTick,
    /// The history-refresh timer fired.
    HistoryTick,
    /// The command channel closed: every sender is gone, so the task may
    /// shut down.
    Closed,
}

/// What the surrounding loop must do after one step.
#[derive(Debug)]
pub enum TaskAction {
    /// Fetch one quote batch for these codes and emit the decoded records as
    /// one batch event; on failure emit nothing.
    FetchQuotes(Vec<String>),
    /// Fetch one history series for this code, at this resolution encoding
    /// and bar count, and emit it as one history update; on failure emit
    /// nothing and leave the consumer's data stale.
    FetchKlines(String, usize, u32),
    /// Replace the quote-refresh timer with a period of this many
    /// milliseconds.
    SetQuoteInterval(u32),
    /// Leave the control loop.
    Stop,
}

/// The ghost image of an action.
pub enum TaskActionView {
    FetchQuotes(Seq<Seq<char>>),
    FetchKlines(Seq<char>, usize, u32),
    SetQuoteInterval(u32),
    Stop,
}

impl View for TaskAction {
    type V = TaskActionView;

    open spec fn view(&self) -> TaskActionView {
        match self {
            TaskAction::FetchQuotes(codes) => TaskActionView::FetchQuotes(
                codes@.map_values(|c: String| c@),
            ),
            TaskAction::FetchKlines(code, scale, len) => TaskActionView::FetchKlines(
                code@,
                *scale,
                *len,
            ),
            TaskAction::SetQuoteInterval(ms) => TaskActionView::SetQuoteInterval(*ms),
            TaskAction::Stop => TaskActionView::Stop,
        }
    }
}

/// The task's owned state: the tracked codes in order, and each code's
/// chosen resolution (the latest binding wins; a code without one defaults
/// to fifteen minutes).
#[derive(Debug)]
pub struct StockTask {
    stock_codes: Vec<String>,
    kline_scale_map: Vec<(String, KLineScale)>,
}

#[verifier::ext_equal]
pub struct TaskView {
    pub codes: Seq<Seq<char>>,
    pub scales: Seq<(Seq<char>, KLineScale)>,
}

impl View for StockTask {
    type V = TaskView;

    closed spec fn view(&self) -> TaskView {
        TaskView {
            codes: self.stock_codes@.map_values(|c: String| c@),
            scales: self.kline_scale_map@.map_values(|e: (String, KLineScale)| (e.0@, e.1)),
        }
    }
}

/// Is `code` among `codes`?
pub open spec fn seq_has(codes: Seq<Seq<char>>, code: Seq<char>) -> bool {
    exists|i: int| 0 <= i < codes.len() && codes[i] == code
}

/// `codes` with every occurrence of `code` removed, order kept.
pub open spec fn drop_code(codes: Seq<Seq<char>>, code: Seq<char>) -> Seq<Seq<char>>
    decreases codes.len(),
{
    if codes.len() == 0 {
        Seq::empty()
    } else {
        let rest = drop_code(codes.drop_last(), code);
        if codes.last() == code {
            rest
        } else {
            rest.push(codes.last())
        }
    }
}

/// The scale bindings with every binding of `code` removed, order kept.
pub open spec fn drop_key(
    scales: Seq<(Seq<char>, KLineScale)>,
    code: Seq<char>,
) -> Seq<(Seq<char>, KLineScale)>
    decreases scales.len(),
{
    if scales.len() == 0 {
        Seq::empty()
    } else {
        let rest = drop_key(scales.drop_last(), code);
        if scales.last().0 == code {
            rest
        } else {
            rest.push(scales.last())
        }
    }
}

/// The latest scale bound to `code`, when there is one.
pub open spec fn lookup_scale(
    scales: Seq<(Seq<char>, KLineScale)>,
    code: Seq<char>,
) -> Option<KLineScale>
    decreases scales.len(),
{
    if scales.len() == 0 {
        None
    } else if scales.last().0 == code {
        Some(scales.last().1)
    } else {
        lookup_scale(scales.drop_last(), code)
    }
}

/// The resolution history fetches use for `code`: its binding, or the
/// fifteen-minute default when it never got one.
pub open spec fn scale_or_default(
    scales: Seq<(Seq<char>, KLineScale)>,
    code: Seq<char>,
) -> KLineScale {
    match lookup_scale(scales, code) {
        Some(s) => s,
        None => KLineScale::Munute15,
    }
}

/// The actions of a quote refresh: one batch fetch over every tracked code;
/// an empty watch-list is a no-op, not an error.
pub open spec fn quote_actions(codes: Seq<Seq<char>>) -> Seq<TaskActionView> {
    if codes.len() > 0 {
        seq![TaskActionView::FetchQuotes(codes)]
    } else {
        Seq::empty()
    }
}

/// The actions of a history refresh: one series fetch per tracked code, in
/// order, each at the code's resolution, one hundred bars each; a failure of
/// one code's fetch skips only that code's emission.
pub open spec fn history_actions(v: TaskView) -> Seq<TaskActionView> {
    Seq::new(
        v.codes.len(),
        |i: int|
            TaskActionView::FetchKlines(
                v.codes[i],
                scale_or_default(v.scales, v.codes[i]).spec_to_usize(),
                100,
            ),
    )
}

/// Adding a code tracks it when it is not yet tracked and leaves the
/// watch-list alone when it already is.
pub open spec fn add_code_view(v: TaskView, code: Seq<char>) -> TaskView {
    if seq_has(v.codes, code) {
        v
    } else {
        TaskView { codes: v.codes.push(code), scales: v.scales }
    }
}

/// Recording a resolution replaces the code's binding.
pub open spec fn set_scale_view(v: TaskView, code: Seq<char>, scale: KLineScale) -> TaskView {
    TaskView { codes: v.codes, scales: drop_key(v.scales, code).push((code, scale)) }
}

/// One step of the task: the state after the wakeup, and the actions the
/// surrounding loop must perform for it, in order.
pub open spec fn spec_step(v: TaskView, e: TaskEvent) -> (TaskView, Seq<TaskActionView>) {
    match e {
        TaskEvent::Command(c) => match c {
            StockCammnd::Refresh => (v, quote_actions(v.codes)),
            StockCammnd::SetInterval(ms) => (v, seq![TaskActionView::SetQuoteInterval(ms)]),
            StockCammnd::StockAdd(code) => (add_code_view(v, code@), Seq::empty()),
            StockCammnd::StockDel(code) => (
                TaskView { codes: drop_code(v.codes, code@), scales: v.scales },
                Seq::empty(),
            ),
            StockCammnd::StockKLine(code, scale) => (
                set_scale_view(v, code@, scale),
                seq![TaskActionView::FetchKlines(code@, scale.spec_to_usize(), 100)],
            ),
        },
        TaskEvent::QuoteTick => (v, quote_actions(v.codes)),
        TaskEvent::HistoryTick => (v, history_actions(v)),
        TaskEvent::Closed => (v, seq![TaskActionView::Stop]),
    }
}

/// The actions the task performs before its first wakeup: one immediate
/// quote fetch and one immediate full history refresh, so the consumer has
/// data before any timer fires.
pub open spec fn spec_startup(v: TaskView) -> Seq<TaskActionView> {
    quote_actions(v.codes) + history_actions(v)
}

/// The pieces of `s` between commas, without the empty ones.
pub open spec fn nonempty_codes(ls: Seq<Seq<char>>) -> Seq<Seq<char>>
    decreases ls.len(),
{
    if ls.len() == 0 {
        Seq::empty()
    } else {
        let rest = nonempty_codes(ls.drop_last());
        if ls.last().len() == 0 {
            rest
        } else {
            rest.push(ls.last())
        }
    }
}

impl StockTask {
    /// A task tracking the codes of a comma-separated list; empty pieces are
    /// dropped, so an empty list tracks nothing (and is not an error). No
    /// code has a resolution binding yet.
    pub fn new(codes: &str) -> (t: StockTask)
        ensures
            t@.codes == nonempty_codes(spec_split(codes@, ',')),
            t@.scales == Seq::<(Seq<char>, KLineScale)>::empty(),
    {
        let pieces = split_str(codes, ',');
        let ghost gp = spec_split(codes@, ',');
        let mut kept: Vec<String> = Vec::new();
        let n = pieces.len();
        let mut i: usize = 0;
        proof {
            assert(gp == pieces@.map_values(|p: String| p@));
            assert(gp.take(0) =~= Seq::<Seq<char>>::empty());
            assert(kept@.map_values(|c: String| c@) =~= nonempty_codes(gp.take(0)));
        }
        while i < n
            invariant
                i <= n,
                n == pieces@.len(),
                gp == pieces@.map_values(|p: String| p@),
                kept@.map_values(|c: String| c@) == nonempty_codes(gp.take(i as int)),
            decreases n - i,
        {
            proof {
                assert(gp[i as int] == pieces@[i as int]@);
                assert(gp.take(i + 1).drop_last() =~= gp.take(i as int));
                assert(gp.take(i + 1).last() == gp[i as int]);
            }
            if !pieces[i].as_str().is_empty() {
                let piece = pieces[i].clone();
                proof {
                    assert((kept@ + seq![piece]).map_values(|c: String| c@) =~= kept@.map_values(
                        |c: String| c@,
                    ).push(piece@));
                    assert(kept@.push(piece) =~= kept@ + seq![piece]);
                }
                kept.push(piece);
            }
            i += 1;
        }
        proof {
            assert(gp.take(n as int) =~= gp);
        }
        let t = StockTask { stock_codes: kept, kline_scale_map: Vec::new() };
        proof {
            assert(t@.scales =~= Seq::<(Seq<char>, KLineScale)>::empty());
        }
        t
    }

    /// The tracked codes, in order.
    pub fn codes(&self) -> (r: &Vec<String>)
        ensures
            r@.map_values(|c: String| c@) == self@.codes,
    {
        &self.stock_codes
    }

    /// Is `code` tracked?
    pub fn contains_code(&self, code: &str) -> (r: bool)
        ensures
            r == seq_has(self@.codes, code@),
    {
        let n = self.stock_codes.len();
        let mut i: usize = 0;
        while i < n
            invariant
                i <= n,
                n == self.stock_codes@.len(),
                forall|j: int| 0 <= j < i ==> self@.codes[j] != code@,
            decreases n - i,
        {
            proof {
                assert(self@.codes[i as int] == self.stock_codes@[i as int]@);
            }
            if str_eq(self.stock_codes[i].as_str(), code) {
                return true;
            }
            i += 1;
        }
        false
    }

    /// Track `code` when it is not yet tracked; an already-tracked code
    /// leaves the watch-list unchanged.
    pub fn add_code(&mut self, code: String)
        ensures
            final(self)@ == add_code_view(old(self)@, code@),
    {
        if !self.contains_code(code.as_str()) {
            proof {
                assert((self.stock_codes@ + seq![code]).map_values(|c: String| c@)
                    =~= self@.codes.push(code@));
                assert(self.stock_codes@.push(code) =~= self.stock_codes@ + seq![code]);
            }
            self.stock_codes.push(code);
        }
    }

    /// Stop tracking `code`: every occurrence leaves the watch-list; its
    /// resolution binding, if any, stays behind unused.
    pub fn remove_code(&mut self, code: &str)
        ensures
            final(self)@.codes == drop_code(old(self)@.codes, code@),
            final(self)@.scales == old(self)@.scales,
    {
        let ghost gc = self@.codes;
        let mut kept: Vec<String> = Vec::new();
        let n = self.stock_codes.len();
        let mut i: usize = 0;
        proof {
            assert(gc.take(0) =~= Seq::<Seq<char>>::empty());
            assert(kept@.map_values(|c: String| c@) =~= drop_code(gc.take(0), code@));
        }
        while i < n
            invariant
                i <= n,
                n == self.stock_codes@.len(),
                gc == self@.codes,
                kept@.map_values(|c: String| c@) == drop_code(gc.take(i as int), code@),
            decreases n - i,
        {
            proof {
                assert(gc[i as int] == self.stock_codes@[i as int]@);
                assert(gc.take(i + 1).drop_last() =~= gc.take(i as int));
                assert(gc.take(i + 1).last() == gc[i as int]);
            }
            if !str_eq(self.stock_codes[i].as_str(), code) {
                let piece = self.stock_codes[i].clone();
                proof {
                    assert((kept@ + seq![piece]).map_values(|c: String| c@) =~= kept@.map_values(
                        |c: String| c@,
                    ).push(piece@));
                    assert(kept@.push(piece) =~= kept@ + seq![piece]);
                }
                kept.push(piece);
            }
            i += 1;
        }
        proof {
            assert(gc.take(n as int) =~= gc);
        }
        self.stock_codes = kept;
    }

    /// Bind `code` to `scale`, replacing any earlier binding.
    fn set_scale(&mut self, code: String, scale: KLineScale)
        ensures
            final(self)@.scales == drop_key(old(self)@.scales, code@).push((code@, scale)),
            final(self)@.codes == old(self)@.codes,
    {
        let ghost gs = self@.scales;
        let mut kept: Vec<(String, KLineScale)> = Vec::new();
        let n = self.kline_scale_map.len();
        let mut i: usize = 0;
        proof {
            assert(gs.take(0) =~= Seq::<(Seq<char>, KLineScale)>::empty());
            assert(kept@.map_values(|e: (String, KLineScale)| (e.0@, e.1)) =~= drop_key(
                gs.take(0),
                code@,
            ));
        }
        while i < n
            invariant
                i <= n,
                n == self.kline_scale_map@.len(),
                gs == self@.scales,
                kept@.map_values(|e: (String, KLineScale)| (e.0@, e.1)) == drop_key(
                    gs.take(i as int),
                    code@,
                ),
            decreases n - i,
        {
            proof {
                assert(gs[i as int] == (self.kline_scale_map@[i as int].0@,
                    self.kline_scale_map@[i as int].1));
                assert(gs.take(i + 1).drop_last() =~= gs.take(i as int));
                assert(gs.take(i + 1).last() == gs[i as int]);
            }
            if !str_eq(self.kline_scale_map[i].0.as_str(), code.as_str()) {
                let entry = (self.kline_scale_map[i].0.clone(), self.kline_scale_map[i].1);
                proof {
                    assert((kept@ + seq![entry]).map_values(|e: (String, KLineScale)| (e.0@, e.1))
                        =~= kept@.map_values(|e: (String, KLineScale)| (e.0@, e.1)).push(
                        (entry.0@, entry.1),
                    ));
                    assert(kept@.push(entry) =~= kept@ + seq![entry]);
                }
                kept.push(entry);
            }
            i += 1;
        }
        proof {
            assert(gs.take(n as int) =~= gs);
        }
        let bound = (code, scale);
        proof {
            assert((kept@ + seq![bound]).map_values(|e: (String, KLineScale)| (e.0@, e.1))
                =~= kept@.map_values(|e: (String, KLineScale)| (e.0@, e.1)).push(
                (bound.0@, bound.1),
            ));
            assert(kept@.push(bound) =~= kept@ + seq![bound]);
        }
        kept.push(bound);
        self.kline_scale_map = kept;
    }

    /// The resolution history fetches use for `code`.
    pub fn scale_for_code(&self, code: &str) -> (r: KLineScale)
        ensures
            r == scale_or_default(self@.scales, code@),
    {
        let ghost gs = self@.scales;
        let mut i = self.kline_scale_map.len();
        proof {
            assert(gs.take(i as int) =~= gs);
        }
        while i > 0
            invariant
                i <= self.kline_scale_map@.len(),
                gs == self@.scales,
                lookup_scale(gs, code@) == lookup_scale(gs.take(i as int), code@),
            decreases i,
        {
            proof {
                assert(gs[i - 1] == (self.kline_scale_map@[i - 1].0@,
                    self.kline_scale_map@[i - 1].1));
                assert(gs.take(i as int).drop_last() =~= gs.take(i - 1));
                assert(gs.take(i as int).last() == gs[i - 1]);
            }
            if str_eq(self.kline_scale_map[i - 1].0.as_str(), code) {
                return self.kline_scale_map[i - 1].1;
            }
            i -= 1;
        }
        proof {
            assert(gs.take(0) =~= Seq::<(Seq<char>, KLineScale)>::empty());
        }
        KLineScale::Munute15
    }

    /// The actions of one quote refresh.
    fn quote_fetch_actions(&self) -> (acts: Vec<TaskAction>)
        ensures
            acts@.map_values(|a: TaskAction| a@) == quote_actions(self@.codes),
    {
        let mut acts: Vec<TaskAction> = Vec::new();
        proof {
            assert(acts@.map_values(|a: TaskAction| a@) =~= Seq::<TaskActionView>::empty());
        }
        if self.stock_codes.len() > 0 {
            let mut cloned: Vec<String> = Vec::new();
            let n = self.stock_codes.len();
            let mut i: usize = 0;
            proof {
                assert(cloned@.map_values(|c: String| c@) =~= self@.codes.take(0));
            }
            while i < n
                invariant
                    i <= n,
                    n == self.stock_codes@.len(),
                    cloned@.map_values(|c: String| c@) == self@.codes.take(i as int),
                decreases n - i,
            {
                let piece = self.stock_codes[i].clone();
                proof {
                    assert(self@.codes[i as int] == self.stock_codes@[i as int]@);
                    assert(self@.codes.take(i + 1) =~= self@.codes.take(i as int).push(
                        self@.codes[i as int],
                    ));
                    assert((cloned@ + seq![piece]).map_values(|c: String| c@)
                        =~= cloned@.map_values(|c: String| c@).push(piece@));
                    assert(cloned@.push(piece) =~= cloned@ + seq![piece]);
                }
                cloned.push(piece);
                i += 1;
            }
            proof {
                assert(self@.codes.take(n as int) =~= self@.codes);
            }
            let act = TaskAction::FetchQuotes(cloned);
            proof {
                assert((acts@ + seq![act]).map_values(|a: TaskAction| a@) =~= seq![act@]);
                assert(acts@.push(act) =~= acts@ + seq![act]);
            }
            acts.push(act);
        }
        acts
    }

    /// The actions of one full history refresh.
    fn history_fetch_actions(&self) -> (acts: Vec<TaskAction>)
        ensures
            acts@.map_values(|a: TaskAction| a@) == history_actions(self@),
    {
        let mut acts: Vec<TaskAction> = Vec::new();
        let n = self.stock_codes.len();
        let mut i: usize = 0;
        proof {
            assert(acts@.map_values(|a: TaskAction| a@) =~= history_actions(self@).take(0));
        }
        while i < n
            invariant
                i <= n,
                n == self.stock_codes@.len(),
                acts@.map_values(|a: TaskAction| a@) == history_actions(self@).take(i as int),
            decreases n - i,
        {
            let code = self.stock_codes[i].clone();
            let scale = self.scale_for_code(code.as_str());
            let act = TaskAction::FetchKlines(code, scale.to_usize(), 100);
            proof {
                assert(self@.codes[i as int] == self.stock_codes@[i as int]@);
                assert(act@ == history_actions(self@)[i as int]);
                assert(history_actions(self@).take(i + 1) =~= history_actions(self@).take(
                    i as int,
                ).push(history_actions(self@)[i as int]));
                assert((acts@ + seq![act]).map_values(|a: TaskAction| a@) =~= acts@.map_values(
                    |a: TaskAction| a@,
                ).push(act@));
                assert(acts@.push(act) =~= acts@ + seq![act]);
            }
            acts.push(act);
            i += 1;
        }
        proof {
            assert(history_actions(self@).take(n as int) =~= history_actions(self@));
        }
        acts
    }

    /// The actions the surrounding loop must perform before its first
    /// wakeup: one immediate quote fetch and one immediate history refresh.
    pub fn startup_actions(&self) -> (acts: Vec<TaskAction>)
        ensures
            acts@.map_values(|a: TaskAction| a@) == spec_startup(self@),
    {
        let mut acts = self.quote_fetch_actions();
        let mut hist = self.history_fetch_actions();
        let ghost before = acts@;
        let ghost hv = hist@;
        acts.append(&mut hist);
        proof {
            assert((before + hv).map_values(|a: TaskAction| a@) =~= before.map_values(
                |a: TaskAction| a@,
            ) + hv.map_values(|a: TaskAction| a@));
        }
        acts
    }

    /// Perform one step: dispatch the wakeup, mutate the watch-list, and
    /// return this wakeup's actions in order.
    pub fn step(&mut self, event: TaskEvent) -> (acts: Vec<TaskAction>)
        ensures
            final(self)@ == spec_step(old(self)@, event).0,
            acts@.map_values(|a: TaskAction| a@) == spec_step(old(self)@, event).1,
    {
        match event {
            TaskEvent::Command(c) => match c {
                StockCammnd::Refresh => self.quote_fetch_actions(),
                StockCammnd::SetInterval(ms) => {
                    let mut acts: Vec<TaskAction> = Vec::new();
                    let act = TaskAction::SetQuoteInterval(ms);
                    proof {
                        assert((acts@ + seq![act]).map_values(|a: TaskAction| a@) =~= seq![act@]);
                        assert(acts@.push(act) =~= acts@ + seq![act]);
                    }
                    acts.push(act);
                    acts
                },
                StockCammnd::StockAdd(code) => {
                    self.add_code(code);
                    let acts: Vec<TaskAction> = Vec::new();
                    proof {
                        assert(acts@.map_values(|a: TaskAction| a@)
                            =~= Seq::<TaskActionView>::empty());
                    }
                    acts
                },
                StockCammnd::StockDel(code) => {
                    self.remove_code(code.as_str());
                    let acts: Vec<TaskAction> = Vec::new();
                    proof {
                        assert(acts@.map_values(|a: TaskAction| a@)
                            =~= Seq::<TaskActionView>::empty());
                        assert(final(self)@ =~= spec_step(old(self)@, event).0);
                    }
                    acts
                },
                StockCammnd::StockKLine(code, scale) => {
                    let act = TaskAction::FetchKlines(code.clone(), scale.to_usize(), 100);
                    self.set_scale(code, scale);
                    let mut acts: Vec<TaskAction> = Vec::new();
                    proof {
                        assert((acts@ + seq![act]).map_values(|a: TaskAction| a@) =~= seq![act@]);
                        assert(acts@.push(act) =~= acts@ + seq![act]);
                        assert(final(self)@ =~= spec_step(old(self)@, event).0);
                    }
                    acts.push(act);
                    acts
                },
            },
            TaskEvent::QuoteTick => self.quote_fetch_actions(),
            TaskEvent::HistoryTick => self.history_fetch_actions(),
            TaskEvent::Closed => {
                let mut acts: Vec<TaskAction> = Vec::new();
                let act = TaskAction::Stop;
                proof {
                    assert((acts@ + seq![act]).map_values(|a: TaskAction| a@) =~= seq![act@]);
                    assert(acts@.push(act) =~= acts@ + seq![act]);
                }
                acts.push(act);
                acts
            },
        }
    }
}

/// Nothing tracks `code` after it is dropped.
pub proof fn lemma_drop_code_gone(codes: Seq<Seq<char>>, code: Seq<char>)
    ensures
        forall|i: int| 0 <= i < drop_code(codes, code).len() ==> drop_code(codes, code)[i] != code,
        !seq_has(drop_code(codes, code), code),
    decreases codes.len(),
{
    if codes.len() > 0 {
        lemma_drop_code_gone(codes.drop_last(), code);
    }
}

/// Adding an instrument and then refreshing: the next quote fetch is one
/// batch over the watch-list, and the watch-list covers the new code. (A
/// code already tracked is left alone; a new one is appended.)
pub proof fn lemma_add_then_refresh_covers(v: TaskView, code: String)
    ensures
        ({
            let v1 = spec_step(v, TaskEvent::Command(StockCammnd::StockAdd(code))).0;
            let acts = spec_step(v1, TaskEvent::QuoteTick).1;
            &&& seq_has(v1.codes, code@)
            &&& acts.len() == 1
            &&& acts[0] == TaskActionView::FetchQuotes(v1.codes)
        }),
{
    let v1 = spec_step(v, TaskEvent::Command(StockCammnd::StockAdd(code))).0;
    if seq_has(v.codes, code@) {
        assert(v1 == v);
    } else {
        assert(v1.codes.last() == code@);
        assert(seq_has(v1.codes, code@));
    }
    assert(v1.codes.len() > 0) by {
        let i = choose|i: int| 0 <= i < v1.codes.len() && v1.codes[i] == code@;
    }
}

/// Removing an instrument: it leaves the watch-list, the next quote fetch
/// never covers it, and the next history refresh never fetches for it.
pub proof fn lemma_remove_excludes(v: TaskView, code: String)
    ensures
        ({
            let v1 = spec_step(v, TaskEvent::Command(StockCammnd::StockDel(code))).0;
            let qacts = spec_step(v1, TaskEvent::QuoteTick).1;
            let hacts = spec_step(v1, TaskEvent::HistoryTick).1;
            &&& !seq_has(v1.codes, code@)
            &&& forall|i: int|
                0 <= i < qacts.len() ==> qacts[i] == TaskActionView::FetchQuotes(v1.codes)
                    && !seq_has(v1.codes, code@)
            &&& forall|i: int|
                0 <= i < hacts.len() ==> (#[trigger] hacts[i]) == TaskActionView::FetchKlines(
                    v1.codes[i],
                    scale_or_default(v1.scales, v1.codes[i]).spec_to_usize(),
                    100,
                ) && v1.codes[i] != code@
        }),
{
    lemma_drop_code_gone(v.codes, code@);
}

/// Setting a code's resolution immediately triggers exactly one history
/// fetch for that code at that resolution — independent of the timers — the
/// encoding it carries decodes back to the same resolution, and the binding
/// sticks for later history refreshes.
pub proof fn lemma_set_resolution_fetches_now(v: TaskView, code: String, scale: KLineScale)
    ensures
        ({
            let r = spec_step(v, TaskEvent::Command(StockCammnd::StockKLine(code, scale)));
            &&& r.1 == seq![
                TaskActionView::FetchKlines(code@, scale.spec_to_usize(), 100),
            ]
            &&& KLineScale::spec_from_usize(scale.spec_to_usize()) == scale
            &&& scale_or_default(r.0.scales, code@) == scale
        }),
{
    crate::stock::lemma_scale_round_trip(scale);
}

} // verus!
