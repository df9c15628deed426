use vstd::prelude::*;
use crate::event::Event;
use crate::legend::{
    first_hit, hit_test, law_hit_test_takes_the_first_box_that_holds_the_cell, rect_holds, keybind_legend_width, keybind_table, legend_hitboxes, legend_layout,
    HitRect, LegendAction,
};
use crate::status::{ConnectedAp, FastStatus};
use crate::window::{
    law_trim_drops_a_stale_prefix, law_trim_keeps_the_newest, trimmed, Nanos, Sample, SampleWindow,
    DURATION_MAX_NANOS,
};

verus! {

/// The number of selectable widths of the rolling time window.
pub const WINDOW_PRESET_COUNT: usize = 4;

/// The width the window starts with, as an index into the presets.
pub const DEFAULT_WINDOW: usize = 1;

/// Nanoseconds in a second.
pub const NANOS_PER_SEC: u128 = 1_000_000_000;

/// The selectable widths of the rolling time window, in seconds: 10, 30, 60 and 120.
pub open spec fn preset_secs(idx: nat) -> u64 {
    if idx == 0 {
        10
    } else if idx == 1 {
        30
    } else if idx == 2 {
        60
    } else {
        120
    }
}

/// A preset width in nanoseconds.
pub open spec fn preset_nanos(idx: nat) -> Nanos {
    (preset_secs(idx) * NANOS_PER_SEC) as Nanos
}

/// The width of a preset, in seconds.
pub fn window_preset_secs(idx: usize) -> (r: u64)
    requires
        idx < WINDOW_PRESET_COUNT,
    ensures
        r == preset_secs(idx as nat),
{
    if idx == 0 {
        10
    } else if idx == 1 {
        30
    } else if idx == 2 {
        60
    } else {
        120
    }
}

/// A command for the fast sampler.
#[derive(Debug, Clone, Copy, PartialEq, Eq)]
pub enum FastCommand {
    Shutdown,
}

/// What the application state amounts to.
pub struct MonitorView {
    /// Whether the application is done.
    pub exit: bool,
    /// The samples on the chart, oldest first.
    pub samples: Seq<Sample>,
    /// The selected window width, as an index into the presets.
    pub window_idx: nat,
    /// The access point being sampled.
    pub target: Option<ConnectedAp>,
    /// The number of the target the samples belong to.
    pub generation: u64,
    /// What the fast sampler last reported.
    pub status: FastStatus,
    /// The clickable areas of the keybind legend as last drawn.
    pub hitboxes: Seq<(HitRect, LegendAction)>,
}

/// The state the application starts in: no target, generation zero, not connected, the
/// default window width, no samples and no legend drawn yet.
pub open spec fn initial_view() -> MonitorView {
    MonitorView {
        exit: false,
        samples: Seq::empty(),
        window_idx: DEFAULT_WINDOW as nat,
        target: None,
        generation: 0,
        status: FastStatus::NotConnected,
        hitboxes: Seq::empty(),
    }
}

/// The state with the next window width selected (after the last comes the first again) and
/// the samples trimmed to it at once.
pub open spec fn cycled(v: MonitorView) -> MonitorView {
    let idx = ((v.window_idx + 1) % (WINDOW_PRESET_COUNT as nat)) as nat;
    MonitorView { window_idx: idx, samples: trimmed(v.samples, preset_nanos(idx)), ..v }
}

/// The state after quitting, and the command that stops the sampler.
pub open spec fn quitted(v: MonitorView) -> (MonitorView, Option<FastCommand>) {
    (MonitorView { exit: true, ..v }, Some(FastCommand::Shutdown))
}

/// What a click at `(x, y)` does: the action of the first legend entry that holds the cell,
/// and nothing where there is none.
pub open spec fn clicked(v: MonitorView, x: u16, y: u16) -> (MonitorView, Option<FastCommand>) {
    match first_hit(v.hitboxes, x, y) {
        Some(LegendAction::Quit) => quitted(v),
        Some(LegendAction::CycleWindow) => (cycled(v), None),
        None => (v, None),
    }
}

/// What an event does to the state, at `now` since the application started, and the command
/// for the sampler it calls for. A new target restarts the series; a sample lands only when
/// it was taken for the current target, so a sample still in flight from a previous target
/// never reaches the new series.
pub open spec fn after_event(v: MonitorView, e: Event, now: Nanos) -> (MonitorView, Option<FastCommand>) {
    match e {
        Event::Quit => quitted(v),
        Event::Tick => (v, None),
        Event::FastTarget { target, generation } => (
            MonitorView { generation, target, samples: Seq::empty(), ..v },
            None,
        ),
        Event::FastSample { generation, dbm } => if generation == v.generation {
            (
                MonitorView {
                    samples: trimmed(v.samples.push((now, dbm)), preset_nanos(v.window_idx)),
                    ..v
                },
                None,
            )
        } else {
            (v, None)
        },
        Event::FastStatus(status) => (MonitorView { status, ..v }, None),
        Event::CycleWindow => (cycled(v), None),
        Event::Click { x, y } => clicked(v, x, y),
    }
}

/// The text that names a target: `"{ssid} [{mac}]"`, or `"no network connected"`.
pub open spec fn target_text(target: Option<ConnectedAp>) -> Seq<char> {
    match target {
        Some(ap) => ap.ssid@ + " ["@ + ap.mac@ + "]"@,
        None => "no network connected"@,
    }
}

/// The decisions of the application: what each event does to the chart and the status, and
/// which command goes to the sampler. Reading events, the clock and the terminal, and drawing,
/// are the caller's.
#[derive(Debug)]
pub struct AppState {
    exit: bool,
    samples: SampleWindow,
    window_idx: usize,
    fast_target: Option<ConnectedAp>,
    generation: u64,
    fast_status: FastStatus,
    legend_hitboxes: Vec<(HitRect, LegendAction)>,
}

impl View for AppState {
    type V = MonitorView;

    closed spec fn view(&self) -> MonitorView {
        MonitorView {
            exit: self.exit,
            samples: self.samples@,
            window_idx: self.window_idx as nat,
            target: self.fast_target,
            generation: self.generation,
            status: self.fast_status,
            hitboxes: self.legend_hitboxes@,
        }
    }
}

impl AppState {
    /// The width of the sample window, in nanoseconds.
    pub closed spec fn window_span(&self) -> Nanos {
        self.samples.span()
    }

    /// The selected preset exists and the sample window has its width. Every state the
    /// library makes is well formed, and every call keeps it so.
    pub open spec fn wf(&self) -> bool {
        &&& self@.window_idx < WINDOW_PRESET_COUNT
        &&& self.window_span() == preset_nanos(self@.window_idx)
    }

    /// The state the application starts in.
    pub fn new() -> (r: Self)
        ensures
            r.wf(),
            r@ == initial_view(),
    {
        let secs = window_preset_secs(DEFAULT_WINDOW);
        AppState {
            exit: false,
            samples: SampleWindow::new(secs as u128 * NANOS_PER_SEC),
            window_idx: DEFAULT_WINDOW,
            fast_target: None,
            generation: 0,
            fast_status: FastStatus::NotConnected,
            legend_hitboxes: Vec::new(),
        }
    }

    /// Reacts to an event that arrives at `now` since the application started.
    pub fn handle_event(&mut self, event: Event, now: Nanos) -> (r: Option<FastCommand>)
        requires
            old(self).wf(),
            now <= DURATION_MAX_NANOS,
        ensures
            final(self).wf(),
            (final(self)@, r) == after_event(old(self)@, event, now),
    {
        match event {
            Event::Quit => {
                self.exit = true;
                Some(FastCommand::Shutdown)
            },
            Event::Tick => None,
            Event::FastTarget { target, generation } => {
                self.generation = generation;
                self.fast_target = target;
                self.samples.clear();
                None
            },
            Event::FastSample { generation, dbm } => {
                if generation == self.generation {
                    self.samples.push(now, dbm);
                }
                None
            },
            Event::FastStatus(status) => {
                self.fast_status = status;
                None
            },
            Event::CycleWindow => {
                self.cycle_window();
                None
            },
            Event::Click { x, y } => self.handle_click(x, y),
        }
    }

    /// Selects the next window width and trims the samples to it at once.
    pub fn cycle_window(&mut self)
        requires
            old(self).wf(),
        ensures
            final(self).wf(),
            final(self)@ == cycled(old(self)@),
    {
        self.window_idx = (self.window_idx + 1) % WINDOW_PRESET_COUNT;
        let secs = window_preset_secs(self.window_idx);
        self.samples.set_window(secs as u128 * NANOS_PER_SEC);
    }

    /// Performs the action of the legend entry clicked at `(x, y)`, if any.
    pub fn handle_click(&mut self, x: u16, y: u16) -> (r: Option<FastCommand>)
        requires
            old(self).wf(),
        ensures
            final(self).wf(),
            (final(self)@, r) == clicked(old(self)@, x, y),
    {
        match hit_test(&self.legend_hitboxes, x, y) {
            Some(LegendAction::Quit) => {
                self.exit = true;
                Some(FastCommand::Shutdown)
            },
            Some(LegendAction::CycleWindow) => {
                self.cycle_window();
                None
            },
            None => None,
        }
    }

    /// Records where the keybind legend is drawn, from column `x` on row `y`; the layout can
    /// change on every draw since the terminal can be resized.
    pub fn layout_legend(&mut self, x: u16, y: u16)
        requires
            old(self).wf(),
            x + keybind_legend_width() <= u16::MAX,
        ensures
            final(self).wf(),
            final(self)@ == (MonitorView {
                hitboxes: legend_layout(x as int, y, keybind_table()),
                ..old(self)@
            }),
    {
        self.legend_hitboxes = legend_hitboxes(x, y);
    }

    /// Whether the application is done.
    pub fn should_exit(&self) -> (r: bool)
        ensures
            r == self@.exit,
    {
        self.exit
    }

    /// The samples on the chart.
    pub fn samples(&self) -> (r: &SampleWindow)
        requires
            self.wf(),
        ensures
            r@ == self@.samples,
            r.span() == preset_nanos(self@.window_idx),
    {
        &self.samples
    }

    /// The selected window width, in seconds.
    pub fn window_secs(&self) -> (r: u64)
        requires
            self.wf(),
        ensures
            r == preset_secs(self@.window_idx),
    {
        window_preset_secs(self.window_idx)
    }

    /// The access point being sampled.
    pub fn fast_target(&self) -> (r: &Option<ConnectedAp>)
        ensures
            *r == self@.target,
    {
        &self.fast_target
    }

    /// What the fast sampler last reported.
    pub fn fast_status(&self) -> (r: &FastStatus)
        ensures
            *r == self@.status,
    {
        &self.fast_status
    }

    /// The number of the target the samples belong to.
    pub fn generation(&self) -> (r: u64)
        ensures
            r == self@.generation,
    {
        self.generation
    }

    /// The clickable areas of the keybind legend as last drawn.
    pub fn legend_hitboxes(&self) -> (r: &Vec<(HitRect, LegendAction)>)
        ensures
            r@ == self@.hitboxes,
    {
        &self.legend_hitboxes
    }

    /// The text that names the target, for the chart title and the status line.
    pub fn target_label(&self) -> (r: String)
        ensures
            r@ == target_text(self@.target),
    {
        match &self.fast_target {
            Some(ap) => {
                let mut s = ap.ssid.clone();
                s.append(" [");
                s.append(ap.mac.as_str());
                s.append("]");
                s
            },
            None => String::from_str("no network connected"),
        }
    }
}

/// Cycling the window width comes back to the width it started from after one pass over the
/// presets.
pub proof fn law_cycling_comes_back(v: MonitorView)
    requires
        v.window_idx < WINDOW_PRESET_COUNT,
    ensures
        cycled(cycled(cycled(cycled(v)))).window_idx == v.window_idx,
{
}

/// A new target restarts the series: whatever was on the chart, the application holds no
/// sample after a target change, and takes the announced generation number.
pub proof fn law_new_target_restarts_the_series(
    v: MonitorView,
    target: Option<ConnectedAp>,
    generation: u64,
    now: Nanos,
)
    ensures
        after_event(v, Event::FastTarget { target, generation }, now).0.samples.len() == 0,
        after_event(v, Event::FastTarget { target, generation }, now).0.generation == generation,
        after_event(v, Event::FastTarget { target, generation }, now).0.window_idx == v.window_idx,
{
}

/// A redraw tick changes nothing and sends no command.
pub proof fn law_tick_changes_nothing(v: MonitorView, now: Nanos)
    ensures
        after_event(v, Event::Tick, now) == (v, None::<FastCommand>),
{
}

/// What each event may change. Only a new target empties a series that has samples, and only a
/// sample, a window change (by key or by click) or a new target shortens it; only a quit (by
/// key or by click) ends the application or sends a command, and that command is `Shutdown`;
/// only a new target changes the target or its generation number; only a status changes the
/// status; and no event touches the legend's click areas.
pub proof fn law_what_each_event_changes(v: MonitorView, e: Event, now: Nanos)
    requires
        v.window_idx < WINDOW_PRESET_COUNT,
    ensures
        ({
            let (w, cmd) = after_event(v, e, now);
            &&& v.samples.len() > 0 && w.samples.len() == 0 ==> e is FastTarget
            &&& w.samples.len() < v.samples.len() ==> (e is FastSample || e is CycleWindow
                || e is Click || e is FastTarget)
            &&& (w.exit != v.exit || cmd is Some) ==> (e is Quit || e is Click)
            &&& cmd is Some ==> cmd == Some(FastCommand::Shutdown) && w.exit
            &&& e is Quit ==> w.exit && cmd == Some(FastCommand::Shutdown)
            &&& (w.target != v.target || w.generation != v.generation) ==> e is FastTarget
            &&& w.status != v.status ==> e is FastStatus
            &&& w.hitboxes == v.hitboxes
            &&& w.window_idx < WINDOW_PRESET_COUNT
            &&& w.window_idx != v.window_idx ==> (e is CycleWindow || e is Click)
        }),
{
    let nv = cycled(v);
    if v.samples.len() > 0 {
        law_trim_keeps_the_newest(v.samples, preset_nanos(nv.window_idx));
    }
    law_trim_keeps_the_newest(v.samples.push((now, 0)), 0);
    match e {
        Event::FastSample { generation, dbm } => {
            law_trim_keeps_the_newest(v.samples.push((now, dbm)), preset_nanos(v.window_idx));
            law_trim_drops_a_stale_prefix(v.samples.push((now, dbm)), preset_nanos(v.window_idx));
        },
        _ => {},
    }
}

/// A sample lands exactly when it carries the current generation number: then it becomes the
/// newest sample and nothing else changes but the series; otherwise nothing changes at all.
pub proof fn law_samples_land_only_for_the_current_target(
    v: MonitorView,
    generation: u64,
    dbm: i32,
    now: Nanos,
)
    ensures
        generation != v.generation ==> after_event(v, Event::FastSample { generation, dbm }, now)
            == (v, None::<FastCommand>),
        generation == v.generation ==> {
            let w = after_event(v, Event::FastSample { generation, dbm }, now).0;
            &&& w.samples.len() > 0
            &&& w.samples.last() == (now, dbm)
            &&& w.samples.len() <= v.samples.len() + 1
            &&& w == MonitorView { samples: w.samples, ..v }
        },
{
    law_trim_keeps_the_newest(v.samples.push((now, dbm)), preset_nanos(v.window_idx));
    law_trim_drops_a_stale_prefix(v.samples.push((now, dbm)), preset_nanos(v.window_idx));
}

/// Cycling steps through the presets from narrow to wide, 10, 30, 60 and 120 seconds, and from
/// the widest back to the narrowest; it changes the width and trims the series to it, and
/// nothing else.
pub proof fn law_cycling_widens_until_it_wraps(v: MonitorView)
    requires
        v.window_idx < WINDOW_PRESET_COUNT,
    ensures
        v.window_idx + 1 < WINDOW_PRESET_COUNT ==> preset_secs(cycled(v).window_idx) > preset_secs(
            v.window_idx,
        ),
        v.window_idx + 1 == WINDOW_PRESET_COUNT ==> preset_secs(cycled(v).window_idx) == 10,
        forall|i: nat| i < WINDOW_PRESET_COUNT ==> preset_secs(i) >= 10 && preset_secs(i) <= 120,
        cycled(v).window_idx < WINDOW_PRESET_COUNT,
        cycled(v) == (MonitorView {
            window_idx: cycled(v).window_idx,
            samples: trimmed(v.samples, preset_nanos(cycled(v).window_idx)),
            ..v
        }),
        preset_nanos(cycled(v).window_idx) == preset_secs(cycled(v).window_idx) * 1_000_000_000,
{
}

/// Clicking a legend entry does exactly what its key does, and a click that no entry holds
/// does nothing: a click on the first entry that holds the cell acts as that entry's key
/// would (quit or cycle the window), and elsewhere it leaves the state as it is.
pub proof fn law_clicking_an_entry_is_pressing_its_key(v: MonitorView, x: u16, y: u16, now: Nanos)
    ensures
        first_hit(v.hitboxes, x, y) == Some(LegendAction::Quit) ==> after_event(
            v,
            Event::Click { x, y },
            now,
        ) == after_event(v, Event::Quit, now),
        first_hit(v.hitboxes, x, y) == Some(LegendAction::CycleWindow) ==> after_event(
            v,
            Event::Click { x, y },
            now,
        ) == after_event(v, Event::CycleWindow, now),
        (forall|i: int| 0 <= i < v.hitboxes.len() ==> !rect_holds(#[trigger] v.hitboxes[i].0, x, y))
            ==> after_event(v, Event::Click { x, y }, now) == (v, None::<FastCommand>),
{
    law_hit_test_takes_the_first_box_that_holds_the_cell(v.hitboxes, x, y);
}

} // verus!
