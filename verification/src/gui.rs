//! The user interface as a state machine: what each control does to the settings,
//! to the band strip and to the selection.

use crate::audio::{SharedState, CONSOLE_BANDS, MAX_BANDS, NUM_BARS};
use crate::audio;
use crate::audio::StateView;
use crate::bits;
use crate::config::{
    ConfigValues, Settings, CONSOLE_DB_MAX, CONSOLE_DB_MIN, DB_HIGHEST, DB_LOWEST,
    DEFAULT_VOL_MAX, DEFAULT_VOL_MIN,
};
use crate::config;
use crate::devices;
use vstd::prelude::*;

verus! {

/// What the running engine plays.
#[derive(Clone, Copy, PartialEq, Eq, Structural, Debug)]
pub enum EngineKind {
    /// A file.
    File,
    /// The captured input.
    Live,
}

/// The user interface as a mathematical value.
#[verifier::ext_equal]
pub struct AppView {
    pub state: StateView,
    pub engine: Option<EngineKind>,
    pub audio_status: Seq<char>,
    pub selected: Option<usize>,
    pub paused: bool,
    pub show_settings: bool,
    pub settings: Settings,
    pub volume_gain: u32,
    pub seek_drag: bool,
    pub seek_pos: u32,
    pub saved_db_min: u32,
    pub saved_db_max: u32,
    pub device_message: Option<Seq<char>>,
    pub selected_output: Option<Seq<char>>,
    pub selected_input: Option<Seq<char>>,
    pub show_device_selection: bool,
    pub available_outputs: Seq<Seq<char>>,
    pub available_inputs: Seq<Seq<char>>,
    pub vis_levels: Seq<u32>,
    pub vis_peaks: Seq<u32>,
}

/// The user interface. Numbers are bit patterns.
pub struct EqApp {
    pub state: SharedState,
    pub engine: Option<EngineKind>,
    pub audio_status: String,
    pub selected: Option<usize>,
    pub paused: bool,
    pub show_settings: bool,
    pub settings: Settings,
    /// Current master volume.
    pub volume_gain: u32,
    /// The user is dragging the seek scrubber.
    pub seek_drag: bool,
    /// Scrubber value in seconds while dragging.
    pub seek_pos: u32,
    /// Plot range restored when console mode is switched off.
    pub saved_db_min: u32,
    pub saved_db_max: u32,
    /// The message of the device window while devices are being picked.
    pub device_message: Option<String>,
    pub selected_output: Option<String>,
    pub selected_input: Option<String>,
    pub show_device_selection: bool,
    pub available_outputs: Vec<String>,
    pub available_inputs: Vec<String>,
    /// Displayed height of each analyzer bar.
    pub vis_levels: Vec<u32>,
    /// Peak-hold line of each analyzer bar.
    pub vis_peaks: Vec<u32>,
}

impl View for EqApp {
    type V = AppView;

    open spec fn view(&self) -> AppView {
        AppView {
            state: self.state@,
            engine: self.engine,
            audio_status: self.audio_status@,
            selected: self.selected,
            paused: self.paused,
            show_settings: self.show_settings,
            settings: self.settings,
            volume_gain: self.volume_gain,
            seek_drag: self.seek_drag,
            seek_pos: self.seek_pos,
            saved_db_min: self.saved_db_min,
            saved_db_max: self.saved_db_max,
            device_message: config::text_view(self.device_message),
            selected_output: config::text_view(self.selected_output),
            selected_input: config::text_view(self.selected_input),
            show_device_selection: self.show_device_selection,
            available_outputs: devices::texts(self.available_outputs@),
            available_inputs: devices::texts(self.available_inputs@),
            vis_levels: self.vis_levels@,
            vis_peaks: self.vis_peaks@,
        }
    }
}

/// The selection, unless it names a band past the first `n`.
pub open spec fn selection_below(selected: Option<usize>, n: int) -> Option<usize> {
    match selected {
        Some(i) => if i < n {
            selected
        } else {
            None
        },
        None => None,
    }
}

impl AppView {
    /// The strip and the displays have their sizes, and the selection names a slot.
    pub open spec fn wf(self) -> bool {
        &&& self.state.wf()
        &&& self.selected matches Some(i) ==> i < MAX_BANDS
        &&& self.vis_levels.len() == NUM_BARS
        &&& self.vis_peaks.len() == NUM_BARS
    }

    /// A user interface that was just opened, before any setting was loaded.
    pub open spec fn opened(
        state: StateView,
        engine: Option<EngineKind>,
        status: Seq<char>,
    ) -> AppView {
        AppView {
            state,
            engine,
            audio_status: status,
            selected: None,
            paused: false,
            show_settings: false,
            settings: Settings::initial(),
            volume_gain: bits::ONE,
            seek_drag: false,
            seek_pos: bits::ZERO,
            saved_db_min: DB_LOWEST,
            saved_db_max: DB_HIGHEST,
            device_message: None,
            selected_output: None,
            selected_input: None,
            show_device_selection: false,
            available_outputs: Seq::empty(),
            available_inputs: Seq::empty(),
            vis_levels: Seq::new(NUM_BARS as nat, |i: int| bits::ZERO),
            vis_peaks: Seq::new(NUM_BARS as nat, |i: int| bits::ZERO),
        }
    }

    /// Whether the graph has a range: one of its ends at least is a number.
    pub open spec fn has_range(self) -> bool {
        !bits::nan(self.settings.db_min) || !bits::nan(self.settings.db_max)
    }

    /// The lower end of the graph.
    pub open spec fn gain_low(self) -> u32 {
        bits::smaller(self.settings.db_min, self.settings.db_max)
    }

    /// The upper end of the graph.
    pub open spec fn gain_high(self) -> u32 {
        bits::larger(self.settings.db_max, self.settings.db_min)
    }

    /// Every active band's gain moved into the graph.
    pub open spec fn with_gains_on_graph(self) -> AppView {
        AppView { state: self.state.with_gains_in(self.gain_low(), self.gain_high()), ..self }
    }

    /// The stored values taken over.
    pub open spec fn with_values(self, v: ConfigValues) -> AppView {
        AppView {
            settings: self.settings.with_values(v),
            state: match v.num_bands {
                Some(n) => self.state.with_band_count(n as int),
                None => self.state,
            },
            ..self
        }
    }

    /// The loaded settings put into effect.
    pub open spec fn with_settings_in_effect(self, vol_floor: u32) -> AppView {
        let settings = self.settings.settled(vol_floor);
        AppView {
            settings,
            state: if settings.console_mode {
                self.state.in_console_mode(true)
            } else {
                self.state
            },
            ..self
        }.with_gains_on_graph()
    }

    /// Console mode switched on or off.
    pub open spec fn with_console_mode(self, on: bool) -> AppView {
        if on == self.settings.console_mode {
            self
        } else if on {
            AppView {
                settings: Settings {
                    console_mode: true,
                    db_min: CONSOLE_DB_MIN,
                    db_max: CONSOLE_DB_MAX,
                    ..self.settings
                },
                saved_db_min: self.settings.db_min,
                saved_db_max: self.settings.db_max,
                state: self.state.in_console_mode(true),
                selected: selection_below(self.selected, CONSOLE_BANDS as int),
                ..self
            }.with_gains_on_graph()
        } else {
            AppView {
                settings: Settings {
                    console_mode: false,
                    db_min: self.saved_db_min,
                    db_max: self.saved_db_max,
                    ..self.settings
                },
                state: self.state.in_console_mode(false),
                selected: None,
                ..self
            }.with_gains_on_graph()
        }
    }

    /// The strip flattened: the console strip in console mode, the classic one
    /// otherwise.
    pub open spec fn flattened(self) -> AppView {
        AppView {
            state: if self.settings.console_mode {
                self.state.in_console_mode(true)
            } else {
                self.state.flat()
            },
            ..self
        }
    }

    /// The last band dropped and the rest spread over `slots`.
    pub open spec fn with_band_removed(self, slots: Seq<u32>) -> AppView {
        let state = self.state.with_band_removed().spread_over(slots);
        AppView { state, selected: selection_below(self.selected, state.band_count), ..self }
    }

    /// One more band, and all of them spread over `slots`.
    pub open spec fn with_band_added(self, slots: Seq<u32>) -> AppView {
        AppView { state: self.state.with_band_added().spread_over(slots), ..self }
    }

    /// Another floor of the graph.
    pub open spec fn with_floor(self, v: u32) -> AppView {
        AppView {
            settings: Settings { db_min: v, ..self.settings },
            ..self
        }.with_gains_on_graph()
    }

    /// Another roof of the graph.
    pub open spec fn with_roof(self, v: u32) -> AppView {
        AppView {
            settings: Settings { db_max: v, ..self.settings },
            ..self
        }.with_gains_on_graph()
    }

    /// The settings of a first run, but for the tile style and the mode; in console
    /// mode the console strip and range.
    pub open spec fn with_settings_reset(self) -> AppView {
        AppView {
            settings: Settings {
                console_mode: self.settings.console_mode,
                knob_ui: self.settings.knob_ui,
                db_min: if self.settings.console_mode {
                    CONSOLE_DB_MIN
                } else {
                    DB_LOWEST
                },
                db_max: if self.settings.console_mode {
                    CONSOLE_DB_MAX
                } else {
                    DB_HIGHEST
                },
                ..Settings::initial()
            },
            state: if self.settings.console_mode {
                self.state.in_console_mode(true)
            } else {
                self.state
            },
            ..self
        }.with_gains_on_graph()
    }
}

/// Where one end of the graph is a number, its ends are in order.
proof fn lemma_graph_ends(a: AppView)
    requires
        a.has_range(),
    ensures
        bits::le(a.gain_low(), a.gain_high()),
{
}

impl EqApp {
    pub open spec fn wf(&self) -> bool {
        self@.wf()
    }

    /// Opens the user interface, with no setting loaded yet.
    pub fn new(state: SharedState, engine: Option<EngineKind>, status: String) -> (r: Self)
        requires
            state.wf(),
        ensures
            r@ == AppView::opened(state@, engine, status@),
            r.wf(),
    {
        let r = EqApp {
            state,
            engine,
            audio_status: status,
            selected: None,
            paused: false,
            show_settings: false,
            settings: Settings::new(),
            volume_gain: bits::ONE,
            seek_drag: false,
            seek_pos: bits::ZERO,
            saved_db_min: DB_LOWEST,
            saved_db_max: DB_HIGHEST,
            device_message: None,
            selected_output: None,
            selected_input: None,
            show_device_selection: false,
            available_outputs: Vec::new(),
            available_inputs: Vec::new(),
            vis_levels: empty_bars(),
            vis_peaks: empty_bars(),
        };
        proof {
            assert(r@ =~= AppView::opened(state@, engine, status@));
        }
        r
    }

    /// Moves every band's gain into the graph so that dots cannot sit outside it
    /// after a settings change.
    pub fn clamp_gains(&mut self)
        requires
            old(self).wf(),
            old(self)@.has_range(),
        ensures
            final(self)@ == old(self)@.with_gains_on_graph(),
            final(self).wf(),
    {
        proof {
            lemma_graph_ends(self@);
        }
        let lo: u32 = bits::min_of(self.settings.db_min, self.settings.db_max);
        let hi: u32 = bits::max_of(self.settings.db_max, self.settings.db_min);
        self.state.clamp_gains(lo, hi);
    }

    /// Takes the values of a settings file over.
    pub fn load_settings(&mut self, v: &ConfigValues)
        requires
            old(self).wf(),
        ensures
            final(self)@ == old(self)@.with_values(*v),
            final(self).wf(),
    {
        self.settings.apply_values(v);
        if let Some(n) = v.num_bands {
            self.state.set_band_count(n as usize);
        }
    }

    /// Puts loaded settings into effect. `vol_floor` is the lowest end that the
    /// volume fader may have.
    pub fn finish_load(&mut self, vol_floor: u32)
        requires
            old(self).wf(),
            old(self)@.settings.console_mode || old(self)@.has_range(),
        ensures
            final(self)@ == old(self)@.with_settings_in_effect(vol_floor),
            final(self).wf(),
    {
        self.settings.settle(vol_floor);
        if self.settings.console_mode {
            self.state.apply_console_mode(true);
        }
        self.clamp_gains();
    }

    /// Switches console mode. Says whether that changed anything.
    pub fn set_console_mode(&mut self, on: bool) -> (changed: bool)
        requires
            old(self).wf(),
            !on && old(self)@.settings.console_mode ==> !bits::nan(old(self)@.saved_db_min)
                || !bits::nan(old(self)@.saved_db_max),
        ensures
            changed == (on != old(self)@.settings.console_mode),
            final(self)@ == old(self)@.with_console_mode(on),
            final(self).wf(),
    {
        if on == self.settings.console_mode {
            return false;
        }
        self.settings.console_mode = on;
        if on {
            self.saved_db_min = self.settings.db_min;
            self.saved_db_max = self.settings.db_max;
            self.settings.db_min = CONSOLE_DB_MIN;
            self.settings.db_max = CONSOLE_DB_MAX;
            self.state.apply_console_mode(true);
            self.keep_selection_below(CONSOLE_BANDS);
        } else {
            self.settings.db_min = self.saved_db_min;
            self.settings.db_max = self.saved_db_max;
            self.state.apply_console_mode(false);
            self.selected = None;
        }
        self.clamp_gains();
        true
    }

    /// Drops the selection where it names a band past the first `n`.
    fn keep_selection_below(&mut self, n: usize)
        ensures
            final(self)@ == (AppView {
                selected: selection_below(old(self)@.selected, n as int),
                ..old(self)@
            }),
    {
        if let Some(i) = self.selected {
            if i >= n {
                self.selected = None;
            }
        }
    }

    /// How many slot frequencies `remove_band` needs.
    pub fn slots_after_removal(&self) -> (r: usize)
        requires
            self.wf(),
        ensures
            r == self@.state.with_band_removed().band_count,
    {
        let n: usize = self.state.num_bands();
        if n > 1 {
            n - 1
        } else {
            n
        }
    }

    /// How many slot frequencies `add_band` needs.
    pub fn slots_after_addition(&self) -> (r: usize)
        requires
            self.wf(),
        ensures
            r == self@.state.with_band_added().band_count,
    {
        let n: usize = self.state.num_bands();
        if n < MAX_BANDS {
            n + 1
        } else {
            n
        }
    }

    /// Removes the last band and spreads the rest over the slot frequencies.
    pub fn remove_band(&mut self, slots: &Vec<u32>)
        requires
            old(self).wf(),
            !old(self)@.settings.console_mode,
            old(self)@.state.with_band_removed().sortable(),
            slots@.len() == old(self)@.state.with_band_removed().band_count,
        ensures
            final(self)@ == old(self)@.with_band_removed(slots@),
            final(self).wf(),
    {
        self.state.remove_band();
        self.state.evenly_spread_bands(slots);
        let n: usize = self.state.num_bands();
        self.keep_selection_below(n);
    }

    /// Adds a band and spreads all of them over the slot frequencies.
    pub fn add_band(&mut self, slots: &Vec<u32>)
        requires
            old(self).wf(),
            !old(self)@.settings.console_mode,
            old(self)@.state.with_band_added().sortable(),
            slots@.len() == old(self)@.state.with_band_added().band_count,
        ensures
            final(self)@ == old(self)@.with_band_added(slots@),
            final(self).wf(),
    {
        self.state.add_band();
        self.state.evenly_spread_bands(slots);
    }

    /// Moves the floor of the graph.
    pub fn set_floor(&mut self, v: u32)
        requires
            old(self).wf(),
            !old(self)@.settings.console_mode,
            !bits::nan(v) || !bits::nan(old(self)@.settings.db_max),
        ensures
            final(self)@ == old(self)@.with_floor(v),
            final(self).wf(),
    {
        self.settings.db_min = v;
        self.clamp_gains();
    }

    /// Moves the roof of the graph.
    pub fn set_roof(&mut self, v: u32)
        requires
            old(self).wf(),
            !old(self)@.settings.console_mode,
            !bits::nan(v) || !bits::nan(old(self)@.settings.db_min),
        ensures
            final(self)@ == old(self)@.with_roof(v),
            final(self).wf(),
    {
        self.settings.db_max = v;
        self.clamp_gains();
    }

    /// Moves the start of the volume fader; its end stays at `floor` or above.
    pub fn set_vol_min(&mut self, v: u32, floor: u32)
        ensures
            final(self)@ == (AppView {
                settings: Settings {
                    vol_min: v,
                    vol_max: bits::larger(old(self)@.settings.vol_max, floor),
                    ..old(self)@.settings
                },
                ..old(self)@
            }),
    {
        self.settings.vol_min = v;
        self.settings.vol_max = bits::max_of(self.settings.vol_max, floor);
    }

    /// Moves the end of the volume fader, but not below `floor`.
    pub fn set_vol_max(&mut self, v: u32, floor: u32)
        ensures
            final(self)@ == (AppView {
                settings: Settings { vol_max: bits::larger(v, floor), ..old(self)@.settings },
                ..old(self)@
            }),
    {
        self.settings.vol_max = bits::max_of(v, floor);
    }

    /// Goes back to the settings of a first run. The mode and the tile style stay.
    pub fn reset_settings(&mut self)
        requires
            old(self).wf(),
        ensures
            final(self)@ == old(self)@.with_settings_reset(),
            final(self).wf(),
    {
        self.settings.theme_dark = true;
        self.settings.idle_anim = true;
        self.settings.peak_hold = true;
        self.settings.db_min = DB_LOWEST;
        self.settings.db_max = DB_HIGHEST;
        self.settings.vol_min = DEFAULT_VOL_MIN;
        self.settings.vol_max = DEFAULT_VOL_MAX;
        if self.settings.console_mode {
            self.settings.db_min = CONSOLE_DB_MIN;
            self.settings.db_max = CONSOLE_DB_MAX;
            self.state.apply_console_mode(true);
        }
        self.clamp_gains();
    }
}

/// What the user can do in the settings window. Numbers come as bit patterns;
/// `floor` is the lowest end that the volume fader may have, and a change of the
/// band count brings the slot frequencies for the new count.
pub enum SettingsChange {
    Theme { dark: bool },
    IdleAnimation { on: bool },
    PeakHold { on: bool },
    Console { on: bool },
    KnobTiles { on: bool },
    RemoveBand { slots: Vec<u32> },
    AddBand { slots: Vec<u32> },
    Floor { db: u32 },
    Roof { db: u32 },
    VolumeMin { volume: u32, floor: u32 },
    VolumeMax { volume: u32, floor: u32 },
    Reset,
}

impl AppView {
    /// Whether the settings window can do this now. Console mode locks the range of the
    /// graph and the number of bands.
    pub open spec fn allows(self, change: SettingsChange) -> bool {
        match change {
            SettingsChange::Console { on } => on || !self.settings.console_mode || !bits::nan(
                self.saved_db_min,
            ) || !bits::nan(self.saved_db_max),
            SettingsChange::RemoveBand { slots } => {
                &&& !self.settings.console_mode
                &&& self.state.with_band_removed().sortable()
                &&& slots@.len() == self.state.with_band_removed().band_count
            },
            SettingsChange::AddBand { slots } => {
                &&& !self.settings.console_mode
                &&& self.state.with_band_added().sortable()
                &&& slots@.len() == self.state.with_band_added().band_count
            },
            SettingsChange::Floor { db } => {
                &&& !self.settings.console_mode
                &&& !bits::nan(db) || !bits::nan(self.settings.db_max)
            },
            SettingsChange::Roof { db } => {
                &&& !self.settings.console_mode
                &&& !bits::nan(db) || !bits::nan(self.settings.db_min)
            },
            _ => true,
        }
    }

    /// The user interface after a change in the settings window.
    pub open spec fn after(self, change: SettingsChange) -> AppView {
        match change {
            SettingsChange::Theme { dark } => AppView {
                settings: Settings { theme_dark: dark, ..self.settings },
                ..self
            },
            SettingsChange::IdleAnimation { on } => AppView {
                settings: Settings { idle_anim: on, ..self.settings },
                ..self
            },
            SettingsChange::PeakHold { on } => AppView {
                settings: Settings { peak_hold: on, ..self.settings },
                ..self
            },
            SettingsChange::Console { on } => self.with_console_mode(on),
            SettingsChange::KnobTiles { on } => AppView {
                settings: Settings { knob_ui: on, ..self.settings },
                ..self
            },
            SettingsChange::RemoveBand { slots } => self.with_band_removed(slots@),
            SettingsChange::AddBand { slots } => self.with_band_added(slots@),
            SettingsChange::Floor { db } => self.with_floor(db),
            SettingsChange::Roof { db } => self.with_roof(db),
            SettingsChange::VolumeMin { volume, floor } => AppView {
                settings: Settings {
                    vol_min: volume,
                    vol_max: bits::larger(self.settings.vol_max, floor),
                    ..self.settings
                },
                ..self
            },
            SettingsChange::VolumeMax { volume, floor } => AppView {
                settings: Settings { vol_max: bits::larger(volume, floor), ..self.settings },
                ..self
            },
            SettingsChange::Reset => self.with_settings_reset(),
        }
    }

    /// The window's button that removes a band works outside console mode while
    /// there are more than two bands.
    pub open spec fn removes_in_window(self) -> bool {
        !self.settings.console_mode && self.state.band_count > 2
    }

    /// The window's button that adds a band works outside console mode while a slot
    /// is free.
    pub open spec fn adds_in_window(self) -> bool {
        !self.settings.console_mode && self.state.band_count < MAX_BANDS
    }
}

impl EqApp {
    /// Makes a change in the settings window. The result says whether the settings
    /// have to be saved: always, but for a mode that was on already.
    pub fn apply_change(&mut self, change: &SettingsChange) -> (dirty: bool)
        requires
            old(self).wf(),
            old(self)@.allows(*change),
        ensures
            final(self)@ == old(self)@.after(*change),
            final(self).wf(),
            dirty == !(change matches SettingsChange::Console { on } && on == old(
                self,
            )@.settings.console_mode),
    {
        match change {
            SettingsChange::Theme { dark } => {
                self.settings.theme_dark = *dark;
            },
            SettingsChange::IdleAnimation { on } => {
                self.settings.idle_anim = *on;
            },
            SettingsChange::PeakHold { on } => {
                self.settings.peak_hold = *on;
            },
            SettingsChange::Console { on } => {
                return self.set_console_mode(*on);
            },
            SettingsChange::KnobTiles { on } => {
                self.settings.knob_ui = *on;
            },
            SettingsChange::RemoveBand { slots } => {
                self.remove_band(slots);
            },
            SettingsChange::AddBand { slots } => {
                self.add_band(slots);
            },
            SettingsChange::Floor { db } => {
                self.set_floor(*db);
            },
            SettingsChange::Roof { db } => {
                self.set_roof(*db);
            },
            SettingsChange::VolumeMin { volume, floor } => {
                self.set_vol_min(*volume, *floor);
            },
            SettingsChange::VolumeMax { volume, floor } => {
                self.set_vol_max(*volume, *floor);
            },
            SettingsChange::Reset => {
                self.reset_settings();
            },
        }
        true
    }

    /// Whether the settings window lets the user remove a band.
    pub fn can_remove_band(&self) -> (r: bool)
        ensures
            r == self@.removes_in_window(),
    {
        !self.settings.console_mode && self.state.num_bands() > 2
    }

    /// Whether the settings window lets the user add a band.
    pub fn can_add_band(&self) -> (r: bool)
        ensures
            r == self@.adds_in_window(),
    {
        !self.settings.console_mode && self.state.num_bands() < MAX_BANDS
    }

    /// Whether bands can be added and removed, their shapes changed and the range of the
    /// graph moved. Console mode locks all of it.
    pub fn can_edit_strip(&self) -> (r: bool)
        ensures
            r == !self@.settings.console_mode,
    {
        !self.settings.console_mode
    }

    /// Opens the settings window, or closes it.
    pub fn toggle_settings(&mut self)
        ensures
            final(self)@ == (AppView { show_settings: !old(self)@.show_settings, ..old(self)@ }),
    {
        self.show_settings = !self.show_settings;
    }

    /// Closes the settings window.
    pub fn close_settings(&mut self)
        ensures
            final(self)@ == (AppView { show_settings: false, ..old(self)@ }),
    {
        self.show_settings = false;
    }

    /// Flattens the strip: the console strip in console mode, the classic one
    /// otherwise.
    pub fn flatten(&mut self)
        requires
            old(self).wf(),
        ensures
            final(self)@ == old(self)@.flattened(),
            final(self).wf(),
    {
        if self.settings.console_mode {
            self.state.apply_console_mode(true);
        } else {
            self.state.flatten();
        }
    }

    /// Pauses a running engine, or lets it go on. Gives the new state.
    pub fn toggle_pause(&mut self) -> (paused: bool)
        ensures
            paused == !old(self)@.paused,
            final(self)@ == (AppView { paused: !old(self)@.paused, ..old(self)@ }),
    {
        self.paused = !self.paused;
        self.paused
    }

    /// Stops the engine.
    pub fn stop_audio(&mut self)
        ensures
            final(self)@ == (AppView {
                paused: false,
                engine: None,
                state: old(self)@.state.with_transport(0),
                seek_drag: false,
                audio_status: "audio: disabled"@,
                ..old(self)@
            }),
    {
        self.paused = false;
        self.engine = None;
        self.state.reset_transport();
        self.seek_drag = false;
        self.audio_status = "audio: disabled".to_owned();
    }

    /// Opens the device window with the devices that were found.
    pub fn start_audio(&mut self, outputs: &Vec<String>, inputs: &Vec<String>)
        ensures
            final(self)@.show_device_selection,
            final(self)@.device_message == Some(Seq::<char>::empty()),
            devices::in_order(final(self)@.available_outputs),
            devices::in_order(final(self)@.available_inputs),
            forall|t: Seq<char>| #[trigger]
                final(self)@.available_outputs.contains(t) <==> devices::texts(outputs@).contains(
                    t,
                ),
            forall|t: Seq<char>| #[trigger]
                final(self)@.available_inputs.contains(t) <==> devices::texts(inputs@).contains(t),
            final(self)@ == (AppView {
                show_device_selection: true,
                device_message: final(self)@.device_message,
                available_outputs: final(self)@.available_outputs,
                available_inputs: final(self)@.available_inputs,
                ..old(self)@
            }),
    {
        self.show_device_selection = true;
        self.device_message = Some(String::new());
        self.available_outputs = devices::sorted_names(outputs);
        self.available_inputs = devices::sorted_names(inputs);
    }

    /// Whether the device window is shown. It closes where no devices are being
    /// picked.
    pub fn device_window_open(&mut self) -> (open: bool)
        ensures
            open == (old(self)@.show_device_selection && old(self)@.device_message is Some),
            final(self)@ == (AppView { show_device_selection: open, ..old(self)@ }),
    {
        if self.show_device_selection && self.device_message.is_none() {
            self.show_device_selection = false;
        }
        self.show_device_selection
    }

    /// Picks one of the output devices.
    pub fn pick_output(&mut self, i: usize)
        requires
            i < old(self)@.available_outputs.len(),
        ensures
            final(self)@ == (AppView {
                selected_output: Some(old(self)@.available_outputs[i as int]),
                ..old(self)@
            }),
    {
        self.selected_output = Some(self.available_outputs[i].clone());
    }

    /// Picks one of the input devices, or none.
    pub fn pick_input(&mut self, i: Option<usize>)
        requires
            i matches Some(k) ==> k < old(self)@.available_inputs.len(),
        ensures
            final(self)@ == (AppView {
                selected_input: match i {
                    Some(k) => Some(old(self)@.available_inputs[k as int]),
                    None => None,
                },
                ..old(self)@
            }),
    {
        self.selected_input = match i {
            Some(k) => Some(self.available_inputs[k].clone()),
            None => None,
        };
    }

    /// The live engine runs: the device window closes.
    pub fn engine_started(&mut self)
        ensures
            final(self)@ == (AppView {
                engine: Some(EngineKind::Live),
                audio_status: "audio: running"@,
                device_message: None,
                show_device_selection: false,
                ..old(self)@
            }),
    {
        self.engine = Some(EngineKind::Live);
        self.audio_status = "audio: running".to_owned();
        self.device_message = None;
        self.show_device_selection = false;
    }

    /// The live engine could not be started: the device window stays open and
    /// keeps the reason.
    pub fn engine_refused(&mut self, reason: &str)
        requires
            old(self)@.device_message is Some,
        ensures
            final(self)@ == (AppView {
                device_message: Some("audio: unavailable ("@ + reason@ + ")"@),
                ..old(self)@
            }),
    {
        let mut message = "audio: unavailable (".to_owned();
        message.append(reason);
        message.append(")");
        self.device_message = Some(message);
    }

    /// The user chose to load a file from the device window, which closes.
    pub fn leave_device_window(&mut self)
        ensures
            final(self)@ == (AppView {
                device_message: None,
                show_device_selection: false,
                ..old(self)@
            }),
    {
        self.device_message = None;
        self.show_device_selection = false;
    }

    /// A file plays now.
    pub fn file_started(&mut self, path: &str)
        ensures
            final(self)@ == (AppView {
                engine: Some(EngineKind::File),
                audio_status: "playing: "@ + path@,
                show_device_selection: false,
                ..old(self)@
            }),
    {
        self.engine = Some(EngineKind::File);
        let mut status = "playing: ".to_owned();
        status.append(path);
        self.audio_status = status;
        self.show_device_selection = false;
    }

    /// A file could not be played.
    pub fn file_refused(&mut self, reason: &str)
        ensures
            final(self)@ == (AppView { audio_status: "file error: "@ + reason@, ..old(self)@ }),
    {
        let mut status = "file error: ".to_owned();
        status.append(reason);
        self.audio_status = status;
    }
}

fn empty_bars() -> (r: Vec<u32>)
    ensures
        r@ == Seq::new(NUM_BARS as nat, |i: int| bits::ZERO),
{
    let mut bars: Vec<u32> = Vec::new();
    let mut i: usize = 0;
    while i < NUM_BARS
        invariant
            i <= NUM_BARS,
            bars@.len() == i,
            forall|k: int| 0 <= k < i ==> #[trigger] bars@[k] == bits::ZERO,
        decreases NUM_BARS - i,
    {
        bars.push(bits::ZERO);
        i = i + 1;
    }
    bars
}

/// Entering console mode locks the graph to its range and the strip to the five
/// console bands, all of them flat; the range from before is kept in mind.
pub proof fn law_console_mode_locks_the_desk(a: AppView, i: int)
    requires
        a.wf(),
        !a.settings.console_mode,
        0 <= i < CONSOLE_BANDS,
    ensures
        a.with_console_mode(true).settings.db_min == CONSOLE_DB_MIN,
        a.with_console_mode(true).settings.db_max == CONSOLE_DB_MAX,
        a.with_console_mode(true).state.band_count == CONSOLE_BANDS,
        a.with_console_mode(true).state.bands[i] == audio::flat_band(audio::console_spot(i), true),
        a.with_console_mode(true).saved_db_min == a.settings.db_min,
        a.with_console_mode(true).saved_db_max == a.settings.db_max,
{
    config::lemma_limits();
}

/// Leaving console mode gives the range from before it back and drops the selection;
/// every other setting is as it was. Where that range holds 0 dB the strip is the
/// starting strip.
pub proof fn law_console_mode_gives_the_range_back(a: AppView)
    requires
        a.wf(),
        !a.settings.console_mode,
    ensures
        a.with_console_mode(true).with_console_mode(false).settings == a.settings,
        a.with_console_mode(true).with_console_mode(false).selected is None,
        bits::le(a.settings.db_min, bits::ZERO) && bits::le(bits::ZERO, a.settings.db_max)
            ==> a.with_console_mode(true).with_console_mode(false).state == a.state.flat(),
{
    let back = a.with_console_mode(true).with_console_mode(false);
    if bits::le(a.settings.db_min, bits::ZERO) && bits::le(bits::ZERO, a.settings.db_max) {
        assert(back.state.bands =~= a.state.flat().bands);
    }
}

/// While the mode is on or off already, switching it changes nothing.
pub proof fn law_switching_to_the_present_mode_does_nothing(a: AppView)
    ensures
        a.with_console_mode(a.settings.console_mode) == a,
{
}

/// Moving gains into the graph puts every active band's gain on it.
proof fn lemma_moved_gain_is_on_graph(x: AppView, i: int)
    requires
        x.wf(),
        x.has_range(),
        0 <= i < x.state.band_count,
    ensures
        on_graph(x.with_gains_on_graph(), x.with_gains_on_graph().state.bands[i].gain_db),
{
    lemma_graph_ends(x);
    let g = x.state.bands[i].gain_db;
    let moved = bits::clamped(g, x.gain_low(), x.gain_high());
    assert(x.with_gains_on_graph().state.bands[i].gain_db == moved);
}

/// Where every active band's gain lies on the graph, and the graph holds 0 dB, it
/// is still so after whatever is changed in the settings window.
pub proof fn law_gains_stay_on_the_graph(a: AppView, change: SettingsChange, i: int)
    requires
        a.wf(),
        a.allows(change),
        bits::le(a.gain_low(), bits::ZERO),
        bits::le(bits::ZERO, a.gain_high()),
        forall|j: int|
            0 <= j < a.state.band_count ==> on_graph(a, (#[trigger] a.state.bands[j]).gain_db),
        0 <= i < a.after(change).state.band_count,
    ensures
        on_graph(a.after(change), a.after(change).state.bands[i].gain_db),
{
    let b = a.after(change);
    match change {
        SettingsChange::Console { on } => {
            if on == a.settings.console_mode {
                assert(on_graph(a, a.state.bands[i].gain_db));
            } else if on {
                config::lemma_limits();
                let x = AppView {
                    settings: Settings {
                        console_mode: true,
                        db_min: CONSOLE_DB_MIN,
                        db_max: CONSOLE_DB_MAX,
                        ..a.settings
                    },
                    saved_db_min: a.settings.db_min,
                    saved_db_max: a.settings.db_max,
                    state: a.state.in_console_mode(true),
                    selected: selection_below(a.selected, CONSOLE_BANDS as int),
                    ..a
                };
                lemma_moved_gain_is_on_graph(x, i);
            } else {
                let x = AppView {
                    settings: Settings {
                        console_mode: false,
                        db_min: a.saved_db_min,
                        db_max: a.saved_db_max,
                        ..a.settings
                    },
                    state: a.state.in_console_mode(false),
                    selected: None,
                    ..a
                };
                lemma_moved_gain_is_on_graph(x, i);
            }
        },
        SettingsChange::RemoveBand { slots } => {
            assert(b.state.bands[i].gain_db == a.state.bands[i].gain_db);
            assert(on_graph(a, a.state.bands[i].gain_db));
        },
        SettingsChange::AddBand { slots } => {
            if i < a.state.band_count {
                assert(b.state.bands[i].gain_db == a.state.bands[i].gain_db);
                assert(on_graph(a, a.state.bands[i].gain_db));
            } else {
                assert(b.state.bands[i].gain_db == bits::ZERO || i < a.state.band_count);
            }
        },
        SettingsChange::Floor { db } => {
            let x = AppView { settings: Settings { db_min: db, ..a.settings }, ..a };
            lemma_moved_gain_is_on_graph(x, i);
        },
        SettingsChange::Roof { db } => {
            let x = AppView { settings: Settings { db_max: db, ..a.settings }, ..a };
            lemma_moved_gain_is_on_graph(x, i);
        },
        SettingsChange::Reset => {
            config::lemma_limits();
            let x = AppView {
                settings: b.settings,
                state: if a.settings.console_mode {
                    a.state.in_console_mode(true)
                } else {
                    a.state
                },
                ..a
            };
            assert(b == x.with_gains_on_graph());
            lemma_moved_gain_is_on_graph(x, i);
        },
        _ => {
            assert(on_graph(a, a.state.bands[i].gain_db));
        },
    }
}

/// Whether a gain lies between the ends of the graph, or is no number.
pub open spec fn on_graph(a: AppView, gain: u32) -> bool {
    bits::nan(gain) || (bits::le(a.gain_low(), gain) && bits::le(gain, a.gain_high()))
}

/// After a band was removed and after entering console mode the selection names an
/// active band or nothing; leaving console mode drops it.
pub proof fn law_selection_names_an_active_band(a: AppView, slots: Seq<u32>)
    requires
        a.wf(),
        !a.settings.console_mode,
    ensures
        a.with_band_removed(slots).selected matches Some(i) ==> i < a.with_band_removed(
            slots,
        ).state.band_count,
        a.with_console_mode(true).selected matches Some(i) ==> i < a.with_console_mode(
            true,
        ).state.band_count,
        (AppView { settings: Settings { console_mode: true, ..a.settings }, ..a }).with_console_mode(
            false,
        ).selected is None,
{
}

/// Settings within their limits that were saved together with the band count come
/// back, over whatever the next run starts with. In console mode the strip is the
/// console's.
pub proof fn law_next_run_finds_the_settings(a: AppView, next: AppView, vol_floor: u32)
    requires
        a.wf(),
        next.wf(),
        a.state.band_count >= 1,
        a.settings.in_limits(),
        !bits::lt(a.settings.vol_max, vol_floor),
        a.settings.console_mode ==> {
            &&& a.settings.db_min == CONSOLE_DB_MIN
            &&& a.settings.db_max == CONSOLE_DB_MAX
            &&& a.state.band_count == CONSOLE_BANDS
        },
    ensures
        next.with_values(a.settings.as_values(a.state.band_count as u32)).with_settings_in_effect(
            vol_floor,
        ).settings == a.settings,
        next.with_values(a.settings.as_values(a.state.band_count as u32)).with_settings_in_effect(
            vol_floor,
        ).state.band_count == a.state.band_count,
{
    config::law_saved_settings_load_back(
        a.settings,
        next.settings,
        a.state.band_count as u32,
        vol_floor,
    );
}

/// The text that was saved gives the next run the settings and the band count back:
/// every switch, and every level and volume bit for bit. `read` is how a level is read
/// from its text, and the text of each level must read as that level.
pub proof fn law_saved_file_gives_the_settings_back(
    a: AppView,
    next: AppView,
    vol_floor: u32,
    db_min: Seq<char>,
    db_max: Seq<char>,
    vol_min: Seq<char>,
    vol_max: Seq<char>,
    read: spec_fn(Seq<char>) -> Option<u32>,
)
    requires
        a.wf(),
        next.wf(),
        a.state.band_count >= 1,
        a.settings.in_limits(),
        !bits::lt(a.settings.vol_max, vol_floor),
        a.settings.console_mode ==> {
            &&& a.settings.db_min == CONSOLE_DB_MIN
            &&& a.settings.db_max == CONSOLE_DB_MAX
            &&& a.state.band_count == CONSOLE_BANDS
        },
        config::plain_value(db_min) && read(db_min) == Some(a.settings.db_min),
        config::plain_value(db_max) && read(db_max) == Some(a.settings.db_max),
        config::plain_value(vol_min) && read(vol_min) == Some(a.settings.vol_min),
        config::plain_value(vol_max) && read(vol_max) == Some(a.settings.vol_max),
    ensures
        ({
            let text = config::file_text(
                a.settings,
                db_min,
                db_max,
                vol_min,
                vol_max,
                a.state.band_count as nat,
            );
            let loaded = next.with_values(config::stored(text).values(read)).with_settings_in_effect(
                vol_floor,
            );
            &&& loaded.settings == a.settings
            &&& loaded.state.band_count == a.state.band_count
        }),
{
    config::law_config_reads_back(
        a.settings,
        db_min,
        db_max,
        vol_min,
        vol_max,
        a.state.band_count as nat,
    );
    law_next_run_finds_the_settings(a, next, vol_floor);
}

/// Changes within the limits of the sliders leave every setting within its limits.
pub proof fn law_settings_stay_in_limits(a: AppView, change: SettingsChange)
    requires
        a.settings.in_limits(),
        bits::le(DB_LOWEST, a.saved_db_min) && bits::le(a.saved_db_min, bits::ZERO),
        bits::le(bits::ZERO, a.saved_db_max) && bits::le(a.saved_db_max, DB_HIGHEST),
        change matches SettingsChange::Floor { db } ==> bits::le(DB_LOWEST, db) && bits::le(
            db,
            bits::ZERO,
        ),
        change matches SettingsChange::Roof { db } ==> bits::le(bits::ZERO, db) && bits::le(
            db,
            DB_HIGHEST,
        ),
        change matches SettingsChange::VolumeMin { volume, floor } ==> bits::le(
            config::VOL_LOWEST,
            volume,
        ) && bits::le(volume, bits::ONE) && bits::le(floor, config::VOL_HIGHEST),
        change matches SettingsChange::VolumeMax { volume, floor } ==> bits::le(bits::ONE, volume)
            && bits::le(volume, config::VOL_HIGHEST) && bits::le(floor, config::VOL_HIGHEST),
    ensures
        a.after(change).settings.in_limits(),
        bits::le(DB_LOWEST, a.after(change).saved_db_min),
        bits::le(a.after(change).saved_db_min, bits::ZERO),
        bits::le(bits::ZERO, a.after(change).saved_db_max),
        bits::le(a.after(change).saved_db_max, DB_HIGHEST),
{
    config::lemma_limits();
}

/// A user interface that was just opened has every setting within its limits and
/// shows the graph from its lowest floor to its highest roof.
pub proof fn law_first_run_is_in_limits(s: StateView, status: Seq<char>)
    requires
        s.wf(),
    ensures
        AppView::opened(s, None, status).wf(),
        AppView::opened(s, None, status).settings.in_limits(),
        AppView::opened(s, None, status).has_range(),
{
    config::lemma_limits();
}

/// A selection among the first `n` bands stays, and any other is dropped.
pub proof fn law_selection_is_kept_or_dropped(selected: Option<usize>, n: int)
    ensures
        selected is Some && selected->0 < n ==> selection_below(selected, n) == selected,
        selected is Some && selected->0 >= n ==> selection_below(selected, n) is None,
        selected is None ==> selection_below(selected, n) is None,
{
}

/// The user interface opens on the strip, the engine and the status it is given, with
/// nothing selected, dragged, paused or shown, no device known or picked, unity volume and
/// every bar at rest. The range that leaving console mode gives back is the full one.
pub proof fn law_first_view(
    state: StateView,
    engine: Option<EngineKind>,
    status: Seq<char>,
    i: int,
)
    requires
        0 <= i < NUM_BARS,
    ensures
        ({
            let a = AppView::opened(state, engine, status);
            &&& a.state == state && a.engine == engine && a.audio_status == status
            &&& a.selected is None && !a.paused && !a.show_settings
            &&& a.settings == Settings::initial()
            &&& a.volume_gain == 0x3f80_0000
            &&& !a.seek_drag && a.seek_pos == 0
            &&& a.saved_db_min == a.settings.db_min && a.saved_db_max == a.settings.db_max
            &&& a.device_message is None && !a.show_device_selection
            &&& a.selected_output is None && a.selected_input is None
            &&& a.available_outputs.len() == 0 && a.available_inputs.len() == 0
            &&& a.vis_levels.len() == 32 && a.vis_peaks.len() == 32
            &&& a.vis_levels[i] == 0 && a.vis_peaks[i] == 0
        }),
{
}

/// The graph lies between its two ends, whichever of them is lower; an end that is no
/// number gives way to the other.
pub proof fn law_graph_lies_between_its_ends(a: AppView)
    ensures
        bits::lt(a.settings.db_min, a.settings.db_max) ==> a.gain_low() == a.settings.db_min
            && a.gain_high() == a.settings.db_max,
        bits::lt(a.settings.db_max, a.settings.db_min) ==> a.gain_low() == a.settings.db_max
            && a.gain_high() == a.settings.db_min,
        bits::le(a.settings.db_min, a.settings.db_max) ==> a.gain_low() == a.settings.db_min
            && a.gain_high() == a.settings.db_max,
        bits::nan(a.settings.db_min) && !bits::nan(a.settings.db_max) ==> a.gain_low()
            == a.settings.db_max && a.gain_high() == a.settings.db_max,
        bits::nan(a.settings.db_max) && !bits::nan(a.settings.db_min) ==> a.gain_low()
            == a.settings.db_min && a.gain_high() == a.settings.db_min,
{
}

/// The band `is` that the band `was` becomes when it is moved into the graph of `a`: a gain
/// on the graph stays bit for bit, one below it goes to its lower end and one above it to
/// its upper end, and nothing else moves.
pub open spec fn moved_into_graph(a: AppView, was: audio::BandParams, is: audio::BandParams) -> bool {
    let g = bits::value(was.gain_db);
    let number = !bits::nan(was.gain_db);
    &&& is.freq_hz == was.freq_hz && is.q == was.q
    &&& is.kind == was.kind && is.enabled == was.enabled
    &&& !number ==> is.gain_db == was.gain_db
    &&& number && bits::value(a.gain_low()) <= g <= bits::value(a.gain_high()) ==> is.gain_db
        == was.gain_db
    &&& number && g < bits::value(a.gain_low()) ==> is.gain_db == a.gain_low()
    &&& number && g > bits::value(a.gain_high()) ==> is.gain_db == a.gain_high()
}

/// Moving the gains into the graph moves those of the active bands and nothing else.
pub proof fn law_gains_move_into_the_graph(a: AppView, i: int)
    requires
        a.wf(),
        a.has_range(),
        0 <= i < MAX_BANDS,
    ensures
        ({
            let b = a.with_gains_on_graph();
            &&& i < a.state.band_count ==> moved_into_graph(a, a.state.bands[i], b.state.bands[i])
            &&& i >= a.state.band_count ==> b.state.bands[i] == a.state.bands[i]
            &&& b.state.bands.len() == a.state.bands.len()
            &&& b == (AppView {
                state: StateView { bands: b.state.bands, ..a.state },
                ..a
            })
        }),
{
    lemma_graph_ends(a);
    audio::law_gains_move_only_into_range(a.state, a.gain_low(), a.gain_high(), i);
}

/// Moving an end of the graph sets that end alone and moves the gains of the active bands
/// into the new graph.
pub proof fn law_moved_ends_take_the_gains_along(a: AppView, db: u32, i: int)
    requires
        a.wf(),
        0 <= i < MAX_BANDS,
        !bits::nan(db) || (!bits::nan(a.settings.db_min) && !bits::nan(a.settings.db_max)),
    ensures
        ({
            let b = a.with_floor(db);
            &&& b.settings == (Settings { db_min: db, ..a.settings })
            &&& i < a.state.band_count ==> moved_into_graph(b, a.state.bands[i], b.state.bands[i])
            &&& i >= a.state.band_count ==> b.state.bands[i] == a.state.bands[i]
            &&& b == (AppView {
                settings: b.settings,
                state: StateView { bands: b.state.bands, ..a.state },
                ..a
            })
        }),
        ({
            let b = a.with_roof(db);
            &&& b.settings == (Settings { db_max: db, ..a.settings })
            &&& i < a.state.band_count ==> moved_into_graph(b, a.state.bands[i], b.state.bands[i])
            &&& i >= a.state.band_count ==> b.state.bands[i] == a.state.bands[i]
            &&& b == (AppView {
                settings: b.settings,
                state: StateView { bands: b.state.bands, ..a.state },
                ..a
            })
        }),
{
    let x = AppView { settings: Settings { db_min: db, ..a.settings }, ..a };
    let y = AppView { settings: Settings { db_max: db, ..a.settings }, ..a };
    law_gains_move_into_the_graph(x, i);
    law_gains_move_into_the_graph(y, i);
}

/// A settings file changes the settings, and the band count where it has one; nothing else
/// of the user interface moves, and no band loses its numbers or its shape.
pub proof fn law_loading_touches_settings_and_count(a: AppView, v: ConfigValues, i: int)
    requires
        a.wf(),
        0 <= i < MAX_BANDS,
    ensures
        ({
            let b = a.with_values(v);
            let was = a.state.bands[i];
            let is = b.state.bands[i];
            &&& b == (AppView { settings: b.settings, state: b.state, ..a })
            &&& b.settings == a.settings.with_values(v)
            &&& v.num_bands is None ==> b.state == a.state
            &&& v.num_bands matches Some(n) ==> {
                &&& n <= 1 ==> b.state.band_count == 1
                &&& 1 <= n <= 256 ==> b.state.band_count == n
                &&& n >= 256 ==> b.state.band_count == 256
                &&& is.freq_hz == was.freq_hz && is.gain_db == was.gain_db
                &&& is.q == was.q && is.kind == was.kind
                &&& is.enabled <==> i < b.state.band_count
                &&& b.state == (StateView {
                    bands: b.state.bands,
                    band_count: b.state.band_count,
                    ..a.state
                })
            }
        }),
{
    if let Some(n) = v.num_bands {
        audio::law_band_count_is_restored(a.state, n as int);
        audio::law_restored_count_keeps_the_bands(a.state, n as int, i);
    }
}

/// Loaded settings take effect on the settings and the strip alone. Outside console mode
/// the active bands are moved into the graph; in console mode the strip is the desk's.
pub proof fn law_settings_take_effect(a: AppView, vol_floor: u32, i: int)
    requires
        a.wf(),
        0 <= i < MAX_BANDS,
        a.settings.console_mode || a.has_range(),
    ensures
        ({
            let b = a.with_settings_in_effect(vol_floor);
            &&& b == (AppView { settings: b.settings, state: b.state, ..a })
            &&& b.settings == a.settings.settled(vol_floor)
            &&& !a.settings.console_mode ==> {
                &&& i < a.state.band_count ==> moved_into_graph(
                    b,
                    a.state.bands[i],
                    b.state.bands[i],
                )
                &&& i >= a.state.band_count ==> b.state.bands[i] == a.state.bands[i]
                &&& b.state == (StateView { bands: b.state.bands, ..a.state })
            }
            &&& a.settings.console_mode ==> b.state == a.state.in_console_mode(true)
        }),
{
    config::lemma_limits();
    let settings = a.settings.settled(vol_floor);
    let x = AppView {
        settings,
        state: if settings.console_mode {
            a.state.in_console_mode(true)
        } else {
            a.state
        },
        ..a
    };
    law_gains_move_into_the_graph(x, i);
    if a.settings.console_mode {
        lemma_desk_strip_is_on_the_graph(x, a);
    }
}

/// The strip of console mode lies on the desk's graph, so that moving gains changes nothing.
proof fn lemma_desk_strip_is_on_the_graph(x: AppView, a: AppView)
    requires
        a.wf(),
        x.state == a.state.in_console_mode(true),
        x.settings.db_min == CONSOLE_DB_MIN,
        x.settings.db_max == CONSOLE_DB_MAX,
    ensures
        x.with_gains_on_graph().state == x.state,
{
    config::lemma_limits();
    let b = x.with_gains_on_graph();
    assert forall|i: int| 0 <= i < MAX_BANDS implies #[trigger] b.state.bands[i]
        == x.state.bands[i] by {
        audio::law_flat_and_console_strips(a.state, i);
        audio::law_gains_move_only_into_range(x.state, x.gain_low(), x.gain_high(), i);
    }
    assert(b.state.bands =~= x.state.bands);
}

/// Entering console mode changes the mode, the range, the strip and what is kept of the
/// range; a selection among the desk's five bands stays and any other is dropped.
pub proof fn law_entering_console_mode(a: AppView)
    requires
        a.wf(),
        !a.settings.console_mode,
    ensures
        ({
            let b = a.with_console_mode(true);
            &&& b == (AppView {
                settings: b.settings,
                saved_db_min: b.saved_db_min,
                saved_db_max: b.saved_db_max,
                state: b.state,
                selected: b.selected,
                ..a
            })
            &&& b.settings == (Settings {
                console_mode: true,
                db_min: b.settings.db_min,
                db_max: b.settings.db_max,
                ..a.settings
            })
            &&& bits::value(b.settings.db_min) == -bits::units(15)
            &&& bits::value(b.settings.db_max) == bits::units(15)
            &&& b.saved_db_min == a.settings.db_min
            &&& b.saved_db_max == a.settings.db_max
            &&& b.state == a.state.in_console_mode(true)
            &&& a.selected is Some && a.selected->0 < 5 ==> b.selected == a.selected
            &&& a.selected is None || a.selected->0 >= 5 ==> b.selected is None
        }),
{
    config::law_levels_and_volumes();
    let x = AppView {
        settings: Settings {
            console_mode: true,
            db_min: CONSOLE_DB_MIN,
            db_max: CONSOLE_DB_MAX,
            ..a.settings
        },
        saved_db_min: a.settings.db_min,
        saved_db_max: a.settings.db_max,
        state: a.state.in_console_mode(true),
        selected: selection_below(a.selected, CONSOLE_BANDS as int),
        ..a
    };
    lemma_desk_strip_is_on_the_graph(x, a);
}

/// Leaving console mode changes the mode, the range, the strip and the selection: the range
/// that was kept is back, and still kept, nothing is selected, and the strip is the starting
/// strip moved into the graph.
pub proof fn law_leaving_console_mode(a: AppView, i: int)
    requires
        a.wf(),
        a.settings.console_mode,
        !bits::nan(a.saved_db_min) || !bits::nan(a.saved_db_max),
        0 <= i < MAX_BANDS,
    ensures
        ({
            let b = a.with_console_mode(false);
            &&& b == (AppView { settings: b.settings, state: b.state, selected: None, ..a })
            &&& b.settings == (Settings {
                console_mode: false,
                db_min: a.saved_db_min,
                db_max: a.saved_db_max,
                ..a.settings
            })
            &&& b.state.band_count == 6
            &&& i < 6 ==> moved_into_graph(b, a.state.flat().bands[i], b.state.bands[i])
            &&& i >= 6 ==> b.state.bands[i] == a.state.flat().bands[i]
            &&& b.state == (StateView { bands: b.state.bands, band_count: 6, ..a.state })
        }),
{
    let x = AppView {
        settings: Settings {
            console_mode: false,
            db_min: a.saved_db_min,
            db_max: a.saved_db_max,
            ..a.settings
        },
        state: a.state.in_console_mode(false),
        selected: None,
        ..a
    };
    audio::law_flat_and_console_strips(a.state, i);
    law_gains_move_into_the_graph(x, i);
}

/// Flattening changes the strip alone: to the desk's in console mode and to the starting
/// strip otherwise.
pub proof fn law_flattening_changes_the_strip(a: AppView)
    ensures
        a.flattened() == (AppView { state: a.flattened().state, ..a }),
        a.settings.console_mode ==> a.flattened().state == a.state.in_console_mode(true),
        !a.settings.console_mode ==> a.flattened().state == a.state.flat(),
{
}

/// Removing a band takes one from the count, down to one band; adding one adds one to it,
/// up to 256. No band that is still there changes but for its frequency, which is one of
/// the slots; a selection of a band that is gone is dropped, and nothing else moves.
pub proof fn law_removing_and_adding_bands(a: AppView, fewer: Seq<u32>, more: Seq<u32>, i: int)
    requires
        a.wf(),
        fewer.len() == a.state.with_band_removed().band_count,
        more.len() == a.state.with_band_added().band_count,
        0 <= i < MAX_BANDS,
    ensures
        ({
            let b = a.with_band_removed(fewer);
            let was = a.state.bands[i];
            let is = b.state.bands[i];
            let n = b.state.band_count;
            &&& a.state.band_count > 1 ==> n == a.state.band_count - 1
            &&& a.state.band_count <= 1 ==> n == a.state.band_count
            &&& is.gain_db == was.gain_db && is.q == was.q
            &&& is.kind == was.kind && is.enabled == was.enabled
            &&& i < n ==> fewer.contains(is.freq_hz)
            &&& i >= n ==> is == was
            &&& a.selected is Some && a.selected->0 < n ==> b.selected == a.selected
            &&& a.selected is None || a.selected->0 >= n ==> b.selected is None
            &&& b == (AppView { state: b.state, selected: b.selected, ..a })
            &&& b.state == (StateView { bands: b.state.bands, band_count: n, ..a.state })
        }),
        ({
            let b = a.with_band_added(more);
            let was = a.state.bands[i];
            let is = b.state.bands[i];
            let n = b.state.band_count;
            &&& a.state.band_count < 256 ==> n == a.state.band_count + 1
            &&& a.state.band_count == 256 ==> n == 256
            &&& i != a.state.band_count ==> is.gain_db == was.gain_db && is.q == was.q && is.kind
                == was.kind && is.enabled == was.enabled
            &&& i == a.state.band_count ==> bits::value(is.gain_db) == 0 && bits::value(is.q)
                == bits::units(1) && is.enabled
            &&& i < n ==> more.contains(is.freq_hz)
            &&& i >= n ==> is == was
            &&& b == (AppView { state: b.state, ..a })
            &&& b.state == (StateView { bands: b.state.bands, band_count: n, ..a.state })
        }),
{
    audio::law_adding_and_removing_touch_one_band(a.state, i);
    let r = a.state.with_band_removed();
    let s = a.state.with_band_added();
    if r.band_count > 0 {
        let k = if i < r.band_count {
            i
        } else {
            0
        };
        audio::law_spread_hands_out_the_slots(r, fewer, k, k);
    }
    let l = if i < s.band_count {
        i
    } else {
        0
    };
    audio::law_spread_hands_out_the_slots(s, more, l, l);
}

/// Resetting gives the theme, the animation, the caps, the range and the fader back that a
/// first run has, in console mode with the desk's range and strip; the mode and the tile
/// style stay, and so does everything but the settings and the strip.
pub proof fn law_reset_keeps_mode_and_tiles(a: AppView, i: int)
    requires
        a.wf(),
        0 <= i < MAX_BANDS,
    ensures
        ({
            let b = a.with_settings_reset();
            let first = Settings::initial();
            &&& b == (AppView { settings: b.settings, state: b.state, ..a })
            &&& b.settings.console_mode == a.settings.console_mode
            &&& b.settings.knob_ui == a.settings.knob_ui
            &&& b.settings.theme_dark == first.theme_dark
            &&& b.settings.idle_anim == first.idle_anim
            &&& b.settings.peak_hold == first.peak_hold
            &&& b.settings.vol_min == first.vol_min
            &&& b.settings.vol_max == first.vol_max
            &&& !a.settings.console_mode ==> {
                &&& b.settings.db_min == first.db_min
                &&& b.settings.db_max == first.db_max
                &&& i < a.state.band_count ==> moved_into_graph(
                    b,
                    a.state.bands[i],
                    b.state.bands[i],
                )
                &&& i >= a.state.band_count ==> b.state.bands[i] == a.state.bands[i]
                &&& b.state == (StateView { bands: b.state.bands, ..a.state })
            }
            &&& a.settings.console_mode ==> {
                &&& bits::value(b.settings.db_min) == -bits::units(15)
                &&& bits::value(b.settings.db_max) == bits::units(15)
                &&& b.state == a.state.in_console_mode(true)
            }
        }),
{
    config::law_levels_and_volumes();
    config::lemma_limits();
    let x = AppView {
        settings: a.with_settings_reset().settings,
        state: if a.settings.console_mode {
            a.state.in_console_mode(true)
        } else {
            a.state
        },
        ..a
    };
    assert(a.with_settings_reset() == x.with_gains_on_graph());
    law_gains_move_into_the_graph(x, i);
    if a.settings.console_mode {
        lemma_desk_strip_is_on_the_graph(x, a);
    }
}

/// Each switch of the settings window sets its own setting and nothing else.
pub proof fn law_switches_set_one_setting(a: AppView, on: bool)
    ensures
        a.after(SettingsChange::Theme { dark: on }) == (AppView {
            settings: Settings {
                theme_dark: on,
                idle_anim: a.settings.idle_anim,
                peak_hold: a.settings.peak_hold,
                knob_ui: a.settings.knob_ui,
                ..a.settings
            },
            ..a
        }),
        a.after(SettingsChange::IdleAnimation { on }) == (AppView {
            settings: Settings {
                theme_dark: a.settings.theme_dark,
                idle_anim: on,
                peak_hold: a.settings.peak_hold,
                knob_ui: a.settings.knob_ui,
                ..a.settings
            },
            ..a
        }),
        a.after(SettingsChange::PeakHold { on }) == (AppView {
            settings: Settings {
                theme_dark: a.settings.theme_dark,
                idle_anim: a.settings.idle_anim,
                peak_hold: on,
                knob_ui: a.settings.knob_ui,
                ..a.settings
            },
            ..a
        }),
        a.after(SettingsChange::KnobTiles { on }) == (AppView {
            settings: Settings {
                theme_dark: a.settings.theme_dark,
                idle_anim: a.settings.idle_anim,
                peak_hold: a.settings.peak_hold,
                knob_ui: on,
                ..a.settings
            },
            ..a
        }),
{
}

/// The window hands each change on to what it is a change of.
pub proof fn law_window_hands_changes_on(a: AppView, on: bool, slots: Vec<u32>, db: u32)
    ensures
        a.after(SettingsChange::Console { on }) == a.with_console_mode(on),
        a.after(SettingsChange::RemoveBand { slots }) == a.with_band_removed(slots@),
        a.after(SettingsChange::AddBand { slots }) == a.with_band_added(slots@),
        a.after(SettingsChange::Floor { db }) == a.with_floor(db),
        a.after(SettingsChange::Roof { db }) == a.with_roof(db),
        a.after(SettingsChange::Reset) == a.with_settings_reset(),
{
}

/// The ends of the fader go where they are moved; its upper end stays at the floor or above
/// it, and where it is above already it stays bit for bit. What is no number gives way to
/// the other one. Nothing else changes.
pub proof fn law_fader_ends_go_where_they_are_moved(a: AppView, volume: u32, floor: u32)
    ensures
        ({
            let b = a.after(SettingsChange::VolumeMin { volume, floor });
            let end = a.settings.vol_max;
            &&& b.settings.vol_min == volume
            &&& bits::le(floor, end) ==> b.settings.vol_max == end
            &&& bits::lt(end, floor) ==> b.settings.vol_max == floor
            &&& bits::nan(end) ==> b.settings.vol_max == floor
            &&& bits::nan(floor) && !bits::nan(end) ==> b.settings.vol_max == end
            &&& b == (AppView {
                settings: Settings {
                    vol_min: b.settings.vol_min,
                    vol_max: b.settings.vol_max,
                    ..a.settings
                },
                ..a
            })
        }),
        ({
            let b = a.after(SettingsChange::VolumeMax { volume, floor });
            &&& bits::le(floor, volume) ==> b.settings.vol_max == volume
            &&& bits::lt(volume, floor) ==> b.settings.vol_max == floor
            &&& bits::nan(volume) ==> b.settings.vol_max == floor
            &&& bits::nan(floor) && !bits::nan(volume) ==> b.settings.vol_max == volume
            &&& b == (AppView {
                settings: Settings { vol_max: b.settings.vol_max, ..a.settings },
                ..a
            })
        }),
{
}

/// Outside console mode the window can move both ends of the graph to any number and go into
/// console mode, in it none of the two; switches, the fader and the reset always work. Its
/// buttons keep two bands at least and 256 at most, and are locked in console mode.
pub proof fn law_what_the_window_can_do(a: AppView, on: bool, db: u32, volume: u32, floor: u32)
    ensures
        a.allows(SettingsChange::Theme { dark: on }),
        a.allows(SettingsChange::IdleAnimation { on }),
        a.allows(SettingsChange::PeakHold { on }),
        a.allows(SettingsChange::KnobTiles { on }),
        a.allows(SettingsChange::VolumeMin { volume, floor }),
        a.allows(SettingsChange::VolumeMax { volume, floor }),
        a.allows(SettingsChange::Reset),
        a.allows(SettingsChange::Console { on: true }),
        !bits::nan(db) ==> (a.allows(SettingsChange::Floor { db }) <==> !a.settings.console_mode),
        !bits::nan(db) ==> (a.allows(SettingsChange::Roof { db }) <==> !a.settings.console_mode),
        a.settings.console_mode ==> !a.removes_in_window() && !a.adds_in_window(),
        !a.settings.console_mode ==> {
            &&& a.removes_in_window() <==> a.state.band_count >= 3
            &&& a.adds_in_window() <==> a.state.band_count <= 255
        },
{
}

} // verus!
