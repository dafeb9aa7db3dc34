//! The welcome page: screen reader, magnifier and display scaling.
//!
//! The page is a state machine. `Page::update` takes a message and returns
//! the action that the surrounding program performs: a request to the
//! accessibility service or to the screen reader's D-Bus connection, or the
//! `cosmic-randr` commands that rescale the displays.

use vstd::prelude::*;
use std::sync::Arc;
use crate::decimal::{
    all_digits, decimal, digits_value, fixed_point, lemma_decimal_reads_back,
    lemma_fixed_point_reads_back, percent, pow10, reads_as_fixed, render_fixed_point, render_percent,
    u32_to_decimal,
};

verus! {

#[verifier::external_type_specification]
#[verifier::external_body]
pub struct ExIoError(std::io::Error);

// ---------------------------------------------------------------------------
// Displays

/// A display mode: its size in pixels and refresh rate in millihertz.
#[derive(Copy, Clone, Debug, PartialEq, Eq, Structural)]
pub struct DisplayMode {
    pub width: u32,
    pub height: u32,
    pub refresh_rate: u32,
}

/// A connected display: its connector name and, when it is on, the position
/// of its current mode in the list's modes.
#[derive(Clone, Debug)]
pub struct DisplayOutput {
    pub name: String,
    pub current: Option<usize>,
}

/// The displays and the modes they use, as `cosmic-randr` lists them.
#[derive(Clone, Debug)]
pub struct DisplayList {
    pub outputs: Vec<DisplayOutput>,
    pub modes: Vec<DisplayMode>,
}

/// A display as the page sees it: its name and current mode.
pub struct OutputView {
    pub name: Seq<char>,
    pub mode: Option<DisplayMode>,
}

/// The mode at `current`, if there is one.
pub open spec fn mode_at(modes: Seq<DisplayMode>, current: Option<usize>) -> Option<DisplayMode> {
    match current {
        Some(k) => if k < modes.len() { Some(modes[k as int]) } else { None },
        None => None,
    }
}

/// The output's current mode, if any, is among the first `count` modes.
pub open spec fn current_in_range(output: DisplayOutput, count: nat) -> bool {
    match output.current {
        Some(k) => k < count,
        None => true,
    }
}

/// Every output's current mode, if any, is among the first `count` modes.
pub open spec fn outputs_in_range(outputs: Seq<DisplayOutput>, count: nat) -> bool {
    forall|i: int| 0 <= i < outputs.len() ==> current_in_range(#[trigger] outputs[i], count)
}

impl View for DisplayList {
    type V = Seq<OutputView>;

    open spec fn view(&self) -> Seq<OutputView> {
        self.outputs@.map_values(
            |o: DisplayOutput| OutputView { name: o.name@, mode: mode_at(self.modes@, o.current) },
        )
    }
}

impl DisplayList {
    /// Every current mode of an output is one of the list's modes.
    pub open spec fn well_formed(&self) -> bool {
        outputs_in_range(self.outputs@, self.modes@.len())
    }

    /// A list without displays.
    pub fn empty() -> (res: Self)
        ensures
            res.well_formed(),
            res@ == Seq::<OutputView>::empty(),
            res.outputs@.len() == 0,
            res.modes@.len() == 0,
    {
        let res = DisplayList { outputs: Vec::new(), modes: Vec::new() };
        assert(res@ =~= Seq::<OutputView>::empty());
        res
    }

    /// Whether every current mode of an output is one of the list's modes.
    pub fn is_well_formed(&self) -> (res: bool)
        ensures
            res == self.well_formed(),
    {
        outputs_within(&self.outputs, self.modes.len())
    }

    /// The list of `outputs` and `modes`; `None` when an output's current
    /// mode is not one of `modes`.
    pub fn new(outputs: Vec<DisplayOutput>, modes: Vec<DisplayMode>) -> (res: Option<Self>)
        ensures
            res matches Some(list) ==> list.outputs == outputs && list.modes == modes
                && list.well_formed(),
            res is None ==> !outputs_in_range(outputs@, modes@.len()),
    {
        if outputs_within(&outputs, modes.len()) {
            Some(DisplayList { outputs, modes })
        } else {
            None
        }
    }
}

fn outputs_within(outputs: &Vec<DisplayOutput>, count: usize) -> (res: bool)
    ensures
        res == outputs_in_range(outputs@, count as nat),
{
    let mut i: usize = 0;
    while i < outputs.len()
        invariant
            i <= outputs@.len(),
            forall|j: int| 0 <= j < i ==> current_in_range(#[trigger] outputs@[j], count as nat),
        decreases outputs@.len() - i,
    {
        match outputs[i].current {
            Some(k) => {
                if k >= count {
                    assert(!current_in_range(outputs@[i as int], count as nat));
                    return false;
                }
            },
            None => {},
        }
        i = i + 1;
    }
    true
}

// ---------------------------------------------------------------------------
// Scaling

/// The scales offered, in percent: the option at position `i` of the page's
/// drop-down is `25 * i + 50`.
pub open spec fn dpi_scale(option: int) -> int {
    25 * option + 50
}

/// How many scales the drop-down offers.
pub const DPI_SCALE_COUNT: usize = 11;

/// The smaller of `adjust` and 20: the fine adjustment that is applied.
pub open spec fn capped_adjust(adjust: u32) -> int {
    if adjust < 20 { adjust as int } else { 20 }
}

/// The scale in percent for drop-down option `option` adjusted by `adjust`:
/// `25 * option + 50`, cut to 32 bits, plus the adjustment capped at 20.
pub open spec fn scale_percent(option: usize, adjust: u32) -> int {
    ((option * 25 + 50) as u32) + capped_adjust(adjust)
}

/// The scale can be computed without overflow.
pub open spec fn scale_fits(option: usize, adjust: u32) -> bool {
    &&& option * 25 + 50 <= usize::MAX
    &&& scale_percent(option, adjust) <= u32::MAX
}

/// A command to run.
#[derive(Clone, Debug)]
pub struct ScaleCommand {
    pub program: String,
    pub args: Vec<String>,
}

pub struct CommandView {
    pub program: Seq<char>,
    pub args: Seq<Seq<char>>,
}

pub open spec fn strings_view(s: Seq<String>) -> Seq<Seq<char>> {
    s.map_values(|a: String| a@)
}

impl View for ScaleCommand {
    type V = CommandView;

    open spec fn view(&self) -> CommandView {
        CommandView { program: self.program@, args: strings_view(self.args@) }
    }
}

pub open spec fn commands_view(s: Seq<ScaleCommand>) -> Seq<CommandView> {
    s.map_values(|c: ScaleCommand| c@)
}

/// The `cosmic-randr` command that sets display `name`, in `mode`, to
/// `scale` percent: the scale as a factor with two decimals, the refresh
/// rate in hertz with three decimals, then the name, width and height.
pub open spec fn scale_command(scale: nat, name: Seq<char>, mode: DisplayMode) -> CommandView {
    CommandView {
        program: "cosmic-randr"@,
        args: seq![
            "mode"@,
            "--scale"@,
            fixed_point(scale, 100, 2),
            "--refresh"@,
            fixed_point(mode.refresh_rate as nat, 1000, 3),
            name,
            decimal(mode.width as nat),
            decimal(mode.height as nat),
        ],
    }
}

/// One command per display that is on, in the order of the displays.
pub open spec fn scale_commands(outputs: Seq<OutputView>, scale: nat) -> Seq<CommandView>
    decreases outputs.len(),
{
    if outputs.len() == 0 {
        Seq::empty()
    } else {
        let before = scale_commands(outputs.drop_last(), scale);
        match outputs.last().mode {
            Some(mode) => before.push(scale_command(scale, outputs.last().name, mode)),
            None => before,
        }
    }
}

/// Some display is on.
pub open spec fn has_active_output(outputs: Seq<OutputView>) -> bool {
    exists|i: int| 0 <= i < outputs.len() && (#[trigger] outputs[i]).mode is Some
}

fn build_scale_command(scale: u32, name: &String, mode: DisplayMode) -> (res: ScaleCommand)
    ensures
        res@ == scale_command(scale as nat, name@, mode),
{
    let mut args: Vec<String> = Vec::new();
    args.push("mode".to_owned());
    args.push("--scale".to_owned());
    args.push(render_fixed_point(scale, 100, 2));
    args.push("--refresh".to_owned());
    args.push(render_fixed_point(mode.refresh_rate, 1000, 3));
    args.push(name.clone());
    args.push(u32_to_decimal(mode.width));
    args.push(u32_to_decimal(mode.height));
    let res = ScaleCommand { program: "cosmic-randr".to_owned(), args };
    assert(strings_view(res.args@) =~= scale_command(scale as nat, name@, mode).args);
    res
}

/// The scales of the drop-down, in percent.
pub fn dpi_scales() -> (res: Vec<u32>)
    ensures
        res@.len() == DPI_SCALE_COUNT,
        forall|i: int| 0 <= i < res@.len() ==> res@[i] == dpi_scale(i),
{
    let mut res: Vec<u32> = Vec::new();
    let mut i: u32 = 0;
    while i < 11
        invariant
            i <= 11,
            res@.len() == i,
            forall|j: int| 0 <= j < res@.len() ==> res@[j] == dpi_scale(j),
        decreases 11 - i,
    {
        res.push(25 * i + 50);
        i = i + 1;
    }
    res
}

/// The labels of the drop-down: each scale followed by a percent sign.
pub fn dpi_scale_labels() -> (res: Vec<String>)
    ensures
        res@.len() == DPI_SCALE_COUNT,
        forall|i: int| 0 <= i < res@.len() ==> res@[i]@ == percent(dpi_scale(i) as nat),
{
    let mut res: Vec<String> = Vec::new();
    let mut i: u32 = 0;
    while i < 11
        invariant
            i <= 11,
            res@.len() == i,
            forall|j: int| 0 <= j < res@.len() ==> res@[j]@ == percent(dpi_scale(j) as nat),
        decreases 11 - i,
    {
        res.push(render_percent(25 * i + 50));
        i = i + 1;
    }
    res
}

/// The label of the fine adjustment: the value followed by a percent sign.
pub fn adjustment_label(adjust: u32) -> (res: String)
    ensures
        res@ == percent(adjust as nat),
{
    render_percent(adjust)
}

// ---------------------------------------------------------------------------
// Messages and actions

/// What the accessibility service reports.
#[derive(Clone, Debug)]
pub enum AccessibilityEvent {
    /// The service is bound, with this protocol version.
    Bound(u32),
    /// The magnifier was switched on or off.
    Magnifier(bool),
    /// The screen filter changed.
    ScreenFilter { inverted: bool, filter_active: bool },
    /// The service closed.
    Closed,
}

/// What the screen reader's D-Bus connection reports.
#[derive(Clone, Debug)]
pub enum ScreenReaderUpdate {
    /// The connection failed, with this description.
    Error(String),
    /// The screen reader was switched on or off.
    Status(bool),
    /// The connection is up; the screen reader is on or off.
    Init(bool),
}

/// How a scaling command ended.
#[derive(Clone, Debug)]
pub enum ScaleAdjustResult {
    Success,
    FailureCode(Option<i32>),
    SpawnFailure(Arc<std::io::Error>),
}

/// What the welcome page handles.
#[derive(Clone, Debug)]
pub enum Message {
    /// An event of the accessibility service.
    A11yEvent(AccessibilityEvent),
    /// The user switched the magnifier on or off.
    MagnifierEnabled(bool),
    /// The user picked a scale of the drop-down.
    Scale(usize),
    /// The user changed the fine adjustment.
    ScaleAdjust(u32),
    /// A scaling command ended.
    ScaleAdjustResult(ScaleAdjustResult),
    /// An event of the screen reader's D-Bus connection.
    ScreenReaderDbus(ScreenReaderUpdate),
    /// The user switched the screen reader on or off.
    ScreenReaderEnabled(bool),
    /// A new list of displays; `None` when it could not be taken over.
    UpdateDisplayList(Option<Result<DisplayList, String>>),
}

/// What the program around the page has to do after a message.
#[derive(Debug)]
pub enum Action {
    Nothing,
    /// Ask the accessibility service to switch the magnifier on or off.
    SendMagnifier(bool),
    /// Ask the screen reader to switch on or off.
    SendScreenReaderStatus(bool),
    /// Keep the D-Bus connection that came with the message.
    ConnectScreenReader,
    /// Drop the D-Bus connection.
    DisconnectScreenReader,
    /// Run these commands, each on its own.
    RunCommands(Vec<ScaleCommand>),
}

pub enum ActionView {
    Nothing,
    SendMagnifier(bool),
    SendScreenReaderStatus(bool),
    ConnectScreenReader,
    DisconnectScreenReader,
    RunCommands(Seq<CommandView>),
}

impl View for Action {
    type V = ActionView;

    open spec fn view(&self) -> ActionView {
        match self {
            Action::Nothing => ActionView::Nothing,
            Action::SendMagnifier(b) => ActionView::SendMagnifier(*b),
            Action::SendScreenReaderStatus(b) => ActionView::SendScreenReaderStatus(*b),
            Action::ConnectScreenReader => ActionView::ConnectScreenReader,
            Action::DisconnectScreenReader => ActionView::DisconnectScreenReader,
            Action::RunCommands(c) => ActionView::RunCommands(commands_view(c@)),
        }
    }
}

// ---------------------------------------------------------------------------
// The page

/// The state of the welcome page.
pub struct PageView {
    pub magnifier_enabled: bool,
    pub reader_enabled: bool,
    pub interface_scale: usize,
    pub interface_adjusted_scale: u32,
    /// The accessibility service is connected.
    pub accessibility_connected: bool,
    /// The screen reader's D-Bus connection is held.
    pub screen_reader_connected: bool,
    pub outputs: Seq<OutputView>,
}

/// The state after picking scale `option` with adjustment `adjust`, and the
/// commands that apply it to every display that is on.
pub open spec fn set_scale_step(s: PageView, option: usize, adjust: u32) -> (PageView, ActionView) {
    (
        PageView { interface_scale: option, interface_adjusted_scale: adjust, ..s },
        ActionView::RunCommands(scale_commands(s.outputs, scale_percent(option, adjust) as nat)),
    )
}

/// How the page answers `message` in state `s`: its next state and the
/// action to perform.
pub open spec fn step(s: PageView, message: Message) -> (PageView, ActionView) {
    match message {
        Message::A11yEvent(AccessibilityEvent::Magnifier(on)) => (
            PageView { magnifier_enabled: on, ..s },
            ActionView::Nothing,
        ),
        Message::A11yEvent(_) => (s, ActionView::Nothing),
        Message::MagnifierEnabled(on) => (
            s,
            if s.accessibility_connected {
                ActionView::SendMagnifier(on)
            } else {
                ActionView::Nothing
            },
        ),
        Message::Scale(option) => set_scale_step(s, option, 0),
        Message::ScaleAdjust(adjust) => set_scale_step(s, s.interface_scale, adjust),
        Message::ScaleAdjustResult(_) => (s, ActionView::Nothing),
        Message::ScreenReaderEnabled(on) => if s.screen_reader_connected {
            (PageView { reader_enabled: on, ..s }, ActionView::SendScreenReaderStatus(on))
        } else {
            (PageView { reader_enabled: false, ..s }, ActionView::Nothing)
        },
        Message::ScreenReaderDbus(ScreenReaderUpdate::Error(_)) => (
            PageView { reader_enabled: false, screen_reader_connected: false, ..s },
            ActionView::DisconnectScreenReader,
        ),
        Message::ScreenReaderDbus(ScreenReaderUpdate::Status(on)) => (
            PageView { reader_enabled: on, ..s },
            ActionView::Nothing,
        ),
        Message::ScreenReaderDbus(ScreenReaderUpdate::Init(on)) => (
            PageView { reader_enabled: on, screen_reader_connected: true, ..s },
            ActionView::ConnectScreenReader,
        ),
        Message::UpdateDisplayList(Some(Ok(list))) => (
            PageView { outputs: list@, ..s },
            ActionView::Nothing,
        ),
        Message::UpdateDisplayList(_) => (s, ActionView::Nothing),
    }
}

/// The page can handle `message` in state `s`: a scale is computed without
/// overflow whenever a display is on, and a new display list is well formed.
pub open spec fn accepts(s: PageView, message: Message) -> bool {
    match message {
        Message::Scale(option) => has_active_output(s.outputs) ==> scale_fits(option, 0),
        Message::ScaleAdjust(adjust) => has_active_output(s.outputs) ==> scale_fits(
            s.interface_scale,
            adjust,
        ),
        Message::UpdateDisplayList(Some(Ok(list))) => list.well_formed(),
        _ => true,
    }
}

/// The state of the welcome page.
pub struct Page {
    list: DisplayList,
    magnifier_enabled: bool,
    reader_enabled: bool,
    interface_scale: usize,
    interface_adjusted_scale: u32,
    accessibility_connected: bool,
    screen_reader_connected: bool,
}

impl View for Page {
    type V = PageView;

    closed spec fn view(&self) -> PageView {
        PageView {
            magnifier_enabled: self.magnifier_enabled,
            reader_enabled: self.reader_enabled,
            interface_scale: self.interface_scale,
            interface_adjusted_scale: self.interface_adjusted_scale,
            accessibility_connected: self.accessibility_connected,
            screen_reader_connected: self.screen_reader_connected,
            outputs: self.list@,
        }
    }
}

impl Page {
    #[verifier::type_invariant]
    spec fn list_well_formed(self) -> bool {
        self.list.well_formed()
    }

    /// A page with no display known and nothing connected, showing the third
    /// scale (100%) without adjustment.
    pub fn new() -> (res: Self)
        ensures
            res@ == (PageView {
                magnifier_enabled: false,
                reader_enabled: false,
                interface_scale: 2,
                interface_adjusted_scale: 0,
                accessibility_connected: false,
                screen_reader_connected: false,
                outputs: Seq::empty(),
            }),
    {
        Page {
            list: DisplayList::empty(),
            magnifier_enabled: false,
            reader_enabled: false,
            interface_scale: 2,
            interface_adjusted_scale: 0,
            accessibility_connected: false,
            screen_reader_connected: false,
        }
    }

    /// Whether `update` can handle `message` now (see `accepts`).
    pub fn accepts(&self, message: &Message) -> (res: bool)
        ensures
            res == accepts(self@, *message),
    {
        match message {
            Message::Scale(option) => !self.has_active_output() || Self::scale_fits(*option, 0),
            Message::ScaleAdjust(adjust) => !self.has_active_output() || Self::scale_fits(
                self.interface_scale,
                *adjust,
            ),
            Message::UpdateDisplayList(Some(Ok(list))) => list.is_well_formed(),
            _ => true,
        }
    }

    fn has_active_output(&self) -> (res: bool)
        ensures
            res == has_active_output(self@.outputs),
    {
        proof {
            use_type_invariant(self);
        }
        let mut i: usize = 0;
        while i < self.list.outputs.len()
            invariant
                i <= self.list.outputs@.len(),
                self.list.well_formed(),
                forall|j: int| 0 <= j < i ==> (#[trigger] self.list@[j]).mode is None,
            decreases self.list.outputs@.len() - i,
        {
            if self.list.outputs[i].current.is_some() {
                assert(current_in_range(self.list.outputs@[i as int], self.list.modes@.len()));
                assert(self.list@[i as int].mode is Some);
                return true;
            }
            i = i + 1;
        }
        false
    }

    fn scale_fits(option: usize, adjust: u32) -> (res: bool)
        ensures
            res == scale_fits(option, adjust),
    {
        if option > (usize::MAX - 50) / 25 {
            assert(option * 25 + 50 > usize::MAX) by (nonlinear_arith)
                requires
                    option > (usize::MAX - 50) / 25,
            ;
            return false;
        }
        assert(option * 25 + 50 <= usize::MAX) by (nonlinear_arith)
            requires
                option <= (usize::MAX - 50) / 25,
        ;
        let base: usize = option * 25 + 50;
        let base32: u32 = #[verifier::truncate] (base as u32);
        let capped: u32 = if adjust < 20 { adjust } else { 20 };
        base32 <= u32::MAX - capped
    }

    /// Records that the accessibility service is connected.
    pub fn attach_accessibility(&mut self)
        ensures
            final(self)@ == (PageView { accessibility_connected: true, ..old(self)@ }),
    {
        proof {
            use_type_invariant(&*self);
        }
        self.accessibility_connected = true;
    }

    /// Whether the accessibility service still has to be connected.
    pub fn needs_accessibility(&self) -> (res: bool)
        ensures
            res == !self@.accessibility_connected,
    {
        !self.accessibility_connected
    }

    /// Records scale `option` with adjustment `adjust` and returns the
    /// commands that set every display that is on to that scale.
    fn set_scale(&mut self, option: usize, adjust: u32) -> (res: Action)
        requires
            has_active_output(old(self)@.outputs) ==> scale_fits(option, adjust),
        ensures
            (final(self)@, res@) == set_scale_step(old(self)@, option, adjust),
    {
        proof {
            use_type_invariant(&*self);
        }
        self.interface_scale = option;
        self.interface_adjusted_scale = adjust;
        let ghost outputs = self.list@;
        let ghost scale = scale_percent(option, adjust) as nat;
        let mut commands: Vec<ScaleCommand> = Vec::new();
        let mut i: usize = 0;
        assert(outputs.take(0) =~= Seq::<OutputView>::empty());
        while i < self.list.outputs.len()
            invariant
                i <= self.list.outputs@.len(),
                outputs == self.list@,
                self.list.well_formed(),
                has_active_output(outputs) ==> scale_fits(option, adjust),
                scale == scale_percent(option, adjust) as nat,
                commands_view(commands@) == scale_commands(outputs.take(i as int), scale),
            decreases self.list.outputs@.len() - i,
        {
            let output = &self.list.outputs[i];
            assert(outputs.take(i + 1).drop_last() =~= outputs.take(i as int));
            assert(outputs.take(i + 1).last() == outputs[i as int]);
            match output.current {
                Some(k) => {
                    assert(outputs[i as int].mode is Some);
                    let mode = self.list.modes[k];
                    let base: usize = option * 25 + 50;
                    let base32: u32 = #[verifier::truncate] (base as u32);
                    let capped: u32 = if adjust < 20 { adjust } else { 20 };
                    let value: u32 = base32 + capped;
                    let command = build_scale_command(value, &output.name, mode);
                    commands.push(command);
                    assert(commands_view(commands@) =~= scale_commands(outputs.take(i as int), scale).push(command@));
                },
                None => {},
            }
            i = i + 1;
        }
        assert(outputs.take(i as int) =~= outputs);
        Action::RunCommands(commands)
    }

    /// Handles `message`: the page's next state and the action to perform
    /// are those that `step` gives.
    pub fn update(&mut self, message: Message) -> (res: Action)
        requires
            accepts(old(self)@, message),
        ensures
            (final(self)@, res@) == step(old(self)@, message),
    {
        proof {
            use_type_invariant(&*self);
        }
        match message {
            Message::A11yEvent(AccessibilityEvent::Magnifier(on)) => {
                self.magnifier_enabled = on;
                Action::Nothing
            },
            Message::A11yEvent(_) => Action::Nothing,
            Message::MagnifierEnabled(on) => {
                if self.accessibility_connected {
                    Action::SendMagnifier(on)
                } else {
                    Action::Nothing
                }
            },
            Message::Scale(option) => self.set_scale(option, 0),
            Message::ScaleAdjust(adjust) => self.set_scale(self.interface_scale, adjust),
            Message::ScaleAdjustResult(_) => Action::Nothing,
            Message::ScreenReaderEnabled(on) => {
                if self.screen_reader_connected {
                    self.reader_enabled = on;
                    Action::SendScreenReaderStatus(on)
                } else {
                    self.reader_enabled = false;
                    Action::Nothing
                }
            },
            Message::ScreenReaderDbus(update) => match update {
                ScreenReaderUpdate::Error(_) => {
                    self.screen_reader_connected = false;
                    self.reader_enabled = false;
                    Action::DisconnectScreenReader
                },
                ScreenReaderUpdate::Status(on) => {
                    self.reader_enabled = on;
                    Action::Nothing
                },
                ScreenReaderUpdate::Init(on) => {
                    self.reader_enabled = on;
                    self.screen_reader_connected = true;
                    Action::ConnectScreenReader
                },
            },
            Message::UpdateDisplayList(result) => match result {
                Some(Ok(list)) => {
                    self.list = list;
                    Action::Nothing
                },
                _ => Action::Nothing,
            },
        }
    }

    /// Whether the magnifier is on.
    pub fn magnifier_enabled(&self) -> (res: bool)
        ensures
            res == self@.magnifier_enabled,
    {
        self.magnifier_enabled
    }

    /// Whether the screen reader is on.
    pub fn reader_enabled(&self) -> (res: bool)
        ensures
            res == self@.reader_enabled,
    {
        self.reader_enabled
    }

    /// The drop-down option picked.
    pub fn interface_scale(&self) -> (res: usize)
        ensures
            res == self@.interface_scale,
    {
        self.interface_scale
    }

    /// The fine adjustment picked.
    pub fn interface_adjusted_scale(&self) -> (res: u32)
        ensures
            res == self@.interface_adjusted_scale,
    {
        self.interface_adjusted_scale
    }
}

// ---------------------------------------------------------------------------
// Laws

/// Changing the fine adjustment after picking a scale keeps that scale: the
/// commands set every display that is on to the picked scale plus the
/// (capped) adjustment.
pub proof fn lemma_adjust_keeps_chosen_scale(s: PageView, option: usize, adjust: u32)
    ensures
        ({
            let after_pick = step(s, Message::Scale(option)).0;
            step(after_pick, Message::ScaleAdjust(adjust)) == (
                PageView { interface_scale: option, interface_adjusted_scale: adjust, ..s },
                ActionView::RunCommands(
                    scale_commands(s.outputs, scale_percent(option, adjust) as nat),
                ),
            )
        }),
{
}

/// A request goes to the accessibility service only while it is connected,
/// and to the screen reader only while its D-Bus connection is held.
pub proof fn lemma_requests_only_when_connected(s: PageView, message: Message)
    ensures
        step(s, message).1 is SendMagnifier ==> s.accessibility_connected,
        step(s, message).1 is SendScreenReaderStatus ==> s.screen_reader_connected,
{
}

/// Without a D-Bus connection, asking for the screen reader leaves it off.
pub proof fn lemma_reader_off_without_connection(s: PageView, on: bool)
    requires
        !s.screen_reader_connected,
    ensures
        !step(s, Message::ScreenReaderEnabled(on)).0.reader_enabled,
        step(s, Message::ScreenReaderEnabled(on)).1 is Nothing,
{
}

/// The end of a scaling command, an accessibility event other than the
/// magnifier's, and a display list that could not be taken over change
/// nothing and ask for nothing.
pub proof fn lemma_reports_change_nothing(s: PageView, message: Message)
    requires
        message is ScaleAdjustResult
            || (message matches Message::A11yEvent(e) && !(e is Magnifier))
            || (message matches Message::UpdateDisplayList(r) && !(r matches Some(Ok(_)))),
    ensures
        step(s, message) == (s, ActionView::Nothing),
{
}

/// Picking option `option` of the drop-down scales the displays to the
/// scale that the drop-down shows at that position, plus the adjustment.
pub proof fn lemma_dropdown_scale(option: usize, adjust: u32)
    requires
        option < DPI_SCALE_COUNT,
    ensures
        scale_percent(option, adjust) == dpi_scale(option as int) + capped_adjust(adjust),
{
    assert((option * 25 + 50) as u32 == option * 25 + 50);
}

/// Every `cosmic-randr` command reads back as what it asks for: the `--scale`
/// argument is the scale in percent written as a factor with exactly two
/// decimals (105 is `1.05`), the `--refresh` argument the refresh rate in
/// millihertz written in hertz with exactly three decimals, followed by the
/// display's name and its width and height in decimal digits.
pub proof fn lemma_scale_command_reads_back(scale: nat, name: Seq<char>, mode: DisplayMode)
    ensures
        ({
            let c = scale_command(scale, name, mode);
            &&& c.args.len() == 8
            &&& reads_as_fixed(c.args[2], 2, scale)
            &&& reads_as_fixed(c.args[4], 3, mode.refresh_rate as nat)
            &&& c.args[5] == name
            &&& all_digits(c.args[6]) && digits_value(c.args[6]) == mode.width
            &&& all_digits(c.args[7]) && digits_value(c.args[7]) == mode.height
        }),
{
    reveal_with_fuel(pow10, 4);
    assert(pow10(2) == 100);
    assert(pow10(3) == 1000);
    lemma_fixed_point_reads_back(scale, 2);
    lemma_fixed_point_reads_back(mode.refresh_rate as nat, 3);
    lemma_decimal_reads_back(mode.width as nat);
    lemma_decimal_reads_back(mode.height as nat);
}

/// All the commands of a rescale set their display to the same scale, and
/// there are as many as displays that are on.
pub proof fn lemma_scale_commands_read_back(outputs: Seq<OutputView>, scale: nat)
    ensures
        forall|i: int|
            0 <= i < scale_commands(outputs, scale).len() ==> reads_as_fixed(
                (#[trigger] scale_commands(outputs, scale)[i]).args[2],
                2,
                scale,
            ),
        scale_commands(outputs, scale).len() == outputs.filter(|o: OutputView| o.mode is Some).len(),
    decreases outputs.len(),
{
    reveal(Seq::filter);
    if outputs.len() > 0 {
        lemma_scale_commands_read_back(outputs.drop_last(), scale);
        match outputs.last().mode {
            Some(mode) => {
                lemma_scale_command_reads_back(scale, outputs.last().name, mode);
            },
            None => {},
        }
    }
}

/// While the screen reader's D-Bus connection is held, switching the screen
/// reader on or off takes effect at once and asks the screen reader for that
/// state; nothing else changes.
pub proof fn lemma_screen_reader_follows_request(s: PageView, on: bool)
    requires
        s.screen_reader_connected,
    ensures
        step(s, Message::ScreenReaderEnabled(on)).0 == (PageView { reader_enabled: on, ..s }),
        step(s, Message::ScreenReaderEnabled(on)).1 == ActionView::SendScreenReaderStatus(on),
        step(step(s, Message::ScreenReaderEnabled(on)).0, Message::ScreenReaderEnabled(!on)).0.reader_enabled
            == !on,
{
}

/// While the accessibility service is connected, a magnifier switch asks the
/// service for exactly the state the user picked, whatever the magnifier
/// shows now, and changes nothing until the service reports back; without
/// the service nothing is asked.
pub proof fn lemma_magnifier_request_carries_choice(s: PageView, on: bool)
    ensures
        s.accessibility_connected ==> step(s, Message::MagnifierEnabled(on)).1
            == ActionView::SendMagnifier(on),
        !s.accessibility_connected ==> step(s, Message::MagnifierEnabled(on)).1
            == ActionView::Nothing,
        step(s, Message::MagnifierEnabled(on)).0 == s,
        step(s, Message::A11yEvent(AccessibilityEvent::Magnifier(on))).0.magnifier_enabled == on,
{
}

} // verus!
