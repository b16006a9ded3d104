use vstd::prelude::*;

verus! {

/// Number of inputs shown on the inputs page: the four pins of the first IO connector.
pub const PANEL_INPUT_COUNT: usize = 4;

/// Display row of the input marks on the inputs page.
pub const INPUT_MARK_ROW: usize = 1;

/// Display column of the mark of the first input; input `k` is shown at `INPUT_MARK_COL + k`.
pub const INPUT_MARK_COL: usize = 7;

/// Character written for an input that reads high (`X`).
pub const MARK_HIGH: u8 = 0x58;

/// Character written for an input that reads low (a space).
pub const MARK_LOW: u8 = 0x20;

/// A step reported by the rotary encoder.
#[derive(Debug, Clone, Copy, PartialEq, Eq, Structural)]
pub enum EncoderStep {
    Idle,
    Clockwise,
    Anticlockwise,
}

/// How the menu cursor moves.
#[derive(Debug, Clone, Copy, PartialEq, Eq, Structural)]
pub enum Navigation {
    Stay,
    Up,
    Down,
}

/// The menu move that an encoder step stands for.
pub open spec fn navigation_spec(step: EncoderStep) -> Navigation {
    match step {
        EncoderStep::Idle => Navigation::Stay,
        EncoderStep::Clockwise => Navigation::Up,
        EncoderStep::Anticlockwise => Navigation::Down,
    }
}

/// Turning the encoder clockwise moves the menu cursor up, anticlockwise down.
pub fn navigation_for(step: EncoderStep) -> (nav: Navigation)
    ensures
        nav == navigation_spec(step),
{
    match step {
        EncoderStep::Idle => Navigation::Stay,
        EncoderStep::Clockwise => Navigation::Up,
        EncoderStep::Anticlockwise => Navigation::Down,
    }
}

/// The menu move that an encoder step stands for where the encoder turns the
/// other way round, as on the hardware-test panel: clockwise moves the cursor
/// down, anticlockwise up.
pub open spec fn reversed_navigation_spec(step: EncoderStep) -> Navigation {
    match step {
        EncoderStep::Idle => Navigation::Stay,
        EncoderStep::Clockwise => Navigation::Down,
        EncoderStep::Anticlockwise => Navigation::Up,
    }
}

/// Turning the encoder clockwise moves the menu cursor down, anticlockwise up.
pub fn reversed_navigation_for(step: EncoderStep) -> (nav: Navigation)
    ensures
        nav == reversed_navigation_spec(step),
{
    match step {
        EncoderStep::Idle => Navigation::Stay,
        EncoderStep::Clockwise => Navigation::Down,
        EncoderStep::Anticlockwise => Navigation::Up,
    }
}

/// The opposite menu move: up and down swap, staying stays.
pub open spec fn opposite(nav: Navigation) -> Navigation {
    match nav {
        Navigation::Stay => Navigation::Stay,
        Navigation::Up => Navigation::Down,
        Navigation::Down => Navigation::Up,
    }
}

/// The two encoder mappings mirror each other: every step moves the cursor
/// the opposite way under the reversed mapping, and a step that moves under
/// one mapping moves under the other.
pub proof fn lemma_reversed_navigation_mirrors(step: EncoderStep)
    ensures
        reversed_navigation_spec(step) == opposite(navigation_spec(step)),
        (navigation_spec(step) == Navigation::Stay) == (reversed_navigation_spec(step)
            == Navigation::Stay),
{
}

/// On the main panel a clockwise turn moves the cursor up and an
/// anticlockwise turn down; on the reversed panel the other way round; and a
/// reading without a turn never moves it.
pub proof fn lemma_navigation_directions(step: EncoderStep)
    ensures
        step == EncoderStep::Clockwise ==> navigation_spec(step) == Navigation::Up
            && reversed_navigation_spec(step) == Navigation::Down,
        step == EncoderStep::Anticlockwise ==> navigation_spec(step) == Navigation::Down
            && reversed_navigation_spec(step) == Navigation::Up,
        step == EncoderStep::Idle ==> navigation_spec(step) == Navigation::Stay
            && reversed_navigation_spec(step) == Navigation::Stay,
{
}

/// The push switch of the encoder: it selects a menu row once per press.
#[derive(Debug, Clone, Copy, PartialEq, Eq, Structural)]
pub struct SelectSwitch {
    /// Whether the next reading of a pressed switch selects: the switch was
    /// released since the last selection.
    pub armed: bool,
}

/// One reading of the switch: from whether it is armed and whether it reads
/// pressed, whether it selects and whether it is armed afterwards.
pub open spec fn select_step(armed: bool, pressed: bool) -> (bool, bool) {
    if pressed {
        (armed, false)
    } else {
        (false, true)
    }
}

impl SelectSwitch {
    /// A switch that selects on its first press.
    pub fn new() -> (switch: SelectSwitch)
        ensures
            switch.armed,
    {
        SelectSwitch { armed: true }
    }

    /// Takes one reading of the switch and tells whether it selects.
    pub fn update(&mut self, pressed: bool) -> (select: bool)
        ensures
            (select, final(self).armed) == select_step(old(self).armed, pressed),
    {
        if pressed {
            if self.armed {
                self.armed = false;
                true
            } else {
                false
            }
        } else {
            self.armed = true;
            false
        }
    }
}

/// The selections made by a switch armed as `armed` over successive readings.
pub open spec fn selections(armed: bool, readings: Seq<bool>) -> Seq<bool>
    decreases readings.len(),
{
    if readings.len() == 0 {
        Seq::empty()
    } else {
        let (select, next) = select_step(armed, readings[0]);
        seq![select] + selections(next, readings.drop_first())
    }
}

/// Whether reading `i` is the first reading of a press: the switch reads
/// pressed and was released just before (or, for the first reading, was armed).
pub open spec fn press_begins(armed: bool, readings: Seq<bool>, i: int) -> bool {
    readings[i] && (if i == 0 { armed } else { !readings[i - 1] })
}

/// Over any run of readings, the switch selects exactly at the readings where
/// a press begins: once per press, however long the press is held.
pub proof fn lemma_select_once_per_press(armed: bool, readings: Seq<bool>)
    ensures
        selections(armed, readings).len() == readings.len(),
        forall|i: int|
            0 <= i < readings.len() ==> #[trigger] selections(armed, readings)[i] == press_begins(
                armed,
                readings,
                i,
            ),
    decreases readings.len(),
{
    if readings.len() > 0 {
        let (select, next) = select_step(armed, readings[0]);
        let rest = readings.drop_first();
        lemma_select_once_per_press(next, rest);
        assert forall|i: int| 0 <= i < readings.len() implies #[trigger] selections(
            armed,
            readings,
        )[i] == press_begins(armed, readings, i) by {
            if i > 0 {
                assert(selections(armed, readings)[i] == selections(next, rest)[i - 1]);
                assert(press_begins(next, rest, i - 1) == press_begins(armed, readings, i));
            }
        }
    }
}

/// A write to the inputs page: the character `mark` at (`col`, `row`).
#[derive(Debug, Clone, Copy, PartialEq, Eq, Structural)]
pub struct InputMark {
    pub col: usize,
    pub row: usize,
    pub mark: u8,
}

/// The character that shows an input at `level`.
pub open spec fn mark_for(level: bool) -> u8 {
    if level { MARK_HIGH } else { MARK_LOW }
}

/// The write that shows input `k` at `level`.
pub open spec fn input_mark_spec(k: int, level: bool) -> InputMark {
    InputMark { col: (INPUT_MARK_COL + k) as usize, row: INPUT_MARK_ROW, mark: mark_for(level) }
}

/// The writes that bring the marks of the first `n` inputs from `shown` to
/// `levels`, in input order: one for each input whose level changed.
pub open spec fn input_marks(shown: Seq<bool>, levels: Seq<bool>, n: int) -> Seq<InputMark>
    decreases n,
{
    if n <= 0 {
        Seq::empty()
    } else {
        let prefix = input_marks(shown, levels, n - 1);
        if shown[n - 1] != levels[n - 1] {
            prefix.push(input_mark_spec(n - 1, levels[n - 1]))
        } else {
            prefix
        }
    }
}

/// What the marks on the display read as after the writes `marks`, starting
/// from `display`: a mark in an input's column shows that input high exactly
/// when the mark is `MARK_HIGH`.
pub open spec fn apply_marks(display: Seq<bool>, marks: Seq<InputMark>) -> Seq<bool>
    decreases marks.len(),
{
    if marks.len() == 0 {
        display
    } else {
        let m = marks.last();
        let k = m.col - INPUT_MARK_COL;
        let before = apply_marks(display, marks.drop_last());
        if m.row == INPUT_MARK_ROW && 0 <= k < display.len() {
            before.update(k, m.mark == MARK_HIGH)
        } else {
            before
        }
    }
}

/// The inputs page: what its marks currently show for each input.
#[derive(Debug, Clone, Copy)]
pub struct InputPanel {
    pub shown: [bool; 4],
}

impl InputPanel {
    /// A page that shows every input low, as the page text starts out.
    pub fn new() -> (panel: InputPanel)
        ensures
            panel.shown@ == seq![false, false, false, false],
    {
        InputPanel { shown: [false, false, false, false] }
    }

    /// Takes the levels just read from the inputs and returns the writes that
    /// bring the page up to date: one per input whose level changed, in input
    /// order. Afterwards the page records the new levels.
    pub fn refresh(&mut self, levels: [bool; 4]) -> (marks: Vec<InputMark>)
        ensures
            final(self).shown@ == levels@,
            marks@ == input_marks(old(self).shown@, levels@, 4),
    {
        let ghost old_shown = self.shown@;
        let mut marks: Vec<InputMark> = Vec::new();
        let mut k: usize = 0;
        while k < PANEL_INPUT_COUNT
            invariant
                k <= 4,
                self.shown@.len() == 4,
                old_shown.len() == 4,
                forall|j: int| 0 <= j < k ==> self.shown@[j] == levels@[j],
                forall|j: int| k <= j < 4 ==> self.shown@[j] == old_shown[j],
                marks@ == input_marks(old_shown, levels@, k as int),
            decreases 4 - k,
        {
            if self.shown[k] != levels[k] {
                let mark = if levels[k] { MARK_HIGH } else { MARK_LOW };
                marks.push(InputMark { col: INPUT_MARK_COL + k, row: INPUT_MARK_ROW, mark });
                self.shown[k] = levels[k];
            }
            k = k + 1;
        }
        assert(self.shown@ =~= levels@);
        marks
    }
}

/// Refreshing the inputs page makes it show the levels just read: applying
/// the returned writes to the marks it showed before gives exactly the new
/// levels, for every input.
pub proof fn lemma_refresh_shows_levels(shown: Seq<bool>, levels: Seq<bool>)
    requires
        shown.len() == PANEL_INPUT_COUNT,
        levels.len() == PANEL_INPUT_COUNT,
    ensures
        apply_marks(shown, input_marks(shown, levels, PANEL_INPUT_COUNT as int)) == levels,
{
    lemma_apply_marks_prefix(shown, levels, PANEL_INPUT_COUNT as int);
    assert(apply_marks(shown, input_marks(shown, levels, 4)) =~= levels);
}

proof fn lemma_apply_marks_prefix(shown: Seq<bool>, levels: Seq<bool>, n: int)
    requires
        0 <= n <= shown.len(),
        shown.len() <= PANEL_INPUT_COUNT,
        shown.len() == levels.len(),
    ensures
        apply_marks(shown, input_marks(shown, levels, n)).len() == shown.len(),
        forall|j: int|
            0 <= j < shown.len() ==> #[trigger] apply_marks(shown, input_marks(shown, levels, n))[j]
                == if j < n { levels[j] } else { shown[j] },
    decreases n,
{
    if n > 0 {
        lemma_apply_marks_prefix(shown, levels, n - 1);
        let prefix = input_marks(shown, levels, n - 1);
        let before = apply_marks(shown, prefix);
        if shown[n - 1] != levels[n - 1] {
            let m = input_mark_spec(n - 1, levels[n - 1]);
            let marks = prefix.push(m);
            assert(marks.drop_last() =~= prefix);
            assert(apply_marks(shown, marks) == before.update(n - 1, levels[n - 1]));
        }
    }
}

/// Every write that a refresh returns lies in the marks area and is for an
/// input whose level changed, carrying that input's new character (`X` for
/// high, a space for low); the writes go left to right, so no input is written
/// twice; and every input whose level changed gets a write. So a refresh makes
/// exactly one write per changed input, and no other.
pub proof fn lemma_refresh_writes_exactly_changed_inputs(shown: Seq<bool>, levels: Seq<bool>)
    requires
        shown.len() == PANEL_INPUT_COUNT,
        levels.len() == PANEL_INPUT_COUNT,
    ensures
        forall|i: int|
            0 <= i < input_marks(shown, levels, 4).len() ==> {
                let m = #[trigger] input_marks(shown, levels, 4)[i];
                let k = m.col - INPUT_MARK_COL;
                &&& m.row == INPUT_MARK_ROW
                &&& 0 <= k < PANEL_INPUT_COUNT
                &&& shown[k] != levels[k]
                &&& m.mark == if levels[k] { MARK_HIGH } else { MARK_LOW }
            },
        forall|i: int, j: int|
            0 <= i < j < input_marks(shown, levels, 4).len() ==> #[trigger] input_marks(
                shown,
                levels,
                4,
            )[i].col < #[trigger] input_marks(shown, levels, 4)[j].col,
        forall|k: int|
            0 <= k < PANEL_INPUT_COUNT && shown[k] != levels[k] ==> exists|i: int|
                0 <= i < input_marks(shown, levels, 4).len() && #[trigger] input_marks(
                    shown,
                    levels,
                    4,
                )[i].col == INPUT_MARK_COL + k,
{
    lemma_input_marks_shape(shown, levels, 4);
}

proof fn lemma_input_marks_shape(shown: Seq<bool>, levels: Seq<bool>, n: int)
    requires
        0 <= n <= PANEL_INPUT_COUNT,
        shown.len() == PANEL_INPUT_COUNT,
        levels.len() == PANEL_INPUT_COUNT,
    ensures
        forall|i: int|
            0 <= i < input_marks(shown, levels, n).len() ==> {
                let m = #[trigger] input_marks(shown, levels, n)[i];
                let k = m.col - INPUT_MARK_COL;
                &&& m.row == INPUT_MARK_ROW
                &&& 0 <= k < n
                &&& shown[k] != levels[k]
                &&& m.mark == if levels[k] { MARK_HIGH } else { MARK_LOW }
            },
        forall|i: int, j: int|
            0 <= i < j < input_marks(shown, levels, n).len() ==> #[trigger] input_marks(
                shown,
                levels,
                n,
            )[i].col < #[trigger] input_marks(shown, levels, n)[j].col,
        forall|k: int|
            0 <= k < n && shown[k] != levels[k] ==> exists|i: int|
                0 <= i < input_marks(shown, levels, n).len() && #[trigger] input_marks(
                    shown,
                    levels,
                    n,
                )[i].col == INPUT_MARK_COL + k,
    decreases n,
{
    if n > 0 {
        lemma_input_marks_shape(shown, levels, n - 1);
        let prefix = input_marks(shown, levels, n - 1);
        let marks = input_marks(shown, levels, n);
        if shown[n - 1] != levels[n - 1] {
            let m = input_mark_spec(n - 1, levels[n - 1]);
            assert(marks == prefix.push(m));
            assert(marks[prefix.len() as int] == m);
            assert forall|i: int| 0 <= i < prefix.len() implies marks[i] == prefix[i] by {}
            assert forall|k: int| 0 <= k < n && shown[k] != levels[k] implies exists|i: int|
                0 <= i < marks.len() && #[trigger] marks[i].col == INPUT_MARK_COL + k by {
                if k == n - 1 {
                    assert(marks[prefix.len() as int].col == INPUT_MARK_COL + k);
                } else {
                    let i = choose|i: int|
                        0 <= i < prefix.len() && #[trigger] prefix[i].col == INPUT_MARK_COL + k;
                    assert(marks[i].col == INPUT_MARK_COL + k);
                }
            }
        }
    }
}

/// Once the page shows the levels read, reading the same levels again
/// writes nothing.
pub proof fn lemma_refresh_unchanged_writes_nothing(levels: Seq<bool>)
    requires
        levels.len() == PANEL_INPUT_COUNT,
    ensures
        input_marks(levels, levels, PANEL_INPUT_COUNT as int) == Seq::<InputMark>::empty(),
{
    lemma_no_marks_for_unchanged(levels, PANEL_INPUT_COUNT as int);
}

proof fn lemma_no_marks_for_unchanged(levels: Seq<bool>, n: int)
    requires
        0 <= n <= levels.len(),
    ensures
        input_marks(levels, levels, n) == Seq::<InputMark>::empty(),
    decreases n,
{
    if n > 0 {
        lemma_no_marks_for_unchanged(levels, n - 1);
    }
}

/// What the fan driver is told to do.
#[derive(Debug, Clone, Copy, PartialEq, Eq, Structural)]
pub enum FanCommand {
    /// Stop the fan.
    Stop,
    /// Drive the fan clockwise at half speed.
    DriveHalf,
}

/// The switchable parts of the machine that the options page controls.
#[derive(Debug, Clone, Copy, PartialEq, Eq, Structural)]
pub struct MachineState {
    /// Whether the stepper controllers are enabled.
    pub stepper_enabled: bool,
    /// Whether the fan runs.
    pub fan_active: bool,
}

/// The command that toggles a fan that runs exactly when `active`.
pub open spec fn fan_toggle_command(active: bool) -> FanCommand {
    if active { FanCommand::Stop } else { FanCommand::DriveHalf }
}

impl MachineState {
    /// The state at start-up: steppers enabled and the fan running.
    pub fn new() -> (state: MachineState)
        ensures
            state.stepper_enabled,
            state.fan_active,
    {
        MachineState { stepper_enabled: true, fan_active: true }
    }

    /// The "Motors active" button: flips whether the steppers are enabled.
    /// The caller toggles the enable pin.
    pub fn toggle_steppers(&mut self)
        ensures
            final(self).stepper_enabled == !old(self).stepper_enabled,
            final(self).fan_active == old(self).fan_active,
    {
        self.stepper_enabled = !self.stepper_enabled;
    }

    /// The "Fan active" button: returns the command for the fan driver (stop
    /// a running fan, start a stopped one) and flips whether the fan runs.
    pub fn toggle_fan(&mut self) -> (command: FanCommand)
        ensures
            command == fan_toggle_command(old(self).fan_active),
            final(self).fan_active == !old(self).fan_active,
            final(self).stepper_enabled == old(self).stepper_enabled,
    {
        let command = if self.fan_active { FanCommand::Stop } else { FanCommand::DriveHalf };
        self.fan_active = !self.fan_active;
        command
    }
}

/// The fan button's command always leaves the fan in the state recorded
/// afterwards (it runs exactly when the command drives it), and successive
/// presses alternate between starting and stopping the fan.
pub proof fn lemma_fan_toggle_consistent(active: bool)
    ensures
        (fan_toggle_command(active) == FanCommand::DriveHalf) == !active,
        fan_toggle_command(!active) != fan_toggle_command(active),
{
}

} // verus!
