//! The dashboard that shows several monitors at once: which panels it
//! shows, which one has the keyboard, how the global keys move and swap
//! panels, which keys each panel takes, and when each panel refreshes.
use vstd::prelude::*;
use crate::dio::AppAction;
use crate::input::{dio_action_for, map_key, Key, KeyPress};
use crate::layout::{neighbor, neighbor_in_range, spec_neighbor, Direction};
use crate::selection::{next_index, prev_index, step_selection};

verus! {

#[derive(Debug, Clone, Copy, PartialEq, Eq, Structural)]
pub enum PanelKind {
    Cpu,
    Gpu,
    Ram,
    Dio,
    Net,
    Poly,
    Astro,
    Audio,
}

/// The monitors asked for on the command line.
#[derive(Debug, Clone, Copy, PartialEq, Eq, Structural, Default)]
pub struct PanelFlags {
    pub cpu: bool,
    pub gpu: bool,
    pub ram: bool,
    pub dio: bool,
    pub net: bool,
    pub poly: bool,
    pub astro: bool,
    pub audio: bool,
}

pub open spec fn any_chosen(f: PanelFlags) -> bool {
    f.cpu || f.gpu || f.ram || f.dio || f.net || f.poly || f.astro || f.audio
}

pub open spec fn one_if(b: bool, k: PanelKind) -> Seq<PanelKind> {
    if b {
        seq![k]
    } else {
        Seq::empty()
    }
}

/// The panels shown, in screen order CPU, GPU, RAM, disk, network,
/// markets, astronomy, audio: each one asked for, and CPU, RAM and network
/// when none is.
pub open spec fn chosen_panels_spec(f: PanelFlags) -> Seq<PanelKind> {
    let none = !any_chosen(f);
    one_if(f.cpu || none, PanelKind::Cpu) + one_if(f.gpu, PanelKind::Gpu) + one_if(f.ram || none, PanelKind::Ram)
        + one_if(f.dio, PanelKind::Dio) + one_if(f.net || none, PanelKind::Net) + one_if(f.poly, PanelKind::Poly)
        + one_if(f.astro, PanelKind::Astro) + one_if(f.audio, PanelKind::Audio)
}

fn push_if(out: &mut Vec<PanelKind>, b: bool, k: PanelKind)
    ensures
        final(out)@ == old(out)@ + one_if(b, k),
{
    if b {
        out.push(k);
    }
    proof {
        if !b {
            assert(old(out)@ + one_if(b, k) =~= old(out)@);
        }
    }
}

pub fn chosen_panels(f: PanelFlags) -> (r: Vec<PanelKind>)
    ensures
        r@ == chosen_panels_spec(f),
{
    let none = !(f.cpu || f.gpu || f.ram || f.dio || f.net || f.poly || f.astro || f.audio);
    let mut out: Vec<PanelKind> = Vec::new();
    push_if(&mut out, f.cpu || none, PanelKind::Cpu);
    push_if(&mut out, f.gpu, PanelKind::Gpu);
    push_if(&mut out, f.ram || none, PanelKind::Ram);
    push_if(&mut out, f.dio, PanelKind::Dio);
    push_if(&mut out, f.net || none, PanelKind::Net);
    push_if(&mut out, f.poly, PanelKind::Poly);
    push_if(&mut out, f.astro, PanelKind::Astro);
    push_if(&mut out, f.audio, PanelKind::Audio);
    assert(out@ =~= chosen_panels_spec(f));
    out
}

/// The panel that has the keyboard at start: the first market panel, or
/// the first panel.
pub open spec fn initial_focus_spec(kinds: Seq<PanelKind>) -> int {
    if exists|i: int| 0 <= i < kinds.len() && kinds[i] == PanelKind::Poly {
        choose|i: int|
            0 <= i < kinds.len() && kinds[i] == PanelKind::Poly && forall|j: int|
                0 <= j < i ==> kinds[j] != PanelKind::Poly
    } else {
        0
    }
}

pub fn initial_focus(kinds: &Vec<PanelKind>) -> (r: usize)
    ensures
        r == initial_focus_spec(kinds@),
        kinds@.len() > 0 ==> r < kinds@.len(),
{
    let mut i: usize = 0;
    while i < kinds.len()
        invariant
            i <= kinds@.len(),
            forall|j: int| 0 <= j < i ==> kinds@[j] != PanelKind::Poly,
        decreases kinds.len() - i,
    {
        if kinds[i] == PanelKind::Poly {
            proof {
                let w = i as int;
                assert(0 <= w < kinds@.len() && kinds@[w] == PanelKind::Poly && forall|j: int|
                    0 <= j < w ==> kinds@[j] != PanelKind::Poly);
                let c = choose|c: int|
                    0 <= c < kinds@.len() && kinds@[c] == PanelKind::Poly && forall|j: int|
                        0 <= j < c ==> kinds@[j] != PanelKind::Poly;
                if c < w {
                    assert(kinds@[c] != PanelKind::Poly);
                }
                if c > w {
                    assert(kinds@[w] != PanelKind::Poly);
                }
            }
            return i;
        }
        i = i + 1;
    }
    0
}

/// What the dashboard does with a key press.
#[derive(Debug, Clone, Copy, PartialEq, Eq, Structural)]
pub enum DashboardAction {
    /// Leave the dashboard.
    Quit,
    /// Switch fast mode in every panel.
    ToggleFastMode,
    /// The keyboard moved to another panel.
    Refocused,
    /// The focused panel changed places with its neighbour; the keyboard
    /// follows it.
    Swap(usize, usize),
    /// The press goes to the focused panel.
    Forward(usize),
    /// Nothing happens.
    Ignore,
}

/// The direction a Control-arrow press moves the focused panel.
pub open spec fn swap_direction(k: KeyPress) -> Option<Direction> {
    if !k.ctrl {
        None
    } else {
        match k.key {
            Key::Up => Some(Direction::Up),
            Key::Down => Some(Direction::Down),
            Key::Left => Some(Direction::Left),
            Key::Right => Some(Direction::Right),
            _ => None,
        }
    }
}

/// The dashboard's answer to a key press with `count` panels and the
/// keyboard on `focused`: `q` and Esc and Ctrl-C quit, `f` switches fast
/// mode everywhere, Tab and Shift-Tab move the keyboard, Control-arrows
/// swap the focused panel with its neighbour on the grid (when there is
/// one), and anything else goes to the focused panel.
pub open spec fn dashboard_action_for(focused: usize, count: usize, k: KeyPress) -> DashboardAction {
    if k.key == Key::Char('q') || k.key == Key::Esc || (k.key == Key::Char('c') && k.ctrl) {
        DashboardAction::Quit
    } else if k.key == Key::Char('f') {
        DashboardAction::ToggleFastMode
    } else if k.key == Key::Tab || k.key == Key::BackTab {
        DashboardAction::Refocused
    } else if swap_direction(k) is Some {
        match spec_neighbor(focused as int, count as int, swap_direction(k)->0) {
            Some(t) => DashboardAction::Swap(focused, t as usize),
            None => DashboardAction::Ignore,
        }
    } else {
        DashboardAction::Forward(focused)
    }
}

/// Where the keyboard is after a key press.
pub open spec fn focus_after(focused: usize, count: usize, k: KeyPress) -> int {
    match dashboard_action_for(focused, count, k) {
        DashboardAction::Refocused => step_selection(focused, count as nat, k.key == Key::Tab),
        DashboardAction::Swap(_, t) => t as int,
        _ => focused as int,
    }
}

/// Which panel has the keyboard, among how many.
pub struct Dashboard {
    pub focused: usize,
    pub count: usize,
}

impl Dashboard {
    /// The keyboard is on a panel, and the grid arithmetic fits.
    pub open spec fn wf(&self) -> bool {
        &&& self.focused < self.count
        &&& self.count + 2 <= usize::MAX
    }

    /// A dashboard over the given panels, the keyboard on the first market
    /// panel or else the first panel.
    pub fn new(kinds: &Vec<PanelKind>) -> (d: Self)
        requires
            kinds@.len() > 0,
            kinds@.len() + 2 <= usize::MAX,
        ensures
            d.wf(),
            d.count == kinds@.len(),
            d.focused == initial_focus_spec(kinds@),
    {
        Dashboard { focused: initial_focus(kinds), count: kinds.len() }
    }

    /// Handles a key press: moves the keyboard, or says what the caller
    /// does (quit, switch fast mode, swap two panels, pass the press on).
    pub fn handle_key(&mut self, k: KeyPress) -> (a: DashboardAction)
        requires
            old(self).wf(),
        ensures
            final(self).wf(),
            a == dashboard_action_for(old(self).focused, old(self).count, k),
            final(self).focused == focus_after(old(self).focused, old(self).count, k),
            final(self).count == old(self).count,
    {
        if k.key == Key::Char('q') || k.key == Key::Esc || (k.key == Key::Char('c') && k.ctrl) {
            return DashboardAction::Quit;
        }
        if k.key == Key::Char('f') {
            return DashboardAction::ToggleFastMode;
        }
        if k.key == Key::Tab {
            self.focused = next_index(self.focused, self.count);
            return DashboardAction::Refocused;
        }
        if k.key == Key::BackTab {
            self.focused = prev_index(self.focused, self.count);
            return DashboardAction::Refocused;
        }
        let dir = if !k.ctrl {
            None
        } else {
            match k.key {
                Key::Up => Some(Direction::Up),
                Key::Down => Some(Direction::Down),
                Key::Left => Some(Direction::Left),
                Key::Right => Some(Direction::Right),
                _ => None,
            }
        };
        match dir {
            Some(d) => {
                match neighbor(self.focused, self.count, d) {
                    Some(t) => {
                        proof {
                            crate::layout::neighbor_stays_in_grid(self.focused as int, self.count as int, d);
                        }
                        let from = self.focused;
                        self.focused = t;
                        DashboardAction::Swap(from, t)
                    },
                    None => DashboardAction::Ignore,
                }
            },
            None => DashboardAction::Forward(self.focused),
        }
    }
}

/// What a panel does with a key press passed on to it.
#[derive(Debug, Clone, Copy, PartialEq, Eq, Structural)]
pub enum PanelCommand {
    /// A disk monitor action.
    Dio(AppAction),
    NetToggleView,
    NetNextInterface,
    NetPrevInterface,
    PolySelectNext,
    PolySelectPrev,
    PolyNextTopic,
    PolyPrevTopic,
    PolyCycleSort,
    Ignore,
}

/// The keys each panel takes: the disk monitor its own key map; the
/// network monitor `v` (view), `d`/Right and `D`/Left (interfaces); the
/// market viewer `j`/Down and `k`/Up (events), `t`/Right and `T`/Left
/// (topics) and `s` (sort order); the others none.
pub open spec fn panel_command_for(kind: PanelKind, k: KeyPress) -> PanelCommand {
    match kind {
        PanelKind::Dio => PanelCommand::Dio(dio_action_for(k)),
        PanelKind::Net => match k.key {
            Key::Char('v') => PanelCommand::NetToggleView,
            Key::Char('d') | Key::Right => PanelCommand::NetNextInterface,
            Key::Char('D') | Key::Left => PanelCommand::NetPrevInterface,
            _ => PanelCommand::Ignore,
        },
        PanelKind::Poly => match k.key {
            Key::Char('j') | Key::Down => PanelCommand::PolySelectNext,
            Key::Char('k') | Key::Up => PanelCommand::PolySelectPrev,
            Key::Char('t') | Key::Right => PanelCommand::PolyNextTopic,
            Key::Char('T') | Key::Left => PanelCommand::PolyPrevTopic,
            Key::Char('s') => PanelCommand::PolyCycleSort,
            _ => PanelCommand::Ignore,
        },
        _ => PanelCommand::Ignore,
    }
}

pub fn panel_command(kind: PanelKind, k: KeyPress) -> (c: PanelCommand)
    ensures
        c == panel_command_for(kind, k),
{
    match kind {
        PanelKind::Dio => PanelCommand::Dio(map_key(k)),
        PanelKind::Net => match k.key {
            Key::Char('v') => PanelCommand::NetToggleView,
            Key::Char('d') | Key::Right => PanelCommand::NetNextInterface,
            Key::Char('D') | Key::Left => PanelCommand::NetPrevInterface,
            _ => PanelCommand::Ignore,
        },
        PanelKind::Poly => match k.key {
            Key::Char('j') | Key::Down => PanelCommand::PolySelectNext,
            Key::Char('k') | Key::Up => PanelCommand::PolySelectPrev,
            Key::Char('t') | Key::Right => PanelCommand::PolyNextTopic,
            Key::Char('T') | Key::Left => PanelCommand::PolyPrevTopic,
            Key::Char('s') => PanelCommand::PolyCycleSort,
            _ => PanelCommand::Ignore,
        },
        _ => PanelCommand::Ignore,
    }
}

/// The panel's name in its border.
pub open spec fn panel_name_spec(kind: PanelKind) -> Seq<char> {
    match kind {
        PanelKind::Cpu => "CPU"@,
        PanelKind::Gpu => "GPU"@,
        PanelKind::Ram => "RAM"@,
        PanelKind::Dio => "DIO"@,
        PanelKind::Net => "NET"@,
        PanelKind::Poly => "POLY"@,
        PanelKind::Astro => "ASTRO"@,
        PanelKind::Audio => "AUDIO"@,
    }
}

pub fn panel_name(kind: PanelKind) -> (s: &'static str)
    ensures
        s@ == panel_name_spec(kind),
{
    proof {
        reveal_strlit("CPU");
        reveal_strlit("GPU");
        reveal_strlit("RAM");
        reveal_strlit("DIO");
        reveal_strlit("NET");
        reveal_strlit("POLY");
        reveal_strlit("ASTRO");
        reveal_strlit("AUDIO");
    }
    match kind {
        PanelKind::Cpu => "CPU",
        PanelKind::Gpu => "GPU",
        PanelKind::Ram => "RAM",
        PanelKind::Dio => "DIO",
        PanelKind::Net => "NET",
        PanelKind::Poly => "POLY",
        PanelKind::Astro => "ASTRO",
        PanelKind::Audio => "AUDIO",
    }
}

/// The longest the dashboard waits for a key, in nanoseconds.
pub const MAX_WAIT_NANOS: u128 = 80_000_000;

/// The time left until a panel's next refresh: its interval less the time
/// since its last one, or none when that has passed.
pub open spec fn time_left(interval: u128, elapsed: u128) -> int {
    if elapsed <= interval {
        interval - elapsed
    } else {
        0
    }
}

/// How long the dashboard waits for a key: until the first of the first
/// `n` panels is due, and no longer than 80 ms.
pub open spec fn wait_spec(intervals: Seq<u128>, elapsed: Seq<u128>, n: int) -> int
    decreases n,
{
    if n <= 0 {
        MAX_WAIT_NANOS as int
    } else {
        let rest = wait_spec(intervals, elapsed, n - 1);
        let here = time_left(intervals[n - 1], elapsed[n - 1]);
        if here < rest {
            here
        } else {
            rest
        }
    }
}

/// The time to wait for a key, in nanoseconds, given each panel's refresh
/// interval and the time since its last refresh; no time without panels.
pub fn wait_nanos(intervals: &Vec<u128>, elapsed: &Vec<u128>) -> (w: u128)
    requires
        intervals@.len() == elapsed@.len(),
    ensures
        intervals@.len() == 0 ==> w == 0,
        intervals@.len() > 0 ==> w == wait_spec(intervals@, elapsed@, intervals@.len() as int),
        w <= MAX_WAIT_NANOS,
        forall|i: int| 0 <= i < intervals@.len() ==> w <= time_left(#[trigger] intervals@[i], elapsed@[i]),
{
    if intervals.len() == 0 {
        return 0;
    }
    let mut w: u128 = MAX_WAIT_NANOS;
    let mut i: usize = 0;
    while i < intervals.len()
        invariant
            i <= intervals@.len(),
            intervals@.len() == elapsed@.len(),
            w == wait_spec(intervals@, elapsed@, i as int),
            w <= MAX_WAIT_NANOS,
            forall|j: int| 0 <= j < i ==> w <= time_left(#[trigger] intervals@[j], elapsed@[j]),
        decreases intervals.len() - i,
    {
        let here = if elapsed[i] <= intervals[i] {
            intervals[i] - elapsed[i]
        } else {
            0
        };
        if here < w {
            w = here;
        }
        i = i + 1;
    }
    w
}

/// Whether a panel is due for a refresh.
pub fn refresh_due(interval: u128, elapsed: u128) -> (b: bool)
    ensures
        b == (elapsed >= interval),
{
    elapsed >= interval
}

/// Tab and Shift-Tab undo each other, and the keyboard stays on a panel.
pub proof fn tab_and_back_tab_undo(focused: usize, count: usize)
    requires
        focused < count,
        count + 2 <= usize::MAX,
    ensures
        ({
            let tab = KeyPress { key: Key::Tab, ctrl: false };
            let back = KeyPress { key: Key::BackTab, ctrl: false };
            let f1 = focus_after(focused, count, tab);
            let f2 = focus_after(focused, count, back);
            &&& 0 <= f1 < count
            &&& 0 <= f2 < count
            &&& focus_after(f1 as usize, count, back) == focused
            &&& focus_after(f2 as usize, count, tab) == focused
        }),
{
    crate::selection::steps_stay_in_range_and_undo(focused, count as nat);
}

/// Swapping a panel up and then down again, or left and then right again,
/// brings the keyboard back to where it was.
pub proof fn swaps_undo(focused: usize, count: usize)
    requires
        focused < count,
        count + 2 <= usize::MAX,
    ensures
        ({
            let up = KeyPress { key: Key::Up, ctrl: true };
            let down = KeyPress { key: Key::Down, ctrl: true };
            let left = KeyPress { key: Key::Left, ctrl: true };
            let right = KeyPress { key: Key::Right, ctrl: true };
            &&& dashboard_action_for(focused, count, up) is Swap ==> focus_after(
                focus_after(focused, count, up) as usize,
                count,
                down,
            ) == focused
            &&& dashboard_action_for(focused, count, left) is Swap ==> focus_after(
                focus_after(focused, count, left) as usize,
                count,
                right,
            ) == focused
        }),
{
    crate::layout::neighbor_stays_in_grid(focused as int, count as int, Direction::Up);
    crate::layout::neighbor_stays_in_grid(focused as int, count as int, Direction::Left);
    if let Some(j) = spec_neighbor(focused as int, count as int, Direction::Up) {
        crate::layout::neighbor_up_down_inverse(focused as int, j, count as int);
    }
    if let Some(j) = spec_neighbor(focused as int, count as int, Direction::Left) {
        crate::layout::neighbor_left_right_inverse(focused as int, j, count as int);
    }
}

} // verus!
