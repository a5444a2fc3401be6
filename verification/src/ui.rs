use vstd::prelude::*;

use crate::config::{bind_fires, Bind, InputEvent, InputMethod};
use crate::unit::{fresh_versus, Mode};
use crate::vec2::{trunc_div, vec2, vec2i};

verus! {

/// A menu choice that can be stepped to the next or previous option; both
/// wrap around.
pub trait EnumSelect: Sized {
    /// The option after `self`.
    spec fn next_of(self) -> Self;

    /// The option before `self`.
    spec fn prev_of(self) -> Self;

    fn next_variant(self) -> (r: Self)
        ensures
            r == self.next_of(),
    ;

    fn prev_variant(self) -> (r: Self)
        ensures
            r == self.prev_of(),
    ;
}

#[derive(Clone, Copy, Debug, PartialEq, Eq, Structural)]
pub enum TitleSelection {
    Continue,
    NewGame,
    GameMode,
    NetworkMode,
}

/// The option after `s` on the title screen, wrapping around.
pub open spec fn title_next(s: TitleSelection) -> TitleSelection {
    match s {
        TitleSelection::Continue => TitleSelection::NewGame,
        TitleSelection::NewGame => TitleSelection::GameMode,
        TitleSelection::GameMode => TitleSelection::NetworkMode,
        TitleSelection::NetworkMode => TitleSelection::Continue,
    }
}

/// The option before `s` on the title screen, wrapping around.
pub open spec fn title_prev(s: TitleSelection) -> TitleSelection {
    match s {
        TitleSelection::Continue => TitleSelection::NetworkMode,
        TitleSelection::NewGame => TitleSelection::Continue,
        TitleSelection::GameMode => TitleSelection::NewGame,
        TitleSelection::NetworkMode => TitleSelection::GameMode,
    }
}

impl EnumSelect for TitleSelection {
    open spec fn next_of(self) -> Self {
        title_next(self)
    }

    open spec fn prev_of(self) -> Self {
        title_prev(self)
    }

    fn next_variant(self) -> (r: Self)
        ensures
            r == title_next(self),
    {
        match self {
            TitleSelection::Continue => TitleSelection::NewGame,
            TitleSelection::NewGame => TitleSelection::GameMode,
            TitleSelection::GameMode => TitleSelection::NetworkMode,
            TitleSelection::NetworkMode => TitleSelection::Continue,
        }
    }

    fn prev_variant(self) -> (r: Self)
        ensures
            r == title_prev(self),
    {
        match self {
            TitleSelection::Continue => TitleSelection::NetworkMode,
            TitleSelection::NewGame => TitleSelection::Continue,
            TitleSelection::GameMode => TitleSelection::NewGame,
            TitleSelection::NetworkMode => TitleSelection::GameMode,
        }
    }
}

#[derive(Clone, Copy, Debug, PartialEq, Eq, Structural)]
pub enum PauseSelection {
    Resume,
    Save,
    Restart,
    QuitToTitle,
    QuitToDesktop,
}

pub open spec fn pause_next(s: PauseSelection) -> PauseSelection {
    match s {
        PauseSelection::Resume => PauseSelection::Save,
        PauseSelection::Save => PauseSelection::Restart,
        PauseSelection::Restart => PauseSelection::QuitToTitle,
        PauseSelection::QuitToTitle => PauseSelection::QuitToDesktop,
        PauseSelection::QuitToDesktop => PauseSelection::Resume,
    }
}

pub open spec fn pause_prev(s: PauseSelection) -> PauseSelection {
    match s {
        PauseSelection::Resume => PauseSelection::QuitToDesktop,
        PauseSelection::Save => PauseSelection::Resume,
        PauseSelection::Restart => PauseSelection::Save,
        PauseSelection::QuitToTitle => PauseSelection::Restart,
        PauseSelection::QuitToDesktop => PauseSelection::QuitToTitle,
    }
}

impl EnumSelect for PauseSelection {
    open spec fn next_of(self) -> Self {
        pause_next(self)
    }

    open spec fn prev_of(self) -> Self {
        pause_prev(self)
    }

    fn next_variant(self) -> (r: Self)
        ensures
            r == pause_next(self),
    {
        match self {
            PauseSelection::Resume => PauseSelection::Save,
            PauseSelection::Save => PauseSelection::Restart,
            PauseSelection::Restart => PauseSelection::QuitToTitle,
            PauseSelection::QuitToTitle => PauseSelection::QuitToDesktop,
            PauseSelection::QuitToDesktop => PauseSelection::Resume,
        }
    }

    fn prev_variant(self) -> (r: Self)
        ensures
            r == pause_prev(self),
    {
        match self {
            PauseSelection::Resume => PauseSelection::QuitToDesktop,
            PauseSelection::Save => PauseSelection::Resume,
            PauseSelection::Restart => PauseSelection::Save,
            PauseSelection::QuitToTitle => PauseSelection::Restart,
            PauseSelection::QuitToDesktop => PauseSelection::QuitToTitle,
        }
    }
}

impl Default for PauseSelection {
    fn default() -> (r: Self)
        ensures
            r == PauseSelection::Resume,
    {
        PauseSelection::Resume
    }
}

#[derive(Clone, Copy, Debug, PartialEq, Eq, Structural)]
pub enum NetworkStateSelection {
    Offline,
    Host,
    Client,
}

pub open spec fn network_next(s: NetworkStateSelection) -> NetworkStateSelection {
    match s {
        NetworkStateSelection::Offline => NetworkStateSelection::Host,
        NetworkStateSelection::Host => NetworkStateSelection::Client,
        NetworkStateSelection::Client => NetworkStateSelection::Offline,
    }
}

pub open spec fn network_prev(s: NetworkStateSelection) -> NetworkStateSelection {
    match s {
        NetworkStateSelection::Offline => NetworkStateSelection::Client,
        NetworkStateSelection::Host => NetworkStateSelection::Offline,
        NetworkStateSelection::Client => NetworkStateSelection::Host,
    }
}

impl EnumSelect for NetworkStateSelection {
    open spec fn next_of(self) -> Self {
        network_next(self)
    }

    open spec fn prev_of(self) -> Self {
        network_prev(self)
    }

    fn next_variant(self) -> (r: Self)
        ensures
            r == network_next(self),
    {
        match self {
            NetworkStateSelection::Offline => NetworkStateSelection::Host,
            NetworkStateSelection::Host => NetworkStateSelection::Client,
            NetworkStateSelection::Client => NetworkStateSelection::Offline,
        }
    }

    fn prev_variant(self) -> (r: Self)
        ensures
            r == network_prev(self),
    {
        match self {
            NetworkStateSelection::Offline => NetworkStateSelection::Client,
            NetworkStateSelection::Host => NetworkStateSelection::Offline,
            NetworkStateSelection::Client => NetworkStateSelection::Host,
        }
    }
}

#[derive(Clone, Copy, Debug, PartialEq, Eq, Structural)]
pub enum GameModeSelection {
    Marathon,
    Sprint,
    Versus,
    GameOfLife,
}

pub open spec fn game_mode_next(s: GameModeSelection) -> GameModeSelection {
    match s {
        GameModeSelection::Marathon => GameModeSelection::Sprint,
        GameModeSelection::Sprint => GameModeSelection::Versus,
        GameModeSelection::Versus => GameModeSelection::GameOfLife,
        GameModeSelection::GameOfLife => GameModeSelection::Marathon,
    }
}

pub open spec fn game_mode_prev(s: GameModeSelection) -> GameModeSelection {
    match s {
        GameModeSelection::Marathon => GameModeSelection::GameOfLife,
        GameModeSelection::Sprint => GameModeSelection::Marathon,
        GameModeSelection::Versus => GameModeSelection::Sprint,
        GameModeSelection::GameOfLife => GameModeSelection::Versus,
    }
}

impl EnumSelect for GameModeSelection {
    open spec fn next_of(self) -> Self {
        game_mode_next(self)
    }

    open spec fn prev_of(self) -> Self {
        game_mode_prev(self)
    }

    fn next_variant(self) -> (r: Self)
        ensures
            r == game_mode_next(self),
    {
        match self {
            GameModeSelection::Marathon => GameModeSelection::Sprint,
            GameModeSelection::Sprint => GameModeSelection::Versus,
            GameModeSelection::Versus => GameModeSelection::GameOfLife,
            GameModeSelection::GameOfLife => GameModeSelection::Marathon,
        }
    }

    fn prev_variant(self) -> (r: Self)
        ensures
            r == game_mode_prev(self),
    {
        match self {
            GameModeSelection::Marathon => GameModeSelection::GameOfLife,
            GameModeSelection::Sprint => GameModeSelection::Marathon,
            GameModeSelection::Versus => GameModeSelection::Sprint,
            GameModeSelection::GameOfLife => GameModeSelection::Versus,
        }
    }
}

impl Default for GameModeSelection {
    fn default() -> (r: Self)
        ensures
            r == GameModeSelection::Marathon,
    {
        GameModeSelection::Marathon
    }
}

/// The option `value` becomes on `event`: one back if the event presses
/// `prev`, then one forward if it presses `next`.
pub open spec fn stepped<T: EnumSelect>(value: T, prev: Bind, next: Bind, event: InputEvent, im: InputMethod) -> T {
    let v = if bind_fires(prev, event, im, true) { value.prev_of() } else { value };
    if bind_fires(next, event, im, true) { v.next_of() } else { v }
}

/// Moves a menu choice on `event` (see `stepped`).
pub fn prev_next_variant<T: EnumSelect>(
    value: T,
    prev: &Bind,
    next: &Bind,
    event: &InputEvent,
    input_method: &InputMethod,
) -> (r: T)
    ensures
        r == stepped(value, *prev, *next, *event, *input_method),
{
    let mut value = value;
    if prev.is_down(event, input_method) {
        value = value.prev_variant();
    }
    if next.is_down(event, input_method) {
        value = value.next_variant();
    }
    value
}

/// Stepping forward then back, or back then forward, returns to the same
/// option, and stepping forward once per option goes all the way round.
pub proof fn menus_cycle(t: TitleSelection, p: PauseSelection, n: NetworkStateSelection, g: GameModeSelection)
    ensures
        title_prev(title_next(t)) == t && title_next(title_prev(t)) == t,
        title_next(title_next(title_next(title_next(t)))) == t,
        pause_prev(pause_next(p)) == p && pause_next(pause_prev(p)) == p,
        pause_next(pause_next(pause_next(pause_next(pause_next(p))))) == p,
        network_prev(network_next(n)) == n && network_next(network_prev(n)) == n,
        network_next(network_next(network_next(n))) == n,
        game_mode_prev(game_mode_next(g)) == g && game_mode_next(game_mode_prev(g)) == g,
        game_mode_next(game_mode_next(game_mode_next(game_mode_next(g)))) == g,
{
}

impl GameModeSelection {
    /// The default mode of each selection.
    pub fn mode(&self) -> (m: Mode)
        ensures
            *self == GameModeSelection::Marathon ==> m == (Mode::Marathon { level: 1, level_target: 50, lines_before_next_level: 10 }),
            *self == GameModeSelection::Sprint ==> m == (Mode::Sprint { lines_cleared_target: 40 }),
            *self == GameModeSelection::Versus ==> fresh_versus(m, 0),
            *self == GameModeSelection::GameOfLife ==> m == (Mode::GameOfLife { count: 0 }),
    {
        match *self {
            GameModeSelection::Marathon => Mode::default_marathon(),
            GameModeSelection::Sprint => Mode::default_sprint(),
            GameModeSelection::Versus => Mode::default_versus(),
            GameModeSelection::GameOfLife => Mode::default_game_of_life(),
        }
    }
}

/// The pause menu and its current choice.
#[derive(Clone, Copy, Debug, Default)]
pub struct Pause {
    pub selection: PauseSelection,
}

/// Lays out the columns of the game screen, centred on a screen `width`
/// wide when the columns take `expected_width`.
#[derive(Clone, Copy, Debug, Default)]
pub struct GameLayout {
    pub x: i32,
    pub y: i32,
    pub width: i32,
    pub expected_width: i32,
}

impl GameLayout {
    /// Left edge of the centred block: half the spare width, rounded toward zero.
    pub fn centered_x(&self) -> (r: i32)
        requires
            i32::MIN <= self.width - self.expected_width <= i32::MAX,
        ensures
            r == trunc_div(self.width - self.expected_width, 2),
    {
        (self.width - self.expected_width) / 2
    }

    /// The current x, counted from the centred left edge.
    pub fn x(&self) -> (r: i32)
        requires
            i32::MIN <= self.width - self.expected_width <= i32::MAX,
            i32::MIN <= trunc_div(self.width - self.expected_width, 2) + self.x <= i32::MAX,
        ensures
            r == trunc_div(self.width - self.expected_width, 2) + self.x,
    {
        return self.centered_x() + self.x;
    }

    pub fn y(&self) -> (r: i32)
        ensures
            r == self.y,
    {
        return self.y;
    }

    /// The current position.
    pub fn as_vec2i(&self) -> (r: vec2i)
        requires
            i32::MIN <= self.width - self.expected_width <= i32::MAX,
            i32::MIN <= trunc_div(self.width - self.expected_width, 2) + self.x <= i32::MAX,
        ensures
            r.x == trunc_div(self.width - self.expected_width, 2) + self.x,
            r.y == self.y,
    {
        vec2::new(self.x(), self.y())
    }

    /// Moves down by `y`.
    pub fn row(&mut self, y: i32)
        requires
            i32::MIN <= old(self).y + y <= i32::MAX,
        ensures
            *final(self) == (GameLayout { y: (old(self).y + y) as i32, ..*old(self) }),
    {
        self.y += y;
    }

    /// Moves down by a margin of `y`.
    pub fn row_margin(&mut self, y: i32)
        requires
            i32::MIN <= old(self).y + y <= i32::MAX,
        ensures
            *final(self) == (GameLayout { y: (old(self).y + y) as i32, ..*old(self) }),
    {
        self.y += y;
    }

    /// Starts a new column `x` further right, back at the top.
    pub fn col(&mut self, x: i32)
        requires
            i32::MIN <= old(self).x + x <= i32::MAX,
        ensures
            *final(self) == (GameLayout { y: 0, x: (old(self).x + x) as i32, ..*old(self) }),
    {
        self.y = 0;
        self.x += x;
    }

    /// Starts a new column a margin of `x` further right, back at the top.
    pub fn col_margin(&mut self, x: i32)
        requires
            i32::MIN <= old(self).x + x <= i32::MAX,
        ensures
            *final(self) == (GameLayout { y: 0, x: (old(self).x + x) as i32, ..*old(self) }),
    {
        self.y = 0;
        self.x += x;
    }
}

/// Lays out rows centred on a screen `width` wide.
#[derive(Clone, Copy, Debug)]
pub struct CenteredLayout {
    pub y: i32,
    pub width: u32,
}

impl CenteredLayout {
    /// Left edge that centres an object `obj_width` wide (rounded down).
    pub fn centered_x(&self, obj_width: u32) -> (r: i32)
        requires
            obj_width <= self.width,
        ensures
            r == (self.width - obj_width) / 2,
    {
        ((self.width - obj_width) / 2) as i32
    }

    pub fn row(&mut self, y: i32)
        requires
            i32::MIN <= old(self).y + y <= i32::MAX,
        ensures
            final(self).y == old(self).y + y,
            final(self).width == old(self).width,
    {
        self.y += y;
    }

    pub fn row_margin(&mut self, y: i32)
        requires
            i32::MIN <= old(self).y + y <= i32::MAX,
        ensures
            final(self).y == old(self).y + y,
            final(self).width == old(self).width,
    {
        self.y += y;
    }
}

} // verus!
