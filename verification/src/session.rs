use vstd::prelude::*;

use crate::config::InputMethod;
use crate::ui::Pause;

verus! {

/// Which screen the program shows, and during a game how the players fare.
#[derive(Clone, Debug)]
pub enum State {
    Play {
        players_won: u32,
        players_done: u32,
        players_lost: u32,
        over: bool,
        winner: Option<String>,
        pause: Option<Pause>,
    },
    Title,
    PreLobby,
    Lobby,
}

/// A game that has just started: nobody has won or lost, no winner, not paused.
pub open spec fn is_fresh_play(s: State) -> bool {
    &&& s matches State::Play { players_won, players_done, players_lost, over, winner, pause }
    &&& players_won == 0 && players_done == 0 && players_lost == 0
    &&& !over && winner is None && pause is None
}

impl State {
    /// The state of a game that starts now.
    pub fn play() -> (s: Self)
        ensures
            is_fresh_play(s),
    {
        State::Play { players_won: 0, players_done: 0, players_lost: 0, over: false, winner: None, pause: None }
    }
}

/// Where a player sits: at this machine, with its input devices, or on the
/// network.
#[derive(Clone, Copy, Debug, PartialEq, Eq)]
pub enum PlayerKind {
    Local(InputMethod),
    Network,
}

impl Default for PlayerKind {
    /// A player is on the network unless made local.
    fn default() -> (k: Self)
        ensures
            k is Network,
    {
        PlayerKind::Network
    }
}

/// A player of a room: where it sits and its name.
#[derive(Clone, Debug)]
pub struct Player {
    pub kind: PlayerKind,
    pub name: String,
}

impl Player {
    /// A player at this machine using `input`.
    pub fn new(name: String, input: InputMethod) -> (p: Player)
        ensures
            p.kind == PlayerKind::Local(input),
            p.name@ == name@,
    {
        Player { kind: PlayerKind::Local(input), name }
    }
}

impl Default for Player {
    /// A nameless player on the network.
    fn default() -> (p: Self)
        ensures
            p.kind is Network,
            p.name@.len() == 0,
    {
        Player { kind: PlayerKind::Network, name: String::new() }
    }
}

/// The player uses the controller numbered `which`.
pub open spec fn uses_controller(p: Player, which: usize) -> bool {
    p.kind matches PlayerKind::Local(im) && im.controller == Some(which)
}

/// Whether some player uses the controller numbered `which`.
pub fn controller_in_use(players: &Vec<Player>, which: usize) -> (r: bool)
    ensures
        r == exists|i: int| 0 <= i < players@.len() && uses_controller(#[trigger] players@[i], which),
{
    let mut i: usize = 0;
    while i < players.len()
        invariant
            0 <= i <= players@.len(),
            forall|j: int| 0 <= j < i ==> !uses_controller(#[trigger] players@[j], which),
        decreases players@.len() - i,
    {
        if let PlayerKind::Local(im) = players[i].kind {
            if im.controller == Some(which) {
                assert(uses_controller(players@[i as int], which));
                return true;
            }
        }
        i = i + 1;
    }
    false
}

/// The last player that uses the controller numbered `which`, if any.
pub fn player_with_controller(players: &Vec<Player>, which: usize) -> (r: Option<usize>)
    ensures
        match r {
            Some(p) => p < players@.len() && uses_controller(players@[p as int], which) && forall|j: int|
                p < j < players@.len() ==> !uses_controller(#[trigger] players@[j], which),
            None => forall|j: int| 0 <= j < players@.len() ==> !uses_controller(#[trigger] players@[j], which),
        },
{
    let mut found: Option<usize> = None;
    let mut i: usize = 0;
    while i < players.len()
        invariant
            0 <= i <= players@.len(),
            match found {
                Some(p) => p < i && uses_controller(players@[p as int], which) && forall|j: int|
                    p < j < i ==> !uses_controller(#[trigger] players@[j], which),
                None => forall|j: int| 0 <= j < i ==> !uses_controller(#[trigger] players@[j], which),
            },
        decreases players@.len() - i,
    {
        if let PlayerKind::Local(im) = players[i].kind {
            if im.controller == Some(which) {
                found = Some(i);
            }
        }
        i = i + 1;
    }
    found
}

/// Numbers handed to controllers as they are plugged in: `free[i]` says
/// whether number `i` is free. A new controller gets the smallest free one.
pub struct ControllerSlots {
    pub free: Vec<bool>,
}

impl ControllerSlots {
    /// `n` numbers, all free.
    pub fn new(n: usize) -> (r: Self)
        ensures
            r.free@ == Seq::new(n as nat, |i: int| true),
    {
        let mut free: Vec<bool> = Vec::new();
        let mut i: usize = 0;
        while i < n
            invariant
                0 <= i <= n,
                free@ == Seq::new(i as nat, |j: int| true),
            decreases n - i,
        {
            free.push(true);
            i = i + 1;
            assert(free@ =~= Seq::new(i as nat, |j: int| true));
        }
        ControllerSlots { free }
    }

    /// Takes the smallest free number, or gives `None` when none is free.
    pub fn take(&mut self) -> (r: Option<usize>)
        ensures
            match r {
                Some(i) => i < old(self).free@.len() && old(self).free@[i as int] && forall|j: int|
                    0 <= j < i ==> !old(self).free@[j],
                None => forall|j: int| 0 <= j < old(self).free@.len() ==> !old(self).free@[j],
            },
            final(self).free@ == match r {
                Some(i) => old(self).free@.update(i as int, false),
                None => old(self).free@,
            },
    {
        let mut i: usize = 0;
        while i < self.free.len()
            invariant
                0 <= i <= self.free@.len(),
                self.free@ == old(self).free@,
                forall|j: int| 0 <= j < i ==> !self.free@[j],
            decreases self.free@.len() - i,
        {
            if self.free[i] {
                self.free.set(i, false);
                return Some(i);
            }
            i = i + 1;
        }
        None
    }

    /// Frees number `i` again.
    pub fn release(&mut self, i: usize)
        requires
            i < old(self).free@.len(),
        ensures
            final(self).free@ == old(self).free@.update(i as int, true),
    {
        self.free.set(i, true);
    }
}

} // verus!
