use vstd::prelude::*;

use crate::config::{bind_fires, Bind, InputEvent, InputMethod, MenuBinds, PlayerBinds};
use crate::mino_controller::after_event;
use crate::room::Room;
use crate::session::{controller_in_use, uses_controller, Player, PlayerKind, State};
use crate::ui::{prev_next_variant, stepped, GameModeSelection, NetworkStateSelection, Pause, PauseSelection, TitleSelection};
use crate::unit::{Kind, Unit};

verus! {

/// What the menus remember between events.
#[derive(Clone, Copy, Debug)]
pub struct Menus {
    pub title_selection: TitleSelection,
    /// A new game starts at once with one player, rather than in the lobby.
    pub quick_game: bool,
    /// The network role chosen on the title screen.
    pub selected_network_state: NetworkStateSelection,
    /// A player is being named in the lobby.
    pub adding_player: bool,
    /// Where the player being named sits.
    pub player_kind: PlayerKind,
    /// The game was just saved from the pause menu.
    pub just_saved: bool,
}

impl Menus {
    /// The title screen with its first entry chosen, a quick game, offline.
    pub fn new() -> (m: Menus)
        ensures
            m.title_selection == TitleSelection::Continue,
            m.quick_game,
            m.selected_network_state == NetworkStateSelection::Offline,
            !m.adding_player,
            m.player_kind is Network,
            !m.just_saved,
    {
        Menus {
            title_selection: TitleSelection::Continue,
            quick_game: true,
            selected_network_state: NetworkStateSelection::Offline,
            adding_player: false,
            player_kind: PlayerKind::Network,
            just_saved: false,
        }
    }
}

/// What the program is to do after a menu event, in order.
#[derive(Clone, Copy, Debug, PartialEq, Eq)]
pub enum MenuAction {
    /// Queue adding a player at this machine, on the keyboard and the first
    /// controller, without a name.
    AddMe,
    /// Queue adding the player being named, with the name typed so far.
    AddTyped(PlayerKind),
    /// Queue a new game.
    StartGame,
    /// Queue the saved game.
    ContinueSaved,
    /// Drop any connection.
    GoOffline,
    StartTextInput,
    StopTextInput,
    /// Host or join, as chosen on the title screen, at the typed address.
    Connect,
    /// Save the game.
    Save,
    /// Go back to the title screen, where the saved game is looked up again.
    QuitToTitle,
    /// End the program.
    Quit,
    /// Pass the event on to the controllers of the players at this machine.
    Steer,
}

/// The input method of the menus: the keyboard and the first controller.
pub open spec fn menu_input() -> InputMethod {
    InputMethod { keyboard: Some(()), controller: Some(0) }
}

/// The event presses the menu bind `b`.
pub open spec fn pressed(b: Bind, e: InputEvent) -> bool {
    bind_fires(b, e, menu_input(), true)
}

/// The screen state during a game with the pause menu changed to `p`.
pub open spec fn with_pause(s: State, p: Option<Pause>) -> State {
    match s {
        State::Play { players_won, players_done, players_lost, over, winner, pause: _ } => State::Play {
            players_won,
            players_done,
            players_lost,
            over,
            winner,
            pause: p,
        },
        _ => s,
    }
}

/// The menus, the screen, the game mode chosen, whether the players are
/// forgotten, and the actions, after event `e` on the screen `s`.
///
/// During a game the pause bind opens or closes the pause menu and the
/// restart bind starts a new game; in the pause menu up and down move the
/// choice and ok takes it; otherwise the event steers the pieces. On the
/// title screen up and down move the choice; ok continues the saved game,
/// starts a quick game or goes to the lobby (through the address prompt when
/// hosting or joining); left and right toggle the quick game, or change the
/// game mode or the network role. In the address prompt ok connects. In the
/// lobby ok adds the player being named, or starts the game when this
/// machine hosts or plays offline; a controller button from a controller no
/// player uses, or the add-player bind, starts naming a new player.
pub open spec fn menu_step(
    m: Menus,
    s: State,
    g: GameModeSelection,
    players: Seq<Player>,
    b: MenuBinds,
    e: InputEvent,
    link: NetworkStateSelection,
) -> (Menus, State, GameModeSelection, bool, Seq<MenuAction>) {
    match s {
        State::Play { pause, .. } => {
            let p1 = if pressed(b.pause, e) {
                if pause is Some { None } else { Some(Pause { selection: PauseSelection::Resume }) }
            } else {
                pause
            };
            let m1 = if pressed(b.pause, e) { Menus { just_saved: false, ..m } } else { m };
            let a1: Seq<MenuAction> = if pressed(b.restart, e) { seq![MenuAction::StartGame] } else { Seq::empty() };
            match p1 {
                Some(p) => {
                    let sel = stepped(p.selection, b.up, b.down, e, menu_input());
                    if pressed(b.ok, e) {
                        match sel {
                            PauseSelection::Resume => (m1, with_pause(s, None), g, false, a1),
                            PauseSelection::Save => if link == NetworkStateSelection::Offline {
                                (
                                    Menus { just_saved: true, ..m1 },
                                    with_pause(s, Some(Pause { selection: sel })),
                                    g,
                                    false,
                                    a1.push(MenuAction::Save),
                                )
                            } else {
                                (m1, with_pause(s, Some(Pause { selection: sel })), g, false, a1)
                            },
                            PauseSelection::Restart => (
                                m1,
                                with_pause(s, Some(Pause { selection: sel })),
                                g,
                                false,
                                a1.push(MenuAction::StartGame),
                            ),
                            PauseSelection::QuitToTitle => (m1, State::Title, g, true, a1.push(MenuAction::QuitToTitle)),
                            PauseSelection::QuitToDesktop => (
                                m1,
                                with_pause(s, Some(Pause { selection: sel })),
                                g,
                                false,
                                a1.push(MenuAction::Quit),
                            ),
                        }
                    } else {
                        (m1, with_pause(s, Some(Pause { selection: sel })), g, false, a1)
                    }
                },
                None => (m1, with_pause(s, None), g, false, a1.push(MenuAction::Steer)),
            }
        },
        State::Title => {
            let sel = stepped(m.title_selection, b.up, b.down, e, menu_input());
            let m1 = Menus { title_selection: sel, ..m };
            match sel {
                TitleSelection::Continue => if pressed(b.ok, e) && m.selected_network_state
                    == NetworkStateSelection::Offline {
                    (m1, s, g, false, seq![MenuAction::GoOffline, MenuAction::AddMe, MenuAction::ContinueSaved])
                } else {
                    (m1, s, g, false, Seq::empty())
                },
                TitleSelection::NewGame => {
                    let m2 = if pressed(b.left, e) || pressed(b.right, e) {
                        Menus { quick_game: !m.quick_game, ..m1 }
                    } else {
                        m1
                    };
                    if pressed(b.ok, e) {
                        if m.quick_game {
                            (m2, s, g, false, seq![MenuAction::AddMe, MenuAction::StartGame])
                        } else if m.selected_network_state == NetworkStateSelection::Offline {
                            (m2, State::Lobby, g, false, Seq::empty())
                        } else {
                            (m2, State::PreLobby, g, false, seq![MenuAction::StartTextInput])
                        }
                    } else {
                        (m2, s, g, false, Seq::empty())
                    }
                },
                TitleSelection::GameMode => (m1, s, stepped(g, b.left, b.right, e, menu_input()), false, Seq::empty()),
                TitleSelection::NetworkMode => (
                    Menus {
                        selected_network_state: stepped(m.selected_network_state, b.left, b.right, e, menu_input()),
                        ..m1
                    },
                    s,
                    g,
                    false,
                    Seq::empty(),
                ),
            }
        },
        State::PreLobby => if pressed(b.ok, e) {
            (m, State::Lobby, g, false, seq![MenuAction::Connect, MenuAction::StopTextInput])
        } else {
            (m, s, g, false, Seq::empty())
        },
        State::Lobby => if m.adding_player {
            if pressed(b.ok, e) {
                (
                    Menus { adding_player: false, player_kind: PlayerKind::Network, ..m },
                    s,
                    g,
                    false,
                    seq![MenuAction::AddTyped(m.player_kind), MenuAction::StopTextInput],
                )
            } else {
                (m, s, g, false, Seq::empty())
            }
        } else {
            let a1: Seq<MenuAction> = if (link == NetworkStateSelection::Host || link == NetworkStateSelection::Offline)
                && pressed(b.ok, e) {
                seq![MenuAction::StartGame]
            } else {
                Seq::empty()
            };
            match e {
                InputEvent::ControllerButtonDown { which, .. } => if !(exists|i: int|
                    0 <= i < players.len() && uses_controller(#[trigger] players[i], which)) {
                    (
                        Menus {
                            adding_player: true,
                            player_kind: PlayerKind::Local(InputMethod { keyboard: None, controller: Some(which) }),
                            ..m
                        },
                        s,
                        g,
                        false,
                        a1.push(MenuAction::StartTextInput),
                    )
                } else {
                    (m, s, g, false, a1)
                },
                _ => if pressed(b.add_player, e) {
                    (
                        Menus {
                            adding_player: true,
                            player_kind: PlayerKind::Local(InputMethod { keyboard: Some(()), controller: None }),
                            ..m
                        },
                        s,
                        g,
                        false,
                        a1.push(MenuAction::StartTextInput),
                    )
                } else {
                    (m, s, g, false, a1)
                },
            }
        },
    }
}

/// Handles one input event in the menus (see `menu_step`); `link` is the
/// network role in use. Changes the screen, the room's game mode and, when
/// going back to the title screen, forgets the room's players.
pub fn on_menu_event(
    menus: &mut Menus,
    screen: &mut State,
    room: &mut Room,
    binds: &MenuBinds,
    event: &InputEvent,
    link: NetworkStateSelection,
) -> (r: Vec<MenuAction>)
    ensures
        ({
            let (m1, s1, g1, forget, acts) = menu_step(
                *old(menus),
                *old(screen),
                old(room).selected_game_mode,
                old(room).players@,
                *binds,
                *event,
                link,
            );
            &&& *final(menus) == m1
            &&& *final(screen) == s1
            &&& final(room).selected_game_mode == g1
            &&& final(room).players@ == (if forget { Seq::empty() } else { old(room).players@ })
            &&& final(room).units == old(room).units
            &&& final(room).commands == old(room).commands
            &&& final(room).just_added_player == old(room).just_added_player
            &&& final(room).just_initted == old(room).just_initted
            &&& r@ == acts
        }),
{
    let im = InputMethod::new(true, Some(0));
    let mut acts: Vec<MenuAction> = Vec::new();
    let mut taken = State::Title;
    std::mem::swap(&mut taken, screen);
    match taken {
        State::Play { players_won, players_done, players_lost, over, winner, pause } => {
            let mut pause = pause;
            if binds.pause.is_down(event, &im) {
                pause = if pause.is_some() { None } else { Some(Pause { selection: PauseSelection::Resume }) };
                menus.just_saved = false;
            }
            if binds.restart.is_down(event, &im) {
                acts.push(MenuAction::StartGame);
            }
            let mut to_title = false;
            match pause {
                Some(p) => {
                    let sel = prev_next_variant(p.selection, &binds.up, &binds.down, event, &im);
                    pause = Some(Pause { selection: sel });
                    if binds.ok.is_down(event, &im) {
                        match sel {
                            PauseSelection::Resume => {
                                pause = None;
                            },
                            PauseSelection::Save => {
                                if link == NetworkStateSelection::Offline {
                                    acts.push(MenuAction::Save);
                                    menus.just_saved = true;
                                }
                            },
                            PauseSelection::Restart => {
                                acts.push(MenuAction::StartGame);
                            },
                            PauseSelection::QuitToTitle => {
                                acts.push(MenuAction::QuitToTitle);
                                to_title = true;
                            },
                            PauseSelection::QuitToDesktop => {
                                acts.push(MenuAction::Quit);
                            },
                        }
                    }
                },
                None => {
                    acts.push(MenuAction::Steer);
                },
            }
            if to_title {
                room.players.clear();
                *screen = State::Title;
            } else {
                *screen = State::Play { players_won, players_done, players_lost, over, winner, pause };
            }
        },
        State::Title => {
            let sel = prev_next_variant(menus.title_selection, &binds.up, &binds.down, event, &im);
            menus.title_selection = sel;
            *screen = State::Title;
            match sel {
                TitleSelection::Continue => {
                    if binds.ok.is_down(event, &im) && menus.selected_network_state == NetworkStateSelection::Offline {
                        acts.push(MenuAction::GoOffline);
                        acts.push(MenuAction::AddMe);
                        acts.push(MenuAction::ContinueSaved);
                    }
                },
                TitleSelection::NewGame => {
                    if binds.ok.is_down(event, &im) {
                        if menus.quick_game {
                            acts.push(MenuAction::AddMe);
                            acts.push(MenuAction::StartGame);
                        } else if menus.selected_network_state == NetworkStateSelection::Offline {
                            *screen = State::Lobby;
                        } else {
                            acts.push(MenuAction::StartTextInput);
                            *screen = State::PreLobby;
                        }
                    }
                    if binds.left.is_down(event, &im) || binds.right.is_down(event, &im) {
                        menus.quick_game = !menus.quick_game;
                    }
                },
                TitleSelection::GameMode => {
                    room.selected_game_mode = prev_next_variant(
                        room.selected_game_mode,
                        &binds.left,
                        &binds.right,
                        event,
                        &im,
                    );
                },
                TitleSelection::NetworkMode => {
                    menus.selected_network_state = prev_next_variant(
                        menus.selected_network_state,
                        &binds.left,
                        &binds.right,
                        event,
                        &im,
                    );
                },
            }
        },
        State::PreLobby => {
            if binds.ok.is_down(event, &im) {
                acts.push(MenuAction::Connect);
                acts.push(MenuAction::StopTextInput);
                *screen = State::Lobby;
            } else {
                *screen = State::PreLobby;
            }
        },
        State::Lobby => {
            *screen = State::Lobby;
            if menus.adding_player {
                if binds.ok.is_down(event, &im) {
                    acts.push(MenuAction::AddTyped(menus.player_kind));
                    acts.push(MenuAction::StopTextInput);
                    menus.adding_player = false;
                    menus.player_kind = PlayerKind::Network;
                }
            } else {
                if (link == NetworkStateSelection::Host || link == NetworkStateSelection::Offline) && binds.ok.is_down(
                    event,
                    &im,
                ) {
                    acts.push(MenuAction::StartGame);
                }
                match *event {
                    InputEvent::ControllerButtonDown { which, .. } => {
                        if !controller_in_use(&room.players, which) {
                            menus.adding_player = true;
                            acts.push(MenuAction::StartTextInput);
                            menus.player_kind = PlayerKind::Local(InputMethod::new(false, Some(which)));
                        }
                    },
                    _ => {
                        if binds.add_player.is_down(event, &im) {
                            menus.adding_player = true;
                            acts.push(MenuAction::StartTextInput);
                            menus.player_kind = PlayerKind::Local(InputMethod::new(true, None));
                        }
                    },
                }
            }
        },
    }
    proof {
        assert(acts@ =~= menu_step(
            *old(menus),
            *old(screen),
            old(room).selected_game_mode,
            old(room).players@,
            *binds,
            *event,
            link,
        ).4);
    }
    acts
}

/// The units after the players at this machine steer with event `e`: each
/// local unit of a local player, among the first `m`, whose controller reads
/// one of the four sets of binds, updates its controller (see
/// `after_event`); everything else stays.
pub open spec fn steered(u0: Seq<Unit>, u1: Seq<Unit>, players: Seq<Player>, binds: [PlayerBinds; 4], e: InputEvent, m: int) -> bool {
    &&& u1.len() == u0.len()
    &&& forall|i: int|
        0 <= i < u0.len() ==> {
            let u = #[trigger] u0[i];
            if i < m && players[i].kind is Local && u.kind is Local && u.kind->mino_controller.config_id < 4 {
                &&& u1[i].base == u.base
                &&& u1[i].kind == Kind::Local {
                    rng: u.kind->rng,
                    mino_controller: after_event(u.kind->mino_controller, binds, e),
                }
            } else {
                u1[i] == u
            }
        }
}

/// Passes an input event to the controllers of the players at this machine
/// (see `steered`).
pub fn steer(units: &mut Vec<Unit>, players: &Vec<Player>, binds: &[PlayerBinds; 4], event: &InputEvent)
    ensures
        steered(
            old(units)@,
            final(units)@,
            players@,
            *binds,
            *event,
            if players@.len() <= old(units)@.len() { players@.len() as int } else { old(units)@.len() as int },
        ),
{
    let ghost u0 = units@;
    let m = if players.len() <= units.len() { players.len() } else { units.len() };
    let mut i: usize = 0;
    while i < m
        invariant
            0 <= i <= m,
            m <= players@.len(),
            m <= u0.len(),
            units@.len() == u0.len(),
            forall|j: int|
                0 <= j < i ==> {
                    let u = #[trigger] u0[j];
                    if players@[j].kind is Local && u.kind is Local && u.kind->mino_controller.config_id < 4 {
                        &&& units@[j].base == u.base
                        &&& units@[j].kind == Kind::Local {
                            rng: u.kind->rng,
                            mino_controller: after_event(u.kind->mino_controller, *binds, *event),
                        }
                    } else {
                        units@[j] == u
                    }
                },
            forall|j: int| i <= j < u0.len() ==> #[trigger] units@[j] == u0[j],
        decreases m - i,
    {
        let local = match players[i].kind {
            PlayerKind::Local(_) => true,
            PlayerKind::Network => false,
        };
        let ghost before = units@;
        if local {
            let unit = &mut units[i];
            match &mut unit.kind {
                Kind::Local { mino_controller, .. } => {
                    if mino_controller.config_id < 4 {
                        mino_controller.update(binds, event);
                    }
                },
                Kind::Network => {},
            }
        }
        assert forall|j: int| i < j < u0.len() implies #[trigger] units@[j] == u0[j] by {
            assert(units@[j] == before[j]);
        }
        i = i + 1;
    }
}

} // verus!
