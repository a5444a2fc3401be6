use tetris::config::{Bind, Conbind, InputEvent, InputMethod, MenuBinds, PlayerBinds};
use tetris::menu::{on_menu_event, steer, MenuAction, Menus};
use tetris::mino_controller::{MinoController, MoveDirection};
use tetris::room::Room;
use tetris::session::{Player, PlayerKind, State};
use tetris::ui::{GameModeSelection, NetworkStateSelection, Pause, PauseSelection, TitleSelection};
use tetris::unit::{Kind, Mode, Unit};

const UP: i32 = 1;
const DOWN: i32 = 2;
const LEFT: i32 = 3;
const RIGHT: i32 = 4;
const OK: i32 = 5;
const ADD: i32 = 6;
const PAUSE: i32 = 7;
const RESTART: i32 = 8;

fn binds() -> MenuBinds {
    let b = |k: i32| Bind::new(k, Conbind::Button(100 + k));
    MenuBinds { up: b(UP), down: b(DOWN), left: b(LEFT), right: b(RIGHT), ok: b(OK), add_player: b(ADD), pause: b(PAUSE), restart: b(RESTART) }
}

fn key(k: i32) -> InputEvent {
    InputEvent::KeyDown { keycode: Some(k), repeat: false }
}

fn send(menus: &mut Menus, state: &mut State, room: &mut Room, k: i32, link: NetworkStateSelection) -> Vec<MenuAction> {
    on_menu_event(menus, state, room, &binds(), &key(k), link)
}

#[test]
fn the_title_screen_starts_a_quick_game() {
    let mut menus = Menus::new();
    let mut state = State::Title;
    let mut room = Room::default();
    let offline = NetworkStateSelection::Offline;
    assert!(send(&mut menus, &mut state, &mut room, DOWN, offline).is_empty());
    assert_eq!(menus.title_selection, TitleSelection::NewGame);
    let acts = send(&mut menus, &mut state, &mut room, OK, offline);
    assert_eq!(acts, vec![MenuAction::AddMe, MenuAction::StartGame]);
    assert!(matches!(state, State::Title));
}

#[test]
fn the_title_screen_leads_to_the_lobby_or_the_address_prompt() {
    let mut menus = Menus::new();
    let mut state = State::Title;
    let mut room = Room::default();
    let offline = NetworkStateSelection::Offline;
    send(&mut menus, &mut state, &mut room, DOWN, offline);
    send(&mut menus, &mut state, &mut room, LEFT, offline);
    assert!(!menus.quick_game);
    send(&mut menus, &mut state, &mut room, DOWN, offline);
    send(&mut menus, &mut state, &mut room, RIGHT, offline);
    assert_eq!(room.selected_game_mode, GameModeSelection::Sprint);
    send(&mut menus, &mut state, &mut room, DOWN, offline);
    send(&mut menus, &mut state, &mut room, RIGHT, offline);
    assert_eq!(menus.selected_network_state, NetworkStateSelection::Host);
    send(&mut menus, &mut state, &mut room, UP, offline);
    send(&mut menus, &mut state, &mut room, UP, offline);
    assert_eq!(menus.title_selection, TitleSelection::NewGame);
    let acts = send(&mut menus, &mut state, &mut room, OK, offline);
    assert_eq!(acts, vec![MenuAction::StartTextInput]);
    assert!(matches!(state, State::PreLobby));
    let acts = send(&mut menus, &mut state, &mut room, OK, offline);
    assert_eq!(acts, vec![MenuAction::Connect, MenuAction::StopTextInput]);
    assert!(matches!(state, State::Lobby));
}

#[test]
fn continuing_needs_the_offline_role() {
    let mut menus = Menus::new();
    let mut state = State::Title;
    let mut room = Room::default();
    let acts = send(&mut menus, &mut state, &mut room, OK, NetworkStateSelection::Offline);
    assert_eq!(acts, vec![MenuAction::GoOffline, MenuAction::AddMe, MenuAction::ContinueSaved]);
    menus.selected_network_state = NetworkStateSelection::Client;
    assert!(send(&mut menus, &mut state, &mut room, OK, NetworkStateSelection::Offline).is_empty());
}

#[test]
fn the_lobby_names_new_players() {
    let mut menus = Menus::new();
    let mut state = State::Lobby;
    let mut room = Room::default();
    let client = NetworkStateSelection::Client;
    let acts = send(&mut menus, &mut state, &mut room, ADD, client);
    assert_eq!(acts, vec![MenuAction::StartTextInput]);
    assert!(menus.adding_player);
    let acts = send(&mut menus, &mut state, &mut room, OK, client);
    assert_eq!(
        acts,
        vec![MenuAction::AddTyped(PlayerKind::Local(InputMethod::new(true, None))), MenuAction::StopTextInput]
    );
    assert!(!menus.adding_player);
    assert!(send(&mut menus, &mut state, &mut room, OK, client).is_empty());
    let acts = send(&mut menus, &mut state, &mut room, OK, NetworkStateSelection::Host);
    assert_eq!(acts, vec![MenuAction::StartGame]);

    room.players.push(Player::new(String::from("p"), InputMethod::new(false, Some(2))));
    let press = |which| InputEvent::ControllerButtonDown { which, button: 0 };
    assert!(on_menu_event(&mut menus, &mut state, &mut room, &binds(), &press(2), client).is_empty());
    let acts = on_menu_event(&mut menus, &mut state, &mut room, &binds(), &press(3), client);
    assert_eq!(acts, vec![MenuAction::StartTextInput]);
    assert_eq!(menus.player_kind, PlayerKind::Local(InputMethod::new(false, Some(3))));
}

#[test]
fn the_pause_menu() {
    let mut menus = Menus::new();
    let mut state = State::play();
    let mut room = Room::default();
    room.players.push(Player::default());
    let offline = NetworkStateSelection::Offline;
    assert_eq!(send(&mut menus, &mut state, &mut room, LEFT, offline), vec![MenuAction::Steer]);
    assert!(send(&mut menus, &mut state, &mut room, PAUSE, offline).is_empty());
    assert!(matches!(state, State::Play { pause: Some(Pause { selection: PauseSelection::Resume }), .. }));
    send(&mut menus, &mut state, &mut room, DOWN, offline);
    assert_eq!(send(&mut menus, &mut state, &mut room, OK, offline), vec![MenuAction::Save]);
    assert!(menus.just_saved);
    assert!(send(&mut menus, &mut state, &mut room, OK, NetworkStateSelection::Host).is_empty());
    assert_eq!(send(&mut menus, &mut state, &mut room, RESTART, offline), vec![MenuAction::StartGame]);
    send(&mut menus, &mut state, &mut room, DOWN, offline);
    send(&mut menus, &mut state, &mut room, DOWN, offline);
    assert_eq!(send(&mut menus, &mut state, &mut room, OK, offline), vec![MenuAction::QuitToTitle]);
    assert!(matches!(state, State::Title));
    assert!(room.players.is_empty());
}

#[test]
fn pausing_twice_resumes() {
    let mut menus = Menus::new();
    menus.just_saved = true;
    let mut state = State::play();
    let mut room = Room::default();
    let offline = NetworkStateSelection::Offline;
    send(&mut menus, &mut state, &mut room, PAUSE, offline);
    assert!(!menus.just_saved);
    assert_eq!(send(&mut menus, &mut state, &mut room, PAUSE, offline), vec![MenuAction::Steer]);
    assert!(matches!(state, State::Play { pause: None, .. }));
    send(&mut menus, &mut state, &mut room, PAUSE, offline);
    send(&mut menus, &mut state, &mut room, UP, offline);
    assert_eq!(send(&mut menus, &mut state, &mut room, OK, offline), vec![MenuAction::Quit]);
}

#[test]
fn steering_reaches_local_players_only() {
    let mut b = PlayerBinds::default();
    b.left = Bind::new(LEFT, Conbind::Button(0));
    let all = [b, b, b, b];
    let players = vec![Player::new(String::from("a"), InputMethod::new(true, None)), Player::default()];
    let mut units = vec![
        Unit::local(Mode::default_marathon(), MinoController::new(0, None), 7),
        Unit::local(Mode::default_marathon(), MinoController::new(1, None), 7),
        Unit::local(Mode::default_marathon(), MinoController::new(2, None), 7),
    ];
    steer(&mut units, &players, &all, &key(LEFT));
    let dirs: Vec<MoveDirection> = units
        .iter()
        .map(|u| match &u.kind {
            Kind::Local { mino_controller, .. } => mino_controller.move_direction,
            Kind::Network => panic!(),
        })
        .collect();
    assert_eq!(dirs, vec![MoveDirection::Left, MoveDirection::Neither, MoveDirection::Neither]);
}
