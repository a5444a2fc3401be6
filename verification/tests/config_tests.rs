use tetris::config::{Config, ConfigDoc, PlayerBinds, PlayerDoc, TomlValue, CONFIG_PLAYERS};

const SAMPLE: &str = r#"
width = 1280
height = 720
borderless = true
block_size = 24

[[players]]
move_prepeat_duration = 0.2
[players.controls.keyboard]
left = "Left"
right = "Right"
harddrop = "Space"
[players.controls.controller]
left = "dpleft"
softdrop = "lefty"

[[players]]
[players.controls.keyboard]
store = "C"
"#;

#[test]
fn a_config_document_is_read() {
    let doc = ConfigDoc::from_text(SAMPLE).expect("a valid document");
    assert_eq!(doc.width, Some(1280));
    assert_eq!(doc.height, Some(720));
    assert_eq!(doc.borderless, Some(true));
    assert_eq!(doc.block_size, Some(24));
    assert_eq!(doc.players.len(), 2);
    let p = &doc.players[0];
    assert_eq!(p.left.key.as_deref(), Some("Left"));
    assert_eq!(p.left.con.as_deref(), Some("dpleft"));
    assert_eq!(p.right.key.as_deref(), Some("Right"));
    assert_eq!(p.right.con, None);
    assert_eq!(p.harddrop.key.as_deref(), Some("Space"));
    assert_eq!(p.softdrop.con.as_deref(), Some("lefty"));
    assert_eq!(p.store.key, None);
    let q = &doc.players[1];
    assert_eq!(q.store.key.as_deref(), Some("C"));
    assert_eq!(q.left.key, None);
    assert_eq!(q.left.con, None);
}

#[test]
fn missing_settings_are_left_out() {
    let doc = ConfigDoc::from_text("players = []\nwidth = \"wide\"\nborderless = 1\n").expect("a valid document");
    assert_eq!(doc.width, None);
    assert_eq!(doc.height, None);
    assert_eq!(doc.borderless, None);
    assert_eq!(doc.block_size, None);
    assert!(doc.players.is_empty());
    let c = Config::from_doc(&doc, &Vec::new(), &Vec::new());
    assert_eq!(c.width, None);
    assert!(!c.borderless);
    assert_eq!(c.block_size, 30);
    assert_eq!(c.players.len(), CONFIG_PLAYERS);
    assert_eq!(c.binds.len(), CONFIG_PLAYERS);
    assert_eq!(c.binds[0].left.key, None);
}

#[test]
fn text_that_is_not_toml_is_refused() {
    assert!(ConfigDoc::from_text("width = = 3").is_none());
    assert!(ConfigDoc::from_text("[players").is_none());
}

#[test]
fn a_document_without_a_players_array_is_refused() {
    assert!(ConfigDoc::from_text("width = 3").is_none());
    assert!(ConfigDoc::from_text("players = 3").is_none());
}

#[test]
fn a_player_without_controls_is_refused() {
    assert!(ConfigDoc::from_text("[[players]]\nmove_repeat_duration = 0.1\n").is_none());
}

#[test]
fn players_past_the_limit_are_not_read() {
    let mut text = String::new();
    for _ in 0..CONFIG_PLAYERS {
        text.push_str("[[players]]\n[players.controls]\n");
    }
    text.push_str("[[players]]\nname = \"extra\"\n");
    let doc = ConfigDoc::from_text(&text).expect("the extra player is not read");
    assert_eq!(doc.players.len(), CONFIG_PLAYERS);
}

#[test]
fn controls_that_are_not_tables_bind_nothing() {
    let doc = ConfigDoc::from_text("[[players]]\ncontrols = 5\n").expect("a valid document");
    assert_eq!(doc.players[0].left.key, None);
    let doc = ConfigDoc::from_text("[[players]]\n[players.controls]\nkeyboard = \"Left\"\n").expect("a valid document");
    assert_eq!(doc.players[0].left.key, None);
}

fn text(s: &str) -> TomlValue {
    TomlValue::Text(s.to_string())
}

fn table(entries: Vec<(&str, TomlValue)>) -> TomlValue {
    TomlValue::Table(entries.into_iter().map(|(k, v)| (k.to_string(), v)).collect())
}

#[test]
fn a_parsed_document_is_read() {
    let player = table(vec![(
        "controls",
        table(vec![
            ("keyboard", table(vec![("rot_left", text("Z")), ("rot_right", TomlValue::Integer(3))])),
            ("controller", table(vec![("rot_right_alt", text("b"))])),
        ]),
    )]);
    let doc = table(vec![
        ("block_size", TomlValue::Integer(40)),
        ("borderless", TomlValue::Boolean(false)),
        ("height", TomlValue::Other),
        ("players", TomlValue::Array(vec![player])),
    ]);
    let c = ConfigDoc::from_toml(&doc).expect("a document with players");
    assert_eq!(c.block_size, Some(40));
    assert_eq!(c.borderless, Some(false));
    assert_eq!(c.height, None);
    assert_eq!(c.players[0].rot_left.key.as_deref(), Some("Z"));
    assert_eq!(c.players[0].rot_right.key, None);
    assert_eq!(c.players[0].rot_right_alt.con.as_deref(), Some("b"));
    assert!(PlayerDoc::from_toml(&table(vec![])).is_none());
    assert!(ConfigDoc::from_toml(&TomlValue::Array(vec![])).is_none());
}

#[test]
fn the_first_of_two_equal_keys_counts() {
    let t = table(vec![("width", TomlValue::Integer(1)), ("width", TomlValue::Integer(2))]);
    assert!(matches!(t.get("width"), Some(TomlValue::Integer(1))));
    assert!(t.get("height").is_none());
    assert!(TomlValue::Integer(1).get("width").is_none());
}

#[test]
fn binds_and_timings_come_in_as_read() {
    let doc = ConfigDoc::from_text(SAMPLE).expect("a valid document");
    let binds = vec![PlayerBinds::default(); 2];
    let c = Config::from_doc(&doc, &Vec::new(), &binds);
    assert_eq!(c.width, Some(1280));
    assert_eq!(c.height, Some(720));
    assert!(c.borderless);
    assert_eq!(c.block_size, 24);
}
