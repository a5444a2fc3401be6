use vstd::prelude::*;

verus! {

/// Timing settings of one player, in nanoseconds.
#[derive(Clone, Copy, Debug, Default)]
pub struct Player {
    /// How long a side key must be held before the piece starts repeating moves.
    pub move_prepeat_duration: u64,
    /// How long between repeated moves while a side key is held.
    pub move_repeat_duration: u64,
}

/// Defaults of a player's timing, in nanoseconds, when its table names no
/// value: 0.15 s before repeating, 0.05 s between repeats.
pub const DEFAULT_MOVE_PREPEAT: u64 = 150_000_000;

pub const DEFAULT_MOVE_REPEAT: u64 = 50_000_000;

impl Player {
    /// A player's timing from the values its table gives, with the defaults
    /// for those it leaves out.
    pub fn from_values(move_prepeat_duration: Option<u64>, move_repeat_duration: Option<u64>) -> (p: Player)
        ensures
            p.move_prepeat_duration == match move_prepeat_duration {
                Some(d) => d,
                None => DEFAULT_MOVE_PREPEAT,
            },
            p.move_repeat_duration == match move_repeat_duration {
                Some(d) => d,
                None => DEFAULT_MOVE_REPEAT,
            },
    {
        let move_prepeat_duration = match move_prepeat_duration {
            Some(d) => d,
            None => DEFAULT_MOVE_PREPEAT,
        };
        let move_repeat_duration = match move_repeat_duration {
            Some(d) => d,
            None => DEFAULT_MOVE_REPEAT,
        };
        Player { move_prepeat_duration, move_repeat_duration }
    }
}

/// A controller input bound to an action.
#[derive(Clone, Copy, Debug, PartialEq, Eq, Structural)]
pub enum Conbind {
    /// A controller button, by its number.
    Button(i32),
    /// A controller axis pushed past its threshold, by its number.
    Axis(i32),
}

/// The input devices a player uses: the keyboard, a controller, or both.
#[derive(Clone, Copy, Debug, PartialEq, Eq)]
pub struct InputMethod {
    pub keyboard: Option<()>,
    pub controller: Option<usize>,
}

impl InputMethod {
    pub fn new(keyboard: bool, controller: Option<usize>) -> (r: Self)
        ensures
            r.keyboard == (if keyboard { Some(()) } else { None::<()> }),
            r.controller == controller,
    {
        let keyboard = if keyboard { Some(()) } else { None };
        Self { keyboard, controller }
    }
}

/// An input event, as far as bindings are concerned. Key codes, buttons and
/// axes are given by their numbers; `which` is the player-side number of the
/// controller.
#[derive(Clone, Copy, Debug, PartialEq, Eq, Structural)]
pub enum InputEvent {
    KeyDown { keycode: Option<i32>, repeat: bool },
    KeyUp { keycode: Option<i32>, repeat: bool },
    ControllerButtonDown { which: usize, button: i32 },
    ControllerButtonUp { which: usize, button: i32 },
    ControllerAxisDown { which: usize, axis: i32 },
    ControllerAxisUp { which: usize, axis: i32 },
    Other,
}

/// Axis positions from this value on count as pressed.
pub const AXIS_PRESSED: i16 = 4096;

/// Follows an axis that moved to `value`; `down` says whether it counts as
/// pressed. Gives `Some(true)` when it becomes pressed, `Some(false)` when
/// it is let go and `None` when that does not change.
pub fn axis_motion(down: &mut bool, value: i16) -> (r: Option<bool>)
    ensures
        *final(down) == (value >= AXIS_PRESSED),
        r == (if *old(down) != (value >= AXIS_PRESSED) { Some(value >= AXIS_PRESSED) } else { None::<bool> }),
{
    let should_be_down = value >= AXIS_PRESSED;
    if *down != should_be_down {
        *down = should_be_down;
        Some(should_be_down)
    } else {
        None
    }
}

/// A key and a controller input bound to one action; either may be absent.
#[derive(Clone, Copy, Debug, Default)]
pub struct Bind {
    pub key: Option<i32>,
    pub con: Option<Conbind>,
}

/// The event presses (`down`) or releases (`!down`) the bind through one of
/// the player's input devices. Key repeats do not count.
pub open spec fn bind_fires(b: Bind, e: InputEvent, im: InputMethod, down: bool) -> bool {
    match e {
        InputEvent::KeyDown { keycode: Some(k), repeat: false } => down && im.keyboard is Some && b.key == Some(k),
        InputEvent::KeyUp { keycode: Some(k), repeat: false } => !down && im.keyboard is Some && b.key == Some(k),
        InputEvent::ControllerButtonDown { which, button } => down && im.controller == Some(which) && b.con == Some(
            Conbind::Button(button),
        ),
        InputEvent::ControllerButtonUp { which, button } => !down && im.controller == Some(which) && b.con == Some(
            Conbind::Button(button),
        ),
        InputEvent::ControllerAxisDown { which, axis } => down && im.controller == Some(which) && b.con == Some(
            Conbind::Axis(axis),
        ),
        InputEvent::ControllerAxisUp { which, axis } => !down && im.controller == Some(which) && b.con == Some(
            Conbind::Axis(axis),
        ),
        _ => false,
    }
}

/// Releasing is the mirror of pressing: a key, button or axis event
/// releases a bind exactly when the matching press event presses it. A
/// press from the player's own controller of the bind's button or axis
/// presses it, a key press of the bind's key on a player with the keyboard
/// presses it, and nothing else does; repeats of a held key never count.
pub proof fn release_mirrors_press(b: Bind, im: InputMethod, which: usize, n: i32, repeat: bool)
    ensures
        bind_fires(b, InputEvent::KeyUp { keycode: Some(n), repeat }, im, false) == bind_fires(
            b,
            InputEvent::KeyDown { keycode: Some(n), repeat },
            im,
            true,
        ),
        bind_fires(b, InputEvent::ControllerButtonUp { which, button: n }, im, false) == bind_fires(
            b,
            InputEvent::ControllerButtonDown { which, button: n },
            im,
            true,
        ),
        bind_fires(b, InputEvent::ControllerAxisUp { which, axis: n }, im, false) == bind_fires(
            b,
            InputEvent::ControllerAxisDown { which, axis: n },
            im,
            true,
        ),
        bind_fires(b, InputEvent::ControllerButtonDown { which, button: n }, im, true) <==> (im.controller == Some(which)
            && b.con == Some(Conbind::Button(n))),
        bind_fires(b, InputEvent::ControllerAxisDown { which, axis: n }, im, true) <==> (im.controller == Some(which)
            && b.con == Some(Conbind::Axis(n))),
        bind_fires(b, InputEvent::KeyDown { keycode: Some(n), repeat }, im, true) <==> (!repeat && im.keyboard is Some
            && b.key == Some(n)),
        !bind_fires(b, InputEvent::KeyDown { keycode: Some(n), repeat }, im, false),
        !bind_fires(b, InputEvent::KeyUp { keycode: Some(n), repeat }, im, true),
        !bind_fires(b, InputEvent::ControllerButtonDown { which, button: n }, im, false),
        !bind_fires(b, InputEvent::ControllerButtonUp { which, button: n }, im, true),
{
}

impl Bind {
    pub fn new(key: i32, con: Conbind) -> (r: Self)
        ensures
            r.key == Some(key),
            r.con == Some(con),
    {
        Bind { key: Some(key), con: Some(con) }
    }

    /// The event presses this bind.
    pub fn is_down(&self, event: &InputEvent, input_method: &InputMethod) -> (r: bool)
        ensures
            r == bind_fires(*self, *event, *input_method, true),
    {
        match *event {
            InputEvent::KeyDown { keycode: Some(k), repeat: false } => input_method.keyboard.is_some() && key_is(
                self.key,
                k,
            ),
            InputEvent::ControllerButtonDown { which, button } => controller_is(input_method.controller, which)
                && con_is(self.con, Conbind::Button(button)),
            InputEvent::ControllerAxisDown { which, axis } => controller_is(input_method.controller, which)
                && con_is(self.con, Conbind::Axis(axis)),
            _ => false,
        }
    }

    /// The event releases this bind.
    pub fn is_up(&self, event: &InputEvent, input_method: &InputMethod) -> (r: bool)
        ensures
            r == bind_fires(*self, *event, *input_method, false),
    {
        match *event {
            InputEvent::KeyUp { keycode: Some(k), repeat: false } => input_method.keyboard.is_some() && key_is(
                self.key,
                k,
            ),
            InputEvent::ControllerButtonUp { which, button } => controller_is(input_method.controller, which)
                && con_is(self.con, Conbind::Button(button)),
            InputEvent::ControllerAxisUp { which, axis } => controller_is(input_method.controller, which)
                && con_is(self.con, Conbind::Axis(axis)),
            _ => false,
        }
    }
}

fn key_is(key: Option<i32>, k: i32) -> (r: bool)
    ensures
        r == (key == Some(k)),
{
    match key {
        Some(a) => a == k,
        None => false,
    }
}

fn controller_is(controller: Option<usize>, which: usize) -> (r: bool)
    ensures
        r == (controller == Some(which)),
{
    match controller {
        Some(id) => id == which,
        None => false,
    }
}

fn con_is(con: Option<Conbind>, c: Conbind) -> (r: bool)
    ensures
        r == (con == Some(c)),
{
    match con {
        Some(Conbind::Button(a)) => match c {
            Conbind::Button(b) => a == b,
            Conbind::Axis(_) => false,
        },
        Some(Conbind::Axis(a)) => match c {
            Conbind::Axis(b) => a == b,
            Conbind::Button(_) => false,
        },
        None => false,
    }
}

/// The binds used in menus.
#[derive(Clone, Copy, Debug)]
pub struct MenuBinds {
    pub up: Bind,
    pub down: Bind,
    pub left: Bind,
    pub right: Bind,
    pub ok: Bind,
    pub add_player: Bind,
    pub pause: Bind,
    pub restart: Bind,
}

/// The binds of one player in a game.
#[derive(Clone, Copy, Debug, Default)]
pub struct PlayerBinds {
    pub left: Bind,
    pub left_alt: Bind,
    pub right: Bind,
    pub right_alt: Bind,
    pub rot_left: Bind,
    pub rot_right: Bind,
    pub rot_right_alt: Bind,
    pub softdrop: Bind,
    pub softdrop_alt: Bind,
    pub harddrop: Bind,
    pub store: Bind,
}

/// Number of players a configuration holds settings for.
pub const CONFIG_PLAYERS: usize = 8;

/// The game's settings.
pub struct Config {
    pub width: Option<u32>,
    pub height: Option<u32>,
    pub borderless: bool,
    pub block_size: u32,
    /// Timing of each player, `CONFIG_PLAYERS` of them.
    pub players: Vec<Player>,
    /// Binds of each player, `CONFIG_PLAYERS` of them.
    pub binds: Vec<PlayerBinds>,
}

/// The first `n` items of `v`, followed by as many `fill` as it takes to
/// have `n`.
pub open spec fn padded_seq<T>(v: Seq<T>, n: int, fill: T) -> Seq<T> {
    Seq::new(n as nat, |i: int| if i < v.len() { v[i] } else { fill })
}

fn padded<T: Copy>(v: &Vec<T>, n: usize, fill: T) -> (r: Vec<T>)
    ensures
        r@ == padded_seq(v@, n as int, fill),
{
    let mut r: Vec<T> = Vec::new();
    let mut i: usize = 0;
    while i < n
        invariant
            0 <= i <= n,
            r@ == padded_seq(v@, i as int, fill),
        decreases n - i,
    {
        if i < v.len() {
            r.push(v[i]);
        } else {
            r.push(fill);
        }
        i = i + 1;
        assert(r@ =~= padded_seq(v@, i as int, fill));
    }
    r
}

/// A bind to nothing.
pub open spec fn unbound() -> Bind {
    Bind { key: None, con: None }
}

/// Binds with nothing bound.
pub open spec fn no_binds() -> PlayerBinds {
    PlayerBinds {
        left: unbound(),
        left_alt: unbound(),
        right: unbound(),
        right_alt: unbound(),
        rot_left: unbound(),
        rot_right: unbound(),
        rot_right_alt: unbound(),
        softdrop: unbound(),
        softdrop_alt: unbound(),
        harddrop: unbound(),
        store: unbound(),
    }
}

/// `c` holds the settings that these values give (see `Config::from_values`).
pub open spec fn settings_from(
    c: Config,
    width: Option<i64>,
    height: Option<i64>,
    borderless: Option<bool>,
    block_size: Option<i64>,
    players: Seq<Player>,
    binds: Seq<PlayerBinds>,
) -> bool {
    &&& c.width == match width {
        Some(a) => Some(a as u32),
        None => None::<u32>,
    }
    &&& c.height == match height {
        Some(a) => Some(a as u32),
        None => None::<u32>,
    }
    &&& c.borderless == match borderless {
        Some(b) => b,
        None => false,
    }
    &&& c.block_size == match block_size {
        Some(a) => a as u32,
        None => 30u32,
    }
    &&& c.players@ == padded_seq(players, CONFIG_PLAYERS as int, Player { move_prepeat_duration: 0, move_repeat_duration: 0 })
    &&& c.binds@ == padded_seq(binds, CONFIG_PLAYERS as int, no_binds())
}

impl Config {
    /// The settings that a configuration document gives, with the timing
    /// and the binds of its players as read apart.
    pub fn from_doc(doc: &ConfigDoc, players: &Vec<Player>, binds: &Vec<PlayerBinds>) -> (c: Config)
        ensures
            settings_from(c, doc.width, doc.height, doc.borderless, doc.block_size, players@, binds@),
    {
        Config::from_values(doc.width, doc.height, doc.borderless, doc.block_size, players, binds)
    }

    /// The settings from the values a configuration file gives: the window
    /// sizes (taken modulo 2^32), whether the window has no border (no by
    /// default), the block size (30 by default), and the timing and binds of
    /// each player listed, in order. Players past `CONFIG_PLAYERS` are
    /// ignored; those missing get zero timing and no binds.
    pub fn from_values(
        width: Option<i64>,
        height: Option<i64>,
        borderless: Option<bool>,
        block_size: Option<i64>,
        players: &Vec<Player>,
        binds: &Vec<PlayerBinds>,
    ) -> (c: Config)
        ensures
            settings_from(c, width, height, borderless, block_size, players@, binds@),
    {
        let width = match width {
            Some(a) => Some(a as u32),
            None => None,
        };
        let height = match height {
            Some(a) => Some(a as u32),
            None => None,
        };
        let borderless = match borderless {
            Some(b) => b,
            None => false,
        };
        let block_size = match block_size {
            Some(a) => a as u32,
            None => 30,
        };
        let none = Bind { key: None, con: None };
        let unset = PlayerBinds {
            left: none,
            left_alt: none,
            right: none,
            right_alt: none,
            rot_left: none,
            rot_right: none,
            rot_right_alt: none,
            softdrop: none,
            softdrop_alt: none,
            harddrop: none,
            store: none,
        };
        let players = padded(players, CONFIG_PLAYERS, Player { move_prepeat_duration: 0, move_repeat_duration: 0 });
        let binds = padded(binds, CONFIG_PLAYERS, unset);
        Config { width, height, borderless, block_size, players, binds }
    }
}

/// A value of a TOML document, as far as the settings read it. Floats and
/// dates are kept only as `Other`.
pub enum TomlValue {
    Text(String),
    Integer(i64),
    Boolean(bool),
    Array(Vec<TomlValue>),
    /// The entries of a table, each key with its value.
    Table(Vec<(String, TomlValue)>),
    Other,
}

#[verifier::external_type_specification]
#[verifier::external_body]
pub struct ExTomlValue(toml::Value);

/// The document that the TOML text `text` holds, or `None` where the text
/// is not valid TOML.
pub uninterp spec fn toml_of(text: Seq<char>) -> Option<TomlValue>;

/// `str::parse::<toml::Value>` (`toml::from_str`): the document written in
/// `s`, or `None` where `toml` refuses the text; `toml_value_doc` turns the
/// value into a `TomlValue`. The grammar is not stated: the result is named
/// `toml_of`, a function of the text alone. The crate documents no panic on
/// any text.
#[verifier::external_body]
fn parse_toml(s: &str) -> (r: Option<TomlValue>)
    ensures
        r == toml_of(s@),
{
    s.parse::<toml::Value>().ok().map(toml_value_doc)
}

/// The conversion half of `parse_toml`, written apart because it recurses:
/// turns a `toml::Value` into the same value of `TomlValue`, variant for
/// variant (floats and dates into `Other`); a table's entries come in the
/// order of the `toml` map, which holds each key once. Nothing is stated of
/// it here: `parse_toml` states what the two give together.
#[verifier::external_body]
fn toml_value_doc(v: toml::Value) -> TomlValue {
    match v {
        toml::Value::String(s) => TomlValue::Text(s),
        toml::Value::Integer(i) => TomlValue::Integer(i),
        toml::Value::Boolean(b) => TomlValue::Boolean(b),
        toml::Value::Array(a) => TomlValue::Array(a.into_iter().map(toml_value_doc).collect()),
        toml::Value::Table(t) => TomlValue::Table(t.into_iter().map(|(k, v)| (k, toml_value_doc(v))).collect()),
        toml::Value::Float(_) => TomlValue::Other,
        toml::Value::Datetime(_) => TomlValue::Other,
    }
}

/// `i` is the first entry of `t` whose key is `key`.
pub open spec fn first_key_at(t: Seq<(String, TomlValue)>, key: Seq<char>, i: int) -> bool {
    &&& 0 <= i < t.len()
    &&& t[i].0@ == key
    &&& forall|j: int| 0 <= j < i ==> (#[trigger] t[j]).0@ != key
}

/// The value under `key` when `v` is a table that has it (the first such
/// entry); `None` otherwise.
pub open spec fn toml_get(v: TomlValue, key: Seq<char>) -> Option<TomlValue> {
    match v {
        TomlValue::Table(t) => if exists|i: int| first_key_at(t@, key, i) {
            Some(t@[choose|i: int| first_key_at(t@, key, i)].1)
        } else {
            None
        },
        _ => None,
    }
}

/// The value under `key` of `v`, where `v` is a table and has that key.
pub open spec fn get_in(v: Option<TomlValue>, key: Seq<char>) -> Option<TomlValue> {
    match v {
        Some(t) => toml_get(t, key),
        None => None,
    }
}

/// The integer that `v` is, if it is one.
pub open spec fn as_integer(v: Option<TomlValue>) -> Option<i64> {
    match v {
        Some(TomlValue::Integer(n)) => Some(n),
        _ => None,
    }
}

/// The boolean that `v` is, if it is one.
pub open spec fn as_boolean(v: Option<TomlValue>) -> Option<bool> {
    match v {
        Some(TomlValue::Boolean(b)) => Some(b),
        _ => None,
    }
}

/// The string that `v` is, if it is one.
pub open spec fn as_text(v: Option<TomlValue>) -> Option<String> {
    match v {
        Some(TomlValue::Text(s)) => Some(s),
        _ => None,
    }
}

/// `a` and `b` are the same text.
fn same_text(a: &str, b: &str) -> (r: bool)
    ensures
        r == (a@ == b@),
{
    let n = a.unicode_len();
    if n != b.unicode_len() {
        return false;
    }
    let mut i: usize = 0;
    while i < n
        invariant
            0 <= i <= n,
            n == a@.len(),
            n == b@.len(),
            a@.take(i as int) == b@.take(i as int),
        decreases n - i,
    {
        if a.get_char(i) != b.get_char(i) {
            assert(a@[i as int] != b@[i as int]);
            return false;
        }
        assert(a@.take(i + 1) =~= a@.take(i as int).push(a@[i as int]));
        assert(b@.take(i + 1) =~= b@.take(i as int).push(b@[i as int]));
        i = i + 1;
    }
    assert(a@ =~= a@.take(n as int));
    assert(b@ =~= b@.take(n as int));
    true
}

impl TomlValue {
    /// The value under `key`, where this is a table that has the key.
    pub fn get(&self, key: &str) -> (r: Option<&TomlValue>)
        ensures
            match r {
                Some(x) => toml_get(*self, key@) == Some(*x),
                None => toml_get(*self, key@) is None,
            },
    {
        match self {
            TomlValue::Table(t) => {
                let mut i: usize = 0;
                while i < t.len()
                    invariant
                        0 <= i <= t@.len(),
                        *self == TomlValue::Table(*t),
                        forall|j: int| 0 <= j < i ==> (#[trigger] t@[j]).0@ != key@,
                    decreases t@.len() - i,
                {
                    if same_text(t[i].0.as_str(), key) {
                        assert(first_key_at(t@, key@, i as int));
                        let ghost c = choose|k: int| first_key_at(t@, key@, k);
                        assert(c == i) by {
                            if c < i {
                                assert(t@[c].0@ != key@);
                            } else if c > i {
                                assert(t@[i as int].0@ != key@);
                            }
                        }
                        let found = &t[i].1;
                        assert(exists|k: int| first_key_at(t@, key@, k));
                        assert(toml_get(*self, key@) == Some(t@[c].1));
                        return Some(found);
                    }
                    i = i + 1;
                }
                None
            },
            _ => None,
        }
    }
}

/// The names bound to one action in a player's table: the key name under
/// `controls.keyboard` and the controller input name under
/// `controls.controller`, where each is given as a string.
pub struct BindNames {
    pub key: Option<String>,
    pub con: Option<String>,
}

/// The bind names of one player, one per action.
pub struct PlayerDoc {
    pub left: BindNames,
    pub left_alt: BindNames,
    pub right: BindNames,
    pub right_alt: BindNames,
    pub rot_left: BindNames,
    pub rot_right: BindNames,
    pub rot_right_alt: BindNames,
    pub softdrop: BindNames,
    pub softdrop_alt: BindNames,
    pub harddrop: BindNames,
    pub store: BindNames,
}

/// What the settings read from a configuration document, floats aside: the
/// window sizes, whether the window is borderless, the block size, and the
/// bind names of each of the first `CONFIG_PLAYERS` players listed.
pub struct ConfigDoc {
    pub width: Option<i64>,
    pub height: Option<i64>,
    pub borderless: Option<bool>,
    pub block_size: Option<i64>,
    pub players: Vec<PlayerDoc>,
}

/// The names bound to the action `name`, with `kb` and `ct` the player's
/// keyboard and controller tables where it has them.
pub open spec fn bind_names_of(kb: Option<TomlValue>, ct: Option<TomlValue>, name: Seq<char>) -> BindNames {
    BindNames { key: as_text(get_in(kb, name)), con: as_text(get_in(ct, name)) }
}

/// The bind names of the player whose table is `p`; `None` where the table
/// has no `controls`.
pub open spec fn player_doc_of(p: TomlValue) -> Option<PlayerDoc> {
    match toml_get(p, "controls"@) {
        Some(c) => {
            let kb = toml_get(c, "keyboard"@);
            let ct = toml_get(c, "controller"@);
            Some(PlayerDoc {
            left: bind_names_of(kb, ct, "left"@),
            left_alt: bind_names_of(kb, ct, "left_alt"@),
            right: bind_names_of(kb, ct, "right"@),
            right_alt: bind_names_of(kb, ct, "right_alt"@),
            rot_left: bind_names_of(kb, ct, "rot_left"@),
            rot_right: bind_names_of(kb, ct, "rot_right"@),
            rot_right_alt: bind_names_of(kb, ct, "rot_right_alt"@),
            softdrop: bind_names_of(kb, ct, "softdrop"@),
            softdrop_alt: bind_names_of(kb, ct, "softdrop_alt"@),
            harddrop: bind_names_of(kb, ct, "harddrop"@),
            store: bind_names_of(kb, ct, "store"@),
            })
        },
        None => None,
    }
}

/// How many of the players listed the settings read.
pub open spec fn players_read(n: int) -> int {
    if n < CONFIG_PLAYERS { n } else { CONFIG_PLAYERS as int }
}

/// `r` is what the settings read from the document `doc`: `None` where it
/// has no array `players` or one of the players read has no `controls`.
pub open spec fn config_doc_from(doc: TomlValue, r: Option<ConfigDoc>) -> bool {
    match toml_get(doc, "players"@) {
        Some(TomlValue::Array(a)) => {
            let n = players_read(a@.len() as int);
            if forall|i: int| 0 <= i < n ==> (#[trigger] player_doc_of(a@[i])) is Some {
                &&& r matches Some(c)
                &&& c.width == as_integer(toml_get(doc, "width"@))
                &&& c.height == as_integer(toml_get(doc, "height"@))
                &&& c.borderless == as_boolean(toml_get(doc, "borderless"@))
                &&& c.block_size == as_integer(toml_get(doc, "block_size"@))
                &&& c.players@.len() == n
                &&& forall|i: int| 0 <= i < n ==> player_doc_of(a@[i]) == Some(#[trigger] c.players@[i])
            } else {
                r is None
            }
        },
        _ => r is None,
    }
}

/// `r` is what the settings read from the text `text`: `None` also where the
/// text is not a TOML document.
pub open spec fn config_doc_of(text: Seq<char>, r: Option<ConfigDoc>) -> bool {
    match toml_of(text) {
        Some(doc) => config_doc_from(doc, r),
        None => r is None,
    }
}

/// The string under `name` in the table `t`, where there is one.
fn text_under(t: Option<&TomlValue>, name: &str) -> (r: Option<String>)
    ensures
        r == match t {
            Some(v) => as_text(toml_get(*v, name@)),
            None => None,
        },
{
    match t {
        Some(v) => match v.get(name) {
            Some(TomlValue::Text(s)) => Some(s.clone()),
            _ => None,
        },
        None => None,
    }
}

fn bind_names(kb: Option<&TomlValue>, ct: Option<&TomlValue>, name: &str) -> (b: BindNames)
    ensures
        b.key == match kb {
            Some(v) => as_text(toml_get(*v, name@)),
            None => None,
        },
        b.con == match ct {
            Some(v) => as_text(toml_get(*v, name@)),
            None => None,
        },
{
    BindNames { key: text_under(kb, name), con: text_under(ct, name) }
}

/// The integer under `name` in `doc`, where there is one.
fn integer_under(doc: &TomlValue, name: &str) -> (r: Option<i64>)
    ensures
        r == as_integer(toml_get(*doc, name@)),
{
    match doc.get(name) {
        Some(TomlValue::Integer(n)) => Some(*n),
        _ => None,
    }
}

/// The boolean under `name` in `doc`, where there is one.
fn boolean_under(doc: &TomlValue, name: &str) -> (r: Option<bool>)
    ensures
        r == as_boolean(toml_get(*doc, name@)),
{
    match doc.get(name) {
        Some(TomlValue::Boolean(b)) => Some(*b),
        _ => None,
    }
}

impl PlayerDoc {
    /// The bind names in a player's table (see `player_doc_of`).
    pub fn from_toml(p: &TomlValue) -> (r: Option<PlayerDoc>)
        ensures
            r == player_doc_of(*p),
    {
        match p.get("controls") {
            Some(c) => {
                let kb = c.get("keyboard");
                let ct = c.get("controller");
                Some(PlayerDoc {
                    left: bind_names(kb, ct, "left"),
                    left_alt: bind_names(kb, ct, "left_alt"),
                    right: bind_names(kb, ct, "right"),
                    right_alt: bind_names(kb, ct, "right_alt"),
                    rot_left: bind_names(kb, ct, "rot_left"),
                    rot_right: bind_names(kb, ct, "rot_right"),
                    rot_right_alt: bind_names(kb, ct, "rot_right_alt"),
                    softdrop: bind_names(kb, ct, "softdrop"),
                    softdrop_alt: bind_names(kb, ct, "softdrop_alt"),
                    harddrop: bind_names(kb, ct, "harddrop"),
                    store: bind_names(kb, ct, "store"),
                })
            },
            None => None,
        }
    }
}

impl ConfigDoc {
    /// What the settings read from a parsed document (see `config_doc_from`).
    pub fn from_toml(doc: &TomlValue) -> (r: Option<ConfigDoc>)
        ensures
            config_doc_from(*doc, r),
    {
        match doc.get("players") {
            Some(TomlValue::Array(a)) => {
                let n = if a.len() < CONFIG_PLAYERS { a.len() } else { CONFIG_PLAYERS };
                let mut players: Vec<PlayerDoc> = Vec::new();
                let mut i: usize = 0;
                while i < n
                    invariant
                        0 <= i <= n,
                        n == players_read(a@.len() as int),
                        toml_get(*doc, "players"@) == Some(TomlValue::Array(*a)),
                        players@.len() == i,
                        forall|j: int| 0 <= j < i ==> player_doc_of(a@[j]) == Some(#[trigger] players@[j]),
                    decreases n - i,
                {
                    match PlayerDoc::from_toml(&a[i]) {
                        Some(p) => players.push(p),
                        None => {
                            assert(player_doc_of(a@[i as int]) is None);
                            return None;
                        },
                    }
                    i = i + 1;
                }
                assert forall|j: int| 0 <= j < n implies (#[trigger] player_doc_of(a@[j])) is Some by {
                    assert(player_doc_of(a@[j]) == Some(players@[j]));
                }
                Some(ConfigDoc {
                    width: integer_under(doc, "width"),
                    height: integer_under(doc, "height"),
                    borderless: boolean_under(doc, "borderless"),
                    block_size: integer_under(doc, "block_size"),
                    players,
                })
            },
            _ => None,
        }
    }

    /// What the settings read from the text of a configuration file (see
    /// `config_doc_of`).
    pub fn from_text(s: &str) -> (r: Option<ConfigDoc>)
        ensures
            config_doc_of(s@, r),
    {
        match parse_toml(s) {
            Some(doc) => ConfigDoc::from_toml(&doc),
            None => None,
        }
    }
}

} // verus!
