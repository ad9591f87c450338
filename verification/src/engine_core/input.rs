//! Input: keyboard, mouse and gamepad codes, frame-level button state
//! (just pressed, held, just released) and named input actions.
//!
//! Pointer positions, scroll amounts and analog axes are floating-point
//! values and are tracked outside this library.
use vstd::prelude::*;
use crate::text::{owned, str_eq, last_index_of, lemma_last_index_bounds, lemma_last_index_prefix};

verus! {

/// Keyboard key codes.
#[derive(Debug, Clone, Copy, PartialEq, Eq, Hash, Structural)]
pub enum KeyCode {
    // Letters
    A,
    B,
    C,
    D,
    E,
    F,
    G,
    H,
    I,
    J,
    K,
    L,
    M,
    N,
    O,
    P,
    Q,
    R,
    S,
    T,
    U,
    V,
    W,
    X,
    Y,
    Z,
    // Digits
    Key0,
    Key1,
    Key2,
    Key3,
    Key4,
    Key5,
    Key6,
    Key7,
    Key8,
    Key9,
    // Function keys
    F1,
    F2,
    F3,
    F4,
    F5,
    F6,
    F7,
    F8,
    F9,
    F10,
    F11,
    F12,
    // Control keys
    Escape,
    Enter,
    Space,
    Tab,
    Backspace,
    Delete,
    Insert,
    Home,
    End,
    PageUp,
    PageDown,
    // Arrow keys
    Left,
    Right,
    Up,
    Down,
    // Modifiers
    LShift,
    RShift,
    LCtrl,
    RCtrl,
    LAlt,
    RAlt,
    LMeta,
    RMeta,
    // Numeric keypad
    Num0,
    Num1,
    Num2,
    Num3,
    Num4,
    Num5,
    Num6,
    Num7,
    Num8,
    Num9,
    NumAdd,
    NumSub,
    NumMul,
    NumDiv,
    NumEnter,
    NumDot,
    // Other keys
    Semicolon,
    Comma,
    Period,
    Slash,
    Backslash,
    LeftBracket,
    RightBracket,
    Quote,
    Backtick,
    Minus,
    Equals,
    CapsLock,
    NumLock,
    ScrollLock,
    PrintScreen,
    Pause,
    Unknown(u32),
}

/// Mouse buttons.
#[derive(Debug, Clone, Copy, PartialEq, Eq, Hash, Structural)]
pub enum MouseButton {
    Left,
    Right,
    Middle,
    X1,
    X2,
    Other(u8),
}

/// Gamepad buttons.
#[derive(Debug, Clone, Copy, PartialEq, Eq, Hash, Structural)]
pub enum GamepadButton {
    /// A / Cross.
    South,
    /// B / Circle.
    East,
    /// X / Square.
    West,
    /// Y / Triangle.
    North,
    LBumper,
    RBumper,
    LTrigger,
    RTrigger,
    Select,
    Start,
    Guide,
    LStick,
    RStick,
    DPadUp,
    DPadDown,
    DPadLeft,
    DPadRight,
}

/// Gamepad axes.
#[derive(Debug, Clone, Copy, PartialEq, Eq, Hash, Structural)]
pub enum GamepadAxis {
    LeftX,
    LeftY,
    RightX,
    RightY,
    LeftTrigger,
    RightTrigger,
}

/// What can trigger an input action.
#[derive(Debug, Clone, Copy, PartialEq, Eq, Hash, Structural)]
pub enum InputBinding {
    Key(KeyCode),
    Mouse(MouseButton),
    Gamepad { id: u8, button: GamepadButton },
}

/// A named input action and the bindings that trigger it.
#[derive(Debug)]
pub struct InputAction {
    pub name: String,
    pub bindings: Vec<InputBinding>,
}

impl InputAction {
    /// An action without bindings.
    pub fn new(name: &str) -> (a: InputAction)
        ensures
            a.name@ == name@,
            a.bindings@ == Seq::<InputBinding>::empty(),
    {
        InputAction { name: owned(name), bindings: Vec::new() }
    }

    /// Adds a key binding.
    pub fn with_key(self, key: KeyCode) -> (a: InputAction)
        ensures
            a.name@ == self.name@,
            a.bindings@ == self.bindings@.push(InputBinding::Key(key)),
    {
        let mut a = self;
        a.bindings.push(InputBinding::Key(key));
        a
    }

    /// Adds a mouse button binding.
    pub fn with_mouse(self, button: MouseButton) -> (a: InputAction)
        ensures
            a.name@ == self.name@,
            a.bindings@ == self.bindings@.push(InputBinding::Mouse(button)),
    {
        let mut a = self;
        a.bindings.push(InputBinding::Mouse(button));
        a
    }
}

/// The frame-level state of one kind of button: what went down this frame,
/// what is held, what went up this frame, and what was down before.
#[verifier::reject_recursive_types(T)]
pub struct ButtonFrames<T> {
    pub pressed: Set<T>,
    pub held: Set<T>,
    pub released: Set<T>,
    pub prev: Set<T>,
}

/// A button goes down: it is just pressed unless it was already down.
pub open spec fn press<T>(m: ButtonFrames<T>, b: T) -> ButtonFrames<T> {
    ButtonFrames {
        pressed: if m.prev.contains(b) { m.pressed } else { m.pressed.insert(b) },
        held: m.held.insert(b),
        released: m.released,
        prev: m.prev.insert(b),
    }
}

/// A button goes up.
pub open spec fn release<T>(m: ButtonFrames<T>, b: T) -> ButtonFrames<T> {
    ButtonFrames { pressed: m.pressed, held: m.held.remove(b), released: m.released.insert(b), prev: m.prev.remove(b) }
}

/// A new frame starts: nothing is just pressed or just released any more.
pub open spec fn next_frame<T>(m: ButtonFrames<T>) -> ButtonFrames<T> {
    ButtonFrames { pressed: Set::empty(), held: m.held, released: Set::empty(), prev: m.prev }
}

/// No button is down, pressed or released.
pub open spec fn no_buttons<T>() -> ButtonFrames<T> {
    ButtonFrames { pressed: Set::empty(), held: Set::empty(), released: Set::empty(), prev: Set::empty() }
}

/// Whether binding `b` is active for the keys `keys` and mouse buttons `mouse`
/// (gamepad bindings never are).
pub open spec fn binding_active(b: InputBinding, keys: Set<KeyCode>, mouse: Set<MouseButton>) -> bool {
    match b {
        InputBinding::Key(k) => keys.contains(k),
        InputBinding::Mouse(m) => mouse.contains(m),
        InputBinding::Gamepad { .. } => false,
    }
}

/// Whether some binding of `bs` is active.
pub open spec fn any_active(bs: Seq<InputBinding>, keys: Set<KeyCode>, mouse: Set<MouseButton>) -> bool {
    exists|i: int| 0 <= i < bs.len() && binding_active(#[trigger] bs[i], keys, mouse)
}

/// Whether the action whose bindings are `bs` (if it exists) is active.
pub open spec fn action_active(bs: Option<Seq<InputBinding>>, keys: Set<KeyCode>, mouse: Set<MouseButton>) -> bool {
    match bs {
        Some(bs) => any_active(bs, keys, mouse),
        None => false,
    }
}

fn key_contains(v: &Vec<KeyCode>, k: KeyCode) -> (b: bool)
    ensures
        b == v@.to_set().contains(k),
{
    let mut i: usize = 0;
    while i < v.len()
        invariant
            i <= v@.len(),
            forall|j: int| 0 <= j < i ==> v@[j] != k,
        decreases v@.len() - i,
    {
        if v[i] == k {
            assert(v@.contains(k));
            return true;
        }
        i = i + 1;
    }
    false
}

fn key_insert(v: &mut Vec<KeyCode>, k: KeyCode)
    ensures
        final(v)@.to_set() == old(v)@.to_set().insert(k),
{
    if !key_contains(v, k) {
        let ghost before = v@;
        v.push(k);
        assert(v@.to_set() =~= before.to_set().insert(k)) by {
            assert forall|x: KeyCode| v@.contains(x) <==> before.contains(x) || x == k by {
                if v@.contains(x) && x != k {
                    let j = choose|j: int| 0 <= j < v@.len() && v@[j] == x;
                    assert(before[j] == x);
                }
                if before.contains(x) {
                    let j = choose|j: int| 0 <= j < before.len() && before[j] == x;
                    assert(v@[j] == x);
                }
                if x == k {
                    assert(v@[before.len() as int] == k);
                }
            }
        }
    } else {
        assert(v@.to_set() =~= v@.to_set().insert(k));
    }
}

fn key_remove(v: &mut Vec<KeyCode>, k: KeyCode)
    ensures
        final(v)@.to_set() == old(v)@.to_set().remove(k),
{
    let mut out: Vec<KeyCode> = Vec::new();
    let mut i: usize = 0;
    while i < v.len()
        invariant
            i <= v@.len(),
            forall|x: KeyCode| out@.contains(x) <==> (x != k && v@.take(i as int).contains(x)),
        decreases v@.len() - i,
    {
        let ghost prev = out@;
        let x = v[i];
        assert(v@.take(i + 1) =~= v@.take(i as int).push(x));
        if x != k {
            out.push(x);
            assert(out@ =~= prev.push(x));
        }
        assert forall|y: KeyCode| out@.contains(y) <==> (y != k && v@.take(i + 1).contains(y)) by {
            let t0 = v@.take(i as int);
            let t1 = v@.take(i + 1);
            if out@.contains(y) && y != x {
                let j = choose|j: int| 0 <= j < out@.len() && out@[j] == y;
                if x != k {
                    assert(prev[j] == y);
                }
                assert(prev.contains(y));
                let m = choose|m: int| 0 <= m < t0.len() && t0[m] == y;
                assert(t1[m] == y);
            }
            if out@.contains(y) && y == x {
                assert(t1[i as int] == y);
            }
            if y != k && t1.contains(y) {
                let m = choose|m: int| 0 <= m < t1.len() && t1[m] == y;
                if m < i {
                    assert(t0[m] == y);
                    assert(prev.contains(y));
                    let j = choose|j: int| 0 <= j < prev.len() && prev[j] == y;
                    assert(out@[j] == y);
                } else {
                    assert(y == x);
                    assert(out@[prev.len() as int] == y);
                }
            }
        }
        i = i + 1;
    }
    assert(v@.take(v@.len() as int) =~= v@);
    let ghost before = v@;
    *v = out;
    assert(v@.to_set() =~= before.to_set().remove(k));
}

fn mouse_contains(v: &Vec<MouseButton>, k: MouseButton) -> (b: bool)
    ensures
        b == v@.to_set().contains(k),
{
    let mut i: usize = 0;
    while i < v.len()
        invariant
            i <= v@.len(),
            forall|j: int| 0 <= j < i ==> v@[j] != k,
        decreases v@.len() - i,
    {
        if v[i] == k {
            assert(v@.contains(k));
            return true;
        }
        i = i + 1;
    }
    false
}

fn mouse_insert(v: &mut Vec<MouseButton>, k: MouseButton)
    ensures
        final(v)@.to_set() == old(v)@.to_set().insert(k),
{
    if !mouse_contains(v, k) {
        let ghost before = v@;
        v.push(k);
        assert(v@.to_set() =~= before.to_set().insert(k)) by {
            assert forall|x: MouseButton| v@.contains(x) <==> before.contains(x) || x == k by {
                if v@.contains(x) && x != k {
                    let j = choose|j: int| 0 <= j < v@.len() && v@[j] == x;
                    assert(before[j] == x);
                }
                if before.contains(x) {
                    let j = choose|j: int| 0 <= j < before.len() && before[j] == x;
                    assert(v@[j] == x);
                }
                if x == k {
                    assert(v@[before.len() as int] == k);
                }
            }
        }
    } else {
        assert(v@.to_set() =~= v@.to_set().insert(k));
    }
}

fn mouse_remove(v: &mut Vec<MouseButton>, k: MouseButton)
    ensures
        final(v)@.to_set() == old(v)@.to_set().remove(k),
{
    let mut out: Vec<MouseButton> = Vec::new();
    let mut i: usize = 0;
    while i < v.len()
        invariant
            i <= v@.len(),
            forall|x: MouseButton| out@.contains(x) <==> (x != k && v@.take(i as int).contains(x)),
        decreases v@.len() - i,
    {
        let ghost prev = out@;
        let x = v[i];
        assert(v@.take(i + 1) =~= v@.take(i as int).push(x));
        if x != k {
            out.push(x);
            assert(out@ =~= prev.push(x));
        }
        assert forall|y: MouseButton| out@.contains(y) <==> (y != k && v@.take(i + 1).contains(y)) by {
            let t0 = v@.take(i as int);
            let t1 = v@.take(i + 1);
            if out@.contains(y) && y != x {
                let j = choose|j: int| 0 <= j < out@.len() && out@[j] == y;
                if x != k {
                    assert(prev[j] == y);
                }
                assert(prev.contains(y));
                let m = choose|m: int| 0 <= m < t0.len() && t0[m] == y;
                assert(t1[m] == y);
            }
            if out@.contains(y) && y == x {
                assert(t1[i as int] == y);
            }
            if y != k && t1.contains(y) {
                let m = choose|m: int| 0 <= m < t1.len() && t1[m] == y;
                if m < i {
                    assert(t0[m] == y);
                    assert(prev.contains(y));
                    let j = choose|j: int| 0 <= j < prev.len() && prev[j] == y;
                    assert(out@[j] == y);
                } else {
                    assert(y == x);
                    assert(out@[prev.len() as int] == y);
                }
            }
        }
        i = i + 1;
    }
    assert(v@.take(v@.len() as int) =~= v@);
    let ghost before = v@;
    *v = out;
    assert(v@.to_set() =~= before.to_set().remove(k));
}

/// Keyboard and mouse button state of the current frame.
#[derive(Debug)]
pub struct InputState {
    keys_pressed: Vec<KeyCode>,
    keys_held: Vec<KeyCode>,
    keys_released: Vec<KeyCode>,
    mouse_pressed: Vec<MouseButton>,
    mouse_held: Vec<MouseButton>,
    mouse_released: Vec<MouseButton>,
}

impl InputState {
    /// Keys that went down this frame.
    pub closed spec fn spec_keys_pressed(&self) -> Set<KeyCode> {
        self.keys_pressed@.to_set()
    }

    /// Keys held down.
    pub closed spec fn spec_keys_held(&self) -> Set<KeyCode> {
        self.keys_held@.to_set()
    }

    /// Keys that went up this frame.
    pub closed spec fn spec_keys_released(&self) -> Set<KeyCode> {
        self.keys_released@.to_set()
    }

    pub closed spec fn spec_mouse_pressed(&self) -> Set<MouseButton> {
        self.mouse_pressed@.to_set()
    }

    pub closed spec fn spec_mouse_held(&self) -> Set<MouseButton> {
        self.mouse_held@.to_set()
    }

    pub closed spec fn spec_mouse_released(&self) -> Set<MouseButton> {
        self.mouse_released@.to_set()
    }

    /// No key or mouse button is pressed, held or released.
    pub fn new() -> (s: InputState)
        ensures
            s.spec_keys_pressed() == Set::<KeyCode>::empty(),
            s.spec_keys_held() == Set::<KeyCode>::empty(),
            s.spec_keys_released() == Set::<KeyCode>::empty(),
            s.spec_mouse_pressed() == Set::<MouseButton>::empty(),
            s.spec_mouse_held() == Set::<MouseButton>::empty(),
            s.spec_mouse_released() == Set::<MouseButton>::empty(),
    {
        let s = InputState {
            keys_pressed: Vec::new(),
            keys_held: Vec::new(),
            keys_released: Vec::new(),
            mouse_pressed: Vec::new(),
            mouse_held: Vec::new(),
            mouse_released: Vec::new(),
        };
        assert(s.keys_pressed@.to_set() =~= Set::<KeyCode>::empty());
        assert(s.keys_held@.to_set() =~= Set::<KeyCode>::empty());
        assert(s.keys_released@.to_set() =~= Set::<KeyCode>::empty());
        assert(s.mouse_pressed@.to_set() =~= Set::<MouseButton>::empty());
        assert(s.mouse_held@.to_set() =~= Set::<MouseButton>::empty());
        assert(s.mouse_released@.to_set() =~= Set::<MouseButton>::empty());
        s
    }

    /// Whether `key` went down this frame.
    pub fn is_key_just_pressed(&self, key: KeyCode) -> (b: bool)
        ensures
            b == self.spec_keys_pressed().contains(key),
    {
        key_contains(&self.keys_pressed, key)
    }

    /// Whether `key` is held down.
    pub fn is_key_pressed(&self, key: KeyCode) -> (b: bool)
        ensures
            b == self.spec_keys_held().contains(key),
    {
        key_contains(&self.keys_held, key)
    }

    /// Whether `key` went up this frame.
    pub fn is_key_just_released(&self, key: KeyCode) -> (b: bool)
        ensures
            b == self.spec_keys_released().contains(key),
    {
        key_contains(&self.keys_released, key)
    }

    /// Whether `button` went down this frame.
    pub fn is_mouse_just_pressed(&self, button: MouseButton) -> (b: bool)
        ensures
            b == self.spec_mouse_pressed().contains(button),
    {
        mouse_contains(&self.mouse_pressed, button)
    }

    /// Whether `button` is held down.
    pub fn is_mouse_pressed(&self, button: MouseButton) -> (b: bool)
        ensures
            b == self.spec_mouse_held().contains(button),
    {
        mouse_contains(&self.mouse_held, button)
    }

    /// Whether `button` went up this frame.
    pub fn is_mouse_just_released(&self, button: MouseButton) -> (b: bool)
        ensures
            b == self.spec_mouse_released().contains(button),
    {
        mouse_contains(&self.mouse_released, button)
    }
}

impl Default for InputState {
    fn default() -> (s: Self)
        ensures
            s.spec_keys_pressed() == Set::<KeyCode>::empty(),
            s.spec_keys_held() == Set::<KeyCode>::empty(),
            s.spec_keys_released() == Set::<KeyCode>::empty(),
            s.spec_mouse_pressed() == Set::<MouseButton>::empty(),
            s.spec_mouse_held() == Set::<MouseButton>::empty(),
            s.spec_mouse_released() == Set::<MouseButton>::empty(),
    {
        InputState::new()
    }
}

/// The built-in actions, as (name, bindings) pairs.
pub open spec fn default_actions() -> Seq<(Seq<char>, Seq<InputBinding>)> {
    seq![
        ("ui_accept"@, seq![InputBinding::Key(KeyCode::Enter), InputBinding::Key(KeyCode::Space)]),
        ("ui_cancel"@, seq![InputBinding::Key(KeyCode::Escape)]),
        ("ui_left"@, seq![InputBinding::Key(KeyCode::Left)]),
        ("ui_right"@, seq![InputBinding::Key(KeyCode::Right)]),
        ("ui_up"@, seq![InputBinding::Key(KeyCode::Up)]),
        ("ui_down"@, seq![InputBinding::Key(KeyCode::Down)]),
        ("move_forward"@, seq![InputBinding::Key(KeyCode::W), InputBinding::Key(KeyCode::Up)]),
        ("move_backward"@, seq![InputBinding::Key(KeyCode::S), InputBinding::Key(KeyCode::Down)]),
        ("move_left"@, seq![InputBinding::Key(KeyCode::A), InputBinding::Key(KeyCode::Left)]),
        ("move_right"@, seq![InputBinding::Key(KeyCode::D), InputBinding::Key(KeyCode::Right)]),
        ("jump"@, seq![InputBinding::Key(KeyCode::Space)]),
        ("run"@, seq![InputBinding::Key(KeyCode::LShift)])
    ]
}

/// The bindings of the action named `name` in `table` (the latest entry of
/// that name wins).
pub open spec fn lookup_action(table: Seq<(Seq<char>, Seq<InputBinding>)>, name: Seq<char>) -> Option<Seq<InputBinding>> {
    let i = last_index_of(table.map_values(|e: (Seq<char>, Seq<InputBinding>)| e.0), name);
    if i < 0 { None } else { Some(table[i].1) }
}

/// Turns frame events into button state and answers action queries.
pub struct InputManager {
    pub state: InputState,
    actions: Vec<InputAction>,
    prev_keys: Vec<KeyCode>,
    prev_mouse: Vec<MouseButton>,
}

impl InputManager {
    /// The keyboard's frame state.
    pub closed spec fn spec_keys(&self) -> ButtonFrames<KeyCode> {
        ButtonFrames {
            pressed: self.state.spec_keys_pressed(),
            held: self.state.spec_keys_held(),
            released: self.state.spec_keys_released(),
            prev: self.prev_keys@.to_set(),
        }
    }

    /// The mouse buttons' frame state.
    pub closed spec fn spec_mouse(&self) -> ButtonFrames<MouseButton> {
        ButtonFrames {
            pressed: self.state.spec_mouse_pressed(),
            held: self.state.spec_mouse_held(),
            released: self.state.spec_mouse_released(),
            prev: self.prev_mouse@.to_set(),
        }
    }

    /// The registered actions, as (name, bindings) pairs.
    pub closed spec fn spec_actions(&self) -> Seq<(Seq<char>, Seq<InputBinding>)> {
        self.actions@.map_values(|a: InputAction| (a.name@, a.bindings@))
    }

    /// The bindings of the action named `name`, if there is one.
    pub open spec fn spec_action(&self, name: Seq<char>) -> Option<Seq<InputBinding>> {
        lookup_action(self.spec_actions(), name)
    }

    /// A manager with no button down and the built-in actions.
    pub fn new() -> (m: InputManager)
        ensures
            m.spec_keys() == no_buttons::<KeyCode>(),
            m.spec_mouse() == no_buttons::<MouseButton>(),
            m.spec_actions() == default_actions(),
    {
        let mut actions: Vec<InputAction> = Vec::new();
        actions.push(InputAction::new("ui_accept").with_key(KeyCode::Enter).with_key(KeyCode::Space));
        actions.push(InputAction::new("ui_cancel").with_key(KeyCode::Escape));
        actions.push(InputAction::new("ui_left").with_key(KeyCode::Left));
        actions.push(InputAction::new("ui_right").with_key(KeyCode::Right));
        actions.push(InputAction::new("ui_up").with_key(KeyCode::Up));
        actions.push(InputAction::new("ui_down").with_key(KeyCode::Down));
        actions.push(InputAction::new("move_forward").with_key(KeyCode::W).with_key(KeyCode::Up));
        actions.push(InputAction::new("move_backward").with_key(KeyCode::S).with_key(KeyCode::Down));
        actions.push(InputAction::new("move_left").with_key(KeyCode::A).with_key(KeyCode::Left));
        actions.push(InputAction::new("move_right").with_key(KeyCode::D).with_key(KeyCode::Right));
        actions.push(InputAction::new("jump").with_key(KeyCode::Space));
        actions.push(InputAction::new("run").with_key(KeyCode::LShift));
        let m = InputManager { state: InputState::new(), actions, prev_keys: Vec::new(), prev_mouse: Vec::new() };
        assert(m.prev_keys@.to_set() =~= Set::<KeyCode>::empty());
        assert(m.prev_mouse@.to_set() =~= Set::<MouseButton>::empty());
        assert(m.spec_actions() =~~= default_actions());
        m
    }

    /// Registers an action, replacing an action of the same name.
    pub fn register_action(&mut self, action: InputAction)
        ensures
            final(self).spec_action(action.name@) == Some(action.bindings@),
            forall|n: Seq<char>| n != action.name@ ==> final(self).spec_action(n) == old(self).spec_action(n),
            final(self).spec_keys() == old(self).spec_keys(),
            final(self).spec_mouse() == old(self).spec_mouse(),
    {
        let ghost table = self.spec_actions();
        let ghost names = table.map_values(|e: (Seq<char>, Seq<InputBinding>)| e.0);
        let ghost entry = (action.name@, action.bindings@);
        let mut i: usize = self.actions.len();
        while i > 0
            invariant
                i <= self.actions@.len(),
                table == self.spec_actions(),
                names == table.map_values(|e: (Seq<char>, Seq<InputBinding>)| e.0),
                forall|j: int| i <= j < names.len() ==> names[j] != action.name@,
                self.spec_keys() == old(self).spec_keys(),
                self.spec_mouse() == old(self).spec_mouse(),
                self.actions@ == old(self).actions@,
                entry == (action.name@, action.bindings@),
            decreases i,
        {
            let j = i - 1;
            if str_eq(self.actions[j].name.as_str(), action.name.as_str()) {
                proof {
                    assert(names[j as int] == action.name@);
                    lemma_last_index_prefix(names, action.name@, i as int);
                    assert(names.take(i as int).last() == action.name@);
                }
                let ghost before = self.actions@;
                self.actions.set(j, action);
                proof {
                    let t2 = self.spec_actions();
                    assert(self.actions@ == before.update(j as int, action));
                    assert(table == before.map_values(|a: InputAction| (a.name@, a.bindings@)));
                    assert(t2.len() == table.len());
                    assert forall|k: int| 0 <= k < t2.len() implies t2[k] == table.update(j as int, entry)[k] by {
                        if k != j {
                            assert(self.actions@[k] == before[k]);
                        }
                    }
                    assert(t2 =~= table.update(j as int, entry));
                    let names2 = t2.map_values(|e: (Seq<char>, Seq<InputBinding>)| e.0);
                    assert(names2 =~= names);
                    assert forall|n: Seq<char>| n != entry.0 implies lookup_action(t2, n) == lookup_action(table, n) by {
                        lemma_last_index_bounds(names, n);
                    }
                }
                return;
            }
            i = j;
        }
        proof {
            lemma_last_index_prefix(names, action.name@, 0);
        }
        self.actions.push(action);
        proof {
            let t2 = self.spec_actions();
            assert(t2 =~~= table.push(entry));
            let names2 = t2.map_values(|e: (Seq<char>, Seq<InputBinding>)| e.0);
            assert(names2 =~= names.push(entry.0));
            assert(names2.drop_last() =~= names);
            assert forall|n: Seq<char>| n != entry.0 implies lookup_action(t2, n) == lookup_action(table, n) by {
                lemma_last_index_bounds(names, n);
            }
        }
    }

    /// Starts a frame: nothing is just pressed or just released any more.
    pub fn begin_frame(&mut self)
        ensures
            final(self).spec_keys() == next_frame(old(self).spec_keys()),
            final(self).spec_mouse() == next_frame(old(self).spec_mouse()),
            final(self).spec_actions() == old(self).spec_actions(),
    {
        self.state.keys_pressed.clear();
        self.state.keys_released.clear();
        self.state.mouse_pressed.clear();
        self.state.mouse_released.clear();
        assert(self.state.keys_pressed@.to_set() =~= Set::<KeyCode>::empty());
        assert(self.state.keys_released@.to_set() =~= Set::<KeyCode>::empty());
        assert(self.state.mouse_pressed@.to_set() =~= Set::<MouseButton>::empty());
        assert(self.state.mouse_released@.to_set() =~= Set::<MouseButton>::empty());
    }

    /// A key went down.
    pub fn on_key_down(&mut self, key: KeyCode)
        ensures
            final(self).spec_keys() == press(old(self).spec_keys(), key),
            final(self).spec_mouse() == old(self).spec_mouse(),
            final(self).spec_actions() == old(self).spec_actions(),
    {
        if !key_contains(&self.prev_keys, key) {
            key_insert(&mut self.state.keys_pressed, key);
        }
        key_insert(&mut self.state.keys_held, key);
        key_insert(&mut self.prev_keys, key);
    }

    /// A key went up.
    pub fn on_key_up(&mut self, key: KeyCode)
        ensures
            final(self).spec_keys() == release(old(self).spec_keys(), key),
            final(self).spec_mouse() == old(self).spec_mouse(),
            final(self).spec_actions() == old(self).spec_actions(),
    {
        key_remove(&mut self.state.keys_held, key);
        key_insert(&mut self.state.keys_released, key);
        key_remove(&mut self.prev_keys, key);
    }

    /// A mouse button went down.
    pub fn on_mouse_down(&mut self, button: MouseButton)
        ensures
            final(self).spec_mouse() == press(old(self).spec_mouse(), button),
            final(self).spec_keys() == old(self).spec_keys(),
            final(self).spec_actions() == old(self).spec_actions(),
    {
        if !mouse_contains(&self.prev_mouse, button) {
            mouse_insert(&mut self.state.mouse_pressed, button);
        }
        mouse_insert(&mut self.state.mouse_held, button);
        mouse_insert(&mut self.prev_mouse, button);
    }

    /// A mouse button went up.
    pub fn on_mouse_up(&mut self, button: MouseButton)
        ensures
            final(self).spec_mouse() == release(old(self).spec_mouse(), button),
            final(self).spec_keys() == old(self).spec_keys(),
            final(self).spec_actions() == old(self).spec_actions(),
    {
        mouse_remove(&mut self.state.mouse_held, button);
        mouse_insert(&mut self.state.mouse_released, button);
        mouse_remove(&mut self.prev_mouse, button);
    }

    /// Position of the action named `name`.
    fn find_action(&self, name: &str) -> (r: Option<usize>)
        ensures
            match r {
                Some(i) => i < self.actions@.len() && self.spec_action(name@) == Some(self.actions@[i as int].bindings@),
                None => self.spec_action(name@) is None,
            },
    {
        let ghost table = self.spec_actions();
        let ghost names = table.map_values(|e: (Seq<char>, Seq<InputBinding>)| e.0);
        let mut i: usize = self.actions.len();
        while i > 0
            invariant
                i <= self.actions@.len(),
                table == self.spec_actions(),
                names == table.map_values(|e: (Seq<char>, Seq<InputBinding>)| e.0),
                forall|j: int| i <= j < names.len() ==> names[j] != name@,
            decreases i,
        {
            let j = i - 1;
            if str_eq(self.actions[j].name.as_str(), name) {
                proof {
                    assert(names[j as int] == name@);
                    lemma_last_index_prefix(names, name@, i as int);
                    assert(names.take(i as int).last() == name@);
                }
                return Some(j);
            }
            i = j;
        }
        proof {
            lemma_last_index_prefix(names, name@, 0);
        }
        None
    }

    /// Whether some binding of `bs` is active for the given sets.
    fn bindings_active(&self, bs: &Vec<InputBinding>, keys: &Vec<KeyCode>, mouse: &Vec<MouseButton>) -> (b: bool)
        ensures
            b == any_active(bs@, keys@.to_set(), mouse@.to_set()),
    {
        let mut i: usize = 0;
        while i < bs.len()
            invariant
                i <= bs@.len(),
                forall|j: int| 0 <= j < i ==> !binding_active(#[trigger] bs@[j], keys@.to_set(), mouse@.to_set()),
            decreases bs@.len() - i,
        {
            let hit = match bs[i] {
                InputBinding::Key(k) => key_contains(keys, k),
                InputBinding::Mouse(m) => mouse_contains(mouse, m),
                InputBinding::Gamepad { .. } => false,
            };
            if hit {
                assert(binding_active(bs@[i as int], keys@.to_set(), mouse@.to_set()));
                return true;
            }
            i = i + 1;
        }
        false
    }

    /// Whether the action went active this frame.
    pub fn is_action_just_pressed(&self, action: &str) -> (b: bool)
        ensures
            b == action_active(self.spec_action(action@), self.spec_keys().pressed, self.spec_mouse().pressed),
    {
        match self.find_action(action) {
            Some(i) => self.bindings_active(&self.actions[i].bindings, &self.state.keys_pressed, &self.state.mouse_pressed),
            None => false,
        }
    }

    /// Whether the action is active.
    pub fn is_action_pressed(&self, action: &str) -> (b: bool)
        ensures
            b == action_active(self.spec_action(action@), self.spec_keys().held, self.spec_mouse().held),
    {
        match self.find_action(action) {
            Some(i) => self.bindings_active(&self.actions[i].bindings, &self.state.keys_held, &self.state.mouse_held),
            None => false,
        }
    }

    /// Whether the action went inactive this frame.
    pub fn is_action_just_released(&self, action: &str) -> (b: bool)
        ensures
            b == action_active(self.spec_action(action@), self.spec_keys().released, self.spec_mouse().released),
    {
        match self.find_action(action) {
            Some(i) => self.bindings_active(&self.actions[i].bindings, &self.state.keys_released, &self.state.mouse_released),
            None => false,
        }
    }

    /// One-dimensional axis from two actions: 1 when only the positive one is
    /// active, -1 when only the negative one is, 0 otherwise.
    pub fn get_axis(&self, negative_action: &str, positive_action: &str) -> (v: i32)
        ensures
            v == (if action_active(self.spec_action(positive_action@), self.spec_keys().held, self.spec_mouse().held) { 1int } else { 0int })
                - (if action_active(self.spec_action(negative_action@), self.spec_keys().held, self.spec_mouse().held) { 1int } else { 0int }),
    {
        let positive: i32 = if self.is_action_pressed(positive_action) { 1 } else { 0 };
        let negative: i32 = if self.is_action_pressed(negative_action) { 1 } else { 0 };
        positive - negative
    }
}

impl Default for InputManager {
    fn default() -> (m: Self)
        ensures
            m.spec_keys() == no_buttons::<KeyCode>(),
            m.spec_mouse() == no_buttons::<MouseButton>(),
            m.spec_actions() == default_actions(),
    {
        InputManager::new()
    }
}

/// The set of buttons held always equals the set last seen going down: it
/// holds with no buttons and every frame event keeps it.
pub proof fn law_held_tracks_prev<T>(m: ButtonFrames<T>, b: T)
    ensures
        no_buttons::<T>().held == no_buttons::<T>().prev,
        m.held == m.prev ==> press(m, b).held == press(m, b).prev,
        m.held == m.prev ==> release(m, b).held == release(m, b).prev,
        m.held == m.prev ==> next_frame(m).held == next_frame(m).prev,
{
}

/// A button going down is held afterwards, and it is just pressed exactly
/// when it was just pressed already or was not held before.
pub proof fn law_press<T>(m: ButtonFrames<T>, b: T)
    requires
        m.held == m.prev,
    ensures
        press(m, b).held.contains(b),
        press(m, b).pressed.contains(b) == (m.pressed.contains(b) || !m.held.contains(b)),
        press(m, b).released == m.released,
{
}

/// A button held into a new frame and reported down again is held but not
/// just pressed.
pub proof fn law_hold_across_frames<T>(m: ButtonFrames<T>, b: T)
    requires
        m.held == m.prev,
        m.held.contains(b),
    ensures
        !press(next_frame(m), b).pressed.contains(b),
        press(next_frame(m), b).held.contains(b),
{
}

/// A button going up is not held afterwards and is just released.
pub proof fn law_release<T>(m: ButtonFrames<T>, b: T)
    ensures
        !release(m, b).held.contains(b),
        release(m, b).released.contains(b),
        release(m, b).pressed == m.pressed,
{
}

/// A new frame forgets what was just pressed and just released and keeps
/// what is held.
pub proof fn law_next_frame<T>(m: ButtonFrames<T>, b: T)
    ensures
        !next_frame(m).pressed.contains(b),
        !next_frame(m).released.contains(b),
        next_frame(m).held == m.held,
{
}

} // verus!
