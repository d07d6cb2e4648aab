//! Logical input state: a fixed table from device scan codes to logical inputs, and the set of
//! logical inputs that are currently held down.

use std::collections::HashMap;
use vstd::prelude::*;

verus! {

broadcast use vstd::std_specs::hash::group_hash_axioms;

/// Scan code of the `A` key (USB usage numbering, as window libraries give it).
pub const SCANCODE_A: i32 = 4;

/// Scan code of the `D` key.
pub const SCANCODE_D: i32 = 7;

/// Scan code of the `S` key.
pub const SCANCODE_S: i32 = 22;

/// Scan code of the `W` key.
pub const SCANCODE_W: i32 = 26;

/// Scan code of the escape key. It is bound to no logical input.
pub const SCANCODE_ESCAPE: i32 = 41;

/// Scan code of the space bar.
pub const SCANCODE_SPACE: i32 = 44;

/// Scan code of the right arrow key.
pub const SCANCODE_RIGHT: i32 = 79;

/// Scan code of the left arrow key.
pub const SCANCODE_LEFT: i32 = 80;

/// Scan code of the down arrow key.
pub const SCANCODE_DOWN: i32 = 81;

/// Scan code of the up arrow key.
pub const SCANCODE_UP: i32 = 82;

/// A logical input of the game, independent of the key that produces it.
#[derive(Clone, Copy, Debug, PartialEq, Eq, Structural)]
pub enum Input {
    Up,
    Down,
    Left,
    Right,
    Fire,
}

impl Input {
    /// Position of this input in the table of held inputs.
    pub open spec fn slot(self) -> int {
        match self {
            Input::Up => 0,
            Input::Down => 1,
            Input::Left => 2,
            Input::Right => 3,
            Input::Fire => 4,
        }
    }

    /// Position of this input in the table of held inputs.
    pub fn index(self) -> (i: usize)
        ensures
            i == self.slot(),
    {
        match self {
            Input::Up => 0,
            Input::Down => 1,
            Input::Left => 2,
            Input::Right => 3,
            Input::Fire => 4,
        }
    }
}

/// What the input state reads of a device event.
#[derive(Clone, Copy, Debug, PartialEq, Eq, Structural)]
pub enum KeyEvent {
    /// A key went down. The scan code is absent where the device gave none.
    KeyDown { scancode: Option<i32> },
    /// A key came up.
    KeyUp { scancode: Option<i32> },
    /// Any other event.
    Other,
}

/// The key bindings every input state starts with: arrow keys and WASD for the four directions,
/// the space bar for `Fire`.
pub open spec fn default_bindings() -> Map<i32, Input> {
    Map::<i32, Input>::empty()
        .insert(SCANCODE_UP, Input::Up)
        .insert(SCANCODE_DOWN, Input::Down)
        .insert(SCANCODE_LEFT, Input::Left)
        .insert(SCANCODE_RIGHT, Input::Right)
        .insert(SCANCODE_W, Input::Up)
        .insert(SCANCODE_S, Input::Down)
        .insert(SCANCODE_A, Input::Left)
        .insert(SCANCODE_D, Input::Right)
        .insert(SCANCODE_SPACE, Input::Fire)
}

/// The held set after a key with scan code `code` went down (`down`) or came up.
pub open spec fn pressed_after(
    pressed: Set<Input>,
    bindings: Map<i32, Input>,
    code: i32,
    down: bool,
) -> Set<Input> {
    if !bindings.contains_key(code) {
        pressed
    } else if down {
        pressed.insert(bindings[code])
    } else {
        pressed.remove(bindings[code])
    }
}

/// Which logical inputs are held, and the bindings from scan codes to logical inputs.
pub struct InputState {
    inputs: [bool; 256],
    mapping: HashMap<i32, Input>,
}

impl InputState {
    /// What holds of every input state: its bindings are the default bindings. No function
    /// changes them.
    #[verifier::type_invariant]
    pub closed spec fn inv(&self) -> bool {
        self.mapping@ == default_bindings()
    }

    /// The logical inputs that are held down.
    pub closed spec fn pressed(&self) -> Set<Input> {
        Set::new(|i: Input| self.inputs[i.slot()])
    }

    /// The binding table.
    pub closed spec fn bindings(&self) -> Map<i32, Input> {
        self.mapping@
    }

    /// An input state with the default bindings and nothing held.
    pub fn new() -> (s: Self)
        ensures
            s.inv(),
            s.pressed() == Set::<Input>::empty(),
            s.bindings() == default_bindings(),
    {
        let mut mapping: HashMap<i32, Input> = HashMap::new();
        mapping.insert(SCANCODE_UP, Input::Up);
        mapping.insert(SCANCODE_DOWN, Input::Down);
        mapping.insert(SCANCODE_LEFT, Input::Left);
        mapping.insert(SCANCODE_RIGHT, Input::Right);
        mapping.insert(SCANCODE_W, Input::Up);
        mapping.insert(SCANCODE_S, Input::Down);
        mapping.insert(SCANCODE_A, Input::Left);
        mapping.insert(SCANCODE_D, Input::Right);
        mapping.insert(SCANCODE_SPACE, Input::Fire);
        InputState { inputs: [false; 256], mapping }
    }

    /// Applies a device event: a key going down holds the input bound to it, a key coming up
    /// releases it, and every other event changes nothing.
    pub fn process_event(&mut self, event: &KeyEvent)
        ensures
            old(self).bindings() == default_bindings(),
            final(self).bindings() == default_bindings(),
            final(self).pressed() == match *event {
                KeyEvent::KeyDown { scancode: Some(code) } => pressed_after(
                    old(self).pressed(),
                    old(self).bindings(),
                    code,
                    true,
                ),
                KeyEvent::KeyUp { scancode: Some(code) } => pressed_after(
                    old(self).pressed(),
                    old(self).bindings(),
                    code,
                    false,
                ),
                _ => old(self).pressed(),
            },
    {
        proof {
            use_type_invariant(&*self);
        }
        match event {
            KeyEvent::KeyDown { scancode: Some(code) } => {
                self.set(*code);
            },
            KeyEvent::KeyUp { scancode: Some(code) } => {
                self.unset(*code);
            },
            _ => {},
        }
    }

    /// Whether the logical input `i` is held.
    pub fn is_set(&self, i: Input) -> (b: bool)
        ensures
            b == self.pressed().contains(i),
            self.bindings() == default_bindings(),
    {
        proof {
            use_type_invariant(self);
        }
        self.inputs[i.index()]
    }

    /// Marks the input bound to `code` as held. A code without a binding changes nothing.
    pub fn set(&mut self, code: i32)
        ensures
            old(self).bindings() == default_bindings(),
            final(self).bindings() == default_bindings(),
            final(self).pressed() == pressed_after(
                old(self).pressed(),
                default_bindings(),
                code,
                true,
            ),
    {
        proof {
            use_type_invariant(&*self);
        }
        if let Some(i) = self.mapping.get(&code) {
            let idx: usize = i.index();
            self.inputs[idx] = true;
        }
    }

    /// Marks the input bound to `code` as released. A code without a binding changes nothing.
    pub fn unset(&mut self, code: i32)
        ensures
            old(self).bindings() == default_bindings(),
            final(self).bindings() == default_bindings(),
            final(self).pressed() == pressed_after(
                old(self).pressed(),
                default_bindings(),
                code,
                false,
            ),
    {
        proof {
            use_type_invariant(&*self);
        }
        if let Some(i) = self.mapping.get(&code) {
            let idx: usize = i.index();
            self.inputs[idx] = false;
        }
    }
}

/// The fixed table: an input state that keeps its invariant has the default bindings. They
/// bind the four arrow keys, `W`, `A`, `S`, `D` and the space bar, and no other key: the
/// escape key holds no logical input.
pub proof fn lemma_bindings_are_fixed(s: InputState)
    requires
        s.inv(),
    ensures
        s.bindings() == default_bindings(),
        !s.bindings().contains_key(SCANCODE_ESCAPE),
        forall|code: i32|
            s.bindings().contains_key(code) <==> code == SCANCODE_UP || code == SCANCODE_DOWN
                || code == SCANCODE_LEFT || code == SCANCODE_RIGHT || code == SCANCODE_W || code
                == SCANCODE_S || code == SCANCODE_A || code == SCANCODE_D || code
                == SCANCODE_SPACE,
{
}

impl Default for InputState {
    fn default() -> (s: Self)
        ensures
            s.pressed() == Set::<Input>::empty(),
            s.bindings() == default_bindings(),
    {
        InputState::new()
    }
}

} // verus!
