//! Input state kept as plain data: per-key states driven by key-down and
//! key-up events, mouse button states carrying the world positions where
//! they changed, the frame-end promotion of transient states, and the
//! frame timer arithmetic.  The platform layer polls its event queue and
//! feeds the transitions in; everything here is the pure bookkeeping.

use crate::math::Vec2;
use vstd::prelude::*;

verus! {

/// The state of one key: freshly pressed this frame, held from an
/// earlier frame, or released this frame.
#[derive(Clone, Copy, Debug, PartialEq, Eq, Structural)]
pub enum KeyState {
    HeldDown,
    Released,
    Pressed,
}

/// One tracked key.
#[derive(Clone, Copy, Debug, PartialEq, Eq, Structural)]
pub struct InputKey {
    pub keycode: i32,
    pub state: KeyState,
}

/// The state of one mouse button, with the world positions and times of
/// its transitions.
#[derive(Clone, Copy, Debug, PartialEq, Eq, Structural)]
pub enum MouseButtonState {
    Down { down_pos: Vec2, down_time: u32 },
    HeldDown { down_pos: Vec2, down_time: u32 },
    Up { down_pos: Vec2, down_time: u32, up_pos: Vec2, up_time: u32 },
}

/// One tracked mouse button.
#[derive(Clone, Copy, Debug, PartialEq, Eq, Structural)]
pub struct MouseButton {
    pub button: u8,
    pub state: MouseButtonState,
}

/// The pointer position and the tracked buttons.
#[derive(Clone, Debug)]
pub struct MouseState {
    pub pos: Vec2,
    pub buttons: Vec<MouseButton>,
}

/// All input state of one frame.
pub struct Input {
    pub keys: Vec<InputKey>,
    pub mouse_state: MouseState,
}

/// The state of the first tracked key with this keycode, if any.
pub open spec fn key_lookup(s: Seq<InputKey>, keycode: i32) -> Option<KeyState>
    decreases s.len(),
{
    if s.len() == 0 {
        None
    } else if s[0].keycode == keycode {
        Some(s[0].state)
    } else {
        key_lookup(s.drop_first(), keycode)
    }
}

/// Walking one entry deeper keeps the lookup result as long as the head
/// is not the key.
proof fn lemma_key_lookup_skip(s: Seq<InputKey>, keycode: i32, i: int)
    requires
        0 <= i < s.len(),
        s.skip(i)[0].keycode != keycode,
    ensures
        key_lookup(s.skip(i), keycode) == key_lookup(s.skip(i + 1), keycode),
{
    assert(s.skip(i).drop_first() =~= s.skip(i + 1));
}

impl Input {
    /// Fresh input state: nothing pressed, pointer at the origin.
    pub fn new() -> (r: Input)
        ensures
            r.keys@.len() == 0,
            r.mouse_state.buttons@.len() == 0,
            r.mouse_state.pos == (Vec2 { x: 0, y: 0 }),
    {
        Input {
            keys: Vec::new(),
            mouse_state: MouseState { pos: Vec2 { x: 0, y: 0 }, buttons: Vec::new() },
        }
    }

    /// Index of the first tracked entry of `keycode`.
    fn key_index_of(&self, keycode: i32) -> (r: Option<usize>)
        ensures
            r is Some ==> {
                &&& r->0 < self.keys@.len()
                &&& self.keys@[r->0 as int].keycode == keycode
                &&& key_lookup(self.keys@, keycode) == Some(self.keys@[r->0 as int].state)
                &&& forall|j: int| 0 <= j < r->0 ==> (#[trigger] self.keys@[j]).keycode != keycode
            },
            r is None ==> key_lookup(self.keys@, keycode) is None,
    {
        proof {
            assert(self.keys@.skip(0) =~= self.keys@);
        }
        let mut i: usize = 0;
        while i < self.keys.len()
            invariant
                0 <= i <= self.keys@.len(),
                key_lookup(self.keys@, keycode) == key_lookup(self.keys@.skip(i as int), keycode),
                forall|j: int| 0 <= j < i ==> (#[trigger] self.keys@[j]).keycode != keycode,
            decreases self.keys@.len() - i,
        {
            let k = self.keys[i];
            proof {
                assert(self.keys@.skip(i as int)[0] == self.keys@[i as int]);
            }
            if k.keycode == keycode {
                return Some(i);
            }
            proof {
                lemma_key_lookup_skip(self.keys@, keycode, i as int);
            }
            i += 1;
        }
        proof {
            assert(self.keys@.skip(i as int) =~= Seq::<InputKey>::empty());
        }
        None
    }

    /// Whether the first tracked entry of `keycode` is in `key_state`.
    fn is_key_in_state(&self, keycode: i32, key_state: KeyState) -> (r: bool)
        ensures
            r == (key_lookup(self.keys@, keycode) == Some(key_state)),
    {
        match self.key_index_of(keycode) {
            Some(idx) => {
                let k = self.keys[idx];
                match (k.state, key_state) {
                    (KeyState::HeldDown, KeyState::HeldDown) => true,
                    (KeyState::Released, KeyState::Released) => true,
                    (KeyState::Pressed, KeyState::Pressed) => true,
                    _ => false,
                }
            },
            None => false,
        }
    }

    /// The key went down this frame.
    pub fn is_key_pressed(&self, keycode: i32) -> (r: bool)
        ensures
            r == (key_lookup(self.keys@, keycode) == Some(KeyState::Pressed)),
    {
        self.is_key_in_state(keycode, KeyState::Pressed)
    }

    /// The key came up this frame.
    pub fn is_key_released(&self, keycode: i32) -> (r: bool)
        ensures
            r == (key_lookup(self.keys@, keycode) == Some(KeyState::Released)),
    {
        self.is_key_in_state(keycode, KeyState::Released)
    }

    /// The key is down, whether it went down this frame or earlier.
    pub fn is_key_held_down(&self, keycode: i32) -> (r: bool)
        ensures
            r == (key_lookup(self.keys@, keycode) == Some(KeyState::HeldDown) || key_lookup(
                self.keys@,
                keycode,
            ) == Some(KeyState::Pressed)),
    {
        self.is_key_in_state(keycode, KeyState::HeldDown) || self.is_key_in_state(
            keycode,
            KeyState::Pressed,
        )
    }

    /// Feeds one key-down event: a released entry becomes pressed, a
    /// pressed one held, a held one stays; an untracked key is added as
    /// pressed.
    pub fn on_key_down(&mut self, keycode: i32)
        ensures
            final(self).mouse_state == old(self).mouse_state,
            key_lookup(old(self).keys@, keycode) is None ==> final(self).keys@ == old(self).keys@.push(InputKey { keycode, state: KeyState::Pressed }),
            key_lookup(old(self).keys@, keycode) is Some ==> exists|i: int|
                {
                    &&& 0 <= i < old(self).keys@.len()
                    &&& old(self).keys@[i].keycode == keycode
                    &&& key_lookup(old(self).keys@, keycode) == Some(old(self).keys@[i].state)
                    &&& final(self).keys@ == old(self).keys@.update(
                        i,
                        InputKey {
                            keycode,
                            state: match old(self).keys@[i].state {
                                KeyState::HeldDown => KeyState::HeldDown,
                                KeyState::Released => KeyState::Pressed,
                                KeyState::Pressed => KeyState::HeldDown,
                            },
                        },
                    )
                },
    {
        match self.key_index_of(keycode) {
            Some(idx) => {
                let k = self.keys[idx];
                let next = match k.state {
                    KeyState::HeldDown => KeyState::HeldDown,
                    KeyState::Released => KeyState::Pressed,
                    KeyState::Pressed => KeyState::HeldDown,
                };
                self.keys[idx] = InputKey { keycode, state: next };
                proof {
                    assert(old(self).keys@[idx as int].keycode == keycode);
                }
            },
            None => {
                self.keys.push(InputKey { keycode, state: KeyState::Pressed });
            },
        }
    }

    /// Feeds one key-up event: a down entry becomes released, a released
    /// one stays; an untracked key is added as released.
    pub fn on_key_up(&mut self, keycode: i32)
        ensures
            final(self).mouse_state == old(self).mouse_state,
            key_lookup(old(self).keys@, keycode) is None ==> final(self).keys@ == old(self).keys@.push(InputKey { keycode, state: KeyState::Released }),
            key_lookup(old(self).keys@, keycode) is Some ==> exists|i: int|
                {
                    &&& 0 <= i < old(self).keys@.len()
                    &&& old(self).keys@[i].keycode == keycode
                    &&& key_lookup(old(self).keys@, keycode) == Some(old(self).keys@[i].state)
                    &&& final(self).keys@ == old(self).keys@.update(
                        i,
                        InputKey { keycode, state: KeyState::Released },
                    )
                },
    {
        match self.key_index_of(keycode) {
            Some(idx) => {
                self.keys[idx] = InputKey { keycode, state: KeyState::Released };
                proof {
                    assert(old(self).keys@[idx as int].keycode == keycode);
                }
            },
            None => {
                self.keys.push(InputKey { keycode, state: KeyState::Released });
            },
        }
    }

    /// Index of the first tracked entry of `mouse_btn`.
    fn button_index_of(&self, mouse_btn: u8) -> (r: Option<usize>)
        ensures
            r is Some ==> {
                &&& r->0 < self.mouse_state.buttons@.len()
                &&& self.mouse_state.buttons@[r->0 as int].button == mouse_btn
            },
            r is None ==> forall|j: int|
                0 <= j < self.mouse_state.buttons@.len() ==> (
                #[trigger] self.mouse_state.buttons@[j]).button != mouse_btn,
    {
        let mut i: usize = 0;
        while i < self.mouse_state.buttons.len()
            invariant
                0 <= i <= self.mouse_state.buttons@.len(),
                forall|j: int|
                    0 <= j < i ==> (#[trigger] self.mouse_state.buttons@[j]).button != mouse_btn,
            decreases self.mouse_state.buttons@.len() - i,
        {
            if self.mouse_state.buttons[i].button == mouse_btn {
                return Some(i);
            }
            i += 1;
        }
        None
    }

    /// Feeds one button-down event at a world position: an untracked
    /// button starts being tracked as down; a tracked one is left as it
    /// stands.
    pub fn on_mouse_down(&mut self, mouse_btn: u8, pos: Vec2, time: u32)
        ensures
            final(self).keys == old(self).keys,
            final(self).mouse_state.pos == old(self).mouse_state.pos,
            (forall|j: int|
                0 <= j < old(self).mouse_state.buttons@.len() ==> (#[trigger] old(self).mouse_state.buttons@[j]).button != mouse_btn) ==> final(self).mouse_state.buttons@ == old(self).mouse_state.buttons@.push(
                MouseButton {
                    button: mouse_btn,
                    state: MouseButtonState::Down { down_pos: pos, down_time: time },
                },
            ),
            (exists|j: int|
                0 <= j < old(self).mouse_state.buttons@.len() && (#[trigger] old(self).mouse_state.buttons@[j]).button == mouse_btn) ==> final(self).mouse_state.buttons
                == old(self).mouse_state.buttons,
    {
        match self.button_index_of(mouse_btn) {
            Some(_) => {},
            None => {
                self.mouse_state.buttons.push(
                    MouseButton {
                        button: mouse_btn,
                        state: MouseButtonState::Down { down_pos: pos, down_time: time },
                    },
                );
            },
        }
    }

    /// Feeds one button-up event at a world position: a tracked button
    /// that was down becomes up, keeping where and when it went down;
    /// anything else is left as it stands.
    pub fn on_mouse_up(&mut self, mouse_btn: u8, pos: Vec2, time: u32)
        ensures
            final(self).keys == old(self).keys,
            final(self).mouse_state.pos == old(self).mouse_state.pos,
            (forall|j: int|
                0 <= j < old(self).mouse_state.buttons@.len() ==> (#[trigger] old(
                    self,
                ).mouse_state.buttons@[j]).button != mouse_btn) ==> final(self).mouse_state.buttons
                == old(self).mouse_state.buttons,
            (exists|j: int|
                0 <= j < old(self).mouse_state.buttons@.len() && (#[trigger] old(
                    self,
                ).mouse_state.buttons@[j]).button == mouse_btn) ==> exists|i: int|
                {
                    &&& 0 <= i < old(self).mouse_state.buttons@.len()
                    &&& (#[trigger] old(self).mouse_state.buttons@[i]).button == mouse_btn
                    &&& final(self).mouse_state.buttons@ == match old(
                        self,
                    ).mouse_state.buttons@[i].state {
                        MouseButtonState::Down { down_pos, down_time }
                        | MouseButtonState::HeldDown { down_pos, down_time } => old(
                            self,
                        ).mouse_state.buttons@.update(
                            i,
                            MouseButton {
                                button: mouse_btn,
                                state: MouseButtonState::Up {
                                    down_pos,
                                    down_time,
                                    up_pos: pos,
                                    up_time: time,
                                },
                            },
                        ),
                        MouseButtonState::Up { .. } => old(self).mouse_state.buttons@,
                    }
                },
    {
        match self.button_index_of(mouse_btn) {
            Some(idx) => {
                let b = self.mouse_state.buttons[idx];
                match b.state {
                    MouseButtonState::Down { down_pos, down_time }
                    | MouseButtonState::HeldDown { down_pos, down_time } => {
                        self.mouse_state.buttons[idx] = MouseButton {
                            button: mouse_btn,
                            state: MouseButtonState::Up {
                                down_pos,
                                down_time,
                                up_pos: pos,
                                up_time: time,
                            },
                        };
                    },
                    MouseButtonState::Up { .. } => {},
                }
                proof {
                    assert((old(self).mouse_state.buttons@[idx as int]).button == mouse_btn);
                }
            },
            None => {},
        }
    }

    /// The pointer's position, in world coordinates.
    pub fn mouse_position(&self) -> (r: Vec2)
        ensures
            r == self.mouse_state.pos,
    {
        self.mouse_state.pos
    }

    /// The state of a tracked mouse button, if any.
    pub fn mouse_button_state(&self, mouse_btn: u8) -> (r: Option<MouseButtonState>)
        ensures
            r is Some ==> exists|i: int|
                0 <= i < self.mouse_state.buttons@.len() && (#[trigger] self.mouse_state.buttons@[i]).button
                    == mouse_btn && r == Some(self.mouse_state.buttons@[i].state),
            r is None ==> forall|i: int|
                0 <= i < self.mouse_state.buttons@.len() ==> (
                #[trigger] self.mouse_state.buttons@[i]).button != mouse_btn,
    {
        let mut i: usize = 0;
        while i < self.mouse_state.buttons.len()
            invariant
                0 <= i <= self.mouse_state.buttons@.len(),
                forall|j: int|
                    0 <= j < i ==> (#[trigger] self.mouse_state.buttons@[j]).button != mouse_btn,
            decreases self.mouse_state.buttons@.len() - i,
        {
            let b = self.mouse_state.buttons[i];
            if b.button == mouse_btn {
                return Some(b.state);
            }
            i += 1;
        }
        None
    }

    /// Ends the frame: released keys are dropped and pressed keys become
    /// held; buttons that came up are dropped and buttons that went down
    /// become held.
    #[verifier::loop_isolation(false)]
    pub fn post_update(&mut self)
        ensures
            final(self).mouse_state.pos == old(self).mouse_state.pos,
            final(self).keys@ == old(self).keys@.filter(
                |k: InputKey| !(k.state is Released),
            ).map_values(
                |k: InputKey|
                    if k.state is Pressed {
                        InputKey { keycode: k.keycode, state: KeyState::HeldDown }
                    } else {
                        k
                    },
            ),
            final(self).mouse_state.buttons@ == old(self).mouse_state.buttons@.filter(
                |b: MouseButton| !(b.state is Up),
            ).map_values(
                |b: MouseButton| match b.state {
                    MouseButtonState::Down { down_pos, down_time } => MouseButton {
                        button: b.button,
                        state: MouseButtonState::HeldDown { down_pos, down_time },
                    },
                    _ => b,
                },
            ),
    {
        let mut new_keys: Vec<InputKey> = Vec::new();
        let ghost key_pred = |k: InputKey| !(k.state is Released);
        let ghost key_map = |k: InputKey|
            if k.state is Pressed {
                InputKey { keycode: k.keycode, state: KeyState::HeldDown }
            } else {
                k
            };
        let mut i: usize = 0;
        while i < self.keys.len()
            invariant
                0 <= i <= self.keys@.len(),
                new_keys@ == self.keys@.subrange(0, i as int).filter(key_pred).map_values(key_map),
            decreases self.keys@.len() - i,
        {
            let k = self.keys[i];
            let ghost pre = self.keys@.subrange(0, i as int);
            proof {
                assert(self.keys@.subrange(0, i as int + 1).drop_last() =~= pre);
                assert(self.keys@.subrange(0, i as int + 1).last() == k);
            }
            let kept: Option<InputKey> = match k.state {
                KeyState::Released => None,
                KeyState::Pressed => Some(InputKey { keycode: k.keycode, state: KeyState::HeldDown }),
                KeyState::HeldDown => Some(k),
            };
            if let Some(v) = kept {
                proof {
                    assert(key_pred(k) && v == key_map(k));
                }
                new_keys.push(v);
            } else {
                proof {
                    assert(!key_pred(k));
                }
            }
            proof {
                reveal_with_fuel(Seq::<_>::filter, 2);
                let s1 = self.keys@.subrange(0, i as int + 1);
                if key_pred(k) {
                    assert(s1.filter(key_pred) =~= pre.filter(key_pred).push(k));
                    assert(pre.filter(key_pred).push(k).map_values(key_map) =~= pre.filter(
                        key_pred,
                    ).map_values(key_map).push(key_map(k)));
                } else {
                    assert(s1.filter(key_pred) =~= pre.filter(key_pred));
                }
                assert(new_keys@ =~= s1.filter(key_pred).map_values(key_map));
            }
            i += 1;
        }
        proof {
            assert(self.keys@.subrange(0, self.keys@.len() as int) =~= self.keys@);
        }
        self.keys = new_keys;
        let ghost btn_pred = |b: MouseButton| !(b.state is Up);
        let ghost btn_map = |b: MouseButton| match b.state {
            MouseButtonState::Down { down_pos, down_time } => MouseButton {
                button: b.button,
                state: MouseButtonState::HeldDown { down_pos, down_time },
            },
            _ => b,
        };
        let mut new_buttons: Vec<MouseButton> = Vec::new();
        let mut j: usize = 0;
        while j < self.mouse_state.buttons.len()
            invariant
                0 <= j <= self.mouse_state.buttons@.len(),
                new_buttons@ == self.mouse_state.buttons@.subrange(0, j as int).filter(
                    btn_pred,
                ).map_values(btn_map),
            decreases self.mouse_state.buttons@.len() - j,
        {
            let b = self.mouse_state.buttons[j];
            let ghost pre = self.mouse_state.buttons@.subrange(0, j as int);
            proof {
                assert(self.mouse_state.buttons@.subrange(0, j as int + 1).drop_last() =~= pre);
                assert(self.mouse_state.buttons@.subrange(0, j as int + 1).last() == b);
            }
            let kept: Option<MouseButton> = match b.state {
                MouseButtonState::Up { .. } => None,
                MouseButtonState::Down { down_pos, down_time } => Some(
                    MouseButton {
                        button: b.button,
                        state: MouseButtonState::HeldDown { down_pos, down_time },
                    },
                ),
                MouseButtonState::HeldDown { .. } => Some(b),
            };
            if let Some(v) = kept {
                proof {
                    assert(btn_pred(b) && v == btn_map(b));
                }
                new_buttons.push(v);
            } else {
                proof {
                    assert(!btn_pred(b));
                }
            }
            proof {
                reveal_with_fuel(Seq::<_>::filter, 2);
                let s1 = self.mouse_state.buttons@.subrange(0, j as int + 1);
                if btn_pred(b) {
                    assert(s1.filter(btn_pred) =~= pre.filter(btn_pred).push(b));
                    assert(pre.filter(btn_pred).push(b).map_values(btn_map) =~= pre.filter(
                        btn_pred,
                    ).map_values(btn_map).push(btn_map(b)));
                } else {
                    assert(s1.filter(btn_pred) =~= pre.filter(btn_pred));
                }
                assert(new_buttons@ =~= s1.filter(btn_pred).map_values(btn_map));
            }
            j += 1;
        }
        proof {
            assert(self.mouse_state.buttons@.subrange(0, self.mouse_state.buttons@.len() as int)
                =~= self.mouse_state.buttons@);
        }
        self.mouse_state.buttons = new_buttons;
    }
}

/// The two top-level modes of the engine shell.
#[derive(Clone, Copy, Debug, PartialEq, Eq, Structural)]
pub enum GameState {
    PlayMode,
    Editor,
}

/// Frame timing bookkeeping, in milliseconds.
#[derive(Clone, Copy, Debug, PartialEq, Eq, Structural)]
pub struct Time {
    pub target_frame_time: u32,
    pub dt: u32,
    pub last_frame_elapsed_time: u32,
}

impl Time {
    /// Feeds the current tick count: records the elapsed delta and
    /// reports how long to sleep to hold the target frame time.
    pub fn advance(&mut self, ticks: u32) -> (delay: u32)
        requires
            ticks >= old(self).last_frame_elapsed_time,
        ensures
            final(self).target_frame_time == old(self).target_frame_time,
            final(self).dt == ticks - old(self).last_frame_elapsed_time,
            final(self).last_frame_elapsed_time == ticks,
            delay == if old(self).target_frame_time > ticks - old(self).last_frame_elapsed_time {
                old(self).target_frame_time - (ticks - old(self).last_frame_elapsed_time)
            } else {
                0int
            },
    {
        let dt = ticks - self.last_frame_elapsed_time;
        self.dt = dt;
        self.last_frame_elapsed_time = ticks;
        if self.target_frame_time > dt {
            self.target_frame_time - dt
        } else {
            0
        }
    }
}

} // verus!
