//! Input model: logical keys, the held-key set, the frame's input event
//! queue, and the application of backend input events to the shared
//! resources. The backend polls raw events and translates them into
//! `BackendEvent` values before the frame's subsystems run.

use vstd::prelude::*;
use crate::AppState;
use crate::StateRes;
use crate::events::EventQueue;
use crate::geometry::PixelSize;

verus! {

/// A logical key, independent of the windowing backend's key codes.
#[derive(Clone, Copy, Debug, PartialEq, Eq, Structural)]
pub enum Key {
    A, B, C, D, E, F, G, H, I, J, K, L, M,
    N, O, P, Q, R, S, T, U, V, W, X, Y, Z,
    One, Two, Three, Four, Five, Six, Seven, Eight, Nine, Zero,
    Minus, Equals, OpenBracket, CloseBracket, Backslash,
    Semicolon, Apostrophe, Comma, Dot, Slash, Backtick,
    Backspace, Tab, Return, Shift, Control, Opt, Space,
    Up, Down, Left, Right,
    Unknown,
}

/// The printable character a key produces, if any, given whether a shift
/// key is currently held. Keys with no printable mapping give `None`.
pub open spec fn key_char(k: Key, shift: bool) -> Option<char> {
    match k {
        Key::A => Some(if shift { 'A' } else { 'a' }),
        Key::B => Some(if shift { 'B' } else { 'b' }),
        Key::C => Some(if shift { 'C' } else { 'c' }),
        Key::D => Some(if shift { 'D' } else { 'd' }),
        Key::E => Some(if shift { 'E' } else { 'e' }),
        Key::F => Some(if shift { 'F' } else { 'f' }),
        Key::G => Some(if shift { 'G' } else { 'g' }),
        Key::H => Some(if shift { 'H' } else { 'h' }),
        Key::I => Some(if shift { 'I' } else { 'i' }),
        Key::J => Some(if shift { 'J' } else { 'j' }),
        Key::K => Some(if shift { 'K' } else { 'k' }),
        Key::L => Some(if shift { 'L' } else { 'l' }),
        Key::M => Some(if shift { 'M' } else { 'm' }),
        Key::N => Some(if shift { 'N' } else { 'n' }),
        Key::O => Some(if shift { 'O' } else { 'o' }),
        Key::P => Some(if shift { 'P' } else { 'p' }),
        Key::Q => Some(if shift { 'Q' } else { 'q' }),
        Key::R => Some(if shift { 'R' } else { 'r' }),
        Key::S => Some(if shift { 'S' } else { 's' }),
        Key::T => Some(if shift { 'T' } else { 't' }),
        Key::U => Some(if shift { 'U' } else { 'u' }),
        Key::V => Some(if shift { 'V' } else { 'v' }),
        Key::W => Some(if shift { 'W' } else { 'w' }),
        Key::X => Some(if shift { 'X' } else { 'x' }),
        Key::Y => Some(if shift { 'Y' } else { 'y' }),
        Key::Z => Some(if shift { 'Z' } else { 'z' }),
        Key::One => Some(if shift { '!' } else { '1' }),
        Key::Two => Some(if shift { '@' } else { '2' }),
        Key::Three => Some(if shift { '#' } else { '3' }),
        Key::Four => Some(if shift { '$' } else { '4' }),
        Key::Five => Some(if shift { '%' } else { '5' }),
        Key::Six => Some(if shift { '^' } else { '6' }),
        Key::Seven => Some(if shift { '&' } else { '7' }),
        Key::Eight => Some(if shift { '*' } else { '8' }),
        Key::Nine => Some(if shift { '(' } else { '9' }),
        Key::Zero => Some(if shift { ')' } else { '0' }),
        Key::Minus => Some(if shift { '_' } else { '-' }),
        Key::Equals => Some(if shift { '+' } else { '=' }),
        Key::OpenBracket => Some(if shift { '{' } else { '[' }),
        Key::CloseBracket => Some(if shift { '}' } else { ']' }),
        Key::Backslash => Some(if shift { '|' } else { '\\' }),
        Key::Semicolon => Some(if shift { ':' } else { ';' }),
        Key::Apostrophe => Some(if shift { '"' } else { '\'' }),
        Key::Comma => Some(if shift { '<' } else { ',' }),
        Key::Dot => Some(if shift { '>' } else { '.' }),
        Key::Slash => Some(if shift { '?' } else { '/' }),
        Key::Backtick => Some(if shift { '~' } else { '`' }),
        Key::Space => Some(' '),
        _ => None,
    }
}

impl Key {
    /// The printable character this key produces under the given shift
    /// state, if any.
    pub fn to_char(&self, shift: bool) -> (r: Option<char>)
        ensures
            r == key_char(*self, shift),
    {
        match self {
            Key::A => Some(if shift { 'A' } else { 'a' }),
            Key::B => Some(if shift { 'B' } else { 'b' }),
            Key::C => Some(if shift { 'C' } else { 'c' }),
            Key::D => Some(if shift { 'D' } else { 'd' }),
            Key::E => Some(if shift { 'E' } else { 'e' }),
            Key::F => Some(if shift { 'F' } else { 'f' }),
            Key::G => Some(if shift { 'G' } else { 'g' }),
            Key::H => Some(if shift { 'H' } else { 'h' }),
            Key::I => Some(if shift { 'I' } else { 'i' }),
            Key::J => Some(if shift { 'J' } else { 'j' }),
            Key::K => Some(if shift { 'K' } else { 'k' }),
            Key::L => Some(if shift { 'L' } else { 'l' }),
            Key::M => Some(if shift { 'M' } else { 'm' }),
            Key::N => Some(if shift { 'N' } else { 'n' }),
            Key::O => Some(if shift { 'O' } else { 'o' }),
            Key::P => Some(if shift { 'P' } else { 'p' }),
            Key::Q => Some(if shift { 'Q' } else { 'q' }),
            Key::R => Some(if shift { 'R' } else { 'r' }),
            Key::S => Some(if shift { 'S' } else { 's' }),
            Key::T => Some(if shift { 'T' } else { 't' }),
            Key::U => Some(if shift { 'U' } else { 'u' }),
            Key::V => Some(if shift { 'V' } else { 'v' }),
            Key::W => Some(if shift { 'W' } else { 'w' }),
            Key::X => Some(if shift { 'X' } else { 'x' }),
            Key::Y => Some(if shift { 'Y' } else { 'y' }),
            Key::Z => Some(if shift { 'Z' } else { 'z' }),
            Key::One => Some(if shift { '!' } else { '1' }),
            Key::Two => Some(if shift { '@' } else { '2' }),
            Key::Three => Some(if shift { '#' } else { '3' }),
            Key::Four => Some(if shift { '$' } else { '4' }),
            Key::Five => Some(if shift { '%' } else { '5' }),
            Key::Six => Some(if shift { '^' } else { '6' }),
            Key::Seven => Some(if shift { '&' } else { '7' }),
            Key::Eight => Some(if shift { '*' } else { '8' }),
            Key::Nine => Some(if shift { '(' } else { '9' }),
            Key::Zero => Some(if shift { ')' } else { '0' }),
            Key::Minus => Some(if shift { '_' } else { '-' }),
            Key::Equals => Some(if shift { '+' } else { '=' }),
            Key::OpenBracket => Some(if shift { '{' } else { '[' }),
            Key::CloseBracket => Some(if shift { '}' } else { ']' }),
            Key::Backslash => Some(if shift { '|' } else { '\\' }),
            Key::Semicolon => Some(if shift { ':' } else { ';' }),
            Key::Apostrophe => Some(if shift { '"' } else { '\'' }),
            Key::Comma => Some(if shift { '<' } else { ',' }),
            Key::Dot => Some(if shift { '>' } else { '.' }),
            Key::Slash => Some(if shift { '?' } else { '/' }),
            Key::Backtick => Some(if shift { '~' } else { '`' }),
            Key::Space => Some(' '),
            _ => None,
        }
    }
}

/// The set of keys currently held down, kept up to date by the input
/// backend and read by the interaction engine for shift-state lookups.
pub struct KeysRes {
    held: Vec<Key>,
}

impl View for KeysRes {
    type V = Set<Key>;

    closed spec fn view(&self) -> Set<Key> {
        Set::new(|k: Key| self.held@.contains(k))
    }
}

impl KeysRes {
    /// No duplicate entries in the backing vector.
    pub closed spec fn wf(&self) -> bool {
        forall|i: int, j: int|
            0 <= i < j < self.held@.len() ==> self.held@[i] != self.held@[j]
    }

    /// An empty held-key set.
    pub fn new() -> (r: KeysRes)
        ensures
            r.wf(),
            r@ == Set::<Key>::empty(),
    {
        let r = KeysRes { held: Vec::new() };
        proof {
            assert(r@ =~= Set::<Key>::empty());
        }
        r
    }

    /// Whether `k` is currently held.
    pub fn pressed(&self, k: Key) -> (r: bool)
        ensures
            r == self@.contains(k),
    {
        let mut i: usize = 0;
        while i < self.held.len()
            invariant
                i <= self.held@.len(),
                forall|j: int| 0 <= j < i ==> self.held@[j] != k,
            decreases self.held@.len() - i,
        {
            if self.held[i] == k {
                return true;
            }
            i += 1;
        }
        false
    }

    /// Record that `k` went down.
    pub fn press(&mut self, k: Key)
        requires
            old(self).wf(),
        ensures
            final(self).wf(),
            final(self)@ == old(self)@.insert(k),
    {
        if !self.pressed(k) {
            self.held.push(k);
            proof {
                assert(self.held@ == old(self).held@.push(k));
                assert forall|j: Key| (self@.contains(j) <==> old(self)@.insert(k).contains(j)) by {
                    if j != k && self.held@.contains(j) {
                        let w = choose|w: int| 0 <= w < self.held@.len() && self.held@[w] == j;
                        assert(w < old(self).held@.len());
                        assert(old(self).held@[w] == j);
                    }
                    if old(self).held@.contains(j) {
                        let w = choose|w: int|
                            0 <= w < old(self).held@.len() && old(self).held@[w] == j;
                        assert(self.held@[w] == j);
                    }
                    if j == k {
                        assert(self.held@[self.held@.len() - 1] == k);
                    }
                }
                assert(self@ =~= old(self)@.insert(k));
                assert forall|a: int, b: int|
                    0 <= a < b < self.held@.len() implies self.held@[a] != self.held@[b] by {
                    if b == self.held@.len() - 1 {
                        assert(self.held@[a] == old(self).held@[a]);
                        assert(!old(self).held@.contains(k));
                    }
                }
            }
        } else {
            proof {
                assert(self@ =~= old(self)@.insert(k));
            }
        }
    }

    /// Record that `k` came back up.
    pub fn release(&mut self, k: Key)
        requires
            old(self).wf(),
        ensures
            final(self).wf(),
            final(self)@ == old(self)@.remove(k),
    {
        let ghost held0 = self.held@;
        let mut i: usize = 0;
        while i < self.held.len()
            invariant
                self.held@ == held0,
                held0 == old(self).held@,
                i <= held0.len(),
                forall|j: int| 0 <= j < i ==> held0[j] != k,
                forall|a: int, b: int| 0 <= a < b < held0.len() ==> held0[a] != held0[b],
            decreases held0.len() - i,
        {
            if self.held[i] == k {
                self.held.remove(i);
                proof {
                    assert(self.held@ == held0.remove(i as int));
                    assert forall|j: Key| (self@.contains(j) <==> old(self)@.remove(k).contains(j)) by {
                        lemma_remove_contains(held0, i as int, j);
                    }
                    assert(self@ =~= old(self)@.remove(k));
                    assert forall|a: int, b: int|
                        0 <= a < b < self.held@.len() implies self.held@[a] != self.held@[b] by {
                        assert(self.held@[a] == if a < i { held0[a] } else { held0[a + 1] });
                        assert(self.held@[b] == if b < i { held0[b] } else { held0[b + 1] });
                    }
                }
                return;
            }
            i += 1;
        }
        proof {
            assert(!old(self)@.contains(k));
            assert(self@ =~= old(self)@.remove(k));
        }
    }
}

/// Membership in a sequence with one index removed, for a sequence without
/// duplicates: exactly the other elements remain.
proof fn lemma_remove_contains(s: Seq<Key>, i: int, j: Key)
    requires
        0 <= i < s.len(),
        forall|a: int, b: int| 0 <= a < b < s.len() ==> s[a] != s[b],
    ensures
        s.remove(i).contains(j) <==> (s.contains(j) && j != s[i]),
{
    let r = s.remove(i);
    if r.contains(j) {
        let w = choose|w: int| 0 <= w < r.len() && r[w] == j;
        if w < i {
            assert(s[w] == j);
        } else {
            assert(s[w + 1] == j);
        }
    }
    if s.contains(j) && j != s[i] {
        let w = choose|w: int| 0 <= w < s.len() && s[w] == j;
        if w < i {
            assert(r[w] == j);
        } else {
            assert(r[w - 1] == j);
        }
    }
}

/// An input event queued for this frame, in the order the backend saw it.
#[derive(Clone, Copy, Debug, PartialEq, Eq, Structural)]
pub enum InputEvent {
    KeyDown(Key),
    KeyUp(Key),
    MouseDown(u32, u32),
    MouseUp(u32, u32),
}

/// The input event queue resource: appended by the input backend before
/// the frame's subsystems run, drained by the interaction engine.
pub type InputEventQueue = EventQueue<InputEvent>;

/// A raw event as the windowing backend reports it, already translated to
/// logical keys and pixel coordinates.
#[derive(Clone, Copy, Debug, PartialEq, Eq, Structural)]
pub enum BackendEvent {
    Quit,
    Resized(u32, u32),
    KeyDown(Key),
    KeyUp(Key),
    MouseDown(u32, u32),
    MouseUp(u32, u32),
}

/// Apply one polled backend event to the shared resources: a quit signal
/// stops the application, a resize updates the screen extent, key events
/// update the held-key set and are queued, and pointer events are queued.
pub fn apply_backend_event(
    e: BackendEvent,
    state: &mut StateRes,
    screen: &mut PixelSize,
    keys: &mut KeysRes,
    queue: &mut InputEventQueue,
)
    requires
        old(keys).wf(),
    ensures
        final(keys).wf(),
        e == BackendEvent::Quit ==> final(state).app == AppState::Stopping
            && *final(screen) == *old(screen) && final(keys)@ == old(keys)@
            && final(queue)@ == old(queue)@,
        e matches BackendEvent::Resized(w, h) ==> *final(state) == *old(state)
            && *final(screen) == (PixelSize { w, h }) && final(keys)@ == old(keys)@
            && final(queue)@ == old(queue)@,
        e matches BackendEvent::KeyDown(k) ==> *final(state) == *old(state)
            && *final(screen) == *old(screen) && final(keys)@ == old(keys)@.insert(k)
            && final(queue)@ == old(queue)@.push(InputEvent::KeyDown(k)),
        e matches BackendEvent::KeyUp(k) ==> *final(state) == *old(state)
            && *final(screen) == *old(screen) && final(keys)@ == old(keys)@.remove(k)
            && final(queue)@ == old(queue)@.push(InputEvent::KeyUp(k)),
        e matches BackendEvent::MouseDown(x, y) ==> *final(state) == *old(state)
            && *final(screen) == *old(screen) && final(keys)@ == old(keys)@
            && final(queue)@ == old(queue)@.push(InputEvent::MouseDown(x, y)),
        e matches BackendEvent::MouseUp(x, y) ==> *final(state) == *old(state)
            && *final(screen) == *old(screen) && final(keys)@ == old(keys)@
            && final(queue)@ == old(queue)@.push(InputEvent::MouseUp(x, y)),
{
    match e {
        BackendEvent::Quit => {
            state.app = AppState::Stopping;
        },
        BackendEvent::Resized(w, h) => {
            *screen = PixelSize { w, h };
        },
        BackendEvent::KeyDown(k) => {
            keys.press(k);
            queue.push(InputEvent::KeyDown(k));
        },
        BackendEvent::KeyUp(k) => {
            keys.release(k);
            queue.push(InputEvent::KeyUp(k));
        },
        BackendEvent::MouseDown(x, y) => {
            queue.push(InputEvent::MouseDown(x, y));
        },
        BackendEvent::MouseUp(x, y) => {
            queue.push(InputEvent::MouseUp(x, y));
        },
    }
}

} // verus!
