//! The modifier keys and the changes of their state.

use vstd::prelude::*;

verus! {

/// The virtual key code of the Control key.
pub const VK_CONTROL: u16 = 0x11;

/// The virtual key code of the Alt key.
pub const VK_MENU: u16 = 0x12;

/// The virtual key code of the Shift key.
pub const VK_SHIFT: u16 = 0x10;

/// The state of a modifier key.
#[derive(Clone, Copy, PartialEq, Eq, Structural, Debug)]
pub enum ModifierKeyState {
    /// The key is not pressed and has not just been released.
    Idle,
    /// The key is pressed.
    Pressed,
    /// The key has just been released.
    Release,
}

/// A modifier key that was pressed or released.
#[derive(Clone, Copy, PartialEq, Eq, Structural, Debug)]
pub struct ModifierKey {
    /// The virtual key code of the key.
    pub key: u16,
    /// Whether the key was pressed.
    pub pressed: bool,
}

/// Which modifier keys are down.
#[derive(Clone, Copy, PartialEq, Eq, Structural, Debug)]
pub struct Modifiers {
    pub command: bool,
    pub alt: bool,
    pub shift: bool,
}

/// Tracks the modifier keys from frame to frame.
pub struct ModifiersState {
    pub command: ModifierKeyState,
    pub alt: ModifierKeyState,
    pub shift: ModifierKeyState,
    /// The keys that changed in the last update.
    pub keys: Vec<ModifierKey>,
}

/// The next state of a key that is down or not.
pub open spec fn next_state(state: ModifierKeyState, down: bool) -> ModifierKeyState {
    if down {
        ModifierKeyState::Pressed
    } else if state == ModifierKeyState::Pressed {
        ModifierKeyState::Release
    } else {
        ModifierKeyState::Idle
    }
}

/// The change of a key, if there is one: it was up and is down, or the other
/// way round.
pub open spec fn change(state: ModifierKeyState, down: bool, key: u16) -> Seq<ModifierKey> {
    if (state == ModifierKeyState::Pressed) != down {
        seq![ModifierKey { key, pressed: down }]
    } else {
        Seq::empty()
    }
}

/// Brings one key up to date and notes its change.
fn update_key(state: ModifierKeyState, down: bool, key: u16, keys: &mut Vec<ModifierKey>) -> (next:
    ModifierKeyState)
    ensures
        next == next_state(state, down),
        final(keys)@ == old(keys)@ + change(state, down, key),
{
    let mut next: ModifierKeyState = state;
    if down {
        if state != ModifierKeyState::Pressed {
            next = ModifierKeyState::Pressed;
            keys.push(ModifierKey { key, pressed: true });
        }
    } else {
        if state == ModifierKeyState::Pressed {
            next = ModifierKeyState::Release;
            keys.push(ModifierKey { key, pressed: false });
        } else {
            next = ModifierKeyState::Idle;
        }
    }
    assert(keys@ =~= old(keys)@ + change(state, down, key));
    next
}

impl ModifiersState {
    /// No key is pressed.
    pub fn new() -> (state: ModifiersState)
        ensures
            state.command == ModifierKeyState::Idle,
            state.alt == ModifierKeyState::Idle,
            state.shift == ModifierKeyState::Idle,
            state.keys@ == Seq::<ModifierKey>::empty(),
    {
        ModifiersState {
            command: ModifierKeyState::Idle,
            alt: ModifierKeyState::Idle,
            shift: ModifierKeyState::Idle,
            keys: Vec::new(),
        }
    }

    /// Takes the modifier keys of a frame: [`ModifiersState::keys`] then holds
    /// those that changed, in the order Control, Alt, Shift.
    pub fn update(&mut self, modifiers: Modifiers)
        ensures
            final(self).command == next_state(old(self).command, modifiers.command),
            final(self).alt == next_state(old(self).alt, modifiers.alt),
            final(self).shift == next_state(old(self).shift, modifiers.shift),
            final(self).keys@ == change(old(self).command, modifiers.command, VK_CONTROL) + change(
                old(self).alt,
                modifiers.alt,
                VK_MENU,
            ) + change(old(self).shift, modifiers.shift, VK_SHIFT),
    {
        let mut keys: Vec<ModifierKey> = Vec::new();
        self.command = update_key(self.command, modifiers.command, VK_CONTROL, &mut keys);
        self.alt = update_key(self.alt, modifiers.alt, VK_MENU, &mut keys);
        self.shift = update_key(self.shift, modifiers.shift, VK_SHIFT, &mut keys);
        self.keys = keys;
        assert(self.keys@ =~= change(old(self).command, modifiers.command, VK_CONTROL) + change(
            old(self).alt,
            modifiers.alt,
            VK_MENU,
        ) + change(old(self).shift, modifiers.shift, VK_SHIFT));
    }
}

/// The state of a key after a row of frames.
pub open spec fn state_after(state: ModifierKeyState, frames: Seq<bool>) -> ModifierKeyState
    decreases frames.len(),
{
    if frames.len() == 0 {
        state
    } else {
        next_state(state_after(state, frames.drop_last()), frames.last())
    }
}

/// The changes of a key over a row of frames.
pub open spec fn changes(state: ModifierKeyState, frames: Seq<bool>, key: u16) -> Seq<ModifierKey>
    decreases frames.len(),
{
    if frames.len() == 0 {
        Seq::empty()
    } else {
        changes(state, frames.drop_last(), key) + change(
            state_after(state, frames.drop_last()),
            frames.last(),
            key,
        )
    }
}

/// Over any row of frames the reports of a key alternate between pressed and
/// released, and the last one tells whether the key is down: whoever follows
/// the reports knows the state of the key.
pub proof fn law_reports_follow_the_key(state: ModifierKeyState, frames: Seq<bool>, key: u16)
    ensures
        ({
            let reports = changes(state, frames, key);
            let down = state_after(state, frames) == ModifierKeyState::Pressed;
            &&& frames.len() > 0 ==> down == frames.last()
            &&& reports.len() > 0 ==> reports.last().pressed == down
            &&& reports.len() == 0 ==> down == (state == ModifierKeyState::Pressed)
            &&& forall|i: int|
                0 < i < reports.len() ==> (#[trigger] reports[i]).pressed != reports[i - 1].pressed
            &&& reports.len() > 0 ==> reports[0].pressed != (state == ModifierKeyState::Pressed)
        }),
    decreases frames.len(),
{
    if frames.len() > 0 {
        law_reports_follow_the_key(state, frames.drop_last(), key);
        let before = changes(state, frames.drop_last(), key);
        let reports = changes(state, frames, key);
        assert forall|i: int| 0 < i < reports.len() implies (#[trigger] reports[i]).pressed
            != reports[i - 1].pressed by {
            if i < before.len() {
                assert(reports[i] == before[i]);
                assert(reports[i - 1] == before[i - 1]);
            } else {
                assert(i == before.len());
                assert(reports[i - 1] == before.last());
            }
        }
        if before.len() > 0 {
            assert(reports[0] == before[0]);
        }
    }
}

/// Every report of a key names that key, and a frame reports it exactly if it
/// went down or up in it.
pub proof fn law_changes_are_reported(state: ModifierKeyState, down: bool, key: u16)
    ensures
        ({
            let reports = change(state, down, key);
            &&& reports.len() <= 1
            &&& reports.len() == 1 <==> (state == ModifierKeyState::Pressed) != down
            &&& forall|i: int|
                0 <= i < reports.len() ==> #[trigger] reports[i] == (ModifierKey {
                    key,
                    pressed: down,
                })
            &&& next_state(state, down) == ModifierKeyState::Pressed <==> down
            &&& next_state(state, down) == ModifierKeyState::Release <==> (!down && state
                == ModifierKeyState::Pressed)
        }),
{
}

} // verus!
