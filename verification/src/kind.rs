//! The kinds of Stream Deck action this plugin offers.

use vstd::prelude::*;

verus! {

#[derive(Clone, Copy, Debug, PartialEq, Eq, Structural)]
pub enum ActionKind {
    Program,
    Preview,
    Transition,
    Stinger,
    FadeToBlack,
    Overlay,
    Recording,
    Streaming,
    External,
    MultiCorder,
    Fullscreen,
    Replay,
    Mute,
    Solo,
    BusSend,
    Play,
    List,
    Title,
    Shortcut,
    Raw,
    Volume,
}

/// Kinds that fire a one-shot function and confirm the press on the key.
pub open spec fn is_one_shot(kind: ActionKind) -> bool {
    ||| kind is Transition
    ||| kind is Stinger
    ||| kind is Title
    ||| kind is Shortcut
    ||| kind is Raw
}

/// Keys with an on/off look: everything but one-shot and volume keys.
pub open spec fn has_toggle(kind: ActionKind) -> bool {
    !(is_one_shot(kind) || kind is Volume)
}

impl ActionKind {
    /// Whether the key shows an on/off hardware state.
    pub fn has_toggle_state(self) -> (r: bool)
        ensures
            r == has_toggle(self),
    {
        !matches!(
            self,
            ActionKind::Transition | ActionKind::Stinger | ActionKind::Title | ActionKind::Shortcut
                | ActionKind::Raw | ActionKind::Volume
        )
    }

    /// Whether vMix's reply to the press is shown on the key as OK or alert.
    pub fn confirms_press(self) -> (r: bool)
        ensures
            r == is_one_shot(self),
    {
        matches!(
            self,
            ActionKind::Transition | ActionKind::Stinger | ActionKind::Title | ActionKind::Shortcut
                | ActionKind::Raw
        )
    }
}


/// A key that confirms its press fires once and has no on/off look, and a volume
/// dial has neither.
pub proof fn confirming_keys_have_no_toggle_state(kind: ActionKind)
    ensures
        is_one_shot(kind) ==> !has_toggle(kind),
        kind is Volume ==> !has_toggle(kind) && !is_one_shot(kind),
{
}

} // verus!
