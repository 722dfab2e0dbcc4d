//! Speech, noise and damage popups: the event sink the guard state machine
//! writes and the presentation layer drains once per frame.

use vstd::prelude::*;
use crate::coord::Coord;

verus! {

#[derive(Clone, Copy, Debug, PartialEq, Eq, Structural)]
pub enum PopupType {
    Noise,
    Damage,
    GuardSpeech,
    Narration,
}

/// One popup: its kind, the world tile it is anchored to, and its text.
pub struct Popup {
    pub popup_type: PopupType,
    pub world_origin: Coord,
    pub msg: &'static str,
}

pub struct Popups {
    pub popups: Vec<Popup>,
}

pub fn new_popups() -> (r: Popups)
    ensures
        r.popups@.len() == 0,
{
    Popups { popups: Vec::new() }
}

impl Popups {
    pub fn clear(&mut self)
        ensures
            final(self).popups@.len() == 0,
    {
        self.popups.clear();
    }

    pub fn guard_speech(&mut self, pos: Coord, s: &'static str)
        ensures
            final(self).popups@ == old(self).popups@.push(
                Popup { popup_type: PopupType::GuardSpeech, world_origin: pos, msg: s },
            ),
    {
        self.push(PopupType::GuardSpeech, pos, s);
    }

    pub fn damage(&mut self, pos: Coord, s: &'static str)
        ensures
            final(self).popups@ == old(self).popups@.push(
                Popup { popup_type: PopupType::Damage, world_origin: pos, msg: s },
            ),
    {
        self.push(PopupType::Damage, pos, s);
    }

    pub fn noise(&mut self, pos: Coord, s: &'static str)
        ensures
            final(self).popups@ == old(self).popups@.push(
                Popup { popup_type: PopupType::Noise, world_origin: pos, msg: s },
            ),
    {
        self.push(PopupType::Noise, pos, s);
    }

    pub fn push(&mut self, popup_type: PopupType, pos: Coord, s: &'static str)
        ensures
            final(self).popups@ == old(self).popups@.push(
                Popup { popup_type: popup_type, world_origin: pos, msg: s },
            ),
    {
        self.popups.push(Popup { popup_type: popup_type, world_origin: pos, msg: s });
    }
}

} // verus!
