//! Guards: their state machine modes, senses, and dialogue pools.

use vstd::prelude::*;
use crate::coord::Coord;
use crate::map::region_ok;

verus! {

/// The guard state machine's modes.
#[derive(Clone, Copy, Debug, PartialEq, Eq, Structural)]
pub enum GuardMode {
    Patrol,
    Look,
    LookAtDisguised,
    Listen,
    ChaseVisibleTarget,
    MoveToLastSighting,
    MoveToLastSound,
    MoveToGuardShout,
}

/// Which patrol regions a guard was assigned at spawn time: inner regions
/// lie behind master-suite territory, outer ones do not.
#[derive(Clone, Copy, Debug, PartialEq, Eq, Structural)]
pub enum GuardKind {
    Inner,
    Outer,
}

#[derive(Clone, Copy, Debug, PartialEq, Eq, Structural)]
pub struct Guard {
    pub pos: Coord,
    pub dir: Coord,
    pub kind: GuardKind,
    pub mode: GuardMode,
    pub speaking: bool,
    pub has_moved: bool,
    pub heard_thief: bool,
    pub hearing_guard: bool,
    pub heard_guard: bool,
    pub heard_guard_pos: Coord,
    // Chase
    pub goal: Coord,
    pub mode_timeout: usize,
    // Patrol
    pub region_goal: usize,
    pub region_prev: usize,
}

impl Guard {
    /// The guard names only cells on the grid and regions that exist, and
    /// faces along an axis or diagonal.
    pub open spec fn wf(self, sx: int, sy: int, nregions: int) -> bool {
        &&& 0 <= self.pos.0 < sx && 0 <= self.pos.1 < sy
        &&& -1 <= self.dir.0 <= 1 && -1 <= self.dir.1 <= 1
        &&& 0 <= self.goal.0 < sx && 0 <= self.goal.1 < sy
        &&& 0 <= self.heard_guard_pos.0 < sx && 0 <= self.heard_guard_pos.1 < sy
        &&& region_ok(self.region_goal, nregions)
        &&& region_ok(self.region_prev, nregions)
    }

    /// Latch the shout heard last turn and clear the per-turn flags.
    pub fn pre_turn(&mut self)
        ensures
            *final(self) == (Guard {
                heard_guard: old(self).hearing_guard,
                hearing_guard: false,
                speaking: false,
                has_moved: false,
                ..*old(self)
            }),
    {
        self.heard_guard = self.hearing_guard;
        self.hearing_guard = false;
        self.speaking = false;
        self.has_moved = false;
    }

    pub fn hear_thief(&mut self)
        ensures
            *final(self) == (Guard { heard_thief: true, ..*old(self) }),
    {
        self.heard_thief = true;
    }

    /// Receive another guard's shout reporting the target at `pos_target`.
    pub fn hear_guard(&mut self, pos_target: Coord)
        ensures
            *final(self) == (Guard {
                hearing_guard: true,
                heard_guard_pos: pos_target,
                ..*old(self)
            }),
    {
        self.hearing_guard = true;
        self.heard_guard_pos = pos_target;
    }

    /// Within the 3x3 neighborhood of `pos` (chessboard distance <= 1).
    pub fn adjacent_to(&self, pos: Coord) -> (r: bool)
        requires
            -0x8000 <= self.pos.0 <= 0x8000,
            -0x8000 <= self.pos.1 <= 0x8000,
            -0x8000 <= pos.0 <= 0x8000,
            -0x8000 <= pos.1 <= 0x8000,
        ensures
            r == spec_adjacent(self.pos, pos),
    {
        let dx = pos.0 - self.pos.0;
        let dy = pos.1 - self.pos.1;
        -1 <= dx && dx <= 1 && -1 <= dy && dy <= 1
    }

    /// Squared-distance sight cutoff against a lit target.
    pub fn cutoff_lit(&self) -> (r: i32)
        ensures
            r == spec_cutoff_lit(self.mode),
    {
        if self.mode == GuardMode::Patrol || self.mode == GuardMode::LookAtDisguised {
            40
        } else {
            75
        }
    }

    /// Squared-distance sight cutoff against an unlit target.
    pub fn cutoff_unlit(&self) -> (r: i32)
        ensures
            r == spec_cutoff_unlit(self.mode),
    {
        if self.mode == GuardMode::Patrol || self.mode == GuardMode::LookAtDisguised {
            3
        } else {
            33
        }
    }

    pub fn sight_cutoff(&self, lit_target: bool) -> (r: i32)
        ensures
            r == spec_sight_cutoff(self.mode, lit_target),
    {
        if lit_target {
            self.cutoff_lit()
        } else {
            self.cutoff_unlit()
        }
    }
}

pub open spec fn spec_adjacent(a: Coord, b: Coord) -> bool {
    -1 <= b.0 - a.0 <= 1 && -1 <= b.1 - a.1 <= 1
}

pub open spec fn spec_cutoff_lit(mode: GuardMode) -> i32 {
    if mode == GuardMode::Patrol || mode == GuardMode::LookAtDisguised {
        40
    } else {
        75
    }
}

pub open spec fn spec_cutoff_unlit(mode: GuardMode) -> i32 {
    if mode == GuardMode::Patrol || mode == GuardMode::LookAtDisguised {
        3
    } else {
        33
    }
}

pub open spec fn spec_sight_cutoff(mode: GuardMode, lit_target: bool) -> i32 {
    if lit_target {
        spec_cutoff_lit(mode)
    } else {
        spec_cutoff_unlit(mode)
    }
}

/// The 90-degree-snapped turning rule: keep facing `dir_forward` when the
/// aim is at least as aligned with it as with the perpendicular axis,
/// otherwise face along the perpendicular (or backward).
pub open spec fn spec_update_dir(dir_forward: Coord, dir_aim: Coord) -> Coord {
    let dir_left = Coord(-dir_forward.1 as i32, dir_forward.0);
    let dot_forward = dir_forward.0 * dir_aim.0 + dir_forward.1 * dir_aim.1;
    let dot_left = dir_left.0 * dir_aim.0 + dir_left.1 * dir_aim.1;
    let abs_forward = if dot_forward >= 0 {
        dot_forward as int
    } else {
        -dot_forward as int
    };
    let abs_left = if dot_left >= 0 {
        dot_left as int
    } else {
        -dot_left as int
    };
    if abs_forward >= abs_left {
        if dot_forward >= 0 {
            dir_forward
        } else {
            Coord(-dir_forward.0 as i32, -dir_forward.1 as i32)
        }
    } else {
        if dot_left >= 0 {
            dir_left
        } else {
            Coord(-dir_left.0 as i32, -dir_left.1 as i32)
        }
    }
}

/// Turn `dir_forward` toward `dir_aim`, snapped to quarter turns; ties keep
/// the forward axis.
pub fn update_dir(dir_forward: Coord, dir_aim: Coord) -> (r: Coord)
    requires
        -1 <= dir_forward.0 <= 1,
        -1 <= dir_forward.1 <= 1,
        -0x8000 <= dir_aim.0 <= 0x8000,
        -0x8000 <= dir_aim.1 <= 0x8000,
    ensures
        r == spec_update_dir(dir_forward, dir_aim),
        -1 <= r.0 <= 1 && -1 <= r.1 <= 1,
{
    let dir_left = Coord(-dir_forward.1, dir_forward.0);
    proof {
        assert(-0x8000 <= dir_forward.0 as int * dir_aim.0 as int <= 0x8000
            && -0x8000 <= dir_forward.1 as int * dir_aim.1 as int <= 0x8000
            && -0x8000 <= dir_left.0 as int * dir_aim.0 as int <= 0x8000
            && -0x8000 <= dir_left.1 as int * dir_aim.1 as int <= 0x8000) by (nonlinear_arith)
            requires
                -1 <= dir_forward.0 <= 1,
                -1 <= dir_forward.1 <= 1,
                dir_left.0 == -dir_forward.1 as int && dir_left.1 == dir_forward.0,
                -0x8000 <= dir_aim.0 <= 0x8000,
                -0x8000 <= dir_aim.1 <= 0x8000,
        ;
    }
    let dot_forward: i32 = dir_forward.0 * dir_aim.0 + dir_forward.1 * dir_aim.1;
    let dot_left: i32 = dir_left.0 * dir_aim.0 + dir_left.1 * dir_aim.1;
    let abs_forward = if dot_forward >= 0 {
        dot_forward
    } else {
        -dot_forward
    };
    let abs_left = if dot_left >= 0 {
        dot_left
    } else {
        -dot_left
    };
    if abs_forward >= abs_left {
        if dot_forward >= 0 {
            dir_forward
        } else {
            Coord(-dir_forward.0, -dir_forward.1)
        }
    } else {
        if dot_left >= 0 {
            dir_left
        } else {
            Coord(-dir_left.0, -dir_left.1)
        }
    }
}

/// A round-robin pool of flavor lines: the Nth request hands back the Nth
/// line, wrapping.
pub struct LineIter {
    pub lines: Vec<&'static str>,
    pub line_index: usize,
}

impl LineIter {
    pub open spec fn wf(self) -> bool {
        self.lines.len() >= 1 && self.line_index < self.lines.len()
    }

    pub fn new(lines: Vec<&'static str>) -> (r: LineIter)
        requires
            lines.len() >= 1,
        ensures
            r.wf(),
            r.lines == lines,
            r.line_index == 0,
    {
        LineIter { lines, line_index: 0 }
    }

    pub fn next(&mut self) -> (s: &'static str)
        requires
            old(self).wf(),
        ensures
            final(self).wf(),
            s == old(self).lines[old(self).line_index as int],
            final(self).lines == old(self).lines,
            final(self).line_index == (old(self).line_index + 1) as int % old(self).lines.len() as int,
    {
        let s = self.lines[self.line_index];
        self.line_index = (self.line_index + 1) % self.lines.len();
        s
    }
}

/// The per-transition dialogue pools.
pub struct Lines {
    pub see: LineIter,
    pub see_disguised: LineIter,
    pub hear: LineIter,
    pub hear_guard: LineIter,
    pub chase: LineIter,
    pub investigate: LineIter,
    pub end_chase: LineIter,
    pub end_investigate: LineIter,
    pub done_looking: LineIter,
    pub done_seeing_disguised: LineIter,
    pub done_listening: LineIter,
    pub damage: LineIter,
}

impl Lines {
    pub open spec fn wf(self) -> bool {
        &&& self.see.wf()
        &&& self.see_disguised.wf()
        &&& self.hear.wf()
        &&& self.hear_guard.wf()
        &&& self.chase.wf()
        &&& self.investigate.wf()
        &&& self.end_chase.wf()
        &&& self.end_investigate.wf()
        &&& self.done_looking.wf()
        &&& self.done_seeing_disguised.wf()
        &&& self.done_listening.wf()
        &&& self.damage.wf()
    }
}

pub fn new_lines() -> (r: Lines)
    ensures
        r.wf(),
        r.see.line_index == 0,
        r.see_disguised.line_index == 0,
        r.hear.line_index == 0,
        r.hear_guard.line_index == 0,
        r.chase.line_index == 0,
        r.investigate.line_index == 0,
        r.end_chase.line_index == 0,
        r.end_investigate.line_index == 0,
        r.done_looking.line_index == 0,
        r.done_seeing_disguised.line_index == 0,
        r.done_listening.line_index == 0,
        r.damage.line_index == 0,
{
    Lines {
        see: LineIter::new(
            vec![
                "Who goes there?",
                "Huh?",
                "What?",
                "Wait...",
                "Who's that?",
                "Hey...",
                "Hmm...",
                "What moved?",
                "Did that shadow move?",
                "I see something...",
                "Hello?",
            ],
        ),
        see_disguised: LineIter::new(
            vec![
                "Who are you?",
                "You don't look familiar!",
                "Do I know you?",
                "Wait...",
                "Hey...",
                "Let me see your face...",
                "Do you belong here?",
                "You are...?",
                "Are you new here?",
            ],
        ),
        hear: LineIter::new(
            vec![
                "Huh?",
                "What?",
                "Hark!",
                "A noise...",
                "I heard something.",
                "Hmm...",
                "Who goes there?",
                "What's that noise?",
                "I hear something...",
                "Hello?",
            ],
        ),
        hear_guard: LineIter::new(
            vec!["Where?", "I'm coming!", "Here I come!", "To arms!", "Where is he?"],
        ),
        chase: LineIter::new(
            vec![
                "Halt!",
                "Hey!",
                "Aha!",
                "I see you!",
                "I'm coming!",
                "I'll get you!",
                "Just you wait...",
                "You won't get away!",
                "Oh no you don't...",
                "Get him!",
                "After him!",
                "Thief!",
            ],
        ),
        investigate: LineIter::new(
            vec![
                "That noise again...",
                "I heard it again!",
                "Someone's there!",
                "Who could that be?",
                "There it is again!",
                "What was that?",
                "Better check it out...",
                "What keeps making those noises?",
                "That better be rats!",
                "Again?",
            ],
        ),
        end_chase: LineIter::new(
            vec![
                "(huff, huff)",
                "Where did he go?",
                "Lost him!",
                "Gone!",
                "Come back!",
                "Argh!",
                "He's not coming back.",
                "Blast!",
                "Next time!",
            ],
        ),
        end_investigate: LineIter::new(
            vec![
                "Guess it was nothing.",
                "Wonder what it was?",
                "Better get back.",
                "It's quiet now.",
                "This is where I heard it...",
                "Nothing, now.",
            ],
        ),
        done_looking: LineIter::new(
            vec![
                "Must have been rats.",
                "Too much coffee!",
                "I've got the jitters.",
                "Probably nothing.",
                "I thought I saw something.",
                "Oh well.",
                "Nothing.",
                "Can't see it now.",
                "I've been up too long.",
                "Seeing things, I guess.",
                "Hope it wasn't anything.",
                "Did I imagine that?",
            ],
        ),
        done_seeing_disguised: LineIter::new(
            vec![
                "Who was that?",
                "Huh...",
                "I wonder who that was?",
                "Oh well.",
                "I'm seeing things.",
                "I've been up too long.",
                "Seeing things, I guess.",
                "Probably new here.",
                "Better get back to it.",
                "Did I imagine that?",
                "Should I tell the boss?",
            ],
        ),
        done_listening: LineIter::new(
            vec![
                "Must have been rats.",
                "Too much coffee!",
                "I've got the jitters.",
                "Probably nothing.",
                "I thought I heard something.",
                "Oh well.",
                "Nothing.",
                "Can't hear it now.",
                "I've been up too long.",
                "Hearing things, I guess.",
                "Hope it wasn't anything.",
                "Did I imagine that?",
            ],
        ),
        damage: LineIter::new(vec!["Oof!", "Krak!", "Pow!", "Urk!", "Smack!", "Bif!"]),
    }
}

} // verus!
