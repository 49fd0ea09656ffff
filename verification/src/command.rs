//! What a frame asks the game to do, and what it read from the game.
use vstd::prelude::*;

use crate::measure::Measure;

verus! {

/// The battle object a command is aimed at.
#[derive(Clone, Copy, Debug, PartialEq, Eq, Structural)]
pub enum Object {
    /// The fighter whose frame is running.
    Fighter,
    /// The item (the boss) with this battle-object id.
    Item(u32),
}

/// A horizontal or vertical direction.
#[derive(Clone, Copy, Debug, PartialEq, Eq, Structural)]
pub enum Axis {
    X,
    Y,
}

/// One coordinate of a position that a command writes.
#[derive(Clone, Copy, Debug, PartialEq, Eq, Structural)]
pub enum Coord {
    /// Exactly this value.
    At(Measure),
    /// The single-precision sum of the two values, first plus second.
    Raised(Measure, Measure),
}

/// A position in the stage, one coordinate per axis.
#[derive(Clone, Copy, Debug, PartialEq, Eq, Structural)]
pub struct Place {
    pub x: Coord,
    pub y: Coord,
    pub z: Coord,
}

/// One request to the game, carried out in the order given.
#[derive(Clone, Copy, Debug, PartialEq, Eq, Structural)]
pub enum Command {
    /// Request a change of status of the object, clearing the object's
    /// buffered requests or not.  The game carries out such a request after
    /// the hook has returned, so within a phase the status read before it
    /// stays the one the phase decides on.
    ChangeStatus { object: Object, status: i32, clear_buffer: bool },
    /// Clear the attack that the boss's AI queued.
    ClearAttackKind { item: u32 },
    /// Restart the boss's "wait" motion.
    WaitMotion { item: u32 },
    /// Scale the fighter's model.
    SetScale { scale: Measure },
    /// Set the speed at which the boss's motion plays.
    SetMotionRate { item: u32, rate: Measure },
    /// Set the fixed speed of the boss's animation script.
    SetFixRate { item: u32, rate: Measure },
    /// Turn the boss about the vertical axis, in degrees.
    SetRotationY { item: u32, degrees: Measure },
    /// Move the object to a place.
    SetPos { object: Object, place: Place },
    /// Move the boss along one axis by the stick's tilt times `gain`,
    /// and once more times the tilt when `squared` holds.
    Nudge { item: u32, axis: Axis, stick: Measure, gain: Measure, squared: bool },
    /// Make the boss ignore damage.
    LockDamage { item: u32 },
    /// Make the whole fighter intangible.
    Intangible,
    /// Make the whole fighter intangible through the fighter's script agent.
    ScriptIntangible,
    /// Add damage to the fighter.
    AddDamage { amount: Measure },
    /// End the hit-stop of the object.
    EndStop { object: Object },
    /// Multiply the power of the boss's attacks.
    PowerMul { item: u32, factor: Measure },
    /// Throw away the item the fighter holds.
    ThrowHeld,
}

/// The pad flags for the command inputs a boss reacts to: masks on the
/// first category of command flags.
#[derive(Clone, Copy, Debug, PartialEq, Eq, Structural)]
pub struct PadFlags {
    pub special_lw: i32,
    pub special_hi: i32,
    pub special_s: i32,
    pub attack_lw3: i32,
    pub attack_hi3: i32,
    pub attack_s3: i32,
}

/// What the player holds on the pad in this frame.
#[derive(Clone, Copy, Debug, PartialEq, Eq, Structural)]
pub struct Pad {
    pub special: bool,
    pub jump: bool,
    pub guard: bool,
    pub attack: bool,
    pub appeal_hi: bool,
    pub appeal_s_r: bool,
    pub appeal_lw: bool,
    /// The first category of command flags.
    pub cat1: i32,
    pub stick_x: Measure,
    pub stick_y: Measure,
}

/// Whether a command flag is raised in the first category.
pub open spec fn flag_raised(cat1: i32, mask: i32) -> bool {
    cat1 & mask != 0
}

/// Whether a command flag is raised in the first category.
pub fn flag_on(cat1: i32, mask: i32) -> (r: bool)
    ensures
        r == flag_raised(cat1, mask),
{
    cat1 & mask != 0
}

/// What the game says of the boss in this frame.
#[derive(Clone, Copy, Debug, PartialEq, Eq, Structural)]
pub struct BossSample {
    pub status: i32,
    /// The current frame of its motion.
    pub frame: Measure,
    /// The last frame of its motion.
    pub end_frame: Measure,
    pub x: Measure,
    pub y: Measure,
    pub z: Measure,
    /// The direction it faces: -1.0 left, 1.0 right.
    pub lr: Measure,
    /// The attack its AI queued, 0 for none.
    pub attack_kind: i32,
    /// Whether it is in the hit-stop of taking a hit.
    pub hit: bool,
    /// Whether it is in hit-stop at all.
    pub stopped: bool,
}

/// What the game says in this frame, read just before a phase runs.
#[derive(Clone, Copy, Debug, PartialEq, Eq, Structural)]
pub struct Sample {
    /// Whether the match has started ("ready, go" has passed).
    pub ready_go: bool,
    /// Whether the player of the current entry is a computer.
    pub cpu: bool,
    /// Whether the match is played with hit points.
    pub hp_mode: bool,
    /// Whether the results screen is showing.
    pub result_mode: bool,
    /// The stocks left to the current entry.
    pub stock: u64,
    pub fighter_status: i32,
    /// The current frame of the fighter's motion.
    pub fighter_frame: Measure,
    /// The scale of the fighter's model.
    pub scale: Measure,
    /// The fighter's damage (its hit points in a match with hit points).
    pub damage: Measure,
    /// Whether the fighter is in hit-stop.
    pub fighter_stopped: bool,
    pub pad: Pad,
    pub boss: BossSample,
}

/// A place whose three coordinates are given exactly.
pub open spec fn place_at(x: Measure, y: Measure, z: Measure) -> Place {
    Place { x: Coord::At(x), y: Coord::At(y), z: Coord::At(z) }
}

/// The commands when `c` holds, none otherwise.
pub open spec fn only_if(c: bool, cmds: Seq<Command>) -> Seq<Command> {
    if c {
        cmds
    } else {
        Seq::empty()
    }
}

/// An exact place.
pub fn exact(x: Measure, y: Measure, z: Measure) -> (p: Place)
    ensures
        p == place_at(x, y, z),
{
    Place { x: Coord::At(x), y: Coord::At(y), z: Coord::At(z) }
}

/// An attack started by the pad.
pub open spec fn order(boss: u32, pressed: bool, status: i32) -> Seq<Command> {
    only_if(pressed, seq![Command::ChangeStatus { object: Object::Item(boss), status, clear_buffer: true }])
}

/// Appends the attack when its input is pressed, and notes the press.
pub fn push_order(out: &mut Vec<Command>, boss: u32, pressed: bool, status: i32, any: &mut bool)
    ensures
        final(out)@ == old(out)@ + order(boss, pressed, status),
        *final(any) == (*old(any) || pressed),
{
    if pressed {
        *any = true;
        out.push(Command::ChangeStatus { object: Object::Item(boss), status, clear_buffer: true });
    }
    assert(final(out)@ =~= old(out)@ + order(boss, pressed, status));
}

/// The pad's inputs by position: 0 to 3 the special, jump, guard and attack
/// buttons; 4 to 6 the up, side and down taunts; 7 to 9 the down, up and side
/// special commands; 10 to 12 the down, up and side tilt attacks.
pub open spec fn pad_input(p: Pad, f: PadFlags, i: int) -> bool {
    if i == 0 {
        p.special
    } else if i == 1 {
        p.jump
    } else if i == 2 {
        p.guard
    } else if i == 3 {
        p.attack
    } else if i == 4 {
        p.appeal_hi
    } else if i == 5 {
        p.appeal_s_r
    } else if i == 6 {
        p.appeal_lw
    } else if i == 7 {
        flag_raised(p.cat1, f.special_lw)
    } else if i == 8 {
        flag_raised(p.cat1, f.special_hi)
    } else if i == 9 {
        flag_raised(p.cat1, f.special_s)
    } else if i == 10 {
        flag_raised(p.cat1, f.attack_lw3)
    } else if i == 11 {
        flag_raised(p.cat1, f.attack_hi3)
    } else if i == 12 {
        flag_raised(p.cat1, f.attack_s3)
    } else {
        false
    }
}

/// Whether input `i` is the only input held.
pub open spec fn only_input(p: Pad, f: PadFlags, i: int) -> bool {
    &&& 0 <= i < 13
    &&& forall|j: int| 0 <= j < 13 ==> #[trigger] pad_input(p, f, j) == (j == i)
}

/// Whether no input is held.
pub open spec fn no_input(p: Pad, f: PadFlags) -> bool {
    forall|j: int| 0 <= j < 13 ==> !#[trigger] pad_input(p, f, j)
}

/// The request that starts an attack in `status`, if there is one.
pub open spec fn start_attack(boss: u32, status: Option<i32>) -> Seq<Command> {
    match status {
        Some(st) => seq![Command::ChangeStatus { object: Object::Item(boss), status: st, clear_buffer: true }],
        None => Seq::empty(),
    }
}

/// The inputs, one by one, are known.
pub proof fn lemma_inputs_known(p: Pad, f: PadFlags, i: int)
    requires
        only_input(p, f, i),
    ensures
        p.special == (i == 0),
        p.jump == (i == 1),
        p.guard == (i == 2),
        p.attack == (i == 3),
        p.appeal_hi == (i == 4),
        p.appeal_s_r == (i == 5),
        p.appeal_lw == (i == 6),
        flag_raised(p.cat1, f.special_lw) == (i == 7),
        flag_raised(p.cat1, f.special_hi) == (i == 8),
        flag_raised(p.cat1, f.special_s) == (i == 9),
        flag_raised(p.cat1, f.attack_lw3) == (i == 10),
        flag_raised(p.cat1, f.attack_hi3) == (i == 11),
        flag_raised(p.cat1, f.attack_s3) == (i == 12),
{
    assert(pad_input(p, f, 0) == (i == 0));
    assert(pad_input(p, f, 1) == (i == 1));
    assert(pad_input(p, f, 2) == (i == 2));
    assert(pad_input(p, f, 3) == (i == 3));
    assert(pad_input(p, f, 4) == (i == 4));
    assert(pad_input(p, f, 5) == (i == 5));
    assert(pad_input(p, f, 6) == (i == 6));
    assert(pad_input(p, f, 7) == (i == 7));
    assert(pad_input(p, f, 8) == (i == 8));
    assert(pad_input(p, f, 9) == (i == 9));
    assert(pad_input(p, f, 10) == (i == 10));
    assert(pad_input(p, f, 11) == (i == 11));
    assert(pad_input(p, f, 12) == (i == 12));
}

/// With no input held, every input is known to be released.
pub proof fn lemma_no_input_known(p: Pad, f: PadFlags)
    requires
        no_input(p, f),
    ensures
        !p.special && !p.jump && !p.guard && !p.attack,
        !p.appeal_hi && !p.appeal_s_r && !p.appeal_lw,
        !flag_raised(p.cat1, f.special_lw) && !flag_raised(p.cat1, f.special_hi) && !flag_raised(
            p.cat1,
            f.special_s,
        ),
        !flag_raised(p.cat1, f.attack_lw3) && !flag_raised(p.cat1, f.attack_hi3) && !flag_raised(
            p.cat1,
            f.attack_s3,
        ),
{
    assert(!pad_input(p, f, 0) && !pad_input(p, f, 1) && !pad_input(p, f, 2) && !pad_input(p, f, 3));
    assert(!pad_input(p, f, 4) && !pad_input(p, f, 5) && !pad_input(p, f, 6));
    assert(!pad_input(p, f, 7) && !pad_input(p, f, 8) && !pad_input(p, f, 9));
    assert(!pad_input(p, f, 10) && !pad_input(p, f, 11) && !pad_input(p, f, 12));
}

} // verus!
