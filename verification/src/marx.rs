//! Marx as a playable boss.
//!
//! The mod runs on the frames of the fighter kind that hosts it.  When that
//! fighter is named "MARX", the fighter is shrunk and kept inside a Marx
//! boss item, and the player's pad steers the boss: the stick moves it, the
//! buttons and command inputs start its attacks.  A boss that is busy with an
//! attack does not take new orders until the attack has reached its recovery
//! frame; a boss whose fighter is out of hit points (or past 359% damage in a
//! stock match) dies and takes the fighter with it.
//!
//! A frame runs in phases, and the state names the phase that runs next
//! ([`MarxPhase`]): [`MarxState::begin`] starts every fighter's frame, and
//! the hook then runs the named phase until the frame is done.  Before a
//! phase that reads the game it reads a fresh [`Sample`] (of the boss that
//! [`MarxState::watched`] names); after each phase it carries out the
//! returned commands in order, and before [`MarxState::enter_boss`] and
//! [`MarxState::enter_result_boss`] it spawns the boss whose id they record.
use vstd::prelude::*;
use vstd::seq_lib::lemma_concat_associative;

use crate::command::{
    exact, flag_on, flag_raised, only_if, order, place_at, push_order, Axis, Command, Coord, Object,
    PadFlags, Place, Sample,
};
use crate::measure::{
    m, Measure, HIDDEN_SCALE, MINUS_ONE, MINUS_STICK_DEAD_ZONE, ONE, STICK_DEAD_ZONE,
};

verus! {

/// Bits of `f32` 150.0: the highest the boss may rise.
pub const CEILING: u32 = 0x4316_0000;
/// Bits of `f32` -100.0: the lowest the boss may sink.
pub const FLOOR: u32 = 0xC2C8_0000;
/// Bits of `f32` 100.0: the height the boss is put back to from a side wall.
pub const WALL_HEIGHT: u32 = 0x42C8_0000;
/// Bits of `f32` 200.0: the right wall.
pub const RIGHT_WALL: u32 = 0x4348_0000;
/// Bits of `f32` -200.0: the left wall.
pub const LEFT_WALL: u32 = 0xC348_0000;
/// Bits of `f32` 359.0: the damage that kills the boss in a stock match.
pub const DAMAGE_LIMIT: u32 = 0x43B3_8000;
/// Bits of `f32` 5.0: the speed of the entry motion.
pub const ENTRY_SPEED: u32 = 0x40A0_0000;
/// Bits of `f32` 90.0.
pub const FACE_RIGHT: u32 = 0x42B4_0000;
/// Bits of `f32` -90.0.
pub const FACE_LEFT: u32 = 0xC2B4_0000;
/// Bits of `f32` 4.1: the damage the fighter takes when the boss is hit.
pub const HIT_DAMAGE: u32 = 0x4083_3333;
/// Bits of `f32` 0.1: the damage the fighter takes when the boss is hit
/// during its eye attacks.
pub const GUARDED_DAMAGE: u32 = 0x3DCC_CCCD;
/// Bits of `f32` 1.5: the power of the boss's attacks.
pub const POWER: u32 = 0x3FC0_0000;
/// Bits of `f32` 1.75: the speed of a homing fly-out.
pub const FLY_OUT_GAIN: u32 = 0x3FE0_0000;
/// Bits of `f32` 0.75: the speed while the cutters fly.
pub const CUTTER_GAIN: u32 = 0x3F40_0000;
/// Bits of `f32` 2.2: the speed of a free boss.
pub const FREE_GAIN: u32 = 0x400C_CCCD;
/// Bits of `f32` 10.0.
pub const FRAME_10: u32 = 0x4120_0000;
/// Bits of `f32` 14.0.
pub const FRAME_14: u32 = 0x4160_0000;
/// Bits of `f32` 20.0.
pub const FRAME_20: u32 = 0x41A0_0000;
/// Bits of `f32` 22.0.
pub const FRAME_22: u32 = 0x41B0_0000;
/// Bits of `f32` 27.0.
pub const FRAME_27: u32 = 0x41D8_0000;
/// Bits of `f32` 34.0.
pub const FRAME_34: u32 = 0x4208_0000;
/// Bits of `f32` 74.0.
pub const FRAME_74: u32 = 0x4294_0000;

/// The game's numbers for the kinds and statuses the mod uses.  The game
/// assigns them when it loads, so the hook reads them and hands them in.
#[derive(Clone, Copy, Debug, PartialEq, Eq, Structural)]
pub struct MarxKinds {
    /// The fighter kind that hosts the mod.
    pub host_kind: i32,
    pub fighter_standby: i32,
    pub fighter_dead: i32,
    pub item_for_boss_start: i32,
    pub item_entry: i32,
    pub item_wait: i32,
    pub item_dead: i32,
    pub item_standby: i32,
    pub item_warp: i32,
    pub follow_eye_start: i32,
    pub follow_eye_loop: i32,
    pub follow_eye_end: i32,
    pub facet_eye_laser_start: i32,
    pub facet_eye_laser: i32,
    pub facet_eye_laser_end: i32,
    pub move_straight: i32,
    pub move_teleport: i32,
    pub avoid_teleport: i32,
    pub plant_start: i32,
    pub plant_grows: i32,
    pub fly_out: i32,
    pub fly_out_homing: i32,
    pub thick_laser_start: i32,
    pub thick_laser_loop: i32,
    pub thick_laser_end: i32,
    pub black_hole_ready: i32,
    pub black_hole_end: i32,
    pub capillary_start: i32,
    pub capillary_end: i32,
    pub ice_bomb_start: i32,
    pub ice_bomb_loop: i32,
    pub ice_bomb_shoot: i32,
    pub four_cutter: i32,
    pub flags: PadFlags,
}

impl MarxKinds {
    /// Whether a fighter of this kind runs the mod.
    pub fn hosts(&self, kind: i32) -> (r: bool)
        ensures
            r == (kind == self.host_kind),
    {
        kind == self.host_kind
    }
}

/// The phases of a host's frame, in the order they run.
#[derive(Clone, Copy, Debug, PartialEq, Eq, Structural)]
pub enum MarxPhase {
    /// Record who plays the fighter.
    Identify,
    /// Pre-match: revive the boss, and ask for a new one if the fighter is
    /// not yet hidden.
    Prepare,
    /// Record the boss just spawned before the match.
    EnterBoss,
    /// The boss's AI, its place in the stage, and its hits.
    Run,
    /// Record the boss just spawned for the results screen.
    EnterResultBoss,
    /// The pad steers the boss.
    Steer,
    /// Nothing more in this frame.
    Done,
}

/// The order of the phases: each phase hands over to a later one.
pub open spec fn marx_rank(p: MarxPhase) -> int {
    match p {
        MarxPhase::Identify => 0,
        MarxPhase::Prepare => 1,
        MarxPhase::EnterBoss => 2,
        MarxPhase::Run => 3,
        MarxPhase::EnterResultBoss => 4,
        MarxPhase::Steer => 5,
        MarxPhase::Done => 6,
    }
}

/// The mod's state, shared by all fighters' frames.
#[verifier::ext_equal]
pub struct MarxModel {
    /// Whether the boss takes orders from the pad.
    pub controllable: bool,
    /// The entry of the fighter whose frame ran last.
    pub entry_id: usize,
    /// The boss item of each entry.
    pub boss_ids: Seq<u32>,
    /// Whether the boss has died in this match.
    pub dead: bool,
    /// Whether the boss has been turned to face the stage in this match.
    pub jump_start: bool,
    /// Whether a boss has been spawned for the results screen.
    pub result_spawned: bool,
    /// The name hash of each player's tag.
    pub fighter_names: Seq<u64>,
    /// The phase of the current frame that runs next.
    pub phase: MarxPhase,
    /// The boss the current frame's middle phase worked on.
    pub frame_boss: u32,
}

impl MarxModel {
    /// One boss slot per entry, one name per player.
    pub open spec fn wf(self) -> bool {
        self.boss_ids.len() == 8 && self.fighter_names.len() == 4
    }

    /// The boss of the current entry.
    pub open spec fn boss(self) -> u32 {
        self.boss_ids[self.entry_id as int]
    }

    /// Whether the boss slot of the current entry exists.
    pub open spec fn ready(self) -> bool {
        self.wf() && self.entry_id < 8
    }
}

/// The mod's state, shared by all fighters' frames.
pub struct MarxState {
    pub controllable: bool,
    pub entry_id: usize,
    pub boss_ids: Vec<u32>,
    pub dead: bool,
    pub jump_start: bool,
    pub result_spawned: bool,
    pub fighter_names: Vec<u64>,
    pub phase: MarxPhase,
    pub frame_boss: u32,
}

impl View for MarxState {
    type V = MarxModel;

    open spec fn view(&self) -> MarxModel {
        MarxModel {
            controllable: self.controllable,
            entry_id: self.entry_id,
            boss_ids: self.boss_ids@,
            dead: self.dead,
            jump_start: self.jump_start,
            result_spawned: self.result_spawned,
            fighter_names: self.fighter_names@,
            phase: self.phase,
            frame_boss: self.frame_boss,
        }
    }
}

// ---------------------------------------------------------------------------
// Specification of a frame.

/// Move both the fighter and the boss to a place.
pub open spec fn move_both(boss: u32, p: Place) -> Seq<Command> {
    seq![
        Command::SetPos { object: Object::Fighter, place: p },
        Command::SetPos { object: Object::Item(boss), place: p },
    ]
}

/// Stick steering along one axis: the stick's tilt is added once when it is
/// at most the dead zone and once when it is at least minus the dead zone,
/// so a centred stick adds its tilt twice.
pub open spec fn nudges(boss: u32, axis: Axis, stick: Measure, gain: Measure) -> Seq<Command> {
    let n = Command::Nudge { item: boss, axis, stick, gain, squared: false };
    only_if(stick.at_most(m(STICK_DEAD_ZONE)), seq![n]) + only_if(
        stick.at_least(m(MINUS_STICK_DEAD_ZONE)),
        seq![n],
    )
}

/// Pre-match: the boss is revived and steerable again, not yet turned; a
/// fighter that is not yet shrunk asks for a new boss, and with it a new
/// results-screen boss.  Whether a boss is to be spawned is the second part.
pub open spec fn prepare_spec(st: MarxModel, s: Sample) -> (MarxModel, bool) {
    if !s.ready_go {
        let spawn = !s.scale.equals(m(HIDDEN_SCALE));
        (
            MarxModel {
                dead: false,
                controllable: true,
                jump_start: false,
                result_spawned: if spawn {
                    false
                } else {
                    st.result_spawned
                },
                ..st
            },
            spawn,
        )
    } else {
        (st, false)
    }
}

/// Once the match runs, a steerable boss restarts its wait motion and starts
/// the attack its AI queued, keeping the boss's buffered requests, and the
/// queued attack is then cleared.
pub open spec fn queued_attack(st: MarxModel, s: Sample) -> Seq<Command> {
    let boss = st.boss();
    only_if(
        s.ready_go && st.controllable,
        seq![Command::WaitMotion { item: boss }] + only_if(
            s.boss.attack_kind != 0,
            seq![
                Command::ChangeStatus { object: Object::Item(boss), status: s.boss.attack_kind, clear_buffer: false },
                Command::ClearAttackKind { item: boss },
            ],
        ),
    )
}

/// While the fighter hides in the boss, the boss's entry motion plays at
/// five times its speed.
pub open spec fn fast_entry(st: MarxModel, s: Sample, t: MarxKinds) -> Seq<Command> {
    let boss = st.boss();
    only_if(
        s.scale.equals(m(HIDDEN_SCALE)) && s.boss.status == t.item_entry,
        seq![
            Command::SetMotionRate { item: boss, rate: m(ENTRY_SPEED) },
            Command::SetFixRate { item: boss, rate: m(ENTRY_SPEED) },
        ],
    )
}

/// Once the match runs, a steerable boss that is not waiting is sent to wait;
/// for a computer player only from its entry, and a computer's boss stops
/// being steerable.
pub open spec fn settle_spawn(st: MarxModel, s: Sample, t: MarxKinds) -> (MarxModel, Seq<Command>) {
    let boss = st.boss();
    let to_wait = seq![Command::ChangeStatus { object: Object::Item(boss), status: t.item_wait, clear_buffer: true }];
    if s.ready_go && st.controllable && s.boss.status != t.item_wait {
        if s.cpu {
            (MarxModel { controllable: false, ..st }, only_if(s.boss.status == t.item_entry, to_wait))
        } else {
            (st, to_wait)
        }
    } else {
        (st, Seq::empty())
    }
}

/// On the first frame of the match the living boss is turned to face the
/// stage and is not steerable until its first recovery.
pub open spec fn jump_start(st: MarxModel, s: Sample) -> (MarxModel, Seq<Command>) {
    let boss = st.boss();
    if !st.dead && s.ready_go && !st.jump_start {
        (
            MarxModel { jump_start: true, controllable: false, ..st },
            only_if(
                s.boss.lr.equals(m(MINUS_ONE)),
                seq![Command::SetRotationY { item: boss, degrees: m(FACE_RIGHT) }],
            ) + only_if(
                s.boss.lr.equals(m(ONE)),
                seq![Command::SetRotationY { item: boss, degrees: m(FACE_LEFT) }],
            ),
        )
    } else {
        (st, Seq::empty())
    }
}

/// The moves that keep a boss inside the stage, from its position (x, y, z):
/// between the floor (-100) and the ceiling (150), and between the left
/// (-200) and the right (200) wall.
///
/// Above the ceiling it is put on the ceiling, and then against a wall it
/// passes, at the wall height; below the floor likewise on the floor; past a
/// side wall it is put on that wall, and past the left wall a boss at the wall
/// height or above is held on that wall at the wall height.  Each test reads
/// the position the previous move left, so the tests that follow a move in the
/// same case and can no longer hold are left out.
pub open spec fn keep_inside(boss: u32, x: Measure, y: Measure, z: Measure) -> Seq<Command> {
    if y.at_least(m(CEILING)) {
        move_both(boss, place_at(x, m(CEILING), z)) + only_if(
            x.at_least(m(RIGHT_WALL)),
            move_both(boss, place_at(m(RIGHT_WALL), m(WALL_HEIGHT), z)),
        ) + only_if(x.at_most(m(LEFT_WALL)), move_both(boss, place_at(m(LEFT_WALL), m(WALL_HEIGHT), z)))
    } else if y.at_most(m(FLOOR)) {
        move_both(boss, place_at(x, m(FLOOR), z)) + only_if(
            x.at_least(m(RIGHT_WALL)),
            move_both(boss, place_at(m(RIGHT_WALL), m(FLOOR), z)),
        ) + only_if(x.at_most(m(LEFT_WALL)), move_both(boss, place_at(m(LEFT_WALL), m(FLOOR), z)))
    } else if x.at_least(m(RIGHT_WALL)) {
        move_both(boss, place_at(m(RIGHT_WALL), y, z))
    } else if x.at_most(m(LEFT_WALL)) {
        move_both(boss, place_at(m(LEFT_WALL), y, z)) + only_if(
            y.at_least(m(WALL_HEIGHT)),
            move_both(boss, place_at(m(LEFT_WALL), m(WALL_HEIGHT), z)),
        )
    } else {
        Seq::empty()
    }
}

/// While the match runs and the fighter hides in the living boss, the fighter
/// is kept on standby; once it stands by, the boss is kept inside the stage
/// and the fighter is put where the boss was.
pub open spec fn tether(st: MarxModel, s: Sample, t: MarxKinds) -> Seq<Command> {
    let b = s.boss;
    only_if(
        !st.dead && s.ready_go && s.scale.equals(m(HIDDEN_SCALE)),
        only_if(
            s.fighter_status != t.fighter_standby,
            seq![Command::ChangeStatus { object: Object::Fighter, status: t.fighter_standby, clear_buffer: true }],
        ) + only_if(
            s.fighter_status == t.fighter_standby,
            keep_inside(st.boss(), b.x, b.y, b.z) + seq![
                Command::SetPos { object: Object::Fighter, place: place_at(b.x, b.y, b.z) },
            ],
        ),
    )
}

/// The statuses in which a hit on the boss costs the fighter little: the
/// eye attacks.
pub open spec fn guarded(status: i32, t: MarxKinds) -> bool {
    status == t.follow_eye_start || status == t.facet_eye_laser_start || status
        == t.facet_eye_laser || status == t.facet_eye_laser_end || status == t.follow_eye_end
        || status == t.follow_eye_loop
}

/// Whether a hit kills the boss: the fighter is below one hit point in a
/// match with hit points, or at 359% damage in a stock match.
pub open spec fn lethal(s: Sample) -> bool {
    (s.hp_mode && s.damage.below(m(ONE))) || (!s.hp_mode && s.damage.at_least(m(DAMAGE_LIMIT)))
}

/// The boss ignores damage and the fighter is intangible; a hit on the boss
/// is passed on to the fighter as damage, and a lethal one kills the boss.
pub open spec fn take_hit(st: MarxModel, s: Sample, t: MarxKinds) -> (MarxModel, Seq<Command>) {
    let boss = st.boss();
    let shield = seq![Command::LockDamage { item: boss }, Command::Intangible];
    if s.boss.hit {
        let dies = lethal(s) && !st.dead;
        let after = if dies {
            MarxModel { controllable: false, dead: true, ..st }
        } else {
            st
        };
        let damage = if !guarded(s.boss.status, t) {
            seq![Command::AddDamage { amount: m(HIT_DAMAGE) }] + only_if(
                s.fighter_stopped,
                seq![Command::EndStop { object: Object::Fighter }],
            ) + only_if(s.boss.stopped, seq![Command::EndStop { object: Object::Item(boss) }])
        } else {
            seq![Command::AddDamage { amount: m(GUARDED_DAMAGE) }]
        };
        (
            after,
            shield + only_if(
                dies,
                seq![Command::ChangeStatus { object: Object::Item(boss), status: t.item_dead, clear_buffer: true }],
            ) + damage,
        )
    } else {
        (st, shield)
    }
}

/// A dead boss stands by at the end of its motion, and a fighter with stocks
/// left dies once its boss stands by.
pub open spec fn last_rites(st: MarxModel, s: Sample, t: MarxKinds) -> Seq<Command> {
    let boss = st.boss();
    only_if(
        st.dead && s.ready_go && s.boss.frame.at_least(s.boss.end_frame),
        seq![Command::ChangeStatus { object: Object::Item(boss), status: t.item_standby, clear_buffer: true }],
    ) + only_if(
        st.dead && s.ready_go && s.stock != 0 && s.boss.status == t.item_standby,
        seq![Command::ChangeStatus { object: Object::Fighter, status: t.fighter_dead, clear_buffer: true }],
    )
}

/// The middle phase of a frame: the new state, its commands, and whether a
/// boss is to be spawned for the results screen.
pub open spec fn run_spec(st: MarxModel, s: Sample, t: MarxKinds) -> (MarxModel, Seq<Command>, bool) {
    let c1 = queued_attack(st, s);
    let c2 = fast_entry(st, s, t);
    let (st3, c3) = settle_spawn(st, s, t);
    let (st4, c4) = jump_start(st3, s);
    let c5 = tether(st4, s, t);
    let (st6, c6) = take_hit(st4, s, t);
    let c7 = last_rites(st6, s, t);
    let respawn = s.result_mode && !st6.result_spawned;
    let st8 = if respawn {
        MarxModel { result_spawned: true, ..st6 }
    } else {
        st6
    };
    (st8, c1 + c2 + c3 + c4 + c5 + c6 + c7, respawn)
}

/// In `status` the boss is steerable.
pub open spec fn free_in(c: bool, st: i32, status: i32) -> bool {
    if st == status {
        true
    } else {
        c
    }
}

/// An attack with a recovery: in `status` the boss is not steerable until
/// its motion is at `frame`.
pub open spec fn locked_until(c: bool, st: i32, f: Measure, status: i32, frame: Measure) -> bool {
    if st == status {
        f.equals(frame)
    } else {
        c
    }
}

/// The end of an attack: in `status` the boss becomes steerable when its
/// motion is at `frame`.
pub open spec fn free_at(c: bool, st: i32, f: Measure, status: i32, frame: Measure) -> bool {
    if st == status && f.equals(frame) {
        true
    } else {
        c
    }
}

/// Whether the boss is steerable after the recoveries of its status, the
/// statuses tested in turn.
pub open spec fn recovered(c: bool, s: Sample, t: MarxKinds) -> bool {
    let st = s.boss.status;
    let f = s.boss.frame;
    let c1 = free_in(c, st, t.item_wait);
    let c2 = free_in(c1, st, t.move_straight);
    let c3 = free_in(c2, st, t.item_standby);
    let c4 = locked_until(c3, st, f, t.move_teleport, m(FRAME_22));
    let c5 = locked_until(c4, st, f, t.plant_grows, m(FRAME_20));
    let c6 = locked_until(c5, st, f, t.item_warp, m(FRAME_22));
    let c7 = locked_until(c6, st, f, t.avoid_teleport, m(FRAME_22));
    let c8 = free_at(c7, st, f, t.facet_eye_laser_end, m(FRAME_27));
    let c9 = free_at(c8, st, f, t.fly_out, m(FRAME_27));
    let c10 = free_at(c9, st, f, t.thick_laser_end, m(FRAME_74));
    let c11 = free_at(c10, st, f, t.black_hole_end, m(FRAME_14));
    let c12 = free_at(c11, st, f, t.capillary_end, m(FRAME_10));
    let c13 = free_at(c12, st, f, t.follow_eye_end, m(FRAME_10));
    let c14 = free_at(c13, st, f, t.ice_bomb_shoot, m(FRAME_22));
    free_at(c14, st, f, t.four_cutter, m(FRAME_34))
}

/// Steering along both axes.
pub open spec fn nudges_xy(boss: u32, s: Sample, gain: Measure) -> Seq<Command> {
    nudges(boss, Axis::X, s.pad.stick_x, gain) + nudges(boss, Axis::Y, s.pad.stick_y, gain)
}

/// What the boss does within its status: a boss standing by is sent to
/// wait; a homing fly-out is steered sideways and ends on the special
/// button; the cutters, the ice bombs and the thick laser are steered on
/// both axes.
pub open spec fn status_commands(boss: u32, s: Sample, t: MarxKinds) -> Seq<Command> {
    let st = s.boss.status;
    only_if(
        st == t.item_standby,
        seq![Command::ChangeStatus { object: Object::Item(boss), status: t.item_wait, clear_buffer: true }],
    ) + only_if(
        st == t.fly_out_homing,
        nudges(boss, Axis::X, s.pad.stick_x, m(FLY_OUT_GAIN)) + only_if(
            s.pad.special,
            seq![Command::ChangeStatus { object: Object::Item(boss), status: t.fly_out, clear_buffer: true }],
        ),
    ) + only_if(st == t.four_cutter, nudges_xy(boss, s, m(CUTTER_GAIN))) + only_if(
        st == t.ice_bomb_loop,
        nudges_xy(boss, s, m(ONE)),
    ) + only_if(st == t.thick_laser_loop, nudges_xy(boss, s, m(ONE)))
}

/// The attacks the buttons start, in the order they are tested: special
/// plants, jump throws the cutters, guard teleports, attack drops ice bombs.
pub open spec fn button_orders(boss: u32, s: Sample, t: MarxKinds) -> Seq<Command> {
    let p = s.pad;
    order(boss, p.special, t.plant_start) + order(boss, p.jump, t.four_cutter) + order(
        boss,
        p.guard,
        t.move_teleport,
    ) + order(boss, p.attack, t.ice_bomb_start)
}

/// The attacks the command inputs start, in the order they are tested: the
/// capillary, the thick laser, the facet eye laser, the black hole, the
/// following eye and the homing fly-out.
pub open spec fn flag_orders(boss: u32, s: Sample, t: MarxKinds) -> Seq<Command> {
    let c = s.pad.cat1;
    let f = t.flags;
    order(boss, flag_raised(c, f.special_lw), t.capillary_start) + order(
        boss,
        flag_raised(c, f.special_hi),
        t.thick_laser_start,
    ) + order(boss, flag_raised(c, f.special_s), t.facet_eye_laser_start) + order(
        boss,
        flag_raised(c, f.attack_lw3),
        t.black_hole_ready,
    ) + order(boss, flag_raised(c, f.attack_hi3), t.follow_eye_start) + order(
        boss,
        flag_raised(c, f.attack_s3),
        t.fly_out_homing,
    )
}

/// The attacks the pad starts: the buttons' first, then the command inputs'.
pub open spec fn orders(boss: u32, s: Sample, t: MarxKinds) -> Seq<Command> {
    button_orders(boss, s, t) + flag_orders(boss, s, t)
}

/// Whether a button asks for an attack.
pub open spec fn any_button_order(s: Sample) -> bool {
    s.pad.special || s.pad.jump || s.pad.guard || s.pad.attack
}

/// Whether a command input asks for an attack.
pub open spec fn any_flag_order(s: Sample, t: MarxKinds) -> bool {
    let c = s.pad.cat1;
    let f = t.flags;
    flag_raised(c, f.special_lw) || flag_raised(c, f.special_hi) || flag_raised(c, f.special_s)
        || flag_raised(c, f.attack_lw3) || flag_raised(c, f.attack_hi3) || flag_raised(
        c,
        f.attack_s3,
    )
}

/// Whether the pad asks for any attack.
pub open spec fn any_order(s: Sample, t: MarxKinds) -> bool {
    any_button_order(s) || any_flag_order(s, t)
}

/// The last phase of a frame, on the boss the middle phase worked on: the
/// boss hits harder, and for a human player its status decides whether it is
/// steerable; a steerable living boss follows the stick and starts the
/// attacks the pad asks for, and is not steerable after starting one.
pub open spec fn steer_spec(st: MarxModel, boss: u32, s: Sample, t: MarxKinds) -> (MarxModel, Seq<Command>) {
    let head = seq![Command::PowerMul { item: boss, factor: m(POWER) }];
    if s.cpu {
        (st, head)
    } else {
        let c = recovered(st.controllable, s, t);
        let within = status_commands(boss, s, t);
        if c && !st.dead {
            (
                MarxModel { controllable: !any_order(s, t), ..st },
                head + within + nudges_xy(boss, s, m(FREE_GAIN)) + orders(boss, s, t),
            )
        } else {
            (MarxModel { controllable: c, ..st }, head + within)
        }
    }
}

impl MarxState {
    /// The state before the first frame: the boss steerable, nothing spawned.
    pub fn new() -> (st: MarxState)
        ensures
            st@.wf(),
            st@.controllable,
            st@.entry_id == 0,
            st@.boss_ids == Seq::new(8, |i: int| 0u32),
            !st@.dead,
            !st@.jump_start,
            !st@.result_spawned,
            st@.fighter_names == Seq::new(4, |i: int| 0u64),
            st@.phase == MarxPhase::Done,
            st@.frame_boss == 0,
    {
        let st = MarxState {
            controllable: true,
            entry_id: 0,
            boss_ids: vec![0u32, 0u32, 0u32, 0u32, 0u32, 0u32, 0u32, 0u32],
            dead: false,
            jump_start: false,
            result_spawned: false,
            fighter_names: vec![0u64, 0u64, 0u64, 0u64],
            phase: MarxPhase::Done,
            frame_boss: 0,
        };
        assert(st@.boss_ids =~= Seq::new(8, |i: int| 0u32));
        assert(st@.fighter_names =~= Seq::new(4, |i: int| 0u64));
        st
    }

    /// The boss of the current entry.
    pub fn boss(&self) -> (b: u32)
        requires
            self@.ready(),
        ensures
            b == self@.boss(),
    {
        self.boss_ids[self.entry_id]
    }

    /// The current entry as the game's entry number.
    pub fn entry_number(&self) -> (n: i32)
        ensures
            n == self.entry_id as i32,
    {
        self.entry_id as i32
    }

    /// Starts a fighter's frame: a fighter of the hosting kind is identified
    /// next, any other has nothing more to do.
    pub fn begin(&mut self, kind: i32, t: &MarxKinds)
        ensures
            final(self)@ == (MarxModel {
                phase: if kind == t.host_kind {
                    MarxPhase::Identify
                } else {
                    MarxPhase::Done
                },
                ..old(self)@
            }),
    {
        self.phase = if t.hosts(kind) {
            MarxPhase::Identify
        } else {
            MarxPhase::Done
        };
    }

    /// Records the entry of the hosting fighter and the name hash of the
    /// player's tag, and tells whether that name is Marx's: only Marx's frame
    /// goes on, to its pre-match phase.
    pub fn identify(&mut self, entry: i32, player: usize, name: u64, marx_name: u64) -> (is_marx:
        bool)
        requires
            old(self)@.wf(),
            player < 4,
        ensures
            final(self)@ == (MarxModel {
                entry_id: entry as usize,
                fighter_names: old(self)@.fighter_names.update(player as int, name),
                phase: if name == marx_name {
                    MarxPhase::Prepare
                } else {
                    MarxPhase::Done
                },
                ..old(self)@
            }),
            is_marx == (name == marx_name),
    {
        self.entry_id = entry as usize;
        self.fighter_names.set(player, name);
        let is_marx = self.fighter_names[player] == marx_name;
        self.phase = if is_marx {
            MarxPhase::Prepare
        } else {
            MarxPhase::Done
        };
        is_marx
    }

    /// The boss whose state the next phase reads: the middle phase's boss for
    /// the last phase, the current entry's boss otherwise.
    pub fn watched(&self) -> (b: u32)
        requires
            self@.ready(),
        ensures
            b == (if self@.phase == MarxPhase::Steer {
                self@.frame_boss
            } else {
                self@.boss()
            }),
    {
        if self.phase == MarxPhase::Steer {
            self.frame_boss
        } else {
            self.boss()
        }
    }

    /// The pre-match phase; true when the hook is to spawn the boss and hand
    /// its id to [`MarxState::enter_boss`], which then runs next.
    pub fn prepare(&mut self, s: &Sample) -> (spawn: bool)
        requires
            old(self)@.wf(),
        ensures
            spawn == prepare_spec(old(self)@, *s).1,
            final(self)@ == (MarxModel {
                phase: if spawn {
                    MarxPhase::EnterBoss
                } else {
                    MarxPhase::Run
                },
                ..prepare_spec(old(self)@, *s).0
            }),
    {
        let mut spawn = false;
        if !s.ready_go {
            self.dead = false;
            self.controllable = true;
            self.jump_start = false;
            if !s.scale.eq_value(Measure::from_bits(HIDDEN_SCALE)) {
                self.result_spawned = false;
                spawn = true;
            }
        }
        self.phase = if spawn {
            MarxPhase::EnterBoss
        } else {
            MarxPhase::Run
        };
        spawn
    }

    /// Records the boss the hook spawned before the match; the fighter is
    /// shrunk into it and the boss plays its entry.
    pub fn enter_boss(&mut self, item: u64, t: &MarxKinds) -> (cmds: Vec<Command>)
        requires
            old(self)@.ready(),
        ensures
            final(self)@ == (MarxModel {
                boss_ids: old(self)@.boss_ids.update(old(self)@.entry_id as int, item as u32),
                phase: MarxPhase::Run,
                ..old(self)@
            }),
            cmds@ == seq![
                Command::SetScale { scale: m(HIDDEN_SCALE) },
                Command::ChangeStatus { object: Object::Item(item as u32), status: t.item_for_boss_start, clear_buffer: true },
            ],
    {
        let boss = item as u32;
        self.boss_ids.set(self.entry_id, boss);
        self.phase = MarxPhase::Run;
        let mut cmds: Vec<Command> = Vec::new();
        cmds.push(Command::SetScale { scale: Measure::from_bits(HIDDEN_SCALE) });
        cmds.push(Command::ChangeStatus { object: Object::Item(boss), status: t.item_for_boss_start, clear_buffer: true });
        cmds
    }

    /// Records the boss the hook spawned for the results screen, which then
    /// plays its entry.
    pub fn enter_result_boss(&mut self, item: u64, t: &MarxKinds) -> (cmds: Vec<Command>)
        requires
            old(self)@.ready(),
        ensures
            final(self)@ == (MarxModel {
                boss_ids: old(self)@.boss_ids.update(old(self)@.entry_id as int, item as u32),
                phase: MarxPhase::Steer,
                ..old(self)@
            }),
            cmds@ == seq![
                Command::ChangeStatus { object: Object::Item(item as u32), status: t.item_for_boss_start, clear_buffer: true },
            ],
    {
        let boss = item as u32;
        self.boss_ids.set(self.entry_id, boss);
        self.phase = MarxPhase::Steer;
        let mut cmds: Vec<Command> = Vec::new();
        cmds.push(Command::ChangeStatus { object: Object::Item(boss), status: t.item_for_boss_start, clear_buffer: true });
        cmds
    }
}

/// Appends the moves of both the fighter and the boss to a place.
fn push_move_both(out: &mut Vec<Command>, boss: u32, p: Place)
    ensures
        final(out)@ == old(out)@ + move_both(boss, p),
{
    out.push(Command::SetPos { object: Object::Fighter, place: p });
    out.push(Command::SetPos { object: Object::Item(boss), place: p });
    assert(final(out)@ =~= old(out)@ + move_both(boss, p));
}

/// Appends the stick steering along one axis.
fn push_nudges(out: &mut Vec<Command>, boss: u32, axis: Axis, stick: Measure, gain: Measure)
    ensures
        final(out)@ == old(out)@ + nudges(boss, axis, stick, gain),
{
    let n = Command::Nudge { item: boss, axis, stick, gain, squared: false };
    if stick.le(Measure::from_bits(STICK_DEAD_ZONE)) {
        out.push(n);
    }
    if stick.ge(Measure::from_bits(MINUS_STICK_DEAD_ZONE)) {
        out.push(n);
    }
    assert(final(out)@ =~= old(out)@ + nudges(boss, axis, stick, gain));
}

/// Appends the moves that keep the boss inside the stage.
fn push_keep_inside(out: &mut Vec<Command>, boss: u32, x: Measure, y: Measure, z: Measure)
    ensures
        final(out)@ == old(out)@ + keep_inside(boss, x, y, z),
{
    let ceiling = Measure::from_bits(CEILING);
    let floor = Measure::from_bits(FLOOR);
    let right = Measure::from_bits(RIGHT_WALL);
    let left = Measure::from_bits(LEFT_WALL);
    let height = Measure::from_bits(WALL_HEIGHT);
    let ghost start = out@;
    if y.ge(ceiling) {
        push_move_both(out, boss, exact(x, ceiling, z));
        if x.ge(right) {
            push_move_both(out, boss, exact(right, height, z));
        }
        if x.le(left) {
            push_move_both(out, boss, exact(left, height, z));
        }
        assert(out@ =~= start + keep_inside(boss, x, y, z));
    } else if y.le(floor) {
        push_move_both(out, boss, exact(x, floor, z));
        if x.ge(right) {
            push_move_both(out, boss, exact(right, floor, z));
        }
        if x.le(left) {
            push_move_both(out, boss, exact(left, floor, z));
        }
        assert(out@ =~= start + keep_inside(boss, x, y, z));
    } else if x.ge(right) {
        push_move_both(out, boss, exact(right, y, z));
    } else if x.le(left) {
        push_move_both(out, boss, exact(left, y, z));
        if y.ge(height) {
            push_move_both(out, boss, exact(left, height, z));
        }
        assert(out@ =~= start + keep_inside(boss, x, y, z));
    } else {
        assert(out@ =~= start + keep_inside(boss, x, y, z));
    }
}

impl MarxState {
    fn push_queued_attack(&self, s: &Sample, out: &mut Vec<Command>)
        requires
            self@.ready(),
        ensures
            final(out)@ == old(out)@ + queued_attack(self@, *s),
    {
        if s.ready_go && self.controllable {
            let boss = self.boss();
            out.push(Command::WaitMotion { item: boss });
            if s.boss.attack_kind != 0 {
                out.push(Command::ChangeStatus { object: Object::Item(boss), status: s.boss.attack_kind, clear_buffer: false });
                out.push(Command::ClearAttackKind { item: boss });
            }
        }
        assert(final(out)@ =~= old(out)@ + queued_attack(self@, *s));
    }

    fn push_fast_entry(&self, s: &Sample, t: &MarxKinds, out: &mut Vec<Command>)
        requires
            self@.ready(),
        ensures
            final(out)@ == old(out)@ + fast_entry(self@, *s, *t),
    {
        if s.scale.eq_value(Measure::from_bits(HIDDEN_SCALE)) && s.boss.status == t.item_entry {
            let boss = self.boss();
            out.push(Command::SetMotionRate { item: boss, rate: Measure::from_bits(ENTRY_SPEED) });
            out.push(Command::SetFixRate { item: boss, rate: Measure::from_bits(ENTRY_SPEED) });
        }
        assert(final(out)@ =~= old(out)@ + fast_entry(self@, *s, *t));
    }

    fn settle_spawn_step(&mut self, s: &Sample, t: &MarxKinds, out: &mut Vec<Command>)
        requires
            old(self)@.ready(),
        ensures
            final(self)@ == settle_spawn(old(self)@, *s, *t).0,
            final(out)@ == old(out)@ + settle_spawn(old(self)@, *s, *t).1,
    {
        if s.ready_go && self.controllable && s.boss.status != t.item_wait {
            let boss = self.boss();
            if s.cpu {
                self.controllable = false;
                if s.boss.status == t.item_entry {
                    out.push(Command::ChangeStatus { object: Object::Item(boss), status: t.item_wait, clear_buffer: true });
                }
            } else {
                out.push(Command::ChangeStatus { object: Object::Item(boss), status: t.item_wait, clear_buffer: true });
            }
        }
        assert(final(out)@ =~= old(out)@ + settle_spawn(old(self)@, *s, *t).1);
    }

    fn jump_start_step(&mut self, s: &Sample, out: &mut Vec<Command>)
        requires
            old(self)@.ready(),
        ensures
            final(self)@ == jump_start(old(self)@, *s).0,
            final(out)@ == old(out)@ + jump_start(old(self)@, *s).1,
    {
        if !self.dead && s.ready_go && !self.jump_start {
            self.jump_start = true;
            self.controllable = false;
            let boss = self.boss();
            if s.boss.lr.eq_value(Measure::from_bits(MINUS_ONE)) {
                out.push(Command::SetRotationY { item: boss, degrees: Measure::from_bits(FACE_RIGHT) });
            }
            if s.boss.lr.eq_value(Measure::from_bits(ONE)) {
                out.push(Command::SetRotationY { item: boss, degrees: Measure::from_bits(FACE_LEFT) });
            }
        }
        assert(final(out)@ =~= old(out)@ + jump_start(old(self)@, *s).1);
    }

    fn push_tether(&self, s: &Sample, t: &MarxKinds, out: &mut Vec<Command>)
        requires
            self@.ready(),
        ensures
            final(out)@ == old(out)@ + tether(self@, *s, *t),
    {
        let ghost start = out@;
        if !self.dead && s.ready_go && s.scale.eq_value(Measure::from_bits(HIDDEN_SCALE)) {
            if s.fighter_status != t.fighter_standby {
                out.push(Command::ChangeStatus { object: Object::Fighter, status: t.fighter_standby, clear_buffer: true });
            }
            if s.fighter_status == t.fighter_standby {
                let b = s.boss;
                push_keep_inside(out, self.boss(), b.x, b.y, b.z);
                out.push(Command::SetPos { object: Object::Fighter, place: exact(b.x, b.y, b.z) });
            }
        }
        assert(final(out)@ =~= start + tether(self@, *s, *t));
    }

    fn take_hit_step(&mut self, s: &Sample, t: &MarxKinds, out: &mut Vec<Command>)
        requires
            old(self)@.ready(),
        ensures
            final(self)@ == take_hit(old(self)@, *s, *t).0,
            final(out)@ == old(out)@ + take_hit(old(self)@, *s, *t).1,
    {
        let boss = self.boss();
        out.push(Command::LockDamage { item: boss });
        out.push(Command::Intangible);
        if s.boss.hit {
            if s.hp_mode {
                if s.damage.lt(Measure::from_bits(ONE)) {
                    if !self.dead {
                        self.controllable = false;
                        out.push(Command::ChangeStatus { object: Object::Item(boss), status: t.item_dead, clear_buffer: true });
                        self.dead = true;
                    }
                }
            }
            if !s.hp_mode {
                if s.damage.ge(Measure::from_bits(DAMAGE_LIMIT)) {
                    if !self.dead {
                        self.controllable = false;
                        out.push(Command::ChangeStatus { object: Object::Item(boss), status: t.item_dead, clear_buffer: true });
                        self.dead = true;
                    }
                }
            }
            let st = s.boss.status;
            if st != t.follow_eye_start && st != t.facet_eye_laser_start && st != t.facet_eye_laser
                && st != t.facet_eye_laser_end && st != t.follow_eye_end && st != t.follow_eye_loop {
                out.push(Command::AddDamage { amount: Measure::from_bits(HIT_DAMAGE) });
                if s.fighter_stopped {
                    out.push(Command::EndStop { object: Object::Fighter });
                }
                if s.boss.stopped {
                    out.push(Command::EndStop { object: Object::Item(boss) });
                }
            } else {
                out.push(Command::AddDamage { amount: Measure::from_bits(GUARDED_DAMAGE) });
            }
        }
        assert(final(out)@ =~= old(out)@ + take_hit(old(self)@, *s, *t).1);
    }

    fn push_last_rites(&self, s: &Sample, t: &MarxKinds, out: &mut Vec<Command>)
        requires
            self@.ready(),
        ensures
            final(out)@ == old(out)@ + last_rites(self@, *s, *t),
    {
        let boss = self.boss();
        if self.dead && s.ready_go && s.boss.frame.ge(s.boss.end_frame) {
            out.push(Command::ChangeStatus { object: Object::Item(boss), status: t.item_standby, clear_buffer: true });
        }
        if self.dead && s.ready_go && s.stock != 0 && s.boss.status == t.item_standby {
            out.push(Command::ChangeStatus { object: Object::Fighter, status: t.fighter_dead, clear_buffer: true });
        }
        assert(final(out)@ =~= old(out)@ + last_rites(self@, *s, *t));
    }

    /// The middle phase: the boss follows its AI's queued attack while it is
    /// steerable, settles after its entry, faces the stage, is kept inside the
    /// stage with the fighter at its side, and passes its hits on to the
    /// fighter until it dies.  The second part of the result tells whether
    /// the hook is to spawn a boss for the results screen and hand its id to
    /// [`MarxState::enter_result_boss`], which then runs next.  The boss it
    /// works on is the one the last phase steers.
    pub fn run(&mut self, s: &Sample, t: &MarxKinds) -> (out: (Vec<Command>, bool))
        requires
            old(self)@.ready(),
        ensures
            final(self)@ == (MarxModel {
                frame_boss: old(self)@.boss(),
                phase: if out.1 {
                    MarxPhase::EnterResultBoss
                } else {
                    MarxPhase::Steer
                },
                ..run_spec(old(self)@, *s, *t).0
            }),
            out.0@ == run_spec(old(self)@, *s, *t).1,
            out.1 == run_spec(old(self)@, *s, *t).2,
    {
        let frame_boss = self.boss();
        let mut cmds: Vec<Command> = Vec::new();
        self.push_queued_attack(s, &mut cmds);
        self.push_fast_entry(s, t, &mut cmds);
        self.settle_spawn_step(s, t, &mut cmds);
        self.jump_start_step(s, &mut cmds);
        self.push_tether(s, t, &mut cmds);
        self.take_hit_step(s, t, &mut cmds);
        self.push_last_rites(s, t, &mut cmds);
        let respawn = s.result_mode && !self.result_spawned;
        if respawn {
            self.result_spawned = true;
        }
        self.frame_boss = frame_boss;
        self.phase = if respawn {
            MarxPhase::EnterResultBoss
        } else {
            MarxPhase::Steer
        };
        proof {
            assert(cmds@ =~= run_spec(old(self)@, *s, *t).1);
        }
        (cmds, respawn)
    }
}

fn recovered_exec(c: bool, s: &Sample, t: &MarxKinds) -> (r: bool)
    ensures
        r == recovered(c, *s, *t),
{
    let st = s.boss.status;
    let f = s.boss.frame;
    let mut c = c;
    if st == t.item_wait {
        c = true;
    }
    if st == t.move_straight {
        c = true;
    }
    if st == t.item_standby {
        c = true;
    }
    if st == t.move_teleport {
        c = f.eq_value(Measure::from_bits(FRAME_22));
    }
    if st == t.plant_grows {
        c = f.eq_value(Measure::from_bits(FRAME_20));
    }
    if st == t.item_warp {
        c = f.eq_value(Measure::from_bits(FRAME_22));
    }
    if st == t.avoid_teleport {
        c = f.eq_value(Measure::from_bits(FRAME_22));
    }
    if st == t.facet_eye_laser_end && f.eq_value(Measure::from_bits(FRAME_27)) {
        c = true;
    }
    if st == t.fly_out && f.eq_value(Measure::from_bits(FRAME_27)) {
        c = true;
    }
    if st == t.thick_laser_end && f.eq_value(Measure::from_bits(FRAME_74)) {
        c = true;
    }
    if st == t.black_hole_end && f.eq_value(Measure::from_bits(FRAME_14)) {
        c = true;
    }
    if st == t.capillary_end && f.eq_value(Measure::from_bits(FRAME_10)) {
        c = true;
    }
    if st == t.follow_eye_end && f.eq_value(Measure::from_bits(FRAME_10)) {
        c = true;
    }
    if st == t.ice_bomb_shoot && f.eq_value(Measure::from_bits(FRAME_22)) {
        c = true;
    }
    if st == t.four_cutter && f.eq_value(Measure::from_bits(FRAME_34)) {
        c = true;
    }
    c
}

fn push_nudges_xy(out: &mut Vec<Command>, boss: u32, s: &Sample, gain: Measure)
    ensures
        final(out)@ == old(out)@ + nudges_xy(boss, *s, gain),
{
    push_nudges(out, boss, Axis::X, s.pad.stick_x, gain);
    push_nudges(out, boss, Axis::Y, s.pad.stick_y, gain);
    assert(final(out)@ =~= old(out)@ + nudges_xy(boss, *s, gain));
}

fn push_status_commands(out: &mut Vec<Command>, boss: u32, s: &Sample, t: &MarxKinds)
    ensures
        final(out)@ == old(out)@ + status_commands(boss, *s, *t),
{
    let ghost start = out@;
    let st = s.boss.status;
    if st == t.item_standby {
        out.push(Command::ChangeStatus { object: Object::Item(boss), status: t.item_wait, clear_buffer: true });
    }
    let ghost a = out@;
    if st == t.fly_out_homing {
        push_nudges(out, boss, Axis::X, s.pad.stick_x, Measure::from_bits(FLY_OUT_GAIN));
        if s.pad.special {
            out.push(Command::ChangeStatus { object: Object::Item(boss), status: t.fly_out, clear_buffer: true });
        }
    }
    let ghost b = out@;
    if st == t.four_cutter {
        push_nudges_xy(out, boss, s, Measure::from_bits(CUTTER_GAIN));
    }
    let ghost c = out@;
    if st == t.ice_bomb_loop {
        push_nudges_xy(out, boss, s, Measure::from_bits(ONE));
    }
    let ghost d = out@;
    if st == t.thick_laser_loop {
        push_nudges_xy(out, boss, s, Measure::from_bits(ONE));
    }
    let ghost w1 = only_if(
        st == t.item_standby,
        seq![Command::ChangeStatus { object: Object::Item(boss), status: t.item_wait, clear_buffer: true }],
    );
    let ghost w2 = only_if(
        st == t.fly_out_homing,
        nudges(boss, Axis::X, s.pad.stick_x, m(FLY_OUT_GAIN)) + only_if(
            s.pad.special,
            seq![Command::ChangeStatus { object: Object::Item(boss), status: t.fly_out, clear_buffer: true }],
        ),
    );
    let ghost w3 = only_if(st == t.four_cutter, nudges_xy(boss, *s, m(CUTTER_GAIN)));
    let ghost w4 = only_if(st == t.ice_bomb_loop, nudges_xy(boss, *s, m(ONE)));
    let ghost w5 = only_if(st == t.thick_laser_loop, nudges_xy(boss, *s, m(ONE)));
    assert(a == start + w1);
    assert(b == a + w2) by {
        if st == t.fly_out_homing {
            assert(b =~= a + w2);
        } else {
            assert(b =~= a + w2);
        }
    }
    assert(c == b + w3);
    assert(d == c + w4);
    assert(final(out)@ == d + w5);
    proof {
        lemma_concat_associative(start, w1, w2);
        lemma_concat_associative(start, w1 + w2, w3);
        lemma_concat_associative(start, w1 + w2 + w3, w4);
        lemma_concat_associative(start, w1 + w2 + w3 + w4, w5);
    }
}

fn push_button_orders(out: &mut Vec<Command>, boss: u32, s: &Sample, t: &MarxKinds) -> (any: bool)
    ensures
        final(out)@ == old(out)@ + button_orders(boss, *s, *t),
        any == any_button_order(*s),
{
    let p = s.pad;
    let ghost start = out@;
    let mut any = false;
    push_order(out, boss, p.special, t.plant_start, &mut any);
    let ghost o1 = order(boss, p.special, t.plant_start);
    let ghost n2 = order(boss, p.jump, t.four_cutter);
    push_order(out, boss, p.jump, t.four_cutter, &mut any);
    proof { lemma_concat_associative(start, o1, n2); }
    let ghost o2 = o1 + n2;
    let ghost n3 = order(boss, p.guard, t.move_teleport);
    push_order(out, boss, p.guard, t.move_teleport, &mut any);
    proof { lemma_concat_associative(start, o2, n3); }
    let ghost o3 = o2 + n3;
    let ghost n4 = order(boss, p.attack, t.ice_bomb_start);
    push_order(out, boss, p.attack, t.ice_bomb_start, &mut any);
    proof { lemma_concat_associative(start, o3, n4); }
    any
}

fn push_flag_orders(out: &mut Vec<Command>, boss: u32, s: &Sample, t: &MarxKinds) -> (any: bool)
    ensures
        final(out)@ == old(out)@ + flag_orders(boss, *s, *t),
        any == any_flag_order(*s, *t),
{
    let c = s.pad.cat1;
    let f = t.flags;
    let ghost start = out@;
    let mut any = false;
    let lw = flag_on(c, f.special_lw);
    push_order(out, boss, lw, t.capillary_start, &mut any);
    let ghost o1 = order(boss, lw, t.capillary_start);
    let hi = flag_on(c, f.special_hi);
    let ghost n2 = order(boss, hi, t.thick_laser_start);
    push_order(out, boss, hi, t.thick_laser_start, &mut any);
    proof { lemma_concat_associative(start, o1, n2); }
    let ghost o2 = o1 + n2;
    let sd = flag_on(c, f.special_s);
    let ghost n3 = order(boss, sd, t.facet_eye_laser_start);
    push_order(out, boss, sd, t.facet_eye_laser_start, &mut any);
    proof { lemma_concat_associative(start, o2, n3); }
    let ghost o3 = o2 + n3;
    let lw3 = flag_on(c, f.attack_lw3);
    let ghost n4 = order(boss, lw3, t.black_hole_ready);
    push_order(out, boss, lw3, t.black_hole_ready, &mut any);
    proof { lemma_concat_associative(start, o3, n4); }
    let ghost o4 = o3 + n4;
    let hi3 = flag_on(c, f.attack_hi3);
    let ghost n5 = order(boss, hi3, t.follow_eye_start);
    push_order(out, boss, hi3, t.follow_eye_start, &mut any);
    proof { lemma_concat_associative(start, o4, n5); }
    let ghost o5 = o4 + n5;
    let s3 = flag_on(c, f.attack_s3);
    let ghost n6 = order(boss, s3, t.fly_out_homing);
    push_order(out, boss, s3, t.fly_out_homing, &mut any);
    proof { lemma_concat_associative(start, o5, n6); }
    any
}

fn push_orders(out: &mut Vec<Command>, boss: u32, s: &Sample, t: &MarxKinds) -> (any: bool)
    ensures
        final(out)@ == old(out)@ + orders(boss, *s, *t),
        any == any_order(*s, *t),
{
    let ghost start = out@;
    let buttons = push_button_orders(out, boss, s, t);
    let flags = push_flag_orders(out, boss, s, t);
    proof {
        lemma_concat_associative(start, button_orders(boss, *s, *t), flag_orders(boss, *s, *t));
    }
    buttons || flags
}

impl MarxState {
    /// The last phase, on the boss the middle phase worked on (its id before
    /// any results-screen boss was spawned), after which the frame is done:
    /// the boss hits harder; for a human
    /// player it recovers from its attacks, is steered within them, and when
    /// steerable follows the stick and starts the attacks the pad asks for.
    pub fn steer(&mut self, s: &Sample, t: &MarxKinds) -> (cmds: Vec<Command>)
        ensures
            final(self)@ == (MarxModel {
                phase: MarxPhase::Done,
                ..steer_spec(old(self)@, old(self)@.frame_boss, *s, *t).0
            }),
            cmds@ == steer_spec(old(self)@, old(self)@.frame_boss, *s, *t).1,
    {
        let boss = self.frame_boss;
        let mut cmds: Vec<Command> = Vec::new();
        cmds.push(Command::PowerMul { item: boss, factor: Measure::from_bits(POWER) });
        if !s.cpu {
            let c = recovered_exec(self.controllable, s, t);
            push_status_commands(&mut cmds, boss, s, t);
            self.controllable = c;
            if c && !self.dead {
                push_nudges_xy(&mut cmds, boss, s, Measure::from_bits(FREE_GAIN));
                let any = push_orders(&mut cmds, boss, s, t);
                if any {
                    self.controllable = false;
                }
            }
        }
        self.phase = MarxPhase::Done;
        proof {
            assert(cmds@ =~= steer_spec(old(self)@, boss, *s, *t).1);
        }
        cmds
    }
}

// ---------------------------------------------------------------------------
// Laws.

/// Whether a command writes a height that is neither above the ceiling nor
/// below the floor (a NaN height is let through).
pub open spec fn height_inside(c: Command) -> bool {
    match c {
        Command::SetPos { place, .. } => match place.y {
            Coord::At(y) => !y.is_nan() ==> (y.at_most(m(CEILING)) && y.at_least(m(FLOOR))),
            Coord::Raised(_, _) => false,
        },
        _ => true,
    }
}

/// Whether a place lies within the stage: between the walls and between the
/// floor and the ceiling (a NaN coordinate is let through).
pub open spec fn within_stage(p: Place) -> bool {
    &&& match p.x {
        Coord::At(x) => !x.is_nan() ==> (x.at_least(m(LEFT_WALL)) && x.at_most(m(RIGHT_WALL))),
        Coord::Raised(_, _) => false,
    }
    &&& match p.y {
        Coord::At(y) => !y.is_nan() ==> (y.at_least(m(FLOOR)) && y.at_most(m(CEILING))),
        Coord::Raised(_, _) => false,
    }
}

/// The boss is kept inside the stage: it is never put above the ceiling or
/// below the floor, the last place it is put lies between the walls as well,
/// and a boss strictly inside the stage is not moved at all.
pub proof fn lemma_kept_inside_the_stage(boss: u32, x: Measure, y: Measure, z: Measure)
    ensures
        forall|i: int|
            0 <= i < keep_inside(boss, x, y, z).len() ==> height_inside(
                #[trigger] keep_inside(boss, x, y, z)[i],
            ),
        keep_inside(boss, x, y, z).len() > 0 ==> (keep_inside(boss, x, y, z).last() matches Command::SetPos {
            object: Object::Item(b),
            place,
        } && b == boss && within_stage(place)),
        x.below(m(RIGHT_WALL)) && m(LEFT_WALL).below(x) && y.below(m(CEILING)) && m(FLOOR).below(y)
            ==> keep_inside(boss, x, y, z).len() == 0,
{
    let c = keep_inside(boss, x, y, z);
    assert forall|i: int| 0 <= i < c.len() implies height_inside(#[trigger] c[i]) by {
        if y.at_least(m(CEILING)) {
        } else if y.at_most(m(FLOOR)) {
        } else if x.at_least(m(RIGHT_WALL)) {
        } else if x.at_most(m(LEFT_WALL)) {
        }
    }
}

/// Once the boss has died it stays dead for the rest of the match: only the
/// pre-match phase revives it, and that phase changes nothing once the match
/// has started.
pub proof fn lemma_death_is_final(st: MarxModel, boss: u32, s: Sample, t: MarxKinds)
    ensures
        st.dead ==> run_spec(st, s, t).0.dead,
        steer_spec(st, boss, s, t).0.dead == st.dead,
        s.ready_go ==> prepare_spec(st, s) == (st, false),
{
}

/// A dead boss and a computer's boss take no orders from the pad: the last
/// phase then only raises the boss's power and, for a human player, acts
/// within the boss's current status.
pub proof fn lemma_no_orders_when_dead_or_cpu(st: MarxModel, boss: u32, s: Sample, t: MarxKinds)
    ensures
        s.cpu ==> steer_spec(st, boss, s, t).1 == seq![
            Command::PowerMul { item: boss, factor: m(POWER) },
        ],
        st.dead && !s.cpu ==> steer_spec(st, boss, s, t).1 == seq![
            Command::PowerMul { item: boss, factor: m(POWER) },
        ] + status_commands(boss, s, t),
{
}

/// Starting an attack from the pad leaves the boss unsteerable, so it takes
/// no further orders until the attack's recovery; and an attack asked for is
/// always started.
pub proof fn lemma_order_locks_the_boss(st: MarxModel, boss: u32, s: Sample, t: MarxKinds)
    requires
        !s.cpu,
        recovered(st.controllable, s, t),
        !st.dead,
        any_order(s, t),
    ensures
        !steer_spec(st, boss, s, t).0.controllable,
        steer_spec(st, boss, s, t).1 == seq![Command::PowerMul { item: boss, factor: m(POWER) }]
            + status_commands(boss, s, t) + nudges_xy(boss, s, m(FREE_GAIN)) + orders(boss, s, t),
        orders(boss, s, t).len() > 0,
{
    lemma_pressed_orders_issued(boss, s, t);
}

/// An attack asked for by a button or a command input is issued.
proof fn lemma_pressed_orders_issued(boss: u32, s: Sample, t: MarxKinds)
    ensures
        any_button_order(s) ==> button_orders(boss, s, t).len() > 0,
        any_flag_order(s, t) ==> flag_orders(boss, s, t).len() > 0,
        orders(boss, s, t).len() == button_orders(boss, s, t).len() + flag_orders(boss, s, t).len(),
{
    let p = s.pad;
    let c = p.cat1;
    let f = t.flags;
    let b1 = order(boss, p.special, t.plant_start);
    let b2 = b1 + order(boss, p.jump, t.four_cutter);
    let b3 = b2 + order(boss, p.guard, t.move_teleport);
    let b4 = b3 + order(boss, p.attack, t.ice_bomb_start);
    assert(b4.len() >= b3.len() >= b2.len() >= b1.len());
    let f1 = order(boss, flag_raised(c, f.special_lw), t.capillary_start);
    let f2 = f1 + order(boss, flag_raised(c, f.special_hi), t.thick_laser_start);
    let f3 = f2 + order(boss, flag_raised(c, f.special_s), t.facet_eye_laser_start);
    let f4 = f3 + order(boss, flag_raised(c, f.attack_lw3), t.black_hole_ready);
    let f5 = f4 + order(boss, flag_raised(c, f.attack_hi3), t.follow_eye_start);
    let f6 = f5 + order(boss, flag_raised(c, f.attack_s3), t.fly_out_homing);
    assert(f6.len() >= f5.len() >= f4.len() >= f3.len() >= f2.len() >= f1.len());
}

/// The boss is turned to face the stage once per match, and a boss for the
/// results screen is asked for once per match: both flags only go up outside
/// the pre-match phase, and the turn and the spawn happen only while the
/// flag was down.
pub proof fn lemma_once_per_match(st: MarxModel, s: Sample, t: MarxKinds)
    ensures
        st.jump_start ==> run_spec(st, s, t).0.jump_start,
        st.result_spawned ==> run_spec(st, s, t).0.result_spawned && !run_spec(st, s, t).2,
        run_spec(st, s, t).2 ==> !st.result_spawned && run_spec(st, s, t).0.result_spawned,
        st.jump_start ==> jump_start(settle_spawn(st, s, t).0, s).1.len() == 0,
{
}

/// Only the spawn phases change which boss belongs to an entry, and each of
/// them changes the current entry's boss alone.
pub proof fn lemma_boss_slots_kept(st: MarxModel, boss: u32, s: Sample, t: MarxKinds)
    ensures
        run_spec(st, s, t).0.boss_ids == st.boss_ids,
        steer_spec(st, boss, s, t).0.boss_ids == st.boss_ids,
        prepare_spec(st, s).0.boss_ids == st.boss_ids,
{
}

/// Once the fighter stands by in its living boss, it is put back where the
/// boss was after the boss has been kept inside the stage.
pub proof fn lemma_fighter_follows_boss(st: MarxModel, s: Sample, t: MarxKinds)
    requires
        !st.dead,
        s.ready_go,
        s.scale.equals(m(HIDDEN_SCALE)),
        s.fighter_status == t.fighter_standby,
    ensures
        tether(st, s, t).len() > 0,
        tether(st, s, t).last() == (Command::SetPos {
            object: Object::Fighter,
            place: place_at(s.boss.x, s.boss.y, s.boss.z),
        }),
{
}
} // verus!
