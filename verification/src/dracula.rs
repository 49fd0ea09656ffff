//! Dracula as a playable boss.
//!
//! The mod runs on the frames of every fighter, and acts on those of the
//! fighter kind that hosts it.  Before the match that fighter is shrunk and
//! a Dracula boss item is spawned for it; during the match the fighter follows
//! the boss, hits on the boss are passed on to the fighter as damage, and the
//! player's pad orders the boss's attacks.  At 199% damage Dracula changes
//! into his second form, a new boss with a set of attacks of its own; at 399%
//! the boss dies and takes the fighter with it.  For a computer player the
//! boss runs on its own AI.
//!
//! A frame runs in phases, and the state names the phase that runs next
//! ([`DraculaFrame`], [`DraculaPhase`]): [`DraculaState::begin`] starts
//! every fighter's frame, and the hook then runs the named phase until the
//! frame is done.  Before a phase that reads the game it reads a fresh
//! [`Sample`] (of the boss that [`DraculaState::watched`] names); after each
//! phase it carries out the returned commands in order, and before
//! [`DraculaState::enter_boss`] and [`DraculaState::enter_second_form`] it
//! spawns the item whose id they record.  Whether a computer or a human
//! plays is read in the pre-match phase and holds for the rest of the frame.
use vstd::prelude::*;

use vstd::seq_lib::lemma_concat_associative;

use crate::command::{
    exact, flag_on, flag_raised, only_if, order, place_at, push_order, Axis, Command, Coord, Object, PadFlags, Place,
    Sample,
};
use crate::measure::{
    m, Measure, HIDDEN_SCALE, MINUS_ONE, MINUS_STICK_DEAD_ZONE, ONE, STICK_DEAD_ZONE, ZERO,
};

verus! {

/// Bits of `f32` 145.0: the highest the fighter follows the boss.
pub const FOLLOW_CEILING: u32 = 0x4311_0000;
/// Bits of `f32` -100.0: the lowest the fighter follows the boss.
pub const FOLLOW_FLOOR: u32 = 0xC2C8_0000;
/// Bits of `f32` 175.0: the farthest right the fighter follows the boss.
pub const FOLLOW_RIGHT: u32 = 0x432F_0000;
/// Bits of `f32` -175.0: the farthest left the fighter follows the boss.
pub const FOLLOW_LEFT: u32 = 0xC32F_0000;
/// Bits of `f32` 30.0: how far above the boss the fighter rides.
pub const RIDE_HEIGHT: u32 = 0x41F0_0000;
/// Bits of `f32` 29.0: the frame of the fighter's entry at which the boss
/// is spawned.
pub const SPAWN_FRAME: u32 = 0x41E8_0000;
/// Bits of `f32` 30.0: the frame of the fighter's entry from which the boss
/// counts as held.
pub const HOLD_FRAME: u32 = 0x41F0_0000;
/// Bits of `f32` 199.0: the damage at which Dracula changes form.
pub const CHANGE_DAMAGE: u32 = 0x4347_0000;
/// Bits of `f32` 399.0: the damage at which the boss dies.
pub const DEATH_DAMAGE: u32 = 0x43C7_8000;
/// Bits of `f32` 4.1: the damage the fighter takes when the boss is hit.
pub const HIT_DAMAGE: u32 = 0x4083_3333;
/// Bits of `f32` 400.0: the damage that finishes the fighter.
pub const FINAL_DAMAGE: u32 = 0x43C8_0000;
/// Bits of `f32` 2.0: the speed of the second form's steps.
pub const STEP_GAIN: u32 = 0x4000_0000;
/// Bits of `f32` -2.0.
pub const MINUS_STEP_GAIN: u32 = 0xC000_0000;

/// The game's numbers for the kinds and statuses the mod uses.  The game
/// assigns them when it loads, so the hook reads them and hands them in.
#[derive(Clone, Copy, Debug, PartialEq, Eq, Structural)]
pub struct DraculaKinds {
    /// The fighter kind that hosts the mod.
    pub host_kind: i32,
    pub fighter_fall_special: i32,
    pub fighter_standby: i32,
    pub fighter_dead: i32,
    pub item_wait: i32,
    pub item_entry: i32,
    pub item_run: i32,
    pub item_turn: i32,
    pub item_none: i32,
    pub item_jump: i32,
    pub item_jump_air: i32,
    pub item_fall: i32,
    pub item_exit: i32,
    pub item_pass_floor: i32,
    pub item_start: i32,
    pub item_term: i32,
    pub item_landing: i32,
    pub item_initialize: i32,
    pub item_dead: i32,
    pub item_standby: i32,
    pub wait: i32,
    pub change_start: i32,
    pub teleport_start: i32,
    pub teleport_end: i32,
    pub three_way_start: i32,
    pub three_way_end: i32,
    pub fill_start: i32,
    pub fill_end: i32,
    pub rush_start: i32,
    pub rush_end: i32,
    pub pillar_start: i32,
    pub pillar_end: i32,
    pub straight_start: i32,
    pub straight_end: i32,
    pub turn_three_way_start: i32,
    pub turn_three_way_end: i32,
    pub second_wait: i32,
    pub second_squash_start: i32,
    pub second_squash_end: i32,
    pub second_squash_end_turn: i32,
    pub second_fire_shot_start: i32,
    pub second_fire_shot_end: i32,
    pub second_homing_shot_start: i32,
    pub second_homing_shot_end: i32,
    pub second_turn: i32,
    pub second_strike: i32,
    pub second_slash: i32,
    pub second_step_slash: i32,
    pub second_front_jump: i32,
    pub second_back_jump: i32,
    pub second_shock_wave: i32,
    pub second_slash_three: i32,
    pub second_turn_slash: i32,
    pub flags: PadFlags,
}

impl DraculaKinds {
    /// Whether a fighter of this kind runs the mod.
    pub fn hosts(&self, kind: i32) -> (r: bool)
        ensures
            r == (kind == self.host_kind),
    {
        kind == self.host_kind
    }
}

/// The phases of a fighter's frame, in the order they run.
#[derive(Clone, Copy, Debug, PartialEq, Eq, Structural)]
pub enum DraculaPhase {
    /// The fighter rides along with its boss.
    Follow,
    /// Pre-match: ask for a new boss when the spawn is due.
    Prepare,
    /// Record the boss just spawned before the match.
    EnterBoss,
    /// Shield the boss, and ask for the second form when it is due.
    Guard,
    /// Record the second form just spawned.
    EnterSecondForm,
    /// Hits, deaths, and the boss's orders.
    Settle,
    /// Nothing more in this frame.
    Done,
}

/// Where the current frame stands.
#[derive(Clone, Copy, Debug, PartialEq, Eq, Structural)]
pub struct DraculaFrame {
    /// The phase that runs next.
    pub phase: DraculaPhase,
    /// Whether a computer plays the frame's entry.
    pub cpu: bool,
    /// The boss the frame started with.
    pub boss: u32,
    /// Where the second form is to be put, once asked for.
    pub anchor: Option<Place>,
}

/// The mod's state, shared by all fighters' frames.
#[verifier::ext_equal]
pub struct DraculaModel {
    /// Whether the fighter holds its boss.
    pub have_item: bool,
    /// Whether the boss's entry animation has played (cleared at each spawn).
    pub entrance_anim: bool,
    /// Whether the match has started, as seen by a human's frames.
    pub game_start: bool,
    /// Whether a human's boss takes orders from the pad.
    pub stop_control_loop: bool,
    /// The entry of the fighter whose frame ran last.
    pub entry_id: usize,
    /// The boss item of each entry.
    pub boss_ids: Seq<u32>,
    /// Whether the boss has died in this match.
    pub is_boss_dead: bool,
    /// Whether Dracula is in his second form.
    pub transformed_mode: bool,
    /// Whether a human's first-form boss has been sent to wait once.
    pub kickstart_anim_begin: bool,
    /// Whether the first form is dying to make room for the second.
    pub transitioning: bool,
    /// Where the current frame stands.
    pub frame: DraculaFrame,
}

impl DraculaModel {
    /// One boss slot per entry.
    pub open spec fn wf(self) -> bool {
        self.boss_ids.len() == 8
    }

    /// The boss of the current entry.
    pub open spec fn boss(self) -> u32 {
        self.boss_ids[self.entry_id as int]
    }

    /// Whether the boss slot of the current entry exists.
    pub open spec fn ready(self) -> bool {
        self.wf() && self.entry_id < 8
    }
}

/// The mod's state, shared by all fighters' frames.
pub struct DraculaState {
    pub have_item: bool,
    pub entrance_anim: bool,
    pub game_start: bool,
    pub stop_control_loop: bool,
    pub entry_id: usize,
    pub boss_ids: Vec<u32>,
    pub is_boss_dead: bool,
    pub transformed_mode: bool,
    pub kickstart_anim_begin: bool,
    pub transitioning: bool,
    pub frame: DraculaFrame,
}

impl View for DraculaState {
    type V = DraculaModel;

    open spec fn view(&self) -> DraculaModel {
        DraculaModel {
            have_item: self.have_item,
            entrance_anim: self.entrance_anim,
            game_start: self.game_start,
            stop_control_loop: self.stop_control_loop,
            entry_id: self.entry_id,
            boss_ids: self.boss_ids@,
            is_boss_dead: self.is_boss_dead,
            transformed_mode: self.transformed_mode,
            kickstart_anim_begin: self.kickstart_anim_begin,
            transitioning: self.transitioning,
            frame: self.frame,
        }
    }
}

// ---------------------------------------------------------------------------
// Specification of a frame.

/// Where the fighter rides along with the boss at (x, y, z): on the ceiling
/// or the floor when the boss is past it, else on a side limit when the boss
/// is past it, else just above the boss.
pub open spec fn ride_place(x: Measure, y: Measure, z: Measure) -> Place {
    if y.at_least(m(FOLLOW_CEILING)) {
        place_at(x, m(FOLLOW_CEILING), z)
    } else if y.at_most(m(FOLLOW_FLOOR)) {
        place_at(x, m(FOLLOW_FLOOR), z)
    } else if x.at_least(m(FOLLOW_RIGHT)) {
        place_at(m(FOLLOW_RIGHT), y, z)
    } else if x.at_most(m(FOLLOW_LEFT)) {
        place_at(m(FOLLOW_LEFT), y, z)
    } else {
        Place { x: Coord::At(x), y: Coord::Raised(y, m(RIDE_HEIGHT)), z: Coord::At(z) }
    }
}

/// Once the match runs, a fighter that holds its boss falls helplessly and
/// rides along with the boss.
pub open spec fn follow_spec(st: DraculaModel, s: Sample, t: DraculaKinds) -> Seq<Command> {
    let b = s.boss;
    only_if(
        st.have_item && s.ready_go,
        seq![
            Command::ChangeStatus { object: Object::Fighter, status: t.fighter_fall_special, clear_buffer: true },
            Command::SetPos { object: Object::Fighter, place: ride_place(b.x, b.y, b.z) },
        ],
    )
}

/// Whether the pre-match spawn is due: the fighter's entry has reached its
/// spawn frame and the match has not started.
pub open spec fn spawn_due(s: Sample) -> bool {
    s.fighter_frame.at_least(m(SPAWN_FRAME)) && !s.ready_go
}

/// Pre-match for a computer: a boss is to be spawned, and the boss is alive,
/// in its first form and not held yet.
#[verifier::opaque]
pub open spec fn prepare_cpu_spec(st: DraculaModel, s: Sample) -> (DraculaModel, bool) {
    if spawn_due(s) {
        (
            DraculaModel {
                transitioning: false,
                transformed_mode: false,
                have_item: false,
                is_boss_dead: false,
                entrance_anim: false,
                ..st
            },
            true,
        )
    } else {
        (st, false)
    }
}

/// Pre-match for a human: as for a computer, and the boss takes orders, is
/// to be sent to wait once, and the match counts as not started.
#[verifier::opaque]
pub open spec fn prepare_human_spec(st: DraculaModel, s: Sample) -> (DraculaModel, bool) {
    if spawn_due(s) {
        (
            DraculaModel {
                kickstart_anim_begin: false,
                transitioning: false,
                transformed_mode: false,
                game_start: false,
                have_item: false,
                is_boss_dead: false,
                stop_control_loop: true,
                entrance_anim: false,
                ..st
            },
            true,
        )
    } else {
        (st, false)
    }
}

/// The boss ignores damage and the fighter is intangible; a hit at 199%
/// damage kills the first form, and once it is no longer in its dead status
/// (nor starting its change) both are put at the boss's x and z at height
/// zero, the first form stands by, and the second form is to be spawned
/// there.  The third part is that place when the second form is due.
pub open spec fn guard_spec(st: DraculaModel, boss: u32, s: Sample, t: DraculaKinds) -> (
    DraculaModel,
    Seq<Command>,
    Option<Place>,
) {
    let b = s.boss;
    let shield = seq![
        Command::LockDamage { item: boss },
        Command::ScriptIntangible,
        Command::Intangible,
    ];
    if b.hit && !st.transformed_mode && s.damage.at_least(m(CHANGE_DAMAGE)) {
        let anchor = place_at(b.x, m(ZERO), b.z);
        let kill = b.status != t.item_dead;
        let st1 = if kill {
            DraculaModel { transitioning: true, ..st }
        } else {
            st
        };
        let c1 = only_if(
            kill,
            seq![Command::ChangeStatus { object: Object::Item(boss), status: t.item_dead, clear_buffer: true }],
        );
        if st1.transitioning && b.status != t.item_dead && b.status != t.change_start {
            (
                DraculaModel { transformed_mode: true, entrance_anim: false, ..st1 },
                shield + c1 + seq![
                    Command::SetPos { object: Object::Fighter, place: anchor },
                    Command::SetPos { object: Object::Item(boss), place: anchor },
                    Command::ChangeStatus { object: Object::Item(boss), status: t.item_standby, clear_buffer: true },
                ],
                Some(anchor),
            )
        } else {
            (st1, shield + c1, None)
        }
    } else {
        (st, shield, None)
    }
}

/// A hit on the boss costs the fighter damage and ends both hit-stops; a hit
/// at 399% damage (or at exactly -1%) kills the boss and the fighter.
pub open spec fn punish(st: DraculaModel, boss: u32, s: Sample, t: DraculaKinds) -> (
    DraculaModel,
    Seq<Command>,
) {
    if s.boss.hit {
        let dies = (s.damage.at_least(m(DEATH_DAMAGE)) || s.damage.equals(m(MINUS_ONE)))
            && !st.is_boss_dead;
        (
            if dies {
                DraculaModel { is_boss_dead: true, ..st }
            } else {
                st
            },
            only_if(
                dies,
                seq![
                    Command::ChangeStatus { object: Object::Item(boss), status: t.item_dead, clear_buffer: true },
                    Command::ChangeStatus { object: Object::Fighter, status: t.fighter_dead, clear_buffer: true },
                ],
            ) + seq![Command::AddDamage { amount: m(HIT_DAMAGE) }] + only_if(
                s.fighter_stopped,
                seq![Command::EndStop { object: Object::Fighter }],
            ) + only_if(s.boss.stopped, seq![Command::EndStop { object: Object::Item(boss) }]),
        )
    } else {
        (st, Seq::empty())
    }
}

/// A fighter that died takes its living boss with it.
pub open spec fn fighter_down(st: DraculaModel, boss: u32, s: Sample, t: DraculaKinds) -> (
    DraculaModel,
    Seq<Command>,
) {
    if s.fighter_status == t.fighter_dead && !st.is_boss_dead {
        (
            DraculaModel { is_boss_dead: true, ..st },
            seq![Command::ChangeStatus { object: Object::Item(boss), status: t.item_dead, clear_buffer: true }],
        )
    } else {
        (st, Seq::empty())
    }
}

/// Once the boss is dead during the match, a fighter with stocks left dies
/// and is finished with 400% damage, and the boss takes no more orders.
pub open spec fn last_stock(st: DraculaModel, s: Sample, t: DraculaKinds) -> (
    DraculaModel,
    Seq<Command>,
) {
    if st.is_boss_dead && s.ready_go && s.stock != 0 {
        (
            DraculaModel { stop_control_loop: false, ..st },
            seq![
                Command::ChangeStatus { object: Object::Fighter, status: t.fighter_dead, clear_buffer: true },
                Command::AddDamage { amount: m(FINAL_DAMAGE) },
            ],
        )
    } else {
        (st, Seq::empty())
    }
}

/// During the match the boss counts as held from the fighter's hold frame on.
pub open spec fn hold(st: DraculaModel, s: Sample) -> DraculaModel {
    if s.fighter_frame.at_least(m(HOLD_FRAME)) && s.ready_go {
        DraculaModel { have_item: true, ..st }
    } else {
        st
    }
}

/// The rest of a computer's frame: hits, deaths, the hold, and the boss's
/// motion runs during the match and is frozen in its wait before it.
#[verifier::opaque]
pub open spec fn settle_cpu_spec(st: DraculaModel, boss: u32, s: Sample, t: DraculaKinds) -> (
    DraculaModel,
    Seq<Command>,
) {
    let (st1, c1) = punish(st, boss, s, t);
    let (st2, c2) = fighter_down(st1, boss, s, t);
    let (st3, c3) = last_stock(st2, s, t);
    let st4 = hold(st3, s);
    let alive = st4.have_item && !st4.is_boss_dead;
    let c5 = only_if(
        s.ready_go && alive,
        seq![Command::SetMotionRate { item: boss, rate: m(ONE) }],
    );
    let c6 = only_if(
        !s.ready_go && alive,
        seq![
            Command::ChangeStatus { object: Object::Item(boss), status: t.wait, clear_buffer: true },
            Command::SetMotionRate { item: boss, rate: m(ZERO) },
        ],
    );
    (st4, c1 + c2 + c3 + c5 + c6)
}

/// The statuses in which a human's boss is left alone: its generic item
/// statuses.
pub open spec fn idle_status(status: i32, t: DraculaKinds) -> bool {
    status == t.item_wait || status == t.item_entry || status == t.item_run || status == t.item_turn
        || status == t.item_none || status == t.item_jump || status == t.item_jump_air || status
        == t.item_fall || status == t.item_exit || status == t.item_pass_floor || status
        == t.item_start || status == t.item_term || status == t.item_landing || status
        == t.item_initialize
}

/// Once the match has started, a boss that takes orders and is in none of its
/// idle statuses is sent to the wait of its form.
pub open spec fn back_to_wait(st: DraculaModel, boss: u32, s: Sample, t: DraculaKinds) -> Seq<
    Command,
> {
    only_if(
        st.game_start && st.stop_control_loop && st.have_item && !st.is_boss_dead && !idle_status(
            s.boss.status,
            t,
        ),
        seq![
            Command::ChangeStatus {
                object: Object::Item(boss),
                status: if st.transformed_mode {
                    t.second_wait
                } else {
                    t.item_wait
                },
                clear_buffer: true,
            },
        ],
    )
}

/// Whether the boss's motion is at its last frame.
pub open spec fn at_end(s: Sample) -> bool {
    s.boss.frame.equals(s.boss.end_frame)
}

/// Whether the boss's status frees it for new orders: one of the waits, or
/// the end of an attack at the last frame of its motion, or the end of the
/// pillar attack, or (first form) standing by.
pub open spec fn frees(st: DraculaModel, s: Sample, t: DraculaKinds) -> bool {
    let x = s.boss.status;
    x == t.item_wait || x == t.wait || x == t.second_wait || (!st.transformed_mode && x
        == t.item_standby) || (at_end(s) && (x == t.teleport_end || x == t.three_way_end || x
        == t.fill_end || x == t.rush_end)) || x == t.pillar_end || (at_end(s) && (x
        == t.straight_end || x == t.turn_three_way_end || x == t.second_squash_end || x
        == t.second_fire_shot_end || x == t.second_homing_shot_end || x
        == t.second_squash_end_turn))
}

/// A held boss whose status frees it takes orders again; a first form that
/// stands by is sent to the end of its straight attack, and one at the end of
/// its pillar attack is sent to wait.
pub open spec fn release(st: DraculaModel, boss: u32, s: Sample, t: DraculaKinds) -> (
    DraculaModel,
    Seq<Command>,
) {
    if st.have_item {
        let x = s.boss.status;
        (
            if frees(st, s, t) {
                DraculaModel { stop_control_loop: true, ..st }
            } else {
                st
            },
            only_if(
                !st.transformed_mode && x == t.item_standby,
                seq![Command::ChangeStatus { object: Object::Item(boss), status: t.straight_end, clear_buffer: true }],
            ) + only_if(
                x == t.pillar_end,
                seq![Command::ChangeStatus { object: Object::Item(boss), status: t.item_wait, clear_buffer: true }],
            ),
        )
    } else {
        (st, Seq::empty())
    }
}

/// Sending the first form to wait on a stick test: the first time, and
/// whenever it is not waiting.
pub open spec fn kick(st: DraculaModel, boss: u32, s: Sample, t: DraculaKinds, tilted: bool) -> (
    DraculaModel,
    Seq<Command>,
) {
    let to_wait = seq![Command::ChangeStatus { object: Object::Item(boss), status: t.wait, clear_buffer: true }];
    if tilted {
        (
            DraculaModel { kickstart_anim_begin: true, ..st },
            only_if(!st.kickstart_anim_begin, to_wait) + only_if(s.boss.status != t.wait, to_wait),
        )
    } else {
        (st, Seq::empty())
    }
}

/// The first form's attacks, in the order the inputs are tested.
pub open spec fn first_orders(boss: u32, s: Sample, t: DraculaKinds) -> Seq<Command> {
    let p = s.pad;
    let f = t.flags;
    order(boss, p.special, t.three_way_start) + order(boss, p.guard, t.teleport_start) + order(
        boss,
        p.attack,
        t.fill_start,
    ) + order(boss, flag_raised(p.cat1, f.special_lw), t.rush_start) + order(
        boss,
        flag_raised(p.cat1, f.special_hi),
        t.pillar_start,
    ) + order(boss, flag_raised(p.cat1, f.special_s), t.straight_start) + order(
        boss,
        flag_raised(p.cat1, f.attack_lw3),
        t.turn_three_way_start,
    ) + order(boss, flag_raised(p.cat1, f.attack_hi3), t.turn_three_way_start) + order(
        boss,
        flag_raised(p.cat1, f.attack_s3),
        t.turn_three_way_start,
    )
}

/// Whether the pad asks the first form for an attack.
pub open spec fn any_first_order(s: Sample, t: DraculaKinds) -> bool {
    let p = s.pad;
    let f = t.flags;
    p.special || p.guard || p.attack || flag_raised(p.cat1, f.special_lw) || flag_raised(
        p.cat1,
        f.special_hi,
    ) || flag_raised(p.cat1, f.special_s) || flag_raised(p.cat1, f.attack_lw3) || flag_raised(
        p.cat1,
        f.attack_hi3,
    ) || flag_raised(p.cat1, f.attack_s3)
}

/// The second form's attacks, in the order the inputs are tested.
pub open spec fn second_orders(boss: u32, s: Sample, t: DraculaKinds) -> Seq<Command> {
    let p = s.pad;
    let f = t.flags;
    order(boss, p.jump, t.second_turn) + order(boss, p.special, t.second_strike) + order(
        boss,
        p.guard,
        t.teleport_start,
    ) + order(boss, p.attack, t.second_slash) + order(
        boss,
        flag_raised(p.cat1, f.special_lw),
        t.second_step_slash,
    ) + order(boss, flag_raised(p.cat1, f.special_hi), t.second_homing_shot_start) + order(
        boss,
        flag_raised(p.cat1, f.special_s),
        t.second_front_jump,
    ) + order(boss, flag_raised(p.cat1, f.attack_lw3), t.second_fire_shot_start) + order(
        boss,
        flag_raised(p.cat1, f.attack_hi3),
        t.second_squash_start,
    ) + order(boss, flag_raised(p.cat1, f.attack_s3), t.second_back_jump) + order(
        boss,
        p.appeal_hi,
        t.second_shock_wave,
    ) + order(boss, p.appeal_s_r, t.second_slash_three) + order(
        boss,
        p.appeal_lw,
        t.second_turn_slash,
    )
}

/// Whether the pad asks the second form for an attack.
pub open spec fn any_second_order(s: Sample, t: DraculaKinds) -> bool {
    let p = s.pad;
    any_first_order(s, t) || p.jump || p.appeal_hi || p.appeal_s_r || p.appeal_lw
}

/// The second form's steps: the square of the stick's tilt, times -2 while
/// the stick is at most the dead zone and times 2 while it is at least minus
/// the dead zone.
pub open spec fn steps(boss: u32, s: Sample) -> Seq<Command> {
    let x = s.pad.stick_x;
    only_if(
        x.at_most(m(STICK_DEAD_ZONE)),
        seq![Command::Nudge { item: boss, axis: Axis::X, stick: x, gain: m(MINUS_STEP_GAIN), squared: true }],
    ) + only_if(
        x.at_least(m(MINUS_STICK_DEAD_ZONE)),
        seq![Command::Nudge { item: boss, axis: Axis::X, stick: x, gain: m(STEP_GAIN), squared: true }],
    )
}

/// During the match, a held first form that takes orders is sent to wait on
/// the stick tests and starts the attacks the pad asks for, after which it
/// takes no orders.
pub open spec fn command_first(st: DraculaModel, boss: u32, s: Sample, t: DraculaKinds) -> (
    DraculaModel,
    Seq<Command>,
) {
    if st.stop_control_loop && !st.transformed_mode && st.have_item && s.ready_go {
        let x = s.pad.stick_x;
        let (st1, c1) = kick(st, boss, s, t, x.at_most(m(ONE)));
        let (st2, c2) = kick(st1, boss, s, t, x.at_least(m(ONE)));
        (
            if any_first_order(s, t) {
                DraculaModel { stop_control_loop: false, ..st2 }
            } else {
                st2
            },
            c1 + c2 + first_orders(boss, s, t),
        )
    } else {
        (st, Seq::empty())
    }
}

/// During the match, a held second form that takes orders steps with the
/// stick and starts the attacks the pad asks for, after which it takes no
/// orders.
pub open spec fn command_second(st: DraculaModel, boss: u32, s: Sample, t: DraculaKinds) -> (
    DraculaModel,
    Seq<Command>,
) {
    if st.stop_control_loop && st.transformed_mode && st.have_item && s.ready_go {
        (
            if any_second_order(s, t) {
                DraculaModel { stop_control_loop: false, ..st }
            } else {
                st
            },
            steps(boss, s) + second_orders(boss, s, t),
        )
    } else {
        (st, Seq::empty())
    }
}

/// The start of the rest of a human's frame: the boss's motion runs while
/// it takes orders, the match start is noted, and the boss's and the
/// fighter's deaths are dealt with.
#[verifier::opaque]
pub open spec fn human_deaths(st: DraculaModel, boss: u32, s: Sample, t: DraculaKinds) -> (
    DraculaModel,
    Seq<Command>,
) {
    let c1 = only_if(
        st.stop_control_loop,
        seq![Command::SetMotionRate { item: boss, rate: m(ONE) }],
    );
    let st2 = DraculaModel { game_start: s.ready_go, ..st };
    let (st3, c3) = fighter_down(st2, boss, s, t);
    let (st4, c4) = last_stock(st3, s, t);
    (st4, c1 + c3 + c4)
}

/// Then an out-of-stock fighter stands by, hits are dealt with, before the
/// match the boss takes orders again, and the hold is noted.
#[verifier::opaque]
pub open spec fn human_hits(st: DraculaModel, boss: u32, s: Sample, t: DraculaKinds) -> (
    DraculaModel,
    Seq<Command>,
) {
    let c5 = only_if(
        s.stock == 0 && s.fighter_status != t.fighter_standby,
        seq![Command::ChangeStatus { object: Object::Fighter, status: t.fighter_standby, clear_buffer: true }],
    );
    let (st6, c6) = punish(st, boss, s, t);
    let st7 = hold(
        if !s.ready_go {
            DraculaModel { stop_control_loop: true, ..st6 }
        } else {
            st6
        },
        s,
    );
    (st7, c5 + c6)
}

/// The first part of the rest of a human's frame: deaths, then hits.
pub open spec fn human_upkeep(st: DraculaModel, boss: u32, s: Sample, t: DraculaKinds) -> (
    DraculaModel,
    Seq<Command>,
) {
    let (st1, c1) = human_deaths(st, boss, s, t);
    let (st2, c2) = human_hits(st1, boss, s, t);
    (st2, c1 + c2)
}

/// The second part: a busy boss is sent back to its wait, its statuses free
/// it for new orders, and it takes the pad's orders.
#[verifier::opaque]
pub open spec fn human_orders(st: DraculaModel, boss: u32, s: Sample, t: DraculaKinds) -> (
    DraculaModel,
    Seq<Command>,
) {
    let c8 = back_to_wait(st, boss, s, t);
    let (st9, c9) = release(st, boss, s, t);
    let (st10, c10) = command_first(st9, boss, s, t);
    let (st11, c11) = command_second(st10, boss, s, t);
    (st11, c8 + c9 + c10 + c11)
}

/// The rest of a human's frame.
pub open spec fn settle_human_spec(st: DraculaModel, boss: u32, s: Sample, t: DraculaKinds) -> (
    DraculaModel,
    Seq<Command>,
) {
    let (st1, c1) = human_upkeep(st, boss, s, t);
    let (st2, c2) = human_orders(st1, boss, s, t);
    (st2, c1 + c2)
}

// ---------------------------------------------------------------------------
// The phases.

fn ride_place_exec(x: Measure, y: Measure, z: Measure) -> (p: Place)
    ensures
        p == ride_place(x, y, z),
{
    if y.ge(Measure::from_bits(FOLLOW_CEILING)) {
        exact(x, Measure::from_bits(FOLLOW_CEILING), z)
    } else if y.le(Measure::from_bits(FOLLOW_FLOOR)) {
        exact(x, Measure::from_bits(FOLLOW_FLOOR), z)
    } else if x.ge(Measure::from_bits(FOLLOW_RIGHT)) {
        exact(Measure::from_bits(FOLLOW_RIGHT), y, z)
    } else if x.le(Measure::from_bits(FOLLOW_LEFT)) {
        exact(Measure::from_bits(FOLLOW_LEFT), y, z)
    } else {
        Place { x: Coord::At(x), y: Coord::Raised(y, Measure::from_bits(RIDE_HEIGHT)), z: Coord::At(z) }
    }
}

fn push_first_orders(out: &mut Vec<Command>, boss: u32, s: &Sample, t: &DraculaKinds) -> (any: bool)
    ensures
        final(out)@ == old(out)@ + first_orders(boss, *s, *t),
        any == any_first_order(*s, *t),
{
    let p = s.pad;
    let f = t.flags;
    let ghost start = out@;
    let mut any = false;
    push_order(out, boss, p.special, t.three_way_start, &mut any);
    let ghost o1 = order(boss, p.special, t.three_way_start);
    push_order(out, boss, p.guard, t.teleport_start, &mut any);
    let ghost o2 = o1 + order(boss, p.guard, t.teleport_start);
    proof { lemma_concat_associative(start, o1, order(boss, p.guard, t.teleport_start)); }
    push_order(out, boss, p.attack, t.fill_start, &mut any);
    let ghost o3 = o2 + order(boss, p.attack, t.fill_start);
    proof { lemma_concat_associative(start, o2, order(boss, p.attack, t.fill_start)); }
    let lw = flag_on(p.cat1, f.special_lw);
    push_order(out, boss, lw, t.rush_start, &mut any);
    let ghost o4 = o3 + order(boss, lw, t.rush_start);
    proof { lemma_concat_associative(start, o3, order(boss, lw, t.rush_start)); }
    let hi = flag_on(p.cat1, f.special_hi);
    push_order(out, boss, hi, t.pillar_start, &mut any);
    let ghost o5 = o4 + order(boss, hi, t.pillar_start);
    proof { lemma_concat_associative(start, o4, order(boss, hi, t.pillar_start)); }
    let sd = flag_on(p.cat1, f.special_s);
    push_order(out, boss, sd, t.straight_start, &mut any);
    let ghost o6 = o5 + order(boss, sd, t.straight_start);
    proof { lemma_concat_associative(start, o5, order(boss, sd, t.straight_start)); }
    let lw3 = flag_on(p.cat1, f.attack_lw3);
    push_order(out, boss, lw3, t.turn_three_way_start, &mut any);
    let ghost o7 = o6 + order(boss, lw3, t.turn_three_way_start);
    proof { lemma_concat_associative(start, o6, order(boss, lw3, t.turn_three_way_start)); }
    let hi3 = flag_on(p.cat1, f.attack_hi3);
    push_order(out, boss, hi3, t.turn_three_way_start, &mut any);
    let ghost o8 = o7 + order(boss, hi3, t.turn_three_way_start);
    proof { lemma_concat_associative(start, o7, order(boss, hi3, t.turn_three_way_start)); }
    let s3 = flag_on(p.cat1, f.attack_s3);
    push_order(out, boss, s3, t.turn_three_way_start, &mut any);
    let ghost o9 = o8 + order(boss, s3, t.turn_three_way_start);
    proof { lemma_concat_associative(start, o8, order(boss, s3, t.turn_three_way_start)); }
    assert(out@ == start + o9);
    assert(o9 == first_orders(boss, *s, *t));
    any
}

fn push_second_orders(out: &mut Vec<Command>, boss: u32, s: &Sample, t: &DraculaKinds) -> (any:
    bool)
    ensures
        final(out)@ == old(out)@ + second_orders(boss, *s, *t),
        any == any_second_order(*s, *t),
{
    let p = s.pad;
    let f = t.flags;
    let ghost start = out@;
    let mut any = false;
    push_order(out, boss, p.jump, t.second_turn, &mut any);
    let ghost o1 = order(boss, p.jump, t.second_turn);
    push_order(out, boss, p.special, t.second_strike, &mut any);
    let ghost o2 = o1 + order(boss, p.special, t.second_strike);
    proof { lemma_concat_associative(start, o1, order(boss, p.special, t.second_strike)); }
    push_order(out, boss, p.guard, t.teleport_start, &mut any);
    let ghost o3 = o2 + order(boss, p.guard, t.teleport_start);
    proof { lemma_concat_associative(start, o2, order(boss, p.guard, t.teleport_start)); }
    push_order(out, boss, p.attack, t.second_slash, &mut any);
    let ghost o4 = o3 + order(boss, p.attack, t.second_slash);
    proof { lemma_concat_associative(start, o3, order(boss, p.attack, t.second_slash)); }
    let lw = flag_on(p.cat1, f.special_lw);
    push_order(out, boss, lw, t.second_step_slash, &mut any);
    let ghost o5 = o4 + order(boss, lw, t.second_step_slash);
    proof { lemma_concat_associative(start, o4, order(boss, lw, t.second_step_slash)); }
    let hi = flag_on(p.cat1, f.special_hi);
    push_order(out, boss, hi, t.second_homing_shot_start, &mut any);
    let ghost o6 = o5 + order(boss, hi, t.second_homing_shot_start);
    proof { lemma_concat_associative(start, o5, order(boss, hi, t.second_homing_shot_start)); }
    let sd = flag_on(p.cat1, f.special_s);
    push_order(out, boss, sd, t.second_front_jump, &mut any);
    let ghost o7 = o6 + order(boss, sd, t.second_front_jump);
    proof { lemma_concat_associative(start, o6, order(boss, sd, t.second_front_jump)); }
    let lw3 = flag_on(p.cat1, f.attack_lw3);
    push_order(out, boss, lw3, t.second_fire_shot_start, &mut any);
    let ghost o8 = o7 + order(boss, lw3, t.second_fire_shot_start);
    proof { lemma_concat_associative(start, o7, order(boss, lw3, t.second_fire_shot_start)); }
    let hi3 = flag_on(p.cat1, f.attack_hi3);
    push_order(out, boss, hi3, t.second_squash_start, &mut any);
    let ghost o9 = o8 + order(boss, hi3, t.second_squash_start);
    proof { lemma_concat_associative(start, o8, order(boss, hi3, t.second_squash_start)); }
    let s3 = flag_on(p.cat1, f.attack_s3);
    push_order(out, boss, s3, t.second_back_jump, &mut any);
    let ghost o10 = o9 + order(boss, s3, t.second_back_jump);
    proof { lemma_concat_associative(start, o9, order(boss, s3, t.second_back_jump)); }
    push_order(out, boss, p.appeal_hi, t.second_shock_wave, &mut any);
    let ghost o11 = o10 + order(boss, p.appeal_hi, t.second_shock_wave);
    proof { lemma_concat_associative(start, o10, order(boss, p.appeal_hi, t.second_shock_wave)); }
    push_order(out, boss, p.appeal_s_r, t.second_slash_three, &mut any);
    let ghost o12 = o11 + order(boss, p.appeal_s_r, t.second_slash_three);
    proof { lemma_concat_associative(start, o11, order(boss, p.appeal_s_r, t.second_slash_three)); }
    push_order(out, boss, p.appeal_lw, t.second_turn_slash, &mut any);
    let ghost o13 = o12 + order(boss, p.appeal_lw, t.second_turn_slash);
    proof { lemma_concat_associative(start, o12, order(boss, p.appeal_lw, t.second_turn_slash)); }
    assert(out@ == start + o13);
    assert(o13 == second_orders(boss, *s, *t));
    any
}

fn push_steps(out: &mut Vec<Command>, boss: u32, s: &Sample)
    ensures
        final(out)@ == old(out)@ + steps(boss, *s),
{
    let x = s.pad.stick_x;
    if x.le(Measure::from_bits(STICK_DEAD_ZONE)) {
        out.push(
            Command::Nudge {
                item: boss,
                axis: Axis::X,
                stick: x,
                gain: Measure::from_bits(MINUS_STEP_GAIN),
                squared: true,
            },
        );
    }
    if x.ge(Measure::from_bits(MINUS_STICK_DEAD_ZONE)) {
        out.push(
            Command::Nudge {
                item: boss,
                axis: Axis::X,
                stick: x,
                gain: Measure::from_bits(STEP_GAIN),
                squared: true,
            },
        );
    }
    assert(final(out)@ =~= old(out)@ + steps(boss, *s));
}

impl DraculaState {
    /// The state before the first frame: nothing held or spawned.
    pub fn new() -> (st: DraculaState)
        ensures
            st@.wf(),
            st@ == (DraculaModel {
                have_item: false,
                entrance_anim: false,
                game_start: false,
                stop_control_loop: false,
                entry_id: 0,
                boss_ids: Seq::new(8, |i: int| 0u32),
                is_boss_dead: false,
                transformed_mode: false,
                kickstart_anim_begin: false,
                transitioning: false,
                frame: DraculaFrame { phase: DraculaPhase::Done, cpu: false, boss: 0, anchor: None },
            }),
    {
        let st = DraculaState {
            have_item: false,
            entrance_anim: false,
            game_start: false,
            stop_control_loop: false,
            entry_id: 0,
            boss_ids: vec![0u32, 0u32, 0u32, 0u32, 0u32, 0u32, 0u32, 0u32],
            is_boss_dead: false,
            transformed_mode: false,
            kickstart_anim_begin: false,
            transitioning: false,
            frame: DraculaFrame { phase: DraculaPhase::Done, cpu: false, boss: 0, anchor: None },
        };
        assert(st@.boss_ids =~= Seq::new(8, |i: int| 0u32));
        st
    }

    /// The boss of the current entry.
    pub fn boss(&self) -> (b: u32)
        requires
            self@.ready(),
        ensures
            b == self@.boss(),
    {
        self.boss_ids[self.entry_id]
    }

    /// The current entry as the game's entry number.
    pub fn entry_number(&self) -> (n: i32)
        ensures
            n == self.entry_id as i32,
    {
        self.entry_id as i32
    }

    /// Every fighter's frame first records its entry; a fighter of the
    /// hosting kind then rides along with its boss, any other has nothing
    /// more to do.
    pub fn begin(&mut self, entry: i32, kind: i32, t: &DraculaKinds)
        ensures
            final(self)@ == (DraculaModel {
                entry_id: entry as usize,
                frame: DraculaFrame {
                    phase: if kind == t.host_kind {
                        DraculaPhase::Follow
                    } else {
                        DraculaPhase::Done
                    },
                    ..old(self)@.frame
                },
                ..old(self)@
            }),
    {
        self.entry_id = entry as usize;
        self.frame.phase = if t.hosts(kind) {
            DraculaPhase::Follow
        } else {
            DraculaPhase::Done
        };
    }

    /// The boss whose state the next phase reads: the frame's boss once the
    /// pre-match phase has run, the current entry's boss before.
    pub fn watched(&self) -> (b: u32)
        requires
            self@.ready(),
        ensures
            b == (if self@.frame.phase == DraculaPhase::Follow || self@.frame.phase
                == DraculaPhase::Prepare {
                self@.boss()
            } else {
                self@.frame.boss
            }),
    {
        if self.frame.phase == DraculaPhase::Follow || self.frame.phase == DraculaPhase::Prepare {
            self.boss()
        } else {
            self.frame.boss
        }
    }

    /// The host's first phase: a fighter that holds its boss rides along with
    /// it during the match.  The pre-match phase runs next.
    pub fn follow(&mut self, s: &Sample, t: &DraculaKinds) -> (cmds: Vec<Command>)
        requires
            old(self)@.ready(),
        ensures
            cmds@ == follow_spec(old(self)@, *s, *t),
            final(self)@ == (DraculaModel {
                frame: DraculaFrame { phase: DraculaPhase::Prepare, ..old(self)@.frame },
                ..old(self)@
            }),
    {
        self.frame.phase = DraculaPhase::Prepare;
        let mut cmds: Vec<Command> = Vec::new();
        if self.have_item && s.ready_go {
            let b = s.boss;
            cmds.push(Command::ChangeStatus { object: Object::Fighter, status: t.fighter_fall_special, clear_buffer: true });
            cmds.push(Command::SetPos { object: Object::Fighter, place: ride_place_exec(b.x, b.y, b.z) });
        }
        assert(cmds@ =~= follow_spec(old(self)@, *s, *t));
        cmds
    }

    /// A computer's pre-match phase; true when the hook is to spawn the boss
    /// and hand its id to the computer's boss entry.
    fn prepare_cpu(&mut self, s: &Sample) -> (spawn: bool)
        ensures
            (final(self)@, spawn) == prepare_cpu_spec(old(self)@, *s),
    {
        proof {
            reveal(prepare_cpu_spec);
        }
        if s.fighter_frame.ge(Measure::from_bits(SPAWN_FRAME)) && !s.ready_go {
            self.transitioning = false;
            self.transformed_mode = false;
            self.have_item = false;
            self.is_boss_dead = false;
            self.entrance_anim = false;
            true
        } else {
            false
        }
    }

    /// A human's pre-match phase; true when the hook is to spawn the boss and
    /// hand its id to the human's boss entry.
    fn prepare_human(&mut self, s: &Sample) -> (spawn: bool)
        ensures
            (final(self)@, spawn) == prepare_human_spec(old(self)@, *s),
    {
        proof {
            reveal(prepare_human_spec);
        }
        if s.fighter_frame.ge(Measure::from_bits(SPAWN_FRAME)) && !s.ready_go {
            self.kickstart_anim_begin = false;
            self.transitioning = false;
            self.transformed_mode = false;
            self.game_start = false;
            self.have_item = false;
            self.is_boss_dead = false;
            self.stop_control_loop = true;
            self.entrance_anim = false;
            true
        } else {
            false
        }
    }

    /// Records a computer's new boss: the fighter is shrunk into it, holds
    /// it, throws away what it held and stands by, and the previous boss of
    /// the entry is sent to wait.
    fn enter_cpu_boss(&mut self, item: u64, t: &DraculaKinds) -> (cmds: Vec<Command>)
        requires
            old(self)@.ready(),
        ensures
            final(self)@ == (DraculaModel {
                boss_ids: old(self)@.boss_ids.update(old(self)@.entry_id as int, item as u32),
                have_item: true,
                ..old(self)@
            }),
            cmds@ == seq![
                Command::SetScale { scale: m(HIDDEN_SCALE) },
                Command::ThrowHeld,
                Command::ChangeStatus { object: Object::Fighter, status: t.fighter_standby, clear_buffer: true },
                Command::ChangeStatus { object: Object::Item(old(self)@.boss()), status: t.wait, clear_buffer: true },
                Command::ChangeStatus { object: Object::Fighter, status: t.fighter_standby, clear_buffer: true },
            ],
    {
        let previous = self.boss();
        self.boss_ids.set(self.entry_id, item as u32);
        self.have_item = true;
        let mut cmds: Vec<Command> = Vec::new();
        cmds.push(Command::SetScale { scale: Measure::from_bits(HIDDEN_SCALE) });
        cmds.push(Command::ThrowHeld);
        cmds.push(Command::ChangeStatus { object: Object::Fighter, status: t.fighter_standby, clear_buffer: true });
        cmds.push(Command::ChangeStatus { object: Object::Item(previous), status: t.wait, clear_buffer: true });
        cmds.push(Command::ChangeStatus { object: Object::Fighter, status: t.fighter_standby, clear_buffer: true });
        cmds
    }

    /// Records a human's new boss: the fighter is shrunk into it and holds it.
    fn enter_human_boss(&mut self, item: u64) -> (cmds: Vec<Command>)
        requires
            old(self)@.ready(),
        ensures
            final(self)@ == (DraculaModel {
                boss_ids: old(self)@.boss_ids.update(old(self)@.entry_id as int, item as u32),
                have_item: true,
                ..old(self)@
            }),
            cmds@ == seq![Command::SetScale { scale: m(HIDDEN_SCALE) }],
    {
        self.boss_ids.set(self.entry_id, item as u32);
        self.have_item = true;
        let mut cmds: Vec<Command> = Vec::new();
        cmds.push(Command::SetScale { scale: Measure::from_bits(HIDDEN_SCALE) });
        cmds
    }

    /// The boss (the one the frame started with) is shielded, and a hit at
    /// 199% damage moves Dracula towards his second form; the second part of
    /// the result is the place where the hook is to spawn the second form and
    /// hand its id to the second form's entry, if it is due.
    fn guard_boss(&mut self, boss: u32, s: &Sample, t: &DraculaKinds) -> (out: (
        Vec<Command>,
        Option<Place>,
    ))
        ensures
            final(self)@ == guard_spec(old(self)@, boss, *s, *t).0,
            out.0@ == guard_spec(old(self)@, boss, *s, *t).1,
            out.1 == guard_spec(old(self)@, boss, *s, *t).2,
    {
        let mut cmds: Vec<Command> = Vec::new();
        cmds.push(Command::LockDamage { item: boss });
        cmds.push(Command::ScriptIntangible);
        cmds.push(Command::Intangible);
        let b = s.boss;
        let mut anchor: Option<Place> = None;
        if b.hit && !self.transformed_mode && s.damage.ge(Measure::from_bits(CHANGE_DAMAGE)) {
            let place = exact(b.x, Measure::from_bits(ZERO), b.z);
            if b.status != t.item_dead {
                cmds.push(Command::ChangeStatus { object: Object::Item(boss), status: t.item_dead, clear_buffer: true });
                self.transitioning = true;
            }
            if self.transitioning && b.status != t.item_dead && b.status != t.change_start {
                self.transformed_mode = true;
                self.entrance_anim = false;
                cmds.push(Command::SetPos { object: Object::Fighter, place });
                cmds.push(Command::SetPos { object: Object::Item(boss), place });
                cmds.push(Command::ChangeStatus { object: Object::Item(boss), status: t.item_standby, clear_buffer: true });
                anchor = Some(place);
            }
        }
        assert(cmds@ =~= guard_spec(old(self)@, boss, *s, *t).1);
        (cmds, anchor)
    }

    /// Records the second form the hook spawned: the first form's boss (the
    /// entry's boss until now) and the fighter are put at the place of the
    /// change, and the change is over.
    fn second_form(&mut self, item: u64, anchor: Place) -> (cmds: Vec<Command>)
        requires
            old(self)@.ready(),
        ensures
            final(self)@ == (DraculaModel {
                boss_ids: old(self)@.boss_ids.update(old(self)@.entry_id as int, item as u32),
                transitioning: false,
                ..old(self)@
            }),
            cmds@ == seq![
                Command::SetPos { object: Object::Fighter, place: anchor },
                Command::SetPos { object: Object::Item(old(self)@.boss()), place: anchor },
            ],
    {
        let first = self.boss();
        self.boss_ids.set(self.entry_id, item as u32);
        self.transitioning = false;
        let mut cmds: Vec<Command> = Vec::new();
        cmds.push(Command::SetPos { object: Object::Fighter, place: anchor });
        cmds.push(Command::SetPos { object: Object::Item(first), place: anchor });
        cmds
    }

    fn punish_step(&mut self, boss: u32, s: &Sample, t: &DraculaKinds, out: &mut Vec<Command>)
        ensures
            final(self)@ == punish(old(self)@, boss, *s, *t).0,
            final(out)@ == old(out)@ + punish(old(self)@, boss, *s, *t).1,
    {
        let ghost start = out@;
        if s.boss.hit {
            if s.damage.ge(Measure::from_bits(DEATH_DAMAGE)) {
                if !self.is_boss_dead {
                    self.is_boss_dead = true;
                    out.push(Command::ChangeStatus { object: Object::Item(boss), status: t.item_dead, clear_buffer: true });
                    out.push(Command::ChangeStatus { object: Object::Fighter, status: t.fighter_dead, clear_buffer: true });
                }
            }
            if s.damage.eq_value(Measure::from_bits(MINUS_ONE)) {
                if !self.is_boss_dead {
                    self.is_boss_dead = true;
                    out.push(Command::ChangeStatus { object: Object::Item(boss), status: t.item_dead, clear_buffer: true });
                    out.push(Command::ChangeStatus { object: Object::Fighter, status: t.fighter_dead, clear_buffer: true });
                }
            }
            out.push(Command::AddDamage { amount: Measure::from_bits(HIT_DAMAGE) });
            if s.fighter_stopped {
                out.push(Command::EndStop { object: Object::Fighter });
            }
            if s.boss.stopped {
                out.push(Command::EndStop { object: Object::Item(boss) });
            }
        }
        assert(final(out)@ =~= start + punish(old(self)@, boss, *s, *t).1);
    }

    fn fighter_down_step(&mut self, boss: u32, s: &Sample, t: &DraculaKinds, out: &mut Vec<Command>)
        ensures
            final(self)@ == fighter_down(old(self)@, boss, *s, *t).0,
            final(out)@ == old(out)@ + fighter_down(old(self)@, boss, *s, *t).1,
    {
        if s.fighter_status == t.fighter_dead && !self.is_boss_dead {
            self.is_boss_dead = true;
            out.push(Command::ChangeStatus { object: Object::Item(boss), status: t.item_dead, clear_buffer: true });
        }
        assert(final(out)@ =~= old(out)@ + fighter_down(old(self)@, boss, *s, *t).1);
    }

    fn last_stock_step(&mut self, s: &Sample, t: &DraculaKinds, out: &mut Vec<Command>)
        ensures
            final(self)@ == last_stock(old(self)@, *s, *t).0,
            final(out)@ == old(out)@ + last_stock(old(self)@, *s, *t).1,
    {
        if self.is_boss_dead && s.ready_go && s.stock != 0 {
            out.push(Command::ChangeStatus { object: Object::Fighter, status: t.fighter_dead, clear_buffer: true });
            out.push(Command::AddDamage { amount: Measure::from_bits(FINAL_DAMAGE) });
            self.stop_control_loop = false;
        }
        assert(final(out)@ =~= old(out)@ + last_stock(old(self)@, *s, *t).1);
    }

    fn hold_step(&mut self, s: &Sample)
        ensures
            final(self)@ == hold(old(self)@, *s),
    {
        if s.fighter_frame.ge(Measure::from_bits(HOLD_FRAME)) && s.ready_go {
            self.have_item = true;
        }
    }

    /// The rest of a computer's frame, on the boss the frame started with:
    /// hits on it are passed on to the fighter, the boss dies at 399% damage
    /// or with its fighter, a fighter with stocks left follows its dead boss,
    /// and a held living boss runs its motion during the match and waits,
    /// frozen, before it.
    fn settle_cpu(&mut self, boss: u32, s: &Sample, t: &DraculaKinds) -> (cmds: Vec<Command>)
        ensures
            final(self)@ == settle_cpu_spec(old(self)@, boss, *s, *t).0,
            cmds@ == settle_cpu_spec(old(self)@, boss, *s, *t).1,
    {
        let mut cmds: Vec<Command> = Vec::new();
        self.punish_step(boss, s, t, &mut cmds);
        self.fighter_down_step(boss, s, t, &mut cmds);
        self.last_stock_step(s, t, &mut cmds);
        self.hold_step(s);
        if s.ready_go && self.have_item && !self.is_boss_dead {
            cmds.push(Command::SetMotionRate { item: boss, rate: Measure::from_bits(ONE) });
        }
        if !s.ready_go && self.have_item && !self.is_boss_dead {
            cmds.push(Command::ChangeStatus { object: Object::Item(boss), status: t.wait, clear_buffer: true });
            cmds.push(Command::SetMotionRate { item: boss, rate: Measure::from_bits(ZERO) });
        }
        proof {
            reveal(settle_cpu_spec);
        }
        assert(cmds@ =~= settle_cpu_spec(old(self)@, boss, *s, *t).1);
        cmds
    }

    fn release_step(&mut self, boss: u32, s: &Sample, t: &DraculaKinds, out: &mut Vec<Command>)
        ensures
            final(self)@ == release(old(self)@, boss, *s, *t).0,
            final(out)@ == old(out)@ + release(old(self)@, boss, *s, *t).1,
    {
        if self.have_item {
            let x = s.boss.status;
            let freed = frees_exec(self, s, t);
            if !self.transformed_mode && x == t.item_standby {
                out.push(Command::ChangeStatus { object: Object::Item(boss), status: t.straight_end, clear_buffer: true });
            }
            if x == t.pillar_end {
                out.push(Command::ChangeStatus { object: Object::Item(boss), status: t.item_wait, clear_buffer: true });
            }
            if freed {
                self.stop_control_loop = true;
            }
        }
        assert(final(out)@ =~= old(out)@ + release(old(self)@, boss, *s, *t).1);
    }

    fn kick_step(&mut self, boss: u32, s: &Sample, t: &DraculaKinds, tilted: bool, out: &mut Vec<
        Command,
    >)
        ensures
            final(self)@ == kick(old(self)@, boss, *s, *t, tilted).0,
            final(out)@ == old(out)@ + kick(old(self)@, boss, *s, *t, tilted).1,
    {
        if tilted {
            if !self.kickstart_anim_begin {
                out.push(Command::ChangeStatus { object: Object::Item(boss), status: t.wait, clear_buffer: true });
                self.kickstart_anim_begin = true;
            }
            if s.boss.status != t.wait {
                out.push(Command::ChangeStatus { object: Object::Item(boss), status: t.wait, clear_buffer: true });
            }
        }
        assert(final(out)@ =~= old(out)@ + kick(old(self)@, boss, *s, *t, tilted).1);
    }

    fn command_first_step(&mut self, boss: u32, s: &Sample, t: &DraculaKinds, out: &mut Vec<Command>)
        ensures
            final(self)@ == command_first(old(self)@, boss, *s, *t).0,
            final(out)@ == old(out)@ + command_first(old(self)@, boss, *s, *t).1,
    {
        let ghost start = out@;
        if self.stop_control_loop && !self.transformed_mode && self.have_item && s.ready_go {
            let x = s.pad.stick_x;
            let ghost st0 = self@;
            self.kick_step(boss, s, t, x.le(Measure::from_bits(ONE)), out);
            let ghost c1 = kick(st0, boss, *s, *t, x.at_most(m(ONE))).1;
            let ghost st1 = self@;
            self.kick_step(boss, s, t, x.ge(Measure::from_bits(ONE)), out);
            let ghost c2 = kick(st1, boss, *s, *t, x.at_least(m(ONE))).1;
            proof { lemma_concat_associative(start, c1, c2); }
            let any = push_first_orders(out, boss, s, t);
            proof { lemma_concat_associative(start, c1 + c2, first_orders(boss, *s, *t)); }
            if any {
                self.stop_control_loop = false;
            }
        }
        assert(final(out)@ == start + command_first(old(self)@, boss, *s, *t).1);
    }

    fn command_second_step(&mut self, boss: u32, s: &Sample, t: &DraculaKinds, out: &mut Vec<Command>)
        ensures
            final(self)@ == command_second(old(self)@, boss, *s, *t).0,
            final(out)@ == old(out)@ + command_second(old(self)@, boss, *s, *t).1,
    {
        let ghost start = out@;
        if self.stop_control_loop && self.transformed_mode && self.have_item && s.ready_go {
            push_steps(out, boss, s);
            let any = push_second_orders(out, boss, s, t);
            proof { lemma_concat_associative(start, steps(boss, *s), second_orders(boss, *s, *t)); }
            if any {
                self.stop_control_loop = false;
            }
        }
        assert(final(out)@ == start + command_second(old(self)@, boss, *s, *t).1);
    }

    fn deaths_step(&mut self, boss: u32, s: &Sample, t: &DraculaKinds, out: &mut Vec<Command>)
        ensures
            final(self)@ == human_deaths(old(self)@, boss, *s, *t).0,
            final(out)@ == old(out)@ + human_deaths(old(self)@, boss, *s, *t).1,
    {
        let ghost start = out@;
        let ghost st0 = self@;
        if self.stop_control_loop {
            out.push(Command::SetMotionRate { item: boss, rate: Measure::from_bits(ONE) });
        }
        let ghost k1 = out@;
        self.game_start = s.ready_go;
        let ghost st2 = self@;
        self.fighter_down_step(boss, s, t, out);
        let ghost st3 = self@;
        self.last_stock_step(s, t, out);
        proof {
            reveal(human_deaths);
            let c1 = only_if(
                st0.stop_control_loop,
                seq![Command::SetMotionRate { item: boss, rate: m(ONE) }],
            );
            let c3 = fighter_down(st2, boss, *s, *t).1;
            let c4 = last_stock(st3, *s, *t).1;
            assert(k1 =~= start + c1);
            lemma_concat_associative(start, c1, c3);
            lemma_concat_associative(start, c1 + c3, c4);
        }
    }

    fn hits_step(&mut self, boss: u32, s: &Sample, t: &DraculaKinds, out: &mut Vec<Command>)
        ensures
            final(self)@ == human_hits(old(self)@, boss, *s, *t).0,
            final(out)@ == old(out)@ + human_hits(old(self)@, boss, *s, *t).1,
    {
        let ghost start = out@;
        if s.stock == 0 && s.fighter_status != t.fighter_standby {
            out.push(Command::ChangeStatus { object: Object::Fighter, status: t.fighter_standby, clear_buffer: true });
        }
        let ghost k5 = out@;
        let ghost st5 = self@;
        self.punish_step(boss, s, t, out);
        if !s.ready_go {
            self.stop_control_loop = true;
        }
        self.hold_step(s);
        proof {
            reveal(human_hits);
            let c5 = only_if(
                s.stock == 0 && s.fighter_status != t.fighter_standby,
                seq![Command::ChangeStatus { object: Object::Fighter, status: t.fighter_standby, clear_buffer: true }],
            );
            let c6 = punish(st5, boss, *s, *t).1;
            assert(k5 =~= start + c5);
            lemma_concat_associative(start, c5, c6);
        }
    }

    fn upkeep_step(&mut self, boss: u32, s: &Sample, t: &DraculaKinds, out: &mut Vec<Command>)
        ensures
            final(self)@ == human_upkeep(old(self)@, boss, *s, *t).0,
            final(out)@ == old(out)@ + human_upkeep(old(self)@, boss, *s, *t).1,
    {
        let ghost start = out@;
        let ghost st0 = self@;
        self.deaths_step(boss, s, t, out);
        let ghost st1 = self@;
        self.hits_step(boss, s, t, out);
        proof {
            lemma_concat_associative(
                start,
                human_deaths(st0, boss, *s, *t).1,
                human_hits(st1, boss, *s, *t).1,
            );
        }
    }

    fn orders_step(&mut self, boss: u32, s: &Sample, t: &DraculaKinds, out: &mut Vec<Command>)
        ensures
            final(self)@ == human_orders(old(self)@, boss, *s, *t).0,
            final(out)@ == old(out)@ + human_orders(old(self)@, boss, *s, *t).1,
    {
        let ghost start = out@;
        let ghost st0 = self@;
        if self.game_start && self.stop_control_loop && self.have_item && !self.is_boss_dead {
            if !idle_status_exec(s.boss.status, t) {
                let status = if self.transformed_mode {
                    t.second_wait
                } else {
                    t.item_wait
                };
                out.push(Command::ChangeStatus { object: Object::Item(boss), status, clear_buffer: true });
            }
        }
        let ghost k8 = out@;
        let ghost c8 = back_to_wait(st0, boss, *s, *t);
        assert(k8 =~= start + c8);
        self.release_step(boss, s, t, out);
        let ghost c9 = release(st0, boss, *s, *t).1;
        let ghost st9 = self@;
        self.command_first_step(boss, s, t, out);
        let ghost c10 = command_first(st9, boss, *s, *t).1;
        let ghost st10 = self@;
        self.command_second_step(boss, s, t, out);
        let ghost c11 = command_second(st10, boss, *s, *t).1;
        proof {
            reveal(human_orders);
            lemma_concat_associative(start, c8, c9);
            lemma_concat_associative(start, c8 + c9, c10);
            lemma_concat_associative(start, c8 + c9 + c10, c11);
        }
    }

    /// The rest of a human's frame, on the boss the frame started with: the
    /// boss's motion runs while it takes orders; the match start is noted; the
    /// boss dies with its fighter or at 399% damage, and a fighter with stocks
    /// left follows its dead boss, one without stands by; hits on the boss are
    /// passed on to the fighter; a busy boss is sent back to its wait, its
    /// statuses free it for new orders, and it takes the pad's orders.
    fn settle_human(&mut self, boss: u32, s: &Sample, t: &DraculaKinds) -> (cmds: Vec<Command>)
        ensures
            final(self)@ == settle_human_spec(old(self)@, boss, *s, *t).0,
            cmds@ == settle_human_spec(old(self)@, boss, *s, *t).1,
    {
        let mut cmds: Vec<Command> = Vec::new();
        let ghost st0 = self@;
        self.upkeep_step(boss, s, t, &mut cmds);
        let ghost k1 = cmds@;
        self.orders_step(boss, s, t, &mut cmds);
        proof {
            assert(k1 =~= human_upkeep(st0, boss, *s, *t).1);
            assert(cmds@ =~= settle_human_spec(st0, boss, *s, *t).1);
        }
        cmds
    }
}

fn frees_exec(st: &DraculaState, s: &Sample, t: &DraculaKinds) -> (r: bool)
    ensures
        r == frees(st@, *s, *t),
{
    let x = s.boss.status;
    let end = s.boss.frame.eq_value(s.boss.end_frame);
    x == t.item_wait || x == t.wait || x == t.second_wait || (!st.transformed_mode && x
        == t.item_standby) || (end && (x == t.teleport_end || x == t.three_way_end || x
        == t.fill_end || x == t.rush_end)) || x == t.pillar_end || (end && (x
        == t.straight_end || x == t.turn_three_way_end || x == t.second_squash_end || x
        == t.second_fire_shot_end || x == t.second_homing_shot_end || x
        == t.second_squash_end_turn))
}

fn idle_status_exec(status: i32, t: &DraculaKinds) -> (r: bool)
    ensures
        r == idle_status(status, *t),
{
    status == t.item_wait || status == t.item_entry || status == t.item_run || status == t.item_turn
        || status == t.item_none || status == t.item_jump || status == t.item_jump_air || status
        == t.item_fall || status == t.item_exit || status == t.item_pass_floor || status
        == t.item_start || status == t.item_term || status == t.item_landing || status
        == t.item_initialize
}

// ---------------------------------------------------------------------------
// The phases of a host's frame, as the hook runs them.

/// The pre-match phase: the computer's or the human's, as the sample says;
/// the frame's boss is the entry's boss before any spawn.
pub open spec fn prepare_phase(st: DraculaModel, s: Sample) -> (DraculaModel, bool) {
    let r = if s.cpu {
        prepare_cpu_spec(st, s)
    } else {
        prepare_human_spec(st, s)
    };
    (
        DraculaModel {
            frame: DraculaFrame {
                cpu: s.cpu,
                boss: st.boss(),
                phase: if r.1 {
                    DraculaPhase::EnterBoss
                } else {
                    DraculaPhase::Guard
                },
                ..r.0.frame
            },
            ..r.0
        },
        r.1,
    )
}

/// The commands that follow a pre-match spawn: a computer's fighter is
/// shrunk, throws away what it held and stands by while the entry's previous
/// boss waits; a human's is shrunk.
pub open spec fn enter_boss_commands(st: DraculaModel, t: DraculaKinds) -> Seq<Command> {
    if st.frame.cpu {
        seq![
            Command::SetScale { scale: m(HIDDEN_SCALE) },
            Command::ThrowHeld,
            Command::ChangeStatus { object: Object::Fighter, status: t.fighter_standby, clear_buffer: true },
            Command::ChangeStatus { object: Object::Item(st.boss()), status: t.wait, clear_buffer: true },
            Command::ChangeStatus { object: Object::Fighter, status: t.fighter_standby, clear_buffer: true },
        ]
    } else {
        seq![Command::SetScale { scale: m(HIDDEN_SCALE) }]
    }
}

/// The guard phase, on the frame's boss; the place of a due change is kept
/// for the second form's entry.
pub open spec fn guard_phase(st: DraculaModel, s: Sample, t: DraculaKinds) -> (
    DraculaModel,
    Seq<Command>,
) {
    let r = guard_spec(st, st.frame.boss, s, t);
    (
        DraculaModel {
            frame: DraculaFrame {
                anchor: r.2,
                phase: if r.2 is Some {
                    DraculaPhase::EnterSecondForm
                } else {
                    DraculaPhase::Settle
                },
                ..r.0.frame
            },
            ..r.0
        },
        r.1,
    )
}

/// The second form's entry: the entry's boss becomes the new item, and the
/// fighter and the first form are put at the place of the change.
pub open spec fn second_form_phase(st: DraculaModel, item: u64) -> (DraculaModel, Seq<Command>) {
    match st.frame.anchor {
        Some(p) => (
            DraculaModel {
                boss_ids: st.boss_ids.update(st.entry_id as int, item as u32),
                transitioning: false,
                frame: DraculaFrame { anchor: None, phase: DraculaPhase::Settle, ..st.frame },
                ..st
            },
            seq![
                Command::SetPos { object: Object::Fighter, place: p },
                Command::SetPos { object: Object::Item(st.boss()), place: p },
            ],
        ),
        None => (
            DraculaModel {
                frame: DraculaFrame { phase: DraculaPhase::Settle, ..st.frame },
                ..st
            },
            Seq::empty(),
        ),
    }
}

/// The last phase, on the frame's boss: the computer's or the human's.
pub open spec fn settle_phase(st: DraculaModel, s: Sample, t: DraculaKinds) -> (
    DraculaModel,
    Seq<Command>,
) {
    let r = if st.frame.cpu {
        settle_cpu_spec(st, st.frame.boss, s, t)
    } else {
        settle_human_spec(st, st.frame.boss, s, t)
    };
    (DraculaModel { frame: DraculaFrame { phase: DraculaPhase::Done, ..r.0.frame }, ..r.0 }, r.1)
}

impl DraculaState {
    /// The pre-match phase, for a computer or a human as the sample says;
    /// true when the hook is to spawn the boss and hand its id to
    /// [`DraculaState::enter_boss`], which then runs next.
    pub fn prepare(&mut self, s: &Sample) -> (spawn: bool)
        requires
            old(self)@.ready(),
        ensures
            (final(self)@, spawn) == prepare_phase(old(self)@, *s),
    {
        let boss = self.boss();
        let spawn = if s.cpu {
            self.prepare_cpu(s)
        } else {
            self.prepare_human(s)
        };
        self.frame.cpu = s.cpu;
        self.frame.boss = boss;
        self.frame.phase = if spawn {
            DraculaPhase::EnterBoss
        } else {
            DraculaPhase::Guard
        };
        spawn
    }

    /// Records the boss the hook spawned before the match, which the fighter
    /// now holds.  The guard phase runs next.
    pub fn enter_boss(&mut self, item: u64, t: &DraculaKinds) -> (cmds: Vec<Command>)
        requires
            old(self)@.ready(),
        ensures
            final(self)@ == (DraculaModel {
                boss_ids: old(self)@.boss_ids.update(old(self)@.entry_id as int, item as u32),
                have_item: true,
                frame: DraculaFrame { phase: DraculaPhase::Guard, ..old(self)@.frame },
                ..old(self)@
            }),
            cmds@ == enter_boss_commands(old(self)@, *t),
    {
        let cmds = if self.frame.cpu {
            self.enter_cpu_boss(item, t)
        } else {
            self.enter_human_boss(item)
        };
        self.frame.phase = DraculaPhase::Guard;
        cmds
    }

    /// The guard phase on the frame's boss: it is shielded, and a hit at 199%
    /// damage moves Dracula towards his second form.  When the change is due
    /// the hook spawns the second form and hands its id to
    /// [`DraculaState::enter_second_form`], which then runs next.
    pub fn guard(&mut self, s: &Sample, t: &DraculaKinds) -> (cmds: Vec<Command>)
        ensures
            (final(self)@, cmds@) == guard_phase(old(self)@, *s, *t),
    {
        let (cmds, anchor) = self.guard_boss(self.frame.boss, s, t);
        self.frame.phase = if anchor.is_some() {
            DraculaPhase::EnterSecondForm
        } else {
            DraculaPhase::Settle
        };
        self.frame.anchor = anchor;
        cmds
    }

    /// Records the second form the hook spawned: the first form (the entry's
    /// boss until now) and the fighter are put at the place of the change,
    /// and the change is over.  The last phase runs next.
    pub fn enter_second_form(&mut self, item: u64) -> (cmds: Vec<Command>)
        requires
            old(self)@.ready(),
        ensures
            (final(self)@, cmds@) == second_form_phase(old(self)@, item),
    {
        match self.frame.anchor {
            Some(place) => {
                let cmds = self.second_form(item, place);
                self.frame.anchor = None;
                self.frame.phase = DraculaPhase::Settle;
                cmds
            },
            None => {
                self.frame.phase = DraculaPhase::Settle;
                let cmds: Vec<Command> = Vec::new();
                assert(cmds@ =~= Seq::<Command>::empty());
                cmds
            },
        }
    }

    /// The last phase, on the frame's boss, for a computer or a human as the
    /// pre-match phase found; the frame is then done.
    pub fn settle(&mut self, s: &Sample, t: &DraculaKinds) -> (cmds: Vec<Command>)
        ensures
            (final(self)@, cmds@) == settle_phase(old(self)@, *s, *t),
    {
        let boss = self.frame.boss;
        let cmds = if self.frame.cpu {
            self.settle_cpu(boss, s, t)
        } else {
            self.settle_human(boss, s, t)
        };
        self.frame.phase = DraculaPhase::Done;
        cmds
    }
}

// ---------------------------------------------------------------------------
// Laws.

/// Once the boss has died it stays dead until the next pre-match spawn: no
/// phase of the match revives it, and the pre-match phases change nothing
/// unless a spawn is due.
/// What the parts of the rest of a frame keep: the boss slots, the form, the
/// entry and the frame's bookkeeping; a dead boss stays dead and a kicked
/// first form stays kicked.
pub open spec fn keeps(before: DraculaModel, after: DraculaModel) -> bool {
    &&& after.boss_ids == before.boss_ids
    &&& after.transformed_mode == before.transformed_mode
    &&& after.entry_id == before.entry_id
    &&& after.frame == before.frame
    &&& (before.is_boss_dead ==> after.is_boss_dead)
    &&& (before.kickstart_anim_begin ==> after.kickstart_anim_begin)
}

proof fn lemma_deaths_keep(st: DraculaModel, boss: u32, s: Sample, t: DraculaKinds)
    ensures
        keeps(st, human_deaths(st, boss, s, t).0),
        human_deaths(st, boss, s, t).0.kickstart_anim_begin == st.kickstart_anim_begin,
{
    reveal(human_deaths);
}

proof fn lemma_hits_keep(st: DraculaModel, boss: u32, s: Sample, t: DraculaKinds)
    ensures
        keeps(st, human_hits(st, boss, s, t).0),
        human_hits(st, boss, s, t).0.kickstart_anim_begin == st.kickstart_anim_begin,
{
    reveal(human_hits);
}

proof fn lemma_orders_keep(st: DraculaModel, boss: u32, s: Sample, t: DraculaKinds)
    ensures
        keeps(st, human_orders(st, boss, s, t).0),
        human_orders(st, boss, s, t).0.is_boss_dead == st.is_boss_dead,
{
    reveal(human_orders);
}

/// What a human's and a computer's rest of the frame keep; the computer's
/// leaves the kick flag alone.
pub proof fn lemma_settle_keeps(st: DraculaModel, boss: u32, s: Sample, t: DraculaKinds)
    ensures
        keeps(st, human_upkeep(st, boss, s, t).0),
        keeps(st, settle_human_spec(st, boss, s, t).0),
        keeps(st, settle_cpu_spec(st, boss, s, t).0),
        settle_cpu_spec(st, boss, s, t).0.kickstart_anim_begin == st.kickstart_anim_begin,
{
    lemma_deaths_keep(st, boss, s, t);
    let d = human_deaths(st, boss, s, t).0;
    lemma_hits_keep(d, boss, s, t);
    let u = human_upkeep(st, boss, s, t).0;
    lemma_orders_keep(u, boss, s, t);
    reveal(settle_cpu_spec);
}

pub proof fn lemma_death_is_final(st: DraculaModel, boss: u32, s: Sample, t: DraculaKinds)
    ensures
        st.is_boss_dead ==> guard_spec(st, boss, s, t).0.is_boss_dead,
        st.is_boss_dead ==> settle_cpu_spec(st, boss, s, t).0.is_boss_dead,
        st.is_boss_dead ==> settle_human_spec(st, boss, s, t).0.is_boss_dead,
        !spawn_due(s) ==> prepare_cpu_spec(st, s) == (st, false),
        !spawn_due(s) ==> prepare_human_spec(st, s) == (st, false),
{
    lemma_settle_keeps(st, boss, s, t);
    reveal(prepare_cpu_spec);
    reveal(prepare_human_spec);
}

/// Dracula changes form at most once per match: the second form is asked for
/// only while he is in his first form, and once changed he stays changed
/// until the next pre-match spawn.
pub proof fn lemma_change_once(st: DraculaModel, boss: u32, s: Sample, t: DraculaKinds)
    ensures
        guard_spec(st, boss, s, t).2 is Some ==> !st.transformed_mode && guard_spec(
            st,
            boss,
            s,
            t,
        ).0.transformed_mode,
        st.transformed_mode ==> guard_spec(st, boss, s, t).2 is None && guard_spec(
            st,
            boss,
            s,
            t,
        ).0.transformed_mode,
        settle_cpu_spec(st, boss, s, t).0.transformed_mode == st.transformed_mode,
        settle_human_spec(st, boss, s, t).0.transformed_mode == st.transformed_mode,
{
    lemma_settle_keeps(st, boss, s, t);
}

/// Each form takes only its own orders: the first form's attacks are never
/// started once Dracula has changed, nor the second form's before.
pub proof fn lemma_forms_keep_their_moves(st: DraculaModel, boss: u32, s: Sample, t: DraculaKinds)
    ensures
        st.transformed_mode ==> command_first(st, boss, s, t).1.len() == 0,
        !st.transformed_mode ==> command_second(st, boss, s, t).1.len() == 0,
        human_upkeep(st, boss, s, t).0.transformed_mode == st.transformed_mode,
        release(st, boss, s, t).0.transformed_mode == st.transformed_mode,
{
    lemma_settle_keeps(st, boss, s, t);
}

/// Starting an attack from the pad stops the boss from taking orders until a
/// status frees it again.
pub proof fn lemma_order_stops_control(st: DraculaModel, boss: u32, s: Sample, t: DraculaKinds)
    ensures
        st.stop_control_loop && !st.transformed_mode && st.have_item && s.ready_go && any_first_order(
            s,
            t,
        ) ==> !command_first(st, boss, s, t).0.stop_control_loop,
        st.stop_control_loop && st.transformed_mode && st.have_item && s.ready_go && any_second_order(
            s,
            t,
        ) ==> !command_second(st, boss, s, t).0.stop_control_loop,
{
}

/// The first form is sent to wait by the stick tests once per spawn: the flag
/// that marks it goes up and stays up for the rest of the match.
pub proof fn lemma_kickstart_once(st: DraculaModel, boss: u32, s: Sample, t: DraculaKinds)
    ensures
        st.kickstart_anim_begin ==> settle_human_spec(st, boss, s, t).0.kickstart_anim_begin,
        settle_cpu_spec(st, boss, s, t).0.kickstart_anim_begin == st.kickstart_anim_begin,
{
    lemma_settle_keeps(st, boss, s, t);
}

/// Only the spawn phases change which boss belongs to an entry.
pub proof fn lemma_boss_slots_kept(st: DraculaModel, boss: u32, s: Sample, t: DraculaKinds)
    ensures
        guard_spec(st, boss, s, t).0.boss_ids == st.boss_ids,
        settle_cpu_spec(st, boss, s, t).0.boss_ids == st.boss_ids,
        settle_human_spec(st, boss, s, t).0.boss_ids == st.boss_ids,
        prepare_cpu_spec(st, s).0.boss_ids == st.boss_ids,
        prepare_human_spec(st, s).0.boss_ids == st.boss_ids,
{
    lemma_settle_keeps(st, boss, s, t);
    reveal(prepare_cpu_spec);
    reveal(prepare_human_spec);
}

/// Before the match a computer's held, living boss is frozen in its wait;
/// during the match its motion runs at normal speed.
pub proof fn lemma_cpu_boss_frozen_before_match(st: DraculaModel, boss: u32, s: Sample, t: DraculaKinds)
    requires
        !st.is_boss_dead,
        !s.boss.hit,
        s.fighter_status != t.fighter_dead,
        st.have_item,
    ensures
        !s.ready_go ==> settle_cpu_spec(st, boss, s, t).1 == seq![
            Command::ChangeStatus { object: Object::Item(boss), status: t.wait, clear_buffer: true },
            Command::SetMotionRate { item: boss, rate: m(ZERO) },
        ],
        s.ready_go ==> settle_cpu_spec(st, boss, s, t).1 == seq![
            Command::SetMotionRate { item: boss, rate: m(ONE) },
        ],
{
    reveal(settle_cpu_spec);
    let (st1, c1) = punish(st, boss, s, t);
    let (st2, c2) = fighter_down(st1, boss, s, t);
    let (st3, c3) = last_stock(st2, s, t);
    assert(c1 =~= Seq::<Command>::empty());
    assert(c2 =~= Seq::<Command>::empty());
    assert(c3 =~= Seq::<Command>::empty());
    if !s.ready_go {
        assert(settle_cpu_spec(st, boss, s, t).1 =~= seq![
            Command::ChangeStatus { object: Object::Item(boss), status: t.wait, clear_buffer: true },
            Command::SetMotionRate { item: boss, rate: m(ZERO) },
        ]);
    } else {
        assert(settle_cpu_spec(st, boss, s, t).1 =~= seq![
            Command::SetMotionRate { item: boss, rate: m(ONE) },
        ]);
    }
}
} // verus!
