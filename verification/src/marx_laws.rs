//! What a Marx frame promises, over every state and every sample.
use vstd::prelude::*;

use crate::command::{
    lemma_inputs_known, lemma_no_input_known, no_input, only_input, start_attack, Command, Object,
    Sample,
};
use crate::command::{place_at, Axis};
use crate::marx::{
    any_order, fast_entry, jump_start, keep_inside, last_rites, move_both, nudges, nudges_xy,
    orders, prepare_spec, run_spec, settle_spawn, status_commands, steer_spec, take_hit, tether,
    MarxKinds, MarxModel, CEILING, CUTTER_GAIN, DAMAGE_LIMIT, ENTRY_SPEED, FACE_LEFT, FACE_RIGHT,
    FLOOR, FLY_OUT_GAIN, FRAME_10, FRAME_14, FRAME_20, FRAME_22, FRAME_27, FRAME_34, FRAME_74,
    FREE_GAIN, GUARDED_DAMAGE, HIT_DAMAGE, LEFT_WALL, POWER, RIGHT_WALL, WALL_HEIGHT,
};
use crate::measure::{m, Measure, HIDDEN_SCALE, MINUS_ONE, MINUS_STICK_DEAD_ZONE, ONE, STICK_DEAD_ZONE};

verus! {

// ---------------------------------------------------------------------------
// The attack the boss's AI queued.

/// Whether a command comes from the boss's AI queue: a restart of the wait
/// motion, the clearing of the queue, or a change of status that keeps the
/// buffered requests (as only the queued attack is started).
pub open spec fn from_ai_queue(c: Command) -> bool {
    match c {
        Command::WaitMotion { .. } => true,
        Command::ClearAttackKind { .. } => true,
        Command::ChangeStatus { clear_buffer, .. } => !clear_buffer,
        _ => false,
    }
}

/// No command from position `from` on comes from the AI queue.
pub open spec fn quiet_from(cmds: Seq<Command>, from: int) -> bool {
    forall|i: int| from <= i < cmds.len() ==> !from_ai_queue(#[trigger] cmds[i])
}

proof fn lemma_quiet_concat(a: Seq<Command>, b: Seq<Command>, from: int)
    requires
        0 <= from <= a.len(),
        quiet_from(a, from),
        quiet_from(b, 0),
    ensures
        quiet_from(a + b, from),
{
    assert forall|i: int| from <= i < (a + b).len() implies !from_ai_queue(#[trigger] (a + b)[i]) by {
        if i >= a.len() {
            assert((a + b)[i] == b[i - a.len()]);
        }
    }
}

proof fn lemma_parts_quiet(st: MarxModel, s: Sample, t: MarxKinds)
    ensures
        quiet_from(fast_entry(st, s, t), 0),
        quiet_from(settle_spawn(st, s, t).1, 0),
        quiet_from(jump_start(st, s).1, 0),
        quiet_from(take_hit(st, s, t).1, 0),
        quiet_from(last_rites(st, s, t), 0),
{
    let a = take_hit(st, s, t).1;
    assert forall|i: int| 0 <= i < a.len() implies !from_ai_queue(#[trigger] a[i]) by {}
    let b = last_rites(st, s, t);
    assert forall|i: int| 0 <= i < b.len() implies !from_ai_queue(#[trigger] b[i]) by {}
    let c = jump_start(st, s).1;
    assert forall|i: int| 0 <= i < c.len() implies !from_ai_queue(#[trigger] c[i]) by {}
}

proof fn lemma_tether_quiet(st: MarxModel, s: Sample, t: MarxKinds)
    ensures
        quiet_from(tether(st, s, t), 0),
{
    let b = s.boss;
    let k = keep_inside(st.boss(), b.x, b.y, b.z);
    assert forall|i: int| 0 <= i < k.len() implies !from_ai_queue(#[trigger] k[i]) by {
        if b.y.at_least(m(CEILING)) {
        } else if b.y.at_most(m(FLOOR)) {
        } else if b.x.at_least(m(RIGHT_WALL)) {
        } else if b.x.at_most(m(LEFT_WALL)) {
        }
    }
    let c = tether(st, s, t);
    assert forall|i: int| 0 <= i < c.len() implies !from_ai_queue(#[trigger] c[i]) by {}
}

/// The boss's AI queue is served only once the match runs, and only while
/// the boss is steerable: then the middle phase of a frame begins by
/// restarting the boss's wait motion and, when the AI queued an attack,
/// starts that attack without clearing the boss's buffered requests and
/// clears the queue.  No other command of the phase comes from the queue;
/// before "ready, go", or while the boss is not steerable, none does.
pub proof fn lemma_ai_queue_waits_for_go(st: MarxModel, s: Sample, t: MarxKinds)
    ensures
        !(s.ready_go && st.controllable) ==> quiet_from(run_spec(st, s, t).1, 0),
        s.ready_go && st.controllable ==> run_spec(st, s, t).1[0] == (Command::WaitMotion {
            item: st.boss(),
        }),
        s.ready_go && st.controllable && s.boss.attack_kind == 0 ==> quiet_from(
            run_spec(st, s, t).1,
            1,
        ),
        s.ready_go && st.controllable && s.boss.attack_kind != 0 ==> {
            &&& run_spec(st, s, t).1[1] == (Command::ChangeStatus {
                object: Object::Item(st.boss()),
                status: s.boss.attack_kind,
                clear_buffer: false,
            })
            &&& run_spec(st, s, t).1[2] == (Command::ClearAttackKind { item: st.boss() })
            &&& quiet_from(run_spec(st, s, t).1, 3)
        },
{
    let c1 = crate::marx::queued_attack(st, s);
    let c2 = fast_entry(st, s, t);
    let (st3, c3) = settle_spawn(st, s, t);
    let (st4, c4) = jump_start(st3, s);
    let c5 = tether(st4, s, t);
    let (st6, c6) = take_hit(st4, s, t);
    let c7 = last_rites(st6, s, t);
    lemma_parts_quiet(st, s, t);
    lemma_parts_quiet(st3, s, t);
    lemma_parts_quiet(st4, s, t);
    lemma_parts_quiet(st6, s, t);
    lemma_tether_quiet(st4, s, t);
    let from: int = if !(s.ready_go && st.controllable) {
        0
    } else if s.boss.attack_kind == 0 {
        1
    } else {
        3
    };
    assert(from == c1.len());
    assert(quiet_from(c1, from));
    lemma_quiet_concat(c1, c2, from);
    lemma_quiet_concat(c1 + c2, c3, from);
    lemma_quiet_concat(c1 + c2 + c3, c4, from);
    lemma_quiet_concat(c1 + c2 + c3 + c4, c5, from);
    lemma_quiet_concat(c1 + c2 + c3 + c4 + c5, c6, from);
    lemma_quiet_concat(c1 + c2 + c3 + c4 + c5 + c6, c7, from);
    let all = c1 + c2 + c3 + c4 + c5 + c6 + c7;
    assert(all == run_spec(st, s, t).1);
    if s.ready_go && st.controllable {
        assert(all[0] == c1[0]);
        if s.boss.attack_kind != 0 {
            assert(all[1] == c1[1]);
            assert(all[2] == c1[2]);
        }
    }
}

// ---------------------------------------------------------------------------
// The first frame of the match.

/// On the first frame of the match a living boss is turned to face the
/// stage: a boss facing left (-1) is turned to 90 degrees, one facing right
/// (1) to -90 degrees, and from then on it is not steerable until its first
/// recovery.  The turn happens once: on any other frame, before the match
/// and for a dead boss nothing is turned and nothing changes.
pub proof fn lemma_turned_on_the_first_frame(st: MarxModel, s: Sample)
    ensures
        !st.dead && s.ready_go && !st.jump_start ==> jump_start(st, s).0 == (MarxModel {
            jump_start: true,
            controllable: false,
            ..st
        }),
        !st.dead && s.ready_go && !st.jump_start && s.boss.lr.equals(m(MINUS_ONE)) ==> jump_start(
            st,
            s,
        ).1 == seq![Command::SetRotationY { item: st.boss(), degrees: m(FACE_RIGHT) }],
        !st.dead && s.ready_go && !st.jump_start && s.boss.lr.equals(m(ONE)) ==> jump_start(
            st,
            s,
        ).1 == seq![Command::SetRotationY { item: st.boss(), degrees: m(FACE_LEFT) }],
        !(s.boss.lr.equals(m(MINUS_ONE)) || s.boss.lr.equals(m(ONE))) ==> jump_start(st, s).1.len()
            == 0,
        !(!st.dead && s.ready_go && !st.jump_start) ==> jump_start(st, s) == (st, Seq::<Command>::empty()),
{
    let b = s.boss.lr;
    if b.equals(m(MINUS_ONE)) {
        assert(!b.equals(m(ONE)));
    }
    assert(Seq::<Command>::empty() + seq![Command::SetRotationY { item: st.boss(), degrees: m(FACE_LEFT) }]
        =~= seq![Command::SetRotationY { item: st.boss(), degrees: m(FACE_LEFT) }]);
    assert(seq![Command::SetRotationY { item: st.boss(), degrees: m(FACE_RIGHT) }] + Seq::<Command>::empty()
        =~= seq![Command::SetRotationY { item: st.boss(), degrees: m(FACE_RIGHT) }]);
}

/// The middle phase marks the match as begun for a living boss once the
/// match runs, and the mark stays until the next pre-match phase; the turn
/// it makes on the first frame is among the phase's commands.
pub proof fn lemma_match_begins_once(st: MarxModel, s: Sample, t: MarxKinds)
    ensures
        run_spec(st, s, t).0.jump_start == (st.jump_start || (!st.dead && s.ready_go)),
        !st.dead && s.ready_go && !st.jump_start && s.boss.lr.equals(m(ONE)) ==> run_spec(
            st,
            s,
            t,
        ).1.contains(Command::SetRotationY { item: st.boss(), degrees: m(FACE_LEFT) }),
        !st.dead && s.ready_go && !st.jump_start && s.boss.lr.equals(m(MINUS_ONE)) ==> run_spec(
            st,
            s,
            t,
        ).1.contains(Command::SetRotationY { item: st.boss(), degrees: m(FACE_RIGHT) }),
{
    let c1 = crate::marx::queued_attack(st, s);
    let c2 = fast_entry(st, s, t);
    let (st3, c3) = settle_spawn(st, s, t);
    let (st4, c4) = jump_start(st3, s);
    let c5 = tether(st4, s, t);
    let (st6, c6) = take_hit(st4, s, t);
    let c7 = last_rites(st6, s, t);
    lemma_turned_on_the_first_frame(st3, s);
    let all = c1 + c2 + c3 + c4 + c5 + c6 + c7;
    assert(all == run_spec(st, s, t).1);
    if !st.dead && s.ready_go && !st.jump_start && (s.boss.lr.equals(m(ONE)) || s.boss.lr.equals(
        m(MINUS_ONE),
    )) {
        let k: int = (c1 + c2 + c3).len() as int;
        assert(c4.len() == 1);
        assert((c1 + c2 + c3 + c4)[k] == c4[0]);
        assert(all[k] == c4[0]);
    }
}

// ---------------------------------------------------------------------------
// The pre-match phase.

/// Before the match every boss is revived, steerable and not yet turned; a
/// boss is spawned exactly when the fighter is not yet hidden at its tiny
/// scale, and a new boss asks for a new results-screen boss.  Once the match
/// runs the phase changes nothing.
pub proof fn lemma_prepare_revives(st: MarxModel, s: Sample)
    ensures
        !s.ready_go ==> {
            let r = prepare_spec(st, s);
            &&& !r.0.dead
            &&& r.0.controllable
            &&& !r.0.jump_start
            &&& r.1 == !s.scale.equals(m(HIDDEN_SCALE))
            &&& r.1 ==> !r.0.result_spawned
            &&& !r.1 ==> r.0.result_spawned == st.result_spawned
            &&& r.0.boss_ids == st.boss_ids && r.0.entry_id == st.entry_id
        },
        s.ready_go ==> prepare_spec(st, s) == (st, false),
{
}

// ---------------------------------------------------------------------------
// Recovery from an attack.

/// The statuses in which the boss's recovery is decided.
pub open spec fn recovery_statuses(t: MarxKinds) -> Seq<i32> {
    seq![
        t.item_wait,
        t.move_straight,
        t.item_standby,
        t.move_teleport,
        t.plant_grows,
        t.item_warp,
        t.avoid_teleport,
        t.facet_eye_laser_end,
        t.fly_out,
        t.thick_laser_end,
        t.black_hole_end,
        t.capillary_end,
        t.follow_eye_end,
        t.ice_bomb_shoot,
        t.four_cutter,
    ]
}

/// For a human player whose pad asks for nothing, whether the boss is
/// steerable after the last phase of a frame depends on its status and the
/// frame of its motion: waiting, moving straight or standing by it is
/// steerable; teleporting, warping or dodging by teleport it is steerable
/// exactly on frame 22, and while its plant grows exactly on frame 20; at
/// the end of the facet eye laser or a fly-out it becomes steerable on frame
/// 27, of the thick laser on frame 74, of the black hole on frame 14, of the
/// capillary and of the following eye on frame 10, while shooting ice bombs
/// on frame 22 and while the cutters fly on frame 34, and stays as it was on
/// the other frames; in every other status it stays as it was.
pub proof fn lemma_recovery_frames(st: MarxModel, boss: u32, s: Sample, t: MarxKinds)
    requires
        !s.cpu,
        !any_order(s, t),
        recovery_statuses(t).no_duplicates(),
    ensures
        ({
            let c = steer_spec(st, boss, s, t).0.controllable;
            let was = st.controllable;
            let status = s.boss.status;
            let f = s.boss.frame;
            &&& status == t.item_wait || status == t.move_straight || status == t.item_standby ==> c
            &&& status == t.move_teleport ==> c == f.equals(m(FRAME_22))
            &&& status == t.plant_grows ==> c == f.equals(m(FRAME_20))
            &&& status == t.item_warp ==> c == f.equals(m(FRAME_22))
            &&& status == t.avoid_teleport ==> c == f.equals(m(FRAME_22))
            &&& status == t.facet_eye_laser_end ==> c == (was || f.equals(m(FRAME_27)))
            &&& status == t.fly_out ==> c == (was || f.equals(m(FRAME_27)))
            &&& status == t.thick_laser_end ==> c == (was || f.equals(m(FRAME_74)))
            &&& status == t.black_hole_end ==> c == (was || f.equals(m(FRAME_14)))
            &&& status == t.capillary_end ==> c == (was || f.equals(m(FRAME_10)))
            &&& status == t.follow_eye_end ==> c == (was || f.equals(m(FRAME_10)))
            &&& status == t.ice_bomb_shoot ==> c == (was || f.equals(m(FRAME_22)))
            &&& status == t.four_cutter ==> c == (was || f.equals(m(FRAME_34)))
            &&& !recovery_statuses(t).contains(status) ==> c == was
        }),
{
    let r = recovery_statuses(t);
    assert(r[0] == t.item_wait && r[1] == t.move_straight && r[2] == t.item_standby);
    assert(r[3] == t.move_teleport && r[4] == t.plant_grows && r[5] == t.item_warp);
    assert(r[6] == t.avoid_teleport && r[7] == t.facet_eye_laser_end && r[8] == t.fly_out);
    assert(r[9] == t.thick_laser_end && r[10] == t.black_hole_end && r[11] == t.capillary_end);
    assert(r[12] == t.follow_eye_end && r[13] == t.ice_bomb_shoot && r[14] == t.four_cutter);
}

// ---------------------------------------------------------------------------
// The pad's orders.

/// The attack each input starts on a steerable boss, by the inputs'
/// positions: special plants, jump throws the cutters, guard teleports,
/// attack drops ice bombs; the down, up and side special commands start the
/// capillary, the thick laser and the facet eye laser, the down, up and side
/// tilts the black hole, the following eye and the homing fly-out; the
/// taunts start nothing.
pub open spec fn marx_move(t: MarxKinds, i: int) -> Option<i32> {
    if i == 0 {
        Some(t.plant_start)
    } else if i == 1 {
        Some(t.four_cutter)
    } else if i == 2 {
        Some(t.move_teleport)
    } else if i == 3 {
        Some(t.ice_bomb_start)
    } else if i == 7 {
        Some(t.capillary_start)
    } else if i == 8 {
        Some(t.thick_laser_start)
    } else if i == 9 {
        Some(t.facet_eye_laser_start)
    } else if i == 10 {
        Some(t.black_hole_ready)
    } else if i == 11 {
        Some(t.follow_eye_start)
    } else if i == 12 {
        Some(t.fly_out_homing)
    } else {
        None
    }
}

/// Each input held alone starts its own attack and nothing else, and with
/// no input held the pad starts nothing.
pub proof fn lemma_each_input_its_attack(boss: u32, s: Sample, t: MarxKinds, i: int)
    ensures
        only_input(s.pad, t.flags, i) ==> orders(boss, s, t) == start_attack(boss, marx_move(t, i)),
        no_input(s.pad, t.flags) ==> orders(boss, s, t).len() == 0,
{
    if only_input(s.pad, t.flags, i) {
        lemma_inputs_known(s.pad, t.flags, i);
        assert(orders(boss, s, t) =~= start_attack(boss, marx_move(t, i)));
    }
    if no_input(s.pad, t.flags) {
        lemma_no_input_known(s.pad, t.flags);
        assert(orders(boss, s, t) =~= Seq::<Command>::empty());
    }
}

// ---------------------------------------------------------------------------
// The entry and the settling after it.

/// While the fighter hides in the boss and the boss plays its entry, the
/// entry's motion and animation play at five times their speed; otherwise
/// their speed is left alone.
pub proof fn lemma_entry_plays_fast(st: MarxModel, s: Sample, t: MarxKinds)
    ensures
        s.scale.equals(m(HIDDEN_SCALE)) && s.boss.status == t.item_entry ==> fast_entry(st, s, t)
            == seq![
            Command::SetMotionRate { item: st.boss(), rate: m(ENTRY_SPEED) },
            Command::SetFixRate { item: st.boss(), rate: m(ENTRY_SPEED) },
        ],
        !(s.scale.equals(m(HIDDEN_SCALE)) && s.boss.status == t.item_entry) ==> fast_entry(st, s, t).len()
            == 0,
{
}

/// Once the match runs, a steerable human's boss that is not waiting is sent
/// to wait, and stays steerable; a computer's is sent to wait only from its
/// entry, and is no longer steerable.  A boss that waits already, one that is
/// not steerable, and every boss before the match are left alone.
pub proof fn lemma_spawn_settles(st: MarxModel, s: Sample, t: MarxKinds)
    ensures
        s.ready_go && st.controllable && s.boss.status != t.item_wait && !s.cpu ==> settle_spawn(
            st,
            s,
            t,
        ) == (st, seq![
            Command::ChangeStatus { object: Object::Item(st.boss()), status: t.item_wait, clear_buffer: true },
        ]),
        s.ready_go && st.controllable && s.boss.status != t.item_wait && s.cpu ==> settle_spawn(
            st,
            s,
            t,
        ).0 == (MarxModel { controllable: false, ..st }),
        s.ready_go && st.controllable && s.cpu && s.boss.status == t.item_entry && t.item_entry
            != t.item_wait ==> settle_spawn(st, s, t).1 == seq![
            Command::ChangeStatus { object: Object::Item(st.boss()), status: t.item_wait, clear_buffer: true },
        ],
        s.cpu && s.boss.status != t.item_entry ==> settle_spawn(st, s, t).1.len() == 0,
        !(s.ready_go && st.controllable && s.boss.status != t.item_wait) ==> settle_spawn(st, s, t)
            == (st, Seq::<Command>::empty()),
{
}

// ---------------------------------------------------------------------------
// Hits on the boss.

/// Whether the boss is in one of its eye attacks, where a hit costs little.
pub open spec fn in_eye_attack(status: i32, t: MarxKinds) -> bool {
    status == t.follow_eye_start || status == t.follow_eye_loop || status == t.follow_eye_end
        || status == t.facet_eye_laser_start || status == t.facet_eye_laser || status
        == t.facet_eye_laser_end
}

/// Every frame the boss ignores damage and the fighter is intangible.  A hit
/// on the boss costs the fighter 4.1 damage and ends both hit-stops, or only
/// 0.1 during the eye attacks; it kills a living boss, which is then no
/// longer steerable, when the fighter is below one hit point in a match with
/// hit points or at 359% damage in a stock match.  Without a hit nothing
/// else happens.
pub proof fn lemma_hits_cost_the_fighter(st: MarxModel, s: Sample, t: MarxKinds)
    ensures
        take_hit(st, s, t).1.len() >= 2,
        take_hit(st, s, t).1[0] == (Command::LockDamage { item: st.boss() }),
        take_hit(st, s, t).1[1] == Command::Intangible,
        !s.boss.hit ==> take_hit(st, s, t).1.len() == 2 && take_hit(st, s, t).0 == st,
        s.boss.hit ==> take_hit(st, s, t).0.dead == (st.dead || (s.hp_mode && s.damage.below(m(ONE)))
            || (!s.hp_mode && s.damage.at_least(m(DAMAGE_LIMIT)))),
        s.boss.hit && take_hit(st, s, t).0.dead && !st.dead ==> {
            &&& !take_hit(st, s, t).0.controllable
            &&& take_hit(st, s, t).1[2] == (Command::ChangeStatus {
                object: Object::Item(st.boss()),
                status: t.item_dead,
                clear_buffer: true,
            })
            &&& take_hit(st, s, t).1[3] == (Command::AddDamage {
                amount: if in_eye_attack(s.boss.status, t) {
                    m(GUARDED_DAMAGE)
                } else {
                    m(HIT_DAMAGE)
                },
            })
        },
        s.boss.hit && !(take_hit(st, s, t).0.dead && !st.dead) ==> {
            &&& take_hit(st, s, t).0 == st
            &&& take_hit(st, s, t).1[2] == (Command::AddDamage {
                amount: if in_eye_attack(s.boss.status, t) {
                    m(GUARDED_DAMAGE)
                } else {
                    m(HIT_DAMAGE)
                },
            })
        },
        s.boss.hit && in_eye_attack(s.boss.status, t) ==> take_hit(st, s, t).1.last() == (
        Command::AddDamage { amount: m(GUARDED_DAMAGE) }),
        s.boss.hit && !in_eye_attack(s.boss.status, t) ==> {
            let c = take_hit(st, s, t).1;
            let k = if take_hit(st, s, t).0.dead && !st.dead {
                3int
            } else {
                2int
            };
            &&& c.len() == k + 1 + (if s.fighter_stopped {
                1int
            } else {
                0int
            }) + (if s.boss.stopped {
                1int
            } else {
                0int
            })
            &&& s.fighter_stopped ==> c[k + 1] == (Command::EndStop { object: Object::Fighter })
            &&& s.boss.stopped ==> c.last() == (Command::EndStop { object: Object::Item(st.boss()) })
        },
{
}

/// A dead boss stands by once its motion has reached its last frame, and a
/// fighter with stocks left dies once its dead boss stands by; a living boss,
/// and every boss before the match, is left alone.
pub proof fn lemma_last_rites(st: MarxModel, s: Sample, t: MarxKinds)
    ensures
        !(st.dead && s.ready_go) ==> last_rites(st, s, t).len() == 0,
        st.dead && s.ready_go ==> {
            let c = last_rites(st, s, t);
            let ends = s.boss.frame.at_least(s.boss.end_frame);
            let falls = s.stock != 0 && s.boss.status == t.item_standby;
            let stand = Command::ChangeStatus {
                object: Object::Item(st.boss()),
                status: t.item_standby,
                clear_buffer: true,
            };
            let down = Command::ChangeStatus {
                object: Object::Fighter,
                status: t.fighter_dead,
                clear_buffer: true,
            };
            &&& ends && falls ==> c == seq![stand, down]
            &&& ends && !falls ==> c == seq![stand]
            &&& !ends && falls ==> c == seq![down]
            &&& !ends && !falls ==> c.len() == 0
        },
{
    let c = last_rites(st, s, t);
    let stand = Command::ChangeStatus {
        object: Object::Item(st.boss()),
        status: t.item_standby,
        clear_buffer: true,
    };
    let down = Command::ChangeStatus { object: Object::Fighter, status: t.fighter_dead, clear_buffer: true };
    assert(seq![stand] + seq![down] =~= seq![stand, down]);
    assert(seq![stand] + Seq::<Command>::empty() =~= seq![stand]);
    assert(Seq::<Command>::empty() + seq![down] =~= seq![down]);
}

// ---------------------------------------------------------------------------
// The fighter inside the boss, and the stage's bounds.

/// While the match runs and the fighter hides in its living boss, a fighter
/// that does not stand by is sent to stand by; one that stands by is put
/// back where the boss was, after the boss has been kept inside the stage.
/// Otherwise neither is touched.
pub proof fn lemma_fighter_stays_inside(st: MarxModel, s: Sample, t: MarxKinds)
    ensures
        !(!st.dead && s.ready_go && s.scale.equals(m(HIDDEN_SCALE))) ==> tether(st, s, t).len() == 0,
        !st.dead && s.ready_go && s.scale.equals(m(HIDDEN_SCALE)) && s.fighter_status
            != t.fighter_standby ==> tether(st, s, t) == seq![
            Command::ChangeStatus { object: Object::Fighter, status: t.fighter_standby, clear_buffer: true },
        ],
        !st.dead && s.ready_go && s.scale.equals(m(HIDDEN_SCALE)) && s.fighter_status
            == t.fighter_standby ==> tether(st, s, t) == keep_inside(
            st.boss(),
            s.boss.x,
            s.boss.y,
            s.boss.z,
        ) + seq![Command::SetPos { object: Object::Fighter, place: place_at(s.boss.x, s.boss.y, s.boss.z) }],
{
    let b = s.boss;
    assert(Seq::<Command>::empty() + (keep_inside(st.boss(), b.x, b.y, b.z) + seq![
        Command::SetPos { object: Object::Fighter, place: place_at(b.x, b.y, b.z) },
    ]) =~= keep_inside(st.boss(), b.x, b.y, b.z) + seq![
        Command::SetPos { object: Object::Fighter, place: place_at(b.x, b.y, b.z) },
    ]);
    assert(seq![
        Command::ChangeStatus { object: Object::Fighter, status: t.fighter_standby, clear_buffer: true },
    ] + Seq::<Command>::empty() =~= seq![
        Command::ChangeStatus { object: Object::Fighter, status: t.fighter_standby, clear_buffer: true },
    ]);
}

/// Where a boss is put back from each side of the stage: above the ceiling
/// onto the ceiling, below the floor onto the floor, keeping its x; past a
/// side wall as well, it is then put against that wall, at the wall height
/// (100) from above and on the floor from below.  Between the floor and the
/// ceiling a boss past the right wall is put on it, and one past the left
/// wall is put on it and, at the wall height or above, held at the wall
/// height.
pub proof fn lemma_put_back_inside(boss: u32, x: Measure, y: Measure, z: Measure)
    ensures
        y.at_least(m(CEILING)) && m(LEFT_WALL).below(x) && x.below(m(RIGHT_WALL)) ==> keep_inside(
            boss,
            x,
            y,
            z,
        ) == move_both(boss, place_at(x, m(CEILING), z)),
        y.at_least(m(CEILING)) && x.at_least(m(RIGHT_WALL)) ==> keep_inside(boss, x, y, z)
            == move_both(boss, place_at(x, m(CEILING), z)) + move_both(
            boss,
            place_at(m(RIGHT_WALL), m(WALL_HEIGHT), z),
        ),
        y.at_least(m(CEILING)) && x.at_most(m(LEFT_WALL)) ==> keep_inside(boss, x, y, z)
            == move_both(boss, place_at(x, m(CEILING), z)) + move_both(
            boss,
            place_at(m(LEFT_WALL), m(WALL_HEIGHT), z),
        ),
        y.at_most(m(FLOOR)) && m(LEFT_WALL).below(x) && x.below(m(RIGHT_WALL)) ==> keep_inside(
            boss,
            x,
            y,
            z,
        ) == move_both(boss, place_at(x, m(FLOOR), z)),
        y.at_most(m(FLOOR)) && x.at_least(m(RIGHT_WALL)) ==> keep_inside(boss, x, y, z) == move_both(
            boss,
            place_at(x, m(FLOOR), z),
        ) + move_both(boss, place_at(m(RIGHT_WALL), m(FLOOR), z)),
        y.at_most(m(FLOOR)) && x.at_most(m(LEFT_WALL)) ==> keep_inside(boss, x, y, z) == move_both(
            boss,
            place_at(x, m(FLOOR), z),
        ) + move_both(boss, place_at(m(LEFT_WALL), m(FLOOR), z)),
        m(FLOOR).below(y) && y.below(m(CEILING)) && x.at_least(m(RIGHT_WALL)) ==> keep_inside(
            boss,
            x,
            y,
            z,
        ) == move_both(boss, place_at(m(RIGHT_WALL), y, z)),
        m(FLOOR).below(y) && y.below(m(CEILING)) && x.at_most(m(LEFT_WALL)) && y.at_least(
            m(WALL_HEIGHT),
        ) ==> keep_inside(boss, x, y, z) == move_both(boss, place_at(m(LEFT_WALL), y, z)) + move_both(
            boss,
            place_at(m(LEFT_WALL), m(WALL_HEIGHT), z),
        ),
        m(FLOOR).below(y) && y.below(m(CEILING)) && x.at_most(m(LEFT_WALL)) && y.below(
            m(WALL_HEIGHT),
        ) ==> keep_inside(boss, x, y, z) == move_both(boss, place_at(m(LEFT_WALL), y, z)),
{
    let e = Seq::<Command>::empty();
    let a = move_both(boss, place_at(x, m(CEILING), z));
    let b = move_both(boss, place_at(x, m(FLOOR), z));
    assert(a + e + e =~= a);
    assert(b + e + e =~= b);
    assert(a + move_both(boss, place_at(m(RIGHT_WALL), m(WALL_HEIGHT), z)) + e =~= a + move_both(
        boss,
        place_at(m(RIGHT_WALL), m(WALL_HEIGHT), z),
    ));
    assert(a + e + move_both(boss, place_at(m(LEFT_WALL), m(WALL_HEIGHT), z)) =~= a + move_both(
        boss,
        place_at(m(LEFT_WALL), m(WALL_HEIGHT), z),
    ));
    assert(b + move_both(boss, place_at(m(RIGHT_WALL), m(FLOOR), z)) + e =~= b + move_both(
        boss,
        place_at(m(RIGHT_WALL), m(FLOOR), z),
    ));
    assert(b + e + move_both(boss, place_at(m(LEFT_WALL), m(FLOOR), z)) =~= b + move_both(
        boss,
        place_at(m(LEFT_WALL), m(FLOOR), z),
    ));
    let l = move_both(boss, place_at(m(LEFT_WALL), y, z));
    assert(l + e =~= l);
}

// ---------------------------------------------------------------------------
// Steering.

/// The stick's steering along one axis: a stick within the dead zone
/// (-0.001 to 0.001) moves the boss twice by its tilt times the gain, a stick
/// tilted past it once, and a NaN tilt not at all; every move is by the
/// stick's tilt, along that axis, times that gain.
pub proof fn lemma_stick_steering(boss: u32, axis: Axis, stick: Measure, gain: Measure)
    ensures
        ({
            let c = nudges(boss, axis, stick, gain);
            &&& forall|i: int| 0 <= i < c.len() ==> #[trigger] c[i] == (Command::Nudge {
                item: boss,
                axis,
                stick,
                gain,
                squared: false,
            })
            &&& stick.at_least(m(MINUS_STICK_DEAD_ZONE)) && stick.at_most(m(STICK_DEAD_ZONE)) ==> c.len()
                == 2
            &&& (m(STICK_DEAD_ZONE).below(stick) || stick.below(m(MINUS_STICK_DEAD_ZONE))) ==> c.len()
                == 1
            &&& stick.is_nan() ==> c.len() == 0
        }),
{
}

/// The statuses in which the boss acts on its own within its status.
pub open spec fn acting_statuses(t: MarxKinds) -> Seq<i32> {
    seq![t.item_standby, t.fly_out_homing, t.four_cutter, t.ice_bomb_loop, t.thick_laser_loop]
}

/// What the boss does within its status, whoever steers it: standing by it is
/// sent to wait; in a homing fly-out it is steered sideways at 1.75 and the
/// special button ends the fly-out; while the cutters fly it is steered at
/// 0.75, and while ice bombs drop or the thick laser fires at 1.0; in any
/// other status it does nothing of its own.
pub proof fn lemma_moves_within_status(boss: u32, s: Sample, t: MarxKinds)
    requires
        acting_statuses(t).no_duplicates(),
    ensures
        s.boss.status == t.item_standby ==> status_commands(boss, s, t) == seq![
            Command::ChangeStatus { object: Object::Item(boss), status: t.item_wait, clear_buffer: true },
        ],
        s.boss.status == t.fly_out_homing && s.pad.special ==> status_commands(boss, s, t) == nudges(
            boss,
            Axis::X,
            s.pad.stick_x,
            m(FLY_OUT_GAIN),
        ) + seq![Command::ChangeStatus { object: Object::Item(boss), status: t.fly_out, clear_buffer: true }],
        s.boss.status == t.fly_out_homing && !s.pad.special ==> status_commands(boss, s, t) == nudges(
            boss,
            Axis::X,
            s.pad.stick_x,
            m(FLY_OUT_GAIN),
        ),
        s.boss.status == t.four_cutter ==> status_commands(boss, s, t) == nudges(
            boss,
            Axis::X,
            s.pad.stick_x,
            m(CUTTER_GAIN),
        ) + nudges(boss, Axis::Y, s.pad.stick_y, m(CUTTER_GAIN)),
        s.boss.status == t.ice_bomb_loop || s.boss.status == t.thick_laser_loop ==> status_commands(
            boss,
            s,
            t,
        ) == nudges(boss, Axis::X, s.pad.stick_x, m(ONE)) + nudges(boss, Axis::Y, s.pad.stick_y, m(ONE)),
        !acting_statuses(t).contains(s.boss.status) ==> status_commands(boss, s, t).len() == 0,
{
    let r = acting_statuses(t);
    assert(r[0] == t.item_standby && r[1] == t.fly_out_homing && r[2] == t.four_cutter);
    assert(r[3] == t.ice_bomb_loop && r[4] == t.thick_laser_loop);
    let e = Seq::<Command>::empty();
    let w = seq![Command::ChangeStatus { object: Object::Item(boss), status: t.item_wait, clear_buffer: true }];
    assert(w + e + e + e + e =~= w);
    let h = nudges(boss, Axis::X, s.pad.stick_x, m(FLY_OUT_GAIN));
    let o = seq![Command::ChangeStatus { object: Object::Item(boss), status: t.fly_out, clear_buffer: true }];
    assert(e + (h + o) + e + e + e =~= h + o);
    assert(e + (h + e) + e + e + e =~= h);
    let cx = nudges_xy(boss, s, m(CUTTER_GAIN));
    assert(e + e + cx + e + e =~= cx);
    let ox = nudges_xy(boss, s, m(ONE));
    assert(e + e + e + ox + e =~= ox);
    assert(e + e + e + e + ox =~= ox);
    assert(e + e + e + e + e =~= e);
}

/// For a human player the last phase always starts by making the boss's
/// attacks 1.5 times as strong; a steerable living boss then also follows
/// the stick at 2.2 on both axes, after what it does within its status and
/// before the attacks the pad asks for.
pub proof fn lemma_free_boss_follows_the_stick(st: MarxModel, boss: u32, s: Sample, t: MarxKinds)
    ensures
        steer_spec(st, boss, s, t).1[0] == (Command::PowerMul { item: boss, factor: m(POWER) }),
        !s.cpu && no_input(s.pad, t.flags) && !st.dead && steer_spec(st, boss, s, t).0.controllable
            ==> steer_spec(st, boss, s, t).1 == seq![
            Command::PowerMul { item: boss, factor: m(POWER) },
        ] + status_commands(boss, s, t) + nudges(boss, Axis::X, s.pad.stick_x, m(FREE_GAIN)) + nudges(
            boss,
            Axis::Y,
            s.pad.stick_y,
            m(FREE_GAIN),
        ),
{
    if !s.cpu && no_input(s.pad, t.flags) && !st.dead && steer_spec(st, boss, s, t).0.controllable {
        lemma_each_input_its_attack(boss, s, t, 0);
        lemma_no_input_known(s.pad, t.flags);
        let head = seq![Command::PowerMul { item: boss, factor: m(POWER) }];
        let w = status_commands(boss, s, t);
        let nx = nudges(boss, Axis::X, s.pad.stick_x, m(FREE_GAIN));
        let ny = nudges(boss, Axis::Y, s.pad.stick_y, m(FREE_GAIN));
        assert(head + w + (nx + ny) + Seq::<Command>::empty() =~= head + w + nx + ny);
    }
}

/// The middle phase as a whole: the boss dies of a lethal hit and of nothing
/// else, and a boss for the results screen is asked for exactly when the
/// results screen shows and none has been asked for yet.
pub proof fn lemma_middle_phase(st: MarxModel, s: Sample, t: MarxKinds)
    ensures
        run_spec(st, s, t).0.dead == (st.dead || (s.boss.hit && ((s.hp_mode && s.damage.below(m(ONE)))
            || (!s.hp_mode && s.damage.at_least(m(DAMAGE_LIMIT)))))),
        run_spec(st, s, t).2 == (s.result_mode && !st.result_spawned),
        run_spec(st, s, t).0.result_spawned == (st.result_spawned || s.result_mode),
        run_spec(st, s, t).0.boss_ids == st.boss_ids,
        run_spec(st, s, t).0.entry_id == st.entry_id,
{
}

} // verus!
