//! What a Dracula frame promises, over every state and every sample.
use vstd::prelude::*;

use crate::command::{
    lemma_inputs_known, lemma_no_input_known, no_input, only_input, place_at, start_attack, Axis,
    Command, Coord, Object, Place, Sample,
};
use crate::dracula::{
    enter_boss_commands, guard_phase, second_form_phase, back_to_wait, command_first, command_second, fighter_down, human_deaths, human_hits, human_orders, settle_cpu_spec,
    settle_human_spec, first_orders, follow_spec, guard_spec, hold, kick, last_stock,
    prepare_cpu_spec, prepare_human_spec, prepare_phase, punish, release, ride_place, second_orders,
    steps, DraculaFrame, DraculaKinds, DraculaModel, DraculaPhase, CHANGE_DAMAGE, DEATH_DAMAGE,
    FINAL_DAMAGE, FOLLOW_CEILING, FOLLOW_FLOOR, FOLLOW_LEFT, FOLLOW_RIGHT, HIT_DAMAGE, HOLD_FRAME,
    MINUS_STEP_GAIN, RIDE_HEIGHT, SPAWN_FRAME, STEP_GAIN,
};
use crate::measure::{m, Measure, HIDDEN_SCALE, MINUS_ONE, MINUS_STICK_DEAD_ZONE, ONE, STICK_DEAD_ZONE, ZERO};

verus! {

// ---------------------------------------------------------------------------
// The pre-match spawn.

/// Once the fighter's entry reaches its spawn frame before the match, a new
/// boss is spawned for a computer and for a human alike, and it starts
/// alive, in its first form, not held, with its entry still to play; the
/// spawn is entered next.  A human's new boss also takes orders, is to be
/// sent to wait once, and the match counts as not started; a computer's
/// keeps those marks.  Otherwise nothing is spawned and only the frame's
/// record changes: it names the player, the entry's boss and the guard phase
/// as next.
pub proof fn lemma_spawn_revives(st: DraculaModel, s: Sample)
    ensures
        s.fighter_frame.at_least(m(SPAWN_FRAME)) && !s.ready_go ==> {
            let r = prepare_phase(st, s);
            &&& r.1
            &&& !r.0.is_boss_dead
            &&& !r.0.transformed_mode
            &&& !r.0.transitioning
            &&& !r.0.have_item
            &&& !r.0.entrance_anim
            &&& r.0.frame.phase == DraculaPhase::EnterBoss
            &&& r.0.frame.cpu == s.cpu
            &&& r.0.frame.boss == st.boss()
            &&& r.0.boss_ids == st.boss_ids
            &&& r.0.entry_id == st.entry_id
            &&& !s.cpu ==> r.0.stop_control_loop && !r.0.kickstart_anim_begin && !r.0.game_start
            &&& s.cpu ==> r.0.stop_control_loop == st.stop_control_loop && r.0.kickstart_anim_begin
                == st.kickstart_anim_begin && r.0.game_start == st.game_start
        },
        !(s.fighter_frame.at_least(m(SPAWN_FRAME)) && !s.ready_go) ==> prepare_phase(st, s) == (
        DraculaModel {
            frame: DraculaFrame {
                cpu: s.cpu,
                boss: st.boss(),
                phase: DraculaPhase::Guard,
                ..st.frame
            },
            ..st
        },
        false,
    ),
{
    reveal(prepare_cpu_spec);
    reveal(prepare_human_spec);
}

// ---------------------------------------------------------------------------
// The pad's orders.

/// The attack each input starts in the first form, by the inputs' positions:
/// special fires three ways, guard teleports, attack fills; the down, up and
/// side special commands rush, raise pillars and fire straight, and each
/// tilt attack turns and fires three ways; jump and the taunts start nothing.
pub open spec fn first_form_move(t: DraculaKinds, i: int) -> Option<i32> {
    if i == 0 {
        Some(t.three_way_start)
    } else if i == 2 {
        Some(t.teleport_start)
    } else if i == 3 {
        Some(t.fill_start)
    } else if i == 7 {
        Some(t.rush_start)
    } else if i == 8 {
        Some(t.pillar_start)
    } else if i == 9 {
        Some(t.straight_start)
    } else if 10 <= i <= 12 {
        Some(t.turn_three_way_start)
    } else {
        None
    }
}

/// The attack each input starts in the second form, by the inputs'
/// positions: special strikes, jump turns, guard teleports, attack slashes;
/// the up, side and down taunts send a shock wave, slash three times and
/// turn with a slash; the down, up and side special commands step with a
/// slash, fire homing shots and jump forward; the down, up and side tilts
/// fire shots, squash and jump back.
pub open spec fn second_form_move(t: DraculaKinds, i: int) -> Option<i32> {
    if i == 0 {
        Some(t.second_strike)
    } else if i == 1 {
        Some(t.second_turn)
    } else if i == 2 {
        Some(t.teleport_start)
    } else if i == 3 {
        Some(t.second_slash)
    } else if i == 4 {
        Some(t.second_shock_wave)
    } else if i == 5 {
        Some(t.second_slash_three)
    } else if i == 6 {
        Some(t.second_turn_slash)
    } else if i == 7 {
        Some(t.second_step_slash)
    } else if i == 8 {
        Some(t.second_homing_shot_start)
    } else if i == 9 {
        Some(t.second_front_jump)
    } else if i == 10 {
        Some(t.second_fire_shot_start)
    } else if i == 11 {
        Some(t.second_squash_start)
    } else if i == 12 {
        Some(t.second_back_jump)
    } else {
        None
    }
}

/// In the first form each input held alone starts its own attack and
/// nothing else, and with no input held the pad starts nothing.
pub proof fn lemma_first_form_inputs(boss: u32, s: Sample, t: DraculaKinds, i: int)
    ensures
        only_input(s.pad, t.flags, i) ==> first_orders(boss, s, t) == start_attack(
            boss,
            first_form_move(t, i),
        ),
        no_input(s.pad, t.flags) ==> first_orders(boss, s, t).len() == 0,
{
    if only_input(s.pad, t.flags, i) {
        lemma_inputs_known(s.pad, t.flags, i);
        assert(first_orders(boss, s, t) =~= start_attack(boss, first_form_move(t, i)));
    }
    if no_input(s.pad, t.flags) {
        lemma_no_input_known(s.pad, t.flags);
        assert(first_orders(boss, s, t) =~= Seq::<Command>::empty());
    }
}

/// In the second form each input held alone starts its own attack and
/// nothing else, and with no input held the pad starts nothing.
pub proof fn lemma_second_form_inputs(boss: u32, s: Sample, t: DraculaKinds, i: int)
    ensures
        only_input(s.pad, t.flags, i) ==> second_orders(boss, s, t) == start_attack(
            boss,
            second_form_move(t, i),
        ),
        no_input(s.pad, t.flags) ==> second_orders(boss, s, t).len() == 0,
{
    if only_input(s.pad, t.flags, i) {
        lemma_inputs_known(s.pad, t.flags, i);
        assert(second_orders(boss, s, t) =~= start_attack(boss, second_form_move(t, i)));
    }
    if no_input(s.pad, t.flags) {
        lemma_no_input_known(s.pad, t.flags);
        assert(second_orders(boss, s, t) =~= Seq::<Command>::empty());
    }
}

// ---------------------------------------------------------------------------
// The fighter riding along.

/// Once the match runs, a fighter that holds its boss falls helplessly and is
/// put where it rides along: 30 above the boss while the boss is inside the
/// limits, on the ceiling (145) or the floor (-100) when the boss is past
/// one, keeping the boss's x, and else on the right (175) or left (-175)
/// limit when the boss is past one, keeping its height.  Before the match, or
/// without its boss, the fighter is left alone.
pub proof fn lemma_fighter_rides_along(st: DraculaModel, s: Sample, t: DraculaKinds)
    ensures
        st.have_item && s.ready_go ==> follow_spec(st, s, t) == seq![
            Command::ChangeStatus { object: Object::Fighter, status: t.fighter_fall_special, clear_buffer: true },
            Command::SetPos { object: Object::Fighter, place: ride_place(s.boss.x, s.boss.y, s.boss.z) },
        ],
        !(st.have_item && s.ready_go) ==> follow_spec(st, s, t).len() == 0,
{
}

/// Where the fighter rides, from the boss's position (x, y, z).
pub proof fn lemma_ride_place(x: Measure, y: Measure, z: Measure)
    ensures
        y.at_least(m(FOLLOW_CEILING)) ==> ride_place(x, y, z) == place_at(x, m(FOLLOW_CEILING), z),
        y.at_most(m(FOLLOW_FLOOR)) ==> ride_place(x, y, z) == place_at(x, m(FOLLOW_FLOOR), z),
        m(FOLLOW_FLOOR).below(y) && y.below(m(FOLLOW_CEILING)) && x.at_least(m(FOLLOW_RIGHT)) ==> ride_place(
            x,
            y,
            z,
        ) == place_at(m(FOLLOW_RIGHT), y, z),
        m(FOLLOW_FLOOR).below(y) && y.below(m(FOLLOW_CEILING)) && x.at_most(m(FOLLOW_LEFT)) ==> ride_place(
            x,
            y,
            z,
        ) == place_at(m(FOLLOW_LEFT), y, z),
        m(FOLLOW_FLOOR).below(y) && y.below(m(FOLLOW_CEILING)) && m(FOLLOW_LEFT).below(x) && x.below(
            m(FOLLOW_RIGHT),
        ) ==> ride_place(x, y, z) == (Place {
            x: Coord::At(x),
            y: Coord::Raised(y, m(RIDE_HEIGHT)),
            z: Coord::At(z),
        }),
{
}

// ---------------------------------------------------------------------------
// Hits, deaths and the change of form.

/// Every frame the boss ignores damage and the fighter is intangible twice
/// over.  A hit on the first form at 199% damage or more kills it unless it
/// is dead already, and marks the change as under way; once the change is
/// under way and the boss is neither dead nor starting its change, Dracula
/// changes form: the fighter and the boss are put at the boss's x and z at
/// height zero, the first form stands by, and the second form is to be
/// spawned at that place.  Without such a hit nothing else happens.
pub proof fn lemma_change_of_form(st: DraculaModel, boss: u32, s: Sample, t: DraculaKinds)
    ensures
        ({
            let r = guard_spec(st, boss, s, t);
            let b = s.boss;
            let due = b.hit && !st.transformed_mode && s.damage.at_least(m(CHANGE_DAMAGE));
            let anchor = place_at(b.x, m(ZERO), b.z);
            &&& r.1.len() >= 3
            &&& r.1[0] == (Command::LockDamage { item: boss })
            &&& r.1[1] == Command::ScriptIntangible
            &&& r.1[2] == Command::Intangible
            &&& !due ==> r.0 == st && r.1.len() == 3 && r.2 is None
            &&& due && b.status == t.item_dead ==> r.0 == st && r.1.len() == 3 && r.2 is None
            &&& due && b.status != t.item_dead ==> r.0.transitioning && r.1[3] == (Command::ChangeStatus {
                object: Object::Item(boss),
                status: t.item_dead,
                clear_buffer: true,
            })
            &&& due && b.status == t.change_start && t.change_start != t.item_dead ==> r.2 is None
                && r.1.len() == 4 && r.0 == (DraculaModel { transitioning: true, ..st })
            &&& due && b.status != t.item_dead && b.status != t.change_start ==> {
                &&& r.2 == Some(anchor)
                &&& r.0 == (DraculaModel {
                    transitioning: true,
                    transformed_mode: true,
                    entrance_anim: false,
                    ..st
                })
                &&& r.1.len() == 7
                &&& r.1[4] == (Command::SetPos { object: Object::Fighter, place: anchor })
                &&& r.1[5] == (Command::SetPos { object: Object::Item(boss), place: anchor })
                &&& r.1[6] == (Command::ChangeStatus {
                    object: Object::Item(boss),
                    status: t.item_standby,
                    clear_buffer: true,
                })
            }
        }),
{
}

/// A hit on the boss costs the fighter 4.1 damage and ends the fighter's and
/// the boss's hit-stops; at 399% damage or more (or at exactly -1%) it kills
/// a living boss and its fighter first.  Without a hit nothing happens.
pub proof fn lemma_hits_on_dracula(st: DraculaModel, boss: u32, s: Sample, t: DraculaKinds)
    ensures
        !s.boss.hit ==> punish(st, boss, s, t) == (st, Seq::<Command>::empty()),
        s.boss.hit ==> {
            let r = punish(st, boss, s, t);
            let dies = !st.is_boss_dead && (s.damage.at_least(m(DEATH_DAMAGE)) || s.damage.equals(
                m(MINUS_ONE),
            ));
            let k = if dies {
                2int
            } else {
                0int
            };
            &&& r.0 == (DraculaModel { is_boss_dead: st.is_boss_dead || dies, ..st })
            &&& dies ==> r.1[0] == (Command::ChangeStatus {
                object: Object::Item(boss),
                status: t.item_dead,
                clear_buffer: true,
            }) && r.1[1] == (Command::ChangeStatus {
                object: Object::Fighter,
                status: t.fighter_dead,
                clear_buffer: true,
            })
            &&& r.1[k] == (Command::AddDamage { amount: m(HIT_DAMAGE) })
            &&& r.1.len() == k + 1 + (if s.fighter_stopped {
                1int
            } else {
                0int
            }) + (if s.boss.stopped {
                1int
            } else {
                0int
            })
            &&& s.fighter_stopped ==> r.1[k + 1] == (Command::EndStop { object: Object::Fighter })
            &&& s.boss.stopped ==> r.1.last() == (Command::EndStop { object: Object::Item(boss) })
        },
{
}

/// A fighter that died takes its living boss with it; once the boss is dead
/// during the match, a fighter with stocks left dies, is finished with 400%
/// damage, and the boss takes no more orders.
pub proof fn lemma_fall_together(st: DraculaModel, boss: u32, s: Sample, t: DraculaKinds)
    ensures
        s.fighter_status == t.fighter_dead && !st.is_boss_dead ==> fighter_down(st, boss, s, t) == (
        DraculaModel { is_boss_dead: true, ..st },
        seq![Command::ChangeStatus { object: Object::Item(boss), status: t.item_dead, clear_buffer: true }],
    ),
        !(s.fighter_status == t.fighter_dead && !st.is_boss_dead) ==> fighter_down(st, boss, s, t) == (
        st,
        Seq::<Command>::empty(),
    ),
        st.is_boss_dead && s.ready_go && s.stock != 0 ==> last_stock(st, s, t) == (
        DraculaModel { stop_control_loop: false, ..st },
        seq![
            Command::ChangeStatus { object: Object::Fighter, status: t.fighter_dead, clear_buffer: true },
            Command::AddDamage { amount: m(FINAL_DAMAGE) },
        ],
    ),
        !(st.is_boss_dead && s.ready_go && s.stock != 0) ==> last_stock(st, s, t) == (
        st,
        Seq::<Command>::empty(),
    ),
        hold(st, s).have_item == (st.have_item || (s.ready_go && s.fighter_frame.at_least(
            m(HOLD_FRAME),
        ))),
        hold(st, s) == (DraculaModel { have_item: hold(st, s).have_item, ..st }),
{
}

// ---------------------------------------------------------------------------
// Taking orders.

/// Once the match has started, a living held boss that takes orders and is
/// busy (in none of its generic item statuses) is sent to the wait of its
/// form; an idle boss, and every other boss, is left alone.
pub proof fn lemma_busy_boss_waits(st: DraculaModel, boss: u32, s: Sample, t: DraculaKinds)
    ensures
        ({
            let x = s.boss.status;
            let idle = x == t.item_wait || x == t.item_entry || x == t.item_run || x == t.item_turn
                || x == t.item_none || x == t.item_jump || x == t.item_jump_air || x == t.item_fall
                || x == t.item_exit || x == t.item_pass_floor || x == t.item_start || x == t.item_term
                || x == t.item_landing || x == t.item_initialize;
            let ready = st.game_start && st.stop_control_loop && st.have_item && !st.is_boss_dead;
            &&& ready && !idle && !st.transformed_mode ==> back_to_wait(st, boss, s, t) == seq![
                Command::ChangeStatus { object: Object::Item(boss), status: t.item_wait, clear_buffer: true },
            ]
            &&& ready && !idle && st.transformed_mode ==> back_to_wait(st, boss, s, t) == seq![
                Command::ChangeStatus { object: Object::Item(boss), status: t.second_wait, clear_buffer: true },
            ]
            &&& !(ready && !idle) ==> back_to_wait(st, boss, s, t).len() == 0
        }),
{
}

/// What frees a held boss for new orders: its waits (the item's, the first
/// form's and the second form's), standing by in the first form, the end of
/// the pillar attack, and, at the last frame of its motion, the end of the
/// teleport, of the three-way, fill, rush, straight and turning three-way
/// attacks, and of the second form's squash (also with a turn), fire shot and
/// homing shot.  A first form that stands by is sent to the end of its
/// straight attack, and one at the end of the pillar attack is sent to
/// wait.  Nothing else frees the boss, and a boss not held is left alone.
pub proof fn lemma_statuses_free_the_boss(st: DraculaModel, boss: u32, s: Sample, t: DraculaKinds)
    ensures
        ({
            let r = release(st, boss, s, t);
            let x = s.boss.status;
            let end = s.boss.frame.equals(s.boss.end_frame);
            let standing = !st.transformed_mode && x == t.item_standby;
            let free = x == t.item_wait || x == t.wait || x == t.second_wait || standing || x
                == t.pillar_end || (end && (x == t.teleport_end || x == t.three_way_end || x
                == t.fill_end || x == t.rush_end || x == t.straight_end || x == t.turn_three_way_end
                || x == t.second_squash_end || x == t.second_squash_end_turn || x
                == t.second_fire_shot_end || x == t.second_homing_shot_end));
            let to_end = Command::ChangeStatus {
                object: Object::Item(boss),
                status: t.straight_end,
                clear_buffer: true,
            };
            let to_wait = Command::ChangeStatus {
                object: Object::Item(boss),
                status: t.item_wait,
                clear_buffer: true,
            };
            &&& !st.have_item ==> r == (st, Seq::<Command>::empty())
            &&& st.have_item ==> r.0 == (DraculaModel {
                stop_control_loop: st.stop_control_loop || free,
                ..st
            })
            &&& st.have_item && standing && x != t.pillar_end ==> r.1 == seq![to_end]
            &&& st.have_item && x == t.pillar_end && !standing ==> r.1 == seq![to_wait]
            &&& st.have_item && standing && x == t.pillar_end ==> r.1 == seq![to_end, to_wait]
            &&& !standing && x != t.pillar_end ==> r.1.len() == 0
        }),
{
    let to_end = Command::ChangeStatus { object: Object::Item(boss), status: t.straight_end, clear_buffer: true };
    let to_wait = Command::ChangeStatus { object: Object::Item(boss), status: t.item_wait, clear_buffer: true };
    assert(seq![to_end] + Seq::<Command>::empty() =~= seq![to_end]);
    assert(Seq::<Command>::empty() + seq![to_wait] =~= seq![to_wait]);
    assert(seq![to_end] + seq![to_wait] =~= seq![to_end, to_wait]);
}

/// A stick test sends the first form to wait: once for the first test of
/// the spawn, and once more whenever it is not waiting; the first test
/// marks the kick as done.  An untilted test does nothing.
pub proof fn lemma_kick(st: DraculaModel, boss: u32, s: Sample, t: DraculaKinds, tilted: bool)
    ensures
        ({
            let r = kick(st, boss, s, t, tilted);
            let w = Command::ChangeStatus { object: Object::Item(boss), status: t.wait, clear_buffer: true };
            &&& !tilted ==> r == (st, Seq::<Command>::empty())
            &&& tilted ==> r.0 == (DraculaModel { kickstart_anim_begin: true, ..st })
            &&& tilted && !st.kickstart_anim_begin && s.boss.status != t.wait ==> r.1 == seq![w, w]
            &&& tilted && !st.kickstart_anim_begin && s.boss.status == t.wait ==> r.1 == seq![w]
            &&& tilted && st.kickstart_anim_begin && s.boss.status != t.wait ==> r.1 == seq![w]
            &&& tilted && st.kickstart_anim_begin && s.boss.status == t.wait ==> r.1.len() == 0
        }),
{
    let w = Command::ChangeStatus { object: Object::Item(boss), status: t.wait, clear_buffer: true };
    let r = kick(st, boss, s, t, tilted);
    if tilted {
        if !st.kickstart_anim_begin && s.boss.status != t.wait {
            assert(r.1 =~= seq![w, w]);
        } else if !st.kickstart_anim_begin {
            assert(r.1 =~= seq![w]);
        } else if s.boss.status != t.wait {
            assert(r.1 =~= seq![w]);
        } else {
            assert(r.1 =~= Seq::<Command>::empty());
        }
    }
}

/// The second form's steps: a stick within the dead zone (-0.001 to 0.001)
/// steps by the square of its tilt both times -2 and times 2, a stick tilted
/// right of it only times 2, one tilted left of it only times -2, and a NaN
/// tilt not at all.
pub proof fn lemma_second_form_steps(boss: u32, s: Sample)
    ensures
        ({
            let x = s.pad.stick_x;
            let back = Command::Nudge { item: boss, axis: Axis::X, stick: x, gain: m(MINUS_STEP_GAIN), squared: true };
            let ahead = Command::Nudge { item: boss, axis: Axis::X, stick: x, gain: m(STEP_GAIN), squared: true };
            &&& x.at_least(m(MINUS_STICK_DEAD_ZONE)) && x.at_most(m(STICK_DEAD_ZONE)) ==> steps(boss, s)
                == seq![back, ahead]
            &&& m(STICK_DEAD_ZONE).below(x) ==> steps(boss, s) == seq![ahead]
            &&& x.below(m(MINUS_STICK_DEAD_ZONE)) ==> steps(boss, s) == seq![back]
            &&& x.is_nan() ==> steps(boss, s).len() == 0
        }),
{
    let x = s.pad.stick_x;
    let back = Command::Nudge { item: boss, axis: Axis::X, stick: x, gain: m(MINUS_STEP_GAIN), squared: true };
    let ahead = Command::Nudge { item: boss, axis: Axis::X, stick: x, gain: m(STEP_GAIN), squared: true };
    assert(seq![back] + seq![ahead] =~= seq![back, ahead]);
    assert(seq![back] + Seq::<Command>::empty() =~= seq![back]);
    assert(Seq::<Command>::empty() + seq![ahead] =~= seq![ahead]);
}

// ---------------------------------------------------------------------------
// The rest of a frame, as a whole.

/// Whether a hit on the boss kills it: at 399% damage or more, or at
/// exactly -1%.
pub open spec fn deadly_hit(s: Sample) -> bool {
    s.boss.hit && (s.damage.at_least(m(DEATH_DAMAGE)) || s.damage.equals(m(MINUS_ONE)))
}

/// The rest of a human's frame: the match start is noted as the sample
/// gives it; the boss counts as held from the fighter's hold frame in the
/// match on; before the match the boss takes orders again; the boss dies of
/// a deadly hit or with its fighter, and of nothing else; and a boss that
/// takes orders has its motion run at normal speed first.
pub proof fn lemma_human_frame(st: DraculaModel, boss: u32, s: Sample, t: DraculaKinds)
    ensures
        ({
            let r = settle_human_spec(st, boss, s, t);
            &&& r.0.game_start == s.ready_go
            &&& r.0.have_item == (st.have_item || (s.ready_go && s.fighter_frame.at_least(
                m(HOLD_FRAME),
            )))
            &&& !s.ready_go ==> r.0.stop_control_loop
            &&& r.0.is_boss_dead == (st.is_boss_dead || deadly_hit(s) || s.fighter_status
                == t.fighter_dead)
            &&& st.stop_control_loop ==> r.1.len() > 0 && r.1[0] == (Command::SetMotionRate {
                item: boss,
                rate: m(ONE),
            })
        }),
{
    let d = human_deaths(st, boss, s, t);
    let h = human_hits(d.0, boss, s, t);
    let o = human_orders(h.0, boss, s, t);
    lemma_human_deaths_part(st, boss, s, t);
    lemma_human_hits_part(d.0, boss, s, t);
    lemma_human_orders_part(h.0, boss, s, t);
    assert(settle_human_spec(st, boss, s, t).1 == d.1 + h.1 + o.1);
    if st.stop_control_loop {
        assert((d.1 + h.1 + o.1)[0] == d.1[0]);
    }
}

proof fn lemma_human_deaths_part(st: DraculaModel, boss: u32, s: Sample, t: DraculaKinds)
    ensures
        ({
            let d = human_deaths(st, boss, s, t);
            &&& d.0.game_start == s.ready_go
            &&& d.0.have_item == st.have_item
            &&& d.0.is_boss_dead == (st.is_boss_dead || s.fighter_status == t.fighter_dead)
            &&& st.stop_control_loop ==> d.1.len() > 0 && d.1[0] == (Command::SetMotionRate {
                item: boss,
                rate: m(ONE),
            })
        }),
{
    reveal(human_deaths);
}

proof fn lemma_human_hits_part(st: DraculaModel, boss: u32, s: Sample, t: DraculaKinds)
    ensures
        ({
            let h = human_hits(st, boss, s, t);
            &&& h.0.game_start == st.game_start
            &&& h.0.have_item == (st.have_item || (s.ready_go && s.fighter_frame.at_least(
                m(HOLD_FRAME),
            )))
            &&& h.0.is_boss_dead == (st.is_boss_dead || deadly_hit(s))
            &&& !s.ready_go ==> h.0.stop_control_loop
        }),
{
    reveal(human_hits);
}

proof fn lemma_human_orders_part(st: DraculaModel, boss: u32, s: Sample, t: DraculaKinds)
    ensures
        ({
            let o = human_orders(st, boss, s, t);
            &&& o.0.game_start == st.game_start
            &&& o.0.have_item == st.have_item
            &&& o.0.is_boss_dead == st.is_boss_dead
            &&& !s.ready_go && st.stop_control_loop ==> o.0.stop_control_loop
        }),
{
    reveal(human_orders);
}

/// A hit on a human's boss costs the fighter 4.1 damage, and an out-of-stock
/// fighter that does not stand by is sent to stand by.
pub proof fn lemma_human_hit_costs(st: DraculaModel, boss: u32, s: Sample, t: DraculaKinds)
    ensures
        s.boss.hit ==> settle_human_spec(st, boss, s, t).1.contains(
            Command::AddDamage { amount: m(HIT_DAMAGE) },
        ),
        s.stock == 0 && s.fighter_status != t.fighter_standby ==> settle_human_spec(st, boss, s, t).1.contains(
            Command::ChangeStatus { object: Object::Fighter, status: t.fighter_standby, clear_buffer: true },
        ),
{
    reveal(human_deaths);
    reveal(human_hits);
    let d = human_deaths(st, boss, s, t);
    let h = human_hits(d.0, boss, s, t);
    let o = human_orders(h.0, boss, s, t);
    let all = d.1 + h.1 + o.1;
    assert(settle_human_spec(st, boss, s, t).1 == all);
    let c5 = only_if_standby(s, t);
    let p = punish(d.0, boss, s, t);
    assert(h.1 == c5 + p.1);
    if s.boss.hit {
        lemma_hits_on_dracula(d.0, boss, s, t);
        let k: int = if !d.0.is_boss_dead && (s.damage.at_least(m(DEATH_DAMAGE)) || s.damage.equals(
            m(MINUS_ONE),
        )) {
            2
        } else {
            0
        };
        let i: int = d.1.len() + c5.len() + k;
        assert((c5 + p.1)[c5.len() + k] == p.1[k]);
        assert(all[i] == h.1[c5.len() + k]);
        assert(all[i] == (Command::AddDamage { amount: m(HIT_DAMAGE) }));
    }
    if s.stock == 0 && s.fighter_status != t.fighter_standby {
        let i: int = d.1.len() as int;
        assert(all[i] == h.1[0]);
    }
}

/// The out-of-stock fighter's standby request of a human's frame.
pub open spec fn only_if_standby(s: Sample, t: DraculaKinds) -> Seq<Command> {
    if s.stock == 0 && s.fighter_status != t.fighter_standby {
        seq![Command::ChangeStatus { object: Object::Fighter, status: t.fighter_standby, clear_buffer: true }]
    } else {
        Seq::empty()
    }
}

/// The rest of a computer's frame: the boss counts as held from the
/// fighter's hold frame in the match on; the boss dies of a deadly hit or
/// with its fighter, and of nothing else; a hit on it costs the fighter 4.1
/// damage, which comes first.
pub proof fn lemma_cpu_frame(st: DraculaModel, boss: u32, s: Sample, t: DraculaKinds)
    ensures
        ({
            let r = settle_cpu_spec(st, boss, s, t);
            &&& r.0.have_item == (st.have_item || (s.ready_go && s.fighter_frame.at_least(
                m(HOLD_FRAME),
            )))
            &&& r.0.is_boss_dead == (st.is_boss_dead || deadly_hit(s) || s.fighter_status
                == t.fighter_dead)
            &&& r.0.game_start == st.game_start
            &&& s.boss.hit ==> r.1.contains(Command::AddDamage { amount: m(HIT_DAMAGE) })
        }),
{
    reveal(settle_cpu_spec);
    let (st1, c1) = punish(st, boss, s, t);
    let (st2, c2) = fighter_down(st1, boss, s, t);
    let (st3, c3) = last_stock(st2, s, t);
    let st4 = hold(st3, s);
    let alive = st4.have_item && !st4.is_boss_dead;
    let c5 = only_if_running(s, alive, boss);
    let c6 = only_if_frozen(s, alive, boss, t);
    assert(settle_cpu_spec(st, boss, s, t).1 == c1 + c2 + c3 + c5 + c6);
    if s.boss.hit {
        lemma_hits_on_dracula(st, boss, s, t);
        let k: int = if !st.is_boss_dead && (s.damage.at_least(m(DEATH_DAMAGE)) || s.damage.equals(
            m(MINUS_ONE),
        )) {
            2
        } else {
            0
        };
        assert((c1 + c2 + c3 + c5 + c6)[k] == c1[k]);
    }
}

/// The motion request of a computer's living held boss during the match.
pub open spec fn only_if_running(s: Sample, alive: bool, boss: u32) -> Seq<Command> {
    if s.ready_go && alive {
        seq![Command::SetMotionRate { item: boss, rate: m(ONE) }]
    } else {
        Seq::empty()
    }
}

/// The requests that freeze a computer's living held boss before the match.
pub open spec fn only_if_frozen(s: Sample, alive: bool, boss: u32, t: DraculaKinds) -> Seq<Command> {
    if !s.ready_go && alive {
        seq![
            Command::ChangeStatus { object: Object::Item(boss), status: t.wait, clear_buffer: true },
            Command::SetMotionRate { item: boss, rate: m(ZERO) },
        ]
    } else {
        Seq::empty()
    }
}

/// A held first form that takes orders during the match: once kicked and
/// waiting, each input held alone starts its own attack and nothing else,
/// and an input that starts an attack stops the boss from taking orders.
/// The first stick test of a spawn (any tilt that is not a NaN) sends it to
/// wait first and marks the kick as done.  A boss that does not take orders,
/// is not held, is in its second form, or any boss before the match, is left
/// alone.
pub proof fn lemma_first_form_takes_orders(st: DraculaModel, boss: u32, s: Sample, t: DraculaKinds, i: int)
    ensures
        ({
            let active = st.stop_control_loop && !st.transformed_mode && st.have_item && s.ready_go;
            let r = command_first(st, boss, s, t);
            &&& !active ==> r == (st, Seq::<Command>::empty())
            &&& active && only_input(s.pad, t.flags, i) && st.kickstart_anim_begin && s.boss.status
                == t.wait ==> r.1 == start_attack(boss, first_form_move(t, i)) && r.0.stop_control_loop
                == (first_form_move(t, i) is None)
            &&& active && !st.kickstart_anim_begin && !s.pad.stick_x.is_nan() ==> r.0.kickstart_anim_begin
                && r.1.len() > 0 && r.1[0] == (Command::ChangeStatus {
                object: Object::Item(boss),
                status: t.wait,
                clear_buffer: true,
            })
        }),
{
    let active = st.stop_control_loop && !st.transformed_mode && st.have_item && s.ready_go;
    let x = s.pad.stick_x;
    if active {
        let (st1, c1) = kick(st, boss, s, t, x.at_most(m(ONE)));
        let (st2, c2) = kick(st1, boss, s, t, x.at_least(m(ONE)));
        lemma_first_form_inputs(boss, s, t, i);
        if only_input(s.pad, t.flags, i) && st.kickstart_anim_begin && s.boss.status == t.wait {
            lemma_inputs_known(s.pad, t.flags, i);
            assert(c1 =~= Seq::<Command>::empty());
            assert(c2 =~= Seq::<Command>::empty());
            assert(command_first(st, boss, s, t).1 =~= first_orders(boss, s, t));
        }
        if !st.kickstart_anim_begin && !x.is_nan() {
            if x.at_most(m(ONE)) {
                assert((c1 + c2 + first_orders(boss, s, t))[0] == c1[0]);
            } else {
                assert(c1 =~= Seq::<Command>::empty());
                assert((c1 + c2 + first_orders(boss, s, t)) =~= c2 + first_orders(boss, s, t));
                assert((c2 + first_orders(boss, s, t))[0] == c2[0]);
            }
        }
    }
}

/// A held second form that takes orders during the match steps with the
/// stick, then each input held alone starts its own attack and nothing else,
/// and any input stops the boss from taking orders.  A boss that does not
/// take orders, is not held, is in its first form, or any boss before the
/// match, is left alone.
pub proof fn lemma_second_form_takes_orders(st: DraculaModel, boss: u32, s: Sample, t: DraculaKinds, i: int)
    ensures
        ({
            let active = st.stop_control_loop && st.transformed_mode && st.have_item && s.ready_go;
            let r = command_second(st, boss, s, t);
            &&& !active ==> r == (st, Seq::<Command>::empty())
            &&& active && only_input(s.pad, t.flags, i) ==> r.1 == steps(boss, s) + start_attack(
                boss,
                second_form_move(t, i),
            ) && !r.0.stop_control_loop
            &&& active && no_input(s.pad, t.flags) ==> r == (st, steps(boss, s))
        }),
{
    lemma_second_form_inputs(boss, s, t, i);
    if only_input(s.pad, t.flags, i) {
        lemma_inputs_known(s.pad, t.flags, i);
    }
    if no_input(s.pad, t.flags) {
        lemma_no_input_known(s.pad, t.flags);
        assert(steps(boss, s) + second_orders(boss, s, t) =~= steps(boss, s));
    }
}

// ---------------------------------------------------------------------------
// Spawns and the change of form, as phases.

/// After a pre-match spawn the fighter is shrunk to hide in its boss; a
/// computer's fighter also throws away what it held and stands by, before
/// and after the entry's previous boss is sent to wait.
pub proof fn lemma_spawn_hides_the_fighter(st: DraculaModel, t: DraculaKinds)
    ensures
        !st.frame.cpu ==> enter_boss_commands(st, t) == seq![Command::SetScale { scale: m(HIDDEN_SCALE) }],
        st.frame.cpu ==> {
            let c = enter_boss_commands(st, t);
            let stand = Command::ChangeStatus {
                object: Object::Fighter,
                status: t.fighter_standby,
                clear_buffer: true,
            };
            &&& c.len() == 5
            &&& c[0] == (Command::SetScale { scale: m(HIDDEN_SCALE) })
            &&& c[1] == Command::ThrowHeld
            &&& c[2] == stand
            &&& c[3] == (Command::ChangeStatus {
                object: Object::Item(st.boss()),
                status: t.wait,
                clear_buffer: true,
            })
            &&& c[4] == stand
        },
{
}

/// The guard phase hands on the place of a due change: the second form's
/// entry runs next exactly when there is one, else the rest of the frame.
/// The second form's entry makes the new item the entry's boss, ends the
/// change, and puts the fighter and the first form at that place; with no
/// place nothing changes but the phase.
pub proof fn lemma_second_form_enters(st: DraculaModel, s: Sample, t: DraculaKinds, item: u64)
    ensures
        guard_phase(st, s, t).0.frame.anchor == guard_spec(st, st.frame.boss, s, t).2,
        guard_phase(st, s, t).0.frame.phase == (if guard_spec(st, st.frame.boss, s, t).2 is Some {
            DraculaPhase::EnterSecondForm
        } else {
            DraculaPhase::Settle
        }),
        guard_phase(st, s, t).1 == guard_spec(st, st.frame.boss, s, t).1,
        st.frame.anchor matches Some(p) ==> {
            let r = second_form_phase(st, item);
            &&& r.0.boss_ids == st.boss_ids.update(st.entry_id as int, item as u32)
            &&& !r.0.transitioning
            &&& r.0.frame.anchor is None
            &&& r.0.frame.phase == DraculaPhase::Settle
            &&& r.1 == seq![
                Command::SetPos { object: Object::Fighter, place: p },
                Command::SetPos { object: Object::Item(st.boss()), place: p },
            ]
        },
        st.frame.anchor is None ==> second_form_phase(st, item) == (
        DraculaModel { frame: DraculaFrame { phase: DraculaPhase::Settle, ..st.frame }, ..st },
        Seq::<Command>::empty(),
    ),
{
}

} // verus!
