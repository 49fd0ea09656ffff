use playable_bosses::command::{
    Axis, BossSample, Command, Coord, Object, Pad, PadFlags, Place, Sample,
};
use playable_bosses::dracula::{DraculaKinds, DraculaPhase, DraculaState};
use playable_bosses::measure::Measure;

fn f(x: f32) -> Measure {
    Measure::from_bits(x.to_bits())
}

fn at(x: f32, y: f32, z: f32) -> Place {
    Place { x: Coord::At(f(x)), y: Coord::At(f(y)), z: Coord::At(f(z)) }
}

fn kinds() -> DraculaKinds {
    DraculaKinds {
        host_kind: 60,
        fighter_fall_special: 201,
        fighter_standby: 202,
        fighter_dead: 203,
        item_wait: 204,
        item_entry: 205,
        item_run: 206,
        item_turn: 207,
        item_none: 208,
        item_jump: 209,
        item_jump_air: 210,
        item_fall: 211,
        item_exit: 212,
        item_pass_floor: 213,
        item_start: 214,
        item_term: 215,
        item_landing: 216,
        item_initialize: 217,
        item_dead: 218,
        item_standby: 219,
        wait: 220,
        change_start: 221,
        teleport_start: 222,
        teleport_end: 223,
        three_way_start: 224,
        three_way_end: 225,
        fill_start: 226,
        fill_end: 227,
        rush_start: 228,
        rush_end: 229,
        pillar_start: 230,
        pillar_end: 231,
        straight_start: 232,
        straight_end: 233,
        turn_three_way_start: 234,
        turn_three_way_end: 235,
        second_wait: 236,
        second_squash_start: 237,
        second_squash_end: 238,
        second_squash_end_turn: 239,
        second_fire_shot_start: 240,
        second_fire_shot_end: 241,
        second_homing_shot_start: 242,
        second_homing_shot_end: 243,
        second_turn: 244,
        second_strike: 245,
        second_slash: 246,
        second_step_slash: 247,
        second_front_jump: 248,
        second_back_jump: 249,
        second_shock_wave: 250,
        second_slash_three: 251,
        second_turn_slash: 252,
        flags: PadFlags {
            special_lw: 1,
            special_hi: 2,
            special_s: 4,
            attack_lw3: 8,
            attack_hi3: 16,
            attack_s3: 32,
        },
    }
}

fn sample() -> Sample {
    Sample {
        ready_go: true,
        cpu: false,
        hp_mode: false,
        result_mode: false,
        stock: 2,
        fighter_status: 7,
        fighter_frame: f(40.0),
        scale: f(0.0001),
        damage: f(10.0),
        fighter_stopped: false,
        pad: Pad {
            special: false,
            jump: false,
            guard: false,
            attack: false,
            appeal_hi: false,
            appeal_s_r: false,
            appeal_lw: false,
            cat1: 0,
            stick_x: f(0.0),
            stick_y: f(0.0),
        },
        boss: BossSample {
            status: 220,
            frame: f(3.0),
            end_frame: f(60.0),
            x: f(10.0),
            y: f(20.0),
            z: f(3.0),
            lr: f(1.0),
            attack_kind: 0,
            hit: false,
            stopped: false,
        },
    }
}

/// A computer's state in the middle of a match.
fn computer() -> DraculaState {
    let mut st = playing();
    st.frame.cpu = true;
    st
}

/// A state in the middle of a match: entry 1 holds boss 88, which takes orders.
fn playing() -> DraculaState {
    let mut st = DraculaState::new();
    st.begin(1, 60, &kinds());
    st.boss_ids[1] = 88;
    st.frame.boss = 88;
    st.have_item = true;
    st.game_start = true;
    st.stop_control_loop = true;
    st.kickstart_anim_begin = true;
    st
}

fn cs(object: Object, status: i32) -> Command {
    Command::ChangeStatus { object, status, clear_buffer: true }
}

fn boss() -> Object {
    Object::Item(88)
}

fn shield() -> Vec<Command> {
    vec![Command::LockDamage { item: 88 }, Command::ScriptIntangible, Command::Intangible]
}

#[test]
fn new_state_holds_nothing() {
    let st = DraculaState::new();
    assert!(!st.have_item && !st.is_boss_dead && !st.transformed_mode && !st.stop_control_loop);
    assert_eq!(st.boss_ids, vec![0u32; 8]);
    assert_eq!(st.entry_number(), 0);
    assert!(kinds().hosts(60));
}

#[test]
fn follow_rides_above_the_boss() {
    let mut st = playing();
    let cmds = st.follow(&sample(), &kinds());
    assert_eq!(
        cmds,
        vec![
            cs(Object::Fighter, 201),
            Command::SetPos {
                object: Object::Fighter,
                place: Place { x: Coord::At(f(10.0)), y: Coord::Raised(f(20.0), f(30.0)), z: Coord::At(f(3.0)) },
            },
        ]
    );
}

#[test]
fn follow_stays_inside_the_limits() {
    let cases: Vec<(f32, f32, Place)> = vec![
        (10.0, 200.0, at(10.0, 145.0, 3.0)),
        (500.0, -150.0, at(500.0, -100.0, 3.0)),
        (176.0, 0.0, at(175.0, 0.0, 3.0)),
        (-175.0, 0.0, at(-175.0, 0.0, 3.0)),
    ];
    for (x, y, place) in cases {
        let mut st = playing();
        let mut s = sample();
        s.boss.x = f(x);
        s.boss.y = f(y);
        let cmds = st.follow(&s, &kinds());
        assert_eq!(cmds[1], Command::SetPos { object: Object::Fighter, place });
    }
}

#[test]
fn follow_waits_for_the_match_and_the_hold() {
    let mut st = playing();
    let mut s = sample();
    s.ready_go = false;
    assert!(st.follow(&s, &kinds()).is_empty());
    st.have_item = false;
    assert!(st.follow(&sample(), &kinds()).is_empty());
}

#[test]
fn cpu_spawn_before_the_match() {
    let mut st = playing();
    st.is_boss_dead = true;
    st.transformed_mode = true;
    let mut s = sample();
    s.ready_go = false;
    s.fighter_frame = f(29.0);
    s.cpu = true;
    assert!(st.prepare(&s));
    assert!(!st.is_boss_dead && !st.transformed_mode && !st.have_item && !st.transitioning);
    assert_eq!(st.frame.phase, DraculaPhase::EnterBoss);
    let cmds = st.enter_boss(99, &kinds());
    assert_eq!(
        cmds,
        vec![
            Command::SetScale { scale: f(0.0001) },
            Command::ThrowHeld,
            cs(Object::Fighter, 202),
            cs(boss(), 220),
            cs(Object::Fighter, 202),
        ]
    );
    assert_eq!(st.boss_ids[1], 99);
    assert!(st.have_item);
}

#[test]
fn no_spawn_too_early_or_during_the_match() {
    let mut st = playing();
    let mut s = sample();
    s.ready_go = false;
    s.fighter_frame = f(28.0);
    s.cpu = true;
    assert!(!st.prepare(&s));
    s.cpu = false;
    assert!(!st.prepare(&s));
    assert!(!st.prepare(&sample()));
    assert_eq!(st.frame.phase, DraculaPhase::Guard);
    assert!(st.have_item && st.stop_control_loop);
}

#[test]
fn human_spawn_before_the_match() {
    let mut st = playing();
    st.stop_control_loop = false;
    let mut s = sample();
    s.ready_go = false;
    assert!(st.prepare(&s));
    assert!(st.stop_control_loop && !st.kickstart_anim_begin && !st.game_start && !st.have_item);
    let cmds = st.enter_boss(0x5_0000_0007, &kinds());
    assert_eq!(cmds, vec![Command::SetScale { scale: f(0.0001) }]);
    assert_eq!(st.boss_ids[1], 7);
    assert!(st.have_item);
}

#[test]
fn guard_shields_the_boss() {
    let mut st = playing();
    let cmds = st.guard(&sample(), &kinds());
    assert_eq!(cmds, shield());
    assert_eq!(st.frame.anchor, None);
    assert_eq!(st.frame.phase, DraculaPhase::Settle);
}

#[test]
fn guard_changes_form_at_199() {
    let mut st = playing();
    let mut s = sample();
    s.boss.hit = true;
    s.damage = f(199.0);
    let cmds = st.guard(&s, &kinds());
    let anchor = st.frame.anchor;
    let place = at(10.0, 0.0, 3.0);
    let mut expected = shield();
    expected.extend(vec![
        cs(boss(), 218),
        Command::SetPos { object: Object::Fighter, place },
        Command::SetPos { object: boss(), place },
        cs(boss(), 219),
    ]);
    assert_eq!(cmds, expected);
    assert_eq!(anchor, Some(place));
    assert!(st.transformed_mode && st.transitioning);
    assert_eq!(st.frame.phase, DraculaPhase::EnterSecondForm);
    let after = st.enter_second_form(300);
    assert_eq!(
        after,
        vec![Command::SetPos { object: Object::Fighter, place }, Command::SetPos { object: boss(), place }]
    );
    assert_eq!(st.boss_ids[1], 300);
    assert!(!st.transitioning);
    assert_eq!(st.frame.anchor, None);
    assert_eq!(st.frame.phase, DraculaPhase::Settle);
    // The change happens once.
    st.frame.boss = 300;
    let again = st.guard(&s, &kinds());
    assert_eq!(st.frame.anchor, None);
    assert_eq!(again, vec![Command::LockDamage { item: 300 }, Command::ScriptIntangible, Command::Intangible]);
}

#[test]
fn guard_waits_while_the_first_form_is_dying() {
    let mut st = playing();
    let mut s = sample();
    s.boss.hit = true;
    s.damage = f(250.0);
    s.boss.status = 218;
    let cmds = st.guard(&s, &kinds());
    assert_eq!(cmds, shield());
    assert_eq!(st.frame.anchor, None);
    assert!(!st.transformed_mode && !st.transitioning);
    s.boss.status = 221;
    st.transitioning = true;
    let cmds = st.guard(&s, &kinds());
    let mut expected = shield();
    expected.push(cs(boss(), 218));
    assert_eq!(cmds, expected);
    assert_eq!(st.frame.anchor, None);
}

#[test]
fn guard_below_199_does_nothing_more() {
    let mut st = playing();
    let mut s = sample();
    s.boss.hit = true;
    s.damage = f(198.9);
    let cmds = st.guard(&s, &kinds());
    assert_eq!(cmds, shield());
    assert_eq!(st.frame.anchor, None);
}

#[test]
fn settle_cpu_runs_or_freezes_the_boss() {
    let mut st = computer();
    let mut s = sample();
    assert_eq!(st.settle(&s, &kinds()), vec![Command::SetMotionRate { item: 88, rate: f(1.0) }]);
    s.ready_go = false;
    assert_eq!(
        st.settle(&s, &kinds()),
        vec![cs(boss(), 220), Command::SetMotionRate { item: 88, rate: f(0.0) }]
    );
}

#[test]
fn settle_cpu_death_at_399() {
    let mut st = computer();
    let mut s = sample();
    s.boss.hit = true;
    s.damage = f(399.0);
    s.boss.stopped = true;
    let cmds = st.settle(&s, &kinds());
    assert_eq!(
        cmds,
        vec![
            cs(boss(), 218),
            cs(Object::Fighter, 203),
            Command::AddDamage { amount: f(4.1) },
            Command::EndStop { object: boss() },
            cs(Object::Fighter, 203),
            Command::AddDamage { amount: f(400.0) },
        ]
    );
    assert!(st.is_boss_dead && !st.stop_control_loop);
    assert_eq!(st.boss_ids, vec![0, 88, 0, 0, 0, 0, 0, 0]);
    // A dead boss stays dead.
    let cmds = st.settle(&sample(), &kinds());
    assert_eq!(cmds, vec![cs(Object::Fighter, 203), Command::AddDamage { amount: f(400.0) }]);
    assert!(st.is_boss_dead);
}

#[test]
fn settle_cpu_damage_of_minus_one_kills() {
    let mut st = computer();
    let mut s = sample();
    s.boss.hit = true;
    s.damage = f(-1.0);
    s.stock = 0;
    let cmds = st.settle(&s, &kinds());
    assert_eq!(cmds, vec![cs(boss(), 218), cs(Object::Fighter, 203), Command::AddDamage { amount: f(4.1) }]);
    assert!(st.is_boss_dead);
}

#[test]
fn settle_cpu_fighter_death_takes_the_boss() {
    let mut st = computer();
    let mut s = sample();
    s.fighter_status = 203;
    s.stock = 0;
    assert_eq!(st.settle(&s, &kinds()), vec![cs(boss(), 218)]);
    assert!(st.is_boss_dead);
}

#[test]
fn settle_cpu_hold_frame() {
    let mut st = computer();
    st.have_item = false;
    let mut s = sample();
    s.fighter_frame = f(29.5);
    assert!(st.settle(&s, &kinds()).is_empty());
    assert!(!st.have_item);
    s.fighter_frame = f(30.0);
    assert_eq!(st.settle(&s, &kinds()), vec![Command::SetMotionRate { item: 88, rate: f(1.0) }]);
    assert!(st.have_item);
}

#[test]
fn settle_human_first_form_attack() {
    let mut st = playing();
    st.kickstart_anim_begin = false;
    let mut s = sample();
    s.boss.status = 224;
    s.pad.special = true;
    let cmds = st.settle(&s, &kinds());
    assert_eq!(
        cmds,
        vec![
            Command::SetMotionRate { item: 88, rate: f(1.0) },
            cs(boss(), 204),
            cs(boss(), 220),
            cs(boss(), 220),
            cs(boss(), 224),
        ]
    );
    assert!(!st.stop_control_loop && st.kickstart_anim_begin && st.game_start);
}

#[test]
fn settle_human_first_form_bindings() {
    let flags: Vec<(i32, i32)> = vec![(1, 228), (2, 230), (4, 232), (8, 234), (16, 234), (32, 234)];
    for (mask, status) in flags {
        let mut st = playing();
        let mut s = sample();
        s.pad.cat1 = mask;
        let cmds = st.settle(&s, &kinds());
        assert_eq!(cmds.last(), Some(&cs(boss(), status)));
        assert!(!st.stop_control_loop);
    }
    let mut st = playing();
    let mut s = sample();
    s.pad.guard = true;
    s.pad.attack = true;
    let cmds = st.settle(&s, &kinds());
    assert_eq!(&cmds[cmds.len() - 2..], &[cs(boss(), 222), cs(boss(), 226)]);
}

#[test]
fn settle_human_second_form_steps_and_attacks() {
    let mut st = playing();
    st.transformed_mode = true;
    let mut s = sample();
    s.boss.status = 236;
    s.pad.stick_x = f(0.5);
    s.pad.jump = true;
    s.pad.appeal_lw = true;
    let cmds = st.settle(&s, &kinds());
    assert_eq!(
        cmds,
        vec![
            Command::SetMotionRate { item: 88, rate: f(1.0) },
            cs(boss(), 236),
            Command::Nudge { item: 88, axis: Axis::X, stick: f(0.5), gain: f(2.0), squared: true },
            cs(boss(), 244),
            cs(boss(), 252),
        ]
    );
    assert!(!st.stop_control_loop);
}

#[test]
fn settle_human_second_form_goes_back_to_its_wait() {
    let mut st = playing();
    st.transformed_mode = true;
    let mut s = sample();
    s.boss.status = 245;
    s.pad.stick_x = f(-0.5);
    let cmds = st.settle(&s, &kinds());
    assert_eq!(
        cmds,
        vec![
            Command::SetMotionRate { item: 88, rate: f(1.0) },
            cs(boss(), 236),
            Command::Nudge { item: 88, axis: Axis::X, stick: f(-0.5), gain: f(-2.0), squared: true },
        ]
    );
    assert!(st.stop_control_loop);
}

#[test]
fn settle_human_statuses_free_the_boss() {
    let mut st = playing();
    st.stop_control_loop = false;
    let mut s = sample();
    s.boss.status = 231;
    let cmds = st.settle(&s, &kinds());
    assert_eq!(cmds, vec![cs(boss(), 204), cs(boss(), 220)]);
    assert!(st.stop_control_loop);

    let mut st = playing();
    st.stop_control_loop = false;
    s.boss.status = 223;
    s.boss.frame = f(59.0);
    assert!(st.settle(&s, &kinds()).is_empty());
    assert!(!st.stop_control_loop);
    s.boss.frame = f(60.0);
    let cmds = st.settle(&s, &kinds());
    assert!(st.stop_control_loop);
    assert_eq!(cmds, vec![cs(boss(), 220)]);

    let mut st = playing();
    st.stop_control_loop = false;
    s.boss.status = 219;
    let cmds = st.settle(&s, &kinds());
    assert_eq!(cmds, vec![cs(boss(), 233), cs(boss(), 220)]);
    assert!(st.stop_control_loop);
}

#[test]
fn settle_human_out_of_stock_fighter_stands_by() {
    let mut st = playing();
    st.stop_control_loop = false;
    let mut s = sample();
    s.stock = 0;
    s.boss.status = 204;
    let cmds = st.settle(&s, &kinds());
    assert_eq!(cmds, vec![cs(Object::Fighter, 202), cs(boss(), 220)]);
}

#[test]
fn settle_human_before_the_match() {
    let mut st = playing();
    st.stop_control_loop = false;
    st.game_start = true;
    let mut s = sample();
    s.ready_go = false;
    s.boss.status = 224;
    let cmds = st.settle(&s, &kinds());
    assert!(cmds.is_empty());
    assert!(!st.game_start && st.stop_control_loop);
}

#[test]
fn settle_human_death_is_final() {
    let mut st = playing();
    let mut s = sample();
    s.boss.hit = true;
    s.damage = f(400.0);
    s.boss.status = 204;
    let cmds = st.settle(&s, &kinds());
    assert_eq!(
        cmds,
        vec![
            Command::SetMotionRate { item: 88, rate: f(1.0) },
            cs(boss(), 218),
            cs(Object::Fighter, 203),
            Command::AddDamage { amount: f(4.1) },
            cs(boss(), 220),
        ]
    );
    assert!(st.is_boss_dead);
    let cmds = st.settle(&sample(), &kinds());
    assert!(st.is_boss_dead);
    assert_eq!(cmds[0], Command::SetMotionRate { item: 88, rate: f(1.0) });
    assert_eq!(cmds[1], cs(Object::Fighter, 203));
    assert_eq!(cmds[2], Command::AddDamage { amount: f(400.0) });
}

#[test]
fn dracula_frame_phases_run_in_order() {
    let t = kinds();
    let mut st = DraculaState::new();
    st.begin(3, 61, &t);
    assert_eq!(st.frame.phase, DraculaPhase::Done);
    st.begin(3, 60, &t);
    st.boss_ids[3] = 40;
    assert_eq!(st.frame.phase, DraculaPhase::Follow);
    st.follow(&sample(), &t);
    assert_eq!(st.frame.phase, DraculaPhase::Prepare);
    let mut s = sample();
    s.ready_go = false;
    s.cpu = true;
    assert!(st.prepare(&s));
    assert!(st.frame.cpu);
    assert_eq!(st.frame.boss, 40);
    st.enter_boss(41, &t);
    // The rest of the frame works on the boss the frame started with.
    assert_eq!(st.watched(), 40);
    assert_eq!(st.frame.phase, DraculaPhase::Guard);
    st.guard(&sample(), &t);
    assert_eq!(st.frame.phase, DraculaPhase::Settle);
    let cmds = st.settle(&s, &t);
    assert_eq!(st.frame.phase, DraculaPhase::Done);
    assert_eq!(cmds, vec![cs(Object::Item(40), 220), Command::SetMotionRate { item: 40, rate: f(0.0) }]);
}
