use playable_bosses::command::{
    Axis, BossSample, Command, Coord, Object, Pad, PadFlags, Place, Sample,
};
use playable_bosses::marx::{MarxKinds, MarxPhase, MarxState};
use playable_bosses::measure::Measure;

fn f(x: f32) -> Measure {
    Measure::from_bits(x.to_bits())
}

fn at(x: f32, y: f32, z: f32) -> Place {
    Place { x: Coord::At(f(x)), y: Coord::At(f(y)), z: Coord::At(f(z)) }
}

fn kinds() -> MarxKinds {
    MarxKinds {
        host_kind: 50,
        fighter_standby: 101,
        fighter_dead: 102,
        item_for_boss_start: 103,
        item_entry: 104,
        item_wait: 105,
        item_dead: 106,
        item_standby: 107,
        item_warp: 108,
        follow_eye_start: 109,
        follow_eye_loop: 110,
        follow_eye_end: 111,
        facet_eye_laser_start: 112,
        facet_eye_laser: 113,
        facet_eye_laser_end: 114,
        move_straight: 115,
        move_teleport: 116,
        avoid_teleport: 117,
        plant_start: 118,
        plant_grows: 119,
        fly_out: 120,
        fly_out_homing: 121,
        thick_laser_start: 122,
        thick_laser_loop: 123,
        thick_laser_end: 124,
        black_hole_ready: 125,
        black_hole_end: 126,
        capillary_start: 127,
        capillary_end: 128,
        ice_bomb_start: 129,
        ice_bomb_loop: 130,
        ice_bomb_shoot: 131,
        four_cutter: 132,
        flags: PadFlags {
            special_lw: 1,
            special_hi: 2,
            special_s: 4,
            attack_lw3: 8,
            attack_hi3: 16,
            attack_s3: 32,
        },
    }
}

fn pad() -> Pad {
    Pad {
        special: false,
        jump: false,
        guard: false,
        attack: false,
        appeal_hi: false,
        appeal_s_r: false,
        appeal_lw: false,
        cat1: 0,
        stick_x: f(0.5),
        stick_y: f(0.5),
    }
}

fn sample() -> Sample {
    Sample {
        ready_go: true,
        cpu: false,
        hp_mode: false,
        result_mode: false,
        stock: 2,
        fighter_status: 7,
        fighter_frame: f(0.0),
        scale: f(1.0),
        damage: f(0.0),
        fighter_stopped: false,
        pad: pad(),
        boss: BossSample {
            status: 105,
            frame: f(3.0),
            end_frame: f(60.0),
            x: f(0.0),
            y: f(50.0),
            z: f(0.0),
            lr: f(1.0),
            attack_kind: 0,
            hit: false,
            stopped: false,
        },
    }
}

/// A state in the middle of a match: entry 2 with boss 77, turned already.
fn playing() -> MarxState {
    let mut st = MarxState::new();
    st.identify(2, 1, 11, 11);
    st.boss_ids[2] = 77;
    st.frame_boss = 77;
    st.jump_start = true;
    st
}

fn cs(object: Object, status: i32) -> Command {
    Command::ChangeStatus { object, status, clear_buffer: true }
}

fn boss() -> Object {
    Object::Item(77)
}

#[test]
fn new_state_is_steerable_and_empty() {
    let st = MarxState::new();
    assert!(st.controllable);
    assert!(!st.dead && !st.jump_start && !st.result_spawned);
    assert_eq!(st.boss_ids, vec![0u32; 8]);
    assert_eq!(st.fighter_names, vec![0u64; 4]);
    assert!(kinds().hosts(50));
    assert!(!kinds().hosts(51));
}

#[test]
fn identify_records_entry_and_name() {
    let mut st = MarxState::new();
    assert!(st.identify(5, 3, 0xabc, 0xabc));
    assert_eq!(st.entry_id, 5);
    assert_eq!(st.fighter_names, vec![0, 0, 0, 0xabc]);
    assert!(!st.identify(1, 0, 0x123, 0xabc));
    assert_eq!(st.fighter_names, vec![0x123, 0, 0, 0xabc]);
    assert_eq!(st.entry_number(), 1);
}

#[test]
fn prepare_spawns_before_the_match() {
    let mut st = playing();
    st.dead = true;
    st.controllable = false;
    st.result_spawned = true;
    let mut s = sample();
    s.ready_go = false;
    assert!(st.prepare(&s));
    assert!(!st.dead && st.controllable && !st.jump_start && !st.result_spawned);
    let cmds = st.enter_boss(0x1_0000_0042, &kinds());
    assert_eq!(st.boss_ids[2], 0x42);
    assert_eq!(
        cmds,
        vec![
            Command::SetScale { scale: f(0.0001) },
            cs(Object::Item(0x42), 103),
        ]
    );
}

#[test]
fn prepare_without_spawn_when_already_hidden() {
    let mut st = playing();
    st.dead = true;
    st.result_spawned = true;
    let mut s = sample();
    s.ready_go = false;
    s.scale = f(0.0001);
    assert!(!st.prepare(&s));
    assert!(!st.dead && st.controllable && st.result_spawned);
}

#[test]
fn prepare_does_nothing_during_the_match() {
    let mut st = playing();
    st.dead = true;
    st.controllable = false;
    assert!(!st.prepare(&sample()));
    assert!(st.dead && !st.controllable);
}

#[test]
fn run_quiet_frame() {
    let mut st = playing();
    let (cmds, respawn) = st.run(&sample(), &kinds());
    assert_eq!(cmds, vec![Command::WaitMotion { item: 77 }, Command::LockDamage { item: 77 }, Command::Intangible]);
    assert!(!respawn);
}

#[test]
fn run_starts_the_queued_attack() {
    let mut st = playing();
    let mut s = sample();
    s.boss.attack_kind = 42;
    let (cmds, _) = st.run(&s, &kinds());
    assert_eq!(
        cmds,
        vec![
            Command::WaitMotion { item: 77 },
            Command::ChangeStatus { object: boss(), status: 42, clear_buffer: false },
            Command::ClearAttackKind { item: 77 },
            Command::LockDamage { item: 77 },
            Command::Intangible,
        ]
    );
}

#[test]
fn run_first_frame_turns_the_boss() {
    let mut st = playing();
    st.jump_start = false;
    st.controllable = false;
    let mut s = sample();
    s.boss.lr = f(-1.0);
    let (cmds, _) = st.run(&s, &kinds());
    assert_eq!(
        cmds,
        vec![
            Command::SetRotationY { item: 77, degrees: f(90.0) },
            Command::LockDamage { item: 77 },
            Command::Intangible,
        ]
    );
    assert!(st.jump_start && !st.controllable);
    // Once turned, never again.
    let (again, _) = st.run(&s, &kinds());
    assert_eq!(again, vec![Command::LockDamage { item: 77 }, Command::Intangible]);
}

#[test]
fn run_cpu_boss_stops_being_steerable_after_entry() {
    let mut st = playing();
    let mut s = sample();
    s.cpu = true;
    s.boss.status = 104;
    let (cmds, _) = st.run(&s, &kinds());
    assert!(!st.controllable);
    assert_eq!(
        cmds,
        vec![
            Command::WaitMotion { item: 77 },
            cs(boss(), 105),
            Command::LockDamage { item: 77 },
            Command::Intangible,
        ]
    );
}

#[test]
fn run_fast_entry_while_hidden() {
    let mut st = playing();
    st.controllable = false;
    let mut s = sample();
    s.ready_go = false;
    s.scale = f(0.0001);
    s.boss.status = 104;
    let (cmds, _) = st.run(&s, &kinds());
    assert_eq!(
        cmds,
        vec![
            Command::SetMotionRate { item: 77, rate: f(5.0) },
            Command::SetFixRate { item: 77, rate: f(5.0) },
            Command::LockDamage { item: 77 },
            Command::Intangible,
        ]
    );
}

#[test]
fn run_keeps_the_boss_inside_above_the_ceiling() {
    let mut st = playing();
    st.controllable = false;
    let mut s = sample();
    s.scale = f(0.0001);
    s.fighter_status = 101;
    s.boss.x = f(250.0);
    s.boss.y = f(160.0);
    s.boss.z = f(5.0);
    let (cmds, _) = st.run(&s, &kinds());
    assert_eq!(
        cmds,
        vec![
            Command::SetPos { object: Object::Fighter, place: at(250.0, 150.0, 5.0) },
            Command::SetPos { object: boss(), place: at(250.0, 150.0, 5.0) },
            Command::SetPos { object: Object::Fighter, place: at(200.0, 100.0, 5.0) },
            Command::SetPos { object: boss(), place: at(200.0, 100.0, 5.0) },
            Command::SetPos { object: Object::Fighter, place: at(250.0, 160.0, 5.0) },
            Command::LockDamage { item: 77 },
            Command::Intangible,
        ]
    );
}

#[test]
fn run_holds_the_boss_on_the_left_wall() {
    let mut st = playing();
    st.controllable = false;
    let mut s = sample();
    s.scale = f(0.0001);
    s.fighter_status = 101;
    s.boss.x = f(-230.0);
    s.boss.y = f(120.0);
    let (cmds, _) = st.run(&s, &kinds());
    assert_eq!(
        cmds,
        vec![
            Command::SetPos { object: Object::Fighter, place: at(-200.0, 120.0, 0.0) },
            Command::SetPos { object: boss(), place: at(-200.0, 120.0, 0.0) },
            Command::SetPos { object: Object::Fighter, place: at(-200.0, 100.0, 0.0) },
            Command::SetPos { object: boss(), place: at(-200.0, 100.0, 0.0) },
            Command::SetPos { object: Object::Fighter, place: at(-230.0, 120.0, 0.0) },
            Command::LockDamage { item: 77 },
            Command::Intangible,
        ]
    );
}

#[test]
fn run_holds_the_boss_on_the_left_wall_below_the_wall_height() {
    let mut st = playing();
    st.controllable = false;
    let mut s = sample();
    s.scale = f(0.0001);
    s.fighter_status = 101;
    s.boss.x = f(-250.0);
    s.boss.y = f(40.0);
    let (cmds, _) = st.run(&s, &kinds());
    assert_eq!(
        cmds,
        vec![
            Command::SetPos { object: Object::Fighter, place: at(-200.0, 40.0, 0.0) },
            Command::SetPos { object: boss(), place: at(-200.0, 40.0, 0.0) },
            Command::SetPos { object: Object::Fighter, place: at(-250.0, 40.0, 0.0) },
            Command::LockDamage { item: 77 },
            Command::Intangible,
        ]
    );
}

#[test]
fn run_leaves_a_boss_inside_the_stage_alone() {
    let mut st = playing();
    st.controllable = false;
    let mut s = sample();
    s.scale = f(0.0001);
    s.fighter_status = 101;
    s.boss.x = f(199.0);
    s.boss.y = f(149.0);
    let (cmds, _) = st.run(&s, &kinds());
    assert_eq!(
        cmds,
        vec![
            Command::SetPos { object: Object::Fighter, place: at(199.0, 149.0, 0.0) },
            Command::LockDamage { item: 77 },
            Command::Intangible,
        ]
    );
}

#[test]
fn boss_heights_stay_between_floor_and_ceiling() {
    let positions: Vec<(f32, f32)> = vec![
        (-300.0, -500.0),
        (300.0, -500.0),
        (300.0, 500.0),
        (-300.0, 500.0),
        (300.0, 0.0),
        (-300.0, 0.0),
        (-300.0, 149.0),
        (-250.0, 120.0),
        (250.0, 160.0),
        (250.0, -160.0),
        (-250.0, -160.0),
        (0.0, 0.0),
    ];
    for (x, y) in positions {
        let mut st = playing();
        st.controllable = false;
        let mut s = sample();
        s.scale = f(0.0001);
        s.fighter_status = 101;
        s.boss.x = f(x);
        s.boss.y = f(y);
        let (cmds, _) = st.run(&s, &kinds());
        let mut last: Option<Place> = None;
        for c in cmds.iter() {
            if let Command::SetPos { object: Object::Item(_), place } = c {
                if let Coord::At(h) = place.y {
                    let h = f32::from_bits(h.bits);
                    assert!((-100.0..=150.0).contains(&h), "{} {} -> {}", x, y, h);
                }
                last = Some(*place);
            }
        }
        if let Some(Place { x: Coord::At(px), .. }) = last {
            let px = f32::from_bits(px.bits);
            assert!((-200.0..=200.0).contains(&px), "{} {} -> x {}", x, y, px);
        }
    }
}

#[test]
fn run_fighter_stands_by_first() {
    let mut st = playing();
    st.controllable = false;
    let mut s = sample();
    s.scale = f(0.0001);
    let (cmds, _) = st.run(&s, &kinds());
    assert_eq!(
        cmds,
        vec![cs(Object::Fighter, 101), Command::LockDamage { item: 77 }, Command::Intangible]
    );
}

#[test]
fn run_lethal_hit_in_a_stock_match() {
    let mut st = playing();
    st.controllable = false;
    let mut s = sample();
    s.boss.hit = true;
    s.damage = f(359.0);
    s.fighter_stopped = true;
    s.boss.stopped = true;
    let (cmds, _) = st.run(&s, &kinds());
    assert!(st.dead && !st.controllable);
    assert_eq!(st.boss_ids, vec![0, 0, 77, 0, 0, 0, 0, 0]);
    assert_eq!(
        cmds,
        vec![
            Command::LockDamage { item: 77 },
            Command::Intangible,
            cs(boss(), 106),
            Command::AddDamage { amount: f(4.1) },
            Command::EndStop { object: Object::Fighter },
            Command::EndStop { object: boss() },
        ]
    );
}

#[test]
fn run_lethal_hit_with_hit_points() {
    let mut st = playing();
    st.controllable = false;
    let mut s = sample();
    s.hp_mode = true;
    s.boss.hit = true;
    s.damage = f(0.5);
    s.boss.status = 110;
    let (cmds, _) = st.run(&s, &kinds());
    assert!(st.dead);
    assert_eq!(
        cmds,
        vec![
            Command::LockDamage { item: 77 },
            Command::Intangible,
            cs(boss(), 106),
            Command::AddDamage { amount: f(0.1) },
        ]
    );
}

#[test]
fn run_harmless_hit_keeps_the_boss_alive() {
    let mut st = playing();
    st.controllable = false;
    let mut s = sample();
    s.boss.hit = true;
    s.damage = f(358.9);
    let (cmds, _) = st.run(&s, &kinds());
    assert!(!st.dead);
    assert_eq!(
        cmds,
        vec![Command::LockDamage { item: 77 }, Command::Intangible, Command::AddDamage { amount: f(4.1) }]
    );
}

#[test]
fn run_dead_boss_stands_by_and_takes_the_fighter() {
    let mut st = playing();
    st.dead = true;
    st.controllable = false;
    let mut s = sample();
    s.boss.frame = f(60.0);
    s.boss.status = 107;
    let (cmds, _) = st.run(&s, &kinds());
    assert_eq!(
        cmds,
        vec![
            Command::LockDamage { item: 77 },
            Command::Intangible,
            cs(boss(), 107),
            cs(Object::Fighter, 102),
        ]
    );
    assert!(st.dead);
}

#[test]
fn results_boss_is_spawned_once() {
    let mut st = playing();
    st.controllable = false;
    let mut s = sample();
    s.result_mode = true;
    let (_, first) = st.run(&s, &kinds());
    assert!(first);
    let cmds = st.enter_result_boss(500, &kinds());
    assert_eq!(cmds, vec![cs(Object::Item(500), 103)]);
    assert_eq!(st.boss_ids[2], 500);
    let (_, second) = st.run(&s, &kinds());
    assert!(!second);
}

#[test]
fn steer_cpu_only_raises_power() {
    let mut st = playing();
    let mut s = sample();
    s.cpu = true;
    s.pad.special = true;
    assert_eq!(st.steer(&s, &kinds()), vec![Command::PowerMul { item: 77, factor: f(1.5) }]);
    assert!(st.controllable);
}

fn nudge(axis: Axis, stick: f32, gain: f32) -> Command {
    Command::Nudge { item: 77, axis, stick: f(stick), gain: f(gain), squared: false }
}

#[test]
fn steer_free_boss_follows_the_stick_and_attacks() {
    let mut st = playing();
    let mut s = sample();
    s.pad.stick_x = f(0.5);
    s.pad.stick_y = f(0.0);
    s.pad.special = true;
    s.pad.cat1 = 16 | 64;
    let cmds = st.steer(&s, &kinds());
    assert_eq!(
        cmds,
        vec![
            Command::PowerMul { item: 77, factor: f(1.5) },
            nudge(Axis::X, 0.5, 2.2),
            nudge(Axis::Y, 0.0, 2.2),
            nudge(Axis::Y, 0.0, 2.2),
            cs(boss(), 118),
            cs(boss(), 109),
        ]
    );
    assert!(!st.controllable);
}

#[test]
fn steer_every_binding() {
    let bindings: Vec<(usize, i32)> = vec![(0, 118), (1, 132), (2, 116), (3, 129)];
    for (button, status) in bindings {
        let mut st = playing();
        let mut s = sample();
        s.pad.stick_x = f(-1.0);
        s.pad.stick_y = f(1.0);
        match button {
            0 => s.pad.special = true,
            1 => s.pad.jump = true,
            2 => s.pad.guard = true,
            _ => s.pad.attack = true,
        }
        let cmds = st.steer(&s, &kinds());
        assert_eq!(cmds.last(), Some(&cs(boss(), status)));
        assert!(!st.controllable);
    }
    let flags: Vec<(i32, i32)> = vec![(1, 127), (2, 122), (4, 112), (8, 125), (16, 109), (32, 121)];
    for (mask, status) in flags {
        let mut st = playing();
        let mut s = sample();
        s.pad.cat1 = mask;
        let cmds = st.steer(&s, &kinds());
        assert_eq!(cmds.last(), Some(&cs(boss(), status)));
        assert_eq!(cmds.len(), 4);
        assert!(!st.controllable);
    }
}

#[test]
fn steer_busy_boss_waits_for_its_recovery() {
    let mut st = playing();
    let mut s = sample();
    s.boss.status = 116;
    s.boss.frame = f(10.0);
    s.pad.special = true;
    assert_eq!(st.steer(&s, &kinds()), vec![Command::PowerMul { item: 77, factor: f(1.5) }]);
    assert!(!st.controllable);
    s.boss.frame = f(22.0);
    s.pad.special = false;
    let cmds = st.steer(&s, &kinds());
    assert!(st.controllable);
    assert_eq!(cmds.len(), 3);
}

#[test]
fn steer_recovery_frames() {
    let ends: Vec<(i32, f32)> =
        vec![(114, 27.0), (120, 27.0), (124, 74.0), (126, 14.0), (128, 10.0), (111, 10.0), (131, 22.0), (132, 34.0)];
    for (status, frame) in ends {
        let mut st = playing();
        st.controllable = false;
        let mut s = sample();
        s.boss.status = status;
        s.boss.frame = f(frame - 1.0);
        st.steer(&s, &kinds());
        assert!(!st.controllable, "{}", status);
        s.boss.frame = f(frame);
        st.steer(&s, &kinds());
        assert!(st.controllable, "{}", status);
    }
}

#[test]
fn steer_standby_boss_is_sent_to_wait() {
    let mut st = playing();
    st.controllable = false;
    let mut s = sample();
    s.boss.status = 107;
    s.pad.stick_x = f(0.0);
    s.pad.stick_y = f(0.0);
    let cmds = st.steer(&s, &kinds());
    assert!(st.controllable);
    assert_eq!(
        cmds,
        vec![
            Command::PowerMul { item: 77, factor: f(1.5) },
            cs(boss(), 105),
            nudge(Axis::X, 0.0, 2.2),
            nudge(Axis::X, 0.0, 2.2),
            nudge(Axis::Y, 0.0, 2.2),
            nudge(Axis::Y, 0.0, 2.2),
        ]
    );
}

#[test]
fn steer_homing_fly_out() {
    let mut st = playing();
    st.controllable = false;
    let mut s = sample();
    s.boss.status = 121;
    s.pad.stick_x = f(-0.3);
    s.pad.special = true;
    let cmds = st.steer(&s, &kinds());
    assert_eq!(
        cmds,
        vec![
            Command::PowerMul { item: 77, factor: f(1.5) },
            nudge(Axis::X, -0.3, 1.75),
            cs(boss(), 120),
        ]
    );
}

#[test]
fn steer_cutters_and_loops() {
    let moves: Vec<(i32, f32)> = vec![(132, 0.75), (130, 1.0), (123, 1.0)];
    for (status, gain) in moves {
        let mut st = playing();
        st.controllable = false;
        let mut s = sample();
        s.boss.status = status;
        let cmds = st.steer(&s, &kinds());
        assert_eq!(
            cmds,
            vec![
                Command::PowerMul { item: 77, factor: f(1.5) },
                nudge(Axis::X, 0.5, gain),
                nudge(Axis::Y, 0.5, gain),
            ]
        );
    }
}

#[test]
fn dead_boss_takes_no_orders() {
    let mut st = playing();
    st.dead = true;
    let mut s = sample();
    s.pad.special = true;
    s.pad.cat1 = 63;
    let cmds = st.steer(&s, &kinds());
    assert_eq!(cmds, vec![Command::PowerMul { item: 77, factor: f(1.5) }]);
    assert!(st.dead);
    // Nor does a later frame revive it during the match.
    st.run(&sample(), &kinds());
    assert!(!st.prepare(&sample()));
    assert!(st.dead);
}

#[test]
fn marx_frame_phases_run_in_order() {
    let t = kinds();
    let mut st = MarxState::new();
    st.begin(49, &t);
    assert_eq!(st.phase, MarxPhase::Done);
    st.begin(50, &t);
    assert_eq!(st.phase, MarxPhase::Identify);
    st.identify(2, 0, 5, 6);
    assert_eq!(st.phase, MarxPhase::Done);
    st.begin(50, &t);
    st.identify(2, 0, 6, 6);
    assert_eq!(st.phase, MarxPhase::Prepare);
    let mut s = sample();
    s.ready_go = false;
    assert!(st.prepare(&s));
    assert_eq!(st.phase, MarxPhase::EnterBoss);
    st.enter_boss(77, &t);
    assert_eq!(st.phase, MarxPhase::Run);
    assert_eq!(st.watched(), 77);
    let mut s = sample();
    s.result_mode = true;
    let (_, respawn) = st.run(&s, &t);
    assert!(respawn);
    assert_eq!(st.phase, MarxPhase::EnterResultBoss);
    st.enter_result_boss(90, &t);
    assert_eq!(st.phase, MarxPhase::Steer);
    // The last phase steers the boss the middle phase worked on.
    assert_eq!(st.watched(), 77);
    let cmds = st.steer(&sample(), &t);
    assert_eq!(cmds[0], Command::PowerMul { item: 77, factor: f(1.5) });
    assert_eq!(st.phase, MarxPhase::Done);
}
