use flappy_core::bird::{Bird, JUMP_VELOCITY, RADIUS, START_Y};
use flappy_core::collision::{eliminate, Hazard};
use flappy_core::config::{ConfigError, GameParams, GameType};
use flappy_core::game::{Game, BASE_SPEED, PIPE_COUNT, VELOCITY_SCALE};
use flappy_core::pipe::{Pipe, SPACING, WIDTH};
use flappy_core::player::{PlayerHandler, SPACEBAR};
use flappy_core::training::TrainingSimulation;

fn game(game_type: GameType, width: i64, height: i64, hole_size: i64, player: bool) -> Game {
    Game::new(game_type, width, height, 10, 1, 0, hole_size, player, false)
}

#[test]
fn always_jumping_bird_hits_the_upper_pipe_on_computed_tick() {
    // Playfield 200 x 1600, gap 400. The first pipe stands at x = 200 with
    // its lower part at y = 1600 / 4 + (1600 - 800) / 2 = 800, so a bird is
    // safe for 460 < y < 740 while the pipe overlaps it (x <= 150, from the
    // seventh tick). The bird climbs 20 per tick: y = 800 - 20 k, and
    // touches the upper part (y - 60 <= 400) on tick 17, scored as 16.
    let mut g = game(GameType::SetVelocity, 200, 1600, 400, false);
    g.init_with_draws(1, &vec![800, 0, 0, 0, 0]);
    assert_eq!(g.pipes[0], Pipe { x: 200, y: 800, hole: 600, hole_size: 400 });
    let mut input = PlayerHandler::new(GameType::SetVelocity);
    let mut ticks = 0u64;
    while !g.ended() {
        let jumps = vec![true; g.birds.len()];
        g.tick(&jumps, &mut input, 0);
        ticks += 1;
        if ticks < 17 {
            assert_eq!(g.birds.len(), 1);
            assert_eq!(g.birds[0].y, START_Y - JUMP_VELOCITY * ticks as i64);
        }
        assert!(ticks <= 17);
    }
    assert_eq!(ticks, 17);
    assert_eq!(g.scores, vec![16]);
    assert_eq!(g.ticks, 17);
}

#[test]
fn never_jumping_birds_fall_out_together() {
    // Free fall from y = 800 at rest: after k ticks y = 800 + k (k - 1) / 2,
    // which first passes 1600 - 60 on tick 39, scored as 38.
    let params = GameParams::new(0, 3, 3, 200);
    let mut sim = TrainingSimulation::new(700, 800, params);
    let mut g = sim.start_generation(3, false, false).unwrap();
    let mut input = PlayerHandler::new(GameType::SetVelocity);
    let mut ticks = 0u64;
    while !g.ended() {
        let inputs = g.decision_inputs();
        assert_eq!(inputs.len(), g.birds.len());
        let jumps = vec![false; g.birds.len()];
        g.tick(&jumps, &mut input, 0);
        ticks += 1;
        assert!(ticks <= 39);
        if ticks < 39 {
            assert_eq!(g.birds.len(), 3);
        }
    }
    assert_eq!(ticks, 39);
    assert_eq!(g.scores, vec![38, 38, 38]);
}

#[test]
fn pipe_recycling_after_exact_tick_count() {
    // The first pipe starts at x = 1400 and leaves once x <= -200, after
    // (1400 + 200) / 8 = 200 moves at the base speed.
    let mut g = game(GameType::SetVelocity, 1400, 1600, 400, false);
    g.init(0);
    let ticks = (g.width + WIDTH + BASE_SPEED - 1) / BASE_SPEED;
    assert_eq!(ticks, 200);
    for _ in 0..ticks - 1 {
        g.move_pipes(0);
    }
    assert_eq!(g.current_score, 0);
    assert_eq!(g.pipes[0].x, -192);
    g.move_pipes(0);
    assert_eq!(g.current_score, 1);
    assert_eq!(g.pipes.len(), PIPE_COUNT);
    assert_eq!(g.pipes[0].x, 800);
    assert_eq!(g.pipes[4].x, 800 + 4 * SPACING);
    let last = g.pipes[4];
    assert!(last.y > g.hole_size && last.y <= g.height);
    assert_eq!(last.hole, last.y - g.hole_size / 2);
}

#[test]
fn edge_triggered_input_yields_one_jump() {
    let mut h = PlayerHandler::new(GameType::SetVelocity);
    h.pointer_down();
    h.pointer_down();
    assert!(h.is_pressed());
    assert!(!h.is_pressed());
    h.key_down(SPACEBAR);
    assert!(h.is_pressed());
    h.key_down(SPACEBAR);
    assert!(h.is_pressed());
    assert!(!h.is_pressed());
}

#[test]
fn held_input_reads_pressed_until_released() {
    let mut h = PlayerHandler::new(GameType::AddImpulse);
    h.key_down(SPACEBAR);
    assert!(h.is_pressed());
    assert!(h.is_pressed());
    h.key_up(65);
    assert!(h.is_pressed());
    h.key_up(SPACEBAR);
    assert!(!h.is_pressed());
    h.key_down(65);
    assert!(!h.is_pressed());
    h.pointer_down();
    h.pointer_up();
    assert!(!h.is_pressed());
}

#[test]
fn player_jumps_once_for_two_presses() {
    let mut g = game(GameType::SetVelocity, 1400, 1600, 400, true);
    g.init(0);
    assert!(!g.started);
    let mut input = PlayerHandler::new(GameType::SetVelocity);
    assert!(!g.check_started(&mut input));
    assert!(!g.started);
    input.pointer_down();
    assert!(g.check_started(&mut input));
    assert!(g.started);
    input.pointer_down();
    input.pointer_down();
    g.tick(&vec![], &mut input, 0);
    assert_eq!(g.player, Some(Bird { index: usize::MAX, y: START_Y - JUMP_VELOCITY, velocity: JUMP_VELOCITY - 1 }));
    g.tick(&vec![], &mut input, 0);
    assert_eq!(g.player, Some(Bird { index: usize::MAX, y: START_Y - 2 * JUMP_VELOCITY + 1, velocity: JUMP_VELOCITY - 2 }));
}

#[test]
fn impulse_jumps_accumulate() {
    let mut b = Bird::new(3);
    b.jump(GameType::AddImpulse);
    b.jump(GameType::AddImpulse);
    assert_eq!(b, Bird { index: 3, y: START_Y, velocity: 4 });
    b.jump(GameType::SetVelocity);
    b.jump(GameType::SetVelocity);
    assert_eq!(b.velocity, JUMP_VELOCITY);
    b.make_decision(GameType::AddImpulse, false);
    assert_eq!(b.velocity, JUMP_VELOCITY);
    b.make_decision(GameType::AddImpulse, true);
    assert_eq!(b.velocity, JUMP_VELOCITY + 2);
}

#[test]
fn gravity_moves_then_slows() {
    let mut b = Bird::new(0);
    b.y_velocity();
    assert_eq!((b.y, b.velocity), (800, -1));
    b.y_velocity();
    assert_eq!((b.y, b.velocity), (801, -2));
    let p = Bird::new_without_handler();
    assert_eq!(p.index, usize::MAX);
}

#[test]
fn bounds_are_inclusive() {
    let height = 1600;
    let bounds = Hazard::Bounds { height };
    let at = |y: i64| Bird { index: 0, y, velocity: 0 };
    assert!(bounds.spares_bird(&at(RADIUS)));
    assert!(bounds.spares_bird(&at(height - RADIUS)));
    assert!(!bounds.spares_bird(&at(RADIUS - 1)));
    assert!(!bounds.spares_bird(&at(height - RADIUS + 1)));
}

#[test]
fn pipe_spares_birds_inside_gap_or_away() {
    let pipe = Pipe::new(100, 800, 400);
    assert_eq!(pipe.hole, 600);
    let hazard = Hazard::Obstacle { pipe };
    let at = |y: i64| Bird { index: 0, y, velocity: 0 };
    assert!(hazard.spares_bird(&at(600)));
    assert!(!hazard.spares_bird(&at(740)));
    assert!(!hazard.spares_bird(&at(460)));
    assert!(hazard.spares_bird(&at(739)));
    let far = Hazard::Obstacle { pipe: Pipe::new(151, 800, 400) };
    assert!(far.spares_bird(&at(740)));
    let behind = Hazard::Obstacle { pipe: Pipe::new(-171, 800, 400) };
    assert!(behind.spares_bird(&at(100)));
    let edge = Hazard::Obstacle { pipe: Pipe::new(-170, 800, 400) };
    assert!(!edge.spares_bird(&at(100)));
}

#[test]
fn eliminate_scores_removed_birds_and_keeps_order() {
    let mut birds = vec![
        Bird { index: 0, y: 10, velocity: 0 },
        Bird { index: 1, y: 500, velocity: 0 },
        Bird { index: 2, y: 1590, velocity: 0 },
        Bird { index: 3, y: 700, velocity: 0 },
    ];
    let mut scores = vec![0, 0, 0, 0, 5];
    eliminate(&mut birds, &mut scores, &Hazard::Bounds { height: 1600 }, 7);
    assert_eq!(birds.iter().map(|b| b.index).collect::<Vec<_>>(), vec![1, 3]);
    assert_eq!(scores, vec![7, 0, 7, 0, 5]);
}

#[test]
fn moving_a_pipe_keeps_its_gap() {
    let mut p = Pipe::new(500, 900, 300);
    p.move_left(13);
    assert_eq!(p, Pipe { x: 487, y: 900, hole: 750, hole_size: 300 });
}

#[test]
fn first_pipe_skips_a_passed_pipe() {
    let mut g = game(GameType::SetVelocity, 200, 1600, 400, false);
    g.init_with_draws(2, &vec![800, 100, 200, 300, 400]);
    assert_eq!(g.first_pipe(), 0);
    // x + 200 >= 30 holds down to x = -170.
    for _ in 0..46 {
        g.move_pipes(0);
    }
    assert_eq!(g.pipes[0].x, -168);
    assert_eq!(g.first_pipe(), 0);
    g.move_pipes(0);
    assert_eq!(g.pipes[0].x, -176);
    assert_eq!(g.first_pipe(), 1);
}

#[test]
fn layout_follows_draws() {
    let mut g = game(GameType::AddImpulse, 1400, 1600, 400, false);
    g.init_with_draws(0, &vec![0, 100, 200, 300, 1199]);
    let xs: Vec<i64> = g.pipes.iter().map(|p| p.x).collect();
    assert_eq!(xs, vec![1400, 2400, 3400, 4400, 5400]);
    let ys: Vec<i64> = g.pipes.iter().map(|p| p.y).collect();
    assert_eq!(ys, vec![1200, 1500, 1400, 1300, 401]);
    let holes: Vec<i64> = g.pipes.iter().map(|p| p.hole).collect();
    assert_eq!(holes, vec![1000, 1300, 1200, 1100, 201]);
}

#[test]
fn first_gap_rounds_up_past_its_lower_bound() {
    // 1600 / 4 + (1600 - 1199) / 2 = 600.5, rounded up to 601: strictly
    // below a quarter of the height plus half the gap, 600.
    let mut g = game(GameType::SetVelocity, 1400, 1600, 400, false);
    g.add_pipe_with(1199);
    assert_eq!(g.pipes[0], Pipe { x: 1400, y: 601, hole: 401, hole_size: 400 });
    let mut top = game(GameType::SetVelocity, 1400, 1600, 400, false);
    top.add_pipe_with(0);
    assert_eq!(top.pipes[0].y, 1200);
    top.add_pipe_with(1199);
    assert_eq!(top.pipes[1], Pipe { x: 2400, y: 401, hole: 201, hole_size: 400 });
}

#[test]
fn first_gap_stays_within_three_quarters_of_an_odd_height() {
    // 1602 / 4 + 1602 / 2 = 1201.5 rounds up to 1202, past three quarters
    // of the height; it is held at 3 * 1602 / 4 = 1201.
    let mut g = game(GameType::SetVelocity, 1400, 1602, 400, false);
    g.add_pipe_with(0);
    assert_eq!(g.pipes[0].y, 1201);
    let mut low = game(GameType::SetVelocity, 1400, 1602, 400, false);
    low.add_pipe_with(1201);
    assert_eq!(low.pipes[0].y, 601);
    assert!(4 * low.pipes[0].y > 1602 + 2 * 400);
    for _ in 0..50 {
        let mut sim = TrainingSimulation::new(700, 801, GameParams::new(0, 1, 1, 200));
        let g = sim.start_generation(1, false, false).unwrap();
        let first = g.pipes[0].y;
        assert!(4 * first > g.height + 2 * g.hole_size && 4 * first <= 3 * g.height);
    }
}

#[test]
fn always_jumping_bird_leaves_the_top_in_a_fresh_generation() {
    // y = 800 - 20 k after k ticks; y - 60 < 0 first on tick 38, scored as
    // 37, long before the first pipe reaches the birds.
    let mut sim = TrainingSimulation::new(700, 800, GameParams::new(0, 1, 1, 200));
    let mut g = sim.start_generation(1, false, false).unwrap();
    let mut input = PlayerHandler::new(GameType::SetVelocity);
    while !g.ended() {
        let jumps = vec![true; g.birds.len()];
        g.tick(&jumps, &mut input, 0);
        assert!(g.ticks <= 38);
    }
    assert_eq!(g.ticks, 38);
    assert_eq!(g.scores, vec![37]);
}

#[test]
fn random_pipes_stay_in_the_playfield() {
    for _ in 0..50 {
        let mut g = game(GameType::SetVelocity, 1400, 1600, 400, false);
        g.init(0);
        for i in 1..PIPE_COUNT {
            let p = g.pipes[i];
            assert!(p.y > 400 && p.y <= 1600);
            assert_eq!(p.x, g.pipes[i - 1].x + SPACING);
        }
        let first = g.pipes[0].y;
        assert!(first > 600 && first <= 1200);
    }
}

#[test]
fn decision_inputs_use_the_current_pipe() {
    let mut g = game(GameType::SetVelocity, 1400, 1600, 400, false);
    g.init_with_draws(2, &vec![800, 100, 200, 300, 400]);
    g.birds[1].velocity = -6;
    let inputs = g.decision_inputs();
    assert_eq!(inputs.len(), 2);
    assert_eq!(inputs[1].distance, 2 * 1400 - 1400);
    assert_eq!(inputs[1].distance_scale, 1400);
    assert_eq!(inputs[1].offset, 800 - 600);
    assert_eq!(inputs[1].offset_scale, 1600);
    assert_eq!(inputs[1].velocity, -6);
    assert_eq!(inputs[1].velocity_scale, VELOCITY_SCALE);
}

#[test]
fn speed_ramps_only_when_enabled() {
    let fixed = game(GameType::SetVelocity, 1400, 1600, 400, false);
    assert_eq!(fixed.get_speed(5), BASE_SPEED);
    let ramped = Game::new(GameType::SetVelocity, 1400, 1600, 10, 1, 0, 400, false, true);
    assert_eq!(ramped.get_speed(0), BASE_SPEED);
    assert_eq!(ramped.get_speed(5), BASE_SPEED + 5);
}

#[test]
fn ramped_speed_scrolls_faster() {
    let mut g = Game::new(GameType::SetVelocity, 1400, 1600, 10, 1, 0, 400, false, true);
    g.init_with_draws(0, &vec![800, 100, 200, 300, 400]);
    g.game_logic(3);
    assert_eq!(g.pipes[0].x, 1400 - 11);
}

#[test]
fn game_ends_when_player_and_birds_are_gone() {
    let mut g = game(GameType::AddImpulse, 1400, 400, 100, true);
    g.init(1);
    assert!(!g.ended());
    g.started = true;
    let mut input = PlayerHandler::new(GameType::AddImpulse);
    // Birds start at y = 800, below a playfield of height 400.
    g.tick(&vec![false], &mut input, 0);
    assert!(g.ended());
    assert_eq!(g.player, None);
    assert_eq!(g.scores, vec![0]);
}

#[test]
fn collisions_record_the_tick_and_count_it() {
    let mut g = game(GameType::AddImpulse, 1400, 1600, 400, false);
    g.init(3);
    g.ticks = 41;
    g.birds[0].y = 10;
    g.birds[2].y = 1595;
    g.handle_collisions();
    assert_eq!(g.ticks, 42);
    assert_eq!(g.birds.len(), 1);
    assert_eq!(g.birds[0].index, 1);
    assert_eq!(g.scores, vec![41, 0, 41]);
}

#[test]
fn pipe_collision_removes_player_in_solid_part() {
    let mut g = game(GameType::SetVelocity, 100, 1600, 400, true);
    g.init_with_draws(1, &vec![800, 0, 0, 0, 0]);
    // The first pipe at x = 100 overlaps the birds; its gap spans 400..800.
    g.handle_pipe_collision(0);
    assert_eq!(g.player, None);
    assert!(g.birds.is_empty());
    assert_eq!(g.scores, vec![0]);
    let mut h = game(GameType::SetVelocity, 100, 1600, 400, true);
    h.init_with_draws(1, &vec![800, 0, 0, 0, 0]);
    h.birds[0].y = 600;
    h.player = Some(Bird { index: usize::MAX, y: 600, velocity: 0 });
    h.handle_pipe_collision(0);
    assert!(h.player.is_some());
    assert_eq!(h.birds.len(), 1);
}

#[test]
fn game_type_identifiers() {
    assert_eq!(GameType::from_id(0), Ok(GameType::SetVelocity));
    assert_eq!(GameType::from_id(1), Ok(GameType::AddImpulse));
    assert_eq!(GameType::from_id(2), Err(ConfigError::UnknownGameType(2)));
    assert_eq!(GameType::from_id(-1), Err(ConfigError::UnknownGameType(-1)));
    assert_eq!(GameType::AddImpulse.id(), 1);
    assert_eq!(GameType::SetVelocity.output_count(), 1);
    assert_eq!(GameType::AddImpulse.output_count(), 2);
    assert!(GameType::SetVelocity.edge_triggered());
    assert!(!GameType::AddImpulse.edge_triggered());
}

#[test]
fn start_generation_checks_settings() {
    let mut sim = TrainingSimulation::new(700, 800, GameParams::new(5, 10, 10, 200));
    assert_eq!(sim.species_count, 1);
    assert!(matches!(sim.start_generation(10, false, false), Err(ConfigError::UnknownGameType(5))));
    assert_eq!(sim.generation, 1);
    let mut sim = TrainingSimulation::new(700, 800, GameParams::new(1, 10, 10, 800));
    assert!(matches!(sim.start_generation(10, false, false), Err(ConfigError::InvalidHoleSize(800))));
    let mut sim = TrainingSimulation::new(700, 800, GameParams::new(1, 10, 10, -1));
    assert!(matches!(sim.start_generation(10, false, false), Err(ConfigError::InvalidHoleSize(-1))));
}

#[test]
fn start_generation_builds_a_fresh_game() {
    let params = GameParams::new(1, 4, 2, 150);
    assert_eq!(params.clone(), params);
    let mut sim = TrainingSimulation::new(700, 800, params);
    sim.species_count = 3;
    sim.start_generation(4, false, false).unwrap();
    let g = sim.start_generation(4, true, true).unwrap();
    assert_eq!(sim.generation, 2);
    assert_eq!(g.generation, 1);
    assert_eq!(g.game_type, GameType::AddImpulse);
    assert_eq!((g.width, g.height, g.hole_size), (1400, 1600, 300));
    assert_eq!(g.render_count, 2);
    assert_eq!(g.species_count, 3);
    assert!(g.speed);
    assert!(!g.started);
    assert_eq!(g.birds.len(), 4);
    assert_eq!(g.scores, vec![0, 0, 0, 0]);
    assert_eq!(g.pipes.len(), PIPE_COUNT);
    assert_eq!(g.pipes[0].x, 1400);
    assert_eq!(g.player, Some(Bird::new_without_handler()));
}
