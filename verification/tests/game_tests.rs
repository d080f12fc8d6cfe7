use circle_pop::game::Circle;
use circle_pop::game::GameState;
use circle_pop::game::Status;

fn circle(x: i32, y: i32, radius: i32, value: i32, color: i32) -> Circle {
    Circle { x, y, radius, value, color }
}

fn state_with(circles: Vec<Circle>, score: i32) -> GameState {
    GameState {
        circles,
        pending: None,
        score,
        status: Status::Playing,
        screen_width: 500,
        screen_height: 600,
    }
}

fn assert_spawned(c: &Circle) {
    assert!(1 <= c.x && c.x < 500);
    assert!(1 <= c.y && c.y < 600);
    assert_eq!(c.radius, 50);
    assert!(1 <= c.value && c.value <= 9);
    assert!(0 <= c.color && c.color <= 3);
}

#[test]
fn fresh_state_is_seed() {
    let s = GameState::new(500, 600);
    assert_eq!(s.circles.len(), 1);
    assert_eq!(s.circles[0], circle(100, 100, 50, 1, 0));
    assert_eq!(s.score, 0);
    assert_eq!(s.status, Status::Playing);
    assert_eq!(s.pending, None);
}

#[test]
fn first_tick_grows_seed_and_replenishes_to_ten() {
    let mut s = GameState::new(500, 600);
    s.tick();
    assert_eq!(s.circles.len(), 10);
    assert_eq!(s.circles[0], circle(100, 100, 58, 1, 0));
    for c in &s.circles[1..] {
        assert_spawned(c);
    }
    assert_eq!(s.score, 0);
    assert_eq!(s.status, Status::Playing);
    assert_eq!(s.pending, None);
}

#[test]
fn center_click_pops_circle() {
    let mut s = state_with(vec![circle(200, 300, 60, 5, 2)], 0);
    s.click(200, 300);
    s.tick();
    assert_eq!(s.score, 5);
    assert_eq!(s.circles.len(), 10);
    for c in &s.circles {
        assert_spawned(c);
    }
}

#[test]
fn click_at_exact_radius_distance_pops() {
    let mut s = state_with(vec![circle(100, 100, 50, 3, 1)], 0);
    s.click(150, 100);
    s.tick();
    assert_eq!(s.score, 3);
    for c in &s.circles {
        assert_eq!(c.radius, 50);
    }
}

#[test]
fn click_just_outside_radius_misses() {
    let mut s = state_with(vec![circle(100, 100, 50, 3, 1)], 0);
    s.click(151, 100);
    s.tick();
    assert_eq!(s.score, 0);
    assert_eq!(s.circles[0], circle(100, 100, 58, 3, 1));
}

#[test]
fn missed_click_grows_every_survivor_by_eight() {
    let mut s = state_with(vec![circle(50, 50, 50, 2, 0), circle(400, 500, 70, 7, 3)], 10);
    s.click(250, 250);
    s.tick();
    assert_eq!(s.circles.len(), 10);
    assert_eq!(s.circles[0], circle(50, 50, 58, 2, 0));
    assert_eq!(s.circles[1], circle(400, 500, 78, 7, 3));
    for c in &s.circles[2..] {
        assert_spawned(c);
    }
    assert_eq!(s.score, 10);
}

#[test]
fn circle_expires_when_growth_would_reach_cap() {
    let mut s = state_with(vec![circle(100, 100, 191, 4, 0), circle(300, 300, 192, 6, 1)], 0);
    s.tick();
    assert_eq!(s.circles.len(), 10);
    assert_eq!(s.circles[0], circle(100, 100, 199, 4, 0));
    for c in &s.circles[1..] {
        assert_spawned(c);
    }
    assert_eq!(s.score, 0);
}

#[test]
fn overlapping_hits_all_pop_but_last_value_wins() {
    let mut s = state_with(vec![circle(100, 100, 50, 4, 0), circle(110, 100, 50, 7, 1)], 0);
    s.click(105, 100);
    s.tick();
    assert_eq!(s.score, 7);
    assert_eq!(s.circles.len(), 10);
    for c in &s.circles {
        assert_spawned(c);
    }
}

#[test]
fn ten_overlapping_hits_score_only_the_last() {
    let mut circles = Vec::new();
    for v in 1..=9 {
        circles.push(circle(250, 250, 50, v, 0));
    }
    circles.push(circle(250, 250, 50, 2, 1));
    let mut s = state_with(circles, 0);
    s.click(250, 250);
    s.tick();
    assert_eq!(s.score, 2);
    assert_eq!(s.circles.len(), 10);
    for c in &s.circles {
        assert_spawned(c);
    }
}

#[test]
fn later_click_overwrites_pending_one() {
    let mut s = state_with(vec![circle(100, 100, 50, 3, 0), circle(400, 400, 50, 8, 1)], 0);
    s.click(100, 100);
    s.click(400, 400);
    assert_eq!(s.pending, Some((400, 400)));
    s.tick();
    assert_eq!(s.score, 8);
    assert_eq!(s.circles[0], circle(100, 100, 58, 3, 0));
}

#[test]
fn click_is_consumed_by_one_tick_only() {
    let mut s = state_with(vec![circle(100, 100, 50, 3, 0)], 0);
    s.click(100, 100);
    s.tick();
    assert_eq!(s.score, 3);
    assert_eq!(s.pending, None);
    let score_after_pop = s.score;
    s.tick();
    assert_eq!(s.score, score_after_pop);
}

#[test]
fn exact_target_wins_and_click_restarts() {
    let mut s = state_with(vec![circle(100, 100, 50, 4, 0)], 95);
    s.click(100, 100);
    s.tick();
    assert_eq!(s.score, 99);
    assert_eq!(s.status, Status::Won);

    let circles_when_won = s.circles.clone();
    s.tick();
    assert_eq!(s.score, 99);
    assert_eq!(s.status, Status::Won);
    assert_eq!(s.circles, circles_when_won);

    s.click(321, 7);
    assert_eq!(s.circles.len(), 1);
    assert_eq!(s.circles[0], circle(100, 100, 50, 1, 0));
    assert_eq!(s.score, 0);
    assert_eq!(s.status, Status::Playing);
    assert_eq!(s.pending, None);
}

#[test]
fn overshoot_wraps_instead_of_winning() {
    let mut s = state_with(vec![circle(100, 100, 50, 9, 0)], 95);
    s.click(100, 100);
    s.tick();
    assert_eq!(s.score, 5);
    assert_eq!(s.status, Status::Playing);
}

#[test]
fn count_and_radii_stay_in_bounds_over_many_ticks() {
    let mut s = GameState::new(500, 600);
    for round in 0..60 {
        if round % 3 == 1 {
            s.click(round * 7 % 500, round * 13 % 600);
        }
        s.tick();
        assert!(1 <= s.circles.len() && s.circles.len() <= 10);
        for c in &s.circles {
            assert!(50 <= c.radius && c.radius < 200);
            assert!(1 <= c.value && c.value <= 9);
            assert!(0 <= c.color && c.color <= 3);
        }
        assert!(s.status == Status::Won || (0 <= s.score && s.score < 99));
    }
}
