use sph_fluid::interaction::{
    density_hue, drag, index_of, pick, pointer_event, press, release, spawn, throw_velocity, DragState,
    PointerEvent, THROW_GAIN,
};
use sph_fluid::particle::Particle;
use sph_fluid::vec2::Vec2;

fn moving(handle: u64, x: i64, y: i64, vx: i64, vy: i64) -> Particle {
    Particle { handle, position: Vec2::new(x, y), velocity: Vec2::new(vx, vy) }
}

fn idle() -> DragState {
    DragState { selected: None, last_cursor: None }
}

fn store() -> Vec<Particle> {
    vec![moving(10, 0, 0, 1, 1), moving(20, 500_000, 0, 2, 2), moving(30, 9_000_000, 0, 3, 3)]
}

#[test]
fn the_first_particle_in_reach_is_picked() {
    let s = store();
    assert_eq!(pick(&s, Vec2::new(400_000, 0), 1_000_000), Some(0));
    assert_eq!(pick(&s, Vec2::new(1_400_000, 0), 1_000_000), Some(1));
    assert_eq!(pick(&s, Vec2::new(10_000_000, 0), 1_000_000), Some(2));
    assert_eq!(pick(&s, Vec2::new(10_000_001, 0), 1_000_000), None);
    assert_eq!(pick(&s, Vec2::new(0, 5_000_000), 1_000_000), None);
    assert_eq!(pick(&Vec::new(), Vec2::new(0, 0), 1_000_000), None);
}

#[test]
fn particles_are_found_by_handle() {
    let mut s = store();
    assert_eq!(index_of(&s, 20), Some(1));
    assert_eq!(index_of(&s, 99), None);
    s.push(moving(10, 7, 7, 0, 0));
    assert_eq!(index_of(&s, 10), Some(0));
}

#[test]
fn a_throw_is_ten_times_the_last_movement() {
    assert_eq!(THROW_GAIN, 10);
    assert_eq!(throw_velocity(Vec2::new(10, 10), Vec2::new(13, 6)), Some(Vec2::new(30, -40)));
    assert_eq!(throw_velocity(Vec2::new(5, 5), Vec2::new(5, 5)), Some(Vec2::new(0, 0)));
    assert_eq!(throw_velocity(Vec2::new(0, 0), Vec2::new(i64::MAX, 0)), None);
    assert_eq!(throw_velocity(Vec2::new(i64::MAX, 0), Vec2::new(i64::MIN, 0)), None);
}

#[test]
fn pressing_on_a_particle_picks_it_up() {
    let s = store();
    let mut state = idle();
    press(&mut state, &s, Vec2::new(300, 200), Some(Vec2::new(600_000, 100_000)), 1_000_000);
    assert_eq!(state, DragState { selected: Some(10), last_cursor: Some(Vec2::new(300, 200)) });
    press(&mut state, &s, Vec2::new(1, 2), Some(Vec2::new(9_000_000, 500_000)), 1_000_000);
    assert_eq!(state, DragState { selected: Some(30), last_cursor: Some(Vec2::new(1, 2)) });
}

#[test]
fn pressing_on_nothing_changes_nothing() {
    let s = store();
    let mut state = DragState { selected: Some(20), last_cursor: Some(Vec2::new(5, 5)) };
    press(&mut state, &s, Vec2::new(300, 200), Some(Vec2::new(0, 40_000_000)), 1_000_000);
    assert_eq!(state, DragState { selected: Some(20), last_cursor: Some(Vec2::new(5, 5)) });
    press(&mut state, &s, Vec2::new(300, 200), None, 1_000_000);
    assert_eq!(state, DragState { selected: Some(20), last_cursor: Some(Vec2::new(5, 5)) });
    let mut fresh = idle();
    press(&mut fresh, &s, Vec2::new(300, 200), None, 1_000_000);
    assert_eq!(fresh, idle());
}

#[test]
fn letting_go_throws_the_particle() {
    let mut s = store();
    let mut state = DragState { selected: Some(20), last_cursor: Some(Vec2::new(100, 100)) };
    release(&mut state, &mut s, Vec2::new(103, 96));
    assert_eq!(state, idle());
    assert_eq!(s[0], moving(10, 0, 0, 1, 1));
    assert_eq!(s[1], moving(20, 500_000, 0, 30, -40));
    assert_eq!(s[2], moving(30, 9_000_000, 0, 3, 3));
}

#[test]
fn letting_go_of_nothing_only_clears_the_state() {
    let mut s = store();
    let mut state = idle();
    release(&mut state, &mut s, Vec2::new(103, 96));
    assert_eq!(state, idle());
    assert_eq!(s, store());
    let mut gone = DragState { selected: Some(99), last_cursor: Some(Vec2::new(0, 0)) };
    release(&mut gone, &mut s, Vec2::new(103, 96));
    assert_eq!(gone, idle());
    assert_eq!(s, store());
    let mut unseen = DragState { selected: Some(20), last_cursor: None };
    release(&mut unseen, &mut s, Vec2::new(103, 96));
    assert_eq!(unseen, idle());
    assert_eq!(s, store());
    let mut wild = DragState { selected: Some(20), last_cursor: Some(Vec2::new(i64::MIN, 0)) };
    release(&mut wild, &mut s, Vec2::new(i64::MAX, 0));
    assert_eq!(wild, idle());
    assert_eq!(s, store());
}

#[test]
fn a_held_particle_follows_the_pointer() {
    let mut s = store();
    let mut state = DragState { selected: Some(30), last_cursor: Some(Vec2::new(100, 100)) };
    drag(&mut state, &mut s, Vec2::new(110, 120), Some(Vec2::new(-4_000_000, 2_000_000)));
    assert_eq!(state, DragState { selected: Some(30), last_cursor: Some(Vec2::new(110, 120)) });
    assert_eq!(s[2], moving(30, -4_000_000, 2_000_000, 3, 3));
    assert_eq!(s[0], moving(10, 0, 0, 1, 1));
    assert_eq!(s[1], moving(20, 500_000, 0, 2, 2));
}

#[test]
fn dragging_without_a_particle_or_a_place_changes_nothing() {
    let mut s = store();
    let mut state = idle();
    drag(&mut state, &mut s, Vec2::new(110, 120), Some(Vec2::new(1, 1)));
    assert_eq!(state, idle());
    assert_eq!(s, store());
    let held = DragState { selected: Some(30), last_cursor: Some(Vec2::new(100, 100)) };
    let mut state = held;
    drag(&mut state, &mut s, Vec2::new(110, 120), None);
    assert_eq!(state, held);
    assert_eq!(s, store());
    let gone = DragState { selected: Some(99), last_cursor: Some(Vec2::new(100, 100)) };
    let mut state = gone;
    drag(&mut state, &mut s, Vec2::new(110, 120), Some(Vec2::new(1, 1)));
    assert_eq!(state, gone);
    assert_eq!(s, store());
}

#[test]
fn a_whole_drag() {
    let mut s = store();
    let mut state = idle();
    pointer_event(&mut state, &mut s, PointerEvent::Pressed, Vec2::new(50, 50), Some(Vec2::new(100_000, 0)), 1_000_000);
    assert_eq!(state.selected, Some(10));
    assert_eq!(s, store());
    pointer_event(&mut state, &mut s, PointerEvent::Held, Vec2::new(60, 50), Some(Vec2::new(3_000_000, 0)), 1_000_000);
    assert_eq!(s[0].position, Vec2::new(3_000_000, 0));
    assert_eq!(state.last_cursor, Some(Vec2::new(60, 50)));
    pointer_event(&mut state, &mut s, PointerEvent::Released, Vec2::new(67, 48), Some(Vec2::new(4_000_000, 0)), 1_000_000);
    assert_eq!(state, idle());
    assert_eq!(s[0], moving(10, 3_000_000, 0, 70, -20));
    pointer_event(&mut state, &mut s, PointerEvent::Held, Vec2::new(70, 48), Some(Vec2::new(5_000_000, 0)), 1_000_000);
    assert_eq!(s[0], moving(10, 3_000_000, 0, 70, -20));
}

#[test]
fn a_new_particle_is_at_rest_at_the_end_of_the_store() {
    let mut s = store();
    spawn(&mut s, 40, Vec2::new(-1, -2));
    assert_eq!(s.len(), 4);
    assert_eq!(s[3], moving(40, -1, -2, 0, 0));
    assert_eq!(s[..3], store()[..]);
}

#[test]
fn hue_of_a_density() {
    assert_eq!(density_hue(0), 0);
    assert_eq!(density_hue(500_000), 180_000_000);
    assert_eq!(density_hue(1_000_000), 0);
    assert_eq!(density_hue(3_819_700), 295_092_000);
    assert_eq!(density_hue(-500_000), -180_000_000);
    assert_eq!(density_hue(i64::MAX), 360 * (i64::MAX % 1_000_000));
    assert_eq!(density_hue(i64::MIN), 360 * (i64::MIN % 1_000_000));
}
