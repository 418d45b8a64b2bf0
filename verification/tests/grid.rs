use soot_loop::grid::animate_translation;
use soot_loop::grid::center_of;
use soot_loop::grid::distribute_on_grid;
use soot_loop::grid::grid_cells;
use soot_loop::grid::snap_to_grid;
use soot_loop::grid::AnimateTranslation;
use soot_loop::grid::AnimationStep;
use soot_loop::grid::GridLocation;
use soot_loop::grid::MovementComplete;
use soot_loop::grid::Offset;
use soot_loop::grid::Position;
use soot_loop::grid::StackSlot;
use soot_loop::grid::ANIMATION_NANOS;
use soot_loop::grid::GRID_SPACING;
use soot_loop::grid::MAX_X;
use soot_loop::grid::MAX_Y;
use soot_loop::level::spawn_player;

#[test]
fn constants_describe_a_five_by_five_board() {
    assert_eq!(MAX_X, 5);
    assert_eq!(MAX_Y, 5);
    assert_eq!(GRID_SPACING, 130);
    assert_eq!(ANIMATION_NANOS, 200_000_000);
    assert_eq!(GridLocation::start(), GridLocation { x: 0, y: 4 });
    assert_eq!(GridLocation::goal(), GridLocation { x: 4, y: 0 });
}

#[test]
fn center_scales_by_spacing() {
    assert_eq!(center_of(&GridLocation { x: 0, y: 0 }), Position { x: 0, y: 0 });
    assert_eq!(center_of(&GridLocation { x: 1, y: 4 }), Position { x: 130, y: 520 });
    assert_eq!(center_of(&GridLocation { x: -2, y: 3 }), Position { x: -260, y: 390 });
}

#[test]
fn center_of_extreme_cells_does_not_overflow() {
    let far = center_of(&GridLocation { x: i32::MAX, y: i32::MIN });
    assert_eq!(far.x, 2_147_483_647i64 * 130);
    assert_eq!(far.y, -2_147_483_648i64 * 130);
}

#[test]
fn grid_cells_lists_every_cell_column_by_column() {
    let cells = grid_cells();
    assert_eq!(cells.len(), 25);
    assert_eq!(cells[0], GridLocation { x: 0, y: 0 });
    assert_eq!(cells[4], GridLocation { x: 0, y: 4 });
    assert_eq!(cells[5], GridLocation { x: 1, y: 0 });
    assert_eq!(cells[24], GridLocation { x: 4, y: 4 });
    for x in 0..5 {
        for y in 0..5 {
            assert_eq!(cells[(x * 5 + y) as usize], GridLocation { x, y });
        }
    }
}

#[test]
fn unit_steps_are_the_four_cardinal_offsets() {
    assert!(Offset { x: 1, y: 0 }.unit_step());
    assert!(Offset { x: -1, y: 0 }.unit_step());
    assert!(Offset { x: 0, y: 1 }.unit_step());
    assert!(Offset { x: 0, y: -1 }.unit_step());
    assert!(!Offset { x: 0, y: 0 }.unit_step());
    assert!(!Offset { x: 1, y: 1 }.unit_step());
    assert!(!Offset { x: 2, y: 0 }.unit_step());
    assert!(!Offset { x: i32::MIN, y: i32::MIN }.unit_step());
    assert!(Offset { x: 0, y: 0 }.zero());
    assert!(!Offset { x: 0, y: -1 }.zero());
}

#[test]
fn settled_glide_is_at_rest() {
    let glide = AnimateTranslation::settled(ANIMATION_NANOS);
    assert!(glide.finished);
    assert_eq!(glide.elapsed, 200_000_000);
    assert_eq!(glide.duration, 200_000_000);
    assert_eq!(glide.end, Position { x: 0, y: 0 });
}

#[test]
fn tick_of_a_resting_glide_changes_nothing() {
    let mut glide = AnimateTranslation::settled(ANIMATION_NANOS);
    let before = glide;
    assert_eq!(glide.tick(16_000_000), AnimationStep::Idle);
    assert_eq!(glide, before);
}

#[test]
fn glide_advances_and_arrives_exactly_once() {
    let mut glide = AnimateTranslation::settled(ANIMATION_NANOS);
    glide.restart(Position { x: 130, y: 520 });
    assert!(!glide.finished);
    assert_eq!(glide.elapsed, 0);
    assert_eq!(
        glide.tick(50_000_000),
        AnimationStep::Moving { elapsed: 50_000_000, duration: 200_000_000 }
    );
    assert_eq!(glide.elapsed, 50_000_000);
    assert_eq!(
        glide.tick(149_999_999),
        AnimationStep::Moving { elapsed: 199_999_999, duration: 200_000_000 }
    );
    assert_eq!(glide.tick(1), AnimationStep::Arrived { position: Position { x: 130, y: 520 } });
    assert!(glide.finished);
    assert_eq!(glide.elapsed, 200_000_000);
    assert_eq!(glide.tick(1), AnimationStep::Idle);
}

#[test]
fn glide_that_overshoots_stops_at_its_duration() {
    let mut glide = AnimateTranslation::settled(ANIMATION_NANOS);
    glide.restart(Position { x: 0, y: 0 });
    assert_eq!(glide.tick(u64::MAX), AnimationStep::Arrived { position: Position { x: 0, y: 0 } });
    assert_eq!(glide.elapsed, 200_000_000);
    assert!(glide.finished);
}

#[test]
fn glide_of_no_length_arrives_with_the_first_tick() {
    let mut glide = AnimateTranslation::settled(0);
    glide.restart(Position { x: 1, y: 2 });
    assert!(!glide.finished);
    assert_eq!(glide.tick(0), AnimationStep::Arrived { position: Position { x: 1, y: 2 } });
    assert!(glide.finished);
}

#[test]
fn new_entity_jumps_to_its_cell() {
    let mut glide = Some(AnimateTranslation::settled(ANIMATION_NANOS));
    let before = glide;
    let jump = snap_to_grid(&GridLocation { x: 0, y: 4 }, true, &mut glide);
    assert_eq!(jump, Some(Position { x: 0, y: 520 }));
    assert_eq!(glide, before);
}

#[test]
fn entity_without_glide_jumps_to_its_cell() {
    let mut glide: Option<AnimateTranslation> = None;
    let jump = snap_to_grid(&GridLocation { x: 3, y: 2 }, false, &mut glide);
    assert_eq!(jump, Some(Position { x: 390, y: 260 }));
    assert_eq!(glide, None);
}

#[test]
fn moved_entity_starts_to_glide() {
    let mut glide = Some(AnimateTranslation::settled(ANIMATION_NANOS));
    let jump = snap_to_grid(&GridLocation { x: 1, y: 4 }, false, &mut glide);
    assert_eq!(jump, None);
    assert_eq!(
        glide,
        Some(AnimateTranslation {
            end: Position { x: 130, y: 520 },
            elapsed: 0,
            duration: 200_000_000,
            finished: false,
        })
    );
}

#[test]
fn animate_translation_reports_each_agent() {
    let resting = spawn_player(1);
    let mut gliding = spawn_player(2);
    gliding.animation.restart(Position { x: 130, y: 520 });
    let mut arriving = spawn_player(3);
    arriving.animation.restart(Position { x: 260, y: 520 });
    arriving.animation.tick(190_000_000);
    let mut soots = vec![resting, gliding, arriving];
    let (steps, events) = animate_translation(&mut soots, 10_000_000);
    assert_eq!(
        steps,
        vec![
            AnimationStep::Idle,
            AnimationStep::Moving { elapsed: 10_000_000, duration: 200_000_000 },
            AnimationStep::Arrived { position: Position { x: 260, y: 520 } },
        ]
    );
    assert_eq!(events, vec![MovementComplete { entity: 3 }]);
    assert_eq!(soots[0], resting);
    assert_eq!(soots[1].animation.elapsed, 10_000_000);
    assert!(!soots[1].animation.finished);
    assert!(soots[2].animation.finished);
    assert_eq!(soots[2].animation.elapsed, 200_000_000);
    let (steps, events) = animate_translation(&mut soots, 10_000_000);
    assert_eq!(steps[2], AnimationStep::Idle);
    assert!(events.is_empty());
}

#[test]
fn entities_are_grouped_by_cell() {
    let a = GridLocation { x: 1, y: 1 };
    let b = GridLocation { x: 2, y: 3 };
    let c = GridLocation { x: 0, y: 0 };
    let slots = distribute_on_grid(&vec![a, b, a, c, a, b]);
    assert_eq!(
        slots,
        vec![
            StackSlot { index: 0, count: 3 },
            StackSlot { index: 0, count: 2 },
            StackSlot { index: 1, count: 3 },
            StackSlot { index: 0, count: 1 },
            StackSlot { index: 2, count: 3 },
            StackSlot { index: 1, count: 2 },
        ]
    );
    assert_eq!(distribute_on_grid(&vec![]), vec![]);
}
