use soot_loop::grid::AnimateTranslation;
use soot_loop::grid::GridLocation;
use soot_loop::grid::Position;
use soot_loop::inventory::Inventory;
use soot_loop::inventory::Item;
use soot_loop::level::add_candies_to_level;
use soot_loop::level::add_fuel_to_level;
use soot_loop::level::candy_color;
use soot_loop::level::free_cell;
use soot_loop::level::reset_level;
use soot_loop::level::spawn_past_self;
use soot_loop::level::spawn_player;
use soot_loop::level::CandyColor;
use soot_loop::level::Level;
use soot_loop::level::SpawnRequest;
use soot_loop::level::FREE_CELLS;
use soot_loop::level::NUM_CANDIES;
use soot_loop::level::NUM_FUEL;
use soot_loop::soot::Soot;
use soot_loop::turns::LoopCounter;

fn is_free(cell: GridLocation) -> bool {
    0 <= cell.x
        && cell.x < 5
        && 0 <= cell.y
        && cell.y < 5
        && cell != GridLocation { x: 0, y: 4 }
        && cell != GridLocation { x: 4, y: 0 }
}

#[test]
fn free_cells_are_all_cells_but_start_and_goal() {
    assert_eq!(FREE_CELLS, 23);
    let cells: Vec<GridLocation> = (0..FREE_CELLS).map(free_cell).collect();
    for (i, cell) in cells.iter().enumerate() {
        assert!(is_free(*cell));
        for other in &cells[..i] {
            assert_ne!(cell, other);
        }
    }
    assert_eq!(cells[0], GridLocation { x: 0, y: 0 });
    assert_eq!(cells[3], GridLocation { x: 0, y: 3 });
    assert_eq!(cells[4], GridLocation { x: 1, y: 0 });
    assert_eq!(cells[18], GridLocation { x: 3, y: 4 });
    assert_eq!(cells[19], GridLocation { x: 4, y: 1 });
    assert_eq!(cells[22], GridLocation { x: 4, y: 4 });
}

#[test]
fn candy_colors_by_number() {
    assert_eq!(candy_color(0), CandyColor::Red);
    assert_eq!(candy_color(1), CandyColor::Green);
    assert_eq!(candy_color(2), CandyColor::Yellow);
}

#[test]
fn candies_are_drawn_on_free_cells_in_loop_zero() {
    for _ in 0..200 {
        let mut level = Level::new();
        add_candies_to_level(&mut level, &LoopCounter(0));
        assert_eq!(level.spawn.len(), NUM_CANDIES);
        assert_eq!(level.spawn.len(), 10);
        for request in &level.spawn {
            assert!(matches!(request, SpawnRequest::Candy { .. }));
            assert_eq!(request.item(), Item::Candy);
            assert!(is_free(request.location()));
        }
    }
}

#[test]
fn fuel_is_drawn_on_free_cells_in_loop_zero() {
    for _ in 0..200 {
        let mut level = Level::new();
        add_fuel_to_level(&mut level, &LoopCounter(0));
        assert_eq!(level.spawn.len(), NUM_FUEL);
        assert_eq!(level.spawn.len(), 2);
        for request in &level.spawn {
            assert!(matches!(request, SpawnRequest::Fuel { .. }));
            assert_eq!(request.item(), Item::Fuel);
            assert!(is_free(request.location()));
        }
    }
}

#[test]
fn drawing_keeps_what_the_level_held() {
    let mut level = Level::new();
    add_candies_to_level(&mut level, &LoopCounter(0));
    let candies = level.spawn.clone();
    add_fuel_to_level(&mut level, &LoopCounter(0));
    assert_eq!(level.spawn.len(), 12);
    assert_eq!(&level.spawn[..10], &candies[..]);
}

#[test]
fn level_is_kept_for_the_replay_loop() {
    let mut level = Level::new();
    add_candies_to_level(&mut level, &LoopCounter(0));
    add_fuel_to_level(&mut level, &LoopCounter(0));
    let drawn = level.clone();
    reset_level(&mut level, &LoopCounter(1));
    add_candies_to_level(&mut level, &LoopCounter(1));
    add_fuel_to_level(&mut level, &LoopCounter(1));
    assert_eq!(level, drawn);
    reset_level(&mut level, &LoopCounter(0));
    assert_eq!(level, Level::default());
    assert!(level.spawn.is_empty());
}

#[test]
fn agents_enter_on_the_start_cell_empty_handed_and_at_rest() {
    let expected = Soot {
        entity: 42,
        loop_number: 0,
        location: GridLocation { x: 0, y: 4 },
        inventory: Inventory { candies: 0, fuel: 0 },
        animation: AnimateTranslation {
            end: Position { x: 0, y: 0 },
            elapsed: 200_000_000,
            duration: 200_000_000,
            finished: true,
        },
    };
    assert_eq!(spawn_player(42), expected);
    let echo = spawn_past_self(43, &LoopCounter(1)).unwrap();
    assert_eq!(echo, Soot { entity: 43, loop_number: 1, ..expected });
}

#[test]
fn echo_exists_only_in_loop_one() {
    assert_eq!(spawn_past_self(43, &LoopCounter(0)), None);
    assert_eq!(spawn_past_self(43, &LoopCounter(2)), None);
    assert!(spawn_past_self(43, &LoopCounter(1)).is_some());
}
