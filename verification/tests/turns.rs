use soot_loop::fault::Fault;
use soot_loop::grid::GridLocation;
use soot_loop::grid::MovementComplete;
use soot_loop::grid::Position;
use soot_loop::level::spawn_player;
use soot_loop::soot::Soot;
use soot_loop::turns::detect_game_over;
use soot_loop::turns::next_turn;
use soot_loop::turns::LoopCounter;
use soot_loop::turns::TurnCounter;

fn agent(entity: u64, loop_number: i32, x: i32, y: i32) -> Soot {
    let mut soot = spawn_player(entity);
    soot.loop_number = loop_number;
    soot.location = GridLocation { x, y };
    soot
}

#[test]
fn turn_stays_without_an_event() {
    let soots = vec![agent(1, 0, 0, 4), agent(2, 1, 0, 4)];
    let mut turn = TurnCounter(1);
    assert_eq!(next_turn(&mut turn, &LoopCounter(1), &soots, &vec![]), Ok(()));
    assert_eq!(turn, TurnCounter(1));
}

#[test]
fn single_agent_keeps_the_turn() {
    let soots = vec![agent(1, 0, 1, 4)];
    let mut turn = TurnCounter(0);
    let events = vec![MovementComplete { entity: 1 }];
    assert_eq!(next_turn(&mut turn, &LoopCounter(0), &soots, &events), Ok(()));
    assert_eq!(turn, TurnCounter(0));
}

#[test]
fn two_agents_alternate() {
    let soots = vec![agent(1, 0, 1, 4), agent(2, 1, 0, 4)];
    let mut turn = TurnCounter(0);
    assert_eq!(
        next_turn(&mut turn, &LoopCounter(1), &soots, &vec![MovementComplete { entity: 1 }]),
        Ok(())
    );
    assert_eq!(turn, TurnCounter(1));
    assert_eq!(
        next_turn(&mut turn, &LoopCounter(1), &soots, &vec![MovementComplete { entity: 2 }]),
        Ok(())
    );
    assert_eq!(turn, TurnCounter(0));
}

#[test]
fn agent_at_the_goal_is_passed_over() {
    let soots = vec![agent(1, 0, 1, 4), agent(2, 1, 4, 0)];
    let mut turn = TurnCounter(0);
    assert_eq!(
        next_turn(&mut turn, &LoopCounter(1), &soots, &vec![MovementComplete { entity: 1 }]),
        Ok(())
    );
    assert_eq!(turn, TurnCounter(0));

    let soots = vec![agent(1, 0, 4, 0), agent(2, 1, 3, 0)];
    let mut turn = TurnCounter(1);
    assert_eq!(
        next_turn(&mut turn, &LoopCounter(1), &soots, &vec![MovementComplete { entity: 2 }]),
        Ok(())
    );
    assert_eq!(turn, TurnCounter(1));
}

#[test]
fn turn_goes_to_zero_when_nobody_can_move() {
    let soots = vec![agent(1, 0, 4, 0), agent(2, 1, 4, 0)];
    let mut turn = TurnCounter(1);
    assert_eq!(
        next_turn(&mut turn, &LoopCounter(1), &soots, &vec![MovementComplete { entity: 2 }]),
        Ok(())
    );
    assert_eq!(turn, TurnCounter(0));
    let alone = vec![agent(1, 0, 4, 0)];
    let mut turn = TurnCounter(0);
    assert_eq!(
        next_turn(&mut turn, &LoopCounter(0), &alone, &vec![MovementComplete { entity: 1 }]),
        Ok(())
    );
    assert_eq!(turn, TurnCounter(0));
}

#[test]
fn three_agents_rotate_and_skip() {
    let soots = vec![agent(1, 0, 1, 4), agent(2, 1, 4, 0), agent(3, 2, 2, 2)];
    let mut turn = TurnCounter(0);
    assert_eq!(
        next_turn(&mut turn, &LoopCounter(2), &soots, &vec![MovementComplete { entity: 1 }]),
        Ok(())
    );
    assert_eq!(turn, TurnCounter(2));
    assert_eq!(
        next_turn(&mut turn, &LoopCounter(2), &soots, &vec![MovementComplete { entity: 3 }]),
        Ok(())
    );
    assert_eq!(turn, TurnCounter(0));
}

#[test]
fn never_selects_an_agent_that_cannot_move() {
    let cells = [(0, 4), (4, 0), (2, 2)];
    for a in cells {
        for b in cells {
            for start in 0..2 {
                let soots = vec![agent(1, 0, a.0, a.1), agent(2, 1, b.0, b.1)];
                let mut turn = TurnCounter(start);
                let mover = if start == 0 { 1 } else { 2 };
                let events = vec![MovementComplete { entity: mover }];
                assert_eq!(next_turn(&mut turn, &LoopCounter(1), &soots, &events), Ok(()));
                let at_goal = |n: i32| soots.iter().any(|s| s.loop_number == n && s.location == GridLocation { x: 4, y: 0 });
                if at_goal(0) && at_goal(1) {
                    assert_eq!(turn, TurnCounter(0));
                } else {
                    assert!(!at_goal(turn.0));
                }
            }
        }
    }
}

#[test]
fn two_movement_events_are_a_fault() {
    let soots = vec![agent(1, 0, 1, 4), agent(2, 1, 0, 4)];
    let mut turn = TurnCounter(0);
    let events = vec![MovementComplete { entity: 1 }, MovementComplete { entity: 2 }];
    assert_eq!(
        next_turn(&mut turn, &LoopCounter(1), &soots, &events),
        Err(Fault::MultipleMovementEvents)
    );
    assert_eq!(turn, TurnCounter(0));
}

#[test]
fn wrong_mover_is_a_fault() {
    let soots = vec![agent(1, 0, 1, 4), agent(2, 1, 0, 4)];
    let mut turn = TurnCounter(0);
    assert_eq!(
        next_turn(&mut turn, &LoopCounter(1), &soots, &vec![MovementComplete { entity: 2 }]),
        Err(Fault::WrongMover)
    );
    assert_eq!(turn, TurnCounter(0));
}

#[test]
fn movement_of_an_unknown_agent_is_a_fault() {
    let soots = vec![agent(1, 0, 1, 4)];
    let mut turn = TurnCounter(0);
    assert_eq!(
        next_turn(&mut turn, &LoopCounter(0), &soots, &vec![MovementComplete { entity: 5 }]),
        Err(Fault::MissingAgent)
    );
    assert_eq!(turn, TurnCounter(0));
}

#[test]
fn episode_ends_when_all_rest_at_the_goal() {
    assert!(detect_game_over(&vec![agent(1, 0, 4, 0)]));
    assert!(detect_game_over(&vec![agent(1, 0, 4, 0), agent(2, 1, 4, 0)]));
    assert!(!detect_game_over(&vec![agent(1, 0, 4, 0), agent(2, 1, 3, 0)]));
    assert!(!detect_game_over(&vec![agent(1, 0, 0, 4)]));
    assert!(!detect_game_over(&vec![agent(1, 0, 0, 4), agent(2, 1, 0, 4)]));
}

#[test]
fn episode_does_not_end_while_an_agent_glides_onto_the_goal() {
    let mut gliding = agent(2, 1, 4, 0);
    gliding.animation.restart(Position { x: 520, y: 0 });
    let mut soots = vec![agent(1, 0, 4, 0), gliding];
    assert!(!detect_game_over(&soots));
    soots[1].animation.tick(199_999_999);
    assert!(!detect_game_over(&soots));
    soots[1].animation.tick(1);
    assert!(detect_game_over(&soots));
}

#[test]
fn episode_without_agents_counts_as_over() {
    assert!(detect_game_over(&vec![]));
}
