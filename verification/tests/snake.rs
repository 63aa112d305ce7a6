use constrictor::{Direction, Snake, Vector2};

#[test]
fn new_snake_has_length_one() {
    let snek = Snake::new(Vector2 { x: 4, y: 2 }, Direction::Right);
    assert_eq!(snek.facing(), Direction::Right);
    assert_eq!(snek.len(), 1);
    assert!(!snek.is_empty());
    assert_eq!(snek.head(), &Vector2 { x: 4, y: 2 });
    assert_eq!(snek.tail(), &Vector2 { x: 4, y: 2 });
}

#[test]
fn advancing_with_food_grows() {
    let mut snek = Snake::new(Vector2 { x: 4, y: 2 }, Direction::Right);
    snek.advance(true);
    assert_eq!(snek.len(), 2);
    assert_eq!(snek.head(), &Vector2 { x: 5, y: 2 });
    assert_eq!(snek.tail(), &Vector2 { x: 4, y: 2 });
}

#[test]
fn advancing_without_food_keeps_length() {
    let mut snek = Snake::new(Vector2 { x: 4, y: 2 }, Direction::Right);
    snek.advance(false);
    assert_eq!(snek.len(), 1);
    assert_eq!(snek.head(), &Vector2 { x: 5, y: 2 });
    assert_eq!(snek.tail(), &Vector2 { x: 5, y: 2 });
    snek.advance(true);
    assert_eq!(snek.len(), 2);
    assert_eq!(snek.head(), &Vector2 { x: 6, y: 2 });
    assert_eq!(snek.tail(), &Vector2 { x: 5, y: 2 });
}

#[test]
fn body_iter_runs_head_to_tail() {
    let mut snek = Snake::new(Vector2 { x: 4, y: 2 }, Direction::Right);
    snek.advance(true);
    let body = snek.body_iter();
    assert_eq!(body, vec![Vector2 { x: 5, y: 2 }, Vector2 { x: 4, y: 2 }]);
}

#[test]
fn reversing_is_rejected_after_construction() {
    let mut snek = Snake::new(Vector2 { x: 4, y: 2 }, Direction::Up);
    assert!(!snek.try_set_facing(Direction::Down));
    assert_eq!(snek.facing(), Direction::Up);
}

#[test]
fn reversing_is_rejected_until_a_turn_commits() {
    let mut snek = Snake::new(Vector2 { x: 4, y: 2 }, Direction::Up);
    snek.advance(false);

    // Still invalid because the snake moved in the direction it was facing
    // before.
    assert!(!snek.try_set_facing(Direction::Down));

    // Valid as it is perpendicular to the direction the snake last moved.
    assert!(snek.try_set_facing(Direction::Right));

    // Should remain invalid, as the snake has not actually advanced right
    // yet.
    assert!(!snek.try_set_facing(Direction::Down));
    assert_eq!(snek.facing(), Direction::Right);

    snek.advance(false);

    // Should now become valid, as the snake has advanced right.
    assert!(snek.try_set_facing(Direction::Down));
    assert_eq!(snek.facing(), Direction::Down);
}

#[test]
fn contains_tracks_the_body() {
    let mut snek = Snake::new(Vector2 { x: 4, y: 2 }, Direction::Right);
    snek.advance(true);
    snek.advance(true);
    assert!(!snek.contains(&Vector2 { x: 7, y: 2 }));
    assert!(snek.contains(&Vector2 { x: 6, y: 2 }));
    assert!(snek.contains(&Vector2 { x: 5, y: 2 }));
    assert!(snek.contains(&Vector2 { x: 4, y: 2 }));
    assert!(!snek.contains(&Vector2 { x: 3, y: 2 }));
}

#[test]
fn next_head_position_speculates_the_advance() {
    let mut snek = Snake::new(Vector2 { x: 4, y: 2 }, Direction::Right);
    let speculated = snek.next_head_position();
    snek.advance(false);
    assert_eq!(&speculated, snek.head());
}

/// Walks the snake into a self-overlap (the head returns onto the cell the
/// tail still covers) and checks that occupancy matches body membership at
/// every step, also while the overlapped cell is vacated one copy at a time.
#[test]
fn occupancy_matches_body_through_self_overlap() {
    let mut snek = Snake::new(Vector2 { x: 0, y: 0 }, Direction::Up);
    snek.advance(true);
    assert!(snek.try_set_facing(Direction::Left));
    snek.advance(true);
    assert!(snek.try_set_facing(Direction::Down));
    snek.advance(true);
    assert!(snek.try_set_facing(Direction::Right));
    snek.advance(true);

    // The head has come full circle: (0, 0) is covered twice.
    assert_eq!(snek.len(), 5);
    assert_eq!(snek.head(), &Vector2 { x: 0, y: 0 });
    assert_eq!(snek.tail(), &Vector2 { x: 0, y: 0 });
    check_occupancy_matches_body(&snek);
    assert!(snek.contains(&Vector2 { x: 0, y: 0 }));

    // One copy of (0, 0) leaves with the tail; the cell stays occupied.
    snek.advance(false);
    assert_eq!(snek.len(), 5);
    assert!(snek.contains(&Vector2 { x: 0, y: 0 }));
    check_occupancy_matches_body(&snek);

    // The next advance vacates (0, 1), which is then no longer occupied.
    snek.advance(false);
    assert!(!snek.contains(&Vector2 { x: 0, y: 1 }));
    assert!(snek.contains(&Vector2 { x: 0, y: 0 }));
    check_occupancy_matches_body(&snek);
}

fn check_occupancy_matches_body(snek: &Snake) {
    let body = snek.body_iter();
    for x in -3..3 {
        for y in -3..3 {
            let cell = Vector2 { x, y };
            assert_eq!(snek.contains(&cell), body.contains(&cell));
        }
    }
}
