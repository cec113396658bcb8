use canvas_tex::{
    choose_strategy, DamageSummary, DamageTracker, Position, Size, Strategy, DEFAULT_CAPACITY,
};

fn at(x: usize, y: usize) -> Position {
    Position { x, y }
}

fn sparse_cells(summary: DamageSummary) -> Vec<Position> {
    match summary {
        DamageSummary::Sparse(cells) => cells,
        other => panic!("expected a list of cells, got {:?}", other),
    }
}

fn region_parts(summary: DamageSummary) -> (Position, Size, usize) {
    match summary {
        DamageSummary::Region { min, size, area } => (min, size, area),
        other => panic!("expected a region, got {:?}", other),
    }
}

#[test]
fn fresh_tracker_drains_empty() {
    let mut tracker = DamageTracker::new();
    assert!(tracker.is_empty());
    assert_eq!(tracker.sparse_capacity(), DEFAULT_CAPACITY);
    assert!(matches!(tracker.drain(), DamageSummary::Empty));
}

#[test]
fn one_write_is_listed() {
    let mut tracker = DamageTracker::with_capacity(4);
    tracker.mark_pixel(at(3, 7));
    assert!(!tracker.is_empty());
    assert_eq!(sparse_cells(tracker.drain()), vec![at(3, 7)]);
}

#[test]
fn few_writes_are_listed_once_each() {
    let mut tracker = DamageTracker::with_capacity(8);
    for p in [at(1, 1), at(5, 2), at(1, 1), at(0, 9), at(5, 2), at(1, 1)] {
        tracker.mark_pixel(p);
    }
    assert_eq!(sparse_cells(tracker.drain()), vec![at(1, 1), at(5, 2), at(0, 9)]);
}

#[test]
fn order_of_writes_does_not_change_the_set() {
    let writes = [at(4, 4), at(2, 8), at(9, 0), at(2, 8)];
    let mut forward = DamageTracker::with_capacity(8);
    let mut backward = DamageTracker::with_capacity(8);
    for p in writes {
        forward.mark_pixel(p);
    }
    for p in writes.iter().rev() {
        backward.mark_pixel(*p);
    }
    let mut a = sparse_cells(forward.drain());
    let mut b = sparse_cells(backward.drain());
    a.sort_by_key(|p| (p.x, p.y));
    b.sort_by_key(|p| (p.x, p.y));
    assert_eq!(a, vec![at(2, 8), at(4, 4), at(9, 0)]);
    assert_eq!(a, b);
}

#[test]
fn a_full_list_stays_a_list() {
    let mut tracker = DamageTracker::with_capacity(3);
    for p in [at(0, 0), at(1, 0), at(2, 0), at(1, 0), at(0, 0)] {
        tracker.mark_pixel(p);
    }
    assert_eq!(sparse_cells(tracker.drain()), vec![at(0, 0), at(1, 0), at(2, 0)]);
}

#[test]
fn one_cell_too_many_gives_the_bounding_box() {
    let mut tracker = DamageTracker::with_capacity(3);
    for p in [at(4, 6), at(2, 9), at(7, 3), at(5, 5)] {
        tracker.mark_pixel(p);
    }
    let (min, size, area) = region_parts(tracker.drain());
    assert_eq!(min, at(2, 3));
    assert_eq!(size, Size { width: 6, height: 7 });
    assert_eq!(area, 4);
}

#[test]
fn duplicates_do_not_trigger_the_region() {
    let mut tracker = DamageTracker::with_capacity(2);
    for _ in 0..10 {
        tracker.mark_pixel(at(1, 1));
        tracker.mark_pixel(at(2, 2));
    }
    assert_eq!(sparse_cells(tracker.drain()), vec![at(1, 1), at(2, 2)]);
}

#[test]
fn region_grows_and_counts_every_write() {
    let mut tracker = DamageTracker::with_capacity(1);
    tracker.mark_pixel(at(5, 5));
    tracker.mark_pixel(at(6, 5));
    tracker.mark_pixel(at(6, 5));
    tracker.mark_pixel(at(5, 5));
    tracker.mark_pixel(at(3, 8));
    tracker.mark_pixel(at(9, 1));
    let (min, size, area) = region_parts(tracker.drain());
    assert_eq!(min, at(3, 1));
    assert_eq!(size, Size { width: 7, height: 8 });
    assert_eq!(area, 6);
}

#[test]
fn capacity_zero_goes_straight_to_a_region() {
    let mut tracker = DamageTracker::with_capacity(0);
    tracker.mark_pixel(at(4, 2));
    let (min, size, area) = region_parts(tracker.drain());
    assert_eq!(min, at(4, 2));
    assert_eq!(size, Size { width: 1, height: 1 });
    assert_eq!(area, 1);
}

#[test]
fn drain_twice_gives_empty() {
    let mut tracker = DamageTracker::with_capacity(2);
    tracker.mark_pixel(at(1, 2));
    assert!(matches!(tracker.drain(), DamageSummary::Sparse(_)));
    assert!(matches!(tracker.drain(), DamageSummary::Empty));
    for p in [at(0, 0), at(1, 1), at(2, 2)] {
        tracker.mark_pixel(p);
    }
    assert!(matches!(tracker.drain(), DamageSummary::Region { .. }));
    assert!(matches!(tracker.drain(), DamageSummary::Empty));
    assert!(tracker.is_empty());
    assert_eq!(tracker.sparse_capacity(), 2);
}

#[test]
fn tracker_starts_over_after_a_drain() {
    let mut tracker = DamageTracker::with_capacity(1);
    tracker.mark_pixel(at(0, 0));
    tracker.mark_pixel(at(9, 9));
    let (_, _, area) = region_parts(tracker.drain());
    assert_eq!(area, 2);
    tracker.mark_pixel(at(3, 3));
    assert_eq!(sparse_cells(tracker.drain()), vec![at(3, 3)]);
}

#[test]
fn mark_all_covers_the_canvas() {
    let mut tracker = DamageTracker::with_capacity(8);
    tracker.mark_pixel(at(1, 1));
    tracker.mark_all(Size { width: 6, height: 4 });
    let (min, size, area) = region_parts(tracker.drain());
    assert_eq!(min, at(0, 0));
    assert_eq!(size, Size { width: 6, height: 4 });
    assert_eq!(area, 24);
}

#[test]
fn writes_after_mark_all_only_add_to_the_count() {
    let mut tracker = DamageTracker::new();
    tracker.mark_all(Size { width: 6, height: 4 });
    tracker.mark_pixel(at(2, 2));
    tracker.mark_pixel(at(2, 2));
    let (min, size, area) = region_parts(tracker.drain());
    assert_eq!(min, at(0, 0));
    assert_eq!(size, Size { width: 6, height: 4 });
    assert_eq!(area, 26);
}

#[test]
fn mark_all_of_an_empty_canvas_then_a_write() {
    let mut tracker = DamageTracker::new();
    tracker.mark_all(Size { width: 0, height: 5 });
    tracker.mark_pixel(at(3, 2));
    let (min, size, area) = region_parts(tracker.drain());
    assert_eq!(min, at(3, 0));
    assert_eq!(size, Size { width: 1, height: 5 });
    assert_eq!(area, 1);
}

#[test]
fn mark_rect_of_one_cell_is_one_write() {
    let mut tracker = DamageTracker::with_capacity(4);
    tracker.mark_rect(at(7, 8), Size { width: 1, height: 1 });
    assert_eq!(sparse_cells(tracker.drain()), vec![at(7, 8)]);
}

#[test]
fn mark_rect_marks_row_by_row() {
    let mut tracker = DamageTracker::with_capacity(8);
    tracker.mark_rect(at(2, 5), Size { width: 3, height: 2 });
    assert_eq!(
        sparse_cells(tracker.drain()),
        vec![at(2, 5), at(3, 5), at(4, 5), at(2, 6), at(3, 6), at(4, 6)]
    );
}

#[test]
fn mark_rect_past_the_capacity_is_a_region() {
    let mut tracker = DamageTracker::with_capacity(4);
    tracker.mark_pixel(at(0, 0));
    tracker.mark_rect(at(2, 5), Size { width: 3, height: 2 });
    let (min, size, area) = region_parts(tracker.drain());
    assert_eq!(min, at(0, 0));
    assert_eq!(size, Size { width: 5, height: 7 });
    assert_eq!(area, 7);
}

#[test]
fn mark_rect_without_cells_marks_nothing() {
    let mut tracker = DamageTracker::with_capacity(4);
    tracker.mark_rect(at(2, 5), Size { width: 0, height: 3 });
    tracker.mark_rect(at(2, 5), Size { width: 3, height: 0 });
    assert!(matches!(tracker.drain(), DamageSummary::Empty));
}

#[test]
fn two_pixels_on_a_small_canvas_are_sent_one_by_one() {
    let mut tracker = DamageTracker::with_capacity(4);
    tracker.mark_pixel(at(0, 1));
    tracker.mark_pixel(at(3, 2));
    let summary = tracker.drain();
    assert_eq!(choose_strategy(&summary, 16), Strategy::Pixels);
    assert_eq!(sparse_cells(summary), vec![at(0, 1), at(3, 2)]);
}

#[test]
fn nine_pixels_on_a_small_canvas_replace_it() {
    let mut tracker = DamageTracker::with_capacity(4);
    for i in 0..9 {
        tracker.mark_pixel(at(i % 4, i / 4));
    }
    let summary = tracker.drain();
    assert_eq!(choose_strategy(&summary, 16), Strategy::Replace);
    let (min, size, area) = region_parts(summary);
    assert_eq!(min, at(0, 0));
    assert_eq!(size, Size { width: 4, height: 3 });
    assert_eq!(area, 9);
    assert!(area >= 8);
}

#[test]
fn strategy_turns_at_half_the_canvas() {
    let region = |area| DamageSummary::Region {
        min: at(0, 0),
        size: Size { width: 2, height: 2 },
        area,
    };
    assert_eq!(choose_strategy(&region(7), 16), Strategy::Patch);
    assert_eq!(choose_strategy(&region(8), 16), Strategy::Replace);
    assert_eq!(choose_strategy(&region(7), 17), Strategy::Patch);
    assert_eq!(choose_strategy(&region(8), 17), Strategy::Replace);
    assert_eq!(choose_strategy(&region(0), 0), Strategy::Replace);
    assert_eq!(choose_strategy(&region(0), 1), Strategy::Replace);
    assert_eq!(choose_strategy(&region(0), 2), Strategy::Patch);
    assert_eq!(choose_strategy(&DamageSummary::Empty, 16), Strategy::Nothing);
    assert_eq!(choose_strategy(&DamageSummary::Sparse(vec![at(0, 0)]), 16), Strategy::Pixels);
}
