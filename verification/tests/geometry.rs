use std::ops::Not;
use youchoose::Bounds;
use youchoose::Fraction;
use youchoose::Pair;
use youchoose::ScreenSide;

fn terminal() -> Bounds {
    Bounds(Pair { y: 0, x: 0 }, Pair { y: 24, x: 80 })
}

fn pane(top: i32, left: i32, bottom: i32, right: i32) -> Bounds {
    Bounds(Pair { y: top, x: left }, Pair { y: bottom, x: right })
}

#[test]
fn top_takes_the_floor_of_its_share_of_the_rows() {
    let placed = ScreenSide::Top.get_bounds(terminal(), Fraction::new(3, 10));
    assert_eq!(placed, pane(0, 0, 7, 80));
}

#[test]
fn bottom_starts_one_past_what_its_share_leaves_free() {
    let placed = ScreenSide::Bottom.get_bounds(terminal(), Fraction::new(3, 10));
    assert_eq!(placed, pane(17, 0, 24, 80));
}

#[test]
fn left_takes_the_floor_of_its_share_of_the_columns() {
    let placed = ScreenSide::Left.get_bounds(terminal(), Fraction::new(3, 10));
    assert_eq!(placed, pane(0, 0, 24, 24));
}

#[test]
fn right_starts_one_past_what_its_share_leaves_free() {
    let placed = ScreenSide::Right.get_bounds(terminal(), Fraction::new(3, 10));
    assert_eq!(placed, pane(0, 57, 24, 80));
}

#[test]
fn full_is_the_screen_whatever_the_width() {
    assert_eq!(ScreenSide::Full.get_bounds(terminal(), Fraction::new(3, 10)), terminal());
    assert_eq!(ScreenSide::Full.get_bounds(terminal(), Fraction::whole()), terminal());
}

#[test]
fn left_and_right_start_from_the_left_edge_of_the_screen() {
    let screen = pane(2, 10, 12, 50);
    assert_eq!(ScreenSide::Left.get_bounds(screen, Fraction::half()), pane(2, 10, 12, 30));
    assert_eq!(ScreenSide::Right.get_bounds(screen, Fraction::half()), pane(2, 31, 12, 50));
}

#[test]
fn top_counts_its_rows_from_the_top_edge_of_the_screen() {
    let screen = pane(2, 10, 12, 50);
    assert_eq!(ScreenSide::Top.get_bounds(screen, Fraction::half()), pane(2, 10, 7, 50));
}

#[test]
fn the_whole_width_leaves_nothing_free() {
    assert_eq!(ScreenSide::Top.get_bounds(terminal(), Fraction::whole()), terminal());
    assert_eq!(ScreenSide::Left.get_bounds(terminal(), Fraction::whole()), terminal());
    assert_eq!(ScreenSide::Bottom.get_bounds(terminal(), Fraction::whole()), pane(1, 0, 24, 80));
    assert_eq!(ScreenSide::Right.get_bounds(terminal(), Fraction::whole()), pane(0, 1, 24, 80));
}

#[test]
fn placing_full_inside_a_pane_gives_the_pane_back() {
    let sides = [
        ScreenSide::Left,
        ScreenSide::Right,
        ScreenSide::Top,
        ScreenSide::Bottom,
        ScreenSide::Full,
    ];
    for side in sides {
        let placed = side.get_bounds(terminal(), Fraction::new(2, 7));
        assert_eq!(ScreenSide::Full.get_bounds(placed, Fraction::whole()), placed);
    }
}

#[test]
fn every_pane_of_a_terminal_can_be_placed() {
    let sides = [
        ScreenSide::Left,
        ScreenSide::Right,
        ScreenSide::Top,
        ScreenSide::Bottom,
        ScreenSide::Full,
    ];
    for side in sides {
        assert!(side.can_place(terminal(), Fraction::new(1, 3)));
    }
}

#[test]
fn a_pane_that_cannot_be_stored_cannot_be_placed() {
    let tall = pane(-2147483648, 0, 2147483647, 80);
    assert!(!ScreenSide::Bottom.can_place(tall, Fraction::new(1, 1000000)));
    assert!(ScreenSide::Top.can_place(tall, Fraction::new(1, 1000000)));
}

#[test]
fn sides_have_opposites() {
    assert_eq!(ScreenSide::Top.not(), ScreenSide::Bottom);
    assert_eq!(ScreenSide::Bottom.not(), ScreenSide::Top);
    assert_eq!(ScreenSide::Left.not(), ScreenSide::Right);
    assert_eq!(ScreenSide::Right.not(), ScreenSide::Left);
    assert_eq!(ScreenSide::Full.not(), ScreenSide::Full);
    assert_eq!(!ScreenSide::Left, ScreenSide::Right);
}

#[test]
fn the_opposite_of_the_opposite_is_the_side() {
    let sides = [
        ScreenSide::Left,
        ScreenSide::Right,
        ScreenSide::Top,
        ScreenSide::Bottom,
        ScreenSide::Full,
    ];
    for side in sides {
        assert_eq!(side.not().not(), side);
    }
}

#[test]
fn fractions_scale_to_the_floor() {
    assert_eq!(Fraction::new(2, 3).scale(10), 6);
    assert_eq!(Fraction::new(67, 100).scale(10), 6);
    assert_eq!(Fraction::new(1, 2).scale(7), 3);
    assert_eq!(Fraction::new(1, 1).scale(7), 7);
    assert_eq!(Fraction::new(1, 2).scale(0), 0);
    assert_eq!(Fraction::new(1, 2).scale(-7), -4);
    assert_eq!(Fraction::new(1, 2).scale(-8), -4);
    assert_eq!(Fraction::new(1, 3).scale(-1), -1);
}

#[test]
fn the_complement_is_what_is_left_of_the_whole() {
    assert_eq!(Fraction::new(3, 10).complement(), Fraction::new(7, 10));
    assert_eq!(Fraction::new(1, 1).complement(), Fraction::new(0, 1));
    assert!(!Fraction::new(1, 1).complement().valid_width());
}

#[test]
fn widths_lie_above_nothing_and_up_to_everything() {
    assert!(Fraction::half().valid_width());
    assert!(Fraction::whole().valid_width());
    assert!(!Fraction::new(0, 5).valid_width());
    assert!(!Fraction::new(6, 5).valid_width());
    assert!(!Fraction::new(0, 0).valid_width());
}

#[test]
fn pairs_add_and_subtract_by_coordinate() {
    let a = Pair { y: 3, x: 10 };
    let b = Pair { y: 1, x: -4 };
    assert_eq!(a + b, Pair { y: 4, x: 6 });
    assert_eq!(a - b, Pair { y: 2, x: 14 });
    assert_eq!(Pair::zeroed(), Pair { y: 0, x: 0 });
}

#[test]
fn bounds_shift_corner_by_corner() {
    let inner = terminal().shifted(pane(1, 1, -1, -1));
    assert_eq!(inner, pane(1, 1, 23, 79));
    assert!(terminal().can_shift(pane(1, 1, -1, -1)));
    assert!(!terminal().can_shift(pane(0, 0, 2147483647, 0)));
    assert_eq!(Bounds::zeroed(), pane(0, 0, 0, 0));
    assert_eq!(Bounds::screen(Pair { y: 24, x: 80 }), terminal());
}
