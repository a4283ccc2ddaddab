use tcp_engine::seq_arith::{
    add_wrapping, forward_distance, in_closed_range, in_window, less_or_equal, less_than,
    sub_wrapping,
};

#[test]
fn less_than_orders_neighbours() {
    assert!(less_than(1, 2));
    assert!(!less_than(2, 1));
    assert!(!less_than(7, 7));
    assert!(less_than(1000, 1001));
}

#[test]
fn less_than_sees_through_wraparound() {
    assert!(less_than(u32::MAX, 0));
    assert!(less_than(u32::MAX - 5, 10));
    assert!(!less_than(0, u32::MAX));
    assert!(!less_than(10, u32::MAX - 5));
}

#[test]
fn less_or_equal_includes_equality() {
    assert!(less_or_equal(7, 7));
    assert!(less_or_equal(7, 8));
    assert!(!less_or_equal(8, 7));
    assert!(less_or_equal(u32::MAX, 0));
    assert!(less_or_equal(0, 0));
}

#[test]
fn less_than_is_ambiguous_at_half_space() {
    let a: u32 = 5;
    let b: u32 = 5 + 0x8000_0000;
    assert!(less_than(a, b));
    assert!(less_than(b, a));
}

#[test]
fn less_than_just_inside_half_space() {
    let a: u32 = 5;
    let b: u32 = 5 + 0x7FFF_FFFF;
    assert!(less_than(a, b));
    assert!(!less_than(b, a));
}

#[test]
fn transitivity_holds_inside_half_space() {
    let (a, b, c): (u32, u32, u32) = (u32::MAX - 10, 5, 0x7000_0000);
    assert!(less_than(a, b));
    assert!(less_than(b, c));
    assert!(less_than(a, c));
}

#[test]
fn transitivity_breaks_beyond_half_space() {
    let (a, b, c): (u32, u32, u32) = (0, 0x6000_0000, 0xC000_0000);
    assert!(less_than(a, b));
    assert!(less_than(b, c));
    assert!(!less_than(a, c));
}

#[test]
fn transitivity_breaks_at_exactly_half_space() {
    let (a, b, c): (u32, u32, u32) = (0, 0x4000_0000, 0x8000_0001);
    assert!(less_than(a, b));
    assert!(less_than(b, c));
    assert_eq!(forward_distance(a, b) as u64 + forward_distance(b, c) as u64, 0x8000_0001);
    assert!(!less_than(a, c));
    let c_edge: u32 = 0x8000_0000;
    assert!(less_than(b, c_edge));
    assert!(less_than(a, c_edge));
    assert!(less_than(c_edge, a));
}

#[test]
fn window_contains_its_start() {
    assert!(in_window(100, 100, 1));
    assert!(in_window(100, 100, 50));
    assert!(in_window(0, 0, u32::MAX));
    assert!(in_window(u32::MAX, u32::MAX, 10));
}

#[test]
fn window_excludes_its_end() {
    assert!(!in_window(150, 100, 50));
    assert!(in_window(149, 100, 50));
    assert!(!in_window(101, 100, 1));
    assert!(!in_window(99, 100, 50));
}

#[test]
fn window_wraps_across_zero() {
    let start: u32 = u32::MAX - 4;
    assert!(in_window(start, start, 10));
    assert!(in_window(u32::MAX, start, 10));
    assert!(in_window(0, start, 10));
    assert!(in_window(4, start, 10));
    assert!(!in_window(5, start, 10));
    assert_eq!(add_wrapping(start, 10), 5);
    assert!(!in_window(add_wrapping(start, 10), start, 10));
    assert!(!in_window(start - 1, start, 10));
}

#[test]
fn empty_window_contains_nothing() {
    assert!(!in_window(100, 100, 0));
    assert!(!in_window(0, 0, 0));
    assert!(!in_window(101, 100, 0));
}

#[test]
fn full_width_window_excludes_only_the_number_before_start() {
    assert!(in_window(99, 101, u32::MAX));
    assert!(!in_window(100, 101, u32::MAX));
}

#[test]
fn closed_range_includes_both_ends() {
    assert!(in_closed_range(10, 10, 11));
    assert!(in_closed_range(10, 11, 11));
    assert!(!in_closed_range(10, 12, 11));
    assert!(!in_closed_range(10, 9, 11));
    assert!(in_closed_range(u32::MAX, 0, 0));
    assert!(in_closed_range(u32::MAX, u32::MAX, 0));
    assert!(!in_closed_range(u32::MAX, 1, 0));
    assert!(in_closed_range(5, 5, 5));
    assert!(!in_closed_range(5, 6, 5));
}

#[test]
fn wrapping_steps_and_distances() {
    assert_eq!(add_wrapping(1000, 1), 1001);
    assert_eq!(add_wrapping(u32::MAX, 1), 0);
    assert_eq!(add_wrapping(u32::MAX, 10), 9);
    assert_eq!(sub_wrapping(0, 1), u32::MAX);
    assert_eq!(sub_wrapping(1001, 1), 1000);
    assert_eq!(forward_distance(1000, 1010), 10);
    assert_eq!(forward_distance(u32::MAX, 4), 5);
    assert_eq!(forward_distance(4, u32::MAX), u32::MAX - 4);
    assert_eq!(forward_distance(9, 9), 0);
}
