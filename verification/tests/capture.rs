use lan_mouse::capture::{choose_capture_edge, detect_edge, EdgeCapture, PositionSet};
use lan_mouse::proto::Position;

fn positions(positions: &[Position]) -> PositionSet {
    PositionSet::from_slice(positions)
}

#[test]
fn accepts_matching_edge() {
    let active = positions(&[Position::Right]);

    assert_eq!(
        choose_capture_edge(&active, Position::Right),
        Some(Position::Right)
    );
}

#[test]
fn rejects_perpendicular_edge_for_single_return_barrier() {
    let active = positions(&[Position::Right]);

    assert_eq!(choose_capture_edge(&active, Position::Bottom), None);
    assert_eq!(choose_capture_edge(&active, Position::Top), None);
}

#[test]
fn edges_are_detected_near_screen_borders() {
    assert_eq!(detect_edge(0, 500, 1920, 1080), Some(Position::Left));
    assert_eq!(detect_edge(2, 500, 1920, 1080), Some(Position::Left));
    assert_eq!(detect_edge(1917, 500, 1920, 1080), Some(Position::Right));
    assert_eq!(detect_edge(1916, 500, 1920, 1080), None);
    assert_eq!(detect_edge(500, 1, 1920, 1080), Some(Position::Top));
    assert_eq!(detect_edge(500, 1077, 1920, 1080), Some(Position::Bottom));
    assert_eq!(detect_edge(0, 0, 1920, 1080), Some(Position::Left));
    assert_eq!(detect_edge(500, 500, i32::MIN, 1080), Some(Position::Right));
}

#[test]
fn capture_begins_once_per_edge_visit() {
    let mut capture = EdgeCapture::new();
    capture.create(Position::Right);
    let edge = capture.pointer_edge(1919, 500, 1920, 1080);
    assert_eq!(edge, Some((Position::Right, Position::Right)));
    assert_eq!(capture.poll(edge), Some(Position::Right));
    capture.release();
    assert_eq!(capture.poll(edge), None);
    assert_eq!(capture.poll(None), None);
    assert_eq!(capture.poll(edge), Some(Position::Right));
    capture.destroy(Position::Right);
    assert_eq!(capture.pointer_edge(1919, 500, 1920, 1080), None);
    assert_eq!(capture.active_edge, None);
}

#[test]
fn position_sets_insert_and_remove() {
    let mut set = PositionSet::new();
    assert!(!set.contains(Position::Top));
    assert!(set.insert(Position::Top));
    assert!(!set.insert(Position::Top));
    assert!(set.contains(Position::Top));
    assert!(set.remove(Position::Top));
    assert!(!set.remove(Position::Top));
    assert!(!set.contains(Position::Top));
}
