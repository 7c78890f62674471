use wireframe::helpers::alloc_buffer;
use wireframe::mesh::triangulate;
use wireframe::mode::WireframeMode;

#[test]
fn a_log_buffer_is_filled_with_spaces() {
    assert_eq!(alloc_buffer(0), Vec::<u8>::new());
    assert_eq!(alloc_buffer(1), vec![b' ']);
    assert_eq!(alloc_buffer(5), vec![b' '; 5]);
    assert_eq!(alloc_buffer(1000).len(), 1000);
}

#[test]
fn each_entry_selects_its_mode() {
    assert_eq!(WireframeMode::from_int(0), WireframeMode::Disabled);
    assert_eq!(WireframeMode::from_int(1), WireframeMode::SinglePass);
    assert_eq!(WireframeMode::from_int(2), WireframeMode::SinglePassCorrection);
    assert_eq!(WireframeMode::from_int(3), WireframeMode::MultiPass);
}

#[test]
fn a_number_that_is_no_entry_selects_no_wireframe() {
    assert_eq!(WireframeMode::from_int(4), WireframeMode::Disabled);
    assert_eq!(WireframeMode::from_int(u32::MAX), WireframeMode::Disabled);
}

#[test]
fn a_triangle_keeps_its_corners() {
    assert_eq!(triangulate(&vec![vec![7, 8, 9]]), vec![7, 8, 9]);
}

#[test]
fn a_quad_is_split_along_the_diagonal_from_its_first_corner() {
    assert_eq!(triangulate(&vec![vec![0, 1, 2, 3]]), vec![0, 1, 2, 0, 2, 3]);
}

#[test]
fn a_face_of_more_corners_gives_its_first_triangle() {
    assert_eq!(triangulate(&vec![vec![4, 5, 6, 7, 8]]), vec![4, 5, 6]);
}

#[test]
fn faces_follow_each_other() {
    let faces = vec![vec![0, 1, 2], vec![2, 1, 3, 4], vec![9, 8, 7]];
    assert_eq!(triangulate(&faces), vec![0, 1, 2, 2, 1, 3, 2, 3, 4, 9, 8, 7]);
    assert_eq!(triangulate(&Vec::new()), Vec::<u32>::new());
}
