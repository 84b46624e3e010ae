use digital_life_core::resource::ResourceField;

#[test]
fn new_field_is_square_and_uniform() {
    let field = ResourceField::new(4, 1.0f32);
    assert_eq!(field.width(), 4);
    assert_eq!(field.height(), 4);
    assert_eq!(field.cells().len(), 16);
    assert!(field.cells().iter().all(|&v| v == 1.0));
}

#[test]
fn set_then_get_reaches_the_same_cell() {
    let mut field = ResourceField::new(4, 1.0f32);
    field.set(2, 3, 0.25);
    assert_eq!(field.get(2, 3), 0.25);
    assert_eq!(field.cells()[3 * 4 + 2], 0.25);
    assert_eq!(field.cells().iter().filter(|&&v| v != 1.0).count(), 1);
}

#[test]
fn coordinates_beyond_the_grid_reach_the_last_cell() {
    let mut field = ResourceField::new(3, 0.0f32);
    field.set(7, 1, 5.0);
    assert_eq!(field.get(2, 1), 5.0);
    field.set(0, 100, 6.0);
    assert_eq!(field.get(0, 2), 6.0);
    field.set(usize::MAX, usize::MAX, 7.0);
    assert_eq!(field.cells()[8], 7.0);
    assert_eq!(field.get(9, 9), 7.0);
}

#[test]
fn set_at_writes_by_position() {
    let mut field = ResourceField::new(2, 0u32);
    field.set_at(3, 9);
    assert_eq!(field.get(1, 1), 9);
    assert_eq!(field.cells(), &[0, 0, 0, 9][..]);
}

#[test]
fn empty_field_has_no_cells() {
    let field = ResourceField::new(0, 1.0f64);
    assert_eq!(field.width(), 0);
    assert!(field.cells().is_empty());
}
