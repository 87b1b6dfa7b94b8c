use fernweh::fields_simulator::charge_offset;
use fernweh::grid::{cell_address, minus_neighbor, plus_neighbor, stencil_indices};
use fernweh::vector_field::{is_valid_size, VectorField};

#[test]
fn cell_address_is_row_major_from_x() {
    let size = [4, 3, 2];
    assert_eq!(cell_address(size, 0, 0, 0), 0);
    assert_eq!(cell_address(size, 1, 0, 0), 1);
    assert_eq!(cell_address(size, 0, 1, 0), 4);
    assert_eq!(cell_address(size, 0, 0, 1), 12);
    assert_eq!(cell_address(size, 3, 2, 1), 23);
}

#[test]
fn neighbours_are_clamped_at_the_borders() {
    assert_eq!(minus_neighbor(0), 0);
    assert_eq!(minus_neighbor(5), 4);
    assert_eq!(plus_neighbor(2, 3), 2);
    assert_eq!(plus_neighbor(1, 3), 2);
    assert_eq!(plus_neighbor(0, 1), 0);
}

#[test]
fn stencil_of_a_corner_reuses_the_cell() {
    let size = [4, 3, 2];
    let s = stencil_indices(size, 0, 2, 1);
    assert_eq!(s.center, 20);
    assert_eq!(s.x_minus, 20);
    assert_eq!(s.x_plus, 21);
    assert_eq!(s.y_minus, 16);
    assert_eq!(s.y_plus, 20);
    assert_eq!(s.z_minus, 8);
    assert_eq!(s.z_plus, 20);
}

#[test]
fn every_stencil_stays_inside_the_grid() {
    for size in [[1u32, 1, 1], [1, 5, 1], [2, 3, 4], [5, 1, 3], [7, 6, 5]] {
        let count = (size[0] * size[1] * size[2]) as usize;
        for z in 0..size[2] {
            for y in 0..size[1] {
                for x in 0..size[0] {
                    let s = stencil_indices(size, x, y, z);
                    for i in [s.center, s.x_minus, s.x_plus, s.y_minus, s.y_plus, s.z_minus, s.z_plus] {
                        assert!(i < count);
                    }
                }
            }
        }
    }
}

#[test]
fn single_cell_grid_stencil_is_the_cell() {
    let s = stencil_indices([1, 1, 1], 0, 0, 0);
    for i in [s.center, s.x_minus, s.x_plus, s.y_minus, s.y_plus, s.z_minus, s.z_plus] {
        assert_eq!(i, 0);
    }
}

#[test]
fn size_validation() {
    assert!(is_valid_size([1, 1, 1]));
    assert!(is_valid_size([72, 72, 192]));
    assert!(!is_valid_size([0, 4, 4]));
    assert!(!is_valid_size([4, 0, 4]));
    assert!(!is_valid_size([4, 4, 0]));
    assert!(!is_valid_size([65536, 65536, 1]));
    assert!(!is_valid_size([4096, 4096, 4096]));
    assert!(is_valid_size([65535, 65537, 1]));
}

#[test]
fn from_fn_places_values_by_address() {
    let size = [3, 2, 2];
    let field = VectorField::from_fn(size, |x: u32, y: u32, z: u32| 100 * z + 10 * y + x);
    let data = field.get_buffer();
    assert_eq!(data, &[0, 1, 2, 10, 11, 12, 100, 101, 102, 110, 111, 112][..]);
}

#[test]
fn new_with_data_keeps_the_data() {
    let field = VectorField::new_with_data([2, 1, 2], vec![4, 3, 2, 1]);
    assert_eq!(field.get_buffer(), &[4, 3, 2, 1][..]);
}

#[test]
fn set_cell_replaces_one_value() {
    let mut field = VectorField::new([2, 2, 1], 0i32);
    field.set_cell(3, 9);
    assert_eq!(field.get_buffer(), &[0, 0, 0, 9][..]);
}

#[test]
fn charge_centre_cell_is_singular() {
    let size = [48, 32, 24];
    assert_eq!(charge_offset(size, 24, 16, 12), None);
    assert_eq!(charge_offset(size, 0, 0, 0), Some([-48, -32, -24]));
    assert_eq!(charge_offset(size, 25, 16, 12), Some([2, 0, 0]));
}

#[test]
fn charge_offsets_mirror_about_the_centre() {
    let size = [48, 32, 24];
    let d = charge_offset(size, 10, 5, 20).unwrap();
    let m = charge_offset(size, 38, 27, 4).unwrap();
    assert_eq!(m, [-d[0], -d[1], -d[2]]);
    let mx = charge_offset(size, 38, 5, 20).unwrap();
    assert_eq!(mx, [-d[0], d[1], d[2]]);
    let len = |v: [i64; 3]| v[0] * v[0] + v[1] * v[1] + v[2] * v[2];
    assert_eq!(len(d), len(m));
    assert_eq!(len(d), len(mx));
}

#[test]
fn odd_grid_has_no_singular_cell() {
    let size = [3, 5, 7];
    for z in 0..7 {
        for y in 0..5 {
            for x in 0..3 {
                assert!(charge_offset(size, x, y, z).is_some());
            }
        }
    }
}

#[test]
fn get_buffer_mut_writes_in_place() {
    let mut field = VectorField::new([3, 1, 1], 1u16);
    let data = field.get_buffer_mut();
    data[0] = 5;
    data[2] = 7;
    assert_eq!(field.get_buffer(), &[5, 1, 7][..]);
    assert_eq!(field.get_size(), [3, 1, 1]);
}
