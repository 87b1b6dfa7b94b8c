use fernweh::electromagnetic_field::ElectromagneticField;
use fernweh::electromagnetic_field_updater::ElectromagneticFieldUpdater;
use fernweh::fields_simulator::{FieldsSimulator, SUB_STEPS};
use fernweh::grid::Stencil;
use fernweh::vector_field::VectorField;

type Cell = [f32; 4];

fn curl(s: &Stencil<Cell>) -> [f32; 3] {
    let d = |p: &Cell, m: &Cell| [(p[0] - m[0]) * 0.5, (p[1] - m[1]) * 0.5, (p[2] - m[2]) * 0.5];
    let dx = d(&s.x_plus, &s.x_minus);
    let dy = d(&s.y_plus, &s.y_minus);
    let dz = d(&s.z_plus, &s.z_minus);
    [dy[2] - dz[1], dz[0] - dx[2], dx[1] - dy[0]]
}

fn electric_rule(c: Cell, s: Stencil<Cell>, dt: f32) -> Cell {
    let k = curl(&s);
    [c[0] + k[0] * dt, c[1] + k[1] * dt, c[2] + k[2] * dt, c[3]]
}

fn magnetic_rule(c: Cell, s: Stencil<Cell>, dt: f32) -> Cell {
    let k = curl(&s);
    [c[0] - k[0] * dt, c[1] - k[1] * dt, c[2] - k[2] * dt, c[3]]
}

type Rule = fn(Cell, Stencil<Cell>, f32) -> Cell;

fn updater() -> ElectromagneticFieldUpdater<Rule, Rule> {
    ElectromagneticFieldUpdater::new(electric_rule as Rule, magnetic_rule as Rule)
}

fn uniform_field(size: [u32; 3], value: Cell) -> VectorField<Cell> {
    VectorField::new(size, value)
}

#[test]
fn new_field_is_all_zero() {
    let field = VectorField::new([3, 2, 5], [0.0f32; 4]);
    assert_eq!(field.get_size(), [3, 2, 5]);
    let data = field.get_buffer();
    assert_eq!(data.len(), 30);
    assert!(data.iter().all(|v| *v == [0.0f32; 4]));
}

#[test]
fn single_cell_grid_stays_zero() {
    let size = [1, 1, 1];
    let mut field = ElectromagneticField {
        electric_field: uniform_field(size, [0.0; 4]),
        magnetic_field: uniform_field(size, [0.0; 4]),
    };
    updater().update(&mut field, 0.5);
    assert_eq!(field.electric_field.get_buffer(), &[[0.0f32; 4]][..]);
    assert_eq!(field.magnetic_field.get_buffer(), &[[0.0f32; 4]][..]);
}

#[test]
fn single_cell_grid_keeps_any_value() {
    let size = [1, 1, 1];
    let mut field = ElectromagneticField {
        electric_field: uniform_field(size, [1.0, -2.0, 3.0, 0.0]),
        magnetic_field: uniform_field(size, [0.5, 0.25, -4.0, 0.0]),
    };
    updater().update(&mut field, 1.0);
    assert_eq!(field.electric_field.get_buffer(), &[[1.0f32, -2.0, 3.0, 0.0]][..]);
    assert_eq!(field.magnetic_field.get_buffer(), &[[0.5f32, 0.25, -4.0, 0.0]][..]);
}

#[test]
fn uniform_fields_are_unchanged() {
    let size = [3, 4, 2];
    let e = [0.25, 2.0, -1.0, 0.0];
    let b = [-3.0, 0.5, 7.0, 0.0];
    let mut field = ElectromagneticField {
        electric_field: uniform_field(size, e),
        magnetic_field: uniform_field(size, b),
    };
    updater().update(&mut field, 0.1);
    assert!(field.electric_field.get_buffer().iter().all(|v| *v == e));
    assert!(field.magnetic_field.get_buffer().iter().all(|v| *v == b));
}

#[test]
fn uniform_magnetic_field_leaves_electric_at_zero() {
    let size = [4, 4, 4];
    let mut field = ElectromagneticField {
        electric_field: uniform_field(size, [0.0; 4]),
        magnetic_field: uniform_field(size, [1.0, 0.0, 0.0, 0.0]),
    };
    updater().update(&mut field, 1.0);
    assert_eq!(field.electric_field.get_buffer().len(), 64);
    assert!(field.electric_field.get_buffer().iter().all(|v| *v == [0.0f32; 4]));
    assert!(field.magnetic_field.get_buffer().iter().all(|v| *v == [1.0f32, 0.0, 0.0, 0.0]));
}

fn ramp_field() -> ElectromagneticField<Cell> {
    let size = [4, 1, 1];
    ElectromagneticField {
        electric_field: VectorField::new(size, [0.0; 4]),
        magnetic_field: VectorField::from_fn(size, |x: u32, _y: u32, _z: u32| {
            [0.0, (x * x) as f32, 0.0, 0.0]
        }),
    }
}

#[test]
fn reversed_step_does_not_restore_fields() {
    let mut field = ramp_field();
    let e0 = field.electric_field.get_buffer().to_vec();
    let b0 = field.magnetic_field.get_buffer().to_vec();
    let u = updater();
    u.update(&mut field, 1.0);
    u.update(&mut field, -1.0);
    let restored = field.electric_field.get_buffer() == &e0[..] && field.magnetic_field.get_buffer() == &b0[..];
    assert!(!restored);
}

#[test]
fn electric_pass_reads_old_magnetic_and_magnetic_pass_reads_new_electric() {
    let mut field = ramp_field();
    updater().update(&mut field, 1.0);
    // B_y = x^2 along x: dX.y is 0.5, 2, 4, 2.5 (clamped at both ends).
    let e: Vec<f32> = field.electric_field.get_buffer().iter().map(|v| v[2]).collect();
    assert_eq!(e, vec![0.5, 2.0, 4.0, 2.5]);
    // E_z from above: dX.z is 0.75, 1.75, 0.25, -0.75; curl.y = -dX.z; B -= curl.
    let b: Vec<f32> = field.magnetic_field.get_buffer().iter().map(|v| v[1]).collect();
    assert_eq!(b, vec![0.75, 2.75, 4.25, 8.25]);
    assert!(field.electric_field.get_buffer().iter().all(|v| v[0] == 0.0 && v[1] == 0.0));
}

#[test]
fn simulator_runs_four_sub_steps_per_update() {
    assert_eq!(SUB_STEPS, 4);
    let mut by_hand = ramp_field();
    let u = updater();
    for _ in 0..4 {
        u.update(&mut by_hand, 0.05);
    }
    let mut sim = FieldsSimulator::new(ramp_field(), updater());
    sim.update(0.05);
    let f = sim.electromagnetic_field();
    assert_eq!(f.electric_field.get_buffer(), by_hand.electric_field.get_buffer());
    assert_eq!(f.magnetic_field.get_buffer(), by_hand.magnetic_field.get_buffer());
    assert_ne!(f.magnetic_field.get_buffer(), ramp_field().magnetic_field.get_buffer());
}

#[test]
fn sizes_match_detects_mismatch() {
    let same = ElectromagneticField {
        electric_field: VectorField::new([2, 2, 2], 0u8),
        magnetic_field: VectorField::new([2, 2, 2], 0u8),
    };
    assert!(same.sizes_match());
    let differ = ElectromagneticField {
        electric_field: VectorField::new([2, 2, 2], 0u8),
        magnetic_field: VectorField::new([2, 4, 1], 0u8),
    };
    assert!(!differ.sizes_match());
}
