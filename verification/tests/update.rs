use rustfilm::cell::{Cell, Pos};
use rustfilm::forces::ForceFunc;
use rustfilm::scalar::Scalar;
use rustfilm::settings::Settings;
use rustfilm::update::{
    apply_hook, constrained_major, enum_major, enum_minor, func_enum, pluck, pluck_major,
    sine_major, update, Hook, UpdateFunc,
};

fn s(v: f64) -> Scalar {
    Scalar::from_bits(v.to_bits())
}

fn cell() -> Cell {
    Cell::new(s(0.5), s(0.5), s(0.01)).unwrap()
}

fn marks(c: &Cell) -> (bool, ForceFunc, UpdateFunc) {
    (c.fixed, c.force, c.update)
}

#[test]
fn names_stand_for_treatments() {
    assert_eq!(func_enum("none"), UpdateFunc::NoUpdate);
    assert_eq!(func_enum("constrained"), UpdateFunc::Constrained);
    assert_eq!(func_enum("sine"), UpdateFunc::Sine);
    assert_eq!(func_enum("pluck"), UpdateFunc::Pluck);
    assert_eq!(func_enum("Pluck"), UpdateFunc::NoUpdate);
    assert_eq!(func_enum(""), UpdateFunc::NoUpdate);
    assert_eq!(func_enum("sines"), UpdateFunc::NoUpdate);
}

#[test]
fn treatments_have_major_hooks_only() {
    assert_eq!(enum_major(&UpdateFunc::NoUpdate), None);
    assert_eq!(enum_major(&UpdateFunc::Constrained), Some(Hook::ConstrainedMajor));
    assert_eq!(enum_major(&UpdateFunc::Sine), Some(Hook::SineMajor));
    assert_eq!(enum_major(&UpdateFunc::Pluck), Some(Hook::PluckMajor));
    for e in [UpdateFunc::NoUpdate, UpdateFunc::Constrained, UpdateFunc::Sine, UpdateFunc::Pluck] {
        assert_eq!(enum_minor(&e), None);
    }
}

#[test]
fn the_constrained_hook_marks_first_and_last_column() {
    let set = Settings::new();
    let mut c = cell();
    constrained_major(4, 9, &mut c, &set);
    assert_eq!(marks(&c), (true, ForceFunc::NoForce, UpdateFunc::NoUpdate));
    let mut c = cell();
    constrained_major(4, 0, &mut c, &set);
    assert_eq!(marks(&c), (false, ForceFunc::Constrained, UpdateFunc::NoUpdate));
    let mut c = cell();
    constrained_major(0, 5, &mut c, &set);
    assert_eq!(marks(&c), (false, ForceFunc::NoForce, UpdateFunc::NoUpdate));
}

#[test]
fn the_sine_hook_marks_first_and_last_column() {
    let set = Settings::new();
    let mut c = cell();
    sine_major(4, 9, &mut c, &set);
    assert_eq!(marks(&c), (true, ForceFunc::NoForce, UpdateFunc::NoUpdate));
    let mut c = cell();
    sine_major(4, 0, &mut c, &set);
    assert_eq!(marks(&c), (false, ForceFunc::Sine, UpdateFunc::NoUpdate));
    let mut c = cell();
    sine_major(9, 8, &mut c, &set);
    assert_eq!(marks(&c), (false, ForceFunc::NoForce, UpdateFunc::NoUpdate));
}

#[test]
fn a_lattice_of_one_row_has_its_only_column_pinned() {
    let mut set = Settings::new();
    set.nrows = 1;
    let mut c = cell();
    constrained_major(0, 0, &mut c, &set);
    assert_eq!(marks(&c), (true, ForceFunc::NoForce, UpdateFunc::NoUpdate));
    let mut c = cell();
    sine_major(0, 0, &mut c, &set);
    assert_eq!(marks(&c), (true, ForceFunc::NoForce, UpdateFunc::NoUpdate));
}

#[test]
fn a_lattice_of_no_rows_has_no_last_column() {
    let mut set = Settings::new();
    set.nrows = 0;
    let mut c = cell();
    constrained_major(0, 0, &mut c, &set);
    assert_eq!(marks(&c), (false, ForceFunc::Constrained, UpdateFunc::NoUpdate));
    let mut c = cell();
    sine_major(0, usize::MAX, &mut c, &set);
    assert_eq!(marks(&c), (false, ForceFunc::NoForce, UpdateFunc::NoUpdate));
}

#[test]
fn the_pluck_hook_marks_the_corner() {
    let set = Settings::new();
    let mut c = cell();
    pluck_major(0, 0, &mut c, &set);
    assert_eq!(marks(&c), (true, ForceFunc::NoForce, UpdateFunc::Pluck));
    let mut c = cell();
    pluck_major(0, 1, &mut c, &set);
    assert_eq!(marks(&c), (false, ForceFunc::NoForce, UpdateFunc::NoUpdate));
    let mut c = cell();
    pluck_major(1, 0, &mut c, &set);
    assert_eq!(marks(&c), (false, ForceFunc::NoForce, UpdateFunc::NoUpdate));
}

#[test]
fn a_hook_runs_its_treatment() {
    let set = Settings::new();
    let mut c = cell();
    apply_hook(Hook::ConstrainedMajor, 3, 0, &mut c, &set);
    assert_eq!(marks(&c), (false, ForceFunc::Constrained, UpdateFunc::NoUpdate));
    let mut c = cell();
    apply_hook(Hook::SineMajor, 3, 0, &mut c, &set);
    assert_eq!(marks(&c), (false, ForceFunc::Sine, UpdateFunc::NoUpdate));
    let mut c = cell();
    apply_hook(Hook::PluckMajor, 0, 0, &mut c, &set);
    assert_eq!(marks(&c), (true, ForceFunc::NoForce, UpdateFunc::Pluck));
}

#[test]
fn only_a_plucked_cell_is_shifted() {
    let mut c = cell();
    assert_eq!(update(&c), None);
    c.update = UpdateFunc::Constrained;
    assert_eq!(update(&c), None);
    c.update = UpdateFunc::Sine;
    assert_eq!(update(&c), None);
    c.update = UpdateFunc::Pluck;
    assert_eq!(update(&c), Some(Pos { x: s(-0.025), y: s(-0.025) }));
    assert_eq!(pluck(&c), Pos { x: s(-0.025), y: s(-0.025) });
}

#[test]
fn the_shift_takes_a_fortieth_off() {
    let shift = pluck(&cell());
    let x = 0.5 + f64::from_bits(shift.x.to_bits());
    assert_eq!(x, 0.5 - 0.025);
}
