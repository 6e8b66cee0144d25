use forest_fire::cell::{Cell, CellType};
use forest_fire::palette::{colour, opacity, Rgba};

#[test]
fn opacity_grows_by_thirty_one_a_tick() {
    assert_eq!(opacity(0), 0);
    assert_eq!(opacity(1), 31);
    assert_eq!(opacity(8), 248);
    assert_eq!(opacity(9), 255);
    assert_eq!(opacity(10), 255);
    assert_eq!(opacity(usize::MAX), 255);
}

#[test]
fn colours_by_type() {
    let at = |kind: CellType, age: usize| colour(&Cell { age, cell_type: kind, propagation: 1 });
    assert_eq!(at(CellType::Empty, 3), Rgba { r: 0, g: 0, b: 0, a: 255 });
    assert_eq!(at(CellType::Grass, 3), Rgba { r: 25, g: 200, b: 80, a: 93 });
    assert_eq!(at(CellType::Tree, 0), Rgba { r: 80, g: 150, b: 80, a: 0 });
    assert_eq!(at(CellType::Flame, 20), Rgba { r: 200, g: 50, b: 50, a: 255 });
}
