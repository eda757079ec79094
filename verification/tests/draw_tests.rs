use automatic_spoon::cache::draw;
use automatic_spoon::item::{Field, Item};

fn named(name: &str) -> Item {
    let mut it = Item::empty();
    it.set_field(Field::Name, name.to_string());
    it
}

/// Over many trials each of the N items should come back with empirically
/// uniform frequency, about 1/N. The bounds are generous (more than ten
/// standard deviations) so the test does not flake.
#[test]
fn draw_is_empirically_uniform() {
    let names = ["a", "b", "c", "d"];
    let list: Vec<Item> = names.iter().map(|n| named(n)).collect();
    let trials = 4000;
    let mut counts = [0usize; 4];
    for _ in 0..trials {
        let got = draw(&list);
        let name = got.name.expect("drawn item should carry a name");
        let pos = names
            .iter()
            .position(|n| *n == name.as_str())
            .expect("drawn item should be one of the list");
        counts[pos] += 1;
    }
    for &c in counts.iter() {
        // expected 1000 per item
        assert!(c > 600 && c < 1400, "skewed draw distribution: {:?}", counts);
    }
}
