use automatic_spoon::cache::{SelectionCache, draw, draw_at};
use automatic_spoon::item::{Field, Item};

fn named(name: &str) -> Item {
    let mut it = Item::empty();
    it.set_field(Field::Name, name.to_string());
    it
}

#[test]
fn freeze_then_peek_returns_exactly_the_item() {
    let mut c = SelectionCache::new();
    c.freeze("movies".to_string(), named("Dune"));
    let got = c.peek(&"movies".to_string()).expect("entry should be frozen");
    assert_eq!(got, &named("Dune"));
}

#[test]
fn freeze_overwrites_an_earlier_pin() {
    let mut c = SelectionCache::new();
    c.freeze("movies".to_string(), named("Dune"));
    c.freeze("movies".to_string(), named("Arrival"));
    assert_eq!(c.peek(&"movies".to_string()), Some(&named("Arrival")));
}

#[test]
fn thaw_then_peek_returns_absent() {
    let mut c = SelectionCache::new();
    c.freeze("movies".to_string(), named("Dune"));
    c.thaw(&"movies".to_string());
    assert_eq!(c.peek(&"movies".to_string()), None);
}

#[test]
fn thaw_absent_is_noop() {
    let mut c = SelectionCache::new();
    c.freeze("movies".to_string(), named("Dune"));
    c.thaw(&"books".to_string());
    assert!(c.peek(&"movies".to_string()).is_some());
}

#[test]
fn thaw_all_clears_every_pin() {
    let mut c = SelectionCache::new();
    c.freeze("movies".to_string(), named("Dune"));
    c.freeze("books".to_string(), named("Solaris"));
    assert!(!c.is_empty());
    c.thaw_all();
    assert!(c.is_empty());
    assert_eq!(c.peek(&"movies".to_string()), None);
    assert_eq!(c.peek(&"books".to_string()), None);
}

#[test]
fn draw_on_empty_list_returns_sentinel() {
    let empty: Vec<Item> = Vec::new();
    let got = draw(&empty);
    assert_eq!(got, Item::empty());
}

#[test]
fn draw_on_nonempty_list_returns_a_member() {
    let list = vec![named("a"), named("b"), named("c")];
    for _ in 0..50 {
        let got = draw(&list);
        assert!(list.contains(&got));
    }
}

#[test]
fn draw_at_pins_the_outcome() {
    let list = vec![named("a"), named("b"), named("c")];
    assert_eq!(draw_at(&list, 0), named("a"));
    assert_eq!(draw_at(&list, 1), named("b"));
    assert_eq!(draw_at(&list, 2), named("c"));
    // the supplied pick is reduced modulo the length
    assert_eq!(draw_at(&list, 4), named("b"));
}

#[test]
fn draw_at_on_empty_list_returns_sentinel() {
    let empty: Vec<Item> = Vec::new();
    assert_eq!(draw_at(&empty, 7), Item::empty());
}
