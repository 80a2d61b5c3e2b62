use seax_util::compiler_tools::{AtLocation, Location};
use seax_util::list::List;
use seax_util::text::Render;

#[test]
fn test_location_absolute() {
    assert_eq!(Location { col: 4, line: 10 }.absolute(), 14);
    assert_eq!(Location { col: 0, line: 0 }.absolute(), 0);
    assert_eq!(Location { col: -3, line: 1 }.absolute(), -2);
    assert_eq!(Location { col: isize::MAX, line: 0 }.absolute(), isize::MAX);
    assert_eq!(Location { col: isize::MIN, line: isize::MAX }.absolute(), -1);
}

#[test]
fn test_location_checked_absolute() {
    assert_eq!(Location { col: 4, line: 10 }.checked_absolute(), Some(14));
    assert_eq!(Location { col: isize::MAX, line: 1 }.checked_absolute(), None);
    assert_eq!(Location { col: -1, line: isize::MIN }.checked_absolute(), None);
    assert_eq!(Location { col: 1, line: isize::MIN }.checked_absolute(), Some(isize::MIN + 1));
}

#[test]
fn test_location_render() {
    assert_eq!(Location { col: 4, line: 10 }.render(), "line 10, column 4");
    assert_eq!(Location { col: -4, line: 0 }.render(), "line 0, column -4");
}

#[test]
fn test_at_location_render() {
    let found = AtLocation { location: Location { col: 7, line: 2 }, value: 42i32 };
    assert_eq!(found.render(), "42 at line 2, column 7");
    let listed = AtLocation {
        location: Location { col: 1, line: 1 },
        value: List::from_vec(vec![1u64, 2u64]),
    };
    assert_eq!(listed.render(), "(1, 2) at line 1, column 1");
}

#[test]
fn test_at_location_deref() {
    let found = AtLocation { location: Location { col: 7, line: 2 }, value: String::from("abc") };
    assert_eq!(found.len(), 3);
    assert_eq!(*found, "abc");
    assert_eq!(found.location, Location { col: 7, line: 2 });
}
