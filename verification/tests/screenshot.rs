use quoteme::location::Location;
use quoteme::screenshot::{
    cursor_place, inject_at, inject_paths, next_path, swap_red_and_blue, to_rgba, ScreenCursor,
    WindowRect,
};

fn paths(list: &[&str]) -> Vec<String> {
    list.iter().map(|p| p.to_string()).collect()
}

#[test]
fn paths_are_inserted_case_insensitively_and_in_order() {
    let paths = paths(&["C:/one.png", "C:/two.png"]);
    assert_eq!(
        inject_paths("Use This Here then this here.", "this here", &paths),
        "Use This Here \"C:/one.png\" then this here \"C:/two.png\"."
    );
}

#[test]
fn leftover_paths_get_a_phrase_of_their_own() {
    assert_eq!(
        inject_paths("Look this here.", "this here", &paths(&["a", "b", "c"])),
        "Look this here \"a\". this here \"b\" this here \"c\""
    );
    assert_eq!(inject_paths("", "this here", &paths(&["a"])), "this here \"a\"");
    assert_eq!(inject_paths(" ", "this here", &paths(&["a"])), " this here \"a\"");
}

#[test]
fn phrases_without_a_screenshot_stay_as_they_are() {
    assert_eq!(
        inject_paths("this here, this here", "this here", &paths(&["a"])),
        "this here \"a\", this here"
    );
}

#[test]
fn nothing_to_insert_changes_nothing() {
    assert_eq!(inject_paths("this here", "this here", &[]), "this here");
    assert_eq!(inject_paths("text", "  ", &paths(&["a"])), "text");
}

#[test]
fn letters_that_change_length_in_lower_case() {
    // The dotted capital I becomes two characters in lower case.
    assert_eq!(
        inject_paths("İİ This HERE ok", "this here", &paths(&["p"])),
        "İİ This HERE \"p\" ok"
    );
    assert_eq!(inject_paths("ÄÖ İ x", "äö i\u{307}", &paths(&["p"])), "ÄÖ İ \"p\" x");
    // A capital sigma at the end of a word.
    assert_eq!(inject_paths("ΟΔΟΣ.", "οδος", &paths(&["p"])), "ΟΔΟΣ \"p\".");
}

#[test]
fn paths_go_where_the_lower_case_text_says() {
    let ends = inject_at("ABC", "b", "abbc", "bb", &vec![1, 2, 1], &paths(&["p"]));
    assert_eq!(ends, "AB \"p\"C");
    let inside = inject_at("ABC", "b", "abbc", "ab", &vec![1, 2, 1], &paths(&["p"]));
    assert_eq!(inside, "AB \"p\"C");
}

#[test]
fn screenshots_are_numbered() {
    let dir = Location::new("/h/id".to_string());
    assert_eq!(next_path(&dir, 7).parts, vec!["screenshot-007.png"]);
    assert_eq!(next_path(&dir, 1234).parts, vec!["screenshot-1234.png"]);
}

#[test]
fn window_sizes() {
    let w = WindowRect { left: -5, top: 10, right: 15, bottom: 11 };
    assert_eq!(w.size(), Some((20, 1)));
    assert_eq!(WindowRect { right: -5, ..w }.size(), None);
    assert_eq!(WindowRect { bottom: 9, ..w }.size(), None);
    assert_eq!(WindowRect { left: i32::MIN, right: i32::MAX, ..w }.size(), None);
}

#[test]
fn the_cursor_is_drawn_at_its_hot_spot() {
    let w = WindowRect { left: 100, top: 200, right: 300, bottom: 400 };
    let c = ScreenCursor { showing: true, x: 110, y: 205, hotspot: Some((12, 3)) };
    assert_eq!(cursor_place(&c, &w), Some((-2, 2)));
    assert_eq!(cursor_place(&ScreenCursor { hotspot: None, ..c }, &w), Some((10, 5)));
    assert_eq!(cursor_place(&ScreenCursor { showing: false, ..c }, &w), None);
    assert_eq!(cursor_place(&ScreenCursor { x: 300, ..c }, &w), None);
    assert_eq!(cursor_place(&ScreenCursor { y: 199, ..c }, &w), None);
}

#[test]
fn pixels_are_turned_round_and_made_opaque() {
    let mut pixels = vec![1, 2, 3, 4, 5, 6, 7, 8, 9, 10];
    to_rgba(&mut pixels);
    assert_eq!(pixels, vec![3, 2, 1, 255, 7, 6, 5, 255, 9, 10]);
    let mut again = vec![1, 2, 3, 4, 5];
    swap_red_and_blue(&mut again);
    assert_eq!(again, vec![3, 2, 1, 4, 5]);
    swap_red_and_blue(&mut again);
    assert_eq!(again, vec![1, 2, 3, 4, 5]);
}
