use game_of_life::Universe;

#[test]
fn render_is_identical_without_mutation() {
    let mut u = Universe::new();
    u.set_width(6);
    u.set_height(4);
    u.set_cells(&[(0, 0), (1, 3), (2, 5)]);
    let first = u.render();
    let second = u.render();
    assert_eq!(first, second);
}

#[test]
fn render_layout_two_by_two() {
    let mut u = Universe::new();
    u.set_width(2);
    u.set_height(2);
    u.set_cells(&[(0, 0)]);
    let text = u.render();
    assert_eq!(text, "\u{25fc}\u{25fb}\n\u{25fb}\u{25fb}\n");
}

#[test]
fn render_changes_after_toggle() {
    let mut u = Universe::new();
    u.set_width(3);
    u.set_height(1);
    let before = u.render();
    assert_eq!(before, "\u{25fb}\u{25fb}\u{25fb}\n");
    u.toggle_cell(0, 1);
    let after = u.render();
    assert_eq!(after, "\u{25fb}\u{25fc}\u{25fb}\n");
    assert_ne!(before, after);
}

#[test]
fn render_one_line_per_row() {
    let mut u = Universe::new();
    u.set_width(4);
    u.set_height(3);
    let text = u.render();
    assert_eq!(text.lines().count(), 3);
    for line in text.lines() {
        assert_eq!(line.chars().count(), 4);
        assert!(line.chars().all(|g| g == '\u{25fb}'));
    }
}
