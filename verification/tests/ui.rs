use tileboard::app::{App, Modal};
use tileboard::config::Config;
use tileboard::tiles::Registry;
use tileboard::field::{fitting_start, input_window, next_boundary, previous_boundary, start_after, start_before};

#[test]
fn long_unicode_inputs_keep_the_caret_visible() {
    for value in [
        "a long title beyond the field",
        "한글 타일 이름입니다",
        "👨‍💻👨‍💻👨‍💻name",
    ] {
        for width in 3..20 {
            for cursor in value.char_indices().map(|(i, _)| i).chain([value.len()]) {
                let (_, column) = input_window(value, cursor, width);
                assert!(column < width);
            }
        }
    }
}

#[test]
fn the_window_starts_where_the_rest_fits() {
    let (shown, column) = input_window("abcdef", 6, 4);
    assert_eq!(shown, "def");
    assert_eq!(column, 3);
    let (shown, column) = input_window("abc", 1, 10);
    assert_eq!(shown, "abc");
    assert_eq!(column, 1);
}

#[test]
fn the_first_start_narrower_than_the_field_is_chosen() {
    assert_eq!(fitting_start(&vec![9, 6, 3, 1], 4), Some(2));
    assert_eq!(fitting_start(&vec![9, 6], 4), None);
    assert_eq!(fitting_start(&vec![], 4), None);
    assert_eq!(fitting_start(&vec![1, 0], 0), Some(1));
    assert_eq!(fitting_start(&vec![1, 1], 1), None);
}

#[test]
fn cursor_steps_land_on_grapheme_starts() {
    assert_eq!(start_before(&vec![0, 2, 5], 5), 2);
    assert_eq!(start_before(&vec![0, 2, 5], 6), 5);
    assert_eq!(start_before(&vec![0, 2, 5], 0), 0);
    assert_eq!(start_after(&vec![0, 2, 5], 2, 9), 5);
    assert_eq!(start_after(&vec![0, 2, 5], 5, 9), 9);
    let family = "a👨‍💻b";
    assert_eq!(next_boundary(family, 1), family.len() - 1);
    assert_eq!(previous_boundary(family, family.len() - 1), 1);
    assert_eq!(next_boundary(family, family.len()), family.len());
    assert_eq!(previous_boundary(family, 0), 0);
}

#[test]
fn footer_subtitle_and_dialog_scroll_follow_the_state() {
    let mut app = App::new(Config::default(), Registry::builtin(), 0);
    assert_eq!(app.footer_hint(80), "e edit  p profiles  [/] switch  ? help  q quit");
    assert_eq!(app.footer_hint(40), "p profiles  [/] switch\ne edit  ? help  q quit");
    let name = app.config.profiles[app.profile].name.clone();
    assert_eq!(app.subtitle(), format!(" Auto · {name}"));
    app.modal = Some(Modal::Help { scroll: 3 });
    assert_eq!(app.footer_hint(80), "↑/↓ scroll  Esc close");
    assert_eq!(Modal::Help { scroll: 3 }.scroll(4), Some(0));
    assert_eq!(Modal::Profiles { selected: 5 }.scroll(6), Some(6));
    assert_eq!(Modal::Add { selected: 1, replace: false }.scroll(10), Some(0));
    assert_eq!(Modal::Profiles { selected: usize::MAX }.scroll(6), None);
    app.modal = None;
    app.editing = true;
    assert_eq!(app.footer_hint(60), "s save  Esc cancel  ? help\ng profile  n copy  p next");
}
