use columnar_menu::grid::{grid_rows, next_cell, previous_cell};
use columnar_menu::text::{common_prefix_len, find_common_string, flatten_newlines, string_difference};
use columnar_menu::{ColumnarMenu, Completer, Editor, MenuEvent, Palette, Span, Suggestion};

struct FakeCompleter {
    completions: Vec<String>,
    descriptions: Vec<Option<String>>,
    calls: Vec<(String, usize)>,
}

impl FakeCompleter {
    fn new(completions: &[&str]) -> Self {
        Self {
            completions: completions.iter().map(|c| c.to_string()).collect(),
            descriptions: completions.iter().map(|_| None).collect(),
            calls: Vec::new(),
        }
    }

    fn described(completions: &[(&str, &str)]) -> Self {
        Self {
            completions: completions.iter().map(|c| c.0.to_string()).collect(),
            descriptions: completions.iter().map(|c| Some(c.1.to_string())).collect(),
            calls: Vec::new(),
        }
    }
}

impl Completer for FakeCompleter {
    fn complete(&mut self, line: &str, pos: usize) -> Vec<Suggestion> {
        self.calls.push((line.to_string(), pos));
        self.completions
            .iter()
            .zip(self.descriptions.iter())
            .map(|(c, d)| Suggestion {
                value: c.to_string(),
                description: d.clone(),
                extra: None,
                span: Span { start: 0, end: pos },
                append_whitespace: false,
            })
            .collect()
    }
}

fn partial(completions: &[&str], input: &str) -> String {
    let mut menu = ColumnarMenu::default();
    let mut editor = Editor::new();
    editor.set_buffer(input.to_string());
    let mut completer = FakeCompleter::new(completions);
    menu.can_partially_complete(false, &mut editor, &mut completer);
    editor.get_buffer().to_string()
}

/// A menu holding `values`, laid out for a screen `width` wide.
fn laid_out(menu: ColumnarMenu, completer: &mut FakeCompleter, width: u16) -> (ColumnarMenu, Editor) {
    let mut menu = menu;
    let mut editor = Editor::new();
    menu.menu_event(MenuEvent::Activate(false));
    menu.update_working_details(&mut editor, completer, width);
    menu.menu_event(MenuEvent::Edit(true));
    menu.update_working_details(&mut editor, completer, width);
    (menu, editor)
}

fn press(menu: &mut ColumnarMenu, editor: &mut Editor, completer: &mut FakeCompleter, event: MenuEvent, width: u16) {
    menu.menu_event(event);
    menu.update_working_details(editor, completer, width);
}

#[test]
fn test_menu_replace_backtick() {
    let mut completer = FakeCompleter::new(&["file1.txt", "file2.txt"]);
    let mut menu = ColumnarMenu::default().with_name("testmenu");
    let mut editor = Editor::new();

    editor.set_buffer("file1.txt`".to_string());

    menu.update_values(&mut editor, &mut completer);

    menu.replace_in_buffer(&mut editor);

    assert!(
        editor.is_cursor_at_buffer_end(),
        "cursor should be at the end after completion"
    );
}

#[test]
fn empty_completes_prefix() {
    assert_eq!(partial(&["build.rs", "build-all.sh"], ""), "build");
}

#[test]
fn partial_completes_shared_prefix() {
    assert_eq!(partial(&["build.rs", "build-all.sh"], "bui"), "build");
}

#[test]
fn full_prefix_completes_nothing() {
    assert_eq!(partial(&["build.rs", "build-all.sh"], "build"), "build");
}

#[test]
fn no_shared_prefix_completes_nothing() {
    assert_eq!(partial(&["build.rs", "build-all.sh", "prepare-build.sh"], ""), "");
}

#[test]
fn shared_prefix_completes_nothing() {
    assert_eq!(partial(&["build.rs", "build-all.sh", "prepare-build.sh"], "bui"), "bui");
}

#[test]
fn completes_no_shared_prefix() {
    assert_eq!(partial(&["build.rs", "build-all.sh", "build-all-tests.sh"], "all"), "all");
}

#[test]
fn partial_completion_reports_and_moves_cursor() {
    let mut menu = ColumnarMenu::default();
    let mut editor = Editor::new();
    editor.set_buffer("bui".to_string());
    let mut completer = FakeCompleter::new(&["build.rs", "build-all.sh"]);
    assert!(menu.can_partially_complete(false, &mut editor, &mut completer));
    assert_eq!(editor.insertion_point(), 5);
    let mut completer = FakeCompleter::new(&["build.rs", "prepare.sh"]);
    assert!(!menu.can_partially_complete(false, &mut editor, &mut completer));
    assert_eq!(editor.get_buffer(), "build");
}

#[test]
fn commit_appends_whitespace_and_keeps_rest() {
    let menu_values = vec![Suggestion {
        value: "checkout".to_string(),
        description: None,
        extra: None,
        span: Span::new(4, 6),
        append_whitespace: true,
    }];
    struct Fixed(Vec<Suggestion>);
    impl Completer for Fixed {
        fn complete(&mut self, _line: &str, _pos: usize) -> Vec<Suggestion> {
            self.0.clone()
        }
    }
    let mut menu = ColumnarMenu::default();
    let mut editor = Editor::new();
    editor.set_buffer("git ch main".to_string());
    editor.set_insertion_point(6);
    menu.update_values(&editor, &mut Fixed(menu_values));
    menu.replace_in_buffer(&mut editor);
    assert_eq!(editor.get_buffer(), "git checkout  main");
    assert_eq!(editor.insertion_point(), 13);
}

#[test]
fn commit_clamps_span_to_line() {
    let mut completer = FakeCompleter::new(&["abc"]);
    let mut menu = ColumnarMenu::default();
    let mut editor = Editor::new();
    editor.set_buffer("xyz".to_string());
    menu.update_values(&editor, &mut completer);
    editor.set_buffer("x".to_string());
    menu.replace_in_buffer(&mut editor);
    assert_eq!(editor.get_buffer(), "abc");
    assert_eq!(editor.insertion_point(), 3);
}

#[test]
fn plain_render_of_four_columns() {
    let mut completer = FakeCompleter::new(&["ab", "cd", "ef"]);
    let (menu, _) = laid_out(ColumnarMenu::default(), &mut completer, 20);
    assert_eq!(menu.menu_string(5, false), ">AB  cd   ef   ");
    assert_eq!(menu.menu_required_lines(20), 1);
    assert_eq!(menu.min_rows(), 1);
}

#[test]
fn plain_render_of_two_columns_ends_rows() {
    let mut completer = FakeCompleter::new(&["ab", "cd", "ef"]);
    let (menu, _) = laid_out(ColumnarMenu::default().with_columns(2), &mut completer, 20);
    assert_eq!(
        menu.menu_string(5, false),
        ">AB       cd        \r\nef        "
    );
    assert_eq!(menu.menu_required_lines(20), 2);
}

#[test]
fn render_is_repeatable() {
    let mut completer = FakeCompleter::new(&["ab", "cd", "ef"]);
    let (menu, _) = laid_out(ColumnarMenu::default(), &mut completer, 20);
    assert_eq!(menu.menu_string(5, false), menu.menu_string(5, false));
    assert_eq!(menu.menu_string(5, true), menu.menu_string(5, true));
}

#[test]
fn ansi_render_with_palette() {
    let mut completer = FakeCompleter::new(&["ab", "cd"]);
    let (menu, _) = laid_out(ColumnarMenu::default(), &mut completer, 20);
    let pal = Palette {
        selected: "<S>".to_string(),
        text: "<T>".to_string(),
        description: "<D>".to_string(),
        reset: "<R>".to_string(),
    };
    assert_eq!(
        menu.render_with(&pal, 5, true),
        "<S>ab<R>   <T>cd<R><D>   <R>"
    );
}

#[test]
fn no_records_message() {
    let menu = ColumnarMenu::default();
    assert_eq!(menu.menu_string(5, false), "NO RECORDS FOUND");
    assert_eq!(
        menu.menu_string(5, true),
        "\u{1b}[1;7;32mNO RECORDS FOUND\u{1b}[0m"
    );
    assert_eq!(menu.menu_required_lines(80), 1);
}

#[test]
fn descriptions_force_one_wide_column() {
    let mut completer = FakeCompleter::described(&[("ab", "first\nline"), ("cde", "second")]);
    let (menu, _) = laid_out(ColumnarMenu::default().with_columns(3), &mut completer, 12);
    assert_eq!(
        menu.menu_string(5, false),
        ">AB  FIRST LINE\r\ncde  second\r\n"
    );
    assert_eq!(menu.menu_required_lines(12), 2);
}

#[test]
fn descriptions_in_colour_are_cut_to_the_column() {
    let mut completer = FakeCompleter::described(&[("ab", "0123456789")]);
    let (menu, _) = laid_out(ColumnarMenu::default(), &mut completer, 10);
    let pal = Palette {
        selected: "<S>".to_string(),
        text: "<T>".to_string(),
        description: "<D>".to_string(),
        reset: "<R>".to_string(),
    };
    assert_eq!(menu.render_with(&pal, 5, true), "<S>ab  012345<R>\r\n");
}

#[test]
fn wide_value_widens_columns() {
    let mut completer = FakeCompleter::new(&["abcdefgh", "x"]);
    let (menu, _) = laid_out(ColumnarMenu::default(), &mut completer, 20);
    assert_eq!(menu.menu_string(5, false), ">ABCDEFGH x         \r\n");
}

#[test]
fn fixed_column_width() {
    let mut completer = FakeCompleter::new(&["a", "b"]);
    let (menu, _) = laid_out(
        ColumnarMenu::default().with_column_width(Some(3)).with_column_padding(0),
        &mut completer,
        80,
    );
    assert_eq!(menu.menu_string(5, false), ">A b  ");
}

#[test]
fn next_element_cycles_through_values() {
    let mut completer = FakeCompleter::new(&["a", "b", "c", "d", "e"]);
    let (mut menu, mut editor) = laid_out(ColumnarMenu::default().with_columns(2), &mut completer, 6);
    let start = menu.menu_string(5, false);
    press(&mut menu, &mut editor, &mut completer, MenuEvent::NextElement, 6);
    assert_eq!(menu.menu_string(5, false), "a  >B \r\nc  d  \r\ne  ");
    for _ in 0..4 {
        press(&mut menu, &mut editor, &mut completer, MenuEvent::NextElement, 6);
    }
    assert_eq!(menu.menu_string(5, false), start);
}

#[test]
fn previous_element_undoes_next() {
    let mut completer = FakeCompleter::new(&["a", "b", "c", "d", "e"]);
    let (mut menu, mut editor) = laid_out(ColumnarMenu::default().with_columns(2), &mut completer, 6);
    press(&mut menu, &mut editor, &mut completer, MenuEvent::PreviousElement, 6);
    assert_eq!(menu.menu_string(5, false), "a  b  \r\nc  d  \r\n>E ");
    press(&mut menu, &mut editor, &mut completer, MenuEvent::NextElement, 6);
    assert_eq!(menu.menu_string(5, false), ">A b  \r\nc  d  \r\ne  ");
}

#[test]
fn moves_up_down_left_right() {
    let mut completer = FakeCompleter::new(&["a", "b", "c", "d", "e"]);
    let (mut menu, mut editor) = laid_out(ColumnarMenu::default().with_columns(2), &mut completer, 6);
    press(&mut menu, &mut editor, &mut completer, MenuEvent::MoveUp, 6);
    assert_eq!(menu.menu_string(5, false), "a  b  \r\nc  d  \r\n>E ");
    press(&mut menu, &mut editor, &mut completer, MenuEvent::MoveDown, 6);
    assert_eq!(menu.menu_string(5, false), ">A b  \r\nc  d  \r\ne  ");
    press(&mut menu, &mut editor, &mut completer, MenuEvent::MoveRight, 6);
    assert_eq!(menu.menu_string(5, false), "a  >B \r\nc  d  \r\ne  ");
    press(&mut menu, &mut editor, &mut completer, MenuEvent::MoveRight, 6);
    assert_eq!(menu.menu_string(5, false), ">A b  \r\nc  d  \r\ne  ");
    press(&mut menu, &mut editor, &mut completer, MenuEvent::MoveLeft, 6);
    assert_eq!(menu.menu_string(5, false), "a  >B \r\nc  d  \r\ne  ");
    press(&mut menu, &mut editor, &mut completer, MenuEvent::NextPage, 6);
    assert_eq!(menu.menu_string(5, false), "a  >B \r\nc  d  \r\ne  ");
}

#[test]
fn scroll_window_follows_cursor() {
    let mut completer = FakeCompleter::new(&["a", "b", "c", "d", "e"]);
    let (mut menu, mut editor) = laid_out(ColumnarMenu::default().with_columns(1), &mut completer, 10);
    for _ in 0..3 {
        press(&mut menu, &mut editor, &mut completer, MenuEvent::NextElement, 10);
    }
    assert_eq!(
        menu.menu_string(2, false),
        "c         \r\n>D        \r\n"
    );
}

#[test]
fn activation_and_deactivation() {
    let mut completer = FakeCompleter::new(&["a"]);
    let mut menu = ColumnarMenu::default().with_marker("> ".to_string());
    let mut editor = Editor::new();
    assert!(!menu.is_active());
    menu.menu_event(MenuEvent::Activate(false));
    assert!(menu.is_active());
    menu.update_working_details(&mut editor, &mut completer, 20);
    assert_eq!(menu.get_values().len(), 1);
    menu.menu_event(MenuEvent::Deactivate);
    assert!(!menu.is_active());
    assert_eq!(menu.indicator(), "> ");
    assert_eq!(menu.name(), "columnar_menu");
    assert!(menu.can_quick_complete());
}

#[test]
fn full_refresh_flattens_newlines() {
    let mut completer = FakeCompleter::new(&["a"]);
    let mut menu = ColumnarMenu::default();
    let mut editor = Editor::new();
    editor.set_buffer("ls\nca".to_string());
    menu.update_values(&editor, &mut completer);
    assert_eq!(completer.calls, vec![("ls ca".to_string(), 5)]);
}

#[test]
fn delta_refresh_sends_only_new_text() {
    let mut completer = FakeCompleter::new(&["checkout"]);
    let mut menu = ColumnarMenu::default().with_only_buffer_difference(true);
    let mut editor = Editor::new();
    editor.set_buffer("git".to_string());
    menu.menu_event(MenuEvent::Activate(false));
    menu.update_working_details(&mut editor, &mut completer, 20);
    assert!(completer.calls.is_empty());
    assert_eq!(menu.get_values().len(), 0);
    editor.set_buffer("git ch".to_string());
    menu.menu_event(MenuEvent::Edit(false));
    menu.update_working_details(&mut editor, &mut completer, 20);
    assert_eq!(completer.calls, vec![(" ch".to_string(), 3)]);
    assert_eq!(menu.get_values().len(), 1);
}

#[test]
fn zero_columns_count_as_one() {
    let mut completer = FakeCompleter::new(&["ab", "cd"]);
    let (menu, _) = laid_out(ColumnarMenu::default().with_columns(0), &mut completer, 20);
    let expected = format!(">AB{}\r\ncd{}\r\n", " ".repeat(17), " ".repeat(18));
    assert_eq!(menu.menu_string(5, false), expected);
    assert_eq!(menu.menu_required_lines(20), 2);
}

#[test]
fn common_string_of_values() {
    let mut completer = FakeCompleter::new(&["build.rs", "build-all.sh", "builder"]);
    let values = completer.complete("", 0);
    let (first, len) = find_common_string(&values);
    assert_eq!(first.map(|s| s.value.as_str()), Some("build.rs"));
    assert_eq!(len, Some(5));
    let none: Vec<Suggestion> = Vec::new();
    let (first, len) = find_common_string(&none);
    assert!(first.is_none());
    assert!(len.is_none());
}

#[test]
fn difference_from_snapshot() {
    assert_eq!(string_difference("git ch", "git"), (3, " ch".to_string()));
    assert_eq!(string_difference("git", "git"), (3, String::new()));
    assert_eq!(string_difference("gut", "git"), (1, "ut".to_string()));
    assert_eq!(common_prefix_len("abc", "abd"), 2);
    assert_eq!(flatten_newlines("a\nb\n"), "a b ");
}

#[test]
fn row_count_is_ceiling() {
    assert_eq!(grid_rows(0, 4), 1);
    assert_eq!(grid_rows(5, 2), 3);
    assert_eq!(grid_rows(6, 2), 3);
    assert_eq!(next_cell(2, 5, 0, 2), (0, 0));
    assert_eq!(previous_cell(2, 5, 0, 0), (0, 2));
    assert_eq!(previous_cell(4, 5, 0, 0), (0, 1));
}
