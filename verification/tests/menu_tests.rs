use animer::menu::{
    credentials, input_menu, interactive_menu, menu_provider, menu_title, process_user_interaction,
    read_line_interactive, KeyInput, LineEdit, MenuAction, MenuNode, MenuState, MenuType, NavType,
    UserAction,
};

#[test]
fn providers_of_each_menu() {
    assert_eq!(menu_provider(MenuType::Main), MenuNode { show_numbers: false, action: MenuAction::MainMenu });
    assert_eq!(menu_provider(MenuType::List), MenuNode { show_numbers: true, action: MenuAction::FetchLatestMenu });
    assert_eq!(menu_provider(MenuType::Search), MenuNode { show_numbers: true, action: MenuAction::SearchPrompt });
    assert_ne!(NavType::TypeIn, NavType::Interactive);
}

#[test]
fn arrows_wrap_around() {
    let mut s = MenuState::new(3, None);
    assert_eq!(interactive_menu(&mut s, KeyInput::Up), None);
    assert_eq!(s.selected, 2);
    assert_eq!(interactive_menu(&mut s, KeyInput::Down), None);
    assert_eq!(s.selected, 0);
    interactive_menu(&mut s, KeyInput::Down);
    interactive_menu(&mut s, KeyInput::Down);
    assert_eq!(s.selected, 2);
    interactive_menu(&mut s, KeyInput::Up);
    assert_eq!(s.selected, 1);
}

#[test]
fn digits_select_numbered_entries() {
    let mut s = MenuState::new(4, None);
    interactive_menu(&mut s, KeyInput::Char('3'));
    assert_eq!(s.selected, 2);
    interactive_menu(&mut s, KeyInput::Char('0'));
    assert_eq!(s.selected, 2);
    interactive_menu(&mut s, KeyInput::Char('5'));
    assert_eq!(s.selected, 2);
    assert_eq!(interactive_menu(&mut s, KeyInput::Enter), Some((UserAction::Select, Some(2))));
}

#[test]
fn paging_keys() {
    let mut s = MenuState::new(2, Some((1, 3)));
    assert_eq!(interactive_menu(&mut s, KeyInput::Left), None);
    assert_eq!(interactive_menu(&mut s, KeyInput::Right), Some((UserAction::PageForward, None)));
    let mut s = MenuState::new(2, Some((3, 3)));
    assert_eq!(interactive_menu(&mut s, KeyInput::Right), None);
    assert_eq!(interactive_menu(&mut s, KeyInput::Left), Some((UserAction::PageBackward, None)));
    let mut s = MenuState::new(2, None);
    assert_eq!(interactive_menu(&mut s, KeyInput::Left), None);
    assert_eq!(interactive_menu(&mut s, KeyInput::Right), None);
    assert_eq!(interactive_menu(&mut s, KeyInput::Esc), Some((UserAction::Back, None)));
    assert_eq!(interactive_menu(&mut s, KeyInput::Backspace), None);
    assert_eq!(s.selected, 0);
}

#[test]
fn page_titles() {
    assert_eq!(menu_title("Latest releases", Some((2, 7))), " Latest releases | Page: 2/7 ");
    assert_eq!(menu_title(" Main menu ", None), " Main menu ");
}

#[test]
fn numbered_menu_interaction() {
    let mut sel = 0usize;
    assert_eq!(process_user_interaction(&mut sel, 3, (1, 1), KeyInput::Up), Some(KeyInput::Null));
    assert_eq!(sel, 2);
    assert_eq!(process_user_interaction(&mut sel, 3, (1, 1), KeyInput::Down), Some(KeyInput::Null));
    assert_eq!(sel, 0);
    assert_eq!(process_user_interaction(&mut sel, 3, (1, 3), KeyInput::Right), Some(KeyInput::Right));
    assert_eq!(process_user_interaction(&mut sel, 3, (2, 3), KeyInput::Right), Some(KeyInput::Right));
    assert_eq!(process_user_interaction(&mut sel, 3, (1, 2), KeyInput::Right), Some(KeyInput::Right));
    assert_eq!(process_user_interaction(&mut sel, 3, (3, 3), KeyInput::Right), None);
    assert_eq!(process_user_interaction(&mut sel, 3, (1, 3), KeyInput::Left), None);
    assert_eq!(process_user_interaction(&mut sel, 3, (2, 3), KeyInput::Left), Some(KeyInput::Left));
    assert_eq!(process_user_interaction(&mut sel, 3, (1, 1), KeyInput::Char('2')), Some(KeyInput::Null));
    assert_eq!(sel, 1);
    assert_eq!(process_user_interaction(&mut sel, 3, (1, 1), KeyInput::Char('4')), None);
    assert_eq!(process_user_interaction(&mut sel, 3, (1, 1), KeyInput::Char('x')), None);
    assert_eq!(sel, 1);
    assert_eq!(process_user_interaction(&mut sel, 3, (1, 1), KeyInput::Enter), Some(KeyInput::Enter));
    assert_eq!(process_user_interaction(&mut sel, 3, (1, 1), KeyInput::Esc), Some(KeyInput::Esc));
}

#[test]
fn text_input_box() {
    let mut s = String::new();
    assert_eq!(input_menu(&mut s, KeyInput::Enter), LineEdit::Editing);
    assert_eq!(input_menu(&mut s, KeyInput::Char('n')), LineEdit::Editing);
    assert_eq!(input_menu(&mut s, KeyInput::Char('x')), LineEdit::Editing);
    assert_eq!(input_menu(&mut s, KeyInput::Backspace), LineEdit::Editing);
    assert_eq!(s, "n");
    assert_eq!(input_menu(&mut s, KeyInput::Enter), LineEdit::Accepted);
    assert_eq!(input_menu(&mut s, KeyInput::Esc), LineEdit::Cancelled);
    let mut e = String::new();
    assert_eq!(input_menu(&mut e, KeyInput::Backspace), LineEdit::Editing);
    assert_eq!(e, "");
}

#[test]
fn line_reading_accepts_empty() {
    let mut s = String::new();
    assert_eq!(read_line_interactive(&mut s, KeyInput::Enter), LineEdit::Accepted);
    read_line_interactive(&mut s, KeyInput::Char('1'));
    read_line_interactive(&mut s, KeyInput::Up);
    assert_eq!(s, "1");
    assert_eq!(read_line_interactive(&mut s, KeyInput::Esc), LineEdit::Cancelled);
}

#[test]
fn banner_matches_format_widths() {
    let expected = format!(
        "{:-<52}\n{:<120}\n{:<120}\n{:<120}\n{:-<52}\n",
        "",
        "CLI anime episode parser",
        "All voiceover rights reserved by Anilibria team",
        "Check out their website! https://anilibria.top",
        ""
    );
    assert_eq!(credentials(), expected);
}
