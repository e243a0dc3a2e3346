//! Menus: which menu runs which screen, and how a menu answers each key.
use vstd::prelude::*;
use crate::text::{
    decimal, digit_value, is_digit_char, pad_right, push_decimal, push_padded, push_repeat,
    repeat_char,
};

verus! {

/// What the user asked for in a list menu.
#[derive(Clone, Copy, Debug, PartialEq, Eq, Structural)]
pub enum UserAction {
    Select,
    Back,
    PageForward,
    PageBackward,
}

/// The menus of the application; `Back` leaves the current one.
#[derive(Clone, Copy, Debug, PartialEq, Eq, Structural)]
pub enum MenuType {
    Main,
    Search,
    List,
    Back,
}

/// The screen that a menu runs when it is entered.
#[derive(Clone, Copy, Debug, PartialEq, Eq, Structural)]
pub enum MenuAction {
    MainMenu,
    FetchLatestMenu,
    SearchPrompt,
}

/// A menu on the navigation stack.
#[derive(Clone, Copy, Debug, PartialEq, Eq, Structural)]
pub struct MenuNode {
    pub show_numbers: bool,
    pub action: MenuAction,
}

/// The ways a menu can be navigated.
#[derive(Clone, Copy, Debug, PartialEq, Eq, Structural)]
pub enum NavType {
    TypeIn,
    Interactive,
}

/// A key press, as far as the menus tell keys apart.
#[derive(Clone, Copy, Debug, PartialEq, Eq, Structural)]
pub enum KeyInput {
    Up,
    Down,
    Left,
    Right,
    Enter,
    Esc,
    Backspace,
    Char(char),
    Null,
    Other,
}

/// The menu that each menu type opens (none for `Back`).
pub open spec fn spec_menu_node(menu_type: MenuType) -> MenuNode
    recommends
        menu_type != MenuType::Back,
{
    match menu_type {
        MenuType::Main => MenuNode { show_numbers: false, action: MenuAction::MainMenu },
        MenuType::List => MenuNode { show_numbers: true, action: MenuAction::FetchLatestMenu },
        _ => MenuNode { show_numbers: true, action: MenuAction::SearchPrompt },
    }
}

/// The menu node for a menu type: the main menu without numbering, the list
/// of latest releases and the search prompt with numbered entries.
pub fn menu_provider(menu_type: MenuType) -> (node: MenuNode)
    requires
        menu_type != MenuType::Back,
    ensures
        node == spec_menu_node(menu_type),
{
    match menu_type {
        MenuType::Main => MenuNode { show_numbers: false, action: MenuAction::MainMenu },
        MenuType::List => MenuNode { show_numbers: true, action: MenuAction::FetchLatestMenu },
        _ => MenuNode { show_numbers: true, action: MenuAction::SearchPrompt },
    }
}

/// Each menu type runs its own screen: the main menu (unnumbered), the
/// latest releases and the search prompt (numbered); no two menu types run
/// the same screen.
pub proof fn lemma_each_menu_runs_its_screen()
    ensures
        spec_menu_node(MenuType::Main).action == MenuAction::MainMenu,
        !spec_menu_node(MenuType::Main).show_numbers,
        spec_menu_node(MenuType::List).action == MenuAction::FetchLatestMenu,
        spec_menu_node(MenuType::List).show_numbers,
        spec_menu_node(MenuType::Search).action == MenuAction::SearchPrompt,
        spec_menu_node(MenuType::Search).show_numbers,
{
}

// ---------------------------------------------------------------- list menu

/// The cursor of a list menu: the highlighted entry, the number of entries
/// and, for paged lists, the current and the last page.
#[derive(Clone, Copy, Debug)]
pub struct MenuState {
    pub selected: usize,
    pub length: usize,
    pub pages: Option<(u32, u32)>,
}

impl MenuState {
    /// A fresh cursor on the first entry.
    pub fn new(length: usize, pages: Option<(u32, u32)>) -> (s: MenuState)
        ensures
            s == (MenuState { selected: 0, length, pages }),
    {
        MenuState { selected: 0, length, pages }
    }
}

/// The keys a list menu accepts: moving needs a non-empty list, and a
/// character key must be a decimal digit.
pub open spec fn menu_key_allowed(s: MenuState, key: KeyInput) -> bool {
    match key {
        KeyInput::Up => s.selected > 0 || s.length > 0,
        KeyInput::Down => s.length > 0,
        KeyInput::Char(c) => is_digit_char(c),
        _ => true,
    }
}

/// How a list menu answers a key: the new cursor, and the result when the
/// menu closes.
pub open spec fn menu_step(s: MenuState, key: KeyInput) -> (MenuState, Option<(UserAction, Option<usize>)>) {
    match key {
        KeyInput::Up => {
            let sel = if s.selected > 0 { (s.selected - 1) as usize } else { (s.length - 1) as usize };
            (MenuState { selected: sel, ..s }, None)
        },
        KeyInput::Down => {
            let sel = if s.selected < s.length - 1 { (s.selected + 1) as usize } else { 0usize };
            (MenuState { selected: sel, ..s }, None)
        },
        KeyInput::Right => match s.pages {
            Some((current, total)) => if current >= total {
                (s, None)
            } else {
                (s, Some((UserAction::PageForward, None)))
            },
            None => (s, None),
        },
        KeyInput::Left => match s.pages {
            Some((current, _)) => if current <= 1 {
                (s, None)
            } else {
                (s, Some((UserAction::PageBackward, None)))
            },
            None => (s, None),
        },
        KeyInput::Char(c) => {
            let d = digit_value(c);
            if 0 < d <= s.length {
                (MenuState { selected: (d - 1) as usize, ..s }, None)
            } else {
                (s, None)
            }
        },
        KeyInput::Enter => (s, Some((UserAction::Select, Some(s.selected)))),
        KeyInput::Esc => (s, Some((UserAction::Back, None))),
        _ => (s, None),
    }
}

/// Answers one key press in a list menu. Up and Down move the highlight and
/// wrap around at the ends; a digit `d` highlights entry `d` when there is
/// one; Right and Left turn the page when there is a next or a previous page;
/// Enter selects the highlighted entry and Esc leaves. `None` means that the
/// menu stays open.
pub fn interactive_menu(state: &mut MenuState, key: KeyInput) -> (r: Option<(UserAction, Option<usize>)>)
    requires
        menu_key_allowed(*old(state), key),
    ensures
        (*final(state), r) == menu_step(*old(state), key),
{
    match key {
        KeyInput::Up => {
            if state.selected > 0 {
                state.selected = state.selected - 1;
            } else {
                state.selected = state.length - 1;
            }
            None
        },
        KeyInput::Down => {
            if state.selected < state.length - 1 {
                state.selected = state.selected + 1;
            } else {
                state.selected = 0;
            }
            None
        },
        KeyInput::Right => match state.pages {
            Some((current, total)) => {
                if current >= total {
                    None
                } else {
                    Some((UserAction::PageForward, None))
                }
            },
            None => None,
        },
        KeyInput::Left => match state.pages {
            Some((current, _)) => {
                if current <= 1 {
                    None
                } else {
                    Some((UserAction::PageBackward, None))
                }
            },
            None => None,
        },
        KeyInput::Char(c) => {
            let d: usize = (c as u32 - 48) as usize;
            if d > 0 && d <= state.length {
                state.selected = d - 1;
            }
            None
        },
        KeyInput::Enter => Some((UserAction::Select, Some(state.selected))),
        KeyInput::Esc => Some((UserAction::Back, None)),
        _ => None,
    }
}

/// In a list menu the highlight never leaves the list: from an entry of the
/// list, any key leads to an entry of the list, and no key changes the
/// number of entries or the pages.
pub proof fn lemma_highlight_stays_in_list(s: MenuState, key: KeyInput)
    requires
        menu_key_allowed(s, key),
        s.selected < s.length,
    ensures
        menu_step(s, key).0.selected < s.length,
        menu_step(s, key).0.length == s.length,
        menu_step(s, key).0.pages == s.pages,
{
}

/// Down then Up, and Up then Down, bring the highlight back to where it
/// was.
pub proof fn lemma_up_down_inverse(s: MenuState)
    requires
        s.selected < s.length,
    ensures
        menu_step(menu_step(s, KeyInput::Down).0, KeyInput::Up).0 == s,
        menu_step(menu_step(s, KeyInput::Up).0, KeyInput::Down).0 == s,
{
}

/// A list menu closes on Enter with the highlighted entry, on Esc without
/// one, and on Right and Left only to turn to a page that exists.
pub proof fn lemma_menu_closes_only_on_answers(s: MenuState, key: KeyInput)
    requires
        menu_key_allowed(s, key),
    ensures
        menu_step(s, key).1 matches Some((action, selection)) ==> match action {
            UserAction::Select => key == KeyInput::Enter && selection == Some(s.selected),
            UserAction::Back => key == KeyInput::Esc && selection is None,
            UserAction::PageForward => key == KeyInput::Right && selection is None && (s.pages matches Some((current, total))
                && current < total),
            UserAction::PageBackward => key == KeyInput::Left && selection is None && (s.pages matches Some((current, _))
                && current > 1),
        },
        (key == KeyInput::Enter || key == KeyInput::Esc) ==> menu_step(s, key).1 is Some,
{
}

/// The page keys of a list menu: on a paged list, Left turns back exactly
/// from the second page on and Right turns forward exactly while a later
/// page exists; neither moves the highlight; on a list without pages both
/// are ignored.
pub proof fn lemma_page_keys(s: MenuState)
    ensures
        menu_step(s, KeyInput::Left).0 == s,
        menu_step(s, KeyInput::Right).0 == s,
        s.pages is None ==> menu_step(s, KeyInput::Left).1 is None && menu_step(s, KeyInput::Right).1 is None,
        s.pages matches Some((current, total)) ==> {
            &&& (current > 1 <==> menu_step(s, KeyInput::Left).1 == Some((UserAction::PageBackward, None::<usize>)))
            &&& (current <= 1 <==> menu_step(s, KeyInput::Left).1 is None)
            &&& (current < total <==> menu_step(s, KeyInput::Right).1 == Some((UserAction::PageForward, None::<usize>)))
            &&& (current >= total <==> menu_step(s, KeyInput::Right).1 is None)
        },
{
}

/// Keys without a meaning in a list menu (Backspace, Null and the others)
/// change nothing and leave it open.
pub proof fn lemma_other_keys_do_nothing(s: MenuState)
    ensures
        menu_step(s, KeyInput::Backspace) == (s, None::<(UserAction, Option<usize>)>),
        menu_step(s, KeyInput::Null) == (s, None::<(UserAction, Option<usize>)>),
        menu_step(s, KeyInput::Other) == (s, None::<(UserAction, Option<usize>)>),
{
}

/// Enter closes a list menu with the highlighted entry selected, and Esc
/// closes it with nothing selected; neither moves the highlight.
pub proof fn lemma_enter_and_esc(s: MenuState)
    ensures
        menu_step(s, KeyInput::Enter) == (s, Some((UserAction::Select, Some(s.selected)))),
        menu_step(s, KeyInput::Esc) == (s, Some((UserAction::Back, None::<usize>))),
{
}

/// Up and Down move the highlight by one entry, wrapping from the first
/// entry to the last and from the last to the first; a digit `d` from 1 to
/// the number of entries highlights entry `d`, and other digits do nothing.
pub proof fn lemma_moving_keys(s: MenuState, c: char)
    requires
        s.selected < s.length,
        is_digit_char(c),
    ensures
        s.selected > 0 ==> menu_step(s, KeyInput::Up).0.selected == s.selected - 1,
        s.selected == 0 ==> menu_step(s, KeyInput::Up).0.selected == s.length - 1,
        s.selected + 1 < s.length ==> menu_step(s, KeyInput::Down).0.selected == s.selected + 1,
        s.selected + 1 == s.length ==> menu_step(s, KeyInput::Down).0.selected == 0,
        menu_step(s, KeyInput::Up).1 is None && menu_step(s, KeyInput::Down).1 is None,
        1 <= digit_value(c) <= s.length ==> menu_step(s, KeyInput::Char(c)).0.selected == digit_value(c) - 1,
        !(1 <= digit_value(c) <= s.length) ==> menu_step(s, KeyInput::Char(c)).0 == s,
        menu_step(s, KeyInput::Char(c)).1 is None,
{
}

/// The title of a list menu: the menu name, with the page counter
/// ` {name} | Page: {current}/{total} ` for paged lists.
pub open spec fn spec_menu_title(menu_name: Seq<char>, pages: Option<(u32, u32)>) -> Seq<char> {
    match pages {
        Some((current, total)) => " "@ + menu_name + " | Page: "@ + decimal(current as nat) + "/"@
            + decimal(total as nat) + " "@,
        None => menu_name,
    }
}

/// A paged title names the menu and then the current and the last page, in
/// this order, as `{current}/{total}` between ` | Page: ` and a closing
/// space; an unpaged title is the menu name itself.
pub proof fn lemma_menu_title_shows_the_pages(menu_name: Seq<char>, current: u32, total: u32)
    ensures
        spec_menu_title(menu_name, None) == menu_name,
        ({
            let t = spec_menu_title(menu_name, Some((current, total)));
            let dc = decimal(current as nat);
            let dt = decimal(total as nat);
            let at: int = 1 + menu_name.len() as int + 9;
            &&& t.len() == at + dc.len() + 1 + dt.len() + 1
            &&& t[0] == ' '
            &&& t.subrange(1, 1 + menu_name.len() as int) == menu_name
            &&& t.subrange(1 + menu_name.len() as int, at) == " | Page: "@
            &&& t.subrange(at, at + dc.len() as int) == dc
            &&& t[at + dc.len() as int] == '/'
            &&& t.subrange(at + dc.len() as int + 1, at + dc.len() as int + 1 + dt.len() as int) == dt
            &&& t.last() == ' '
        }),
{
    reveal_strlit(" ");
    reveal_strlit(" | Page: ");
    reveal_strlit("/");
    let t = spec_menu_title(menu_name, Some((current, total)));
    let dc = decimal(current as nat);
    let dt = decimal(total as nat);
    let at: int = 1 + menu_name.len() as int + 9;
    assert(t.subrange(1, 1 + menu_name.len() as int) =~= menu_name);
    assert(t.subrange(1 + menu_name.len() as int, at) =~= " | Page: "@);
    assert(t.subrange(at, at + dc.len() as int) =~= dc);
    assert(t.subrange(at + dc.len() as int + 1, at + dc.len() as int + 1 + dt.len() as int) =~= dt);
}

/// Builds the title of a list menu.
pub fn menu_title(menu_name: &str, pages: Option<(u32, u32)>) -> (t: String)
    ensures
        t@ == spec_menu_title(menu_name@, pages),
{
    match pages {
        Some((current, total)) => {
            let mut t = String::new();
            t.append(" ");
            t.append(menu_name);
            t.append(" | Page: ");
            push_decimal(&mut t, current as u64);
            t.append("/");
            push_decimal(&mut t, total as u64);
            t.append(" ");
            t
        },
        None => String::from_str(menu_name),
    }
}


// ------------------------------------------------------- numbered list menu

/// The keys the numbered list menu accepts without overflowing: Up from the
/// first entry needs a non-empty list, Down needs room to count on, Right
/// needs a page after the current one to be countable and Left a current
/// page of at least one.
pub open spec fn interaction_allowed(selected: usize, list_size: usize, pages: (u32, u32), key: KeyInput) -> bool {
    match key {
        KeyInput::Up => selected > 0 || list_size > 0,
        KeyInput::Down => selected < usize::MAX,
        KeyInput::Right => pages.0 < u32::MAX,
        KeyInput::Left => pages.0 >= 1,
        _ => true,
    }
}

/// How the numbered list menu answers a key: the new highlight, and the key
/// that ends the wait (`Null` for a move of the highlight).
pub open spec fn interaction_step(selected: usize, list_size: usize, pages: (u32, u32), key: KeyInput) -> (usize, Option<KeyInput>) {
    match key {
        KeyInput::Esc => (selected, Some(KeyInput::Esc)),
        KeyInput::Enter => (selected, Some(KeyInput::Enter)),
        KeyInput::Down => {
            let next = selected + 1;
            (if next >= list_size { 0usize } else { next as usize }, Some(KeyInput::Null))
        },
        KeyInput::Up => {
            let from = if selected == 0 { list_size } else { selected };
            ((from - 1) as usize, Some(KeyInput::Null))
        },
        KeyInput::Right => if pages.0 < pages.1 {
            (selected, Some(KeyInput::Right))
        } else {
            (selected, None)
        },
        KeyInput::Left => if pages.0 > 1 {
            (selected, Some(KeyInput::Left))
        } else {
            (selected, None)
        },
        KeyInput::Char(c) => if is_digit_char(c) && 0 < digit_value(c) <= list_size {
            ((digit_value(c) - 1) as usize, Some(KeyInput::Null))
        } else {
            (selected, None)
        },
        _ => (selected, None),
    }
}

/// Answers one key press in the numbered list menu that prints its entries
/// line by line: Esc and Enter end the wait; Up and Down move the highlight
/// with wrap-around; a digit `d` in `1..=list_size` highlights entry `d`;
/// Right answers only while there is a page after the current one and Left
/// only from the second page on. `None` means that the key is ignored.
pub fn process_user_interaction(selected_option: &mut usize, list_size: usize, pages: (u32, u32), key: KeyInput) -> (r: Option<KeyInput>)
    requires
        interaction_allowed(*old(selected_option), list_size, pages, key),
    ensures
        (*final(selected_option), r) == interaction_step(*old(selected_option), list_size, pages, key),
{
    match key {
        KeyInput::Esc => Some(KeyInput::Esc),
        KeyInput::Enter => Some(KeyInput::Enter),
        KeyInput::Down => {
            *selected_option = *selected_option + 1;
            if *selected_option >= list_size {
                *selected_option = 0;
            }
            Some(KeyInput::Null)
        },
        KeyInput::Up => {
            if *selected_option == 0 {
                *selected_option = list_size;
            }
            *selected_option = *selected_option - 1;
            Some(KeyInput::Null)
        },
        KeyInput::Right => {
            if pages.0 + 1 > pages.1 {
                None
            } else {
                Some(KeyInput::Right)
            }
        },
        KeyInput::Left => {
            if pages.0 - 1 <= 0 {
                None
            } else {
                Some(KeyInput::Left)
            }
        },
        KeyInput::Char(c) => {
            if '0' <= c && c <= '9' {
                let index: usize = (c as u32 - 48) as usize;
                if index <= list_size && index != 0 {
                    *selected_option = index - 1;
                    return Some(KeyInput::Null);
                }
            }
            None
        },
        _ => None,
    }
}

// ------------------------------------------------------------- line editing

/// In the numbered list menu the highlight never leaves the list.
pub proof fn lemma_interaction_stays_in_list(selected: usize, list_size: usize, pages: (u32, u32), key: KeyInput)
    requires
        interaction_allowed(selected, list_size, pages, key),
        selected < list_size,
    ensures
        interaction_step(selected, list_size, pages, key).0 < list_size,
{
}

/// The keys of the numbered list menu: Esc and Enter end the wait as
/// themselves; Up and Down move the highlight by one with wrap-around; a
/// digit `d` from 1 to the list size highlights entry `d`; Right ends the
/// wait exactly when the current page is before the last and Left exactly
/// when it is after the first; the page keys never move the highlight.
pub proof fn lemma_interaction_keys(selected: usize, list_size: usize, pages: (u32, u32), c: char)
    requires
        selected < list_size,
        is_digit_char(c),
    ensures
        interaction_step(selected, list_size, pages, KeyInput::Esc) == (selected, Some(KeyInput::Esc)),
        interaction_step(selected, list_size, pages, KeyInput::Enter) == (selected, Some(KeyInput::Enter)),
        selected + 1 < list_size ==> interaction_step(selected, list_size, pages, KeyInput::Down).0 == selected + 1,
        selected + 1 == list_size ==> interaction_step(selected, list_size, pages, KeyInput::Down).0 == 0,
        selected > 0 ==> interaction_step(selected, list_size, pages, KeyInput::Up).0 == selected - 1,
        selected == 0 ==> interaction_step(selected, list_size, pages, KeyInput::Up).0 == list_size - 1,
        1 <= digit_value(c) <= list_size ==> interaction_step(selected, list_size, pages, KeyInput::Char(c)) == ((digit_value(c) - 1) as usize, Some(KeyInput::Null)),
        !(1 <= digit_value(c) <= list_size) ==> interaction_step(selected, list_size, pages, KeyInput::Char(c)) == (selected, None::<KeyInput>),
        interaction_step(selected, list_size, pages, KeyInput::Right).0 == selected,
        interaction_step(selected, list_size, pages, KeyInput::Left).0 == selected,
        (pages.0 < pages.1 <==> interaction_step(selected, list_size, pages, KeyInput::Right).1 == Some(KeyInput::Right)),
        (pages.0 >= pages.1 <==> interaction_step(selected, list_size, pages, KeyInput::Right).1 is None),
        (pages.0 > 1 <==> interaction_step(selected, list_size, pages, KeyInput::Left).1 == Some(KeyInput::Left)),
        (pages.0 <= 1 <==> interaction_step(selected, list_size, pages, KeyInput::Left).1 is None),
{
}

/// The state of a line being typed.
#[derive(Clone, Copy, Debug, PartialEq, Eq, Structural)]
pub enum LineEdit {
    Editing,
    Cancelled,
    Accepted,
}

/// How a line being typed answers a key: characters are appended,
/// Backspace removes the last one, Esc cancels and Enter accepts the line
/// (an empty one only when `accept_empty`).
pub open spec fn line_edit_step(buffer: Seq<char>, key: KeyInput, accept_empty: bool) -> (Seq<char>, LineEdit) {
    match key {
        KeyInput::Char(c) => (buffer.push(c), LineEdit::Editing),
        KeyInput::Backspace => (if buffer.len() > 0 { buffer.drop_last() } else { buffer }, LineEdit::Editing),
        KeyInput::Esc => (buffer, LineEdit::Cancelled),
        KeyInput::Enter => if buffer.len() == 0 && !accept_empty {
            (buffer, LineEdit::Editing)
        } else {
            (buffer, LineEdit::Accepted)
        },
        _ => (buffer, LineEdit::Editing),
    }
}

/// Backspace undoes the character typed last, and Esc and Enter leave the
/// line as it is.
pub proof fn lemma_backspace_undoes_typing(buffer: Seq<char>, c: char, accept_empty: bool)
    ensures
        line_edit_step(line_edit_step(buffer, KeyInput::Char(c), accept_empty).0, KeyInput::Backspace, accept_empty).0 == buffer,
        line_edit_step(buffer, KeyInput::Esc, accept_empty).0 == buffer,
        line_edit_step(buffer, KeyInput::Enter, accept_empty).0 == buffer,
{
    assert(buffer.push(c).drop_last() =~= buffer);
}

/// A character key appends exactly that character to the line and keeps
/// the box open, whatever the character; Backspace removes exactly the last
/// character.
pub proof fn lemma_keys_edit_the_line(buffer: Seq<char>, c: char, accept_empty: bool)
    ensures
        line_edit_step(buffer, KeyInput::Char(c), accept_empty) == (buffer.push(c), LineEdit::Editing),
        buffer.len() > 0 ==> line_edit_step(buffer, KeyInput::Backspace, accept_empty) == (buffer.subrange(0, buffer.len() - 1), LineEdit::Editing),
        buffer.len() == 0 ==> line_edit_step(buffer, KeyInput::Backspace, accept_empty).0 == buffer,
        line_edit_step(buffer, KeyInput::Esc, accept_empty).1 == LineEdit::Cancelled,
        buffer.len() > 0 ==> line_edit_step(buffer, KeyInput::Enter, accept_empty).1 == LineEdit::Accepted,
        buffer.len() == 0 ==> (line_edit_step(buffer, KeyInput::Enter, accept_empty).1 == LineEdit::Accepted <==> accept_empty),
{
    assert(buffer.drop_last() =~= buffer.subrange(0, buffer.len() - 1));
}

/// Keys that do not edit (arrows, Null and the others) leave the line as it
/// is and the box open.
pub proof fn lemma_other_keys_keep_the_line(buffer: Seq<char>, accept_empty: bool)
    ensures
        line_edit_step(buffer, KeyInput::Up, accept_empty) == (buffer, LineEdit::Editing),
        line_edit_step(buffer, KeyInput::Down, accept_empty) == (buffer, LineEdit::Editing),
        line_edit_step(buffer, KeyInput::Left, accept_empty) == (buffer, LineEdit::Editing),
        line_edit_step(buffer, KeyInput::Right, accept_empty) == (buffer, LineEdit::Editing),
        line_edit_step(buffer, KeyInput::Null, accept_empty) == (buffer, LineEdit::Editing),
        line_edit_step(buffer, KeyInput::Other, accept_empty) == (buffer, LineEdit::Editing),
        line_edit_step(buffer, KeyInput::Esc, accept_empty).0 == buffer,
        line_edit_step(buffer, KeyInput::Enter, accept_empty).0 == buffer,
{
}

/// The line after typing `typed` character by character.
pub open spec fn type_line(buffer: Seq<char>, typed: Seq<char>, accept_empty: bool) -> Seq<char>
    decreases typed.len(),
{
    if typed.len() == 0 {
        buffer
    } else {
        line_edit_step(type_line(buffer, typed.drop_last(), accept_empty), KeyInput::Char(typed.last()), accept_empty).0
    }
}

/// Typing a text character by character puts exactly that text after what
/// the line held, spaces and all.
pub proof fn lemma_typing_appends_the_text(buffer: Seq<char>, typed: Seq<char>, accept_empty: bool)
    ensures
        type_line(buffer, typed, accept_empty) == buffer + typed,
    decreases typed.len(),
{
    if typed.len() > 0 {
        lemma_typing_appends_the_text(buffer, typed.drop_last(), accept_empty);
        assert((buffer + typed.drop_last()).push(typed.last()) =~= buffer + typed);
    }
}

fn edit_line(buffer: &mut String, key: KeyInput, accept_empty: bool) -> (r: LineEdit)
    ensures
        (final(buffer)@, r) == line_edit_step(old(buffer)@, key, accept_empty),
{
    match key {
        KeyInput::Char(c) => {
            buffer.push(c);
            LineEdit::Editing
        },
        KeyInput::Backspace => {
            let _ = buffer.pop();
            LineEdit::Editing
        },
        KeyInput::Esc => LineEdit::Cancelled,
        KeyInput::Enter => {
            if !accept_empty && buffer.as_str().is_empty() {
                LineEdit::Editing
            } else {
                LineEdit::Accepted
            }
        },
        _ => LineEdit::Editing,
    }
}

/// Answers one key press in the text input box: an empty line is not
/// accepted, Enter on it keeps the box open.
pub fn input_menu(input: &mut String, key: KeyInput) -> (r: LineEdit)
    ensures
        (final(input)@, r) == line_edit_step(old(input)@, key, false),
{
    edit_line(input, key, false)
}

/// Answers one key press while a line is read in place: Enter accepts the
/// line as it is, empty or not.
pub fn read_line_interactive(buffer: &mut String, key: KeyInput) -> (r: LineEdit)
    ensures
        (final(buffer)@, r) == line_edit_step(old(buffer)@, key, true),
{
    edit_line(buffer, key, true)
}

// ------------------------------------------------------------------ banner

/// The banner shown at start: a rule of 52 dashes, three lines padded to
/// 120 columns and another rule, each ended by a newline.
pub open spec fn credentials_text() -> Seq<char> {
    let rule = repeat_char('-', 52) + "\n"@;
    rule + pad_right("CLI anime episode parser"@, 120) + "\n"@ + pad_right(
        "All voiceover rights reserved by Anilibria team"@,
        120,
    ) + "\n"@ + pad_right("Check out their website! https://anilibria.top"@, 120) + "\n"@ + rule
}

/// The banner has five lines: a rule of 52 dashes, the three texts each
/// padded with spaces to 120 columns, and the same rule again.
pub proof fn lemma_banner_lines()
    ensures
        ({
            let t = credentials_text();
            let rule = repeat_char('-', 52);
            let l1 = "CLI anime episode parser"@;
            let l2 = "All voiceover rights reserved by Anilibria team"@;
            let l3 = "Check out their website! https://anilibria.top"@;
            &&& t.len() == 53 + 3 * 121 + 53
            &&& t.subrange(0, 52) == rule && t[52] == '\n'
            &&& t.subrange(53, 53 + l1.len() as int) == l1
            &&& t.subrange(53 + l1.len() as int, 173) == repeat_char(' ', (120 - l1.len()) as nat) && t[173] == '\n'
            &&& t.subrange(174, 174 + l2.len() as int) == l2
            &&& t.subrange(174 + l2.len() as int, 294) == repeat_char(' ', (120 - l2.len()) as nat) && t[294] == '\n'
            &&& t.subrange(295, 295 + l3.len() as int) == l3
            &&& t.subrange(295 + l3.len() as int, 415) == repeat_char(' ', (120 - l3.len()) as nat) && t[415] == '\n'
            &&& t.subrange(416, 468) == rule && t[468] == '\n'
        }),
{
    reveal_strlit("CLI anime episode parser");
    reveal_strlit("All voiceover rights reserved by Anilibria team");
    reveal_strlit("Check out their website! https://anilibria.top");
    reveal_strlit("\n");
    let t = credentials_text();
    let rule = repeat_char('-', 52);
    let l1 = "CLI anime episode parser"@;
    let l2 = "All voiceover rights reserved by Anilibria team"@;
    let l3 = "Check out their website! https://anilibria.top"@;
    assert(l1.len() == 24);
    assert(l2.len() == 47);
    assert(l3.len() == 46);
    assert(t.subrange(0, 52) =~= rule);
    assert(t.subrange(53, 53 + l1.len() as int) =~= l1);
    assert(t.subrange(53 + l1.len() as int, 173) =~= repeat_char(' ', (120 - l1.len()) as nat));
    assert(t.subrange(174, 174 + l2.len() as int) =~= l2);
    assert(t.subrange(174 + l2.len() as int, 294) =~= repeat_char(' ', (120 - l2.len()) as nat));
    assert(t.subrange(295, 295 + l3.len() as int) =~= l3);
    assert(t.subrange(295 + l3.len() as int, 415) =~= repeat_char(' ', (120 - l3.len()) as nat));
    assert(t.subrange(416, 468) =~= rule);
}

/// The start banner, ready to be written to the terminal.
pub fn credentials() -> (text: String)
    ensures
        text@ == credentials_text(),
{
    let mut text = String::new();
    push_repeat(&mut text, '-', 52);
    text.append("\n");
    push_padded(&mut text, "CLI anime episode parser", 120);
    text.append("\n");
    push_padded(&mut text, "All voiceover rights reserved by Anilibria team", 120);
    text.append("\n");
    push_padded(&mut text, "Check out their website! https://anilibria.top", 120);
    text.append("\n");
    push_repeat(&mut text, '-', 52);
    text.append("\n");
    proof {
        let rule = repeat_char('-', 52) + "\n"@;
        assert(text@ =~= credentials_text());
    }
    text
}

} // verus!
