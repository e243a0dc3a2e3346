use animer::api::{
    playlist_query, process_list_response, search_query, updates_list_query, Data, Name,
    Pagination, ServerResponseMessage, Title,
};
use animer::app::{
    fetch_error_message, ListingPage, launch_mode, list_step, main_menu_choice, Api, App, Config, Launch,
    ListStep,
};
use animer::menu::{
    interactive_menu, menu_provider, KeyInput, MenuAction, MenuNode, MenuState, MenuType, UserAction,
};

fn config(player: &str, original_names: bool) -> Config {
    Config {
        api: Api { url: "http://host/api".to_string(), player: "p".to_string() },
        session_id: "s".to_string(),
        player: player.to_string(),
        original_names,
    }
}

fn title(ru: &str, en: &str, series: Option<&str>) -> Title {
    Title { names: [ru.to_string(), en.to_string()], id: 7, playlist: Vec::new(), series: series.map(|s| s.to_string()) }
}

#[test]
fn request_bodies() {
    assert_eq!(updates_list_query(3), "query=list&perPage=9&page=3&filter=id,names,series");
    assert_eq!(search_query("naruto", 1), "query=search&search=naruto&perPage=9&page=1&filter=id,names,series");
    assert_eq!(playlist_query(9000), "query=release&id=9000&filter=playlist");
}

#[test]
fn listing_answers() {
    let pag = Pagination { page: 1, perPage: 9, allPages: 4 };
    let ok = ServerResponseMessage { status: true, data: Data { items: vec![title("a", "b", None)], pagination: pag }, error: None };
    let (p, items) = process_list_response(ok).unwrap();
    assert_eq!(p, pag);
    assert_eq!(items.len(), 1);
    let bad = ServerResponseMessage { status: false, data: Data { items: vec![], pagination: pag }, error: Some("boom".to_string()) };
    assert_eq!(process_list_response(bad).err().unwrap(), "boom");
    let bad = ServerResponseMessage { status: false, data: Data { items: vec![], pagination: pag }, error: None };
    assert_eq!(process_list_response(bad).err().unwrap(), "critical api error");
    let n = Name { ru: "Наруто".to_string(), en: "Naruto".to_string() };
    assert_eq!(n.en, "Naruto");
}

#[test]
fn release_labels() {
    let mut app = App::new(config("mpv", false));
    app.current_list = vec![title("Атака титанов", "Shingeki", Some("1-12")), title("Ван-Пис", "One Piece", None)];
    assert_eq!(app.build_release_list(), vec!["1. \"Атака титанов\" [1-12]".to_string(), "2. \"Ван-Пис\" []".to_string()]);
    app.config.original_names = true;
    assert_eq!(app.build_release_list(), vec!["1. \"Shingeki\" [1-12]".to_string(), "2. \"One Piece\" []".to_string()]);
}

#[test]
fn managed_player_detection() {
    assert!(config("rustyplayer.exe", false).uses_managed_player());
    assert!(!config("mpv", false).uses_managed_player());
}

#[test]
fn menu_navigation() {
    let mut app = App::new(config("mpv", false));
    let main = menu_provider(MenuType::Main);
    let list = app.navigate(main, MenuType::List).unwrap();
    assert_eq!(list, MenuNode { show_numbers: true, action: MenuAction::FetchLatestMenu });
    assert_eq!(app.menu_stack, vec![main]);
    let back = app.navigate(list, MenuType::Back);
    assert_eq!(back, Some(main));
    assert!(app.menu_stack.is_empty());
    assert_eq!(app.navigate(main, MenuType::Back), None);
}

#[test]
fn main_menu_and_paging_decisions() {
    assert_eq!(main_menu_choice(UserAction::Select, Some(0)), MenuType::List);
    assert_eq!(main_menu_choice(UserAction::Select, Some(1)), MenuType::Search);
    assert_eq!(main_menu_choice(UserAction::Select, Some(5)), MenuType::Back);
    assert_eq!(main_menu_choice(UserAction::Back, None), MenuType::Back);
    assert_eq!(list_step(2, UserAction::Select, Some(4)), ListStep::Watch(4));
    assert_eq!(list_step(2, UserAction::Back, None), ListStep::Leave);
    assert_eq!(list_step(2, UserAction::PageForward, None), ListStep::Load(3));
    assert_eq!(list_step(2, UserAction::PageBackward, None), ListStep::Load(1));
}

#[test]
fn launch_modes_and_messages() {
    assert!(matches!(launch_mode(1, false, None), Launch::Menus));
    assert!(matches!(launch_mode(2, true, None), Launch::Latest));
    assert!(matches!(launch_mode(3, false, Some("bleach".to_string())), Launch::Search(s) if s == "bleach"));
    assert!(matches!(launch_mode(2, false, None), Launch::Nothing));
    assert_eq!(fetch_error_message("timeout"), "Failed to fetch latest: timeout\nPress enter to continue");
}

#[test]
fn page_turns_stay_within_the_listing() {
    let mut s = MenuState::new(9, Some((2, 3)));
    let (action, selection) = interactive_menu(&mut s, KeyInput::Right).unwrap();
    assert_eq!(list_step(2, action, selection), ListStep::Load(3));
    let mut s = MenuState::new(9, Some((3, 3)));
    assert_eq!(interactive_menu(&mut s, KeyInput::Right), None);
    let (action, selection) = interactive_menu(&mut s, KeyInput::Left).unwrap();
    assert_eq!(list_step(3, action, selection), ListStep::Load(2));
}

#[test]
fn digit_keys_pick_the_entry_with_that_number() {
    let mut app = App::new(config("mpv", false));
    app.current_list = vec![title("a", "A", None), title("b", "B", None), title("c", "C", Some("3"))];
    let labels = app.build_release_list();
    let mut s = MenuState::new(labels.len(), None);
    interactive_menu(&mut s, KeyInput::Char('3'));
    assert!(labels[s.selected].starts_with("3. "));
    assert_eq!(interactive_menu(&mut s, KeyInput::Enter), Some((UserAction::Select, Some(2))));
}

#[test]
fn a_listing_session_stays_on_real_pages() {
    // Page 1 of 2: Left is ignored, Right turns; on page 2 Right is ignored,
    // Enter plays from the same page and Left goes back.
    let mut listing = ListingPage::first();
    assert_eq!(listing.page(), 1);
    let mut s = MenuState::new(3, Some((listing.page(), 2)));
    assert_eq!(interactive_menu(&mut s, KeyInput::Left), None);
    let (action, selection) = interactive_menu(&mut s, KeyInput::Right).unwrap();
    assert_eq!(listing.answer(2, action, selection), ListStep::Load(2));
    assert_eq!(listing.page(), 2);
    let mut s = MenuState::new(3, Some((listing.page(), 2)));
    assert_eq!(interactive_menu(&mut s, KeyInput::Right), None);
    let (action, selection) = interactive_menu(&mut s, KeyInput::Enter).unwrap();
    assert_eq!(listing.answer(2, action, selection), ListStep::Watch(0));
    assert_eq!(listing.page(), 2);
    let (action, selection) = interactive_menu(&mut s, KeyInput::Left).unwrap();
    assert_eq!(listing.answer(2, action, selection), ListStep::Load(1));
    assert_eq!(listing.page(), 1);
    assert_eq!(listing.answer(2, UserAction::Back, None), ListStep::Leave);
    assert_eq!(listing.page(), 1);
}
