//! The application state between screens: configuration, the releases on
//! display, the stack of menus, and the decisions taken on user actions.
use vstd::prelude::*;
use crate::api::Title;
use crate::menu::{
    KeyInput, MenuNode, MenuState, MenuType, UserAction, menu_key_allowed, menu_provider, menu_step,
    spec_menu_node,
};
use crate::text::{digit_char, lemma_decimal_injective, lemma_decimal_reads_back};
use crate::text::{decimal, push_decimal};

verus! {

/// Where the release server is and which player it serves.
pub struct Api {
    pub url: String,
    pub player: String,
}

/// The user's configuration.
pub struct Config {
    pub api: Api,
    pub session_id: String,
    pub player: String,
    pub original_names: bool,
}

/// The name of the bundled player, which runs as a managed subprocess.
pub open spec fn managed_player_name() -> Seq<char> {
    "rustyplayer.exe"@
}

impl Config {
    /// Whether the configured player is the bundled one, which is started
    /// once and fed episodes through its input stream; any other player is
    /// started anew for each episode.
    pub fn uses_managed_player(&self) -> (b: bool)
        ensures
            b == (self.player@ == managed_player_name()),
    {
        self.player == String::from_str("rustyplayer.exe")
    }
}

/// Only the player named exactly `rustyplayer.exe` is the bundled one.
pub proof fn lemma_bundled_player_name(player: Seq<char>)
    ensures
        player == "rustyplayer.exe"@ <==> player == managed_player_name(),
        managed_player_name().len() == 15,
{
    reveal_strlit("rustyplayer.exe");
}

/// The state the screens share.
pub struct App {
    pub current_list: Vec<Title>,
    pub menu_stack: Vec<MenuNode>,
    pub config: Config,
}

/// The label of a release in a list: `{position}. "{name}" [{series}]`,
/// the series empty when the server gave none.
pub open spec fn release_label(position: nat, name: Seq<char>, series: Option<String>) -> Seq<char> {
    decimal(position) + ". \""@ + name + "\" ["@ + match series {
        Some(s) => s@,
        None => Seq::empty(),
    } + "]"@
}

/// The name of a release shown to the user: the original one when the
/// configuration asks for original names, else the localized one.
pub open spec fn shown_name(title: Title, original_names: bool) -> Seq<char> {
    title.names@[if original_names { 1int } else { 0int }]@
}

/// A release label starts with its position and `. "`, then the shown name,
/// then `" [`, the series (or nothing) and `]`; labels at different
/// positions differ; the shown name is the original one exactly when the
/// configuration asks for original names.
pub proof fn lemma_release_labels(position: nat, other: nat, name: Seq<char>, series: Option<String>, title: Title)
    ensures
        ({
            let l = release_label(position, name, series);
            let d = decimal(position);
            let sv = match series {
                Some(x) => x@,
                None => Seq::<char>::empty(),
            };
            let dl = d.len() as int;
            let nl = name.len() as int;
            let sl = sv.len() as int;
            &&& l.subrange(0, dl) == d
            &&& l.subrange(dl, dl + 3) == seq!['.', ' ', '"']
            &&& l.subrange(dl + 3, dl + 3 + nl) == name
            &&& l.subrange(dl + 3 + nl, dl + 6 + nl) == seq!['"', ' ', '[']
            &&& l.subrange(dl + 6 + nl, dl + 6 + nl + sl) == sv
            &&& l.len() == dl + 7 + nl + sl && l.last() == ']'
        }),
        position != other ==> release_label(position, name, series) != release_label(other, name, series),
        shown_name(title, true) == title.names@[1]@,
        shown_name(title, false) == title.names@[0]@,
{
    reveal_strlit(". \"");
    reveal_strlit("\" [");
    reveal_strlit("]");
    let l = release_label(position, name, series);
    let d = decimal(position);
    let sv = match series {
        Some(x) => x@,
        None => Seq::<char>::empty(),
    };
    let dl = d.len() as int;
    let nl = name.len() as int;
    let sl = sv.len() as int;
    assert(l =~= d + seq!['.', ' ', '"'] + name + seq!['"', ' ', '['] + sv + seq![']']);
    assert(l.subrange(0, dl) =~= d);
    assert(l.subrange(dl, dl + 3) =~= seq!['.', ' ', '"']);
    assert(l.subrange(dl + 3, dl + 3 + nl) =~= name);
    assert(l.subrange(dl + 3 + nl, dl + 6 + nl) =~= seq!['"', ' ', '[']);
    assert(l.subrange(dl + 6 + nl, dl + 6 + nl + sl) =~= sv);
    if position != other && release_label(position, name, series) == release_label(other, name, series) {
        let d2 = decimal(other);
        lemma_decimal_reads_back(position);
        lemma_decimal_reads_back(other);
        lemma_decimal_injective(position, other);
        let l2 = release_label(other, name, series);
        // Both numbers run up to the first '.', which is no digit.
        if dl < d2.len() {
            assert(l[dl] == '.');
            assert(l2[dl] == d2[dl]);
        } else if d2.len() < dl {
            assert(l2[d2.len() as int] == '.');
            assert(l[d2.len() as int] == d[d2.len() as int]);
        } else {
            assert forall|i: int| 0 <= i < dl implies d[i] == d2[i] by {
                assert(l[i] == d[i]);
                assert(l2[i] == d2[i]);
            }
            assert(d =~= d2);
        }
    }
}

/// What a list screen does after the user answered it.
#[derive(Clone, Copy, Debug, PartialEq, Eq, Structural)]
pub enum ListStep {
    /// Play episodes of the release at this position.
    Watch(usize),
    /// Leave the list.
    Leave,
    /// Load this page.
    Load(u32),
}

/// The actions a list screen can act on without overflow: a selection
/// carries a position, and paging moves within the `u32` range.
pub open spec fn list_step_allowed(page: u32, action: UserAction, selection: Option<usize>) -> bool {
    match action {
        UserAction::Select => selection is Some,
        UserAction::PageForward => page < u32::MAX,
        UserAction::PageBackward => page > 0,
        UserAction::Back => true,
    }
}

/// The step a list screen takes on page `page` after the user's answer.
pub open spec fn spec_list_step(page: u32, action: UserAction, selection: Option<usize>) -> ListStep {
    match action {
        UserAction::Select => ListStep::Watch(selection->0),
        UserAction::Back => ListStep::Leave,
        UserAction::PageForward => ListStep::Load((page + 1) as u32),
        UserAction::PageBackward => ListStep::Load((page - 1) as u32),
    }
}

/// A selection plays the selected release, Back leaves, and the page keys
/// load the next or the previous page.
pub proof fn lemma_list_steps(page: u32, index: usize)
    ensures
        spec_list_step(page, UserAction::Select, Some(index)) == ListStep::Watch(index),
        spec_list_step(page, UserAction::Back, None) == ListStep::Leave,
        page < u32::MAX ==> spec_list_step(page, UserAction::PageForward, None) == ListStep::Load((page + 1) as u32),
        page > 0 ==> spec_list_step(page, UserAction::PageBackward, None) == ListStep::Load((page - 1) as u32),
{
}

/// Decides what a list of releases does on the user's answer: play the
/// selected release, leave, or load the next or the previous page.
pub fn list_step(page: u32, action: UserAction, selection: Option<usize>) -> (step: ListStep)
    requires
        list_step_allowed(page, action, selection),
    ensures
        step == spec_list_step(page, action, selection),
{
    match action {
        UserAction::Select => ListStep::Watch(selection.unwrap()),
        UserAction::Back => ListStep::Leave,
        UserAction::PageForward => ListStep::Load(page + 1),
        UserAction::PageBackward => ListStep::Load(page - 1),
    }
}

/// Paging never leaves the listing: when a list on page `page` of `total`
/// (with `1 <= page <= total`) closes on a page turn, the page it loads is
/// again between 1 and `total`, and the turn is within the `u32` range.
pub proof fn lemma_paging_stays_within_pages(s: MenuState, key: KeyInput, page: u32, total: u32)
    requires
        s.pages == Some((page, total)),
        1 <= page <= total,
        menu_key_allowed(s, key),
    ensures
        match menu_step(s, key).1 {
            Some((action, selection)) => (action == UserAction::PageForward || action
                == UserAction::PageBackward) ==> list_step_allowed(page, action, selection) && (
            spec_list_step(page, action, selection) matches ListStep::Load(next) && 1 <= next
                <= total),
            None => true,
        },
{
}

/// The page a listing starts on.
pub open spec fn first_listing_page() -> u32 {
    1
}


/// The answers that a list menu on page `page` of `total` can give: a
/// selection names an entry, the next page exists, the previous page exists.
pub open spec fn menu_answer_possible(page: u32, total: u32, answer: (UserAction, Option<usize>)) -> bool {
    match answer.0 {
        UserAction::Select => answer.1 is Some,
        UserAction::Back => true,
        UserAction::PageForward => page < total,
        UserAction::PageBackward => page > 1,
    }
}

/// Every answer of a paged list menu is one of the possible answers.
pub proof fn lemma_menu_answers_are_possible(s: MenuState, key: KeyInput, page: u32, total: u32)
    requires
        s.pages == Some((page, total)),
        menu_key_allowed(s, key),
    ensures
        match menu_step(s, key).1 {
            Some(answer) => menu_answer_possible(page, total, answer),
            None => true,
        },
{
}

/// The page a listing shows after an answer: the page turned to, else the
/// same page (it is fetched again after watching).
pub open spec fn next_listing_page(page: u32, answer: (UserAction, Option<usize>)) -> u32 {
    match spec_list_step(page, answer.0, answer.1) {
        ListStep::Load(next) => next,
        _ => page,
    }
}

proof fn lemma_listing_pages_positive(pages: Seq<u32>, totals: Seq<u32>, answers: Seq<(UserAction, Option<usize>)>, k: int)
    requires
        pages.len() == answers.len() + 1,
        totals.len() == answers.len(),
        pages[0] == first_listing_page(),
        forall|j: int| 0 <= j < answers.len() ==> menu_answer_possible(pages[j], totals[j], #[trigger] answers[j]),
        forall|j: int| 0 <= j < answers.len() ==> pages[j + 1] == next_listing_page(pages[j], #[trigger] answers[j]),
        0 <= k < pages.len(),
    ensures
        pages[k] >= 1,
    decreases k,
{
    if k > 0 {
        lemma_listing_pages_positive(pages, totals, answers, k - 1);
        assert(menu_answer_possible(pages[k - 1], totals[k - 1], answers[k - 1]));
        assert(pages[k] == next_listing_page(pages[k - 1], answers[k - 1]));
    }
}

/// A whole listing session stays on real pages: it starts on page 1; after
/// each answer of the list menu it moves one page forward only when a next
/// page exists, one page back only from the second page on, and otherwise
/// stays; so every page is at least 1 and no page turn overflows.
pub proof fn lemma_listing_session(pages: Seq<u32>, totals: Seq<u32>, answers: Seq<(UserAction, Option<usize>)>)
    requires
        pages.len() == answers.len() + 1,
        totals.len() == answers.len(),
        pages[0] == first_listing_page(),
        forall|j: int| 0 <= j < answers.len() ==> menu_answer_possible(pages[j], totals[j], #[trigger] answers[j]),
        forall|j: int| 0 <= j < answers.len() ==> pages[j + 1] == next_listing_page(pages[j], #[trigger] answers[j]),
    ensures
        forall|k: int| 0 <= k < pages.len() ==> #[trigger] pages[k] >= 1,
        forall|k: int| 0 <= k < answers.len() ==> list_step_allowed(pages[k], #[trigger] answers[k].0, answers[k].1),
        forall|k: int| 0 <= k < answers.len() ==> {
            ||| pages[k + 1] == pages[k] && (#[trigger] answers[k]).0 != UserAction::PageForward && answers[k].0 != UserAction::PageBackward
            ||| pages[k + 1] == pages[k] + 1 && pages[k] < totals[k] && answers[k].0 == UserAction::PageForward
            ||| pages[k + 1] == pages[k] - 1 && pages[k] > 1 && answers[k].0 == UserAction::PageBackward
        },
{
    assert forall|k: int| 0 <= k < pages.len() implies #[trigger] pages[k] >= 1 by {
        lemma_listing_pages_positive(pages, totals, answers, k);
    }
    assert forall|k: int| 0 <= k < answers.len() implies list_step_allowed(pages[k], #[trigger] answers[k].0, answers[k].1) by {
        assert(menu_answer_possible(pages[k], totals[k], answers[k]));
    }
    assert forall|k: int| 0 <= k < answers.len() implies {
        ||| pages[k + 1] == pages[k] && (#[trigger] answers[k]).0 != UserAction::PageForward && answers[k].0 != UserAction::PageBackward
        ||| pages[k + 1] == pages[k] + 1 && pages[k] < totals[k] && answers[k].0 == UserAction::PageForward
        ||| pages[k + 1] == pages[k] - 1 && pages[k] > 1 && answers[k].0 == UserAction::PageBackward
    } by {
        assert(menu_answer_possible(pages[k], totals[k], answers[k]));
        assert(pages[k + 1] == next_listing_page(pages[k], answers[k]));
    }
}

/// The page a listing is on. It starts on the first page and changes only
/// by the user's answers to the list menu, so it is always at least 1.
pub struct ListingPage {
    page: u32,
}

impl View for ListingPage {
    type V = u32;

    closed spec fn view(&self) -> u32 {
        self.page
    }
}

impl ListingPage {
    #[verifier::type_invariant]
    spec fn page_is_real(self) -> bool {
        self.page >= 1
    }

    /// A listing on its first page.
    pub fn first() -> (l: ListingPage)
        ensures
            l@ == first_listing_page(),
    {
        ListingPage { page: 1 }
    }

    /// The current page, at least 1.
    pub fn page(&self) -> (p: u32)
        ensures
            p == self@,
            p >= 1,
    {
        proof {
            use_type_invariant(self);
        }
        self.page
    }

    /// Takes the list menu's answer on this page, of `total` pages: turns
    /// the page, or stays on it to play the selected release again from the
    /// same page, or leaves. The page stays at least 1.
    pub fn answer(&mut self, total: u32, action: UserAction, selection: Option<usize>) -> (step: ListStep)
        requires
            menu_answer_possible(old(self)@, total, (action, selection)),
        ensures
            step == spec_list_step(old(self)@, action, selection),
            final(self)@ == next_listing_page(old(self)@, (action, selection)),
            final(self)@ >= 1,
            action == UserAction::PageForward ==> final(self)@ == old(self)@ + 1 && old(self)@ < total,
            action == UserAction::PageBackward ==> final(self)@ == old(self)@ - 1 && old(self)@ > 1,
            action != UserAction::PageForward && action != UserAction::PageBackward ==> final(self)@
                == old(self)@,
    {
        proof {
            use_type_invariant(&*self);
        }
        let step = list_step(self.page, action, selection);
        match step {
            ListStep::Load(next) => {
                self.page = next;
            },
            _ => {},
        }
        step
    }
}

/// The digit keys pick entries by the numbers the list shows: in a list of
/// releases, digit `d` (from 1 to the number of entries) highlights the
/// entry whose label starts with `d.`.
pub proof fn lemma_digit_picks_numbered_entry(app: App, s: MenuState, d: nat)
    requires
        s.length == app.current_list@.len(),
        1 <= d <= 9,
        d <= s.length,
    ensures
        menu_key_allowed(s, KeyInput::Char(digit_char(d))),
        menu_step(s, KeyInput::Char(digit_char(d))).0.selected == d - 1,
        ({
            let i = d - 1;
            let label = release_label(
                (i + 1) as nat,
                shown_name(app.current_list@[i], app.config.original_names),
                app.current_list@[i].series,
            );
            label.take(3) == seq![digit_char(d), '.', ' ']
        }),
{
    let i = d - 1;
    let name = shown_name(app.current_list@[i], app.config.original_names);
    let series = app.current_list@[i].series;
    reveal_strlit(". \"");
    assert(decimal(d) == seq![digit_char(d)]);
    assert(release_label(d, name, series).take(3) =~= seq![digit_char(d), '.', ' ']);
}

/// The menu that the main menu opens for the user's answer.
pub open spec fn spec_main_menu_choice(action: UserAction, index: Option<usize>) -> MenuType {
    if action == UserAction::Back {
        MenuType::Back
    } else if index->0 == 0 {
        MenuType::List
    } else if index->0 == 1 {
        MenuType::Search
    } else {
        MenuType::Back
    }
}

/// The main menu's first entry opens the latest releases, its second the
/// search prompt; Esc, or any other entry, goes back.
pub proof fn lemma_main_menu_entries(index: usize)
    ensures
        spec_main_menu_choice(UserAction::Select, Some(0usize)) == MenuType::List,
        spec_main_menu_choice(UserAction::Select, Some(1usize)) == MenuType::Search,
        index >= 2 ==> spec_main_menu_choice(UserAction::Select, Some(index)) == MenuType::Back,
        spec_main_menu_choice(UserAction::Back, None) == MenuType::Back,
{
}

/// Decides where the main menu leads: its first entry to the latest
/// releases, its second to the search prompt, Esc back.
pub fn main_menu_choice(action: UserAction, index: Option<usize>) -> (next: MenuType)
    requires
        action == UserAction::Back || index is Some,
    ensures
        next == spec_main_menu_choice(action, index),
{
    if action == UserAction::Back {
        MenuType::Back
    } else {
        match index.unwrap() {
            0 => MenuType::List,
            1 => MenuType::Search,
            _ => MenuType::Back,
        }
    }
}

/// The message shown when a listing could not be fetched.
pub open spec fn spec_fetch_error_message(err: Seq<char>) -> Seq<char> {
    "Failed to fetch latest: "@ + err + "\nPress enter to continue"@
}

/// The fetch error message names the error between `Failed to fetch latest: `
/// and a second line that asks for Enter.
pub proof fn lemma_fetch_error_message_names_the_error(err: Seq<char>)
    ensures
        ({
            let m = spec_fetch_error_message(err);
            let head = "Failed to fetch latest: "@;
            let tail = "\nPress enter to continue"@;
            &&& head.len() == 24 && tail.len() == 24
            &&& m.len() == 48 + err.len()
            &&& m.subrange(0, 24) == head
            &&& m.subrange(24, 24 + err.len() as int) == err
            &&& m.subrange(24 + err.len() as int, 48 + err.len() as int) == tail
        }),
{
    reveal_strlit("Failed to fetch latest: ");
    reveal_strlit("\nPress enter to continue");
    let m = spec_fetch_error_message(err);
    assert(m.subrange(0, 24) =~= "Failed to fetch latest: "@);
    assert(m.subrange(24, 24 + err.len() as int) =~= err);
    assert(m.subrange(24 + err.len() as int, 48 + err.len() as int) =~= "\nPress enter to continue"@);
}

/// Builds the message shown when a listing could not be fetched.
pub fn fetch_error_message(err: &str) -> (m: String)
    ensures
        m@ == spec_fetch_error_message(err@),
{
    let mut m = String::from_str("Failed to fetch latest: ");
    m.append(err);
    m.append("\nPress enter to continue");
    m
}

/// How the program starts.
pub enum Launch {
    /// Run the menus from the main menu.
    Menus,
    /// Show the latest releases.
    Latest,
    /// Show the results of a search by name.
    Search(String),
    /// Do nothing.
    Nothing,
}

/// Decides how the program starts from its command line: with no argument
/// it runs the menus; with `-l` it lists the latest releases; with
/// `-s <title_name>` it searches.
pub fn launch_mode(arg_count: usize, list: bool, search: Option<String>) -> (l: Launch)
    ensures
        arg_count <= 1 ==> l is Menus,
        arg_count > 1 && list ==> l is Latest,
        arg_count > 1 && !list && search is Some ==> (l matches Launch::Search(s) && s == search->0),
        arg_count > 1 && !list && search is None ==> l is Nothing,
{
    if arg_count <= 1 {
        Launch::Menus
    } else if list {
        Launch::Latest
    } else {
        match search {
            Some(s) => Launch::Search(s),
            None => Launch::Nothing,
        }
    }
}

impl App {
    /// A fresh state: no releases on display and no menu below the current.
    pub fn new(config: Config) -> (app: App)
        ensures
            app.current_list@.len() == 0,
            app.menu_stack@.len() == 0,
            app.config == config,
    {
        App { current_list: Vec::new(), menu_stack: Vec::new(), config }
    }

    /// Lists the releases on display as menu entries, numbered from 1, each
    /// with its localized or original name as configured and its series.
    pub fn build_release_list(&self) -> (list: Vec<String>)
        ensures
            list@.len() == self.current_list@.len(),
            forall|i: int|
                0 <= i < list@.len() ==> #[trigger] list@[i]@ == release_label(
                    (i + 1) as nat,
                    shown_name(self.current_list@[i], self.config.original_names),
                    self.current_list@[i].series,
                ),
    {
        let mut list: Vec<String> = Vec::new();
        let localization: usize = if self.config.original_names { 1 } else { 0 };
        for i in 0..self.current_list.len()
            invariant
                localization == (if self.config.original_names { 1usize } else { 0usize }),
                list@.len() == i,
                forall|k: int|
                    0 <= k < i ==> #[trigger] list@[k]@ == release_label(
                        (k + 1) as nat,
                        shown_name(self.current_list@[k], self.config.original_names),
                        self.current_list@[k].series,
                    ),
        {
            let title = &self.current_list[i];
            let mut label = String::new();
            push_decimal(&mut label, (i + 1) as u64);
            label.append(". \"");
            label.append(title.names[localization].as_str());
            label.append("\" [");
            match &title.series {
                Some(s) => label.append(s.as_str()),
                None => {},
            }
            label.append("]");
            proof {
                assert(label@ =~= release_label(
                    (i + 1) as nat,
                    shown_name(*title, self.config.original_names),
                    title.series,
                ));
            }
            list.push(label);
        }
        list
    }

    /// The menu stack and the next menu after a menu finished with `next`.
    pub open spec fn spec_navigate(stack: Seq<MenuNode>, current: MenuNode, next: MenuType) -> (Seq<MenuNode>, Option<MenuNode>) {
        if next == MenuType::Back {
            if stack.len() == 0 {
                (stack, None)
            } else {
                (stack.drop_last(), Some(stack.last()))
            }
        } else {
            (stack.push(current), Some(spec_menu_node(next)))
        }
    }

    /// Moves between menus after the current one finished with `next`:
    /// `Back` returns to the menu below (or ends, `None`, when there is
    /// none); any other menu type is entered, and the current menu is kept
    /// below it.
    pub fn navigate(&mut self, current: MenuNode, next: MenuType) -> (r: Option<MenuNode>)
        ensures
            final(self).current_list == old(self).current_list,
            final(self).config == old(self).config,
            (final(self).menu_stack@, r) == App::spec_navigate(old(self).menu_stack@, current, next),
    {
        if next == MenuType::Back {
            self.menu_stack.pop()
        } else {
            self.menu_stack.push(current);
            Some(menu_provider(next))
        }
    }
}

/// Entering a menu and leaving it again returns to the menu that was
/// current, with the menu stack as it was.
pub proof fn lemma_enter_then_back_restores(stack: Seq<MenuNode>, current: MenuNode, next: MenuType, inner: MenuNode)
    requires
        next != MenuType::Back,
    ensures
        ({
            let (entered, opened) = App::spec_navigate(stack, current, next);
            &&& opened == Some(spec_menu_node(next))
            &&& App::spec_navigate(entered, inner, MenuType::Back) == (stack, Some(current))
        }),
{
    assert(stack.push(current).drop_last() =~= stack);
}

/// Back returns to the menu most recently left below, and removes it from
/// the stack; entering a menu keeps the current one on top of the stack.
pub proof fn lemma_back_returns_to_the_top(stack: Seq<MenuNode>, current: MenuNode, next: MenuType)
    requires
        stack.len() > 0,
    ensures
        App::spec_navigate(stack, current, MenuType::Back).1 == Some(stack[stack.len() - 1]),
        App::spec_navigate(stack, current, MenuType::Back).0.len() == stack.len() - 1,
        forall|i: int| 0 <= i < stack.len() - 1 ==> App::spec_navigate(stack, current, MenuType::Back).0[i] == stack[i],
        next != MenuType::Back ==> App::spec_navigate(stack, current, next).0.len() == stack.len() + 1,
        next != MenuType::Back ==> App::spec_navigate(stack, current, next).0.last() == current,
{
}

/// Leaving the bottom menu ends the program: the stack stays empty and
/// there is no next menu.
pub proof fn lemma_back_from_bottom_ends(current: MenuNode)
    ensures
        App::spec_navigate(Seq::empty(), current, MenuType::Back) == (Seq::<MenuNode>::empty(), None::<MenuNode>),
{
}

} // verus!
