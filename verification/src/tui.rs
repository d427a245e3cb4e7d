//! The local dashboard: where the user is, and what the keys do.

use vstd::prelude::*;

verus! {

/// How many pages the dashboard has.
pub const PAGE_COUNT: usize = 6;

/// How many tabs the agent page has.
pub const AGENT_TAB_COUNT: usize = 4;

/// How many channels are shown.
pub const CHANNEL_ROW_COUNT: usize = 4;

/// A page of the dashboard.
#[derive(Debug, Clone, Copy, PartialEq, Eq, Structural)]
pub enum Page {
    Overview,
    Agent,
    Sessions,
    Channels,
    Automation,
    Logs,
}

/// The pages in order.
pub open spec fn page_at(index: int) -> Page {
    if index == 0 {
        Page::Overview
    } else if index == 1 {
        Page::Agent
    } else if index == 2 {
        Page::Sessions
    } else if index == 3 {
        Page::Channels
    } else if index == 4 {
        Page::Automation
    } else {
        Page::Logs
    }
}

/// The title of a page.
pub open spec fn page_title(p: Page) -> Seq<char> {
    match p {
        Page::Overview => "Overview"@,
        Page::Agent => "Agent"@,
        Page::Sessions => "Sessions"@,
        Page::Channels => "Channels"@,
        Page::Automation => "Automation"@,
        Page::Logs => "Logs"@,
    }
}

impl Page {
    /// The page at a place.
    pub fn at(index: usize) -> (r: Self)
        ensures
            r == page_at(index as int),
    {
        match index {
            0 => Page::Overview,
            1 => Page::Agent,
            2 => Page::Sessions,
            3 => Page::Channels,
            4 => Page::Automation,
            _ => Page::Logs,
        }
    }

    /// The title.
    pub fn title(self) -> (r: &'static str)
        ensures
            r@ == page_title(self),
    {
        match self {
            Page::Overview => "Overview",
            Page::Agent => "Agent",
            Page::Sessions => "Sessions",
            Page::Channels => "Channels",
            Page::Automation => "Automation",
            Page::Logs => "Logs",
        }
    }
}

/// The part of the screen that keys go to.
#[derive(Debug, Clone, Copy, PartialEq, Eq, Structural)]
pub enum FocusPane {
    Nav,
    Content,
}

/// The name of a pane.
pub fn focus_label(focus: FocusPane) -> (r: &'static str)
    ensures
        r@ == match focus {
            FocusPane::Nav => "nav"@,
            FocusPane::Content => "content"@,
        },
{
    match focus {
        FocusPane::Nav => "nav",
        FocusPane::Content => "content",
    }
}

/// How many items the lists of the dashboard hold.
#[derive(Debug, Clone, Copy)]
pub struct ItemCounts {
    pub logs: usize,
    pub skills: usize,
    pub servers: usize,
    pub rules: usize,
    pub sessions: usize,
    pub jobs: usize,
}

/// How many items are shown to choose from.
pub open spec fn items_shown(page: Page, tab: int, counts: ItemCounts) -> int {
    match page {
        Page::Overview => counts.logs as int,
        Page::Agent => if tab == 0 {
            counts.skills as int
        } else if tab == 1 {
            1
        } else if tab == 2 {
            counts.servers as int
        } else {
            counts.rules as int
        },
        Page::Sessions => counts.sessions as int,
        Page::Channels => CHANNEL_ROW_COUNT as int,
        Page::Automation => counts.jobs as int,
        Page::Logs => counts.logs as int,
    }
}

/// A key.
#[derive(Debug, Clone, Copy, PartialEq, Eq, Structural)]
pub enum KeyPress {
    Char(char),
    Esc,
    Tab,
    BackTab,
    Enter,
    Left,
    Right,
    Up,
    Down,
    Other,
}

/// What is done after a key.
#[derive(Debug, Clone, Copy, PartialEq, Eq, Structural)]
pub enum KeyAction {
    Quit,
    /// The files are read again; then the screen is drawn.
    Refresh,
    Redraw,
    Ignore,
}

/// Where the user is.
#[derive(Debug)]
pub struct App {
    page_index: usize,
    selected_index: usize,
    agent_tab_index: usize,
    focus: FocusPane,
}

/// Where the user is.
#[verifier::ext_equal]
pub ghost struct AppView {
    pub page: int,
    pub selected: int,
    pub tab: int,
    pub focus: FocusPane,
}

impl View for App {
    type V = AppView;

    closed spec fn view(&self) -> AppView {
        AppView {
            page: self.page_index as int,
            selected: self.selected_index as int,
            tab: self.agent_tab_index as int,
            focus: self.focus,
        }
    }
}

/// How many items are shown to choose from.
pub open spec fn shown(v: AppView, counts: ItemCounts) -> int {
    items_shown(page_at(v.page), v.tab, counts)
}

/// The selection held within `n` items.
pub open spec fn held(selected: int, n: int) -> int {
    if n <= 0 || selected < 0 {
        0
    } else if selected >= n {
        n - 1
    } else {
        selected
    }
}

/// The selection held within what is shown.
pub open spec fn clamped(v: AppView, counts: ItemCounts) -> AppView {
    AppView { selected: held(v.selected, shown(v, counts)), ..v }
}

/// The page `delta` further, if there is one; another page begins with its
/// first item.
pub open spec fn page_moved(v: AppView, delta: int) -> AppView {
    let next = held(v.page + delta, PAGE_COUNT as int);
    if next == v.page {
        v
    } else {
        AppView { page: next, selected: 0, ..v }
    }
}

/// The item `delta` further, if there is one.
pub open spec fn selection_moved(v: AppView, delta: int, counts: ItemCounts) -> AppView {
    AppView { selected: held(v.selected + delta, shown(v, counts)), ..v }
}

/// The content with the keys.
pub open spec fn on_content(v: AppView, counts: ItemCounts) -> AppView {
    clamped(AppView { focus: FocusPane::Content, ..v }, counts)
}

/// The list of pages with the keys.
pub open spec fn on_nav(v: AppView) -> AppView {
    AppView { focus: FocusPane::Nav, ..v }
}

/// A step up or down in the part that has the keys.
pub open spec fn stepped(v: AppView, delta: int, counts: ItemCounts) -> AppView {
    if v.focus is Nav {
        page_moved(v, delta)
    } else {
        selection_moved(v, delta, counts)
    }
}

/// What a key does.
pub open spec fn pressed(v: AppView, key: KeyPress, counts: ItemCounts) -> (AppView, KeyAction) {
    let on_agent = v.focus is Content && page_at(v.page) is Agent;
    match key {
        KeyPress::Char(c) => if c == 'q' {
            (v, KeyAction::Quit)
        } else if c == 'r' {
            (v, KeyAction::Refresh)
        } else if c == 'j' {
            (stepped(v, 1, counts), KeyAction::Redraw)
        } else if c == 'k' {
            (stepped(v, -1, counts), KeyAction::Redraw)
        } else if c == ']' && on_agent {
            (
                AppView { tab: (v.tab + 1) % (AGENT_TAB_COUNT as int), selected: 0, ..v },
                KeyAction::Redraw,
            )
        } else if c == '[' && on_agent {
            (
                AppView {
                    tab: (v.tab + AGENT_TAB_COUNT - 1) % (AGENT_TAB_COUNT as int),
                    selected: 0,
                    ..v
                },
                KeyAction::Redraw,
            )
        } else if v.focus is Nav && '1' <= c <= '6' {
            (AppView { page: c as int - '1' as int, selected: 0, ..v }, KeyAction::Redraw)
        } else {
            (v, KeyAction::Ignore)
        },
        KeyPress::Esc => if v.focus is Content {
            (on_nav(v), KeyAction::Redraw)
        } else {
            (v, KeyAction::Quit)
        },
        KeyPress::Tab | KeyPress::BackTab => (
            if v.focus is Nav {
                on_content(v, counts)
            } else {
                on_nav(v)
            },
            KeyAction::Redraw,
        ),
        KeyPress::Enter | KeyPress::Right => if v.focus is Nav {
            (on_content(v, counts), KeyAction::Redraw)
        } else {
            (v, KeyAction::Ignore)
        },
        KeyPress::Left => if v.focus is Content {
            (on_nav(v), KeyAction::Redraw)
        } else {
            (v, KeyAction::Ignore)
        },
        KeyPress::Down => (stepped(v, 1, counts), KeyAction::Redraw),
        KeyPress::Up => (stepped(v, -1, counts), KeyAction::Redraw),
        KeyPress::Other => (v, KeyAction::Ignore),
    }
}

impl App {
    #[verifier::type_invariant]
    spec fn in_range(&self) -> bool {
        self.page_index < PAGE_COUNT && self.agent_tab_index < AGENT_TAB_COUNT
    }

    /// The dashboard as it opens.
    pub fn new() -> (r: Self)
        ensures
            r@ == (AppView { page: 0, selected: 0, tab: 0, focus: FocusPane::Nav }),
    {
        App { page_index: 0, selected_index: 0, agent_tab_index: 0, focus: FocusPane::Nav }
    }

    /// The page.
    pub fn page(&self) -> (r: Page)
        ensures
            r == page_at(self@.page),
    {
        Page::at(self.page_index)
    }

    /// The place of the page.
    pub fn page_index(&self) -> (r: usize)
        ensures
            r == self@.page,
            r < PAGE_COUNT,
    {
        proof {
            use_type_invariant(self);
        }
        self.page_index
    }

    /// The place of the selected item.
    pub fn selected_index(&self) -> (r: usize)
        ensures
            r == self@.selected,
    {
        self.selected_index
    }

    /// The tab of the agent page.
    pub fn agent_tab_index(&self) -> (r: usize)
        ensures
            r == self@.tab,
            r < AGENT_TAB_COUNT,
    {
        proof {
            use_type_invariant(self);
        }
        self.agent_tab_index
    }

    /// The part that has the keys.
    pub fn focus(&self) -> (r: FocusPane)
        ensures
            r == self@.focus,
    {
        self.focus
    }

    /// How many items are shown to choose from.
    pub fn selection_len(&self, counts: &ItemCounts) -> (r: usize)
        ensures
            r == shown(self@, *counts),
    {
        match self.page() {
            Page::Overview => counts.logs,
            Page::Agent => match self.agent_tab_index {
                0 => counts.skills,
                1 => 1,
                2 => counts.servers,
                _ => counts.rules,
            },
            Page::Sessions => counts.sessions,
            Page::Channels => CHANNEL_ROW_COUNT,
            Page::Automation => counts.jobs,
            Page::Logs => counts.logs,
        }
    }

    /// Holds the selection within what is shown.
    pub fn clamp_selection(&mut self, counts: &ItemCounts)
        ensures
            final(self)@ == clamped(old(self)@, *counts),
    {
        proof {
            use_type_invariant(&*self);
        }
        let len = self.selection_len(counts);
        if len == 0 {
            self.selected_index = 0;
        } else if self.selected_index >= len {
            self.selected_index = len - 1;
        }
    }

    /// Gives the keys to the content.
    pub fn focus_content(&mut self, counts: &ItemCounts)
        ensures
            final(self)@ == on_content(old(self)@, *counts),
    {
        proof {
            use_type_invariant(&*self);
        }
        self.focus = FocusPane::Content;
        self.clamp_selection(counts);
    }

    /// Gives the keys to the list of pages.
    pub fn focus_nav(&mut self)
        ensures
            final(self)@ == on_nav(old(self)@),
    {
        proof {
            use_type_invariant(&*self);
        }
        self.focus = FocusPane::Nav;
    }

    /// Gives the keys to the other part.
    pub fn toggle_focus(&mut self, counts: &ItemCounts)
        ensures
            final(self)@ == if old(self)@.focus is Nav {
                on_content(old(self)@, *counts)
            } else {
                on_nav(old(self)@)
            },
    {
        if self.focus == FocusPane::Nav {
            self.focus_content(counts);
        } else {
            self.focus_nav();
        }
    }

    /// Goes one page down or up.
    pub fn move_page(&mut self, down: bool)
        ensures
            final(self)@ == page_moved(
                old(self)@,
                if down {
                    1
                } else {
                    -1
                },
            ),
    {
        proof {
            use_type_invariant(&*self);
        }
        let next: usize = if down {
            if self.page_index + 1 < PAGE_COUNT {
                self.page_index + 1
            } else {
                self.page_index
            }
        } else if self.page_index > 0 {
            self.page_index - 1
        } else {
            0
        };
        if next != self.page_index {
            self.page_index = next;
            self.selected_index = 0;
        }
    }

    /// Goes one item down or up.
    pub fn move_selection(&mut self, down: bool, counts: &ItemCounts)
        ensures
            final(self)@ == selection_moved(
                old(self)@,
                if down {
                    1
                } else {
                    -1
                },
                *counts,
            ),
    {
        proof {
            use_type_invariant(&*self);
        }
        let len = self.selection_len(counts);
        if len == 0 {
            self.selected_index = 0;
            return;
        }
        let max: usize = len - 1;
        self.selected_index =
        if down {
            if self.selected_index >= max {
                max
            } else {
                self.selected_index + 1
            }
        } else if self.selected_index == 0 {
            0
        } else if self.selected_index > max {
            if self.selected_index - 1 > max {
                max
            } else {
                self.selected_index - 1
            }
        } else {
            self.selected_index - 1
        };
    }

    fn step(&mut self, down: bool, counts: &ItemCounts)
        ensures
            final(self)@ == stepped(
                old(self)@,
                if down {
                    1
                } else {
                    -1
                },
                *counts,
            ),
    {
        if self.focus == FocusPane::Nav {
            self.move_page(down);
        } else {
            self.move_selection(down, counts);
        }
    }

    /// Goes to the next tab of the agent page.
    pub fn next_agent_tab(&mut self)
        ensures
            final(self)@ == (AppView {
                tab: (old(self)@.tab + 1) % (AGENT_TAB_COUNT as int),
                selected: 0,
                ..old(self)@
            }),
    {
        proof {
            use_type_invariant(&*self);
        }
        self.agent_tab_index = (self.agent_tab_index + 1) % AGENT_TAB_COUNT;
        self.selected_index = 0;
    }

    /// Goes to the previous tab of the agent page.
    pub fn previous_agent_tab(&mut self)
        ensures
            final(self)@ == (AppView {
                tab: (old(self)@.tab + AGENT_TAB_COUNT - 1) % (AGENT_TAB_COUNT as int),
                selected: 0,
                ..old(self)@
            }),
    {
        proof {
            use_type_invariant(&*self);
        }
        self.agent_tab_index = (self.agent_tab_index + AGENT_TAB_COUNT - 1) % AGENT_TAB_COUNT;
        self.selected_index = 0;
    }

    fn press_char(&mut self, c: char, counts: &ItemCounts) -> (r: KeyAction)
        ensures
            (final(self)@, r) == pressed(old(self)@, KeyPress::Char(c), *counts),
    {
        proof {
            use_type_invariant(&*self);
        }
        let on_agent = self.focus == FocusPane::Content && self.page() == Page::Agent;
        if c == 'q' {
            KeyAction::Quit
        } else if c == 'r' {
            KeyAction::Refresh
        } else if c == 'j' {
            self.step(true, counts);
            KeyAction::Redraw
        } else if c == 'k' {
            self.step(false, counts);
            KeyAction::Redraw
        } else if c == ']' && on_agent {
            self.next_agent_tab();
            KeyAction::Redraw
        } else if c == '[' && on_agent {
            self.previous_agent_tab();
            KeyAction::Redraw
        } else if self.focus == FocusPane::Nav && '1' <= c && c <= '6' {
            self.page_index = c as usize - '1' as usize;
            self.selected_index = 0;
            KeyAction::Redraw
        } else {
            KeyAction::Ignore
        }
    }

    /// Does what a key asks for.
    pub fn press(&mut self, key: KeyPress, counts: &ItemCounts) -> (r: KeyAction)
        ensures
            (final(self)@, r) == pressed(old(self)@, key, *counts),
    {
        match key {
            KeyPress::Char(c) => self.press_char(c, counts),
            KeyPress::Esc => if self.focus == FocusPane::Content {
                self.focus_nav();
                KeyAction::Redraw
            } else {
                KeyAction::Quit
            },
            KeyPress::Tab => {
                self.toggle_focus(counts);
                KeyAction::Redraw
            },
            KeyPress::BackTab => {
                self.toggle_focus(counts);
                KeyAction::Redraw
            },
            KeyPress::Enter => if self.focus == FocusPane::Nav {
                self.focus_content(counts);
                KeyAction::Redraw
            } else {
                KeyAction::Ignore
            },
            KeyPress::Right => if self.focus == FocusPane::Nav {
                self.focus_content(counts);
                KeyAction::Redraw
            } else {
                KeyAction::Ignore
            },
            KeyPress::Left => if self.focus == FocusPane::Content {
                self.focus_nav();
                KeyAction::Redraw
            } else {
                KeyAction::Ignore
            },
            KeyPress::Down => {
                self.step(true, counts);
                KeyAction::Redraw
            },
            KeyPress::Up => {
                self.step(false, counts);
                KeyAction::Redraw
            },
            KeyPress::Other => KeyAction::Ignore,
        }
    }
}

/// Whether the user is on a page and a tab that there are, and the content
/// has an item selected where it has any.
pub open spec fn is_placed(v: AppView, counts: ItemCounts) -> bool {
    &&& 0 <= v.page < PAGE_COUNT
    &&& 0 <= v.tab < AGENT_TAB_COUNT
    &&& v.selected >= 0
    &&& v.focus is Content ==> v.selected == 0 || v.selected < shown(v, counts)
}

/// No key leads to a page or a tab that there is not, nor to an item that is
/// not shown.
pub proof fn law_keys_lead_to_what_is_there(v: AppView, key: KeyPress, counts: ItemCounts)
    requires
        is_placed(v, counts),
    ensures
        is_placed(pressed(v, key, counts).0, counts),
{
}

/// In the list of pages, the number of a page leads to it.
pub proof fn law_numbers_lead_to_pages(v: AppView, index: int, counts: ItemCounts)
    requires
        v.focus is Nav,
        0 <= index < PAGE_COUNT,
    ensures
        pressed(v, KeyPress::Char((49 + index) as char), counts).0.page == index,
{
}

/// Up and down step through the pages, and stop at the first and the last; a new page
/// begins at its top.
pub proof fn law_arrows_step_through_the_pages(v: AppView, counts: ItemCounts)
    requires
        v.focus is Nav,
        0 <= v.page < 6,
    ensures
        ({
            let down = pressed(v, KeyPress::Down, counts);
            let up = pressed(v, KeyPress::Up, counts);
            &&& v.page < 5 ==> down.0 == (AppView { page: v.page + 1, selected: 0, ..v })
            &&& v.page == 5 ==> down.0 == v
            &&& v.page > 0 ==> up.0 == (AppView { page: v.page - 1, selected: 0, ..v })
            &&& v.page == 0 ==> up.0 == v
            &&& down.1 is Redraw && up.1 is Redraw
            &&& pressed(v, KeyPress::Char('j'), counts) == down
            &&& pressed(v, KeyPress::Char('k'), counts) == up
        }),
{
}

/// On a page they step through its items, and stop at the first and the last.
pub proof fn law_arrows_step_through_the_items(v: AppView, counts: ItemCounts)
    requires
        v.focus is Content,
        0 <= v.selected < shown(v, counts),
    ensures
        ({
            let n = shown(v, counts);
            let down = pressed(v, KeyPress::Down, counts).0;
            let up = pressed(v, KeyPress::Up, counts).0;
            &&& v.selected + 1 < n ==> down == (AppView { selected: v.selected + 1, ..v })
            &&& v.selected + 1 == n ==> down == v
            &&& v.selected > 0 ==> up == (AppView { selected: v.selected - 1, ..v })
            &&& v.selected == 0 ==> up == v
        }),
{
}

/// The keys between the list of pages and a page lead there and back.
pub proof fn law_focus_goes_there_and_back(v: AppView, counts: ItemCounts)
    ensures
        v.focus is Nav ==> pressed(v, KeyPress::Enter, counts).0.focus is Content && pressed(
            v,
            KeyPress::Right,
            counts,
        ).0.focus is Content && pressed(v, KeyPress::Tab, counts).0.focus is Content && pressed(
            v,
            KeyPress::Enter,
            counts,
        ).0.page == v.page,
        v.focus is Content ==> pressed(v, KeyPress::Left, counts).0 == (AppView {
            focus: FocusPane::Nav,
            ..v
        }) && pressed(v, KeyPress::Esc, counts).0 == (AppView { focus: FocusPane::Nav, ..v })
            && pressed(v, KeyPress::Tab, counts).0 == (AppView { focus: FocusPane::Nav, ..v }),
        v.focus is Nav ==> pressed(v, KeyPress::Esc, counts).1 is Quit,
        pressed(v, KeyPress::Char('q'), counts).1 is Quit,
        pressed(v, KeyPress::Char('r'), counts).1 is Refresh,
        pressed(v, KeyPress::Other, counts) == (v, KeyAction::Ignore),
{
}

/// The tabs of the agent's page follow each other in a circle, and forward and back
/// undo each other.
pub proof fn law_tabs_go_round(v: AppView, counts: ItemCounts)
    requires
        v.focus is Content,
        v.page == 1,
        0 <= v.tab < 4,
    ensures
        ({
            let next = pressed(v, KeyPress::Char(']'), counts).0;
            let back = pressed(v, KeyPress::Char('['), counts).0;
            &&& next.tab == (if v.tab == 3 {
                0
            } else {
                v.tab + 1
            })
            &&& back.tab == (if v.tab == 0 {
                3
            } else {
                v.tab - 1
            })
            &&& next.selected == 0 && back.selected == 0
            &&& pressed(next, KeyPress::Char('['), counts).0.tab == v.tab
        }),
{
}

/// Each page shows its own items.
pub proof fn law_pages_show_their_items(counts: ItemCounts, tab: int)
    ensures
        items_shown(Page::Overview, tab, counts) == counts.logs,
        items_shown(Page::Logs, tab, counts) == counts.logs,
        items_shown(Page::Sessions, tab, counts) == counts.sessions,
        items_shown(Page::Automation, tab, counts) == counts.jobs,
        items_shown(Page::Channels, tab, counts) == 4,
        items_shown(Page::Agent, 0, counts) == counts.skills,
        items_shown(Page::Agent, 1, counts) == 1,
        items_shown(Page::Agent, 2, counts) == counts.servers,
        items_shown(Page::Agent, 3, counts) == counts.rules,
        page_at(0) is Overview && page_at(1) is Agent && page_at(2) is Sessions,
        page_at(3) is Channels && page_at(4) is Automation && page_at(5) is Logs,
{
}

/// Pages have their titles.
pub proof fn law_pages_have_titles(p: Page)
    ensures
        p is Overview ==> page_title(p) == "Overview"@,
        p is Agent ==> page_title(p) == "Agent"@,
        p is Sessions ==> page_title(p) == "Sessions"@,
        p is Channels ==> page_title(p) == "Channels"@,
        p is Automation ==> page_title(p) == "Automation"@,
        p is Logs ==> page_title(p) == "Logs"@,
{
}

} // verus!
