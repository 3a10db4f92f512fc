//! Tabs of the dashboard and the application state driven by key presses.

use vstd::prelude::*;

use crate::config::Config;

verus! {

pub const TABVARIANT_STATIC: &'static str = "STATIC";

pub const TABVARIANT_FIXED: &'static str = "FIXED";

pub const TABVARIANT_DYNAMIC: &'static str = "DYNAMIC";

/// What kind of page a tab shows.
#[derive(Debug, Clone, Copy, PartialEq, Eq, Structural)]
pub enum TabVariant {
    /// A page that is always there (colours, all heat maps).
    Static,
    /// A page that is always there but fed by the broker (the error log).
    Fixed,
    /// The page of one device, present while the device sends.
    Dynamic,
}

/// The name under which a tab variant is shown.
pub open spec fn variant_label(v: TabVariant) -> Seq<char> {
    match v {
        TabVariant::Static => TABVARIANT_STATIC@,
        TabVariant::Fixed => TABVARIANT_FIXED@,
        TabVariant::Dynamic => TABVARIANT_DYNAMIC@,
    }
}

impl TabVariant {
    /// The name under which this variant is shown.
    pub fn label(&self) -> (r: &'static str)
        ensures
            r@ == variant_label(*self),
    {
        match self {
            TabVariant::Static => TABVARIANT_STATIC,
            TabVariant::Fixed => TABVARIANT_FIXED,
            TabVariant::Dynamic => TABVARIANT_DYNAMIC,
        }
    }
}

/// One tab of the tab bar.
#[derive(Debug)]
pub struct Tab {
    pub name: String,
    pub variant: TabVariant,
}

/// The text of a tab in the tab bar: `"<VARIANT>: <name>"`.
pub open spec fn tab_text(t: Tab) -> Seq<char> {
    variant_label(t.variant) + ": "@ + t.name@
}

impl Tab {
    pub fn new(name: String, variant: TabVariant) -> (t: Self)
        ensures
            t.name == name,
            t.variant == variant,
    {
        Self { name, variant }
    }

    /// The text of this tab in the tab bar.
    pub fn render(&self) -> (r: String)
        ensures
            r@ == tab_text(*self),
    {
        let mut r = String::from_str(self.variant.label());
        r.append(": ");
        r.append(self.name.as_str());
        r
    }
}

/// The selected position after moving one tab to the right: wraps to 0.
pub open spec fn next_index(index: int, len: int) -> int {
    (index + 1) % len
}

/// The selected position after moving one tab to the left: wraps to the last.
pub open spec fn previous_index(index: int, len: int) -> int {
    if index > 0 {
        index - 1
    } else {
        len - 1
    }
}

/// The tabs with the given name left out, the others kept in order.
pub open spec fn without_name(titles: Seq<Tab>, name: Seq<char>) -> Seq<Tab> {
    titles.filter(name_differs(name))
}

/// Whether a tab's name differs from `name`.
pub open spec fn name_differs(name: Seq<char>) -> spec_fn(Tab) -> bool {
    |t: Tab| t.name@ != name
}

/// The tab bar: its tabs and the selected position.
#[derive(Debug)]
pub struct TabsState {
    pub titles: Vec<Tab>,
    pub index: usize,
}

impl TabsState {
    pub fn new(titles: Vec<Tab>) -> (s: Self)
        ensures
            s.titles@ == titles@,
            s.index == 0,
    {
        Self { titles, index: 0 }
    }

    /// Selects the next tab, wrapping after the last one.
    pub fn next(&mut self)
        requires
            old(self).titles@.len() > 0,
            old(self).index < usize::MAX,
        ensures
            final(self).index == next_index(old(self).index as int, old(self).titles@.len() as int),
            final(self).titles@ == old(self).titles@,
    {
        self.index = (self.index + 1) % self.titles.len();
    }

    /// Selects the previous tab, wrapping before the first one.
    pub fn previous(&mut self)
        requires
            old(self).index > 0 || old(self).titles@.len() > 0,
        ensures
            final(self).index == previous_index(
                old(self).index as int,
                old(self).titles@.len() as int,
            ),
            final(self).titles@ == old(self).titles@,
    {
        if self.index > 0 {
            self.index -= 1;
        } else {
            self.index = self.titles.len() - 1;
        }
    }

    /// Drops every tab with the given name, keeping the others in order.
    pub fn remove(&mut self, device: &String)
        ensures
            final(self).titles@ == without_name(old(self).titles@, device@),
            final(self).index == old(self).index,
    {
        let ghost orig = self.titles@;
        let ghost keep = name_differs(device@);
        let mut i: usize = 0;
        let ghost mut j: int = 0;
        while i < self.titles.len()
            invariant
                0 <= i <= j <= orig.len(),
                i <= self.titles@.len(),
                self.titles@.len() - i == orig.len() - j,
                self.titles@.take(i as int) == orig.take(j).filter(keep),
                self.titles@.skip(i as int) == orig.skip(j),
                self.index == old(self).index,
                keep == name_differs(device@),
            decreases orig.len() - j,
        {
            proof {
                assert(self.titles@[i as int] == orig[j]) by {
                    assert(self.titles@.skip(i as int)[0] == orig.skip(j)[0]);
                }
                assert(orig.take(j + 1).drop_last() =~= orig.take(j));
                reveal_with_fuel(Seq::filter, 1);
            }
            if self.titles[i].name == *device {
                let ghost before = self.titles@;
                self.titles.remove(i);
                proof {
                    assert(self.titles@.take(i as int) =~= before.take(i as int));
                    assert(self.titles@.skip(i as int) =~= before.skip(i + 1));
                    assert(orig.skip(j + 1) =~= orig.skip(j).skip(1));
                    assert(before.skip(i + 1) =~= before.skip(i as int).skip(1));
                    j = j + 1;
                }
            } else {
                let ghost before = self.titles@;
                proof {
                    assert(before.take(i + 1) =~= before.take(i as int).push(before[i as int]));
                    assert(orig.skip(j + 1) =~= orig.skip(j).skip(1));
                    assert(before.skip(i + 1) =~= before.skip(i as int).skip(1));
                    j = j + 1;
                }
                i = i + 1;
            }
        }
        proof {
            assert(orig.skip(j).len() == 0);
            assert(orig.take(j) =~= orig);
            assert(self.titles@.take(i as int) =~= self.titles@);
        }
    }
}

/// The application state: settings, the quit and pause flags, the tab bar.
pub struct App {
    pub config: Config,
    pub should_quit: bool,
    pub should_pause: bool,
    pub tabs: TabsState,
}

/// The decimal value of a digit character `'1'..='9'`.
pub open spec fn digit_value(c: char) -> int {
    c as int - '0' as int
}

/// Whether `c` is one of the digits that select a tab.
pub open spec fn is_tab_digit(c: char) -> bool {
    '1' as int <= c as int <= '9' as int
}

/// The selected position after pressing the digit `c` with `len` tabs:
/// tab number `c` when there is one, else the first tab.
pub open spec fn digit_index(c: char, len: int) -> int {
    if digit_value(c) > len {
        0
    } else {
        digit_value(c) - 1
    }
}

/// The quit flag, pause flag and selected position.
pub type Controls = (bool, bool, int);

/// The controls of an application.
pub open spec fn controls(a: App) -> Controls {
    (a.should_quit, a.should_pause, a.tabs.index as int)
}

/// What a plain key press does to the controls when there are `len` tabs.
pub open spec fn after_key(s: Controls, len: int, c: char) -> Controls {
    if c == 'q' {
        (true, s.1, s.2)
    } else if c == 'p' {
        (s.0, !s.1, s.2)
    } else if c == ' ' {
        (s.0, s.1, next_index(s.2, len))
    } else if is_tab_digit(c) {
        (s.0, s.1, digit_index(c, len))
    } else {
        s
    }
}

/// What a key press with the control key held does to the controls.
pub open spec fn after_ctrl_key(s: Controls, len: int, c: char) -> Controls {
    if c == 'c' || c == 'x' {
        (true, s.1, s.2)
    } else if c == 'f' {
        (s.0, s.1, next_index(s.2, len))
    } else if c == 'b' {
        (s.0, s.1, previous_index(s.2, len))
    } else {
        s
    }
}

/// Whether moving right is defined: there is a tab, and the position can grow.
pub open spec fn can_move_right(a: App) -> bool {
    a.tabs.titles@.len() > 0 && a.tabs.index < usize::MAX
}

/// Whether moving left is defined: a position to step back from, or a last tab.
pub open spec fn can_move_left(a: App) -> bool {
    a.tabs.index > 0 || a.tabs.titles@.len() > 0
}

/// A key of the keyboard, as far as the dashboard tells keys apart.
#[derive(Debug, Clone, Copy, PartialEq, Eq, Structural)]
pub enum Key {
    Char(char),
    Left,
    Backspace,
    Right,
    Esc,
    Pause,
    Other,
}

/// What a pressed key does to the controls; `control` tells that the
/// control key, and no other modifier, was held.
pub open spec fn after_press(s: Controls, len: int, key: Key, control: bool) -> Controls {
    let first = match key {
        Key::Char(c) => after_key(s, len, c),
        Key::Left | Key::Backspace => (s.0, s.1, previous_index(s.2, len)),
        Key::Right => (s.0, s.1, next_index(s.2, len)),
        Key::Esc => (true, s.1, s.2),
        Key::Pause => (s.0, !s.1, s.2),
        Key::Other => s,
    };
    match key {
        Key::Char(c) => if control {
            after_ctrl_key(first, len, c)
        } else {
            first
        },
        _ => first,
    }
}

impl App {
    pub fn new(config: Config) -> (a: Self)
        ensures
            a.config == config,
            !a.should_quit,
            !a.should_pause,
            a.tabs.titles@.len() == 0,
            a.tabs.index == 0,
    {
        Self { config, should_quit: false, should_pause: false, tabs: TabsState::new(vec![]) }
    }

    /// Selects the next tab.
    pub fn on_right(&mut self)
        requires
            can_move_right(*old(self)),
        ensures
            controls(*final(self)) == (
                old(self).should_quit,
                old(self).should_pause,
                next_index(old(self).tabs.index as int, old(self).tabs.titles@.len() as int),
            ),
            final(self).tabs.titles@ == old(self).tabs.titles@,
            final(self).config == old(self).config,
    {
        self.tabs.next();
    }

    /// Selects the previous tab.
    pub fn on_left(&mut self)
        requires
            can_move_left(*old(self)),
        ensures
            controls(*final(self)) == (
                old(self).should_quit,
                old(self).should_pause,
                previous_index(old(self).tabs.index as int, old(self).tabs.titles@.len() as int),
            ),
            final(self).tabs.titles@ == old(self).tabs.titles@,
            final(self).config == old(self).config,
    {
        self.tabs.previous();
    }

    /// Flips the pause flag.
    pub fn on_pause(&mut self)
        ensures
            controls(*final(self)) == (
                old(self).should_quit,
                !old(self).should_pause,
                old(self).tabs.index as int,
            ),
            final(self).tabs.titles@ == old(self).tabs.titles@,
            final(self).config == old(self).config,
    {
        self.should_pause = !self.should_pause;
    }

    /// A plain key press: `q` quits, `p` pauses, space moves right,
    /// a digit selects that tab (or the first when there are fewer tabs).
    pub fn on_key(&mut self, c: char)
        requires
            c == ' ' ==> can_move_right(*old(self)),
        ensures
            controls(*final(self)) == after_key(
                controls(*old(self)),
                old(self).tabs.titles@.len() as int,
                c,
            ),
            final(self).tabs.titles@ == old(self).tabs.titles@,
            final(self).config == old(self).config,
    {
        if c == 'q' {
            self.should_quit = true;
        } else if c == 'p' {
            self.on_pause();
        } else if c == ' ' {
            self.on_right();
        } else if '1' <= c && c <= '9' {
            let index = (c as u32 - '0' as u32) as usize;
            if index > self.tabs.titles.len() {
                self.tabs.index = 0;
            } else {
                self.tabs.index = index - 1;
            }
        }
    }

    /// A key press with the control key: `c` or `x` quits, `f` moves right,
    /// `b` moves left.
    pub fn on_ctrl_key(&mut self, c: char)
        requires
            c == 'f' ==> can_move_right(*old(self)),
            c == 'b' ==> can_move_left(*old(self)),
        ensures
            controls(*final(self)) == after_ctrl_key(
                controls(*old(self)),
                old(self).tabs.titles@.len() as int,
                c,
            ),
            final(self).tabs.titles@ == old(self).tabs.titles@,
            final(self).config == old(self).config,
    {
        if c == 'c' || c == 'x' {
            self.should_quit = true;
        } else if c == 'f' {
            self.on_right();
        } else if c == 'b' {
            self.on_left();
        }
    }

    /// Adds a tab at the end of the tab bar.
    pub fn push_title(&mut self, tab: Tab)
        ensures
            final(self).tabs.titles@ == old(self).tabs.titles@.push(tab),
            controls(*final(self)) == controls(*old(self)),
            final(self).config == old(self).config,
    {
        self.tabs.titles.push(tab)
    }

    /// One pressed key: first its plain meaning, then, for a character
    /// with the control key held, its control meaning.
    pub fn on_press(&mut self, key: Key, control: bool)
        requires
            match key {
                Key::Char(c) => {
                    &&& c == ' ' ==> can_move_right(*old(self))
                    &&& control && c == 'f' ==> can_move_right(*old(self))
                    &&& control && c == 'b' ==> can_move_left(*old(self))
                },
                Key::Left | Key::Backspace => can_move_left(*old(self)),
                Key::Right => can_move_right(*old(self)),
                _ => true,
            },
        ensures
            controls(*final(self)) == after_press(
                controls(*old(self)),
                old(self).tabs.titles@.len() as int,
                key,
                control,
            ),
            final(self).tabs.titles@ == old(self).tabs.titles@,
            final(self).config == old(self).config,
            key == Key::Pause ==> final(self).should_pause == !old(self).should_pause
                && final(self).should_quit == old(self).should_quit
                && final(self).tabs.index == old(self).tabs.index,
    {
        match key {
            Key::Char(c) => {
                self.on_key(c);
                if control {
                    self.on_ctrl_key(c);
                }
            },
            Key::Left | Key::Backspace => self.on_left(),
            Key::Right => self.on_right(),
            Key::Esc => {
                self.should_quit = true;
            },
            Key::Pause => self.on_pause(),
            Key::Other => {},
        }
    }
}

/// The selected position after moving right `k` times from `index`.
pub open spec fn next_times(index: int, len: int, k: nat) -> int
    decreases k,
{
    if k == 0 {
        index
    } else {
        next_index(next_times(index, len, (k - 1) as nat), len)
    }
}

/// Moving right keeps a selected position among the tabs.
pub proof fn law_next_in_range(index: int, len: int)
    requires
        0 <= index,
        len > 0,
    ensures
        0 <= next_index(index, len) < len,
{
}

/// Moving left from a position among the tabs stays among the tabs.
pub proof fn law_previous_in_range(index: int, len: int)
    requires
        0 <= index < len,
    ensures
        0 <= previous_index(index, len) < len,
{
}

/// Moving left undoes moving right, and moving right undoes moving left,
/// for a position among the tabs.
pub proof fn law_previous_undoes_next(index: int, len: int)
    requires
        0 <= index < len,
    ensures
        previous_index(next_index(index, len), len) == index,
        next_index(previous_index(index, len), len) == index,
{
    if index + 1 < len {
        vstd::arithmetic::div_mod::lemma_small_mod((index + 1) as nat, len as nat);
    } else {
        vstd::arithmetic::div_mod::lemma_mod_self_0(len);
    }
    if index > 0 {
        vstd::arithmetic::div_mod::lemma_small_mod(index as nat, len as nat);
    } else {
        vstd::arithmetic::div_mod::lemma_mod_self_0(len);
    }
}

/// Moving right `k` times from a position among the tabs lands on
/// `(index + k) % len`; after `len` moves the selection is back where it was.
pub proof fn law_next_cycles(index: int, len: int, k: nat)
    requires
        0 <= index < len,
    ensures
        next_times(index, len, k) == (index + k) % len,
        next_times(index, len, len as nat) == index,
{
    lemma_next_times_mod(index, len, k);
    lemma_next_times_mod(index, len, len as nat);
    vstd::arithmetic::div_mod::lemma_mod_add_multiples_vanish(index, len);
    vstd::arithmetic::div_mod::lemma_small_mod(index as nat, len as nat);
}

proof fn lemma_next_times_mod(index: int, len: int, k: nat)
    requires
        0 <= index < len,
    ensures
        next_times(index, len, k) == (index + k) % len,
    decreases k,
{
    if k > 0 {
        lemma_next_times_mod(index, len, (k - 1) as nat);
        vstd::arithmetic::div_mod::lemma_add_mod_noop(index + k - 1, 1, len);
        if len > 1 {
            vstd::arithmetic::div_mod::lemma_small_mod(1, len as nat);
        }
    } else {
        vstd::arithmetic::div_mod::lemma_small_mod(index as nat, len as nat);
    }
}

/// Pressing `p` twice leaves the controls as they were.
pub proof fn law_pause_twice(s: Controls, len: int)
    ensures
        after_key(after_key(s, len, 'p'), len, 'p') == s,
{
}

/// A digit key selects the tab of that number when there is one.
pub proof fn law_digit_selects(s: Controls, len: int, c: char)
    requires
        is_tab_digit(c),
        digit_value(c) <= len,
    ensures
        after_key(s, len, c) == (s.0, s.1, digit_value(c) - 1),
        0 <= after_key(s, len, c).2 < len,
{
}

/// After removing a name no tab carries it, and every tab of another name
/// stays.
pub proof fn law_remove_drops_exactly_the_name(titles: Seq<Tab>, name: Seq<char>)
    ensures
        forall|i: int|
            0 <= i < without_name(titles, name).len() ==> (#[trigger] without_name(
                titles,
                name,
            )[i]).name@ != name,
        forall|i: int|
            0 <= i < titles.len() && (#[trigger] titles[i]).name@ != name ==> without_name(
                titles,
                name,
            ).contains(titles[i]),
{
    assert forall|i: int| 0 <= i < without_name(titles, name).len() implies (
    #[trigger] without_name(titles, name)[i]).name@ != name by {
        titles.lemma_filter_pred(name_differs(name), i);
    }
    assert forall|i: int| 0 <= i < titles.len() && (#[trigger] titles[i]).name@ != name implies without_name(
        titles,
        name,
    ).contains(titles[i]) by {
        titles.lemma_filter_contains(name_differs(name), i);
    }
}

/// The Pause key flips the pause flag and leaves quitting and the selected
/// tab alone, whatever the control key.
pub proof fn law_pause_key_flips(s: Controls, len: int, control: bool)
    ensures
        after_press(s, len, Key::Pause, control).0 == s.0,
        after_press(s, len, Key::Pause, control).1 != s.1,
        after_press(s, len, Key::Pause, control).2 == s.2,
{
}

/// Pressing the Pause key twice leaves the controls as they were: a pause is
/// resumed by the next press.
pub proof fn law_pause_key_twice(s: Controls, len: int, control: bool)
    ensures
        after_press(after_press(s, len, Key::Pause, control), len, Key::Pause, control) == s,
{
}

} // verus!
