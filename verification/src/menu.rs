//! The menu itself: the source of its entries and the entries drawn from it
//! so far, the panes, the highlight, the selection and the keys.

use crate::geometry::Bounds;
use crate::geometry::Fraction;
use crate::geometry::Pair;
use crate::geometry::Point;
use crate::geometry::Rect;
use crate::geometry::ScreenSide;
use crate::item::DispFunc;
use crate::item::Item;
use crate::keys::key_down;
use crate::keys::key_up;
use crate::screen::box_written;
use crate::screen::cells_of;
use crate::screen::item_written;
use crate::screen::label_text;
use crate::screen::offset_applies;
use crate::screen::offset_rect;
use crate::screen::laid_out;
use crate::screen::Cell;
use crate::screen::Screen;
use crate::screen::Span;
use crate::screen::Style;
use crate::screen::Written;
use crate::viewport::lemma_position;
use crate::viewport::lemma_toggled_selection;
use crate::viewport::position;
use crate::viewport::toggled_selection;
use crate::viewport::Viewport;
use std::fmt::Display;
use std::ops::Not;
use vstd::prelude::*;
use vstd::std_specs::iter::IteratorSpec;
use vstd::string::*;

verus! {

/// What a key press leaves the session to do.
#[derive(Debug, Clone, Copy, PartialEq, Eq, Structural)]
pub enum MenuReturnCode {
    /// The session is over.
    Done,
    /// The session goes on.
    Pass,
}

/// What a key stands for.
#[derive(Debug, Clone, Copy, PartialEq, Eq, Structural)]
pub enum KeyAction {
    Down,
    Up,
    Toggle,
    Select,
    Nothing,
}

/// The highlight, the window, and the entries drawn from the source so far.
#[derive(Debug)]
pub struct MenuState<'a> {
    pub hover: usize,
    pub start: usize,
    pub items: Vec<Item<'a>>,
}

/// The key codes that stand for each action.
#[derive(Debug)]
pub struct Keys {
    pub down: Vec<i32>,
    pub up: Vec<i32>,
    pub select: Vec<i32>,
    pub multiselect: Vec<i32>,
}

pub struct MenuConfig {
    pub multiselect: bool,
}

/// The preview pane: the function that makes the preview of an entry, the
/// pane of the box around the preview, the pane of its text, and the label
/// of the box.
#[verifier::reject_recursive_types(F)]
pub struct Preview<F> {
    pub func: DispFunc<F>,
    pub box_screen: Screen,
    pub screen: Screen,
    pub label: Option<String>,
}

/// A Menu that lazily displays an iterable and (optionally) its preview.
#[verifier::reject_recursive_types(I)]
#[verifier::reject_recursive_types(D)]
#[verifier::reject_recursive_types(F)]
pub struct Menu<'a, I, D, F> where D: Display, I: Iterator<Item = D>, F: Fn(D) -> String {
    pub title: Option<&'a str>,
    pub iter: I,
    pub screen: Screen,
    pub preview: Option<Preview<F>>,
    pub item_icon: &'a str,
    pub chosen_item_icon: &'a str,
    pub selection: Vec<usize>,
    pub keys: Keys,
    pub state: MenuState<'a>,
    pub config: MenuConfig,
}

impl<F> Preview<F> {
    /// Both panes have a width in `(0, 1]`.
    pub open spec fn wf(self) -> bool {
        self.box_screen.wf() && self.screen.wf()
    }

    /// The offset of the text inside the box: one cell in from every edge.
    pub open spec fn margin() -> Bounds {
        Bounds(Pair { y: 1, x: 1 }, Pair { y: -1i32, x: -1i32 })
    }

    /// A preview pane on a terminal that has not been measured, without a
    /// label.
    pub open spec fn blank(func: DispFunc<F>, side: ScreenSide, width: Fraction) -> Preview<F> {
        Preview {
            func,
            box_screen: Screen::blank(side, width),
            screen: Screen { bounds_offset: Some(Self::margin()), ..Screen::blank(side, width) },
            label: None,
        }
    }

    /// Both panes placed on a terminal of the given size.
    pub open spec fn shown(self, size: Point) -> Preview<F> {
        Preview { box_screen: self.box_screen.shown(size), screen: self.screen.shown(size), ..self }
    }

    /// Whether both panes can be placed on a terminal of the given size.
    pub open spec fn fits_on(self, size: Point) -> bool {
        self.box_screen.offset_fits_on(size) && self.screen.offset_fits_on(size)
    }

    /// A preview pane at the given side and of the given width, for the
    /// previews that `func` makes.
    pub fn new(func: DispFunc<F>, side: ScreenSide, width: Fraction) -> (preview: Preview<F>)
        requires
            width.is_width(),
        ensures
            preview == Preview::blank(func, side, width),
            preview.wf(),
    {
        let box_screen = Screen::new(side, width);
        let mut screen = Screen::new(side, width);
        screen.bounds_offset = Some(Bounds(Pair { y: 1, x: 1 }, Pair { y: -1, x: -1 }));
        Preview { func, box_screen, screen, label: None }
    }

    /// Draws the box along the edges of the box pane.
    pub fn draw_box(&mut self, out: &mut Vec<Span>)
        ensures
            ({
                let pane = old(self).box_screen.bounds@;
                let drawing = box_written(pane, pane, label_text(old(self).label));
                &&& cells_of(final(out)@) == cells_of(old(out)@) + drawing.cells
                &&& *final(self) == (Preview {
                    box_screen: Screen { pos: drawing.pos.stored(), ..old(self).box_screen },
                    ..*old(self)
                })
                &&& final(self).box_screen.pos@ == drawing.pos
            }),
    {
        self.box_screen.draw_box(ScreenSide::Full, Fraction::whole(), &self.label, out);
    }

    /// Places both panes on a terminal of the given size.
    pub fn show(&mut self, size: Pair)
        requires
            old(self).wf(),
            old(self).fits_on(size@),
        ensures
            *final(self) == old(self).shown(size@),
    {
        self.box_screen.show(size);
        self.screen.show(size);
    }

    /// Places both panes again after the terminal has been redrawn.
    pub fn refresh(&mut self, size: Pair)
        requires
            old(self).wf(),
            old(self).fits_on(size@),
        ensures
            *final(self) == old(self).shown(size@),
    {
        self.screen.refresh(size);
        self.box_screen.refresh(size);
    }

    /// Moves both panes to another side and gives them another width.
    pub fn set_pos(&mut self, side: ScreenSide, width: Fraction)
        requires
            width.is_width(),
        ensures
            *final(self) == (Preview {
                box_screen: Screen { side, width, ..old(self).box_screen },
                screen: Screen { side, width, ..old(self).screen },
                ..*old(self)
            }),
            final(self).wf(),
    {
        self.screen.set_pos(side, width);
        self.box_screen.set_pos(side, width);
    }

    /// Gives the box a label.
    pub fn set_label(&mut self, label: String)
        ensures
            *final(self) == (Preview { label: Some(label), ..*old(self) }),
    {
        self.label = Some(label);
    }
}

/// What drawing the window leaves behind: the cells it filled, the cursor of
/// the list pane, the cursor of the preview's text, and the number of
/// entries drawn.
pub struct Listed {
    pub cells: Seq<Cell>,
    pub pos: Point,
    pub shown: Point,
    pub count: int,
}

/// The offset that moves the top edge of a pane `rows` rows down.
pub open spec fn title_claim(rows: int) -> Bounds {
    Bounds(Pair { y: rows as i32, x: 0 }, Pair { y: 0, x: 0 })
}

/// The offset with its top edge moved `rows` rows further down, if that
/// edge is one row down; any other offset as it is.
pub open spec fn lowered(offset: Option<Bounds>, rows: int) -> Option<Bounds> {
    match offset {
        Some(by) => if by.0.y == 1 {
            Some(Bounds(Pair { y: (1 + rows) as i32, x: by.0.x }, by.1))
        } else {
            offset
        },
        None => None,
    }
}

/// How many entries are drawn from a source that has `left` entries left to
/// reach entry `index` when `cached` entries are cached: none if `index` is
/// cached, else as many as it takes or as are left.
pub open spec fn pulled(cached: int, left: int, index: int) -> int {
    if index < cached {
        0
    } else if index - cached < left {
        index - cached + 1
    } else {
        left
    }
}

/// Asking for the same entry again draws nothing from the source: after the
/// first time the entry is cached or the source has run dry. Fewer entries
/// than it takes are drawn only where the source runs dry, and a dry source
/// gives nothing, whatever is asked for.
pub proof fn lemma_pulled_again(cached: int, left: int, index: int)
    requires
        0 <= cached,
        0 <= left,
        0 <= index,
    ensures
        0 <= pulled(cached, left, index) <= left,
        pulled(cached + pulled(cached, left, index), left - pulled(cached, left, index), index)
            == 0,
        pulled(cached, left, index) < index - cached + 1 ==> pulled(cached, left, index) == left,
        pulled(cached, 0, index) == 0,
{
}

/// Whether `key` ends the session without more ado: the escape key and `q`.
pub open spec fn is_quit(key: i32) -> bool {
    key == 27 || key == 113
}

/// Whether `key` ends the session without more ado.
pub fn quits(key: i32) -> (quit: bool)
    ensures
        quit == is_quit(key),
{
    key == 27 || key == 113
}

/// Whether `key` is one of `keys`.
pub fn has_key(keys: &Vec<i32>, key: i32) -> (found: bool)
    ensures
        found == keys@.contains(key),
{
    let mut i: usize = 0;
    while i < keys.len()
        invariant
            i <= keys.len(),
            forall|j: int| 0 <= j < i ==> keys[j] != key,
        decreases keys.len() - i,
    {
        if keys[i] == key {
            return true;
        }
        i = i + 1;
    }
    false
}

/// The first position of `wanted` in `list`, if it stands there.
pub fn position_of(list: &Vec<usize>, wanted: usize) -> (found: Option<usize>)
    ensures
        match found {
            Some(at) => list@.contains(wanted) && at == position(list@, wanted),
            None => !list@.contains(wanted),
        },
{
    let mut i: usize = 0;
    proof {
        lemma_position(list@, wanted);
    }
    while i < list.len()
        invariant
            i <= list.len(),
            forall|j: int| 0 <= j < i ==> list[j] != wanted,
        decreases list.len() - i,
    {
        if list[i] == wanted {
            proof {
                lemma_position(list@, wanted);
                if position(list@, wanted) < i {
                    assert(list[position(list@, wanted)] == wanted);
                }
            }
            return Some(i);
        }
        i = i + 1;
    }
    None
}

impl<'a, I, D, F> Menu<'a, I, D, F> where D: Display, I: Iterator<Item = D>, F: Fn(D) -> String {
    /// Create a new menu object. The iterable passed in must contain
    /// displayable items.
    ///
    /// The list fills the screen, nothing is selected, one entry can be
    /// selected, and the keys are bound as follows: the down-arrow key and
    /// `j` move down, the up-arrow key and `k` move up, the return key
    /// selects and the space bar toggles.
    pub fn new(iter: I) -> (menu: Self)
        ensures
            menu.wf(),
            menu.iter == iter,
            menu.title is None,
            menu.preview is None,
            menu.screen == Screen::blank(ScreenSide::Full, Fraction { num: 1, den: 2 }),
            menu.item_icon@ == seq!['❯'],
            menu.chosen_item_icon@ == seq!['*'],
            menu.selection@ == Seq::<usize>::empty(),
            menu.keys.down@ == seq![0x102i32, 106i32],
            menu.keys.up@ == seq![0x103i32, 107i32],
            menu.keys.select@ == seq![10i32],
            menu.keys.multiselect@ == seq![32i32],
            menu.state.hover == 0,
            menu.state.start == 0,
            menu.state.items@ == Seq::<Item<'a>>::empty(),
            !menu.config.multiselect,
            menu.selection_matches(),
    {
        let screen = Screen::new(ScreenSide::Full, Fraction::half());
        proof {
            reveal_strlit("❯");
            reveal_strlit("*");
        }
        let item_icon: &'a str = "❯";
        let chosen_item_icon: &'a str = "*";
        let mut down: Vec<i32> = Vec::new();
        down.push(key_down());
        down.push('j' as i32);
        let mut up: Vec<i32> = Vec::new();
        up.push(key_up());
        up.push('k' as i32);
        let mut select: Vec<i32> = Vec::new();
        select.push(10);
        let mut multiselect: Vec<i32> = Vec::new();
        multiselect.push(32);
        let menu = Menu {
            title: None,
            iter,
            screen,
            preview: None,
            item_icon,
            chosen_item_icon,
            selection: Vec::new(),
            keys: Keys { down, up, select, multiselect },
            state: MenuState { hover: 0, start: 0, items: Vec::new() },
            config: MenuConfig { multiselect: false },
        };
        assert(menu.item_icon@ =~= seq!['❯']);
        assert(menu.chosen_item_icon@ =~= seq!['*']);
        assert(menu.keys.down@ =~= seq![0x102i32, 106i32]);
        assert(menu.keys.up@ =~= seq![0x103i32, 107i32]);
        assert(menu.keys.select@ =~= seq![10i32]);
        assert(menu.keys.multiselect@ =~= seq![32i32]);
        menu
    }

    /// Sets the text displayed above the menu.
    pub fn title(self, text: &'a str) -> (built: Self)
        ensures
            built == (Menu { title: Some(text), ..self }),
    {
        let mut menu = self;
        menu.title = Some(text);
        menu
    }

    /// Add a preview pane that displays the result of applying the function
    /// passed in to each item in the iterable. The function must return a
    /// String.
    ///
    /// The list moves to the left half of the screen and the preview takes
    /// the right half. To be called before any entry has been drawn from
    /// the source.
    pub fn preview(self, func: F) -> (built: Self)
        requires
            self.wf(),
            self.state.items@.len() == 0,
            forall|thing: D| #[trigger] call_requires(func, (thing,)),
        ensures
            built == (Menu {
                screen: Screen {
                    side: ScreenSide::Left,
                    width: Fraction { num: 1, den: 2 },
                    ..self.screen
                },
                preview: Some(
                    Preview::blank(
                        DispFunc { func },
                        ScreenSide::Right,
                        Fraction { num: 1, den: 2 },
                    ),
                ),
                ..self
            }),
            built.wf(),
    {
        let mut menu = self;
        let func = DispFunc::new(func);
        menu.screen.set_pos(ScreenSide::Left, Fraction::half());
        menu.preview = Some(Preview::new(func, ScreenSide::Right, Fraction::half()));
        menu
    }

    /// Sets the position of the preview pane. The `side` parameter
    /// determines the side on which the pane sits. The `width` parameter is
    /// a fraction above nothing and below the whole. It determines the
    /// proportion of the screen that the preview pane should use.
    ///
    /// The menu's side is automatically switched to opposite the preview
    /// pane's side, and the menu's width is set to what `width` leaves free.
    pub fn preview_pos(self, side: ScreenSide, width: Fraction) -> (built: Self)
        requires
            self.wf(),
            self.preview is Some,
            0 < width.num < width.den,
        ensures
            built == (Menu {
                screen: Screen {
                    side: side.opposite(),
                    width: Fraction { num: (width.den - width.num) as u32, den: width.den },
                    ..self.screen
                },
                preview: Some(
                    Preview {
                        box_screen: Screen { side, width, ..self.preview->0.box_screen },
                        screen: Screen { side, width, ..self.preview->0.screen },
                        ..self.preview->0
                    },
                ),
                ..self
            }),
            built.wf(),
    {
        let mut menu = self;
        menu.screen.set_pos(side.not(), width.complement());
        match &mut menu.preview {
            Some(preview) => {
                preview.set_pos(side, width);
            },
            None => {},
        }
        menu
    }

    /// Sets the default icon of the menu. This is displayed before each
    /// entry.
    pub fn icon(self, icon: &'a str) -> (built: Self)
        ensures
            built == (Menu { item_icon: icon, ..self }),
    {
        let mut menu = self;
        menu.item_icon = icon;
        menu
    }

    /// Sets the icon displayed when an item is selected in multiselect mode.
    pub fn selected_icon(self, icon: &'a str) -> (built: Self)
        ensures
            built == (Menu { chosen_item_icon: icon, ..self }),
    {
        let mut menu = self;
        menu.chosen_item_icon = icon;
        menu
    }

    /// Sets the text displayed on top of the preview box. It is recommended
    /// to surround the label with spaces for aesthetic reasons. If it is
    /// not set, `" preview "` will be used.
    pub fn preview_label(self, label: String) -> (built: Self)
        requires
            self.preview is Some,
        ensures
            built == (Menu {
                preview: Some(Preview { label: Some(label), ..self.preview->0 }),
                ..self
            }),
    {
        let mut menu = self;
        match &mut menu.preview {
            Some(preview) => {
                preview.set_label(label);
            },
            None => {},
        }
        menu
    }

    /// Adds a keybinding that triggers a multiselection. The key is a key
    /// code of the terminal: the code of a character for an ASCII key.
    pub fn add_multiselect_key(self, key: i32) -> (built: Self)
        ensures
            built.keys.multiselect@ == self.keys.multiselect@.push(key),
            built == (Menu {
                keys: Keys { multiselect: built.keys.multiselect, ..self.keys },
                ..self
            }),
    {
        let mut menu = self;
        menu.keys.multiselect.push(key);
        menu
    }

    /// Adds a keybinding that triggers an up movement.
    pub fn add_up_key(self, key: i32) -> (built: Self)
        ensures
            built.keys.up@ == self.keys.up@.push(key),
            built == (Menu { keys: Keys { up: built.keys.up, ..self.keys }, ..self }),
    {
        let mut menu = self;
        menu.keys.up.push(key);
        menu
    }

    /// Adds a keybinding that triggers a down movement.
    pub fn add_down_key(self, key: i32) -> (built: Self)
        ensures
            built.keys.down@ == self.keys.down@.push(key),
            built == (Menu { keys: Keys { down: built.keys.down, ..self.keys }, ..self }),
    {
        let mut menu = self;
        menu.keys.down.push(key);
        menu
    }

    /// Adds a keybinding that triggers a selection.
    pub fn add_select_key(self, key: i32) -> (built: Self)
        ensures
            built.keys.select@ == self.keys.select@.push(key),
            built == (Menu { keys: Keys { select: built.keys.select, ..self.keys }, ..self }),
    {
        let mut menu = self;
        menu.keys.select.push(key);
        menu
    }

    /// Allow multiple items to be selected from the menu.
    pub fn multiselect(self) -> (built: Self)
        ensures
            built == (Menu { config: MenuConfig { multiselect: true }, ..self }),
    {
        let mut menu = self;
        menu.config.multiselect = true;
        menu
    }

    /// What the menu relies on between calls: the panes have widths in
    /// `(0, 1]`, every cached entry has a preview exactly if the menu has a
    /// preview pane, and the preview function can be called on every entry
    /// of the source.
    pub open spec fn wf(self) -> bool {
        &&& self.screen.wf()
        &&& self.preview matches Some(preview) ==> preview.wf()
        &&& forall|i: int|
            0 <= i < self.state.items@.len() ==> (#[trigger] self.state.items@[i].preview is Some
                <==> self.preview is Some)
        &&& self.preview matches Some(preview) ==> forall|thing: D| #[trigger]
            call_requires(preview.func.func, (thing,))
    }

    /// The highlight, the window and the number of entries last drawn.
    pub open spec fn viewport(self) -> Viewport {
        Viewport {
            hover: self.state.hover as int,
            start: self.state.start as int,
            rendered: self.screen.items_on_screen as int,
        }
    }

    /// The highlighted entry has been drawn from the source.
    pub open spec fn hover_in_cache(self) -> bool {
        self.state.start + self.state.hover < self.state.items@.len()
    }

    /// The menu as it is but for the highlight and the window.
    pub open spec fn same_but_view(self, before: Self) -> bool {
        self == (Menu {
            state: MenuState { hover: self.state.hover, start: self.state.start, ..before.state },
            ..before
        })
    }

    /// The menu as it is but for the entries and the selection.
    pub open spec fn same_but_chosen(self, before: Self) -> bool {
        self == (Menu {
            state: MenuState { items: self.state.items, ..before.state },
            selection: self.selection,
            ..before
        })
    }

    /// The entries as they were, with the `chosen` flag of entry `index`
    /// flipped.
    pub open spec fn toggled_at(self, before: Self, index: int) -> bool {
        &&& self.state.items@.len() == before.state.items@.len()
        &&& forall|i: int|
            0 <= i < self.state.items@.len() && i != index ==> self.state.items@[i]
                == before.state.items@[i]
        &&& self.state.items@[index]@ == before.state.items@[index]@.toggled()
        &&& self.state.items@[index].preview == before.state.items@[index].preview
    }

    /// The selection.
    pub fn finish(&self) -> (chosen: Vec<usize>)
        ensures
            chosen@ == self.selection@,
    {
        self.selection.clone()
    }

    /// `item` is the entry that the menu makes of `thing`, an entry of its
    /// source: not chosen, with the menu's icons, with the text that `thing`
    /// displays as, and with the preview that the preview function gives
    /// for `thing` where the menu has a preview pane.
    pub open spec fn made_of(self, thing: D, item: Item<'a>) -> bool {
        &&& item.icon == self.item_icon
        &&& item.chosen_icon == self.chosen_item_icon
        &&& !item.chosen
        &&& to_string_from_display_ensures::<D>(&thing, item.repr)
        &&& match self.preview {
            Some(preview) => item.preview matches Some(text) && call_ensures(
                preview.func.func,
                (thing,),
                text,
            ),
            None => item.preview is None,
        }
    }

    /// `item` is the entry that the menu makes of some entry of its source.
    pub open spec fn fresh(self, item: Item<'a>) -> bool {
        exists|thing: D| self.made_of(thing, item)
    }

    /// The menu as it is but for its source and the entries drawn from it.
    pub open spec fn same_but_source(self, before: Self) -> bool {
        self == (Menu {
            iter: self.iter,
            state: MenuState { items: self.state.items, ..before.state },
            ..before
        })
    }

    /// What drawing from the source up to entry `index` leaves of the menu
    /// `before`, whatever the source is: the entries cached before stay as
    /// they are, new ones come behind them, no more than it takes to reach
    /// `index`, each made of some entry of the source; and nothing at all
    /// changes where `index` was cached before.
    pub open spec fn drawn_to(self, before: Self, index: usize) -> bool {
        let had = before.state.items@.len();
        let has = self.state.items@.len();
        &&& self.same_but_source(before)
        &&& had <= has
        &&& has <= had || has <= index + 1
        &&& self.state.items@.take(had as int) == before.state.items@
        &&& index < had ==> self == before
        &&& forall|k: int| had <= k < has ==> before.fresh(#[trigger] self.state.items@[k])
    }

    /// Draws entries from the source until entry `i` is cached or the source
    /// has run dry, and hands out entry `i` if it is cached then.
    ///
    /// Of a source that keeps the laws of iterators the contract says
    /// exactly what is drawn: the next entries of the source, in order, as
    /// many as [`pulled`] says.
    pub fn yield_item(&mut self, i: usize) -> (item: Option<&Item<'a>>)
        requires
            old(self).wf(),
        ensures
            final(self).wf(),
            final(self).drawn_to(*old(self), i),
            match item {
                Some(item) => i < final(self).state.items@.len() && *item
                    == final(self).state.items@[i as int],
                None => i >= final(self).state.items@.len(),
            },
            old(self).iter.obeys_prophetic_iter_laws() && item is None
                ==> final(self).iter.remaining().len() == 0,
            old(self).iter.obeys_prophetic_iter_laws() ==> {
                let source = old(self).iter.remaining();
                let had = old(self).state.items@.len() as int;
                let count = pulled(had, source.len() as int, i as int);
                &&& final(self).iter.obeys_prophetic_iter_laws()
                &&& final(self).state.items@.len() == had + count
                &&& final(self).iter.remaining() == source.skip(count)
                &&& forall|k: int|
                    0 <= k < count ==> old(self).made_of(
                        source[k],
                        #[trigger] final(self).state.items@[had + k],
                    )
            },
    {
        let ghost had = self.state.items@.len() as int;
        let ghost mut things: Seq<D> = Seq::empty();
        proof {
            assert(self.state.items@.take(had) =~= self.state.items@);
            assert(self.iter.remaining().skip(0) =~= self.iter.remaining());
        }
        while self.state.items.len() <= i
            invariant
                self.wf(),
                self.same_but_source(*old(self)),
                had == old(self).state.items@.len(),
                had <= self.state.items@.len(),
                had == self.state.items@.len() || self.state.items@.len() <= i + 1,
                had == self.state.items@.len() ==> *self == *old(self),
                self.state.items@.take(had) == old(self).state.items@,
                things.len() == self.state.items@.len() - had,
                forall|k: int|
                    0 <= k < things.len() ==> old(self).made_of(
                        things[k],
                        #[trigger] self.state.items@[had + k],
                    ),
                self.iter.obeys_prophetic_iter_laws() == old(self).iter.obeys_prophetic_iter_laws(),
                old(self).iter.obeys_prophetic_iter_laws() ==> {
                    &&& things.len() <= old(self).iter.remaining().len()
                    &&& things == old(self).iter.remaining().take(things.len() as int)
                    &&& self.iter.remaining() == old(self).iter.remaining().skip(
                        things.len() as int,
                    )
                },
            decreases i + 1 - self.state.items.len(),
        {
            let ghost before = self.state.items@;
            match self.iter.next() {
                Some(item) => {
                    let ghost thing = item;
                    let mut new_item = Item::new(&item, self.item_icon, self.chosen_item_icon);
                    if let Some(preview) = &self.preview {
                        new_item.preview(item, &preview.func);
                    }
                    self.state.items.push(new_item);
                    proof {
                        let source = old(self).iter.remaining();
                        let count = things.len() as int;
                        things = things.push(thing);
                        assert(self.state.items@.take(had) =~= before.take(had));
                        if old(self).iter.obeys_prophetic_iter_laws() {
                            assert(source.skip(count).drop_first() =~= source.skip(count + 1));
                            assert(things =~= source.take(count + 1));
                        }
                    }
                },
                None => {
                    proof {
                        Self::lemma_drawn(*old(self), *self, things, i);
                    }
                    return None;
                },
            }
        }
        proof {
            Self::lemma_drawn(*old(self), *self, things, i);
        }
        Some(&self.state.items[i])
    }

    /// The entries behind those cached before are each made of some entry
    /// of the source where they are made of the entries of `things`.
    proof fn lemma_drawn(before: Self, after: Self, things: Seq<D>, index: usize)
        requires
            things.len() == after.state.items@.len() - before.state.items@.len(),
            forall|k: int|
                0 <= k < things.len() ==> before.made_of(
                    things[k],
                    #[trigger] after.state.items@[before.state.items@.len() + k],
                ),
        ensures
            forall|k: int|
                before.state.items@.len() <= k < after.state.items@.len() ==> before.fresh(
                    #[trigger] after.state.items@[k],
                ),
    {
        let had = before.state.items@.len() as int;
        assert forall|k: int| had <= k < after.state.items@.len() implies before.fresh(
            #[trigger] after.state.items@[k],
        ) by {
            assert(after.state.items@[had + (k - had)] == after.state.items@[k]);
            assert(before.made_of(things[k - had], after.state.items@[k]));
        }
    }

    /// How many rows the title gets: one more than its length in bytes
    /// divided by the columns of the list pane. None without a title.
    pub open spec fn title_height(self) -> int {
        match self.title {
            Some(title) => title.len() as int / self.screen.columns() + 1,
            None => 0,
        }
    }

    /// The cells of the title on a terminal of the given size: the title is
    /// written from the top-left corner of the terminal, wrapped at its right
    /// edge and cut off at its bottom edge.
    pub open spec fn title_cells(self, size: Point) -> Seq<Cell> {
        match self.title {
            Some(title) => laid_out(
                Rect::screen(size),
                Point { y: 0, x: 0 },
                title@,
                Style::Plain,
            ).cells,
            None => Seq::empty(),
        }
    }

    /// Whether the rows of the title can be reserved: a title needs a list
    /// pane with a column, and the number of its rows and one more must fit
    /// a coordinate.
    pub open spec fn can_reserve(self) -> bool {
        self.title is Some ==> self.screen.columns() > 0 && self.title_height() < i32::MAX
    }

    /// The menu once the title has reserved its rows.
    ///
    /// Without a title nothing changes. With one, the list pane gets the
    /// offset that moves its top edge below the title unless it has an offset
    /// already; so does the box of the preview, and if it does, the top edge
    /// of the preview's text, where it is one row below the box, moves as far
    /// down.
    pub open spec fn reserved(self) -> Self {
        if self.title is None {
            self
        } else {
            let claim = Some(title_claim(self.title_height()));
            Menu {
                screen: Screen {
                    bounds_offset: if self.screen.bounds_offset is None {
                        claim
                    } else {
                        self.screen.bounds_offset
                    },
                    ..self.screen
                },
                preview: match self.preview {
                    Some(preview) => Some(
                        if preview.box_screen.bounds_offset is None {
                            Preview {
                                box_screen: Screen { bounds_offset: claim, ..preview.box_screen },
                                screen: Screen {
                                    bounds_offset: lowered(
                                        preview.screen.bounds_offset,
                                        self.title_height(),
                                    ),
                                    ..preview.screen
                                },
                                ..preview
                            }
                        } else {
                            preview
                        },
                    ),
                    None => None,
                },
                ..self
            }
        }
    }

    /// Writes the title over the whole terminal, from its top-left corner,
    /// and reserves its rows.
    fn draw_title(&mut self, size: Pair, out: &mut Vec<Span>)
        requires
            old(self).wf(),
            old(self).can_reserve(),
        ensures
            *final(self) == old(self).reserved(),
            cells_of(final(out)@) == cells_of(old(out)@) + old(self).title_cells(size@),
    {
        match self.title {
            Some(title) => {
                let mut terminal = Screen::new(ScreenSide::Full, Fraction::whole());
                terminal.erase(size);
                terminal.addstr(title, Style::Plain, out);
                let title_height: i32 = (title.len() / self.screen.max_x() + 1) as i32;
                let top_offset = Pair { y: title_height, x: 0 };
                let bottom_offset = Pair { y: 0, x: 0 };
                if self.screen.bounds_offset.is_none() {
                    self.screen.bounds_offset = Some(Bounds(top_offset, bottom_offset));
                }
                match &mut self.preview {
                    Some(prev) => {
                        if prev.box_screen.bounds_offset.is_none() {
                            prev.box_screen.bounds_offset = Some(Bounds(top_offset, bottom_offset));
                            match &mut prev.screen.bounds_offset {
                                Some(offset) => {
                                    if offset.0.y == 1 {
                                        offset.0.y = offset.0.y + title_height;
                                    }
                                },
                                None => {},
                            }
                        }
                    },
                    None => {},
                }
            },
            None => {
                assert(cells_of(out@) + Seq::<Cell>::empty() =~= cells_of(out@));
            },
        }
    }

    /// Whether the panes can be made ready for a frame: the offset of the
    /// list pane and of the preview's text can be applied, and with a title
    /// that of the preview's box too.
    pub open spec fn can_rewind(self) -> bool {
        &&& self.screen.offset_fits()
        &&& self.preview matches Some(preview) ==> {
            &&& preview.screen.offset_fits()
            &&& self.title is Some ==> preview.box_screen.offset_fits()
        }
    }

    /// The menu with its panes ready for a frame: the list pane rewound,
    /// and with a title both panes of the preview too.
    pub open spec fn rewound(self) -> Self {
        Menu {
            screen: self.screen.rewound(),
            preview: match self.preview {
                Some(preview) => Some(
                    if self.title is Some {
                        Preview {
                            box_screen: preview.box_screen.rewound(),
                            screen: preview.screen.rewound(),
                            ..preview
                        }
                    } else {
                        preview
                    },
                ),
                None => None,
            },
            ..self
        }
    }

    /// Makes the panes ready for a frame.
    fn rewind(&mut self)
        requires
            old(self).can_rewind(),
        ensures
            *final(self) == old(self).rewound(),
    {
        if self.title.is_some() {
            match &mut self.preview {
                Some(prev) => {
                    prev.screen.reset_pos();
                    prev.box_screen.reset_pos();
                },
                None => {},
            }
        }
        self.screen.reset_pos();
    }

    /// The cells of the box around the preview; none without a preview.
    pub open spec fn box_cells(self) -> Seq<Cell> {
        match self.preview {
            Some(preview) => box_written(
                preview.box_screen.bounds@,
                preview.box_screen.bounds@,
                label_text(preview.label),
            ).cells,
            None => Seq::empty(),
        }
    }

    /// The menu after the box around the preview has been drawn: the cursor
    /// of the box pane stands behind the box, and the pane of the preview's
    /// text is rewound.
    pub open spec fn boxed(self) -> Self {
        match self.preview {
            Some(preview) => Menu {
                preview: Some(
                    Preview {
                        box_screen: Screen {
                            pos: box_written(
                                preview.box_screen.bounds@,
                                preview.box_screen.bounds@,
                                label_text(preview.label),
                            ).pos.stored(),
                            ..preview.box_screen
                        },
                        screen: preview.screen.rewound(),
                        ..preview
                    },
                ),
                ..self
            },
            None => self,
        }
    }

    /// Draws the box around the preview and rewinds the pane of its text.
    fn draw_preview_box(&mut self, out: &mut Vec<Span>)
        requires
            old(self).preview matches Some(preview) ==> preview.screen.offset_fits(),
        ensures
            *final(self) == old(self).boxed(),
            cells_of(final(out)@) == cells_of(old(out)@) + old(self).box_cells(),
    {
        match &mut self.preview {
            Some(prev) => {
                prev.draw_box(out);
                prev.screen.reset_pos();
            },
            None => {
                assert(cells_of(out@) + Seq::<Cell>::empty() =~= cells_of(out@));
            },
        }
    }

    /// The pane of the preview's text and the cursor in it; an empty pane
    /// without a preview.
    pub open spec fn preview_pane(self) -> Rect {
        match self.preview {
            Some(preview) => preview.screen.bounds@,
            None => Rect::screen(Point { y: 0, x: 0 }),
        }
    }

    /// The cursor in the pane of the preview's text.
    pub open spec fn preview_cursor(self) -> Point {
        match self.preview {
            Some(preview) => preview.screen.pos@,
            None => Point { y: 0, x: 0 },
        }
    }

    /// The menu with the cursor of the list pane at `pos`, that of the
    /// preview's text at `shown`, and `count` entries counted.
    pub open spec fn with_cursors(self, pos: Pair, shown: Pair, count: usize) -> Self {
        Menu {
            screen: Screen { pos, items_on_screen: count, ..self.screen },
            preview: match self.preview {
                Some(preview) => Some(
                    Preview { screen: Screen { pos: shown, ..preview.screen }, ..preview },
                ),
                None => None,
            },
            ..self
        }
    }

    /// Drawing entry `index` with the cursor of the list pane at `pos` and
    /// that of the preview's text at `shown`: the entry is drawn,
    /// highlighted if it is under the highlight, and in that case its
    /// preview, where the menu has a preview, is written into the
    /// preview's pane right after it.
    pub open spec fn entry_at(self, index: int, pos: Point, shown: Point) -> Listed {
        let item = self.state.items@[index];
        let highlight = index == self.state.start + self.state.hover;
        let entry = item_written(self.screen.bounds@, pos, item@, highlight);
        let beside = match item.preview {
            Some(text) if highlight && self.preview is Some => laid_out(
                self.preview_pane(),
                shown,
                text@,
                Style::Plain,
            ),
            _ => Written { cells: Seq::empty(), pos: shown },
        };
        Listed { cells: entry.cells + beside.cells, pos: entry.pos, shown: beside.pos, count: 1 }
    }

    /// Drawing the entries from entry `from` on, with the cursor of the
    /// list pane at `pos` and that of the preview's text at `shown`: entry
    /// after entry, until the entries run out or the cursor has reached the
    /// bottom edge of the list pane.
    pub open spec fn list_from(self, from: int, pos: Point, shown: Point) -> Listed
        decreases self.state.items@.len() - from,
    {
        if from < 0 || from >= self.state.items@.len() || pos.y >= self.screen.bounds.1.y {
            Listed { cells: Seq::empty(), pos, shown, count: 0 }
        } else {
            let first = self.entry_at(from, pos, shown);
            let rest = self.list_from(from + 1, first.pos, first.shown);
            Listed {
                cells: first.cells + rest.cells,
                pos: rest.pos,
                shown: rest.shown,
                count: rest.count + 1,
            }
        }
    }

    /// Drawing the window: the entries from the start of the window on,
    /// from where the cursors stand.
    pub open spec fn list(self) -> Listed {
        self.list_from(self.state.start as int, self.screen.pos@, self.preview_cursor())
    }

    /// The menu after the window has been drawn: the cursors stand behind
    /// what was written, and the list pane has counted the entries drawn.
    pub open spec fn listed(self) -> Self {
        self.with_cursors(
            self.list().pos.stored(),
            self.list().shown.stored(),
            (self.screen.items_on_screen + self.list().count) as usize,
        )
    }

    /// Draws entry `index` unless the cursor of the list pane has reached
    /// the bottom edge, and says whether it did.
    fn draw_entry(&mut self, index: usize, out: &mut Vec<Span>) -> (drawn: bool)
        requires
            old(self).wf(),
            index < old(self).state.items@.len(),
            old(self).screen.items_on_screen < usize::MAX,
        ensures
            drawn == (old(self).screen.pos.y < old(self).screen.bounds.1.y),
            !drawn ==> *final(self) == *old(self) && final(out)@ == old(out)@,
            drawn ==> {
                let step = old(self).entry_at(
                    index as int,
                    old(self).screen.pos@,
                    old(self).preview_cursor(),
                );
                &&& cells_of(final(out)@) == cells_of(old(out)@) + step.cells
                &&& final(self).screen.pos@ == step.pos
                &&& final(self).preview_cursor() == step.shown
                &&& *final(self) == old(self).with_cursors(
                    final(self).screen.pos,
                    final(self).preview_cursor().stored(),
                    (old(self).screen.items_on_screen + 1) as usize,
                )
            },
    {
        let ghost before = cells_of(out@);
        let ghost step = self.entry_at(index as int, self.screen.pos@, self.preview_cursor());
        let highlight: bool = index as u128 == self.state.start as u128 + self.state.hover as u128;
        let item = &self.state.items[index];
        if !self.screen.write_item(item, highlight, out) {
            return false;
        }
        if highlight {
            match &mut self.preview {
                Some(prev) => {
                    match &item.preview {
                        Some(text) => {
                            prev.screen.addstr(text.as_str(), Style::Plain, out);
                        },
                        None => {},
                    }
                },
                None => {},
            }
        }
        assert(cells_of(out@) =~= before + step.cells);
        true
    }

    /// Draws the window.
    fn draw_items(&mut self, out: &mut Vec<Span>)
        requires
            old(self).wf(),
            old(self).screen.items_on_screen == 0,
        ensures
            *final(self) == old(self).listed(),
            cells_of(final(out)@) == cells_of(old(out)@) + old(self).list().cells,
            final(self).screen.items_on_screen == old(self).list().count,
            old(self).list().count <= old(self).state.items@.len(),
            old(self).state.start <= old(self).state.items@.len() ==> old(self).state.start
                + old(self).list().count <= old(self).state.items@.len(),
    {
        let ghost before = cells_of(out@);
        let ghost mut drawn: Seq<Cell> = Seq::empty();
        let ghost goal = self.list();
        let mut i: usize = self.state.start;
        let cached: usize = self.state.items.len();
        proof {
            assert(before + drawn =~= before);
            assert(goal.cells =~= drawn + goal.cells);
        }
        while i < cached
            invariant_except_break
                goal.cells == drawn + self.list_from(
                    i as int,
                    self.screen.pos@,
                    self.preview_cursor(),
                ).cells,
                goal.pos == self.list_from(i as int, self.screen.pos@, self.preview_cursor()).pos,
                goal.shown == self.list_from(i as int, self.screen.pos@, self.preview_cursor()).shown,
                goal.count == (i - self.state.start) + self.list_from(
                    i as int,
                    self.screen.pos@,
                    self.preview_cursor(),
                ).count,
            invariant
                self.wf(),
                cached == self.state.items@.len(),
                self.state.start <= i <= cached || (i == self.state.start && i > cached),
                self.screen.items_on_screen == i - self.state.start,
                cells_of(out@) == before + drawn,
                *self == old(self).with_cursors(
                    self.screen.pos,
                    self.preview_cursor().stored(),
                    self.screen.items_on_screen,
                ),
            ensures
                goal.cells == drawn,
                goal.pos == self.screen.pos@,
                goal.shown == self.preview_cursor(),
                goal.count == self.screen.items_on_screen,
                goal.count <= cached,
                self.state.start <= cached ==> self.state.start + goal.count <= cached,
            decreases cached - i,
        {
            let ghost here = *self;
            let ghost step = self.entry_at(i as int, self.screen.pos@, self.preview_cursor());
            let ghost all = self.list_from(i as int, self.screen.pos@, self.preview_cursor());
            if !self.draw_entry(i, out) {
                break;
            }
            i = i + 1;
            proof {
                let rest = here.list_from(i as int, step.pos, step.shown);
                assert(all.cells == step.cells + rest.cells);
                assert(self.list_from(i as int, self.screen.pos@, self.preview_cursor()) == rest) by {
                    Self::lemma_list_from_cursors(here, *self, i as int, step.pos, step.shown);
                }
                drawn = drawn + step.cells;
                assert(cells_of(out@) =~= before + drawn);
                assert(goal.cells =~= drawn + rest.cells);
            }
        }
    }

    /// What drawing the entries leaves behind does not depend on where the
    /// cursors of the menu stand or on what it has counted: it depends on
    /// the cursors that are handed in.
    proof fn lemma_list_from_cursors(one: Self, other: Self, from: int, pos: Point, shown: Point)
        requires
            other == one.with_cursors(
                other.screen.pos,
                other.preview_cursor().stored(),
                other.screen.items_on_screen,
            ),
        ensures
            one.list_from(from, pos, shown) == other.list_from(from, pos, shown),
        decreases one.state.items@.len() - from,
    {
        if from < 0 || from >= one.state.items@.len() || pos.y >= one.screen.bounds.1.y {
        } else {
            let first = one.entry_at(from, pos, shown);
            assert(other.entry_at(from, pos, shown) == first);
            Self::lemma_list_from_cursors(one, other, from + 1, first.pos, first.shown);
        }
    }

    /// Whether the panes can be placed on a terminal of the given size.
    pub open spec fn can_place(self, size: Point) -> bool {
        &&& self.screen.offset_fits_on(size)
        &&& self.preview matches Some(preview) ==> preview.fits_on(size)
    }

    /// The menu with its panes placed on a terminal of the given size.
    pub open spec fn placed(self, size: Point) -> Self {
        Menu {
            screen: self.screen.shown(size),
            preview: match self.preview {
                Some(preview) => Some(preview.shown(size)),
                None => None,
            },
            ..self
        }
    }

    /// Places the panes on a terminal of the given size.
    pub fn place(&mut self, size: Pair)
        requires
            old(self).wf(),
            old(self).can_place(size@),
        ensures
            *final(self) == old(self).placed(size@),
    {
        self.screen.refresh(size);
        match &mut self.preview {
            Some(prev) => {
                prev.refresh(size);
            },
            None => {},
        }
    }

    /// Whether a frame can be drawn and the panes then be placed on a
    /// terminal of the given size: the title can reserve its rows, the
    /// offsets that the panes have after that can be applied, both where the
    /// panes lie now and where they will lie, and the index of the last
    /// entry that the frame asks the source for can be stored.
    pub open spec fn can_refresh(self, size: Point) -> bool {
        &&& self.can_reserve()
        &&& self.reserved().can_rewind()
        &&& self.reserved().can_place(size)
        &&& self.frame_end() <= usize::MAX
    }

    /// The menu with other panes: `main` for the list and, where the menu
    /// has a preview, `around` for its box and `text` for its text.
    pub open spec fn with_panes(self, main: Screen, around: Screen, text: Screen) -> Self {
        Menu {
            screen: main,
            preview: match self.preview {
                Some(preview) => Some(Preview { box_screen: around, screen: text, ..preview }),
                None => None,
            },
            ..self
        }
    }

    /// The number of rows that the title gets where `main` is the list pane,
    /// if they can be reserved.
    fn title_rows(&self, main: &Screen) -> (rows: Option<i32>)
        ensures
            match rows {
                Some(rows) => self.with_panes(*main, *main, *main).can_reserve() && rows
                    == self.with_panes(*main, *main, *main).title_height(),
                None => !self.with_panes(*main, *main, *main).can_reserve(),
            },
    {
        match self.title {
            None => Some(0),
            Some(title) => {
                let columns: usize = main.max_x();
                if columns == 0 {
                    return None;
                }
                let rows: u128 = (title.len() / columns) as u128 + 1;
                if rows < 2147483647 {
                    Some(rows as i32)
                } else {
                    None
                }
            },
        }
    }

    /// Whether a frame could be drawn if the menu had the given panes.
    fn frame_fits(&self, main: &Screen, around: &Screen, text: &Screen, size: Pair) -> (ok: bool)
        requires
            main.wf(),
            around.wf(),
            text.wf(),
        ensures
            ok == self.with_panes(*main, *around, *text).can_refresh(size@),
    {
        let ghost menu = self.with_panes(*main, *around, *text);
        assert(menu.can_reserve() == self.with_panes(*main, *main, *main).can_reserve());
        assert(menu.title_height() == self.with_panes(*main, *main, *main).title_height());
        let rows: i32 = match self.title_rows(main) {
            Some(rows) => rows,
            None => {
                return false;
            },
        };
        let titled: bool = self.title.is_some();
        let claim = Some(Bounds(Pair { y: rows, x: 0 }, Pair { y: 0, x: 0 }));
        let main_offset = if titled && main.bounds_offset.is_none() {
            claim
        } else {
            main.bounds_offset
        };
        let bottom: i64 = main.placed.1.y as i64 + match main_offset {
            Some(by) => by.1.y as i64,
            None => 0,
        };
        let rows_down: u128 = if bottom < 0 {
            0
        } else {
            bottom as u128
        };
        let end_fits: bool = self.state.start as u128 + rows_down <= usize::MAX as u128;
        let main_fits: bool = offset_applies(main.placed, main_offset) && offset_applies(
            main.pane_on(size),
            main_offset,
        ) && end_fits;
        assert(main_offset == menu.reserved().screen.bounds_offset);
        assert(main.placed@.shifted(offset_rect(main_offset)).fits() ==> (end_fits <==> menu.frame_end()
            <= usize::MAX));
        match &self.preview {
            None => main_fits,
            Some(preview) => {
                let fresh: bool = titled && around.bounds_offset.is_none();
                let box_offset = if fresh {
                    claim
                } else {
                    around.bounds_offset
                };
                let text_offset = if fresh {
                    match text.bounds_offset {
                        Some(by) => if by.0.y == 1 {
                            Some(Bounds(Pair { y: 1 + rows, x: by.0.x }, by.1))
                        } else {
                            Some(by)
                        },
                        None => None,
                    }
                } else {
                    text.bounds_offset
                };
                assert(box_offset == menu.reserved().preview->0.box_screen.bounds_offset);
                assert(text_offset == menu.reserved().preview->0.screen.bounds_offset);
                let text_fits: bool = offset_applies(text.placed, text_offset) && offset_applies(
                    text.pane_on(size),
                    text_offset,
                );
                let box_fits: bool = (!titled || offset_applies(around.placed, box_offset))
                    && offset_applies(around.pane_on(size), box_offset);
                main_fits && text_fits && box_fits
            },
        }
    }

    /// Whether [`Menu::refresh`] can be called for a terminal of the given
    /// size.
    pub fn refreshable(&self, size: Pair) -> (ok: bool)
        requires
            self.wf(),
        ensures
            ok == self.can_refresh(size@),
    {
        match &self.preview {
            Some(preview) => {
                assert(self.with_panes(self.screen, preview.box_screen, preview.screen) == *self);
                self.frame_fits(&self.screen, &preview.box_screen, &preview.screen, size)
            },
            None => {
                assert(self.with_panes(self.screen, self.screen, self.screen) == *self);
                self.frame_fits(&self.screen, &self.screen, &self.screen, size)
            },
        }
    }

    /// Whether [`Menu::show`] can be called for a terminal of the given
    /// size.
    pub fn showable(&self, size: Pair) -> (ok: bool)
        requires
            self.wf(),
        ensures
            ok == self.can_show(size@),
    {
        if !self.placeable(size) {
            return false;
        }
        let mut main = self.screen;
        main.show(size);
        match &self.preview {
            Some(preview) => {
                let mut around = preview.box_screen;
                around.show(size);
                let mut text = preview.screen;
                text.show(size);
                assert(self.with_panes(main, around, text) == self.placed(size@));
                self.frame_fits(&main, &around, &text, size)
            },
            None => {
                assert(self.with_panes(main, main, main) == self.placed(size@));
                self.frame_fits(&main, &main, &main, size)
            },
        }
    }

    /// Whether the panes can be placed on a terminal of the given size.
    pub fn placeable(&self, size: Pair) -> (ok: bool)
        requires
            self.wf(),
        ensures
            ok == self.can_place(size@),
    {
        let main_fits: bool = self.screen.can_show(size);
        match &self.preview {
            None => main_fits,
            Some(preview) => main_fits && preview.box_screen.can_show(size)
                && preview.screen.can_show(size),
        }
    }

    /// The menu as it stands when the entries of a frame have been drawn
    /// from the source: its panes ready for the frame, with the source and
    /// the entries of `after`.
    pub open spec fn supplied(self, after: Self) -> Self {
        Menu {
            iter: after.iter,
            state: MenuState { items: after.state.items, ..self.state },
            ..self.reserved().rewound()
        }
    }

    /// The last entry that a frame asks the source for: as many entries
    /// behind the start of the window as the bottom edge of the list pane
    /// is rows down.
    pub open spec fn frame_end(self) -> int {
        self.state.start + self.reserved().rewound().screen.rows()
    }

    /// What drawing a frame makes of the menu `before`, and the cells that
    /// the frame fills, in the order in which they are filled.
    ///
    /// The entries are drawn from the source up to [`Menu::frame_end`]. The
    /// cells are those of the title, laid out over the whole terminal of the
    /// given size, of the box around the preview and of the window, and the
    /// menu is left as drawing the box and the window and placing the panes
    /// on that terminal leave it.
    pub open spec fn refreshed(self, before: Self, size: Point, cells: Seq<Cell>) -> bool {
        let ready = before.reserved().rewound();
        let supplied = before.supplied(self);
        &&& supplied.drawn_to(ready, before.frame_end() as usize)
        &&& self == supplied.boxed().listed().placed(size)
        &&& cells == before.title_cells(size) + supplied.box_cells()
            + supplied.boxed().list().cells
        &&& self.screen.items_on_screen == supplied.boxed().list().count
    }

    /// Draws a frame and places the panes on a terminal of the given size
    /// for the next one. The spans of the frame are returned in the order
    /// in which they are to be put on the terminal.
    ///
    /// In order: the title is drawn and reserves its rows; the panes are
    /// rewound; entries are drawn from the source up to
    /// [`Menu::frame_end`], as [`Menu::yield_item`] does it; the box around
    /// the preview is drawn; the window is drawn, with the preview of the
    /// highlighted entry; the panes are placed.
    pub fn refresh(&mut self, size: Pair) -> (out: Vec<Span>)
        requires
            old(self).wf(),
            old(self).can_refresh(size@),
        ensures
            final(self).wf(),
            final(self).refreshed(*old(self), size@, cells_of(out@)),
            final(self).state.start <= final(self).state.items@.len()
                ==> final(self).viewport().window_in_cache(final(self).state.items@.len() as int),
            old(self).iter.obeys_prophetic_iter_laws() ==> {
                let source = old(self).iter.remaining();
                let had = old(self).state.items@.len() as int;
                let count = pulled(had, source.len() as int, old(self).frame_end());
                &&& final(self).iter.obeys_prophetic_iter_laws()
                &&& final(self).state.items@.len() == had + count
                &&& final(self).iter.remaining() == source.skip(count)
                &&& forall|k: int|
                    0 <= k < count ==> old(self).made_of(
                        source[k],
                        #[trigger] final(self).state.items@[had + k],
                    )
            },
    {
        let mut out: Vec<Span> = Vec::new();
        assert(cells_of(out@) =~= Seq::<Cell>::empty());
        self.draw_title(size, &mut out);
        self.rewind();
        let ghost ready = *self;
        let end: usize = self.state.start + self.screen.max_y();
        self.yield_item(end);
        let ghost supplied = *self;
        assert(supplied == old(self).supplied(supplied));
        self.draw_preview_box(&mut out);
        self.draw_items(&mut out);
        self.place(size);
        proof {
            assert(old(self).supplied(*self) == supplied);
            assert(cells_of(out@) =~= old(self).title_cells(size@) + supplied.box_cells()
                + supplied.boxed().list().cells);
        }
        out
    }

    /// Whether the first frame can be drawn on a terminal of the given
    /// size: the panes can be placed there, and then a frame can be drawn.
    pub open spec fn can_show(self, size: Point) -> bool {
        &&& self.can_place(size)
        &&& self.placed(size).can_refresh(size)
    }

    /// Draws the first frame on a terminal of the given size: places the
    /// panes and then does what [`Menu::refresh`] does.
    pub fn show(&mut self, size: Pair) -> (out: Vec<Span>)
        requires
            old(self).wf(),
            old(self).can_show(size@),
        ensures
            final(self).wf(),
            final(self).refreshed(old(self).placed(size@), size@, cells_of(out@)),
            final(self).state.start <= final(self).state.items@.len()
                ==> final(self).viewport().window_in_cache(final(self).state.items@.len() as int),
            old(self).iter.obeys_prophetic_iter_laws() ==> {
                let source = old(self).iter.remaining();
                let had = old(self).state.items@.len() as int;
                let count = pulled(
                    had,
                    source.len() as int,
                    old(self).placed(size@).frame_end(),
                );
                &&& final(self).iter.obeys_prophetic_iter_laws()
                &&& final(self).state.items@.len() == had + count
                &&& final(self).iter.remaining() == source.skip(count)
                &&& forall|k: int|
                    0 <= k < count ==> old(self).made_of(
                        source[k],
                        #[trigger] final(self).state.items@[had + k],
                    )
            },
    {
        self.screen.show(size);
        match &mut self.preview {
            Some(prev) => {
                prev.show(size);
            },
            None => {},
        }
        self.refresh(size)
    }

    /// The menu with its list pane placed on a terminal of the given size,
    /// without the offset.
    pub open spec fn erased(self, size: Point) -> Self {
        Menu { screen: self.screen.erased(size), ..self }
    }

    /// What a key press makes of the menu `before` on a terminal of the given
    /// size: nothing if the key quits; otherwise the list pane is placed
    /// anew and the key is acted on.
    pub open spec fn pressed(self, before: Self, key: i32, size: Point) -> bool {
        if is_quit(key) {
            self == before
        } else {
            self.handled(before.erased(size), key)
        }
    }

    /// Takes a key press. The session is over if the key quits or selects;
    /// otherwise it goes on with the next frame.
    pub fn press(&mut self, key: i32, size: Pair) -> (code: MenuReturnCode)
        requires
            old(self).wf(),
            !is_quit(key) ==> old(self).key_allowed(key),
        ensures
            final(self).wf(),
            final(self).pressed(*old(self), key, size@),
            code == MenuReturnCode::Done <==> is_quit(key) || old(self).action_of(key)
                == KeyAction::Select,
    {
        if quits(key) {
            return MenuReturnCode::Done;
        }
        self.screen.erase(size);
        self.handle_key(key)
    }

    /// The selection holds the chosen entries: each entry of the cache is
    /// chosen exactly if it is in the selection, no entry is selected twice,
    /// and only entries of the cache are selected.
    pub open spec fn selection_matches(self) -> bool {
        &&& self.selection@.no_duplicates()
        &&& forall|i: int|
            0 <= i < self.state.items@.len() ==> (#[trigger] self.state.items@[i].chosen
                <==> self.selection@.contains(i as usize))
        &&& forall|k: int|
            0 <= k < self.selection@.len() ==> (#[trigger] self.selection@[k])
                < self.state.items@.len()
    }

    /// Toggling the highlighted entry keeps the selection in step with the
    /// chosen entries.
    pub proof fn lemma_toggle_keeps_selection(before: Self, after: Self)
        requires
            before.hover_in_cache(),
            before.selection_matches(),
            after.toggled(before),
        ensures
            after.selection_matches(),
    {
        vstd::std_specs::vec::axiom_spec_len(&before.state.items);
        vstd::std_specs::vec::axiom_spec_len(&after.state.items);
        let index = (before.state.start + before.state.hover) as usize;
        let chosen = !before.state.items@[index as int].chosen;
        lemma_toggled_selection(before.selection@, index, chosen);
        assert(after.state.items@[index as int]@.chosen == chosen);
        assert forall|i: int| 0 <= i < after.state.items@.len() implies (
        #[trigger] after.state.items@[i].chosen <==> after.selection@.contains(i as usize)) by {
            if i != index {
                assert(after.state.items@[i] == before.state.items@[i]);
            }
        }
        assert forall|k: int| 0 <= k < after.selection@.len() implies (
        #[trigger] after.selection@[k]) < after.state.items@.len() by {
            let entry = after.selection@[k];
            assert(after.selection@.contains(entry));
            if entry != index {
                assert(before.selection@.contains(entry));
                let j = choose|j: int|
                    0 <= j < before.selection@.len() && before.selection@[j] == entry;
                assert(before.selection@[j] < before.state.items@.len());
            }
        }
    }

    /// Selecting the highlighted entry keeps the selection in step with the
    /// chosen entries: an entry that is selected already is not selected
    /// again, and one that is not becomes chosen as it joins the selection.
    pub proof fn lemma_select_keeps_selection(before: Self, after: Self)
        requires
            before.hover_in_cache(),
            before.selection_matches(),
            after.selected(before),
        ensures
            after.selection_matches(),
            after.selection@.contains((before.state.start + before.state.hover) as usize),
    {
        vstd::std_specs::vec::axiom_spec_len(&before.state.items);
        vstd::std_specs::vec::axiom_spec_len(&after.state.items);
        let index = (before.state.start + before.state.hover) as usize;
        let chosen = before.selection@;
        if !chosen.contains(index) {
            let last = chosen.len() as int;
            assert(after.selection@[last] == index);
            assert(!before.state.items@[index as int].chosen);
            assert(after.state.items@[index as int]@.chosen);
            assert forall|i: int, j: int|
                0 <= i < after.selection@.len() && 0 <= j < after.selection@.len() && i
                    != j implies after.selection@[i] != after.selection@[j] by {
                if i < last {
                    assert(chosen.contains(chosen[i]));
                }
                if j < last {
                    assert(chosen.contains(chosen[j]));
                }
            }
            assert forall|i: int| 0 <= i < after.state.items@.len() implies (
            #[trigger] after.state.items@[i].chosen <==> after.selection@.contains(i as usize)) by {
                if i != index {
                    assert(after.state.items@[i] == before.state.items@[i]);
                    if chosen.contains(i as usize) {
                        let k = choose|k: int| 0 <= k < chosen.len() && chosen[k] == i as usize;
                        assert(after.selection@[k] == i as usize);
                    }
                    if after.selection@.contains(i as usize) {
                        let k = choose|k: int|
                            0 <= k < after.selection@.len() && after.selection@[k] == i as usize;
                        assert(chosen[k] == i as usize);
                    }
                }
            }
            assert forall|k: int| 0 <= k < after.selection@.len() implies (
            #[trigger] after.selection@[k]) < after.state.items@.len() by {
                if k < last {
                    assert(chosen[k] < before.state.items@.len());
                }
            }
        }
    }

    /// Drawing entries from the source keeps the selection in step with
    /// the chosen entries: no new entry is chosen, and none is selected.
    pub proof fn lemma_drawing_keeps_selection(before: Self, after: Self, index: usize)
        requires
            before.selection_matches(),
            after.drawn_to(before, index),
        ensures
            after.selection_matches(),
    {
        vstd::std_specs::vec::axiom_spec_len(&before.state.items);
        vstd::std_specs::vec::axiom_spec_len(&after.state.items);
        let had = before.state.items@.len() as int;
        assert forall|i: int| 0 <= i < after.state.items@.len() implies (
        #[trigger] after.state.items@[i].chosen <==> after.selection@.contains(i as usize)) by {
            if i < had {
                assert(after.state.items@.take(had)[i] == before.state.items@[i]);
            } else {
                assert(before.fresh(after.state.items@[i]));
                if after.selection@.contains(i as usize) {
                    let k = choose|k: int|
                        0 <= k < before.selection@.len() && before.selection@[k] == i as usize;
                    assert(before.selection@[k] < had);
                }
            }
        }
        assert forall|k: int| 0 <= k < after.selection@.len() implies (
        #[trigger] after.selection@[k]) < after.state.items@.len() by {
            assert(before.selection@[k] < had);
        }
    }

    /// Asking for an entry a second time changes nothing and hands out the
    /// entry as it was handed out the first time: no entry is drawn from
    /// the source, so no preview is made again.
    pub proof fn lemma_yield_again(first: Self, second: Self, third: Self, index: usize)
        requires
            second.drawn_to(first, index),
            third.drawn_to(second, index),
            index < second.state.items@.len(),
        ensures
            third == second,
            third.state.items@[index as int] == second.state.items@[index as int],
    {
    }

    /// Whether the highlighted entry has been drawn from the source.
    pub fn has_hover_item(&self) -> (held: bool)
        ensures
            held == self.hover_in_cache(),
    {
        self.state.start as u128 + (self.state.hover as u128) < self.state.items.len() as u128
    }

    /// Ends the session with the highlighted entry: unless it is in the
    /// selection already, its `chosen` flag flips and it goes to the end of
    /// the selection.
    pub fn select_item(&mut self) -> (code: MenuReturnCode)
        requires
            old(self).wf(),
            old(self).hover_in_cache(),
        ensures
            code == MenuReturnCode::Done,
            final(self).wf(),
            final(self).selected(*old(self)),
    {
        assert(self.state.items@.len() == self.state.items.len());
        let curr_item_idx: usize = self.state.start + self.state.hover;
        if position_of(&self.selection, curr_item_idx).is_some() {
            return MenuReturnCode::Done;
        }
        self.state.items[curr_item_idx].select();
        self.selection.push(curr_item_idx);
        MenuReturnCode::Done
    }

    /// Toggles the highlighted entry: its `chosen` flag flips; if it is
    /// chosen now it joins the selection, otherwise it leaves it.
    pub fn multiselect_item(&mut self) -> (code: MenuReturnCode)
        requires
            old(self).wf(),
            old(self).hover_in_cache(),
        ensures
            code == MenuReturnCode::Pass,
            final(self).wf(),
            final(self).toggled(*old(self)),
    {
        assert(self.state.items@.len() == self.state.items.len());
        let curr_item_idx: usize = self.state.start + self.state.hover;
        self.state.items[curr_item_idx].select();
        let now_chosen: bool = self.state.items[curr_item_idx].chosen();
        let item_idx_pos = position_of(&self.selection, curr_item_idx);
        match item_idx_pos {
            None => {
                if now_chosen {
                    self.selection.push(curr_item_idx);
                }
            },
            Some(at) => {
                if !now_chosen {
                    proof {
                        lemma_position(self.selection@, curr_item_idx);
                    }
                    self.selection.remove(at);
                }
            },
        }
        MenuReturnCode::Pass
    }

    /// Moves the window by `amount` entries.
    pub fn scroll(&mut self, amount: i32)
        requires
            0 <= old(self).state.start + amount <= usize::MAX,
        ensures
            final(self).state.start == old(self).state.start + amount,
            *final(self) == (Menu {
                state: MenuState { start: final(self).state.start, ..old(self).state },
                ..*old(self)
            }),
    {
        self.state.start = (self.state.start as i128 + amount as i128) as usize;
    }

    /// Whether the highlight can be moved by `delta` rows: the row that the
    /// move leads to can be stored.
    pub open spec fn can_move(self, delta: int) -> bool {
        self.state.hover + delta <= usize::MAX
    }

    /// Moves the highlight one row down (`amount` 1) or up (`amount` -1),
    /// and scrolls the window where the move calls for it.
    ///
    /// A highlight on a row that was drawn stays on such a row. A move that
    /// is taken puts the highlight on the neighbouring entry whether the
    /// window scrolls or not, and the window moves by one entry at most: down
    /// exactly where the move leads past 67 hundredths of the rows drawn
    /// while entries remain below the window, up exactly where a move
    /// upwards that does not scroll down leads above 33 hundredths of them
    /// and the window does not start at the first entry.
    pub fn move_selection(&mut self, amount: i32) -> (code: MenuReturnCode)
        requires
            amount == 1 || amount == -1,
            old(self).can_move(amount as int),
        ensures
            code == MenuReturnCode::Pass,
            old(self).wf() ==> final(self).wf(),
            final(self).moved(*old(self), amount as int),
            final(self).screen.items_on_screen == old(self).screen.items_on_screen,
            old(self).state.hover < old(self).screen.items_on_screen ==> final(self).state.hover
                < final(self).screen.items_on_screen,
            old(self).viewport().accepts(amount as int)
                ==> final(self).state.start + final(self).state.hover
                    == old(self).state.start + old(self).state.hover + amount,
            !old(self).viewport().accepts(amount as int) ==> *final(self) == *old(self),
            final(self).state.start == old(self).state.start + 1
                <==> old(self).viewport().scrolls_down(
                    amount as int,
                    old(self).state.items@.len() as int,
                ),
            final(self).state.start == old(self).state.start - 1
                <==> old(self).viewport().scrolls_up(
                    amount as int,
                    old(self).state.items@.len() as int,
                ),
            old(self).state.start - 1 <= final(self).state.start <= old(self).state.start + 1,
    {
        let num_items: usize = self.screen.items_on_screen;
        if amount < 0 && self.state.hover == 0 {
            return MenuReturnCode::Pass;
        }
        let new_hover: usize = if amount > 0 {
            self.state.hover + 1
        } else {
            self.state.hover - 1
        };
        if num_items == new_hover {
            return MenuReturnCode::Pass;
        }
        self.state.hover = new_hover;
        let past: bool = 100 * (new_hover as u128) > 67 * (num_items as u128);
        let before: bool = 100 * (new_hover as u128) < 33 * (num_items as u128);
        let more_below: bool = self.state.start as u128 + (num_items as u128)
            < self.state.items.len() as u128;
        if past && more_below {
            self.scroll(1);
            self.state.hover = self.state.hover - 1;
        } else if before && self.state.start > 0 && amount < 0 {
            self.scroll(-1);
            self.state.hover = self.state.hover + 1;
        }
        MenuReturnCode::Pass
    }

    /// What `key` stands for: the first of moving down, moving up, toggling
    /// (only where several entries can be selected) and selecting that the
    /// key is bound to; nothing if it is bound to none.
    pub open spec fn action_of(self, key: i32) -> KeyAction {
        if self.keys.down@.contains(key) {
            KeyAction::Down
        } else if self.keys.up@.contains(key) {
            KeyAction::Up
        } else if self.config.multiselect && self.keys.multiselect@.contains(key) {
            KeyAction::Toggle
        } else if self.keys.select@.contains(key) {
            KeyAction::Select
        } else {
            KeyAction::Nothing
        }
    }

    /// Whether the menu can act on `key`: a move must be possible, and to
    /// toggle or select the highlighted entry it must have been drawn from
    /// the source.
    pub open spec fn key_allowed(self, key: i32) -> bool {
        match self.action_of(key) {
            KeyAction::Down => self.can_move(1),
            KeyAction::Up => self.can_move(-1),
            KeyAction::Toggle => self.hover_in_cache(),
            KeyAction::Select => self.hover_in_cache(),
            KeyAction::Nothing => true,
        }
    }

    /// What `key` stands for.
    pub fn key_action(&self, key: i32) -> (action: KeyAction)
        ensures
            action == self.action_of(key),
    {
        if has_key(&self.keys.down, key) {
            KeyAction::Down
        } else if has_key(&self.keys.up, key) {
            KeyAction::Up
        } else if self.config.multiselect && has_key(&self.keys.multiselect, key) {
            KeyAction::Toggle
        } else if has_key(&self.keys.select, key) {
            KeyAction::Select
        } else {
            KeyAction::Nothing
        }
    }

    /// Whether the highlight can be moved one row down or up.
    pub fn movable(&self, amount: i32) -> (ok: bool)
        requires
            amount == 1 || amount == -1,
        ensures
            ok == self.can_move(amount as int),
    {
        amount < 0 || self.state.hover < usize::MAX
    }

    /// Whether [`Menu::handle_key`] can be called with `key`.
    pub fn allows_key(&self, key: i32) -> (ok: bool)
        ensures
            ok == self.key_allowed(key),
    {
        match self.key_action(key) {
            KeyAction::Down => self.movable(1),
            KeyAction::Up => self.movable(-1),
            KeyAction::Toggle => self.has_hover_item(),
            KeyAction::Select => self.has_hover_item(),
            KeyAction::Nothing => true,
        }
    }

    /// The menu after the highlighted entry of `before` has been selected:
    /// nothing changes if that entry is in the selection already; else its
    /// `chosen` flag is flipped and it stands at the end of the selection.
    pub open spec fn selected(self, before: Self) -> bool {
        let index = (before.state.start + before.state.hover) as usize;
        &&& self.same_but_chosen(before)
        &&& if before.selection@.contains(index) {
            self == before
        } else {
            &&& self.selection@ == before.selection@.push(index)
            &&& self.toggled_at(before, index as int)
        }
    }

    /// The menu after the highlighted entry of `before` has been toggled:
    /// its `chosen` flag is flipped, and it is in the selection exactly if it
    /// is chosen now.
    pub open spec fn toggled(self, before: Self) -> bool {
        let index = (before.state.start + before.state.hover) as usize;
        &&& self.same_but_chosen(before)
        &&& self.toggled_at(before, index as int)
        &&& self.selection@ == toggled_selection(
            before.selection@,
            index,
            !before.state.items@[index as int].chosen,
        )
    }

    /// The menu after the highlight of `before` has been moved by `delta`
    /// rows: only the highlight and the window change, as
    /// [`Viewport::moved`] says.
    pub open spec fn moved(self, before: Self, delta: int) -> bool {
        &&& self.same_but_view(before)
        &&& self.viewport() == before.viewport().moved(delta, before.state.items@.len() as int)
    }

    /// What acting on `key` makes of the menu `before`.
    pub open spec fn handled(self, before: Self, key: i32) -> bool {
        match before.action_of(key) {
            KeyAction::Down => self.moved(before, 1),
            KeyAction::Up => self.moved(before, -1),
            KeyAction::Toggle => self.toggled(before),
            KeyAction::Select => self.selected(before),
            KeyAction::Nothing => self == before,
        }
    }

    /// Acts on a key: moves the highlight, toggles or selects the
    /// highlighted entry, or does nothing, by what the key stands for.
    pub fn handle_key(&mut self, val: i32) -> (code: MenuReturnCode)
        requires
            old(self).wf(),
            old(self).key_allowed(val),
        ensures
            final(self).wf(),
            code == MenuReturnCode::Done <==> old(self).action_of(val) == KeyAction::Select,
            final(self).handled(*old(self), val),
    {
        if has_key(&self.keys.down, val) {
            self.move_selection(1)
        } else if has_key(&self.keys.up, val) {
            self.move_selection(-1)
        } else if self.config.multiselect && has_key(&self.keys.multiselect, val) {
            self.multiselect_item()
        } else if has_key(&self.keys.select, val) {
            self.select_item()
        } else {
            MenuReturnCode::Pass
        }
    }
}

} // verus!
