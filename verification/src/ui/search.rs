use crate::order::{lemma_lex_total, lemma_lex_transitive, lex_less};
use crate::scheme::HeroScheme;
use crate::search::{
    candidates, deref_all, lemma_sort_rows_sorted, result_views, row_before,
    rows_sorted, sort_rows, sorted_rows, RowView,
};
use crate::text::{
    chars_of, is_ascii_graphic, lowercase_of, same_text, to_lowercase, with_char, without_last_char,
};
use vstd::prelude::*;

verus! {

/// A hero of the two-column list, with its skins.
#[derive(Debug, Clone)]
pub struct HeroItem {
    pub name: String,
    pub skins: Vec<SkinItem>,
}

/// A skin of a hero in the two-column list.
#[derive(Debug, Clone)]
pub struct SkinItem {
    pub display_name: String,
    pub skin_name: String,
}

/// The rows that a hero item stands for, one per skin.
pub open spec fn item_rows(h: HeroItem) -> Seq<RowView> {
    h.skins@.map_values(|s: SkinItem| (h.name@, s.skin_name@, s.display_name@))
}

/// The rows of a list of hero items, item after item.
pub open spec fn flat_items(items: Seq<HeroItem>) -> Seq<RowView>
    decreases items.len(),
{
    if items.len() == 0 {
        Seq::empty()
    } else {
        flat_items(items.drop_last()) + item_rows(items.last())
    }
}

/// The hero items are well grouped: hero names strictly increase and every
/// hero has a skin.
pub open spec fn items_grouped(items: Seq<HeroItem>) -> bool {
    &&& forall|i: int| 0 <= i < items.len() ==> (#[trigger] items[i]).skins@.len() > 0
    &&& forall|i: int, j: int|
        0 <= i < j < items.len() ==> lex_less(#[trigger] items[i].name@, #[trigger] items[j].name@)
}

/// The two-column list: the schemes matching the query (lower-cased; in the
/// hero name, the pinyin initials of the hero name, or the skin name)
/// grouped by hero, heroes by name, each hero's
/// skins with the default skin first, then by skin name.
pub fn group_heroes(schemes: &[&HeroScheme], input: &str) -> (res: Vec<HeroItem>)
    ensures
        flat_items(res@) == sort_rows(candidates(deref_all(schemes@), lowercase_of(input@), false)),
        items_grouped(res@),
{
    let lower = to_lowercase(input);
    let q = chars_of(lower.as_str());
    let rows = sorted_rows(schemes, &q, false);
    let ghost v = result_views(rows@);
    proof {
        lemma_sort_rows_sorted(candidates(deref_all(schemes@), q@, false));
    }
    let mut items: Vec<HeroItem> = Vec::new();
    let mut cur_name = String::new();
    let mut cur_skins: Vec<SkinItem> = Vec::new();
    let n = rows.len();
    let mut k: usize = 0;
    assert(v.take(0) == Seq::<RowView>::empty());
    while k < n
        invariant
            n == rows@.len(),
            k <= n,
            v == result_views(rows@),
            rows_sorted(v),
            k == 0 ==> items@.len() == 0 && cur_skins@.len() == 0,
            k > 0 ==> cur_skins@.len() > 0 && cur_name@ == v[k - 1].0,
            flat_items(items@) + item_rows(HeroItem { name: cur_name, skins: cur_skins })
                == v.take(k as int),
            items_grouped(items@),
            forall|i: int| 0 <= i < items@.len() ==> lex_less(#[trigger] items@[i].name@, cur_name@),
        decreases n - k,
    {
        let r = &rows[k];
        let skin = SkinItem { display_name: r.display_name.clone(), skin_name: r.skin_name.clone() };
        let ghost row = v[k as int];
        assert(v.take(k + 1) == v.take(k as int).push(row));
        let ghost old_items = items@;
        let ghost old_pending = HeroItem { name: cur_name, skins: cur_skins };
        if k > 0 && same_text(r.hero_name.as_str(), cur_name.as_str()) {
            cur_skins.push(skin);
            proof {
                let p = HeroItem { name: cur_name, skins: cur_skins };
                assert(item_rows(p) == item_rows(old_pending).push(row));
            }
        } else {
            proof {
                if k > 0 {
                    assert(!row_before(v[k as int], v[k - 1]));
                    lemma_lex_total(v[k - 1].0, row.0);
                }
            }
            let name = r.hero_name.clone();
            let mut fresh: Vec<SkinItem> = Vec::new();
            fresh.push(skin);
            if k > 0 {
                let done = HeroItem { name: cur_name, skins: cur_skins };
                items.push(done);
                proof {
                    assert(items@.drop_last() == old_items);
                    assert forall|i: int| 0 <= i < items@.len() implies lex_less(
                        #[trigger] items@[i].name@,
                        name@,
                    ) by {
                        if i < old_items.len() {
                            lemma_lex_transitive(items@[i].name@, old_pending.name@, name@);
                        }
                    }
                }
            }
            cur_name = name;
            cur_skins = fresh;
            proof {
                let p = HeroItem { name: cur_name, skins: cur_skins };
                assert(item_rows(p) == seq![row]);
                if k > 0 {
                    assert(flat_items(items@) == flat_items(old_items) + item_rows(old_pending));
                } else {
                    assert(item_rows(old_pending) == Seq::<RowView>::empty());
                }
            }
        }
        k = k + 1;
    }
    assert(v.take(n as int) == v);
    if n > 0 {
        let ghost old_items = items@;
        let ghost pending = HeroItem { name: cur_name, skins: cur_skins };
        items.push(HeroItem { name: cur_name, skins: cur_skins });
        assert(items@.drop_last() == old_items);
        assert(flat_items(items@) == flat_items(old_items) + item_rows(pending));
    } else {
        assert(item_rows(HeroItem { name: cur_name, skins: cur_skins }) == Seq::<RowView>::empty());
    }
    items
}

/// Which column the cursor is in.
#[derive(Debug, Clone, Copy, PartialEq, Eq, Structural)]
pub enum PanelFocus {
    Hero,
    Skin,
}

/// A navigation key of the popup.
#[derive(Debug, Clone, Copy, PartialEq, Eq, Structural)]
pub enum NavKey {
    Up,
    Down,
    Left,
    Right,
    Enter,
    Escape,
    Other,
}

/// What the popup asks of its window after a key.
#[derive(Debug, Clone)]
pub enum PopupAction {
    /// Nothing to do.
    Nothing,
    /// Paint again.
    Redraw,
    /// Hide the popup.
    Hide,
    /// The user chose the scheme with this display name.
    Confirm(String),
}

/// The state of the two-column popup: the query, the list and the cursor.
pub struct SearchPopup {
    pub input: String,
    pub heroes: Vec<HeroItem>,
    pub hero_sel: usize,
    pub skin_sel: usize,
    pub focus: PanelFocus,
}

/// `a` is the action `Confirm` with display name `name`.
pub open spec fn confirms(a: PopupAction, name: Seq<char>) -> bool {
    a matches PopupAction::Confirm(n) && n@ == name
}

/// The list was rebuilt for the current query and the cursor reset.
pub open spec fn refreshed(st: SearchPopup, schemes: Seq<&HeroScheme>) -> bool {
    &&& flat_items(st.heroes@) == sort_rows(
        candidates(deref_all(schemes), lowercase_of(st.input@), false),
    )
    &&& items_grouped(st.heroes@)
    &&& st.hero_sel == 0
    &&& st.skin_sel == 0
    &&& st.focus == PanelFocus::Hero
}

/// The cursor and list are as before.
pub open spec fn same_view(a: SearchPopup, b: SearchPopup) -> bool {
    &&& a.input@ == b.input@
    &&& a.heroes == b.heroes
    &&& a.hero_sel == b.hero_sel
    &&& a.skin_sel == b.skin_sel
    &&& a.focus == b.focus
}

/// What Enter does: on the hero column a hero with one skin is chosen and
/// a hero with more moves the cursor to its skins; on the skin column the
/// skin under the cursor is chosen.
pub open spec fn enter_spec(old: SearchPopup, new: SearchPopup, action: PopupAction) -> bool {
    let hs = old.heroes@;
    if old.focus == PanelFocus::Hero {
        if old.hero_sel < hs.len() {
            if hs[old.hero_sel as int].skins@.len() == 1 {
                confirms(action, hs[old.hero_sel as int].skins@[0].display_name@) && same_view(
                    old,
                    new,
                )
            } else {
                &&& action is Redraw
                &&& new.focus == PanelFocus::Skin
                &&& new.skin_sel == 0
                &&& new.hero_sel == old.hero_sel
                &&& new.heroes == old.heroes
                &&& new.input@ == old.input@
            }
        } else {
            action is Nothing && same_view(old, new)
        }
    } else {
        if old.hero_sel < hs.len() && old.skin_sel < hs[old.hero_sel as int].skins@.len() {
            confirms(action, hs[old.hero_sel as int].skins@[old.skin_sel as int].display_name@)
                && same_view(old, new)
        } else {
            action is Nothing && same_view(old, new)
        }
    }
}

/// What a typed character does: Escape hides, Enter acts as Enter,
/// Backspace drops the last character of the query, a printable ASCII
/// character or a space is added to it; after an edit the list is rebuilt
/// and the cursor reset.  Other characters do nothing.
pub open spec fn char_spec(
    old: SearchPopup,
    new: SearchPopup,
    c: char,
    schemes: Seq<&HeroScheme>,
    action: PopupAction,
) -> bool {
    &&& c == '\u{1b}' ==> action is Hide && same_view(old, new)
    &&& c == '\r' ==> enter_spec(old, new, action)
    &&& c == '\u{8}' ==> action is Redraw && new.input@ == (if old.input@.len() == 0 {
        old.input@
    } else {
        old.input@.drop_last()
    }) && refreshed(new, schemes)
    &&& (is_ascii_graphic(c) || c == ' ') ==> action is Redraw && new.input@ == old.input@.push(c)
        && refreshed(new, schemes)
    &&& !(c == '\u{1b}' || c == '\r' || c == '\u{8}' || is_ascii_graphic(c) || c == ' ')
        ==> action is Nothing && same_view(old, new)
}

/// Typing a character into the query and erasing it gives back the query,
/// with the list rebuilt for it and the cursor on its first hero.
pub proof fn lemma_type_then_erase(
    o: SearchPopup,
    m: SearchPopup,
    n: SearchPopup,
    c: char,
    schemes: Seq<&HeroScheme>,
    typed: PopupAction,
    erased: PopupAction,
)
    requires
        is_ascii_graphic(c) || c == ' ',
        char_spec(o, m, c, schemes, typed),
        char_spec(m, n, '\u{8}', schemes, erased),
    ensures
        n.input@ == o.input@,
        refreshed(n, schemes),
        typed is Redraw && erased is Redraw,
{
    assert(m.input@.len() > 0);
    assert(m.input@.drop_last() =~= o.input@);
}

impl SearchPopup {
    /// An empty popup: no query, no list, the cursor on the hero column.
    pub fn new() -> (res: Self)
        ensures
            res.input@.len() == 0,
            res.heroes@.len() == 0,
            res.hero_sel == 0,
            res.skin_sel == 0,
            res.focus == PanelFocus::Hero,
    {
        SearchPopup {
            input: String::new(),
            heroes: Vec::new(),
            hero_sel: 0,
            skin_sel: 0,
            focus: PanelFocus::Hero,
        }
    }

    fn refresh(&mut self, schemes: &[&HeroScheme])
        ensures
            refreshed(*final(self), schemes@),
            final(self).input@ == old(self).input@,
    {
        self.heroes = group_heroes(schemes, self.input.as_str());
        self.hero_sel = 0;
        self.skin_sel = 0;
        self.focus = PanelFocus::Hero;
    }

    /// Opens the popup afresh: the query is emptied and the full list shown.
    pub fn show(&mut self, schemes: &[&HeroScheme])
        ensures
            final(self).input@.len() == 0,
            refreshed(*final(self), schemes@),
    {
        self.input = String::new();
        self.refresh(schemes);
    }

    /// Handles Enter.
    pub fn enter(&mut self) -> (action: PopupAction)
        ensures
            enter_spec(*old(self), *final(self), action),
    {
        match self.focus {
            PanelFocus::Hero => {
                if self.hero_sel < self.heroes.len() {
                    let hero = &self.heroes[self.hero_sel];
                    if hero.skins.len() == 1 {
                        PopupAction::Confirm(hero.skins[0].display_name.clone())
                    } else {
                        self.focus = PanelFocus::Skin;
                        self.skin_sel = 0;
                        PopupAction::Redraw
                    }
                } else {
                    PopupAction::Nothing
                }
            },
            PanelFocus::Skin => {
                if self.hero_sel < self.heroes.len() {
                    let hero = &self.heroes[self.hero_sel];
                    if self.skin_sel < hero.skins.len() {
                        return PopupAction::Confirm(hero.skins[self.skin_sel].display_name.clone());
                    }
                }
                PopupAction::Nothing
            },
        }
    }

    /// Handles a navigation key.  On the hero column Up and Down move
    /// between heroes (back to the first skin), Right moves to the skins,
    /// Escape hides; on the skin column Up and Down move between the
    /// hero's skins, Left and Escape move back to the heroes.
    pub fn on_key(&mut self, key: NavKey) -> (action: PopupAction)
        ensures
            final(self).input@ == old(self).input@,
            final(self).heroes == old(self).heroes,
            old(self).hero_sel < old(self).heroes@.len() ==> final(self).hero_sel < final(self).heroes@.len(),
            key == NavKey::Enter ==> enter_spec(*old(self), *final(self), action),
            key != NavKey::Enter ==> match (old(self).focus, key) {
                (PanelFocus::Hero, NavKey::Up) => {
                    &&& action is Redraw
                    &&& final(self).focus == PanelFocus::Hero
                    &&& if old(self).hero_sel > 0 {
                        final(self).hero_sel == old(self).hero_sel - 1 && final(self).skin_sel == 0
                    } else {
                        final(self).hero_sel == old(self).hero_sel && final(self).skin_sel == old(
                            self,
                        ).skin_sel
                    }
                },
                (PanelFocus::Hero, NavKey::Down) => {
                    &&& action is Redraw
                    &&& final(self).focus == PanelFocus::Hero
                    &&& if old(self).hero_sel + 1 < old(self).heroes@.len() {
                        final(self).hero_sel == old(self).hero_sel + 1 && final(self).skin_sel == 0
                    } else {
                        final(self).hero_sel == old(self).hero_sel && final(self).skin_sel == old(
                            self,
                        ).skin_sel
                    }
                },
                (PanelFocus::Hero, NavKey::Right) => {
                    &&& action is Redraw
                    &&& final(self).focus == PanelFocus::Skin
                    &&& final(self).hero_sel == old(self).hero_sel
                    &&& final(self).skin_sel == old(self).skin_sel
                },
                (PanelFocus::Hero, NavKey::Escape) => action is Hide && same_view(
                    *old(self),
                    *final(self),
                ),
                (PanelFocus::Skin, NavKey::Up) => {
                    &&& action is Redraw
                    &&& final(self).focus == PanelFocus::Skin
                    &&& final(self).hero_sel == old(self).hero_sel
                    &&& final(self).skin_sel == if old(self).skin_sel > 0 {
                        (old(self).skin_sel - 1) as usize
                    } else {
                        old(self).skin_sel
                    }
                },
                (PanelFocus::Skin, NavKey::Down) => {
                    let count = if old(self).hero_sel < old(self).heroes@.len() {
                        old(self).heroes@[old(self).hero_sel as int].skins@.len() as int
                    } else {
                        0
                    };
                    &&& action is Redraw
                    &&& final(self).focus == PanelFocus::Skin
                    &&& final(self).hero_sel == old(self).hero_sel
                    &&& final(self).skin_sel == if old(self).skin_sel + 1 < count {
                        (old(self).skin_sel + 1) as usize
                    } else {
                        old(self).skin_sel
                    }
                },
                (PanelFocus::Skin, NavKey::Left) | (PanelFocus::Skin, NavKey::Escape) => {
                    &&& action is Redraw
                    &&& final(self).focus == PanelFocus::Hero
                    &&& final(self).hero_sel == old(self).hero_sel
                    &&& final(self).skin_sel == old(self).skin_sel
                },
                _ => action is Nothing && same_view(*old(self), *final(self)),
            },
    {
        match (self.focus, key) {
            (_, NavKey::Enter) => self.enter(),
            (PanelFocus::Hero, NavKey::Up) => {
                if self.hero_sel > 0 {
                    self.hero_sel = self.hero_sel - 1;
                    self.skin_sel = 0;
                }
                PopupAction::Redraw
            },
            (PanelFocus::Hero, NavKey::Down) => {
                if self.hero_sel < self.heroes.len() && self.hero_sel + 1 < self.heroes.len() {
                    self.hero_sel = self.hero_sel + 1;
                    self.skin_sel = 0;
                }
                PopupAction::Redraw
            },
            (PanelFocus::Hero, NavKey::Right) => {
                self.focus = PanelFocus::Skin;
                PopupAction::Redraw
            },
            (PanelFocus::Hero, NavKey::Escape) => PopupAction::Hide,
            (PanelFocus::Skin, NavKey::Up) => {
                if self.skin_sel > 0 {
                    self.skin_sel = self.skin_sel - 1;
                }
                PopupAction::Redraw
            },
            (PanelFocus::Skin, NavKey::Down) => {
                let count = if self.hero_sel < self.heroes.len() {
                    self.heroes[self.hero_sel].skins.len()
                } else {
                    0
                };
                if self.skin_sel < count && self.skin_sel + 1 < count {
                    self.skin_sel = self.skin_sel + 1;
                }
                PopupAction::Redraw
            },
            (PanelFocus::Skin, NavKey::Left) | (PanelFocus::Skin, NavKey::Escape) => {
                self.focus = PanelFocus::Hero;
                PopupAction::Redraw
            },
            _ => PopupAction::Nothing,
        }
    }

    /// Handles a typed character, as `char_spec` says.
    pub fn on_char(&mut self, c: char, schemes: &[&HeroScheme]) -> (action: PopupAction)
        ensures
            char_spec(*old(self), *final(self), c, schemes@, action),
    {
        if c == '\u{1b}' {
            return PopupAction::Hide;
        }
        if c == '\r' {
            return self.enter();
        }
        if c == '\u{8}' {
            self.input = without_last_char(&self.input);
        } else if ('!' <= c && c <= '~') || c == ' ' {
            self.input = with_char(&self.input, c);
        } else {
            return PopupAction::Nothing;
        }
        self.refresh(schemes);
        PopupAction::Redraw
    }
}

/// A line to paint in one of the two columns: its column, its line number
/// under the titles, its text (none on the extra lines of the hero under
/// the cursor), whether the cursor is on it, and whether it gets the
/// darker background of alternate lines.
pub struct PaintRow {
    pub column: PanelFocus,
    pub line: usize,
    pub text: Option<String>,
    pub active: bool,
    pub striped: bool,
}

/// A painted line as plain values.
pub open spec fn paint_view(p: PaintRow) -> (PanelFocus, int, Option<Seq<char>>, bool, bool) {
    (
        p.column,
        p.line as int,
        match p.text {
            Some(t) => Some(t@),
            None => None,
        },
        p.active,
        p.striped,
    )
}

/// The painted lines as plain values.
pub open spec fn paint_views(rows: Seq<PaintRow>) -> Seq<(PanelFocus, int, Option<Seq<char>>, bool, bool)> {
    rows.map_values(|p: PaintRow| paint_view(p))
}

/// Lines that hero `i` takes in its column: the hero under the cursor takes
/// one line per skin, any other hero one line.
pub open spec fn hero_lines(st: SearchPopup, i: int) -> int {
    if i == st.hero_sel && st.heroes@[i].skins@.len() > 1 {
        st.heroes@[i].skins@.len() as int
    } else {
        1
    }
}

/// First line of hero `i`: heroes after the one under the cursor are
/// pushed down by its extra lines.
pub open spec fn hero_first_line(st: SearchPopup, i: int) -> int {
    if i <= st.hero_sel {
        i
    } else {
        i + hero_lines(st, st.hero_sel as int) - 1
    }
}

/// The lines of hero `i`: its name on the first, the cursor there when the
/// hero column has the focus, and every other line (counted from hero and
/// line number together) on the darker background unless under the cursor.
pub open spec fn hero_block(st: SearchPopup, i: int) -> Seq<(PanelFocus, int, Option<Seq<char>>, bool, bool)> {
    Seq::new(
        hero_lines(st, i) as nat,
        |r: int|
            {
                let active = st.focus == PanelFocus::Hero && i == st.hero_sel && r == 0;
                (
                    PanelFocus::Hero,
                    hero_first_line(st, i) + r,
                    if r == 0 {
                        Some(st.heroes@[i].name@)
                    } else {
                        None
                    },
                    active,
                    !active && (i + r) % 2 == 0,
                )
            },
    )
}

/// The hero column down to hero `n`.
pub open spec fn hero_column(st: SearchPopup, n: int) -> Seq<(PanelFocus, int, Option<Seq<char>>, bool, bool)>
    decreases n,
{
    if n <= 0 {
        Seq::empty()
    } else {
        hero_column(st, n - 1) + hero_block(st, n - 1)
    }
}

/// The skin column: the skins of the hero under the cursor, from that
/// hero's line down, the cursor on the chosen skin when the skin column has
/// the focus, every other skin on the darker background.
pub open spec fn skin_column(st: SearchPopup) -> Seq<(PanelFocus, int, Option<Seq<char>>, bool, bool)> {
    if st.hero_sel < st.heroes@.len() {
        let skins = st.heroes@[st.hero_sel as int].skins@;
        Seq::new(
            skins.len(),
            |j: int|
                {
                    let active = st.focus == PanelFocus::Skin && j == st.skin_sel;
                    (
                        PanelFocus::Skin,
                        st.hero_sel + j,
                        Some(skins[j].skin_name@),
                        active,
                        !active && j % 2 == 0,
                    )
                },
        )
    } else {
        Seq::empty()
    }
}

/// What the popup paints below its titles: the hero column, then the skin
/// column.
pub open spec fn paint_spec(st: SearchPopup) -> Seq<(PanelFocus, int, Option<Seq<char>>, bool, bool)> {
    hero_column(st, st.heroes@.len() as int) + skin_column(st)
}

impl SearchPopup {
    /// The text of the input box and whether it is the grey hint shown in
    /// place of an empty query.
    pub fn input_line(&self) -> (res: (String, bool))
        ensures
            res.1 == (self.input@.len() == 0),
            res.1 ==> res.0@ == "输入拼音首字母搜索..."@,
            !res.1 ==> res.0@ == self.input@,
    {
        if self.input.as_str().is_empty() {
            ("输入拼音首字母搜索...".to_owned(), true)
        } else {
            (self.input.clone(), false)
        }
    }

    /// The lines of both columns, in painting order.
    pub fn paint_rows(&self) -> (rows: Vec<PaintRow>)
        requires
            self.hero_sel < self.heroes@.len() ==> self.heroes@.len()
                + self.heroes@[self.hero_sel as int].skins@.len() <= usize::MAX,
        ensures
            paint_views(rows@) == paint_spec(*self),
    {
        let ghost st = *self;
        let n = self.heroes.len();
        let sel = self.hero_sel;
        let extra: usize = if sel < n && self.heroes[sel].skins.len() > 1 {
            self.heroes[sel].skins.len() - 1
        } else {
            0
        };
        let mut rows: Vec<PaintRow> = Vec::new();
        let mut i: usize = 0;
        while i < n
            invariant
                st == *self,
                n == self.heroes@.len(),
                sel == self.hero_sel,
                i <= n,
                extra == hero_lines(st, sel as int) - 1 || sel >= n,
                sel < n ==> n + self.heroes@[sel as int].skins@.len() <= usize::MAX,
                paint_views(rows@) == hero_column(st, i as int),
            decreases n - i,
        {
            let skins_here = self.heroes[i].skins.len();
            let lines: usize = if i == sel && skins_here > 1 {
                skins_here
            } else {
                1
            };
            let first: usize = if i <= sel {
                i
            } else {
                i + extra
            };
            let ghost before = paint_views(rows@);
            let mut r: usize = 0;
            while r < lines
                invariant
                    st == *self,
                    n == self.heroes@.len(),
                    sel == self.hero_sel,
                    i < n,
                    lines == hero_lines(st, i as int),
                    first == hero_first_line(st, i as int),
                    sel < n ==> n + self.heroes@[sel as int].skins@.len() <= usize::MAX,
                    lines > 1 ==> i == sel,
                    r <= lines,
                    before == hero_column(st, i as int),
                    paint_views(rows@) == before + hero_block(st, i as int).take(r as int),
                decreases lines - r,
            {
                let active = self.focus == PanelFocus::Hero && i == sel && r == 0;
                let text = if r == 0 {
                    Some(self.heroes[i].name.clone())
                } else {
                    None
                };
                let row = PaintRow {
                    column: PanelFocus::Hero,
                    line: first + r,
                    text,
                    active,
                    striped: !active && (i + r) % 2 == 0,
                };
                let ghost old_rows = rows@;
                rows.push(row);
                proof {
                    assert(paint_views(rows@) == paint_views(old_rows).push(paint_view(row)));
                    assert(hero_block(st, i as int).take(r + 1) == hero_block(st, i as int).take(
                        r as int,
                    ).push(hero_block(st, i as int)[r as int]));
                }
                r = r + 1;
            }
            assert(hero_block(st, i as int).take(lines as int) == hero_block(st, i as int));
            i = i + 1;
        }
        if sel < n {
            let skins = &self.heroes[sel].skins;
            let ghost before = paint_views(rows@);
            let mut j: usize = 0;
            while j < skins.len()
                invariant
                    st == *self,
                    sel == self.hero_sel,
                    sel < n,
                    n == self.heroes@.len(),
                    skins@ == self.heroes@[sel as int].skins@,
                    n + skins@.len() <= usize::MAX,
                    j <= skins@.len(),
                    before == hero_column(st, n as int),
                    paint_views(rows@) == before + skin_column(st).take(j as int),
                decreases skins@.len() - j,
            {
                let active = self.focus == PanelFocus::Skin && j == self.skin_sel;
                let row = PaintRow {
                    column: PanelFocus::Skin,
                    line: sel + j,
                    text: Some(skins[j].skin_name.clone()),
                    active,
                    striped: !active && j % 2 == 0,
                };
                let ghost old_rows = rows@;
                rows.push(row);
                proof {
                    assert(paint_views(rows@) == paint_views(old_rows).push(paint_view(row)));
                    assert(skin_column(st).take(j + 1) == skin_column(st).take(j as int).push(
                        skin_column(st)[j as int],
                    ));
                }
                j = j + 1;
            }
            assert(skin_column(st).take(skins@.len() as int) == skin_column(st));
        } else {
            assert(skin_column(st) == Seq::<(PanelFocus, int, Option<Seq<char>>, bool, bool)>::empty());
        }
        rows
    }
}

} // verus!
