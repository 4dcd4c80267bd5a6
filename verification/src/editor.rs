use crate::scheme::{
    display_name_for, display_name_spec, file_name_spec, scheme_file_name, HeroScheme, PanelGroup,
    TriggerQuotes,
};
use crate::text::{chars_of, contains_chars, contains_seq, lowercase_of, push_char, to_lowercase};
use std::path::PathBuf;
use vstd::prelude::*;

verus! {

/// `PathBuf` from std, carried through opaque.
#[verifier::external_type_specification]
#[verifier::external_body]
pub struct ExPathBuf(PathBuf);

/// The state of the hero scheme editor.
pub struct HeroEditor {
    /// Every scheme being edited.
    pub schemes: Vec<HeroScheme>,
    /// The position of the scheme shown.
    pub selected: usize,
    /// The folder the schemes are saved in.
    pub dir: PathBuf,
    /// Whether there are edits not yet saved.
    pub dirty: bool,
    /// The text of the search box.
    pub search: String,
}

/// The name given to a new scheme: "新英雄".
pub open spec fn new_hero_name() -> Seq<char> {
    seq!['新', '英', '雄']
}

/// The name of the first panel of a new scheme: "集合".
pub open spec fn first_panel_name() -> Seq<char> {
    seq!['集', '合']
}

/// The list shows the scheme for the search text: the search is empty, or
/// it occurs, lower-cased, in the lower-cased hero or display name.
pub open spec fn listed(s: HeroScheme, search: Seq<char>) -> bool {
    let q = lowercase_of(search);
    q.len() == 0 || contains_seq(lowercase_of(s.hero_name@), q) || contains_seq(
        lowercase_of(s.display_name@),
        q,
    )
}

/// The optional skin name as characters.
pub open spec fn skin_view(o: Option<String>) -> Option<Seq<char>> {
    match o {
        Option::Some(s) => Option::Some(s@),
        Option::None => Option::None,
    }
}

impl HeroEditor {
    /// An editor over the schemes, showing the first, with nothing to save.
    pub fn new(schemes: Vec<HeroScheme>, dir: PathBuf) -> (res: Self)
        ensures
            res.schemes == schemes,
            res.dir == dir,
            res.selected == 0,
            !res.dirty,
            res.search@.len() == 0,
    {
        HeroEditor { schemes, selected: 0, dir, dirty: false, search: String::new() }
    }

    /// The positions of the schemes that the list shows for the search
    /// text, in order.
    pub fn visible_indices(&self) -> (res: Vec<usize>)
        ensures
            forall|k: int| 0 <= k < res@.len() ==> #[trigger] res@[k] < self.schemes@.len(),
            forall|k: int, l: int| 0 <= k < l < res@.len() ==> #[trigger] res@[k] < #[trigger] res@[l],
            forall|i: int|
                0 <= i < self.schemes@.len() ==> (listed(#[trigger] self.schemes@[i], self.search@)
                    <==> res@.contains(i as usize)),
    {
        let lower = to_lowercase(self.search.as_str());
        let q = chars_of(lower.as_str());
        let mut out: Vec<usize> = Vec::new();
        let mut i: usize = 0;
        while i < self.schemes.len()
            invariant
                i <= self.schemes@.len(),
                q@ == lowercase_of(self.search@),
                forall|k: int| 0 <= k < out@.len() ==> #[trigger] out@[k] < i,
                forall|k: int, l: int| 0 <= k < l < out@.len() ==> #[trigger] out@[k] < #[trigger] out@[l],
                forall|j: int|
                    0 <= j < i ==> (listed(#[trigger] self.schemes@[j], self.search@)
                        <==> out@.contains(j as usize)),
            decreases self.schemes@.len() - i,
        {
            let s = &self.schemes[i];
            let shown = if q.len() == 0 {
                true
            } else {
                let hero = to_lowercase(s.hero_name.as_str());
                let hc = chars_of(hero.as_str());
                if contains_chars(&hc, &q) {
                    true
                } else {
                    let display = to_lowercase(s.display_name.as_str());
                    let dc = chars_of(display.as_str());
                    contains_chars(&dc, &q)
                }
            };
            let ghost before = out@;
            if shown {
                out.push(i);
            }
            proof {
                assert forall|j: int|
                    0 <= j < i + 1 implies (listed(#[trigger] self.schemes@[j], self.search@)
                    <==> out@.contains(j as usize)) by {
                    if j < i {
                        if before.contains(j as usize) {
                            let k = choose|k: int| 0 <= k < before.len() && before[k] == j as usize;
                            assert(out@[k] == j as usize);
                        }
                        if out@.contains(j as usize) {
                            let k = choose|k: int| 0 <= k < out@.len() && out@[k] == j as usize;
                            if k < before.len() {
                                assert(before[k] == j as usize);
                            }
                        }
                    } else {
                        if shown {
                            assert(out@[before.len() as int] == i);
                        } else {
                            assert(out@ == before);
                        }
                    }
                }
            }
            i = i + 1;
        }
        out
    }

    /// Adds a new, empty scheme named "新英雄" with one empty panel "集合",
    /// shows it, and marks the edits unsaved.
    pub fn add_new_scheme(&mut self)
        requires
            old(self).schemes@.len() < usize::MAX,
        ensures
            final(self).schemes@.len() == old(self).schemes@.len() + 1,
            final(self).schemes@.drop_last() == old(self).schemes@,
            final(self).schemes@.last().hero_name@ == new_hero_name(),
            final(self).schemes@.last().skin_name is None,
            final(self).schemes@.last().display_name@ == new_hero_name(),
            final(self).schemes@.last().triggers.game_start@.len() == 0,
            final(self).schemes@.last().triggers.kill@.len() == 0,
            final(self).schemes@.last().triggers.death@.len() == 0,
            final(self).schemes@.last().triggers.assist@.len() == 0,
            final(self).schemes@.last().triggers.taunt.boxes@.len() == 0,
            final(self).schemes@.last().panels@.len() == 1,
            final(self).schemes@.last().panels@[0].name@ == first_panel_name(),
            final(self).schemes@.last().panels@[0].lines@.len() == 0,
            final(self).selected == old(self).schemes@.len(),
            final(self).dirty,
            final(self).dir == old(self).dir,
            final(self).search == old(self).search,
    {
        let mut hero = String::new();
        push_char(&mut hero, '新');
        push_char(&mut hero, '英');
        push_char(&mut hero, '雄');
        let display = hero.clone();
        let mut panel = String::new();
        push_char(&mut panel, '集');
        push_char(&mut panel, '合');
        let scheme = HeroScheme {
            hero_name: hero,
            skin_name: None,
            display_name: display,
            triggers: TriggerQuotes::default(),
            panels: vec![PanelGroup { name: panel, lines: Vec::new() }],
        };
        self.schemes.push(scheme);
        self.selected = self.schemes.len() - 1;
        self.dirty = true;
    }

    /// Sets the shown scheme's skin from the text box: an empty text means
    /// no skin.  The edits are marked unsaved.
    pub fn set_skin_text(&mut self, text: String)
        ensures
            final(self).schemes@.len() == old(self).schemes@.len(),
            final(self).dirty,
            forall|i: int|
                0 <= i < old(self).schemes@.len() && i != old(self).selected ==> #[trigger] final(self).schemes@[i] == old(self).schemes@[i],
            old(self).selected < old(self).schemes@.len() ==> skin_view(
                final(self).schemes@[old(self).selected as int].skin_name,
            ) == (if text@.len() == 0 {
                Option::<Seq<char>>::None
            } else {
                Option::Some(text@)
            }),
            final(self).selected == old(self).selected,
    {
        if self.selected < self.schemes.len() {
            let i = self.selected;
            let empty = text.as_str().is_empty();
            if empty {
                self.schemes[i].skin_name = None;
            } else {
                self.schemes[i].skin_name = Some(text);
            }
        }
        self.dirty = true;
    }

    /// Recomputes the shown scheme's display name from its skin and hero,
    /// as the editor does on every frame.
    pub fn refresh_display_name(&mut self)
        ensures
            final(self).schemes@.len() == old(self).schemes@.len(),
            final(self).dirty == old(self).dirty,
            final(self).selected == old(self).selected,
            forall|i: int|
                0 <= i < old(self).schemes@.len() && i != old(self).selected ==> #[trigger] final(self).schemes@[i] == old(self).schemes@[i],
            old(self).selected < old(self).schemes@.len() ==> {
                let o = old(self).schemes@[old(self).selected as int];
                let n = final(self).schemes@[old(self).selected as int];
                &&& n.display_name@ == display_name_spec(skin_view(o.skin_name), o.hero_name@)
                &&& n.hero_name == o.hero_name
                &&& n.skin_name == o.skin_name
            },
    {
        if self.selected < self.schemes.len() {
            let i = self.selected;
            let name = display_name_for(&self.schemes[i].skin_name, self.schemes[i].hero_name.as_str());
            self.schemes[i].display_name = name;
        }
    }

    /// The file name that the shown scheme is saved under.
    pub fn current_file_name(&self) -> (res: Option<String>)
        ensures
            self.selected < self.schemes@.len() ==> (res matches Option::Some(n) && n@
                == file_name_spec(self.schemes@[self.selected as int].display_name@)),
            self.selected >= self.schemes@.len() ==> res is None,
    {
        if self.selected < self.schemes.len() {
            Some(scheme_file_name(self.schemes[self.selected].display_name.as_str()))
        } else {
            None
        }
    }

    /// The shown scheme was written out: nothing is left unsaved.
    pub fn mark_saved(&mut self)
        ensures
            !final(self).dirty,
            final(self).schemes == old(self).schemes,
            final(self).selected == old(self).selected,
    {
        self.dirty = false;
    }
}

/// A list of lines of the shown scheme that the editor edits: one of the
/// event lists, a taunt group, or the lines of a panel.
#[derive(Debug, Clone, Copy, PartialEq, Eq, Structural)]
pub enum LineList {
    GameStart,
    Kill,
    Death,
    Assist,
    Taunt(usize),
    Panel(usize),
}

/// The name of a panel added in the editor: "新面板".
pub open spec fn new_panel_name() -> Seq<char> {
    seq!['新', '面', '板']
}

/// The list exists in the scheme.
pub open spec fn has_list(s: HeroScheme, w: LineList) -> bool {
    match w {
        LineList::Taunt(i) => i < s.triggers.taunt.boxes@.len(),
        LineList::Panel(i) => i < s.panels@.len(),
        _ => true,
    }
}

/// The lines of a list of the scheme.
pub open spec fn lines_of(s: HeroScheme, w: LineList) -> Seq<String> {
    match w {
        LineList::GameStart => s.triggers.game_start@,
        LineList::Kill => s.triggers.kill@,
        LineList::Death => s.triggers.death@,
        LineList::Assist => s.triggers.assist@,
        LineList::Taunt(i) => s.triggers.taunt.boxes@[i as int]@,
        LineList::Panel(i) => s.panels@[i as int].lines@,
    }
}

/// Lines as characters.
pub open spec fn texts(v: Seq<String>) -> Seq<Seq<char>> {
    v.map_values(|x: String| x@)
}

/// The names, the skin, the number of taunt groups and panels and the panel
/// names are those of `o`.
pub open spec fn same_outline(o: HeroScheme, n: HeroScheme) -> bool {
    &&& n.hero_name@ == o.hero_name@
    &&& skin_view(n.skin_name) == skin_view(o.skin_name)
    &&& n.display_name@ == o.display_name@
    &&& n.triggers.taunt.boxes@.len() == o.triggers.taunt.boxes@.len()
    &&& n.panels@.len() == o.panels@.len()
    &&& forall|i: int| 0 <= i < n.panels@.len() ==> #[trigger] n.panels@[i].name@ == o.panels@[i].name@
}

/// Every list of `o` but `w` has the same lines in `n`.
pub open spec fn other_lists_kept(o: HeroScheme, n: HeroScheme, w: LineList) -> bool {
    forall|v: LineList| #[trigger] has_list(o, v) && v != w ==> texts(lines_of(n, v)) == texts(lines_of(o, v))
}

/// An edit of the shown scheme: with a scheme shown, `f` relates the old
/// scheme to the new, the other schemes are kept and the edits are marked
/// unsaved; with none shown nothing changes.
pub open spec fn edited(o: HeroEditor, n: HeroEditor, f: spec_fn(HeroScheme, HeroScheme) -> bool) -> bool {
    &&& n.selected == o.selected
    &&& n.schemes@.len() == o.schemes@.len()
    &&& forall|i: int| 0 <= i < o.schemes@.len() && i != o.selected ==> #[trigger] n.schemes@[i] == o.schemes@[i]
    &&& if o.selected < o.schemes@.len() {
        &&& f(o.schemes@[o.selected as int], n.schemes@[o.selected as int])
        &&& n.dirty
    } else {
        n.dirty == o.dirty
    }
}

fn set_at(v: &mut Vec<String>, i: usize, text: String)
    requires
        i < old(v)@.len(),
    ensures
        final(v)@ == old(v)@.update(i as int, text),
{
    v.set(i, text);
}

fn list_mut(s: &mut HeroScheme, w: LineList) -> (res: &mut Vec<String>)
    requires
        has_list(*old(s), w),
    ensures
        res@ == lines_of(*old(s), w),
        has_list(*final(s), w),
        lines_of(*final(s), w) == final(res)@,
        same_outline(*old(s), *final(s)),
        forall|v: LineList| #[trigger] has_list(*old(s), v) && v != w ==> lines_of(*final(s), v) == lines_of(*old(s), v),
{
    match w {
        LineList::GameStart => &mut s.triggers.game_start,
        LineList::Kill => &mut s.triggers.kill,
        LineList::Death => &mut s.triggers.death,
        LineList::Assist => &mut s.triggers.assist,
        LineList::Taunt(i) => &mut s.triggers.taunt.boxes[i],
        LineList::Panel(i) => &mut s.panels[i].lines,
    }
}

/// Line `i` of list `w` now reads `t`; nothing else changed.
pub open spec fn line_set(o: HeroScheme, n: HeroScheme, w: LineList, i: int, t: Seq<char>) -> bool {
    &&& same_outline(o, n)
    &&& other_lists_kept(o, n, w)
    &&& texts(lines_of(n, w)) == texts(lines_of(o, w)).update(i, t)
}

/// Line `i` of list `w` was taken out; nothing else changed.
pub open spec fn line_removed(o: HeroScheme, n: HeroScheme, w: LineList, i: int) -> bool {
    &&& same_outline(o, n)
    &&& other_lists_kept(o, n, w)
    &&& texts(lines_of(n, w)) == texts(lines_of(o, w)).remove(i)
}

/// An empty line was added at the end of list `w`; nothing else changed.
pub open spec fn line_added(o: HeroScheme, n: HeroScheme, w: LineList) -> bool {
    &&& same_outline(o, n)
    &&& other_lists_kept(o, n, w)
    &&& texts(lines_of(n, w)) == texts(lines_of(o, w)).push(Seq::empty())
}

/// Only the taunt groups differ between `o` and `n`.
pub open spec fn only_taunts_differ(o: HeroScheme, n: HeroScheme) -> bool {
    &&& n.hero_name == o.hero_name
    &&& n.skin_name == o.skin_name
    &&& n.display_name == o.display_name
    &&& n.triggers.game_start == o.triggers.game_start
    &&& n.triggers.kill == o.triggers.kill
    &&& n.triggers.death == o.triggers.death
    &&& n.triggers.assist == o.triggers.assist
    &&& n.panels == o.panels
}

/// Only the panels differ between `o` and `n`.
pub open spec fn only_panels_differ(o: HeroScheme, n: HeroScheme) -> bool {
    &&& n.hero_name == o.hero_name
    &&& n.skin_name == o.skin_name
    &&& n.display_name == o.display_name
    &&& n.triggers == o.triggers
}

/// A taunt group holding one empty line was added at the end.
pub open spec fn taunt_group_added(o: HeroScheme, n: HeroScheme) -> bool {
    let ob = o.triggers.taunt.boxes@;
    let nb = n.triggers.taunt.boxes@;
    &&& only_taunts_differ(o, n)
    &&& nb.len() == ob.len() + 1
    &&& forall|j: int| 0 <= j < ob.len() ==> #[trigger] nb[j] == ob[j]
    &&& texts(nb[ob.len() as int]@) == seq![Seq::<char>::empty()]
}

/// Taunt group `i` was taken out.
pub open spec fn taunt_group_removed(o: HeroScheme, n: HeroScheme, i: int) -> bool {
    &&& only_taunts_differ(o, n)
    &&& n.triggers.taunt.boxes@ == o.triggers.taunt.boxes@.remove(i)
}

/// A panel named "新面板" with no lines was added at the end.
pub open spec fn panel_added(o: HeroScheme, n: HeroScheme) -> bool {
    &&& only_panels_differ(o, n)
    &&& n.panels@.len() == o.panels@.len() + 1
    &&& forall|j: int| 0 <= j < o.panels@.len() ==> #[trigger] n.panels@[j] == o.panels@[j]
    &&& n.panels@[o.panels@.len() as int].name@ == new_panel_name()
    &&& n.panels@[o.panels@.len() as int].lines@.len() == 0
}

/// Panel `i` was taken out.
pub open spec fn panel_removed(o: HeroScheme, n: HeroScheme, i: int) -> bool {
    &&& only_panels_differ(o, n)
    &&& n.panels@ == o.panels@.remove(i)
}

/// Panel `i` is now named `t`; its lines and everything else are kept.
pub open spec fn panel_renamed(o: HeroScheme, n: HeroScheme, i: int, t: Seq<char>) -> bool {
    &&& only_panels_differ(o, n)
    &&& n.panels@.len() == o.panels@.len()
    &&& forall|j: int| 0 <= j < o.panels@.len() && j != i ==> #[trigger] n.panels@[j] == o.panels@[j]
    &&& n.panels@[i].name@ == t
    &&& n.panels@[i].lines == o.panels@[i].lines
}

/// The hero is now named `t`; everything else is kept.
pub open spec fn hero_renamed(o: HeroScheme, n: HeroScheme, t: Seq<char>) -> bool {
    &&& n.hero_name@ == t
    &&& n.skin_name == o.skin_name
    &&& n.display_name == o.display_name
    &&& n.triggers == o.triggers
    &&& n.panels == o.panels
}

/// The shown scheme, when there is one.
pub open spec fn shown(e: HeroEditor) -> Option<HeroScheme> {
    if e.selected < e.schemes@.len() {
        Option::Some(e.schemes@[e.selected as int])
    } else {
        Option::None
    }
}

proof fn lemma_texts_update(v: Seq<String>, i: int, t: String)
    requires
        0 <= i < v.len(),
    ensures
        texts(v.update(i, t)) == texts(v).update(i, t@),
{
    assert(texts(v.update(i, t)) =~= texts(v).update(i, t@));
}

proof fn lemma_texts_remove(v: Seq<String>, i: int)
    requires
        0 <= i < v.len(),
    ensures
        texts(v.remove(i)) == texts(v).remove(i),
{
    assert(texts(v.remove(i)) =~= texts(v).remove(i));
}

proof fn lemma_texts_push(v: Seq<String>, t: String)
    ensures
        texts(v.push(t)) == texts(v).push(t@),
{
    assert(texts(v.push(t)) =~= texts(v).push(t@));
}

impl HeroEditor {
    /// Line `i` of list `w` of the shown scheme was edited to `text`.
    pub fn set_line(&mut self, w: LineList, i: usize, text: String)
        requires
            shown(*old(self)) matches Option::Some(s) ==> has_list(s, w) && i < lines_of(s, w).len(),
        ensures
            edited(*old(self), *final(self), |o: HeroScheme, n: HeroScheme| line_set(o, n, w, i as int, text@)),
    {
        if self.selected < self.schemes.len() {
            let sel = self.selected;
            let ghost o = self.schemes@[sel as int];
            let ghost t = text;
            let v = list_mut(&mut self.schemes[sel], w);
            v.set(i, text);
            self.dirty = true;
            proof {
                let n = self.schemes@[sel as int];
                lemma_texts_update(lines_of(o, w), i as int, t);
                assert(line_set(o, n, w, i as int, t@));
            }
        }
    }

    /// Line `i` of list `w` of the shown scheme was deleted.
    pub fn remove_line(&mut self, w: LineList, i: usize)
        requires
            shown(*old(self)) matches Option::Some(s) ==> has_list(s, w) && i < lines_of(s, w).len(),
        ensures
            edited(*old(self), *final(self), |o: HeroScheme, n: HeroScheme| line_removed(o, n, w, i as int)),
    {
        if self.selected < self.schemes.len() {
            let sel = self.selected;
            let ghost o = self.schemes@[sel as int];
            let v = list_mut(&mut self.schemes[sel], w);
            v.remove(i);
            self.dirty = true;
            proof {
                let n = self.schemes@[sel as int];
                lemma_texts_remove(lines_of(o, w), i as int);
                assert(line_removed(o, n, w, i as int));
            }
        }
    }

    /// An empty line was added to list `w` of the shown scheme.
    pub fn add_line(&mut self, w: LineList)
        requires
            shown(*old(self)) matches Option::Some(s) ==> has_list(s, w),
        ensures
            edited(*old(self), *final(self), |o: HeroScheme, n: HeroScheme| line_added(o, n, w)),
    {
        if self.selected < self.schemes.len() {
            let sel = self.selected;
            let ghost o = self.schemes@[sel as int];
            let empty = String::new();
            let ghost e = empty;
            let v = list_mut(&mut self.schemes[sel], w);
            v.push(empty);
            self.dirty = true;
            proof {
                let n = self.schemes@[sel as int];
                lemma_texts_push(lines_of(o, w), e);
                assert(line_added(o, n, w));
            }
        }
    }

    /// The shown scheme's hero name was edited to `text`.
    pub fn set_hero_name(&mut self, text: String)
        ensures
            edited(*old(self), *final(self), |o: HeroScheme, n: HeroScheme| hero_renamed(o, n, text@)),
    {
        if self.selected < self.schemes.len() {
            let sel = self.selected;
            self.schemes[sel].hero_name = text;
            self.dirty = true;
        }
    }

    /// A taunt group holding one empty line was added to the shown scheme.
    pub fn add_taunt_group(&mut self)
        ensures
            edited(*old(self), *final(self), |o: HeroScheme, n: HeroScheme| taunt_group_added(o, n)),
    {
        if self.selected < self.schemes.len() {
            let sel = self.selected;
            let group: Vec<String> = vec![String::new()];
            self.schemes[sel].triggers.taunt.boxes.push(group);
            self.dirty = true;
            proof {
                let nb = self.schemes@[sel as int].triggers.taunt.boxes@;
                assert(texts(nb.last()@) =~= seq![Seq::<char>::empty()]);
            }
        }
    }

    /// Taunt group `i` of the shown scheme was deleted.
    pub fn remove_taunt_group(&mut self, i: usize)
        requires
            shown(*old(self)) matches Option::Some(s) ==> i < s.triggers.taunt.boxes@.len(),
        ensures
            edited(*old(self), *final(self), |o: HeroScheme, n: HeroScheme| taunt_group_removed(o, n, i as int)),
    {
        if self.selected < self.schemes.len() {
            let sel = self.selected;
            self.schemes[sel].triggers.taunt.boxes.remove(i);
            self.dirty = true;
        }
    }

    /// A panel named "新面板" with no lines was added to the shown scheme.
    pub fn add_panel(&mut self)
        ensures
            edited(*old(self), *final(self), |o: HeroScheme, n: HeroScheme| panel_added(o, n)),
    {
        if self.selected < self.schemes.len() {
            let sel = self.selected;
            let mut name = String::new();
            push_char(&mut name, '新');
            push_char(&mut name, '面');
            push_char(&mut name, '板');
            assert(name@ =~= new_panel_name());
            let ghost op = self.schemes@[sel as int].panels@;
            self.schemes[sel].panels.push(PanelGroup { name, lines: Vec::new() });
            assert(self.schemes@[sel as int].panels@.drop_last() == op);
            self.dirty = true;
        }
    }

    /// Panel `i` of the shown scheme was deleted.
    pub fn remove_panel(&mut self, i: usize)
        requires
            shown(*old(self)) matches Option::Some(s) ==> i < s.panels@.len(),
        ensures
            edited(*old(self), *final(self), |o: HeroScheme, n: HeroScheme| panel_removed(o, n, i as int)),
    {
        if self.selected < self.schemes.len() {
            let sel = self.selected;
            self.schemes[sel].panels.remove(i);
            self.dirty = true;
        }
    }

    /// Panel `i` of the shown scheme was renamed to `text`.
    pub fn rename_panel(&mut self, i: usize, text: String)
        requires
            shown(*old(self)) matches Option::Some(s) ==> i < s.panels@.len(),
        ensures
            edited(*old(self), *final(self), |o: HeroScheme, n: HeroScheme| panel_renamed(o, n, i as int, text@)),
    {
        if self.selected < self.schemes.len() {
            let sel = self.selected;
            self.schemes[sel].panels[i].name = text;
            self.dirty = true;
        }
    }
}

} // verus!
