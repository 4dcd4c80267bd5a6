use crate::text::{
    chars_of, push_char, same_text, string_from_range, trim_bounds, trim_spec,
};
use pinyin::ToPinyin;
use vstd::prelude::*;

verus! {

/// The lines of one hero: what it says on each event, its taunts and its
/// quick-chat panels.
#[derive(Debug, Clone)]
pub struct HeroScheme {
    /// The hero's name.
    pub hero_name: String,
    /// The skin's name, when the scheme is for one skin.
    pub skin_name: Option<String>,
    /// The name the scheme is known by: the skin name and the hero name.
    pub display_name: String,
    /// Lines said on game events.
    pub triggers: TriggerQuotes,
    /// Quick-chat panels.
    pub panels: Vec<PanelGroup>,
}

/// Lines said on game events.
#[derive(Debug, Clone)]
pub struct TriggerQuotes {
    /// Said when a game starts.
    pub game_start: Vec<String>,
    /// Said on a kill.
    pub kill: Vec<String>,
    /// Said on a death.
    pub death: Vec<String>,
    /// Said on an assist.
    pub assist: Vec<String>,
    /// Groups of taunts.
    pub taunt: TauntBoxes,
}

/// Groups of taunts; one line of a group is picked at random.
#[derive(Debug, Clone)]
pub struct TauntBoxes {
    pub boxes: Vec<Vec<String>>,
}

/// A named quick-chat panel.
#[derive(Debug, Clone)]
pub struct PanelGroup {
    /// The panel's name.
    pub name: String,
    /// Its lines.
    pub lines: Vec<String>,
}

impl Default for TriggerQuotes {
    /// No lines for any event and no taunts.
    fn default() -> (res: Self)
        ensures
            res.game_start@.len() == 0,
            res.kill@.len() == 0,
            res.death@.len() == 0,
            res.assist@.len() == 0,
            res.taunt.boxes@.len() == 0,
    {
        TriggerQuotes {
            game_start: Vec::new(),
            kill: Vec::new(),
            death: Vec::new(),
            assist: Vec::new(),
            taunt: TauntBoxes { boxes: Vec::new() },
        }
    }
}

/// The schemes, known by display name, and which scheme each hero name
/// points to.
pub struct SchemeManager {
    schemes: Vec<HeroScheme>,
    hero_index: Vec<(String, String)>,
}

/// The display name `key` has a scheme at position `i`.
pub open spec fn scheme_at(s: Seq<HeroScheme>, i: int, key: Seq<char>) -> bool {
    0 <= i < s.len() && s[i].display_name@ == key
}

/// The hero name `key` has an entry at position `i`.
pub open spec fn hero_at(h: Seq<(String, String)>, i: int, key: Seq<char>) -> bool {
    0 <= i < h.len() && h[i].0@ == key
}

/// What `match_scheme` finds, over the schemes by display name and the
/// display name each hero points to: the scheme named by skin and hero,
/// else the scheme named by the skin, else the hero's scheme.
pub open spec fn match_spec(
    schemes: Map<Seq<char>, HeroScheme>,
    heroes: Map<Seq<char>, Seq<char>>,
    skin: Seq<char>,
    hero: Seq<char>,
) -> Option<HeroScheme> {
    let full = skin + seq![' '] + hero;
    if schemes.contains_key(full) {
        Option::Some(schemes[full])
    } else if schemes.contains_key(skin) {
        Option::Some(schemes[skin])
    } else if heroes.contains_key(hero) && schemes.contains_key(heroes[hero]) {
        Option::Some(schemes[heroes[hero]])
    } else {
        Option::None
    }
}

/// Every hero name points to a held scheme of that hero, as after loading
/// schemes with distinct display names.
pub open spec fn heroes_point_home(
    schemes: Map<Seq<char>, HeroScheme>,
    heroes: Map<Seq<char>, Seq<char>>,
) -> bool {
    forall|h: Seq<char>|
        #[trigger] heroes.contains_key(h) ==> schemes.contains_key(heroes[h])
            && schemes[heroes[h]].hero_name@ == h
}

fn find_display(schemes: &Vec<HeroScheme>, key: &str) -> (res: Option<usize>)
    ensures
        match res {
            Option::Some(i) => scheme_at(schemes@, i as int, key@),
            Option::None => forall|i: int| !scheme_at(schemes@, i, key@),
        },
{
    let mut i: usize = 0;
    while i < schemes.len()
        invariant
            i <= schemes@.len(),
            forall|j: int| 0 <= j < i ==> !scheme_at(schemes@, j, key@),
        decreases schemes@.len() - i,
    {
        if same_text(schemes[i].display_name.as_str(), key) {
            return Some(i);
        }
        i = i + 1;
    }
    None
}

fn find_hero(index: &Vec<(String, String)>, key: &str) -> (res: Option<usize>)
    ensures
        match res {
            Option::Some(i) => hero_at(index@, i as int, key@),
            Option::None => forall|i: int| !hero_at(index@, i, key@),
        },
{
    let mut i: usize = 0;
    while i < index.len()
        invariant
            i <= index@.len(),
            forall|j: int| 0 <= j < i ==> !hero_at(index@, j, key@),
        decreases index@.len() - i,
    {
        if same_text(index[i].0.as_str(), key) {
            return Some(i);
        }
        i = i + 1;
    }
    None
}

/// `order` lists each scheme of `m` exactly once.
pub open spec fn lists_all(m: Map<Seq<char>, HeroScheme>, order: Seq<HeroScheme>) -> bool {
    &&& forall|i: int|
        0 <= i < order.len() ==> m.contains_key(#[trigger] order[i].display_name@)
            && m[order[i].display_name@] == order[i]
    &&& forall|k: Seq<char>|
        #[trigger] m.contains_key(k) ==> exists|i: int| 0 <= i < order.len() && order[i].display_name@ == k
    &&& forall|i: int, j: int|
        0 <= i < j < order.len() ==> order[i].display_name@ != order[j].display_name@
}

impl SchemeManager {
    #[verifier::type_invariant]
    spec fn keys_distinct(self) -> bool {
        &&& forall|i: int, j: int|
            0 <= i < j < self.schemes@.len() ==> self.schemes@[i].display_name@
                != self.schemes@[j].display_name@
        &&& forall|i: int, j: int|
            0 <= i < j < self.hero_index@.len() ==> self.hero_index@[i].0@
                != self.hero_index@[j].0@
    }

    /// The schemes, by display name.
    pub closed spec fn scheme_map(self) -> Map<Seq<char>, HeroScheme> {
        Map::new(
            |k: Seq<char>| exists|i: int| scheme_at(self.schemes@, i, k),
            |k: Seq<char>| self.schemes@[choose|i: int| scheme_at(self.schemes@, i, k)],
        )
    }

    /// The display name that each hero name points to.
    pub closed spec fn hero_map(self) -> Map<Seq<char>, Seq<char>> {
        Map::new(
            |k: Seq<char>| exists|i: int| hero_at(self.hero_index@, i, k),
            |k: Seq<char>| self.hero_index@[choose|i: int| hero_at(self.hero_index@, i, k)].1@,
        )
    }

    proof fn lemma_scheme_lookup(self, i: int)
        requires
            self.keys_distinct(),
            0 <= i < self.schemes@.len(),
        ensures
            self.scheme_map().contains_key(self.schemes@[i].display_name@),
            self.scheme_map()[self.schemes@[i].display_name@] == self.schemes@[i],
    {
        let k = self.schemes@[i].display_name@;
        assert(scheme_at(self.schemes@, i, k));
        let j = choose|j: int| scheme_at(self.schemes@, j, k);
        assert(i == j);
    }

    proof fn lemma_hero_lookup(self, i: int)
        requires
            self.keys_distinct(),
            0 <= i < self.hero_index@.len(),
        ensures
            self.hero_map().contains_key(self.hero_index@[i].0@),
            self.hero_map()[self.hero_index@[i].0@] == self.hero_index@[i].1@,
    {
        let k = self.hero_index@[i].0@;
        assert(hero_at(self.hero_index@, i, k));
        let j = choose|j: int| hero_at(self.hero_index@, j, k);
        assert(i == j);
    }

    /// A manager with no schemes.
    pub fn new() -> (res: Self)
        ensures
            res.scheme_map() == Map::<Seq<char>, HeroScheme>::empty(),
            res.hero_map() == Map::<Seq<char>, Seq<char>>::empty(),
            heroes_point_home(res.scheme_map(), res.hero_map()),
    {
        let res = SchemeManager { schemes: Vec::new(), hero_index: Vec::new() };
        assert(res.scheme_map() =~= Map::<Seq<char>, HeroScheme>::empty());
        assert(res.hero_map() =~= Map::<Seq<char>, Seq<char>>::empty());
        res
    }

    /// Adds a scheme as loading does: it becomes the scheme of its display
    /// name, replacing any scheme of that name, and its hero name now points
    /// to it.
    pub fn insert(&mut self, scheme: HeroScheme)
        ensures
            final(self).scheme_map() == old(self).scheme_map().insert(
                scheme.display_name@,
                scheme,
            ),
            final(self).hero_map() == old(self).hero_map().insert(
                scheme.hero_name@,
                scheme.display_name@,
            ),
            heroes_point_home(old(self).scheme_map(), old(self).hero_map()) && (!old(
                self,
            ).scheme_map().contains_key(scheme.display_name@) || old(
                self,
            ).scheme_map()[scheme.display_name@].hero_name@ == scheme.hero_name@) ==> heroes_point_home(
                final(self).scheme_map(),
                final(self).hero_map(),
            ),
    {
        proof {
            use_type_invariant(&*self);
        }
        let ghost old_s = self.schemes@;
        let ghost old_h = self.hero_index@;
        let ghost old_smap = self.scheme_map();
        let ghost old_hmap = self.hero_map();
        let key = scheme.display_name.clone();
        let hero = scheme.hero_name.clone();
        let ghost sc = scheme;
        let mut schemes: Vec<HeroScheme> = Vec::new();
        std::mem::swap(&mut schemes, &mut self.schemes);
        let ghost spos: int;
        match find_display(&schemes, key.as_str()) {
            Some(i) => {
                schemes.set(i, scheme);
                proof {
                    spos = i as int;
                }
            },
            None => {
                schemes.push(scheme);
                proof {
                    spos = old_s.len() as int;
                }
            },
        }
        proof {
            assert(0 <= spos < schemes@.len() && schemes@[spos] == sc);
            assert(forall|i: int| 0 <= i < schemes@.len() && i != spos ==> schemes@[i] == old_s[i]);
            assert forall|i: int|
                0 <= i < old_s.len() && i != spos implies old_s[i].display_name@
                != sc.display_name@ by {
                if spos < old_s.len() {
                    assert(old_s[spos].display_name@ == sc.display_name@);
                    if i < spos {
                        assert(old_s[i].display_name@ != old_s[spos].display_name@);
                    } else {
                        assert(old_s[spos].display_name@ != old_s[i].display_name@);
                    }
                } else {
                    assert(!scheme_at(old_s, i, sc.display_name@));
                }
            }
            assert(schemes@.len() == old_s.len() || (schemes@.len() == old_s.len() + 1 && spos
                == old_s.len()));
        }
        self.schemes = schemes;
        let mut index: Vec<(String, String)> = Vec::new();
        std::mem::swap(&mut index, &mut self.hero_index);
        let ghost hpos: int;
        match find_hero(&index, hero.as_str()) {
            Some(j) => {
                index.set(j, (hero, key));
                proof {
                    hpos = j as int;
                }
            },
            None => {
                index.push((hero, key));
                proof {
                    hpos = old_h.len() as int;
                }
            },
        }
        proof {
            assert(0 <= hpos < index@.len() && index@[hpos].0@ == sc.hero_name@ && index@[hpos].1@
                == sc.display_name@);
            assert(forall|i: int| 0 <= i < index@.len() && i != hpos ==> index@[i] == old_h[i]);
            assert forall|i: int|
                0 <= i < old_h.len() && i != hpos implies old_h[i].0@ != sc.hero_name@ by {
                if hpos < old_h.len() {
                    assert(old_h[hpos].0@ == sc.hero_name@);
                    if i < hpos {
                        assert(old_h[i].0@ != old_h[hpos].0@);
                    } else {
                        assert(old_h[hpos].0@ != old_h[i].0@);
                    }
                } else {
                    assert(!hero_at(old_h, i, sc.hero_name@));
                }
            }
            assert(index@.len() == old_h.len() || (index@.len() == old_h.len() + 1 && hpos
                == old_h.len()));
        }
        self.hero_index = index;
        proof {
            use_type_invariant(&*self);
            let ns = self.schemes@;
            let target = old_smap.insert(sc.display_name@, sc);
            assert forall|k: Seq<char>|
                #![trigger self.scheme_map().contains_key(k)]
                self.scheme_map().contains_key(k) == target.contains_key(k) by {
                if exists|i: int| scheme_at(ns, i, k) {
                    let i = choose|i: int| scheme_at(ns, i, k);
                    if k != sc.display_name@ {
                        assert(scheme_at(old_s, i, k));
                    }
                }
                if exists|i: int| scheme_at(old_s, i, k) {
                    let i = choose|i: int| scheme_at(old_s, i, k);
                    if k != sc.display_name@ {
                        assert(scheme_at(ns, i, k));
                    }
                }
                if k == sc.display_name@ {
                    assert(scheme_at(ns, spos, k));
                }
            }
            assert forall|k: Seq<char>| #[trigger]
                self.scheme_map().contains_key(k) implies self.scheme_map()[k] == target[k] by {
                let i = choose|i: int| scheme_at(ns, i, k);
                self.lemma_scheme_lookup(i);
                if k != sc.display_name@ {
                    assert(scheme_at(old_s, i, k));
                    assert(old_smap[k] == old_s[i]) by {
                        let j = choose|j: int| scheme_at(old_s, j, k);
                        assert(old_s[j].display_name@ == old_s[i].display_name@);
                    }
                } else {
                    assert(i == spos);
                }
            }
            assert(self.scheme_map() =~= target);
            let nh = self.hero_index@;
            let htarget = old_hmap.insert(sc.hero_name@, sc.display_name@);
            assert forall|k: Seq<char>|
                #![trigger self.hero_map().contains_key(k)]
                self.hero_map().contains_key(k) == htarget.contains_key(k) by {
                if exists|i: int| hero_at(nh, i, k) {
                    let i = choose|i: int| hero_at(nh, i, k);
                    if k != sc.hero_name@ {
                        assert(hero_at(old_h, i, k));
                    }
                }
                if exists|i: int| hero_at(old_h, i, k) {
                    let i = choose|i: int| hero_at(old_h, i, k);
                    if k != sc.hero_name@ {
                        assert(hero_at(nh, i, k));
                    }
                }
                if k == sc.hero_name@ {
                    assert(hero_at(nh, hpos, k));
                }
            }
            assert forall|k: Seq<char>| #[trigger]
                self.hero_map().contains_key(k) implies self.hero_map()[k] == htarget[k] by {
                let i = choose|i: int| hero_at(nh, i, k);
                self.lemma_hero_lookup(i);
                if k != sc.hero_name@ {
                    assert(hero_at(old_h, i, k));
                    assert(old_hmap[k] == old_h[i].1@) by {
                        let j = choose|j: int| hero_at(old_h, j, k);
                        assert(old_h[j].0@ == old_h[i].0@);
                    }
                } else {
                    assert(i == hpos);
                }
            }
            assert(self.hero_map() =~= htarget);
            let om = old_smap;
            let oh = old_hmap;
            if heroes_point_home(om, oh) && (!om.contains_key(sc.display_name@)
                || om[sc.display_name@].hero_name@ == sc.hero_name@) {
                assert forall|h: Seq<char>| #[trigger] htarget.contains_key(h) implies target.contains_key(
                    htarget[h],
                ) && target[htarget[h]].hero_name@ == h by {
                    if h != sc.hero_name@ {
                        assert(oh.contains_key(h));
                        assert(om.contains_key(oh[h]));
                    }
                }
            }
        }
    }

    /// Finds the scheme for a skin and hero read from the confirmation page:
    /// the scheme named `"skin hero"`, else the one named by the skin, else
    /// the one the hero points to, which, when every hero points to a held
    /// scheme of its own, is a scheme of that hero.
    pub fn match_scheme(&self, skin_name: &str, hero_name: &str) -> (res: Option<&HeroScheme>)
        ensures
            match (res, match_spec(self.scheme_map(), self.hero_map(), skin_name@, hero_name@)) {
                (Option::Some(r), Option::Some(x)) => *r == x,
                (Option::None, Option::None) => true,
                _ => false,
            },
            heroes_point_home(self.scheme_map(), self.hero_map()) && !self.scheme_map().contains_key(
                skin_name@ + seq![' '] + hero_name@,
            ) && !self.scheme_map().contains_key(skin_name@) ==> (self.hero_map().contains_key(
                hero_name@,
            ) <==> res is Some) && (res matches Option::Some(r) ==> r.hero_name@ == hero_name@),
    {
        proof {
            use_type_invariant(self);
        }
        let mut full = String::from_str(skin_name);
        push_char(&mut full, ' ');
        full.append(hero_name);
        assert(full@ == skin_name@ + seq![' '] + hero_name@);
        if let Some(i) = find_display(&self.schemes, full.as_str()) {
            proof {
                self.lemma_scheme_lookup(i as int);
            }
            return Some(&self.schemes[i]);
        }
        if let Some(i) = find_display(&self.schemes, skin_name) {
            proof {
                self.lemma_scheme_lookup(i as int);
            }
            return Some(&self.schemes[i]);
        }
        if let Some(j) = find_hero(&self.hero_index, hero_name) {
            proof {
                self.lemma_hero_lookup(j as int);
            }
            if let Some(i) = find_display(&self.schemes, self.hero_index[j].1.as_str()) {
                proof {
                    self.lemma_scheme_lookup(i as int);
                }
                return Some(&self.schemes[i]);
            }
        }
        None
    }

    /// Every scheme, once each, in no stated order.
    pub fn all(&self) -> (res: Vec<&HeroScheme>)
        ensures
            lists_all(self.scheme_map(), res@.map_values(|r: &HeroScheme| *r)),
    {
        proof {
            use_type_invariant(self);
        }
        let mut res: Vec<&HeroScheme> = Vec::new();
        let mut i: usize = 0;
        while i < self.schemes.len()
            invariant
                self.keys_distinct(),
                i <= self.schemes@.len(),
                res@.len() == i,
                forall|j: int| 0 <= j < i ==> *res@[j] == self.schemes@[j],
            decreases self.schemes@.len() - i,
        {
            res.push(&self.schemes[i]);
            i = i + 1;
        }
        proof {
            let out = res@.map_values(|r: &HeroScheme| *r);
            assert forall|i: int| 0 <= i < out.len() implies self.scheme_map().contains_key(
                #[trigger] out[i].display_name@,
            ) && self.scheme_map()[out[i].display_name@] == out[i] by {
                self.lemma_scheme_lookup(i);
            }
            assert forall|k: Seq<char>| #[trigger]
                self.scheme_map().contains_key(k) implies exists|i: int|
                0 <= i < out.len() && out[i].display_name@ == k by {
                let i = choose|i: int| scheme_at(self.schemes@, i, k);
                assert(out[i].display_name@ == k);
            }
        }
        res
    }
}

/// A scheme named by skin and hero together is found first, whatever
/// else is known.
pub proof fn lemma_full_name_wins(
    schemes: Map<Seq<char>, HeroScheme>,
    heroes: Map<Seq<char>, Seq<char>>,
    skin: Seq<char>,
    hero: Seq<char>,
)
    requires
        schemes.contains_key(skin + seq![' '] + hero),
    ensures
        match_spec(schemes, heroes, skin, hero) == Option::Some(schemes[skin + seq![' '] + hero]),
{
}

/// When no scheme is named by skin and hero together, a scheme named by
/// the skin alone is found, whatever the hero points to.
pub proof fn lemma_skin_name_before_hero(
    schemes: Map<Seq<char>, HeroScheme>,
    heroes: Map<Seq<char>, Seq<char>>,
    skin: Seq<char>,
    hero: Seq<char>,
)
    requires
        !schemes.contains_key(skin + seq![' '] + hero),
        schemes.contains_key(skin),
    ensures
        match_spec(schemes, heroes, skin, hero) == Option::Some(schemes[skin]),
{
}

/// The hero is consulted only when neither the full name nor the skin
/// names a scheme: then the scheme it points to is found, if it is held,
/// and nothing otherwise.
pub proof fn lemma_hero_consulted_last(
    schemes: Map<Seq<char>, HeroScheme>,
    heroes: Map<Seq<char>, Seq<char>>,
    skin: Seq<char>,
    hero: Seq<char>,
)
    requires
        !schemes.contains_key(skin + seq![' '] + hero),
        !schemes.contains_key(skin),
    ensures
        heroes.contains_key(hero) && schemes.contains_key(heroes[hero]) ==> match_spec(
            schemes,
            heroes,
            skin,
            hero,
        ) == Option::Some(schemes[heroes[hero]]),
        !(heroes.contains_key(hero) && schemes.contains_key(heroes[hero])) ==> match_spec(
            schemes,
            heroes,
            skin,
            hero,
        ) is None,
{
}

/// A scheme just added is found by its own skin and hero when its display
/// name is "skin hero".
pub proof fn lemma_inserted_found_by_full_name(
    schemes: Map<Seq<char>, HeroScheme>,
    heroes: Map<Seq<char>, Seq<char>>,
    s: HeroScheme,
    skin: Seq<char>,
)
    requires
        s.display_name@ == skin + seq![' '] + s.hero_name@,
    ensures
        match_spec(
            schemes.insert(s.display_name@, s),
            heroes.insert(s.hero_name@, s.display_name@),
            skin,
            s.hero_name@,
        ) == Option::Some(s),
{
}

/// A scheme just added is found by its hero name alone when no scheme is
/// named by the skin, or by skin and hero: the hero points to the scheme
/// added last for it.
pub proof fn lemma_inserted_found_by_hero(
    schemes: Map<Seq<char>, HeroScheme>,
    heroes: Map<Seq<char>, Seq<char>>,
    s: HeroScheme,
    skin: Seq<char>,
)
    requires
        !schemes.insert(s.display_name@, s).contains_key(skin + seq![' '] + s.hero_name@),
        !schemes.insert(s.display_name@, s).contains_key(skin),
    ensures
        match_spec(
            schemes.insert(s.display_name@, s),
            heroes.insert(s.hero_name@, s.display_name@),
            skin,
            s.hero_name@,
        ) == Option::Some(s),
{
}

/// A scheme's file name holds no space and no slash, so it names a file in
/// the scheme folder itself.
pub proof fn lemma_file_name_plain(display_name: Seq<char>)
    ensures
        forall|i: int|
            0 <= i < file_name_spec(display_name).len() ==> {
                let c = #[trigger] file_name_spec(display_name)[i];
                c != ' ' && c != '/' && c != '\\'
            },
{
    let f = file_name_spec(display_name);
    assert forall|i: int| 0 <= i < f.len() implies {
        let c = #[trigger] f[i];
        c != ' ' && c != '/' && c != '\\'
    } by {
        if i < display_name.len() {
        } else {
            assert(f[i] == seq!['.', 'j', 's', 'o', 'n'][i - display_name.len()]);
        }
    }
}

/// The last position of an ASCII space in `s`.
pub open spec fn last_space(s: Seq<char>) -> Option<int>
    decreases s.len(),
{
    if s.len() == 0 {
        Option::None
    } else if s.last() == ' ' {
        Option::Some(s.len() - 1)
    } else {
        last_space(s.drop_last())
    }
}

/// What `parse_skin_text` reads from `s`: trimmed, it is cut at its last
/// space into skin and hero, each trimmed; with no space both are the
/// whole trimmed text.
pub open spec fn parse_skin_spec(s: Seq<char>) -> (Seq<char>, Seq<char>) {
    let t = trim_spec(s);
    match last_space(t) {
        Option::Some(p) => (trim_spec(t.subrange(0, p)), trim_spec(t.subrange(p + 1, t.len() as int))),
        Option::None => (t, t),
    }
}

/// Reads the skin name and the hero name from the recognised text of the
/// confirmation page: `"冲田总司 绯村剑心"` gives both names, a single
/// name is both.
pub fn parse_skin_text(text: &str) -> (res: (String, String))
    ensures
        (res.0@, res.1@) == parse_skin_spec(text@),
{
    let all = chars_of(text);
    let (a, b) = trim_bounds(&all);
    let t = string_from_range(&all, a, b);
    let tc = chars_of(t.as_str());
    let ghost ts = tc@;
    let mut k = tc.len();
    assert(ts.subrange(0, ts.len() as int) == ts);
    while k > 0 && tc[k - 1] != ' '
        invariant
            k <= tc@.len(),
            ts == tc@,
            last_space(ts) == last_space(ts.subrange(0, k as int)),
        decreases k,
    {
        assert(ts.subrange(0, k as int).drop_last() == ts.subrange(0, k - 1));
        k = k - 1;
    }
    assert(ts.subrange(0, ts.len() as int) == ts);
    if k == 0 {
        assert(ts.subrange(0, 0) == Seq::<char>::empty());
        let t2 = t.clone();
        return (t, t2);
    }
    let pos = k - 1;
    assert(last_space(ts.subrange(0, k as int)) == Option::Some(pos as int));
    let left = string_from_range(&tc, 0, pos);
    let right = string_from_range(&tc, pos + 1, tc.len());
    let lc = chars_of(left.as_str());
    let (la, lb) = trim_bounds(&lc);
    let rc = chars_of(right.as_str());
    let (ra, rb) = trim_bounds(&rc);
    (string_from_range(&lc, la, lb), string_from_range(&rc, ra, rb))
}

/// The file name of a scheme: its display name with each space and slash
/// made an underscore, then `.json`.
pub open spec fn file_name_spec(display_name: Seq<char>) -> Seq<char> {
    display_name.map_values(
        |c: char|
            if c == ' ' || c == '/' || c == '\\' {
                '_'
            } else {
                c
            },
    ) + seq!['.', 'j', 's', 'o', 'n']
}

/// The name of the file that a scheme is saved in.
pub fn scheme_file_name(display_name: &str) -> (res: String)
    ensures
        res@ == file_name_spec(display_name@),
{
    let chars = chars_of(display_name);
    let mut out = String::new();
    let mut i: usize = 0;
    while i < chars.len()
        invariant
            i <= chars@.len(),
            out@ == chars@.take(i as int).map_values(
                |c: char|
                    if c == ' ' || c == '/' || c == '\\' {
                        '_'
                    } else {
                        c
                    },
            ),
        decreases chars@.len() - i,
    {
        let c = chars[i];
        let d = if c == ' ' || c == '/' || c == '\\' {
            '_'
        } else {
            c
        };
        push_char(&mut out, d);
        assert(chars@.take(i + 1) == chars@.take(i as int).push(c));
        i = i + 1;
    }
    assert(chars@.take(chars@.len() as int) == chars@);
    push_char(&mut out, '.');
    push_char(&mut out, 'j');
    push_char(&mut out, 's');
    push_char(&mut out, 'o');
    push_char(&mut out, 'n');
    out
}

/// The display name of a scheme: `"skin hero"` for a skin, else the hero.
pub open spec fn display_name_spec(skin: Option<Seq<char>>, hero: Seq<char>) -> Seq<char> {
    match skin {
        Option::Some(s) => s + seq![' '] + hero,
        Option::None => hero,
    }
}

/// The display name that the editor gives a scheme.
pub fn display_name_for(skin_name: &Option<String>, hero_name: &str) -> (res: String)
    ensures
        res@ == display_name_spec(
            match skin_name {
                Option::Some(s) => Option::Some(s@),
                Option::None => Option::None,
            },
            hero_name@,
        ),
{
    match skin_name {
        Some(s) => {
            let mut out = s.clone();
            push_char(&mut out, ' ');
            out.append(hero_name);
            out
        },
        None => String::from_str(hero_name),
    }
}

/// The plain (toneless) pinyin that the pinyin crate's table gives a
/// character, if it has one.
pub uninterp spec fn plain_pinyin_of(c: char) -> Option<Seq<char>>;

/// `ToPinyin::to_pinyin` for a `char` from the pinyin crate, read through
/// `Pinyin::plain`: the character's plain pinyin from the crate's table, or
/// none for a character without pinyin.  The result is a table lookup, so
/// it depends on the character alone; nothing more is stated of it.
#[verifier::external_body]
fn char_plain_pinyin(c: char) -> (res: Option<String>)
    ensures
        match res {
            Option::Some(p) => plain_pinyin_of(c) == Option::Some(p@),
            Option::None => plain_pinyin_of(c) is None,
        },
{
    c.to_pinyin().map(|p| p.plain().to_string())
}

/// The pinyin initial of a character: the first letter of its plain
/// pinyin, if it has one.
pub open spec fn pinyin_initial(c: char) -> Option<char> {
    match plain_pinyin_of(c) {
        Option::Some(p) => if p.len() > 0 {
            Option::Some(p[0])
        } else {
            Option::None
        },
        Option::None => Option::None,
    }
}

/// The pinyin initials of a text: the initial of each character that has
/// pinyin, in order; characters without pinyin are skipped.
pub open spec fn pinyin_initials(s: Seq<char>) -> Seq<char>
    decreases s.len(),
{
    if s.len() == 0 {
        Seq::empty()
    } else {
        let rest = pinyin_initials(s.drop_last());
        match pinyin_initial(s.last()) {
            Option::Some(i) => rest.push(i),
            Option::None => rest,
        }
    }
}

/// The pinyin initials of a name, such as "fcjx" for 绯村剑心: the first
/// letter of the plain pinyin of each character that has pinyin.
pub fn to_pinyin_initials(name: &str) -> (res: String)
    ensures
        res@ == pinyin_initials(name@),
{
    let chars = chars_of(name);
    let mut out = String::new();
    let mut i: usize = 0;
    assert(chars@.take(0) == Seq::<char>::empty());
    while i < chars.len()
        invariant
            i <= chars@.len(),
            chars@ == name@,
            out@ == pinyin_initials(chars@.take(i as int)),
        decreases chars@.len() - i,
    {
        let c = chars[i];
        assert(chars@.take(i + 1).drop_last() == chars@.take(i as int));
        match char_plain_pinyin(c) {
            Some(p) => {
                let pc = chars_of(p.as_str());
                if pc.len() > 0 {
                    push_char(&mut out, pc[0]);
                }
            },
            None => {},
        }
        i = i + 1;
    }
    assert(chars@.take(chars@.len() as int) == chars@);
    out
}

} // verus!
