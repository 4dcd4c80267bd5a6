use crate::order::{lemma_lex_irreflexive, lemma_lex_transitive, lex_less, str_less};
use crate::scheme::{pinyin_initials, to_pinyin_initials, HeroScheme};
use crate::text::{
    chars_of, contains_chars, contains_seq, is_ascii_graphic, lowercase_of, push_char, same_text,
    to_lowercase, with_char, without_last_char,
};
use crate::ui::search::{NavKey, PopupAction};
use vstd::prelude::*;

verus! {

/// One row of the search list.
#[derive(Debug, Clone)]
pub struct ResultRow {
    pub hero_name: String,
    pub skin_name: String,
    pub display_name: String,
    /// How many skins the hero has: its number of schemes.
    pub skin_count: usize,
}

/// A row as the ordering sees it: hero name, skin label, display name.
pub type RowView = (Seq<char>, Seq<char>, Seq<char>);

/// The label of a scheme without a skin: "原皮", the default skin.
pub open spec fn default_skin() -> Seq<char> {
    seq!['原', '皮']
}

/// The label that a scheme's row shows for its skin.
pub open spec fn skin_label(s: HeroScheme) -> Seq<char> {
    match s.skin_name {
        Option::Some(k) => k@,
        Option::None => default_skin(),
    }
}

/// The row of a scheme.
pub open spec fn scheme_row(s: HeroScheme) -> RowView {
    (s.hero_name@, skin_label(s), s.display_name@)
}

/// The lower-cased pinyin initials of a name.
pub open spec fn initials_lower(name: Seq<char>) -> Seq<char> {
    lowercase_of(pinyin_initials(name))
}

/// A scheme matches the lower-cased query `q`: the query is empty, or it
/// occurs in the hero name, in the lower-cased pinyin initials of the hero
/// name, or in the skin name; in the `wide` search, as the flat list makes
/// it, also in the display name or in the lower-cased pinyin initials of
/// the skin name.
pub open spec fn scheme_matches(s: HeroScheme, q: Seq<char>, wide: bool) -> bool {
    ||| q.len() == 0
    ||| contains_seq(s.hero_name@, q)
    ||| contains_seq(initials_lower(s.hero_name@), q)
    ||| (wide && contains_seq(s.display_name@, q))
    ||| (wide && (s.skin_name matches Option::Some(k) && contains_seq(initials_lower(k@), q)))
    ||| (s.skin_name matches Option::Some(k) && contains_seq(k@, q))
}

/// The rows of the matching schemes, in the order the schemes are given.
pub open spec fn candidates(s: Seq<HeroScheme>, q: Seq<char>, wide: bool) -> Seq<RowView>
    decreases s.len(),
{
    if s.len() == 0 {
        Seq::empty()
    } else if scheme_matches(s.last(), q, wide) {
        candidates(s.drop_last(), q, wide).push(scheme_row(s.last()))
    } else {
        candidates(s.drop_last(), q, wide)
    }
}

/// Row `x` goes strictly before row `y`: by hero name, then the default
/// skin first, then by skin name.
pub open spec fn row_before(x: RowView, y: RowView) -> bool {
    ||| lex_less(x.0, y.0)
    ||| (x.0 == y.0 && x.1 == default_skin() && y.1 != default_skin())
    ||| (x.0 == y.0 && (x.1 == default_skin()) == (y.1 == default_skin()) && lex_less(x.1, y.1))
}

/// Where a stable sort puts `x` among the sorted rows `s`: after every row
/// that does not come after it.
pub open spec fn ins_pos(s: Seq<RowView>, x: RowView) -> int
    decreases s.len(),
{
    if s.len() == 0 {
        0
    } else if row_before(x, s[0]) {
        0
    } else {
        1 + ins_pos(s.drop_first(), x)
    }
}

/// The rows sorted stably, as `sort_by` with the row order sorts them.
pub open spec fn sort_rows(s: Seq<RowView>) -> Seq<RowView>
    decreases s.len(),
{
    if s.len() == 0 {
        s
    } else {
        let t = sort_rows(s.drop_last());
        t.insert(ins_pos(t, s.last()), s.last())
    }
}

/// `s` is in row order.
pub open spec fn rows_sorted(s: Seq<RowView>) -> bool {
    forall|i: int, j: int| 0 <= i < j < s.len() ==> !row_before(#[trigger] s[j], #[trigger] s[i])
}

/// How many of the schemes are for hero `h`: the hero's number of skins.
pub open spec fn scheme_count(s: Seq<HeroScheme>, h: Seq<char>) -> nat
    decreases s.len(),
{
    if s.len() == 0 {
        0
    } else {
        scheme_count(s.drop_last(), h) + if s.last().hero_name@ == h {
            1nat
        } else {
            0nat
        }
    }
}

/// A row of the list belongs to a hero that has a scheme.
proof fn lemma_candidate_has_scheme(s: Seq<HeroScheme>, q: Seq<char>, wide: bool, x: RowView)
    requires
        candidates(s, q, wide).contains(x),
    ensures
        scheme_count(s, x.0) >= 1,
    decreases s.len(),
{
    if s.len() > 0 {
        let c = candidates(s.drop_last(), q, wide);
        if scheme_matches(s.last(), q, wide) && x == scheme_row(s.last()) {
        } else {
            if scheme_matches(s.last(), q, wide) {
                let i = choose|i: int| 0 <= i < c.len() + 1 && #[trigger] c.push(scheme_row(s.last()))[i] == x;
                assert(i < c.len());
                assert(c[i] == x);
            }
            assert(c.contains(x));
            lemma_candidate_has_scheme(s.drop_last(), q, wide, x);
        }
    }
}

/// The row a `ResultRow` shows.
pub open spec fn result_view(r: ResultRow) -> RowView {
    (r.hero_name@, r.skin_name@, r.display_name@)
}

/// The rows that a list of `ResultRow`s shows.
pub open spec fn result_views(v: Seq<ResultRow>) -> Seq<RowView> {
    v.map_values(|r: ResultRow| result_view(r))
}

/// The schemes behind the references.
pub open spec fn deref_all(s: Seq<&HeroScheme>) -> Seq<HeroScheme> {
    s.map_values(|r: &HeroScheme| *r)
}

proof fn lemma_row_irreflexive(x: RowView)
    ensures
        !row_before(x, x),
{
    lemma_lex_irreflexive(x.0);
    lemma_lex_irreflexive(x.1);
}

proof fn lemma_row_transitive(x: RowView, y: RowView, z: RowView)
    requires
        row_before(x, y),
        row_before(y, z),
    ensures
        row_before(x, z),
{
    if lex_less(x.0, y.0) && lex_less(y.0, z.0) {
        lemma_lex_transitive(x.0, y.0, z.0);
    }
    if x.0 == y.0 && y.0 == z.0 {
        if lex_less(x.1, y.1) && lex_less(y.1, z.1) {
            lemma_lex_transitive(x.1, y.1, z.1);
        }
        if lex_less(x.1, y.1) && x.1 == default_skin() && y.1 == default_skin() {
            lemma_lex_irreflexive(x.1);
        }
        if lex_less(y.1, z.1) && y.1 == default_skin() && z.1 == default_skin() {
            lemma_lex_irreflexive(y.1);
        }
    }
}

proof fn lemma_ins_pos(s: Seq<RowView>, x: RowView)
    ensures
        0 <= ins_pos(s, x) <= s.len(),
        forall|j: int| 0 <= j < ins_pos(s, x) ==> !row_before(x, #[trigger] s[j]),
        ins_pos(s, x) < s.len() ==> row_before(x, s[ins_pos(s, x)]),
    decreases s.len(),
{
    if s.len() > 0 && !row_before(x, s[0]) {
        lemma_ins_pos(s.drop_first(), x);
        assert forall|j: int| 0 <= j < ins_pos(s, x) implies !row_before(x, #[trigger] s[j]) by {
            if j > 0 {
                assert(s[j] == s.drop_first()[j - 1]);
            }
        }
    }
}

proof fn lemma_ins_pos_unique(s: Seq<RowView>, x: RowView, k: int)
    requires
        0 <= k <= s.len(),
        forall|j: int| 0 <= j < k ==> !row_before(x, #[trigger] s[j]),
        k < s.len() ==> row_before(x, s[k]),
    ensures
        ins_pos(s, x) == k,
    decreases s.len(),
{
    if s.len() > 0 && k > 0 {
        assert(!row_before(x, s[0]));
        assert forall|j: int| 0 <= j < k - 1 implies !row_before(x, #[trigger] s.drop_first()[j]) by {
            assert(s.drop_first()[j] == s[j + 1]);
        }
        lemma_ins_pos_unique(s.drop_first(), x, k - 1);
    }
}

proof fn lemma_insert_keeps_sorted(s: Seq<RowView>, x: RowView)
    requires
        rows_sorted(s),
    ensures
        rows_sorted(s.insert(ins_pos(s, x), x)),
{
    let p = ins_pos(s, x);
    lemma_ins_pos(s, x);
    let t = s.insert(p, x);
    assert forall|i: int, j: int| 0 <= i < j < t.len() implies !row_before(
        #[trigger] t[j],
        #[trigger] t[i],
    ) by {
        if j < p {
            assert(t[i] == s[i] && t[j] == s[j]);
        } else if j == p {
            assert(t[i] == s[i]);
        } else if i == p {
            assert(t[j] == s[j - 1]);
            if row_before(s[j - 1], x) {
                lemma_row_transitive(s[j - 1], x, s[p]);
                if j - 1 == p {
                    lemma_row_irreflexive(s[p]);
                }
            }
        } else if i < p {
            assert(t[i] == s[i] && t[j] == s[j - 1]);
        } else {
            assert(t[i] == s[i - 1] && t[j] == s[j - 1]);
        }
    }
}

/// Sorting puts the rows in row order.
pub proof fn lemma_sort_rows_sorted(s: Seq<RowView>)
    ensures
        rows_sorted(sort_rows(s)),
    decreases s.len(),
{
    if s.len() > 0 {
        lemma_sort_rows_sorted(s.drop_last());
        lemma_insert_keeps_sorted(sort_rows(s.drop_last()), s.last());
    }
}

/// Sorting neither loses, adds nor repeats a row.
pub proof fn lemma_sort_rows_permutes(s: Seq<RowView>)
    ensures
        sort_rows(s).to_multiset() == s.to_multiset(),
    decreases s.len(),
{
    broadcast use vstd::seq_lib::group_to_multiset_ensures;

    if s.len() > 0 {
        lemma_sort_rows_permutes(s.drop_last());
        let t = sort_rows(s.drop_last());
        lemma_ins_pos(t, s.last());
        vstd::seq_lib::to_multiset_insert(t, ins_pos(t, s.last()), s.last());
        assert(s.drop_last().push(s.last()) == s);
    } else {
        assert(sort_rows(s) == s);
    }
}

proof fn lemma_matching_in_candidates(s: Seq<HeroScheme>, q: Seq<char>, wide: bool, i: int)
    requires
        0 <= i < s.len(),
        scheme_matches(s[i], q, wide),
    ensures
        candidates(s, q, wide).contains(scheme_row(s[i])),
    decreases s.len(),
{
    let c = candidates(s.drop_last(), q, wide);
    if i == s.len() - 1 {
        assert(candidates(s, q, wide) == c.push(scheme_row(s[i])));
        assert(candidates(s, q, wide)[c.len() as int] == scheme_row(s[i]));
    } else {
        assert(s.drop_last()[i] == s[i]);
        lemma_matching_in_candidates(s.drop_last(), q, wide, i);
        let k = choose|k: int| 0 <= k < c.len() && c[k] == scheme_row(s[i]);
        if scheme_matches(s.last(), q, wide) {
            assert(candidates(s, q, wide)[k] == scheme_row(s[i]));
        }
    }
}

proof fn lemma_candidate_from_matching(s: Seq<HeroScheme>, q: Seq<char>, wide: bool, x: RowView)
    requires
        candidates(s, q, wide).contains(x),
    ensures
        exists|i: int| 0 <= i < s.len() && scheme_row(s[i]) == x && scheme_matches(s[i], q, wide),
    decreases s.len(),
{
    let c = candidates(s.drop_last(), q, wide);
    if scheme_matches(s.last(), q, wide) && x == scheme_row(s.last()) {
        assert(scheme_row(s[s.len() - 1]) == x);
    } else {
        if scheme_matches(s.last(), q, wide) {
            let k = choose|k: int| 0 <= k < c.len() + 1 && #[trigger] c.push(scheme_row(s.last()))[k] == x;
            assert(k < c.len());
            assert(c[k] == x);
        }
        assert(c.contains(x));
        lemma_candidate_from_matching(s.drop_last(), q, wide, x);
        let i = choose|i: int|
            0 <= i < s.drop_last().len() && scheme_row(s.drop_last()[i]) == x && scheme_matches(
                s.drop_last()[i],
                q,
                wide,
            );
        assert(s[i] == s.drop_last()[i]);
    }
}

/// A scheme is listed (its row is in the sorted list), in the flat list and
/// the two-column list alike, when the lower-cased query is empty or occurs
/// in its hero name, in its skin name, or in the lower-cased pinyin
/// initials of its hero name; the flat (`wide`) list also lists it when the
/// query occurs in its display name or in the lower-cased pinyin initials of
/// its skin name.
pub proof fn lemma_matching_scheme_listed(s: Seq<HeroScheme>, q: Seq<char>, wide: bool, i: int)
    requires
        0 <= i < s.len(),
        q.len() == 0 || contains_seq(s[i].hero_name@, q) || (s[i].skin_name matches Option::Some(
            k,
        ) && contains_seq(k@, q)) || contains_seq(lowercase_of(pinyin_initials(s[i].hero_name@)), q)
            || (wide && contains_seq(s[i].display_name@, q)) || (wide && (
        s[i].skin_name matches Option::Some(k) && contains_seq(lowercase_of(pinyin_initials(k@)), q))),
    ensures
        sort_rows(candidates(s, q, wide)).contains(
            (
                s[i].hero_name@,
                match s[i].skin_name {
                    Option::Some(k) => k@,
                    Option::None => seq!['原', '皮'],
                },
                s[i].display_name@,
            ),
        ),
{
    broadcast use vstd::seq_lib::group_to_multiset_ensures;

    lemma_matching_in_candidates(s, q, wide, i);
    lemma_sort_rows_permutes(candidates(s, q, wide));
    let x = scheme_row(s[i]);
    assert(candidates(s, q, wide).to_multiset().count(x) > 0);
    assert(sort_rows(candidates(s, q, wide)).to_multiset().count(x) > 0);
}

/// Every listed row is the row of a given scheme that the query picks out:
/// the query is empty or occurs in the hero name, the skin name or the
/// lower-cased pinyin initials of the hero name, or, in the `wide` list, in
/// the display name or the lower-cased pinyin initials of the skin name.
pub proof fn lemma_listed_row_matches(s: Seq<HeroScheme>, q: Seq<char>, wide: bool, x: RowView)
    requires
        sort_rows(candidates(s, q, wide)).contains(x),
    ensures
        exists|i: int|
            0 <= i < s.len() && x.0 == s[i].hero_name@ && x.2 == s[i].display_name@ && (
            q.len() == 0 || contains_seq(s[i].hero_name@, q) || (
            s[i].skin_name matches Option::Some(k) && contains_seq(k@, q)) || contains_seq(
                lowercase_of(pinyin_initials(s[i].hero_name@)),
                q,
            ) || (wide && contains_seq(s[i].display_name@, q)) || (wide && (
            s[i].skin_name matches Option::Some(k) && contains_seq(
                lowercase_of(pinyin_initials(k@)),
                q,
            )))),
{
    broadcast use vstd::seq_lib::group_to_multiset_ensures;

    lemma_sort_rows_permutes(candidates(s, q, wide));
    assert(sort_rows(candidates(s, q, wide)).to_multiset().count(x) > 0);
    assert(candidates(s, q, wide).to_multiset().count(x) > 0);
    lemma_candidate_from_matching(s, q, wide, x);
}

/// The default skin's label.
fn default_skin_name() -> (res: String)
    ensures
        res@ == default_skin(),
{
    let mut s = String::new();
    push_char(&mut s, '原');
    push_char(&mut s, '皮');
    s
}

fn is_default_skin(skin: &str) -> (res: bool)
    ensures
        res == (skin@ == default_skin()),
{
    let d = default_skin_name();
    same_text(skin, d.as_str())
}

/// Whether row `a` goes strictly before row `b`.
pub fn row_goes_before(a: &ResultRow, b: &ResultRow) -> (res: bool)
    ensures
        res == row_before(result_view(*a), result_view(*b)),
{
    if str_less(a.hero_name.as_str(), b.hero_name.as_str()) {
        return true;
    }
    if !same_text(a.hero_name.as_str(), b.hero_name.as_str()) {
        return false;
    }
    let ad = is_default_skin(a.skin_name.as_str());
    let bd = is_default_skin(b.skin_name.as_str());
    if ad && !bd {
        return true;
    }
    if ad != bd {
        return false;
    }
    str_less(a.skin_name.as_str(), b.skin_name.as_str())
}

/// Puts `row` into the sorted rows where a stable sort puts it.
fn insert_sorted(rows: &mut Vec<ResultRow>, row: ResultRow)
    ensures
        result_views(final(rows)@) == result_views(old(rows)@).insert(
            ins_pos(result_views(old(rows)@), result_view(row)),
            result_view(row),
        ),
{
    let ghost v = result_views(rows@);
    let ghost x = result_view(row);
    let mut k: usize = 0;
    while k < rows.len() && !row_goes_before(&row, &rows[k])
        invariant
            k <= rows@.len(),
            v == result_views(rows@),
            x == result_view(row),
            forall|j: int| 0 <= j < k ==> !row_before(x, #[trigger] v[j]),
        decreases rows@.len() - k,
    {
        k = k + 1;
    }
    proof {
        lemma_ins_pos_unique(v, x, k as int);
    }
    rows.insert(k, row);
    assert(result_views(rows@) == v.insert(k as int, x));
}

fn initials_contain(name: &str, q: &Vec<char>) -> (res: bool)
    ensures
        res == contains_seq(initials_lower(name@), q@),
{
    let initials = to_pinyin_initials(name);
    let lower = to_lowercase(initials.as_str());
    let chars = chars_of(lower.as_str());
    contains_chars(&chars, q)
}

fn scheme_matches_query(s: &HeroScheme, q: &Vec<char>, wide: bool) -> (res: bool)
    ensures
        res == scheme_matches(*s, q@, wide),
{
    if q.len() == 0 {
        return true;
    }
    let hero = chars_of(s.hero_name.as_str());
    if contains_chars(&hero, q) {
        return true;
    }
    if initials_contain(s.hero_name.as_str(), q) {
        return true;
    }
    if wide {
        let display = chars_of(s.display_name.as_str());
        if contains_chars(&display, q) {
            return true;
        }
        match &s.skin_name {
            Some(k) => {
                if initials_contain(k.as_str(), q) {
                    return true;
                }
            },
            None => {},
        }
    }
    match &s.skin_name {
        Some(k) => {
            let skin = chars_of(k.as_str());
            contains_chars(&skin, q)
        },
        None => false,
    }
}

fn row_of(s: &HeroScheme) -> (res: ResultRow)
    ensures
        result_view(res) == scheme_row(*s),
        res.skin_count == 0,
{
    let skin = match &s.skin_name {
        Some(k) => k.clone(),
        None => default_skin_name(),
    };
    ResultRow {
        hero_name: s.hero_name.clone(),
        skin_name: skin,
        display_name: s.display_name.clone(),
        skin_count: 0,
    }
}

/// The matching schemes' rows in row order, as a stable sort leaves them.
pub fn sorted_rows(schemes: &[&HeroScheme], q: &Vec<char>, wide: bool) -> (res: Vec<ResultRow>)
    ensures
        result_views(res@) == sort_rows(candidates(deref_all(schemes@), q@, wide)),
{
    let mut rows: Vec<ResultRow> = Vec::new();
    let ghost all = deref_all(schemes@);
    let mut i: usize = 0;
    assert(all.take(0) == Seq::<HeroScheme>::empty());
    while i < schemes.len()
        invariant
            i <= schemes@.len(),
            all == deref_all(schemes@),
            result_views(rows@) == sort_rows(candidates(all.take(i as int), q@, wide)),
        decreases schemes@.len() - i,
    {
        let s: &HeroScheme = schemes[i];
        assert(all.take(i + 1).drop_last() == all.take(i as int));
        assert(all.take(i + 1).last() == *s);
        let ghost c = candidates(all.take(i as int), q@, wide);
        if scheme_matches_query(s, q, wide) {
            let row = row_of(s);
            assert(candidates(all.take(i + 1), q@, wide) == c.push(scheme_row(*s)));
            assert(c.push(scheme_row(*s)).drop_last() == c);
            insert_sorted(&mut rows, row);
        }
        i = i + 1;
    }
    assert(all.take(schemes@.len() as int) == all);
    rows
}

/// The search list of the flat popup: the schemes matching the query
/// (lower-cased; in the hero, display or skin name, or in the pinyin
/// initials of the hero or skin name), sorted by hero name, the default
/// skin first, then by skin name; each row holds its hero's number of
/// skins among all the given schemes.
pub fn build_rows(schemes: &[&HeroScheme], input: &str) -> (res: Vec<ResultRow>)
    ensures
        result_views(res@) == sort_rows(candidates(deref_all(schemes@), lowercase_of(input@), true)),
        forall|i: int|
            0 <= i < res@.len() ==> #[trigger] res@[i].skin_count == scheme_count(
                deref_all(schemes@),
                res@[i].hero_name@,
            ) && res@[i].skin_count >= 1,
        rows_sorted(result_views(res@)),
        result_views(res@).to_multiset() == candidates(
            deref_all(schemes@),
            lowercase_of(input@),
            true,
        ).to_multiset(),
{
    let lower = to_lowercase(input);
    let q = chars_of(lower.as_str());
    let mut rows = sorted_rows(schemes, &q, true);
    let ghost v = result_views(rows@);
    proof {
        lemma_sort_rows_sorted(candidates(deref_all(schemes@), q@, true));
        lemma_sort_rows_permutes(candidates(deref_all(schemes@), q@, true));
    }
    let ghost all = deref_all(schemes@);
    let ghost c = candidates(all, q@, true);
    let n = rows.len();
    let m = schemes.len();
    let mut i: usize = 0;
    while i < n
        invariant
            n == rows@.len(),
            m == schemes@.len(),
            i <= n,
            all == deref_all(schemes@),
            v == result_views(rows@),
            v.to_multiset() == c.to_multiset(),
            c == candidates(all, q@, true),
            forall|j: int|
                0 <= j < i ==> #[trigger] rows@[j].skin_count == scheme_count(all, rows@[j].hero_name@)
                    && rows@[j].skin_count >= 1,
        decreases n - i,
    {
        let mut count: usize = 0;
        let mut k: usize = 0;
        assert(all.take(0) == Seq::<HeroScheme>::empty());
        while k < m
            invariant
                n == rows@.len(),
                m == schemes@.len(),
                all == deref_all(schemes@),
                i < n,
                k <= m,
                count <= k,
                count == scheme_count(all.take(k as int), rows@[i as int].hero_name@),
            decreases m - k,
        {
            assert(all.take(k + 1).drop_last() == all.take(k as int));
            assert(all.take(k + 1).last() == *schemes[k as int]);
            if same_text(schemes[k].hero_name.as_str(), rows[i].hero_name.as_str()) {
                count = count + 1;
            }
            k = k + 1;
        }
        assert(all.take(m as int) == all);
        proof {
            let x = v[i as int];
            v.to_multiset_ensures();
            c.to_multiset_ensures();
            assert(v.contains(x));
            assert(v.to_multiset().count(x) > 0);
            assert(c.to_multiset().count(x) > 0);
            assert(c.contains(x));
            lemma_candidate_has_scheme(all, q@, true, x);
        }
        let ghost before = rows@;
        rows[i].skin_count = count;
        assert forall|j: int| 0 <= j < n implies #[trigger] result_view(rows@[j]) == result_view(
            before[j],
        ) by {}
        assert(result_views(rows@) == v);
        i = i + 1;
    }
    rows
}

/// The state of the flat search popup: the query, its rows and the row
/// under the cursor.
pub struct SearchPopup {
    pub input: String,
    pub rows: Vec<ResultRow>,
    pub selected: usize,
}

/// `a` is the action `Confirm` with display name `name`.
pub open spec fn confirms_name(a: PopupAction, name: Seq<char>) -> bool {
    a matches PopupAction::Confirm(n) && n@ == name
}

/// What confirming does: the row under the cursor is chosen, if there is one.
pub open spec fn confirm_spec(st: SearchPopup, action: PopupAction) -> bool {
    if st.selected < st.rows@.len() {
        confirms_name(action, st.rows@[st.selected as int].display_name@)
    } else {
        action is Nothing
    }
}

/// The rows were rebuilt for the current query and the cursor put on the
/// first row.
pub open spec fn rows_refreshed(st: SearchPopup, schemes: Seq<&HeroScheme>) -> bool {
    &&& result_views(st.rows@) == sort_rows(
        candidates(deref_all(schemes), lowercase_of(st.input@), true),
    )
    &&& forall|i: int|
        0 <= i < st.rows@.len() ==> #[trigger] st.rows@[i].skin_count == scheme_count(
            deref_all(schemes),
            st.rows@[i].hero_name@,
        ) && st.rows@[i].skin_count >= 1
    &&& st.selected == 0
}

/// Nothing that the popup shows changed.
pub open spec fn unchanged(a: SearchPopup, b: SearchPopup) -> bool {
    a.input@ == b.input@ && a.rows == b.rows && a.selected == b.selected
}

/// What a typed character does: Backspace drops the last character of the
/// query, Escape hides, Enter confirms, a printable ASCII character or a
/// space is added to the query; after an edit the rows are rebuilt.  Other
/// characters do nothing.
pub open spec fn flat_char_spec(
    old: SearchPopup,
    new: SearchPopup,
    c: char,
    schemes: Seq<&HeroScheme>,
    action: PopupAction,
) -> bool {
    &&& c == '\u{8}' ==> action is Redraw && new.input@ == (if old.input@.len() == 0 {
        old.input@
    } else {
        old.input@.drop_last()
    }) && rows_refreshed(new, schemes)
    &&& c == '\u{1b}' ==> action is Hide && unchanged(old, new)
    &&& c == '\r' ==> confirm_spec(old, action) && unchanged(old, new)
    &&& (is_ascii_graphic(c) || c == ' ') ==> action is Redraw && new.input@ == old.input@.push(c)
        && rows_refreshed(new, schemes)
    &&& !(c == '\u{1b}' || c == '\r' || c == '\u{8}' || is_ascii_graphic(c) || c == ' ')
        ==> action is Nothing && unchanged(old, new)
}

/// Typing a character into the query and erasing it gives back the query,
/// with the rows rebuilt for it and the cursor on the first row.
pub proof fn lemma_flat_type_then_erase(
    o: SearchPopup,
    m: SearchPopup,
    n: SearchPopup,
    c: char,
    schemes: Seq<&HeroScheme>,
    typed: PopupAction,
    erased: PopupAction,
)
    requires
        is_ascii_graphic(c) || c == ' ',
        flat_char_spec(o, m, c, schemes, typed),
        flat_char_spec(m, n, '\u{8}', schemes, erased),
    ensures
        n.input@ == o.input@,
        rows_refreshed(n, schemes),
        typed is Redraw && erased is Redraw,
{
    assert(m.input@.len() > 0);
    assert(m.input@.drop_last() =~= o.input@);
}

impl SearchPopup {
    /// No query, no rows.
    pub fn new() -> (res: Self)
        ensures
            res.input@.len() == 0,
            res.rows@.len() == 0,
            res.selected == 0,
    {
        SearchPopup { input: String::new(), rows: Vec::new(), selected: 0 }
    }

    fn refresh(&mut self, schemes: &[&HeroScheme])
        ensures
            rows_refreshed(*final(self), schemes@),
            final(self).input@ == old(self).input@,
    {
        self.rows = build_rows(schemes, self.input.as_str());
        self.selected = 0;
    }

    /// Opens the popup afresh with an empty query.
    pub fn show(&mut self, schemes: &[&HeroScheme])
        ensures
            final(self).input@.len() == 0,
            rows_refreshed(*final(self), schemes@),
    {
        self.input = String::new();
        self.refresh(schemes);
    }

    /// The display name of the row under the cursor.
    pub fn confirm_selection(&self) -> (action: PopupAction)
        ensures
            confirm_spec(*self, action),
    {
        if self.selected < self.rows.len() {
            PopupAction::Confirm(self.rows[self.selected].display_name.clone())
        } else {
            PopupAction::Nothing
        }
    }

    /// Handles a navigation key: Up and Down move the cursor within the
    /// rows, Enter confirms, Escape hides.
    pub fn on_key(&mut self, key: NavKey) -> (action: PopupAction)
        ensures
            final(self).input@ == old(self).input@,
            final(self).rows == old(self).rows,
            old(self).selected < old(self).rows@.len() ==> final(self).selected < final(self).rows@.len(),
            match key {
                NavKey::Up => if old(self).selected > 0 {
                    action is Redraw && final(self).selected == old(self).selected - 1
                } else {
                    action is Nothing && final(self).selected == old(self).selected
                },
                NavKey::Down => if old(self).selected + 1 < old(self).rows@.len() {
                    action is Redraw && final(self).selected == old(self).selected + 1
                } else {
                    action is Nothing && final(self).selected == old(self).selected
                },
                NavKey::Enter => confirm_spec(*old(self), action) && final(self).selected == old(
                    self,
                ).selected,
                NavKey::Escape => action is Hide && final(self).selected == old(self).selected,
                _ => action is Nothing && final(self).selected == old(self).selected,
            },
    {
        match key {
            NavKey::Up => {
                if self.selected > 0 {
                    self.selected = self.selected - 1;
                    PopupAction::Redraw
                } else {
                    PopupAction::Nothing
                }
            },
            NavKey::Down => {
                if self.selected < self.rows.len() && self.selected + 1 < self.rows.len() {
                    self.selected = self.selected + 1;
                    PopupAction::Redraw
                } else {
                    PopupAction::Nothing
                }
            },
            NavKey::Enter => self.confirm_selection(),
            NavKey::Escape => PopupAction::Hide,
            _ => PopupAction::Nothing,
        }
    }

    /// Handles a typed character, as `flat_char_spec` says.
    pub fn on_char(&mut self, c: char, schemes: &[&HeroScheme]) -> (action: PopupAction)
        ensures
            flat_char_spec(*old(self), *final(self), c, schemes@, action),
    {
        if c == '\u{8}' {
            self.input = without_last_char(&self.input);
        } else if c == '\u{1b}' {
            return PopupAction::Hide;
        } else if c == '\r' {
            return self.confirm_selection();
        } else if ('!' <= c && c <= '~') || c == ' ' {
            self.input = with_char(&self.input, c);
        } else {
            return PopupAction::Nothing;
        }
        self.refresh(schemes);
        PopupAction::Redraw
    }
}

/// A line of the list to paint: the hero name on the first line of each
/// hero's group, the skin text, whether the cursor is on it, and whether it
/// gets the darker background of alternate lines.
pub struct ListLine {
    pub hero: Option<String>,
    pub skin: String,
    pub selected: bool,
    pub striped: bool,
}

/// A painted line as plain values.
pub open spec fn list_line_view(l: ListLine) -> (Option<Seq<char>>, Seq<char>, bool, bool) {
    (
        match l.hero {
            Some(h) => Some(h@),
            None => None,
        },
        l.skin@,
        l.selected,
        l.striped,
    )
}

/// The painted lines as plain values.
pub open spec fn list_line_views(v: Seq<ListLine>) -> Seq<(Option<Seq<char>>, Seq<char>, bool, bool)> {
    v.map_values(|l: ListLine| list_line_view(l))
}

/// The skin text of a row: blank for the default skin of a hero that has
/// no other skin, else the skin name.
pub open spec fn skin_text(r: ResultRow) -> Seq<char> {
    if r.skin_name@ == default_skin() && r.skin_count <= 1 {
        Seq::empty()
    } else {
        r.skin_name@
    }
}

/// What the list paints: one line per row; the hero name where it differs
/// from the row above (the first row is compared with an empty name); the
/// cursor's row highlighted, and every other row from the first on the
/// darker background.
pub open spec fn list_spec(st: SearchPopup) -> Seq<(Option<Seq<char>>, Seq<char>, bool, bool)> {
    let rows = st.rows@;
    Seq::new(
        rows.len(),
        |i: int|
            {
                let above = if i == 0 {
                    Seq::<char>::empty()
                } else {
                    rows[i - 1].hero_name@
                };
                (
                    if rows[i].hero_name@ != above {
                        Some(rows[i].hero_name@)
                    } else {
                        None
                    },
                    skin_text(rows[i]),
                    i == st.selected,
                    i != st.selected && i % 2 == 0,
                )
            },
    )
}

impl SearchPopup {
    /// The text of the input box and whether it is the grey hint shown in
    /// place of an empty query.
    pub fn input_line(&self) -> (res: (String, bool))
        ensures
            res.1 == (self.input@.len() == 0),
            res.1 ==> res.0@ == "输入拼音首字母搜索..."@,
            !res.1 ==> res.0@ == self.input@,
    {
        if self.input.as_str().is_empty() {
            ("输入拼音首字母搜索...".to_owned(), true)
        } else {
            (self.input.clone(), false)
        }
    }

    /// The lines of the list, top to bottom.
    pub fn list_lines(&self) -> (lines: Vec<ListLine>)
        ensures
            list_line_views(lines@) == list_spec(*self),
    {
        let ghost spec = list_spec(*self);
        let mut lines: Vec<ListLine> = Vec::new();
        let n = self.rows.len();
        let mut i: usize = 0;
        while i < n
            invariant
                n == self.rows@.len(),
                i <= n,
                spec == list_spec(*self),
                list_line_views(lines@) == spec.take(i as int),
            decreases n - i,
        {
            let row = &self.rows[i];
            let first = if i == 0 {
                !row.hero_name.as_str().is_empty()
            } else {
                !same_text(row.hero_name.as_str(), self.rows[i - 1].hero_name.as_str())
            };
            let hero = if first {
                Some(row.hero_name.clone())
            } else {
                None
            };
            let skin = if is_default_skin(row.skin_name.as_str()) && row.skin_count <= 1 {
                String::new()
            } else {
                row.skin_name.clone()
            };
            let selected = i == self.selected;
            let line = ListLine { hero, skin, selected, striped: !selected && i % 2 == 0 };
            let ghost old_lines = lines@;
            lines.push(line);
            proof {
                assert(list_line_views(lines@) == list_line_views(old_lines).push(
                    list_line_view(line),
                ));
                assert(spec.take(i + 1) == spec.take(i as int).push(spec[i as int]));
                if i == 0 {
                    if row.hero_name@.len() == 0 {
                        assert(row.hero_name@ =~= Seq::<char>::empty());
                    }
                }
            }
            i = i + 1;
        }
        assert(spec.take(n as int) == spec);
        lines
    }
}

} // verus!
