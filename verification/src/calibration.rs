use crate::scheme::{lists_all, match_spec, HeroScheme, SchemeManager};
use crate::search::{build_rows, candidates, result_views, sort_rows, RowView};
use crate::sender::views;
use crate::text::lowercase_of;
use vstd::prelude::*;

verus! {

/// Which scheme is active, set from the confirmation page or by hand.
pub struct Calibration {
    /// The display name of the active scheme.
    pub active_scheme: Option<String>,
    /// Whether a search for a scheme is under way.
    pub searching: bool,
}

/// The characters of an optional string.
pub open spec fn opt_view(o: Option<String>) -> Option<Seq<char>> {
    match o {
        Option::Some(s) => Option::Some(s@),
        Option::None => Option::None,
    }
}

/// The display names that a search lists for a query, when the schemes
/// are handed over in `order`.
pub open spec fn search_spec(order: Seq<HeroScheme>, input: Seq<char>) -> Seq<Seq<char>> {
    sort_rows(candidates(order, lowercase_of(input), true)).map_values(|r: RowView| r.2)
}

impl Calibration {
    /// Nothing active, no search.
    pub fn new() -> (res: Self)
        ensures
            res.active_scheme is None,
            !res.searching,
    {
        Calibration { active_scheme: None, searching: false }
    }

    /// Calibrates from the skin and hero read on the confirmation page: the
    /// scheme that `match_scheme` finds becomes active and its display name
    /// is returned; when none is found nothing changes.
    pub fn auto_calibrate(&mut self, skin_name: &str, hero_name: &str, schemes: &SchemeManager) -> (res: Option<String>)
        ensures
            match match_spec(schemes.scheme_map(), schemes.hero_map(), skin_name@, hero_name@) {
                Option::Some(x) => {
                    &&& opt_view(res) == Option::Some(x.display_name@)
                    &&& opt_view(final(self).active_scheme) == Option::Some(x.display_name@)
                },
                Option::None => {
                    &&& res is None
                    &&& final(self).active_scheme == old(self).active_scheme
                },
            },
            final(self).searching == old(self).searching,
    {
        let matched = schemes.match_scheme(skin_name, hero_name);
        match matched {
            Some(s) => {
                let name = s.display_name.clone();
                self.active_scheme = Some(name.clone());
                Some(name)
            },
            None => None,
        }
    }

    /// The display names that a manual search lists for `input`, in list
    /// order.
    pub fn search(&self, input: &str, schemes: &SchemeManager) -> (res: Vec<String>)
        ensures
            exists|order: Seq<HeroScheme>|
                lists_all(schemes.scheme_map(), order) && views(res@) == search_spec(order, input@),
    {
        let all = schemes.all();
        let rows = build_rows(all.as_slice(), input);
        let mut names: Vec<String> = Vec::new();
        let mut i: usize = 0;
        while i < rows.len()
            invariant
                i <= rows@.len(),
                views(names@) == result_views(rows@).take(i as int).map_values(|r: RowView| r.2),
            decreases rows@.len() - i,
        {
            let ghost before = names@;
            let name = rows[i].display_name.clone();
            names.push(name);
            let ghost rv = result_views(rows@);
            assert(rv.take(i + 1) == rv.take(i as int).push(rv[i as int]));
            assert(views(names@) =~= views(before).push(name@));
            assert(rv.take(i + 1).map_values(|r: RowView| r.2) =~= rv.take(i as int).map_values(
                |r: RowView| r.2,
            ).push(rv[i as int].2));
            i = i + 1;
        }
        assert(result_views(rows@).take(rows@.len() as int) == result_views(rows@));
        proof {
            let order = all@.map_values(|r: &HeroScheme| *r);
            assert(lists_all(schemes.scheme_map(), order));
        }
        names
    }

    /// Makes the named scheme active.
    pub fn select(&mut self, name: &str)
        ensures
            opt_view(final(self).active_scheme) == Option::Some(name@),
            final(self).searching == old(self).searching,
    {
        self.active_scheme = Some(String::from_str(name));
    }

    /// The active scheme's display name.
    pub fn current(&self) -> (res: Option<String>)
        ensures
            opt_view(res) == opt_view(self.active_scheme),
    {
        match &self.active_scheme {
            Some(s) => Some(s.clone()),
            None => None,
        }
    }

    /// Makes no scheme active.
    pub fn clear(&mut self)
        ensures
            final(self).active_scheme is None,
            final(self).searching == old(self).searching,
    {
        self.active_scheme = None;
    }
}

} // verus!
