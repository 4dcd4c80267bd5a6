use crate::calibration::{opt_view, Calibration};
use crate::kda::KdaEvent;
use crate::scheme::{match_spec, HeroScheme, SchemeManager, TriggerQuotes};
use crate::text::same_text;
use vstd::prelude::*;

verus! {

/// The page the game shows.
#[derive(Debug, Clone, Copy, PartialEq, Eq, Structural)]
pub enum GamePage {
    /// The hero confirmation page, marked by the blue gem.
    Confirming,
    /// A game under way.
    InGame,
    /// Anything else: menus, lobby, results.
    Inactive,
}

/// What a page change asks of the caller, besides what the detector did
/// itself.
#[derive(Debug, Clone, Copy, PartialEq, Eq, Structural)]
pub enum PageAction {
    /// The page did not change.
    Unchanged,
    /// The confirmation page opened: read the skin and hero names and hand
    /// them to `on_skin_recognized`.
    RecognizeSkin,
    /// The game began after the confirmation page.
    EnteredGame,
    /// A game was already under way when it was first seen.
    ColdStart,
    /// The confirmation page closed without a game; the names were dropped.
    LeftConfirming,
    /// The game ended; the calibration was cleared.
    GameEnded,
    /// Another change, which asks for nothing.
    Other,
}

/// The channel a line is sent to.
#[derive(Debug, Clone, Copy, PartialEq, Eq, Structural)]
pub enum Channel {
    /// The team channel.
    Team,
    /// The channel that all players read.
    All,
}

/// The page shown, from what the screen shows: the gem marks the
/// confirmation page, the in-game marks a game.
pub fn page_from_signals(blue_gem: bool, in_game: bool) -> (res: GamePage)
    ensures
        res == (if blue_gem {
            GamePage::Confirming
        } else if in_game {
            GamePage::InGame
        } else {
            GamePage::Inactive
        }),
{
    if blue_gem {
        return GamePage::Confirming;
    }
    if in_game {
        return GamePage::InGame;
    }
    GamePage::Inactive
}

/// The action of a change from `prev` to `next`.
pub open spec fn action_spec(prev: GamePage, next: GamePage) -> PageAction {
    if prev == next {
        PageAction::Unchanged
    } else if next == GamePage::Confirming {
        PageAction::RecognizeSkin
    } else if prev == GamePage::Confirming && next == GamePage::InGame {
        PageAction::EnteredGame
    } else if prev == GamePage::Inactive && next == GamePage::InGame {
        PageAction::ColdStart
    } else if prev == GamePage::Confirming && next == GamePage::Inactive {
        PageAction::LeftConfirming
    } else if prev == GamePage::InGame && next == GamePage::Inactive {
        PageAction::GameEnded
    } else {
        PageAction::Other
    }
}

/// Seeing the same page again asks for nothing.
pub proof fn lemma_same_page_unchanged(p: GamePage)
    ensures
        action_spec(p, p) == PageAction::Unchanged,
{
}

/// Reaching the confirmation page from any other page asks for the names
/// to be read.
pub proof fn lemma_confirming_reads_names(p: GamePage)
    requires
        p != GamePage::Confirming,
    ensures
        action_spec(p, GamePage::Confirming) == PageAction::RecognizeSkin,
{
}

/// Follows the game's pages and the hero read on the confirmation page.
pub struct PageDetector {
    /// The page last seen.
    pub prev: GamePage,
    /// The hero read on the confirmation page.
    pub current_hero: Option<String>,
    /// The skin read on the confirmation page.
    pub current_skin: Option<String>,
}

impl PageDetector {
    /// Nothing seen yet: the game counts as inactive.
    pub fn new() -> (res: Self)
        ensures
            res.prev == GamePage::Inactive,
            res.current_hero is None,
            res.current_skin is None,
    {
        PageDetector { prev: GamePage::Inactive, current_hero: None, current_skin: None }
    }

    /// Moves to `new_page`.  Leaving the confirmation page for no game drops
    /// the names read there; the end of a game clears the calibration.
    pub fn transition(&mut self, new_page: GamePage, cal: &mut Calibration) -> (action: PageAction)
        ensures
            action == action_spec(old(self).prev, new_page),
            final(self).prev == new_page,
            action == PageAction::LeftConfirming ==> final(self).current_hero is None
                && final(self).current_skin is None,
            action != PageAction::LeftConfirming ==> final(self).current_hero == old(
                self,
            ).current_hero && final(self).current_skin == old(self).current_skin,
            action == PageAction::GameEnded ==> final(cal).active_scheme is None,
            action != PageAction::GameEnded ==> final(cal).active_scheme == old(cal).active_scheme,
            final(cal).searching == old(cal).searching,
    {
        let prev = self.prev;
        if new_page == prev {
            return PageAction::Unchanged;
        }
        let action = if new_page == GamePage::Confirming {
            PageAction::RecognizeSkin
        } else if prev == GamePage::Confirming && new_page == GamePage::InGame {
            PageAction::EnteredGame
        } else if prev == GamePage::Inactive && new_page == GamePage::InGame {
            PageAction::ColdStart
        } else if prev == GamePage::Confirming && new_page == GamePage::Inactive {
            self.current_hero = None;
            self.current_skin = None;
            PageAction::LeftConfirming
        } else if prev == GamePage::InGame && new_page == GamePage::Inactive {
            cal.clear();
            PageAction::GameEnded
        } else {
            PageAction::Other
        };
        self.prev = new_page;
        action
    }

    /// Takes the names read on the confirmation page: they become the
    /// current skin and hero, and the calibration follows them.
    pub fn on_skin_recognized(
        &mut self,
        skin: String,
        hero: String,
        schemes: &SchemeManager,
        cal: &mut Calibration,
    ) -> (res: Option<String>)
        ensures
            opt_view(final(self).current_skin) == Option::Some(skin@),
            opt_view(final(self).current_hero) == Option::Some(hero@),
            final(self).prev == old(self).prev,
            match match_spec(schemes.scheme_map(), schemes.hero_map(), skin@, hero@) {
                Option::Some(x) => {
                    &&& opt_view(res) == Option::Some(x.display_name@)
                    &&& opt_view(final(cal).active_scheme) == Option::Some(x.display_name@)
                },
                Option::None => {
                    &&& res is None
                    &&& final(cal).active_scheme == old(cal).active_scheme
                },
            },
    {
        let res = cal.auto_calibrate(skin.as_str(), hero.as_str(), schemes);
        self.current_skin = Some(skin);
        self.current_hero = Some(hero);
        res
    }

    /// The game window is gone: unless already inactive, the detector
    /// becomes inactive and drops the names.  Says whether anything changed.
    pub fn window_lost(&mut self) -> (changed: bool)
        ensures
            changed == (old(self).prev != GamePage::Inactive),
            final(self).prev == GamePage::Inactive,
            changed ==> final(self).current_hero is None && final(self).current_skin is None,
            !changed ==> final(self).current_hero == old(self).current_hero
                && final(self).current_skin == old(self).current_skin,
    {
        if self.prev != GamePage::Inactive {
            self.prev = GamePage::Inactive;
            self.current_hero = None;
            self.current_skin = None;
            true
        } else {
            false
        }
    }
}

/// The lines for a score event and the channel they go to: kills, deaths
/// and assists to the team, a game start to everyone; nothing otherwise.
pub fn lines_for_event(triggers: &TriggerQuotes, event: KdaEvent) -> (res: Option<(&Vec<String>, Channel)>)
    ensures
        match event {
            KdaEvent::Kill => res == Option::Some((&triggers.kill, Channel::Team)),
            KdaEvent::Death => res == Option::Some((&triggers.death, Channel::Team)),
            KdaEvent::Assist => res == Option::Some((&triggers.assist, Channel::Team)),
            KdaEvent::GameStart => res == Option::Some((&triggers.game_start, Channel::All)),
            KdaEvent::NoChange => res is None,
        },
{
    match event {
        KdaEvent::Kill => Some((&triggers.kill, Channel::Team)),
        KdaEvent::Death => Some((&triggers.death, Channel::Team)),
        KdaEvent::Assist => Some((&triggers.assist, Channel::Team)),
        KdaEvent::GameStart => Some((&triggers.game_start, Channel::All)),
        KdaEvent::NoChange => None,
    }
}

/// The first scheme with the given display name.
pub fn find_by_display<'a>(schemes: &[&'a HeroScheme], name: &str) -> (res: Option<&'a HeroScheme>)
    ensures
        match res {
            Option::Some(s) => exists|i: int|
                0 <= i < schemes@.len() && *s == *schemes@[i] && schemes@[i].display_name@
                    == name@ && forall|j: int| 0 <= j < i ==> schemes@[j].display_name@ != name@,
            Option::None => forall|j: int|
                0 <= j < schemes@.len() ==> schemes@[j].display_name@ != name@,
        },
{
    let mut i: usize = 0;
    while i < schemes.len()
        invariant
            i <= schemes@.len(),
            forall|j: int| 0 <= j < i ==> schemes@[j].display_name@ != name@,
        decreases schemes@.len() - i,
    {
        let s: &'a HeroScheme = schemes[i];
        if same_text(s.display_name.as_str(), name) {
            return Some(s);
        }
        i = i + 1;
    }
    None
}

} // verus!
