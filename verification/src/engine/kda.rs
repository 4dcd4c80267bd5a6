use crate::text::{number_runs, number_runs_in};
use vstd::prelude::*;

verus! {

/// Kills, deaths, assists and last hits read from the score line.
#[derive(Debug, Clone, Copy, PartialEq, Eq, Structural)]
pub struct Kda {
    pub kills: u32,
    pub deaths: u32,
    pub assists: u32,
    pub cs: u32,
}

/// What a change of the score line means.
#[derive(Debug, Clone, Copy, PartialEq, Eq, Structural)]
pub enum KdaEvent {
    /// A new game: the first reading is all zero, or the score fell back to zero.
    GameStart,
    /// One more kill.
    Kill,
    /// One more death.
    Death,
    /// One more assist.
    Assist,
    /// Nothing worth a line.
    NoChange,
}

/// Four numbers that look like kills / deaths / assists / last hits
/// (scores under 100, last hits under 1000) start at `i`.
pub open spec fn quad_at(n: Seq<u32>, i: int) -> bool {
    n[i] <= 99 && n[i + 1] <= 99 && n[i + 2] <= 99 && n[i + 3] <= 999
}

/// Three numbers that look like kills / assists / last hits start at `i`.
pub open spec fn triple_at(n: Seq<u32>, i: int) -> bool {
    n[i] <= 99 && n[i + 1] <= 99 && n[i + 2] <= 999
}

/// The first position at or after `i` where a score of `width` numbers
/// (four with deaths shown, three without) starts.
pub open spec fn first_window(n: Seq<u32>, i: int, width: int) -> Option<int>
    decreases n.len() - i,
{
    if i < 0 || width < 1 || i + width > n.len() {
        Option::None
    } else if (width == 4 && quad_at(n, i)) || (width == 3 && triple_at(n, i)) {
        Option::Some(i)
    } else {
        first_window(n, i + 1, width)
    }
}

/// The numbers of a text that can belong to the score: those that are not
/// the value of a label such as "PING:" or "FPS:".
pub open spec fn score_numbers(n: Seq<(u32, bool)>) -> Seq<u32>
    decreases n.len(),
{
    if n.len() == 0 {
        Seq::empty()
    } else if n.last().1 {
        score_numbers(n.drop_last())
    } else {
        score_numbers(n.drop_last()).push(n.last().0)
    }
}

/// The score read from the numbers of a text: the first four numbers that
/// look like a score (the mode that shows deaths); else the first three,
/// which have no deaths; else the first four numbers, or the first three
/// when there are only three; nothing with fewer than three.
pub open spec fn kda_from_numbers(n: Seq<u32>) -> Option<Kda> {
    if n.len() < 3 {
        Option::None
    } else {
        match first_window(n, 0, 4) {
            Option::Some(i) => Option::Some(
                Kda { kills: n[i], deaths: n[i + 1], assists: n[i + 2], cs: n[i + 3] },
            ),
            Option::None => match first_window(n, 0, 3) {
                Option::Some(i) => Option::Some(
                    Kda { kills: n[i], deaths: 0, assists: n[i + 1], cs: n[i + 2] },
                ),
                Option::None => if n.len() >= 4 {
                    Option::Some(Kda { kills: n[0], deaths: n[1], assists: n[2], cs: n[3] })
                } else {
                    Option::Some(Kda { kills: n[0], deaths: 0, assists: n[1], cs: n[2] })
                },
            },
        }
    }
}

/// The numbers that `parse_kda` reads the score from.
pub open spec fn kda_numbers(text: Seq<char>) -> Seq<u32> {
    score_numbers(number_runs(text))
}

/// The score that `parse_kda` reads from `text`.
pub open spec fn parse_kda_spec(text: Seq<char>) -> Option<Kda> {
    kda_from_numbers(kda_numbers(text))
}

fn score_numbers_in(text: &str) -> (res: Vec<u32>)
    ensures
        res@ == kda_numbers(text@),
{
    let runs = number_runs_in(text);
    let mut out: Vec<u32> = Vec::new();
    let mut i: usize = 0;
    assert(runs@.take(0) == Seq::<(u32, bool)>::empty());
    while i < runs.len()
        invariant
            i <= runs@.len(),
            runs@ == number_runs(text@),
            out@ == score_numbers(runs@.take(i as int)),
        decreases runs@.len() - i,
    {
        assert(runs@.take(i + 1).drop_last() == runs@.take(i as int));
        if !runs[i].1 {
            out.push(runs[i].0);
        }
        i = i + 1;
    }
    assert(runs@.take(runs@.len() as int) == runs@);
    out
}

/// Reads the score from recognised text.  With deaths shown it reads
/// `"11 / 7 / 5 / 26"` as kills, deaths, assists, last hits; without, it
/// reads `"0 / 0 / 1"` as kills, assists, last hits with no deaths.  The
/// values of labels such as `"PING:46"` or `"FPS:60"` are not read as part
/// of the score.
pub fn parse_kda(text: &str) -> (res: Option<Kda>)
    ensures
        res == parse_kda_spec(text@),
        res is None <==> kda_numbers(text@).len() < 3,
{
    let n = score_numbers_in(text);
    if n.len() < 3 {
        return None;
    }
    if n.len() >= 4 {
        let stop = n.len() - 3;
        let mut i: usize = 0;
        while i < stop
            invariant
                n@ == kda_numbers(text@),
                n@.len() >= 4,
                stop == n@.len() - 3,
                i <= stop,
                first_window(n@, 0, 4) == first_window(n@, i as int, 4),
            decreases stop - i,
        {
            assert(i + 3 < n@.len());
            if n[i] <= 99 && n[i + 1] <= 99 && n[i + 2] <= 99 && n[i + 3] <= 999 {
                return Some(Kda { kills: n[i], deaths: n[i + 1], assists: n[i + 2], cs: n[i + 3] });
            }
            i = i + 1;
        }
    }
    assert(first_window(n@, 0, 4) is None);
    let stop = n.len() - 2;
    let mut i: usize = 0;
    while i < stop
        invariant
            n@ == kda_numbers(text@),
            n@.len() >= 3,
            stop == n@.len() - 2,
            i <= stop,
            first_window(n@, 0, 4) is None,
            first_window(n@, 0, 3) == first_window(n@, i as int, 3),
        decreases stop - i,
    {
        assert(i + 2 < n@.len());
        if n[i] <= 99 && n[i + 1] <= 99 && n[i + 2] <= 999 {
            return Some(Kda { kills: n[i], deaths: 0, assists: n[i + 1], cs: n[i + 2] });
        }
        i = i + 1;
    }
    if n.len() >= 4 {
        Some(Kda { kills: n[0], deaths: n[1], assists: n[2], cs: n[3] })
    } else {
        Some(Kda { kills: n[0], deaths: 0, assists: n[1], cs: n[2] })
    }
}

/// All four counters are zero.
pub open spec fn all_zero(k: Kda) -> bool {
    k.kills == 0 && k.deaths == 0 && k.assists == 0 && k.cs == 0
}

/// The event that a new reading `cur` makes after the reading `prev`.
pub open spec fn next_event(prev: Option<Kda>, cur: Kda) -> KdaEvent {
    match prev {
        Option::None => if all_zero(cur) {
            KdaEvent::GameStart
        } else {
            KdaEvent::NoChange
        },
        Option::Some(p) => if cur.kills > p.kills {
            KdaEvent::Kill
        } else if cur.deaths > p.deaths {
            KdaEvent::Death
        } else if cur.assists > p.assists {
            KdaEvent::Assist
        } else if all_zero(cur) && (p.kills > 0 || p.deaths > 0 || p.assists > 0) {
            KdaEvent::GameStart
        } else {
            KdaEvent::NoChange
        },
    }
}

/// Follows the score line from one reading to the next.
pub struct KdaTracker {
    prev: Option<Kda>,
}

impl KdaTracker {
    /// The last score read, if any.
    pub closed spec fn last_reading(self) -> Option<Kda> {
        self.prev
    }

    /// A tracker that has read nothing yet.
    pub fn new() -> (res: Self)
        ensures
            res.last_reading() is None,
    {
        KdaTracker { prev: None }
    }

    /// Takes the next recognised text.  Text without a score changes nothing
    /// and gives `KdaEvent::NoChange`; otherwise the score becomes the last
    /// reading and the event is the one `next_event` names.
    pub fn tick(&mut self, text: &str) -> (event: KdaEvent)
        ensures
            match parse_kda_spec(text@) {
                Option::None => {
                    &&& final(self).last_reading() == old(self).last_reading()
                    &&& event == KdaEvent::NoChange
                },
                Option::Some(cur) => {
                    &&& final(self).last_reading() == Option::Some(cur)
                    &&& event == next_event(old(self).last_reading(), cur)
                },
            },
    {
        match parse_kda(text) {
            Some(k) => self.step(k),
            None => KdaEvent::NoChange,
        }
    }

    /// Takes the next reading itself.
    pub fn step(&mut self, current: Kda) -> (event: KdaEvent)
        ensures
            final(self).last_reading() == Option::Some(current),
            event == next_event(old(self).last_reading(), current),
    {
        let zero = current.kills == 0 && current.deaths == 0 && current.assists == 0
            && current.cs == 0;
        let event = match self.prev {
            None => if zero {
                KdaEvent::GameStart
            } else {
                KdaEvent::NoChange
            },
            Some(p) => if current.kills > p.kills {
                KdaEvent::Kill
            } else if current.deaths > p.deaths {
                KdaEvent::Death
            } else if current.assists > p.assists {
                KdaEvent::Assist
            } else if zero && (p.kills > 0 || p.deaths > 0 || p.assists > 0) {
                KdaEvent::GameStart
            } else {
                KdaEvent::NoChange
            },
        };
        self.prev = Some(current);
        event
    }
}

/// Reading the same score twice in a row is quiet.
pub proof fn lemma_same_reading_is_quiet(k: Kda)
    ensures
        next_event(Option::Some(k), k) == KdaEvent::NoChange,
{
}

/// A score that falls back to all zero from one with a kill, death or
/// assist starts a new game.
pub proof fn lemma_reset_starts_game(prev: Kda)
    requires
        prev.kills > 0 || prev.deaths > 0 || prev.assists > 0,
    ensures
        next_event(Option::Some(prev), Kda { kills: 0, deaths: 0, assists: 0, cs: 0 })
            == KdaEvent::GameStart,
{
}

/// Text whose first four score numbers look like a score is read in the
/// mode that shows deaths, from those four numbers.
pub proof fn lemma_leading_quad_is_read(text: Seq<char>)
    requires
        kda_numbers(text).len() >= 4,
        quad_at(kda_numbers(text), 0),
    ensures
        parse_kda_spec(text) == Option::Some(
            Kda {
                kills: kda_numbers(text)[0],
                deaths: kda_numbers(text)[1],
                assists: kda_numbers(text)[2],
                cs: kda_numbers(text)[3],
            },
        ),
{
}

/// A score that grows in kills is a kill, whatever else it does.
pub proof fn lemma_more_kills_is_kill(prev: Kda, cur: Kda)
    requires
        cur.kills > prev.kills,
    ensures
        next_event(Option::Some(prev), cur) == KdaEvent::Kill,
{
}

/// A score that grows in deaths and not in kills is a death.
pub proof fn lemma_more_deaths_is_death(prev: Kda, cur: Kda)
    requires
        cur.kills <= prev.kills,
        cur.deaths > prev.deaths,
    ensures
        next_event(Option::Some(prev), cur) == KdaEvent::Death,
{
}

/// A score that grows in assists and in neither kills nor deaths is an
/// assist, by however many assists it grew.
pub proof fn lemma_more_assists_is_assist(prev: Kda, cur: Kda)
    requires
        cur.kills <= prev.kills,
        cur.deaths <= prev.deaths,
        cur.assists > prev.assists,
    ensures
        next_event(Option::Some(prev), cur) == KdaEvent::Assist,
{
}

spec fn window_fits(n: Seq<u32>, k: int, width: int) -> bool {
    (width == 4 && quad_at(n, k)) || (width == 3 && triple_at(n, k))
}

proof fn lemma_first_window_from(n: Seq<u32>, j: int, i: int, width: int)
    requires
        0 <= j <= i,
        width == 3 || width == 4,
        i + width <= n.len(),
        (width == 4 && quad_at(n, i)) || (width == 3 && triple_at(n, i)),
        forall|k: int|
            j <= k < i ==> !#[trigger] window_fits(n, k, width),
    ensures
        first_window(n, j, width) == Option::Some(i),
    decreases i - j,
{
    if j < i {
        assert(!window_fits(n, j, width));
        lemma_first_window_from(n, j + 1, i, width);
    }
}

proof fn lemma_no_window_from(n: Seq<u32>, j: int, width: int)
    requires
        0 <= j,
        width == 3 || width == 4,
        forall|k: int|
            j <= k && k + width <= n.len() ==> !#[trigger] window_fits(n, k, width),
    ensures
        first_window(n, j, width) is None,
    decreases n.len() - j,
{
    if j + width <= n.len() {
        assert(!window_fits(n, j, width));
        lemma_no_window_from(n, j + 1, width);
    }
}

/// The score is read from the earliest four consecutive score numbers that
/// look like kills, deaths and assists (at most 99 each) and last hits (at
/// most 999): every earlier window of four has a larger number.
pub proof fn lemma_earliest_quad_read(text: Seq<char>, i: int)
    requires
        0 <= i,
        i + 4 <= kda_numbers(text).len(),
        kda_numbers(text)[i] <= 99,
        kda_numbers(text)[i + 1] <= 99,
        kda_numbers(text)[i + 2] <= 99,
        kda_numbers(text)[i + 3] <= 999,
        forall|j: int|
            0 <= j < i ==> !(#[trigger] kda_numbers(text)[j] <= 99 && kda_numbers(text)[j + 1] <= 99
                && kda_numbers(text)[j + 2] <= 99 && kda_numbers(text)[j + 3] <= 999),
    ensures
        parse_kda_spec(text) == Option::Some(
            Kda {
                kills: kda_numbers(text)[i],
                deaths: kda_numbers(text)[i + 1],
                assists: kda_numbers(text)[i + 2],
                cs: kda_numbers(text)[i + 3],
            },
        ),
{
    let n = kda_numbers(text);
    assert forall|k: int| 0 <= k < i implies !#[trigger] window_fits(n, k, 4) by {
        assert(n[k] == kda_numbers(text)[k]);
    }
    lemma_first_window_from(n, 0, i, 4);
}

/// Without four numbers that look like a score, the earliest three that
/// look like kills, assists (at most 99 each) and last hits (at most 999)
/// are read, with no deaths.
pub proof fn lemma_earliest_triple_read(text: Seq<char>, i: int)
    requires
        forall|j: int|
            0 <= j && j + 4 <= kda_numbers(text).len() ==> !(#[trigger] kda_numbers(text)[j] <= 99
                && kda_numbers(text)[j + 1] <= 99 && kda_numbers(text)[j + 2] <= 99 && kda_numbers(
                text,
            )[j + 3] <= 999),
        0 <= i,
        i + 3 <= kda_numbers(text).len(),
        kda_numbers(text)[i] <= 99,
        kda_numbers(text)[i + 1] <= 99,
        kda_numbers(text)[i + 2] <= 999,
        forall|j: int|
            0 <= j < i ==> !(#[trigger] kda_numbers(text)[j] <= 99 && kda_numbers(text)[j + 1] <= 99
                && kda_numbers(text)[j + 2] <= 999),
    ensures
        parse_kda_spec(text) == Option::Some(
            Kda {
                kills: kda_numbers(text)[i],
                deaths: 0,
                assists: kda_numbers(text)[i + 1],
                cs: kda_numbers(text)[i + 2],
            },
        ),
{
    let n = kda_numbers(text);
    assert forall|k: int| 0 <= k && k + 4 <= n.len() implies !#[trigger] window_fits(n, k, 4) by {
        assert(n[k] == kda_numbers(text)[k]);
    }
    lemma_no_window_from(n, 0, 4);
    assert forall|k: int| 0 <= k < i implies !#[trigger] window_fits(n, k, 3) by {
        assert(n[k] == kda_numbers(text)[k]);
    }
    lemma_first_window_from(n, 0, i, 3);
}

/// Numbers written as a label's value ("PING:46", "FPS: 60") never count:
/// every number the score is read from is the value of a number of the
/// text that is not a label's value.
pub proof fn lemma_label_values_skipped(runs: Seq<(u32, bool)>)
    ensures
        forall|i: int|
            0 <= i < score_numbers(runs).len() ==> exists|j: int|
                0 <= j < runs.len() && !runs[j].1 && runs[j].0 == #[trigger] score_numbers(runs)[i],
    decreases runs.len(),
{
    if runs.len() > 0 {
        lemma_label_values_skipped(runs.drop_last());
        let r = score_numbers(runs.drop_last());
        assert forall|i: int| 0 <= i < score_numbers(runs).len() implies exists|j: int|
            0 <= j < runs.len() && !runs[j].1 && runs[j].0 == #[trigger] score_numbers(runs)[i] by {
            if i < r.len() {
                assert(score_numbers(runs)[i] == r[i]);
                let j = choose|j: int|
                    0 <= j < runs.drop_last().len() && !runs.drop_last()[j].1 && runs.drop_last()[j].0
                        == #[trigger] r[i];
                assert(runs[j] == runs.drop_last()[j]);
            } else {
                assert(runs[runs.len() - 1] == runs.last());
            }
        }
    }
}

} // verus!
