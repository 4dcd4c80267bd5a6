use crate::text::{numbers_in, numbers_spec};
use vstd::prelude::*;

verus! {

/// Kills, deaths and assists read from the score line.
#[derive(Debug, Clone, Copy, PartialEq, Eq, Structural)]
pub struct Kda {
    pub kills: u32,
    pub deaths: u32,
    pub assists: u32,
}

/// What a change of the score line means.
#[derive(Debug, Clone, Copy, PartialEq, Eq, Structural)]
pub enum KdaEvent {
    /// A new game: the first reading is all zero, or the score fell back to zero.
    GameStart,
    /// One more kill.
    Kill,
    /// One more death.
    Death,
    /// One more assist.
    Assist,
    /// Nothing worth a line.
    NoChange,
}

/// Three numbers that all look like a score (at most 99 each) start at `i`.
pub open spec fn small_triple_at(n: Seq<u32>, i: int) -> bool {
    n[i] <= 99 && n[i + 1] <= 99 && n[i + 2] <= 99
}

/// The first position at or after `i` where a small triple starts.
pub open spec fn first_small_triple(n: Seq<u32>, i: int) -> Option<int>
    decreases n.len() - i,
{
    if i < 0 || i + 3 > n.len() {
        Option::None
    } else if small_triple_at(n, i) {
        Option::Some(i)
    } else {
        first_small_triple(n, i + 1)
    }
}

/// The score read from a list of numbers: the first triple of small numbers,
/// else the first three numbers; nothing when there are fewer than three.
pub open spec fn kda_from_numbers(n: Seq<u32>) -> Option<Kda> {
    if n.len() < 3 {
        Option::None
    } else {
        match first_small_triple(n, 0) {
            Option::Some(i) => Option::Some(
                Kda { kills: n[i], deaths: n[i + 1], assists: n[i + 2] },
            ),
            Option::None => Option::Some(Kda { kills: n[0], deaths: n[1], assists: n[2] }),
        }
    }
}

/// The score that `parse_kda` reads from `text`.
pub open spec fn parse_kda_spec(text: Seq<char>) -> Option<Kda> {
    kda_from_numbers(numbers_spec(text))
}

/// Reads kills, deaths and assists from recognised text such as
/// `"0 / 0 / 1"`, `"5/2/8"` or a line with other numbers around the score.
pub fn parse_kda(text: &str) -> (res: Option<Kda>)
    ensures
        res == parse_kda_spec(text@),
        res is None <==> numbers_spec(text@).len() < 3,
{
    let n = numbers_in(text);
    if n.len() < 3 {
        return None;
    }
    let mut i: usize = 0;
    let stop = n.len() - 2;
    while i < stop
        invariant
            n@ == numbers_spec(text@),
            n@.len() >= 3,
            stop == n@.len() - 2,
            i <= stop,
            first_small_triple(n@, 0) == first_small_triple(n@, i as int),
        decreases n@.len() - i,
    {
        if n[i] <= 99 && n[i + 1] <= 99 && n[i + 2] <= 99 {
            return Some(Kda { kills: n[i], deaths: n[i + 1], assists: n[i + 2] });
        }
        i = i + 1;
    }
    Some(Kda { kills: n[0], deaths: n[1], assists: n[2] })
}

/// The event that a new reading `cur` makes after the reading `prev`.
pub open spec fn next_event(prev: Option<Kda>, cur: Kda) -> KdaEvent {
    let zero = cur.kills == 0 && cur.deaths == 0 && cur.assists == 0;
    match prev {
        Option::None => if zero {
            KdaEvent::GameStart
        } else {
            KdaEvent::NoChange
        },
        Option::Some(p) => if cur.kills > p.kills {
            KdaEvent::Kill
        } else if cur.deaths > p.deaths {
            KdaEvent::Death
        } else if cur.assists > p.assists {
            KdaEvent::Assist
        } else if zero && (p.kills > 0 || p.deaths > 0 || p.assists > 0) {
            KdaEvent::GameStart
        } else {
            KdaEvent::NoChange
        },
    }
}

/// Follows the score line from one reading to the next.
pub struct KdaTracker {
    prev: Option<Kda>,
}

impl KdaTracker {
    /// The last score read, if any.
    pub closed spec fn last_reading(self) -> Option<Kda> {
        self.prev
    }

    /// A tracker that has read nothing yet.
    pub fn new() -> (res: Self)
        ensures
            res.last_reading() is None,
    {
        KdaTracker { prev: None }
    }

    /// Takes the next recognised text.  Text without a score changes nothing
    /// and gives `KdaEvent::NoChange`; otherwise the score becomes the last
    /// reading and the event is the one `next_event` names.
    pub fn tick(&mut self, text: &str) -> (event: KdaEvent)
        ensures
            match parse_kda_spec(text@) {
                Option::None => {
                    &&& final(self).last_reading() == old(self).last_reading()
                    &&& event == KdaEvent::NoChange
                },
                Option::Some(cur) => {
                    &&& final(self).last_reading() == Option::Some(cur)
                    &&& event == next_event(old(self).last_reading(), cur)
                },
            },
    {
        let current = match parse_kda(text) {
            Some(k) => k,
            None => {
                return KdaEvent::NoChange;
            },
        };
        let event = self.step(current);
        event
    }

    /// Takes the next reading itself.
    pub fn step(&mut self, current: Kda) -> (event: KdaEvent)
        ensures
            final(self).last_reading() == Option::Some(current),
            event == next_event(old(self).last_reading(), current),
    {
        let zero = current.kills == 0 && current.deaths == 0 && current.assists == 0;
        let event = match self.prev {
            None => if zero {
                KdaEvent::GameStart
            } else {
                KdaEvent::NoChange
            },
            Some(p) => if current.kills > p.kills {
                KdaEvent::Kill
            } else if current.deaths > p.deaths {
                KdaEvent::Death
            } else if current.assists > p.assists {
                KdaEvent::Assist
            } else if zero && (p.kills > 0 || p.deaths > 0 || p.assists > 0) {
                KdaEvent::GameStart
            } else {
                KdaEvent::NoChange
            },
        };
        self.prev = Some(current);
        event
    }
}

/// Reading the same score twice in a row is quiet: the second reading
/// gives no event.
pub proof fn lemma_same_reading_is_quiet(k: Kda)
    ensures
        next_event(Option::Some(k), k) == KdaEvent::NoChange,
{
}

/// Whatever came before, a score that falls back to all zero from a score
/// that was not all zero starts a new game.
pub proof fn lemma_reset_starts_game(prev: Kda)
    requires
        prev.kills > 0 || prev.deaths > 0 || prev.assists > 0,
    ensures
        next_event(Option::Some(prev), Kda { kills: 0, deaths: 0, assists: 0 })
            == KdaEvent::GameStart,
{
}

/// A score that grows in kills is a kill, whatever else it does.
pub proof fn lemma_more_kills_is_kill(prev: Kda, cur: Kda)
    requires
        cur.kills > prev.kills,
    ensures
        next_event(Option::Some(prev), cur) == KdaEvent::Kill,
{
}

/// A score that grows in deaths and not in kills is a death.
pub proof fn lemma_more_deaths_is_death(prev: Kda, cur: Kda)
    requires
        cur.kills <= prev.kills,
        cur.deaths > prev.deaths,
    ensures
        next_event(Option::Some(prev), cur) == KdaEvent::Death,
{
}

/// A score that grows in assists and in neither kills nor deaths is an
/// assist, by however many assists it grew.
pub proof fn lemma_more_assists_is_assist(prev: Kda, cur: Kda)
    requires
        cur.kills <= prev.kills,
        cur.deaths <= prev.deaths,
        cur.assists > prev.assists,
    ensures
        next_event(Option::Some(prev), cur) == KdaEvent::Assist,
{
}

/// The first reading starts a game when it is all zero and is quiet
/// otherwise.
pub proof fn lemma_first_reading(cur: Kda)
    ensures
        next_event(Option::None, cur) == (if cur.kills == 0 && cur.deaths == 0 && cur.assists == 0 {
            KdaEvent::GameStart
        } else {
            KdaEvent::NoChange
        }),
{
}

proof fn lemma_first_small_triple_from(n: Seq<u32>, j: int, i: int)
    requires
        0 <= j <= i,
        i + 3 <= n.len(),
        n[i] <= 99 && n[i + 1] <= 99 && n[i + 2] <= 99,
        forall|k: int| j <= k < i ==> !(#[trigger] n[k] <= 99 && n[k + 1] <= 99 && n[k + 2] <= 99),
    ensures
        first_small_triple(n, j) == Option::Some(i),
    decreases i - j,
{
    if j < i {
        lemma_first_small_triple_from(n, j + 1, i);
    }
}

proof fn lemma_no_small_triple_from(n: Seq<u32>, j: int)
    requires
        0 <= j,
        forall|k: int| j <= k && k + 3 <= n.len() ==> !(#[trigger] n[k] <= 99 && n[k + 1] <= 99 && n[k + 2] <= 99),
    ensures
        first_small_triple(n, j) is None,
    decreases n.len() - j,
{
    if j + 3 <= n.len() {
        lemma_no_small_triple_from(n, j + 1);
    }
}

/// The score is read from the earliest three consecutive numbers of the
/// text that are all at most 99: every earlier window of three holds a
/// larger number.
pub proof fn lemma_earliest_small_triple_read(text: Seq<char>, i: int)
    requires
        0 <= i,
        i + 3 <= numbers_spec(text).len(),
        numbers_spec(text)[i] <= 99,
        numbers_spec(text)[i + 1] <= 99,
        numbers_spec(text)[i + 2] <= 99,
        forall|j: int|
            0 <= j < i ==> !(#[trigger] numbers_spec(text)[j] <= 99 && numbers_spec(text)[j + 1] <= 99
                && numbers_spec(text)[j + 2] <= 99),
    ensures
        parse_kda_spec(text) == Option::Some(
            Kda {
                kills: numbers_spec(text)[i],
                deaths: numbers_spec(text)[i + 1],
                assists: numbers_spec(text)[i + 2],
            },
        ),
{
    lemma_first_small_triple_from(numbers_spec(text), 0, i);
}

/// With no three consecutive numbers all at most 99, the first three
/// numbers are read; with fewer than three numbers, nothing is.
pub proof fn lemma_no_small_triple_reads_first_three(text: Seq<char>)
    requires
        forall|j: int|
            0 <= j && j + 3 <= numbers_spec(text).len() ==> !(#[trigger] numbers_spec(text)[j] <= 99
                && numbers_spec(text)[j + 1] <= 99 && numbers_spec(text)[j + 2] <= 99),
    ensures
        numbers_spec(text).len() < 3 ==> parse_kda_spec(text) is None,
        numbers_spec(text).len() >= 3 ==> parse_kda_spec(text) == Option::Some(
            Kda {
                kills: numbers_spec(text)[0],
                deaths: numbers_spec(text)[1],
                assists: numbers_spec(text)[2],
            },
        ),
{
    lemma_no_small_triple_from(numbers_spec(text), 0);
}

} // verus!
