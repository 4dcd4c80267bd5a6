use crate::text::{chars_of, string_from_chars, string_from_range};
use std::time::{Duration, SystemTime, SystemTimeError};
use vstd::prelude::*;

verus! {

/// The most characters that one chat message may hold.
pub const MAX_CHAT_LEN: usize = 50;

/// A punctuation mark after which a long message may be cut.
pub open spec fn is_break_char(c: char) -> bool {
    ||| c == '，'
    ||| c == '。'
    ||| c == '！'
    ||| c == '？'
    ||| c == '；'
    ||| c == '：'
    ||| c == '、'
    ||| c == ','
    ||| c == '.'
    ||| c == '!'
    ||| c == '?'
    ||| c == ';'
    ||| c == ':'
}

/// Whether `c` is a punctuation mark after which a message may be cut.
pub fn break_char(c: char) -> (res: bool)
    ensures
        res == is_break_char(c),
{
    c == '，' || c == '。' || c == '！' || c == '？' || c == '；' || c == '：' || c == '、' || c
        == ',' || c == '.' || c == '!' || c == '?' || c == ';' || c == ':'
}

/// The position of the last punctuation mark in `s[lo..hi]`.
pub open spec fn last_break(s: Seq<char>, lo: int, hi: int) -> Option<int>
    decreases hi - lo,
{
    if hi <= lo {
        Option::None
    } else if is_break_char(s[hi - 1]) {
        Option::Some(hi - 1)
    } else {
        last_break(s, lo, hi - 1)
    }
}

/// The last punctuation mark of a span lies in the span.
pub proof fn lemma_last_break_bounds(s: Seq<char>, lo: int, hi: int)
    ensures
        last_break(s, lo, hi) matches Option::Some(i) ==> lo <= i < hi && is_break_char(s[i]),
    decreases hi - lo,
{
    if hi > lo && !is_break_char(s[hi - 1]) {
        lemma_last_break_bounds(s, lo, hi - 1);
    }
}

/// Where the chunk that starts at `start` ends: `max_len` characters on,
/// or earlier just after the last punctuation mark in that span; a chunk
/// that reaches the end of the text is not shortened.
pub open spec fn cut_point(s: Seq<char>, start: int, max_len: int) -> int {
    let end = if start + max_len < s.len() {
        start + max_len
    } else {
        s.len() as int
    };
    if end < s.len() {
        match last_break(s, start, end) {
            Option::Some(i) => i + 1,
            Option::None => end,
        }
    } else {
        end
    }
}

/// A chunk that starts inside the text is not empty, ends inside the text
/// and holds at most `max_len` characters.
pub proof fn lemma_cut_point_bounds(s: Seq<char>, start: int, max_len: int)
    requires
        0 <= start < s.len(),
        max_len > 0,
    ensures
        start < cut_point(s, start, max_len) <= s.len(),
        cut_point(s, start, max_len) - start <= max_len,
{
    let end = if start + max_len < s.len() {
        start + max_len
    } else {
        s.len() as int
    };
    lemma_last_break_bounds(s, start, end);
}

/// The chunks of `s` from `start` on.
pub open spec fn chunks_from(s: Seq<char>, start: int, max_len: int) -> Seq<Seq<char>>
    decreases s.len() - start,
{
    if start < 0 || start >= s.len() || max_len <= 0 {
        Seq::empty()
    } else {
        let cut = cut_point(s, start, max_len);
        proof {
            lemma_cut_point_bounds(s, start, max_len);
        }
        seq![s.subrange(start, cut)] + chunks_from(s, cut, max_len)
    }
}

/// How `split_text` cuts `s`: a text of at most `max_len` characters stays
/// whole; a longer one is cut into chunks from the front.
pub open spec fn split_spec(s: Seq<char>, max_len: int) -> Seq<Seq<char>> {
    if s.len() <= max_len {
        seq![s]
    } else {
        chunks_from(s, 0, max_len)
    }
}

/// The characters of each string.
pub open spec fn views(v: Seq<String>) -> Seq<Seq<char>> {
    v.map_values(|c: String| c@)
}

/// Cuts a message into chunks of at most `max_len` characters, preferring
/// to cut just after punctuation.
pub fn split_text(text: &str, max_len: usize) -> (res: Vec<String>)
    requires
        max_len > 0 || text@.len() == 0,
    ensures
        views(res@) == split_spec(text@, max_len as int),
{
    let chars = chars_of(text);
    let n = chars.len();
    if n <= max_len {
        let whole = string_from_chars(&chars);
        let mut one: Vec<String> = Vec::new();
        one.push(whole);
        assert(views(one@) == seq![text@]);
        return one;
    }
    let ghost s = chars@;
    let ghost m = max_len as int;
    let mut chunks: Vec<String> = Vec::new();
    let mut start: usize = 0;
    assert(views(chunks@) == Seq::<Seq<char>>::empty());
    assert(Seq::<Seq<char>>::empty() + chunks_from(s, 0, m) == chunks_from(s, 0, m));
    while start < n
        invariant
            s == chars@,
            s == text@,
            n == s.len(),
            m == max_len as int,
            max_len > 0,
            n > max_len,
            start <= n,
            views(chunks@) + chunks_from(s, start as int, m) == chunks_from(s, 0, m),
        decreases n - start,
    {
        let end = if max_len >= n - start {
            n
        } else {
            start + max_len
        };
        let mut split_at = end;
        if split_at < n {
            let mut k = end;
            let mut found = false;
            while k > start && !found
                invariant
                    start <= k <= end < n,
                    s == chars@,
                    n == s.len(),
                    !found ==> split_at == end && last_break(s, start as int, end as int)
                        == last_break(s, start as int, k as int),
                    found ==> split_at == k && k > start && last_break(
                        s,
                        start as int,
                        end as int,
                    ) == Option::Some(k - 1),
                decreases (k - start) * 2 + if found { 0int } else { 1int },
            {
                if break_char(chars[k - 1]) {
                    split_at = k;
                    found = true;
                } else {
                    k = k - 1;
                }
            }
        }
        proof {
            lemma_cut_point_bounds(s, start as int, m);
        }
        assert(split_at == cut_point(s, start as int, m));
        let piece = string_from_range(&chars, start, split_at);
        let ghost before = views(chunks@);
        chunks.push(piece);
        assert(views(chunks@) == before.push(piece@));
        assert(chunks_from(s, start as int, m) == seq![piece@] + chunks_from(
            s,
            split_at as int,
            m,
        ));
        assert(before.push(piece@) + chunks_from(s, split_at as int, m) == before + (seq![piece@]
            + chunks_from(s, split_at as int, m)));
        start = split_at;
    }
    assert(chunks_from(s, n as int, m) == Seq::<Seq<char>>::empty());
    assert(views(chunks@) + Seq::<Seq<char>>::empty() == views(chunks@));
    chunks
}

proof fn lemma_chunks_rejoin(s: Seq<char>, start: int, max_len: int)
    requires
        0 <= start <= s.len(),
        max_len > 0,
    ensures
        chunks_from(s, start, max_len).flatten() == s.subrange(start, s.len() as int),
    decreases s.len() - start,
{
    if start < s.len() {
        let cut = cut_point(s, start, max_len);
        lemma_cut_point_bounds(s, start, max_len);
        lemma_chunks_rejoin(s, cut, max_len);
        let c = chunks_from(s, start, max_len);
        assert(c.first() == s.subrange(start, cut));
        assert(c.drop_first() == chunks_from(s, cut, max_len));
        assert(s.subrange(start, cut) + s.subrange(cut, s.len() as int) == s.subrange(
            start,
            s.len() as int,
        ));
    } else {
        assert(s.subrange(start, s.len() as int) == Seq::<char>::empty());
    }
}

proof fn lemma_chunks_bounded(s: Seq<char>, start: int, max_len: int)
    requires
        0 <= start <= s.len(),
        max_len > 0,
    ensures
        forall|i: int|
            0 <= i < chunks_from(s, start, max_len).len() ==> 0 < #[trigger] chunks_from(
                s,
                start,
                max_len,
            )[i].len() <= max_len,
    decreases s.len() - start,
{
    if start < s.len() {
        let cut = cut_point(s, start, max_len);
        lemma_cut_point_bounds(s, start, max_len);
        lemma_chunks_bounded(s, cut, max_len);
        let c = chunks_from(s, start, max_len);
        assert forall|i: int| 0 <= i < c.len() implies 0 < #[trigger] c[i].len() <= max_len by {
            if i > 0 {
                assert(c[i] == chunks_from(s, cut, max_len)[i - 1]);
            }
        }
    }
}

/// Cutting a message loses and reorders nothing: the chunks, joined in
/// order, give back the message.
pub proof fn lemma_split_rejoins(s: Seq<char>, max_len: int)
    requires
        max_len > 0,
    ensures
        split_spec(s, max_len).flatten() == s,
{
    if s.len() <= max_len {
        let one = seq![s];
        assert(one.drop_first() == Seq::<Seq<char>>::empty());
        assert(one.drop_first().flatten() == Seq::<char>::empty());
        assert(one.flatten() == one.first() + one.drop_first().flatten());
        assert(s + Seq::<char>::empty() == s);
    } else {
        lemma_chunks_rejoin(s, 0, max_len);
        assert(s.subrange(0, s.len() as int) == s);
    }
}

/// Every chunk fits in one chat message, and a message that needed cutting
/// has no empty chunk.
pub proof fn lemma_split_fits(s: Seq<char>, max_len: int)
    requires
        max_len > 0,
    ensures
        forall|i: int|
            0 <= i < split_spec(s, max_len).len() ==> #[trigger] split_spec(s, max_len)[i].len()
                <= max_len,
        s.len() > max_len ==> split_spec(s, max_len).len() >= 2 && forall|i: int|
            0 <= i < split_spec(s, max_len).len() ==> #[trigger] split_spec(s, max_len)[i].len()
                > 0,
{
    if s.len() > max_len {
        lemma_chunks_bounded(s, 0, max_len);
        lemma_cut_point_bounds(s, 0, max_len);
        let cut = cut_point(s, 0, max_len);
        assert(cut < s.len());
        lemma_cut_point_bounds(s, cut, max_len);
        assert(chunks_from(s, 0, max_len).len() == 1 + chunks_from(s, cut, max_len).len());
    }
}

proof fn lemma_no_break(s: Seq<char>, lo: int, hi: int)
    requires
        last_break(s, lo, hi) is None,
    ensures
        forall|k: int| lo <= k < hi ==> !is_break_char(#[trigger] s[k]),
    decreases hi - lo,
{
    if hi > lo {
        lemma_no_break(s, lo, hi - 1);
    }
}

proof fn lemma_chunks_prefer_breaks(s: Seq<char>, start: int, max_len: int)
    requires
        0 <= start <= s.len(),
        max_len > 0,
    ensures
        forall|i: int|
            0 <= i < chunks_from(s, start, max_len).len() - 1 ==> {
                let c = #[trigger] chunks_from(s, start, max_len)[i];
                is_break_char(c.last()) || (c.len() == max_len && forall|k: int|
                    0 <= k < c.len() ==> !is_break_char(#[trigger] c[k]))
            },
    decreases s.len() - start,
{
    if start < s.len() {
        let cut = cut_point(s, start, max_len);
        lemma_cut_point_bounds(s, start, max_len);
        lemma_chunks_prefer_breaks(s, cut, max_len);
        let all = chunks_from(s, start, max_len);
        let rest = chunks_from(s, cut, max_len);
        assert(all == seq![s.subrange(start, cut)] + rest);
        assert forall|i: int| 0 <= i < all.len() - 1 implies {
            let c = #[trigger] all[i];
            is_break_char(c.last()) || (c.len() == max_len && forall|k: int|
                0 <= k < c.len() ==> !is_break_char(#[trigger] c[k]))
        } by {
            if i == 0 {
                assert(rest.len() > 0);
                assert(cut < s.len());
                let end = if start + max_len < s.len() {
                    start + max_len
                } else {
                    s.len() as int
                };
                lemma_last_break_bounds(s, start, end);
                let c = s.subrange(start, cut);
                match last_break(s, start, end) {
                    Option::Some(j) => {
                        assert(c.last() == s[j]);
                    },
                    Option::None => {
                        lemma_no_break(s, start, end);
                        assert forall|k: int| 0 <= k < c.len() implies !is_break_char(
                            #[trigger] c[k],
                        ) by {
                            assert(c[k] == s[start + k]);
                        }
                    },
                }
            } else {
                assert(all[i] == rest[i - 1]);
            }
        }
    }
}

/// Long messages are cut at punctuation where they can be: every chunk
/// but the last ends with a punctuation mark, or is a full `max_len`
/// characters with no punctuation mark in it.
pub proof fn lemma_split_prefers_punctuation(s: Seq<char>, max_len: int)
    requires
        max_len > 0,
    ensures
        forall|i: int|
            0 <= i < split_spec(s, max_len).len() - 1 ==> {
                let c = #[trigger] split_spec(s, max_len)[i];
                is_break_char(c.last()) || (c.len() == max_len && forall|k: int|
                    0 <= k < c.len() ==> !is_break_char(#[trigger] c[k]))
            },
{
    if s.len() > max_len {
        lemma_chunks_prefer_breaks(s, 0, max_len);
    }
}

proof fn lemma_last_break_is(s: Seq<char>, lo: int, hi: int, j: int)
    requires
        lo <= j < hi,
        is_break_char(s[j]),
        forall|k: int| j < k < hi ==> !is_break_char(#[trigger] s[k]),
    ensures
        last_break(s, lo, hi) == Option::Some(j),
    decreases hi - j,
{
    if hi - 1 > j {
        assert(!is_break_char(s[hi - 1]));
        lemma_last_break_is(s, lo, hi - 1, j);
    }
}

proof fn lemma_none_break(s: Seq<char>, lo: int, hi: int)
    requires
        forall|k: int| lo <= k < hi ==> !is_break_char(#[trigger] s[k]),
    ensures
        last_break(s, lo, hi) is None,
    decreases hi - lo,
{
    if hi > lo {
        assert(!is_break_char(s[hi - 1]));
        lemma_none_break(s, lo, hi - 1);
    }
}

/// A message too long for one chat message is cut right after the last
/// of the marks ，。！？；：、,.!?;: among its first `max_len` characters:
/// the first chunk is the text up to and including that mark.
pub proof fn lemma_cut_after_last_mark(s: Seq<char>, max_len: int, j: int)
    requires
        0 <= j < max_len < s.len(),
        (s[j] == '，' || s[j] == '。' || s[j] == '！' || s[j] == '？' || s[j] == '；' || s[j] == '：' || s[j] == '、' || s[j] == ',' || s[j] == '.' || s[j] == '!' || s[j] == '?' || s[j] == ';' || s[j] == ':'),
        forall|k: int| j < k < max_len ==> !(#[trigger] s[k] == '，' || #[trigger] s[k] == '。' || #[trigger] s[k] == '！' || #[trigger] s[k] == '？' || #[trigger] s[k] == '；' || #[trigger] s[k] == '：' || #[trigger] s[k] == '、' || #[trigger] s[k] == ',' || #[trigger] s[k] == '.' || #[trigger] s[k] == '!' || #[trigger] s[k] == '?' || #[trigger] s[k] == ';' || #[trigger] s[k] == ':'),
    ensures
        split_spec(s, max_len)[0] == s.subrange(0, j + 1),
{
    assert forall|k: int| j < k < max_len implies !is_break_char(#[trigger] s[k]) by {}
    lemma_last_break_is(s, 0, max_len, j);
    lemma_cut_point_bounds(s, 0, max_len);
}

/// A message too long for one chat message with none of the marks
/// ，。！？；：、,.!?;: among its first `max_len` characters has exactly
/// those characters as its first chunk.
pub proof fn lemma_cut_at_limit_without_marks(s: Seq<char>, max_len: int)
    requires
        0 < max_len < s.len(),
        forall|k: int| 0 <= k < max_len ==> !(#[trigger] s[k] == '，' || #[trigger] s[k] == '。' || #[trigger] s[k] == '！' || #[trigger] s[k] == '？' || #[trigger] s[k] == '；' || #[trigger] s[k] == '：' || #[trigger] s[k] == '、' || #[trigger] s[k] == ',' || #[trigger] s[k] == '.' || #[trigger] s[k] == '!' || #[trigger] s[k] == '?' || #[trigger] s[k] == ';' || #[trigger] s[k] == ':'),
    ensures
        split_spec(s, max_len)[0] == s.subrange(0, max_len),
{
    assert forall|k: int| 0 <= k < max_len implies !is_break_char(#[trigger] s[k]) by {}
    lemma_none_break(s, 0, max_len);
    lemma_cut_point_bounds(s, 0, max_len);
}

/// `SystemTime` from std, carried through opaque.
#[verifier::external_type_specification]
#[verifier::external_body]
pub struct ExSystemTime(SystemTime);

/// `SystemTimeError` from std, carried through opaque.
#[verifier::external_type_specification]
#[verifier::external_body]
pub struct ExSystemTimeError(SystemTimeError);

/// `SystemTime::now` from std: the current time; nothing is stated of it.
#[verifier::external_body]
fn system_now() -> SystemTime {
    SystemTime::now()
}

/// `SystemTime::duration_since` from std, against the Unix epoch; nothing
/// is stated of the result, which depends on the clock.
#[verifier::external_body]
fn since_unix_epoch(t: &SystemTime) -> Result<Duration, SystemTimeError> {
    t.duration_since(std::time::UNIX_EPOCH)
}

/// `Duration::as_nanos` from std; nothing is stated of the result.
#[verifier::external_body]
fn duration_nanos(d: &Duration) -> u128 {
    d.as_nanos()
}

/// The line that `pick_with_seed` takes for a seed: the seed, cut down to a
/// `usize`, modulo the number of lines.
pub open spec fn seed_index(seed: u128, len: nat) -> int {
    (seed as usize) as int % len as int
}

/// Picks a line by a seed: `None` for no lines, else the line at
/// `seed_index`.
pub fn pick_with_seed(lines: &[String], seed: u128) -> (res: Option<&str>)
    ensures
        lines@.len() == 0 ==> res is None,
        lines@.len() > 0 ==> (res matches Option::Some(s) && s@ == lines@[seed_index(
            seed,
            lines@.len(),
        )]@),
{
    if lines.len() == 0 {
        return None;
    }
    let idx = (seed as usize) % lines.len();
    Some(lines[idx].as_str())
}

/// Picks one of the lines, led by the clock: `None` when there are none,
/// else one of them.
pub fn pick_random(lines: &[String]) -> (res: Option<&str>)
    ensures
        res is None <==> lines@.len() == 0,
        res matches Option::Some(s) ==> exists|i: int|
            0 <= i < lines@.len() && s@ == #[trigger] lines@[i]@,
{
    if lines.len() == 0 {
        return None;
    }
    let now = system_now();
    let seed = match since_unix_epoch(&now) {
        Ok(d) => duration_nanos(&d),
        Err(_) => 0,
    };
    let res = pick_with_seed(lines, seed);
    proof {
        let i = seed_index(seed, lines@.len());
        assert(0 <= i < lines@.len());
    }
    res
}

} // verus!
