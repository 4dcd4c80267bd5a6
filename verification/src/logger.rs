use crate::text::{chars_of, push_char, string_from_range};
use chrono::Datelike;
use vstd::prelude::*;

verus! {

/// The program's logging: to the console and to one file per day.
pub struct Logger;

/// The start of every log file's name: "faster-chant-".
pub open spec fn log_prefix() -> Seq<char> {
    seq!['f', 'a', 's', 't', 'e', 'r', '-', 'c', 'h', 'a', 'n', 't', '-']
}

/// The end of every log file's name: ".log".
pub open spec fn log_suffix() -> Seq<char> {
    seq!['.', 'l', 'o', 'g']
}

impl Logger {
    /// The name of the log file of a day: "faster-chant-", the date, ".log".
    pub fn file_name(date: &str) -> (res: String)
        ensures
            res@ == log_prefix() + date@ + log_suffix(),
    {
        let mut s = String::new();
        push_char(&mut s, 'f');
        push_char(&mut s, 'a');
        push_char(&mut s, 's');
        push_char(&mut s, 't');
        push_char(&mut s, 'e');
        push_char(&mut s, 'r');
        push_char(&mut s, '-');
        push_char(&mut s, 'c');
        push_char(&mut s, 'h');
        push_char(&mut s, 'a');
        push_char(&mut s, 'n');
        push_char(&mut s, 't');
        push_char(&mut s, '-');
        s.append(date);
        push_char(&mut s, '.');
        push_char(&mut s, 'l');
        push_char(&mut s, 'o');
        push_char(&mut s, 'g');
        s
    }
}

/// How many days of logs are kept.
pub const KEEP_DAYS: u32 = 7;

/// The number of UTF-8 bytes of a character, as `char::len_utf8` gives it.
pub open spec fn char_utf8_len(c: char) -> nat {
    if (c as u32) < 0x80 {
        1
    } else if (c as u32) < 0x800 {
        2
    } else if (c as u32) < 0x10000 {
        3
    } else {
        4
    }
}

/// The number of UTF-8 bytes of a string.
pub open spec fn utf8_len(s: Seq<char>) -> nat
    decreases s.len(),
{
    if s.len() == 0 {
        0
    } else {
        utf8_len(s.drop_last()) + char_utf8_len(s.last())
    }
}

fn char_len_utf8(c: char) -> (res: usize)
    ensures
        res == char_utf8_len(c),
{
    let v = c as u32;
    if v < 0x80 {
        1
    } else if v < 0x800 {
        2
    } else if v < 0x10000 {
        3
    } else {
        4
    }
}

/// A file name of the log's form: "faster-chant-", anything, ".log".
pub open spec fn is_log_name(name: Seq<char>) -> bool {
    &&& name.len() >= log_prefix().len()
    &&& name.subrange(0, log_prefix().len() as int) == log_prefix()
    &&& name.len() >= log_suffix().len()
    &&& name.subrange(name.len() - log_suffix().len(), name.len() as int) == log_suffix()
}

/// The ten bytes after the prefix end at character `k` of `name`: the date
/// field of a log name is `name[13..k]`.
pub open spec fn date_field_ends_at(name: Seq<char>, k: int) -> bool {
    13 <= k <= name.len() && utf8_len(name.subrange(13, k)) == 10
}

/// The name for what `NaiveDate::parse_from_str` returns, as year, month
/// and day: the result of chrono's format parser, which takes pages to state.
pub uninterp spec fn naive_date_ymd(s: Seq<char>, fmt: Seq<char>) -> Option<(i32, u32, u32)>;

/// `chrono::NaiveDate::parse_from_str`: parses `s` by the format `fmt`;
/// the date comes back as its year, month and day, an error as `None`.
#[verifier::external_body]
fn parse_naive_date(s: &str, fmt: &str) -> (res: Option<(i32, u32, u32)>)
    ensures
        res == naive_date_ymd(s@, fmt@),
{
    match chrono::NaiveDate::parse_from_str(s, fmt) {
        Ok(d) => Some((d.year(), d.month(), d.day())),
        Err(_) => None,
    }
}

/// Date `a` comes before date `b`.  (Year, month and day in this order sort
/// dates as chrono's `NaiveDate` does.)
pub open spec fn date_before(a: (i32, u32, u32), b: (i32, u32, u32)) -> bool {
    a.0 < b.0 || (a.0 == b.0 && (a.1 < b.1 || (a.1 == b.1 && a.2 < b.2)))
}

proof fn lemma_utf8_len_grows(s: Seq<char>, a: int, j: int, k: int)
    requires
        0 <= a <= j <= k <= s.len(),
    ensures
        utf8_len(s.subrange(a, j)) + (k - j) <= utf8_len(s.subrange(a, k)),
    decreases k - j,
{
    if j < k {
        lemma_utf8_len_grows(s, a, j, k - 1);
        assert(s.subrange(a, k).drop_last() == s.subrange(a, k - 1));
    }
}

impl Logger {
    /// Whether a file of the log folder is a log from before `cutoff`, to be
    /// removed: its name has the log's form, the ten bytes after the prefix
    /// parse as a `%Y-%m-%d` date, and that date is before the cutoff.
    pub fn is_expired(name: &str, cutoff: (i32, u32, u32)) -> (res: bool)
        requires
            is_log_name(name@) ==> exists|k: int| date_field_ends_at(name@, k),
        ensures
            res == (is_log_name(name@) && {
                let k = choose|k: int| date_field_ends_at(name@, k);
                naive_date_ymd(name@.subrange(13, k), "%Y-%m-%d"@) matches Option::Some(d)
                    && date_before(d, cutoff)
            }),
    {
        let c = chars_of(name);
        let n = c.len();
        assert(c@ == name@);
        if n < 13 || n < 4 {
            return false;
        }
        let pc: Vec<char> = vec!['f', 'a', 's', 't', 'e', 'r', '-', 'c', 'h', 'a', 'n', 't', '-', '.', 'l', 'o', 'g'];
        assert(pc@ == log_prefix() + log_suffix());
        let mut i: usize = 0;
        while i < 13
            invariant
                i <= 13,
                n == c@.len(),
                c@ == name@,
                n >= 13,
                pc@ == log_prefix() + log_suffix(),
                forall|j: int| 0 <= j < i ==> c@[j] == log_prefix()[j],
            decreases 13 - i,
        {
            if c[i] != pc[i] {
                assert(c@.subrange(0, 13)[i as int] != log_prefix()[i as int]);
                assert(log_prefix().len() == 13);
                assert(c@.subrange(0, 13) != log_prefix());
                return false;
            }
            i = i + 1;
        }
        assert(c@.subrange(0, 13) == log_prefix());
        let mut j: usize = 0;
        while j < 4
            invariant
                j <= 4,
                n == c@.len(),
                c@ == name@,
                n >= 13,
                pc@ == log_prefix() + log_suffix(),
                forall|m: int| 0 <= m < j ==> c@[n - 4 + m] == log_suffix()[m],
            decreases 4 - j,
        {
            if c[n - 4 + j] != pc[13 + j] {
                assert(c@.subrange(n - 4, n as int)[j as int] != log_suffix()[j as int]);
                assert(log_suffix().len() == 4);
                assert(c@.subrange(n - 4, n as int) != log_suffix());
                return false;
            }
            j = j + 1;
        }
        assert(c@.subrange(n - 4, n as int) == log_suffix());
        assert(is_log_name(name@));
        let ghost s = c@;
        let mut k: usize = 13;
        let mut bytes: usize = 0;
        assert(s.subrange(13, 13) == Seq::<char>::empty());
        while k < n && bytes < 10
            invariant
                13 <= k <= n,
                n == s.len(),
                s == c@,
                bytes == utf8_len(s.subrange(13, k as int)),
                bytes <= 13,
                k > 13 ==> utf8_len(s.subrange(13, k - 1)) < 10,
            decreases n - k,
        {
            assert(s.subrange(13, k + 1).drop_last() == s.subrange(13, k as int));
            bytes = bytes + char_len_utf8(c[k]);
            k = k + 1;
        }
        proof {
            let w = choose|w: int| date_field_ends_at(s, w);
            if w < k {
                lemma_utf8_len_grows(s, 13, w, k as int);
                lemma_utf8_len_grows(s, 13, w, (k - 1) as int);
                assert(s.subrange(13, k as int).drop_last() == s.subrange(13, k - 1));
            } else if w > k {
                lemma_utf8_len_grows(s, 13, k as int, w);
            }
            assert(w == k);
        }
        let date = string_from_range(&c, 13, k);
        match parse_naive_date(date.as_str(), "%Y-%m-%d") {
            Some(d) => d.0 < cutoff.0 || (d.0 == cutoff.0 && (d.1 < cutoff.1 || (d.1 == cutoff.1
                && d.2 < cutoff.2))),
            None => false,
        }
    }
}

} // verus!
