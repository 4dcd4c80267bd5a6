use vstd::prelude::*;

verus! {

/// Collects the characters of a string slice, in order.
pub fn chars_of(s: &str) -> (res: Vec<char>)
    ensures
        res@ == s@,
{
    let mut v: Vec<char> = Vec::new();
    for c in it: s.chars()
        invariant
            v@ == it.seq().take(it.index()),
    {
        v.push(c);
    }
    v
}

/// `String::push` from std: appends one character.
#[verifier::external_body]
pub(crate) fn push_char(s: &mut String, c: char)
    ensures
        final(s)@ == old(s)@.push(c),
{
    s.push(c);
}

/// Builds a string from the characters `chars[start..end]`.
pub fn string_from_range(chars: &Vec<char>, start: usize, end: usize) -> (res: String)
    requires
        start <= end <= chars@.len(),
    ensures
        res@ == chars@.subrange(start as int, end as int),
{
    let mut s = String::new();
    let mut i = start;
    while i < end
        invariant
            start <= i <= end <= chars@.len(),
            s@ == chars@.subrange(start as int, i as int),
        decreases end - i,
    {
        push_char(&mut s, chars[i]);
        assert(chars@.subrange(start as int, i + 1) == chars@.subrange(start as int, i as int).push(
            chars@[i as int],
        ));
        i = i + 1;
    }
    s
}

/// Builds a string holding exactly the given characters.
pub fn string_from_chars(chars: &Vec<char>) -> (res: String)
    ensures
        res@ == chars@,
{
    let s = string_from_range(chars, 0, chars.len());
    assert(chars@.subrange(0, chars@.len() as int) == chars@);
    s
}

/// Unicode `White_Space`, the property that `char::is_whitespace` and
/// `str::trim` go by.
pub open spec fn is_white_space(c: char) -> bool {
    ||| c == ' '
    ||| ('\u{9}' <= c && c <= '\u{d}')
    ||| c == '\u{85}'
    ||| c == '\u{a0}'
    ||| c == '\u{1680}'
    ||| ('\u{2000}' <= c && c <= '\u{200a}')
    ||| c == '\u{2028}'
    ||| c == '\u{2029}'
    ||| c == '\u{202f}'
    ||| c == '\u{205f}'
    ||| c == '\u{3000}'
}

/// Whether `c` is Unicode white space.
pub fn white_space(c: char) -> (res: bool)
    ensures
        res == is_white_space(c),
{
    c == ' ' || ('\u{9}' <= c && c <= '\u{d}') || c == '\u{85}' || c == '\u{a0}' || c
        == '\u{1680}' || ('\u{2000}' <= c && c <= '\u{200a}') || c == '\u{2028}' || c
        == '\u{2029}' || c == '\u{202f}' || c == '\u{205f}' || c == '\u{3000}'
}

/// `s` with its leading white space removed.
pub open spec fn trim_start_spec(s: Seq<char>) -> Seq<char>
    decreases s.len(),
{
    if s.len() > 0 && is_white_space(s[0]) {
        trim_start_spec(s.drop_first())
    } else {
        s
    }
}

/// `s` with its trailing white space removed.
pub open spec fn trim_end_spec(s: Seq<char>) -> Seq<char>
    decreases s.len(),
{
    if s.len() > 0 && is_white_space(s.last()) {
        trim_end_spec(s.drop_last())
    } else {
        s
    }
}

/// `s` with white space removed from both ends, as `str::trim` does.
pub open spec fn trim_spec(s: Seq<char>) -> Seq<char> {
    trim_end_spec(trim_start_spec(s))
}

/// The bounds `(i, j)` such that `chars[i..j]` is `chars` trimmed.
pub fn trim_bounds(chars: &Vec<char>) -> (res: (usize, usize))
    ensures
        res.0 <= res.1 <= chars@.len(),
        chars@.subrange(res.0 as int, res.1 as int) == trim_spec(chars@),
{
    let n = chars.len();
    let mut i: usize = 0;
    assert(chars@.subrange(0, n as int) == chars@);
    while i < n && white_space(chars[i])
        invariant
            i <= n == chars@.len(),
            trim_start_spec(chars@) == trim_start_spec(chars@.subrange(i as int, n as int)),
        decreases n - i,
    {
        assert(chars@.subrange(i as int, n as int).drop_first() == chars@.subrange(
            i + 1,
            n as int,
        ));
        i = i + 1;
    }
    let mut j: usize = n;
    while j > i && white_space(chars[j - 1])
        invariant
            i <= j <= n == chars@.len(),
            trim_start_spec(chars@) == chars@.subrange(i as int, n as int),
            trim_spec(chars@) == trim_end_spec(chars@.subrange(i as int, j as int)),
        decreases j - i,
    {
        assert(chars@.subrange(i as int, j as int).drop_last() == chars@.subrange(
            i as int,
            j - 1,
        ));
        j = j - 1;
    }
    (i, j)
}

/// The name for what `str::to_lowercase` returns: the Unicode lower-case
/// mapping of each character, which takes tables to state.
pub uninterp spec fn lowercase_of(s: Seq<char>) -> Seq<char>;

/// `str::to_lowercase` from std.
#[verifier::external_body]
pub(crate) fn to_lowercase(s: &str) -> (res: String)
    ensures
        res@ == lowercase_of(s@),
{
    s.to_lowercase()
}

/// `needle` occurs in `hay` as a contiguous run of characters.
pub open spec fn contains_seq(hay: Seq<char>, needle: Seq<char>) -> bool {
    exists|i: int|
        0 <= i && i + needle.len() <= hay.len() && #[trigger] hay.subrange(i, i + needle.len())
            == needle
}

/// Whether `needle` matches `hay` at position `at`.
fn matches_at(hay: &Vec<char>, needle: &Vec<char>, at: usize) -> (res: bool)
    requires
        at + needle@.len() <= hay@.len(),
    ensures
        res == (hay@.subrange(at as int, at + needle@.len()) == needle@),
{
    let mut k: usize = 0;
    while k < needle.len()
        invariant
            k <= needle@.len(),
            at + needle.len() <= hay.len(),
            forall|m: int| 0 <= m < k ==> hay@[at + m] == needle@[m],
        decreases needle@.len() - k,
    {
        if hay[at + k] != needle[k] {
            assert(hay@.subrange(at as int, at + needle@.len())[k as int] != needle@[k as int]);
            return false;
        }
        k = k + 1;
    }
    assert(hay@.subrange(at as int, at + needle@.len()) == needle@);
    true
}

/// Whether `needle` occurs in `hay`, as `str::contains` with a string
/// pattern answers.
pub fn contains_chars(hay: &Vec<char>, needle: &Vec<char>) -> (res: bool)
    ensures
        res == contains_seq(hay@, needle@),
{
    if needle.len() > hay.len() {
        return false;
    }
    let last = hay.len() - needle.len();
    let mut at: usize = 0;
    loop
        invariant
            at <= last,
            last + needle.len() == hay.len(),
            forall|i: int|
                0 <= i < at ==> #[trigger] hay@.subrange(i, i + needle@.len()) != needle@,
        decreases last - at,
    {
        if matches_at(hay, needle, at) {
            return true;
        }
        if at == last {
            return false;
        }
        at = at + 1;
    }
}

/// Whether two character vectors hold the same characters.
pub fn same_chars(a: &Vec<char>, b: &Vec<char>) -> (res: bool)
    ensures
        res == (a@ == b@),
{
    if a.len() != b.len() {
        return false;
    }
    let mut i: usize = 0;
    while i < a.len()
        invariant
            a@.len() == b@.len(),
            i <= a@.len(),
            forall|k: int| 0 <= k < i ==> a@[k] == b@[k],
        decreases a@.len() - i,
    {
        if a[i] != b[i] {
            return false;
        }
        i = i + 1;
    }
    assert(a@ == b@);
    true
}

/// Whether two string slices hold the same characters.
pub fn same_text(a: &str, b: &str) -> (res: bool)
    ensures
        res == (a@ == b@),
{
    let x = chars_of(a);
    let y = chars_of(b);
    same_chars(&x, &y)
}

/// A printable ASCII character other than space.
pub open spec fn is_ascii_graphic(c: char) -> bool {
    '!' <= c && c <= '~'
}

/// The string without its last character; an empty string stays empty.
pub fn without_last_char(s: &String) -> (res: String)
    ensures
        res@ == (if s@.len() == 0 {
            s@
        } else {
            s@.drop_last()
        }),
{
    let chars = chars_of(s.as_str());
    if chars.len() == 0 {
        return String::new();
    }
    string_from_range(&chars, 0, chars.len() - 1)
}

/// The string with `c` appended.
pub fn with_char(s: &String, c: char) -> (res: String)
    ensures
        res@ == s@.push(c),
{
    let mut out = s.clone();
    push_char(&mut out, c);
    out
}

/// An ASCII decimal digit.
pub open spec fn is_ascii_digit(c: char) -> bool {
    '0' <= c && c <= '9'
}

/// The value of one ASCII digit.
pub open spec fn digit_value(c: char) -> nat {
    (c as int - '0' as int) as nat
}

/// The decimal value of a run of digits.
pub open spec fn digits_value(d: Seq<char>) -> nat
    decreases d.len(),
{
    if d.len() == 0 {
        0
    } else {
        digits_value(d.drop_last()) * 10 + digit_value(d.last())
    }
}

/// The run of ASCII digits that ends `s`.
pub open spec fn trailing_digits(s: Seq<char>) -> Seq<char>
    decreases s.len(),
{
    if s.len() > 0 && is_ascii_digit(s.last()) {
        trailing_digits(s.drop_last()).push(s.last())
    } else {
        Seq::empty()
    }
}

/// What `parse::<u32>` keeps of a run of digits: its value when the run is
/// not empty and the value fits in a `u32`, nothing otherwise.
pub open spec fn run_number(d: Seq<char>) -> Seq<u32> {
    if d.len() > 0 && digits_value(d) <= u32::MAX {
        seq![digits_value(d) as u32]
    } else {
        Seq::empty()
    }
}

/// The last character of `s` that is not white space is a ':', as in
/// "PING: " before a number.
pub open spec fn label_state(s: Seq<char>) -> bool
    decreases s.len(),
{
    if s.len() == 0 {
        false
    } else if is_white_space(s.last()) {
        label_state(s.drop_last())
    } else {
        s.last() == ':'
    }
}

/// The digit run that ends `t` is the value of a label: a ':' stands
/// before it, with white space between at most.
pub open spec fn run_labelled(t: Seq<char>) -> bool {
    label_state(t.subrange(0, t.len() - trailing_digits(t).len()))
}

/// The number of the run that ends `t`, with whether it is a label's value.
pub open spec fn run_entry(t: Seq<char>) -> Seq<(u32, bool)> {
    if run_number(trailing_digits(t)).len() == 1 {
        seq![(run_number(trailing_digits(t))[0], run_labelled(t))]
    } else {
        Seq::empty()
    }
}

/// The numbers of the digit runs of `s` that a non-digit has closed.
pub open spec fn closed_runs(s: Seq<char>) -> Seq<(u32, bool)>
    decreases s.len(),
{
    if s.len() == 0 {
        Seq::empty()
    } else if is_ascii_digit(s.last()) {
        closed_runs(s.drop_last())
    } else {
        closed_runs(s.drop_last()) + run_entry(s.drop_last())
    }
}

/// The numbers found in `s`, each maximal run of ASCII digits whose value
/// fits in a `u32`, in order; each marked with whether it is the value of a
/// label, a ':' standing before it with white space between at most, as in
/// "PING:46" or "FPS: 60".
pub open spec fn number_runs(s: Seq<char>) -> Seq<(u32, bool)> {
    closed_runs(s) + run_entry(s)
}

/// The numbers found in `s`: each maximal run of ASCII digits whose value
/// fits in a `u32`, in order.  This is what splitting at every non-digit and
/// keeping the pieces that parse as `u32` gives.
pub open spec fn numbers_spec(s: Seq<char>) -> Seq<u32> {
    number_runs(s).map_values(|p: (u32, bool)| p.0)
}

proof fn lemma_trailing_push(t: Seq<char>, c: char)
    requires
        is_ascii_digit(c),
    ensures
        trailing_digits(t.push(c)) == trailing_digits(t).push(c),
        t.push(c).subrange(0, t.push(c).len() - trailing_digits(t.push(c)).len()) == t.subrange(
            0,
            t.len() - trailing_digits(t).len(),
        ),
{
    assert(t.push(c).drop_last() == t);
    lemma_trailing_len(t);
    assert(t.push(c).subrange(0, t.len() - trailing_digits(t).len()) == t.subrange(
        0,
        t.len() - trailing_digits(t).len(),
    ));
}

proof fn lemma_trailing_len(s: Seq<char>)
    ensures
        trailing_digits(s).len() <= s.len(),
    decreases s.len(),
{
    if s.len() > 0 && is_ascii_digit(s.last()) {
        lemma_trailing_len(s.drop_last());
    }
}

/// The numbers in `text`, each with whether it is the value of a label,
/// as `number_runs` describes them.
pub fn number_runs_in(text: &str) -> (res: Vec<(u32, bool)>)
    ensures
        res@ == number_runs(text@),
{
    let chars = chars_of(text);
    let n = chars.len();
    let mut nums: Vec<(u32, bool)> = Vec::new();
    let mut cur: u64 = 0;
    let mut in_run = false;
    let mut too_big = false;
    let mut labelled = false;
    let mut label = false;
    let mut i: usize = 0;
    while i < n
        invariant
            i <= n == chars@.len(),
            chars@ == text@,
            nums@ == closed_runs(chars@.take(i as int)),
            in_run == (trailing_digits(chars@.take(i as int)).len() > 0),
            !too_big ==> cur == digits_value(trailing_digits(chars@.take(i as int))) && cur
                <= u32::MAX,
            too_big ==> digits_value(trailing_digits(chars@.take(i as int))) > u32::MAX,
            in_run ==> labelled == run_labelled(chars@.take(i as int)),
            !in_run ==> label == label_state(chars@.take(i as int)),
        decreases n - i,
    {
        let ghost pre = chars@.take(i as int);
        let c = chars[i];
        assert(chars@.take(i + 1) == pre.push(c));
        assert(pre.push(c).drop_last() == pre);
        if '0' <= c && c <= '9' {
            let d = (c as u32 - '0' as u32) as u64;
            proof {
                lemma_trailing_push(pre, c);
                assert(trailing_digits(pre).push(c).drop_last() == trailing_digits(pre));
            }
            if !in_run {
                labelled = label;
                proof {
                    assert(trailing_digits(pre).len() == 0);
                    assert(pre.subrange(0, pre.len() as int) == pre);
                }
            }
            if !too_big {
                let next = cur * 10 + d;
                if next > 4294967295 {
                    too_big = true;
                } else {
                    cur = next;
                }
            }
            in_run = true;
        } else {
            if in_run {
                proof {
                    assert(pre.len() > 0 && is_ascii_digit(pre.last()));
                    assert(closed_runs(pre.push(c)) == closed_runs(pre) + run_entry(pre));
                    assert(!is_white_space(pre.last()));
                }
                if !too_big {
                    nums.push((cur as u32, labelled));
                }
                label = false;
            } else {
                proof {
                    if pre.len() > 0 {
                        assert(!is_ascii_digit(pre.last()));
                    }
                    assert(run_entry(pre) == Seq::<(u32, bool)>::empty());
                }
            }
            assert(label == label_state(pre));
            if !white_space(c) {
                label = c == ':';
            }
            cur = 0;
            in_run = false;
            too_big = false;
        }
        i = i + 1;
    }
    assert(chars@.take(n as int) == chars@);
    if in_run && !too_big {
        nums.push((cur as u32, labelled));
    }
    nums
}

/// The numbers in `text`, as `numbers_spec` describes them.
pub fn numbers_in(text: &str) -> (res: Vec<u32>)
    ensures
        res@ == numbers_spec(text@),
{
    let runs = number_runs_in(text);
    let mut out: Vec<u32> = Vec::new();
    let mut i: usize = 0;
    while i < runs.len()
        invariant
            i <= runs@.len(),
            out@ == runs@.take(i as int).map_values(|p: (u32, bool)| p.0),
        decreases runs@.len() - i,
    {
        out.push(runs[i].0);
        assert(runs@.take(i + 1) == runs@.take(i as int).push(runs@[i as int]));
        i = i + 1;
    }
    assert(runs@.take(runs@.len() as int) == runs@);
    out
}

} // verus!
