use crate::text::{chars_of, string_from_chars};
use vstd::prelude::*;

verus! {

/// Joins the parts with a space, the way text is built up by appending a
/// part and putting a space first whenever the text so far is not empty.
pub open spec fn join_spaced(parts: Seq<Seq<char>>) -> Seq<char>
    decreases parts.len(),
{
    if parts.len() == 0 {
        Seq::empty()
    } else {
        let acc = join_spaced(parts.drop_last());
        if acc.len() == 0 {
            parts.last()
        } else {
            acc + seq![' '] + parts.last()
        }
    }
}

/// Strings as characters.
pub open spec fn strs(v: Seq<String>) -> Seq<Seq<char>> {
    v.map_values(|s: String| s@)
}

/// The words of each recognised line, as characters.
pub open spec fn lines_view(lines: Seq<Vec<String>>) -> Seq<Seq<Seq<char>>> {
    lines.map_values(|l: Vec<String>| strs(l@))
}

/// The text of each line (its words joined by spaces), leaving out lines
/// whose text is empty.
pub open spec fn line_texts(lines: Seq<Seq<Seq<char>>>) -> Seq<Seq<char>>
    decreases lines.len(),
{
    if lines.len() == 0 {
        Seq::empty()
    } else {
        let t = join_spaced(lines.last());
        let rest = line_texts(lines.drop_last());
        if t.len() == 0 {
            rest
        } else {
            rest.push(t)
        }
    }
}

fn append(out: &mut Vec<char>, s: &Vec<char>)
    ensures
        final(out)@ == old(out)@ + s@,
{
    let mut k: usize = 0;
    while k < s.len()
        invariant
            k <= s@.len(),
            out@ == old(out)@ + s@.take(k as int),
        decreases s@.len() - k,
    {
        out.push(s[k]);
        assert(s@.take(k + 1) == s@.take(k as int).push(s@[k as int]));
        k = k + 1;
    }
    assert(s@.take(s@.len() as int) == s@);
}

fn join_words(words: &Vec<String>) -> (res: Vec<char>)
    ensures
        res@ == join_spaced(strs(words@)),
{
    let ghost parts = strs(words@);
    let mut acc: Vec<char> = Vec::new();
    let mut j: usize = 0;
    assert(parts.take(0) == Seq::<Seq<char>>::empty());
    while j < words.len()
        invariant
            j <= words@.len(),
            parts == strs(words@),
            acc@ == join_spaced(parts.take(j as int)),
        decreases words@.len() - j,
    {
        let w = chars_of(words[j].as_str());
        assert(parts.take(j + 1).drop_last() == parts.take(j as int));
        if acc.len() > 0 {
            acc.push(' ');
        }
        append(&mut acc, &w);
        j = j + 1;
    }
    assert(parts.take(words@.len() as int) == parts);
    acc
}

/// The text of an OCR result given as the words of each line: the words of
/// a line joined by spaces, and the non-empty lines joined by spaces.
pub fn extract_text(lines: &Vec<Vec<String>>) -> (res: String)
    ensures
        res@ == join_spaced(line_texts(lines_view(lines@))),
{
    let ghost all = lines_view(lines@);
    let mut acc: Vec<char> = Vec::new();
    let mut i: usize = 0;
    assert(all.take(0) == Seq::<Seq<Seq<char>>>::empty());
    while i < lines.len()
        invariant
            i <= lines@.len(),
            all == lines_view(lines@),
            acc@ == join_spaced(line_texts(all.take(i as int))),
        decreases lines@.len() - i,
    {
        let t = join_words(&lines[i]);
        assert(all.take(i + 1).drop_last() == all.take(i as int));
        assert(all.take(i + 1).last() == strs(lines@[i as int]@));
        if t.len() > 0 {
            let ghost before = line_texts(all.take(i as int));
            assert(line_texts(all.take(i + 1)) == before.push(t@));
            assert(line_texts(all.take(i + 1)).drop_last() == before);
            if acc.len() > 0 {
                acc.push(' ');
            }
            append(&mut acc, &t);
        }
        i = i + 1;
    }
    assert(all.take(lines@.len() as int) == all);
    string_from_chars(&acc)
}

} // verus!
