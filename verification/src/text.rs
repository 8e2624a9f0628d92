//! Small helpers on strings: equality, characters, joining and splitting.

use vstd::prelude::*;

verus! {

/// Whether two strings hold the same characters.
pub fn str_eq(a: &str, b: &str) -> (same: bool)
    ensures
        same == (a@ == b@),
{
    let x: String = a.to_owned();
    let y: String = b.to_owned();
    x == y
}

/// The characters of `text`, in order.
pub fn to_chars(text: &str) -> (chars: Vec<char>)
    ensures
        chars@ == text@,
{
    let mut chars: Vec<char> = Vec::new();
    for c in it: text.chars()
        invariant
            chars@ == it.seq().take(it.index()),
            it.seq() == text@,
    {
        chars.push(c);
    }
    chars
}

/// `head` followed by `tail`.
pub fn chain(head: &str, tail: &str) -> (joined: String)
    ensures
        joined@ == head@ + tail@,
{
    let mut joined: String = head.to_owned();
    joined.append(tail);
    joined
}

/// The characters of each of `items`.
pub open spec fn texts(items: Seq<String>) -> Seq<Seq<char>> {
    Seq::new(items.len(), |i: int| items[i]@)
}

/// `items` in order, with `sep` between each two neighbours.
pub open spec fn joined(items: Seq<Seq<char>>, sep: Seq<char>) -> Seq<char>
    decreases items.len(),
{
    if items.len() == 0 {
        Seq::empty()
    } else if items.len() == 1 {
        items[0]
    } else {
        joined(items.drop_last(), sep) + sep + items.last()
    }
}

/// `items` in order, with `sep` between each two neighbours.
pub fn join(items: &Vec<String>, sep: &str) -> (text: String)
    ensures
        text@ == joined(texts(items@), sep@),
{
    let mut text: String = String::new();
    let count: usize = items.len();
    let mut i: usize = 0;
    proof {
        assert(texts(items@.take(0)) =~= Seq::<Seq<char>>::empty());
    }
    while i < count
        invariant
            i <= count,
            count == items.len(),
            text@ == joined(texts(items@.take(i as int)), sep@),
        decreases count - i,
    {
        proof {
            let before = texts(items@.take(i as int));
            let after = texts(items@.take(i + 1));
            assert(after.drop_last() =~= before);
            assert(after.last() == items@[i as int]@);
            if i == 0 {
                assert(joined(after, sep@) =~= text@ + items@[i as int]@);
            }
        }
        if i > 0 {
            text.append(sep);
        }
        text.append(items[i].as_str());
        i = i + 1;
    }
    proof {
        assert(items@.take(count as int) =~= items@);
    }
    text
}

/// The first offset of `text` from `from` on at which `c` stands, or the
/// length of `text` where it stands at none.
pub open spec fn find_char(text: Seq<char>, c: char, from: int) -> int
    decreases text.len() - from,
{
    if from >= text.len() {
        text.len() as int
    } else if text[from] == c {
        from
    } else {
        find_char(text, c, from + 1)
    }
}

/// The first offset of `text` at which `c` stands, or the length of `text`
/// where it stands at none.
pub fn index_of_char(text: &Vec<char>, c: char) -> (at: usize)
    ensures
        at == find_char(text@, c, 0),
        at <= text.len(),
{
    let mut at: usize = 0;
    while at < text.len() && text[at] != c
        invariant
            at <= text.len(),
            find_char(text@, c, 0) == find_char(text@, c, at as int),
        decreases text.len() - at,
    {
        at = at + 1;
    }
    at
}

/// Whether `c` is white space: one of the twenty-five characters that have
/// the Unicode property `White_Space`.
pub open spec fn is_whitespace(c: char) -> bool {
    let code = c as u32;
    ||| 0x09 <= code <= 0x0d
    ||| code == 0x20
    ||| code == 0x85
    ||| code == 0xa0
    ||| code == 0x1680
    ||| 0x2000 <= code <= 0x200a
    ||| code == 0x2028
    ||| code == 0x2029
    ||| code == 0x202f
    ||| code == 0x205f
    ||| code == 0x3000
}

/// Whether `c` is white space.
pub fn whitespace(c: char) -> (white: bool)
    ensures
        white == is_whitespace(c),
{
    let code: u32 = c as u32;
    (0x09 <= code && code <= 0x0d) || code == 0x20 || code == 0x85 || code == 0xa0 || code
        == 0x1680 || (0x2000 <= code && code <= 0x200a) || code == 0x2028 || code == 0x2029
        || code == 0x202f || code == 0x205f || code == 0x3000
}

/// `text` without the white space at its start.
pub open spec fn trim_start(text: Seq<char>) -> Seq<char>
    decreases text.len(),
{
    if text.len() > 0 && is_whitespace(text[0]) {
        trim_start(text.skip(1))
    } else {
        text
    }
}

/// `text` without the white space at its end.
pub open spec fn trim_end(text: Seq<char>) -> Seq<char>
    decreases text.len(),
{
    if text.len() > 0 && is_whitespace(text.last()) {
        trim_end(text.drop_last())
    } else {
        text
    }
}

/// `text` without the white space at its start and at its end.
pub open spec fn trimmed(text: Seq<char>) -> Seq<char> {
    trim_end(trim_start(text))
}

/// The pieces into which the occurrences of `sep` part `text`: one more than
/// there are occurrences, in order, none of them holding `sep`.
pub open spec fn pieces(text: Seq<char>, sep: char) -> Seq<Seq<char>>
    decreases text.len(),
{
    if text.len() == 0 {
        seq![Seq::empty()]
    } else {
        let before = pieces(text.drop_last(), sep);
        if text.last() == sep {
            before.push(Seq::empty())
        } else {
            before.drop_last().push(before.last().push(text.last()))
        }
    }
}

/// Each of `items`, trimmed.
pub open spec fn all_trimmed(items: Seq<Seq<char>>) -> Seq<Seq<char>> {
    Seq::new(items.len(), |i: int| trimmed(items[i]))
}

/// The bounds of what is left of `text` between `from` and `to` when the
/// white space at both ends is taken away.
fn trim_bounds(text: &Vec<char>, from: usize, to: usize) -> (bounds: (usize, usize))
    requires
        from <= to <= text.len(),
    ensures
        from <= bounds.0 <= bounds.1 <= to,
        text@.subrange(bounds.0 as int, bounds.1 as int) == trimmed(
            text@.subrange(from as int, to as int),
        ),
{
    let mut first: usize = from;
    while first < to && whitespace(text[first])
        invariant
            from <= first <= to <= text.len(),
            trim_start(text@.subrange(from as int, to as int)) == trim_start(
                text@.subrange(first as int, to as int),
            ),
        decreases to - first,
    {
        proof {
            assert(text@.subrange(first as int, to as int).skip(1) =~= text@.subrange(
                first + 1,
                to as int,
            ));
        }
        first = first + 1;
    }
    let mut last: usize = to;
    while last > first && whitespace(text[last - 1])
        invariant
            first <= last <= to <= text.len(),
            trim_end(text@.subrange(first as int, to as int)) == trim_end(
                text@.subrange(first as int, last as int),
            ),
        decreases last - first,
    {
        proof {
            assert(text@.subrange(first as int, last as int).drop_last() =~= text@.subrange(
                first as int,
                last - 1,
            ));
        }
        last = last - 1;
    }
    (first, last)
}

/// The pieces into which the occurrences of `sep` part `text`, each without
/// the white space at its ends.
pub fn split_trimmed(text: &str, sep: char) -> (items: Vec<String>)
    ensures
        texts(items@) == all_trimmed(pieces(text@, sep)),
{
    let chars: Vec<char> = to_chars(text);
    let len: usize = chars.len();
    let mut items: Vec<String> = Vec::new();
    let mut start: usize = 0;
    let mut i: usize = 0;
    proof {
        assert(chars@.take(0) =~= Seq::<char>::empty());
        assert(chars@.subrange(0, 0) =~= Seq::<char>::empty());
        assert(pieces(chars@.take(0), sep).drop_last() =~= Seq::<Seq<char>>::empty());
        assert(texts(items@) =~= all_trimmed(Seq::<Seq<char>>::empty()));
    }
    while i < len
        invariant
            start <= i <= len,
            len == chars.len(),
            chars@ == text@,
            pieces(chars@.take(i as int), sep).len() > 0,
            pieces(chars@.take(i as int), sep).last() == chars@.subrange(start as int, i as int),
            texts(items@) == all_trimmed(pieces(chars@.take(i as int), sep).drop_last()),
        decreases len - i,
    {
        let ghost before = pieces(chars@.take(i as int), sep);
        let ghost after = pieces(chars@.take(i + 1), sep);
        proof {
            assert(chars@.take(i + 1).drop_last() =~= chars@.take(i as int));
            assert(chars@.take(i + 1).last() == chars@[i as int]);
        }
        if chars[i] == sep {
            let (first, last) = trim_bounds(&chars, start, i);
            let item: String = text.substring_char(first, last).to_owned();
            proof {
                assert(after == before.push(Seq::<char>::empty()));
                assert(after.drop_last() =~= before);
                assert(before =~= before.drop_last().push(before.last()));
                let pushed = texts(items@.push(item));
                assert(texts(items@).len() == before.len() - 1);
                assert forall|j: int| 0 <= j < pushed.len() implies pushed[j] == all_trimmed(
                    before,
                )[j] by {
                    if j < before.len() - 1 {
                        assert(pushed[j] == texts(items@)[j]);
                        assert(all_trimmed(before.drop_last())[j] == trimmed(before[j]));
                    }
                }
                assert(pushed =~= all_trimmed(before));
                assert(chars@.subrange(i + 1, i + 1) =~= Seq::<char>::empty());
            }
            items.push(item);
            start = i + 1;
        } else {
            proof {
                assert(after == before.drop_last().push(before.last().push(chars@[i as int])));
                assert(after.drop_last() =~= before.drop_last());
                assert(chars@.subrange(start as int, i as int).push(chars@[i as int])
                    =~= chars@.subrange(start as int, i + 1));
            }
        }
        i = i + 1;
    }
    let (first, last) = trim_bounds(&chars, start, len);
    let item: String = text.substring_char(first, last).to_owned();
    proof {
        let all = pieces(chars@.take(len as int), sep);
        assert(chars@.take(len as int) =~= chars@);
        assert(all =~= all.drop_last().push(all.last()));
        let pushed = texts(items@.push(item));
        assert(texts(items@).len() == all.len() - 1);
        assert forall|j: int| 0 <= j < pushed.len() implies pushed[j] == all_trimmed(all)[j] by {
            if j < all.len() - 1 {
                assert(pushed[j] == texts(items@)[j]);
                assert(all_trimmed(all.drop_last())[j] == trimmed(all[j]));
            }
        }
        assert(pushed =~= all_trimmed(all));
    }
    items.push(item);
    items
}

} // verus!
