//! Pieces of text put together.

use vstd::prelude::*;
use vstd::string::*;

verus! {

/// `a` followed by `b`.
pub fn concat2(a: &str, b: &str) -> (joined: String)
    ensures
        joined@ == a@ + b@,
{
    let mut joined = a.to_owned();
    joined.append(b);
    joined
}

/// `a` followed by `b` and `c`.
pub fn concat3(a: &str, b: &str, c: &str) -> (joined: String)
    ensures
        joined@ == a@ + b@ + c@,
{
    let mut joined = concat2(a, b);
    joined.append(c);
    joined
}

/// `a` followed by `b`, `c` and `d`.
pub fn concat4(a: &str, b: &str, c: &str, d: &str) -> (joined: String)
    ensures
        joined@ == a@ + b@ + c@ + d@,
{
    let mut joined = concat3(a, b, c);
    joined.append(d);
    joined
}

/// The texts that a vector of strings holds.
pub open spec fn texts(strings: Seq<String>) -> Seq<Seq<char>> {
    strings.map_values(|string: String| string@)
}

/// Adds `text` to the end of `strings`.
pub fn push_text(strings: &mut Vec<String>, text: &str)
    ensures
        texts(final(strings)@) == texts(old(strings)@).push(text@),
{
    let ghost before = strings@;
    strings.push(text.to_owned());
    assert(texts(strings@) =~= texts(before).push(text@));
}

/// The part of `text` before its first `mark`, or all of it where there is none.
pub open spec fn before_first(text: Seq<char>, mark: char) -> Seq<char>
    decreases text.len(),
{
    if text.len() == 0 || text[0] == mark {
        Seq::empty()
    } else {
        seq![text[0]] + before_first(text.skip(1), mark)
    }
}

/// The part of `text` before its first `mark`, or all of it where there is none.
pub fn take_before(text: &str, mark: char) -> (part: String)
    ensures
        part@ == before_first(text@, mark),
{
    let len: usize = text.unicode_len();
    let mut at: usize = 0;
    proof {
        assert(text@.skip(0) =~= text@);
        assert(text@.take(0) + before_first(text@, mark) =~= before_first(text@, mark));
    }
    while at < len && text.get_char(at) != mark
        invariant
            len == text@.len(),
            at <= len,
            before_first(text@, mark) == text@.take(at as int) + before_first(
                text@.skip(at as int),
                mark,
            ),
        decreases len - at,
    {
        proof {
            let rest = text@.skip(at as int);
            assert(rest[0] == text@[at as int]);
            assert(rest.skip(1) =~= text@.skip(at + 1));
            assert(text@.take(at as int) + (seq![rest[0]] + before_first(rest.skip(1), mark))
                =~= text@.take(at + 1) + before_first(text@.skip(at + 1), mark));
        }
        at = at + 1;
    }
    proof {
        let rest = text@.skip(at as int);
        assert(before_first(rest, mark) =~= Seq::empty());
        assert(text@.take(at as int) + Seq::empty() =~= text@.take(at as int));
    }
    text.substring_char(0, at).to_owned()
}

/// What stands before the first mark is the start of the text up to a mark: it has none
/// itself, and where it is not all of the text, a mark follows it.
pub proof fn law_before_first_stops_at_the_mark(text: Seq<char>, mark: char)
    ensures
        ({
            let part = before_first(text, mark);
            &&& part.len() <= text.len()
            &&& part == text.take(part.len() as int)
            &&& forall|i: int| 0 <= i < part.len() ==> #[trigger] text[i] != mark
            &&& part.len() < text.len() ==> text[part.len() as int] == mark
        }),
    decreases text.len(),
{
    let part = before_first(text, mark);
    if text.len() > 0 && text[0] != mark {
        let rest = before_first(text.skip(1), mark);
        law_before_first_stops_at_the_mark(text.skip(1), mark);
        assert(part == seq![text[0]] + rest);
        assert(part =~= text.take(part.len() as int)) by {
            assert forall|i: int| 0 <= i < part.len() implies part[i] == text[i] by {
                if i > 0 {
                    assert(rest[i - 1] == text.skip(1).take(rest.len() as int)[i - 1]);
                }
            }
        }
        assert forall|i: int| 0 <= i < part.len() implies #[trigger] text[i] != mark by {
            if i > 0 {
                assert(text.skip(1)[i - 1] == text[i]);
            }
        }
    } else {
        assert(part =~= text.take(0));
    }
}

/// The texts of strings are those of each of them, in their order.
pub proof fn law_texts_are_those_of_the_strings(strings: Seq<String>)
    ensures
        texts(strings).len() == strings.len(),
        forall|i: int| 0 <= i < strings.len() ==> #[trigger] texts(strings)[i] == strings[i]@,
{
}

} // verus!
