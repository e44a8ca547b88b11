//! Small helpers on text, stated over sequences of characters.

use vstd::prelude::*;
use vstd::std_specs::iter::IteratorSpec;

verus! {

broadcast use vstd::string::group_string_axioms;

/// The texts that a list of strings holds, in order.
pub open spec fn texts(list: Seq<String>) -> Seq<Seq<char>> {
    list.map_values(|s: String| s@)
}

/// The place of the first space in `s`, or the length of `s` if it has none.
pub open spec fn first_space(s: Seq<char>) -> int
    decreases s.len(),
{
    if s.len() == 0 || s[0] == ' ' {
        0
    } else {
        1 + first_space(s.skip(1))
    }
}

/// `first_space` is the one place before which there is no space and at
/// which there is one, or the text ends.
pub proof fn lemma_first_space(s: Seq<char>, at: int)
    requires
        0 <= at <= s.len(),
        forall|k: int| 0 <= k < at ==> s[k] != ' ',
        at < s.len() ==> s[at] == ' ',
    ensures
        first_space(s) == at,
    decreases s.len(),
{
    if s.len() > 0 && s[0] != ' ' {
        lemma_first_space(s.skip(1), at - 1);
    }
}

/// Whether two texts hold the same characters.
pub fn same_text(a: &str, b: &str) -> (same: bool)
    ensures
        same == (a@ == b@),
{
    let mut other = b.chars();
    let n = a.unicode_len();
    let mut at: usize = 0;
    for c in it: a.chars()
        invariant
            at == it.index(),
            n == a@.len(),
            it.seq() == a@,
            at <= b@.len(),
            other.remaining() == b@.skip(at as int),
            a@.take(at as int) == b@.take(at as int),
    {
        match other.next() {
            Some(d) => {
                if c != d {
                    assert(a@[at as int] != b@[at as int]);
                    return false;
                }
            },
            None => {
                assert(b@.len() == at);
                return false;
            },
        }
        assert(b@.skip(at as int).drop_first() =~= b@.skip(at + 1));
        assert(a@.take(at + 1) =~= a@.take(at as int).push(a@[at as int]));
        assert(b@.take(at + 1) =~= b@.take(at as int).push(b@[at as int]));
        at += 1;
    }
    assert(a@.take(at as int) =~= a@);
    match other.next() {
        Some(_) => false,
        None => {
            assert(b@.take(at as int) =~= b@);
            true
        },
    }
}

/// Splits `line` at its first space: the word before it, and what follows
/// the space if there is one.
pub fn split_word(line: &str) -> (parts: (&str, Option<&str>))
    ensures
        parts.0@ == line@.take(first_space(line@)),
        first_space(line@) < line@.len() ==> parts.1 is Some && (parts.1->0)@ == line@.skip(
            first_space(line@) + 1,
        ),
        first_space(line@) >= line@.len() ==> parts.1 is None,
{
    let n = line.unicode_len();
    let mut at: usize = 0;
    for c in it: line.chars()
        invariant
            at == it.index(),
            n == line@.len(),
            it.seq() == line@,
            forall|k: int| 0 <= k < at ==> line@[k] != ' ',
    {
        if c == ' ' {
            proof {
                lemma_first_space(line@, at as int);
            }
            return (line.substring_char(0, at), Some(line.substring_char(at + 1, n)));
        }
        at += 1;
    }
    proof {
        lemma_first_space(line@, at as int);
    }
    (line.substring_char(0, at), None)
}

} // verus!
