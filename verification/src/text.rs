//! Small operations on text: the part of a string before a separator, and
//! comparison of two strings by their characters.

use vstd::prelude::*;

verus! {

/// The characters of `s` before the first occurrence of `sep`; all of `s`
/// when `sep` does not occur.
pub open spec fn prefix_before(s: Seq<char>, sep: char) -> Seq<char>
    decreases s.len(),
{
    if s.len() == 0 {
        s
    } else if s[0] == sep {
        Seq::empty()
    } else {
        seq![s[0]] + prefix_before(s.drop_first(), sep)
    }
}

/// When `i` is the position of the first `sep` (or the length of `s` if
/// there is none), the prefix before `sep` is the first `i` characters.
pub proof fn lemma_prefix_before_take(s: Seq<char>, sep: char, i: int)
    requires
        0 <= i <= s.len(),
        forall|j: int| 0 <= j < i ==> s[j] != sep,
        i == s.len() || s[i] == sep,
    ensures
        prefix_before(s, sep) == s.take(i),
    decreases i,
{
    if i == 0 {
        assert(s.take(0) =~= Seq::<char>::empty());
        if s.len() != 0 {
            assert(s[0] == sep);
        }
    } else {
        lemma_prefix_before_take(s.drop_first(), sep, i - 1);
        assert(s.take(i) =~= seq![s[0]] + s.drop_first().take(i - 1));
    }
}

/// The part of `s` before the first `sep`, as `s.split(sep).next()` gives it.
pub fn prefix_until<'a>(s: &'a str, sep: char) -> (res: &'a str)
    ensures
        res@ == prefix_before(s@, sep),
{
    let len = s.unicode_len();
    let mut i: usize = 0;
    while i < len
        invariant
            len == s@.len(),
            i <= len,
            forall|j: int| 0 <= j < i ==> s@[j] != sep,
        ensures
            i <= len,
            forall|j: int| 0 <= j < i ==> s@[j] != sep,
            i == len || s@[i as int] == sep,
        decreases len - i,
    {
        if s.get_char(i) == sep {
            break;
        }
        i = i + 1;
    }
    proof {
        lemma_prefix_before_take(s@, sep, i as int);
    }
    s.substring_char(0, i)
}

/// Whether two strings hold the same characters.
pub fn same_text(a: &str, b: &str) -> (res: bool)
    ensures
        res == (a@ == b@),
{
    a.to_owned() == b.to_owned()
}

/// The part before `sep` is a prefix of `s` without `sep` in it, and it ends
/// where `s` ends or at the first `sep`.
pub proof fn lemma_prefix_before_is_first_segment(s: Seq<char>, sep: char)
    ensures
        prefix_before(s, sep).len() <= s.len(),
        s.take(prefix_before(s, sep).len() as int) == prefix_before(s, sep),
        forall|i: int| 0 <= i < prefix_before(s, sep).len() ==> prefix_before(s, sep)[i] != sep,
        prefix_before(s, sep).len() < s.len() ==> s[prefix_before(s, sep).len() as int] == sep,
    decreases s.len(),
{
    if s.len() > 0 && s[0] != sep {
        let rest = s.drop_first();
        lemma_prefix_before_is_first_segment(rest, sep);
        let p = prefix_before(s, sep);
        assert(p =~= seq![s[0]] + prefix_before(rest, sep));
        assert(s.take(p.len() as int) =~= seq![s[0]] + rest.take(prefix_before(rest, sep).len() as int));
    } else if s.len() > 0 {
        assert(s.take(0) =~= Seq::<char>::empty());
    }
}

} // verus!
