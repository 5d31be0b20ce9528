//! Cutting a text into the fragments that hold a query and the fragments
//! between them.

use vstd::prelude::*;
use vstd::string::StrSliceExecFns;
use crate::text::{lowercase, occurs_at, to_lowercase};

verus! {

/// The fragments of `text` from character `last` on, where the search for
/// `needle` in `folded`, the lower-case form of the text, has come to
/// character `at`.
///
/// Each place where the needle stands gives a marked fragment of the
/// needle's length, and the search goes on behind it; what lies between two
/// such places, before the first and behind the last, gives a fragment that
/// is not marked.
pub open spec fn fragments_from(
    text: Seq<char>,
    folded: Seq<char>,
    needle: Seq<char>,
    last: int,
    at: int,
) -> Seq<(Seq<char>, bool)>
    decreases folded.len() - at,
{
    if needle.len() == 0 {
        Seq::empty()
    } else if at + needle.len() > folded.len() {
        if last < text.len() {
            seq![(text.subrange(last, text.len() as int), false)]
        } else {
            Seq::empty()
        }
    } else if occurs_at(folded, needle, at) {
        let between = if at > last {
            seq![(text.subrange(last, at), false)]
        } else {
            Seq::empty()
        };
        between + seq![(text.subrange(at, at + needle.len()), true)] + fragments_from(
            text,
            folded,
            needle,
            at + needle.len(),
            at + needle.len(),
        )
    } else {
        fragments_from(text, folded, needle, last, at + 1)
    }
}

/// The fragments of `text` for a needle that is searched in `folded`.
///
/// The text comes back whole and unmarked where there is nothing to search
/// for, where the needle stands nowhere, and where `folded` is not as long
/// as the text, so that places in the one are no places in the other.
pub open spec fn cut(text: Seq<char>, folded: Seq<char>, needle: Seq<char>) -> Seq<
    (Seq<char>, bool),
> {
    if needle.len() == 0 || folded.len() != text.len() {
        seq![(text, false)]
    } else {
        let found = fragments_from(text, folded, needle, 0, 0);
        if found.len() == 0 {
            seq![(text, false)]
        } else {
            found
        }
    }
}

/// The fragments of `text` for a query: both are compared in lower case.
pub open spec fn highlighted(text: Seq<char>, query: Seq<char>) -> Seq<(Seq<char>, bool)> {
    if query.len() == 0 {
        seq![(text, false)]
    } else {
        cut(text, lowercase(text), lowercase(query))
    }
}

/// The values of a list of fragments.
pub open spec fn fragments_view(fragments: Seq<(String, bool)>) -> Seq<(Seq<char>, bool)> {
    fragments.map_values(|f: (String, bool)| (f.0@, f.1))
}

/// The fragments put together again.
pub open spec fn joined(fragments: Seq<(Seq<char>, bool)>) -> Seq<char>
    decreases fragments.len(),
{
    if fragments.len() == 0 {
        Seq::empty()
    } else {
        fragments[0].0 + joined(fragments.drop_first())
    }
}

/// Collects the characters of a text.
fn chars_of(s: &str) -> (res: Vec<char>)
    ensures
        res@ == s@,
{
    let mut res: Vec<char> = Vec::new();
    for c in it: s.chars()
        invariant
            res@ == it.seq().take(it.index() as int),
            it.seq() == s@,
    {
        res.push(c);
    }
    res
}

/// Tells whether `needle` stands in `hay` at character `at`.
fn stands_at(hay: &Vec<char>, needle: &Vec<char>, at: usize) -> (res: bool)
    requires
        at + needle.len() <= hay.len(),
    ensures
        res == occurs_at(hay@, needle@, at as int),
{
    let mut k: usize = 0;
    while k < needle.len()
        invariant
            k <= needle.len(),
            at + needle.len() <= hay.len(),
            forall|j: int| 0 <= j < k ==> hay[at + j] == needle[j],
        decreases needle.len() - k,
    {
        if hay[at + k] != needle[k] {
            proof {
                assert(hay@.subrange(at as int, at + needle.len())[k as int] == hay[at + k]);
            }
            return false;
        }
        k = k + 1;
    }
    proof {
        assert(hay@.subrange(at as int, at + needle.len()) =~= needle@);
    }
    true
}

/// Cuts `text` into fragments by the places where `needle` stands in
/// `folded`.
pub fn cut_fragments(text: &str, folded: &str, needle: &str) -> (res: Vec<(String, bool)>)
    ensures
        fragments_view(res@) == cut(text@, folded@, needle@),
{
    let hay = chars_of(folded);
    let pin = chars_of(needle);
    let len: usize = text.unicode_len();
    let mut res: Vec<(String, bool)> = Vec::new();
    if pin.len() == 0 || hay.len() != len {
        res.push((text.to_owned(), false));
        proof {
            assert(fragments_view(res@) =~= seq![(text@, false)]);
        }
        return res;
    }
    let ghost whole = fragments_from(text@, hay@, pin@, 0, 0);
    let mut last: usize = 0;
    let mut at: usize = 0;
    while hay.len() - at >= pin.len()
        invariant
            last <= at <= hay.len(),
            hay.len() == len,
            len == text@.len(),
            pin.len() > 0,
            hay@ == folded@,
            pin@ == needle@,
            whole == fragments_from(text@, hay@, pin@, 0, 0),
            fragments_view(res@) + fragments_from(text@, hay@, pin@, last as int, at as int)
                == whole,
        decreases hay.len() - at,
    {
        let ghost before = fragments_view(res@);
        let ghost rest = fragments_from(text@, hay@, pin@, last as int, at as int);
        if stands_at(&hay, &pin, at) {
            let ghost next = fragments_from(
                text@,
                hay@,
                pin@,
                at + pin.len(),
                at + pin.len(),
            );
            if at > last {
                res.push((text.substring_char(last, at).to_owned(), false));
            }
            let ghost middle = fragments_view(res@);
            res.push((text.substring_char(at, at + pin.len()).to_owned(), true));
            proof {
                let marked = (text@.subrange(at as int, at + pin.len()), true);
                if at > last {
                    let plain = (text@.subrange(last as int, at as int), false);
                    assert(middle =~= before.push(plain));
                    assert(rest == seq![plain] + seq![marked] + next);
                    assert(fragments_view(res@) =~= before.push(plain).push(marked));
                    assert(before.push(plain).push(marked) + next =~= before + (seq![plain]
                        + seq![marked] + next));
                } else {
                    assert(middle =~= before);
                    assert(rest == Seq::<(Seq<char>, bool)>::empty() + seq![marked] + next);
                    assert(fragments_view(res@) =~= before.push(marked));
                    assert(before.push(marked) + next =~= before + (Seq::<
                        (Seq<char>, bool),
                    >::empty() + seq![marked] + next));
                }
            }
            at = at + pin.len();
            last = at;
        } else {
            at = at + 1;
        }
    }
    let ghost before = fragments_view(res@);
    if last < len {
        res.push((text.substring_char(last, len).to_owned(), false));
        proof {
            let plain = (text@.subrange(last as int, len as int), false);
            assert(fragments_view(res@) =~= before.push(plain));
            assert(before + seq![plain] =~= before.push(plain));
        }
    } else {
        proof {
            assert(before + Seq::<(Seq<char>, bool)>::empty() =~= before);
        }
    }
    if res.len() == 0 {
        res.push((text.to_owned(), false));
        proof {
            assert(whole.len() == 0);
            assert(fragments_view(res@) =~= seq![(text@, false)]);
        }
    } else {
        proof {
            assert(fragments_view(res@).len() == res.len());
        }
    }
    res
}

/// Cuts `text` into the fragments that hold `query`, whatever the case of
/// the letters, and the fragments between them.
pub fn highlight_fragments(text: &str, query: &str) -> (res: Vec<(String, bool)>)
    ensures
        fragments_view(res@) == highlighted(text@, query@),
{
    if query.is_empty() {
        let mut res: Vec<(String, bool)> = Vec::new();
        res.push((text.to_owned(), false));
        proof {
            assert(fragments_view(res@) =~= seq![(text@, false)]);
        }
        res
    } else {
        let folded = to_lowercase(text);
        let needle = to_lowercase(query);
        cut_fragments(text, folded.as_str(), needle.as_str())
    }
}

/// The fragments from a place on, put together, are the text from that place
/// on.
proof fn lemma_fragments_join(
    text: Seq<char>,
    folded: Seq<char>,
    needle: Seq<char>,
    last: int,
    at: int,
)
    requires
        0 <= last <= at <= folded.len(),
        folded.len() == text.len(),
        needle.len() > 0,
    ensures
        joined(fragments_from(text, folded, needle, last, at)) == text.subrange(
            last,
            text.len() as int,
        ),
    decreases folded.len() - at,
{
    let end = text.len() as int;
    let found = fragments_from(text, folded, needle, last, at);
    if at + needle.len() > folded.len() {
        if last < text.len() {
            assert(found.drop_first() =~= Seq::<(Seq<char>, bool)>::empty());
            assert(joined(found.drop_first()) == Seq::<char>::empty());
            assert(joined(found) =~= text.subrange(last, end));
        } else {
            assert(text.subrange(last, end) =~= Seq::<char>::empty());
        }
    } else if occurs_at(folded, needle, at) {
        let stop = at + needle.len();
        let next = fragments_from(text, folded, needle, stop, stop);
        lemma_fragments_join(text, folded, needle, stop, stop);
        let marked = (text.subrange(at, stop), true);
        assert(joined(seq![marked] + next) =~= text.subrange(at, end)) by {
            assert((seq![marked] + next).drop_first() =~= next);
        }
        if at > last {
            let plain = (text.subrange(last, at), false);
            assert(found =~= seq![plain] + (seq![marked] + next));
            assert(found.drop_first() =~= seq![marked] + next);
            assert(joined(found) =~= text.subrange(last, end));
        } else {
            assert(found =~= seq![marked] + next);
        }
    } else {
        lemma_fragments_join(text, folded, needle, last, at + 1);
    }
}

/// The fragments of a text, put together, are the text: nothing is lost and
/// nothing is added.
pub proof fn lemma_fragments_make_up_the_text(text: Seq<char>, query: Seq<char>)
    ensures
        joined(highlighted(text, query)) == text,
        highlighted(text, query).len() > 0,
{
    let whole = seq![(text, false)];
    assert(joined(whole) =~= text) by {
        assert(whole.drop_first() =~= Seq::<(Seq<char>, bool)>::empty());
        assert(joined(whole.drop_first()) == Seq::<char>::empty());
    }
    let folded = lowercase(text);
    let needle = lowercase(query);
    if query.len() > 0 && needle.len() > 0 && folded.len() == text.len() {
        lemma_fragments_join(text, folded, needle, 0, 0);
        assert(text.subrange(0, text.len() as int) =~= text);
    }
}

} // verus!
