//! Splitting text into words.

use vstd::prelude::*;

use crate::text::{is_white_space, is_whitespace, push_char, views};

verus! {

/// The words closed so far and the word still open, after reading `s` from
/// the left.
pub open spec fn split_state(s: Seq<char>) -> (Seq<Seq<char>>, Seq<char>)
    decreases s.len(),
{
    if s.len() == 0 {
        (seq![], seq![])
    } else {
        let (done, open) = split_state(s.drop_last());
        let c = s.last();
        if !is_white_space(c) {
            (done, open.push(c))
        } else if open.len() > 0 {
            (done.push(open), seq![])
        } else {
            (done, seq![])
        }
    }
}

/// The maximal runs of non-whitespace characters of `s`, in order.
pub open spec fn split_words_spec(s: Seq<char>) -> Seq<Seq<char>> {
    let (done, open) = split_state(s);
    if open.len() > 0 {
        done.push(open)
    } else {
        done
    }
}

/// A non-empty run of non-whitespace characters.
pub open spec fn is_word(w: Seq<char>) -> bool {
    w.len() > 0 && forall|k: int| 0 <= k < w.len() ==> !is_white_space(#[trigger] w[k])
}

proof fn lemma_split_state_words(s: Seq<char>)
    ensures
        forall|k: int| 0 <= k < split_state(s).0.len() ==> is_word(#[trigger] split_state(s).0[k]),
        forall|k: int|
            0 <= k < split_state(s).1.len() ==> !is_white_space(#[trigger] split_state(s).1[k]),
    decreases s.len(),
{
    if s.len() > 0 {
        lemma_split_state_words(s.drop_last());
        let (done, open) = split_state(s.drop_last());
        let c = s.last();
        if !is_white_space(c) {
            assert forall|k: int| 0 <= k < open.push(c).len() implies !is_white_space(
                #[trigger] open.push(c)[k],
            ) by {
                if k < open.len() {
                    assert(open.push(c)[k] == open[k]);
                }
            }
        } else if open.len() > 0 {
            assert forall|k: int| 0 <= k < done.push(open).len() implies is_word(
                #[trigger] done.push(open)[k],
            ) by {
                if k < done.len() {
                    assert(done.push(open)[k] == done[k]);
                }
            }
        }
    }
}

/// Every piece that splitting gives is a word: non-empty, without
/// whitespace.
pub proof fn split_gives_words(s: Seq<char>)
    ensures
        forall|k: int|
            0 <= k < split_words_spec(s).len() ==> is_word(#[trigger] split_words_spec(s)[k]),
{
    lemma_split_state_words(s);
    let (done, open) = split_state(s);
    if open.len() > 0 {
        assert forall|k: int| 0 <= k < done.push(open).len() implies is_word(
            #[trigger] done.push(open)[k],
        ) by {
            if k < done.len() {
                assert(done.push(open)[k] == done[k]);
            }
        }
    }
}

/// Splits `s` on runs of whitespace and drops the empty pieces.
pub fn split_words(s: &str) -> (r: Vec<String>)
    ensures
        views(r@) == split_words_spec(s@),
{
    let mut done: Vec<String> = Vec::new();
    let mut open = String::new();
    for c in it: s.chars()
        invariant
            it.seq() == s@,
            (views(done@), open@) == split_state(s@.take(it.index() as int)),
    {
        proof {
            assert(s@.take(it.index() + 1).drop_last() == s@.take(it.index() as int));
        }
        if !is_whitespace(c) {
            push_char(&mut open, c);
        } else if open.unicode_len() > 0 {
            done.push(open);
            open = String::new();
        }
    }
    proof {
        assert(s@.take(s@.len() as int) == s@);
    }
    if open.unicode_len() > 0 {
        done.push(open);
    }
    done
}

} // verus!
