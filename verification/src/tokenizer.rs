use vstd::prelude::*;
use crate::pattern::{pattern_pieces, pieces, texts_view};

verus! {

/// The pattern of what separates two tokens: a run of space, tab, carriage
/// return, line feed, vertical tab and form feed.
pub open spec fn whitespace_pattern() -> Seq<char> {
    "[ \\t\\r\\n\\v\\f]+"@
}

/// The texts of a list that are not empty, in order.
pub open spec fn keep_nonempty(texts: Seq<Seq<char>>) -> Seq<Seq<char>>
    decreases texts.len(),
{
    if texts.len() == 0 {
        Seq::empty()
    } else if texts.last().len() == 0 {
        keep_nonempty(texts.drop_last())
    } else {
        keep_nonempty(texts.drop_last()).push(texts.last())
    }
}

/// What is kept is not empty.
pub proof fn lemma_kept_are_nonempty(texts: Seq<Seq<char>>)
    ensures
        forall|i: int|
            0 <= i < keep_nonempty(texts).len() ==> (#[trigger] keep_nonempty(texts)[i]).len() > 0,
    decreases texts.len(),
{
    if texts.len() > 0 {
        lemma_kept_are_nonempty(texts.drop_last());
        let head = keep_nonempty(texts.drop_last());
        assert forall|i: int| 0 <= i < keep_nonempty(texts).len() implies (#[trigger] keep_nonempty(
            texts,
        )[i]).len() > 0 by {
            if i < head.len() {
                assert(keep_nonempty(texts)[i] == head[i]);
            }
        }
    }
}

/// The tokenizer has no pattern to split with.
#[derive(Debug, Clone, Copy, PartialEq, Eq, Structural)]
pub enum TokenizeErr {
    /// The whitespace pattern was turned down.
    BadPattern,
}

/// The tokens of a list of pieces: those that are not empty.
pub fn tokens_of<'a>(parts: &Vec<&'a str>) -> (r: Vec<&'a str>)
    ensures
        texts_view(r@) == keep_nonempty(texts_view(parts@)),
        forall|i: int| 0 <= i < r@.len() ==> (#[trigger] r@[i])@.len() > 0,
{
    let mut out: Vec<&'a str> = Vec::new();
    let mut i: usize = 0;
    proof {
        assert(texts_view(parts@).take(0) =~= Seq::empty());
        assert(texts_view(out@) =~= Seq::empty());
    }
    while i < parts.len()
        invariant
            i <= parts.len(),
            texts_view(out@) == keep_nonempty(texts_view(parts@).take(i as int)),
        decreases parts.len() - i,
    {
        let part: &'a str = parts[i];
        proof {
            let all = texts_view(parts@);
            assert(all.take(i + 1).drop_last() =~= all.take(i as int));
            assert(all.take(i + 1).last() == part@);
            assert(texts_view(out@.push(part)) =~= texts_view(out@).push(part@));
        }
        if !part.is_empty() {
            out.push(part);
        }
        i += 1;
    }
    proof {
        assert(texts_view(parts@).take(parts.len() as int) =~= texts_view(parts@));
        lemma_kept_are_nonempty(texts_view(parts@));
        assert forall|i: int| 0 <= i < out@.len() implies (#[trigger] out@[i])@.len() > 0 by {
            assert(texts_view(out@)[i] == out@[i]@);
        }
    }
    out
}

/// Splits a program text into its tokens: the pieces between runs of
/// whitespace that are not empty.
pub fn tokenize<'a>(string: &'a str) -> (r: Result<Vec<&'a str>, TokenizeErr>)
    ensures
        match pattern_pieces(whitespace_pattern(), string@) {
            Some(parts) => r matches Ok(v) && texts_view(v@) == keep_nonempty(parts),
            None => r == Err::<Vec<&'a str>, TokenizeErr>(TokenizeErr::BadPattern),
        },
        r matches Ok(v) ==> forall|i: int| 0 <= i < v@.len() ==> (#[trigger] v@[i])@.len() > 0,
{
    match pieces("[ \\t\\r\\n\\v\\f]+", string) {
        Ok(parts) => Ok(tokens_of(&parts)),
        Err(_) => Err(TokenizeErr::BadPattern),
    }
}

} // verus!
