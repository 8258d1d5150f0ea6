//! The word list's text format: one entry per line.
use vstd::prelude::*;

use crate::solver::texts;
use crate::word::{chars_of, lower_of, string_of, Word};

verus! {

/// The words that the solver knows, in the order of the word list.
pub type Dataset = Vec<Word>;

/// `l` without one carriage return at its end.
pub open spec fn strip_cr(l: Seq<char>) -> Seq<char> {
    if l.len() > 0 && l.last() == '\r' {
        l.drop_last()
    } else {
        l
    }
}

/// The lines that are complete after reading `s`, and the start of the next one.
/// A line ends at a line feed, which it does not hold, nor a carriage return
/// just before it.
pub open spec fn split_state(s: Seq<char>) -> (Seq<Seq<char>>, Seq<char>)
    decreases s.len(),
{
    if s.len() == 0 {
        (Seq::empty(), Seq::empty())
    } else {
        let prev = split_state(s.drop_last());
        if s.last() == '\n' {
            (prev.0.push(strip_cr(prev.1)), Seq::empty())
        } else {
            (prev.0, prev.1.push(s.last()))
        }
    }
}

/// The lines of `s`. A last line needs no line feed; a text that ends in a
/// line feed has no empty line after it.
pub open spec fn lines_of(s: Seq<char>) -> Seq<Seq<char>> {
    let st = split_state(s);
    if st.1.len() == 0 {
        st.0
    } else {
        st.0.push(st.1)
    }
}

/// The entries for the lines `ls`: each non-empty line in lower case.
pub open spec fn entries(ls: Seq<Seq<char>>) -> Seq<Seq<char>>
    decreases ls.len(),
{
    if ls.len() == 0 {
        Seq::empty()
    } else {
        let rest = entries(ls.drop_last());
        if ls.last().len() == 0 {
            rest
        } else {
            rest.push(lower_of(ls.last()))
        }
    }
}

/// The texts of the dataset that a word list `raw` holds.
pub open spec fn dataset_of(raw: Seq<char>) -> Seq<Seq<char>> {
    entries(lines_of(raw))
}

/// The entries of `ls.push(l)` are those of `ls`, then that of `l` if any.
proof fn lemma_entries_push(ls: Seq<Seq<char>>, l: Seq<char>)
    ensures
        entries(ls.push(l)) == if l.len() == 0 {
            entries(ls)
        } else {
            entries(ls).push(lower_of(l))
        },
{
    assert(ls.push(l).drop_last() == ls);
}

/// The dataset of the word list `raw`: one word per non-empty line, in
/// lower case, in the order of the lines.
pub fn convert_to_dataset(raw: String) -> (r: Dataset)
    ensures
        texts(r@) == dataset_of(raw@),
        forall|i: int| 0 <= i < r@.len() ==> (#[trigger] r@[i]).wf() && r@[i]@.len() > 0,
{
    let cs = chars_of(raw.as_str());
    let mut words: Dataset = Vec::new();
    let mut line: Vec<char> = Vec::new();
    for i in 0..cs.len()
        invariant
            cs@ == raw@,
            texts(words@) == entries(split_state(cs@.take(i as int)).0),
            line@ == split_state(cs@.take(i as int)).1,
            forall|k: int| 0 <= k < words@.len() ==> (#[trigger] words@[k]).wf() && words@[k]@.len() > 0,
    {
        let c = cs[i];
        let ghost prev = split_state(cs@.take(i as int));
        assert(cs@.take(i + 1).drop_last() == cs@.take(i as int));
        if c == '\n' {
            if line.len() > 0 && line[line.len() - 1] == '\r' {
                line.pop();
            }
            assert(line@ == strip_cr(prev.1));
            proof {
                lemma_entries_push(prev.0, line@);
            }
            if line.len() > 0 {
                let text = string_of(&line);
                words.push(Word::from(text.as_str()));
                assert(texts(words@) == texts(words@.drop_last()).push(lower_of(line@)));
            }
            line = Vec::new();
        } else {
            line.push(c);
        }
    }
    assert(cs@.take(cs@.len() as int) == cs@);
    let ghost st = split_state(cs@);
    if line.len() > 0 {
        proof {
            lemma_entries_push(st.0, line@);
        }
        let text = string_of(&line);
        words.push(Word::from(text.as_str()));
        assert(texts(words@) == texts(words@.drop_last()).push(lower_of(line@)));
    }
    words
}

/// Whether `l` can stand as one line of a word list: it holds no line feed
/// and does not end in a carriage return.
pub open spec fn is_line(l: Seq<char>) -> bool {
    &&& !l.contains('\n')
    &&& (l.len() == 0 || l.last() != '\r')
}

/// The word list that holds the texts `ws`, one per line.
pub open spec fn serialized(ws: Seq<Seq<char>>) -> Seq<char>
    decreases ws.len(),
{
    if ws.len() == 0 {
        Seq::empty()
    } else {
        serialized(ws.drop_last()) + ws.last().push('\n')
    }
}

/// Reading the line `l` after a text whose lines are all complete.
proof fn lemma_split_line(p: Seq<char>, l: Seq<char>, k: int)
    requires
        split_state(p).1.len() == 0,
        !l.contains('\n'),
        0 <= k <= l.len(),
    ensures
        split_state(p + l.take(k)) == (split_state(p).0, l.take(k)),
    decreases k,
{
    if k == 0 {
        assert(p + l.take(0) == p);
    } else {
        lemma_split_line(p, l, k - 1);
        assert((p + l.take(k)).drop_last() == p + l.take(k - 1));
        assert(l.take(k - 1).push(l[k - 1]) == l.take(k));
        if l[k - 1] == '\n' {
            assert(l.contains('\n'));
        }
    }
}

/// The text of a word list ends each line it holds.
proof fn lemma_split_serialized(ws: Seq<Seq<char>>)
    requires
        forall|i: int| 0 <= i < ws.len() ==> is_line(#[trigger] ws[i]),
    ensures
        split_state(serialized(ws)) == (ws, Seq::<char>::empty()),
    decreases ws.len(),
{
    if ws.len() > 0 {
        let p = serialized(ws.drop_last());
        let l = ws.last();
        assert(is_line(ws[ws.len() - 1]));
        lemma_split_serialized(ws.drop_last());
        lemma_split_line(p, l, l.len() as int);
        assert(l.take(l.len() as int) == l);
        assert((p + l.push('\n')).drop_last() == p + l);
        assert(ws.drop_last().push(l) == ws);
    }
}

/// Writing texts one per line and splitting the result into lines gives the
/// texts back, where each can stand as a line.
pub proof fn lemma_lines_of_serialized(ws: Seq<Seq<char>>)
    requires
        forall|i: int| 0 <= i < ws.len() ==> is_line(#[trigger] ws[i]),
    ensures
        lines_of(serialized(ws)) == ws,
{
    lemma_split_serialized(ws);
}

/// A word list read into a dataset and written out again, one word per
/// line, has as lines the non-empty lines of the list in lower case, where
/// those lower-case forms can stand as lines.
pub proof fn lemma_round_trip(raw: Seq<char>, ds: Seq<Seq<char>>)
    requires
        ds == dataset_of(raw),
        forall|i: int| 0 <= i < ds.len() ==> is_line(#[trigger] ds[i]),
    ensures
        lines_of(serialized(ds)) == entries(lines_of(raw)),
{
    lemma_lines_of_serialized(ds);
}

} // verus!
