//! Which words solve a puzzle, and what they score.
use vstd::prelude::*;

use crate::dataset::Dataset;
use crate::input::Input;
use crate::word::{chars_of, Word};

verus! {

/// How many letters a word must use, at least once each, to earn the bonus.
pub const PANGRAM_LETTERS: u64 = 7;

/// Whether the word `w` solves the puzzle whose mandatory letter is
/// `required` and whose other letters are `letters`: it holds the mandatory
/// letter, and each of its characters is one of the seven letters.
pub open spec fn solves(required: char, letters: Seq<char>, w: Seq<char>) -> bool {
    &&& w.contains(required)
    &&& forall|i: int| 0 <= i < w.len() ==> #[trigger] w[i] == required || letters.contains(w[i])
}

/// The points of a word of `len` characters of which `distinct` differ.
pub open spec fn score(len: nat, distinct: nat) -> nat {
    if distinct == PANGRAM_LETTERS {
        (len + PANGRAM_LETTERS) as nat
    } else if len <= 4 {
        1
    } else {
        len
    }
}

/// The points of the word `w`.
pub open spec fn points_of(w: Seq<char>) -> nat {
    score(w.len(), w.to_set().len())
}

/// The texts of a sequence of words.
pub open spec fn texts(ws: Seq<Word>) -> Seq<Seq<char>> {
    ws.map_values(|w: Word| w@)
}

/// The words of `ws` that solve the puzzle `input`, in their order.
pub open spec fn solutions_of(input: Input, ws: Seq<Seq<char>>) -> Seq<Seq<char>>
    decreases ws.len(),
{
    if ws.len() == 0 {
        Seq::empty()
    } else {
        let rest = solutions_of(input, ws.drop_last());
        if solves(input.required, input.letters@, ws.last()) {
            rest.push(ws.last())
        } else {
            rest
        }
    }
}

/// The sum of the points of the words `ws`.
pub open spec fn total_points(ws: Seq<Seq<char>>) -> nat
    decreases ws.len(),
{
    if ws.len() == 0 {
        0
    } else {
        total_points(ws.drop_last()) + points_of(ws.last())
    }
}

/// A character is in `s.push(x)` when it is `x` or is in `s`.
proof fn lemma_push_contains(s: Seq<char>, x: char, y: char)
    ensures
        s.push(x).contains(y) <==> (s.contains(y) || x == y),
{
    if s.contains(y) {
        let k = choose|k: int| 0 <= k < s.len() && s[k] == y;
        assert(s.push(x)[k] == y);
    }
    if x == y {
        assert(s.push(x)[s.len() as int] == y);
    }
    if s.push(x).contains(y) {
        let k = choose|k: int| 0 <= k < s.len() + 1 && s.push(x)[k] == y;
        if k < s.len() {
            assert(s[k] == y);
        }
    }
}

/// The characters of `s.push(x)` are those of `s` and `x`.
proof fn lemma_push_to_set(s: Seq<char>, x: char)
    ensures
        s.push(x).to_set() == s.to_set().insert(x),
{
    assert forall|y: char| s.push(x).to_set().contains(y) <==> s.to_set().insert(x).contains(y) by {
        lemma_push_contains(s, x, y);
    }
    assert(s.push(x).to_set() =~= s.to_set().insert(x));
}

/// Whether `c` is one of `letters`.
fn is_listed(letters: &[char; 6], c: char) -> (r: bool)
    ensures
        r == letters@.contains(c),
{
    for i in 0..6
        invariant
            forall|k: int| 0 <= k < i ==> letters@[k] != c,
    {
        if letters[i] == c {
            return true;
        }
    }
    false
}

/// Whether `word` solves the puzzle `input`.
pub fn is_solution(input: &Input, word: &Word) -> (r: bool)
    ensures
        r == solves(input.required, input.letters@, word@),
{
    let cs = chars_of(word.as_str());
    let mut has_required_letter = false;
    let mut i: usize = 0;
    while i < cs.len()
        invariant
            cs@ == word@,
            i <= cs@.len(),
            has_required_letter == cs@.take(i as int).contains(input.required),
            forall|k: int|
                0 <= k < i ==> #[trigger] cs@[k] == input.required || input.letters@.contains(
                    cs@[k],
                ),
        decreases cs.len() - i,
    {
        let letter = cs[i];
        assert(cs@.take(i + 1) == cs@.take(i as int).push(letter));
        proof {
            lemma_push_contains(cs@.take(i as int), letter, input.required);
        }
        if letter == input.required {
            has_required_letter = true;
        } else if !is_listed(&input.letters, letter) {
            return false;
        }
        i = i + 1;
    }
    assert(cs@.take(i as int) == cs@);
    has_required_letter
}

/// The number of distinct characters in `cs`.
fn distinct_count(cs: &Vec<char>) -> (r: usize)
    ensures
        r == cs@.to_set().len(),
{
    let mut seen: Vec<char> = Vec::new();
    for i in 0..cs.len()
        invariant
            seen@.no_duplicates(),
            seen@.to_set() == cs@.take(i as int).to_set(),
    {
        let c = cs[i];
        let mut found = false;
        for j in 0..seen.len()
            invariant
                found == seen@.take(j as int).contains(c),
        {
            assert(seen@.take(j + 1) == seen@.take(j as int).push(seen@[j as int]));
            proof {
                lemma_push_contains(seen@.take(j as int), seen@[j as int], c);
            }
            if seen[j] == c {
                found = true;
            }
        }
        assert(seen@.take(seen@.len() as int) == seen@);
        assert(cs@.take(i + 1) == cs@.take(i as int).push(c));
        proof {
            lemma_push_to_set(cs@.take(i as int), c);
        }
        if !found {
            let ghost before = seen@;
            seen.push(c);
            proof {
                lemma_push_to_set(before, c);
                assert forall|a: int, b: int|
                    0 <= a < seen@.len() && 0 <= b < seen@.len() && a != b implies seen@[a]
                    != seen@[b] by {
                    if b == before.len() {
                        assert(before.contains(before[a]));
                    } else if a == before.len() {
                        assert(before.contains(before[b]));
                    }
                }
            }
        } else {
            assert(seen@.take(seen@.len() as int) == seen@);
            assert(seen@.to_set().contains(c));
            assert(seen@.to_set() == seen@.to_set().insert(c));
        }
    }
    assert(cs@.take(cs@.len() as int) == cs@);
    proof {
        seen@.unique_seq_to_set();
    }
    seen.len()
}

/// The points that `word` earns: its length plus seven when it uses seven
/// distinct letters, else one when it has at most four letters, else its length.
pub fn points(word: &str) -> (r: u64)
    requires
        points_of(word@) <= u64::MAX,
    ensures
        r == points_of(word@),
{
    let cs = chars_of(word);
    let l = cs.len() as u64;
    let unique_chars = distinct_count(&cs) as u64;
    if unique_chars == PANGRAM_LETTERS {
        return l + PANGRAM_LETTERS;
    }
    if l <= 4 {
        1
    } else {
        l
    }
}

/// The words of a dataset that solve a puzzle, and their points in all.
pub struct Solution<'a> {
    /// The sum of the points of `words`.
    pub points: u64,
    /// The solving words, in dataset order.
    pub words: Vec<&'a Word>,
}

/// Total points never shrink when words are added at the end.
proof fn lemma_total_points_prefix(input: Input, ws: Seq<Seq<char>>, i: int)
    requires
        0 <= i <= ws.len(),
    ensures
        total_points(solutions_of(input, ws.take(i))) <= total_points(solutions_of(input, ws)),
    decreases ws.len(),
{
    if i == ws.len() {
        assert(ws.take(i) == ws);
    } else {
        let rest = solutions_of(input, ws.drop_last());
        assert(rest.push(ws.last()).drop_last() == rest);
        assert(ws.drop_last().take(i) == ws.take(i));
        lemma_total_points_prefix(input, ws.drop_last(), i);
    }
}

/// The words of `dataset` that solve `input`, in dataset order, with the sum
/// of their points.
pub fn solve<'a>(input: &Input, dataset: &'a Dataset) -> (r: Solution<'a>)
    requires
        total_points(solutions_of(*input, texts(dataset@))) <= u64::MAX,
    ensures
        r.words@.map_values(|w: &Word| w@) == solutions_of(*input, texts(dataset@)),
        r.points == total_points(solutions_of(*input, texts(dataset@))),
{
    let ghost all = texts(dataset@);
    let mut words: Vec<&'a Word> = Vec::new();
    let mut total: u64 = 0;
    for i in 0..dataset.len()
        invariant
            all == texts(dataset@),
            total_points(solutions_of(*input, all)) <= u64::MAX,
            words@.map_values(|w: &Word| w@) == solutions_of(*input, all.take(i as int)),
            total == total_points(solutions_of(*input, all.take(i as int))),
    {
        let word = &dataset[i];
        assert(all.take(i + 1).drop_last() == all.take(i as int));
        assert(all.take(i + 1).last() == word@);
        proof {
            lemma_total_points_prefix(*input, all, i + 1);
        }
        if is_solution(input, word) {
            let ghost before = solutions_of(*input, all.take(i as int));
            assert(solutions_of(*input, all.take(i + 1)) == before.push(word@));
            assert(before.push(word@).drop_last() == before);
            let p = points(word.as_str());
            words.push(word);
            total = total + p;
            assert(words@.map_values(|w: &Word| w@) == solutions_of(*input, all.take(i + 1)));
        }
    }
    assert(all.take(dataset.len() as int) == all);
    Solution { points: total, words }
}

/// An empty word solves no puzzle.
pub proof fn lemma_empty_word_never_solves(input: Input, w: Seq<char>)
    requires
        w.len() == 0,
    ensures
        !solves(input.required, input.letters@, w),
{
}

/// Every character of a solving word is one of the puzzle's seven letters,
/// and one of them is the mandatory letter.
pub proof fn lemma_solution_uses_puzzle_letters(input: Input, w: Seq<char>)
    requires
        solves(input.required, input.letters@, w),
    ensures
        forall|i: int| 0 <= i < w.len() ==> input.all_letters().contains(#[trigger] w[i]),
        exists|i: int| 0 <= i < w.len() && w[i] == input.required,
{
    assert forall|i: int| 0 <= i < w.len() implies input.all_letters().contains(#[trigger] w[i]) by {
        if w[i] == input.required {
            assert(input.all_letters()[0] == w[i]);
        } else {
            let k = choose|k: int| 0 <= k < 6 && input.letters@[k] == w[i];
            assert(input.all_letters()[k + 1] == w[i]);
        }
    }
}

/// Two words of the same length with the same number of distinct
/// characters earn the same points, whatever their letters and their order.
pub proof fn lemma_points_depend_on_shape(v: Seq<char>, w: Seq<char>)
    requires
        v.len() == w.len(),
        v.to_set().len() == w.to_set().len(),
    ensures
        points_of(v) == points_of(w),
{
}

/// A word whose characters are those of another, in another order, earns
/// the same points.
pub proof fn lemma_points_ignore_order(v: Seq<char>, w: Seq<char>)
    requires
        v.to_multiset() == w.to_multiset(),
    ensures
        points_of(v) == points_of(w),
{
    v.to_multiset_ensures();
    w.to_multiset_ensures();
    assert forall|c: char| v.to_set().contains(c) <==> w.to_set().contains(c) by {
        assert(v.contains(c) <==> v.to_multiset().count(c) > 0);
        assert(w.contains(c) <==> w.to_multiset().count(c) > 0);
    }
    assert(v.to_set() =~= w.to_set());
}

/// A word whose letters are renamed one for one, each to a distinct letter,
/// earns the same points.
pub proof fn lemma_points_ignore_letters(v: Seq<char>, f: spec_fn(char) -> char)
    requires
        forall|a: char, b: char| #[trigger] f(a) == #[trigger] f(b) ==> a == b,
    ensures
        points_of(v.map_values(f)) == points_of(v),
{
    let w = v.map_values(f);
    assert(w.to_set() =~= v.to_set().map(f)) by {
        assert forall|c: char| w.to_set().contains(c) implies v.to_set().map(f).contains(c) by {
            let k = choose|k: int| 0 <= k < w.len() && w[k] == c;
            assert(v.to_set().contains(v[k]));
        }
        assert forall|c: char| v.to_set().map(f).contains(c) implies w.to_set().contains(c) by {
            let a = choose|a: char| v.to_set().contains(a) && f(a) == c;
            let k = choose|k: int| 0 <= k < v.len() && v[k] == a;
            assert(w[k] == c);
        }
    }
    vstd::seq_lib::seq_to_set_is_finite(v);
    vstd::set_lib::lemma_map_size(v.to_set(), w.to_set(), f);
}

} // verus!
