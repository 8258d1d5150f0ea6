//! The puzzle's letters: one mandatory letter and six more.
use vstd::prelude::*;

use crate::word::chars_of;
use crate::REQUIRED_LETTERS_COUNT;

verus! {

/// Whether `c` has the Unicode property White_Space.
pub open spec fn is_white_space(c: char) -> bool {
    ||| '\u{9}' <= c <= '\u{d}'
    ||| c == ' '
    ||| c == '\u{85}'
    ||| c == '\u{a0}'
    ||| c == '\u{1680}'
    ||| '\u{2000}' <= c <= '\u{200a}'
    ||| c == '\u{2028}'
    ||| c == '\u{2029}'
    ||| c == '\u{202f}'
    ||| c == '\u{205f}'
    ||| c == '\u{3000}'
}

/// `s` without its leading white space.
pub open spec fn trim_start_of(s: Seq<char>) -> Seq<char>
    decreases s.len(),
{
    if s.len() > 0 && is_white_space(s[0]) {
        trim_start_of(s.drop_first())
    } else {
        s
    }
}

/// `s` without its trailing white space.
pub open spec fn trim_end_of(s: Seq<char>) -> Seq<char>
    decreases s.len(),
{
    if s.len() > 0 && is_white_space(s.last()) {
        trim_end_of(s.drop_last())
    } else {
        s
    }
}

/// `s` without its leading and trailing white space.
pub open spec fn trim_of(s: Seq<char>) -> Seq<char> {
    trim_end_of(trim_start_of(s))
}

/// Relies on `str::trim`: it removes the leading and trailing characters
/// that have the Unicode property White_Space.
#[verifier::external_body]
fn trim(s: &str) -> (r: &str)
    ensures
        r@ == trim_of(s@),
{
    s.trim()
}

/// Why a text is not a set of puzzle letters.
#[derive(Debug, Clone, Copy, PartialEq, Eq, Structural)]
pub enum InputError {
    /// The text does not hold exactly seven letters.
    WrongLength,
    /// A letter occurs twice.
    DuplicateLetters,
}

/// The seven letters of a puzzle.
pub struct Input {
    /// The letter that every solution holds.
    pub required: char,
    /// The other six letters.
    pub letters: [char; 6],
}

/// The outcome of reading the letters `p`, mandatory letter first.
pub open spec fn letters_outcome(p: Seq<char>) -> Result<(char, Seq<char>), InputError> {
    if p.len() != REQUIRED_LETTERS_COUNT {
        Err(InputError::WrongLength)
    } else if !p.no_duplicates() {
        Err(InputError::DuplicateLetters)
    } else {
        Ok((p[0], p.subrange(1, 7)))
    }
}

/// Seven distinct letters are always accepted; any other number of letters,
/// or a letter given twice, is always refused.
pub proof fn lemma_accepts_exactly_seven_distinct(p: Seq<char>)
    ensures
        letters_outcome(p) is Ok <==> (p.len() == REQUIRED_LETTERS_COUNT && p.no_duplicates()),
        p.len() != REQUIRED_LETTERS_COUNT ==> letters_outcome(p) == Err::<(char, Seq<char>), InputError>(
            InputError::WrongLength,
        ),
        p.len() == REQUIRED_LETTERS_COUNT && !p.no_duplicates() ==> letters_outcome(p) == Err::<
            (char, Seq<char>),
            InputError,
        >(InputError::DuplicateLetters),
{
}

impl Input {
    /// All seven letters, the mandatory one first.
    pub open spec fn all_letters(&self) -> Seq<char> {
        seq![self.required] + self.letters@
    }

    /// The seven letters are distinct.
    pub open spec fn wf(&self) -> bool {
        self.all_letters().no_duplicates()
    }

    /// Whether this input holds the mandatory letter and the other letters of `r`.
    pub open spec fn holds_letters(&self, r: (char, Seq<char>)) -> bool {
        self.required == r.0 && self.letters@ == r.1
    }

    /// Reads the letters `p`, mandatory letter first.
    pub fn from_letters(p: &Vec<char>) -> (r: Result<Input, InputError>)
        ensures
            match (r, letters_outcome(p@)) {
                (Ok(i), Ok(s)) => i.holds_letters(s) && i.wf(),
                (Err(e), Err(f)) => e == f,
                _ => false,
            },
    {
        if p.len() != REQUIRED_LETTERS_COUNT {
            return Err(InputError::WrongLength);
        }
        let n: usize = p.len();
        for i in 0..n
            invariant
                n == p@.len(),
                n == REQUIRED_LETTERS_COUNT,
                p@.take(i as int).no_duplicates(),
        {
            for j in 0..i
                invariant
                    n == p@.len(),
                    n == REQUIRED_LETTERS_COUNT,
                    i < n,
                    p@.take(i as int).no_duplicates(),
                    forall|k: int| 0 <= k < j ==> p@[k] != p@[i as int],
            {
                if p[j] == p[i] {
                    assert(p@[j as int] == p@[i as int]);
                    return Err(InputError::DuplicateLetters);
                }
            }
            assert(p@.take(i + 1) == p@.take(i as int).push(p@[i as int]));
        }
        assert(p@.take(n as int) == p@);
        let input = Input { required: p[0], letters: [p[1], p[2], p[3], p[4], p[5], p[6]] };
        assert(input.letters@ == p@.subrange(1, 7));
        assert(input.all_letters() == p@);
        Ok(input)
    }

    /// Reads the puzzle letters from a line of text: surrounding whitespace
    /// is dropped and each remaining character is one letter.
    pub fn parse(line: &str) -> (r: Result<Input, InputError>)
        ensures
            match (r, letters_outcome(trim_of(line@))) {
                (Ok(i), Ok(s)) => i.holds_letters(s) && i.wf(),
                (Err(e), Err(f)) => e == f,
                _ => false,
            },
    {
        let parts = chars_of(trim(line));
        Input::from_letters(&parts)
    }
}

impl<'a> TryFrom<&'a str> for Input {
    type Error = InputError;

    fn try_from(line: &'a str) -> Result<Input, InputError> {
        let r = Input::parse(line);
        proof {
            if r is Ok {
                let i = r->Ok_0;
                let c = choose|c: Input| c.holds_letters(letters_outcome(trim_of(line@))->Ok_0) && c.wf();
                assert(c.letters@ == i.letters@);
                assert(c.letters =~= i.letters);
            }
        }
        r
    }
}

impl<'a> vstd::std_specs::convert::TryFromSpecImpl<&'a str> for Input {
    open spec fn obeys_try_from_spec() -> bool {
        true
    }

    open spec fn try_from_spec(line: &'a str) -> Result<Input, InputError> {
        match letters_outcome(trim_of(line@)) {
            Ok(s) => Ok(choose|i: Input| i.holds_letters(s) && i.wf()),
            Err(e) => Err(e),
        }
    }
}

} // verus!
