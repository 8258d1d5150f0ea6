//! Dictionary words, kept in lower case.
use vstd::prelude::*;

verus! {

/// What `str::to_lowercase` makes of a text.
pub uninterp spec fn lower_of(s: Seq<char>) -> Seq<char>;

/// Whether a text is the lower-case form of some text.
pub open spec fn is_lowercased(s: Seq<char>) -> bool {
    exists|raw: Seq<char>| #[trigger] lower_of(raw) == s
}

/// Relies on `str::to_lowercase`: the result depends on the characters alone,
/// each character becomes one or more, and an empty text stays empty.
#[verifier::external_body]
fn lowercase(s: &str) -> (r: String)
    ensures
        r@ == lower_of(s@),
        s@.len() == 0 ==> r@.len() == 0,
        s@.len() > 0 ==> r@.len() > 0,
{
    s.to_lowercase()
}

/// Relies on `String::from_iter` over `char`s: the text holds the characters in order.
#[verifier::external_body]
pub(crate) fn string_of(cs: &Vec<char>) -> (r: String)
    ensures
        r@ == cs@,
{
    cs.iter().collect()
}

/// The characters of a text, in order.
pub fn chars_of(s: &str) -> (r: Vec<char>)
    ensures
        r@ == s@,
{
    let mut r: Vec<char> = Vec::new();
    for c in it: s.chars()
        invariant
            r@ == it.seq().take(it.index() as int),
    {
        r.push(c);
    }
    r
}

/// A dictionary entry: a text converted to lower case.
///
/// Two words are equal when their texts are.
#[derive(Debug, Clone, Hash)]
pub struct Word {
    text: String,
}

impl View for Word {
    type V = Seq<char>;

    closed spec fn view(&self) -> Seq<char> {
        self.text@
    }
}

impl Word {
    /// The word holds a lower-cased text.
    pub open spec fn wf(&self) -> bool {
        is_lowercased(self@)
    }

    /// The word for `line`: its lower-case form.
    pub fn from(line: &str) -> (r: Word)
        ensures
            r@ == lower_of(line@),
            r.wf(),
            line@.len() > 0 ==> r@.len() > 0,
    {
        Word { text: lowercase(line) }
    }

    /// The word's text.
    pub fn as_str(&self) -> (r: &str)
        ensures
            r@ == self@,
    {
        self.text.as_str()
    }
}

impl core::ops::Deref for Word {
    type Target = String;

    fn deref(&self) -> (r: &String)
        ensures
            r@ == self@,
    {
        &self.text
    }
}

impl PartialEq for Word {
    fn eq(&self, other: &Word) -> (r: bool)
        ensures
            r == (self@ == other@),
    {
        self.text == other.text
    }
}

impl vstd::std_specs::cmp::PartialEqSpecImpl for Word {
    open spec fn obeys_eq_spec() -> bool {
        true
    }

    open spec fn eq_spec(&self, other: &Word) -> bool {
        self@ == other@
    }
}

impl Eq for Word {
}

} // verus!
