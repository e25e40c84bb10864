//! Text that can be read character by character and cut into strings.

use vstd::prelude::*;
use vstd::string::StringExecFns;

verus! {

/// The characters of `s`, in order.
pub fn chars_of(s: &str) -> (r: Vec<char>)
    ensures
        r@ == s@,
{
    let mut out: Vec<char> = Vec::new();
    for c in it: s.chars()
        invariant
            it.seq() == s@,
            out@ == s@.take(it.index() as int),
    {
        assert(s@.take(it.index() as int).push(c) =~= s@.take(it.index() as int + 1));
        out.push(c);
    }
    assert(s@.take(s@.len() as int) =~= s@);
    out
}

/// A text held twice: as a string, which parts of it are cut from, and as
/// the list of its characters, which are read by position.
pub struct Text {
    source: String,
    chars: Vec<char>,
}

impl View for Text {
    type V = Seq<char>;

    closed spec fn view(&self) -> Seq<char> {
        self.chars@
    }
}

impl Text {
    /// The string and the list hold the same characters.
    #[verifier::type_invariant]
    spec fn same_characters(&self) -> bool {
        self.source@ == self.chars@
    }

    /// A text is no longer than a list can be.
    pub proof fn lemma_fits(&self)
        ensures
            self@.len() <= usize::MAX,
    {
        assert(self.chars@.len() == self.chars.len());
    }

    /// The text of `s`.
    pub fn new(s: &str) -> (t: Text)
        ensures
            t@ == s@,
    {
        Text { source: String::from_str(s), chars: chars_of(s) }
    }

    /// The number of characters.
    pub fn len(&self) -> (n: usize)
        ensures
            n == self@.len(),
    {
        self.chars.len()
    }

    /// The character at position `i`.
    pub fn at(&self, i: usize) -> (c: char)
        requires
            i < self@.len(),
        ensures
            c == self@[i as int],
    {
        self.chars[i]
    }

    /// The characters from `from` up to `to`, as a string.
    pub fn string(&self, from: usize, to: usize) -> (r: String)
        requires
            from <= to <= self@.len(),
        ensures
            r@ == self@.subrange(from as int, to as int),
    {
        proof {
            use_type_invariant(self);
        }
        String::from_str(self.source.as_str().substring_char(from, to))
    }

    /// The characters from `from` up to `to`, as a text of their own.
    pub fn slice(&self, from: usize, to: usize) -> (r: Text)
        requires
            from <= to <= self@.len(),
        ensures
            r@ == self@.subrange(from as int, to as int),
    {
        proof {
            use_type_invariant(self);
        }
        Text::new(self.source.as_str().substring_char(from, to))
    }
}

} // verus!
