//! Characters, slots and five-slot words.
//!
//! A pattern position is a [`Character`]: either a concrete letter,
//! normalized to its ASCII-uppercase form, or a wildcard. A [`Word`] is an
//! ordered sequence of exactly five such slots, built from a string by
//! classifying each character in turn.

use vstd::prelude::*;

verus! {

/// The ways building a word from text can fail.
#[derive(Debug, PartialEq, Eq, Structural, Clone, Copy)]
pub enum WordError {
    /// The given text does not hold exactly five characters; the payload is
    /// the length it had.
    InvalidWordLength(usize),
    /// The given character is neither alphabetic nor one of the wildcard
    /// markers `*`, `_`, `?`.
    InvalidCharValue(char),
}

/// One slot of a five-slot word: a concrete (normalized) letter or a
/// wildcard that matches any character at its position.
#[derive(Debug, PartialEq, Eq, Structural, Clone, Copy)]
pub enum Character {
    Normal(char),
    Wildcard,
}

/// Whether `c` is one of the recognized wildcard markers.
pub open spec fn wildcard_marker(c: char) -> bool {
    c == '*' || c == '_' || c == '?'
}

/// The ASCII-uppercase form of `c`: ASCII lowercase letters are mapped to
/// their uppercase counterparts, every other character is left unchanged.
pub open spec fn upper_spec(c: char) -> char {
    if 'a' <= c && c <= 'z' {
        ((c as u8) - 32) as char
    } else {
        c
    }
}

/// Whether `c` has the Unicode `Alphabetic` property, as decided by
/// `char::is_alphabetic`. A function of the character alone.
pub uninterp spec fn unicode_alphabetic(c: char) -> bool;

/// Relies on `char::is_alphabetic` of std, which decides the Unicode
/// `Alphabetic` property of the character alone.
#[verifier::external_body]
fn char_is_alphabetic(c: char) -> (r: bool)
    ensures
        r == unicode_alphabetic(c),
{
    c.is_alphabetic()
}

/// The ASCII-uppercase form of `c`, computed in place of
/// `char::to_ascii_uppercase`.
pub fn upper_char(c: char) -> (r: char)
    ensures
        r == upper_spec(c),
{
    if 'a' <= c && c <= 'z' {
        ((c as u8) - 32) as char
    } else {
        c
    }
}

/// What classifying one character yields: a wildcard slot for a wildcard
/// marker, a normalized letter slot for an alphabetic character, and an
/// error for anything else.
pub open spec fn classify_spec(c: char) -> Result<Character, WordError> {
    if wildcard_marker(c) {
        Ok(Character::Wildcard)
    } else if unicode_alphabetic(c) {
        Ok(Character::Normal(upper_spec(c)))
    } else {
        Err(WordError::InvalidCharValue(c))
    }
}

impl Character {
    /// Classifies a single character into a slot, rejecting anything that is
    /// neither alphabetic nor a wildcard marker.
    pub fn try_from(value: char) -> (r: Result<Character, WordError>)
        ensures
            r == classify_spec(value),
            !wildcard_marker(value) && !unicode_alphabetic(value) ==> r == Err::<
                Character,
                WordError,
            >(WordError::InvalidCharValue(value)),
    {
        if value == '*' || value == '_' || value == '?' {
            Ok(Character::Wildcard)
        } else if char_is_alphabetic(value) {
            Ok(Character::Normal(upper_char(value)))
        } else {
            Err(WordError::InvalidCharValue(value))
        }
    }
}

/// Whether a slot is normalized: a letter slot never holds an ASCII
/// lowercase character.
pub open spec fn slot_wf(slot: Character) -> bool {
    match slot {
        Character::Normal(c) => !('a' <= c && c <= 'z'),
        Character::Wildcard => true,
    }
}

/// What classifying every character of `s` in order yields: the sequence of
/// slots, or the first classification error.
pub open spec fn classify_all(s: Seq<char>) -> Result<Seq<Character>, WordError>
    decreases s.len(),
{
    if s.len() == 0 {
        Ok(Seq::<Character>::empty())
    } else {
        match classify_spec(s[0]) {
            Ok(slot) => match classify_all(s.drop_first()) {
                Ok(rest) => Ok(seq![slot] + rest),
                Err(e) => Err(e),
            },
            Err(e) => Err(e),
        }
    }
}

/// What parsing a word from text yields: a length error for anything but
/// five characters, otherwise the classification of each character in
/// order, with the first error winning.
pub open spec fn parse_word_spec(s: Seq<char>) -> Result<Seq<Character>, WordError> {
    if s.len() != 5 {
        Err(WordError::InvalidWordLength(s.len() as usize))
    } else {
        classify_all(s)
    }
}

/// An ordered sequence of exactly five slots; the template a candidate is
/// held against, and the form an accepted candidate is stored in.
#[derive(Debug)]
pub struct Word(pub Vec<Character>);

impl View for Word {
    type V = Seq<Character>;

    open spec fn view(&self) -> Seq<Character> {
        self.0@
    }
}

impl Word {
    /// A well-formed word holds exactly five normalized slots.
    pub open spec fn wf(self) -> bool {
        &&& self@.len() == 5
        &&& forall|i: int| 0 <= i < self@.len() ==> slot_wf(#[trigger] self@[i])
    }

    /// Builds a word from text: the text must hold exactly five characters,
    /// each alphabetic or a wildcard marker.
    pub fn from_str(s: &str) -> (r: Result<Word, WordError>)
        ensures
            match r {
                Ok(w) => parse_word_spec(s@) == Ok::<Seq<Character>, WordError>(w@) && w.wf(),
                Err(e) => parse_word_spec(s@) == Err::<Seq<Character>, WordError>(e),
            },
            s@.len() != 5 ==> (r matches Err(e) && e == WordError::InvalidWordLength(
                s@.len() as usize,
            )),
    {
        let n = s.unicode_len();
        if n != 5 {
            return Err(WordError::InvalidWordLength(n));
        }
        let mut slots: Vec<Character> = Vec::new();
        let mut i: usize = 0;
        while i < n
            invariant
                n == s@.len(),
                n == 5,
                i <= n,
                slots@.len() == i,
                forall|j: int| 0 <= j < i ==> #[trigger] classify_spec(s@[j]) is Ok,
                forall|j: int| 0 <= j < i ==> slots@[j] == classify_spec(#[trigger] s@[j])->Ok_0,
            decreases n - i,
        {
            let c = s.get_char(i);
            match Character::try_from(c) {
                Ok(slot) => {
                    slots.push(slot);
                },
                Err(e) => {
                    proof {
                        lemma_classify_all_err(s@, i as int);
                    }
                    return Err(e);
                },
            }
            i = i + 1;
        }
        proof {
            lemma_classify_all_ok(s@);
            if let Ok(all) = classify_all(s@) {
                assert forall|j: int| 0 <= j < slots@.len() implies slots@[j] == all[j] by {
                    assert(slots@[j] == classify_spec(s@[j])->Ok_0);
                }
                assert(slots@ =~= all);
                assert(forall|j: int|
                    0 <= j < slots@.len() ==> slot_wf(#[trigger] slots@[j])) by {
                    assert forall|j: int| 0 <= j < slots@.len() implies slot_wf(
                        #[trigger] slots@[j],
                    ) by {
                        lemma_classify_spec_wf(s@[j]);
                    }
                }
            }
        }
        Ok(Word(slots))
    }

    /// Builds a word from text; the same parse as [`Word::from_str`].
    pub fn new(word: &str) -> (r: Result<Word, WordError>)
        ensures
            match r {
                Ok(w) => parse_word_spec(word@) == Ok::<Seq<Character>, WordError>(w@) && w.wf(),
                Err(e) => parse_word_spec(word@) == Err::<Seq<Character>, WordError>(e),
            },
    {
        Word::from_str(word)
    }
}

/// A classified slot is normalized: the uppercase form of a character is
/// never an ASCII lowercase letter.
proof fn lemma_classify_spec_wf(c: char)
    ensures
        classify_spec(c) matches Ok(slot) ==> slot_wf(slot),
{
}

/// Whether two slots are the same slot.
pub(crate) fn character_eq(a: &Character, b: &Character) -> (r: bool)
    ensures
        r == (a == b),
{
    match (a, b) {
        (Character::Wildcard, Character::Wildcard) => true,
        (Character::Normal(x), Character::Normal(y)) => *x == *y,
        _ => false,
    }
}

impl PartialEq for Word {
    /// Two words are equal when they hold the same slots in the same order.
    fn eq(&self, other: &Word) -> (r: bool) {
        if self.0.len() != other.0.len() {
            return false;
        }
        let mut i: usize = 0;
        while i < self.0.len()
            invariant
                i <= self.0@.len(),
                self.0@.len() == other.0@.len(),
                forall|j: int| 0 <= j < i ==> self.0@[j] == other.0@[j],
            decreases self.0@.len() - i,
        {
            if !character_eq(&self.0[i], &other.0[i]) {
                return false;
            }
            i = i + 1;
        }
        proof {
            assert(self.0@ =~= other.0@);
        }
        true
    }
}

impl vstd::std_specs::cmp::PartialEqSpecImpl for Word {
    open spec fn obeys_eq_spec() -> bool {
        true
    }

    open spec fn eq_spec(&self, other: &Word) -> bool {
        self.0@ == other.0@
    }
}

/// Where every character of `s` classifies, the whole classification
/// succeeds, slot by slot.
proof fn lemma_classify_all_ok(s: Seq<char>)
    requires
        forall|j: int| 0 <= j < s.len() ==> #[trigger] classify_spec(s[j]) is Ok,
    ensures
        classify_all(s) matches Ok(all) && all.len() == s.len() && (forall|j: int|
            0 <= j < s.len() ==> all[j] == classify_spec(#[trigger] s[j])->Ok_0),
    decreases s.len(),
{
    if s.len() > 0 {
        assert(classify_spec(s[0]) is Ok);
        let rest = s.drop_first();
        assert(forall|j: int| 0 <= j < rest.len() ==> rest[j] == s[j + 1]);
        lemma_classify_all_ok(rest);
        let rest_all = classify_all(rest)->Ok_0;
        let all = classify_all(s)->Ok_0;
        assert(all == seq![classify_spec(s[0])->Ok_0] + rest_all);
        assert forall|j: int| 0 <= j < s.len() implies all[j] == classify_spec(
            #[trigger] s[j],
        )->Ok_0 by {
            if j > 0 {
                assert(rest[j - 1] == s[j]);
                assert(rest_all[j - 1] == classify_spec(rest[j - 1])->Ok_0);
            }
        }
    }
}

/// Where the `i`-th character is the first that fails to classify, the
/// whole classification fails with that character's error.
proof fn lemma_classify_all_err(s: Seq<char>, i: int)
    requires
        0 <= i < s.len(),
        classify_spec(s[i]) is Err,
        forall|j: int| 0 <= j < i ==> #[trigger] classify_spec(s[j]) is Ok,
    ensures
        classify_all(s) == Err::<Seq<Character>, WordError>(classify_spec(s[i])->Err_0),
    decreases i,
{
    if i > 0 {
        let rest = s.drop_first();
        assert(forall|j: int| 0 <= j < rest.len() ==> rest[j] == s[j + 1]);
        lemma_classify_all_err(rest, i - 1);
    }
}

} // verus!
