//! The constraint sets, the matching decision, and the result accumulator.
//!
//! A candidate word is held against a chosen five-slot pattern under two
//! unordered letter sets: letters that must not appear where the pattern has
//! a concrete letter, and letters whose presence anywhere among the compared
//! positions forces the candidate to be accepted. The accumulator owns the
//! chosen pattern and the growing list of accepted candidates.

use vstd::prelude::*;

use crate::word::Character;
use crate::word::Word;
use crate::word::WordError;
use crate::word::parse_word_spec;
use crate::word::upper_spec;

verus! {

/// Letters that must not appear in a candidate at positions where the
/// chosen pattern has a concrete letter.
#[derive(Debug)]
pub struct Excluded(pub Vec<char>);

/// Letters that, found aligned with any compared position, force the
/// candidate to be accepted.
#[derive(Debug)]
pub struct Included(pub Vec<char>);

impl View for Excluded {
    type V = Seq<char>;

    open spec fn view(&self) -> Seq<char> {
        self.0@
    }
}

impl View for Included {
    type V = Seq<char>;

    open spec fn view(&self) -> Seq<char> {
        self.0@
    }
}

/// Every character of `s`, mapped to its ASCII-uppercase form, in order.
pub open spec fn upper_seq(s: Seq<char>) -> Seq<char> {
    s.map_values(|c: char| upper_spec(c))
}

/// Collects the ASCII-uppercase form of every character of `s`; never
/// fails, and an empty string yields the empty set.
fn collect_upper(s: &str) -> (r: Vec<char>)
    ensures
        r@ == upper_seq(s@),
{
    let n = s.unicode_len();
    let mut out: Vec<char> = Vec::new();
    let mut i: usize = 0;
    while i < n
        invariant
            n == s@.len(),
            i <= n,
            out@.len() == i,
            forall|j: int| 0 <= j < i ==> out@[j] == upper_spec(#[trigger] s@[j]),
        decreases n - i,
    {
        out.push(crate::word::upper_char(s.get_char(i)));
        i = i + 1;
    }
    proof {
        assert(out@ =~= upper_seq(s@));
    }
    out
}

impl Excluded {
    /// Builds the excluded set from raw text, normalizing every character
    /// to uppercase; accepts any input.
    pub fn from_str(s: &str) -> (r: Result<Excluded, &'static str>)
        ensures
            r matches Ok(e) && e@ == upper_seq(s@),
    {
        Ok(Excluded(collect_upper(s)))
    }
}

impl Included {
    /// Builds the included set from raw text, normalizing every character
    /// to uppercase; accepts any input.
    pub fn from_str(s: &str) -> (r: Result<Included, &'static str>)
        ensures
            r matches Ok(e) && e@ == upper_seq(s@),
    {
        Ok(Included(collect_upper(s)))
    }
}

/// Whether the candidate slot contributes a letter that the included set
/// holds: only a concrete letter can; a candidate wildcard stands for a
/// placeholder that is a member of no constraint set.
pub open spec fn included_hit(slot: Character, included: Seq<char>) -> bool {
    match slot {
        Character::Normal(c) => included.contains(c),
        Character::Wildcard => false,
    }
}

/// The matching decision from position `i` on, positions left of `i` having
/// passed: a wildcard in the chosen pattern constrains nothing; at a
/// concrete chosen letter, a concrete candidate letter found in the
/// included set accepts the whole word at once, a chosen letter found in
/// the excluded set rejects it, a slot mismatch rejects it, and otherwise
/// the decision moves to the next position.
pub open spec fn match_from(
    chosen: Seq<Character>,
    cand: Seq<Character>,
    excluded: Seq<char>,
    included: Seq<char>,
    i: int,
) -> bool
    decreases chosen.len() - i,
{
    if i < 0 || i >= chosen.len() || i >= cand.len() {
        true
    } else {
        match chosen[i] {
            Character::Wildcard => match_from(chosen, cand, excluded, included, i + 1),
            Character::Normal(y) => {
                if included_hit(cand[i], included) {
                    true
                } else if excluded.contains(y) {
                    false
                } else if chosen[i] != cand[i] {
                    false
                } else {
                    match_from(chosen, cand, excluded, included, i + 1)
                }
            },
        }
    }
}

/// Whether the candidate is consistent with the chosen pattern under the
/// two constraint sets: the decision of the whole left-to-right pass.
pub open spec fn word_matches(
    chosen: Seq<Character>,
    cand: Seq<Character>,
    excluded: Seq<char>,
    included: Seq<char>,
) -> bool {
    match_from(chosen, cand, excluded, included, 0)
}

/// What one evaluation does to the accumulated result list: an accepted
/// candidate is appended, a rejected one leaves the list as it is.
pub open spec fn evaluate_spec(
    results: Seq<Seq<Character>>,
    chosen: Seq<Character>,
    cand: Seq<Character>,
    excluded: Seq<char>,
    included: Seq<char>,
) -> Seq<Seq<Character>> {
    if word_matches(chosen, cand, excluded, included) {
        results.push(cand)
    } else {
        results
    }
}

/// The slot sequence of one stored word.
pub open spec fn word_view(w: Word) -> Seq<Character> {
    w@
}

/// The slot sequences of the stored words, in order.
pub open spec fn results_view(ws: Seq<Word>) -> Seq<Seq<Character>> {
    ws.map_values(|w: Word| word_view(w))
}

/// Appending a word and then taking the slot-sequence view is taking the
/// view and then appending the word's slot sequence.
proof fn lemma_results_push(ws: Seq<Word>, w: Word)
    ensures
        results_view(ws.push(w)) == results_view(ws).push(w@),
{
    assert(results_view(ws.push(w)) =~= results_view(ws).push(w@));
}

/// Whether `v` holds the character `c`.
fn contains_char(v: &Vec<char>, c: char) -> (r: bool)
    ensures
        r == v@.contains(c),
{
    let mut k: usize = 0;
    while k < v.len()
        invariant
            k <= v@.len(),
            forall|j: int| 0 <= j < k ==> v@[j] != c,
        decreases v@.len() - k,
    {
        if v[k] == c {
            return true;
        }
        k = k + 1;
    }
    false
}

/// Owns the chosen pattern and the growing, append-only list of candidates
/// judged consistent with it so far.
#[derive(Debug)]
pub struct WordsResult {
    chosen_word: Word,
    pub possible_words: Vec<Word>,
}

impl WordsResult {
    /// A well-formed accumulator holds a well-formed chosen pattern.
    pub closed spec fn wf(self) -> bool {
        self.chosen_word.wf()
    }

    /// The chosen pattern's slot sequence.
    pub closed spec fn chosen(self) -> Seq<Character> {
        self.chosen_word@
    }

    /// The slot sequences of the accepted candidates, in acceptance order.
    pub closed spec fn results(self) -> Seq<Seq<Character>> {
        results_view(self.possible_words@)
    }

    /// Creates an accumulator for the chosen pattern, with an empty result
    /// list.
    pub fn new(chosen_word: Word) -> (r: WordsResult)
        requires
            chosen_word.wf(),
        ensures
            r.wf(),
            r.chosen() == chosen_word@,
            r.results() == Seq::<Seq<Character>>::empty(),
    {
        let r = WordsResult { chosen_word, possible_words: Vec::new() };
        proof {
            assert(r.results() =~= Seq::<Seq<Character>>::empty());
        }
        r
    }

    /// Decides whether the candidate text is consistent with the chosen
    /// pattern under the two sets, appending the parsed candidate to the
    /// result list exactly when it is accepted. The candidate text must
    /// parse into a five-slot word; [`WordsResult::check_word`] decides for
    /// arbitrary text.
    pub fn is_word_possible(
        &mut self,
        target: &str,
        excluded: &Excluded,
        included: &Included,
    ) -> (r: bool)
        requires
            old(self).wf(),
            parse_word_spec(target@) is Ok,
        ensures
            final(self).wf(),
            final(self).chosen() == old(self).chosen(),
            r == word_matches(
                old(self).chosen(),
                parse_word_spec(target@)->Ok_0,
                excluded@,
                included@,
            ),
            final(self).results() == evaluate_spec(
                old(self).results(),
                old(self).chosen(),
                parse_word_spec(target@)->Ok_0,
                excluded@,
                included@,
            ),
    {
        let target_word: Word;
        match Word::from_str(target) {
            Ok(w) => {
                target_word = w;
            },
            Err(_) => {
                assert(false);
                return false;
            },
        }
        let mut i: usize = 0;
        while i < 5
            invariant
                i <= 5,
                *self == *old(self),
                old(self).wf(),
                target_word@ == parse_word_spec(target@)->Ok_0,
                target_word@.len() == 5,
                word_matches(self.chosen_word@, target_word@, excluded@, included@) == match_from(
                    self.chosen_word@,
                    target_word@,
                    excluded@,
                    included@,
                    i as int,
                ),
            decreases 5 - i,
        {
            let chosen_slot = self.chosen_word.0[i];
            if let Character::Normal(y) = chosen_slot {
                let cand_slot = target_word.0[i];
                let included_here = match cand_slot {
                    Character::Normal(x) => contains_char(&included.0, x),
                    Character::Wildcard => false,
                };
                if included_here {
                    self.possible_words.push(target_word);
                    proof {
                        lemma_results_push(old(self).possible_words@, target_word);
                    }
                    return true;
                }
                if contains_char(&excluded.0, y) {
                    return false;
                }
                if !crate::word::character_eq(&chosen_slot, &cand_slot) {
                    return false;
                }
            }
            i = i + 1;
        }
        self.possible_words.push(target_word);
        proof {
            lemma_results_push(old(self).possible_words@, target_word);
        }
        true
    }

    /// Renders the report: the header line, then the accepted words in
    /// acceptance order, numbered from one.
    pub fn render(&self) -> (r: String)
        ensures
            r@ == crate::render::render_spec(self.results()),
    {
        let mut out: Vec<char> = Vec::new();
        crate::render::push_str_chars(&mut out, "List of possible matching words:\n");
        let ghost res = self.results();
        let mut i: usize = 0;
        while i < self.possible_words.len()
            invariant
                res == self.results(),
                res.len() == self.possible_words@.len(),
                i <= self.possible_words@.len(),
                out@ == crate::render::header_text() + crate::render::entries_text(
                    res,
                    i as int,
                ),
            decreases self.possible_words@.len() - i,
        {
            let ghost out_entry = out@;
            crate::render::push_decimal(&mut out, i + 1);
            crate::render::push_str_chars(&mut out, ". ");
            crate::render::push_word_chars(&mut out, &self.possible_words[i]);
            crate::render::push_str_chars(&mut out, "\n");
            proof {
                assert(res[i as int] == self.possible_words@[i as int]@);
                assert(out@ =~= out_entry + crate::render::entry_text(
                    (i + 1) as nat,
                    res[i as int],
                ));
                assert(out@ =~= crate::render::header_text() + crate::render::entries_text(
                    res,
                    i + 1,
                ));
            }
            i = i + 1;
        }
        proof {
            assert(out@ == crate::render::render_spec(res));
        }
        crate::render::chars_to_string(out)
    }

    /// Parses arbitrary candidate text first: a valid five-slot word is
    /// evaluated as by [`WordsResult::is_word_possible`], and text that does
    /// not parse yields its parse error, the result list left unchanged.
    pub fn check_word(
        &mut self,
        target: &str,
        excluded: &Excluded,
        included: &Included,
    ) -> (r: Result<bool, WordError>)
        requires
            old(self).wf(),
        ensures
            final(self).wf(),
            final(self).chosen() == old(self).chosen(),
            match parse_word_spec(target@) {
                Ok(cand) => r == Ok::<bool, WordError>(
                    word_matches(old(self).chosen(), cand, excluded@, included@),
                ) && final(self).results() == evaluate_spec(
                    old(self).results(),
                    old(self).chosen(),
                    cand,
                    excluded@,
                    included@,
                ),
                Err(e) => r == Err::<bool, WordError>(e) && final(self).results() == old(
                    self,
                ).results(),
            },
    {
        match Word::from_str(target) {
            Ok(_) => Ok(self.is_word_possible(target, excluded, included)),
            Err(e) => Err(e),
        }
    }
}

/// Law: one evaluation never removes an accepted word; the result list
/// grows by exactly one entry on acceptance and stays as it is on
/// rejection, so its length never decreases.
pub proof fn lemma_evaluate_monotonic(
    results: Seq<Seq<Character>>,
    chosen: Seq<Character>,
    cand: Seq<Character>,
    excluded: Seq<char>,
    included: Seq<char>,
)
    ensures
        results.len() <= evaluate_spec(results, chosen, cand, excluded, included).len(),
        evaluate_spec(results, chosen, cand, excluded, included).len() <= results.len() + 1,
        forall|j: int|
            0 <= j < results.len() ==> evaluate_spec(results, chosen, cand, excluded, included)[j]
                == results[j],
{
}

/// Law: evaluating the same candidate against the same accumulator state a
/// second time decides the same way; an accepted candidate is appended once
/// per evaluation, with no deduplication.
pub proof fn lemma_reevaluate_appends(
    results: Seq<Seq<Character>>,
    chosen: Seq<Character>,
    cand: Seq<Character>,
    excluded: Seq<char>,
    included: Seq<char>,
)
    ensures
        word_matches(chosen, cand, excluded, included) ==> evaluate_spec(
            evaluate_spec(results, chosen, cand, excluded, included),
            chosen,
            cand,
            excluded,
            included,
        ) == results.push(cand).push(cand),
        !word_matches(chosen, cand, excluded, included) ==> evaluate_spec(
            evaluate_spec(results, chosen, cand, excluded, included),
            chosen,
            cand,
            excluded,
            included,
        ) == results,
{
}

} // verus!
