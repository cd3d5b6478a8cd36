//! Rendering the report: a header line, then each accepted word on a line
//! of its own, numbered from one.

use vstd::prelude::*;

use crate::word::Character;
use crate::word::Word;
use crate::word::upper_spec;

verus! {

/// The character one slot renders as: its letter in uppercase form, or a
/// blank for a wildcard.
pub open spec fn display_char_spec(slot: Character) -> char {
    match slot {
        Character::Normal(c) => upper_spec(c),
        Character::Wildcard => ' ',
    }
}

impl Character {
    /// Renders one slot as a single character.
    pub fn display_char(&self) -> (r: char)
        ensures
            r == display_char_spec(*self),
    {
        match self {
            Character::Normal(c) => crate::word::upper_char(*c),
            Character::Wildcard => ' ',
        }
    }
}

/// The decimal digit character for `d`.
pub open spec fn digit_char(d: nat) -> char
    recommends
        d < 10,
{
    ((d + 48) as u8) as char
}

/// The decimal digits of `n`, most significant first.
pub open spec fn decimal_digits(n: nat) -> Seq<char>
    decreases n,
{
    if n < 10 {
        seq![digit_char(n)]
    } else {
        decimal_digits(n / 10).push(digit_char(n % 10))
    }
}

/// The characters a stored word renders as, slot by slot.
pub open spec fn rendered_word(w: Seq<Character>) -> Seq<char> {
    w.map_values(|c: Character| display_char_spec(c))
}

/// The report's header line.
pub open spec fn header_text() -> Seq<char> {
    "List of possible matching words:\n"@
}

/// One numbered report entry: the 1-based number, a separator, the rendered
/// word, and a line break.
pub open spec fn entry_text(idx: nat, w: Seq<Character>) -> Seq<char> {
    decimal_digits(idx) + ". "@ + rendered_word(w) + "\n"@
}

/// The first `n` report entries in order, entry `k` carrying number `k`.
pub open spec fn entries_text(results: Seq<Seq<Character>>, n: int) -> Seq<char>
    decreases n,
{
    if n <= 0 {
        Seq::<char>::empty()
    } else {
        entries_text(results, n - 1) + entry_text(n as nat, results[n - 1])
    }
}

/// The whole report for the given result list.
pub open spec fn render_spec(results: Seq<Seq<Character>>) -> Seq<char> {
    header_text() + entries_text(results, results.len() as int)
}

/// Appends every character of `s` to `out`.
pub(crate) fn push_str_chars(out: &mut Vec<char>, s: &str)
    ensures
        final(out)@ == old(out)@ + s@,
{
    let n = s.unicode_len();
    let mut i: usize = 0;
    while i < n
        invariant
            n == s@.len(),
            i <= n,
            out@ == old(out)@ + s@.take(i as int),
        decreases n - i,
    {
        let c = s.get_char(i);
        out.push(c);
        proof {
            assert(old(out)@ + s@.take(i + 1) =~= (old(out)@ + s@.take(i as int)).push(
                s@[i as int],
            ));
        }
        i = i + 1;
    }
    proof {
        assert(s@.take(n as int) =~= s@);
    }
}

/// Appends the decimal digits of `n` to `out`.
pub(crate) fn push_decimal(out: &mut Vec<char>, n: usize)
    ensures
        final(out)@ == old(out)@ + decimal_digits(n as nat),
    decreases n,
{
    if n >= 10 {
        push_decimal(out, n / 10);
    }
    let d: u8 = (n % 10) as u8;
    out.push((d + 48) as char);
    proof {
        if n < 10 {
            assert(old(out)@ + decimal_digits(n as nat) =~= old(out)@.push(
                digit_char(n as nat),
            ));
        } else {
            assert(old(out)@ + decimal_digits(n as nat) =~= (old(out)@ + decimal_digits(
                (n / 10) as nat,
            )).push(digit_char((n % 10) as nat)));
        }
    }
}

/// Appends the rendered characters of `w` to `out`.
pub(crate) fn push_word_chars(out: &mut Vec<char>, w: &Word)
    ensures
        final(out)@ == old(out)@ + rendered_word(w@),
{
    let n = w.0.len();
    let mut i: usize = 0;
    while i < n
        invariant
            n == w@.len(),
            i <= n,
            out@ == old(out)@ + rendered_word(w@).take(i as int),
        decreases n - i,
    {
        let c = w.0[i].display_char();
        out.push(c);
        proof {
            assert(rendered_word(w@)[i as int] == display_char_spec(w@[i as int]));
            assert(old(out)@ + rendered_word(w@).take(i + 1) =~= (old(out)@ + rendered_word(
                w@,
            ).take(i as int)).push(rendered_word(w@)[i as int]));
        }
        i = i + 1;
    }
    proof {
        assert(rendered_word(w@).take(n as int) =~= rendered_word(w@));
    }
}

/// Relies on `String::from_iter` of std (through `Iterator::collect`): the
/// string holding exactly the given characters in order.
#[verifier::external_body]
pub(crate) fn chars_to_string(v: Vec<char>) -> (r: String)
    ensures
        r@ == v@,
{
    v.into_iter().collect()
}

} // verus!
