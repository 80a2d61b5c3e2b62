//! Rendering values as text.
//!
//! `Render` is what a type offers in place of a formatting trait of the
//! standard library: a method that returns the text as a `String`, and a
//! specification function that says which text that is.
use vstd::prelude::*;
use vstd::string::{StringExecFns, StringSliceAdditionalSpecFns};
use vstd::utf8::encode_utf8_decode_utf8;

verus! {

/// A value with a text form.
pub trait Render {
    /// The text form of the value.
    spec fn rendered(&self) -> Seq<char>;

    /// Renders the value.
    fn render(&self) -> (text: String)
        ensures
            text@ == self.rendered(),
    ;
}

/// A stretch of rendered output: text, or the place of a float.
///
/// Nothing here turns a float into digits. Where a float is to appear, the
/// output holds its bit pattern, and whoever writes the output out puts the
/// decimal form of the float in its place.
#[derive(Debug, PartialEq, Eq)]
pub enum Piece {
    /// Text, to be written as it stands.
    Text(String),
    /// The place of the decimal form of the float with this IEEE-754 double
    /// precision bit pattern.
    Float(u64),
}

/// What a `Piece` stands for.
pub enum Fragment {
    /// Text, to be written as it stands.
    Text(Seq<char>),
    /// The place of the decimal form of the float with this bit pattern.
    Float(u64),
}

impl View for Piece {
    type V = Fragment;

    open spec fn view(&self) -> Fragment {
        match self {
            Piece::Text(text) => Fragment::Text(text@),
            Piece::Float(bits) => Fragment::Float(*bits),
        }
    }
}

/// What the pieces of an output stand for, one by one.
pub open spec fn fragments(pieces: Seq<Piece>) -> Seq<Fragment> {
    pieces.map_values(|piece: Piece| piece@)
}

/// The text that the fragments make up when written one after the other:
/// `None` where one of them is the place of a float.
pub open spec fn plain(parts: Seq<Fragment>) -> Option<Seq<char>>
    decreases parts.len(),
{
    if parts.len() == 0 {
        Some(Seq::empty())
    } else {
        match (plain(parts.drop_last()), parts.last()) {
            (Some(before), Fragment::Text(text)) => Some(before + text),
            _ => None,
        }
    }
}

/// Writes the pieces of an output one after the other into a string.
/// Returns `None` exactly when one of the pieces is the place of a float.
pub fn plain_text(pieces: &Vec<Piece>) -> (text: Option<String>)
    ensures
        text is Some <==> forall|i: int| 0 <= i < pieces@.len() ==> pieces@[i] is Text,
        match text {
            Some(joined) => plain(fragments(pieces@)) == Some(joined@),
            None => plain(fragments(pieces@)) is None,
        },
{
    let mut joined = String::new();
    let mut i: usize = 0;
    let ghost parts = fragments(pieces@);
    while i < pieces.len()
        invariant
            i <= pieces@.len(),
            parts == fragments(pieces@),
            plain(parts.take(i as int)) == Some(joined@),
            forall|j: int| 0 <= j < i ==> pieces@[j] is Text,
        decreases pieces@.len() - i,
    {
        proof {
            assert(parts.take(i + 1).drop_last() =~= parts.take(i as int));
            assert(parts.take(i + 1).last() == pieces@[i as int]@);
        }
        match &pieces[i] {
            Piece::Text(text) => {
                joined.append(text.as_str());
            },
            Piece::Float(_) => {
                proof {
                    lemma_plain_prefix(parts, i + 1);
                }
                return None;
            },
        }
        i = i + 1;
    }
    proof {
        assert(parts.take(i as int) =~= parts);
    }
    Some(joined)
}

/// Where the first fragments do not make up a text, all of them do not.
pub proof fn lemma_plain_prefix(parts: Seq<Fragment>, n: int)
    requires
        0 <= n <= parts.len(),
        plain(parts.take(n)) is None,
    ensures
        plain(parts) is None,
    decreases parts.len(),
{
    if n < parts.len() {
        assert(parts.drop_last().take(n) =~= parts.take(n));
        lemma_plain_prefix(parts.drop_last(), n);
    } else {
        assert(parts.take(n) =~= parts);
    }
}

/// The texts of `parts`, in order, with a comma and a space between
/// neighbours.
pub open spec fn comma_separated(parts: Seq<Seq<char>>) -> Seq<char>
    decreases parts.len(),
{
    if parts.len() == 0 {
        Seq::empty()
    } else if parts.len() == 1 {
        parts[0]
    } else {
        comma_separated(parts.drop_last()) + seq![',', ' '] + parts.last()
    }
}

/// The text of a list: the texts of its items between parentheses, with a
/// comma and a space between neighbours. The list without items gives `()`.
pub open spec fn listed(parts: Seq<Seq<char>>) -> Seq<char> {
    seq!['('] + comma_separated(parts) + seq![')']
}

/// The characters of each of the strings.
pub open spec fn texts(parts: Seq<String>) -> Seq<Seq<char>> {
    parts.map_values(|part: String| part@)
}

/// Writes a list out of the texts of its items.
pub fn list_text(parts: &Vec<String>) -> (text: String)
    ensures
        text@ == listed(texts(parts@)),
{
    let mut text = "(".to_owned();
    let ghost items = texts(parts@);
    proof {
        reveal_strlit("(");
        assert("("@ =~= seq!['(']);
        assert(items.take(0) =~= Seq::<Seq<char>>::empty());
    }
    let mut i: usize = 0;
    while i < parts.len()
        invariant
            i <= parts@.len(),
            items == texts(parts@),
            text@ == seq!['('] + comma_separated(items.take(i as int)),
        decreases parts@.len() - i,
    {
        proof {
            reveal_strlit(", ");
            assert(", "@ =~= seq![',', ' ']);
            assert(items.take(i + 1).drop_last() =~= items.take(i as int));
            assert(items.take(i + 1).last() == parts@[i as int]@);
            if i > 0 {
                assert(items.take(i as int).len() > 0);
            }
        }
        if i > 0 {
            text.append(", ");
        }
        text.append(parts[i].as_str());
        proof {
            let shown = comma_separated(items.take(i + 1));
            if i == 0 {
                assert(comma_separated(items.take(0)) =~= Seq::<char>::empty());
                assert(text@ =~= seq!['('] + shown);
            } else {
                assert(text@ =~= seq!['('] + shown);
            }
        }
        i = i + 1;
    }
    proof {
        reveal_strlit(")");
        assert(")"@ =~= seq![')']);
        assert(items.take(i as int) =~= items);
    }
    text.append(")");
    text
}

/// The character for one decimal digit: the digits follow one another in
/// the character set, from `0` on.
pub open spec fn digit(d: int) -> char
    recommends
        0 <= d < 10,
{
    ('0' as int + d) as char
}

/// The decimal digits of a natural number, most significant first, without
/// leading zeros; zero is the single digit `0`.
pub open spec fn decimal_nat(n: nat) -> Seq<char>
    decreases n,
{
    if n < 10 {
        seq![digit(n as int)]
    } else {
        decimal_nat(n / 10).push(digit((n % 10) as int))
    }
}

/// The decimal form of an integer: a minus sign before the digits of a
/// negative number, no sign otherwise.
pub open spec fn decimal(n: int) -> Seq<char> {
    if n < 0 {
        seq!['-'] + decimal_nat((-n) as nat)
    } else {
        decimal_nat(n as nat)
    }
}

/// The digits of what is left of a number once its last digits were taken
/// off: none when nothing is left.
spec fn leading(rest: nat) -> Seq<char> {
    if rest == 0 {
        Seq::empty()
    } else {
        decimal_nat(rest)
    }
}

/// Appends one character to a string, by `String::push` of the standard
/// library. Assumed, not proved: afterwards the string holds the characters
/// it held before, followed by `c`.
#[verifier::external_body]
pub(crate) fn push_char(text: &mut String, c: char)
    ensures
        final(text)@ == old(text)@.push(c),
{
    text.push(c);
}

/// The character for one decimal digit.
fn digit_char(d: u64) -> (c: char)
    requires
        d < 10,
    ensures
        c == digit(d as int),
{
    let code: u8 = 48 + d as u8;
    code as char
}

/// Appends the decimal digits of `n` to `text`.
pub fn push_decimal(text: &mut String, n: u64)
    ensures
        final(text)@ == old(text)@ + decimal_nat(n as nat),
{
    let mut digits: Vec<char> = Vec::new();
    digits.push(digit_char(n % 10));
    let mut rest: u64 = n / 10;
    while rest > 0
        invariant
            decimal_nat(n as nat) == leading(rest as nat) + digits@.reverse(),
        decreases rest,
    {
        proof {
            assert(leading(rest as nat) == leading((rest / 10) as nat) + seq![
                digit((rest % 10) as int),
            ]);
            assert(digits@.push(digit((rest % 10) as int)).reverse() =~= seq![
                digit((rest % 10) as int),
            ] + digits@.reverse());
        }
        digits.push(digit_char(rest % 10));
        rest = rest / 10;
    }
    let mut left: usize = digits.len();
    while left > 0
        invariant
            left <= digits.len(),
            text@ == old(text)@ + digits@.reverse().take(digits.len() - left),
        decreases left,
    {
        left = left - 1;
        push_char(text, digits[left]);
        proof {
            let written = digits@.reverse();
            let k = digits.len() - left;
            assert(written.take(k) =~= written.take(k - 1).push(digits[left as int]));
        }
    }
    proof {
        assert(digits@.reverse().take(digits.len() as int) =~= digits@.reverse());
    }
}

/// Appends the decimal form of `n` to `text`.
pub fn push_signed_decimal(text: &mut String, n: i64)
    ensures
        final(text)@ == old(text)@ + decimal(n as int),
{
    if n < 0 {
        push_char(text, '-');
        let magnitude: u64 = if n == i64::MIN {
            0x8000_0000_0000_0000
        } else {
            (-n) as u64
        };
        push_decimal(text, magnitude);
        proof {
            assert(old(text)@.push('-') + decimal_nat(magnitude as nat) =~= old(text)@ + (seq![
                '-',
            ] + decimal_nat(magnitude as nat)));
        }
    } else {
        push_decimal(text, n as u64);
    }
}

/// Whether two strings hold the same characters.
pub fn same_text(a: &str, b: &str) -> (same: bool)
    ensures
        same == (a@ == b@),
{
    let left = a.as_bytes();
    let right = b.as_bytes();
    proof {
        encode_utf8_decode_utf8(a@);
        encode_utf8_decode_utf8(b@);
    }
    if left.len() != right.len() {
        return false;
    }
    let mut i: usize = 0;
    while i < left.len()
        invariant
            i <= left@.len(),
            left@.len() == right@.len(),
            left@ == a.spec_bytes(),
            right@ == b.spec_bytes(),
            forall|j: int| 0 <= j < i ==> left@[j] == right@[j],
        decreases left@.len() - i,
    {
        if left[i] != right[i] {
            return false;
        }
        i = i + 1;
    }
    proof {
        assert(left@ =~= right@);
    }
    true
}

impl Render for u64 {
    open spec fn rendered(&self) -> Seq<char> {
        decimal(*self as int)
    }

    fn render(&self) -> (text: String) {
        let mut text = String::new();
        push_decimal(&mut text, *self);
        text
    }
}

impl Render for usize {
    open spec fn rendered(&self) -> Seq<char> {
        decimal(*self as int)
    }

    fn render(&self) -> (text: String) {
        let mut text = String::new();
        push_decimal(&mut text, *self as u64);
        text
    }
}

impl Render for i64 {
    open spec fn rendered(&self) -> Seq<char> {
        decimal(*self as int)
    }

    fn render(&self) -> (text: String) {
        let mut text = String::new();
        push_signed_decimal(&mut text, *self);
        text
    }
}

impl Render for i32 {
    open spec fn rendered(&self) -> Seq<char> {
        decimal(*self as int)
    }

    fn render(&self) -> (text: String) {
        let mut text = String::new();
        push_signed_decimal(&mut text, *self as i64);
        text
    }
}

impl Render for isize {
    open spec fn rendered(&self) -> Seq<char> {
        decimal(*self as int)
    }

    fn render(&self) -> (text: String) {
        let mut text = String::new();
        push_signed_decimal(&mut text, *self as i64);
        text
    }
}

} // verus!
