//! Extension definitions: the ordered list of (name, start column, end
//! column) triples that two auxiliary record kinds use to describe the
//! variable-width trailer fields of other records.  The list is both decoded
//! from and encoded back to its fixed-width line form.

use vstd::prelude::*;

use crate::util::digits::{
    all_digits, char_of_digit, digit_val, digits_val, is_digit, lemma_all_digits_join,
    lemma_digits_fit, parse_digits,
};
use crate::util::parse_error::ParseError;

verus! {

/// One trailer-field definition: a three-character mnemonic and the 1-based,
/// inclusive column range it occupies.
#[derive(Clone, Copy, Debug, PartialEq, Eq)]
pub struct Extension<'a> {
    pub name: &'a str,
    pub start: u8,
    pub end: u8,
}

/// The mathematical content of one extension entry.
pub struct ExtensionView {
    pub name: Seq<char>,
    pub start: int,
    pub end: int,
}

impl<'a> View for Extension<'a> {
    type V = ExtensionView;

    open spec fn view(&self) -> ExtensionView {
        ExtensionView { name: self.name@, start: self.start as int, end: self.end as int }
    }
}

impl<'a> Extension<'a> {
    /// Build one entry from its parts.
    pub fn new(name: &'a str, start: u8, end: u8) -> (e: Extension<'a>)
        ensures
            e.name == name && e.start == start && e.end == end,
    {
        Extension { name, start, end }
    }
}

/// The declared list of extensions of one definition line, in line order.
#[derive(Debug, PartialEq, Eq)]
pub struct ExtensionDefRecord<'a> {
    pub num_extensions: u8,
    pub extensions: Vec<Extension<'a>>,
}

/// The count field of a definition line: two digits after the tag.
pub open spec fn extension_count(s: Seq<char>) -> int {
    digits_val(s.subrange(1, 3))
}

/// The seven characters of the `i`th entry: two digits of start column, two
/// digits of end column, and a three-character name.
pub open spec fn extension_field(s: Seq<char>, i: int) -> Seq<char> {
    s.subrange(3 + 7 * i, 10 + 7 * i)
}

/// The entry a well-formed seven-character field denotes.
pub open spec fn extension_of_field(f: Seq<char>) -> ExtensionView {
    ExtensionView {
        name: f.subrange(4, 7),
        start: digits_val(f.subrange(0, 2)),
        end: digits_val(f.subrange(2, 4)),
    }
}

/// Every declared entry has digits in both of its column sub-fields.
pub open spec fn extension_fields_ok(s: Seq<char>) -> bool {
    forall|i: int|
        0 <= i < extension_count(s) ==> all_digits((#[trigger] extension_field(s, i)).subrange(0, 4))
}

/// A definition line is well formed: a tag, a two-digit count, and at least
/// `count` seven-character entries with decimal column sub-fields.
pub open spec fn extension_line_ok(s: Seq<char>) -> bool {
    &&& s.len() >= 3
    &&& all_digits(s.subrange(1, 3))
    &&& s.len() >= 3 + 7 * extension_count(s)
    &&& extension_fields_ok(s)
}

/// The failure a definition line is rejected with: a missing count field or
/// missing entries are a length failure, a non-decimal count or column
/// sub-field a numeric one.
pub open spec fn extension_line_error(s: Seq<char>) -> ParseError {
    if s.len() < 3 {
        ParseError::LineTooShort
    } else if !all_digits(s.subrange(1, 3)) {
        ParseError::MalformedNumericField
    } else if s.len() < 3 + 7 * extension_count(s) {
        ParseError::LineTooShort
    } else {
        ParseError::MalformedNumericField
    }
}

/// The entries a well-formed definition line declares, in line order.
pub open spec fn extensions_of(s: Seq<char>) -> Seq<ExtensionView> {
    Seq::new(extension_count(s) as nat, |i: int| extension_of_field(extension_field(s, i)))
}

/// The two-digit, zero-padded rendering of a column number or count.
pub open spec fn two_digits(v: int) -> Seq<char> {
    seq![char_of_digit(v / 10), char_of_digit(v % 10)]
}

/// The seven-character rendering of one entry.
pub open spec fn encoded_extension(e: ExtensionView) -> Seq<char> {
    two_digits(e.start) + two_digits(e.end) + e.name
}

/// The renderings of a list of entries, concatenated in order.
pub open spec fn encoded_extensions(es: Seq<ExtensionView>) -> Seq<char>
    decreases es.len(),
{
    if es.len() == 0 {
        Seq::empty()
    } else {
        encoded_extensions(es.drop_last()) + encoded_extension(es.last())
    }
}

/// A whole definition line: the requesting kind's tag, the count, and the
/// entries.
pub open spec fn encoded_line(tag: char, count: int, es: Seq<ExtensionView>) -> Seq<char> {
    seq![tag] + two_digits(count) + encoded_extensions(es)
}

impl<'a> ExtensionDefRecord<'a> {
    /// The mathematical content of the entry list.
    pub open spec fn entry_views(&self) -> Seq<ExtensionView> {
        Seq::new(self.extensions@.len(), |i: int| self.extensions@[i]@)
    }

    /// Every column number of the record fits its two-digit rendering.
    pub open spec fn columns_fit(&self) -> bool {
        &&& self.num_extensions <= 99
        &&& forall|i: int|
            0 <= i < self.extensions@.len() ==> (#[trigger] self.extensions@[i]).start <= 99
                && self.extensions@[i].end <= 99
    }

    /// Decode a definition line.  The character at index 0 is the requesting
    /// kind's tag and is not inspected here.  Succeeds exactly on well-formed
    /// lines, recovering the count and the entries in line order; characters
    /// past the declared entries are ignored.
    pub fn parse(line: &'a str) -> (r: Result<ExtensionDefRecord<'a>, ParseError>)
        ensures
            r is Ok <==> extension_line_ok(line@),
            r matches Ok(rec) ==> rec.num_extensions == extension_count(line@)
                && rec.entry_views() == extensions_of(line@) && rec.columns_fit(),
            r matches Err(e) ==> e == extension_line_error(line@),
    {
        let len = line.unicode_len();
        if len < 3 {
            return Err(ParseError::LineTooShort);
        }
        let count = match parse_digits(line, 1, 3) {
            Ok(v) => v,
            Err(e) => {
                return Err(e);
            },
        };
        proof {
            lemma_digits_fit(line@.subrange(1, 3));
        }
        let count = count as usize;
        if len < 3 + 7 * count {
            return Err(ParseError::LineTooShort);
        }
        let mut extensions: Vec<Extension<'a>> = Vec::new();
        let mut i: usize = 0;
        while i < count
            invariant
                i <= count <= 99,
                count == extension_count(line@),
                len == line@.len(),
                3 + 7 * count <= len,
                extensions@.len() == i,
                forall|j: int|
                    0 <= j < i ==> all_digits(
                        (#[trigger] extension_field(line@, j)).subrange(0, 4),
                    ),
                forall|j: int|
                    0 <= j < i ==> #[trigger] extensions@[j]@ == extension_of_field(
                        extension_field(line@, j),
                    ),
                forall|j: int|
                    0 <= j < i ==> (#[trigger] extensions@[j]).start <= 99 && extensions@[j].end
                        <= 99,
            decreases count - i,
        {
            let base = 3 + 7 * i;
            let ghost field = extension_field(line@, i as int);
            proof {
                assert(field.subrange(0, 2) =~= line@.subrange(base as int, base + 2));
                assert(field.subrange(2, 4) =~= line@.subrange(base + 2, base + 4));
                assert(field.subrange(4, 7) =~= line@.subrange(base + 4, base + 7));
                lemma_all_digits_join(field, 0, 2, 4);
            }
            let start = match parse_digits(line, base, base + 2) {
                Ok(v) => v,
                Err(e) => {
                    return Err(e);
                },
            };
            let end = match parse_digits(line, base + 2, base + 4) {
                Ok(v) => v,
                Err(e) => {
                    return Err(e);
                },
            };
            proof {
                lemma_digits_fit(field.subrange(0, 2));
                lemma_digits_fit(field.subrange(2, 4));
            }
            let name = line.substring_char(base + 4, base + 7);
            extensions.push(Extension { name, start: start as u8, end: end as u8 });
            i = i + 1;
        }
        let rec = ExtensionDefRecord { num_extensions: count as u8, extensions };
        proof {
            assert(rec.entry_views() =~= extensions_of(line@));
        }
        Ok(rec)
    }

    /// Encode the record back to line form for the record kind whose tag is
    /// `tag`: the tag, the count as two digits, then each entry as two digits
    /// of start column, two digits of end column and its name, in order.
    pub fn encode(&self, tag: char) -> (out: String)
        requires
            self.columns_fit(),
        ensures
            out@ == encoded_line(tag, self.num_extensions as int, self.entry_views()),
    {
        let mut out = String::new();
        push_char(&mut out, tag);
        push_two_digits(&mut out, self.num_extensions);
        let mut i: usize = 0;
        while i < self.extensions.len()
            invariant
                i <= self.extensions@.len(),
                self.columns_fit(),
                out@ == encoded_line(tag, self.num_extensions as int, self.entry_views().take(
                    i as int,
                )),
            decreases self.extensions@.len() - i,
        {
            let ghost before = self.entry_views().take(i as int);
            let e = self.extensions[i];
            push_two_digits(&mut out, e.start);
            push_two_digits(&mut out, e.end);
            out.append(e.name);
            proof {
                let after = self.entry_views().take(i as int + 1);
                assert(after.drop_last() =~= before);
                assert(after.last() == self.extensions@[i as int]@);
                assert(out@ =~= encoded_line(tag, self.num_extensions as int, after));
            }
            i = i + 1;
        }
        proof {
            assert(self.entry_views().take(self.extensions@.len() as int) =~= self.entry_views());
        }
        out
    }
}

/// A digit character survives the value/character round trip.
proof fn lemma_char_of_digit_val(c: char)
    requires
        is_digit(c),
    ensures
        char_of_digit(digit_val(c)) == c,
{
}

/// The two-digit rendering of the value of a two-digit run is that run.
proof fn lemma_two_digits_round_trip(d: Seq<char>)
    requires
        d.len() == 2,
        all_digits(d),
    ensures
        two_digits(digits_val(d)) == d,
{
    let v = digits_val(d);
    reveal_with_fuel(digits_val, 3);
    assert(d.drop_last() =~= seq![d[0]]);
    assert(seq![d[0]].drop_last() =~= Seq::<char>::empty());
    assert(digits_val(seq![d[0]]) == digit_val(d[0]));
    assert(v == digit_val(d[0]) * 10 + digit_val(d[1]));
    vstd::arithmetic::div_mod::lemma_fundamental_div_mod_converse(
        v,
        10,
        digit_val(d[0]),
        digit_val(d[1]),
    );
    lemma_char_of_digit_val(d[0]);
    lemma_char_of_digit_val(d[1]);
    assert(two_digits(v) =~= d);
}

/// The rendering of what a seven-character field denotes is that field.
proof fn lemma_field_round_trip(f: Seq<char>)
    requires
        f.len() == 7,
        all_digits(f.subrange(0, 4)),
    ensures
        encoded_extension(extension_of_field(f)) == f,
{
    lemma_all_digits_join(f, 0, 2, 4);
    lemma_two_digits_round_trip(f.subrange(0, 2));
    lemma_two_digits_round_trip(f.subrange(2, 4));
    assert(encoded_extension(extension_of_field(f)) =~= f);
}

/// The renderings of the first `k` entries of a well-formed line are its
/// characters from 3 to `3 + 7 k`.
proof fn lemma_encoded_entries_prefix(s: Seq<char>, k: int)
    requires
        extension_line_ok(s),
        0 <= k <= extension_count(s),
    ensures
        encoded_extensions(extensions_of(s).take(k)) == s.subrange(3, 3 + 7 * k),
    decreases k,
{
    if k == 0 {
        assert(extensions_of(s).take(0) =~= Seq::<ExtensionView>::empty());
        assert(encoded_extensions(extensions_of(s).take(0)) =~= s.subrange(3, 3));
    } else {
        lemma_encoded_entries_prefix(s, k - 1);
        let es = extensions_of(s).take(k);
        assert(es.drop_last() =~= extensions_of(s).take(k - 1));
        assert(es.last() == extension_of_field(extension_field(s, k - 1)));
        lemma_field_round_trip(extension_field(s, k - 1));
        assert(encoded_extensions(es) =~= s.subrange(3, 3 + 7 * k));
    }
}

/// Decoding a well-formed definition line and rendering the result under the
/// line's own tag reproduces the line, character for character, whenever the
/// line is exactly its declared entries.
pub proof fn lemma_extension_round_trip(s: Seq<char>)
    requires
        extension_line_ok(s),
        s.len() == 3 + 7 * extension_count(s),
    ensures
        encoded_line(s[0], extension_count(s), extensions_of(s)) == s,
{
    lemma_two_digits_round_trip(s.subrange(1, 3));
    lemma_encoded_entries_prefix(s, extension_count(s));
    assert(extensions_of(s).take(extension_count(s)) =~= extensions_of(s));
    assert(encoded_line(s[0], extension_count(s), extensions_of(s)) =~= s);
}

/// An entry whose column numbers fit their two-digit rendering and whose
/// name is exactly the three characters the line form carries.
pub open spec fn entry_fits(e: ExtensionView) -> bool {
    &&& 0 <= e.start <= 99
    &&& 0 <= e.end <= 99
    &&& e.name.len() == 3
}

/// A value below ten survives the character/value round trip.
proof fn lemma_digit_char_val(x: int)
    requires
        0 <= x <= 9,
    ensures
        is_digit(char_of_digit(x)),
        digit_val(char_of_digit(x)) == x,
{
}

/// The two-digit rendering of a value below a hundred is a digit run with
/// that value.
proof fn lemma_two_digits_val(v: int)
    requires
        0 <= v <= 99,
    ensures
        all_digits(two_digits(v)),
        digits_val(two_digits(v)) == v,
{
    reveal_with_fuel(digits_val, 3);
    lemma_digit_char_val(v / 10);
    lemma_digit_char_val(v % 10);
    let d = two_digits(v);
    assert(d.drop_last() =~= seq![d[0]]);
    assert(seq![d[0]].drop_last() =~= Seq::<char>::empty());
    assert(digits_val(d) == digit_val(d[0]) * 10 + digit_val(d[1]));
    vstd::arithmetic::div_mod::lemma_fundamental_div_mod(v, 10);
}

/// The rendering of a list of fitting entries is seven characters per entry,
/// each entry's rendering standing at its own offset.
proof fn lemma_encoded_extensions_structure(es: Seq<ExtensionView>)
    requires
        forall|i: int| 0 <= i < es.len() ==> entry_fits(#[trigger] es[i]),
    ensures
        encoded_extensions(es).len() == 7 * es.len(),
        forall|i: int|
            0 <= i < es.len() ==> encoded_extensions(es).subrange(7 * i, 7 * i + 7)
                == encoded_extension(#[trigger] es[i]),
    decreases es.len(),
{
    if es.len() > 0 {
        let front = es.drop_last();
        assert forall|i: int| 0 <= i < front.len() implies entry_fits(#[trigger] front[i]) by {
            assert(front[i] == es[i]);
        }
        lemma_encoded_extensions_structure(front);
        assert forall|i: int|
            0 <= i < es.len() implies encoded_extensions(es).subrange(7 * i, 7 * i + 7)
            == encoded_extension(#[trigger] es[i]) by {
            if i < es.len() - 1 {
                assert(encoded_extensions(es).subrange(7 * i, 7 * i + 7) =~= encoded_extensions(
                    front,
                ).subrange(7 * i, 7 * i + 7));
                assert(front[i] == es[i]);
            } else {
                assert(encoded_extensions(es).subrange(7 * i, 7 * i + 7) =~= encoded_extension(
                    es.last(),
                ));
            }
        }
    }
}

/// Rendering a two-digit count and fitting entries yields a well-formed
/// definition line that decodes back to that count and those entries,
/// whatever tag it is rendered under.
pub proof fn lemma_extension_reparse(tag: char, count: int, es: Seq<ExtensionView>)
    requires
        0 <= count <= 99,
        es.len() == count,
        forall|i: int| 0 <= i < es.len() ==> entry_fits(#[trigger] es[i]),
    ensures
        extension_line_ok(encoded_line(tag, count, es)),
        extension_count(encoded_line(tag, count, es)) == count,
        extensions_of(encoded_line(tag, count, es)) == es,
{
    let s = encoded_line(tag, count, es);
    lemma_two_digits_val(count);
    lemma_encoded_extensions_structure(es);
    assert(s.subrange(1, 3) =~= two_digits(count));
    assert(extension_count(s) == count);
    assert forall|i: int|
        0 <= i < count implies all_digits((#[trigger] extension_field(s, i)).subrange(0, 4))
        && extension_of_field(extension_field(s, i)) == es[i] by {
        let f = extension_field(s, i);
        let e = es[i];
        assert(f =~= encoded_extensions(es).subrange(7 * i, 7 * i + 7));
        lemma_two_digits_val(e.start);
        lemma_two_digits_val(e.end);
        assert(f.subrange(0, 2) =~= two_digits(e.start));
        assert(f.subrange(2, 4) =~= two_digits(e.end));
        assert(f.subrange(4, 7) =~= e.name);
        lemma_all_digits_join(f, 0, 2, 4);
    }
    assert(extensions_of(s) =~= es);
}

/// The digit character of a value below ten.
fn digit_char(d: u8) -> (c: char)
    requires
        d <= 9,
    ensures
        c == char_of_digit(d as int),
{
    (48 + d) as char
}

/// Append one character.  Relies on `String::push`, which appends the given
/// character to the end of the string.
#[verifier::external_body]
fn push_char(out: &mut String, c: char)
    ensures
        final(out)@ == old(out)@.push(c),
{
    out.push(c);
}

/// Append the two-digit, zero-padded rendering of `v`.
fn push_two_digits(out: &mut String, v: u8)
    requires
        v <= 99,
    ensures
        final(out)@ == old(out)@ + two_digits(v as int),
{
    push_char(out, digit_char(v / 10));
    push_char(out, digit_char(v % 10));
    proof {
        assert(out@ =~= old(out)@ + two_digits(v as int));
    }
}

} // verus!
