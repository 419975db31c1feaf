//! The line protocol's character-escaping rules.
//!
//! Each syntactic position of a line escapes its own set of characters by
//! prefixing a backslash: a measurement name escapes commas and spaces; tag
//! keys, tag values and field keys additionally escape equals signs; a
//! string-typed field value escapes double quotes and backslashes (the caller
//! wraps it in double quotes afterwards). Every function here is total and
//! never mutates its input.

use vstd::prelude::*;

verus! {

/// The sets of characters that the line protocol requires a backslash before,
/// one set for each syntactic position.
#[derive(Clone, Copy)]
pub enum EscapeSet {
    Measurement,
    KeyOrTagValue,
    StringValue,
}

/// Whether `c` must be escaped at the position described by `set`.
pub open spec fn special_of(set: EscapeSet, c: char) -> bool {
    match set {
        EscapeSet::Measurement => c == ',' || c == ' ',
        EscapeSet::KeyOrTagValue => c == ',' || c == '=' || c == ' ',
        EscapeSet::StringValue => c == '"' || c == '\\',
    }
}

/// The escaped form of `s`: a backslash before every character of the set,
/// all other characters unchanged.
pub open spec fn escaped(set: EscapeSet, s: Seq<char>) -> Seq<char>
    decreases s.len(),
{
    if s.len() == 0 {
        Seq::empty()
    } else if special_of(set, s[0]) {
        seq!['\\', s[0]] + escaped(set, s.drop_first())
    } else {
        seq![s[0]] + escaped(set, s.drop_first())
    }
}

/// The protocol's own un-escaping: a backslash followed by a character of the
/// set stands for that character alone; every other character stands for
/// itself.
pub open spec fn unescaped(set: EscapeSet, s: Seq<char>) -> Seq<char>
    decreases s.len(),
{
    if s.len() == 0 {
        Seq::empty()
    } else if s[0] == '\\' && s.len() >= 2 && special_of(set, s[1]) {
        seq![s[1]] + unescaped(set, s.subrange(2, s.len() as int))
    } else {
        seq![s[0]] + unescaped(set, s.drop_first())
    }
}

/// Appending one character to the input appends its escaped form to the
/// output.
pub proof fn lemma_escaped_snoc(set: EscapeSet, s: Seq<char>, c: char)
    ensures
        escaped(set, s.push(c)) == escaped(set, s) + (if special_of(set, c) {
            seq!['\\', c]
        } else {
            seq![c]
        }),
    decreases s.len(),
{
    let tail = (if special_of(set, c) {
        seq!['\\', c]
    } else {
        seq![c]
    });
    if s.len() == 0 {
        assert(s.push(c) =~= seq![c]);
        assert(seq![c].drop_first() =~= Seq::<char>::empty());
        assert(escaped(set, Seq::<char>::empty()) == Seq::<char>::empty());
        assert(escaped(set, s) == Seq::<char>::empty());
        assert(escaped(set, seq![c]) =~= tail);
        assert(escaped(set, s.push(c)) =~= escaped(set, s) + tail);
    } else {
        assert(s.push(c).drop_first() =~= s.drop_first().push(c));
        lemma_escaped_snoc(set, s.drop_first(), c);
        assert(s.push(c)[0] == s[0]);
        assert(escaped(set, s.push(c)) =~= escaped(set, s) + tail);
    }
}

/// An escaped text never starts with an escapable character while the
/// backslash itself is not escapable, because every escapable character hides
/// behind a leading backslash.
proof fn lemma_escaped_first_not_special(set: EscapeSet, s: Seq<char>)
    requires
        !special_of(set, '\\'),
        s.len() > 0,
    ensures
        escaped(set, s).len() > 0,
        !special_of(set, escaped(set, s)[0]),
{
    if special_of(set, s[0]) {
        assert(escaped(set, s)[0] == '\\');
    } else {
        assert(escaped(set, s)[0] == s[0]);
    }
}

/// Escaping loses nothing: the protocol's un-escaping of the escaped text is
/// the original text, whatever characters it held.
pub proof fn lemma_unescape_escape(set: EscapeSet, s: Seq<char>)
    ensures
        unescaped(set, escaped(set, s)) == s,
    decreases s.len(),
{
    if s.len() == 0 {
    } else {
        let c = s[0];
        let rest = s.drop_first();
        let e = escaped(set, s);
        lemma_unescape_escape(set, rest);
        if special_of(set, c) {
            assert(e =~= seq!['\\', c] + escaped(set, rest));
            assert(e[0] == '\\' && e.len() >= 2 && e[1] == c);
            assert(e.subrange(2, e.len() as int) =~= escaped(set, rest));
            assert(unescaped(set, e) == seq![c] + unescaped(set, escaped(set, rest)));
            assert(seq![c] + rest =~= s);
        } else {
            assert(e =~= seq![c] + escaped(set, rest));
            assert(e[0] == c);
            if c == '\\' && e.len() >= 2 && special_of(set, e[1]) {
                assert(escaped(set, rest).len() >= 1);
                if rest.len() == 0 {
                    assert(escaped(set, rest) =~= Seq::<char>::empty());
                }
                assert(e[1] == escaped(set, rest)[0]);
                lemma_escaped_first_not_special(set, rest);
                assert(false);
            }
            assert(e.drop_first() =~= escaped(set, rest));
            assert(unescaped(set, e) == seq![c] + unescaped(set, escaped(set, rest)));
            assert(seq![c] + rest =~= s);
        }
    }
}

/// Law: escaping a tag key, tag value or field key and then applying the
/// protocol's un-escaping reproduces the original text exactly.
pub proof fn lemma_escape_key_or_tag_value_round_trip(s: Seq<char>)
    ensures
        unescaped(EscapeSet::KeyOrTagValue, escaped(EscapeSet::KeyOrTagValue, s)) == s,
{
    lemma_unescape_escape(EscapeSet::KeyOrTagValue, s);
}

/// A text with no escapable character is its own escaped form.
pub proof fn lemma_escaped_identity(set: EscapeSet, s: Seq<char>)
    requires
        forall|i: int| 0 <= i < s.len() ==> !special_of(set, #[trigger] s[i]),
    ensures
        escaped(set, s) == s,
    decreases s.len(),
{
    if s.len() == 0 {
        assert(escaped(set, s) =~= s);
    } else {
        lemma_escaped_identity(set, s.drop_first());
        assert(escaped(set, s) =~= s);
    }
}

/// Relies on std's `String::push`: appends the one character to the end of
/// the string.
#[verifier::external_body]
pub(crate) fn push_char(s: &mut String, c: char)
    ensures
        final(s)@ == old(s)@.push(c),
{
    s.push(c);
}

/// Whether `c` must be escaped at the position described by `set`.
fn is_special(set: EscapeSet, c: char) -> (b: bool)
    ensures
        b == special_of(set, c),
{
    match set {
        EscapeSet::Measurement => c == ',' || c == ' ',
        EscapeSet::KeyOrTagValue => c == ',' || c == '=' || c == ' ',
        EscapeSet::StringValue => c == '"' || c == '\\',
    }
}

/// Builds the escaped form of `s` for the given set, one character at a time.
fn escape_with(set: EscapeSet, s: &str) -> (r: String)
    ensures
        r@ == escaped(set, s@),
{
    let n: usize = s.unicode_len();
    let mut r = String::new();
    let mut i: usize = 0;
    while i < n
        invariant
            n == s@.len(),
            i <= n,
            r@ == escaped(set, s@.take(i as int)),
        decreases n - i,
    {
        let c = s.get_char(i);
        proof {
            lemma_escaped_snoc(set, s@.take(i as int), s@[i as int]);
            assert(s@.take(i as int).push(s@[i as int]) =~= s@.take((i + 1) as int));
        }
        if is_special(set, c) {
            let ghost before = r@;
            push_char(&mut r, '\\');
            push_char(&mut r, c);
            proof {
                assert(before.push('\\').push(c) =~= before + seq!['\\', c]);
            }
        } else {
            let ghost before = r@;
            push_char(&mut r, c);
            proof {
                assert(before.push(c) =~= before + seq![c]);
            }
        }
        i = i + 1;
    }
    proof {
        assert(s@.take(n as int) =~= s@);
    }
    r
}

/// Escapes a measurement name: a backslash before each comma and each space.
pub fn escape_measurement(s: &str) -> (r: String)
    ensures
        r@ == escaped(EscapeSet::Measurement, s@),
{
    escape_with(EscapeSet::Measurement, s)
}

/// Escapes a tag key, tag value or field key: a backslash before each comma,
/// equals sign and space.
pub fn escape_tag_and_field_keys(s: &str) -> (r: String)
    ensures
        r@ == escaped(EscapeSet::KeyOrTagValue, s@),
{
    escape_with(EscapeSet::KeyOrTagValue, s)
}

/// Escapes a string-typed field value: a backslash before each double quote
/// and each backslash. The caller wraps the result in double quotes.
pub fn escape_field_value_string(s: &str) -> (r: String)
    ensures
        r@ == escaped(EscapeSet::StringValue, s@),
{
    escape_with(EscapeSet::StringValue, s)
}

} // verus!
