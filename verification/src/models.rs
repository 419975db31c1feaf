//! The point data model and its serialization to the line protocol.
//!
//! A [`Point`] gathers a measurement name, ordered tag pairs, ordered field
//! pairs and an optional [`Timestamp`]; serializing it produces one line
//! `<measurement>[,<tags>] <fields> [<timestamp>]`, with each segment escaped
//! by the rules of [`crate::escape`]. [`Precision`] names the time unit of a
//! write request and [`InfluxError`] is the vocabulary of transport failures.

use crate::decimal::dec_int;
use crate::decimal::i64_to_string;
use crate::escape::escape_field_value_string;
use crate::escape::escape_measurement;
use crate::escape::escape_tag_and_field_keys;
use crate::escape::escaped;
use crate::escape::lemma_escaped_identity;
use crate::escape::push_char;
use crate::escape::special_of;
use crate::escape::EscapeSet;
use crate::traits::PointSerialize;
use vstd::prelude::*;

verus! {

/// A scalar field value. Exactly one variant is active, and a value never
/// changes once constructed.
///
/// Floating-point values are carried as their rendered decimal or scientific
/// text, produced by the caller at the boundary; serialization writes that
/// text unchanged.
#[derive(Clone)]
pub enum Value {
    Str(String),
    Int(i64),
    Float(String),
    Bool(bool),
}

/// The signed 64-bit value that an unsigned 64-bit value wraps to.
pub open spec fn u64_wrapped(v: u64) -> int {
    if v <= i64::MAX {
        v as int
    } else {
        v as int - 0x1_0000_0000_0000_0000
    }
}

/// The formatted text of a field value: quoted and escaped for strings, plain
/// decimal digits for integers, the carried text for floats, `true` or
/// `false` for booleans.
pub open spec fn value_text(v: Value) -> Seq<char> {
    match v {
        Value::Str(s) => "\""@ + escaped(EscapeSet::StringValue, s@) + "\""@,
        Value::Int(i) => dec_int(i as int),
        Value::Float(t) => t@,
        Value::Bool(b) => if b {
            "true"@
        } else {
            "false"@
        },
    }
}

impl Value {
    /// Converts an unsigned 64-bit value, wrapping on overflow into the
    /// signed range.
    pub fn from_u64(v: u64) -> (r: Value)
        ensures
            (r matches Value::Int(x) && x as int == u64_wrapped(v)),
    {
        if v <= 9223372036854775807u64 {
            Value::Int(v as i64)
        } else {
            let d: u64 = u64::MAX - v;
            Value::Int(-(d as i64) - 1)
        }
    }

    /// Formats this value for the field section of a line.
    pub fn format(&self) -> (r: String)
        ensures
            r@ == value_text(*self),
    {
        match self {
            Value::Str(s) => {
                let mut r = String::from_str("\"");
                let e = escape_field_value_string(s.as_str());
                r.append(e.as_str());
                r.append("\"");
                r
            },
            Value::Int(i) => i64_to_string(*i),
            Value::Float(t) => t.clone(),
            Value::Bool(b) => {
                if *b {
                    String::from_str("true")
                } else {
                    String::from_str("false")
                }
            },
        }
    }
}

/// A point's timestamp: either an opaque pre-formatted string, passed through
/// unchanged, or a raw integer epoch value, written as decimal digits.
#[derive(Clone)]
pub enum Timestamp {
    Str(String),
    Int(i64),
}

/// The stringified form of a timestamp: the string variant's content
/// unchanged, the integer variant's decimal digits.
pub open spec fn timestamp_text(t: Timestamp) -> Seq<char> {
    match t {
        Timestamp::Str(s) => s@,
        Timestamp::Int(i) => dec_int(i as int),
    }
}

/// The UTC calendar rendering (`%Y-%m-%d %H:%M:%S`) of an epoch-second value,
/// as chrono produces it.
pub uninterp spec fn utc_datetime_text(secs: int) -> Seq<char>;

/// Relies on `chrono::DateTime::<Utc>::from_timestamp` and chrono's `format`
/// with the fixed pattern `%Y-%m-%d %H:%M:%S`: the rendered text is a
/// function of the epoch seconds alone, and the call returns `None` only on
/// an out-of-range number of seconds.
#[verifier::external_body]
fn epoch_to_utc_text(secs: i64) -> (r: Option<String>)
    ensures
        (r matches Some(t) ==> t@ == utc_datetime_text(secs as int)),
{
    match chrono::DateTime::<chrono::Utc>::from_timestamp(secs, 0) {
        Some(dt) => Some(dt.format("%Y-%m-%d %H:%M:%S").to_string()),
        None => None,
    }
}

impl Timestamp {
    /// The stringified form of this timestamp.
    pub fn to_string(&self) -> (r: String)
        ensures
            r@ == timestamp_text(*self),
    {
        match self {
            Timestamp::Str(s) => s.clone(),
            Timestamp::Int(i) => i64_to_string(*i),
        }
    }

    /// Diagnostic rendering: the string variant shows its text, the integer
    /// variant the UTC calendar form of its epoch seconds. `None` only when
    /// the epoch value lies outside the calendar's range.
    pub fn debug_text(&self) -> (r: Option<String>)
        ensures
            (*self matches Timestamp::Str(s) ==> (r matches Some(t) && t@ == "StrTimestamp("@
                + s@ + ")"@)),
            (*self matches Timestamp::Int(i) ==> (r matches Some(t) ==> t@ == "IntTimestamp("@
                + utc_datetime_text(i as int) + ")"@)),
    {
        match self {
            Timestamp::Str(s) => {
                let mut t = String::from_str("StrTimestamp(");
                t.append(s.as_str());
                t.append(")");
                Some(t)
            },
            Timestamp::Int(i) => {
                match epoch_to_utc_text(*i) {
                    Some(d) => {
                        let mut t = String::from_str("IntTimestamp(");
                        t.append(d.as_str());
                        t.append(")");
                        Some(t)
                    },
                    None => None,
                }
            },
        }
    }
}

impl Default for Timestamp {
    /// The default timestamp is epoch zero, not "no timestamp".
    fn default() -> (r: Self)
        ensures
            r == Timestamp::Int(0),
    {
        Timestamp::Int(0)
    }
}

/// An ordered builder for one line: a measurement name, tag pairs and field
/// pairs in insertion order with duplicates permitted, and an optional
/// timestamp. A protocol-valid line needs at least one field; this is not
/// enforced here, and a point without fields serializes to a degenerate line
/// that the server rejects.
#[derive(Clone)]
pub struct Point {
    pub measurement: String,
    pub timestamp: Option<Timestamp>,
    pub tags: Vec<(String, String)>,
    pub fields: Vec<(String, Value)>,
}

/// One tag pair as serialized: escaped key, equals sign, escaped value.
pub open spec fn tag_text(t: (String, String)) -> Seq<char> {
    escaped(EscapeSet::KeyOrTagValue, t.0@) + seq!['='] + escaped(EscapeSet::KeyOrTagValue, t.1@)
}

/// One field pair as serialized: escaped key, equals sign, formatted value.
pub open spec fn field_text(f: (String, Value)) -> Seq<char> {
    escaped(EscapeSet::KeyOrTagValue, f.0@) + seq!['='] + value_text(f.1)
}

/// The tag pairs joined by commas, with no trailing comma.
pub open spec fn tags_joined(ts: Seq<(String, String)>) -> Seq<char>
    decreases ts.len(),
{
    if ts.len() == 0 {
        Seq::empty()
    } else if ts.len() == 1 {
        tag_text(ts[0])
    } else {
        tag_text(ts[0]) + seq![','] + tags_joined(ts.drop_first())
    }
}

/// The field pairs joined by commas, with no trailing comma.
pub open spec fn fields_joined(fs: Seq<(String, Value)>) -> Seq<char>
    decreases fs.len(),
{
    if fs.len() == 0 {
        Seq::empty()
    } else if fs.len() == 1 {
        field_text(fs[0])
    } else {
        field_text(fs[0]) + seq![','] + fields_joined(fs.drop_first())
    }
}

proof fn lemma_tags_joined_snoc(ts: Seq<(String, String)>, t: (String, String))
    ensures
        tags_joined(ts.push(t)) == (if ts.len() == 0 {
            tag_text(t)
        } else {
            tags_joined(ts) + seq![','] + tag_text(t)
        }),
    decreases ts.len(),
{
    if ts.len() == 0 {
        assert(ts.push(t) =~= seq![t]);
        assert(tags_joined(seq![t]) == tag_text(t));
    } else {
        assert(ts.push(t).drop_first() =~= ts.drop_first().push(t));
        assert(ts.push(t)[0] == ts[0]);
        lemma_tags_joined_snoc(ts.drop_first(), t);
        assert(tags_joined(ts.push(t)) =~= tags_joined(ts) + seq![','] + tag_text(t));
    }
}

proof fn lemma_fields_joined_snoc(fs: Seq<(String, Value)>, f: (String, Value))
    ensures
        fields_joined(fs.push(f)) == (if fs.len() == 0 {
            field_text(f)
        } else {
            fields_joined(fs) + seq![','] + field_text(f)
        }),
    decreases fs.len(),
{
    if fs.len() == 0 {
        assert(fs.push(f) =~= seq![f]);
        assert(fields_joined(seq![f]) == field_text(f));
    } else {
        assert(fs.push(f).drop_first() =~= fs.drop_first().push(f));
        assert(fs.push(f)[0] == fs[0]);
        lemma_fields_joined_snoc(fs.drop_first(), f);
        assert(fields_joined(fs.push(f)) =~= fields_joined(fs) + seq![','] + field_text(f));
    }
}

/// The whole serialized line: escaped measurement, then the tag section with
/// a leading comma only when tags exist, then the field section with a
/// leading space only when fields exist.
pub open spec fn line_text(p: Point) -> Seq<char> {
    escaped(EscapeSet::Measurement, p.measurement@) + (if p.tags@.len() == 0 {
        Seq::<char>::empty()
    } else {
        seq![','] + tags_joined(p.tags@)
    }) + (if p.fields@.len() == 0 {
        Seq::<char>::empty()
    } else {
        seq![' '] + fields_joined(p.fields@)
    })
}

impl Point {
    /// A point with the given measurement name, no tags, no fields and no
    /// timestamp. The name is expected non-empty but not validated here.
    pub fn new(measurement: String) -> (r: Self)
        ensures
            r.measurement == measurement,
            r.timestamp is None,
            r.tags@ == Seq::<(String, String)>::empty(),
            r.fields@ == Seq::<(String, Value)>::empty(),
    {
        Point { measurement, timestamp: None, tags: Vec::new(), fields: Vec::new() }
    }

    /// Appends one tag pair; no deduplication, no validation.
    pub fn tag(self, key: String, value: String) -> (r: Self)
        ensures
            r.measurement == self.measurement,
            r.timestamp == self.timestamp,
            r.fields@ == self.fields@,
            r.tags@ == self.tags@.push((key, value)),
    {
        let mut p = self;
        p.tags.push((key, value));
        p
    }

    /// Appends one field pair; no deduplication, no validation.
    pub fn field(self, key: String, value: Value) -> (r: Self)
        ensures
            r.measurement == self.measurement,
            r.timestamp == self.timestamp,
            r.tags@ == self.tags@,
            r.fields@ == self.fields@.push((key, value)),
    {
        let mut p = self;
        p.fields.push((key, value));
        p
    }

    /// Sets the timestamp, overwriting any previously set one.
    pub fn timestamp(self, timestamp: Timestamp) -> (r: Self)
        ensures
            r.measurement == self.measurement,
            r.timestamp == Some(timestamp),
            r.tags@ == self.tags@,
            r.fields@ == self.fields@,
    {
        let mut p = self;
        p.timestamp = Some(timestamp);
        p
    }
}

impl PointSerialize for Point {
    open spec fn line_spec(&self) -> Seq<char> {
        line_text(*self)
    }

    open spec fn fallback_timestamp(&self) -> Timestamp {
        match self.timestamp {
            Some(t) => t,
            None => Timestamp::Int(0),
        }
    }

    fn serialize(&self) -> (r: String) {
        let ghost m_esc = escaped(EscapeSet::Measurement, self.measurement@);
        let mut builder = escape_measurement(self.measurement.as_str());
        if self.tags.len() > 0 {
            push_char(&mut builder, ',');
            proof {
                assert(builder@ =~= m_esc + seq![','] + tags_joined(self.tags@.take(0)));
            }
            let mut i: usize = 0;
            while i < self.tags.len()
                invariant
                    i <= self.tags@.len(),
                    builder@ == m_esc + seq![','] + tags_joined(self.tags@.take(i as int)),
                decreases self.tags@.len() - i,
            {
                if i > 0 {
                    push_char(&mut builder, ',');
                }
                let pair = &self.tags[i];
                let k = escape_tag_and_field_keys(pair.0.as_str());
                builder.append(k.as_str());
                push_char(&mut builder, '=');
                let v = escape_tag_and_field_keys(pair.1.as_str());
                builder.append(v.as_str());
                proof {
                    lemma_tags_joined_snoc(self.tags@.take(i as int), self.tags@[i as int]);
                    assert(self.tags@.take((i + 1) as int) =~= self.tags@.take(i as int).push(
                        self.tags@[i as int],
                    ));
                    assert(builder@ =~= m_esc + seq![','] + tags_joined(
                        self.tags@.take((i + 1) as int),
                    ));
                }
                i = i + 1;
            }
            proof {
                assert(self.tags@.take(self.tags@.len() as int) =~= self.tags@);
            }
        }
        if self.fields.len() > 0 {
            let ghost tagged = builder@;
            push_char(&mut builder, ' ');
            proof {
                assert(builder@ =~= tagged + seq![' '] + fields_joined(self.fields@.take(0)));
            }
            let mut i: usize = 0;
            while i < self.fields.len()
                invariant
                    i <= self.fields@.len(),
                    builder@ == tagged + seq![' '] + fields_joined(self.fields@.take(i as int)),
                decreases self.fields@.len() - i,
            {
                if i > 0 {
                    push_char(&mut builder, ',');
                }
                let pair = &self.fields[i];
                let k = escape_tag_and_field_keys(pair.0.as_str());
                builder.append(k.as_str());
                push_char(&mut builder, '=');
                let v = pair.1.format();
                builder.append(v.as_str());
                proof {
                    lemma_fields_joined_snoc(self.fields@.take(i as int), self.fields@[i as int]);
                    assert(self.fields@.take((i + 1) as int) =~= self.fields@.take(i as int).push(
                        self.fields@[i as int],
                    ));
                    assert(builder@ =~= tagged + seq![' '] + fields_joined(
                        self.fields@.take((i + 1) as int),
                    ));
                }
                i = i + 1;
            }
            proof {
                assert(self.fields@.take(self.fields@.len() as int) =~= self.fields@);
            }
        }
        proof {
            assert(builder@ =~= line_text(*self));
        }
        builder
    }

    fn serialize_with_timestamp(&self, timestamp: Option<Timestamp>) -> (r: String) {
        let mut r = self.serialize();
        push_char(&mut r, ' ');
        let ghost with_space = r@;
        let ts_text = match timestamp {
            Some(t) => t.to_string(),
            None => match &self.timestamp {
                Some(t) => t.to_string(),
                None => Timestamp::Int(0).to_string(),
            },
        };
        r.append(ts_text.as_str());
        proof {
            assert(with_space =~= self.line_spec() + seq![' ']);
        }
        r
    }
}

/// Law: serialization never mutates the point and its result is a function of
/// the point alone, so two results that `serialize` may return for the same
/// unmutated point are always equal.
pub proof fn lemma_serialize_deterministic(p: Point, r1: Seq<char>, r2: Seq<char>)
    requires
        r1 == line_text(p),
        r2 == line_text(p),
    ensures
        r1 == r2,
{
}

/// Law: with no tags there is no tag separator, so a point whose measurement
/// holds no comma and no space (escaping would otherwise put an escaped comma
/// into the measurement segment) serializes to a line with no comma before
/// the first space.
pub proof fn lemma_no_tags_no_comma_before_first_space(p: Point)
    requires
        p.tags@.len() == 0,
        forall|i: int|
            0 <= i < p.measurement@.len() ==> !special_of(
                EscapeSet::Measurement,
                #[trigger] p.measurement@[i],
            ),
    ensures
        forall|i: int|
            0 <= i < line_text(p).len() && #[trigger] line_text(p)[i] == ',' ==> exists|j: int|
                0 <= j < i && line_text(p)[j] == ' ',
{
    lemma_escaped_identity(EscapeSet::Measurement, p.measurement@);
    let m = p.measurement@;
    if p.fields@.len() == 0 {
        assert(line_text(p) =~= m);
        assert forall|i: int|
            0 <= i < line_text(p).len() && #[trigger] line_text(p)[i] == ',' implies exists|j: int|
            0 <= j < i && line_text(p)[j] == ' ' by {
            assert(line_text(p)[i] == m[i]);
            assert(special_of(EscapeSet::Measurement, m[i]));
        }
    } else {
        assert(line_text(p) =~= m + seq![' '] + fields_joined(p.fields@));
        assert forall|i: int|
            0 <= i < line_text(p).len() && #[trigger] line_text(p)[i] == ',' implies exists|j: int|
            0 <= j < i && line_text(p)[j] == ' ' by {
            if i < m.len() {
                assert(line_text(p)[i] == m[i]);
                assert(special_of(EscapeSet::Measurement, m[i]));
            } else if i == m.len() {
                assert(line_text(p)[i] == ' ');
            } else {
                assert(line_text(p)[m.len() as int] == ' ');
                assert(0 <= m.len() < i && line_text(p)[m.len() as int] == ' ');
            }
        }
    }
}

/// Never constructed here: the transport layer classifies each failure it
/// observes into one of these variants. `Network` carries the underlying
/// transport failure's rendered text; the other variants carry a
/// human-readable message.
#[derive(Clone)]
pub enum InfluxError {
    Network(String),
    InvalidSyntax(String),
    InvalidCredentials(String),
    Forbidden(String),
    Unknown(String),
}

/// The diagnostic line of an error: one fixed prefix per variant, followed by
/// the carried message or cause.
pub open spec fn error_message_text(e: InfluxError) -> Seq<char> {
    match e {
        InfluxError::Network(s) => "Network error: "@ + s@,
        InfluxError::InvalidSyntax(s) => "Invalid syntax: "@ + s@,
        InfluxError::InvalidCredentials(s) => "Invalid credentials: "@ + s@,
        InfluxError::Forbidden(s) => "Forbidden: "@ + s@,
        InfluxError::Unknown(s) => "Unknown error: "@ + s@,
    }
}

impl InfluxError {
    /// Renders the diagnostic line for this error.
    pub fn message(&self) -> (r: String)
        ensures
            r@ == error_message_text(*self),
    {
        match self {
            InfluxError::Network(s) => {
                let mut r = String::from_str("Network error: ");
                r.append(s.as_str());
                r
            },
            InfluxError::InvalidSyntax(s) => {
                let mut r = String::from_str("Invalid syntax: ");
                r.append(s.as_str());
                r
            },
            InfluxError::InvalidCredentials(s) => {
                let mut r = String::from_str("Invalid credentials: ");
                r.append(s.as_str());
                r
            },
            InfluxError::Forbidden(s) => {
                let mut r = String::from_str("Forbidden: ");
                r.append(s.as_str());
                r
            },
            InfluxError::Unknown(s) => {
                let mut r = String::from_str("Unknown error: ");
                r.append(s.as_str());
                r
            },
        }
    }
}

/// How a write request chooses the timestamp it sends: none at all, a given
/// one, or the one each point carries.
#[derive(Clone)]
pub enum TimestampOptions {
    Omit,
    Use(Timestamp),
    FromPoint,
}

/// The time unit in which a timestamp integer is expressed at the wire
/// boundary.
#[derive(Debug, Clone, Copy)]
pub enum Precision {
    NS,
    US,
    MS,
    S,
}

/// The wire code of a precision.
pub open spec fn precision_code(p: Precision) -> Seq<char> {
    match p {
        Precision::NS => "ns"@,
        Precision::US => "us"@,
        Precision::MS => "ms"@,
        Precision::S => "s"@,
    }
}

impl Precision {
    /// The code the transport layer sends as the write request's precision
    /// query parameter.
    pub fn to_string(&self) -> (r: &str)
        ensures
            r@ == precision_code(*self),
    {
        match self {
            Precision::NS => "ns",
            Precision::US => "us",
            Precision::MS => "ms",
            Precision::S => "s",
        }
    }
}

} // verus!
