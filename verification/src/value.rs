//! The value model: one database cell's content as a closed tagged union.
use vstd::prelude::*;

verus! {

/// A calendar/clock duration held as its three raw components. The three
/// fields are deliberately independent: a duration of one month is not a
/// fixed number of days, so no component is ever normalized into another.
pub struct Duration {
    pub months: i32,
    pub days: i32,
    pub nanoseconds: i64,
}

/// One database cell's content. The variant set is closed and every
/// variant has a defined textual form, so rendering never fails.
///
/// Scalars whose canonical text is owned by the database driver (dates,
/// times, identifiers, addresses, arbitrary-precision and floating-point
/// numbers) are carried here as that canonical text, produced once at the
/// boundary; the rendering rules below never inspect or alter it.
/// Collections and records nest recursively and contain optional values
/// where the protocol allows a null in that position.
pub enum Value {
    /// ASCII text, rendered verbatim.
    Ascii(String),
    /// Unicode text, rendered verbatim.
    Text(String),
    /// A boolean, rendered as `true` or `false`.
    Boolean(bool),
    /// A binary blob; its content is opaque and never shown.
    Blob(Vec<u8>),
    /// A monotonic counter.
    Counter(i64),
    /// An arbitrary-precision decimal, as its canonical decimal text.
    Decimal(String),
    /// A calendar date, as its canonical text.
    Date(String),
    /// A double-precision number, as its canonical decimal text.
    Double(String),
    /// The zero-width marker value, rendered as the empty string.
    Empty,
    /// A single-precision number, as its canonical decimal text.
    Float(String),
    /// A 32-bit signed integer.
    Int(i32),
    /// A 64-bit signed integer.
    BigInt(i64),
    /// A timestamp, as its canonical text.
    Timestamp(String),
    /// An IPv4 or IPv6 address, as its canonical textual form.
    Inet(String),
    /// An ordered collection.
    List(Vec<Value>),
    /// An associative collection of key/value pairs in insertion order.
    Mapping(Vec<(Value, Value)>),
    /// A set; ordering is whatever the upstream result provided.
    OrderedSet(Vec<Value>),
    /// A user-defined structure: (field name, optional value) pairs in
    /// declared field order.
    UserDefinedType(Vec<(String, Option<Value>)>),
    /// A 16-bit signed integer.
    SmallInt(i16),
    /// An 8-bit signed integer.
    TinyInt(i8),
    /// A time of day, as its canonical text.
    Time(String),
    /// A time-ordered unique identifier, as its hyphenated hex text.
    Timeuuid(String),
    /// A tuple: an ordered sequence of optional values of fixed arity.
    Tuple(Vec<Option<Value>>),
    /// A random unique identifier, as its hyphenated hex text.
    Uuid(String),
    /// An arbitrary-precision integer, as its canonical decimal text.
    Varint(String),
    /// A calendar/clock duration.
    Duration(Duration),
}

} // verus!
