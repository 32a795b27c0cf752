//! The value renderer: one typed cell (or its absence) becomes display
//! text, recursively for nested collections and records.
//!
//! The quoting rule depends on rendering context, not on the value: at
//! top level a scalar is shown bare, while the same scalar inside a
//! container is wrapped in single quotes. Containers themselves are
//! never quoted — their braces are the visual boundary — and a tuple
//! counts as a scalar for this rule. An absent value is always the
//! literal `null`, at every nesting depth.
use crate::text::{int_text, push_i64};
use crate::value::{Duration, Value};
use vstd::arithmetic::div_mod::{lemma_div_nonincreasing, lemma_div_pos_is_pos};
use vstd::prelude::*;
use vstd::string::*;

verus! {

/// The text an absent value renders as.
pub open spec fn null_text() -> Seq<char> {
    seq!['n', 'u', 'l', 'l']
}

/// The separator between two container entries.
pub open spec fn comma_sep() -> Seq<char> {
    seq![',', ' ']
}

/// The separator between a key (or field name) and its value.
pub open spec fn colon_sep() -> Seq<char> {
    seq![':', ' ']
}

/// The placeholder a binary blob renders as; blob content is never shown.
pub open spec fn blob_text() -> Seq<char> {
    seq!['<', 'b', 'l', 'o', 'b', '>']
}

/// The quote wrapped around a scalar that appears inside a container.
pub open spec fn quote_text() -> Seq<char> {
    seq!['\'']
}

/// Truncating division (the quotient rounded toward zero), for a
/// positive divisor: how the executable `/` operator behaves on signed
/// integers.
pub open spec fn tdiv(a: int, b: int) -> int {
    if a >= 0 {
        a / b
    } else {
        -((-a) / b)
    }
}

/// Truncating remainder (same sign as the dividend), for a positive
/// divisor: how the executable `%` operator behaves on signed integers.
pub open spec fn tmod(a: int, b: int) -> int {
    if a >= 0 {
        a % b
    } else {
        -((-a) % b)
    }
}

/// One duration fragment: the decimal value followed by its unit symbol,
/// or nothing when the value is zero. Every non-zero value is emitted,
/// negative ones with their sign.
pub open spec fn frag(v: int, unit: Seq<char>) -> Seq<char> {
    if v != 0 {
        int_text(v) + unit
    } else {
        Seq::empty()
    }
}

/// The display text of a duration: one fragment per unit in descending
/// order, zero-valued units omitted, no separators.
///
/// The hour fragment divides the raw hour count by 12 once more, and the
/// final fragment divides the nanosecond remainder by 12 instead of
/// taking it plainly. Both extra divisions are deliberate: the displayed
/// form is defined by this exact arithmetic, and outputs produced with
/// it are relied upon, so it must not be "corrected".
pub open spec fn duration_text(months: int, days: int, nanoseconds: int) -> Seq<char> {
    frag(tdiv(months, 12), seq!['y']) + frag(tmod(months, 12), seq!['m', 'o']) + frag(
        tdiv(days, 7),
        seq!['w'],
    ) + frag(tmod(days, 7), seq!['d']) + frag(
        tdiv(tdiv(nanoseconds, 3_600_000_000_000), 12),
        seq!['h'],
    ) + frag(tdiv(tmod(nanoseconds, 3_600_000_000_000), 60_000_000_000), seq!['m']) + frag(
        tdiv(tmod(nanoseconds, 60_000_000_000), 1_000_000_000),
        seq!['s'],
    ) + frag(tdiv(tmod(nanoseconds, 1_000_000_000), 1_000_000), seq!['m', 's']) + frag(
        tdiv(tmod(nanoseconds, 1_000_000), 1_000),
        seq!['u', 's'],
    ) + frag(tdiv(tmod(nanoseconds, 1_000), 12), seq!['n', 's'])
}

/// Whether a value renders unquoted inside a container: true exactly for
/// collections, associative collections and user-defined structures.
/// A tuple does not count: nested, it is quoted like a scalar.
pub open spec fn is_container(v: Value) -> bool {
    match v {
        Value::List(_) => true,
        Value::OrderedSet(_) => true,
        Value::Mapping(_) => true,
        Value::UserDefinedType(_) => true,
        _ => false,
    }
}

/// The top-level display text of a value (no surrounding quotes).
pub open spec fn render(v: Value) -> Seq<char>
    decreases v, 1int,
{
    match v {
        Value::Ascii(s) => s@,
        Value::Text(s) => s@,
        Value::Boolean(b) => if b {
            seq!['t', 'r', 'u', 'e']
        } else {
            seq!['f', 'a', 'l', 's', 'e']
        },
        Value::Blob(_) => blob_text(),
        Value::Counter(n) => int_text(n as int),
        Value::Decimal(s) => s@,
        Value::Date(s) => s@,
        Value::Double(s) => s@,
        Value::Empty => Seq::empty(),
        Value::Float(s) => s@,
        Value::Int(n) => int_text(n as int),
        Value::BigInt(n) => int_text(n as int),
        Value::Timestamp(s) => s@,
        Value::Inet(s) => s@,
        Value::List(col) => seq!['{'] + render_elems(col@) + seq!['}'],
        Value::Mapping(col) => seq!['{'] + render_pairs(col@) + seq!['}'],
        Value::OrderedSet(col) => seq!['{'] + render_elems(col@) + seq!['}'],
        Value::UserDefinedType(fields) => seq!['{'] + render_fields(fields@) + seq!['}'],
        Value::SmallInt(n) => int_text(n as int),
        Value::TinyInt(n) => int_text(n as int),
        Value::Time(s) => s@,
        Value::Timeuuid(s) => s@,
        Value::Tuple(col) => seq!['{'] + render_opt_elems(col@) + seq!['}'],
        Value::Uuid(s) => s@,
        Value::Varint(s) => s@,
        Value::Duration(d) => duration_text(d.months as int, d.days as int, d.nanoseconds as int),
    }
}

/// The display text of a value inside a container: containers render as
/// at top level, anything else is wrapped in single quotes.
pub open spec fn render_nested(v: Value) -> Seq<char>
    decreases v, 2int,
{
    if is_container(v) {
        render(v)
    } else {
        quote_text() + render(v) + quote_text()
    }
}

/// The display text of an optional value inside a container.
pub open spec fn render_opt_nested(c: Option<Value>) -> Seq<char>
    decreases c, 3int,
{
    match c {
        Option::None => null_text(),
        Option::Some(v) => render_nested(v),
    }
}

/// The display text of one key/value entry of an associative collection.
pub open spec fn render_pair(p: (Value, Value)) -> Seq<char>
    decreases p, 4int,
{
    render_nested(p.0) + colon_sep() + render_nested(p.1)
}

/// The display text of one named field of a user-defined structure; the
/// field name is never quoted.
pub open spec fn render_field(f: (String, Option<Value>)) -> Seq<char>
    decreases f, 4int,
{
    f.0@ + colon_sep() + render_opt_nested(f.1)
}

/// The entries of a list or set, joined by `", "`: n elements are
/// interleaved with exactly n - 1 separators, never a trailing one.
pub open spec fn render_elems(elems: Seq<Value>) -> Seq<char>
    decreases elems, 0int,
{
    if elems.len() == 0 {
        Seq::empty()
    } else if elems.len() == 1 {
        render_nested(elems[0])
    } else {
        render_elems(elems.drop_last()) + comma_sep() + render_nested(elems.last())
    }
}

/// The entries of a tuple, joined by `", "` in the same way.
pub open spec fn render_opt_elems(elems: Seq<Option<Value>>) -> Seq<char>
    decreases elems, 0int,
{
    if elems.len() == 0 {
        Seq::empty()
    } else if elems.len() == 1 {
        render_opt_nested(elems[0])
    } else {
        render_opt_elems(elems.drop_last()) + comma_sep() + render_opt_nested(elems.last())
    }
}

/// The entries of an associative collection, joined by `", "` in the
/// same way, in insertion order.
pub open spec fn render_pairs(entries: Seq<(Value, Value)>) -> Seq<char>
    decreases entries, 0int,
{
    if entries.len() == 0 {
        Seq::empty()
    } else if entries.len() == 1 {
        render_pair(entries[0])
    } else {
        render_pairs(entries.drop_last()) + comma_sep() + render_pair(entries.last())
    }
}

/// The fields of a user-defined structure, joined by `", "` in the same
/// way, in declared field order.
pub open spec fn render_fields(fields: Seq<(String, Option<Value>)>) -> Seq<char>
    decreases fields, 0int,
{
    if fields.len() == 0 {
        Seq::empty()
    } else if fields.len() == 1 {
        render_field(fields[0])
    } else {
        render_fields(fields.drop_last()) + comma_sep() + render_field(fields.last())
    }
}

/// The top-level display text of an optional cell: `null` when absent,
/// the bare rendering otherwise.
pub open spec fn render_opt(c: Option<Value>) -> Seq<char>
    decreases c, 3int,
{
    match c {
        Option::None => null_text(),
        Option::Some(v) => render(v),
    }
}

/// Truncating division of `a` by the positive divisor `b`.
fn tdiv64(a: i64, b: i64) -> (q: i64)
    requires
        0 < b,
    ensures
        q as int == tdiv(a as int, b as int),
{
    proof {
        if a >= 0 {
            lemma_div_pos_is_pos(a as int, b as int);
            lemma_div_nonincreasing(a as int, b as int);
        } else {
            lemma_div_pos_is_pos(-(a as int), b as int);
            lemma_div_nonincreasing(-(a as int), b as int);
        }
    }
    let r: Option<i64> = a.checked_div(b);
    r.unwrap()
}

/// Truncating remainder of `a` by the positive divisor `b`.
fn tmod64(a: i64, b: i64) -> (r: i64)
    requires
        0 < b,
    ensures
        r as int == tmod(a as int, b as int),
{
    let r: Option<i64> = a.checked_rem(b);
    r.unwrap()
}

/// Appends one duration fragment: nothing when the value is zero.
fn push_frag(v: i64, unit: &str, into: &mut String)
    ensures
        final(into)@ == old(into)@ + frag(v as int, unit@),
{
    if v != 0 {
        push_i64(v, into);
        into.append(unit);
    }
}

/// The display text of a duration: fragments from years down to
/// nanoseconds, with zero-valued units omitted.
pub fn fmt_duration(col: &Duration) -> (out: String)
    ensures
        out@ == duration_text(col.months as int, col.days as int, col.nanoseconds as int),
{
    let mut into = String::new();
    let months: i64 = col.months as i64;
    let days: i64 = col.days as i64;
    let ns: i64 = col.nanoseconds;
    push_frag(tdiv64(months, 12), "y", &mut into);
    push_frag(tmod64(months, 12), "mo", &mut into);
    push_frag(tdiv64(days, 7), "w", &mut into);
    push_frag(tmod64(days, 7), "d", &mut into);
    push_frag(tdiv64(tdiv64(ns, 3_600_000_000_000), 12), "h", &mut into);
    push_frag(tdiv64(tmod64(ns, 3_600_000_000_000), 60_000_000_000), "m", &mut into);
    push_frag(tdiv64(tmod64(ns, 60_000_000_000), 1_000_000_000), "s", &mut into);
    push_frag(tdiv64(tmod64(ns, 1_000_000_000), 1_000_000), "ms", &mut into);
    push_frag(tdiv64(tmod64(ns, 1_000_000), 1_000), "us", &mut into);
    push_frag(tdiv64(tmod64(ns, 1_000), 12), "ns", &mut into);
    proof {
        reveal_strlit("y");
        reveal_strlit("mo");
        reveal_strlit("w");
        reveal_strlit("d");
        reveal_strlit("h");
        reveal_strlit("m");
        reveal_strlit("s");
        reveal_strlit("ms");
        reveal_strlit("us");
        reveal_strlit("ns");
        assert("y"@ =~= seq!['y']);
        assert("mo"@ =~= seq!['m', 'o']);
        assert("w"@ =~= seq!['w']);
        assert("d"@ =~= seq!['d']);
        assert("h"@ =~= seq!['h']);
        assert("m"@ =~= seq!['m']);
        assert("s"@ =~= seq!['s']);
        assert("ms"@ =~= seq!['m', 's']);
        assert("us"@ =~= seq!['u', 's']);
        assert("ns"@ =~= seq!['n', 's']);
        assert(into@ =~= duration_text(
            col.months as int,
            col.days as int,
            col.nanoseconds as int,
        ));
    }
    into
}

/// Taking one more element into the prefix extends the joined entry text
/// by one separator (after the first element) and that element's text.
proof fn lemma_elems_extend(elems: Seq<Value>, i: int)
    requires
        0 <= i < elems.len(),
    ensures
        render_elems(elems.take(i + 1)) == if i == 0 {
            render_nested(elems[0])
        } else {
            render_elems(elems.take(i)) + comma_sep() + render_nested(elems[i])
        },
{
    let t = elems.take(i + 1);
    assert(t.drop_last() =~= elems.take(i));
    assert(t.last() == elems[i]);
}

/// The prefix-extension step for tuple entries.
proof fn lemma_opt_elems_extend(elems: Seq<Option<Value>>, i: int)
    requires
        0 <= i < elems.len(),
    ensures
        render_opt_elems(elems.take(i + 1)) == if i == 0 {
            render_opt_nested(elems[0])
        } else {
            render_opt_elems(elems.take(i)) + comma_sep() + render_opt_nested(elems[i])
        },
{
    let t = elems.take(i + 1);
    assert(t.drop_last() =~= elems.take(i));
    assert(t.last() == elems[i]);
}

/// The prefix-extension step for associative-collection entries.
proof fn lemma_pairs_extend(entries: Seq<(Value, Value)>, i: int)
    requires
        0 <= i < entries.len(),
    ensures
        render_pairs(entries.take(i + 1)) == if i == 0 {
            render_pair(entries[0])
        } else {
            render_pairs(entries.take(i)) + comma_sep() + render_pair(entries[i])
        },
{
    let t = entries.take(i + 1);
    assert(t.drop_last() =~= entries.take(i));
    assert(t.last() == entries[i]);
}

/// The prefix-extension step for structure fields.
proof fn lemma_fields_extend(fields: Seq<(String, Option<Value>)>, i: int)
    requires
        0 <= i < fields.len(),
    ensures
        render_fields(fields.take(i + 1)) == if i == 0 {
            render_field(fields[0])
        } else {
            render_fields(fields.take(i)) + comma_sep() + render_field(fields[i])
        },
{
    let t = fields.take(i + 1);
    assert(t.drop_last() =~= fields.take(i));
    assert(t.last() == fields[i]);
}

/// Appends a list's or set's entries, brace-delimited and joined by
/// `", "`: the separator is placed after every entry but the last one.
fn fmt_vec(col: &Vec<Value>, into: &mut String)
    ensures
        final(into)@ == old(into)@ + seq!['{'] + render_elems(col@) + seq!['}'],
    decreases *col, 0int,
{
    into.append("{");
    proof {
        reveal_strlit("{");
        assert(col@.take(0) =~= Seq::<Value>::empty());
        assert(into@ =~= old(into)@ + seq!['{'] + render_elems(col@.take(0)));
    }
    let n: usize = col.len();
    for i in 0..n
        invariant
            n == col@.len(),
            into@ == old(into)@ + seq!['{'] + render_elems(col@.take(i as int)) + (if 0 < i
                && i < n {
                comma_sep()
            } else {
                Seq::<char>::empty()
            }),
    {
        fmt_entry(&col[i], into);
        if i < n - 1 {
            into.append(", ");
        }
        proof {
            reveal_strlit(", ");
            lemma_elems_extend(col@, i as int);
            assert(into@ =~= old(into)@ + seq!['{'] + render_elems(col@.take(i + 1)) + (if i + 1
                < n {
                comma_sep()
            } else {
                Seq::<char>::empty()
            }));
        }
    }
    into.append("}");
    proof {
        reveal_strlit("}");
        assert(col@.take(n as int) =~= col@);
        assert(final(into)@ =~= old(into)@ + seq!['{'] + render_elems(col@) + seq!['}']);
    }
}

/// Appends an associative collection's entries in insertion order, each
/// as `key: value`, brace-delimited and joined by `", "`.
#[verifier::rlimit(60)]
fn fmt_map(col: &Vec<(Value, Value)>, into: &mut String)
    ensures
        final(into)@ == old(into)@ + seq!['{'] + render_pairs(col@) + seq!['}'],
    decreases *col, 0int,
{
    into.append("{");
    proof {
        reveal_strlit("{");
        assert(col@.take(0) =~= Seq::<(Value, Value)>::empty());
        assert(into@ =~= old(into)@ + seq!['{'] + render_pairs(col@.take(0)));
    }
    let n: usize = col.len();
    for i in 0..n
        invariant
            n == col@.len(),
            into@ == old(into)@ + seq!['{'] + render_pairs(col@.take(i as int)) + (if 0 < i
                && i < n {
                comma_sep()
            } else {
                Seq::<char>::empty()
            }),
    {
        fmt_entry(&col[i].0, into);
        into.append(": ");
        fmt_entry(&col[i].1, into);
        if i < n - 1 {
            into.append(", ");
        }
        proof {
            reveal_strlit(", ");
            reveal_strlit(": ");
            lemma_pairs_extend(col@, i as int);
            assert(into@ =~= old(into)@ + seq!['{'] + render_pairs(col@.take(i + 1)) + (if i + 1
                < n {
                comma_sep()
            } else {
                Seq::<char>::empty()
            }));
        }
    }
    into.append("}");
    proof {
        reveal_strlit("}");
        assert(col@.take(n as int) =~= col@);
        assert(final(into)@ =~= old(into)@ + seq!['{'] + render_pairs(col@) + seq!['}']);
    }
}

/// Appends a user-defined structure's fields in declared order, each as
/// `name: value` with the name unquoted, brace-delimited and joined by
/// `", "`.
fn fmt_udt(col: &Vec<(String, Option<Value>)>, into: &mut String)
    ensures
        final(into)@ == old(into)@ + seq!['{'] + render_fields(col@) + seq!['}'],
    decreases *col, 0int,
{
    into.append("{");
    proof {
        reveal_strlit("{");
        assert(col@.take(0) =~= Seq::<(String, Option<Value>)>::empty());
        assert(into@ =~= old(into)@ + seq!['{'] + render_fields(col@.take(0)));
    }
    let n: usize = col.len();
    for i in 0..n
        invariant
            n == col@.len(),
            into@ == old(into)@ + seq!['{'] + render_fields(col@.take(i as int)) + (if 0 < i
                && i < n {
                comma_sep()
            } else {
                Seq::<char>::empty()
            }),
    {
        into.append(col[i].0.as_str());
        into.append(": ");
        fmt_opt_entry(&col[i].1, into);
        if i < n - 1 {
            into.append(", ");
        }
        proof {
            reveal_strlit(", ");
            reveal_strlit(": ");
            lemma_fields_extend(col@, i as int);
            assert(into@ =~= old(into)@ + seq!['{'] + render_fields(col@.take(i + 1)) + (if i + 1
                < n {
                comma_sep()
            } else {
                Seq::<char>::empty()
            }));
        }
    }
    into.append("}");
    proof {
        reveal_strlit("}");
        assert(col@.take(n as int) =~= col@);
        assert(final(into)@ =~= old(into)@ + seq!['{'] + render_fields(col@) + seq!['}']);
    }
}

/// Appends a tuple's entries, brace-delimited and joined by `", "`; the
/// arity is preserved exactly, null positions included.
fn fmt_tpl(col: &Vec<Option<Value>>, into: &mut String)
    ensures
        final(into)@ == old(into)@ + seq!['{'] + render_opt_elems(col@) + seq!['}'],
    decreases *col, 0int,
{
    into.append("{");
    proof {
        reveal_strlit("{");
        assert(col@.take(0) =~= Seq::<Option<Value>>::empty());
        assert(into@ =~= old(into)@ + seq!['{'] + render_opt_elems(col@.take(0)));
    }
    let n: usize = col.len();
    for i in 0..n
        invariant
            n == col@.len(),
            into@ == old(into)@ + seq!['{'] + render_opt_elems(col@.take(i as int)) + (if 0 < i
                && i < n {
                comma_sep()
            } else {
                Seq::<char>::empty()
            }),
    {
        fmt_opt_entry(&col[i], into);
        if i < n - 1 {
            into.append(", ");
        }
        proof {
            reveal_strlit(", ");
            lemma_opt_elems_extend(col@, i as int);
            assert(into@ =~= old(into)@ + seq!['{'] + render_opt_elems(col@.take(i + 1)) + (
            if i + 1 < n {
                comma_sep()
            } else {
                Seq::<char>::empty()
            }));
        }
    }
    into.append("}");
    proof {
        reveal_strlit("}");
        assert(col@.take(n as int) =~= col@);
        assert(final(into)@ =~= old(into)@ + seq!['{'] + render_opt_elems(col@) + seq!['}']);
    }
}

/// Appends an optional value in nested position: `null` when absent.
fn fmt_opt_entry(entry: &Option<Value>, into: &mut String)
    ensures
        final(into)@ == old(into)@ + render_opt_nested(*entry),
    decreases *entry, 3int,
{
    match entry {
        Option::None => {
            into.append("null");
            proof {
                reveal_strlit("null");
                assert(into@ =~= old(into)@ + null_text());
            }
        },
        Option::Some(v) => {
            fmt_entry(v, into);
        },
    }
}

/// Appends a value in nested position: containers keep their own braces
/// as the boundary, anything else is wrapped in single quotes.
fn fmt_entry(entry: &Value, into: &mut String)
    ensures
        final(into)@ == old(into)@ + render_nested(*entry),
    decreases *entry, 2int,
{
    match entry {
        Value::List(col) => {
            fmt_vec(col, into);
            proof {
                assert(into@ =~= old(into)@ + render_nested(*entry));
            }
        },
        Value::OrderedSet(col) => {
            fmt_vec(col, into);
            proof {
                assert(into@ =~= old(into)@ + render_nested(*entry));
            }
        },
        Value::Mapping(col) => {
            fmt_map(col, into);
            proof {
                assert(into@ =~= old(into)@ + render_nested(*entry));
            }
        },
        Value::UserDefinedType(fields) => {
            fmt_udt(fields, into);
            proof {
                assert(into@ =~= old(into)@ + render_nested(*entry));
            }
        },
        _ => {
            into.append("'");
            let s: String = fmt(entry);
            into.append(s.as_str());
            into.append("'");
            proof {
                reveal_strlit("'");
                assert(into@ =~= old(into)@ + render_nested(*entry));
            }
        },
    }
}

/// The top-level display text of one value. Every variant has a defined
/// form, so this never fails.
pub fn fmt(col: &Value) -> (out: String)
    ensures
        out@ == render(*col),
    decreases *col, 1int,
{
    match col {
        Value::Ascii(s) => s.as_str().to_owned(),
        Value::Text(s) => s.as_str().to_owned(),
        Value::Boolean(b) => {
            let out: String = if *b {
                "true".to_owned()
            } else {
                "false".to_owned()
            };
            proof {
                reveal_strlit("true");
                reveal_strlit("false");
                assert(out@ =~= render(*col));
            }
            out
        },
        Value::Blob(_) => {
            let out: String = "<blob>".to_owned();
            proof {
                reveal_strlit("<blob>");
                assert(out@ =~= blob_text());
            }
            out
        },
        Value::Counter(n) => {
            let mut out = String::new();
            push_i64(*n, &mut out);
            out
        },
        Value::Decimal(s) => s.as_str().to_owned(),
        Value::Date(s) => s.as_str().to_owned(),
        Value::Double(s) => s.as_str().to_owned(),
        Value::Empty => String::new(),
        Value::Float(s) => s.as_str().to_owned(),
        Value::Int(n) => {
            let mut out = String::new();
            push_i64(*n as i64, &mut out);
            out
        },
        Value::BigInt(n) => {
            let mut out = String::new();
            push_i64(*n, &mut out);
            out
        },
        Value::Timestamp(s) => s.as_str().to_owned(),
        Value::Inet(s) => s.as_str().to_owned(),
        Value::List(inner) => {
            let mut out = String::new();
            fmt_vec(inner, &mut out);
            proof {
                assert(out@ =~= render(*col));
            }
            out
        },
        Value::Mapping(inner) => {
            let mut out = String::new();
            fmt_map(inner, &mut out);
            proof {
                assert(out@ =~= render(*col));
            }
            out
        },
        Value::OrderedSet(inner) => {
            let mut out = String::new();
            fmt_vec(inner, &mut out);
            proof {
                assert(out@ =~= render(*col));
            }
            out
        },
        Value::UserDefinedType(fields) => {
            let mut out = String::new();
            fmt_udt(fields, &mut out);
            proof {
                assert(out@ =~= render(*col));
            }
            out
        },
        Value::SmallInt(n) => {
            let mut out = String::new();
            push_i64(*n as i64, &mut out);
            out
        },
        Value::TinyInt(n) => {
            let mut out = String::new();
            push_i64(*n as i64, &mut out);
            out
        },
        Value::Time(s) => s.as_str().to_owned(),
        Value::Timeuuid(s) => s.as_str().to_owned(),
        Value::Tuple(inner) => {
            let mut out = String::new();
            fmt_tpl(inner, &mut out);
            proof {
                assert(out@ =~= render(*col));
            }
            out
        },
        Value::Uuid(s) => s.as_str().to_owned(),
        Value::Varint(s) => s.as_str().to_owned(),
        Value::Duration(d) => fmt_duration(d),
    }
}

/// The top-level display text of an optional cell: the literal `null`
/// when the value is absent, its bare rendering otherwise.
pub fn fmt_opt(col: &Option<Value>) -> (out: String)
    ensures
        out@ == render_opt(*col),
{
    match col {
        Option::None => {
            let out: String = "null".to_owned();
            proof {
                reveal_strlit("null");
                assert(out@ =~= null_text());
            }
            out
        },
        Option::Some(v) => fmt(v),
    }
}

/// The combined length of a sequence of nested element texts, without
/// any separators.
pub open spec fn elems_text_len(elems: Seq<Value>) -> nat
    decreases elems.len(),
{
    if elems.len() == 0 {
        0
    } else {
        elems_text_len(elems.drop_last()) + render_nested(elems.last()).len()
    }
}

/// The joined entry text of n elements carries exactly n - 1 separators:
/// its length is the sum of the element text lengths plus twice (n - 1).
pub proof fn lemma_render_elems_len(elems: Seq<Value>)
    ensures
        elems.len() == 0 ==> render_elems(elems).len() == 0,
        elems.len() > 0 ==> render_elems(elems).len() == elems_text_len(elems) + (elems.len() - 1)
            * 2,
    decreases elems.len(),
{
    if elems.len() == 1 {
        assert(elems.drop_last().len() == 0);
        assert(elems_text_len(elems) == render_nested(elems.last()).len());
        assert(elems[0] == elems.last());
    } else if elems.len() > 1 {
        lemma_render_elems_len(elems.drop_last());
        assert(render_elems(elems).len() == render_elems(elems.drop_last()).len() + 2
            + render_nested(elems.last()).len());
        assert(elems_text_len(elems) == elems_text_len(elems.drop_last()) + render_nested(
            elems.last(),
        ).len());
    }
}

/// The joined entry text keeps input order: for a non-empty sequence it
/// is the joined text of all elements but the last, one separator (when
/// there is more than one element), and the last element's text. A
/// separator therefore stands only between two consecutive elements,
/// never after the last one.
pub proof fn lemma_render_elems_split(elems: Seq<Value>)
    requires
        elems.len() > 0,
    ensures
        elems.len() == 1 ==> render_elems(elems) == render_nested(elems[0]),
        elems.len() > 1 ==> render_elems(elems) == render_elems(elems.drop_last()) + comma_sep()
            + render_nested(elems.last()),
{
}

/// The quoting rule, for every value: a scalar — any non-container,
/// tuples included — renders inside a container as its top-level text
/// wrapped in single quotes, while at top level the same value renders
/// bare; a container nests as exactly its top-level text, its braces
/// being the visual boundary.
pub proof fn lemma_nested_quoting(v: Value)
    ensures
        !is_container(v) ==> render_nested(v) == seq!['\''] + render(v) + seq!['\''],
        is_container(v) ==> render_nested(v) == render(v),
{
}

/// An absent value renders as the literal `null` at top level and at
/// any nesting depth alike.
pub proof fn lemma_null_everywhere()
    ensures
        render_opt(Option::None) == null_text(),
        render_opt_nested(Option::None) == null_text(),
{
}

/// A list or set renders brace-delimited: the text opens with `{`,
/// closes with `}`, and in between its n element texts are interleaved
/// with exactly n - 1 separators — never a trailing one — so the total
/// length is the sum of the element text lengths plus 2(n - 1) + 2.
/// A set renders exactly as the list of the same elements.
pub proof fn lemma_list_separator_count(col: Vec<Value>)
    ensures
        render(Value::List(col)).first() == '{',
        render(Value::List(col)).last() == '}',
        col@.len() == 0 ==> render(Value::List(col)).len() == 2,
        col@.len() > 0 ==> render(Value::List(col)).len() == 2 + elems_text_len(col@) + (col@.len()
            - 1) * 2,
        render(Value::OrderedSet(col)) == render(Value::List(col)),
{
    lemma_render_elems_len(col@);
}

/// An empty container of any kind — list, set, associative collection,
/// tuple or user-defined structure — renders as `{}`.
pub proof fn lemma_empty_container(
    col: Vec<Value>,
    entries: Vec<(Value, Value)>,
    positions: Vec<Option<Value>>,
    fields: Vec<(String, Option<Value>)>,
)
    requires
        col@.len() == 0,
        entries@.len() == 0,
        positions@.len() == 0,
        fields@.len() == 0,
    ensures
        render(Value::List(col)) == seq!['{', '}'],
        render(Value::OrderedSet(col)) == seq!['{', '}'],
        render(Value::Mapping(entries)) == seq!['{', '}'],
        render(Value::Tuple(positions)) == seq!['{', '}'],
        render(Value::UserDefinedType(fields)) == seq!['{', '}'],
{
    assert(seq!['{'] + render_elems(col@) + seq!['}'] =~= seq!['{', '}']);
    assert(seq!['{'] + render_pairs(entries@) + seq!['}'] =~= seq!['{', '}']);
    assert(seq!['{'] + render_opt_elems(positions@) + seq!['}'] =~= seq!['{', '}']);
    assert(seq!['{'] + render_fields(fields@) + seq!['}'] =~= seq!['{', '}']);
}

/// Runs `a` on a freshly allocated empty string and hands back what it
/// returns.
pub fn apply<T: FnOnce(String) -> String>(a: T) -> (out: String)
    requires
        forall|s: String| s@ == Seq::<char>::empty() ==> call_requires(a, (s,)),
    ensures
        exists|s: String| s@ == Seq::<char>::empty() && call_ensures(a, (s,), out),
{
    let s = String::new();
    a(s)
}

} // verus!
