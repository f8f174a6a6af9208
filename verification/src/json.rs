//! The structured values carried by a function invocation.
//!
//! A function call's arguments are a tree of plain values: null, booleans,
//! integers, text, arrays and objects (ordered key/value lists).  The spec
//! level mirrors this shape one-to-one with `ValueView`, so contracts can
//! speak about the whole tree by structural equality.

use vstd::prelude::*;

verus! {

/// The mathematical shape of a structured value.
pub enum ValueView {
    Null,
    Bool(bool),
    Int(int),
    Text(Seq<char>),
    Array(Seq<ValueView>),
    Object(Seq<(Seq<char>, ValueView)>),
}

/// A structured argument value: the payload a function call carries.
#[derive(Debug, PartialEq)]
pub enum JsonValue {
    Null,
    Bool(bool),
    Int(i64),
    Text(String),
    Array(Vec<JsonValue>),
    Object(Vec<(String, JsonValue)>),
}

/// The view of a structured value: the same tree with sequences for
/// vectors and character sequences for strings.
pub open spec fn value_view(v: JsonValue) -> ValueView
    decreases v,
{
    match v {
        JsonValue::Null => ValueView::Null,
        JsonValue::Bool(b) => ValueView::Bool(b),
        JsonValue::Int(i) => ValueView::Int(i as int),
        JsonValue::Text(s) => ValueView::Text(s@),
        JsonValue::Array(items) => ValueView::Array(value_views(items@)),
        JsonValue::Object(fields) => ValueView::Object(field_views(fields@)),
    }
}

/// The views of a sequence of structured values, element by element.
pub open spec fn value_views(s: Seq<JsonValue>) -> Seq<ValueView>
    decreases s,
{
    if s.len() == 0 {
        Seq::empty()
    } else {
        value_views(s.drop_last()).push(value_view(s.last()))
    }
}

/// The views of an object's field list, pair by pair.
pub open spec fn field_views(s: Seq<(String, JsonValue)>) -> Seq<(Seq<char>, ValueView)>
    decreases s,
{
    if s.len() == 0 {
        Seq::empty()
    } else {
        field_views(s.drop_last()).push((s.last().0@, value_view(s.last().1)))
    }
}

/// `value_views` maps the view over the sequence pointwise.
pub proof fn lemma_value_views(s: Seq<JsonValue>)
    ensures
        value_views(s).len() == s.len(),
        forall|i: int| 0 <= i < s.len() ==> #[trigger] value_views(s)[i] == value_view(s[i]),
    decreases s.len(),
{
    if s.len() > 0 {
        lemma_value_views(s.drop_last());
    }
}

/// `field_views` maps the view over the field list pointwise.
pub proof fn lemma_field_views(s: Seq<(String, JsonValue)>)
    ensures
        field_views(s).len() == s.len(),
        forall|i: int| 0 <= i < s.len() ==> #[trigger] field_views(s)[i] == (
            s[i].0@,
            value_view(s[i].1),
        ),
    decreases s.len(),
{
    if s.len() > 0 {
        lemma_field_views(s.drop_last());
    }
}

impl View for JsonValue {
    type V = ValueView;

    open spec fn view(&self) -> ValueView {
        value_view(*self)
    }
}

/// First value bound to `key` at position `i` or later in an object's field
/// list, if any.
pub open spec fn object_lookup_from(
    fields: Seq<(Seq<char>, ValueView)>,
    key: Seq<char>,
    i: int,
) -> Option<ValueView>
    decreases fields.len() - i,
{
    if i < 0 || i >= fields.len() {
        None
    } else if fields[i].0 == key {
        Some(fields[i].1)
    } else {
        object_lookup_from(fields, key, i + 1)
    }
}

/// First value bound to `key` in an object's field list, if any.
pub open spec fn object_lookup(fields: Seq<(Seq<char>, ValueView)>, key: Seq<char>) -> Option<
    ValueView,
> {
    object_lookup_from(fields, key, 0)
}

/// Fetch the value bound to `key` in an object value; `None` when the value
/// is not an object or no field carries the key.
pub fn get_field<'a>(v: &'a JsonValue, key: &String) -> (r: Option<&'a JsonValue>)
    ensures
        match r {
            Some(inner) => v@ matches ValueView::Object(fields) && object_lookup(fields, key@)
                == Some(inner@),
            None => !(v@ matches ValueView::Object(fields) && object_lookup(fields, key@)
                is Some),
        },
{
    match v {
        JsonValue::Object(fields) => {
            proof {
                lemma_field_views(fields@);
            }
            let mut i: usize = 0;
            while i < fields.len()
                invariant
                    i <= fields.len(),
                    v@ == ValueView::Object(field_views(fields@)),
                    field_views(fields@).len() == fields@.len(),
                    forall|k: int| 0 <= k < fields@.len() ==> #[trigger] field_views(fields@)[k]
                        == (fields@[k].0@, value_view(fields@[k].1)),
                    object_lookup(field_views(fields@), key@) == object_lookup_from(
                        field_views(fields@),
                        key@,
                        i as int,
                    ),
                decreases fields.len() - i,
            {
                if fields[i].0 == *key {
                    proof {
                        assert(field_views(fields@)[i as int] == (
                            fields@[i as int].0@,
                            value_view(fields@[i as int].1),
                        ));
                        assert(object_lookup_from(field_views(fields@), key@, i as int) == Some(
                            value_view(fields@[i as int].1),
                        ));
                    }
                    return Some(&fields[i].1);
                }
                proof {
                    assert(field_views(fields@)[i as int] == (
                        fields@[i as int].0@,
                        value_view(fields@[i as int].1),
                    ));
                    assert(object_lookup_from(field_views(fields@), key@, i as int)
                        == object_lookup_from(field_views(fields@), key@, i as int + 1));
                }
                i = i + 1;
            }
            None
        },
        _ => None,
    }
}

/// The decimal digit character for `d`.
pub open spec fn digit_char(d: nat) -> char {
    if d == 0 {
        '0'
    } else if d == 1 {
        '1'
    } else if d == 2 {
        '2'
    } else if d == 3 {
        '3'
    } else if d == 4 {
        '4'
    } else if d == 5 {
        '5'
    } else if d == 6 {
        '6'
    } else if d == 7 {
        '7'
    } else if d == 8 {
        '8'
    } else {
        '9'
    }
}

/// The decimal digits of `n`, most significant first.
pub open spec fn int_digits(n: nat) -> Seq<char>
    decreases n,
{
    if n < 10 {
        seq![digit_char(n)]
    } else {
        int_digits(n / 10).push(digit_char(n % 10))
    }
}

/// The decimal rendering of `n`, with a leading minus when negative.
pub open spec fn int_text(n: int) -> Seq<char> {
    if n < 0 {
        seq!['-'] + int_digits((-n) as nat)
    } else {
        int_digits(n as nat)
    }
}

/// How one character appears inside a rendered text value: quotes and
/// backslashes carry an escape, everything else stands as itself.
pub open spec fn char_escape(c: char) -> Seq<char> {
    if c == '"' {
        seq!['\\', '"']
    } else if c == '\\' {
        seq!['\\', '\\']
    } else {
        seq![c]
    }
}

/// A text value's characters with their escapes applied.
pub open spec fn escaped(s: Seq<char>) -> Seq<char>
    decreases s.len(),
{
    if s.len() == 0 {
        Seq::empty()
    } else {
        escaped(s.drop_last()) + char_escape(s.last())
    }
}

/// The rendering of a structured value, in the usual bracketed notation.
pub open spec fn json_text(v: ValueView) -> Seq<char>
    decreases v,
{
    match v {
        ValueView::Null => "null"@,
        ValueView::Bool(b) => if b {
            "true"@
        } else {
            "false"@
        },
        ValueView::Int(i) => int_text(i),
        ValueView::Text(s) => seq!['"'] + escaped(s) + seq!['"'],
        ValueView::Array(items) => seq!['['] + json_items(items) + seq![']'],
        ValueView::Object(fields) => seq!['{'] + json_fields(fields) + seq!['}'],
    }
}

/// Array elements rendered in order, separated by commas.
pub open spec fn json_items(items: Seq<ValueView>) -> Seq<char>
    decreases items,
{
    if items.len() == 0 {
        Seq::empty()
    } else if items.len() == 1 {
        json_text(items.last())
    } else {
        json_items(items.drop_last()) + seq![','] + json_text(items.last())
    }
}

/// Object fields rendered in order, each as a quoted key, a colon and the
/// value, separated by commas.
pub open spec fn json_fields(fields: Seq<(Seq<char>, ValueView)>) -> Seq<char>
    decreases fields,
{
    if fields.len() == 0 {
        Seq::empty()
    } else {
        let entry = seq!['"'] + escaped(fields.last().0) + seq!['"', ':'] + json_text(
            fields.last().1,
        );
        if fields.len() == 1 {
            entry
        } else {
            json_fields(fields.drop_last()) + seq![','] + entry
        }
    }
}

/// The decimal digit of `d` as text.
fn digit_str(d: u64) -> (r: &'static str)
    requires
        d < 10,
    ensures
        r@ == seq![digit_char(d as nat)],
{
    proof {
        reveal_strlit("0");
        reveal_strlit("1");
        reveal_strlit("2");
        reveal_strlit("3");
        reveal_strlit("4");
        reveal_strlit("5");
        reveal_strlit("6");
        reveal_strlit("7");
        reveal_strlit("8");
        reveal_strlit("9");
    }
    if d == 0 {
        "0"
    } else if d == 1 {
        "1"
    } else if d == 2 {
        "2"
    } else if d == 3 {
        "3"
    } else if d == 4 {
        "4"
    } else if d == 5 {
        "5"
    } else if d == 6 {
        "6"
    } else if d == 7 {
        "7"
    } else if d == 8 {
        "8"
    } else {
        "9"
    }
}

/// Append the decimal digits of `m`.
fn push_digits(out: &mut String, m: u64)
    ensures
        final(out)@ == old(out)@ + int_digits(m as nat),
    decreases m,
{
    if m < 10 {
        out.append(digit_str(m));
        proof {
            assert(old(out)@ + seq![digit_char(m as nat)] =~= out@);
        }
    } else {
        proof {
            assert(m / 10 < m) by (nonlinear_arith)
                requires
                    m >= 10,
            ;
        }
        push_digits(out, m / 10);
        out.append(digit_str(m % 10));
        proof {
            assert(int_digits(m as nat) =~= int_digits(m as nat / 10) + seq![
                digit_char(m as nat % 10),
            ]);
            assert(old(out)@ + int_digits(m as nat) =~= out@);
        }
    }
}

/// Append the decimal rendering of `n`.
fn push_int(out: &mut String, n: i64)
    ensures
        final(out)@ == old(out)@ + int_text(n as int),
{
    if n >= 0 {
        push_digits(out, n as u64);
    } else {
        proof {
            reveal_strlit("-");
        }
        out.append("-");
        let mag: u64 = ((-(n + 1)) as u64) + 1;
        proof {
            assert(mag as int == -(n as int));
        }
        push_digits(out, mag);
        proof {
            assert(old(out)@ + int_text(n as int) =~= out@);
        }
    }
}

/// Append a text value's characters with their escapes applied.
fn push_escaped(out: &mut String, s: &str)
    ensures
        final(out)@ == old(out)@ + escaped(s@),
{
    let n = s.unicode_len();
    let mut i: usize = 0;
    while i < n
        invariant
            i <= n,
            n as nat == s@.len(),
            out@ == old(out)@ + escaped(s@.subrange(0, i as int)),
        decreases n - i,
    {
        let c = s.get_char(i);
        if c == '"' {
            proof {
                reveal_strlit("\\\"");
            }
            out.append("\\\"");
        } else if c == '\\' {
            proof {
                reveal_strlit("\\\\");
            }
            out.append("\\\\");
        } else {
            let piece = s.substring_char(i, i + 1);
            out.append(piece);
        }
        proof {
            let pre = s@.subrange(0, i as int);
            let cur = s@.subrange(0, i as int + 1);
            assert(cur.drop_last() =~= pre);
            assert(cur.last() == s@[i as int]);
            assert(s@.subrange(i as int, i as int + 1) =~= seq![s@[i as int]]);
            assert(out@ =~= old(out)@ + escaped(cur));
        }
        i = i + 1;
    }
    proof {
        assert(s@.subrange(0, s@.len() as int) =~= s@);
    }
}

/// Append the rendering of a structured value.
#[verifier::loop_isolation(false)]
fn push_json(out: &mut String, v: &JsonValue)
    ensures
        final(out)@ == old(out)@ + json_text(v@),
    decreases *v,
{
    match v {
        JsonValue::Null => {
            out.append("null");
        },
        JsonValue::Bool(b) => {
            if *b {
                out.append("true");
            } else {
                out.append("false");
            }
        },
        JsonValue::Int(i) => {
            push_int(out, *i);
        },
        JsonValue::Text(s) => {
            proof {
                reveal_strlit("\"");
            }
            out.append("\"");
            push_escaped(out, s.as_str());
            out.append("\"");
            proof {
                assert(old(out)@ + json_text(v@) =~= out@);
            }
        },
        JsonValue::Array(items) => {
            proof {
                reveal_strlit("[");
                reveal_strlit("]");
                reveal_strlit(",");
                lemma_value_views(items@);
            }
            out.append("[");
            let mut i: usize = 0;
            while i < items.len()
                invariant
                    i <= items.len(),
                    out@ == old(out)@ + seq!['['] + json_items(
                        value_views(items@).subrange(0, i as int),
                    ),
                decreases items.len() - i,
            {
                if i > 0 {
                    out.append(",");
                }
                proof {
                    assert(decreases_to!(*v => items@[i as int]));
                }
                push_json(out, &items[i]);
                proof {
                    let vs = value_views(items@);
                    let cur = vs.subrange(0, i as int + 1);
                    assert(cur.drop_last() =~= vs.subrange(0, i as int));
                    assert(cur.last() == vs[i as int]);
                    assert(vs[i as int] == items@[i as int]@);
                    assert(out@ =~= old(out)@ + seq!['['] + json_items(cur));
                }
                i = i + 1;
            }
            out.append("]");
            proof {
                assert(value_views(items@).subrange(0, items@.len() as int) =~= value_views(
                    items@,
                ));
                assert(old(out)@ + json_text(v@) =~= out@);
            }
        },
        JsonValue::Object(fields) => {
            proof {
                reveal_strlit("{");
                reveal_strlit("}");
                reveal_strlit(",");
                reveal_strlit("\"");
                reveal_strlit("\":");
                lemma_field_views(fields@);
            }
            out.append("{");
            let mut i: usize = 0;
            while i < fields.len()
                invariant
                    i <= fields.len(),
                    out@ == old(out)@ + seq!['{'] + json_fields(
                        field_views(fields@).subrange(0, i as int),
                    ),
                decreases fields.len() - i,
            {
                if i > 0 {
                    out.append(",");
                }
                out.append("\"");
                push_escaped(out, fields[i].0.as_str());
                out.append("\":");
                proof {
                    assert(decreases_to!(*v => fields@[i as int].1));
                }
                push_json(out, &fields[i].1);
                proof {
                    let fs = field_views(fields@);
                    let cur = fs.subrange(0, i as int + 1);
                    assert(cur.drop_last() =~= fs.subrange(0, i as int));
                    assert(cur.last() == fs[i as int]);
                    assert(fs[i as int] == (fields@[i as int].0@, fields@[i as int].1@));
                    assert(out@ =~= old(out)@ + seq!['{'] + json_fields(cur));
                }
                i = i + 1;
            }
            out.append("}");
            proof {
                assert(field_views(fields@).subrange(0, fields@.len() as int) =~= field_views(
                    fields@,
                ));
                assert(old(out)@ + json_text(v@) =~= out@);
            }
        },
    }
}

/// The rendering of a structured value as a fresh string.
pub fn render_value(v: &JsonValue) -> (r: String)
    ensures
        r@ == json_text(v@),
{
    let mut out = String::new();
    push_json(&mut out, v);
    proof {
        assert(Seq::<char>::empty() + json_text(v@) =~= json_text(v@));
    }
    out
}

/// A deep copy of a structured value; the copy has the same view.
#[verifier::loop_isolation(false)]
pub fn dup_value(v: &JsonValue) -> (r: JsonValue)
    ensures
        r@ == v@,
    decreases *v,
{
    match v {
        JsonValue::Null => JsonValue::Null,
        JsonValue::Bool(b) => JsonValue::Bool(*b),
        JsonValue::Int(i) => JsonValue::Int(*i),
        JsonValue::Text(s) => JsonValue::Text(s.clone()),
        JsonValue::Array(items) => {
            let mut out: Vec<JsonValue> = Vec::new();
            let mut i: usize = 0;
            while i < items.len()
                invariant
                    i <= items.len(),
                    out@.len() == i as int,
                    forall|j: int| 0 <= j < i as int ==> #[trigger] value_view(out@[j])
                        == value_view(items@[j]),
                decreases items.len() - i,
            {
                assert(decreases_to!(*v => items@[i as int]));
                let item = dup_value(&items[i]);
                out.push(item);
                i = i + 1;
            }
            let r = JsonValue::Array(out);
            proof {
                lemma_value_views(out@);
                lemma_value_views(items@);
                assert(value_views(out@) =~= value_views(items@));
            }
            r
        },
        JsonValue::Object(fields) => {
            let mut out: Vec<(String, JsonValue)> = Vec::new();
            let mut i: usize = 0;
            while i < fields.len()
                invariant
                    i <= fields.len(),
                    out@.len() == i as int,
                    forall|j: int| 0 <= j < i as int ==> #[trigger] out@[j].0@ == fields@[j].0@
                        && out@[j].1@ == fields@[j].1@,
                decreases fields.len() - i,
            {
                assert(decreases_to!(*v => fields@[i as int].1));
                let key = fields[i].0.clone();
                let val = dup_value(&fields[i].1);
                out.push((key, val));
                i = i + 1;
            }
            let r = JsonValue::Object(out);
            proof {
                lemma_field_views(out@);
                lemma_field_views(fields@);
                assert(field_views(out@) =~= field_views(fields@));
            }
            r
        },
    }
}

} // verus!
