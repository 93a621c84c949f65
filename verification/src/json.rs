//! The structural model of the interchange document and a verified text
//! emitter for it.
//!
//! The model covers the shapes the interchange format uses: null, booleans,
//! strings, arrays and objects with ordered string keys. The emitter writes
//! compact text: no whitespace, strings quoted, with quotes and backslashes
//! escaped and control characters written as `\u00` followed by two hex
//! digits.

use vstd::prelude::*;

use vstd::string::StrSliceExecFns;
use vstd::string::StringExecFns;

verus! {

/// One value of the interchange document.
#[derive(Debug, PartialEq)]
pub enum JsonValue {
    Null,
    Bool(bool),
    Str(String),
    Arr(Vec<JsonValue>),
    Obj(Vec<(String, JsonValue)>),
}

/// Mathematical model of a [`JsonValue`].
#[verifier::ext_equal]
pub enum JsonView {
    Null,
    Bool(bool),
    Str(Seq<char>),
    Arr(Seq<JsonView>),
    Obj(Seq<(Seq<char>, JsonView)>),
}

/// The model of one value.
pub open spec fn json_view(v: JsonValue) -> JsonView
    decreases v,
{
    match v {
        JsonValue::Null => JsonView::Null,
        JsonValue::Bool(b) => JsonView::Bool(b),
        JsonValue::Str(s) => JsonView::Str(s@),
        JsonValue::Arr(items) => JsonView::Arr(arr_view(items@)),
        JsonValue::Obj(entries) => JsonView::Obj(obj_view(entries@)),
    }
}

/// The models of the items of an array, in order.
pub open spec fn arr_view(items: Seq<JsonValue>) -> Seq<JsonView>
    decreases items,
{
    if items.len() == 0 {
        Seq::empty()
    } else {
        arr_view(items.drop_last()).push(json_view(items.last()))
    }
}

/// The models of the entries of an object, in order.
pub open spec fn obj_view(entries: Seq<(String, JsonValue)>) -> Seq<(Seq<char>, JsonView)>
    decreases entries,
{
    if entries.len() == 0 {
        Seq::empty()
    } else {
        obj_view(entries.drop_last()).push(
            (entries.last().0@, json_view(entries.last().1)),
        )
    }
}

/// Each entry of `arr_view` is the model of the matching item.
pub proof fn lemma_arr_view_index(items: Seq<JsonValue>, i: int)
    requires
        0 <= i < items.len(),
    ensures
        arr_view(items).len() == items.len(),
        arr_view(items)[i] == json_view(items[i]),
    decreases items,
{
    lemma_arr_view_len(items);
    if i < items.len() - 1 {
        lemma_arr_view_index(items.drop_last(), i);
    }
}

/// The array model has the same length as the array.
pub proof fn lemma_arr_view_len(items: Seq<JsonValue>)
    ensures
        arr_view(items).len() == items.len(),
    decreases items,
{
    if items.len() > 0 {
        lemma_arr_view_len(items.drop_last());
    }
}

/// Each entry of `obj_view` is the model of the matching entry.
pub proof fn lemma_obj_view_index(entries: Seq<(String, JsonValue)>, i: int)
    requires
        0 <= i < entries.len(),
    ensures
        obj_view(entries).len() == entries.len(),
        obj_view(entries)[i] == (entries[i].0@, json_view(entries[i].1)),
    decreases entries,
{
    lemma_obj_view_len(entries);
    if i < entries.len() - 1 {
        lemma_obj_view_index(entries.drop_last(), i);
    }
}

/// The object model has the same length as the entry list.
pub proof fn lemma_obj_view_len(entries: Seq<(String, JsonValue)>)
    ensures
        obj_view(entries).len() == entries.len(),
    decreases entries,
{
    if entries.len() > 0 {
        lemma_obj_view_len(entries.drop_last());
    }
}

/// Appending an item appends its model.
pub proof fn lemma_arr_view_push(items: Seq<JsonValue>, it: JsonValue)
    ensures
        arr_view(items.push(it)) == arr_view(items).push(json_view(it)),
{
    assert(items.push(it).drop_last() =~= items);
    assert(items.push(it).last() == it);
}

/// Appending an entry appends its model.
pub proof fn lemma_obj_view_push(entries: Seq<(String, JsonValue)>, e: (String, JsonValue))
    ensures
        obj_view(entries.push(e)) == obj_view(entries).push((e.0@, json_view(e.1))),
{
    assert(entries.push(e).drop_last() =~= entries);
    assert(entries.push(e).last() == e);
}

impl View for JsonValue {
    type V = JsonView;

    open spec fn view(&self) -> JsonView {
        json_view(*self)
    }
}

impl DeepView for JsonValue {
    type V = JsonView;

    open spec fn deep_view(&self) -> JsonView {
        self.view()
    }
}

/// One hex digit, lower case.
pub open spec fn spec_hex_digit(n: u32) -> Seq<char> {
    if n == 0 {
        "0"@
    } else if n == 1 {
        "1"@
    } else if n == 2 {
        "2"@
    } else if n == 3 {
        "3"@
    } else if n == 4 {
        "4"@
    } else if n == 5 {
        "5"@
    } else if n == 6 {
        "6"@
    } else if n == 7 {
        "7"@
    } else if n == 8 {
        "8"@
    } else if n == 9 {
        "9"@
    } else if n == 10 {
        "a"@
    } else if n == 11 {
        "b"@
    } else if n == 12 {
        "c"@
    } else if n == 13 {
        "d"@
    } else if n == 14 {
        "e"@
    } else {
        "f"@
    }
}

/// One hex digit, lower case.
pub fn hex_digit_str(n: u8) -> (r: &'static str)
    requires
        n < 16,
    ensures
        r@ == spec_hex_digit(n as u32),
{
    if n == 0 {
        "0"
    } else if n == 1 {
        "1"
    } else if n == 2 {
        "2"
    } else if n == 3 {
        "3"
    } else if n == 4 {
        "4"
    } else if n == 5 {
        "5"
    } else if n == 6 {
        "6"
    } else if n == 7 {
        "7"
    } else if n == 8 {
        "8"
    } else if n == 9 {
        "9"
    } else if n == 10 {
        "a"
    } else if n == 11 {
        "b"
    } else if n == 12 {
        "c"
    } else if n == 13 {
        "d"
    } else if n == 14 {
        "e"
    } else {
        "f"
    }
}

/// The escape of one string character: quotes and backslashes get a
/// backslash, control characters become `\u00` and two hex digits, and
/// every other character stands for itself.
pub open spec fn escaped_char(c: char) -> Seq<char> {
    if c == '"' {
        "\\\""@
    } else if c == '\\' {
        "\\\\"@
    } else if (c as u32) < 32 {
        "\\u00"@ + spec_hex_digit((c as u32) / 16) + spec_hex_digit((c as u32) % 16)
    } else {
        seq![c]
    }
}

/// The escape of a whole string body.
pub open spec fn escape_string(s: Seq<char>) -> Seq<char>
    decreases s.len(),
{
    if s.len() == 0 {
        Seq::empty()
    } else {
        escape_string(s.drop_last()) + escaped_char(s.last())
    }
}

/// The text of one value, compact.
pub open spec fn json_text(v: JsonView) -> Seq<char>
    decreases v,
{
    match v {
        JsonView::Null => "null"@,
        JsonView::Bool(b) => if b {
            "true"@
        } else {
            "false"@
        },
        JsonView::Str(s) => "\""@ + escape_string(s) + "\""@,
        JsonView::Arr(items) => "["@ + arr_text(items) + "]"@,
        JsonView::Obj(entries) => "{"@ + obj_text(entries) + "}"@,
    }
}

/// The text of the items of an array, comma-separated.
pub open spec fn arr_text(items: Seq<JsonView>) -> Seq<char>
    decreases items,
{
    if items.len() == 0 {
        Seq::empty()
    } else if items.len() == 1 {
        json_text(items[0])
    } else {
        arr_text(items.drop_last()) + ","@ + json_text(items.last())
    }
}

/// The text of one object entry: quoted key, colon, value.
pub open spec fn entry_text(e: (Seq<char>, JsonView)) -> Seq<char>
    decreases e,
{
    "\""@ + escape_string(e.0) + "\":"@ + json_text(e.1)
}

/// The text of the entries of an object, comma-separated.
pub open spec fn obj_text(entries: Seq<(Seq<char>, JsonView)>) -> Seq<char>
    decreases entries,
{
    if entries.len() == 0 {
        Seq::empty()
    } else if entries.len() == 1 {
        entry_text(entries[0])
    } else {
        obj_text(entries.drop_last()) + ","@ + entry_text(entries.last())
    }
}

/// Appending an item appends its text, preceded by a comma when it is not
/// the first.
pub proof fn lemma_arr_text_push(items: Seq<JsonView>, it: JsonView)
    ensures
        arr_text(items.push(it)) == if items.len() == 0 {
            json_text(it)
        } else {
            arr_text(items) + ","@ + json_text(it)
        },
{
    assert(items.push(it).drop_last() =~= items);
    assert(items.push(it).last() == it);
    if items.len() == 0 {
        assert(items.push(it)[0] == it);
    }
}

/// Appending an entry appends its text, preceded by a comma when it is not
/// the first.
pub proof fn lemma_obj_text_push(entries: Seq<(Seq<char>, JsonView)>, e: (Seq<char>, JsonView))
    ensures
        obj_text(entries.push(e)) == if entries.len() == 0 {
            entry_text(e)
        } else {
            obj_text(entries) + ","@ + entry_text(e)
        },
{
    assert(entries.push(e).drop_last() =~= entries);
    assert(entries.push(e).last() == e);
    if entries.len() == 0 {
        assert(entries.push(e)[0] == e);
    }
}

/// Appends the escaped body of a string.
fn append_escaped(out: &mut String, s: &str)
    ensures
        final(out)@ == old(out)@ + escape_string(s@),
{
    let n = s.unicode_len();
    let mut i: usize = 0;
    while i < n
        invariant
            i <= n,
            n == s@.len(),
            out@ == old(out)@ + escape_string(s@.take(i as int)),
        decreases n - i,
    {
        let c = s.get_char(i);
        if c == '"' {
            out.append("\\\"");
        } else if c == '\\' {
            out.append("\\\\");
        } else if (c as u32) < 32 {
            out.append("\\u00");
            out.append(hex_digit_str(((c as u32) / 16) as u8));
            out.append(hex_digit_str(((c as u32) % 16) as u8));
        } else {
            let piece = s.substring_char(i, i + 1);
            proof {
                assert(piece@ =~= seq![s@[i as int]]);
            }
            out.append(piece);
        }
        proof {
            assert(s@.take(i + 1).drop_last() =~= s@.take(i as int));
            assert(s@.take(i + 1).last() == s@[i as int]);
            assert(out@ =~= old(out)@ + escape_string(s@.take(i + 1)));
        }
        i += 1;
    }
    proof {
        assert(s@.take(s@.len() as int) =~= s@);
    }
}

/// Appends the compact text of one value.
pub fn append_json(out: &mut String, v: &JsonValue)
    ensures
        final(out)@ == old(out)@ + json_text(v@),
    decreases *v,
{
    match v {
        JsonValue::Null => {
            out.append("null");
        },
        JsonValue::Bool(b) => {
            if *b {
                out.append("true");
            } else {
                out.append("false");
            }
        },
        JsonValue::Str(s) => {
            out.append("\"");
            append_escaped(out, s.as_str());
            out.append("\"");
            proof {
                assert(out@ =~= old(out)@ + json_text(v@));
            }
        },
        JsonValue::Arr(items) => {
            let ghost itemsv: Seq<JsonView> = arr_view(items@);
            proof {
                lemma_arr_view_len(items@);
            }
            out.append("[");
            let mut i: usize = 0;
            while i < items.len()
                invariant
                    i <= items@.len(),
                    *v is Arr,
                    *items == v->Arr_0,
                    itemsv == arr_view(items@),
                    itemsv.len() == items@.len(),
                    out@ == old(out)@ + "["@ + arr_text(itemsv.take(i as int)),
                decreases items@.len() - i,
            {
                if i > 0 {
                    out.append(",");
                }
                proof {
                    lemma_arr_view_index(items@, i as int);
                    assert(decreases_to!(*v => v->Arr_0));
                    assert(decreases_to!(v->Arr_0 => v->Arr_0@));
                    assert(decreases_to!(v->Arr_0@ => v->Arr_0@[i as int]));
                    assert(decreases_to!(*v => items@[i as int]));
                }
                append_json(out, &items[i]);
                proof {
                    assert(itemsv.take(i + 1) =~= itemsv.take(i as int).push(itemsv[i as int]));
                    lemma_arr_text_push(itemsv.take(i as int), itemsv[i as int]);
                    assert(out@ =~= old(out)@ + "["@ + arr_text(itemsv.take(i + 1)));
                }
                i += 1;
            }
            out.append("]");
            proof {
                assert(itemsv.take(itemsv.len() as int) =~= itemsv);
                assert(out@ =~= old(out)@ + json_text(v@));
            }
        },
        JsonValue::Obj(entries) => {
            let ghost entriesv: Seq<(Seq<char>, JsonView)> = obj_view(entries@);
            proof {
                lemma_obj_view_len(entries@);
            }
            out.append("{");
            let mut i: usize = 0;
            while i < entries.len()
                invariant
                    i <= entries@.len(),
                    *v is Obj,
                    *entries == v->Obj_0,
                    entriesv == obj_view(entries@),
                    entriesv.len() == entries@.len(),
                    out@ == old(out)@ + "{"@ + obj_text(entriesv.take(i as int)),
                decreases entries@.len() - i,
            {
                if i > 0 {
                    out.append(",");
                }
                proof {
                    lemma_obj_view_index(entries@, i as int);
                }
                let e = &entries[i];
                out.append("\"");
                append_escaped(out, e.0.as_str());
                out.append("\":");
                proof {
                    assert(decreases_to!(*v => v->Obj_0));
                    assert(decreases_to!(v->Obj_0 => v->Obj_0@));
                    assert(decreases_to!(v->Obj_0@ => v->Obj_0@[i as int]));
                    assert(decreases_to!(entries@[i as int] => entries@[i as int].1));
                    assert(decreases_to!(*v => entries@[i as int].1));
                }
                append_json(out, &e.1);
                proof {
                    assert(entriesv.take(i + 1) =~= entriesv.take(i as int).push(
                        entriesv[i as int],
                    ));
                    lemma_obj_text_push(entriesv.take(i as int), entriesv[i as int]);
                    assert(out@ =~= old(out)@ + "{"@ + obj_text(entriesv.take(i + 1)));
                }
                i += 1;
            }
            out.append("}");
            proof {
                assert(entriesv.take(entriesv.len() as int) =~= entriesv);
                assert(out@ =~= old(out)@ + json_text(v@));
            }
        },
    }
}

/// The compact text of one value.
pub fn json_to_string(v: &JsonValue) -> (r: String)
    ensures
        r@ == json_text(v@),
{
    let mut out = String::new();
    append_json(&mut out, v);
    proof {
        assert(out@ =~= json_text(v@));
    }
    out
}

} // verus!
