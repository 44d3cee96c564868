//! JSON objects as plain values.

use crate::text::same_text;
use vstd::prelude::*;

verus! {

/// A value of a JSON object. Of lists and objects only the kind is kept.
#[derive(Debug)]
pub enum JsonValue {
    Null,
    Bool(bool),
    /// A number, as text.
    Number(String),
    Text(String),
    List,
    Object,
}

/// A value of a JSON object, with its text.
pub enum JsonView {
    Null,
    Bool(bool),
    Number(Seq<char>),
    Text(Seq<char>),
    List,
    Object,
}

impl View for JsonValue {
    type V = JsonView;

    open spec fn view(&self) -> JsonView {
        match *self {
            JsonValue::Null => JsonView::Null,
            JsonValue::Bool(b) => JsonView::Bool(b),
            JsonValue::Number(s) => JsonView::Number(s@),
            JsonValue::Text(s) => JsonView::Text(s@),
            JsonValue::List => JsonView::List,
            JsonValue::Object => JsonView::Object,
        }
    }
}

/// A field of a JSON object.
#[derive(Debug)]
pub struct JsonField {
    pub key: String,
    pub value: JsonValue,
}

/// The key and the value of a field.
pub open spec fn field_views(f: Seq<JsonField>) -> Seq<(Seq<char>, JsonView)> {
    Seq::new(f.len(), |i: int| (f[i].key@, f[i].value@))
}

/// The fields of the JSON document, none where it is no object, or the message
/// of the error: what `serde_json::from_str` makes of the text.
pub uninterp spec fn json_of(text: Seq<char>) -> Result<Seq<(Seq<char>, JsonView)>, Seq<char>>;

/// `serde_json::from_str` into a `serde_json::Value`: the fields of the
/// document, or the message of the parser's error. What the parser makes of a
/// text is a function of the text and is left to the parser.
#[verifier::external_body]
pub(crate) fn parse_json(text: &str) -> (r: Result<Vec<JsonField>, String>)
    ensures
        match r {
            Ok(fields) => json_of(text@) == Ok::<Seq<(Seq<char>, JsonView)>, Seq<char>>(
                field_views(fields@),
            ),
            Err(e) => json_of(text@) == Err::<Seq<(Seq<char>, JsonView)>, Seq<char>>(e@),
        },
{
    let v: serde_json::Value = serde_json::from_str(text).map_err(|e| e.to_string())?;
    let plain = |v: &serde_json::Value| match v {
        serde_json::Value::Null => JsonValue::Null,
        serde_json::Value::Bool(b) => JsonValue::Bool(*b),
        serde_json::Value::Number(n) => JsonValue::Number(n.to_string()),
        serde_json::Value::String(s) => JsonValue::Text(s.clone()),
        serde_json::Value::Array(_) => JsonValue::List,
        serde_json::Value::Object(_) => JsonValue::Object,
    };
    let fields = v.as_object().map(|m| {
        m.iter().map(|(k, v)| JsonField { key: k.clone(), value: plain(v) }).collect()
    });
    Ok(fields.unwrap_or_default())
}

/// The value of the field with this key; null where there is none.
pub open spec fn field(fields: Seq<(Seq<char>, JsonView)>, key: Seq<char>) -> JsonView
    decreases fields.len(),
{
    if fields.len() == 0 {
        JsonView::Null
    } else if fields[0].0 == key {
        fields[0].1
    } else {
        field(fields.skip(1), key)
    }
}

/// The value of the field with this key.
fn find_field<'a>(fields: &'a Vec<JsonField>, key: &str) -> (r: Option<&'a JsonValue>)
    ensures
        match r {
            Some(v) => v@ == field(field_views(fields@), key@),
            None => field(field_views(fields@), key@) is Null,
        },
{
    let ghost all = field_views(fields@);
    let n = fields.len();
    let mut i: usize = 0;
    assert(all.skip(0) =~= all);
    while i < n
        invariant
            i <= n == fields@.len() == all.len(),
            all == field_views(fields@),
            field(all, key@) == field(all.skip(i as int), key@),
        decreases n - i,
    {
        assert(all.skip(i as int)[0] == (fields@[i as int].key@, fields@[i as int].value@));
        assert(all.skip(i as int).skip(1) =~= all.skip(i + 1));
        if same_text(fields[i].key.as_str(), key) {
            return Some(&fields[i].value);
        }
        i = i + 1;
    }
    None
}

/// The text of the field with this key, where it is text.
pub open spec fn text_field(fields: Seq<(Seq<char>, JsonView)>, key: Seq<char>) -> Option<
    Seq<char>,
> {
    match field(fields, key) {
        JsonView::Text(s) => Some(s),
        _ => None,
    }
}

/// The number of the field with this key, as text, where it is a number.
pub open spec fn number_field(fields: Seq<(Seq<char>, JsonView)>, key: Seq<char>) -> Option<
    Seq<char>,
> {
    match field(fields, key) {
        JsonView::Number(s) => Some(s),
        _ => None,
    }
}

/// The field with this key is true.
pub open spec fn true_field(fields: Seq<(Seq<char>, JsonView)>, key: Seq<char>) -> bool {
    field(fields, key) == JsonView::Bool(true)
}

/// The text of the field with this key, where it is text.
pub fn read_text(fields: &Vec<JsonField>, key: &str) -> (r: Option<String>)
    ensures
        match r {
            Some(s) => text_field(field_views(fields@), key@) == Some(s@),
            None => text_field(field_views(fields@), key@) is None,
        },
{
    match find_field(fields, key) {
        Some(v) => match v {
            JsonValue::Text(s) => Some(s.clone()),
            _ => None,
        },
        None => None,
    }
}

/// The number of the field with this key, as text, where it is a number.
pub fn read_number(fields: &Vec<JsonField>, key: &str) -> (r: Option<String>)
    ensures
        match r {
            Some(s) => number_field(field_views(fields@), key@) == Some(s@),
            None => number_field(field_views(fields@), key@) is None,
        },
{
    match find_field(fields, key) {
        Some(v) => match v {
            JsonValue::Number(s) => Some(s.clone()),
            _ => None,
        },
        None => None,
    }
}

/// Whether the field with this key is true.
pub fn read_true(fields: &Vec<JsonField>, key: &str) -> (r: bool)
    ensures
        r == true_field(field_views(fields@), key@),
{
    match find_field(fields, key) {
        Some(v) => match v {
            JsonValue::Bool(b) => *b,
            _ => false,
        },
        None => false,
    }
}

/// The value of a field is that of the first field with its key; where no field
/// has the key, it is null.
pub proof fn law_first_field_counts(fields: Seq<(Seq<char>, JsonView)>, key: Seq<char>)
    ensures
        ({
            ||| exists|i: int|
                {
                    &&& 0 <= i < fields.len()
                    &&& #[trigger] fields[i] == (key, field(fields, key))
                    &&& forall|k: int| 0 <= k < i ==> (#[trigger] fields[k]).0 != key
                }
            ||| field(fields, key) is Null && forall|k: int|
                0 <= k < fields.len() ==> (#[trigger] fields[k]).0 != key
        }),
    decreases fields.len(),
{
    if fields.len() > 0 {
        if fields[0].0 == key {
            assert(fields[0] == (key, field(fields, key)));
        } else {
            let rest = fields.skip(1);
            law_first_field_counts(rest, key);
            if exists|i: int|
                {
                    &&& 0 <= i < rest.len()
                    &&& #[trigger] rest[i] == (key, field(rest, key))
                    &&& forall|k: int| 0 <= k < i ==> (#[trigger] rest[k]).0 != key
                } {
                let i = choose|i: int|
                    {
                        &&& 0 <= i < rest.len()
                        &&& #[trigger] rest[i] == (key, field(rest, key))
                        &&& forall|k: int| 0 <= k < i ==> (#[trigger] rest[k]).0 != key
                    };
                assert(fields[i + 1] == (key, field(fields, key)));
                assert forall|k: int| 0 <= k < i + 1 implies (#[trigger] fields[k]).0 != key by {
                    if k > 0 {
                        assert(rest[k - 1].0 != key);
                    }
                }
            } else {
                assert forall|k: int| 0 <= k < fields.len() implies (#[trigger] fields[k]).0
                    != key by {
                    if k > 0 {
                        assert(rest[k - 1].0 != key);
                    }
                }
            }
        }
    }
}

/// A field is read as what it is: text as text, a number as a number, and truth
/// as truth; of no other kind is anything read.
pub proof fn law_fields_are_read_as_they_are(
    fields: Seq<(Seq<char>, JsonView)>,
    key: Seq<char>,
    t: Seq<char>,
)
    ensures
        text_field(fields, key) == Some(t) <==> field(fields, key) == JsonView::Text(t),
        number_field(fields, key) == Some(t) <==> field(fields, key) == JsonView::Number(t),
        true_field(fields, key) <==> field(fields, key) == JsonView::Bool(true),
{
}

} // verus!
