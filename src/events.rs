//! The feed's line format: a server-sent-event line `data: <json>` carries
//! one event object or an array of them. Each event becomes a key (its `id`)
//! and an optional value (its remaining fields as a JSON object, without
//! `type`).

use vstd::prelude::*;
use vstd::string::*;
use crate::provision::str_eq;

verus! {

/// A field of a decoded JSON object: its name, its value written as JSON
/// text, and the value itself where it is a string.
#[derive(Debug)]
pub struct JsonField {
    pub name: String,
    pub text: String,
    pub string_value: Option<String>,
}

/// An item of a top-level array: an object's fields, or any other value.
#[derive(Debug)]
pub enum JsonItem {
    Object(Vec<JsonField>),
    Other,
}

/// The top level of a decoded payload: an array, an object, or any other value.
#[derive(Debug)]
pub enum JsonDocument {
    Array(Vec<JsonItem>),
    Object(Vec<JsonField>),
    Other,
}

/// A field as plain values: name, JSON text, string value.
pub type FieldModel = (Seq<char>, Seq<char>, Option<Seq<char>>);

/// One parsed event: key and optional value.
pub type EventModel = (Seq<char>, Option<Seq<char>>);

/// The top level of a decoded payload as plain values.
pub enum DocumentShape {
    Array(Seq<Option<Seq<FieldModel>>>),
    Object(Seq<FieldModel>),
    Other,
}

/// What the JSON parser makes of a payload: `None` when it is not valid
/// JSON, else its top-level shape, with each object's fields in their order.
pub uninterp spec fn json_document(payload: Seq<char>) -> Option<DocumentShape>;

pub open spec fn opt_view(o: Option<String>) -> Option<Seq<char>> {
    match o {
        Some(s) => Some(s@),
        None => None,
    }
}

pub open spec fn field_model(f: JsonField) -> FieldModel {
    (f.name@, f.text@, opt_view(f.string_value))
}

pub open spec fn fields_model(fs: Seq<JsonField>) -> Seq<FieldModel> {
    fs.map_values(|f: JsonField| field_model(f))
}

/// An item as plain values: its fields when it is an object, else `None`.
pub open spec fn item_model(i: JsonItem) -> Option<Seq<FieldModel>> {
    match i {
        JsonItem::Object(fs) => Some(fields_model(fs@)),
        JsonItem::Other => None,
    }
}

pub open spec fn items_model(d: Seq<JsonItem>) -> Seq<Option<Seq<FieldModel>>> {
    d.map_values(|i: JsonItem| item_model(i))
}

impl View for JsonDocument {
    type V = DocumentShape;

    open spec fn view(&self) -> DocumentShape {
        match self {
            JsonDocument::Array(items) => DocumentShape::Array(items_model(items@)),
            JsonDocument::Object(fs) => DocumentShape::Object(fields_model(fs@)),
            JsonDocument::Other => DocumentShape::Other,
        }
    }
}

pub open spec fn events_model(es: Seq<(String, Option<String>)>) -> Seq<EventModel> {
    es.map_values(|e: (String, Option<String>)| (e.0@, opt_view(e.1)))
}

/// The longest digit run the parser accepts: each fraction digit lowers a
/// 16-bit exponent by one.
pub const MAX_DIGIT_RUN: usize = 32767;

pub open spec fn is_digit_byte(b: u8) -> bool {
    48 <= b <= 57
}

/// The number of ASCII digits that end just before position `i`.
pub open spec fn digit_run(b: Seq<u8>, i: int) -> nat
    decreases i,
{
    if i <= 0 || i > b.len() || !is_digit_byte(b[i - 1]) {
        0
    } else {
        digit_run(b, i - 1) + 1
    }
}

/// No run of consecutive ASCII digits is longer than `MAX_DIGIT_RUN`.
pub open spec fn digit_runs_bounded(b: Seq<u8>) -> bool {
    forall|i: int| 0 <= i <= b.len() ==> #[trigger] digit_run(b, i) <= MAX_DIGIT_RUN
}

/// Relies on json::parse, and on matching JsonValue's variants (with
/// Object::iter, JsonValue::dump and JsonValue::as_str) to hand the parsed
/// document over as plain values. A digit run longer than `MAX_DIGIT_RUN`
/// overflows the parser's 16-bit exponent.
#[verifier::external_body]
fn decode_document(payload: &str) -> (r: Option<JsonDocument>)
    requires
        digit_runs_bounded(vstd::utf8::encode_utf8(payload@)),
    ensures
        r is Some <==> json_document(payload@) is Some,
        r matches Some(d) ==> d@ == json_document(payload@)->Some_0,
{
    let fields = |o: &json::object::Object| -> Vec<JsonField> {
        o.iter().map(|(k, x)| JsonField {
            name: k.to_string(),
            text: x.dump(),
            string_value: x.as_str().map(|t| t.to_string()),
        }).collect()
    };
    Some(match json::parse(payload).ok()? {
        json::JsonValue::Array(items) => JsonDocument::Array(items.iter().map(|m| match m {
            json::JsonValue::Object(o) => JsonItem::Object(fields(o)),
            _ => JsonItem::Other,
        }).collect()),
        json::JsonValue::Object(o) => JsonDocument::Object(fields(&o)),
        _ => JsonDocument::Other,
    })
}

pub open spec fn hex_char(d: nat) -> char {
    "0123456789abcdef"@[d as int]
}

/// How one character is written inside a JSON string literal.
pub open spec fn escaped_char(c: char) -> Seq<char> {
    if c == '"' {
        seq!['\\', '"']
    } else if c == '\\' {
        seq!['\\', '\\']
    } else if c == '\u{8}' {
        seq!['\\', 'b']
    } else if c == '\u{c}' {
        seq!['\\', 'f']
    } else if c == '\n' {
        seq!['\\', 'n']
    } else if c == '\r' {
        seq!['\\', 'r']
    } else if c == '\t' {
        seq!['\\', 't']
    } else if (c as u32) < 32 {
        seq!['\\', 'u', '0', '0', hex_char((c as u32 / 16) as nat), hex_char((c as u32 % 16) as nat)]
    } else {
        seq![c]
    }
}

pub open spec fn escaped(s: Seq<char>) -> Seq<char>
    decreases s.len(),
{
    if s.len() == 0 {
        Seq::empty()
    } else {
        escaped(s.drop_last()) + escaped_char(s.last())
    }
}

/// The JSON string literal for `s`: quoted, with `"`, `\\` and control
/// characters escaped.
pub open spec fn json_quoted(s: Seq<char>) -> Seq<char> {
    seq!['"'] + escaped(s) + seq!['"']
}

/// Relies on json::stringify of a string: its JSON string literal.
#[verifier::external_body]
fn quote(s: &str) -> (r: String)
    ensures
        r@ == json_quoted(s@),
{
    json::stringify(s)
}

/// The prefix of a line that carries data.
pub open spec fn data_prefix() -> Seq<char> {
    "data: "@
}

/// The string value of the first field named `id`, if that value is a string.
pub open spec fn key_of(fs: Seq<FieldModel>) -> Option<Seq<char>>
    decreases fs.len(),
{
    if fs.len() == 0 {
        None
    } else if fs[0].0 == "id"@ {
        fs[0].2
    } else {
        key_of(fs.subrange(1, fs.len() as int))
    }
}

pub open spec fn is_meta(name: Seq<char>) -> bool {
    name == "type"@ || name == "id"@
}

/// The fields left once `type` and `id` are taken out, in their order.
pub open spec fn residual(fs: Seq<FieldModel>) -> Seq<FieldModel>
    decreases fs.len(),
{
    if fs.len() == 0 {
        fs
    } else if is_meta(fs.last().0) {
        residual(fs.drop_last())
    } else {
        residual(fs.drop_last()).push(fs.last())
    }
}

pub open spec fn member_text(f: FieldModel) -> Seq<char> {
    json_quoted(f.0) + ":"@ + f.1
}

/// The members of an object, as JSON text, separated by commas.
pub open spec fn members_text(fs: Seq<FieldModel>) -> Seq<char>
    decreases fs.len(),
{
    if fs.len() == 0 {
        Seq::empty()
    } else if fs.len() == 1 {
        member_text(fs[0])
    } else {
        members_text(fs.drop_last()) + ","@ + member_text(fs.last())
    }
}

pub open spec fn object_text(fs: Seq<FieldModel>) -> Seq<char> {
    "{"@ + members_text(fs) + "}"@
}

/// The event an item stands for: `None` unless it is an object with a
/// string `id`; the value is absent when nothing but `type` and `id` is left.
pub open spec fn entry_of(item: Option<Seq<FieldModel>>) -> Option<EventModel> {
    match item {
        None => None,
        Some(fs) => match key_of(fs) {
            None => None,
            Some(k) => Some(
                (
                    k,
                    if residual(fs).len() == 0 {
                        None
                    } else {
                        Some(object_text(residual(fs)))
                    },
                ),
            ),
        },
    }
}

/// The events of a document, or `None` when one of its items is malformed.
pub open spec fn document_events(doc: Seq<Option<Seq<FieldModel>>>) -> Option<Seq<EventModel>>
    decreases doc.len(),
{
    if doc.len() == 0 {
        Some(Seq::empty())
    } else {
        match (document_events(doc.drop_last()), entry_of(doc.last())) {
            (Some(es), Some(e)) => Some(es.push(e)),
            _ => None,
        }
    }
}

/// The items a document stands for: an array's members, or the single
/// top-level value.
pub open spec fn shape_items(d: DocumentShape) -> Seq<Option<Seq<FieldModel>>> {
    match d {
        DocumentShape::Array(items) => items,
        DocumentShape::Object(fs) => seq![Some(fs)],
        DocumentShape::Other => seq![None],
    }
}

/// The events of a payload: none unless it is JSON, within the parser's
/// digit-run limit, whose every item is a well-formed event.
pub open spec fn payload_events(payload: Seq<char>) -> Seq<EventModel> {
    if !digit_runs_bounded(vstd::utf8::encode_utf8(payload)) {
        Seq::empty()
    } else {
        match json_document(payload) {
            None => Seq::empty(),
            Some(doc) => match document_events(shape_items(doc)) {
                None => Seq::empty(),
                Some(es) => es,
            },
        }
    }
}

/// The events of a feed line: none unless it starts with `data: `; else
/// those of the rest of the line.
pub open spec fn line_events(line: Seq<char>) -> Seq<EventModel> {
    if line.len() >= data_prefix().len() && line.subrange(0, data_prefix().len() as int)
        == data_prefix() {
        payload_events(line.subrange(data_prefix().len() as int, line.len() as int))
    } else {
        Seq::empty()
    }
}

} // verus!

verus! {

/// The payload after `data: `, or `None` when the line does not start with it.
pub fn strip_data_prefix(line: &str) -> (r: Option<&str>)
    ensures
        r is Some <==> (line@.len() >= data_prefix().len() && line@.subrange(
            0,
            data_prefix().len() as int,
        ) == data_prefix()),
        r matches Some(p) ==> p@ == line@.subrange(data_prefix().len() as int, line@.len() as int),
{
    let prefix = "data: ";
    proof {
        reveal_strlit("data: ");
    }
    let n = line.unicode_len();
    if n < 6 {
        return None;
    }
    let mut i: usize = 0;
    while i < 6
        invariant
            n == line@.len(),
            6 <= n,
            prefix@ == data_prefix(),
            prefix@.len() == 6,
            i <= 6,
            forall|j: int| 0 <= j < i ==> line@[j] == prefix@[j],
        decreases 6 - i,
    {
        if line.get_char(i) != prefix.get_char(i) {
            assert(line@.subrange(0, 6)[i as int] != data_prefix()[i as int]);
            return None;
        }
        i = i + 1;
    }
    assert(line@.subrange(0, 6) =~= data_prefix());
    Some(line.substring_char(6, n))
}

fn is_named(f: &JsonField, name: &str) -> (r: bool)
    ensures
        r == (f.name@ == name@),
{
    str_eq(f.name.as_str(), name)
}

/// The key of an event object: the string value of its first `id` field.
pub fn find_key(fields: &Vec<JsonField>) -> (r: Option<String>)
    ensures
        opt_view(r) == key_of(fields_model(fields@)),
{
    let ghost fs = fields_model(fields@);
    proof {
        reveal_strlit("id");
    }
    assert(fs.subrange(0, fs.len() as int) =~= fs);
    let mut i: usize = 0;
    while i < fields.len()
        invariant
            i <= fields@.len(),
            fs == fields_model(fields@),
            key_of(fs) == key_of(fs.subrange(i as int, fs.len() as int)),
        decreases fields@.len() - i,
    {
        let ghost rest = fs.subrange(i as int, fs.len() as int);
        assert(rest.subrange(1, rest.len() as int) =~= fs.subrange(i + 1, fs.len() as int));
        if is_named(&fields[i], "id") {
            return match &fields[i].string_value {
                Some(s) => Some(s.clone()),
                None => None,
            };
        }
        i = i + 1;
    }
    None
}

/// The fields other than `type` and `id`, written as a JSON object; `None`
/// when no such field is left.
pub fn encode_residual(fields: &Vec<JsonField>) -> (r: Option<String>)
    ensures
        residual(fields_model(fields@)).len() == 0 ==> r is None,
        residual(fields_model(fields@)).len() > 0 ==> opt_view(r) == Some(
            object_text(residual(fields_model(fields@))),
        ),
{
    let ghost fs = fields_model(fields@);
    proof {
        reveal_strlit("id");
        reveal_strlit("type");
        reveal_strlit(",");
        reveal_strlit(":");
        reveal_strlit("{");
        reveal_strlit("}");
    }
    let mut text = String::new();
    let mut count: usize = 0;
    let mut i: usize = 0;
    while i < fields.len()
        invariant
            i <= fields@.len(),
            fs == fields_model(fields@),
            count == residual(fs.subrange(0, i as int)).len(),
            count <= i,
            text@ == members_text(residual(fs.subrange(0, i as int))),
        decreases fields@.len() - i,
    {
        let ghost prev = fs.subrange(0, i as int);
        let ghost next = fs.subrange(0, i + 1);
        assert(next.drop_last() =~= prev);
        assert(next.last() == field_model(fields@[i as int]));
        let f = &fields[i];
        if !is_named(f, "type") && !is_named(f, "id") {
            let ghost before = text@;
            if count > 0 {
                text.append(",");
            }
            assert(!is_meta(next.last().0));
            assert(residual(next) == residual(prev).push(next.last()));
            assert(residual(next).drop_last() =~= residual(prev));
            let q = quote(f.name.as_str());
            text.append(q.as_str());
            text.append(":");
            text.append(f.text.as_str());
            if count == 0 {
                assert(text@ =~= member_text(next.last()));
            } else {
                assert(text@ =~= before + ","@ + member_text(next.last()));
            }
            count = count + 1;
        }
        i = i + 1;
    }
    assert(fs.subrange(0, fs.len() as int) =~= fs);
    if count == 0 {
        None
    } else {
        let mut out = String::from_str("{");
        out.append(text.as_str());
        out.append("}");
        Some(out)
    }
}

/// The event an item of a document stands for, as `entry_of` states.
pub fn parse_entry(item: &JsonItem) -> (r: Option<(String, Option<String>)>)
    ensures
        match r {
            Some(e) => entry_of(item_model(*item)) == Some((e.0@, opt_view(e.1))),
            None => entry_of(item_model(*item)) is None,
        },
{
    match item {
        JsonItem::Other => None,
        JsonItem::Object(fields) => match find_key(fields) {
            None => None,
            Some(key) => Some((key, encode_residual(fields))),
        },
    }
}

} // verus!

verus! {

/// The events of a document's items, in item order; `None` when an item is
/// malformed.
pub fn document_entries(items: &Vec<JsonItem>) -> (r: Option<Vec<(String, Option<String>)>>)
    ensures
        match r {
            Some(es) => document_events(items_model(items@)) == Some(events_model(es@)),
            None => document_events(items_model(items@)) is None,
        },
{
    let ghost d = items_model(items@);
    let mut out: Vec<(String, Option<String>)> = Vec::new();
    let mut i: usize = 0;
    while i < items.len()
        invariant
            i <= items@.len(),
            d == items_model(items@),
            document_events(d.subrange(0, i as int)) == Some(events_model(out@)),
        decreases items@.len() - i,
    {
        let ghost next = d.subrange(0, i + 1);
        assert(next.drop_last() =~= d.subrange(0, i as int));
        match parse_entry(&items[i]) {
            Some(e) => {
                let ghost m = (e.0@, opt_view(e.1));
                let ghost prev = out@;
                out.push(e);
                assert(out@.drop_last() =~= prev);
                assert(events_model(out@) =~= events_model(prev).push(m));
            },
            None => {
                assert(document_events(next) is None);
                proof {
                    lemma_document_events_prefix(d, i + 1);
                }
                assert(d.subrange(0, d.len() as int) =~= d);
                return None;
            },
        }
        i = i + 1;
    }
    assert(d.subrange(0, d.len() as int) =~= d);
    Some(out)
}

/// Once a prefix of a document is malformed, so is the whole document.
pub proof fn lemma_document_events_prefix(d: Seq<Option<Seq<FieldModel>>>, k: int)
    requires
        0 <= k <= d.len(),
        document_events(d.subrange(0, k)) is None,
    ensures
        document_events(d) is None,
    decreases d.len() - k,
{
    if k < d.len() {
        assert(d.subrange(0, k + 1).drop_last() =~= d.subrange(0, k));
        lemma_document_events_prefix(d, k + 1);
    } else {
        assert(d.subrange(0, k) =~= d);
    }
}

/// Whether no run of ASCII digits in `payload` is longer than `MAX_DIGIT_RUN`.
pub fn digits_within_limit(payload: &str) -> (r: bool)
    ensures
        r == digit_runs_bounded(vstd::utf8::encode_utf8(payload@)),
{
    let b = payload.as_bytes();
    let ghost bs = vstd::utf8::encode_utf8(payload@);
    let mut run: usize = 0;
    let mut i: usize = 0;
    let mut within = true;
    while within && i < b.len()
        invariant
            b@ == bs,
            i <= bs.len(),
            run == digit_run(bs, i as int),
            within ==> forall|j: int| 0 <= j <= i ==> #[trigger] digit_run(bs, j) <= MAX_DIGIT_RUN,
            !within ==> !digit_runs_bounded(bs),
        decreases bs.len() - i,
    {
        let c = b[i];
        if 48 <= c && c <= 57 {
            run = run + 1;
        } else {
            run = 0;
        }
        assert(run == digit_run(bs, i + 1));
        if run > MAX_DIGIT_RUN {
            let ghost k: int = i + 1;
            assert(!(digit_run(bs, k) <= MAX_DIGIT_RUN));
            within = false;
        }
        i = i + 1;
    }
    within
}

/// The events of a payload, in order, as `payload_events` states.
pub fn parse_payload(payload: &str) -> (r: Vec<(String, Option<String>)>)
    ensures
        events_model(r@) == payload_events(payload@),
{
    let none: Vec<(String, Option<String>)> = Vec::new();
    proof {
        assert(events_model(none@) =~= Seq::<EventModel>::empty());
    }
    if !digits_within_limit(payload) {
        return none;
    }
    match decode_document(payload) {
        None => none,
        Some(JsonDocument::Array(items)) => match document_entries(&items) {
            Some(es) => es,
            None => none,
        },
        Some(JsonDocument::Object(fields)) => {
            let item = JsonItem::Object(fields);
            let ghost one = seq![item_model(item)];
            proof {
                assert(one.drop_last() =~= Seq::<Option<Seq<FieldModel>>>::empty());
                assert(document_events(one.drop_last()) == Some(Seq::<EventModel>::empty()));
                assert(one.last() == item_model(item));
            }
            match parse_entry(&item) {
                Some(e) => {
                    let mut out: Vec<(String, Option<String>)> = Vec::new();
                    out.push(e);
                    proof {
                        assert(events_model(out@) =~= seq![(e.0@, opt_view(e.1))]);
                        assert(document_events(one) == Some(Seq::<EventModel>::empty().push((e.0@, opt_view(e.1)))));
                        assert(Seq::<EventModel>::empty().push((e.0@, opt_view(e.1))) =~= events_model(out@));
                    }
                    out
                },
                None => {
                    assert(document_events(one) is None);
                    none
                },
            }
        },
        Some(JsonDocument::Other) => {
            proof {
                let one = seq![None::<Seq<FieldModel>>];
                assert(one.drop_last() =~= Seq::<Option<Seq<FieldModel>>>::empty());
            }
            none
        },
    }
}

/// The events carried by one feed line, in order: none unless it starts
/// with `data: `, the rest is JSON within the parser's digit-run limit, and
/// every item of it is an object with a string `id`.
pub fn parse_line(line: &str) -> (r: Vec<(String, Option<String>)>)
    ensures
        events_model(r@) == line_events(line@),
{
    match strip_data_prefix(line) {
        None => {
            let none: Vec<(String, Option<String>)> = Vec::new();
            proof {
                assert(events_model(none@) =~= Seq::<EventModel>::empty());
            }
            none
        },
        Some(payload) => parse_payload(payload),
    }
}

} // verus!

verus! {

/// A line that does not start with `data: ` carries no events.
pub proof fn lemma_no_prefix_no_events(line: Seq<char>)
    requires
        !(line.len() >= data_prefix().len() && line.subrange(0, data_prefix().len() as int)
            == data_prefix()),
    ensures
        line_events(line).len() == 0,
{
}

/// A payload that the parser reads as an array of two well-formed event
/// objects gives exactly those two events, in array order.
pub proof fn lemma_two_items_in_order(payload: Seq<char>, a: Seq<FieldModel>, b: Seq<FieldModel>)
    requires
        digit_runs_bounded(vstd::utf8::encode_utf8(payload)),
        json_document(payload) == Some(DocumentShape::Array(seq![Some(a), Some(b)])),
        key_of(a) is Some,
        key_of(b) is Some,
    ensures
        payload_events(payload).len() == 2,
        Some(payload_events(payload)[0]) == entry_of(Some(a)),
        Some(payload_events(payload)[1]) == entry_of(Some(b)),
{
    let d = seq![Some(a), Some(b)];
    let one = seq![Some(a)];
    let ea = entry_of(Some(a))->Some_0;
    let eb = entry_of(Some(b))->Some_0;
    assert(d.drop_last() =~= one);
    assert(one.drop_last() =~= Seq::<Option<Seq<FieldModel>>>::empty());
    assert(document_events(Seq::<Option<Seq<FieldModel>>>::empty()) == Some(Seq::<EventModel>::empty()));
    assert(document_events(one) == Some(Seq::<EventModel>::empty().push(ea)));
    assert(document_events(d) == Some(Seq::<EventModel>::empty().push(ea).push(eb)));
}

/// An event object with nothing but `type` and `id` has no value.
pub proof fn lemma_bare_object_has_no_value(fs: Seq<FieldModel>)
    requires
        key_of(fs) is Some,
        forall|i: int| 0 <= i < fs.len() ==> is_meta(#[trigger] fs[i].0),
    ensures
        entry_of(Some(fs)) == Some((key_of(fs)->Some_0, None::<Seq<char>>)),
{
    lemma_residual_of_meta(fs);
}

proof fn lemma_residual_of_meta(fs: Seq<FieldModel>)
    requires
        forall|i: int| 0 <= i < fs.len() ==> is_meta(#[trigger] fs[i].0),
    ensures
        residual(fs).len() == 0,
    decreases fs.len(),
{
    if fs.len() > 0 {
        let p = fs.drop_last();
        assert forall|i: int| 0 <= i < p.len() implies is_meta(#[trigger] p[i].0) by {
            assert(p[i] == fs[i]);
        }
        lemma_residual_of_meta(p);
        assert(is_meta(fs[fs.len() - 1].0));
    }
}

} // verus!
