//! The typed values, the records, the tables and the databases.

use crate::condition::{Condition, ConditionView};
use crate::custom_error::{CustomError, ErrorView};
use crate::floats::{
    bits_equal, float_eq, is_reader, read_float, readings, FloatValue, FloatView, Readings,
};
use crate::numerals::{int_text, parse_i64, read_i64, write_i64};
use crate::parsers::{condition_views, conditions_of_text, parse_conditions, texts};
use crate::text::{
    append, ascii_upper, comes_before, join, joined, lemma_text_lt_irreflexive,
    lemma_text_lt_total, lemma_text_lt_transitive, same_text, split, split_at_char, text_lt,
    to_ascii_upper, to_chars, to_text, to_upper, trim, trimmed, unicode_upper, views,
};
use crate::text_map::{
    distinct_names, has_name, lemma_put_distinct, lookup, put, Entries, TextMap,
};
use vstd::prelude::*;
use vstd::std_specs::cmp::PartialEqSpecImpl;
use vstd::string::*;

verus! {

/// A value of one of the four kinds that a field can have.
pub enum Value {
    Bool(bool),
    String(String),
    Int(i64),
    Float(FloatValue),
}

/// A value as the contracts see it.
pub ghost enum ValueView {
    Bool(bool),
    String(Seq<char>),
    Int(i64),
    Float(FloatView),
}

impl View for Value {
    type V = ValueView;

    open spec fn view(&self) -> ValueView {
        match self {
            Value::Bool(b) => ValueView::Bool(*b),
            Value::String(s) => ValueView::String(s@),
            Value::Int(i) => ValueView::Int(*i),
            Value::Float(f) => ValueView::Float(f@),
        }
    }
}

/// The view of a value that may be absent.
pub open spec fn value_view(r: Option<Value>) -> Option<ValueView> {
    match r {
        Some(v) => Some(v@),
        None => None,
    }
}

/// The truth value that a text spells.
pub open spec fn parse_bool(s: Seq<char>) -> Option<bool> {
    if s == "true"@ {
        Some(true)
    } else if s == "false"@ {
        Some(false)
    } else {
        None
    }
}

/// The value that the text `s` denotes under the type tag `tag`. The tag
/// is trimmed and compared without regard to ASCII case; the text is taken
/// as it stands. `floats` says what a `FLOAT` literal denotes.
pub open spec fn value_of_text(s: Seq<char>, tag: Seq<char>, floats: Readings) -> Option<
    ValueView,
> {
    let t = ascii_upper(trim(tag));
    if t == "INT"@ {
        match parse_i64(s) {
            Some(i) => Some(ValueView::Int(i)),
            None => None,
        }
    } else if t == "FLOAT"@ {
        match floats(s) {
            Some(f) => Some(ValueView::Float(f)),
            None => None,
        }
    } else if t == "STRING"@ {
        Some(ValueView::String(s))
    } else if t == "BOOL"@ {
        match parse_bool(s) {
            Some(b) => Some(ValueView::Bool(b)),
            None => None,
        }
    } else {
        None
    }
}

/// The text that shows a value.
pub open spec fn render(v: ValueView) -> Seq<char> {
    match v {
        ValueView::Bool(b) => if b {
            "true"@
        } else {
            "false"@
        },
        ValueView::String(s) => s,
        ValueView::Int(i) => int_text(i as int),
        ValueView::Float(f) => f.text,
    }
}

/// Two values are equal: they are of one kind and hold the same truth
/// value, text or integer, or floating-point patterns of equal numbers.
pub open spec fn value_eq(a: ValueView, b: ValueView) -> bool {
    match (a, b) {
        (ValueView::Bool(x), ValueView::Bool(y)) => x == y,
        (ValueView::String(x), ValueView::String(y)) => x == y,
        (ValueView::Int(x), ValueView::Int(y)) => x == y,
        (ValueView::Float(x), ValueView::Float(y)) => float_eq(x.bits, y.bits),
        _ => false,
    }
}

impl Clone for Value {
    fn clone(&self) -> (r: Self)
        ensures
            r@ == self@,
    {
        match self {
            Value::Bool(b) => Value::Bool(*b),
            Value::String(s) => Value::String(s.clone()),
            Value::Int(i) => Value::Int(*i),
            Value::Float(f) => Value::Float(f.clone()),
        }
    }
}

impl PartialEq for Value {
    fn eq(&self, other: &Value) -> (r: bool) {
        match (self, other) {
            (Value::Bool(x), Value::Bool(y)) => *x == *y,
            (Value::String(x), Value::String(y)) => *x == *y,
            (Value::Int(x), Value::Int(y)) => *x == *y,
            (Value::Float(x), Value::Float(y)) => bits_equal(x.bits, y.bits),
            _ => false,
        }
    }
}

impl PartialEqSpecImpl for Value {
    open spec fn obeys_eq_spec() -> bool {
        true
    }

    open spec fn eq_spec(&self, other: &Value) -> bool {
        value_eq(self@, other@)
    }
}

impl Value {
    /// Reads `s` as a value of the kind that `type_hint` names.
    pub fn from_string<F: Fn(&str) -> Option<FloatValue>>(
        s: &str,
        type_hint: &str,
        reader: &F,
    ) -> (r: Option<Self>)
        requires
            is_reader(reader),
        ensures
            value_view(r) == value_of_text(s@, type_hint@, readings(reader)),
    {
        let tag: Vec<char> = to_ascii_upper(&trimmed(&to_chars(type_hint)));
        if same_text(&tag, &to_chars("INT")) {
            match read_i64(&to_chars(s)) {
                Some(i) => Some(Value::Int(i)),
                None => None,
            }
        } else if same_text(&tag, &to_chars("FLOAT")) {
            match read_float(reader, s) {
                Some(f) => Some(Value::Float(f)),
                None => None,
            }
        } else if same_text(&tag, &to_chars("STRING")) {
            Some(Value::String(String::from_str(s)))
        } else if same_text(&tag, &to_chars("BOOL")) {
            let text: Vec<char> = to_chars(s);
            if same_text(&text, &to_chars("true")) {
                Some(Value::Bool(true))
            } else if same_text(&text, &to_chars("false")) {
                Some(Value::Bool(false))
            } else {
                None
            }
        } else {
            None
        }
    }

    /// The text that shows this value.
    pub fn as_string(&self) -> (r: String)
        ensures
            r@ == render(self@),
    {
        match self {
            Value::Bool(b) => if *b {
                String::from_str("true")
            } else {
                String::from_str("false")
            },
            Value::String(s) => s.clone(),
            Value::Int(i) => to_text(&write_i64(*i)),
            Value::Float(f) => f.text.clone(),
        }
    }
}

/// One row: the values of its fields by name.
pub struct Record {
    pub values: TextMap<Value>,
}

/// A record as the contracts see it: its fields with their values, in
/// order of entry.
pub type RecordView = Entries<ValueView>;

impl View for Record {
    type V = RecordView;

    open spec fn view(&self) -> RecordView {
        self.values@
    }
}

/// The text that shows one field of a record: its name, `=`, its value.
pub open spec fn entry_text(e: (Seq<char>, ValueView)) -> Seq<char> {
    e.0 + "="@ + render(e.1)
}

/// The text that shows a record: its fields in order, `, ` between them.
pub open spec fn record_text(r: RecordView) -> Seq<char> {
    join(r.map_values(|e: (Seq<char>, ValueView)| entry_text(e)), ", "@)
}

impl Record {
    /// No field occurs twice.
    pub open spec fn wf(&self) -> bool {
        self.values.wf()
    }

    /// The record without fields.
    pub fn new() -> (r: Self)
        ensures
            r@ == RecordView::empty(),
            r.wf(),
    {
        Record { values: TextMap::new() }
    }

    /// The record with the given values.
    pub fn with_values(values: TextMap<Value>) -> (r: Self)
        ensures
            r@ == values@,
            r.values == values,
    {
        Record { values }
    }

    /// The text that shows this record.
    pub fn to_string(&self) -> (r: String)
        ensures
            r@ == record_text(self@),
    {
        let mut parts: Vec<Vec<char>> = Vec::new();
        let mut i: usize = 0;
        let ghost shown = self@.map_values(|e: (Seq<char>, ValueView)| entry_text(e));
        while i < self.values.len()
            invariant
                i <= self@.len(),
                shown == self@.map_values(|e: (Seq<char>, ValueView)| entry_text(e)),
                parts@.len() == i,
                views(parts@) == shown.subrange(0, i as int),
            decreases self@.len() - i,
        {
            let mut part: Vec<char> = to_chars(self.values.name_at(i).as_str());
            part.push('=');
            append(&mut part, &to_chars(self.values.value_at(i).as_string().as_str()));
            proof {
                reveal_strlit("=");
                let next = parts@.push(part);
                assert forall|j: int| 0 <= j < i + 1 implies views(next)[j] == shown[j] by {
                    if j < i {
                        assert(views(parts@)[j] == shown.subrange(0, i as int)[j]);
                    }
                }
            }
            parts.push(part);
            i += 1;
        }
        assert(shown.subrange(0, shown.len() as int) =~= shown);
        to_text(&joined(&parts, &to_chars(", ")))
    }
}

impl Clone for Record {
    fn clone(&self) -> (r: Self)
        ensures
            r@ == self@,
    {
        let mut values: TextMap<Value> = TextMap { entries: Vec::new() };
        let mut i: usize = 0;
        while i < self.values.len()
            invariant
                i <= self@.len(),
                values.entries@.len() == i,
                values@ == self@.subrange(0, i as int),
            decreases self@.len() - i,
        {
            let ghost before = values@;
            let name: String = self.values.name_at(i).clone();
            let value: Value = self.values.value_at(i).clone();
            values.entries.push((name, value));
            proof {
                assert forall|j: int| 0 <= j < i + 1 implies values@[j] == self@[j] by {
                    if j < i {
                        assert(values@[j] == before[j]);
                    }
                }
            }
            i += 1;
        }
        Record { values }
    }
}

/// A primary key as the contracts see it: a text or an integer.
pub ghost enum KeyModel {
    Text(Seq<char>),
    Int(i64),
}

/// The order of keys: integers by size, texts by the order of texts.
pub open spec fn key_lt(a: KeyModel, b: KeyModel) -> bool {
    match (a, b) {
        (KeyModel::Int(x), KeyModel::Int(y)) => x < y,
        (KeyModel::Text(x), KeyModel::Text(y)) => text_lt(x, y),
        _ => false,
    }
}

/// The key that a value gives in a database keyed by texts (`text_keys`)
/// or by integers.
pub open spec fn key_of_value(v: ValueView, text_keys: bool) -> Option<KeyModel> {
    match v {
        ValueView::String(s) => if text_keys {
            Some(KeyModel::Text(s))
        } else {
            None
        },
        ValueView::Int(i) => if text_keys {
            None
        } else {
            Some(KeyModel::Int(i))
        },
        _ => None,
    }
}

/// The text that shows a key.
pub open spec fn key_text(k: KeyModel) -> Seq<char> {
    match k {
        KeyModel::Text(s) => s,
        KeyModel::Int(i) => int_text(i as int),
    }
}

/// The type tag that the key field of a table must declare.
pub open spec fn key_tag(text_keys: bool) -> Seq<char> {
    if text_keys {
        "STRING"@
    } else {
        "INT"@
    }
}

/// What a type must offer to serve as the primary key of a table.
pub trait DatabaseKey: Sized {
    /// Whether keys of this type are texts; they are integers otherwise.
    spec fn text_keys() -> bool;

    /// The key as the contracts see it.
    spec fn model(&self) -> KeyModel;

    fn is_equal_to(&self, other: &Self) -> (r: bool)
        ensures
            r == (self.model() == other.model()),
    ;

    fn is_less_than(&self, other: &Self) -> (r: bool)
        ensures
            r == key_lt(self.model(), other.model()),
    ;

    /// The key that a value gives; `ValueParseError` with the value's text
    /// where the value is of another kind.
    fn from_value(v: &Value) -> (r: Result<Self, CustomError>)
        ensures
            match r {
                Ok(k) => key_of_value(v@, Self::text_keys()) == Some(k.model()),
                Err(e) => key_of_value(v@, Self::text_keys()) is None && e@
                    == ErrorView::ValueParseError(render(v@)),
            },
    ;

    fn to_string_2(&self) -> (r: String)
        ensures
            r@ == key_text(self.model()),
    ;

    fn key_type_name() -> (r: &'static str)
        ensures
            r@ == key_tag(Self::text_keys()),
    ;
}

impl DatabaseKey for String {
    open spec fn text_keys() -> bool {
        true
    }

    open spec fn model(&self) -> KeyModel {
        KeyModel::Text(self@)
    }

    fn is_equal_to(&self, other: &Self) -> (r: bool) {
        *self == *other
    }

    fn is_less_than(&self, other: &Self) -> (r: bool) {
        comes_before(&to_chars(self.as_str()), &to_chars(other.as_str()))
    }

    fn from_value(v: &Value) -> (r: Result<Self, CustomError>) {
        match v {
            Value::String(s) => Ok(s.clone()),
            _ => Err(CustomError::ValueParseError(v.as_string())),
        }
    }

    fn to_string_2(&self) -> (r: String) {
        self.clone()
    }

    fn key_type_name() -> (r: &'static str) {
        "STRING"
    }
}

impl DatabaseKey for i64 {
    open spec fn text_keys() -> bool {
        false
    }

    open spec fn model(&self) -> KeyModel {
        KeyModel::Int(*self)
    }

    fn is_equal_to(&self, other: &Self) -> (r: bool) {
        *self == *other
    }

    fn is_less_than(&self, other: &Self) -> (r: bool) {
        *self < *other
    }

    fn from_value(v: &Value) -> (r: Result<Self, CustomError>) {
        match v {
            Value::Int(i) => Ok(*i),
            _ => Err(CustomError::ValueParseError(v.as_string())),
        }
    }

    fn to_string_2(&self) -> (r: String) {
        to_text(&write_i64(*self))
    }

    fn key_type_name() -> (r: &'static str) {
        "INT"
    }
}

/// No key comes before itself.
pub proof fn lemma_key_lt_irreflexive(a: KeyModel)
    ensures
        !key_lt(a, a),
{
    if let KeyModel::Text(s) = a {
        lemma_text_lt_irreflexive(s);
    }
}

/// The order of keys is transitive.
pub proof fn lemma_key_lt_transitive(a: KeyModel, b: KeyModel, c: KeyModel)
    requires
        key_lt(a, b),
        key_lt(b, c),
    ensures
        key_lt(a, c),
{
    match (a, b, c) {
        (KeyModel::Text(x), KeyModel::Text(y), KeyModel::Text(z)) => {
            lemma_text_lt_transitive(x, y, z);
        },
        _ => {},
    }
}

/// Of two different keys of one kind, one comes before the other.
pub proof fn lemma_key_lt_total(a: KeyModel, b: KeyModel)
    requires
        a is Text <==> b is Text,
    ensures
        key_lt(a, b) || key_lt(b, a) || a == b,
{
    match (a, b) {
        (KeyModel::Text(x), KeyModel::Text(y)) => {
            lemma_text_lt_total(x, y);
        },
        _ => {},
    }
}

/// The records of a table: each with its key, in ascending order of keys.
pub type Rows = Seq<(KeyModel, RecordView)>;

/// The keys ascend strictly.
pub open spec fn ascending(rows: Rows) -> bool {
    forall|i: int, j: int| 0 <= i < j < rows.len() ==> key_lt(#[trigger] rows[i].0, #[trigger] rows[j].0)
}

/// Some record is stored under the key `k`.
pub open spec fn holds_key(rows: Rows, k: KeyModel) -> bool {
    exists|i: int| 0 <= i < rows.len() && (#[trigger] rows[i]).0 == k
}

/// The number of leading records whose keys come before `k`: where a
/// record with the key `k` stands, or would be put, in ascending rows.
pub open spec fn slot(rows: Rows, k: KeyModel) -> int
    decreases rows.len(),
{
    if rows.len() > 0 && key_lt(rows[0].0, k) {
        1 + slot(rows.drop_first(), k)
    } else {
        0
    }
}

/// A position with only smaller keys before it, and no smaller key at it,
/// is the slot of `k`.
pub proof fn lemma_slot_is(rows: Rows, k: KeyModel, i: int)
    requires
        0 <= i <= rows.len(),
        forall|j: int| 0 <= j < i ==> key_lt((#[trigger] rows[j]).0, k),
        i < rows.len() ==> !key_lt(rows[i].0, k),
    ensures
        slot(rows, k) == i,
    decreases i,
{
    if i > 0 {
        let rest = rows.drop_first();
        lemma_slot_is(rest, k, i - 1);
    }
}

/// What the slot of `k` is in any rows.
pub proof fn lemma_slot(rows: Rows, k: KeyModel)
    ensures
        0 <= slot(rows, k) <= rows.len(),
        forall|j: int| 0 <= j < slot(rows, k) ==> key_lt((#[trigger] rows[j]).0, k),
        slot(rows, k) < rows.len() ==> !key_lt(rows[slot(rows, k)].0, k),
    decreases rows.len(),
{
    if rows.len() > 0 && key_lt(rows[0].0, k) {
        let rest = rows.drop_first();
        lemma_slot(rest, k);
        assert forall|j: int| 0 <= j < slot(rows, k) implies key_lt((#[trigger] rows[j]).0, k) by {
            if j > 0 {
                assert(rows[j] == rest[j - 1]);
            }
        }
    }
}

/// In ascending rows a key is stored exactly when it stands at its slot.
pub proof fn lemma_holds_key_at_slot(rows: Rows, k: KeyModel)
    requires
        ascending(rows),
    ensures
        holds_key(rows, k) <==> (slot(rows, k) < rows.len() && rows[slot(rows, k)].0 == k),
{
    lemma_slot(rows, k);
    if holds_key(rows, k) {
        lemma_key_lt_irreflexive(k);
    }
}

/// A table as the contracts see it.
pub ghost struct TableView {
    pub name: Seq<char>,
    pub key_field: Seq<char>,
    /// The declared fields, each with its type tag.
    pub fields: Entries<Seq<char>>,
    pub records: Rows,
}

/// The key under which a record belongs in a table with the key field
/// `key_field`.
pub open spec fn record_key(rec: RecordView, key_field: Seq<char>, text_keys: bool) -> Option<
    KeyModel,
> {
    match lookup(rec, key_field) {
        Some(v) => key_of_value(v, text_keys),
        None => None,
    }
}

impl TableView {
    /// The table is in order: no field is declared twice, the key field is
    /// declared, the records ascend by key, and each record has distinct
    /// fields and holds its own key in the key field.
    pub open spec fn wf(self, text_keys: bool) -> bool {
        &&& distinct_names(self.fields)
        &&& has_name(self.fields, self.key_field)
        &&& ascending(self.records)
        &&& forall|i: int|
            0 <= i < self.records.len() ==> {
                &&& distinct_names((#[trigger] self.records[i]).1)
                &&& record_key(self.records[i].1, self.key_field, text_keys) == Some(
                    self.records[i].0,
                )
            }
    }

    /// The table with other records.
    pub open spec fn with_records(self, records: Rows) -> TableView {
        TableView { records, ..self }
    }
}

/// The table after `rec` is added, or why it cannot be added: it lacks the
/// key field, its key value is of the wrong kind, or its key is taken.
pub open spec fn table_add(t: TableView, rec: RecordView, text_keys: bool) -> Result<
    TableView,
    ErrorView,
> {
    match lookup(rec, t.key_field) {
        None => Err(ErrorView::MissingField(t.key_field)),
        Some(v) => match key_of_value(v, text_keys) {
            None => Err(ErrorView::ValueParseError(render(v))),
            Some(k) => if holds_key(t.records, k) {
                Err(ErrorView::RecordAlreadyExists(record_text(rec)))
            } else {
                Ok(t.with_records(t.records.insert(slot(t.records, k), (k, rec))))
            },
        },
    }
}

/// The key that the text `key_text` names in the table `t`, or why it
/// names none.
pub open spec fn key_of_text(
    t: TableView,
    key_text: Seq<char>,
    floats: Readings,
    text_keys: bool,
) -> Result<KeyModel, ErrorView> {
    match lookup(t.fields, t.key_field) {
        None => Err(ErrorView::InvalidKey(t.key_field)),
        Some(tag) => match value_of_text(key_text, tag, floats) {
            None => Err(ErrorView::InvalidKey(key_text)),
            Some(v) => match key_of_value(v, text_keys) {
                None => Err(ErrorView::ValueParseError(render(v))),
                Some(k) => Ok(k),
            },
        },
    }
}

/// The table after the record with the key that `key_text` names is
/// removed, or why none can be removed.
pub open spec fn table_remove(
    t: TableView,
    key_text: Seq<char>,
    floats: Readings,
    text_keys: bool,
) -> Result<TableView, ErrorView> {
    match key_of_text(t, key_text, floats, text_keys) {
        Err(e) => Err(e),
        Ok(k) => if holds_key(t.records, k) {
            Ok(t.with_records(t.records.remove(slot(t.records, k))))
        } else {
            Err(ErrorView::InvalidKey(key_text))
        },
    }
}

/// The record that the first `=`-separated pieces of the comma-separated
/// `parts` spell, entered into `acc` in order. A piece that is empty after
/// trimming is passed over. The first piece that is no `name = value`, that
/// names an undeclared field, or whose value does not fit the field's type
/// fails the whole.
pub open spec fn record_of_parts(
    parts: Seq<Seq<char>>,
    fields: Entries<Seq<char>>,
    floats: Readings,
    acc: RecordView,
) -> Result<RecordView, ErrorView>
    decreases parts.len(),
{
    if parts.len() == 0 {
        Ok(acc)
    } else {
        let part = trim(parts[0]);
        let kv = split(part, '=');
        if part.len() == 0 {
            record_of_parts(parts.drop_first(), fields, floats, acc)
        } else if kv.len() < 2 {
            Err(ErrorView::FieldParseError(part))
        } else {
            match lookup(fields, trim(kv[0])) {
                None => Err(ErrorView::FieldParseError(kv[0])),
                Some(tag) => match value_of_text(trim(kv[1]), tag, floats) {
                    None => Err(ErrorView::FieldParseError(kv[0])),
                    Some(v) => record_of_parts(
                        parts.drop_first(),
                        fields,
                        floats,
                        put(acc, trim(kv[0]), v),
                    ),
                },
            }
        }
    }
}

/// The record that a comma-separated list of `name = value` spells under
/// the declared `fields`.
pub open spec fn record_of_text(text: Seq<char>, fields: Entries<Seq<char>>, floats: Readings) -> Result<
    RecordView,
    ErrorView,
> {
    record_of_parts(split(text, ','), fields, floats, RecordView::empty())
}

/// What `record_of_parts` yields has distinct fields if `acc` has.
pub proof fn lemma_record_of_parts_distinct(
    parts: Seq<Seq<char>>,
    fields: Entries<Seq<char>>,
    floats: Readings,
    acc: RecordView,
)
    requires
        distinct_names(acc),
    ensures
        record_of_parts(parts, fields, floats, acc) matches Ok(r) ==> distinct_names(r),
    decreases parts.len(),
{
    if parts.len() > 0 {
        let part = trim(parts[0]);
        let kv = split(part, '=');
        if part.len() == 0 {
            lemma_record_of_parts_distinct(parts.drop_first(), fields, floats, acc);
        } else if kv.len() >= 2 {
            match lookup(fields, trim(kv[0])) {
                None => {},
                Some(tag) => match value_of_text(trim(kv[1]), tag, floats) {
                    None => {},
                    Some(v) => {
                        lemma_put_distinct(acc, trim(kv[0]), v);
                        lemma_record_of_parts_distinct(
                            parts.drop_first(),
                            fields,
                            floats,
                            put(acc, trim(kv[0]), v),
                        );
                    },
                },
            }
        }
    }
}

/// In a table that is in order every key is of the kind of the
/// database's keys.
pub proof fn lemma_key_kind(t: TableView, text_keys: bool, i: int)
    requires
        t.wf(text_keys),
        0 <= i < t.records.len(),
    ensures
        t.records[i].0 is Text <==> text_keys,
{
}

/// In ascending rows no key stands twice.
pub proof fn lemma_keys_distinct(rows: Rows, i: int, j: int)
    requires
        ascending(rows),
        0 <= i < j < rows.len(),
    ensures
        rows[i].0 != rows[j].0,
{
    lemma_key_lt_irreflexive(rows[i].0);
}

/// Adding a record keeps a table in order.
pub proof fn lemma_add_keeps_order(t: TableView, rec: RecordView, text_keys: bool)
    requires
        t.wf(text_keys),
        distinct_names(rec),
        table_add(t, rec, text_keys) is Ok,
    ensures
        table_add(t, rec, text_keys)->Ok_0.wf(text_keys),
{
    let k = record_key(rec, t.key_field, text_keys)->Some_0;
    let rows = t.records;
    let i = slot(rows, k);
    let after = rows.insert(i, (k, rec));
    lemma_slot(rows, k);
    assert forall|a: int, b: int| 0 <= a < b < after.len() implies key_lt(
        #[trigger] after[a].0,
        #[trigger] after[b].0,
    ) by {
        if a == i {
            lemma_key_lt_total(rows[i].0, k);
            if b - 1 > i {
                lemma_key_lt_transitive(k, rows[i].0, rows[b - 1].0);
            }
        }
    }
}

/// Adding a record keeps every record that the table holds.
pub proof fn lemma_add_keeps_rows(t: TableView, rec: RecordView, text_keys: bool, j: int)
    requires
        table_add(t, rec, text_keys) is Ok,
        0 <= j < t.records.len(),
    ensures
        table_add(t, rec, text_keys)->Ok_0.records.contains(t.records[j]),
{
    let k = record_key(rec, t.key_field, text_keys)->Some_0;
    let i = slot(t.records, k);
    let after = t.records.insert(i, (k, rec));
    lemma_slot(t.records, k);
    let at = if j < i {
        j
    } else {
        j + 1
    };
    assert(after[at] == t.records[j]);
}

/// Removing a record keeps a table in order.
pub proof fn lemma_remove_keeps_order(
    t: TableView,
    key_text: Seq<char>,
    floats: Readings,
    text_keys: bool,
)
    requires
        t.wf(text_keys),
        table_remove(t, key_text, floats, text_keys) is Ok,
    ensures
        table_remove(t, key_text, floats, text_keys)->Ok_0.wf(text_keys),
{
    let k = key_of_text(t, key_text, floats, text_keys)->Ok_0;
    let rows = t.records;
    lemma_slot(rows, k);
    lemma_holds_key_at_slot(rows, k);
}

/// After a record is removed no record has its key.
pub proof fn lemma_removed_key_is_free(
    t: TableView,
    key_text: Seq<char>,
    floats: Readings,
    text_keys: bool,
)
    requires
        t.wf(text_keys),
        table_remove(t, key_text, floats, text_keys) is Ok,
    ensures
        !holds_key(
            table_remove(t, key_text, floats, text_keys)->Ok_0.records,
            key_of_text(t, key_text, floats, text_keys)->Ok_0,
        ),
        table_remove(t, key_text, floats, text_keys)->Ok_0.records.len() + 1 == t.records.len(),
{
    let k = key_of_text(t, key_text, floats, text_keys)->Ok_0;
    let rows = t.records;
    let i = slot(rows, k);
    lemma_slot(rows, k);
    lemma_holds_key_at_slot(rows, k);
    let after = rows.remove(i);
    if holds_key(after, k) {
        let a = choose|a: int| 0 <= a < after.len() && (#[trigger] after[a]).0 == k;
        let a0 = if a < i {
            a
        } else {
            a + 1
        };
    }
}

/// A table: its name, its schema and its records in ascending order of
/// their keys.
pub struct Table<K: DatabaseKey> {
    pub table_name: String,
    pub key_field: String,
    pub fields: TextMap<String>,
    pub records: Vec<(K, Record)>,
}

/// The rows that stored records stand for.
pub open spec fn rows_of<K: DatabaseKey>(records: Seq<(K, Record)>) -> Rows {
    Seq::new(records.len(), |i: int| (records[i].0.model(), records[i].1@))
}

impl<K: DatabaseKey> View for Table<K> {
    type V = TableView;

    open spec fn view(&self) -> TableView {
        TableView {
            name: self.table_name@,
            key_field: self.key_field@,
            fields: self.fields@,
            records: rows_of(self.records@),
        }
    }
}

impl<K: DatabaseKey> Table<K> {
    /// The table is in order, as `TableView::wf` says.
    pub open spec fn wf(&self) -> bool {
        self@.wf(K::text_keys())
    }

    fn new(table_name: String, key_field: String, fields: TextMap<String>) -> (r: Self)
        ensures
            r@ == (TableView {
                name: table_name@,
                key_field: key_field@,
                fields: fields@,
                records: Rows::empty(),
            }),
    {
        let r = Table { table_name, key_field, fields, records: Vec::new() };
        assert(r@.records =~= Rows::empty());
        r
    }

    /// The position of the first record whose key does not come before
    /// `key`.
    fn slot_of(&self, key: &K) -> (r: usize)
        ensures
            r == slot(self@.records, key.model()),
            r <= self.records@.len(),
    {
        let mut i: usize = 0;
        while i < self.records.len() && self.records[i].0.is_less_than(key)
            invariant
                i <= self.records@.len(),
                forall|j: int| 0 <= j < i ==> key_lt((#[trigger] self@.records[j]).0, key.model()),
            decreases self.records@.len() - i,
        {
            i += 1;
        }
        proof {
            lemma_slot_is(self@.records, key.model(), i as int);
        }
        i
    }

    /// Stores `record` under the key that its key field holds. Fails, and
    /// leaves the table as it is, where the record lacks the key field,
    /// holds a value of the wrong kind in it, or its key is taken.
    pub fn add_record(&mut self, record: Record) -> (r: Result<(), CustomError>)
        requires
            old(self).wf(),
            record.wf(),
        ensures
            final(self).wf(),
            match r {
                Ok(_) => table_add(old(self)@, record@, K::text_keys()) == Ok::<
                    TableView,
                    ErrorView,
                >(final(self)@),
                Err(e) => table_add(old(self)@, record@, K::text_keys()) == Err::<
                    TableView,
                    ErrorView,
                >(e@) && final(self)@ == old(self)@,
            },
    {
        let key: K = match record.values.get(&self.key_field) {
            Some(v) => match K::from_value(v) {
                Ok(k) => k,
                Err(e) => {
                    return Err(e);
                },
            },
            None => {
                return Err(CustomError::MissingField(self.key_field.clone()));
            },
        };
        let i: usize = self.slot_of(&key);
        let ghost k = key.model();
        let ghost rows = self@.records;
        proof {
            lemma_holds_key_at_slot(rows, k);
        }
        if i < self.records.len() && self.records[i].0.is_equal_to(&key) {
            return Err(CustomError::RecordAlreadyExists(record.to_string()));
        }
        let ghost rec = record@;
        self.records.insert(i, (key, record));
        proof {
            assert(self@.records =~= rows.insert(i as int, (k, rec)));
            lemma_add_keeps_order(old(self)@, rec, K::text_keys());
        }
        Ok(())
    }

    /// Removes the record with the key that `key_str` names. Fails, and
    /// leaves the table as it is, where the text names no key of the
    /// table's kind or no record has that key.
    pub fn remove_record<F: Fn(&str) -> Option<FloatValue>>(
        &mut self,
        key_str: &str,
        reader: &F,
    ) -> (r: Result<(), CustomError>)
        requires
            old(self).wf(),
            is_reader(reader),
        ensures
            final(self).wf(),
            match r {
                Ok(_) => table_remove(old(self)@, key_str@, readings(reader), K::text_keys())
                    == Ok::<TableView, ErrorView>(final(self)@),
                Err(e) => table_remove(old(self)@, key_str@, readings(reader), K::text_keys())
                    == Err::<TableView, ErrorView>(e@) && final(self)@ == old(self)@,
            },
    {
        let key_value: Value = match self.fields.get(&self.key_field) {
            Some(tag) => match Value::from_string(key_str, tag.as_str(), reader) {
                Some(v) => v,
                None => {
                    return Err(CustomError::InvalidKey(String::from_str(key_str)));
                },
            },
            None => {
                return Err(CustomError::InvalidKey(self.key_field.clone()));
            },
        };
        let key: K = match K::from_value(&key_value) {
            Ok(k) => k,
            Err(e) => {
                return Err(e);
            },
        };
        let i: usize = self.slot_of(&key);
        let ghost k = key.model();
        let ghost rows = self@.records;
        proof {
            lemma_holds_key_at_slot(rows, k);
        }
        if i < self.records.len() && self.records[i].0.is_equal_to(&key) {
            self.records.remove(i);
            proof {
                assert(self@.records =~= rows.remove(i as int));
                lemma_remove_keeps_order(
                    old(self)@,
                    key_str@,
                    readings(reader),
                    K::text_keys(),
                );
            }
            Ok(())
        } else {
            Err(CustomError::InvalidKey(String::from_str(key_str)))
        }
    }

    /// Reads a comma-separated list of `name = value` as a record of this
    /// table: each name a declared field, each value read by the field's
    /// type. The first piece that cannot be read fails the whole.
    pub fn parse_record<F: Fn(&str) -> Option<FloatValue>>(
        &mut self,
        record_str: &str,
        reader: &F,
    ) -> (r: Result<Record, CustomError>)
        requires
            is_reader(reader),
        ensures
            *final(self) == *old(self),
            match r {
                Ok(rec) => record_of_text(record_str@, old(self)@.fields, readings(reader)) == Ok::<
                    RecordView,
                    ErrorView,
                >(rec@) && rec.wf(),
                Err(e) => record_of_text(record_str@, old(self)@.fields, readings(reader))
                    == Err::<RecordView, ErrorView>(e@),
            },
    {
        let mut record: Record = Record::new();
        let parts: Vec<Vec<char>> = split_at_char(&to_chars(record_str), ',');
        let ghost all = split(record_str@, ',');
        let ghost fields = self@.fields;
        let ghost floats = readings(reader);
        let mut i: usize = 0;
        assert(all.subrange(0, all.len() as int) =~= all);
        while i < parts.len()
            invariant
                i <= parts@.len(),
                all == views(parts@),
                all == split(record_str@, ','),
                fields == self@.fields,
                floats == readings(reader),
                is_reader(reader),
                record.wf(),
                record_of_text(record_str@, fields, floats) == record_of_parts(
                    all.subrange(i as int, all.len() as int),
                    fields,
                    floats,
                    record@,
                ),
            decreases parts@.len() - i,
        {
            let ghost rest = all.subrange(i as int, all.len() as int);
            assert(rest.drop_first() =~= all.subrange(i + 1, all.len() as int));
            let part: Vec<char> = trimmed(&parts[i]);
            i += 1;
            if part.len() == 0 {
                continue ;
            }
            let kv: Vec<Vec<char>> = split_at_char(&part, '=');
            if kv.len() < 2 {
                return Err(CustomError::FieldParseError(to_text(&part)));
            }
            let name: String = to_text(&trimmed(&kv[0]));
            let value: Value = match self.fields.get(&name) {
                Some(tag) => match Value::from_string(
                    to_text(&trimmed(&kv[1])).as_str(),
                    tag.as_str(),
                    reader,
                ) {
                    Some(v) => v,
                    None => {
                        return Err(CustomError::FieldParseError(to_text(&kv[0])));
                    },
                },
                None => {
                    return Err(CustomError::FieldParseError(to_text(&kv[0])));
                },
            };
            record.values.insert(name, value);
        }
        Ok(record)
    }
}

/// The record satisfies the condition: it has the condition's field, and
/// the comparison of that field's value with the condition's value holds.
pub open spec fn condition_holds(c: ConditionView, rec: RecordView) -> bool {
    match lookup(rec, c.field_name) {
        Some(v) => c.op.holds(v, c.value),
        None => false,
    }
}

/// The record satisfies at least one of the conditions.
pub open spec fn holds_any(conditions: Seq<ConditionView>, rec: RecordView) -> bool {
    exists|i: int| 0 <= i < conditions.len() && condition_holds(#[trigger] conditions[i], rec)
}

/// The record passes the filter: there is none, or the record satisfies
/// at least one of its conditions.
pub open spec fn passes(conditions: Option<Seq<ConditionView>>, rec: RecordView) -> bool {
    match conditions {
        None => true,
        Some(cs) => holds_any(cs, rec),
    }
}

/// The record cut down to the requested fields, in the record's order.
pub open spec fn project(rec: RecordView, fields: Seq<Seq<char>>) -> RecordView {
    rec.filter(|e: (Seq<char>, ValueView)| fields.contains(e.0))
}

/// The rows that pass the filter, in order.
pub open spec fn passing(rows: Rows, conditions: Option<Seq<ConditionView>>) -> Rows {
    rows.filter(|row: (KeyModel, RecordView)| passes(conditions, row.1))
}

/// The records of the rows that pass the filter, each cut down to the
/// requested fields, in order of their keys.
pub open spec fn selected(
    rows: Rows,
    conditions: Option<Seq<ConditionView>>,
    fields: Seq<Seq<char>>,
) -> Seq<RecordView> {
    passing(rows, conditions).map_values(|row: (KeyModel, RecordView)| project(row.1, fields))
}

/// What a selection from the table `t` yields: the requested fields of
/// the records that pass the filter which `condition_text` spells, if it is
/// given; or why the filter cannot be read.
pub open spec fn table_select(
    t: TableView,
    fields: Seq<Seq<char>>,
    condition_text: Option<Seq<char>>,
    floats: Readings,
) -> Result<Seq<RecordView>, ErrorView> {
    match condition_text {
        None => Ok(selected(t.records, None, fields)),
        Some(text) => match conditions_of_text(text, t.fields, floats) {
            Err(e) => Err(e),
            Ok(cs) => Ok(selected(t.records, Some(cs), fields)),
        },
    }
}

/// The views of a vector of records.
pub open spec fn record_views(v: Seq<Record>) -> Seq<RecordView> {
    v.map_values(|r: Record| r@)
}

fn condition_met(c: &Condition, record: &Record) -> (r: bool)
    ensures
        r == condition_holds(c@, record@),
{
    match record.values.get(&c.field_name) {
        Some(v) => c.op.cmp(v, &c.value),
        None => false,
    }
}

fn any_met(conditions: &Vec<Condition>, record: &Record) -> (r: bool)
    ensures
        r == holds_any(condition_views(conditions@), record@),
{
    let mut i: usize = 0;
    while i < conditions.len()
        invariant
            i <= conditions@.len(),
            forall|j: int|
                0 <= j < i ==> !condition_holds(
                    #[trigger] condition_views(conditions@)[j],
                    record@,
                ),
        decreases conditions@.len() - i,
    {
        if condition_met(&conditions[i], record) {
            assert(condition_views(conditions@)[i as int] == conditions@[i as int]@);
            return true;
        }
        i += 1;
    }
    false
}

fn is_listed(fields: &Vec<String>, name: &String) -> (r: bool)
    ensures
        r == texts(fields@).contains(name@),
{
    let mut i: usize = 0;
    while i < fields.len()
        invariant
            i <= fields@.len(),
            forall|j: int| 0 <= j < i ==> (#[trigger] texts(fields@)[j]) != name@,
        decreases fields@.len() - i,
    {
        if fields[i] == *name {
            assert(texts(fields@)[i as int] == name@);
            return true;
        }
        i += 1;
    }
    false
}

fn projected(record: &Record, fields: &Vec<String>) -> (r: Record)
    ensures
        r@ == project(record@, texts(fields@)),
{
    let mut values: TextMap<Value> = TextMap { entries: Vec::new() };
    let mut i: usize = 0;
    let ghost wanted = texts(fields@);
    while i < record.values.len()
        invariant
            i <= record@.len(),
            wanted == texts(fields@),
            values@ == project(record@.subrange(0, i as int), wanted),
        decreases record@.len() - i,
    {
        let name: &String = record.values.name_at(i);
        if is_listed(fields, name) {
            let entry_name: String = name.clone();
            let entry_value: Value = record.values.value_at(i).clone();
            values.entries.push((entry_name, entry_value));
        }
        proof {
            let done = record@.subrange(0, i as int);
            assert(done.push(record@[i as int]) =~= record@.subrange(0, i + 1));
            done.lemma_filter_push(
                record@[i as int],
                |e: (Seq<char>, ValueView)| wanted.contains(e.0),
            );
        }
        i += 1;
    }
    assert(record@.subrange(0, record@.len() as int) =~= record@);
    Record { values }
}

impl<K: DatabaseKey> Table<K> {
    /// The requested fields of the records that satisfy at least one of the
    /// conditions which `conditions_str` spells, or of all records where
    /// none is given, in ascending order of their keys. A requested field
    /// that a record lacks is left out of it.
    pub fn select_records<F: Fn(&str) -> Option<FloatValue>>(
        &mut self,
        fields: Vec<String>,
        conditions_str: Option<String>,
        reader: &F,
    ) -> (r: Result<Vec<Record>, CustomError>)
        requires
            is_reader(reader),
        ensures
            *final(self) == *old(self),
            match r {
                Ok(records) => table_select(
                    old(self)@,
                    texts(fields@),
                    text_view(conditions_str),
                    readings(reader),
                ) == Ok::<Seq<RecordView>, ErrorView>(record_views(records@)),
                Err(e) => table_select(
                    old(self)@,
                    texts(fields@),
                    text_view(conditions_str),
                    readings(reader),
                ) == Err::<Seq<RecordView>, ErrorView>(e@),
            },
    {
        let conditions: Option<Vec<Condition>> = match &conditions_str {
            Some(s) => match parse_conditions(s.as_str(), &self.fields, reader) {
                Ok(c) => Some(c),
                Err(e) => {
                    return Err(e);
                },
            },
            None => None,
        };
        let ghost filter = filter_view(conditions);
        let ghost rows = self@.records;
        let ghost wanted = texts(fields@);
        let mut result: Vec<Record> = Vec::new();
        let mut i: usize = 0;
        while i < self.records.len()
            invariant
                i <= self.records@.len(),
                *self == *old(self),
                rows == self@.records,
                wanted == texts(fields@),
                filter == filter_view(conditions),
                record_views(result@) == selected(rows.subrange(0, i as int), filter, wanted),
            decreases self.records@.len() - i,
        {
            let record: &Record = &self.records[i].1;
            let keep: bool = match &conditions {
                Some(c) => any_met(c, record),
                None => true,
            };
            if keep {
                let cut: Record = projected(record, &fields);
                result.push(cut);
            }
            proof {
                let done = rows.subrange(0, i as int);
                assert(done.push(rows[i as int]) =~= rows.subrange(0, i + 1));
                done.lemma_filter_push(
                    rows[i as int],
                    |row: (KeyModel, RecordView)| passes(filter, row.1),
                );
                if keep {
                    assert(passing(rows.subrange(0, i + 1), filter) == passing(done, filter).push(
                        rows[i as int],
                    ));
                    assert(selected(rows.subrange(0, i + 1), filter, wanted) =~= selected(
                        done,
                        filter,
                        wanted,
                    ).push(project(rows[i as int].1, wanted)));
                }
            }
            i += 1;
        }
        assert(rows.subrange(0, rows.len() as int) =~= rows);
        Ok(result)
    }
}

/// The views of the conditions of a filter that may be absent.
pub open spec fn filter_view(conditions: Option<Vec<Condition>>) -> Option<Seq<ConditionView>> {
    match conditions {
        Some(c) => Some(condition_views(c@)),
        None => None,
    }
}

/// The view of a text that may be absent.
pub open spec fn text_view(s: Option<String>) -> Option<Seq<char>> {
    match s {
        Some(s) => Some(s@),
        None => None,
    }
}

/// A database as the contracts see it: its tables in order of creation.
pub type DatabaseView = Seq<TableView>;

/// The position of the table named `name`; `db.len()` where there is none.
pub open spec fn table_index(db: DatabaseView, name: Seq<char>) -> int
    decreases db.len(),
{
    if db.len() == 0 {
        0
    } else if db[0].name == name {
        0
    } else {
        1 + table_index(db.drop_first(), name)
    }
}

/// The database has a table named `name`.
pub open spec fn has_table(db: DatabaseView, name: Seq<char>) -> bool {
    table_index(db, name) < db.len()
}

/// No two tables have one name, and every table is in order.
pub open spec fn database_wf(db: DatabaseView, text_keys: bool) -> bool {
    &&& forall|i: int, j: int| 0 <= i < j < db.len() ==> (#[trigger] db[i]).name != (#[trigger] db[j]).name
    &&& forall|i: int| 0 <= i < db.len() ==> (#[trigger] db[i]).wf(text_keys)
}

/// Where `table_index` points: at the first table of the name, and past
/// the end exactly when there is none.
pub proof fn lemma_table_index(db: DatabaseView, name: Seq<char>)
    ensures
        0 <= table_index(db, name) <= db.len(),
        has_table(db, name) ==> db[table_index(db, name)].name == name,
        forall|j: int| 0 <= j < table_index(db, name) ==> (#[trigger] db[j]).name != name,
    decreases db.len(),
{
    if db.len() > 0 && db[0].name != name {
        let t = db.drop_first();
        lemma_table_index(t, name);
        assert forall|j: int| 0 <= j < table_index(db, name) implies (#[trigger] db[j]).name
            != name by {
            if j > 0 {
                assert(db[j] == t[j - 1]);
            }
        }
    }
}

/// A table of the name with none before it is where `table_index` points.
pub proof fn lemma_table_index_is(db: DatabaseView, name: Seq<char>, i: int)
    requires
        0 <= i <= db.len(),
        i < db.len() ==> db[i].name == name,
        forall|j: int| 0 <= j < i ==> (#[trigger] db[j]).name != name,
    ensures
        table_index(db, name) == i,
{
    lemma_table_index(db, name);
}

/// The type that the key field is declared with, trimmed and in upper
/// case; empty where the key field is not declared.
pub open spec fn declared_key_type(fields: Entries<Seq<char>>, key_field: Seq<char>) -> Seq<char> {
    match lookup(fields, key_field) {
        Some(tag) => unicode_upper(trim(tag)),
        None => Seq::<char>::empty(),
    }
}

/// The empty table with the given name and schema.
pub open spec fn empty_table(
    name: Seq<char>,
    key_field: Seq<char>,
    fields: Entries<Seq<char>>,
) -> TableView {
    TableView { name, key_field, fields, records: Rows::empty() }
}

/// The database after the table is created, given the upper-case type
/// `key_type` of its key field; or why it cannot be created: the name is
/// taken, or the key field is not declared with the type of the database's
/// keys.
pub open spec fn database_create_typed(
    db: DatabaseView,
    name: Seq<char>,
    key_field: Seq<char>,
    fields: Entries<Seq<char>>,
    key_type: Seq<char>,
    text_keys: bool,
) -> Result<DatabaseView, ErrorView> {
    if has_table(db, name) {
        Err(ErrorView::TableAlreadyExists(name))
    } else if !has_name(fields, key_field) || key_type != key_tag(text_keys) {
        Err(ErrorView::WrongKeyType)
    } else {
        Ok(db.push(empty_table(name, key_field, fields)))
    }
}

/// The database after the table is created, or why it cannot be created.
pub open spec fn database_create(
    db: DatabaseView,
    name: Seq<char>,
    key_field: Seq<char>,
    fields: Entries<Seq<char>>,
    text_keys: bool,
) -> Result<DatabaseView, ErrorView> {
    database_create_typed(
        db,
        name,
        key_field,
        fields,
        declared_key_type(fields, key_field),
        text_keys,
    )
}

/// The tables of one database, all keyed by values of the type `K`.
pub struct Database<K: DatabaseKey> {
    pub tables: Vec<Table<K>>,
}

impl<K: DatabaseKey> View for Database<K> {
    type V = DatabaseView;

    open spec fn view(&self) -> DatabaseView {
        Seq::new(self.tables@.len(), |i: int| self.tables@[i]@)
    }
}

impl<K: DatabaseKey> Database<K> {
    /// No two tables have one name, and every table is in order.
    pub open spec fn wf(&self) -> bool {
        database_wf(self@, K::text_keys())
    }

    /// The database without tables.
    pub fn new() -> (r: Self)
        ensures
            r@ == DatabaseView::empty(),
            r.wf(),
    {
        let r = Database { tables: Vec::new() };
        r
    }

    /// The position of the table named `name`, or the number of tables.
    fn index_of(&self, name: &str) -> (r: usize)
        ensures
            r == table_index(self@, name@),
            r <= self.tables@.len(),
    {
        let wanted: String = String::from_str(name);
        let mut i: usize = 0;
        while i < self.tables.len()
            invariant
                i <= self.tables@.len(),
                wanted@ == name@,
                forall|j: int| 0 <= j < i ==> (#[trigger] self@[j]).name != name@,
            decreases self.tables@.len() - i,
        {
            if self.tables[i].table_name == wanted {
                proof {
                    lemma_table_index_is(self@, name@, i as int);
                }
                return i;
            }
            i += 1;
        }
        proof {
            lemma_table_index_is(self@, name@, i as int);
        }
        i
    }

    /// Creates the empty table `name` with the given schema. Fails, and
    /// leaves the database as it is, where the name is taken
    /// (`TableAlreadyExists`), or where the key field is not declared with
    /// the type of this database's keys (`WrongKeyType`).
    pub fn create_table(&mut self, name: String, key_field: String, fields: TextMap<String>) -> (r:
        Result<(), CustomError>)
        requires
            old(self).wf(),
            fields.wf(),
        ensures
            final(self).wf(),
            match r {
                Ok(_) => database_create(old(self)@, name@, key_field@, fields@, K::text_keys())
                    == Ok::<DatabaseView, ErrorView>(final(self)@),
                Err(e) => database_create(old(self)@, name@, key_field@, fields@, K::text_keys())
                    == Err::<DatabaseView, ErrorView>(e@) && final(self)@ == old(self)@,
            },
    {
        let key_type: String = match fields.get(&key_field) {
            Some(tag) => to_upper(to_text(&trimmed(&to_chars(tag.as_str()))).as_str()),
            None => String::new(),
        };
        self.create_table_typed(name, key_field, fields, key_type)
    }

    /// Creates the empty table `name` with the given schema, given the
    /// type that its key field is declared with, trimmed and in upper case.
    pub fn create_table_typed(
        &mut self,
        name: String,
        key_field: String,
        fields: TextMap<String>,
        key_type: String,
    ) -> (r: Result<(), CustomError>)
        requires
            old(self).wf(),
            fields.wf(),
        ensures
            final(self).wf(),
            match r {
                Ok(_) => database_create_typed(
                    old(self)@,
                    name@,
                    key_field@,
                    fields@,
                    key_type@,
                    K::text_keys(),
                ) == Ok::<DatabaseView, ErrorView>(final(self)@),
                Err(e) => database_create_typed(
                    old(self)@,
                    name@,
                    key_field@,
                    fields@,
                    key_type@,
                    K::text_keys(),
                ) == Err::<DatabaseView, ErrorView>(e@) && final(self)@ == old(self)@,
            },
    {
        if self.index_of(name.as_str()) < self.tables.len() {
            return Err(CustomError::TableAlreadyExists(name));
        }
        if !fields.contains_key(&key_field) || !same_text(
            &to_chars(key_type.as_str()),
            &to_chars(K::key_type_name()),
        ) {
            return Err(CustomError::WrongKeyType());
        }
        let ghost before = self@;
        let table: Table<K> = Table::new(name, key_field, fields);
        proof {
            lemma_table_index(before, table@.name);
        }
        self.tables.push(table);
        proof {
            assert(self@ =~= before.push(table@));
        }
        Ok(())
    }

    /// The table named `table_name`, to be changed in place.
    pub fn get_table_mut(&mut self, table_name: &str) -> (r: Result<&mut Table<K>, CustomError>)
        ensures
            match r {
                Ok(t) => {
                    let i = table_index(old(self)@, table_name@);
                    &&& has_table(old(self)@, table_name@)
                    &&& *t == old(self).tables@[i]
                    &&& final(self).tables@ == old(self).tables@.update(i, *final(t))
                },
                Err(e) => !has_table(old(self)@, table_name@) && e@ == ErrorView::TableNotFound(
                    table_name@,
                ) && *final(self) == *old(self),
            },
    {
        let i: usize = self.index_of(table_name);
        if i < self.tables.len() {
            Ok(&mut self.tables[i])
        } else {
            Err(CustomError::TableNotFound(String::from_str(table_name)))
        }
    }
}

/// The names of the entries, in order.
pub open spec fn names_of<T>(m: Entries<T>) -> Seq<Seq<char>> {
    m.map_values(|e: (Seq<char>, T)| e.0)
}

/// The names of the fields that the table `table_name` declares, in
/// order, or `TableNotFound`.
pub open spec fn fields_of_table(db: DatabaseView, table_name: Seq<char>) -> Result<
    Seq<Seq<char>>,
    ErrorView,
> {
    if has_table(db, table_name) {
        Ok(names_of(db[table_index(db, table_name)].fields))
    } else {
        Err(ErrorView::TableNotFound(table_name))
    }
}

fn field_names<K: DatabaseKey>(database: &Database<K>, table_name: &str) -> (r: Result<
    Vec<String>,
    CustomError,
>)
    ensures
        match r {
            Ok(names) => fields_of_table(database@, table_name@) == Ok::<
                Seq<Seq<char>>,
                ErrorView,
            >(texts(names@)),
            Err(e) => fields_of_table(database@, table_name@) == Err::<
                Seq<Seq<char>>,
                ErrorView,
            >(e@),
        },
{
    let i: usize = database.index_of(table_name);
    if i >= database.tables.len() {
        return Err(CustomError::TableNotFound(String::from_str(table_name)));
    }
    let fields: &TextMap<String> = &database.tables[i].fields;
    let mut names: Vec<String> = Vec::new();
    let mut k: usize = 0;
    while k < fields.len()
        invariant
            k <= fields@.len(),
            names@.len() == k,
            forall|j: int| 0 <= j < k ==> (#[trigger] names@[j])@ == fields@[j].0,
        decreases fields@.len() - k,
    {
        names.push(fields.name_at(k).clone());
        k += 1;
    }
    assert(texts(names@) =~= names_of(fields@));
    Ok(names)
}

/// A database keyed by texts or a database keyed by integers.
pub enum AnyDatabase {
    StringDatabase(Database<String>),
    IntDatabase(Database<i64>),
}

impl AnyDatabase {
    /// The tables of the database, whichever its keys.
    pub open spec fn tables(&self) -> DatabaseView {
        match self {
            AnyDatabase::StringDatabase(d) => d@,
            AnyDatabase::IntDatabase(d) => d@,
        }
    }

    /// Whether the database is keyed by texts.
    pub open spec fn text_keys(&self) -> bool {
        self is StringDatabase
    }

    /// The database is in order.
    pub open spec fn wf(&self) -> bool {
        database_wf(self.tables(), self.text_keys())
    }

    /// The names of the tables, in order of creation.
    pub fn get_table_names(&self) -> (r: Vec<String>)
        ensures
            texts(r@) == self.tables().map_values(|t: TableView| t.name),
    {
        match self {
            AnyDatabase::StringDatabase(database) => table_names(database),
            AnyDatabase::IntDatabase(database) => table_names(database),
        }
    }

    /// The names of the types that a field can be declared with.
    pub fn get_possible_types(&self) -> (r: Vec<&'static str>)
        ensures
            r@.len() == 4,
            r@[0]@ == "Int"@,
            r@[1]@ == "String"@,
            r@[2]@ == "Float"@,
            r@[3]@ == "Bool"@,
    {
        let mut r: Vec<&'static str> = Vec::new();
        r.push("Int");
        r.push("String");
        r.push("Float");
        r.push("Bool");
        r
    }

    /// The name of the type of this database's keys.
    pub fn get_key_type(&self) -> (r: String)
        ensures
            r@ == if self.text_keys() {
                "String"@
            } else {
                "Int"@
            },
    {
        match self {
            AnyDatabase::StringDatabase(_) => String::from_str("String"),
            AnyDatabase::IntDatabase(_) => String::from_str("Int"),
        }
    }

    /// The names of the fields that the table `table_name` declares, in
    /// order.
    pub fn get_fields(&self, table_name: &str) -> (r: Result<Vec<String>, CustomError>)
        ensures
            match r {
                Ok(names) => fields_of_table(self.tables(), table_name@) == Ok::<
                    Seq<Seq<char>>,
                    ErrorView,
                >(texts(names@)),
                Err(e) => fields_of_table(self.tables(), table_name@) == Err::<
                    Seq<Seq<char>>,
                    ErrorView,
                >(e@),
            },
    {
        match self {
            AnyDatabase::StringDatabase(database) => field_names(database, table_name),
            AnyDatabase::IntDatabase(database) => field_names(database, table_name),
        }
    }
}

fn table_names<K: DatabaseKey>(database: &Database<K>) -> (r: Vec<String>)
    ensures
        texts(r@) == database@.map_values(|t: TableView| t.name),
{
    let mut r: Vec<String> = Vec::new();
    let mut i: usize = 0;
    while i < database.tables.len()
        invariant
            i <= database.tables@.len(),
            r@.len() == i,
            forall|j: int| 0 <= j < i ==> (#[trigger] r@[j])@ == database@[j].name,
        decreases database.tables@.len() - i,
    {
        r.push(database.tables[i].table_name.clone());
        i += 1;
    }
    r
}

/// A database that has no table `name` gets none by holding other tables:
/// after a table of that name is added at the end, it is found there.
pub proof fn lemma_table_index_push(db: DatabaseView, t: TableView)
    requires
        !has_table(db, t.name),
    ensures
        table_index(db.push(t), t.name) == db.len(),
        has_table(db.push(t), t.name),
{
    lemma_table_index(db, t.name);
    let after = db.push(t);
    lemma_table_index_is(after, t.name, db.len() as int);
}

/// The key field is declared, with the type of the database's keys.
pub open spec fn key_declared(
    fields: Entries<Seq<char>>,
    key_field: Seq<char>,
    text_keys: bool,
) -> bool {
    has_name(fields, key_field) && declared_key_type(fields, key_field) == key_tag(text_keys)
}

/// Creating a table whose name is free: where the key field is declared
/// with the type of the database's keys, the database gains exactly the
/// empty table with the declared schema, which is then found under its
/// name; where it is not, the creation fails with `WrongKeyType`.
pub proof fn lemma_create(
    db: DatabaseView,
    name: Seq<char>,
    key_field: Seq<char>,
    fields: Entries<Seq<char>>,
    text_keys: bool,
)
    requires
        !has_table(db, name),
    ensures
        key_declared(fields, key_field, text_keys) ==> {
            &&& database_create(db, name, key_field, fields, text_keys) == Ok::<
                DatabaseView,
                ErrorView,
            >(db.push(empty_table(name, key_field, fields)))
            &&& has_table(db.push(empty_table(name, key_field, fields)), name)
            &&& db.push(empty_table(name, key_field, fields))[table_index(
                db.push(empty_table(name, key_field, fields)),
                name,
            )] == empty_table(name, key_field, fields)
        },
        !key_declared(fields, key_field, text_keys) ==> database_create(
            db,
            name,
            key_field,
            fields,
            text_keys,
        ) == Err::<DatabaseView, ErrorView>(ErrorView::WrongKeyType),
{
    lemma_table_index_push(db, empty_table(name, key_field, fields));
}

/// A record whose key is taken cannot be added: the attempt fails with
/// `RecordAlreadyExists`, whatever else the record holds.
pub proof fn lemma_add_taken_key(t: TableView, rec: RecordView, k: KeyModel, text_keys: bool)
    requires
        record_key(rec, t.key_field, text_keys) == Some(k),
        holds_key(t.records, k),
    ensures
        table_add(t, rec, text_keys) == Err::<TableView, ErrorView>(
            ErrorView::RecordAlreadyExists(record_text(rec)),
        ),
{
}

/// A record that was added cannot be added again, and the table that
/// holds it has one record more than the table before.
pub proof fn lemma_add_twice(t: TableView, rec: RecordView, text_keys: bool)
    requires
        table_add(t, rec, text_keys) is Ok,
    ensures
        table_add(t, rec, text_keys)->Ok_0.records.len() == t.records.len() + 1,
        table_add(table_add(t, rec, text_keys)->Ok_0, rec, text_keys) == Err::<
            TableView,
            ErrorView,
        >(ErrorView::RecordAlreadyExists(record_text(rec))),
{
    let k = record_key(rec, t.key_field, text_keys)->Some_0;
    let after = table_add(t, rec, text_keys)->Ok_0;
    lemma_slot(t.records, k);
    assert(after.records[slot(t.records, k)].0 == k);
}

/// Without conditions every row passes.
pub proof fn lemma_passing_all(rows: Rows)
    ensures
        passing(rows, None) == rows,
    decreases rows.len(),
{
    reveal(Seq::filter);
    if rows.len() > 0 {
        lemma_passing_all(rows.drop_last());
    }
}

/// A selection without conditions yields one record for each record of
/// the table, in the table's order: the record cut down to the requested
/// fields.
pub proof fn lemma_select_all(t: TableView, fields: Seq<Seq<char>>, floats: Readings)
    ensures
        table_select(t, fields, None, floats) == Ok::<Seq<RecordView>, ErrorView>(
            t.records.map_values(|row: (KeyModel, RecordView)| project(row.1, fields)),
        ),
{
    lemma_passing_all(t.records);
}

/// A record cut down to requested fields holds only requested fields,
/// each with the value that the record has for it.
pub proof fn lemma_project_fields(rec: RecordView, fields: Seq<Seq<char>>, i: int)
    requires
        0 <= i < project(rec, fields).len(),
    ensures
        fields.contains(project(rec, fields)[i].0),
        rec.contains(project(rec, fields)[i]),
{
    let wanted = |e: (Seq<char>, ValueView)| fields.contains(e.0);
    rec.lemma_filter_contains_rev(wanted, project(rec, fields)[i]);
}

/// A record that was added is among the results of a selection without
/// conditions, cut down to the requested fields.
pub proof fn lemma_select_added(
    t: TableView,
    rec: RecordView,
    fields: Seq<Seq<char>>,
    floats: Readings,
    text_keys: bool,
)
    requires
        table_add(t, rec, text_keys) is Ok,
    ensures
        table_select(table_add(t, rec, text_keys)->Ok_0, fields, None, floats) matches Ok(
            records,
        ) && records.len() == t.records.len() + 1 && records.contains(project(rec, fields)),
{
    let k = record_key(rec, t.key_field, text_keys)->Some_0;
    let after = table_add(t, rec, text_keys)->Ok_0;
    lemma_slot(t.records, k);
    lemma_select_all(after, fields, floats);
    let records = after.records.map_values(|row: (KeyModel, RecordView)| project(row.1, fields));
    assert(records[slot(t.records, k)] == project(rec, fields));
}

/// A row that passes the filter is among the passing rows.
pub proof fn lemma_passing_contains(rows: Rows, conditions: Option<Seq<ConditionView>>, j: int)
    requires
        0 <= j < rows.len(),
        passes(conditions, rows[j].1),
    ensures
        passing(rows, conditions).contains(rows[j]),
{
}

/// A record that satisfies one of the conditions is selected, whatever
/// the other conditions say of it.
pub proof fn lemma_select_any(
    t: TableView,
    fields: Seq<Seq<char>>,
    condition_text: Seq<char>,
    floats: Readings,
    i: int,
    j: int,
)
    requires
        conditions_of_text(condition_text, t.fields, floats) is Ok,
        0 <= i < conditions_of_text(condition_text, t.fields, floats)->Ok_0.len(),
        0 <= j < t.records.len(),
        condition_holds(
            conditions_of_text(condition_text, t.fields, floats)->Ok_0[i],
            t.records[j].1,
        ),
    ensures
        table_select(t, fields, Some(condition_text), floats) matches Ok(records)
            && records.contains(project(t.records[j].1, fields)),
{
    let cs = conditions_of_text(condition_text, t.fields, floats)->Ok_0;
    lemma_passing_contains(t.records, Some(cs), j);
    let kept = passing(t.records, Some(cs));
    let at = choose|at: int| 0 <= at < kept.len() && kept[at] == t.records[j];
    let records = selected(t.records, Some(cs), fields);
    assert(records[at] == project(t.records[j].1, fields));
}

} // verus!
