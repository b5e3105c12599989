//! The events of a data generation log.

use vstd::prelude::*;

use crate::order::chars_of;
use crate::record::{copy_opt_list, opt_seq};
use crate::text::{clone_opt, opt_text, push_char, same_text};

verus! {

/// A blob that an event carries. Reads may leave its bytes behind.
#[derive(Debug, Clone, PartialEq)]
pub struct DatagenBlobValue {
    pub bytes: Option<Vec<u8>>,
    pub size: i64,
    pub checksum: Option<String>,
}

/// The value of a field event. A float is the bit pattern of a 64-bit float,
/// and JSON is the compact text of the document.
#[derive(Debug, Clone, PartialEq)]
pub enum DatagenValue {
    Int(i64),
    Float(u64),
    Bool(bool),
    Str(String),
    Json(String),
    Blob(DatagenBlobValue),
}

/// The model of a [`DatagenBlobValue`].
#[verifier::ext_equal]
pub struct BlobView {
    pub bytes: Option<Seq<u8>>,
    pub size: i64,
    pub checksum: Option<Seq<char>>,
}

/// The model of a [`DatagenValue`].
#[verifier::ext_equal]
pub enum ValueView {
    Int(i64),
    Float(u64),
    Bool(bool),
    Str(Seq<char>),
    Json(Seq<char>),
    Blob(BlobView),
}

impl View for DatagenBlobValue {
    type V = BlobView;

    open spec fn view(&self) -> BlobView {
        BlobView {
            bytes: opt_seq(self.bytes),
            size: self.size,
            checksum: opt_text(self.checksum),
        }
    }
}

impl View for DatagenValue {
    type V = ValueView;

    open spec fn view(&self) -> ValueView {
        match self {
            DatagenValue::Int(value) => ValueView::Int(*value),
            DatagenValue::Float(bits) => ValueView::Float(*bits),
            DatagenValue::Bool(flag) => ValueView::Bool(*flag),
            DatagenValue::Str(text) => ValueView::Str(text@),
            DatagenValue::Json(text) => ValueView::Json(text@),
            DatagenValue::Blob(blob) => ValueView::Blob(blob@),
        }
    }
}

/// The model of an optional value.
pub open spec fn opt_value(value: Option<DatagenValue>) -> Option<ValueView> {
    match value {
        Some(value) => Some(value@),
        None => None,
    }
}

/// One immutable event of a data generation log.
///
/// The time is in microseconds since the Unix epoch, which is what the log keeps
/// of it; `event_ts_below` are the nanoseconds beyond the microsecond, and a
/// thousand more within a leap second. The event type, the step kind and the
/// status are the words that stand in the log, and `query_tags` is the compact
/// JSON text of the tags.
#[derive(Debug, Clone, PartialEq)]
pub struct DatagenEvent {
    pub event_id: String,
    pub item_id: String,
    pub root_item_id: String,
    pub parent_item_id: Option<String>,
    pub item_seq: i64,
    pub checkpoint_id: String,
    pub event_type: String,
    pub step_name: Option<String>,
    pub step_kind: Option<String>,
    pub step_index: Option<i64>,
    pub enclosing_step: Option<String>,
    pub selector_step: Option<String>,
    pub attempt: i32,
    pub run_id: String,
    pub writer_epoch: String,
    pub field_name: Option<String>,
    pub field_type: Option<String>,
    pub codec_version: Option<i32>,
    pub value: Option<DatagenValue>,
    pub query_tags: Option<String>,
    pub status: Option<String>,
    pub error_type: Option<String>,
    pub error_dump: Option<String>,
    pub traceback: Option<String>,
    pub event_ts: i64,
    pub event_ts_below: u32,
    pub schema_version: i32,
}

/// The model of a [`DatagenEvent`].
#[verifier::ext_equal]
pub struct EventView {
    pub event_id: Seq<char>,
    pub item_id: Seq<char>,
    pub root_item_id: Seq<char>,
    pub parent_item_id: Option<Seq<char>>,
    pub item_seq: i64,
    pub checkpoint_id: Seq<char>,
    pub event_type: Seq<char>,
    pub step_name: Option<Seq<char>>,
    pub step_kind: Option<Seq<char>>,
    pub step_index: Option<i64>,
    pub enclosing_step: Option<Seq<char>>,
    pub selector_step: Option<Seq<char>>,
    pub attempt: i32,
    pub run_id: Seq<char>,
    pub writer_epoch: Seq<char>,
    pub field_name: Option<Seq<char>>,
    pub field_type: Option<Seq<char>>,
    pub codec_version: Option<i32>,
    pub value: Option<ValueView>,
    pub query_tags: Option<Seq<char>>,
    pub status: Option<Seq<char>>,
    pub error_type: Option<Seq<char>>,
    pub error_dump: Option<Seq<char>>,
    pub traceback: Option<Seq<char>>,
    pub event_ts: i64,
    pub event_ts_below: u32,
    pub schema_version: i32,
}

impl View for DatagenEvent {
    type V = EventView;

    open spec fn view(&self) -> EventView {
        EventView {
            event_id: self.event_id@,
            item_id: self.item_id@,
            root_item_id: self.root_item_id@,
            parent_item_id: opt_text(self.parent_item_id),
            item_seq: self.item_seq,
            checkpoint_id: self.checkpoint_id@,
            event_type: self.event_type@,
            step_name: opt_text(self.step_name),
            step_kind: opt_text(self.step_kind),
            step_index: self.step_index,
            enclosing_step: opt_text(self.enclosing_step),
            selector_step: opt_text(self.selector_step),
            attempt: self.attempt,
            run_id: self.run_id@,
            writer_epoch: self.writer_epoch@,
            field_name: opt_text(self.field_name),
            field_type: opt_text(self.field_type),
            codec_version: self.codec_version,
            value: opt_value(self.value),
            query_tags: opt_text(self.query_tags),
            status: opt_text(self.status),
            error_type: opt_text(self.error_type),
            error_dump: opt_text(self.error_dump),
            traceback: opt_text(self.traceback),
            event_ts: self.event_ts,
            event_ts_below: self.event_ts_below,
            schema_version: self.schema_version,
        }
    }
}

/// The models of events.
pub open spec fn event_views(events: Seq<DatagenEvent>) -> Seq<EventView> {
    Seq::new(events.len(), |i: int| events[i]@)
}

/// The bits of a float without its sign.
pub open spec fn magnitude(bits: u64) -> u64 {
    bits % 0x8000_0000_0000_0000
}

/// Two floats compare as equal: neither is a NaN, and they have the same bits
/// or are both zero.
pub open spec fn floats_equal(left: u64, right: u64) -> bool {
    &&& magnitude(left) <= 0x7FF0_0000_0000_0000
    &&& magnitude(right) <= 0x7FF0_0000_0000_0000
    &&& left == right || (magnitude(left) == 0 && magnitude(right) == 0)
}

/// At this place of a compact JSON text, outside its strings, stands the number
/// minus zero.
pub open spec fn negative_zero_at(text: Seq<char>, at: int) -> bool {
    &&& 0 <= at && at + 4 <= text.len()
    &&& text[at] == '-' && text[at + 1] == '0' && text[at + 2] == '.' && text[at + 3] == '0'
    &&& at + 4 == text.len() || text[at + 4] == ',' || text[at + 4] == ']' || text[at + 4] == '}'
}

/// A compact JSON text from a place on, with its zeros unsigned: two documents
/// are equal where these texts are. `in_string` tells whether the place is
/// inside a string.
pub open spec fn unsigned_zeros_from(text: Seq<char>, at: int, in_string: bool) -> Seq<char>
    decreases text.len() - at,
{
    if at < 0 || at >= text.len() {
        Seq::empty()
    } else if in_string {
        if text[at] == '\\' && at + 1 < text.len() {
            seq![text[at], text[at + 1]] + unsigned_zeros_from(text, at + 2, true)
        } else {
            seq![text[at]] + unsigned_zeros_from(text, at + 1, text[at] != '"')
        }
    } else if negative_zero_at(text, at) {
        unsigned_zeros_from(text, at + 1, false)
    } else {
        seq![text[at]] + unsigned_zeros_from(text, at + 1, text[at] == '"')
    }
}

/// A compact JSON text with its zeros unsigned.
pub open spec fn unsigned_zeros(text: Seq<char>) -> Seq<char> {
    unsigned_zeros_from(text, 0, false)
}

/// Two compact JSON texts are equal documents: they differ at most in the signs
/// of their zeros.
pub open spec fn json_equal(left: Seq<char>, right: Seq<char>) -> bool {
    unsigned_zeros(left) == unsigned_zeros(right)
}

/// Two optional compact JSON texts are equal documents.
pub open spec fn opt_json_equal(left: Option<Seq<char>>, right: Option<Seq<char>>) -> bool {
    match (left, right) {
        (Some(first), Some(second)) => json_equal(first, second),
        (None, None) => true,
        _ => false,
    }
}

fn with_unsigned_zeros(text: &str) -> (result: String)
    ensures
        result@ == unsigned_zeros(text@),
{
    let chars = chars_of(text);
    let ghost all = text@;
    let mut result = String::new();
    let mut in_string = false;
    let mut at: usize = 0;
    assert(result@ + unsigned_zeros_from(all, 0, false) =~= unsigned_zeros(all));
    while at < chars.len()
        invariant
            at <= chars.len(),
            chars@ == all,
            result@ + unsigned_zeros_from(all, at as int, in_string) == unsigned_zeros(all),
        decreases chars.len() - at,
    {
        let ghost before = result@;
        let next = chars[at];
        if in_string && next == '\\' && at + 1 < chars.len() {
            push_char(&mut result, next);
            push_char(&mut result, chars[at + 1]);
            proof {
                let rest = unsigned_zeros_from(all, at + 2, true);
                assert(result@ + rest =~= before + (seq![all[at as int], all[at + 1]] + rest));
            }
            at = at + 2;
        } else {
            let dropped = !in_string && chars.len() - at >= 4 && next == '-' && chars[at + 1] == '0'
                && chars[at + 2] == '.' && chars[at + 3] == '0' && (chars.len() - at == 4
                || chars[at + 4] == ',' || chars[at + 4] == ']' || chars[at + 4] == '}');
            assert(dropped == (!in_string && negative_zero_at(all, at as int)));
            if !dropped {
                let inside = if in_string {
                    next != '"'
                } else {
                    next == '"'
                };
                push_char(&mut result, next);
                proof {
                    let rest = unsigned_zeros_from(all, at + 1, inside);
                    assert(result@ + rest =~= before + (seq![all[at as int]] + rest));
                }
                in_string = inside;
            }
            at = at + 1;
        }
    }
    assert(result@ + Seq::<char>::empty() =~= result@);
    result
}

fn equal_json(left: &str, right: &str) -> (result: bool)
    ensures
        result == json_equal(left@, right@),
{
    let first = with_unsigned_zeros(left);
    let second = with_unsigned_zeros(right);
    same_text(first.as_str(), second.as_str())
}

fn equal_opt_json(left: &Option<String>, right: &Option<String>) -> (result: bool)
    ensures
        result == opt_json_equal(opt_text(*left), opt_text(*right)),
{
    match (left, right) {
        (None, None) => true,
        (Some(first), Some(second)) => equal_json(first.as_str(), second.as_str()),
        _ => false,
    }
}

/// Two values compare as equal.
pub open spec fn values_equal(left: Option<ValueView>, right: Option<ValueView>) -> bool {
    match (left, right) {
        (Some(ValueView::Float(a)), Some(ValueView::Float(b))) => floats_equal(a, b),
        (Some(ValueView::Json(a)), Some(ValueView::Json(b))) => json_equal(a, b),
        _ => left == right,
    }
}

/// Two events hold the same content.
pub open spec fn same_content(left: EventView, right: EventView) -> bool {
    &&& EventView { value: None, query_tags: None, ..left } == EventView {
        value: None,
        query_tags: None,
        ..right
    }
    &&& values_equal(left.value, right.value)
    &&& opt_json_equal(left.query_tags, right.query_tags)
}

fn float_magnitude(bits: u64) -> (result: u64)
    ensures
        result == magnitude(bits),
{
    bits % 0x8000_0000_0000_0000
}

fn equal_floats(left: u64, right: u64) -> (result: bool)
    ensures
        result == floats_equal(left, right),
{
    let first = float_magnitude(left);
    let second = float_magnitude(right);
    first <= 0x7FF0_0000_0000_0000 && second <= 0x7FF0_0000_0000_0000 && (left == right || (first
        == 0 && second == 0))
}

/// Whether two optional texts are equal.
pub fn same_opt_text(left: &Option<String>, right: &Option<String>) -> (result: bool)
    ensures
        result == (opt_text(*left) == opt_text(*right)),
{
    match (left, right) {
        (None, None) => true,
        (Some(first), Some(second)) => same_text(first.as_str(), second.as_str()),
        _ => false,
    }
}

fn equal_bytes(first: &Vec<u8>, second: &Vec<u8>) -> (result: bool)
    ensures
        result == (first@ == second@),
{
    if first.len() != second.len() {
        return false;
    }
    let mut index: usize = 0;
    while index < first.len()
        invariant
            index <= first.len(),
            first@.len() == second@.len(),
            forall|k: int| 0 <= k < index ==> #[trigger] first@[k] == second@[k],
        decreases first.len() - index,
    {
        if first[index] != second[index] {
            assert(first@[index as int] != second@[index as int]);
            return false;
        }
        index = index + 1;
    }
    assert(first@ =~= second@);
    true
}

fn same_bytes(left: &Option<Vec<u8>>, right: &Option<Vec<u8>>) -> (result: bool)
    ensures
        result == (opt_seq(*left) == opt_seq(*right)),
{
    match (left, right) {
        (None, None) => true,
        (Some(first), Some(second)) => equal_bytes(first, second),
        _ => false,
    }
}

fn equal_values(left: &Option<DatagenValue>, right: &Option<DatagenValue>) -> (result: bool)
    ensures
        result == values_equal(opt_value(*left), opt_value(*right)),
{
    match (left, right) {
        (None, None) => true,
        (Some(DatagenValue::Int(a)), Some(DatagenValue::Int(b))) => *a == *b,
        (Some(DatagenValue::Float(a)), Some(DatagenValue::Float(b))) => equal_floats(*a, *b),
        (Some(DatagenValue::Bool(a)), Some(DatagenValue::Bool(b))) => *a == *b,
        (Some(DatagenValue::Str(a)), Some(DatagenValue::Str(b))) => same_text(
            a.as_str(),
            b.as_str(),
        ),
        (Some(DatagenValue::Json(a)), Some(DatagenValue::Json(b))) => equal_json(
            a.as_str(),
            b.as_str(),
        ),
        (Some(DatagenValue::Blob(a)), Some(DatagenValue::Blob(b))) => a.size == b.size
            && same_opt_text(&a.checksum, &b.checksum) && same_bytes(&a.bytes, &b.bytes),
        _ => false,
    }
}

impl DatagenValue {
    /// A copy of the value.
    pub fn copy(&self) -> (value: DatagenValue)
        ensures
            value@ == self@,
    {
        match self {
            DatagenValue::Int(value) => DatagenValue::Int(*value),
            DatagenValue::Float(bits) => DatagenValue::Float(*bits),
            DatagenValue::Bool(flag) => DatagenValue::Bool(*flag),
            DatagenValue::Str(text) => DatagenValue::Str(text.clone()),
            DatagenValue::Json(text) => DatagenValue::Json(text.clone()),
            DatagenValue::Blob(blob) => DatagenValue::Blob(
                DatagenBlobValue {
                    bytes: copy_opt_list(&blob.bytes),
                    size: blob.size,
                    checksum: clone_opt(&blob.checksum),
                },
            ),
        }
    }
}

impl DatagenEvent {
    /// Whether two events hold the same content.
    pub fn has_same_content(&self, other: &DatagenEvent) -> (result: bool)
        ensures
            result == same_content(self@, other@),
    {
        let plain = same_text(self.event_id.as_str(), other.event_id.as_str())
            && same_text(self.item_id.as_str(), other.item_id.as_str())
            && same_text(self.root_item_id.as_str(), other.root_item_id.as_str())
            && same_opt_text(&self.parent_item_id, &other.parent_item_id)
            && self.item_seq == other.item_seq
            && same_text(self.checkpoint_id.as_str(), other.checkpoint_id.as_str())
            && same_text(self.event_type.as_str(), other.event_type.as_str())
            && same_opt_text(&self.step_name, &other.step_name)
            && same_opt_text(&self.step_kind, &other.step_kind)
            && self.step_index == other.step_index
            && same_opt_text(&self.enclosing_step, &other.enclosing_step)
            && same_opt_text(&self.selector_step, &other.selector_step)
            && self.attempt == other.attempt
            && same_text(self.run_id.as_str(), other.run_id.as_str())
            && same_text(self.writer_epoch.as_str(), other.writer_epoch.as_str())
            && same_opt_text(&self.field_name, &other.field_name)
            && same_opt_text(&self.field_type, &other.field_type)
            && self.codec_version == other.codec_version
            && same_opt_text(&self.status, &other.status)
            && same_opt_text(&self.error_type, &other.error_type)
            && same_opt_text(&self.error_dump, &other.error_dump)
            && same_opt_text(&self.traceback, &other.traceback)
            && self.event_ts == other.event_ts
            && self.event_ts_below == other.event_ts_below
            && self.schema_version == other.schema_version;
        proof {
            let left = EventView { value: None, query_tags: None, ..self@ };
            let right = EventView { value: None, query_tags: None, ..other@ };
            if plain {
                assert(left =~= right);
            }
        }
        plain && equal_values(&self.value, &other.value) && equal_opt_json(
            &self.query_tags,
            &other.query_tags,
        )
    }
}

/// Two events hold the same content exactly where they agree in each field; of
/// their values and their tags it is enough that they compare as equal.
pub proof fn law_same_content_is_equal_in_each_field(left: EventView, right: EventView)
    ensures
        same_content(left, right) <==> {
            &&& left.event_id == right.event_id
            &&& left.item_id == right.item_id
            &&& left.root_item_id == right.root_item_id
            &&& left.parent_item_id == right.parent_item_id
            &&& left.item_seq == right.item_seq
            &&& left.checkpoint_id == right.checkpoint_id
            &&& left.event_type == right.event_type
            &&& left.step_name == right.step_name
            &&& left.step_kind == right.step_kind
            &&& left.step_index == right.step_index
            &&& left.enclosing_step == right.enclosing_step
            &&& left.selector_step == right.selector_step
            &&& left.attempt == right.attempt
            &&& left.run_id == right.run_id
            &&& left.writer_epoch == right.writer_epoch
            &&& left.field_name == right.field_name
            &&& left.field_type == right.field_type
            &&& left.codec_version == right.codec_version
            &&& left.status == right.status
            &&& left.error_type == right.error_type
            &&& left.error_dump == right.error_dump
            &&& left.traceback == right.traceback
            &&& left.event_ts == right.event_ts
            &&& left.event_ts_below == right.event_ts_below
            &&& left.schema_version == right.schema_version
            &&& values_equal(left.value, right.value)
            &&& opt_json_equal(left.query_tags, right.query_tags)
        },
{
    let first = EventView { value: None, query_tags: None, ..left };
    let second = EventView { value: None, query_tags: None, ..right };
    if left.event_id == right.event_id && left.item_id == right.item_id && left.root_item_id
        == right.root_item_id && left.parent_item_id == right.parent_item_id && left.item_seq
        == right.item_seq && left.checkpoint_id == right.checkpoint_id && left.event_type
        == right.event_type && left.step_name == right.step_name
            && left.step_kind == right.step_kind
        && left.step_index == right.step_index && left.enclosing_step == right.enclosing_step
        && left.selector_step == right.selector_step && left.attempt == right.attempt && left.run_id
        == right.run_id && left.writer_epoch == right.writer_epoch && left.field_name
        == right.field_name && left.field_type == right.field_type && left.codec_version
        == right.codec_version && left.status == right.status && left.error_type == right.error_type
        && left.error_dump == right.error_dump && left.traceback == right.traceback && left.event_ts
        == right.event_ts && left.event_ts_below == right.event_ts_below && left.schema_version
        == right.schema_version {
        assert(first =~= second);
    }
    if same_content(left, right) {
        assert(first == second);
        assert(first.event_id == second.event_id && first.traceback == second.traceback);
    }
}

/// Values compare as equal only with values of their kind: numbers, flags and
/// texts where they are the same, blobs where bytes, size and checksum are,
/// floats as floats do and JSON as documents do.
pub proof fn law_values_compare_within_their_kind(left: Option<ValueView>, right: Option<ValueView>)
    ensures
        left is None || right is None
            ==> (values_equal(left, right) <==> left is None && right is None),
        left matches Some(ValueView::Int(a)) ==> (values_equal(left, right) <==> right == Some(
            ValueView::Int(a),
        )),
        left matches Some(ValueView::Bool(a)) ==> (values_equal(left, right) <==> right == Some(
            ValueView::Bool(a),
        )),
        left matches Some(ValueView::Str(a)) ==> (values_equal(left, right) <==> right == Some(
            ValueView::Str(a),
        )),
        left matches Some(ValueView::Blob(a)) ==> (values_equal(left, right) <==> right == Some(
            ValueView::Blob(a),
        )),
        left matches Some(ValueView::Float(a)) ==> (values_equal(left, right) <==> (
        right matches Some(ValueView::Float(b)) && floats_equal(a, b))),
        left matches Some(ValueView::Json(a)) ==> (values_equal(left, right) <==> (
        right matches Some(ValueView::Json(b)) && json_equal(a, b))),
{
}

/// Floats are equal where their bits are and they are no NaN, and where both are
/// zero, whatever their signs.
pub proof fn law_floats_compare_by_value(left: u64, right: u64)
    ensures
        floats_equal(0, 0x8000_0000_0000_0000),
        floats_equal(0x8000_0000_0000_0000, 0),
        left != right && floats_equal(left, right) ==> (left == 0 && right == 0x8000_0000_0000_0000)
            || (left == 0x8000_0000_0000_0000 && right == 0),
        floats_equal(left, left) <==> left <= 0x7FF0_0000_0000_0000 || 0x8000_0000_0000_0000 <= left
            <= 0xFFF0_0000_0000_0000,
{
}

/// At this place stands a minus sign, and behind it a zero that ends there.
pub open spec fn is_minus_zero(text: Seq<char>, at: int) -> bool {
    &&& 0 <= at && at + 4 <= text.len()
    &&& text.subrange(at, at + 4) == "-0.0"@
    &&& at + 4 == text.len() || text[at + 4] == ',' || text[at + 4] == ']' || text[at + 4] == '}'
}

/// JSON texts are equal documents where they are the same text; and where neither
/// has a minus zero, only there.
pub proof fn law_json_compares_by_its_text(left: Seq<char>, right: Seq<char>)
    ensures
        json_equal(left, left),
        (forall|p: int| !#[trigger] is_minus_zero(left, p)) && (forall|p: int|
            !#[trigger] is_minus_zero(right, p)) && json_equal(left, right) ==> left == right,
{
    if (forall|p: int| !#[trigger] is_minus_zero(left, p)) && (forall|p: int|
        !#[trigger] is_minus_zero(right, p)) {
        lemma_nothing_is_dropped(left, 0, false);
        lemma_nothing_is_dropped(right, 0, false);
        assert(left.skip(0) =~= left);
        assert(right.skip(0) =~= right);
    }
}

proof fn lemma_nothing_is_dropped(text: Seq<char>, at: int, in_string: bool)
    requires
        forall|p: int| !#[trigger] is_minus_zero(text, p),
        0 <= at <= text.len(),
    ensures
        unsigned_zeros_from(text, at, in_string) == text.skip(at),
    decreases text.len() - at,
{
    if at < text.len() {
        if in_string && text[at] == '\\' && at + 1 < text.len() {
            lemma_nothing_is_dropped(text, at + 2, true);
            assert(text.skip(at) =~= seq![text[at], text[at + 1]] + text.skip(at + 2));
        } else if in_string {
            lemma_nothing_is_dropped(text, at + 1, text[at] != '"');
            assert(text.skip(at) =~= seq![text[at]] + text.skip(at + 1));
        } else {
            if negative_zero_at(text, at) {
                reveal_strlit("-0.0");
                assert(text.subrange(at, at + 4) =~= "-0.0"@);
                assert(is_minus_zero(text, at));
            }
            lemma_nothing_is_dropped(text, at + 1, text[at] == '"');
            assert(text.skip(at) =~= seq![text[at]] + text.skip(at + 1));
        }
    } else {
        assert(text.skip(at) =~= Seq::<char>::empty());
    }
}

/// A document stays equal where a zero of it loses its minus sign.
pub proof fn law_a_minus_zero_is_a_zero(before: Seq<char>, behind: Seq<char>)
    requires
        !before.contains('"'),
        !before.contains('-'),
        behind.len() > 0 ==> behind[0] == ',' || behind[0] == ']' || behind[0] == '}',
    ensures
        json_equal(before + "-0.0"@ + behind, before + "0.0"@ + behind),
{
    let left = before + "-0.0"@ + behind;
    let right = before + "0.0"@ + behind;
    reveal_strlit("-0.0");
    reveal_strlit("0.0");
    assert forall|i: int| 0 <= i < before.len() implies left[i] == #[trigger] before[i] && right[i]
        == before[i] by {}
    assert(left.skip(before.len() as int + 1) =~= right.skip(before.len() as int));
    lemma_same_start(left, right, before, before.len());
}

proof fn lemma_same_start(left: Seq<char>, right: Seq<char>, before: Seq<char>, count: nat)
    requires
        !before.contains('"'),
        !before.contains('-'),
        count <= before.len(),
        before.len() < left.len(),
        before.len() < right.len(),
        forall|i: int|
            0 <= i < before.len() ==> left[i] == #[trigger] before[i] && right[i] == before[i],
        negative_zero_at(left, before.len() as int),
        right[before.len() as int] == '0',
        left.skip(before.len() as int + 1) == right.skip(before.len() as int),
    ensures
        unsigned_zeros_from(left, before.len() - count, false) == unsigned_zeros_from(
            right,
            before.len() - count,
            false,
        ),
    decreases count,
{
    let at = before.len() - count;
    if count == 0 {
        lemma_same_rest(left, at + 1, right, at, false);
    } else {
        lemma_same_start(left, right, before, (count - 1) as nat);
        assert(before.contains(before[at]));
        assert(left[at] == before[at] && right[at] == before[at]);
    }
}

proof fn lemma_same_rest(left: Seq<char>, i: int, right: Seq<char>, j: int, in_string: bool)
    requires
        0 <= i <= left.len(),
        0 <= j <= right.len(),
        left.skip(i) == right.skip(j),
    ensures
        unsigned_zeros_from(left, i, in_string) == unsigned_zeros_from(right, j, in_string),
    decreases left.len() - i,
{
    assert(left.skip(i).len() == left.len() - i && right.skip(j).len() == right.len() - j);
    if i < left.len() {
        assert(left.skip(i)[0] == left[i] && right.skip(j)[0] == right[j]);
        assert(left.skip(i).skip(1) =~= left.skip(i + 1));
        assert(right.skip(j).skip(1) =~= right.skip(j + 1));
        if i + 1 < left.len() {
            assert(left.skip(i)[1] == left[i + 1] && right.skip(j)[1] == right[j + 1]);
            assert(left.skip(i).skip(2) =~= left.skip(i + 2));
            assert(right.skip(j).skip(2) =~= right.skip(j + 2));
            lemma_same_rest(left, i + 2, right, j + 2, true);
        }
        if i + 2 < left.len() {
            assert(left.skip(i)[2] == left[i + 2] && right.skip(j)[2] == right[j + 2]);
        }
        if i + 3 < left.len() {
            assert(left.skip(i)[3] == left[i + 3] && right.skip(j)[3] == right[j + 3]);
        }
        if i + 4 < left.len() {
            assert(left.skip(i)[4] == left[i + 4] && right.skip(j)[4] == right[j + 4]);
        }
        lemma_same_rest(left, i + 1, right, j + 1, false);
        lemma_same_rest(left, i + 1, right, j + 1, true);
    }
}

/// The model of a blob holds each of its parts.
pub proof fn law_a_blobs_model_is_whole(blob: DatagenBlobValue)
    ensures
        blob@.bytes is Some <==> blob.bytes is Some,
        blob.bytes is Some ==> blob@.bytes->Some_0 == blob.bytes->Some_0@,
        blob@.size == blob.size,
        blob@.checksum is Some <==> blob.checksum is Some,
        blob.checksum is Some ==> blob@.checksum->Some_0 == blob.checksum->Some_0@,
{
}

/// The model of a value holds its variant and what it carries.
pub proof fn law_a_values_model_is_whole(value: DatagenValue)
    ensures
        value matches DatagenValue::Int(number) ==> value@ == ValueView::Int(number),
        value matches DatagenValue::Float(bits) ==> value@ == ValueView::Float(bits),
        value matches DatagenValue::Bool(flag) ==> value@ == ValueView::Bool(flag),
        value matches DatagenValue::Str(text) ==> value@ == ValueView::Str(text@),
        value matches DatagenValue::Json(text) ==> value@ == ValueView::Json(text@),
        value matches DatagenValue::Blob(blob) ==> value@ == ValueView::Blob(blob@),
{
}

/// The model of an event holds each of its parts.
pub proof fn law_an_events_model_is_whole(event: DatagenEvent)
    ensures
        event@.event_id == event.event_id@,
        event@.item_id == event.item_id@,
        event@.root_item_id == event.root_item_id@,
        event@.parent_item_id is Some <==> event.parent_item_id is Some,
        event.parent_item_id is Some
            ==> event@.parent_item_id->Some_0 == event.parent_item_id->Some_0@,
        event@.item_seq == event.item_seq,
        event@.checkpoint_id == event.checkpoint_id@,
        event@.event_type == event.event_type@,
        event@.step_name is Some <==> event.step_name is Some,
        event.step_name is Some ==> event@.step_name->Some_0 == event.step_name->Some_0@,
        event@.step_kind is Some <==> event.step_kind is Some,
        event.step_kind is Some ==> event@.step_kind->Some_0 == event.step_kind->Some_0@,
        event@.step_index == event.step_index,
        event@.enclosing_step is Some <==> event.enclosing_step is Some,
        event.enclosing_step is Some
            ==> event@.enclosing_step->Some_0 == event.enclosing_step->Some_0@,
        event@.selector_step is Some <==> event.selector_step is Some,
        event.selector_step is Some
            ==> event@.selector_step->Some_0 == event.selector_step->Some_0@,
        event@.attempt == event.attempt,
        event@.run_id == event.run_id@,
        event@.writer_epoch == event.writer_epoch@,
        event@.field_name is Some <==> event.field_name is Some,
        event.field_name is Some ==> event@.field_name->Some_0 == event.field_name->Some_0@,
        event@.field_type is Some <==> event.field_type is Some,
        event.field_type is Some ==> event@.field_type->Some_0 == event.field_type->Some_0@,
        event@.codec_version == event.codec_version,
        event@.value is Some <==> event.value is Some,
        event.value is Some ==> event@.value->Some_0 == event.value->Some_0@,
        event@.query_tags is Some <==> event.query_tags is Some,
        event.query_tags is Some ==> event@.query_tags->Some_0 == event.query_tags->Some_0@,
        event@.status is Some <==> event.status is Some,
        event.status is Some ==> event@.status->Some_0 == event.status->Some_0@,
        event@.error_type is Some <==> event.error_type is Some,
        event.error_type is Some ==> event@.error_type->Some_0 == event.error_type->Some_0@,
        event@.error_dump is Some <==> event.error_dump is Some,
        event.error_dump is Some ==> event@.error_dump->Some_0 == event.error_dump->Some_0@,
        event@.traceback is Some <==> event.traceback is Some,
        event.traceback is Some ==> event@.traceback->Some_0 == event.traceback->Some_0@,
        event@.event_ts == event.event_ts,
        event@.event_ts_below == event.event_ts_below,
        event@.schema_version == event.schema_version,
{
}

/// The models stand in the order of what they are of, one for each.
pub proof fn law_event_views_stand_in_order(events: Seq<DatagenEvent>, at: int)
    requires
        0 <= at < events.len(),
    ensures
        event_views(events).len() == events.len(),
        event_views(events)[at] == events[at]@,
{
}

} // verus!
