//! A generic tree of data (null, booleans, numbers, text, sequences and
//! fields), which the library's types encode themselves into and decode
//! themselves from.
use vstd::prelude::*;

verus! {

/// A generic value.
#[derive(Debug)]
pub enum Value {
    Null,
    Bool(bool),
    Unsigned(u64),
    /// A number that is not an unsigned 64-bit integer (negative or fractional).
    OtherNumber,
    Text(String),
    Sequence(Vec<Value>),
    /// Named fields, in order.
    Fields(Vec<(String, Value)>),
}

/// The mathematical form of a [`Value`].
pub enum ValueView {
    Null,
    Bool(bool),
    Unsigned(u64),
    OtherNumber,
    Text(Seq<char>),
    Sequence(Seq<ValueView>),
    Fields(Seq<(Seq<char>, ValueView)>),
}

impl Value {
    /// The mathematical form of this value.
    pub open spec fn view_of(self) -> ValueView
        decreases self,
    {
        match self {
            Value::Null => ValueView::Null,
            Value::Bool(b) => ValueView::Bool(b),
            Value::Unsigned(n) => ValueView::Unsigned(n),
            Value::OtherNumber => ValueView::OtherNumber,
            Value::Text(s) => ValueView::Text(s@),
            Value::Sequence(items) => ValueView::Sequence(views_of(items@)),
            Value::Fields(fields) => ValueView::Fields(field_views_of(fields@)),
        }
    }
}

/// The mathematical forms of `items`.
pub open spec fn views_of(items: Seq<Value>) -> Seq<ValueView>
    decreases items,
{
    if items.len() == 0 {
        Seq::empty()
    } else {
        views_of(items.drop_last()).push(items.last().view_of())
    }
}

/// The mathematical forms of `fields`.
pub open spec fn field_views_of(fields: Seq<(String, Value)>) -> Seq<(Seq<char>, ValueView)>
    decreases fields,
{
    if fields.len() == 0 {
        Seq::empty()
    } else {
        field_views_of(fields.drop_last()).push((fields.last().0@, fields.last().1.view_of()))
    }
}

impl View for Value {
    type V = ValueView;

    open spec fn view(&self) -> ValueView {
        self.view_of()
    }
}

/// Why a value could not be decoded.
#[derive(Debug, Clone, Copy, PartialEq, Eq, Structural)]
pub enum DecodeError {
    /// The value has another shape than the one expected.
    InvalidType,
    /// A required field is missing.
    FieldMissing,
    /// A number does not fit in the expected integer type.
    OutOfRange,
    /// A tag names no known variant.
    UnknownVariant,
    /// A text is not a valid URL.
    InvalidUrl,
    /// A text is not a valid identifier.
    InvalidId,
    /// A duration does not fit in a `u64` count of seconds.
    DurationOverflow,
}

/// The value of the first field named `key`, if any.
pub open spec fn lookup(fields: Seq<(Seq<char>, ValueView)>, key: Seq<char>) -> Option<ValueView>
    decreases fields.len(),
{
    if fields.len() == 0 {
        None
    } else if fields[0].0 == key {
        Some(fields[0].1)
    } else {
        lookup(fields.drop_first(), key)
    }
}

/// The fields of `v`, if it holds fields.
pub open spec fn fields_of(v: ValueView) -> Result<Seq<(Seq<char>, ValueView)>, DecodeError> {
    match v {
        ValueView::Fields(fields) => Ok(fields),
        _ => Err(DecodeError::InvalidType),
    }
}

/// The text of `v`, if it holds text.
pub open spec fn text_of(v: ValueView) -> Result<Seq<char>, DecodeError> {
    match v {
        ValueView::Text(s) => Ok(s),
        _ => Err(DecodeError::InvalidType),
    }
}

/// The number of `v`, if it holds an unsigned integer.
pub open spec fn unsigned_of(v: ValueView) -> Result<u64, DecodeError> {
    match v {
        ValueView::Unsigned(n) => Ok(n),
        _ => Err(DecodeError::InvalidType),
    }
}

/// The number of `v`, if it holds an unsigned integer that fits in a `u32`.
pub open spec fn u32_of(v: ValueView) -> Result<u32, DecodeError> {
    match v {
        ValueView::Unsigned(n) => if n <= u32::MAX {
            Ok(n as u32)
        } else {
            Err(DecodeError::OutOfRange)
        },
        _ => Err(DecodeError::InvalidType),
    }
}

/// The required field `key` of `fields`.
pub open spec fn required(fields: Seq<(Seq<char>, ValueView)>, key: Seq<char>) -> Result<
    ValueView,
    DecodeError,
> {
    match lookup(fields, key) {
        Some(v) => Ok(v),
        None => Err(DecodeError::FieldMissing),
    }
}

/// The optional field `key` of `fields`: `None` when it is missing or null.
pub open spec fn optional(fields: Seq<(Seq<char>, ValueView)>, key: Seq<char>) -> Option<ValueView> {
    match lookup(fields, key) {
        Some(ValueView::Null) => None,
        other => other,
    }
}

/// `views_of` keeps length and positions.
pub proof fn lemma_views_of(items: Seq<Value>)
    ensures
        views_of(items).len() == items.len(),
        forall|i: int| 0 <= i < items.len() ==> #[trigger] views_of(items)[i] == items[i].view_of(),
    decreases items.len(),
{
    if items.len() > 0 {
        lemma_views_of(items.drop_last());
    }
}

/// `field_views_of` keeps length and positions.
pub proof fn lemma_field_views_of(fields: Seq<(String, Value)>)
    ensures
        field_views_of(fields).len() == fields.len(),
        forall|i: int|
            0 <= i < fields.len() ==> #[trigger] field_views_of(fields)[i] == (
                fields[i].0@,
                fields[i].1.view_of(),
            ),
    decreases fields.len(),
{
    if fields.len() > 0 {
        lemma_field_views_of(fields.drop_last());
    }
}

/// `lookup` finds the first field with the key.
pub proof fn lemma_lookup_skip(fields: Seq<(Seq<char>, ValueView)>, key: Seq<char>, i: int)
    requires
        0 <= i <= fields.len(),
        forall|j: int| 0 <= j < i ==> (#[trigger] fields[j]).0 != key,
    ensures
        lookup(fields, key) == lookup(fields.skip(i), key),
    decreases i,
{
    if i > 0 {
        lemma_lookup_skip(fields.drop_first(), key, i - 1);
        assert(fields.drop_first().skip(i - 1) == fields.skip(i));
    } else {
        assert(fields.skip(0) == fields);
    }
}

/// Whether two strings are equal.
pub fn same_text(a: &str, b: &str) -> (r: bool)
    ensures
        r == (a@ == b@),
{
    let x = crate::text::chars_of(a);
    let y = crate::text::chars_of(b);
    if x.len() != y.len() {
        return false;
    }
    let mut i: usize = 0;
    while i < x.len()
        invariant
            x.len() == y.len(),
            x@ == a@,
            y@ == b@,
            i <= x.len(),
            forall|j: int| 0 <= j < i ==> x@[j] == y@[j],
        decreases x.len() - i,
    {
        if x[i] != y[i] {
            assert(a@[i as int] != b@[i as int]);
            return false;
        }
        i += 1;
    }
    assert(x@ == y@);
    true
}

/// The value of the first field of `fields` named `key`.
pub fn field<'a>(fields: &'a Vec<(String, Value)>, key: &str) -> (r: Option<&'a Value>)
    ensures
        r matches Some(v) ==> lookup(field_views_of(fields@), key@) == Some(v@),
        r is None ==> lookup(field_views_of(fields@), key@) is None,
{
    proof {
        lemma_field_views_of(fields@);
    }
    let ghost views = field_views_of(fields@);
    let mut i: usize = 0;
    while i < fields.len()
        invariant
            i <= fields.len(),
            views == field_views_of(fields@),
            views.len() == fields.len(),
            forall|j: int|
                0 <= j < fields.len() ==> #[trigger] views[j] == (
                    fields@[j].0@,
                    fields@[j].1.view_of(),
                ),
            forall|j: int| 0 <= j < i ==> (#[trigger] views[j]).0 != key@,
        decreases fields.len() - i,
    {
        if same_text(fields[i].0.as_str(), key) {
            proof {
                lemma_lookup_skip(views, key@, i as int);
                assert(views.skip(i as int)[0] == views[i as int]);
            }
            return Some(&fields[i].1);
        }
        i += 1;
    }
    proof {
        lemma_lookup_skip(views, key@, i as int);
    }
    None
}

/// The fields of `v`.
pub fn fields(v: &Value) -> (r: Result<&Vec<(String, Value)>, DecodeError>)
    ensures
        r matches Ok(f) ==> fields_of(v@) == Ok::<_, DecodeError>(field_views_of(f@)),
        r matches Err(e) ==> fields_of(v@) == Err::<Seq<(Seq<char>, ValueView)>, _>(e),
{
    match v {
        Value::Fields(f) => Ok(f),
        _ => Err(DecodeError::InvalidType),
    }
}

/// The required field `key` of `fields`.
pub fn required_field<'a>(fields: &'a Vec<(String, Value)>, key: &str) -> (r: Result<
    &'a Value,
    DecodeError,
>)
    ensures
        r matches Ok(v) ==> required(field_views_of(fields@), key@) == Ok::<_, DecodeError>(v@),
        r matches Err(e) ==> required(field_views_of(fields@), key@) == Err::<ValueView, _>(e),
{
    match field(fields, key) {
        Some(v) => Ok(v),
        None => Err(DecodeError::FieldMissing),
    }
}

/// The optional field `key` of `fields`: `None` when it is missing or null.
pub fn optional_field<'a>(fields: &'a Vec<(String, Value)>, key: &str) -> (r: Option<&'a Value>)
    ensures
        r matches Some(v) ==> optional(field_views_of(fields@), key@) == Some(v@),
        r is None ==> optional(field_views_of(fields@), key@) is None,
{
    match field(fields, key) {
        Some(Value::Null) => None,
        other => other,
    }
}

/// The text that `v` holds.
pub fn text(v: &Value) -> (r: Result<String, DecodeError>)
    ensures
        r matches Ok(s) ==> text_of(v@) == Ok::<_, DecodeError>(s@),
        r matches Err(e) ==> text_of(v@) == Err::<Seq<char>, _>(e),
{
    match v {
        Value::Text(s) => Ok(s.clone()),
        _ => Err(DecodeError::InvalidType),
    }
}

/// The unsigned integer that `v` holds.
pub fn unsigned(v: &Value) -> (r: Result<u64, DecodeError>)
    ensures
        r == unsigned_of(v@),
{
    match v {
        Value::Unsigned(n) => Ok(*n),
        _ => Err(DecodeError::InvalidType),
    }
}

/// The `u32` that `v` holds.
pub fn unsigned32(v: &Value) -> (r: Result<u32, DecodeError>)
    ensures
        r == u32_of(v@),
{
    match v {
        Value::Unsigned(n) => if *n <= 0xffff_ffff {
            Ok(*n as u32)
        } else {
            Err(DecodeError::OutOfRange)
        },
        _ => Err(DecodeError::InvalidType),
    }
}

/// A text value.
pub fn text_value(s: &str) -> (v: Value)
    ensures
        v@ == ValueView::Text(s@),
{
    Value::Text(s.to_owned())
}

} // verus!
