//! The members of a JSON object as plain values, and the call that reads them.

use vstd::prelude::*;

verus! {

/// The value of one member of a JSON object.
///
/// Scalars are held by value. Of a nested array or object only its kind is
/// kept: no command has a nested parameter.
#[derive(Debug, PartialEq, Eq)]
pub enum Field {
    Null,
    Bool(bool),
    /// A number; `Some` holds it where it is an integer that fits `i64`.
    Number(Option<i64>),
    Text(String),
    Array,
    Object,
}

/// Mathematical model of a [`Field`].
pub enum FieldView {
    Null,
    Bool(bool),
    Number(Option<i64>),
    Text(Seq<char>),
    Array,
    Object,
}

/// One `name: value` member of a JSON object.
#[derive(Debug, PartialEq, Eq)]
pub struct Member {
    pub name: String,
    pub value: Field,
}

/// Mathematical model of a [`Member`].
pub struct MemberView {
    pub name: Seq<char>,
    pub value: FieldView,
}

impl View for Field {
    type V = FieldView;

    open spec fn view(&self) -> FieldView {
        match *self {
            Field::Null => FieldView::Null,
            Field::Bool(b) => FieldView::Bool(b),
            Field::Number(n) => FieldView::Number(n),
            Field::Text(s) => FieldView::Text(s@),
            Field::Array => FieldView::Array,
            Field::Object => FieldView::Object,
        }
    }
}

impl DeepView for Field {
    type V = FieldView;

    open spec fn deep_view(&self) -> FieldView {
        self@
    }
}

impl View for Member {
    type V = MemberView;

    open spec fn view(&self) -> MemberView {
        MemberView { name: self.name@, value: self.value@ }
    }
}

impl DeepView for Member {
    type V = MemberView;

    open spec fn deep_view(&self) -> MemberView {
        self@
    }
}

/// `serde_json`'s error, carried through unopened.
#[verifier::external_type_specification]
#[verifier::external_body]
pub struct ExJsonError(serde_json::Error);

/// The members of the object that `serde_json` reads from `bytes`, in the
/// order in which its map hands them out, or `None` where it does not accept
/// the bytes as one object. It accepts less than every JSON text of an
/// object: not a number out of its range, nor nesting beyond its limit.
pub uninterp spec fn json_object(bytes: Seq<u8>) -> Option<Seq<MemberView>>;

/// Reads `bytes` as one JSON object with `serde_json::from_slice` and hands
/// out the members of its map one for one, a number through
/// `Number::as_i64`.
///
/// Trusted: the outcome is a function of the bytes alone, and that function
/// is what [`json_object`] names. Nothing is claimed about which texts are
/// accepted, nor about what their members are.
#[verifier::external_body]
pub(crate) fn read_object(bytes: &[u8]) -> (r: Result<Vec<Member>, serde_json::Error>)
    ensures
        r matches Ok(members) ==> json_object(bytes@) == Some(members.deep_view()),
        r is Err ==> json_object(bytes@) is None,
{
    let object = serde_json::from_slice::<serde_json::Map<String, serde_json::Value>>(bytes)?;
    Ok(object.into_iter().map(|(name, value)| Member { name, value: match value {
        serde_json::Value::Null => Field::Null,
        serde_json::Value::Bool(b) => Field::Bool(b),
        serde_json::Value::Number(n) => Field::Number(n.as_i64()),
        serde_json::Value::String(s) => Field::Text(s),
        serde_json::Value::Array(_) => Field::Array,
        serde_json::Value::Object(_) => Field::Object,
    } }).collect())
}

/// The first member of `members` called `name`, if there is one.
pub open spec fn lookup(members: Seq<MemberView>, name: Seq<char>) -> Option<FieldView>
    decreases members.len(),
{
    if members.len() == 0 {
        None
    } else if members[0].name == name {
        Some(members[0].value)
    } else {
        lookup(members.drop_first(), name)
    }
}

/// Finds the first member of `members` called `name`.
pub fn find<'a>(members: &'a [Member], name: &str) -> (r: Option<&'a Field>)
    ensures
        match r {
            Some(field) => lookup(members.deep_view(), name@) == Some(field@),
            None => lookup(members.deep_view(), name@) is None,
        },
{
    let key = name.to_owned();
    let mut i: usize = 0;
    assert(members.deep_view().skip(0) =~= members.deep_view());
    while i < members.len()
        invariant
            i <= members.len(),
            key@ == name@,
            lookup(members.deep_view(), name@) == lookup(members.deep_view().skip(i as int), name@),
        decreases members.len() - i,
    {
        assert(members.deep_view().skip(i as int).drop_first() =~= members.deep_view().skip(
            i + 1,
        ));
        if members[i].name == key {
            return Some(&members[i].value);
        }
        i += 1;
    }
    None
}

} // verus!
