//! Documents of the catalogue service: the values that the engine reads out
//! of a response.

use vstd::prelude::*;
use crate::text::{chars_equal, chars_of};

verus! {

/// A value of a document. Of a number only what the engine reads is kept:
/// the number itself where it is a whole number from 0 to `u64::MAX`.
#[derive(Debug, PartialEq)]
pub enum Json {
    Null,
    Bool(bool),
    Number(Option<u64>),
    String(String),
    Array(Vec<Json>),
    /// The members of an object, each key once.
    Object(Vec<(String, Json)>),
}

pub enum JsonView {
    Null,
    Bool(bool),
    Number(Option<u64>),
    String(Seq<char>),
    Array(Seq<JsonView>),
    Object(Seq<(Seq<char>, JsonView)>),
}

impl View for Json {
    type V = JsonView;

    open spec fn view(&self) -> JsonView
        decreases self,
    {
        match self {
            Json::Null => JsonView::Null,
            Json::Bool(b) => JsonView::Bool(*b),
            Json::Number(n) => JsonView::Number(*n),
            Json::String(s) => JsonView::String(s@),
            Json::Array(items) => JsonView::Array(
                Seq::new(
                    items@.len(),
                    |i: int|
                        if 0 <= i < items@.len() {
                            items@[i]@
                        } else {
                            JsonView::Null
                        },
                ),
            ),
            Json::Object(members) => JsonView::Object(
                Seq::new(
                    members@.len(),
                    |i: int|
                        if 0 <= i < members@.len() {
                            (members@[i].0@, members@[i].1@)
                        } else {
                            (seq![], JsonView::Null)
                        },
                ),
            ),
        }
    }
}

/// The views of the values of `items`, in order.
pub open spec fn json_views(items: Seq<Json>) -> Seq<JsonView> {
    Seq::new(items.len(), |i: int| items[i]@)
}

/// The views of the members of an object, in order.
pub open spec fn member_views(members: Seq<(String, Json)>) -> Seq<(Seq<char>, JsonView)> {
    Seq::new(members.len(), |i: int| (members[i].0@, members[i].1@))
}

pub proof fn lemma_array_view(items: Vec<Json>)
    ensures
        Json::Array(items)@ == JsonView::Array(json_views(items@)),
{
    reveal_with_fuel(<Json as View>::view, 2);
    assert(Json::Array(items)@->Array_0 =~= json_views(items@));
}

pub proof fn lemma_object_view(members: Vec<(String, Json)>)
    ensures
        Json::Object(members)@ == JsonView::Object(member_views(members@)),
{
    reveal_with_fuel(<Json as View>::view, 2);
    assert(Json::Object(members)@->Object_0 =~= member_views(members@));
}

/// The value of the first member of `members` with the key `key`.
pub open spec fn member_spec(members: Seq<(Seq<char>, JsonView)>, key: Seq<char>) -> Option<
    JsonView,
>
    decreases members.len(),
{
    if members.len() == 0 {
        None
    } else if members[0].0 == key {
        Some(members[0].1)
    } else {
        member_spec(members.drop_first(), key)
    }
}

/// The member `key` of the object `value`; `None` where `value` is no
/// object or has no such member.
pub open spec fn field_spec(value: JsonView, key: Seq<char>) -> Option<JsonView> {
    match value {
        JsonView::Object(members) => member_spec(members, key),
        _ => None,
    }
}

/// The text of the member `key` of the object `value`; `None` where there
/// is no such member or it is no string.
pub open spec fn text_spec(value: JsonView, key: Seq<char>) -> Option<Seq<char>> {
    match field_spec(value, key) {
        Some(JsonView::String(s)) => Some(s),
        _ => None,
    }
}

impl Json {
    /// The member `key` of an object.
    pub fn field(&self, key: &str) -> (r: Option<&Json>)
        ensures
            match r {
                Some(v) => field_spec(self@, key@) == Some(v@),
                None => field_spec(self@, key@) is None,
            },
    {
        match self {
            Json::Object(members) => {
                proof {
                    lemma_object_view(*members);
                }
                let wanted = chars_of(key);
                let mut i: usize = 0;
                let ghost all = member_views(members@);
                assert(all.skip(0) =~= all);
                while i < members.len()
                    invariant
                        i <= members.len(),
                        wanted@ == key@,
                        all == member_views(members@),
                        *self == Json::Object(*members),
                        self@ == JsonView::Object(all),
                        member_spec(all, key@) == member_spec(all.skip(i as int), key@),
                    decreases members.len() - i,
                {
                    let have = chars_of(members[i].0.as_str());
                    proof {
                        assert(all.skip(i as int)[0] == all[i as int]);
                        assert(all.skip(i as int).drop_first() =~= all.skip(i + 1));
                    }
                    if chars_equal(have.as_slice(), wanted.as_slice()) {
                        assert(all[i as int] == (members@[i as int].0@, members@[i as int].1@));
                        return Some(&members[i].1);
                    }
                    i += 1;
                }
                None
            },
            _ => None,
        }
    }

    /// The text of the member `key` of an object.
    pub fn text(&self, key: &str) -> (r: Option<String>)
        ensures
            match r {
                Some(s) => text_spec(self@, key@) == Some(s@),
                None => text_spec(self@, key@) is None,
            },
    {
        match self.field(key) {
            Some(Json::String(s)) => Some(s.clone()),
            _ => None,
        }
    }
}

} // verus!
