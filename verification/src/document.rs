//! Structured documents: the payloads that the feeds deliver and the answers
//! that the service gives.

use crate::text::{decimal, signed_text, unsigned_text};
use vstd::prelude::*;

verus! {

/// The mathematical value of a document.
pub enum Json {
    Null,
    Bool(bool),
    /// A whole number.
    Int(int),
    /// A number with a fraction or an exponent, by its text.
    Real(Seq<char>),
    Text(Seq<char>),
    Array(Seq<Json>),
    /// The members in order, each a name and a value.
    Object(Seq<(Seq<char>, Json)>),
}

/// The value of the first member called `key`.
pub open spec fn lookup(members: Seq<(Seq<char>, Json)>, key: Seq<char>) -> Option<Json>
    decreases members.len(),
{
    if members.len() == 0 {
        None
    } else if members[0].0 == key {
        Some(members[0].1)
    } else {
        lookup(members.drop_first(), key)
    }
}

/// Members that come after others of another name do not change what is
/// found under `key`.
pub proof fn lemma_lookup_skip(members: Seq<(Seq<char>, Json)>, key: Seq<char>, n: int)
    requires
        0 <= n <= members.len(),
        forall|j: int| 0 <= j < n ==> members[j].0 != key,
    ensures
        lookup(members, key) == lookup(members.skip(n), key),
    decreases n,
{
    if n == 0 {
        assert(members.skip(0) =~= members);
    } else {
        let rest = members.drop_first();
        assert forall|j: int| 0 <= j < n - 1 implies rest[j].0 != key by {
            assert(rest[j] == members[j + 1]);
        }
        lemma_lookup_skip(rest, key, n - 1);
        assert(rest.skip(n - 1) =~= members.skip(n));
    }
}

impl Json {
    /// The member of an object called `key`; nothing for other values.
    pub open spec fn get(self, key: Seq<char>) -> Option<Json> {
        match self {
            Json::Object(members) => lookup(members, key),
            _ => None,
        }
    }

    /// The text of a text value.
    pub open spec fn as_text(self) -> Option<Seq<char>> {
        match self {
            Json::Text(s) => Some(s),
            _ => None,
        }
    }

    /// The items of a list.
    pub open spec fn as_array(self) -> Option<Seq<Json>> {
        match self {
            Json::Array(items) => Some(items),
            _ => None,
        }
    }

    pub open spec fn is_number(self) -> bool {
        self is Int || self is Real
    }

    /// A whole number that fits in 64 signed bits.
    pub open spec fn as_i64(self) -> Option<i64> {
        match self {
            Json::Int(i) => if i64::MIN <= i <= i64::MAX {
                Some(i as i64)
            } else {
                None
            },
            _ => None,
        }
    }

    /// A number as a document prints it: whole numbers in decimal, others
    /// by their text.
    pub open spec fn number_text(self) -> Seq<char>
        recommends
            self.is_number(),
    {
        match self {
            Json::Int(i) => decimal(i),
            Json::Real(t) => t,
            _ => Seq::empty(),
        }
    }
}

/// A number of a document.
#[derive(Debug, PartialEq, Eq)]
pub enum Number {
    /// Zero or a positive whole number.
    PosInt(u64),
    /// A negative whole number.
    NegInt(i64),
    /// Any other number, by its text.
    Float(String),
}

impl View for Number {
    type V = Json;

    open spec fn view(&self) -> Json {
        match self {
            Number::PosInt(n) => Json::Int(*n as int),
            Number::NegInt(n) => Json::Int(*n as int),
            Number::Float(text) => Json::Real(text@),
        }
    }
}

impl Number {
    /// A number from a signed integer.
    pub fn from_i64(n: i64) -> (r: Number)
        ensures
            r@ == Json::Int(n as int),
    {
        if n < 0 {
            Number::NegInt(n)
        } else {
            Number::PosInt(n as u64)
        }
    }

    /// A copy of the number.
    pub fn duplicate(&self) -> (r: Number)
        ensures
            r@ == self@,
    {
        match self {
            Number::PosInt(n) => Number::PosInt(*n),
            Number::NegInt(n) => Number::NegInt(*n),
            Number::Float(text) => Number::Float(text.clone()),
        }
    }

    /// The number as a document prints it.
    pub fn to_text(&self) -> (r: String)
        ensures
            r@ == self@.number_text(),
    {
        match self {
            Number::PosInt(n) => unsigned_text(*n),
            Number::NegInt(n) => signed_text(*n),
            Number::Float(text) => text.clone(),
        }
    }

    /// The number as a signed integer, if it is whole and fits.
    pub fn as_i64(&self) -> (r: Option<i64>)
        ensures
            r == self@.as_i64(),
    {
        match self {
            Number::PosInt(n) => if *n <= i64::MAX as u64 {
                Some(*n as i64)
            } else {
                None
            },
            Number::NegInt(n) => Some(*n),
            Number::Float(_) => None,
        }
    }
}

/// A document: null, a boolean, a number, text, a list or an object.
#[derive(Debug, PartialEq, Eq)]
pub enum Document {
    Null,
    Bool(bool),
    Number(Number),
    Text(String),
    Array(Vec<Document>),
    Object(Vec<(String, Document)>),
}

/// The value of a document.
pub open spec fn json_of(d: Document) -> Json
    decreases d,
{
    match d {
        Document::Null => Json::Null,
        Document::Bool(b) => Json::Bool(b),
        Document::Number(n) => n@,
        Document::Text(s) => Json::Text(s@),
        Document::Array(items) => Json::Array(
            Seq::new(
                items@.len(),
                |i: int|
                    if 0 <= i < items@.len() {
                        json_of(items@[i])
                    } else {
                        Json::Null
                    },
            ),
        ),
        Document::Object(members) => Json::Object(
            Seq::new(
                members@.len(),
                |i: int|
                    if 0 <= i < members@.len() {
                        (members@[i].0@, json_of(members@[i].1))
                    } else {
                        (Seq::empty(), Json::Null)
                    },
            ),
        ),
    }
}

impl View for Document {
    type V = Json;

    open spec fn view(&self) -> Json {
        json_of(*self)
    }
}

/// The members by their views.
pub open spec fn member_views(members: Seq<(String, Document)>) -> Seq<(Seq<char>, Json)> {
    Seq::new(members.len(), |i: int| (members[i].0@, members[i].1@))
}

/// The items by their views.
pub open spec fn item_views(items: Seq<Document>) -> Seq<Json> {
    Seq::new(items.len(), |i: int| items[i]@)
}

/// Optional text as a value: the text, or null.
pub open spec fn opt_text_json(s: Option<Seq<char>>) -> Json {
    match s {
        Some(t) => Json::Text(t),
        None => Json::Null,
    }
}

/// Appends the member `name` with `value`.
pub fn put(members: &mut Vec<(String, Document)>, name: &str, value: Document)
    ensures
        member_views(final(members)@) == member_views(old(members)@).push((name@, value@)),
{
    members.push((String::from_str(name), value));
    assert(member_views(members@) =~= member_views(old(members)@).push((name@, value@)));
}

impl Document {
    /// An object of the given members.
    pub fn object(members: Vec<(String, Document)>) -> (r: Document)
        ensures
            r@ == Json::Object(member_views(members@)),
    {
        let r = Document::Object(members);
        proof {
            r.lemma_view_object();
            assert(r@->Object_0 =~= member_views(members@));
        }
        r
    }

    /// A list of the given items.
    pub fn array(items: Vec<Document>) -> (r: Document)
        ensures
            r@ == Json::Array(item_views(items@)),
    {
        let r = Document::Array(items);
        proof {
            r.lemma_view_array();
            assert(r@->Array_0 =~= item_views(items@));
        }
        r
    }

    /// A text value.
    pub fn text(s: &str) -> (r: Document)
        ensures
            r@ == Json::Text(s@),
    {
        Document::Text(String::from_str(s))
    }

    /// Optional text as a value: the text, or null.
    pub fn opt_text(s: &Option<String>) -> (r: Document)
        ensures
            r@ == opt_text_json(crate::domain::opt_text(*s)),
    {
        match s {
            Some(t) => Document::Text(t.clone()),
            None => Document::Null,
        }
    }

    /// A whole number.
    pub fn whole(n: i64) -> (r: Document)
        ensures
            r@ == Json::Int(n as int),
    {
        Document::Number(Number::from_i64(n))
    }

    /// The items of a list, seen through the view.
    pub proof fn lemma_view_array(self)
        requires
            self is Array,
        ensures
            self@ is Array,
            self@->Array_0.len() == self->Array_0@.len(),
            forall|i: int|
                0 <= i < self->Array_0@.len() ==> (#[trigger] self@->Array_0[i])
                    == self->Array_0@[i]@,
    {
    }

    /// The members of an object, seen through the view.
    pub proof fn lemma_view_object(self)
        requires
            self is Object,
        ensures
            self@ is Object,
            self@->Object_0.len() == self->Object_0@.len(),
            forall|i: int|
                0 <= i < self->Object_0@.len() ==> (#[trigger] self@->Object_0[i]) == (
                    self->Object_0@[i].0@,
                    self->Object_0@[i].1@,
                ),
    {
    }

    /// The member of an object called `key`. Where several members share
    /// the name, the first is found.
    pub fn get(&self, key: &str) -> (r: Option<&Document>)
        ensures
            match r {
                Some(d) => self@.get(key@) == Some(d@),
                None => self@.get(key@) is None,
            },
    {
        match self {
            Document::Object(members) => {
                proof {
                    self.lemma_view_object();
                }
                let ghost all = self@->Object_0;
                let wanted = String::from_str(key);
                let mut i: usize = 0;
                while i < members.len()
                    invariant
                        0 <= i <= members.len(),
                        wanted@ == key@,
                        self@ == Json::Object(all),
                        all.len() == members@.len(),
                        forall|j: int|
                            0 <= j < members@.len() ==> (#[trigger] all[j]) == (
                                members@[j].0@,
                                members@[j].1@,
                            ),
                        forall|j: int| 0 <= j < i ==> (#[trigger] all[j]).0 != key@,
                    decreases members.len() - i,
                {
                    if members[i].0 == wanted {
                        proof {
                            lemma_lookup_skip(all, key@, i as int);
                            let rest = all.skip(i as int);
                            assert(rest.len() > 0);
                            assert(rest[0] == all[i as int]);
                            assert(all[i as int] == (members@[i as int].0@, members@[i as int].1@));
                            assert(lookup(rest, key@) == Some(rest[0].1));
                        }
                        return Some(&members[i].1);
                    }
                    i += 1;
                }
                proof {
                    lemma_lookup_skip(all, key@, i as int);
                    assert(all.skip(i as int).len() == 0);
                }
                None
            },
            _ => None,
        }
    }

    /// The text of a text value.
    pub fn as_text(&self) -> (r: Option<&str>)
        ensures
            match r {
                Some(s) => self@.as_text() == Some(s@),
                None => self@.as_text() is None,
            },
    {
        match self {
            Document::Text(s) => Some(s.as_str()),
            Document::Number(n) => {
                assert(n@.as_text() is None);
                None
            },
            _ => None,
        }
    }

    /// The items of a list.
    pub fn as_array(&self) -> (r: Option<&Vec<Document>>)
        ensures
            match r {
                Some(items) => self@.as_array() == Some(item_views(items@)),
                None => self@.as_array() is None,
            },
    {
        match self {
            Document::Array(items) => {
                proof {
                    self.lemma_view_array();
                    assert(self@->Array_0 =~= item_views(items@));
                }
                Some(items)
            },
            Document::Number(n) => {
                assert(n@.as_array() is None);
                None
            },
            _ => None,
        }
    }

    /// The number of a number value.
    pub fn as_number(&self) -> (r: Option<&Number>)
        ensures
            match r {
                Some(n) => self@.is_number() && self@ == n@,
                None => !self@.is_number(),
            },
    {
        match self {
            Document::Number(n) => Some(n),
            _ => None,
        }
    }

    /// A copy of the document.
    pub fn duplicate(&self) -> (r: Document)
        ensures
            r@ == self@,
        decreases self,
    {
        match self {
            Document::Null => Document::Null,
            Document::Bool(b) => Document::Bool(*b),
            Document::Number(n) => Document::Number(n.duplicate()),
            Document::Text(s) => Document::Text(s.clone()),
            Document::Array(items) => {
                let mut out: Vec<Document> = Vec::new();
                let mut i: usize = 0;
                while i < items.len()
                    invariant
                        0 <= i <= items.len(),
                        out@.len() == i,
                        *self == Document::Array(*items),
                        forall|j: int| 0 <= j < i ==> (#[trigger] out@[j])@ == items@[j]@,
                    decreases items.len() - i,
                {
                    proof {
                        assert(decreases_to!(*self => self->Array_0));
                        assert(decreases_to!(self->Array_0 => self->Array_0@));
                        assert(decreases_to!(self->Array_0@ => self->Array_0@[i as int]));
                    }
                    out.push(items[i].duplicate());
                    i += 1;
                }
                let r = Document::Array(out);
                proof {
                    self.lemma_view_array();
                    r.lemma_view_array();
                    assert(r@->Array_0 =~= self@->Array_0);
                }
                r
            },
            Document::Object(members) => {
                let mut out: Vec<(String, Document)> = Vec::new();
                let mut i: usize = 0;
                while i < members.len()
                    invariant
                        0 <= i <= members.len(),
                        out@.len() == i,
                        *self == Document::Object(*members),
                        forall|j: int|
                            0 <= j < i ==> (#[trigger] out@[j]).0@ == members@[j].0@ && out@[j].1@
                                == members@[j].1@,
                    decreases members.len() - i,
                {
                    proof {
                        assert(decreases_to!(*self => self->Object_0));
                        assert(decreases_to!(self->Object_0 => self->Object_0@));
                        assert(decreases_to!(self->Object_0@ => self->Object_0@[i as int]));
                        assert(decreases_to!(self->Object_0@[i as int] => self->Object_0@[i as int].1));
                    }
                    out.push((members[i].0.clone(), members[i].1.duplicate()));
                    i += 1;
                }
                let r = Document::Object(out);
                proof {
                    self.lemma_view_object();
                    r.lemma_view_object();
                    assert(r@->Object_0 =~= self@->Object_0);
                }
                r
            },
        }
    }
}

} // verus!
