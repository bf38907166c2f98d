//! JSON values as the library reads and builds them.
use crate::text;
use vstd::prelude::*;

pub mod laws;
pub mod value;

pub use value::BadJson;

verus! {

/// What a JSON value is: a string by its characters, an object by its members.
pub enum JsonModel {
    Null,
    Bool(bool),
    Number(NumberModel),
    String(Seq<char>),
    Array(Seq<JsonModel>),
    Object(Map<Seq<char>, JsonModel>),
}

/// What a JSON number is: an integer, or a float by its decimal text.
pub enum NumberModel {
    Int(int),
    Float(Seq<char>),
}

impl JsonModel {
    /// The characters of a string.
    pub open spec fn string(self) -> Option<Seq<char>> {
        match self {
            JsonModel::String(text) => Some(text),
            _ => None,
        }
    }

    /// The value of a boolean.
    pub open spec fn boolean(self) -> Option<bool> {
        match self {
            JsonModel::Bool(b) => Some(b),
            _ => None,
        }
    }

    /// An integer that fits in 64 bits without a sign.
    pub open spec fn unsigned(self) -> Option<u64> {
        match self {
            JsonModel::Number(NumberModel::Int(n)) => if 0 <= n <= u64::MAX {
                Some(n as u64)
            } else {
                None
            },
            _ => None,
        }
    }

    /// An integer that fits in 64 bits with a sign.
    pub open spec fn signed(self) -> Option<i64> {
        match self {
            JsonModel::Number(NumberModel::Int(n)) => if i64::MIN <= n <= i64::MAX {
                Some(n as i64)
            } else {
                None
            },
            _ => None,
        }
    }

    /// Any number, by its decimal text.
    pub open spec fn number_text(self) -> Option<Seq<char>> {
        match self {
            JsonModel::Number(NumberModel::Int(n)) => Some(text::integer_text(n)),
            JsonModel::Number(NumberModel::Float(text)) => Some(text),
            _ => None,
        }
    }

    /// The members of an object.
    pub open spec fn members(self) -> Option<Map<Seq<char>, JsonModel>> {
        match self {
            JsonModel::Object(members) => Some(members),
            _ => None,
        }
    }

    /// The member of an object that stands under `key`.
    pub open spec fn member(self, key: Seq<char>) -> Option<JsonModel> {
        match self {
            JsonModel::Object(members) => if members.contains_key(key) {
                Some(members[key])
            } else {
                None
            },
            _ => None,
        }
    }

    /// The string that stands under `key`.
    pub open spec fn member_string(self, key: Seq<char>) -> Option<Seq<char>> {
        match self.member(key) {
            Some(value) => value.string(),
            None => None,
        }
    }
}

/// The value as it can be written: each float by the text that JSON has for it, and `null` in
/// the place of a float that JSON cannot hold.
pub open spec fn canonical(json: JsonModel) -> JsonModel
    decreases json,
{
    match json {
        JsonModel::Number(NumberModel::Float(text)) => match value::float_of_text(text) {
            Some(written) => JsonModel::Number(NumberModel::Float(written)),
            None => JsonModel::Null,
        },
        JsonModel::Array(items) => JsonModel::Array(
            Seq::new(
                items.len(),
                |i: int|
                    if 0 <= i < items.len() {
                        canonical(items[i])
                    } else {
                        JsonModel::Null
                    },
            ),
        ),
        JsonModel::Object(members) => JsonModel::Object(
            Map::new(
                |key: Seq<char>| members.contains_key(key),
                |key: Seq<char>|
                    if members.contains_key(key) {
                        canonical(members[key])
                    } else {
                        JsonModel::Null
                    },
            ),
        ),
        _ => json,
    }
}

/// The text of a JSON value.
pub open spec fn json_text(json: JsonModel) -> Seq<char> {
    value::text_of_json(canonical(json))
}

/// The object that a list of members makes; of two members with one key the later one stays.
pub open spec fn member_map(list: Seq<(Seq<char>, JsonModel)>) -> Map<Seq<char>, JsonModel>
    decreases list.len(),
{
    if list.len() == 0 {
        Map::empty()
    } else {
        member_map(list.drop_last()).insert(list.last().0, list.last().1)
    }
}

/// Whether no two members of a list have one key.
pub open spec fn distinct_keys(list: Seq<(Seq<char>, JsonModel)>) -> bool {
    forall|i: int, j: int| 0 <= i < j < list.len() ==> (#[trigger] list[i]).0 != (#[trigger] list[j]).0
}

/// An object holds exactly what the list that makes it holds.
pub proof fn member_map_holds_its_list(list: Seq<(Seq<char>, JsonModel)>)
    requires
        distinct_keys(list),
    ensures
        forall|i: int|
            0 <= i < list.len() ==> member_map(list).contains_key((#[trigger] list[i]).0)
                && member_map(list)[list[i].0] == list[i].1,
        forall|key: Seq<char>| #[trigger]
            member_map(list).contains_key(key) ==> exists|i: int|
                0 <= i < list.len() && (#[trigger] list[i]).0 == key,
    decreases list.len(),
{
    if list.len() > 0 {
        let front = list.drop_last();
        assert(distinct_keys(front)) by {
            assert forall|i: int, j: int| 0 <= i < j < front.len() implies (#[trigger] front[i]).0
                != (#[trigger] front[j]).0 by {
                assert(front[i] == list[i] && front[j] == list[j]);
            }
        }
        member_map_holds_its_list(front);
        assert forall|i: int| 0 <= i < list.len() implies member_map(list).contains_key(
            (#[trigger] list[i]).0,
        ) && member_map(list)[list[i].0] == list[i].1 by {
            if i < list.len() - 1 {
                assert(front[i] == list[i]);
                assert(list[i].0 != list[list.len() - 1].0);
            }
        }
        assert forall|key: Seq<char>| #[trigger] member_map(list).contains_key(key) implies exists|
            i: int,
        | 0 <= i < list.len() && (#[trigger] list[i]).0 == key by {
            if key == list.last().0 {
                assert(list[list.len() - 1].0 == key);
            } else {
                assert(member_map(front).contains_key(key));
                let i = choose|i: int| 0 <= i < front.len() && (#[trigger] front[i]).0 == key;
                assert(list[i].0 == key);
            }
        }
    }
}

/// A JSON value.
#[derive(Debug)]
pub enum Json {
    Null,
    Bool(bool),
    Number(JsonNumber),
    String(String),
    Array(Vec<Json>),
    Object(Members),
}

/// A JSON number. A float is held as decimal text.
#[derive(Debug)]
pub enum JsonNumber {
    Unsigned(u64),
    Signed(i64),
    Float(String),
}

/// The members of a JSON object, no two of them with one key.
#[derive(Debug)]
pub struct Members {
    entries: Vec<(String, Json)>,
}

impl View for JsonNumber {
    type V = NumberModel;

    open spec fn view(&self) -> NumberModel {
        match *self {
            JsonNumber::Unsigned(n) => NumberModel::Int(n as int),
            JsonNumber::Signed(n) => NumberModel::Int(n as int),
            JsonNumber::Float(text) => NumberModel::Float(text@),
        }
    }
}

impl View for Json {
    type V = JsonModel;

    open spec fn view(&self) -> JsonModel {
        self.model()
    }
}

impl View for Members {
    type V = Map<Seq<char>, JsonModel>;

    open spec fn view(&self) -> Map<Seq<char>, JsonModel> {
        member_map(self.list())
    }
}

impl Json {
    /// What the value is.
    pub open spec fn model(self) -> JsonModel
        decreases self,
    {
        match self {
            Json::Null => JsonModel::Null,
            Json::Bool(b) => JsonModel::Bool(b),
            Json::Number(n) => JsonModel::Number(n@),
            Json::String(text) => JsonModel::String(text@),
            Json::Array(items) => JsonModel::Array(
                Seq::new(
                    items@.len(),
                    |i: int|
                        if 0 <= i < items@.len() {
                            items@[i].model()
                        } else {
                            JsonModel::Null
                        },
                ),
            ),
            Json::Object(members) => JsonModel::Object(member_map(members.list())),
        }
    }

    /// The value of a string.
    pub fn as_str(&self) -> (r: Option<&str>)
        ensures
            (match r {
                Some(text) => self@.string() == Some(text@),
                None => self@.string() is None,
            }),
    {
        match self {
            Json::String(text) => Some(text.as_str()),
            _ => None,
        }
    }

    /// The value of a boolean.
    pub fn as_bool(&self) -> (r: Option<bool>)
        ensures
            r == self@.boolean(),
    {
        match self {
            Json::Bool(b) => Some(*b),
            _ => None,
        }
    }

    /// The value of an integer that fits in 64 bits without a sign.
    pub fn as_u64(&self) -> (r: Option<u64>)
        ensures
            r == self@.unsigned(),
    {
        match self {
            Json::Number(JsonNumber::Unsigned(n)) => Some(*n),
            Json::Number(JsonNumber::Signed(n)) => if *n >= 0 {
                Some(*n as u64)
            } else {
                None
            },
            _ => None,
        }
    }

    /// The value of an integer that fits in 64 bits with a sign.
    pub fn as_i64(&self) -> (r: Option<i64>)
        ensures
            r == self@.signed(),
    {
        match self {
            Json::Number(JsonNumber::Unsigned(n)) => if *n <= i64::MAX as u64 {
                Some(*n as i64)
            } else {
                None
            },
            Json::Number(JsonNumber::Signed(n)) => Some(*n),
            _ => None,
        }
    }

    /// The decimal text of a number.
    pub fn as_number_text(&self) -> (r: Option<String>)
        ensures
            (match r {
                Some(text) => self@.number_text() == Some(text@),
                None => self@.number_text() is None,
            }),
    {
        match self {
            Json::Number(JsonNumber::Unsigned(n)) => Some(text::decimal(*n)),
            Json::Number(JsonNumber::Signed(n)) => Some(text::signed_decimal(*n)),
            Json::Number(JsonNumber::Float(text)) => Some(text.clone()),
            _ => None,
        }
    }

    /// The members of an object.
    pub fn as_object(&self) -> (r: Option<&Members>)
        ensures
            (match r {
                Some(members) => self@.members() == Some(members@),
                None => self@.members() is None,
            }),
    {
        match self {
            Json::Object(members) => Some(members),
            _ => None,
        }
    }

    /// The member of an object that stands under `key`.
    pub fn get(&self, key: &str) -> (r: Option<&Json>)
        ensures
            (match r {
                Some(value) => self@.member(key@) == Some(value@),
                None => self@.member(key@) is None,
            }),
    {
        match self {
            Json::Object(members) => members.get(key),
            _ => None,
        }
    }

    /// The string that stands under `key`.
    pub fn get_str(&self, key: &str) -> (r: Option<&str>)
        ensures
            (match r {
                Some(text) => self@.member_string(key@) == Some(text@),
                None => self@.member_string(key@) is None,
            }),
    {
        match self.get(key) {
            Some(value) => value.as_str(),
            None => None,
        }
    }

    /// A string value.
    pub fn text(text: &str) -> (r: Json)
        ensures
            r@ == JsonModel::String(text@),
    {
        Json::String(text.to_owned())
    }

    /// An integer value.
    pub fn integer(n: i64) -> (r: Json)
        ensures
            r@ == JsonModel::Number(NumberModel::Int(n as int)),
    {
        Json::Number(JsonNumber::Signed(n))
    }

    /// A float value, by its decimal text.
    pub fn float(text: &str) -> (r: Json)
        ensures
            r@ == JsonModel::Number(NumberModel::Float(text@)),
    {
        Json::Number(JsonNumber::Float(text.to_owned()))
    }
}

impl Clone for Json {
    fn clone(&self) -> (r: Self)
        ensures
            r@ == self@,
        decreases self,
    {
        match self {
            Json::Null => Json::Null,
            Json::Bool(b) => Json::Bool(*b),
            Json::Number(n) => Json::Number(n.clone()),
            Json::String(text) => Json::String(text.clone()),
            Json::Array(items) => {
                let mut copies: Vec<Json> = Vec::new();
                let mut i: usize = 0;
                while i < items.len()
                    invariant
                        *self is Array,
                        self->Array_0 == *items,
                        i <= items.len(),
                        copies@.len() == i,
                        forall|j: int| 0 <= j < i ==> (#[trigger] copies@[j])@ == items@[j]@,
                    decreases items.len() - i,
                {
                    proof {
                        assert(decreases_to!(self => self->Array_0));
                        assert(decreases_to!(items => items@));
                        assert(decreases_to!(items@ => items@[i as int]));
                    }
                    copies.push(items[i].clone());
                    i += 1;
                }
                assert(Json::Array(copies)@->Array_0 =~= self@->Array_0);
                Json::Array(copies)
            },
            Json::Object(members) => {
                proof {
                    use_type_invariant(members);
                }
                let mut copies: Vec<(String, Json)> = Vec::new();
                let mut i: usize = 0;
                while i < members.entries.len()
                    invariant
                        *self is Object,
                        self->Object_0 == *members,
                        i <= members.entries.len(),
                        copies@.len() == i,
                        forall|j: int|
                            0 <= j < i ==> (#[trigger] copies@[j]).0@ == members.entries@[j].0@
                                && copies@[j].1@ == members.entries@[j].1@,
                    decreases members.entries.len() - i,
                {
                    let entry = &members.entries[i];
                    proof {
                        assert(decreases_to!(self => self->Object_0));
                        assert(decreases_to!(members => members.entries));
                        assert(decreases_to!(members.entries => members.entries@));
                        assert(decreases_to!(members.entries@ => members.entries@[i as int]));
                        assert(decreases_to!(entry => entry.1));
                    }
                    copies.push((entry.0.clone(), entry.1.clone()));
                    i += 1;
                }
                let copy = Members { entries: copies };
                assert(copy.list() =~= members.list());
                Json::Object(copy)
            },
        }
    }
}

impl Clone for JsonNumber {
    fn clone(&self) -> (r: Self)
        ensures
            r@ == self@,
    {
        match self {
            JsonNumber::Unsigned(n) => JsonNumber::Unsigned(*n),
            JsonNumber::Signed(n) => JsonNumber::Signed(*n),
            JsonNumber::Float(text) => JsonNumber::Float(text.clone()),
        }
    }
}

impl Members {
    /// The members in the order in which they are kept.
    pub closed spec fn list(self) -> Seq<(Seq<char>, JsonModel)>
        decreases self,
    {
        Seq::new(
            self.entries@.len(),
            |i: int|
                if 0 <= i < self.entries@.len() {
                    (self.entries@[i].0@, self.entries@[i].1.model())
                } else {
                    (Seq::empty(), JsonModel::Null)
                },
        )
    }

    #[verifier::type_invariant]
    spec fn has_distinct_keys(self) -> bool {
        forall|i: int, j: int|
            0 <= i < j < self.entries@.len() ==> (#[trigger] self.entries@[i]).0@ != (
            #[trigger] self.entries@[j]).0@
    }

    /// The object without members.
    pub fn new() -> (r: Members)
        ensures
            r@ == Map::<Seq<char>, JsonModel>::empty(),
    {
        let members = Members { entries: Vec::new() };
        assert(members.list().len() == 0);
        members
    }

    /// The place of the member with a key.
    fn position(&self, key: &str) -> (r: Option<usize>)
        ensures
            (match r {
                Some(i) => i < self.list().len() && self.list()[i as int].0 == key@,
                None => forall|i: int|
                    0 <= i < self.list().len() ==> (#[trigger] self.list()[i]).0 != key@,
            }),
    {
        let mut i: usize = 0;
        while i < self.entries.len()
            invariant
                i <= self.entries@.len(),
                self.list().len() == self.entries@.len(),
                forall|j: int| 0 <= j < i ==> (#[trigger] self.list()[j]).0 != key@,
            decreases self.entries@.len() - i,
        {
            assert(self.list()[i as int].0 == self.entries@[i as int].0@);
            if text::same_text(self.entries[i].0.as_str(), key) {
                return Some(i);
            }
            i += 1;
        }
        None
    }

    /// The value of the member with a key.
    pub fn get(&self, key: &str) -> (r: Option<&Json>)
        ensures
            (match r {
                Some(value) => self@.contains_key(key@) && self@[key@] == value@,
                None => !self@.contains_key(key@),
            }),
    {
        proof {
            use_type_invariant(self);
            assert(distinct_keys(self.list()));
            member_map_holds_its_list(self.list());
        }
        match self.position(key) {
            Some(i) => {
                assert(self.list()[i as int].1 == self.entries@[i as int].1@);
                Some(&self.entries[i].1)
            },
            None => None,
        }
    }

    /// The object with a member added, in the place of one with the same key if there is one.
    pub fn with(self, key: &str, value: Json) -> (r: Members)
        ensures
            r@ == self@.insert(key@, value@),
    {
        proof {
            use_type_invariant(&self);
            assert(distinct_keys(self.list()));
            member_map_holds_its_list(self.list());
        }
        let ghost before = self.list();
        let ghost model = value@;
        let place = self.position(key);
        let mut entries = self.entries;
        match place {
            Some(i) => {
                entries.set(i, (key.to_owned(), value));
            },
            None => {
                entries.push((key.to_owned(), value));
            },
        }
        proof {
            assert forall|i: int, j: int| 0 <= i < j < entries@.len() implies (
            #[trigger] entries@[i]).0@ != (#[trigger] entries@[j]).0@ by {
                if i < before.len() {
                    assert(before[i].0 == self.entries@[i].0@);
                }
                if j < before.len() {
                    assert(before[j].0 == self.entries@[j].0@);
                }
            }
        }
        let r = Members { entries };
        proof {
            let after = r.list();
            assert(distinct_keys(after));
            member_map_holds_its_list(after);
            assert forall|k: Seq<char>| #[trigger]
                r@.contains_key(k) <==> self@.insert(key@, model).contains_key(k) by {
                if r@.contains_key(k) {
                    let i = choose|i: int| 0 <= i < after.len() && (#[trigger] after[i]).0 == k;
                    if k != key@ {
                        assert(after[i] == before[i]);
                    }
                }
                if self@.contains_key(k) {
                    let i = choose|i: int| 0 <= i < before.len() && (#[trigger] before[i]).0 == k;
                    assert(after[i].0 == k);
                }
                if k == key@ {
                    let i = if place is Some {
                        place->0 as int
                    } else {
                        before.len() as int
                    };
                    assert(after[i].0 == k);
                }
            }
            assert forall|k: Seq<char>| #[trigger] r@.contains_key(k) implies r@[k] == self@.insert(
                key@,
                model,
            )[k] by {
                let i = choose|i: int| 0 <= i < after.len() && (#[trigger] after[i]).0 == k;
                if k != key@ {
                    assert(after[i] == before[i]);
                } else if place is Some {
                    assert(after[place->0 as int].0 == k);
                } else {
                    assert(after[before.len() as int].0 == k);
                }
            }
            assert(r@ =~= self@.insert(key@, model));
        }
        r
    }
}

} // verus!
