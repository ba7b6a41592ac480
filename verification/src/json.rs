//! JSON values: the library's own form of them, with reading and writing of
//! JSON text by `serde_json`.

use crate::text::{same_text, texts};
use vstd::prelude::*;

verus! {

/// What a JSON value says. The order of an object's members carries no meaning.
pub enum JsonModel {
    Null,
    Bool(bool),
    Int(int),
    Fraction(Seq<char>),
    Text(Seq<char>),
    List(Seq<JsonModel>),
    Table(Map<Seq<char>, JsonModel>),
}

/// A number that is no integer, in the notation that `serde_json` prints.
pub struct Fraction {
    text: String,
}

impl Fraction {
    pub closed spec fn notation(self) -> Seq<char> {
        self.text@
    }
}

/// A JSON value. Where an object names a member twice, the later one counts.
pub enum Json {
    Null,
    Bool(bool),
    UInt(u64),
    Int(i64),
    Fraction(Fraction),
    Text(String),
    List(Vec<Json>),
    Table(Vec<(String, Json)>),
}

/// What the elements of a list say.
pub open spec fn list_model(v: Seq<Json>) -> Seq<JsonModel>
    decreases v,
{
    if v.len() == 0 {
        seq![]
    } else {
        list_model(v.drop_last()).push(v.last().model())
    }
}

/// What the members of an object say.
pub open spec fn table_model(v: Seq<(String, Json)>) -> Map<Seq<char>, JsonModel>
    decreases v,
{
    if v.len() == 0 {
        Map::empty()
    } else {
        table_model(v.drop_last()).insert(v.last().0@, v.last().1.model())
    }
}

impl Json {
    /// What this value says.
    pub open spec fn model(self) -> JsonModel
        decreases self,
    {
        match self {
            Json::Null => JsonModel::Null,
            Json::Bool(b) => JsonModel::Bool(b),
            Json::UInt(n) => JsonModel::Int(n as int),
            Json::Int(n) => JsonModel::Int(n as int),
            Json::Fraction(f) => JsonModel::Fraction(f.notation()),
            Json::Text(s) => JsonModel::Text(s@),
            Json::List(v) => JsonModel::List(list_model(v@)),
            Json::Table(v) => JsonModel::Table(table_model(v@)),
        }
    }
}

/// The member `key` of an object.
pub open spec fn member(m: JsonModel, key: Seq<char>) -> Option<JsonModel> {
    if m is Table && m->Table_0.contains_key(key) {
        Some(m->Table_0[key])
    } else {
        None
    }
}

/// The text under `key`.
pub open spec fn text_member(m: JsonModel, key: Seq<char>) -> Option<Seq<char>> {
    match member(m, key) {
        Some(JsonModel::Text(t)) => Some(t),
        _ => None,
    }
}

/// The list under `key`.
pub open spec fn list_member(m: JsonModel, key: Seq<char>) -> Option<Seq<JsonModel>> {
    match member(m, key) {
        Some(JsonModel::List(l)) => Some(l),
        _ => None,
    }
}

/// The truth value under `key`.
pub open spec fn bool_member(m: JsonModel, key: Seq<char>) -> Option<bool> {
    match member(m, key) {
        Some(JsonModel::Bool(b)) => Some(b),
        _ => None,
    }
}

/// The number from zero up to the largest `u64` under `key`.
pub open spec fn count_member(m: JsonModel, key: Seq<char>) -> Option<int> {
    match member(m, key) {
        Some(JsonModel::Int(n)) => if 0 <= n <= u64::MAX {
            Some(n)
        } else {
            None
        },
        _ => None,
    }
}

/// The number within the range of `i64` under `key`.
pub open spec fn int_member(m: JsonModel, key: Seq<char>) -> Option<int> {
    match member(m, key) {
        Some(JsonModel::Int(n)) => if i64::MIN <= n <= i64::MAX {
            Some(n)
        } else {
            None
        },
        _ => None,
    }
}

// ---------------------------------------------------------------------------
// serde_json
// ---------------------------------------------------------------------------

#[verifier::external_type_specification]
#[verifier::external_body]
pub struct ExValue(serde_json::Value);

/// What a `serde_json::Value` holds.
pub uninterp spec fn json_of(v: serde_json::Value) -> JsonModel;

/// What `serde_json::from_str::<Value>` reads from a text, or the message of its
/// error.
pub uninterp spec fn json_reading(text: Seq<char>) -> Result<JsonModel, Seq<char>>;

/// What a text says, where it is JSON.
pub open spec fn parsed_json(text: Seq<char>) -> Option<JsonModel> {
    match json_reading(text) {
        Ok(m) => Some(m),
        Err(_) => None,
    }
}

/// The compact JSON text that `serde_json` prints for a value.
pub uninterp spec fn json_text(m: JsonModel) -> Seq<char>;

/// `serde_json::from_str::<Value>`: the value, or the message of the
/// `serde_json::Error`; a function of the text alone.
#[verifier::external_body]
fn value_from_text(text: &str) -> (r: Result<serde_json::Value, String>)
    ensures
        match r {
            Ok(v) => json_reading(text@) == Ok::<JsonModel, Seq<char>>(json_of(v)),
            Err(e) => json_reading(text@) == Err::<JsonModel, Seq<char>>(e@),
        },
{
    serde_json::from_str::<serde_json::Value>(text).map_err(|e| e.to_string())
}

/// `<serde_json::Value as ToString>::to_string`: the compact JSON text of the
/// value, a function of what it holds.
#[verifier::external_body]
fn value_to_text(v: &serde_json::Value) -> (r: String)
    ensures
        r@ == json_text(json_of(*v)),
{
    v.to_string()
}

/// The variants of `serde_json::Value` one for one; a `serde_json::Number` is
/// unsigned, signed or a fraction, which keeps its printed notation.
#[verifier::external_body]
fn json_from_value(v: serde_json::Value) -> (r: Json)
    ensures
        r.model() == json_of(v),
{
    match v {
        serde_json::Value::Null => Json::Null,
        serde_json::Value::Bool(b) => Json::Bool(b),
        serde_json::Value::Number(n) => match (n.as_u64(), n.as_i64()) {
            (Some(u), _) => Json::UInt(u),
            (None, Some(i)) => Json::Int(i),
            (None, None) => Json::Fraction(Fraction { text: n.to_string() }),
        },
        serde_json::Value::String(s) => Json::Text(s),
        serde_json::Value::Array(a) => Json::List(a.into_iter().map(json_from_value).collect()),
        serde_json::Value::Object(o) => Json::Table(o.into_iter().map(|(k, v)| (k, json_from_value(v))).collect()),
    }
}

/// The inverse of `json_from_value`, with `serde_json::Map` holding the members
/// of an object; a fraction is read back from its notation.
#[verifier::external_body]
fn value_from_json(j: &Json) -> (r: serde_json::Value)
    ensures
        json_of(r) == j.model(),
{
    match j {
        Json::Null => serde_json::Value::Null,
        Json::Bool(b) => serde_json::Value::Bool(*b),
        Json::UInt(n) => serde_json::Value::from(*n),
        Json::Int(n) => serde_json::Value::from(*n),
        Json::Fraction(f) => f.text.parse().ok().and_then(serde_json::Number::from_f64).into(),
        Json::Text(s) => serde_json::Value::String(s.clone()),
        Json::List(v) => serde_json::Value::Array(v.iter().map(value_from_json).collect()),
        Json::Table(v) => serde_json::Value::Object(v.iter().map(|e| (e.0.clone(), value_from_json(&e.1))).collect()),
    }
}

/// Reads a JSON text.
pub fn parse_json(text: &str) -> (r: Option<Json>)
    ensures
        match r {
            Some(j) => parsed_json(text@) == Some(j.model()),
            None => parsed_json(text@) is None,
        },
{
    match value_from_text(text) {
        Ok(v) => Some(json_from_value(v)),
        Err(_) => None,
    }
}

/// Reads a JSON text, or tells what is wrong with it.
pub fn read_json(text: &str) -> (r: Result<Json, String>)
    ensures
        match r {
            Ok(j) => json_reading(text@) == Ok::<JsonModel, Seq<char>>(j.model()),
            Err(e) => json_reading(text@) == Err::<JsonModel, Seq<char>>(e@),
        },
{
    match value_from_text(text) {
        Ok(v) => Ok(json_from_value(v)),
        Err(e) => Err(e),
    }
}

impl Json {
    /// The compact JSON text of this value.
    pub fn to_text(&self) -> (r: String)
        ensures
            r@ == json_text(self.model()),
    {
        let v = value_from_json(self);
        value_to_text(&v)
    }

    /// The member `key` of an object.
    pub fn get(&self, key: &str) -> (r: Option<&Json>)
        ensures
            r matches Some(j) ==> self.model()->Table_0.contains_key(key@) && j.model()
                == self.model()->Table_0[key@],
            r is Some <==> self.model() is Table && self.model()->Table_0.contains_key(key@),
            match r {
                Some(j) => member(self.model(), key@) == Some(j.model()),
                None => member(self.model(), key@) is None,
            },
    {
        match self {
            Json::Table(v) => {
                let mut i: usize = v.len();
                assert(v@.take(i as int) =~= v@);
                while i > 0
                    invariant
                        i <= v@.len(),
                        table_model(v@).contains_key(key@) == table_model(v@.take(i as int)).contains_key(key@),
                        table_model(v@).contains_key(key@) ==> table_model(v@)[key@]
                            == table_model(v@.take(i as int))[key@],
                        self.model() == JsonModel::Table(table_model(v@)),
                    decreases i,
                {
                    assert(v@.take(i as int).drop_last() =~= v@.take(i - 1));
                    assert(v@.take(i as int).last() == v@[i - 1]);
                    i -= 1;
                    if same_text(v[i].0.as_str(), key) {
                        return Some(&v[i].1);
                    }
                }
                None
            },
            _ => None,
        }
    }

    /// The text of a string value.
    pub fn as_text(&self) -> (r: Option<&String>)
        ensures
            match r {
                Some(s) => self.model() == JsonModel::Text(s@),
                None => !(self.model() is Text),
            },
    {
        match self {
            Json::Text(s) => Some(s),
            _ => None,
        }
    }

    /// The number of an integer that fits `u64`.
    pub fn as_u64(&self) -> (r: Option<u64>)
        ensures
            match r {
                Some(n) => self.model() == JsonModel::Int(n as int),
                None => !(self.model() is Int && 0 <= self.model()->Int_0 <= u64::MAX),
            },
    {
        match self {
            Json::UInt(n) => Some(*n),
            Json::Int(n) => if *n >= 0 {
                Some(*n as u64)
            } else {
                None
            },
            _ => None,
        }
    }

    /// The number of an integer that fits `i64`.
    pub fn as_i64(&self) -> (r: Option<i64>)
        ensures
            match r {
                Some(n) => self.model() == JsonModel::Int(n as int),
                None => !(self.model() is Int && i64::MIN <= self.model()->Int_0 <= i64::MAX),
            },
    {
        match self {
            Json::UInt(n) => if *n <= i64::MAX as u64 {
                Some(*n as i64)
            } else {
                None
            },
            Json::Int(n) => Some(*n),
            _ => None,
        }
    }

    /// The truth value of a boolean.
    pub fn as_bool(&self) -> (r: Option<bool>)
        ensures
            match r {
                Some(b) => self.model() == JsonModel::Bool(b),
                None => !(self.model() is Bool),
            },
    {
        match self {
            Json::Bool(b) => Some(*b),
            _ => None,
        }
    }

    /// The elements of a list.
    pub fn as_list(&self) -> (r: Option<&Vec<Json>>)
        ensures
            match r {
                Some(v) => self.model() == JsonModel::List(list_model(v@)),
                None => !(self.model() is List),
            },
    {
        match self {
            Json::List(v) => Some(v),
            _ => None,
        }
    }
}

impl Json {
    /// The text under `key`.
    pub fn text_at(&self, key: &str) -> (r: Option<&String>)
        ensures
            match r {
                Some(s) => text_member(self.model(), key@) == Some(s@),
                None => text_member(self.model(), key@) is None,
            },
    {
        match self.get(key) {
            Some(j) => j.as_text(),
            None => None,
        }
    }

    /// The list under `key`.
    pub fn list_at(&self, key: &str) -> (r: Option<&Vec<Json>>)
        ensures
            match r {
                Some(v) => list_member(self.model(), key@) == Some(list_model(v@)),
                None => list_member(self.model(), key@) is None,
            },
    {
        match self.get(key) {
            Some(j) => j.as_list(),
            None => None,
        }
    }

    /// The truth value under `key`.
    pub fn bool_at(&self, key: &str) -> (r: Option<bool>)
        ensures
            r == bool_member(self.model(), key@),
    {
        match self.get(key) {
            Some(j) => j.as_bool(),
            None => None,
        }
    }

    /// The number from zero up to the largest `u64` under `key`.
    pub fn count_at(&self, key: &str) -> (r: Option<u64>)
        ensures
            match r {
                Some(n) => count_member(self.model(), key@) == Some(n as int),
                None => count_member(self.model(), key@) is None,
            },
    {
        match self.get(key) {
            Some(j) => j.as_u64(),
            None => None,
        }
    }

    /// The number within the range of `i64` under `key`.
    pub fn int_at(&self, key: &str) -> (r: Option<i64>)
        ensures
            match r {
                Some(n) => int_member(self.model(), key@) == Some(n as int),
                None => int_member(self.model(), key@) is None,
            },
    {
        match self.get(key) {
            Some(j) => j.as_i64(),
            None => None,
        }
    }
}

/// A list says as many things as it has elements, in their order.
pub proof fn list_model_elements(v: Seq<Json>)
    ensures
        list_model(v).len() == v.len(),
        forall|i: int| 0 <= i < v.len() ==> #[trigger] list_model(v)[i] == v[i].model(),
    decreases v.len(),
{
    if v.len() > 0 {
        list_model_elements(v.drop_last());
        assert forall|i: int| 0 <= i < v.len() implies #[trigger] list_model(v)[i] == v[i].model() by {
            if i < v.len() - 1 {
                assert(list_model(v.drop_last())[i] == v.drop_last()[i].model());
            }
        }
    }
}

impl Json {
    /// An object without members.
    pub fn table() -> (r: Json)
        ensures
            r.model() == JsonModel::Table(Map::empty()),
            r is Table,
    {
        Json::Table(Vec::new())
    }

    /// This object with the member `key` set to `value`.
    pub fn with(self, key: &str, value: Json) -> (r: Json)
        requires
            self is Table,
        ensures
            r is Table,
            r.model() == JsonModel::Table(self.model()->Table_0.insert(key@, value.model())),
    {
        match self {
            Json::Table(v) => {
                let mut w = v;
                let ghost before = w@;
                w.push((key.to_owned(), value));
                assert(w@.drop_last() =~= before);
                Json::Table(w)
            },
            _ => self,
        }
    }

    /// A string value.
    pub fn text(s: &str) -> (r: Json)
        ensures
            r.model() == JsonModel::Text(s@),
    {
        Json::Text(s.to_owned())
    }

    /// A list of string values.
    pub fn texts(v: &Vec<String>) -> (r: Json)
        ensures
            r.model() == text_list(texts(v@)),
    {
        let mut w: Vec<Json> = Vec::new();
        for i in 0..v.len()
            invariant
                w@.len() == i,
                forall|j: int| 0 <= j < i ==> (#[trigger] w@[j]).model() == JsonModel::Text(v@[j]@),
        {
            w.push(Json::Text(v[i].clone()));
        }
        proof {
            list_model_elements(w@);
            assert(list_model(w@) =~= text_list(texts(v@))->List_0);
        }
        Json::List(w)
    }
}

/// A list of texts as a JSON value.
pub open spec fn text_list(v: Seq<Seq<char>>) -> JsonModel {
    JsonModel::List(v.map_values(|s: Seq<char>| JsonModel::Text(s)))
}

impl Clone for Fraction {
    fn clone(&self) -> (r: Fraction)
        ensures
            r == *self,
    {
        Fraction { text: self.text.clone() }
    }
}

impl Clone for Json {
    fn clone(&self) -> (r: Json)
        ensures
            r.model() == self.model(),
        decreases self,
    {
        match self {
            Json::Null => Json::Null,
            Json::Bool(b) => Json::Bool(*b),
            Json::UInt(n) => Json::UInt(*n),
            Json::Int(n) => Json::Int(*n),
            Json::Fraction(f) => Json::Fraction(f.clone()),
            Json::Text(s) => Json::Text(s.clone()),
            Json::List(v) => {
                let mut w: Vec<Json> = Vec::new();
                for i in 0..v.len()
                    invariant
                        list_model(w@) == list_model(v@.take(i as int)),
                        decreases_to!(self => v),
                {
                    let ghost w0 = w@;
                    assert(decreases_to!(v => v@));
                    assert(decreases_to!(v@ => v@[i as int]));
                    w.push(v[i].clone());
                    assert(w@.drop_last() =~= w0);
                    assert(v@.take(i + 1).drop_last() =~= v@.take(i as int));
                }
                assert(v@.take(v@.len() as int) =~= v@);
                Json::List(w)
            },
            Json::Table(v) => {
                let mut w: Vec<(String, Json)> = Vec::new();
                for i in 0..v.len()
                    invariant
                        table_model(w@) == table_model(v@.take(i as int)),
                        decreases_to!(self => v),
                {
                    let ghost w0 = w@;
                    assert(decreases_to!(v => v@));
                    assert(decreases_to!(v@ => v@[i as int]));
                    assert(decreases_to!(v@[i as int] => v@[i as int].1));
                    w.push((v[i].0.clone(), v[i].1.clone()));
                    assert(w@.drop_last() =~= w0);
                    assert(v@.take(i + 1).drop_last() =~= v@.take(i as int));
                }
                assert(v@.take(v@.len() as int) =~= v@);
                Json::Table(w)
            },
        }
    }
}

/// Of the members of an object the last with a name counts, and none stands for another.
pub proof fn the_last_member_counts(v: Seq<(String, Json)>, e: (String, Json), key: Seq<char>)
    ensures
        member(JsonModel::Table(table_model(seq![])), key) is None,
        member(JsonModel::Table(table_model(v.push(e))), e.0@) == Some(e.1.model()),
        key != e.0@ ==> member(JsonModel::Table(table_model(v.push(e))), key) == member(
            JsonModel::Table(table_model(v)),
            key,
        ),
{
    assert(v.push(e).drop_last() =~= v);
}

/// A member is read as what it is and as nothing else: a number as a count only if it is
/// not negative, and as either only if it fits.
pub proof fn members_are_read_as_what_they_are(
    m: JsonModel,
    key: Seq<char>,
    t: Seq<char>,
    l: Seq<JsonModel>,
    b: bool,
    n: int,
)
    ensures
        text_member(m, key) == Some(t) <==> member(m, key) == Some(JsonModel::Text(t)),
        list_member(m, key) == Some(l) <==> member(m, key) == Some(JsonModel::List(l)),
        bool_member(m, key) == Some(b) <==> member(m, key) == Some(JsonModel::Bool(b)),
        count_member(m, key) == Some(n) <==> member(m, key) == Some(JsonModel::Int(n)) && 0 <= n < 0x1_0000_0000_0000_0000,
        int_member(m, key) == Some(n) <==> member(m, key) == Some(JsonModel::Int(n)) && -0x8000_0000_0000_0000 <= n
            < 0x8000_0000_0000_0000,
        member(m, key) is None ==> text_member(m, key) is None && list_member(m, key) is None && bool_member(m, key) is None
            && count_member(m, key) is None && int_member(m, key) is None,
        !(m is Table) ==> member(m, key) is None,
{
}

} // verus!
