//! JSON values: the library's own type, its mathematical model, and the reader
//! of JSON text.
use vstd::prelude::*;
use crate::text::same;

verus! {

/// A number that is not an integer: its IEEE-754 double bits, the integer that
/// truncation toward zero (saturating at the bounds of `i64`) makes of it, and
/// whether it is finite.
#[derive(Clone, Copy, Debug, PartialEq, Eq, Structural)]
pub struct Real {
    pub bits: u64,
    pub whole: i64,
    pub finite: bool,
}

/// How a number is worked out from others.
#[derive(Clone, Copy, Debug, PartialEq, Eq, Structural)]
pub enum Op {
    /// All of them added up, in their order, from zero.
    Sum,
    /// The first less the second.
    Minus,
    /// The first, or zero where that is larger.
    AtLeastZero,
}

/// A JSON value. An object lists its members; of two members with one name the
/// later counts. A number may stand as the operation that gives it: it is still
/// to be worked out, as IEEE-754 doubles, from the numbers in the list.
#[derive(Debug, PartialEq)]
pub enum Json {
    Null,
    Bool(bool),
    Int(i128),
    Real(Real),
    Str(String),
    Calc(Op, Vec<Json>),
    Arr(Vec<Json>),
    Obj(Vec<(String, Json)>),
}

/// What a JSON value means: an object is a map from names to values.
#[verifier::ext_equal]
pub enum JsonV {
    Null,
    Bool(bool),
    Int(int),
    Real(Real),
    Str(Seq<char>),
    Calc(Op, Seq<JsonV>),
    Arr(Seq<JsonV>),
    Obj(Map<Seq<char>, JsonV>),
}

/// The values of a list of JSON values.
pub open spec fn list_view(s: Seq<Json>) -> Seq<JsonV>
    decreases s,
{
    Seq::new(
        s.len(),
        |i: int|
            if 0 <= i < s.len() {
                s[i].view()
            } else {
                JsonV::Null
            },
    )
}

/// The map that a list of members stands for.
pub open spec fn members_view(s: Seq<(String, Json)>) -> Map<Seq<char>, JsonV>
    decreases s,
{
    if s.len() == 0 {
        Map::empty()
    } else {
        members_view(s.subrange(0, s.len() - 1)).insert(
            s[s.len() - 1].0@,
            s[s.len() - 1].1.view(),
        )
    }
}

impl Json {
    pub open spec fn view(&self) -> JsonV
        decreases self,
    {
        match self {
            Json::Null => JsonV::Null,
            Json::Bool(b) => JsonV::Bool(*b),
            Json::Int(n) => JsonV::Int(*n as int),
            Json::Real(r) => JsonV::Real(*r),
            Json::Str(s) => JsonV::Str(s@),
            Json::Calc(op, v) => JsonV::Calc(*op, list_view(v@)),
            Json::Arr(v) => JsonV::Arr(list_view(v@)),
            Json::Obj(v) => JsonV::Obj(members_view(v@)),
        }
    }
}

impl JsonV {
    /// The member of an object; nothing on any other value.
    pub open spec fn get(self, key: Seq<char>) -> Option<JsonV> {
        match self {
            JsonV::Obj(m) => if m.contains_key(key) {
                Some(m[key])
            } else {
                None
            },
            _ => None,
        }
    }

    /// The object with one member set; `Null` counts as the empty object.
    pub open spec fn put(self, key: Seq<char>, value: JsonV) -> JsonV {
        match self {
            JsonV::Obj(m) => JsonV::Obj(m.insert(key, value)),
            _ => JsonV::Obj(Map::empty().insert(key, value)),
        }
    }

    /// The object without that member.
    pub open spec fn without(self, key: Seq<char>) -> JsonV {
        match self {
            JsonV::Obj(m) => JsonV::Obj(m.remove(key)),
            _ => self,
        }
    }

    pub open spec fn as_str(self) -> Option<Seq<char>> {
        match self {
            JsonV::Str(s) => Some(s),
            _ => None,
        }
    }

    /// An integer within the bounds of `i64`.
    pub open spec fn as_i64(self) -> Option<int> {
        match self {
            JsonV::Int(n) => if i64::MIN <= n <= i64::MAX {
                Some(n)
            } else {
                None
            },
            _ => None,
        }
    }

    /// An integer within the bounds of `u64`.
    pub open spec fn as_u64(self) -> Option<int> {
        match self {
            JsonV::Int(n) => if 0 <= n <= u64::MAX {
                Some(n)
            } else {
                None
            },
            _ => None,
        }
    }

    pub open spec fn as_bool(self) -> Option<bool> {
        match self {
            JsonV::Bool(b) => Some(b),
            _ => None,
        }
    }

    pub open spec fn as_arr(self) -> Option<Seq<JsonV>> {
        match self {
            JsonV::Arr(s) => Some(s),
            _ => None,
        }
    }

    /// The member `key` read as a string.
    pub open spec fn get_str(self, key: Seq<char>) -> Option<Seq<char>> {
        match self.get(key) {
            Some(v) => v.as_str(),
            None => None,
        }
    }

    /// The member `key` read as an `i64`.
    pub open spec fn get_i64(self, key: Seq<char>) -> Option<int> {
        match self.get(key) {
            Some(v) => v.as_i64(),
            None => None,
        }
    }

    /// The member `key` read as a truth value.
    pub open spec fn get_bool(self, key: Seq<char>) -> Option<bool> {
        match self.get(key) {
            Some(v) => v.as_bool(),
            None => None,
        }
    }

    /// The member `key` read as an array.
    pub open spec fn get_arr(self, key: Seq<char>) -> Option<Seq<JsonV>> {
        match self.get(key) {
            Some(v) => v.as_arr(),
            None => None,
        }
    }

    /// The empty object.
    pub open spec fn empty() -> JsonV {
        JsonV::Obj(Map::empty())
    }
}

/// The value behind an optional reference.
pub open spec fn opt_view(o: Option<&Json>) -> Option<JsonV> {
    match o {
        Some(j) => Some(j@),
        None => None,
    }
}

/// The text behind an optional reference.
pub open spec fn opt_text(o: Option<&str>) -> Option<Seq<char>> {
    match o {
        Some(s) => Some(s@),
        None => None,
    }
}

/// The text of an optional string.
pub open spec fn opt_string(o: Option<String>) -> Option<Seq<char>> {
    match o {
        Some(s) => Some(s@),
        None => None,
    }
}

/// The number of an optional integer.
pub open spec fn opt_int(o: Option<i64>) -> Option<int> {
    match o {
        Some(n) => Some(n as int),
        None => None,
    }
}

/// An optional text as a JSON value.
pub open spec fn text_or_null(o: Option<Seq<char>>) -> JsonV {
    match o {
        Some(s) => JsonV::Str(s),
        None => JsonV::Null,
    }
}

/// An optional integer as a JSON value.
pub open spec fn int_or_null(o: Option<int>) -> JsonV {
    match o {
        Some(n) => JsonV::Int(n),
        None => JsonV::Null,
    }
}

/// An optional value as a JSON value.
pub open spec fn value_or_null(o: Option<JsonV>) -> JsonV {
    match o {
        Some(v) => v,
        None => JsonV::Null,
    }
}

/// Setting the last of the members named `key` sets that member of the map.
proof fn members_update(s: Seq<(String, Json)>, i: int, m: (String, Json))
    requires
        0 <= i < s.len(),
        s[i].0@ == m.0@,
        forall|j: int| i < j < s.len() ==> s[j].0@ != m.0@,
    ensures
        members_view(s.update(i, m)) == members_view(s).insert(m.0@, m.1@),
    decreases s.len(),
{
    let t = s.update(i, m);
    let n = s.len() - 1;
    if i == n {
        assert(t.subrange(0, n) =~= s.subrange(0, n));
        assert(members_view(t) =~= members_view(s).insert(m.0@, m.1@));
    } else {
        assert(t.subrange(0, n) =~= s.subrange(0, n).update(i, m));
        members_update(s.subrange(0, n), i, m);
        assert(t[n] == s[n]);
        assert(members_view(t) =~= members_view(s).insert(m.0@, m.1@));
    }
}

/// A name that no member bears is not in the map, and the last member that bears one gives its value.
proof fn members_lookup(s: Seq<(String, Json)>, key: Seq<char>, from: int)
    requires
        0 <= from <= s.len(),
        forall|j: int| from <= j < s.len() ==> s[j].0@ != key,
    ensures
        from == 0 ==> !members_view(s).contains_key(key),
        from > 0 && s[from - 1].0@ == key ==> members_view(s).contains_key(key)
            && members_view(s)[key] == s[from - 1].1@,
    decreases s.len(),
{
    if s.len() > from {
        members_lookup(s.subrange(0, s.len() - 1), key, from);
    }
}

impl Json {
    /// The member of an object; nothing on any other value.
    pub fn get(&self, key: &str) -> (r: Option<&Json>)
        ensures
            opt_view(r) == self@.get(key@),
    {
        match self {
            Json::Obj(v) => {
                let mut i: usize = v.len();
                while i > 0
                    invariant
                        i <= v@.len(),
                        self@ == JsonV::Obj(members_view(v@)),
                        forall|j: int| i <= j < v@.len() ==> v@[j].0@ != key@,
                    decreases i,
                {
                    if same(v[i - 1].0.as_str(), key) {
                        proof {
                            members_lookup(v@, key@, i as int);
                        }
                        return Some(&v[i - 1].1);
                    }
                    i -= 1;
                }
                proof {
                    members_lookup(v@, key@, 0);
                }
                None
            },
            _ => None,
        }
    }

    pub fn as_str(&self) -> (r: Option<&str>)
        ensures
            opt_text(r) == self@.as_str(),
    {
        match self {
            Json::Str(s) => Some(s.as_str()),
            _ => None,
        }
    }

    pub fn as_i64(&self) -> (r: Option<i64>)
        ensures
            opt_int(r) == self@.as_i64(),
    {
        match self {
            Json::Int(n) => {
                if -0x8000_0000_0000_0000 <= *n && *n <= 0x7fff_ffff_ffff_ffff {
                    Some(*n as i64)
                } else {
                    None
                }
            },
            _ => None,
        }
    }

    pub fn as_u64(&self) -> (r: Option<u64>)
        ensures
            r matches Some(n) ==> self@.as_u64() == Some(n as int),
            r is None ==> self@.as_u64() is None,
    {
        match self {
            Json::Int(n) => {
                if 0 <= *n && *n <= 0xffff_ffff_ffff_ffff {
                    Some(*n as u64)
                } else {
                    None
                }
            },
            _ => None,
        }
    }

    pub fn as_bool(&self) -> (r: Option<bool>)
        ensures
            r == self@.as_bool(),
    {
        match self {
            Json::Bool(b) => Some(*b),
            _ => None,
        }
    }

    pub fn as_arr(&self) -> (r: Option<&Vec<Json>>)
        ensures
            match r {
                Some(v) => self@ == JsonV::Arr(list_view(v@)),
                None => self@.as_arr() is None,
            },
    {
        match self {
            Json::Arr(v) => Some(v),
            _ => None,
        }
    }

    pub fn is_obj(&self) -> (b: bool)
        ensures
            b == self@ is Obj,
    {
        matches!(self, Json::Obj(_))
    }

    /// The member `key` read as a string.
    pub fn get_str(&self, key: &str) -> (r: Option<&str>)
        ensures
            opt_text(r) == self@.get_str(key@),
    {
        match self.get(key) {
            Some(v) => v.as_str(),
            None => None,
        }
    }

    /// The member `key` read as an `i64`.
    pub fn get_i64(&self, key: &str) -> (r: Option<i64>)
        ensures
            opt_int(r) == self@.get_i64(key@),
    {
        match self.get(key) {
            Some(v) => v.as_i64(),
            None => None,
        }
    }

    /// The member `key` read as a truth value.
    pub fn get_bool(&self, key: &str) -> (r: Option<bool>)
        ensures
            r == self@.get_bool(key@),
    {
        match self.get(key) {
            Some(v) => v.as_bool(),
            None => None,
        }
    }

    /// The member `key` read as an array.
    pub fn get_arr(&self, key: &str) -> (r: Option<&Vec<Json>>)
        ensures
            match r {
                Some(v) => self@.get_arr(key@) == Some(list_view(v@)),
                None => self@.get_arr(key@) is None,
            },
    {
        match self.get(key) {
            Some(v) => v.as_arr(),
            None => None,
        }
    }

    /// Sets one member of an object; `Null` becomes an object.
    pub fn set(&mut self, key: &str, value: Json)
        requires
            old(self)@ is Obj || old(self)@ is Null,
        ensures
            final(self)@ == old(self)@.put(key@, value@),
    {
        let mut taken: Json = Json::Null;
        std::mem::swap(self, &mut taken);
        *self = taken.put(key, value);
    }

    /// The object with one member set; `Null` becomes an object.
    pub fn put(self, key: &str, value: Json) -> (r: Json)
        requires
            self@ is Obj || self@ is Null,
        ensures
            r@ == self@.put(key@, value@),
    {
        let mut v: Vec<(String, Json)> = match self {
            Json::Obj(v) => v,
            _ => Vec::new(),
        };
        assert(self@ is Null ==> members_view(v@) =~= Map::empty());
        let ghost before = v@;
        let ghost goal = self@.put(key@, value@);
        let mut i: usize = v.len();
        while i > 0
            invariant
                i <= v@.len(),
                v@ == before,
                goal == self@.put(key@, value@),
                goal == JsonV::Obj(members_view(before).insert(key@, value@)),
                forall|j: int| i <= j < v@.len() ==> v@[j].0@ != key@,
            decreases i,
        {
            if same(v[i - 1].0.as_str(), key) {
                let m: (String, Json) = (key.to_owned(), value);
                proof {
                    members_update(v@, i - 1, m);
                }
                v.set(i - 1, m);
                return Json::Obj(v);
            }
            i -= 1;
        }
        v.push((key.to_owned(), value));
        assert(v@.subrange(0, v@.len() - 1) =~= before);
        Json::Obj(v)
    }

    /// The object without that member.
    pub fn without(self, key: &str) -> (r: Json)
        ensures
            r@ == self@.without(key@),
    {
        match self {
            Json::Obj(v) => {
                let mut kept: Vec<(String, Json)> = Vec::new();
                let mut i: usize = 0;
                while i < v.len()
                    invariant
                        i <= v@.len(),
                        members_view(kept@) =~= members_view(v@.subrange(0, i as int)).remove(key@),
                    decreases v@.len() - i,
                {
                    let ghost before = kept@;
                    assert(v@.subrange(0, i + 1).subrange(0, i as int) =~= v@.subrange(0, i as int));
                    if !same(v[i].0.as_str(), key) {
                        kept.push((v[i].0.clone(), v[i].1.clone()));
                        assert(kept@.subrange(0, kept@.len() - 1) =~= before);
                    }
                    i += 1;
                }
                assert(v@.subrange(0, v@.len() as int) =~= v@);
                Json::Obj(kept)
            },
            _ => self,
        }
    }

    /// The empty object.
    pub fn object() -> (r: Json)
        ensures
            r@ == JsonV::empty(),
    {
        let v: Vec<(String, Json)> = Vec::new();
        Json::Obj(v)
    }

    /// A string value.
    pub fn text(s: &str) -> (r: Json)
        ensures
            r@ == JsonV::Str(s@),
    {
        Json::Str(s.to_owned())
    }

    /// An integer value.
    pub fn num(n: i64) -> (r: Json)
        ensures
            r@ == JsonV::Int(n as int),
    {
        Json::Int(n as i128)
    }

    /// An integer value.
    pub fn count(n: usize) -> (r: Json)
        ensures
            r@ == JsonV::Int(n as int),
    {
        Json::Int(n as i128)
    }

    /// An optional string; `Null` where there is none.
    pub fn opt_text(o: Option<&str>) -> (r: Json)
        ensures
            r@ == text_or_null(opt_text(o)),
    {
        match o {
            Some(s) => Json::Str(s.to_owned()),
            None => Json::Null,
        }
    }

    /// An optional string; `Null` where there is none.
    pub fn opt_string(o: Option<String>) -> (r: Json)
        ensures
            r@ == text_or_null(opt_string(o)),
    {
        match o {
            Some(s) => Json::Str(s),
            None => Json::Null,
        }
    }

    /// An optional integer; `Null` where there is none.
    pub fn opt_int(o: Option<i64>) -> (r: Json)
        ensures
            r@ == int_or_null(opt_int(o)),
    {
        match o {
            Some(n) => Json::Int(n as i128),
            None => Json::Null,
        }
    }

    /// An optional value; `Null` where there is none.
    pub fn or_null(o: Option<&Json>) -> (r: Json)
        ensures
            r@ == value_or_null(opt_view(o)),
    {
        match o {
            Some(j) => j.clone(),
            None => Json::Null,
        }
    }
}

impl Clone for Json {
    fn clone(&self) -> (r: Self)
        ensures
            r@ == self@,
        decreases self,
    {
        match self {
            Json::Null => Json::Null,
            Json::Bool(b) => Json::Bool(*b),
            Json::Int(n) => Json::Int(*n),
            Json::Real(x) => Json::Real(*x),
            Json::Str(s) => Json::Str(s.clone()),
            Json::Calc(op, v) => {
                let mut out: Vec<Json> = Vec::new();
                let mut i: usize = 0;
                while i < v.len()
                    invariant
                        i <= v@.len(),
                        out@.len() == i,
                        decreases_to!(self => v),
                        forall|j: int| 0 <= j < i ==> out@[j]@ == v@[j]@,
                    decreases v@.len() - i,
                {
                    out.push(v[i].clone());
                    i += 1;
                }
                assert(list_view(out@) =~= list_view(v@));
                Json::Calc(*op, out)
            },
            Json::Arr(v) => {
                let mut out: Vec<Json> = Vec::new();
                let mut i: usize = 0;
                while i < v.len()
                    invariant
                        i <= v@.len(),
                        out@.len() == i,
                        decreases_to!(self => v),
                        forall|j: int| 0 <= j < i ==> out@[j]@ == v@[j]@,
                    decreases v@.len() - i,
                {
                    out.push(v[i].clone());
                    i += 1;
                }
                assert(list_view(out@) =~= list_view(v@));
                Json::Arr(out)
            },
            Json::Obj(v) => {
                let mut out: Vec<(String, Json)> = Vec::new();
                let mut i: usize = 0;
                while i < v.len()
                    invariant
                        i <= v@.len(),
                        decreases_to!(self => v),
                        members_view(out@) == members_view(v@.subrange(0, i as int)),
                    decreases v@.len() - i,
                {
                    let ghost before = out@;
                    out.push((v[i].0.clone(), v[i].1.clone()));
                    assert(out@.subrange(0, out@.len() - 1) =~= before);
                    assert(v@.subrange(0, i + 1).subrange(0, i as int) =~= v@.subrange(0, i as int));
                    i += 1;
                }
                assert(v@.subrange(0, v@.len() as int) =~= v@);
                Json::Obj(out)
            },
        }
    }
}

/// A copy of a list of values.
pub fn clone_slice(v: &[Json]) -> (r: Vec<Json>)
    ensures
        list_view(r@) == list_view(v@),
{
    let mut r: Vec<Json> = Vec::new();
    let mut i: usize = 0;
    while i < v.len()
        invariant
            i <= v@.len(),
            r@.len() == i,
            forall|j: int| 0 <= j < i ==> r@[j]@ == v@[j]@,
        decreases v@.len() - i,
    {
        r.push(v[i].clone());
        i += 1;
    }
    assert(list_view(r@) =~= list_view(v@));
    r
}

#[verifier::external_type_specification]
#[verifier::external_body]
pub struct ExValue(serde_json::Value);

/// Takes a `serde_json::Value` apart, one arm for each of its variants. Nothing
/// is claimed of the result here; `parse_json` names it.
#[verifier::external_body]
fn from_serde(value: serde_json::Value) -> Json {
    match value {
        serde_json::Value::Null => Json::Null,
        serde_json::Value::Bool(b) => Json::Bool(b),
        serde_json::Value::Number(n) => match (n.as_i128(), n.as_f64().unwrap_or_default()) {
            (Some(i), _) => Json::Int(i),
            (None, x) => Json::Real(Real { bits: x.to_bits(), whole: x as i64, finite: true }),
        },
        serde_json::Value::String(s) => Json::Str(s),
        serde_json::Value::Array(v) => Json::Arr(v.into_iter().map(from_serde).collect()),
        serde_json::Value::Object(m) => {
            Json::Obj(m.into_iter().map(|(k, v)| (k, from_serde(v))).collect())
        },
    }
}

/// What `serde_json::from_str` makes of a text: the value it spells, or the
/// message of the error.
pub uninterp spec fn json_of_text(text: Seq<char>) -> Result<JsonV, Seq<char>>;

/// The value or the message behind a result.
pub open spec fn parse_view(r: Result<Json, String>) -> Result<JsonV, Seq<char>> {
    match r {
        Ok(j) => Ok(j@),
        Err(e) => Err(e@),
    }
}

/// `serde_json::from_str` into a `serde_json::Value`: the value that the text
/// spells, or the error's message, both determined by the text alone.
#[verifier::external_body]
pub(crate) fn parse_json(text: &str) -> (r: Result<Json, String>)
    ensures
        parse_view(r) == json_of_text(text@),
{
    match serde_json::from_str::<serde_json::Value>(text) {
        Ok(value) => Ok(from_serde(value)),
        Err(error) => Err(error.to_string()),
    }
}

/// The value that a JSON text spells, or what is wrong with it.
pub fn from_text(text: &str) -> (r: Result<Json, String>)
    ensures
        parse_view(r) == json_of_text(text@),
{
    parse_json(text)
}

/// What `str::parse` makes of a decimal numeral, rounded to an IEEE-754 double.
pub uninterp spec fn real_of_text(text: Seq<char>) -> Option<Real>;

/// `str::parse` to a double, held by its bits and its truncation;
/// `serde_json::Number::from_f64` tells whether it is finite. The result is
/// determined by the text alone; which texts are numerals is left unsaid.
#[verifier::external_body]
pub(crate) fn parse_real(text: &str) -> (r: Option<Real>)
    ensures
        r == real_of_text(text@),
{
    let x = text.parse().ok()?;
    let finite: bool = serde_json::Number::from_f64(x).is_some();
    Some(Real { bits: x.to_bits(), whole: x as i64, finite })
}

/// The last integer up to which all are doubles.
pub const EXACT_INT: i64 = 9_007_199_254_740_992;

/// The double that `serde_json` makes of an integer; none beyond the bounds of
/// `i64` and `u64`.
pub uninterp spec fn double_of_int(n: int) -> Option<Real>;

/// `serde_json::Number::from_i128` and `as_f64`: the integer rounded to a double,
/// held by its bits and its truncation. The result is determined by the integer
/// alone; there is one from the least `i64` to the greatest `u64`, and up to the last
/// integer of which all are doubles the truncation is the integer. How others are
/// rounded, and the bits, are left unsaid.
#[verifier::external_body]
pub(crate) fn to_double(n: i128) -> (r: Option<Real>)
    ensures
        r == double_of_int(n as int),
        (r is Some) == (i64::MIN <= n && n <= u64::MAX),
        r matches Some(d) ==> (-EXACT_INT <= n && n <= EXACT_INT ==> d.whole == n),
{
    let x = serde_json::Number::from_i128(n)?.as_f64()?;
    Some(Real { bits: x.to_bits(), whole: x as i64, finite: true })
}

/// A number or a numeral cut to an integer within the bounds of `i64`.
pub open spec fn whole_of(v: Option<JsonV>) -> Option<int> {
    match v {
        Some(JsonV::Str(s)) => match real_of_text(crate::text::trim(s)) {
            Some(r) => Some(r.whole as int),
            None => None,
        },
        Some(JsonV::Int(n)) => Some(
            if n > i64::MAX {
                i64::MAX as int
            } else if n < i64::MIN {
                i64::MIN as int
            } else {
                n
            },
        ),
        Some(JsonV::Real(r)) => Some(r.whole as int),
        _ => None,
    }
}

/// A number or a numeral cut to an integer within the bounds of `i64`.
pub fn whole(v: Option<&Json>) -> (r: Option<i64>)
    ensures
        opt_int(r) == whole_of(opt_view(v)),
{
    match v {
        Some(j) => match j {
            Json::Str(s) => match parse_real(crate::text::trimmed(s.as_str()).as_str()) {
                Some(x) => Some(x.whole),
                None => None,
            },
            Json::Int(n) => {
                if *n > 0x7fff_ffff_ffff_ffff {
                    Some(i64::MAX)
                } else if *n < -0x8000_0000_0000_0000 {
                    Some(i64::MIN)
                } else {
                    Some(*n as i64)
                }
            },
            Json::Real(x) => Some(x.whole),
            _ => None,
        },
        None => None,
    }
}

impl JsonV {
    /// The object with the members of another set in it; anything but an object adds nothing.
    pub open spec fn overlay(self, patch: JsonV) -> JsonV {
        match (self, patch) {
            (JsonV::Obj(m), JsonV::Obj(p)) => JsonV::Obj(m.union_prefer_right(p)),
            _ => self,
        }
    }

    /// The object with one member of another set in it, where that has it.
    pub open spec fn take(self, source: JsonV, key: Seq<char>) -> JsonV {
        match source.get(key) {
            Some(v) => self.put(key, v),
            None => self,
        }
    }
}

impl Json {
    /// The object with the members of another set in it; anything but an object adds nothing.
    pub fn overlay(self, patch: &Json) -> (r: Json)
        requires
            self@ is Obj,
        ensures
            r@ == self@.overlay(patch@),
    {
        match patch {
            Json::Obj(v) => {
                let ghost base = self@->Obj_0;
                let mut r: Json = self;
                let mut i: usize = 0;
                assert(base.union_prefer_right(members_view(v@.subrange(0, 0))) =~= base);
                while i < v.len()
                    invariant
                        i <= v@.len(),
                        r@ == JsonV::Obj(base.union_prefer_right(members_view(v@.subrange(0, i as int)))),
                    decreases v@.len() - i,
                {
                    let ghost p = members_view(v@.subrange(0, i as int));
                    assert(v@.subrange(0, i + 1).subrange(0, i as int) =~= v@.subrange(0, i as int));
                    r = r.put(v[i].0.as_str(), v[i].1.clone());
                    assert(base.union_prefer_right(p).insert(v@[i as int].0@, v@[i as int].1@)
                        =~= base.union_prefer_right(p.insert(v@[i as int].0@, v@[i as int].1@)));
                    i += 1;
                }
                assert(v@.subrange(0, v@.len() as int) =~= v@);
                r
            },
            _ => self,
        }
    }

    /// The object with one member of another set in it, where that has it.
    pub fn take(self, source: &Json, key: &str) -> (r: Json)
        requires
            self@ is Obj,
        ensures
            r@ == self@.take(source@, key@),
            r@ is Obj,
    {
        match source.get(key) {
            Some(v) => self.put(key, v.clone()),
            None => self,
        }
    }
}

/// The last `n` of a list.
pub open spec fn last_n<T>(s: Seq<T>, n: int) -> Seq<T> {
    if s.len() > n {
        s.subrange(s.len() - n, s.len() as int)
    } else {
        s
    }
}

/// The last `n` values of a list.
pub fn keep_last(v: &[Json], n: usize) -> (r: Vec<Json>)
    ensures
        list_view(r@) == last_n(list_view(v@), n as int),
{
    let from: usize = if v.len() > n {
        v.len() - n
    } else {
        0
    };
    let r: Vec<Json> = clone_slice(vstd::slice::slice_subrange(v, from, v.len()));
    assert(list_view(v@.subrange(from as int, v@.len() as int)) =~= last_n(list_view(v@), n as int));
    r
}

/// Member `i` is the last of its name.
spec fn last_named(s: Seq<(String, Json)>, i: int) -> bool {
    0 <= i < s.len() && forall|j: int| i < j < s.len() ==> (#[trigger] s[j]).0@ != s[i].0@
}

/// Every name of the map is that of a last member, which gives its value.
proof fn members_have_last(s: Seq<(String, Json)>, key: Seq<char>)
    requires
        members_view(s).contains_key(key),
    ensures
        exists|i: int| #[trigger] last_named(s, i) && s[i].0@ == key && members_view(s)[key] == s[i].1@,
    decreases s.len(),
{
    let n = s.len() - 1;
    if s[n].0@ == key {
        assert(last_named(s, n));
    } else {
        let t = s.subrange(0, n);
        members_have_last(t, key);
        let i = choose|i: int| #[trigger] last_named(t, i) && t[i].0@ == key && members_view(t)[key] == t[i].1@;
        assert(last_named(s, i)) by {
            assert forall|j: int| i < j < s.len() implies (#[trigger] s[j]).0@ != s[i].0@ by {
                if j < n {
                    assert(t[j].0@ != t[i].0@);
                }
            }
        }
    }
}

/// The last member of that name.
fn last_index(v: &Vec<(String, Json)>, key: &str) -> (r: Option<usize>)
    ensures
        match r {
            Some(i) => i < v@.len() && v@[i as int].0@ == key@ && last_named(v@, i as int),
            None => forall|j: int| 0 <= j < v@.len() ==> (#[trigger] v@[j]).0@ != key@,
        },
{
    let mut i: usize = v.len();
    while i > 0
        invariant
            i <= v@.len(),
            forall|j: int| i <= j < v@.len() ==> (#[trigger] v@[j]).0@ != key@,
        decreases i,
    {
        if same(v[i - 1].0.as_str(), key) {
            return Some(i - 1);
        }
        i -= 1;
    }
    None
}

impl Json {
    /// Equality of two values; the order of an object's members does not count.
    pub fn same_value(&self, other: &Json) -> (b: bool)
        ensures
            b == (self@ == other@),
        decreases self,
    {
        match (self, other) {
            (Json::Null, Json::Null) => true,
            (Json::Bool(a), Json::Bool(b)) => *a == *b,
            (Json::Int(a), Json::Int(b)) => *a == *b,
            (Json::Real(a), Json::Real(b)) => *a == *b,
            (Json::Str(a), Json::Str(b)) => same(a.as_str(), b.as_str()),
            (Json::Calc(p, v), Json::Calc(q, w)) => {
                if *p != *q {
                    return false;
                }
                if v.len() != w.len() {
                    assert(list_view(v@).len() != list_view(w@).len());
                    return false;
                }
                let mut i: usize = 0;
                while i < v.len()
                    invariant
                        i <= v@.len(),
                        v@.len() == w@.len(),
                        *p == *q,
                        decreases_to!(self => v),
                        *self == Json::Calc(*p, *v),
                        *other == Json::Calc(*q, *w),
                        forall|j: int| 0 <= j < i ==> (#[trigger] v@[j])@ == w@[j]@,
                    decreases v@.len() - i,
                {
                    if !v[i].same_value(&w[i]) {
                        assert(list_view(v@)[i as int] != list_view(w@)[i as int]);
                        return false;
                    }
                    i += 1;
                }
                assert(list_view(v@) =~= list_view(w@));
                true
            },
            (Json::Arr(v), Json::Arr(w)) => {
                if v.len() != w.len() {
                    assert(list_view(v@).len() != list_view(w@).len());
                    return false;
                }
                let mut i: usize = 0;
                while i < v.len()
                    invariant
                        i <= v@.len(),
                        v@.len() == w@.len(),
                        decreases_to!(self => v),
                        *self == Json::Arr(*v),
                        *other == Json::Arr(*w),
                        forall|j: int| 0 <= j < i ==> (#[trigger] v@[j])@ == w@[j]@,
                    decreases v@.len() - i,
                {
                    if !v[i].same_value(&w[i]) {
                        assert(list_view(v@)[i as int] != list_view(w@)[i as int]);
                        return false;
                    }
                    i += 1;
                }
                assert(list_view(v@) =~= list_view(w@));
                true
            },
            (Json::Obj(v), Json::Obj(w)) => {
                let ghost a = members_view(v@);
                let ghost b = members_view(w@);
                let mut i: usize = 0;
                while i < v.len()
                    invariant
                        i <= v@.len(),
                        decreases_to!(self => v),
                        *self == Json::Obj(*v),
                        *other == Json::Obj(*w),
                        a == members_view(v@),
                        b == members_view(w@),
                        forall|j: int|
                            0 <= j < i && #[trigger] last_named(v@, j) ==> b.contains_key(v@[j].0@) && b[v@[j].0@]
                                == v@[j].1@,
                    decreases v@.len() - i,
                {
                    let last: Option<usize> = last_index(v, v[i].0.as_str());
                    let shown: bool = match last {
                        Some(k) => k == i,
                        None => false,
                    };
                    if shown {
                        proof {
                            members_lookup(v@, v@[i as int].0@, i + 1);
                        }
                        match last_index(w, v[i].0.as_str()) {
                            None => {
                                proof {
                                    members_lookup(w@, v@[i as int].0@, 0);
                                    assert(a.contains_key(v@[i as int].0@) && !b.contains_key(v@[i as int].0@));
                                }
                                return false;
                            },
                            Some(k) => {
                                proof {
                                    members_lookup(w@, v@[i as int].0@, k + 1);
                                }
                                if !v[i].1.same_value(&w[k].1) {
                                    assert(a[v@[i as int].0@] != b[v@[i as int].0@]);
                                    return false;
                                }
                            },
                        }
                    }
                    i += 1;
                }
                let mut k: usize = 0;
                while k < w.len()
                    invariant
                        k <= w@.len(),
                        *self == Json::Obj(*v),
                        *other == Json::Obj(*w),
                        a == members_view(v@),
                        b == members_view(w@),
                        forall|j: int| 0 <= j < k ==> a.contains_key((#[trigger] w@[j]).0@),
                    decreases w@.len() - k,
                {
                    match last_index(v, w[k].0.as_str()) {
                        Some(i) => {
                            proof {
                                members_lookup(v@, w@[k as int].0@, i + 1);
                            }
                        },
                        None => {
                            proof {
                                members_lookup(v@, w@[k as int].0@, 0);
                                members_contain(w@, k as int);
                                assert(b.contains_key(w@[k as int].0@) && !a.contains_key(w@[k as int].0@));
                            }
                            return false;
                        },
                    }
                    k += 1;
                }
                proof {
                    assert forall|key: Seq<char>| a.contains_key(key) <==> b.contains_key(key) by {
                        if a.contains_key(key) {
                            members_have_last(v@, key);
                        }
                        if b.contains_key(key) {
                            members_have_last(w@, key);
                        }
                    }
                    assert forall|key: Seq<char>| a.contains_key(key) implies a[key] == b[key] by {
                        members_have_last(v@, key);
                    }
                    assert(a =~= b);
                }
                true
            },
            _ => false,
        }
    }
}

/// A member's name is in the map.
proof fn members_contain(s: Seq<(String, Json)>, i: int)
    requires
        0 <= i < s.len(),
    ensures
        members_view(s).contains_key(s[i].0@),
    decreases s.len(),
{
    if i < s.len() - 1 {
        members_contain(s.subrange(0, s.len() - 1), i);
    }
}

} // verus!
