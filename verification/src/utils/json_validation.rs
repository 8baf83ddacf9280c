//! Checks of the shape of a JSON value, with errors that say where in the
//! document the shape was not the expected one.

use vstd::prelude::*;
use vstd::string::StringExecFns;

verus! {

/// A JSON number: a whole number that is not negative, a negative whole
/// number, or any other number, held as the bits of its 64-bit
/// floating-point form, with zero always taken as positive.
#[derive(Debug, Clone, Copy, PartialEq, Eq, Structural)]
pub enum JsonNumber {
    PosInt(u64),
    NegInt(i64),
    Float(u64),
}

/// A JSON value. The members of an object stand in the order of their names.
#[derive(Debug)]
pub enum JsonValue {
    Null,
    Bool(bool),
    Number(JsonNumber),
    String(String),
    Array(Vec<JsonValue>),
    Object(Vec<(String, JsonValue)>),
}

/// A JSON value as plain mathematics.
pub enum JsonTree {
    Null,
    Bool(bool),
    Number(JsonNumber),
    String(Seq<char>),
    Array(Seq<JsonTree>),
    Object(Seq<(Seq<char>, JsonTree)>),
}

impl JsonValue {
    /// The value as plain mathematics.
    pub open spec fn tree(&self) -> JsonTree
        decreases self,
    {
        match self {
            JsonValue::Null => JsonTree::Null,
            JsonValue::Bool(b) => JsonTree::Bool(*b),
            JsonValue::Number(n) => JsonTree::Number(*n),
            JsonValue::String(s) => JsonTree::String(s@),
            JsonValue::Array(items) => JsonTree::Array(
                Seq::new(
                    items@.len(),
                    |i: int|
                        if 0 <= i < items@.len() {
                            items@[i].tree()
                        } else {
                            JsonTree::Null
                        },
                ),
            ),
            JsonValue::Object(members) => JsonTree::Object(
                Seq::new(
                    members@.len(),
                    |i: int|
                        if 0 <= i < members@.len() {
                            (members@[i].0@, members@[i].1.tree())
                        } else {
                            (Seq::<char>::empty(), JsonTree::Null)
                        },
                ),
            ),
        }
    }
}

/// The error of a check: what was wrong, and where.
#[derive(Debug)]
pub struct JsonError(String);

pub type JsonResult<T> = Result<T, JsonError>;

impl JsonError {
    /// What was wrong, and where.
    pub closed spec fn reason(&self) -> Seq<char> {
        self.0@
    }

    /// The error as it is shown: its reason behind the words `JSON Error: `.
    pub fn to_string(&self) -> (text: String)
        ensures
            text@ == "JSON Error: "@ + self.reason(),
    {
        let mut text = "JSON Error: ".to_owned();
        text.append(self.0.as_str());
        text
    }
}

/// The name of the type of a JSON value.
pub open spec fn kind_name(value: JsonTree) -> Seq<char> {
    match value {
        JsonTree::Null => "null"@,
        JsonTree::Object(_) => "object"@,
        JsonTree::Array(_) => "array"@,
        JsonTree::String(_) => "string"@,
        JsonTree::Bool(_) => "boolean"@,
        JsonTree::Number(_) => "number"@,
    }
}

/// The name of the type of `value`.
pub fn json_value_type_to_string(value: &JsonValue) -> (name: String)
    ensures
        name@ == kind_name(value.tree()),
{
    match value {
        JsonValue::Null => "null".to_owned(),
        JsonValue::Object(_) => "object".to_owned(),
        JsonValue::Array(_) => "array".to_owned(),
        JsonValue::String(_) => "string".to_owned(),
        JsonValue::Bool(_) => "boolean".to_owned(),
        JsonValue::Number(_) => "number".to_owned(),
    }
}

/// Whether `value` can stand where `to` is expected: any number can stand
/// for any number, and every other value only for itself.
pub open spec fn convertible(value: JsonTree, to: JsonTree) -> bool {
    (value is Number && to is Number) || value == to
}

/// Whether two values are the same value.
pub fn json_equal(a: &JsonValue, b: &JsonValue) -> (same: bool)
    ensures
        same == (a.tree() == b.tree()),
    decreases a,
{
    match (a, b) {
        (JsonValue::Null, JsonValue::Null) => true,
        (JsonValue::Bool(x), JsonValue::Bool(y)) => *x == *y,
        (JsonValue::Number(x), JsonValue::Number(y)) => *x == *y,
        (JsonValue::String(x), JsonValue::String(y)) => *x == *y,
        (JsonValue::Array(x), JsonValue::Array(y)) => {
            if x.len() != y.len() {
                proof {
                    assert(a.tree()->Array_0.len() == x@.len());
                    assert(b.tree()->Array_0.len() == y@.len());
                }
                return false;
            }
            let mut i: usize = 0;
            while i < x.len()
                invariant
                    i <= x@.len(),
                    x@.len() == y@.len(),
                    *a == JsonValue::Array(*x),
                    *b == JsonValue::Array(*y),
                    forall|j: int| 0 <= j < i ==> x@[j].tree() == y@[j].tree(),
                decreases x@.len() - i,
            {
                proof {
                    assert(decreases_to!(*a => *x));
                    assert(decreases_to!(*x => x[i as int]));
                }
                if !json_equal(&x[i], &y[i]) {
                    proof {
                        assert(a.tree()->Array_0[i as int] == x@[i as int].tree());
                        assert(b.tree()->Array_0[i as int] == y@[i as int].tree());
                    }
                    return false;
                }
                i = i + 1;
            }
            proof {
                assert(a.tree()->Array_0 =~= b.tree()->Array_0);
            }
            true
        },
        (JsonValue::Object(x), JsonValue::Object(y)) => {
            if x.len() != y.len() {
                proof {
                    assert(a.tree()->Object_0.len() == x@.len());
                    assert(b.tree()->Object_0.len() == y@.len());
                }
                return false;
            }
            let mut i: usize = 0;
            while i < x.len()
                invariant
                    i <= x@.len(),
                    x@.len() == y@.len(),
                    *a == JsonValue::Object(*x),
                    *b == JsonValue::Object(*y),
                    forall|j: int|
                        0 <= j < i ==> x@[j].0@ == y@[j].0@ && x@[j].1.tree()
                            == y@[j].1.tree(),
                decreases x@.len() - i,
            {
                proof {
                    assert(decreases_to!(*a => *x));
                    assert(decreases_to!(*x => x[i as int]));
                    assert(decreases_to!(x[i as int] => x[i as int].1));
                }
                if !(x[i].0 == y[i].0) || !json_equal(&x[i].1, &y[i].1) {
                    proof {
                        assert(a.tree()->Object_0[i as int] == (
                            x@[i as int].0@,
                            x@[i as int].1.tree(),
                        ));
                        assert(b.tree()->Object_0[i as int] == (
                            y@[i as int].0@,
                            y@[i as int].1.tree(),
                        ));
                    }
                    return false;
                }
                i = i + 1;
            }
            proof {
                assert(a.tree()->Object_0 =~= b.tree()->Object_0);
            }
            true
        },
        _ => false,
    }
}

/// Whether `value` can stand where `to` is expected: any number can stand
/// for any number, and every other value only for itself.
pub fn json_convertible_to(value: &JsonValue, to: &JsonValue) -> (fits: bool)
    ensures
        fits == convertible(value.tree(), to.tree()),
{
    match (value, to) {
        (JsonValue::Number(_), JsonValue::Number(_)) => true,
        _ => json_equal(value, to),
    }
}

/// A copy of the value.
pub fn json_duplicate(value: &JsonValue) -> (copy: JsonValue)
    ensures
        copy.tree() == value.tree(),
    decreases value,
{
    match value {
        JsonValue::Null => JsonValue::Null,
        JsonValue::Bool(b) => JsonValue::Bool(*b),
        JsonValue::Number(n) => JsonValue::Number(*n),
        JsonValue::String(s) => JsonValue::String(s.clone()),
        JsonValue::Array(items) => {
            let mut copies: Vec<JsonValue> = Vec::new();
            let mut i: usize = 0;
            while i < items.len()
                invariant
                    i <= items@.len(),
                    *value == JsonValue::Array(*items),
                    decreases_to!(*value => *items),
                    copies@.len() == i,
                    forall|j: int| 0 <= j < i ==> copies@[j].tree() == items@[j].tree(),
                decreases items@.len() - i,
            {
                proof {
                    assert(decreases_to!(*value => *items));
                    assert(decreases_to!(*items => items[i as int]));
                }
                copies.push(json_duplicate(&items[i]));
                i = i + 1;
            }
            let copy = JsonValue::Array(copies);
            proof {
                assert(copy.tree()->Array_0 =~= value.tree()->Array_0);
            }
            copy
        },
        JsonValue::Object(members) => {
            let mut copies: Vec<(String, JsonValue)> = Vec::new();
            let mut i: usize = 0;
            while i < members.len()
                invariant
                    i <= members@.len(),
                    *value == JsonValue::Object(*members),
                    decreases_to!(*value => *members),
                    copies@.len() == i,
                    forall|j: int|
                        0 <= j < i ==> copies@[j].0@ == members@[j].0@
                            && copies@[j].1.tree() == members@[j].1.tree(),
                decreases members@.len() - i,
            {
                proof {
                    assert(decreases_to!(*value => *members));
                    assert(decreases_to!(*members => members[i as int]));
                    assert(decreases_to!(members[i as int] => members[i as int].1));
                }
                copies.push((members[i].0.clone(), json_duplicate(&members[i].1)));
                i = i + 1;
            }
            let copy = JsonValue::Object(copies);
            proof {
                assert(copy.tree()->Object_0 =~= value.tree()->Object_0);
            }
            copy
        },
    }
}

/// The reason of the error for a value of the type named `found` where one
/// of the type named `expected` has to stand, at the place `hierarchy`.
pub open spec fn type_error(hierarchy: Seq<char>, found: Seq<char>, expected: Seq<char>) -> Seq<
    char,
> {
    hierarchy + ": Invalid type \""@ + found + "\", expected \""@ + expected + "\""@
}

/// The error for `value` where a value of the type named `expected` has to
/// stand, at the place `hierarchy`.
fn invalid_type(hierarchy: &String, value: &JsonValue, expected: &str) -> (error: JsonError)
    ensures
        error.reason() == type_error(hierarchy@, kind_name(value.tree()), expected@),
{
    let mut text = hierarchy.clone();
    text.append(": Invalid type \"");
    text.append(json_value_type_to_string(value).as_str());
    text.append("\", expected \"");
    text.append(expected);
    text.append("\"");
    JsonError(text)
}

/// A value on its way through a check, with the place in the document at
/// which it stands.
pub struct JsonMaybeSomething<'a> {
    pub m_json: &'a JsonValue,
    pub m_hierarchy: String,
    pub m_has_value: bool,
}

impl<'a> JsonMaybeSomething<'a> {
    pub fn new(json: &'a JsonValue, hierarchy: String, has_value: bool) -> (maybe: Self)
        ensures
            maybe.m_json == json,
            maybe.m_hierarchy == hierarchy,
            maybe.m_has_value == has_value,
    {
        JsonMaybeSomething { m_json: json, m_hierarchy: hierarchy, m_has_value: has_value }
    }

    /// Whether the value stands for an error: whether it is `null`.
    pub fn is_error(&self) -> (error: bool)
        ensures
            error == (self.m_json.tree() is Null),
    {
        match self.m_json {
            JsonValue::Null => true,
            _ => false,
        }
    }

    /// The text of the value where it is a string, and the empty text otherwise.
    pub fn get_error(&self) -> (text: String)
        ensures
            text@ == match self.m_json.tree() {
                JsonTree::String(s) => s,
                _ => Seq::<char>::empty(),
            },
    {
        match self.m_json {
            JsonValue::String(s) => s.clone(),
            _ => String::new(),
        }
    }

    /// The value as a truth value. Fails where it is of another type.
    pub fn as_bool(&self) -> (result: JsonResult<bool>)
        ensures
            match self.m_json.tree() {
                JsonTree::Bool(b) => result is Ok && result->Ok_0 == b,
                other => result is Err && result->Err_0.reason() == type_error(
                    self.m_hierarchy@,
                    kind_name(other),
                    "boolean"@,
                ),
            },
    {
        match self.m_json {
            JsonValue::Bool(b) => Ok(*b),
            _ => Err(invalid_type(&self.m_hierarchy, self.m_json, "boolean")),
        }
    }

    /// The number that the value is. Fails where it is of another type.
    pub fn as_number(&self) -> (result: JsonResult<JsonNumber>)
        ensures
            match self.m_json.tree() {
                JsonTree::Number(n) => result is Ok && result->Ok_0 == n,
                other => result is Err && result->Err_0.reason() == type_error(
                    self.m_hierarchy@,
                    kind_name(other),
                    "number"@,
                ),
            },
    {
        match self.m_json {
            JsonValue::Number(n) => Ok(*n),
            _ => Err(invalid_type(&self.m_hierarchy, self.m_json, "number")),
        }
    }

    /// The value as a text. Fails where it is of another type.
    pub fn as_string(&self) -> (result: JsonResult<String>)
        ensures
            match self.m_json.tree() {
                JsonTree::String(s) => result is Ok && result->Ok_0@ == s,
                other => result is Err && result->Err_0.reason() == type_error(
                    self.m_hierarchy@,
                    kind_name(other),
                    "string"@,
                ),
            },
    {
        match self.m_json {
            JsonValue::String(s) => Ok(s.clone()),
            _ => Err(invalid_type(&self.m_hierarchy, self.m_json, "string")),
        }
    }

    /// The items of the value. Fails where it is no array.
    pub fn as_array(&self) -> (result: JsonResult<&Vec<JsonValue>>)
        ensures
            match self.m_json.tree() {
                JsonTree::Array(_) => result is Ok && *self.m_json == JsonValue::Array(
                    *result->Ok_0,
                ),
                other => result is Err && result->Err_0.reason() == type_error(
                    self.m_hierarchy@,
                    kind_name(other),
                    "array"@,
                ),
            },
    {
        match self.m_json {
            JsonValue::Array(items) => Ok(items),
            _ => Err(invalid_type(&self.m_hierarchy, self.m_json, "array")),
        }
    }

    /// A copy of the items of the value. Fails where it is no array.
    pub fn into_array(self) -> (result: JsonResult<Vec<JsonValue>>)
        ensures
            match self.m_json.tree() {
                JsonTree::Array(_) => result is Ok && JsonValue::Array(
                    result->Ok_0,
                ).tree() == self.m_json.tree(),
                other => result is Err && result->Err_0.reason() == type_error(
                    self.m_hierarchy@,
                    kind_name(other),
                    "array"@,
                ),
            },
    {
        match self.m_json {
            JsonValue::Array(_) => match json_duplicate(self.m_json) {
                JsonValue::Array(items) => Ok(items),
                _ => Err(invalid_type(&self.m_hierarchy, self.m_json, "array")),
            },
            _ => Err(invalid_type(&self.m_hierarchy, self.m_json, "array")),
        }
    }

    /// A copy of the members of the value. Fails where it is no object.
    pub fn into_object(self) -> (result: JsonResult<Vec<(String, JsonValue)>>)
        ensures
            match self.m_json.tree() {
                JsonTree::Object(_) => result is Ok && JsonValue::Object(
                    result->Ok_0,
                ).tree() == self.m_json.tree(),
                other => result is Err && result->Err_0.reason() == type_error(
                    self.m_hierarchy@,
                    kind_name(other),
                    "object"@,
                ),
            },
    {
        match self.m_json {
            JsonValue::Object(_) => match json_duplicate(self.m_json) {
                JsonValue::Object(members) => Ok(members),
                _ => Err(invalid_type(&self.m_hierarchy, self.m_json, "object")),
            },
            _ => Err(invalid_type(&self.m_hierarchy, self.m_json, "object")),
        }
    }

    /// The value as a text. Fails where it is of another type.
    pub fn into_string(self) -> (result: JsonResult<String>)
        ensures
            match self.m_json.tree() {
                JsonTree::String(s) => result is Ok && result->Ok_0@ == s,
                other => result is Err && result->Err_0.reason() == type_error(
                    self.m_hierarchy@,
                    kind_name(other),
                    "string"@,
                ),
            },
    {
        match self.m_json {
            JsonValue::String(s) => Ok(s.clone()),
            _ => Err(invalid_type(&self.m_hierarchy, self.m_json, "string")),
        }
    }
}

/// Checks the shape of one JSON document.
pub struct JsonChecker {
    pub m_json: JsonValue,
}

impl JsonChecker {
    pub fn new(json: JsonValue) -> (checker: Self)
        ensures
            checker.m_json == json,
    {
        JsonChecker { m_json: json }
    }

    /// The document itself, at the place named `hierarchy`.
    pub fn root(&self, hierarchy: &str) -> (maybe: JsonMaybeSomething<'_>)
        ensures
            *maybe.m_json == self.m_json,
            maybe.m_hierarchy@ == hierarchy@,
            maybe.m_has_value,
    {
        JsonMaybeSomething::new(&self.m_json, hierarchy.to_owned(), true)
    }
}

} // verus!
