//! JSON values and their text. Text is taken apart and strings are quoted
//! by `serde_json`; the values are put together and written out here.

use crate::common::order::compare_names;
use crate::common::order::Precedence;
use crate::common::text::decimal;
use crate::common::text::push_signed_decimal;
use std::collections::BTreeMap;
use vstd::prelude::*;
use vstd::string::StringExecFns;

verus! {

/// How deep into a value the reader looks: arrays and objects that lie
/// deeper are read as `Other`.
pub const MAX_DEPTH: usize = 16;

/// A JSON value.
#[derive(Debug, PartialEq)]
pub enum Json {
    /// `null`, `true`, `false`, or a number that is no whole number of 64
    /// bits.
    Other,
    /// A whole number.
    Int(i128),
    /// A string.
    Text(String),
    /// An array.
    List(Vec<Json>),
    /// An object: its members in their order.
    Object(Vec<(String, Json)>),
}

/// A JSON value as a value.
pub enum JsonModel {
    Other,
    Int(int),
    Text(Seq<char>),
    List(Seq<JsonModel>),
    Object(Seq<(Seq<char>, JsonModel)>),
}

/// A member of an object: its name and its value.
pub open spec fn named(name: Seq<char>, value: JsonModel) -> (Seq<char>, JsonModel) {
    (name, value)
}

impl DeepView for Json {
    type V = JsonModel;

    open spec fn deep_view(&self) -> JsonModel
        decreases self,
    {
        match self {
            Json::Other => JsonModel::Other,
            Json::Int(n) => JsonModel::Int(*n as int),
            Json::Text(text) => JsonModel::Text(text@),
            Json::List(items) => JsonModel::List(
                Seq::new(
                    items@.len(),
                    |i: int|
                        if 0 <= i < items@.len() {
                            items@[i].deep_view()
                        } else {
                            JsonModel::Other
                        },
                ),
            ),
            Json::Object(members) => JsonModel::Object(
                Seq::new(
                    members@.len(),
                    |i: int|
                        named(
                            members@[i].0@,
                            if 0 <= i < members@.len() {
                                members@[i].1.deep_view()
                            } else {
                                JsonModel::Other
                            },
                        ),
                ),
            ),
        }
    }
}

/// The array of the given items is the list of their models.
pub proof fn lemma_list_model(items: Vec<Json>)
    ensures
        Json::List(items).deep_view() == JsonModel::List(items.deep_view()),
{
    assert(Json::List(items).deep_view()->List_0 =~= items.deep_view());
}

/// The object of the given members is the object of their models.
pub proof fn lemma_object_model(members: Vec<(String, Json)>)
    ensures
        Json::Object(members).deep_view() == JsonModel::Object(members.deep_view()),
{
    assert(Json::Object(members).deep_view()->Object_0 =~= members.deep_view());
}

/// What `serde_json::from_str` returns for the text at the type `u64`, an
/// error taken as `None`.
pub uninterp spec fn json_u64(text: Seq<char>) -> Option<u64>;

/// What `serde_json::from_str` returns for the text at the type `i64`, an
/// error taken as `None`.
pub uninterp spec fn json_i64(text: Seq<char>) -> Option<i64>;

/// What `serde_json::from_str` returns for the text at the type `String`,
/// an error taken as `None`.
pub uninterp spec fn json_string(text: Seq<char>) -> Option<Seq<char>>;

/// What `serde_json::from_str` returns for the text at the type of a
/// vector of raw values, each taken as its text, an error taken as `None`.
pub uninterp spec fn json_array(text: Seq<char>) -> Option<Seq<Seq<char>>>;

/// What `serde_json::from_str` returns for the text at the type of an
/// ordered map from strings to raw values, each entry taken as its key and
/// the text of its value, an error taken as `None`.
pub uninterp spec fn json_object(text: Seq<char>) -> Option<Seq<(Seq<char>, Seq<char>)>>;

/// What `serde_json::to_string` returns for a string: the string as a JSON
/// string literal.
pub uninterp spec fn json_quoted(text: Seq<char>) -> Seq<char>;

/// Calls `serde_json::from_str` at the type `u64`. Nothing is claimed of
/// the result but that it is the same for the same text.
#[verifier::external_body]
fn read_u64(text: &str) -> (number: Option<u64>)
    ensures
        number == json_u64(text@),
{
    serde_json::from_str::<u64>(text).ok()
}

/// Calls `serde_json::from_str` at the type `i64`. Nothing is claimed of
/// the result but that it is the same for the same text.
#[verifier::external_body]
fn read_i64(text: &str) -> (number: Option<i64>)
    ensures
        number == json_i64(text@),
{
    serde_json::from_str::<i64>(text).ok()
}

/// Calls `serde_json::from_str` at the type `String`. Nothing is claimed
/// of the result but that it is the same for the same text.
#[verifier::external_body]
fn read_string(text: &str) -> (string: Option<String>)
    ensures
        string.deep_view() == json_string(text@),
{
    serde_json::from_str::<String>(text).ok()
}

/// Calls `serde_json::from_str` at the type of a vector of raw values and
/// hands out the text of each. Nothing is claimed of the result but that it
/// is the same for the same text.
#[verifier::external_body]
fn read_array(text: &str) -> (items: Option<Vec<String>>)
    ensures
        items.deep_view() == json_array(text@),
{
    let items = serde_json::from_str::<Vec<Box<serde_json::value::RawValue>>>(text).ok()?;
    Some(items.iter().map(|item| item.get().to_owned()).collect())
}

/// Calls `serde_json::from_str` at the type of an ordered map from strings
/// to raw values and hands out each key with the text of its value, or the
/// message of the error. Nothing is claimed of the result but that it is
/// the same for the same text; of the message nothing is claimed at all.
#[verifier::external_body]
fn read_object(text: &str) -> (members: Result<Vec<(String, String)>, String>)
    ensures
        match members {
            Ok(members) => json_object(text@) == Some(members.deep_view()),
            Err(_) => json_object(text@) is None,
        },
{
    match serde_json::from_str::<BTreeMap<String, Box<serde_json::value::RawValue>>>(text) {
        Ok(members) => Ok(
            members.iter().map(|(key, value)| (key.clone(), value.get().to_owned())).collect(),
        ),
        Err(error) => Err(error.to_string()),
    }
}

/// Calls `serde_json::to_string` on a string, which writes it as a JSON
/// string literal.
#[verifier::external_body]
fn quote(text: &str) -> (literal: String)
    ensures
        literal@ == json_quoted(text@),
{
    serde_json::to_string(text).unwrap_or_default()
}

/// The value that a text stands for, read down to `depth` levels: an
/// object, an array, a string or a whole number where `serde_json` reads
/// the text as one, and `Other` else.
pub open spec fn parsed(text: Seq<char>, depth: nat) -> JsonModel
    decreases depth,
{
    if depth > 0 && json_object(text) is Some {
        let members = json_object(text)->Some_0;
        JsonModel::Object(
            Seq::new(
                members.len(),
                |i: int| named(members[i].0, parsed(members[i].1, (depth - 1) as nat)),
            ),
        )
    } else if depth > 0 && json_array(text) is Some {
        let items = json_array(text)->Some_0;
        JsonModel::List(Seq::new(items.len(), |i: int| parsed(items[i], (depth - 1) as nat)))
    } else if json_string(text) is Some {
        JsonModel::Text(json_string(text)->Some_0)
    } else if json_u64(text) is Some {
        JsonModel::Int(json_u64(text)->Some_0 as int)
    } else if json_i64(text) is Some {
        JsonModel::Int(json_i64(text)->Some_0 as int)
    } else {
        JsonModel::Other
    }
}

/// The value that a line stands for, if the line is a JSON object.
pub open spec fn parsed_line(text: Seq<char>) -> Option<JsonModel> {
    if json_object(text) is Some {
        Some(parsed(text, MAX_DEPTH as nat))
    } else {
        None
    }
}

/// Reads the members of an object.
fn parse_members(members: Vec<(String, String)>, depth: usize) -> (tree: Json)
    ensures
        tree.deep_view() is Object,
        tree.deep_view()->Object_0.len() == members@.len(),
        forall|i: int|
            0 <= i < members@.len() ==> #[trigger] tree.deep_view()->Object_0[i] == named(
                members@[i].0@,
                parsed(members@[i].1@, depth as nat),
            ),
    decreases depth, 1int,
{
    let mut read: Vec<(String, Json)> = Vec::new();
    let mut i: usize = 0;
    while i < members.len()
        invariant
            i <= members@.len(),
            read@.len() == i,
            forall|k: int|
                0 <= k < i ==> (#[trigger] read@[k]).0@ == members@[k].0@ && read@[k].1.deep_view()
                    == parsed(members@[k].1@, depth as nat),
        decreases members@.len() - i,
    {
        let value = parse(members[i].1.as_str(), depth);
        read.push((members[i].0.clone(), value));
        i += 1;
    }
    let tree = Json::Object(read);
    proof {
        assert forall|k: int| 0 <= k < members@.len() implies #[trigger] tree.deep_view()->Object_0[k]
            == named(members@[k].0@, parsed(members@[k].1@, depth as nat)) by {
            assert(read@[k].0@ == members@[k].0@);
        }
    }
    tree
}

/// Reads the items of an array.
fn parse_items(items: Vec<String>, depth: usize) -> (tree: Json)
    ensures
        tree.deep_view() is List,
        tree.deep_view()->List_0.len() == items@.len(),
        forall|i: int|
            0 <= i < items@.len() ==> #[trigger] tree.deep_view()->List_0[i] == parsed(
                items@[i]@,
                depth as nat,
            ),
    decreases depth, 1int,
{
    let mut read: Vec<Json> = Vec::new();
    let mut i: usize = 0;
    while i < items.len()
        invariant
            i <= items@.len(),
            read@.len() == i,
            forall|k: int|
                0 <= k < i ==> (#[trigger] read@[k]).deep_view() == parsed(items@[k]@, depth as nat),
        decreases items@.len() - i,
    {
        let value = parse(items[i].as_str(), depth);
        read.push(value);
        i += 1;
    }
    let tree = Json::List(read);
    proof {
        assert forall|k: int| 0 <= k < items@.len() implies #[trigger] tree.deep_view()->List_0[k]
            == parsed(items@[k]@, depth as nat) by {
            assert(read@[k].deep_view() == parsed(items@[k]@, depth as nat));
        }
    }
    tree
}

/// Reads the value that a text stands for, down to `depth` levels.
pub fn parse(text: &str, depth: usize) -> (tree: Json)
    ensures
        tree.deep_view() == parsed(text@, depth as nat),
    decreases depth, 0int,
{
    if depth > 0 {
        match read_object(text) {
            Ok(members) => {
                let tree = parse_members(members, depth - 1);
                proof {
                    assert(members.deep_view() == json_object(text@)->Some_0);
                    assert(tree.deep_view()->Object_0 =~= parsed(text@, depth as nat)->Object_0);
                }
                return tree;
            },
            Err(_) => {},
        }
        match read_array(text) {
            Some(items) => {
                let tree = parse_items(items, depth - 1);
                proof {
                    assert(items.deep_view() == json_array(text@)->Some_0);
                    assert(tree.deep_view()->List_0 =~= parsed(text@, depth as nat)->List_0);
                }
                return tree;
            },
            None => {},
        }
    }
    match read_string(text) {
        Some(string) => {
            return Json::Text(string);
        },
        None => {},
    }
    match read_u64(text) {
        Some(number) => {
            return Json::Int(number as i128);
        },
        None => {},
    }
    match read_i64(text) {
        Some(number) => Json::Int(number as i128),
        None => Json::Other,
    }
}

/// Reads the object that a line stands for. A line that is no JSON object
/// gives the message of `serde_json`.
pub fn parse_line(text: &str) -> (tree: Result<Json, String>)
    ensures
        match tree {
            Ok(tree) => parsed_line(text@) == Some(tree.deep_view()),
            Err(_) => parsed_line(text@) is None,
        },
{
    match read_object(text) {
        Ok(members) => {
            let tree = parse_members(members, MAX_DEPTH - 1);
            proof {
                assert(members.deep_view() == json_object(text@)->Some_0);
                assert(tree.deep_view()->Object_0 =~= parsed(text@, MAX_DEPTH as nat)->Object_0);
            }
            Ok(tree)
        },
        Err(message) => Err(message),
    }
}

/// The text of a value: members and items in their order, with nothing
/// between them but the commas and colons.
pub open spec fn render(value: JsonModel) -> Seq<char>
    decreases value, 0int,
{
    match value {
        JsonModel::Other => "null"@,
        JsonModel::Int(n) => decimal(n),
        JsonModel::Text(text) => json_quoted(text),
        JsonModel::List(items) => "["@ + render_items(items) + "]"@,
        JsonModel::Object(members) => "{"@ + render_members(members) + "}"@,
    }
}

/// The texts of the items, with commas between them.
pub open spec fn render_items(items: Seq<JsonModel>) -> Seq<char>
    decreases items, 1int,
{
    if items.len() == 0 {
        Seq::empty()
    } else if items.len() == 1 {
        render(items[0])
    } else {
        render_items(items.drop_last()) + ","@ + render(items.last())
    }
}

/// The texts of the members, each its quoted name, a colon and its value,
/// with commas between them.
pub open spec fn render_members(members: Seq<(Seq<char>, JsonModel)>) -> Seq<char>
    decreases members, 1int,
{
    if members.len() == 0 {
        Seq::empty()
    } else if members.len() == 1 {
        json_quoted(members[0].0) + ":"@ + render(members[0].1)
    } else {
        render_members(members.drop_last()) + ","@ + json_quoted(members.last().0) + ":"@ + render(
            members.last().1,
        )
    }
}

/// Writes the text of a value at the end of `out`.
pub fn write_json(out: &mut String, value: &Json)
    ensures
        final(out)@ == old(out)@ + render(value.deep_view()),
    decreases value,
{
    match value {
        Json::Other => {
            out.append("null");
        },
        Json::Int(n) => {
            push_signed_decimal(out, *n);
        },
        Json::Text(text) => {
            let literal = quote(text.as_str());
            out.append(literal.as_str());
        },
        Json::List(items) => {
            out.append("[");
            let ghost start = out@;
            let ghost models = value.deep_view()->List_0;
            let mut i: usize = 0;
            proof {
                assert(models.take(0) =~= Seq::<JsonModel>::empty());
                assert(out@ =~= start + render_items(models.take(0)));
            }
            while i < items.len()
                invariant
                    i <= items@.len(),
                    models == value.deep_view()->List_0,
                    value == Json::List(*items),
                    models.len() == items@.len(),
                    out@ == start + render_items(models.take(i as int)),
                decreases items@.len() - i,
            {
                if i > 0 {
                    out.append(",");
                }
                write_json(out, &items[i]);
                proof {
                    let done = models.take(i as int);
                    let next = models.take(i + 1);
                    assert(next.drop_last() =~= done);
                    assert(next.last() == items@[i as int].deep_view());
                    assert(next[0] == models[0]);
                    assert(out@ =~= start + render_items(next));
                }
                i += 1;
            }
            proof {
                assert(models.take(i as int) =~= models);
            }
            out.append("]");
            assert(out@ =~= old(out)@ + render(value.deep_view()));
        },
        Json::Object(members) => {
            out.append("{");
            let ghost start = out@;
            let ghost models = value.deep_view()->Object_0;
            let mut i: usize = 0;
            proof {
                assert(models.take(0) =~= Seq::<(Seq<char>, JsonModel)>::empty());
                assert(out@ =~= start + render_members(models.take(0)));
            }
            while i < members.len()
                invariant
                    i <= members@.len(),
                    models == value.deep_view()->Object_0,
                    value == Json::Object(*members),
                    models.len() == members@.len(),
                    out@ == start + render_members(models.take(i as int)),
                decreases members@.len() - i,
            {
                if i > 0 {
                    out.append(",");
                }
                let name = quote(members[i].0.as_str());
                out.append(name.as_str());
                out.append(":");
                write_json(out, &members[i].1);
                proof {
                    let done = models.take(i as int);
                    let next = models.take(i + 1);
                    assert(next.drop_last() =~= done);
                    assert(next.last() == (members@[i as int].0@, members@[i as int].1.deep_view()));
                    assert(next[0] == models[0]);
                    assert(out@ =~= start + render_members(next));
                }
                i += 1;
            }
            proof {
                assert(models.take(i as int) =~= models);
            }
            out.append("}");
            assert(out@ =~= old(out)@ + render(value.deep_view()));
        },
    }
}

/// The text of a value.
pub fn to_text(value: &Json) -> (text: String)
    ensures
        text@ == render(value.deep_view()),
{
    let mut text = String::new();
    write_json(&mut text, value);
    assert(text@ =~= render(value.deep_view()));
    text
}

/// The value of the first member of the given name, if there is one.
pub open spec fn member(members: Seq<(Seq<char>, JsonModel)>, name: Seq<char>) -> Option<JsonModel>
    decreases members.len(),
{
    if members.len() == 0 {
        None
    } else if members[0].0 == name {
        Some(members[0].1)
    } else {
        member(members.drop_first(), name)
    }
}

/// Finding a member after skipping members of other names.
proof fn lemma_member_skip(members: Seq<(Seq<char>, JsonModel)>, name: Seq<char>, n: int)
    requires
        0 <= n <= members.len(),
        forall|k: int| 0 <= k < n ==> members[k].0 != name,
    ensures
        member(members, name) == member(members.skip(n), name),
    decreases n,
{
    if n == 0 {
        assert(members.skip(0) =~= members);
    } else {
        let rest = members.drop_first();
        assert forall|k: int| 0 <= k < n - 1 implies rest[k].0 != name by {
            assert(members[k + 1].0 != name);
        }
        lemma_member_skip(rest, name, n - 1);
        assert(rest.skip(n - 1) =~= members.skip(n));
    }
}

/// The member at `at` is found under its name where no member before it
/// has that name.
pub proof fn lemma_member_at(members: Seq<(Seq<char>, JsonModel)>, name: Seq<char>, at: int)
    requires
        0 <= at < members.len(),
        members[at].0 == name,
        forall|k: int| 0 <= k < at ==> members[k].0 != name,
    ensures
        member(members, name) == Some(members[at].1),
{
    lemma_member_skip(members, name, at);
    assert(members.skip(at)[0] == members[at]);
}

/// No member is found under a name that no member has.
pub proof fn lemma_member_absent(members: Seq<(Seq<char>, JsonModel)>, name: Seq<char>)
    requires
        forall|k: int| 0 <= k < members.len() ==> members[k].0 != name,
    ensures
        member(members, name) is None,
{
    lemma_member_skip(members, name, members.len() as int);
    assert(members.skip(members.len() as int) =~= Seq::<(Seq<char>, JsonModel)>::empty());
}

/// Looks up the first member of the given name.
pub fn find_member<'a>(members: &'a Vec<(String, Json)>, name: &str) -> (found: Option<&'a Json>)
    ensures
        found.deep_view() == member(members.deep_view(), name@),
{
    let mut i: usize = 0;
    while i < members.len()
        invariant
            i <= members@.len(),
            forall|k: int| 0 <= k < i ==> members.deep_view()[k].0 != name@,
        decreases members@.len() - i,
    {
        if compare_names(members[i].0.as_str(), name) == Precedence::Same {
            proof {
                lemma_member_skip(members.deep_view(), name@, i as int);
                assert(members.deep_view().skip(i as int)[0] == members.deep_view()[i as int]);
            }
            return Some(&members[i].1);
        }
        assert(members.deep_view()[i as int].0 == members@[i as int].0@);
        i += 1;
    }
    proof {
        lemma_member_skip(members.deep_view(), name@, i as int);
        assert(members.deep_view().skip(i as int) =~= Seq::<(Seq<char>, JsonModel)>::empty());
    }
    None
}

} // verus!
