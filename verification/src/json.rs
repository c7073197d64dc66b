//! JSON values as plain data. The grammar, the numbers and the escapes are serde_json's: what stands
//! at each place of a text is asked of it, and put together here.

use crate::text::{
    char_replaced, decimal, decimal_text, law_characters_are_replaced_one_by_one, replace_char,
    same_text, views,
};
use serde_json::Value;
use vstd::prelude::*;

verus! {

/// How many levels of arrays and objects a text may have; serde_json refuses more.
pub const MAX_DEPTH: u64 = 128;

/// A number in the three forms in which it can be asked for; `double` is its bit pattern.
#[derive(Clone, Copy, Debug, PartialEq, Eq)]
pub struct JsonNumber {
    pub unsigned: Option<u64>,
    pub signed: Option<i64>,
    pub double: Option<u64>,
}

/// A JSON value.
#[derive(Debug)]
pub enum Json {
    Null,
    Bool(bool),
    Number(JsonNumber),
    Text(String),
    Array(Vec<Json>),
    Object(Vec<JsonMember>),
}

/// A name in an object, and the value under it.
#[derive(Debug)]
pub struct JsonMember {
    pub name: String,
    pub value: Json,
}

/// What a JSON value is.
pub enum JsonView {
    Null,
    Bool(bool),
    Number(JsonNumber),
    Text(Seq<char>),
    Array(Seq<JsonView>),
    Object(Seq<MemberView>),
}

pub struct MemberView {
    pub name: Seq<char>,
    pub value: JsonView,
}

impl Json {
    pub open spec fn view(&self) -> JsonView
        decreases self,
    {
        match self {
            Json::Null => JsonView::Null,
            Json::Bool(value) => JsonView::Bool(*value),
            Json::Number(number) => JsonView::Number(*number),
            Json::Text(text) => JsonView::Text(text@),
            Json::Array(items) => JsonView::Array(
                Seq::new(
                    items@.len(),
                    |i: int|
                        if 0 <= i < items@.len() {
                            items@[i].view()
                        } else {
                            JsonView::Null
                        },
                ),
            ),
            Json::Object(members) => JsonView::Object(
                Seq::new(
                    members@.len(),
                    |i: int|
                        if 0 <= i < members@.len() {
                            MemberView {
                                name: members@[i].name@,
                                value: members@[i].value.view(),
                            }
                        } else {
                            MemberView { name: Seq::empty(), value: JsonView::Null }
                        },
                ),
            ),
        }
    }
}

/// The value under a name; where a name stands more than once, the last one counts.
pub open spec fn member_of(members: Seq<MemberView>, name: Seq<char>) -> Option<JsonView>
    decreases members.len(),
{
    if members.len() == 0 {
        None
    } else if members.last().name == name {
        Some(members.last().value)
    } else {
        member_of(members.drop_last(), name)
    }
}

impl JsonView {
    /// The value under a name, if this is an object that has it.
    pub open spec fn get(self, name: Seq<char>) -> Option<JsonView> {
        match self {
            JsonView::Object(members) => member_of(members, name),
            _ => None,
        }
    }

    /// The value under a name, or null.
    pub open spec fn at(self, name: Seq<char>) -> JsonView {
        match self.get(name) {
            Some(value) => value,
            None => JsonView::Null,
        }
    }

    pub open spec fn text(self) -> Option<Seq<char>> {
        match self {
            JsonView::Text(text) => Some(text),
            _ => None,
        }
    }

    pub open spec fn unsigned(self) -> Option<u64> {
        match self {
            JsonView::Number(number) => number.unsigned,
            _ => None,
        }
    }

    pub open spec fn signed(self) -> Option<i64> {
        match self {
            JsonView::Number(number) => number.signed,
            _ => None,
        }
    }

    pub open spec fn double(self) -> Option<u64> {
        match self {
            JsonView::Number(number) => number.double,
            _ => None,
        }
    }
}

impl Json {
    /// The value under a name, if this is an object that has it.
    pub fn get(&self, name: &str) -> (found: Option<&Json>)
        ensures
            match found {
                Some(value) => self@.get(name@) == Some(value@),
                None => self@.get(name@) is None,
            },
    {
        match self {
            Json::Object(members) => {
                let ghost views = self@->Object_0;
                assert(views.take(members@.len() as int) == views);
                let mut i: usize = members.len();
                while i > 0
                    invariant
                        i <= members@.len(),
                        views.len() == members@.len(),
                        self@ == JsonView::Object(views),
                        forall|j: int|
                            0 <= j < members@.len() ==> (#[trigger] views[j]) == (MemberView {
                                name: members@[j].name@,
                                value: members@[j].value@,
                            }),
                        member_of(views, name@) == member_of(views.take(i as int), name@),
                    decreases i,
                {
                    i = i - 1;
                    let ghost front = views.take(i + 1);
                    assert(front.last() == views[i as int]);
                    assert(front.drop_last() =~= views.take(i as int));
                    if same_text(members[i].name.as_str(), name) {
                        return Some(&members[i].value);
                    }
                }
                None
            },
            _ => None,
        }
    }

    /// Takes out the value under a name, if this is an object that has it.
    pub fn take(self, name: &str) -> (found: Option<Json>)
        ensures
            match found {
                Some(value) => self@.get(name@) == Some(value@),
                None => self@.get(name@) is None,
            },
    {
        let ghost whole = self@;
        match self {
            Json::Object(members) => {
                let mut rest: Vec<JsonMember> = members;
                let ghost views = whole->Object_0;
                assert(views.take(rest@.len() as int) == views);
                while rest.len() > 0
                    invariant
                        rest@.len() <= views.len(),
                        whole == self@,
                        whole == JsonView::Object(views),
                        forall|j: int|
                            0 <= j < rest@.len() ==> (#[trigger] views[j]) == (MemberView {
                                name: rest@[j].name@,
                                value: rest@[j].value@,
                            }),
                        member_of(views, name@) == member_of(views.take(rest@.len() as int), name@),
                    decreases rest@.len(),
                {
                    let ghost front = views.take(rest@.len() as int);
                    let ghost before = rest@;
                    assert(front.last() == views[rest@.len() - 1]);
                    assert(front.drop_last() =~= views.take(rest@.len() - 1));
                    match rest.pop() {
                        Some(member) => {
                            assert(views[before.len() - 1] == (MemberView {
                                name: before[before.len() - 1].name@,
                                value: before[before.len() - 1].value@,
                            }));
                            if same_text(member.name.as_str(), name) {
                                return Some(member.value);
                            }
                        },
                        None => {},
                    }
                }
                None
            },
            _ => None,
        }
    }

    /// Whether the value under a name is this boolean.
    pub fn is_bool_at(&self, name: &str, expected: bool) -> (same: bool)
        ensures
            same == (self@.at(name@) == JsonView::Bool(expected)),
    {
        match self.get(name) {
            Some(Json::Bool(value)) => *value == expected,
            _ => false,
        }
    }

    pub fn as_text(&self) -> (text: Option<&str>)
        ensures
            match text {
                Some(value) => self@.text() == Some(value@),
                None => self@.text() is None,
            },
    {
        match self {
            Json::Text(text) => Some(text.as_str()),
            _ => None,
        }
    }

    /// The text under a name.
    pub fn text_at(&self, name: &str) -> (text: Option<&str>)
        ensures
            match text {
                Some(value) => self@.at(name@).text() == Some(value@),
                None => self@.at(name@).text() is None,
            },
    {
        match self.get(name) {
            Some(value) => value.as_text(),
            None => None,
        }
    }

    pub fn is_null(&self) -> (null: bool)
        ensures
            null == (self@ is Null),
    {
        match self {
            Json::Null => true,
            _ => false,
        }
    }

    pub fn is_object(&self) -> (object: bool)
        ensures
            object == (self@ is Object),
    {
        match self {
            Json::Object(_) => true,
            _ => false,
        }
    }

    pub fn is_number(&self) -> (number: bool)
        ensures
            number == (self@ is Number),
    {
        match self {
            Json::Number(_) => true,
            _ => false,
        }
    }

    pub fn as_unsigned(&self) -> (number: Option<u64>)
        ensures
            number == self@.unsigned(),
    {
        match self {
            Json::Number(number) => number.unsigned,
            _ => None,
        }
    }

    pub fn as_signed(&self) -> (number: Option<i64>)
        ensures
            number == self@.signed(),
    {
        match self {
            Json::Number(number) => number.signed,
            _ => None,
        }
    }

    pub fn as_double(&self) -> (bits: Option<u64>)
        ensures
            bits == self@.double(),
    {
        match self {
            Json::Number(number) => number.double,
            _ => None,
        }
    }
}

/// What stands at one place of a JSON text: a plain value, an array with the count of its items, or
/// an object with its names.
pub enum JsonHead {
    Null,
    Bool(bool),
    Number(JsonNumber),
    Text(String),
    Array(usize),
    Object(Vec<String>),
}

pub enum HeadView {
    Null,
    Bool(bool),
    Number(JsonNumber),
    Text(Seq<char>),
    Array(nat),
    Object(Seq<Seq<char>>),
}

impl JsonHead {
    pub open spec fn view(&self) -> HeadView {
        match self {
            JsonHead::Null => HeadView::Null,
            JsonHead::Bool(value) => HeadView::Bool(*value),
            JsonHead::Number(number) => HeadView::Number(*number),
            JsonHead::Text(text) => HeadView::Text(text@),
            JsonHead::Array(count) => HeadView::Array(*count as nat),
            JsonHead::Object(names) => HeadView::Object(views(names@)),
        }
    }
}

/// A JSON document, held by serde_json.
#[verifier::external_type_specification]
#[verifier::external_body]
pub struct ExValue(serde_json::Value);

/// What a document holds at each of its places. A place is given by a JSON pointer.
pub uninterp spec fn json_places(document: serde_json::Value) -> Map<Seq<char>, HeadView>;

/// The places of the document that serde_json reads from a text, or the message with which it
/// refuses the text.
pub uninterp spec fn json_document(text: Seq<char>) -> Result<
    Map<Seq<char>, HeadView>,
    Seq<char>,
>;

/// `serde_json::from_str` into a `serde_json::Value`. The result is named: what the document holds,
/// or the error's message, depends on the text alone. What the grammar accepts is left to serde_json.
#[verifier::external_body]
fn read_document(text: &str) -> (document: Result<serde_json::Value, String>)
    ensures
        match document {
            Ok(value) => json_document(text@) == Ok::<Map<Seq<char>, HeadView>, Seq<char>>(
                json_places(value),
            ),
            Err(message) => json_document(text@) == Err::<Map<Seq<char>, HeadView>, Seq<char>>(
                message@,
            ),
        },
{
    serde_json::from_str::<Value>(text).map_err(|error| error.to_string())
}

/// `serde_json::Value::pointer`: what the document holds at a place, or `None` where it has no such
/// place. The variant and its plain content are handed out; a number as `Number::as_u64`, `as_i64`
/// and `as_f64` give it, of an array the length and of an object the names.
#[verifier::external_body]
fn head_at(document: &serde_json::Value, pointer: &str) -> (head: Option<JsonHead>)
    ensures
        match head {
            Some(found) => json_places(*document).contains_key(pointer@) && json_places(
                *document,
            )[pointer@] == found@,
            None => !json_places(*document).contains_key(pointer@),
        },
{
    document.pointer(pointer).map(|found| match found {
        Value::Null => JsonHead::Null,
        Value::Bool(value) => JsonHead::Bool(*value),
        Value::Number(number) => JsonHead::Number(JsonNumber {
            unsigned: number.as_u64(),
            signed: number.as_i64(),
            double: number.as_f64().map(|value| value.to_bits()),
        }),
        Value::String(text) => JsonHead::Text(text.clone()),
        Value::Array(items) => JsonHead::Array(items.len()),
        Value::Object(members) => JsonHead::Object(members.keys().cloned().collect()),
    })
}

/// A name in the form that a JSON pointer has it in.
pub open spec fn pointer_name(name: Seq<char>) -> Seq<char> {
    char_replaced(char_replaced(name, '~', "~0"@), '/', "~1"@)
}

/// The place of an item of the array at a place.
pub open spec fn item_pointer(pointer: Seq<char>, index: nat) -> Seq<char> {
    pointer + "/"@ + decimal(index)
}

/// The place of a member of the object at a place.
pub open spec fn member_pointer(pointer: Seq<char>, name: Seq<char>) -> Seq<char> {
    pointer + "/"@ + pointer_name(name)
}

fn point_to_item(pointer: &str, index: usize) -> (place: String)
    ensures
        place@ == item_pointer(pointer@, index as nat),
{
    let mut place = pointer.to_owned();
    place.append("/");
    place.append(decimal_text(index as u64).as_str());
    place
}

fn point_to_member(pointer: &str, name: &str) -> (place: String)
    ensures
        place@ == member_pointer(pointer@, name@),
{
    let tildes = replace_char(name, '~', "~0");
    let mut place = pointer.to_owned();
    place.append("/");
    place.append(replace_char(tildes.as_str(), '/', "~1").as_str());
    place
}

/// Why a text is no JSON value: serde_json's message, or that it has more levels than are followed.
#[derive(Debug)]
pub enum JsonError {
    Malformed(String),
    TooDeep,
}

pub enum ErrorView {
    Malformed(Seq<char>),
    TooDeep,
}

impl JsonError {
    pub open spec fn view(&self) -> ErrorView {
        match self {
            JsonError::Malformed(message) => ErrorView::Malformed(message@),
            JsonError::TooDeep => ErrorView::TooDeep,
        }
    }

    /// The error as a message.
    pub fn message(&self) -> (text: String)
        ensures
            text@ == self@.described(),
    {
        match self {
            JsonError::Malformed(message) => message.clone(),
            JsonError::TooDeep => "recursion limit exceeded".to_owned(),
        }
    }
}

impl ErrorView {
    pub open spec fn described(self) -> Seq<char> {
        match self {
            ErrorView::Malformed(message) => message,
            ErrorView::TooDeep => "recursion limit exceeded"@,
        }
    }
}

/// The value at a place of a document, with at most `depth` levels from there.
pub open spec fn json_tree(
    places: Map<Seq<char>, HeadView>,
    pointer: Seq<char>,
    depth: nat,
) -> Result<JsonView, ErrorView>
    decreases depth, 0nat,
{
    if depth == 0 || !places.contains_key(pointer) {
        Err(ErrorView::TooDeep)
    } else {
        match places[pointer] {
            HeadView::Null => Ok(JsonView::Null),
            HeadView::Bool(value) => Ok(JsonView::Bool(value)),
            HeadView::Number(number) => Ok(JsonView::Number(number)),
            HeadView::Text(content) => Ok(JsonView::Text(content)),
            HeadView::Array(count) => match item_trees(
                places,
                pointer,
                count,
                (depth - 1) as nat,
            ) {
                Ok(items) => Ok(JsonView::Array(items)),
                Err(error) => Err(error),
            },
            HeadView::Object(names) => match member_trees(
                places,
                pointer,
                names,
                (depth - 1) as nat,
            ) {
                Ok(members) => Ok(JsonView::Object(members)),
                Err(error) => Err(error),
            },
        }
    }
}

/// The first items of the array at a place, or the first error among them.
pub open spec fn item_trees(
    places: Map<Seq<char>, HeadView>,
    pointer: Seq<char>,
    count: nat,
    depth: nat,
) -> Result<Seq<JsonView>, ErrorView>
    decreases depth, count + 1,
{
    if count == 0 {
        Ok(Seq::empty())
    } else {
        match item_trees(places, pointer, (count - 1) as nat, depth) {
            Err(error) => Err(error),
            Ok(items) => match json_tree(places, item_pointer(pointer, (count - 1) as nat), depth) {
                Err(error) => Err(error),
                Ok(item) => Ok(items.push(item)),
            },
        }
    }
}

/// The members of the object at a place that have some names, or the first error among them.
pub open spec fn member_trees(
    places: Map<Seq<char>, HeadView>,
    pointer: Seq<char>,
    names: Seq<Seq<char>>,
    depth: nat,
) -> Result<Seq<MemberView>, ErrorView>
    decreases depth, names.len() + 1,
{
    if names.len() == 0 {
        Ok(Seq::empty())
    } else {
        match member_trees(places, pointer, names.drop_last(), depth) {
            Err(error) => Err(error),
            Ok(members) => match json_tree(places, member_pointer(pointer, names.last()), depth) {
                Err(error) => Err(error),
                Ok(value) => Ok(members.push(MemberView { name: names.last(), value })),
            },
        }
    }
}

/// The value that a text stands for.
pub open spec fn parsed(text: Seq<char>) -> Result<JsonView, ErrorView> {
    match json_document(text) {
        Err(message) => Err(ErrorView::Malformed(message)),
        Ok(places) => json_tree(places, ""@, MAX_DEPTH as nat),
    }
}

/// Whether a result is what a text stands for.
pub open spec fn is_reading(
    read: Result<Json, JsonError>,
    meant: Result<JsonView, ErrorView>,
) -> bool {
    match read {
        Ok(value) => meant == Ok::<JsonView, ErrorView>(value@),
        Err(error) => meant == Err::<JsonView, ErrorView>(error@),
    }
}

fn parse_level(document: &serde_json::Value, pointer: &str, depth: u64) -> (read: Result<
    Json,
    JsonError,
>)
    ensures
        is_reading(read, json_tree(json_places(*document), pointer@, depth as nat)),
    decreases depth,
{
    if depth == 0 {
        return Err(JsonError::TooDeep);
    }
    let head = match head_at(document, pointer) {
        None => {
            return Err(JsonError::TooDeep);
        },
        Some(head) => head,
    };
    let ghost places = json_places(*document);
    let ghost below = (depth - 1) as nat;
    match head {
        JsonHead::Null => Ok(Json::Null),
        JsonHead::Bool(value) => Ok(Json::Bool(value)),
        JsonHead::Number(number) => Ok(Json::Number(number)),
        JsonHead::Text(content) => Ok(Json::Text(content)),
        JsonHead::Array(count) => {
            let mut items: Vec<Json> = Vec::new();
            let ghost mut seen: Seq<JsonView> = Seq::empty();
            for i in 0..count
                invariant
                    depth > 0,
                    below == depth - 1,
                    places == json_places(*document),
                    places.contains_key(pointer@),
                    places[pointer@] == HeadView::Array(count as nat),
                    items@.len() == i,
                    seen.len() == i,
                    forall|j: int| 0 <= j < i ==> #[trigger] seen[j] == items@[j]@,
                    item_trees(places, pointer@, i as nat, below) == Ok::<Seq<JsonView>, ErrorView>(
                        seen,
                    ),
            {
                let place = point_to_item(pointer, i);
                match parse_level(document, place.as_str(), depth - 1) {
                    Ok(item) => {
                        proof {
                            seen = seen.push(item@);
                        }
                        items.push(item);
                    },
                    Err(error) => {
                        proof {
                            lemma_items_stop(places, pointer@, (i + 1) as nat, count as nat, below);
                        }
                        return Err(error);
                    },
                }
            }
            let value = Json::Array(items);
            assert(value@->Array_0 =~= seen);
            Ok(value)
        },
        JsonHead::Object(names) => {
            let ghost all = views(names@);
            let mut members: Vec<JsonMember> = Vec::new();
            let ghost mut seen: Seq<MemberView> = Seq::empty();
            for i in 0..names.len()
                invariant
                    depth > 0,
                    below == depth - 1,
                    all == views(names@),
                    places == json_places(*document),
                    places.contains_key(pointer@),
                    places[pointer@] == HeadView::Object(all),
                    members@.len() == i,
                    seen.len() == i,
                    forall|j: int|
                        0 <= j < i ==> (#[trigger] seen[j]) == (MemberView {
                            name: members@[j].name@,
                            value: members@[j].value@,
                        }),
                    member_trees(places, pointer@, all.take(i as int), below) == Ok::<
                        Seq<MemberView>,
                        ErrorView,
                    >(seen),
            {
                let ghost front = all.take(i + 1);
                assert(front.drop_last() =~= all.take(i as int));
                assert(front.last() == names@[i as int]@);
                let place = point_to_member(pointer, names[i].as_str());
                match parse_level(document, place.as_str(), depth - 1) {
                    Ok(value) => {
                        proof {
                            seen = seen.push(MemberView { name: names@[i as int]@, value: value@ });
                        }
                        members.push(JsonMember { name: names[i].clone(), value });
                    },
                    Err(error) => {
                        proof {
                            lemma_members_stop(places, pointer@, all, i + 1, below);
                        }
                        return Err(error);
                    },
                }
            }
            assert(all.take(names@.len() as int) =~= all);
            let value = Json::Object(members);
            assert(value@->Object_0 =~= seen);
            Ok(value)
        },
    }
}

proof fn lemma_items_stop(
    places: Map<Seq<char>, HeadView>,
    pointer: Seq<char>,
    taken: nat,
    count: nat,
    depth: nat,
)
    requires
        taken <= count,
        item_trees(places, pointer, taken, depth) is Err,
    ensures
        item_trees(places, pointer, count, depth) == item_trees(places, pointer, taken, depth),
    decreases count,
{
    if taken < count {
        lemma_items_stop(places, pointer, taken, (count - 1) as nat, depth);
    }
}

proof fn lemma_members_stop(
    places: Map<Seq<char>, HeadView>,
    pointer: Seq<char>,
    names: Seq<Seq<char>>,
    taken: int,
    depth: nat,
)
    requires
        0 <= taken <= names.len(),
        member_trees(places, pointer, names.take(taken), depth) is Err,
    ensures
        member_trees(places, pointer, names, depth) == member_trees(
            places,
            pointer,
            names.take(taken),
            depth,
        ),
    decreases names.len(),
{
    if taken == names.len() {
        assert(names.take(taken) =~= names);
    } else {
        assert(names.drop_last().take(taken) =~= names.take(taken));
        lemma_members_stop(places, pointer, names.drop_last(), taken, depth);
    }
}

/// Reads a JSON text.
pub fn parse_json(text: &str) -> (read: Result<Json, JsonError>)
    ensures
        is_reading(read, parsed(text@)),
{
    match read_document(text) {
        Err(message) => Err(JsonError::Malformed(message)),
        Ok(document) => parse_level(&document, "", MAX_DEPTH),
    }
}

/// A hexadecimal digit.
pub open spec fn hex_digit(value: int) -> char {
    if value < 10 {
        ('0' as int + value) as char
    } else {
        ('a' as int + value - 10) as char
    }
}

/// A character within a JSON string: quotes, backslashes and control characters are escaped.
pub open spec fn json_char(c: char) -> Seq<char> {
    if c == '"' || c == '\\' {
        seq!['\\', c]
    } else if c == '\u{8}' {
        seq!['\\', 'b']
    } else if c == '\t' {
        seq!['\\', 't']
    } else if c == '\n' {
        seq!['\\', 'n']
    } else if c == '\u{c}' {
        seq!['\\', 'f']
    } else if c == '\r' {
        seq!['\\', 'r']
    } else if (c as int) < 32 {
        seq!['\\', 'u', '0', '0', hex_digit(c as int / 16), hex_digit(c as int % 16)]
    } else {
        seq![c]
    }
}

/// A text within a JSON string.
pub open spec fn json_chars(text: Seq<char>) -> Seq<char>
    decreases text.len(),
{
    if text.len() == 0 {
        Seq::empty()
    } else {
        json_chars(text.drop_last()) + json_char(text.last())
    }
}

/// A text as a JSON string, quoted and escaped.
pub open spec fn json_string(text: Seq<char>) -> Seq<char> {
    seq!['"'] + json_chars(text) + seq!['"']
}

/// `serde_json::Value::from` on a text, written out by its `Display`: the text in quotes, with
/// quotes, backslashes and control characters escaped and all others as they are.
#[verifier::external_body]
pub(crate) fn quoted(text: &str) -> (result: String)
    ensures
        result@ == json_string(text@),
{
    Value::from(text).to_string()
}

proof fn lemma_json_char_is_printable(c: char)
    ensures
        forall|i: int| 0 <= i < json_char(c).len() ==> #[trigger] json_char(c)[i] >= ' ',
{
    if (c as int) < 32 {
        assert(0 <= c as int / 16 < 2 && 0 <= c as int % 16 < 16);
        assert(hex_digit(c as int / 16) >= ' ');
        assert(hex_digit(c as int % 16) >= ' ');
    }
}

/// A JSON string is one line, whatever text it holds.
pub proof fn law_json_string_is_one_line(text: Seq<char>)
    ensures
        forall|i: int| 0 <= i < json_string(text).len() ==> #[trigger] json_string(text)[i] >= ' ',
    decreases text.len(),
{
    if text.len() > 0 {
        let earlier = text.drop_last();
        law_json_string_is_one_line(earlier);
        let last = json_char(text.last());
        lemma_json_char_is_printable(text.last());
        assert forall|i: int| 0 <= i < json_chars(earlier).len() implies #[trigger] json_chars(
            earlier,
        )[i] >= ' ' by {
            assert(json_string(earlier)[i + 1] == json_chars(earlier)[i]);
        }
        assert(json_chars(text) == json_chars(earlier) + last);
    }
}

/// What stands at a place of a JSON text, without the space between its parts and with its names in
/// order; `None` for what is no JSON text, and for a place that the text does not have.
pub uninterp spec fn json_compact(text: Seq<char>, pointer: Seq<char>) -> Option<Seq<char>>;

/// `serde_json::from_str` into a `serde_json::Value`, and the value that `Value::pointer` finds in
/// it, written out by its `Display`. The result is named: it depends on the two texts alone.
#[verifier::external_body]
pub(crate) fn compact(text: &str, pointer: &str) -> (compacted: Option<String>)
    ensures
        match compacted {
            Some(result) => json_compact(text@, pointer@) == Some(result@),
            None => json_compact(text@, pointer@) is None,
        },
{
    match serde_json::from_str::<Value>(text) {
        Ok(value) => value.pointer(pointer).map(|found| found.to_string()),
        Err(_) => None,
    }
}

/// The last member of a name counts, whatever stands before it, and a member leaves the other names
/// alone.
pub proof fn law_last_member_of_a_name_counts(
    members: Seq<MemberView>,
    name: Seq<char>,
    other: Seq<char>,
    value: JsonView,
)
    requires
        name != other,
    ensures
        JsonView::Object(members.push(MemberView { name, value })).get(name) == Some(value),
        JsonView::Object(members.push(MemberView { name, value })).get(other) == JsonView::Object(
            members,
        ).get(other),
        JsonView::Object(Seq::empty()).get(name) is None,
        JsonView::Object(members.push(MemberView { name, value })).at(name) == value,
        JsonView::Object(Seq::empty()).at(name) == JsonView::Null,
{
    assert(members.push(MemberView { name, value }).drop_last() =~= members);
}

/// Only an object has members: under any name a value of another kind gives nothing.
pub proof fn law_only_objects_have_members(value: JsonView, name: Seq<char>)
    requires
        !(value is Object),
    ensures
        value.get(name) is None,
        value.at(name) == JsonView::Null,
{
}

/// The items of an array are the values at its places, counted from zero, and there are as many as it
/// says.
pub proof fn law_array_holds_its_items(
    places: Map<Seq<char>, HeadView>,
    pointer: Seq<char>,
    depth: nat,
    count: nat,
    i: int,
)
    requires
        depth > 0,
        places.contains_key(pointer),
        places[pointer] == HeadView::Array(count),
        json_tree(places, pointer, depth) is Ok,
        0 <= i < count,
    ensures
        json_tree(places, pointer, depth) matches Ok(JsonView::Array(items)) && items.len() == count
            && json_tree(places, pointer + seq!['/'] + decimal(i as nat), (depth - 1) as nat) == Ok::<
            JsonView,
            ErrorView,
        >(items[i]),
{
    reveal_strlit("/");
    assert("/"@ =~= seq!['/']);
    lemma_items(places, pointer, count, (depth - 1) as nat, i);
}

proof fn lemma_items(
    places: Map<Seq<char>, HeadView>,
    pointer: Seq<char>,
    count: nat,
    depth: nat,
    i: int,
)
    requires
        item_trees(places, pointer, count, depth) is Ok,
        0 <= i < count,
    ensures
        item_trees(places, pointer, count, depth)->Ok_0.len() == count,
        json_tree(places, item_pointer(pointer, i as nat), depth) == Ok::<JsonView, ErrorView>(
            item_trees(places, pointer, count, depth)->Ok_0[i],
        ),
    decreases count,
{
    let fewer = (count - 1) as nat;
    if fewer == 0 {
        assert(item_trees(places, pointer, 0, depth)->Ok_0.len() == 0);
    } else {
        let at = if i < fewer {
            i
        } else {
            0
        };
        lemma_items(places, pointer, fewer, depth, at);
    }
}

/// The members of an object are the values at its places by name, in its order.
pub proof fn law_object_holds_its_members(
    places: Map<Seq<char>, HeadView>,
    pointer: Seq<char>,
    depth: nat,
    names: Seq<Seq<char>>,
    i: int,
)
    requires
        depth > 0,
        places.contains_key(pointer),
        places[pointer] == HeadView::Object(names),
        json_tree(places, pointer, depth) is Ok,
        0 <= i < names.len(),
    ensures
        json_tree(places, pointer, depth) matches Ok(JsonView::Object(members)) && members.len()
            == names.len() && members[i].name == names[i] && json_tree(
            places,
            pointer + seq!['/'] + pointer_name(names[i]),
            (depth - 1) as nat,
        ) == Ok::<JsonView, ErrorView>(members[i].value),
{
    reveal_strlit("/");
    assert("/"@ =~= seq!['/']);
    lemma_members(places, pointer, names, (depth - 1) as nat, i);
}

proof fn lemma_members(
    places: Map<Seq<char>, HeadView>,
    pointer: Seq<char>,
    names: Seq<Seq<char>>,
    depth: nat,
    i: int,
)
    requires
        member_trees(places, pointer, names, depth) is Ok,
        0 <= i < names.len(),
    ensures
        member_trees(places, pointer, names, depth)->Ok_0.len() == names.len(),
        member_trees(places, pointer, names, depth)->Ok_0[i].name == names[i],
        json_tree(places, member_pointer(pointer, names[i]), depth) == Ok::<JsonView, ErrorView>(
            member_trees(places, pointer, names, depth)->Ok_0[i].value,
        ),
    decreases names.len(),
{
    let fewer = names.drop_last();
    if fewer.len() == 0 {
        assert(member_trees(places, pointer, fewer, depth)->Ok_0.len() == 0);
    } else {
        let at = if i < fewer.len() {
            i
        } else {
            0
        };
        lemma_members(places, pointer, fewer, depth, at);
    }
    assert(i < fewer.len() ==> fewer[i] == names[i]);
    assert(names.last() == names[names.len() - 1]);
}

/// A plain value is what stands at its place.
pub proof fn law_plain_value_is_what_stands_there(
    places: Map<Seq<char>, HeadView>,
    pointer: Seq<char>,
    depth: nat,
)
    requires
        depth > 0,
        places.contains_key(pointer),
    ensures
        ({
            let tree = json_tree(places, pointer, depth);
            match places[pointer] {
                HeadView::Null => tree == Ok::<JsonView, ErrorView>(JsonView::Null),
                HeadView::Bool(value) => tree == Ok::<JsonView, ErrorView>(JsonView::Bool(value)),
                HeadView::Number(number) => tree == Ok::<JsonView, ErrorView>(
                    JsonView::Number(number),
                ),
                HeadView::Text(content) => tree == Ok::<JsonView, ErrorView>(
                    JsonView::Text(content),
                ),
                HeadView::Array(_) => tree is Ok ==> tree->Ok_0 is Array,
                HeadView::Object(_) => tree is Ok ==> tree->Ok_0 is Object,
            }
        }),
{
}

/// In a pointer the tilde and the slash of a name are written with a tilde and a digit, and every
/// other character as it is.
pub proof fn law_names_are_written_for_pointers(left: Seq<char>, c: char, right: Seq<char>)
    ensures
        pointer_name(left + right) == pointer_name(left) + pointer_name(right),
        pointer_name(seq!['~']) == seq!['~', '0'],
        pointer_name(seq!['/']) == seq!['~', '1'],
        c != '~' && c != '/' ==> pointer_name(seq![c]) == seq![c],
{
    reveal_strlit("~0");
    reveal_strlit("~1");
    let zero = "~0"@;
    let one = "~1"@;
    assert(zero =~= seq!['~', '0']);
    assert(one =~= seq!['~', '1']);
    law_characters_are_replaced_one_by_one(left, c, right, '~', zero);
    law_characters_are_replaced_one_by_one(
        char_replaced(left, '~', zero),
        c,
        char_replaced(right, '~', zero),
        '/',
        one,
    );
    law_characters_are_replaced_one_by_one(left, '/', right, '~', zero);
    law_characters_are_replaced_one_by_one(seq!['~'], '~', seq!['0'], '/', one);
    law_characters_are_replaced_one_by_one(left, '0', right, '/', one);
    assert(seq!['~'] + seq!['0'] =~= zero);
    assert(seq!['~', '0'] =~= seq!['~'] + seq!['0']);
}

/// A value is taken for what is meant only where it is that value, and an error only where it is that
/// error.
pub proof fn law_readings_are_those_that_are_meant(
    read: Result<Json, JsonError>,
    meant: Result<JsonView, ErrorView>,
)
    ensures
        is_reading(read, meant) <==> match (read, meant) {
            (Ok(found), Ok(value)) => found@ == value,
            (Err(found), Err(error)) => found@ == error,
            _ => false,
        },
{
}

/// A text that serde_json refuses gives its message, and a text that it takes gives the value at the
/// root of the document, within 128 levels.
pub proof fn law_text_is_the_value_at_its_root(text: Seq<char>)
    ensures
        json_document(text) matches Err(message) ==> parsed(text) == Err::<JsonView, ErrorView>(
            ErrorView::Malformed(message),
        ),
        json_document(text) matches Ok(places) ==> parsed(text) == json_tree(
            places,
            Seq::empty(),
            128,
        ),
{
    reveal_strlit("");
    assert(""@ =~= Seq::<char>::empty());
}

} // verus!
