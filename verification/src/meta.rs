//! The metadata document of a message: a JSON value held as plain data, with
//! the few members that the chat rules read and write.

use vstd::prelude::*;
use crate::ids::{parse_uuid, parsed_uuid};
use crate::text::to_chars;

verus! {

/// A JSON number: a non-negative integer, a negative integer, or the bits of
/// a double.
#[derive(Debug, Clone, Copy, PartialEq, Eq)]
pub enum MetaNumber {
    PosInt(u64),
    NegInt(i64),
    Float(u64),
}

/// A JSON value.
#[derive(Debug, PartialEq, Eq)]
pub enum MetaValue {
    Null,
    Bool(bool),
    Number(MetaNumber),
    Text(String),
    List(Vec<MetaValue>),
    Object(Vec<MetaMember>),
}

/// One member of a JSON object.
#[derive(Debug, PartialEq, Eq)]
pub struct MetaMember {
    pub key: String,
    pub value: MetaValue,
}

/// The descriptor of a file attached to a message.
#[derive(Debug, Clone, PartialEq, Eq)]
pub struct ChatAttachmentMeta {
    pub id: u128,
    pub name: String,
    pub mime_type: Option<String>,
    pub size_bytes: i64,
    pub kind: String,
    pub relative_path: String,
}

/// What a JSON value holds, whatever strings and vectors carry it.
pub enum MetaModel {
    Null,
    Bool(bool),
    Number(MetaNumber),
    Text(Seq<char>),
    List(Seq<MetaModel>),
    Object(Seq<(Seq<char>, MetaModel)>),
}

impl MetaValue {
    /// What the value holds: its texts by their characters, its lists and
    /// objects by what their entries hold, in their order.
    pub open spec fn model(self) -> MetaModel
        decreases self,
    {
        match self {
            MetaValue::Null => MetaModel::Null,
            MetaValue::Bool(b) => MetaModel::Bool(b),
            MetaValue::Number(n) => MetaModel::Number(n),
            MetaValue::Text(s) => MetaModel::Text(s@),
            MetaValue::List(items) => MetaModel::List(
                Seq::new(
                    items@.len(),
                    |i: int|
                        if 0 <= i < items@.len() {
                            items@[i].model()
                        } else {
                            MetaModel::Null
                        },
                ),
            ),
            MetaValue::Object(members) => MetaModel::Object(
                Seq::new(
                    members@.len(),
                    |i: int|
                        if 0 <= i < members@.len() {
                            (members@[i].key@, members@[i].value.model())
                        } else {
                            (Seq::empty(), MetaModel::Null)
                        },
                ),
            ),
        }
    }

    /// A copy of the value.
    fn duplicate(&self) -> (copy: Self)
        ensures
            copy.model() == self.model(),
        decreases self,
    {
        match self {
            MetaValue::Null => MetaValue::Null,
            MetaValue::Bool(b) => MetaValue::Bool(*b),
            MetaValue::Number(n) => MetaValue::Number(*n),
            MetaValue::Text(s) => MetaValue::Text(s.clone()),
            MetaValue::List(items) => {
                let mut copies: Vec<MetaValue> = Vec::new();
                let mut i: usize = 0;
                while i < items.len()
                    invariant
                        i <= items.len(),
                        decreases_to!(self => items),
                        copies@.len() == i,
                        forall|k: int|
                            0 <= k < i ==> (#[trigger] copies@[k]).model() == items@[k].model(),
                    decreases items.len() - i,
                {
                    proof {
                        vstd::std_specs::vec::axiom_vec_index_decreases(*items, i as int);
                    }
                    assert(decreases_to!(items => items[i as int]));
                    assert(decreases_to!(self => items[i as int]));
                    copies.push(items[i].duplicate());
                    i += 1;
                }
                let copy = MetaValue::List(copies);
                assert(copy.model()->List_0 =~= self.model()->List_0);
                copy
            },
            MetaValue::Object(members) => {
                let mut copies: Vec<MetaMember> = Vec::new();
                let mut i: usize = 0;
                while i < members.len()
                    invariant
                        i <= members.len(),
                        decreases_to!(self => members),
                        copies@.len() == i,
                        forall|k: int|
                            0 <= k < i ==> (#[trigger] copies@[k]).key@ == members@[k].key@
                                && copies@[k].value.model() == members@[k].value.model(),
                    decreases members.len() - i,
                {
                    proof {
                        vstd::std_specs::vec::axiom_vec_index_decreases(*members, i as int);
                    }
                    assert(decreases_to!(self => members[i as int].value));
                    copies.push(
                        MetaMember {
                            key: members[i].key.clone(),
                            value: members[i].value.duplicate(),
                        },
                    );
                    i += 1;
                }
                let copy = MetaValue::Object(copies);
                assert(copy.model()->Object_0 =~= self.model()->Object_0);
                copy
            },
        }
    }
}

impl Clone for MetaValue {
    fn clone(&self) -> (copy: Self) {
        self.duplicate()
    }
}

impl Clone for MetaMember {
    fn clone(&self) -> (copy: Self) {
        MetaMember { key: self.key.clone(), value: self.value.duplicate() }
    }
}

/// The first position at or after `from` that holds a member named `key`, or
/// the number of members where none does.
pub open spec fn key_position(members: Seq<MetaMember>, key: Seq<char>, from: int) -> int
    decreases members.len() - from,
{
    if from >= members.len() {
        members.len() as int
    } else if members[from].key@ == key {
        from
    } else {
        key_position(members, key, from + 1)
    }
}

impl MetaValue {
    /// The members of an object; none for any other value.
    pub open spec fn members(self) -> Seq<MetaMember> {
        match self {
            MetaValue::Object(members) => members@,
            _ => Seq::empty(),
        }
    }

    /// The first member named `key` of an object.
    pub open spec fn member(self, key: Seq<char>) -> Option<MetaValue> {
        let at = key_position(self.members(), key, 0);
        if 0 <= at < self.members().len() {
            Some(self.members()[at].value)
        } else {
            None
        }
    }

    /// The string that a text value holds.
    pub open spec fn text(self) -> Option<String> {
        match self {
            MetaValue::Text(s) => Some(s),
            _ => None,
        }
    }

    /// The string held by the member named `key`, where there is such a
    /// member and it is a text.
    pub open spec fn text_member(self, key: Seq<char>) -> Option<String> {
        match self.member(key) {
            Some(value) => value.text(),
            None => None,
        }
    }

    /// An object with exactly the given members, in their order.
    pub open spec fn is_object_of(self, members: Seq<(Seq<char>, MetaValue)>) -> bool {
        &&& self is Object
        &&& self.members().len() == members.len()
        &&& forall|i: int|
            0 <= i < members.len() ==> (#[trigger] self.members()[i]).key@ == members[i].0
                && self.members()[i].value == members[i].1
    }

    /// A text value that reads `text`.
    pub open spec fn is_text(self, text: Seq<char>) -> bool {
        self matches MetaValue::Text(s) && s@ == text
    }

    /// The value after `key` was set to `value`: an object in which the first
    /// member named `key` now holds `value`, or, where there was none, one
    /// more member at the end. The other members are as before.
    pub open spec fn is_with(self, before: MetaValue, key: Seq<char>, value: MetaValue) -> bool {
        let at = key_position(before.members(), key, 0);
        &&& self is Object
        &&& if at < before.members().len() {
            &&& self.members().len() == before.members().len()
            &&& self.members()[at].key == before.members()[at].key
            &&& self.members()[at].value == value
            &&& forall|i: int|
                0 <= i < before.members().len() && i != at ==> #[trigger] self.members()[i]
                    == before.members()[i]
        } else {
            &&& self.members().len() == before.members().len() + 1
            &&& self.members().last().key@ == key
            &&& self.members().last().value == value
            &&& forall|i: int|
                0 <= i < before.members().len() ==> #[trigger] self.members()[i]
                    == before.members()[i]
        }
    }
}

/// The position of a key lies at or after the start, holds the key where it
/// lies among the members, and no member before it does.
pub proof fn lemma_key_position(members: Seq<MetaMember>, key: Seq<char>, from: int)
    requires
        0 <= from <= members.len(),
    ensures
        from <= key_position(members, key, from) <= members.len(),
        forall|i: int|
            from <= i < key_position(members, key, from) ==> (#[trigger] members[i]).key@ != key,
        key_position(members, key, from) < members.len() ==> members[key_position(
            members,
            key,
            from,
        )].key@ == key,
    decreases members.len() - from,
{
    if from < members.len() && members[from].key@ != key {
        lemma_key_position(members, key, from + 1);
    }
}

/// A position that holds `key` with no such member before it is the position
/// of `key`.
pub proof fn lemma_key_position_is(members: Seq<MetaMember>, key: Seq<char>, at: int)
    requires
        0 <= at <= members.len(),
        forall|i: int| 0 <= i < at ==> (#[trigger] members[i]).key@ != key,
        at < members.len() ==> members[at].key@ == key,
    ensures
        key_position(members, key, 0) == at,
{
    lemma_key_position(members, key, 0);
    let found = key_position(members, key, 0);
    if found < at {
        assert(members[found].key@ != key);
    }
}

/// Setting a member makes it the member found under its name, and leaves
/// what is found under every other name as it was.
pub proof fn lemma_member_after_set(
    after: MetaValue,
    before: MetaValue,
    key: Seq<char>,
    value: MetaValue,
    other: Seq<char>,
)
    requires
        after.is_with(before, key, value),
    ensures
        after.member(key) == Some(value),
        other != key ==> after.member(other) == before.member(other),
{
    let b = before.members();
    let a = after.members();
    lemma_key_position(b, key, 0);
    let at = key_position(b, key, 0);
    assert forall|i: int| 0 <= i < at implies (#[trigger] a[i]).key@ != key by {
        assert(a[i] == b[i]);
    }
    lemma_key_position_is(a, key, at);
    if other != key {
        lemma_key_position(b, other, 0);
        let o = key_position(b, other, 0);
        assert forall|i: int| 0 <= i < a.len() && i < b.len() implies (#[trigger] a[i]).key@
            == b[i].key@ by {
            if i != at {
                assert(a[i] == b[i]);
            }
        }
        if o < b.len() {
            assert forall|i: int| 0 <= i < o implies (#[trigger] a[i]).key@ != other by {
                assert(a[i].key@ == b[i].key@);
            }
            assert(a[o].key@ == b[o].key@);
            lemma_key_position_is(a, other, o);
            assert(o != at);
            assert(a[o] == b[o]);
        } else {
            assert forall|i: int| 0 <= i < a.len() implies (#[trigger] a[i]).key@ != other by {
                if i < b.len() {
                    assert(a[i].key@ == b[i].key@);
                }
            }
            lemma_key_position_is(a, other, a.len() as int);
        }
    }
}

/// Whether two texts hold the same characters.
pub fn same_text(a: &str, b: &str) -> (same: bool)
    ensures
        same == (a@ == b@),
{
    let x = to_chars(a);
    let y = to_chars(b);
    if x.len() != y.len() {
        return false;
    }
    let mut i: usize = 0;
    while i < x.len()
        invariant
            i <= x.len(),
            x.len() == y.len(),
            x@ == a@,
            y@ == b@,
            forall|k: int| 0 <= k < i ==> x@[k] == y@[k],
        decreases x.len() - i,
    {
        if x[i] != y[i] {
            assert(a@[i as int] != b@[i as int]);
            return false;
        }
        i += 1;
    }
    assert(x@ =~= y@);
    true
}

/// The position of the first member named `key`, or the number of members.
fn find_key(members: &Vec<MetaMember>, key: &str) -> (at: usize)
    ensures
        at == key_position(members@, key@, 0),
        at <= members.len(),
{
    let mut i: usize = 0;
    while i < members.len()
        invariant
            i <= members.len(),
            forall|k: int| 0 <= k < i ==> (#[trigger] members@[k]).key@ != key@,
        decreases members.len() - i,
    {
        if same_text(members[i].key.as_str(), key) {
            proof {
                lemma_key_position_is(members@, key@, i as int);
            }
            return i;
        }
        i += 1;
    }
    proof {
        lemma_key_position_is(members@, key@, i as int);
    }
    i
}

impl MetaValue {
    /// An object without members.
    pub fn empty_object() -> (value: MetaValue)
        ensures
            value.is_object_of(Seq::empty()),
    {
        MetaValue::Object(Vec::new())
    }

    /// A text value.
    pub fn text_of(text: &str) -> (value: MetaValue)
        ensures
            value.is_text(text@),
    {
        MetaValue::Text(text.to_owned())
    }

    /// Whether the value is an object.
    pub fn is_object(&self) -> (yes: bool)
        ensures
            yes == (self is Object),
    {
        match self {
            MetaValue::Object(_) => true,
            _ => false,
        }
    }

    /// The first member named `key`, where the value is an object that has
    /// one.
    pub fn get(&self, key: &str) -> (found: Option<&MetaValue>)
        ensures
            match found {
                Some(value) => self.member(key@) == Some(*value),
                None => self.member(key@) is None,
            },
    {
        match self {
            MetaValue::Object(members) => {
                let at = find_key(members, key);
                if at < members.len() {
                    Some(&members[at].value)
                } else {
                    None
                }
            },
            _ => None,
        }
    }

    /// The string of a text value.
    pub fn as_text(&self) -> (found: Option<&String>)
        ensures
            match found {
                Some(s) => self.text() == Some(*s),
                None => self.text() is None,
            },
    {
        match self {
            MetaValue::Text(s) => Some(s),
            _ => None,
        }
    }

    /// A copy of the string held by the member named `key`, where there is
    /// such a member and it is a text.
    pub fn get_text(&self, key: &str) -> (found: Option<String>)
        ensures
            found == self.text_member(key@),
    {
        match self.get(key) {
            Some(value) => match value.as_text() {
                Some(s) => Some(s.clone()),
                None => None,
            },
            None => None,
        }
    }

    /// Takes the first member named `key` out of the value.
    pub fn take(self, key: &str) -> (found: Option<MetaValue>)
        ensures
            found == self.member(key@),
    {
        match self {
            MetaValue::Object(mut members) => {
                let at = find_key(&members, key);
                if at < members.len() {
                    let member = members.remove(at);
                    Some(member.value)
                } else {
                    None
                }
            },
            _ => None,
        }
    }

    /// Sets the member named `key` of an object to `value`: replaces what
    /// the first member of that name holds, or adds a member at the end.
    pub fn with(self, key: &str, value: MetaValue) -> (after: MetaValue)
        requires
            self is Object,
        ensures
            after.is_with(self, key@, value),
    {
        match self {
            MetaValue::Object(mut members) => {
                let ghost before = members@;
                let at = find_key(&members, key);
                if at < members.len() {
                    let old = members.remove(at);
                    members.insert(at, MetaMember { key: old.key, value });
                    assert(members@.len() == before.len());
                    assert forall|i: int| 0 <= i < before.len() && i != at implies #[trigger] members@[i]
                        == before[i] by {}
                } else {
                    members.push(MetaMember { key: key.to_owned(), value });
                }
                MetaValue::Object(members)
            },
            _ => self,
        }
    }
}

/// The value of one field of an attachment descriptor. A descriptor is an
/// object, which names its fields, or a list of exactly six values, which
/// holds them in their order.
pub open spec fn descriptor_field(entry: MetaValue, at: int, key: Seq<char>) -> Option<MetaValue> {
    match entry {
        MetaValue::Object(_) => entry.member(key),
        MetaValue::List(values) => if values@.len() == 6 {
            Some(values@[at])
        } else {
            None
        },
        _ => None,
    }
}

/// A field as a text.
pub open spec fn required_text(field: Option<MetaValue>) -> Option<String> {
    match field {
        Some(value) => value.text(),
        None => None,
    }
}

/// A field as an optional text: absent or null is no text, a text is itself,
/// and any other value does not fit.
pub open spec fn optional_text(field: Option<MetaValue>) -> Option<Option<String>> {
    match field {
        None => Some(None),
        Some(MetaValue::Null) => Some(None),
        Some(MetaValue::Text(s)) => Some(Some(s)),
        Some(_) => None,
    }
}

/// A field as a signed 64-bit integer, where it is an integer in that range.
pub open spec fn required_integer(field: Option<MetaValue>) -> Option<i64> {
    match field {
        Some(MetaValue::Number(MetaNumber::PosInt(n))) => if n <= i64::MAX {
            Some(n as i64)
        } else {
            None
        },
        Some(MetaValue::Number(MetaNumber::NegInt(n))) => Some(n),
        _ => None,
    }
}

/// The attachment that a value describes: a descriptor with the texts `id`
/// (a UUID) and `name`, the optional text `mime_type`, the integer
/// `size_bytes` and the texts `kind` and `relative_path`, in this order
/// where it is a list. Other members of an object are ignored.
pub open spec fn attachment_of(entry: MetaValue) -> Option<ChatAttachmentMeta> {
    let id = required_text(descriptor_field(entry, 0, "id"@));
    let name = required_text(descriptor_field(entry, 1, "name"@));
    let mime_type = optional_text(descriptor_field(entry, 2, "mime_type"@));
    let size_bytes = required_integer(descriptor_field(entry, 3, "size_bytes"@));
    let kind = required_text(descriptor_field(entry, 4, "kind"@));
    let relative_path = required_text(descriptor_field(entry, 5, "relative_path"@));
    if id is Some && parsed_uuid(id->0@) is Some && name is Some && mime_type is Some
        && size_bytes is Some && kind is Some && relative_path is Some {
        Some(
            ChatAttachmentMeta {
                id: parsed_uuid(id->0@)->0,
                name: name->0,
                mime_type: mime_type->0,
                size_bytes: size_bytes->0,
                kind: kind->0,
                relative_path: relative_path->0,
            },
        )
    } else {
        None
    }
}

/// The attachments that a list describes, where every entry describes one.
pub open spec fn attachments_in(entries: Seq<MetaValue>) -> Option<Seq<ChatAttachmentMeta>>
    decreases entries.len(),
{
    if entries.len() == 0 {
        Some(Seq::empty())
    } else {
        match (attachments_in(entries.drop_last()), attachment_of(entries.last())) {
            (Some(earlier), Some(last)) => Some(earlier.push(last)),
            _ => None,
        }
    }
}

/// The attachments that a metadata document carries: those of its member
/// `attachments`, where that is a list of which every entry describes an
/// attachment; none otherwise.
pub open spec fn attachments_of(meta: MetaValue) -> Seq<ChatAttachmentMeta> {
    match meta.member("attachments"@) {
        Some(MetaValue::List(entries)) => match attachments_in(entries@) {
            Some(found) => found,
            None => Seq::empty(),
        },
        _ => Seq::empty(),
    }
}

/// The text that names the message a metadata document refers to: the text
/// `message_id` of its member `reference`, else its text
/// `reference_message_id`.
pub open spec fn reference_text(meta: MetaValue) -> Option<String> {
    let nested = match meta.member("reference"@) {
        Some(reference) => reference.text_member("message_id"@),
        None => None,
    };
    if nested is Some {
        nested
    } else {
        meta.text_member("reference_message_id"@)
    }
}

/// The message that a metadata document refers to, where the text that names
/// it spells a UUID.
pub open spec fn reference_message_id(meta: MetaValue) -> Option<u128> {
    match reference_text(meta) {
        Some(text) => parsed_uuid(text@),
        None => None,
    }
}

/// The value of one field of an attachment descriptor.
fn field_of<'a>(entry: &'a MetaValue, at: usize, key: &str) -> (field: Option<&'a MetaValue>)
    requires
        at < 6,
    ensures
        match field {
            Some(value) => descriptor_field(*entry, at as int, key@) == Some(*value),
            None => descriptor_field(*entry, at as int, key@) is None,
        },
{
    match entry {
        MetaValue::Object(_) => entry.get(key),
        MetaValue::List(values) => {
            if values.len() == 6 {
                Some(&values[at])
            } else {
                None
            }
        },
        _ => None,
    }
}

/// A field as a text.
fn text_field(field: Option<&MetaValue>) -> (text: Option<String>)
    ensures
        text == required_text(
            match field {
                Some(value) => Some(*value),
                None => None,
            },
        ),
{
    match field {
        Some(MetaValue::Text(s)) => Some(s.clone()),
        _ => None,
    }
}

/// A field as an optional text.
fn optional_text_field(field: Option<&MetaValue>) -> (text: Option<Option<String>>)
    ensures
        text == optional_text(
            match field {
                Some(value) => Some(*value),
                None => None,
            },
        ),
{
    match field {
        None => Some(None),
        Some(MetaValue::Null) => Some(None),
        Some(MetaValue::Text(s)) => Some(Some(s.clone())),
        Some(_) => None,
    }
}

/// A field as a signed 64-bit integer.
fn integer_field(field: Option<&MetaValue>) -> (number: Option<i64>)
    ensures
        number == required_integer(
            match field {
                Some(value) => Some(*value),
                None => None,
            },
        ),
{
    match field {
        Some(MetaValue::Number(MetaNumber::PosInt(n))) => {
            if *n <= i64::MAX as u64 {
                Some(*n as i64)
            } else {
                None
            }
        },
        Some(MetaValue::Number(MetaNumber::NegInt(n))) => Some(*n),
        _ => None,
    }
}

/// Reads one attachment descriptor.
pub fn read_attachment(entry: &MetaValue) -> (found: Option<ChatAttachmentMeta>)
    ensures
        found == attachment_of(*entry),
{
    let id = match text_field(field_of(entry, 0, "id")) {
        Some(text) => match parse_uuid(text.as_str()) {
            Some(id) => id,
            None => {
                return None;
            },
        },
        None => {
            return None;
        },
    };
    let name = match text_field(field_of(entry, 1, "name")) {
        Some(name) => name,
        None => {
            return None;
        },
    };
    let mime_type = match optional_text_field(field_of(entry, 2, "mime_type")) {
        Some(mime_type) => mime_type,
        None => {
            return None;
        },
    };
    let size_bytes: i64 = match integer_field(field_of(entry, 3, "size_bytes")) {
        Some(size_bytes) => size_bytes,
        None => {
            return None;
        },
    };
    let kind = match text_field(field_of(entry, 4, "kind")) {
        Some(kind) => kind,
        None => {
            return None;
        },
    };
    let relative_path = match text_field(field_of(entry, 5, "relative_path")) {
        Some(relative_path) => relative_path,
        None => {
            return None;
        },
    };
    Some(ChatAttachmentMeta { id, name, mime_type, size_bytes, kind, relative_path })
}

/// The attachments listed in a metadata document. A list with an entry that
/// does not describe an attachment counts as no list.
#[verifier::loop_isolation(false)]
pub fn extract_attachments(meta: &MetaValue) -> (found: Vec<ChatAttachmentMeta>)
    ensures
        found@ == attachments_of(*meta),
{
    let entries = match meta.get("attachments") {
        Some(MetaValue::List(entries)) => entries,
        _ => {
            return Vec::new();
        },
    };
    let mut found: Vec<ChatAttachmentMeta> = Vec::new();
    let mut i: usize = 0;
    assert(entries@.take(0) =~= Seq::empty());
    while i < entries.len()
        invariant
            i <= entries.len(),
            attachments_in(entries@.take(i as int)) == Some(found@),
        decreases entries.len() - i,
    {
        proof {
            let next = entries@.take(i + 1);
            assert(next.drop_last() =~= entries@.take(i as int));
            assert(next.last() == entries@[i as int]);
        }
        match read_attachment(&entries[i]) {
            Some(attachment) => {
                found.push(attachment);
            },
            None => {
                proof {
                    lemma_attachments_in_fails(entries@, i as int);
                }
                return Vec::new();
            },
        }
        i += 1;
    }
    assert(entries@.take(entries@.len() as int) =~= entries@);
    found
}

/// A list with an entry that describes no attachment describes none.
pub proof fn lemma_attachments_in_fails(entries: Seq<MetaValue>, at: int)
    requires
        0 <= at < entries.len(),
        attachment_of(entries[at]) is None,
    ensures
        attachments_in(entries) is None,
    decreases entries.len(),
{
    if at < entries.len() - 1 {
        lemma_attachments_in_fails(entries.drop_last(), at);
    }
}

/// Whether a metadata document carries at least one attachment.
pub fn has_attachments(meta: &MetaValue) -> (yes: bool)
    ensures
        yes == (attachments_of(*meta).len() > 0),
{
    extract_attachments(meta).len() > 0
}

/// The message that a metadata document refers to, if it names one.
pub fn extract_reference_message_id(meta: &MetaValue) -> (id: Option<u128>)
    ensures
        id == reference_message_id(*meta),
{
    let nested = match meta.get("reference") {
        Some(reference) => reference.get_text("message_id"),
        None => None,
    };
    let text = match nested {
        Some(text) => Some(text),
        None => meta.get_text("reference_message_id"),
    };
    match text {
        Some(text) => parse_uuid(text.as_str()),
        None => None,
    }
}

} // verus!
