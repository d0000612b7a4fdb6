//! The inbound event schema: what a webhook delivers for one chat message.

use vstd::prelude::*;
use crate::json::{json_document, Json};

verus! {

/// One inbound event.
#[derive(Debug)]
pub struct Update {
    pub update_id: i32,
    pub message: Message,
}

/// The chat message that an event carries.
#[derive(Debug)]
pub struct Message {
    pub message_id: i32,
    pub chat: Chat,
    pub text: Option<String>,
    pub entities: Option<Vec<MessageEntity>>,
}

/// The conversation a message belongs to.
#[derive(Debug)]
pub struct Chat {
    pub id: i32,
}

/// A marked-up span of a message's text. Its kind travels under the key
/// `type`.
#[derive(Debug)]
pub struct MessageEntity {
    pub message_type: String,
    pub offset: i32,
    pub length: i32,
}

pub struct UpdateView {
    pub update_id: int,
    pub message: MessageView,
}

pub struct MessageView {
    pub message_id: int,
    pub chat: ChatView,
    pub text: Option<Seq<char>>,
    pub entities: Option<Seq<MessageEntityView>>,
}

pub struct ChatView {
    pub id: int,
}

pub struct MessageEntityView {
    pub message_type: Seq<char>,
    pub offset: int,
    pub length: int,
}

impl View for Chat {
    type V = ChatView;

    open spec fn view(&self) -> ChatView {
        ChatView { id: self.id as int }
    }
}

impl View for MessageEntity {
    type V = MessageEntityView;

    open spec fn view(&self) -> MessageEntityView {
        MessageEntityView {
            message_type: self.message_type@,
            offset: self.offset as int,
            length: self.length as int,
        }
    }
}

impl View for Message {
    type V = MessageView;

    open spec fn view(&self) -> MessageView {
        MessageView {
            message_id: self.message_id as int,
            chat: self.chat@,
            text: match self.text {
                Some(text) => Some(text@),
                None => None,
            },
            entities: match self.entities {
                Some(entities) => Some(entities@.map_values(|e: MessageEntity| e@)),
                None => None,
            },
        }
    }
}

impl View for Update {
    type V = UpdateView;

    open spec fn view(&self) -> UpdateView {
        UpdateView { update_id: self.update_id as int, message: self.message@ }
    }
}

/// A required integer member: present, an integer, and within 32 signed
/// bits.
pub open spec fn int_member(doc: Json, key: Seq<char>) -> Option<int> {
    match doc.member(key) {
        Some(Json::Number(Some(n))) => if i32::MIN <= n <= i32::MAX {
            Some(n as int)
        } else {
            None
        },
        _ => None,
    }
}

/// A required text member.
pub open spec fn text_member(doc: Json, key: Seq<char>) -> Option<Seq<char>> {
    match doc.member(key) {
        Some(Json::Text(text)) => Some(text@),
        _ => None,
    }
}

/// An optional text member. A missing member and `null` both stand for no
/// text (the inner `None`); a member of any other kind is an error (the
/// outer `None`).
pub open spec fn optional_text_member(doc: Json, key: Seq<char>) -> Option<Option<Seq<char>>> {
    match doc.member(key) {
        None => Some(None),
        Some(Json::Null) => Some(None),
        Some(Json::Text(text)) => Some(Some(text@)),
        _ => None,
    }
}

/// The chat that `doc` describes: an object with an integer `id`.
pub open spec fn chat_of(doc: Json) -> Option<ChatView> {
    match int_member(doc, "id"@) {
        Some(id) => Some(ChatView { id }),
        None => None,
    }
}

/// The entity that `doc` describes: an object with a text `type` and
/// integers `offset` and `length`.
pub open spec fn entity_of(doc: Json) -> Option<MessageEntityView> {
    match (text_member(doc, "type"@), int_member(doc, "offset"@), int_member(doc, "length"@)) {
        (Some(message_type), Some(offset), Some(length)) => Some(
            MessageEntityView { message_type, offset, length },
        ),
        _ => None,
    }
}

/// The entities that `items` describe, when each of them describes one.
pub open spec fn entities_of(items: Seq<Json>) -> Option<Seq<MessageEntityView>> {
    if forall|i: int| 0 <= i < items.len() ==> (#[trigger] entity_of(items[i])) is Some {
        Some(Seq::new(items.len(), |i: int| entity_of(items[i])->0))
    } else {
        None
    }
}

/// The optional member `entities`: missing or `null` for none, else a list
/// in which every item describes an entity.
pub open spec fn entities_member(doc: Json) -> Option<Option<Seq<MessageEntityView>>> {
    match doc.member("entities"@) {
        None => Some(None),
        Some(Json::Null) => Some(None),
        Some(Json::List(items)) => match entities_of(items@) {
            Some(entities) => Some(Some(entities)),
            None => None,
        },
        _ => None,
    }
}

/// The message that `doc` describes: an object with an integer
/// `message_id`, a `chat`, and optionally `text` and `entities`.
pub open spec fn message_of(doc: Json) -> Option<MessageView> {
    match (
        int_member(doc, "message_id"@),
        doc.member("chat"@),
        optional_text_member(doc, "text"@),
        entities_member(doc),
    ) {
        (Some(message_id), Some(chat_doc), Some(text), Some(entities)) => match chat_of(chat_doc) {
            Some(chat) => Some(MessageView { message_id, chat, text, entities }),
            None => None,
        },
        _ => None,
    }
}

/// The event that `doc` describes: an object with an integer `update_id`
/// and a `message`. Members beyond those named are ignored, here and in
/// the objects below.
pub open spec fn update_of(doc: Json) -> Option<UpdateView> {
    match (int_member(doc, "update_id"@), doc.member("message"@)) {
        (Some(update_id), Some(message_doc)) => match message_of(message_doc) {
            Some(message) => Some(UpdateView { update_id, message }),
            None => None,
        },
        _ => None,
    }
}

/// The event that the request body `bytes` holds, if it is a JSON document
/// that describes one.
pub open spec fn update_of_payload(bytes: Seq<u8>) -> Option<UpdateView> {
    match json_document(bytes) {
        Some(doc) => update_of(doc),
        None => None,
    }
}

/// The view of an optional value.
pub open spec fn view_of<T: View>(value: Option<T>) -> Option<T::V> {
    match value {
        Some(v) => Some(v@),
        None => None,
    }
}

fn read_int(doc: &Json, key: &str) -> (r: Option<i32>)
    ensures
        r is None <==> int_member(*doc, key@) is None,
        r matches Some(n) ==> int_member(*doc, key@) == Some(n as int),
{
    match doc.get(key) {
        Some(Json::Number(Some(n))) => {
            if -2147483648 <= *n && *n <= 2147483647 {
                Some(*n as i32)
            } else {
                None
            }
        },
        _ => None,
    }
}

fn read_text(doc: &Json, key: &str) -> (r: Option<String>)
    ensures
        view_of(r) == text_member(*doc, key@),
{
    match doc.get(key) {
        Some(Json::Text(text)) => Some(text.clone()),
        _ => None,
    }
}

fn read_optional_text(doc: &Json, key: &str) -> (r: Option<Option<String>>)
    ensures
        r is None <==> optional_text_member(*doc, key@) is None,
        r matches Some(text) ==> optional_text_member(*doc, key@) == Some(view_of(text)),
{
    match doc.get(key) {
        None => Some(None),
        Some(Json::Null) => Some(None),
        Some(Json::Text(text)) => Some(Some(text.clone())),
        _ => None,
    }
}

impl Chat {
    /// Reads a chat from a JSON value.
    pub fn from_json(doc: &Json) -> (r: Option<Chat>)
        ensures
            view_of(r) == chat_of(*doc),
    {
        match read_int(doc, "id") {
            Some(id) => Some(Chat { id }),
            None => None,
        }
    }
}

impl MessageEntity {
    /// Reads an entity from a JSON value.
    pub fn from_json(doc: &Json) -> (r: Option<MessageEntity>)
        ensures
            view_of(r) == entity_of(*doc),
    {
        let message_type = match read_text(doc, "type") {
            Some(text) => text,
            None => { return None; },
        };
        let offset = match read_int(doc, "offset") {
            Some(n) => n,
            None => { return None; },
        };
        let length = match read_int(doc, "length") {
            Some(n) => n,
            None => { return None; },
        };
        Some(MessageEntity { message_type, offset, length })
    }
}

fn read_entities(doc: &Json) -> (r: Option<Option<Vec<MessageEntity>>>)
    ensures
        r is None <==> entities_member(*doc) is None,
        r matches Some(found) ==> entities_member(*doc) == Some(
            match found {
                Some(entities) => Some(entities@.map_values(|e: MessageEntity| e@)),
                None => None,
            },
        ),
{
    match doc.get("entities") {
        None => Some(None),
        Some(Json::Null) => Some(None),
        Some(Json::List(items)) => {
            let mut entities: Vec<MessageEntity> = Vec::new();
            let mut i: usize = 0;
            while i < items.len()
                invariant
                    i <= items.len(),
                    entities.len() == i,
                    doc.member("entities"@) == Some(Json::List(*items)),
                    forall|k: int| 0 <= k < i ==> entity_of(#[trigger] items@[k]) == Some(entities@[k]@),
                decreases items.len() - i,
            {
                match MessageEntity::from_json(&items[i]) {
                    Some(entity) => {
                        entities.push(entity);
                    },
                    None => {
                        assert(entity_of(items@[i as int]) is None);
                        return None;
                    },
                }
                i += 1;
            }
            assert(entities@.map_values(|e: MessageEntity| e@) =~= entities_of(items@)->0);
            Some(Some(entities))
        },
        _ => None,
    }
}

impl Message {
    /// Reads a message from a JSON value.
    pub fn from_json(doc: &Json) -> (r: Option<Message>)
        ensures
            view_of(r) == message_of(*doc),
    {
        let message_id = match read_int(doc, "message_id") {
            Some(n) => n,
            None => { return None; },
        };
        let chat = match doc.get("chat") {
            Some(chat_doc) => match Chat::from_json(chat_doc) {
                Some(chat) => chat,
                None => { return None; },
            },
            None => { return None; },
        };
        let text = match read_optional_text(doc, "text") {
            Some(text) => text,
            None => { return None; },
        };
        let entities = match read_entities(doc) {
            Some(entities) => entities,
            None => { return None; },
        };
        Some(Message { message_id, chat, text, entities })
    }
}

impl Update {
    /// Reads an event from a JSON value.
    pub fn from_json(doc: &Json) -> (r: Option<Update>)
        ensures
            view_of(r) == update_of(*doc),
    {
        let update_id = match read_int(doc, "update_id") {
            Some(n) => n,
            None => { return None; },
        };
        let message = match doc.get("message") {
            Some(message_doc) => match Message::from_json(message_doc) {
                Some(message) => message,
                None => { return None; },
            },
            None => { return None; },
        };
        Some(Update { update_id, message })
    }

    /// Reads an event from a request body.
    pub fn parse(bytes: &[u8]) -> (r: Option<Update>)
        ensures
            view_of(r) == update_of_payload(bytes@),
    {
        match Json::parse(bytes) {
            Some(doc) => Update::from_json(&doc),
            None => None,
        }
    }
}

} // verus!
