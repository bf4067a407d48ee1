//! Conversation context: the messages of a session and the variables drawn
//! from them.

use vstd::prelude::*;
use crate::json::JsonValue;
use crate::textmap::TextMap;
use crate::types::{MessageId, Timestamp};

verus! {

/// Who spoke a message.
#[derive(Clone, Copy, Debug, PartialEq, Eq, Structural)]
pub enum MessageRole {
    System,
    User,
    Assistant,
    Tool,
}

/// One message of a conversation.
#[derive(Debug, PartialEq)]
pub struct Message {
    pub id: MessageId,
    pub role: MessageRole,
    pub content: String,
    pub metadata: Option<TextMap<JsonValue>>,
    pub created_at: Timestamp,
}

impl Message {
    /// A message of the given role, with a fresh id and the current time.
    pub fn with_role(role: MessageRole, content: &str) -> (message: Self)
        ensures
            message.role == role,
            message.content@ == content@,
            message.metadata is None,
    {
        Message {
            id: MessageId::new(),
            role,
            content: content.to_owned(),
            metadata: None,
            created_at: Timestamp::now(),
        }
    }

    /// A system message.
    pub fn system(content: &str) -> (message: Self)
        ensures
            message.role == MessageRole::System,
            message.content@ == content@,
            message.metadata is None,
    {
        Message::with_role(MessageRole::System, content)
    }

    /// A user message.
    pub fn user(content: &str) -> (message: Self)
        ensures
            message.role == MessageRole::User,
            message.content@ == content@,
            message.metadata is None,
    {
        Message::with_role(MessageRole::User, content)
    }

    /// An assistant message.
    pub fn assistant(content: &str) -> (message: Self)
        ensures
            message.role == MessageRole::Assistant,
            message.content@ == content@,
            message.metadata is None,
    {
        Message::with_role(MessageRole::Assistant, content)
    }

    /// A tool message.
    pub fn tool(content: &str) -> (message: Self)
        ensures
            message.role == MessageRole::Tool,
            message.content@ == content@,
            message.metadata is None,
    {
        Message::with_role(MessageRole::Tool, content)
    }

    /// The message with `value` added to its metadata under `key`.
    pub fn with_metadata(self, key: &str, value: JsonValue) -> (message: Self)
        ensures
            message.id == self.id,
            message.role == self.role,
            message.content == self.content,
            message.created_at == self.created_at,
            message.metadata matches Some(data) && data.model() == (match self.metadata {
                Some(before) => before.model(),
                None => Map::empty(),
            }).insert(key@, value),
    {
        let Message { id, role, content, metadata, created_at } = self;
        let mut data = match metadata {
            Some(data) => data,
            None => TextMap::new(),
        };
        data.insert(key.to_owned(), value);
        Message { id, role, content, metadata: Some(data), created_at }
    }
}

/// The number of messages a context keeps unless told otherwise.
pub fn default_max_messages() -> (limit: usize)
    ensures
        limit == 100,
{
    100
}

/// The messages and variables of one conversation. At most `max_messages`
/// messages are kept, the newest ones.
#[derive(Clone, Debug, PartialEq)]
pub struct Context {
    pub messages: Vec<Message>,
    pub variables: TextMap<crate::variable::ContextVariable>,
    pub max_messages: usize,
}

/// The last `limit` items of `items`, or all of them where there are fewer.
pub open spec fn newest<T>(items: Seq<T>, limit: int) -> Seq<T> {
    if items.len() > limit && limit >= 0 {
        items.skip(items.len() - limit)
    } else {
        items
    }
}

/// The messages of `messages` that `role` spoke, in order.
pub open spec fn spoken_by(messages: Seq<Message>, role: MessageRole) -> Seq<Message> {
    messages.filter(|m: Message| m.role == role)
}

impl Context {
    /// An empty context that keeps 100 messages.
    pub fn new() -> (context: Self)
        ensures
            context.messages@.len() == 0,
            context.variables.entries@.len() == 0,
            context.max_messages == 100,
    {
        Context { messages: Vec::new(), variables: TextMap::new(), max_messages: default_max_messages() }
    }

    /// An empty context that keeps `max_messages` messages.
    pub fn with_max_messages(max_messages: usize) -> (context: Self)
        ensures
            context.messages@.len() == 0,
            context.variables.entries@.len() == 0,
            context.max_messages == max_messages,
    {
        Context { messages: Vec::new(), variables: TextMap::new(), max_messages }
    }

    /// Appends `message` and drops the oldest messages beyond the limit.
    pub fn add_message(&mut self, message: Message)
        ensures
            final(self).messages@ == newest(
                old(self).messages@.push(message),
                old(self).max_messages as int,
            ),
            final(self).variables == old(self).variables,
            final(self).max_messages == old(self).max_messages,
    {
        self.messages.push(message);
        if self.messages.len() > self.max_messages {
            let excess = self.messages.len() - self.max_messages;
            let kept = self.messages.split_off(excess);
            self.messages = kept;
        }
    }

    /// Records `variable` under its name, in place of an earlier one of that
    /// name.
    pub fn add_variable(&mut self, variable: crate::variable::ContextVariable)
        ensures
            final(self).variables.model() == old(self).variables.model().insert(
                variable.name@,
                variable,
            ),
            final(self).messages == old(self).messages,
            final(self).max_messages == old(self).max_messages,
    {
        let name = variable.name.clone();
        self.variables.insert(name, variable);
    }

    /// The variable of the given name.
    pub fn get_variable(&self, name: &str) -> (found: Option<&crate::variable::ContextVariable>)
        ensures
            found.is_some() == self.variables.contains(name@),
            found matches Some(v) ==> *v == self.variables.value(name@),
    {
        self.variables.get(name)
    }

    /// The messages that `role` spoke, in order.
    pub fn messages_by_role(&self, role: MessageRole) -> (found: Vec<&Message>)
        ensures
            found@.len() == spoken_by(self.messages@, role).len(),
            forall|i: int| 0 <= i < found@.len() ==> *found@[i]
                == spoken_by(self.messages@, role)[i],
    {
        let mut found: Vec<&Message> = Vec::new();
        let mut i: usize = 0;
        assert(self.messages@.take(0) =~= Seq::empty());
        while i < self.messages.len()
            invariant
                i <= self.messages@.len(),
                found@.len() == spoken_by(self.messages@.take(i as int), role).len(),
                forall|k: int|
                    0 <= k < found@.len() ==> *found@[k] == spoken_by(
                        self.messages@.take(i as int),
                        role,
                    )[k],
            decreases self.messages.len() - i,
        {
            proof {
                reveal(Seq::filter);
                assert(self.messages@.take(i + 1).drop_last() =~= self.messages@.take(i as int));
                assert(self.messages@.take(i + 1).last() == self.messages@[i as int]);
            }
            if self.messages[i].role == role {
                found.push(&self.messages[i]);
            }
            i += 1;
        }
        assert(self.messages@.take(i as int) =~= self.messages@);
        found
    }

    /// The newest message.
    pub fn last_message(&self) -> (last: Option<&Message>)
        ensures
            self.messages@.len() == 0 ==> last is None,
            self.messages@.len() > 0 ==> last == Some(&self.messages@.last()),
    {
        if self.messages.len() == 0 {
            None
        } else {
            Some(&self.messages[self.messages.len() - 1])
        }
    }

    /// Drops every message and every variable.
    pub fn clear(&mut self)
        ensures
            final(self).messages@.len() == 0,
            final(self).variables.entries@.len() == 0,
            final(self).max_messages == old(self).max_messages,
    {
        self.messages.clear();
        self.variables = TextMap::new();
    }
}

/// The role and the text of each message, in order.
pub fn messages_to_provider_format(messages: &Vec<Message>) -> (pairs: Vec<(MessageRole, String)>)
    ensures
        pairs@.len() == messages@.len(),
        forall|i: int|
            0 <= i < pairs@.len() ==> pairs@[i].0 == messages@[i].role && pairs@[i].1@
                == messages@[i].content@,
{
    let mut pairs: Vec<(MessageRole, String)> = Vec::new();
    let mut i: usize = 0;
    while i < messages.len()
        invariant
            i <= messages@.len(),
            pairs@.len() == i,
            forall|k: int|
                0 <= k < i ==> pairs@[k].0 == messages@[k].role && pairs@[k].1@
                    == messages@[k].content@,
        decreases messages.len() - i,
    {
        pairs.push((messages[i].role, messages[i].content.clone()));
        i += 1;
    }
    pairs
}

/// Whether two messages say the same: the same id, role, text and time, and
/// metadata of the same content.
pub open spec fn same_message(a: Message, b: Message) -> bool {
    &&& a.id == b.id
    &&& a.role == b.role
    &&& a.content@ == b.content@
    &&& a.created_at == b.created_at
    &&& match (a.metadata, b.metadata) {
        (Some(x), Some(y)) => crate::json::json_map(x) == crate::json::json_map(y),
        (None, None) => true,
        _ => false,
    }
}

impl Clone for Message {
    /// A deep copy.
    fn clone(&self) -> (copy: Self)
        ensures
            same_message(copy, *self),
    {
        Message {
            id: self.id,
            role: self.role,
            content: self.content.clone(),
            metadata: match &self.metadata {
                Some(data) => Some(crate::json::clone_values(data)),
                None => None,
            },
            created_at: self.created_at,
        }
    }
}

impl Default for Context {
    fn default() -> (made: Self)
        ensures
            made.messages@.len() == 0,
            made.variables.entries@.len() == 0,
            made.max_messages == 100,
    {
        Self::new()
    }
}

} // verus!
