//! Calls of reducers, as messages.

use vstd::prelude::*;
use crate::encode::{
    encode_values, lemma_distinct_by_length, member_of, members_view, object, value_trees,
};
use crate::errors::ClientError;
use crate::json::{json_text, print_json, Json, JsonValue};
use crate::messages::{values_view, TypeValue, TypeValueView};

verus! {

/// What a row operation does to its row.
#[derive(Debug, Clone, Copy, PartialEq, Eq, Structural)]
pub enum TableOp {
    Insert,
    Delete,
    Update,
}

/// The call of a reducer: its name and its positional arguments.
#[derive(Debug, Clone, Eq, PartialEq)]
pub struct Message {
    pub fn_: String,
    pub args: Vec<TypeValue>,
}

pub struct MessageView {
    pub fn_: Seq<char>,
    pub args: Seq<TypeValueView>,
}

impl View for Message {
    type V = MessageView;

    open spec fn view(&self) -> MessageView {
        MessageView { fn_: self.fn_@, args: values_view(self.args@) }
    }
}

/// The tree of a message: `{"fn_": name, "args": [..]}`.
pub open spec fn message_tree(msg: MessageView) -> JsonValue {
    JsonValue::Object(
        seq![("fn_"@, JsonValue::Str(msg.fn_)), ("args"@, JsonValue::Array(value_trees(msg.args)))],
    )
}

impl Message {
    /// The tree of the message.
    pub fn to_tree(&self) -> (r: Json)
        ensures
            r@ == message_tree(self@),
            r@.printable(),
    {
        let mut members: Vec<(String, Json)> = Vec::new();
        members.push(member_of("fn_", Json::Str(self.fn_.clone())));
        members.push(member_of("args", encode_values(&self.args)));
        assert(members_view(members@) =~= message_tree(self@)->Object_0);
        proof {
            reveal_strlit("fn_");
            reveal_strlit("args");
            lemma_distinct_by_length(message_tree(self@)->Object_0);
        }
        object(members)
    }

    /// The text of the message, written by `serde_json`.
    pub fn to_json(&self) -> (text: String)
        ensures
            text@ == json_text(message_tree(self@)),
    {
        let tree = self.to_tree();
        print_json(&tree)
    }
}

/// The sender of reducer calls.
pub struct NetworkManager {}

impl NetworkManager {
    pub fn new() -> Self {
        Self {  }
    }

    /// Prepares the call of a reducer. The message is put in its wire form,
    /// which always succeeds; nothing is sent.
    pub fn internal_call_reducer(&self, msg: &Message) -> (r: Result<(), ClientError>)
        ensures
            r is Ok,
    {
        let _json = msg.to_json();
        Ok(())
    }
}

} // verus!
