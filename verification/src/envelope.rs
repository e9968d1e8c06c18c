//! The envelope of a text frame: a tag that says what the payload is, and
//! the payload.

use vstd::prelude::*;
use crate::codec::{field, text_field};
use crate::encode::{
    member_of, members_view, object, response_payload, response_tag, response_tree,
};
use crate::errors::DecodeError;
use crate::json::{Json, JsonValue};
use crate::messages::{
    EventJson, FunctionCallJson, IdentityTokenJson, SpaceDbResponseView, SubscriptionUpdateJson,
    TransactionUpdateJson,
};

verus! {

/// A message that has a tag of its own on the wire.
pub trait MessageType {
    /// The tag, as a specification.
    spec fn tag() -> Seq<char>;

    /// The tag that goes into the envelope's `t`.
    fn message_type() -> (r: &'static str)
        ensures
            r@ == Self::tag(),
    ;
}

impl MessageType for IdentityTokenJson {
    open spec fn tag() -> Seq<char> {
        "IdentityToken"@
    }

    fn message_type() -> (r: &'static str) {
        "IdentityToken"
    }
}

impl MessageType for SubscriptionUpdateJson {
    open spec fn tag() -> Seq<char> {
        "SubscriptionUpdate"@
    }

    fn message_type() -> (r: &'static str) {
        "SubscriptionUpdate"
    }
}

impl MessageType for TransactionUpdateJson {
    open spec fn tag() -> Seq<char> {
        "TransactionUpdate"@
    }

    fn message_type() -> (r: &'static str) {
        "TransactionUpdate"
    }
}

impl MessageType for FunctionCallJson {
    open spec fn tag() -> Seq<char> {
        "FunctionCall"@
    }

    fn message_type() -> (r: &'static str) {
        "FunctionCall"
    }
}

impl MessageType for EventJson {
    open spec fn tag() -> Seq<char> {
        "Event"@
    }

    fn message_type() -> (r: &'static str) {
        "Event"
    }
}

/// An envelope that was received: the tag and the payload, still undecoded,
/// both inside the tree they were read from.
#[derive(Debug, PartialEq, Eq)]
pub struct Envelope<'a> {
    pub message_type: &'a String,
    pub payload: &'a Json,
}

/// The tag and the payload of an envelope `{"t": tag, "d": payload}`.
pub open spec fn envelope_spec(j: JsonValue) -> Result<(Seq<char>, JsonValue), DecodeError> {
    match text_field(j, "t"@) {
        Err(e) => Err(e),
        Ok(tag) => match field(j, "d"@) {
            Err(e) => Err(e),
            Ok(d) => Ok((tag, d)),
        },
    }
}

impl<'a> Envelope<'a> {
    /// Opens the envelope that a tree holds.
    pub fn open(tree: &'a Json) -> (r: Result<Envelope<'a>, DecodeError>)
        ensures
            match r {
                Ok(envelope) => envelope_spec(tree@) == Ok::<(Seq<char>, JsonValue), DecodeError>(
                    (envelope.message_type@, envelope.payload@),
                ),
                Err(e) => envelope_spec(tree@) == Err::<(Seq<char>, JsonValue), DecodeError>(e),
            },
    {
        let message_type = match tree.get("t") {
            Some(Json::Str(tag)) => tag,
            Some(_) => {
                return Err(DecodeError::ExpectedString);
            },
            None => {
                return Err(
                    match tree {
                        Json::Object(_) => DecodeError::MissingField,
                        _ => DecodeError::ExpectedObject,
                    },
                );
            },
        };
        match tree.get("d") {
            Some(payload) => Ok(Envelope { message_type, payload }),
            None => Err(DecodeError::MissingField),
        }
    }
}

/// An envelope to send: the tag and the payload.
#[derive(Debug, Clone, PartialEq, Eq)]
pub struct SendEnveloppe<T> {
    pub message_type: String,
    pub payload: T,
}

/// The tree of an envelope: `{"t": tag, "d": payload}`.
pub open spec fn envelope_tree(tag: Seq<char>, payload: JsonValue) -> JsonValue {
    JsonValue::Object(seq![("t"@, JsonValue::Str(tag)), ("d"@, payload)])
}

impl<T: MessageType> SendEnveloppe<T> {
    /// An envelope around `payload`, under the tag of its type.
    pub fn new(payload: T) -> (r: Self)
        ensures
            r.message_type@ == T::tag(),
            r.payload == payload,
    {
        SendEnveloppe { message_type: T::message_type().to_owned(), payload }
    }
}

impl SendEnveloppe<Json> {
    /// The tree of the envelope.
    pub fn into_json(self) -> (r: Json)
        ensures
            r@ == envelope_tree(self.message_type@, self.payload@),
            self.payload@.printable() ==> r@.printable(),
    {
        let ghost tag = self.message_type@;
        let ghost payload = self.payload@;
        let mut members: Vec<(String, Json)> = Vec::new();
        members.push(member_of("t", Json::Str(self.message_type)));
        members.push(member_of("d", self.payload));
        proof {
            reveal_strlit("t");
            reveal_strlit("d");
            let names = envelope_tree(tag, payload)->Object_0;
            assert(members_view(members@) =~= names);
            assert(names[0].0[0] != names[1].0[0]);
        }
        object(members)
    }
}

/// The envelope of a response is the envelope of its tag and its payload.
pub proof fn lemma_response_envelope(v: SpaceDbResponseView)
    ensures
        response_tree(v) == envelope_tree(response_tag(v), response_payload(v)),
{
}

} // verus!
