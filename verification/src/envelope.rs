//! The signal envelope: the one message shape that the relay carries, and its
//! JSON wire form `{"type": .., "sender": .., "data": ..}`.

use crate::json::{
    is_null, json_document, json_is_null, json_member, json_quoted, json_rendered, json_string,
    member, parse, quote, render, string_of,
};
use vstd::prelude::*;
use vstd::string::*;

verus! {

/// One relayed message. `kind` is the wire field `type`; `data` is carried
/// through untouched, and `None` stands for JSON `null`.
#[derive(Clone, Debug, PartialEq, Eq)]
pub struct SignalEnvelope {
    pub kind: String,
    pub sender: String,
    pub data: Option<serde_json::Value>,
}

/// What an envelope is, as the contracts speak of it.
pub struct EnvelopeView {
    pub kind: Seq<char>,
    pub sender: Seq<char>,
    pub data: Option<serde_json::Value>,
}

impl View for SignalEnvelope {
    type V = EnvelopeView;

    open spec fn view(&self) -> EnvelopeView {
        EnvelopeView { kind: self.kind@, sender: self.sender@, data: self.data }
    }
}

/// The payload that a `data` member stands for: a missing member and JSON `null`
/// both mean that there is none.
pub open spec fn payload(found: Option<serde_json::Value>) -> Option<serde_json::Value> {
    match found {
        Some(v) => if json_is_null(v) {
            None
        } else {
            Some(v)
        },
        None => None,
    }
}

/// The text of a member that must be a JSON string: `None` when the member is
/// missing or is anything else.
pub open spec fn text_member(doc: serde_json::Value, key: Seq<char>) -> Option<Seq<char>> {
    match json_member(doc, key) {
        Some(v) => json_string(v),
        None => None,
    }
}

/// The envelope made of the three members, which exists exactly when both
/// required texts do.
pub open spec fn assembled(
    kind: Option<Seq<char>>,
    sender: Option<Seq<char>>,
    data: Option<serde_json::Value>,
) -> Option<EnvelopeView> {
    match (kind, sender) {
        (Some(k), Some(s)) => Some(EnvelopeView { kind: k, sender: s, data }),
        _ => None,
    }
}

/// The envelope that a JSON document holds, if it fits the schema: string members
/// `type` and `sender`, an optional `data`, and whatever else beside them.
pub open spec fn document_envelope(doc: serde_json::Value) -> Option<EnvelopeView> {
    assembled(
        text_member(doc, "type"@),
        text_member(doc, "sender"@),
        payload(json_member(doc, "data"@)),
    )
}

/// The envelope that a text frame holds, if it holds one.
pub open spec fn decoded(text: Seq<char>) -> Option<EnvelopeView> {
    match json_document(text) {
        Some(doc) => document_envelope(doc),
        None => None,
    }
}

/// The JSON text of a payload: `null` when there is none.
pub open spec fn payload_text(data: Option<serde_json::Value>) -> Option<Seq<char>> {
    match data {
        Some(v) => json_rendered(v),
        None => Some("null"@),
    }
}

/// The wire text of an envelope: the three members in schema order, without
/// whitespace. It exists when each part can be written.
pub open spec fn encoded(e: EnvelopeView) -> Option<Seq<char>> {
    match (json_quoted(e.kind), json_quoted(e.sender), payload_text(e.data)) {
        (Some(k), Some(s), Some(d)) => Some(
            "{\"type\":"@ + k + ",\"sender\":"@ + s + ",\"data\":"@ + d + "}"@,
        ),
        _ => None,
    }
}

/// The envelope that the relay itself emits when a member joins or leaves.
pub open spec fn announcement(kind: Seq<char>, sender: Seq<char>) -> EnvelopeView {
    EnvelopeView { kind, sender, data: None }
}

/// An envelope with its sender replaced.
pub open spec fn stamped(e: EnvelopeView, sender: Seq<char>) -> EnvelopeView {
    EnvelopeView { kind: e.kind, sender, data: e.data }
}

impl SignalEnvelope {
    /// Builds the envelope from the members read out of a document. Both texts
    /// are required; the payload is taken as it is.
    pub fn assemble(
        kind: Option<String>,
        sender: Option<String>,
        data: Option<serde_json::Value>,
    ) -> (made: Option<SignalEnvelope>)
        ensures
            match made {
                Some(e) => kind is Some && sender is Some && e.kind@ == kind->0@ && e.sender@
                    == sender->0@ && e.data == data,
                None => kind is None || sender is None,
            },
    {
        match (kind, sender) {
            (Some(k), Some(s)) => Some(SignalEnvelope { kind: k, sender: s, data }),
            _ => None,
        }
    }

    /// Reads an envelope out of a parsed JSON document.
    pub fn from_document(doc: &serde_json::Value) -> (made: Option<SignalEnvelope>)
        ensures
            match made {
                Some(e) => document_envelope(*doc) == Some(e@),
                None => document_envelope(*doc) is None,
            },
    {
        let kind = match member(doc, "type") {
            Some(v) => string_of(&v),
            None => None,
        };
        let sender = match member(doc, "sender") {
            Some(v) => string_of(&v),
            None => None,
        };
        let data = match member(doc, "data") {
            Some(v) => if is_null(&v) {
                None
            } else {
                Some(v)
            },
            None => None,
        };
        SignalEnvelope::assemble(kind, sender, data)
    }

    /// Parses a text frame. `None` means that the frame is not JSON or does not
    /// fit the schema.
    pub fn decode(text: &str) -> (made: Option<SignalEnvelope>)
        ensures
            match made {
                Some(e) => decoded(text@) == Some(e@),
                None => decoded(text@) is None,
            },
    {
        match parse(text) {
            Some(doc) => SignalEnvelope::from_document(&doc),
            None => None,
        }
    }

    /// Writes the envelope as one line of JSON.
    pub fn encode(&self) -> (text: Option<String>)
        ensures
            match text {
                Some(s) => encoded(self@) == Some(s@),
                None => encoded(self@) is None,
            },
    {
        let kind = match quote(self.kind.as_str()) {
            Some(k) => k,
            None => { return None; },
        };
        let sender = match quote(self.sender.as_str()) {
            Some(s) => s,
            None => { return None; },
        };
        let data = match &self.data {
            Some(v) => match render(v) {
                Some(d) => d,
                None => { return None; },
            },
            None => "null".to_owned(),
        };
        let mut out = "{\"type\":".to_owned();
        out.append(kind.as_str());
        out.append(",\"sender\":");
        out.append(sender.as_str());
        out.append(",\"data\":");
        out.append(data.as_str());
        out.append("}");
        Some(out)
    }

    /// The envelope that announces a member's arrival or departure.
    pub fn announcement(kind: &str, sender: &str) -> (made: SignalEnvelope)
        ensures
            made@ == announcement(kind@, sender@),
    {
        SignalEnvelope { kind: kind.to_owned(), sender: sender.to_owned(), data: None }
    }

    /// Replaces the sender, whatever it was.
    pub fn stamped(self, sender: &str) -> (made: SignalEnvelope)
        ensures
            made@ == stamped(self@, sender@),
    {
        SignalEnvelope { kind: self.kind, sender: sender.to_owned(), data: self.data }
    }
}

} // verus!
