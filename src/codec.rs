//! The message envelope: requests, notifications and responses, told apart by
//! which of the `id` and `method` members the JSON object carries.
//!
//! An `Envelope` is the set of top-level members of one wire object, with each
//! payload member kept as its JSON text. Turning bytes into an `Envelope` is
//! JSON parsing; the rules that make a `Message` of it are here.

use vstd::prelude::*;

verus! {

/// The outcome a server reports in a response: exactly one of a result or an
/// error object, each kept as JSON text.
#[derive(Debug, Clone)]
pub enum Reply {
    Result(String),
    Error(String),
}

/// One protocol message.
#[derive(Debug, Clone)]
pub enum Message {
    Request { id: u64, method: String, params: String },
    Notification { method: String, params: String },
    Response { id: u64, reply: Reply },
}

/// The top-level members of a wire object; `None` where a member is absent.
#[derive(Debug, Clone)]
pub struct Envelope {
    pub id: Option<u64>,
    pub method: Option<String>,
    pub params: Option<String>,
    pub result: Option<String>,
    pub error: Option<String>,
}

/// Why an envelope is not a message.
#[derive(Debug, Clone, Copy, PartialEq, Eq, Structural)]
pub enum DecodeError {
    /// Neither `id` nor `method` is present.
    MissingDiscriminant,
    /// A request or notification carries `result` or `error`.
    ReplyOnCall,
    /// A response carries both `result` and `error`.
    BothResultAndError,
    /// A response carries neither `result` nor `error`.
    NoResultOrError,
}

/// A reply with its texts as character sequences.
pub enum ReplyView {
    Result(Seq<char>),
    Error(Seq<char>),
}

/// A message with its texts as character sequences.
pub enum MessageView {
    Request { id: u64, method: Seq<char>, params: Seq<char> },
    Notification { method: Seq<char>, params: Seq<char> },
    Response { id: u64, reply: ReplyView },
}

/// An envelope with its texts as character sequences.
pub struct EnvelopeView {
    pub id: Option<u64>,
    pub method: Option<Seq<char>>,
    pub params: Option<Seq<char>>,
    pub result: Option<Seq<char>>,
    pub error: Option<Seq<char>>,
}

pub open spec fn opt_view(o: Option<String>) -> Option<Seq<char>> {
    match o {
        Some(s) => Some(s@),
        None => None,
    }
}

impl View for Reply {
    type V = ReplyView;

    open spec fn view(&self) -> ReplyView {
        match self {
            Reply::Result(r) => ReplyView::Result(r@),
            Reply::Error(e) => ReplyView::Error(e@),
        }
    }
}

impl View for Message {
    type V = MessageView;

    open spec fn view(&self) -> MessageView {
        match self {
            Message::Request { id, method, params } => MessageView::Request {
                id: *id,
                method: method@,
                params: params@,
            },
            Message::Notification { method, params } => MessageView::Notification {
                method: method@,
                params: params@,
            },
            Message::Response { id, reply } => MessageView::Response { id: *id, reply: reply@ },
        }
    }
}

impl View for Envelope {
    type V = EnvelopeView;

    open spec fn view(&self) -> EnvelopeView {
        EnvelopeView {
            id: self.id,
            method: opt_view(self.method),
            params: opt_view(self.params),
            result: opt_view(self.result),
            error: opt_view(self.error),
        }
    }
}

/// The JSON text standing for an absent `params` member.
pub open spec fn null_text() -> Seq<char> {
    "null"@
}

/// The envelope that encodes `m`.
pub open spec fn encode_spec(m: MessageView) -> EnvelopeView {
    match m {
        MessageView::Request { id, method, params } => EnvelopeView {
            id: Some(id),
            method: Some(method),
            params: Some(params),
            result: None,
            error: None,
        },
        MessageView::Notification { method, params } => EnvelopeView {
            id: None,
            method: Some(method),
            params: Some(params),
            result: None,
            error: None,
        },
        MessageView::Response { id, reply } => match reply {
            ReplyView::Result(r) => EnvelopeView {
                id: Some(id),
                method: None,
                params: None,
                result: Some(r),
                error: None,
            },
            ReplyView::Error(e) => EnvelopeView {
                id: Some(id),
                method: None,
                params: None,
                result: None,
                error: Some(e),
            },
        },
    }
}

/// The message an envelope stands for: `id` and `method` make a request,
/// `method` alone a notification, `id` alone a response, which must carry
/// exactly one of `result` and `error`.
pub open spec fn decode_spec(e: EnvelopeView) -> Result<MessageView, DecodeError> {
    let params = match e.params {
        Some(p) => p,
        None => null_text(),
    };
    match (e.id, e.method) {
        (None, None) => Err(DecodeError::MissingDiscriminant),
        (Some(id), Some(method)) => if e.result.is_some() || e.error.is_some() {
            Err(DecodeError::ReplyOnCall)
        } else {
            Ok(MessageView::Request { id, method, params })
        },
        (None, Some(method)) => if e.result.is_some() || e.error.is_some() {
            Err(DecodeError::ReplyOnCall)
        } else {
            Ok(MessageView::Notification { method, params })
        },
        (Some(id), None) => match (e.result, e.error) {
            (Some(r), None) => Ok(MessageView::Response { id, reply: ReplyView::Result(r) }),
            (None, Some(x)) => Ok(MessageView::Response { id, reply: ReplyView::Error(x) }),
            (Some(_), Some(_)) => Err(DecodeError::BothResultAndError),
            (None, None) => Err(DecodeError::NoResultOrError),
        },
    }
}

pub open spec fn decoded_view(r: Result<Message, DecodeError>) -> Result<MessageView, DecodeError> {
    match r {
        Ok(m) => Ok(m@),
        Err(e) => Err(e),
    }
}

/// Encodes a message as the members of its wire object.
pub fn encode(m: Message) -> (e: Envelope)
    ensures
        e@ == encode_spec(m@),
{
    match m {
        Message::Request { id, method, params } => Envelope {
            id: Some(id),
            method: Some(method),
            params: Some(params),
            result: None,
            error: None,
        },
        Message::Notification { method, params } => Envelope {
            id: None,
            method: Some(method),
            params: Some(params),
            result: None,
            error: None,
        },
        Message::Response { id, reply } => match reply {
            Reply::Result(r) => Envelope {
                id: Some(id),
                method: None,
                params: None,
                result: Some(r),
                error: None,
            },
            Reply::Error(x) => Envelope {
                id: Some(id),
                method: None,
                params: None,
                result: None,
                error: Some(x),
            },
        },
    }
}

/// Decodes the members of a wire object into a message.
pub fn decode(e: Envelope) -> (r: Result<Message, DecodeError>)
    ensures
        decoded_view(r) == decode_spec(e@),
{
    let has_reply = e.result.is_some() || e.error.is_some();
    let params = match e.params {
        Some(p) => p,
        None => String::from_str("null"),
    };
    match (e.id, e.method) {
        (None, None) => Err(DecodeError::MissingDiscriminant),
        (Some(id), Some(method)) => if has_reply {
            Err(DecodeError::ReplyOnCall)
        } else {
            Ok(Message::Request { id, method, params })
        },
        (None, Some(method)) => if has_reply {
            Err(DecodeError::ReplyOnCall)
        } else {
            Ok(Message::Notification { method, params })
        },
        (Some(id), None) => match (e.result, e.error) {
            (Some(r), None) => Ok(Message::Response { id, reply: Reply::Result(r) }),
            (None, Some(x)) => Ok(Message::Response { id, reply: Reply::Error(x) }),
            (Some(_), Some(_)) => Err(DecodeError::BothResultAndError),
            (None, None) => Err(DecodeError::NoResultOrError),
        },
    }
}

/// Decoding what the codec encoded gives back the same message, for every
/// request, notification and response.
pub proof fn lemma_round_trip(m: MessageView)
    ensures
        decode_spec(encode_spec(m)) == Ok::<MessageView, DecodeError>(m),
{
}

} // verus!
