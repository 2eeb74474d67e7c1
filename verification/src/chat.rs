//! Chat messages as they travel between clients and the server.

use crate::entity::EntityHandle;
use vstd::prelude::*;

verus! {

/// The channel a player-originated message is addressed to.
#[derive(Clone, Copy, Debug, PartialEq, Eq, Structural)]
pub enum ChatTarget {
    All,
    AllGm,
    PrivateMessage,
    NPC,
    Notice,
    Global,
}

/// Why a message was refused.
#[derive(Clone, Copy, Debug, PartialEq, Eq, Structural)]
pub enum ChatErrorCode {
    InvalidTarget,
}

/// The verdict on one message.
#[derive(Clone, Copy, Debug, PartialEq, Eq, Structural)]
pub enum ChatMessageResult {
    Success,
    Error { code: ChatErrorCode },
}

impl ChatMessageResult {
    /// The refusal that carries `code`.
    pub fn error(code: ChatErrorCode) -> (result: ChatMessageResult)
        ensures
            result == (ChatMessageResult::Error { code }),
    {
        ChatMessageResult::Error { code }
    }
}

/// The acknowledgment a sender gets for one message. `index` repeats the
/// index of that message, so that the client can tell its sends apart.
#[derive(Clone, Copy, Debug, PartialEq, Eq, Structural)]
pub struct ChatMessageResponse {
    pub result: ChatMessageResult,
    pub target: ChatTarget,
    pub index: u8,
}

impl ChatMessageResponse {
    pub fn new(result: ChatMessageResult, target: ChatTarget, index: u8) -> (response:
        ChatMessageResponse)
        ensures
            response == (ChatMessageResponse { result, target, index }),
    {
        ChatMessageResponse { result, target, index }
    }
}

/// Who a delivered message comes from: the wire identity of the sender on
/// the public channels, the display name on the private one.
#[derive(Clone, Debug, PartialEq, Eq)]
#[allow(inconsistent_fields)]
pub enum ChatSource {
    All { sender: u32 },
    AllGm { sender: u32 },
    PrivateMessage { sender: String },
}

/// The mathematical content of a [`ChatSource`].
#[allow(inconsistent_fields)]
pub enum ChatSourceView {
    All { sender: u32 },
    AllGm { sender: u32 },
    PrivateMessage { sender: Seq<char> },
}

impl View for ChatSource {
    type V = ChatSourceView;

    open spec fn view(&self) -> ChatSourceView {
        match *self {
            ChatSource::All { sender } => ChatSourceView::All { sender },
            ChatSource::AllGm { sender } => ChatSourceView::AllGm { sender },
            ChatSource::PrivateMessage { sender } => ChatSourceView::PrivateMessage {
                sender: sender@,
            },
        }
    }
}

impl ChatSource {
    pub fn all(sender: u32) -> (source: ChatSource)
        ensures
            source@ == (ChatSourceView::All { sender }),
    {
        ChatSource::All { sender }
    }

    pub fn allgm(sender: u32) -> (source: ChatSource)
        ensures
            source@ == (ChatSourceView::AllGm { sender }),
    {
        ChatSource::AllGm { sender }
    }

    pub fn privatemessage(sender: String) -> (source: ChatSource)
        ensures
            source@ == (ChatSourceView::PrivateMessage { sender: sender@ }),
    {
        ChatSource::PrivateMessage { sender }
    }
}

/// A message as it is delivered to a recipient.
#[derive(Clone, Debug, PartialEq, Eq)]
pub struct ChatUpdate {
    pub source: ChatSource,
    pub message: String,
}

/// The mathematical content of a [`ChatUpdate`].
pub struct ChatUpdateView {
    pub source: ChatSourceView,
    pub message: Seq<char>,
}

impl View for ChatUpdate {
    type V = ChatUpdateView;

    open spec fn view(&self) -> ChatUpdateView {
        ChatUpdateView { source: self.source@, message: self.message@ }
    }
}

impl ChatUpdate {
    pub fn new(source: ChatSource, message: String) -> (update: ChatUpdate)
        ensures
            update@ == (ChatUpdateView { source: source@, message: message@ }),
    {
        ChatUpdate { source, message }
    }
}

/// A message as a client sends it.
#[derive(Clone, Debug, PartialEq, Eq)]
pub struct ChatMessage {
    pub target: ChatTarget,
    pub index: u8,
    pub recipient: Option<String>,
    pub message: String,
}

/// The mathematical content of a [`ChatMessage`].
pub struct ChatMessageView {
    pub target: ChatTarget,
    pub index: u8,
    pub recipient: Option<Seq<char>>,
    pub message: Seq<char>,
}

impl View for ChatMessage {
    type V = ChatMessageView;

    open spec fn view(&self) -> ChatMessageView {
        ChatMessageView {
            target: self.target,
            index: self.index,
            recipient: match self.recipient {
                Some(name) => Some(name@),
                None => None,
            },
            message: self.message@,
        }
    }
}

/// What the chat system sends to a session.
#[derive(Clone, Debug, PartialEq, Eq)]
pub enum ChatPacket {
    Update(ChatUpdate),
    Response(ChatMessageResponse),
}

/// The mathematical content of a [`ChatPacket`].
pub enum ChatPacketView {
    Update(ChatUpdateView),
    Response(ChatMessageResponse),
}

impl View for ChatPacket {
    type V = ChatPacketView;

    open spec fn view(&self) -> ChatPacketView {
        match *self {
            ChatPacket::Update(update) => ChatPacketView::Update(update@),
            ChatPacket::Response(response) => ChatPacketView::Response(response),
        }
    }
}

/// One packet on its way to the session of one entity.
#[derive(Clone, Debug, PartialEq, Eq)]
pub struct Delivery {
    pub to: EntityHandle,
    pub packet: ChatPacket,
}

/// The mathematical content of a [`Delivery`].
pub struct DeliveryView {
    pub to: EntityHandle,
    pub packet: ChatPacketView,
}

impl View for Delivery {
    type V = DeliveryView;

    open spec fn view(&self) -> DeliveryView {
        DeliveryView { to: self.to, packet: self.packet@ }
    }
}

} // verus!
