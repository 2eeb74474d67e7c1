//! The chat system: who gets what for each message a session sent this
//! tick.

use crate::chat::{
    ChatErrorCode, ChatMessage, ChatMessageResponse, ChatMessageResult, ChatMessageView,
    ChatPacket, ChatPacketView, ChatSource, ChatSourceView, ChatTarget, ChatUpdate,
    ChatUpdateView, Delivery, DeliveryView,
};
use crate::entity::EntityHandle;
use crate::lookup::{resolve, EntityLookup};
use crate::seqs::{lemma_views_push, views};
use vstd::prelude::*;

verus! {

/// A connected player, as far as chat needs to know it.
#[derive(Clone, Copy, Debug, PartialEq, Eq, Structural)]
pub struct ChatPeer {
    pub entity: EntityHandle,
    pub user_id: i32,
    pub gm: bool,
}

/// A session with chat input pending, and what the system reads of its
/// entity: identity, rights, display name and the entities it can see.
#[derive(Clone, Debug, PartialEq, Eq)]
pub struct ChatSender {
    pub entity: EntityHandle,
    pub unique_id: u32,
    pub user_id: i32,
    pub gm: bool,
    pub name: String,
    pub visible: Vec<EntityHandle>,
    pub chat: Vec<ChatMessage>,
}

/// The mathematical content of a [`ChatSender`].
pub struct ChatSenderView {
    pub entity: EntityHandle,
    pub unique_id: u32,
    pub user_id: i32,
    pub gm: bool,
    pub name: Seq<char>,
    pub visible: Seq<EntityHandle>,
    pub chat: Seq<ChatMessageView>,
}

impl View for ChatSender {
    type V = ChatSenderView;

    open spec fn view(&self) -> ChatSenderView {
        ChatSenderView {
            entity: self.entity,
            unique_id: self.unique_id,
            user_id: self.user_id,
            gm: self.gm,
            name: self.name@,
            visible: self.visible@,
            chat: views(self.chat@),
        }
    }
}

/// `entity` has a session among `others`.
pub open spec fn is_peer(others: Seq<ChatPeer>, entity: EntityHandle) -> bool {
    exists|i: int| 0 <= i < others.len() && (#[trigger] others[i]).entity == entity
}

/// Who hears a message on the public channel: the entities the sender
/// sees that have a session, in the order of the visibility set.
pub open spec fn all_recipients(visible: Seq<EntityHandle>, others: Seq<ChatPeer>) -> Seq<
    EntityHandle,
> {
    visible.filter(has_session_among(others))
}

/// The test that [`all_recipients`] filters by.
pub open spec fn has_session_among(others: Seq<ChatPeer>) -> spec_fn(EntityHandle) -> bool {
    |entity: EntityHandle| is_peer(others, entity)
}

/// The test that [`gm_recipients`] filters by.
pub open spec fn other_administrator(sender_user: i32) -> spec_fn(ChatPeer) -> bool {
    |peer: ChatPeer| peer.gm && peer.user_id != sender_user
}

/// The entity of a peer.
pub open spec fn peer_entity() -> spec_fn(ChatPeer) -> EntityHandle {
    |peer: ChatPeer| peer.entity
}

/// The delivery of `update` to one entity.
pub open spec fn update_for(update: ChatUpdateView) -> spec_fn(EntityHandle) -> DeliveryView {
    |entity: EntityHandle| DeliveryView { to: entity, packet: ChatPacketView::Update(update) }
}

/// Who hears a message on the administrators' channel: every
/// administrator but the sender's own account, in session order.
pub open spec fn gm_recipients(others: Seq<ChatPeer>, sender_user: i32) -> Seq<EntityHandle> {
    others.filter(other_administrator(sender_user)).map_values(peer_entity())
}

/// Who a private message reaches: the entity that bears the stated name,
/// provided it has a session.
pub open spec fn private_recipient(
    recipient: Option<Seq<char>>,
    table: Seq<(Seq<char>, EntityHandle)>,
    others: Seq<ChatPeer>,
) -> Option<EntityHandle> {
    match recipient {
        Some(name) => match resolve(table, name) {
            Some(entity) => if is_peer(others, entity) {
                Some(entity)
            } else {
                None
            },
            None => None,
        },
        None => None,
    }
}

/// The same update, once for each recipient.
pub open spec fn fan_out(recipients: Seq<EntityHandle>, update: ChatUpdateView) -> Seq<
    DeliveryView,
> {
    recipients.map_values(update_for(update))
}

/// The acknowledgment of `message`, addressed to its sender.
pub open spec fn acknowledgment(
    sender: ChatSenderView,
    message: ChatMessageView,
    result: ChatMessageResult,
) -> DeliveryView {
    DeliveryView {
        to: sender.entity,
        packet: ChatPacketView::Response(
            ChatMessageResponse { result, target: message.target, index: message.index },
        ),
    }
}

/// The refusal of `message`: nobody hears it, the sender is told why.
pub open spec fn refusal(sender: ChatSenderView, message: ChatMessageView) -> Seq<DeliveryView> {
    seq![
        acknowledgment(
            sender,
            message,
            ChatMessageResult::Error { code: ChatErrorCode::InvalidTarget },
        ),
    ]
}

/// What others hear of `message`, without the acknowledgment.
pub open spec fn message_updates(
    sender: ChatSenderView,
    message: ChatMessageView,
    table: Seq<(Seq<char>, EntityHandle)>,
    others: Seq<ChatPeer>,
) -> Seq<DeliveryView> {
    match message.target {
        ChatTarget::All => fan_out(
            all_recipients(sender.visible, others),
            ChatUpdateView {
                source: ChatSourceView::All { sender: sender.unique_id },
                message: message.message,
            },
        ),
        ChatTarget::AllGm => if sender.gm {
            fan_out(
                gm_recipients(others, sender.user_id),
                ChatUpdateView {
                    source: ChatSourceView::AllGm { sender: sender.unique_id },
                    message: message.message,
                },
            )
        } else {
            Seq::empty()
        },
        ChatTarget::PrivateMessage => match private_recipient(message.recipient, table, others) {
            Some(entity) => fan_out(
                seq![entity],
                ChatUpdateView {
                    source: ChatSourceView::PrivateMessage { sender: sender.name },
                    message: message.message,
                },
            ),
            None => Seq::empty(),
        },
        ChatTarget::NPC | ChatTarget::Notice | ChatTarget::Global => Seq::empty(),
    }
}

/// Whether `message` is accepted: the public channel always, the
/// administrators' channel from an administrator, the private channel
/// when the recipient is online, the other channels never.
pub open spec fn message_accepted(
    sender: ChatSenderView,
    message: ChatMessageView,
    table: Seq<(Seq<char>, EntityHandle)>,
    others: Seq<ChatPeer>,
) -> bool {
    match message.target {
        ChatTarget::All => true,
        ChatTarget::AllGm => sender.gm,
        ChatTarget::PrivateMessage => private_recipient(message.recipient, table, others) is Some,
        ChatTarget::NPC | ChatTarget::Notice | ChatTarget::Global => false,
    }
}

/// Everything one message causes to be sent: the updates to those who
/// hear it, then one acknowledgment to the sender.
pub open spec fn message_deliveries(
    sender: ChatSenderView,
    message: ChatMessageView,
    table: Seq<(Seq<char>, EntityHandle)>,
    others: Seq<ChatPeer>,
) -> Seq<DeliveryView> {
    message_updates(sender, message, table, others).push(
        acknowledgment(
            sender,
            message,
            if message_accepted(sender, message, table, others) {
                ChatMessageResult::Success
            } else {
                ChatMessageResult::Error { code: ChatErrorCode::InvalidTarget }
            },
        ),
    )
}

/// Everything the pending messages of one sender cause to be sent, message
/// by message.
pub open spec fn sender_deliveries(
    sender: ChatSenderView,
    table: Seq<(Seq<char>, EntityHandle)>,
    others: Seq<ChatPeer>,
) -> Seq<DeliveryView> {
    sender.chat.flat_map(per_message(sender, table, others))
}

/// [`message_deliveries`] as a function of the message alone.
pub open spec fn per_message(
    sender: ChatSenderView,
    table: Seq<(Seq<char>, EntityHandle)>,
    others: Seq<ChatPeer>,
) -> spec_fn(ChatMessageView) -> Seq<DeliveryView> {
    |message: ChatMessageView| message_deliveries(sender, message, table, others)
}

/// [`sender_deliveries`] as a function of the sender alone.
pub open spec fn per_sender(table: Seq<(Seq<char>, EntityHandle)>, others: Seq<ChatPeer>) -> spec_fn(
    ChatSenderView,
) -> Seq<DeliveryView> {
    |sender: ChatSenderView| sender_deliveries(sender, table, others)
}

/// Everything chat sends in one tick, sender by sender.
pub open spec fn tick_deliveries(
    senders: Seq<ChatSenderView>,
    table: Seq<(Seq<char>, EntityHandle)>,
    others: Seq<ChatPeer>,
) -> Seq<DeliveryView> {
    senders.flat_map(per_sender(table, others))
}

/// Whether `entity` has a session among `others`.
fn has_session(others: &Vec<ChatPeer>, entity: EntityHandle) -> (found: bool)
    ensures
        found == is_peer(others@, entity),
{
    let mut i: usize = 0;
    while i < others.len()
        invariant
            i <= others.len(),
            forall|k: int| 0 <= k < i ==> (#[trigger] others@[k]).entity != entity,
        decreases others.len() - i,
    {
        if others[i].entity == entity {
            return true;
        }
        i += 1;
    }
    false
}

/// Sends one update.
fn push_update(out: &mut Vec<Delivery>, to: EntityHandle, source: ChatSource, text: &String)
    ensures
        views(final(out)@) == views(old(out)@).push(
            update_for(ChatUpdateView { source: source@, message: text@ })(to),
        ),
{
    proof {
        lemma_views_push(
            out@,
            Delivery { to, packet: ChatPacket::Update(ChatUpdate { source, message: *text }) },
        );
    }
    let update = ChatUpdate::new(source, text.clone());
    out.push(Delivery { to, packet: ChatPacket::Update(update) });
}

/// Sends the acknowledgment of `message` to its sender.
fn push_acknowledgment(
    out: &mut Vec<Delivery>,
    sender: &ChatSender,
    message: &ChatMessage,
    result: ChatMessageResult,
)
    ensures
        views(final(out)@) == views(old(out)@).push(acknowledgment(sender@, message@, result)),
{
    let response = ChatMessageResponse::new(result, message.target, message.index);
    proof {
        lemma_views_push(out@, Delivery { to: sender.entity, packet: ChatPacket::Response(response) });
    }
    out.push(Delivery { to: sender.entity, packet: ChatPacket::Response(response) });
}

/// Sends a public message to everyone in sight who has a session.
fn deliver_all(
    out: &mut Vec<Delivery>,
    sender: &ChatSender,
    message: &ChatMessage,
    others: &Vec<ChatPeer>,
)
    ensures
        views(final(out)@) == views(old(out)@) + fan_out(
            all_recipients(sender@.visible, others@),
            ChatUpdateView {
                source: ChatSourceView::All { sender: sender.unique_id },
                message: message@.message,
            },
        ),
{
    let ghost before = views(out@);
    let ghost update = ChatUpdateView {
        source: ChatSourceView::All { sender: sender.unique_id },
        message: message@.message,
    };
    let ghost seen = sender.visible@;
    let mut i: usize = 0;
    assert(seen.take(0) =~= Seq::empty());
    assert(before + fan_out(all_recipients(seen.take(0), others@), update) =~= before);
    while i < sender.visible.len()
        invariant
            i <= sender.visible.len(),
            seen == sender.visible@,
            update == (ChatUpdateView {
                source: ChatSourceView::All { sender: sender.unique_id },
                message: message@.message,
            }),
            views(out@) == before + fan_out(all_recipients(seen.take(i as int), others@), update),
        decreases sender.visible.len() - i,
    {
        let entity = sender.visible[i];
        proof {
            let sofar = seen.take(i as int);
            seen.lemma_take_succ_push(i as int);
            sofar.lemma_filter_push(entity, has_session_among(others@));
            sofar.filter(has_session_among(others@)).lemma_push_map_commute(
                update_for(update),
                entity,
            );
        }
        if has_session(others, entity) {
            push_update(out, entity, ChatSource::all(sender.unique_id), &message.message);
            assert(views(out@) =~= before + fan_out(
                all_recipients(seen.take(i + 1), others@),
                update,
            ));
        }
        i += 1;
    }
    assert(seen.take(i as int) =~= seen);
}

/// Sends an administrators' message to every administrator but the
/// sender's own account.
fn deliver_gm(
    out: &mut Vec<Delivery>,
    sender: &ChatSender,
    message: &ChatMessage,
    others: &Vec<ChatPeer>,
)
    ensures
        views(final(out)@) == views(old(out)@) + fan_out(
            gm_recipients(others@, sender.user_id),
            ChatUpdateView {
                source: ChatSourceView::AllGm { sender: sender.unique_id },
                message: message@.message,
            },
        ),
{
    let ghost before = views(out@);
    let ghost update = ChatUpdateView {
        source: ChatSourceView::AllGm { sender: sender.unique_id },
        message: message@.message,
    };
    let mut i: usize = 0;
    assert(others@.take(0) =~= Seq::empty());
    assert(before + fan_out(gm_recipients(others@.take(0), sender.user_id), update) =~= before);
    while i < others.len()
        invariant
            i <= others.len(),
            update == (ChatUpdateView {
                source: ChatSourceView::AllGm { sender: sender.unique_id },
                message: message@.message,
            }),
            views(out@) == before + fan_out(
                gm_recipients(others@.take(i as int), sender.user_id),
                update,
            ),
        decreases others.len() - i,
    {
        let peer = others[i];
        proof {
            let sofar = others@.take(i as int);
            others@.lemma_take_succ_push(i as int);
            sofar.lemma_filter_push(peer, other_administrator(sender.user_id));
            let kept = sofar.filter(other_administrator(sender.user_id));
            kept.lemma_push_map_commute(peer_entity(), peer);
            kept.map_values(peer_entity()).lemma_push_map_commute(update_for(update), peer.entity);
        }
        if peer.gm && peer.user_id != sender.user_id {
            push_update(out, peer.entity, ChatSource::allgm(sender.unique_id), &message.message);
            assert(views(out@) =~= before + fan_out(
                gm_recipients(others@.take(i + 1), sender.user_id),
                update,
            ));
        }
        i += 1;
    }
    assert(others@.take(i as int) =~= others@);
}

/// The entity a private message goes to, if its recipient is online.
fn find_private_recipient(
    message: &ChatMessage,
    lookup: &EntityLookup,
    others: &Vec<ChatPeer>,
) -> (found: Option<EntityHandle>)
    ensures
        found == private_recipient(message@.recipient, lookup@, others@),
{
    match &message.recipient {
        Some(name) => match lookup.get_entity_for_name(name) {
            Some(entity) => if has_session(others, entity) {
                Some(entity)
            } else {
                None
            },
            None => None,
        },
        None => None,
    }
}

/// Dispatches one message by its target: sends it to those who hear it,
/// then acknowledges it to the sender.
pub fn deliver_message(
    out: &mut Vec<Delivery>,
    sender: &ChatSender,
    message: &ChatMessage,
    lookup: &EntityLookup,
    others: &Vec<ChatPeer>,
)
    ensures
        views(final(out)@) == views(old(out)@) + message_deliveries(
            sender@,
            message@,
            lookup@,
            others@,
        ),
{
    let ghost before = views(out@);
    let ghost expected = message_deliveries(sender@, message@, lookup@, others@);
    let invalid = ChatMessageResult::error(ChatErrorCode::InvalidTarget);
    match message.target {
        ChatTarget::All => {
            deliver_all(out, sender, message, others);
            push_acknowledgment(out, sender, message, ChatMessageResult::Success);
        },
        ChatTarget::AllGm => {
            if sender.gm {
                deliver_gm(out, sender, message, others);
                push_acknowledgment(out, sender, message, ChatMessageResult::Success);
            } else {
                push_acknowledgment(out, sender, message, invalid);
            }
        },
        ChatTarget::PrivateMessage => {
            match find_private_recipient(message, lookup, others) {
                Some(entity) => {
                    push_update(
                        out,
                        entity,
                        ChatSource::privatemessage(sender.name.clone()),
                        &message.message,
                    );
                    push_acknowledgment(out, sender, message, ChatMessageResult::Success);
                },
                None => {
                    push_acknowledgment(out, sender, message, invalid);
                },
            }
        },
        ChatTarget::NPC | ChatTarget::Notice | ChatTarget::Global => {
            push_acknowledgment(out, sender, message, invalid);
        },
    }
    assert(views(out@) =~= before + expected);
}

/// Runs chat for one tick: for every sender, in order, every pending
/// message, in order, is dispatched and acknowledged.
pub fn handle_chat(senders: &Vec<ChatSender>, lookup: &EntityLookup, others: &Vec<ChatPeer>) -> (out:
    Vec<Delivery>)
    ensures
        views(out@) == tick_deliveries(views(senders@), lookup@, others@),
{
    let mut out: Vec<Delivery> = Vec::new();
    let ghost all = views(senders@);
    let mut i: usize = 0;
    assert(all.take(0) =~= Seq::empty());
    assert(views(out@) =~= all.take(0).flat_map(per_sender(lookup@, others@)));
    while i < senders.len()
        invariant
            i <= senders.len(),
            all == views(senders@),
            views(out@) == all.take(i as int).flat_map(per_sender(lookup@, others@)),
        decreases senders.len() - i,
    {
        let sender = &senders[i];
        let ghost before = views(out@);
        let ghost pending = sender@.chat;
        let mut j: usize = 0;
        assert(pending.take(0) =~= Seq::empty());
        assert(before + pending.take(0).flat_map(per_message(sender@, lookup@, others@))
            =~= before);
        while j < sender.chat.len()
            invariant
                j <= sender.chat.len(),
                pending == sender@.chat,
                views(out@) == before + pending.take(j as int).flat_map(
                    per_message(sender@, lookup@, others@),
                ),
            decreases sender.chat.len() - j,
        {
            proof {
                pending.lemma_flat_map_take_append(
                    per_message(sender@, lookup@, others@),
                    j as int,
                );
            }
            deliver_message(&mut out, sender, &sender.chat[j], lookup, others);
            assert(views(out@) =~= before + pending.take(j + 1).flat_map(
                per_message(sender@, lookup@, others@),
            ));
            j += 1;
        }
        proof {
            assert(pending.take(j as int) =~= pending);
            all.lemma_flat_map_take_append(per_sender(lookup@, others@), i as int);
            assert(all[i as int] == sender@);
        }
        i += 1;
    }
    assert(all.take(i as int) =~= all);
    out
}


/// Every message is acknowledged exactly once: the last thing it causes
/// to be sent is a response to its sender that repeats the message's
/// target and index, and everything before that is an update.
pub proof fn lemma_one_acknowledgment(
    sender: ChatSenderView,
    message: ChatMessageView,
    table: Seq<(Seq<char>, EntityHandle)>,
    others: Seq<ChatPeer>,
)
    ensures
        ({
            let sent = message_deliveries(sender, message, table, others);
            &&& sent.len() >= 1
            &&& sent.last().to == sender.entity
            &&& sent.last().packet matches ChatPacketView::Response(response)
            &&& response.target == message.target
            &&& response.index == message.index
            &&& (response.result is Success) == message_accepted(sender, message, table, others)
            &&& forall|k: int| 0 <= k < sent.len() - 1 ==> (#[trigger] sent[k]).packet is Update
        }),
{
}

/// A message that is not accepted reaches nobody: all that is sent is the
/// refusal to its sender.
pub proof fn lemma_refused_reaches_nobody(
    sender: ChatSenderView,
    message: ChatMessageView,
    table: Seq<(Seq<char>, EntityHandle)>,
    others: Seq<ChatPeer>,
)
    requires
        !message_accepted(sender, message, table, others),
    ensures
        message_deliveries(sender, message, table, others) == refusal(sender, message),
{
    assert(message_deliveries(sender, message, table, others) =~= refusal(sender, message));
}

/// On the public channel an entity hears the message if and only if the
/// sender sees it and it has a session; the sender is told of success
/// whoever hears.
pub proof fn lemma_public_reach(
    sender: ChatSenderView,
    message: ChatMessageView,
    table: Seq<(Seq<char>, EntityHandle)>,
    others: Seq<ChatPeer>,
    entity: EntityHandle,
)
    requires
        message.target == ChatTarget::All,
    ensures
        message_accepted(sender, message, table, others),
        all_recipients(sender.visible, others).contains(entity) <==> sender.visible.contains(entity)
            && is_peer(others, entity),
{
    let kept = all_recipients(sender.visible, others);
    let test = has_session_among(others);
    if kept.contains(entity) {
        let k = choose|k: int| 0 <= k < kept.len() && kept[k] == entity;
        sender.visible.lemma_filter_pred(test, k);
        sender.visible.lemma_filter_contains_rev(test, entity);
    }
    if sender.visible.contains(entity) && is_peer(others, entity) {
        let k = choose|k: int| 0 <= k < sender.visible.len() && sender.visible[k] == entity;
        sender.visible.lemma_filter_contains(test, k);
    }
}

} // verus!
