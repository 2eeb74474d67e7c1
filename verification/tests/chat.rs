use silkroad_core::chat::{
    ChatErrorCode, ChatMessage, ChatMessageResponse, ChatMessageResult, ChatPacket, ChatSource,
    ChatTarget, ChatUpdate, Delivery,
};
use silkroad_core::chat_system::{deliver_message, handle_chat, ChatPeer, ChatSender};
use silkroad_core::entity::EntityHandle;
use silkroad_core::lookup::EntityLookup;

const S: EntityHandle = EntityHandle(1);
const B: EntityHandle = EntityHandle(2);
const C: EntityHandle = EntityHandle(3);
const D: EntityHandle = EntityHandle(4);

fn peers() -> Vec<ChatPeer> {
    vec![
        ChatPeer { entity: S, user_id: 10, gm: false },
        ChatPeer { entity: B, user_id: 20, gm: true },
        ChatPeer { entity: C, user_id: 30, gm: false },
        ChatPeer { entity: D, user_id: 40, gm: true },
    ]
}

fn sender(gm: bool, chat: Vec<ChatMessage>) -> ChatSender {
    ChatSender {
        entity: S,
        unique_id: 77,
        user_id: 10,
        gm,
        name: "Sender".to_string(),
        visible: vec![B, EntityHandle(99), C],
        chat,
    }
}

fn message(target: ChatTarget, index: u8, recipient: Option<&str>, text: &str) -> ChatMessage {
    ChatMessage {
        target,
        index,
        recipient: recipient.map(|name| name.to_string()),
        message: text.to_string(),
    }
}

fn update(to: EntityHandle, source: ChatSource, text: &str) -> Delivery {
    Delivery { to, packet: ChatPacket::Update(ChatUpdate { source, message: text.to_string() }) }
}

fn response(result: ChatMessageResult, target: ChatTarget, index: u8) -> Delivery {
    Delivery { to: S, packet: ChatPacket::Response(ChatMessageResponse { result, target, index }) }
}

fn invalid() -> ChatMessageResult {
    ChatMessageResult::Error { code: ChatErrorCode::InvalidTarget }
}

fn names() -> EntityLookup {
    let mut lookup = EntityLookup::new();
    lookup.insert("Bee".to_string(), B);
    lookup.insert("Ghost".to_string(), EntityHandle(500));
    lookup
}

#[test]
fn chat_all_reaches_visible_sessions_only() {
    let senders = vec![sender(false, vec![message(ChatTarget::All, 3, None, "hi")])];
    let out = handle_chat(&senders, &names(), &peers());
    assert_eq!(
        out,
        vec![
            update(B, ChatSource::All { sender: 77 }, "hi"),
            update(C, ChatSource::All { sender: 77 }, "hi"),
            response(ChatMessageResult::Success, ChatTarget::All, 3),
        ]
    );
    assert!(out.iter().all(|delivery| delivery.to != D));
}

#[test]
fn chat_all_with_nobody_in_sight_is_still_acknowledged() {
    let mut lonely = sender(false, vec![message(ChatTarget::All, 9, None, "anyone?")]);
    lonely.visible = vec![];
    let out = handle_chat(&vec![lonely], &names(), &peers());
    assert_eq!(out, vec![response(ChatMessageResult::Success, ChatTarget::All, 9)]);
}

#[test]
fn chat_allgm_from_non_administrator_is_refused() {
    let senders = vec![sender(false, vec![message(ChatTarget::AllGm, 5, None, "psst")])];
    let out = handle_chat(&senders, &names(), &peers());
    assert_eq!(out, vec![response(invalid(), ChatTarget::AllGm, 5)]);
}

#[test]
fn chat_allgm_reaches_other_administrators() {
    let mut others = peers();
    others[0].gm = true;
    let senders = vec![sender(true, vec![message(ChatTarget::AllGm, 6, None, "meeting")])];
    let out = handle_chat(&senders, &names(), &others);
    assert_eq!(
        out,
        vec![
            update(B, ChatSource::AllGm { sender: 77 }, "meeting"),
            update(D, ChatSource::AllGm { sender: 77 }, "meeting"),
            response(ChatMessageResult::Success, ChatTarget::AllGm, 6),
        ]
    );
}

#[test]
fn chat_private_message_to_unknown_name_is_refused() {
    let senders =
        vec![sender(false, vec![message(ChatTarget::PrivateMessage, 1, Some("Nobody"), "hello")])];
    let out = handle_chat(&senders, &names(), &peers());
    assert_eq!(out, vec![response(invalid(), ChatTarget::PrivateMessage, 1)]);
}

#[test]
fn chat_private_message_without_session_or_recipient_is_refused() {
    let senders = vec![sender(
        false,
        vec![
            message(ChatTarget::PrivateMessage, 1, Some("Ghost"), "boo"),
            message(ChatTarget::PrivateMessage, 2, None, "boo"),
        ],
    )];
    let out = handle_chat(&senders, &names(), &peers());
    assert_eq!(
        out,
        vec![
            response(invalid(), ChatTarget::PrivateMessage, 1),
            response(invalid(), ChatTarget::PrivateMessage, 2),
        ]
    );
}

#[test]
fn chat_private_message_is_tagged_with_the_senders_name() {
    let senders =
        vec![sender(false, vec![message(ChatTarget::PrivateMessage, 4, Some("Bee"), "hello")])];
    let out = handle_chat(&senders, &names(), &peers());
    assert_eq!(
        out,
        vec![
            update(B, ChatSource::PrivateMessage { sender: "Sender".to_string() }, "hello"),
            response(ChatMessageResult::Success, ChatTarget::PrivateMessage, 4),
        ]
    );
}

#[test]
fn chat_npc_notice_and_global_are_refused() {
    let senders = vec![sender(
        true,
        vec![
            message(ChatTarget::NPC, 1, None, "a"),
            message(ChatTarget::Notice, 2, None, "b"),
            message(ChatTarget::Global, 3, None, "c"),
        ],
    )];
    let out = handle_chat(&senders, &names(), &peers());
    assert_eq!(
        out,
        vec![
            response(invalid(), ChatTarget::NPC, 1),
            response(invalid(), ChatTarget::Notice, 2),
            response(invalid(), ChatTarget::Global, 3),
        ]
    );
}

#[test]
fn chat_every_message_gets_exactly_one_acknowledgment() {
    let chat = vec![
        message(ChatTarget::All, 1, None, "one"),
        message(ChatTarget::AllGm, 2, None, "two"),
        message(ChatTarget::PrivateMessage, 3, Some("Bee"), "three"),
        message(ChatTarget::Global, 4, None, "four"),
    ];
    let out = handle_chat(&vec![sender(false, chat)], &names(), &peers());
    let indexes: Vec<u8> = out
        .iter()
        .filter_map(|delivery| match &delivery.packet {
            ChatPacket::Response(response) => Some(response.index),
            ChatPacket::Update(_) => None,
        })
        .collect();
    assert_eq!(indexes, vec![1, 2, 3, 4]);
}

#[test]
fn chat_deliver_message_appends_to_what_is_there() {
    let mut out = vec![response(ChatMessageResult::Success, ChatTarget::All, 0)];
    let from = sender(false, vec![]);
    deliver_message(&mut out, &from, &message(ChatTarget::Notice, 8, None, "x"), &names(), &peers());
    assert_eq!(
        out,
        vec![
            response(ChatMessageResult::Success, ChatTarget::All, 0),
            response(invalid(), ChatTarget::Notice, 8),
        ]
    );
}

#[test]
fn lookup_insert_replaces_and_keeps_other_names() {
    let mut lookup = names();
    assert_eq!(lookup.get_entity_for_name(&"Bee".to_string()), Some(B));
    lookup.insert("Bee".to_string(), C);
    assert_eq!(lookup.get_entity_for_name(&"Bee".to_string()), Some(C));
    assert_eq!(lookup.get_entity_for_name(&"Ghost".to_string()), Some(EntityHandle(500)));
    assert_eq!(lookup.get_entity_for_name(&"bee".to_string()), None);
}
