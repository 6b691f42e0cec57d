use betsphere::error::{ApplicationError, DomainError};
use betsphere::model::{
    ChatChannel, ChatMessage, MarketId, MessageId, ReactionTally, Role, Timestamp, User, UserId,
};
use betsphere::use_cases::chat::{
    assemble_page, page_authors, page_refusal_error, page_start, page_step, post_refusal_error,
    post_start, post_step, posted_view, quote_authors, quoted_ids, window_anchor, CursorSide,
    HistoryWindow, PageAction, PageCursor, PageEvent, PageRefusal, PageStage, PostAction,
    PostEvent, PostRefusal, PostStage,
};

fn ts() -> Timestamp {
    Timestamp { secs: 1_700_000_000, nanos: 0 }
}

fn user(id: u128, name: &str) -> User {
    User {
        id: UserId(id),
        username: name.to_string(),
        email: format!("{name}@example.com"),
        role: Role::User,
        balance: 0,
        avatar_url: None,
    }
}

fn message(id: u128, author: u128, reply_to: Option<u128>) -> ChatMessage {
    ChatMessage {
        id: MessageId(id),
        author_id: UserId(author),
        channel: ChatChannel::Global,
        body: format!("message {id}"),
        reply_to: reply_to.map(MessageId),
        created_at: ts(),
    }
}

fn tally(emoji: &str, count: i64) -> ReactionTally {
    ReactionTally { emoji: emoji.to_string(), count, reacted: false }
}

#[test]
fn a_window_names_at_most_one_anchor() {
    assert!(matches!(window_anchor(HistoryWindow::default()), Ok(None)));
    let before = HistoryWindow { before: Some(MessageId(5)), after: None };
    assert!(matches!(window_anchor(before), Ok(Some((MessageId(5), CursorSide::Before)))));
    let after = HistoryWindow { before: None, after: Some(MessageId(6)) };
    assert!(matches!(window_anchor(after), Ok(Some((MessageId(6), CursorSide::After)))));
    let both = HistoryWindow { before: Some(MessageId(5)), after: Some(MessageId(6)) };
    match window_anchor(both) {
        Err(ApplicationError::Domain(DomainError::Validation(m))) => {
            assert_eq!(m, "before_uuid and after_uuid are mutually exclusive")
        }
        other => panic!("unexpected {other:?}"),
    }
}

#[test]
fn a_page_runs_from_an_anchor_of_its_own_room_only() {
    let room = ChatChannel::Market(MarketId(3));
    let before = HistoryWindow { before: Some(MessageId(1)), after: None };
    let (stage, action) = page_start(room, before);
    assert_eq!(action, PageAction::LoadRoom(MarketId(3)));
    let (stage, action) = page_step(stage, room, before, &PageEvent::Room(true));
    assert_eq!(action, PageAction::LoadAnchor(MessageId(1)));
    let ours = ChatMessage { channel: room, ..message(1, 7, None) };
    let (_, action) = page_step(stage, room, before, &PageEvent::Anchor(Some(ours)));
    assert_eq!(
        action,
        PageAction::List(Some(PageCursor { anchor: MessageId(1), side: CursorSide::Before }))
    );
    let theirs = message(1, 7, None);
    let (_, action) = page_step(PageStage::Anchor, room, before, &PageEvent::Anchor(Some(theirs)));
    assert_eq!(action, PageAction::Refuse(PageRefusal::UnknownAnchor(MessageId(1))));
    match page_refusal_error(PageRefusal::UnknownAnchor(MessageId(1))) {
        ApplicationError::NotFound(t) => {
            assert_eq!(t, "message 00000000-0000-0000-0000-000000000001")
        }
        other => panic!("unexpected {other:?}"),
    }
    let (_, action) = page_step(PageStage::Anchor, room, before, &PageEvent::Anchor(None));
    assert_eq!(action, PageAction::Refuse(PageRefusal::UnknownAnchor(MessageId(1))));
}

#[test]
fn a_missing_room_or_a_two_way_window_is_refused() {
    let room = ChatChannel::Market(MarketId(4));
    let latest = HistoryWindow::default();
    assert_eq!(page_start(ChatChannel::Global, latest), (PageStage::Over, PageAction::List(None)));
    let (_, action) = page_step(PageStage::Room, room, latest, &PageEvent::Room(false));
    assert_eq!(action, PageAction::Refuse(PageRefusal::UnknownRoom(MarketId(4))));
    match page_refusal_error(PageRefusal::UnknownRoom(MarketId(4))) {
        ApplicationError::NotFound(t) => {
            assert_eq!(t, "market 00000000-0000-0000-0000-000000000004")
        }
        other => panic!("unexpected {other:?}"),
    }
    let both = HistoryWindow { before: Some(MessageId(5)), after: Some(MessageId(6)) };
    assert_eq!(
        page_start(ChatChannel::Global, both).1,
        PageAction::Refuse(PageRefusal::BothDirections)
    );
    match page_refusal_error(PageRefusal::BothDirections) {
        ApplicationError::Domain(DomainError::Validation(m)) => {
            assert_eq!(m, "before_uuid and after_uuid are mutually exclusive")
        }
        other => panic!("unexpected {other:?}"),
    }
}

#[test]
fn quotes_are_looked_up_once_each_in_id_order() {
    let page = vec![
        message(1, 7, Some(30)),
        message(2, 7, None),
        message(3, 8, Some(10)),
        message(4, 8, Some(30)),
    ];
    assert_eq!(quoted_ids(&page), vec![MessageId(10), MessageId(30)]);
    assert_eq!(page_authors(&page), vec![UserId(7), UserId(8)]);
}

#[test]
fn a_page_skips_vanished_authors_and_keeps_readable_quotes() {
    let page = vec![message(1, 7, Some(10)), message(2, 9, None), message(3, 8, Some(11))];
    let quoted = vec![message(10, 8, None), message(11, 9, None)];
    let users = vec![user(7, "alice"), user(8, "bob")];
    // With only alice known, bob (who wrote the quote of message 1) must be
    // looked up; message 3 is skipped, as its author is unknown.
    assert_eq!(quote_authors(&page, &quoted, &vec![user(7, "alice")]), vec![UserId(8)]);
    // With alice and bob known, the author of the quote of message 3 (user 9)
    // still has to be looked up; the lookup finds nobody.
    assert_eq!(quote_authors(&page, &quoted, &users), vec![UserId(9)]);

    let tallies = vec![(MessageId(1), vec![tally("🔥", 2)])];
    let views = assemble_page(&page, &quoted, &users, &tallies);
    assert_eq!(views.len(), 2);
    assert_eq!(views[0].message.id, MessageId(1));
    assert_eq!(views[0].author.username, "alice");
    let quote = views[0].reply_to.as_ref().expect("quote by bob is readable");
    assert_eq!(quote.message.id, MessageId(10));
    assert_eq!(quote.author.username, "bob");
    assert_eq!(views[0].reactions.len(), 1);
    assert_eq!(views[0].reactions[0].count, 2);
    assert_eq!(views[1].message.id, MessageId(3));
    assert!(views[1].reply_to.is_none());
    assert!(views[1].reactions.is_empty());
}

#[test]
fn a_new_message_has_no_reactions() {
    let v = posted_view(message(1, 7, None), user(7, "alice"), None);
    assert!(v.reactions.is_empty());
    assert_eq!(v.author.username, "alice");
}

fn in_room(id: u128, author: u128, channel: ChatChannel) -> ChatMessage {
    ChatMessage { channel, ..message(id, author, None) }
}

#[test]
fn a_reply_in_a_market_room_checks_author_room_quote_and_body() {
    let room = ChatChannel::Market(MarketId(3));
    let reply = Some(MessageId(10));
    let step = |stage, event: PostEvent| post_step(stage, UserId(7), room, reply, &event);
    let (stage, action) = post_start(UserId(7));
    assert_eq!(action, PostAction::LoadAuthor(UserId(7)));
    let (stage, action) = step(stage, PostEvent::Author(Some(user(7, "alice"))));
    assert_eq!(action, PostAction::LoadRoom(MarketId(3)));
    let (stage, action) = step(stage, PostEvent::Room(true));
    assert_eq!(action, PostAction::LoadQuote(MessageId(10)));
    let (stage, action) = step(stage, PostEvent::Quote(Some(in_room(10, 8, room))));
    assert_eq!(action, PostAction::LoadQuoteAuthor(UserId(8)));
    let (stage, action) = step(stage, PostEvent::QuoteAuthor(true));
    assert_eq!(action, PostAction::CheckBody);
    let (stage, action) = step(stage, PostEvent::Body(true));
    assert_eq!((stage, action), (PostStage::Over, PostAction::Save));
}

#[test]
fn a_quote_from_another_room_is_refused_as_unknown() {
    let room = ChatChannel::Market(MarketId(3));
    let (_, action) = post_step(
        PostStage::Quote,
        UserId(7),
        room,
        Some(MessageId(10)),
        &PostEvent::Quote(Some(in_room(10, 8, ChatChannel::Global))),
    );
    assert_eq!(action, PostAction::Refuse(PostRefusal::UnknownQuote(MessageId(10))));
    match post_refusal_error(PostRefusal::UnknownQuote(MessageId(10))) {
        ApplicationError::NotFound(t) => {
            assert_eq!(t, "message 00000000-0000-0000-0000-00000000000a")
        }
        other => panic!("unexpected {other:?}"),
    }
    // A plain message in the global room goes straight from its author to its body.
    let (stage, action) =
        post_step(PostStage::Author, UserId(7), ChatChannel::Global, None, &PostEvent::Author(Some(user(7, "alice"))));
    assert_eq!((stage, action), (PostStage::Body, PostAction::CheckBody));
    let (_, action) = post_step(PostStage::Body, UserId(7), ChatChannel::Global, None, &PostEvent::Body(false));
    assert_eq!(action, PostAction::Refuse(PostRefusal::InvalidBody));
    let (_, action) =
        post_step(PostStage::Room, UserId(7), room, None, &PostEvent::Room(false));
    assert_eq!(action, PostAction::Refuse(PostRefusal::UnknownRoom(MarketId(3))));
    match post_refusal_error(PostRefusal::UnknownRoom(MarketId(3))) {
        ApplicationError::NotFound(t) => {
            assert_eq!(t, "market 00000000-0000-0000-0000-000000000003")
        }
        other => panic!("unexpected {other:?}"),
    }
}
