//! Reading a chat room's history, posting to it and reacting in it.

use vstd::prelude::*;

use crate::error::{described, ApplicationError, DomainError};
use crate::ids::{market_id_text, message_id_text, user_id_text};
use crate::model::{ChatChannel, ChatMessage, MarketId, MessageId, ReactionTally, User, UserId};
use crate::use_cases::bet::{distinct_in_order, distinct_in_order_is_each_once};

verus! {

/// A chat message paired with everything needed to render it.
pub struct ChatMessageView {
    pub message: ChatMessage,
    pub author: User,
    /// The message this one quotes, when it is a reply whose quote is still
    /// readable.
    pub reply_to: Option<RepliedMessage>,
    /// The reactions on this message, tallied for whoever is reading it.
    pub reactions: Vec<ReactionTally>,
}

/// The message quoted above a reply, rendered one level deep.
pub struct RepliedMessage {
    pub message: ChatMessage,
    pub author: User,
}

/// Which page of a channel's history to load, relative to a message the client
/// already holds. Both directions exclude the anchor itself.
#[derive(Debug, Clone, Copy)]
pub struct HistoryWindow {
    pub before: Option<MessageId>,
    pub after: Option<MessageId>,
}

impl Default for HistoryWindow {
    fn default() -> (r: Self)
        ensures
            r.before is None,
            r.after is None,
    {
        HistoryWindow { before: None, after: None }
    }
}

/// Loads one page of a channel's chat messages enriched for rendering.
pub struct ListRecentMessages<MS, US, MK> {
    pub messages: MS,
    pub users: US,
    pub markets: MK,
}

impl<MS, US, MK> ListRecentMessages<MS, US, MK> {
    pub fn new(messages: MS, users: US, markets: MK) -> (r: Self)
        ensures
            r.messages == messages,
            r.users == users,
            r.markets == markets,
    {
        ListRecentMessages { messages, users, markets }
    }
}

/// Persists a new chat message and returns it enriched.
pub struct PostMessage<MS, US, MK> {
    pub messages: MS,
    pub users: US,
    pub markets: MK,
}

impl<MS, US, MK> PostMessage<MS, US, MK> {
    pub fn new(messages: MS, users: US, markets: MK) -> (r: Self)
        ensures
            r.messages == messages,
            r.users == users,
            r.markets == markets,
    {
        PostMessage { messages, users, markets }
    }
}

/// Adds and takes back one user's emoji reactions on a chat message.
pub struct ReactToMessage<MS> {
    pub messages: MS,
}

impl<MS> ReactToMessage<MS> {
    pub fn new(messages: MS) -> (r: Self)
        ensures
            r.messages == messages,
    {
        ReactToMessage { messages }
    }
}

/// Which way a page runs from its anchor.
#[derive(Debug, Clone, Copy, PartialEq, Eq, Structural)]
pub enum CursorSide {
    Before,
    After,
}

/// The anchor message a window names and which way the page runs from it:
/// none for the latest page, and a validation error when both directions
/// are asked for at once.
pub fn window_anchor(window: HistoryWindow) -> (r: Result<Option<(MessageId, CursorSide)>, ApplicationError>)
    ensures
        match (window.before, window.after) {
            (None, None) => r == Ok::<Option<(MessageId, CursorSide)>, ApplicationError>(None),
            (Some(b), None) => r == Ok::<Option<(MessageId, CursorSide)>, ApplicationError>(
                Some((b, CursorSide::Before)),
            ),
            (None, Some(a)) => r == Ok::<Option<(MessageId, CursorSide)>, ApplicationError>(
                Some((a, CursorSide::After)),
            ),
            (Some(_), Some(_)) => r matches Err(ApplicationError::Domain(DomainError::Validation(m)))
                && m@ == "before_uuid and after_uuid are mutually exclusive"@,
        },
{
    match (window.before, window.after) {
        (None, None) => Ok(None),
        (Some(before), None) => Ok(Some((before, CursorSide::Before))),
        (None, Some(after)) => Ok(Some((after, CursorSide::After))),
        (Some(_), Some(_)) => Err(
            ApplicationError::Domain(
                DomainError::Validation(
                    String::from_str("before_uuid and after_uuid are mutually exclusive"),
                ),
            ),
        ),
    }
}

pub open spec fn unknown_message_text(id: MessageId) -> Seq<char> {
    "message"@ + " "@ + message_id_text(id)
}

/// `NotFound` for the message `id`.
pub fn unknown_message(id: MessageId) -> (r: ApplicationError)
    ensures
        r matches ApplicationError::NotFound(t) && t@ == unknown_message_text(id),
{
    let mut t = String::from_str("message");
    t.append(" ");
    t.append(id.to_text().as_str());
    ApplicationError::NotFound(t)
}

/// The ids the messages of `page` quote.
pub open spec fn quotes_in(page: Seq<ChatMessage>, id: MessageId) -> bool {
    exists|i: int| 0 <= i < page.len() && #[trigger] page[i].reply_to == Some(id)
}

pub open spec fn strictly_ascending(ids: Seq<MessageId>) -> bool {
    forall|i: int, j: int| 0 <= i < j < ids.len() ==> (#[trigger] ids[i]).0 < (#[trigger] ids[j]).0
}

/// The messages quoted by the replies in `page`, each once, ordered by id:
/// what one batched lookup of the quotes asks for.
pub fn quoted_ids(page: &Vec<ChatMessage>) -> (r: Vec<MessageId>)
    ensures
        strictly_ascending(r@),
        forall|id: MessageId| r@.contains(id) <==> quotes_in(page@, id),
{
    let mut r: Vec<MessageId> = Vec::new();
    let mut i: usize = 0;
    while i < page.len()
        invariant
            i <= page@.len(),
            strictly_ascending(r@),
            forall|id: MessageId|
                r@.contains(id) <==> quotes_in(page@.subrange(0, i as int), id),
        decreases page.len() - i,
    {
        let ghost before = r@;
        assert forall|x: MessageId| before.contains(x) <==> quotes_in(page@.subrange(0, i as int), x) by {}
        proof {
            assert forall|id: MessageId| quotes_in(page@.subrange(0, i + 1), id) <==> (quotes_in(
                page@.subrange(0, i as int),
                id,
            ) || page@[i as int].reply_to == Some(id)) by {
                if quotes_in(page@.subrange(0, i + 1), id) {
                    let k = choose|k: int|
                        0 <= k < i + 1 && #[trigger] page@.subrange(0, i + 1)[k].reply_to == Some(
                            id,
                        );
                    if k < i {
                        assert(page@.subrange(0, i as int)[k] == page@.subrange(0, i + 1)[k]);
                    }
                }
                if quotes_in(page@.subrange(0, i as int), id) {
                    let k = choose|k: int|
                        0 <= k < i && #[trigger] page@.subrange(0, i as int)[k].reply_to == Some(
                            id,
                        );
                    assert(page@.subrange(0, i + 1)[k] == page@.subrange(0, i as int)[k]);
                }
                if page@[i as int].reply_to == Some(id) {
                    assert(page@.subrange(0, i + 1)[i as int] == page@[i as int]);
                }
            }
        }
        if let Some(id) = page[i].reply_to {
            let mut p: usize = 0;
            while p < r.len() && r[p].0 < id.0
                invariant
                    r@ == before,
                    p <= r@.len(),
                    forall|k: int| 0 <= k < p ==> (#[trigger] r@[k]).0 < id.0,
                decreases r.len() - p,
            {
                p = p + 1;
            }
            if p < r.len() && r[p].0 == id.0 {
                assert(r@[p as int] == id);
                assert(r@.contains(id));
                assert forall|x: MessageId| r@.contains(x) <==> (before.contains(x) || x == id) by {}
            } else {
                r.insert(p, id);
                proof {
                    assert forall|a: int, b: int|
                        0 <= a < b < r@.len() implies (#[trigger] r@[a]).0 < (#[trigger] r@[b]).0 by {
                        if b < p {
                        } else if a < p && b == p {
                        } else if a < p {
                            assert(r@[b] == before[b - 1]);
                            assert(before[a].0 < before[b - 1].0 || a == b - 1);
                        } else if a == p {
                            assert(r@[b] == before[b - 1]);
                        } else {
                            assert(r@[a] == before[a - 1]);
                            assert(r@[b] == before[b - 1]);
                        }
                    }
                    assert forall|x: MessageId| r@.contains(x) <==> (before.contains(x) || x
                        == id) by {
                        if r@.contains(x) {
                            let k = choose|k: int| 0 <= k < r@.len() && r@[k] == x;
                            if k < p {
                                assert(before[k] == x);
                            } else if k > p {
                                assert(before[k - 1] == x);
                            }
                        }
                        if before.contains(x) {
                            let k = choose|k: int| 0 <= k < before.len() && before[k] == x;
                            if k < p {
                                assert(r@[k] == x);
                            } else {
                                assert(r@[k + 1] == x);
                            }
                        }
                        if x == id {
                            assert(r@[p as int] == x);
                        }
                    }
                }
            }
        }
        proof {
            let here = page@[i as int].reply_to;
            assert forall|x: MessageId| r@.contains(x) <==> (before.contains(x) || here == Some(x)) by {
                if here is None {
                    assert(r@ == before);
                }
            }
            assert forall|x: MessageId| r@.contains(x) <==> quotes_in(page@.subrange(0, i + 1), x) by {
                assert(r@.contains(x) <==> (before.contains(x) || here == Some(x)));
                assert(before.contains(x) <==> quotes_in(page@.subrange(0, i as int), x));
            }
        }
        i = i + 1;
    }
    assert(page@.subrange(0, page@.len() as int) =~= page@);
    r
}

pub open spec fn page_authors_of(page: Seq<ChatMessage>) -> Seq<UserId> {
    page.map_values(|m: ChatMessage| m.author_id)
}

fn holds_user(v: &Vec<UserId>, id: UserId) -> (r: bool)
    ensures
        r == v@.contains(id),
{
    let mut i: usize = 0;
    while i < v.len()
        invariant
            i <= v@.len(),
            forall|j: int| 0 <= j < i ==> v@[j] != id,
        decreases v.len() - i,
    {
        if v[i] == id {
            return true;
        }
        i = i + 1;
    }
    false
}

/// The authors of `page`, each once, in the order they are first met.
pub fn page_authors(page: &Vec<ChatMessage>) -> (r: Vec<UserId>)
    ensures
        r@ == distinct_in_order(page_authors_of(page@)),
        r@.no_duplicates(),
        forall|id: UserId| r@.contains(id) <==> exists|k: int| 0 <= k < page@.len() && #[trigger] page@[k].author_id == id,
{
    let mut r: Vec<UserId> = Vec::new();
    let mut i: usize = 0;
    while i < page.len()
        invariant
            i <= page@.len(),
            r@ == distinct_in_order(page_authors_of(page@.subrange(0, i as int))),
        decreases page.len() - i,
    {
        assert(page_authors_of(page@.subrange(0, i + 1)).drop_last() =~= page_authors_of(
            page@.subrange(0, i as int),
        ));
        let id = page[i].author_id;
        if !holds_user(&r, id) {
            r.push(id);
        }
        i = i + 1;
    }
    assert(page@.subrange(0, page@.len() as int) =~= page@);
    proof {
        distinct_in_order_is_each_once(page_authors_of(page@));
        assert forall|id: UserId| r@.contains(id) <==> exists|k: int| 0 <= k < page@.len() && #[trigger] page@[k].author_id == id by {
            assert(distinct_in_order(page_authors_of(page@)).contains(id) <==> page_authors_of(page@).contains(id));
            if page_authors_of(page@).contains(id) {
                let k = choose|k: int| 0 <= k < page_authors_of(page@).len() && page_authors_of(page@)[k] == id;
                assert(page@[k].author_id == id);
            }
            if exists|k: int| 0 <= k < page@.len() && #[trigger] page@[k].author_id == id {
                let k = choose|k: int| 0 <= k < page@.len() && #[trigger] page@[k].author_id == id;
                assert(page_authors_of(page@)[k] == id);
            }
        }
    }
    r
}

/// The first user with id `id` at or after `i`.
pub open spec fn user_row_from(users: Seq<User>, id: UserId, i: int) -> Option<int>
    decreases users.len() - i,
{
    if i < 0 || i >= users.len() {
        None
    } else if users[i].id == id {
        Some(i)
    } else {
        user_row_from(users, id, i + 1)
    }
}

pub open spec fn user_row(users: Seq<User>, id: UserId) -> Option<int> {
    user_row_from(users, id, 0)
}

/// The last quoted message with id `id` below `n`: a later row of an id
/// replaces an earlier one, as in a map built from the rows.
pub open spec fn quoted_row_below(quoted: Seq<ChatMessage>, id: MessageId, n: int) -> Option<int>
    decreases n,
{
    if n <= 0 || n > quoted.len() {
        None
    } else if quoted[n - 1].id == id {
        Some(n - 1)
    } else {
        quoted_row_below(quoted, id, n - 1)
    }
}

pub open spec fn quoted_row(quoted: Seq<ChatMessage>, id: MessageId) -> Option<int> {
    quoted_row_below(quoted, id, quoted.len() as int)
}

/// The first tally list for message `id` at or after `i`.
pub open spec fn tally_row_from(tallies: Seq<(MessageId, Vec<ReactionTally>)>, id: MessageId, i: int) -> Option<int>
    decreases tallies.len() - i,
{
    if i < 0 || i >= tallies.len() {
        None
    } else if tallies[i].0 == id {
        Some(i)
    } else {
        tally_row_from(tallies, id, i + 1)
    }
}

/// The messages of `page` whose author is still there, in order.
pub open spec fn kept_messages(page: Seq<ChatMessage>, users: Seq<User>) -> Seq<ChatMessage>
    decreases page.len(),
{
    if page.len() == 0 {
        page
    } else if user_row(users, page.last().author_id) is Some {
        kept_messages(page.drop_last(), users).push(page.last())
    } else {
        kept_messages(page.drop_last(), users)
    }
}

/// The quote a kept message is shown with: its quoted message and that
/// message's author, when both are there.
pub open spec fn quote_of(m: ChatMessage, quoted: Seq<ChatMessage>, users: Seq<User>) -> Option<RepliedMessage> {
    match m.reply_to {
        None => None,
        Some(pid) => match quoted_row(quoted, pid) {
            None => None,
            Some(q) => match user_row(users, quoted[q].author_id) {
                None => None,
                Some(u) => Some(RepliedMessage { message: quoted[q], author: users[u] }),
            },
        },
    }
}

/// `m` is kept and quotes a message by `id`.
pub open spec fn quotes_author(m: ChatMessage, quoted: Seq<ChatMessage>, users: Seq<User>, id: UserId) -> bool {
    &&& user_row(users, m.author_id) is Some
    &&& match m.reply_to {
        Some(pid) => match quoted_row(quoted, pid) {
            Some(q) => quoted[q].author_id == id,
            None => false,
        },
        None => false,
    }
}

/// The authors the quotes of `page` need beyond `users`.
pub open spec fn quote_author_needed(
    page: Seq<ChatMessage>,
    quoted: Seq<ChatMessage>,
    users: Seq<User>,
    id: UserId,
) -> bool {
    &&& user_row(users, id) is None
    &&& exists|i: int| 0 <= i < page.len() && #[trigger] quotes_author(page[i], quoted, users, id)
}

/// The reactions shown on the `i`-th kept message: its tallies, unless an
/// earlier kept message with the same id already took them.
pub open spec fn reactions_of(
    kept: Seq<ChatMessage>,
    i: int,
    tallies: Seq<(MessageId, Vec<ReactionTally>)>,
) -> Seq<ReactionTally> {
    if exists|j: int| 0 <= j < i && (#[trigger] kept[j]).id == kept[i].id {
        Seq::empty()
    } else {
        match tally_row_from(tallies, kept[i].id, 0) {
            Some(t) => tallies[t].1@,
            None => Seq::empty(),
        }
    }
}

proof fn lemma_reactions_of_prefix(
    kept0: Seq<ChatMessage>,
    x: ChatMessage,
    k: int,
    tallies: Seq<(MessageId, Vec<ReactionTally>)>,
)
    requires
        0 <= k < kept0.len(),
    ensures
        reactions_of(kept0.push(x), k, tallies) == reactions_of(kept0, k, tallies),
{
    let kept1 = kept0.push(x);
    assert(kept1[k] == kept0[k]);
    if exists|j: int| 0 <= j < k && (#[trigger] kept1[j]).id == kept1[k].id {
        let j = choose|j: int| 0 <= j < k && (#[trigger] kept1[j]).id == kept1[k].id;
        assert(kept0[j] == kept1[j]);
    }
    if exists|j: int| 0 <= j < k && (#[trigger] kept0[j]).id == kept0[k].id {
        let j = choose|j: int| 0 <= j < k && (#[trigger] kept0[j]).id == kept0[k].id;
        assert(kept0[j] == kept1[j]);
    }
}

/// `v` renders the `i`-th kept message.
pub open spec fn renders(
    v: ChatMessageView,
    kept: Seq<ChatMessage>,
    i: int,
    quoted: Seq<ChatMessage>,
    users: Seq<User>,
    tallies: Seq<(MessageId, Vec<ReactionTally>)>,
) -> bool {
    &&& v.message == kept[i]
    &&& v.author == users[user_row(users, kept[i].author_id)->0]
    &&& v.reply_to == quote_of(kept[i], quoted, users)
    &&& v.reactions@ == reactions_of(kept, i, tallies)
}

fn user_row_exec(users: &Vec<User>, id: UserId) -> (r: Option<usize>)
    ensures
        match r {
            Some(i) => user_row(users@, id) == Some(i as int) && i < users@.len(),
            None => user_row(users@, id) is None,
        },
{
    let mut i: usize = 0;
    while i < users.len()
        invariant
            i <= users@.len(),
            user_row(users@, id) == user_row_from(users@, id, i as int),
        decreases users.len() - i,
    {
        if users[i].id == id {
            return Some(i);
        }
        i = i + 1;
    }
    None
}

fn quoted_row_exec(quoted: &Vec<ChatMessage>, id: MessageId) -> (r: Option<usize>)
    ensures
        match r {
            Some(i) => quoted_row(quoted@, id) == Some(i as int) && i < quoted@.len(),
            None => quoted_row(quoted@, id) is None,
        },
{
    let mut n = quoted.len();
    while n > 0
        invariant
            n <= quoted@.len(),
            quoted_row(quoted@, id) == quoted_row_below(quoted@, id, n as int),
        decreases n,
    {
        if quoted[n - 1].id == id {
            return Some(n - 1);
        }
        n = n - 1;
    }
    None
}

fn tally_row_exec(tallies: &Vec<(MessageId, Vec<ReactionTally>)>, id: MessageId) -> (r: Option<usize>)
    ensures
        match r {
            Some(i) => tally_row_from(tallies@, id, 0) == Some(i as int) && i < tallies@.len(),
            None => tally_row_from(tallies@, id, 0) is None,
        },
{
    let mut i: usize = 0;
    while i < tallies.len()
        invariant
            i <= tallies@.len(),
            tally_row_from(tallies@, id, 0) == tally_row_from(tallies@, id, i as int),
        decreases tallies.len() - i,
    {
        if tallies[i].0 == id {
            return Some(i);
        }
        i = i + 1;
    }
    None
}

fn copy_tallies(v: &Vec<ReactionTally>) -> (r: Vec<ReactionTally>)
    ensures
        r@ == v@,
{
    let mut r: Vec<ReactionTally> = Vec::new();
    let mut i: usize = 0;
    while i < v.len()
        invariant
            i <= v@.len(),
            r@ == v@.subrange(0, i as int),
        decreases v.len() - i,
    {
        r.push(v[i].copied());
        i = i + 1;
        assert(r@ =~= v@.subrange(0, i as int));
    }
    assert(v@.subrange(0, v@.len() as int) =~= v@);
    r
}

/// The authors the quotes on `page` still need, beyond the `users` already
/// found: the authors of quoted messages under replies whose own author is
/// there, each once.
pub fn quote_authors(page: &Vec<ChatMessage>, quoted: &Vec<ChatMessage>, users: &Vec<User>) -> (r: Vec<UserId>)
    ensures
        forall|id: UserId| r@.contains(id) <==> quote_author_needed(page@, quoted@, users@, id),
        r@.no_duplicates(),
{
    let mut r: Vec<UserId> = Vec::new();
    let mut i: usize = 0;
    while i < page.len()
        invariant
            i <= page@.len(),
            r@.no_duplicates(),
            forall|id: UserId|
                r@.contains(id) <==> quote_author_needed(
                    page@.subrange(0, i as int),
                    quoted@,
                    users@,
                    id,
                ),
        decreases page.len() - i,
    {
        let ghost before = r@;
        let ghost sub = page@.subrange(0, i as int);
        let ghost next = page@.subrange(0, i + 1);
        assert forall|x: UserId| before.contains(x) <==> quote_author_needed(sub, quoted@, users@, x) by {}
        let m = &page[i];
        let mut found: Option<UserId> = None;
        if user_row_exec(users, m.author_id).is_some() {
            if let Some(pid) = m.reply_to {
                if let Some(q) = quoted_row_exec(quoted, pid) {
                    let a = quoted[q].author_id;
                    if user_row_exec(users, a).is_none() {
                        found = Some(a);
                    }
                }
            }
        }
        if let Some(a) = found {
            if !holds_user(&r, a) {
                r.push(a);
                assert forall|x: int, y: int| 0 <= x < y < r@.len() implies r@[x] != r@[y] by {
                    if y == r@.len() - 1 {
                        assert(before[x] == r@[x]);
                    }
                }
            }
        }
        proof {
            assert forall|id: UserId|
                r@.contains(id) <==> quote_author_needed(next, quoted@, users@, id) by {
                if quote_author_needed(next, quoted@, users@, id) {
                    let k = choose|k: int|
                        0 <= k < next.len() && #[trigger] quotes_author(next[k], quoted@, users@, id);
                    if k < i {
                        assert(sub.len() == i);
                        assert(sub[k] == next[k]);
                        assert(quotes_author(sub[k], quoted@, users@, id));
                        assert(quote_author_needed(sub, quoted@, users@, id));
                        assert(before.contains(id));
                        let w = choose|w: int| 0 <= w < before.len() && before[w] == id;
                        assert(r@[w] == id);
                    } else {
                        assert(next[k] == page@[i as int]);
                        assert(found == Some(id));
                        if !before.contains(id) {
                            assert(r@[r@.len() - 1] == id);
                        } else {
                            let w = choose|w: int| 0 <= w < before.len() && before[w] == id;
                            assert(r@[w] == id);
                        }
                    }
                }
                if r@.contains(id) {
                    let w = choose|w: int| 0 <= w < r@.len() && r@[w] == id;
                    if w < before.len() {
                        assert(before[w] == id);
                        assert(before.contains(id));
                        assert(quote_author_needed(sub, quoted@, users@, id));
                        let k = choose|k: int|
                            0 <= k < sub.len() && #[trigger] quotes_author(sub[k], quoted@, users@, id);
                        assert(next[k] == sub[k]);
                        assert(quotes_author(next[k], quoted@, users@, id));
                    } else {
                        assert(found == Some(id));
                        assert(next[i as int] == page@[i as int]);
                        assert(quotes_author(next[i as int], quoted@, users@, id));
                    }
                }
            }
        }
        i = i + 1;
    }
    assert(page@.subrange(0, page@.len() as int) =~= page@);
    r
}

/// Renders a page: every message whose author is among `users`, in order,
/// with that author, the quote it shows (when the quoted message and its
/// author are both there), and the reader's tallies for it.
pub fn assemble_page(
    page: &Vec<ChatMessage>,
    quoted: &Vec<ChatMessage>,
    users: &Vec<User>,
    tallies: &Vec<(MessageId, Vec<ReactionTally>)>,
) -> (r: Vec<ChatMessageView>)
    ensures
        r@.len() == kept_messages(page@, users@).len(),
        forall|i: int|
            0 <= i < r@.len() ==> renders(
                #[trigger] r@[i],
                kept_messages(page@, users@),
                i,
                quoted@,
                users@,
                tallies@,
            ),
{
    let mut views: Vec<ChatMessageView> = Vec::new();
    let mut taken: Vec<MessageId> = Vec::new();
    let mut i: usize = 0;
    while i < page.len()
        invariant
            i <= page@.len(),
            views@.len() == kept_messages(page@.subrange(0, i as int), users@).len(),
            taken@ == kept_messages(page@.subrange(0, i as int), users@).map_values(
                |m: ChatMessage| m.id,
            ),
            forall|k: int|
                0 <= k < views@.len() ==> renders(
                    #[trigger] views@[k],
                    kept_messages(page@.subrange(0, i as int), users@),
                    k,
                    quoted@,
                    users@,
                    tallies@,
                ),
        decreases page.len() - i,
    {
        let ghost kept0 = kept_messages(page@.subrange(0, i as int), users@);
        assert(page@.subrange(0, i + 1).drop_last() =~= page@.subrange(0, i as int));
        let m = &page[i];
        if let Some(a) = user_row_exec(users, m.author_id) {
            let ghost kept1 = kept0.push(page@[i as int]);
            assert(kept_messages(page@.subrange(0, i + 1), users@) == kept1);
            let reply_to = match m.reply_to {
                None => None,
                Some(pid) => match quoted_row_exec(quoted, pid) {
                    None => None,
                    Some(q) => match user_row_exec(users, quoted[q].author_id) {
                        None => None,
                        Some(u) => Some(
                            RepliedMessage {
                                message: quoted[q].copied(),
                                author: users[u].copied(),
                            },
                        ),
                    },
                },
            };
            let seen = holds_message(&taken, m.id);
            proof {
                let k1 = kept0.len() as int;
                assert(kept1[k1] == page@[i as int]);
                if seen {
                    let w = choose|w: int| 0 <= w < taken@.len() && taken@[w] == m.id;
                    assert(kept1[w] == kept0[w]);
                    assert(kept1[w].id == kept1[k1].id);
                } else {
                    assert forall|j: int| 0 <= j < k1 implies (#[trigger] kept1[j]).id
                        != kept1[k1].id by {
                        assert(kept1[j] == kept0[j]);
                        assert(taken@[j] == kept0[j].id);
                    }
                }
            }
            let reactions = if seen {
                Vec::new()
            } else {
                match tally_row_exec(tallies, m.id) {
                    Some(t) => copy_tallies(&tallies[t].1),
                    None => Vec::new(),
                }
            };
            let view = ChatMessageView {
                message: m.copied(),
                author: users[a].copied(),
                reply_to,
                reactions,
            };
            views.push(view);
            taken.push(m.id);
            proof {
                assert(taken@ =~= kept1.map_values(|m: ChatMessage| m.id));
                assert forall|k: int| 0 <= k < views@.len() implies renders(
                    #[trigger] views@[k],
                    kept1,
                    k,
                    quoted@,
                    users@,
                    tallies@,
                ) by {
                    if k < kept0.len() {
                        assert(kept1[k] == kept0[k]);
                        lemma_reactions_of_prefix(kept0, page@[i as int], k, tallies@);
                    }
                }
            }
        } else {
            assert(kept_messages(page@.subrange(0, i + 1), users@) == kept0);
        }
        i = i + 1;
    }
    assert(page@.subrange(0, page@.len() as int) =~= page@);
    views
}

fn holds_message(v: &Vec<MessageId>, id: MessageId) -> (r: bool)
    ensures
        r == v@.contains(id),
{
    let mut i: usize = 0;
    while i < v.len()
        invariant
            i <= v@.len(),
            forall|j: int| 0 <= j < i ==> v@[j] != id,
        decreases v.len() - i,
    {
        if v[i] == id {
            return true;
        }
        i = i + 1;
    }
    false
}

/// A freshly posted message as it is shown: nobody can have reacted to a
/// message that did not exist a moment ago.
pub fn posted_view(message: ChatMessage, author: User, reply_to: Option<RepliedMessage>) -> (r:
    ChatMessageView)
    ensures
        r.message == message,
        r.author == author,
        r.reply_to == reply_to,
        r.reactions@.len() == 0,
{
    ChatMessageView { message, author, reply_to, reactions: Vec::new() }
}

/// How far posting a message has got. Each stage waits for one answer from
/// the stores or the domain, asked for by the action that entered it.
#[derive(Debug, Clone, Copy, PartialEq, Eq, Structural)]
pub enum PostStage {
    /// Waiting for the author.
    Author,
    /// Waiting to hear whether the room's market is still there.
    Room,
    /// Waiting for the message the reply quotes.
    Quote,
    /// Waiting for the quoted message's author.
    QuoteAuthor,
    /// Waiting to hear whether the body is a valid message body.
    Body,
    /// Saved or refused: nothing more is asked.
    Over,
}

/// An answer handed to [`post_step`].
pub enum PostEvent {
    Author(Option<User>),
    /// Whether the room's market was found.
    Room(bool),
    /// The message with the quoted id, if any.
    Quote(Option<ChatMessage>),
    /// Whether the quoted message's author was found.
    QuoteAuthor(bool),
    /// Whether the domain accepts the body.
    Body(bool),
}

/// Why a message is refused.
#[derive(Debug, Clone, Copy, PartialEq, Eq, Structural)]
pub enum PostRefusal {
    UnknownAuthor(UserId),
    UnknownRoom(MarketId),
    /// The quoted message is gone, is another room's, or its author is gone.
    UnknownQuote(MessageId),
    /// The domain refused the body, with its own error.
    InvalidBody,
}

/// What posting a message does next.
#[derive(Debug, Clone, Copy, PartialEq, Eq, Structural)]
pub enum PostAction {
    LoadAuthor(UserId),
    LoadRoom(MarketId),
    LoadQuote(MessageId),
    LoadQuoteAuthor(UserId),
    CheckBody,
    /// Save the message and show it.
    Save,
    Refuse(PostRefusal),
}

pub open spec fn post_awaits(stage: PostStage, event: PostEvent) -> bool {
    match (stage, event) {
        (PostStage::Author, PostEvent::Author(_)) => true,
        (PostStage::Room, PostEvent::Room(_)) => true,
        (PostStage::Quote, PostEvent::Quote(_)) => true,
        (PostStage::QuoteAuthor, PostEvent::QuoteAuthor(_)) => true,
        (PostStage::Body, PostEvent::Body(_)) => true,
        _ => false,
    }
}

/// What comes after the room is settled: the quote when replying, else the
/// body.
pub open spec fn after_room(reply_to: Option<MessageId>) -> (PostStage, PostAction) {
    match reply_to {
        Some(q) => (PostStage::Quote, PostAction::LoadQuote(q)),
        None => (PostStage::Body, PostAction::CheckBody),
    }
}

/// Where posting goes on `event`.
pub open spec fn post_next(
    stage: PostStage,
    author_id: UserId,
    channel: ChatChannel,
    reply_to: Option<MessageId>,
    event: PostEvent,
) -> (PostStage, PostAction) {
    match (stage, event) {
        (PostStage::Author, PostEvent::Author(found)) => match found {
            None => (PostStage::Over, PostAction::Refuse(PostRefusal::UnknownAuthor(author_id))),
            Some(_) => match channel {
                ChatChannel::Market(m) => (PostStage::Room, PostAction::LoadRoom(m)),
                ChatChannel::Global => after_room(reply_to),
            },
        },
        (PostStage::Room, PostEvent::Room(found)) => if found {
            after_room(reply_to)
        } else {
            (PostStage::Over, PostAction::Refuse(PostRefusal::UnknownRoom(channel->Market_0)))
        },
        (PostStage::Quote, PostEvent::Quote(found)) => match found {
            Some(m) if m.channel == channel => (PostStage::QuoteAuthor, PostAction::LoadQuoteAuthor(m.author_id)),
            _ => (PostStage::Over, PostAction::Refuse(PostRefusal::UnknownQuote(reply_to->Some_0))),
        },
        (PostStage::QuoteAuthor, PostEvent::QuoteAuthor(found)) => if found {
            (PostStage::Body, PostAction::CheckBody)
        } else {
            (PostStage::Over, PostAction::Refuse(PostRefusal::UnknownQuote(reply_to->Some_0)))
        },
        (PostStage::Body, PostEvent::Body(valid)) => if valid {
            (PostStage::Over, PostAction::Save)
        } else {
            (PostStage::Over, PostAction::Refuse(PostRefusal::InvalidBody))
        },
        _ => vstd::pervasive::arbitrary(),
    }
}

/// Where posting starts: by loading the author.
pub fn post_start(author_id: UserId) -> (r: (PostStage, PostAction))
    ensures
        r == (PostStage::Author, PostAction::LoadAuthor(author_id)),
{
    (PostStage::Author, PostAction::LoadAuthor(author_id))
}

fn after_room_exec(reply_to: Option<MessageId>) -> (r: (PostStage, PostAction))
    ensures
        r == after_room(reply_to),
{
    match reply_to {
        Some(q) => (PostStage::Quote, PostAction::LoadQuote(q)),
        None => (PostStage::Body, PostAction::CheckBody),
    }
}

/// One step of posting: the author first, then the room's market when it is
/// a market room, then the quoted message (which must be of this very room)
/// and its author when replying, then the body.
pub fn post_step(
    stage: PostStage,
    author_id: UserId,
    channel: ChatChannel,
    reply_to: Option<MessageId>,
    event: &PostEvent,
) -> (r: (PostStage, PostAction))
    requires
        post_awaits(stage, *event),
        stage == PostStage::Room ==> channel is Market,
        stage == PostStage::Quote || stage == PostStage::QuoteAuthor ==> reply_to is Some,
    ensures
        r == post_next(stage, author_id, channel, reply_to, *event),
{
    let refuse_quote = match reply_to {
        Some(q) => (PostStage::Over, PostAction::Refuse(PostRefusal::UnknownQuote(q))),
        None => (PostStage::Over, PostAction::Refuse(PostRefusal::InvalidBody)),
    };
    match stage {
        PostStage::Author => match event {
            PostEvent::Author(None) => (PostStage::Over, PostAction::Refuse(PostRefusal::UnknownAuthor(author_id))),
            PostEvent::Author(Some(_)) => match channel {
                ChatChannel::Market(m) => (PostStage::Room, PostAction::LoadRoom(m)),
                ChatChannel::Global => after_room_exec(reply_to),
            },
            _ => refuse_quote,
        },
        PostStage::Room => match event {
            PostEvent::Room(found) => if *found {
                after_room_exec(reply_to)
            } else {
                match channel {
                    ChatChannel::Market(m) => (PostStage::Over, PostAction::Refuse(PostRefusal::UnknownRoom(m))),
                    ChatChannel::Global => refuse_quote,
                }
            },
            _ => refuse_quote,
        },
        PostStage::Quote => match event {
            PostEvent::Quote(found) => match found {
                Some(m) => if m.channel == channel {
                    (PostStage::QuoteAuthor, PostAction::LoadQuoteAuthor(m.author_id))
                } else {
                    refuse_quote
                },
                None => refuse_quote,
            },
            _ => refuse_quote,
        },
        PostStage::QuoteAuthor => match event {
            PostEvent::QuoteAuthor(found) => if *found {
                (PostStage::Body, PostAction::CheckBody)
            } else {
                refuse_quote
            },
            _ => refuse_quote,
        },
        PostStage::Body => match event {
            PostEvent::Body(valid) => if *valid {
                (PostStage::Over, PostAction::Save)
            } else {
                (PostStage::Over, PostAction::Refuse(PostRefusal::InvalidBody))
            },
            _ => refuse_quote,
        },
        PostStage::Over => refuse_quote,
    }
}

/// Where posting stands after `events`, answered in order from the start.
pub open spec fn posting(
    author_id: UserId,
    channel: ChatChannel,
    reply_to: Option<MessageId>,
    events: Seq<PostEvent>,
) -> (PostStage, PostAction)
    decreases events.len(),
{
    if events.len() == 0 {
        (PostStage::Author, PostAction::LoadAuthor(author_id))
    } else {
        post_next(posting(author_id, channel, reply_to, events.drop_last()).0, author_id, channel, reply_to, events.last())
    }
}

pub open spec fn post_answered_in_turn(
    author_id: UserId,
    channel: ChatChannel,
    reply_to: Option<MessageId>,
    events: Seq<PostEvent>,
) -> bool
    decreases events.len(),
{
    events.len() == 0 || (post_answered_in_turn(author_id, channel, reply_to, events.drop_last())
        && post_awaits(posting(author_id, channel, reply_to, events.drop_last()).0, events.last()))
}

/// A message is saved only when its author was found, its room's market was
/// found when it is a market room, and, when it replies, the quoted message
/// was found in this very room with its author (a quote from another room
/// would carry one room's talk into another); the body, last, was accepted.
pub open spec fn post_checks_passed(channel: ChatChannel, reply_to: Option<MessageId>, events: Seq<PostEvent>) -> bool {
    let room = if channel is Market { 1int } else { 0int };
    let quote = if reply_to is Some { 2int } else { 0int };
    &&& events.len() == 2 + room + quote
    &&& (events[0] matches PostEvent::Author(Some(_)))
    &&& channel is Market ==> events[1] == PostEvent::Room(true)
    &&& reply_to is Some ==> (events[1 + room] matches PostEvent::Quote(Some(m)) && m.channel == channel)
        && events[2 + room] == PostEvent::QuoteAuthor(true)
    &&& events.last() == PostEvent::Body(true)
}

proof fn lemma_posting_path(author_id: UserId, channel: ChatChannel, reply_to: Option<MessageId>, events: Seq<PostEvent>)
    requires
        post_answered_in_turn(author_id, channel, reply_to, events),
        posting(author_id, channel, reply_to, events).0 != PostStage::Over,
    ensures
        ({
            let stage = posting(author_id, channel, reply_to, events).0;
            let room = if channel is Market { 1int } else { 0int };
            &&& stage == PostStage::Author ==> events.len() == 0
            &&& stage == PostStage::Room ==> events.len() == 1 && channel is Market
            &&& stage == PostStage::Quote ==> events.len() == 1 + room && reply_to is Some
            &&& stage == PostStage::QuoteAuthor ==> events.len() == 2 + room && reply_to is Some
            &&& stage == PostStage::Body ==> events.len() == 1 + room + (if reply_to is Some { 2int } else { 0int })
            &&& events.len() >= 1 ==> (events[0] matches PostEvent::Author(Some(_)))
            &&& events.len() >= 2 && channel is Market ==> events[1] == PostEvent::Room(true)
            &&& reply_to is Some && events.len() >= 2 + room ==> (events[1 + room] matches PostEvent::Quote(Some(m)) && m.channel == channel)
            &&& reply_to is Some && events.len() >= 3 + room ==> events[2 + room] == PostEvent::QuoteAuthor(true)
        }),
    decreases events.len(),
{
    if events.len() > 0 {
        let before = events.drop_last();
        lemma_posting_path(author_id, channel, reply_to, before);
        assert forall|k: int| 0 <= k < before.len() implies events[k] == before[k] by {}
    }
}

/// A message is saved only when every check passed (see
/// [`post_checks_passed`]), and saving ends the posting.
pub proof fn a_message_is_saved_only_after_its_checks(
    author_id: UserId,
    channel: ChatChannel,
    reply_to: Option<MessageId>,
    events: Seq<PostEvent>,
)
    requires
        post_answered_in_turn(author_id, channel, reply_to, events),
        posting(author_id, channel, reply_to, events).1 == PostAction::Save,
    ensures
        post_checks_passed(channel, reply_to, events),
        posting(author_id, channel, reply_to, events).0 == PostStage::Over,
{
    assert(events.len() > 0);
    let before = events.drop_last();
    let prev = posting(author_id, channel, reply_to, before).0;
    assert(post_awaits(prev, events.last()));
    assert(prev == PostStage::Body);
    lemma_posting_path(author_id, channel, reply_to, before);
    assert forall|k: int| 0 <= k < before.len() implies events[k] == before[k] by {}
}

/// How a refusal to post reads, for every refusal but the body's, which
/// carries the domain's own error.
pub fn post_refusal_error(refusal: PostRefusal) -> (r: ApplicationError)
    requires
        refusal != PostRefusal::InvalidBody,
    ensures
        match refusal {
            PostRefusal::UnknownAuthor(id) => r matches ApplicationError::NotFound(m) && m@
                == "user "@ + user_id_text(id),
            PostRefusal::UnknownRoom(id) => r matches ApplicationError::NotFound(m) && m@
                == "market "@ + market_id_text(id),
            PostRefusal::UnknownQuote(id) => r matches ApplicationError::NotFound(m) && m@
                == unknown_message_text(id),
            PostRefusal::InvalidBody => false,
        },
{
    proof {
        reveal_strlit("user");
        reveal_strlit("user ");
        reveal_strlit("market");
        reveal_strlit("market ");
        reveal_strlit(" ");
    }
    match refusal {
        PostRefusal::UnknownAuthor(id) => ApplicationError::NotFound(
            described("user", id.to_text().as_str()),
        ),
        PostRefusal::UnknownRoom(id) => ApplicationError::NotFound(
            described("market", id.to_text().as_str()),
        ),
        PostRefusal::UnknownQuote(id) => unknown_message(id),
        PostRefusal::InvalidBody => unknown_message(MessageId(0)),
    }
}

/// How far opening a page of history has got.
#[derive(Debug, Clone, Copy, PartialEq, Eq, Structural)]
pub enum PageStage {
    /// Waiting to hear whether the room's market is still there.
    Room,
    /// Waiting for the message the window is anchored on.
    Anchor,
    /// Listing or refused: nothing more is asked.
    Over,
}

/// An answer handed to [`page_step`].
pub enum PageEvent {
    /// Whether the room's market was found.
    Room(bool),
    /// The message with the anchor's id, if any.
    Anchor(Option<ChatMessage>),
}

/// Why a page is refused.
#[derive(Debug, Clone, Copy, PartialEq, Eq, Structural)]
pub enum PageRefusal {
    UnknownRoom(MarketId),
    /// The window asked for both directions at once.
    BothDirections,
    /// The anchor is gone or is another room's message.
    UnknownAnchor(MessageId),
}

/// Where a page runs from: the side of the anchor message it lies on.
#[derive(Debug, Clone, Copy, PartialEq, Eq, Structural)]
pub struct PageCursor {
    pub anchor: MessageId,
    pub side: CursorSide,
}

/// What opening a page does next.
#[derive(Debug, Clone, Copy, PartialEq, Eq, Structural)]
pub enum PageAction {
    LoadRoom(MarketId),
    LoadAnchor(MessageId),
    /// List the page: the latest one, or the one on the cursor's side of its
    /// anchor message, which is excluded.
    List(Option<PageCursor>),
    Refuse(PageRefusal),
}

pub open spec fn page_awaits(stage: PageStage, event: PageEvent) -> bool {
    match (stage, event) {
        (PageStage::Room, PageEvent::Room(_)) => true,
        (PageStage::Anchor, PageEvent::Anchor(_)) => true,
        _ => false,
    }
}

/// The anchor a window names, as a spec.
pub open spec fn anchor_of(window: HistoryWindow) -> Option<Option<PageCursor>> {
    match (window.before, window.after) {
        (None, None) => Some(None),
        (Some(b), None) => Some(Some(PageCursor { anchor: b, side: CursorSide::Before })),
        (None, Some(a)) => Some(Some(PageCursor { anchor: a, side: CursorSide::After })),
        (Some(_), Some(_)) => None,
    }
}

/// What comes once the room is settled: the anchor, if the window names one.
pub open spec fn after_page_room(window: HistoryWindow) -> (PageStage, PageAction) {
    match anchor_of(window) {
        None => (PageStage::Over, PageAction::Refuse(PageRefusal::BothDirections)),
        Some(None) => (PageStage::Over, PageAction::List(None)),
        Some(Some(c)) => (PageStage::Anchor, PageAction::LoadAnchor(c.anchor)),
    }
}

/// Where opening a page starts: at the room's market for a market room.
pub open spec fn page_begin(channel: ChatChannel, window: HistoryWindow) -> (PageStage, PageAction) {
    match channel {
        ChatChannel::Market(m) => (PageStage::Room, PageAction::LoadRoom(m)),
        ChatChannel::Global => after_page_room(window),
    }
}

pub open spec fn page_next(stage: PageStage, channel: ChatChannel, window: HistoryWindow, event: PageEvent) -> (PageStage, PageAction) {
    match (stage, event) {
        (PageStage::Room, PageEvent::Room(found)) => if found {
            after_page_room(window)
        } else {
            (PageStage::Over, PageAction::Refuse(PageRefusal::UnknownRoom(channel->Market_0)))
        },
        (PageStage::Anchor, PageEvent::Anchor(found)) => {
            let named = anchor_of(window)->Some_0->Some_0;
            match found {
                Some(m) if m.channel == channel => (PageStage::Over, PageAction::List(Some(named))),
                _ => (PageStage::Over, PageAction::Refuse(PageRefusal::UnknownAnchor(named.anchor))),
            }
        },
        _ => vstd::pervasive::arbitrary(),
    }
}

fn after_page_room_exec(window: HistoryWindow) -> (r: (PageStage, PageAction))
    ensures
        r == after_page_room(window),
{
    match window_anchor(window) {
        Err(_) => (PageStage::Over, PageAction::Refuse(PageRefusal::BothDirections)),
        Ok(None) => (PageStage::Over, PageAction::List(None)),
        Ok(Some((id, _))) => (PageStage::Anchor, PageAction::LoadAnchor(id)),
    }
}

/// Where opening a page starts: a market room's market must be there first
/// (reading a room that does not exist is an error, not an empty page).
pub fn page_start(channel: ChatChannel, window: HistoryWindow) -> (r: (PageStage, PageAction))
    ensures
        r == page_begin(channel, window),
{
    match channel {
        ChatChannel::Market(m) => (PageStage::Room, PageAction::LoadRoom(m)),
        ChatChannel::Global => after_page_room_exec(window),
    }
}

/// One step of opening a page: the room, then the anchor, which has to be a
/// message of this very room (paging from another room's message would
/// return an arbitrary page).
pub fn page_step(stage: PageStage, channel: ChatChannel, window: HistoryWindow, event: &PageEvent) -> (r: (PageStage, PageAction))
    requires
        page_awaits(stage, *event),
        stage == PageStage::Room ==> channel is Market,
        stage == PageStage::Anchor ==> anchor_of(window) matches Some(Some(_)),
    ensures
        r == page_next(stage, channel, window, *event),
{
    let unexpected = (PageStage::Over, PageAction::Refuse(PageRefusal::BothDirections));
    match stage {
        PageStage::Room => match event {
            PageEvent::Room(found) => if *found {
                after_page_room_exec(window)
            } else {
                match channel {
                    ChatChannel::Market(m) => (PageStage::Over, PageAction::Refuse(PageRefusal::UnknownRoom(m))),
                    ChatChannel::Global => unexpected,
                }
            },
            _ => unexpected,
        },
        PageStage::Anchor => match event {
            PageEvent::Anchor(found) => {
                let named = match window_anchor(window) {
                    Ok(Some((anchor, side))) => PageCursor { anchor, side },
                    _ => {
                        return unexpected;
                    },
                };
                match found {
                    Some(m) => if m.channel == channel {
                        (PageStage::Over, PageAction::List(Some(named)))
                    } else {
                        (PageStage::Over, PageAction::Refuse(PageRefusal::UnknownAnchor(named.anchor)))
                    },
                    None => (PageStage::Over, PageAction::Refuse(PageRefusal::UnknownAnchor(named.anchor))),
                }
            },
            _ => unexpected,
        },
        PageStage::Over => unexpected,
    }
}

/// How a refusal to open a page reads.
pub fn page_refusal_error(refusal: PageRefusal) -> (r: ApplicationError)
    ensures
        match refusal {
            PageRefusal::UnknownRoom(id) => r matches ApplicationError::NotFound(m) && m@
                == "market "@ + market_id_text(id),
            PageRefusal::BothDirections => r matches ApplicationError::Domain(
                DomainError::Validation(m),
            ) && m@ == "before_uuid and after_uuid are mutually exclusive"@,
            PageRefusal::UnknownAnchor(id) => r matches ApplicationError::NotFound(m) && m@
                == unknown_message_text(id),
        },
{
    proof {
        reveal_strlit("market");
        reveal_strlit("market ");
        reveal_strlit(" ");
    }
    match refusal {
        PageRefusal::UnknownRoom(id) => ApplicationError::NotFound(
            described("market", id.to_text().as_str()),
        ),
        PageRefusal::BothDirections => ApplicationError::Domain(
            DomainError::Validation(
                String::from_str("before_uuid and after_uuid are mutually exclusive"),
            ),
        ),
        PageRefusal::UnknownAnchor(id) => unknown_message(id),
    }
}

/// Where opening a page stands after `events`, answered in order.
pub open spec fn opening(channel: ChatChannel, window: HistoryWindow, events: Seq<PageEvent>) -> (PageStage, PageAction)
    decreases events.len(),
{
    if events.len() == 0 {
        page_begin(channel, window)
    } else {
        page_next(opening(channel, window, events.drop_last()).0, channel, window, events.last())
    }
}

pub open spec fn page_answered_in_turn(channel: ChatChannel, window: HistoryWindow, events: Seq<PageEvent>) -> bool
    decreases events.len(),
{
    events.len() == 0 || (page_answered_in_turn(channel, window, events.drop_last()) && page_awaits(
        opening(channel, window, events.drop_last()).0,
        events.last(),
    ))
}

/// A page is listed only when its room exists and its window is sound: a
/// market room's market was found; the window named at most one direction;
/// and when it named an anchor, the page runs from that anchor on the named
/// side, and the anchor was found among this very room's messages.
pub open spec fn page_checks_passed(
    channel: ChatChannel,
    window: HistoryWindow,
    events: Seq<PageEvent>,
    cursor: Option<PageCursor>,
) -> bool {
    let room = if channel is Market { 1int } else { 0int };
    &&& channel is Market ==> events[0] == PageEvent::Room(true)
    &&& anchor_of(window) == Some(cursor)
    &&& cursor is None ==> events.len() == room
    &&& cursor is Some ==> events.len() == room + 1 && (events[room] matches PageEvent::Anchor(Some(m))
        && m.channel == channel)
}

proof fn lemma_opening_path(channel: ChatChannel, window: HistoryWindow, events: Seq<PageEvent>)
    requires
        page_answered_in_turn(channel, window, events),
        opening(channel, window, events).0 != PageStage::Over,
    ensures
        opening(channel, window, events).0 == PageStage::Room ==> events.len() == 0 && channel is Market,
        opening(channel, window, events).0 == PageStage::Anchor ==> events.len() == (if channel is Market { 1int } else { 0int })
            && (anchor_of(window) matches Some(Some(_))),
        opening(channel, window, events).0 == PageStage::Anchor && channel is Market ==> events[0] == PageEvent::Room(true),
    decreases events.len(),
{
    if events.len() > 0 {
        lemma_opening_path(channel, window, events.drop_last());
    }
}

/// A page is listed only after its checks passed (see
/// [`page_checks_passed`]).
pub proof fn a_page_is_listed_only_from_a_sound_window(channel: ChatChannel, window: HistoryWindow, events: Seq<PageEvent>)
    requires
        page_answered_in_turn(channel, window, events),
        (opening(channel, window, events).1 is List),
    ensures
        page_checks_passed(channel, window, events, opening(channel, window, events).1->List_0),
        opening(channel, window, events).0 == PageStage::Over,
{
    if events.len() > 0 {
        let before = events.drop_last();
        let prev = opening(channel, window, before).0;
        assert(page_awaits(prev, events.last()));
        lemma_opening_path(channel, window, before);
        assert forall|k: int| 0 <= k < before.len() implies events[k] == before[k] by {}
    }
}

/// The answers a room check gives when the room is there: one for a market
/// room, none for the global room, which always is.
pub open spec fn room_found(channel: ChatChannel) -> Seq<PageEvent> {
    if channel is Market {
        seq![PageEvent::Room(true)]
    } else {
        Seq::empty()
    }
}

/// Opening a page goes exactly as the window and the answers say. A market
/// room whose market is gone is refused as unknown. Once the room is there:
/// a window with neither side lists the latest page; a window with both is
/// refused; a window with one side loads that anchor and, when the anchor is
/// a message of this room, lists the page on that side of it (before or
/// after alike), and otherwise refuses the anchor as unknown.
pub proof fn a_page_opens_on_either_side_of_an_anchor_of_its_room(
    channel: ChatChannel,
    window: HistoryWindow,
    found: Option<ChatMessage>,
)
    ensures
        channel matches ChatChannel::Market(m) ==> opening(channel, window, Seq::empty()) == (
            PageStage::Room,
            PageAction::LoadRoom(m),
        ) && opening(channel, window, seq![PageEvent::Room(false)]) == (
            PageStage::Over,
            PageAction::Refuse(PageRefusal::UnknownRoom(m)),
        ),
        window.before is None && window.after is None ==> opening(channel, window, room_found(channel)) == (
            PageStage::Over,
            PageAction::List(None),
        ),
        window.before is Some && window.after is Some ==> opening(channel, window, room_found(channel)) == (
            PageStage::Over,
            PageAction::Refuse(PageRefusal::BothDirections),
        ),
        window.before is Some && window.after is None ==> ({
            let b = window.before->Some_0;
            &&& opening(channel, window, room_found(channel)) == (PageStage::Anchor, PageAction::LoadAnchor(b))
            &&& opening(channel, window, room_found(channel).push(PageEvent::Anchor(found))) == if found is Some && found->Some_0.channel == channel {
                (PageStage::Over, PageAction::List(Some(PageCursor { anchor: b, side: CursorSide::Before })))
            } else {
                (PageStage::Over, PageAction::Refuse(PageRefusal::UnknownAnchor(b)))
            }
        }),
        window.after is Some && window.before is None ==> ({
            let a = window.after->Some_0;
            &&& opening(channel, window, room_found(channel)) == (PageStage::Anchor, PageAction::LoadAnchor(a))
            &&& opening(channel, window, room_found(channel).push(PageEvent::Anchor(found))) == if found is Some && found->Some_0.channel == channel {
                (PageStage::Over, PageAction::List(Some(PageCursor { anchor: a, side: CursorSide::After })))
            } else {
                (PageStage::Over, PageAction::Refuse(PageRefusal::UnknownAnchor(a)))
            }
        }),
{
    let e: Seq<PageEvent> = Seq::empty();
    let rf = seq![PageEvent::Room(false)];
    let rooms = room_found(channel);
    let longer = rooms.push(PageEvent::Anchor(found));
    assert(rf.drop_last() =~= e);
    assert(rf.last() == PageEvent::Room(false));
    assert(longer.drop_last() =~= rooms);
    assert(longer.last() == PageEvent::Anchor(found));
    assert(opening(channel, window, e) == page_begin(channel, window));
    if channel is Market {
        assert(rooms.drop_last() =~= e);
        assert(rooms.last() == PageEvent::Room(true));
        assert(opening(channel, window, rooms) == after_page_room(window));
    } else {
        assert(rooms =~= e);
        assert(opening(channel, window, rooms) == after_page_room(window));
    }
}

/// The answers when `author` is found and, in a market room, its market is.
pub open spec fn author_and_room_found(channel: ChatChannel, author: User) -> Seq<PostEvent> {
    if channel is Market {
        seq![PostEvent::Author(Some(author)), PostEvent::Room(true)]
    } else {
        seq![PostEvent::Author(Some(author))]
    }
}

/// Posting goes exactly as the answers say, in every room, the global one
/// included. An author who is not found is refused; a market room whose
/// market is gone is refused as unknown. With the author and room there, a
/// reply loads its quote, which is kept exactly when it is a message of this
/// same room and its author is found (else the quote is refused as unknown);
/// then the body decides: a valid one is saved, any other refused.
pub proof fn a_message_is_saved_whenever_its_checks_pass(
    author_id: UserId,
    channel: ChatChannel,
    reply_to: Option<MessageId>,
    author: User,
    found: Option<ChatMessage>,
    quoted: ChatMessage,
    quote_author_found: bool,
    valid: bool,
)
    ensures
        posting(author_id, channel, reply_to, Seq::empty()) == (PostStage::Author, PostAction::LoadAuthor(author_id)),
        posting(author_id, channel, reply_to, seq![PostEvent::Author(None)]) == (
            PostStage::Over,
            PostAction::Refuse(PostRefusal::UnknownAuthor(author_id)),
        ),
        channel is Market ==> posting(author_id, channel, reply_to, seq![PostEvent::Author(Some(author))]) == (
            PostStage::Room,
            PostAction::LoadRoom(channel->Market_0),
        ) && posting(
            author_id,
            channel,
            reply_to,
            seq![PostEvent::Author(Some(author)), PostEvent::Room(false)],
        ) == (PostStage::Over, PostAction::Refuse(PostRefusal::UnknownRoom(channel->Market_0))),
        reply_to is None ==> posting(author_id, channel, reply_to, author_and_room_found(channel, author)) == (
            PostStage::Body,
            PostAction::CheckBody,
        ) && posting(
            author_id,
            channel,
            reply_to,
            author_and_room_found(channel, author).push(PostEvent::Body(valid)),
        ) == if valid {
            (PostStage::Over, PostAction::Save)
        } else {
            (PostStage::Over, PostAction::Refuse(PostRefusal::InvalidBody))
        },
        reply_to is Some ==> ({
            let q = reply_to->Some_0;
            let before = author_and_room_found(channel, author);
            &&& posting(author_id, channel, reply_to, before) == (PostStage::Quote, PostAction::LoadQuote(q))
            &&& posting(author_id, channel, reply_to, before.push(PostEvent::Quote(found))) == if found is Some
                && found->Some_0.channel == channel {
                (PostStage::QuoteAuthor, PostAction::LoadQuoteAuthor(found->Some_0.author_id))
            } else {
                (PostStage::Over, PostAction::Refuse(PostRefusal::UnknownQuote(q)))
            }
            &&& quoted.channel == channel ==> posting(
                author_id,
                channel,
                reply_to,
                before.push(PostEvent::Quote(Some(quoted))).push(PostEvent::QuoteAuthor(quote_author_found)),
            ) == if quote_author_found {
                (PostStage::Body, PostAction::CheckBody)
            } else {
                (PostStage::Over, PostAction::Refuse(PostRefusal::UnknownQuote(q)))
            }
            &&& quoted.channel == channel ==> posting(
                author_id,
                channel,
                reply_to,
                before.push(PostEvent::Quote(Some(quoted))).push(PostEvent::QuoteAuthor(true)).push(
                    PostEvent::Body(valid),
                ),
            ) == if valid {
                (PostStage::Over, PostAction::Save)
            } else {
                (PostStage::Over, PostAction::Refuse(PostRefusal::InvalidBody))
            }
        }),
{
    let e: Seq<PostEvent> = Seq::empty();
    let a0 = seq![PostEvent::Author(None)];
    let a1 = seq![PostEvent::Author(Some(author))];
    let a1r = seq![PostEvent::Author(Some(author)), PostEvent::Room(false)];
    assert(a0.drop_last() =~= e);
    assert(a1.drop_last() =~= e);
    assert(a1r.drop_last() =~= a1);
    assert(a0.last() == PostEvent::Author(None));
    assert(a1.last() == PostEvent::Author(Some(author)));
    assert(a1r.last() == PostEvent::Room(false));
    assert(posting(author_id, channel, reply_to, e) == (PostStage::Author, PostAction::LoadAuthor(author_id)));
    let before = author_and_room_found(channel, author);
    if channel is Market {
        assert(posting(author_id, channel, reply_to, a1).0 == PostStage::Room);
        assert(before.drop_last() =~= a1);
        assert(before.last() == PostEvent::Room(true));
    } else {
        assert(before =~= a1);
    }
    assert(posting(author_id, channel, reply_to, before) == after_room(reply_to));
    let b1 = before.push(PostEvent::Body(valid));
    assert(b1.drop_last() =~= before);
    let q1 = before.push(PostEvent::Quote(found));
    assert(q1.drop_last() =~= before);
    let qs = before.push(PostEvent::Quote(Some(quoted)));
    assert(qs.drop_last() =~= before);
    let qa = qs.push(PostEvent::QuoteAuthor(quote_author_found));
    assert(qa.drop_last() =~= qs);
    let qt = qs.push(PostEvent::QuoteAuthor(true));
    assert(qt.drop_last() =~= qs);
    let qb = qt.push(PostEvent::Body(valid));
    assert(qb.drop_last() =~= qt);
    if reply_to is Some && quoted.channel == channel {
        assert(posting(author_id, channel, reply_to, qs).0 == PostStage::QuoteAuthor);
        assert(posting(author_id, channel, reply_to, qt).0 == PostStage::Body);
    }
}

} // verus!
