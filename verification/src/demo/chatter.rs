//! The loop that keeps the rooms talking: who a bot may answer, which room
//! it may speak in, and how a market line is filled in from the board.

use vstd::prelude::*;

use crate::demo::random::choose_in;
use crate::model::UserId;
use crate::text::{char_text, chars_of, occurs_at, occurs_at_exec};
use crate::use_cases::chat::ChatMessageView;
use crate::use_cases::market::MarketView;

verus! {

/// The indices below `n` of the recent messages written by anyone but `bot`.
pub open spec fn others_below(recent: Seq<ChatMessageView>, bot: UserId, n: int) -> Seq<usize>
    decreases n,
{
    if n <= 0 {
        Seq::empty()
    } else if recent[n - 1].author.id != bot {
        others_below(recent, bot, n - 1).push((n - 1) as usize)
    } else {
        others_below(recent, bot, n - 1)
    }
}

/// The recent messages written by anyone but `bot`, or `None` when there are
/// none: a bot replying to itself reads as a glitch.
pub fn someone_else(recent: &Vec<ChatMessageView>, bot: UserId) -> (r: Option<Vec<usize>>)
    ensures
        match r {
            Some(v) => v@ == others_below(recent@, bot, recent@.len() as int) && v@.len() > 0,
            None => others_below(recent@, bot, recent@.len() as int).len() == 0,
        },
{
    let mut r: Vec<usize> = Vec::new();
    let mut i: usize = 0;
    while i < recent.len()
        invariant
            i <= recent@.len(),
            r@ == others_below(recent@, bot, i as int),
        decreases recent.len() - i,
    {
        if recent[i].author.id != bot {
            r.push(i);
        }
        i = i + 1;
    }
    if r.len() == 0 {
        None
    } else {
        Some(r)
    }
}

/// One line out of a pool, or "gm" should the pool ever be empty.
pub fn pick(lines: &[&'static str], rng: &mut rand::rngs::StdRng) -> (r: &'static str)
    ensures
        lines@.len() > 0 ==> lines@.contains(r),
        lines@.len() == 0 ==> r@ == "gm"@,
{
    match choose_in(lines, rng) {
        Some(l) => *l,
        None => "gm",
    }
}

/// The indices below `n` of listed markets a bot may chat in: still taking
/// bets and with something on the board.
pub open spec fn rooms_below(views: Seq<MarketView>, accepting: Seq<bool>, n: int) -> Seq<usize>
    decreases n,
{
    if n <= 0 {
        Seq::empty()
    } else if accepting[n - 1] && views[n - 1].outcomes@.len() > 0 {
        rooms_below(views, accepting, n - 1).push((n - 1) as usize)
    } else {
        rooms_below(views, accepting, n - 1)
    }
}

/// The market rooms a bot may speak in.
pub fn open_rooms(views: &Vec<MarketView>, accepting: &Vec<bool>) -> (r: Vec<usize>)
    requires
        views@.len() == accepting@.len(),
    ensures
        r@ == rooms_below(views@, accepting@, views@.len() as int),
{
    let mut r: Vec<usize> = Vec::new();
    let mut i: usize = 0;
    while i < views.len()
        invariant
            i <= views@.len() == accepting@.len(),
            r@ == rooms_below(views@, accepting@, i as int),
        decreases views.len() - i,
    {
        if accepting[i] && views[i].outcomes.len() > 0 {
            r.push(i);
        }
        i = i + 1;
    }
    r
}

/// `s[i..]` with every occurrence of `pat` replaced by `with`, scanning left
/// to right and never overlapping: what `str::replace` does.
pub open spec fn replaced_from(s: Seq<char>, pat: Seq<char>, with: Seq<char>, i: int) -> Seq<char>
    decreases s.len() - i,
{
    if i < 0 || i >= s.len() || pat.len() == 0 {
        if 0 <= i <= s.len() {
            s.subrange(i, s.len() as int)
        } else {
            Seq::empty()
        }
    } else if occurs_at(s, pat, i) {
        with + replaced_from(s, pat, with, i + pat.len())
    } else {
        seq![s[i]] + replaced_from(s, pat, with, i + 1)
    }
}

pub open spec fn replaced(s: Seq<char>, pat: Seq<char>, with: Seq<char>) -> Seq<char> {
    replaced_from(s, pat, with, 0)
}

/// `s` with every occurrence of `pat` replaced by `with`.
pub fn replace_all(s: &str, pat: &str, with: &str) -> (r: String)
    requires
        pat@.len() > 0,
    ensures
        r@ == replaced(s@, pat@, with@),
{
    let v = chars_of(s);
    let p = chars_of(pat);
    let mut out = String::new();
    let mut i: usize = 0;
    while i < v.len()
        invariant
            v@ == s@,
            p@ == pat@,
            p@.len() > 0,
            i <= v@.len(),
            out@ + replaced_from(v@, p@, with@, i as int) == replaced(v@, p@, with@),
        decreases v.len() - i,
    {
        let ghost before = out@;
        if occurs_at_exec(&v, &p, i) {
            out.append(with);
            assert(before + replaced_from(v@, p@, with@, i as int) == before + (with@
                + replaced_from(v@, p@, with@, i + p@.len())));
            assert(out@ + replaced_from(v@, p@, with@, i + p@.len()) =~= before + (with@
                + replaced_from(v@, p@, with@, i + p@.len())));
            i = i + p.len();
        } else {
            out.append(char_text(v[i]).as_str());
            assert(out@ + replaced_from(v@, p@, with@, i + 1) =~= before + (seq![v@[i as int]]
                + replaced_from(v@, p@, with@, i + 1)));
            i = i + 1;
        }
    }
    assert(replaced_from(v@, p@, with@, i as int) =~= Seq::<char>::empty());
    assert(out@ =~= out@ + Seq::<char>::empty());
    out
}

/// A market line filled in from a real outcome: `{outcome}` with its label,
/// `{price}` with its price as written for people, `{title}` with the
/// question, in that order.
pub open spec fn filled_line(line: Seq<char>, label: Seq<char>, price: Seq<char>, title: Seq<char>) -> Seq<char> {
    replaced(replaced(replaced(line, "{outcome}"@, label), "{price}"@, price), "{title}"@, title)
}

pub fn fill_market_line(line: &str, label: &str, price: &str, title: &str) -> (r: String)
    ensures
        r@ == filled_line(line@, label@, price@, title@),
{
    proof {
        reveal_strlit("{outcome}");
        reveal_strlit("{price}");
        reveal_strlit("{title}");
    }
    let a = replace_all(line, "{outcome}", label);
    let b = replace_all(a.as_str(), "{price}", price);
    replace_all(b.as_str(), "{title}", title)
}

/// A bot never answers itself: every message `someone_else` offers was
/// written by someone else, and every such message is offered.
pub proof fn bots_never_answer_themselves(recent: Seq<ChatMessageView>, bot: UserId, n: int)
    requires
        0 <= n <= recent.len(),
        n <= usize::MAX,
    ensures
        forall|j: int|
            0 <= j < others_below(recent, bot, n).len() ==> {
                let i = #[trigger] others_below(recent, bot, n)[j] as int;
                0 <= i < n && recent[i].author.id != bot
            },
        forall|i: int|
            0 <= i < n && recent[i].author.id != bot ==> others_below(recent, bot, n).contains(
                i as usize,
            ),
    decreases n,
{
    if n > 0 {
        bots_never_answer_themselves(recent, bot, n - 1);
        let prev = others_below(recent, bot, n - 1);
        if recent[n - 1].author.id != bot {
            let cur = prev.push((n - 1) as usize);
            assert(cur[prev.len() as int] == (n - 1) as usize);
            assert forall|i: int| 0 <= i < n && recent[i].author.id != bot implies cur.contains(
                i as usize,
            ) by {
                if i < n - 1 {
                    let w = choose|w: int| 0 <= w < prev.len() && prev[w] == i as usize;
                    assert(cur[w] == i as usize);
                }
            }
        }
    }
}

/// Bots only speak in market rooms that still take bets and have something
/// on the board: every index `open_rooms` gives names such a market, and
/// every such market is given.
pub proof fn rooms_spoken_in_are_open(views: Seq<MarketView>, accepting: Seq<bool>, n: int)
    requires
        0 <= n <= views.len(),
        views.len() == accepting.len(),
        n <= usize::MAX,
    ensures
        forall|j: int|
            0 <= j < rooms_below(views, accepting, n).len() ==> {
                let i = #[trigger] rooms_below(views, accepting, n)[j] as int;
                &&& 0 <= i < n
                &&& accepting[i]
                &&& views[i].outcomes@.len() > 0
            },
        forall|i: int|
            0 <= i < n && accepting[i] && views[i].outcomes@.len() > 0 ==> rooms_below(
                views,
                accepting,
                n,
            ).contains(i as usize),
    decreases n,
{
    if n > 0 {
        rooms_spoken_in_are_open(views, accepting, n - 1);
        let prev = rooms_below(views, accepting, n - 1);
        if accepting[n - 1] && views[n - 1].outcomes@.len() > 0 {
            let cur = prev.push((n - 1) as usize);
            assert(cur[prev.len() as int] == (n - 1) as usize);
            assert forall|i: int|
                0 <= i < n && accepting[i] && views[i].outcomes@.len() > 0 implies cur.contains(
                i as usize,
            ) by {
                if i < n - 1 {
                    let w = choose|w: int| 0 <= w < prev.len() && prev[w] == i as usize;
                    assert(cur[w] == i as usize);
                }
            }
        }
    }
}

} // verus!
