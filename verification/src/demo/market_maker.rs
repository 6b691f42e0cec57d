//! The bot that keeps the board stocked: which question it opens next, which
//! expired market it settles and on what, and how it announces both.

use vstd::prelude::*;

use crate::demo::content::MarketTemplate;
use crate::demo::random::choose_weighted_outcome;
use crate::model::{Outcome, Timestamp};
use crate::text::same_text;
use crate::use_cases::market::{MarketView, NewMarket};

verus! {

/// `title` is the title of one of the live markets.
pub open spec fn is_live(live_titles: Seq<String>, title: Seq<char>) -> bool {
    exists|k: int| 0 <= k < live_titles.len() && (#[trigger] live_titles[k])@ == title
}

/// The templates below `n` whose question is not already live, in order.
pub open spec fn available_below(templates: Seq<MarketTemplate>, live_titles: Seq<String>, n: int) -> Seq<usize>
    decreases n,
{
    if n <= 0 {
        Seq::empty()
    } else if !is_live(live_titles, templates[n - 1].title@) {
        available_below(templates, live_titles, n - 1).push((n - 1) as usize)
    } else {
        available_below(templates, live_titles, n - 1)
    }
}

fn is_live_exec(live_titles: &Vec<String>, title: &str) -> (r: bool)
    ensures
        r == is_live(live_titles@, title@),
{
    let mut k: usize = 0;
    while k < live_titles.len()
        invariant
            k <= live_titles@.len(),
            forall|j: int| 0 <= j < k ==> (#[trigger] live_titles@[j])@ != title@,
        decreases live_titles.len() - k,
    {
        if same_text(live_titles[k].as_str(), title) {
            return true;
        }
        k = k + 1;
    }
    false
}

/// The questions the maker may open: titles are the identity here, so one
/// already live is not opened a second time.
pub fn available_templates(templates: &Vec<MarketTemplate>, live_titles: &Vec<String>) -> (r: Vec<usize>)
    ensures
        r@ == available_below(templates@, live_titles@, templates@.len() as int),
{
    let mut r: Vec<usize> = Vec::new();
    let mut i: usize = 0;
    while i < templates.len()
        invariant
            i <= templates@.len(),
            r@ == available_below(templates@, live_titles@, i as int),
        decreases templates.len() - i,
    {
        if !is_live_exec(live_titles, templates[i].title) {
            r.push(i);
        }
        i = i + 1;
    }
    r
}

/// The indices below `n` of listed markets that are past their deadline
/// (no longer `accepting`) and can be settled (at least two outcomes).
pub open spec fn expired_below(views: Seq<MarketView>, accepting: Seq<bool>, n: int) -> Seq<usize>
    decreases n,
{
    if n <= 0 {
        Seq::empty()
    } else if !accepting[n - 1] && views[n - 1].outcomes@.len() >= 2 {
        expired_below(views, accepting, n - 1).push((n - 1) as usize)
    } else {
        expired_below(views, accepting, n - 1)
    }
}

/// The listed markets due to be settled.
pub fn expired(views: &Vec<MarketView>, accepting: &Vec<bool>) -> (r: Vec<usize>)
    requires
        views@.len() == accepting@.len(),
    ensures
        r@ == expired_below(views@, accepting@, views@.len() as int),
{
    let mut r: Vec<usize> = Vec::new();
    let mut i: usize = 0;
    while i < views.len()
        invariant
            i <= views@.len() == accepting@.len(),
            r@ == expired_below(views@, accepting@, i as int),
        decreases views.len() - i,
    {
        if !accepting[i] && views[i].outcomes.len() >= 2 {
            r.push(i);
        }
        i = i + 1;
    }
    r
}

/// The winning outcome, drawn in proportion to the outcomes' prices (an
/// unbacked outcome still weighs one tick), so the crowd is usually right.
pub fn pick_winner<'a>(outcomes: &'a Vec<Outcome>, rng: &mut rand::rngs::StdRng) -> (r: &'a Outcome)
    requires
        outcomes@.len() > 0,
    ensures
        outcomes@.contains(*r),
{
    match choose_weighted_outcome(outcomes.as_slice(), rng) {
        Some(o) => o,
        None => &outcomes[0],
    }
}

pub open spec fn opened_text(title: Seq<char>) -> Seq<char> {
    "new market open: "@ + title + " \u{1F4CA}"@
}

/// What the maker says in the global room when it opens a market.
pub fn opened_announcement(title: &str) -> (r: String)
    ensures
        r@ == opened_text(title@),
{
    let mut s = String::from_str("new market open: ");
    s.append(title);
    s.append(" \u{1F4CA}");
    s
}

pub open spec fn resolved_text(label: Seq<char>) -> Seq<char> {
    "resolved: "@ + label + " \u{1F3C1} paying out now"@
}

/// What the maker says in a market's room when it settles it.
pub fn resolved_announcement(label: &str) -> (r: String)
    ensures
        r@ == resolved_text(label@),
{
    let mut s = String::from_str("resolved: ");
    s.append(label);
    s.append(" \u{1F3C1} paying out now");
    s
}

/// When a market opened at `opened_at` for `hours` hours closes: the same
/// instant `hours` hours later, or `None` where that is past what a timestamp
/// holds.
pub fn closing_time(opened_at: Timestamp, hours: i64) -> (r: Option<Timestamp>)
    ensures
        match r {
            Some(t) => t.secs == opened_at.secs + hours * 3600 && t.nanos == opened_at.nanos,
            None => !(i64::MIN <= opened_at.secs + hours * 3600 <= i64::MAX),
        },
{
    let wide: i128 = opened_at.secs as i128 + hours as i128 * 3600;
    if wide < i64::MIN as i128 || wide > i64::MAX as i128 {
        None
    } else {
        Some(Timestamp { secs: wide as i64, nanos: opened_at.nanos })
    }
}

/// The market a template opens, closing at `closes_at`.
pub fn new_market_for(template: &MarketTemplate, closes_at: Timestamp) -> (r: NewMarket)
    ensures
        r.title@ == template.title@,
        r.description matches Some(d) && d@ == template.description@,
        r.category matches Some(c) && c@ == template.category@,
        r.closes_at == Some(closes_at),
        r.outcomes@.len() == template.outcomes@.len(),
        forall|i: int|
            0 <= i < template.outcomes@.len() ==> (#[trigger] r.outcomes@[i])@
                == template.outcomes@[i]@,
{
    let mut outcomes: Vec<String> = Vec::new();
    let mut i: usize = 0;
    while i < template.outcomes.len()
        invariant
            i <= template.outcomes@.len(),
            outcomes@.len() == i,
            forall|k: int| 0 <= k < i ==> (#[trigger] outcomes@[k])@ == template.outcomes@[k]@,
        decreases template.outcomes.len() - i,
    {
        outcomes.push(template.outcomes[i].to_owned());
        i = i + 1;
    }
    NewMarket {
        title: template.title.to_owned(),
        description: Some(template.description.to_owned()),
        category: Some(template.category.to_owned()),
        closes_at: Some(closes_at),
        outcomes,
    }
}

/// The maker never opens a question that is already live: every template
/// `available_templates` offers has a title no live market has, and every
/// such template is offered.
pub proof fn offered_questions_are_not_live(templates: Seq<MarketTemplate>, live_titles: Seq<String>, n: int)
    requires
        0 <= n <= templates.len(),
        n <= usize::MAX,
    ensures
        forall|j: int|
            0 <= j < available_below(templates, live_titles, n).len() ==> {
                let i = #[trigger] available_below(templates, live_titles, n)[j] as int;
                0 <= i < n && !is_live(live_titles, templates[i].title@)
            },
        forall|i: int|
            0 <= i < n && !is_live(live_titles, templates[i].title@) ==> available_below(
                templates,
                live_titles,
                n,
            ).contains(i as usize),
    decreases n,
{
    if n > 0 {
        offered_questions_are_not_live(templates, live_titles, n - 1);
        let prev = available_below(templates, live_titles, n - 1);
        if !is_live(live_titles, templates[n - 1].title@) {
            let cur = prev.push((n - 1) as usize);
            assert(cur[prev.len() as int] == (n - 1) as usize);
            assert forall|i: int|
                0 <= i < n && !is_live(live_titles, templates[i].title@) implies cur.contains(
                i as usize,
            ) by {
                if i < n - 1 {
                    let w = choose|w: int| 0 <= w < prev.len() && prev[w] == i as usize;
                    assert(cur[w] == i as usize);
                }
            }
        }
    }
}

/// The maker only settles markets past their deadline that can be settled:
/// every index `expired` gives names a market no longer taking bets with at
/// least two outcomes, and every such market is given.
pub proof fn settled_markets_are_past_their_deadline(views: Seq<MarketView>, accepting: Seq<bool>, n: int)
    requires
        0 <= n <= views.len(),
        views.len() == accepting.len(),
        n <= usize::MAX,
    ensures
        forall|j: int|
            0 <= j < expired_below(views, accepting, n).len() ==> {
                let i = #[trigger] expired_below(views, accepting, n)[j] as int;
                &&& 0 <= i < n
                &&& !accepting[i]
                &&& views[i].outcomes@.len() >= 2
            },
        forall|i: int|
            0 <= i < n && !accepting[i] && views[i].outcomes@.len() >= 2 ==> expired_below(
                views,
                accepting,
                n,
            ).contains(i as usize),
    decreases n,
{
    if n > 0 {
        settled_markets_are_past_their_deadline(views, accepting, n - 1);
        let prev = expired_below(views, accepting, n - 1);
        if !accepting[n - 1] && views[n - 1].outcomes@.len() >= 2 {
            let cur = prev.push((n - 1) as usize);
            assert(cur[prev.len() as int] == (n - 1) as usize);
            assert forall|i: int|
                0 <= i < n && !accepting[i] && views[i].outcomes@.len() >= 2 implies cur.contains(
                i as usize,
            ) by {
                if i < n - 1 {
                    let w = choose|w: int| 0 <= w < prev.len() && prev[w] == i as usize;
                    assert(cur[w] == i as usize);
                }
            }
        }
    }
}

} // verus!
