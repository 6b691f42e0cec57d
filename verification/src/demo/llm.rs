//! What the bots say when a local language model writes their chat: who
//! each bot is told to be, and how an answer is cut down to one postable line
//! or to the candidates for a single reaction emoji.
//!
//! The round trip to the model server and the domain's final say on a chat
//! body or a reaction live with the caller; everything between the raw answer
//! and that final say is here.

use vstd::prelude::*;
use vstd::string::*;
use vstd::utf8::*;

use crate::use_cases::chat::ChatMessageView;
use crate::use_cases::market::MarketView;
use crate::text::{
    char_text, chars_of, eq_ignore_ascii_case, first_index_from, first_index_from_exec, last_index_below,
    last_index_below_exec, last_occurrence, last_occurrence_exec, same_ignoring_ascii_case,
    skip_end, strips, trim_bounds, trim_end_of, trim_of, trim_start_of, trim_with, trimmed, Strip,
};

verus! {

/// Longest line we will post. Anything past this is cut back to a word
/// boundary rather than rejected.
pub const MAX_CHARS: usize = 180;

/// What makes a bot sound like itself rather than like the others. One
/// sentence each, keyed by bot name.
pub const TEMPERAMENTS: [(&'static str, &'static str); 17] = [
    (
        "the_oracle",
        "You opened half these markets and you talk like the house: every take in here is a donation.",
    ),
    (
        "hedge_hana",
        "You hedge everything and think everyone else in here is one bad print from zero.",
    ),
    (
        "long_leo",
        "You are long everything forever, you buy every dip, and you think bears are just slow.",
    ),
    (
        "short_sasha",
        "You think it is all a bubble and you are waiting, loudly, to say you told them so.",
    ),
    (
        "odds_omar",
        "You quote the implied odds back at people and treat anyone who cannot do the arithmetic as free money.",
    ),
    (
        "delta_dana",
        "You are the smartest quant in the room and you explain, slowly, why the last message was wrong.",
    ),
    (
        "spread_sven",
        "You only care about the spread and you tell everyone how badly they are getting filled.",
    ),
    (
        "chalk_chloe",
        "You back the favourite every time and you laugh at whoever is chasing a longshot.",
    ),
    ("parlay_pia", "You stack absurd parlays and call anyone betting one leg boring."),
    (
        "tilt_tomas",
        "You are permanently tilted, loud about your losses, and certain the market is rigged against you.",
    ),
    ("arb_arjun", "Whatever is being discussed, you already arbed it, and you mention that."),
    (
        "punt_priya",
        "You bet on gut feeling and you mock everyone who needs a spreadsheet to press a button.",
    ),
    (
        "edge_elena",
        "You have edge on everything and you are insufferable about the people who do not.",
    ),
    (
        "fade_felix",
        "You fade this room on principle, because the crowd in here has never been right yet.",
    ),
    (
        "vega_vik",
        "You trade the volatility and you find the room's certainty about anything hilarious.",
    ),
    (
        "yield_yuki",
        "You grind small consistent profits and you sneer at the gamblers doing it the loud way.",
    ),
    (
        "moon_mika",
        "Everything is going to the moon, you are early, and the doubters are just poor.",
    ),
];

/// The closing tag of a reasoning model's thinking.
pub open spec fn think_close() -> Seq<char> {
    "</think>"@
}

/// What `raw` says after a reasoning model's last closing tag, or all of it
/// when there is none.
pub open spec fn spec_strip_thinking(raw: Seq<char>) -> Seq<char> {
    match last_occurrence(raw, think_close()) {
        Some(i) => raw.subrange(i + think_close().len(), raw.len() as int),
        None => raw,
    }
}

/// `line` without a leading "name:" naming `bot` (case aside), trimmed; any
/// other line unchanged.
pub open spec fn spec_strip_speaker(line: Seq<char>, bot: Seq<char>) -> Seq<char> {
    let k = first_index_from(line, ':', 0);
    if k < line.len() && same_ignoring_ascii_case(trimmed(line.subrange(0, k)), bot) {
        trimmed(line.subrange(k + 1, line.len() as int))
    } else {
        line
    }
}

/// `line` cut back to at most `MAX_CHARS` characters at a word boundary, with
/// dangling punctuation and whitespace dropped; a short enough line unchanged.
pub open spec fn spec_shorten(line: Seq<char>) -> Seq<char> {
    if line.len() <= MAX_CHARS {
        line
    } else {
        let head = line.subrange(0, MAX_CHARS as int);
        let kept = match last_index_below(head, ' ', MAX_CHARS as nat) {
            Some(j) => head.subrange(0, j),
            None => head,
        };
        trimmed(trim_end_of(kept, Strip::DanglingMarks))
    }
}

/// The first line of `s[start..]` that is not blank, trimmed, scanning from `i`.
pub open spec fn first_nonblank_line_from(s: Seq<char>, start: int, i: int) -> Option<Seq<char>>
    decreases s.len() - i,
{
    if i < start || start < 0 || i >= s.len() {
        let seg = trimmed(s.subrange(start, s.len() as int));
        if 0 <= start <= s.len() && seg.len() > 0 {
            Some(seg)
        } else {
            None
        }
    } else if s[i] == '\n' {
        let seg = trimmed(s.subrange(start, i));
        if seg.len() > 0 {
            Some(seg)
        } else {
            first_nonblank_line_from(s, i + 1, i + 1)
        }
    } else {
        first_nonblank_line_from(s, start, i + 1)
    }
}

/// The first line of `s` with something on it, trimmed: what
/// `s.lines().map(str::trim).find(|l| !l.is_empty())` finds.
pub open spec fn first_nonblank_line(s: Seq<char>) -> Option<Seq<char>> {
    first_nonblank_line_from(s, 0, 0)
}

/// A model's answer as a candidate chat line: the thinking dropped, the first
/// non-blank line, unwrapped from quotes, without the speaker's own name, cut
/// to length.
pub open spec fn spec_tidy_line(raw: Seq<char>, bot: Seq<char>) -> Option<Seq<char>> {
    match first_nonblank_line(spec_strip_thinking(raw)) {
        Some(line) => {
            let said = spec_shorten(
                spec_strip_speaker(trimmed(trim_of(line, Strip::WrappingMarks)), bot),
            );
            if said.len() == 0 {
                None
            } else {
                Some(said)
            }
        },
        None => None,
    }
}

/// The index of the first temperament whose name matches `bot` (case
/// aside), searching from `i`.
pub open spec fn named_temperament_from(bot: Seq<char>, i: int) -> Option<int>
    decreases 17 - i,
{
    if i < 0 || i >= 17 {
        None
    } else if same_ignoring_ascii_case(TEMPERAMENTS[i].0@, bot) {
        Some(i)
    } else {
        named_temperament_from(bot, i + 1)
    }
}

/// The sum of `bytes`.
pub open spec fn byte_total(bytes: Seq<u8>) -> nat
    decreases bytes.len(),
{
    if bytes.len() == 0 {
        0
    } else {
        byte_total(bytes.drop_last()) + bytes.last() as nat
    }
}

/// The temperament of `bot`: its own when the table names it, otherwise one
/// borrowed by the sum of its UTF-8 bytes.
pub open spec fn temperament_of(bot: Seq<char>) -> Seq<char> {
    match named_temperament_from(bot, 0) {
        Some(i) => TEMPERAMENTS[i].1@,
        None => TEMPERAMENTS[(byte_total(encode_utf8(bot)) % 17) as int].1@,
    }
}

pub open spec fn persona_head() -> Seq<char> {
    "You are "@
}

pub open spec fn persona_middle() -> Seq<char> {
    ", a regular in the chat of a prediction market site where people bet play money on real events. "@
}

pub open spec fn persona_tail() -> Seq<char> {
    "\nWrite ONE short chat message, lowercase, under 100 characters. Talk trash: mock the take, the position and the price \u{2014} never the person. Nothing about anyone's race, religion, sex, or country, whatever anyone else in the room says. No quotes, no hashtags, no emoji, no explanation of yourself."@
}

/// The system prompt for `bot`.
pub open spec fn persona_of(bot: Seq<char>) -> Seq<char> {
    persona_head() + bot + persona_middle() + temperament_of(bot) + persona_tail()
}

/// Scalars that only mean something attached to another one.
pub open spec fn is_modifier_char(c: char) -> bool {
    let x = c as u32;
    x == 0x200D || x == 0xFE0E || x == 0xFE0F || x == 0x20E3 || (0xE0020 <= x && x <= 0xE007F)
}

/// The characters of `s` that stand on their own, in order.
pub open spec fn standalone_chars(s: Seq<char>) -> Seq<char>
    decreases s.len(),
{
    if s.len() == 0 {
        s
    } else if is_modifier_char(s.last()) {
        standalone_chars(s.drop_last())
    } else {
        standalone_chars(s.drop_last()).push(s.last())
    }
}

/// The texts of `v`.
pub open spec fn texts_of(v: Seq<String>) -> Seq<Seq<char>> {
    v.map_values(|s: String| s@)
}

/// Each of `s` as a text of its own.
pub open spec fn singletons(s: Seq<char>) -> Seq<Seq<char>> {
    s.map_values(|c: char| seq![c])
}

/// The answers to try, in order, as a reaction: the whole trimmed answer when
/// it holds anything standalone, then each standalone scalar of it alone.
pub open spec fn reaction_candidates_of(raw: Seq<char>) -> Seq<Seq<char>> {
    let answer = trimmed(raw);
    let singles = singletons(standalone_chars(answer));
    if standalone_chars(answer).len() > 0 {
        seq![answer] + singles
    } else {
        singles
    }
}

/// Whether `c` only means something attached to another scalar: a zero-width
/// joiner, a presentation selector, the keycap mark or a tag character.
pub fn is_modifier(c: char) -> (r: bool)
    ensures
        r == is_modifier_char(c),
{
    let x = c as u32;
    x == 0x200D || x == 0xFE0E || x == 0xFE0F || x == 0x20E3 || (0xE0020 <= x && x <= 0xE007F)
}

/// Drops a reasoning model's thinking, keeping what it said afterwards.
pub fn strip_thinking(raw: &str) -> (r: &str)
    ensures
        r@ == spec_strip_thinking(raw@),
{
    let v = chars_of(raw);
    let pat = chars_of("</think>");
    match last_occurrence_exec(&v, &pat) {
        Some(i) => {
            assert(i + pat@.len() <= v@.len());
            let n = v.len();
            let m = pat.len();
            assert(i + m <= n);
            raw.substring_char(i + m, n)
        },
        None => raw,
    }
}

/// Drops the "name:" a model prepends once it has been shown a transcript.
/// Only the bot's own name counts, so a line that merely contains a colon
/// survives intact.
pub fn strip_speaker<'a>(line: &'a str, bot: &str) -> (r: &'a str)
    ensures
        r@ == spec_strip_speaker(line@, bot@),
        forall|k: int|
            #[trigger] first_colon_at(line@, k) ==> r@ == (if same_ignoring_ascii_case(
                trimmed(line@.subrange(0, k)),
                bot@,
            ) {
                trimmed(line@.subrange(k + 1, line@.len() as int))
            } else {
                line@
            }),
        !line@.contains(':') ==> r@ == line@,
{
    proof {
        lemma_first_index_is_first(line@, ':', 0);
        assert forall|k: int| #[trigger] first_colon_at(line@, k) implies k == first_index_from(line@, ':', 0) by {
            let f = first_index_from(line@, ':', 0);
            if f < k {
                assert(line@[f] == ':');
            }
            if k < f {
                assert(line@[k] != ':');
            }
        }
        if !line@.contains(':') {
            let f = first_index_from(line@, ':', 0);
            if f < line@.len() {
                assert(line@[f] == ':');
            }
        }
    }
    let v = chars_of(line);
    let k = first_index_from_exec(&v, ':', 0);
    if k < v.len() {
        let name = trim_with(line.substring_char(0, k), Strip::White);
        if eq_ignore_ascii_case(name, bot) {
            return trim_with(line.substring_char(k + 1, v.len()), Strip::White);
        }
    }
    line
}

/// Cuts an overlong line back to a word boundary.
pub fn shorten(line: &str) -> (r: &str)
    ensures
        r@ == spec_shorten(line@),
{
    let v = chars_of(line);
    if v.len() <= MAX_CHARS {
        return line;
    }
    let head = chars_of(line.substring_char(0, MAX_CHARS));
    let end = match last_index_below_exec(&head, ' ', MAX_CHARS) {
        Some(j) => j,
        None => MAX_CHARS,
    };
    assert(head@.subrange(0, MAX_CHARS as int) =~= head@);
    let cut = skip_end(&head, 0, end, Strip::DanglingMarks);
    let (a, b) = trim_bounds(&head, 0, cut, Strip::White);
    assert(head@.subrange(0, end as int).subrange(0, cut as int) =~= head@.subrange(
        0,
        cut as int,
    ));
    line.substring_char(a, b)
}

/// The first line of `s` with something on it, trimmed.
pub fn first_nonblank_line_of<'a>(s: &'a str) -> (r: Option<&'a str>)
    ensures
        match r {
            Some(l) => first_nonblank_line(s@) == Some(l@),
            None => first_nonblank_line(s@) is None,
        },
{
    let v = chars_of(s);
    let mut start: usize = 0;
    let mut i: usize = 0;
    while i < v.len()
        invariant
            v@ == s@,
            start <= i <= v@.len(),
            first_nonblank_line(s@) == first_nonblank_line_from(s@, start as int, i as int),
        decreases v.len() - i,
    {
        if v[i] == '\n' {
            let (a, b) = trim_bounds(&v, start, i, Strip::White);
            if a < b {
                return Some(s.substring_char(a, b));
            }
            start = i + 1;
        }
        i = i + 1;
    }
    let (a, b) = trim_bounds(&v, start, v.len(), Strip::White);
    if a < b {
        Some(s.substring_char(a, b))
    } else {
        None
    }
}

/// Turns whatever a model answered into a candidate chat line, or nothing
/// when nothing is left of it to post.
pub fn tidy_line(raw: &str, bot: &str) -> (r: Option<String>)
    ensures
        match r {
            Some(l) => spec_tidy_line(raw@, bot@) == Some(l@),
            None => spec_tidy_line(raw@, bot@) is None,
        },
{
    let said = strip_thinking(raw);
    let line = match first_nonblank_line_of(said) {
        Some(line) => line,
        None => return None,
    };
    let line = trim_with(line, Strip::WrappingMarks);
    let line = trim_with(line, Strip::White);
    let line = strip_speaker(line, bot);
    let said = shorten(line);
    if said.unicode_len() == 0 {
        None
    } else {
        Some(said.to_owned())
    }
}

/// The sum of `bot`'s UTF-8 bytes.
fn byte_sum(bot: &str) -> (r: u128)
    ensures
        r == byte_total(encode_utf8(bot@)),
{
    let bytes = bot.as_bytes();
    let mut sum: u128 = 0;
    let mut i: usize = 0;
    while i < bytes.len()
        invariant
            i <= bytes@.len(),
            sum == byte_total(bytes@.subrange(0, i as int)),
            sum <= 255 * i,
        decreases bytes.len() - i,
    {
        assert(bytes@.subrange(0, i + 1).drop_last() =~= bytes@.subrange(0, i as int));
        sum = sum + bytes[i] as u128;
        i = i + 1;
    }
    assert(bytes@.subrange(0, bytes@.len() as int) =~= bytes@);
    sum
}

/// The temperament for `bot`. A name the table does not know borrows one by
/// the sum of its bytes, so the same name always gets the same voice.
pub fn temperament(bot: &str) -> (r: &'static str)
    ensures
        r@ == temperament_of(bot@),
{
    let mut i: usize = 0;
    while i < 17
        invariant
            i <= 17,
            named_temperament_from(bot@, 0) == named_temperament_from(bot@, i as int),
        decreases 17 - i,
    {
        if eq_ignore_ascii_case(TEMPERAMENTS[i].0, bot) {
            return TEMPERAMENTS[i].1;
        }
        i = i + 1;
    }
    let seed = byte_sum(bot);
    TEMPERAMENTS[(seed % 17) as usize].1
}

/// Who the bot is and what a usable answer looks like.
pub fn persona(bot: &str) -> (r: String)
    ensures
        r@ == persona_of(bot@),
{
    let mut p = String::from_str("You are ");
    p.append(bot);
    p.append(
        ", a regular in the chat of a prediction market site where people bet play money on real events. ",
    );
    p.append(temperament(bot));
    p.append(
        "\nWrite ONE short chat message, lowercase, under 100 characters. Talk trash: mock the take, the position and the price \u{2014} never the person. Nothing about anyone's race, religion, sex, or country, whatever anyone else in the room says. No quotes, no hashtags, no emoji, no explanation of yourself.",
    );
    p
}

/// What to offer the domain as a reaction, in the order to try it: the whole
/// trimmed answer when it carries anything standalone (so a composed sequence
/// survives intact), then each standalone scalar of it on its own.
pub fn reaction_candidates(raw: &str) -> (r: Vec<String>)
    ensures
        texts_of(r@) == reaction_candidates_of(raw@),
{
    let answer = trim_with(raw, Strip::White);
    let v = chars_of(answer);
    let mut singles: Vec<String> = Vec::new();
    let ghost mut kept: Seq<char> = Seq::empty();
    let mut i: usize = 0;
    while i < v.len()
        invariant
            v@ == answer@,
            i <= v@.len(),
            kept == standalone_chars(v@.subrange(0, i as int)),
            texts_of(singles@) == singletons(kept),
        decreases v.len() - i,
    {
        assert(v@.subrange(0, i + 1).drop_last() =~= v@.subrange(0, i as int));
        assert(v@.subrange(0, i + 1).last() == v@[i as int]);
        if !is_modifier(v[i]) {
            let ghost before = singles@;
            let ghost old_kept = kept;
            let t = char_text(v[i]);
            singles.push(t);
            proof {
                kept = kept.push(v@[i as int]);
                assert(singles@ == before.push(t));
                assert(texts_of(before).len() == before.len());
                assert(singletons(old_kept).len() == old_kept.len());
                assert(before.len() == old_kept.len());
                assert forall|j: int| 0 <= j < singles@.len() implies #[trigger] texts_of(
                    singles@,
                )[j] == singletons(kept)[j] by {
                    if j < before.len() {
                        assert(texts_of(before)[j] == singletons(old_kept)[j]);
                        assert(singles@[j] == before[j]);
                        assert(kept[j] == old_kept[j]);
                    }
                }
            }
            assert(texts_of(singles@) =~= singletons(kept));
        }
        i = i + 1;
    }
    assert(v@.subrange(0, v@.len() as int) =~= v@);
    if singles.len() > 0 {
        let mut all: Vec<String> = Vec::new();
        all.push(answer.to_owned());
        all.append(&mut singles);
        assert(texts_of(all@) =~= seq![answer@] + singletons(kept));
        all
    } else {
        singles
    }
}

/// How many recent messages the model is shown.
pub const CONTEXT_MESSAGES: usize = 6;

/// What a bot can see when it is about to speak.
pub struct Scene<'a> {
    /// The speaking bot's name.
    pub bot: &'a str,
    /// The market whose room this is, or `None` in the global feed.
    pub market: Option<&'a MarketView>,
    /// The room's recent history, oldest first.
    pub recent: &'a [ChatMessageView],
}

/// "name: body" lines for `views`, one per message.
pub open spec fn transcript(views: Seq<ChatMessageView>) -> Seq<char>
    decreases views.len(),
{
    if views.len() == 0 {
        Seq::empty()
    } else {
        transcript(views.drop_last()) + views.last().author.username@ + ": "@
            + views.last().message.body@ + "\n"@
    }
}

/// Where the bot is standing, as the model is told.
pub open spec fn room_text(market: Option<MarketView>, board: Seq<char>) -> Seq<char> {
    match market {
        Some(view) => "You are in the chat room of the market \""@ + view.market.title@
            + "\".\nThe board: "@ + board + ".\n"@,
        None => "You are in the site's global chat, where every market is fair game.\n"@,
    }
}

/// The last `CONTEXT_MESSAGES` of `recent`.
pub open spec fn context_tail(recent: Seq<ChatMessageView>) -> Seq<ChatMessageView> {
    let start = if recent.len() > CONTEXT_MESSAGES {
        recent.len() - CONTEXT_MESSAGES
    } else {
        0
    };
    recent.subrange(start as int, recent.len() as int)
}

/// The room as the model is told about it: where it is standing, what the
/// board says (`board`, the prices written for people), and who said what
/// last.
pub open spec fn brief_of(market: Option<MarketView>, board: Seq<char>, recent: Seq<ChatMessageView>) -> Seq<char> {
    let tail = context_tail(recent);
    room_text(market, board) + if tail.len() > 0 {
        "Recent messages:\n"@ + transcript(tail)
    } else {
        Seq::empty()
    }
}

impl<'a> Scene<'a> {
    /// The room as the model is told about it. `board` is the market's prices
    /// as written for people ("Yes 62%, No 38%"); it is ignored in the global
    /// room.
    pub fn brief(&self, board: &str) -> (r: String)
        ensures
            r@ == brief_of(
                match self.market {
                    Some(v) => Some(*v),
                    None => None,
                },
                board@,
                self.recent@,
            ),
    {
        let mut brief = match self.market {
            Some(view) => {
                let mut b = String::from_str("You are in the chat room of the market \"");
                b.append(view.market.title.as_str());
                b.append("\".\nThe board: ");
                b.append(board);
                b.append(".\n");
                b
            },
            None => String::from_str(
                "You are in the site's global chat, where every market is fair game.\n",
            ),
        };
        let n = self.recent.len();
        let start = if n > CONTEXT_MESSAGES {
            n - CONTEXT_MESSAGES
        } else {
            0
        };
        if start < n {
            brief.append("Recent messages:\n");
            let ghost head = brief@;
            let mut i = start;
            while i < n
                invariant
                    n == self.recent@.len(),
                    start <= i <= n,
                    brief@ == head + transcript(self.recent@.subrange(start as int, i as int)),
                decreases n - i,
            {
                let view = &self.recent[i];
                let ghost prev = brief@;
                brief.append(view.author.username.as_str());
                brief.append(": ");
                brief.append(view.message.body.as_str());
                brief.append("\n");
                assert(self.recent@.subrange(start as int, i + 1).drop_last() =~= self.recent@.subrange(
                    start as int,
                    i as int,
                ));
                assert(brief@ =~= head + transcript(self.recent@.subrange(start as int, i + 1)));
                i = i + 1;
            }
        }
        brief
    }
}

pub open spec fn line_prompt_of(brief: Seq<char>) -> Seq<char> {
    brief + "\nWrite your next message."@
}

/// What a bot is asked for an opening line.
pub fn line_prompt(brief: &str) -> (r: String)
    ensures
        r@ == line_prompt_of(brief@),
{
    let mut p = String::from_str(brief);
    p.append("\nWrite your next message.");
    p
}

pub open spec fn reply_prompt_of(brief: Seq<char>, username: Seq<char>, body: Seq<char>) -> Seq<char> {
    brief + "\n"@ + username + " just said: \""@ + body + "\"\nWrite your reply to them."@
}

/// What a bot is asked for a reply to `username`'s `body`.
pub fn reply_prompt(brief: &str, username: &str, body: &str) -> (r: String)
    ensures
        r@ == reply_prompt_of(brief@, username@, body@),
{
    let mut p = String::from_str(brief);
    p.append("\n");
    p.append(username);
    p.append(" just said: \"");
    p.append(body);
    p.append("\"\nWrite your reply to them.");
    p
}

/// The instruction a model gets when asked for a reaction.
pub const REACTION_SYSTEM: &'static str = "You react to chat messages with a single emoji. Answer with one emoji and nothing else.";

pub open spec fn reaction_prompt_of(body: Seq<char>) -> Seq<char> {
    "In the chat of a betting site, someone wrote: \""@ + body + "\"\nReact."@
}

/// What a model is asked when a bot reacts to `body`.
pub fn reaction_prompt(body: &str) -> (r: String)
    ensures
        r@ == reaction_prompt_of(body@),
{
    let mut p = String::from_str("In the chat of a betting site, someone wrote: \"");
    p.append(body);
    p.append("\"\nReact.");
    p
}

/// `s` holds no line break.
pub open spec fn single_line(s: Seq<char>) -> bool {
    forall|i: int| 0 <= i < s.len() ==> s[i] != '\n'
}

proof fn lemma_trim_start_piece(s: Seq<char>, which: Strip)
    ensures
        trim_start_of(s, which).len() <= s.len(),
        single_line(s) ==> single_line(trim_start_of(s, which)),
    decreases s.len(),
{
    if s.len() > 0 && strips(which, s[0]) {
        lemma_trim_start_piece(s.drop_first(), which);
        if single_line(s) {
            assert(single_line(s.drop_first()));
        }
    }
}

proof fn lemma_trim_end_piece(s: Seq<char>, which: Strip)
    ensures
        trim_end_of(s, which).len() <= s.len(),
        single_line(s) ==> single_line(trim_end_of(s, which)),
    decreases s.len(),
{
    if s.len() > 0 && strips(which, s.last()) {
        lemma_trim_end_piece(s.drop_last(), which);
        if single_line(s) {
            assert(single_line(s.drop_last()));
        }
    }
}

proof fn lemma_trim_piece(s: Seq<char>, which: Strip)
    ensures
        trim_of(s, which).len() <= s.len(),
        single_line(s) ==> single_line(trim_of(s, which)),
{
    lemma_trim_start_piece(s, which);
    lemma_trim_end_piece(trim_start_of(s, which), which);
}

proof fn lemma_first_line_is_single(s: Seq<char>, start: int, i: int)
    requires
        0 <= start <= i <= s.len(),
        forall|k: int| start <= k < i ==> s[k] != '\n',
    ensures
        first_nonblank_line_from(s, start, i) matches Some(l) ==> single_line(l),
    decreases s.len() - i,
{
    if i >= s.len() {
        lemma_trim_piece(s.subrange(start, s.len() as int), Strip::White);
    } else if s[i] == '\n' {
        lemma_trim_piece(s.subrange(start, i), Strip::White);
        lemma_first_line_is_single(s, i + 1, i + 1);
    } else {
        lemma_first_line_is_single(s, start, i + 1);
    }
}

proof fn lemma_strip_speaker_piece(line: Seq<char>, bot: Seq<char>)
    ensures
        spec_strip_speaker(line, bot).len() <= line.len(),
        single_line(line) ==> single_line(spec_strip_speaker(line, bot)),
{
    let k = first_index_from(line, ':', 0);
    if k < line.len() && same_ignoring_ascii_case(trimmed(line.subrange(0, k)), bot) {
        lemma_first_index_in_range(line, ':', 0);
        lemma_trim_piece(line.subrange(k + 1, line.len() as int), Strip::White);
    }
}

/// `k` is where `s`'s first colon stands.
pub open spec fn first_colon_at(s: Seq<char>, k: int) -> bool {
    &&& 0 <= k < s.len()
    &&& s[k] == ':'
    &&& forall|j: int| 0 <= j < k ==> s[j] != ':'
}

proof fn lemma_first_index_is_first(s: Seq<char>, c: char, i: int)
    requires
        0 <= i <= s.len(),
    ensures
        i <= first_index_from(s, c, i) <= s.len(),
        first_index_from(s, c, i) < s.len() ==> s[first_index_from(s, c, i)] == c,
        forall|j: int| i <= j < first_index_from(s, c, i) ==> s[j] != c,
    decreases s.len() - i,
{
    if i < s.len() && s[i] != c {
        lemma_first_index_is_first(s, c, i + 1);
    }
}

proof fn lemma_first_index_in_range(s: Seq<char>, c: char, i: int)
    requires
        0 <= i <= s.len(),
    ensures
        i <= first_index_from(s, c, i) <= s.len(),
    decreases s.len() - i,
{
    if i < s.len() && s[i] != c {
        lemma_first_index_in_range(s, c, i + 1);
    }
}

proof fn lemma_last_index_in_range(s: Seq<char>, c: char, n: nat)
    ensures
        last_index_below(s, c, n) matches Some(j) ==> 0 <= j < n && j < s.len(),
    decreases n,
{
    if n > 0 {
        lemma_last_index_in_range(s, c, (n - 1) as nat);
    }
}

/// A shortened line is at most `MAX_CHARS` long and no more lines than it was.
pub proof fn shortened_line_fits(line: Seq<char>)
    ensures
        spec_shorten(line).len() <= MAX_CHARS,
        single_line(line) ==> single_line(spec_shorten(line)),
{
    if line.len() > MAX_CHARS {
        let head = line.subrange(0, MAX_CHARS as int);
        lemma_last_index_in_range(head, ' ', MAX_CHARS as nat);
        let kept = match last_index_below(head, ' ', MAX_CHARS as nat) {
            Some(j) => head.subrange(0, j),
            None => head,
        };
        lemma_trim_end_piece(kept, Strip::DanglingMarks);
        lemma_trim_piece(trim_end_of(kept, Strip::DanglingMarks), Strip::White);
    }
}

/// Whatever a model answers, the candidate line made of it is one line, not
/// empty, of at most `MAX_CHARS` characters.
pub proof fn tidied_line_is_one_short_line(raw: Seq<char>, bot: Seq<char>)
    ensures
        spec_tidy_line(raw, bot) matches Some(l) ==> 0 < l.len() <= MAX_CHARS && single_line(l),
{
    let said = spec_strip_thinking(raw);
    lemma_first_line_is_single(said, 0, 0);
    if let Some(line) = first_nonblank_line(said) {
        lemma_trim_piece(line, Strip::WrappingMarks);
        lemma_trim_piece(trim_of(line, Strip::WrappingMarks), Strip::White);
        let unwrapped = trimmed(trim_of(line, Strip::WrappingMarks));
        lemma_strip_speaker_piece(unwrapped, bot);
        shortened_line_fits(spec_strip_speaker(unwrapped, bot));
    }
}

proof fn lemma_named_in_table(bot: Seq<char>, i: int)
    requires
        0 <= i <= 17,
    ensures
        named_temperament_from(bot, i) matches Some(k) ==> 0 <= k < 17,
    decreases 17 - i,
{
    if i < 17 {
        lemma_named_in_table(bot, i + 1);
    }
}

proof fn lemma_first_named(bot: Seq<char>, start: int, i: int)
    requires
        0 <= start <= i < 17,
        same_ignoring_ascii_case(TEMPERAMENTS[i].0@, bot),
        forall|j: int| start <= j < i ==> !same_ignoring_ascii_case(#[trigger] TEMPERAMENTS[j].0@, bot),
    ensures
        named_temperament_from(bot, start) == Some(i),
    decreases i - start,
{
    if start < i {
        assert(!same_ignoring_ascii_case(TEMPERAMENTS[start].0@, bot));
        lemma_first_named(bot, start + 1, i);
    }
}

/// Every name gets a voice out of the table, never none: a name the table
/// holds (case aside) gets that entry's own, the first such entry's.
pub proof fn every_name_has_a_tabled_temperament(bot: Seq<char>)
    ensures
        exists|i: int| 0 <= i < 17 && temperament_of(bot) == #[trigger] TEMPERAMENTS[i].1@,
        forall|i: int|
            0 <= i < 17 && #[trigger] same_ignoring_ascii_case(TEMPERAMENTS[i].0@, bot) && (forall|j: int|
                0 <= j < i ==> !same_ignoring_ascii_case(#[trigger] TEMPERAMENTS[j].0@, bot))
                ==> temperament_of(bot) == TEMPERAMENTS[i].1@,
{
    assert forall|i: int|
        0 <= i < 17 && #[trigger] same_ignoring_ascii_case(TEMPERAMENTS[i].0@, bot) && (forall|j: int|
            0 <= j < i ==> !same_ignoring_ascii_case(#[trigger] TEMPERAMENTS[j].0@, bot))
        implies temperament_of(bot) == TEMPERAMENTS[i].1@ by {
        lemma_first_named(bot, 0, i);
    }
    lemma_named_in_table(bot, 0);
    match named_temperament_from(bot, 0) {
        Some(i) => {
            assert(temperament_of(bot) == TEMPERAMENTS[i].1@);
        },
        None => {
            let i = (byte_total(encode_utf8(bot)) % 17) as int;
            assert(temperament_of(bot) == TEMPERAMENTS[i].1@);
        },
    }
}

/// `t` holds a character that stands on its own.
pub open spec fn carries_standalone(t: Seq<char>) -> bool {
    exists|j: int| 0 <= j < t.len() && !is_modifier_char(#[trigger] t[j])
}

proof fn lemma_standalone_chars(s: Seq<char>)
    ensures
        forall|k: int|
            0 <= k < standalone_chars(s).len() ==> !is_modifier_char(#[trigger] standalone_chars(s)[k])
                && s.contains(standalone_chars(s)[k]),
        standalone_chars(s).len() > 0 <==> exists|j: int| 0 <= j < s.len() && !is_modifier_char(#[trigger] s[j]),
    decreases s.len(),
{
    if s.len() > 0 {
        let rest = s.drop_last();
        lemma_standalone_chars(rest);
        assert forall|k: int| 0 <= k < standalone_chars(s).len() implies !is_modifier_char(
            #[trigger] standalone_chars(s)[k],
        ) && s.contains(standalone_chars(s)[k]) by {
            if k < standalone_chars(rest).len() {
                let x = standalone_chars(rest)[k];
                let w = choose|w: int| 0 <= w < rest.len() && rest[w] == x;
                assert(s[w] == x);
            } else {
                assert(s[s.len() - 1] == s.last());
            }
        }
        if exists|j: int| 0 <= j < s.len() && !is_modifier_char(#[trigger] s[j]) {
            let j = choose|j: int| 0 <= j < s.len() && !is_modifier_char(#[trigger] s[j]);
            if j < s.len() - 1 {
                assert(rest[j] == s[j]);
            }
        }
        if standalone_chars(rest).len() > 0 {
            let j = choose|j: int| 0 <= j < rest.len() && !is_modifier_char(#[trigger] rest[j]);
            assert(s[j] == rest[j]);
        }
        if !is_modifier_char(s.last()) {
            assert(!is_modifier_char(s[s.len() - 1]));
        }
    }
}

/// What is offered as a reaction always carries a character that stands on
/// its own: there are candidates exactly when the trimmed answer holds one;
/// the first is then the whole trimmed answer (so a composed sequence
/// survives intact), and every later one is a single standalone character of
/// that answer.
pub proof fn reaction_candidates_stand_on_their_own(raw: Seq<char>)
    ensures
        ({
            let c = reaction_candidates_of(raw);
            let answer = trimmed(raw);
            &&& forall|i: int| 0 <= i < c.len() ==> carries_standalone(#[trigger] c[i])
            &&& c.len() > 0 <==> carries_standalone(answer)
            &&& c.len() > 0 ==> c[0] == answer
            &&& forall|i: int| 1 <= i < c.len() ==> (#[trigger] c[i]).len() == 1 && answer.contains(c[i][0])
        }),
{
    let c = reaction_candidates_of(raw);
    let answer = trimmed(raw);
    let st = standalone_chars(answer);
    lemma_standalone_chars(answer);
    if st.len() > 0 {
        let j0 = choose|j: int| 0 <= j < answer.len() && !is_modifier_char(#[trigger] answer[j]);
        assert forall|i: int| 0 <= i < c.len() implies carries_standalone(#[trigger] c[i]) by {
            if i == 0 {
                assert(c[0] == answer);
                assert(!is_modifier_char(c[0][j0]));
                assert(0 <= j0 < c[0].len());
            } else {
                assert(c[i] == singletons(st)[i - 1]);
                assert(c[i] == seq![st[i - 1]]);
                assert(!is_modifier_char(st[i - 1]));
                assert(c[i][0] == st[i - 1]);
                assert(0 < c[i].len());
            }
        }
        assert forall|i: int| 1 <= i < c.len() implies (#[trigger] c[i]).len() == 1 && answer.contains(c[i][0]) by {
            assert(c[i] == singletons(st)[i - 1]);
            assert(c[i] == seq![st[i - 1]]);
        }
    } else {
        assert(c.len() == 0);
    }
}

/// The first of `candidates` whose verdict in `accepted` (same positions) is
/// yes.
pub open spec fn pick_first(candidates: Seq<Seq<char>>, accepted: Seq<bool>) -> Option<Seq<char>>
    decreases candidates.len(),
{
    if candidates.len() == 0 || accepted.len() == 0 {
        None
    } else if accepted[0] {
        Some(candidates[0])
    } else {
        pick_first(candidates.drop_first(), accepted.drop_first())
    }
}

/// The first candidate the domain accepted: `accepted[i]` is the domain's
/// verdict on `candidates[i]`, as the caller had it from the reaction check.
pub fn first_accepted(candidates: Vec<String>, accepted: &[bool]) -> (r: Option<String>)
    requires
        candidates.len() == accepted@.len(),
    ensures
        match r {
            Some(s) => pick_first(texts_of(candidates@), accepted@) == Some(s@),
            None => pick_first(texts_of(candidates@), accepted@) is None,
        },
{
    assert(texts_of(candidates@).len() == candidates@.len());
    assert(texts_of(candidates@).subrange(0, candidates@.len() as int) =~= texts_of(candidates@));
    assert(accepted@.subrange(0, accepted@.len() as int) =~= accepted@);
    let mut i: usize = 0;
    while i < candidates.len()
        invariant
            candidates.len() == accepted@.len(),
            texts_of(candidates@).len() == candidates@.len(),
            i <= candidates.len(),
            pick_first(texts_of(candidates@), accepted@) == pick_first(
                texts_of(candidates@).subrange(i as int, candidates@.len() as int),
                accepted@.subrange(i as int, accepted@.len() as int),
            ),
        decreases candidates.len() - i,
    {
        let ghost c = texts_of(candidates@).subrange(i as int, candidates@.len() as int);
        let ghost a = accepted@.subrange(i as int, accepted@.len() as int);
        assert(c[0] == candidates@[i as int]@);
        if accepted[i] {
            let s = candidates[i].clone();
            assert(s@ == candidates@[i as int]@);
            return Some(s);
        }
        assert(c.drop_first() =~= texts_of(candidates@).subrange(i + 1, candidates@.len() as int));
        assert(a.drop_first() =~= accepted@.subrange(i + 1, accepted@.len() as int));
        i = i + 1;
    }
    None
}

proof fn lemma_pick_first(c: Seq<Seq<char>>, ok: Seq<bool>)
    requires
        c.len() == ok.len(),
    ensures
        pick_first(c, ok) is None <==> forall|i: int| 0 <= i < ok.len() ==> !ok[i],
        pick_first(c, ok) is Some ==> exists|i: int|
            0 <= i < c.len() && ok[i] && c[i] == pick_first(c, ok)->0 && forall|j: int|
                0 <= j < i ==> !ok[j],
    decreases c.len(),
{
    if c.len() > 0 && !ok[0] {
        lemma_pick_first(c.drop_first(), ok.drop_first());
        if pick_first(c, ok) is Some {
            let i = choose|i: int|
                0 <= i < c.len() - 1 && ok.drop_first()[i] && c.drop_first()[i] == pick_first(c, ok)->0
                    && forall|j: int| 0 <= j < i ==> !ok.drop_first()[j];
            assert forall|j: int| 0 <= j < i + 1 implies !ok[j] by {
                if j > 0 {
                    assert(ok[j] == ok.drop_first()[j - 1]);
                }
            }
            assert(c[i + 1] == c.drop_first()[i]);
        } else {
            assert forall|i: int| 0 <= i < ok.len() implies !ok[i] by {
                if i > 0 {
                    assert(ok[i] == ok.drop_first()[i - 1]);
                }
            }
        }
    }
}

/// The reaction a bot posts is the first candidate the domain accepts, and it
/// always carries a character that stands on its own. When the trimmed answer
/// carries one and is accepted whole, it is posted whole; otherwise what is
/// posted, if anything, is a single standalone character of that answer.
/// Nothing is posted exactly when the domain accepts no candidate.
pub proof fn reaction_is_first_accepted_standalone(raw: Seq<char>, accepted: Seq<bool>)
    requires
        accepted.len() == reaction_candidates_of(raw).len(),
    ensures
        ({
            let c = reaction_candidates_of(raw);
            let answer = trimmed(raw);
            let picked = pick_first(c, accepted);
            &&& picked is None <==> forall|i: int| 0 <= i < accepted.len() ==> !accepted[i]
            &&& picked is Some ==> carries_standalone(picked->0)
            &&& picked is Some ==> exists|i: int|
                0 <= i < c.len() && accepted[i] && c[i] == picked->0
            &&& carries_standalone(answer) && accepted[0] ==> picked == Some(answer)
            &&& !(carries_standalone(answer) && accepted[0]) && picked is Some ==> {
                &&& (picked->0).len() == 1
                &&& !is_modifier_char((picked->0)[0])
                &&& answer.contains((picked->0)[0])
            }
        }),
{
    let c = reaction_candidates_of(raw);
    let answer = trimmed(raw);
    reaction_candidates_stand_on_their_own(raw);
    lemma_pick_first(c, accepted);
    let picked = pick_first(c, accepted);
    if picked is Some {
        let i = choose|i: int|
            0 <= i < c.len() && accepted[i] && c[i] == picked->0 && forall|j: int| 0 <= j < i ==> !accepted[j];
        assert(carries_standalone(c[i]));
        if !(carries_standalone(answer) && accepted[0]) {
            if i == 0 {
                assert(c.len() > 0);
                assert(carries_standalone(answer));
                assert(false);
            }
            assert(c[i].len() == 1 && answer.contains(c[i][0]));
            let j = choose|j: int| 0 <= j < c[i].len() && !is_modifier_char(#[trigger] c[i][j]);
            assert(j == 0);
        }
    }
    if carries_standalone(answer) && accepted[0] {
        assert(c.len() > 0 && c[0] == answer);
    }
}

} // verus!
