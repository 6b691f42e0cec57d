//! The bot accounts the simulation acts as. Bots are ordinary users,
//! identified by an email under [`EMAIL_DOMAIN`], which is what makes
//! provisioning resume an existing cast instead of minting a new one.

use vstd::prelude::*;

use crate::actor::Actor;
use crate::demo::random::choose_in;
use crate::model::Role;

verus! {

/// Host part of every bot's email. Not a routable domain.
pub const EMAIL_DOMAIN: &'static str = "bots.betsphere.invalid";

/// The market maker, the only bot with the admin role.
pub const HOST_NAME: &'static str = "the_oracle";

/// Everyone else, in the order they are provisioned.
pub const BOT_NAMES: [&'static str; 16] = [
    "hedge_hana",
    "long_leo",
    "short_sasha",
    "odds_omar",
    "delta_dana",
    "spread_sven",
    "chalk_chloe",
    "parlay_pia",
    "tilt_tomas",
    "arb_arjun",
    "punt_priya",
    "edge_elena",
    "fade_felix",
    "vega_vik",
    "yield_yuki",
    "moon_mika",
];

/// One bot account: who its actions are attributed to.
#[derive(Debug, Clone, Copy)]
pub struct Bot {
    pub name: &'static str,
    pub actor: Actor,
}

/// The provisioned cast.
pub struct Cast {
    pub host: Bot,
    /// Everyone, the host included.
    pub bots: Vec<Bot>,
}

impl Cast {
    /// The admin bot, which opens and resolves markets.
    pub fn host(&self) -> (r: &Bot)
        ensures
            *r == self.host,
    {
        &self.host
    }

    /// Someone to act next: any bot of the cast, or the host when the cast is
    /// empty.
    pub fn anyone(&self, rng: &mut rand::rngs::StdRng) -> (r: &Bot)
        ensures
            self.bots@.len() == 0 ==> *r == self.host,
            self.bots@.len() > 0 ==> self.bots@.contains(*r),
    {
        match choose_in(self.bots.as_slice(), rng) {
            Some(b) => b,
            None => &self.host,
        }
    }

    pub fn len(&self) -> (r: usize)
        ensures
            r == self.bots@.len(),
    {
        self.bots.len()
    }
}

/// How many bots besides the host a cast of `bots` has: one fewer, but no
/// more than there are names.
pub open spec fn extra_count(bots: usize) -> int {
    let wanted = if bots == 0 {
        0
    } else {
        bots - 1
    };
    if wanted > 16 {
        16
    } else {
        wanted
    }
}

/// The names of a cast of `bots` accounts, the host first.
pub open spec fn cast_names_of(bots: usize) -> Seq<&'static str> {
    seq![HOST_NAME] + BOT_NAMES@.subrange(0, extra_count(bots))
}

/// Who is provisioned for a configured cast size, in order: the host, then
/// as many of the others as asked for and named.
pub fn cast_names(bots: usize) -> (r: Vec<&'static str>)
    ensures
        r@ == cast_names_of(bots),
        r@.len() == 1 + extra_count(bots),
        1 <= r@.len() <= 17,
        r@[0] == HOST_NAME,
{
    let extras = if bots == 0 {
        0
    } else {
        bots - 1
    };
    let extras = if extras > 16 {
        16
    } else {
        extras
    };
    let mut r: Vec<&'static str> = Vec::new();
    r.push(HOST_NAME);
    let mut i: usize = 0;
    while i < extras
        invariant
            extras == extra_count(bots),
            i <= extras <= 16,
            r@ == seq![HOST_NAME] + BOT_NAMES@.subrange(0, i as int),
        decreases extras - i,
    {
        r.push(BOT_NAMES[i]);
        i = i + 1;
        assert(r@ =~= seq![HOST_NAME] + BOT_NAMES@.subrange(0, i as int));
    }
    r
}

/// The role a bot is provisioned with: admin for the host, user for the rest.
pub open spec fn role_of(name: Seq<char>) -> Role {
    if name == HOST_NAME@ {
        Role::Admin
    } else {
        Role::User
    }
}

pub fn cast_role(name: &str) -> (r: Role)
    ensures
        r == role_of(name@),
{
    if crate::text::same_text(name, HOST_NAME) {
        Role::Admin
    } else {
        Role::User
    }
}

pub open spec fn bot_email_of(name: Seq<char>) -> Seq<char> {
    name + "@"@ + EMAIL_DOMAIN@
}

/// The email a bot account is found by.
pub fn bot_email(name: &str) -> (r: String)
    ensures
        r@ == bot_email_of(name@),
{
    let mut e = String::from_str(name);
    e.append("@");
    e.append(EMAIL_DOMAIN);
    e
}

/// What provisioning does with one bot's account.
#[derive(Debug, Clone, Copy, PartialEq, Eq, Structural)]
pub enum AccountAction {
    /// The account exists with the right role: use it as it is.
    Keep,
    /// The account exists with another role: correct it and save it.
    FixRole,
    /// No account yet: create one with the role.
    Create,
}

/// An existing account keeps its balance, bets and messages, but has its role
/// corrected; a missing one is created.
pub open spec fn account_action_of(existing_role: Option<Role>, role: Role) -> AccountAction {
    match existing_role {
        None => AccountAction::Create,
        Some(had) => if had == role {
            AccountAction::Keep
        } else {
            AccountAction::FixRole
        },
    }
}

pub fn account_action(existing_role: Option<Role>, role: Role) -> (r: AccountAction)
    ensures
        r == account_action_of(existing_role, role),
{
    match existing_role {
        None => AccountAction::Create,
        Some(had) => if had == role {
            AccountAction::Keep
        } else {
            AccountAction::FixRole
        },
    }
}

/// Provisioning resumes rather than restarts: one run leaves every account
/// with its cast role (created with it, or corrected to it), and a run that
/// finds an account with that role keeps it as it is, so a second run
/// changes nothing.
pub proof fn provisioning_twice_keeps_every_account(existing_role: Option<Role>, role: Role)
    ensures
        account_action_of(existing_role, role) == AccountAction::Keep <==> existing_role == Some(
            role,
        ),
        account_action_of(existing_role, role) == AccountAction::Create <==> existing_role is None,
        account_action_of(Some(role), role) == AccountAction::Keep,
{
}

/// The host is the cast's one admin: it comes first in every cast, and
/// every other bot of the cast is provisioned as a plain user.
pub proof fn the_host_is_the_only_admin(bots: usize)
    ensures
        cast_names_of(bots)[0] == HOST_NAME,
        role_of(cast_names_of(bots)[0]@) == Role::Admin,
        forall|i: int|
            1 <= i < cast_names_of(bots).len() ==> role_of((#[trigger] cast_names_of(bots)[i])@)
                == Role::User,
{
    reveal_strlit("the_oracle");
    reveal_strlit("hedge_hana");
    reveal_strlit("long_leo");
    reveal_strlit("short_sasha");
    reveal_strlit("odds_omar");
    reveal_strlit("delta_dana");
    reveal_strlit("spread_sven");
    reveal_strlit("chalk_chloe");
    reveal_strlit("parlay_pia");
    reveal_strlit("tilt_tomas");
    reveal_strlit("arb_arjun");
    reveal_strlit("punt_priya");
    reveal_strlit("edge_elena");
    reveal_strlit("fade_felix");
    reveal_strlit("vega_vik");
    reveal_strlit("yield_yuki");
    reveal_strlit("moon_mika");
    assert forall|k: int| 0 <= k < 16 implies (#[trigger] BOT_NAMES@[k])@ != HOST_NAME@ by {
        assert(BOT_NAMES@[k]@[1] != HOST_NAME@[1] || BOT_NAMES@[k]@.len() != HOST_NAME@.len());
    }
    let names = cast_names_of(bots);
    assert forall|i: int| 1 <= i < names.len() implies role_of((#[trigger] names[i])@)
        == Role::User by {
        assert(names[i] == BOT_NAMES@[i - 1]);
    }
}

} // verus!
