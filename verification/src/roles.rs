//! Roles of players and the security levels that follow from them.

use vstd::prelude::*;

use crate::foglet::FogletContext;
use crate::text::{
    chars_of, folded_eq, is_space, lower, opt_str, same_folded, text_of, trim, trim_again,
    trim_bounds,
};

verus! {

broadcast use vstd::string::group_string_axioms;

/// The role of a player.
#[derive(Debug, Clone, PartialEq, Eq)]
pub enum FogletRole {
    User,
    Mod,
    Sysop,
    /// A role without a meaning here, as it was spelled.
    Other(String),
}

/// Security level of users, and of every role without a meaning here.
pub const USER_SECURITY_LEVEL: i64 = 50;

/// Security level of moderators.
pub const MOD_SECURITY_LEVEL: i64 = 90;

/// Security level of system operators.
pub const SYSOP_SECURITY_LEVEL: i64 = 100;

/// A role, with the characters of an unknown one.
pub enum RoleView {
    User,
    Mod,
    Sysop,
    Other(Seq<char>),
}

impl View for FogletRole {
    type V = RoleView;

    open spec fn view(&self) -> RoleView {
        match *self {
            FogletRole::User => RoleView::User,
            FogletRole::Mod => RoleView::Mod,
            FogletRole::Sysop => RoleView::Sysop,
            FogletRole::Other(s) => RoleView::Other(s@),
        }
    }
}

/// The role that a text names. White space around it and the case of ASCII
/// letters do not matter; nothing but white space names a user.
pub open spec fn named_role(raw: Seq<char>) -> RoleView {
    let name = trim(raw);
    if name.len() == 0 {
        RoleView::User
    } else if same_folded(name, "sysop"@) {
        RoleView::Sysop
    } else if same_folded(name, "mod"@) {
        RoleView::Mod
    } else if same_folded(name, "user"@) {
        RoleView::User
    } else {
        RoleView::Other(name)
    }
}

/// The security level of a role.
pub open spec fn level(role: RoleView) -> i64 {
    match role {
        RoleView::Sysop => SYSOP_SECURITY_LEVEL,
        RoleView::Mod => MOD_SECURITY_LEVEL,
        RoleView::User => USER_SECURITY_LEVEL,
        RoleView::Other(_) => USER_SECURITY_LEVEL,
    }
}

/// The name of a role.
pub open spec fn token(role: RoleView) -> Seq<char> {
    match role {
        RoleView::Sysop => "sysop"@,
        RoleView::Mod => "mod"@,
        RoleView::User => "user"@,
        RoleView::Other(s) => s,
    }
}

/// The role in a launch context; without one the player is a user.
pub open spec fn context_role(context: FogletContext) -> RoleView {
    match context.role {
        Some(raw) => named_role(raw@),
        None => RoleView::User,
    }
}

impl FogletRole {
    /// The role that a text names.
    pub fn parse(raw: &str) -> (r: FogletRole)
        ensures
            r@ == named_role(raw@),
    {
        let cs: Vec<char> = chars_of(raw);
        let (from, to): (usize, usize) = trim_bounds(&cs);
        if from == to {
            return FogletRole::User;
        }
        let name: String = text_of(&cs, from, to);
        if folded_eq(name.as_str(), "sysop") {
            FogletRole::Sysop
        } else if folded_eq(name.as_str(), "mod") {
            FogletRole::Mod
        } else if folded_eq(name.as_str(), "user") {
            FogletRole::User
        } else {
            FogletRole::Other(name)
        }
    }

    /// The security level of the role.
    pub fn security_level(&self) -> (r: i64)
        ensures
            r == level(self@),
    {
        match self {
            FogletRole::Sysop => SYSOP_SECURITY_LEVEL,
            FogletRole::Mod => MOD_SECURITY_LEVEL,
            FogletRole::User | FogletRole::Other(_) => USER_SECURITY_LEVEL,
        }
    }

    /// The name of the role.
    pub fn as_token(&self) -> (r: &str)
        ensures
            r@ == token(self@),
    {
        match self {
            FogletRole::Sysop => "sysop",
            FogletRole::Mod => "mod",
            FogletRole::User => "user",
            FogletRole::Other(s) => s.as_str(),
        }
    }
}

impl FogletContext {
    /// The role of the player.
    pub fn foglet_role(&self) -> (r: FogletRole)
        ensures
            r@ == context_role(*self),
    {
        match opt_str(&self.role) {
            Some(raw) => FogletRole::parse(raw),
            None => FogletRole::User,
        }
    }

    /// The security level of the player.
    pub fn security_level(&self) -> (r: i64)
        ensures
            r == level(context_role(*self)),
    {
        self.foglet_role().security_level()
    }
}

/// The name of a role names that role: reading what was written gives it back.
pub proof fn tokens_name_their_role(raw: Seq<char>)
    ensures
        named_role(token(named_role(raw))) == named_role(raw),
{
    reveal_strlit("sysop");
    reveal_strlit("mod");
    reveal_strlit("user");
    trim_again(raw);
    let role = named_role(raw);
    if !(role is Other) {
        assert(trim(token(role)) == token(role));
    }
}

/// Only the names of operators and moderators lift the level above a user's.
pub proof fn unknown_roles_are_users(raw: Seq<char>)
    requires
        !same_folded(trim(raw), "sysop"@),
        !same_folded(trim(raw), "mod"@),
    ensures
        level(named_role(raw)) == USER_SECURITY_LEVEL,
{
}

/// A name means operator, moderator or user exactly if it is that word, in any case
/// and with any white space around it; no name at all means user. Any other name is
/// kept as it was spelled, without the white space around it.
pub proof fn names_mean_their_role(raw: Seq<char>)
    ensures
        named_role(raw) is Sysop <==> same_folded(trim(raw), "sysop"@),
        named_role(raw) is Mod <==> same_folded(trim(raw), "mod"@),
        named_role(raw) is User <==> same_folded(trim(raw), "user"@) || trim(raw).len() == 0,
        named_role(raw) matches RoleView::Other(name) ==> name == trim(raw),
{
    reveal_strlit("sysop");
    reveal_strlit("mod");
    reveal_strlit("user");
    let name = trim(raw);
    if same_folded(name, "sysop"@) {
        assert(lower(name[0]) == lower("sysop"@[0]));
    }
    if same_folded(name, "mod"@) {
        assert(lower(name[0]) == lower("mod"@[0]));
    }
    if same_folded(name, "user"@) {
        assert(lower(name[0]) == lower("user"@[0]));
    }
}

/// White space around a name does not matter.
pub proof fn roles_ignore_space_around(raw: Seq<char>, c: char)
    requires
        is_space(c),
    ensures
        named_role(seq![c] + raw) == named_role(raw),
{
    assert((seq![c] + raw).drop_first() =~= raw);
}

/// Operators stand above moderators, and moderators above everyone else, who are all
/// equal.
pub proof fn levels_are_ranked(role: RoleView)
    ensures
        level(role) == 100 <==> role is Sysop,
        level(role) == 90 <==> role is Mod,
        level(role) == 50 <==> role is User || role is Other,
{
}

/// A player's role is the one that the launch context names; without one the player is
/// a user.
pub proof fn the_context_names_the_role(context: FogletContext)
    ensures
        context.role matches Some(raw) ==> context_role(context) == named_role(raw@),
        context.role is None ==> context_role(context) is User && level(context_role(context)) == 50,
{
}

/// Every role has a name of its own.
pub proof fn tokens_are_the_known_words(role: RoleView)
    ensures
        role is Sysop ==> token(role) == "sysop"@,
        role is Mod ==> token(role) == "mod"@,
        role is User ==> token(role) == "user"@,
        role matches RoleView::Other(name) ==> token(role) == name,
{
}

} // verus!
