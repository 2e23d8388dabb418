//! Sanction roles that survive leaving the server: when a sanctioned member
//! leaves, their sanction roles are recorded; when they come back, the roles
//! are given back and the moderators are told.

use vstd::prelude::*;
use crate::text::{decimal, parse_id, spec_parse_id, str_eq, u64_to_string};

verus! {

/// The roles a server treats as sanctions (role ids in decimal).
pub struct SanctionRoles {
    pub roles: Vec<String>,
}

/// A member who left while holding sanction roles.
pub struct SanctionedUsers {
    pub guild_id: String,
    pub user_id: String,
    pub roles: Vec<String>,
}

/// The views of a list of strings.
pub open spec fn views(v: Seq<String>) -> Seq<Seq<char>> {
    v.map_values(|s: String| s@)
}

/// The member's roles that are sanction roles, in the member's order, each
/// written in decimal.
pub open spec fn held_sanctions(member_roles: Seq<u64>, sanction_roles: Seq<Seq<char>>) -> Seq<Seq<char>>
    decreases member_roles.len(),
{
    if member_roles.len() == 0 {
        Seq::empty()
    } else {
        let rest = held_sanctions(member_roles.drop_last(), sanction_roles);
        let d = decimal(member_roles.last() as nat);
        if sanction_roles.contains(d) { rest.push(d) } else { rest }
    }
}

fn contains_string(v: &Vec<String>, s: &String) -> (b: bool)
    ensures
        b == views(v@).contains(s@),
{
    let mut i: usize = 0;
    while i < v.len()
        invariant
            i <= v.len(),
            forall|j: int| 0 <= j < i ==> v@[j]@ != s@,
        decreases v.len() - i,
    {
        if str_eq(v[i].as_str(), s.as_str()) {
            assert(views(v@)[i as int] == s@);
            return true;
        }
        i = i + 1;
    }
    assert forall|j: int| 0 <= j < views(v@).len() implies views(v@)[j] != s@ by {
        assert(views(v@)[j] == v@[j]@);
    }
    false
}

/// The sanction roles a leaving member holds, as they are recorded.
pub fn sanction_roles_held(member_roles: &Vec<u64>, sanction_roles: &SanctionRoles) -> (r: Vec<String>)
    ensures
        views(r@) == held_sanctions(member_roles@, views(sanction_roles.roles@)),
{
    let mut r: Vec<String> = Vec::new();
    let mut i: usize = 0;
    while i < member_roles.len()
        invariant
            i <= member_roles.len(),
            views(r@) == held_sanctions(member_roles@.subrange(0, i as int), views(sanction_roles.roles@)),
        decreases member_roles.len() - i,
    {
        proof {
            assert(member_roles@.subrange(0, i + 1).drop_last() =~= member_roles@.subrange(0, i as int));
        }
        let d = u64_to_string(member_roles[i]);
        let ghost before = r@;
        if contains_string(&sanction_roles.roles, &d) {
            r.push(d);
            proof {
                assert(views(r@) =~= views(before).push(d@));
            }
        }
        i = i + 1;
    }
    assert(member_roles@.subrange(0, member_roles.len() as int) =~= member_roles@);
    r
}

impl SanctionedUsers {
    /// The record of a sanctioned member, ids written in decimal.
    pub fn new(user_id: u64, guild_id: u64, roles: Vec<String>) -> (s: SanctionedUsers)
        ensures
            s.user_id@ == decimal(user_id as nat),
            s.guild_id@ == decimal(guild_id as nat),
            s.roles == roles,
    {
        SanctionedUsers { guild_id: u64_to_string(guild_id), user_id: u64_to_string(user_id), roles }
    }
}

/// What is recorded when a member leaves: nothing if they hold no sanction
/// role, otherwise their sanction roles.
pub fn goodbye_record(user_id: u64, guild_id: u64, member_roles: &Vec<u64>, sanction_roles: &SanctionRoles) -> (r: Option<SanctionedUsers>)
    ensures
        held_sanctions(member_roles@, views(sanction_roles.roles@)).len() == 0 ==> r is None,
        held_sanctions(member_roles@, views(sanction_roles.roles@)).len() > 0 ==> r is Some
            && r->0.user_id@ == decimal(user_id as nat) && r->0.guild_id@ == decimal(guild_id as nat)
            && views(r->0.roles@) == held_sanctions(member_roles@, views(sanction_roles.roles@)),
{
    let roles = sanction_roles_held(member_roles, sanction_roles);
    if roles.len() == 0 {
        return None;
    }
    Some(SanctionedUsers::new(user_id, guild_id, roles))
}

/// The stored roles that are valid ids, in order.
pub open spec fn restorable(roles: Seq<Seq<char>>) -> Seq<u64>
    decreases roles.len(),
{
    if roles.len() == 0 {
        Seq::empty()
    } else {
        let rest = restorable(roles.drop_last());
        match spec_parse_id(roles.last()) {
            Some(n) => rest.push(n),
            None => rest,
        }
    }
}

/// The roles to give back to a returning sanctioned member: the stored roles
/// that are valid ids.
pub fn roles_to_restore(stored: &Vec<String>) -> (r: Vec<u64>)
    ensures
        r@ == restorable(views(stored@)),
{
    let mut r: Vec<u64> = Vec::new();
    let mut i: usize = 0;
    while i < stored.len()
        invariant
            i <= stored.len(),
            r@ == restorable(views(stored@.subrange(0, i as int))),
        decreases stored.len() - i,
    {
        proof {
            assert(views(stored@.subrange(0, i + 1)).drop_last() =~= views(stored@.subrange(0, i as int)));
            assert(views(stored@.subrange(0, i + 1)).last() == stored@[i as int]@);
        }
        match parse_id(stored[i].as_str()) {
            Some(n) => r.push(n),
            None => {},
        }
        i = i + 1;
    }
    assert(stored@.subrange(0, stored.len() as int) =~= stored@);
    r
}

/// `<@&id>` for each role, separated by `, `.
pub open spec fn mentions_text(roles: Seq<u64>) -> Seq<char>
    decreases roles.len(),
{
    if roles.len() == 0 {
        Seq::empty()
    } else if roles.len() == 1 {
        "<@&"@ + decimal(roles[0] as nat) + ">"@
    } else {
        mentions_text(roles.drop_last()) + ", "@ + "<@&"@ + decimal(roles.last() as nat) + ">"@
    }
}

/// Mentions of the given roles, separated by commas.
pub fn role_mentions(roles: &Vec<u64>) -> (s: String)
    ensures
        s@ == mentions_text(roles@),
{
    let mut s = String::new();
    let mut i: usize = 0;
    while i < roles.len()
        invariant
            i <= roles.len(),
            s@ == mentions_text(roles@.subrange(0, i as int)),
        decreases roles.len() - i,
    {
        proof {
            assert(roles@.subrange(0, i + 1).drop_last() =~= roles@.subrange(0, i as int));
            assert(roles@.subrange(0, i + 1).last() == roles@[i as int]);
            if i == 0 {
                assert(roles@.subrange(0, 1)[0] == roles@[0]);
            }
        }
        if i > 0 {
            s.append(", ");
        }
        s.append("<@&");
        let d = u64_to_string(roles[i]);
        s.append(d.as_str());
        s.append(">");
        i = i + 1;
    }
    assert(roles@.subrange(0, roles.len() as int) =~= roles@);
    s
}

/// The log text about a sanctioned member who came back.
pub open spec fn returning_member_text(user_id: u64, roles: Seq<u64>) -> Seq<char> {
    "Usuario detectado: <@"@ + decimal(user_id as nat) + "> \nRoles asignados previamente "@ + mentions_text(roles)
}

/// Builds the log text about a sanctioned member who came back.
pub fn returning_member_description(user_id: u64, roles: &Vec<u64>) -> (s: String)
    ensures
        s@ == returning_member_text(user_id, roles@),
{
    let mut s = "Usuario detectado: <@".to_owned();
    let d = u64_to_string(user_id);
    s.append(d.as_str());
    s.append("> \nRoles asignados previamente ");
    let m = role_mentions(roles);
    s.append(m.as_str());
    s
}

/// The roles recorded when a sanctioned member leaves are all given back when
/// they return: restoring the recorded roles yields exactly the sanction roles
/// the member held.
pub proof fn lemma_recorded_sanctions_restore(member_roles: Seq<u64>, sanction_roles: Seq<Seq<char>>)
    requires
        forall|i: int| 0 <= i < member_roles.len() ==> member_roles[i] != 0,
    ensures
        restorable(held_sanctions(member_roles, sanction_roles)) == member_roles.filter(
            |r: u64| sanction_roles.contains(decimal(r as nat)),
        ),
    decreases member_roles.len(),
{
    reveal(Seq::filter);
    if member_roles.len() > 0 {
        let p = member_roles.drop_last();
        lemma_recorded_sanctions_restore(p, sanction_roles);
        let h = held_sanctions(member_roles, sanction_roles);
        let last = member_roles.last();
        crate::text::lemma_parse_id_of_decimal(last);
        if sanction_roles.contains(decimal(last as nat)) {
            assert(h.drop_last() =~= held_sanctions(p, sanction_roles));
        }
    }
}

/// The welcome text: `Bienvenido <@user> a <server>. ` and, on a new line,
/// the server's welcome message.
pub fn welcome_text(user_id: u64, guild_name: &str, welcome_message: &str) -> (s: String)
    ensures
        s@ == "Bienvenido <@"@ + decimal(user_id as nat) + "> a "@ + guild_name@ + ". \n"@ + welcome_message@,
{
    let mut s = "Bienvenido <@".to_owned();
    let d = u64_to_string(user_id);
    s.append(d.as_str());
    s.append("> a ");
    s.append(guild_name);
    s.append(". \n");
    s.append(welcome_message);
    s
}

} // verus!
