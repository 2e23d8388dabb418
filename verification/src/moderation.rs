//! Moderation decisions: the admin exception, mentions of the protected user
//! or role, `@everyone` pings, and the warning counter.

use vstd::prelude::*;
use crate::text::{contains, occurs_in, parse_i64, spec_parse_i64, spec_parse_id};

verus! {

/// Some configured admin role (a string holding a role id) is one of the
/// member's roles. Strings that are not a valid id are ignored.
pub open spec fn spec_is_admin(admin_role_ids: Option<Seq<Seq<char>>>, member_roles: Seq<u64>) -> bool {
    match admin_role_ids {
        Some(ids) => exists|i: int, j: int|
            0 <= i < ids.len() && 0 <= j < member_roles.len()
                && spec_parse_id(#[trigger] ids[i]) == Some(#[trigger] member_roles[j]),
        None => false,
    }
}

/// The views of a list of strings.
pub open spec fn strings_view(v: Seq<String>) -> Seq<Seq<char>> {
    v.map_values(|s: String| s@)
}

/// The views of an optional list of strings.
pub open spec fn opt_strings_view(v: Option<&Vec<String>>) -> Option<Seq<Seq<char>>> {
    match v {
        Some(v) => Some(strings_view(v@)),
        None => None,
    }
}

/// Whether the member is exempt from sanctions because they hold one of the
/// admin roles. `member_roles` are the member's role ids; when the member's
/// roles could not be read they are empty.
pub fn check_admin_exception(admin_role_ids: Option<&Vec<String>>, member_roles: &Vec<u64>) -> (b: bool)
    ensures
        b == spec_is_admin(opt_strings_view(admin_role_ids), member_roles@),
{
    let ids = match admin_role_ids {
        Some(ids) => ids,
        None => return false,
    };
    let ghost iv = strings_view(ids@);
    let mut i: usize = 0;
    while i < ids.len()
        invariant
            i <= ids.len(),
            iv == strings_view(ids@),
            admin_role_ids == Some(ids),
            forall|a: int, b: int| 0 <= a < i && 0 <= b < member_roles.len()
                ==> spec_parse_id(#[trigger] iv[a]) != Some(#[trigger] member_roles@[b]),
        decreases ids.len() - i,
    {
        let parsed = crate::text::parse_id(ids[i].as_str());
        if let Some(id) = parsed {
            let mut j: usize = 0;
            while j < member_roles.len()
                invariant
                    i < ids.len(),
                    j <= member_roles.len(),
                    iv == strings_view(ids@),
                    parsed == spec_parse_id(iv[i as int]),
                    parsed == Some(id),
                    admin_role_ids == Some(ids),
                    forall|b: int| 0 <= b < j ==> member_roles@[b] != id,
                decreases member_roles.len() - j,
            {
                if member_roles[j] == id {
                    assert(spec_parse_id(iv[i as int]) == Some(member_roles@[j as int]));
                    assert(opt_strings_view(admin_role_ids) == Some(iv));
                    assert(spec_is_admin(opt_strings_view(admin_role_ids), member_roles@));
                    return true;
                }
                j = j + 1;
            }
        }
        i = i + 1;
    }
    false
}

/// `id` is among the mentioned users (`Message::mentions_user_id`).
pub fn mentions_user_id(mentions: &Vec<u64>, id: u64) -> (b: bool)
    ensures
        b == mentions@.contains(id),
{
    let mut i: usize = 0;
    while i < mentions.len()
        invariant
            i <= mentions.len(),
            forall|j: int| 0 <= j < i ==> mentions@[j] != id,
        decreases mentions.len() - i,
    {
        if mentions[i] == id {
            return true;
        }
        i = i + 1;
    }
    false
}

/// Where a message's mentions lead.
pub enum MentionRoute {
    /// The protected user is mentioned.
    ForbiddenUser,
    /// The first mentioned user must be checked for the protected role.
    CheckRole(u64),
    /// No mention to act on.
    Nothing,
}

/// Routes a message by its mentions: the protected user first, otherwise the
/// first mentioned user, who may hold the protected role.
pub fn route_mention(mentions: &Vec<u64>, forbidden_user_id: u64) -> (r: MentionRoute)
    ensures
        mentions@.contains(forbidden_user_id) ==> r is ForbiddenUser,
        !mentions@.contains(forbidden_user_id) && mentions@.len() > 0 ==> r == MentionRoute::CheckRole(mentions@[0]),
        !mentions@.contains(forbidden_user_id) && mentions@.len() == 0 ==> r is Nothing,
{
    if mentions_user_id(mentions, forbidden_user_id) {
        MentionRoute::ForbiddenUser
    } else if mentions.len() > 0 {
        MentionRoute::CheckRole(mentions[0])
    } else {
        MentionRoute::Nothing
    }
}

/// The checks that come before a mention of the protected user is punished:
/// the protected user may mention themselves, an active exception lets the
/// mention through, and the user must really be mentioned.
pub open spec fn spec_forbidden_user_gate(author_id: u64, forbidden_user_id: u64, exception: Option<bool>, mentioned: bool) -> bool {
    author_id != forbidden_user_id && exception != Some(true) && mentioned
}

/// Whether handling a mention of the protected user goes on past the first
/// checks (author, exception, mention).
pub fn forbidden_user_gate(author_id: u64, forbidden_user_id: u64, exception: Option<bool>, mentioned: bool) -> (b: bool)
    ensures
        b == spec_forbidden_user_gate(author_id, forbidden_user_id, exception, mentioned),
{
    if author_id == forbidden_user_id {
        return false;
    }
    if let Some(e) = exception {
        if e {
            return false;
        }
    }
    mentioned
}

/// A mention of the protected user is punished only when admin roles are
/// configured and the author holds none of them.
pub fn forbidden_user_sanctioned(admin_role_ids: Option<&Vec<String>>, member_roles: &Vec<u64>) -> (b: bool)
    ensures
        b == (admin_role_ids is Some && !spec_is_admin(opt_strings_view(admin_role_ids), member_roles@)),
{
    match admin_role_ids {
        None => false,
        Some(_) => !check_admin_exception(admin_role_ids, member_roles),
    }
}

/// A mention of a user with the protected role, or an `@everyone` ping, is
/// punished unless the author holds an admin role.
pub fn sanction_applies(admin_role_ids: Option<&Vec<String>>, member_roles: &Vec<u64>) -> (b: bool)
    ensures
        b == !spec_is_admin(opt_strings_view(admin_role_ids), member_roles@),
{
    !check_admin_exception(admin_role_ids, member_roles)
}

/// The message pings everyone: it holds `@everyone` or `@here`.
pub fn mentions_everyone(content: &str) -> (b: bool)
    ensures
        b == (occurs_in(content@, "@everyone"@) || occurs_in(content@, "@here"@)),
{
    contains(content, "@everyone") || contains(content, "@here")
}

/// Typing by the protected user in the exception channel opens a temporary
/// exception that lets members mention them.
pub fn exception_applies(user_id: u64, forbidden_user_id: u64, channel_id: u64, exception_channel_id: u64) -> (b: bool)
    ensures
        b == (user_id == forbidden_user_id && channel_id == exception_channel_id),
{
    user_id == forbidden_user_id && channel_id == exception_channel_id
}

/// How long the exception opened by typing lasts, in seconds.
pub const EXCEPTION_SECONDS: u64 = 300;

/// When a time out that starts at `now` (Unix seconds) and lasts `timer`
/// seconds ends.
pub fn timeout_end(now: i64, timer: i64) -> (r: i64)
    requires
        i64::MIN <= now + timer <= i64::MAX,
    ensures
        r == now + timer,
{
    now + timer
}

/// A user's warning count.
pub struct Warns {
    pub user_id: u64,
    pub warns: u64,
}

impl Warns {
    /// A user with no warnings yet.
    pub fn new(user_id: u64) -> (w: Warns)
        ensures
            w.user_id == user_id,
            w.warns == 0,
    {
        Warns { user_id, warns: 0 }
    }

    /// The count at which a warned user is also timed out.
    pub fn reaches_limit(&self) -> (b: bool)
        ensures
            b == (self.warns >= 3),
    {
        self.warns >= 3
    }
}

/// Counts one more warning: the stored record, when there is one, becomes the
/// current count plus one; otherwise the fresh count goes up by one. Returns
/// whether a stored record existed (then it is updated, otherwise saved).
pub fn warns_counter(warns: &mut Warns, existing: Option<Warns>) -> (existed: bool)
    requires
        match existing {
            Some(e) => e.warns < u64::MAX,
            None => old(warns).warns < u64::MAX,
        },
    ensures
        existed == existing is Some,
        match existing {
            Some(e) => final(warns).user_id == e.user_id && final(warns).warns == e.warns + 1,
            None => final(warns).user_id == old(warns).user_id && final(warns).warns == old(warns).warns + 1,
        },
{
    match existing {
        Some(mut e) => {
            e.warns = e.warns + 1;
            *warns = e;
            true
        },
        None => {
            warns.warns = warns.warns + 1;
            false
        },
    }
}


/// The warning sent when no warning text is configured.
pub open spec fn default_warn_text() -> Seq<char> {
    "Por favor no hagas @ a este usuario. Si estás respondiendo un mensaje, considera responder al mensaje sin usar @"@
}

/// The time-out notice used when none is configured.
pub open spec fn default_time_out_text() -> Seq<char> {
    "Has sido silenciado por mencionar a un usuario cuyo rol está prohibido de mencionar"@
}

fn default_warn() -> (s: String)
    ensures
        s@ == default_warn_text(),
{
    "Por favor no hagas @ a este usuario. Si estás respondiendo un mensaje, considera responder al mensaje sin usar @".to_owned()
}

fn default_time_out() -> (s: String)
    ensures
        s@ == default_time_out_text(),
{
    "Has sido silenciado por mencionar a un usuario cuyo rol está prohibido de mencionar".to_owned()
}

fn joined(a: &str, b: &str) -> (s: String)
    ensures
        s@ == a@ + " "@ + b@,
{
    let mut s = a.to_owned();
    s.append(" ");
    s.append(b);
    s
}

/// The configured text, or `default` when none is configured.
pub open spec fn or_default(configured: Option<String>, default: Seq<char>) -> Seq<char> {
    match configured {
        Some(c) => c@,
        None => default,
    }
}

/// Warning for a mention of the protected user: the author's tag, a space,
/// then the configured warning or the default one.
pub fn user_warn_message(distinct: &str, configured: Option<String>) -> (s: String)
    ensures
        s@ == distinct@ + " "@ + or_default(configured, default_warn_text()),
{
    let w = match configured {
        Some(c) => c,
        None => default_warn(),
    };
    joined(distinct, w.as_str())
}

/// Time-out notice for a mention of the protected user: the configured text
/// or the default one.
pub fn user_time_out_message(configured: Option<String>) -> (s: String)
    ensures
        s@ == or_default(configured, default_time_out_text()),
{
    match configured {
        Some(c) => c,
        None => default_time_out(),
    }
}

/// Warning for a mention of a user with the protected role: the author's tag,
/// a space, then the configured warning, or else the default warning itself
/// prefixed with the tag (so the tag appears twice).
pub fn role_warn_message(distinct: &str, configured: Option<String>) -> (s: String)
    ensures
        s@ == distinct@ + " "@ + or_default(configured, distinct@ + " "@ + default_warn_text()),
{
    let w = match configured {
        Some(c) => c,
        None => {
            let d = default_warn();
            joined(distinct, d.as_str())
        },
    };
    joined(distinct, w.as_str())
}

/// Time-out notice for a mention of a user with the protected role: the
/// configured text, or the default one prefixed with the author's tag.
pub fn role_time_out_message(distinct: &str, configured: Option<String>) -> (s: String)
    ensures
        s@ == or_default(configured, distinct@ + " "@ + default_time_out_text()),
{
    match configured {
        Some(c) => c,
        None => {
            let d = default_time_out();
            joined(distinct, d.as_str())
        },
    }
}

/// The protected mention a message is handled for.
#[derive(PartialEq, Eq, Structural, Clone, Copy)]
pub enum ProtectedMention {
    /// The protected user was mentioned.
    User,
    /// A user holding the protected role was mentioned.
    Role,
}

/// Why a protected mention could not be handled.
pub enum ModerationError {
    /// The server has no time out length configured.
    NoTimeOut,
    /// The configured time out length is not a number.
    InvalidTimeOut,
}

/// The sanction decided for a protected mention, before the warning is counted.
pub struct Sanction {
    /// Length of the time out, in seconds.
    pub seconds: i64,
    /// The warning posted in the channel.
    pub warn_message: String,
    /// The notice sent with a time out.
    pub time_out_message: String,
}

/// Whether the author of a protected mention is sanctioned: for the protected
/// user, only when admin roles are configured and the author holds none; for
/// the protected role, unless the author holds an admin role.
pub open spec fn spec_sanctioned(kind: ProtectedMention, admin_role_ids: Option<Seq<Seq<char>>>, member_roles: Seq<u64>) -> bool {
    match kind {
        ProtectedMention::User => admin_role_ids is Some && !spec_is_admin(admin_role_ids, member_roles),
        ProtectedMention::Role => !spec_is_admin(admin_role_ids, member_roles),
    }
}

/// The warning posted for a protected mention.
pub open spec fn spec_warn_text(kind: ProtectedMention, distinct: Seq<char>, configured: Option<String>) -> Seq<char> {
    match kind {
        ProtectedMention::User => distinct + " "@ + or_default(configured, default_warn_text()),
        ProtectedMention::Role => distinct + " "@ + or_default(configured, distinct + " "@ + default_warn_text()),
    }
}

/// The notice sent with the time out for a protected mention.
pub open spec fn spec_time_out_text(kind: ProtectedMention, distinct: Seq<char>, configured: Option<String>) -> Seq<char> {
    match kind {
        ProtectedMention::User => or_default(configured, default_time_out_text()),
        ProtectedMention::Role => or_default(configured, distinct + " "@ + default_time_out_text()),
    }
}

/// Decides the sanction for a protected mention, once the author's member
/// record and the server's settings are read. The time out setting is checked
/// first: when it is missing or not a number the handling fails, whoever the
/// author is, and nothing is counted, sent or deleted. Otherwise the author
/// is sanctioned (see `spec_sanctioned`) with the configured time out length
/// and the warning and time out texts.
pub fn decide_sanction(
    kind: ProtectedMention,
    time_out_setting: Option<&str>,
    distinct: &str,
    warn_configured: Option<String>,
    time_out_configured: Option<String>,
    admin_role_ids: Option<&Vec<String>>,
    member_roles: &Vec<u64>,
) -> (r: Result<Option<Sanction>, ModerationError>)
    ensures
        match time_out_setting {
            None => match r {
                Err(e) => e is NoTimeOut,
                Ok(_) => false,
            },
            Some(t) => match spec_parse_i64(t@) {
                None => match r {
                    Err(e) => e is InvalidTimeOut,
                    Ok(_) => false,
                },
                Some(n) => match r {
                    Err(_) => false,
                    Ok(None) => !spec_sanctioned(kind, opt_strings_view(admin_role_ids), member_roles@),
                    Ok(Some(s)) => spec_sanctioned(kind, opt_strings_view(admin_role_ids), member_roles@)
                        && s.seconds == n
                        && s.warn_message@ == spec_warn_text(kind, distinct@, warn_configured)
                        && s.time_out_message@ == spec_time_out_text(kind, distinct@, time_out_configured),
                },
            },
        },
{
    let text = match time_out_setting {
        Some(t) => t,
        None => return Err(ModerationError::NoTimeOut),
    };
    let seconds = match parse_i64(text) {
        Some(n) => n,
        None => return Err(ModerationError::InvalidTimeOut),
    };
    let (warn_message, time_out_message) = match kind {
        ProtectedMention::User => (
            user_warn_message(distinct, warn_configured),
            user_time_out_message(time_out_configured),
        ),
        ProtectedMention::Role => (
            role_warn_message(distinct, warn_configured),
            role_time_out_message(distinct, time_out_configured),
        ),
    };
    let sanctioned = match kind {
        ProtectedMention::User => forbidden_user_sanctioned(admin_role_ids, member_roles),
        ProtectedMention::Role => sanction_applies(admin_role_ids, member_roles),
    };
    if sanctioned {
        Ok(Some(Sanction { seconds, warn_message, time_out_message }))
    } else {
        Ok(None)
    }
}

/// One step of carrying out a sanction, in the order it is done.
pub enum ModAction {
    /// Post the warning, with the author's warning count.
    SendWarning { warns: u64, message: String },
    /// Time the author out.
    TimeOut { seconds: i64, message: String },
    /// Keep a copy of the message (so that its deletion can be logged).
    StoreMessage,
    /// Delete the message, with the reason given to Discord when there is one.
    DeleteMessage { reason: Option<String> },
}

/// The reason given when a message mentioning the protected user is deleted.
pub open spec fn deletion_reason_text() -> Seq<char> {
    "Mensaje eliminado por mencionar a Meica o a un usuario de Rol Chikistrikis"@
}

/// What is done once the author's warning was counted (`warns` is the new
/// count): the warning is posted; from the third warning on, the author is
/// timed out; for the protected user the message is then stored; and last the
/// message is deleted (with a reason for the protected user, without one for
/// the protected role).
pub fn sanction_actions(kind: ProtectedMention, sanction: Sanction, warns: u64) -> (a: Vec<ModAction>)
    ensures
        a@.len() == 2 + (if warns >= 3 { 1int } else { 0int }) + (if kind == ProtectedMention::User { 1int } else { 0int }),
        a@[0] == (ModAction::SendWarning { warns, message: sanction.warn_message }),
        warns >= 3 ==> a@[1] == (ModAction::TimeOut { seconds: sanction.seconds, message: sanction.time_out_message }),
        kind == ProtectedMention::User ==> a@[a@.len() - 2] is StoreMessage,
        match a@[a@.len() - 1] {
            ModAction::DeleteMessage { reason } => match kind {
                ProtectedMention::User => reason is Some && reason->0@ == deletion_reason_text(),
                ProtectedMention::Role => reason is None,
            },
            _ => false,
        },
{
    let mut a: Vec<ModAction> = Vec::new();
    a.push(ModAction::SendWarning { warns, message: sanction.warn_message });
    if warns >= 3 {
        a.push(ModAction::TimeOut { seconds: sanction.seconds, message: sanction.time_out_message });
    }
    match kind {
        ProtectedMention::User => {
            a.push(ModAction::StoreMessage);
            a.push(
                ModAction::DeleteMessage {
                    reason: Some("Mensaje eliminado por mencionar a Meica o a un usuario de Rol Chikistrikis".to_owned()),
                },
            );
        },
        ProtectedMention::Role => {
            a.push(ModAction::DeleteMessage { reason: None });
        },
    }
    a
}

} // verus!
