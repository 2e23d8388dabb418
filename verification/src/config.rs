//! Per-server settings that the moderation commands store, how the stored
//! records are read back, and the decisions the setting commands take.
//!
//! Ids are kept as decimal strings in the stored records, as Discord shows
//! them; the functions here turn ids into those strings and back.

use vstd::prelude::*;
use crate::text::{
    contains, decimal, occurs_in, parse_u64, spec_parse_u64, str_eq, u64_to_string,
};

verus! {

/// The decimal string of an optional id.
pub open spec fn opt_decimal(id: Option<u64>) -> Option<Seq<char>> {
    match id {
        Some(n) => Some(decimal(n as nat)),
        None => None,
    }
}

/// The view of an optional string.
pub open spec fn opt_view(s: Option<String>) -> Option<Seq<char>> {
    match s {
        Some(s) => Some(s@),
        None => None,
    }
}

fn opt_id_string(id: Option<u64>) -> (r: Option<String>)
    ensures
        opt_view(r) == opt_decimal(id),
{
    match id {
        Some(n) => Some(u64_to_string(n)),
        None => None,
    }
}

/// The admin roles of a server (up to two).
pub struct AdminData {
    pub role_id: Option<String>,
    pub role_2_id: Option<String>,
    pub guild_id: String,
}

/// How a stored role string is read back: its `u64` value, or zero when it
/// does not parse.
pub open spec fn parsed_or_zero(s: Seq<char>) -> u64 {
    match spec_parse_u64(s) {
        Some(n) => n,
        None => 0,
    }
}

/// An id stored in decimal (as `AdminData::new`, `ForbiddenUserData::new` and
/// `ForbiddenRoleData::new` store it) reads back as the same id through
/// `get_admin_role`, `get_forbidden_user_id` and `get_role_id`.
pub proof fn lemma_stored_id_reads_back(n: u64)
    ensures
        parsed_or_zero(decimal(n as nat)) == n,
{
    crate::text::lemma_parse_u64_of_decimal(n);
}

impl AdminData {
    /// The record for a server's admin roles, ids written in decimal.
    pub fn new(role_id: Option<u64>, role_2_id: Option<u64>, guild_id: u64) -> (d: AdminData)
        ensures
            opt_view(d.role_id) == opt_decimal(role_id),
            opt_view(d.role_2_id) == opt_decimal(role_2_id),
            d.guild_id@ == decimal(guild_id as nat),
    {
        AdminData {
            role_id: opt_id_string(role_id),
            role_2_id: opt_id_string(role_2_id),
            guild_id: u64_to_string(guild_id),
        }
    }

    /// The first admin role of a stored record, normalized to its decimal
    /// form; an absent role reads as the empty string. A role that reads as
    /// zero is not a valid id and is left out by the precondition.
    pub fn get_admin_role(record: Option<AdminData>) -> (r: Option<String>)
        requires
            match record {
                Some(d) => parsed_or_zero(match d.role_id { Some(s) => s@, None => Seq::empty() }) != 0,
                None => true,
            },
        ensures
            match record {
                Some(d) => r is Some && r->0@ == decimal(
                    parsed_or_zero(match d.role_id { Some(s) => s@, None => Seq::empty() }) as nat,
                ),
                None => r is None,
            },
    {
        match record {
            Some(d) => {
                let role = match d.role_id {
                    Some(s) => s,
                    None => String::new(),
                };
                let n = match parse_u64(role.as_str()) {
                    Some(n) => n,
                    None => 0,
                };
                Some(u64_to_string(n))
            },
            None => None,
        }
    }

    /// The second admin role of a stored record, normalized to its decimal
    /// form, when one is set. A role that reads as zero is not a valid id and
    /// is left out by the precondition.
    pub fn get_admin_role_2(record: Option<AdminData>) -> (r: Option<String>)
        requires
            match record {
                Some(d) => match d.role_2_id {
                    Some(s) => parsed_or_zero(s@) != 0,
                    None => true,
                },
                None => true,
            },
        ensures
            match record {
                Some(d) => match d.role_2_id {
                    Some(s) => r is Some && r->0@ == decimal(parsed_or_zero(s@) as nat),
                    None => r is None,
                },
                None => r is None,
            },
    {
        match record {
            Some(d) => match d.role_2_id {
                Some(s) => {
                    let n = match parse_u64(s.as_str()) {
                        Some(n) => n,
                        None => 0,
                    };
                    Some(u64_to_string(n))
                },
                None => None,
            },
            None => None,
        }
    }
}

/// The user whom members may not mention in a server.
pub struct ForbiddenUserData {
    pub user_id: String,
    pub guild_id: String,
}

impl ForbiddenUserData {
    /// The record for the protected user, ids written in decimal.
    pub fn new(user_id: u64, guild_id: u64) -> (d: ForbiddenUserData)
        ensures
            d.user_id@ == decimal(user_id as nat),
            d.guild_id@ == decimal(guild_id as nat),
    {
        ForbiddenUserData { user_id: u64_to_string(user_id), guild_id: u64_to_string(guild_id) }
    }

    /// The protected user's id in a stored record; a stored id that does not
    /// parse reads as zero.
    pub fn get_forbidden_user_id(record: Option<ForbiddenUserData>) -> (r: Option<u64>)
        ensures
            match record {
                Some(d) => r == Some(parsed_or_zero(d.user_id@)),
                None => r is None,
            },
    {
        match record {
            Some(d) => match parse_u64(d.user_id.as_str()) {
                Some(n) => Some(n),
                None => Some(0),
            },
            None => None,
        }
    }
}

/// The role whose members may not be mentioned in a server.
pub struct ForbiddenRoleData {
    pub role_id: String,
    pub guild_id: u64,
}

impl ForbiddenRoleData {
    /// The record for the protected role, its id written in decimal.
    pub fn new(role_id: u64, guild_id: u64) -> (d: ForbiddenRoleData)
        ensures
            d.role_id@ == decimal(role_id as nat),
            d.guild_id == guild_id,
    {
        ForbiddenRoleData { role_id: u64_to_string(role_id), guild_id }
    }

    /// The protected role's id in a stored record; a stored id that does not
    /// parse reads as zero.
    pub fn get_role_id(record: Option<ForbiddenRoleData>) -> (r: Option<u64>)
        ensures
            match record {
                Some(d) => r == Some(parsed_or_zero(d.role_id@)),
                None => r is None,
            },
    {
        match record {
            Some(d) => match parse_u64(d.role_id.as_str()) {
                Some(n) => Some(n),
                None => Some(0),
            },
            None => None,
        }
    }
}


/// Why a stored setting could not be read.
pub enum ConfigError {
    /// No record is stored for the server.
    NotFound,
    /// The stored id is not a number.
    InvalidId,
}

/// How long a member is timed out, per server (in seconds).
pub struct SetTimeoutTimer {
    pub time: i64,
    pub guild_id: u64,
}

/// Seconds of time out for a choice of the `set_timeout_timer` command; any
/// other text means one minute.
pub open spec fn spec_timeout_seconds(label: Seq<char>) -> i64 {
    if label == "5 Minutos"@ {
        300
    } else if label == "30 Minutos"@ {
        1800
    } else if label == "60 Minutos"@ {
        3600
    } else if label == "1 Semana"@ {
        604_800
    } else {
        60
    }
}

/// How a time out length is shown back to the moderator.
pub open spec fn spec_timeout_label(time: i64) -> Seq<char> {
    if time == 300 {
        "5 Minutos"@
    } else if time == 1800 {
        "30 Minutos"@
    } else if time == 3600 {
        "60 Minutos"@
    } else if time == 604_800 {
        "1 Semana"@
    } else {
        "1 Minuto"@
    }
}

impl SetTimeoutTimer {
    /// The record for a server's time out length.
    pub fn new(time: i64, guild_id: u64) -> (t: SetTimeoutTimer)
        ensures
            t.time == time,
            t.guild_id == guild_id,
    {
        SetTimeoutTimer { time, guild_id }
    }

    /// The time out length of a stored record.
    pub fn get_time_out_timer(record: Option<SetTimeoutTimer>) -> (r: Option<i64>)
        ensures
            match record {
                Some(t) => r == Some(t.time),
                None => r is None,
            },
    {
        match record {
            Some(t) => Some(t.time),
            None => None,
        }
    }
}

/// Seconds of time out for a choice of the `set_timeout_timer` command.
pub fn timeout_seconds(label: &str) -> (t: i64)
    ensures
        t == spec_timeout_seconds(label@),
{
    if str_eq(label, "5 Minutos") {
        300
    } else if str_eq(label, "30 Minutos") {
        1800
    } else if str_eq(label, "60 Minutos") {
        3600
    } else if str_eq(label, "1 Semana") {
        604_800
    } else {
        60
    }
}

/// How a time out length is shown back to the moderator.
pub fn timeout_label(time: i64) -> (s: String)
    ensures
        s@ == spec_timeout_label(time),
{
    if time == 300 {
        "5 Minutos".to_owned()
    } else if time == 1800 {
        "30 Minutos".to_owned()
    } else if time == 3600 {
        "60 Minutos".to_owned()
    } else if time == 604_800 {
        "1 Semana".to_owned()
    } else {
        "1 Minuto".to_owned()
    }
}

/// A time out choice is echoed back as chosen; any other text is read as one
/// minute and echoed as `1 Minuto`.
pub proof fn lemma_timeout_label_roundtrip(label: Seq<char>)
    ensures
        spec_timeout_label(spec_timeout_seconds(label)) == if label == "5 Minutos"@ || label == "30 Minutos"@
            || label == "60 Minutos"@ || label == "1 Semana"@ {
            label
        } else {
            "1 Minuto"@
        },
{
}

/// The reply of `set_timeout_timer`: a first setting is "established", a
/// change "updated".
pub fn timeout_reply(updated: bool, time: i64) -> (s: String)
    ensures
        s@ == (if updated { "El tiempo de timeout se ha actualizado a "@ } else {
            "El tiempo de timeout se ha establecido a "@
        }) + spec_timeout_label(time),
{
    let mut s = if updated {
        "El tiempo de timeout se ha actualizado a ".to_owned()
    } else {
        "El tiempo de timeout se ha establecido a ".to_owned()
    };
    let l = timeout_label(time);
    s.append(l.as_str());
    s
}

/// The warning text a server configured.
pub struct WarnMessageData {
    pub guild_id: u64,
    pub warn_message: String,
}

impl WarnMessageData {
    /// The record for a server's warning text.
    pub fn new(guild_id: u64, warn_message: String) -> (d: WarnMessageData)
        ensures
            d.guild_id == guild_id,
            d.warn_message == warn_message,
    {
        WarnMessageData { guild_id, warn_message }
    }

    /// The warning text of a stored record.
    pub fn get_warn_message(record: Option<WarnMessageData>) -> (r: Option<String>)
        ensures
            match record {
                Some(d) => r == Some(d.warn_message),
                None => r is None,
            },
    {
        match record {
            Some(d) => Some(d.warn_message),
            None => None,
        }
    }
}

/// The time out notice a server configured.
pub struct TimeOutMessageData {
    pub guild_id: u64,
    pub time_out_message: String,
}

impl TimeOutMessageData {
    /// The record for a server's time out notice.
    pub fn new(guild_id: u64, time_out_message: String) -> (d: TimeOutMessageData)
        ensures
            d.guild_id == guild_id,
            d.time_out_message == time_out_message,
    {
        TimeOutMessageData { guild_id, time_out_message }
    }

    /// The time out notice of a stored record.
    pub fn get_time_out_message(record: Option<TimeOutMessageData>) -> (r: Option<String>)
        ensures
            match record {
                Some(d) => r == Some(d.time_out_message),
                None => r is None,
            },
    {
        match record {
            Some(d) => Some(d.time_out_message),
            None => None,
        }
    }
}

/// A server's log channel.
pub struct GuildData {
    pub guild_id: u64,
    pub log_channel_id: u64,
}

impl GuildData {
    /// The record for a server's log channel.
    pub fn new(guild_id: u64, log_channel_id: u64) -> (d: GuildData)
        ensures
            d.guild_id == guild_id,
            d.log_channel_id == log_channel_id,
    {
        GuildData { guild_id, log_channel_id }
    }
}

/// The role given to timed-out members of a server.
pub struct RoleData {
    pub role_id: u64,
    pub guild_id: u64,
}

impl RoleData {
    /// The record for a server's time out role.
    pub fn new(role_id: u64, guild_id: u64) -> (d: RoleData)
        ensures
            d.role_id == role_id,
            d.guild_id == guild_id,
    {
        RoleData { role_id, guild_id }
    }
}

/// The joke a server can switch on against one user.
pub struct Joke {
    pub is_active: bool,
    pub guild_id: String,
    pub target: String,
}

impl Joke {
    /// A joke record.
    pub fn new(guild_id: String, is_active: bool, target: String) -> (j: Joke)
        ensures
            j.guild_id == guild_id,
            j.is_active == is_active,
            j.target == target,
    {
        Joke { is_active, guild_id, target }
    }

    /// Switches the joke on or off (once the stored record was updated).
    pub fn switch(&mut self, enable: bool)
        ensures
            final(self).is_active == enable,
            final(self).guild_id == old(self).guild_id,
            final(self).target == old(self).target,
    {
        self.is_active = enable;
    }

    /// The target user of the stored joke: an error when no joke is stored or
    /// its target is not a number.
    pub fn get_joke_target_id(record: Option<Joke>) -> (r: Result<u64, ConfigError>)
        ensures
            match record {
                None => r == Err::<u64, ConfigError>(ConfigError::NotFound),
                Some(j) => match spec_parse_u64(j.target@) {
                    Some(n) => r == Ok::<u64, ConfigError>(n),
                    None => r == Err::<u64, ConfigError>(ConfigError::InvalidId),
                },
            },
    {
        match record {
            None => Err(ConfigError::NotFound),
            Some(j) => match parse_u64(j.target.as_str()) {
                Some(n) => Ok(n),
                None => Err(ConfigError::InvalidId),
            },
        }
    }

    /// Whether the stored joke is on: an error when no joke is stored.
    pub fn get_joke_status(record: Option<Joke>) -> (r: Result<bool, ConfigError>)
        ensures
            match record {
                None => r == Err::<bool, ConfigError>(ConfigError::NotFound),
                Some(j) => r == Ok::<bool, ConfigError>(j.is_active),
            },
    {
        match record {
            None => Err(ConfigError::NotFound),
            Some(j) => Ok(j.is_active),
        }
    }
}

/// How the joke command reports the joke's state.
pub fn joke_status_text(active: bool) -> (s: String)
    ensures
        s@ == if active { "habilitado"@ } else { "deshabilitado"@ },
{
    if active {
        "habilitado".to_owned()
    } else {
        "deshabilitado".to_owned()
    }
}

/// The channel where the joke is played.
pub struct JokeChannelData {
    pub channel_id: String,
    pub guild_id: String,
}

impl JokeChannelData {
    /// The record for a server's joke channel, ids written in decimal.
    pub fn new(channel_id: u64, guild_id: u64) -> (d: JokeChannelData)
        ensures
            d.channel_id@ == decimal(channel_id as nat),
            d.guild_id@ == decimal(guild_id as nat),
    {
        JokeChannelData { channel_id: u64_to_string(channel_id), guild_id: u64_to_string(guild_id) }
    }
}

/// The server's out-of-context channel.
pub struct OocChannel {
    pub channel_id: String,
    pub guild_id: String,
}

impl OocChannel {
    /// The record for a server's out-of-context channel, ids written in decimal.
    pub fn new(channel_id: u64, guild_id: u64) -> (d: OocChannel)
        ensures
            d.channel_id@ == decimal(channel_id as nat),
            d.guild_id@ == decimal(guild_id as nat),
    {
        OocChannel { channel_id: u64_to_string(channel_id), guild_id: u64_to_string(guild_id) }
    }
}

/// The channel where newcomers are welcomed.
pub struct WelcomeChannelData {
    pub guild_id: String,
    pub channel_id: String,
}

impl WelcomeChannelData {
    /// The record for a server's welcome channel, ids written in decimal.
    pub fn new(guild_id: u64, channel_id: u64) -> (d: WelcomeChannelData)
        ensures
            d.guild_id@ == decimal(guild_id as nat),
            d.channel_id@ == decimal(channel_id as nat),
    {
        WelcomeChannelData { guild_id: u64_to_string(guild_id), channel_id: u64_to_string(channel_id) }
    }

    /// The welcome channel of a stored record: an error when none is stored.
    pub fn get_welcome_channel(record: Option<WelcomeChannelData>) -> (r: Result<String, ConfigError>)
        ensures
            match record {
                None => r == Err::<String, ConfigError>(ConfigError::NotFound),
                Some(d) => r == Ok::<String, ConfigError>(d.channel_id),
            },
    {
        match record {
            None => Err(ConfigError::NotFound),
            Some(d) => Ok(d.channel_id),
        }
    }
}

/// The text sent to welcome newcomers.
pub struct WelcomeMessageData {
    pub guild_id: String,
    pub message: String,
}

impl WelcomeMessageData {
    /// The record for a server's welcome text, the server id written in decimal.
    pub fn new(guild_id: u64, message: String) -> (d: WelcomeMessageData)
        ensures
            d.guild_id@ == decimal(guild_id as nat),
            d.message == message,
    {
        WelcomeMessageData { guild_id: u64_to_string(guild_id), message }
    }
}

/// A link that is banned in a server.
pub struct BlackListData {
    pub link: String,
    pub guild_id: u64,
}

/// A text is accepted as a link to ban when it holds `https://` or `www.`.
pub open spec fn spec_is_valid_link(link: Seq<char>) -> bool {
    occurs_in(link, "https://"@) || occurs_in(link, "www."@)
}

/// A text is accepted as a link to ban exactly when `https://` or `www.`
/// occurs in it, wherever it occurs.
pub proof fn lemma_valid_link_anywhere(link: Seq<char>, i: int)
    ensures
        crate::text::occurs_at(link, "https://"@, i) ==> spec_is_valid_link(link),
        crate::text::occurs_at(link, "www."@, i) ==> spec_is_valid_link(link),
        spec_is_valid_link(link) ==> exists|j: int|
            crate::text::occurs_at(link, "https://"@, j) || crate::text::occurs_at(link, "www."@, j),
{
    if spec_is_valid_link(link) {
        if occurs_in(link, "https://"@) {
            let j = choose|j: int| crate::text::occurs_at(link, "https://"@, j);
            assert(crate::text::occurs_at(link, "https://"@, j) || crate::text::occurs_at(link, "www."@, j));
        } else {
            let j = choose|j: int| crate::text::occurs_at(link, "www."@, j);
            assert(crate::text::occurs_at(link, "https://"@, j) || crate::text::occurs_at(link, "www."@, j));
        }
    }
}

/// What `add_to_blacklist` does with a link.
pub enum BlacklistOutcome {
    /// The text is not accepted as a link.
    InvalidLink,
    /// The link is stored.
    Added,
    /// The link was already banned.
    AlreadyListed,
}

impl BlackListData {
    /// The record for a banned link.
    pub fn new(link: &String, guild_id: u64) -> (d: BlackListData)
        ensures
            d.link@ == link@,
            d.guild_id == guild_id,
    {
        BlackListData { link: link.clone(), guild_id }
    }

    /// Whether a text is accepted as a link to ban.
    pub fn is_valid_link(link: &str) -> (b: bool)
        ensures
            b == spec_is_valid_link(link@),
    {
        contains(link, "https://") || contains(link, "www.")
    }

    /// The banned link of a stored record.
    pub fn get_blacklist_link(record: Option<BlackListData>) -> (r: Option<String>)
        ensures
            match record {
                Some(d) => r == Some(d.link),
                None => r is None,
            },
    {
        match record {
            Some(d) => Some(d.link),
            None => None,
        }
    }

    /// What `add_to_blacklist` does: a text that is not a link is refused; a
    /// link is stored unless it is already banned.
    pub fn add_outcome(link: &str, already_listed: bool) -> (o: BlacklistOutcome)
        ensures
            !spec_is_valid_link(link@) ==> o is InvalidLink,
            spec_is_valid_link(link@) && !already_listed ==> o is Added,
            spec_is_valid_link(link@) && already_listed ==> o is AlreadyListed,
    {
        if !Self::is_valid_link(link) {
            BlacklistOutcome::InvalidLink
        } else if !already_listed {
            BlacklistOutcome::Added
        } else {
            BlacklistOutcome::AlreadyListed
        }
    }
}

} // verus!
