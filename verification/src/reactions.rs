//! Reactions: the vote that removes messages from the out-of-context channel,
//! and the roles handed out (and taken back) by reacting with an emoji.

use vstd::prelude::*;
use crate::text::{decimal, parse_id, spec_parse_id, str_eq, u64_to_string};
use crate::config::opt_view;
use regex::Regex;

verus! {

/// Removal votes after which a message is deleted.
pub const VOTE_THRESHOLD: usize = 5;

/// Whether a reaction vote removes the message: only in the out-of-context
/// channel, once at least five users voted to remove it.
pub fn vote_removes(message_channel_id: u64, ooc_channel_id: u64, negative: usize) -> (b: bool)
    ensures
        b == (message_channel_id == ooc_channel_id && negative >= 5),
{
    message_channel_id == ooc_channel_id && negative >= VOTE_THRESHOLD
}

/// The emoji of a reaction.
pub enum Emoji {
    /// A server emoji.
    Custom { animated: bool, id: u64, name: Option<String> },
    /// A standard emoji, by its characters.
    Unicode(String),
}

/// How Discord writes an emoji in text (the `Display` form of a reaction):
/// `<:name:id>` (`<a:name:id>` when animated) or the emoji itself.
pub open spec fn emoji_text(e: Emoji) -> Seq<char> {
    match e {
        Emoji::Custom { animated, id, name } => (if animated { "<a:"@ } else { "<:"@ }) + (match name {
            Some(n) => n@,
            None => Seq::empty(),
        }) + ":"@ + decimal(id as nat) + ">"@,
        Emoji::Unicode(s) => s@,
    }
}

/// Writes an emoji the way Discord shows it in text.
pub fn emoji_string(e: &Emoji) -> (s: String)
    ensures
        s@ == emoji_text(*e),
{
    match e {
        Emoji::Custom { animated, id, name } => {
            let mut s = if *animated { "<a:".to_owned() } else { "<:".to_owned() };
            match name {
                Some(n) => s.append(n.as_str()),
                None => {},
            }
            s.append(":");
            let d = u64_to_string(*id);
            s.append(d.as_str());
            s.append(">");
            s
        },
        Emoji::Unicode(u) => u.clone(),
    }
}

/// What the pattern `^<a?:\w+:(\d+)>` captures in its group 1 from `text`
/// (the regex crate's Unicode `\w` and `\d`), or `None` when it does not match.
pub uninterp spec fn emoji_id_capture(text: Seq<char>) -> Option<Seq<char>>;

/// `Regex::captures` with the pattern `^<a?:\w+:(\d+)>`, group 1: the result is
/// `emoji_id_capture` of the text; nothing more is claimed about it.
#[verifier::external_body]
fn regex_emoji_id(text: &str) -> (r: Option<String>)
    ensures
        opt_view(r) == emoji_id_capture(text@),
{
    Regex::new(r"^<a?:\w+:(\d+)>").ok()?.captures(text)?.get(1).map(|m| m.as_str().to_string())
}

/// The id that a reaction's emoji carries, read from its text form with the
/// pattern `^<a?:\w+:(\d+)>`.
pub fn emoji_id(e: &Emoji) -> (r: Option<String>)
    ensures
        opt_view(r) == emoji_id_capture(emoji_text(*e)),
{
    let text = emoji_string(e);
    regex_emoji_id(text.as_str())
}

/// One emoji-to-role assignment of a server.
pub struct RoleAssignment {
    pub emoji_id: String,
    pub role: String,
}

/// Why an assignment could not be applied.
pub enum AutoRoleError {
    /// The emoji carries no id (it is not a server emoji).
    NoEmojiId,
    /// The assigned role is not a valid id.
    InvalidRole,
}

/// Index of the first assignment for `emoji_id`.
pub open spec fn first_assignment(assignments: Seq<RoleAssignment>, emoji_id: Seq<char>) -> Option<int>
    decreases assignments.len(),
{
    if assignments.len() == 0 {
        None
    } else {
        match first_assignment(assignments.drop_last(), emoji_id) {
            Some(i) => Some(i),
            None => if assignments.last().emoji_id@ == emoji_id { Some(assignments.len() - 1) } else { None },
        }
    }
}

proof fn lemma_first_assignment(assignments: Seq<RoleAssignment>, emoji_id: Seq<char>)
    ensures
        match first_assignment(assignments, emoji_id) {
            Some(i) => 0 <= i < assignments.len() && assignments[i].emoji_id@ == emoji_id
                && forall|j: int| 0 <= j < i ==> assignments[j].emoji_id@ != emoji_id,
            None => forall|j: int| 0 <= j < assignments.len() ==> assignments[j].emoji_id@ != emoji_id,
        },
    decreases assignments.len(),
{
    if assignments.len() > 0 {
        let p = assignments.drop_last();
        lemma_first_assignment(p, emoji_id);
        assert(forall|j: int| 0 <= j < p.len() ==> p[j] == assignments[j]);
    }
}

/// The role to give (or take back) for a reaction whose emoji carries
/// `emoji_id`: the role of the first assignment for that emoji, `None` when
/// there is none, an error when that role is not a valid id.
pub fn role_for_emoji_id(assignments: &Vec<RoleAssignment>, emoji_id: &str) -> (r: Result<Option<u64>, AutoRoleError>)
    ensures
        match first_assignment(assignments@, emoji_id@) {
            None => r == Ok::<Option<u64>, AutoRoleError>(None),
            Some(i) => match spec_parse_id(assignments@[i].role@) {
                Some(n) => r == Ok::<Option<u64>, AutoRoleError>(Some(n)),
                None => r == Err::<Option<u64>, AutoRoleError>(AutoRoleError::InvalidRole),
            },
        },
{
    proof {
        lemma_first_assignment(assignments@, emoji_id@);
    }
    let mut i: usize = 0;
    while i < assignments.len()
        invariant
            i <= assignments.len(),
            forall|j: int| 0 <= j < i ==> assignments@[j].emoji_id@ != emoji_id@,
        decreases assignments.len() - i,
    {
        if str_eq(assignments[i].emoji_id.as_str(), emoji_id) {
            assert(first_assignment(assignments@, emoji_id@) == Some(i as int)) by {
                lemma_first_assignment(assignments@, emoji_id@);
                match first_assignment(assignments@, emoji_id@) {
                    Some(k) => {
                        if k < i {
                            assert(assignments@[k].emoji_id@ != emoji_id@);
                        } else if k > i {
                            assert(assignments@[i as int].emoji_id@ != emoji_id@);
                        }
                    },
                    None => {
                        assert(assignments@[i as int].emoji_id@ != emoji_id@);
                    },
                }
            }
            return match parse_id(assignments[i].role.as_str()) {
                Some(n) => Ok(Some(n)),
                None => Err(AutoRoleError::InvalidRole),
            };
        }
        i = i + 1;
    }
    Ok(None)
}

} // verus!
