//! What the bot does with each new message: the chain of checks it runs, the
//! reaction to its own emoji, and which attachments it keeps as audio.

use vstd::prelude::*;
use crate::text::{chars_of, matches_at, occurs_at, slice_chars, str_eq, string_of};

verus! {

/// One check run on every new message.
#[derive(PartialEq, Eq, Structural, Clone, Copy)]
pub enum MessageState {
    /// Keep audio attachments.
    Attachment,
    /// Mentions of the protected user or role.
    ForbiddenMention,
    /// `@everyone` and `@here` pings.
    Everyone,
    /// The same link posted across channels.
    Spam,
    /// Keep a copy of the message.
    Logger,
}

/// The checks, in the order they run.
pub open spec fn all_states() -> Seq<MessageState> {
    seq![
        MessageState::Attachment,
        MessageState::ForbiddenMention,
        MessageState::Everyone,
        MessageState::Spam,
        MessageState::Logger,
    ]
}

/// The message text the bot answers by reacting with its own emoji.
pub open spec fn hoja_yo_text() -> Seq<char> {
    "<:HojaYo:1082385549450563584>"@
}

/// The id of the emoji the bot reacts with.
pub const HOJA_YO_EMOJI_ID: u64 = 1_082_385_549_450_563_584;

/// Runs the checks of every new message.
pub struct MessageProcessor {
    pub states: Vec<MessageState>,
}

/// What is done with one message.
pub struct ProcessPlan {
    /// React with the bot's own emoji.
    pub react: bool,
    /// The checks to run, in order.
    pub steps: Vec<MessageState>,
}

impl MessageProcessor {
    /// A processor with every check, in order: attachments, forbidden
    /// mentions, `@everyone`, spam, logging.
    pub fn new() -> (p: MessageProcessor)
        ensures
            p.states@ == all_states(),
    {
        let mut states = Vec::new();
        states.push(MessageState::Attachment);
        states.push(MessageState::ForbiddenMention);
        states.push(MessageState::Everyone);
        states.push(MessageState::Spam);
        states.push(MessageState::Logger);
        assert(states@ =~= all_states());
        MessageProcessor { states }
    }

    /// What is done with a message: nothing for bots; otherwise the reaction
    /// when the text is exactly the bot's emoji, then every check in order.
    pub fn process(&self, author_is_bot: bool, content: &str) -> (p: ProcessPlan)
        ensures
            author_is_bot ==> !p.react && p.steps@.len() == 0,
            !author_is_bot ==> p.react == (content@ == hoja_yo_text()) && p.steps@ == self.states@,
    {
        if author_is_bot {
            return ProcessPlan { react: false, steps: Vec::new() };
        }
        let react = str_eq(content, "<:HojaYo:1082385549450563584>");
        let mut steps: Vec<MessageState> = Vec::new();
        let mut i: usize = 0;
        while i < self.states.len()
            invariant
                i <= self.states.len(),
                steps@ == self.states@.subrange(0, i as int),
            decreases self.states.len() - i,
        {
            steps.push(self.states[i]);
            i = i + 1;
        }
        assert(steps@ =~= self.states@);
        ProcessPlan { react, steps }
    }
}

/// An attachment of a message: its declared content type and its address.
pub struct Attachment {
    pub content_type: Option<String>,
    pub url: String,
}

/// The attachment is audio: its content type starts with `audio`.
pub open spec fn is_audio(a: Attachment) -> bool {
    match a.content_type {
        Some(t) => occurs_at(t@, "audio"@, 0),
        None => false,
    }
}

/// The addresses of the audio attachments, in order.
pub open spec fn audio_urls(atts: Seq<Attachment>) -> Seq<Seq<char>>
    decreases atts.len(),
{
    if atts.len() == 0 {
        Seq::empty()
    } else {
        let rest = audio_urls(atts.drop_last());
        if is_audio(atts.last()) { rest.push(atts.last().url@) } else { rest }
    }
}

/// An attachment's address is kept exactly when its content type starts with
/// `audio` (`audio/mpeg`, `audio/ogg`, `audio/wav`, ...): adding an attachment
/// after others adds its address after theirs when its type starts with
/// `audio`, and adds nothing when its type does not, or is not given.
pub proof fn lemma_audio_kept_by_prefix(atts: Seq<Attachment>, a: Attachment)
    ensures
        match a.content_type {
            Some(t) => if "audio"@.is_prefix_of(t@) {
                audio_urls(atts.push(a)) == audio_urls(atts).push(a.url@)
            } else {
                audio_urls(atts.push(a)) == audio_urls(atts)
            },
            None => audio_urls(atts.push(a)) == audio_urls(atts),
        },
{
    assert(atts.push(a).drop_last() =~= atts);
    assert(atts.push(a).last() == a);
}

/// The audio attachments of a message, whose addresses are kept so that a
/// deleted voice message can be recovered.
pub fn audio_attachment_urls(attachments: &Vec<Attachment>) -> (r: Vec<String>)
    ensures
        r@.map_values(|s: String| s@) == audio_urls(attachments@),
{
    let audio = chars_of("audio");
    let mut r: Vec<String> = Vec::new();
    let mut i: usize = 0;
    while i < attachments.len()
        invariant
            i <= attachments.len(),
            audio@ == "audio"@,
            r@.map_values(|s: String| s@) == audio_urls(attachments@.subrange(0, i as int)),
        decreases attachments.len() - i,
    {
        proof {
            assert(attachments@.subrange(0, i + 1).drop_last() =~= attachments@.subrange(0, i as int));
        }
        let a = &attachments[i];
        let keep = match &a.content_type {
            Some(t) => {
                let tc = chars_of(t.as_str());
                if tc.len() >= audio.len() {
                    matches_at(&tc, &audio, 0)
                } else {
                    false
                }
            },
            None => false,
        };
        let ghost before = r@;
        if keep {
            r.push(a.url.clone());
            proof {
                assert(r@.map_values(|s: String| s@) =~= before.map_values(|s: String| s@).push(a.url@));
            }
        }
        i = i + 1;
    }
    assert(attachments@.subrange(0, attachments.len() as int) =~= attachments@);
    r
}


/// A deleted message is reported in the log channel when it had text and was
/// not itself in the log channel.
pub fn deleted_message_logged(content: &str, channel_id: u64, log_channel_id: u64) -> (b: bool)
    ensures
        b == (content@.len() > 0 && channel_id != log_channel_id),
{
    !content.is_empty() && channel_id != log_channel_id
}

/// The characters after the last `/` of `s` (all of `s` when it has none).
pub open spec fn last_segment(s: Seq<char>) -> Seq<char>
    decreases s.len(),
{
    if s.len() == 0 {
        s
    } else if s.last() == '/' {
        Seq::empty()
    } else {
        last_segment(s.drop_last()).push(s.last())
    }
}

/// Where a deleted voice message is downloaded: `/tmp/` and the last segment
/// of its address.
pub fn audio_download_path(url: &str) -> (p: String)
    ensures
        p@ == "/tmp/"@ + last_segment(url@),
{
    let v = chars_of(url);
    let mut start: usize = 0;
    let mut i: usize = 0;
    while i < v.len()
        invariant
            i <= v.len(),
            start <= i,
            v@ == url@,
            last_segment(v@.subrange(0, i as int)) == v@.subrange(start as int, i as int),
        decreases v.len() - i,
    {
        proof {
            assert(v@.subrange(0, i + 1).drop_last() =~= v@.subrange(0, i as int));
        }
        if v[i] == '/' {
            start = i + 1;
            assert(v@.subrange(start as int, i + 1) =~= Seq::<char>::empty());
        } else {
            assert(v@.subrange(start as int, i + 1) =~= v@.subrange(start as int, i as int).push(v@[i as int]));
        }
        i = i + 1;
    }
    assert(v@.subrange(0, v.len() as int) =~= v@);
    let seg = slice_chars(&v, start, v.len());
    let seg_s = string_of(&seg);
    let mut p = "/tmp/".to_owned();
    p.append(seg_s.as_str());
    p
}

} // verus!
