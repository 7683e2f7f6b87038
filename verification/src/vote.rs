//! The vote validator: whether a reaction is a vote, for whom, and what it
//! is worth.
//!
//! A reaction counts when it passes every gate, and the gates are tried in a
//! fixed order. The first gate that fails gives the reason of the rejection.
//! Nothing here looks at what was voted before: the worth of a vote follows
//! from the emoji and from whether the reaction was added or taken away.

use vstd::prelude::*;
use vstd::string::StringExecFns;
use crate::codec::CodecError;
use crate::util::{get_thumbs_down, get_thumbs_up, thumbs_down_chars, thumbs_up_chars};

verus! {

/// What an emoji means as a vote.
#[derive(Clone, Copy, Debug, PartialEq, Eq, Structural)]
pub enum EmojiKind {
    /// The emoji that speaks for the submission.
    Upvote,
    /// The emoji that speaks against it.
    Downvote,
    /// Any other emoji: no vote.
    Other,
}

/// Whether a reaction was put on a message or taken off it.
#[derive(Clone, Copy, Debug, PartialEq, Eq, Structural)]
pub enum ReactionKind {
    /// The reaction was added.
    Add,
    /// The reaction was removed.
    Remove,
}

/// Why a reaction changes no score. The variants stand in the order in which
/// the gates are tried.
#[derive(Clone, Copy, Debug, PartialEq, Eq, Structural)]
pub enum Rejection {
    /// The emoji is neither of the two voting emoji.
    IgnoredEmoji,
    /// The reaction names no community.
    NoCommunity,
    /// The message that was reacted to could not be had.
    MessageUnavailable,
    /// The text of the message is not that of a submission.
    NotASubmission,
    /// The text is framed as a submission but names no author.
    MalformedIdentifier,
    /// The bot does not know its own identity yet.
    BotIdentityUnknown,
    /// The message was not posted by the bot.
    NotBotAuthored,
    /// The reaction names no acting user.
    NoActingUser,
    /// The acting user is the author of the submission.
    SelfVote,
    /// The acting user is the bot.
    BotReaction,
}

/// What the validator decides about one reaction.
#[derive(Clone, Copy, Debug, PartialEq, Eq, Structural)]
pub enum VoteDecision {
    /// The reaction is a vote: `delta`, which is 1 or -1, goes to `target`.
    Accept { target: u64, delta: i8 },
    /// The reaction is no vote.
    Reject { reason: Rejection },
}

/// A reaction as the validator sees it.
#[derive(Clone, Copy, Debug, PartialEq, Eq, Structural)]
pub struct ReactionEvent {
    /// What the emoji means.
    pub emoji: EmojiKind,
    /// Who reacted, where that is known.
    pub acting_user: Option<u64>,
    /// Whether the reaction was added or removed.
    pub kind: ReactionKind,
}

/// What the emoji written as `unicode` means.
pub open spec fn emoji_kind(unicode: Seq<char>) -> EmojiKind {
    if unicode == thumbs_up_chars() {
        EmojiKind::Upvote
    } else if unicode == thumbs_down_chars() {
        EmojiKind::Downvote
    } else {
        EmojiKind::Other
    }
}

/// What a vote is worth: adding an upvote or taking a downvote away is worth
/// 1, adding a downvote or taking an upvote away is worth -1, and another
/// emoji is worth nothing.
pub open spec fn vote_delta(emoji: EmojiKind, kind: ReactionKind) -> int {
    match (emoji, kind) {
        (EmojiKind::Upvote, ReactionKind::Add) => 1,
        (EmojiKind::Downvote, ReactionKind::Remove) => 1,
        (EmojiKind::Upvote, ReactionKind::Remove) => -1,
        (EmojiKind::Downvote, ReactionKind::Add) => -1,
        (EmojiKind::Other, _) => 0,
    }
}

/// The reason that a failed decoding gives.
pub open spec fn rejection_of(error: CodecError) -> Rejection {
    match error {
        CodecError::NotASubmission => Rejection::NotASubmission,
        CodecError::MalformedIdentifier => Rejection::MalformedIdentifier,
    }
}

/// The first gate that the reaction fails, if it fails one. The gates, in
/// order: the emoji is a voting emoji; the message text names an author; the
/// bot knows its identity and posted the message; the acting user is known
/// and is not the author; the acting user is not the bot.
pub open spec fn failed_gate(
    event: ReactionEvent,
    author: Result<u64, CodecError>,
    sender: u64,
    bot: Option<u64>,
) -> Option<Rejection> {
    if event.emoji == EmojiKind::Other {
        Some(Rejection::IgnoredEmoji)
    } else if author is Err {
        Some(rejection_of(author->Err_0))
    } else if bot is None {
        Some(Rejection::BotIdentityUnknown)
    } else if sender != bot->Some_0 {
        Some(Rejection::NotBotAuthored)
    } else if event.acting_user is None {
        Some(Rejection::NoActingUser)
    } else if event.acting_user->Some_0 == author->Ok_0 {
        Some(Rejection::SelfVote)
    } else if event.acting_user->Some_0 == bot->Some_0 {
        Some(Rejection::BotReaction)
    } else {
        None
    }
}

/// What the validator decides.
pub open spec fn decision(
    event: ReactionEvent,
    author: Result<u64, CodecError>,
    sender: u64,
    bot: Option<u64>,
) -> VoteDecision {
    match failed_gate(event, author, sender, bot) {
        Some(reason) => VoteDecision::Reject { reason },
        None => VoteDecision::Accept {
            target: author->Ok_0,
            delta: vote_delta(event.emoji, event.kind) as i8,
        },
    }
}

/// Tells what an emoji means from how it is written.
pub fn classify_emoji(unicode: &str) -> (kind: EmojiKind)
    ensures
        kind == emoji_kind(unicode@),
{
    let written = String::from_str(unicode);
    if written == get_thumbs_up() {
        EmojiKind::Upvote
    } else if written == get_thumbs_down() {
        EmojiKind::Downvote
    } else {
        EmojiKind::Other
    }
}

/// The worth of a vote, or nothing where the emoji is no voting emoji.
pub fn sign_of(emoji: EmojiKind, kind: ReactionKind) -> (delta: Option<i8>)
    ensures
        emoji == EmojiKind::Other <==> delta is None,
        delta matches Some(d) ==> d == vote_delta(emoji, kind) && (d == 1 || d == -1),
{
    match emoji {
        EmojiKind::Upvote => match kind {
            ReactionKind::Add => Some(1),
            ReactionKind::Remove => Some(-1),
        },
        EmojiKind::Downvote => match kind {
            ReactionKind::Add => Some(-1),
            ReactionKind::Remove => Some(1),
        },
        EmojiKind::Other => None,
    }
}

/// Decides whether a reaction is a vote.
///
/// `author` is what the codec read out of the message text, `sender` is who
/// posted the message, and `bot` is the bot's own identity, where it is
/// known already.
pub fn validate(
    event: &ReactionEvent,
    author: Result<u64, CodecError>,
    sender: u64,
    bot: Option<u64>,
) -> (verdict: VoteDecision)
    ensures
        verdict == decision(*event, author, sender, bot),
        verdict matches VoteDecision::Accept { target, delta } ==> {
            &&& author == Ok::<u64, CodecError>(target)
            &&& event.acting_user is Some
            &&& event.acting_user != Some(target)
            &&& event.acting_user != bot
            &&& bot == Some(sender)
            &&& delta == vote_delta(event.emoji, event.kind)
            &&& (delta == 1 || delta == -1)
        },
{
    let delta = match sign_of(event.emoji, event.kind) {
        Some(delta) => delta,
        None => {
            return VoteDecision::Reject { reason: Rejection::IgnoredEmoji };
        },
    };
    let target = match author {
        Ok(target) => target,
        Err(CodecError::NotASubmission) => {
            return VoteDecision::Reject { reason: Rejection::NotASubmission };
        },
        Err(CodecError::MalformedIdentifier) => {
            return VoteDecision::Reject { reason: Rejection::MalformedIdentifier };
        },
    };
    let own = match bot {
        Some(own) => own,
        None => {
            return VoteDecision::Reject { reason: Rejection::BotIdentityUnknown };
        },
    };
    if sender != own {
        return VoteDecision::Reject { reason: Rejection::NotBotAuthored };
    }
    let acting = match event.acting_user {
        Some(acting) => acting,
        None => {
            return VoteDecision::Reject { reason: Rejection::NoActingUser };
        },
    };
    if acting == target {
        return VoteDecision::Reject { reason: Rejection::SelfVote };
    }
    if acting == own {
        return VoteDecision::Reject { reason: Rejection::BotReaction };
    }
    VoteDecision::Accept { target, delta }
}

/// A reaction by the author of the submission is never accepted.
pub proof fn lemma_self_vote_rejected(
    event: ReactionEvent,
    author: u64,
    sender: u64,
    bot: Option<u64>,
)
    requires
        event.acting_user == Some(author),
    ensures
        decision(event, Ok(author), sender, bot) is Reject,
{
}

/// A reaction by the bot itself is never accepted.
pub proof fn lemma_bot_reaction_rejected(
    event: ReactionEvent,
    author: Result<u64, CodecError>,
    sender: u64,
    bot: u64,
)
    requires
        event.acting_user == Some(bot),
    ensures
        decision(event, author, sender, Some(bot)) is Reject,
{
}

/// Taking a reaction away is worth the opposite of adding it, so the two
/// together are worth nothing.
pub proof fn lemma_remove_undoes_add(emoji: EmojiKind)
    ensures
        vote_delta(emoji, ReactionKind::Add) + vote_delta(emoji, ReactionKind::Remove) == 0,
{
}

/// Adding and removing do not differ in whether the reaction is accepted,
/// nor in who the vote goes to.
pub proof fn lemma_same_gates_for_add_and_remove(
    emoji: EmojiKind,
    acting_user: Option<u64>,
    author: Result<u64, CodecError>,
    sender: u64,
    bot: Option<u64>,
)
    ensures
        failed_gate(
            (ReactionEvent { emoji, acting_user, kind: ReactionKind::Add }),
            author,
            sender,
            bot,
        ) == failed_gate(
            (ReactionEvent { emoji, acting_user, kind: ReactionKind::Remove }),
            author,
            sender,
            bot,
        ),
{
}

} // verus!
