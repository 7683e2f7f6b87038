//! The reaction router: takes one reaction that was added or removed through
//! the codec and the validator, and hands what comes out to the ledger.
//!
//! A reaction that is no vote changes nothing and is no error. A vote changes
//! one score by one delta, in one step of the ledger.

use vstd::prelude::*;
use crate::codec::{decode, decoded, CodecError};
use crate::datastore::deltas::{credited, lemma_undo_restores, total, Delta};
use crate::datastore::user::{decrement_score, increment_score, ScoreBoard, StoreError};
use crate::vote::{
    classify_emoji, decision, emoji_kind, rejection_of, sign_of, EmojiKind, ReactionEvent,
    ReactionKind, Rejection, VoteDecision,
};

verus! {

/// A reaction as the gateway reports it.
pub struct Reaction {
    /// The emoji, as it is written.
    pub emoji: String,
    /// Who reacted, where the gateway says so.
    pub user_id: Option<u64>,
    /// The community in which the reaction was made, where there is one.
    pub guild_id: Option<u64>,
}

/// What is read of the message that was reacted to.
pub struct Message {
    /// The text of the message.
    pub content: String,
    /// Who posted it.
    pub author_id: u64,
}

/// What became of a reaction.
#[derive(Clone, Copy, Debug, PartialEq, Eq, Structural)]
pub enum Outcome {
    /// The reaction was no vote, and nothing was changed.
    Ignored { reason: Rejection },
    /// The vote was counted.
    Applied { delta: Delta },
    /// The vote was valid but the ledger refused it; nothing was changed.
    Dropped { delta: Delta, error: StoreError },
}

/// Who a message names as the author of a submission, as far as the message
/// alone tells: its text must name an author, and the bot, whose identity
/// must be known, must have posted it.
pub open spec fn submission_author(message: Message, bot: Option<u64>) -> Result<u64, Rejection> {
    match decoded(message.content@) {
        Err(error) => Err(rejection_of(error)),
        Ok(author) => if bot is None {
            Err(Rejection::BotIdentityUnknown)
        } else if message.author_id != bot->Some_0 {
            Err(Rejection::NotBotAuthored)
        } else {
            Ok(author)
        },
    }
}

/// The reason why `acting` may not vote on the submission of `author`, if
/// there is one: the acting user is unknown, is the author, or is the bot.
pub open spec fn voter_rejection(author: u64, acting: Option<u64>, bot: u64) -> Option<Rejection> {
    if acting is None {
        Some(Rejection::NoActingUser)
    } else if acting->Some_0 == author {
        Some(Rejection::SelfVote)
    } else if acting->Some_0 == bot {
        Some(Rejection::BotReaction)
    } else {
        None
    }
}

/// What a reaction comes to: the delta to apply, or the reason why there is
/// none. The emoji is looked at first, then the community, then the message,
/// and last the validator decides.
pub open spec fn routed(
    reaction: Reaction,
    kind: ReactionKind,
    message: Option<&Message>,
    bot: Option<u64>,
) -> Result<Delta, Rejection> {
    let emoji = emoji_kind(reaction.emoji@);
    if emoji == EmojiKind::Other {
        Err(Rejection::IgnoredEmoji)
    } else if reaction.guild_id is None {
        Err(Rejection::NoCommunity)
    } else if message is None {
        Err(Rejection::MessageUnavailable)
    } else {
        match decision(
            ReactionEvent { emoji, acting_user: reaction.user_id, kind },
            decoded(message->Some_0.content@),
            message->Some_0.author_id,
            bot,
        ) {
            VoteDecision::Accept { target, delta } => Ok(
                Delta { id: target, guild_id: reaction.guild_id->Some_0, amount: delta as i64 },
            ),
            VoteDecision::Reject { reason } => Err(reason),
        }
    }
}

/// Reads out of a message who wrote the submission that it relays.
pub fn get_bot_message_author_id(message: &Message, bot: Option<u64>) -> (author: Result<
    u64,
    Rejection,
>)
    ensures
        author == submission_author(*message, bot),
{
    let author = match decode(message.content.as_str()) {
        Ok(author) => author,
        Err(CodecError::NotASubmission) => {
            return Err(Rejection::NotASubmission);
        },
        Err(CodecError::MalformedIdentifier) => {
            return Err(Rejection::MalformedIdentifier);
        },
    };
    match bot {
        None => Err(Rejection::BotIdentityUnknown),
        Some(own) => {
            if own != message.author_id {
                Err(Rejection::NotBotAuthored)
            } else {
                Ok(author)
            }
        },
    }
}

/// Finds the author of the submission and the community of a reaction.
pub fn extract_reaction_data(reaction: &Reaction, message: Option<&Message>, bot: Option<u64>) -> (data:
    Result<(u64, u64), Rejection>)
    ensures
        data == match (reaction.guild_id, message) {
            (None, _) => Err::<(u64, u64), Rejection>(Rejection::NoCommunity),
            (Some(guild_id), None) => Err(Rejection::MessageUnavailable),
            (Some(guild_id), Some(message)) => match submission_author(*message, bot) {
                Ok(author) => Ok((author, guild_id)),
                Err(reason) => Err(reason),
            },
        },
{
    let guild_id = match reaction.guild_id {
        Some(guild_id) => guild_id,
        None => {
            return Err(Rejection::NoCommunity);
        },
    };
    let message = match message {
        Some(message) => message,
        None => {
            return Err(Rejection::MessageUnavailable);
        },
    };
    match get_bot_message_author_id(message, bot) {
        Ok(author) => Ok((author, guild_id)),
        Err(reason) => Err(reason),
    }
}

/// Tells why the user who reacted may not vote on the submission, if so.
pub fn check_voter(meme_author_id: u64, reaction_author_id: Option<u64>, bot_user_id: u64) -> (reason:
    Option<Rejection>)
    ensures
        reason == voter_rejection(meme_author_id, reaction_author_id, bot_user_id),
{
    match reaction_author_id {
        None => Some(Rejection::NoActingUser),
        Some(user_id) => {
            if user_id == meme_author_id {
                Some(Rejection::SelfVote)
            } else if user_id == bot_user_id {
                Some(Rejection::BotReaction)
            } else {
                None
            }
        },
    }
}

/// Whether the user who reacted may vote on the submission: the user is
/// known, and is neither the author of the submission nor the bot.
pub fn validate_author_id(
    meme_author_id: u64,
    reaction_author_id: Option<u64>,
    bot_user_id: u64,
) -> (valid: bool)
    ensures
        valid <==> reaction_author_id is Some && reaction_author_id != Some(meme_author_id)
            && reaction_author_id != Some(bot_user_id),
{
    check_voter(meme_author_id, reaction_author_id, bot_user_id).is_none()
}

/// Moves the score of `user_id` in `guild_id` by one: down where `decrement`
/// is set, up where it is not.
pub fn update_user_score(user_id: u64, guild_id: u64, board: &mut ScoreBoard, decrement: bool) -> (done:
    Result<(), StoreError>)
    requires
        old(board).wf(),
    ensures
        final(board).wf(),
        done is Ok <==> i64::MIN <= old(board).score(user_id, guild_id) + (if decrement {
            -1int
        } else {
            1int
        }) <= i64::MAX,
        done is Err ==> done == Err::<(), StoreError>(StoreError::OutOfRange) && final(board)@
            == old(board)@,
        done is Ok ==> final(board)@ == credited(
            old(board)@,
            (Delta { id: user_id, guild_id, amount: if decrement { -1i64 } else { 1i64 } }),
        ),
{
    proof {
        board.lemma_score_fits(user_id, guild_id);
    }
    if decrement {
        decrement_score(board, user_id, guild_id)
    } else {
        increment_score(board, user_id, guild_id)
    }
}

/// What the ledger holds after a reaction was handled, and what is reported:
/// a reaction that is no vote leaves the scores alone; a vote moves one
/// score by its delta, unless the new score does not fit, in which case the
/// vote is dropped and the scores are left alone.
pub open spec fn handled(
    before: Map<(u64, u64), int>,
    way: Result<Delta, Rejection>,
) -> (Outcome, Map<(u64, u64), int>) {
    match way {
        Err(reason) => (Outcome::Ignored { reason }, before),
        Ok(delta) => {
            let sum = before[(delta.id, delta.guild_id)] + delta.amount;
            if i64::MIN <= sum <= i64::MAX {
                (Outcome::Applied { delta }, credited(before, delta))
            } else {
                (Outcome::Dropped { delta, error: StoreError::OutOfRange }, before)
            }
        },
    }
}

/// Whether the message that was reacted to has to be looked at: the emoji is
/// a voting emoji and the reaction names a community.
pub fn wants_message(reaction: &Reaction) -> (wanted: bool)
    ensures
        wanted <==> emoji_kind(reaction.emoji@) != EmojiKind::Other && reaction.guild_id is Some,
        !wanted ==> forall|kind: ReactionKind, message: Option<&Message>, bot: Option<u64>|
            (#[trigger] routed(*reaction, kind, message, bot)) is Err,
{
    match classify_emoji(reaction.emoji.as_str()) {
        EmojiKind::Other => false,
        _ => reaction.guild_id.is_some(),
    }
}

/// Decides what a reaction comes to, without touching any score.
pub fn route(reaction: &Reaction, kind: ReactionKind, message: Option<&Message>, bot: Option<u64>) -> (way:
    Result<Delta, Rejection>)
    ensures
        way == routed(*reaction, kind, message, bot),
        way matches Ok(delta) ==> delta.amount == 1 || delta.amount == -1,
{
    let emoji = classify_emoji(reaction.emoji.as_str());
    let amount = match sign_of(emoji, kind) {
        Some(amount) => amount,
        None => {
            return Err(Rejection::IgnoredEmoji);
        },
    };
    let (author, guild_id) = match extract_reaction_data(reaction, message, bot) {
        Ok(data) => data,
        Err(reason) => {
            return Err(reason);
        },
    };
    let own = match bot {
        Some(own) => own,
        None => {
            return Err(Rejection::BotIdentityUnknown);
        },
    };
    match check_voter(author, reaction.user_id, own) {
        Some(reason) => Err(reason),
        None => Ok(Delta { id: author, guild_id, amount: amount as i64 }),
    }
}

/// Tells what became of a vote from what the ledger said: the vote was
/// counted, or it was dropped with the ledger's error. A failure of the
/// ledger is never passed on as a failure of the handling.
pub fn settle(delta: Delta, stored: Result<(), StoreError>) -> (outcome: Outcome)
    ensures
        outcome == match stored {
            Ok(_) => Outcome::Applied { delta },
            Err(error) => Outcome::Dropped { delta, error },
        },
{
    match stored {
        Ok(()) => Outcome::Applied { delta },
        Err(error) => Outcome::Dropped { delta, error },
    }
}

/// Handles one reaction, added or removed: decides what it comes to and, if
/// it is a vote, applies its delta to the ledger.
pub fn handle_reaction(
    board: &mut ScoreBoard,
    reaction: &Reaction,
    kind: ReactionKind,
    message: Option<&Message>,
    bot: Option<u64>,
) -> (outcome: Outcome)
    requires
        old(board).wf(),
    ensures
        final(board).wf(),
        (outcome, final(board)@) == handled(old(board)@, routed(*reaction, kind, message, bot)),
        outcome is Ignored ==> final(board)@ == old(board)@,
{
    match route(reaction, kind, message, bot) {
        Err(reason) => Outcome::Ignored { reason },
        Ok(delta) => {
            let stored = update_user_score(delta.id, delta.guild_id, board, delta.amount < 0);
            settle(delta, stored)
        },
    }
}

/// Handles a reaction that was added to a message: an upvote raises the
/// author's score by 1, a downvote lowers it by 1.
///
/// No score changes where the user who reacted is the author whom the
/// message names, nor where that user is the bot.
pub fn handle_reaction_add(
    board: &mut ScoreBoard,
    reaction: &Reaction,
    message: Option<&Message>,
    bot: Option<u64>,
) -> (outcome: Outcome)
    requires
        old(board).wf(),
    ensures
        final(board).wf(),
        (outcome, final(board)@) == handled(
            old(board)@,
            routed(*reaction, ReactionKind::Add, message, bot),
        ),
        outcome is Ignored ==> final(board)@ == old(board)@,
        message matches Some(m) && reaction.user_id is Some && decoded(m.content@) == Ok::<
            u64,
            CodecError,
        >(reaction.user_id->Some_0) ==> outcome is Ignored,
        bot is Some && reaction.user_id == bot ==> outcome is Ignored,
{
    handle_reaction(board, reaction, ReactionKind::Add, message, bot)
}

/// Handles a reaction that was removed from a message: what adding it did
/// is undone, so a removed upvote lowers the author's score by 1 and a
/// removed downvote raises it by 1.
pub fn handle_reaction_remove(
    board: &mut ScoreBoard,
    reaction: &Reaction,
    message: Option<&Message>,
    bot: Option<u64>,
) -> (outcome: Outcome)
    requires
        old(board).wf(),
    ensures
        final(board).wf(),
        (outcome, final(board)@) == handled(
            old(board)@,
            routed(*reaction, ReactionKind::Remove, message, bot),
        ),
        outcome is Ignored ==> final(board)@ == old(board)@,
        message matches Some(m) && reaction.user_id is Some && decoded(m.content@) == Ok::<
            u64,
            CodecError,
        >(reaction.user_id->Some_0) ==> outcome is Ignored,
        bot is Some && reaction.user_id == bot ==> outcome is Ignored,
{
    handle_reaction(board, reaction, ReactionKind::Remove, message, bot)
}

/// A reaction by the author whom the message names comes to nothing,
/// whatever the emoji and whether it was added or removed.
pub proof fn lemma_self_vote_comes_to_nothing(
    reaction: Reaction,
    kind: ReactionKind,
    message: Message,
    bot: Option<u64>,
)
    requires
        reaction.user_id is Some,
        decoded(message.content@) == Ok::<u64, CodecError>(reaction.user_id->Some_0),
    ensures
        routed(reaction, kind, Some(&message), bot) is Err,
{
}

/// A reaction by the bot itself comes to nothing.
pub proof fn lemma_bot_reaction_comes_to_nothing(
    reaction: Reaction,
    kind: ReactionKind,
    message: Option<&Message>,
    bot: u64,
)
    requires
        reaction.user_id == Some(bot),
    ensures
        routed(reaction, kind, message, Some(bot)) is Err,
{
}

/// Adding a reaction and then removing it leaves every score as it was:
/// where the one is a vote the other is too, for the same user in the same
/// community, and their deltas cancel.
pub proof fn lemma_toggle_nets_to_zero(
    scores: Map<(u64, u64), int>,
    reaction: Reaction,
    message: Option<&Message>,
    bot: Option<u64>,
)
    requires
        total(scores),
    ensures
        routed(reaction, ReactionKind::Add, message, bot) is Ok <==> routed(
            reaction,
            ReactionKind::Remove,
            message,
            bot,
        ) is Ok,
        routed(reaction, ReactionKind::Add, message, bot) is Err ==> routed(
            reaction,
            ReactionKind::Add,
            message,
            bot,
        ) == routed(reaction, ReactionKind::Remove, message, bot),
        routed(reaction, ReactionKind::Add, message, bot) matches Ok(added) ==> {
            let removed = routed(reaction, ReactionKind::Remove, message, bot)->Ok_0;
            &&& removed.id == added.id
            &&& removed.guild_id == added.guild_id
            &&& removed.amount + added.amount == 0
            &&& credited(credited(scores, added), removed) == scores
        },
{
    if routed(reaction, ReactionKind::Add, message, bot) is Ok {
        let added = routed(reaction, ReactionKind::Add, message, bot)->Ok_0;
        let removed = routed(reaction, ReactionKind::Remove, message, bot)->Ok_0;
        lemma_undo_restores(scores, added, removed);
    }
}

/// Whether every score fits in a signed 64-bit number, as the scores of a
/// ledger do.
pub open spec fn fits(scores: Map<(u64, u64), int>) -> bool {
    forall|pair: (u64, u64)| i64::MIN <= #[trigger] scores[pair] <= i64::MAX
}

/// Where adding a reaction is counted, removing it is counted too and the
/// ledger holds again what it held before. (A vote that the ledger refuses
/// because the score would not fit is not counted, and removing the
/// reaction then moves the score.)
pub proof fn lemma_counted_toggle_restores(
    scores: Map<(u64, u64), int>,
    reaction: Reaction,
    message: Option<&Message>,
    bot: Option<u64>,
)
    requires
        total(scores),
        fits(scores),
        handled(scores, routed(reaction, ReactionKind::Add, message, bot)).0 is Applied,
    ensures
        ({
            let added = handled(scores, routed(reaction, ReactionKind::Add, message, bot));
            let removed = handled(added.1, routed(reaction, ReactionKind::Remove, message, bot));
            removed.0 is Applied && removed.1 == scores
        }),
{
    lemma_toggle_nets_to_zero(scores, reaction, message, bot);
    let add = routed(reaction, ReactionKind::Add, message, bot)->Ok_0;
    let remove = routed(reaction, ReactionKind::Remove, message, bot)->Ok_0;
    let pair = (add.id, add.guild_id);
    assert(i64::MIN <= scores[pair] <= i64::MAX);
    assert(credited(scores, add)[(remove.id, remove.guild_id)] + remove.amount == scores[pair]);
}

} // verus!
