//! What the bot does with the events that the gateway hands it.

use vstd::prelude::*;
use crate::datastore::user::ScoreBoard;
use crate::handler::application_command::{handle_appliaction_command, kind_of, CommandKind};
use crate::handler::reaction::{
    handle_reaction_add, handle_reaction_remove, handled, routed, Message, Outcome, Reaction,
};
use crate::vote::{ReactionKind, Rejection};

pub mod application_command;
pub mod reaction;

verus! {

/// The bot's own identity: unknown until the gateway tells it, and fixed
/// from then on.
pub struct BotIdentity {
    id: Option<u64>,
}

impl BotIdentity {
    /// The identity, where it is known.
    pub closed spec fn view(self) -> Option<u64> {
        self.id
    }

    /// An identity that is not known yet.
    pub fn new() -> (identity: BotIdentity)
        ensures
            identity@ is None,
    {
        BotIdentity { id: None }
    }

    /// Takes the identity that the gateway tells, unless one is known
    /// already: the first one told stays. Tells whether `id` was taken.
    pub fn establish(&mut self, id: u64) -> (taken: bool)
        ensures
            taken <==> old(self)@ is None,
            final(self)@ == if old(self)@ is None {
                Some(id)
            } else {
                old(self)@
            },
    {
        match self.id {
            Some(_) => false,
            None => {
                self.id = Some(id);
                true
            },
        }
    }

    /// The identity, where it is known.
    pub fn current(&self) -> (id: Option<u64>)
        ensures
            id == self@,
    {
        self.id
    }
}

/// The bot: what it knows of itself, and the scores it keeps.
pub struct Handler {
    giphy_key: String,
    datastore: ScoreBoard,
    bot: BotIdentity,
}

impl Handler {
    /// The handler's invariant: that of its ledger.
    pub closed spec fn wf(self) -> bool {
        self.datastore.wf()
    }

    /// The scores that the handler keeps.
    pub closed spec fn scores(self) -> Map<(u64, u64), int> {
        self.datastore@
    }

    /// The bot's identity, where it is known.
    pub closed spec fn bot_user_id(self) -> Option<u64> {
        self.bot@
    }

    /// The key with which gifs are searched.
    pub closed spec fn key(self) -> Seq<char> {
        self.giphy_key@
    }

    /// A handler that knows the key for the gif search, does not know the
    /// bot's identity yet, and keeps no score but 0.
    pub fn new(giphy_key: String) -> (handler: Handler)
        ensures
            handler.wf(),
            handler.bot_user_id() is None,
            handler.key() == giphy_key@,
            forall|id: u64, guild_id: u64| #[trigger] handler.scores()[(id, guild_id)] == 0,
    {
        let datastore = ScoreBoard::new();
        let handler = Handler { giphy_key, datastore, bot: BotIdentity::new() };
        assert forall|id: u64, guild_id: u64| #[trigger] handler.scores()[(id, guild_id)] == 0 by {
            assert(handler.datastore.score(id, guild_id) == 0);
        }
        handler
    }

    /// The key with which gifs are searched.
    pub fn giphy_key(&self) -> (key: &String)
        ensures
            key@ == self.key(),
    {
        &self.giphy_key
    }

    /// The ledger.
    pub fn datastore(&self) -> (board: &ScoreBoard)
        ensures
            board@ == self.scores(),
            self.wf() ==> board.wf(),
    {
        &self.datastore
    }

    /// The bot's identity, where it is known.
    pub fn bot(&self) -> (id: Option<u64>)
        ensures
            id == self.bot_user_id(),
    {
        self.bot.current()
    }

    /// The gateway is ready and tells the bot who it is. The first identity
    /// told stays; the scores are not touched.
    pub fn ready(&mut self, bot_user_id: u64)
        ensures
            final(self).bot_user_id() == if old(self).bot_user_id() is None {
                Some(bot_user_id)
            } else {
                old(self).bot_user_id()
            },
            final(self).scores() == old(self).scores(),
            final(self).key() == old(self).key(),
            old(self).wf() ==> final(self).wf(),
    {
        let _ = self.bot.establish(bot_user_id);
    }

    /// A command was called. Tells which one it is, so that it can be
    /// answered; tells nothing while the bot does not know its identity.
    pub fn interaction_create(&self, command_name: &str) -> (kind: Option<CommandKind>)
        ensures
            kind == if self.bot_user_id() is None {
                None
            } else {
                kind_of(command_name@)
            },
    {
        if self.bot.current().is_none() {
            return None;
        }
        handle_appliaction_command(command_name)
    }

    /// A reaction was added to a message. While the bot does not know its
    /// identity the reaction is ignored; from then on it is handled as a
    /// possible vote.
    pub fn reaction_add(&mut self, reaction: &Reaction, message: Option<&Message>) -> (outcome:
        Outcome)
        requires
            old(self).wf(),
        ensures
            final(self).wf(),
            final(self).bot_user_id() == old(self).bot_user_id(),
            final(self).key() == old(self).key(),
            old(self).bot_user_id() is None ==> outcome == (Outcome::Ignored {
                reason: Rejection::BotIdentityUnknown,
            }) && final(self).scores() == old(self).scores(),
            old(self).bot_user_id() is Some ==> (outcome, final(self).scores()) == handled(
                old(self).scores(),
                routed(*reaction, ReactionKind::Add, message, old(self).bot_user_id()),
            ),
    {
        let bot = self.bot.current();
        if bot.is_none() {
            return Outcome::Ignored { reason: Rejection::BotIdentityUnknown };
        }
        handle_reaction_add(&mut self.datastore, reaction, message, bot)
    }

    /// A reaction was removed from a message. While the bot does not know
    /// its identity the removal is ignored; from then on it undoes what
    /// adding the reaction did.
    pub fn reaction_remove(&mut self, reaction: &Reaction, message: Option<&Message>) -> (outcome:
        Outcome)
        requires
            old(self).wf(),
        ensures
            final(self).wf(),
            final(self).bot_user_id() == old(self).bot_user_id(),
            final(self).key() == old(self).key(),
            old(self).bot_user_id() is None ==> outcome == (Outcome::Ignored {
                reason: Rejection::BotIdentityUnknown,
            }) && final(self).scores() == old(self).scores(),
            old(self).bot_user_id() is Some ==> (outcome, final(self).scores()) == handled(
                old(self).scores(),
                routed(*reaction, ReactionKind::Remove, message, old(self).bot_user_id()),
            ),
    {
        let bot = self.bot.current();
        if bot.is_none() {
            return Outcome::Ignored { reason: Rejection::BotIdentityUnknown };
        }
        handle_reaction_remove(&mut self.datastore, reaction, message, bot)
    }
}

} // verus!
