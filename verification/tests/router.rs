use memsther::codec::encode;
use memsther::datastore::deltas::Delta;
use memsther::datastore::user::{ScoreBoard, StoreError};
use memsther::handler::reaction::{
    check_voter, extract_reaction_data, get_bot_message_author_id, handle_reaction,
    handle_reaction_add, handle_reaction_remove, route, settle, update_user_score,
    validate_author_id,
    wants_message, Message, Outcome, Reaction,
};
use memsther::handler::{BotIdentity, Handler};
use memsther::handler::application_command::CommandKind;
use memsther::vote::{ReactionKind, Rejection};

const BOT: u64 = 1000;

fn reaction(emoji: &str, user_id: Option<u64>, guild_id: Option<u64>) -> Reaction {
    Reaction { emoji: emoji.to_string(), user_id, guild_id }
}

fn submission(author: u64) -> Message {
    Message { content: encode(author), author_id: BOT }
}

fn ignored(reason: Rejection) -> Outcome {
    Outcome::Ignored { reason }
}

#[test]
fn upvote_by_another_user_raises_the_author() {
    let mut board = ScoreBoard::new();
    let outcome =
        handle_reaction_add(&mut board, &reaction("👍", Some(7), Some(9)), Some(&submission(42)), Some(BOT));
    assert_eq!(outcome, Outcome::Applied { delta: Delta { id: 42, guild_id: 9, amount: 1 } });
    assert_eq!(board.read(42, 9), 1);
    assert_eq!(board.read(7, 9), 0);
}

#[test]
fn downvote_by_another_user_lowers_the_author() {
    let mut board = ScoreBoard::new();
    let outcome =
        handle_reaction_add(&mut board, &reaction("👎", Some(7), Some(9)), Some(&submission(42)), Some(BOT));
    assert_eq!(outcome, Outcome::Applied { delta: Delta { id: 42, guild_id: 9, amount: -1 } });
    assert_eq!(board.read(42, 9), -1);
}

#[test]
fn upvote_by_the_author_changes_nothing() {
    let mut board = ScoreBoard::new();
    let outcome =
        handle_reaction_add(&mut board, &reaction("👍", Some(42), Some(9)), Some(&submission(42)), Some(BOT));
    assert_eq!(outcome, ignored(Rejection::SelfVote));
    assert_eq!(board.read(42, 9), 0);
    assert_eq!(board.top_n(9, 20), Vec::<(u64, i64)>::new());
}

#[test]
fn reaction_to_another_message_changes_nothing() {
    let mut board = ScoreBoard::new();
    let message = Message { content: "good morning everybody".to_string(), author_id: BOT };
    let outcome = handle_reaction_add(&mut board, &reaction("👍", Some(7), Some(9)), Some(&message), Some(BOT));
    assert_eq!(outcome, ignored(Rejection::NotASubmission));
    assert_eq!(board.top_n(9, 20), Vec::<(u64, i64)>::new());
}

#[test]
fn reaction_by_the_bot_changes_nothing() {
    let mut board = ScoreBoard::new();
    for emoji in ["👍", "👎"] {
        let outcome =
            handle_reaction_add(&mut board, &reaction(emoji, Some(BOT), Some(9)), Some(&submission(42)), Some(BOT));
        assert_eq!(outcome, ignored(Rejection::BotReaction));
    }
    assert_eq!(board.read(42, 9), 0);
}

#[test]
fn adding_and_removing_nets_to_zero() {
    for emoji in ["👍", "👎"] {
        let mut board = ScoreBoard::new();
        assert_eq!(board.apply_delta(42, 9, 5), Ok(()));
        let r = reaction(emoji, Some(7), Some(9));
        let m = submission(42);
        let added = handle_reaction_add(&mut board, &r, Some(&m), Some(BOT));
        assert!(matches!(added, Outcome::Applied { .. }));
        assert_ne!(board.read(42, 9), 5);
        let removed = handle_reaction_remove(&mut board, &r, Some(&m), Some(BOT));
        assert!(matches!(removed, Outcome::Applied { .. }));
        assert_eq!(board.read(42, 9), 5);
    }
}

#[test]
fn removing_an_upvote_lowers_and_removing_a_downvote_raises() {
    let mut board = ScoreBoard::new();
    let m = submission(42);
    handle_reaction_remove(&mut board, &reaction("👍", Some(7), Some(9)), Some(&m), Some(BOT));
    assert_eq!(board.read(42, 9), -1);
    handle_reaction_remove(&mut board, &reaction("👎", Some(7), Some(9)), Some(&m), Some(BOT));
    handle_reaction_remove(&mut board, &reaction("👎", Some(8), Some(9)), Some(&m), Some(BOT));
    assert_eq!(board.read(42, 9), 1);
}

#[test]
fn gates_before_the_message() {
    let mut board = ScoreBoard::new();
    let m = submission(42);
    assert_eq!(
        handle_reaction_add(&mut board, &reaction("❤", Some(7), Some(9)), Some(&m), Some(BOT)),
        ignored(Rejection::IgnoredEmoji)
    );
    assert_eq!(
        handle_reaction_add(&mut board, &reaction("👍", Some(7), None), Some(&m), Some(BOT)),
        ignored(Rejection::NoCommunity)
    );
    assert_eq!(
        handle_reaction_add(&mut board, &reaction("👍", Some(7), Some(9)), None, Some(BOT)),
        ignored(Rejection::MessageUnavailable)
    );
    assert_eq!(
        handle_reaction_add(&mut board, &reaction("❤", None, None), None, None),
        ignored(Rejection::IgnoredEmoji)
    );
    assert_eq!(
        handle_reaction_add(&mut board, &reaction("👍", None, None), None, None),
        ignored(Rejection::NoCommunity)
    );
    assert_eq!(board.read(42, 9), 0);
}

#[test]
fn gates_after_the_message() {
    let mut board = ScoreBoard::new();
    let m = submission(42);
    assert_eq!(
        handle_reaction_add(&mut board, &reaction("👍", Some(7), Some(9)), Some(&m), None),
        ignored(Rejection::BotIdentityUnknown)
    );
    let foreign = Message { content: encode(42), author_id: 5 };
    assert_eq!(
        handle_reaction_add(&mut board, &reaction("👍", Some(7), Some(9)), Some(&foreign), Some(BOT)),
        ignored(Rejection::NotBotAuthored)
    );
    assert_eq!(
        handle_reaction_add(&mut board, &reaction("👍", None, Some(9)), Some(&m), Some(BOT)),
        ignored(Rejection::NoActingUser)
    );
    let broken =
        Message { content: "<@!0000000000000000004x> just sent a meme!".to_string(), author_id: BOT };
    assert_eq!(
        handle_reaction_add(&mut board, &reaction("👍", Some(7), Some(9)), Some(&broken), Some(BOT)),
        ignored(Rejection::MalformedIdentifier)
    );
    assert_eq!(board.read(42, 9), 0);
}

#[test]
fn a_vote_on_a_meme_with_a_text_counts() {
    let mut board = ScoreBoard::new();
    let message = Message { content: format!("{}\n\nlook at this", encode(42)), author_id: BOT };
    let outcome = handle_reaction_add(&mut board, &reaction("👍", Some(7), Some(9)), Some(&message), Some(BOT));
    assert_eq!(outcome, Outcome::Applied { delta: Delta { id: 42, guild_id: 9, amount: 1 } });
}

#[test]
fn a_vote_that_does_not_fit_is_dropped() {
    let mut board = ScoreBoard::new();
    assert_eq!(board.apply_delta(42, 9, i64::MAX), Ok(()));
    let outcome =
        handle_reaction_add(&mut board, &reaction("👍", Some(7), Some(9)), Some(&submission(42)), Some(BOT));
    assert_eq!(
        outcome,
        Outcome::Dropped {
            delta: Delta { id: 42, guild_id: 9, amount: 1 },
            error: StoreError::OutOfRange
        }
    );
    assert_eq!(board.read(42, 9), i64::MAX);
}

#[test]
fn route_decides_without_a_ledger() {
    let m = submission(42);
    assert_eq!(
        route(&reaction("👍", Some(7), Some(9)), ReactionKind::Add, Some(&m), Some(BOT)),
        Ok(Delta { id: 42, guild_id: 9, amount: 1 })
    );
    assert_eq!(
        route(&reaction("👍", Some(7), Some(9)), ReactionKind::Remove, Some(&m), Some(BOT)),
        Ok(Delta { id: 42, guild_id: 9, amount: -1 })
    );
    assert_eq!(
        route(&reaction("👎", Some(7), Some(9)), ReactionKind::Remove, Some(&m), Some(BOT)),
        Ok(Delta { id: 42, guild_id: 9, amount: 1 })
    );
    assert_eq!(
        route(&reaction("👍", Some(42), Some(9)), ReactionKind::Add, Some(&m), Some(BOT)),
        Err(Rejection::SelfVote)
    );
}

#[test]
fn handle_reaction_takes_the_kind() {
    let mut board = ScoreBoard::new();
    let m = submission(42);
    let r = reaction("👍", Some(7), Some(9));
    handle_reaction(&mut board, &r, ReactionKind::Add, Some(&m), Some(BOT));
    handle_reaction(&mut board, &r, ReactionKind::Add, Some(&m), Some(BOT));
    handle_reaction(&mut board, &r, ReactionKind::Remove, Some(&m), Some(BOT));
    assert_eq!(board.read(42, 9), 1);
}

#[test]
fn wants_message_screens_the_reaction() {
    assert!(wants_message(&reaction("👍", None, Some(9))));
    assert!(wants_message(&reaction("👎", Some(7), Some(9))));
    assert!(!wants_message(&reaction("👍", Some(7), None)));
    assert!(!wants_message(&reaction("❤", Some(7), Some(9))));
}

#[test]
fn author_is_read_out_of_a_bot_message() {
    let m = submission(42);
    assert_eq!(get_bot_message_author_id(&m, Some(BOT)), Ok(42));
    assert_eq!(get_bot_message_author_id(&m, None), Err(Rejection::BotIdentityUnknown));
    assert_eq!(get_bot_message_author_id(&m, Some(5)), Err(Rejection::NotBotAuthored));
    let other = Message { content: "hi".to_string(), author_id: BOT };
    assert_eq!(get_bot_message_author_id(&other, None), Err(Rejection::NotASubmission));
}

#[test]
fn reaction_data_is_author_and_community() {
    let m = submission(42);
    assert_eq!(extract_reaction_data(&reaction("👍", Some(7), Some(9)), Some(&m), Some(BOT)), Ok((42, 9)));
    assert_eq!(
        extract_reaction_data(&reaction("👍", Some(7), None), Some(&m), Some(BOT)),
        Err(Rejection::NoCommunity)
    );
    assert_eq!(
        extract_reaction_data(&reaction("👍", Some(7), Some(9)), None, Some(BOT)),
        Err(Rejection::MessageUnavailable)
    );
}

#[test]
fn voter_must_be_known_and_neither_author_nor_bot() {
    assert!(validate_author_id(42, Some(7), BOT));
    assert!(!validate_author_id(42, Some(42), BOT));
    assert!(!validate_author_id(42, Some(BOT), BOT));
    assert!(!validate_author_id(42, None, BOT));
    assert_eq!(check_voter(42, Some(7), BOT), None);
    assert_eq!(check_voter(42, None, BOT), Some(Rejection::NoActingUser));
    assert_eq!(check_voter(42, Some(42), BOT), Some(Rejection::SelfVote));
    assert_eq!(check_voter(42, Some(BOT), BOT), Some(Rejection::BotReaction));
    assert_eq!(check_voter(BOT, Some(BOT), BOT), Some(Rejection::SelfVote));
}

#[test]
fn update_user_score_moves_up_or_down() {
    let mut board = ScoreBoard::new();
    assert_eq!(update_user_score(42, 9, &mut board, false), Ok(()));
    assert_eq!(update_user_score(42, 9, &mut board, false), Ok(()));
    assert_eq!(update_user_score(42, 9, &mut board, true), Ok(()));
    assert_eq!(board.read(42, 9), 1);
}

#[test]
fn bot_identity_is_set_once() {
    let mut identity = BotIdentity::new();
    assert_eq!(identity.current(), None);
    assert!(identity.establish(BOT));
    assert_eq!(identity.current(), Some(BOT));
    assert!(!identity.establish(5));
    assert_eq!(identity.current(), Some(BOT));
}

#[test]
fn handler_ignores_events_until_it_is_ready() {
    let mut handler = Handler::new("key".to_string());
    let m = submission(42);
    let r = reaction("👍", Some(7), Some(9));
    assert_eq!(handler.bot(), None);
    assert_eq!(handler.reaction_add(&r, Some(&m)), ignored(Rejection::BotIdentityUnknown));
    assert_eq!(handler.reaction_remove(&r, Some(&m)), ignored(Rejection::BotIdentityUnknown));
    assert_eq!(handler.interaction_create("meme"), None);
    assert_eq!(handler.datastore().read(42, 9), 0);
    handler.ready(BOT);
    assert_eq!(handler.bot(), Some(BOT));
    assert_eq!(handler.interaction_create("meme"), Some(CommandKind::Meme));
    assert_eq!(handler.interaction_create("nothing"), None);
    assert!(matches!(handler.reaction_add(&r, Some(&m)), Outcome::Applied { .. }));
    assert_eq!(handler.datastore().read(42, 9), 1);
    assert!(matches!(handler.reaction_remove(&r, Some(&m)), Outcome::Applied { .. }));
    assert_eq!(handler.datastore().read(42, 9), 0);
    handler.ready(5);
    assert_eq!(handler.bot(), Some(BOT));
    assert_eq!(handler.giphy_key(), "key");
}

#[test]
fn a_failure_of_the_ledger_drops_the_vote() {
    let delta = Delta { id: 42, guild_id: 9, amount: 1 };
    assert_eq!(settle(delta, Ok(())), Outcome::Applied { delta });
    assert_eq!(
        settle(delta, Err(StoreError::Unavailable)),
        Outcome::Dropped { delta, error: StoreError::Unavailable }
    );
}

#[test]
fn toggling_at_the_upper_bound_is_not_undone() {
    let mut board = ScoreBoard::new();
    assert_eq!(board.apply_delta(42, 9, i64::MAX), Ok(()));
    let r = reaction("👍", Some(7), Some(9));
    let m = submission(42);
    assert!(matches!(handle_reaction_add(&mut board, &r, Some(&m), Some(BOT)), Outcome::Dropped { .. }));
    assert!(matches!(handle_reaction_remove(&mut board, &r, Some(&m), Some(BOT)), Outcome::Applied { .. }));
    assert_eq!(board.read(42, 9), i64::MAX - 1);
}
