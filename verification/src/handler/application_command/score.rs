//! The `score` command: tells the caller the score of a user.

use vstd::prelude::*;
use vstd::string::StringExecFns;
use crate::datastore::user::{get_score, ScoreBoard};
use crate::decimal::{push_signed_decimal, signed_decimal};
use crate::handler::application_command::{
    declares, same_text, CommandSpec, OptionKind, OptionSpec,
};

verus! {

/// The text that tells the score: the name of the user and the score, both
/// in bold italics.
pub open spec fn score_text(username: Seq<char>, score: int) -> Seq<char> {
    "**_"@ + username + "_** has a score of **_"@ + signed_decimal(score) + "_**"@
}

/// The name under which the command is registered and called.
pub fn name() -> (name: String)
    ensures
        name@ == "score"@,
{
    String::from_str("score")
}

/// What the command is said to do where commands are listed.
pub fn description() -> (description: String)
    ensures
        description@ == "Get a user's score"@,
{
    String::from_str("Get a user's score")
}

/// Declares the command: one option, the user, which has to be given.
pub fn register() -> (command: CommandSpec)
    ensures
        command.name@ == "score"@,
        command.description@ == "Get a user's score"@,
        command.options.len() == 1,
        declares(
            command.options[0],
            "user"@,
            "The user to get the score of"@,
            OptionKind::User,
            true,
        ),
{
    let mut options: Vec<OptionSpec> = Vec::new();
    options.push(
        OptionSpec {
            name: String::from_str("user"),
            description: String::from_str("The user to get the score of"),
            kind: OptionKind::User,
            required: true,
        },
    );
    CommandSpec { name: name(), description: description(), options }
}

/// Writes the text that tells the score of a user.
pub fn score_message(username: &str, score: i64) -> (content: String)
    ensures
        content@ == score_text(username@, score as int),
{
    let mut content = String::from_str("**_");
    content.append(username);
    content.append("_** has a score of **_");
    push_signed_decimal(&mut content, score);
    content.append("_**");
    content
}

/// Answers a call of the command that asks for the score of the user
/// `user_id`, who goes by `username`.
///
/// There is no answer where the call is for another command or was not made
/// in a community. The answer is shown to the caller alone.
pub fn handle_command(
    board: &ScoreBoard,
    command_name: &str,
    guild_id: Option<u64>,
    user_id: u64,
    username: &str,
) -> (reply: Option<String>)
    requires
        board.wf(),
    ensures
        reply is Some <==> command_name@ == "score"@ && guild_id is Some,
        reply matches Some(content) ==> content@ == score_text(
            username@,
            board.score(user_id, guild_id->Some_0),
        ),
{
    if !same_text(command_name, name().as_str()) {
        return None;
    }
    let guild_id = match guild_id {
        Some(guild_id) => guild_id,
        None => {
            return None;
        },
    };
    match get_score(board, user_id, guild_id) {
        Ok(score) => Some(score_message(username, score)),
        Err(_) => None,
    }
}

} // verus!
