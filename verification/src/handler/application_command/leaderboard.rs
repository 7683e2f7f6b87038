//! The `leaderboard` command: shows who has the highest scores in the
//! community.

use vstd::prelude::*;
use vstd::string::StringExecFns;
use crate::datastore::user::{get_scores, ScoreBoard};
use crate::decimal::{decimal, push_decimal, push_signed_decimal, signed_decimal};
use crate::handler::application_command::{same_text, CommandSpec, OptionSpec};

verus! {

/// How many users the leaderboard shows at most.
pub const PAGE_SIZE: u16 = 20;

/// What the command answers with.
pub enum LeaderboardReply {
    /// The call is for another command or was not made in a community:
    /// there is no answer.
    Nothing,
    /// Nobody in the community has a score above 0. The answer is shown to
    /// the caller alone.
    NoResults { content: String },
    /// The users to show and their scores, the highest first.
    Scores { scores: Vec<(u64, i64)> },
}

/// One line of the leaderboard: the name in bold italics, then the score.
pub open spec fn line_text(name: Seq<char>, score: int) -> Seq<char> {
    "**_"@ + name + "_**: "@ + signed_decimal(score)
}

/// The lines of the leaderboard, one under the other.
pub open spec fn lines_text(entries: Seq<(String, i64)>) -> Seq<char>
    decreases entries.len(),
{
    if entries.len() == 0 {
        Seq::empty()
    } else if entries.len() == 1 {
        line_text(entries[0].0@, entries[0].1 as int)
    } else {
        lines_text(entries.drop_last()) + "\n"@ + line_text(
            entries.last().0@,
            entries.last().1 as int,
        )
    }
}

/// The line under the leaderboard that tells how many results it shows.
pub open spec fn footer_text(shown: nat) -> Seq<char> {
    "Showing top "@ + decimal(shown) + " result/s"@
}

/// The name under which the command is registered and called.
pub fn name() -> (name: String)
    ensures
        name@ == "leaderboard"@,
{
    String::from_str("leaderboard")
}

/// What the command is said to do where commands are listed.
pub fn description() -> (description: String)
    ensures
        description@ == "Show the server's leaderboard"@,
{
    String::from_str("Show the server's leaderboard")
}

/// Declares the command. It takes no option.
pub fn register() -> (command: CommandSpec)
    ensures
        command.name@ == "leaderboard"@,
        command.description@ == "Show the server's leaderboard"@,
        command.options.len() == 0,
{
    let options: Vec<OptionSpec> = Vec::new();
    CommandSpec { name: name(), description: description(), options }
}

/// Writes the answer for a community in which nobody has a score above 0.
pub fn respond_no_results() -> (content: String)
    ensures
        content@ == "No positive scores were found in this server"@,
{
    String::from_str("No positive scores were found in this server")
}

/// Writes the lines of the leaderboard from the names of the users and
/// their scores, and the footer that tells how many results were found.
///
/// `entries` holds the users whose name could be had, in the order of the
/// leaderboard; `found` is the number of results, named or not.
pub fn respond_with_scores(entries: &Vec<(String, i64)>, found: usize) -> (texts: (String, String))
    ensures
        texts.0@ == lines_text(entries@),
        texts.1@ == footer_text(found as nat),
{
    let mut content = String::new();
    let mut i: usize = 0;
    assert(entries@.subrange(0, 0) =~= Seq::<(String, i64)>::empty());
    while i < entries.len()
        invariant
            i <= entries.len(),
            content@ == lines_text(entries@.subrange(0, i as int)),
        decreases entries.len() - i,
    {
        let ghost seen = entries@.subrange(0, i as int);
        let ghost next = entries@.subrange(0, i + 1);
        let ghost before = content@;
        assert(next.drop_last() =~= seen);
        assert(next.last() == entries[i as int]);
        if i > 0 {
            content.append("\n");
        }
        content.append("**_");
        content.append(entries[i].0.as_str());
        content.append("_**: ");
        push_signed_decimal(&mut content, entries[i].1);
        proof {
            let line = line_text(entries[i as int].0@, entries[i as int].1 as int);
            if i == 0 {
                assert(next[0] == entries[0]);
                assert(content@ =~= line);
            } else {
                assert(content@ =~= before + "\n"@ + line);
            }
        }
        i = i + 1;
    }
    assert(entries@.subrange(0, entries.len() as int) =~= entries@);
    let mut footer = String::from_str("Showing top ");
    push_decimal(&mut footer, found as u64);
    footer.append(" result/s");
    (content, footer)
}

/// Answers a call of the command made in the community `guild_id`.
pub fn handle_command(board: &ScoreBoard, command_name: &str, guild_id: Option<u64>) -> (reply:
    LeaderboardReply)
    requires
        board.wf(),
    ensures
        reply is Nothing <==> command_name@ != "leaderboard"@ || guild_id is None,
        reply matches LeaderboardReply::NoResults { content } ==> {
            &&& content@ == "No positive scores were found in this server"@
            &&& board.is_leaderboard(guild_id->Some_0, PAGE_SIZE as nat, Seq::empty())
        },
        reply matches LeaderboardReply::Scores { scores } ==> {
            &&& scores.len() > 0
            &&& board.is_leaderboard(guild_id->Some_0, PAGE_SIZE as nat, scores@)
        },
{
    if !same_text(command_name, name().as_str()) {
        return LeaderboardReply::Nothing;
    }
    let guild_id = match guild_id {
        Some(guild_id) => guild_id,
        None => {
            return LeaderboardReply::Nothing;
        },
    };
    match get_scores(board, guild_id, PAGE_SIZE) {
        Err(_) => LeaderboardReply::NoResults { content: respond_no_results() },
        Ok(scores) => {
            if scores.len() == 0 {
                assert(scores@ =~= Seq::empty());
                LeaderboardReply::NoResults { content: respond_no_results() }
            } else {
                LeaderboardReply::Scores { scores }
            }
        },
    }
}

} // verus!
