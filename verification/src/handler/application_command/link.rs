//! The `link` command: relays a link in the name of the user who sent it.

use vstd::prelude::*;
use vstd::string::StringExecFns;
use crate::decimal::{decimal, push_decimal};
use crate::handler::application_command::{
    declares, find_string_value, same_text, string_value, CommandOption, CommandSpec, OptionKind,
    OptionSpec,
};
use crate::util::{is_url, regex_search, url_pattern};

verus! {

/// What the command answers with.
pub enum LinkReply {
    /// The call gave no link: there is no answer.
    Nothing,
    /// What was given is no link. The answer is shown to the caller alone.
    Invalid { content: String },
    /// The link is relayed to everybody, and the two voting emoji are put
    /// under it.
    Valid { content: String },
}

/// The text that tells the caller that `url` is no link.
pub open spec fn invalid_link_text(url: Seq<char>) -> Seq<char> {
    "_"@ + url + "_  is not a valid link"@
}

/// The text that relays the link `url` of the user `user_id`.
pub open spec fn valid_link_text(user_id: u64, url: Seq<char>) -> Seq<char> {
    "<@!"@ + decimal(user_id as nat) + "> just sent a link: "@ + url
}

/// The name under which the command is registered and called.
pub fn name() -> (name: String)
    ensures
        name@ == "link"@,
{
    String::from_str("link")
}

/// What the command is said to do where commands are listed.
pub fn description() -> (description: String)
    ensures
        description@ == "Send a link"@,
{
    String::from_str("Send a link")
}

/// Declares the command: one option, the link, which has to be given.
pub fn register() -> (command: CommandSpec)
    ensures
        command.name@ == "link"@,
        command.description@ == "Send a link"@,
        command.options.len() == 1,
        declares(command.options[0], "link"@, "The link to be sent"@, OptionKind::String, true),
{
    let mut options: Vec<OptionSpec> = Vec::new();
    options.push(
        OptionSpec {
            name: String::from_str("link"),
            description: String::from_str("The link to be sent"),
            kind: OptionKind::String,
            required: true,
        },
    );
    CommandSpec { name: name(), description: description(), options }
}

/// Writes the answer to a call that gave no link.
pub fn invalid_link_message(url: &str) -> (content: String)
    ensures
        content@ == invalid_link_text(url@),
{
    let mut content = String::from_str("_");
    content.append(url);
    content.append("_  is not a valid link");
    content
}

/// Writes the message that relays a link.
pub fn valid_link_message(user_id: u64, url: &str) -> (content: String)
    ensures
        content@ == valid_link_text(user_id, url@),
{
    let mut content = String::from_str("<@!");
    push_decimal(&mut content, user_id);
    content.append("> just sent a link: ");
    content.append(url);
    content
}

/// Answers a call of the command by `user_id`.
///
/// There is no answer where the call is for another command or gives no
/// text. Otherwise the text is relayed if it holds a link, and refused if
/// not.
pub fn handle_command(command_name: &str, user_id: u64, options: &Vec<CommandOption>) -> (reply:
    LinkReply)
    ensures
        reply is Nothing <==> command_name@ != "link"@ || string_value(options@) is None,
        reply matches LinkReply::Valid { content } ==> {
            let url = string_value(options@)->Some_0;
            regex_search(url_pattern(), url) == Some(true) && content@ == valid_link_text(user_id, url)
        },
        reply matches LinkReply::Invalid { content } ==> {
            let url = string_value(options@)->Some_0;
            regex_search(url_pattern(), url) != Some(true) && content@ == invalid_link_text(url)
        },
{
    if !same_text(command_name, name().as_str()) {
        return LinkReply::Nothing;
    }
    let url = match find_string_value(options) {
        Some(url) => url,
        None => {
            return LinkReply::Nothing;
        },
    };
    if !is_url(url.as_str()) {
        return LinkReply::Invalid { content: invalid_link_message(url.as_str()) };
    }
    LinkReply::Valid { content: valid_link_message(user_id, url.as_str()) }
}

} // verus!
