//! The `gif` command: looks gifs up by keywords and posts one of them.

use vstd::prelude::*;
use vstd::string::StringExecFns;
use rand::seq::SliceRandom;
use crate::handler::application_command::{
    declares, find_string_value, same_text, string_value, CommandOption, CommandSpec, OptionKind,
    OptionSpec,
};

verus! {

/// Why no gif is posted.
#[derive(Clone, Copy, Debug, PartialEq, Eq, Structural)]
pub enum GifError {
    /// The search found nothing.
    NoResults,
}

/// The address at which gifs for `keywords` are searched with the key
/// `token`: at most 15 results, in English.
pub open spec fn giphy_url(keywords: Seq<char>, token: Seq<char>) -> Seq<char> {
    "https://api.giphy.com/v1/gifs/search?q="@ + keywords + "&api_key="@ + token
        + "&limit=15&lang=en"@
}

/// The name under which the command is registered and called.
pub fn name() -> (name: String)
    ensures
        name@ == "gif"@,
{
    String::from_str("gif")
}

/// What the command is said to do where commands are listed.
pub fn description() -> (description: String)
    ensures
        description@ == "Send a gif"@,
{
    String::from_str("Send a gif")
}

/// Declares the command: one option, the keywords, which have to be given.
pub fn register() -> (command: CommandSpec)
    ensures
        command.name@ == "gif"@,
        command.description@ == "Send a gif"@,
        command.options.len() == 1,
        declares(
            command.options[0],
            "keywords"@,
            "The keywords to find the gif by"@,
            OptionKind::String,
            true,
        ),
{
    let mut options: Vec<OptionSpec> = Vec::new();
    options.push(
        OptionSpec {
            name: String::from_str("keywords"),
            description: String::from_str("The keywords to find the gif by"),
            kind: OptionKind::String,
            required: true,
        },
    );
    CommandSpec { name: name(), description: description(), options }
}

/// Writes the address at which gifs for `keywords` are searched.
pub fn get_giphy_url(keywords: String, token: &str) -> (url: String)
    ensures
        url@ == giphy_url(keywords@, token@),
{
    let mut url = String::from_str("https://api.giphy.com/v1/gifs/search?q=");
    url.append(keywords.as_str());
    url.append("&api_key=");
    url.append(token);
    url.append("&limit=15&lang=en");
    url
}

/// Answers a call of the command with the address to search at. There is
/// none where the call is for another command or gives no keywords.
pub fn handle_command(command_name: &str, options: &Vec<CommandOption>, giphy_token: &str) -> (search:
    Option<String>)
    ensures
        search is Some <==> command_name@ == "gif"@ && string_value(options@) is Some,
        search matches Some(url) ==> url@ == giphy_url(string_value(options@)->Some_0, giphy_token@),
{
    if !same_text(command_name, name().as_str()) {
        return None;
    }
    match find_string_value(options) {
        Some(keywords) => Some(get_giphy_url(keywords.clone(), giphy_token)),
        None => None,
    }
}

/// Picks one of `urls` by chance with `SliceRandom::choose` of the `rand`
/// crate, on the random number generator of the thread. Which one is picked
/// is open; taken on trust is that nothing is picked from an empty list and
/// that what is picked from another is one of its members.
#[verifier::external_body]
fn choose_one(urls: &Vec<String>) -> (picked: Option<&String>)
    ensures
        picked is None <==> urls.len() == 0,
        picked matches Some(url) ==> exists|i: int| 0 <= i < urls.len() && urls[i] == *url,
{
    urls.choose(&mut rand::thread_rng())
}

/// Turns the pick into the gif to post: the one that was picked, or the
/// error that the search found nothing where nothing was picked.
pub fn picked_gif(picked: Option<&String>) -> (gif: Result<String, GifError>)
    ensures
        gif == match picked {
            Some(url) => Ok::<String, GifError>(*url),
            None => Err(GifError::NoResults),
        },
{
    match picked {
        Some(url) => Ok(url.clone()),
        None => Err(GifError::NoResults),
    }
}

/// Picks, by chance, the gif to post out of what the search found.
///
/// Fails exactly when the search found nothing. What is picked is one of
/// the results.
pub fn get_gif_url(found: &Vec<String>) -> (gif: Result<String, GifError>)
    ensures
        gif is Err <==> found.len() == 0,
        gif is Err ==> gif == Err::<String, GifError>(GifError::NoResults),
        gif matches Ok(url) ==> exists|i: int| 0 <= i < found.len() && found[i] == url,
{
    picked_gif(choose_one(found))
}

} // verus!
