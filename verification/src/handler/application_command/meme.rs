//! The `meme` command: relays a meme in the name of the user who sent it.
//!
//! The message that relays the meme starts with the frame that names the
//! sender, so that later reactions to it can be credited to the right user.

use vstd::prelude::*;
use vstd::string::StringExecFns;
use crate::codec::{decoded, encode, encoded, lemma_decode_ignores_tail, CodecError};
use crate::decimal::{decimal, push_decimal};
use crate::handler::application_command::{
    declares, find_string_value, same_text, string_value, CommandOption, CommandSpec, OptionKind,
    OptionSpec,
};

verus! {

/// How many files a meme can come with.
pub const MAX_ATTACHMENTS: u8 = 4;

/// What the command answers with.
pub struct MemeReply {
    /// The text of the message that relays the meme.
    pub content: String,
    /// Where the attached files can be fetched, in the order of the options.
    pub attachments: Vec<String>,
}

/// The name of the option for the attachment number `index`, counted from 0:
/// `attachment` for the first, then `attachment1`, `attachment2` and so on.
pub open spec fn attachment_name(index: nat) -> Seq<char> {
    if index == 0 {
        "attachment"@
    } else {
        "attachment"@ + decimal(index)
    }
}

/// The text that relays a meme of `author`: the frame that names the author
/// and, where the caller gave a text, an empty line and that text.
pub open spec fn content_of(author: u64, text: Option<Seq<char>>) -> Seq<char> {
    match text {
        Some(text) => encoded(author) + "\n\n"@ + text,
        None => encoded(author),
    }
}

/// The places of the attached files among `options`, in order.
pub open spec fn urls_of(options: Seq<CommandOption>) -> Seq<Seq<char>>
    decreases options.len(),
{
    if options.len() == 0 {
        Seq::empty()
    } else {
        let rest = urls_of(options.drop_last());
        match options.last().attachment_url {
            Some(url) => rest.push(url@),
            None => rest,
        }
    }
}

/// The texts of `urls`, in order.
pub open spec fn texts_of(urls: Seq<String>) -> Seq<Seq<char>> {
    Seq::new(urls.len(), |i: int| urls[i]@)
}

/// The name under which the command is registered and called.
pub fn name() -> (name: String)
    ensures
        name@ == "meme"@,
{
    String::from_str("meme")
}

/// What the command is said to do where commands are listed.
pub fn description() -> (description: String)
    ensures
        description@ == "Send a meme"@,
{
    String::from_str("Send a meme")
}

/// Names the option for the attachment number `index`.
pub fn attachment_option_name(index: u8) -> (name: String)
    ensures
        name@ == attachment_name(index as nat),
{
    let mut name = String::from_str("attachment");
    if index > 0 {
        push_decimal(&mut name, index as u64);
    }
    name
}

/// Declares the command: four options for attached files, of which the
/// first has to be given, and one for an optional text.
pub fn register() -> (command: CommandSpec)
    ensures
        command.name@ == "meme"@,
        command.description@ == "Send a meme"@,
        command.options.len() == MAX_ATTACHMENTS + 1,
        forall|i: int|
            0 <= i < MAX_ATTACHMENTS ==> declares(
                #[trigger] command.options[i],
                attachment_name(i as nat),
                "A file containing a meme"@,
                OptionKind::Attachment,
                i == 0,
            ),
        declares(
            command.options[MAX_ATTACHMENTS as int],
            "content"@,
            "The optional content of the meme"@,
            OptionKind::String,
            false,
        ),
{
    let mut options: Vec<OptionSpec> = Vec::new();
    let mut i: u8 = 0;
    while i < MAX_ATTACHMENTS
        invariant
            i <= MAX_ATTACHMENTS,
            options.len() == i,
            forall|k: int|
                0 <= k < i ==> declares(
                    #[trigger] options[k],
                    attachment_name(k as nat),
                    "A file containing a meme"@,
                    OptionKind::Attachment,
                    k == 0,
                ),
        decreases MAX_ATTACHMENTS - i,
    {
        options.push(
            OptionSpec {
                name: attachment_option_name(i),
                description: String::from_str("A file containing a meme"),
                kind: OptionKind::Attachment,
                required: i == 0,
            },
        );
        i = i + 1;
    }
    options.push(
        OptionSpec {
            name: String::from_str("content"),
            description: String::from_str("The optional content of the meme"),
            kind: OptionKind::String,
            required: false,
        },
    );
    CommandSpec { name: name(), description: description(), options }
}

/// Writes the text of the message that relays a meme of `author_id`.
///
/// Whatever text the caller gave, the message names `author_id` as the
/// author when it is read back.
pub fn meme_content(author_id: u64, options: &Vec<CommandOption>) -> (content: String)
    ensures
        content@ == content_of(author_id, string_value(options@)),
        decoded(content@) == Ok::<u64, CodecError>(author_id),
{
    let mut content = encode(author_id);
    match find_string_value(options) {
        Some(text) => {
            proof {
                lemma_decode_ignores_tail(author_id, "\n\n"@ + text@);
                assert(encoded(author_id) + ("\n\n"@ + text@) =~= encoded(author_id) + "\n\n"@
                    + text@);
            }
            content.append("\n\n");
            content.append(text.as_str());
        },
        None => {},
    }
    content
}

/// Gathers the places of the attached files.
pub fn attachment_urls(options: &Vec<CommandOption>) -> (urls: Vec<String>)
    ensures
        texts_of(urls@) == urls_of(options@),
{
    let mut urls: Vec<String> = Vec::new();
    let mut i: usize = 0;
    assert(options@.subrange(0, 0) =~= Seq::<CommandOption>::empty());
    assert(texts_of(urls@) =~= urls_of(options@.subrange(0, 0)));
    while i < options.len()
        invariant
            i <= options.len(),
            texts_of(urls@) == urls_of(options@.subrange(0, i as int)),
        decreases options.len() - i,
    {
        let ghost seen = options@.subrange(0, i as int);
        let ghost next = options@.subrange(0, i + 1);
        let ghost before = urls@;
        assert(next.drop_last() =~= seen);
        assert(next.last() == options[i as int]);
        match &options[i].attachment_url {
            Some(url) => {
                urls.push(url.clone());
                assert(texts_of(urls@) =~= texts_of(before).push(url@));
            },
            None => {},
        }
        i = i + 1;
    }
    assert(options@.subrange(0, options.len() as int) =~= options@);
    urls
}

/// Answers a call of the command by `user_id`. There is no answer where the
/// call is for another command.
pub fn handle_command(command_name: &str, user_id: u64, options: &Vec<CommandOption>) -> (reply:
    Option<MemeReply>)
    ensures
        reply is Some <==> command_name@ == "meme"@,
        reply matches Some(meme) ==> {
            &&& meme.content@ == content_of(user_id, string_value(options@))
            &&& decoded(meme.content@) == Ok::<u64, CodecError>(user_id)
            &&& texts_of(meme.attachments@) == urls_of(options@)
        },
{
    if !same_text(command_name, name().as_str()) {
        return None;
    }
    Some(MemeReply { content: meme_content(user_id, options), attachments: attachment_urls(options) })
}

} // verus!
