//! The slash commands: which ones there are, which one a call is for, and
//! what has to be registered.

use vstd::prelude::*;
use vstd::string::StringExecFns;

pub mod gif;
pub mod leaderboard;
pub mod link;
pub mod meme;
pub mod score;

verus! {

/// The commands of the bot.
#[derive(Clone, Copy, Debug, PartialEq, Eq, Structural)]
pub enum CommandKind {
    /// Relays a meme.
    Meme,
    /// Tells the score of a user.
    Score,
    /// Relays a link.
    Link,
    /// Looks a gif up and posts it.
    Gif,
    /// Shows who has the highest scores.
    Leaderboard,
}

/// The kinds of value that an option of a command can hold.
#[derive(Clone, Copy, Debug, PartialEq, Eq, Structural)]
pub enum OptionKind {
    /// A text.
    String,
    /// A user.
    User,
    /// A file.
    Attachment,
    /// Anything else.
    Other,
}

/// One option as it comes with the call of a command.
pub struct CommandOption {
    /// What kind of value the option holds.
    pub kind: OptionKind,
    /// The value, written as text, where the caller gave one.
    pub value: Option<String>,
    /// Where the attached file can be fetched, for an attachment.
    pub attachment_url: Option<String>,
}

/// One option as a command declares it when it is registered.
pub struct OptionSpec {
    /// The name of the option.
    pub name: String,
    /// What the option is said to be for.
    pub description: String,
    /// What kind of value it takes.
    pub kind: OptionKind,
    /// Whether the caller has to give it.
    pub required: bool,
}

/// A command as it is registered.
pub struct CommandSpec {
    /// The name of the command.
    pub name: String,
    /// What the command is said to do.
    pub description: String,
    /// Its options, in the order in which they are declared.
    pub options: Vec<OptionSpec>,
}

/// Whether `option` is declared with these four properties.
pub open spec fn declares(
    option: OptionSpec,
    name: Seq<char>,
    description: Seq<char>,
    kind: OptionKind,
    required: bool,
) -> bool {
    option.name@ == name && option.description@ == description && option.kind == kind
        && option.required == required
}

/// The name of a command.
pub open spec fn name_of(kind: CommandKind) -> Seq<char> {
    match kind {
        CommandKind::Meme => "meme"@,
        CommandKind::Score => "score"@,
        CommandKind::Link => "link"@,
        CommandKind::Gif => "gif"@,
        CommandKind::Leaderboard => "leaderboard"@,
    }
}

/// The command that goes by `name`, if there is one.
pub open spec fn kind_of(name: Seq<char>) -> Option<CommandKind> {
    if name == name_of(CommandKind::Meme) {
        Some(CommandKind::Meme)
    } else if name == name_of(CommandKind::Score) {
        Some(CommandKind::Score)
    } else if name == name_of(CommandKind::Link) {
        Some(CommandKind::Link)
    } else if name == name_of(CommandKind::Gif) {
        Some(CommandKind::Gif)
    } else if name == name_of(CommandKind::Leaderboard) {
        Some(CommandKind::Leaderboard)
    } else {
        None
    }
}

/// Every command is found again by its own name.
pub proof fn lemma_kind_of_name(kind: CommandKind)
    ensures
        kind_of(name_of(kind)) == Some(kind),
{
    reveal_strlit("meme");
    reveal_strlit("score");
    reveal_strlit("link");
    reveal_strlit("gif");
    reveal_strlit("leaderboard");
    assert("meme"@.len() == 4);
    assert("score"@.len() == 5);
    assert("link"@.len() == 4);
    assert("gif"@.len() == 3);
    assert("leaderboard"@.len() == 11);
    assert("meme"@[0] == 'm');
    assert("link"@[0] == 'l');
}

/// The first option that holds a text, if any option does.
pub open spec fn first_string(options: Seq<CommandOption>) -> Option<CommandOption>
    decreases options.len(),
{
    if options.len() == 0 {
        None
    } else if options.first().kind == OptionKind::String {
        Some(options.first())
    } else {
        first_string(options.drop_first())
    }
}

/// The text that a call gives: the value of the first option that holds a
/// text. There is none where no option holds a text, and none where the
/// first one that does has no value.
pub open spec fn string_value(options: Seq<CommandOption>) -> Option<Seq<char>> {
    match first_string(options) {
        Some(option) => match option.value {
            Some(value) => Some(value@),
            None => None,
        },
        None => None,
    }
}

/// Whether two texts are the same.
pub fn same_text(a: &str, b: &str) -> (same: bool)
    ensures
        same == (a@ == b@),
{
    String::from_str(a) == String::from_str(b)
}

/// Tells which command a call is for.
pub fn handle_appliaction_command(name: &str) -> (kind: Option<CommandKind>)
    ensures
        kind == kind_of(name@),
{
    let called = String::from_str(name);
    if called == meme::name() {
        Some(CommandKind::Meme)
    } else if called == score::name() {
        Some(CommandKind::Score)
    } else if called == link::name() {
        Some(CommandKind::Link)
    } else if called == gif::name() {
        Some(CommandKind::Gif)
    } else if called == leaderboard::name() {
        Some(CommandKind::Leaderboard)
    } else {
        None
    }
}

/// Finds the text that a call gives.
pub fn find_string_value(options: &Vec<CommandOption>) -> (value: Option<&String>)
    ensures
        match value {
            Some(text) => string_value(options@) == Some(text@),
            None => string_value(options@) is None,
        },
{
    let mut i: usize = 0;
    assert(options@.subrange(0, options.len() as int) =~= options@);
    while i < options.len()
        invariant
            i <= options.len(),
            first_string(options@) == first_string(options@.subrange(i as int, options.len() as int)),
        decreases options.len() - i,
    {
        let ghost rest = options@.subrange(i as int, options.len() as int);
        assert(rest.first() == options[i as int]);
        if matches!(options[i].kind, OptionKind::String) {
            return options[i].value.as_ref();
        }
        assert(rest.drop_first() =~= options@.subrange(i + 1, options.len() as int));
        i = i + 1;
    }
    None
}

/// What has to be done so that exactly the bot's commands are registered.
pub struct Registration {
    /// The positions, in the list of what is registered, of the commands to
    /// delete, in rising order.
    pub delete: Vec<usize>,
    /// The commands to register, in the order in which the bot lists them.
    pub create: Vec<CommandKind>,
}

/// Whether a command is among the registered names.
pub open spec fn is_registered(registered: Seq<String>, kind: CommandKind) -> bool {
    exists|i: int| 0 <= i < registered.len() && (#[trigger] registered[i])@ == name_of(kind)
}

/// The command itself where it is not registered yet, nothing where it is.
pub open spec fn missing(registered: Seq<String>, kind: CommandKind) -> Seq<CommandKind> {
    if is_registered(registered, kind) {
        Seq::empty()
    } else {
        seq![kind]
    }
}

/// The commands that are not registered yet, in the order meme, score, link,
/// gif, leaderboard.
pub open spec fn to_create(registered: Seq<String>) -> Seq<CommandKind> {
    missing(registered, CommandKind::Meme) + missing(registered, CommandKind::Score) + missing(
        registered,
        CommandKind::Link,
    ) + missing(registered, CommandKind::Gif) + missing(registered, CommandKind::Leaderboard)
}

/// Whether the name at position `i` is registered but is no command of the
/// bot.
pub open spec fn is_stale(registered: Seq<String>, i: int) -> bool {
    0 <= i < registered.len() && kind_of(registered[i]@) is None
}

/// Whether `name` is among the registered names.
pub fn is_listed(registered: &Vec<String>, name: &str) -> (listed: bool)
    ensures
        listed <==> exists|i: int| 0 <= i < registered.len() && (#[trigger] registered[i])@ == name@,
{
    let mut i: usize = 0;
    while i < registered.len()
        invariant
            i <= registered.len(),
            forall|k: int| 0 <= k < i ==> (#[trigger] registered[k])@ != name@,
        decreases registered.len() - i,
    {
        if same_text(registered[i].as_str(), name) {
            return true;
        }
        i = i + 1;
    }
    false
}

/// Works out, from the names that are registered, which registered commands
/// to delete and which commands to register.
///
/// A registered command is deleted when its name is none of the bot's. A
/// command of the bot is registered only when it is not registered yet, so
/// that nothing is registered more often than needed.
pub fn register(registered: &Vec<String>) -> (plan: Registration)
    ensures
        plan.create@ == to_create(registered@),
        forall|a: int, b: int|
            0 <= a < b < plan.delete.len() ==> #[trigger] plan.delete[a] < #[trigger] plan.delete[b],
        forall|a: int| 0 <= a < plan.delete.len() ==> is_stale(registered@, #[trigger] plan.delete[a] as int),
        forall|i: int| is_stale(registered@, i) ==> plan.delete@.contains(i as usize),
{
    let mut delete: Vec<usize> = Vec::new();
    let mut i: usize = 0;
    while i < registered.len()
        invariant
            i <= registered.len(),
            forall|a: int, b: int| 0 <= a < b < delete.len() ==> #[trigger] delete[a] < #[trigger] delete[b],
            forall|a: int| 0 <= a < delete.len() ==> #[trigger] delete[a] < i && is_stale(registered@, delete[a] as int),
            forall|k: int| 0 <= k < i && is_stale(registered@, k) ==> delete@.contains(k as usize),
        decreases registered.len() - i,
    {
        if handle_appliaction_command(registered[i].as_str()).is_none() {
            let ghost before = delete@;
            delete.push(i);
            proof {
                assert forall|k: int| 0 <= k < i + 1 && is_stale(registered@, k) implies delete@.contains(
                    k as usize,
                ) by {
                    if k < i {
                        let a = choose|a: int| 0 <= a < before.len() && before[a] == k as usize;
                        assert(delete@[a] == k as usize);
                    } else {
                        assert(delete@[before.len() as int] == i);
                    }
                }
            }
        }
        i = i + 1;
    }
    let mut create: Vec<CommandKind> = Vec::new();
    if !is_listed(registered, meme::name().as_str()) {
        create.push(CommandKind::Meme);
    }
    if !is_listed(registered, score::name().as_str()) {
        create.push(CommandKind::Score);
    }
    if !is_listed(registered, link::name().as_str()) {
        create.push(CommandKind::Link);
    }
    if !is_listed(registered, gif::name().as_str()) {
        create.push(CommandKind::Gif);
    }
    if !is_listed(registered, leaderboard::name().as_str()) {
        create.push(CommandKind::Leaderboard);
    }
    assert(create@ =~= to_create(registered@));
    Registration { delete, create }
}

} // verus!
