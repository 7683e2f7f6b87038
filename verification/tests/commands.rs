use memsther::codec::decode;
use memsther::datastore::user::ScoreBoard;
use memsther::handler::application_command::{
    find_string_value, gif, handle_appliaction_command, is_listed, leaderboard, link, meme,
    register, same_text, score, CommandKind, CommandOption, CommandSpec, OptionKind,
};
use memsther::util::{is_url, link_verdict};

fn text_option(value: Option<&str>) -> CommandOption {
    CommandOption { kind: OptionKind::String, value: value.map(|v| v.to_string()), attachment_url: None }
}

fn file_option(url: &str) -> CommandOption {
    CommandOption { kind: OptionKind::Attachment, value: None, attachment_url: Some(url.to_string()) }
}

fn names(list: &[&str]) -> Vec<String> {
    list.iter().map(|name| name.to_string()).collect()
}

fn shape(command: &CommandSpec) -> Vec<(String, String, OptionKind, bool)> {
    command
        .options
        .iter()
        .map(|o| (o.name.clone(), o.description.clone(), o.kind, o.required))
        .collect()
}

#[test]
fn names_and_descriptions() {
    assert_eq!(meme::name(), "meme");
    assert_eq!(meme::description(), "Send a meme");
    assert_eq!(score::name(), "score");
    assert_eq!(score::description(), "Get a user's score");
    assert_eq!(link::name(), "link");
    assert_eq!(link::description(), "Send a link");
    assert_eq!(gif::name(), "gif");
    assert_eq!(gif::description(), "Send a gif");
    assert_eq!(leaderboard::name(), "leaderboard");
    assert_eq!(leaderboard::description(), "Show the server's leaderboard");
}

#[test]
fn a_call_is_told_by_its_name() {
    assert_eq!(handle_appliaction_command("meme"), Some(CommandKind::Meme));
    assert_eq!(handle_appliaction_command("score"), Some(CommandKind::Score));
    assert_eq!(handle_appliaction_command("link"), Some(CommandKind::Link));
    assert_eq!(handle_appliaction_command("gif"), Some(CommandKind::Gif));
    assert_eq!(handle_appliaction_command("leaderboard"), Some(CommandKind::Leaderboard));
    assert_eq!(handle_appliaction_command("Meme"), None);
    assert_eq!(handle_appliaction_command(""), None);
    assert_eq!(handle_appliaction_command("memes"), None);
}

#[test]
fn nothing_registered_means_everything_is_created() {
    let plan = register(&Vec::new());
    assert_eq!(plan.delete, Vec::<usize>::new());
    assert_eq!(
        plan.create,
        vec![
            CommandKind::Meme,
            CommandKind::Score,
            CommandKind::Link,
            CommandKind::Gif,
            CommandKind::Leaderboard
        ]
    );
}

#[test]
fn stale_commands_are_deleted_and_missing_ones_created() {
    let plan = register(&names(&["old", "gif", "ping", "meme", "meme", "pong"]));
    assert_eq!(plan.delete, vec![0, 2, 5]);
    assert_eq!(plan.create, vec![CommandKind::Score, CommandKind::Link, CommandKind::Leaderboard]);
}

#[test]
fn everything_registered_means_nothing_to_do() {
    let plan = register(&names(&["leaderboard", "gif", "link", "score", "meme"]));
    assert_eq!(plan.delete, Vec::<usize>::new());
    assert_eq!(plan.create, Vec::<CommandKind>::new());
}

#[test]
fn listed_names_and_same_texts() {
    let list = names(&["a", "b"]);
    assert!(is_listed(&list, "b"));
    assert!(!is_listed(&list, "c"));
    assert!(!is_listed(&Vec::new(), ""));
    assert!(same_text("abc", "abc"));
    assert!(!same_text("abc", "abd"));
}

#[test]
fn the_text_of_a_call_is_its_first_text_option() {
    let options = vec![file_option("u"), text_option(Some("one")), text_option(Some("two"))];
    assert_eq!(find_string_value(&options), Some(&"one".to_string()));
    let unset = vec![text_option(None), text_option(Some("two"))];
    assert_eq!(find_string_value(&unset), None);
    assert_eq!(find_string_value(&vec![file_option("u")]), None);
    assert_eq!(find_string_value(&Vec::new()), None);
}

#[test]
fn meme_is_declared_with_four_files_and_a_text() {
    let command = meme::register();
    assert_eq!(command.name, "meme");
    assert_eq!(command.description, "Send a meme");
    let file = "A file containing a meme".to_string();
    assert_eq!(
        shape(&command),
        vec![
            ("attachment".to_string(), file.clone(), OptionKind::Attachment, true),
            ("attachment1".to_string(), file.clone(), OptionKind::Attachment, false),
            ("attachment2".to_string(), file.clone(), OptionKind::Attachment, false),
            ("attachment3".to_string(), file.clone(), OptionKind::Attachment, false),
            (
                "content".to_string(),
                "The optional content of the meme".to_string(),
                OptionKind::String,
                false
            ),
        ]
    );
    assert_eq!(meme::attachment_option_name(0), "attachment");
    assert_eq!(meme::attachment_option_name(12), "attachment12");
}

#[test]
fn other_commands_are_declared() {
    let link = link::register();
    assert_eq!((link.name.as_str(), link.description.as_str()), ("link", "Send a link"));
    assert_eq!(
        shape(&link),
        vec![("link".to_string(), "The link to be sent".to_string(), OptionKind::String, true)]
    );
    let gif = gif::register();
    assert_eq!((gif.name.as_str(), gif.description.as_str()), ("gif", "Send a gif"));
    assert_eq!(
        shape(&gif),
        vec![(
            "keywords".to_string(),
            "The keywords to find the gif by".to_string(),
            OptionKind::String,
            true
        )]
    );
    let score = score::register();
    assert_eq!((score.name.as_str(), score.description.as_str()), ("score", "Get a user's score"));
    assert_eq!(
        shape(&score),
        vec![("user".to_string(), "The user to get the score of".to_string(), OptionKind::User, true)]
    );
    let leaderboard = leaderboard::register();
    assert_eq!(leaderboard.name, "leaderboard");
    assert_eq!(leaderboard.description, "Show the server's leaderboard");
    assert!(leaderboard.options.is_empty());
}

#[test]
fn meme_content_names_the_sender() {
    let plain = meme::meme_content(42, &vec![file_option("https://cdn.example/a.png")]);
    assert_eq!(plain, "<@!00000000000000000042> just sent a meme!");
    let with_text =
        meme::meme_content(42, &vec![file_option("https://cdn.example/a.png"), text_option(Some("so true"))]);
    assert_eq!(with_text, "<@!00000000000000000042> just sent a meme!\n\nso true");
    assert_eq!(decode(&plain), Ok(42));
    assert_eq!(decode(&with_text), Ok(42));
    let unset = meme::meme_content(42, &vec![text_option(None)]);
    assert_eq!(unset, "<@!00000000000000000042> just sent a meme!");
}

#[test]
fn meme_reply_holds_content_and_files() {
    let options = vec![
        file_option("https://cdn.example/a.png"),
        text_option(Some("so true")),
        file_option("https://cdn.example/b.png"),
    ];
    let reply = meme::handle_command("meme", 42, &options).unwrap();
    assert_eq!(reply.content, "<@!00000000000000000042> just sent a meme!\n\nso true");
    assert_eq!(reply.attachments, names(&["https://cdn.example/a.png", "https://cdn.example/b.png"]));
    assert!(meme::handle_command("link", 42, &options).is_none());
    assert_eq!(meme::attachment_urls(&vec![text_option(Some("x"))]), Vec::<String>::new());
}

#[test]
fn links_are_told_from_other_texts() {
    assert!(is_url("https://example.com"));
    assert!(is_url("http://www.example.org/path?x=1&y=2#top"));
    assert!(is_url("see https://example.com/meme.png for it"));
    assert!(!is_url("example.com"));
    assert!(!is_url("not a link"));
    assert!(!is_url("https://"));
    assert!(!is_url("ftp://example.com"));
    assert!(!is_url(""));
}

#[test]
fn a_search_that_matched_is_a_link() {
    assert!(link_verdict(Some(true)));
    assert!(!link_verdict(Some(false)));
    assert!(!link_verdict(None));
}

#[test]
fn link_messages() {
    assert_eq!(link::invalid_link_message("nope"), "_nope_  is not a valid link");
    assert_eq!(
        link::valid_link_message(42, "https://example.com"),
        "<@!42> just sent a link: https://example.com"
    );
    assert_eq!(
        link::valid_link_message(u64::MAX, "x"),
        "<@!18446744073709551615> just sent a link: x"
    );
}

#[test]
fn link_command_relays_links_only() {
    match link::handle_command("link", 42, &vec![text_option(Some("https://example.com"))]) {
        link::LinkReply::Valid { content } => {
            assert_eq!(content, "<@!42> just sent a link: https://example.com")
        }
        _ => panic!("a link is relayed"),
    }
    match link::handle_command("link", 42, &vec![text_option(Some("nope"))]) {
        link::LinkReply::Invalid { content } => assert_eq!(content, "_nope_  is not a valid link"),
        _ => panic!("what is no link is refused"),
    }
    assert!(matches!(
        link::handle_command("link", 42, &vec![text_option(None)]),
        link::LinkReply::Nothing
    ));
    assert!(matches!(link::handle_command("link", 42, &Vec::new()), link::LinkReply::Nothing));
    assert!(matches!(
        link::handle_command("meme", 42, &vec![text_option(Some("https://example.com"))]),
        link::LinkReply::Nothing
    ));
}

#[test]
fn gif_search_address() {
    assert_eq!(
        gif::get_giphy_url("funny cat".to_string(), "SECRET"),
        "https://api.giphy.com/v1/gifs/search?q=funny cat&api_key=SECRET&limit=15&lang=en"
    );
    assert_eq!(
        gif::handle_command("gif", &vec![text_option(Some("dog"))], "k"),
        Some("https://api.giphy.com/v1/gifs/search?q=dog&api_key=k&limit=15&lang=en".to_string())
    );
    assert_eq!(gif::handle_command("gif", &vec![text_option(None)], "k"), None);
    assert_eq!(gif::handle_command("gif", &Vec::new(), "k"), None);
    assert_eq!(gif::handle_command("link", &vec![text_option(Some("dog"))], "k"), None);
}

#[test]
fn a_gif_is_picked_out_of_what_was_found() {
    let found = names(&["https://a", "https://b", "https://c"]);
    let mut seen = [false; 3];
    for _ in 0..400 {
        let gif = gif::get_gif_url(&found).unwrap();
        let at = found.iter().position(|url| *url == gif).expect("a result of the search");
        seen[at] = true;
    }
    assert_eq!(seen, [true, true, true]);
    assert_eq!(gif::get_gif_url(&names(&["https://only"])), Ok("https://only".to_string()));
    assert_eq!(gif::get_gif_url(&Vec::new()), Err(gif::GifError::NoResults));
}

#[test]
fn the_pick_becomes_the_gif() {
    let url = "https://a".to_string();
    assert_eq!(gif::picked_gif(Some(&url)), Ok(url.clone()));
    assert_eq!(gif::picked_gif(None), Err(gif::GifError::NoResults));
}

#[test]
fn score_message_tells_name_and_score() {
    assert_eq!(score::score_message("ann", 3), "**_ann_** has a score of **_3_**");
    assert_eq!(score::score_message("bob", -12), "**_bob_** has a score of **_-12_**");
    assert_eq!(score::score_message("", 0), "**__** has a score of **_0_**");
}

#[test]
fn score_command_reads_the_ledger() {
    let mut board = ScoreBoard::new();
    assert_eq!(board.apply_delta(42, 9, 3), Ok(()));
    assert_eq!(
        score::handle_command(&board, "score", Some(9), 42, "ann"),
        Some("**_ann_** has a score of **_3_**".to_string())
    );
    assert_eq!(
        score::handle_command(&board, "score", Some(9), 7, "bob"),
        Some("**_bob_** has a score of **_0_**".to_string())
    );
    assert_eq!(score::handle_command(&board, "score", None, 42, "ann"), None);
    assert_eq!(score::handle_command(&board, "gif", Some(9), 42, "ann"), None);
}

#[test]
fn leaderboard_texts() {
    let entries = vec![("ann".to_string(), 5), ("bob".to_string(), 3), ("cy".to_string(), 1)];
    let (content, footer) = leaderboard::respond_with_scores(&entries, 4);
    assert_eq!(content, "**_ann_**: 5\n**_bob_**: 3\n**_cy_**: 1");
    assert_eq!(footer, "Showing top 4 result/s");
    let (one, one_footer) = leaderboard::respond_with_scores(&vec![("ann".to_string(), 5)], 1);
    assert_eq!(one, "**_ann_**: 5");
    assert_eq!(one_footer, "Showing top 1 result/s");
    let (none, none_footer) = leaderboard::respond_with_scores(&Vec::new(), 0);
    assert_eq!(none, "");
    assert_eq!(none_footer, "Showing top 0 result/s");
    assert_eq!(leaderboard::respond_no_results(), "No positive scores were found in this server");
    assert_eq!(leaderboard::PAGE_SIZE, 20);
}

#[test]
fn leaderboard_command_reads_the_ledger() {
    let mut board = ScoreBoard::new();
    for id in 1..=25u64 {
        assert_eq!(board.apply_delta(id, 9, id as i64), Ok(()));
    }
    match leaderboard::handle_command(&board, "leaderboard", Some(9)) {
        leaderboard::LeaderboardReply::Scores { scores } => {
            assert_eq!(scores.len(), 20);
            assert_eq!(scores[0], (25, 25));
            assert_eq!(scores[19], (6, 6));
        }
        _ => panic!("there are scores to show"),
    }
    match leaderboard::handle_command(&board, "leaderboard", Some(8)) {
        leaderboard::LeaderboardReply::NoResults { content } => {
            assert_eq!(content, "No positive scores were found in this server")
        }
        _ => panic!("nobody has a score there"),
    }
    assert!(matches!(
        leaderboard::handle_command(&board, "leaderboard", None),
        leaderboard::LeaderboardReply::Nothing
    ));
    assert!(matches!(
        leaderboard::handle_command(&board, "score", Some(9)),
        leaderboard::LeaderboardReply::Nothing
    ));
}
