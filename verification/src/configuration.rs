//! What the bot is configured with.

use vstd::prelude::*;

verus! {

/// The whole configuration.
pub struct Configuration {
    /// How to reach the database.
    pub postgres: Postgres,
    /// How to log in to the chat service.
    pub discord: Discord,
    /// How to log in to the gif search.
    pub tenor: Tenor,
}

/// What the chat service asks for.
pub struct Discord {
    /// The token of the bot.
    pub token: String,
}

/// What the gif search asks for.
pub struct Tenor {
    /// The key of the bot.
    pub token: String,
}

/// What the database asks for.
pub struct Postgres {
    /// The host of the database server.
    pub host: String,
    /// The user to log in as.
    pub user: String,
    /// The password of the user.
    pub password: String,
    /// The name of the database.
    pub dbname: String,
}

} // verus!
