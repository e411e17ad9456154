use vstd::prelude::*;
use vstd::string::StringExecFns;
use crate::text::text_of;

verus! {

/// A setting of the process configuration that could not be had.
#[derive(Debug, Clone, PartialEq, Eq)]
pub enum ConfigError {
    /// The variable `env_name` was not set.
    EnvError { env_name: String },
    /// The value given for `config_option` could not be parsed.
    ParseError { config_option: String },
}

impl ConfigError {
    pub open spec fn text(&self) -> Seq<char> {
        match self {
            ConfigError::EnvError { env_name } => "Failed to load environment for variable '"@
                + env_name@ + "'"@,
            ConfigError::ParseError { config_option } => "Failed to parse configuration for '"@
                + config_option@ + "'"@,
        }
    }

    /// The operator-facing description of the error.
    pub fn message(&self) -> (r: String)
        ensures
            r@ == self.text(),
    {
        match self {
            ConfigError::EnvError { env_name } => {
                let mut r = text_of("Failed to load environment for variable '");
                r.append(env_name.as_str());
                r.append("'");
                r
            },
            ConfigError::ParseError { config_option } => {
                let mut r = text_of("Failed to parse configuration for '");
                r.append(config_option.as_str());
                r.append("'");
                r
            },
        }
    }
}

/// A failure of the durable store.
#[derive(Debug, Clone, Copy, PartialEq, Eq, Structural)]
pub enum DatabaseError {
    ConnectError,
}

/// A failure of the chat platform's connection.
#[derive(Debug, Clone, Copy, PartialEq, Eq, Structural)]
pub enum DiscordError {
    ConnectError,
}

/// A failure while handling one reaction event.
#[derive(Debug, Clone, Copy, PartialEq, Eq, Structural)]
pub enum ReactionError {
    /// Failed to acquire a connection to the store.
    DatabaseConnect,
    /// Failed to read or write the ledger entry of the reacted message.
    PreviousReactionCount,
    /// Failed to retrieve the message reacted to.
    RetrieveMessage,
    /// The rendered post was longer than the platform accepts.
    ContentResponseTooLong,
    /// Failed to create or update the aggregate post.
    StarboardMessage,
}

impl ReactionError {
    pub open spec fn text(&self) -> Seq<char> {
        match self {
            ReactionError::DatabaseConnect => "Failed to acquire database pool connection"@,
            ReactionError::PreviousReactionCount => "Failed to retrieve the previous reaction count"@,
            ReactionError::RetrieveMessage => "Failed to retrieve the message reacted to"@,
            ReactionError::ContentResponseTooLong => "Response message exceeded maximum length"@,
            ReactionError::StarboardMessage => "Failed to create starboard message"@,
        }
    }

    /// The operator-facing description of the error.
    pub fn message(&self) -> (r: String)
        ensures
            r@ == self.text(),
    {
        match self {
            ReactionError::DatabaseConnect => text_of("Failed to acquire database pool connection"),
            ReactionError::PreviousReactionCount => text_of(
                "Failed to retrieve the previous reaction count",
            ),
            ReactionError::RetrieveMessage => text_of("Failed to retrieve the message reacted to"),
            ReactionError::ContentResponseTooLong => text_of(
                "Response message exceeded maximum length",
            ),
            ReactionError::StarboardMessage => text_of("Failed to create starboard message"),
        }
    }
}

/// A failure while handling an event of the live event stream.
#[derive(Debug, Clone, Copy, PartialEq, Eq, Structural)]
pub enum EventError {
    /// Failed to handle a reaction event.
    ReactionError,
}

impl EventError {
    pub open spec fn name(&self) -> Seq<char> {
        match self {
            EventError::ReactionError => "Reaction"@,
        }
    }

    /// The name of the kind of event that failed.
    pub fn get_event_name(&self) -> (r: &'static str)
        ensures
            r@ == self.name(),
    {
        match self {
            EventError::ReactionError => "Reaction",
        }
    }

    pub open spec fn text(&self) -> Seq<char> {
        "Failed to process event '"@ + self.name() + "'"@
    }

    /// The operator-facing description of the error.
    pub fn message(&self) -> (r: String)
        ensures
            r@ == self.text(),
    {
        let mut r = text_of("Failed to process event '");
        r.append(self.get_event_name());
        r.append("'");
        r
    }
}

/// The failures that end the process.
#[derive(Debug, Clone, Copy, PartialEq, Eq, Structural)]
pub enum ApplicationError {
    LoadConfig,
    Database(DatabaseError),
    Discord(DiscordError),
    Event,
    Thread,
}

impl ApplicationError {
    pub open spec fn text(&self) -> Seq<char> {
        match self {
            ApplicationError::LoadConfig => "Failed to load configuration of application"@,
            ApplicationError::Database(DatabaseError::ConnectError) => "Failed when connecting to database"@,
            ApplicationError::Discord(DiscordError::ConnectError) => "Failed to start Discord bot"@,
            ApplicationError::Event => "Failed to process event"@,
            ApplicationError::Thread => "Failed to handle tokio thread unwinding"@,
        }
    }

    /// The operator-facing description of the error.
    pub fn message(&self) -> (r: String)
        ensures
            r@ == self.text(),
    {
        match self {
            ApplicationError::LoadConfig => text_of("Failed to load configuration of application"),
            ApplicationError::Database(DatabaseError::ConnectError) => text_of(
                "Failed when connecting to database",
            ),
            ApplicationError::Discord(DiscordError::ConnectError) => text_of(
                "Failed to start Discord bot",
            ),
            ApplicationError::Event => text_of("Failed to process event"),
            ApplicationError::Thread => text_of("Failed to handle tokio thread unwinding"),
        }
    }
}

/// A failure while polling one feed.
#[derive(Debug, Clone, Copy, PartialEq, Eq, Structural)]
pub enum RssError {
    /// The feed could not be fetched.
    Fetch,
    /// The feed could not be parsed, or lacks a field the tracker needs.
    Read,
    /// The watermark could not be read or written.
    Database,
    /// An announcement could not be posted.
    Post,
}

impl RssError {
    pub open spec fn text(&self) -> Seq<char> {
        match self {
            RssError::Fetch => "Failed to fetch RSS data from Canvas server"@,
            RssError::Read => "Failed to decode RSS response from Canvas server"@,
            RssError::Database => "Failed to process database event"@,
            RssError::Post => "Failed to post an RSS event to the Discord channel"@,
        }
    }

    /// The operator-facing description of the error.
    pub fn message(&self) -> (r: String)
        ensures
            r@ == self.text(),
    {
        match self {
            RssError::Fetch => text_of("Failed to fetch RSS data from Canvas server"),
            RssError::Read => text_of("Failed to decode RSS response from Canvas server"),
            RssError::Database => text_of("Failed to process database event"),
            RssError::Post => text_of("Failed to post an RSS event to the Discord channel"),
        }
    }

    /// Whether the failure is a transient one of fetching or parsing, after which
    /// the sweep goes on with the next feed.
    pub fn is_transient(&self) -> (r: bool)
        ensures
            r == (*self == RssError::Fetch || *self == RssError::Read),
    {
        match self {
            RssError::Fetch | RssError::Read => true,
            _ => false,
        }
    }
}

} // verus!
