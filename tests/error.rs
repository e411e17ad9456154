use starboard_bot::error::{
    ApplicationError, ConfigError, DatabaseError, DiscordError, EventError, ReactionError, RssError,
};

#[test]
fn config_error_messages() {
    let e = ConfigError::EnvError { env_name: "DISCORD_TOKEN".to_string() };
    assert_eq!(e.message(), "Failed to load environment for variable 'DISCORD_TOKEN'");
    let e = ConfigError::ParseError { config_option: "SERVER_ID".to_string() };
    assert_eq!(e.message(), "Failed to parse configuration for 'SERVER_ID'");
}

#[test]
fn reaction_error_messages() {
    assert_eq!(ReactionError::DatabaseConnect.message(), "Failed to acquire database pool connection");
    assert_eq!(ReactionError::PreviousReactionCount.message(), "Failed to retrieve the previous reaction count");
    assert_eq!(ReactionError::RetrieveMessage.message(), "Failed to retrieve the message reacted to");
    assert_eq!(ReactionError::ContentResponseTooLong.message(), "Response message exceeded maximum length");
    assert_eq!(ReactionError::StarboardMessage.message(), "Failed to create starboard message");
}

#[test]
fn event_error_messages() {
    assert_eq!(EventError::ReactionError.get_event_name(), "Reaction");
    assert_eq!(EventError::ReactionError.message(), "Failed to process event 'Reaction'");
}

#[test]
fn application_error_messages() {
    assert_eq!(ApplicationError::LoadConfig.message(), "Failed to load configuration of application");
    assert_eq!(
        ApplicationError::Database(DatabaseError::ConnectError).message(),
        "Failed when connecting to database"
    );
    assert_eq!(ApplicationError::Discord(DiscordError::ConnectError).message(), "Failed to start Discord bot");
    assert_eq!(ApplicationError::Event.message(), "Failed to process event");
    assert_eq!(ApplicationError::Thread.message(), "Failed to handle tokio thread unwinding");
}

#[test]
fn rss_error_messages() {
    assert_eq!(RssError::Fetch.message(), "Failed to fetch RSS data from Canvas server");
    assert_eq!(RssError::Read.message(), "Failed to decode RSS response from Canvas server");
    assert_eq!(RssError::Database.message(), "Failed to process database event");
    assert_eq!(RssError::Post.message(), "Failed to post an RSS event to the Discord channel");
    assert!(RssError::Fetch.is_transient());
    assert!(RssError::Read.is_transient());
    assert!(!RssError::Database.is_transient());
    assert!(!RssError::Post.is_transient());
}
