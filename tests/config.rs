use starboard_bot::config::{
    parse_feed_line, parse_feed_targets, parse_id, parse_u32, parse_u64, split_on, ApplicationConfig,
    ConfigVars, FeedTarget,
};
use starboard_bot::error::ConfigError;

fn vars() -> ConfigVars {
    ConfigVars {
        discord_token: Some("bot-token".to_string()),
        database_url: Some("sqlite://bot.db".to_string()),
        reaction_requirement: Some("3".to_string()),
        starboard_channel_id: Some("123".to_string()),
        announcement_check_interval: Some("60".to_string()),
        announcement_urls: None,
        server_id: None,
    }
}

fn parse_error(name: &str) -> ConfigError {
    ConfigError::ParseError { config_option: name.to_string() }
}

#[test]
fn numerals() {
    assert_eq!(parse_u64("0"), Some(0));
    assert_eq!(parse_u64("+42"), Some(42));
    assert_eq!(parse_u64("18446744073709551615"), Some(u64::MAX));
    assert_eq!(parse_u64("18446744073709551616"), None);
    assert_eq!(parse_u64(""), None);
    assert_eq!(parse_u64("+"), None);
    assert_eq!(parse_u64("-1"), None);
    assert_eq!(parse_u64("12a"), None);
    assert_eq!(parse_u64(" 1"), None);
    assert_eq!(parse_u32("4294967295"), Some(u32::MAX));
    assert_eq!(parse_u32("4294967296"), None);
    assert_eq!(parse_id("0"), None);
    assert_eq!(parse_id("7"), Some(7));
}

#[test]
fn splitting() {
    assert_eq!(split_on("a,b,,c", ','), vec!["a", "b", "", "c"]);
    assert_eq!(split_on("", ','), vec![""]);
    assert_eq!(split_on("x\n", '\n'), vec!["x", ""]);
}

#[test]
fn feed_lines() {
    assert_eq!(parse_feed_line("https://a/feed"), None);
    assert_eq!(
        parse_feed_line("https://a/feed,5"),
        Some(Ok(FeedTarget { url: "https://a/feed".to_string(), channel_id: 5, role_id: None }))
    );
    assert_eq!(
        parse_feed_line("https://a/feed,5,6,ignored"),
        Some(Ok(FeedTarget { url: "https://a/feed".to_string(), channel_id: 5, role_id: Some(6) }))
    );
    assert_eq!(parse_feed_line("u,x"), Some(Err(parse_error("ANNOUNCEMENT_CHANNEL_ID"))));
    assert_eq!(parse_feed_line("u,5,"), Some(Err(parse_error("ANNOUNCEMENT_ROLE_ID"))));
}

#[test]
fn feed_list() {
    let ts = parse_feed_targets("u1,1\n\nbad\nu2,2,3").unwrap();
    assert_eq!(
        ts,
        vec![
            FeedTarget { url: "u1".to_string(), channel_id: 1, role_id: None },
            FeedTarget { url: "u2".to_string(), channel_id: 2, role_id: Some(3) },
        ]
    );
    assert_eq!(parse_feed_targets("u1,1\nu2,z\nu3,q,r"), Err(parse_error("ANNOUNCEMENT_CHANNEL_ID")));
}

#[test]
fn load_complete_config() {
    let mut v = vars();
    v.announcement_urls = Some("u1,1,2".to_string());
    v.server_id = Some("77".to_string());
    let c = ApplicationConfig::load(v).unwrap();
    assert_eq!(c.discord_token, "bot-token");
    assert_eq!(c.database_url, "sqlite://bot.db");
    assert_eq!(c.reaction_requirement, 3);
    assert_eq!(c.starboard_channel_id, 123);
    assert_eq!(c.announcement_check_interval, 60);
    assert_eq!(
        c.announcement_rss_urls,
        Some(vec![FeedTarget { url: "u1".to_string(), channel_id: 1, role_id: Some(2) }])
    );
    assert_eq!(c.server_id, Some(77));
}

#[test]
fn load_optional_settings_absent() {
    let c = ApplicationConfig::load(vars()).unwrap();
    assert_eq!(c.announcement_rss_urls, None);
    assert_eq!(c.server_id, None);
}

#[test]
fn load_errors() {
    let mut v = vars();
    v.discord_token = None;
    v.database_url = None;
    assert_eq!(
        ApplicationConfig::load(v),
        Err(ConfigError::EnvError { env_name: "DISCORD_TOKEN".to_string() })
    );
    let mut v = vars();
    v.database_url = None;
    assert_eq!(
        ApplicationConfig::load(v),
        Err(ConfigError::EnvError { env_name: "DATABASE_URL".to_string() })
    );
    let mut v = vars();
    v.reaction_requirement = Some("many".to_string());
    assert_eq!(ApplicationConfig::load(v), Err(parse_error("REACTION_REQUIREMENT")));
    let mut v = vars();
    v.starboard_channel_id = None;
    assert_eq!(
        ApplicationConfig::load(v),
        Err(ConfigError::EnvError { env_name: "STARBOARD_CHANNEL_ID".to_string() })
    );
    let mut v = vars();
    v.starboard_channel_id = Some("0".to_string());
    assert_eq!(ApplicationConfig::load(v), Err(parse_error("STARBOARD_CHANNEL_ID")));
    let mut v = vars();
    v.announcement_check_interval = Some("1.5".to_string());
    assert_eq!(ApplicationConfig::load(v), Err(parse_error("ANNOUNCEMENT_CHECK_INTERVAL")));
    let mut v = vars();
    v.announcement_urls = Some("u,1,role".to_string());
    assert_eq!(ApplicationConfig::load(v), Err(parse_error("ANNOUNCEMENT_ROLE_ID")));
    let mut v = vars();
    v.server_id = Some("guild".to_string());
    assert_eq!(ApplicationConfig::load(v), Err(parse_error("SERVER_ID")));
}
