use starboard_bot::feed::FeedEntry;
use starboard_bot::render::{
    clean_body, create_starboard_message, join_authors, render_announcement, Attachment, Avatar,
    MessageAuthor, SourceMessage, BODY_LIMIT, EMBED_COLOR,
};
use starboard_bot::starboard::{Emoji, Reaction};

fn message(reactions: Vec<Reaction>, avatar: Option<Avatar>, guild_id: Option<u64>, attachments: Vec<Attachment>) -> SourceMessage {
    SourceMessage {
        id: 300,
        channel_id: 200,
        guild_id,
        author: MessageAuthor { id: 42, name: "alice".to_string(), avatar, discriminator: 1237 },
        content: "hello there".to_string(),
        timestamp_micros: 1_700_000_000_000_000,
        reactions,
        attachments,
    }
}

#[test]
fn starboard_message_unicode_top_reaction() {
    let reactions = vec![
        Reaction { emoji: Emoji::Unicode { name: "👍".to_string() }, count: 2 },
        Reaction { emoji: Emoji::Unicode { name: "⭐".to_string() }, count: 4 },
        Reaction { emoji: Emoji::Unicode { name: "🔥".to_string() }, count: 4 },
    ];
    let avatar = Some(Avatar { hash: "a_0123abcd".to_string(), animated: true });
    let att = vec![
        Attachment { url: "https://x/1.png".to_string(), proxy_url: "https://p/1.png".to_string() },
        Attachment { url: "https://x/2.png".to_string(), proxy_url: "https://p/2.png".to_string() },
    ];
    let m = create_starboard_message(message(reactions, avatar, Some(100), att));
    assert_eq!(m.content, "4 ⭐ in <#200>");
    assert_eq!(m.embed.author_name, "alice");
    assert_eq!(m.embed.author_icon_url, "https://cdn.discordapp.com/avatars/42/a_0123abcd.gif");
    assert_eq!(m.embed.color, 15844367);
    assert_eq!(m.embed.color, EMBED_COLOR);
    assert_eq!(m.embed.description, "hello there");
    assert_eq!(m.embed.link_name, "Message Link");
    assert_eq!(m.embed.link_value, "[Click to jump to message](https://discord.com/channels/100/200/300)");
    assert_eq!(m.embed.timestamp_micros, 1_700_000_000_000_000);
    assert_eq!(
        m.embed.image,
        Some(Attachment { url: "https://x/1.png".to_string(), proxy_url: "https://p/1.png".to_string() })
    );
}

#[test]
fn starboard_message_custom_emoji_and_defaults() {
    let reactions = vec![Reaction { emoji: Emoji::Custom { id: 987, name: Some("party".to_string()) }, count: 3 }];
    let m = create_starboard_message(message(reactions, None, None, vec![]));
    assert_eq!(m.content, "3 <:party:987> in <#200>");
    assert_eq!(m.embed.author_icon_url, "https://cdn.discordapp.com/embed/avatars/2.png");
    assert_eq!(m.embed.link_value, "[Click to jump to message](https://discord.com/channels/@me/200/300)");
    assert_eq!(m.embed.image, None);

    let reactions = vec![Reaction { emoji: Emoji::Custom { id: 5, name: None }, count: 10 }];
    let avatar = Some(Avatar { hash: "ff00".to_string(), animated: false });
    let m = create_starboard_message(message(reactions, avatar, Some(1), vec![]));
    assert_eq!(m.content, "10 <::5> in <#200>");
    assert_eq!(m.embed.author_icon_url, "https://cdn.discordapp.com/avatars/42/ff00.webp");
}

#[test]
fn body_markup_is_stripped() {
    assert_eq!(clean_body("<p>Hi&nbsp;there</p><p>bye</p>"), "Hithere\nbye\n");
    assert_eq!(clean_body(""), "");
    assert_eq!(clean_body("<&nbsp;p>x"), "x");
    assert_eq!(clean_body("a < p > b"), "a < p > b");
}

#[test]
fn body_is_truncated_to_bytes() {
    // two bytes per character: 2048 of them fill the limit
    let long = "é".repeat(BODY_LIMIT + 10);
    let cleaned = clean_body(&long);
    assert_eq!(cleaned.len(), 4096);
    assert_eq!(cleaned.chars().count(), 2048);
    // the cut never splits a character
    let odd = format!("a{}", "é".repeat(2048));
    let cleaned = clean_body(&odd);
    assert_eq!(cleaned.len(), 4095);
    assert_eq!(cleaned, format!("a{}", "é".repeat(2047)));
    let exact = "x".repeat(4096);
    assert_eq!(clean_body(&exact), exact);
    let over = "x".repeat(4097);
    assert_eq!(clean_body(&over), exact);
}

#[test]
fn starboard_description_is_truncated() {
    let reactions = vec![Reaction { emoji: Emoji::Unicode { name: "⭐".to_string() }, count: 3 }];
    let mut m = message(reactions, None, None, vec![]);
    m.content = "x".repeat(5000);
    let r = create_starboard_message(m);
    assert_eq!(r.embed.description, "x".repeat(4096));
}

#[test]
fn starboard_message_without_reactions() {
    let r = create_starboard_message(message(vec![], None, Some(1), vec![]));
    assert_eq!(r.content, "0 in <#200>");
    assert_eq!(r.embed.description, "hello there");
}

#[test]
fn authors_are_joined() {
    assert_eq!(join_authors(&vec![]), "");
    assert_eq!(join_authors(&vec!["Ann".to_string()]), "Ann");
    assert_eq!(join_authors(&vec!["Ann".to_string(), "Bo".to_string(), "Cy".to_string()]), "Ann, Bo, Cy");
}

#[test]
fn announcement_rendering() {
    let entry = FeedEntry {
        id: "e1".to_string(),
        title: Some("Exam moved".to_string()),
        authors: vec!["Prof".to_string(), "TA".to_string()],
        body: Some("<p>Room&nbsp;B</p>".to_string()),
        link: Some("https://canvas/e1".to_string()),
        updated: Some(1_234),
    };
    let a = render_announcement(Some(555), entry.clone());
    assert_eq!(a.content, "<@&555>");
    assert_eq!(a.author_name, "Prof, TA");
    assert_eq!(a.title, Some("Exam moved".to_string()));
    assert_eq!(a.description, Some("RoomB\n".to_string()));
    assert_eq!(a.url, Some("https://canvas/e1".to_string()));
    assert_eq!(a.color, EMBED_COLOR);
    assert_eq!(a.timestamp_millis, 1_234);

    let mut plain = entry;
    plain.body = None;
    let a = render_announcement(None, plain);
    assert_eq!(a.content, "");
    assert_eq!(a.description, None);
}
