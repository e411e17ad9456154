use vstd::prelude::*;
use vstd::string::StringExecFns;
use crate::feed::FeedEntry;
use crate::starboard::{Emoji, Reaction, counts_of, first_max, top_reaction};
use crate::text::{chars_of, decimal, decimal_u64, push_char, text_of};

verus! {

/// The accent color of every embed the bot posts.
pub const EMBED_COLOR: u32 = 15844367;

/// The most bytes (in UTF-8) of text that an embed's description holds.
pub const BODY_LIMIT: usize = 4096;

/// A user's custom avatar: its hash, as the platform writes it, and whether it
/// is animated.
#[derive(Debug, Clone, PartialEq, Eq)]
pub struct Avatar {
    pub hash: String,
    pub animated: bool,
}

/// The author of a source message.
#[derive(Debug, Clone, PartialEq, Eq)]
pub struct MessageAuthor {
    pub id: u64,
    pub name: String,
    pub avatar: Option<Avatar>,
    pub discriminator: u16,
}

/// A file attached to a source message.
#[derive(Debug, Clone, PartialEq, Eq)]
pub struct Attachment {
    pub url: String,
    pub proxy_url: String,
}

/// A source message as fetched after a reaction: where it is, who wrote it,
/// what it says, when (epoch microseconds), its reactions and attachments.
#[derive(Debug, Clone, PartialEq, Eq)]
pub struct SourceMessage {
    pub id: u64,
    pub channel_id: u64,
    pub guild_id: Option<u64>,
    pub author: MessageAuthor,
    pub content: String,
    pub timestamp_micros: i64,
    pub reactions: Vec<Reaction>,
    pub attachments: Vec<Attachment>,
}

/// The rich embed of an aggregate post.
#[derive(Debug, Clone, PartialEq, Eq)]
pub struct StarboardEmbed {
    pub author_name: String,
    pub author_icon_url: String,
    pub color: u32,
    pub description: String,
    pub link_name: String,
    pub link_value: String,
    pub timestamp_micros: i64,
    pub image: Option<Attachment>,
}

/// What an aggregate post is created or updated with.
#[derive(Debug, Clone, PartialEq, Eq)]
pub struct StarboardMessage {
    pub content: String,
    pub embed: StarboardEmbed,
}

/// How an emoji is written in a post.
pub open spec fn emoji_text(e: Emoji) -> Seq<char> {
    match e {
        Emoji::Unicode { name } => name@,
        Emoji::Custom { id, name } => "<:"@ + match name {
            Some(n) => n@,
            None => Seq::empty(),
        } + ":"@ + decimal(id as nat) + ">"@,
    }
}

/// The summary line of an aggregate post: the count and emoji of the top
/// reaction, and the channel of the source message.
pub open spec fn summary_text(count: u64, emoji: Emoji, channel: u64) -> Seq<char> {
    decimal(count as nat) + " "@ + emoji_text(emoji) + " in <#"@ + decimal(channel as nat) + ">"@
}

/// The icon of a message's author: the custom avatar, else the default avatar
/// picked by the discriminator.
pub open spec fn icon_text(author: MessageAuthor) -> Seq<char> {
    match author.avatar {
        Some(a) => "https://cdn.discordapp.com/avatars/"@ + decimal(author.id as nat) + "/"@
            + a.hash@ + "."@ + if a.animated {
            "gif"@
        } else {
            "webp"@
        },
        None => "https://cdn.discordapp.com/embed/avatars/"@ + decimal((author.discriminator % 5) as nat)
            + ".png"@,
    }
}

/// The "jump to source" link of a message; `@me` stands for a direct message.
pub open spec fn link_text(guild: Option<u64>, channel: u64, id: u64) -> Seq<char> {
    "[Click to jump to message](https://discord.com/channels/"@ + match guild {
        Some(g) => decimal(g as nat),
        None => "@me"@,
    } + "/"@ + decimal(channel as nat) + "/"@ + decimal(id as nat) + ")"@
}

fn emoji_string(e: &Emoji) -> (r: String)
    ensures
        r@ == emoji_text(*e),
{
    match e {
        Emoji::Unicode { name } => text_of(name.as_str()),
        Emoji::Custom { id, name } => {
            let mut r = text_of("<:");
            let mut inner = String::new();
            match name {
                Some(n) => {
                    inner.append(n.as_str());
                },
                None => {},
            }
            r.append(inner.as_str());
            r.append(":");
            let d = decimal_u64(*id);
            r.append(d.as_str());
            r.append(">");
            r
        },
    }
}

fn icon_string(author: &MessageAuthor) -> (r: String)
    ensures
        r@ == icon_text(*author),
{
    match &author.avatar {
        Some(a) => {
            let mut r = text_of("https://cdn.discordapp.com/avatars/");
            let d = decimal_u64(author.id);
            r.append(d.as_str());
            r.append("/");
            r.append(a.hash.as_str());
            r.append(".");
            if a.animated {
                r.append("gif");
            } else {
                r.append("webp");
            }
            r
        },
        None => {
            let mut r = text_of("https://cdn.discordapp.com/embed/avatars/");
            let d = decimal_u64((author.discriminator % 5) as u64);
            r.append(d.as_str());
            r.append(".png");
            r
        },
    }
}

fn link_string(guild: Option<u64>, channel: u64, id: u64) -> (r: String)
    ensures
        r@ == link_text(guild, channel, id),
{
    let mut r = text_of("[Click to jump to message](https://discord.com/channels/");
    let g = match guild {
        Some(g) => decimal_u64(g),
        None => text_of("@me"),
    };
    r.append(g.as_str());
    r.append("/");
    let c = decimal_u64(channel);
    r.append(c.as_str());
    r.append("/");
    let d = decimal_u64(id);
    r.append(d.as_str());
    r.append(")");
    r
}

/// The summary line of an aggregate post for a message with `reactions`: the
/// first reaction with the largest count, or a zero count when there is none.
pub open spec fn summary_of(reactions: Seq<Reaction>, channel: u64) -> Seq<char> {
    if reactions.len() == 0 {
        decimal(0) + " in <#"@ + decimal(channel as nat) + ">"@
    } else {
        let top = reactions[first_max(counts_of(reactions))];
        summary_text(top.count, top.emoji, channel)
    }
}

/// Renders the aggregate post of `message`: its summary line shows the first
/// reaction with the largest count; the embed shows the author, the text (cut
/// to `BODY_LIMIT` bytes), the time, a link back to the message and its first
/// attachment as image.
pub fn create_starboard_message(message: SourceMessage) -> (r: StarboardMessage)
    ensures
        r.content@ == summary_of(message.reactions@, message.channel_id),
        r.embed.author_name@ == message.author.name@,
        r.embed.author_icon_url@ == icon_text(message.author),
        r.embed.color == EMBED_COLOR,
        r.embed.description@ == byte_prefix(message.content@, BODY_LIMIT as nat),
        r.embed.link_name@ == "Message Link"@,
        r.embed.link_value@ == link_text(message.guild_id, message.channel_id, message.id),
        r.embed.timestamp_micros == message.timestamp_micros,
        message.attachments@.len() == 0 ==> r.embed.image is None,
        message.attachments@.len() > 0 ==> r.embed.image == Some(message.attachments@[0]),
{
    let mut content = if message.reactions.len() == 0 {
        decimal_u64(0)
    } else {
        let top = top_reaction(&message.reactions);
        let mut head = decimal_u64(message.reactions[top].count);
        head.append(" ");
        let e = emoji_string(&message.reactions[top].emoji);
        head.append(e.as_str());
        head
    };
    content.append(" in <#");
    let c = decimal_u64(message.channel_id);
    content.append(c.as_str());
    content.append(">");
    let author_icon_url = icon_string(&message.author);
    let link_value = link_string(message.guild_id, message.channel_id, message.id);
    let mut attachments = message.attachments;
    let image = if attachments.len() > 0 {
        Some(attachments.remove(0))
    } else {
        None
    };
    let author_name = message.author.name;
    let description = fit_bytes(&chars_of(message.content.as_str()), BODY_LIMIT);
    StarboardMessage {
        content,
        embed: StarboardEmbed {
            author_name,
            author_icon_url,
            color: EMBED_COLOR,
            description,
            link_name: text_of("Message Link"),
            link_value,
            timestamp_micros: message.timestamp_micros,
            image,
        },
    }
}

/// `s` with each occurrence of `pat`, from the left and not overlapping,
/// replaced by `rep`.
pub open spec fn replaced(s: Seq<char>, pat: Seq<char>, rep: Seq<char>) -> Seq<char>
    decreases s.len(),
{
    if s.len() == 0 {
        Seq::empty()
    } else if 0 < pat.len() <= s.len() && s.subrange(0, pat.len() as int) == pat {
        rep + replaced(s.skip(pat.len() as int), pat, rep)
    } else {
        seq![s[0]] + replaced(s.skip(1), pat, rep)
    }
}

/// How many bytes `c` takes in UTF-8.
pub open spec fn utf8_len(c: char) -> nat {
    let v = c as u32;
    if v < 0x80 {
        1
    } else if v < 0x800 {
        2
    } else if v < 0x10000 {
        3
    } else {
        4
    }
}

/// How many bytes `s` takes in UTF-8.
pub open spec fn utf8_size(s: Seq<char>) -> nat
    decreases s.len(),
{
    if s.len() == 0 {
        0
    } else {
        utf8_len(s[0]) + utf8_size(s.skip(1))
    }
}

/// The longest prefix of `s` that takes at most `budget` bytes in UTF-8: it
/// ends on a character boundary.
pub open spec fn byte_prefix(s: Seq<char>, budget: nat) -> Seq<char>
    decreases s.len(),
{
    if s.len() == 0 || utf8_len(s[0]) > budget {
        Seq::empty()
    } else {
        seq![s[0]] + byte_prefix(s.skip(1), (budget - utf8_len(s[0])) as nat)
    }
}

/// `byte_prefix(s, budget)` is a prefix of `s` that fits in `budget` bytes, and
/// no longer prefix does; it is all of `s` when `s` fits.
pub proof fn lemma_byte_prefix(s: Seq<char>, budget: nat)
    ensures
        byte_prefix(s, budget).len() <= s.len(),
        byte_prefix(s, budget) == s.subrange(0, byte_prefix(s, budget).len() as int),
        utf8_size(byte_prefix(s, budget)) <= budget,
        byte_prefix(s, budget).len() < s.len() ==> utf8_size(
            s.subrange(0, byte_prefix(s, budget).len() as int + 1),
        ) > budget,
        utf8_size(s) <= budget ==> byte_prefix(s, budget) == s,
    decreases s.len(),
{
    let p = byte_prefix(s, budget);
    if s.len() == 0 {
        assert(s.subrange(0, 0) =~= s);
    } else if utf8_len(s[0]) > budget {
        assert(s.subrange(0, 0) =~= Seq::<char>::empty());
        assert(s.subrange(0, 1).skip(1) =~= Seq::<char>::empty());
        assert(s.subrange(0, 1)[0] == s[0]);
        assert(utf8_size(s.subrange(0, 1)) >= utf8_len(s[0]));
    } else {
        let rest = s.skip(1);
        let b = (budget - utf8_len(s[0])) as nat;
        lemma_byte_prefix(rest, b);
        let q = byte_prefix(rest, b);
        assert(p == seq![s[0]] + q);
        assert(p.skip(1) =~= q);
        assert(p[0] == s[0]);
        assert(p =~= s.subrange(0, p.len() as int));
        if p.len() < s.len() {
            let t = s.subrange(0, p.len() as int + 1);
            assert(t.skip(1) =~= rest.subrange(0, q.len() as int + 1));
            assert(t[0] == s[0]);
        }
        if utf8_size(s) <= budget {
            assert(p =~= s);
        }
    }
}

/// An entry's body as an announcement shows it: non-breaking-space escapes and
/// opening paragraph tags dropped, closing paragraph tags turned into line
/// breaks, then cut to the longest prefix of at most `BODY_LIMIT` bytes.
pub open spec fn cleaned(body: Seq<char>) -> Seq<char> {
    byte_prefix(
        replaced(replaced(replaced(body, "&nbsp;"@, Seq::empty()), "<p>"@, Seq::empty()), "</p>"@, "\n"@),
        BODY_LIMIT as nat,
    )
}

fn occurs_at(s: &Vec<char>, i: usize, pat: &Vec<char>) -> (r: bool)
    requires
        i <= s@.len(),
    ensures
        r == (0 < pat@.len() <= s@.len() - i && s@.skip(i as int).subrange(0, pat@.len() as int) == pat@),
{
    if pat.len() == 0 || pat.len() > s.len() - i {
        return false;
    }
    let n = s.len();
    let mut j: usize = 0;
    while j < pat.len()
        invariant
            n == s@.len(),
            i <= s@.len(),
            0 < pat@.len() <= s@.len() - i,
            j <= pat@.len(),
            forall|k: int| 0 <= k < j ==> s@[i + k] == pat@[k],
        decreases pat@.len() - j,
    {
        if s[i + j] != pat[j] {
            assert(s@.skip(i as int).subrange(0, pat@.len() as int)[j as int] != pat@[j as int]);
            return false;
        }
        j = j + 1;
    }
    assert(s@.skip(i as int).subrange(0, pat@.len() as int) =~= pat@);
    true
}

fn replace_chars(s: &Vec<char>, pat: &Vec<char>, rep: &Vec<char>) -> (r: Vec<char>)
    ensures
        r@ == replaced(s@, pat@, rep@),
{
    let mut r: Vec<char> = Vec::new();
    let mut i: usize = 0;
    assert(s@.skip(0) =~= s@);
    assert(r@ + replaced(s@, pat@, rep@) =~= replaced(s@, pat@, rep@));
    while i < s.len()
        invariant
            i <= s@.len(),
            r@ + replaced(s@.skip(i as int), pat@, rep@) == replaced(s@, pat@, rep@),
        decreases s@.len() - i,
    {
        let ghost rest = s@.skip(i as int);
        let ghost before = r@;
        if occurs_at(s, i, pat) {
            let mut k: usize = 0;
            while k < rep.len()
                invariant
                    k <= rep@.len(),
                    r@ == before + rep@.subrange(0, k as int),
                decreases rep@.len() - k,
            {
                r.push(rep[k]);
                k = k + 1;
                assert(r@ =~= before + rep@.subrange(0, k as int));
            }
            assert(rep@.subrange(0, k as int) =~= rep@);
            assert(rest.skip(pat@.len() as int) =~= s@.skip(i + pat@.len()));
            assert(before + (rep@ + replaced(rest.skip(pat@.len() as int), pat@, rep@))
                =~= (before + rep@) + replaced(rest.skip(pat@.len() as int), pat@, rep@));
            i = i + pat.len();
        } else {
            r.push(s[i]);
            assert(rest.skip(1) =~= s@.skip(i + 1));
            assert(rest[0] == s@[i as int]);
            assert(before + (seq![s@[i as int]] + replaced(rest.skip(1), pat@, rep@))
                =~= before.push(s@[i as int]) + replaced(rest.skip(1), pat@, rep@));
            i = i + 1;
        }
    }
    assert(s@.skip(i as int) =~= Seq::<char>::empty());
    assert(r@ + Seq::<char>::empty() =~= r@);
    r
}

fn utf8_width(c: char) -> (r: usize)
    ensures
        r as nat == utf8_len(c),
{
    let v = c as u32;
    if v < 0x80 {
        1
    } else if v < 0x800 {
        2
    } else if v < 0x10000 {
        3
    } else {
        4
    }
}

/// The longest prefix of `cs` that takes at most `limit` bytes in UTF-8.
pub fn fit_bytes(cs: &Vec<char>, limit: usize) -> (r: String)
    ensures
        r@ == byte_prefix(cs@, limit as nat),
{
    let mut r = String::new();
    let mut budget: usize = limit;
    let mut i: usize = 0;
    assert(cs@.skip(0) =~= cs@);
    assert(r@ + byte_prefix(cs@, limit as nat) =~= byte_prefix(cs@, limit as nat));
    while i < cs.len()
        invariant
            i <= cs@.len(),
            r@ + byte_prefix(cs@.skip(i as int), budget as nat) == byte_prefix(cs@, limit as nat),
        decreases cs@.len() - i,
    {
        let ghost rest = cs@.skip(i as int);
        assert(rest[0] == cs@[i as int]);
        let c = cs[i];
        let n = utf8_width(c);
        if n > budget {
            assert(byte_prefix(rest, budget as nat) =~= Seq::<char>::empty());
            assert(r@ + Seq::<char>::empty() =~= r@);
            return r;
        }
        let ghost before = r@;
        push_char(&mut r, c);
        budget = budget - n;
        i = i + 1;
        assert(rest.skip(1) =~= cs@.skip(i as int));
        assert(before + (seq![c] + byte_prefix(rest.skip(1), budget as nat)) =~= before.push(c)
            + byte_prefix(rest.skip(1), budget as nat));
    }
    assert(cs@.skip(i as int) =~= Seq::<char>::empty());
    assert(r@ + Seq::<char>::empty() =~= r@);
    r
}

/// Cleans an entry's body for an announcement (see `cleaned`).
pub fn clean_body(body: &str) -> (r: String)
    ensures
        r@ == cleaned(body@),
{
    let nbsp = chars_of("&nbsp;");
    let open = chars_of("<p>");
    let close = chars_of("</p>");
    let nothing: Vec<char> = Vec::new();
    let line_break = chars_of("\n");
    let cs = chars_of(body);
    let cs = replace_chars(&cs, &nbsp, &nothing);
    assert(nothing@ =~= Seq::<char>::empty());
    let cs = replace_chars(&cs, &open, &nothing);
    let cs = replace_chars(&cs, &close, &line_break);
    fit_bytes(&cs, BODY_LIMIT)
}

/// `names` written one after the other with `sep` between them.
pub open spec fn joined(names: Seq<Seq<char>>, sep: Seq<char>) -> Seq<char>
    decreases names.len(),
{
    if names.len() == 0 {
        Seq::empty()
    } else if names.len() == 1 {
        names[0]
    } else {
        joined(names.drop_last(), sep) + sep + names.last()
    }
}

/// The texts of `v`.
pub open spec fn texts(v: Seq<String>) -> Seq<Seq<char>> {
    v.map_values(|s: String| s@)
}

/// The names of an entry's authors, separated by a comma and a space.
pub fn join_authors(authors: &Vec<String>) -> (r: String)
    ensures
        r@ == joined(texts(authors@), ", "@),
{
    let mut r = String::new();
    let mut i: usize = 0;
    while i < authors.len()
        invariant
            i <= authors@.len(),
            r@ == joined(texts(authors@).subrange(0, i as int), ", "@),
        decreases authors@.len() - i,
    {
        let ghost ts = texts(authors@);
        assert(ts.subrange(0, i as int + 1).drop_last() =~= ts.subrange(0, i as int));
        if i > 0 {
            r.append(", ");
        }
        r.append(authors[i].as_str());
        i = i + 1;
    }
    assert(texts(authors@).subrange(0, i as int) =~= texts(authors@));
    r
}

/// The mention that opens an announcement: the feed's role, if it has one.
pub open spec fn mention_text(role: Option<u64>) -> Seq<char> {
    match role {
        Some(id) => "<@&"@ + decimal(id as nat) + ">"@,
        None => Seq::empty(),
    }
}

/// One post announcing a new feed entry. `timestamp_millis` is the entry's own
/// time.
#[derive(Debug, Clone, PartialEq, Eq)]
pub struct Announcement {
    pub content: String,
    pub author_name: String,
    pub title: Option<String>,
    pub description: Option<String>,
    pub url: Option<String>,
    pub color: u32,
    pub timestamp_millis: i64,
}

/// Renders the announcement of `entry`, which has a time, for a feed whose
/// announcements mention `role` (if any).
pub fn render_announcement(role: Option<u64>, entry: FeedEntry) -> (r: Announcement)
    requires
        entry.updated is Some,
    ensures
        r.content@ == mention_text(role),
        r.author_name@ == joined(texts(entry.authors@), ", "@),
        r.title == entry.title,
        match entry.body {
            Some(b) => r.description is Some && r.description->0@ == cleaned(b@),
            None => r.description is None,
        },
        r.url == entry.link,
        r.color == EMBED_COLOR,
        r.timestamp_millis == entry.updated->0,
{
    let content = match role {
        Some(id) => {
            let mut c = text_of("<@&");
            let d = decimal_u64(id);
            c.append(d.as_str());
            c.append(">");
            c
        },
        None => String::new(),
    };
    let author_name = join_authors(&entry.authors);
    let description = match &entry.body {
        Some(b) => Some(clean_body(b.as_str())),
        None => None,
    };
    let timestamp_millis = match entry.updated {
        Some(t) => t,
        None => 0,
    };
    Announcement {
        content,
        author_name,
        title: entry.title,
        description,
        url: entry.link,
        color: EMBED_COLOR,
        timestamp_millis,
    }
}

} // verus!
