use vstd::prelude::*;
use vstd::string::StringExecFns;
use crate::error::ConfigError;
use crate::render::texts;
use crate::text::{chars_of, push_char, text_of};

verus! {

/// Whether `c` is a decimal digit.
pub open spec fn is_digit(c: char) -> bool {
    '0' <= c && c <= '9'
}

/// The value of the decimal digit `c`.
pub open spec fn digit_value(c: char) -> nat {
    ((c as u32) - ('0' as u32)) as nat
}

/// The value of a string of decimal digits (zero when empty).
pub open spec fn digits_value(s: Seq<char>) -> nat
    decreases s.len(),
{
    if s.len() == 0 {
        0
    } else {
        digits_value(s.drop_last()) * 10 + digit_value(s.last())
    }
}

/// The digits of an unsigned numeral: what follows an optional leading `+`.
pub open spec fn unsigned_digits(s: Seq<char>) -> Seq<char> {
    if s.len() > 0 && s[0] == '+' {
        s.skip(1)
    } else {
        s
    }
}

/// The value of the unsigned numeral `s` when it is one (an optional `+`, then
/// one or more digits) and its value is at most `max`.
pub open spec fn parsed_unsigned(s: Seq<char>, max: nat) -> Option<nat> {
    let d = unsigned_digits(s);
    if d.len() > 0 && (forall|i: int| 0 <= i < d.len() ==> is_digit(#[trigger] d[i])) && digits_value(d)
        <= max {
        Some(digits_value(d))
    } else {
        None
    }
}

proof fn lemma_digits_value_grows(s: Seq<char>, k: int)
    requires
        0 <= k <= s.len(),
    ensures
        digits_value(s.subrange(0, k)) <= digits_value(s),
    decreases s.len() - k,
{
    if k < s.len() {
        lemma_digits_value_grows(s, k + 1);
        assert(s.subrange(0, k + 1).drop_last() =~= s.subrange(0, k));
    } else {
        assert(s.subrange(0, k) =~= s);
    }
}

fn parse_unsigned(s: &str, max: u64) -> (r: Option<u64>)
    ensures
        match parsed_unsigned(s@, max as nat) {
            Some(v) => r == Some(v as u64),
            None => r is None,
        },
{
    let cs = chars_of(s);
    let start: usize = if cs.len() > 0 && cs[0] == '+' { 1 } else { 0 };
    let ghost d = unsigned_digits(s@);
    assert(d =~= cs@.skip(start as int));
    if start >= cs.len() {
        return None;
    }
    let mut acc: u64 = 0;
    let mut i: usize = start;
    while i < cs.len()
        invariant
            start <= i <= cs@.len(),
            cs@ == s@,
            d == unsigned_digits(s@),
            d =~= cs@.skip(start as int),
            forall|k: int| 0 <= k < i - start ==> is_digit(#[trigger] d[k]),
            acc as nat == digits_value(d.subrange(0, i - start)),
            acc <= max,
        decreases cs@.len() - i,
    {
        let c = cs[i];
        assert(d[i - start] == c);
        assert(d.subrange(0, i - start + 1).drop_last() =~= d.subrange(0, i - start as int));
        if c < '0' || c > '9' {
            assert(!is_digit(d[i - start]));
            return None;
        }
        let digit = (c as u32 - '0' as u32) as u64;
        let next = match acc.checked_mul(10) {
            Some(m) => m.checked_add(digit),
            None => None,
        };
        match next {
            Some(v) => {
                assert(v as nat == digits_value(d.subrange(0, i - start + 1)));
                if v > max {
                    proof {
                        lemma_digits_value_grows(d, i - start + 1);
                    }
                    return None;
                }
                acc = v;
            },
            None => {
                proof {
                    lemma_digits_value_grows(d, i - start + 1);
                }
                return None;
            },
        }
        i = i + 1;
    }
    assert(d.subrange(0, i - start as int) =~= d);
    Some(acc)
}

/// The value of a decimal numeral of type `u64` (an optional `+`, then digits).
pub fn parse_u64(s: &str) -> (r: Option<u64>)
    ensures
        match parsed_unsigned(s@, u64::MAX as nat) {
            Some(v) => r == Some(v as u64),
            None => r is None,
        },
{
    parse_unsigned(s, u64::MAX)
}

/// The value of a decimal numeral of type `u32` (an optional `+`, then digits).
pub fn parse_u32(s: &str) -> (r: Option<u32>)
    ensures
        match parsed_unsigned(s@, u32::MAX as nat) {
            Some(v) => r == Some(v as u32),
            None => r is None,
        },
{
    match parse_unsigned(s, u32::MAX as u64) {
        Some(v) => Some(v as u32),
        None => None,
    }
}

/// A platform id written in decimal: a `u64` numeral other than zero.
pub open spec fn parsed_id(s: Seq<char>) -> Option<u64> {
    match parsed_unsigned(s, u64::MAX as nat) {
        Some(v) => if v > 0 {
            Some(v as u64)
        } else {
            None
        },
        None => None,
    }
}

/// Parses a platform id: a decimal `u64` other than zero.
pub fn parse_id(s: &str) -> (r: Option<u64>)
    ensures
        r == parsed_id(s@),
{
    match parse_u64(s) {
        Some(v) => if v > 0 {
            Some(v)
        } else {
            None
        },
        None => None,
    }
}

/// The pieces of `s` between the occurrences of `sep`; one (empty) piece for
/// an empty `s`.
pub open spec fn split_text(s: Seq<char>, sep: char) -> Seq<Seq<char>>
    decreases s.len(),
{
    if s.len() == 0 {
        seq![Seq::empty()]
    } else {
        let parts = split_text(s.drop_last(), sep);
        if s.last() == sep {
            parts.push(Seq::empty())
        } else {
            parts.update(parts.len() - 1, parts.last().push(s.last()))
        }
    }
}

proof fn lemma_split_nonempty(s: Seq<char>, sep: char)
    ensures
        split_text(s, sep).len() >= 1,
    decreases s.len(),
{
    if s.len() > 0 {
        lemma_split_nonempty(s.drop_last(), sep);
    }
}

/// The pieces of `s` between the occurrences of `sep`.
pub fn split_on(s: &str, sep: char) -> (r: Vec<String>)
    ensures
        texts(r@) == split_text(s@, sep),
{
    let cs = chars_of(s);
    let mut parts: Vec<String> = Vec::new();
    let mut cur = String::new();
    let mut i: usize = 0;
    assert(cs@.subrange(0, 0) =~= Seq::<char>::empty());
    assert(texts(parts@).push(cur@) =~= seq![Seq::<char>::empty()]);
    while i < cs.len()
        invariant
            i <= cs@.len(),
            texts(parts@).push(cur@) == split_text(cs@.subrange(0, i as int), sep),
        decreases cs@.len() - i,
    {
        let ghost prefix = cs@.subrange(0, i as int + 1);
        assert(prefix.drop_last() =~= cs@.subrange(0, i as int));
        assert(prefix.last() == cs@[i as int]);
        let c = cs[i];
        if c == sep {
            let ghost old_parts = parts@;
            let ghost old_cur = cur@;
            parts.push(cur);
            cur = String::new();
            assert(texts(parts@) =~= texts(old_parts).push(old_cur));
            assert(texts(parts@).push(cur@) =~= split_text(prefix, sep));
        } else {
            let ghost old_cur = cur@;
            push_char(&mut cur, c);
            proof {
                lemma_split_nonempty(cs@.subrange(0, i as int), sep);
            }
            assert(texts(parts@).push(cur@) =~= texts(parts@).push(old_cur).update(
                texts(parts@).len() as int,
                old_cur.push(c),
            ));
        }
        i = i + 1;
    }
    assert(cs@.subrange(0, i as int) =~= cs@);
    let ghost old_parts = parts@;
    let ghost old_cur = cur@;
    parts.push(cur);
    assert(texts(parts@) =~= texts(old_parts).push(old_cur));
    parts
}

/// A feed to poll: its URL, the channel its announcements go to, and the role
/// they mention, if any.
#[derive(Debug, Clone, PartialEq, Eq)]
pub struct FeedTarget {
    pub url: String,
    pub channel_id: u64,
    pub role_id: Option<u64>,
}

/// The mathematical value of a `FeedTarget`.
pub struct TargetView {
    pub url: Seq<char>,
    pub channel_id: u64,
    pub role_id: Option<u64>,
}

impl View for FeedTarget {
    type V = TargetView;

    open spec fn view(&self) -> TargetView {
        TargetView { url: self.url@, channel_id: self.channel_id, role_id: self.role_id }
    }
}

/// The mathematical value of a `ConfigError`.
pub enum ConfigErrorView {
    Env(Seq<char>),
    Parse(Seq<char>),
}

impl View for ConfigError {
    type V = ConfigErrorView;

    open spec fn view(&self) -> ConfigErrorView {
        match self {
            ConfigError::EnvError { env_name } => ConfigErrorView::Env(env_name@),
            ConfigError::ParseError { config_option } => ConfigErrorView::Parse(config_option@),
        }
    }
}

/// What one line `url,channel[,role[,...]]` of the feed list gives: nothing
/// for a line without a channel, else the target or the setting that failed
/// to parse (the channel is parsed first).
pub open spec fn line_target(line: Seq<char>) -> Option<Result<TargetView, Seq<char>>> {
    let parts = split_text(line, ',');
    if parts.len() < 2 {
        None
    } else {
        match parsed_id(parts[1]) {
            None => Some(Err("ANNOUNCEMENT_CHANNEL_ID"@)),
            Some(c) => if parts.len() >= 3 {
                match parsed_id(parts[2]) {
                    None => Some(Err("ANNOUNCEMENT_ROLE_ID"@)),
                    Some(r) => Some(Ok(TargetView { url: parts[0], channel_id: c, role_id: Some(r) })),
                }
            } else {
                Some(Ok(TargetView { url: parts[0], channel_id: c, role_id: None }))
            },
        }
    }
}

/// Parses one line of the feed list (see `line_target`).
pub fn parse_feed_line(line: &str) -> (r: Option<Result<FeedTarget, ConfigError>>)
    ensures
        match line_target(line@) {
            None => r is None,
            Some(Ok(t)) => r matches Some(Ok(x)) && x@ == t,
            Some(Err(e)) => r matches Some(Err(x)) && x@ == ConfigErrorView::Parse(e),
        },
{
    let parts = split_on(line, ',');
    proof {
        assert(texts(parts@).len() == parts@.len());
    }
    if parts.len() < 2 {
        return None;
    }
    assert(texts(parts@)[1] == parts@[1]@);
    assert(texts(parts@)[0] == parts@[0]@);
    let channel_id = match parse_id(parts[1].as_str()) {
        Some(c) => c,
        None => {
            return Some(Err(ConfigError::ParseError { config_option: text_of("ANNOUNCEMENT_CHANNEL_ID") }));
        },
    };
    let role_id = if parts.len() >= 3 {
        assert(texts(parts@)[2] == parts@[2]@);
        match parse_id(parts[2].as_str()) {
            Some(r) => Some(r),
            None => {
                return Some(Err(ConfigError::ParseError { config_option: text_of("ANNOUNCEMENT_ROLE_ID") }));
            },
        }
    } else {
        None
    };
    let url = text_of(parts[0].as_str());
    Some(Ok(FeedTarget { url, channel_id, role_id }))
}

/// The targets of a feed list given as `lines`, in order, or the setting of the
/// first line that failed to parse.
pub open spec fn targets_of(lines: Seq<Seq<char>>) -> Result<Seq<TargetView>, Seq<char>>
    decreases lines.len(),
{
    if lines.len() == 0 {
        Ok(Seq::empty())
    } else {
        match line_target(lines[0]) {
            None => targets_of(lines.drop_first()),
            Some(Err(e)) => Err(e),
            Some(Ok(t)) => match targets_of(lines.drop_first()) {
                Ok(ts) => Ok(seq![t] + ts),
                Err(e) => Err(e),
            },
        }
    }
}

/// `done` followed by what `rest` gives.
pub open spec fn after(done: Seq<TargetView>, rest: Result<Seq<TargetView>, Seq<char>>) -> Result<Seq<TargetView>, Seq<char>> {
    match rest {
        Ok(ts) => Ok(done + ts),
        Err(e) => Err(e),
    }
}

/// The views of `ts`.
pub open spec fn target_views(ts: Seq<FeedTarget>) -> Seq<TargetView> {
    ts.map_values(|t: FeedTarget| t@)
}

/// Parses the feed list: one `url,channel[,role]` per line; lines without a
/// channel are skipped; the first line whose ids do not parse fails it all.
pub fn parse_feed_targets(text: &str) -> (r: Result<Vec<FeedTarget>, ConfigError>)
    ensures
        match targets_of(split_text(text@, '\n')) {
            Ok(ts) => r matches Ok(v) && target_views(v@) == ts,
            Err(e) => r matches Err(x) && x@ == ConfigErrorView::Parse(e),
        },
{
    let lines = split_on(text, '\n');
    let ghost ls = split_text(text@, '\n');
    let mut out: Vec<FeedTarget> = Vec::new();
    let mut i: usize = 0;
    assert(ls.skip(0) =~= ls);
    assert(target_views(out@) + Seq::<TargetView>::empty() =~= Seq::<TargetView>::empty());
    assert(after(target_views(out@), targets_of(ls)) == targets_of(ls)) by {
        match targets_of(ls) {
            Ok(ts) => {
                assert(target_views(out@) + ts =~= ts);
            },
            Err(e) => {},
        }
    }
    while i < lines.len()
        invariant
            i <= lines@.len(),
            texts(lines@) == ls,
            ls == split_text(text@, '\n'),
            after(target_views(out@), targets_of(ls.skip(i as int))) == targets_of(ls),
        decreases lines@.len() - i,
    {
        assert(texts(lines@)[i as int] == lines@[i as int]@);
        let ghost rest = ls.skip(i as int);
        assert(rest.drop_first() =~= ls.skip(i + 1));
        assert(rest[0] == ls[i as int]);
        match parse_feed_line(lines[i].as_str()) {
            None => {},
            Some(Err(e)) => {
                return Err(e);
            },
            Some(Ok(t)) => {
                let ghost before = target_views(out@);
                out.push(t);
                assert(target_views(out@) =~= before.push(t@));
                proof {
                    match targets_of(ls.skip(i + 1)) {
                        Ok(ts) => {
                            assert(before.push(t@) + ts =~= before + (seq![t@] + ts));
                        },
                        Err(e) => {},
                    }
                }
            },
        }
        i = i + 1;
    }
    assert(ls.skip(i as int) =~= Seq::<Seq<char>>::empty());
    assert(target_views(out@) + Seq::<TargetView>::empty() =~= target_views(out@));
    Ok(out)
}

/// The raw settings of the process, as read from its environment: `None`
/// where a variable is not set.
#[derive(Debug, Clone, PartialEq, Eq)]
pub struct ConfigVars {
    pub discord_token: Option<String>,
    pub database_url: Option<String>,
    pub reaction_requirement: Option<String>,
    pub starboard_channel_id: Option<String>,
    pub announcement_check_interval: Option<String>,
    pub announcement_urls: Option<String>,
    pub server_id: Option<String>,
}

/// The settings of the process.
#[derive(Debug, Clone, PartialEq, Eq)]
pub struct ApplicationConfig {
    /// The token the bot logs in with.
    pub discord_token: String,
    /// Where the store of ledgers lies.
    pub database_url: String,
    /// How many reactions of one emoji make a message starboard material.
    pub reaction_requirement: u32,
    /// The channel aggregate posts go to.
    pub starboard_channel_id: u64,
    /// The feeds to poll, if any are configured.
    pub announcement_rss_urls: Option<Vec<FeedTarget>>,
    /// Seconds between two sweeps over the feeds.
    pub announcement_check_interval: u64,
    /// The one guild whose messages are tracked, if one is given.
    pub server_id: Option<u64>,
}

/// The mathematical value of an `ApplicationConfig`.
pub struct ConfigView {
    pub discord_token: Seq<char>,
    pub database_url: Seq<char>,
    pub reaction_requirement: u32,
    pub starboard_channel_id: u64,
    pub announcement_rss_urls: Option<Seq<TargetView>>,
    pub announcement_check_interval: u64,
    pub server_id: Option<u64>,
}

impl View for ApplicationConfig {
    type V = ConfigView;

    open spec fn view(&self) -> ConfigView {
        ConfigView {
            discord_token: self.discord_token@,
            database_url: self.database_url@,
            reaction_requirement: self.reaction_requirement,
            starboard_channel_id: self.starboard_channel_id,
            announcement_rss_urls: match self.announcement_rss_urls {
                Some(v) => Some(target_views(v@)),
                None => None,
            },
            announcement_check_interval: self.announcement_check_interval,
            server_id: self.server_id,
        }
    }
}

/// The text of an optional variable.
pub open spec fn var_text(v: Option<String>) -> Option<Seq<char>> {
    match v {
        Some(s) => Some(s@),
        None => None,
    }
}

/// The configuration that `vars` give, or the first failure, checking the
/// variables in this order: the token, the store, the threshold, the starboard
/// channel and the interval are required; the feed list and the guild are
/// optional, but must parse when given.
pub open spec fn config_of(vars: ConfigVars) -> Result<ConfigView, ConfigErrorView> {
    match (var_text(vars.discord_token), var_text(vars.database_url)) {
        (None, _) => Err(ConfigErrorView::Env("DISCORD_TOKEN"@)),
        (Some(_), None) => Err(ConfigErrorView::Env("DATABASE_URL"@)),
        (Some(token), Some(url)) => match var_text(vars.reaction_requirement) {
            None => Err(ConfigErrorView::Env("REACTION_REQUIREMENT"@)),
            Some(req) => match parsed_unsigned(req, u32::MAX as nat) {
                None => Err(ConfigErrorView::Parse("REACTION_REQUIREMENT"@)),
                Some(threshold) => match var_text(vars.starboard_channel_id) {
                    None => Err(ConfigErrorView::Env("STARBOARD_CHANNEL_ID"@)),
                    Some(ch) => match parsed_id(ch) {
                        None => Err(ConfigErrorView::Parse("STARBOARD_CHANNEL_ID"@)),
                        Some(channel) => match var_text(vars.announcement_check_interval) {
                            None => Err(ConfigErrorView::Env("ANNOUNCEMENT_CHECK_INTERVAL"@)),
                            Some(iv) => match parsed_unsigned(iv, u64::MAX as nat) {
                                None => Err(ConfigErrorView::Parse("ANNOUNCEMENT_CHECK_INTERVAL"@)),
                                Some(interval) => {
                                    let feeds = match var_text(vars.announcement_urls) {
                                        None => Ok(None),
                                        Some(t) => match targets_of(split_text(t, '\n')) {
                                            Ok(ts) => Ok(Some(ts)),
                                            Err(e) => Err(ConfigErrorView::Parse(e)),
                                        },
                                    };
                                    match feeds {
                                        Err(e) => Err(e),
                                        Ok(feeds) => {
                                            let server = match var_text(vars.server_id) {
                                                None => Ok(None),
                                                Some(sv) => match parsed_id(sv) {
                                                    None => Err(ConfigErrorView::Parse("SERVER_ID"@)),
                                                    Some(g) => Ok(Some(g)),
                                                },
                                            };
                                            match server {
                                                Err(e) => Err(e),
                                                Ok(server) => Ok(
                                                    ConfigView {
                                                        discord_token: token,
                                                        database_url: url,
                                                        reaction_requirement: threshold as u32,
                                                        starboard_channel_id: channel,
                                                        announcement_rss_urls: feeds,
                                                        announcement_check_interval: interval as u64,
                                                        server_id: server,
                                                    },
                                                ),
                                            }
                                        },
                                    }
                                },
                            },
                        },
                    },
                },
            },
        },
    }
}

fn missing(name: &str) -> (r: ConfigError)
    ensures
        r@ == ConfigErrorView::Env(name@),
{
    ConfigError::EnvError { env_name: text_of(name) }
}

fn unparsable(name: &str) -> (r: ConfigError)
    ensures
        r@ == ConfigErrorView::Parse(name@),
{
    ConfigError::ParseError { config_option: text_of(name) }
}

impl ApplicationConfig {
    /// Builds the configuration from the variables that were read, or says
    /// which one is missing or does not parse (see `config_of`).
    pub fn load(vars: ConfigVars) -> (r: Result<ApplicationConfig, ConfigError>)
        ensures
            match config_of(vars) {
                Ok(c) => r matches Ok(x) && x@ == c,
                Err(e) => r matches Err(x) && x@ == e,
            },
    {
        let discord_token = match vars.discord_token {
            Some(t) => t,
            None => {
                return Err(missing("DISCORD_TOKEN"));
            },
        };
        let database_url = match vars.database_url {
            Some(u) => u,
            None => {
                return Err(missing("DATABASE_URL"));
            },
        };
        let reaction_requirement = match &vars.reaction_requirement {
            Some(s) => match parse_u32(s.as_str()) {
                Some(v) => v,
                None => {
                    return Err(unparsable("REACTION_REQUIREMENT"));
                },
            },
            None => {
                return Err(missing("REACTION_REQUIREMENT"));
            },
        };
        let starboard_channel_id = match &vars.starboard_channel_id {
            Some(s) => match parse_id(s.as_str()) {
                Some(v) => v,
                None => {
                    return Err(unparsable("STARBOARD_CHANNEL_ID"));
                },
            },
            None => {
                return Err(missing("STARBOARD_CHANNEL_ID"));
            },
        };
        let announcement_check_interval = match &vars.announcement_check_interval {
            Some(s) => match parse_u64(s.as_str()) {
                Some(v) => v,
                None => {
                    return Err(unparsable("ANNOUNCEMENT_CHECK_INTERVAL"));
                },
            },
            None => {
                return Err(missing("ANNOUNCEMENT_CHECK_INTERVAL"));
            },
        };
        let announcement_rss_urls = match &vars.announcement_urls {
            Some(s) => match parse_feed_targets(s.as_str()) {
                Ok(v) => Some(v),
                Err(e) => {
                    return Err(e);
                },
            },
            None => None,
        };
        let server_id = match &vars.server_id {
            Some(s) => match parse_id(s.as_str()) {
                Some(v) => Some(v),
                None => {
                    return Err(unparsable("SERVER_ID"));
                },
            },
            None => None,
        };
        Ok(ApplicationConfig {
            discord_token,
            database_url,
            reaction_requirement,
            starboard_channel_id,
            announcement_rss_urls,
            announcement_check_interval,
            server_id,
        })
    }
}

} // verus!
