use vstd::prelude::*;
use crate::text::chars::chars_of;
use crate::text::chars::extend_text;
use crate::text::chars::spells;
use crate::text::chars::text_of;
use crate::text::number::decimal;
use crate::text::number::parse_unsigned;
use crate::text::number::push_decimal;
use crate::text::number::unsigned_of;
use crate::text::space::trim;
use crate::text::space::trimmed;
use crate::text::split::cut;
use crate::text::split::cut_once;
use crate::text::split::joined;
use crate::text::split::split_on;
use crate::text::split::split_once;
use crate::text::split::views;

verus! {

/// The settings of the service.
#[derive(Debug, PartialEq, Eq)]
pub struct Config {
    pub server_address: String,
    pub ics_urls: Vec<String>,
    pub refresh_period: u64,
    pub max_events: usize,
    pub timezone: String,
}

/// One feed to fetch: where it is, and the zone in which its times are
/// shown.
#[derive(Debug, PartialEq, Eq)]
pub struct FeedSource {
    pub url: String,
    pub timezone: String,
}

/// What a `Config` holds, as plain values.
pub struct ConfigView {
    pub server_address: Seq<char>,
    pub ics_urls: Seq<Seq<char>>,
    pub refresh_period: nat,
    pub max_events: nat,
    pub timezone: Seq<char>,
}

/// The views of `strings`, one for one.
pub open spec fn texts(strings: Seq<String>) -> Seq<Seq<char>> {
    strings.map_values(|s: String| s@)
}

impl View for Config {
    type V = ConfigView;

    open spec fn view(&self) -> ConfigView {
        ConfigView {
            server_address: self.server_address@,
            ics_urls: texts(self.ics_urls@),
            refresh_period: self.refresh_period as nat,
            max_events: self.max_events as nat,
            timezone: self.timezone@,
        }
    }
}

impl Clone for Config {
    fn clone(&self) -> (copy: Self)
        ensures
            copy@ == self@,
    {
        let mut ics_urls: Vec<String> = Vec::new();
        let mut i: usize = 0;
        while i < self.ics_urls.len()
            invariant
                i <= self.ics_urls.len(),
                texts(ics_urls@) == texts(self.ics_urls@).take(i as int),
            decreases self.ics_urls.len() - i,
        {
            let url = self.ics_urls[i].clone();
            assert(texts(ics_urls@.push(url)) == texts(ics_urls@).push(url@));
            assert(texts(self.ics_urls@).take(i + 1) == texts(self.ics_urls@).take(i as int).push(
                self.ics_urls@[i as int]@,
            ));
            ics_urls.push(url);
            i += 1;
        }
        assert(texts(self.ics_urls@).take(self.ics_urls.len() as int) == texts(self.ics_urls@));
        Config {
            server_address: self.server_address.clone(),
            ics_urls,
            refresh_period: self.refresh_period,
            max_events: self.max_events,
            timezone: self.timezone.clone(),
        }
    }
}

/// The views of `sources`, one for one: address and zone.
pub open spec fn source_views(sources: Seq<FeedSource>) -> Seq<(Seq<char>, Seq<char>)> {
    sources.map_values(|source: FeedSource| (source.url@, source.timezone@))
}

/// The feeds of `config`: one for each address, all in the one zone of the
/// configuration.
pub open spec fn feeds_of(config: ConfigView) -> Seq<(Seq<char>, Seq<char>)> {
    config.ics_urls.map_values(|url: Seq<char>| (url, config.timezone))
}

/// A setting: a name and its value.
pub type Setting = (Seq<char>, Seq<char>);

/// The views of `vars`, one for one.
pub open spec fn settings(vars: Seq<(String, String)>) -> Seq<Setting> {
    vars.map_values(|pair: (String, String)| (pair.0@, pair.1@))
}

/// The value that `vars` gives to `key`: that of the last setting of that
/// name.
pub open spec fn lookup(vars: Seq<Setting>, key: Seq<char>) -> Option<Seq<char>>
    decreases vars.len(),
{
    if vars.len() == 0 {
        None
    } else if vars.last().0 == key {
        Some(vars.last().1)
    } else {
        lookup(vars.drop_last(), key)
    }
}

/// The settings that the lines of a settings file give, in their order: each
/// line that, without the whitespace at its ends, is not empty and holds a
/// `=` gives one, of what stands before the first `=` and what stands after
/// it, both without the whitespace at their ends.
pub open spec fn settings_of_lines(lines: Seq<Seq<char>>) -> Seq<Setting>
    decreases lines.len(),
{
    if lines.len() == 0 {
        Seq::empty()
    } else {
        let before = settings_of_lines(lines.drop_last());
        match split_once(trimmed(lines.last()), '=') {
            Some((key, value)) => before.push((trimmed(key), trimmed(value))),
            None => before,
        }
    }
}

/// Each of `pieces` without the whitespace at its ends.
pub open spec fn all_trimmed(pieces: Seq<Seq<char>>) -> Seq<Seq<char>> {
    pieces.map_values(|piece: Seq<char>| trimmed(piece))
}

/// The configuration that the settings `vars` give, or what is wrong with
/// the first setting that is missing or cannot be read, taken in the order
/// server address, feed addresses, refresh period, number of events,
/// time zone.
pub open spec fn config_of(vars: Seq<Setting>) -> Result<ConfigView, Seq<char>> {
    match lookup(vars, "SERVER_ADDRESS"@) {
        None => Err("Missing SERVER_ADDRESS"@),
        Some(server_address) => match lookup(vars, "ICS_URLS"@) {
            None => Err("Missing ICS_URLS"@),
            Some(urls) => match lookup(vars, "REFRESH_PERIOD_SECONDS"@) {
                None => Err("Missing REFRESH_PERIOD_SECONDS"@),
                Some(period) => match unsigned_of(period, u64::MAX as nat) {
                    None => Err("Invalid REFRESH_PERIOD_SECONDS"@),
                    Some(refresh_period) => match lookup(vars, "MAX_EVENTS_DISPLAY"@) {
                        None => Err("Missing MAX_EVENTS_DISPLAY"@),
                        Some(shown) => match unsigned_of(shown, usize::MAX as nat) {
                            None => Err("Invalid MAX_EVENTS_DISPLAY"@),
                            Some(max_events) => match lookup(vars, "TIMEZONE"@) {
                                None => Err("Missing TIMEZONE"@),
                                Some(timezone) => Ok(
                                    ConfigView {
                                        server_address,
                                        ics_urls: all_trimmed(split_on(urls, ',')),
                                        refresh_period,
                                        max_events,
                                        timezone,
                                    },
                                ),
                            },
                        },
                    },
                },
            },
        },
    }
}

/// The settings of `config`, one to a line, for a person to read.
pub open spec fn described(config: ConfigView) -> Seq<char> {
    "\n * Server address: "@ + config.server_address + " \n * ICS Urls: "@ + joined(
        config.ics_urls,
        ","@,
    ) + " \n * Refresh period: "@ + decimal(config.refresh_period) + " \n * Max events "@
        + decimal(config.max_events) + " \n * Timezone: "@ + config.timezone
}

/// The value that `vars` gives to `key`.
fn find_setting(vars: &Vec<(String, String)>, key: &str) -> (value: Option<Vec<char>>)
    ensures
        match value {
            Some(chars) => lookup(settings(vars@), key@) == Some(chars@),
            None => lookup(settings(vars@), key@) is None,
        },
{
    let mut i: usize = vars.len();
    assert(settings(vars@).take(vars.len() as int) == settings(vars@));
    while i > 0
        invariant
            i <= vars.len(),
            lookup(settings(vars@), key@) == lookup(settings(vars@).take(i as int), key@),
        decreases i,
    {
        let ghost upto = settings(vars@).take(i as int);
        assert(upto.last() == (vars@[i - 1].0@, vars@[i - 1].1@));
        assert(upto.drop_last() == settings(vars@).take(i - 1));
        let name = chars_of(vars[i - 1].0.as_str());
        if spells(&name, key) {
            return Some(chars_of(vars[i - 1].1.as_str()));
        }
        i -= 1;
    }
    None
}

/// Each piece of `text` between commas, without the whitespace at its ends.
fn comma_list(text: &Vec<char>) -> (items: Vec<String>)
    ensures
        texts(items@) == all_trimmed(split_on(text@, ',')),
{
    let pieces = cut(text, ',');
    let mut items: Vec<String> = Vec::new();
    let mut i: usize = 0;
    while i < pieces.len()
        invariant
            i <= pieces.len(),
            texts(items@) == all_trimmed(views(pieces@).take(i as int)),
        decreases pieces.len() - i,
    {
        let item = text_of(&trim(&pieces[i]));
        proof {
            assert(views(pieces@).take(i + 1) == views(pieces@).take(i as int).push(
                pieces@[i as int]@,
            ));
            assert(texts(items@.push(item)) == texts(items@).push(item@));
            assert(all_trimmed(views(pieces@).take(i as int).push(pieces@[i as int]@))
                == all_trimmed(views(pieces@).take(i as int)).push(trimmed(pieces@[i as int]@)));
        }
        items.push(item);
        i += 1;
    }
    assert(views(pieces@).take(pieces.len() as int) == views(pieces@));
    items
}

impl Config {
    /// The configuration that the settings `vars` give. Of two settings of
    /// one name the later counts.
    pub fn parse(vars: &Vec<(String, String)>) -> (result: Result<Config, String>)
        ensures
            match result {
                Ok(config) => config_of(settings(vars@)) == Ok::<ConfigView, Seq<char>>(config@),
                Err(message) => config_of(settings(vars@)) == Err::<ConfigView, Seq<char>>(
                    message@,
                ),
            },
    {
        let server_address = match find_setting(vars, "SERVER_ADDRESS") {
            Some(value) => text_of(&value),
            None => {
                return Err("Missing SERVER_ADDRESS".to_owned());
            },
        };
        let ics_urls = match find_setting(vars, "ICS_URLS") {
            Some(value) => comma_list(&value),
            None => {
                return Err("Missing ICS_URLS".to_owned());
            },
        };
        let refresh_period: u64 = match find_setting(vars, "REFRESH_PERIOD_SECONDS") {
            Some(value) => match parse_unsigned(&value, u64::MAX) {
                Some(n) => n,
                None => {
                    return Err("Invalid REFRESH_PERIOD_SECONDS".to_owned());
                },
            },
            None => {
                return Err("Missing REFRESH_PERIOD_SECONDS".to_owned());
            },
        };
        let max_events: usize = match find_setting(vars, "MAX_EVENTS_DISPLAY") {
            Some(value) => match parse_unsigned(&value, usize::MAX as u64) {
                Some(n) => n as usize,
                None => {
                    return Err("Invalid MAX_EVENTS_DISPLAY".to_owned());
                },
            },
            None => {
                return Err("Missing MAX_EVENTS_DISPLAY".to_owned());
            },
        };
        let timezone = match find_setting(vars, "TIMEZONE") {
            Some(value) => text_of(&value),
            None => {
                return Err("Missing TIMEZONE".to_owned());
            },
        };
        Ok(Config { server_address, ics_urls, refresh_period, max_events, timezone })
    }

    /// The configuration that the lines of a settings file give.
    pub fn from_lines(lines: &Vec<String>) -> (result: Result<Config, String>)
        ensures
            match result {
                Ok(config) => config_of(settings_of_lines(texts(lines@))) == Ok::<
                    ConfigView,
                    Seq<char>,
                >(config@),
                Err(message) => config_of(settings_of_lines(texts(lines@))) == Err::<
                    ConfigView,
                    Seq<char>,
                >(message@),
            },
    {
        let mut vars: Vec<(String, String)> = Vec::new();
        let mut i: usize = 0;
        assert(texts(lines@).take(0) == Seq::<Seq<char>>::empty());
        assert(settings(vars@) == Seq::<Setting>::empty());
        while i < lines.len()
            invariant
                i <= lines.len(),
                settings(vars@) == settings_of_lines(texts(lines@).take(i as int)),
            decreases lines.len() - i,
        {
            let ghost upto = texts(lines@).take(i + 1);
            assert(upto.last() == lines@[i as int]@);
            assert(upto.drop_last() == texts(lines@).take(i as int));
            let line = trim(&chars_of(lines[i].as_str()));
            match cut_once(&line, '=') {
                Some((key, value)) => {
                    let pair = (text_of(&trim(&key)), text_of(&trim(&value)));
                    assert(settings(vars@.push(pair)) == settings(vars@).push((pair.0@, pair.1@)));
                    vars.push(pair);
                },
                None => {},
            }
            i += 1;
        }
        assert(texts(lines@).take(lines.len() as int) == texts(lines@));
        Config::parse(&vars)
    }

    /// The feeds to fetch, in the order of their addresses.
    pub fn feed_sources(&self) -> (sources: Vec<FeedSource>)
        ensures
            source_views(sources@) == feeds_of(self@),
    {
        let mut sources: Vec<FeedSource> = Vec::new();
        let mut i: usize = 0;
        while i < self.ics_urls.len()
            invariant
                i <= self.ics_urls.len(),
                source_views(sources@) == feeds_of(self@).take(i as int),
            decreases self.ics_urls.len() - i,
        {
            let source = FeedSource {
                url: self.ics_urls[i].clone(),
                timezone: self.timezone.clone(),
            };
            assert(source_views(sources@.push(source)) == source_views(sources@).push(
                (source.url@, source.timezone@),
            ));
            assert(feeds_of(self@).take(i + 1) == feeds_of(self@).take(i as int).push(
                (self.ics_urls@[i as int]@, self.timezone@),
            ));
            sources.push(source);
            i += 1;
        }
        assert(feeds_of(self@).take(self.ics_urls.len() as int) == feeds_of(self@));
        sources
    }

    /// The settings, one to a line, for a person to read.
    pub fn describe(&self) -> (text: String)
        ensures
            text@ == described(self@),
    {
        let mut out: Vec<char> = Vec::new();
        extend_text(&mut out, "\n * Server address: ");
        extend_text(&mut out, self.server_address.as_str());
        extend_text(&mut out, " \n * ICS Urls: ");
        let ghost before = out@;
        let mut i: usize = 0;
        assert(texts(self.ics_urls@).take(0) == Seq::<Seq<char>>::empty());
        while i < self.ics_urls.len()
            invariant
                i <= self.ics_urls.len(),
                out@ == before + joined(texts(self.ics_urls@).take(i as int), ","@),
            decreases self.ics_urls.len() - i,
        {
            let ghost upto = texts(self.ics_urls@).take(i + 1);
            assert(upto.last() == self.ics_urls@[i as int]@);
            assert(upto.drop_last() == texts(self.ics_urls@).take(i as int));
            if i > 0 {
                extend_text(&mut out, ",");
            }
            extend_text(&mut out, self.ics_urls[i].as_str());
            i += 1;
        }
        assert(texts(self.ics_urls@).take(self.ics_urls.len() as int) == texts(self.ics_urls@));
        extend_text(&mut out, " \n * Refresh period: ");
        push_decimal(&mut out, self.refresh_period);
        extend_text(&mut out, " \n * Max events ");
        push_decimal(&mut out, self.max_events as u64);
        extend_text(&mut out, " \n * Timezone: ");
        extend_text(&mut out, self.timezone.as_str());
        text_of(&out)
    }
}

} // verus!
