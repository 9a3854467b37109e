//! Prediction-market browser: topic and sort-order cycling and the events
//! query URL.
use vstd::prelude::*;
use crate::num::{dec_chars, push_dec};
use crate::text::{push_str, string_of};

verus! {

#[derive(Debug, Clone, Copy, PartialEq, Eq, Structural)]
pub enum Topic {
    All,
    Politics,
    Sports,
    Crypto,
    Geopolitics,
    Esports,
    Elections,
    Science,
    Ai,
    Business,
}

#[derive(Debug, Clone, Copy, PartialEq, Eq, Structural)]
pub enum SortOrder {
    MonitoringTheSituation,
    Volume24h,
    Volume,
    Liquidity,
    Newest,
    Competitive,
}

/// Number of topics.
pub open spec fn topic_count() -> nat {
    10
}

/// Position of a topic in `Topic::ALL`.
pub open spec fn topic_index(t: Topic) -> nat {
    match t {
        Topic::All => 0,
        Topic::Politics => 1,
        Topic::Sports => 2,
        Topic::Crypto => 3,
        Topic::Geopolitics => 4,
        Topic::Esports => 5,
        Topic::Elections => 6,
        Topic::Science => 7,
        Topic::Ai => 8,
        Topic::Business => 9,
    }
}

/// The topic at a position of `Topic::ALL`.
pub open spec fn topic_at(i: nat) -> Topic {
    if i == 0 {
        Topic::All
    } else if i == 1 {
        Topic::Politics
    } else if i == 2 {
        Topic::Sports
    } else if i == 3 {
        Topic::Crypto
    } else if i == 4 {
        Topic::Geopolitics
    } else if i == 5 {
        Topic::Esports
    } else if i == 6 {
        Topic::Elections
    } else if i == 7 {
        Topic::Science
    } else if i == 8 {
        Topic::Ai
    } else {
        Topic::Business
    }
}

/// The topic after `t`, wrapping from the last to the first.
pub open spec fn topic_next_spec(t: Topic) -> Topic {
    topic_at((topic_index(t) + 1) % topic_count())
}

/// The topic before `t`, wrapping from the first to the last.
pub open spec fn topic_prev_spec(t: Topic) -> Topic {
    topic_at((topic_index(t) + topic_count() - 1) as nat % topic_count())
}

/// The sort order after `s`, wrapping from the last to the first.
pub open spec fn sort_next_spec(s: SortOrder) -> SortOrder {
    sort_at((sort_index(s) + 1) % sort_count())
}

pub open spec fn sort_count() -> nat {
    6
}

/// Position of a sort order in `SortOrder::ALL`.
pub open spec fn sort_index(s: SortOrder) -> nat {
    match s {
        SortOrder::MonitoringTheSituation => 0,
        SortOrder::Volume24h => 1,
        SortOrder::Volume => 2,
        SortOrder::Liquidity => 3,
        SortOrder::Newest => 4,
        SortOrder::Competitive => 5,
    }
}

/// The sort order at a position of `SortOrder::ALL`.
pub open spec fn sort_at(i: nat) -> SortOrder {
    if i == 0 {
        SortOrder::MonitoringTheSituation
    } else if i == 1 {
        SortOrder::Volume24h
    } else if i == 2 {
        SortOrder::Volume
    } else if i == 3 {
        SortOrder::Liquidity
    } else if i == 4 {
        SortOrder::Newest
    } else {
        SortOrder::Competitive
    }
}

pub open spec fn topic_label_spec(t: Topic) -> Seq<char> {
    match t {
        Topic::All => "All"@,
        Topic::Politics => "Politics"@,
        Topic::Sports => "Sports"@,
        Topic::Crypto => "Crypto"@,
        Topic::Geopolitics => "Geopolitics"@,
        Topic::Esports => "Esports"@,
        Topic::Elections => "Elections"@,
        Topic::Science => "Science"@,
        Topic::Ai => "AI"@,
        Topic::Business => "Business"@,
    }
}

pub open spec fn topic_slug_spec(t: Topic) -> Option<Seq<char>> {
    match t {
        Topic::All => None,
        Topic::Politics => Some("politics"@),
        Topic::Sports => Some("sports"@),
        Topic::Crypto => Some("crypto"@),
        Topic::Geopolitics => Some("geopolitics"@),
        Topic::Esports => Some("esports"@),
        Topic::Elections => Some("elections"@),
        Topic::Science => Some("science"@),
        Topic::Ai => Some("ai"@),
        Topic::Business => Some("business"@),
    }
}

pub open spec fn sort_label_spec(s: SortOrder) -> Seq<char> {
    match s {
        SortOrder::MonitoringTheSituation => "Monitoring the Situation"@,
        SortOrder::Volume24h => "24h Volume"@,
        SortOrder::Volume => "All-time Vol"@,
        SortOrder::Liquidity => "Liquidity"@,
        SortOrder::Newest => "Newest"@,
        SortOrder::Competitive => "Competitive"@,
    }
}

pub open spec fn sort_param_spec(s: SortOrder) -> Seq<char> {
    match s {
        SortOrder::MonitoringTheSituation => "volume24hr"@,
        SortOrder::Volume24h => "volume24hr"@,
        SortOrder::Volume => "volume"@,
        SortOrder::Liquidity => "liquidityClob"@,
        SortOrder::Newest => "startDate"@,
        SortOrder::Competitive => "competitive"@,
    }
}

pub open spec fn sort_limit_spec(s: SortOrder) -> u32 {
    match s {
        SortOrder::MonitoringTheSituation => 50,
        _ => 20,
    }
}

impl Topic {
    /// Every topic, in display order.
    pub const ALL: [Topic; 10] = [
        Topic::All,
        Topic::Politics,
        Topic::Sports,
        Topic::Crypto,
        Topic::Geopolitics,
        Topic::Esports,
        Topic::Elections,
        Topic::Science,
        Topic::Ai,
        Topic::Business,
    ];

    pub fn label(self) -> (s: &'static str)
        ensures
            s@ == topic_label_spec(self),
    {
        match self {
            Topic::All => "All",
            Topic::Politics => "Politics",
            Topic::Sports => "Sports",
            Topic::Crypto => "Crypto",
            Topic::Geopolitics => "Geopolitics",
            Topic::Esports => "Esports",
            Topic::Elections => "Elections",
            Topic::Science => "Science",
            Topic::Ai => "AI",
            Topic::Business => "Business",
        }
    }

    /// The `tag_slug` query value of the topic; `All` filters nothing.
    pub fn tag_slug(self) -> (s: Option<&'static str>)
        ensures
            match topic_slug_spec(self) {
                Some(x) => s matches Some(y) && y@ == x,
                None => s is None,
            },
    {
        match self {
            Topic::All => None,
            Topic::Politics => Some("politics"),
            Topic::Sports => Some("sports"),
            Topic::Crypto => Some("crypto"),
            Topic::Geopolitics => Some("geopolitics"),
            Topic::Esports => Some("esports"),
            Topic::Elections => Some("elections"),
            Topic::Science => Some("science"),
            Topic::Ai => Some("ai"),
            Topic::Business => Some("business"),
        }
    }

    fn index(self) -> (i: usize)
        ensures
            i == topic_index(self),
    {
        match self {
            Topic::All => 0,
            Topic::Politics => 1,
            Topic::Sports => 2,
            Topic::Crypto => 3,
            Topic::Geopolitics => 4,
            Topic::Esports => 5,
            Topic::Elections => 6,
            Topic::Science => 7,
            Topic::Ai => 8,
            Topic::Business => 9,
        }
    }

    fn at(i: usize) -> (t: Topic)
        requires
            i < 10,
        ensures
            t == topic_at(i as nat),
    {
        if i == 0 {
            Topic::All
        } else if i == 1 {
            Topic::Politics
        } else if i == 2 {
            Topic::Sports
        } else if i == 3 {
            Topic::Crypto
        } else if i == 4 {
            Topic::Geopolitics
        } else if i == 5 {
            Topic::Esports
        } else if i == 6 {
            Topic::Elections
        } else if i == 7 {
            Topic::Science
        } else if i == 8 {
            Topic::Ai
        } else {
            Topic::Business
        }
    }

    /// The following topic, wrapping from the last to the first.
    pub fn next(self) -> (t: Topic)
        ensures
            t == topic_next_spec(self),
    {
        Topic::at((self.index() + 1) % 10)
    }

    /// The preceding topic, wrapping from the first to the last.
    pub fn prev(self) -> (t: Topic)
        ensures
            t == topic_prev_spec(self),
    {
        let idx = self.index();
        if idx == 0 {
            Topic::at(9)
        } else {
            Topic::at(idx - 1)
        }
    }
}

impl SortOrder {
    /// Every sort order, in display order.
    pub const ALL: [SortOrder; 6] = [
        SortOrder::MonitoringTheSituation,
        SortOrder::Volume24h,
        SortOrder::Volume,
        SortOrder::Liquidity,
        SortOrder::Newest,
        SortOrder::Competitive,
    ];

    pub fn label(self) -> (s: &'static str)
        ensures
            s@ == sort_label_spec(self),
    {
        match self {
            SortOrder::MonitoringTheSituation => "Monitoring the Situation",
            SortOrder::Volume24h => "24h Volume",
            SortOrder::Volume => "All-time Vol",
            SortOrder::Liquidity => "Liquidity",
            SortOrder::Newest => "Newest",
            SortOrder::Competitive => "Competitive",
        }
    }

    /// The `order` query value the sort order asks the events API for.
    pub fn api_param(self) -> (s: &'static str)
        ensures
            s@ == sort_param_spec(self),
    {
        match self {
            SortOrder::MonitoringTheSituation => "volume24hr",
            SortOrder::Volume24h => "volume24hr",
            SortOrder::Volume => "volume",
            SortOrder::Liquidity => "liquidityClob",
            SortOrder::Newest => "startDate",
            SortOrder::Competitive => "competitive",
        }
    }

    /// How many events the sort order fetches.
    pub fn api_limit(self) -> (n: u32)
        ensures
            n == sort_limit_spec(self),
    {
        match self {
            SortOrder::MonitoringTheSituation => 50,
            _ => 20,
        }
    }

    fn index(self) -> (i: usize)
        ensures
            i == sort_index(self),
    {
        match self {
            SortOrder::MonitoringTheSituation => 0,
            SortOrder::Volume24h => 1,
            SortOrder::Volume => 2,
            SortOrder::Liquidity => 3,
            SortOrder::Newest => 4,
            SortOrder::Competitive => 5,
        }
    }

    fn at(i: usize) -> (s: SortOrder)
        requires
            i < 6,
        ensures
            s == sort_at(i as nat),
    {
        if i == 0 {
            SortOrder::MonitoringTheSituation
        } else if i == 1 {
            SortOrder::Volume24h
        } else if i == 2 {
            SortOrder::Volume
        } else if i == 3 {
            SortOrder::Liquidity
        } else if i == 4 {
            SortOrder::Newest
        } else {
            SortOrder::Competitive
        }
    }

    /// The following sort order, wrapping from the last to the first.
    pub fn next(self) -> (s: SortOrder)
        ensures
            s == sort_next_spec(self),
    {
        SortOrder::at((self.index() + 1) % 6)
    }
}

/// The events query: active, open events ordered by the sort order's field,
/// descending, limited to its event count, filtered by the topic's tag when
/// it has one.
pub open spec fn events_url_spec(topic: Topic, sort: SortOrder) -> Seq<char> {
    let base = "https://gamma-api.polymarket.com/events?active=true&closed=false&order="@
        + sort_param_spec(sort) + "&ascending=false&limit="@ + dec_chars(
        sort_limit_spec(sort) as nat,
    );
    match topic_slug_spec(topic) {
        Some(slug) => base + "&tag_slug="@ + slug,
        None => base,
    }
}

pub fn build_events_url(topic: Topic, sort: SortOrder) -> (url: String)
    ensures
        url@ == events_url_spec(topic, sort),
{
    let mut out: Vec<char> = Vec::new();
    push_str(&mut out, "https://gamma-api.polymarket.com/events?active=true&closed=false&order=");
    push_str(&mut out, sort.api_param());
    push_str(&mut out, "&ascending=false&limit=");
    push_dec(&mut out, sort.api_limit() as u64);
    match topic.tag_slug() {
        Some(slug) => {
            push_str(&mut out, "&tag_slug=");
            push_str(&mut out, slug);
        },
        None => {},
    }
    assert(out@ =~= events_url_spec(topic, sort));
    string_of(&out)
}

/// Stepping to the next topic and back again returns to the start.
pub proof fn topic_prev_undoes_next(t: Topic)
    ensures
        topic_prev_spec(topic_next_spec(t)) == t,
{
}

/// Stepping to the previous topic and forward again returns to the start.
pub proof fn topic_next_undoes_prev(t: Topic)
    ensures
        topic_next_spec(topic_prev_spec(t)) == t,
{
}

/// The topic reached after `n` steps forward.
pub open spec fn topic_advance(t: Topic, n: nat) -> Topic
    decreases n,
{
    if n == 0 {
        t
    } else {
        topic_next_spec(topic_advance(t, (n - 1) as nat))
    }
}

/// The sort order reached after `n` steps forward.
pub open spec fn sort_advance(s: SortOrder, n: nat) -> SortOrder
    decreases n,
{
    if n == 0 {
        s
    } else {
        sort_next_spec(sort_advance(s, (n - 1) as nat))
    }
}

proof fn lemma_topic_advance_index(t: Topic, n: nat)
    ensures
        topic_index(topic_advance(t, n)) == (topic_index(t) + n) % 10,
    decreases n,
{
    if n > 0 {
        lemma_topic_advance_index(t, (n - 1) as nat);
    }
}

proof fn lemma_sort_advance_index(s: SortOrder, n: nat)
    ensures
        sort_index(sort_advance(s, n)) == (sort_index(s) + n) % 6,
    decreases n,
{
    if n > 0 {
        lemma_sort_advance_index(s, (n - 1) as nat);
    }
}

/// Stepping forward through every topic comes back to the start, and no
/// shorter cycle does: `next` visits all ten topics.
pub proof fn topic_next_cycles(t: Topic, n: nat)
    ensures
        (topic_advance(t, n) == t) <==> n % topic_count() == 0,
{
    lemma_topic_advance_index(t, n);
    assert(topic_at(topic_index(t)) == t);
    assert(topic_at(topic_index(topic_advance(t, n))) == topic_advance(t, n));
}

/// Stepping forward through every sort order comes back to the start, and
/// no shorter cycle does.
pub proof fn sort_next_cycles(s: SortOrder, n: nat)
    ensures
        (sort_advance(s, n) == s) <==> n % sort_count() == 0,
{
    lemma_sort_advance_index(s, n);
    assert(sort_at(sort_index(s)) == s);
    assert(sort_at(sort_index(sort_advance(s, n))) == sort_advance(s, n));
}

/// What `serde_json` reads from a text as a JSON array of strings: the
/// strings, or none when the text is not such an array.
pub uninterp spec fn json_string_array(text: Seq<char>) -> Option<Seq<Seq<char>>>;

pub open spec fn string_views(v: Seq<String>) -> Seq<Seq<char>> {
    v.map_values(|s: String| s@)
}

/// Reads a text as a JSON array of strings with `serde_json::from_str`;
/// what it reads is named `json_string_array`, and nothing more is claimed
/// of it here.
#[verifier::external_body]
fn read_string_array(text: &str) -> (r: Option<Vec<String>>)
    ensures
        match json_string_array(text@) {
            Some(ss) => r matches Some(v) && string_views(v@) == ss,
            None => r is None,
        },
{
    serde_json::from_str::<Vec<String>>(text).ok()
}

/// The first string of a list read from JSON, if there is a list and it
/// has one.
pub fn first_string(list: Option<Vec<String>>) -> (r: Option<String>)
    ensures
        match list {
            Some(v) => if v@.len() > 0 {
                r == Some(v@[0])
            } else {
                r is None
            },
            None => r is None,
        },
{
    match list {
        Some(v) => if v.len() > 0 {
            Some(v[0].clone())
        } else {
            None
        },
        None => None,
    }
}

/// The first string of a JSON array of strings, if the text is one and it
/// has one.
pub open spec fn first_json_string(text: Seq<char>) -> Option<Seq<char>> {
    match json_string_array(text) {
        Some(ss) => if ss.len() > 0 {
            Some(ss[0])
        } else {
            None
        },
        None => None,
    }
}

/// The token of a market's "yes" outcome: the first of its token ids,
/// which the API lists as a JSON array of strings inside a string.
pub fn parse_yes_token_id(clob_token_ids: &str) -> (r: Option<String>)
    ensures
        match first_json_string(clob_token_ids@) {
            Some(t) => r matches Some(x) && x@ == t,
            None => r is None,
        },
{
    first_string(read_string_array(clob_token_ids))
}

/// The text of a market's "yes" price: the first of its outcome prices,
/// which the API lists as a JSON array of strings inside a string.
pub fn yes_price_text(outcome_prices: &str) -> (r: Option<String>)
    ensures
        match first_json_string(outcome_prices@) {
            Some(t) => r matches Some(x) && x@ == t,
            None => r is None,
        },
{
    first_string(read_string_array(outcome_prices))
}

} // verus!
