//! The prediction-market viewer's interactive state: the events shown and
//! the selected one, its price history, the topic and sort filters, fast
//! mode, and the state shared with the background fetcher.
use vstd::prelude::*;
use crate::poly::{sort_next_spec, topic_next_spec, topic_prev_spec, SortOrder, Topic};
use crate::selection::{next_index, prev_index, step_selection};
use crate::text::concat_str;

verus! {

/// Refresh interval of fast mode, in milliseconds.
pub const FAST_REFRESH_MS: u64 = 5000;

/// What the background fetcher and the viewer share: new events and price
/// history (each with a flag saying it is new), the market whose history
/// is wanted, the last error, and the fetcher's settings. Events are of
/// type `E` and history points of type `H`, both the caller's.
pub struct FetchState<E, H> {
    pub events: Option<Vec<E>>,
    pub price_history: Option<Vec<H>>,
    pub requested_token_id: Option<String>,
    pub error: Option<String>,
    pub events_updated: bool,
    pub history_updated: bool,
    pub refresh_ms: u64,
    pub should_stop: bool,
    pub topic: Topic,
    pub sort_order: SortOrder,
    pub filter_changed: bool,
}

impl<E, H> FetchState<E, H> {
    pub fn new(refresh_ms: u64) -> (s: Self)
        ensures
            s.events is None,
            s.price_history is None,
            s.requested_token_id is None,
            s.error is None,
            !s.events_updated,
            !s.history_updated,
            s.refresh_ms == refresh_ms,
            !s.should_stop,
            s.topic == Topic::Geopolitics,
            s.sort_order == SortOrder::MonitoringTheSituation,
            !s.filter_changed,
    {
        FetchState {
            events: None,
            price_history: None,
            requested_token_id: None,
            error: None,
            events_updated: false,
            history_updated: false,
            refresh_ms,
            should_stop: false,
            topic: Topic::Geopolitics,
            sort_order: SortOrder::MonitoringTheSituation,
            filter_changed: false,
        }
    }
}

pub struct App<E, H> {
    pub events: Vec<E>,
    pub selected: usize,
    pub price_history: Vec<H>,
    pub should_quit: bool,
    pub fast_mode: bool,
    pub refresh_ms: u64,
    pub last_error: Option<String>,
    pub last_update: Option<std::time::Instant>,
    pub topic: Topic,
    pub sort_order: SortOrder,
    pub normal_refresh_ms: u64,
}

impl<E, H> App<E, H> {
    /// A viewer with no events, on all topics sorted by 24-hour volume.
    pub fn new(refresh_ms: u64) -> (app: Self)
        ensures
            app.events@ == Seq::<E>::empty(),
            app.selected == 0,
            app.price_history@ == Seq::<H>::empty(),
            !app.should_quit,
            !app.fast_mode,
            app.refresh_ms == refresh_ms,
            app.last_error is None,
            app.last_update is None,
            app.topic == Topic::All,
            app.sort_order == SortOrder::Volume24h,
            app.normal_refresh_ms == refresh_ms,
    {
        App {
            events: Vec::new(),
            selected: 0,
            price_history: Vec::new(),
            should_quit: false,
            fast_mode: false,
            refresh_ms,
            last_error: None,
            last_update: None,
            topic: Topic::All,
            sort_order: SortOrder::Volume24h,
            normal_refresh_ms: refresh_ms,
        }
    }

    /// The selected event, if the selection is on one.
    pub fn selected_event(&self) -> (e: Option<&E>)
        ensures
            e == (if self.selected < self.events@.len() {
                Some(&self.events@[self.selected as int])
            } else {
                None
            }),
    {
        if self.selected < self.events.len() {
            Some(&self.events[self.selected])
        } else {
            None
        }
    }

    /// Takes what the fetcher produced, at time `now`: new events replace
    /// the old ones (a selection past their end goes back to the first)
    /// and clear the error, new price history replaces the old, and an
    /// error the fetcher reported is taken over.
    pub fn tick(&mut self, state: &mut FetchState<E, H>, now: std::time::Instant)
        ensures
            ({
                let took = old(state).events_updated && old(state).events is Some;
                let took_history = old(state).history_updated && old(state).price_history is Some;
                &&& took ==> {
                    &&& final(self).events@ == old(state).events->0@
                    &&& final(self).selected == (if old(self).selected >= old(state).events->0.len() {
                        0
                    } else {
                        old(self).selected
                    })
                    &&& final(self).last_update == Some(now)
                    &&& final(state).events is None
                    &&& !final(state).events_updated
                }
                &&& !took ==> {
                    &&& final(self).events@ == old(self).events@
                    &&& final(self).selected == old(self).selected
                    &&& final(self).last_update == old(self).last_update
                    &&& final(state).events == old(state).events
                    &&& final(state).events_updated == old(state).events_updated
                }
                &&& took_history ==> {
                    &&& final(self).price_history@ == old(state).price_history->0@
                    &&& final(state).price_history is None
                    &&& !final(state).history_updated
                }
                &&& !took_history ==> {
                    &&& final(self).price_history@ == old(self).price_history@
                    &&& final(state).price_history == old(state).price_history
                    &&& final(state).history_updated == old(state).history_updated
                }
                &&& final(self).last_error == (if old(state).error is Some {
                    old(state).error
                } else if took {
                    None
                } else {
                    old(self).last_error
                })
                &&& final(state).error is None
            }),
            final(self).should_quit == old(self).should_quit,
            final(self).fast_mode == old(self).fast_mode,
            final(self).refresh_ms == old(self).refresh_ms,
            final(self).topic == old(self).topic,
            final(self).sort_order == old(self).sort_order,
            final(state).requested_token_id == old(state).requested_token_id,
            final(state).refresh_ms == old(state).refresh_ms,
            final(state).should_stop == old(state).should_stop,
            final(state).topic == old(state).topic,
            final(state).sort_order == old(state).sort_order,
            final(state).filter_changed == old(state).filter_changed,
    {
        if state.events_updated {
            let taken = state.events.take();
            match taken {
                Some(events) => {
                    self.events = events;
                    if self.selected >= self.events.len() {
                        self.selected = 0;
                    }
                    state.events_updated = false;
                    self.last_update = Some(now);
                    self.last_error = None;
                },
                None => {},
            }
        }
        if state.history_updated {
            let taken = state.price_history.take();
            match taken {
                Some(history) => {
                    self.price_history = history;
                    state.history_updated = false;
                },
                None => {},
            }
        }
        let err = state.error.take();
        match err {
            Some(e) => {
                self.last_error = Some(e);
            },
            None => {},
        }
    }

    /// Asks the fetcher for the price history of the selected event's lead
    /// market, given its token (none when no event is selected or it has
    /// no market).
    pub fn follow_lead(&self, state: &mut FetchState<E, H>, lead_token: Option<String>)
        ensures
            final(state).requested_token_id == (if lead_token is Some {
                lead_token
            } else {
                old(state).requested_token_id
            }),
            final(state).events == old(state).events,
            final(state).price_history == old(state).price_history,
            final(state).error == old(state).error,
            final(state).events_updated == old(state).events_updated,
            final(state).history_updated == old(state).history_updated,
            final(state).refresh_ms == old(state).refresh_ms,
            final(state).topic == old(state).topic,
            final(state).sort_order == old(state).sort_order,
            final(state).filter_changed == old(state).filter_changed,
    {
        match lead_token {
            Some(token) => {
                state.requested_token_id = Some(token);
            },
            None => {},
        }
    }

    /// Drops the shown price history and, given the newly selected event's
    /// lead-market token, asks the fetcher for that market's history.
    pub fn request_history_for_selected(&mut self, state: &mut FetchState<E, H>, lead_token: Option<String>)
        ensures
            final(self).price_history@ == Seq::<H>::empty(),
            final(self).events@ == old(self).events@,
            final(self).selected == old(self).selected,
            lead_token is Some ==> final(state).requested_token_id == lead_token
                && !final(state).history_updated,
            lead_token is None ==> *final(state) == *old(state),
            final(state).events == old(state).events,
            final(state).price_history == old(state).price_history,
            final(state).topic == old(state).topic,
            final(state).sort_order == old(state).sort_order,
            final(state).filter_changed == old(state).filter_changed,
            final(state).refresh_ms == old(state).refresh_ms,
    {
        self.price_history = Vec::new();
        match lead_token {
            Some(token) => {
                state.requested_token_id = Some(token);
                state.history_updated = false;
            },
            None => {},
        }
    }

    /// Selects the next event, wrapping to the first; returns whether the
    /// selection moved (it does not without events), after which the
    /// caller asks for the new event's history.
    pub fn select_next(&mut self) -> (moved: bool)
        requires
            old(self).events.len() > 0 ==> old(self).selected < usize::MAX,
        ensures
            moved == (old(self).events.len() > 0),
            final(self).selected == step_selection(old(self).selected, old(self).events@.len(), true),
            final(self).events@ == old(self).events@,
            final(self).price_history@ == old(self).price_history@,
    {
        self.selected = next_index(self.selected, self.events.len());
        self.events.len() > 0
    }

    /// Selects the previous event, wrapping to the last; returns whether
    /// the selection moved (it does not without events), after which the
    /// caller asks for the new event's history.
    pub fn select_prev(&mut self) -> (moved: bool)
        ensures
            moved == (old(self).events.len() > 0),
            final(self).selected == step_selection(old(self).selected, old(self).events@.len(), false),
            final(self).events@ == old(self).events@,
            final(self).price_history@ == old(self).price_history@,
    {
        self.selected = prev_index(self.selected, self.events.len());
        self.events.len() > 0
    }

    /// Switches fast mode, refreshing every 5 s or at the viewer's own
    /// rate, and tells the fetcher.
    pub fn toggle_fast_mode(&mut self, state: &mut FetchState<E, H>)
        ensures
            final(self).fast_mode == !old(self).fast_mode,
            final(self).refresh_ms == (if final(self).fast_mode {
                FAST_REFRESH_MS
            } else {
                old(self).normal_refresh_ms
            }),
            final(state).refresh_ms == final(self).refresh_ms,
            final(self).normal_refresh_ms == old(self).normal_refresh_ms,
            final(self).events@ == old(self).events@,
            final(self).selected == old(self).selected,
            final(state).topic == old(state).topic,
            final(state).sort_order == old(state).sort_order,
            final(state).filter_changed == old(state).filter_changed,
    {
        self.fast_mode = !self.fast_mode;
        self.refresh_ms = if self.fast_mode {
            FAST_REFRESH_MS
        } else {
            self.normal_refresh_ms
        };
        state.refresh_ms = self.refresh_ms;
    }

    /// Starts over on a new filter: no events, no history, the first
    /// selected, and the fetcher told to fetch again.
    fn apply_filter(&mut self, state: &mut FetchState<E, H>)
        ensures
            final(self).selected == 0,
            final(self).events@ == Seq::<E>::empty(),
            final(self).price_history@ == Seq::<H>::empty(),
            final(self).topic == old(self).topic,
            final(self).sort_order == old(self).sort_order,
            final(self).fast_mode == old(self).fast_mode,
            final(self).refresh_ms == old(self).refresh_ms,
            final(state).topic == old(self).topic,
            final(state).sort_order == old(self).sort_order,
            final(state).filter_changed,
            final(state).refresh_ms == old(state).refresh_ms,
    {
        self.selected = 0;
        self.events = Vec::new();
        self.price_history = Vec::new();
        state.topic = self.topic;
        state.sort_order = self.sort_order;
        state.filter_changed = true;
    }

    /// Moves to the next topic and starts over on it.
    pub fn cycle_topic(&mut self, state: &mut FetchState<E, H>)
        ensures
            final(self).topic == topic_next_spec(old(self).topic),
            final(self).sort_order == old(self).sort_order,
            final(self).selected == 0,
            final(self).events@ == Seq::<E>::empty(),
            final(self).price_history@ == Seq::<H>::empty(),
            final(state).topic == final(self).topic,
            final(state).sort_order == final(self).sort_order,
            final(state).filter_changed,
            final(state).refresh_ms == old(state).refresh_ms,
    {
        self.topic = self.topic.next();
        self.apply_filter(state);
    }

    /// Moves to the previous topic and starts over on it.
    pub fn cycle_topic_prev(&mut self, state: &mut FetchState<E, H>)
        ensures
            final(self).topic == topic_prev_spec(old(self).topic),
            final(self).sort_order == old(self).sort_order,
            final(self).selected == 0,
            final(self).events@ == Seq::<E>::empty(),
            final(self).price_history@ == Seq::<H>::empty(),
            final(state).topic == final(self).topic,
            final(state).sort_order == final(self).sort_order,
            final(state).filter_changed,
            final(state).refresh_ms == old(state).refresh_ms,
    {
        self.topic = self.topic.prev();
        self.apply_filter(state);
    }

    /// Moves to the next sort order and starts over on it.
    pub fn cycle_sort(&mut self, state: &mut FetchState<E, H>)
        ensures
            final(self).sort_order == sort_next_spec(old(self).sort_order),
            final(self).topic == old(self).topic,
            final(self).selected == 0,
            final(self).events@ == Seq::<E>::empty(),
            final(self).price_history@ == Seq::<H>::empty(),
            final(state).topic == final(self).topic,
            final(state).sort_order == final(self).sort_order,
            final(state).filter_changed,
            final(state).refresh_ms == old(state).refresh_ms,
    {
        self.sort_order = self.sort_order.next();
        self.apply_filter(state);
    }
}

impl<E, H> FetchState<E, H> {
    /// Hands a round's event fetch to the viewer: new events, flagged new,
    /// with the error cleared; or the error, prefixed `Events: `.
    pub fn record_events(&mut self, outcome: Result<Vec<E>, String>)
        ensures
            match outcome {
                Ok(events) => {
                    &&& final(self).events == Some(events)
                    &&& final(self).events_updated
                    &&& final(self).error is None
                },
                Err(msg) => {
                    &&& final(self).error matches Some(e) && e@ == "Events: "@ + msg@
                    &&& final(self).events == old(self).events
                    &&& final(self).events_updated == old(self).events_updated
                },
            },
            final(self).price_history == old(self).price_history,
            final(self).history_updated == old(self).history_updated,
            final(self).requested_token_id == old(self).requested_token_id,
            final(self).refresh_ms == old(self).refresh_ms,
            final(self).should_stop == old(self).should_stop,
            final(self).topic == old(self).topic,
            final(self).sort_order == old(self).sort_order,
            final(self).filter_changed == old(self).filter_changed,
    {
        match outcome {
            Ok(events) => {
                self.events = Some(events);
                self.events_updated = true;
                self.error = None;
            },
            Err(msg) => {
                self.error = Some(concat_str("Events: ", msg.as_str()));
            },
        }
    }

    /// Hands a round's price-history fetch to the viewer: the history,
    /// flagged new; or the error, prefixed `History: `.
    pub fn record_history(&mut self, outcome: Result<Vec<H>, String>)
        ensures
            match outcome {
                Ok(history) => {
                    &&& final(self).price_history == Some(history)
                    &&& final(self).history_updated
                    &&& final(self).error == old(self).error
                },
                Err(msg) => {
                    &&& final(self).error matches Some(e) && e@ == "History: "@ + msg@
                    &&& final(self).price_history == old(self).price_history
                    &&& final(self).history_updated == old(self).history_updated
                },
            },
            final(self).events == old(self).events,
            final(self).events_updated == old(self).events_updated,
            final(self).requested_token_id == old(self).requested_token_id,
            final(self).refresh_ms == old(self).refresh_ms,
            final(self).should_stop == old(self).should_stop,
            final(self).topic == old(self).topic,
            final(self).sort_order == old(self).sort_order,
            final(self).filter_changed == old(self).filter_changed,
    {
        match outcome {
            Ok(history) => {
                self.price_history = Some(history);
                self.history_updated = true;
            },
            Err(msg) => {
                self.error = Some(concat_str("History: ", msg.as_str()));
            },
        }
    }
}

/// What the fetcher does in one round: stop, or fetch events for a topic
/// and sort order, and fetch a market's price history.
pub struct FetchPlan {
    pub stop: bool,
    pub fetch_events: bool,
    pub topic: Topic,
    pub sort_order: SortOrder,
    pub fetch_history: Option<String>,
}

/// Two optional market tokens name the same market, or both none.
pub open spec fn same_token(a: Option<String>, b: Option<String>) -> bool {
    match (a, b) {
        (Some(x), Some(y)) => x@ == y@,
        (None, None) => true,
        _ => false,
    }
}

fn string_eq(a: &String, b: &String) -> (r: bool)
    ensures
        r == (a@ == b@),
{
    *a == *b
}

fn copy_token(t: &Option<String>) -> (r: Option<String>)
    ensures
        r == *t,
{
    match t {
        Some(x) => Some(x.clone()),
        None => None,
    }
}

/// The fetcher's own memory: the market whose history it last fetched.
pub struct Fetcher {
    pub last_token_id: Option<String>,
}

impl Fetcher {
    pub fn new() -> (f: Self)
        ensures
            f.last_token_id is None,
    {
        Fetcher { last_token_id: None }
    }

    /// Plans a round, `since_events_ms` milliseconds after the last event
    /// fetch: events are fetched when the filter changed (which the round
    /// acknowledges) or the refresh interval has passed, and a market's
    /// history when the viewer asks for another market than last time.
    pub fn plan<E, H>(&mut self, state: &mut FetchState<E, H>, since_events_ms: u128) -> (p: FetchPlan)
        ensures
            !final(state).filter_changed,
            final(state).events == old(state).events,
            final(state).price_history == old(state).price_history,
            final(state).requested_token_id == old(state).requested_token_id,
            final(state).error == old(state).error,
            final(state).events_updated == old(state).events_updated,
            final(state).history_updated == old(state).history_updated,
            final(state).refresh_ms == old(state).refresh_ms,
            final(state).should_stop == old(state).should_stop,
            final(state).topic == old(state).topic,
            final(state).sort_order == old(state).sort_order,
            p.stop == old(state).should_stop,
            p.fetch_events == (old(state).filter_changed || since_events_ms >= old(state).refresh_ms),
            p.topic == old(state).topic,
            p.sort_order == old(state).sort_order,
            (p.stop || same_token(old(state).requested_token_id, old(self).last_token_id)) ==> {
                &&& p.fetch_history is None
                &&& final(self).last_token_id == old(self).last_token_id
            },
            !(p.stop || same_token(old(state).requested_token_id, old(self).last_token_id)) ==> {
                &&& p.fetch_history == old(state).requested_token_id
                &&& final(self).last_token_id == old(state).requested_token_id
            },
    {
        let filter_changed = state.filter_changed;
        state.filter_changed = false;
        let stop = state.should_stop;
        let fetch_events = filter_changed || since_events_ms >= state.refresh_ms as u128;
        let mut fetch_history: Option<String> = None;
        if !stop {
            let same = match &state.requested_token_id {
                Some(x) => match &self.last_token_id {
                    Some(y) => string_eq(x, y),
                    None => false,
                },
                None => self.last_token_id.is_none(),
            };
            if !same {
                fetch_history = copy_token(&state.requested_token_id);
                self.last_token_id = copy_token(&state.requested_token_id);
            }
        }
        FetchPlan { stop, fetch_events, topic: state.topic, sort_order: state.sort_order, fetch_history }
    }
}

} // verus!
