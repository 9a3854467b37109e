//! The picture viewer's interactive state: the entries fetched so far, the
//! selected one, the text scroll position and the view mode, and the state
//! shared with the background fetcher.
use vstd::prelude::*;
use crate::astro::{view_mode_next, ApodEntry, ApodResponse, DecodedImage, ThemePalette, ViewMode};
use crate::text::{chars_of, concat_str, eq_str};
use crate::selection::{next_index, prev_index, step_selection};

verus! {

/// What the background fetcher hands to the viewer: new entries (with a
/// flag saying they are new), the last error, and its settings.
pub struct FetchState {
    pub entries: Option<Vec<ApodEntry>>,
    pub error: Option<String>,
    pub entries_updated: bool,
    pub refresh_ms: u64,
    pub should_stop: bool,
    pub api_key: String,
}

impl FetchState {
    pub fn new(refresh_ms: u64, api_key: String) -> (s: Self)
        ensures
            s.entries is None,
            s.error is None,
            !s.entries_updated,
            s.refresh_ms == refresh_ms,
            !s.should_stop,
            s.api_key@ == api_key@,
    {
        FetchState { entries: None, error: None, entries_updated: false, refresh_ms, should_stop: false, api_key }
    }
}

pub struct App {
    pub entries: Vec<ApodEntry>,
    pub selected: usize,
    pub scroll_offset: u16,
    pub should_quit: bool,
    pub last_error: Option<String>,
    pub last_update: Option<std::time::Instant>,
    pub view_mode: ViewMode,
    pub palette: ThemePalette,
}

impl App {
    /// A viewer with no entries yet, on the themed view, tinting with the
    /// given palette.
    pub fn new(palette: ThemePalette) -> (app: Self)
        ensures
            app.entries@ == Seq::<ApodEntry>::empty(),
            app.selected == 0,
            app.scroll_offset == 0,
            !app.should_quit,
            app.last_error is None,
            app.last_update is None,
            app.view_mode == ViewMode::Themed,
            app.palette == palette,
    {
        App {
            entries: Vec::new(),
            selected: 0,
            scroll_offset: 0,
            should_quit: false,
            last_error: None,
            last_update: None,
            view_mode: ViewMode::Themed,
            palette,
        }
    }

    /// Moves to the next view mode, wrapping from the last to the first.
    pub fn toggle_view(&mut self)
        ensures
            final(self).view_mode == view_mode_next(old(self).view_mode),
            final(self).entries@ == old(self).entries@,
            final(self).selected == old(self).selected,
            final(self).scroll_offset == old(self).scroll_offset,
    {
        self.view_mode = self.view_mode.next();
    }

    /// The selected entry, if the selection is on one.
    pub fn selected_entry(&self) -> (e: Option<&ApodEntry>)
        ensures
            e == (if self.selected < self.entries.len() {
                Some(&self.entries@[self.selected as int])
            } else {
                None
            }),
    {
        if self.selected < self.entries.len() {
            Some(&self.entries[self.selected])
        } else {
            None
        }
    }

    /// Takes what the fetcher produced, at time `now`: new entries replace
    /// the old ones, select the most recent (the last) and reset the scroll
    /// and the error; an error the fetcher reported is taken over.
    pub fn tick(&mut self, state: &mut FetchState, now: std::time::Instant)
        ensures
            ({
                let took = old(state).entries_updated && old(state).entries is Some;
                &&& took ==> {
                    &&& final(self).entries@ == old(state).entries->0@
                    &&& final(self).selected == (if old(state).entries->0.len() > 0 {
                        old(state).entries->0.len() - 1
                    } else {
                        old(self).selected as int
                    })
                    &&& final(self).scroll_offset == 0
                    &&& final(self).last_update == Some(now)
                    &&& final(state).entries is None
                    &&& !final(state).entries_updated
                }
                &&& !took ==> {
                    &&& final(self).entries@ == old(self).entries@
                    &&& final(self).selected == old(self).selected
                    &&& final(self).scroll_offset == old(self).scroll_offset
                    &&& final(self).last_update == old(self).last_update
                    &&& final(state).entries == old(state).entries
                    &&& final(state).entries_updated == old(state).entries_updated
                }
                &&& final(self).last_error == (if old(state).error is Some {
                    old(state).error
                } else if took {
                    None
                } else {
                    old(self).last_error
                })
                &&& final(state).error is None
            }),
            final(self).view_mode == old(self).view_mode,
            final(self).should_quit == old(self).should_quit,
            final(self).palette == old(self).palette,
            final(state).refresh_ms == old(state).refresh_ms,
            final(state).should_stop == old(state).should_stop,
            final(state).api_key == old(state).api_key,
    {
        if state.entries_updated {
            let taken = state.entries.take();
            match taken {
                Some(entries) => {
                    self.entries = entries;
                    if self.entries.len() > 0 {
                        self.selected = self.entries.len() - 1;
                    }
                    state.entries_updated = false;
                    self.last_update = Some(now);
                    self.last_error = None;
                    self.scroll_offset = 0;
                },
                None => {},
            }
        }
        let err = state.error.take();
        match err {
            Some(e) => {
                self.last_error = Some(e);
            },
            None => {},
        }
    }

    /// Selects the next entry, wrapping to the first, and scrolls to the top.
    pub fn select_next(&mut self)
        requires
            old(self).entries.len() > 0 ==> old(self).selected < usize::MAX,
        ensures
            final(self).selected == step_selection(old(self).selected, old(self).entries.len() as nat, true),
            final(self).scroll_offset == (if old(self).entries.len() > 0 {
                0
            } else {
                old(self).scroll_offset
            }),
            final(self).entries@ == old(self).entries@,
            final(self).view_mode == old(self).view_mode,
    {
        if self.entries.len() > 0 {
            self.selected = next_index(self.selected, self.entries.len());
            self.scroll_offset = 0;
        }
    }

    /// Selects the previous entry, wrapping to the last, and scrolls to the
    /// top.
    pub fn select_prev(&mut self)
        ensures
            final(self).selected == step_selection(old(self).selected, old(self).entries.len() as nat, false),
            final(self).scroll_offset == (if old(self).entries.len() > 0 {
                0
            } else {
                old(self).scroll_offset
            }),
            final(self).entries@ == old(self).entries@,
            final(self).view_mode == old(self).view_mode,
    {
        if self.entries.len() > 0 {
            self.selected = prev_index(self.selected, self.entries.len());
            self.scroll_offset = 0;
        }
    }

    /// Scrolls the text down one line, stopping at the largest offset.
    pub fn scroll_down(&mut self)
        ensures
            final(self).scroll_offset == (if old(self).scroll_offset < u16::MAX {
                old(self).scroll_offset + 1
            } else {
                u16::MAX as int
            }),
            final(self).selected == old(self).selected,
            final(self).entries@ == old(self).entries@,
    {
        self.scroll_offset = self.scroll_offset.saturating_add(1);
    }

    /// Scrolls the text up one line, stopping at the top.
    pub fn scroll_up(&mut self)
        ensures
            final(self).scroll_offset == (if old(self).scroll_offset > 0 {
                old(self).scroll_offset - 1
            } else {
                0
            }),
            final(self).selected == old(self).selected,
            final(self).entries@ == old(self).entries@,
    {
        self.scroll_offset = self.scroll_offset.saturating_sub(1);
    }
}

impl FetchState {
    /// Hands freshly fetched entries to the viewer, flagged new, and clears
    /// the error.
    pub fn record_fetched(&mut self, entries: Vec<ApodEntry>)
        ensures
            final(self).entries == Some(entries),
            final(self).entries_updated,
            final(self).error is None,
            final(self).refresh_ms == old(self).refresh_ms,
            final(self).should_stop == old(self).should_stop,
            final(self).api_key == old(self).api_key,
    {
        self.entries = Some(entries);
        self.entries_updated = true;
        self.error = None;
    }

    /// Hands entries to the viewer again, flagged new, after a picture of
    /// one of them arrived; the error stays as it is.
    pub fn publish_entries(&mut self, entries: Vec<ApodEntry>)
        ensures
            final(self).entries == Some(entries),
            final(self).entries_updated,
            final(self).error == old(self).error,
            final(self).refresh_ms == old(self).refresh_ms,
            final(self).should_stop == old(self).should_stop,
            final(self).api_key == old(self).api_key,
    {
        self.entries = Some(entries);
        self.entries_updated = true;
    }

    /// Hands the entries found in the cache at start-up to the viewer,
    /// flagged new, when there are any.
    pub fn publish_cached(&mut self, cached: Vec<ApodEntry>)
        ensures
            cached.len() > 0 ==> final(self).entries == Some(cached) && final(self).entries_updated,
            cached.len() == 0 ==> *final(self) == *old(self),
            final(self).error == old(self).error,
            final(self).refresh_ms == old(self).refresh_ms,
            final(self).should_stop == old(self).should_stop,
            final(self).api_key == old(self).api_key,
    {
        if cached.len() > 0 {
            self.entries = Some(cached);
            self.entries_updated = true;
        }
    }

    /// Reports a failed request, prefixed `Fetch: `, unless entries were
    /// already fetched (they stay on screen without the error).
    pub fn record_fetch_error(&mut self, msg: String)
        ensures
            old(self).entries is None ==> (final(self).error matches Some(e) && e@ == "Fetch: "@ + msg@),
            old(self).entries is Some ==> final(self).error == old(self).error,
            final(self).entries == old(self).entries,
            final(self).entries_updated == old(self).entries_updated,
            final(self).refresh_ms == old(self).refresh_ms,
            final(self).should_stop == old(self).should_stop,
            final(self).api_key == old(self).api_key,
    {
        if self.entries.is_none() {
            self.error = Some(concat_str("Fetch: ", msg.as_str()));
        }
    }

    /// Reports a response that could not be read, prefixed `Parse: `.
    pub fn record_parse_error(&mut self, msg: String)
        ensures
            final(self).error matches Some(e) && e@ == "Parse: "@ + msg@,
            final(self).entries == old(self).entries,
            final(self).entries_updated == old(self).entries_updated,
            final(self).refresh_ms == old(self).refresh_ms,
            final(self).should_stop == old(self).should_stop,
            final(self).api_key == old(self).api_key,
    {
        self.error = Some(concat_str("Parse: ", msg.as_str()));
    }
}

fn copy_text(t: &Option<String>) -> (r: Option<String>)
    ensures
        r == *t,
{
    match t {
        Some(x) => Some(x.clone()),
        None => None,
    }
}

/// The entry for a fetched record, with the picture and its text rendering
/// found in the cache, if any.
pub fn entry_from_response(resp: &ApodResponse, image: Option<DecodedImage>, ascii_art: Option<String>) -> (e: ApodEntry)
    ensures
        e.title == resp.title,
        e.explanation == resp.explanation,
        e.date == resp.date,
        e.copyright == resp.copyright,
        e.media_type == resp.media_type,
        e.image == image,
        e.ascii_art == ascii_art,
{
    ApodEntry {
        title: resp.title.clone(),
        explanation: resp.explanation.clone(),
        date: resp.date.clone(),
        copyright: copy_text(&resp.copyright),
        media_type: resp.media_type.clone(),
        image,
        ascii_art,
    }
}

/// Whether a record's picture is still to be downloaded: the record is a
/// picture and its entry has none yet.
pub fn needs_image(resp: &ApodResponse, entry: &ApodEntry) -> (b: bool)
    ensures
        b == (resp.media_type@ == "image"@ && entry.image is None),
{
    let kind = chars_of(resp.media_type.as_str());
    eq_str(&kind, "image") && entry.image.is_none()
}

/// Whether the next fetch is due, `since_ms` milliseconds after the last.
pub fn refetch_due(since_ms: u128, refresh_ms: u64) -> (b: bool)
    ensures
        b == (since_ms >= refresh_ms),
{
    since_ms >= refresh_ms as u128
}

} // verus!
