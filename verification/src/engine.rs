//! The synchronization core: turns extracted records into calendar events —
//! one per date mention whose start token normalizes — and renders the whole
//! calendar document in record order, mentions in order within a record.

use vstd::prelude::*;
use crate::date::{DateTime, day_number_exec, lemma_day_number_bounds};
use crate::extract::{DateMention, dm_view, dm_views};
use crate::norm::{
    NormalizedDate, norm_model, nd_model, nd_wf, dt_wf, model_secs, normalize, now_datetime,
    lemma_norm_end_of_start, token_view,
};
use crate::render::{CalendarEvent, event_wf, document_text, render_document};

verus! {

/// One extracted record: the display title and its date mentions, in order.
pub struct Record {
    pub title: String,
    pub mentions: Vec<DateMention>,
}

/// The model of one event: display title, start model, end model.
pub open spec fn ev_model(ev: CalendarEvent) -> (Seq<char>, (bool, int), (bool, int)) {
    (ev.title@, nd_model(ev.start), nd_model(ev.end))
}

pub open spec fn evs_models(evs: Seq<CalendarEvent>) -> Seq<
    (Seq<char>, (bool, int), (bool, int)),
> {
    evs.map_values(|e: CalendarEvent| ev_model(e))
}

/// What holds of every built event besides its stamp: well-formed parts, a
/// 36-character identifier, and an end no earlier than its start.
pub open spec fn event_sound(ev: CalendarEvent) -> bool {
    &&& event_wf(ev)
    &&& model_secs(nd_model(ev.end)) >= model_secs(nd_model(ev.start))
    &&& ev.uid@.len() == 36
}

pub open spec fn event_ok(ev: CalendarEvent, now: DateTime) -> bool {
    event_sound(ev) && ev.stamp == now
}

/// The end that stands in when the end token is absent, malformed, or not
/// later than the start: the start token normalized as an end.
pub open spec fn fallback_end(v: (Option<Seq<char>>, Option<Seq<char>>)) -> (bool, int) {
    match norm_model(v.0, true) {
        Some(e) => e,
        None => (true, 0),
    }
}

/// The end model of a mention whose start normalized to `sm`: the end
/// token's own value when it normalizes to a strictly later point, else the
/// fallback.
pub open spec fn end_model(v: (Option<Seq<char>>, Option<Seq<char>>), sm: (bool, int)) -> (
    bool,
    int,
) {
    match norm_model(v.1, true) {
        Some(em) => if model_secs(em) > model_secs(sm) {
            em
        } else {
            fallback_end(v)
        },
        None => fallback_end(v),
    }
}

/// What one mention contributes: one event, or none when its start token
/// does not normalize.
pub open spec fn mention_event(title: Seq<char>, v: (Option<Seq<char>>, Option<Seq<char>>)) -> Seq<
    (Seq<char>, (bool, int), (bool, int)),
> {
    match norm_model(v.0, false) {
        None => Seq::empty(),
        Some(sm) => seq![(title, sm, end_model(v, sm))],
    }
}

/// The events of a record's first `n` mentions, in order.
pub open spec fn mention_events_upto(
    title: Seq<char>,
    ms: Seq<(Option<Seq<char>>, Option<Seq<char>>)>,
    n: int,
) -> Seq<(Seq<char>, (bool, int), (bool, int))>
    decreases n,
{
    if n <= 0 {
        Seq::empty()
    } else {
        mention_events_upto(title, ms, n - 1) + mention_event(title, ms[n - 1])
    }
}

pub open spec fn record_events(r: Record) -> Seq<(Seq<char>, (bool, int), (bool, int))> {
    mention_events_upto(r.title@, dm_views(r.mentions@), r.mentions@.len() as int)
}

/// The events of the first `n` records, in order.
pub open spec fn records_events_upto(rs: Seq<Record>, n: int) -> Seq<
    (Seq<char>, (bool, int), (bool, int)),
>
    decreases n,
{
    if n <= 0 {
        Seq::empty()
    } else {
        records_events_upto(rs, n - 1) + record_events(rs[n - 1])
    }
}

pub open spec fn records_events(rs: Seq<Record>) -> Seq<(Seq<char>, (bool, int), (bool, int))> {
    records_events_upto(rs, rs.len() as int)
}

/// The seconds model of a normalized value, for comparing ends to starts.
fn nd_secs_exec(nd: &NormalizedDate) -> (r: i64)
    requires
        nd_wf(*nd),
    ensures
        r == model_secs(nd_model(*nd)),
{
    match nd {
        NormalizedDate::Date(d) => {
            proof {
                lemma_day_number_bounds(*d);
            }
            (day_number_exec(d) as i64) * 86400
        },
        NormalizedDate::Instant(dt) => {
            proof {
                lemma_day_number_bounds(dt.date);
            }
            (day_number_exec(&dt.date) as i64) * 86400 + (dt.hour as i64) * 3600 + (
            dt.minute as i64) * 60 + (dt.second as i64)
        },
    }
}

/// Builds one calendar event per normalizable date mention, in record order
/// then mention order, each stamped with `now` and a fresh identifier. An
/// event's end is never earlier than its start.
#[verifier::rlimit(100)]
pub fn build_events(records: &Vec<Record>, now: &DateTime) -> (r: Vec<CalendarEvent>)
    requires
        dt_wf(*now),
    ensures
        evs_models(r@) == records_events(records@),
        forall|k: int| 0 <= k < r@.len() ==> #[trigger] event_ok(r@[k], *now),
{
    let mut evs: Vec<CalendarEvent> = Vec::new();
    let mut i: usize = 0;
    while i < records.len()
        invariant
            0 <= i <= records@.len(),
            dt_wf(*now),
            evs_models(evs@) == records_events_upto(records@, i as int),
            forall|k: int| 0 <= k < evs@.len() ==> #[trigger] event_ok(evs@[k], *now),
        decreases records@.len() - i,
    {
        let rec = &records[i];
        let ghost ms = dm_views(records@[i as int].mentions@);
        let mut j: usize = 0;
        while j < rec.mentions.len()
            invariant
                0 <= i < records@.len(),
                0 <= j <= rec.mentions@.len(),
                dt_wf(*now),
                *rec == records@[i as int],
                ms == dm_views(records@[i as int].mentions@),
                evs_models(evs@) == records_events_upto(records@, i as int)
                    + mention_events_upto(records@[i as int].title@, ms, j as int),
                forall|k: int| 0 <= k < evs@.len() ==> #[trigger] event_ok(evs@[k], *now),
            decreases rec.mentions@.len() - j,
        {
            let m = &rec.mentions[j];
            proof {
                assert(ms[j as int] == dm_view(records@[i as int].mentions@[j as int]));
            }
            match normalize(&m.start, false) {
                None => {
                    proof {
                        assert(evs_models(evs@) =~= records_events_upto(records@, i as int)
                            + mention_events_upto(records@[i as int].title@, ms, j as int + 1));
                    }
                },
                Some(snd) => {
                    proof {
                        lemma_norm_end_of_start(token_view(m.start));
                    }
                    let fb: NormalizedDate = match normalize(&m.start, true) {
                        Some(f) => f,
                        None => {
                            proof {
                                assert(false);
                            }
                            snd
                        },
                    };
                    let end_nd: NormalizedDate = match normalize(&m.end, true) {
                        Some(cand) => {
                            if nd_secs_exec(&cand) > nd_secs_exec(&snd) {
                                cand
                            } else {
                                fb
                            }
                        },
                        None => fb,
                    };
                    let ev = CalendarEvent {
                        title: rec.title.clone(),
                        start: snd,
                        end: end_nd,
                        stamp: *now,
                        uid: crate::tz::fresh_uuid(),
                    };
                    let ghost prev = evs@;
                    let ghost title = records@[i as int].title@;
                    evs.push(ev);
                    proof {
                        let v = ms[j as int];
                        let sm = nd_model(snd);
                        assert(token_view(m.start) == v.0);
                        assert(token_view(m.end) == v.1);
                        assert(norm_model(v.0, false) == Some(sm));
                        assert(nd_model(end_nd) == end_model(v, sm));
                        assert(ev_model(ev) == (title, sm, end_model(v, sm)));
                        assert(mention_event(title, v) == seq![ev_model(ev)]);
                        assert(evs@ == prev.push(ev));
                        assert(evs_models(evs@) =~= evs_models(prev).push(ev_model(ev)));
                        assert(mention_events_upto(title, ms, j as int + 1) == mention_events_upto(
                            title,
                            ms,
                            j as int,
                        ) + mention_event(title, v));
                        assert(evs_models(evs@) =~= records_events_upto(records@, i as int)
                            + mention_events_upto(title, ms, j as int + 1));
                        assert(event_ok(ev, *now));
                        assert forall|k: int| 0 <= k < evs@.len() implies #[trigger] event_ok(
                            evs@[k],
                            *now,
                        ) by {
                            if k < prev.len() {
                                assert(evs@[k] == prev[k]);
                                assert(event_ok(prev[k], *now));
                            } else {
                                assert(evs@[k] == ev);
                            }
                        }
                    }
                },
            }
            j = j + 1;
        }
        proof {
            assert(evs_models(evs@) =~= records_events_upto(records@, i as int + 1));
        }
        i = i + 1;
    }
    evs
}

/// One full refresh pass over already-extracted records: stamps every event
/// with the current wall-clock time, draws a fresh identifier for each, and
/// renders the calendar document. Returns the document together with the
/// events it renders; `None` only when the wall clock lies outside the
/// supported year range.
pub fn refresh_document(records: &Vec<Record>) -> (r: Option<(String, Vec<CalendarEvent>)>)
    ensures
        r matches Some(out) ==> {
            &&& evs_models(out.1@) == records_events(records@)
            &&& forall|k: int| 0 <= k < out.1@.len() ==> #[trigger] event_sound(out.1@[k])
            &&& out.0@ == document_text(out.1@)
        },
{
    let now: DateTime = match now_datetime() {
        Some(dt) => dt,
        None => { return None; },
    };
    let evs = build_events(records, &now);
    let doc = render_document(&evs);
    proof {
        assert forall|k: int| 0 <= k < evs@.len() implies #[trigger] event_sound(evs@[k]) by {
            assert(event_ok(evs@[k], now));
        }
    }
    Some((doc, evs))
}

} // verus!
