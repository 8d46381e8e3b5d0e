//! The watcher adapter: the target under watch and the filter that turns raw
//! filesystem events into normalized change events.
//!
//! The filter keeps exactly the events that report a data modification of a
//! path whose file name is the watched file's name; each such event becomes
//! one [`ChangeEvent`] (no coalescing). Metadata-only churn and events for
//! unrelated files in the same directory are discarded.

use vstd::prelude::*;
use vstd::string::StrSliceExecFns;

use crate::errors::WatchSetupError;
use crate::event::{ChangeEvent, ChangeKind, RawEvent, RawEventKind};
use crate::paths::{
    file_name_of, file_name_part, find_last_slash, has_file_name, is_valid_target_path,
    last_slash_at, lemma_last_slash_at, parent_dir_part,
};

verus! {

/// The single file under watch. The watch is established on `parent_dir`
/// (non-recursive) rather than on the file itself, so that editors that save
/// by writing a temporary file and renaming it over the target are still
/// observed; `file_name` is what raw events are filtered against.
#[derive(Debug)]
pub struct WatchTarget {
    pub path: String,
    pub parent_dir: String,
    pub file_name: String,
}

impl WatchTarget {
    /// The three fields agree: `path` is a valid absolute file path and the
    /// other two are its parent directory and final component.
    pub open spec fn wf(&self) -> bool {
        &&& is_valid_target_path(self.path@)
        &&& self.file_name@ == file_name_part(self.path@)
        &&& self.parent_dir@ == parent_dir_part(self.path@)
    }

    /// Validates `path` and splits it into the watch target. Rejects exactly
    /// the paths that are not absolute or name no file.
    pub fn new(path: &str) -> (r: Result<WatchTarget, WatchSetupError>)
        ensures
            r matches Ok(t) ==> is_valid_target_path(path@) && t.wf() && t.path@ == path@,
            r matches Err(e) ==> !is_valid_target_path(path@) && e == (if path@.len() == 0
                || path@[0] != '/' {
                WatchSetupError::NotAbsolute
            } else {
                WatchSetupError::MissingFileName
            }),
    {
        let n = path.unicode_len();
        if n == 0 {
            return Err(WatchSetupError::NotAbsolute);
        }
        if path.get_char(0) != '/' {
            return Err(WatchSetupError::NotAbsolute);
        }
        if path.get_char(n - 1) == '/' {
            return Err(WatchSetupError::MissingFileName);
        }
        let ls = match find_last_slash(path) {
            Some(i) => i,
            None => {
                // Unreachable: an absolute path holds at least its leading slash.
                proof {
                    lemma_last_slash_at(path@);
                }
                assert(false);
                0
            },
        };
        proof {
            lemma_last_slash_at(path@);
        }
        let file_name = path.substring_char(ls + 1, n).to_owned();
        let parent_dir = if ls == 0 {
            let p = path.substring_char(0, 1).to_owned();
            proof {
                assert(p@ =~= seq!['/']);
            }
            p
        } else {
            path.substring_char(0, ls).to_owned()
        };
        Ok(WatchTarget { path: path.to_owned(), parent_dir, file_name })
    }
}

/// The file name a raw event path refers to, if any.
pub open spec fn event_file_name(p: Seq<char>) -> Option<Seq<char>> {
    if has_file_name(p) {
        Some(file_name_part(p))
    } else {
        None
    }
}

/// Whether some affected path of `e` has `name` as its file name.
pub open spec fn event_names_file(e: RawEvent, name: Seq<char>) -> bool {
    exists|i: int| 0 <= i < e.paths@.len() && event_file_name(e.paths@[i]@) == Some(name)
}

/// Whether a raw event produces a change notification: it reports a data
/// modification and one of its paths names the watched file.
pub open spec fn qualifies(e: RawEvent, name: Seq<char>) -> bool {
    e.kind == RawEventKind::DataModified && event_names_file(e, name)
}

/// The change events a sequence of raw events produces, in order: one per
/// qualifying raw event, stamped with `now`.
pub open spec fn emitted(events: Seq<RawEvent>, name: Seq<char>, now: u64) -> Seq<ChangeEvent>
    decreases events.len(),
{
    if events.len() == 0 {
        Seq::empty()
    } else {
        emitted(events.drop_last(), name, now) + (if qualifies(events.last(), name) {
            seq![ChangeEvent { kind: ChangeKind::DataModified, occurred_at: now }]
        } else {
            Seq::empty()
        })
    }
}

/// The filter at the heart of the watcher: `Some` exactly for a qualifying
/// raw event, and then a single data-modified change event stamped `now`.
pub fn classify(event: &RawEvent, target: &WatchTarget, now: u64) -> (r: Option<ChangeEvent>)
    requires
        target.wf(),
    ensures
        r is Some <==> qualifies(*event, target.file_name@),
        r matches Some(ev) ==> ev == (ChangeEvent {
            kind: ChangeKind::DataModified,
            occurred_at: now,
        }),
{
    match event.kind {
        RawEventKind::DataModified => {},
        _ => {
            return None;
        },
    }
    let n = event.paths.len();
    let mut i: usize = 0;
    while i < n
        invariant
            i <= n,
            n == event.paths@.len(),
            event.kind == RawEventKind::DataModified,
            forall|j: int| 0 <= j < i ==> event_file_name(event.paths@[j]@) != Some(
                target.file_name@,
            ),
        decreases n - i,
    {
        match file_name_of(event.paths[i].as_str()) {
            Some(name) => {
                if name == target.file_name {
                    proof {
                        assert(exists|j: int|
                            0 <= j < event.paths@.len() && event_file_name(event.paths@[j]@)
                                == Some(target.file_name@)) by {
                            assert(0 <= i < event.paths@.len() && event_file_name(
                                event.paths@[i as int]@,
                            ) == Some(target.file_name@));
                        }
                    }
                    return Some(ChangeEvent { kind: ChangeKind::DataModified, occurred_at: now });
                }
            },
            None => {},
        }
        i = i + 1;
    }
    None
}

/// Runs the filter over a batch of raw events, collecting the change events
/// they produce in order.
pub fn process_events(events: &Vec<RawEvent>, target: &WatchTarget, now: u64) -> (r: Vec<
    ChangeEvent,
>)
    requires
        target.wf(),
    ensures
        r@ == emitted(events@, target.file_name@, now),
{
    let mut out: Vec<ChangeEvent> = Vec::new();
    let n = events.len();
    let mut i: usize = 0;
    while i < n
        invariant
            i <= n,
            n == events@.len(),
            target.wf(),
            out@ == emitted(events@.subrange(0, i as int), target.file_name@, now),
        decreases n - i,
    {
        match classify(&events[i], target, now) {
            Some(ev) => {
                out.push(ev);
            },
            None => {},
        }
        proof {
            let pre = events@.subrange(0, i as int);
            let cur = events@.subrange(0, i + 1);
            assert(cur.drop_last() =~= pre);
            assert(cur.last() == events@[i as int]);
        }
        i = i + 1;
    }
    proof {
        assert(events@.subrange(0, n as int) =~= events@);
    }
    out
}

/// An event that reports a data modification of the watched path itself
/// always qualifies: a write to the watched file is never missed by the
/// file-name filter.
pub proof fn lemma_own_path_qualifies(t: WatchTarget, e: RawEvent)
    requires
        t.wf(),
        e.kind == RawEventKind::DataModified,
        exists|i: int| 0 <= i < e.paths@.len() && e.paths@[i]@ == t.path@,
    ensures
        qualifies(e, t.file_name@),
{
    let i = choose|i: int| 0 <= i < e.paths@.len() && e.paths@[i]@ == t.path@;
    assert(has_file_name(t.path@));
    assert(event_file_name(e.paths@[i]@) == Some(t.file_name@));
}

/// A sequence of raw events none of which reports a data modification emits
/// no change event at all: metadata churn, creations, removals and renames
/// never reach subscribers.
pub proof fn lemma_non_data_events_emit_nothing(events: Seq<RawEvent>, name: Seq<char>, now: u64)
    requires
        forall|i: int| 0 <= i < events.len() ==> events[i].kind != RawEventKind::DataModified,
    ensures
        emitted(events, name, now).len() == 0,
    decreases events.len(),
{
    if events.len() > 0 {
        assert forall|i: int| 0 <= i < events.drop_last().len() implies events.drop_last()[i].kind
            != RawEventKind::DataModified by {
            assert(events.drop_last()[i] == events[i]);
        }
        lemma_non_data_events_emit_nothing(events.drop_last(), name, now);
    }
}

/// A sequence of raw events none of which affects a path with the watched
/// file's name emits no change event, whatever the events' kinds: writes to
/// unrelated files in the watched directory never reach subscribers.
pub proof fn lemma_unmatched_events_emit_nothing(events: Seq<RawEvent>, name: Seq<char>, now: u64)
    requires
        forall|i: int| 0 <= i < events.len() ==> !event_names_file(events[i], name),
    ensures
        emitted(events, name, now).len() == 0,
    decreases events.len(),
{
    if events.len() > 0 {
        assert forall|i: int| 0 <= i < events.drop_last().len() implies !event_names_file(
            events.drop_last()[i],
            name,
        ) by {
            assert(events.drop_last()[i] == events[i]);
        }
        lemma_unmatched_events_emit_nothing(events.drop_last(), name, now);
    }
}

/// Each qualifying raw event produces exactly one change event, whatever
/// came before it: no coalescing of bursts, no duplication.
pub proof fn lemma_qualifying_event_emits_exactly_one(
    events: Seq<RawEvent>,
    e: RawEvent,
    name: Seq<char>,
    now: u64,
)
    requires
        qualifies(e, name),
    ensures
        emitted(events.push(e), name, now) == emitted(events, name, now) + seq![
            ChangeEvent { kind: ChangeKind::DataModified, occurred_at: now },
        ],
{
    assert(events.push(e).drop_last() =~= events);
    assert(events.push(e).last() == e);
}

} // verus!
