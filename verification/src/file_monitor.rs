//! Filtering of file-system notifications.
//!
//! The watcher receives raw notifications, each classified as a create,
//! modify or remove and carrying the affected paths. Every affected path
//! with the log extension yields exactly one change event tagged with the
//! corresponding kind; paths with any other extension, and notifications
//! of any other classification, yield no event.

use vstd::prelude::*;
use vstd::string::*;

use crate::scanner::{file_has_log_extension, has_log_extension};

verus! {

/// The classification of a raw file-system notification.
#[derive(Clone, Copy, Debug, PartialEq, Eq, Structural)]
pub enum RawEventKind {
    Create,
    Modify,
    Remove,
    Other,
}

/// The kind of a change event.
#[derive(Clone, Copy, Debug, PartialEq, Eq, Structural)]
pub enum ChangeKind {
    Created,
    Modified,
    Removed,
}

/// A change notification for one monitored log file.
#[derive(Clone, Debug, PartialEq)]
pub struct FileChangeEvent {
    pub path: String,
    pub kind: ChangeKind,
}

/// The mathematical model of a [`FileChangeEvent`].
pub struct EventModel {
    pub path: Seq<char>,
    pub kind: ChangeKind,
}

impl View for FileChangeEvent {
    type V = EventModel;

    open spec fn view(&self) -> EventModel {
        EventModel { path: self.path@, kind: self.kind }
    }
}

impl DeepView for FileChangeEvent {
    type V = EventModel;

    open spec fn deep_view(&self) -> EventModel {
        self.view()
    }
}

/// The event kind a raw notification maps to; notifications that are not
/// a create, modify or remove yield no events at all.
pub open spec fn kind_of(raw: RawEventKind) -> Option<ChangeKind> {
    match raw {
        RawEventKind::Create => Some(ChangeKind::Created),
        RawEventKind::Modify => Some(ChangeKind::Modified),
        RawEventKind::Remove => Some(ChangeKind::Removed),
        RawEventKind::Other => None,
    }
}

/// The wire label of a change kind.
pub open spec fn kind_label(k: ChangeKind) -> Seq<char> {
    match k {
        ChangeKind::Created => "created"@,
        ChangeKind::Modified => "modified"@,
        ChangeKind::Removed => "removed"@,
    }
}

impl ChangeKind {
    /// The wire label of this kind.
    pub fn label(&self) -> (s: String)
        ensures
            s@ == kind_label(*self),
    {
        match self {
            ChangeKind::Created => String::from_str("created"),
            ChangeKind::Modified => String::from_str("modified"),
            ChangeKind::Removed => String::from_str("removed"),
        }
    }
}

/// The change events one notification yields: one event per affected path
/// with the log extension, in path order, each tagged with the
/// notification's kind; nothing for any other path or kind.
pub open spec fn spec_events(raw: RawEventKind, paths: Seq<Seq<char>>) -> Seq<EventModel>
    decreases paths,
{
    match kind_of(raw) {
        None => Seq::empty(),
        Some(k) => {
            if paths.len() == 0 {
                Seq::empty()
            } else {
                let rest = spec_events(raw, paths.drop_first());
                if has_log_extension(paths[0]) {
                    seq![EventModel { path: paths[0], kind: k }] + rest
                } else {
                    rest
                }
            }
        },
    }
}

/// Turns one raw notification into its change events.
pub fn filter_notification(raw: &RawEventKind, paths: &Vec<String>) -> (events: Vec<
    FileChangeEvent,
>)
    ensures
        events.deep_view() == spec_events(*raw, paths.deep_view()),
{
    let kind: Option<ChangeKind> = match raw {
        RawEventKind::Create => Some(ChangeKind::Created),
        RawEventKind::Modify => Some(ChangeKind::Modified),
        RawEventKind::Remove => Some(ChangeKind::Removed),
        RawEventKind::Other => None,
    };
    let mut events: Vec<FileChangeEvent> = Vec::new();
    match kind {
        None => {
            proof {
                assert(events.deep_view() =~= spec_events(*raw, paths.deep_view()));
            }
            events
        },
        Some(k) => {
            let ghost pv = paths.deep_view();
            let mut i: usize = 0;
            proof {
                assert(pv.subrange(0, pv.len() as int) =~= pv);
                assert(events.deep_view() + spec_events(*raw, pv) =~= spec_events(*raw, pv));
            }
            while i < paths.len()
                invariant
                    0 <= i <= paths@.len(),
                    pv == paths.deep_view(),
                    pv.len() == paths@.len(),
                    kind_of(*raw) == Some(k),
                    spec_events(*raw, pv) =~= events.deep_view() + spec_events(
                        *raw,
                        pv.subrange(i as int, pv.len() as int),
                    ),
                decreases paths@.len() - i,
            {
                let ghost rest = pv.subrange(i as int, pv.len() as int);
                proof {
                    assert(rest.drop_first() =~= pv.subrange(i as int + 1, pv.len() as int));
                }
                if file_has_log_extension(paths[i].as_str()) {
                    let ghost prev = events.deep_view();
                    events.push(FileChangeEvent { path: paths[i].clone(), kind: k });
                    proof {
                        assert(events.deep_view() =~= prev.push(
                            EventModel { path: rest[0], kind: k },
                        ));
                        assert(prev.push(EventModel { path: rest[0], kind: k }) + spec_events(
                            *raw,
                            rest.drop_first(),
                        ) =~= prev + (seq![EventModel { path: rest[0], kind: k }] + spec_events(
                            *raw,
                            rest.drop_first(),
                        )));
                    }
                }
                i = i + 1;
            }
            proof {
                assert(pv.subrange(pv.len() as int, pv.len() as int) =~= Seq::<Seq<char>>::empty());
                assert(events.deep_view() =~= spec_events(*raw, pv));
            }
            events
        },
    }
}

/// One notification for a single path yields exactly one change event,
/// tagged with the notification's kind, when the path carries the log
/// extension, and no event when it does not or when the notification is
/// not a create, modify or remove.
pub proof fn lemma_one_event_per_notification(raw: RawEventKind, path: Seq<char>)
    ensures
        kind_of(raw) is Some && has_log_extension(path) ==> spec_events(raw, seq![path])
            == seq![EventModel { path, kind: kind_of(raw).unwrap() }],
        !has_log_extension(path) ==> spec_events(raw, seq![path]) == Seq::<EventModel>::empty(),
        kind_of(raw) is None ==> spec_events(raw, seq![path]) == Seq::<EventModel>::empty(),
{
    let single = seq![path];
    assert(single[0] == path);
    assert(single.drop_first() =~= Seq::<Seq<char>>::empty());
    match kind_of(raw) {
        Some(k) => {
            assert(spec_events(raw, Seq::<Seq<char>>::empty()) =~= Seq::<EventModel>::empty());
            assert(spec_events(raw, single.drop_first()) == Seq::<EventModel>::empty());
            if has_log_extension(path) {
                assert(spec_events(raw, single) =~= seq![EventModel { path, kind: k }] + Seq::<
                    EventModel,
                >::empty());
                assert(seq![EventModel { path, kind: k }] + Seq::<EventModel>::empty() =~= seq![
                    EventModel { path, kind: k },
                ]);
            } else {
                assert(spec_events(raw, single) =~= Seq::<EventModel>::empty());
            }
        },
        None => {
        },
    }
}

} // verus!
