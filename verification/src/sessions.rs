//! Presentation of recorded play sessions: entries whose two timestamps are
//! present and parse as moments are shown with their duration in whole
//! seconds; incomplete or unreadable entries are left out.

use vstd::prelude::*;
use crate::api::{PlaySession, PlaySessionView};
use crate::records::{DbPlaySession, PlaySessionEntryView};

verus! {

/// The moment a timestamp text denotes, in whole seconds from the epoch, as
/// a function of the text alone.
pub uninterp spec fn rfc3339_epoch_seconds(s: Seq<char>) -> Option<i64>;

/// Relies on `chrono::DateTime::parse_from_rfc3339` and
/// `DateTime::timestamp`: parsing a timestamp is a function of the text
/// alone, and the result here is the parsed moment's offset from the epoch
/// in whole seconds, when the text is a well-formed timestamp.
#[verifier::external_body]
fn parse_rfc3339_epoch_seconds(s: &str) -> (r: Option<i64>)
    ensures
        r == rfc3339_epoch_seconds(s@),
{
    match chrono::DateTime::parse_from_rfc3339(s) {
        Ok(t) => Some(t.timestamp()),
        Err(_) => None,
    }
}

/// The presented session of one recorded entry: both timestamps present and
/// readable, and their distance representable in seconds — else nothing.
pub open spec fn session_view_of(e: PlaySessionEntryView) -> Option<PlaySessionView> {
    match e.started_at {
        None => None,
        Some(s) => match e.ended_at {
            None => None,
            Some(t) => match rfc3339_epoch_seconds(s) {
                None => None,
                Some(a) => match rfc3339_epoch_seconds(t) {
                    None => None,
                    Some(b) => if i32::MIN <= b - a <= i32::MAX {
                        Some(
                            PlaySessionView {
                                duration: (b - a) as i32,
                                started_at: s,
                                ended_at: t,
                            },
                        )
                    } else {
                        None
                    },
                },
            },
        },
    }
}

/// The presented sessions of a recorded list, in stored order.
pub open spec fn play_sessions_views(sessions: Seq<PlaySessionEntryView>) -> Seq<PlaySessionView>
    decreases sessions.len(),
{
    if sessions.len() == 0 {
        Seq::empty()
    } else {
        play_sessions_views(sessions.drop_last()) + (match session_view_of(sessions.last()) {
            Some(v) => seq![v],
            None => Seq::empty(),
        })
    }
}

/// The sessions a stored record presents, with their durations.
pub fn play_sessions_of(db: &DbPlaySession) -> (r: Vec<PlaySession>)
    ensures
        r.deep_view() == play_sessions_views(
            match db.deep_view().sessions {
                Some(s) => s,
                None => Seq::empty(),
            },
        ),
{
    let mut r: Vec<PlaySession> = Vec::new();
    match &db.sessions {
        None => {},
        Some(entries) => {
            let mut i: usize = 0;
            while i < entries.len()
                invariant
                    i <= entries.len(),
                    r.deep_view() =~= play_sessions_views(entries.deep_view().take(i as int)),
                decreases entries.len() - i,
            {
                let entry = &entries[i];
                proof {
                    let ev = entries.deep_view();
                    let sub = ev.take(i as int + 1);
                    assert(sub.drop_last() =~= ev.take(i as int));
                    assert(sub.last() == ev[i as int]);
                    assert(ev[i as int] =~= entry.deep_view());
                }
                match (&entry.started_at, &entry.ended_at) {
                    (Some(started), Some(ended)) => {
                        match (
                            parse_rfc3339_epoch_seconds(started.as_str()),
                            parse_rfc3339_epoch_seconds(ended.as_str()),
                        ) {
                            (Some(a), Some(b)) => {
                                match b.checked_sub(a) {
                                    Some(d) => {
                                        if i32::MIN as i64 <= d && d <= i32::MAX as i64 {
                                            let x = PlaySession {
                                                duration: d as i32,
                                                started_at: started.clone(),
                                                ended_at: ended.clone(),
                                            };
                                            let ghost xv = x.deep_view();
                                            let ghost pre = r.deep_view();
                                            r.push(x);
                                            proof {
                                                assert(r.deep_view() =~= pre.push(xv));
                                                assert(session_view_of(entry.deep_view())
                                                    == Some(xv));
                                            }
                                        }
                                    },
                                    None => {},
                                }
                            },
                            _ => {},
                        }
                    },
                    _ => {},
                }
                proof {
                    assert(r.deep_view() =~= play_sessions_views(
                        entries.deep_view().take(i as int + 1),
                    ));
                }
                i += 1;
            }
            proof {
                assert(entries.deep_view().take(entries@.len() as int) =~= entries.deep_view());
            }
        },
    }
    proof {
        assert(r.deep_view() =~= play_sessions_views(
            match db.deep_view().sessions {
                Some(s) => s,
                None => Seq::empty(),
            },
        ));
    }
    r
}

} // verus!
