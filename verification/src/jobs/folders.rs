//! Retention of the batch session folders under a download path.
use vstd::prelude::*;
use vstd::relations::sorted_by;

use crate::server::http::{list_sessions, session_rows, SessionDirEntry};
use crate::text::name_order;

verus! {

/// The folder names of a listing from position `keep` on (none when the
/// listing is no longer than that).
pub open spec fn names_after(rows: Seq<(String, u64)>, keep: nat) -> Seq<String> {
    if keep < rows.len() {
        rows.skip(keep as int).map_values(|r: (String, u64)| r.0)
    } else {
        Seq::empty()
    }
}

/// The session folders to remove so that only the newest `keep_count` stay:
/// the directories named like `YYYYMMDD_HHMMSS`, newest (greatest name)
/// first, after the first `keep_count` of them.
pub fn stale_session_folders(entries: Vec<SessionDirEntry>, keep_count: usize) -> (r: Vec<String>)
    ensures
        exists|s: Seq<(String, u64)>|
            #[trigger] sorted_by(s, name_order(true)) && s.to_multiset() == session_rows(
                entries@,
            ).to_multiset() && r@ == names_after(s, keep_count as nat),
{
    let sorted = list_sessions(entries);
    let ghost s = sorted@;
    let mut out: Vec<String> = Vec::new();
    let mut i = keep_count;
    while i < sorted.len()
        invariant
            s == sorted@,
            keep_count <= i <= sorted@.len() || (i == keep_count && keep_count >= sorted@.len()),
            keep_count < sorted@.len() ==> out@ == s.subrange(keep_count as int, i as int).map_values(
                |r: (String, u64)| r.0,
            ),
            keep_count >= sorted@.len() ==> out@.len() == 0,
        decreases sorted@.len() - i,
    {
        out.push(sorted[i].0.clone());
        assert(s.subrange(keep_count as int, i + 1).map_values(|r: (String, u64)| r.0) =~= s.subrange(
            keep_count as int,
            i as int,
        ).map_values(|r: (String, u64)| r.0).push(s[i as int].0));
        i = i + 1;
    }
    proof {
        if keep_count < s.len() {
            assert(s.subrange(keep_count as int, s.len() as int) =~= s.skip(keep_count as int));
        }
        assert(out@ =~= names_after(s, keep_count as nat));
        assert(sorted_by(s, name_order(true)));
    }
    out
}

} // verus!
