//! What the batch guarantees about the files on disk and about the mapping,
//! stated over a model of the disk: a map from paths to file contents.
//!
//! The caller carries the requests out, so these theorems hold of a caller
//! that answers honestly and of files that nothing else changes meanwhile.

use crate::batch::{next, BatchView, Event, Mode, Names, NoticeView, RequestView, Stage};
use crate::store::{has_key, lemma_ascending_distinct, lemma_pairs_map_dom, RevertMapping};
use crate::text::text_before;
use vstd::prelude::*;

verus! {

/// The files on disk: the contents at each path that holds a file.
pub type Files = Map<Seq<char>, Seq<u8>>;

/// The path that a batch in the probing stage asks about: where a rename
/// would put the file, or where a revert expects the renamed file.
pub open spec fn probe_path(s: BatchView) -> Seq<char> {
    match s.mode {
        Mode::Rename => s.destination,
        Mode::Revert => s.source,
    }
}

/// The event answers the pending request truthfully: a probe says whether
/// the file exists, and a move is reported done only where its source
/// existed.
pub open spec fn honest(s: BatchView, files: Files, event: Event) -> bool {
    match (s.stage, event) {
        (Stage::Probing, Event::Probed { exists }) => exists == files.contains_key(probe_path(s)),
        (Stage::Moving, Event::Moved { done }) => done ==> files.contains_key(s.source),
        _ => true,
    }
}

/// The files after the caller has carried out the pending request and
/// reports `event`: only a move that was done changes them.
pub open spec fn files_after(s: BatchView, files: Files, event: Event) -> Files {
    match (s.stage, event) {
        (Stage::Moving, Event::Moved { done: true }) => files.remove(s.source).insert(
            s.destination,
            files[s.source],
        ),
        _ => files,
    }
}

/// While a rename waits for approval or for the move, nothing is in the way:
/// no file exists at its destination.
pub open spec fn clear_ahead(s: BatchView, files: Files) -> bool {
    s.mode == Mode::Rename && (s.stage == Stage::Confirming || s.stage == Stage::Moving)
        ==> !files.contains_key(s.destination)
}

/// A proposed name that is taken is never used: the batch reports the
/// collision and goes on to the next candidate or to persisting, the mapping
/// stays as it is, and whatever the caller then reports, no file changes.
pub proof fn law_collision_skips(
    s: BatchView,
    names: Names,
    files: Files,
    sibling: Seq<char>,
    answer: Event,
)
    requires
        s.mode == Mode::Rename,
        s.stage == Stage::Probing,
    ensures
        ({
            let o = next(s, names, Event::Probed { exists: true }, sibling);
            &&& o.names == names
            &&& o.turn.notice == Some(NoticeView::Collision { path: s.source })
            &&& o.turn.request is Read || o.turn.request is Persist
            &&& o.batch.stage != Stage::Moving
            &&& files_after(o.batch, files, answer) == files
        }),
{
}

/// Through every turn of a rename batch that is answered honestly, no file
/// is in the way of a pending move.
pub proof fn law_clear_ahead_is_kept(
    s: BatchView,
    names: Names,
    files: Files,
    event: Event,
    sibling: Seq<char>,
)
    requires
        clear_ahead(s, files),
        honest(s, files, event),
    ensures
        clear_ahead(next(s, names, event, sibling).batch, files_after(s, files, event)),
{
}

/// A rename never overwrites: with nothing in the way, the move puts the
/// contents of the source at the destination and leaves every other file
/// where it was, with the contents it had.
pub proof fn law_rename_spares_other_files(s: BatchView, files: Files)
    requires
        s.mode == Mode::Rename,
        s.stage == Stage::Moving,
        clear_ahead(s, files),
        files.contains_key(s.source),
    ensures
        ({
            let after = files_after(s, files, Event::Moved { done: true });
            &&& after.contains_key(s.destination)
            &&& after[s.destination] == files[s.source]
            &&& forall|path: Seq<char>|
                files.contains_key(path) && path != s.source ==> after.contains_key(path)
                    && #[trigger] after[path] == files[path]
        }),
{
}

/// The mapping changes only when a move is reported done: every skip, every
/// refusal by the user and every failure leaves it as it was.
pub proof fn law_only_moves_change_names(
    s: BatchView,
    names: Names,
    event: Event,
    sibling: Seq<char>,
)
    requires
        !(s.stage == Stage::Moving && event matches Event::Moved { done: true }),
    ensures
        next(s, names, event, sibling).names == names,
{
}

/// A rename that was done records the new path with the path it came from;
/// a revert that was done strikes the renamed path from the record.
pub proof fn law_moves_are_recorded(s: BatchView, names: Names, sibling: Seq<char>)
    requires
        s.stage == Stage::Moving,
    ensures
        ({
            let o = next(s, names, Event::Moved { done: true }, sibling);
            match s.mode {
                Mode::Rename => o.names.contains_key(s.destination) && o.names[s.destination]
                    == s.source,
                Mode::Revert => !o.names.contains_key(s.source),
            }
        }),
{
}

/// Reverting undoes a rename. After a rename of `r.source` to a free path
/// has been done, a revert that comes to the new path finds it, asks for
/// the move back (after the user's approval where the revert confirms), and
/// once that is done every file is where it was before the rename, with the
/// contents it had, and the new path is struck from the mapping.
pub proof fn law_revert_undoes_rename(
    r: BatchView,
    v: BatchView,
    names: Names,
    files: Files,
    sibling: Seq<char>,
)
    requires
        r.mode == Mode::Rename,
        r.stage == Stage::Moving,
        files.contains_key(r.source),
        !files.contains_key(r.destination),
        v.mode == Mode::Revert,
        v.stage == Stage::Probing,
        v.source == r.destination,
    ensures
        ({
            let renamed = next(r, names, Event::Moved { done: true }, sibling);
            let files_renamed = files_after(r, files, Event::Moved { done: true });
            let found = next(v, renamed.names, Event::Probed { exists: true }, sibling);
            let agreed = if v.confirm {
                next(found.batch, found.names, Event::Answered { approved: true }, sibling)
            } else {
                found
            };
            let reverted = next(agreed.batch, agreed.names, Event::Moved { done: true }, sibling);
            let files_reverted = files_after(
                agreed.batch,
                files_renamed,
                Event::Moved { done: true },
            );
            &&& honest(v, files_renamed, Event::Probed { exists: true })
            &&& agreed.turn.request == RequestView::Move { from: r.destination, to: r.source }
            &&& honest(agreed.batch, files_renamed, Event::Moved { done: true })
            &&& files_reverted == files
            &&& reverted.names == names.remove(r.destination)
        }),
{
    let renamed = next(r, names, Event::Moved { done: true }, sibling);
    let files_renamed = files_after(r, files, Event::Moved { done: true });
    let found = next(v, renamed.names, Event::Probed { exists: true }, sibling);
    let agreed = if v.confirm {
        next(found.batch, found.names, Event::Answered { approved: true }, sibling)
    } else {
        found
    };
    let reverted = next(agreed.batch, agreed.names, Event::Moved { done: true }, sibling);
    let files_reverted = files_after(agreed.batch, files_renamed, Event::Moved { done: true });
    assert(renamed.names == names.insert(r.destination, r.source));
    assert(files_reverted =~= files);
    assert(reverted.names =~= names.remove(r.destination));
}

/// An upper bound on the events that a batch will still accept: at most
/// five for each item that is under way or still to come, and the outcome
/// of persisting at the end.
pub open spec fn turns_left(s: BatchView) -> int {
    let ahead = 5 * (s.items.len() - s.position);
    match s.stage {
        Stage::Fresh => ahead + 3,
        Stage::Reading => ahead + 7,
        Stage::Suggesting => ahead + 6,
        Stage::Probing => ahead + 5,
        Stage::Confirming => ahead + 4,
        Stage::Moving => ahead + 3,
        Stage::Persisting => 1,
        Stage::Finished => 0,
    }
}

/// A batch never runs past its items, and every event that it accepts brings
/// it closer to its end: a batch of `n` items is over after at most
/// `5 * n + 3` accepted events.
pub proof fn law_every_turn_makes_progress(
    s: BatchView,
    names: Names,
    event: Event,
    sibling: Seq<char>,
)
    requires
        s.position <= s.items.len(),
    ensures
        ({
            let o = next(s, names, event, sibling);
            &&& o.batch.position <= o.batch.items.len()
            &&& o.batch.items == s.items
            &&& 0 <= turns_left(o.batch)
            &&& o.turn.request is Rejected ==> o.batch == s
            &&& !(o.turn.request is Rejected) ==> turns_left(o.batch) < turns_left(s)
            &&& o.turn.request is Done <==> o.batch.stage == Stage::Finished && !(
            o.turn.request is Rejected)
        }),
{
}

/// No renamed path is recorded twice: the keys of a mapping are in strictly
/// ascending order, hence pairwise different, and they are exactly the paths
/// that the mapping knows.
pub proof fn law_keys_are_distinct(mapping: RevertMapping)
    requires
        mapping.wf(),
    ensures
        forall|i: int, j: int|
            0 <= i < j < mapping.key_seq().len() ==> text_before(
                #[trigger] mapping.key_seq()[i],
                #[trigger] mapping.key_seq()[j],
            ),
        mapping.key_seq().no_duplicates(),
        forall|key: Seq<char>| mapping@.contains_key(key) <==> mapping.key_seq().contains(key),
{
    let p = mapping.pairs();
    lemma_ascending_distinct(p);
    assert forall|i: int, j: int| 0 <= i < j < mapping.key_seq().len() implies text_before(
        #[trigger] mapping.key_seq()[i],
        #[trigger] mapping.key_seq()[j],
    ) by {
        assert(text_before(p[i].0, p[j].0));
    }
    assert forall|key: Seq<char>| mapping@.contains_key(key) <==> mapping.key_seq().contains(
        key,
    ) by {
        lemma_pairs_map_dom(p, key);
        if has_key(p, key) {
            let i = choose|i: int| 0 <= i < p.len() && (#[trigger] p[i]).0 == key;
            assert(mapping.key_seq()[i] == key);
        }
        if mapping.key_seq().contains(key) {
            let i = choose|i: int| 0 <= i < p.len() && mapping.key_seq()[i] == key;
            assert(p[i].0 == key);
        }
    }
}

} // verus!
