//! Mathematical model of the editor's document table and of every
//! transition the subsystem performs on it.
//!
//! A document is identified by its slot index in the table; a closed
//! document leaves `None` behind in its slot, so indices stay stable for
//! the whole session (arena-and-index style). Each transition below is
//! the exact specification of the correspondingly named method of
//! [`crate::editor::Editor`].

use vstd::prelude::*;

use crate::diff_handle::Hunk;
use crate::diff_handle::recompute_applies_spec;
use crate::document::DocModel;
use crate::document::clear_peer_reset_spec;
use crate::document::clear_peer_spec;
use crate::document::deliver_hunks_spec;
use crate::document::push_base_spec;
use crate::document::set_peer_spec;
use crate::document::set_text_spec;

verus! {

/// The editor's document table: one slot per document ever opened,
/// `None` where the document has been closed.
pub type EditorModel = Seq<Option<DocModel>>;

/// Whether slot `i` holds an open document.
pub open spec fn is_open(s: EditorModel, i: int) -> bool {
    0 <= i < s.len() && s[i] is Some
}

/// The document in slot `i` (meaningful when `is_open(s, i)`).
pub open spec fn doc_at(s: EditorModel, i: int) -> DocModel {
    s[i]->0
}

/// Well-formedness of the table: every peer field points inside the
/// table and never at the document itself. Mutuality of the link is not
/// part of well-formedness — the close hook deliberately leaves it
/// asymmetric while a document is being torn down — but it is
/// established by pairing (see [`crate::editor::Editor::establish_pair`]).
pub open spec fn wf(s: EditorModel) -> bool {
    forall|i: int|
        (#[trigger] is_open(s, i)) && doc_at(s, i).peer is Some ==> {
            let p = doc_at(s, i).peer->0;
            0 <= p < s.len() && p != i
        }
}

/// Whether documents `a` and `b` may be paired: both open, distinct, and
/// neither side already linked.
pub open spec fn can_pair(s: EditorModel, a: int, b: int) -> bool {
    &&& is_open(s, a)
    &&& is_open(s, b)
    &&& a != b
    &&& doc_at(s, a).peer is None
    &&& doc_at(s, b).peer is None
}

/// Whether the open documents `a` and `b` are mutually paired, as
/// [`crate::editor::Editor::establish_pair`] leaves them.
pub open spec fn mutually_paired(s: EditorModel, a: int, b: int) -> bool {
    &&& is_open(s, a)
    &&& is_open(s, b)
    &&& a != b
    &&& doc_at(s, a).peer == Some(b)
    &&& doc_at(s, b).peer == Some(a)
}

/// The table after pairing `a` and `b`: both peer fields are set, to
/// each other, in one step — no state with only one side set exists.
pub open spec fn pair_spec(s: EditorModel, a: int, b: int) -> EditorModel {
    s.update(a, Some(set_peer_spec(doc_at(s, a), b))).update(
        b,
        Some(set_peer_spec(doc_at(s, b), a)),
    )
}

/// What happens to the surviving document's diff view when its peer
/// closes: a policy choice of the embedding editor, not something the
/// subsystem's scope settles.
#[derive(Clone, Copy, PartialEq, Eq, Structural, Debug)]
pub enum ClosePolicy {
    /// Keep the last computed base and hunks: the view freezes on the
    /// last comparison instead of flashing empty.
    FreezeLastDiff,
    /// Revert to an empty baseline (the embedder may then push a
    /// disk-based one): base and hunks are cleared and the generation
    /// advances, so a recomputation still in flight for the abandoned
    /// base is discarded on arrival.
    ResetToEmpty,
}

/// The surviving peer after its counterpart closes, per policy.
pub open spec fn unlink_spec(d: DocModel, policy: ClosePolicy) -> DocModel {
    match policy {
        ClosePolicy::FreezeLastDiff => clear_peer_spec(d),
        ClosePolicy::ResetToEmpty => clear_peer_reset_spec(d),
    }
}

/// The table after the close hook has run for document `closed`: if
/// `closed` has a peer that is still open, that peer's backlink is
/// cleared and its diff state is kept or reset as `policy` says —
/// nothing else changes. A document without a peer makes the hook a
/// no-op, not an error.
pub open spec fn close_hook_spec(s: EditorModel, closed: int, policy: ClosePolicy) -> EditorModel {
    if is_open(s, closed) && doc_at(s, closed).peer is Some {
        let p = doc_at(s, closed).peer->0;
        if is_open(s, p) {
            s.update(p, Some(unlink_spec(doc_at(s, p), policy)))
        } else {
            s
        }
    } else {
        s
    }
}

/// The table after document `closed` is closed for good: the close hook
/// runs, then the slot is emptied.
pub open spec fn close_spec(s: EditorModel, closed: int, policy: ClosePolicy) -> EditorModel {
    let s1 = close_hook_spec(s, closed, policy);
    if 0 <= closed < s1.len() {
        s1.update(closed, None)
    } else {
        s1
    }
}

/// Headroom for the generation counter a resetting close would advance:
/// a machine limit, not a rule of the subsystem. Trivial under
/// [`ClosePolicy::FreezeLastDiff`], which touches no counter.
pub open spec fn close_in_range(s: EditorModel, closed: int, policy: ClosePolicy) -> bool {
    (policy is ResetToEmpty && is_open(s, closed) && doc_at(s, closed).peer is Some && is_open(
        s,
        doc_at(s, closed).peer->0,
    )) ==> doc_at(s, doc_at(s, closed).peer->0).handle.generation < u64::MAX
}

/// The table after an edit turns document `changed`'s text into `text`:
/// the document stores its new text, and if it has an open peer, `text`
/// becomes that peer's diff base at once (hunks catch up when the
/// requested recomputation completes). A document without a peer, or
/// whose peer has vanished, only stores its text.
pub open spec fn change_spec(s: EditorModel, changed: int, text: Seq<char>) -> EditorModel {
    if is_open(s, changed) {
        let s1 = s.update(changed, Some(set_text_spec(doc_at(s, changed), text)));
        let peer = doc_at(s, changed).peer;
        if peer is Some && is_open(s1, peer->0) {
            s1.update(peer->0, Some(push_base_spec(doc_at(s1, peer->0), text)))
        } else {
            s1
        }
    } else {
        s
    }
}

/// The recompute request that the same edit issues: the peer's slot and
/// the generation its handle advances to, or nothing when there is no
/// open peer to keep current.
pub open spec fn change_ticket_spec(s: EditorModel, changed: int) -> Option<(int, int)> {
    if is_open(s, changed) && doc_at(s, changed).peer is Some && is_open(
        s,
        doc_at(s, changed).peer->0,
    ) {
        let p = doc_at(s, changed).peer->0;
        Some((p, doc_at(s, p).handle.generation + 1))
    } else {
        None
    }
}

/// Headroom for the generation counter the edit would advance: a machine
/// limit, not a rule of the subsystem.
pub open spec fn ticket_in_range(s: EditorModel, changed: int) -> bool {
    change_ticket_spec(s, changed) matches Some(t) ==> t.1 <= u64::MAX
}

/// Whether a recomputation begun at generation `generation` for the
/// document in slot `doc` may still be applied: the document must still
/// be open and no newer base stored since. A vanished document simply
/// makes the result unusable — never an error.
pub open spec fn recompute_applies(s: EditorModel, doc: int, generation: int) -> bool {
    is_open(s, doc) && recompute_applies_spec(doc_at(s, doc).handle, generation)
}

/// The table after a recomputation begun at `generation` delivers
/// `hunks` for the document in slot `doc`: installed when still current,
/// discarded — leaving the table untouched — when stale or when the
/// document has been closed in the meantime.
pub open spec fn complete_spec(
    s: EditorModel,
    doc: int,
    generation: int,
    hunks: Seq<Hunk>,
) -> EditorModel {
    if is_open(s, doc) {
        s.update(doc, Some(deliver_hunks_spec(doc_at(s, doc), generation, hunks)))
    } else {
        s
    }
}

/// Pairing two distinct, open, unlinked documents keeps the table well
/// formed: the two new peer fields point at each other, inside the table.
pub proof fn lemma_pair_wf(s: EditorModel, a: int, b: int)
    requires
        wf(s),
        can_pair(s, a, b),
    ensures
        wf(pair_spec(s, a, b)),
{
    let s2 = pair_spec(s, a, b);
    assert forall|i: int| (#[trigger] is_open(s2, i)) && doc_at(s2, i).peer is Some implies {
        let p = doc_at(s2, i).peer->0;
        0 <= p < s2.len() && p != i
    } by {
        assert(is_open(s, i));
    }
}

/// The close hook only clears a peer field and possibly resets a diff
/// state, so it keeps the table well formed.
pub proof fn lemma_close_hook_wf(s: EditorModel, closed: int, policy: ClosePolicy)
    requires
        wf(s),
    ensures
        wf(close_hook_spec(s, closed, policy)),
{
    let s2 = close_hook_spec(s, closed, policy);
    assert forall|i: int| (#[trigger] is_open(s2, i)) && doc_at(s2, i).peer is Some implies {
        let p = doc_at(s2, i).peer->0;
        0 <= p < s2.len() && p != i
    } by {
        assert(is_open(s, i));
    }
}

/// Closing a document empties its slot without moving any other slot,
/// so it keeps the table well formed: a surviving peer field may point
/// at the emptied slot, which well-formedness allows.
pub proof fn lemma_close_wf(s: EditorModel, closed: int, policy: ClosePolicy)
    requires
        wf(s),
    ensures
        wf(close_spec(s, closed, policy)),
{
    lemma_close_hook_wf(s, closed, policy);
    let s1 = close_hook_spec(s, closed, policy);
    let s2 = close_spec(s, closed, policy);
    assert forall|i: int| (#[trigger] is_open(s2, i)) && doc_at(s2, i).peer is Some implies {
        let p = doc_at(s2, i).peer->0;
        0 <= p < s2.len() && p != i
    } by {
        assert(is_open(s1, i));
    }
}

/// An edit changes only a text and a diff base, never a peer field, so
/// it keeps the table well formed.
pub proof fn lemma_change_wf(s: EditorModel, changed: int, text: Seq<char>)
    requires
        wf(s),
    ensures
        wf(change_spec(s, changed, text)),
{
    let s2 = change_spec(s, changed, text);
    assert forall|i: int| (#[trigger] is_open(s2, i)) && doc_at(s2, i).peer is Some implies {
        let p = doc_at(s2, i).peer->0;
        0 <= p < s2.len() && p != i
    } by {
        assert(is_open(s, i));
    }
}

/// Delivering a recomputation result changes only hunks, never a peer
/// field, so it keeps the table well formed.
pub proof fn lemma_complete_wf(s: EditorModel, doc: int, generation: int, hunks: Seq<Hunk>)
    requires
        wf(s),
    ensures
        wf(complete_spec(s, doc, generation, hunks)),
{
    let s2 = complete_spec(s, doc, generation, hunks);
    assert forall|i: int| (#[trigger] is_open(s2, i)) && doc_at(s2, i).peer is Some implies {
        let p = doc_at(s2, i).peer->0;
        0 <= p < s2.len() && p != i
    } by {
        assert(is_open(s, i));
    }
}

/// Opening a document appends an unlinked slot and moves no other slot,
/// so it keeps the table well formed.
pub proof fn lemma_open_wf(s: EditorModel, d: DocModel)
    requires
        wf(s),
        d.peer is None,
    ensures
        wf(s.push(Some(d))),
{
    let s2 = s.push(Some(d));
    assert forall|i: int| (#[trigger] is_open(s2, i)) && doc_at(s2, i).peer is Some implies {
        let p = doc_at(s2, i).peer->0;
        0 <= p < s2.len() && p != i
    } by {
        assert(i < s.len());
        assert(is_open(s, i));
    }
}

} // verus!
