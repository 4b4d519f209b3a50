//! The document table and the operations the subsystem performs on it:
//! pairing two documents, reacting to change and close events, and
//! taking delivery of recomputed hunks.
//!
//! Each mutating operation is proved to take the table exactly to the
//! state the corresponding transition in [`crate::model`] describes.

use vstd::prelude::*;

use crate::diff_handle::Hunk;
use crate::document::DocModel;
use crate::document::Document;
use crate::document::new_doc_spec;
use crate::model::EditorModel;
use crate::model::ClosePolicy;
use crate::model::can_pair;
use crate::model::change_spec;
use crate::model::change_ticket_spec;
use crate::model::close_hook_spec;
use crate::model::close_in_range;
use crate::model::close_spec;
use crate::model::complete_spec;
use crate::model::doc_at;
use crate::model::is_open;
use crate::model::lemma_change_wf;
use crate::model::lemma_close_hook_wf;
use crate::model::lemma_close_wf;
use crate::model::lemma_complete_wf;
use crate::model::lemma_open_wf;
use crate::model::lemma_pair_wf;
use crate::model::mutually_paired;
use crate::model::pair_spec;
use crate::model::recompute_applies;
use crate::model::ticket_in_range;

verus! {

/// Why a pairing request was refused.
#[derive(Clone, Copy, PartialEq, Eq, Structural, Debug)]
pub enum PairError {
    /// A document cannot be paired with itself.
    InvalidPair,
    /// One of the two documents already has a peer; it must be unpaired
    /// first, never silently re-linked.
    AlreadyPaired,
}

/// Why a recomputation produced no hunks.
#[derive(Clone, Copy, PartialEq, Eq, Structural, Debug)]
pub enum DiffError {
    /// The diff algorithm gave up on a pathological input. The previous
    /// hunks stay in place; the failure is reported, not fatal.
    DiffComputeFailed,
}

/// A pending recomputation request: which document's hunks to recompute
/// and the generation its diff base was stored at. A worker computes the
/// hunks off the interactive thread and hands the ticket back together
/// with the result.
#[derive(Clone, Copy, PartialEq, Eq, Structural, Debug)]
pub struct RecomputeTicket {
    pub doc: usize,
    pub generation: u64,
}

/// The request as it appears in the model.
pub open spec fn ticket_view(t: Option<RecomputeTicket>) -> Option<(int, int)> {
    match t {
        Some(tk) => Some((tk.doc as int, tk.generation as int)),
        None => None,
    }
}

/// The document table. A document's identifier is its slot index;
/// closing a document leaves `None` in its slot, so identifiers are
/// never reused within a session.
pub struct Editor {
    slots: Vec<Option<Document>>,
    close_policy: ClosePolicy,
}

impl View for Editor {
    type V = EditorModel;

    closed spec fn view(&self) -> EditorModel {
        Seq::new(
            self.slots@.len(),
            |i: int|
                match self.slots@[i] {
                    Some(d) => Some(d@),
                    None => None,
                },
        )
    }
}

/// Frame rule for a single-slot mutation: when only slot `i` of the
/// underlying table differs between `pre` and `post`, the two models
/// agree everywhere but at `i`.
proof fn lemma_frame(pre: Editor, post: Editor, i: int)
    requires
        post.slots@.len() == pre.slots@.len(),
        forall|j: int| 0 <= j < post.slots@.len() && j != i ==> post.slots@[j] == pre.slots@[j],
    ensures
        post@.len() == pre@.len(),
        forall|j: int| 0 <= j < post@.len() && j != i ==> post@[j] == pre@[j],
{
    assert forall|j: int| 0 <= j < post@.len() && j != i implies post@[j] == pre@[j] by {
        assert(post.slots@[j] == pre.slots@[j]);
    }
}

impl Editor {
    /// Well-formedness of the table (see [`crate::model::wf`]). Every
    /// operation below preserves it.
    pub open spec fn wf(&self) -> bool {
        crate::model::wf(self@)
    }

    /// The editor's policy for a surviving document whose peer closes.
    pub closed spec fn policy(&self) -> ClosePolicy {
        self.close_policy
    }

    /// An editor with no documents that freezes a survivor's diff view
    /// when its peer closes (the default: no flash of an empty diff).
    pub fn new() -> (e: Editor)
        ensures
            e@ == Seq::<Option<DocModel>>::empty(),
            e.wf(),
            e.policy() == ClosePolicy::FreezeLastDiff,
    {
        Editor::with_close_policy(ClosePolicy::FreezeLastDiff)
    }

    /// An editor with no documents and the given close policy.
    pub fn with_close_policy(policy: ClosePolicy) -> (e: Editor)
        ensures
            e@ == Seq::<Option<DocModel>>::empty(),
            e.wf(),
            e.policy() == policy,
    {
        let e = Editor { slots: Vec::new(), close_policy: policy };
        proof {
            assert(e@ =~= Seq::<Option<DocModel>>::empty());
        }
        e
    }

    /// The configured close policy.
    pub fn close_policy(&self) -> (p: ClosePolicy)
        ensures
            p == self.policy(),
    {
        self.close_policy
    }

    /// Opens a new document holding `text` and returns its identifier:
    /// the freshly appended slot. The document starts unpaired, with an
    /// empty diff base.
    pub fn open_document(&mut self, text: String) -> (id: usize)
        requires
            old(self).wf(),
        ensures
            final(self).wf(),
            id as int == old(self)@.len(),
            final(self)@ == old(self)@.push(Some(new_doc_spec(text@))),
            is_open(final(self)@, id as int),
    {
        let id = self.slots.len();
        let ghost t = text@;
        self.slots.push(Some(Document::new(text)));
        proof {
            assert forall|j: int| 0 <= j < self@.len() implies self@[j] == old(self)@.push(
                Some(new_doc_spec(t)),
            )[j] by {
                if j < old(self)@.len() {
                    assert(self.slots@[j] == old(self).slots@[j]);
                }
            }
            assert(self@ =~= old(self)@.push(Some(new_doc_spec(t))));
            lemma_open_wf(old(self)@, new_doc_spec(t));
        }
        id
    }

    /// The document in slot `id`, or nothing if `id` was never assigned
    /// or the document has been closed.
    pub fn get(&self, id: usize) -> (r: Option<&Document>)
        ensures
            match r {
                Some(d) => is_open(self@, id as int) && d@ == doc_at(self@, id as int),
                None => !is_open(self@, id as int),
            },
    {
        if id < self.slots.len() {
            self.slots[id].as_ref()
        } else {
            None
        }
    }

    /// Pairs documents `a` and `b`: each one's peer field is set to the
    /// other, in one step — no observer ever sees only one side linked.
    /// Refused with [`PairError::InvalidPair`] when `a == b`, and with
    /// [`PairError::AlreadyPaired`] when either side already has a peer;
    /// a refused request leaves the table untouched.
    pub fn establish_pair(&mut self, a: usize, b: usize) -> (r: Result<(), PairError>)
        requires
            old(self).wf(),
            is_open(old(self)@, a as int),
            is_open(old(self)@, b as int),
        ensures
            final(self).wf(),
            r is Ok <==> can_pair(old(self)@, a as int, b as int),
            a == b ==> r == Err::<(), PairError>(PairError::InvalidPair),
            a != b && !can_pair(old(self)@, a as int, b as int) ==> r == Err::<(
            ), PairError>(PairError::AlreadyPaired),
            r is Err ==> final(self)@ == old(self)@,
            r is Ok ==> final(self)@ == pair_spec(old(self)@, a as int, b as int),
            r is Ok ==> doc_at(final(self)@, a as int).peer == Some(b as int) && doc_at(
                final(self)@,
                b as int,
            ).peer == Some(a as int),
            r is Ok ==> mutually_paired(final(self)@, a as int, b as int),
    {
        if a == b {
            return Err(PairError::InvalidPair);
        }
        let a_paired = match &self.slots[a] {
            Some(d) => d.side_diff_peer_id().is_some(),
            None => false,
        };
        let b_paired = match &self.slots[b] {
            Some(d) => d.side_diff_peer_id().is_some(),
            None => false,
        };
        if a_paired || b_paired {
            return Err(PairError::AlreadyPaired);
        }
        match &mut self.slots[a] {
            Some(d) => d.set_side_diff_peer(b),
            None => {},
        }
        let ghost mid = *self;
        match &mut self.slots[b] {
            Some(d) => d.set_side_diff_peer(a),
            None => {},
        }
        proof {
            lemma_frame(*old(self), mid, a as int);
            lemma_frame(mid, *self, b as int);
            assert(mid.slots@[a as int] is Some);
            assert(mid@[a as int] == Some((mid.slots@[a as int]->0)@));
            assert(self.slots@[b as int] is Some);
            assert(self@[b as int] == Some((self.slots@[b as int]->0)@));
            assert(self@ =~= pair_spec(old(self)@, a as int, b as int));
            lemma_pair_wf(old(self)@, a as int, b as int);
        }
        Ok(())
    }

    /// The close hook: when the document in slot `closed` goes away and
    /// has a peer that is still open, that peer's backlink is cleared —
    /// and, under [`ClosePolicy::ResetToEmpty`], its diff state reverted
    /// to an empty baseline. The closed document's own field is not
    /// touched, its slot is about to be destroyed anyway. Calling the
    /// hook for an unpaired or absent document is a no-op, not an error,
    /// so running it twice is harmless.
    pub fn on_document_closed(&mut self, closed: usize)
        requires
            old(self).wf(),
            close_in_range(old(self)@, closed as int, old(self).policy()),
        ensures
            final(self).wf(),
            final(self)@ == close_hook_spec(old(self)@, closed as int, old(self).policy()),
            final(self).policy() == old(self).policy(),
    {
        proof {
            lemma_close_hook_wf(old(self)@, closed as int, old(self).policy());
        }
        if closed >= self.slots.len() {
            return ;
        }
        let peer_opt: Option<usize> = match &self.slots[closed] {
            Some(d) => d.side_diff_peer_id(),
            None => None,
        };
        match peer_opt {
            Some(p) => {
                proof {
                    assert(is_open(old(self)@, closed as int));
                }
                if p < self.slots.len() {
                    let reset = matches!(self.close_policy, ClosePolicy::ResetToEmpty);
                    match &mut self.slots[p] {
                        Some(peer_doc) => {
                            if reset {
                                peer_doc.clear_side_diff_peer_reset();
                            } else {
                                peer_doc.clear_side_diff_peer();
                            }
                        },
                        None => {},
                    }
                    proof {
                        lemma_frame(*old(self), *self, p as int);
                        if old(self).slots@[p as int] is Some {
                            assert(self@[p as int] == Some((self.slots@[p as int]->0)@));
                        } else {
                            assert(self.slots@[p as int] == old(self).slots@[p as int]);
                            assert(self@[p as int] == old(self)@[p as int]);
                        }
                        assert(self@ =~= close_hook_spec(
                            old(self)@,
                            closed as int,
                            old(self).policy(),
                        ));
                    }
                }
            },
            None => {},
        }
    }

    /// Closes the document in slot `id`: the close hook runs for it,
    /// then its slot is emptied. The surviving peer, if any, keeps its
    /// last computed diff base and hunks or reverts to an empty
    /// baseline, as the close policy says.
    pub fn close_document(&mut self, id: usize)
        requires
            old(self).wf(),
            close_in_range(old(self)@, id as int, old(self).policy()),
        ensures
            final(self).wf(),
            final(self)@ == close_spec(old(self)@, id as int, old(self).policy()),
            final(self).policy() == old(self).policy(),
    {
        proof {
            lemma_close_wf(old(self)@, id as int, old(self).policy());
        }
        self.on_document_closed(id);
        if id < self.slots.len() {
            let ghost mid = *self;
            self.slots.set(id, None);
            proof {
                lemma_frame(mid, *self, id as int);
                assert(self@[id as int] is None);
                assert(self@ =~= close_spec(old(self)@, id as int, old(self).policy()));
            }
        }
    }

    /// The change hook: the document in slot `changed` stores its new
    /// text, and if it has an open peer, `new_text` immediately becomes
    /// that peer's diff base and a recomputation ticket for the peer is
    /// returned for a worker to serve. Without an open peer the edit
    /// changes nothing but the text and no ticket is issued — editing an
    /// unpaired document never reaches for a vanished peer.
    pub fn on_document_changed(&mut self, changed: usize, new_text: String) -> (t: Option<
        RecomputeTicket,
    >)
        requires
            old(self).wf(),
            ticket_in_range(old(self)@, changed as int),
        ensures
            final(self).wf(),
            final(self)@ == change_spec(old(self)@, changed as int, new_text@),
            ticket_view(t) == change_ticket_spec(old(self)@, changed as int),
            is_open(old(self)@, changed as int) ==> doc_at(final(self)@, changed as int).text
                == new_text@,
            t matches Some(tk) ==> is_open(final(self)@, tk.doc as int) && doc_at(
                final(self)@,
                tk.doc as int,
            ).handle.diff_base == new_text@ && doc_at(final(self)@, tk.doc as int).handle.generation
                == tk.generation as int,
    {
        proof {
            lemma_change_wf(old(self)@, changed as int, new_text@);
        }
        if changed >= self.slots.len() {
            return None;
        }
        let is_there = self.slots[changed].is_some();
        if !is_there {
            return None;
        }
        proof {
            assert(is_open(old(self)@, changed as int));
        }
        let peer_opt: Option<usize>;
        match &mut self.slots[changed] {
            Some(doc) => {
                doc.set_text(new_text.clone());
                peer_opt = doc.side_diff_peer_id();
            },
            None => {
                peer_opt = None;
            },
        }
        let ghost mid = *self;
        proof {
            lemma_frame(*old(self), mid, changed as int);
            assert(mid.slots@[changed as int] is Some);
            assert(mid@[changed as int] == Some((mid.slots@[changed as int]->0)@));
        }
        match peer_opt {
            Some(p) => {
                if p < self.slots.len() {
                    let peer_there = self.slots[p].is_some();
                    if peer_there {
                        let g: u64;
                        match &mut self.slots[p] {
                            Some(peer_doc) => {
                                g = peer_doc.push_diff_base(new_text);
                            },
                            None => {
                                g = 0;
                            },
                        }
                        proof {
                            lemma_frame(mid, *self, p as int);
                            assert(self.slots@[p as int] is Some);
                            assert(self@[p as int] == Some((self.slots@[p as int]->0)@));
                            assert(self@ =~= change_spec(old(self)@, changed as int, new_text@));
                        }
                        Some(RecomputeTicket { doc: p, generation: g })
                    } else {
                        proof {
                            assert(self@ =~= change_spec(old(self)@, changed as int, new_text@));
                        }
                        None
                    }
                } else {
                    proof {
                        assert(self@ =~= change_spec(old(self)@, changed as int, new_text@));
                    }
                    None
                }
            },
            None => {
                proof {
                    assert(self@ =~= change_spec(old(self)@, changed as int, new_text@));
                }
                None
            },
        }
    }

    /// Takes delivery of recomputed hunks for the ticket's document.
    /// They are installed only if the document is still open and its
    /// diff base is still the one the ticket was issued for; a result
    /// that lost the race to a newer base — or whose document has been
    /// closed meanwhile — is discarded and the table is left untouched.
    pub fn complete_recompute(&mut self, ticket: RecomputeTicket, hunks: Vec<Hunk>) -> (applied:
        bool)
        requires
            old(self).wf(),
        ensures
            final(self).wf(),
            applied == recompute_applies(old(self)@, ticket.doc as int, ticket.generation as int),
            final(self)@ == complete_spec(
                old(self)@,
                ticket.doc as int,
                ticket.generation as int,
                hunks@,
            ),
            applied ==> doc_at(final(self)@, ticket.doc as int).handle.hunks == hunks@ && doc_at(
                final(self)@,
                ticket.doc as int,
            ).handle.diff_base == doc_at(old(self)@, ticket.doc as int).handle.diff_base,
    {
        proof {
            lemma_complete_wf(old(self)@, ticket.doc as int, ticket.generation as int, hunks@);
        }
        if ticket.doc >= self.slots.len() {
            return false;
        }
        let applied: bool;
        match &mut self.slots[ticket.doc] {
            Some(doc) => {
                applied = doc.deliver_hunks(ticket.generation, hunks);
            },
            None => {
                applied = false;
            },
        }
        proof {
            lemma_frame(*old(self), *self, ticket.doc as int);
            if old(self).slots@[ticket.doc as int] is Some {
                assert(self@[ticket.doc as int] == Some((self.slots@[ticket.doc as int]->0)@));
            } else {
                assert(self.slots@[ticket.doc as int] == old(self).slots@[ticket.doc as int]);
                assert(self@[ticket.doc as int] == old(self)@[ticket.doc as int]);
            }
            assert(self@ =~= complete_spec(
                old(self)@,
                ticket.doc as int,
                ticket.generation as int,
                hunks@,
            ));
        }
        applied
    }

    /// Takes delivery of a recomputation outcome. A successful one is
    /// handled exactly as by [`Editor::complete_recompute`]; a failure
    /// leaves the previous hunks in place — the diff view degrades to a
    /// stale comparison instead of clearing — and is passed back for the
    /// editor to report.
    pub fn apply_recompute_outcome(
        &mut self,
        ticket: RecomputeTicket,
        outcome: Result<Vec<Hunk>, DiffError>,
    ) -> (r: Result<bool, DiffError>)
        requires
            old(self).wf(),
        ensures
            final(self).wf(),
            match outcome {
                Ok(hunks) => r == Ok::<bool, DiffError>(
                    recompute_applies(old(self)@, ticket.doc as int, ticket.generation as int),
                ) && final(self)@ == complete_spec(
                    old(self)@,
                    ticket.doc as int,
                    ticket.generation as int,
                    hunks@,
                ),
                Err(e) => r == Err::<bool, DiffError>(e) && final(self)@ == old(self)@,
            },
    {
        match outcome {
            Ok(hunks) => Ok(self.complete_recompute(ticket, hunks)),
            Err(e) => Err(e),
        }
    }
}

} // verus!
