//! One open document: its text, its optional side-diff peer, and the
//! diff handle that compares it against that peer's live content.

use vstd::prelude::*;

use crate::diff_handle::DiffHandle;
use crate::diff_handle::DiffHandleModel;
use crate::diff_handle::Hunk;
use crate::diff_handle::apply_recompute_spec;
use crate::diff_handle::recompute_applies_spec;
use crate::diff_handle::reset_spec;
use crate::diff_handle::set_base_spec;

verus! {

/// Mathematical model of a [`Document`]. The peer field holds the slot
/// index of the paired document, if any.
#[verifier::ext_equal]
pub ghost struct DocModel {
    pub text: Seq<char>,
    pub peer: Option<int>,
    pub handle: DiffHandleModel,
}

/// The peer field as it appears in the model.
pub open spec fn peer_id_view(p: Option<usize>) -> Option<int> {
    match p {
        Some(id) => Some(id as int),
        None => None,
    }
}

/// A freshly opened document with text `text`: no peer, empty diff state.
pub open spec fn new_doc_spec(text: Seq<char>) -> DocModel {
    DocModel {
        text,
        peer: None,
        handle: DiffHandleModel {
            diff_base: Seq::<char>::empty(),
            hunks: Seq::<Hunk>::empty(),
            generation: 0,
        },
    }
}

/// `d` with its text replaced; the peer link and diff state are untouched.
pub open spec fn set_text_spec(d: DocModel, text: Seq<char>) -> DocModel {
    DocModel { text, peer: d.peer, handle: d.handle }
}

/// `d` with its peer field cleared; everything else, the diff state in
/// particular, is untouched: the diff view freezes on its last comparison.
pub open spec fn clear_peer_spec(d: DocModel) -> DocModel {
    DocModel { text: d.text, peer: None, handle: d.handle }
}

/// `d` with its peer field cleared and its diff state reverted to an
/// empty baseline (see [`reset_spec`]); the alternative to
/// [`clear_peer_spec`] for editors that prefer an empty diff view over a
/// frozen one when the counterpart closes.
pub open spec fn clear_peer_reset_spec(d: DocModel) -> DocModel {
    DocModel { text: d.text, peer: None, handle: reset_spec(d.handle) }
}

/// `d` with its peer field set to `peer`.
pub open spec fn set_peer_spec(d: DocModel, peer: int) -> DocModel {
    DocModel { text: d.text, peer: Some(peer), handle: d.handle }
}

/// `d` with `base` stored as its new diff base (see
/// [`set_base_spec`]): the generation advances, hunks stay until a
/// recomputation for the new base completes.
pub open spec fn push_base_spec(d: DocModel, base: Seq<char>) -> DocModel {
    DocModel { text: d.text, peer: d.peer, handle: set_base_spec(d.handle, base) }
}

/// `d` after a recomputation begun at `generation` delivers `hunks` (see
/// [`apply_recompute_spec`]): installed if still current, discarded
/// otherwise.
pub open spec fn deliver_hunks_spec(d: DocModel, generation: int, hunks: Seq<Hunk>) -> DocModel {
    DocModel { text: d.text, peer: d.peer, handle: apply_recompute_spec(d.handle, generation, hunks) }
}

/// One open document. The peer field is half of a mutual link that
/// [`crate::editor::Editor`] maintains: it is set only together with the
/// counterpart's field, and cleared by the close hook when the
/// counterpart goes away.
pub struct Document {
    pub(crate) text: String,
    pub(crate) peer: Option<usize>,
    pub(crate) handle: DiffHandle,
}

impl View for Document {
    type V = DocModel;

    closed spec fn view(&self) -> DocModel {
        DocModel { text: self.text@, peer: peer_id_view(self.peer), handle: self.handle@ }
    }
}

impl Document {
    /// A freshly opened document holding `text`.
    pub fn new(text: String) -> (d: Document)
        ensures
            d@ == new_doc_spec(text@),
    {
        Document { text, peer: None, handle: DiffHandle::new() }
    }

    /// The document's current text.
    pub fn text(&self) -> (r: &String)
        ensures
            r@ == self@.text,
    {
        &self.text
    }

    /// The slot of the paired document, if this document is in a
    /// side-diff pairing.
    pub fn side_diff_peer_id(&self) -> (p: Option<usize>)
        ensures
            peer_id_view(p) == self@.peer,
    {
        self.peer
    }

    /// Clears the peer link on this document alone. The diff state is
    /// left as it is, so the diff view keeps showing the last completed
    /// comparison rather than flashing empty.
    pub fn clear_side_diff_peer(&mut self)
        ensures
            final(self)@ == clear_peer_spec(old(self)@),
    {
        self.peer = None;
    }

    /// Read-only access to the document's diff state, as the render
    /// layer uses it each frame.
    pub fn diff_handle(&self) -> (h: &DiffHandle)
        ensures
            h@ == self@.handle,
    {
        &self.handle
    }

    /// Clears the peer link and reverts the diff state to an empty
    /// baseline, for the close policy that prefers an empty view over a
    /// frozen one.
    pub(crate) fn clear_side_diff_peer_reset(&mut self)
        requires
            old(self)@.handle.generation < u64::MAX,
        ensures
            final(self)@ == clear_peer_reset_spec(old(self)@),
    {
        self.peer = None;
        self.handle.reset();
    }

    /// Sets this document's half of a peer link. Only
    /// [`crate::editor::Editor::establish_pair`] calls this, for both
    /// halves together.
    pub(crate) fn set_side_diff_peer(&mut self, peer: usize)
        ensures
            final(self)@ == set_peer_spec(old(self)@, peer as int),
    {
        self.peer = Some(peer);
    }

    /// Replaces the document's text after an edit.
    pub(crate) fn set_text(&mut self, text: String)
        ensures
            final(self)@ == set_text_spec(old(self)@, text@),
    {
        self.text = text;
    }

    /// Stores `base` as the document's new diff base and returns the
    /// generation a recomputation against it must present.
    pub(crate) fn push_diff_base(&mut self, base: String) -> (g: u64)
        requires
            old(self)@.handle.generation < u64::MAX,
        ensures
            final(self)@ == push_base_spec(old(self)@, base@),
            g as int == final(self)@.handle.generation,
    {
        self.handle.set_base(base)
    }

    /// Hands the document the result of a recomputation begun at
    /// `generation`; stale results are discarded.
    pub(crate) fn deliver_hunks(&mut self, generation: u64, hunks: Vec<Hunk>) -> (applied: bool)
        ensures
            applied == recompute_applies_spec(old(self)@.handle, generation as int),
            final(self)@ == deliver_hunks_spec(old(self)@, generation as int, hunks@),
    {
        self.handle.apply_recompute(generation, hunks)
    }
}

} // verus!
