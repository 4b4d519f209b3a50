//! The subsystem's guarantees, proved over the transitions of
//! [`crate::model`]. Together with the method contracts of
//! [`crate::editor::Editor`] — which state that each method performs
//! exactly the corresponding transition — these carry over to the
//! executable operations.

use vstd::prelude::*;

use crate::diff_handle::Hunk;
use crate::model::ClosePolicy;
use crate::model::EditorModel;
use crate::model::change_spec;
use crate::model::change_ticket_spec;
use crate::model::close_hook_spec;
use crate::model::close_spec;
use crate::model::complete_spec;
use crate::model::doc_at;
use crate::model::is_open;
use crate::model::mutually_paired;
use crate::model::wf;

verus! {

/// Propagation, in both directions: while `a` and `b` are mutually
/// paired, an edit that turns either one's text into `text` makes
/// `text` the *other* one's diff base at once, and the pairing itself
/// is untouched. Which of the two was given first to `establish_pair`
/// plays no part: the statement is symmetric in `a` and `b`.
pub proof fn lemma_propagation_mutual(s: EditorModel, a: int, b: int, text: Seq<char>)
    requires
        wf(s),
        mutually_paired(s, a, b),
    ensures
        doc_at(change_spec(s, a, text), b).handle.diff_base == text,
        doc_at(change_spec(s, a, text), a).text == text,
        mutually_paired(change_spec(s, a, text), a, b),
        doc_at(change_spec(s, b, text), a).handle.diff_base == text,
        doc_at(change_spec(s, b, text), b).text == text,
        mutually_paired(change_spec(s, b, text), a, b),
{
}

/// Unlink on close: closing `b` while it is mutually paired with `a`
/// leaves `a` open with no peer and empties `b`'s slot. What remains of
/// `a`'s diff view follows the close policy: frozen on the last
/// comparison, or reverted to an empty baseline with the generation
/// advanced past every outstanding request. Either way, a subsequent
/// edit of `a` changes nothing but `a`'s own text and requests no
/// recomputation — there is no vanished peer left to reach for.
pub proof fn lemma_unlink_on_close(
    s: EditorModel,
    a: int,
    b: int,
    text: Seq<char>,
    policy: ClosePolicy,
)
    requires
        wf(s),
        mutually_paired(s, a, b),
    ensures
        is_open(close_spec(s, b, policy), a),
        doc_at(close_spec(s, b, policy), a).peer is None,
        policy is FreezeLastDiff ==> doc_at(close_spec(s, b, policy), a).handle == doc_at(
            s,
            a,
        ).handle,
        policy is ResetToEmpty ==> doc_at(close_spec(s, b, policy), a).handle
            == crate::diff_handle::reset_spec(doc_at(s, a).handle),
        !is_open(close_spec(s, b, policy), b),
        change_ticket_spec(close_spec(s, b, policy), a) is None,
        change_spec(close_spec(s, b, policy), a, text) == close_spec(s, b, policy).update(
            a,
            Some(crate::document::set_text_spec(doc_at(close_spec(s, b, policy), a), text)),
        ),
{
    let s1 = close_spec(s, b, policy);
    assert(is_open(s, b));
    assert(s1 =~= s.update(
        a,
        Some(crate::model::unlink_spec(doc_at(s, a), policy)),
    ).update(b, None));
    assert(change_spec(s1, a, text) =~= s1.update(
        a,
        Some(crate::document::set_text_spec(doc_at(s1, a), text)),
    ));
}

/// Stale-write rejection, end to end: with `a` paired to `p`, an edit
/// of `a` stores a base at some generation `g`, and a second edit
/// stores a newer base at `g + 1`. A recomputation for generation `g`
/// that completes only after the second edit is discarded — the table
/// is left exactly as it was — while one for `g + 1` installs its hunks
/// against the newer base. The visible base and hunks therefore always
/// belong to the most recent edit, never to a mix of generations.
pub proof fn lemma_stale_write_rejected(
    s: EditorModel,
    a: int,
    p: int,
    t1: Seq<char>,
    t2: Seq<char>,
    stale_hunks: Seq<Hunk>,
    fresh_hunks: Seq<Hunk>,
)
    requires
        wf(s),
        mutually_paired(s, a, p),
    ensures
        ({
            let g1 = (change_ticket_spec(s, a)->0).1;
            let s1 = change_spec(s, a, t1);
            let g2 = (change_ticket_spec(s1, a)->0).1;
            let s2 = change_spec(s1, a, t2);
            &&& g2 == g1 + 1
            &&& complete_spec(s2, p, g1, stale_hunks) == s2
            &&& doc_at(complete_spec(s2, p, g2, fresh_hunks), p).handle.diff_base == t2
            &&& doc_at(complete_spec(s2, p, g2, fresh_hunks), p).handle.hunks == fresh_hunks
        }),
{
    let g1 = (change_ticket_spec(s, a)->0).1;
    let s1 = change_spec(s, a, t1);
    let g2 = (change_ticket_spec(s1, a)->0).1;
    let s2 = change_spec(s1, a, t2);
    assert(is_open(s, a));
    assert(doc_at(s2, p).handle.generation == g2);
    assert(g1 != g2);
    assert(complete_spec(s2, p, g1, stale_hunks) =~= s2);
}

/// Idempotent close handling: for a document that is already unpaired
/// (or long gone) the close hook is a no-op under either policy, so
/// running it twice changes nothing either time. Under the freezing
/// policy the hook is idempotent outright — a second run for the same
/// document finds the peer's backlink already cleared.
pub proof fn lemma_close_hook_idempotent(s: EditorModel, closed: int, policy: ClosePolicy)
    ensures
        !is_open(s, closed) || doc_at(s, closed).peer is None ==> close_hook_spec(
            s,
            closed,
            policy,
        ) == s,
        close_hook_spec(
            close_hook_spec(s, closed, ClosePolicy::FreezeLastDiff),
            closed,
            ClosePolicy::FreezeLastDiff,
        ) == close_hook_spec(s, closed, ClosePolicy::FreezeLastDiff),
{
    let freeze = ClosePolicy::FreezeLastDiff;
    let s1 = close_hook_spec(s, closed, freeze);
    if is_open(s, closed) && doc_at(s, closed).peer is Some {
        let p = doc_at(s, closed).peer->0;
        if is_open(s, p) {
            if p == closed {
                assert(doc_at(s1, closed).peer is None);
                assert(close_hook_spec(s1, closed, freeze) == s1);
            } else {
                assert(doc_at(s1, closed) == doc_at(s, closed));
                assert(is_open(s1, p));
                assert(doc_at(s1, p) == crate::document::clear_peer_spec(doc_at(s, p)));
                assert(crate::document::clear_peer_spec(doc_at(s1, p)) =~~= doc_at(s1, p));
                assert(close_hook_spec(s1, closed, freeze) =~= s1);
            }
        }
    }
}

} // verus!
