//! Finding the review to open from the conversation: the latest turn's
//! diff, or the completed file changes of the latest turn that has any.

use vstd::prelude::*;

use crate::activity::ConversationActivity;
use crate::file_change::FileChangeStatus;
use crate::review::{DiffFileView, DiffReviewPresentation, DiffReviewView, append_file_copies, files_view};
use crate::text::{append_decimal, chars_of, decimal, opt_chars, opt_string, starts_with, to_owned_string, vec_starts_with};

verus! {

/// The review of the last file change in `acts` that carries a whole
/// turn's diff (its review id starts with `turn-diff-`).
pub open spec fn turn_diff_review(acts: Seq<ConversationActivity>) -> Option<DiffReviewView>
    decreases acts.len(),
{
    if acts.len() == 0 {
        None
    } else {
        match acts.last() {
            ConversationActivity::FileChange(c) => if starts_with(c.review@.review_id, "turn-diff-"@) {
                Some(c.review@)
            } else {
                turn_diff_review(acts.drop_last())
            },
            _ => turn_diff_review(acts.drop_last()),
        }
    }
}

/// The files of the completed file changes in `acts`, in order.
pub open spec fn completed_files(acts: Seq<ConversationActivity>) -> Seq<DiffFileView>
    decreases acts.len(),
{
    if acts.len() == 0 {
        seq![]
    } else {
        completed_files(acts.drop_last()) + match acts.last() {
            ConversationActivity::FileChange(c) => if c.status == FileChangeStatus::Completed {
                c.review@.files
            } else {
                seq![]
            },
            _ => seq![],
        }
    }
}

/// The patches of the completed file changes in `acts`, joined in order.
pub open spec fn completed_patches(acts: Seq<ConversationActivity>) -> Seq<char>
    decreases acts.len(),
{
    if acts.len() == 0 {
        seq![]
    } else {
        completed_patches(acts.drop_last()) + match acts.last() {
            ConversationActivity::FileChange(c) => if c.status == FileChangeStatus::Completed
                && c.review@.raw_diff is Some {
                c.review@.raw_diff->0
            } else {
                seq![]
            },
            _ => seq![],
        }
    }
}

/// The id of a review gathered from file changes.
pub open spec fn gathered_review_id(thread_id: Option<Seq<char>>, cycle: u64) -> Seq<char> {
    "latest-"@ + (match thread_id {
        Some(t) => t,
        None => "draft"@,
    }) + "-"@ + decimal(cycle as nat)
}

/// The review a turn's activities offer: its whole-turn diff if it has
/// one, else a review of its completed file changes (with their patches,
/// if any), else none.
pub open spec fn turn_review(acts: Seq<ConversationActivity>, id: Seq<char>) -> Option<DiffReviewView> {
    match turn_diff_review(acts) {
        Some(r) => Some(r),
        None => if completed_files(acts).len() > 0 {
            Some(
                DiffReviewView {
                    review_id: id,
                    turn_label: "上一轮"@,
                    files: completed_files(acts),
                    show_summary: false,
                    show_file_tree: true,
                    raw_diff: if completed_patches(acts).len() == 0 {
                        None
                    } else {
                        Some(completed_patches(acts))
                    },
                },
            )
        } else {
            None
        },
    }
}

/// The first review offered by `turns`, newest first.
pub open spec fn first_review(turns: Seq<Seq<ConversationActivity>>, id: Seq<char>) -> Option<
    DiffReviewView,
>
    decreases turns.len(),
{
    if turns.len() == 0 {
        None
    } else {
        match turn_review(turns[0], id) {
            Some(r) => Some(r),
            None => first_review(turns.drop_first(), id),
        }
    }
}

/// The activities of the current turn, then of the earlier turns from the
/// newest back.
pub open spec fn turns_newest_first(
    current: Seq<ConversationActivity>,
    earlier: Seq<Seq<ConversationActivity>>,
) -> Seq<Seq<ConversationActivity>> {
    seq![current] + earlier.reverse()
}

fn find_turn_diff(acts: &Vec<ConversationActivity>) -> (r: Option<DiffReviewPresentation>)
    ensures
        match r {
            Some(x) => turn_diff_review(acts@) == Some(x@),
            None => turn_diff_review(acts@) is None,
        },
{
    let mut i = acts.len();
    proof {
        assert(acts@.take(i as int) =~= acts@);
    }
    while i > 0
        invariant
            i <= acts.len(),
            turn_diff_review(acts@) == turn_diff_review(acts@.take(i as int)),
        decreases i,
    {
        proof {
            assert(acts@.take(i as int).drop_last() =~= acts@.take(i - 1));
            assert(acts@.take(i as int).last() == acts@[i - 1]);
        }
        match &acts[i - 1] {
            ConversationActivity::FileChange(c) => {
                let id = chars_of(c.review.review_id.as_str());
                if vec_starts_with(&id, "turn-diff-") {
                    return Some(c.review.copy());
                }
            },
            _ => {},
        }
        i -= 1;
    }
    proof {
        assert(acts@.take(0) =~= Seq::<ConversationActivity>::empty());
    }
    None
}

fn review_of_turn(acts: &Vec<ConversationActivity>, id: &str) -> (r: Option<DiffReviewPresentation>)
    ensures
        match r {
            Some(x) => turn_review(acts@, id@) == Some(x@),
            None => turn_review(acts@, id@) is None,
        },
{
    match find_turn_diff(acts) {
        Some(r) => {
            return Some(r);
        },
        None => {},
    }
    let mut files: Vec<crate::review::DiffFilePresentation> = Vec::new();
    let mut raw = String::new();
    let mut i: usize = 0;
    proof {
        assert(acts@.take(0) =~= Seq::<ConversationActivity>::empty());
        assert(files_view(files@) =~= Seq::<DiffFileView>::empty());
    }
    while i < acts.len()
        invariant
            i <= acts.len(),
            files_view(files@) == completed_files(acts@.take(i as int)),
            raw@ == completed_patches(acts@.take(i as int)),
        decreases acts.len() - i,
    {
        proof {
            assert(acts@.take(i + 1).drop_last() =~= acts@.take(i as int));
            assert(acts@.take(i + 1).last() == acts@[i as int]);
        }
        match &acts[i] {
            ConversationActivity::FileChange(c) => {
                if matches!(c.status, FileChangeStatus::Completed) {
                    append_file_copies(&mut files, &c.review.files);
                    match &c.review.raw_diff {
                        Some(patch) => {
                            raw.append(patch.as_str());
                        },
                        None => {},
                    }
                }
            },
            _ => {},
        }
        proof {
            assert(files_view(files@) =~= completed_files(acts@.take(i + 1)));
            assert(raw@ =~= completed_patches(acts@.take(i + 1)));
        }
        i += 1;
    }
    proof {
        assert(acts@.take(i as int) =~= acts@);
    }
    if files.len() == 0 {
        return None;
    }
    let mut review = DiffReviewPresentation::new(id, "上一轮", files);
    if raw.unicode_len() > 0 {
        review.raw_diff = Some(raw);
    }
    proof {
        assert(review@.files.len() == files_view(files@).len());
    }
    Some(review)
}

/// The review the composer opens for the latest changes: the first turn,
/// from the current one back through the earlier ones (oldest first in
/// `earlier`), that offers a review (see `turn_review`); a review gathered
/// from file changes is named after the thread (or `draft`) and the
/// conversation's cycle.
pub fn latest_review(
    current: &Vec<ConversationActivity>,
    earlier: &Vec<Vec<ConversationActivity>>,
    thread_id: Option<&str>,
    cycle: u64,
) -> (r: Option<DiffReviewPresentation>)
    ensures
        match r {
            Some(x) => first_review(
                turns_newest_first(current@, earlier@.map_values(|t: Vec<ConversationActivity>| t@)),
                gathered_review_id(opt_chars(thread_id), cycle),
            ) == Some(x@),
            None => first_review(
                turns_newest_first(current@, earlier@.map_values(|t: Vec<ConversationActivity>| t@)),
                gathered_review_id(opt_chars(thread_id), cycle),
            ) is None,
        },
{
    let mut id = to_owned_string("latest-");
    match thread_id {
        Some(t) => id.append(t),
        None => id.append("draft"),
    }
    id.append("-");
    append_decimal(&mut id, cycle);
    let ghost gid = gathered_review_id(opt_chars(thread_id), cycle);
    let ghost turns = turns_newest_first(
        current@,
        earlier@.map_values(|t: Vec<ConversationActivity>| t@),
    );
    proof {
        assert(id@ =~= gid);
        assert(turns[0] == current@);
        assert(turns.drop_first() =~= earlier@.map_values(|t: Vec<ConversationActivity>| t@).reverse());
    }
    match review_of_turn(current, id.as_str()) {
        Some(r) => {
            return Some(r);
        },
        None => {},
    }
    let mut k = earlier.len();
    proof {
        let ev = earlier@.map_values(|t: Vec<ConversationActivity>| t@);
        assert(ev.take(k as int) =~= ev);
    }
    while k > 0
        invariant
            k <= earlier.len(),
            id@ == gid,
            gid == gathered_review_id(opt_chars(thread_id), cycle),
            turns == turns_newest_first(
                current@,
                earlier@.map_values(|t: Vec<ConversationActivity>| t@),
            ),
            first_review(turns, gid) == first_review(
                earlier@.map_values(|t: Vec<ConversationActivity>| t@).take(k as int).reverse(),
                gid,
            ),
        decreases k,
    {
        let ghost ev = earlier@.map_values(|t: Vec<ConversationActivity>| t@);
        proof {
            assert(ev.take(k as int).reverse()[0] == ev[k - 1]);
            assert(ev.take(k as int).reverse().drop_first() =~= ev.take(k - 1).reverse());
            assert(ev[k - 1] == earlier@[k - 1]@);
        }
        match review_of_turn(&earlier[k - 1], id.as_str()) {
            Some(r) => {
                proof {
                    let rev = ev.take(k as int).reverse();
                    assert(rev.len() > 0);
                    assert(turn_review(rev[0], gid) == Some(r@));
                    assert(first_review(rev, gid) == Some(r@));
                }
                return Some(r);
            },
            None => {},
        }
        k -= 1;
    }
    None
}

} // verus!
