//! Assembling a discussion thread from comments that arrive one at a time.
//!
//! A story, or a comment, lists the identifiers of its children. Whoever
//! fetches comments is asked for them one by one, depth first and left to
//! right: a comment's own children are asked for before its next sibling.
//! Each request is answered with the comment or with nothing, and a child
//! that was not found is left out of the tree.

use crate::entity::{comment_views, Comment, CommentView, StoryItem, StoryPageData};
use vstd::prelude::*;

verus! {

/// How far a list of children has been resolved.
pub struct Resolution {
    /// The comments found, in display order, each with the replies found
    /// for it.
    pub forest: Seq<CommentView>,
    /// How many answers were read.
    pub used: nat,
    /// The identifier that the next answer is for; none once every child,
    /// at every depth, has had its answer.
    pub awaiting: Option<i64>,
}

/// An answer to a request for a comment, as mathematical values: the
/// comment, or nothing where it was not found.
pub type Answer = Option<CommentView>;

/// The comment with `replies` in place of the replies that it came with.
pub open spec fn with_replies(comment: CommentView, replies: Seq<CommentView>) -> CommentView {
    CommentView { sub_comments: replies, ..comment }
}

/// The answers that are left after the first `used` have been read.
pub open spec fn unread(answers: Seq<Answer>, used: nat) -> Seq<Answer> {
    if used <= answers.len() {
        answers.skip(used as int)
    } else {
        Seq::empty()
    }
}

/// The first of two requests that is waiting.
pub open spec fn first_of(sooner: Option<i64>, later: Option<i64>) -> Option<i64> {
    if sooner is Some {
        sooner
    } else {
        later
    }
}

/// Resolves the children `kids`, in order, against `answers`.
///
/// The first answer is for the first child. If it is a comment, the answers
/// that follow are for that comment's own children, as far as they need
/// any, and only then for the next child. If it is nothing, the child is
/// left out and the next answer is for the next child. When the answers run
/// out, the children that are still waiting are left out, and `awaiting`
/// names the one that the next answer would be for.
pub open spec fn resolve(kids: Seq<i64>, answers: Seq<Answer>) -> Resolution
    decreases answers.len(), kids.len(),
{
    if kids.len() == 0 {
        Resolution { forest: Seq::empty(), used: 0, awaiting: None }
    } else if answers.len() == 0 {
        Resolution { forest: Seq::empty(), used: 0, awaiting: Some(kids[0]) }
    } else {
        match answers[0] {
            None => {
                let rest = resolve(kids.drop_first(), answers.drop_first());
                Resolution { forest: rest.forest, used: 1 + rest.used, awaiting: rest.awaiting }
            },
            Some(comment) => {
                let below = resolve(comment.kids, answers.drop_first());
                let rest = resolve(kids.drop_first(), unread(answers, 1 + below.used));
                Resolution {
                    forest: seq![with_replies(comment, below.forest)] + rest.forest,
                    used: 1 + below.used + rest.used,
                    awaiting: first_of(below.awaiting, rest.awaiting),
                }
            },
        }
    }
}

/// Resolution never reads more answers than there are, finds no more
/// comments than there are children, and stops with a request waiting only
/// when it has read every answer.
pub proof fn lemma_resolve_bounds(kids: Seq<i64>, answers: Seq<Answer>)
    ensures
        resolve(kids, answers).used <= answers.len(),
        resolve(kids, answers).forest.len() <= kids.len(),
        resolve(kids, answers).awaiting is Some ==> resolve(kids, answers).used == answers.len(),
    decreases answers.len(), kids.len(),
{
    if kids.len() == 0 || answers.len() == 0 {
    } else {
        match answers[0] {
            None => {
                lemma_resolve_bounds(kids.drop_first(), answers.drop_first());
            },
            Some(comment) => {
                let below = resolve(comment.kids, answers.drop_first());
                lemma_resolve_bounds(comment.kids, answers.drop_first());
                lemma_resolve_bounds(kids.drop_first(), unread(answers, 1 + below.used));
            },
        }
    }
}

/// The comments among `answers`, in order, each without replies.
pub open spec fn found_among(answers: Seq<Answer>) -> Seq<CommentView>
    decreases answers.len(),
{
    if answers.len() == 0 {
        Seq::empty()
    } else {
        match answers[0] {
            Some(comment) => seq![with_replies(comment, Seq::empty())] + found_among(
                answers.drop_first(),
            ),
            None => found_among(answers.drop_first()),
        }
    }
}

/// Display order is the order of the children. When the comments that are
/// found have no children of their own, each answer is for the next child
/// in turn, and the thread is the comments that were found, in the order of
/// the children they were found for, with nothing in place of a child that
/// was not found.
pub proof fn lemma_flat_thread_keeps_order(kids: Seq<i64>, answers: Seq<Answer>)
    requires
        answers.len() <= kids.len(),
        forall|k: int|
            0 <= k < answers.len() ==> ((#[trigger] answers[k]) matches Some(comment)
                ==> comment.kids.len() == 0),
    ensures
        resolve(kids, answers).forest == found_among(answers),
        resolve(kids, answers).used == answers.len(),
        resolve(kids, answers).awaiting == if answers.len() < kids.len() {
            Some(kids[answers.len() as int])
        } else {
            None
        },
    decreases answers.len(),
{
    if answers.len() > 0 {
        let later = answers.drop_first();
        lemma_flat_thread_keeps_order(kids.drop_first(), later);
        if let Some(comment) = answers[0] {
            // a comment without children reads no answer of its own
            assert(resolve(comment.kids, later).used == 0);
        }
    }
}

/// The tree is right at every depth. A comment that is found stands in the
/// thread with the replies that come of resolving its own children against
/// the answers that follow it; so the same holds of each reply, and of each
/// reply's replies.
pub proof fn lemma_replies_are_resolved_below(
    kids: Seq<i64>,
    comment: CommentView,
    later: Seq<Answer>,
)
    requires
        kids.len() > 0,
    ensures
        resolve(kids, seq![Some(comment)] + later).forest.len() >= 1,
        resolve(kids, seq![Some(comment)] + later).forest[0] == with_replies(
            comment,
            resolve(comment.kids, later).forest,
        ),
{
    let answers = seq![Some(comment)] + later;
    assert(answers.drop_first() =~= later);
}

/// The identifier that is waiting when the first `k` of `answers` have been
/// taken: the one that answer `k` is for.
pub open spec fn asked_at(kids: Seq<i64>, answers: Seq<Answer>, k: int) -> Option<i64> {
    resolve(kids, answers.take(k)).awaiting
}

/// The identifiers of the comments, in order.
pub open spec fn ids_of(comments: Seq<CommentView>) -> Seq<i64> {
    Seq::new(comments.len(), |i: int| comments[i].id)
}

/// Whether `part` is what remains of `whole` when some entries are left
/// out: the same entries in the same order, with gaps.
pub open spec fn remains_of(part: Seq<i64>, whole: Seq<i64>) -> bool
    decreases whole.len(),
{
    if part.len() == 0 {
        true
    } else if whole.len() == 0 {
        false
    } else if part[0] == whole[0] && remains_of(part.drop_first(), whole.drop_first()) {
        true
    } else {
        remains_of(part, whole.drop_first())
    }
}

/// Whether the replies of `comment` are those that its list of children
/// names, in the order of the list, with gaps where a child is missing; and
/// likewise for each reply, at every depth.
pub open spec fn follows_kids(comment: CommentView) -> bool
    decreases comment,
{
    &&& remains_of(ids_of(comment.sub_comments), comment.kids)
    &&& forall|i: int|
        0 <= i < comment.sub_comments.len() ==> follows_kids(#[trigger] comment.sub_comments[i])
}

/// Whether each comment among `answers` is the one that was asked for: it
/// has the identifier that was waiting when it was given.
pub open spec fn faithful(kids: Seq<i64>, answers: Seq<Answer>) -> bool {
    forall|k: int|
        0 <= k < answers.len() && (#[trigger] answers[k]) is Some && asked_at(kids, answers, k)
            is Some ==> answers[k].unwrap().id == asked_at(kids, answers, k).unwrap()
}

/// Once every child has had its answer, answers that come after are not
/// read: resolution against a longer run of answers is resolution against
/// the part that was read.
pub proof fn lemma_resolve_reads_a_prefix(kids: Seq<i64>, answers: Seq<Answer>, m: int)
    requires
        resolve(kids, answers).awaiting is None,
        resolve(kids, answers).used <= m <= answers.len(),
    ensures
        resolve(kids, answers.take(m)) == resolve(kids, answers),
    decreases answers.len(), kids.len(),
{
    let shorter = answers.take(m);
    if kids.len() == 0 {
    } else {
        let later = answers.drop_first();
        assert(shorter.drop_first() =~= later.take(m - 1));
        match answers[0] {
            None => {
                lemma_resolve_reads_a_prefix(kids.drop_first(), later, m - 1);
            },
            Some(comment) => {
                let below = resolve(comment.kids, later);
                lemma_resolve_bounds(comment.kids, later);
                lemma_resolve_reads_a_prefix(comment.kids, later, m - 1);
                let rest = unread(answers, 1 + below.used);
                assert(unread(shorter, 1 + below.used) =~= rest.take(m - 1 - below.used));
                lemma_resolve_reads_a_prefix(kids.drop_first(), rest, m - 1 - below.used);
            },
        }
    }
}

/// The thread follows the lists of children. If each comment that is given
/// is the one that was asked for, then the identifiers of the top-level
/// comments are those of `kids`, in the order of `kids`, with gaps where a
/// child was not found; and the same holds between each comment's replies
/// and its own list of children, at every depth.
pub proof fn lemma_thread_follows_kids(kids: Seq<i64>, answers: Seq<Answer>)
    requires
        faithful(kids, answers),
    ensures
        remains_of(ids_of(resolve(kids, answers).forest), kids),
        forall|i: int|
            0 <= i < resolve(kids, answers).forest.len() ==> follows_kids(
                #[trigger] resolve(kids, answers).forest[i],
            ),
    decreases answers.len(), kids.len(),
{
    let whole = resolve(kids, answers);
    if kids.len() == 0 || answers.len() == 0 {
    } else {
        let later = answers.drop_first();
        let siblings = kids.drop_first();
        match answers[0] {
            None => {
                // the answers that follow are faithful to the other children
                assert forall|k: int|
                    0 <= k < later.len() && (#[trigger] later[k]) is Some && asked_at(
                        siblings,
                        later,
                        k,
                    ) is Some implies later[k].unwrap().id == asked_at(siblings, later, k).unwrap() by {
                    let upto = answers.take(k + 1);
                    assert(upto.drop_first() =~= later.take(k));
                }
                lemma_thread_follows_kids(siblings, later);
            },
            Some(comment) => {
                let below = resolve(comment.kids, later);
                let rest = unread(answers, 1 + below.used);
                let after = resolve(siblings, rest);
                lemma_resolve_bounds(comment.kids, later);
                // the comment is the first child; the answers that follow
                // are faithful to the comment's own children
                assert forall|k: int|
                    0 <= k < later.len() && (#[trigger] later[k]) is Some && asked_at(
                        comment.kids,
                        later,
                        k,
                    ) is Some implies later[k].unwrap().id == asked_at(
                    comment.kids,
                    later,
                    k,
                ).unwrap() by {
                    let upto = answers.take(k + 1);
                    assert(upto.drop_first() =~= later.take(k));
                }
                lemma_thread_follows_kids(comment.kids, later);
                // and those after them to the other children
                assert forall|k: int|
                    0 <= k < rest.len() && (#[trigger] rest[k]) is Some && asked_at(
                        siblings,
                        rest,
                        k,
                    ) is Some implies rest[k].unwrap().id == asked_at(siblings, rest, k).unwrap() by {
                    let at = 1 + below.used + k;
                    let upto = answers.take(at);
                    assert(upto.drop_first() =~= later.take(below.used + k));
                    lemma_resolve_reads_a_prefix(comment.kids, later, below.used + k);
                    assert(unread(upto, 1 + below.used) =~= rest.take(k));
                }
                lemma_thread_follows_kids(siblings, rest);
                assert(ids_of(whole.forest).drop_first() =~= ids_of(after.forest));
            },
        }
    }
}

/// One level of the path from the thread's root down to the comment whose
/// child is being asked for, as mathematical values.
struct LevelView {
    /// The comment whose children this level resolves; none at the root.
    node: Option<CommentView>,
    /// The children of this level.
    kids: Seq<i64>,
    /// The index in `kids` of the child that is being resolved.
    next: int,
    /// The children found so far.
    found: Seq<CommentView>,
}

/// The path after its deepest level has been closed with `replies` and its
/// comment handed to the level above, which moves on to its next child.
spec fn handed_up(path: Seq<LevelView>, replies: Seq<CommentView>) -> Seq<LevelView>
    recommends
        path.len() >= 2,
        path.last().node is Some,
{
    let top = path.last();
    let parent = path[path.len() - 2];
    path.take(path.len() - 2).push(
        LevelView {
            next: parent.next + 1,
            found: parent.found.push(with_replies(top.node.unwrap(), replies)),
            ..parent
        },
    )
}

/// Goes on from `path` with the answers that are still to come: the deepest
/// level resolves the children it has left, hands its comment up, and so
/// does each level above with the answers that are left for it.
spec fn resume(path: Seq<LevelView>, answers: Seq<Answer>) -> Resolution
    decreases path.len(),
{
    if path.len() == 0 {
        Resolution { forest: Seq::empty(), used: 0, awaiting: None }
    } else {
        let top = path.last();
        let here = resolve(top.kids.skip(top.next), answers);
        let forest = top.found + here.forest;
        if path.len() == 1 {
            Resolution { forest, used: here.used, awaiting: here.awaiting }
        } else {
            let above = resume(handed_up(path, forest), unread(answers, here.used));
            Resolution {
                forest: above.forest,
                used: here.used + above.used,
                awaiting: first_of(here.awaiting, above.awaiting),
            }
        }
    }
}

/// The same resolution with one more answer counted as read.
spec fn one_more(resolution: Resolution) -> Resolution {
    Resolution { used: resolution.used + 1, ..resolution }
}

/// The path as it is while the deepest level's next child is resolved: the
/// other levels, and the deepest with `next` and `found` as given.
spec fn with_top(path: Seq<LevelView>, next: int, found: Seq<CommentView>) -> Seq<
    LevelView,
> {
    path.drop_last().push(LevelView { next, found, ..path.last() })
}

/// The level that resolves the children of `comment`, before any has been
/// asked for.
spec fn opened(comment: CommentView) -> LevelView {
    LevelView { node: Some(comment), kids: comment.kids, next: 0, found: Seq::empty() }
}

proof fn lemma_unread_after_first(first: Answer, answers: Seq<Answer>, used: nat)
    ensures
        unread(seq![first] + answers, 1 + used) == unread(answers, used),
{
}

proof fn lemma_unread_twice(answers: Seq<Answer>, first: nat, second: nat)
    ensures
        unread(unread(answers, first), second) == unread(answers, first + second),
{
}

/// An answer of nothing moves the deepest level on to its next child.
proof fn lemma_resume_after_miss(path: Seq<LevelView>, answers: Seq<Answer>)
    requires
        path.len() >= 1,
        0 <= path.last().next < path.last().kids.len(),
    ensures
        resume(path, seq![None::<CommentView>] + answers) == one_more(
            resume(with_top(path, path.last().next + 1, path.last().found), answers),
        ),
{
    let top = path.last();
    let fed = seq![None::<CommentView>] + answers;
    let rest = resolve(top.kids.skip(top.next + 1), answers);
    // the deepest level leaves the child out and resolves the others as before
    assert(top.kids.skip(top.next).drop_first() =~= top.kids.skip(top.next + 1));
    assert(fed.drop_first() =~= answers);
    if path.len() > 1 {
        // and hands up the same comment, with the same answers left to read
        let forest = top.found + rest.forest;
        let moved = with_top(path, top.next + 1, top.found);
        lemma_unread_after_first(None, answers, rest.used);
        assert(handed_up(path, forest) =~= handed_up(moved, forest));
    }
}

/// An answer that is a comment opens a level for that comment's children.
proof fn lemma_resume_after_hit(path: Seq<LevelView>, comment: CommentView, answers: Seq<Answer>)
    requires
        path.len() >= 1,
        0 <= path.last().next < path.last().kids.len(),
    ensures
        resume(path, seq![Some(comment)] + answers) == one_more(
            resume(path.push(opened(comment)), answers),
        ),
{
    let top = path.last();
    let fed = seq![Some(comment)] + answers;
    let below = resolve(comment.kids, answers);
    let later = unread(answers, below.used);
    let rest = resolve(top.kids.skip(top.next + 1), later);
    let node = with_replies(comment, below.forest);
    let forest = top.found.push(node) + rest.forest;
    // fed the comment, the deepest level resolves the comment's children
    // and then the children that it has left itself
    assert(top.kids.skip(top.next).drop_first() =~= top.kids.skip(top.next + 1));
    assert(fed.drop_first() =~= answers);
    lemma_unread_after_first(Some(comment), answers, below.used);
    assert(top.found + (seq![node] + rest.forest) =~= forest);
    // the level that was opened resolves the comment's children and hands
    // the comment up; the level below goes on as the deepest
    let closed = handed_up(path.push(opened(comment)), below.forest);
    assert(comment.kids.skip(0) =~= comment.kids);
    if path.len() > 1 {
        lemma_unread_after_first(Some(comment), answers, below.used + rest.used);
        lemma_unread_twice(answers, below.used, rest.used);
        assert(handed_up(path, forest) =~= handed_up(closed, forest));
        assert(resume(closed, later).forest == resume(
            handed_up(path, forest),
            unread(later, rest.used),
        ).forest);
    } else {
        assert(resume(closed, later).forest == forest);
    }
}

/// A level with no child left is closed: its comment, with what was found
/// for it, goes to the level above.
proof fn lemma_resume_after_close(path: Seq<LevelView>, answers: Seq<Answer>)
    requires
        path.len() >= 2,
        path.last().next == path.last().kids.len(),
    ensures
        resume(path, answers) == resume(handed_up(path, path.last().found), answers),
{
    assert(unread(answers, 0) =~= answers);
}

/// With no answer to come, closing the deepest level early changes nothing
/// in what has been found.
proof fn lemma_forest_after_fold(path: Seq<LevelView>)
    requires
        path.len() >= 2,
        0 <= path.last().next <= path.last().kids.len(),
    ensures
        resume(path, Seq::empty()).forest == resume(
            handed_up(path, path.last().found),
            Seq::empty(),
        ).forest,
{
    let top = path.last();
    let none = Seq::<Answer>::empty();
    assert(resolve(top.kids.skip(top.next), none).used == 0);
    assert(unread(none, 0) =~= none);
}

/// One level of the path from the thread's root down to the comment whose
/// child is being asked for.
struct Level {
    /// The comment whose children this level resolves; none at the root.
    node: Option<Comment>,
    /// The index, in the list of children, of the child being resolved.
    next: usize,
    /// The children found so far.
    found: Vec<Comment>,
}

spec fn level_view(roots: Seq<i64>, level: Level) -> LevelView {
    match level.node {
        Some(comment) => LevelView {
            node: Some(comment@),
            kids: comment.kids@,
            next: level.next as int,
            found: comment_views(level.found@),
        },
        None => LevelView {
            node: None,
            kids: roots,
            next: level.next as int,
            found: comment_views(level.found@),
        },
    }
}

spec fn path_view(roots: Seq<i64>, path: Seq<Level>) -> Seq<LevelView> {
    Seq::new(path.len(), |i: int| level_view(roots, path[i]))
}

/// The root is at the bottom, every level above it resolves a comment's own
/// children, and every level but the deepest is in the middle of a child.
spec fn shaped(path: Seq<LevelView>) -> bool {
    &&& path.len() >= 1
    &&& path[0].node is None
    &&& forall|i: int|
        1 <= i < path.len() ==> (#[trigger] path[i]).node is Some && path[i].kids
            == path[i].node.unwrap().kids
    &&& forall|i: int| 0 <= i < path.len() ==> 0 <= (#[trigger] path[i]).next <= path[i].kids.len()
    &&& forall|i: int| 0 <= i < path.len() - 1 ==> (#[trigger] path[i]).next < path[i].kids.len()
}

/// No level above the root is left open without a child to ask for.
spec fn settled(path: Seq<LevelView>) -> bool {
    path.len() >= 2 ==> path.last().next < path.last().kids.len()
}

/// Going on from `path` is going on from the answers given so far: whatever
/// answers come later, the thread comes out as if `kids` had been resolved
/// against all the answers from the start.
spec fn tracks(path: Seq<LevelView>, kids: Seq<i64>, answers: Seq<Answer>) -> bool {
    forall|later: Seq<Answer>|
        {
            let rest = #[trigger] resume(path, later);
            let whole = resolve(kids, answers + later);
            &&& whole.forest == rest.forest
            &&& whole.awaiting == rest.awaiting
            &&& whole.used == answers.len() + rest.used
        }
}

/// The path that a thread starts on: the root alone, with nothing asked.
spec fn start(kids: Seq<i64>) -> Seq<LevelView> {
    seq![LevelView { node: None, kids, next: 0, found: Seq::empty() }]
}

/// The path after the answer `given` has been taken, before any level that
/// it completes has been closed.
spec fn taken(path: Seq<LevelView>, given: Answer) -> Seq<LevelView> {
    match given {
        Some(comment) => path.push(opened(comment)),
        None => with_top(path, path.last().next + 1, path.last().found),
    }
}

proof fn lemma_tracks_from_the_start(kids: Seq<i64>)
    ensures
        shaped(start(kids)),
        settled(start(kids)),
        tracks(start(kids), kids, Seq::empty()),
{
    let none = Seq::<Answer>::empty();
    assert(kids.skip(0) =~= kids);
    assert forall|later: Seq<Answer>|
        {
            let rest = #[trigger] resume(start(kids), later);
            let whole = resolve(kids, none + later);
            &&& whole.forest == rest.forest
            &&& whole.awaiting == rest.awaiting
            &&& whole.used == none.len() + rest.used
        } by {
        assert(none + later =~= later);
        assert(Seq::<CommentView>::empty() + resolve(kids, later).forest =~= resolve(
            kids,
            later,
        ).forest);
    }
}

/// Where a thread stands: the request that is waiting is the one for the
/// deepest level's next child, and what has been found is what the path
/// holds.
proof fn lemma_where_it_stands(path: Seq<LevelView>, kids: Seq<i64>, answers: Seq<Answer>)
    requires
        shaped(path),
        settled(path),
        tracks(path, kids, answers),
    ensures
        resolve(kids, answers).forest == resume(path, Seq::empty()).forest,
        resolve(kids, answers).awaiting == if path.last().next < path.last().kids.len() {
            Some(path.last().kids[path.last().next])
        } else {
            None::<i64>
        },
{
    let none = Seq::<Answer>::empty();
    let top = path.last();
    assert(answers + none =~= answers);
    assert(resume(path, none).awaiting == resolve(top.kids.skip(top.next), none).awaiting);
}

proof fn lemma_tracks_after_answer(
    path: Seq<LevelView>,
    kids: Seq<i64>,
    answers: Seq<Answer>,
    given: Answer,
)
    requires
        shaped(path),
        path.last().next < path.last().kids.len(),
        tracks(path, kids, answers),
    ensures
        shaped(taken(path, given)),
        tracks(taken(path, given), kids, answers.push(given)),
{
    let after = taken(path, given);
    let now = answers.push(given);
    assert forall|i: int| 0 <= i < path.len() - 1 implies #[trigger] after[i] == path[i] by {}
    assert forall|later: Seq<Answer>|
        {
            let rest = #[trigger] resume(after, later);
            let whole = resolve(kids, now + later);
            &&& whole.forest == rest.forest
            &&& whole.awaiting == rest.awaiting
            &&& whole.used == now.len() + rest.used
        } by {
        let fed = seq![given] + later;
        assert(now + later =~= answers + fed);
        assert(resolve(kids, answers + fed).forest == resume(path, fed).forest);
        match given {
            Some(comment) => {
                lemma_resume_after_hit(path, comment, later);
            },
            None => {
                lemma_resume_after_miss(path, later);
            },
        }
    }
}

proof fn lemma_tracks_after_close(path: Seq<LevelView>, kids: Seq<i64>, answers: Seq<Answer>)
    requires
        path.len() >= 2,
        path.last().next == path.last().kids.len(),
        tracks(path, kids, answers),
    ensures
        tracks(handed_up(path, path.last().found), kids, answers),
{
    let closed = handed_up(path, path.last().found);
    assert forall|later: Seq<Answer>|
        {
            let rest = #[trigger] resume(closed, later);
            let whole = resolve(kids, answers + later);
            &&& whole.forest == rest.forest
            &&& whole.awaiting == rest.awaiting
            &&& whole.used == answers.len() + rest.used
        } by {
        lemma_resume_after_close(path, later);
        assert(resolve(kids, answers + later).forest == resume(path, later).forest);
    }
}

/// What was given in answer to a request, as mathematical values.
pub open spec fn answer_view(answer: Option<Comment>) -> Answer {
    match answer {
        Some(comment) => Some(comment@),
        None => None,
    }
}

/// What a `ThreadBuilder` has been given, as mathematical values.
pub struct ThreadView {
    /// The children that the thread starts from.
    pub kids: Seq<i64>,
    /// The answers given so far, in the order in which they were asked for.
    pub answers: Seq<Answer>,
}

/// A discussion thread under construction.
///
/// The builder says which comment it needs next; whoever fetches comments
/// gives the answer. The builder keeps its place in the tree on a stack of
/// its own, so a thread may nest to any depth.
pub struct ThreadBuilder {
    roots: Vec<i64>,
    path: Vec<Level>,
    answers: Ghost<Seq<Answer>>,
}

impl View for ThreadBuilder {
    type V = ThreadView;

    closed spec fn view(&self) -> ThreadView {
        ThreadView { kids: self.roots@, answers: self.answers@ }
    }
}

/// Whether the deepest level is above the root and has no child left.
fn top_is_done(path: &Vec<Level>, kids: &Vec<i64>) -> (done: bool)
    requires
        shaped(path_view(kids@, path@)),
    ensures
        done == (path.len() >= 2 && path_view(kids@, path@).last().next == path_view(
            kids@,
            path@,
        ).last().kids.len()),
{
    if path.len() < 2 {
        return false;
    }
    let top = &path[path.len() - 1];
    match &top.node {
        Some(comment) => top.next == comment.kids.len(),
        None => false,
    }
}

/// Closing the deepest level leaves the path in shape.
proof fn lemma_handed_up_is_shaped(path: Seq<LevelView>, replies: Seq<CommentView>)
    requires
        shaped(path),
        path.len() >= 2,
    ensures
        shaped(handed_up(path, replies)),
{
    let after = handed_up(path, replies);
    assert forall|i: int| 0 <= i < after.len() implies (#[trigger] after[i]).node == path[i].node
        && after[i].kids == path[i].kids && path[i].next <= after[i].next <= path[i].kids.len()
        && (i < after.len() - 1 ==> after[i].next == path[i].next) by {}
}

/// Closes the deepest level: its comment takes what was found as its
/// replies and goes to the level above, which moves on to its next child.
fn hand_up(path: &mut Vec<Level>, kids: &Vec<i64>)
    requires
        old(path).len() >= 2,
        shaped(path_view(kids@, old(path)@)),
    ensures
        final(path).len() == old(path).len() - 1,
        path_view(kids@, final(path)@) == handed_up(
            path_view(kids@, old(path)@),
            path_view(kids@, old(path)@).last().found,
        ),
        shaped(path_view(kids@, final(path)@)),
{
    let ghost before = path_view(kids@, path@);
    let top = path.pop().unwrap();
    let mut parent = path.pop().unwrap();
    let ghost above = level_view(kids@, parent);
    let mut node = top.node.unwrap();
    node.sub_comments = top.found;
    parent.found.push(node);
    proof {
        // the level above is in the middle of a child, so its index can move on
        assert(above == before[before.len() - 2]);
        assert(above.next < above.kids.len() <= usize::MAX) by {
            if parent.node is Some {
                assert(parent.node.unwrap().kids.len() <= usize::MAX);
            } else {
                assert(kids.len() <= usize::MAX);
            }
        }
        assert(comment_views(parent.found@) =~= above.found.push(node@));
    }
    parent.next = parent.next + 1;
    path.push(parent);
    proof {
        assert(path_view(kids@, path@) =~= handed_up(before, before.last().found));
        lemma_handed_up_is_shaped(before, before.last().found);
    }
}

impl ThreadBuilder {
    #[verifier::type_invariant]
    spec fn sound(self) -> bool {
        &&& shaped(path_view(self.roots@, self.path@))
        &&& settled(path_view(self.roots@, self.path@))
        &&& tracks(path_view(self.roots@, self.path@), self.roots@, self.answers@)
    }

    /// How far the thread has been resolved by the answers given so far.
    pub open spec fn resolution(&self) -> Resolution {
        resolve(self@.kids, self@.answers)
    }

    /// Starts a thread from the children `kids` of a story or a comment.
    /// Nothing has been asked for yet.
    pub fn new(kids: Vec<i64>) -> (builder: ThreadBuilder)
        ensures
            builder@.kids == kids@,
            builder@.answers == Seq::<Answer>::empty(),
    {
        let mut path: Vec<Level> = Vec::new();
        path.push(Level { node: None, next: 0, found: Vec::new() });
        proof {
            lemma_tracks_from_the_start(kids@);
            assert(path_view(kids@, path@)[0].found =~= Seq::<CommentView>::empty());
            assert(path_view(kids@, path@) =~= start(kids@));
        }
        ThreadBuilder { roots: kids, path, answers: Ghost(Seq::empty()) }
    }

    /// The identifier of the comment that the thread needs next; none once
    /// every child, at every depth, has had its answer.
    pub fn awaiting(&self) -> (id: Option<i64>)
        ensures
            id == self.resolution().awaiting,
    {
        proof {
            use_type_invariant(self);
            lemma_where_it_stands(path_view(self.roots@, self.path@), self.roots@, self.answers@);
        }
        let top = &self.path[self.path.len() - 1];
        let kids: &Vec<i64> = match &top.node {
            Some(comment) => &comment.kids,
            None => &self.roots,
        };
        if top.next < kids.len() {
            Some(kids[top.next])
        } else {
            None
        }
    }

    /// Whether every child, at every depth, has had its answer.
    pub fn is_complete(&self) -> (complete: bool)
        ensures
            complete == self.resolution().awaiting is None,
    {
        self.awaiting().is_none()
    }

    /// Takes the answer to the request that `awaiting` names: the comment,
    /// or nothing if it was not found. A comment's own children are asked
    /// for next; a child that was not found is left out and its next
    /// sibling is asked for.
    ///
    /// When no request is waiting, the answer is dropped and the builder
    /// stays as it is.
    pub fn supply(self, answer: Option<Comment>) -> (next: ThreadBuilder)
        ensures
            next@.kids == self@.kids,
            next@.answers == if self.resolution().awaiting is Some {
                self@.answers.push(answer_view(answer))
            } else {
                self@.answers
            },
    {
        if self.awaiting().is_none() {
            return self;
        }
        let ghost given = answer_view(answer);
        let ghost before = path_view(self.roots@, self.path@);
        let ghost now = self.answers@.push(given);
        proof {
            use_type_invariant(&self);
            lemma_where_it_stands(before, self.roots@, self.answers@);
            lemma_tracks_after_answer(before, self.roots@, self.answers@, given);
        }
        let ThreadBuilder { roots, mut path, answers } = self;
        match answer {
            Some(comment) => {
                path.push(Level { node: Some(comment), next: 0, found: Vec::new() });
                assert(path_view(roots@, path@).last().found =~= Seq::<CommentView>::empty());
            },
            None => {
                let mut top = path.pop().unwrap();
                assert(before.last().kids.len() <= usize::MAX) by {
                    if top.node is Some {
                        assert(top.node.unwrap().kids.len() <= usize::MAX);
                    } else {
                        assert(roots.len() <= usize::MAX);
                    }
                }
                top.next = top.next + 1;
                path.push(top);
            },
        }
        assert(path_view(roots@, path@) =~= taken(before, given));
        while top_is_done(&path, &roots)
            invariant
                shaped(path_view(roots@, path@)),
                tracks(path_view(roots@, path@), roots@, now),
            decreases path.len(),
        {
            proof {
                lemma_tracks_after_close(path_view(roots@, path@), roots@, now);
            }
            hand_up(&mut path, &roots);
        }
        ThreadBuilder { roots, path, answers: Ghost(now) }
    }

    /// Ends the construction and hands over the thread as far as it has
    /// been resolved: the top-level comments found, in display order, each
    /// with the replies found for it. Children that are still waiting for
    /// an answer are left out, like those that were not found.
    pub fn finish(self) -> (forest: Vec<Comment>)
        ensures
            comment_views(forest@) == self.resolution().forest,
            forest.len() <= self@.kids.len(),
    {
        let ghost target = self.resolution().forest;
        proof {
            use_type_invariant(&self);
            lemma_resolve_bounds(self.roots@, self.answers@);
            lemma_where_it_stands(path_view(self.roots@, self.path@), self.roots@, self.answers@);
        }
        let ThreadBuilder { roots, mut path, answers } = self;
        while path.len() > 1
            invariant
                shaped(path_view(roots@, path@)),
                resume(path_view(roots@, path@), Seq::empty()).forest == target,
            decreases path.len(),
        {
            proof {
                lemma_forest_after_fold(path_view(roots@, path@));
            }
            hand_up(&mut path, &roots);
        }
        let ghost root_view = path_view(roots@, path@)[0];
        let root = path.pop().unwrap();
        assert(resolve(root_view.kids.skip(root_view.next), Seq::empty()).used == 0);
        root.found
    }
}

/// Whether `answers` is a run of answers that `fetch` gave: each answer is
/// something that `fetch` can return for the identifier that it is for.
pub open spec fn given_by<F: Fn(i64) -> Option<Comment>>(
    fetch: F,
    kids: Seq<i64>,
    answers: Seq<Answer>,
) -> bool {
    forall|k: int|
        0 <= k < answers.len() ==> (#[trigger] asked_at(kids, answers, k)) is Some && exists|
            given: Option<Comment>,
        | #[trigger]
            call_ensures(fetch, (asked_at(kids, answers, k).unwrap(),), given) && answer_view(given)
                == answers[k]
}

/// Resolves the children `kids` into a thread, asking `fetch` for one
/// comment at a time, depth first and left to right.
///
/// `fetch` returns the comment with the given identifier, or nothing if it
/// cannot be had; why it cannot is of no concern here. A child that is not
/// found is left out and the rest of the thread is still built. At most
/// `limit` requests are made: a thread that needs more comes back as far as
/// it got.
pub fn resolve_thread<F: Fn(i64) -> Option<Comment>>(kids: Vec<i64>, fetch: F, limit: usize) -> (forest:
    Vec<Comment>)
    requires
        forall|id: i64| call_requires(fetch, (id,)),
    ensures
        exists|answers: Seq<Answer>|
            {
                &&& answers.len() <= limit
                &&& given_by(fetch, kids@, answers)
                &&& resolve(kids@, answers).awaiting is None || answers.len() == limit
                &&& comment_views(forest@) == #[trigger] resolve(kids@, answers).forest
            },
        forest.len() <= kids.len(),
{
    let ghost from = kids@;
    let mut builder = ThreadBuilder::new(kids);
    let mut asked: usize = 0;
    let mut next = builder.awaiting();
    let ghost mut answers: Seq<Answer> = Seq::empty();
    while asked < limit && next.is_some()
        invariant
            forall|id: i64| call_requires(fetch, (id,)),
            builder@.kids == from,
            builder@.answers == answers,
            answers.len() == asked,
            asked <= limit,
            next == resolve(from, answers).awaiting,
            given_by(fetch, from, answers),
        decreases limit - asked,
    {
        let id = next.unwrap();
        let answer = fetch(id);
        proof {
            let longer = answers.push(answer_view(answer));
            assert forall|k: int| 0 <= k < longer.len() implies (#[trigger] asked_at(
                from,
                longer,
                k,
            )) is Some && exists|given: Option<Comment>| #[trigger]
                call_ensures(fetch, (asked_at(from, longer, k).unwrap(),), given) && answer_view(
                    given,
                ) == longer[k] by {
                if k < answers.len() {
                    assert(longer.take(k) =~= answers.take(k));
                    assert(asked_at(from, longer, k) == asked_at(from, answers, k));
                } else {
                    assert(longer.take(k) =~= answers);
                }
            }
            answers = longer;
        }
        builder = builder.supply(answer);
        asked = asked + 1;
        next = builder.awaiting();
    }
    builder.finish()
}

impl StoryPageData {
    /// Builds the page of a story: the story as it is, and under it the
    /// thread of its comments, fetched one at a time as `resolve_thread`
    /// does, with at most `limit` requests.
    pub fn assemble<F: Fn(i64) -> Option<Comment>>(item: StoryItem, fetch: F, limit: usize) -> (page:
        StoryPageData)
        requires
            forall|id: i64| call_requires(fetch, (id,)),
        ensures
            page.item == item,
            exists|answers: Seq<Answer>|
                {
                    &&& answers.len() <= limit
                    &&& given_by(fetch, item.kids@, answers)
                    &&& resolve(item.kids@, answers).awaiting is None || answers.len() == limit
                    &&& page@.comments == #[trigger] resolve(item.kids@, answers).forest
                },
            page.comments.len() <= item.kids.len(),
    {
        let kids = item.kids.clone();
        let comments = resolve_thread(kids, fetch, limit);
        StoryPageData { item, comments }
    }
}

} // verus!
