//! Depth-first search of a directory tree for a file, written as a state
//! machine that asks for one directory listing at a time.
//!
//! The meaning of a search is [`search_dir`]: walk the listing of a
//! directory in order; a file that matches ends the search; a directory
//! that may be entered is searched completely before the next entry. The
//! machine keeps the unfinished listings on an explicit stack; the law
//! [`search_run_is_depth_first_search`] shows that, answered from any fixed
//! tree, it always finishes and finds exactly what [`search_dir`] finds.
use vstd::prelude::*;

use crate::process::{entries_view, DirEntry, EntryKind, EntryView, Event, Move, Next, Op, OpView};
use crate::text::{
    ascii_lower, chars_equal, chars_of, contains_chars, ends_with_chars, eq_ignore_ascii_case,
    seq_contains, seq_ends_with, to_ascii_lowercase,
};

verus! {

/// Which file names a search is looking for.
#[derive(Debug, Clone, PartialEq, Eq)]
pub enum Matcher {
    /// A name equal to one of these, ignoring ASCII case.
    AnyName(Vec<String>),
    /// An `.exe` whose name contains this text, both ignoring ASCII case.
    ExeContaining(String),
    /// A name whose extension is `exe`, ignoring ASCII case.
    ExeExtension,
}

/// The mathematical value of a [`Matcher`].
pub enum MatcherView {
    AnyName(Seq<Seq<char>>),
    ExeContaining(Seq<char>),
    ExeExtension,
}

impl View for Matcher {
    type V = MatcherView;

    open spec fn view(&self) -> MatcherView {
        match self {
            Matcher::AnyName(v) => MatcherView::AnyName(v.deep_view()),
            Matcher::ExeContaining(n) => MatcherView::ExeContaining(n@),
            Matcher::ExeExtension => MatcherView::ExeExtension,
        }
    }
}

/// Whether `name` equals one of `candidates`, ignoring ASCII case.
pub open spec fn equals_any(candidates: Seq<Seq<char>>, name: Seq<char>) -> bool {
    exists|i: int| 0 <= i < candidates.len() && ascii_lower(name) == ascii_lower(#[trigger] candidates[i])
}

/// Whether a directory entry is one the matcher is looking for: by its
/// name for the first two kinds (an entry whose name is not valid Unicode
/// never matches them), by its extension for the last.
pub open spec fn entry_matches(m: MatcherView, e: EntryView) -> bool {
    match m {
        MatcherView::AnyName(candidates) => e.name matches Some(name) && equals_any(
            candidates,
            name,
        ),
        MatcherView::ExeContaining(needle) => e.name matches Some(name) && seq_ends_with(
            ascii_lower(name),
            ".exe"@,
        ) && seq_contains(ascii_lower(name), ascii_lower(needle)),
        MatcherView::ExeExtension => e.extension matches Some(ext) && ascii_lower(ext)
            == "exe"@,
    }
}

/// How a search walks the tree.
#[derive(Debug, Clone, PartialEq, Eq)]
pub struct SearchRules {
    /// The file names sought.
    pub matcher: Matcher,
    /// The deepest level that is listed; the starting directory is level 0.
    pub max_depth: usize,
    /// Whether directories named `windows` (in any case) are left out.
    pub skip_windows: bool,
    /// Whether directories whose names are not valid Unicode are entered.
    pub descend_unnamed: bool,
}

/// The mathematical value of [`SearchRules`].
pub struct RulesView {
    pub matcher: MatcherView,
    pub max_depth: int,
    pub skip_windows: bool,
    pub descend_unnamed: bool,
}

impl View for SearchRules {
    type V = RulesView;

    open spec fn view(&self) -> RulesView {
        RulesView {
            matcher: self.matcher@,
            max_depth: self.max_depth as int,
            skip_windows: self.skip_windows,
            descend_unnamed: self.descend_unnamed,
        }
    }
}

/// The entry is a file that the search is looking for.
pub open spec fn is_hit(r: RulesView, e: EntryView) -> bool {
    e.kind == EntryKind::File && entry_matches(r.matcher, e)
}

/// The entry is a directory that the search enters (depth aside).
pub open spec fn enters(r: RulesView, e: EntryView) -> bool {
    e.kind == EntryKind::Directory && match e.name {
        Some(n) => !(r.skip_windows && ascii_lower(n) == "windows"@),
        None => r.descend_unnamed,
    }
}

/// The first of two results that is present.
pub open spec fn first_some(a: Option<Seq<char>>, b: Option<Seq<char>>) -> Option<Seq<char>> {
    match a {
        Some(x) => Some(x),
        None => b,
    }
}

/// A tree: the listing of each directory path, in the order the system
/// gives it (empty when the directory cannot be read).
pub type Tree = spec_fn(Seq<char>) -> Seq<EntryView>;

/// What searching the directory `path` at level `depth` finds: nothing
/// below `max_depth`, else the first hit of its listing.
pub open spec fn search_dir(t: Tree, r: RulesView, path: Seq<char>, depth: int) -> Option<
    Seq<char>,
>
    decreases 2 * (r.max_depth - depth) + 1, 0int,
{
    if depth > r.max_depth || depth < 0 {
        None
    } else {
        scan(t, r, t(path), depth, 0)
    }
}

/// What the entries `es[i..]` of a directory at level `depth` lead to, in
/// order: a hit is the result; an entered directory is searched first and
/// its result, if any, is the result.
pub open spec fn scan(t: Tree, r: RulesView, es: Seq<EntryView>, depth: int, i: int) -> Option<
    Seq<char>,
>
    decreases 2 * (r.max_depth - depth), es.len() - i,
{
    if i < 0 || i >= es.len() || depth > r.max_depth || depth < 0 {
        None
    } else if is_hit(r, es[i]) {
        Some(es[i].path)
    } else if enters(r, es[i]) && depth < r.max_depth {
        first_some(search_dir(t, r, es[i].path, depth + 1), scan(t, r, es, depth, i + 1))
    } else {
        scan(t, r, es, depth, i + 1)
    }
}

/// A directory listing being walked: the entries, the index of the next
/// one, and the directory's level.
pub struct Frame {
    entries: Vec<DirEntry>,
    next: usize,
    depth: usize,
}

/// The mathematical value of a [`Frame`].
pub struct FrameView {
    pub entries: Seq<EntryView>,
    pub next: int,
    pub depth: int,
}

impl View for Frame {
    type V = FrameView;

    closed spec fn view(&self) -> FrameView {
        FrameView {
            entries: entries_view(self.entries@),
            next: self.next as int,
            depth: self.depth as int,
        }
    }
}

/// A search waiting for the listing of `pending`, a directory at level
/// `pending_depth`, with the listings it has not finished below it.
pub struct Search {
    rules: SearchRules,
    stack: Vec<Frame>,
    pending: String,
    pending_depth: usize,
}

/// The mathematical value of a [`Search`].
pub struct SearchView {
    pub rules: RulesView,
    pub stack: Seq<FrameView>,
    pub pending: Seq<char>,
    pub pending_depth: int,
}

/// The view of a stack of frames.
pub open spec fn stack_view(s: Seq<Frame>) -> Seq<FrameView> {
    s.map_values(|f: Frame| f@)
}

impl View for Search {
    type V = SearchView;

    closed spec fn view(&self) -> SearchView {
        SearchView {
            rules: self.rules@,
            stack: stack_view(self.stack@),
            pending: self.pending@,
            pending_depth: self.pending_depth as int,
        }
    }
}

/// Entries of a frame not yet looked at.
pub open spec fn remaining(f: FrameView) -> int {
    if 0 <= f.next < f.entries.len() {
        f.entries.len() - f.next
    } else {
        0
    }
}

/// The work left in a stack of frames.
pub open spec fn work(s: Seq<FrameView>) -> int
    decreases s.len(),
{
    if s.len() == 0 {
        0
    } else {
        work(s.drop_last()) + 1 + remaining(s.last())
    }
}

/// The stack with its top frame moved past its next entry.
pub open spec fn bump(s: Seq<FrameView>) -> Seq<FrameView> {
    s.update(s.len() - 1, FrameView { next: s.last().next + 1, ..s.last() })
}

/// The work left in a stack is never negative.
pub proof fn lemma_work_nonneg(s: Seq<FrameView>)
    ensures
        work(s) >= 0,
    decreases s.len(),
{
    if s.len() > 0 {
        lemma_work_nonneg(s.drop_last());
    }
}

/// Moving the top frame past an entry leaves less work.
pub proof fn lemma_work_bump(s: Seq<FrameView>)
    requires
        s.len() > 0,
        0 <= s.last().next < s.last().entries.len(),
    ensures
        0 <= work(bump(s)) < work(s),
        bump(s).drop_last() == s.drop_last(),
        bump(s).last() == (FrameView { next: s.last().next + 1, ..s.last() }),
{
    assert(bump(s).drop_last() =~= s.drop_last());
    lemma_work_nonneg(bump(s));
}

/// A search's next move, once the frames of `stack` are what is left: go
/// through the top frame; a hit ends the search; a directory to enter is
/// asked for; an exhausted frame is dropped; an empty stack means nothing
/// was found.
pub open spec fn advance(r: RulesView, s: Seq<FrameView>) -> Move<SearchView, Option<Seq<char>>>
    decreases work(s),
{
    if s.len() == 0 {
        Move::Done(None)
    } else if !(0 <= s.last().next < s.last().entries.len()) {
        proof {
            lemma_work_nonneg(s.drop_last());
        }
        advance(r, s.drop_last())
    } else {
        let e = s.last().entries[s.last().next];
        let d = s.last().depth;
        if is_hit(r, e) {
            Move::Done(Some(e.path))
        } else if enters(r, e) && d < r.max_depth {
            Move::Continue(
                SearchView { rules: r, stack: bump(s), pending: e.path, pending_depth: d + 1 },
                OpView::ReadDir(e.path),
            )
        } else {
            proof {
                lemma_work_bump(s);
            }
            advance(r, bump(s))
        }
    }
}

/// The listing an event gives (empty when the directory could not be read).
pub open spec fn listing_or_empty(ev: crate::process::EventView) -> Seq<EntryView> {
    match ev {
        crate::process::EventView::Listing(v) => v,
        _ => Seq::empty(),
    }
}

/// A search's move when the listing of the directory it waits for arrives.
pub open spec fn search_next(v: SearchView, ev: crate::process::EventView) -> Move<
    SearchView,
    Option<Seq<char>>,
> {
    advance(
        v.rules,
        v.stack.push(FrameView { entries: listing_or_empty(ev), next: 0, depth: v.pending_depth }),
    )
}

/// The search that starts by listing `root` at level 0.
pub open spec fn search_start(r: RulesView, root: Seq<char>) -> SearchView {
    SearchView { rules: r, stack: Seq::empty(), pending: root, pending_depth: 0 }
}

/// The view of a search's result.
pub open spec fn found_view(r: Option<String>) -> Option<Seq<char>> {
    r.deep_view()
}

/// The view of a search's move.
pub open spec fn search_move(n: Next<Search, Option<String>>) -> Move<SearchView, Option<Seq<char>>> {
    match n {
        Next::Continue(m, op) => Move::Continue(m@, op@),
        Next::Done(x) => Move::Done(found_view(x)),
    }
}

/// Whether an entry is one the search is looking for.
fn entry_hits(rules: &SearchRules, e: &DirEntry) -> (b: bool)
    ensures
        b == is_hit(rules@, e@),
{
    if e.kind != EntryKind::File {
        return false;
    }
    match &rules.matcher {
        Matcher::AnyName(candidates) => {
            let name = match &e.name {
                Some(n) => n,
                None => return false,
            };
            let n = candidates.len();
            for i in 0..n
                invariant
                    n == candidates@.len(),
                    rules@.matcher == MatcherView::AnyName(candidates.deep_view()),
                    e@.name == Some(name@),
                    e@.kind == EntryKind::File,
                    forall|k: int|
                        0 <= k < i ==> ascii_lower(name@) != ascii_lower(
                            #[trigger] candidates.deep_view()[k],
                        ),
            {
                if eq_ignore_ascii_case(name.as_str(), candidates[i].as_str()) {
                    let ghost cs = candidates.deep_view();
                    assert(cs.len() == candidates@.len());
                    assert(cs[i as int] == candidates@[i as int]@);
                    assert(ascii_lower(name@) == ascii_lower(cs[i as int]));
                    return true;
                }
            }
            false
        },
        Matcher::ExeContaining(needle) => {
            let name = match &e.name {
                Some(n) => n,
                None => return false,
            };
            let lower = to_ascii_lowercase(name.as_str());
            let exe = chars_of(".exe");
            let lower_needle = to_ascii_lowercase(needle.as_str());
            ends_with_chars(&lower, &exe) && contains_chars(&lower, &lower_needle)
        },
        Matcher::ExeExtension => match &e.extension {
            Some(ext) => {
                let lower = to_ascii_lowercase(ext.as_str());
                let exe = chars_of("exe");
                chars_equal(&lower, &exe)
            },
            None => false,
        },
    }
}

/// Whether the search enters a directory entry (depth aside).
fn entry_enters(rules: &SearchRules, e: &DirEntry) -> (b: bool)
    ensures
        b == enters(rules@, e@),
{
    if e.kind != EntryKind::Directory {
        return false;
    }
    proof {
        reveal_strlit("windows");
        assert(ascii_lower("windows"@) =~= "windows"@);
    }
    match &e.name {
        Some(n) => !(rules.skip_windows && eq_ignore_ascii_case(n.as_str(), "windows")),
        None => rules.descend_unnamed,
    }
}

impl Search {
    /// A search of the tree under `root`; it starts by listing `root`.
    pub fn start(root: String, rules: SearchRules) -> (r: (Search, Op))
        ensures
            r.0@ == search_start(rules@, root@),
            r.1@ == OpView::ReadDir(root@),
    {
        let op = Op::ReadDir(root.clone());
        let s = Search { rules, stack: Vec::new(), pending: root, pending_depth: 0 };
        assert(s@.stack =~= Seq::<FrameView>::empty());
        (s, op)
    }

    /// The directory this search waits to have listed.
    pub fn pending(&self) -> (r: &String)
        ensures
            r@ == self@.pending,
    {
        &self.pending
    }

    /// Resumes the search with the listing of the directory it waits for
    /// (any other event counts as an empty listing).
    pub fn resume(self, ev: Event) -> (r: Next<Search, Option<String>>)
        ensures
            search_move(r) == search_next(self@, ev@),
    {
        let ghost v0 = self@;
        let Search { rules, mut stack, pending: _, pending_depth } = self;
        let entries = match ev {
            Event::Listing(v) => v,
            _ => Vec::new(),
        };
        assert(entries_view(entries@) =~= listing_or_empty(ev@));
        let frame = Frame { entries, next: 0, depth: pending_depth };
        let ghost old_stack = stack@;
        stack.push(frame);
        proof {
            assert(stack@ == old_stack.push(frame));
            assert(stack_view(stack@) =~= stack_view(old_stack).push(frame@));
            assert(frame@ == FrameView { entries: listing_or_empty(ev@), next: 0, depth: v0.pending_depth });
        }
        let ghost target = search_next(v0, ev@);
        loop
            invariant
                advance(rules@, stack_view(stack@)) == target,
                target == search_next(v0, ev@),
                v0 == self@,
                rules@ == v0.rules,
            decreases work(stack_view(stack@)),
        {
            let ghost s = stack_view(stack@);
            if stack.len() == 0 {
                assert(s.len() == 0);
                let r: Next<Search, Option<String>> = Next::Done(None);
                assert(target == Move::<SearchView, Option<Seq<char>>>::Done(None));
                assert(search_move(r) == Move::<SearchView, Option<Seq<char>>>::Done(None));
                return r;
            }
            let mut top = stack.pop().unwrap();
            proof {
                assert(stack_view(stack@) =~= s.drop_last());
                assert(top@ == s.last());
            }
            if top.next >= top.entries.len() {
                proof {
                    lemma_work_nonneg(s.drop_last());
                }
                continue;
            }
            let i = top.next;
            let d = top.depth;
            proof {
                assert(top@.entries[i as int] == top.entries@[i as int]@);
            }
            if entry_hits(&rules, &top.entries[i]) {
                let found = top.entries[i].path.clone();
                assert(found_view(Some(found)) == Some(found@));
                return Next::Done(Some(found));
            }
            let go_in = entry_enters(&rules, &top.entries[i]);
            let child = top.entries[i].path.clone();
            let ghost before = stack@;
            top.next = i + 1;
            stack.push(top);
            proof {
                lemma_work_bump(s);
                assert(stack@ == before.push(top));
                assert(stack_view(stack@) =~= bump(s));
            }
            if go_in && d < rules.max_depth {
                let op = Op::ReadDir(child.clone());
                let next = Search { rules, stack, pending: child, pending_depth: d + 1 };
                return Next::Continue(next, op);
            }
        }
    }

}

/// What is left to find in the frames of a stack, top first.
pub open spec fn rest(t: Tree, r: RulesView, s: Seq<FrameView>) -> Option<Seq<char>>
    decreases s.len(),
{
    if s.len() == 0 {
        None
    } else {
        first_some(scan(t, r, s.last().entries, s.last().depth, s.last().next), rest(t, r, s.drop_last()))
    }
}

/// What a search waiting for `v.pending` will find in the tree `t`.
pub open spec fn meaning(t: Tree, v: SearchView) -> Option<Seq<char>> {
    first_some(search_dir(t, v.rules, v.pending, v.pending_depth), rest(t, v.rules, v.stack))
}

/// A search in progress that a run from a fixed tree can continue.
pub open spec fn search_ok(v: SearchView) -> bool {
    &&& frames_ok(v.rules, v.stack)
    &&& 0 <= v.pending_depth <= v.rules.max_depth
}

/// Every frame of a stack view is at a level the rules allow.
pub open spec fn frames_ok(r: RulesView, s: Seq<FrameView>) -> bool {
    forall|k: int| 0 <= k < s.len() ==> 0 <= #[trigger] s[k].depth <= r.max_depth && 0 <= s[k].next
}

proof fn lemma_advance_meaning(t: Tree, r: RulesView, s: Seq<FrameView>)
    requires
        frames_ok(r, s),
    ensures
        match advance(r, s) {
            Move::Done(x) => x == rest(t, r, s),
            Move::Continue(v, op) => v.rules == r && frames_ok(r, v.stack) && 0 <= v.pending_depth
                <= r.max_depth && meaning(t, v) == rest(t, r, s) && op == OpView::ReadDir(
                v.pending,
            ),
        },
    decreases work(s),
{
    if s.len() == 0 {
    } else if !(0 <= s.last().next < s.last().entries.len()) {
        lemma_work_nonneg(s.drop_last());
        assert(frames_ok(r, s.drop_last())) by {
            assert forall|k: int| 0 <= k < s.drop_last().len() implies 0 <= #[trigger] s.drop_last()[k].depth <= r.max_depth && 0 <= s.drop_last()[k].next by {
                assert(s.drop_last()[k] == s[k]);
            }
        }
        lemma_advance_meaning(t, r, s.drop_last());
    } else {
        let top = s.last();
        let e = top.entries[top.next];
        let d = top.depth;
        assert(s[s.len() - 1] == top);
        assert(bump(s).drop_last() =~= s.drop_last());
        assert(bump(s).last() == FrameView { next: top.next + 1, ..top });
        assert(frames_ok(r, bump(s))) by {
            assert forall|k: int| 0 <= k < bump(s).len() implies 0 <= #[trigger] bump(s)[k].depth <= r.max_depth && 0 <= bump(s)[k].next by {
                if k < s.len() - 1 {
                    assert(bump(s)[k] == s[k]);
                }
            }
        }
        if is_hit(r, e) {
        } else if enters(r, e) && d < r.max_depth {
        } else {
            lemma_work_bump(s);
            lemma_advance_meaning(t, r, bump(s));
        }
    }
}

/// Each step of a search keeps its meaning: answered with the listing that
/// the tree `t` has for the directory it waits for, the search either
/// finishes with what it was going to find, or asks for another directory
/// and is still going to find the same thing.
pub proof fn search_step_keeps_meaning(t: Tree, v: SearchView, ev: crate::process::EventView)
    requires
        frames_ok(v.rules, v.stack),
        0 <= v.pending_depth <= v.rules.max_depth,
        listing_or_empty(ev) == t(v.pending),
    ensures
        match search_next(v, ev) {
            Move::Done(x) => x == meaning(t, v),
            Move::Continue(w, op) => w.rules == v.rules && frames_ok(w.rules, w.stack) && 0
                <= w.pending_depth <= w.rules.max_depth && meaning(t, w) == meaning(t, v)
                && op == OpView::ReadDir(w.pending),
        },
{
    let top = FrameView { entries: listing_or_empty(ev), next: 0, depth: v.pending_depth };
    let s = v.stack.push(top);
    assert(s.drop_last() =~= v.stack);
    assert(s.last() == top);
    assert(frames_ok(v.rules, s)) by {
        assert forall|k: int| 0 <= k < s.len() implies 0 <= #[trigger] s[k].depth <= v.rules.max_depth && 0 <= s[k].next by {
            if k < v.stack.len() {
                assert(s[k] == v.stack[k]);
            }
        }
    }
    lemma_advance_meaning(t, v.rules, s);
}

/// A search answered from the tree `t` for `fuel` steps: its result, if it
/// finished within them.
pub open spec fn run(t: Tree, v: SearchView, fuel: nat) -> Option<Option<Seq<char>>>
    decreases fuel,
{
    if fuel == 0 {
        None
    } else {
        match search_next(v, crate::process::EventView::Listing(t(v.pending))) {
            Move::Done(x) => Some(x),
            Move::Continue(w, _) => run(t, w, (fuel - 1) as nat),
        }
    }
}

/// Answered from any fixed tree, a search started at `root` that finishes
/// finds exactly what the recursive depth-first search [`search_dir`]
/// finds: the first matching file, in listing order, within `max_depth`
/// levels, never inside a directory the rules leave out.
pub proof fn search_run_finds_first_match(t: Tree, r: RulesView, root: Seq<char>, fuel: nat)
    requires
        r.max_depth >= 0,
    ensures
        run(t, search_start(r, root), fuel) matches Some(x) ==> x == search_dir(t, r, root, 0),
{
    lemma_run_meaning(t, search_start(r, root), fuel);
}

proof fn lemma_run_meaning(t: Tree, v: SearchView, fuel: nat)
    requires
        frames_ok(v.rules, v.stack),
        0 <= v.pending_depth <= v.rules.max_depth,
    ensures
        run(t, v, fuel) matches Some(x) ==> x == meaning(t, v),
    decreases fuel,
{
    if fuel > 0 {
        let ev = crate::process::EventView::Listing(t(v.pending));
        search_step_keeps_meaning(t, v, ev);
        match search_next(v, ev) {
            Move::Done(x) => {},
            Move::Continue(w, _) => {
                lemma_run_meaning(t, w, (fuel - 1) as nat);
            },
        }
    }
}

/// The number of listings a search of the directory `path` at level
/// `depth` asks for at most: its own, and those of the directories it may
/// enter, at every level down to `max_depth`.
pub open spec fn dir_cost(t: Tree, r: RulesView, path: Seq<char>, depth: int) -> nat
    decreases 2 * (r.max_depth - depth) + 1, 0int,
{
    if depth > r.max_depth || depth < 0 {
        1
    } else {
        1 + entries_cost(t, r, t(path), depth, 0)
    }
}

/// The listings that the entries `es[i..]` of a directory at level `depth`
/// lead to at most.
pub open spec fn entries_cost(t: Tree, r: RulesView, es: Seq<EntryView>, depth: int, i: int) -> nat
    decreases 2 * (r.max_depth - depth), es.len() - i,
{
    if i < 0 || i >= es.len() || depth > r.max_depth || depth < 0 {
        0
    } else if !is_hit(r, es[i]) && enters(r, es[i]) && depth < r.max_depth {
        dir_cost(t, r, es[i].path, depth + 1) + entries_cost(t, r, es, depth, i + 1)
    } else {
        entries_cost(t, r, es, depth, i + 1)
    }
}

/// The listings that the unfinished frames of a stack lead to at most.
pub open spec fn stack_cost(t: Tree, r: RulesView, s: Seq<FrameView>) -> nat
    decreases s.len(),
{
    if s.len() == 0 {
        0
    } else {
        stack_cost(t, r, s.drop_last()) + entries_cost(
            t,
            r,
            s.last().entries,
            s.last().depth,
            s.last().next,
        )
    }
}

/// The listings a search waiting for `v.pending` still asks for at most.
pub open spec fn cost(t: Tree, v: SearchView) -> nat {
    dir_cost(t, v.rules, v.pending, v.pending_depth) + stack_cost(t, v.rules, v.stack)
}

proof fn lemma_advance_cost(t: Tree, r: RulesView, s: Seq<FrameView>)
    requires
        frames_ok(r, s),
    ensures
        advance(r, s) matches Move::Continue(w, _) ==> cost(t, w) <= stack_cost(t, r, s),
    decreases work(s),
{
    if s.len() == 0 {
    } else if !(0 <= s.last().next < s.last().entries.len()) {
        lemma_work_nonneg(s.drop_last());
        assert(frames_ok(r, s.drop_last())) by {
            assert forall|k: int| 0 <= k < s.drop_last().len() implies 0 <= #[trigger] s.drop_last()[k].depth <= r.max_depth && 0 <= s.drop_last()[k].next by {
                assert(s.drop_last()[k] == s[k]);
            }
        }
        lemma_advance_cost(t, r, s.drop_last());
    } else {
        let top = s.last();
        let e = top.entries[top.next];
        let d = top.depth;
        assert(s[s.len() - 1] == top);
        assert(0 <= d <= r.max_depth);
        assert(bump(s).drop_last() =~= s.drop_last());
        assert(bump(s).last() == FrameView { next: top.next + 1, ..top });
        assert(frames_ok(r, bump(s))) by {
            assert forall|k: int| 0 <= k < bump(s).len() implies 0 <= #[trigger] bump(s)[k].depth <= r.max_depth && 0 <= bump(s)[k].next by {
                if k < s.len() - 1 {
                    assert(bump(s)[k] == s[k]);
                }
            }
        }
        assert(stack_cost(t, r, bump(s)) == stack_cost(t, r, s.drop_last()) + entries_cost(
            t,
            r,
            top.entries,
            d,
            top.next + 1,
        ));
        if is_hit(r, e) {
        } else if enters(r, e) && d < r.max_depth {
        } else {
            lemma_work_bump(s);
            lemma_advance_cost(t, r, bump(s));
        }
    }
}

/// Each step of a search answered from the tree `t` lowers what it may
/// still ask for.
pub proof fn search_step_lowers_cost(t: Tree, v: SearchView, ev: crate::process::EventView)
    requires
        frames_ok(v.rules, v.stack),
        0 <= v.pending_depth <= v.rules.max_depth,
        listing_or_empty(ev) == t(v.pending),
    ensures
        search_next(v, ev) matches Move::Continue(w, _) ==> cost(t, w) < cost(t, v),
{
    let top = FrameView { entries: listing_or_empty(ev), next: 0, depth: v.pending_depth };
    let s = v.stack.push(top);
    assert(s.drop_last() =~= v.stack);
    assert(s.last() == top);
    assert(frames_ok(v.rules, s)) by {
        assert forall|k: int| 0 <= k < s.len() implies 0 <= #[trigger] s[k].depth <= v.rules.max_depth && 0 <= s[k].next by {
            if k < v.stack.len() {
                assert(s[k] == v.stack[k]);
            }
        }
    }
    assert(stack_cost(t, v.rules, s) + 1 == cost(t, v));
    lemma_advance_cost(t, v.rules, s);
}

proof fn lemma_run_finishes(t: Tree, v: SearchView, fuel: nat)
    requires
        frames_ok(v.rules, v.stack),
        0 <= v.pending_depth <= v.rules.max_depth,
        fuel > cost(t, v),
    ensures
        run(t, v, fuel) is Some,
    decreases fuel,
{
    let ev = crate::process::EventView::Listing(t(v.pending));
    search_step_keeps_meaning(t, v, ev);
    search_step_lowers_cost(t, v, ev);
    match search_next(v, ev) {
        Move::Done(x) => {},
        Move::Continue(w, _) => {
            lemma_run_finishes(t, w, (fuel - 1) as nat);
        },
    }
}

/// Answered from any fixed tree, a search started at `root` always
/// finishes, after at most [`dir_cost`] listings, and finds exactly what
/// the recursive depth-first search [`search_dir`] finds.
pub proof fn search_run_is_depth_first_search(t: Tree, r: RulesView, root: Seq<char>)
    requires
        r.max_depth >= 0,
    ensures
        run(t, search_start(r, root), dir_cost(t, r, root, 0) + 1) == Some(
            search_dir(t, r, root, 0),
        ),
{
    let v = search_start(r, root);
    assert(stack_cost(t, r, v.stack) == 0);
    lemma_run_finishes(t, v, dir_cost(t, r, root, 0) + 1);
    lemma_run_meaning(t, v, dir_cost(t, r, root, 0) + 1);
    assert(rest(t, r, v.stack) == None::<Seq<char>>);
}

/// Two rules that pick the same files and enter the same directories, to
/// the same depth.
pub open spec fn same_walk(r1: RulesView, r2: RulesView) -> bool {
    &&& r1.max_depth == r2.max_depth
    &&& forall|e: EntryView| #[trigger] is_hit(r1, e) == is_hit(r2, e)
    &&& forall|e: EntryView| #[trigger] enters(r1, e) == enters(r2, e)
}

proof fn lemma_dir_same(t: Tree, r1: RulesView, r2: RulesView, path: Seq<char>, depth: int)
    requires
        same_walk(r1, r2),
    ensures
        search_dir(t, r1, path, depth) == search_dir(t, r2, path, depth),
        dir_cost(t, r1, path, depth) == dir_cost(t, r2, path, depth),
    decreases 2 * (r1.max_depth - depth) + 1, 0int,
{
    if depth > r1.max_depth || depth < 0 {
    } else {
        lemma_scan_same(t, r1, r2, t(path), depth, 0);
    }
}

proof fn lemma_scan_same(
    t: Tree,
    r1: RulesView,
    r2: RulesView,
    es: Seq<EntryView>,
    depth: int,
    i: int,
)
    requires
        same_walk(r1, r2),
    ensures
        scan(t, r1, es, depth, i) == scan(t, r2, es, depth, i),
        entries_cost(t, r1, es, depth, i) == entries_cost(t, r2, es, depth, i),
    decreases 2 * (r1.max_depth - depth), es.len() - i,
{
    if i < 0 || i >= es.len() || depth > r1.max_depth || depth < 0 {
    } else {
        assert(is_hit(r1, es[i]) == is_hit(r2, es[i]));
        assert(enters(r1, es[i]) == enters(r2, es[i]));
        if !is_hit(r1, es[i]) && enters(r1, es[i]) && depth < r1.max_depth {
            lemma_dir_same(t, r1, r2, es[i].path, depth + 1);
        }
        lemma_scan_same(t, r1, r2, es, depth, i + 1);
    }
}

/// Looking for an `.exe` whose name contains a text ignores the case of
/// that text: two searches whose texts are equal ignoring ASCII case, and
/// whose rules agree otherwise, find the same file in any fixed tree.
pub proof fn search_ignores_needle_case(
    t: Tree,
    r1: RulesView,
    r2: RulesView,
    root: Seq<char>,
)
    requires
        r1.max_depth >= 0,
        r1.max_depth == r2.max_depth,
        r1.skip_windows == r2.skip_windows,
        r1.descend_unnamed == r2.descend_unnamed,
        r1.matcher matches MatcherView::ExeContaining(n1) && r2.matcher matches MatcherView::ExeContaining(n2) && ascii_lower(n1) == ascii_lower(n2),
    ensures
        run(t, search_start(r1, root), dir_cost(t, r1, root, 0) + 1) == run(
            t,
            search_start(r2, root),
            dir_cost(t, r2, root, 0) + 1,
        ),
        search_dir(t, r1, root, 0) == search_dir(t, r2, root, 0),
{
    assert(same_walk(r1, r2));
    lemma_dir_same(t, r1, r2, root, 0);
    search_run_is_depth_first_search(t, r1, root);
    search_run_is_depth_first_search(t, r2, root);
}

/// `p` is the path of a file the rules look for, listed in the directory
/// `dir` (at level `depth`) or in a directory below it that the rules
/// enter (so never one named `windows` when they skip those), no deeper
/// than `max_depth`.
pub open spec fn found_below(t: Tree, r: RulesView, dir: Seq<char>, depth: int, p: Seq<char>) -> bool
    decreases 2 * (r.max_depth - depth) + 1, 0int,
{
    0 <= depth <= r.max_depth && found_among(t, r, t(dir), depth, 0, p)
}

/// `p` is the path of a file the rules look for among the entries
/// `es[i..]` of a directory at level `depth`, or below one of them that
/// the rules enter.
pub open spec fn found_among(
    t: Tree,
    r: RulesView,
    es: Seq<EntryView>,
    depth: int,
    i: int,
    p: Seq<char>,
) -> bool
    decreases 2 * (r.max_depth - depth), es.len() - i,
{
    if i < 0 || i >= es.len() || depth > r.max_depth || depth < 0 {
        false
    } else {
        ||| (is_hit(r, es[i]) && es[i].path == p)
        ||| (!is_hit(r, es[i]) && enters(r, es[i]) && depth < r.max_depth && found_below(
            t,
            r,
            es[i].path,
            depth + 1,
            p,
        ))
        ||| found_among(t, r, es, depth, i + 1, p)
    }
}

proof fn lemma_dir_found(t: Tree, r: RulesView, dir: Seq<char>, depth: int)
    ensures
        search_dir(t, r, dir, depth) matches Some(p) ==> found_below(t, r, dir, depth, p),
        search_dir(t, r, dir, depth) is None ==> forall|p: Seq<char>|
            !#[trigger] found_below(t, r, dir, depth, p),
    decreases 2 * (r.max_depth - depth) + 1, 0int,
{
    if depth > r.max_depth || depth < 0 {
    } else {
        lemma_scan_found(t, r, t(dir), depth, 0);
        if search_dir(t, r, dir, depth) is None {
            assert forall|p: Seq<char>| !#[trigger] found_below(t, r, dir, depth, p) by {
                assert(!found_among(t, r, t(dir), depth, 0, p));
            }
        }
    }
}

proof fn lemma_scan_found(t: Tree, r: RulesView, es: Seq<EntryView>, depth: int, i: int)
    ensures
        scan(t, r, es, depth, i) matches Some(p) ==> found_among(t, r, es, depth, i, p),
        scan(t, r, es, depth, i) is None ==> forall|p: Seq<char>|
            !#[trigger] found_among(t, r, es, depth, i, p),
    decreases 2 * (r.max_depth - depth), es.len() - i,
{
    if i < 0 || i >= es.len() || depth > r.max_depth || depth < 0 {
    } else {
        lemma_scan_found(t, r, es, depth, i + 1);
        if is_hit(r, es[i]) {
        } else if enters(r, es[i]) && depth < r.max_depth {
            lemma_dir_found(t, r, es[i].path, depth + 1);
            if scan(t, r, es, depth, i) is None {
                assert forall|p: Seq<char>| !#[trigger] found_among(t, r, es, depth, i, p) by {
                    assert(!found_below(t, r, es[i].path, depth + 1, p));
                    assert(!found_among(t, r, es, depth, i + 1, p));
                }
            }
        } else {
            if scan(t, r, es, depth, i) is None {
                assert forall|p: Seq<char>| !#[trigger] found_among(t, r, es, depth, i, p) by {
                    assert(!found_among(t, r, es, depth, i + 1, p));
                }
            }
        }
    }
}

/// What a search finds is a file the rules look for, reached only through
/// directories the rules enter and no deeper than `max_depth`; and a search
/// that finds nothing leaves no such file anywhere in the tree.
pub proof fn search_finds_only_reachable_matches(t: Tree, r: RulesView, root: Seq<char>)
    ensures
        search_dir(t, r, root, 0) matches Some(p) ==> found_below(t, r, root, 0, p),
        search_dir(t, r, root, 0) is None ==> forall|p: Seq<char>|
            !#[trigger] found_below(t, r, root, 0, p),
{
    lemma_dir_found(t, r, root, 0);
}

} // verus!
