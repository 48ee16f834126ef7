//! Growing the modules that the filters matched into the modules to build.
//!
//! The selection grows in two phases. The first adds the modules that depend on
//! a selected module, wave by wave, unless the exclusion chain refuses them.
//! The second adds the modules that a selected module depends on, wave by wave,
//! whatever the exclusion chain says of them.
use crate::deps::{modules, read_dependencies, Candidate, ModuleView};
use crate::filter::{accepts_all, FilterView, ProjectFilters};
use crate::text::{holds_text, views};
use vstd::prelude::*;

verus! {

/// The two pools of a selection in progress: the modules that are selected, in
/// the order in which they came, and the modules that are not.
pub struct Pools {
    pub matched: Seq<ModuleView>,
    pub others: Seq<ModuleView>,
}

/// The rule by which a phase lets a module in.
#[derive(Clone, Copy, Debug)]
pub enum Growth {
    /// A module comes in if it depends on a module of the frontier and the
    /// exclusion chain accepts it.
    Impact,
    /// A module comes in if a module of the frontier depends on it.
    Closure,
}

/// `m` names one of the modules of `frontier` among its dependencies.
pub open spec fn depends_on(m: ModuleView, frontier: Seq<ModuleView>) -> bool {
    exists|i: int, j: int|
        0 <= i < m.dependencies.len() && 0 <= j < frontier.len() && #[trigger] m.dependencies[i]
            == (#[trigger] frontier[j]).project.name
}

/// One of the modules of `frontier` names `m` among its dependencies.
pub open spec fn required_by(m: ModuleView, frontier: Seq<ModuleView>) -> bool {
    exists|j: int, i: int|
        0 <= j < frontier.len() && 0 <= i < frontier[j].dependencies.len()
            && #[trigger] frontier[j].dependencies[i] == m.project.name
}

/// Whether the rule lets `m` in, given the frontier.
pub open spec fn joins(
    rule: Growth,
    exclude: Seq<FilterView>,
    frontier: Seq<ModuleView>,
    m: ModuleView,
) -> bool {
    match rule {
        Growth::Impact => depends_on(m, frontier) && accepts_all(exclude, m.project),
        Growth::Closure => required_by(m, frontier),
    }
}

/// `s` without the element at `i`, whose place the last element takes.
pub open spec fn swap_removed(s: Seq<ModuleView>, i: int) -> Seq<ModuleView> {
    s.update(i, s.last()).drop_last()
}

/// The pools after the module at position `i` of the others was selected.
pub open spec fn moved(p: Pools, i: int) -> Pools {
    Pools { matched: p.matched.push(p.others[i]), others: swap_removed(p.others, i) }
}

/// One pass over the others from position `i` on: each module that the rule
/// lets in is selected, and the last of the others takes its place and is
/// looked at next.
pub open spec fn sweep(
    rule: Growth,
    exclude: Seq<FilterView>,
    frontier: Seq<ModuleView>,
    p: Pools,
    i: int,
) -> Pools
    decreases p.others.len() - i,
{
    if i < 0 || i >= p.others.len() {
        p
    } else if joins(rule, exclude, frontier, p.others[i]) {
        sweep(rule, exclude, frontier, moved(p, i), i)
    } else {
        sweep(rule, exclude, frontier, p, i + 1)
    }
}

/// Waves of passes until a pass selects nothing. The frontier of a wave is
/// what was selected from position `searched` on when the wave started.
pub open spec fn grow(rule: Growth, exclude: Seq<FilterView>, p: Pools, searched: int) -> Pools
    decreases p.matched.len() + p.others.len() - searched,
{
    if 0 <= searched < p.matched.len() {
        let frontier = p.matched.skip(searched);
        proof {
            lemma_sweep_size(rule, exclude, frontier, p, 0);
        }
        grow(rule, exclude, sweep(rule, exclude, frontier, p, 0), p.matched.len() as int)
    } else {
        p
    }
}

/// The pools when the selection is done: after the impact phase, if it was
/// asked for, and the closure phase.
pub open spec fn selected_pools(
    matched: Seq<ModuleView>,
    others: Seq<ModuleView>,
    propagate: bool,
    exclude: Seq<FilterView>,
) -> Pools {
    let start = Pools { matched, others };
    let impacted = if propagate {
        grow(Growth::Impact, exclude, start, 0)
    } else {
        start
    };
    grow(Growth::Closure, exclude, impacted, 0)
}

/// The modules to build: those that the filters matched, in their order, and
/// after them those that the two phases added, in the order in which they
/// were added.
pub open spec fn selection(
    matched: Seq<ModuleView>,
    others: Seq<ModuleView>,
    propagate: bool,
    exclude: Seq<FilterView>,
) -> Seq<ModuleView> {
    selected_pools(matched, others, propagate, exclude).matched
}

/// Every element of `a` is an element of `b`.
pub open spec fn within(a: Seq<ModuleView>, b: Seq<ModuleView>) -> bool {
    forall|x: ModuleView| a.contains(x) ==> b.contains(x)
}

/// A pass moves modules from one pool to the other and loses none.
pub proof fn lemma_sweep_size(
    rule: Growth,
    exclude: Seq<FilterView>,
    frontier: Seq<ModuleView>,
    p: Pools,
    i: int,
)
    ensures
        ({
            let r = sweep(rule, exclude, frontier, p, i);
            &&& r.matched.len() + r.others.len() == p.matched.len() + p.others.len()
            &&& r.matched.len() >= p.matched.len()
            &&& r.matched.take(p.matched.len() as int) == p.matched
        }),
    decreases p.others.len() - i,
{
    if i < 0 || i >= p.others.len() {
    } else if joins(rule, exclude, frontier, p.others[i]) {
        let q = moved(p, i);
        lemma_sweep_size(rule, exclude, frontier, q, i);
    } else {
        lemma_sweep_size(rule, exclude, frontier, p, i + 1);
    }
}

/// What `swap_removed` keeps: every element but the one at `i`.
pub proof fn lemma_swap_removed(s: Seq<ModuleView>, i: int)
    requires
        0 <= i < s.len(),
    ensures
        swap_removed(s, i).len() == s.len() - 1,
        forall|k: int| 0 <= k < i ==> swap_removed(s, i)[k] == s[k],
        within(swap_removed(s, i), s),
        forall|x: ModuleView| s.contains(x) ==> x == s[i] || swap_removed(s, i).contains(x),
{
    let r = swap_removed(s, i);
    assert forall|x: ModuleView| r.contains(x) implies s.contains(x) by {
        let k = choose|k: int| 0 <= k < r.len() && r[k] == x;
    }
    assert forall|x: ModuleView| s.contains(x) implies x == s[i] || r.contains(x) by {
        let k = choose|k: int| 0 <= k < s.len() && s[k] == x;
        if k == i {
        } else if k == s.len() - 1 {
            assert(r[i] == x);
        } else {
            assert(r[k] == x);
        }
    }
}

/// Selecting one module keeps what is selected and loses nothing.
pub proof fn lemma_moved(p: Pools, i: int)
    requires
        0 <= i < p.others.len(),
    ensures
        within(p.matched, moved(p, i).matched),
        moved(p, i).matched.contains(p.others[i]),
        within(moved(p, i).others, p.others),
        forall|x: ModuleView|
            moved(p, i).matched.contains(x) ==> p.matched.contains(x) || x == p.others[i],
        forall|x: ModuleView|
            p.others.contains(x) ==> moved(p, i).matched.contains(x) || moved(p, i).others.contains(
                x,
            ),
{
    let q = moved(p, i);
    lemma_swap_removed(p.others, i);
    assert forall|x: ModuleView| p.matched.contains(x) implies q.matched.contains(x) by {
        let k = choose|k: int| 0 <= k < p.matched.len() && p.matched[k] == x;
        assert(q.matched[k] == x);
    }
    assert(q.matched[p.matched.len() as int] == p.others[i]);
    assert forall|x: ModuleView| q.matched.contains(x) implies p.matched.contains(x) || x
        == p.others[i] by {}
}

/// A step keeps `inv`: if it holds of the pools and the rule lets the module
/// at `k` in, for a frontier that is selected, it holds after the module moved.
pub open spec fn keeps(
    inv: spec_fn(Pools) -> bool,
    rule: Growth,
    exclude: Seq<FilterView>,
    frontier: Seq<ModuleView>,
    q: Pools,
    k: int,
) -> bool {
    inv(q) && 0 <= k < q.others.len() && joins(rule, exclude, frontier, q.others[k]) && within(
        frontier,
        q.matched,
    ) ==> inv(moved(q, k))
}

/// What every step keeps, a pass keeps.
pub proof fn lemma_sweep_keeps(
    inv: spec_fn(Pools) -> bool,
    rule: Growth,
    exclude: Seq<FilterView>,
    frontier: Seq<ModuleView>,
    p: Pools,
    i: int,
)
    requires
        inv(p),
        within(frontier, p.matched),
        forall|q: Pools, k: int| #[trigger] keeps(inv, rule, exclude, frontier, q, k),
    ensures
        inv(sweep(rule, exclude, frontier, p, i)),
    decreases p.others.len() - i,
{
    if i < 0 || i >= p.others.len() {
    } else if joins(rule, exclude, frontier, p.others[i]) {
        assert(keeps(inv, rule, exclude, frontier, p, i));
        lemma_moved(p, i);
        lemma_sweep_keeps(inv, rule, exclude, frontier, moved(p, i), i);
    } else {
        lemma_sweep_keeps(inv, rule, exclude, frontier, p, i + 1);
    }
}

/// What every step keeps, the waves keep.
pub proof fn lemma_grow_keeps(
    inv: spec_fn(Pools) -> bool,
    rule: Growth,
    exclude: Seq<FilterView>,
    p: Pools,
    searched: int,
)
    requires
        inv(p),
        forall|frontier: Seq<ModuleView>, q: Pools, k: int| #[trigger]
            keeps(inv, rule, exclude, frontier, q, k),
    ensures
        inv(grow(rule, exclude, p, searched)),
    decreases p.matched.len() + p.others.len() - searched,
{
    if 0 <= searched < p.matched.len() {
        let frontier = p.matched.skip(searched);
        assert forall|x: ModuleView| frontier.contains(x) implies p.matched.contains(x) by {}
        lemma_sweep_keeps(inv, rule, exclude, frontier, p, 0);
        lemma_sweep_size(rule, exclude, frontier, p, 0);
        lemma_grow_keeps(
            inv,
            rule,
            exclude,
            sweep(rule, exclude, frontier, p, 0),
            p.matched.len() as int,
        );
    }
}

/// Being required is being required by one of the parts.
pub proof fn lemma_required_by_parts(m: ModuleView, a: Seq<ModuleView>, b: Seq<ModuleView>)
    ensures
        required_by(m, a + b) <==> required_by(m, a) || required_by(m, b),
{
    let ab = a + b;
    if required_by(m, ab) {
        let (j, i) = choose|j: int, i: int|
            0 <= j < ab.len() && 0 <= i < ab[j].dependencies.len()
                && #[trigger] ab[j].dependencies[i] == m.project.name;
    }
    if required_by(m, a) {
        let (j, i) = choose|j: int, i: int|
            0 <= j < a.len() && 0 <= i < a[j].dependencies.len()
                && #[trigger] a[j].dependencies[i] == m.project.name;
        assert(ab[j].dependencies[i] == m.project.name);
    }
    if required_by(m, b) {
        let (j, i) = choose|j: int, i: int|
            0 <= j < b.len() && 0 <= i < b[j].dependencies.len()
                && #[trigger] b[j].dependencies[i] == m.project.name;
        assert(ab[a.len() + j].dependencies[i] == m.project.name);
    }
}

/// What is required by some modules is required by any sequence that holds
/// them.
pub proof fn lemma_required_by_grows(m: ModuleView, a: Seq<ModuleView>, b: Seq<ModuleView>)
    requires
        required_by(m, a),
        within(a, b),
    ensures
        required_by(m, b),
{
    let (j, i) = choose|j: int, i: int|
        0 <= j < a.len() && 0 <= i < a[j].dependencies.len() && #[trigger] a[j].dependencies[i]
            == m.project.name;
    assert(a.contains(a[j]));
}

/// What depends on some modules depends on any sequence that holds them.
pub proof fn lemma_depends_on_grows(m: ModuleView, a: Seq<ModuleView>, b: Seq<ModuleView>)
    requires
        depends_on(m, a),
        within(a, b),
    ensures
        depends_on(m, b),
{
    let (i, j) = choose|i: int, j: int|
        0 <= i < m.dependencies.len() && 0 <= j < a.len() && #[trigger] m.dependencies[i]
            == (#[trigger] a[j]).project.name;
    assert(a.contains(a[j]));
}

/// After a pass the rule lets none of the others in.
pub proof fn lemma_sweep_settles(
    rule: Growth,
    exclude: Seq<FilterView>,
    frontier: Seq<ModuleView>,
    p: Pools,
    i: int,
)
    requires
        0 <= i,
        forall|k: int| 0 <= k < i && k < p.others.len() ==> !joins(rule, exclude, frontier, p.others[k]),
    ensures
        ({
            let r = sweep(rule, exclude, frontier, p, i);
            &&& forall|x: ModuleView| r.others.contains(x) ==> !joins(rule, exclude, frontier, x)
            &&& within(r.others, p.others)
        }),
    decreases p.others.len() - i,
{
    if i >= p.others.len() {
    } else if joins(rule, exclude, frontier, p.others[i]) {
        let q = moved(p, i);
        lemma_swap_removed(p.others, i);
        assert forall|k: int| 0 <= k < i && k < q.others.len() implies !joins(
            rule,
            exclude,
            frontier,
            q.others[k],
        ) by {}
        lemma_sweep_settles(rule, exclude, frontier, q, i);
    } else {
        lemma_sweep_settles(rule, exclude, frontier, p, i + 1);
    }
}

/// When the closure phase is done, no selected module depends on a module that
/// was left out.
pub proof fn lemma_grow_closed(exclude: Seq<FilterView>, p: Pools, searched: int)
    requires
        0 <= searched <= p.matched.len(),
        forall|x: ModuleView| p.others.contains(x) ==> !required_by(x, p.matched.take(searched)),
    ensures
        ({
            let r = grow(Growth::Closure, exclude, p, searched);
            forall|x: ModuleView| r.others.contains(x) ==> !required_by(x, r.matched)
        }),
    decreases p.matched.len() + p.others.len() - searched,
{
    let rule = Growth::Closure;
    if searched < p.matched.len() {
        let frontier = p.matched.skip(searched);
        let next = sweep(rule, exclude, frontier, p, 0);
        lemma_sweep_settles(rule, exclude, frontier, p, 0);
        lemma_sweep_size(rule, exclude, frontier, p, 0);
        let n = p.matched.len() as int;
        assert forall|x: ModuleView| next.others.contains(x) implies !required_by(
            x,
            next.matched.take(n),
        ) by {
            lemma_required_by_parts(x, p.matched.take(searched), frontier);
            assert(p.matched.take(searched) + frontier =~= p.matched);
        }
        lemma_grow_closed(exclude, next, n);
        assert(grow(rule, exclude, p, searched) == grow(rule, exclude, next, n));
    } else {
        assert(p.matched.take(searched) =~= p.matched);
    }
}

/// Every module that went into a selection is in one of the pools when the
/// waves are done.
pub proof fn lemma_grow_covers(
    rule: Growth,
    exclude: Seq<FilterView>,
    p: Pools,
    searched: int,
    all: Seq<ModuleView>,
)
    requires
        forall|x: ModuleView| all.contains(x) ==> p.matched.contains(x) || p.others.contains(x),
    ensures
        ({
            let r = grow(rule, exclude, p, searched);
            forall|x: ModuleView| all.contains(x) ==> r.matched.contains(x) || r.others.contains(x)
        }),
{
    let inv = |q: Pools|
        forall|x: ModuleView| all.contains(x) ==> q.matched.contains(x) || q.others.contains(x);
    assert forall|frontier: Seq<ModuleView>, q: Pools, k: int| #[trigger]
        keeps(inv, rule, exclude, frontier, q, k) by {
        if inv(q) && 0 <= k < q.others.len() {
            lemma_moved(q, k);
        }
    }
    lemma_grow_keeps(inv, rule, exclude, p, searched);
}

/// The waves take modules from the others and from nowhere else, and what was
/// selected stays selected.
pub proof fn lemma_grow_stays(rule: Growth, exclude: Seq<FilterView>, p: Pools, searched: int)
    ensures
        ({
            let r = grow(rule, exclude, p, searched);
            &&& within(p.matched, r.matched)
            &&& within(r.others, p.others)
            &&& forall|x: ModuleView|
                r.matched.contains(x) ==> p.matched.contains(x) || p.others.contains(x)
            &&& p.matched.is_prefix_of(r.matched)
        }),
{
    let inv = |q: Pools|
        {
            &&& within(p.matched, q.matched)
            &&& within(q.others, p.others)
            &&& forall|x: ModuleView|
                q.matched.contains(x) ==> p.matched.contains(x) || p.others.contains(x)
            &&& p.matched.is_prefix_of(q.matched)
        };
    assert forall|frontier: Seq<ModuleView>, q: Pools, k: int| #[trigger]
        keeps(inv, rule, exclude, frontier, q, k) by {
        if inv(q) && 0 <= k < q.others.len() {
            lemma_moved(q, k);
        }
    }
    lemma_grow_keeps(inv, rule, exclude, p, searched);
}

/// With nothing selected, or nothing left to select, the waves change nothing.
pub proof fn lemma_grow_idle(rule: Growth, exclude: Seq<FilterView>, p: Pools, searched: int)
    requires
        p.matched.len() == 0 || p.others.len() == 0,
    ensures
        grow(rule, exclude, p, searched) == p,
    decreases p.matched.len() + p.others.len() - searched,
{
    if 0 <= searched < p.matched.len() {
        lemma_grow_idle(rule, exclude, p, p.matched.len() as int);
    }
}

/// Dependency closure: whatever a selected module depends on is selected too,
/// whether or not the exclusion chain accepts it. A dependency that names no
/// module that was found is not held against the selection.
pub proof fn lemma_selection_is_closed(
    matched: Seq<ModuleView>,
    others: Seq<ModuleView>,
    propagate: bool,
    exclude: Seq<FilterView>,
    m: ModuleView,
    d: ModuleView,
)
    requires
        selection(matched, others, propagate, exclude).contains(m),
        m.dependencies.contains(d.project.name),
        matched.contains(d) || others.contains(d),
    ensures
        selection(matched, others, propagate, exclude).contains(d),
{
    let start = Pools { matched, others };
    let impacted = if propagate {
        grow(Growth::Impact, exclude, start, 0)
    } else {
        start
    };
    let all = matched + others;
    assert forall|x: ModuleView| all.contains(x) implies matched.contains(x) || others.contains(
        x,
    ) by {
        let k = choose|k: int| 0 <= k < all.len() && all[k] == x;
    }
    if matched.contains(d) {
        let k = choose|k: int| 0 <= k < matched.len() && matched[k] == d;
        assert(all[k] == d);
    } else {
        let k = choose|k: int| 0 <= k < others.len() && others[k] == d;
        assert(all[matched.len() + k] == d);
    }
    if propagate {
        lemma_grow_covers(Growth::Impact, exclude, start, 0, all);
    }
    lemma_grow_covers(Growth::Closure, exclude, impacted, 0, all);
    lemma_grow_closed(exclude, impacted, 0);
    assert(all.contains(d));
}

/// Why a module is selected: the filters matched it, or the impact phase ran,
/// the exclusion chain accepts it and it depends on a selected module, or a
/// selected module depends on it.
pub open spec fn is_justified(
    x: ModuleView,
    matched: Seq<ModuleView>,
    propagate: bool,
    exclude: Seq<FilterView>,
    selected: Seq<ModuleView>,
) -> bool {
    ||| matched.contains(x)
    ||| propagate && accepts_all(exclude, x.project) && depends_on(x, selected)
    ||| required_by(x, selected)
}

/// Impact exclusion: every selected module is justified. So a module that the
/// filters did not match, that the exclusion chain refuses and that no selected
/// module depends on is not selected.
pub proof fn lemma_selection_is_justified(
    matched: Seq<ModuleView>,
    others: Seq<ModuleView>,
    propagate: bool,
    exclude: Seq<FilterView>,
    x: ModuleView,
)
    requires
        selection(matched, others, propagate, exclude).contains(x),
    ensures
        is_justified(
            x,
            matched,
            propagate,
            exclude,
            selection(matched, others, propagate, exclude),
        ),
{
    let start = Pools { matched, others };
    let inv = |q: Pools|
        forall|y: ModuleView|
            q.matched.contains(y) ==> is_justified(y, matched, propagate, exclude, q.matched);
    assert forall|frontier: Seq<ModuleView>, q: Pools, k: int| #[trigger]
        keeps(inv, Growth::Closure, exclude, frontier, q, k) by {
        if inv(q) && 0 <= k < q.others.len() && joins(
            Growth::Closure,
            exclude,
            frontier,
            q.others[k],
        ) && within(frontier, q.matched) {
            lemma_justified_after_move(matched, propagate, exclude, frontier, q, k);
        }
    }
    if propagate {
        assert forall|frontier: Seq<ModuleView>, q: Pools, k: int| #[trigger]
            keeps(inv, Growth::Impact, exclude, frontier, q, k) by {
            if inv(q) && 0 <= k < q.others.len() && joins(
                Growth::Impact,
                exclude,
                frontier,
                q.others[k],
            ) && within(frontier, q.matched) {
                lemma_justified_after_move(matched, propagate, exclude, frontier, q, k);
            }
        }
        lemma_grow_keeps(inv, Growth::Impact, exclude, start, 0);
    }
    let impacted = if propagate {
        grow(Growth::Impact, exclude, start, 0)
    } else {
        start
    };
    lemma_grow_keeps(inv, Growth::Closure, exclude, impacted, 0);
}

/// Selecting a module that a rule lets in keeps every selected module
/// justified.
proof fn lemma_justified_after_move(
    matched: Seq<ModuleView>,
    propagate: bool,
    exclude: Seq<FilterView>,
    frontier: Seq<ModuleView>,
    q: Pools,
    k: int,
)
    requires
        forall|y: ModuleView|
            q.matched.contains(y) ==> is_justified(y, matched, propagate, exclude, q.matched),
        0 <= k < q.others.len(),
        within(frontier, q.matched),
        required_by(q.others[k], frontier) || (propagate && depends_on(q.others[k], frontier)
            && accepts_all(exclude, q.others[k].project)),
    ensures
        forall|y: ModuleView|
            moved(q, k).matched.contains(y) ==> is_justified(
                y,
                matched,
                propagate,
                exclude,
                moved(q, k).matched,
            ),
{
    let after = moved(q, k).matched;
    lemma_moved(q, k);
    assert forall|y: ModuleView| after.contains(y) implies is_justified(
        y,
        matched,
        propagate,
        exclude,
        after,
    ) by {
        if q.matched.contains(y) {
            if depends_on(y, q.matched) {
                lemma_depends_on_grows(y, q.matched, after);
            }
            if required_by(y, q.matched) {
                lemma_required_by_grows(y, q.matched, after);
            }
        } else {
            if required_by(y, frontier) {
                lemma_required_by_grows(y, frontier, after);
            } else {
                lemma_depends_on_grows(y, frontier, after);
            }
        }
    }
}

/// Monotonicity: whatever is selected without the impact phase is selected
/// with it.
pub proof fn lemma_impact_only_adds(
    matched: Seq<ModuleView>,
    others: Seq<ModuleView>,
    exclude: Seq<FilterView>,
    x: ModuleView,
)
    requires
        selection(matched, others, false, exclude).contains(x),
    ensures
        selection(matched, others, true, exclude).contains(x),
{
    let start = Pools { matched, others };
    let with = selection(matched, others, true, exclude);
    let impacted = grow(Growth::Impact, exclude, start, 0);
    lemma_grow_stays(Growth::Impact, exclude, start, 0);
    lemma_grow_stays(Growth::Closure, exclude, impacted, 0);
    let inv = |q: Pools| within(q.matched, with) && within(q.others, others);
    assert forall|frontier: Seq<ModuleView>, q: Pools, k: int| #[trigger]
        keeps(inv, Growth::Closure, exclude, frontier, q, k) by {
        if inv(q) && 0 <= k < q.others.len() && joins(
            Growth::Closure,
            exclude,
            frontier,
            q.others[k],
        ) && within(frontier, q.matched) {
            let y = q.others[k];
            lemma_moved(q, k);
            let (j, i) = choose|j: int, i: int|
                0 <= j < frontier.len() && 0 <= i < frontier[j].dependencies.len()
                    && #[trigger] frontier[j].dependencies[i] == y.project.name;
            let m = frontier[j];
            lemma_selection_is_closed(matched, others, true, exclude, m, y);
        }
    }
    lemma_grow_keeps(inv, Growth::Closure, exclude, start, 0);
}

/// The modules that the filters matched come first in the selection, in their
/// order, and every selected module is one of those that were found.
pub proof fn lemma_selection_extends(
    matched: Seq<ModuleView>,
    others: Seq<ModuleView>,
    propagate: bool,
    exclude: Seq<FilterView>,
)
    ensures
        matched.is_prefix_of(selection(matched, others, propagate, exclude)),
        forall|x: ModuleView|
            selection(matched, others, propagate, exclude).contains(x) ==> matched.contains(x)
                || others.contains(x),
{
    let start = Pools { matched, others };
    let impacted = if propagate {
        grow(Growth::Impact, exclude, start, 0)
    } else {
        start
    };
    if propagate {
        lemma_grow_stays(Growth::Impact, exclude, start, 0);
    }
    lemma_grow_stays(Growth::Closure, exclude, impacted, 0);
    let r = selection(matched, others, propagate, exclude);
    assert(matched =~= r.subrange(0, matched.len() as int)) by {}
}

/// Where the rule lets none of the others in, a pass changes nothing.
pub proof fn lemma_sweep_idle(
    rule: Growth,
    exclude: Seq<FilterView>,
    frontier: Seq<ModuleView>,
    p: Pools,
    i: int,
)
    requires
        forall|x: ModuleView| p.others.contains(x) ==> !joins(rule, exclude, frontier, x),
    ensures
        sweep(rule, exclude, frontier, p, i) == p,
    decreases p.others.len() - i,
{
    if 0 <= i < p.others.len() {
        assert(p.others.contains(p.others[i]));
        lemma_sweep_idle(rule, exclude, frontier, p, i + 1);
    }
}

/// Where no selected module depends on one of the others, the closure phase
/// changes nothing.
pub proof fn lemma_grow_settled(exclude: Seq<FilterView>, p: Pools, searched: int)
    requires
        forall|x: ModuleView| p.others.contains(x) ==> !required_by(x, p.matched),
    ensures
        grow(Growth::Closure, exclude, p, searched) == p,
    decreases p.matched.len() + p.others.len() - searched,
{
    if 0 <= searched < p.matched.len() {
        let frontier = p.matched.skip(searched);
        assert forall|x: ModuleView| frontier.contains(x) implies p.matched.contains(x) by {}
        lemma_sweep_idle(Growth::Closure, exclude, frontier, p, 0);
        lemma_grow_settled(exclude, p, p.matched.len() as int);
    }
}

/// A selection is stable: selecting again, without the impact phase, from what
/// was selected and what was left gives the same selection and leaves the same
/// modules out.
pub proof fn lemma_selection_is_stable(
    matched: Seq<ModuleView>,
    others: Seq<ModuleView>,
    propagate: bool,
    exclude: Seq<FilterView>,
)
    ensures
        ({
            let done = selected_pools(matched, others, propagate, exclude);
            selected_pools(done.matched, done.others, false, exclude) == done
        }),
{
    let start = Pools { matched, others };
    let impacted = if propagate {
        grow(Growth::Impact, exclude, start, 0)
    } else {
        start
    };
    let done = grow(Growth::Closure, exclude, impacted, 0);
    lemma_grow_closed(exclude, impacted, 0);
    lemma_grow_settled(exclude, done, 0);
}

/// No two modules of the sequence share a name.
pub open spec fn names_differ(s: Seq<ModuleView>) -> bool {
    forall|i: int, j: int|
        0 <= i < s.len() && 0 <= j < s.len() && i != j ==> (#[trigger] s[i]).project.name != (
        #[trigger] s[j]).project.name
}

/// Selecting one module keeps the names apart.
proof fn lemma_names_differ_after_move(q: Pools, k: int)
    requires
        0 <= k < q.others.len(),
        names_differ(q.matched + q.others),
    ensures
        names_differ(moved(q, k).matched + moved(q, k).others),
{
    let s = q.matched + q.others;
    let t = moved(q, k).matched + moved(q, k).others;
    let m = q.matched.len() as int;
    let n = q.others.len() as int;
    let origin = |i: int|
        if i < m {
            i
        } else if i == m {
            m + k
        } else if i - m - 1 == k {
            m + n - 1
        } else {
            i - 1
        };
    assert forall|i: int, j: int| 0 <= i < t.len() && 0 <= j < t.len() && i != j implies (
    #[trigger] t[i]).project.name != (#[trigger] t[j]).project.name by {
        assert(t[i] == s[origin(i)]);
        assert(t[j] == s[origin(j)]);
    }
}

/// Where no two of the modules that were found share a name, no two of the
/// selected modules do.
pub proof fn lemma_selection_keeps_names_apart(
    matched: Seq<ModuleView>,
    others: Seq<ModuleView>,
    propagate: bool,
    exclude: Seq<FilterView>,
)
    requires
        names_differ(matched + others),
    ensures
        names_differ(selection(matched, others, propagate, exclude)),
{
    let start = Pools { matched, others };
    let inv = |q: Pools| names_differ(q.matched + q.others);
    assert forall|rule: Growth, frontier: Seq<ModuleView>, q: Pools, k: int| #[trigger]
        keeps(inv, rule, exclude, frontier, q, k) by {
        if inv(q) && 0 <= k < q.others.len() {
            lemma_names_differ_after_move(q, k);
        }
    }
    if propagate {
        lemma_grow_keeps(inv, Growth::Impact, exclude, start, 0);
    }
    let impacted = if propagate {
        grow(Growth::Impact, exclude, start, 0)
    } else {
        start
    };
    lemma_grow_keeps(inv, Growth::Closure, exclude, impacted, 0);
    let done = grow(Growth::Closure, exclude, impacted, 0);
    let all = done.matched + done.others;
    assert forall|i: int, j: int|
        0 <= i < done.matched.len() && 0 <= j < done.matched.len() && i != j implies (
    #[trigger] done.matched[i]).project.name != (#[trigger] done.matched[j]).project.name by {
        assert(all[i] == done.matched[i]);
        assert(all[j] == done.matched[j]);
    }
}

/// The pools that two lists of candidates stand for.
pub open spec fn pools_of(matched: Seq<Candidate>, others: Seq<Candidate>) -> Pools {
    Pools { matched: modules(matched), others: modules(others) }
}

/// Every candidate from position `from` on has its dependencies computed.
pub open spec fn resolved_from(v: Seq<Candidate>, from: int) -> bool {
    forall|k: int| from <= k < v.len() ==> (#[trigger] v[k]).is_resolved()
}

/// Whether `c` names one of `frontier[from..to]` among its dependencies.
fn depends_on_any(c: &Candidate, frontier: &Vec<Candidate>, from: usize, to: usize) -> (b: bool)
    requires
        c.is_resolved(),
        from <= to <= frontier.len(),
    ensures
        b == depends_on(c@, modules(frontier@).subrange(from as int, to as int)),
{
    let ghost part = modules(frontier@).subrange(from as int, to as int);
    match &c.dependencies {
        Some(names) => {
            let mut j: usize = from;
            while j < to
                invariant
                    from <= j <= to <= frontier.len(),
                    part == modules(frontier@).subrange(from as int, to as int),
                    c@.dependencies == views(names@),
                    forall|i: int, k: int|
                        0 <= i < c@.dependencies.len() && 0 <= k < j - from
                            ==> #[trigger] c@.dependencies[i] != (#[trigger] part[k]).project.name,
                decreases to - j,
            {
                assert(part[j - from] == frontier@[j as int]@);
                if holds_text(names, frontier[j].project.name.as_str()) {
                    return true;
                }
                j += 1;
            }
            false
        },
        None => false,
    }
}

/// Whether one of `frontier[from..to]` names `c` among its dependencies.
fn required_by_any(c: &Candidate, frontier: &Vec<Candidate>, from: usize, to: usize) -> (b: bool)
    requires
        from <= to <= frontier.len(),
        forall|k: int| from <= k < to ==> (#[trigger] frontier[k]).is_resolved(),
    ensures
        b == required_by(c@, modules(frontier@).subrange(from as int, to as int)),
{
    let ghost part = modules(frontier@).subrange(from as int, to as int);
    let mut j: usize = from;
    while j < to
        invariant
            from <= j <= to <= frontier.len(),
            part == modules(frontier@).subrange(from as int, to as int),
            forall|k: int| from <= k < to ==> (#[trigger] frontier[k]).is_resolved(),
            forall|k: int, i: int|
                0 <= k < j - from && 0 <= i < part[k].dependencies.len()
                    ==> #[trigger] part[k].dependencies[i] != c@.project.name,
        decreases to - j,
    {
        match &frontier[j].dependencies {
            Some(names) => {
                if holds_text(names, c.project.name.as_str()) {
                    let ghost i = choose|i: int|
                        0 <= i < views(names@).len() && views(names@)[i] == c@.project.name;
                    assert(part[j - from].dependencies[i] == c@.project.name);
                    return true;
                }
            },
            None => {},
        }
        j += 1;
    }
    false
}

/// One pass over the others, with `matched[searched..]` as the frontier.
fn sweep_pools(
    rule: Growth,
    exclude: &ProjectFilters,
    matched: &mut Vec<Candidate>,
    others: &mut Vec<Candidate>,
    searched: usize,
)
    requires
        searched <= old(matched).len(),
        rule is Impact ==> resolved_from(old(others)@, 0),
        rule is Closure ==> resolved_from(old(matched)@, searched as int),
    ensures
        pools_of(final(matched)@, final(others)@) == sweep(
            rule,
            exclude@,
            modules(old(matched)@).skip(searched as int),
            pools_of(old(matched)@, old(others)@),
            0,
        ),
        rule is Impact ==> resolved_from(final(others)@, 0),
        resolved_from(old(matched)@, 0) && rule is Impact ==> resolved_from(final(matched)@, 0),
{
    let end = matched.len();
    let ghost frontier = modules(matched@).skip(searched as int);
    let ghost start = pools_of(matched@, others@);
    let mut i: usize = 0;
    while i < others.len()
        invariant
            searched <= end <= matched.len(),
            frontier == modules(matched@).subrange(searched as int, end as int),
            rule is Impact ==> resolved_from(others@, 0),
            rule is Closure ==> forall|k: int|
                searched <= k < end ==> (#[trigger] matched[k]).is_resolved(),
            resolved_from(old(matched)@, 0) && rule is Impact ==> resolved_from(matched@, 0),
            sweep(rule, exclude@, frontier, pools_of(matched@, others@), i as int) == sweep(
                rule,
                exclude@,
                frontier,
                start,
                0,
            ),
        decreases others.len() - i,
    {
        let comes = match rule {
            Growth::Impact => {
                depends_on_any(&others[i], matched, searched, end) && exclude.accepts(
                    &others[i].project,
                )
            },
            Growth::Closure => required_by_any(&others[i], matched, searched, end),
        };
        if comes {
            let ghost old_matched = matched@;
            let ghost old_others = others@;
            let c = others.swap_remove(i);
            matched.push(c);
            proof {
                assert(modules(matched@) =~= modules(old_matched).push(c@));
                assert(modules(others@) =~= swap_removed(modules(old_others), i as int));
            }
        } else {
            i += 1;
        }
    }
}

/// Waves of passes until a pass selects nothing.
fn grow_pools(
    rule: Growth,
    exclude: &ProjectFilters,
    matched: &mut Vec<Candidate>,
    others: &mut Vec<Candidate>,
)
    requires
        rule is Impact ==> resolved_from(old(others)@, 0),
    ensures
        pools_of(final(matched)@, final(others)@) == grow(
            rule,
            exclude@,
            pools_of(old(matched)@, old(others)@),
            0,
        ),
{
    let ghost start = pools_of(matched@, others@);
    let mut searched: usize = 0;
    while searched < matched.len()
        invariant
            searched <= matched.len(),
            rule is Impact ==> resolved_from(others@, 0),
            grow(rule, exclude@, pools_of(matched@, others@), searched as int) == grow(
                rule,
                exclude@,
                start,
                0,
            ),
        decreases matched.len() + others.len() - searched,
    {
        let end = matched.len();
        let ghost before = pools_of(matched@, others@);
        match rule {
            Growth::Closure => {
                resolve_from(matched, searched);
            },
            Growth::Impact => {},
        }
        sweep_pools(rule, exclude, matched, others, searched);
        proof {
            lemma_sweep_size(rule, exclude@, before.matched.skip(searched as int), before, 0);
        }
        searched = end;
    }
}

/// Computes the dependencies of the candidates from position `from` on.
fn resolve_from(v: &mut Vec<Candidate>, from: usize)
    requires
        from <= old(v).len(),
    ensures
        final(v).len() == old(v).len(),
        modules(final(v)@) == modules(old(v)@),
        resolved_from(final(v)@, from as int),
{
    let mut i: usize = from;
    while i < v.len()
        invariant
            from <= i <= v.len(),
            v.len() == old(v).len(),
            modules(v@) == modules(old(v)@),
            forall|k: int| from <= k < i ==> (#[trigger] v[k]).is_resolved(),
        decreases v.len() - i,
    {
        let slot = &mut v[i];
        slot.resolve();
        i += 1;
    }
}

/// Grows the modules that the filters matched into the modules to build.
///
/// `matched` holds the modules that the filters matched and `others` the rest.
/// With `propagate`, the modules that depend on a selected module are added
/// first, as far as `exclude` accepts them. Then the modules that a selected
/// module depends on are added, whatever `exclude` says of them.
pub fn select(
    matched: Vec<Candidate>,
    others: Vec<Candidate>,
    propagate: bool,
    exclude: &ProjectFilters,
) -> (r: Vec<Candidate>)
    ensures
        modules(r@) == selection(modules(matched@), modules(others@), propagate, exclude@),
{
    let mut matched = matched;
    let mut others = others;
    let ghost start = pools_of(matched@, others@);
    if propagate && others.len() > 0 && matched.len() > 0 {
        read_dependencies(&mut others);
        grow_pools(Growth::Impact, exclude, &mut matched, &mut others);
    } else {
        proof {
            if propagate {
                lemma_grow_idle(Growth::Impact, exclude@, start, 0);
            }
        }
    }
    let ghost impacted = pools_of(matched@, others@);
    if others.len() > 0 {
        grow_pools(Growth::Closure, exclude, &mut matched, &mut others);
    } else {
        proof {
            lemma_grow_idle(Growth::Closure, exclude@, impacted, 0);
        }
    }
    matched
}

} // verus!
