//! Lane layout of the commit graph: each commit (newest first) gets a
//! column, and each row records the edges that enter it from above and
//! leave it below, with a color per lane.

use vstd::prelude::*;
use crate::git::texts;
use crate::types::{opt_text, CommitEntry};

verus! {

/// Per-row graph drawing data.
#[derive(Debug, Clone, PartialEq, Eq)]
pub struct GraphRow {
    /// Column where the commit dot sits.
    pub commit_col: usize,
    /// Color index for the commit dot.
    pub commit_color: usize,
    /// Edges entering from the top: (from_col, to_col, color_index).
    pub incoming: Vec<(usize, usize, usize)>,
    /// Edges leaving from the bottom: (from_col, to_col, color_index).
    pub outgoing: Vec<(usize, usize, usize)>,
    /// Total number of columns active at this row (for width calculation).
    pub num_cols: usize,
}

/// The value of a `GraphRow`.
pub struct RowView {
    pub commit_col: int,
    pub commit_color: int,
    pub incoming: Seq<(int, int, int)>,
    pub outgoing: Seq<(int, int, int)>,
    pub num_cols: int,
}

pub open spec fn edge_view(e: (usize, usize, usize)) -> (int, int, int) {
    (e.0 as int, e.1 as int, e.2 as int)
}

pub open spec fn edge_views(es: Seq<(usize, usize, usize)>) -> Seq<(int, int, int)> {
    es.map_values(|e: (usize, usize, usize)| edge_view(e))
}

impl View for GraphRow {
    type V = RowView;

    open spec fn view(&self) -> RowView {
        RowView {
            commit_col: self.commit_col as int,
            commit_color: self.commit_color as int,
            incoming: edge_views(self.incoming@),
            outgoing: edge_views(self.outgoing@),
            num_cols: self.num_cols as int,
        }
    }
}

pub open spec fn row_views(rs: Seq<GraphRow>) -> Seq<RowView> {
    rs.map_values(|r: GraphRow| r@)
}

/// The layout state between commits: which commit each lane waits for
/// (`None`: free), each lane's color, and the next unused color.
pub struct Lanes {
    pub lanes: Seq<Option<Seq<char>>>,
    pub colors: Seq<int>,
    pub next: int,
}

/// The first position at or after `i` holding `t`, or `l.len()`.
pub open spec fn first_from(l: Seq<Option<Seq<char>>>, t: Option<Seq<char>>, i: int) -> int
    decreases l.len() - i,
{
    if i < 0 || i >= l.len() {
        l.len() as int
    } else if l[i] == t {
        i
    } else {
        first_from(l, t, i + 1)
    }
}

/// The first position holding `t`, or `l.len()`.
pub open spec fn first_of(l: Seq<Option<Seq<char>>>, t: Option<Seq<char>>) -> int {
    first_from(l, t, 0)
}

pub proof fn lemma_first_from(l: Seq<Option<Seq<char>>>, t: Option<Seq<char>>, i: int)
    requires
        0 <= i <= l.len(),
    ensures
        i <= first_from(l, t, i) <= l.len(),
        first_from(l, t, i) < l.len() ==> l[first_from(l, t, i)] == t,
        forall|k: int| i <= k < first_from(l, t, i) ==> l[k] != t,
    decreases l.len() - i,
{
    if i < l.len() && l[i] != t {
        lemma_first_from(l, t, i + 1);
    }
}

pub proof fn lemma_first_from_skip(l: Seq<Option<Seq<char>>>, t: Option<Seq<char>>, i: int, j: int)
    requires
        0 <= i <= j <= l.len(),
        forall|k: int| i <= k < j ==> l[k] != t,
    ensures
        first_from(l, t, i) == first_from(l, t, j),
    decreases j - i,
{
    if i < j {
        lemma_first_from_skip(l, t, i + 1, j);
    }
}

/// The color after `n`; colors are machine words and wrap around.
pub open spec fn color_after(n: int) -> int {
    if n >= usize::MAX {
        0
    } else {
        n + 1
    }
}

/// Open a lane for a commit nobody was waiting for: the first free lane,
/// or a new one (which takes a color of its own first); the lane then gets
/// the next color.
pub open spec fn open_commit_lane(st: Lanes, h: Seq<char>) -> (Lanes, int) {
    let col = first_of(st.lanes, None);
    let st1 = if col == st.lanes.len() {
        Lanes { lanes: st.lanes.push(None), colors: st.colors.push(st.next), next: color_after(st.next) }
    } else {
        st
    };
    (
        Lanes {
            lanes: st1.lanes.update(col, Some(h)),
            colors: st1.colors.update(col, st1.next),
            next: color_after(st1.next),
        },
        col,
    )
}

/// A further parent gets a lane unless one waits for it already: the first
/// free lane (recolored) or a new lane.
pub open spec fn place_parent(st: Lanes, p: Seq<char>) -> Lanes {
    if first_of(st.lanes, Some(p)) < st.lanes.len() {
        st
    } else {
        let col = first_of(st.lanes, None);
        if col == st.lanes.len() {
            Lanes { lanes: st.lanes.push(Some(p)), colors: st.colors.push(st.next), next: color_after(st.next) }
        } else {
            Lanes {
                lanes: st.lanes.update(col, Some(p)),
                colors: st.colors.update(col, st.next),
                next: color_after(st.next),
            }
        }
    }
}

/// Place the parents in order.
pub open spec fn place_parents(st: Lanes, ps: Seq<Seq<char>>) -> Lanes
    decreases ps.len(),
{
    if ps.len() == 0 {
        st
    } else {
        place_parent(place_parents(st, ps.drop_last()), ps.last())
    }
}

/// Lane `i` of the lanes before the commit waited for `h`.
pub open spec fn waited(l0: Seq<Option<Seq<char>>>, h: Seq<char>, i: int) -> bool {
    0 <= i < l0.len() && l0[i] == Some(h)
}

/// Edges entering the row, for the first `n` lanes: a lane that waited for
/// the commit bends into its column, the others go straight down.
pub open spec fn edges_in(
    lb: Seq<Option<Seq<char>>>,
    cb: Seq<int>,
    l0: Seq<Option<Seq<char>>>,
    h: Seq<char>,
    c: int,
    n: int,
) -> Seq<(int, int, int)>
    decreases n,
{
    if n <= 0 {
        Seq::empty()
    } else {
        let r = edges_in(lb, cb, l0, h, c, n - 1);
        let i = n - 1;
        if lb[i] is Some {
            r.push((i, if waited(l0, h, i) { c } else { i }, cb[i]))
        } else {
            r
        }
    }
}

/// Edges leaving the row, for the first `n` lanes: a lane that was already
/// busy (and was not merged into the commit) continues straight, the others
/// start at the commit's column.
pub open spec fn edges_out(
    la: Seq<Option<Seq<char>>>,
    ca: Seq<int>,
    lb: Seq<Option<Seq<char>>>,
    l0: Seq<Option<Seq<char>>>,
    h: Seq<char>,
    c: int,
    n: int,
) -> Seq<(int, int, int)>
    decreases n,
{
    if n <= 0 {
        Seq::empty()
    } else {
        let r = edges_out(la, ca, lb, l0, h, c, n - 1);
        let i = n - 1;
        if la[i] is Some {
            let from = if i < lb.len() && lb[i] is Some && !(waited(l0, h, i) && i != c) {
                i
            } else {
                c
            };
            r.push((from, i, ca[i]))
        } else {
            r
        }
    }
}

/// The lanes after the commit `h` with parents `ps`, and its row.
pub open spec fn graph_step(st: Lanes, h: Seq<char>, ps: Seq<Seq<char>>) -> (Lanes, RowView) {
    let l0 = st.lanes;
    let e = first_of(l0, Some(h));
    let (sb, c) = if e < l0.len() {
        (st, e)
    } else {
        open_commit_lane(st, h)
    };
    let cleared = Seq::new(
        sb.lanes.len(),
        |i: int|
            if i != c && waited(l0, h, i) {
                None
            } else {
                sb.lanes[i]
            },
    );
    let s2 = Lanes { lanes: cleared, colors: sb.colors, next: sb.next };
    let s3 = if ps.len() == 0 {
        Lanes { lanes: s2.lanes.update(c, None), colors: s2.colors, next: s2.next }
    } else {
        place_parents(
            Lanes { lanes: s2.lanes.update(c, Some(ps[0])), colors: s2.colors, next: s2.next },
            ps.skip(1),
        )
    };
    (
        s3,
        RowView {
            commit_col: c,
            commit_color: sb.colors[c],
            incoming: edges_in(sb.lanes, sb.colors, l0, h, c, sb.lanes.len() as int),
            outgoing: edges_out(s3.lanes, s3.colors, sb.lanes, l0, h, c, s3.lanes.len() as int),
            num_cols: s3.lanes.len() as int,
        },
    )
}

/// What the layout reads of a commit: its hash and its parents.
pub open spec fn commit_key(c: CommitEntry) -> (Seq<char>, Seq<Seq<char>>) {
    (c.hash@, texts(c.parents@))
}

pub open spec fn commit_keys(cs: Seq<CommitEntry>) -> Seq<(Seq<char>, Seq<Seq<char>>)> {
    cs.map_values(|c: CommitEntry| commit_key(c))
}

pub open spec fn empty_lanes() -> Lanes {
    Lanes { lanes: Seq::empty(), colors: Seq::empty(), next: 0 }
}

/// The lanes after the given commits, and their rows.
pub open spec fn graph_fold(cs: Seq<(Seq<char>, Seq<Seq<char>>)>) -> (Lanes, Seq<RowView>)
    decreases cs.len(),
{
    if cs.len() == 0 {
        (empty_lanes(), Seq::empty())
    } else {
        let (st, rows) = graph_fold(cs.drop_last());
        let (st2, row) = graph_step(st, cs.last().0, cs.last().1);
        (st2, rows.push(row))
    }
}

/// The rows of the graph of the given commits.
pub open spec fn graph_rows(cs: Seq<(Seq<char>, Seq<Seq<char>>)>) -> Seq<RowView> {
    graph_fold(cs).1
}

// ---------------------------------------------------------------------------
// Executable layout
// ---------------------------------------------------------------------------

pub open spec fn lane_view(l: Seq<Option<String>>) -> Seq<Option<Seq<char>>> {
    l.map_values(|o: Option<String>| opt_text(o))
}

pub open spec fn color_view(c: Seq<usize>) -> Seq<int> {
    c.map_values(|x: usize| x as int)
}

/// The executable layout state holds the layout state `st`.
pub open spec fn holds(lanes: Seq<Option<String>>, colors: Seq<usize>, next: usize, st: Lanes) -> bool {
    &&& lane_view(lanes) == st.lanes
    &&& color_view(colors) == st.colors
    &&& next as int == st.next
    &&& lanes.len() == colors.len()
}

fn bump(n: usize) -> (r: usize)
    ensures
        r as int == color_after(n as int),
{
    if n == usize::MAX {
        0
    } else {
        n + 1
    }
}

fn same_lane(a: &Option<String>, b: &Option<String>) -> (r: bool)
    ensures
        r == (opt_text(*a) == opt_text(*b)),
{
    match (a, b) {
        (Some(x), Some(y)) => *x == *y,
        (None, None) => true,
        _ => false,
    }
}

fn first_lane_of(lanes: &Vec<Option<String>>, t: &Option<String>) -> (r: usize)
    ensures
        r as int == first_of(lane_view(lanes@), opt_text(*t)),
{
    let ghost l = lane_view(lanes@);
    let mut i: usize = 0;
    while i < lanes.len()
        invariant
            l == lane_view(lanes@),
            i <= lanes@.len(),
            forall|k: int| 0 <= k < i ==> l[k] != opt_text(*t),
        decreases lanes@.len() - i,
    {
        if same_lane(&lanes[i], t) {
            proof {
                lemma_first_from_skip(l, opt_text(*t), 0, i as int);
            }
            return i;
        }
        i = i + 1;
    }
    proof {
        lemma_first_from_skip(l, opt_text(*t), 0, i as int);
    }
    i
}

fn open_commit_lane_exec(
    lanes: &mut Vec<Option<String>>,
    colors: &mut Vec<usize>,
    next: &mut usize,
    h: &String,
    Ghost(st): Ghost<Lanes>,
) -> (col: usize)
    requires
        holds(old(lanes)@, old(colors)@, *old(next), st),
    ensures
        holds(final(lanes)@, final(colors)@, *final(next), open_commit_lane(st, h@).0),
        col as int == open_commit_lane(st, h@).1,
        col < final(lanes)@.len(),
{
    let col = first_lane_of(lanes, &None);
    proof {
        lemma_first_from(st.lanes, None, 0);
    }
    if col == lanes.len() {
        lanes.push(None);
        colors.push(*next);
        *next = bump(*next);
        assert(lane_view(lanes@) =~= st.lanes.push(None));
        assert(color_view(colors@) =~= st.colors.push(st.next));
    }
    let ghost mid_l = lane_view(lanes@);
    let ghost mid_c = color_view(colors@);
    let ghost mid_next = *next as int;
    lanes.set(col, Some(h.clone()));
    colors.set(col, *next);
    *next = bump(*next);
    assert(lane_view(lanes@) =~= mid_l.update(col as int, Some(h@)));
    assert(color_view(colors@) =~= mid_c.update(col as int, mid_next));
    col
}

fn place_parent_exec(
    lanes: &mut Vec<Option<String>>,
    colors: &mut Vec<usize>,
    next: &mut usize,
    p: &String,
    Ghost(st): Ghost<Lanes>,
)
    requires
        holds(old(lanes)@, old(colors)@, *old(next), st),
    ensures
        holds(final(lanes)@, final(colors)@, *final(next), place_parent(st, p@)),
{
    let target = Some(p.clone());
    let found = first_lane_of(lanes, &target);
    if found < lanes.len() {
        return;
    }
    let col = first_lane_of(lanes, &None);
    proof {
        lemma_first_from(st.lanes, None, 0);
    }
    if col == lanes.len() {
        lanes.push(Some(p.clone()));
        colors.push(*next);
        *next = bump(*next);
        assert(lane_view(lanes@) =~= st.lanes.push(Some(p@)));
        assert(color_view(colors@) =~= st.colors.push(st.next));
    } else {
        lanes.set(col, Some(p.clone()));
        colors.set(col, *next);
        *next = bump(*next);
        assert(lane_view(lanes@) =~= st.lanes.update(col as int, Some(p@)));
        assert(color_view(colors@) =~= st.colors.update(col as int, st.next));
    }
}

pub proof fn lemma_place_parents_next(st: Lanes, ps: Seq<Seq<char>>)
    ensures
        st.lanes.len() == st.colors.len() ==> place_parents(st, ps).lanes.len() == place_parents(
            st,
            ps,
        ).colors.len(),
        place_parents(st, ps).lanes.len() >= st.lanes.len(),
    decreases ps.len(),
{
    if ps.len() > 0 {
        lemma_place_parents_next(st, ps.drop_last());
        let pp = place_parents(st, ps.drop_last());
        lemma_first_from(pp.lanes, None, 0);
    }
}

/// The lanes after clearing the lanes that waited for `h` other than `c`.
pub open spec fn cleared_lanes(
    lb: Seq<Option<Seq<char>>>,
    l0: Seq<Option<Seq<char>>>,
    h: Seq<char>,
    c: int,
) -> Seq<Option<Seq<char>>> {
    Seq::new(lb.len(), |i: int| if i != c && waited(l0, h, i) { None } else { lb[i] })
}

fn graph_step_exec(
    lanes: &mut Vec<Option<String>>,
    colors: &mut Vec<usize>,
    next: &mut usize,
    commit: &CommitEntry,
    Ghost(st): Ghost<Lanes>,
) -> (row: GraphRow)
    requires
        holds(old(lanes)@, old(colors)@, *old(next), st),
    ensures
        holds(
            final(lanes)@,
            final(colors)@,
            *final(next),
            graph_step(st, commit.hash@, texts(commit.parents@)).0,
        ),
        row@ == graph_step(st, commit.hash@, texts(commit.parents@)).1,
{
    let ghost h = commit.hash@;
    let ghost ps = texts(commit.parents@);
    let ghost l0 = st.lanes;
    let target = Some(commit.hash.clone());
    let n0 = lanes.len();
    let mut waited_flags: Vec<bool> = Vec::new();
    let mut i: usize = 0;
    while i < n0
        invariant
            holds(lanes@, colors@, *next, st),
            l0 == st.lanes,
            n0 == lanes@.len(),
            opt_text(target) == Some(h),
            i <= n0,
            waited_flags@.len() == i,
            forall|k: int| 0 <= k < i ==> waited_flags@[k] == waited(l0, h, k),
        decreases n0 - i,
    {
        let w = same_lane(&lanes[i], &target);
        assert(lane_view(lanes@)[i as int] == opt_text(lanes@[i as int]));
        assert(w == waited(l0, h, i as int));
        waited_flags.push(w);
        assert(waited_flags@[i as int] == waited(l0, h, i as int));
        i = i + 1;
    }
    let e = first_lane_of(lanes, &target);
    proof {
        lemma_first_from(l0, Some(h), 0);
    }
    let ghost sb: Lanes = if (e as int) < l0.len() {
        st
    } else {
        open_commit_lane(st, h).0
    };
    let c = if e < n0 {
        e
    } else {
        open_commit_lane_exec(lanes, colors, next, &commit.hash, Ghost(st))
    };
    assert(holds(lanes@, colors@, *next, sb));
    proof {
        lemma_first_from(st.lanes, None, 0);
    }
    assert((sb, c as int) == (if (e as int) < l0.len() {
        (st, e as int)
    } else {
        open_commit_lane(st, h)
    }));
    let color = colors[c];
    let nb = lanes.len();
    assert(n0 <= nb);
    let mut incoming: Vec<(usize, usize, usize)> = Vec::new();
    let mut busy: Vec<bool> = Vec::new();
    let mut i: usize = 0;
    while i < nb
        invariant
            holds(lanes@, colors@, *next, sb),
            nb == lanes@.len(),
            n0 <= nb,
            c < nb,
            waited_flags@.len() == n0,
            n0 == l0.len(),
            forall|k: int| 0 <= k < n0 ==> waited_flags@[k] == waited(l0, h, k),
            i <= nb,
            busy@.len() == i,
            forall|k: int| 0 <= k < i ==> busy@[k] == sb.lanes[k] is Some,
            edge_views(incoming@) == edges_in(sb.lanes, sb.colors, l0, h, c as int, i as int),
        decreases nb - i,
    {
        let b = lanes[i].is_some();
        assert(b == sb.lanes[i as int] is Some);
        if b {
            let to = if i < n0 && waited_flags[i] {
                c
            } else {
                i
            };
            let ghost prev = incoming@;
            incoming.push((i, to, colors[i]));
            assert(edge_views(incoming@) =~= edge_views(prev).push(edge_view((i, to, colors@[i as int]))));
        }
        busy.push(b);
        i = i + 1;
    }
    let ghost cl = cleared_lanes(sb.lanes, l0, h, c as int);
    let mut i: usize = 0;
    while i < nb
        invariant
            lanes@.len() == nb,
            color_view(colors@) == sb.colors,
            colors@.len() == nb,
            *next as int == sb.next,
            n0 <= nb,
            waited_flags@.len() == n0,
            n0 == l0.len(),
            forall|k: int| 0 <= k < n0 ==> waited_flags@[k] == waited(l0, h, k),
            sb.lanes.len() == nb,
            cl == cleared_lanes(sb.lanes, l0, h, c as int),
            i <= nb,
            forall|k: int| 0 <= k < nb ==> lane_view(lanes@)[k] == if k < i {
                cl[k]
            } else {
                sb.lanes[k]
            },
        decreases nb - i,
    {
        if i != c && i < n0 && waited_flags[i] {
            let ghost prev = lane_view(lanes@);
            lanes.set(i, None);
            assert(lane_view(lanes@) =~= prev.update(i as int, None));
        }
        i = i + 1;
    }
    assert(lane_view(lanes@) =~= cl);
    let ghost s2 = Lanes { lanes: cl, colors: sb.colors, next: sb.next };
    assert(holds(lanes@, colors@, *next, s2));
    assert(cl =~= Seq::new(
        sb.lanes.len(),
        |i: int|
            if i != c && waited(l0, h, i) {
                None
            } else {
                sb.lanes[i]
            },
    ));
    if commit.parents.len() == 0 {
        lanes.set(c, None);
        assert(lane_view(lanes@) =~= cl.update(c as int, None));
    } else {
        lanes.set(c, Some(commit.parents[0].clone()));
        assert(lane_view(lanes@) =~= cl.update(c as int, Some(ps[0])));
        let ghost s2p = Lanes { lanes: cl.update(c as int, Some(ps[0])), colors: sb.colors, next: sb.next };
        let ghost rest = ps.skip(1);
        let mut k: usize = 1;
        proof {
            assert(rest.take(0) =~= Seq::<Seq<char>>::empty());
        }
        while k < commit.parents.len()
            invariant
                1 <= k <= commit.parents@.len(),
                ps == texts(commit.parents@),
                rest == ps.skip(1),
                holds(lanes@, colors@, *next, place_parents(s2p, rest.take(k - 1))),
                s2p.next == sb.next,
            decreases commit.parents@.len() - k,
        {
            let ghost cur = place_parents(s2p, rest.take(k - 1));
            place_parent_exec(lanes, colors, next, &commit.parents[k], Ghost(cur));
            proof {
                assert(rest.take(k as int).drop_last() =~= rest.take(k - 1));
                assert(rest.take(k as int).last() == commit.parents@[k as int]@);
            }
            k = k + 1;
        }
        assert(rest.take(commit.parents@.len() - 1) =~= rest);
        proof {
            lemma_place_parents_next(s2p, rest);
        }
    }
    let na = lanes.len();
    let ghost s3 = graph_step(st, h, ps).0;
    assert(holds(lanes@, colors@, *next, s3));
    let mut outgoing: Vec<(usize, usize, usize)> = Vec::new();
    let mut i: usize = 0;
    while i < na
        invariant
            holds(lanes@, colors@, *next, s3),
            na == lanes@.len(),
            nb == busy@.len(),
            forall|k: int| 0 <= k < nb ==> busy@[k] == sb.lanes[k] is Some,
            sb.lanes.len() == nb,
            waited_flags@.len() == n0,
            n0 == l0.len(),
            forall|k: int| 0 <= k < n0 ==> waited_flags@[k] == waited(l0, h, k),
            i <= na,
            edge_views(outgoing@) == edges_out(s3.lanes, s3.colors, sb.lanes, l0, h, c as int, i as int),
        decreases na - i,
    {
        if lanes[i].is_some() {
            let from = if i < nb && busy[i] && !(i < n0 && waited_flags[i] && i != c) {
                i
            } else {
                c
            };
            let ghost prev = outgoing@;
            outgoing.push((from, i, colors[i]));
            assert(edge_views(outgoing@) =~= edge_views(prev).push(edge_view((from, i, colors@[i as int]))));
        }
        i = i + 1;
    }
    GraphRow { commit_col: c, commit_color: color, incoming, outgoing, num_cols: na }
}

/// Compute the graph layout of commits in topological order, newest first:
/// one row per commit.
pub fn compute_graph(commits: &Vec<CommitEntry>) -> (rows: Vec<GraphRow>)
    ensures
        row_views(rows@) == graph_rows(commit_keys(commits@)),
{
    let ghost keys = commit_keys(commits@);
    let mut lanes: Vec<Option<String>> = Vec::new();
    let mut colors: Vec<usize> = Vec::new();
    let mut next: usize = 0;
    let mut rows: Vec<GraphRow> = Vec::new();
    let mut i: usize = 0;
    proof {
        assert(keys.take(0) =~= Seq::<(Seq<char>, Seq<Seq<char>>)>::empty());
        assert(lane_view(lanes@) =~= Seq::<Option<Seq<char>>>::empty());
        assert(color_view(colors@) =~= Seq::<int>::empty());
        assert(row_views(rows@) =~= Seq::<RowView>::empty());
    }
    while i < commits.len()
        invariant
            keys == commit_keys(commits@),
            i <= commits@.len(),
            holds(lanes@, colors@, next, graph_fold(keys.take(i as int)).0),
            row_views(rows@) == graph_fold(keys.take(i as int)).1,
        decreases commits@.len() - i,
    {
        proof {
            assert(keys.take(i + 1).drop_last() =~= keys.take(i as int));
            assert(keys.take(i + 1).last() == keys[i as int]);
            assert(keys[i as int] == commit_key(commits@[i as int]));
        }
        let ghost st = graph_fold(keys.take(i as int)).0;
        let row = graph_step_exec(&mut lanes, &mut colors, &mut next, &commits[i], Ghost(st));
        let ghost prev = rows@;
        rows.push(row);
        assert(row_views(rows@) =~= row_views(prev).push(row@));
        i = i + 1;
    }
    assert(keys.take(commits@.len() as int) =~= keys);
    rows
}

// ---------------------------------------------------------------------------
// Laws of the layout
// ---------------------------------------------------------------------------

/// A row's dot and every edge endpoint lie within its columns.
pub open spec fn row_well_formed(r: RowView) -> bool {
    &&& 0 <= r.commit_col < r.num_cols
    &&& forall|k: int|
        0 <= k < r.incoming.len() ==> 0 <= (#[trigger] r.incoming[k]).0 < r.num_cols && 0
            <= r.incoming[k].1 < r.num_cols
    &&& forall|k: int|
        0 <= k < r.outgoing.len() ==> 0 <= (#[trigger] r.outgoing[k]).0 < r.num_cols && 0
            <= r.outgoing[k].1 < r.num_cols
}

pub proof fn lemma_edges_in_bounds(
    lb: Seq<Option<Seq<char>>>,
    cb: Seq<int>,
    l0: Seq<Option<Seq<char>>>,
    h: Seq<char>,
    c: int,
    n: int,
)
    ensures
        forall|k: int|
            0 <= k < edges_in(lb, cb, l0, h, c, n).len() ==> 0 <= (#[trigger] edges_in(
                lb,
                cb,
                l0,
                h,
                c,
                n,
            )[k]).0 < n && (edges_in(lb, cb, l0, h, c, n)[k].1 == c || edges_in(
                lb,
                cb,
                l0,
                h,
                c,
                n,
            )[k].1 == edges_in(lb, cb, l0, h, c, n)[k].0),
    decreases n,
{
    if n > 0 {
        lemma_edges_in_bounds(lb, cb, l0, h, c, n - 1);
        let r = edges_in(lb, cb, l0, h, c, n - 1);
        let full = edges_in(lb, cb, l0, h, c, n);
        assert forall|k: int| 0 <= k < full.len() implies 0 <= (#[trigger] full[k]).0 < n && (
        full[k].1 == c || full[k].1 == full[k].0) by {
            if k < r.len() {
                assert(full[k] == r[k]);
            }
        }
    }
}

pub proof fn lemma_edges_out_bounds(
    la: Seq<Option<Seq<char>>>,
    ca: Seq<int>,
    lb: Seq<Option<Seq<char>>>,
    l0: Seq<Option<Seq<char>>>,
    h: Seq<char>,
    c: int,
    n: int,
)
    ensures
        forall|k: int|
            0 <= k < edges_out(la, ca, lb, l0, h, c, n).len() ==> 0 <= (#[trigger] edges_out(
                la,
                ca,
                lb,
                l0,
                h,
                c,
                n,
            )[k]).1 < n && (edges_out(la, ca, lb, l0, h, c, n)[k].0 == c || edges_out(
                la,
                ca,
                lb,
                l0,
                h,
                c,
                n,
            )[k].0 == edges_out(la, ca, lb, l0, h, c, n)[k].1),
    decreases n,
{
    if n > 0 {
        lemma_edges_out_bounds(la, ca, lb, l0, h, c, n - 1);
        let r = edges_out(la, ca, lb, l0, h, c, n - 1);
        let full = edges_out(la, ca, lb, l0, h, c, n);
        assert forall|k: int| 0 <= k < full.len() implies 0 <= (#[trigger] full[k]).1 < n && (
        full[k].0 == c || full[k].0 == full[k].1) by {
            if k < r.len() {
                assert(full[k] == r[k]);
            }
        }
    }
}

pub proof fn lemma_place_parents_keeps_busy(st: Lanes, ps: Seq<Seq<char>>, i: int)
    requires
        0 <= i < st.lanes.len(),
        st.lanes[i] is Some,
    ensures
        i < place_parents(st, ps).lanes.len(),
        place_parents(st, ps).lanes[i] == st.lanes[i],
    decreases ps.len(),
{
    if ps.len() > 0 {
        lemma_place_parents_keeps_busy(st, ps.drop_last(), i);
        let pp = place_parents(st, ps.drop_last());
        lemma_first_from(pp.lanes, None, 0);
    }
}

/// One step of the layout keeps lanes and colors paired, never drops a
/// lane, yields a well-formed row with as many columns as lanes, and leaves
/// the commit's first parent waiting in the commit's column.
pub proof fn lemma_step(st: Lanes, h: Seq<char>, ps: Seq<Seq<char>>)
    requires
        st.lanes.len() == st.colors.len(),
    ensures
        ({
            let (st2, row) = graph_step(st, h, ps);
            &&& st2.lanes.len() == st2.colors.len()
            &&& st2.lanes.len() >= st.lanes.len()
            &&& row.num_cols == st2.lanes.len()
            &&& row_well_formed(row)
            &&& first_of(st.lanes, Some(h)) < st.lanes.len() ==> row.commit_col == first_of(
                st.lanes,
                Some(h),
            )
            &&& ps.len() > 0 ==> st2.lanes[row.commit_col] == Some(ps[0])
        }),
{
    let l0 = st.lanes;
    lemma_first_from(l0, Some(h), 0);
    lemma_first_from(l0, None, 0);
    let e = first_of(l0, Some(h));
    let (sb, c) = if e < l0.len() {
        (st, e)
    } else {
        open_commit_lane(st, h)
    };
    let cl = cleared_lanes(sb.lanes, l0, h, c);
    assert(cl =~= Seq::new(
        sb.lanes.len(),
        |i: int|
            if i != c && waited(l0, h, i) {
                None
            } else {
                sb.lanes[i]
            },
    ));
    let (st2, row) = graph_step(st, h, ps);
    assert(0 <= c < sb.lanes.len());
    assert(sb.lanes.len() == sb.colors.len());
    if ps.len() > 0 {
        let s2p = Lanes { lanes: cl.update(c, Some(ps[0])), colors: sb.colors, next: sb.next };
        lemma_place_parents_next(s2p, ps.skip(1));
        lemma_place_parents_keeps_busy(s2p, ps.skip(1), c);
    }
    lemma_edges_in_bounds(sb.lanes, sb.colors, l0, h, c, sb.lanes.len() as int);
    lemma_edges_out_bounds(st2.lanes, st2.colors, sb.lanes, l0, h, c, st2.lanes.len() as int);
    assert(cl.len() == sb.lanes.len());
    assert(st2.lanes.len() == st2.colors.len());
    assert(st2.lanes.len() >= sb.lanes.len());
    assert(sb.lanes.len() >= st.lanes.len());
    assert(row.commit_col == c);
    assert(row.num_cols == st2.lanes.len());
    assert(row_well_formed(row));
}

pub proof fn lemma_fold(cs: Seq<(Seq<char>, Seq<Seq<char>>)>)
    ensures
        ({
            let (st, rows) = graph_fold(cs);
            &&& rows.len() == cs.len()
            &&& st.lanes.len() == st.colors.len()
            &&& forall|k: int| 0 <= k < rows.len() ==> row_well_formed(#[trigger] rows[k])
            &&& forall|k: int| 0 <= k < rows.len() ==> (#[trigger] rows[k]).num_cols <= st.lanes.len()
            &&& rows.len() > 0 ==> rows.last().num_cols == st.lanes.len()
        }),
    decreases cs.len(),
{
    if cs.len() > 0 {
        lemma_fold(cs.drop_last());
        let (st, rows) = graph_fold(cs.drop_last());
        lemma_step(st, cs.last().0, cs.last().1);
    }
}

pub proof fn lemma_fold_prefix(cs: Seq<(Seq<char>, Seq<Seq<char>>)>, i: int)
    requires
        0 <= i <= cs.len(),
    ensures
        graph_fold(cs).1.take(i) == graph_fold(cs.take(i)).1,
    decreases cs.len() - i,
{
    if i < cs.len() {
        lemma_fold_prefix(cs.drop_last(), i);
        assert(cs.drop_last().take(i) =~= cs.take(i));
        lemma_fold(cs.drop_last());
        assert(graph_fold(cs).1.take(i) =~= graph_fold(cs.drop_last()).1.take(i));
    } else {
        lemma_fold(cs);
        assert(cs.take(i) =~= cs);
        assert(graph_fold(cs).1.take(i) =~= graph_fold(cs).1);
    }
}

/// Layout laws: one row per commit; each row's dot and edges lie within its
/// columns; the number of columns never decreases from a row to the next.
pub proof fn law_graph_rows_well_formed(cs: Seq<(Seq<char>, Seq<Seq<char>>)>)
    ensures
        graph_rows(cs).len() == cs.len(),
        forall|k: int| 0 <= k < cs.len() ==> row_well_formed(#[trigger] graph_rows(cs)[k]),
        forall|k: int|
            0 <= k < cs.len() - 1 ==> (#[trigger] graph_rows(cs)[k]).num_cols <= graph_rows(
                cs,
            )[k + 1].num_cols,
{
    lemma_fold(cs);
    assert forall|k: int| 0 <= k < cs.len() - 1 implies (#[trigger] graph_rows(cs)[k]).num_cols
        <= graph_rows(cs)[k + 1].num_cols by {
        lemma_fold_prefix(cs, k + 2);
        lemma_fold(cs.take(k + 2));
        lemma_fold(cs.take(k + 1));
        assert(cs.take(k + 2).drop_last() =~= cs.take(k + 1));
        let (st1, rows1) = graph_fold(cs.take(k + 1));
        lemma_step(st1, cs[k + 1].0, cs[k + 1].1);
        assert(graph_rows(cs)[k] == graph_fold(cs.take(k + 2)).1[k]);
        assert(graph_rows(cs)[k + 1] == graph_fold(cs.take(k + 2)).1[k + 1]);
    }
}

/// A commit that some lane was waiting for is drawn in the first such lane;
/// and when a commit is directly followed by its first parent, the parent is
/// drawn in the same column or further left.
pub proof fn law_graph_columns(cs: Seq<(Seq<char>, Seq<Seq<char>>)>, k: int)
    requires
        0 <= k < cs.len(),
    ensures
        ({
            let st = graph_fold(cs.take(k)).0;
            first_of(st.lanes, Some(cs[k].0)) < st.lanes.len() ==> graph_rows(cs)[k].commit_col
                == first_of(st.lanes, Some(cs[k].0))
        }),
        k + 1 < cs.len() && cs[k].1.len() > 0 && cs[k + 1].0 == cs[k].1[0] ==> graph_rows(
            cs,
        )[k + 1].commit_col <= graph_rows(cs)[k].commit_col,
{
    lemma_fold(cs);
    lemma_fold_prefix(cs, k + 1);
    lemma_fold(cs.take(k));
    assert(cs.take(k + 1).drop_last() =~= cs.take(k));
    let st = graph_fold(cs.take(k)).0;
    lemma_step(st, cs[k].0, cs[k].1);
    assert(graph_rows(cs)[k] == graph_fold(cs.take(k + 1)).1[k]);
    if k + 1 < cs.len() && cs[k].1.len() > 0 && cs[k + 1].0 == cs[k].1[0] {
        lemma_fold_prefix(cs, k + 2);
        assert(cs.take(k + 2).drop_last() =~= cs.take(k + 1));
        let st1 = graph_fold(cs.take(k + 1)).0;
        lemma_fold(cs.take(k + 1));
        lemma_step(st1, cs[k + 1].0, cs[k + 1].1);
        let c = graph_rows(cs)[k].commit_col;
        assert(st1.lanes[c] == Some(cs[k + 1].0));
        lemma_first_from(st1.lanes, Some(cs[k + 1].0), 0);
        assert(graph_rows(cs)[k + 1] == graph_fold(cs.take(k + 2)).1[k + 1]);
    }
}

/// A commit that no lane waits for (a new branch tip) takes the first free
/// lane when some lane is free, so the graph widens only when every lane
/// is busy; the lanes before a row are as many as the columns of the row
/// above it.
pub proof fn law_new_tip_takes_first_free_lane(cs: Seq<(Seq<char>, Seq<Seq<char>>)>, k: int)
    requires
        0 <= k < cs.len(),
    ensures
        ({
            let st = graph_fold(cs.take(k)).0;
            let row = graph_rows(cs)[k];
            &&& k > 0 ==> st.lanes.len() == graph_rows(cs)[k - 1].num_cols
            &&& (forall|i: int| 0 <= i < st.lanes.len() ==> st.lanes[i] != Some(cs[k].0)) ==> {
                &&& (exists|i: int| 0 <= i < st.lanes.len() && st.lanes[i] is None) ==> {
                    &&& row.commit_col < st.lanes.len()
                    &&& st.lanes[row.commit_col] is None
                    &&& forall|i: int| 0 <= i < row.commit_col ==> st.lanes[i] is Some
                }
                &&& (forall|i: int| 0 <= i < st.lanes.len() ==> st.lanes[i] is Some) ==> row.commit_col
                    == st.lanes.len()
            }
        }),
{
    lemma_fold(cs);
    lemma_fold_prefix(cs, k + 1);
    lemma_fold(cs.take(k));
    assert(cs.take(k + 1).drop_last() =~= cs.take(k));
    let st = graph_fold(cs.take(k)).0;
    let h = cs[k].0;
    lemma_step(st, h, cs[k].1);
    assert(graph_rows(cs)[k] == graph_fold(cs.take(k + 1)).1[k]);
    let row = graph_rows(cs)[k];
    assert(row == graph_step(st, h, cs[k].1).1);
    lemma_first_from(st.lanes, Some(h), 0);
    lemma_first_from(st.lanes, None, 0);
    if k > 0 {
        lemma_fold_prefix(cs, k);
        assert(graph_rows(cs)[k - 1] == graph_fold(cs.take(k)).1[k - 1]);
    }
    if forall|i: int| 0 <= i < st.lanes.len() ==> st.lanes[i] != Some(h) {
        assert(first_of(st.lanes, Some(h)) == st.lanes.len());
        assert(row.commit_col == first_of(st.lanes, None));
        if exists|i: int| 0 <= i < st.lanes.len() && st.lanes[i] is None {
            let i = choose|i: int| 0 <= i < st.lanes.len() && st.lanes[i] is None;
            assert(first_of(st.lanes, None) <= i);
            assert forall|j: int| 0 <= j < row.commit_col implies st.lanes[j] is Some by {
                assert(st.lanes[j] != None::<Seq<char>>);
            }
        }
        if forall|i: int| 0 <= i < st.lanes.len() ==> st.lanes[i] is Some {
            if first_of(st.lanes, None) < st.lanes.len() {
                assert(st.lanes[first_of(st.lanes, None)] is Some);
            }
        }
    }
}

} // verus!
