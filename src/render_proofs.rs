//! Proofs about the rendering machine: every step keeps the invariant and
//! lowers the work bound, so rendering terminates; the output is bounded by
//! the data; and what sensitive fields refer to never reaches the output.
use vstd::prelude::*;

use crate::peek::{PeekField, PeekKind, PeekNode, ValueGraph, child_count, max_fanout_of, node_wf};
use crate::printer::{
    PrettyPrinter, StackItem, StackState, Walk, child_type_depth, children, cycle_message,
    depth_bound, initial, item_inv, level, node_rank, rank_ok, renderable,
    item_weight, redacted_literal, scalar_body, stack_weight, start_weight, walk_inv,
};
use crate::style::{bold_code, decimal, dim_code, hex, reset_code, rgb_code};

verus! {

pub(crate) proof fn lemma_push_weight(g: ValueGraph, s: Seq<StackItem>, x: StackItem)
    ensures
        stack_weight(g, s.push(x)) == stack_weight(g, s) + item_weight(g, x),
{
    assert(s.push(x).drop_last() =~= s);
}

pub(crate) proof fn lemma_visited_bound(g: ValueGraph, w: Walk)
    requires
        walk_inv(g, w),
    ensures
        w.visited.dom().len() <= g.nodes@.len(),
{
    let ms = g.nodes@.map_values(|n: PeekNode| n.addr);
    vstd::seq_lib::seq_to_set_is_finite(ms);
    ms.lemma_cardinality_of_set();
    vstd::set_lib::lemma_len_subset(w.visited.dom(), g.addrs());
}

proof fn lemma_mul_le(c: nat, k: nat, x: nat)
    requires
        c <= k,
    ensures
        c * x <= k * x,
{
    assert(c * x <= k * x) by (nonlinear_arith)
        requires
            c <= k,
    ;
}

proof fn lemma_loop_weight(c: nat, i: nat, per: nat)
    requires
        i < c,
        per >= 2,
    ensures
        ((c - i) as nat) * per == ((c - (i + 1)) as nat) * per + per,
        ((c - (i + 1)) as nat) * per + 1 < ((c - i) as nat) * per + 1,
{
    let a = (c - (i + 1)) as nat;
    assert((c - i) as nat == a + 1);
    assert((a + 1) * per == a * per + per) by (nonlinear_arith);
}

/// Unfolds the first step of `start_weight` below the bound.
proof fn lemma_start_weight(g: ValueGraph, c: nat, t: nat)
    requires
        t + 1 < depth_bound(g),
        c <= g.max_fanout(),
    ensures
        start_weight(g.max_fanout(), depth_bound(g), t) == 2 + g.max_fanout() * (2
            + start_weight(g.max_fanout(), depth_bound(g), t + 1)),
        c * (2 + start_weight(g.max_fanout(), depth_bound(g), t + 1)) + 1 < start_weight(
            g.max_fanout(),
            depth_bound(g),
            t,
        ),
{
    lemma_mul_le(c, g.max_fanout(), 2 + start_weight(g.max_fanout(), depth_bound(g), t + 1));
}

pub(crate) proof fn lemma_rank(g: ValueGraph)
    requires
        renderable(g),
    ensures
        rank_ok(g, node_rank(g)),
{
}

/// A work item whose type depth is within the invariant's bound has a level
/// two below the depth bound.
pub(crate) proof fn lemma_level_bound(g: ValueGraph, it: StackItem)
    requires
        renderable(g),
        it.node < g.nodes@.len(),
        it.type_depth <= 2 * g.nodes@.len(),
    ensures
        level(g, it) + 2 <= depth_bound(g),
        2 * g.nodes@.len() + 1 <= depth_bound(g),
{
    lemma_rank(g);
    let n = g.nodes@.len();
    let r = node_rank(g)[it.node as int];
    assert(r < n);
    let td = it.type_depth as nat;
    assert(td * n <= 2 * n * n) by (nonlinear_arith)
        requires
            td <= 2 * n,
    ;
    assert((2 * n + 1) * n == 2 * n * n + n) by (nonlinear_arith);
    assert(2 * n <= 2 * n * n) by (nonlinear_arith)
        requires
            n >= 1,
    ;
}

/// A child's level is above its parent's.
proof fn lemma_child_level(g: ValueGraph, it: StackItem, k: int)
    requires
        renderable(g),
        it.node < g.nodes@.len(),
        0 <= k < children(g.nodes@[it.node as int]).len(),
        children(g.nodes@[it.node as int])[k] < g.nodes@.len(),
        it.type_depth < usize::MAX,
    ensures
        ({
            let c = children(g.nodes@[it.node as int])[k];
            let ci = StackItem {
                node: c,
                format_depth: it.format_depth,
                type_depth: child_type_depth(g, it, c),
                state: StackState::Start,
            };
            level(g, ci) >= level(g, it) + 1
        }),
{
    lemma_rank(g);
    let n = g.nodes@.len();
    let c = children(g.nodes@[it.node as int])[k];
    let rk = node_rank(g);
    assert(rk[c as int] < n);
    assert(rk[it.node as int] < n);
    let td = it.type_depth as nat;
    assert((td + 1) * n == td * n + n) by (nonlinear_arith);
}

proof fn lemma_start_weight_mono(k: nat, b: nat, t1: nat, t2: nat)
    requires
        t1 <= t2,
    ensures
        start_weight(k, b, t2) <= start_weight(k, b, t1),
    decreases t2 - t1,
{
    if t1 < t2 {
        lemma_start_weight_mono(k, b, t1 + 1, t2);
        if t1 < b {
            assert(start_weight(k, b, t1 + 1) <= 2 + k * (2 + start_weight(k, b, t1 + 1)))
                by (nonlinear_arith);
        }
    }
}

impl PrettyPrinter {
    proof fn lemma_dispatch(
        &self,
        g: ValueGraph,
        w: Walk,
        vis: Map<usize, usize>,
    )
        requires
            renderable(g),
            walk_inv(g, w),
            w.stack.len() > 0,
            w.stack.last().state == StackState::Start,
            vis.dom().finite(),
            vis.dom().subset_of(g.addrs()),
            vis.dom().len() >= w.visited.dom().len(),
            vis.dom().len() <= g.nodes@.len(),
            forall|a: usize| #[trigger] vis.contains_key(a) ==> vis[a] + 2 <= 2 * vis.dom().len(),
            w.stack.last().type_depth + 1 <= 2 * vis.dom().len(),
        ensures
            ({
                let it = w.stack.last();
                let wn = self.dispatch(it, g.nodes@[it.node as int], w.stack.drop_last(), vis, w.out);
                &&& walk_inv(g, wn)
                &&& stack_weight(g, wn.stack) < stack_weight(g, w.stack)
            }),
    {
        let it = w.stack.last();
        let rest = w.stack.drop_last();
        let n = g.nodes@[it.node as int];
        let wn = self.dispatch(it, n, rest, vis, w.out);
        lemma_push_weight(g, rest, it);
        assert(w.stack =~= rest.push(it));
        assert(item_inv(g, it, w.visited.dom().len()));
        lemma_max_fanout_node(g, it.node as int);
        lemma_level_bound(g, it);
        lemma_start_weight(g, child_count(n), level(g, it));
        let deeper = StackItem { format_depth: (it.format_depth + 1) as usize, ..it };
        match n.kind {
            PeekKind::Struct { fields } => {
                if fields@.len() > 0 {
                    let x = StackItem {
                        state: StackState::ProcessStructField { field_index: 0 },
                        ..deeper
                    };
                    lemma_push_weight(g, rest, x);
                    assert(forall|i: int| 0 <= i < wn.stack.len() ==> #[trigger] wn.stack[i] == if i
                        < rest.len() {
                        rest[i]
                    } else {
                        x
                    });
                }
            },
            PeekKind::List { .. } => {
                let x = StackItem { state: StackState::ProcessListItem { item_index: 0 }, ..deeper };
                lemma_push_weight(g, rest, x);
                assert(forall|i: int| 0 <= i < wn.stack.len() ==> #[trigger] wn.stack[i] == if i
                    < rest.len() {
                    rest[i]
                } else {
                    x
                });
            },
            PeekKind::Dict => {
                let x = StackItem { state: StackState::ProcessMapEntry, ..deeper };
                lemma_push_weight(g, rest, x);
                assert(forall|i: int| 0 <= i < wn.stack.len() ==> #[trigger] wn.stack[i] == if i
                    < rest.len() {
                    rest[i]
                } else {
                    x
                });
            },
            _ => {},
        }
        assert forall|i: int| 0 <= i < rest.len() implies item_inv(
            g,
            #[trigger] rest[i],
            vis.dom().len(),
        ) by {
            assert(rest[i] == w.stack[i]);
        }
    }

    /// Every step keeps the invariant and strictly lowers the work bound.
    pub proof fn lemma_step(&self, g: ValueGraph, w: Walk)
        requires
            renderable(g),
            walk_inv(g, w),
            w.stack.len() > 0,
        ensures
            walk_inv(g, self.step(g, w)),
            stack_weight(g, self.step(g, w).stack) < stack_weight(g, w.stack),
    {
        let it = w.stack.last();
        let rest = w.stack.drop_last();
        let n = g.nodes@[it.node as int];
        let nv = w.visited.dom().len();
        assert(w.stack =~= rest.push(it));
        lemma_push_weight(g, rest, it);
        assert(item_inv(g, it, nv));
        lemma_visited_bound(g, w);
        assert forall|i: int| 0 <= i < rest.len() implies item_inv(g, #[trigger] rest[i], nv) by {
            assert(rest[i] == w.stack[i]);
        }
        match it.state {
            StackState::Start => {
                if self.too_deep(it.format_depth) {
                } else if w.visited.contains_key(n.addr) {
                    if it.type_depth > w.visited[n.addr] + 1 {
                    } else {
                        self.lemma_dispatch(g, w, w.visited);
                    }
                } else {
                    let vis = w.visited.insert(n.addr, it.type_depth);
                    assert(vis.dom() =~= w.visited.dom().insert(n.addr));
                    let ms = g.nodes@.map_values(|x: PeekNode| x.addr);
                    assert(ms[it.node as int] == n.addr);
                    assert(g.addrs().contains(n.addr));
                    assert(vis.dom().len() == nv + 1);
                    assert(vis.dom().len() <= g.nodes@.len()) by {
                        vstd::seq_lib::seq_to_set_is_finite(ms);
                        ms.lemma_cardinality_of_set();
                        vstd::set_lib::lemma_len_subset(vis.dom(), g.addrs());
                    }
                    self.lemma_dispatch(g, w, vis);
                }
            },
            StackState::ProcessStructField { field_index } => {
                match n.kind {
                    PeekKind::Struct { fields } => {
                        if field_index < fields@.len() {
                            self.lemma_loop_step(g, w, field_index as nat);
                        }
                    },
                    _ => {},
                }
            },
            StackState::ProcessListItem { item_index } => {
                match n.kind {
                    PeekKind::List { items } => {
                        if item_index < items@.len() {
                            self.lemma_loop_step(g, w, item_index as nat);
                        }
                    },
                    _ => {},
                }
            },
            _ => {},
        }
    }

    proof fn lemma_loop_step(&self, g: ValueGraph, w: Walk, i: nat)
        requires
            renderable(g),
            walk_inv(g, w),
            w.stack.len() > 0,
            i < child_count(g.nodes@[w.stack.last().node as int]),
            match w.stack.last().state {
                StackState::ProcessStructField { field_index } => field_index == i && g.nodes@[
                    w.stack.last().node as int].kind is Struct,
                StackState::ProcessListItem { item_index } => item_index == i && g.nodes@[
                    w.stack.last().node as int].kind is List,
                _ => false,
            },
        ensures
            walk_inv(g, self.step(g, w)),
            stack_weight(g, self.step(g, w).stack) < stack_weight(g, w.stack),
    {
        let it = w.stack.last();
        let rest = w.stack.drop_last();
        let n = g.nodes@[it.node as int];
        let nv = w.visited.dom().len();
        let wn = self.step(g, w);
        assert(w.stack =~= rest.push(it));
        lemma_push_weight(g, rest, it);
        assert(item_inv(g, it, nv));
        lemma_visited_bound(g, w);
        let c = child_count(n);
        let per = 2 + start_weight(g.max_fanout(), depth_bound(g), level(g, it) + 1);
        lemma_level_bound(g, it);
        lemma_loop_weight(c, i, per);
        assert(node_wf(n, g.nodes@.len()));
        let cont = match it.state {
            StackState::ProcessStructField { .. } => StackItem {
                state: StackState::ProcessStructField { field_index: (i + 1) as usize },
                ..it
            },
            _ => StackItem { state: StackState::ProcessListItem { item_index: (i + 1) as usize }, ..it },
        };
        let child: usize = match n.kind {
            PeekKind::Struct { fields } => fields@[i as int].value,
            PeekKind::List { items } => items@[i as int],
            _ => 0,
        };
        assert(child < g.nodes@.len());
        assert(i + 1 <= usize::MAX) by {
            match n.kind {
                PeekKind::Struct { fields } => vstd::std_specs::vec::axiom_spec_len(&fields),
                PeekKind::List { items } => vstd::std_specs::vec::axiom_spec_len(&items),
                _ => {},
            }
        }
        if i + 1 == c {
            assert((c - (i + 1)) as nat == 0);
            assert(0 * per == 0) by (nonlinear_arith);
        }
        assert(item_weight(g, cont) == ((c - (i + 1)) as nat) * per + 1);
        lemma_push_weight(g, rest, cont);
        let sensitive = match n.kind {
            PeekKind::Struct { fields } => fields@[i as int].sensitive,
            _ => false,
        };
        if sensitive {
            assert(wn.stack =~= rest.push(cont));
            assert(forall|j: int| 0 <= j < wn.stack.len() ==> #[trigger] wn.stack[j] == if j
                < rest.len() {
                rest[j]
            } else {
                cont
            });
        } else {
            let fin = StackItem {
                node: child,
                format_depth: it.format_depth,
                type_depth: child_type_depth(g, it, child),
                state: StackState::Finish,
            };
            let st = StackItem { state: StackState::Start, ..fin };
            assert(children(n)[i as int] == child);
            lemma_child_level(g, it, i as int);
            assert(level(g, fin) == level(g, st));
            lemma_start_weight_mono(
                g.max_fanout(),
                depth_bound(g),
                level(g, it) + 1,
                level(g, st),
            );
            assert(wn.stack =~= rest.push(cont).push(fin).push(st));
            lemma_push_weight(g, rest.push(cont), fin);
            lemma_push_weight(g, rest.push(cont).push(fin), st);
            assert(forall|j: int| 0 <= j < wn.stack.len() ==> #[trigger] wn.stack[j] == if j
                < rest.len() {
                rest[j]
            } else if j == rest.len() {
                cont
            } else if j == rest.len() + 1 {
                fin
            } else {
                st
            });
        }
        assert forall|j: int| 0 <= j < rest.len() implies item_inv(g, #[trigger] rest[j], nv) by {
            assert(rest[j] == w.stack[j]);
        }
    }
}

proof fn lemma_max_fanout_node(g: ValueGraph, i: int)
    requires
        0 <= i < g.nodes@.len(),
    ensures
        child_count(g.nodes@[i]) <= g.max_fanout(),
{
    crate::peek::lemma_max_fanout(g.nodes@, i);
}

pub(crate) proof fn lemma_initial_inv(g: ValueGraph, root: usize)
    requires
        root < g.nodes@.len(),
    ensures
        walk_inv(g, initial(root)),
{
    assert(initial(root).visited.dom() =~= Set::<usize>::empty());
}

impl PrettyPrinter {
    pub(crate) proof fn lemma_run_done(&self, g: ValueGraph, w: Walk, fuel: nat)
        requires
            w.stack.len() == 0,
        ensures
            self.run(g, w, fuel) == w,
    {
    }

    /// Rendering always finishes: from any reachable state, as many steps as
    /// the state's work bound empty the stack. In particular, data that refers
    /// back to itself is cut off by cycle detection rather than walked forever.
    pub proof fn lemma_run_finishes(&self, g: ValueGraph, w: Walk, fuel: nat)
        requires
            renderable(g),
            walk_inv(g, w),
            fuel >= stack_weight(g, w.stack),
        ensures
            self.run(g, w, fuel).stack.len() == 0,
        decreases fuel,
    {
        if w.stack.len() > 0 {
            lemma_push_weight(g, w.stack.drop_last(), w.stack.last());
            assert(w.stack =~= w.stack.drop_last().push(w.stack.last()));
            self.lemma_step(g, w);
            self.lemma_run_finishes(g, self.step(g, w), (fuel - 1) as nat);
        }
    }

    /// Rendering node `root` of `g` empties the work stack.
    pub proof fn lemma_render_terminates(&self, g: ValueGraph, root: usize)
        requires
            renderable(g),
            root < g.nodes@.len(),
        ensures
            self.run(g, initial(root), stack_weight(g, initial(root).stack)).stack.len() == 0,
    {
        lemma_initial_inv(g, root);
        self.lemma_run_finishes(g, initial(root), stack_weight(g, initial(root).stack));
    }
}

proof fn lemma_start_weight_pos(k: nat, b: nat, t: nat)
    ensures
        start_weight(k, b, t) >= 1,
{
}

impl PrettyPrinter {
    /// A scalar whose shape has neither a Display nor a Debug hook renders as
    /// its type name followed by the opaque placeholder (wrapped in its color
    /// when colors are on), never as empty text.
    pub proof fn lemma_opaque_scalar(&self, g: ValueGraph, root: usize)
        requires
            root < g.nodes@.len(),
            g.nodes@[root as int].kind == (PeekKind::Scalar { display: None, debug: None }),
        ensures
            self.rendered(g, root) == self.scalar_text(g.nodes@[root as int]),
            scalar_body(g.nodes@[root as int]) == g.nodes@[root as int].type_label@ + "(⋯)"@,
            self.rendered(g, root).len() > 0,
    {
        let w0 = initial(root);
        let fuel = stack_weight(g, w0.stack);
        lemma_push_weight(g, Seq::empty(), w0.stack[0]);
        assert(w0.stack =~= Seq::<StackItem>::empty().push(w0.stack[0]));
        lemma_start_weight_pos(g.max_fanout(), depth_bound(g), 0);
        let w1 = self.step(g, w0);
        assert(w1.stack.len() == 0);
        self.lemma_run_done(g, w1, (fuel - 1) as nat);
        assert(w1.out =~= self.scalar_text(g.nodes@[root as int]));
        let body = scalar_body(g.nodes@[root as int]);
        assert(body.len() >= 3) by {
            reveal_strlit("(⋯)");
        }
    }

    /// Rendering is deterministic: equal configurations over equal data give
    /// identical text.
    pub proof fn lemma_render_deterministic(
        &self,
        other: PrettyPrinter,
        g: ValueGraph,
        h: ValueGraph,
        root: usize,
    )
        requires
            *self == other,
            g == h,
        ensures
            self.rendered(g, root) == other.rendered(h, root),
    {
    }

    /// The step that reaches a sensitive field emits the field's name and the
    /// fixed redacted literal, and pushes no work item for the field's value,
    /// whatever that value holds: the value is never read or descended into.
    pub proof fn lemma_sensitive_field_redacted(&self, g: ValueGraph, w: Walk)
        requires
            w.stack.len() > 0,
            ({
                let it = w.stack.last();
                match it.state {
                    StackState::ProcessStructField { field_index } => match g.nodes@[it.node as int].kind {
                        PeekKind::Struct { fields } => field_index < fields@.len()
                            && fields@[field_index as int].sensitive,
                        _ => false,
                    },
                    _ => false,
                }
            }),
        ensures
            ({
                let it = w.stack.last();
                let i = it.state->field_index;
                let f = g.nodes@[it.node as int].kind->fields@[i as int];
                let next = self.step(g, w);
                &&& next.stack == w.stack.drop_last().push(
                    StackItem {
                        state: StackState::ProcessStructField { field_index: (i + 1) as usize },
                        ..it
                    },
                )
                &&& next.visited == w.visited
                &&& next.out == w.out + self.indent(it.format_depth as int) + self.field_name_text(
                    f.name@,
                ) + self.punct(": "@) + self.redacted_text(redacted_literal()) + self.punct(","@)
                    + "\n"@
            }),
    {
    }
}

// Output-size bound.
pub open spec fn opt_len(o: Option<String>) -> nat {
    match o {
        Some(s) => s@.len(),
        None => 0,
    }
}

pub open spec fn fields_text(fs: Seq<PeekField>) -> nat
    decreases fs.len(),
{
    if fs.len() == 0 {
        0
    } else {
        fields_text(fs.drop_last()) + fs.last().name@.len()
    }
}

/// Total length of the text a node carries: its type name, its hook texts
/// and its field names.
pub open spec fn node_text(n: PeekNode) -> nat {
    n.type_label@.len() + match n.kind {
        PeekKind::Scalar { display, debug } => opt_len(display) + opt_len(debug),
        PeekKind::Struct { fields } => fields_text(fields@),
        _ => 0,
    }
}

pub open spec fn graph_text(s: Seq<PeekNode>) -> nat
    decreases s.len(),
{
    if s.len() == 0 {
        0
    } else {
        graph_text(s.drop_last()) + node_text(s.last())
    }
}

pub open spec fn pow_of(b: nat, k: nat) -> nat
    decreases k,
{
    if k == 0 {
        1
    } else {
        b * pow_of(b, (k - 1) as nat)
    }
}

proof fn lemma_fields_text(fs: Seq<PeekField>, i: int)
    requires
        0 <= i < fs.len(),
    ensures
        fs[i].name@.len() <= fields_text(fs),
    decreases fs.len(),
{
    if i < fs.len() - 1 {
        lemma_fields_text(fs.drop_last(), i);
    }
}

proof fn lemma_graph_text(s: Seq<PeekNode>, i: int)
    requires
        0 <= i < s.len(),
    ensures
        node_text(s[i]) <= graph_text(s),
    decreases s.len(),
{
    if i < s.len() - 1 {
        lemma_graph_text(s.drop_last(), i);
    }
}

proof fn lemma_decimal_len(n: nat, k: nat)
    requires
        k >= 1,
        n < pow_of(10, k),
    ensures
        decimal(n).len() <= k,
    decreases k,
{
    if n >= 10 {
        let q = pow_of(10, (k - 1) as nat);
        if k == 1 {
            assert(pow_of(10, 0) == 1);
        } else {
            assert(n / 10 < q) by (nonlinear_arith)
                requires
                    n < 10 * q,
            ;
            lemma_decimal_len(n / 10, (k - 1) as nat);
        }
    }
}

proof fn lemma_hex_len(n: nat, k: nat)
    requires
        k >= 1,
        n < pow_of(16, k),
    ensures
        hex(n).len() <= k,
    decreases k,
{
    if n >= 16 {
        let q = pow_of(16, (k - 1) as nat);
        if k == 1 {
            assert(pow_of(16, 0) == 1);
        } else {
            assert(n / 16 < q) by (nonlinear_arith)
                requires
                    n < 16 * q,
            ;
            lemma_hex_len(n / 16, (k - 1) as nat);
        }
    }
}

proof fn lemma_decimal_le(n: nat)
    ensures
        decimal(n).len() <= n + 1,
    decreases n,
{
    if n >= 10 {
        lemma_decimal_le(n / 10);
    }
}

proof fn lemma_code_lens(r: u8, g: u8, b: u8)
    ensures
        dim_code().len() == 4,
        bold_code().len() == 4,
        reset_code().len() == 4,
        rgb_code(r, g, b).len() <= 19,
{
    reveal_strlit("\x1b[2m");
    reveal_strlit("\x1b[1m");
    reveal_strlit("\x1b[0m");
    reveal_strlit("\x1b[38;2;");
    reveal_strlit(";");
    reveal_strlit("m");
    reveal_with_fuel(pow_of, 4);
    lemma_decimal_len(r as nat, 3);
    lemma_decimal_len(g as nat, 3);
    lemma_decimal_len(b as nat, 3);
}

impl PrettyPrinter {
    /// Most text any one step appends, over a graph `g`.
    pub open spec fn step_budget(&self, g: ValueGraph) -> nat {
        graph_text(g.nodes@) + 2 * (depth_bound(g) * (self.indent_size as nat)) + depth_bound(g) + 300
    }

    proof fn lemma_indent_len(&self, g: ValueGraph, levels: int)
        requires
            0 <= levels <= depth_bound(g),
        ensures
            self.indent(levels).len() <= depth_bound(g) * (self.indent_size as nat),
    {
        assert(levels * self.indent_size <= depth_bound(g) * self.indent_size) by (nonlinear_arith)
            requires
                0 <= levels <= depth_bound(g),
        ;
    }

    proof fn lemma_style_lens(&self, n: PeekNode, t: Seq<char>)
        ensures
            self.punct(t).len() <= t.len() + 8,
            self.comment(t).len() <= t.len() + 8,
            self.type_name_text(t).len() <= t.len() + 8,
            self.field_name_text(t).len() <= t.len() + 23,
            self.redacted_text(redacted_literal()).len() <= 37,
            self.scalar_text(n).len() <= node_text(n) + 26,
    {
        let c = self.color_generator.color_for(n.shape_hash);
        lemma_code_lens(c.r, c.g, c.b);
        lemma_code_lens(114, 160, 193);
        lemma_code_lens(224, 49, 49);
        reveal_strlit("[REDACTED]");
        reveal_strlit("(⋯)");
    }

    /// A step appends at most `step_budget` characters.
    proof fn lemma_step_out(&self, g: ValueGraph, w: Walk)
        requires
            renderable(g),
            walk_inv(g, w),
            w.stack.len() > 0,
        ensures
            self.step(g, w).out.len() <= w.out.len() + self.step_budget(g),
    {
        let it = w.stack.last();
        let n = g.nodes@[it.node as int];
        assert(item_inv(g, it, w.visited.dom().len()));
        lemma_visited_bound(g, w);
        lemma_level_bound(g, it);
        lemma_graph_text(g.nodes@, it.node as int);
        self.lemma_indent_len(g, it.format_depth as int);
        if it.format_depth >= 1 {
            self.lemma_indent_len(g, it.format_depth - 1);
        }
        self.lemma_style_lens(n, n.type_label@);
        match it.state {
            StackState::Start => {
                reveal_strlit("[");
                reveal_strlit("...");
                reveal_strlit(" { ");
                reveal_strlit(" }");
                reveal_strlit(" {");
                reveal_strlit(" [");
                reveal_strlit("\n");
                reveal_strlit("unsupported peek variant: ");
                self.lemma_style_lens(n, "["@);
                self.lemma_style_lens(n, " { "@);
                self.lemma_style_lens(n, " }"@);
                self.lemma_style_lens(n, " {"@);
                self.lemma_style_lens(n, " ["@);
                if !self.too_deep(it.format_depth) && w.visited.contains_key(n.addr)
                    && it.type_depth > w.visited[n.addr] + 1 {
                    let seen = w.visited[n.addr];
                    lemma_decimal_le(seen as nat);
                    reveal_with_fuel(pow_of, 17);
                    lemma_hex_len(n.addr as nat, 16);
                    reveal_strlit("/* cycle detected at 0x");
                    reveal_strlit(" (first seen at type_depth ");
                    reveal_strlit(") */");
                    self.lemma_style_lens(n, cycle_message(n.addr, seen));
                    assert(cycle_message(n.addr, seen).len() <= 70 + depth_bound(g));
                }
            },
            StackState::ProcessStructField { field_index } => {
                reveal_strlit("}");
                reveal_strlit(": ");
                reveal_strlit(",");
                reveal_strlit("\n");
                self.lemma_style_lens(n, "}"@);
                self.lemma_style_lens(n, ": "@);
                self.lemma_style_lens(n, ","@);
                match n.kind {
                    PeekKind::Struct { fields } => {
                        if field_index < fields@.len() {
                            lemma_fields_text(fields@, field_index as int);
                            self.lemma_style_lens(n, fields@[field_index as int].name@);
                        }
                    },
                    _ => {},
                }
            },
            StackState::ProcessListItem { .. } => {
                reveal_strlit("]");
                self.lemma_style_lens(n, "]"@);
            },
            StackState::ProcessMapEntry => {
                reveal_strlit("}");
                reveal_strlit("\n");
                reveal_strlit("/* Map contents */");
                self.lemma_style_lens(n, "}"@);
                self.lemma_style_lens(n, "/* Map contents */"@);
            },
            StackState::Finish => {
                reveal_strlit(",");
                reveal_strlit("\n");
                self.lemma_style_lens(n, ","@);
            },
        }
    }

    proof fn lemma_run_out(&self, g: ValueGraph, w: Walk, fuel: nat)
        requires
            renderable(g),
            walk_inv(g, w),
        ensures
            self.run(g, w, fuel).out.len() <= w.out.len() + fuel * self.step_budget(g),
        decreases fuel,
    {
        if fuel > 0 && w.stack.len() > 0 {
            self.lemma_step(g, w);
            self.lemma_step_out(g, w);
            self.lemma_run_out(g, self.step(g, w), (fuel - 1) as nat);
            let b = self.step_budget(g);
            assert(((fuel - 1) as nat) * b + b == fuel * b) by (nonlinear_arith)
                requires
                    fuel > 0,
            ;
        } else {
            assert(0 <= fuel * self.step_budget(g)) by (nonlinear_arith);
        }
    }

    /// The rendered text is bounded by the data alone: at most the work bound
    /// of the initial state times the most text one step can append. Data that
    /// refers back to itself therefore cannot make the output grow without
    /// bound.
    pub proof fn lemma_render_length(&self, g: ValueGraph, root: usize)
        requires
            renderable(g),
            root < g.nodes@.len(),
        ensures
            self.rendered(g, root).len() <= stack_weight(g, initial(root).stack)
                * self.step_budget(g),
    {
        lemma_initial_inv(g, root);
        self.lemma_run_out(g, initial(root), stack_weight(g, initial(root).stack));
    }
}

// Independence of sensitive values.
/// Two field lists that agree on names and flags, and on the values of every
/// field that is not sensitive.
pub open spec fn fields_agree(x: Seq<PeekField>, y: Seq<PeekField>) -> bool {
    &&& x.len() == y.len()
    &&& forall|j: int|
        0 <= j < x.len() ==> {
            &&& (#[trigger] x[j]).name == y[j].name
            &&& x[j].sensitive == y[j].sensitive
            &&& !x[j].sensitive ==> x[j].value == y[j].value
        }
}

/// Two nodes that are the same but for what their sensitive fields refer to.
pub open spec fn node_agree(a: PeekNode, b: PeekNode) -> bool {
    &&& a.addr == b.addr
    &&& a.type_label == b.type_label
    &&& a.shape_hash == b.shape_hash
    &&& match a.kind {
        PeekKind::Struct { fields } => b.kind is Struct && fields_agree(fields@, b.kind->fields@),
        _ => a.kind == b.kind,
    }
}

/// `g` and `h` hold the same values except, possibly, under sensitive fields.
pub open spec fn agree_outside_sensitive(g: ValueGraph, h: ValueGraph) -> bool {
    &&& g.nodes@.len() == h.nodes@.len()
    &&& forall|i: int| 0 <= i < g.nodes@.len() ==> node_agree(#[trigger] g.nodes@[i], h.nodes@[i])
}

proof fn lemma_fanout_agree(s: Seq<PeekNode>, t: Seq<PeekNode>)
    requires
        s.len() == t.len(),
        forall|i: int| 0 <= i < s.len() ==> child_count(#[trigger] s[i]) == child_count(t[i]),
    ensures
        max_fanout_of(s) == max_fanout_of(t),
    decreases s.len(),
{
    if s.len() > 0 {
        assert(child_count(s[s.len() - 1]) == child_count(t[t.len() - 1]));
        assert forall|i: int| 0 <= i < s.len() - 1 implies child_count(
            #[trigger] s.drop_last()[i],
        ) == child_count(t.drop_last()[i]) by {
            assert(s.drop_last()[i] == s[i]);
            assert(child_count(s[i]) == child_count(t[i]));
        }
        lemma_fanout_agree(s.drop_last(), t.drop_last());
    }
}

impl PrettyPrinter {
    proof fn lemma_step_agree(&self, g: ValueGraph, h: ValueGraph, w: Walk)
        requires
            g.wf(),
            agree_outside_sensitive(g, h),
            walk_inv(g, w),
        ensures
            self.step(g, w) == self.step(h, w),
    {
        if w.stack.len() > 0 {
            let it = w.stack.last();
            assert(item_inv(g, it, w.visited.dom().len()));
            let a = g.nodes@[it.node as int];
            let b = h.nodes@[it.node as int];
            assert(node_agree(a, b));
            assert(node_wf(a, g.nodes@.len()));
            match a.kind {
                PeekKind::Struct { fields } => {
                    match it.state {
                        StackState::ProcessStructField { field_index } => {
                            if field_index < fields@.len() {
                                let f = fields@[field_index as int];
                                assert(f.name == b.kind->fields@[field_index as int].name);
                                assert(node_agree(g.nodes@[f.value as int], h.nodes@[f.value as int]));
                                assert(child_type_depth(g, it, f.value) == child_type_depth(
                                    h,
                                    it,
                                    f.value,
                                ));
                            }
                        },
                        _ => {},
                    }
                    assert(self.dispatch(it, a, w.stack.drop_last(), w.visited, w.out)
                        == self.dispatch(it, b, w.stack.drop_last(), w.visited, w.out));
                    assert(self.dispatch(
                        it,
                        a,
                        w.stack.drop_last(),
                        w.visited.insert(a.addr, it.type_depth),
                        w.out,
                    ) == self.dispatch(
                        it,
                        b,
                        w.stack.drop_last(),
                        w.visited.insert(a.addr, it.type_depth),
                        w.out,
                    ));
                },
                PeekKind::List { items } => {
                    assert(a == b);
                    match it.state {
                        StackState::ProcessListItem { item_index } => {
                            if item_index < items@.len() {
                                let c = items@[item_index as int];
                                assert(node_agree(g.nodes@[c as int], h.nodes@[c as int]));
                                assert(child_type_depth(g, it, c) == child_type_depth(h, it, c));
                            }
                        },
                        _ => {},
                    }
                },
                _ => {
                    assert(a == b);
                },
            }
        }
    }

    proof fn lemma_run_fuel(&self, g: ValueGraph, w: Walk, f1: nat, f2: nat)
        requires
            f1 <= f2,
            self.run(g, w, f1).stack.len() == 0,
        ensures
            self.run(g, w, f2) == self.run(g, w, f1),
        decreases f1,
    {
        if w.stack.len() > 0 {
            self.lemma_run_fuel(g, self.step(g, w), (f1 - 1) as nat, (f2 - 1) as nat);
        }
    }

    proof fn lemma_run_agree(&self, g: ValueGraph, h: ValueGraph, w: Walk, fuel: nat)
        requires
            renderable(g),
            agree_outside_sensitive(g, h),
            walk_inv(g, w),
        ensures
            self.run(g, w, fuel) == self.run(h, w, fuel),
        decreases fuel,
    {
        if fuel > 0 && w.stack.len() > 0 {
            self.lemma_step_agree(g, h, w);
            self.lemma_step(g, w);
            self.lemma_run_agree(g, h, self.step(g, w), (fuel - 1) as nat);
        }
    }

    /// Whatever a sensitive field refers to, however deeply nested, has no
    /// influence on the rendering: two graphs that differ only under
    /// sensitive fields end in the same state, with the same text and the
    /// same recorded addresses. A sensitive value is never read, rendered or
    /// recorded.
    pub proof fn lemma_sensitive_values_unseen(&self, g: ValueGraph, h: ValueGraph, root: usize)
        requires
            renderable(g),
            renderable(h),
            root < g.nodes@.len(),
            agree_outside_sensitive(g, h),
        ensures
            self.rendered(g, root) == self.rendered(h, root),
            self.run(g, initial(root), stack_weight(g, initial(root).stack)) == self.run(
                h,
                initial(root),
                stack_weight(h, initial(root).stack),
            ),
    {
        assert forall|i: int| 0 <= i < g.nodes@.len() implies child_count(#[trigger] g.nodes@[i])
            == child_count(h.nodes@[i]) by {
            assert(node_agree(g.nodes@[i], h.nodes@[i]));
        }
        lemma_fanout_agree(g.nodes@, h.nodes@);
        let s = initial(root).stack;
        lemma_push_weight(g, Seq::empty(), s[0]);
        lemma_push_weight(h, Seq::empty(), s[0]);
        assert(s =~= Seq::<StackItem>::empty().push(s[0]));
        let wg = stack_weight(g, s);
        let wh = stack_weight(h, s);
        lemma_initial_inv(g, root);
        self.lemma_run_agree(g, h, initial(root), wg);
        self.lemma_run_agree(g, h, initial(root), wh);
        self.lemma_render_terminates(g, root);
        self.lemma_render_terminates(h, root);
        if wg <= wh {
            self.lemma_run_fuel(g, initial(root), wg, wh);
        } else {
            self.lemma_run_fuel(g, initial(root), wh, wg);
        }
    }
}

impl PrettyPrinter {
    /// Reaching an address again deeper than one level past where it was
    /// first seen cuts the branch: the step emits the type name and one cycle
    /// marker, records nothing and pushes no work for the value's contents.
    pub proof fn lemma_cycle_cut(&self, g: ValueGraph, w: Walk)
        requires
            w.stack.len() > 0,
            w.stack.last().state == StackState::Start,
            !self.too_deep(w.stack.last().format_depth),
            w.visited.contains_key(g.nodes@[w.stack.last().node as int].addr),
            w.stack.last().type_depth > w.visited[g.nodes@[w.stack.last().node as int].addr] + 1,
        ensures
            ({
                let n = g.nodes@[w.stack.last().node as int];
                let next = self.step(g, w);
                &&& next.stack == w.stack.drop_last()
                &&& next.visited == w.visited
                &&& next.out == w.out + self.cycle_text(n, w.visited[n.addr])
            }),
    {
    }
}

} // verus!
