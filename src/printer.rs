//! Pretty printer for reflected values.
//!
//! Rendering is an explicit stack machine rather than native recursion, so
//! deep or self-referential data cannot exhaust the call stack. The machine's
//! single step is stated as the spec function `step`; the executable loop is
//! proved to perform exactly those steps and to stop.
use std::collections::{HashMap, VecDeque};
use vstd::prelude::*;

use crate::peek::{PeekField, PeekKind, PeekNode, ValueGraph, child_count};
use crate::render_proofs::{
    lemma_initial_inv, lemma_level_bound, lemma_push_weight, lemma_visited_bound,
};
use crate::style::{
    ColorGenerator, Rgb, bold_code, decimal, default_palette, dim_code, hex, push_decimal,
    push_hex, reset_code, rgb_code,
};

verus! {

broadcast use vstd::std_specs::hash::group_hash_axioms;

/// A formatter for pretty-printing reflected values.
pub struct PrettyPrinter {
    pub indent_size: usize,
    pub max_depth: Option<usize>,
    pub color_generator: ColorGenerator,
    pub use_colors: bool,
}

/// Where a work item stands in rendering its value.
#[derive(Clone, Copy, PartialEq, Eq, Structural)]
pub enum StackState {
    Start,
    ProcessStructField { field_index: usize },
    ProcessListItem { item_index: usize },
    ProcessMapEntry,
    Finish,
}

/// One resumable unit of rendering work.
#[derive(Clone, Copy, PartialEq, Eq, Structural)]
pub struct StackItem {
    /// Index of the node being rendered.
    pub node: usize,
    /// Visual nesting level, used for indentation.
    pub format_depth: usize,
    /// Count of memory indirections crossed from the root (steps to a child
    /// at another address), used for cycle detection.
    pub type_depth: usize,
    pub state: StackState,
}

/// Abstract state of a rendering: the work stack, the first type depth at
/// which each address was seen, and the text emitted so far.
pub struct Walk {
    pub stack: Seq<StackItem>,
    pub visited: Map<usize, usize>,
    pub out: Seq<char>,
}

pub open spec fn spaces(n: nat) -> Seq<char> {
    Seq::new(n, |i: int| ' ')
}

/// The fixed literal shown in place of a sensitive field's value.
pub open spec fn redacted_literal() -> Seq<char> {
    "[REDACTED]"@
}

/// What a scalar shows: its Display text, else its Debug text, else the type
/// name followed by an opaque placeholder.
pub open spec fn scalar_body(n: PeekNode) -> Seq<char> {
    match n.kind {
        PeekKind::Scalar { display, debug } => match display {
            Some(s) => s@,
            None => match debug {
                Some(s) => s@,
                None => n.type_label@ + "(⋯)"@,
            },
        },
        _ => Seq::empty(),
    }
}

pub open spec fn cycle_message(addr: usize, seen: usize) -> Seq<char> {
    "/* cycle detected at 0x"@ + hex(addr as nat) + " (first seen at type_depth "@ + decimal(
        seen as nat,
    ) + ") */"@
}

pub open spec fn walk_of(stack: Seq<StackItem>, visited: Map<usize, usize>, out: Seq<char>) -> Walk {
    Walk { stack, visited, out }
}

/// Type depth of `child` reached from work item `it`: unchanged when the
/// child shares its parent's address, one more when it lies elsewhere.
pub open spec fn child_type_depth(g: ValueGraph, it: StackItem, child: usize) -> usize {
    if g.nodes@[child as int].addr == g.nodes@[it.node as int].addr {
        it.type_depth
    } else {
        (it.type_depth + 1) as usize
    }
}

/// Child node indices of `n`, in order: field values or list items.
pub open spec fn children(n: PeekNode) -> Seq<usize> {
    match n.kind {
        PeekKind::Struct { fields } => fields@.map_values(|f: PeekField| f.value),
        PeekKind::List { items } => items@,
        _ => Seq::empty(),
    }
}

/// `rank` orders the nodes so that a child at its parent's address has a
/// lower rank than the parent.
pub open spec fn rank_ok(g: ValueGraph, rank: Seq<nat>) -> bool {
    let n = g.nodes@.len();
    &&& rank.len() == n
    &&& forall|i: int| 0 <= i < n ==> #[trigger] rank[i] < n
    &&& forall|i: int, k: int|
        0 <= i < n && 0 <= k < children(g.nodes@[i]).len() ==> {
            let c = #[trigger] children(g.nodes@[i])[k];
            c < n && g.nodes@[c as int].addr == g.nodes@[i].addr ==> rank[c as int] < rank[i]
        }
}

/// No value contains itself at its own address: every cycle of the graph
/// crosses a memory indirection.
pub open spec fn same_address_acyclic(g: ValueGraph) -> bool {
    exists|rank: Seq<nat>| rank_ok(g, rank)
}

/// A rank witnessing `same_address_acyclic`.
pub open spec fn node_rank(g: ValueGraph) -> Seq<nat> {
    choose|rank: Seq<nat>| rank_ok(g, rank)
}

/// What the renderer needs of a graph: child references in range, no value
/// containing itself at its own address, and depths that fit in a `usize`.
pub open spec fn renderable(g: ValueGraph) -> bool {
    &&& g.wf()
    &&& same_address_acyclic(g)
    &&& depth_bound(g) <= usize::MAX
}

/// The state a rendering of `root` starts from.
pub open spec fn initial(root: usize) -> Walk {
    Walk {
        stack: seq![StackItem { node: root, format_depth: 0, type_depth: 0, state: StackState::Start }],
        visited: Map::empty(),
        out: Seq::empty(),
    }
}

impl PrettyPrinter {
    pub open spec fn punct(&self, t: Seq<char>) -> Seq<char> {
        if self.use_colors {
            dim_code() + t + reset_code()
        } else {
            t
        }
    }

    pub open spec fn comment(&self, t: Seq<char>) -> Seq<char> {
        if self.use_colors {
            dim_code() + t + reset_code()
        } else {
            t
        }
    }

    pub open spec fn type_name_text(&self, name: Seq<char>) -> Seq<char> {
        if self.use_colors {
            bold_code() + name + reset_code()
        } else {
            name
        }
    }

    pub open spec fn field_name_text(&self, name: Seq<char>) -> Seq<char> {
        if self.use_colors {
            rgb_code(114, 160, 193) + name + reset_code()
        } else {
            name
        }
    }

    pub open spec fn redacted_text(&self, t: Seq<char>) -> Seq<char> {
        if self.use_colors {
            rgb_code(224, 49, 49) + bold_code() + t + reset_code()
        } else {
            t
        }
    }

    /// A scalar, wrapped in the color of its shape when colors are on.
    pub open spec fn scalar_text(&self, n: PeekNode) -> Seq<char> {
        if self.use_colors {
            let c = self.color_generator.color_for(n.shape_hash);
            rgb_code(c.r, c.g, c.b) + scalar_body(n) + reset_code()
        } else {
            scalar_body(n)
        }
    }

    pub open spec fn indent(&self, levels: int) -> Seq<char> {
        spaces((levels * self.indent_size) as nat)
    }

    pub open spec fn cycle_text(&self, n: PeekNode, seen: usize) -> Seq<char> {
        self.type_name_text(n.type_label@) + self.punct(" { "@) + self.comment(
            cycle_message(n.addr, seen),
        ) + self.punct(" }"@)
    }

    /// Whether `format_depth` lies beyond the configured maximum depth.
    pub open spec fn too_deep(&self, format_depth: usize) -> bool {
        match self.max_depth {
            Some(m) => format_depth > m,
            None => false,
        }
    }

    /// Renders a value whose address has just passed cycle detection.
    pub open spec fn dispatch(
        &self,
        it: StackItem,
        n: PeekNode,
        rest: Seq<StackItem>,
        visited: Map<usize, usize>,
        out: Seq<char>,
    ) -> Walk {
        let deeper = StackItem { format_depth: (it.format_depth + 1) as usize, ..it };
        match n.kind {
            PeekKind::Scalar { .. } => walk_of(rest, visited, out + self.scalar_text(n)),
            PeekKind::Struct { fields } => {
                let head = out + self.type_name_text(n.type_label@) + self.punct(" {"@);
                if fields@.len() == 0 {
                    walk_of(rest, visited, head + self.punct(" }"@))
                } else {
                    walk_of(
                        rest.push(
                            StackItem {
                                state: StackState::ProcessStructField { field_index: 0 },
                                ..deeper
                            },
                        ),
                        visited,
                        head + "\n"@,
                    )
                }
            },
            PeekKind::List { .. } => walk_of(
                rest.push(StackItem { state: StackState::ProcessListItem { item_index: 0 }, ..deeper }),
                visited,
                out + self.type_name_text(n.type_label@) + self.punct(" ["@) + "\n"@,
            ),
            PeekKind::Dict => walk_of(
                rest.push(StackItem { state: StackState::ProcessMapEntry, ..deeper }),
                visited,
                out + self.type_name_text(n.type_label@) + self.punct(" {"@) + "\n"@,
            ),
            PeekKind::Other => walk_of(
                rest,
                visited,
                out + "unsupported peek variant: "@ + n.type_label@ + "\n"@,
            ),
        }
    }

    /// Pushes, in order, the continuation of the parent loop, the item that
    /// closes the child, and the item that starts it. The child's type depth
    /// is the parent's, plus one when the child lives at another address.
    pub open spec fn descend(
        &self,
        g: ValueGraph,
        it: StackItem,
        cont: StackItem,
        child: usize,
        rest: Seq<StackItem>,
    ) -> Seq<StackItem> {
        let c = StackItem {
            node: child,
            format_depth: it.format_depth,
            type_depth: child_type_depth(g, it, child),
            state: StackState::Finish,
        };
        rest.push(cont).push(c).push(StackItem { state: StackState::Start, ..c })
    }

    /// One step of the rendering machine: pop the top work item and handle it.
    pub open spec fn step(&self, g: ValueGraph, w: Walk) -> Walk {
        if w.stack.len() == 0 {
            w
        } else {
            let it = w.stack.last();
            let rest = w.stack.drop_last();
            let n = g.nodes@[it.node as int];
            match it.state {
                StackState::Start => {
                    if self.too_deep(it.format_depth) {
                        walk_of(rest, w.visited, w.out + self.punct("["@) + "..."@)
                    } else if w.visited.contains_key(n.addr) {
                        if it.type_depth > w.visited[n.addr] + 1 {
                            walk_of(rest, w.visited, w.out + self.cycle_text(n, w.visited[n.addr]))
                        } else {
                            self.dispatch(it, n, rest, w.visited, w.out)
                        }
                    } else {
                        self.dispatch(it, n, rest, w.visited.insert(n.addr, it.type_depth), w.out)
                    }
                },
                StackState::ProcessStructField { field_index } => match n.kind {
                    PeekKind::Struct { fields } => {
                        if field_index >= fields@.len() {
                            walk_of(
                                rest,
                                w.visited,
                                w.out + self.indent(it.format_depth - 1) + self.punct("}"@),
                            )
                        } else {
                            let f = fields@[field_index as int];
                            let cont = StackItem {
                                state: StackState::ProcessStructField {
                                    field_index: (field_index + 1) as usize,
                                },
                                ..it
                            };
                            let head = w.out + self.indent(it.format_depth as int)
                                + self.field_name_text(f.name@) + self.punct(": "@);
                            if f.sensitive {
                                walk_of(
                                    rest.push(cont),
                                    w.visited,
                                    head + self.redacted_text(redacted_literal()) + self.punct(
                                        ","@,
                                    ) + "\n"@,
                                )
                            } else {
                                walk_of(self.descend(g, it, cont, f.value, rest), w.visited, head)
                            }
                        }
                    },
                    _ => walk_of(rest, w.visited, w.out),
                },
                StackState::ProcessListItem { item_index } => match n.kind {
                    PeekKind::List { items } => {
                        if item_index >= items@.len() {
                            walk_of(
                                rest,
                                w.visited,
                                w.out + self.indent(it.format_depth - 1) + self.punct("]"@),
                            )
                        } else {
                            let cont = StackItem {
                                state: StackState::ProcessListItem {
                                    item_index: (item_index + 1) as usize,
                                },
                                ..it
                            };
                            walk_of(
                                self.descend(g, it, cont, items@[item_index as int], rest),
                                w.visited,
                                w.out + self.indent(it.format_depth as int),
                            )
                        }
                    },
                    _ => walk_of(rest, w.visited, w.out),
                },
                StackState::ProcessMapEntry => walk_of(
                    rest,
                    w.visited,
                    w.out + self.indent(it.format_depth as int) + self.comment(
                        "/* Map contents */"@,
                    ) + "\n"@ + self.indent(it.format_depth - 1) + self.punct("}"@),
                ),
                StackState::Finish => walk_of(rest, w.visited, w.out + self.punct(","@) + "\n"@),
            }
        }
    }

    /// Runs the machine for at most `fuel` steps.
    pub open spec fn run(&self, g: ValueGraph, w: Walk, fuel: nat) -> Walk
        decreases fuel,
    {
        if fuel == 0 || w.stack.len() == 0 {
            w
        } else {
            self.run(g, self.step(g, w), (fuel - 1) as nat)
        }
    }

    /// The text that rendering node `root` of `g` produces: the machine run
    /// from the initial state for as many steps as the work bound allows,
    /// which is always enough to empty the stack.
    pub open spec fn rendered(&self, g: ValueGraph, root: usize) -> Seq<char> {
        self.run(g, initial(root), stack_weight(g, initial(root).stack)).out
    }
}

// Termination measure.
/// Bound on the level of any work item.
pub open spec fn depth_bound(g: ValueGraph) -> nat {
    (2 * g.nodes@.len() + 1) * g.nodes@.len() + 1
}

/// Position of a work item along any path from the root: it grows by at
/// least one at every step from a parent to a child.
pub open spec fn level(g: ValueGraph, it: StackItem) -> nat {
    let n = g.nodes@.len();
    (it.type_depth * n + (n - 1 - node_rank(g)[it.node as int])) as nat
}

/// Work bound of a `Start` item at level `t`.
pub open spec fn start_weight(k: nat, b: nat, t: nat) -> nat
    decreases b - t,
{
    if t >= b {
        1
    } else {
        2 + k * (2 + start_weight(k, b, t + 1))
    }
}

pub open spec fn item_weight(g: ValueGraph, it: StackItem) -> nat {
    let k = g.max_fanout();
    let b = depth_bound(g);
    let c = child_count(g.nodes@[it.node as int]);
    let per_child = 2 + start_weight(k, b, level(g, it) + 1);
    match it.state {
        StackState::Start => start_weight(k, b, level(g, it)),
        StackState::ProcessStructField { field_index } => if field_index < c {
            ((c - field_index) as nat) * per_child + 1
        } else {
            1
        },
        StackState::ProcessListItem { item_index } => if item_index < c {
            ((c - item_index) as nat) * per_child + 1
        } else {
            1
        },
        _ => 1,
    }
}

pub open spec fn stack_weight(g: ValueGraph, s: Seq<StackItem>) -> nat
    decreases s.len(),
{
    if s.len() == 0 {
        0
    } else {
        stack_weight(g, s.drop_last()) + item_weight(g, s.last())
    }
}

/// Bounds on a work item relative to the number `n` of addresses seen.
pub open spec fn item_inv(g: ValueGraph, it: StackItem, n: nat) -> bool {
    &&& it.node < g.nodes@.len()
    &&& match it.state {
        StackState::Start | StackState::Finish => it.type_depth <= 2 * n && it.format_depth
            <= level(g, it),
        _ => it.type_depth + 1 <= 2 * n && 1 <= it.format_depth <= level(g, it) + 1,
    }
}

/// What holds of every state the machine reaches from an initial state.
pub open spec fn walk_inv(g: ValueGraph, w: Walk) -> bool {
    let n = w.visited.dom().len();
    &&& w.visited.dom().finite()
    &&& w.visited.dom().subset_of(g.addrs())
    &&& forall|a: usize| #[trigger] w.visited.contains_key(a) ==> w.visited[a] + 2 <= 2 * n
    &&& forall|i: int| 0 <= i < w.stack.len() ==> item_inv(g, #[trigger] w.stack[i], n)
}


impl PrettyPrinter {
    /// Appends `text` styled as punctuation.
    fn write_punctuation(&self, out: &mut String, text: &str)
        ensures
            final(out)@ == old(out)@ + self.punct(text@),
    {
        if self.use_colors {
            out.append("\x1b[2m");
            out.append(text);
            out.append("\x1b[0m");
        } else {
            out.append(text);
        }
        assert(final(out)@ =~= old(out)@ + self.punct(text@));
    }

    /// Returns `text` styled as punctuation.
    pub fn style_punctuation(&self, text: &str) -> (r: String)
        ensures
            r@ == self.punct(text@),
    {
        let mut r = String::new();
        self.write_punctuation(&mut r, text);
        assert(r@ =~= self.punct(text@));
        r
    }

    /// Appends `text` styled as a comment.
    fn write_comment(&self, out: &mut String, text: &str)
        ensures
            final(out)@ == old(out)@ + self.comment(text@),
    {
        if self.use_colors {
            out.append("\x1b[2m");
            out.append(text);
            out.append("\x1b[0m");
        } else {
            out.append(text);
        }
        assert(final(out)@ =~= old(out)@ + self.comment(text@));
    }

    /// Returns `text` styled as a comment.
    pub fn style_comment(&self, text: &str) -> (r: String)
        ensures
            r@ == self.comment(text@),
    {
        let mut r = String::new();
        self.write_comment(&mut r, text);
        assert(r@ =~= self.comment(text@));
        r
    }

    /// Appends a type name in bold.
    fn write_type_name(&self, out: &mut String, name: &str)
        ensures
            final(out)@ == old(out)@ + self.type_name_text(name@),
    {
        if self.use_colors {
            out.append("\x1b[1m");
            out.append(name);
            out.append("\x1b[0m");
        } else {
            out.append(name);
        }
        assert(final(out)@ =~= old(out)@ + self.type_name_text(name@));
    }

    /// Returns a type name styled in bold.
    pub fn style_type_name(&self, name: &str) -> (r: String)
        ensures
            r@ == self.type_name_text(name@),
    {
        let mut r = String::new();
        self.write_type_name(&mut r, name);
        assert(r@ =~= self.type_name_text(name@));
        r
    }

    /// Appends a field name in its accent color.
    fn write_field_name(&self, out: &mut String, name: &str)
        ensures
            final(out)@ == old(out)@ + self.field_name_text(name@),
    {
        if self.use_colors {
            let accent = Rgb { r: 114, g: 160, b: 193 };
            accent.write_fg(out);
            out.append(name);
            out.append("\x1b[0m");
        } else {
            out.append(name);
        }
        assert(final(out)@ =~= old(out)@ + self.field_name_text(name@));
    }

    /// Appends a redacted value in bold red.
    fn write_redacted(&self, out: &mut String, text: &str)
        ensures
            final(out)@ == old(out)@ + self.redacted_text(text@),
    {
        if self.use_colors {
            let red = Rgb { r: 224, g: 49, b: 49 };
            red.write_fg(out);
            out.append("\x1b[1m");
            out.append(text);
            out.append("\x1b[0m");
        } else {
            out.append(text);
        }
        assert(final(out)@ =~= old(out)@ + self.redacted_text(text@));
    }

    /// Returns a redacted value styled in bold red.
    pub fn style_redacted(&self, text: &str) -> (r: String)
        ensures
            r@ == self.redacted_text(text@),
    {
        let mut r = String::new();
        self.write_redacted(&mut r, text);
        assert(r@ =~= self.redacted_text(text@));
        r
    }

    /// Appends the indentation of `levels` nesting levels.
    fn write_indent(&self, out: &mut String, levels: usize)
        ensures
            final(out)@ == old(out)@ + self.indent(levels as int),
    {
        let ghost start = out@;
        let mut l: usize = 0;
        while l < levels
            invariant
                l <= levels,
                out@ == start + spaces((l * self.indent_size) as nat),
            decreases levels - l,
        {
            let mut j: usize = 0;
            while j < self.indent_size
                invariant
                    j <= self.indent_size,
                    l < levels,
                    out@ == start + spaces((l * self.indent_size + j) as nat),
                decreases self.indent_size - j,
            {
                out.append(" ");
                proof {
                    reveal_strlit(" ");
                }
                assert(out@ =~= start + spaces((l * self.indent_size + j + 1) as nat));
                j = j + 1;
            }
            assert(l * self.indent_size + self.indent_size == (l + 1) * self.indent_size)
                by (nonlinear_arith);
            l = l + 1;
        }
    }

    /// Appends a scalar through the fallback chain Display, Debug, type name
    /// with placeholder, in its shape's color.
    pub fn format_value(&self, node: &PeekNode, out: &mut String)
        requires
            node.kind is Scalar,
        ensures
            final(out)@ == old(out)@ + self.scalar_text(*node),
    {
        let color = self.color_generator.generate_color(node.shape_hash);
        if self.use_colors {
            color.write_fg(out);
        }
        let ghost mid = out@;
        match &node.kind {
            PeekKind::Scalar { display, debug } => match display {
                Some(s) => out.append(s.as_str()),
                None => match debug {
                    Some(s) => out.append(s.as_str()),
                    None => {
                        out.append(node.type_label.as_str());
                        out.append("(⋯)");
                    },
                },
            },
            _ => {},
        }
        assert(out@ =~= mid + scalar_body(*node));
        if self.use_colors {
            out.append("\x1b[0m");
        }
        assert(final(out)@ =~= old(out)@ + self.scalar_text(*node));
    }
}

impl PrettyPrinter {
    /// Performs one step of the rendering machine on the executable state.
    fn step_exec(
        &self,
        g: &ValueGraph,
        stack: &mut VecDeque<StackItem>,
        visited: &mut HashMap<usize, usize>,
        out: &mut String,
    )
        requires
            renderable(*g),
            old(stack)@.len() > 0,
            walk_inv(*g, walk_of(old(stack)@, old(visited)@, old(out)@)),
        ensures
            walk_of(final(stack)@, final(visited)@, final(out)@) == self.step(
                *g,
                walk_of(old(stack)@, old(visited)@, old(out)@),
            ),
    {
        let ghost w = walk_of(stack@, visited@, out@);
        proof {
            lemma_visited_bound(*g, w);
            assert(item_inv(*g, w.stack.last(), w.visited.dom().len()));
            lemma_level_bound(*g, w.stack.last());
        }
        let item = stack.pop_back().unwrap();
        assert(stack@ =~= w.stack.drop_last());
        let node = &g.nodes[item.node];
        match item.state {
            StackState::Start => {
                if let Some(m) = self.max_depth {
                    if item.format_depth > m {
                        self.write_punctuation(out, "[");
                        out.append("...");
                        return ;
                    }
                }
                let addr = node.addr;
                match visited.get(&addr) {
                    Some(seen) => {
                        let seen = *seen;
                        assert(w.visited.contains_key(addr));
                        if item.type_depth > seen + 1 {
                            self.write_type_name(out, node.type_label.as_str());
                            self.write_punctuation(out, " { ");
                            let mut msg = String::new();
                            msg.append("/* cycle detected at 0x");
                            push_hex(&mut msg, addr);
                            msg.append(" (first seen at type_depth ");
                            push_decimal(&mut msg, seen);
                            msg.append(") */");
                            assert(msg@ =~= cycle_message(addr, seen));
                            self.write_comment(out, msg.as_str());
                            self.write_punctuation(out, " }");
                            assert(out@ =~= w.out + self.cycle_text(*node, seen));
                            return ;
                        }
                    },
                    None => {
                        visited.insert(addr, item.type_depth);
                    },
                }
                let ghost mid = out@;
                match &node.kind {
                    PeekKind::Scalar { .. } => {
                        self.format_value(node, out);
                    },
                    PeekKind::Struct { fields } => {
                        self.write_type_name(out, node.type_label.as_str());
                        self.write_punctuation(out, " {");
                        if fields.len() == 0 {
                            self.write_punctuation(out, " }");
                            assert(out@ =~= mid + self.type_name_text(node.type_label@)
                                + self.punct(" {"@) + self.punct(" }"@));
                            return ;
                        }
                        out.append("\n");
                        assert(out@ =~= mid + self.type_name_text(node.type_label@)
                            + self.punct(" {"@) + "\n"@);
                        stack.push_back(
                            StackItem {
                                node: item.node,
                                format_depth: item.format_depth + 1,
                                type_depth: item.type_depth,
                                state: StackState::ProcessStructField { field_index: 0 },
                            },
                        );
                    },
                    PeekKind::List { .. } => {
                        self.write_type_name(out, node.type_label.as_str());
                        self.write_punctuation(out, " [");
                        out.append("\n");
                        assert(out@ =~= mid + self.type_name_text(node.type_label@)
                            + self.punct(" ["@) + "\n"@);
                        stack.push_back(
                            StackItem {
                                node: item.node,
                                format_depth: item.format_depth + 1,
                                type_depth: item.type_depth,
                                state: StackState::ProcessListItem { item_index: 0 },
                            },
                        );
                    },
                    PeekKind::Dict => {
                        self.write_type_name(out, node.type_label.as_str());
                        self.write_punctuation(out, " {");
                        out.append("\n");
                        assert(out@ =~= mid + self.type_name_text(node.type_label@)
                            + self.punct(" {"@) + "\n"@);
                        stack.push_back(
                            StackItem {
                                node: item.node,
                                format_depth: item.format_depth + 1,
                                type_depth: item.type_depth,
                                state: StackState::ProcessMapEntry,
                            },
                        );
                    },
                    PeekKind::Other => {
                        out.append("unsupported peek variant: ");
                        out.append(node.type_label.as_str());
                        out.append("\n");
                        assert(out@ =~= mid + "unsupported peek variant: "@ + node.type_label@
                            + "\n"@);
                    },
                }
            },
            StackState::ProcessStructField { field_index } => {
                if let PeekKind::Struct { fields } = &node.kind {
                    if field_index >= fields.len() {
                        self.write_indent(out, item.format_depth - 1);
                        let close = self.style_punctuation("}");
                        out.append(close.as_str());
                        return ;
                    }
                    let field: &PeekField = &fields[field_index];
                    self.write_indent(out, item.format_depth);
                    self.write_field_name(out, field.name.as_str());
                    self.write_punctuation(out, ": ");
                    let ghost head = out@;
                    let cont = StackItem {
                        node: item.node,
                        format_depth: item.format_depth,
                        type_depth: item.type_depth,
                        state: StackState::ProcessStructField { field_index: field_index + 1 },
                    };
                    if field.sensitive {
                        self.write_redacted(out, "[REDACTED]");
                        self.write_punctuation(out, ",");
                        out.append("\n");
                        assert(out@ =~= head + self.redacted_text(redacted_literal())
                            + self.punct(","@) + "\n"@);
                        stack.push_back(cont);
                    } else {
                        self.push_child(g, stack, item, cont, field.value);
                    }
                }
            },
            StackState::ProcessListItem { item_index } => {
                if let PeekKind::List { items } = &node.kind {
                    if item_index >= items.len() {
                        self.write_indent(out, item.format_depth - 1);
                        self.write_punctuation(out, "]");
                        return ;
                    }
                    self.write_indent(out, item.format_depth);
                    let cont = StackItem {
                        node: item.node,
                        format_depth: item.format_depth,
                        type_depth: item.type_depth,
                        state: StackState::ProcessListItem { item_index: item_index + 1 },
                    };
                    self.push_child(g, stack, item, cont, items[item_index]);
                }
            },
            StackState::ProcessMapEntry => {
                self.write_indent(out, item.format_depth);
                let note = self.style_comment("/* Map contents */");
                out.append(note.as_str());
                out.append("\n");
                self.write_indent(out, item.format_depth - 1);
                let close = self.style_punctuation("}");
                out.append(close.as_str());
                assert(out@ =~= w.out + self.indent(item.format_depth as int) + self.comment(
                    "/* Map contents */"@,
                ) + "\n"@ + self.indent(item.format_depth - 1) + self.punct("}"@));
            },
            StackState::Finish => {
                self.write_punctuation(out, ",");
                out.append("\n");
                assert(out@ =~= w.out + self.punct(","@) + "\n"@);
            },
        }
    }

    /// Pushes the continuation, then the closing and starting items of a child.
    fn push_child(
        &self,
        g: &ValueGraph,
        stack: &mut VecDeque<StackItem>,
        item: StackItem,
        cont: StackItem,
        child: usize,
    )
        requires
            item.type_depth < usize::MAX,
            item.node < g.nodes@.len(),
            child < g.nodes@.len(),
        ensures
            final(stack)@ == self.descend(*g, item, cont, child, old(stack)@),
    {
        let type_depth = if g.nodes[child].addr == g.nodes[item.node].addr {
            item.type_depth
        } else {
            item.type_depth + 1
        };
        let fin = StackItem {
            node: child,
            format_depth: item.format_depth,
            type_depth,
            state: StackState::Finish,
        };
        stack.push_back(cont);
        stack.push_back(fin);
        stack.push_back(StackItem { state: StackState::Start, ..fin });
    }
}

impl PrettyPrinter {
    /// Appends the rendering of node `root` of `g` to `out`.
    pub(crate) fn format_peek_internal(&self, g: &ValueGraph, root: usize, out: &mut String)
        requires
            renderable(*g),
            root < g.nodes@.len(),
        ensures
            final(out)@ == old(out)@ + self.rendered(*g, root),
    {
        let mut stack: VecDeque<StackItem> = VecDeque::new();
        stack.push_back(StackItem { node: root, format_depth: 0, type_depth: 0, state: StackState::Start });
        let mut visited: HashMap<usize, usize> = HashMap::new();
        let mut text = String::new();
        let ghost init = initial(root);
        let ghost fuel0 = stack_weight(*g, init.stack);
        let ghost mut fuel = fuel0;
        assert(walk_of(stack@, visited@, text@) =~= init);
        proof {
            lemma_initial_inv(*g, root);
        }
        while stack.len() > 0
            invariant
                renderable(*g),
                walk_inv(*g, walk_of(stack@, visited@, text@)),
                fuel >= stack_weight(*g, stack@),
                self.run(*g, init, fuel0) == self.run(*g, walk_of(stack@, visited@, text@), fuel),
            decreases stack_weight(*g, stack@),
        {
            let ghost w = walk_of(stack@, visited@, text@);
            proof {
                self.lemma_step(*g, w);
                lemma_push_weight(*g, w.stack.drop_last(), w.stack.last());
                assert(w.stack =~= w.stack.drop_last().push(w.stack.last()));
            }
            self.step_exec(g, &mut stack, &mut visited, &mut text);
            proof {
                fuel = (fuel - 1) as nat;
            }
        }
        proof {
            self.lemma_run_done(*g, walk_of(stack@, visited@, text@), fuel);
        }
        out.append(text.as_str());
    }

    /// Renders node `root` of `g`.
    pub fn format_peek(&self, g: &ValueGraph, root: usize) -> (r: String)
        requires
            renderable(*g),
            root < g.nodes@.len(),
        ensures
            r@ == self.rendered(*g, root),
    {
        let mut r = String::new();
        self.format_peek_internal(g, root, &mut r);
        assert(r@ =~= self.rendered(*g, root));
        r
    }

    /// Renders a value whose root is node 0 of `value`.
    pub fn format(&self, value: &ValueGraph) -> (r: String)
        requires
            renderable(*value),
            value.nodes@.len() > 0,
        ensures
            r@ == self.rendered(*value, 0),
    {
        self.format_peek(value, 0)
    }

    /// Appends the rendering of a value whose root is node 0 of `value`.
    pub fn format_to(&self, value: &ValueGraph, out: &mut String)
        requires
            renderable(*value),
            value.nodes@.len() > 0,
        ensures
            final(out)@ == old(out)@ + self.rendered(*value, 0),
    {
        self.format_peek_internal(value, 0, out)
    }
}

impl Default for PrettyPrinter {
    /// Indentation of two spaces, no depth limit, colors on.
    fn default() -> (r: PrettyPrinter)
        ensures
            r.indent_size == 2,
            r.max_depth is None,
            r.use_colors,
            r.color_generator.palette@ == default_palette(),
    {
        PrettyPrinter {
            indent_size: 2,
            max_depth: None,
            color_generator: ColorGenerator::default(),
            use_colors: true,
        }
    }
}

impl PrettyPrinter {
    /// Creates a printer with the default settings.
    pub fn new() -> (r: PrettyPrinter)
        ensures
            r.indent_size == 2,
            r.max_depth is None,
            r.use_colors,
            r.color_generator.palette@ == default_palette(),
    {
        Self::default()
    }

    /// Sets the number of spaces per nesting level.
    pub fn with_indent_size(self, size: usize) -> (r: PrettyPrinter)
        ensures
            r == (PrettyPrinter { indent_size: size, ..self }),
    {
        let mut r = self;
        r.indent_size = size;
        r
    }

    /// Sets the maximum nesting depth that is rendered.
    pub fn with_max_depth(self, depth: usize) -> (r: PrettyPrinter)
        ensures
            r == (PrettyPrinter { max_depth: Some(depth), ..self }),
    {
        let mut r = self;
        r.max_depth = Some(depth);
        r
    }

    /// Sets the generator of per-shape scalar colors.
    pub fn with_color_generator(self, generator: ColorGenerator) -> (r: PrettyPrinter)
        ensures
            r == (PrettyPrinter { color_generator: generator, ..self }),
    {
        let mut r = self;
        r.color_generator = generator;
        r
    }

    /// Turns colors on or off.
    pub fn with_colors(self, use_colors: bool) -> (r: PrettyPrinter)
        ensures
            r == (PrettyPrinter { use_colors, ..self }),
    {
        let mut r = self;
        r.use_colors = use_colors;
        r
    }
}

} // verus!
