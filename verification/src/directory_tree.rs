use vstd::prelude::*;
use crate::text::{push_all, chars_of, string_of};
use crate::media_query::values::{nat_digits, nat_chars};

verus! {

/// A directory of the tree: its name, how many items lie directly in it, and
/// its subdirectories in the order in which they were first seen.
#[derive(Debug)]
pub struct Node {
    pub name: String,
    pub items: u32,
    pub children: Vec<Node>,
}

/// A directory as the contracts see it.
pub struct NodeView {
    pub name: Seq<char>,
    pub items: nat,
    pub children: Seq<NodeView>,
}

/// The view of a node and of all the directories below it.
pub open spec fn node_view(n: Node) -> NodeView
    decreases n,
{
    NodeView {
        name: n.name@,
        items: n.items as nat,
        children: Seq::new(n.children@.len(), |i: int|
            if 0 <= i < n.children@.len() {
                proof {
                    assert(decreases_to!(n => n.children));
                    assert(decreases_to!(n.children => n.children@));
                    assert(decreases_to!(n.children@ => n.children@[i]));
                }
                node_view(n.children@[i])
            } else {
                NodeView { name: Seq::empty(), items: 0, children: Seq::empty() }
            }),
    }
}

impl View for Node {
    type V = NodeView;

    open spec fn view(&self) -> NodeView {
        node_view(*self)
    }
}

impl Node {
    /// An empty directory called `name`.
    pub fn new(name: String) -> (r: Node)
        ensures
            r@ == (NodeView { name: name@, items: 0, children: Seq::empty() }),
    {
        let r = Node { name, items: 0, children: Vec::new() };
        assert(r@.children == Seq::<NodeView>::empty());
        r
    }

    /// Adds `child` as the last subdirectory.
    pub fn add_child(&mut self, child: Node)
        ensures
            final(self)@ == (NodeView {
                name: old(self)@.name,
                items: old(self)@.items,
                children: old(self)@.children.push(child@),
            }),
    {
        let ghost c = child@;
        self.children.push(child);
        assert(self@.children == old(self)@.children.push(c));
    }
}


impl Default for Node {
    /// A directory with an empty name, no items and no subdirectories.
    fn default() -> (r: Node)
        ensures
            r@ == (NodeView { name: Seq::empty(), items: 0, children: Seq::empty() }),
    {
        Node::new(String::new())
    }
}

// ---------------------------------------------------------------------------
// Adding a path
// ---------------------------------------------------------------------------

/// The non-empty pieces of `s` between slashes, in order; `cur` is the piece
/// being read and `acc` the pieces read before it.
pub open spec fn split_from(s: Seq<char>, cur: Seq<char>, acc: Seq<Seq<char>>) -> Seq<Seq<char>>
    decreases s.len(),
{
    let done = if cur.len() > 0 { acc.push(cur) } else { acc };
    if s.len() == 0 {
        done
    } else if s[0] == '/' {
        split_from(s.drop_first(), Seq::empty(), done)
    } else {
        split_from(s.drop_first(), cur.push(s[0]), acc)
    }
}

/// The names of the directories of a path: its non-empty pieces between
/// slashes.
pub open spec fn path_parts(path: Seq<char>) -> Seq<Seq<char>> {
    split_from(path, Seq::empty(), Seq::empty())
}

/// The position of the first directory called `name` among `cs`, from `i` on.
pub open spec fn child_index_from(cs: Seq<NodeView>, name: Seq<char>, i: int) -> Option<int>
    decreases cs.len() - i,
{
    if i < 0 || i >= cs.len() {
        None
    } else if cs[i].name == name {
        Some(i)
    } else {
        child_index_from(cs, name, i + 1)
    }
}

/// The position of the first subdirectory of `n` called `name`.
pub open spec fn child_index(n: NodeView, name: Seq<char>) -> Option<int> {
    child_index_from(n.children, name, 0)
}

pub open spec fn empty_dir(name: Seq<char>) -> NodeView {
    NodeView { name, items: 0, children: Seq::empty() }
}

/// The tree below `n` after one more item at the path `parts`: the
/// directories along the path are found by name, or added last where
/// missing, and the item is counted in the last of them.
pub open spec fn add_parts(n: NodeView, parts: Seq<Seq<char>>) -> NodeView
    decreases parts.len(),
{
    if parts.len() == 0 {
        NodeView { name: n.name, items: n.items + 1, children: n.children }
    } else {
        match child_index(n, parts[0]) {
            Some(i) => NodeView {
                name: n.name,
                items: n.items,
                children: n.children.update(i, add_parts(n.children[i], parts.drop_first())),
            },
            None => NodeView {
                name: n.name,
                items: n.items,
                children: n.children.push(add_parts(empty_dir(parts[0]), parts.drop_first())),
            },
        }
    }
}

/// The number of items directly in the directory at the path `parts` below
/// `n` (zero where there is no such directory).
pub open spec fn items_at(n: NodeView, parts: Seq<Seq<char>>) -> nat
    decreases parts.len(),
{
    if parts.len() == 0 {
        n.items
    } else {
        match child_index(n, parts[0]) {
            Some(i) => if 0 <= i < n.children.len() { items_at(n.children[i], parts.drop_first()) } else { 0 },
            None => 0,
        }
    }
}

/// The texts of a sequence of strings.
pub open spec fn string_views(v: Seq<String>) -> Seq<Seq<char>> {
    v.map_values(|s: String| s@)
}

/// Whether two texts are the same.
fn same_text(a: &str, b: &str) -> (r: bool)
    ensures
        r == (a@ == b@),
{
    let x = chars_of(a);
    let y = chars_of(b);
    if x.len() != y.len() {
        return false;
    }
    let mut i: usize = 0;
    while i < x.len()
        invariant
            i <= x.len() == y.len(),
            x@ == a@,
            y@ == b@,
            forall|j: int| 0 <= j < i ==> x@[j] == y@[j],
        decreases x.len() - i,
    {
        if x[i] != y[i] {
            return false;
        }
        i = i + 1;
    }
    assert(x@ == y@);
    true
}

/// The non-empty pieces of `path` between slashes.
pub fn split_path(path: &str) -> (r: Vec<String>)
    ensures
        string_views(r@) == path_parts(path@),
{
    let cs = chars_of(path);
    let mut parts: Vec<String> = Vec::new();
    let mut cur: Vec<char> = Vec::new();
    let mut i: usize = 0;
    assert(cs@.skip(0) == cs@);
    assert(string_views(parts@) == Seq::<Seq<char>>::empty());
    assert(cur@ == Seq::<char>::empty());
    while i < cs.len()
        invariant
            i <= cs@.len(),
            cs@ == path@,
            split_from(cs@.skip(i as int), cur@, string_views(parts@)) == path_parts(path@),
        decreases cs.len() - i,
    {
        let ghost rest = cs@.skip(i as int);
        assert(rest.drop_first() == cs@.skip(i + 1));
        assert(rest[0] == cs@[i as int]);
        if cs[i] == '/' {
            if cur.len() > 0 {
                let ghost before = string_views(parts@);
                parts.push(string_of(cur.as_slice()));
                assert(string_views(parts@) == before.push(cur@));
            }
            cur = Vec::new();
        } else {
            cur.push(cs[i]);
        }
        i = i + 1;
    }
    if cur.len() > 0 {
        let ghost before = string_views(parts@);
        parts.push(string_of(cur.as_slice()));
        assert(string_views(parts@) == before.push(cur@));
    }
    parts
}

/// The position of the first of `children` called `name`.
fn find_child(children: &Vec<Node>, name: &str) -> (r: Option<usize>)
    ensures
        match r {
            Some(j) => j < children@.len() && child_index_from(node_views(children@), name@, 0) == Some(j as int),
            None => child_index_from(node_views(children@), name@, 0) is None,
        },
{
    let ghost cs = node_views(children@);
    let mut i: usize = 0;
    while i < children.len()
        invariant
            i <= children@.len(),
            cs == node_views(children@),
            child_index_from(cs, name@, 0) == child_index_from(cs, name@, i as int),
        decreases children.len() - i,
    {
        assert(cs[i as int].name == children@[i as int].name@);
        if same_text(children[i].name.as_str(), name) {
            return Some(i);
        }
        i = i + 1;
    }
    None
}

/// The views of a sequence of nodes.
pub open spec fn node_views(v: Seq<Node>) -> Seq<NodeView> {
    Seq::new(v.len(), |i: int| node_view(v[i]))
}

proof fn lemma_view_children(n: Node)
    ensures
        n@.children == node_views(n.children@),
{
    assert(n@.children =~= node_views(n.children@));
}

/// Counts one more item at the path `parts[k..]` below `node`.
fn add_parts_from(node: &mut Node, parts: &Vec<String>, k: usize)
    requires
        k <= parts@.len(),
        items_at(old(node)@, string_views(parts@).skip(k as int)) < u32::MAX,
    ensures
        final(node)@ == add_parts(old(node)@, string_views(parts@).skip(k as int)),
    decreases parts@.len() - k,
{
    let ghost ps = string_views(parts@).skip(k as int);
    let ghost before = node@;
    proof { lemma_view_children(*node); }
    if k == parts.len() {
        assert(ps.len() == 0);
        node.items = node.items + 1;
        proof { lemma_view_children(*node); }
        return;
    }
    assert(ps[0] == parts@[k as int]@);
    assert(ps.drop_first() == string_views(parts@).skip(k + 1));
    let j = match find_child(&node.children, parts[k].as_str()) {
        Some(j) => {
            assert(items_at(before, ps) == items_at(before.children[j as int], ps.drop_first()));
            j
        },
        None => {
            let fresh = Node::new(parts[k].clone());
            assert(node@ == before);
            node.add_child(fresh);
            assert(node@.children == before.children.push(empty_dir(ps[0])));
            proof { lemma_view_children(*node); }
            assert(node@.children.len() == node.children@.len());
            assert(node.children@.len() == before.children.len() + 1);
            let last = node.children.len() - 1;
            assert(node_views(node.children@)[last as int] == empty_dir(ps[0]));
            assert(items_at(empty_dir(ps[0]), ps.drop_first()) == 0) by {
                let r = ps.drop_first();
                if r.len() > 0 {
                    assert(child_index(empty_dir(ps[0]), r[0]) is None);
                }
            }
            last
        },
    };
    let ghost mid = node_views(node.children@);
    let mut child = node.children.remove(j);
    assert(child@ == mid[j as int]);
    add_parts_from(&mut child, parts, k + 1);
    let ghost done = child@;
    node.children.insert(j, child);
    proof {
        lemma_view_children(*node);
        assert(node_views(node.children@) == mid.update(j as int, done));
        assert(node@.children == mid.update(j as int, done));
        match child_index(before, ps[0]) {
            Some(i) => {
                assert(mid == before.children);
                assert(add_parts(before, ps) == NodeView {
                    name: before.name,
                    items: before.items,
                    children: before.children.update(i, add_parts(before.children[i], ps.drop_first())),
                });
            },
            None => {
                assert(mid == before.children.push(empty_dir(ps[0])));
                assert(mid.update(j as int, done) == before.children.push(done));
            },
        }
        assert(node@ == add_parts(before, ps));
    }
}

/// The number of items in `n` and in all the directories below it.
pub open spec fn total_items(n: NodeView) -> nat
    decreases n, 1int,
{
    n.items + total_items_of(n.children)
}

/// The number of items in the directories `cs` and below them.
pub open spec fn total_items_of(cs: Seq<NodeView>) -> nat
    decreases cs, 0int,
{
    if cs.len() == 0 {
        0
    } else {
        total_items_of(cs.drop_last()) + total_items(cs.last())
    }
}

proof fn lemma_index_update(cs: Seq<NodeView>, name: Seq<char>, i: int, x: NodeView, j: int)
    requires
        0 <= i < cs.len(),
        0 <= j,
        x.name == cs[i].name,
    ensures
        child_index_from(cs.update(i, x), name, j) == child_index_from(cs, name, j),
    decreases cs.len() - j,
{
    if j < cs.len() {
        lemma_index_update(cs, name, i, x, j + 1);
    }
}

proof fn lemma_index_push(cs: Seq<NodeView>, y: NodeView, j: int)
    requires
        0 <= j <= cs.len(),
        child_index_from(cs, y.name, j) is None,
    ensures
        child_index_from(cs.push(y), y.name, j) == Some(cs.len() as int),
    decreases cs.len() - j,
{
    if j < cs.len() {
        lemma_index_push(cs, y, j + 1);
    }
}

proof fn lemma_index_in_range(cs: Seq<NodeView>, name: Seq<char>, j: int)
    requires
        0 <= j,
    ensures
        child_index_from(cs, name, j) matches Some(i) ==> j <= i < cs.len() && cs[i].name == name,
    decreases cs.len() - j,
{
    if j < cs.len() {
        lemma_index_in_range(cs, name, j + 1);
    }
}

/// After one more item at a path, the directory at that path holds one item
/// more.
pub proof fn lemma_add_path_counts_at_path(n: NodeView, parts: Seq<Seq<char>>)
    ensures
        items_at(add_parts(n, parts), parts) == items_at(n, parts) + 1,
    decreases parts.len(),
{
    if parts.len() > 0 {
        let rest = parts.drop_first();
        lemma_index_in_range(n.children, parts[0], 0);
        match child_index(n, parts[0]) {
            Some(i) => {
                let x = add_parts(n.children[i], rest);
                lemma_add_path_counts_at_path(n.children[i], rest);
                lemma_index_update(n.children, parts[0], i, x, 0);
                assert(n.children.update(i, x)[i] == x);
            },
            None => {
                let y = add_parts(empty_dir(parts[0]), rest);
                lemma_add_path_counts_at_path(empty_dir(parts[0]), rest);
                lemma_index_push(n.children, y, 0);
                assert(n.children.push(y)[n.children.len() as int] == y);
                assert(items_at(empty_dir(parts[0]), rest) == 0) by {
                    if rest.len() > 0 {
                        assert(child_index(empty_dir(parts[0]), rest[0]) is None);
                    }
                }
            },
        }
    }
}

proof fn lemma_total_update(cs: Seq<NodeView>, i: int, x: NodeView)
    requires
        0 <= i < cs.len(),
    ensures
        total_items_of(cs.update(i, x)) + total_items(cs[i]) == total_items_of(cs) + total_items(x),
    decreases cs.len(),
{
    let u = cs.update(i, x);
    if i == cs.len() - 1 {
        assert(u.drop_last() == cs.drop_last());
    } else {
        lemma_total_update(cs.drop_last(), i, x);
        assert(u.drop_last() == cs.drop_last().update(i, x));
    }
}

/// Adding a path adds exactly one item to the whole tree.
pub proof fn lemma_add_path_adds_one_item(n: NodeView, parts: Seq<Seq<char>>)
    ensures
        total_items(add_parts(n, parts)) == total_items(n) + 1,
    decreases parts.len(),
{
    if parts.len() > 0 {
        let rest = parts.drop_first();
        lemma_index_in_range(n.children, parts[0], 0);
        match child_index(n, parts[0]) {
            Some(i) => {
                let x = add_parts(n.children[i], rest);
                lemma_add_path_adds_one_item(n.children[i], rest);
                lemma_total_update(n.children, i, x);
            },
            None => {
                let y = add_parts(empty_dir(parts[0]), rest);
                lemma_add_path_adds_one_item(empty_dir(parts[0]), rest);
                assert(n.children.push(y).drop_last() == n.children);
                assert(total_items_of(empty_dir(parts[0]).children) == 0);
            },
        }
    }
}

/// No two subdirectories of `n`, nor of any directory below it, share a name.
pub open spec fn names_distinct(n: NodeView) -> bool
    decreases n, 1int,
{
    &&& forall|i: int, j: int| 0 <= i < j < n.children.len() ==> (#[trigger] n.children[i]).name != (#[trigger] n.children[j]).name
    &&& all_names_distinct(n.children)
}

/// Every directory of `cs` keeps its subdirectories' names distinct.
pub open spec fn all_names_distinct(cs: Seq<NodeView>) -> bool
    decreases cs, 0int,
{
    if cs.len() == 0 {
        true
    } else {
        all_names_distinct(cs.drop_last()) && names_distinct(cs.last())
    }
}

proof fn lemma_all_names_distinct_at(cs: Seq<NodeView>, k: int)
    requires
        all_names_distinct(cs),
        0 <= k < cs.len(),
    ensures
        names_distinct(cs[k]),
    decreases cs.len(),
{
    if k < cs.len() - 1 {
        lemma_all_names_distinct_at(cs.drop_last(), k);
    }
}

proof fn lemma_all_names_distinct_update(cs: Seq<NodeView>, i: int, x: NodeView)
    requires
        all_names_distinct(cs),
        0 <= i < cs.len(),
        names_distinct(x),
    ensures
        all_names_distinct(cs.update(i, x)),
    decreases cs.len(),
{
    let u = cs.update(i, x);
    if i == cs.len() - 1 {
        assert(u.drop_last() == cs.drop_last());
    } else {
        lemma_all_names_distinct_update(cs.drop_last(), i, x);
        assert(u.drop_last() == cs.drop_last().update(i, x));
    }
}

proof fn lemma_index_none(cs: Seq<NodeView>, name: Seq<char>, j: int)
    requires
        0 <= j,
        child_index_from(cs, name, j) is None,
    ensures
        forall|k: int| j <= k < cs.len() ==> (#[trigger] cs[k]).name != name,
    decreases cs.len() - j,
{
    if j < cs.len() {
        lemma_index_none(cs, name, j + 1);
    }
}

/// Adding a path keeps the names of the subdirectories of every directory
/// distinct.
pub proof fn lemma_add_path_keeps_names_distinct(n: NodeView, parts: Seq<Seq<char>>)
    requires
        names_distinct(n),
    ensures
        names_distinct(add_parts(n, parts)),
    decreases parts.len(),
{
    if parts.len() > 0 {
        let rest = parts.drop_first();
        lemma_index_in_range(n.children, parts[0], 0);
        match child_index(n, parts[0]) {
            Some(i) => {
                let x = add_parts(n.children[i], rest);
                lemma_all_names_distinct_at(n.children, i);
                lemma_add_path_keeps_names_distinct(n.children[i], rest);
                lemma_all_names_distinct_update(n.children, i, x);
                let u = n.children.update(i, x);
                assert forall|a: int, b: int| 0 <= a < b < u.len() implies (#[trigger] u[a]).name != (#[trigger] u[b]).name by {
                    assert(n.children[a].name != n.children[b].name);
                }
            },
            None => {
                let y = add_parts(empty_dir(parts[0]), rest);
                assert(names_distinct(empty_dir(parts[0])));
                lemma_add_path_keeps_names_distinct(empty_dir(parts[0]), rest);
                lemma_index_none(n.children, parts[0], 0);
                let u = n.children.push(y);
                assert(u.drop_last() == n.children);
                assert forall|a: int, b: int| 0 <= a < b < u.len() implies (#[trigger] u[a]).name != (#[trigger] u[b]).name by {
                    if b == n.children.len() {
                        assert(u[a] == n.children[a]);
                        assert(n.children[a].name != parts[0]);
                    } else {
                        assert(n.children[a].name != n.children[b].name);
                    }
                }
            },
        }
    }
}

/// The directory at the path `parts` below `n`, if there is one.
pub open spec fn node_at(n: NodeView, parts: Seq<Seq<char>>) -> Option<NodeView>
    decreases parts.len(),
{
    if parts.len() == 0 {
        Some(n)
    } else {
        match child_index(n, parts[0]) {
            Some(i) => if 0 <= i < n.children.len() { node_at(n.children[i], parts.drop_first()) } else { None },
            None => None,
        }
    }
}

/// The names of the directories `cs`, in order.
pub open spec fn child_names(cs: Seq<NodeView>) -> Seq<Seq<char>> {
    cs.map_values(|c: NodeView| c.name)
}

/// `a` is the start of `b`.
pub open spec fn is_prefix_of(a: Seq<Seq<char>>, b: Seq<Seq<char>>) -> bool {
    a.len() <= b.len() && forall|k: int| 0 <= k < a.len() ==> #[trigger] b[k] == a[k]
}

/// The tree of a `DirectoryTree` made by `new` and given the paths `paths`
/// by `add_path`, in order.
pub open spec fn tree_of(paths: Seq<Seq<char>>) -> NodeView
    decreases paths.len(),
{
    if paths.len() == 0 {
        empty_dir("."@)
    } else {
        add_parts(tree_of(paths.drop_last()), path_parts(paths.last()))
    }
}

proof fn lemma_index_push_other(cs: Seq<NodeView>, y: NodeView, name: Seq<char>, j: int)
    requires
        0 <= j <= cs.len(),
        y.name != name,
    ensures
        child_index_from(cs.push(y), name, j) == child_index_from(cs, name, j),
    decreases cs.len() - j,
{
    if j < cs.len() {
        assert(cs.push(y)[j] == cs[j]);
        lemma_index_push_other(cs, y, name, j + 1);
    } else {
        assert(cs.push(y)[j] == y);
        assert(child_index_from(cs.push(y), name, j + 1) is None);
    }
}

proof fn lemma_add_parts_name(n: NodeView, parts: Seq<Seq<char>>)
    ensures
        add_parts(n, parts).name == n.name,
{
}

/// Counting one more item at a path leaves the count of every other
/// directory as it was.
pub proof fn lemma_add_path_keeps_other_counts(n: NodeView, parts: Seq<Seq<char>>, q: Seq<Seq<char>>)
    requires
        q != parts,
    ensures
        items_at(add_parts(n, parts), q) == items_at(n, q),
    decreases parts.len(),
{
    let a = add_parts(n, parts);
    if parts.len() == 0 {
        if q.len() == 0 {
            assert(q =~= parts);
        }
        assert(a.children == n.children);
    } else if q.len() == 0 {
    } else {
        let p0 = parts[0];
        let q0 = q[0];
        let rest = parts.drop_first();
        let qrest = q.drop_first();
        lemma_index_in_range(n.children, p0, 0);
        lemma_index_in_range(n.children, q0, 0);
        match child_index(n, p0) {
            Some(i) => {
                let x = add_parts(n.children[i], rest);
                lemma_add_parts_name(n.children[i], rest);
                lemma_index_update(n.children, q0, i, x, 0);
                match child_index(n, q0) {
                    Some(j) => {
                        if j == i {
                            assert(q0 == p0);
                            if qrest == rest {
                                assert(q =~= parts) by {
                                    assert(q == seq![q0] + qrest);
                                    assert(parts == seq![p0] + rest);
                                }
                            }
                            lemma_add_path_keeps_other_counts(n.children[i], rest, qrest);
                        } else {
                            assert(n.children.update(i, x)[j] == n.children[j]);
                        }
                    },
                    None => {},
                }
            },
            None => {
                let y = add_parts(empty_dir(p0), rest);
                lemma_add_parts_name(empty_dir(p0), rest);
                if q0 == p0 {
                    lemma_index_push(n.children, y, 0);
                    assert(n.children.push(y)[n.children.len() as int] == y);
                    if qrest == rest {
                        assert(q =~= parts) by {
                            assert(q == seq![q0] + qrest);
                            assert(parts == seq![p0] + rest);
                        }
                    }
                    lemma_add_path_keeps_other_counts(empty_dir(p0), rest, qrest);
                    assert(items_at(empty_dir(p0), qrest) == 0) by {
                        if qrest.len() > 0 {
                            assert(child_index(empty_dir(p0), qrest[0]) is None);
                        }
                    }
                } else {
                    lemma_index_push_other(n.children, y, q0, 0);
                    match child_index(n, q0) {
                        Some(j) => {
                            assert(n.children.push(y)[j] == n.children[j]);
                        },
                        None => {},
                    }
                }
            },
        }
    }
}

/// After one more item at a path, the directory at that path exists; every
/// directory that existed still does, with its subdirectories in the same
/// order, new ones only added after them.
pub proof fn lemma_add_path_keeps_order(n: NodeView, parts: Seq<Seq<char>>, q: Seq<Seq<char>>)
    ensures
        node_at(add_parts(n, parts), parts) is Some,
        node_at(n, q) matches Some(old) ==> node_at(add_parts(n, parts), q) matches Some(new)
            && is_prefix_of(child_names(old.children), child_names(new.children)),
    decreases parts.len(),
{
    let a = add_parts(n, parts);
    if parts.len() == 0 {
        assert(a.children == n.children);
    } else {
        let p0 = parts[0];
        let rest = parts.drop_first();
        lemma_index_in_range(n.children, p0, 0);
        match child_index(n, p0) {
            Some(i) => {
                let x = add_parts(n.children[i], rest);
                let u = n.children.update(i, x);
                lemma_add_parts_name(n.children[i], rest);
                lemma_index_update(n.children, p0, i, x, 0);
                lemma_add_path_keeps_order(n.children[i], rest, rest);
                assert(u[i] == x);
                if q.len() == 0 {
                    assert(child_names(u) =~= child_names(n.children));
                } else {
                    let q0 = q[0];
                    let qrest = q.drop_first();
                    lemma_index_in_range(n.children, q0, 0);
                    lemma_index_update(n.children, q0, i, x, 0);
                    match child_index(n, q0) {
                        Some(j) => {
                            if j == i {
                                lemma_add_path_keeps_order(n.children[i], rest, qrest);
                            } else {
                                assert(u[j] == n.children[j]);
                            }
                        },
                        None => {},
                    }
                }
            },
            None => {
                let y = add_parts(empty_dir(p0), rest);
                let u = n.children.push(y);
                lemma_add_parts_name(empty_dir(p0), rest);
                lemma_index_push(n.children, y, 0);
                lemma_add_path_keeps_order(empty_dir(p0), rest, rest);
                assert(u[n.children.len() as int] == y);
                if q.len() == 0 {
                    assert(child_names(u) =~= child_names(n.children).push(y.name));
                } else {
                    let q0 = q[0];
                    lemma_index_in_range(n.children, q0, 0);
                    if q0 != p0 {
                        lemma_index_push_other(n.children, y, q0, 0);
                        match child_index(n, q0) {
                            Some(j) => {
                                assert(u[j] == n.children[j]);
                            },
                            None => {},
                        }
                    }
                }
            },
        }
    }
}

/// The items of a tree made by `new` and `add_path` number the calls of
/// `add_path`.
pub proof fn lemma_items_count_added_paths(paths: Seq<Seq<char>>)
    ensures
        total_items(tree_of(paths)) == paths.len(),
    decreases paths.len(),
{
    if paths.len() > 0 {
        lemma_items_count_added_paths(paths.drop_last());
        lemma_add_path_adds_one_item(tree_of(paths.drop_last()), path_parts(paths.last()));
    } else {
        assert(total_items_of(empty_dir("."@).children) == 0);
    }
}

// ---------------------------------------------------------------------------
// Printing
// ---------------------------------------------------------------------------

pub open spec fn branch(is_last: bool) -> Seq<char> {
    if is_last { "└"@ } else { "├"@ }
}

pub open spec fn indent(is_last: bool) -> Seq<char> {
    if is_last { "   "@ } else { "│  "@ }
}

/// `<prefix>└─ <name> (<items> items)` and a line break.
pub open spec fn node_line(n: NodeView, prefix: Seq<char>, is_last: bool) -> Seq<char> {
    prefix + branch(is_last) + "─ "@ + n.name + " ("@ + nat_digits(n.items) + " items)\n"@
}

/// The lines of `n` and of the directories below it, depth first.
pub open spec fn pretty(n: NodeView, prefix: Seq<char>, is_last: bool) -> Seq<char>
    decreases n, 1int,
{
    node_line(n, prefix, is_last) + pretty_children(n.children, prefix + indent(is_last), n.children.len())
}

/// The lines of the directories `cs`, the first of `total` siblings.
pub open spec fn pretty_children(cs: Seq<NodeView>, prefix: Seq<char>, total: nat) -> Seq<char>
    decreases cs, 0int,
{
    if cs.len() == 0 {
        Seq::empty()
    } else {
        pretty_children(cs.drop_last(), prefix, total) + pretty(cs.last(), prefix, cs.len() == total)
    }
}

impl Node {
    /// Writes the directory and those below it, one line each, drawn as a
    /// tree after `prefix`; `is_last` tells whether it is the last of its
    /// siblings.
    pub fn pretty_print(&self, out: &mut String, prefix: &str, is_last: bool)
        ensures
            final(out)@ == old(out)@ + pretty(self@, prefix@, is_last),
        decreases self,
    {
        let ghost start = out@;
        push_all(out, prefix);
        push_all(out, if is_last { "└" } else { "├" });
        push_all(out, "─ ");
        push_all(out, self.name.as_str());
        push_all(out, " (");
        let digits = nat_chars(self.items as u64);
        let count = string_of(digits.as_slice());
        push_all(out, count.as_str());
        push_all(out, " items)\n");
        let ghost line = out@;
        assert(line == start + node_line(self@, prefix@, is_last));
        let mut new_prefix = String::new();
        push_all(&mut new_prefix, prefix);
        push_all(&mut new_prefix, if is_last { "   " } else { "│  " });
        proof { lemma_view_children(*self); }
        let ghost cs = self@.children;
        let n = self.children.len();
        let mut i: usize = 0;
        while i < n
            invariant
                i <= n == self.children@.len(),
                cs == node_views(self.children@),
                new_prefix@ == prefix@ + indent(is_last),
                out@ == line + pretty_children(cs.take(i as int), new_prefix@, n as nat),
            decreases n - i,
        {
            assert(cs.take(i + 1).drop_last() == cs.take(i as int));
            assert(cs.take(i + 1).last() == cs[i as int]);
            proof {
                assert(decreases_to!(self => self.children));
                assert(decreases_to!(self.children => self.children@));
                assert(decreases_to!(self.children@ => self.children@[i as int]));
            }
            self.children[i].pretty_print(out, new_prefix.as_str(), i == n - 1);
            i = i + 1;
        }
        assert(cs.take(n as int) == cs);
    }
}

/// The directories of scanned paths, with how many items each holds.
pub struct DirectoryTree {
    root: Node,
}

impl Default for DirectoryTree {
    /// A tree whose root has an empty name.
    fn default() -> (r: DirectoryTree)
        ensures
            r@ == empty_dir(Seq::empty()),
    {
        DirectoryTree { root: Node::default() }
    }
}

impl View for DirectoryTree {
    type V = NodeView;

    closed spec fn view(&self) -> NodeView {
        self.root@
    }
}

impl DirectoryTree {
    /// A tree with only the root directory `.`.
    pub fn new() -> (r: DirectoryTree)
        ensures
            r@ == empty_dir("."@),
    {
        DirectoryTree { root: Node::new(String::from_str(".")) }
    }

    /// The root directory of the tree.
    pub fn root(&self) -> (r: &Node)
        ensures
            r@ == self@,
    {
        &self.root
    }

    /// The tree drawn one directory per line, the root first.
    pub fn to_text(&self) -> (r: String)
        ensures
            r@ == pretty(self@, Seq::empty(), true),
    {
        let mut out = String::new();
        proof { reveal_strlit(""); }
        self.root.pretty_print(&mut out, "", true);
        assert(out@ == Seq::<char>::empty() + pretty(self@, Seq::empty(), true));
        out
    }

    /// Counts one more item in the directory at `path`, adding the
    /// directories along the path that are missing.
    pub fn add_path(&mut self, path: &str)
        requires
            items_at(old(self)@, path_parts(path@)) < u32::MAX,
        ensures
            final(self)@ == add_parts(old(self)@, path_parts(path@)),
    {
        let parts = split_path(path);
        assert(string_views(parts@).skip(0) == path_parts(path@));
        add_parts_from(&mut self.root, &parts, 0);
    }
}

} // verus!
