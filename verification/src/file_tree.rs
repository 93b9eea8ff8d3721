//! An in-memory tree of files and directories, grown path by path.
use vstd::prelude::*;
use vstd::string::*;
use crate::meta::FileMetaType;
use crate::text::{int_decimal, append_i64, last_index_of, split_spec, split_str, rfind_char, lemma_split_len, lemma_last_index_of, join_with, split_then_join, lemma_split_nonempty, lemma_join_last};

verus! {

/// One entry of the tree. Children are indices into the tree's node table.
pub struct FileNode {
    pub id: Option<i32>,
    pub file_type: FileMetaType,
    pub name: String,
    pub length: usize,
    pub version: usize,
    pub dirty: bool,
    pub children: Vec<usize>,
}

/// What a node holds, with its name as characters.
pub struct NodeView {
    pub id: Option<i32>,
    pub file_type: FileMetaType,
    pub name: Seq<char>,
    pub length: usize,
    pub version: usize,
    pub dirty: bool,
    pub children: Seq<usize>,
}

impl View for FileNode {
    type V = NodeView;

    open spec fn view(&self) -> NodeView {
        NodeView {
            id: self.id,
            file_type: self.file_type,
            name: self.name@,
            length: self.length,
            version: self.version,
            dirty: self.dirty,
            children: self.children@,
        }
    }
}

/// A node as `FileNode::new` makes it.
pub open spec fn fresh_node(name: Seq<char>, file_type: FileMetaType) -> NodeView {
    NodeView {
        id: None,
        file_type,
        name,
        length: 0,
        version: 0,
        dirty: true,
        children: Seq::empty(),
    }
}

impl FileNode {
    pub fn new(name: &str, file_type: FileMetaType) -> (n: FileNode)
        ensures
            n@ == fresh_node(name@, file_type),
    {
        FileNode {
            id: None,
            file_type,
            name: name.to_owned(),
            length: 0,
            version: 0,
            dirty: true,
            children: Vec::new(),
        }
    }
}

/// Every child index points past its parent and into the table, and the root exists.
pub open spec fn tree_wf(nodes: Seq<NodeView>) -> bool {
    &&& nodes.len() >= 1
    &&& forall|i: int, k: int|
        0 <= i < nodes.len() && 0 <= k < nodes[i].children.len() ==> i < #[trigger] nodes[i].children[k]
            < nodes.len()
}

/// The last of `children` whose node is named `name`.
pub open spec fn last_child_named(nodes: Seq<NodeView>, children: Seq<usize>, name: Seq<char>) -> Option<int>
    decreases children.len(),
{
    if children.len() == 0 {
        None
    } else if nodes[children.last() as int].name == name {
        Some(children.last() as int)
    } else {
        last_child_named(nodes, children.drop_last(), name)
    }
}

/// Some of `children` is named `name` and is no directory.
pub open spec fn clashes(nodes: Seq<NodeView>, children: Seq<usize>, name: Seq<char>) -> bool {
    exists|k: int|
        0 <= k < children.len() && nodes[children[k] as int].name == name
            && #[trigger] nodes[children[k] as int].file_type != FileMetaType::DIR
}

/// `node` appended to the table as the last child of `parent`.
pub open spec fn attach(nodes: Seq<NodeView>, parent: int, node: NodeView) -> Seq<NodeView> {
    nodes.update(
        parent,
        NodeView { children: nodes[parent].children.push(nodes.len() as usize), ..nodes[parent] },
    ).push(node)
}

/// One step down from `cur` into the child named `name`, creating that directory if missing.
pub open spec fn step(nodes: Seq<NodeView>, cur: int, name: Seq<char>) -> (Seq<NodeView>, int) {
    match last_child_named(nodes, nodes[cur].children, name) {
        Some(j) => (nodes, j),
        None => (attach(nodes, cur, fresh_node(name, FileMetaType::DIR)), nodes.len() as int),
    }
}

/// Steps down along `names`, returning the grown table and the node reached.
pub open spec fn walk(nodes: Seq<NodeView>, cur: int, names: Seq<Seq<char>>) -> (Seq<NodeView>, int)
    decreases names.len(),
{
    if names.len() == 0 {
        (nodes, cur)
    } else {
        let (n1, c1) = step(nodes, cur, names[0]);
        walk(n1, c1, names.drop_first())
    }
}

/// No step along `names` meets a same-named entry that is no directory.
pub open spec fn walk_ok(nodes: Seq<NodeView>, cur: int, names: Seq<Seq<char>>) -> bool
    decreases names.len(),
{
    if names.len() == 0 {
        true
    } else {
        let (n1, c1) = step(nodes, cur, names[0]);
        !clashes(nodes, nodes[cur].children, names[0]) && walk_ok(n1, c1, names.drop_first())
    }
}

/// The directories leading to the new entry, and its name.
pub open spec fn parse_path(path: Seq<char>) -> (Seq<Seq<char>>, Seq<char>) {
    match last_index_of(path, '/') {
        None => (Seq::empty(), path),
        Some(size) => {
            let start: int = if path[0] == '/' { 1 } else { 0 };
            (split_spec(path.subrange(start, size), '/'), path.subrange(size + 1, path.len() as int))
        },
    }
}

/// The path can be cut into parent and name: a path whose only `/` leads it cannot.
pub open spec fn path_ok(path: Seq<char>) -> bool {
    last_index_of(path, '/') != Some(0int)
}

/// `add_node` completes on this tree and path.
pub open spec fn add_node_ok(nodes: Seq<NodeView>, path: Seq<char>) -> bool {
    path_ok(path) && walk_ok(nodes, 0, parse_path(path).0)
}

/// The table after adding an entry of `file_type` at `path`.
pub open spec fn add_node_spec(nodes: Seq<NodeView>, path: Seq<char>, file_type: FileMetaType) -> Seq<NodeView> {
    let (names, name) = parse_path(path);
    let (grown, target) = walk(nodes, 0, names);
    attach(grown, target, fresh_node(name, file_type))
}

pub proof fn lemma_attach_wf(nodes: Seq<NodeView>, parent: int, node: NodeView)
    requires
        tree_wf(nodes),
        0 <= parent < nodes.len(),
        node.children.len() == 0,
        nodes.len() < usize::MAX,
    ensures
        tree_wf(attach(nodes, parent, node)),
        attach(nodes, parent, node).len() == nodes.len() + 1,
{
    let n2 = attach(nodes, parent, node);
    assert forall|i: int, k: int|
        0 <= i < n2.len() && 0 <= k < n2[i].children.len() implies i < #[trigger] n2[i].children[k] < n2.len() by {
        if i == parent {
            assert(n2[i].children == nodes[parent].children.push(nodes.len() as usize));
            if k < nodes[parent].children.len() {
                assert(n2[i].children[k] == nodes[i].children[k]);
            } else {
                assert(n2[i].children[k] == nodes.len());
            }
        } else if i < nodes.len() {
            assert(n2[i].children[k] == nodes[i].children[k]);
        }
    }
}

pub proof fn lemma_last_child_named(nodes: Seq<NodeView>, children: Seq<usize>, name: Seq<char>)
    ensures
        match last_child_named(nodes, children, name) {
            Some(j) => exists|k: int| 0 <= k < children.len() && children[k] == j && nodes[j].name == name,
            None => true,
        },
    decreases children.len(),
{
    if children.len() > 0 {
        lemma_last_child_named(nodes, children.drop_last(), name);
        if let Some(j) = last_child_named(nodes, children, name) {
            if nodes[children.last() as int].name == name {
                assert(children[children.len() - 1] == j);
            } else {
                let k = choose|k: int| 0 <= k < children.len() - 1 && children.drop_last()[k] == j && nodes[j].name == name;
                assert(children[k] == j);
            }
        }
    }
}

pub proof fn lemma_step_wf(nodes: Seq<NodeView>, cur: int, name: Seq<char>)
    requires
        tree_wf(nodes),
        0 <= cur < nodes.len(),
        nodes.len() < usize::MAX,
    ensures
        tree_wf(step(nodes, cur, name).0),
        0 <= step(nodes, cur, name).1 < step(nodes, cur, name).0.len(),
        nodes.len() <= step(nodes, cur, name).0.len() <= nodes.len() + 1,
{
    lemma_last_child_named(nodes, nodes[cur].children, name);
    match last_child_named(nodes, nodes[cur].children, name) {
        Some(j) => {
            let k = choose|k: int| 0 <= k < nodes[cur].children.len() && nodes[cur].children[k] == j && nodes[j].name == name;
            assert(cur < nodes[cur].children[k] < nodes.len());
        },
        None => {
            lemma_attach_wf(nodes, cur, fresh_node(name, FileMetaType::DIR));
        },
    }
}

pub proof fn lemma_walk_wf(nodes: Seq<NodeView>, cur: int, names: Seq<Seq<char>>)
    requires
        tree_wf(nodes),
        0 <= cur < nodes.len(),
        nodes.len() + names.len() < usize::MAX,
    ensures
        tree_wf(walk(nodes, cur, names).0),
        0 <= walk(nodes, cur, names).1 < walk(nodes, cur, names).0.len(),
        nodes.len() <= walk(nodes, cur, names).0.len() <= nodes.len() + names.len(),
    decreases names.len(),
{
    if names.len() > 0 {
        lemma_step_wf(nodes, cur, names[0]);
        let (n1, c1) = step(nodes, cur, names[0]);
        lemma_walk_wf(n1, c1, names.drop_first());
    }
}

/// A tree of nodes kept in a table, with the root at index 0.
pub struct FileManager {
    pub nodes: Vec<FileNode>,
}

impl FileManager {
    pub open spec fn table(&self) -> Seq<NodeView> {
        self.nodes@.map_values(|n: FileNode| n@)
    }

    pub fn new() -> (m: FileManager)
        ensures
            m.table() == seq![fresh_node(""@, FileMetaType::DIR)],
            tree_wf(m.table()),
    {
        let mut nodes = Vec::new();
        nodes.push(FileNode::new("", FileMetaType::DIR));
        let m = FileManager { nodes };
        assert(m.table() =~= seq![fresh_node(""@, FileMetaType::DIR)]);
        m
    }

    /// The last child of node `cur` named `name`.
    fn find_last_child(&self, cur: usize, name: &String) -> (r: Option<usize>)
        requires
            tree_wf(self.table()),
            cur < self.nodes.len(),
        ensures
            match r {
                Some(j) => last_child_named(self.table(), self.table()[cur as int].children, name@) == Some(j as int),
                None => last_child_named(self.table(), self.table()[cur as int].children, name@) is None,
            },
    {
        let ghost t = self.table();
        let ghost ch = t[cur as int].children;
        let n = self.nodes[cur].children.len();
        let mut found: Option<usize> = None;
        let mut i: usize = 0;
        assert(ch.subrange(0, 0) =~= Seq::<usize>::empty());
        while i < n
            invariant
                t == self.table(),
                tree_wf(t),
                cur < self.nodes.len(),
                ch == t[cur as int].children,
                n == ch.len(),
                i <= n,
                match found {
                    Some(j) => last_child_named(t, ch.subrange(0, i as int), name@) == Some(j as int),
                    None => last_child_named(t, ch.subrange(0, i as int), name@) is None,
                },
            decreases n - i,
        {
            let c = self.nodes[cur].children[i];
            assert(ch.subrange(0, i as int + 1).drop_last() =~= ch.subrange(0, i as int));
            assert(c == ch[i as int]);
            assert(cur < c < t.len());
            if self.nodes[c].name == *name {
                found = Some(c);
            }
            i = i + 1;
        }
        assert(ch.subrange(0, n as int) =~= ch);
        found
    }

    /// Appends `node` to the table as the last child of `parent`, returning its index.
    fn attach_node(&mut self, parent: usize, node: FileNode) -> (k: usize)
        requires
            tree_wf(old(self).table()),
            parent < old(self).nodes.len(),
            node@.children.len() == 0,
            old(self).nodes.len() < usize::MAX,
        ensures
            final(self).table() == attach(old(self).table(), parent as int, node@),
            k == old(self).nodes.len(),
            tree_wf(final(self).table()),
    {
        let k = self.nodes.len();
        let mut p = self.nodes.remove(parent);
        p.children.push(k);
        self.nodes.insert(parent, p);
        self.nodes.push(node);
        proof {
            lemma_attach_wf(old(self).table(), parent as int, node@);
        }
        assert(self.table() =~= attach(old(self).table(), parent as int, node@));
        k
    }

    /// Adds an entry of `file_type` at `path`, creating the missing directories on the way.
    /// Every directory along the path is the last same-named child of its parent.
    pub fn add_node(&mut self, path: String, file_type: FileMetaType)
        requires
            tree_wf(old(self).table()),
            add_node_ok(old(self).table(), path@),
            old(self).nodes.len() + path@.len() + 3 < usize::MAX,
        ensures
            final(self).table() == add_node_spec(old(self).table(), path@, file_type),
            tree_wf(final(self).table()),
    {
        let ghost orig = self.table();
        let ghost names_v = parse_path(path@).0;
        let slash = rfind_char(path.as_str(), '/');
        let mut target: usize = 0;
        let name: String;
        proof {
            lemma_last_index_of(path@, '/');
        }
        match slash {
            None => {
                name = path.clone();
                assert(names_v =~= Seq::<Seq<char>>::empty());
            },
            Some(size) => {
                let n = path.as_str().unicode_len();
                let start: usize = if path.as_str().get_char(0) == '/' { 1 } else { 0 };
                let parent = path.as_str().substring_char(start, size);
                name = path.as_str().substring_char(size + 1, n).to_owned();
                let names = split_str(parent, '/');
                proof {
                    lemma_split_len(parent@, '/');
                }
                assert(names@.map_values(|p: String| p@) == names_v);
                let mut k: usize = 0;
                assert(names_v.skip(0) =~= names_v);
                while k < names.len()
                    invariant
                        names@.map_values(|p: String| p@) == names_v,
                        names_v.len() <= path@.len() + 1,
                        k <= names.len(),
                        tree_wf(self.table()),
                        target < self.nodes.len(),
                        walk(orig, 0, names_v) == walk(self.table(), target as int, names_v.skip(k as int)),
                        walk_ok(self.table(), target as int, names_v.skip(k as int)),
                        self.nodes.len() + (names_v.len() - k) + 2 < usize::MAX,
                    decreases names.len() - k,
                {
                    let ghost t = self.table();
                    let ghost rest = names_v.skip(k as int);
                    let ghost t0 = target;
                    assert(rest[0] == names@[k as int]@);
                    assert(rest.drop_first() =~= names_v.skip(k as int + 1));
                    match self.find_last_child(target, &names[k]) {
                        Some(j) => {
                            target = j;
                        },
                        None => {
                            let d = FileNode::new(names[k].as_str(), FileMetaType::DIR);
                            target = self.attach_node(target, d);
                        },
                    }
                    assert(self.table() == step(t, t0 as int, rest[0]).0);
                    assert(target as int == step(t, t0 as int, rest[0]).1);
                    proof {
                        lemma_step_wf(t, t0 as int, rest[0]);
                    }
                    k = k + 1;
                }
                assert(names_v.skip(k as int) =~= Seq::<Seq<char>>::empty());
            },
        }
        let leaf = FileNode::new(name.as_str(), file_type);
        self.attach_node(target, leaf);
    }
}

/// Below a directory that has no entries yet, every path can be walked.
proof fn lemma_walk_ok_fresh(nodes: Seq<NodeView>, cur: int, names: Seq<Seq<char>>)
    requires
        0 <= cur < nodes.len(),
        nodes[cur].children.len() == 0,
    ensures
        walk_ok(nodes, cur, names),
    decreases names.len(),
{
    if names.len() > 0 {
        let n1 = attach(nodes, cur, fresh_node(names[0], FileMetaType::DIR));
        assert(last_child_named(nodes, nodes[cur].children, names[0]) is None);
        assert(n1[nodes.len() as int] == fresh_node(names[0], FileMetaType::DIR));
        lemma_walk_ok_fresh(n1, nodes.len() as int, names.drop_first());
    }
}

impl FileManager {
    /// Whether some child of node `cur` is named `name` and is no directory.
    fn child_clashes(&self, cur: usize, name: &String) -> (r: bool)
        requires
            tree_wf(self.table()),
            cur < self.nodes.len(),
        ensures
            r == clashes(self.table(), self.table()[cur as int].children, name@),
    {
        let ghost t = self.table();
        let ghost ch = t[cur as int].children;
        let n = self.nodes[cur].children.len();
        let mut i: usize = 0;
        while i < n
            invariant
                t == self.table(),
                tree_wf(t),
                cur < self.nodes.len(),
                ch == t[cur as int].children,
                n == ch.len(),
                i <= n,
                forall|k: int| 0 <= k < i ==> !(t[ch[k] as int].name == name@
                    && #[trigger] t[ch[k] as int].file_type != FileMetaType::DIR),
            decreases n - i,
        {
            let c = self.nodes[cur].children[i];
            assert(c == ch[i as int]);
            assert(cur < c < t.len());
            if self.nodes[c].name == *name && self.nodes[c].file_type != FileMetaType::DIR {
                assert(t[ch[i as int] as int].file_type != FileMetaType::DIR);
                return true;
            }
            i = i + 1;
        }
        false
    }

    /// Whether `add_node` can add an entry at `path`: the path is not a bare leading `/`
    /// followed by a name, and no directory on the way has a same-named entry that is no
    /// directory.
    pub fn can_add_node(&self, path: &String) -> (r: bool)
        requires
            tree_wf(self.table()),
        ensures
            r == add_node_ok(self.table(), path@),
    {
        let ghost t = self.table();
        let ghost names_v = parse_path(path@).0;
        let slash = rfind_char(path.as_str(), '/');
        proof {
            lemma_last_index_of(path@, '/');
        }
        match slash {
            None => {
                assert(names_v =~= Seq::<Seq<char>>::empty());
                true
            },
            Some(size) => {
                if size == 0 {
                    return false;
                }
                let start: usize = if path.as_str().get_char(0) == '/' { 1 } else { 0 };
                let parent = path.as_str().substring_char(start, size);
                let names = split_str(parent, '/');
                assert(names@.map_values(|p: String| p@) == names_v);
                let mut cur: usize = 0;
                let mut k: usize = 0;
                assert(names_v.skip(0) =~= names_v);
                while k < names.len()
                    invariant
                        t == self.table(),
                        tree_wf(t),
                        names@.map_values(|p: String| p@) == names_v,
                        k <= names.len(),
                        cur < self.nodes.len(),
                        names_v == parse_path(path@).0,
                        path_ok(path@),
                        walk_ok(t, 0, names_v) == walk_ok(t, cur as int, names_v.skip(k as int)),
                    decreases names.len() - k,
                {
                    let ghost rest = names_v.skip(k as int);
                    assert(rest[0] == names@[k as int]@);
                    assert(rest.drop_first() =~= names_v.skip(k as int + 1));
                    if self.child_clashes(cur, &names[k]) {
                        return false;
                    }
                    match self.find_last_child(cur, &names[k]) {
                        Some(j) => {
                            proof {
                                lemma_last_child_named(t, t[cur as int].children, rest[0]);
                                let w = choose|w: int| 0 <= w < t[cur as int].children.len()
                                    && t[cur as int].children[w] == j && t[j as int].name == rest[0];
                                assert(cur < t[cur as int].children[w] < t.len());
                            }
                            cur = j;
                        },
                        None => {
                            proof {
                                let n1 = attach(t, cur as int, fresh_node(rest[0], FileMetaType::DIR));
                                assert(n1[t.len() as int] == fresh_node(rest[0], FileMetaType::DIR));
                                lemma_walk_ok_fresh(n1, t.len() as int, rest.drop_first());
                            }
                            return true;
                        },
                    }
                    k = k + 1;
                }
                assert(names_v.skip(k as int) =~= Seq::<Seq<char>>::empty());
                true
            },
        }
    }
}

/// The text of the node's id: its decimal notation, or `None`.
pub open spec fn id_text(id: Option<i32>) -> Seq<char> {
    match id {
        Some(v) => int_decimal(v as int),
        None => "None"@,
    }
}

/// Text of the first `k` children of node `i`, separated by commas.
pub open spec fn children_text(nodes: Seq<NodeView>, i: int, k: int) -> Seq<char>
    decreases nodes.len() - i, k,
{
    if !(0 <= i < nodes.len()) || k <= 0 || k > nodes[i].children.len() {
        Seq::empty()
    } else {
        let c = nodes[i].children[k - 1] as int;
        let last = if i < c < nodes.len() { node_text(nodes, c) } else { Seq::empty() };
        if k == 1 {
            last
        } else {
            children_text(nodes, i, k - 1) + ","@ + last
        }
    }
}

/// Text of node `i` and, nested, of all nodes below it.
pub open spec fn node_text(nodes: Seq<NodeView>, i: int) -> Seq<char>
    decreases nodes.len() - i, nodes[i].children.len() + 1,
{
    if !(0 <= i < nodes.len()) {
        Seq::empty()
    } else {
        let n = nodes[i];
        "{id:"@ + id_text(n.id) + ",name:"@ + n.name + ",file_type:"@ + n.file_type.spec_name()
            + ",children:["@ + children_text(nodes, i, n.children.len() as int) + "]}"@
    }
}

/// The texts of the first `k` children of node `i`, in order.
pub open spec fn child_texts(nodes: Seq<NodeView>, i: int, k: int) -> Seq<Seq<char>> {
    Seq::new(k as nat, |j: int| node_text(nodes, nodes[i].children[j] as int))
}

/// The children's part of a node's text is the texts of its children in order, with
/// exactly one comma between each two and none before the first or after the last.
pub proof fn children_text_is_comma_joined(nodes: Seq<NodeView>, i: int, k: int)
    requires
        tree_wf(nodes),
        0 <= i < nodes.len(),
        0 <= k <= nodes[i].children.len(),
    ensures
        children_text(nodes, i, k) == join_with(child_texts(nodes, i, k), ','),
    decreases k,
{
    if k == 0 {
        assert(child_texts(nodes, i, k) =~= Seq::<Seq<char>>::empty());
        assert(join_with(child_texts(nodes, i, k), ',') =~= Seq::<char>::empty());
    } else {
        children_text_is_comma_joined(nodes, i, k - 1);
        let t = child_texts(nodes, i, k);
        assert(t.drop_last() =~= child_texts(nodes, i, k - 1));
        lemma_join_last(t, ',');
        let c = nodes[i].children[k - 1] as int;
        assert(i < c < nodes.len());
        if k == 1 {
            assert(child_texts(nodes, i, 0) =~= Seq::<Seq<char>>::empty());
            assert(join_with(child_texts(nodes, i, 0), ',') =~= Seq::<char>::empty());
            assert(join_with(t, ',') =~= children_text(nodes, i, k));
        } else {
            reveal_strlit(",");
            assert(","@ =~= seq![',']);
            assert(t.last() == node_text(nodes, c));
            assert(children_text(nodes, i, k) == children_text(nodes, i, k - 1) + ","@ + node_text(nodes, c));
            assert(join_with(t, ',') =~= children_text(nodes, i, k));
        }
    }
}

/// A node's text: its fields, then the texts of all its children in order, joined by
/// commas, inside `children:[` and `]}`.
pub proof fn node_text_lists_children(nodes: Seq<NodeView>, i: int)
    requires
        tree_wf(nodes),
        0 <= i < nodes.len(),
    ensures
        node_text(nodes, i) == "{id:"@ + id_text(nodes[i].id) + ",name:"@ + nodes[i].name + ",file_type:"@
            + nodes[i].file_type.spec_name() + ",children:["@
            + join_with(child_texts(nodes, i, nodes[i].children.len() as int), ',') + "]}"@,
{
    children_text_is_comma_joined(nodes, i, nodes[i].children.len() as int);
}

impl FileManager {
    /// Appends the text of node `i` to `buf`.
    pub fn append_node_text(&self, i: usize, buf: &mut String)
        requires
            tree_wf(self.table()),
            i < self.nodes.len(),
        ensures
            final(buf)@ == old(buf)@ + node_text(self.table(), i as int),
        decreases self.nodes.len() - i,
    {
        let ghost t = self.table();
        let ghost start = buf@;
        let node = &self.nodes[i];
        buf.append("{id:");
        match node.id {
            Some(v) => append_i64(buf, v as i64),
            None => buf.append("None"),
        }
        buf.append(",name:");
        buf.append(node.name.as_str());
        buf.append(",file_type:");
        buf.append(node.file_type.name());
        buf.append(",children:[");
        let ghost head = buf@;
        assert(head == start + "{id:"@ + id_text(t[i as int].id) + ",name:"@ + t[i as int].name + ",file_type:"@
            + t[i as int].file_type.spec_name() + ",children:["@);
        let n = node.children.len();
        let mut k: usize = 0;
        while k < n
            invariant
                t == self.table(),
                tree_wf(t),
                i < self.nodes.len(),
                n == t[i as int].children.len(),
                k <= n,
                buf@ == head + children_text(t, i as int, k as int),
            decreases n - k,
        {
            let c = self.nodes[i].children[k];
            assert(c == t[i as int].children[k as int]);
            assert(i < c < t.len());
            if k > 0 {
                buf.append(",");
            }
            self.append_node_text(c, buf);
            assert(buf@ =~= head + children_text(t, i as int, k as int + 1));
            k = k + 1;
        }
        buf.append("]}");
        assert(buf@ =~= start + node_text(t, i as int));
    }

    /// Text of the whole tree, from the root down.
    pub fn to_text(&self) -> (s: String)
        requires
            tree_wf(self.table()),
        ensures
            s@ == node_text(self.table(), 0),
    {
        let mut s = String::new();
        self.append_node_text(0, &mut s);
        assert(s@ =~= node_text(self.table(), 0));
        s
    }
}

/// The node reached from `cur` by following, for each name, the last same-named child.
pub open spec fn resolve(nodes: Seq<NodeView>, cur: int, names: Seq<Seq<char>>) -> Option<int>
    decreases names.len(),
{
    if names.len() == 0 {
        Some(cur)
    } else {
        match last_child_named(nodes, nodes[cur].children, names[0]) {
            Some(j) => resolve(nodes, j, names.drop_first()),
            None => None,
        }
    }
}

/// `b` holds every node of `a` with the same fields, each with `a`'s children first,
/// and the nodes before `p` with exactly `a`'s children.
pub open spec fn extends_from(a: Seq<NodeView>, b: Seq<NodeView>, p: int) -> bool {
    &&& b.len() >= a.len()
    &&& forall|i: int|
        #![trigger a[i]]
        #![trigger b[i]]
        0 <= i < a.len() ==> {
            &&& b[i].id == a[i].id
            &&& b[i].name == a[i].name
            &&& b[i].file_type == a[i].file_type
            &&& b[i].length == a[i].length
            &&& b[i].version == a[i].version
            &&& b[i].dirty == a[i].dirty
            &&& b[i].children.len() >= a[i].children.len()
            &&& b[i].children.subrange(0, a[i].children.len() as int) == a[i].children
            &&& i < p ==> b[i].children == a[i].children
        }
}

proof fn lemma_extends_trans(a: Seq<NodeView>, b: Seq<NodeView>, c: Seq<NodeView>, p: int, q: int)
    requires
        extends_from(a, b, p),
        extends_from(b, c, q),
    ensures
        extends_from(a, c, if p < q { p } else { q }),
{
    assert forall|i: int| 0 <= i < a.len() implies c[i].children.subrange(0, a[i].children.len() as int)
        == a[i].children by {
        assert(b[i].children.subrange(0, a[i].children.len() as int) == a[i].children);
        assert(c[i].children.subrange(0, b[i].children.len() as int) == b[i].children);
        assert(c[i].children.subrange(0, a[i].children.len() as int) =~= b[i].children.subrange(
            0,
            a[i].children.len() as int,
        ));
    }
}

proof fn lemma_attach_extends(nodes: Seq<NodeView>, parent: int, node: NodeView)
    requires
        0 <= parent < nodes.len(),
    ensures
        extends_from(nodes, attach(nodes, parent, node), parent),
{
    let n2 = attach(nodes, parent, node);
    assert forall|i: int| 0 <= i < nodes.len() implies n2[i].children.subrange(0, nodes[i].children.len() as int)
        == nodes[i].children by {
        if i == parent {
            assert(n2[i].children.subrange(0, nodes[i].children.len() as int) =~= nodes[i].children);
        } else {
            assert(n2[i].children.subrange(0, nodes[i].children.len() as int) =~= nodes[i].children);
        }
    }
}

proof fn lemma_last_child_extends(a: Seq<NodeView>, b: Seq<NodeView>, children: Seq<usize>, name: Seq<char>)
    requires
        extends_from(a, b, 0),
        forall|k: int| 0 <= k < children.len() ==> #[trigger] children[k] < a.len(),
    ensures
        last_child_named(b, children, name) == last_child_named(a, children, name),
    decreases children.len(),
{
    if children.len() > 0 {
        let l = children.last() as int;
        assert(children[children.len() - 1] < a.len());
        assert(b[l].name == a[l].name);
        lemma_last_child_extends(a, b, children.drop_last(), name);
    }
}

proof fn lemma_step_props(nodes: Seq<NodeView>, cur: int, name: Seq<char>)
    requires
        tree_wf(nodes),
        0 <= cur < nodes.len(),
        nodes.len() < usize::MAX,
    ensures
        extends_from(nodes, step(nodes, cur, name).0, cur),
        last_child_named(step(nodes, cur, name).0, step(nodes, cur, name).0[cur].children, name)
            == Some(step(nodes, cur, name).1),
        step(nodes, cur, name).1 > cur,
{
    lemma_step_wf(nodes, cur, name);
    lemma_last_child_named(nodes, nodes[cur].children, name);
    match last_child_named(nodes, nodes[cur].children, name) {
        Some(j) => {
            let k = choose|k: int| 0 <= k < nodes[cur].children.len() && nodes[cur].children[k] == j && nodes[j].name == name;
            assert(cur < nodes[cur].children[k]);
            assert forall|i: int| 0 <= i < nodes.len() implies nodes[i].children.subrange(0, nodes[i].children.len() as int)
                == nodes[i].children by {
                assert(nodes[i].children.subrange(0, nodes[i].children.len() as int) =~= nodes[i].children);
            }
        },
        None => {
            lemma_attach_extends(nodes, cur, fresh_node(name, FileMetaType::DIR));
            let n1 = attach(nodes, cur, fresh_node(name, FileMetaType::DIR));
            assert(n1[cur].children.last() == nodes.len());
            assert(n1[nodes.len() as int].name == name);
        },
    }
}

proof fn lemma_walk_resolves(nodes: Seq<NodeView>, cur: int, names: Seq<Seq<char>>)
    requires
        tree_wf(nodes),
        0 <= cur < nodes.len(),
        nodes.len() + names.len() < usize::MAX,
    ensures
        resolve(walk(nodes, cur, names).0, cur, names) == Some(walk(nodes, cur, names).1),
        extends_from(nodes, walk(nodes, cur, names).0, cur),
        walk(nodes, cur, names).1 >= cur,
    decreases names.len(),
{
    if names.len() == 0 {
        assert forall|i: int| 0 <= i < nodes.len() implies nodes[i].children.subrange(0, nodes[i].children.len() as int)
            == nodes[i].children by {
            assert(nodes[i].children.subrange(0, nodes[i].children.len() as int) =~= nodes[i].children);
        }
    } else {
        let x = names[0];
        let (n1, c1) = step(nodes, cur, x);
        lemma_step_props(nodes, cur, x);
        lemma_step_wf(nodes, cur, x);
        lemma_walk_resolves(n1, c1, names.drop_first());
        let w = walk(n1, c1, names.drop_first()).0;
        lemma_extends_trans(nodes, n1, w, cur, c1);
        assert(w[cur].children == n1[cur].children);
        assert forall|k: int| 0 <= k < n1[cur].children.len() implies #[trigger] n1[cur].children[k] < n1.len() by {
        }
        assert(extends_from(n1, w, 0));
        lemma_last_child_extends(n1, w, n1[cur].children, x);
    }
}

proof fn lemma_resolve_extends(a: Seq<NodeView>, b: Seq<NodeView>, cur: int, names: Seq<Seq<char>>, p: int)
    requires
        tree_wf(a),
        0 <= cur < a.len(),
        extends_from(a, b, p),
        resolve(a, cur, names) is Some,
        resolve(a, cur, names)->0 <= p,
    ensures
        resolve(b, cur, names) == resolve(a, cur, names),
        resolve(a, cur, names)->0 >= cur,
    decreases names.len(),
{
    if names.len() > 0 {
        let x = names[0];
        lemma_last_child_named(a, a[cur].children, x);
        let j = last_child_named(a, a[cur].children, x)->0;
        let k = choose|k: int| 0 <= k < a[cur].children.len() && a[cur].children[k] == j && a[j].name == x;
        assert(cur < a[cur].children[k] < a.len());
        lemma_resolve_extends(a, b, j, names.drop_first(), p);
        assert(b[cur].children == a[cur].children);
        assert(extends_from(a, b, 0));
        assert forall|m: int| 0 <= m < a[cur].children.len() implies #[trigger] a[cur].children[m] < a.len() by {
        }
        lemma_last_child_extends(a, b, a[cur].children, x);
    }
}

proof fn lemma_resolve_push(nodes: Seq<NodeView>, cur: int, names: Seq<Seq<char>>, x: Seq<char>)
    ensures
        resolve(nodes, cur, names.push(x)) == match resolve(nodes, cur, names) {
            Some(r) => last_child_named(nodes, nodes[r].children, x),
            None => None,
        },
    decreases names.len(),
{
    if names.len() == 0 {
        assert(names.push(x).drop_first() =~= Seq::<Seq<char>>::empty());
        assert(names.push(x)[0] == x);
        if let Some(j) = last_child_named(nodes, nodes[cur].children, x) {
            assert(resolve(nodes, j, Seq::<Seq<char>>::empty()) == Some(j));
        }
    } else {
        assert(names.push(x)[0] == names[0]);
        assert(names.push(x).drop_first() =~= names.drop_first().push(x));
        if let Some(j) = last_child_named(nodes, nodes[cur].children, names[0]) {
            lemma_resolve_push(nodes, j, names.drop_first(), x);
        }
    }
}

/// Adding an entry keeps every node that was there, with its fields and children; the new
/// entry comes last and is the last child of its parent.
pub proof fn add_node_keeps_entries(nodes: Seq<NodeView>, path: Seq<char>, file_type: FileMetaType)
    requires
        tree_wf(nodes),
        add_node_ok(nodes, path),
        nodes.len() + path.len() + 3 < usize::MAX,
    ensures
        extends_from(nodes, add_node_spec(nodes, path, file_type), 0),
        add_node_spec(nodes, path, file_type).last() == fresh_node(parse_path(path).1, file_type),
{
    let (names, name) = parse_path(path);
    lemma_parse_len(path);
    lemma_walk_wf(nodes, 0, names);
    lemma_walk_resolves(nodes, 0, names);
    let (w, target) = walk(nodes, 0, names);
    lemma_attach_extends(w, target, fresh_node(name, file_type));
    lemma_extends_trans(nodes, w, attach(w, target, fresh_node(name, file_type)), 0, target);
}

/// Following the path of an added entry from the root, one last same-named child at a
/// time, reaches that entry.
pub proof fn add_node_then_resolve(nodes: Seq<NodeView>, path: Seq<char>, file_type: FileMetaType)
    requires
        tree_wf(nodes),
        add_node_ok(nodes, path),
        nodes.len() + path.len() + 3 < usize::MAX,
    ensures
        resolve(add_node_spec(nodes, path, file_type), 0, parse_path(path).0.push(parse_path(path).1))
            == Some(add_node_spec(nodes, path, file_type).len() - 1),
        add_node_spec(nodes, path, file_type).last().file_type == file_type,
{
    let (names, name) = parse_path(path);
    lemma_parse_len(path);
    lemma_walk_wf(nodes, 0, names);
    lemma_walk_resolves(nodes, 0, names);
    let (w, target) = walk(nodes, 0, names);
    let leaf = fresh_node(name, file_type);
    let f = attach(w, target, leaf);
    lemma_attach_extends(w, target, leaf);
    lemma_resolve_extends(w, f, 0, names, target);
    lemma_resolve_push(f, 0, names, name);
    assert(f[target].children.last() == w.len());
    assert(f[w.len() as int].name == name);
}

/// The directories an entry is added under, followed by its name, are the pieces of the
/// path between its `/`s: joined with `/` they give back the path, less a leading `/`
/// where it has one, and none of them holds a `/`.
pub proof fn add_node_path_pieces(path: Seq<char>)
    requires
        path_ok(path),
    ensures
        join_with(parse_path(path).0.push(parse_path(path).1), '/')
            == (if path.len() > 0 && path[0] == '/' { path.drop_first() } else { path }),
        forall|i: int| 0 <= i < parse_path(path).0.push(parse_path(path).1).len()
            ==> !(#[trigger] parse_path(path).0.push(parse_path(path).1)[i]).contains('/'),
{
    let (names, name) = parse_path(path);
    let all = names.push(name);
    lemma_last_index_of(path, '/');
    match last_index_of(path, '/') {
        None => {
            let whole = Seq::new(all.len(), |j: int| if j == 0 { all[j] } else { seq!['/'] + all[j] });
            whole.lemma_flatten_singleton();
            assert(join_with(all, '/') =~= path);
            assert(!name.contains('/'));
        },
        Some(size) => {
            let start: int = if path[0] == '/' { 1 } else { 0 };
            let parent = path.subrange(start, size);
            split_then_join(parent, '/');
            lemma_split_nonempty(parent, '/');
            let n = names.len() as int;
            let whole = Seq::new(all.len(), |j: int| if j == 0 { all[j] } else { seq!['/'] + all[j] });
            let front = Seq::new(names.len(), |j: int| if j == 0 { names[j] } else { seq!['/'] + names[j] });
            assert(whole =~= front.push(seq!['/'] + name));
            front.lemma_flatten_push(seq!['/'] + name);
            assert(join_with(all, '/') =~= path.subrange(start, path.len() as int));
            assert forall|i: int| 0 <= i < all.len() implies !(#[trigger] all[i]).contains('/') by {
                if i == n {
                    if name.contains('/') {
                        let t = choose|t: int| 0 <= t < name.len() && name[t] == '/';
                        assert(path[size + 1 + t] == '/');
                    }
                } else {
                    assert(all[i] == names[i]);
                }
            }
        },
    }
}

proof fn lemma_parse_len(path: Seq<char>)
    requires
        path_ok(path),
    ensures
        parse_path(path).0.len() <= path.len() + 1,
{
    lemma_last_index_of(path, '/');
    if let Some(size) = last_index_of(path, '/') {
        let start: int = if path[0] == '/' { 1 } else { 0 };
        assert(start <= size);
        lemma_split_len(path.subrange(start, size), '/');
    }
}

} // verus!
