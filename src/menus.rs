use vstd::prelude::*;

use crate::text::str_eq;

verus! {

/// One modal dialog: how to open and close it, where it stands, and the
/// dialogs that can only be opened once it is open.
pub struct Menu {
    /// Key that opens the dialog; also names it among its siblings.
    pub open_menu: String,
    /// Key that closes the dialog.
    pub close_menu: String,
    /// The dialog has been asked for and not yet confirmed open.
    pub requested: bool,
    /// The server confirmed the dialog open.
    pub opened: bool,
    /// The dialog is being closed and will be pruned.
    pub closed: bool,
    /// The dialog goes before its unopened siblings.
    pub high_priority: bool,
    /// Event kind that confirms the dialog open.
    pub open_message: String,
    /// Event kind that confirms the dialog closed.
    pub close_message: String,
    /// Ids of the child dialogs, oldest first.
    pub subs: Vec<usize>,
}

/// The dialog tree. Node 0 is the root, which counts as always open; every
/// child has a larger id than its parent.
pub struct Menus {
    pub nodes: Vec<Menu>,
}

/// The first child, from position `i` of `subs` on, that is opened.
pub open spec fn first_opened(nodes: Seq<Menu>, subs: Seq<usize>, i: int) -> Option<usize>
    decreases subs.len() - i,
{
    if i < 0 || i >= subs.len() {
        None
    } else if subs[i] < nodes.len() && nodes[subs[i] as int].opened {
        Some(subs[i])
    } else {
        first_opened(nodes, subs, i + 1)
    }
}

/// The first child, from position `i` of `subs` on, that has high priority.
pub open spec fn first_high(nodes: Seq<Menu>, subs: Seq<usize>, i: int) -> Option<usize>
    decreases subs.len() - i,
{
    if i < 0 || i >= subs.len() {
        None
    } else if subs[i] < nodes.len() && nodes[subs[i] as int].high_priority {
        Some(subs[i])
    } else {
        first_high(nodes, subs, i + 1)
    }
}

/// The child of an open node `n` that is relevant now: an opened one, else a
/// high-priority one, else the oldest. None for a node that is not open or has
/// no children.
pub open spec fn chosen_child(nodes: Seq<Menu>, n: int) -> Option<usize> {
    let subs = nodes[n].subs@;
    if subs.len() == 0 || !nodes[n].opened {
        None
    } else if first_opened(nodes, subs, 0) is Some {
        first_opened(nodes, subs, 0)
    } else if first_high(nodes, subs, 0) is Some {
        first_high(nodes, subs, 0)
    } else {
        Some(subs[0])
    }
}

/// The deepest relevant node below `n`, following `chosen_child`.
pub open spec fn deepest(nodes: Seq<Menu>, n: int) -> int
    decreases nodes.len() - n,
{
    match chosen_child(nodes, n) {
        Some(c) => if n < c < nodes.len() {
            deepest(nodes, c as int)
        } else {
            n
        },
        None => n,
    }
}

/// Children have larger ids than their parents and all ids are in range.
pub open spec fn menus_wf(nodes: Seq<Menu>) -> bool {
    &&& nodes.len() > 0
    &&& forall|n: int, i: int|
        0 <= n < nodes.len() && 0 <= i < nodes[n].subs@.len() ==> n < #[trigger] nodes[n].subs@[i]
            < nodes.len()
}

impl Menus {
    /// Whether the tree is well formed.
    pub open spec fn wf(&self) -> bool {
        menus_wf(self.nodes@)
    }

    /// The dialog that is relevant now.
    pub open spec fn current(&self) -> int {
        deepest(self.nodes@, 0)
    }

    /// A tree holding only the open root.
    pub fn init() -> (r: Menus)
        ensures
            r.wf(),
            r.nodes@.len() == 1,
            r.nodes@[0].opened,
            r.nodes@[0].subs@.len() == 0,
    {
        let mut nodes: Vec<Menu> = Vec::new();
        nodes.push(Menu::blank());
        Menus { nodes }
    }

    /// The child of open node `n` that is relevant now.
    fn pick_child(&self, n: usize) -> (r: Option<usize>)
        requires
            self.wf(),
            n < self.nodes@.len(),
        ensures
            r == chosen_child(self.nodes@, n as int),
    {
        let subs = &self.nodes[n].subs;
        if subs.len() == 0 || !self.nodes[n].opened {
            return None;
        }
        let mut i: usize = 0;
        while i < subs.len()
            invariant
                self.wf(),
                n < self.nodes@.len(),
                *subs == self.nodes@[n as int].subs,
                subs.len() > 0,
                self.nodes@[n as int].opened,
                i <= subs.len(),
                first_opened(self.nodes@, subs@, 0) == first_opened(self.nodes@, subs@, i as int),
            decreases subs.len() - i,
        {
            assert(n < self.nodes@[n as int].subs@[i as int] < self.nodes@.len());
            if self.nodes[subs[i]].opened {
                assert(first_opened(self.nodes@, subs@, i as int) == Some(subs@[i as int]));
                return Some(subs[i]);
            }
            i += 1;
        }
        let mut i: usize = 0;
        while i < subs.len()
            invariant
                self.wf(),
                n < self.nodes@.len(),
                *subs == self.nodes@[n as int].subs,
                subs.len() > 0,
                self.nodes@[n as int].opened,
                i <= subs.len(),
                first_opened(self.nodes@, subs@, 0) is None,
                first_high(self.nodes@, subs@, 0) == first_high(self.nodes@, subs@, i as int),
            decreases subs.len() - i,
        {
            assert(n < self.nodes@[n as int].subs@[i as int] < self.nodes@.len());
            if self.nodes[subs[i]].high_priority {
                assert(first_high(self.nodes@, subs@, i as int) == Some(subs@[i as int]));
                return Some(subs[i]);
            }
            i += 1;
        }
        Some(subs[0])
    }

    /// The id of the dialog that is relevant now: from the root, go down to
    /// the opened child, else a high-priority child, else the oldest child,
    /// while the node reached is open and has children.
    pub fn current_menu(&self) -> (r: usize)
        requires
            self.wf(),
        ensures
            r as int == self.current(),
            r < self.nodes@.len(),
    {
        let mut n: usize = 0;
        loop
            invariant
                self.wf(),
                n < self.nodes@.len(),
                deepest(self.nodes@, n as int) == self.current(),
            decreases self.nodes@.len() - n,
        {
            match self.pick_child(n) {
                Some(c) => {
                    assert(n < c < self.nodes@.len()) by {
                        assert(chosen_child(self.nodes@, n as int) == Some(c));
                        let subs = self.nodes@[n as int].subs@;
                        lemma_chosen_is_child(self.nodes@, n as int);
                    }
                    n = c;
                },
                None => {
                    return n;
                },
            }
        }
    }
}

/// The node reached from node `n` by following the children whose open keys
/// are `path[i..]`, skipping empty keys.
pub open spec fn resolve(nodes: Seq<Menu>, n: int, path: Seq<&str>, i: int) -> Option<int>
    decreases path.len() - i,
{
    if i < 0 || i >= path.len() {
        Some(n)
    } else if path[i]@.len() == 0 {
        resolve(nodes, n, path, i + 1)
    } else {
        match child_named(nodes, nodes[n].subs@, path[i]@, 0) {
            Some(c) => resolve(nodes, c as int, path, i + 1),
            None => None,
        }
    }
}

/// The first child, from position `j` of `subs` on, whose open key is `key`.
pub open spec fn child_named(nodes: Seq<Menu>, subs: Seq<usize>, key: Seq<char>, j: int) -> Option<
    usize,
>
    decreases subs.len() - j,
{
    if j < 0 || j >= subs.len() {
        None
    } else if subs[j] < nodes.len() && nodes[subs[j] as int].open_menu@ == key {
        Some(subs[j])
    } else {
        child_named(nodes, subs, key, j + 1)
    }
}

/// The children of `subs` that are not being closed, in order.
pub open spec fn kept(nodes: Seq<Menu>, subs: Seq<usize>) -> Seq<usize>
    decreases subs.len(),
{
    if subs.len() == 0 {
        subs
    } else {
        let rest = kept(nodes, subs.drop_last());
        if subs.last() < nodes.len() && nodes[subs.last() as int].closed {
            rest
        } else {
            rest.push(subs.last())
        }
    }
}

/// `b` is `a` with only its flags changed to the given values.
pub open spec fn same_but_flags(a: Menu, b: Menu, requested: bool, opened: bool, closed: bool) -> bool {
    &&& b.open_menu == a.open_menu
    &&& b.close_menu == a.close_menu
    &&& b.open_message == a.open_message
    &&& b.close_message == a.close_message
    &&& b.high_priority == a.high_priority
    &&& b.subs == a.subs
    &&& b.requested == requested
    &&& b.opened == opened
    &&& b.closed == closed
}

/// `new` is `old` after adding, under the node that `path` leads to, a
/// dialog with these keys, flags and confirming event kinds (see `Menus::add_menu`).
pub open spec fn menu_added(
    old: Seq<Menu>,
    new: Seq<Menu>,
    path: Seq<&str>,
    open_menu: Seq<char>,
    close_menu: Seq<char>,
    requested: bool,
    opened: bool,
    closed: bool,
    high_priority: bool,
    open_message: Seq<char>,
    close_message: Seq<char>,
) -> bool {
    match resolve(old, 0, path, 0) {
        None => new == old,
        Some(t) => match child_named(old, old[t].subs@, open_menu, 0) {
            Some(c) => {
                &&& new.len() == old.len()
                &&& same_but_flags(old[c as int], new[c as int],
                    old[c as int].requested, old[c as int].opened, false)
                &&& forall|k: int| 0 <= k < old.len() && k != c ==> new[k] == old[k]
            },
            None => {
                let id = old.len() as int;
                &&& new.len() == id + 1
                &&& new[id].open_menu@ == open_menu
                &&& new[id].close_menu@ == close_menu
                &&& new[id].open_message@ == open_message
                &&& new[id].close_message@ == close_message
                &&& new[id].requested == requested
                &&& new[id].opened == opened
                &&& new[id].closed == closed
                &&& new[id].high_priority == high_priority
                &&& new[id].subs@.len() == 0
                &&& new[t].subs@ == old[t].subs@.push(id as usize)
                &&& new[t] == Menu { subs: new[t].subs, ..old[t] }
                &&& forall|k: int| 0 <= k < id && k != t ==> new[k] == old[k]
            },
        },
    }
}

impl Menus {
    /// The child of node `n` whose open key is `key`.
    fn find_child(&self, n: usize, key: &str) -> (r: Option<usize>)
        requires
            self.wf(),
            n < self.nodes@.len(),
        ensures
            r == child_named(self.nodes@, self.nodes@[n as int].subs@, key@, 0),
            r matches Some(c) ==> n < c < self.nodes@.len(),
    {
        let subs = &self.nodes[n].subs;
        let mut j: usize = 0;
        while j < subs.len()
            invariant
                self.wf(),
                n < self.nodes@.len(),
                *subs == self.nodes@[n as int].subs,
                j <= subs.len(),
                child_named(self.nodes@, subs@, key@, 0) == child_named(self.nodes@, subs@, key@, j as int),
            decreases subs.len() - j,
        {
            let c = subs[j];
            assert(n < self.nodes@[n as int].subs@[j as int] < self.nodes@.len());
            if str_eq(self.nodes[c].open_menu.as_str(), key) {
                return Some(c);
            }
            j += 1;
        }
        None
    }

    /// Adds a dialog under the node that `hierarchy` leads to (a path of open
    /// keys from the root; empty keys are skipped). When that node already has
    /// a child with the same open key, that child is kept and is no longer
    /// marked as closing. When the path leads nowhere, nothing changes.
    pub fn add_menu(
        &mut self,
        hierarchy: Vec<&str>,
        open_menu: &str,
        close_menu: &str,
        requested: bool,
        opened: bool,
        closed: bool,
        high_priority: bool,
        open_message: &str,
        close_message: &str,
    )
        requires
            old(self).wf(),
        ensures
            final(self).wf(),
            menu_added(
                old(self).nodes@,
                final(self).nodes@,
                hierarchy@,
                open_menu@,
                close_menu@,
                requested,
                opened,
                closed,
                high_priority,
                open_message@,
                close_message@,
            ),
    {
        let mut n: usize = 0;
        let mut i: usize = 0;
        while i < hierarchy.len()
            invariant
                self.wf(),
                *self == *old(self),
                n < self.nodes@.len(),
                i <= hierarchy.len(),
                resolve(self.nodes@, 0, hierarchy@, 0) == resolve(self.nodes@, n as int, hierarchy@, i as int),
            decreases hierarchy.len() - i,
        {
            let key = hierarchy[i];
            if !key.is_empty() {
                match self.find_child(n, key) {
                    Some(c) => {
                        n = c;
                    },
                    None => {
                        return;
                    },
                }
            }
            i += 1;
        }
        let id = self.nodes.len();
        match self.find_child(n, open_menu) {
            Some(c) => {
                self.nodes[c].closed = false;
            },
            None => {
                let node = Menu {
                    open_menu: open_menu.to_owned(),
                    close_menu: close_menu.to_owned(),
                    requested,
                    opened,
                    closed,
                    high_priority,
                    open_message: open_message.to_owned(),
                    close_message: close_message.to_owned(),
                    subs: Vec::new(),
                };
                self.nodes.push(node);
                self.nodes[n].subs.push(id);
            },
        }
    }
}

impl Menus {
    /// Whether some dialog waits to be handled.
    pub fn menu_to_process(&self) -> (r: bool)
        requires
            self.wf(),
        ensures
            r == (self.nodes@[0].subs@.len() > 0),
    {
        self.nodes[0].subs.len() > 0
    }

    /// Acts on the dialog that is relevant now. One not yet open is marked
    /// as requested, and its open key and confirming event kind are returned;
    /// an open one is marked as closing, and its close key and event kind are
    /// returned.
    pub fn interact_with_menu(&mut self) -> (r: (String, String))
        requires
            old(self).wf(),
        ensures
            final(self).wf(),
            final(self).nodes@.len() == old(self).nodes@.len(),
            ({
                let c = old(self).current();
                let m = old(self).nodes@[c];
                &&& !m.opened ==> r.0@ == m.open_menu@ && r.1@ == m.open_message@
                    && same_but_flags(m, final(self).nodes@[c], true, m.opened, m.closed)
                &&& m.opened ==> r.0@ == m.close_menu@ && r.1@ == m.close_message@
                    && same_but_flags(m, final(self).nodes@[c], m.requested, m.opened, true)
                &&& forall|k: int| 0 <= k < old(self).nodes@.len() && k != c ==> final(self).nodes@[k] == old(self).nodes@[k]
            }),
    {
        let c = self.current_menu();
        if !self.nodes[c].opened {
            self.nodes[c].requested = true;
            (self.nodes[c].open_menu.clone(), self.nodes[c].open_message.clone())
        } else {
            self.nodes[c].closed = true;
            (self.nodes[c].close_menu.clone(), self.nodes[c].close_message.clone())
        }
    }

    /// Marks the dialog that is relevant now as confirmed open.
    pub fn identify_menu_as_opened(&mut self)
        requires
            old(self).wf(),
        ensures
            final(self).wf(),
            final(self).nodes@.len() == old(self).nodes@.len(),
            ({
                let c = old(self).current();
                let m = old(self).nodes@[c];
                &&& same_but_flags(m, final(self).nodes@[c], false, true, m.closed)
                &&& forall|k: int| 0 <= k < old(self).nodes@.len() && k != c ==> final(self).nodes@[k] == old(self).nodes@[k]
            }),
    {
        let c = self.current_menu();
        self.nodes[c].opened = true;
        self.nodes[c].requested = false;
    }

    /// Prunes every dialog marked as closing, at every depth, with the
    /// dialogs below it: each node keeps only its children that are not closing.
    pub fn remove_closed_menus(&mut self)
        requires
            old(self).wf(),
        ensures
            final(self).wf(),
            final(self).nodes@.len() == old(self).nodes@.len(),
            forall|n: int| 0 <= n < old(self).nodes@.len() ==> {
                let a = old(self).nodes@[n];
                let b = #[trigger] final(self).nodes@[n];
                &&& b.subs@ == kept(old(self).nodes@, a.subs@)
                &&& b.open_menu == a.open_menu && b.close_menu == a.close_menu
                &&& b.open_message == a.open_message && b.close_message == a.close_message
                &&& b.high_priority == a.high_priority
                &&& b.requested == a.requested && b.opened == a.opened && b.closed == a.closed
            },
    {
        let ghost before = self.nodes@;
        let mut n: usize = 0;
        while n < self.nodes.len()
            invariant
                self.nodes@.len() == before.len(),
                n <= self.nodes@.len(),
                menus_wf(before),
                forall|k: int| n <= k < before.len() ==> #[trigger] self.nodes@[k] == before[k],
                forall|k: int| 0 <= k < before.len() ==> #[trigger] self.nodes@[k].closed == before[k].closed,
                forall|k: int| 0 <= k < n ==> {
                    let a = before[k];
                    let b = #[trigger] self.nodes@[k];
                    &&& b.subs@ == kept(before, a.subs@)
                    &&& b.open_menu == a.open_menu && b.close_menu == a.close_menu
                    &&& b.open_message == a.open_message && b.close_message == a.close_message
                    &&& b.high_priority == a.high_priority
                    &&& b.requested == a.requested && b.opened == a.opened && b.closed == a.closed
                },
                forall|k: int, i: int|
                    0 <= k < n && 0 <= i < self.nodes@[k].subs@.len() ==> k < #[trigger] self.nodes@[k].subs@[i] < before.len(),
            decreases before.len() - n,
        {
            let mut keep: Vec<usize> = Vec::new();
            let mut j: usize = 0;
            let len = self.nodes[n].subs.len();
            while j < len
                invariant
                    self.nodes@.len() == before.len(),
                    n < before.len(),
                    menus_wf(before),
                    self.nodes@[n as int] == before[n as int],
                    forall|k: int| 0 <= k < before.len() ==> #[trigger] self.nodes@[k].closed == before[k].closed,
                    len == before[n as int].subs@.len(),
                    j <= len,
                    keep@ == kept(before, before[n as int].subs@.take(j as int)),
                    forall|i: int| 0 <= i < keep@.len() ==> n < #[trigger] keep@[i] < before.len(),
                decreases len - j,
            {
                let c = self.nodes[n].subs[j];
                assert(n < before[n as int].subs@[j as int] < before.len());
                assert(before[n as int].subs@.take(j + 1).drop_last() =~= before[n as int].subs@.take(j as int));
                if !self.nodes[c].closed {
                    keep.push(c);
                }
                j += 1;
            }
            assert(before[n as int].subs@.take(len as int) =~= before[n as int].subs@);
            self.nodes[n].subs = keep;
            n += 1;
        }
        assert forall|k: int, i: int|
            0 <= k < self.nodes@.len() && 0 <= i < self.nodes@[k].subs@.len() implies k < #[trigger] self.nodes@[k].subs@[i] < self.nodes@.len() by {
        }
    }
}

/// Among the children of an open node, an opened child is chosen whenever
/// there is one; when none is opened, a high-priority child is chosen
/// whenever there is one.
pub proof fn lemma_menu_priority(nodes: Seq<Menu>, n: int)
    requires
        menus_wf(nodes),
        0 <= n < nodes.len(),
        nodes[n].opened,
        nodes[n].subs@.len() > 0,
    ensures
        chosen_child(nodes, n) is Some,
        (exists|i: int| 0 <= i < nodes[n].subs@.len() && #[trigger] nodes[nodes[n].subs@[i] as int].opened)
            ==> nodes[chosen_child(nodes, n)->0 as int].opened,
        (forall|i: int| 0 <= i < nodes[n].subs@.len() ==> !#[trigger] nodes[nodes[n].subs@[i] as int].opened)
            && (exists|i: int| 0 <= i < nodes[n].subs@.len() && #[trigger] nodes[nodes[n].subs@[i] as int].high_priority)
            ==> nodes[chosen_child(nodes, n)->0 as int].high_priority,
{
    let subs = nodes[n].subs@;
    assert forall|i: int| 0 <= i < subs.len() implies #[trigger] subs[i] < nodes.len() by {
        assert(n < nodes[n].subs@[i] < nodes.len());
    }
    lemma_first_opened_found(nodes, subs, 0);
    lemma_first_high_found(nodes, subs, 0);
}

proof fn lemma_first_opened_found(nodes: Seq<Menu>, subs: Seq<usize>, i: int)
    requires
        0 <= i,
        forall|k: int| 0 <= k < subs.len() ==> #[trigger] subs[k] < nodes.len(),
    ensures
        first_opened(nodes, subs, i) matches Some(c) ==> c < nodes.len() && nodes[c as int].opened,
        (exists|k: int| i <= k < subs.len() && #[trigger] nodes[subs[k] as int].opened) ==> first_opened(nodes, subs, i) is Some,
        (forall|k: int| i <= k < subs.len() ==> !#[trigger] nodes[subs[k] as int].opened) ==> first_opened(nodes, subs, i) is None,
    decreases subs.len() - i,
{
    if i < subs.len() {
        lemma_first_opened_found(nodes, subs, i + 1);
        if exists|k: int| i <= k < subs.len() && #[trigger] nodes[subs[k] as int].opened {
            let k = choose|k: int| i <= k < subs.len() && #[trigger] nodes[subs[k] as int].opened;
            if k > i {
                assert(nodes[subs[k] as int].opened);
            }
        }
    }
}

proof fn lemma_first_high_found(nodes: Seq<Menu>, subs: Seq<usize>, i: int)
    requires
        0 <= i,
        forall|k: int| 0 <= k < subs.len() ==> #[trigger] subs[k] < nodes.len(),
    ensures
        first_high(nodes, subs, i) matches Some(c) ==> c < nodes.len() && nodes[c as int].high_priority,
        (exists|k: int| i <= k < subs.len() && #[trigger] nodes[subs[k] as int].high_priority) ==> first_high(nodes, subs, i) is Some,
    decreases subs.len() - i,
{
    if i < subs.len() {
        lemma_first_high_found(nodes, subs, i + 1);
        if exists|k: int| i <= k < subs.len() && #[trigger] nodes[subs[k] as int].high_priority {
            let k = choose|k: int| i <= k < subs.len() && #[trigger] nodes[subs[k] as int].high_priority;
            if k > i {
                assert(nodes[subs[k] as int].high_priority);
            }
        }
    }
}

/// The chosen child of a node is one of its children.
proof fn lemma_chosen_is_child(nodes: Seq<Menu>, n: int)
    requires
        menus_wf(nodes),
        0 <= n < nodes.len(),
    ensures
        chosen_child(nodes, n) matches Some(c) ==> n < c < nodes.len(),
{
    let subs = nodes[n].subs@;
    if subs.len() > 0 && nodes[n].opened {
        lemma_first_opened_in(nodes, subs, 0);
        lemma_first_high_in(nodes, subs, 0);
        assert(n < subs[0] < nodes.len());
        if first_opened(nodes, subs, 0) is Some {
            let c = first_opened(nodes, subs, 0)->0;
            let k = choose|k: int| 0 <= k < subs.len() && subs[k] == c;
            assert(n < subs[k] < nodes.len());
        }
        if first_high(nodes, subs, 0) is Some {
            let c = first_high(nodes, subs, 0)->0;
            let k = choose|k: int| 0 <= k < subs.len() && subs[k] == c;
            assert(n < subs[k] < nodes.len());
        }
    }
}

proof fn lemma_first_opened_in(nodes: Seq<Menu>, subs: Seq<usize>, i: int)
    ensures
        first_opened(nodes, subs, i) matches Some(c) ==> exists|k: int|
            0 <= k < subs.len() && subs[k] == c,
    decreases subs.len() - i,
{
    if 0 <= i < subs.len() {
        lemma_first_opened_in(nodes, subs, i + 1);
    }
}

proof fn lemma_first_high_in(nodes: Seq<Menu>, subs: Seq<usize>, i: int)
    ensures
        first_high(nodes, subs, i) matches Some(c) ==> exists|k: int|
            0 <= k < subs.len() && subs[k] == c,
    decreases subs.len() - i,
{
    if 0 <= i < subs.len() {
        lemma_first_high_in(nodes, subs, i + 1);
    }
}

impl Menu {
    /// The root dialog: no keys, and counted as open.
    pub fn blank() -> (r: Menu)
        ensures
            r.opened,
            !r.requested,
            !r.closed,
            !r.high_priority,
            r.subs@.len() == 0,
            r.open_menu@.len() == 0,
            r.close_menu@.len() == 0,
    {
        Menu {
            open_menu: String::new(),
            close_menu: String::new(),
            requested: false,
            opened: true,
            closed: false,
            high_priority: false,
            open_message: String::new(),
            close_message: String::new(),
            subs: Vec::new(),
        }
    }
}

}
