//! The window/workspace registry: the set of workspaces, each an
//! insertion-ordered map from window id to client record, the active
//! workspace, focus and last-focus, and the drag-gesture anchors. Every
//! operation returns a typed error instead of aborting.

use vstd::prelude::*;

use crate::commands::{
    window_selector_cycles, CardinalDirection, WindowSelector, WorkspaceSelector,
};
use crate::numfmt::{dec_chars, usize_to_string};
use crate::ordmap::{
    ckey_index, ckeys_unique, client_entries, cmap_get, cmap_insert, cmap_items, cmap_new,
    cmap_shift_remove, has_ckey, has_wkey, wkey_index, wkeys_unique, wmap_get_at,
    wmap_get_index_of, wmap_insert, wmap_insert_before, wmap_len, wmap_keys, wmap_new,
    wmap_shift_remove_index, wmap_swap_value_at, workspace_entries, ClientMap, WorkspaceMap,
};
use crate::vector::Vector2D;

verus! {

/// The registry's recoverable failures.
#[derive(Debug, Clone, Copy, PartialEq, Eq, Structural)]
pub enum Error {
    ClientNotFound,
    ClientAlreadyExists,
    WorkspaceAlreadyExists,
    WorkspaceNotFound,
}

impl Error {
    /// A short description, in place of a `Display` implementation.
    pub fn message(&self) -> (m: &'static str)
        ensures
            m@ == match self {
                Error::ClientNotFound => "Client not found."@,
                Error::ClientAlreadyExists => "Client already exists."@,
                Error::WorkspaceAlreadyExists => "Workspace already exists."@,
                Error::WorkspaceNotFound => "Workspace not found."@,
            },
    {
        match self {
            Error::ClientNotFound => "Client not found.",
            Error::ClientAlreadyExists => "Client already exists.",
            Error::WorkspaceAlreadyExists => "Workspace already exists.",
            Error::WorkspaceNotFound => "Workspace not found.",
        }
    }
}

/// Everything known about one managed top-level window.
#[derive(Debug, Clone, Copy, PartialEq, Eq, Structural)]
pub struct Client {
    /// The window id.
    pub window: u32,
    /// The position of the window.
    pub pos: Vector2D,
    /// The size of the window.
    pub size: Vector2D,
}

impl Client {
    pub fn new(window: u32, pos: Vector2D, size: Vector2D) -> (c: Self)
        ensures
            c == (Client { window, pos, size }),
    {
        Client { window, pos, size }
    }

    pub fn window(&self) -> (w: u32)
        ensures
            w == self.window,
    {
        self.window
    }
}

/// One workspace: an insertion-ordered map from window id to client record.
#[derive(Debug)]
pub struct Workspace {
    /// The clients managed by the workspace.
    pub clients: ClientMap,
}

impl Workspace {
    pub fn empty() -> (w: Self)
        ensures
            client_entries(w.clients) == Seq::<(u32, Client)>::empty(),
    {
        Workspace { clients: cmap_new() }
    }
}

pub struct State {
    /// The root window, fixed at startup.
    pub root: u32,
    /// The manager's own invisible child window, for protocol advertisement.
    pub child: u32,
    /// The workspaces, keyed by their unique names, in insertion order.
    pub workspaces: WorkspaceMap,
    /// The index of the active workspace; always in range.
    pub active_workspace: usize,
    /// The focused window, present in the active workspace when set.
    pub focused: Option<u32>,
    /// The previously focused window.
    pub last_focused: Option<u32>,
    /// Where the cursor was when the current drag gesture started.
    pub drag_start_pos: Vector2D,
    /// Where the dragged window's frame was when the gesture started.
    pub drag_start_frame_pos: Vector2D,
    /// The size of the monitor.
    pub monitor_size: Vector2D,
}

impl State {
    /// The workspaces as a sequence of name/workspace pairs.
    pub open spec fn ws(&self) -> Seq<(String, Workspace)> {
        workspace_entries(self.workspaces)
    }

    /// The clients of workspace `j`, in insertion order.
    pub open spec fn clients_of(&self, j: int) -> Seq<(u32, Client)> {
        client_entries(self.ws()[j].1.clients)
    }

    /// The clients of the active workspace.
    pub open spec fn active_clients(&self) -> Seq<(u32, Client)> {
        self.clients_of(self.active_workspace as int)
    }

    /// Well-formedness: at least one workspace, the active index in range,
    /// workspace names unique, window ids unique within a workspace, every
    /// client record keyed by its own window id, and the focused window (when
    /// set) present in the active workspace.
    pub open spec fn wf(&self) -> bool {
        &&& 0 < self.ws().len()
        &&& (self.active_workspace as int) < self.ws().len()
        &&& wkeys_unique(self.ws())
        &&& forall|j: int|
            0 <= j < self.ws().len() ==> ckeys_unique(#[trigger] self.clients_of(j))
        &&& forall|j: int, i: int|
            0 <= j < self.ws().len() && 0 <= i < self.clients_of(j).len()
                ==> (#[trigger] self.clients_of(j)[i]).0 == self.clients_of(j)[i].1.window
        &&& match self.focused {
            Some(w) => has_ckey(self.active_clients(), w),
            None => true,
        }
    }
}

/// The fields no registry operation but a gesture update touches.
pub open spec fn keeps_frame(a: State, b: State) -> bool {
    &&& b.root == a.root
    &&& b.child == a.child
    &&& b.drag_start_pos == a.drag_start_pos
    &&& b.drag_start_frame_pos == a.drag_start_frame_pos
    &&& b.monitor_size == a.monitor_size
}

/// Focus and last-focus are unchanged.
pub open spec fn keeps_focus(a: State, b: State) -> bool {
    &&& b.focused == a.focused
    &&& b.last_focused == a.last_focused
}

/// Only the client list of the active workspace changed, to `t`; every other
/// workspace, every name, and the active index are as before.
pub open spec fn updates_active_clients(a: State, b: State, t: Seq<(u32, Client)>) -> bool {
    &&& b.ws().len() == a.ws().len()
    &&& b.active_workspace == a.active_workspace
    &&& forall|j: int|
        0 <= j < a.ws().len() && j != a.active_workspace as int ==> b.ws()[j] == a.ws()[j]
    &&& b.ws()[a.active_workspace as int].0 == a.ws()[a.active_workspace as int].0
    &&& b.active_clients() == t
}

/// The stored client for window `w` in `s`, if any.
pub open spec fn spec_lookup(s: Seq<(u32, Client)>, w: u32) -> Option<Client> {
    if has_ckey(s, w) {
        Some(s[ckey_index(s, w)].1)
    } else {
        None
    }
}

/// Squared Euclidean distance; only relative order matters, so the square
/// root is never taken.
pub open spec fn dist2(a: Vector2D, b: Vector2D) -> int {
    (a.x - b.x) * (a.x - b.x) + (a.y - b.y) * (a.y - b.y)
}

/// True when `c` lies strictly on the `direction` side of `r`: a half-plane
/// filter, not a cone.
pub open spec fn side_ok(c: Client, r: Client, direction: CardinalDirection) -> bool {
    match direction {
        CardinalDirection::East => c.pos.x > r.pos.x,
        CardinalDirection::West => c.pos.x < r.pos.x,
        CardinalDirection::North => c.pos.y < r.pos.y,
        CardinalDirection::South => c.pos.y > r.pos.y,
    }
}

/// The client a scan of `s` in order selects: among the clients other than
/// the reference and strictly on the `direction` side, the one at minimal
/// squared distance, earlier entries winning ties.
pub open spec fn closest_in(
    s: Seq<(u32, Client)>,
    refc: Client,
    direction: CardinalDirection,
) -> Option<Client>
    decreases s.len(),
{
    if s.len() == 0 {
        None
    } else {
        let prev = closest_in(s.drop_last(), refc, direction);
        let c = s.last().1;
        if c.window == refc.window || !side_ok(c, refc, direction) {
            prev
        } else {
            match prev {
                None => Some(c),
                Some(b) => if dist2(c.pos, refc.pos) < dist2(b.pos, refc.pos) {
                    Some(c)
                } else {
                    Some(b)
                },
            }
        }
    }
}

/// What a window selector resolves to against `st`, read-only. `Focused` and
/// `Closest` go through the focused window; `Cycle` resolves to nothing.
pub open spec fn spec_select(st: State, sel: WindowSelector) -> Option<Client> {
    match sel {
        WindowSelector::Focused => match st.focused {
            Some(w) => spec_lookup(st.active_clients(), w),
            None => None,
        },
        WindowSelector::Window(w) => spec_lookup(st.active_clients(), w),
        WindowSelector::Closest(d) => match st.focused {
            Some(w) => match spec_lookup(st.active_clients(), w) {
                Some(rc) => closest_in(st.active_clients(), rc, d),
                None => None,
            },
            None => None,
        },
        WindowSelector::Cycle(_) => None,
    }
}

/// True when the selector names the root window itself, which focusing
/// treats as a request to clear focus.
pub open spec fn selector_is_root(sel: WindowSelector, root: u32) -> bool {
    match sel {
        WindowSelector::Window(w) => w == root,
        _ => false,
    }
}

/// Which workspace a selector denotes in `s`, if any.
pub open spec fn resolve_workspace(s: Seq<(String, Workspace)>, sel: WorkspaceSelector) -> Option<
    int,
> {
    match sel {
        WorkspaceSelector::Index(i) => if (i as int) < s.len() {
            Some(i as int)
        } else {
            None
        },
        WorkspaceSelector::Name(n) => if has_wkey(s, n@) {
            Some(wkey_index(s, n@))
        } else {
            None
        },
    }
}

impl Default for State {
    /// A fresh registry: no windows, one workspace named "1", nothing focused.
    fn default() -> (s: Self)
        ensures
            s.wf(),
            s.ws().len() == 1,
            s.ws()[0].0@ == dec_chars(1),
            s.clients_of(0) == Seq::<(u32, Client)>::empty(),
            s.active_workspace == 0,
            s.focused == None::<u32>,
            s.last_focused == None::<u32>,
            s.root == 0u32,
            s.child == 0u32,
            s.drag_start_pos == (Vector2D { x: 0, y: 0 }),
            s.drag_start_frame_pos == (Vector2D { x: 0, y: 0 }),
            s.monitor_size == (Vector2D { x: 0, y: 0 }),
    {
        let mut workspaces = wmap_new();
        let name = usize_to_string(1);
        wmap_insert(&mut workspaces, name, Workspace::empty());
        State {
            root: 0,
            child: 0,
            workspaces,
            active_workspace: 0,
            focused: None,
            last_focused: None,
            drag_start_pos: Vector2D::new(0, 0),
            drag_start_frame_pos: Vector2D::new(0, 0),
            monitor_size: Vector2D::new(0, 0),
        }
    }
}

impl State {
    /// Add a workspace at the end of the ordered collection.
    ///
    /// If no name is given, the workspace is named after its 1-based ordinal.
    /// Fails with `WorkspaceAlreadyExists` when the resolved name collides.
    pub fn add_workspace(&mut self, name: Option<String>) -> (r: Result<(), Error>)
        requires
            old(self).wf(),
            old(self).ws().len() < usize::MAX,
        ensures
            final(self).wf(),
            keeps_frame(*old(self), *final(self)),
            ({
                let s = old(self).ws();
                let nm: Seq<char> = match name {
                    Some(n) => n@,
                    None => dec_chars((s.len() + 1) as nat),
                };
                match r {
                    Ok(()) => {
                        &&& !has_wkey(s, nm)
                        &&& final(self).ws().len() == s.len() + 1
                        &&& final(self).ws().take(s.len() as int) == s
                        &&& final(self).ws().last().0@ == nm
                        &&& client_entries(final(self).ws().last().1.clients) == Seq::<(
                            u32,
                            Client,
                        )>::empty()
                        &&& final(self).active_workspace == old(self).active_workspace
                        &&& keeps_focus(*old(self), *final(self))
                    },
                    Err(e) => {
                        &&& e == Error::WorkspaceAlreadyExists
                        &&& has_wkey(s, nm)
                        &&& *final(self) == *old(self)
                    },
                }
            }),
    {
        let name = match name {
            Some(n) => n,
            None => usize_to_string(wmap_len(&self.workspaces) + 1),
        };
        if wmap_get_index_of(&self.workspaces, &name).is_some() {
            return Err(Error::WorkspaceAlreadyExists);
        }
        let ghost s = self.ws();
        let ghost nm = name@;
        let w0 = Workspace::empty();
        proof {
            lemma_wkeys_unique_push(s, (name, w0));
        }
        wmap_insert(&mut self.workspaces, name, w0);
        proof {
            assert(self.ws().take(s.len() as int) =~= s);
            assert forall|j: int| 0 <= j < self.ws().len() implies ckeys_unique(
                #[trigger] self.clients_of(j),
            ) by {
                if j < s.len() {
                    assert(self.ws()[j] == s[j]);
                    assert(self.clients_of(j) == old(self).clients_of(j));
                } else {
                    assert(self.clients_of(j) == client_entries(w0.clients));
                }
            }
            assert forall|j: int, i: int|
                0 <= j < self.ws().len() && 0 <= i < self.clients_of(j).len() implies (
            #[trigger] self.clients_of(j)[i]).0 == self.clients_of(j)[i].1.window by {
                if j < s.len() {
                    assert(self.ws()[j] == s[j]);
                    assert(self.clients_of(j) == old(self).clients_of(j));
                } else {
                    assert(self.clients_of(j) == client_entries(w0.clients));
                }
            }
            assert(self.active_clients() == old(self).active_clients());
        }
        Ok(())
    }

    /// Rename a workspace, keeping its clients and its place in the order.
    ///
    /// Fails with `WorkspaceNotFound` when the selector resolves to nothing,
    /// and with `WorkspaceAlreadyExists` when the new name is already used by
    /// another workspace; in both cases nothing changes.
    pub fn rename_workspace(&mut self, selector: WorkspaceSelector, name: String) -> (r: Result<
        (),
        Error,
    >)
        requires
            old(self).wf(),
        ensures
            final(self).wf(),
            keeps_frame(*old(self), *final(self)),
            keeps_focus(*old(self), *final(self)),
            final(self).active_workspace == old(self).active_workspace,
            ({
                let s = old(self).ws();
                match r {
                    Ok(()) => {
                        &&& resolve_workspace(s, selector) matches Some(t)
                        &&& {
                            let t = resolve_workspace(s, selector)->Some_0;
                            &&& (!has_wkey(s, name@) || wkey_index(s, name@) == t)
                            &&& final(self).ws() == s.update(t, (name, s[t].1))
                        }
                    },
                    Err(Error::WorkspaceNotFound) => {
                        &&& resolve_workspace(s, selector) is None
                        &&& *final(self) == *old(self)
                    },
                    Err(Error::WorkspaceAlreadyExists) => {
                        &&& resolve_workspace(s, selector) matches Some(t)
                        &&& has_wkey(s, name@)
                        &&& wkey_index(s, name@) != resolve_workspace(s, selector)->Some_0
                        &&& *final(self) == *old(self)
                    },
                    Err(_) => false,
                }
            }),
    {
        let ghost s = self.ws();
        let t: usize = match &selector {
            WorkspaceSelector::Index(i) => {
                if *i < wmap_len(&self.workspaces) {
                    *i
                } else {
                    return Err(Error::WorkspaceNotFound);
                }
            },
            WorkspaceSelector::Name(n) => {
                match wmap_get_index_of(&self.workspaces, n) {
                    Some(i) => {
                        proof {
                            lemma_wkey_index_is(s, n@, i as int);
                        }
                        i
                    },
                    None => {
                        return Err(Error::WorkspaceNotFound);
                    },
                }
            },
        };
        proof {
            assert(resolve_workspace(s, selector) == Some(t as int));
        }
        match wmap_get_index_of(&self.workspaces, &name) {
            Some(k) => {
                if k != t {
                    proof {
                        lemma_wkey_index_is(s, name@, k as int);
                    }
                    return Err(Error::WorkspaceAlreadyExists);
                }
                proof {
                    lemma_wkey_index_is(s, name@, k as int);
                }
            },
            None => {},
        }
        let w = wmap_shift_remove_index(&mut self.workspaces, t);
        proof {
            lemma_wkey_absent_after_remove(s, t as int, name@);
            lemma_wkeys_unique_remove(s, t as int);
        }
        let ghost e: (String, Workspace) = (name, w);
        wmap_insert_before(&mut self.workspaces, t, name, w);
        proof {
            lemma_remove_insert_update(s, t as int, e);
            assert(self.ws() == s.update(t as int, e));
            lemma_wkeys_unique_rename(s, t as int, e);
            assert forall|j: int| 0 <= j < self.ws().len() implies ckeys_unique(
                #[trigger] self.clients_of(j),
            ) by {
                assert(self.ws()[j].1 == s[j].1);
                assert(self.clients_of(j) == old(self).clients_of(j));
            }
            assert forall|j: int, i: int|
                0 <= j < self.ws().len() && 0 <= i < self.clients_of(j).len() implies (
            #[trigger] self.clients_of(j)[i]).0 == self.clients_of(j)[i].1.window by {
                assert(self.ws()[j].1 == s[j].1);
                assert(self.clients_of(j) == old(self).clients_of(j));
            }
            assert(self.active_clients() == old(self).active_clients());
        }
        Ok(())
    }

    /// Make a workspace active and return its index.
    ///
    /// Fails with `WorkspaceNotFound` when the selector resolves to nothing,
    /// leaving the active index unchanged. Switching clears focus and
    /// last-focus: focus does not persist across workspace switches.
    pub fn activate_workspace(&mut self, selector: WorkspaceSelector) -> (r: Result<usize, Error>)
        requires
            old(self).wf(),
        ensures
            final(self).wf(),
            keeps_frame(*old(self), *final(self)),
            final(self).workspaces == old(self).workspaces,
            ({
                let s = old(self).ws();
                match r {
                    Ok(i) => {
                        &&& resolve_workspace(s, selector) == Some(i as int)
                        &&& final(self).active_workspace == i
                        &&& final(self).focused == None::<u32>
                        &&& final(self).last_focused == None::<u32>
                    },
                    Err(e) => {
                        &&& e == Error::WorkspaceNotFound
                        &&& resolve_workspace(s, selector) is None
                        &&& *final(self) == *old(self)
                    },
                }
            }),
    {
        let ghost s = self.ws();
        let index: usize = match &selector {
            WorkspaceSelector::Index(i) => {
                if *i < wmap_len(&self.workspaces) {
                    *i
                } else {
                    return Err(Error::WorkspaceNotFound);
                }
            },
            WorkspaceSelector::Name(n) => {
                match wmap_get_index_of(&self.workspaces, n) {
                    Some(i) => {
                        proof {
                            lemma_wkey_index_is(s, n@, i as int);
                        }
                        i
                    },
                    None => {
                        return Err(Error::WorkspaceNotFound);
                    },
                }
            },
        };
        self.active_workspace = index;
        self.focused = None;
        self.last_focused = None;
        proof {
            lemma_wf_same_ws(*old(self), *self);
        }
        Ok(index)
    }

    /// The workspace names, in insertion order.
    pub fn workspaces_names(&self) -> (r: Vec<String>)
        ensures
            r@.len() == self.ws().len(),
            forall|i: int| 0 <= i < r@.len() ==> r@[i] == self.ws()[i].0,
    {
        wmap_keys(&self.workspaces)
    }

    /// The number of workspaces.
    pub fn workspace_count(&self) -> (n: usize)
        ensures
            n == self.ws().len(),
    {
        wmap_len(&self.workspaces)
    }

    /// The index of the active workspace.
    pub fn active_workspace_index(&self) -> (i: usize)
        ensures
            i == self.active_workspace,
    {
        self.active_workspace
    }

    /// The focused window, if any.
    pub fn focused(&self) -> (r: Option<u32>)
        ensures
            r == self.focused,
    {
        self.focused
    }

    /// The window focused before the current one, if any.
    pub fn last_focused(&self) -> (r: Option<u32>)
        ensures
            r == self.last_focused,
    {
        self.last_focused
    }

    /// The clients of the active workspace.
    pub fn active_workspace_clients(&self) -> (r: &ClientMap)
        requires
            self.wf(),
        ensures
            client_entries(*r) == self.active_clients(),
    {
        &wmap_get_at(&self.workspaces, self.active_workspace).clients
    }

    /// The client record the active workspace holds for `w`, if any.
    fn lookup_active(&self, w: u32) -> (r: Option<Client>)
        requires
            self.wf(),
        ensures
            r == spec_lookup(self.active_clients(), w),
    {
        let r = cmap_get(self.active_workspace_clients(), w);
        proof {
            let s = self.active_clients();
            match r {
                Some(c) => {
                    let i = choose|i: int| 0 <= i < s.len() && s[i] == (w, c);
                    lemma_ckey_index_is(s, w, i);
                },
                None => {},
            }
        }
        r
    }

    /// Replace the active workspace's client list wholesale. Private plumbing
    /// shared by the mutating operations below.
    fn set_active_clients(&mut self, clients: ClientMap)
        requires
            (old(self).active_workspace as int) < old(self).ws().len(),
        ensures
            final(self).ws() == old(self).ws().update(
                old(self).active_workspace as int,
                (
                    old(self).ws()[old(self).active_workspace as int].0,
                    (Workspace { clients }),
                ),
            ),
            final(self).active_workspace == old(self).active_workspace,
            final(self).focused == old(self).focused,
            final(self).last_focused == old(self).last_focused,
            keeps_frame(*old(self), *final(self)),
    {
        let i = self.active_workspace;
        let _ = wmap_swap_value_at(&mut self.workspaces, i, Workspace { clients });
    }

    /// Add a client to the active workspace.
    ///
    /// Fails with `ClientAlreadyExists` when the window is already present
    /// there, leaving everything unchanged.
    pub fn add_client(&mut self, window: u32, pos: Vector2D, size: Vector2D) -> (r: Result<
        (),
        Error,
    >)
        requires
            old(self).wf(),
        ensures
            final(self).wf(),
            keeps_frame(*old(self), *final(self)),
            keeps_focus(*old(self), *final(self)),
            match r {
                Ok(()) => {
                    &&& !has_ckey(old(self).active_clients(), window)
                    &&& updates_active_clients(
                        *old(self),
                        *final(self),
                        old(self).active_clients().push((window, (Client { window, pos, size }))),
                    )
                },
                Err(e) => {
                    &&& e == Error::ClientAlreadyExists
                    &&& has_ckey(old(self).active_clients(), window)
                    &&& *final(self) == *old(self)
                },
            },
    {
        if cmap_get(self.active_workspace_clients(), window).is_some() {
            return Err(Error::ClientAlreadyExists);
        }
        let ghost s = self.ws();
        let ghost t0 = self.active_clients();
        let i = self.active_workspace;
        let mut w = wmap_swap_value_at(&mut self.workspaces, i, Workspace::empty());
        cmap_insert(&mut w.clients, window, Client::new(window, pos, size));
        let ghost t = client_entries(w.clients);
        self.set_active_clients(w.clients);
        proof {
            assert(self.ws() =~= s.update(i as int, (s[i as int].0, self.ws()[i as int].1)));
            assert(t == t0.push((window, (Client { window, pos, size }))));
            assert(updates_active_clients(*old(self), *self, t));
            lemma_ckeys_unique_push(t0, (window, (Client { window, pos, size })));
            assert forall|k: int| 0 <= k < t.len() implies (#[trigger] t[k]).0 == t[k].1.window by {
                if k < t0.len() {
                    assert(t[k] == t0[k]);
                }
            }
            match self.focused {
                Some(f) => {
                    lemma_has_ckey_push(t0, (window, (Client { window, pos, size })), f);
                },
                None => {},
            }
            lemma_wf_update_active(*old(self), *self, t);
        }
        Ok(())
    }

    /// Remove a client from the active workspace.
    ///
    /// Fails with `ClientNotFound` when the window is not present there. If
    /// the removed window was focused, focus is cleared; last-focus is left
    /// alone.
    pub fn remove_client(&mut self, window: u32) -> (r: Result<(), Error>)
        requires
            old(self).wf(),
        ensures
            final(self).wf(),
            keeps_frame(*old(self), *final(self)),
            match r {
                Ok(()) => ({
                    let s0 = old(self).active_clients();
                    &&& has_ckey(s0, window)
                    &&& updates_active_clients(
                        *old(self),
                        *final(self),
                        s0.remove(ckey_index(s0, window)),
                    )
                    &&& final(self).focused == (if old(self).focused == Some(window) {
                        None::<u32>
                    } else {
                        old(self).focused
                    })
                    &&& final(self).last_focused == old(self).last_focused
                }),
                Err(e) => {
                    &&& e == Error::ClientNotFound
                    &&& !has_ckey(old(self).active_clients(), window)
                    &&& *final(self) == *old(self)
                },
            },
    {
        if cmap_get(self.active_workspace_clients(), window).is_none() {
            return Err(Error::ClientNotFound);
        }
        let ghost s = self.ws();
        let ghost t0 = self.active_clients();
        let i = self.active_workspace;
        let mut w = wmap_swap_value_at(&mut self.workspaces, i, Workspace::empty());
        let removed = cmap_shift_remove(&mut w.clients, window);
        let ghost t = client_entries(w.clients);
        self.set_active_clients(w.clients);
        match self.focused {
            Some(f) => {
                if f == window {
                    self.focused = None;
                }
            },
            None => {},
        }
        proof {
            let ghost k = ckey_index(t0, window);
            assert(self.ws() =~= s.update(i as int, (s[i as int].0, self.ws()[i as int].1)));
            assert(t == t0.remove(k));
            assert(updates_active_clients(*old(self), *self, t));
            lemma_ckeys_unique_remove(t0, k);
            assert forall|q: int| 0 <= q < t.len() implies (#[trigger] t[q]).0 == t[q].1.window by {
                if q < k {
                    assert(t[q] == t0[q]);
                } else {
                    assert(t[q] == t0[q + 1]);
                }
            }
            match self.focused {
                Some(f) => {
                    assert(f != window);
                    assert(t0[k].0 == window);
                    lemma_has_ckey_remove(t0, k, f);
                },
                None => {},
            }
            lemma_wf_update_active(*old(self), *self, t);
        }
        Ok(())
    }

    /// Move a client while a drag gesture is in progress: the new position
    /// tracks the cursor's delta from the gesture's start, not the absolute
    /// cursor position. Returns the new position.
    ///
    /// Fails with `ClientNotFound` when the window is not in the active
    /// workspace.
    pub fn drag_client(&mut self, window: u32, mouse_pos: Vector2D) -> (r: Result<Vector2D, Error>)
        requires
            old(self).wf(),
            i32::MIN <= old(self).drag_start_frame_pos.x + mouse_pos.x <= i32::MAX,
            i32::MIN <= old(self).drag_start_frame_pos.y + mouse_pos.y <= i32::MAX,
            i32::MIN <= old(self).drag_start_frame_pos.x + mouse_pos.x
                - old(self).drag_start_pos.x <= i32::MAX,
            i32::MIN <= old(self).drag_start_frame_pos.y + mouse_pos.y
                - old(self).drag_start_pos.y <= i32::MAX,
        ensures
            final(self).wf(),
            keeps_frame(*old(self), *final(self)),
            keeps_focus(*old(self), *final(self)),
            match r {
                Ok(p) => ({
                    let s0 = old(self).active_clients();
                    let k = ckey_index(s0, window);
                    &&& p.x == old(self).drag_start_frame_pos.x + mouse_pos.x - old(
                        self,
                    ).drag_start_pos.x
                    &&& p.y == old(self).drag_start_frame_pos.y + mouse_pos.y - old(
                        self,
                    ).drag_start_pos.y
                    &&& has_ckey(s0, window)
                    &&& updates_active_clients(
                        *old(self),
                        *final(self),
                        s0.update(k, (window, (Client { window, pos: p, size: s0[k].1.size }))),
                    )
                }),
                Err(e) => {
                    &&& e == Error::ClientNotFound
                    &&& !has_ckey(old(self).active_clients(), window)
                    &&& *final(self) == *old(self)
                },
            },
    {
        let new_pos = self.drag_start_frame_pos.add(mouse_pos).sub(self.drag_start_pos);
        let c = match self.lookup_active(window) {
            Some(c) => c,
            None => {
                return Err(Error::ClientNotFound);
            },
        };
        self.update_client(window, Client::new(window, new_pos, c.size));
        Ok(new_pos)
    }

    /// Resize a client while a resize gesture is in progress: the new size is
    /// the cursor's offset from the client's position, floored at 32 on each
    /// axis independently. Returns the new size, never below the floor on
    /// either axis.
    ///
    /// Fails with `ClientNotFound` when the window is not in the active
    /// workspace.
    pub fn drag_resize_client(&mut self, window: u32, mouse_pos: Vector2D) -> (r: Result<
        Vector2D,
        Error,
    >)
        requires
            old(self).wf(),
            has_ckey(old(self).active_clients(), window) ==> ({
                let c0 = old(self).active_clients()[ckey_index(
                    old(self).active_clients(),
                    window,
                )].1;
                &&& i32::MIN <= mouse_pos.x - c0.pos.x <= i32::MAX
                &&& i32::MIN <= mouse_pos.y - c0.pos.y <= i32::MAX
            }),
        ensures
            final(self).wf(),
            keeps_frame(*old(self), *final(self)),
            keeps_focus(*old(self), *final(self)),
            match r {
                Ok(sz) => ({
                    let s0 = old(self).active_clients();
                    let k = ckey_index(s0, window);
                    let c0 = s0[k].1;
                    &&& has_ckey(s0, window)
                    &&& sz.x == (if mouse_pos.x - c0.pos.x >= 32 {
                        mouse_pos.x - c0.pos.x
                    } else {
                        32
                    })
                    &&& sz.y == (if mouse_pos.y - c0.pos.y >= 32 {
                        mouse_pos.y - c0.pos.y
                    } else {
                        32
                    })
                    &&& sz.x >= 32
                    &&& sz.y >= 32
                    &&& updates_active_clients(
                        *old(self),
                        *final(self),
                        s0.update(k, (window, (Client { window, pos: c0.pos, size: sz }))),
                    )
                }),
                Err(e) => {
                    &&& e == Error::ClientNotFound
                    &&& !has_ckey(old(self).active_clients(), window)
                    &&& *final(self) == *old(self)
                },
            },
    {
        let c = match self.lookup_active(window) {
            Some(c) => c,
            None => {
                return Err(Error::ClientNotFound);
            },
        };
        let new_size = mouse_pos.sub(c.pos).max(Vector2D::new(32, 32));
        self.update_client(window, Client::new(window, c.pos, new_size));
        Ok(new_size)
    }

    /// Move a client to an absolute position.
    ///
    /// Fails with `ClientNotFound` when the window is not in the active
    /// workspace.
    pub fn teleport_client(&mut self, window: u32, pos: Vector2D) -> (r: Result<(), Error>)
        requires
            old(self).wf(),
        ensures
            final(self).wf(),
            keeps_frame(*old(self), *final(self)),
            keeps_focus(*old(self), *final(self)),
            match r {
                Ok(()) => ({
                    let s0 = old(self).active_clients();
                    let k = ckey_index(s0, window);
                    &&& has_ckey(s0, window)
                    &&& updates_active_clients(
                        *old(self),
                        *final(self),
                        s0.update(k, (window, (Client { window, pos, size: s0[k].1.size }))),
                    )
                }),
                Err(e) => {
                    &&& e == Error::ClientNotFound
                    &&& !has_ckey(old(self).active_clients(), window)
                    &&& *final(self) == *old(self)
                },
            },
    {
        let c = match self.lookup_active(window) {
            Some(c) => c,
            None => {
                return Err(Error::ClientNotFound);
            },
        };
        self.update_client(window, Client::new(window, pos, c.size));
        Ok(())
    }

    /// Store `value` for a window already present in the active workspace,
    /// in place. Private plumbing for the gesture operations.
    fn update_client(&mut self, window: u32, value: Client)
        requires
            old(self).wf(),
            has_ckey(old(self).active_clients(), window),
            value.window == window,
        ensures
            final(self).wf(),
            keeps_frame(*old(self), *final(self)),
            keeps_focus(*old(self), *final(self)),
            updates_active_clients(
                *old(self),
                *final(self),
                old(self).active_clients().update(
                    ckey_index(old(self).active_clients(), window),
                    (window, value),
                ),
            ),
    {
        let ghost s = self.ws();
        let ghost t0 = self.active_clients();
        let i = self.active_workspace;
        let mut w = wmap_swap_value_at(&mut self.workspaces, i, Workspace::empty());
        cmap_insert(&mut w.clients, window, value);
        let ghost t = client_entries(w.clients);
        self.set_active_clients(w.clients);
        proof {
            let ghost k = ckey_index(t0, window);
            assert(self.ws() =~= s.update(i as int, (s[i as int].0, self.ws()[i as int].1)));
            assert(t == t0.update(k, (window, value)));
            assert(updates_active_clients(*old(self), *self, t));
            lemma_ckeys_unique_update(t0, k, (window, value));
            assert forall|q: int| 0 <= q < t.len() implies (#[trigger] t[q]).0 == t[q].1.window by {
                if q != k {
                    assert(t[q] == t0[q]);
                }
            }
            match self.focused {
                Some(f) => {
                    lemma_has_ckey_update(t0, k, (window, value), f);
                },
                None => {},
            }
            lemma_wf_update_active(*old(self), *self, t);
        }
    }

    /// Set the focused window, rotating the previous focus into last-focus.
    pub fn set_focused(&mut self, window: Option<u32>)
        requires
            old(self).wf(),
            match window {
                Some(w) => has_ckey(old(self).active_clients(), w),
                None => true,
            },
        ensures
            final(self).wf(),
            final(self).focused == window,
            final(self).last_focused == old(self).focused,
            final(self).workspaces == old(self).workspaces,
            final(self).active_workspace == old(self).active_workspace,
            keeps_frame(*old(self), *final(self)),
    {
        self.last_focused = self.focused;
        self.focused = window;
        proof {
            lemma_wf_same_ws(*old(self), *self);
        }
    }

    /// Resolve a selector to a client of the active workspace, read-only.
    ///
    /// Fails with `ClientNotFound` when the selector resolves to nothing.
    /// Cycle selectors are not implemented.
    pub fn select_client(&self, selector: WindowSelector) -> (r: Result<Client, Error>)
        requires
            self.wf(),
            !window_selector_cycles(selector),
        ensures
            match r {
                Ok(c) => spec_select(*self, selector) == Some(c),
                Err(e) => e == Error::ClientNotFound && spec_select(*self, selector) is None,
            },
    {
        match selector {
            WindowSelector::Focused => match self.focused {
                Some(w) => match self.lookup_active(w) {
                    Some(c) => Ok(c),
                    None => Err(Error::ClientNotFound),
                },
                None => Err(Error::ClientNotFound),
            },
            WindowSelector::Window(w) => match self.lookup_active(w) {
                Some(c) => Ok(c),
                None => Err(Error::ClientNotFound),
            },
            WindowSelector::Closest(direction) => self.select_closest_client(direction),
            WindowSelector::Cycle(_) => {
                proof {
                    assert(false);
                }
                Err(Error::ClientNotFound)
            },
        }
    }

    /// The closest client to the focused one in the given direction.
    ///
    /// Fails with `ClientNotFound` when nothing is focused or no client
    /// qualifies.
    fn select_closest_client(&self, direction: CardinalDirection) -> (r: Result<Client, Error>)
        requires
            self.wf(),
        ensures
            match r {
                Ok(c) => spec_select(*self, WindowSelector::Closest(direction)) == Some(c),
                Err(e) => e == Error::ClientNotFound && spec_select(
                    *self,
                    WindowSelector::Closest(direction),
                ) is None,
            },
    {
        let refc = match self.focused {
            Some(w) => match self.lookup_active(w) {
                Some(c) => c,
                None => {
                    proof {
                        assert(false);
                    }
                    return Err(Error::ClientNotFound);
                },
            },
            None => {
                return Err(Error::ClientNotFound);
            },
        };
        match self.closest_of(refc, direction) {
            Some(c) => Ok(c),
            None => Err(Error::ClientNotFound),
        }
    }

    /// Scan the active workspace for the qualifying client at minimal
    /// squared distance from `refc`, earlier entries winning ties.
    fn closest_of(&self, refc: Client, direction: CardinalDirection) -> (r: Option<Client>)
        requires
            self.wf(),
        ensures
            r == closest_in(self.active_clients(), refc, direction),
    {
        let items = cmap_items(self.active_workspace_clients());
        let ghost s = self.active_clients();
        let mut best: Option<Client> = None;
        let mut best_dist: i128 = 0;
        let mut idx: usize = 0;
        while idx < items.len()
            invariant
                items@ == s,
                idx <= items@.len(),
                best == closest_in(s.take(idx as int), refc, direction),
                match best {
                    Some(b) => best_dist == dist2(b.pos, refc.pos),
                    None => true,
                },
            decreases items@.len() - idx,
        {
            let c = items[idx].1;
            proof {
                assert(s.take(idx as int + 1).drop_last() =~= s.take(idx as int));
                assert(s.take(idx as int + 1).last() == s[idx as int]);
            }
            if c.window != refc.window && side_check(c, refc, direction) {
                let d = dist2_i128(c.pos, refc.pos);
                match best {
                    None => {
                        best = Some(c);
                        best_dist = d;
                    },
                    Some(_) => {
                        if d < best_dist {
                            best = Some(c);
                            best_dist = d;
                        }
                    },
                }
            }
            idx = idx + 1;
        }
        proof {
            assert(s.take(s.len() as int) =~= s);
        }
        best
    }

    /// Focus the client a selector resolves to, rotating the previous focus
    /// into last-focus. Selecting the root window clears focus instead.
    ///
    /// Fails with `ClientNotFound` when the selector resolves to nothing.
    pub fn focus_client(&mut self, selector: WindowSelector) -> (r: Result<Option<u32>, Error>)
        requires
            old(self).wf(),
            !window_selector_cycles(selector),
        ensures
            final(self).wf(),
            keeps_frame(*old(self), *final(self)),
            final(self).workspaces == old(self).workspaces,
            final(self).active_workspace == old(self).active_workspace,
            ({
                let st = *old(self);
                if selector_is_root(selector, st.root) {
                    &&& r == Ok::<Option<u32>, Error>(None)
                    &&& final(self).focused is None
                    &&& final(self).last_focused == st.focused
                } else {
                    match spec_select(st, selector) {
                        Some(c) => {
                            &&& r == Ok::<Option<u32>, Error>(Some(c.window))
                            &&& final(self).focused == Some(c.window)
                            &&& final(self).last_focused == st.focused
                        },
                        None => {
                            &&& r == Err::<Option<u32>, Error>(Error::ClientNotFound)
                            &&& *final(self) == *old(self)
                        },
                    }
                }
            }),
    {
        // Root window focus is used to unfocus the current window.
        match selector {
            WindowSelector::Window(w) => {
                if w == self.root {
                    self.set_focused(None);
                    return Ok(None);
                }
            },
            _ => {},
        }
        match self.select_client(selector) {
            Ok(c) => {
                proof {
                    lemma_spec_select_in_active(*self, selector);
                }
                self.set_focused(Some(c.window));
                Ok(Some(c.window))
            },
            Err(e) => Err(e),
        }
    }

    /// Focus the closest client, in the given direction, to the one the
    /// selector resolves to. When no client qualifies, returns `Ok(None)`
    /// and leaves focus unchanged.
    ///
    /// Fails with `ClientNotFound` when the selector resolves to nothing.
    pub fn focus_closest_client(
        &mut self,
        selector: WindowSelector,
        direction: CardinalDirection,
    ) -> (r: Result<Option<u32>, Error>)
        requires
            old(self).wf(),
            !window_selector_cycles(selector),
        ensures
            final(self).wf(),
            keeps_frame(*old(self), *final(self)),
            final(self).workspaces == old(self).workspaces,
            final(self).active_workspace == old(self).active_workspace,
            ({
                let st = *old(self);
                match spec_select(st, selector) {
                    None => {
                        &&& r == Err::<Option<u32>, Error>(Error::ClientNotFound)
                        &&& *final(self) == *old(self)
                    },
                    Some(rc) => match closest_in(st.active_clients(), rc, direction) {
                        None => {
                            &&& r == Ok::<Option<u32>, Error>(None)
                            &&& *final(self) == *old(self)
                        },
                        Some(c) => {
                            &&& r == Ok::<Option<u32>, Error>(Some(c.window))
                            &&& final(self).focused == Some(c.window)
                            &&& final(self).last_focused == st.focused
                        },
                    },
                }
            }),
    {
        let refc = match self.select_client(selector) {
            Ok(c) => c,
            Err(e) => {
                return Err(e);
            },
        };
        match self.closest_of(refc, direction) {
            Some(c) => {
                proof {
                    lemma_closest_pick_in_active(*self, refc, direction);
                }
                self.set_focused(Some(c.window));
                Ok(Some(c.window))
            },
            None => Ok(None),
        }
    }
}

/// True when `c` lies strictly on the `direction` side of `r`.
fn side_check(c: Client, r: Client, direction: CardinalDirection) -> (b: bool)
    ensures
        b == side_ok(c, r, direction),
{
    match direction {
        CardinalDirection::East => c.pos.x > r.pos.x,
        CardinalDirection::West => c.pos.x < r.pos.x,
        CardinalDirection::North => c.pos.y < r.pos.y,
        CardinalDirection::South => c.pos.y > r.pos.y,
    }
}

/// Squared distance, computed wide enough that it cannot overflow.
fn dist2_i128(a: Vector2D, b: Vector2D) -> (d: i128)
    ensures
        d == dist2(a, b),
{
    let dx: i128 = (a.x as i128) - (b.x as i128);
    let dy: i128 = (a.y as i128) - (b.y as i128);
    proof {
        assert(dx * dx <= 0x10000000000000000i128 && dx * dx >= 0) by (nonlinear_arith)
            requires
                -0x100000000i128 <= dx <= 0x100000000i128,
        ;
        assert(dy * dy <= 0x10000000000000000i128 && dy * dy >= 0) by (nonlinear_arith)
            requires
                -0x100000000i128 <= dy <= 0x100000000i128,
        ;
    }
    dx * dx + dy * dy
}

/// Well-formedness carries over to a state with the same workspaces, the
/// same active index, and the same (or cleared) focus.
proof fn lemma_wf_same_ws(a: State, b: State)
    requires
        a.wf(),
        b.ws() == a.ws(),
        (b.active_workspace as int) < b.ws().len(),
        match b.focused {
            Some(w) => b.active_workspace == a.active_workspace && has_ckey(
                a.active_clients(),
                w,
            ),
            None => true,
        },
    ensures
        b.wf(),
{
    assert forall|j: int| 0 <= j < b.ws().len() implies ckeys_unique(
        #[trigger] b.clients_of(j),
    ) by {
        assert(b.clients_of(j) == a.clients_of(j));
    }
    assert forall|j: int, i: int|
        0 <= j < b.ws().len() && 0 <= i < b.clients_of(j).len() implies (#[trigger] b.clients_of(
        j,
    )[i]).0 == b.clients_of(j)[i].1.window by {
        assert(b.clients_of(j) == a.clients_of(j));
    }
    match b.focused {
        Some(w) => {
            assert(b.active_clients() == a.active_clients());
        },
        None => {},
    }
}

/// Well-formedness carries over to a state whose only change is the active
/// workspace's client list, provided that list is itself well formed and
/// still holds the focused window.
proof fn lemma_wf_update_active(a: State, b: State, t: Seq<(u32, Client)>)
    requires
        a.wf(),
        updates_active_clients(a, b, t),
        ckeys_unique(t),
        forall|i: int| 0 <= i < t.len() ==> (#[trigger] t[i]).0 == t[i].1.window,
        match b.focused {
            Some(w) => has_ckey(t, w),
            None => true,
        },
    ensures
        b.wf(),
{
    assert forall|i: int, j: int| 0 <= i < j < b.ws().len() implies b.ws()[i].0@ != b.ws()[j].0@
    by {
        assert(b.ws()[i].0 == a.ws()[i].0);
        assert(b.ws()[j].0 == a.ws()[j].0);
    }
    assert forall|j: int| 0 <= j < b.ws().len() implies ckeys_unique(
        #[trigger] b.clients_of(j),
    ) by {
        if j == a.active_workspace as int {
            assert(b.clients_of(j) == t);
        } else {
            assert(b.ws()[j] == a.ws()[j]);
            assert(b.clients_of(j) == a.clients_of(j));
        }
    }
    assert forall|j: int, i: int|
        0 <= j < b.ws().len() && 0 <= i < b.clients_of(j).len() implies (#[trigger] b.clients_of(
        j,
    )[i]).0 == b.clients_of(j)[i].1.window by {
        if j == a.active_workspace as int {
            assert(b.clients_of(j) == t);
        } else {
            assert(b.ws()[j] == a.ws()[j]);
            assert(b.clients_of(j) == a.clients_of(j));
        }
    }
}

/// A fresh name keeps the names unique when pushed.
proof fn lemma_wkeys_unique_push(s: Seq<(String, Workspace)>, e: (String, Workspace))
    requires
        wkeys_unique(s),
        !has_wkey(s, e.0@),
    ensures
        wkeys_unique(s.push(e)),
{
    let r = s.push(e);
    assert forall|i: int, j: int| 0 <= i < j < r.len() implies r[i].0@ != r[j].0@ by {
        if j < s.len() {
            assert(r[i] == s[i] && r[j] == s[j]);
        } else {
            assert(r[i] == s[i] && r[j] == e);
            if s[i].0@ == e.0@ {
                assert(has_wkey(s, e.0@));
            }
        }
    }
}

/// Renaming one entry to a name used nowhere else keeps the names unique.
proof fn lemma_wkeys_unique_rename(s: Seq<(String, Workspace)>, t: int, e: (String, Workspace))
    requires
        0 <= t < s.len(),
        wkeys_unique(s),
        !has_wkey(s, e.0@) || wkey_index(s, e.0@) == t,
    ensures
        wkeys_unique(s.update(t, e)),
{
    let r = s.update(t, e);
    assert forall|i: int, j: int| 0 <= i < j < r.len() implies r[i].0@ != r[j].0@ by {
        if i != t && j != t {
            assert(r[i] == s[i] && r[j] == s[j]);
        } else {
            let k = if i == t {
                j
            } else {
                i
            };
            assert(r[k] == s[k]);
            if s[k].0@ == e.0@ {
                assert(has_wkey(s, e.0@));
                assert(wkey_index(s, e.0@) == t);
                if k < t {
                    assert(s[k].0@ != s[t].0@);
                } else {
                    assert(s[t].0@ != s[k].0@);
                }
                assert(false);
            }
        }
    }
}

/// With unique names, the entry found at `i` is the one `wkey_index` picks.
proof fn lemma_wkey_index_is(s: Seq<(String, Workspace)>, n: Seq<char>, i: int)
    requires
        wkeys_unique(s),
        0 <= i < s.len(),
        s[i].0@ == n,
    ensures
        has_wkey(s, n),
        wkey_index(s, n) == i,
{
    assert(has_wkey(s, n));
    let x = wkey_index(s, n);
    assert(s[x].0@ == n);
    if x < i {
        assert(s[x].0@ != s[i].0@);
    } else if i < x {
        assert(s[i].0@ != s[x].0@);
    }
}

/// Removing an entry and inserting another at the same place is an update.
proof fn lemma_remove_insert_update(s: Seq<(String, Workspace)>, t: int, e: (String, Workspace))
    requires
        0 <= t < s.len(),
    ensures
        s.remove(t).insert(t, e) == s.update(t, e),
{
    assert(s.remove(t).insert(t, e) =~= s.update(t, e));
}

/// Removing entry `t` removes the only occurrence of its name, so a name that
/// was absent, or only present at `t`, is absent afterwards.
proof fn lemma_wkey_absent_after_remove(s: Seq<(String, Workspace)>, t: int, name: Seq<char>)
    requires
        0 <= t < s.len(),
        wkeys_unique(s),
        !has_wkey(s, name) || wkey_index(s, name) == t,
    ensures
        !has_wkey(s.remove(t), name),
{
    let r = s.remove(t);
    assert forall|i: int| 0 <= i < r.len() implies r[i].0@ != name by {
        let oi = if i < t {
            i
        } else {
            i + 1
        };
        assert(r[i] == s[oi]);
        if r[i].0@ == name {
            assert(has_wkey(s, name));
            let k = wkey_index(s, name);
            assert(s[oi].0@ == name && s[k].0@ == name);
            assert(oi == k);
        }
    }
}

/// Removing an entry keeps the remaining names unique.
proof fn lemma_wkeys_unique_remove(s: Seq<(String, Workspace)>, t: int)
    requires
        0 <= t < s.len(),
        wkeys_unique(s),
    ensures
        wkeys_unique(s.remove(t)),
{
    let r = s.remove(t);
    assert forall|i: int, j: int| 0 <= i < j < r.len() implies r[i].0@ != r[j].0@ by {
        let oi = if i < t {
            i
        } else {
            i + 1
        };
        let oj = if j < t {
            j
        } else {
            j + 1
        };
        assert(r[i] == s[oi] && r[j] == s[oj]);
    }
}

/// A window just added to a client list is present in it, so adding the
/// same window again must fail with `ClientAlreadyExists`.
pub proof fn lemma_added_client_collides(s: Seq<(u32, Client)>, window: u32, c: Client)
    ensures
        has_ckey(s.push((window, c)), window),
{
    assert(s.push((window, c))[s.len() as int].0 == window);
}

/// With unique window ids, the entry found at `i` is the one `ckey_index`
/// picks.
proof fn lemma_ckey_index_is(s: Seq<(u32, Client)>, w: u32, i: int)
    requires
        ckeys_unique(s),
        0 <= i < s.len(),
        s[i].0 == w,
    ensures
        has_ckey(s, w),
        ckey_index(s, w) == i,
{
    assert(has_ckey(s, w));
    let x = ckey_index(s, w);
    assert(s[x].0 == w);
    if x < i {
        assert(s[x].0 != s[i].0);
    } else if i < x {
        assert(s[i].0 != s[x].0);
    }
}

/// A fresh window id keeps the ids unique when pushed.
proof fn lemma_ckeys_unique_push(s: Seq<(u32, Client)>, e: (u32, Client))
    requires
        ckeys_unique(s),
        !has_ckey(s, e.0),
    ensures
        ckeys_unique(s.push(e)),
{
    let r = s.push(e);
    assert forall|i: int, j: int| 0 <= i < j < r.len() implies r[i].0 != r[j].0 by {
        if j < s.len() {
            assert(r[i] == s[i] && r[j] == s[j]);
        } else {
            assert(r[i] == s[i] && r[j] == e);
            if s[i].0 == e.0 {
                assert(has_ckey(s, e.0));
            }
        }
    }
}

/// Updating an entry without changing its window id keeps the ids unique.
proof fn lemma_ckeys_unique_update(s: Seq<(u32, Client)>, k: int, e: (u32, Client))
    requires
        ckeys_unique(s),
        0 <= k < s.len(),
        e.0 == s[k].0,
    ensures
        ckeys_unique(s.update(k, e)),
{
    let r = s.update(k, e);
    assert forall|i: int, j: int| 0 <= i < j < r.len() implies r[i].0 != r[j].0 by {
        assert(r[i].0 == s[i].0 && r[j].0 == s[j].0);
    }
}

/// Removing an entry keeps the remaining window ids unique.
proof fn lemma_ckeys_unique_remove(s: Seq<(u32, Client)>, t: int)
    requires
        0 <= t < s.len(),
        ckeys_unique(s),
    ensures
        ckeys_unique(s.remove(t)),
{
    let r = s.remove(t);
    assert forall|i: int, j: int| 0 <= i < j < r.len() implies r[i].0 != r[j].0 by {
        let oi = if i < t {
            i
        } else {
            i + 1
        };
        let oj = if j < t {
            j
        } else {
            j + 1
        };
        assert(r[i] == s[oi] && r[j] == s[oj]);
    }
}

/// A window id present in `s` is present after pushing another entry.
proof fn lemma_has_ckey_push(s: Seq<(u32, Client)>, e: (u32, Client), w: u32)
    requires
        has_ckey(s, w),
    ensures
        has_ckey(s.push(e), w),
{
    let i = choose|i: int| 0 <= i < s.len() && s[i].0 == w;
    assert(s.push(e)[i].0 == w);
}

/// A window id present in `s` is present after an id-preserving update.
proof fn lemma_has_ckey_update(s: Seq<(u32, Client)>, k: int, e: (u32, Client), w: u32)
    requires
        has_ckey(s, w),
        0 <= k < s.len(),
        e.0 == s[k].0,
    ensures
        has_ckey(s.update(k, e), w),
{
    let i = choose|i: int| 0 <= i < s.len() && s[i].0 == w;
    assert(s.update(k, e)[i].0 == w);
}

/// A window id other than the removed entry's stays present.
proof fn lemma_has_ckey_remove(s: Seq<(u32, Client)>, t: int, w: u32)
    requires
        0 <= t < s.len(),
        has_ckey(s, w),
        s[t].0 != w,
    ensures
        has_ckey(s.remove(t), w),
{
    let i = choose|i: int| 0 <= i < s.len() && s[i].0 == w;
    let r = s.remove(t);
    if i < t {
        assert(r[i].0 == w);
    } else {
        assert(r[i - 1] == s[i]);
        assert(r[i - 1].0 == w);
    }
}

/// Whatever the scan selects is an entry of the scanned sequence.
proof fn lemma_closest_in_mem(s: Seq<(u32, Client)>, refc: Client, direction: CardinalDirection)
    ensures
        match closest_in(s, refc, direction) {
            Some(c) => exists|i: int| 0 <= i < s.len() && s[i].1 == c,
            None => true,
        },
    decreases s.len(),
{
    if s.len() > 0 {
        lemma_closest_in_mem(s.drop_last(), refc, direction);
        match closest_in(s.drop_last(), refc, direction) {
            Some(b) => {
                let i = choose|i: int| 0 <= i < s.drop_last().len() && s.drop_last()[i].1 == b;
                assert(s[i].1 == b);
            },
            None => {},
        }
        match closest_in(s, refc, direction) {
            Some(c) => {
                if c == s.last().1 {
                    assert(s[s.len() - 1].1 == c);
                }
            },
            None => {},
        }
    }
}

/// The scan's pick carries a window id present in the active workspace.
proof fn lemma_closest_pick_in_active(st: State, refc: Client, direction: CardinalDirection)
    requires
        st.wf(),
    ensures
        match closest_in(st.active_clients(), refc, direction) {
            Some(c) => has_ckey(st.active_clients(), c.window),
            None => true,
        },
{
    lemma_closest_in_mem(st.active_clients(), refc, direction);
    match closest_in(st.active_clients(), refc, direction) {
        Some(c) => {
            let s0 = st.active_clients();
            let i = choose|i: int| 0 <= i < s0.len() && s0[i].1 == c;
            assert((st.clients_of(st.active_workspace as int)[i]).0 == st.clients_of(
                st.active_workspace as int,
            )[i].1.window);
            assert(s0[i].0 == c.window);
        },
        None => {},
    }
}

/// Whatever a selector resolves to carries a window id present in the active
/// workspace.
proof fn lemma_spec_select_in_active(st: State, sel: WindowSelector)
    requires
        st.wf(),
    ensures
        match spec_select(st, sel) {
            Some(c) => has_ckey(st.active_clients(), c.window),
            None => true,
        },
{
    let s0 = st.active_clients();
    match sel {
        WindowSelector::Focused | WindowSelector::Window(_) => {
            match spec_select(st, sel) {
                Some(c) => {
                    let w = match sel {
                        WindowSelector::Focused => st.focused->Some_0,
                        WindowSelector::Window(w) => w,
                        _ => arbitrary(),
                    };
                    let k = ckey_index(s0, w);
                    assert((st.clients_of(st.active_workspace as int)[k]).0 == st.clients_of(
                        st.active_workspace as int,
                    )[k].1.window);
                    assert(s0[k].0 == c.window);
                },
                None => {},
            }
        },
        WindowSelector::Closest(d) => {
            match st.focused {
                Some(w) => {
                    match spec_lookup(s0, w) {
                        Some(rc) => {
                            lemma_closest_pick_in_active(st, rc, d);
                        },
                        None => {},
                    }
                },
                None => {},
            }
        },
        WindowSelector::Cycle(_) => {},
    }
}

} // verus!

