//! The dispatch loop's decisions, as pure functions from registry state and
//! input (a protocol event or a remote command) to the next state and a list
//! of protocol requests to issue. The process plumbing performs each
//! [`Action`] against the display server and feeds the next input back in;
//! everything decided here is verified.

use vstd::prelude::*;

use crate::commands::{command_cycles, Command, WindowSelector, WorkspaceSelector};
use crate::config::Config;
use crate::ordmap::{ckey_index, has_ckey};
use crate::state::{
    keeps_focus, keeps_frame, resolve_workspace, selector_is_root, spec_lookup, spec_select,
    updates_active_clients, Client, Error, State,
};
use crate::vector::Vector2D;

verus! {

/// One protocol request the loop asks the plumbing to issue. `GrabButtons`
/// stands for the three pointer-button grabs (select, drag, resize) under
/// the configured modifier, together with the event-allow that follows the
/// first; `SubscribeEvents` for the substructure notify/redirect mask.
#[derive(Debug, Clone, PartialEq, Eq)]
pub enum Action {
    MoveWindow { window: u32, x: i32, y: i32 },
    ResizeWindow { window: u32, width: u32, height: u32 },
    ConfigureVerbatim {
        window: u32,
        x: i32,
        y: i32,
        width: u32,
        height: u32,
        border_width: u32,
        stack_mode: u32,
    },
    SetWindowBorderWidth { window: u32, width: u32 },
    SetWindowBorderColor { window: u32, color: u32 },
    SetInputFocus { window: u32 },
    RaiseWindow { window: u32 },
    MapWindow { window: u32 },
    UnmapWindow { window: u32 },
    AddToSaveSet { window: u32 },
    ReparentToRoot { window: u32 },
    SubscribeEvents { window: u32 },
    GrabButtons { window: u32 },
    SetActiveWindow { window: u32 },
    SetCurrentDesktop { index: u32 },
    SetNumberOfDesktops { count: u32 },
    SetDesktopNames { names: Vec<String> },
    CloseWindow { window: u32 },
    SendDeleteMessage { window: u32 },
    KillClient { window: u32 },
}

/// What handling one remote command comes to: stop serving, issue these
/// requests, or log the registry error and carry on.
#[derive(Debug, PartialEq, Eq)]
pub enum Reaction {
    Quit,
    Do(Vec<Action>),
    Rejected(Error),
}

/// A protocol event, already read and decoded by the plumbing: window ids
/// and coordinates as the server reported them, with the two property
/// lookups the decisions need (window type, button) folded into plain
/// fields.
#[derive(Debug, Clone, Copy, PartialEq, Eq, Structural)]
pub enum Event {
    ButtonPress {
        window: u32,
        root_x: i16,
        root_y: i16,
        frame_x: i16,
        frame_y: i16,
        is_select_button: bool,
    },
    Motion {
        window: u32,
        root_x: i16,
        root_y: i16,
        mod_held: bool,
        drag_held: bool,
        resize_held: bool,
    },
    ConfigureRequest {
        window: u32,
        is_dock: bool,
        x: i16,
        y: i16,
        width: u16,
        height: u16,
        stack_mode: u32,
    },
    MapRequest { window: u32, is_dock: bool, x: i16, y: i16, width: u16, height: u16 },
    DestroyNotify { window: u32 },
    CurrentDesktopMessage { index: u32 },
}

/// The requests that focus a window: restore the previous border, focus,
/// recolor, raise, and advertise the active window, in the order the
/// protocol side expects them.
pub open spec fn focus_actions(last_focused: Option<u32>, window: u32, cfg: Config) -> Seq<
    Action,
> {
    let tail = seq![
        Action::SetInputFocus { window },
        Action::SetWindowBorderColor { window, color: cfg.focused_border_color },
        Action::SetInputFocus { window },
        Action::RaiseWindow { window },
        Action::SetActiveWindow { window },
    ];
    match last_focused {
        Some(l) => seq![Action::SetWindowBorderColor { window: l, color: cfg.border_color }]
            + tail,
        None => tail,
    }
}

/// One unmap request per entry, in order.
pub open spec fn unmap_all(s: Seq<(u32, Client)>) -> Seq<Action> {
    s.map_values(|e: (u32, Client)| Action::UnmapWindow { window: e.0 })
}

/// One map request per entry, in order.
pub open spec fn map_all(s: Seq<(u32, Client)>) -> Seq<Action> {
    s.map_values(|e: (u32, Client)| Action::MapWindow { window: e.0 })
}

/// One border-width request per entry, in order.
pub open spec fn border_width_all(s: Seq<(u32, Client)>, width: u32) -> Seq<Action> {
    s.map_values(|e: (u32, Client)| Action::SetWindowBorderWidth { window: e.0, width })
}

/// One border-color request per entry except the focused window, in order.
pub open spec fn recolor_except(s: Seq<(u32, Client)>, focused: Option<u32>, color: u32) -> Seq<
    Action,
>
    decreases s.len(),
{
    if s.len() == 0 {
        Seq::empty()
    } else {
        let rest = recolor_except(s.drop_last(), focused, color);
        if focused == Some(s.last().0) {
            rest
        } else {
            rest.push(Action::SetWindowBorderColor { window: s.last().0, color })
        }
    }
}

/// The requests that manage a freshly mapped window, after the map request
/// itself: border, event subscription, save-set, reparenting, focus, grabs.
pub open spec fn manage_actions(window: u32, cfg: Config) -> Seq<Action> {
    seq![
        Action::SetWindowBorderWidth { window, width: cfg.border_width },
        Action::SetWindowBorderColor { window, color: cfg.border_color },
        Action::SubscribeEvents { window },
        Action::AddToSaveSet { window },
        Action::ReparentToRoot { window },
        Action::SetInputFocus { window },
        Action::GrabButtons { window },
    ]
}

/// Build the focus request list.
fn build_focus_actions(last_focused: Option<u32>, window: u32, config: &Config) -> (r: Vec<
    Action,
>)
    ensures
        r@ == focus_actions(last_focused, window, *config),
{
    let mut r: Vec<Action> = Vec::new();
    match last_focused {
        Some(l) => {
            r.push(Action::SetWindowBorderColor { window: l, color: config.border_color });
        },
        None => {},
    }
    r.push(Action::SetInputFocus { window });
    r.push(Action::SetWindowBorderColor { window, color: config.focused_border_color });
    r.push(Action::SetInputFocus { window });
    r.push(Action::RaiseWindow { window });
    r.push(Action::SetActiveWindow { window });
    proof {
        assert(r@ =~= focus_actions(last_focused, window, *config));
    }
    r
}

/// Advertise the desktop count and names, for startup and after any change
/// to the workspace list.
pub fn refresh_workspaces_actions(state: &State) -> (r: Vec<Action>)
    requires
        state.wf(),
        state.ws().len() <= 0xffff_ffff,
    ensures
        r@.len() == 2,
        r@[0] == (Action::SetNumberOfDesktops { count: state.ws().len() as u32 }),
        r@[1] matches Action::SetDesktopNames { names } && names@.len() == state.ws().len()
            && (forall|i: int| 0 <= i < names@.len() ==> names@[i] == state.ws()[i].0),
{
    let names = state.workspaces_names();
    let count = names.len() as u32;
    let mut r: Vec<Action> = Vec::new();
    r.push(Action::SetNumberOfDesktops { count });
    r.push(Action::SetDesktopNames { names });
    r
}

/// Append one unmap request per entry of `items`.
fn push_unmaps(out: &mut Vec<Action>, items: &Vec<(u32, Client)>)
    ensures
        final(out)@ == old(out)@ + unmap_all(items@),
{
    let mut i: usize = 0;
    while i < items.len()
        invariant
            i <= items@.len(),
            out@ == old(out)@ + unmap_all(items@.take(i as int)),
        decreases items@.len() - i,
    {
        out.push(Action::UnmapWindow { window: items[i].0 });
        i = i + 1;
        proof {
            assert(out@ =~= old(out)@ + unmap_all(items@.take(i as int)));
        }
    }
    proof {
        assert(items@.take(items@.len() as int) =~= items@);
    }
}

/// Append one map request per entry of `items`.
fn push_maps(out: &mut Vec<Action>, items: &Vec<(u32, Client)>)
    ensures
        final(out)@ == old(out)@ + map_all(items@),
{
    let mut i: usize = 0;
    while i < items.len()
        invariant
            i <= items@.len(),
            out@ == old(out)@ + map_all(items@.take(i as int)),
        decreases items@.len() - i,
    {
        out.push(Action::MapWindow { window: items[i].0 });
        i = i + 1;
        proof {
            assert(out@ =~= old(out)@ + map_all(items@.take(i as int)));
        }
    }
    proof {
        assert(items@.take(items@.len() as int) =~= items@);
    }
}

/// Decide how to close a window, once the plumbing has looked up whether it
/// takes part in the graceful close protocol: ask politely, or terminate
/// its connection.
pub fn close_action(window: u32, supports_delete: bool) -> (a: Action)
    ensures
        a == if supports_delete {
            (Action::SendDeleteMessage { window })
        } else {
            (Action::KillClient { window })
        },
{
    if supports_delete {
        Action::SendDeleteMessage { window }
    } else {
        Action::KillClient { window }
    }
}

/// Switch workspaces: unmap the clients of the outgoing workspace, move the
/// active index, advertise the new desktop index, then map the clients of
/// the incoming workspace — in that order. A selector that resolves to
/// nothing changes nothing and issues nothing.
pub fn handle_activate(state: &mut State, selector: WorkspaceSelector) -> (r: Result<
    Vec<Action>,
    Error,
>)
    requires
        old(state).wf(),
        old(state).ws().len() <= 0xffff_ffff,
    ensures
        final(state).wf(),
        keeps_frame(*old(state), *final(state)),
        final(state).workspaces == old(state).workspaces,
        match r {
            Ok(acts) => {
                &&& resolve_workspace(old(state).ws(), selector) == Some(
                    final(state).active_workspace as int,
                )
                &&& final(state).focused is None
                &&& final(state).last_focused is None
                &&& acts@ == unmap_all(old(state).active_clients()) + seq![
                    Action::SetCurrentDesktop { index: final(state).active_workspace as u32 },
                ] + map_all(final(state).active_clients())
            },
            Err(e) => {
                &&& e == Error::WorkspaceNotFound
                &&& resolve_workspace(old(state).ws(), selector) is None
                &&& *final(state) == *old(state)
            },
        },
{
    let outgoing = crate::ordmap::cmap_items(state.active_workspace_clients());
    let index = match state.activate_workspace(selector) {
        Ok(i) => i,
        Err(e) => {
            return Err(e);
        },
    };
    let mut acts: Vec<Action> = Vec::new();
    push_unmaps(&mut acts, &outgoing);
    acts.push(Action::SetCurrentDesktop { index: index as u32 });
    let incoming = crate::ordmap::cmap_items(state.active_workspace_clients());
    push_maps(&mut acts, &incoming);
    proof {
        assert(acts@ =~= unmap_all(old(state).active_clients()) + seq![
            Action::SetCurrentDesktop { index: index as u32 },
        ] + map_all(state.active_clients()));
    }
    Ok(acts)
}

/// Append a border-width request for every entry of `items`.
fn push_border_widths(out: &mut Vec<Action>, items: &Vec<(u32, Client)>, width: u32)
    ensures
        final(out)@ == old(out)@ + border_width_all(items@, width),
{
    let mut i: usize = 0;
    while i < items.len()
        invariant
            i <= items@.len(),
            out@ == old(out)@ + border_width_all(items@.take(i as int), width),
        decreases items@.len() - i,
    {
        out.push(Action::SetWindowBorderWidth { window: items[i].0, width });
        i = i + 1;
        proof {
            assert(out@ =~= old(out)@ + border_width_all(items@.take(i as int), width));
        }
    }
    proof {
        assert(items@.take(items@.len() as int) =~= items@);
    }
}

/// Append a border-color request for every entry of `items` but the focused
/// window.
fn push_recolors(out: &mut Vec<Action>, items: &Vec<(u32, Client)>, focused: Option<u32>, color: u32)
    ensures
        final(out)@ == old(out)@ + recolor_except(items@, focused, color),
{
    let mut i: usize = 0;
    while i < items.len()
        invariant
            i <= items@.len(),
            out@ == old(out)@ + recolor_except(items@.take(i as int), focused, color),
        decreases items@.len() - i,
    {
        proof {
            assert(items@.take(i as int + 1).drop_last() =~= items@.take(i as int));
            assert(items@.take(i as int + 1).last() == items@[i as int]);
        }
        let skip = match focused {
            Some(f) => f == items[i].0,
            None => false,
        };
        if !skip {
            out.push(Action::SetWindowBorderColor { window: items[i].0, color });
        }
        i = i + 1;
        proof {
            assert(out@ =~= old(out)@ + recolor_except(items@.take(i as int), focused, color));
        }
    }
    proof {
        assert(items@.take(items@.len() as int) =~= items@);
    }
}

/// Apply one protocol event to the registry and say what requests to issue.
/// An error out of here is fatal to the serve loop, except for a destroy
/// notification racing a removal, which is swallowed.
pub fn handle_event(state: &mut State, config: &Config, ev: Event) -> (r: Result<
    Vec<Action>,
    Error,
>)
    requires
        old(state).wf(),
        match ev {
            Event::Motion { window, root_x, root_y, .. } => {
                &&& -0x8000 <= old(state).drag_start_pos.x <= 0x7fff
                &&& -0x8000 <= old(state).drag_start_pos.y <= 0x7fff
                &&& -0x8000 <= old(state).drag_start_frame_pos.x <= 0x7fff
                &&& -0x8000 <= old(state).drag_start_frame_pos.y <= 0x7fff
                &&& (has_ckey(old(state).active_clients(), window) ==> ({
                    let c0 = old(state).active_clients()[ckey_index(
                        old(state).active_clients(),
                        window,
                    )].1;
                    &&& i32::MIN <= root_x - c0.pos.x <= i32::MAX
                    &&& i32::MIN <= root_y - c0.pos.y <= i32::MAX
                }))
            },
            Event::CurrentDesktopMessage { .. } => old(state).ws().len() <= 0xffff_ffff,
            _ => true,
        },
    ensures
        final(state).wf(),
        match ev {
            Event::ButtonPress { window, root_x, root_y, frame_x, frame_y, is_select_button } => ({
                let st = *old(state);
                &&& final(state).drag_start_pos == (Vector2D {
                    x: root_x as i32,
                    y: root_y as i32,
                })
                &&& final(state).drag_start_frame_pos == (Vector2D {
                    x: frame_x as i32,
                    y: frame_y as i32,
                })
                &&& final(state).workspaces == st.workspaces
                &&& final(state).active_workspace == st.active_workspace
                &&& final(state).root == st.root
                &&& final(state).child == st.child
                &&& final(state).monitor_size == st.monitor_size
                &&& if !is_select_button {
                    &&& r matches Ok(acts) && acts@ == Seq::<Action>::empty()
                    &&& final(state).focused == st.focused
                    &&& final(state).last_focused == st.last_focused
                } else if window == st.root {
                    &&& final(state).focused is None
                    &&& final(state).last_focused == st.focused
                    &&& r matches Ok(acts) && acts@ == focus_actions(st.focused, window, *config)
                } else {
                    match spec_lookup(st.active_clients(), window) {
                        Some(c) => {
                            &&& final(state).focused == Some(window)
                            &&& final(state).last_focused == st.focused
                            &&& r matches Ok(acts) && acts@ == focus_actions(
                                st.focused,
                                window,
                                *config,
                            )
                        },
                        None => {
                            &&& r == Err::<Vec<Action>, Error>(Error::ClientNotFound)
                            &&& final(state).focused == st.focused
                            &&& final(state).last_focused == st.last_focused
                        },
                    }
                }
            }),
            Event::Motion { window, root_x, root_y, mod_held, drag_held, resize_held } => ({
                let st = *old(state);
                &&& keeps_frame(st, *final(state))
                &&& if !mod_held || (!drag_held && !resize_held) {
                    &&& r matches Ok(acts) && acts@ == Seq::<Action>::empty()
                    &&& *final(state) == st
                } else {
                    match spec_lookup(st.active_clients(), window) {
                        None => {
                            &&& r == Err::<Vec<Action>, Error>(Error::ClientNotFound)
                            &&& *final(state) == st
                        },
                        Some(c0) => ({
                            let k = ckey_index(st.active_clients(), window);
                            if drag_held {
                                let px = st.drag_start_frame_pos.x + root_x
                                    - st.drag_start_pos.x;
                                let py = st.drag_start_frame_pos.y + root_y
                                    - st.drag_start_pos.y;
                                &&& r matches Ok(acts) && acts@ == seq![
                                    Action::MoveWindow { window, x: px as i32, y: py as i32 },
                                ]
                                &&& updates_active_clients(
                                    st,
                                    *final(state),
                                    st.active_clients().update(
                                        k,
                                        (
                                            window,
                                            (Client {
                                                window,
                                                pos: (Vector2D { x: px as i32, y: py as i32 }),
                                                size: c0.size,
                                            }),
                                        ),
                                    ),
                                )
                                &&& keeps_focus(st, *final(state))
                            } else {
                                let sx = if root_x - c0.pos.x >= 32 {
                                    root_x - c0.pos.x
                                } else {
                                    32
                                };
                                let sy = if root_y - c0.pos.y >= 32 {
                                    root_y - c0.pos.y
                                } else {
                                    32
                                };
                                &&& r matches Ok(acts) && acts@ == seq![
                                    Action::ResizeWindow {
                                        window,
                                        width: sx as u32,
                                        height: sy as u32,
                                    },
                                ]
                                &&& updates_active_clients(
                                    st,
                                    *final(state),
                                    st.active_clients().update(
                                        k,
                                        (
                                            window,
                                            (Client {
                                                window,
                                                pos: c0.pos,
                                                size: (Vector2D {
                                                    x: sx as i32,
                                                    y: sy as i32,
                                                }),
                                            }),
                                        ),
                                    ),
                                )
                                &&& keeps_focus(st, *final(state))
                            }
                        }),
                    }
                }
            }),
            Event::ConfigureRequest { window, is_dock, x, y, width, height, stack_mode } => {
                &&& *final(state) == *old(state)
                &&& r matches Ok(acts) && acts@ == (if is_dock {
                    Seq::<Action>::empty()
                } else {
                    seq![
                        Action::ConfigureVerbatim {
                            window,
                            x: x as i32,
                            y: y as i32,
                            width: width as u32,
                            height: height as u32,
                            border_width: config.border_width,
                            stack_mode,
                        },
                    ]
                })
            },
            Event::MapRequest { window, is_dock, x, y, width, height } => ({
                let st = *old(state);
                if is_dock {
                    &&& r matches Ok(acts) && acts@ == seq![Action::MapWindow { window }]
                    &&& *final(state) == st
                } else if has_ckey(st.active_clients(), window) {
                    &&& r == Err::<Vec<Action>, Error>(Error::ClientAlreadyExists)
                    &&& *final(state) == st
                } else {
                    &&& updates_active_clients(
                        st,
                        *final(state),
                        st.active_clients().push(
                            (
                                window,
                                (Client {
                                    window,
                                    pos: (Vector2D { x: x as i32, y: y as i32 }),
                                    size: (Vector2D { x: width as i32, y: height as i32 }),
                                }),
                            ),
                        ),
                    )
                    &&& keeps_focus(st, *final(state))
                    &&& keeps_frame(st, *final(state))
                    &&& r matches Ok(acts) && acts@ == seq![Action::MapWindow { window }]
                        + manage_actions(window, *config)
                }
            }),
            Event::DestroyNotify { window } => ({
                let st = *old(state);
                &&& r matches Ok(acts) && acts@ == Seq::<Action>::empty()
                &&& keeps_frame(st, *final(state))
                &&& if has_ckey(st.active_clients(), window) {
                    &&& updates_active_clients(
                        st,
                        *final(state),
                        st.active_clients().remove(ckey_index(st.active_clients(), window)),
                    )
                    &&& final(state).focused == (if st.focused == Some(window) {
                        None::<u32>
                    } else {
                        st.focused
                    })
                    &&& final(state).last_focused == st.last_focused
                } else {
                    *final(state) == st
                }
            }),
            Event::CurrentDesktopMessage { index } => ({
                let st = *old(state);
                &&& final(state).workspaces == st.workspaces
                &&& keeps_frame(st, *final(state))
                &&& match resolve_workspace(st.ws(), WorkspaceSelector::Index(index as usize)) {
                    None => {
                        &&& r == Err::<Vec<Action>, Error>(Error::WorkspaceNotFound)
                        &&& *final(state) == st
                    },
                    Some(t) => {
                        &&& final(state).active_workspace as int == t
                        &&& final(state).focused is None
                        &&& r matches Ok(acts) && acts@ == unmap_all(st.active_clients())
                            + seq![Action::SetCurrentDesktop { index: t as u32 }] + map_all(
                            final(state).active_clients(),
                        )
                    },
                }
            }),
        },
{
    match ev {
        Event::ButtonPress { window, root_x, root_y, frame_x, frame_y, is_select_button } => {
            state.drag_start_pos = Vector2D::new(root_x as i32, root_y as i32);
            state.drag_start_frame_pos = Vector2D::new(frame_x as i32, frame_y as i32);
            proof {
                lemma_wf_anchors(*old(state), *state);
                assert(state.active_clients() == old(state).active_clients());
            }
            if is_select_button {
                proof {
                    let s0 = old(state).active_clients();
                    if has_ckey(s0, window) {
                        let k = ckey_index(s0, window);
                        assert((old(state).clients_of(old(state).active_workspace as int)[k]).0
                            == old(state).clients_of(old(state).active_workspace as int)[
                            k].1.window);
                    }
                }
                match state.focus_client(WindowSelector::Window(window)) {
                    Ok(_) => Ok(build_focus_actions(state.last_focused(), window, config)),
                    Err(e) => Err(e),
                }
            } else {
                Ok(Vec::new())
            }
        },
        Event::Motion { window, root_x, root_y, mod_held, drag_held, resize_held } => {
            if !mod_held {
                return Ok(Vec::new());
            }
            let mouse = Vector2D::new(root_x as i32, root_y as i32);
            if drag_held {
                match state.drag_client(window, mouse) {
                    Ok(p) => {
                        let mut acts: Vec<Action> = Vec::new();
                        acts.push(Action::MoveWindow { window, x: p.x, y: p.y });
                        proof {
                            lemma_lookup_of_has(old(state).active_clients(), window);
                            assert(acts@ =~= seq![
                                Action::MoveWindow { window, x: p.x, y: p.y },
                            ]);
                        }
                        Ok(acts)
                    },
                    Err(e) => Err(e),
                }
            } else if resize_held {
                match state.drag_resize_client(window, mouse) {
                    Ok(sz) => {
                        let mut acts: Vec<Action> = Vec::new();
                        acts.push(
                            Action::ResizeWindow {
                                window,
                                width: sz.x as u32,
                                height: sz.y as u32,
                            },
                        );
                        proof {
                            lemma_lookup_of_has(old(state).active_clients(), window);
                            assert(acts@ =~= seq![
                                Action::ResizeWindow {
                                    window,
                                    width: sz.x as u32,
                                    height: sz.y as u32,
                                },
                            ]);
                        }
                        Ok(acts)
                    },
                    Err(e) => Err(e),
                }
            } else {
                Ok(Vec::new())
            }
        },
        Event::ConfigureRequest { window, is_dock, x, y, width, height, stack_mode } => {
            let mut acts: Vec<Action> = Vec::new();
            if !is_dock {
                acts.push(
                    Action::ConfigureVerbatim {
                        window,
                        x: x as i32,
                        y: y as i32,
                        width: width as u32,
                        height: height as u32,
                        border_width: config.border_width,
                        stack_mode,
                    },
                );
            }
            Ok(acts)
        },
        Event::MapRequest { window, is_dock, x, y, width, height } => {
            let mut acts: Vec<Action> = Vec::new();
            acts.push(Action::MapWindow { window });
            if is_dock {
                return Ok(acts);
            }
            match state.add_client(
                window,
                Vector2D::new(x as i32, y as i32),
                Vector2D::new(width as i32, height as i32),
            ) {
                Ok(()) => {
                    acts.push(
                        Action::SetWindowBorderWidth { window, width: config.border_width },
                    );
                    acts.push(
                        Action::SetWindowBorderColor { window, color: config.border_color },
                    );
                    acts.push(Action::SubscribeEvents { window });
                    acts.push(Action::AddToSaveSet { window });
                    acts.push(Action::ReparentToRoot { window });
                    acts.push(Action::SetInputFocus { window });
                    acts.push(Action::GrabButtons { window });
                    proof {
                        assert(acts@ =~= seq![Action::MapWindow { window }] + manage_actions(
                            window,
                            *config,
                        ));
                    }
                    Ok(acts)
                },
                Err(e) => Err(e),
            }
        },
        Event::DestroyNotify { window } => {
            // A destroy notification can race a manager-initiated removal:
            // a missing client is logged by the caller, never fatal.
            let _ = state.remove_client(window);
            Ok(Vec::new())
        },
        Event::CurrentDesktopMessage { index } => {
            match handle_activate(state, WorkspaceSelector::Index(index as usize)) {
                Ok(acts) => Ok(acts),
                Err(e) => Err(e),
            }
        },
    }
}

/// Updating only the gesture anchors keeps the registry well formed.
proof fn lemma_wf_anchors(a: State, b: State)
    requires
        a.wf(),
        b.workspaces == a.workspaces,
        b.active_workspace == a.active_workspace,
        b.focused == a.focused,
    ensures
        b.wf(),
{
    assert forall|j: int| 0 <= j < b.ws().len() implies crate::ordmap::ckeys_unique(
        #[trigger] b.clients_of(j),
    ) by {
        assert(b.clients_of(j) == a.clients_of(j));
    }
    assert forall|j: int, i: int|
        0 <= j < b.ws().len() && 0 <= i < b.clients_of(j).len() implies (#[trigger] b.clients_of(
        j,
    )[i]).0 == b.clients_of(j)[i].1.window by {
        assert(b.clients_of(j) == a.clients_of(j));
    }
    assert(b.active_clients() == a.active_clients());
}

/// When a window id is present, the stored client's own id is that id.
proof fn lemma_lookup_of_has(s: Seq<(u32, Client)>, w: u32)
    ensures
        match spec_lookup(s, w) {
            Some(c) => has_ckey(s, w),
            None => !has_ckey(s, w),
        },
{
}

/// Apply one remote command to the registry and configuration, and say what
/// requests to issue. Registry errors are reported for logging, never
/// escalated; `Quit` asks the loop to stop.
pub fn handle_command(state: &mut State, config: &mut Config, cmd: Command) -> (r: Reaction)
    requires
        old(state).wf(),
        !command_cycles(cmd),
        old(state).ws().len() < 0xffff_ffff,
    ensures
        final(state).wf(),
        keeps_frame(*old(state), *final(state)),
        match cmd {
            Command::Quit => {
                &&& r == Reaction::Quit
                &&& *final(state) == *old(state)
                &&& *final(config) == *old(config)
            },
            Command::Focus { selector } => {
                &&& *final(config) == *old(config)
                &&& final(state).workspaces == old(state).workspaces
                &&& if selector_is_root(selector, old(state).root) {
                    &&& final(state).focused is None
                    &&& r matches Reaction::Do(acts) && acts@ == focus_actions(
                        old(state).focused,
                        old(state).root,
                        *old(config),
                    )
                } else {
                    match spec_select(*old(state), selector) {
                        Some(c) => {
                            &&& final(state).focused == Some(c.window)
                            &&& final(state).last_focused == old(state).focused
                            &&& r matches Reaction::Do(acts) && acts@ == focus_actions(
                                old(state).focused,
                                c.window,
                                *old(config),
                            )
                        },
                        None => {
                            &&& r == Reaction::Rejected(Error::ClientNotFound)
                            &&& *final(state) == *old(state)
                        },
                    }
                }
            },
            Command::Close { selector } => {
                &&& *final(config) == *old(config)
                &&& *final(state) == *old(state)
                &&& match spec_select(*old(state), selector) {
                    Some(c) => r matches Reaction::Do(acts) && acts@ == seq![
                        Action::CloseWindow { window: c.window },
                    ],
                    None => r == Reaction::Rejected(Error::ClientNotFound),
                }
            },
            Command::AddWorkspace { name } => {
                &&& *final(config) == *old(config)
                &&& ({
                    let nm: Seq<char> = match name {
                        Some(n) => n@,
                        None => crate::numfmt::dec_chars((old(state).ws().len() + 1) as nat),
                    };
                    if crate::ordmap::has_wkey(old(state).ws(), nm) {
                        &&& r == Reaction::Rejected(Error::WorkspaceAlreadyExists)
                        &&& *final(state) == *old(state)
                    } else {
                        &&& final(state).ws().len() == old(state).ws().len() + 1
                        &&& final(state).ws().take(old(state).ws().len() as int) == old(
                            state,
                        ).ws()
                        &&& final(state).ws().last().0@ == nm
                        &&& r matches Reaction::Do(acts) && acts@.len() == 2 && acts@[0]
                            == (Action::SetNumberOfDesktops {
                            count: final(state).ws().len() as u32,
                        }) && (acts@[1] matches Action::SetDesktopNames { names }
                            && names@.len() == final(state).ws().len() && (forall|i: int|
                            0 <= i < names@.len() ==> names@[i] == final(state).ws()[i].0))
                    }
                })
            },
            Command::RenameWorkspace { selector, name } => {
                &&& *final(config) == *old(config)
                &&& match resolve_workspace(old(state).ws(), selector) {
                    None => {
                        &&& r == Reaction::Rejected(Error::WorkspaceNotFound)
                        &&& *final(state) == *old(state)
                    },
                    Some(t) => {
                        if crate::ordmap::has_wkey(old(state).ws(), name@)
                            && crate::ordmap::wkey_index(old(state).ws(), name@) != t {
                            &&& r == Reaction::Rejected(Error::WorkspaceAlreadyExists)
                            &&& *final(state) == *old(state)
                        } else {
                            &&& final(state).ws() == old(state).ws().update(
                                t,
                                (name, old(state).ws()[t].1),
                            )
                            &&& r matches Reaction::Do(acts) && acts@.len() == 2 && acts@[0]
                                == (Action::SetNumberOfDesktops {
                                count: final(state).ws().len() as u32,
                            }) && (acts@[1] matches Action::SetDesktopNames { names }
                                && names@.len() == final(state).ws().len() && (forall|i: int|
                                0 <= i < names@.len() ==> names@[i] == final(state).ws()[i].0))
                        }
                    },
                }
            },
            Command::ActivateWorkspace { selector } => {
                &&& *final(config) == *old(config)
                &&& final(state).workspaces == old(state).workspaces
                &&& match resolve_workspace(old(state).ws(), selector) {
                    None => {
                        &&& r == Reaction::Rejected(Error::WorkspaceNotFound)
                        &&& *final(state) == *old(state)
                    },
                    Some(t) => {
                        &&& final(state).active_workspace as int == t
                        &&& final(state).focused is None
                        &&& r matches Reaction::Do(acts) && acts@ == unmap_all(
                            old(state).active_clients(),
                        ) + seq![Action::SetCurrentDesktop { index: t as u32 }] + map_all(
                            final(state).active_clients(),
                        )
                    },
                }
            },
            Command::SetBorderWidth { width } => {
                &&& *final(state) == *old(state)
                &&& *final(config) == (Config { border_width: width, ..*old(config) })
                &&& r matches Reaction::Do(acts) && acts@ == border_width_all(
                    old(state).active_clients(),
                    width,
                )
            },
            Command::SetBorderColor { color } => {
                &&& *final(state) == *old(state)
                &&& *final(config) == (Config { border_color: color, ..*old(config) })
                &&& r matches Reaction::Do(acts) && acts@ == recolor_except(
                    old(state).active_clients(),
                    old(state).focused,
                    color,
                )
            },
            Command::SetFocusedBorderColor { color } => {
                &&& *final(state) == *old(state)
                &&& *final(config) == (Config { focused_border_color: color, ..*old(config) })
                &&& r matches Reaction::Do(acts) && acts@ == match old(state).focused {
                    Some(w) => seq![Action::SetWindowBorderColor { window: w, color }],
                    None => Seq::<Action>::empty(),
                }
            },
        },
{
    match cmd {
        Command::Quit => Reaction::Quit,
        Command::Focus { selector } => {
            match state.focus_client(selector) {
                Ok(Some(w)) => Reaction::Do(
                    build_focus_actions(state.last_focused(), w, config),
                ),
                Ok(None) => Reaction::Do(
                    build_focus_actions(state.last_focused(), state.root, config),
                ),
                Err(e) => Reaction::Rejected(e),
            }
        },
        Command::Close { selector } => {
            match state.select_client(selector) {
                Ok(c) => {
                    let w = c.window();
                    let mut acts: Vec<Action> = Vec::new();
                    acts.push(Action::CloseWindow { window: w });
                    proof {
                        assert(acts@ =~= seq![
                            Action::CloseWindow {
                                window: spec_select(*old(state), selector)->Some_0.window,
                            },
                        ]);
                    }
                    Reaction::Do(acts)
                },
                Err(e) => Reaction::Rejected(e),
            }
        },
        Command::AddWorkspace { name } => {
            match state.add_workspace(name) {
                Ok(()) => Reaction::Do(refresh_workspaces_actions(state)),
                Err(e) => Reaction::Rejected(e),
            }
        },
        Command::RenameWorkspace { selector, name } => {
            match state.rename_workspace(selector, name) {
                Ok(()) => Reaction::Do(refresh_workspaces_actions(state)),
                Err(e) => Reaction::Rejected(e),
            }
        },
        Command::ActivateWorkspace { selector } => {
            match handle_activate(state, selector) {
                Ok(acts) => Reaction::Do(acts),
                Err(e) => Reaction::Rejected(e),
            }
        },
        Command::SetBorderWidth { width } => {
            config.border_width = width;
            let items = crate::ordmap::cmap_items(state.active_workspace_clients());
            let mut acts: Vec<Action> = Vec::new();
            push_border_widths(&mut acts, &items, width);
            Reaction::Do(acts)
        },
        Command::SetBorderColor { color } => {
            config.border_color = color;
            let items = crate::ordmap::cmap_items(state.active_workspace_clients());
            let mut acts: Vec<Action> = Vec::new();
            push_recolors(&mut acts, &items, state.focused(), color);
            Reaction::Do(acts)
        },
        Command::SetFocusedBorderColor { color } => {
            config.focused_border_color = color;
            let mut acts: Vec<Action> = Vec::new();
            match state.focused() {
                Some(w) => {
                    acts.push(Action::SetWindowBorderColor { window: w, color });
                    proof {
                        assert(acts@ =~= seq![
                            Action::SetWindowBorderColor {
                                window: old(state).focused->Some_0,
                                color,
                            },
                        ]);
                    }
                },
                None => {},
            }
            Reaction::Do(acts)
        },
    }
}

} // verus!
