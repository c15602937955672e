//! One virtual desktop: its clients in tiling order, the focus and the
//! fullscreen mark.

use crate::effect::Window;
use vstd::prelude::*;

verus! {

/// A managed top-level window: its handle, its weight in the layout, and
/// whether the manager believes the server shows it.
#[derive(Clone, Copy, Debug, PartialEq, Eq, Structural)]
pub struct Client {
    pub window: Window,
    pub size: u32,
    pub mapped: bool,
}

impl Client {
    pub fn window(&self) -> (window: Window)
        ensures
            window == self.window,
    {
        self.window
    }

    pub fn size(&self) -> (size: u32)
        ensures
            size == self.size,
    {
        self.size
    }

    pub fn is_mapped(&self) -> (mapped: bool)
        ensures
            mapped == self.mapped,
    {
        self.mapped
    }

    pub fn set_mapped(&mut self, mapped: bool)
        ensures
            *final(self) == (Client { mapped, ..*old(self) }),
    {
        self.mapped = mapped;
    }

    /// Adds to the weight, as far as a `u32` goes.
    pub fn increase_window_size(&mut self, increment: u32)
        ensures
            *final(self) == old(self).heavier(increment),
    {
        self.size = self.size.saturating_add(increment);
    }

    /// Takes from the weight, but never below one.
    pub fn decrease_window_size(&mut self, increment: u32)
        ensures
            *final(self) == old(self).lighter(increment),
            final(self).size >= 1,
    {
        if self.size > increment && self.size - increment >= 1 {
            self.size = self.size - increment;
        } else {
            self.size = 1;
        }
    }

    /// The client with `increment` added to its weight, saturating.
    pub open spec fn heavier(self, increment: u32) -> Client {
        Client {
            size: if self.size + increment <= u32::MAX {
                (self.size + increment) as u32
            } else {
                u32::MAX
            },
            ..self
        }
    }

    /// The client with `increment` taken from its weight, which stays at
    /// least one.
    pub open spec fn lighter(self, increment: u32) -> Client {
        Client {
            size: if self.size - increment >= 1 {
                (self.size - increment) as u32
            } else {
                1
            },
            ..self
        }
    }
}

/// The client at position `i` is the first mapped one.
pub open spec fn is_first_mapped(clients: Seq<Client>, i: int) -> bool {
    &&& 0 <= i < clients.len()
    &&& clients[i].mapped
    &&& forall|j: int| 0 <= j < i ==> !(#[trigger] clients[j]).mapped
}

/// The position of the first mapped client, if any client is mapped.
pub open spec fn first_mapped(clients: Seq<Client>) -> Option<int> {
    if exists|i: int| is_first_mapped(clients, i) {
        Some(choose|i: int| is_first_mapped(clients, i))
    } else {
        None
    }
}

/// The position that lies `k` steps from `from` in a ring of `len`
/// positions, forwards if `forward` holds and backwards if not.
pub open spec fn ring_position(len: int, from: int, forward: bool, k: int) -> int {
    if forward {
        (from + k) % len
    } else {
        (from + len - k) % len
    }
}

/// The client that lies `k` steps from `from` is mapped, and none of those
/// nearer to `from` in that direction is.
pub open spec fn is_next_mapped(clients: Seq<Client>, from: int, forward: bool, k: int) -> bool {
    &&& 1 <= k < clients.len()
    &&& clients[ring_position(clients.len() as int, from, forward, k)].mapped
    &&& forall|j: int|
        1 <= j < k ==> !clients[#[trigger] ring_position(
            clients.len() as int,
            from,
            forward,
            j,
        )].mapped
}

/// A workspace as a mathematical value.
#[verifier::ext_equal]
pub struct WorkspaceView {
    /// The clients in insertion order, which is the tiling and cycling order.
    pub clients: Seq<Client>,
    /// The position of the focused client.
    pub focus: Option<usize>,
    /// The window that covers the whole screen.
    pub fullscreen: Option<Window>,
}

impl WorkspaceView {
    /// Some client has the window `w`.
    pub open spec fn contains(self, w: Window) -> bool {
        exists|i: int| 0 <= i < self.clients.len() && (#[trigger] self.clients[i]).window == w
    }

    /// The position of the client that has the window `w`.
    pub open spec fn position(self, w: Window) -> int {
        choose|i: int| 0 <= i < self.clients.len() && (#[trigger] self.clients[i]).window == w
    }

    /// No window has two clients.
    pub open spec fn distinct(self) -> bool {
        forall|i: int, j: int|
            0 <= i < j < self.clients.len() ==> (#[trigger] self.clients[i]).window != (
            #[trigger] self.clients[j]).window
    }

    /// The windows of the clients, in order.
    pub open spec fn windows(self) -> Seq<Window> {
        self.clients.map_values(|c: Client| c.window)
    }

    /// The window of the focused client.
    pub open spec fn focused_window(self) -> Option<Window> {
        match self.focus {
            Some(f) => if f < self.clients.len() {
                Some(self.clients[f as int].window)
            } else {
                None
            },
            None => None,
        }
    }

    /// The window `w` has a client, and that client is mapped.
    pub open spec fn is_mapped(self, w: Window) -> bool {
        self.contains(w) && self.clients[self.position(w)].mapped
    }

    /// The invariant of a workspace: no window occurs twice, every weight is
    /// positive, there is a focus exactly if there is a client, the focus
    /// refers to a client, and a fullscreen mark refers to the focused client.
    pub open spec fn wf(self) -> bool {
        &&& self.distinct()
        &&& forall|i: int| 0 <= i < self.clients.len() ==> (#[trigger] self.clients[i]).size >= 1
        &&& self.clients.len() <= usize::MAX
        &&& (self.focus is Some <==> self.clients.len() > 0)
        &&& (self.focus matches Some(f) ==> f < self.clients.len())
        &&& (self.fullscreen matches Some(w) ==> self.contains(w) && self.focus == Some(
            self.position(w) as usize,
        ))
    }

    /// The workspace without clients.
    pub open spec fn empty() -> WorkspaceView {
        WorkspaceView { clients: Seq::empty(), focus: None, fullscreen: None }
    }

    /// The focus put right. A fullscreen mark on a window that is gone is
    /// dropped. Then: a fullscreen window has the focus; without clients there
    /// is no focus; a focus on a mapped client stays; else the first mapped
    /// client gets it, or the last client where none is mapped.
    pub open spec fn repair(self) -> WorkspaceView {
        let fullscreen = match self.fullscreen {
            Some(w) => if self.contains(w) {
                Some(w)
            } else {
                None
            },
            None => None,
        };
        let focus = if let Some(w) = fullscreen {
            Some(self.position(w) as usize)
        } else if self.clients.len() == 0 {
            None
        } else if self.focus is Some && self.focus.unwrap() < self.clients.len()
            && self.clients[self.focus.unwrap() as int].mapped {
            self.focus
        } else {
            match first_mapped(self.clients) {
                Some(i) => Some(i as usize),
                None => Some((self.clients.len() - 1) as usize),
            }
        };
        WorkspaceView { clients: self.clients, focus, fullscreen }
    }

    /// A client for `w` appended, mapped and of weight one, and focused if
    /// nothing was; no change if `w` has a client already.
    pub open spec fn push_window(self, w: Window) -> WorkspaceView {
        if self.contains(w) {
            self
        } else {
            WorkspaceView {
                clients: self.clients.push(Client { window: w, size: 1, mapped: true }),
                focus: if self.focus is None {
                    Some(self.clients.len() as usize)
                } else {
                    self.focus
                },
                fullscreen: self.fullscreen,
            }
        }
    }

    /// The client at position `i` taken out, a fullscreen mark on it cleared,
    /// and the focus repaired.
    pub open spec fn remove_at(self, i: int) -> WorkspaceView {
        WorkspaceView {
            clients: self.clients.remove(i),
            focus: self.focus,
            fullscreen: if self.fullscreen == Some(self.clients[i].window) {
                None
            } else {
                self.fullscreen
            },
        }.repair()
    }

    /// The client of `w` taken out, if it has one.
    pub open spec fn remove_client(self, w: Window) -> WorkspaceView {
        if self.contains(w) {
            self.remove_at(self.position(w))
        } else {
            self
        }
    }

    /// Whether a request to focus `w` is accepted: `w` must have a mapped
    /// client.
    pub open spec fn accepts_focus(self, w: Window) -> bool {
        self.is_mapped(w)
    }

    /// The focus on `w` if that is accepted. A fullscreen mark on another
    /// window does not outlive the change.
    pub open spec fn set_focus(self, w: Window) -> WorkspaceView {
        if self.accepts_focus(w) {
            WorkspaceView {
                clients: self.clients,
                focus: Some(self.position(w) as usize),
                fullscreen: if self.fullscreen == Some(w) {
                    self.fullscreen
                } else {
                    None
                },
            }
        } else {
            self
        }
    }

    /// The fullscreen mark and the focus on `w`, if `w` has a client.
    pub open spec fn set_fullscreen(self, w: Window) -> WorkspaceView {
        if self.contains(w) {
            WorkspaceView {
                clients: self.clients,
                focus: Some(self.position(w) as usize),
                fullscreen: Some(w),
            }
        } else {
            self
        }
    }

    /// No fullscreen mark.
    pub open spec fn clear_fullscreen(self) -> WorkspaceView {
        WorkspaceView { fullscreen: None, ..self }
    }

    /// The mapped flag of `w` set, if `w` has a client. Unmapping the
    /// fullscreen window clears the mark. The focus is repaired.
    pub open spec fn set_client_mapped(self, w: Window, mapped: bool) -> WorkspaceView {
        if self.contains(w) {
            let i = self.position(w);
            WorkspaceView {
                clients: self.clients.update(i, Client { mapped, ..self.clients[i] }),
                focus: self.focus,
                fullscreen: if !mapped && self.fullscreen == Some(w) {
                    None
                } else {
                    self.fullscreen
                },
            }.repair()
        } else {
            self
        }
    }

    /// The client of `w` marked as mapped, if `w` has one; nothing else changes.
    pub open spec fn mark_mapped(self, w: Window) -> WorkspaceView {
        if self.contains(w) {
            let i = self.position(w);
            WorkspaceView {
                clients: self.clients.update(i, Client { mapped: true, ..self.clients[i] }),
                ..self
            }
        } else {
            self
        }
    }

    /// The clients of `a` and `b` in each other's place, if both have one. The
    /// focus keeps its position, unless a fullscreen window has to keep it.
    pub open spec fn swap_windows(self, a: Window, b: Window) -> WorkspaceView {
        if self.contains(a) && self.contains(b) {
            let i = self.position(a);
            let j = self.position(b);
            let swapped = WorkspaceView {
                clients: self.clients.update(i, self.clients[j]).update(j, self.clients[i]),
                focus: self.focus,
                fullscreen: self.fullscreen,
            };
            match self.fullscreen {
                Some(w) => WorkspaceView { focus: Some(swapped.position(w) as usize), ..swapped },
                None => swapped,
            }
        } else {
            self
        }
    }

    /// The focused client with its weight changed to that of `changed`.
    pub open spec fn with_focused_size(self, size: u32) -> WorkspaceView {
        match self.focus {
            Some(f) => WorkspaceView {
                clients: self.clients.update(f as int, Client { size, ..self.clients[f as int] }),
                ..self
            },
            None => self,
        }
    }

    /// The window of the nearest mapped client after the focused one in the
    /// given direction, going round at the ends; none if no other client is
    /// mapped, if nothing is focused, or if `direction` is zero.
    pub open spec fn next_mapped_window(self, direction: int) -> Option<Window> {
        match self.focus {
            Some(f) => {
                let forward = direction > 0;
                if direction != 0 && exists|k: int|
                    is_next_mapped(self.clients, f as int, forward, k) {
                    let k = choose|k: int| is_next_mapped(self.clients, f as int, forward, k);
                    Some(
                        self.clients[ring_position(
                            self.clients.len() as int,
                            f as int,
                            forward,
                            k,
                        )].window,
                    )
                } else {
                    None
                }
            },
            None => None,
        }
    }
}

/// In a workspace without duplicates, a client's window is found at the
/// client's own position.
pub proof fn lemma_position(ws: WorkspaceView, i: int)
    requires
        ws.distinct(),
        0 <= i < ws.clients.len(),
    ensures
        ws.contains(ws.clients[i].window),
        ws.position(ws.clients[i].window) == i,
{
    let w = ws.clients[i].window;
    let p = ws.position(w);
    assert(ws.clients[p].window == w);
    if p < i {
        assert(ws.clients[p].window != ws.clients[i].window);
    } else if i < p {
        assert(ws.clients[i].window != ws.clients[p].window);
    }
}

/// A window that has a client has it at a position within the list.
pub proof fn lemma_position_of(ws: WorkspaceView, w: Window)
    requires
        ws.contains(w),
    ensures
        0 <= ws.position(w) < ws.clients.len(),
        ws.clients[ws.position(w)].window == w,
{
}

/// There is at most one first mapped client.
pub proof fn lemma_first_mapped(clients: Seq<Client>, i: int)
    requires
        is_first_mapped(clients, i),
    ensures
        first_mapped(clients) == Some(i),
{
    let c = choose|k: int| is_first_mapped(clients, k);
    if c < i {
        assert(!clients[c].mapped);
    } else if i < c {
        assert(!clients[i].mapped);
    }
}

/// Where no client is mapped there is no first mapped client.
pub proof fn lemma_none_mapped(clients: Seq<Client>)
    requires
        forall|j: int| 0 <= j < clients.len() ==> !(#[trigger] clients[j]).mapped,
    ensures
        first_mapped(clients) is None,
{
}

/// There is at most one nearest mapped client in a direction.
pub proof fn lemma_next_mapped(clients: Seq<Client>, from: int, forward: bool, k: int)
    requires
        is_next_mapped(clients, from, forward, k),
    ensures
        (choose|c: int| is_next_mapped(clients, from, forward, c)) == k,
{
    let c = choose|c: int| is_next_mapped(clients, from, forward, c);
    let len = clients.len() as int;
    if c < k {
        assert(!clients[ring_position(len, from, forward, c)].mapped);
    } else if k < c {
        assert(!clients[ring_position(len, from, forward, k)].mapped);
    }
}

/// Repairing the focus of a workspace whose clients are in order (distinct
/// windows, positive weights) yields a well-formed workspace.
pub proof fn lemma_repair_wf(ws: WorkspaceView)
    requires
        ws.distinct(),
        forall|i: int| 0 <= i < ws.clients.len() ==> (#[trigger] ws.clients[i]).size >= 1,
        ws.clients.len() <= usize::MAX,
    ensures
        ws.repair().wf(),
        ws.repair().clients == ws.clients,
{
    let r = ws.repair();
    if let Some(w) = r.fullscreen {
        lemma_position_of(ws, w);
        assert(r.position(w) == ws.position(w));
    } else if ws.clients.len() > 0 {
        if ws.focus is Some && ws.focus.unwrap() < ws.clients.len()
            && ws.clients[ws.focus.unwrap() as int].mapped {
        } else {
            match first_mapped(ws.clients) {
                Some(i) => {
                    assert(is_first_mapped(ws.clients, i));
                },
                None => {},
            }
        }
    }
}

/// A workspace, with its invariant kept by every operation.
#[derive(Debug)]
pub struct Workspace {
    clients: Vec<Client>,
    focus: Option<usize>,
    fullscreen: Option<Window>,
}

impl View for Workspace {
    type V = WorkspaceView;

    closed spec fn view(&self) -> WorkspaceView {
        WorkspaceView { clients: self.clients@, focus: self.focus, fullscreen: self.fullscreen }
    }
}

impl Default for Workspace {
    fn default() -> (workspace: Workspace)
        ensures
            workspace@ == WorkspaceView::empty(),
            workspace@.wf(),
    {
        Workspace::new()
    }
}

impl Workspace {
    /// A workspace without clients.
    pub fn new() -> (workspace: Workspace)
        ensures
            workspace@ == WorkspaceView::empty(),
            workspace@.wf(),
    {
        Workspace { clients: Vec::new(), focus: None, fullscreen: None }
    }

    /// The position of the client of `window`.
    pub fn index_of_window(&self, window: Window) -> (index: Option<usize>)
        requires
            self@.wf(),
        ensures
            index is Some <==> self@.contains(window),
            index matches Some(i) ==> i == self@.position(window) && i < self@.clients.len(),
    {
        let mut i: usize = 0;
        while i < self.clients.len()
            invariant
                i <= self.clients@.len(),
                self@.wf(),
                forall|j: int| 0 <= j < i ==> (#[trigger] self.clients@[j]).window != window,
            decreases self.clients@.len() - i,
        {
            if self.clients[i].window == window {
                proof {
                    lemma_position(self@, i as int);
                }
                return Some(i);
            }
            i = i + 1;
        }
        None
    }

    /// The window of the focused client.
    pub fn get_focused_window(&self) -> (window: Option<Window>)
        requires
            self@.wf(),
        ensures
            window == self@.focused_window(),
    {
        match self.focus {
            Some(f) => Some(self.clients[f].window),
            None => None,
        }
    }

    /// The window that covers the whole screen.
    pub fn get_fullscreen_window(&self) -> (window: Option<Window>)
        ensures
            window == self@.fullscreen,
    {
        self.fullscreen
    }

    /// The number of clients.
    pub fn num_of_windows(&self) -> (count: usize)
        ensures
            count == self@.clients.len(),
    {
        self.clients.len()
    }

    /// The position of the focused client.
    pub fn get_focus(&self) -> (focus: Option<usize>)
        ensures
            focus == self@.focus,
    {
        self.focus
    }

    /// Whether `window` has a client that is mapped.
    pub fn is_window_mapped(&self, window: Window) -> (mapped: bool)
        requires
            self@.wf(),
        ensures
            mapped == self@.is_mapped(window),
    {
        match self.index_of_window(window) {
            Some(i) => self.clients[i].mapped,
            None => false,
        }
    }

    /// The client of `window`.
    pub fn get_client(&self, window: Window) -> (client: Option<Client>)
        requires
            self@.wf(),
        ensures
            client is Some <==> self@.contains(window),
            client matches Some(c) ==> c == self@.clients[self@.position(window)],
    {
        match self.index_of_window(window) {
            Some(i) => Some(self.clients[i]),
            None => None,
        }
    }

    /// The windows of the clients, in insertion order.
    pub fn iter_windows(&self) -> (windows: Vec<Window>)
        ensures
            windows@ == self@.windows(),
    {
        let mut windows: Vec<Window> = Vec::new();
        let mut i: usize = 0;
        while i < self.clients.len()
            invariant
                i <= self.clients@.len(),
                windows@.len() == i,
                forall|j: int| 0 <= j < i ==> windows@[j] == self.clients@[j].window,
            decreases self.clients@.len() - i,
        {
            windows.push(self.clients[i].window);
            i = i + 1;
        }
        assert(windows@ =~= self@.windows());
        windows
    }

    /// The clients, in insertion order.
    pub fn iter_clients(&self) -> (clients: Vec<Client>)
        ensures
            clients@ == self@.clients,
    {
        self.clients.clone()
    }

    /// Puts the focus right after a change to the clients.
    #[verifier::loop_isolation(false)]
    fn update_focus(&mut self)
        requires
            old(self)@.distinct(),
            forall|i: int|
                0 <= i < old(self)@.clients.len() ==> (#[trigger] old(self)@.clients[i]).size >= 1,
        ensures
            final(self)@ == old(self)@.repair(),
            final(self)@.wf(),
    {
        proof {
            assert(self.clients@.len() == self.clients.len());
            lemma_repair_wf(self@);
        }
        if let Some(w) = self.fullscreen {
            match self.index_of_distinct(w) {
                Some(p) => {
                    self.focus = Some(p);
                    return ;
                },
                None => {
                    self.fullscreen = None;
                },
            }
        }
        if self.clients.len() == 0 {
            self.focus = None;
            return ;
        }
        if let Some(f) = self.focus {
            if f < self.clients.len() && self.clients[f].mapped {
                return ;
            }
        }
        let mut i: usize = 0;
        while i < self.clients.len()
            invariant
                i <= self.clients@.len(),
                self.clients@ == old(self)@.clients,
                self.focus == old(self)@.focus,
                self.fullscreen == old(self)@.repair().fullscreen,
                forall|j: int| 0 <= j < i ==> !(#[trigger] self.clients@[j]).mapped,
            decreases self.clients@.len() - i,
        {
            if self.clients[i].mapped {
                proof {
                    lemma_first_mapped(self.clients@, i as int);
                }
                self.focus = Some(i);
                return ;
            }
            i = i + 1;
        }
        proof {
            lemma_none_mapped(self.clients@);
        }
        self.focus = Some(self.clients.len() - 1);
    }

    /// Appends a client for `window`, mapped and of weight one, and focuses it
    /// if nothing was focused. A window that has a client already is left
    /// alone.
    pub fn push_window(&mut self, window: Window)
        requires
            old(self)@.wf(),
        ensures
            final(self)@ == old(self)@.push_window(window),
            final(self)@.wf(),
    {
        if self.index_of_window(window).is_some() {
            return ;
        }
        let ghost before = self@;
        self.clients.push(Client { window, size: 1, mapped: true });
        let len = self.clients.len();
        if self.focus.is_none() {
            self.focus = Some(len - 1);
        }
        proof {
            let after = self@;
            assert forall|w: Window| before.contains(w) implies after.contains(w) && after.position(
                w,
            ) == before.position(w) by {
                let p = before.position(w);
                assert(after.clients[p].window == w);
                lemma_position(after, p);
            }
        }
    }

    /// Takes out the client at position `idx`, if there is one, and returns
    /// its window.
    pub fn remove_window(&mut self, idx: usize) -> (window: Option<Window>)
        requires
            old(self)@.wf(),
        ensures
            final(self)@.wf(),
            idx < old(self)@.clients.len() ==> window == Some(old(self)@.clients[idx as int].window)
                && final(self)@ == old(self)@.remove_at(idx as int),
            idx >= old(self)@.clients.len() ==> window is None && final(self)@ == old(self)@,
    {
        if idx < self.clients.len() {
            let client = self.clients.remove(idx);
            if self.fullscreen == Some(client.window) {
                self.fullscreen = None;
            }
            self.update_focus();
            return Some(client.window);
        }
        None
    }

    /// Takes out the client of `window` and returns it. A fullscreen mark on
    /// it is cleared, and the focus is repaired.
    pub fn remove_client(&mut self, window: Window) -> (client: Option<Client>)
        requires
            old(self)@.wf(),
        ensures
            final(self)@.wf(),
            final(self)@ == old(self)@.remove_client(window),
            client is Some <==> old(self)@.contains(window),
            client matches Some(c) ==> c == old(self)@.clients[old(self)@.position(window)],
    {
        match self.index_of_window(window) {
            Some(i) => {
                let client = self.clients.remove(i);
                if self.fullscreen == Some(client.window) {
                    self.fullscreen = None;
                }
                self.update_focus();
                Some(client)
            },
            None => None,
        }
    }

    /// Takes out the focused client and returns its window.
    pub fn removed_focused_window(&mut self) -> (window: Option<Window>)
        requires
            old(self)@.wf(),
        ensures
            final(self)@.wf(),
            window == old(self)@.focused_window(),
            final(self)@ == match old(self)@.focus {
                Some(f) => old(self)@.remove_at(f as int),
                None => old(self)@,
            },
    {
        match self.focus {
            Some(idx) => self.remove_window(idx),
            None => None,
        }
    }

    /// Focuses `window` if it has a mapped client, and says whether it did.
    pub fn set_focus(&mut self, window: Window) -> (accepted: bool)
        requires
            old(self)@.wf(),
        ensures
            final(self)@.wf(),
            accepted == old(self)@.accepts_focus(window),
            final(self)@ == old(self)@.set_focus(window),
    {
        match self.index_of_window(window) {
            Some(i) => {
                if self.clients[i].mapped {
                    self.focus = Some(i);
                    if self.fullscreen != Some(window) {
                        self.fullscreen = None;
                    }
                    true
                } else {
                    false
                }
            },
            None => false,
        }
    }

    /// Marks `window` as fullscreen and focuses it, if it has a client.
    pub fn set_fullscreen(&mut self, window: Window)
        requires
            old(self)@.wf(),
        ensures
            final(self)@.wf(),
            final(self)@ == old(self)@.set_fullscreen(window),
    {
        if let Some(i) = self.index_of_window(window) {
            self.fullscreen = Some(window);
            self.focus = Some(i);
        }
    }

    /// Clears the fullscreen mark.
    pub fn clear_fullscreen(&mut self)
        requires
            old(self)@.wf(),
        ensures
            final(self)@.wf(),
            final(self)@ == old(self)@.clear_fullscreen(),
    {
        self.fullscreen = None;
    }

    /// Sets the mapped flag of the client of `window`, if it has one.
    /// Unmapping the fullscreen window clears the mark; the focus is repaired.
    pub fn set_client_mapped(&mut self, window: Window, mapped: bool)
        requires
            old(self)@.wf(),
        ensures
            final(self)@.wf(),
            final(self)@ == old(self)@.set_client_mapped(window, mapped),
    {
        if let Some(i) = self.index_of_window(window) {
            let ghost before = self@;
            let mut client = self.clients[i];
            client.set_mapped(mapped);
            self.clients.set(i, client);
            if !mapped && self.fullscreen == Some(window) {
                self.fullscreen = None;
            }
            proof {
                assert(self@.clients =~= before.clients.update(
                    i as int,
                    Client { mapped, ..before.clients[i as int] },
                ));
                assert forall|a: int, b: int| 0 <= a < b < self@.clients.len() implies (
                #[trigger] self@.clients[a]).window != (#[trigger] self@.clients[b]).window by {
                    assert(before.clients[a].window != before.clients[b].window);
                }
                assert forall|a: int| 0 <= a < self@.clients.len() implies (
                #[trigger] self@.clients[a]).size >= 1 by {
                    assert(before.clients[a].size >= 1);
                }
            }
            self.update_focus();
        }
    }

    /// Marks the client of `window` as mapped and leaves focus and fullscreen
    /// as they are. Says whether `window` has a client.
    pub fn mark_client_mapped(&mut self, window: Window) -> (present: bool)
        requires
            old(self)@.wf(),
        ensures
            final(self)@.wf(),
            present == old(self)@.contains(window),
            final(self)@ == old(self)@.mark_mapped(window),
    {
        match self.index_of_window(window) {
            Some(i) => {
                let ghost before = self@;
                let mut client = self.clients[i];
                client.set_mapped(true);
                self.clients.set(i, client);
                proof {
                    lemma_flag_wf(before, i as int, true);
                }
                true
            },
            None => false,
        }
    }

    /// Exchanges the places of the clients of `a` and `b`, if both have one.
    pub fn swap_windows(&mut self, a: Window, b: Window)
        requires
            old(self)@.wf(),
        ensures
            final(self)@.wf(),
            final(self)@ == old(self)@.swap_windows(a, b),
    {
        let ia = self.index_of_window(a);
        let ib = self.index_of_window(b);
        if let Some(i) = ia {
            if let Some(j) = ib {
                let ghost before = self@;
                let first = self.clients[i];
                let second = self.clients[j];
                self.clients.set(i, second);
                self.clients.set(j, first);
                proof {
                    assert(self@.clients =~= before.clients.update(
                        i as int,
                        before.clients[j as int],
                    ).update(j as int, before.clients[i as int]));
                    lemma_swap_distinct(before, i as int, j as int);
                }
                if let Some(w) = self.fullscreen {
                    let p = self.index_of_distinct(w);
                    self.focus = p;
                }
            }
        }
    }

    /// The position of the client of `window`, in a list without duplicates.
    fn index_of_distinct(&self, window: Window) -> (index: Option<usize>)
        requires
            self@.distinct(),
        ensures
            index is Some <==> self@.contains(window),
            index matches Some(i) ==> i == self@.position(window) && i < self@.clients.len(),
    {
        let mut i: usize = 0;
        while i < self.clients.len()
            invariant
                i <= self.clients@.len(),
                self@.distinct(),
                forall|j: int| 0 <= j < i ==> (#[trigger] self.clients@[j]).window != window,
            decreases self.clients@.len() - i,
        {
            if self.clients[i].window == window {
                proof {
                    lemma_position(self@, i as int);
                }
                return Some(i);
            }
            i = i + 1;
        }
        None
    }

    /// Adds `increment` to the weight of the focused client, saturating, and
    /// says whether there is a focused client.
    pub fn increase_focused_size(&mut self, increment: u32) -> (changed: bool)
        requires
            old(self)@.wf(),
        ensures
            final(self)@.wf(),
            changed == old(self)@.focus is Some,
            final(self)@ == match old(self)@.focus {
                Some(f) => old(self)@.with_focused_size(
                    old(self)@.clients[f as int].heavier(increment).size,
                ),
                None => old(self)@,
            },
    {
        match self.focus {
            Some(f) => {
                let ghost before = self@;
                let mut client = self.clients[f];
                client.increase_window_size(increment);
                self.clients.set(f, client);
                proof {
                    lemma_resize_wf(before, client.size);
                }
                true
            },
            None => false,
        }
    }

    /// Takes `increment` from the weight of the focused client, leaving at
    /// least one, and says whether there is a focused client.
    pub fn decrease_focused_size(&mut self, increment: u32) -> (changed: bool)
        requires
            old(self)@.wf(),
        ensures
            final(self)@.wf(),
            changed == old(self)@.focus is Some,
            final(self)@ == match old(self)@.focus {
                Some(f) => old(self)@.with_focused_size(
                    old(self)@.clients[f as int].lighter(increment).size,
                ),
                None => old(self)@,
            },
    {
        match self.focus {
            Some(f) => {
                let ghost before = self@;
                let mut client = self.clients[f];
                client.decrease_window_size(increment);
                self.clients.set(f, client);
                proof {
                    lemma_resize_wf(before, client.size);
                }
                true
            },
            None => false,
        }
    }

    /// The window of the nearest mapped client after the focused one, forwards
    /// for a positive `direction` and backwards for a negative one, going
    /// round at the ends.
    pub fn next_mapped_window(&self, direction: isize) -> (window: Option<Window>)
        requires
            self@.wf(),
        ensures
            window == self@.next_mapped_window(direction as int),
    {
        let f = match self.focus {
            Some(f) => f,
            None => {
                return None;
            },
        };
        if direction == 0 {
            return None;
        }
        let forward = direction > 0;
        let len = self.clients.len();
        let mut k: usize = 1;
        while k < len
            invariant
                1 <= k <= len || len == 0,
                len == self.clients@.len(),
                f < len,
                self.focus == Some(f),
                forward == (direction > 0),
                direction != 0,
                forall|j: int|
                    1 <= j < k ==> !self.clients@[#[trigger] ring_position(
                        len as int,
                        f as int,
                        forward,
                        j,
                    )].mapped,
            decreases len - k,
        {
            let idx = if forward {
                if k < len - f {
                    f + k
                } else {
                    k - (len - f)
                }
            } else {
                if k <= f {
                    f - k
                } else {
                    len - (k - f)
                }
            };
            proof {
                lemma_ring_position(len as int, f as int, forward, k as int);
            }
            if self.clients[idx].mapped {
                proof {
                    assert(is_next_mapped(self.clients@, f as int, forward, k as int));
                    lemma_next_mapped(self.clients@, f as int, forward, k as int);
                }
                return Some(self.clients[idx].window);
            }
            k = k + 1;
        }
        proof {
            assert forall|c: int| !is_next_mapped(self.clients@, f as int, forward, c) by {
                if 1 <= c < len {
                    assert(!self.clients@[ring_position(len as int, f as int, forward, c)].mapped);
                }
            }
        }
        None
    }
}

/// The position `k` steps from `from` in a ring, without the division.
pub proof fn lemma_ring_position(len: int, from: int, forward: bool, k: int)
    requires
        0 <= from < len,
        1 <= k < len,
    ensures
        0 <= ring_position(len, from, forward, k) < len,
        forward ==> ring_position(len, from, forward, k) == if from + k < len {
            from + k
        } else {
            from + k - len
        },
        !forward ==> ring_position(len, from, forward, k) == if k <= from {
            from - k
        } else {
            from + len - k
        },
{
    if forward {
        if from + k < len {
            assert((from + k) % len == from + k) by (nonlinear_arith)
                requires
                    0 <= from + k < len,
            ;
        } else {
            assert((from + k) % len == from + k - len) by (nonlinear_arith)
                requires
                    len <= from + k < 2 * len,
            ;
        }
    } else {
        if k <= from {
            assert((from + len - k) % len == from - k) by (nonlinear_arith)
                requires
                    len <= from + len - k < 2 * len,
            ;
        } else {
            assert((from + len - k) % len == from + len - k) by (nonlinear_arith)
                requires
                    0 <= from + len - k < len,
            ;
        }
    }
}

/// Exchanging two clients leaves the windows distinct, and each window is
/// found where its client went.
pub proof fn lemma_swap_distinct(ws: WorkspaceView, i: int, j: int)
    requires
        ws.wf(),
        0 <= i < ws.clients.len(),
        0 <= j < ws.clients.len(),
    ensures
        ({
            let swapped = WorkspaceView {
                clients: ws.clients.update(i, ws.clients[j]).update(j, ws.clients[i]),
                ..ws
            };
            &&& swapped.distinct()
            &&& forall|a: int|
                0 <= a < swapped.clients.len() ==> (#[trigger] swapped.clients[a]).size >= 1
            &&& forall|w: Window| ws.contains(w) <==> swapped.contains(w)
        }),
{
    let swapped = WorkspaceView {
        clients: ws.clients.update(i, ws.clients[j]).update(j, ws.clients[i]),
        ..ws
    };
    let source = |a: int|
        if a == i {
            j
        } else if a == j {
            i
        } else {
            a
        };
    assert forall|a: int, b: int| 0 <= a < b < swapped.clients.len() implies (
    #[trigger] swapped.clients[a]).window != (#[trigger] swapped.clients[b]).window by {
        let sa = source(a);
        let sb = source(b);
        assert(swapped.clients[a] == ws.clients[sa]);
        assert(swapped.clients[b] == ws.clients[sb]);
        if sa < sb {
            assert(ws.clients[sa].window != ws.clients[sb].window);
        } else {
            assert(ws.clients[sb].window != ws.clients[sa].window);
        }
    }
    assert forall|a: int| 0 <= a < swapped.clients.len() implies (
    #[trigger] swapped.clients[a]).size >= 1 by {
        assert(swapped.clients[a] == ws.clients[source(a)]);
    }
    assert forall|w: Window| ws.contains(w) <==> swapped.contains(w) by {
        if ws.contains(w) {
            let p = ws.position(w);
            assert(swapped.clients[source(p)] == ws.clients[p]);
        }
        if swapped.contains(w) {
            let p = swapped.position(w);
            assert(swapped.clients[p] == ws.clients[source(p)]);
        }
    }
}

/// Changing the mapped flag of a client keeps the workspace well-formed, and
/// every window where it was.
pub proof fn lemma_flag_wf(ws: WorkspaceView, i: int, mapped: bool)
    requires
        ws.wf(),
        0 <= i < ws.clients.len(),
    ensures
        ({
            let changed = WorkspaceView {
                clients: ws.clients.update(i, Client { mapped, ..ws.clients[i] }),
                ..ws
            };
            &&& changed.wf()
            &&& forall|w: Window| changed.contains(w) == ws.contains(w)
            &&& forall|w: Window| ws.contains(w) ==> changed.position(w) == ws.position(w)
        }),
{
    let changed = WorkspaceView {
        clients: ws.clients.update(i, Client { mapped, ..ws.clients[i] }),
        ..ws
    };
    assert forall|a: int, b: int| 0 <= a < b < changed.clients.len() implies (
    #[trigger] changed.clients[a]).window != (#[trigger] changed.clients[b]).window by {
        assert(ws.clients[a].window != ws.clients[b].window);
    }
    assert forall|a: int| 0 <= a < changed.clients.len() implies (
    #[trigger] changed.clients[a]).size >= 1 by {
        assert(ws.clients[a].size >= 1);
    }
    assert forall|w: Window| changed.contains(w) == ws.contains(w) by {
        if ws.contains(w) {
            let p = ws.position(w);
            assert(changed.clients[p].window == w);
        }
        if changed.contains(w) {
            let p = changed.position(w);
            assert(ws.clients[p].window == w);
        }
    }
    assert forall|w: Window| ws.contains(w) implies changed.position(w) == ws.position(w) by {
        let p = ws.position(w);
        assert(changed.clients[p].window == w);
        lemma_position(changed, p);
    }
}

/// Giving the focused client another positive weight keeps the workspace
/// well-formed.
pub proof fn lemma_resize_wf(ws: WorkspaceView, size: u32)
    requires
        ws.wf(),
        size >= 1,
    ensures
        ws.with_focused_size(size).wf(),
{
    let r = ws.with_focused_size(size);
    if let Some(f) = ws.focus {
        assert forall|a: int, b: int| 0 <= a < b < r.clients.len() implies (
        #[trigger] r.clients[a]).window != (#[trigger] r.clients[b]).window by {
            assert(ws.clients[a].window != ws.clients[b].window);
        }
        assert forall|a: int| 0 <= a < r.clients.len() implies (#[trigger] r.clients[a]).size
            >= 1 by {
            assert(ws.clients[a].size >= 1);
        }
        if let Some(w) = ws.fullscreen {
            lemma_position_of(ws, w);
            assert(r.clients[ws.position(w)].window == w);
            lemma_position(r, ws.position(w));
        }
    }
}

/// Setting a mapped flag keeps the workspace well-formed and its windows the
/// same.
pub proof fn lemma_set_client_mapped(ws: WorkspaceView, w: Window, mapped: bool)
    requires
        ws.wf(),
    ensures
        ws.set_client_mapped(w, mapped).wf(),
        forall|x: Window| ws.set_client_mapped(w, mapped).contains(x) == ws.contains(x),
        ws.set_client_mapped(w, mapped).windows() == ws.windows(),
        ws.set_client_mapped(w, mapped).clients.len() == ws.clients.len(),
{
    if ws.contains(w) {
        let i = ws.position(w);
        lemma_flag_wf(ws, i, mapped);
        let changed = WorkspaceView {
            clients: ws.clients.update(i, Client { mapped, ..ws.clients[i] }),
            focus: ws.focus,
            fullscreen: if !mapped && ws.fullscreen == Some(w) {
                None
            } else {
                ws.fullscreen
            },
        };
        lemma_repair_wf(changed);
        let flagged = WorkspaceView {
            clients: ws.clients.update(i, Client { mapped, ..ws.clients[i] }),
            ..ws
        };
        assert forall|x: Window| changed.repair().contains(x) == ws.contains(x) by {
            assert(changed.contains(x) == flagged.contains(x));
            assert(changed.repair().contains(x) == changed.contains(x));
        }
        assert(changed.repair().windows() =~= ws.windows());
    }
}

/// Taking a client out removes its window from the windows and keeps the
/// others.
pub proof fn lemma_remove_at(ws: WorkspaceView, i: int)
    requires
        ws.wf(),
        0 <= i < ws.clients.len(),
    ensures
        ws.remove_at(i).wf(),
        forall|x: Window|
            ws.remove_at(i).contains(x) == (ws.contains(x) && x != ws.clients[i].window),
{
    let cut = WorkspaceView {
        clients: ws.clients.remove(i),
        focus: ws.focus,
        fullscreen: if ws.fullscreen == Some(ws.clients[i].window) {
            None
        } else {
            ws.fullscreen
        },
    };
    assert forall|a: int, b: int| 0 <= a < b < cut.clients.len() implies (
    #[trigger] cut.clients[a]).window != (#[trigger] cut.clients[b]).window by {
        let sa = if a < i {
            a
        } else {
            a + 1
        };
        let sb = if b < i {
            b
        } else {
            b + 1
        };
        assert(ws.clients[sa].window != ws.clients[sb].window);
    }
    assert forall|a: int| 0 <= a < cut.clients.len() implies (#[trigger] cut.clients[a]).size
        >= 1 by {
        let sa = if a < i {
            a
        } else {
            a + 1
        };
        assert(ws.clients[sa].size >= 1);
    }
    lemma_repair_wf(cut);
    assert forall|x: Window|
        ws.remove_at(i).contains(x) == (ws.contains(x) && x != ws.clients[i].window) by {
        assert(ws.remove_at(i).contains(x) == cut.contains(x));
        if cut.contains(x) {
            let p = cut.position(x);
            let sp = if p < i {
                p
            } else {
                p + 1
            };
            assert(ws.clients[sp].window == x);
            if sp < i {
                assert(ws.clients[sp].window != ws.clients[i].window);
            } else {
                assert(ws.clients[i].window != ws.clients[sp].window);
            }
        }
        if ws.contains(x) && x != ws.clients[i].window {
            let p = ws.position(x);
            let tp = if p < i {
                p
            } else {
                p - 1
            };
            assert(cut.clients[tp].window == x);
        }
    }
}

/// Exchanging two clients keeps the workspace well-formed and its windows the
/// same.
pub proof fn lemma_swap_windows(ws: WorkspaceView, a: Window, b: Window)
    requires
        ws.wf(),
    ensures
        ws.swap_windows(a, b).wf(),
        forall|x: Window| ws.swap_windows(a, b).contains(x) == ws.contains(x),
{
    if ws.contains(a) && ws.contains(b) {
        let i = ws.position(a);
        let j = ws.position(b);
        lemma_swap_distinct(ws, i, j);
        let swapped = WorkspaceView {
            clients: ws.clients.update(i, ws.clients[j]).update(j, ws.clients[i]),
            focus: ws.focus,
            fullscreen: ws.fullscreen,
        };
        let after = ws.swap_windows(a, b);
        assert(after.clients == swapped.clients);
        assert forall|x: Window| after.contains(x) == ws.contains(x) by {
            if swapped.contains(x) {
                assert(after.clients[swapped.position(x)].window == x);
            }
            if after.contains(x) {
                assert(swapped.clients[after.position(x)].window == x);
            }
        }
        if let Some(w) = ws.fullscreen {
            assert(swapped.contains(w));
            lemma_position_of(swapped, w);
            assert(after.position(w) == swapped.position(w));
        }
    }
}

/// Focusing a window, marking it fullscreen, clearing the mark, marking a
/// client as mapped or changing the weight of the focused client keeps the
/// workspace well-formed and its windows the same.
pub proof fn lemma_marks_wf(ws: WorkspaceView, w: Window, size: u32)
    requires
        ws.wf(),
        size >= 1,
    ensures
        ws.set_focus(w).wf(),
        ws.set_fullscreen(w).wf(),
        ws.clear_fullscreen().wf(),
        ws.mark_mapped(w).wf(),
        ws.with_focused_size(size).wf(),
        forall|x: Window| ws.mark_mapped(w).contains(x) == ws.contains(x),
        forall|x: Window| ws.with_focused_size(size).contains(x) == ws.contains(x),
{
    if ws.contains(w) {
        lemma_position_of(ws, w);
        lemma_flag_wf(ws, ws.position(w), true);
    }
    lemma_resize_wf(ws, size);
    let resized = ws.with_focused_size(size);
    assert forall|x: Window| resized.contains(x) == ws.contains(x) by {
        if ws.contains(x) {
            let p = ws.position(x);
            assert(resized.clients[p].window == x);
        }
        if resized.contains(x) {
            let p = resized.position(x);
            assert(ws.clients[p].window == x);
        }
    }
}

/// Appending a window adds it to the windows and keeps the others, and
/// setting a mapped flag keeps the windows the same, whatever the workspace.
pub proof fn lemma_members(ws: WorkspaceView, w: Window, mapped: bool)
    ensures
        forall|x: Window| ws.push_window(w).contains(x) == (ws.contains(x) || x == w),
        forall|x: Window| ws.set_client_mapped(w, mapped).contains(x) == ws.contains(x),
{
    let pushed = ws.push_window(w);
    assert forall|x: Window| pushed.contains(x) == (ws.contains(x) || x == w) by {
        if !ws.contains(w) {
            assert(pushed.clients[ws.clients.len() as int].window == w);
            if ws.contains(x) {
                assert(pushed.clients[ws.position(x)].window == x);
            }
            if pushed.contains(x) && x != w {
                assert(ws.clients[pushed.position(x)].window == x);
            }
        }
    }
    let flagged = ws.set_client_mapped(w, mapped);
    assert forall|x: Window| flagged.contains(x) == ws.contains(x) by {
        if ws.contains(w) {
            if ws.contains(x) {
                assert(flagged.clients[ws.position(x)].window == x);
            }
            if flagged.contains(x) {
                assert(ws.clients[flagged.position(x)].window == x);
            }
        }
    }
}

} // verus!
