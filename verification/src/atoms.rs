//! The atoms that the manager reads and writes, and the names under which
//! they are interned.

use crate::effect::Atom;
use crate::ewmh::EwmhHint;
use vstd::prelude::*;

verus! {

/// How many atoms the manager interns.
pub const NUM_ATOMS: usize = 24;

/// The interned atoms, each under the name of its use.
#[derive(Clone, Copy, Debug)]
pub struct Atoms {
    pub supported: Atom,
    pub supporting_wm_check: Atom,
    pub number_of_desktops: Atom,
    pub current_desktop: Atom,
    pub desktop_names: Atom,
    pub desktop_viewport: Atom,
    pub desktop_geometry: Atom,
    pub workarea: Atom,
    pub showing_desktop: Atom,
    pub active_window: Atom,
    pub client_list: Atom,
    pub client_list_stacking: Atom,
    pub wm_name: Atom,
    pub wm_pid: Atom,
    pub utf8_string: Atom,
    pub wm_window_type: Atom,
    pub wm_window_type_dock: Atom,
    pub wm_strut_partial: Atom,
    pub wm_state: Atom,
    pub wm_state_fullscreen: Atom,
    pub close_window: Atom,
    pub wm_protocols: Atom,
    pub wm_delete_window: Atom,
    pub wm_desktop: Atom,
}

/// The names of the atoms, in the order of the fields of `Atoms`.
pub open spec fn atom_names() -> Seq<Seq<char>> {
    seq![
        EwmhHint::NetSupported.name(),
        EwmhHint::NetSupportingWmCheck.name(),
        EwmhHint::NetNumberOfDesktops.name(),
        EwmhHint::NetCurrentDesktop.name(),
        "_NET_DESKTOP_NAMES"@,
        "_NET_DESKTOP_VIEWPORT"@,
        "_NET_DESKTOP_GEOMETRY"@,
        "_NET_WORKAREA"@,
        "_NET_SHOWING_DESKTOP"@,
        "_NET_ACTIVE_WINDOW"@,
        "_NET_CLIENT_LIST"@,
        "_NET_CLIENT_LIST_STACKING"@,
        "_NET_WM_NAME"@,
        "_NET_WM_PID"@,
        "UTF8_STRING"@,
        "_NET_WM_WINDOW_TYPE"@,
        "_NET_WM_WINDOW_TYPE_DOCK"@,
        "_NET_WM_STRUT_PARTIAL"@,
        "_NET_WM_STATE"@,
        "_NET_WM_STATE_FULLSCREEN"@,
        "_NET_CLOSE_WINDOW"@,
        "WM_PROTOCOLS"@,
        "WM_DELETE_WINDOW"@,
        "_NET_WM_DESKTOP"@,
    ]
}

/// The atoms whose identifiers are `ids`, in the order of `atom_names`.
pub open spec fn atoms_from(ids: Seq<Atom>) -> Atoms {
    Atoms {
        supported: ids[0],
        supporting_wm_check: ids[1],
        number_of_desktops: ids[2],
        current_desktop: ids[3],
        desktop_names: ids[4],
        desktop_viewport: ids[5],
        desktop_geometry: ids[6],
        workarea: ids[7],
        showing_desktop: ids[8],
        active_window: ids[9],
        client_list: ids[10],
        client_list_stacking: ids[11],
        wm_name: ids[12],
        wm_pid: ids[13],
        utf8_string: ids[14],
        wm_window_type: ids[15],
        wm_window_type_dock: ids[16],
        wm_strut_partial: ids[17],
        wm_state: ids[18],
        wm_state_fullscreen: ids[19],
        close_window: ids[20],
        wm_protocols: ids[21],
        wm_delete_window: ids[22],
        wm_desktop: ids[23],
    }
}

impl Atoms {
    /// The names to intern, in the order in which `from_interned` expects
    /// their atoms.
    pub fn names() -> (names: Vec<&'static str>)
        ensures
            names@.len() == NUM_ATOMS,
            names@.len() == atom_names().len(),
            forall|i: int| 0 <= i < names@.len() ==> (#[trigger] names@[i])@ == atom_names()[i],
    {
        let mut names: Vec<&'static str> = Vec::new();
        names.push(EwmhHint::NetSupported.as_str());
        names.push(EwmhHint::NetSupportingWmCheck.as_str());
        names.push(EwmhHint::NetNumberOfDesktops.as_str());
        names.push(EwmhHint::NetCurrentDesktop.as_str());
        names.push("_NET_DESKTOP_NAMES");
        names.push("_NET_DESKTOP_VIEWPORT");
        names.push("_NET_DESKTOP_GEOMETRY");
        names.push("_NET_WORKAREA");
        names.push("_NET_SHOWING_DESKTOP");
        names.push("_NET_ACTIVE_WINDOW");
        names.push("_NET_CLIENT_LIST");
        names.push("_NET_CLIENT_LIST_STACKING");
        names.push("_NET_WM_NAME");
        names.push("_NET_WM_PID");
        names.push("UTF8_STRING");
        names.push("_NET_WM_WINDOW_TYPE");
        names.push("_NET_WM_WINDOW_TYPE_DOCK");
        names.push("_NET_WM_STRUT_PARTIAL");
        names.push("_NET_WM_STATE");
        names.push("_NET_WM_STATE_FULLSCREEN");
        names.push("_NET_CLOSE_WINDOW");
        names.push("WM_PROTOCOLS");
        names.push("WM_DELETE_WINDOW");
        names.push("_NET_WM_DESKTOP");
        names
    }

    /// The atoms from their identifiers as the server interned them, in the
    /// order of `names`; nothing unless there is one identifier per name.
    pub fn from_interned(ids: &[Atom]) -> (atoms: Option<Atoms>)
        ensures
            atoms == if ids@.len() == NUM_ATOMS {
                Some(atoms_from(ids@))
            } else {
                None
            },
    {
        if ids.len() != NUM_ATOMS {
            return None;
        }
        Some(
            Atoms {
                supported: ids[0],
                supporting_wm_check: ids[1],
                number_of_desktops: ids[2],
                current_desktop: ids[3],
                desktop_names: ids[4],
                desktop_viewport: ids[5],
                desktop_geometry: ids[6],
                workarea: ids[7],
                showing_desktop: ids[8],
                active_window: ids[9],
                client_list: ids[10],
                client_list_stacking: ids[11],
                wm_name: ids[12],
                wm_pid: ids[13],
                utf8_string: ids[14],
                wm_window_type: ids[15],
                wm_window_type_dock: ids[16],
                wm_strut_partial: ids[17],
                wm_state: ids[18],
                wm_state_fullscreen: ids[19],
                close_window: ids[20],
                wm_protocols: ids[21],
                wm_delete_window: ids[22],
                wm_desktop: ids[23],
            },
        )
    }
}

} // verus!
