use rdwm::effect::Window;
use rdwm::workspace::{Client, Workspace};

fn workspace_of(ids: &[u32]) -> Workspace {
    let mut ws = Workspace::new();
    for id in ids {
        ws.push_window(Window::new(*id));
    }
    ws
}

#[test]
fn empty_workspace_has_no_focus() {
    let ws = Workspace::default();
    assert_eq!(ws.num_of_windows(), 0);
    assert_eq!(ws.get_focus(), None);
    assert_eq!(ws.get_focused_window(), None);
    assert_eq!(ws.get_fullscreen_window(), None);
    assert_eq!(ws.next_mapped_window(1), None);
}

#[test]
fn push_window_focuses_first_and_rejects_duplicates() {
    let mut ws = Workspace::new();
    ws.push_window(Window::new(7));
    ws.push_window(Window::new(8));
    ws.push_window(Window::new(7));
    assert_eq!(ws.iter_windows(), vec![Window::new(7), Window::new(8)]);
    assert_eq!(ws.get_focus(), Some(0));
    assert_eq!(
        ws.iter_clients(),
        vec![
            Client { window: Window::new(7), size: 1, mapped: true },
            Client { window: Window::new(8), size: 1, mapped: true },
        ]
    );
}

#[test]
fn remove_client_keeps_the_focus_position() {
    let mut ws = workspace_of(&[1, 2, 3]);
    assert!(ws.set_focus(Window::new(2)));
    let removed = ws.remove_client(Window::new(2));
    assert_eq!(removed, Some(Client { window: Window::new(2), size: 1, mapped: true }));
    assert_eq!(ws.get_focused_window(), Some(Window::new(3)));
    assert_eq!(ws.remove_client(Window::new(2)), None);
    assert_eq!(ws.remove_client(Window::new(3)).map(|c| c.window), Some(Window::new(3)));
    assert_eq!(ws.get_focused_window(), Some(Window::new(1)));
    assert_eq!(ws.removed_focused_window(), Some(Window::new(1)));
    assert_eq!(ws.get_focus(), None);
    assert_eq!(ws.removed_focused_window(), None);
}

#[test]
fn remove_window_by_position() {
    let mut ws = workspace_of(&[1, 2, 3]);
    assert_eq!(ws.remove_window(5), None);
    assert_eq!(ws.remove_window(0), Some(Window::new(1)));
    assert_eq!(ws.iter_windows(), vec![Window::new(2), Window::new(3)]);
    assert_eq!(ws.get_focused_window(), Some(Window::new(2)));
}

#[test]
fn set_focus_needs_a_mapped_client() {
    let mut ws = workspace_of(&[1, 2]);
    ws.set_client_mapped(Window::new(2), false);
    assert!(!ws.set_focus(Window::new(2)));
    assert!(!ws.set_focus(Window::new(9)));
    assert_eq!(ws.get_focused_window(), Some(Window::new(1)));
    ws.set_client_mapped(Window::new(2), true);
    assert!(ws.set_focus(Window::new(2)));
    assert_eq!(ws.get_focus(), Some(1));
}

#[test]
fn unmapping_the_focused_client_moves_the_focus() {
    let mut ws = workspace_of(&[1, 2, 3]);
    ws.set_client_mapped(Window::new(1), false);
    assert_eq!(ws.get_focused_window(), Some(Window::new(2)));
    ws.set_client_mapped(Window::new(2), false);
    assert_eq!(ws.get_focused_window(), Some(Window::new(3)));
    ws.set_client_mapped(Window::new(3), false);
    assert_eq!(ws.get_focused_window(), Some(Window::new(3)));
    assert!(!ws.is_window_mapped(Window::new(3)));
    ws.set_client_mapped(Window::new(9), false);
    assert_eq!(ws.num_of_windows(), 3);
}

#[test]
fn fullscreen_follows_its_window() {
    let mut ws = workspace_of(&[1, 2, 3]);
    ws.set_fullscreen(Window::new(9));
    assert_eq!(ws.get_fullscreen_window(), None);
    ws.set_fullscreen(Window::new(3));
    assert_eq!(ws.get_fullscreen_window(), Some(Window::new(3)));
    assert_eq!(ws.get_focused_window(), Some(Window::new(3)));
    ws.swap_windows(Window::new(1), Window::new(3));
    assert_eq!(ws.iter_windows(), vec![Window::new(3), Window::new(2), Window::new(1)]);
    assert_eq!(ws.get_focused_window(), Some(Window::new(3)));
    ws.remove_client(Window::new(2));
    assert_eq!(ws.get_focused_window(), Some(Window::new(3)));
    ws.set_client_mapped(Window::new(3), false);
    assert_eq!(ws.get_fullscreen_window(), None);
    assert_eq!(ws.get_focused_window(), Some(Window::new(1)));
    ws.set_fullscreen(Window::new(1));
    ws.clear_fullscreen();
    assert_eq!(ws.get_fullscreen_window(), None);
    ws.set_fullscreen(Window::new(1));
    ws.remove_client(Window::new(1));
    assert_eq!(ws.get_fullscreen_window(), None);
}

#[test]
fn swap_windows_keeps_the_focus_position() {
    let mut ws = workspace_of(&[1, 2, 3]);
    ws.swap_windows(Window::new(1), Window::new(9));
    assert_eq!(ws.iter_windows(), vec![Window::new(1), Window::new(2), Window::new(3)]);
    ws.swap_windows(Window::new(1), Window::new(3));
    assert_eq!(ws.iter_windows(), vec![Window::new(3), Window::new(2), Window::new(1)]);
    assert_eq!(ws.get_focus(), Some(0));
    assert_eq!(ws.index_of_window(Window::new(1)), Some(2));
    assert_eq!(ws.index_of_window(Window::new(4)), None);
}

#[test]
fn next_mapped_window_goes_round_and_skips() {
    let mut ws = workspace_of(&[1, 2, 3, 4]);
    ws.set_client_mapped(Window::new(2), false);
    assert!(ws.set_focus(Window::new(4)));
    assert_eq!(ws.next_mapped_window(1), Some(Window::new(1)));
    assert_eq!(ws.next_mapped_window(-1), Some(Window::new(3)));
    assert_eq!(ws.next_mapped_window(0), None);
    assert!(ws.set_focus(Window::new(1)));
    assert_eq!(ws.next_mapped_window(1), Some(Window::new(3)));
    assert_eq!(ws.next_mapped_window(-1), Some(Window::new(4)));
    assert_eq!(ws.next_mapped_window(isize::MAX), Some(Window::new(3)));
    assert_eq!(ws.next_mapped_window(isize::MIN), Some(Window::new(4)));
}

#[test]
fn client_weight_saturates_and_keeps_its_floor() {
    let mut client = Client { window: Window::new(1), size: 1, mapped: true };
    client.increase_window_size(4);
    assert_eq!(client.size(), 5);
    client.decrease_window_size(4);
    assert_eq!(client.size(), 1);
    client.decrease_window_size(1);
    assert_eq!(client.size(), 1);
    client.increase_window_size(u32::MAX);
    assert_eq!(client.size(), u32::MAX);
    client.decrease_window_size(u32::MAX);
    assert_eq!(client.size(), 1);
    client.set_mapped(false);
    assert!(!client.is_mapped());
    assert_eq!(client.window(), Window::new(1));

    let mut ws = workspace_of(&[1, 2]);
    assert!(ws.increase_focused_size(2));
    assert!(ws.decrease_focused_size(1));
    assert_eq!(ws.get_client(Window::new(1)).unwrap().size(), 2);
    assert_eq!(ws.get_client(Window::new(2)).unwrap().size(), 1);
    assert!(!Workspace::new().increase_focused_size(1));
    assert!(ws.mark_client_mapped(Window::new(2)));
    assert!(!ws.mark_client_mapped(Window::new(3)));
}
