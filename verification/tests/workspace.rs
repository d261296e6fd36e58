use comet::colors::Rgba;
use comet::frontend::{hex_to_rgb, AppEvent, Colors};
use comet::render::Viewport;
use comet::manager::TerminalManager;
use comet::workspace::{dividers_between, Divider, DividerOrientation, PaneViewport, Workspace};

fn vp(id: u64, x: u32, y: u32, width: u32, height: u32) -> PaneViewport {
    PaneViewport { pane_id: id, x, y, width, height }
}

#[test]
fn dividers_fill_gaps_between_panes() {
    let vps = vec![vp(1, 0, 30, 100, 50), vp(2, 0, 83, 90, 40), vp(3, 0, 123, 90, 10)];
    let ds = dividers_between(&vps);
    assert_eq!(
        ds,
        vec![Divider { x: 0, y: 80, width: 90, height: 3, orientation: DividerOrientation::Horizontal }]
    );
    let side = vec![vp(1, 0, 0, 40, 50), vp(2, 43, 0, 40, 60)];
    assert_eq!(
        dividers_between(&side),
        vec![Divider { x: 40, y: 0, width: 3, height: 50, orientation: DividerOrientation::Vertical }]
    );
    assert!(dividers_between(&vec![vp(1, 0, 0, 10, 10)]).is_empty());
}

#[test]
fn pane_viewport_to_render_viewport() {
    assert_eq!(vp(7, 1, 2, 3, 4).to_render_viewport(), Viewport { x: 1, y: 2, width: 3, height: 4 });
}

#[test]
fn workspace_starts_with_one_tab_and_pane() {
    let ws: Workspace<&str, f32> = Workspace::new("first", 1.0);
    assert_eq!(ws.tab_count(), 1);
    assert_eq!(ws.pane_count(), 1);
    assert_eq!(ws.session_count(), 1);
    assert_eq!(ws.active_tab().id, 1);
    assert_eq!(ws.active_tab().title, "terminal");
    assert_eq!(ws.active_pane().id, 1);
    assert_eq!(ws.active_pane().title, "shell");
    assert_eq!(*ws.active_session(), "first");
    assert_eq!(ws.active_tab().pane_ratios, vec![1.0]);
}

#[test]
fn workspace_tabs_open_switch_and_close() {
    let mut ws: Workspace<u32, f32> = Workspace::new(10, 1.0);
    assert_eq!(ws.create_tab(20, 1.0), 2);
    assert_eq!(ws.create_tab(30, 1.0), 3);
    assert_eq!(ws.active_tab, 2);
    assert_eq!(ws.active_tab().title, "terminal-3");
    assert_eq!(ws.active_pane().id, 3);
    ws.next_tab();
    assert_eq!(ws.active_tab, 0);
    ws.previous_tab();
    assert_eq!(ws.active_tab, 2);
    assert!(ws.switch_to_tab(1));
    assert!(!ws.switch_to_tab(3));
    assert_eq!(ws.active_tab, 1);
    // Closing the middle tab makes the next one active.
    assert!(!ws.close_active_tab());
    assert_eq!(ws.tab_count(), 2);
    assert_eq!(*ws.active_session(), 30);
    assert!(ws.switch_to_tab(1));
    assert!(!ws.close_active_tab());
    assert_eq!(ws.active_tab, 0);
    // The last tab stays.
    assert!(!ws.close_active_tab());
    assert_eq!(ws.tab_count(), 1);
    *ws.active_session_mut() = 11;
    assert_eq!(*ws.active_session(), 11);
}

#[test]
fn workspace_panes_split_focus_and_close() {
    let mut ws: Workspace<u32, f32> = Workspace::new(1, 1.0);
    let half = ws.active_tab().pane_ratios[0] * 0.5;
    assert_eq!(ws.split_horizontal(2, half), 2);
    assert_eq!(ws.active_tab().pane_ratios, vec![0.5, 0.5]);
    assert_eq!(ws.active_tab().active_pane, 1);
    assert_eq!(ws.active_pane().title, "split");
    let half = ws.active_tab().pane_ratios[1] * 0.5;
    assert_eq!(ws.split_vertical(3, half), 3);
    assert_eq!(ws.active_tab().pane_ratios, vec![0.5, 0.25, 0.25]);
    assert_eq!(ws.pane_count(), 3);
    ws.focus_down();
    assert_eq!(ws.active_tab().active_pane, 2);
    ws.focus_up();
    ws.focus_up();
    ws.focus_up();
    assert_eq!(ws.active_tab().active_pane, 0);
    ws.focus_left();
    ws.focus_right();
    assert_eq!(ws.active_tab().active_pane, 0);
    assert!(!ws.close_active_pane());
    assert_eq!(ws.active_tab().pane_ratios, vec![0.25, 0.25]);
    assert_eq!(*ws.active_session(), 2);
    ws.focus_down();
    assert!(!ws.close_active_pane());
    assert_eq!(ws.active_tab().active_pane, 0);
    assert!(!ws.close_active_pane());
    assert_eq!(ws.pane_count(), 1);
    ws.active_pane_mut().title = "renamed".to_string();
    assert_eq!(ws.active_pane().title, "renamed");
}

#[test]
fn workspace_reaps_dead_sessions() {
    let mut ws: Workspace<u32, f32> = Workspace::new(1, 1.0);
    ws.split_horizontal(2, 0.5);
    ws.create_tab(3, 1.0);
    ws.create_tab(4, 1.0);
    assert_eq!(ws.active_tab, 2);
    // Nothing dead: nothing changes.
    assert!(!ws.reap_dead(&vec![vec![true, true], vec![true], vec![true]]));
    assert_eq!(ws.pane_count(), 4);
    // The second pane of the first tab and the whole last tab die.
    assert!(ws.reap_dead(&vec![vec![true, false], vec![true], vec![false]]));
    assert_eq!(ws.tab_count(), 2);
    assert_eq!(ws.active_tab, 1);
    assert_eq!(ws.tabs[0].panes.len(), 1);
    assert_eq!(ws.tabs[0].active_pane, 0);
    // The shares are left as they were.
    assert_eq!(ws.tabs[0].pane_ratios.len(), 2);
    assert_eq!(*ws.active_session(), 3);
}

#[test]
fn manager_keeps_the_active_session() {
    let mut m = TerminalManager::new('a');
    assert_eq!(m.create_session('b'), 1);
    assert_eq!(m.create_session('c'), 2);
    assert_eq!(*m.active(), 'c');
    assert!(m.switch_to(1));
    assert!(!m.switch_to(5));
    // Removing an earlier session keeps 'b' active.
    assert!(!m.remove_session(0));
    assert_eq!(*m.active(), 'b');
    assert!(!m.remove_session(7));
    assert_eq!(m.len(), 2);
    // Removing the active one moves to the one before it.
    assert!(m.switch_to(1));
    assert!(!m.remove_session(1));
    assert_eq!(*m.active(), 'b');
    *m.active_mut() = 'B';
    assert_eq!(*m.session(0), 'B');
    assert!(m.remove_session(0));
    assert!(m.is_empty());
}

#[test]
fn manager_reaps_dead_sessions() {
    let mut m = TerminalManager::new(1);
    m.create_session(2);
    m.create_session(3);
    assert!(!m.reap_dead(&vec![true, true, true]));
    assert!(m.reap_dead(&vec![true, false, false]));
    assert_eq!(m.len(), 1);
    assert_eq!(*m.active(), 1);
    *m.session_mut(0) = 9;
    assert_eq!(*m.active(), 9);
}

#[test]
fn front_end_defaults() {
    let c = Colors::default();
    assert_eq!(c.background, "#1a1b1e");
    assert_eq!(c.tab_inactive, "#1e1e2e");
    assert!(matches!(AppEvent::Title(2, "t".to_string()), AppEvent::Title(2, _)));
}

#[test]
fn window_colours_parse_after_hashes() {
    assert_eq!(hex_to_rgb("#1a1b1e"), Rgba::new(0x1a, 0x1b, 0x1e, 255));
    assert_eq!(hex_to_rgb("cdd6f4"), Rgba::new(0xcd, 0xd6, 0xf4, 255));
    assert_eq!(hex_to_rgb("##313244"), Rgba::new(0x31, 0x32, 0x44, 255));
    // A field that is not a number reads as 0.
    assert_eq!(hex_to_rgb("#zz1b1e"), Rgba::new(0, 0x1b, 0x1e, 255));
    assert_eq!(hex_to_rgb("+f0000"), Rgba::new(0, 0, 0, 255));
}
