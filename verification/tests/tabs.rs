use chess_tui::tabs::{SecondaryBoardPane, TabsState};

#[test]
fn test_tabs_cycle() {
    let mut tabs = TabsState::new(vec![
        "Board".to_string(),
        "Console".to_string(),
        "Help".to_string(),
    ]);
    assert_eq!(tabs.index, 0);
    tabs.next();
    assert_eq!(tabs.index, 1);
    tabs.next();
    assert_eq!(tabs.index, 2);
    tabs.next();
    assert_eq!(tabs.index, 0);
    tabs.previous();
    assert_eq!(tabs.index, 2);
    tabs.previous();
    assert_eq!(tabs.index, 1);
}

#[test]
fn test_pane_toggles() {
    let pane = SecondaryBoardPane::Hidden;
    let pane = pane.toggle_moves_tree();
    assert_eq!(pane, SecondaryBoardPane::MovesTree);
    let pane = pane.toggle_moves_tree();
    assert_eq!(pane, SecondaryBoardPane::Hidden);
    let pane = pane.toggle_history();
    assert_eq!(pane, SecondaryBoardPane::History);
    // opening the other pane replaces the current one
    let pane = pane.toggle_moves_tree();
    assert_eq!(pane, SecondaryBoardPane::MovesTree);
    let pane = pane.toggle_history();
    assert_eq!(pane, SecondaryBoardPane::History);
    let pane = pane.toggle_history();
    assert_eq!(pane, SecondaryBoardPane::Hidden);
}
