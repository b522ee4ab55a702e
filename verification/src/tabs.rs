//! Tab and pane state for the surrounding terminal application: which tab
//! is selected and which secondary board pane is open.

use vstd::prelude::*;

verus! {

/// Which secondary pane is shown beside the board.
#[derive(Clone, Copy, Debug, PartialEq, Eq, Structural)]
pub enum SecondaryBoardPane {
    Hidden,
    MovesTree,
    History,
}

impl SecondaryBoardPane {
    /// The pane after toggling the legal-moves tree: closed when it was
    /// open, opened from anything else.
    pub fn toggle_moves_tree(self) -> (r: SecondaryBoardPane)
        ensures
            r == (if self == SecondaryBoardPane::MovesTree {
                SecondaryBoardPane::Hidden
            } else {
                SecondaryBoardPane::MovesTree
            }),
    {
        match self {
            SecondaryBoardPane::MovesTree => SecondaryBoardPane::Hidden,
            _ => SecondaryBoardPane::MovesTree,
        }
    }

    /// The pane after toggling the history list: closed when it was open,
    /// opened from anything else.
    pub fn toggle_history(self) -> (r: SecondaryBoardPane)
        ensures
            r == (if self == SecondaryBoardPane::History {
                SecondaryBoardPane::Hidden
            } else {
                SecondaryBoardPane::History
            }),
    {
        match self {
            SecondaryBoardPane::History => SecondaryBoardPane::Hidden,
            _ => SecondaryBoardPane::History,
        }
    }
}

/// The state of the tab strip: the tab titles and the selected index.
#[derive(Debug)]
pub struct TabsState {
    pub titles: Vec<String>,
    pub index: usize,
}

impl TabsState {
    /// A tab strip with the first tab selected.
    pub fn new(titles: Vec<String>) -> (r: TabsState)
        ensures
            r.titles == titles,
            r.index == 0,
    {
        TabsState { titles, index: 0 }
    }

    /// Selects the next tab, wrapping around past the last one.
    pub fn next(&mut self)
        requires
            old(self).titles@.len() > 0,
            old(self).index < old(self).titles@.len(),
        ensures
            final(self).titles == old(self).titles,
            final(self).index as int == (old(self).index + 1) % (old(self).titles@.len() as int),
    {
        let n = self.titles.len();
        self.index = (self.index + 1) % n;
    }

    /// Selects the previous tab, wrapping around past the first one.
    pub fn previous(&mut self)
        requires
            old(self).titles@.len() > 0,
        ensures
            final(self).titles == old(self).titles,
            final(self).index as int == if old(self).index > 0 {
                old(self).index - 1
            } else {
                old(self).titles@.len() - 1
            },
    {
        if self.index > 0 {
            self.index = self.index - 1;
        } else {
            self.index = self.titles.len() - 1;
        }
    }
}

} // verus!
