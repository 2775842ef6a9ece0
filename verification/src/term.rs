//! What the screens of the device scanner do on a key press.
//!
//! Reading keys and drawing are the caller's part. The functions here decide
//! what a key means on each screen and change the list accordingly; the
//! caller performs the action that they answer with.

use vstd::prelude::*;

pub mod widgets;

use widgets::ListView;

verus! {

/// A key press, as far as the screens tell keys apart.
#[derive(Debug, Clone, Copy, PartialEq, Eq, Structural)]
pub enum Key {
    Char(char),
    Up,
    Down,
    Esc,
    Other,
}

/// What the main menu asks for.
#[derive(Debug, Clone, Copy, PartialEq, Eq, Structural)]
pub enum MenuAction {
    /// Open the scan screen.
    Scan,
    /// Leave the program.
    Quit,
    /// Wait for the next key.
    Ignore,
}

/// What the scan screen asks for.
#[derive(Debug, Clone, Copy, PartialEq, Eq, Structural)]
pub enum ScanAction {
    /// Fetch the devices anew and draw the list.
    Rescan,
    /// Draw the list.
    Redraw,
    /// Go back to the main menu.
    Leave,
    /// Wait for the next key.
    Ignore,
}

/// The main menu: `s` or `S` opens the scan screen, escape leaves.
pub fn menu_action(key: Key) -> (action: MenuAction)
    ensures
        action == (match key {
            Key::Char(c) => if c == 's' || c == 'S' {
                MenuAction::Scan
            } else {
                MenuAction::Ignore
            },
            Key::Esc => MenuAction::Quit,
            _ => MenuAction::Ignore,
        }),
{
    match key {
        Key::Char(c) => {
            if c == 's' || c == 'S' {
                MenuAction::Scan
            } else {
                MenuAction::Ignore
            }
        },
        Key::Esc => MenuAction::Quit,
        _ => MenuAction::Ignore,
    }
}

/// What the scan screen answers `key` with, whatever the list holds.
pub open spec fn scan_answer(key: Key) -> ScanAction {
    match key {
        Key::Char(c) => if c == 's' || c == 'n' {
            ScanAction::Rescan
        } else {
            ScanAction::Ignore
        },
        Key::Up | Key::Down => ScanAction::Redraw,
        Key::Esc => ScanAction::Leave,
        Key::Other => ScanAction::Ignore,
    }
}

/// The scan screen: `s` scans again, `n` switches the filter and scans
/// again, the arrows move the selection, escape goes back. Every other key
/// leaves the list as it is.
pub fn scan_action<T, F: Fn(&T) -> bool>(view: &mut ListView<T, F>, key: Key) -> (action:
    ScanAction)
    ensures
        action == scan_answer(key),
        final(view).heading() == old(view).heading(),
        final(view).predicate() == old(view).predicate(),
        final(view).data() == old(view).data(),
        final(view).filtering() == (if key == Key::Char('n') {
            !old(view).filtering()
        } else {
            old(view).filtering()
        }),
        match key {
            Key::Up => final(view).selection() == widgets::preceding(old(view).selection()),
            Key::Down => exists|keep: Seq<bool>|
                old(view).possible(keep) && final(view).selection() == widgets::following(
                    old(view).selection(),
                    old(view).shown(keep).len(),
                ),
            _ => final(view).selection() == old(view).selection(),
        },
{
    match key {
        Key::Char(c) => {
            if c == 'n' {
                view.toggle_filter();
                ScanAction::Rescan
            } else if c == 's' {
                ScanAction::Rescan
            } else {
                ScanAction::Ignore
            }
        },
        Key::Up => {
            view.select_prev_item();
            ScanAction::Redraw
        },
        Key::Down => {
            view.select_next_item();
            ScanAction::Redraw
        },
        Key::Esc => ScanAction::Leave,
        Key::Other => ScanAction::Ignore,
    }
}

} // verus!
