//! The words of the tray icon, and what its menu does.

use vstd::prelude::*;
use vstd::string::*;

use crate::relay::{RelayState, RelayStatus};
use crate::text;

verus! {

/// Event the settings window listens for to jump straight to the pairing panel.
pub const OPEN_PAIRING_EVENT: &'static str = "open-pairing";

/// What the icon says when the pointer rests on it.
pub open spec fn tooltip_text(state: RelayState) -> Seq<char> {
    match state {
        RelayState::Unpaired => "GourmelyPrint Bridge — sin vincular"@,
        RelayState::Connecting => "GourmelyPrint Bridge — Reconectando…"@,
        RelayState::Connected => "GourmelyPrint Bridge — conectado"@,
        RelayState::Rejected => "GourmelyPrint Bridge — vuelve a vincular la estación"@,
        RelayState::Standby => "GourmelyPrint Bridge — ya está abierto en otra ventana"@,
        RelayState::LedgerUnavailable =>
            "GourmelyPrint Bridge — no puede abrir su registro de impresiones"@,
    }
}

/// What the icon says when the pointer rests on it. Each state has its own
/// words: a bridge that needs somebody at this machine must not look like a dead
/// internet link.
pub fn tooltip_for(status: &RelayStatus) -> (r: String)
    ensures
        r@ == tooltip_text(status@.state),
{
    match status.state {
        RelayState::Unpaired => "GourmelyPrint Bridge — sin vincular".to_string(),
        RelayState::Connecting => "GourmelyPrint Bridge — Reconectando…".to_string(),
        RelayState::Connected => "GourmelyPrint Bridge — conectado".to_string(),
        RelayState::Rejected =>
            "GourmelyPrint Bridge — vuelve a vincular la estación".to_string(),
        RelayState::Standby =>
            "GourmelyPrint Bridge — ya está abierto en otra ventana".to_string(),
        RelayState::LedgerUnavailable =>
            "GourmelyPrint Bridge — no puede abrir su registro de impresiones".to_string(),
    }
}

/// What an item of the menu does.
#[derive(Debug, Clone, Copy, PartialEq, Eq)]
pub enum MenuAction {
    /// Brings the settings window to the front.
    Open,
    /// Opens the window on the pairing panel.
    Pair,
    /// Prints a test ticket.
    Test,
    Quit,
}

/// What the item with this id does.
pub open spec fn action_of(id: Seq<char>) -> Option<MenuAction> {
    if id == "open"@ {
        Some(MenuAction::Open)
    } else if id == "pair"@ {
        Some(MenuAction::Pair)
    } else if id == "test"@ {
        Some(MenuAction::Test)
    } else if id == "quit"@ {
        Some(MenuAction::Quit)
    } else {
        None
    }
}

/// What the item with this id does.
pub fn menu_action(id: &str) -> (r: Option<MenuAction>)
    ensures
        r == action_of(id@),
{
    if text::same(id, "open") {
        Some(MenuAction::Open)
    } else if text::same(id, "pair") {
        Some(MenuAction::Pair)
    } else if text::same(id, "test") {
        Some(MenuAction::Test)
    } else if text::same(id, "quit") {
        Some(MenuAction::Quit)
    } else {
        None
    }
}

/// No two states have the same words.
pub proof fn law_tooltips_are_distinct(a: RelayState, b: RelayState)
    ensures
        tooltip_text(a) == tooltip_text(b) ==> a == b,
{
    reveal_strlit("GourmelyPrint Bridge — sin vincular");
    reveal_strlit("GourmelyPrint Bridge — Reconectando…");
    reveal_strlit("GourmelyPrint Bridge — conectado");
    reveal_strlit("GourmelyPrint Bridge — vuelve a vincular la estación");
    reveal_strlit("GourmelyPrint Bridge — ya está abierto en otra ventana");
    reveal_strlit("GourmelyPrint Bridge — no puede abrir su registro de impresiones");
    assert("GourmelyPrint Bridge — sin vincular"@[23] == 's');
    assert("GourmelyPrint Bridge — Reconectando…"@[23] == 'R');
    assert("GourmelyPrint Bridge — conectado"@[23] == 'c');
    assert("GourmelyPrint Bridge — vuelve a vincular la estación"@[23] == 'v');
    assert("GourmelyPrint Bridge — ya está abierto en otra ventana"@[23] == 'y');
    assert("GourmelyPrint Bridge — no puede abrir su registro de impresiones"@[23] == 'n');
}

/// Each state is told by its own words.
pub proof fn law_a_state_is_told_by_its_words(state: RelayState)
    ensures
        tooltip_text(state) == "GourmelyPrint Bridge — sin vincular"@ <==> state is Unpaired,
        tooltip_text(state) == "GourmelyPrint Bridge — Reconectando…"@ <==> state is Connecting,
        tooltip_text(state) == "GourmelyPrint Bridge — conectado"@ <==> state is Connected,
        tooltip_text(state) == "GourmelyPrint Bridge — vuelve a vincular la estación"@
            <==> state is Rejected,
        tooltip_text(state) == "GourmelyPrint Bridge — ya está abierto en otra ventana"@
            <==> state is Standby,
        tooltip_text(state) == "GourmelyPrint Bridge — no puede abrir su registro de impresiones"@
            <==> state is LedgerUnavailable,
{
    law_tooltips_are_distinct(state, RelayState::Unpaired);
    law_tooltips_are_distinct(state, RelayState::Connecting);
    law_tooltips_are_distinct(state, RelayState::Connected);
    law_tooltips_are_distinct(state, RelayState::Rejected);
    law_tooltips_are_distinct(state, RelayState::Standby);
    law_tooltips_are_distinct(state, RelayState::LedgerUnavailable);
}

/// Each item of the menu does what its id says, and no other id does anything.
pub proof fn law_an_item_does_what_its_id_says(id: Seq<char>)
    ensures
        action_of(id) == Some(MenuAction::Open) <==> id == "open"@,
        action_of(id) == Some(MenuAction::Pair) <==> id == "pair"@,
        action_of(id) == Some(MenuAction::Test) <==> id == "test"@,
        action_of(id) == Some(MenuAction::Quit) <==> id == "quit"@,
{
    reveal_strlit("open");
    reveal_strlit("pair");
    reveal_strlit("test");
    reveal_strlit("quit");
    assert("open"@[0] == 'o' && "pair"@[0] == 'p' && "test"@[0] == 't' && "quit"@[0] == 'q');
}

} // verus!
