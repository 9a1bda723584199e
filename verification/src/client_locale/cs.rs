//! The Czech strings of the browser client.

use vstd::prelude::*;
use crate::client_locale::Helper;

verus! {

/// Fills the Czech client strings.
pub fn load(h: &mut Helper) {
    h.add("ui.page_title", "H\u{E1}dej kdo jsem");
    h.add("ui.game_header", "H\u{E1}dej kdo jsem");
    h.add("ui.new_game", "Nov\u{E1} hra, n\u{E1}hodn\u{E1} identita");
    h.add("ui.new_custom_game", "Hra pro p\u{159}\u{ED}tele");
    h.add("ui.404", "404");
    h.add("ui.server_error", "Chyba serveru");
    h.add("ui.custom_game_design", "Vyrob si svou hru");
    h.add("game.prompt", "Ptej se!");
    h.add("game.instructions_toggle", "Pravidla hry");
    h.add("game.rule1", "Jsou povoleny pouze ot\u{E1}zky, na kter\u{E9} lze odpov\u{11B}d\u{11B}t ANO nebo NE.");
    h.add("game.rule2", "Pokud na ot\u{E1}zku nelze odpov\u{11B}d\u{11B}t jednoduch\u{FD}m ano/ne, odpov\u{11B}\u{10F} bude NELZE.");
    h.add("game.rule3", "Napi\u{161}: \"KONEC\" a j\u{E1} odhal\u{ED}m svou identitu a vysv\u{11B}tl\u{ED}m sv\u{E9} odpov\u{11B}di.");
    h.add("ui.send", "Odeslat");
    h.add("ui.game_id", "ID hry: {}");
    h.add("verdict.yes", "Ano");
    h.add("verdict.no", "Ne");
    h.add("verdict.unable", "Nelze");
    h.add("verdict.final", "Konec");
    h.add("verdict.behave", "Nezlob!");
    h.add("verdict.na", "N/A");
    h.add("ui.language", "Jazyk");
    h.add("dialog.confirm_language_switch", "Zm\u{11B}na jazyka ukon\u{10D}\u{ED} aktu\u{E1}ln\u{ED} hru. Opravdu m\u{E1}m hru ukon\u{10D}it?");
    h.add("dialog.yes", "Ano");
    h.add("dialog.no", "Ne");
    h.add("custom.your_name_label", "Identita:");
    h.add("custom.comment_label", "Koment\u{E1}\u{159}:");
    h.add("custom.identity_placeholder", "identita k uhodnut\u{ED}");
    h.add("custom.comment", "Koment\u{E1}\u{159} ke h\u{159}e");
    h.add("custom.cancel_button", "Zru\u{161}it");
    h.add("custom.create_button", "Vytvo\u{159}it");
}

} // verus!
