//! Commands the sidebar page issues: per-service context-menu entries, whose
//! command ids encode the service's position and the action, and the
//! `ferdirust:switch:<id>` / `ferdirust:action:<verb>:<id>` title signals.

use vstd::prelude::*;
use crate::ipc::messages::{split_colon, split_colon_at};
use crate::text::{chars_of, push_str, same_text, starts_with_seq, string_of, strip_prefix_text};

verus! {

pub const MENU_ACTION_RELOAD: u32 = 0;
pub const MENU_ACTION_HARD_RELOAD: u32 = 1;
pub const MENU_ACTION_REPAIR: u32 = 2;
pub const MENU_ACTION_RESET: u32 = 3;
/// Submenu containers need their own (never dispatched) command ids.
pub const MENU_SUBMENU_REPAIR: u32 = 4;
pub const MENU_SUBMENU_RESET: u32 = 5;
/// Command ids reserved per service.
pub const MENU_IDS_PER_SERVICE: u32 = 8;

pub const HARD_RELOAD_LABEL: &'static str = "Hard Reload (bypass cache)";
pub const REPAIR_MENU_LABEL: &'static str = "Repair (keeps login)";
pub const REPAIR_ITEM_LABEL: &'static str = "Clear caches and local data";
pub const RESET_MENU_LABEL: &'static str = "Reset (logs out!)";

/// What can be done to one service from the sidebar.
#[derive(Debug, Clone, Copy, PartialEq, Eq, Structural)]
pub enum ServiceAction {
    Reload,
    HardReload,
    Repair,
    Reset,
}

/// The action's offset within a service's block of command ids.
pub open spec fn action_code(a: ServiceAction) -> u32 {
    match a {
        ServiceAction::Reload => MENU_ACTION_RELOAD,
        ServiceAction::HardReload => MENU_ACTION_HARD_RELOAD,
        ServiceAction::Repair => MENU_ACTION_REPAIR,
        ServiceAction::Reset => MENU_ACTION_RESET,
    }
}

/// The action at an offset, if any (submenu containers have none).
pub open spec fn action_of_code(code: u32) -> Option<ServiceAction> {
    if code == MENU_ACTION_RELOAD {
        Some(ServiceAction::Reload)
    } else if code == MENU_ACTION_HARD_RELOAD {
        Some(ServiceAction::HardReload)
    } else if code == MENU_ACTION_REPAIR {
        Some(ServiceAction::Repair)
    } else if code == MENU_ACTION_RESET {
        Some(ServiceAction::Reset)
    } else {
        None
    }
}

/// The service position and action a command id stands for.
pub open spec fn spec_decode_menu_command(base: u32, cmd: u32) -> Option<(usize, ServiceAction)> {
    if cmd < base {
        None
    } else {
        match action_of_code(((cmd - base) % (MENU_IDS_PER_SERVICE as int)) as u32) {
            Some(a) => Some((((cmd - base) / (MENU_IDS_PER_SERVICE as int)) as usize, a)),
            None => None,
        }
    }
}

/// The command id of entry `code` for the service at `index`, counting from
/// the first user command id `base`.
pub fn menu_command_id(base: u32, index: u32, code: u32) -> (r: u32)
    requires
        base + index * MENU_IDS_PER_SERVICE + code <= u32::MAX,
    ensures
        r == base + index * MENU_IDS_PER_SERVICE + code,
{
    base + index * MENU_IDS_PER_SERVICE + code
}

/// The service position and action of a chosen command id.
pub fn decode_menu_command(base: u32, cmd: u32) -> (r: Option<(usize, ServiceAction)>)
    ensures
        r == spec_decode_menu_command(base, cmd),
{
    if cmd < base {
        return None;
    }
    let index = ((cmd - base) / MENU_IDS_PER_SERVICE) as usize;
    let code = (cmd - base) % MENU_IDS_PER_SERVICE;
    let action = if code == MENU_ACTION_RELOAD {
        ServiceAction::Reload
    } else if code == MENU_ACTION_HARD_RELOAD {
        ServiceAction::HardReload
    } else if code == MENU_ACTION_REPAIR {
        ServiceAction::Repair
    } else if code == MENU_ACTION_RESET {
        ServiceAction::Reset
    } else {
        return None;
    };
    Some((index, action))
}

/// Choosing the entry made for an action of the service at `index` runs
/// that action on that service.
pub proof fn lemma_menu_round_trip(base: u32, index: u32, a: ServiceAction)
    requires
        base + index * MENU_IDS_PER_SERVICE + action_code(a) <= u32::MAX,
    ensures
        spec_decode_menu_command(
            base,
            (base + index * MENU_IDS_PER_SERVICE + action_code(a)) as u32,
        ) == Some((index as usize, a)),
{
    let c = action_code(a) as int;
    let i = index as int;
    assert(0 <= c < 8);
    assert((i * 8 + c) / 8 == i && (i * 8 + c) % 8 == c) by (nonlinear_arith)
        requires
            0 <= c < 8,
            0 <= i,
    ;
}

/// Submenu containers decode to no action.
pub proof fn lemma_submenus_do_nothing(base: u32, index: u32)
    requires
        base + index * MENU_IDS_PER_SERVICE + MENU_SUBMENU_RESET <= u32::MAX,
    ensures
        spec_decode_menu_command(
            base,
            (base + index * MENU_IDS_PER_SERVICE + MENU_SUBMENU_REPAIR) as u32,
        ) is None,
        spec_decode_menu_command(
            base,
            (base + index * MENU_IDS_PER_SERVICE + MENU_SUBMENU_RESET) as u32,
        ) is None,
{
    let i = index as int;
    assert((i * 8 + 4) % 8 == 4 && (i * 8 + 5) % 8 == 5) by (nonlinear_arith)
        requires
            0 <= i,
    ;
}

/// `Reload <name>`
pub fn reload_label(name: &str) -> (r: String)
    ensures
        r@ == "Reload "@ + name@,
{
    let mut r = String::new();
    push_str(&mut r, "Reload ");
    push_str(&mut r, name);
    r
}

/// `Yes, wipe all data for <name>`
pub fn reset_confirm_label(name: &str) -> (r: String)
    ensures
        r@ == "Yes, wipe all data for "@ + name@,
{
    let mut r = String::new();
    push_str(&mut r, "Yes, wipe all data for ");
    push_str(&mut r, name);
    r
}

/// The service a sidebar link (`ferdisvc:<id>`) points at.
pub fn service_of_link(link: &str) -> (r: Option<String>)
    ensures
        match r {
            Some(id) => starts_with_seq(link@, "ferdisvc:"@) && id@ == link@.skip(
                "ferdisvc:"@.len() as int,
            ),
            None => !starts_with_seq(link@, "ferdisvc:"@),
        },
{
    strip_prefix_text(link, "ferdisvc:")
}

/// A command carried by the sidebar page's title.
pub enum SidebarCommand {
    /// `ferdirust:switch:<id>`
    Switch(String),
    /// `ferdirust:action:<verb>:<id>`
    Run(ServiceAction, String),
}

/// A sidebar command with the id as characters.
pub enum SidebarCommandView {
    Switch(Seq<char>),
    Run(ServiceAction, Seq<char>),
}

impl View for SidebarCommand {
    type V = SidebarCommandView;

    open spec fn view(&self) -> SidebarCommandView {
        match self {
            SidebarCommand::Switch(id) => SidebarCommandView::Switch(id@),
            SidebarCommand::Run(a, id) => SidebarCommandView::Run(*a, id@),
        }
    }
}

/// The action a verb names: `reload`, `hardreload`, `repair`, `reset`.
pub open spec fn action_of_verb(verb: Seq<char>) -> Option<ServiceAction> {
    if verb == "reload"@ {
        Some(ServiceAction::Reload)
    } else if verb == "hardreload"@ {
        Some(ServiceAction::HardReload)
    } else if verb == "repair"@ {
        Some(ServiceAction::Repair)
    } else if verb == "reset"@ {
        Some(ServiceAction::Reset)
    } else {
        None
    }
}

/// What a sidebar title asks for, if anything.
pub open spec fn spec_sidebar_command(title: Seq<char>) -> Option<SidebarCommandView> {
    if starts_with_seq(title, "ferdirust:switch:"@) {
        Some(SidebarCommandView::Switch(title.skip("ferdirust:switch:"@.len() as int)))
    } else if starts_with_seq(title, "ferdirust:action:"@) {
        let (verb, id) = split_colon(title.skip("ferdirust:action:"@.len() as int));
        match (action_of_verb(verb), id) {
            (Some(a), Some(id)) => Some(SidebarCommandView::Run(a, id)),
            _ => None,
        }
    } else {
        None
    }
}

fn verb_action(verb: &str) -> (r: Option<ServiceAction>)
    ensures
        r == action_of_verb(verb@),
{
    if same_text(verb, "reload") {
        Some(ServiceAction::Reload)
    } else if same_text(verb, "hardreload") {
        Some(ServiceAction::HardReload)
    } else if same_text(verb, "repair") {
        Some(ServiceAction::Repair)
    } else if same_text(verb, "reset") {
        Some(ServiceAction::Reset)
    } else {
        None
    }
}

/// Reads the command in a sidebar title.
pub fn parse_sidebar_title(title: &str) -> (r: Option<SidebarCommand>)
    ensures
        match r {
            Some(c) => spec_sidebar_command(title@) == Some(c@),
            None => spec_sidebar_command(title@) is None,
        },
{
    if let Some(id) = strip_prefix_text(title, "ferdirust:switch:") {
        return Some(SidebarCommand::Switch(id));
    }
    if let Some(rest) = strip_prefix_text(title, "ferdirust:action:") {
        let chars = chars_of(rest.as_str());
        let n = chars.len();
        assert(chars@.subrange(0, n as int) =~= rest@);
        match split_colon_at(&chars, 0) {
            Some(i) => {
                let verb = string_of(&chars, 0, i);
                match verb_action(verb.as_str()) {
                    Some(a) => Some(SidebarCommand::Run(a, string_of(&chars, i + 1, n))),
                    None => None,
                }
            },
            None => None,
        }
    } else {
        None
    }
}

} // verus!
