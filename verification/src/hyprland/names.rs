//! The names that the compositor's event socket uses, and their recognition.

use vstd::prelude::*;

use crate::text::chars_eq_str;

verus! {

/// The kind of an event, named by the text before `>>` on its line.
#[derive(Clone, Copy, Debug, PartialEq, Eq, Structural)]
pub enum EventName {
    Workspace,
    WorkspaceV2,
    FocusedMonitor,
    ActiveWindow,
    ActiveWindowV2,
    Fullscreen,
    MonitorRemoved,
    MonitorAdded,
    MonitorAddedV2,
    CreateWorkspace,
    CreateWorkspaceV2,
    DestroyWorkspace,
    DestroyWorkspaceV2,
    MoveWorkspace,
    MoveWorkspaceV2,
    RenameWorkspace,
    ActiveSpecial,
    ActiveLayout,
    OpenWindow,
    CloseWindow,
    MoveWindow,
    MoveWindowV2,
    OpenLayer,
    CloseLayer,
    Submap,
    ChangeFloatingMode,
    Urgent,
    Minimize,
    Screencast,
    WindowTitle,
    ToggleGroup,
    MoveIntoGroup,
    MoveOutOfGroup,
    IgnoreGroupLock,
    LockGroups,
    ConfigReloaded,
    Pin,
}

/// The event kind that the name `name` stands for.
pub open spec fn spec_event_name(name: Seq<char>) -> Option<EventName> {
    if name == "workspace"@ {
        Some(EventName::Workspace)
    } else if name == "workspacev2"@ {
        Some(EventName::WorkspaceV2)
    } else if name == "focusedmon"@ {
        Some(EventName::FocusedMonitor)
    } else if name == "activewindow"@ {
        Some(EventName::ActiveWindow)
    } else if name == "activewindowv2"@ {
        Some(EventName::ActiveWindowV2)
    } else if name == "fullscreen"@ {
        Some(EventName::Fullscreen)
    } else if name == "monitorremoved"@ {
        Some(EventName::MonitorRemoved)
    } else if name == "monitoradded"@ {
        Some(EventName::MonitorAdded)
    } else if name == "monitoraddedv2"@ {
        Some(EventName::MonitorAddedV2)
    } else if name == "createworkspace"@ {
        Some(EventName::CreateWorkspace)
    } else if name == "createworkspacev2"@ {
        Some(EventName::CreateWorkspaceV2)
    } else if name == "destroyworkspace"@ {
        Some(EventName::DestroyWorkspace)
    } else if name == "destroyworkspacev2"@ {
        Some(EventName::DestroyWorkspaceV2)
    } else if name == "moveworkspace"@ {
        Some(EventName::MoveWorkspace)
    } else if name == "moveworkspacev2"@ {
        Some(EventName::MoveWorkspaceV2)
    } else if name == "renameworkspace"@ {
        Some(EventName::RenameWorkspace)
    } else if name == "activespecial"@ {
        Some(EventName::ActiveSpecial)
    } else if name == "activelayout"@ {
        Some(EventName::ActiveLayout)
    } else if name == "openwindow"@ {
        Some(EventName::OpenWindow)
    } else if name == "closewindow"@ {
        Some(EventName::CloseWindow)
    } else if name == "movewindow"@ {
        Some(EventName::MoveWindow)
    } else if name == "movewindowv2"@ {
        Some(EventName::MoveWindowV2)
    } else if name == "openlayer"@ {
        Some(EventName::OpenLayer)
    } else if name == "closelayer"@ {
        Some(EventName::CloseLayer)
    } else if name == "submap"@ {
        Some(EventName::Submap)
    } else if name == "changefloatingmode"@ {
        Some(EventName::ChangeFloatingMode)
    } else if name == "urgent"@ {
        Some(EventName::Urgent)
    } else if name == "minimize"@ {
        Some(EventName::Minimize)
    } else if name == "screencast"@ {
        Some(EventName::Screencast)
    } else if name == "windowtitle"@ {
        Some(EventName::WindowTitle)
    } else if name == "togglegroup"@ {
        Some(EventName::ToggleGroup)
    } else if name == "moveintogroup"@ {
        Some(EventName::MoveIntoGroup)
    } else if name == "moveoutofgroup"@ {
        Some(EventName::MoveOutOfGroup)
    } else if name == "ignoregrouplock"@ {
        Some(EventName::IgnoreGroupLock)
    } else if name == "lockgroups"@ {
        Some(EventName::LockGroups)
    } else if name == "configreloaded"@ {
        Some(EventName::ConfigReloaded)
    } else if name == "pin"@ {
        Some(EventName::Pin)
    } else {
        None
    }
}

/// No event name holds a `>`: the names are made of lowercase letters and
/// digits.
pub proof fn lemma_event_name_chars(name: Seq<char>)
    requires
        spec_event_name(name) is Some,
    ensures
        forall|i: int| 0 <= i < name.len() ==> name[i] != '>',
{
    if name == "workspace"@ {
        reveal_strlit("workspace");
        assert(name =~= "workspace"@);
    } else if name == "workspacev2"@ {
        reveal_strlit("workspacev2");
        assert(name =~= "workspacev2"@);
    } else if name == "focusedmon"@ {
        reveal_strlit("focusedmon");
        assert(name =~= "focusedmon"@);
    } else if name == "activewindow"@ {
        reveal_strlit("activewindow");
        assert(name =~= "activewindow"@);
    } else if name == "activewindowv2"@ {
        reveal_strlit("activewindowv2");
        assert(name =~= "activewindowv2"@);
    } else if name == "fullscreen"@ {
        reveal_strlit("fullscreen");
        assert(name =~= "fullscreen"@);
    } else if name == "monitorremoved"@ {
        reveal_strlit("monitorremoved");
        assert(name =~= "monitorremoved"@);
    } else if name == "monitoradded"@ {
        reveal_strlit("monitoradded");
        assert(name =~= "monitoradded"@);
    } else if name == "monitoraddedv2"@ {
        reveal_strlit("monitoraddedv2");
        assert(name =~= "monitoraddedv2"@);
    } else if name == "createworkspace"@ {
        reveal_strlit("createworkspace");
        assert(name =~= "createworkspace"@);
    } else if name == "createworkspacev2"@ {
        reveal_strlit("createworkspacev2");
        assert(name =~= "createworkspacev2"@);
    } else if name == "destroyworkspace"@ {
        reveal_strlit("destroyworkspace");
        assert(name =~= "destroyworkspace"@);
    } else if name == "destroyworkspacev2"@ {
        reveal_strlit("destroyworkspacev2");
        assert(name =~= "destroyworkspacev2"@);
    } else if name == "moveworkspace"@ {
        reveal_strlit("moveworkspace");
        assert(name =~= "moveworkspace"@);
    } else if name == "moveworkspacev2"@ {
        reveal_strlit("moveworkspacev2");
        assert(name =~= "moveworkspacev2"@);
    } else if name == "renameworkspace"@ {
        reveal_strlit("renameworkspace");
        assert(name =~= "renameworkspace"@);
    } else if name == "activespecial"@ {
        reveal_strlit("activespecial");
        assert(name =~= "activespecial"@);
    } else if name == "activelayout"@ {
        reveal_strlit("activelayout");
        assert(name =~= "activelayout"@);
    } else if name == "openwindow"@ {
        reveal_strlit("openwindow");
        assert(name =~= "openwindow"@);
    } else if name == "closewindow"@ {
        reveal_strlit("closewindow");
        assert(name =~= "closewindow"@);
    } else if name == "movewindow"@ {
        reveal_strlit("movewindow");
        assert(name =~= "movewindow"@);
    } else if name == "movewindowv2"@ {
        reveal_strlit("movewindowv2");
        assert(name =~= "movewindowv2"@);
    } else if name == "openlayer"@ {
        reveal_strlit("openlayer");
        assert(name =~= "openlayer"@);
    } else if name == "closelayer"@ {
        reveal_strlit("closelayer");
        assert(name =~= "closelayer"@);
    } else if name == "submap"@ {
        reveal_strlit("submap");
        assert(name =~= "submap"@);
    } else if name == "changefloatingmode"@ {
        reveal_strlit("changefloatingmode");
        assert(name =~= "changefloatingmode"@);
    } else if name == "urgent"@ {
        reveal_strlit("urgent");
        assert(name =~= "urgent"@);
    } else if name == "minimize"@ {
        reveal_strlit("minimize");
        assert(name =~= "minimize"@);
    } else if name == "screencast"@ {
        reveal_strlit("screencast");
        assert(name =~= "screencast"@);
    } else if name == "windowtitle"@ {
        reveal_strlit("windowtitle");
        assert(name =~= "windowtitle"@);
    } else if name == "togglegroup"@ {
        reveal_strlit("togglegroup");
        assert(name =~= "togglegroup"@);
    } else if name == "moveintogroup"@ {
        reveal_strlit("moveintogroup");
        assert(name =~= "moveintogroup"@);
    } else if name == "moveoutofgroup"@ {
        reveal_strlit("moveoutofgroup");
        assert(name =~= "moveoutofgroup"@);
    } else if name == "ignoregrouplock"@ {
        reveal_strlit("ignoregrouplock");
        assert(name =~= "ignoregrouplock"@);
    } else if name == "lockgroups"@ {
        reveal_strlit("lockgroups");
        assert(name =~= "lockgroups"@);
    } else if name == "configreloaded"@ {
        reveal_strlit("configreloaded");
        assert(name =~= "configreloaded"@);
    } else if name == "pin"@ {
        reveal_strlit("pin");
        assert(name =~= "pin"@);
    }
}

/// Recognizes an event name.
pub fn event_name(name: &[char]) -> (r: Option<EventName>)
    ensures
        r == spec_event_name(name@),
{
    if chars_eq_str(name, "workspace") {
        Some(EventName::Workspace)
    } else if chars_eq_str(name, "workspacev2") {
        Some(EventName::WorkspaceV2)
    } else if chars_eq_str(name, "focusedmon") {
        Some(EventName::FocusedMonitor)
    } else if chars_eq_str(name, "activewindow") {
        Some(EventName::ActiveWindow)
    } else if chars_eq_str(name, "activewindowv2") {
        Some(EventName::ActiveWindowV2)
    } else if chars_eq_str(name, "fullscreen") {
        Some(EventName::Fullscreen)
    } else if chars_eq_str(name, "monitorremoved") {
        Some(EventName::MonitorRemoved)
    } else if chars_eq_str(name, "monitoradded") {
        Some(EventName::MonitorAdded)
    } else if chars_eq_str(name, "monitoraddedv2") {
        Some(EventName::MonitorAddedV2)
    } else if chars_eq_str(name, "createworkspace") {
        Some(EventName::CreateWorkspace)
    } else if chars_eq_str(name, "createworkspacev2") {
        Some(EventName::CreateWorkspaceV2)
    } else if chars_eq_str(name, "destroyworkspace") {
        Some(EventName::DestroyWorkspace)
    } else if chars_eq_str(name, "destroyworkspacev2") {
        Some(EventName::DestroyWorkspaceV2)
    } else if chars_eq_str(name, "moveworkspace") {
        Some(EventName::MoveWorkspace)
    } else if chars_eq_str(name, "moveworkspacev2") {
        Some(EventName::MoveWorkspaceV2)
    } else if chars_eq_str(name, "renameworkspace") {
        Some(EventName::RenameWorkspace)
    } else if chars_eq_str(name, "activespecial") {
        Some(EventName::ActiveSpecial)
    } else if chars_eq_str(name, "activelayout") {
        Some(EventName::ActiveLayout)
    } else if chars_eq_str(name, "openwindow") {
        Some(EventName::OpenWindow)
    } else if chars_eq_str(name, "closewindow") {
        Some(EventName::CloseWindow)
    } else if chars_eq_str(name, "movewindow") {
        Some(EventName::MoveWindow)
    } else if chars_eq_str(name, "movewindowv2") {
        Some(EventName::MoveWindowV2)
    } else if chars_eq_str(name, "openlayer") {
        Some(EventName::OpenLayer)
    } else if chars_eq_str(name, "closelayer") {
        Some(EventName::CloseLayer)
    } else if chars_eq_str(name, "submap") {
        Some(EventName::Submap)
    } else if chars_eq_str(name, "changefloatingmode") {
        Some(EventName::ChangeFloatingMode)
    } else if chars_eq_str(name, "urgent") {
        Some(EventName::Urgent)
    } else if chars_eq_str(name, "minimize") {
        Some(EventName::Minimize)
    } else if chars_eq_str(name, "screencast") {
        Some(EventName::Screencast)
    } else if chars_eq_str(name, "windowtitle") {
        Some(EventName::WindowTitle)
    } else if chars_eq_str(name, "togglegroup") {
        Some(EventName::ToggleGroup)
    } else if chars_eq_str(name, "moveintogroup") {
        Some(EventName::MoveIntoGroup)
    } else if chars_eq_str(name, "moveoutofgroup") {
        Some(EventName::MoveOutOfGroup)
    } else if chars_eq_str(name, "ignoregrouplock") {
        Some(EventName::IgnoreGroupLock)
    } else if chars_eq_str(name, "lockgroups") {
        Some(EventName::LockGroups)
    } else if chars_eq_str(name, "configreloaded") {
        Some(EventName::ConfigReloaded)
    } else if chars_eq_str(name, "pin") {
        Some(EventName::Pin)
    } else {
        None
    }
}

} // verus!
