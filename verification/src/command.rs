//! Command model: identity, category, shortcuts and availability.
//!
//! `CommandDefinition` is the single source of truth for every
//! user-visible action: its id, label, keyboard shortcuts, category and
//! availability rule. Commands are pure data; execution belongs to the UI.

use vstd::prelude::*;

use crate::text::str_equal;

pub mod cmd;
pub mod registry;

pub use registry::CommandRegistry;

verus! {

/// Stable `category.action` identifier for a command, e.g. `"file.save"`.
/// Never localised.
#[derive(Debug, Clone, PartialEq, Eq, Hash, PartialOrd, Ord)]
pub struct CommandId(pub &'static str);

impl CommandId {
    /// The id `id`.
    pub fn new(id: &'static str) -> (c: Self)
        ensures
            c.0@ == id@,
    {
        CommandId(id)
    }

    /// The id text.
    pub fn as_str(&self) -> (s: &str)
        ensures
            s@ == self.0@,
    {
        self.0
    }
}

/// Command category for the command palette and menu structure.
#[derive(Debug, Clone, Copy, PartialEq, Eq, Hash, PartialOrd, Ord, Structural)]
pub enum CommandCategory {
    File,
    Edit,
    View,
    Navigate,
    Compare,
    Merge,
    Search,
    Settings,
    External,
    Diagnostics,
}

/// The display label of a category (its variant name).
pub open spec fn category_label(c: CommandCategory) -> Seq<char> {
    match c {
        CommandCategory::File => "File"@,
        CommandCategory::Edit => "Edit"@,
        CommandCategory::View => "View"@,
        CommandCategory::Navigate => "Navigate"@,
        CommandCategory::Compare => "Compare"@,
        CommandCategory::Merge => "Merge"@,
        CommandCategory::Search => "Search"@,
        CommandCategory::Settings => "Settings"@,
        CommandCategory::External => "External"@,
        CommandCategory::Diagnostics => "Diagnostics"@,
    }
}

impl CommandCategory {
    /// The display label.
    pub fn label(self) -> (s: &'static str)
        ensures
            s@ == category_label(self),
    {
        match self {
            CommandCategory::File => "File",
            CommandCategory::Edit => "Edit",
            CommandCategory::View => "View",
            CommandCategory::Navigate => "Navigate",
            CommandCategory::Compare => "Compare",
            CommandCategory::Merge => "Merge",
            CommandCategory::Search => "Search",
            CommandCategory::Settings => "Settings",
            CommandCategory::External => "External",
            CommandCategory::Diagnostics => "Diagnostics",
        }
    }
}

/// How much care is required before executing a command.
#[derive(Debug, Clone, Copy, PartialEq, Eq, PartialOrd, Ord, Default, Structural)]
pub enum CommandDangerLevel {
    /// Normal operation; no extra confirmation.
    #[default]
    Safe,
    /// May discard unsaved work; confirm if the tab is dirty.
    MayDiscardWork,
    /// Overwrites files or performs irreversible filesystem changes.
    Destructive,
}

impl CommandDangerLevel {
    /// `true` for every level above `Safe`.
    pub fn requires_confirmation(self) -> (b: bool)
        ensures
            b == (self != CommandDangerLevel::Safe),
    {
        !matches!(self, CommandDangerLevel::Safe)
    }
}

/// Modifier keys for a keyboard shortcut.
#[derive(Debug, Clone, Copy, PartialEq, Eq, Hash, Default, Structural)]
pub struct Modifiers {
    pub ctrl: bool,
    pub alt: bool,
    pub shift: bool,
    /// Cmd on macOS, Super on Linux.
    pub meta: bool,
}

impl Modifiers {
    /// No modifier.
    pub fn none() -> (m: Self)
        ensures
            m == (Modifiers { ctrl: false, alt: false, shift: false, meta: false }),
    {
        Modifiers { ctrl: false, alt: false, shift: false, meta: false }
    }

    /// Ctrl alone.
    pub fn ctrl() -> (m: Self)
        ensures
            m == (Modifiers { ctrl: true, alt: false, shift: false, meta: false }),
    {
        Modifiers { ctrl: true, alt: false, shift: false, meta: false }
    }

    /// Alt alone.
    pub fn alt() -> (m: Self)
        ensures
            m == (Modifiers { ctrl: false, alt: true, shift: false, meta: false }),
    {
        Modifiers { ctrl: false, alt: true, shift: false, meta: false }
    }

    /// Ctrl and Shift.
    pub fn ctrl_shift() -> (m: Self)
        ensures
            m == (Modifiers { ctrl: true, alt: false, shift: true, meta: false }),
    {
        Modifiers { ctrl: true, alt: false, shift: true, meta: false }
    }

    /// `true` when no modifier is held.
    pub fn is_none(self) -> (b: bool)
        ensures
            b == (!self.ctrl && !self.alt && !self.shift && !self.meta),
    {
        !self.ctrl && !self.alt && !self.shift && !self.meta
    }
}

/// One keyboard shortcut.
#[derive(Debug, Clone, PartialEq, Eq, Hash)]
pub struct Shortcut {
    pub modifiers: Modifiers,
    /// Key name, e.g. `"s"`, `"F7"`, `"Tab"`, `"ArrowRight"`.
    pub key: &'static str,
}

/// A shortcut as values: modifiers and key name.
pub type ShortcutModel = (Modifiers, Seq<char>);

impl Shortcut {
    /// The shortcut as values.
    pub open spec fn model(self) -> ShortcutModel {
        (self.modifiers, self.key@)
    }

    /// The shortcut `modifiers` + `key`.
    pub fn new(modifiers: Modifiers, key: &'static str) -> (s: Self)
        ensures
            s.modifiers == modifiers,
            s.key@ == key@,
    {
        Shortcut { modifiers, key }
    }

    /// Whether two shortcuts have the same modifiers and key.
    pub fn same_as(&self, other: &Shortcut) -> (b: bool)
        ensures
            b == (self.model() == other.model()),
    {
        self.modifiers.ctrl == other.modifiers.ctrl && self.modifiers.alt == other.modifiers.alt
            && self.modifiers.shift == other.modifiers.shift && self.modifiers.meta == other.modifiers.meta
            && str_equal(self.key, other.key)
    }
}

/// The state snapshot an availability rule is evaluated against.
#[derive(Debug, Clone, Copy, Default)]
pub struct CommandContext {
    pub has_active_diff_tab: bool,
    pub has_active_compare_tab: bool,
    pub active_tab_is_dirty: bool,
    pub active_tab_is_saveable: bool,
    pub active_tab_has_hunks: bool,
    pub active_hunk_exists: bool,
    pub right_side_is_editable: bool,
    pub has_active_conflict: bool,
    pub any_conflict_unresolved: bool,
    pub can_undo: bool,
    pub can_redo: bool,
    pub selected_path_exists: bool,
    pub explorer_is_visible: bool,
}

/// Why a command is unavailable (shown as a tooltip on disabled controls).
#[derive(Debug, Clone, PartialEq, Eq)]
pub struct UnavailableReason(pub &'static str);

impl UnavailableReason {
    /// The reason text.
    pub fn as_str(&self) -> (s: &str)
        ensures
            s@ == self.0@,
    {
        self.0
    }
}

/// Result of evaluating command availability.
#[derive(Debug, Clone, PartialEq, Eq)]
pub enum Availability {
    /// The command can be executed.
    Available,
    /// The command cannot be executed, with the reason.
    Unavailable(UnavailableReason),
}

impl Availability {
    /// `true` for `Available`.
    pub fn is_available(&self) -> (b: bool)
        ensures
            b == (*self is Available),
    {
        matches!(self, Availability::Available)
    }
}

/// The availability rule of a command.
#[derive(Debug, Clone, Copy, PartialEq, Eq, Structural)]
pub enum AvailabilityRule {
    /// Always available.
    Always,
    /// Only when a diff/compare tab is active.
    ActiveDiffTab,
    /// Only when the active tab has unsaved changes and is saveable.
    DirtyAndSaveable,
    /// Only when the active tab has text content.
    ActiveCompareTab,
    /// Only when there is a current hunk and the right side is editable.
    ActiveHunkEditable,
    /// Only when the active tab has any diff hunks.
    HasHunks,
    /// Only when there is a focused conflict.
    ActiveConflict,
    /// Only when any conflict is unresolved.
    AnyConflictUnresolved,
    /// Only when undo is possible.
    CanUndo,
    /// Only when redo is possible.
    CanRedo,
    /// Only when a path is selected in the explorer.
    SelectedPathExists,
}

/// Whether a rule holds in a context, with the reason shown when it does
/// not.
pub open spec fn rule_spec(rule: AvailabilityRule, ctx: CommandContext) -> (bool, Seq<char>) {
    match rule {
        AvailabilityRule::Always => (true, ""@),
        AvailabilityRule::ActiveDiffTab => (ctx.has_active_diff_tab, "No comparison is open"@),
        AvailabilityRule::DirtyAndSaveable => (ctx.active_tab_is_dirty && ctx.active_tab_is_saveable, "Nothing to save"@),
        AvailabilityRule::ActiveCompareTab => (ctx.has_active_compare_tab, "No file is open"@),
        AvailabilityRule::ActiveHunkEditable => (ctx.active_hunk_exists && ctx.right_side_is_editable, "No editable hunk is focused"@),
        AvailabilityRule::HasHunks => (ctx.active_tab_has_hunks, "No differences found"@),
        AvailabilityRule::ActiveConflict => (ctx.has_active_conflict, "No conflict is selected"@),
        AvailabilityRule::AnyConflictUnresolved => (ctx.any_conflict_unresolved, "All conflicts are resolved"@),
        AvailabilityRule::CanUndo => (ctx.can_undo, "Nothing to undo"@),
        AvailabilityRule::CanRedo => (ctx.can_redo, "Nothing to redo"@),
        AvailabilityRule::SelectedPathExists => (ctx.selected_path_exists, "No file is selected"@),
    }
}

impl AvailabilityRule {
    /// Evaluate the rule against the current command context: available
    /// when the rule's condition holds, otherwise unavailable with the
    /// rule's reason.
    pub fn evaluate(self, ctx: &CommandContext) -> (a: Availability)
        ensures
            rule_spec(self, *ctx).0 ==> a is Available,
            !rule_spec(self, *ctx).0 ==> (a matches Availability::Unavailable(r) && r.0@ == rule_spec(self, *ctx).1),
    {
        let (ok, reason): (bool, &'static str) = match self {
            AvailabilityRule::Always => (true, ""),
            AvailabilityRule::ActiveDiffTab => (ctx.has_active_diff_tab, "No comparison is open"),
            AvailabilityRule::DirtyAndSaveable => (ctx.active_tab_is_dirty && ctx.active_tab_is_saveable, "Nothing to save"),
            AvailabilityRule::ActiveCompareTab => (ctx.has_active_compare_tab, "No file is open"),
            AvailabilityRule::ActiveHunkEditable => (ctx.active_hunk_exists && ctx.right_side_is_editable, "No editable hunk is focused"),
            AvailabilityRule::HasHunks => (ctx.active_tab_has_hunks, "No differences found"),
            AvailabilityRule::ActiveConflict => (ctx.has_active_conflict, "No conflict is selected"),
            AvailabilityRule::AnyConflictUnresolved => (ctx.any_conflict_unresolved, "All conflicts are resolved"),
            AvailabilityRule::CanUndo => (ctx.can_undo, "Nothing to undo"),
            AvailabilityRule::CanRedo => (ctx.can_redo, "Nothing to redo"),
            AvailabilityRule::SelectedPathExists => (ctx.selected_path_exists, "No file is selected"),
        };
        if ok {
            Availability::Available
        } else {
            Availability::Unavailable(UnavailableReason(reason))
        }
    }
}

/// Complete definition of one user-visible command.
#[derive(Debug, Clone)]
pub struct CommandDefinition {
    pub id: CommandId,
    pub label: &'static str,
    pub description: &'static str,
    pub category: CommandCategory,
    pub default_shortcuts: Vec<Shortcut>,
    pub availability: AvailabilityRule,
    pub danger_level: CommandDangerLevel,
}

/// A command definition as values: id, label, description, category,
/// shortcuts, availability rule, danger level.
pub type CommandModel = (Seq<char>, Seq<char>, Seq<char>, CommandCategory, Seq<ShortcutModel>, AvailabilityRule, CommandDangerLevel);

impl CommandDefinition {
    /// The definition as values.
    pub open spec fn model(self) -> CommandModel {
        (
            self.id.0@,
            self.label@,
            self.description@,
            self.category,
            self.default_shortcuts@.map_values(|s: Shortcut| s.model()),
            self.availability,
            self.danger_level,
        )
    }

    /// Whether this command is currently available.
    pub fn is_available(&self, ctx: &CommandContext) -> (b: bool)
        ensures
            b == rule_spec(self.availability, *ctx).0,
    {
        self.availability.evaluate(ctx).is_available()
    }
}

} // verus!
