//! The command registry and the built-in command definitions.

use vstd::prelude::*;

use super::{
    AvailabilityRule, CommandCategory, CommandDangerLevel, CommandDefinition, CommandId, CommandModel,
    Modifiers, Shortcut, ShortcutModel,
};
use crate::text::{ascii_lower, contains_seq, str_contains, str_equal, to_ascii_lowercase};

verus! {

/// The built-in commands, in registration order.
pub open spec fn builtin_table() -> Seq<CommandModel> {
    seq![
        ("file.open_file_pair"@, "Open File Pair\u{2026}"@, "Open two files for comparison"@, CommandCategory::File, seq![(Modifiers { ctrl: true, alt: false, shift: false, meta: false }, "o"@)], AvailabilityRule::Always, CommandDangerLevel::Safe),
        ("file.save"@, "Save"@, "Save the merge result"@, CommandCategory::File, seq![(Modifiers { ctrl: true, alt: false, shift: false, meta: false }, "s"@)], AvailabilityRule::DirtyAndSaveable, CommandDangerLevel::Safe),
        ("file.save_as"@, "Save As\u{2026}"@, "Save the merge result to a new file"@, CommandCategory::File, seq![(Modifiers { ctrl: true, alt: false, shift: true, meta: false }, "s"@)], AvailabilityRule::ActiveCompareTab, CommandDangerLevel::Safe),
        ("file.close_tab"@, "Close Tab"@, "Close the active comparison tab"@, CommandCategory::File, seq![(Modifiers { ctrl: true, alt: false, shift: false, meta: false }, "w"@)], AvailabilityRule::ActiveCompareTab, CommandDangerLevel::MayDiscardWork),
        ("edit.undo"@, "Undo"@, "Undo the last merge action or edit"@, CommandCategory::Edit, seq![(Modifiers { ctrl: true, alt: false, shift: false, meta: false }, "z"@)], AvailabilityRule::CanUndo, CommandDangerLevel::Safe),
        ("edit.redo"@, "Redo"@, "Redo the last undone action"@, CommandCategory::Edit, seq![(Modifiers { ctrl: true, alt: false, shift: true, meta: false }, "z"@)], AvailabilityRule::CanRedo, CommandDangerLevel::Safe),
        ("edit.find"@, "Find\u{2026}"@, "Search within the active comparison"@, CommandCategory::Edit, seq![(Modifiers { ctrl: true, alt: false, shift: false, meta: false }, "f"@)], AvailabilityRule::ActiveDiffTab, CommandDangerLevel::Safe),
        ("navigate.next_difference"@, "Next Difference"@, "Move to the next changed hunk"@, CommandCategory::Navigate, seq![(Modifiers { ctrl: false, alt: false, shift: false, meta: false }, "F8"@)], AvailabilityRule::HasHunks, CommandDangerLevel::Safe),
        ("navigate.prev_difference"@, "Previous Difference"@, "Move to the previous changed hunk"@, CommandCategory::Navigate, seq![(Modifiers { ctrl: false, alt: false, shift: false, meta: false }, "F7"@)], AvailabilityRule::HasHunks, CommandDangerLevel::Safe),
        ("navigate.next_conflict"@, "Next Conflict"@, "Move to the next unresolved conflict"@, CommandCategory::Navigate, seq![], AvailabilityRule::AnyConflictUnresolved, CommandDangerLevel::Safe),
        ("navigate.prev_conflict"@, "Previous Conflict"@, "Move to the previous unresolved conflict"@, CommandCategory::Navigate, seq![], AvailabilityRule::AnyConflictUnresolved, CommandDangerLevel::Safe),
        ("compare.reload_tab"@, "Reload"@, "Reload both files and recompute the diff"@, CommandCategory::Compare, seq![(Modifiers { ctrl: true, alt: false, shift: false, meta: false }, "r"@)], AvailabilityRule::ActiveDiffTab, CommandDangerLevel::MayDiscardWork),
        ("compare.swap_sides"@, "Swap Sides"@, "Swap left and right files"@, CommandCategory::Compare, seq![], AvailabilityRule::ActiveDiffTab, CommandDangerLevel::MayDiscardWork),
        ("merge.copy_left_to_right"@, "Copy Hunk Left \u{2192} Right"@, "Apply the focused hunk from left to right"@, CommandCategory::Merge, seq![(Modifiers { ctrl: false, alt: true, shift: false, meta: false }, "ArrowRight"@)], AvailabilityRule::ActiveHunkEditable, CommandDangerLevel::Safe),
        ("merge.copy_right_to_left"@, "Copy Hunk Right \u{2192} Left"@, "Apply the focused hunk from right to left"@, CommandCategory::Merge, seq![(Modifiers { ctrl: false, alt: true, shift: false, meta: false }, "ArrowLeft"@)], AvailabilityRule::ActiveHunkEditable, CommandDangerLevel::Safe),
        ("merge.use_left"@, "Use Left"@, "Resolve the active conflict using the left version"@, CommandCategory::Merge, seq![], AvailabilityRule::ActiveConflict, CommandDangerLevel::Safe),
        ("merge.use_right"@, "Use Right"@, "Resolve the active conflict using the right version"@, CommandCategory::Merge, seq![], AvailabilityRule::ActiveConflict, CommandDangerLevel::Safe),
        ("view.command_palette"@, "Command Palette\u{2026}"@, "Open the command palette"@, CommandCategory::View, seq![(Modifiers { ctrl: true, alt: false, shift: true, meta: false }, "p"@)], AvailabilityRule::Always, CommandDangerLevel::Safe),
        ("settings.open"@, "Settings\u{2026}"@, "Open the settings dialog"@, CommandCategory::Settings, seq![(Modifiers { ctrl: true, alt: false, shift: false, meta: false }, ","@)], AvailabilityRule::Always, CommandDangerLevel::Safe),
    ]
}

/// The models of a list of command definitions.
pub open spec fn command_models(cs: Seq<CommandDefinition>) -> Seq<CommandModel> {
    cs.map_values(|c: CommandDefinition| c.model())
}

/// Whether a command matches a palette query: the query, ASCII-lowercased,
/// occurs in the ASCII-lowercased label or description.
pub open spec fn matches_query(c: CommandModel, query: Seq<char>) -> bool {
    contains_seq(ascii_lower(c.1), ascii_lower(query)) || contains_seq(ascii_lower(c.2), ascii_lower(query))
}

/// Whether a command has a default shortcut equal to `s`.
pub open spec fn has_shortcut(c: CommandModel, s: ShortcutModel) -> bool {
    exists|k: int| 0 <= k < c.4.len() && c.4[k] == s
}

/// All command definitions, in registration order.
#[derive(Debug, Default)]
pub struct CommandRegistry {
    commands: Vec<CommandDefinition>,
}

impl CommandRegistry {
    /// The registered commands as values.
    pub closed spec fn model(self) -> Seq<CommandModel> {
        command_models(self.commands@)
    }

    /// The registry of all built-in command definitions.
    #[verifier::rlimit(40)]
    pub fn builtin() -> (r: Self)
        ensures
            r.model() == builtin_table(),
    {
        let mut r = CommandRegistry { commands: Vec::new() };
        r.add(CommandDefinition {
            id: CommandId::new("file.open_file_pair"),
            label: "Open File Pair\u{2026}",
            description: "Open two files for comparison",
            category: CommandCategory::File,
            default_shortcuts: vec![Shortcut::new(Modifiers::ctrl(), "o")],
            availability: AvailabilityRule::Always,
            danger_level: CommandDangerLevel::Safe,
        });
        r.add(CommandDefinition {
            id: CommandId::new("file.save"),
            label: "Save",
            description: "Save the merge result",
            category: CommandCategory::File,
            default_shortcuts: vec![Shortcut::new(Modifiers::ctrl(), "s")],
            availability: AvailabilityRule::DirtyAndSaveable,
            danger_level: CommandDangerLevel::Safe,
        });
        r.add(CommandDefinition {
            id: CommandId::new("file.save_as"),
            label: "Save As\u{2026}",
            description: "Save the merge result to a new file",
            category: CommandCategory::File,
            default_shortcuts: vec![Shortcut::new(Modifiers::ctrl_shift(), "s")],
            availability: AvailabilityRule::ActiveCompareTab,
            danger_level: CommandDangerLevel::Safe,
        });
        r.add(CommandDefinition {
            id: CommandId::new("file.close_tab"),
            label: "Close Tab",
            description: "Close the active comparison tab",
            category: CommandCategory::File,
            default_shortcuts: vec![Shortcut::new(Modifiers::ctrl(), "w")],
            availability: AvailabilityRule::ActiveCompareTab,
            danger_level: CommandDangerLevel::MayDiscardWork,
        });
        r.add(CommandDefinition {
            id: CommandId::new("edit.undo"),
            label: "Undo",
            description: "Undo the last merge action or edit",
            category: CommandCategory::Edit,
            default_shortcuts: vec![Shortcut::new(Modifiers::ctrl(), "z")],
            availability: AvailabilityRule::CanUndo,
            danger_level: CommandDangerLevel::Safe,
        });
        r.add(CommandDefinition {
            id: CommandId::new("edit.redo"),
            label: "Redo",
            description: "Redo the last undone action",
            category: CommandCategory::Edit,
            default_shortcuts: vec![Shortcut::new(Modifiers::ctrl_shift(), "z")],
            availability: AvailabilityRule::CanRedo,
            danger_level: CommandDangerLevel::Safe,
        });
        r.add(CommandDefinition {
            id: CommandId::new("edit.find"),
            label: "Find\u{2026}",
            description: "Search within the active comparison",
            category: CommandCategory::Edit,
            default_shortcuts: vec![Shortcut::new(Modifiers::ctrl(), "f")],
            availability: AvailabilityRule::ActiveDiffTab,
            danger_level: CommandDangerLevel::Safe,
        });
        r.add(CommandDefinition {
            id: CommandId::new("navigate.next_difference"),
            label: "Next Difference",
            description: "Move to the next changed hunk",
            category: CommandCategory::Navigate,
            default_shortcuts: vec![Shortcut::new(Modifiers::none(), "F8")],
            availability: AvailabilityRule::HasHunks,
            danger_level: CommandDangerLevel::Safe,
        });
        r.add(CommandDefinition {
            id: CommandId::new("navigate.prev_difference"),
            label: "Previous Difference",
            description: "Move to the previous changed hunk",
            category: CommandCategory::Navigate,
            default_shortcuts: vec![Shortcut::new(Modifiers::none(), "F7")],
            availability: AvailabilityRule::HasHunks,
            danger_level: CommandDangerLevel::Safe,
        });
        r.add(CommandDefinition {
            id: CommandId::new("navigate.next_conflict"),
            label: "Next Conflict",
            description: "Move to the next unresolved conflict",
            category: CommandCategory::Navigate,
            default_shortcuts: Vec::new(),
            availability: AvailabilityRule::AnyConflictUnresolved,
            danger_level: CommandDangerLevel::Safe,
        });
        r.add(CommandDefinition {
            id: CommandId::new("navigate.prev_conflict"),
            label: "Previous Conflict",
            description: "Move to the previous unresolved conflict",
            category: CommandCategory::Navigate,
            default_shortcuts: Vec::new(),
            availability: AvailabilityRule::AnyConflictUnresolved,
            danger_level: CommandDangerLevel::Safe,
        });
        r.add(CommandDefinition {
            id: CommandId::new("compare.reload_tab"),
            label: "Reload",
            description: "Reload both files and recompute the diff",
            category: CommandCategory::Compare,
            default_shortcuts: vec![Shortcut::new(Modifiers::ctrl(), "r")],
            availability: AvailabilityRule::ActiveDiffTab,
            danger_level: CommandDangerLevel::MayDiscardWork,
        });
        r.add(CommandDefinition {
            id: CommandId::new("compare.swap_sides"),
            label: "Swap Sides",
            description: "Swap left and right files",
            category: CommandCategory::Compare,
            default_shortcuts: Vec::new(),
            availability: AvailabilityRule::ActiveDiffTab,
            danger_level: CommandDangerLevel::MayDiscardWork,
        });
        r.add(CommandDefinition {
            id: CommandId::new("merge.copy_left_to_right"),
            label: "Copy Hunk Left \u{2192} Right",
            description: "Apply the focused hunk from left to right",
            category: CommandCategory::Merge,
            default_shortcuts: vec![Shortcut::new(Modifiers::alt(), "ArrowRight")],
            availability: AvailabilityRule::ActiveHunkEditable,
            danger_level: CommandDangerLevel::Safe,
        });
        r.add(CommandDefinition {
            id: CommandId::new("merge.copy_right_to_left"),
            label: "Copy Hunk Right \u{2192} Left",
            description: "Apply the focused hunk from right to left",
            category: CommandCategory::Merge,
            default_shortcuts: vec![Shortcut::new(Modifiers::alt(), "ArrowLeft")],
            availability: AvailabilityRule::ActiveHunkEditable,
            danger_level: CommandDangerLevel::Safe,
        });
        r.add(CommandDefinition {
            id: CommandId::new("merge.use_left"),
            label: "Use Left",
            description: "Resolve the active conflict using the left version",
            category: CommandCategory::Merge,
            default_shortcuts: Vec::new(),
            availability: AvailabilityRule::ActiveConflict,
            danger_level: CommandDangerLevel::Safe,
        });
        r.add(CommandDefinition {
            id: CommandId::new("merge.use_right"),
            label: "Use Right",
            description: "Resolve the active conflict using the right version",
            category: CommandCategory::Merge,
            default_shortcuts: Vec::new(),
            availability: AvailabilityRule::ActiveConflict,
            danger_level: CommandDangerLevel::Safe,
        });
        r.add(CommandDefinition {
            id: CommandId::new("view.command_palette"),
            label: "Command Palette\u{2026}",
            description: "Open the command palette",
            category: CommandCategory::View,
            default_shortcuts: vec![Shortcut::new(Modifiers::ctrl_shift(), "p")],
            availability: AvailabilityRule::Always,
            danger_level: CommandDangerLevel::Safe,
        });
        r.add(CommandDefinition {
            id: CommandId::new("settings.open"),
            label: "Settings\u{2026}",
            description: "Open the settings dialog",
            category: CommandCategory::Settings,
            default_shortcuts: vec![Shortcut::new(Modifiers::ctrl(), ",")],
            availability: AvailabilityRule::Always,
            danger_level: CommandDangerLevel::Safe,
        });
        assert(r.model() =~~= builtin_table());
        r
    }

    /// Register a command at the end.
    pub fn add(&mut self, def: CommandDefinition)
        ensures
            final(self).model() == old(self).model().push(def.model()),
    {
        self.commands.push(def);
        assert(final(self).model() =~= old(self).model().push(def.model()));
    }

    /// The first command with id `id`.
    pub fn get(&self, id: &CommandId) -> (r: Option<&CommandDefinition>)
        ensures
            r is None <==> forall|k: int| 0 <= k < self.model().len() ==> (#[trigger] self.model()[k]).0 != id.0@,
            r matches Some(c) ==> exists|k: int| 0 <= k < self.model().len() && c.model() == self.model()[k]
                && self.model()[k].0 == id.0@
                && forall|j: int| 0 <= j < k ==> (#[trigger] self.model()[j]).0 != id.0@,
    {
        let mut i: usize = 0;
        while i < self.commands.len()
            invariant
                i <= self.commands@.len(),
                forall|j: int| 0 <= j < i ==> (#[trigger] self.model()[j]).0 != id.0@,
            decreases self.commands@.len() - i,
        {
            if str_equal(self.commands[i].id.0, id.0) {
                assert(self.model()[i as int] == self.commands@[i as int].model());
                return Some(&self.commands[i]);
            }
            i = i + 1;
        }
        None
    }

    /// All commands, in registration order.
    pub fn all(&self) -> (cs: &[CommandDefinition])
        ensures
            command_models(cs@) == self.model(),
    {
        self.commands.as_slice()
    }

    /// The commands of one category, in registration order.
    pub fn by_category(&self, cat: CommandCategory) -> (cs: Vec<&CommandDefinition>)
        ensures
            cs@.map_values(|c: &CommandDefinition| c.model()) == self.model().filter(|c: CommandModel| c.3 == cat),
    {
        let ghost m = self.model();
        let mut out: Vec<&CommandDefinition> = Vec::new();
        let mut i: usize = 0;
        while i < self.commands.len()
            invariant
                m == self.model(),
                i <= self.commands@.len(),
                out@.map_values(|c: &CommandDefinition| c.model()) == m.subrange(0, i as int).filter(|c: CommandModel| c.3 == cat),
            decreases self.commands@.len() - i,
        {
            proof {
                reveal(Seq::filter);
                assert(m.subrange(0, i as int + 1).drop_last() =~= m.subrange(0, i as int));
                assert(m[i as int] == self.commands@[i as int].model());
            }
            let c = &self.commands[i];
            if c.category == cat {
                out.push(c);
            }
            assert(out@.map_values(|c: &CommandDefinition| c.model()) =~= m.subrange(0, i as int + 1).filter(|c: CommandModel| c.3 == cat));
            i = i + 1;
        }
        assert(m.subrange(0, m.len() as int) =~= m);
        out
    }

    /// The commands whose label or description contains `query`, compared
    /// ASCII case-insensitively, in registration order.
    pub fn search(&self, query: &str) -> (cs: Vec<&CommandDefinition>)
        ensures
            cs@.map_values(|c: &CommandDefinition| c.model()) == self.model().filter(|c: CommandModel| matches_query(c, query@)),
    {
        let ghost m = self.model();
        let q = to_ascii_lowercase(query);
        let mut out: Vec<&CommandDefinition> = Vec::new();
        let mut i: usize = 0;
        while i < self.commands.len()
            invariant
                m == self.model(),
                q@ == ascii_lower(query@),
                i <= self.commands@.len(),
                out@.map_values(|c: &CommandDefinition| c.model()) == m.subrange(0, i as int).filter(|c: CommandModel| matches_query(c, query@)),
            decreases self.commands@.len() - i,
        {
            proof {
                reveal(Seq::filter);
                assert(m.subrange(0, i as int + 1).drop_last() =~= m.subrange(0, i as int));
                assert(m[i as int] == self.commands@[i as int].model());
            }
            let c = &self.commands[i];
            let label = to_ascii_lowercase(c.label);
            let desc = to_ascii_lowercase(c.description);
            if str_contains(label.as_str(), q.as_str()) || str_contains(desc.as_str(), q.as_str()) {
                out.push(c);
            }
            assert(out@.map_values(|c: &CommandDefinition| c.model()) =~= m.subrange(0, i as int + 1).filter(|c: CommandModel| matches_query(c, query@)));
            i = i + 1;
        }
        assert(m.subrange(0, m.len() as int) =~= m);
        out
    }

    /// The first command bound to shortcut `s`.
    pub fn find_by_shortcut(&self, s: &Shortcut) -> (r: Option<&CommandDefinition>)
        ensures
            r is None <==> forall|k: int| 0 <= k < self.model().len() ==> !has_shortcut(#[trigger] self.model()[k], s.model()),
            r matches Some(c) ==> exists|k: int| 0 <= k < self.model().len() && c.model() == self.model()[k]
                && has_shortcut(self.model()[k], s.model())
                && forall|j: int| 0 <= j < k ==> !has_shortcut(#[trigger] self.model()[j], s.model()),
    {
        let mut i: usize = 0;
        while i < self.commands.len()
            invariant
                i <= self.commands@.len(),
                forall|j: int| 0 <= j < i ==> !has_shortcut(#[trigger] self.model()[j], s.model()),
            decreases self.commands@.len() - i,
        {
            let c = &self.commands[i];
            proof {
                assert(self.model()[i as int] == c.model());
            }
            let mut k: usize = 0;
            while k < c.default_shortcuts.len()
                invariant
                    i < self.commands@.len(),
                    *c == self.commands@[i as int],
                    forall|j: int| 0 <= j < i ==> !has_shortcut(#[trigger] self.model()[j], s.model()),
                    k <= c.default_shortcuts@.len(),
                    forall|t: int| 0 <= t < k ==> c.model().4[t] != s.model(),
                decreases c.default_shortcuts@.len() - k,
            {
                if c.default_shortcuts[k].same_as(s) {
                    assert(c.model().4[k as int] == s.model());
                    assert(self.model()[i as int] == c.model());
                    assert(has_shortcut(self.model()[i as int], s.model()));
                    return Some(c);
                }
                k = k + 1;
            }
            assert(!has_shortcut(self.model()[i as int], s.model()));
            i = i + 1;
        }
        None
    }

    /// Number of registered commands.
    pub fn len(&self) -> (n: usize)
        ensures
            n == self.model().len(),
    {
        self.commands.len()
    }

    /// `true` when no command is registered.
    pub fn is_empty(&self) -> (b: bool)
        ensures
            b == (self.model().len() == 0),
    {
        self.commands.len() == 0
    }
}

} // verus!
