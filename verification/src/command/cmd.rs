//! The ids of the built-in commands, as the text a `CommandId` carries.

use vstd::prelude::*;

verus! {

// File
pub const OPEN_FILE_PAIR: &'static str = "file.open_file_pair";
pub const OPEN_DIR_PAIR: &'static str = "file.open_dir_pair";
pub const SAVE: &'static str = "file.save";
pub const SAVE_AS: &'static str = "file.save_as";
pub const CLOSE_TAB: &'static str = "file.close_tab";
pub const QUIT: &'static str = "file.quit";

// Edit
pub const UNDO: &'static str = "edit.undo";
pub const REDO: &'static str = "edit.redo";
pub const FIND: &'static str = "edit.find";

// Navigate
pub const NEXT_DIFFERENCE: &'static str = "navigate.next_difference";
pub const PREV_DIFFERENCE: &'static str = "navigate.prev_difference";
pub const NEXT_CONFLICT: &'static str = "navigate.next_conflict";
pub const PREV_CONFLICT: &'static str = "navigate.prev_conflict";

// Compare
pub const RELOAD_TAB: &'static str = "compare.reload_tab";
pub const SWAP_SIDES: &'static str = "compare.swap_sides";
pub const OPEN_COMPARE: &'static str = "compare.open_compare";

// Merge
pub const COPY_HUNK_LEFT_RIGHT: &'static str = "merge.copy_left_to_right";
pub const COPY_HUNK_RIGHT_LEFT: &'static str = "merge.copy_right_to_left";
pub const COPY_ALL_LEFT_RIGHT: &'static str = "merge.copy_all_left_to_right";
pub const COPY_ALL_RIGHT_LEFT: &'static str = "merge.copy_all_right_to_left";
pub const USE_LEFT: &'static str = "merge.use_left";
pub const USE_RIGHT: &'static str = "merge.use_right";
pub const USE_BOTH: &'static str = "merge.use_both";
pub const IGNORE_CONFLICT: &'static str = "merge.ignore_conflict";
pub const REVERT_HUNK: &'static str = "merge.revert_hunk";

// Search
pub const FIND_NEXT: &'static str = "search.find_next";
pub const FIND_PREV: &'static str = "search.find_prev";

// View
pub const TOGGLE_EXPLORER: &'static str = "view.toggle_explorer";
pub const TOGGLE_DIAGNOSTICS: &'static str = "view.toggle_diagnostics";
pub const COMMAND_PALETTE: &'static str = "view.command_palette";

// Settings
pub const OPEN_SETTINGS: &'static str = "settings.open";

// External
pub const OPEN_PARENT_FOLDER: &'static str = "external.open_parent_folder";
pub const OPEN_FILE_EXTERNAL: &'static str = "external.open_file";

} // verus!
