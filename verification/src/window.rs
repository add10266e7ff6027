//! Main window metrics in whole pixels, and when the window polls memory.
//!
//! Every layout metric of the window is a whole number of pixels, so sizes are
//! computed exactly in integers.

use vstd::prelude::*;

verus! {

pub const SECTION_GAP: u32 = 6;
pub const DIALOG_PADDING_TOP: u32 = 16;
pub const DIALOG_PADDING_HORIZONTAL: u32 = 16;
/// The window-behaviour dialog width (20px inside the 520px main window on each side).
pub const WINDOW_BEHAVIOR_DIALOG_WIDTH: u32 = 480;
pub const TITLE_BAR_H: u32 = 34;
pub const CLEANUP_BUTTON_H: u32 = 48;
pub const MEMORY_RING_SIZE: u32 = 108;
pub const MEMORY_CARD_PY: u32 = 2;
pub const WINDOW_WIDTH: u32 = 520;
pub const WINDOW_MIN_WIDTH: u32 = 520;
pub const CONTENT_PADDING: u32 = 6;

pub const CARD_BORDER: u32 = 2;
/// The group box outline's fixed inner padding (16px above and below).
pub const GROUP_BOX_OUTLINE_PADDING_V: u32 = 32;
pub const PANEL_BORDER: u32 = 2;
pub const MEMORY_HEADER_H: u32 = 20;
pub const MEMORY_LINE_GAP: u32 = 4;
pub const MEMORY_SUMMARY_H: u32 = 16;
pub const SECTION_TITLE_H: u32 = 20;
/// Estimated row heights of the cleanup section, used for the expanded height only.
pub const HINT_H: u32 = 24;
pub const CHECKBOX_ROW_H: u32 = 22;
pub const CLEANUP_ROWS: u32 = 4;
/// The hint and four checkbox rows leave four gaps between them.
pub const CLEANUP_ROW_GAPS: u32 = SECTION_GAP * CLEANUP_ROWS;
/// Restores the footer's bottom margin in the collapsed window.
pub const COLLAPSED_FOOTER_PADDING_GUARD: u32 = 4;
/// The expanded height estimate runs high by this much.
pub const EXPANDED_WINDOW_HEIGHT_REDUCTION: u32 = 22;

pub open spec fn spec_memory_section_height() -> int {
    CARD_BORDER + GROUP_BOX_OUTLINE_PADDING_V + MEMORY_CARD_PY * 2 + MEMORY_HEADER_H + MEMORY_LINE_GAP
        + MEMORY_RING_SIZE + MEMORY_LINE_GAP + MEMORY_SUMMARY_H
}

pub open spec fn spec_cleanup_section_height(content_padding: int) -> int {
    let cleanup_areas = HINT_H + SECTION_GAP + CHECKBOX_ROW_H * CLEANUP_ROWS + CLEANUP_ROW_GAPS;
    PANEL_BORDER + content_padding * 2 + SECTION_TITLE_H + SECTION_GAP + cleanup_areas
}

pub open spec fn spec_collapsed_window_height(content_padding: int) -> int {
    TITLE_BAR_H + content_padding + spec_memory_section_height() + SECTION_GAP + CLEANUP_BUTTON_H
        + content_padding + COLLAPSED_FOOTER_PADDING_GUARD
}

pub open spec fn spec_expanded_window_height(content_padding: int) -> int {
    TITLE_BAR_H + content_padding + spec_memory_section_height() + SECTION_GAP
        + spec_cleanup_section_height(content_padding) + SECTION_GAP + CLEANUP_BUTTON_H + content_padding
        - EXPANDED_WINDOW_HEIGHT_REDUCTION
}

pub fn memory_section_height() -> (r: u32)
    ensures
        r == spec_memory_section_height(),
{
    CARD_BORDER + GROUP_BOX_OUTLINE_PADDING_V + MEMORY_CARD_PY * 2 + MEMORY_HEADER_H + MEMORY_LINE_GAP
        + MEMORY_RING_SIZE + MEMORY_LINE_GAP + MEMORY_SUMMARY_H
}

pub fn cleanup_section_height(content_padding: u32) -> (r: u32)
    requires
        spec_cleanup_section_height(content_padding as int) <= u32::MAX,
    ensures
        r == spec_cleanup_section_height(content_padding as int),
{
    let cleanup_areas = HINT_H + SECTION_GAP + CHECKBOX_ROW_H * CLEANUP_ROWS + CLEANUP_ROW_GAPS;
    PANEL_BORDER + content_padding * 2 + SECTION_TITLE_H + SECTION_GAP + cleanup_areas
}

pub fn collapsed_window_height(content_padding: u32) -> (r: u32)
    requires
        spec_collapsed_window_height(content_padding as int) <= u32::MAX,
    ensures
        r == spec_collapsed_window_height(content_padding as int),
{
    TITLE_BAR_H + content_padding + memory_section_height() + SECTION_GAP + CLEANUP_BUTTON_H
        + content_padding + COLLAPSED_FOOTER_PADDING_GUARD
}

pub fn expanded_window_height(content_padding: u32) -> (r: u32)
    requires
        spec_expanded_window_height(content_padding as int) <= u32::MAX,
    ensures
        r == spec_expanded_window_height(content_padding as int),
{
    let memory_part = memory_section_height() - EXPANDED_WINDOW_HEIGHT_REDUCTION;
    TITLE_BAR_H + content_padding + memory_part + SECTION_GAP + cleanup_section_height(content_padding)
        + SECTION_GAP + CLEANUP_BUTTON_H + content_padding
}

/// Target window height for the given expanded state.
pub fn window_height(expanded: bool) -> (r: u32)
    ensures
        r == (if expanded {
            spec_expanded_window_height(CONTENT_PADDING as int)
        } else {
            spec_collapsed_window_height(CONTENT_PADDING as int)
        }),
{
    if expanded {
        expanded_window_height(CONTENT_PADDING)
    } else {
        collapsed_window_height(CONTENT_PADDING)
    }
}

/// The window size (width, height) for the given expanded state.
pub fn window_size(expanded: bool) -> (r: (u32, u32))
    ensures
        r.0 == WINDOW_WIDTH,
        r.1 == (if expanded {
            spec_expanded_window_height(CONTENT_PADDING as int)
        } else {
            spec_collapsed_window_height(CONTENT_PADDING as int)
        }),
{
    (WINDOW_WIDTH, window_height(expanded))
}

/// The smallest window size (width, height): the collapsed window.
pub fn window_min_size() -> (r: (u32, u32))
    ensures
        r.0 == WINDOW_MIN_WIDTH,
        r.1 == spec_collapsed_window_height(CONTENT_PADDING as int),
{
    (WINDOW_MIN_WIDTH, collapsed_window_height(CONTENT_PADDING))
}

/// How the main window opens.
#[derive(Debug, Clone, Copy, PartialEq, Eq, Structural)]
pub struct WindowOptions {
    pub width: u32,
    pub height: u32,
    pub min_width: u32,
    pub min_height: u32,
    /// The user cannot resize the window; its height follows the settings panel.
    pub resizable: bool,
    /// Placed in the middle of the screen.
    pub centered: bool,
    /// The program draws its own title bar.
    pub custom_title_bar: bool,
}

/// The main window's options for the given expanded state: centred, of
/// `window_size`, no smaller than `window_min_size`, not resizable, with the
/// program's own title bar.
pub fn window_options(expanded: bool) -> (r: WindowOptions)
    ensures
        r.width == WINDOW_WIDTH,
        r.height == (if expanded {
            spec_expanded_window_height(CONTENT_PADDING as int)
        } else {
            spec_collapsed_window_height(CONTENT_PADDING as int)
        }),
        r.min_width == WINDOW_MIN_WIDTH,
        r.min_height == spec_collapsed_window_height(CONTENT_PADDING as int),
        !r.resizable,
        r.centered,
        r.custom_title_bar,
{
    let (width, height) = window_size(expanded);
    let (min_width, min_height) = window_min_size();
    WindowOptions { width, height, min_width, min_height, resizable: false, centered: true, custom_title_bar: true }
}

/// The height the settings panel adds when it is fully revealed.
pub fn settings_reveal_height() -> (r: u32)
    ensures
        r == spec_expanded_window_height(CONTENT_PADDING as int) - spec_collapsed_window_height(
            CONTENT_PADDING as int,
        ),
{
    expanded_window_height(CONTENT_PADDING) - collapsed_window_height(CONTENT_PADDING)
}

/// The expanded window is taller than the collapsed one, whatever the padding.
pub proof fn lemma_expanded_taller_than_collapsed(content_padding: int)
    requires
        content_padding >= 0,
    ensures
        spec_expanded_window_height(content_padding) > spec_collapsed_window_height(content_padding),
{
}

/// Memory is polled while the main window is shown.
pub fn memory_polling_enabled(window_visible: bool) -> (r: bool)
    ensures
        r == window_visible,
{
    window_visible
}

/// The threshold trigger is polled when auto-cleanup is on with a non-zero threshold.
pub fn threshold_polling_enabled(auto_cleanup_enabled: bool, threshold: u32) -> (r: bool)
    ensures
        r == (auto_cleanup_enabled && threshold > 0),
{
    auto_cleanup_enabled && threshold > 0
}

} // verus!
