//! ANSI escape sequences for terminal colours and text styles.

use vstd::prelude::*;

verus! {

/// Namespace for the escape sequences that style terminal output. Each
/// sequence switches one colour or style on; `RESET` switches all off.
pub struct Colors;

impl Colors {
    /// Reset all text formatting to default.
    pub const RESET: &'static str = "\x1b[0m";
    /// Standard red, used for errors and failures.
    pub const RED: &'static str = "\x1b[31m";
    /// Standard green, used for success messages and user text.
    pub const GREEN: &'static str = "\x1b[32m";
    /// Standard yellow, used for warnings and system messages.
    pub const YELLOW: &'static str = "\x1b[33m";
    /// Standard blue, used for informational messages.
    pub const BLUE: &'static str = "\x1b[34m";
    /// Standard magenta, used for special highlights.
    pub const MAGENTA: &'static str = "\x1b[35m";
    /// Standard cyan, used for peer messages and information.
    pub const CYAN: &'static str = "\x1b[36m";
    /// Standard white, used for neutral text.
    pub const WHITE: &'static str = "\x1b[37m";
    /// Gray, used for dimmed or secondary text.
    pub const GRAY: &'static str = "\x1b[90m";
    /// Bright red, used for critical errors.
    pub const BRIGHT_RED: &'static str = "\x1b[91m";
    /// Bright green, used for important success messages.
    pub const BRIGHT_GREEN: &'static str = "\x1b[92m";
    /// Bright yellow, used for important warnings.
    pub const BRIGHT_YELLOW: &'static str = "\x1b[93m";
    /// Bright blue, used for highlighted information.
    pub const BRIGHT_BLUE: &'static str = "\x1b[94m";
    /// Bright magenta, used for special emphasis.
    pub const BRIGHT_MAGENTA: &'static str = "\x1b[95m";
    /// Bright cyan, used for highlighted peer information.
    pub const BRIGHT_CYAN: &'static str = "\x1b[96m";
    /// Bold text, used for emphasis and headers.
    pub const BOLD: &'static str = "\x1b[1m";
    /// Dim text, used for secondary information.
    pub const DIM: &'static str = "\x1b[2m";
    /// Italic text, used for special notes.
    pub const ITALIC: &'static str = "\x1b[3m";
    /// Underlined text, used for important highlights.
    pub const UNDERLINE: &'static str = "\x1b[4m";
}

} // verus!
