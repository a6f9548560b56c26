//! The colours and frames of the parts of the screen.

use vstd::prelude::*;

verus! {

/// The family that a theme belongs to.
#[derive(Debug, Clone, Copy, PartialEq, Eq, Structural)]
pub enum Variant {
    Dark,
    Light,
    Grayscale,
}

/// The palettes that can be chosen.
#[derive(Debug, Clone, Copy, PartialEq, Eq, Structural)]
pub enum PaletteMode {
    Dark,
    Light,
    Grayscale,
    SolarizedLight,
}

/// How a tool call stands.
#[derive(Debug, Clone, Copy, PartialEq, Eq, Structural)]
pub enum ToolStatus {
    Running,
    Success,
    Hydrated,
    Failed,
}

/// A colour: an entry of the palette, or one given by its parts.
#[derive(Debug, Clone, Copy, PartialEq, Eq, Structural)]
pub enum Swatch {
    BorderColor,
    WhaleBg,
    WhaleAccentPrimary,
    TextSoft,
    TextMuted,
    TextDim,
    AccentToolLive,
    AccentToolIssue,
    StatusSuccess,
    StatusWarning,
    LightBorder,
    LightPanel,
    LightTextSoft,
    LightTextMuted,
    LightTextHint,
    WhaleError,
    SolarizedBorder,
    SolarizedPanel,
    SolarizedBlue,
    SolarizedTextSoft,
    SolarizedTextMuted,
    SolarizedTextDim,
    SolarizedCyan,
    SolarizedRed,
    SolarizedOrange,
    GrayscaleBorder,
    GrayscalePanel,
    GrayscaleTextSoft,
    GrayscaleTextMuted,
    GrayscaleTextHint,
    GrayscaleTextBody,
    Rgb(u8, u8, u8),
}

/// The sides of a part that have a border.
#[derive(Debug, Clone, Copy, PartialEq, Eq, Structural)]
pub enum Borders {
    Nowhere,
    All,
}

/// How a border is drawn.
#[derive(Debug, Clone, Copy, PartialEq, Eq, Structural)]
pub enum BorderType {
    Plain,
    Rounded,
}

/// The room between a border and what it encloses.
#[derive(Debug, Clone, Copy, PartialEq, Eq, Structural)]
pub struct Padding {
    pub left: u16,
    pub right: u16,
    pub top: u16,
    pub bottom: u16,
}

impl Padding {
    /// Room at both sides.
    pub open spec fn sides(n: u16) -> Padding {
        Padding { left: n, right: n, top: 0, bottom: 0 }
    }

    /// Room at both sides.
    pub fn horizontal(n: u16) -> (r: Self)
        ensures
            r == Padding::sides(n),
    {
        Padding { left: n, right: n, top: 0, bottom: 0 }
    }
}

/// How a piece of text is drawn.
#[derive(Debug, Clone, Copy, PartialEq, Eq, Structural)]
pub struct TextStyle {
    pub fg: Swatch,
    pub bold: bool,
}

/// The colours and frames of the parts of the screen.
#[derive(Debug, Clone, Copy, PartialEq, Eq, Structural)]
pub struct Theme {
    pub variant: Variant,
    pub section_borders: Borders,
    pub section_border_type: BorderType,
    pub section_border_color: Swatch,
    pub section_bg: Swatch,
    pub section_title_color: Swatch,
    pub section_padding: Padding,
    pub tool_title_color: Swatch,
    pub tool_value_color: Swatch,
    pub tool_label_color: Swatch,
    pub tool_running_accent: Swatch,
    pub tool_success_accent: Swatch,
    pub tool_failed_accent: Swatch,
    pub plan_progress_color: Swatch,
    pub plan_summary_color: Swatch,
    pub plan_explanation_color: Swatch,
    pub plan_pending_color: Swatch,
    pub plan_in_progress_color: Swatch,
    pub plan_completed_color: Swatch,
}

impl Theme {
    /// The dark theme.
    pub open spec fn dark_theme() -> Theme {
        Theme {
            variant: Variant::Dark,
            section_borders: Borders::All,
            section_border_type: BorderType::Plain,
            section_border_color: Swatch::BorderColor,
            section_bg: Swatch::WhaleBg,
            section_title_color: Swatch::WhaleAccentPrimary,
            section_padding: Padding::sides(1),
            tool_title_color: Swatch::TextSoft,
            tool_value_color: Swatch::TextMuted,
            tool_label_color: Swatch::TextDim,
            tool_running_accent: Swatch::AccentToolLive,
            tool_success_accent: Swatch::TextDim,
            tool_failed_accent: Swatch::AccentToolIssue,
            plan_progress_color: Swatch::StatusSuccess,
            plan_summary_color: Swatch::TextMuted,
            plan_explanation_color: Swatch::TextDim,
            plan_pending_color: Swatch::TextMuted,
            plan_in_progress_color: Swatch::StatusWarning,
            plan_completed_color: Swatch::StatusSuccess,
        }
    }

    /// The dark theme.
    pub fn dark() -> (r: Self)
        ensures
            r == Theme::dark_theme(),
    {
        Theme {
            variant: Variant::Dark,
            section_borders: Borders::All,
            section_border_type: BorderType::Plain,
            section_border_color: Swatch::BorderColor,
            section_bg: Swatch::WhaleBg,
            section_title_color: Swatch::WhaleAccentPrimary,
            section_padding: Padding::horizontal(1),
            tool_title_color: Swatch::TextSoft,
            tool_value_color: Swatch::TextMuted,
            tool_label_color: Swatch::TextDim,
            tool_running_accent: Swatch::AccentToolLive,
            tool_success_accent: Swatch::TextDim,
            tool_failed_accent: Swatch::AccentToolIssue,
            plan_progress_color: Swatch::StatusSuccess,
            plan_summary_color: Swatch::TextMuted,
            plan_explanation_color: Swatch::TextDim,
            plan_pending_color: Swatch::TextMuted,
            plan_in_progress_color: Swatch::StatusWarning,
            plan_completed_color: Swatch::StatusSuccess,
        }
    }

    /// The light theme.
    pub open spec fn light_theme() -> Theme {
        Theme {
            variant: Variant::Light,
            section_borders: Borders::All,
            section_border_type: BorderType::Plain,
            section_border_color: Swatch::LightBorder,
            section_bg: Swatch::LightPanel,
            section_title_color: Swatch::WhaleAccentPrimary,
            section_padding: Padding::sides(1),
            tool_title_color: Swatch::LightTextSoft,
            tool_value_color: Swatch::LightTextMuted,
            tool_label_color: Swatch::LightTextHint,
            tool_running_accent: Swatch::WhaleAccentPrimary,
            tool_success_accent: Swatch::LightTextHint,
            tool_failed_accent: Swatch::WhaleError,
            plan_progress_color: Swatch::WhaleAccentPrimary,
            plan_summary_color: Swatch::LightTextMuted,
            plan_explanation_color: Swatch::LightTextHint,
            plan_pending_color: Swatch::LightTextMuted,
            plan_in_progress_color: Swatch::Rgb(180, 83, 9),
            plan_completed_color: Swatch::WhaleAccentPrimary,
        }
    }

    /// The light theme.
    pub fn light() -> (r: Self)
        ensures
            r == Theme::light_theme(),
    {
        Theme {
            variant: Variant::Light,
            section_borders: Borders::All,
            section_border_type: BorderType::Plain,
            section_border_color: Swatch::LightBorder,
            section_bg: Swatch::LightPanel,
            section_title_color: Swatch::WhaleAccentPrimary,
            section_padding: Padding::horizontal(1),
            tool_title_color: Swatch::LightTextSoft,
            tool_value_color: Swatch::LightTextMuted,
            tool_label_color: Swatch::LightTextHint,
            tool_running_accent: Swatch::WhaleAccentPrimary,
            tool_success_accent: Swatch::LightTextHint,
            tool_failed_accent: Swatch::WhaleError,
            plan_progress_color: Swatch::WhaleAccentPrimary,
            plan_summary_color: Swatch::LightTextMuted,
            plan_explanation_color: Swatch::LightTextHint,
            plan_pending_color: Swatch::LightTextMuted,
            plan_in_progress_color: Swatch::Rgb(180, 83, 9),
            plan_completed_color: Swatch::WhaleAccentPrimary,
        }
    }

    /// The light theme in the colours of Solarized.
    pub open spec fn solarized_light_theme() -> Theme {
        Theme {
            variant: Variant::Light,
            section_borders: Borders::All,
            section_border_type: BorderType::Plain,
            section_border_color: Swatch::SolarizedBorder,
            section_bg: Swatch::SolarizedPanel,
            section_title_color: Swatch::SolarizedBlue,
            section_padding: Padding::sides(1),
            tool_title_color: Swatch::SolarizedTextSoft,
            tool_value_color: Swatch::SolarizedTextMuted,
            tool_label_color: Swatch::SolarizedTextDim,
            tool_running_accent: Swatch::SolarizedBlue,
            tool_success_accent: Swatch::SolarizedCyan,
            tool_failed_accent: Swatch::SolarizedRed,
            plan_progress_color: Swatch::SolarizedBlue,
            plan_summary_color: Swatch::SolarizedTextMuted,
            plan_explanation_color: Swatch::SolarizedTextDim,
            plan_pending_color: Swatch::SolarizedTextMuted,
            plan_in_progress_color: Swatch::SolarizedOrange,
            plan_completed_color: Swatch::SolarizedBlue,
        }
    }

    /// The light theme in the colours of Solarized.
    pub fn solarized_light() -> (r: Self)
        ensures
            r == Theme::solarized_light_theme(),
    {
        Theme {
            variant: Variant::Light,
            section_borders: Borders::All,
            section_border_type: BorderType::Plain,
            section_border_color: Swatch::SolarizedBorder,
            section_bg: Swatch::SolarizedPanel,
            section_title_color: Swatch::SolarizedBlue,
            section_padding: Padding::horizontal(1),
            tool_title_color: Swatch::SolarizedTextSoft,
            tool_value_color: Swatch::SolarizedTextMuted,
            tool_label_color: Swatch::SolarizedTextDim,
            tool_running_accent: Swatch::SolarizedBlue,
            tool_success_accent: Swatch::SolarizedCyan,
            tool_failed_accent: Swatch::SolarizedRed,
            plan_progress_color: Swatch::SolarizedBlue,
            plan_summary_color: Swatch::SolarizedTextMuted,
            plan_explanation_color: Swatch::SolarizedTextDim,
            plan_pending_color: Swatch::SolarizedTextMuted,
            plan_in_progress_color: Swatch::SolarizedOrange,
            plan_completed_color: Swatch::SolarizedBlue,
        }
    }

    /// The theme without colours.
    pub open spec fn grayscale_theme() -> Theme {
        Theme {
            variant: Variant::Grayscale,
            section_borders: Borders::All,
            section_border_type: BorderType::Plain,
            section_border_color: Swatch::GrayscaleBorder,
            section_bg: Swatch::GrayscalePanel,
            section_title_color: Swatch::GrayscaleTextSoft,
            section_padding: Padding::sides(1),
            tool_title_color: Swatch::GrayscaleTextSoft,
            tool_value_color: Swatch::GrayscaleTextMuted,
            tool_label_color: Swatch::GrayscaleTextHint,
            tool_running_accent: Swatch::GrayscaleTextSoft,
            tool_success_accent: Swatch::GrayscaleTextHint,
            tool_failed_accent: Swatch::GrayscaleTextBody,
            plan_progress_color: Swatch::GrayscaleTextSoft,
            plan_summary_color: Swatch::GrayscaleTextMuted,
            plan_explanation_color: Swatch::GrayscaleTextHint,
            plan_pending_color: Swatch::GrayscaleTextMuted,
            plan_in_progress_color: Swatch::GrayscaleTextBody,
            plan_completed_color: Swatch::GrayscaleTextSoft,
        }
    }

    /// The theme without colours.
    pub fn grayscale() -> (r: Self)
        ensures
            r == Theme::grayscale_theme(),
    {
        Theme {
            variant: Variant::Grayscale,
            section_borders: Borders::All,
            section_border_type: BorderType::Plain,
            section_border_color: Swatch::GrayscaleBorder,
            section_bg: Swatch::GrayscalePanel,
            section_title_color: Swatch::GrayscaleTextSoft,
            section_padding: Padding::horizontal(1),
            tool_title_color: Swatch::GrayscaleTextSoft,
            tool_value_color: Swatch::GrayscaleTextMuted,
            tool_label_color: Swatch::GrayscaleTextHint,
            tool_running_accent: Swatch::GrayscaleTextSoft,
            tool_success_accent: Swatch::GrayscaleTextHint,
            tool_failed_accent: Swatch::GrayscaleTextBody,
            plan_progress_color: Swatch::GrayscaleTextSoft,
            plan_summary_color: Swatch::GrayscaleTextMuted,
            plan_explanation_color: Swatch::GrayscaleTextHint,
            plan_pending_color: Swatch::GrayscaleTextMuted,
            plan_in_progress_color: Swatch::GrayscaleTextBody,
            plan_completed_color: Swatch::GrayscaleTextSoft,
        }
    }

    /// The theme for a palette.
    pub open spec fn theme_for(mode: PaletteMode) -> Theme {
        match mode {
            PaletteMode::Dark => Theme::dark_theme(),
            PaletteMode::Light => Theme::light_theme(),
            PaletteMode::Grayscale => Theme::grayscale_theme(),
            PaletteMode::SolarizedLight => Theme::solarized_light_theme(),
        }
    }

    /// The theme for a palette.
    pub fn for_palette_mode(mode: PaletteMode) -> (r: Self)
        ensures
            r == Theme::theme_for(mode),
    {
        match mode {
            PaletteMode::Dark => Theme::dark(),
            PaletteMode::Light => Theme::light(),
            PaletteMode::Grayscale => Theme::grayscale(),
            PaletteMode::SolarizedLight => Theme::solarized_light(),
        }
    }

    /// The colour for how a tool call stands.
    pub open spec fn status_color(self, status: ToolStatus) -> Swatch {
        match status {
            ToolStatus::Running => self.tool_running_accent,
            ToolStatus::Success => self.tool_success_accent,
            ToolStatus::Hydrated => self.tool_running_accent,
            ToolStatus::Failed => self.tool_failed_accent,
        }
    }

    /// The colour for how a tool call stands.
    pub fn tool_status_color(self, status: ToolStatus) -> (r: Swatch)
        ensures
            r == self.status_color(status),
    {
        match status {
            ToolStatus::Running => self.tool_running_accent,
            ToolStatus::Success => self.tool_success_accent,
            ToolStatus::Hydrated => self.tool_running_accent,
            ToolStatus::Failed => self.tool_failed_accent,
        }
    }

    /// How the title of a tool call is drawn.
    pub fn tool_title_style(self) -> (r: TextStyle)
        ensures
            r == (TextStyle { fg: self.tool_title_color, bold: true }),
    {
        TextStyle { fg: self.tool_title_color, bold: true }
    }

    /// How the status of a tool call is drawn.
    pub fn tool_status_style(self, status: ToolStatus) -> (r: TextStyle)
        ensures
            r == (TextStyle { fg: self.status_color(status), bold: false }),
    {
        TextStyle { fg: self.tool_status_color(status), bold: false }
    }

    /// How a label of a tool call is drawn.
    pub fn tool_label_style(self) -> (r: TextStyle)
        ensures
            r == (TextStyle { fg: self.tool_label_color, bold: false }),
    {
        TextStyle { fg: self.tool_label_color, bold: false }
    }

    /// How a value of a tool call is drawn.
    pub fn tool_value_style(self) -> (r: TextStyle)
        ensures
            r == (TextStyle { fg: self.tool_value_color, bold: false }),
    {
        TextStyle { fg: self.tool_value_color, bold: false }
    }
}

/// The theme in use.
pub fn active_theme() -> (r: Theme)
    ensures
        r == Theme::dark_theme(),
{
    Theme::dark()
}

/// A call that failed is drawn with another entry of the palette than one that
/// runs or succeeded.
pub proof fn law_failures_stand_out(mode: PaletteMode)
    ensures
        ({
            let t = Theme::theme_for(mode);
            &&& t.status_color(ToolStatus::Failed) != t.status_color(ToolStatus::Running)
            &&& t.status_color(ToolStatus::Failed) != t.status_color(ToolStatus::Success)
        }),
{
}

} // verus!
