use codewhale_tui::deepseek_theme::{
    active_theme, Padding, PaletteMode, Swatch, Theme, ToolStatus, Variant,
};

#[test]
fn active_theme_returns_dark() {
    assert_eq!(active_theme(), Theme::dark());
}

#[test]
fn dark_theme_matches_existing_palette_choices() {
    let theme = Theme::dark();
    assert_eq!(theme.variant, Variant::Dark);
    assert_eq!(theme.section_border_color, Swatch::BorderColor);
    assert_eq!(theme.section_bg, Swatch::WhaleBg);
    assert_eq!(theme.section_title_color, Swatch::WhaleAccentPrimary);
    assert_eq!(theme.tool_title_color, Swatch::TextSoft);
    assert_eq!(theme.tool_value_color, Swatch::TextMuted);
    assert_eq!(theme.tool_label_color, Swatch::TextDim);
    assert_eq!(theme.tool_running_accent, Swatch::AccentToolLive);
    assert_eq!(theme.tool_success_accent, Swatch::TextDim);
    assert_eq!(theme.tool_failed_accent, Swatch::AccentToolIssue);
}

#[test]
fn light_theme_uses_light_panel_tokens() {
    let theme = Theme::for_palette_mode(PaletteMode::Light);
    assert_eq!(theme.variant, Variant::Light);
    assert_eq!(theme.section_bg, Swatch::LightPanel);
    assert_eq!(theme.section_border_color, Swatch::LightBorder);
    assert_eq!(theme.tool_title_color, Swatch::LightTextSoft);
    assert_eq!(theme.tool_value_color, Swatch::LightTextMuted);
    assert_eq!(theme.plan_summary_color, Swatch::LightTextMuted);
    assert_eq!(theme.plan_in_progress_color, Swatch::Rgb(180, 83, 9));
}

#[test]
fn grayscale_theme_uses_neutral_tokens() {
    let theme = Theme::for_palette_mode(PaletteMode::Grayscale);
    assert_eq!(theme.variant, Variant::Grayscale);
    assert_eq!(theme.section_bg, Swatch::GrayscalePanel);
    assert_eq!(theme.section_border_color, Swatch::GrayscaleBorder);
    assert_eq!(theme.tool_running_accent, Swatch::GrayscaleTextSoft);
    assert_eq!(theme.tool_failed_accent, Swatch::GrayscaleTextBody);
    assert_eq!(theme.plan_summary_color, Swatch::GrayscaleTextMuted);
}

#[test]
fn tool_status_color_maps_each_status() {
    let theme = Theme::dark();
    assert_eq!(
        theme.tool_status_color(ToolStatus::Running),
        theme.tool_running_accent
    );
    assert_eq!(
        theme.tool_status_color(ToolStatus::Success),
        theme.tool_success_accent
    );
    assert_eq!(
        theme.tool_status_color(ToolStatus::Hydrated),
        theme.tool_running_accent
    );
    assert_eq!(
        theme.tool_status_color(ToolStatus::Failed),
        theme.tool_failed_accent
    );
}

#[test]
fn solarized_is_a_light_theme() {
    let theme = Theme::for_palette_mode(PaletteMode::SolarizedLight);
    assert_eq!(theme.variant, Variant::Light);
    assert_eq!(theme.tool_failed_accent, Swatch::SolarizedRed);
}

#[test]
fn titles_are_bold_and_frames_have_room() {
    let theme = Theme::light();
    assert!(theme.tool_title_style().bold);
    assert_eq!(theme.tool_label_style().fg, theme.tool_label_color);
    assert_eq!(theme.tool_value_style().fg, theme.tool_value_color);
    assert_eq!(
        theme.tool_status_style(ToolStatus::Failed).fg,
        theme.tool_failed_accent
    );
    assert_eq!(
        theme.section_padding,
        Padding {
            left: 1,
            right: 1,
            top: 0,
            bottom: 0
        }
    );
}
