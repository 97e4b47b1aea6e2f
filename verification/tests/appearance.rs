use ytdlp_ui::theme::{
    colorref, NativeTitleBarApplyResult, NativeTitleBarStyle, Rgb, ThemeMode, TitleBarFollowUp,
    TitleBarStep, TitleBarSync, UiTheme, NATIVE_COLOR_DEFAULT,
};

#[test]
fn native_title_bar_styles_match_theme_modes() {
    let system_light = NativeTitleBarStyle::for_theme(ThemeMode::System, false);
    let system_dark = NativeTitleBarStyle::for_theme(ThemeMode::System, true);
    let forced_light = NativeTitleBarStyle::for_theme(ThemeMode::Light, true);
    let forced_dark = NativeTitleBarStyle::for_theme(ThemeMode::Dark, false);

    assert!(!system_light.dark_mode);
    assert!(system_light.use_system_theme);
    assert_eq!(system_light.caption_color, NATIVE_COLOR_DEFAULT);
    assert_eq!(system_light.text_color, NATIVE_COLOR_DEFAULT);
    assert!(system_dark.dark_mode);
    assert!(system_dark.use_system_theme);
    assert_eq!(system_dark.caption_color, NATIVE_COLOR_DEFAULT);
    assert_eq!(system_dark.text_color, NATIVE_COLOR_DEFAULT);
    assert!(!forced_light.dark_mode);
    assert!(!forced_light.use_system_theme);
    assert_eq!(
        forced_light.caption_color,
        colorref(UiTheme::light().background)
    );
    assert_eq!(
        forced_light.text_color,
        colorref(UiTheme::light().button_text)
    );
    assert!(forced_dark.dark_mode);
    assert!(!forced_dark.use_system_theme);
    assert_eq!(
        forced_dark.caption_color,
        colorref(UiTheme::dark().background)
    );
    assert_eq!(
        forced_dark.text_color,
        colorref(UiTheme::dark().button_text)
    );
}

#[test]
fn colorref_uses_windows_channel_order() {
    assert_eq!(colorref(Rgb::from_rgb(0x12, 0x34, 0x56)), 0x0056_3412);
}

#[test]
fn palettes_follow_the_mode() {
    assert_eq!(UiTheme::for_dark_mode(true), UiTheme::dark());
    assert_eq!(UiTheme::for_dark_mode(false), UiTheme::light());
    assert_ne!(UiTheme::dark(), UiTheme::light());
    assert_eq!(UiTheme::dark().hover_stroke, Rgb::from_gray(255));
    assert_eq!(UiTheme::light().success, Rgb::from_rgb(35, 140, 60));
}

#[test]
fn theme_modes_have_tooltips() {
    assert_eq!(ThemeMode::default(), ThemeMode::System);
    assert_eq!(ThemeMode::Dark.tooltip(), "Тема: тёмная, зафиксирована");
    assert_eq!(ThemeMode::options().len(), 3);
}

#[test]
fn a_title_bar_is_painted_once_for_each_change() {
    let mut sync = TitleBarSync::new();
    let dark = NativeTitleBarStyle::for_theme(ThemeMode::Dark, false);
    let system = NativeTitleBarStyle::for_theme(ThemeMode::System, false);

    assert_eq!(sync.step(dark), TitleBarStep::Repaint);
    assert_eq!(sync.step(dark), TitleBarStep::Apply(dark));
    assert_eq!(
        sync.report(dark, NativeTitleBarApplyResult::Applied),
        TitleBarFollowUp {
            reset_theme: false,
            repaint: false,
        }
    );
    assert_eq!(sync.step(dark), TitleBarStep::Idle);

    assert_eq!(sync.step(system), TitleBarStep::Repaint);
    assert_eq!(sync.step(system), TitleBarStep::Apply(system));
    assert_eq!(
        sync.report(system, NativeTitleBarApplyResult::Retry),
        TitleBarFollowUp {
            reset_theme: false,
            repaint: true,
        }
    );
    assert_eq!(sync.step(system), TitleBarStep::Apply(system));
    assert_eq!(
        sync.report(system, NativeTitleBarApplyResult::Applied),
        TitleBarFollowUp {
            reset_theme: true,
            repaint: false,
        }
    );
    assert_eq!(sync.step(system), TitleBarStep::Idle);
}

#[test]
fn a_refused_style_hands_the_frame_to_the_system() {
    let mut sync = TitleBarSync::new();
    let light = NativeTitleBarStyle::for_theme(ThemeMode::Light, true);

    sync.schedule();
    assert_eq!(sync.step(light), TitleBarStep::Apply(light));
    assert_eq!(
        sync.report(light, NativeTitleBarApplyResult::UseSystemTheme),
        TitleBarFollowUp {
            reset_theme: true,
            repaint: false,
        }
    );
    assert_eq!(sync.last, Some(light));
}
