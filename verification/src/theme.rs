//! Themes: colors, the native title bar, and keeping the title bar in step with the theme.
use vstd::prelude::*;

verus! {

/// The value that stands for the system's own color of a title bar.
pub const NATIVE_COLOR_DEFAULT: u32 = 0xFFFF_FFFF;

/// Which theme the user wants.
#[derive(Clone, Copy, Debug, PartialEq, Eq, Structural)]
pub enum ThemeMode {
    System,
    Light,
    Dark,
}

impl Default for ThemeMode {
    fn default() -> (r: Self)
        ensures
            r == ThemeMode::System,
    {
        ThemeMode::System
    }
}

impl ThemeMode {
    /// The modes in menu order, each with its label.
    pub open spec fn option_list() -> Seq<(ThemeMode, &'static str)> {
        seq![
            (ThemeMode::System, "Системная"),
            (ThemeMode::Light, "Светлая"),
            (ThemeMode::Dark, "Тёмная"),
        ]
    }

    /// The modes in menu order, each with its label.
    pub fn options() -> (r: Vec<(ThemeMode, &'static str)>)
        ensures
            r@ == Self::option_list(),
    {
        vec![
            (ThemeMode::System, "Системная"),
            (ThemeMode::Light, "Светлая"),
            (ThemeMode::Dark, "Тёмная"),
        ]
    }

    /// What the theme button says of the mode.
    pub open spec fn tooltip_text(self) -> Seq<char> {
        match self {
            ThemeMode::System => "Тема: системная, переключается вместе с Windows"@,
            ThemeMode::Light => "Тема: светлая, зафиксирована"@,
            ThemeMode::Dark => "Тема: тёмная, зафиксирована"@,
        }
    }

    /// What the theme button says of the mode.
    pub fn tooltip(self) -> (r: &'static str)
        ensures
            r@ == self.tooltip_text(),
    {
        match self {
            ThemeMode::System => "Тема: системная, переключается вместе с Windows",
            ThemeMode::Light => "Тема: светлая, зафиксирована",
            ThemeMode::Dark => "Тема: тёмная, зафиксирована",
        }
    }

    /// Whether the window is dark in this mode, while the system is dark or not.
    pub open spec fn is_dark(self, system_dark: bool) -> bool {
        match self {
            ThemeMode::System => system_dark,
            ThemeMode::Light => false,
            ThemeMode::Dark => true,
        }
    }
}

/// An opaque color.
#[derive(Clone, Copy, Debug, PartialEq, Eq, Structural)]
pub struct Rgb {
    pub r: u8,
    pub g: u8,
    pub b: u8,
}

/// The color with the given channels.
pub open spec fn rgb_of(r: u8, g: u8, b: u8) -> Rgb {
    Rgb { r, g, b }
}

/// The gray of the given brightness.
pub open spec fn gray_of(v: u8) -> Rgb {
    Rgb { r: v, g: v, b: v }
}

impl Rgb {
    /// The color with the given channels.
    pub fn from_rgb(r: u8, g: u8, b: u8) -> (c: Self)
        ensures
            c == rgb_of(r, g, b),
    {
        Rgb { r, g, b }
    }

    /// The gray of the given brightness.
    pub fn from_gray(v: u8) -> (c: Self)
        ensures
            c == gray_of(v),
    {
        Rgb { r: v, g: v, b: v }
    }
}

/// The colors of the window.
#[derive(Clone, Copy, Debug, PartialEq, Eq, Structural)]
pub struct UiPalette {
    pub background: Rgb,
    pub group_bg: Rgb,
    pub input_bg: Rgb,
    pub stroke: Rgb,
    pub button_bg: Rgb,
    pub button_hover: Rgb,
    pub button_active: Rgb,
    pub button_text: Rgb,
    pub secondary_text: Rgb,
    pub disabled_fade: Rgb,
    pub hover_stroke: Rgb,
    pub skeleton_dot: Rgb,
    pub skeleton_base: Rgb,
    pub skeleton_highlight: Rgb,
    pub success: Rgb,
}

/// The colors of the two themes.
pub struct UiTheme;

impl UiTheme {
    /// The dark palette.
    pub open spec fn dark_palette() -> UiPalette {
        UiPalette {
            background: rgb_of(18, 18, 18),
            group_bg: rgb_of(24, 24, 24),
            input_bg: rgb_of(10, 10, 10),
            stroke: rgb_of(65, 65, 65),
            button_bg: rgb_of(45, 45, 45),
            button_hover: rgb_of(70, 70, 70),
            button_active: rgb_of(90, 90, 90),
            button_text: gray_of(220),
            secondary_text: gray_of(84),
            disabled_fade: gray_of(27),
            hover_stroke: rgb_of(255, 255, 255),
            skeleton_dot: rgb_of(42, 42, 42),
            skeleton_base: rgb_of(36, 36, 36),
            skeleton_highlight: rgb_of(76, 76, 76),
            success: rgb_of(100, 200, 100),
        }
    }

    /// The light palette.
    pub open spec fn light_palette() -> UiPalette {
        UiPalette {
            background: rgb_of(245, 245, 245),
            group_bg: rgb_of(255, 255, 255),
            input_bg: rgb_of(248, 248, 248),
            stroke: rgb_of(190, 190, 190),
            button_bg: rgb_of(232, 232, 232),
            button_hover: rgb_of(218, 218, 218),
            button_active: rgb_of(205, 205, 205),
            button_text: gray_of(35),
            secondary_text: gray_of(105),
            disabled_fade: gray_of(190),
            hover_stroke: gray_of(105),
            skeleton_dot: rgb_of(210, 210, 210),
            skeleton_base: rgb_of(220, 220, 220),
            skeleton_highlight: rgb_of(242, 242, 242),
            success: rgb_of(35, 140, 60),
        }
    }

    /// The palette of the dark theme or of the light one.
    pub open spec fn palette(dark_mode: bool) -> UiPalette {
        if dark_mode {
            Self::dark_palette()
        } else {
            Self::light_palette()
        }
    }

    /// The dark palette.
    pub fn dark() -> (r: UiPalette)
        ensures
            r == Self::dark_palette(),
    {
        UiPalette {
            background: Rgb::from_rgb(18, 18, 18),
            group_bg: Rgb::from_rgb(24, 24, 24),
            input_bg: Rgb::from_rgb(10, 10, 10),
            stroke: Rgb::from_rgb(65, 65, 65),
            button_bg: Rgb::from_rgb(45, 45, 45),
            button_hover: Rgb::from_rgb(70, 70, 70),
            button_active: Rgb::from_rgb(90, 90, 90),
            button_text: Rgb::from_gray(220),
            secondary_text: Rgb::from_gray(84),
            disabled_fade: Rgb::from_gray(27),
            hover_stroke: Rgb::from_gray(255),
            skeleton_dot: Rgb::from_rgb(42, 42, 42),
            skeleton_base: Rgb::from_rgb(36, 36, 36),
            skeleton_highlight: Rgb::from_rgb(76, 76, 76),
            success: Rgb::from_rgb(100, 200, 100),
        }
    }

    /// The light palette.
    pub fn light() -> (r: UiPalette)
        ensures
            r == Self::light_palette(),
    {
        UiPalette {
            background: Rgb::from_rgb(245, 245, 245),
            group_bg: Rgb::from_gray(255),
            input_bg: Rgb::from_rgb(248, 248, 248),
            stroke: Rgb::from_rgb(190, 190, 190),
            button_bg: Rgb::from_rgb(232, 232, 232),
            button_hover: Rgb::from_rgb(218, 218, 218),
            button_active: Rgb::from_rgb(205, 205, 205),
            button_text: Rgb::from_gray(35),
            secondary_text: Rgb::from_gray(105),
            disabled_fade: Rgb::from_gray(190),
            hover_stroke: Rgb::from_gray(105),
            skeleton_dot: Rgb::from_rgb(210, 210, 210),
            skeleton_base: Rgb::from_rgb(220, 220, 220),
            skeleton_highlight: Rgb::from_rgb(242, 242, 242),
            success: Rgb::from_rgb(35, 140, 60),
        }
    }

    /// The palette of the dark theme or of the light one.
    pub fn for_dark_mode(dark_mode: bool) -> (r: UiPalette)
        ensures
            r == Self::palette(dark_mode),
    {
        if dark_mode {
            Self::dark()
        } else {
            Self::light()
        }
    }
}

/// A color as the Windows API writes it: red in the lowest byte, blue in the third.
pub open spec fn colorref_of(color: Rgb) -> int {
    color.r + 0x100 * color.g + 0x1_0000 * color.b
}

/// A color as the Windows API writes it: red in the lowest byte, blue in the third.
pub fn colorref(color: Rgb) -> (r: u32)
    ensures
        r == colorref_of(color),
{
    let (r, g, b) = (color.r as u32, color.g as u32, color.b as u32);
    assert(r < 0x100 && g < 0x100 && b < 0x100 ==> r | (g << 8) | (b << 16) == r + 0x100 * g
        + 0x1_0000 * b) by (bit_vector);
    r | (g << 8) | (b << 16)
}

/// How the native title bar is painted.
#[derive(Clone, Copy, Debug, PartialEq, Eq, Structural)]
pub struct NativeTitleBarStyle {
    pub dark_mode: bool,
    pub caption_color: u32,
    pub text_color: u32,
    pub use_system_theme: bool,
}

/// The title bar for a theme mode, while the window is dark or not.
pub open spec fn title_bar_style(mode: ThemeMode, effective_dark_mode: bool) -> NativeTitleBarStyle {
    let dark_mode = mode.is_dark(effective_dark_mode);
    let palette = UiTheme::palette(dark_mode);
    NativeTitleBarStyle {
        dark_mode,
        caption_color: if mode == ThemeMode::System {
            NATIVE_COLOR_DEFAULT
        } else {
            colorref_of(palette.background) as u32
        },
        text_color: if mode == ThemeMode::System {
            NATIVE_COLOR_DEFAULT
        } else {
            colorref_of(palette.button_text) as u32
        },
        use_system_theme: mode == ThemeMode::System,
    }
}

impl NativeTitleBarStyle {
    /// The title bar for a theme mode, while the window is dark or not.
    pub fn for_theme(mode: ThemeMode, effective_dark_mode: bool) -> (r: Self)
        ensures
            r == title_bar_style(mode, effective_dark_mode),
    {
        let dark_mode = match mode {
            ThemeMode::System => effective_dark_mode,
            ThemeMode::Light => false,
            ThemeMode::Dark => true,
        };
        if mode == ThemeMode::System {
            return NativeTitleBarStyle {
                dark_mode,
                caption_color: NATIVE_COLOR_DEFAULT,
                text_color: NATIVE_COLOR_DEFAULT,
                use_system_theme: true,
            };
        }
        let palette = UiTheme::for_dark_mode(dark_mode);
        NativeTitleBarStyle {
            dark_mode,
            caption_color: colorref(palette.background),
            text_color: colorref(palette.button_text),
            use_system_theme: false,
        }
    }
}

/// How painting the native title bar ended.
#[derive(Clone, Copy, Debug, PartialEq, Eq, Structural)]
pub enum NativeTitleBarApplyResult {
    Applied,
    UseSystemTheme,
    Retry,
}

/// What a frame has to do for the title bar.
#[derive(Clone, Copy, Debug, PartialEq, Eq, Structural)]
pub enum TitleBarStep {
    /// Nothing.
    Idle,
    /// Ask for another frame.
    Repaint,
    /// Paint the title bar, and report how that ended.
    Apply(NativeTitleBarStyle),
}

/// What is left to do after the title bar was painted.
#[derive(Clone, Copy, Debug, PartialEq, Eq, Structural)]
pub struct TitleBarFollowUp {
    /// Hand the window frame back to the system's theme.
    pub reset_theme: bool,
    /// Ask for another frame.
    pub repaint: bool,
}

/// Keeps the title bar in step with the theme: a change is painted one frame after it is seen.
#[derive(Clone, Copy, Debug, PartialEq, Eq, Structural)]
pub struct TitleBarSync {
    /// The frames left before the title bar is painted; none are pending at zero.
    pub delay: u8,
    /// The style that was painted last.
    pub last: Option<NativeTitleBarStyle>,
}

impl TitleBarSync {
    /// The state of a window that has just been opened.
    pub fn new() -> (r: Self)
        ensures
            r == (TitleBarSync { delay: 2, last: None }),
    {
        TitleBarSync { delay: 2, last: None }
    }

    /// The state in which the next frame paints.
    pub open spec fn scheduled(self) -> TitleBarSync {
        TitleBarSync { delay: 1, ..self }
    }

    /// Has the next frame paint the title bar.
    pub fn schedule(&mut self)
        ensures
            *final(self) == old(self).scheduled(),
    {
        self.delay = 1;
    }

    /// The state after a frame that wants `style`, and what the frame has to do.
    pub open spec fn stepped(self, style: NativeTitleBarStyle) -> (TitleBarSync, TitleBarStep) {
        if self.delay > 1 {
            (TitleBarSync { delay: (self.delay - 1) as u8, ..self }, TitleBarStep::Repaint)
        } else if self.delay == 1 {
            (TitleBarSync { delay: 0, ..self }, TitleBarStep::Apply(style))
        } else if self.last != Some(style) {
            (self.scheduled(), TitleBarStep::Repaint)
        } else {
            (self, TitleBarStep::Idle)
        }
    }

    /// Takes one frame that wants `style`.
    pub fn step(&mut self, style: NativeTitleBarStyle) -> (r: TitleBarStep)
        ensures
            (*final(self), r) == old(self).stepped(style),
    {
        if self.delay > 0 {
            self.delay = self.delay - 1;
            if self.delay == 0 {
                TitleBarStep::Apply(style)
            } else {
                TitleBarStep::Repaint
            }
        } else {
            let current = match self.last {
                Some(last) => last == style,
                None => false,
            };
            if current {
                TitleBarStep::Idle
            } else {
                self.schedule();
                TitleBarStep::Repaint
            }
        }
    }

    /// The state after `style` was painted, and what is left to do.
    pub open spec fn reported(
        self,
        style: NativeTitleBarStyle,
        result: NativeTitleBarApplyResult,
    ) -> (TitleBarSync, TitleBarFollowUp) {
        match result {
            NativeTitleBarApplyResult::Applied => (
                TitleBarSync { last: Some(style), ..self },
                TitleBarFollowUp { reset_theme: style.use_system_theme, repaint: self.delay > 0 },
            ),
            NativeTitleBarApplyResult::UseSystemTheme => (
                TitleBarSync { last: Some(style), ..self },
                TitleBarFollowUp { reset_theme: true, repaint: self.delay > 0 },
            ),
            NativeTitleBarApplyResult::Retry => (
                self.scheduled(),
                TitleBarFollowUp { reset_theme: false, repaint: true },
            ),
        }
    }

    /// Takes note of how painting `style` ended.
    pub fn report(
        &mut self,
        style: NativeTitleBarStyle,
        result: NativeTitleBarApplyResult,
    ) -> (r: TitleBarFollowUp)
        ensures
            (*final(self), r) == old(self).reported(style, result),
    {
        let mut reset_theme = false;
        match result {
            NativeTitleBarApplyResult::Applied => {
                reset_theme = style.use_system_theme;
                self.last = Some(style);
            },
            NativeTitleBarApplyResult::UseSystemTheme => {
                reset_theme = true;
                self.last = Some(style);
            },
            NativeTitleBarApplyResult::Retry => {
                self.schedule();
            },
        }
        TitleBarFollowUp { reset_theme, repaint: self.delay > 0 }
    }
}

/// A theme that is fixed gives the same title bar whatever the system does.
pub proof fn law_fixed_theme_ignores_system(mode: ThemeMode, a: bool, b: bool)
    requires
        mode != ThemeMode::System,
    ensures
        title_bar_style(mode, a) == title_bar_style(mode, b),
        title_bar_style(mode, a).dark_mode == (mode == ThemeMode::Dark),
{
}

/// Once a style has been painted, frames that want it do nothing, and the first frame that wants
/// another one has it painted by the frame after.
pub proof fn law_title_bar_settles(
    sync: TitleBarSync,
    style: NativeTitleBarStyle,
    other: NativeTitleBarStyle,
    result: NativeTitleBarApplyResult,
)
    requires
        sync.delay == 1,
        result != NativeTitleBarApplyResult::Retry,
        other != style,
    ensures
        sync.stepped(style).1 == TitleBarStep::Apply(style),
        ({
            let settled = sync.stepped(style).0.reported(style, result).0;
            &&& settled.stepped(style) == (settled, TitleBarStep::Idle)
            &&& settled.stepped(other).1 == TitleBarStep::Repaint
            &&& settled.stepped(other).0.stepped(other).1 == TitleBarStep::Apply(other)
        }),
{
}

/// A title bar that could not be painted is painted again by the next frame.
pub proof fn law_title_bar_retries(sync: TitleBarSync, style: NativeTitleBarStyle)
    ensures
        ({
            let after = sync.reported(style, NativeTitleBarApplyResult::Retry).0;
            after.stepped(style).1 == TitleBarStep::Apply(style)
        }),
{
}

/// A color is written with red in the lowest byte, green in the next and blue in the third.
pub proof fn law_color_bytes(color: Rgb, r: u32)
    requires
        call_ensures(colorref, (color,), r),
    ensures
        r % 0x100 == color.r,
        (r / 0x100) % 0x100 == color.g,
        r / 0x1_0000 == color.b,
{
}

/// The title bar of the system's theme is left to the system. That of a fixed theme is dark exactly in
/// the dark theme, and has the colors of the background and of the text on buttons in that theme.
pub proof fn law_title_bar_has_the_theme(
    mode: ThemeMode,
    effective_dark_mode: bool,
    palette: UiPalette,
    caption: u32,
    text: u32,
    r: NativeTitleBarStyle,
)
    requires
        call_ensures(UiTheme::for_dark_mode, (mode == ThemeMode::Dark,), palette),
        call_ensures(colorref, (palette.background,), caption),
        call_ensures(colorref, (palette.button_text,), text),
        call_ensures(NativeTitleBarStyle::for_theme, (mode, effective_dark_mode), r),
    ensures
        r.use_system_theme <==> mode == ThemeMode::System,
        mode == ThemeMode::System ==> r.dark_mode == effective_dark_mode && r.caption_color
            == 0xFFFF_FFFF && r.text_color == 0xFFFF_FFFF,
        mode != ThemeMode::System ==> r.dark_mode == (mode == ThemeMode::Dark) && r.caption_color
            == caption && r.text_color == text,
{
}

/// The palette of a dark window is the dark one, and that of any other the light one.
pub proof fn law_palette_of_the_mode(
    dark_mode: bool,
    dark: UiPalette,
    light: UiPalette,
    r: UiPalette,
)
    requires
        call_ensures(UiTheme::dark, (), dark),
        call_ensures(UiTheme::light, (), light),
        call_ensures(UiTheme::for_dark_mode, (dark_mode,), r),
    ensures
        dark_mode ==> r == dark,
        !dark_mode ==> r == light,
        dark.background == (Rgb { r: 18, g: 18, b: 18 }),
        dark.group_bg == (Rgb { r: 24, g: 24, b: 24 }),
        dark.input_bg == (Rgb { r: 10, g: 10, b: 10 }),
        dark.stroke == (Rgb { r: 65, g: 65, b: 65 }),
        dark.button_bg == (Rgb { r: 45, g: 45, b: 45 }),
        dark.button_hover == (Rgb { r: 70, g: 70, b: 70 }),
        dark.button_active == (Rgb { r: 90, g: 90, b: 90 }),
        dark.button_text == (Rgb { r: 220, g: 220, b: 220 }),
        dark.secondary_text == (Rgb { r: 84, g: 84, b: 84 }),
        dark.disabled_fade == (Rgb { r: 27, g: 27, b: 27 }),
        dark.hover_stroke == (Rgb { r: 255, g: 255, b: 255 }),
        dark.skeleton_dot == (Rgb { r: 42, g: 42, b: 42 }),
        dark.skeleton_base == (Rgb { r: 36, g: 36, b: 36 }),
        dark.skeleton_highlight == (Rgb { r: 76, g: 76, b: 76 }),
        dark.success == (Rgb { r: 100, g: 200, b: 100 }),
        light.background == (Rgb { r: 245, g: 245, b: 245 }),
        light.group_bg == (Rgb { r: 255, g: 255, b: 255 }),
        light.input_bg == (Rgb { r: 248, g: 248, b: 248 }),
        light.stroke == (Rgb { r: 190, g: 190, b: 190 }),
        light.button_bg == (Rgb { r: 232, g: 232, b: 232 }),
        light.button_hover == (Rgb { r: 218, g: 218, b: 218 }),
        light.button_active == (Rgb { r: 205, g: 205, b: 205 }),
        light.button_text == (Rgb { r: 35, g: 35, b: 35 }),
        light.secondary_text == (Rgb { r: 105, g: 105, b: 105 }),
        light.disabled_fade == (Rgb { r: 190, g: 190, b: 190 }),
        light.hover_stroke == (Rgb { r: 105, g: 105, b: 105 }),
        light.skeleton_dot == (Rgb { r: 210, g: 210, b: 210 }),
        light.skeleton_base == (Rgb { r: 220, g: 220, b: 220 }),
        light.skeleton_highlight == (Rgb { r: 242, g: 242, b: 242 }),
        light.success == (Rgb { r: 35, g: 140, b: 60 }),
{
}

/// The title bar is painted by the frame in which the last of the frames that were to pass has passed,
/// and by no other. A frame that finds nothing pending asks for another one exactly where what was
/// painted last is not what it wants.
pub proof fn law_title_bar_is_painted_when_due(
    sync: &mut TitleBarSync,
    style: NativeTitleBarStyle,
    r: TitleBarStep,
)
    requires
        call_ensures(TitleBarSync::step, (sync, style), r),
    ensures
        r is Apply <==> old(sync).delay == 1,
        r matches TitleBarStep::Apply(painted) ==> painted == style,
        r == TitleBarStep::Idle <==> old(sync).delay == 0 && old(sync).last == Some(style),
        old(sync).delay > 0 ==> final(sync).delay == old(sync).delay - 1,
        old(sync).delay == 0 && r == TitleBarStep::Repaint ==> final(sync).delay == 1,
        final(sync).last == old(sync).last,
{
}

/// What was painted is remembered, unless it has to be painted again, which the next frame does. The
/// frame goes back to the system's theme where that was asked for or the style could not be used.
pub proof fn law_painting_is_noted(
    sync: &mut TitleBarSync,
    style: NativeTitleBarStyle,
    result: NativeTitleBarApplyResult,
    r: TitleBarFollowUp,
)
    requires
        call_ensures(TitleBarSync::report, (sync, style, result), r),
    ensures
        result == NativeTitleBarApplyResult::Retry ==> final(sync).last == old(sync).last
            && final(sync).delay == 1,
        result != NativeTitleBarApplyResult::Retry ==> final(sync).last == Some(style)
            && final(sync).delay == old(sync).delay,
        r.reset_theme <==> result == NativeTitleBarApplyResult::UseSystemTheme || result
            == NativeTitleBarApplyResult::Applied && style.use_system_theme,
        r.repaint <==> final(sync).delay > 0,
{
}

/// The menu offers the system's theme, the light one and the dark one, in this order; the button tells
/// which is chosen, and the system's theme is the one that a new window has.
pub proof fn law_themes_are_offered(
    r: Vec<(ThemeMode, &'static str)>,
    mode: ThemeMode,
    tooltip: &'static str,
    default: ThemeMode,
)
    requires
        call_ensures(ThemeMode::options, (), r),
        call_ensures(ThemeMode::tooltip, (mode,), tooltip),
        call_ensures(ThemeMode::default, (), default),
    ensures
        default == ThemeMode::System,
        r@ == seq![
            (ThemeMode::System, "Системная"),
            (ThemeMode::Light, "Светлая"),
            (ThemeMode::Dark, "Тёмная"),
        ],
        mode == ThemeMode::System ==> tooltip@ == "Тема: системная, переключается вместе с Windows"@,
        mode == ThemeMode::Light ==> tooltip@ == "Тема: светлая, зафиксирована"@,
        mode == ThemeMode::Dark ==> tooltip@ == "Тема: тёмная, зафиксирована"@,
{
}

} // verus!
