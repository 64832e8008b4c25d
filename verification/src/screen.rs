//! The state behind the terminal screens: error messages, the theme mode,
//! buttons and their colours, where popups go, and the start-up splash.

use vstd::prelude::*;
use crate::gray::GrayImage;
use crate::text::push_str;

verus! {

/// What an error screen shows: a title, message lines and an optional hint.
#[derive(Debug, Clone)]
pub struct ErrorInfo {
    pub title: String,
    pub message: Vec<String>,
    pub hint: Option<String>,
}

/// `a` followed by `b`, as a new string.
fn concat(a: &str, b: &str) -> (r: String)
    ensures
        r@ == a@ + b@,
{
    let mut r = a.to_owned();
    push_str(&mut r, b);
    r
}

/// The views of a list of lines.
pub open spec fn lines_of(v: Seq<String>) -> Seq<Seq<char>> {
    v.map_values(|s: String| s@)
}

impl ErrorInfo {
    /// An error nothing more is known of, shown with its message.
    pub fn unknown_error(error: String) -> (r: Self)
        ensures
            r.title@ == "unknown error"@,
            lines_of(r.message@) == seq![error@],
            r.hint is None,
    {
        let mut message: Vec<String> = Vec::new();
        let ghost e = error@;
        message.push(error);
        proof {
            assert(lines_of(message@) =~= seq![e]);
        }
        ErrorInfo { title: "unknown error".to_owned(), message, hint: None }
    }

    /// No comic files in the directory `dir`.
    pub fn no_files(dir: &str) -> (r: Self)
        ensures
            r.title@ == "no files found"@,
            lines_of(r.message@) == seq![
                "no comic/manga files found"@,
                ""@,
                "directory: "@ + dir@,
            ],
            r.hint matches Some(h) && h@ == "supports .cbz .cbr .zip .rar"@,
    {
        let mut message: Vec<String> = Vec::new();
        message.push("no comic/manga files found".to_owned());
        message.push("".to_owned());
        message.push(concat("directory: ", dir));
        proof {
            assert(lines_of(message@) =~= seq![
                "no comic/manga files found"@,
                ""@,
                "directory: "@ + dir@,
            ]);
        }
        ErrorInfo {
            title: "no files found".to_owned(),
            message,
            hint: Some("supports .cbz .cbr .zip .rar".to_owned()),
        }
    }

    /// The directory `dir` could not be read.
    pub fn directory_error(dir: &str, error: &str) -> (r: Self)
        ensures
            r.title@ == "can't read dir"@,
            lines_of(r.message@) == seq![
                "failed to read directory"@,
                ""@,
                "directory: "@ + dir@,
                ""@,
                "error: "@ + error@,
            ],
            r.hint matches Some(h) && h@ == "check that the directory exists"@,
    {
        let mut message: Vec<String> = Vec::new();
        message.push("failed to read directory".to_owned());
        message.push("".to_owned());
        message.push(concat("directory: ", dir));
        message.push("".to_owned());
        message.push(concat("error: ", error));
        proof {
            assert(lines_of(message@) =~= seq![
                "failed to read directory"@,
                ""@,
                "directory: "@ + dir@,
                ""@,
                "error: "@ + error@,
            ]);
        }
        ErrorInfo {
            title: "can't read dir".to_owned(),
            message,
            hint: Some("check that the directory exists".to_owned()),
        }
    }

    /// The output directory `dir` could not be created.
    pub fn output_dir_error(dir: &str, error: &str) -> (r: Self)
        ensures
            r.title@ == "fatal error"@,
            lines_of(r.message@) == seq![
                "failed to create output directory"@,
                ""@,
                "directory: "@ + dir@,
                ""@,
                "error: "@ + error@,
            ],
            r.hint matches Some(h) && h@ == "check permissions and disk space"@,
    {
        let mut message: Vec<String> = Vec::new();
        message.push("failed to create output directory".to_owned());
        message.push("".to_owned());
        message.push(concat("directory: ", dir));
        message.push("".to_owned());
        message.push(concat("error: ", error));
        proof {
            assert(lines_of(message@) =~= seq![
                "failed to create output directory"@,
                ""@,
                "directory: "@ + dir@,
                ""@,
                "error: "@ + error@,
            ]);
        }
        ErrorInfo {
            title: "fatal error".to_owned(),
            message,
            hint: Some("check permissions and disk space".to_owned()),
        }
    }
}

/// Dark or light colours.
#[derive(Debug, Clone, Copy, PartialEq, Eq, Structural)]
pub enum ThemeMode {
    Dark,
    Light,
}

impl ThemeMode {
    /// The other mode (what the theme key switches to).
    pub fn toggled(&self) -> (r: Self)
        ensures
            r != *self,
    {
        match self {
            ThemeMode::Dark => ThemeMode::Light,
            ThemeMode::Light => ThemeMode::Dark,
        }
    }
}

/// Whether a button is held down.
#[derive(Debug, Clone, Copy, PartialEq, Eq, Structural)]
pub enum State {
    Normal,
    Pressed,
}

/// The look of a button.
#[derive(Debug, Clone, Copy, PartialEq, Eq, Structural)]
pub enum ButtonVariant {
    Primary,
    Secondary,
}

/// What the mouse did, as far as buttons care.
#[derive(Debug, Clone, Copy, PartialEq, Eq, Structural)]
pub enum MouseAction {
    LeftDown,
    LeftUp,
    Other,
}

/// A button's state after a mouse event, and whether its click fires:
/// only events over an enabled button count; pressing holds it down,
/// releasing fires the click (when it has one) and lets it go.
pub open spec fn button_after(
    state: State,
    enabled: bool,
    has_click: bool,
    mouse: MouseAction,
    inside: bool,
) -> (State, bool) {
    if !inside || !enabled {
        (state, false)
    } else {
        match mouse {
            MouseAction::LeftDown => (State::Pressed, false),
            MouseAction::LeftUp => (State::Normal, has_click),
            MouseAction::Other => (state, false),
        }
    }
}

/// The new state of a button after a mouse event, and whether its click
/// handler is to run.
pub fn button_mouse(state: State, enabled: bool, has_click: bool, mouse: MouseAction, inside: bool) -> (r: (
    State,
    bool,
))
    ensures
        r == button_after(state, enabled, has_click, mouse, inside),
{
    if !inside || !enabled {
        return (state, false);
    }
    match mouse {
        MouseAction::LeftDown => (State::Pressed, false),
        MouseAction::LeftUp => (State::Normal, has_click),
        MouseAction::Other => (state, false),
    }
}

/// A colour of the theme, by its role.
#[derive(Debug, Clone, Copy, PartialEq, Eq, Structural)]
pub enum ColorRole {
    Content,
    Muted,
    Border,
    Primary,
    PrimaryBg,
    PrimaryPressed,
    Secondary,
    SecondaryBg,
    SecondaryPressed,
}

/// The colours (text, background, top edge, bottom edge) of a button: muted
/// when disabled; otherwise of its variant, with a pressed background and a
/// border-coloured bottom edge while held down.
pub open spec fn button_roles(enabled: bool, state: State, variant: ButtonVariant) -> (
    ColorRole,
    ColorRole,
    ColorRole,
    ColorRole,
) {
    if !enabled {
        (ColorRole::Content, ColorRole::Muted, ColorRole::Border, ColorRole::Border)
    } else {
        match (state, variant) {
            (State::Normal, ButtonVariant::Primary) => (
                ColorRole::Primary,
                ColorRole::PrimaryBg,
                ColorRole::Primary,
                ColorRole::Primary,
            ),
            (State::Pressed, ButtonVariant::Primary) => (
                ColorRole::Primary,
                ColorRole::PrimaryPressed,
                ColorRole::Primary,
                ColorRole::Border,
            ),
            (State::Normal, ButtonVariant::Secondary) => (
                ColorRole::Secondary,
                ColorRole::SecondaryBg,
                ColorRole::Secondary,
                ColorRole::Secondary,
            ),
            (State::Pressed, ButtonVariant::Secondary) => (
                ColorRole::Secondary,
                ColorRole::SecondaryPressed,
                ColorRole::Secondary,
                ColorRole::Border,
            ),
        }
    }
}

/// The colour roles (text, background, top edge, bottom edge) of a button.
pub fn button_colors(enabled: bool, state: State, variant: ButtonVariant) -> (r: (
    ColorRole,
    ColorRole,
    ColorRole,
    ColorRole,
))
    ensures
        r == button_roles(enabled, state, variant),
{
    if !enabled {
        return (ColorRole::Content, ColorRole::Muted, ColorRole::Border, ColorRole::Border);
    }
    match (state, variant) {
        (State::Normal, ButtonVariant::Primary) => (
            ColorRole::Primary,
            ColorRole::PrimaryBg,
            ColorRole::Primary,
            ColorRole::Primary,
        ),
        (State::Pressed, ButtonVariant::Primary) => (
            ColorRole::Primary,
            ColorRole::PrimaryPressed,
            ColorRole::Primary,
            ColorRole::Border,
        ),
        (State::Normal, ButtonVariant::Secondary) => (
            ColorRole::Secondary,
            ColorRole::SecondaryBg,
            ColorRole::Secondary,
            ColorRole::Secondary,
        ),
        (State::Pressed, ButtonVariant::Secondary) => (
            ColorRole::Secondary,
            ColorRole::SecondaryPressed,
            ColorRole::Secondary,
            ColorRole::Border,
        ),
    }
}

/// Something a button runs once when it is clicked.
pub trait CallOnce {
    fn call_once(self);
}

/// The click handler of a button that does nothing when clicked.
pub struct DoNothing;

impl CallOnce for DoNothing {
    fn call_once(self) {
    }
}

/// A side of a screen area, where padding goes.
#[derive(Debug, Clone, Copy, PartialEq, Eq, Structural)]
pub enum Side {
    Top,
    Bottom,
    Left,
    Right,
}

/// A rectangle of terminal cells.
#[derive(Debug, Clone, Copy, PartialEq, Eq, Structural)]
pub struct Rect {
    pub x: u16,
    pub y: u16,
    pub width: u16,
    pub height: u16,
}

/// The help popup's place in `area`: four fifths of its width (at most 80
/// cells) and nine tenths of its height (at most 40), centered.
pub open spec fn help_popup_rect(area: Rect) -> Rect {
    let w = help_popup_width(area);
    let h = help_popup_height(area);
    Rect {
        x: (area.x + (area.width - w) / 2) as u16,
        y: (area.y + (area.height - h) / 2) as u16,
        width: w as u16,
        height: h as u16,
    }
}

/// The help popup's width in `area`: four fifths of it, at most 80 cells.
pub open spec fn help_popup_width(area: Rect) -> int {
    if area.width * 4 / 5 < 80 { area.width * 4 / 5 } else { 80 }
}

/// The help popup's height in `area`: nine tenths of it, at most 40 rows.
pub open spec fn help_popup_height(area: Rect) -> int {
    if area.height * 9 / 10 < 40 { area.height * 9 / 10 } else { 40 }
}

/// Where the help popup goes in `area`.
pub fn help_popup_area(area: Rect) -> (r: Rect)
    requires
        area.width * 4 <= u16::MAX,
        area.height * 9 <= u16::MAX,
        area.x + (area.width - help_popup_width(area)) / 2 <= u16::MAX,
        area.y + (area.height - help_popup_height(area)) / 2 <= u16::MAX,
    ensures
        r == help_popup_rect(area),
{
    let w4: u16 = area.width * 4 / 5;
    let w: u16 = if w4 < 80 { w4 } else { 80 };
    let h9: u16 = area.height * 9 / 10;
    let h: u16 = if h9 < 40 { h9 } else { 40 };
    Rect { x: area.x + (area.width - w) / 2, y: area.y + (area.height - h) / 2, width: w, height: h }
}

/// Where the "loading..." text of an image still loading starts: centered
/// across `area` (at its left edge when the area is narrower than the
/// text), on its middle row.
pub fn placeholder_text_origin(area: Rect) -> (r: (u16, u16))
    requires
        area.x + (if area.width > 10 {
            area.width - 10
        } else {
            0
        }) / 2 <= u16::MAX,
        area.y + area.height / 2 <= u16::MAX,
    ensures
        r.0 == area.x + (if area.width > 10 {
            area.width - 10
        } else {
            0
        }) / 2,
        r.1 == area.y + area.height / 2,
{
    let spare: u16 = if area.width > 10 { area.width - 10 } else { 0 };
    (area.x + spare / 2, area.y + area.height / 2)
}

/// The start-up splash: an image that fades in over a number of steps.
pub struct SplashScreen {
    pub image: GrayImage,
    pub current_step: u32,
    pub total_steps: u32,
}

impl SplashScreen {
    /// A splash of `image` that takes `total_steps` steps, at its first.
    pub fn new(image: GrayImage, total_steps: u32) -> (r: Self)
        ensures
            r.image == image,
            r.current_step == 0,
            r.total_steps == total_steps,
    {
        SplashScreen { image, current_step: 0, total_steps }
    }

    /// Whether every step has been shown.
    pub fn is_complete(&self) -> (r: bool)
        ensures
            r == (self.current_step >= self.total_steps),
    {
        self.current_step >= self.total_steps
    }

    /// One step further, unless every step has been shown.
    pub fn advance(&mut self)
        ensures
            final(self).image == old(self).image,
            final(self).total_steps == old(self).total_steps,
            final(self).current_step == (if old(self).current_step < old(self).total_steps {
                old(self).current_step + 1
            } else {
                old(self).current_step as int
            }),
    {
        if self.current_step < self.total_steps {
            self.current_step = self.current_step + 1;
        }
    }
}

} // verus!
