//! The vocabulary of the app's screens: report formats, filters, the actions each
//! screen emits, and the decisions and color tables behind them.

use vstd::prelude::*;
use crate::models::{DeviceKind, ScanPhase, SignalStrength};

verus! {

/// Output format for the generated report, chosen in the Settings view.
#[derive(Debug, Clone, Copy, PartialEq, Eq, Structural)]
pub enum ReportFormat {
    Html,
    Pdf,
}

impl ReportFormat {
    pub open spec fn dialog_text(self) -> (Seq<char>, Seq<char>, Seq<char>) {
        match self {
            ReportFormat::Html => ("HTML report"@, "html"@, "findbt-report.html"@),
            ReportFormat::Pdf => ("PDF report"@, "pdf"@, "findbt-report.pdf"@),
        }
    }

    /// The save dialog's filter label, file extension and default file name.
    pub fn dialog_labels(self) -> (r: (&'static str, &'static str, &'static str))
        ensures
            (r.0@, r.1@, r.2@) == self.dialog_text(),
    {
        match self {
            ReportFormat::Html => ("HTML report", "html", "findbt-report.html"),
            ReportFormat::Pdf => ("PDF report", "pdf", "findbt-report.pdf"),
        }
    }
}

#[derive(Debug, Clone, Copy, PartialEq, Eq, Structural)]
pub enum KindFilter {
    All,
    Kind(DeviceKind),
}

impl KindFilter {
    pub open spec fn spec_admits(self, kind: DeviceKind) -> bool {
        match self {
            KindFilter::All => true,
            KindFilter::Kind(k) => k == kind,
        }
    }

    pub fn admits(self, kind: DeviceKind) -> (b: bool)
        ensures
            b == self.spec_admits(kind),
    {
        match self {
            KindFilter::All => true,
            KindFilter::Kind(k) => k == kind,
        }
    }
}

#[derive(Debug, Clone)]
pub enum MainScreenAction {
    Start(ScanPhase),
    Stop,
    Rescan(ScanPhase),
    SelectPhase(ScanPhase),
    GenerateReport,
    ResetCapture,
    SetKindFilter(KindFilter),
    SetFilterText(String),
    OpenScanConsole,
    OpenSettings,
}

/// What the sidebar's scan button does for the selected phase.
#[derive(Debug, Clone, Copy, PartialEq, Eq, Structural)]
pub enum ScanButton {
    Stop,
    Rescan(ScanPhase),
    Start(ScanPhase),
}

pub open spec fn spec_scan_button(active: ScanPhase, scanning: Option<ScanPhase>, active_has_run: bool) -> ScanButton {
    if scanning == Some(active) {
        ScanButton::Stop
    } else if active_has_run {
        ScanButton::Rescan(active)
    } else {
        ScanButton::Start(active)
    }
}

/// Stop while the selected phase is scanning, Rescan once it has run, Start otherwise.
pub fn scan_button(active: ScanPhase, scanning: Option<ScanPhase>, active_has_run: bool) -> (b: ScanButton)
    ensures
        b == spec_scan_button(active, scanning, active_has_run),
{
    if scanning == Some(active) {
        ScanButton::Stop
    } else if active_has_run {
        ScanButton::Rescan(active)
    } else {
        ScanButton::Start(active)
    }
}

impl ScanButton {
    pub open spec fn label_text(self) -> Seq<char> {
        match self {
            ScanButton::Stop => "Stop Scan"@,
            ScanButton::Rescan(_) => "Rescan"@,
            ScanButton::Start(_) => "Start Scan"@,
        }
    }

    pub fn label(self) -> (s: &'static str)
        ensures
            s@ == self.label_text(),
    {
        match self {
            ScanButton::Stop => "Stop Scan",
            ScanButton::Rescan(_) => "Rescan",
            ScanButton::Start(_) => "Start Scan",
        }
    }

    pub fn action(self) -> (a: MainScreenAction)
        ensures
            match self {
                ScanButton::Stop => a is Stop,
                ScanButton::Rescan(p) => a == MainScreenAction::Rescan(p),
                ScanButton::Start(p) => a == MainScreenAction::Start(p),
            },
    {
        match self {
            ScanButton::Stop => MainScreenAction::Stop,
            ScanButton::Rescan(p) => MainScreenAction::Rescan(p),
            ScanButton::Start(p) => MainScreenAction::Start(p),
        }
    }
}

#[derive(Debug, Clone, Copy, PartialEq, Eq, Structural)]
pub enum SettingsScreenAction {
    BackToCapture,
    SelectSection(SettingsSection),
}

#[derive(Debug, Clone, Copy, PartialEq, Eq, Structural)]
pub enum SettingsSection {
    Appearance,
    ReportGeneration,
}

/// Actions a title bar can emit beyond the standard window controls.
#[derive(Debug, Clone, Copy, PartialEq, Eq, Structural)]
pub enum TitlebarAction {
    /// Nothing beyond the window controls was clicked.
    Idle,
    OpenSettings,
}

/// Which window-caption action a title-bar button represents.
#[derive(Debug, Clone, Copy, PartialEq, Eq, Structural)]
pub enum CaptionIcon {
    Minimize,
    Maximize,
    Close,
}

#[derive(Debug, Clone, Copy, PartialEq, Eq, Structural)]
pub enum ThemeMode {
    Light,
    Dark,
}

#[derive(Debug, Clone, Copy, PartialEq, Eq, Structural)]
pub enum AccentColor {
    Blue,
    Teal,
    Purple,
    Green,
    Orange,
}

pub open spec fn spec_accent_main(mode: ThemeMode, accent: AccentColor) -> u32 {
    match (mode, accent) {
        (ThemeMode::Light, AccentColor::Blue) => 0x0073cf,
        (ThemeMode::Light, AccentColor::Teal) => 0x008d90,
        (ThemeMode::Light, AccentColor::Purple) => 0x8254c4,
        (ThemeMode::Light, AccentColor::Green) => 0x008b35,
        (ThemeMode::Light, AccentColor::Orange) => 0xbd4600,
        (ThemeMode::Dark, AccentColor::Blue) => 0x55adff,
        (ThemeMode::Dark, AccentColor::Teal) => 0x00c4c5,
        (ThemeMode::Dark, AccentColor::Purple) => 0xb790f7,
        (ThemeMode::Dark, AccentColor::Green) => 0x56c173,
        (ThemeMode::Dark, AccentColor::Orange) => 0xf38651,
    }
}

/// The accent color (`0xRRGGBB`) for controls and highlights.
pub fn accent_main(mode: ThemeMode, accent: AccentColor) -> (c: u32)
    ensures
        c == spec_accent_main(mode, accent),
{
    match (mode, accent) {
        (ThemeMode::Light, AccentColor::Blue) => 0x0073cf,
        (ThemeMode::Light, AccentColor::Teal) => 0x008d90,
        (ThemeMode::Light, AccentColor::Purple) => 0x8254c4,
        (ThemeMode::Light, AccentColor::Green) => 0x008b35,
        (ThemeMode::Light, AccentColor::Orange) => 0xbd4600,
        (ThemeMode::Dark, AccentColor::Blue) => 0x55adff,
        (ThemeMode::Dark, AccentColor::Teal) => 0x00c4c5,
        (ThemeMode::Dark, AccentColor::Purple) => 0xb790f7,
        (ThemeMode::Dark, AccentColor::Green) => 0x56c173,
        (ThemeMode::Dark, AccentColor::Orange) => 0xf38651,
    }
}

pub open spec fn spec_accent_soft(mode: ThemeMode, accent: AccentColor) -> u32 {
    match (mode, accent) {
        (ThemeMode::Light, AccentColor::Blue) => 0xdaeeff,
        (ThemeMode::Light, AccentColor::Teal) => 0xd1f3f2,
        (ThemeMode::Light, AccentColor::Purple) => 0xeee6ff,
        (ThemeMode::Light, AccentColor::Green) => 0xdbf2df,
        (ThemeMode::Light, AccentColor::Orange) => 0xffe5d8,
        (ThemeMode::Dark, AccentColor::Blue) => 0x193550,
        (ThemeMode::Dark, AccentColor::Teal) => 0x003c3c,
        (ThemeMode::Dark, AccentColor::Purple) => 0x382b4d,
        (ThemeMode::Dark, AccentColor::Green) => 0x193b22,
        (ThemeMode::Dark, AccentColor::Orange) => 0x4c2817,
    }
}

/// The soft accent color (`0xRRGGBB`) for selected backgrounds.
pub fn accent_soft(mode: ThemeMode, accent: AccentColor) -> (c: u32)
    ensures
        c == spec_accent_soft(mode, accent),
{
    match (mode, accent) {
        (ThemeMode::Light, AccentColor::Blue) => 0xdaeeff,
        (ThemeMode::Light, AccentColor::Teal) => 0xd1f3f2,
        (ThemeMode::Light, AccentColor::Purple) => 0xeee6ff,
        (ThemeMode::Light, AccentColor::Green) => 0xdbf2df,
        (ThemeMode::Light, AccentColor::Orange) => 0xffe5d8,
        (ThemeMode::Dark, AccentColor::Blue) => 0x193550,
        (ThemeMode::Dark, AccentColor::Teal) => 0x003c3c,
        (ThemeMode::Dark, AccentColor::Purple) => 0x382b4d,
        (ThemeMode::Dark, AccentColor::Green) => 0x193b22,
        (ThemeMode::Dark, AccentColor::Orange) => 0x4c2817,
    }
}

/// The base colors (`0xRRGGBB`) of a light or dark theme.
#[derive(Debug, Clone, Copy, PartialEq, Eq, Structural)]
pub struct Palette {
    pub bg: u32,
    pub bg_elevated: u32,
    pub bg_sunken: u32,
    pub border: u32,
    pub border_soft: u32,
    pub text: u32,
    pub text_muted: u32,
    pub accent_text: u32,
}

pub open spec fn spec_palette(mode: ThemeMode) -> Palette {
    match mode {
        ThemeMode::Light => Palette {
            bg: 0xf8fafd,
            bg_elevated: 0xffffff,
            bg_sunken: 0xf0f4f7,
            border: 0xdbdee3,
            border_soft: 0xe5e8ec,
            text: 0x171b1f,
            text_muted: 0x646a70,
            accent_text: 0xfafcfe,
        },
        ThemeMode::Dark => Palette {
            bg: 0x0f141a,
            bg_elevated: 0x1a2027,
            bg_sunken: 0x080c10,
            border: 0x343b44,
            border_soft: 0x252c33,
            text: 0xe8ebef,
            text_muted: 0x858d96,
            accent_text: 0x06090d,
        },
    }
}

pub fn palette(mode: ThemeMode) -> (p: Palette)
    ensures
        p == spec_palette(mode),
{
    match mode {
        ThemeMode::Light => Palette {
            bg: 0xf8fafd,
            bg_elevated: 0xffffff,
            bg_sunken: 0xf0f4f7,
            border: 0xdbdee3,
            border_soft: 0xe5e8ec,
            text: 0x171b1f,
            text_muted: 0x646a70,
            accent_text: 0xfafcfe,
        },
        ThemeMode::Dark => Palette {
            bg: 0x0f141a,
            bg_elevated: 0x1a2027,
            bg_sunken: 0x080c10,
            border: 0x343b44,
            border_soft: 0x252c33,
            text: 0xe8ebef,
            text_muted: 0x858d96,
            accent_text: 0x06090d,
        },
    }
}

/// The semantic RGB color of an RSSI reading (`0xRRGGBB`), or `None` for the muted text
/// color when the strength is unknown.
pub open spec fn spec_signal_rgb(mode: ThemeMode, rssi: Option<i32>) -> Option<u32> {
    match SignalStrength::spec_from_rssi(rssi) {
        SignalStrength::Strong => Some(if mode == ThemeMode::Light { 0x1b9247u32 } else { 0x53be70u32 }),
        SignalStrength::Medium => Some(if mode == ThemeMode::Light { 0xaf7c00u32 } else { 0xdaa932u32 }),
        SignalStrength::Weak => Some(if mode == ThemeMode::Light { 0xcb4644u32 } else { 0xe2726bu32 }),
        SignalStrength::Unknown => None,
    }
}

pub fn signal_rgb(mode: ThemeMode, rssi: Option<i32>) -> (c: Option<u32>)
    ensures
        c == spec_signal_rgb(mode, rssi),
{
    let light = mode == ThemeMode::Light;
    match SignalStrength::from_rssi(rssi) {
        SignalStrength::Strong => Some(if light { 0x1b9247u32 } else { 0x53be70u32 }),
        SignalStrength::Medium => Some(if light { 0xaf7c00u32 } else { 0xdaa932u32 }),
        SignalStrength::Weak => Some(if light { 0xcb4644u32 } else { 0xe2726bu32 }),
        SignalStrength::Unknown => None,
    }
}

/// The red, green and blue channels of `0xRRGGBB`.
pub fn rgb_channels(value: u32) -> (c: (u8, u8, u8))
    ensures
        c.0 as int == (value as int / 65536) % 256,
        c.1 as int == (value as int / 256) % 256,
        c.2 as int == value as int % 256,
{
    (((value / 65536) % 256) as u8, ((value / 256) % 256) as u8, (value % 256) as u8)
}

} // verus!
