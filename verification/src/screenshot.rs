//! Screenshots: where they are kept, which screen is taken, and which tools are
//! tried, in order, for the user to select a region.

use vstd::prelude::*;
use crate::error::AppError;
use crate::plugin::{join_path, joined_path};
use crate::text::{str_eq, lowercase, to_lower, has_infix, contains_str, join, views, join_strings};

verus! {

/// The PNG encoding of the part of an image, decoded from its bytes, at `(x, y)`
/// of `w` by `h` pixels (cut to the image's bounds), or the message of the error
/// that stops the decoding or the encoding.
pub uninterp spec fn png_cropped(png: Seq<u8>, x: u32, y: u32, w: u32, h: u32) -> Result<Seq<u8>, Seq<char>>;

/// `image::load_from_memory`, `DynamicImage::crop_imm` and `write_to` in PNG; an
/// error is written with `Display`. The result is named [`png_cropped`].
#[verifier::external_body]
fn crop_png(png: &Vec<u8>, x: u32, y: u32, w: u32, h: u32) -> (r: Result<Vec<u8>, String>)
    ensures
        match png_cropped(png@, x, y, w, h) {
            Ok(b) => r matches Ok(v) && v@ == b,
            Err(m) => r matches Err(e) && e@ == m,
        },
{
    let img = image::load_from_memory(png.as_slice()).map_err(|e| e.to_string())?;
    let mut out = std::io::Cursor::new(Vec::new());
    img.crop_imm(x, y, w, h).write_to(&mut out, image::ImageFormat::Png).map_err(|e| e.to_string())?;
    Ok(out.into_inner())
}

/// The selected region of a screenshot (its PNG bytes): the region at `(left, top)`
/// of `width` by `height` pixels, as PNG bytes; an image that cannot be read or
/// written gives its message as the error.
pub fn cut_image(screenshot: &Vec<u8>, left: u32, top: u32, width: u32, height: u32) -> (r: Result<Vec<u8>, AppError>)
    ensures
        match png_cropped(screenshot@, left, top, width, height) {
            Ok(b) => r matches Ok(v) && v@ == b,
            Err(m) => r matches Err(e) && e is Custom && e.message_view() == m,
        },
{
    match crop_png(screenshot, left, top, width, height) {
        Ok(v) => Ok(v),
        Err(m) => Err(AppError::Custom(m)),
    }
}

/// The selected region's bytes as base64, as the recognizer takes it.
pub fn get_base64(image: &Vec<u8>) -> (r: String)
    ensures
        r@ == crate::recognize::base64_encoded(image@),
{
    crate::recognize::encode_base64(image)
}

/// What the selection window does after a capture attempt: report the region
/// captured, report that nothing was captured, or show the full screenshot for the
/// user to select on.
pub enum CaptureNext {
    Captured,
    Cancelled,
    ShowOverlay,
}

/// After the attempt to have the user select a region with the desktop's own
/// tools: captured when it worked; else, in a Wayland session, nothing is captured;
/// otherwise the full screen is to be captured for the overlay.
pub fn after_region_capture(wayland: bool, region_ok: bool) -> (r: CaptureNext)
    ensures
        region_ok ==> r is Captured,
        !region_ok && wayland ==> r is Cancelled,
        !region_ok && !wayland ==> r is ShowOverlay,
{
    if region_ok {
        CaptureNext::Captured
    } else if wayland {
        CaptureNext::Cancelled
    } else {
        CaptureNext::ShowOverlay
    }
}

/// After the attempt to capture the full screen for the overlay: the overlay is
/// shown when it worked, else nothing is captured.
pub fn after_full_capture(full_ok: bool) -> (r: CaptureNext)
    ensures
        full_ok ==> r is ShowOverlay,
        !full_ok ==> r is Cancelled,
{
    if full_ok {
        CaptureNext::ShowOverlay
    } else {
        CaptureNext::Cancelled
    }
}

/// The region between two corners of a drag: its left, top, width and height,
/// when it is wider and taller than five pixels.
pub open spec fn selection_of(ax: u32, ay: u32, bx: u32, by: u32) -> Option<(u32, u32, u32, u32)> {
    let x1 = if ax <= bx { ax } else { bx };
    let x2 = if ax <= bx { bx } else { ax };
    let y1 = if ay <= by { ay } else { by };
    let y2 = if ay <= by { by } else { ay };
    if x2 - x1 > 5 && y2 - y1 > 5 {
        Some((x1, y1, (x2 - x1) as u32, (y2 - y1) as u32))
    } else {
        None
    }
}

pub fn selection_region(ax: u32, ay: u32, bx: u32, by: u32) -> (r: Option<(u32, u32, u32, u32)>)
    ensures
        r == selection_of(ax, ay, bx, by),
{
    let x1 = if ax <= bx { ax } else { bx };
    let x2 = if ax <= bx { bx } else { ax };
    let y1 = if ay <= by { ay } else { by };
    let y2 = if ay <= by { by } else { ay };
    let w = x2 - x1;
    let h = y2 - y1;
    if w > 5 && h > 5 {
        Some((x1, y1, w, h))
    } else {
        None
    }
}

/// Whether a scaled cut can be made: the view shown and the screenshot both have
/// a size; else the error `Invalid screenshot dimensions`.
pub fn scaled_cut_dimensions(view_width: i32, view_height: i32, image_width: u32, image_height: u32) -> (r: Result<(), AppError>)
    ensures
        r is Ok <==> (view_width > 0 && view_height > 0 && image_width > 0 && image_height > 0),
        r matches Err(e) ==> (e is Custom && e.message_view() == "Invalid screenshot dimensions"@),
{
    if view_width <= 0 || view_height <= 0 || image_width == 0 || image_height == 0 {
        return Err(AppError::Custom("Invalid screenshot dimensions".to_string()));
    }
    Ok(())
}

/// The region between the scaled corners of a selection (each already rounded and
/// cut to the image): its left, top, width and height, the width and height being
/// how far the far corner lies beyond the near one (none when it does not); an
/// empty region is the error `Empty screenshot selection`.
pub fn scaled_cut_region(x: u32, y: u32, right: u32, bottom: u32) -> (r: Result<(u32, u32, u32, u32), AppError>)
    ensures
        (right > x && bottom > y) ==> r == Ok::<(u32, u32, u32, u32), AppError>(
            (x, y, (right - x) as u32, (bottom - y) as u32),
        ),
        !(right > x && bottom > y) ==> (r matches Err(e) && e is Custom && e.message_view()
            == "Empty screenshot selection"@),
{
    let w = right.saturating_sub(x);
    let h = bottom.saturating_sub(y);
    if w == 0 || h == 0 {
        return Err(AppError::Custom("Empty screenshot selection".to_string()));
    }
    Ok((x, y, w, h))
}

/// A screenshot file and its size in pixels.
pub struct CaptureInfo {
    pub path: String,
    pub width: u32,
    pub height: u32,
}

/// Where the full screenshot and the selected region are written, under the cache
/// directory.
pub open spec fn screenshot_file_of(cache_dir: Seq<char>, cut: bool) -> Seq<char> {
    joined_path(
        joined_path(cache_dir, crate::config::APP_ID@),
        if cut {
            "pot_screenshot_cut.png"@
        } else {
            "pot_screenshot.png"@
        },
    )
}

pub fn screenshot_file(cache_dir: &str, cut: bool) -> (r: String)
    ensures
        r@ == screenshot_file_of(cache_dir@, cut),
{
    let d = join_path(cache_dir, crate::config::APP_ID);
    if cut {
        join_path(d.as_str(), "pot_screenshot_cut.png")
    } else {
        join_path(d.as_str(), "pot_screenshot.png")
    }
}

/// Whether the session is a Wayland one.
pub fn is_wayland_session(session: &str) -> (r: bool)
    ensures
        r == (session@ == "wayland"@),
{
    str_eq(session, "wayland")
}

/// A way to take the whole screen.
#[derive(Debug, Clone, Copy, PartialEq, Eq, Structural)]
pub enum ScreenCapture {
    /// The desktop portal's screenshot.
    Portal,
    /// The X server's image of the screen under the mouse.
    Xcb,
}

/// The ways to take the screen under the mouse, in order: on Wayland the portal
/// first (the X server's image may be black there), else the X server.
pub fn capture_all_screens(session: &str) -> (r: Vec<ScreenCapture>)
    ensures
        r@ == (if session@ == "wayland"@ {
            seq![ScreenCapture::Portal, ScreenCapture::Xcb]
        } else {
            seq![ScreenCapture::Xcb]
        }),
{
    let mut r: Vec<ScreenCapture> = Vec::new();
    if str_eq(session, "wayland") {
        r.push(ScreenCapture::Portal);
    }
    r.push(ScreenCapture::Xcb);
    r
}

/// A screen's place and size.
pub struct DisplayArea {
    pub x: i32,
    pub y: i32,
    pub width: u32,
    pub height: u32,
}

pub open spec fn contains_point(d: DisplayArea, mx: i32, my: i32) -> bool {
    d.x <= mx < d.x + (d.width as i32) && d.y <= my < d.y + (d.height as i32)
}

/// The screen to take: the first one that holds the mouse, else the first one;
/// `None` when there is no screen.
pub fn screen_for_point(screens: &Vec<DisplayArea>, mx: i32, my: i32) -> (r: Option<usize>)
    requires
        forall|i: int|
            0 <= i < screens@.len() ==> i32::MIN <= #[trigger] screens@[i].x + (screens@[i].width as i32) <= i32::MAX
                && i32::MIN <= screens@[i].y + (screens@[i].height as i32) <= i32::MAX,
    ensures
        match r {
            Some(i) => i < screens@.len() && ((contains_point(screens@[i as int], mx, my) && forall|j: int|
                0 <= j < i ==> !contains_point(screens@[j], mx, my)) || (i == 0 && forall|j: int|
                0 <= j < screens@.len() ==> !contains_point(screens@[j], mx, my))),
            None => screens@.len() == 0,
        },
{
    let mut i: usize = 0;
    while i < screens.len()
        invariant
            i <= screens@.len(),
            forall|k: int|
                0 <= k < screens@.len() ==> i32::MIN <= #[trigger] screens@[k].x + (screens@[k].width as i32) <= i32::MAX
                    && i32::MIN <= screens@[k].y + (screens@[k].height as i32) <= i32::MAX,
            forall|j: int| 0 <= j < i ==> !contains_point(screens@[j], mx, my),
        decreases screens@.len() - i,
    {
        let d = &screens[i];
        if mx >= d.x && mx < d.x + (d.width as i32) && my >= d.y && my < d.y + (d.height as i32) {
            return Some(i);
        }
        i = i + 1;
    }
    if screens.len() > 0 {
        Some(0)
    } else {
        None
    }
}

/// A tool for selecting a region of the screen.
#[derive(Debug, Clone, Copy, PartialEq, Eq, Structural)]
pub enum RegionTool {
    GnomeShell,
    GrimSlurp,
    GnomeScreenshot,
    Spectacle,
    Flameshot,
    Maim,
    Scrot,
    ImageMagickImport,
}

pub open spec fn tool_label(t: RegionTool) -> Seq<char> {
    match t {
        RegionTool::GnomeShell => "gnome-shell"@,
        RegionTool::GrimSlurp => "grim/slurp"@,
        RegionTool::GnomeScreenshot => "gnome-screenshot"@,
        RegionTool::Spectacle => "spectacle"@,
        RegionTool::Flameshot => "flameshot"@,
        RegionTool::Maim => "maim"@,
        RegionTool::Scrot => "scrot"@,
        RegionTool::ImageMagickImport => "import"@,
    }
}

impl RegionTool {
    /// The tool's name in messages.
    pub fn label(self) -> (r: &'static str)
        ensures
            r@ == tool_label(self),
    {
        match self {
            RegionTool::GnomeShell => "gnome-shell",
            RegionTool::GrimSlurp => "grim/slurp",
            RegionTool::GnomeScreenshot => "gnome-screenshot",
            RegionTool::Spectacle => "spectacle",
            RegionTool::Flameshot => "flameshot",
            RegionTool::Maim => "maim",
            RegionTool::Scrot => "scrot",
            RegionTool::ImageMagickImport => "import",
        }
    }
}

/// Which of the tools' commands are found on the search path.
pub struct ToolCommands {
    pub grim: bool,
    pub slurp: bool,
    pub gnome_screenshot: bool,
    pub spectacle: bool,
    pub flameshot: bool,
    pub maim: bool,
    pub scrot: bool,
    pub import: bool,
}

pub open spec fn add_if(tools: Seq<RegionTool>, t: RegionTool, cond: bool) -> Seq<RegionTool> {
    if cond {
        tools.push(t)
    } else {
        tools
    }
}

pub open spec fn add_new(tools: Seq<RegionTool>, t: RegionTool, cond: bool) -> Seq<RegionTool> {
    if cond && !tools.contains(t) {
        tools.push(t)
    } else {
        tools
    }
}

/// The region tools to try, in order: GNOME Shell on GNOME; grim and slurp on
/// Wayland; gnome-screenshot on GNOME; spectacle on KDE Plasma; flameshot; maim,
/// scrot and import on X11 (each when its command is found); then any of
/// gnome-screenshot, spectacle, flameshot (and on X11 maim, scrot, import) whose
/// command is found and that is not in the list yet.
pub open spec fn region_tools_of(desktop: Seq<char>, session: Seq<char>, c: ToolCommands) -> Seq<RegionTool> {
    let d = lowercase(desktop);
    let gnome = has_infix(d, "gnome"@);
    let kde = has_infix(d, "kde"@) || has_infix(d, "plasma"@);
    let x11 = session == "x11"@;
    let t0 = add_if(Seq::empty(), RegionTool::GnomeShell, gnome);
    let t1 = add_if(t0, RegionTool::GrimSlurp, session == "wayland"@ && c.grim && c.slurp);
    let t2 = add_if(t1, RegionTool::GnomeScreenshot, gnome && c.gnome_screenshot);
    let t3 = add_if(t2, RegionTool::Spectacle, kde && c.spectacle);
    let t4 = add_if(t3, RegionTool::Flameshot, c.flameshot);
    let t5 = add_if(t4, RegionTool::Maim, x11 && c.maim);
    let t6 = add_if(t5, RegionTool::Scrot, x11 && c.scrot);
    let t7 = add_if(t6, RegionTool::ImageMagickImport, x11 && c.import);
    let f1 = add_new(t7, RegionTool::GnomeScreenshot, c.gnome_screenshot);
    let f2 = add_new(f1, RegionTool::Spectacle, c.spectacle);
    let f3 = add_new(f2, RegionTool::Flameshot, c.flameshot);
    let f4 = add_new(f3, RegionTool::Maim, x11 && c.maim);
    let f5 = add_new(f4, RegionTool::Scrot, x11 && c.scrot);
    add_new(f5, RegionTool::ImageMagickImport, x11 && c.import)
}

fn has_tool(v: &Vec<RegionTool>, t: RegionTool) -> (r: bool)
    ensures
        r == v@.contains(t),
{
    let mut i: usize = 0;
    while i < v.len()
        invariant
            i <= v@.len(),
            forall|k: int| 0 <= k < i ==> v@[k] != t,
        decreases v@.len() - i,
    {
        if v[i] == t {
            return true;
        }
        i = i + 1;
    }
    false
}

fn push_new(v: &mut Vec<RegionTool>, t: RegionTool, cond: bool)
    ensures
        final(v)@ == add_new(old(v)@, t, cond),
{
    if cond && !has_tool(v, t) {
        v.push(t);
    }
}

pub fn preferred_region_tools(desktop: &str, session: &str, c: &ToolCommands) -> (r: Vec<RegionTool>)
    ensures
        r@ == region_tools_of(desktop@, session@, *c),
{
    let d = to_lower(desktop);
    let gnome = contains_str(d.as_str(), "gnome");
    let kde = contains_str(d.as_str(), "kde") || contains_str(d.as_str(), "plasma");
    let x11 = str_eq(session, "x11");
    let wayland = str_eq(session, "wayland");
    let mut t: Vec<RegionTool> = Vec::new();
    if gnome {
        t.push(RegionTool::GnomeShell);
    }
    if wayland && c.grim && c.slurp {
        t.push(RegionTool::GrimSlurp);
    }
    if gnome && c.gnome_screenshot {
        t.push(RegionTool::GnomeScreenshot);
    }
    if kde && c.spectacle {
        t.push(RegionTool::Spectacle);
    }
    if c.flameshot {
        t.push(RegionTool::Flameshot);
    }
    if x11 && c.maim {
        t.push(RegionTool::Maim);
    }
    if x11 && c.scrot {
        t.push(RegionTool::Scrot);
    }
    if x11 && c.import {
        t.push(RegionTool::ImageMagickImport);
    }
    push_new(&mut t, RegionTool::GnomeScreenshot, c.gnome_screenshot);
    push_new(&mut t, RegionTool::Spectacle, c.spectacle);
    push_new(&mut t, RegionTool::Flameshot, c.flameshot);
    push_new(&mut t, RegionTool::Maim, x11 && c.maim);
    push_new(&mut t, RegionTool::Scrot, x11 && c.scrot);
    push_new(&mut t, RegionTool::ImageMagickImport, x11 && c.import);
    t
}

/// An interactive region capture in progress: the tools to try in order, the one
/// to try next, and the failures so far (`<tool>: <error>`).
pub struct RegionCapture {
    pub tools: Vec<RegionTool>,
    pub next: usize,
    pub errors: Vec<String>,
}

/// The region capture for this desktop: the native tools are tried in order, and
/// the portal's interactive screenshot after them.
pub fn capture_interactive_selection(desktop: &str, session: &str, c: &ToolCommands) -> (r: RegionCapture)
    ensures
        r.tools@ == region_tools_of(desktop@, session@, *c),
        r.next == 0,
        r.errors@.len() == 0,
{
    RegionCapture { tools: preferred_region_tools(desktop, session, c), next: 0, errors: Vec::new() }
}

impl RegionCapture {
    /// The next tool to try, if any is left.
    pub fn next_tool(&self) -> (r: Option<RegionTool>)
        ensures
            r == (if self.next < self.tools@.len() {
                Some(self.tools@[self.next as int])
            } else {
                None
            }),
    {
        if self.next < self.tools.len() {
            Some(self.tools[self.next])
        } else {
            None
        }
    }

    /// The tool tried last failed with `error`.
    pub fn record_failure(&mut self, tool: RegionTool, error: &str)
        requires
            old(self).next < usize::MAX,
        ensures
            final(self).tools == old(self).tools,
            final(self).next == old(self).next + 1,
            views(final(self).errors@) == views(old(self).errors@).push(tool_label(tool) + ": "@ + error@),
    {
        let mut m = tool.label().to_string();
        m.append(": ");
        m.append(error);
        let ghost before = views(self.errors@);
        self.errors.push(m);
        assert(views(self.errors@) =~= before.push(tool_label(tool) + ": "@ + error@));
        self.next = self.next + 1;
    }

    /// The error when no native tool worked: none was found, or each one's failure.
    pub fn failure(&self) -> (r: AppError)
        ensures
            r is Custom,
            r.message_view() == (if self.errors@.len() == 0 {
                "No supported native region screenshot tool found in PATH"@
            } else {
                "No native screenshot region tool succeeded ("@ + join(views(self.errors@), " | "@) + ")"@
            }),
    {
        if self.errors.len() == 0 {
            AppError::Custom("No supported native region screenshot tool found in PATH".to_string())
        } else {
            let mut m = "No native screenshot region tool succeeded (".to_string();
            let j = join_strings(&self.errors, " | ");
            m.append(j.as_str());
            m.append(")");
            AppError::Custom(m)
        }
    }
}

/// The check of the file a region tool wrote: an error when it cannot be read or is
/// empty.
pub fn region_file_check(tool: &str, size: Result<u64, String>) -> (r: Result<(), AppError>)
    ensures
        match size {
            Err(e) => r matches Err(x) && x.message_view() == tool@ + " did not create a readable screenshot file: "@ + e@,
            Ok(n) => if n == 0 {
                r matches Err(x) && x.message_view() == tool@ + " created an empty screenshot file"@
            } else {
                r is Ok
            },
        },
{
    match size {
        Err(e) => {
            let mut m = tool.to_string();
            m.append(" did not create a readable screenshot file: ");
            m.append(e.as_str());
            Err(AppError::Custom(m))
        },
        Ok(n) => if n == 0 {
            let mut m = tool.to_string();
            m.append(" created an empty screenshot file");
            Err(AppError::Custom(m))
        } else {
            Ok(())
        },
    }
}

/// The region GNOME Shell's selection gave: an error when it is empty.
pub fn gnome_selection_check(width: i32, height: i32) -> (r: Result<(), AppError>)
    ensures
        (width <= 0 || height <= 0) ==> (r matches Err(e) && e.message_view() == "GNOME Shell selection is empty"@),
        (width > 0 && height > 0) ==> r is Ok,
{
    if width <= 0 || height <= 0 {
        Err(AppError::Custom("GNOME Shell selection is empty".to_string()))
    } else {
        Ok(())
    }
}

/// The file GNOME Shell wrote: the one it names, else the one asked for.
pub fn gnome_result_path(requested: &str, used: &str) -> (r: String)
    ensures
        r@ == (if used@.len() == 0 {
            requested@
        } else {
            used@
        }),
{
    if used.unicode_len() == 0 {
        requested.to_string()
    } else {
        used.to_string()
    }
}

} // verus!
