use pot_gtk::screenshot::{
    capture_all_screens, capture_interactive_selection, gnome_result_path, gnome_selection_check, is_wayland_session,
    preferred_region_tools, region_file_check, screen_for_point, screenshot_file, DisplayArea, RegionTool,
    ScreenCapture, ToolCommands,
};

fn all_tools() -> ToolCommands {
    ToolCommands {
        grim: true,
        slurp: true,
        gnome_screenshot: true,
        spectacle: true,
        flameshot: true,
        maim: true,
        scrot: true,
        import: true,
    }
}

#[test]
fn screenshot_files_live_in_the_cache() {
    assert_eq!(screenshot_file("/home/u/.cache", false), "/home/u/.cache/com.pot-app.desktop/pot_screenshot.png");
    assert_eq!(screenshot_file("/home/u/.cache/", true), "/home/u/.cache/com.pot-app.desktop/pot_screenshot_cut.png");
}

#[test]
fn whole_screen_capture_order() {
    assert!(is_wayland_session("wayland"));
    assert_eq!(capture_all_screens("wayland"), vec![ScreenCapture::Portal, ScreenCapture::Xcb]);
    assert_eq!(capture_all_screens("x11"), vec![ScreenCapture::Xcb]);
}

#[test]
fn the_screen_under_the_mouse() {
    let screens = vec![
        DisplayArea { x: 0, y: 0, width: 1920, height: 1080 },
        DisplayArea { x: 1920, y: 0, width: 1280, height: 1024 },
    ];
    assert_eq!(screen_for_point(&screens, 2000, 10), Some(1));
    assert_eq!(screen_for_point(&screens, 5000, 10), Some(0));
    assert_eq!(screen_for_point(&Vec::new(), 1, 1), None);
}

#[test]
fn region_tools_by_desktop() {
    assert_eq!(
        preferred_region_tools("GNOME", "wayland", &all_tools()),
        vec![
            RegionTool::GnomeShell,
            RegionTool::GrimSlurp,
            RegionTool::GnomeScreenshot,
            RegionTool::Flameshot,
            RegionTool::Spectacle,
        ]
    );
    assert_eq!(
        preferred_region_tools("KDE", "x11", &all_tools()),
        vec![
            RegionTool::Spectacle,
            RegionTool::Flameshot,
            RegionTool::Maim,
            RegionTool::Scrot,
            RegionTool::ImageMagickImport,
            RegionTool::GnomeScreenshot,
        ]
    );
}

#[test]
fn failures_are_collected() {
    let none = ToolCommands {
        grim: false,
        slurp: false,
        gnome_screenshot: false,
        spectacle: false,
        flameshot: false,
        maim: false,
        scrot: false,
        import: false,
    };
    let mut c = capture_interactive_selection("XFCE", "x11", &none);
    assert!(c.next_tool().is_none());
    assert_eq!(c.failure().message(), "No supported native region screenshot tool found in PATH");
    let mut c2 = capture_interactive_selection("XFCE", "x11", &all_tools());
    let t = c2.next_tool().expect("a tool");
    assert_eq!(t, RegionTool::Flameshot);
    c2.record_failure(t, "exit 1");
    assert_eq!(c2.next_tool(), Some(RegionTool::Maim));
    assert_eq!(c2.failure().message(), "No native screenshot region tool succeeded (flameshot: exit 1)");
}

#[test]
fn region_file_and_gnome_checks() {
    assert!(region_file_check("maim", Ok(10)).is_ok());
    assert_eq!(
        region_file_check("maim", Ok(0)).err().map(|e| e.message()),
        Some("maim created an empty screenshot file".to_string())
    );
    assert_eq!(
        region_file_check("scrot", Err("gone".to_string())).err().map(|e| e.message()),
        Some("scrot did not create a readable screenshot file: gone".to_string())
    );
    assert!(gnome_selection_check(0, 10).is_err());
    assert!(gnome_selection_check(5, 10).is_ok());
    assert_eq!(gnome_result_path("/tmp/a.png", ""), "/tmp/a.png");
    assert_eq!(gnome_result_path("/tmp/a.png", "/tmp/b.png"), "/tmp/b.png");
}
