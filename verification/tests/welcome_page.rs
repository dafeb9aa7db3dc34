use std::sync::Arc;

use initial_setup_pages::welcome::{
    adjustment_label, dpi_scale_labels, dpi_scales, AccessibilityEvent, Action, DisplayList, DisplayMode,
    DisplayOutput, Message, Page, ScaleAdjustResult, ScaleCommand, ScreenReaderUpdate,
};

fn displays() -> DisplayList {
    DisplayList::new(
        vec![
            DisplayOutput { name: "eDP-1".to_string(), current: Some(1) },
            DisplayOutput { name: "HDMI-A-1".to_string(), current: None },
            DisplayOutput { name: "DP-2".to_string(), current: Some(0) },
        ],
        vec![
            DisplayMode { width: 2560, height: 1440, refresh_rate: 59951 },
            DisplayMode { width: 1920, height: 1080, refresh_rate: 60000 },
        ],
    )
    .expect("indices in range")
}

fn commands(action: Action) -> Vec<ScaleCommand> {
    match action {
        Action::RunCommands(c) => c,
        other => panic!("expected commands, got {other:?}"),
    }
}

fn args(c: &ScaleCommand) -> Vec<&str> {
    c.args.iter().map(|a| a.as_str()).collect()
}

fn page_with_displays() -> Page {
    let mut page = Page::new();
    let action = page.update(Message::UpdateDisplayList(Some(Ok(displays()))));
    assert!(matches!(action, Action::Nothing));
    page
}

#[test]
fn new_page_defaults() {
    let page = Page::new();
    assert!(!page.magnifier_enabled());
    assert!(!page.reader_enabled());
    assert_eq!(page.interface_scale(), 2);
    assert_eq!(page.interface_adjusted_scale(), 0);
    assert!(page.needs_accessibility());
}

#[test]
fn picking_a_scale_rescales_active_displays() {
    let mut page = page_with_displays();
    let cmds = commands(page.update(Message::Scale(3)));
    assert_eq!(page.interface_scale(), 3);
    assert_eq!(page.interface_adjusted_scale(), 0);
    assert_eq!(cmds.len(), 2);
    assert_eq!(cmds[0].program, "cosmic-randr");
    assert_eq!(args(&cmds[0]), vec!["mode", "--scale", "1.25", "--refresh", "60.000", "eDP-1", "1920", "1080"]);
    assert_eq!(args(&cmds[1]), vec!["mode", "--scale", "1.25", "--refresh", "59.951", "DP-2", "2560", "1440"]);
}

#[test]
fn adjustment_adds_to_the_picked_scale() {
    let mut page = page_with_displays();
    page.update(Message::Scale(0));
    let cmds = commands(page.update(Message::ScaleAdjust(5)));
    assert_eq!(page.interface_scale(), 0);
    assert_eq!(page.interface_adjusted_scale(), 5);
    assert_eq!(args(&cmds[0])[2], "0.55");
    // the adjustment is capped at 20
    let cmds = commands(page.update(Message::ScaleAdjust(35)));
    assert_eq!(page.interface_adjusted_scale(), 35);
    assert_eq!(args(&cmds[0])[2], "0.70");
    // picking a scale resets the adjustment
    let cmds = commands(page.update(Message::Scale(10)));
    assert_eq!(page.interface_adjusted_scale(), 0);
    assert_eq!(args(&cmds[1])[2], "3.00");
}

#[test]
fn scaling_without_displays_runs_nothing() {
    let mut page = Page::new();
    let cmds = commands(page.update(Message::Scale(4)));
    assert!(cmds.is_empty());
    assert_eq!(page.interface_scale(), 4);
}

#[test]
fn display_list_checks_mode_positions() {
    let bad = DisplayList::new(
        vec![DisplayOutput { name: "DP-1".to_string(), current: Some(2) }],
        vec![DisplayMode { width: 1, height: 1, refresh_rate: 1 }],
    );
    assert!(bad.is_none());
    assert!(DisplayList::empty().is_well_formed());
    let list = DisplayList {
        outputs: vec![DisplayOutput { name: "DP-1".to_string(), current: Some(0) }],
        modes: vec![],
    };
    assert!(!list.is_well_formed());
    let page = Page::new();
    assert!(!page.accepts(&Message::UpdateDisplayList(Some(Ok(list)))));
}

#[test]
fn overflowing_scales_are_refused() {
    let page = page_with_displays();
    assert!(!page.accepts(&Message::Scale(usize::MAX)));
    assert!(page.accepts(&Message::Scale(10)));
    assert!(page.accepts(&Message::ScaleAdjust(u32::MAX)));
    // without a display that is on, no scale is computed
    assert!(Page::new().accepts(&Message::Scale(usize::MAX)));
}

#[test]
fn a_display_list_that_could_not_be_taken_changes_nothing() {
    let mut page = page_with_displays();
    assert!(matches!(page.update(Message::UpdateDisplayList(None)), Action::Nothing));
    assert!(matches!(page.update(Message::UpdateDisplayList(Some(Err("no randr".to_string())))), Action::Nothing));
    assert_eq!(commands(page.update(Message::Scale(2))).len(), 2);
}

#[test]
fn screen_reader_without_connection_stays_off() {
    let mut page = Page::new();
    assert!(matches!(page.update(Message::ScreenReaderEnabled(true)), Action::Nothing));
    assert!(!page.reader_enabled());
}

#[test]
fn screen_reader_connection_lifecycle() {
    let mut page = Page::new();
    assert!(matches!(page.update(Message::ScreenReaderDbus(ScreenReaderUpdate::Init(true))), Action::ConnectScreenReader));
    assert!(page.reader_enabled());
    assert!(matches!(page.update(Message::ScreenReaderEnabled(false)), Action::SendScreenReaderStatus(false)));
    assert!(!page.reader_enabled());
    assert!(matches!(page.update(Message::ScreenReaderDbus(ScreenReaderUpdate::Status(true))), Action::Nothing));
    assert!(page.reader_enabled());
    assert!(matches!(
        page.update(Message::ScreenReaderDbus(ScreenReaderUpdate::Error("gone".to_string()))),
        Action::DisconnectScreenReader
    ));
    assert!(!page.reader_enabled());
    assert!(matches!(page.update(Message::ScreenReaderEnabled(true)), Action::Nothing));
    assert!(!page.reader_enabled());
}

#[test]
fn magnifier_requests_need_the_accessibility_service() {
    let mut page = Page::new();
    assert!(matches!(page.update(Message::MagnifierEnabled(true)), Action::Nothing));
    assert!(!page.magnifier_enabled());
    page.attach_accessibility();
    assert!(!page.needs_accessibility());
    assert!(matches!(page.update(Message::MagnifierEnabled(true)), Action::SendMagnifier(true)));
    // the state follows the service's report, not the request
    assert!(!page.magnifier_enabled());
    page.update(Message::A11yEvent(AccessibilityEvent::Magnifier(true)));
    assert!(page.magnifier_enabled());
}

#[test]
fn reports_change_nothing() {
    let mut page = page_with_displays();
    page.update(Message::ScaleAdjust(10));
    for message in [
        Message::A11yEvent(AccessibilityEvent::Bound(1)),
        Message::A11yEvent(AccessibilityEvent::ScreenFilter { inverted: true, filter_active: false }),
        Message::A11yEvent(AccessibilityEvent::Closed),
        Message::ScaleAdjustResult(ScaleAdjustResult::Success),
        Message::ScaleAdjustResult(ScaleAdjustResult::FailureCode(Some(1))),
        Message::ScaleAdjustResult(ScaleAdjustResult::SpawnFailure(Arc::new(std::io::Error::other("spawn")))),
    ] {
        assert!(matches!(page.update(message), Action::Nothing));
    }
    assert_eq!(page.interface_scale(), 2);
    assert_eq!(page.interface_adjusted_scale(), 10);
    assert!(!page.magnifier_enabled());
    assert!(!page.reader_enabled());
}

#[test]
fn dropdown_scales_and_labels() {
    assert_eq!(dpi_scales(), vec![50, 75, 100, 125, 150, 175, 200, 225, 250, 275, 300]);
    assert_eq!(
        dpi_scale_labels(),
        vec!["50%", "75%", "100%", "125%", "150%", "175%", "200%", "225%", "250%", "275%", "300%"]
    );
    assert_eq!(adjustment_label(15), "15%");
}

#[test]
fn dropdown_option_matches_command_scale() {
    let labels = dpi_scale_labels();
    for option in 0..labels.len() {
        let mut page = page_with_displays();
        let cmds = commands(page.update(Message::Scale(option)));
        let percent: u32 = labels[option].trim_end_matches('%').parse().unwrap();
        let expected = format!("{}.{:02}", percent / 100, percent % 100);
        assert_eq!(args(&cmds[0])[2], expected);
    }
}
