use port_scanner::outcome::PortStatus;
use port_scanner::render::{
    banner_preview, is_listed, line_style, or_dash, status_label, LineStyle, PREVIEW_CHARS,
};

/// The preview as the standard library's own tools give it.
fn with_std_tools(banner: &str) -> String {
    let preview: String = banner.chars().take(60).collect();
    if banner.len() > 60 {
        format!("{}...", preview)
    } else {
        preview
    }
}

#[test]
fn each_status_has_its_word() {
    assert_eq!(status_label(PortStatus::Open), "open");
    assert_eq!(status_label(PortStatus::Closed), "closed");
    assert_eq!(status_label(PortStatus::Filtered), "filtered");
}

#[test]
fn a_missing_field_shows_as_a_dash() {
    assert_eq!(or_dash(None), "-");
    assert_eq!(or_dash(Some("SSH")), "SSH");
    assert_eq!(or_dash(Some("")), "");
    assert_eq!(banner_preview(None), "-");
}

#[test]
fn a_short_banner_is_shown_whole() {
    assert_eq!(PREVIEW_CHARS, 60);
    assert_eq!(banner_preview(Some("SSH-2.0-Test")), "SSH-2.0-Test");
    assert_eq!(banner_preview(Some("")), "");
    let sixty = "x".repeat(60);
    assert_eq!(banner_preview(Some(&sixty)), sixty);
}

#[test]
fn a_long_banner_is_cut_and_marked() {
    let long = "0123456789".repeat(7);
    assert_eq!(
        banner_preview(Some(&long)),
        "012345678901234567890123456789012345678901234567890123456789..."
    );
    let sixty_one = "y".repeat(61);
    assert_eq!(banner_preview(Some(&sixty_one)), format!("{}...", "y".repeat(60)));
}

#[test]
fn the_mark_goes_by_bytes_and_the_cut_by_characters() {
    let wide = "é".repeat(40);
    assert_eq!(banner_preview(Some(&wide)), format!("{}...", wide));
    let wider = "越".repeat(61);
    assert_eq!(banner_preview(Some(&wider)), format!("{}...", "越".repeat(60)));
}

#[test]
fn the_preview_agrees_with_the_standard_tools() {
    let banners = [
        String::new(),
        "a".to_string(),
        "a".repeat(59),
        "a".repeat(60),
        "a".repeat(61),
        "é".repeat(30),
        "é".repeat(31),
        "é".repeat(60),
        "é".repeat(61),
        format!("{}越", "a".repeat(58)),
        "line one\nline two".to_string(),
    ];
    for banner in banners {
        assert_eq!(banner_preview(Some(&banner)), with_std_tools(&banner));
    }
}

#[test]
fn a_quiet_listing_shows_open_ports_only() {
    assert!(is_listed(PortStatus::Open, true));
    assert!(!is_listed(PortStatus::Closed, true));
    assert!(!is_listed(PortStatus::Filtered, true));
    assert!(is_listed(PortStatus::Open, false));
    assert!(is_listed(PortStatus::Closed, false));
    assert!(is_listed(PortStatus::Filtered, false));
}

#[test]
fn a_verbose_listing_gives_every_result_a_full_line() {
    assert_eq!(line_style(PortStatus::Open, true), LineStyle::Full);
    assert_eq!(line_style(PortStatus::Closed, true), LineStyle::Full);
    assert_eq!(line_style(PortStatus::Filtered, true), LineStyle::Full);
    assert_eq!(line_style(PortStatus::Open, false), LineStyle::Brief);
    assert_eq!(line_style(PortStatus::Closed, false), LineStyle::Hidden);
    assert_eq!(line_style(PortStatus::Filtered, false), LineStyle::Hidden);
}
