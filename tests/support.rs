use xterm_bridge::crossterm::{InvalidUtf8, XtermJsCrosstermBackend};
use xterm_bridge::log_level::{LogLevel, LogLevelIsOff};
use xterm_bridge::marker::{idx_to_opt, Marker};
use xterm_bridge::theme::Theme;

#[test]
fn idx_to_opt_maps_minus_one_to_none() {
    assert_eq!(idx_to_opt(-1), None);
    assert_eq!(idx_to_opt(0), Some(0));
    assert_eq!(idx_to_opt(i32::MAX), Some(i32::MAX as u32));
}

#[test]
fn marker_line() {
    let m = Marker { id: 1, is_disposed: false, line: 12 };
    assert_eq!(m.get_line(), Some(12));
    let gone = Marker { id: 2, is_disposed: true, line: -1 };
    assert_eq!(gone.get_line(), None);
}

#[test]
fn nord_theme_colors() {
    let t = Theme::nord();
    assert_eq!(t.black.as_deref(), Some("#343434"));
    assert_eq!(t.bright_black.as_deref(), Some("#434C5E"));
    assert_eq!(t.background.as_deref(), Some("#2E3440"));
    assert_eq!(t.foreground.as_deref(), Some("#D8DEE9"));
    assert_eq!(t.bright_cyan.as_deref(), Some("#8FBCBB"));
    assert_eq!(t.bright_white.as_deref(), Some("#ECEFF4"));
    assert_eq!(t.red, t.bright_red);
    assert_eq!(t.cursor, None);
    assert_eq!(t.cursor_accent, None);
    assert_eq!(t.selection, None);
}

#[test]
fn backend_buffers_until_flush() {
    let mut b = XtermJsCrosstermBackend::new(7u8);
    assert_eq!(b.write(b"\x1b[2J"), 4);
    assert_eq!(b.write("héllo".as_bytes()), 6);
    assert_eq!(b.flush(), Ok("\x1b[2Jhéllo".to_string()));
    assert_eq!(b.flush(), Ok(String::new()));
    assert_eq!(b.terminal, 7);
}

#[test]
fn backend_rejects_invalid_utf8_and_clears() {
    let mut b = XtermJsCrosstermBackend::new_with_capacity((), 16);
    assert_eq!(b.write(&[0xff, 0x41]), 2);
    assert_eq!(b.flush(), Err(InvalidUtf8));
    assert_eq!(b.flush(), Ok(String::new()));
}

#[test]
fn write_immediately_flushes_first() {
    let mut b = XtermJsCrosstermBackend::new(());
    b.write(b"ab");
    assert_eq!(
        b.write_immediately("cd".to_string()),
        Ok(vec!["ab".to_string(), "cd".to_string()])
    );
    b.write(&[0xc3]);
    assert_eq!(b.write_immediately("ef".to_string()), Err(InvalidUtf8));
    assert_eq!(b.flush(), Ok(String::new()));
}

#[test]
fn log_levels_map_to_and_from_log() {
    assert_eq!(LogLevel::from_level(log::Level::Trace), LogLevel::Debug);
    assert_eq!(LogLevel::from_level(log::Level::Debug), LogLevel::Debug);
    assert_eq!(LogLevel::from_level(log::Level::Info), LogLevel::Info);
    assert_eq!(LogLevel::from_level(log::Level::Warn), LogLevel::Warn);
    assert_eq!(LogLevel::from_level(log::Level::Error), LogLevel::Error);
    assert_eq!(LogLevel::Debug.to_level(), Ok(log::Level::Debug));
    assert_eq!(LogLevel::Info.to_level(), Ok(log::Level::Info));
    assert_eq!(LogLevel::Warn.to_level(), Ok(log::Level::Warn));
    assert_eq!(LogLevel::Error.to_level(), Ok(log::Level::Error));
    assert_eq!(LogLevel::Off.to_level(), Err(LogLevelIsOff));
}

#[test]
fn log_level_from_impl() {
    assert_eq!(LogLevel::from(log::Level::Trace), LogLevel::Debug);
    assert_eq!(LogLevel::from(log::Level::Warn), LogLevel::Warn);
    let l: LogLevel = log::Level::Error.into();
    assert_eq!(l, LogLevel::Error);
}
