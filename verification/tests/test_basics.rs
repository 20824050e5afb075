use pot_gtk::desktop::AUTOSTART_DESKTOP_ENTRY;
use pot_gtk::error::AppError;
use pot_gtk::util::nanoid;

#[test]
fn desktop_entry_is_valid() {
    assert!(AUTOSTART_DESKTOP_ENTRY.contains("X-GNOME-Autostart-enabled=true"));
    assert!(AUTOSTART_DESKTOP_ENTRY.contains("Hidden=false"));
    assert!(AUTOSTART_DESKTOP_ENTRY.contains("Type=Application"));
    assert!(AUTOSTART_DESKTOP_ENTRY.contains("Exec=pot-gtk"));
}

#[test]
fn generates_correct_length() {
    assert_eq!(nanoid(6).len(), 6);
    assert_eq!(nanoid(8).len(), 8);
    assert_eq!(nanoid(21).len(), 21);
}

#[test]
fn generates_unique() {
    assert_ne!(nanoid(8), nanoid(8));
}

#[test]
fn uses_valid_chars() {
    let id = nanoid(100);
    for c in id.chars() {
        assert!(c.is_ascii_alphanumeric() || c == '_' || c == '-');
    }
}

#[test]
fn custom_error_message() {
    let err = AppError::Custom("test error".into());
    assert!(err.message().contains("test error"));
}
