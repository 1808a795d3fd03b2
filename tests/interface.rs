use nfd2nfc::normalize::NormalizationTarget;
use nfd2nfc::ui::{detect_unicode_form, tab_from_digit, BrowserAction, BrowserMode, SelectionKind, Tab, UnicodeForm};
use nfd2nfc::version::is_newer;
use unicode_normalization::UnicodeNormalization;

#[test]
fn test_is_newer() {
    assert!(is_newer("2.0.1", "2.0.0"));
    assert!(is_newer("2.1.0", "2.0.9"));
    assert!(is_newer("3.0.0", "2.9.9"));
    assert!(!is_newer("2.0.0", "2.0.0"));
    assert!(!is_newer("1.9.9", "2.0.0"));
    assert!(!is_newer("2.0.0", "2.0.1"));
}

#[test]
fn version_parts_that_do_not_parse_count_as_zero() {
    assert!(is_newer("2.0.1", "2"));
    assert!(!is_newer("2", "2.0.0"));
    assert!(is_newer("+3.0.0", "2.9.9"));
    assert!(is_newer("x.1.0", "0.0.1"));
    assert!(!is_newer("x.0.0", "0.0.1"));
    assert!(is_newer("0.1.x", "0.0.9"));
    assert!(!is_newer("99999999999999999999.0.0", "0.0.1"));
    assert!(is_newer("18446744073709551615.0.0", "1.0.0"));
    assert!(!is_newer("", ""));
}

#[test]
fn tabs_cycle() {
    assert_eq!(Tab::Home.next(), Tab::Config);
    assert_eq!(Tab::Browser.next(), Tab::Home);
    assert_eq!(Tab::Home.previous(), Tab::Browser);
    assert_eq!(Tab::Logs.previous(), Tab::Config);
    assert_eq!(Tab::Logs.index(), 2);
    assert_eq!(Tab::Config.title(), "Config");
    assert_eq!(Tab::Browser.superscript(), "\u{2074}");
    assert_eq!(Tab::Home.superscript(), "\u{b9}");
    assert_eq!(tab_from_digit('3'), Some(Tab::Logs));
    assert_eq!(tab_from_digit('5'), None);
}

#[test]
fn browser_choices() {
    assert_eq!(BrowserAction::Convert.toggle(), BrowserAction::Reverse);
    assert_eq!(BrowserAction::Reverse.to_target(), NormalizationTarget::NFD);
    assert_eq!(BrowserAction::Convert.to_target(), NormalizationTarget::NFC);
    assert_eq!(BrowserMode::NameOnly.cycle(), BrowserMode::Children);
    assert_eq!(BrowserMode::Recursive.cycle(), BrowserMode::NameOnly);
    assert_eq!(BrowserMode::Recursive.cycle_skip_name_only(), BrowserMode::Children);
    assert_eq!(BrowserMode::Children.cycle_skip_name_only(), BrowserMode::Recursive);
    assert_eq!(BrowserMode::Children.as_str(), "Children only");
    assert_eq!(BrowserMode::NameOnly.as_str(), "Name only");
}

#[test]
fn unicode_forms() {
    assert_eq!(detect_unicode_form("plain.txt"), UnicodeForm::ASCII);
    assert_eq!(detect_unicode_form("\u{ce74}\u{d398}.txt"), UnicodeForm::NFC);
    let decomposed: String = "\u{ce74}\u{d398}.txt".nfd().collect();
    assert_eq!(detect_unicode_form(&decomposed), UnicodeForm::NFD);
    let mixed = format!("\u{ce74}{}", decomposed);
    assert_eq!(detect_unicode_form(&mixed), UnicodeForm::Mixed);
    assert_eq!(detect_unicode_form("\u{b0}"), UnicodeForm::ASCII);
    assert_eq!(UnicodeForm::ASCII.as_str(), "");
    assert_eq!(UnicodeForm::Mixed.as_str(), "Mixed");
}

#[test]
fn selection_kinds() {
    assert!(SelectionKind::DirAscii.is_dir());
    assert!(!SelectionKind::FileNFD.is_dir());
    assert!(SelectionKind::Parent.is_inactive());
    assert!(SelectionKind::Nothing.is_inactive());
    assert!(!SelectionKind::FileNFC.is_inactive());
}
