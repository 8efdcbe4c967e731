use chrono::Datelike;
use licenz::catalog::{
    check_catalog, get_license_by_key, get_license_keys, get_license_text_url, License,
    LicenseError,
};
use licenz::check::{compare, Verdict};
use licenz::pipeline::{advance, check_destination, locate_license_text, Action, Event, Mode, Session, Stage};
use licenz::render::{fill_in_details, render};
use licenz::text::{chars_of, decimal_text, occurs_at_exec, replace_all};

fn lic(key: &str, name: &str) -> License {
    License::new(key.to_string(), name.to_string())
}

fn mit_catalog() -> Vec<License> {
    vec![lic("mit", "MIT License")]
}

#[test]
fn render_copyright_line() {
    let out = render("Copyright (c) <YEAR> <COPYRIGHT_HOLDER>", 2024, "Jane Doe");
    assert_eq!(out, "Copyright (c) 2024 Jane Doe");
}

#[test]
fn render_replaces_every_occurrence() {
    let out = render("<YEAR>-<YEAR> <COPYRIGHT_HOLDER>, <COPYRIGHT_HOLDER>", 1999, "Acme");
    assert_eq!(out, "1999-1999 Acme, Acme");
}

#[test]
fn render_without_placeholders_is_unchanged() {
    assert_eq!(render("plain text", 2024, "Jane"), "plain text");
    assert_eq!(render("", 2024, "Jane"), "");
}

#[test]
fn render_twice_changes_nothing() {
    let template = "Copyright (c) <YEAR> <COPYRIGHT_HOLDER>\nPermission is granted.";
    let once = render(template, 2024, "Jane Doe");
    let twice = render(&once, 2024, "Jane Doe");
    assert_eq!(once, twice);
}

#[test]
fn render_fills_in_place() {
    let out = render("a <YEAR> b <COPYRIGHT_HOLDER> c", 2031, "Holder Name");
    assert_eq!(out, "a 2031 b Holder Name c");
    assert!(!out.contains("<YEAR>"));
    assert!(!out.contains("<COPYRIGHT_HOLDER>"));
    let out = render("<COPYRIGHT_HOLDER> then <YEAR>", 7, "X");
    assert_eq!(out, "X then 7");
}

#[test]
fn render_holder_is_not_escaped() {
    let out = render("(c) <COPYRIGHT_HOLDER>", 2024, "<b>&amp;</b>");
    assert_eq!(out, "(c) <b>&amp;</b>");
}

#[test]
fn render_year_before_holder() {
    // the holder text is inserted after the year has been filled in
    let out = render("<COPYRIGHT_HOLDER>", 2024, "<YEAR>");
    assert_eq!(out, "<YEAR>");
}

#[test]
fn render_negative_year() {
    assert_eq!(render("<YEAR>", -44, "x"), "-44");
}

#[test]
fn fill_in_details_uses_current_year() {
    let before = chrono::Local::now().year();
    let out = fill_in_details("<YEAR> <COPYRIGHT_HOLDER>", "Jane");
    let after = chrono::Local::now().year();
    assert!(out == format!("{} Jane", before) || out == format!("{} Jane", after));
    assert!(!out.contains("<YEAR>"));
}

#[test]
fn decimal_text_values() {
    assert_eq!(decimal_text(2024), "2024");
    assert_eq!(decimal_text(0), "0");
    assert_eq!(decimal_text(10), "10");
    assert_eq!(decimal_text(-5), "-5");
    assert_eq!(decimal_text(i32::MAX), "2147483647");
    assert_eq!(decimal_text(i32::MIN), "-2147483648");
}

#[test]
fn replace_all_scans_left_to_right() {
    assert_eq!(replace_all("aaa", "aa", "b"), "ba");
    assert_eq!(replace_all("abcabc", "bc", ""), "aa");
    assert_eq!(replace_all("xyz", "q", "r"), "xyz");
    assert_eq!(replace_all("ééé", "é", "e"), "eee");
}

#[test]
fn chars_and_occurrences() {
    let s = chars_of("héllo");
    assert_eq!(s, vec!['h', 'é', 'l', 'l', 'o']);
    let p = chars_of("ll");
    assert!(occurs_at_exec(&s, &p, 2));
    assert!(!occurs_at_exec(&s, &p, 1));
    assert!(!occurs_at_exec(&s, &p, 4));
    assert!(!occurs_at_exec(&s, &p, 9));
}

#[test]
fn resolve_finds_key() {
    let catalog = vec![lic("mit", "MIT License"), lic("gpl-3.0", "GNU GPL v3")];
    let found = get_license_by_key(&catalog, "gpl-3.0").unwrap();
    assert_eq!(found.name, "GNU GPL v3");
}

#[test]
fn resolve_is_case_sensitive() {
    let catalog = mit_catalog();
    assert!(get_license_by_key(&catalog, "MIT").is_none());
    assert!(get_license_by_key(&catalog, "mi").is_none());
}

#[test]
fn resolve_duplicate_keys_first_wins() {
    let catalog = vec![lic("x", "Other"), lic("mit", "First"), lic("mit", "Second")];
    let found = get_license_by_key(&catalog, "mit").unwrap();
    assert_eq!(found.name, "First");
}

#[test]
fn resolve_unknown_key_not_found() {
    let catalog = mit_catalog();
    assert!(get_license_by_key(&catalog, "gpl-99").is_none());
    let r = locate_license_text(&catalog, "gpl-99");
    assert!(matches!(r, Err(LicenseError::NotFound)));
}

#[test]
fn locate_gives_text_address() {
    let catalog = mit_catalog();
    let (l, url) = locate_license_text(&catalog, "mit").unwrap();
    assert_eq!(l.name, "MIT License");
    assert_eq!(url, "https://licenz.zbrox.com/license_text/mit.txt");
}

#[test]
fn text_url_is_stable() {
    let l = lic("apache-2.0", "Apache License 2.0");
    assert_eq!(get_license_text_url(&l), "https://licenz.zbrox.com/license_text/apache-2.0.txt");
    assert_eq!(get_license_text_url(&l), get_license_text_url(&l));
}

#[test]
fn keys_are_joined_in_order() {
    let catalog = vec![lic("mit", "MIT"), lic("gpl-3.0", "GPL"), lic("bsd", "BSD")];
    assert_eq!(get_license_keys(&catalog), "mit, gpl-3.0, bsd");
    assert_eq!(get_license_keys(&mit_catalog()), "mit");
    assert_eq!(get_license_keys(&Vec::new()), "");
}

#[test]
fn catalog_requires_key_and_name() {
    let ok = check_catalog(vec![lic("mit", "MIT"), lic("bsd", "BSD")]).unwrap();
    assert_eq!(ok.len(), 2);
    assert_eq!(ok[1].key, "bsd");
    assert!(matches!(check_catalog(vec![lic("", "MIT")]), Err(LicenseError::DecodeError)));
    assert!(matches!(
        check_catalog(vec![lic("mit", "MIT"), lic("bsd", "")]),
        Err(LicenseError::DecodeError)
    ));
    assert!(check_catalog(Vec::new()).unwrap().is_empty());
}

#[test]
fn compare_equal_is_match() {
    assert!(matches!(compare("Copyright (c) 2024 Jane Doe", "Copyright (c) 2024 Jane Doe"), Verdict::Match));
    assert!(matches!(compare("", ""), Verdict::Match));
}

#[test]
fn compare_single_char_difference_is_diff() {
    match compare("abc", "abd") {
        Verdict::Diff(d) => {
            assert_eq!(d.common_prefix, "");
            assert_eq!(d.expected_only, "abc");
            assert_eq!(d.actual_only, "abd");
            assert_eq!(d.common_suffix, "");
        }
        Verdict::Match => panic!("expected a difference"),
    }
    assert!(matches!(compare("abc", "abc "), Verdict::Diff(_)));
    assert!(matches!(compare("", "a"), Verdict::Diff(_)));
}

#[test]
fn compare_reports_changed_year() {
    let expected = render("Copyright (c) <YEAR> <COPYRIGHT_HOLDER>", 2024, "Jane Doe");
    match compare(&expected, "Copyright (c) 2023 Jane Doe") {
        Verdict::Diff(d) => {
            assert_eq!(d.common_prefix, "Copyright (c) ");
            assert_eq!(d.expected_only, "2024");
            assert_eq!(d.actual_only, "2023");
            assert_eq!(d.common_suffix, " Jane Doe");
        }
        Verdict::Match => panic!("expected a difference"),
    }
}

#[test]
fn compare_added_line() {
    match compare("one\ntwo\n", "one\nextra\ntwo\n") {
        Verdict::Diff(d) => {
            assert_eq!(d.common_prefix, "one\n");
            assert_eq!(d.expected_only, "");
            assert_eq!(d.actual_only, "extra\n");
            assert_eq!(d.common_suffix, "two\n");
        }
        Verdict::Match => panic!("expected a difference"),
    }
}

#[test]
fn destination_exists_without_overwrite() {
    assert!(matches!(check_destination(true, false), Err(LicenseError::DestinationExists)));
    assert!(check_destination(true, true).is_ok());
}

#[test]
fn destination_missing_allows_write() {
    assert!(check_destination(false, false).is_ok());
    assert!(check_destination(false, true).is_ok());
}

fn template() -> String {
    "Copyright (c) <YEAR> <COPYRIGHT_HOLDER>".to_string()
}

fn start(mode: Mode, key: &str, exists: bool) -> (Session, Action) {
    let s = Session::new(mode, key.to_string(), "Jane Doe".to_string());
    advance(s, Event::Begin { destination_exists: exists })
}

#[test]
fn session_writes_rendered_text() {
    let (s, a) = start(Mode::Download { overwrite: false }, "mit", false);
    assert!(matches!(a, Action::FetchCatalog));
    let (s, a) = advance(s, Event::CatalogFetched(Ok(mit_catalog())));
    match a {
        Action::FetchText { name, url } => {
            assert_eq!(name, "MIT License");
            assert_eq!(url, "https://licenz.zbrox.com/license_text/mit.txt");
        }
        _ => panic!("expected a text fetch"),
    }
    let year = chrono::Local::now().year();
    let (s, a) = advance(s, Event::TextFetched(Ok(template())));
    match a {
        Action::Write { text } => {
            assert!(text == render(&template(), year, "Jane Doe")
                || text == render(&template(), year + 1, "Jane Doe"));
        }
        _ => panic!("expected a write"),
    }
    let (s, a) = advance(s, Event::Stored(Ok(())));
    assert!(matches!(a, Action::Saved { ref name } if name == "MIT License"));
    assert!(matches!(s.stage, Stage::Written));
}

#[test]
fn session_refuses_existing_destination() {
    let (s, a) = start(Mode::Download { overwrite: false }, "mit", true);
    assert!(matches!(a, Action::Fail(LicenseError::DestinationExists)));
    assert!(matches!(s.stage, Stage::Failed(LicenseError::DestinationExists)));
    let (s, a) = advance(s, Event::CatalogFetched(Ok(mit_catalog())));
    assert!(matches!(a, Action::Idle));
    let (_, a) = advance(s, Event::TextFetched(Ok(template())));
    assert!(matches!(a, Action::Idle));
}

#[test]
fn session_overwrite_allowed() {
    let (_, a) = start(Mode::Download { overwrite: true }, "mit", true);
    assert!(matches!(a, Action::FetchCatalog));
    let (_, a) = start(Mode::Verify, "mit", true);
    assert!(matches!(a, Action::FetchCatalog));
}

#[test]
fn session_not_found_fetches_no_text() {
    let (s, _) = start(Mode::Download { overwrite: false }, "gpl-99", false);
    let (s, a) = advance(s, Event::CatalogFetched(Ok(mit_catalog())));
    assert!(matches!(a, Action::Fail(LicenseError::NotFound)));
    assert!(matches!(s.stage, Stage::Failed(LicenseError::NotFound)));
}

#[test]
fn session_failures_end_the_run() {
    let (s, _) = start(Mode::Verify, "mit", false);
    let (s, a) = advance(s, Event::CatalogFetched(Err(LicenseError::NetworkError)));
    assert!(matches!(a, Action::Fail(LicenseError::NetworkError)));
    let (_, a) = advance(s, Event::CatalogFetched(Ok(mit_catalog())));
    assert!(matches!(a, Action::Idle));

    let (s, _) = start(Mode::Download { overwrite: false }, "mit", false);
    let (s, _) = advance(s, Event::CatalogFetched(Ok(mit_catalog())));
    let (s, _) = advance(s, Event::TextFetched(Ok(template())));
    let (_, a) = advance(s, Event::Stored(Err(LicenseError::WriteError)));
    assert!(matches!(a, Action::Fail(LicenseError::WriteError)));

    let (s, _) = start(Mode::Verify, "mit", false);
    let (s, _) = advance(s, Event::CatalogFetched(Ok(mit_catalog())));
    let (s, _) = advance(s, Event::TextFetched(Ok(template())));
    let (_, a) = advance(s, Event::FileRead(Err(LicenseError::ReadError)));
    assert!(matches!(a, Action::Fail(LicenseError::ReadError)));
}

#[test]
fn session_event_out_of_order_is_ignored() {
    let s = Session::new(Mode::Verify, "mit".to_string(), "Jane".to_string());
    let (s, a) = advance(s, Event::TextFetched(Ok(template())));
    assert!(matches!(a, Action::Idle));
    assert!(matches!(s.stage, Stage::Start));
}

#[test]
fn session_verify_reports_changed_year() {
    let (s, _) = start(Mode::Verify, "mit", true);
    let (s, _) = advance(s, Event::CatalogFetched(Ok(mit_catalog())));
    let (s, a) = advance(s, Event::TextFetched(Ok(template())));
    assert!(matches!(a, Action::ReadFile));
    let (s, a) = advance(s, Event::FileRead(Ok("Copyright (c) 2023 Jane Doe".to_string())));
    assert!(matches!(s.stage, Stage::Compared));
    match a {
        Action::Report { name, verdict: Verdict::Diff(d) } => {
            assert_eq!(name, "MIT License");
            assert_eq!(d.common_prefix, "Copyright (c) ");
            assert_eq!(d.actual_only, "2023");
            assert_eq!(d.expected_only.len(), 4);
            assert_eq!(d.common_suffix, " Jane Doe");
        }
        _ => panic!("expected a difference"),
    }
}

#[test]
fn session_verify_match() {
    let year = chrono::Local::now().year();
    let on_disk = render(&template(), year, "Jane Doe");
    let (s, _) = start(Mode::Verify, "mit", true);
    let (s, _) = advance(s, Event::CatalogFetched(Ok(mit_catalog())));
    let (s, _) = advance(s, Event::TextFetched(Ok(template())));
    let (_, a) = advance(s, Event::FileRead(Ok(on_disk)));
    assert!(matches!(a, Action::Report { verdict: Verdict::Match, .. }));
}
