use std::sync::atomic::{AtomicBool, Ordering};
use uv_ffi::changelog::{c_buffer_bytes, changelog_json, dist_entry, run_summary, ChangedPackage, Changelog};
use uv_ffi::profile::{is_profile_enabled, profile_requested};

fn swap_changelog() -> Changelog {
    Changelog {
        installed: vec![ChangedPackage { name: "rich".to_string(), version: Some("14.3.3".to_string()) }],
        uninstalled: vec![
            ChangedPackage { name: "rich".to_string(), version: Some("14.3.2".to_string()) },
            ChangedPackage { name: "editable".to_string(), version: None },
        ],
    }
}

#[test]
fn dist_entry_defaults_version() {
    let d = ChangedPackage { name: "x".to_string(), version: None };
    assert_eq!(dist_entry(&d), ("x".to_string(), String::new()));
}

#[test]
fn run_summary_lists_changes() {
    let cl = swap_changelog();
    let (rc, inst, rem, err) = run_summary(0, Some(&cl), None);
    assert_eq!(rc, 0);
    assert_eq!(err, "");
    assert_eq!(inst, vec![("rich".to_string(), "14.3.3".to_string())]);
    assert_eq!(
        rem,
        vec![
            ("rich".to_string(), "14.3.2".to_string()),
            ("editable".to_string(), String::new())
        ]
    );
    let (rc, inst, rem, err) = run_summary(1, None, Some("No matching distribution found".to_string()));
    assert_eq!(rc, 1);
    assert_eq!(err, "No matching distribution found");
    assert!(inst.is_empty() && rem.is_empty());
}

#[test]
fn json_report() {
    let cl = swap_changelog();
    assert_eq!(
        changelog_json(Some(&cl)),
        "{\"installed\":[[\"rich\",\"14.3.3\"]],\"removed\":[[\"rich\",\"14.3.2\"],[\"editable\",\"\"]]}"
    );
    assert_eq!(changelog_json(None), "{\"installed\":[],\"removed\":[]}");
}

#[test]
fn c_buffer_fits() {
    let json = changelog_json(None);
    let full = c_buffer_bytes(&json, 1000);
    let mut want = json.as_bytes().to_vec();
    want.push(0);
    assert_eq!(full, want);
    assert_eq!(c_buffer_bytes(&json, 1), vec![0u8]);
    assert_eq!(c_buffer_bytes(&json, 5), b"{\"in\0".to_vec());
    let exact = c_buffer_bytes("ab", 3);
    assert_eq!(exact, b"ab\0".to_vec());
    let multi = c_buffer_bytes("é", 2);
    assert_eq!(multi, vec![0xc3, 0]);
}

#[test]
fn profile_switch() {
    assert!(profile_requested(Some("1")));
    assert!(!profile_requested(Some("0")));
    assert!(!profile_requested(Some("true")));
    assert!(!profile_requested(Some("")));
    assert!(!profile_requested(None));
    let flag = AtomicBool::new(false);
    assert!(!is_profile_enabled(&flag));
    flag.store(true, Ordering::Relaxed);
    assert!(is_profile_enabled(&flag));
}
