use std::collections::BTreeMap;
use uv_ffi::site_packages::{install_edit, plan_site_packages_patch, SitePackagesEdit};

fn pair(a: &str, b: &str) -> Vec<String> {
    vec![a.to_string(), b.to_string()]
}

fn apply(cache: &mut BTreeMap<String, String>, edits: &[SitePackagesEdit]) {
    for e in edits {
        match e {
            SitePackagesEdit::Remove { name } => {
                cache.remove(name);
            }
            SitePackagesEdit::Install { name, version, .. } => {
                cache.insert(name.clone(), version.clone());
            }
        }
    }
}

#[test]
fn install_names_are_normalized() {
    let edits = plan_site_packages_patch(&vec![pair("Friendly_Bard", "1.0-alpha1")], &vec![]);
    assert_eq!(edits.len(), 1);
    match &edits[0] {
        SitePackagesEdit::Install { name, version, dist_info } => {
            assert_eq!(name, "friendly-bard");
            assert_eq!(version, "1.0a1");
            assert_eq!(dist_info, "friendly_bard-1.0a1.dist-info");
        }
        _ => panic!("expected an install"),
    }
}

#[test]
fn removals_come_first() {
    let edits = plan_site_packages_patch(
        &vec![pair("rich", "14.3.3")],
        &vec![pair("rich", "14.3.2"), vec!["Old.Pkg".to_string()]],
    );
    assert_eq!(edits.len(), 3);
    assert!(matches!(&edits[0], SitePackagesEdit::Remove { name } if name == "rich"));
    assert!(matches!(&edits[1], SitePackagesEdit::Remove { name } if name == "old-pkg"));
    assert!(matches!(&edits[2], SitePackagesEdit::Install { name, .. } if name == "rich"));
}

#[test]
fn bad_entries_are_skipped() {
    let edits = plan_site_packages_patch(
        &vec![
            vec!["onlyname".to_string()],
            pair("-bad", "1.0"),
            pair("good", "not a version"),
            vec![],
            pair("ok", "01.02"),
        ],
        &vec![vec![], vec!["_x".to_string()], vec!["é".to_string()]],
    );
    assert_eq!(edits.len(), 1);
    match &edits[0] {
        SitePackagesEdit::Install { name, version, dist_info } => {
            assert_eq!(name, "ok");
            assert_eq!(version, "1.2");
            assert_eq!(dist_info, "ok-1.2.dist-info");
        }
        _ => panic!("expected an install"),
    }
}

#[test]
fn swap_stays_coherent() {
    let mut cache = BTreeMap::new();
    cache.insert("rich".to_string(), "14.3.2".to_string());
    cache.insert("click".to_string(), "8.0".to_string());
    cache.insert("gone".to_string(), "1".to_string());
    let edits = plan_site_packages_patch(
        &vec![pair("Rich", "14.3.3"), pair("rich", "14.3.4")],
        &vec![pair("rich", "14.3.2"), pair("GONE", "1")],
    );
    apply(&mut cache, &edits);
    assert_eq!(cache.get("rich").map(String::as_str), Some("14.3.4"));
    assert_eq!(cache.get("click").map(String::as_str), Some("8.0"));
    assert_eq!(cache.get("gone"), None);
}

#[test]
fn install_edit_formats_dist_info() {
    match install_edit("a-b".to_string(), "a_b".to_string(), "2.0".to_string()) {
        SitePackagesEdit::Install { name, version, dist_info } => {
            assert_eq!(name, "a-b");
            assert_eq!(version, "2.0");
            assert_eq!(dist_info, "a_b-2.0.dist-info");
        }
        _ => panic!("expected an install"),
    }
}

#[test]
fn patching_twice_is_patching_once() {
    let installed = vec![pair("Rich", "14.3.3"), pair("a.b", "2")];
    let removed = vec![pair("rich", "14.3.2"), pair("c", "1")];
    let mut cache = BTreeMap::new();
    cache.insert("rich".to_string(), "14.3.2".to_string());
    cache.insert("c".to_string(), "1".to_string());
    cache.insert("d".to_string(), "4".to_string());
    let edits = plan_site_packages_patch(&installed, &removed);
    apply(&mut cache, &edits);
    let once = cache.clone();
    apply(&mut cache, &edits);
    assert_eq!(cache, once);
}

#[test]
fn unusable_entries_change_nothing() {
    let installed = vec![pair("x", "1"), vec!["y".to_string()], pair("bad name", "1"), pair("z", "nope")];
    let removed = vec![vec![], pair("_q", "1"), pair("w", "1")];
    let all = plan_site_packages_patch(&installed, &removed);
    let kept = plan_site_packages_patch(&vec![pair("x", "1")], &vec![pair("w", "1")]);
    let view = |v: &Vec<SitePackagesEdit>| -> Vec<String> {
        v.iter()
            .map(|e| match e {
                SitePackagesEdit::Remove { name } => format!("-{name}"),
                SitePackagesEdit::Install { name, version, dist_info } => format!("+{name} {version} {dist_info}"),
            })
            .collect()
    };
    assert_eq!(view(&all), view(&kept));
    let extra = plan_site_packages_patch(&vec![vec!["x".to_string(), "1".to_string(), "junk".to_string()]], &vec![]);
    assert_eq!(view(&extra), vec!["+x 1 x-1.dist-info".to_string()]);
}
