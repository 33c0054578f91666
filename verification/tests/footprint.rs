use met_api::footprint::{
    footprint_job_step_label, format_footprint_parent_dir, job_run_snapshot_key,
    FootprintBinaryRow,
};
use met_api::footprint_groups::{
    build_footprint_filesystem, FOOTPRINT_MAX_DIRS, FOOTPRINT_MAX_ENTRIES_PER_DIR,
};

fn row(job: &str, step: Option<&str>, path: &str, sha: &str, n: i64) -> FootprintBinaryRow {
    FootprintBinaryRow {
        job_name: job.to_string(),
        step_name: step.map(|s| s.to_string()),
        binary_path: path.to_string(),
        sha256: sha.to_string(),
        execution_count: n,
    }
}

#[test]
fn step_labels() {
    assert_eq!(footprint_job_step_label(" build ", Some(" compile ")), "build · compile");
    assert_eq!(footprint_job_step_label("", Some("compile")), "compile");
    assert_eq!(footprint_job_step_label("build", Some("  ")), "build");
    assert_eq!(footprint_job_step_label("  ", None), "—");
}

#[test]
fn parent_directories() {
    assert_eq!(format_footprint_parent_dir("/usr/bin/git"), "/usr/bin");
    assert_eq!(format_footprint_parent_dir("  /usr//local///bin/cc  "), "/usr/local/bin");
    assert_eq!(format_footprint_parent_dir("git"), ".");
    assert_eq!(format_footprint_parent_dir("/git"), "/");
    assert_eq!(format_footprint_parent_dir("/"), ".");
    assert_eq!(format_footprint_parent_dir(""), ".");
}

#[test]
fn snapshot_keys_need_32_bytes() {
    assert_eq!(job_run_snapshot_key(&None), None);
    assert_eq!(job_run_snapshot_key(&Some(vec![7u8; 31])), None);
    assert_eq!(job_run_snapshot_key(&Some(vec![7u8; 32])), Some([7u8; 32]));
}

#[test]
fn binaries_are_grouped_summed_and_labelled() {
    let rows = vec![
        row("build", Some("compile"), "/usr/bin/cc", "aa", 2),
        row("test", None, "/usr/bin/cc", "aa", 3),
        row("build", Some("link"), "/usr/bin/ld", "bb", 1),
        row("", None, "/bin/sh", "cc", 4),
        row("build", Some("compile"), "/usr/bin/cc", "aa", 1),
        row("build", None, "/usr/bin/cc", "a0", 1),
    ];
    let (groups, truncated, more) = build_footprint_filesystem(&rows);
    assert!(!truncated);
    assert_eq!(more, None);
    let dirs: Vec<&str> = groups.iter().map(|g| g.directory.as_str()).collect();
    assert_eq!(dirs, vec!["/bin", "/usr/bin"]);
    let sh = &groups[0].entries;
    assert_eq!(sh.len(), 1);
    assert_eq!(sh[0].execution_count, 4);
    assert!(sh[0].job_names.is_empty());
    let usr = &groups[1];
    assert!(!usr.entries_truncated);
    let keys: Vec<(&str, &str)> =
        usr.entries.iter().map(|e| (e.binary_path.as_str(), e.sha256.as_str())).collect();
    assert_eq!(keys, vec![("/usr/bin/cc", "a0"), ("/usr/bin/cc", "aa"), ("/usr/bin/ld", "bb")]);
    assert_eq!(usr.entries[1].execution_count, 6);
    assert_eq!(usr.entries[1].job_names, vec!["build · compile", "test"]);
    assert_eq!(usr.entries[2].job_names, vec!["build · link"]);
}

#[test]
fn directories_and_entries_are_capped() {
    let mut rows = Vec::new();
    for d in 0..(FOOTPRINT_MAX_DIRS + 5) {
        rows.push(row("j", None, &format!("/d{:03}/bin", d), "x", 1));
    }
    for f in 0..(FOOTPRINT_MAX_ENTRIES_PER_DIR + 2) {
        rows.push(row("j", None, &format!("/d000/f{:03}", f), "y", 1));
    }
    let (groups, truncated, more) = build_footprint_filesystem(&rows);
    assert!(truncated);
    assert_eq!(more, Some(5));
    assert_eq!(groups.len(), FOOTPRINT_MAX_DIRS);
    assert_eq!(groups[0].directory, "/d000");
    assert_eq!(groups[FOOTPRINT_MAX_DIRS - 1].directory, format!("/d{:03}", FOOTPRINT_MAX_DIRS - 1));
    // /d000 holds bin plus 50 files: 51 entries, 48 shown.
    assert!(groups[0].entries_truncated);
    assert_eq!(groups[0].entries.len(), FOOTPRINT_MAX_ENTRIES_PER_DIR);
    assert_eq!(groups[0].entries[0].binary_path, "/d000/bin");
    assert!(!groups[1].entries_truncated);
}
