use codex_shell::paths::{parent_dir, resolve_path};
use codex_shell::repo_bridge::{
    assess_startup_executable, bridge_paths, selected_repo_bridge_file_path, collect_selected_repo_path_candidates, plan_selected_repo_path,
    resolve_startup_executable_path, summarize_rejected_selected_repo_candidates, PathFacts,
};

const CWD: &str = r"C:\cwd";

fn facts(output_exists: bool, runtime_exists: bool) -> PathFacts {
    PathFacts { output_exists, runtime_exists }
}

fn missing() -> PathFacts {
    facts(false, false)
}

#[test]
fn save_selected_repo_path_single_runtime_candidate() {
    let exe = r"C:\tmp\single\tool\target\debug\tool.exe".to_string();
    let plan = plan_selected_repo_path(
        &vec![exe.clone()],
        CWD,
        &vec![facts(false, true)],
        r"C:\tmp\single\project_a",
    )
    .expect("save report");
    assert_eq!(
        plan.candidate.output_file,
        r"C:\tmp\single\tool\target\debug\runtime\selected_repo_path.txt"
    );
    assert_eq!(plan.candidate.runtime_dir, r"C:\tmp\single\tool\target\debug\runtime");
    assert_eq!(plan.candidate_count, 1);
    assert_eq!(plan.selected_startup_exe, format!("startup_exe_1={exe}"));
    assert_eq!(plan.record_body, "C:\\tmp\\single\\project_a\n");
}

#[test]
fn prefer_candidate_with_existing_selected_repo_file() {
    let exe_a = r"C:\tmp\p\a\target\debug\app_a.exe".to_string();
    let exe_b = r"C:\tmp\p\b\target\debug\app_b.exe".to_string();
    let plan = plan_selected_repo_path(
        &vec![exe_a.clone(), exe_b.clone()],
        CWD,
        &vec![facts(false, true), facts(true, true)],
        r"C:\tmp\p\project_b",
    )
    .expect("save report");
    assert_eq!(
        plan.candidate.output_file,
        r"C:\tmp\p\b\target\debug\runtime\selected_repo_path.txt"
    );
    assert!(plan.decision_summary.contains("selected_repo_path.txt 既存"));
    assert_eq!(
        plan.decision_summary,
        "score=110 [selected_repo_path.txt 既存, runtime 既存] runtime=C:\\tmp\\p\\b\\target\\debug\\runtime"
    );
    assert_eq!(plan.candidate_count, 2);
}

#[test]
fn reject_bridge_name_without_runtime() {
    let exe = "/tmp/b/codex_rollback_bridge/target/debug/codex_rollback_bridge.exe".to_string();
    let err = plan_selected_repo_path(
        &vec![exe.clone()],
        CWD,
        &vec![facts(false, false)],
        "/tmp/b/project_c",
    )
    .err()
    .expect("must fail");
    assert!(err.contains("候補が見つかりません"), "unexpected error: {err}");
}

#[test]
fn support_relative_startup_executable_path() {
    let root = r"C:\work\relative";
    let raw = r"tools\relative_tool.exe".to_string();
    assert_eq!(
        resolve_startup_executable_path(&raw, root),
        Ok(r"C:\work\relative\tools\relative_tool.exe".to_string())
    );
    let plan = plan_selected_repo_path(&vec![raw], root, &vec![facts(false, true)], r"C:\work\relative\project_d")
        .expect("save report");
    assert_eq!(
        plan.candidate.output_file,
        r"C:\work\relative\tools\runtime\selected_repo_path.txt"
    );
    assert_eq!(plan.candidate.resolved_exe_path, r"C:\work\relative\tools\relative_tool.exe");
}

#[test]
fn fail_with_rejection_summary_when_all_candidates_invalid() {
    let missing_exe = r".\missing\tool.exe".to_string();
    let err = plan_selected_repo_path(
        &vec!["".to_string(), missing_exe.clone()],
        r"C:\w",
        &vec![missing(), facts(false, false)],
        "/tmp/all_invalid/project_e",
    )
    .err()
    .expect("must fail");
    assert!(err.contains("候補数=0"), "unexpected error: {err}");
    assert!(err.contains("不採用"), "unexpected error: {err}");
    assert_eq!(
        err,
        "selected_repo_path.txt の候補が見つかりません 候補数=0 不採用: startup_exe_1: 空のパスです / startup_exe_2: runtime/selected_repo_path.txt が存在しません (C:\\w\\.\\missing\\tool.exe)"
    );
}

#[test]
fn startup_path_is_trimmed_and_unquoted() {
    assert_eq!(resolve_startup_executable_path("  \"C:\\a b\\x.exe\"  ", CWD), Ok("C:\\a b\\x.exe".to_string()));
    assert_eq!(resolve_startup_executable_path("   ", CWD), Err("空のパスです".to_string()));
    assert_eq!(resolve_startup_executable_path("\"\"", CWD), Err("空のパスです".to_string()));
}

#[test]
fn assessment_scores_and_reasons() {
    let c = assess_startup_executable(2, " C:/x/Codex_Rollback_Bridge/app.exe ", CWD, &facts(true, false))
        .ok()
        .expect("candidate");
    assert_eq!(c.source_slot, 2);
    assert_eq!(c.source_startup_exe, "C:/x/Codex_Rollback_Bridge/app.exe");
    assert_eq!(c.score, 101);
    assert_eq!(c.score_reason, "selected_repo_path.txt 既存, exe名ヒント一致");
    let no_parent = assess_startup_executable(3, r"C:\", CWD, &facts(true, true));
    assert_eq!(
        no_parent.err(),
        Some("startup_exe_3: EXE親ディレクトリを解決できません (C:\\)".to_string())
    );
    let bare = assess_startup_executable(4, "app.exe", CWD, &facts(false, true)).ok().expect("candidate");
    assert_eq!(bare.resolved_exe_path, r"C:\cwd\app.exe");
    assert_eq!(bare.runtime_dir, r"C:\cwd\runtime");
    assert_eq!(bare.output_file, r"C:\cwd\runtime\selected_repo_path.txt");
    let rooted = assess_startup_executable(5, r"\t\app.exe", CWD, &facts(false, true)).ok().expect("candidate");
    assert_eq!(rooted.resolved_exe_path, r"C:\t\app.exe");
}

#[test]
fn candidates_ranked_by_score_then_slot() {
    let raws = vec!["a".to_string(), "b".to_string(), "c".to_string(), "".to_string()];
    let fs = vec![facts(false, true), facts(true, false), facts(false, true), missing()];
    let (cands, rejected) = collect_selected_repo_path_candidates(&raws, CWD, &fs);
    let slots: Vec<usize> = cands.iter().map(|c| c.source_slot).collect();
    assert_eq!(slots, vec![2, 1, 3]);
    assert_eq!(rejected, vec!["startup_exe_4: 空のパスです".to_string()]);
}

#[test]
fn rejection_summary_counts_the_rest() {
    assert_eq!(summarize_rejected_selected_repo_candidates(&vec![]), "不採用理由なし");
    let rs: Vec<String> = (1..=5).map(|i| format!("r{i}")).collect();
    assert_eq!(summarize_rejected_selected_repo_candidates(&rs), "r1 / r2 / r3 / 他2件");
    let three: Vec<String> = (1..=3).map(|i| format!("r{i}")).collect();
    assert_eq!(summarize_rejected_selected_repo_candidates(&three), "r1 / r2 / r3");
}

#[test]
fn empty_project_folder_is_refused() {
    let exe = "/t/tool.exe".to_string();
    let err = plan_selected_repo_path(&vec![exe.clone()], CWD, &vec![facts(false, true)], "");
    assert_eq!(err.err(), Some("target_project_dir_path が空です".to_string()));
}

#[test]
fn bridge_file_follows_the_first_auto_start_executable() {
    assert_eq!(
        selected_repo_bridge_file_path("  C:\\tools\\bridge.exe "),
        Ok("C:\\tools\\runtime\\selected_repo_path.txt".to_string())
    );
    assert_eq!(
        selected_repo_bridge_file_path("D:/b/x.exe"),
        Ok("D:/b\\runtime\\selected_repo_path.txt".to_string())
    );
    assert_eq!(selected_repo_bridge_file_path("   "), Err("自動起動設定1が未設定です".to_string()));
    assert_eq!(
        selected_repo_bridge_file_path(" \\ "),
        Err("自動起動設定1の親ディレクトリを解決できません: \\".to_string())
    );
    assert_eq!(
        bridge_paths("\\x.exe"),
        Some(("\\runtime".to_string(), "\\runtime\\selected_repo_path.txt".to_string()))
    );
    assert_eq!(bridge_paths(""), None);
    assert_eq!(
        bridge_paths(r"C:\x.exe"),
        Some((r"C:\runtime".to_string(), r"C:\runtime\selected_repo_path.txt".to_string()))
    );
}

#[test]
fn every_slot_is_one_candidate_or_one_rejection() {
    let raws = vec!["".to_string(), r"D:\".to_string(), r"C:\t\y.exe".to_string(), r"C:\t\z.exe".to_string()];
    let fs = vec![missing(), facts(true, true), facts(false, false), facts(false, true)];
    let (cands, rejected) = collect_selected_repo_path_candidates(&raws, CWD, &fs);
    assert_eq!(cands.len() + rejected.len(), 4);
    assert_eq!(cands.len(), 1);
    assert_eq!(cands[0].source_slot, 4);
    assert_eq!(
        rejected,
        vec![
            "startup_exe_1: 空のパスです".to_string(),
            "startup_exe_2: EXE親ディレクトリを解決できません (D:\\)".to_string(),
            "startup_exe_3: runtime/selected_repo_path.txt が存在しません (C:\\t\\y.exe)".to_string(),
        ]
    );
    let bad = vec![missing(), facts(true, true), facts(false, false)];
    let (none, all_rejected) = collect_selected_repo_path_candidates(&raws[..3].to_vec(), CWD, &bad);
    assert!(none.is_empty());
    assert_eq!(all_rejected.len(), 3);
    for (k, line) in all_rejected.iter().enumerate() {
        assert!(line.starts_with(&format!("startup_exe_{}: ", k + 1)));
    }
}

#[test]
fn folders_of_windows_paths() {
    assert_eq!(parent_dir(r"C:\a\b.exe"), Some(r"C:\a".to_string()));
    assert_eq!(parent_dir(r"C:\b.exe"), Some("C:\\".to_string()));
    assert_eq!(parent_dir("b.exe"), Some(String::new()));
    assert_eq!(parent_dir(r"\b.exe"), Some(r"\".to_string()));
    assert_eq!(parent_dir("a/b/c.exe"), Some("a/b".to_string()));
    assert_eq!(parent_dir(r"\\"), None);
    assert_eq!(parent_dir(""), None);
}

#[test]
fn relative_paths_are_resolved_against_the_current_folder() {
    assert_eq!(resolve_path(r"C:\w", r"tools\x.exe"), r"C:\w\tools\x.exe");
    assert_eq!(resolve_path(r"C:\w\", "x.exe"), r"C:\w\x.exe");
    assert_eq!(resolve_path(r"C:\w", r"D:\x.exe"), r"D:\x.exe");
    assert_eq!(resolve_path(r"C:\w", r"\\srv\share\x.exe"), r"\\srv\share\x.exe");
    assert_eq!(resolve_path(r"C:\w", r"\x.exe"), r"C:\x.exe");
    assert_eq!(resolve_path(r"C:\w", "D:x.exe"), "D:x.exe");
    assert_eq!(parent_dir("C:"), None);
    assert_eq!(parent_dir(r"C:\"), None);
    let plan = plan_selected_repo_path(&vec![r"C:\t\a.exe".to_string()], r"C:\w", &vec![facts(false, true)], "proj")
        .expect("save report");
    assert_eq!(plan.record_body, "C:\\w\\proj\n");
}
