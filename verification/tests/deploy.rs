use base64::Engine;
use codex_keyboard_quota::deploy::{
    build_task_script, deploy_current_exe, encode_powershell, install_root, installed_exe_path,
    is_deployed, join_path, lock_path, log_path, next_deploy_step, path_is_within,
    powershell_arguments, quote_powershell, quote_xml, register_task, removal_action,
    remove_deployment, run_powershell, run_schtasks, same_path, schtasks_arguments,
    self_cleanup_script, to_utf16_bytes, DeployError, DeployStep, ProgramOutput, RemovalAction,
    StepOutcome, TaskRequest,
};

#[test]
fn escapes_powershell_single_quotes() {
    assert_eq!(quote_powershell("C:\\A'B\\tool.exe"), "C:\\A''B\\tool.exe");
}

#[test]
fn encodes_powershell_as_utf16le() {
    assert_eq!(encode_powershell("A中"), "QQAtTg==");
}

#[test]
fn escapes_task_xml_text() {
    assert_eq!(
        quote_xml("C:\\A&B<'\"\\tool.exe"),
        "C:\\A&amp;B&lt;&apos;&quot;\\tool.exe"
    );
}

#[test]
fn utf16_takes_two_units_beyond_the_first_plane() {
    for text in ["", "a", "é中", "😀x", "\u{ffff}\u{10000}\u{10ffff}"] {
        let expected: Vec<u8> = text.encode_utf16().flat_map(u16::to_le_bytes).collect();
        assert_eq!(to_utf16_bytes(text), expected);
        assert_eq!(
            encode_powershell(text),
            base64::engine::general_purpose::STANDARD.encode(expected)
        );
    }
}

#[test]
fn joins_paths_as_windows_does() {
    for (folder, path) in [
        ("C:\\Users\\a", "C:\\Users\\a\\x"),
        ("C:\\", "C:\\x"),
        ("C:", "C:x"),
        ("1:", "1:\\x"),
        ("a/", "a/x"),
        ("", "x"),
    ] {
        assert_eq!(join_path(folder, "x"), path);
    }
}

#[test]
fn places_the_files_below_the_local_data() {
    let data = Some("C:\\Users\\a\\AppData\\Local");
    let root = "C:\\Users\\a\\AppData\\Local\\Smallcat\\CodexKeyboardQuota";
    assert_eq!(install_root(data).unwrap(), root);
    assert_eq!(
        installed_exe_path(data).unwrap(),
        format!("{root}\\CodexKeyboardQuotaTool.exe")
    );
    assert_eq!(lock_path(data).unwrap(), format!("{root}\\refresh.lock"));
    assert_eq!(
        log_path(data).unwrap(),
        format!("{root}\\CodexKeyboardQuota.log")
    );
    for result in [
        install_root(None),
        installed_exe_path(None),
        lock_path(None),
        log_path(None),
    ] {
        assert_eq!(
            result.unwrap_err().message("", ""),
            "无法定位 LOCALAPPDATA"
        );
    }
    assert!(is_deployed(true, true));
    assert!(!is_deployed(true, false));
    assert!(!is_deployed(false, true));
}

#[test]
fn task_runs_every_minute_for_the_current_user() {
    let script = build_task_script("2026-01-02T03:04:05", "C:\\A&B\\t.exe", "C:\\A&B");
    let start = script.find("FromBase64String('").unwrap() + "FromBase64String('".len();
    let end = script[start..].find('\'').unwrap() + start;
    let bytes = base64::engine::general_purpose::STANDARD
        .decode(&script[start..end])
        .unwrap();
    let xml = String::from_utf8(bytes).unwrap();
    assert!(xml.starts_with("<Task version=\"1.4\""));
    assert!(xml.ends_with("</Task>"));
    for part in [
        "<Interval>PT1M</Interval>",
        "<StartBoundary>2026-01-02T03:04:05</StartBoundary>",
        "<MultipleInstancesPolicy>IgnoreNew</MultipleInstancesPolicy>",
        "<ExecutionTimeLimit>PT45S</ExecutionTimeLimit>",
        "<UserId>__CURRENT_USER_SID__</UserId>",
        "<Command>C:\\A&amp;B\\t.exe</Command><Arguments>--refresh-once</Arguments>",
        "<WorkingDirectory>C:\\A&amp;B</WorkingDirectory>",
        "每分钟检测 Codex 额度，达到阈值时刷新 DP-104",
    ] {
        assert!(xml.contains(part), "{part}");
    }
    assert!(script.starts_with("$ErrorActionPreference='Stop';$xml="));
    assert!(
        script
            .ends_with("Register-ScheduledTask -TaskName 'Codex DP-104 Quota' -Xml $xml -Force | Out-Null")
    );
}

#[test]
fn task_starts_in_one_minute() {
    let local = chrono::DateTime::from_timestamp(1_700_000_060, 0)
        .unwrap()
        .with_timezone(&chrono::Local)
        .format("%Y-%m-%dT%H:%M:%S")
        .to_string();
    assert_eq!(
        register_task(1_700_000_000, "p", "f").unwrap(),
        build_task_script(&local, "p", "f")
    );
    assert!(register_task(i64::MAX, "p", "f").is_none());
    assert!(register_task(8_210_266_876_799, "p", "f").is_none());
}

#[test]
fn cleanup_waits_for_the_program() {
    assert_eq!(
        self_cleanup_script(42, "C:\\o'b"),
        "$ErrorActionPreference='SilentlyContinue';Wait-Process -Id 42 -Timeout 30;\
         for($i=0;$i -lt 20;$i++){Remove-Item -LiteralPath 'C:\\o''b' -Recurse -Force;\
         if(-not (Test-Path -LiteralPath 'C:\\o''b')){break};Start-Sleep -Milliseconds 500}"
    );
}

#[test]
fn runs_the_system_programs_with_their_arguments() {
    assert_eq!(
        powershell_arguments("A中"),
        [
            "-NoLogo",
            "-NoProfile",
            "-NonInteractive",
            "-ExecutionPolicy",
            "Bypass",
            "-EncodedCommand",
            "QQAtTg=="
        ]
    );
    assert_eq!(
        schtasks_arguments(TaskRequest::Query),
        ["/Query", "/TN", "Codex DP-104 Quota"]
    );
    assert_eq!(
        schtasks_arguments(TaskRequest::End),
        ["/End", "/TN", "Codex DP-104 Quota"]
    );
    assert_eq!(
        schtasks_arguments(TaskRequest::Delete),
        ["/Delete", "/TN", "Codex DP-104 Quota", "/F"]
    );
}

fn output(success: bool, code: Option<i32>, stdout: &str, stderr: &str) -> ProgramOutput {
    ProgramOutput {
        success,
        code,
        stdout: stdout.to_owned(),
        stderr: stderr.to_owned(),
    }
}

#[test]
fn says_why_a_system_program_failed() {
    assert_eq!(run_schtasks(&output(true, Some(0), " ok\n", "x")).unwrap(), "ok");
    assert_eq!(
        run_schtasks(&output(false, Some(1), "out", " err ")).unwrap_err(),
        "schtasks.exe 退出码 1：err"
    );
    assert_eq!(
        run_schtasks(&output(false, Some(-5), " out ", " ")).unwrap_err(),
        "schtasks.exe 退出码 -5：out"
    );
    assert_eq!(
        run_schtasks(&output(false, None, "", "")).unwrap_err(),
        "schtasks.exe 退出码 -1：未提供错误信息"
    );
    assert_eq!(run_powershell(&output(true, None, "\u{3000}a ", "")).unwrap(), "a");
    assert_eq!(
        run_powershell(&output(false, Some(2), "out", "")).unwrap_err(),
        "PowerShell 退出码 2：未提供错误信息"
    );
}

#[test]
fn compares_paths() {
    assert!(same_path(Some(true), "a", "b"));
    assert!(!same_path(Some(false), "a", "a"));
    assert!(same_path(None, "C:\\A", "c:\\a"));
    assert!(!same_path(None, "C:\\É", "C:\\é"));
    assert!(path_is_within(Some(true)));
    assert!(!path_is_within(Some(false)));
    assert!(!path_is_within(None));
}

fn run(outcome: impl Fn(DeployStep) -> StepOutcome) -> (Vec<DeployStep>, Result<(), DeployError>) {
    let mut steps = Vec::new();
    let mut step = DeployStep::CreateFolder;
    while step != DeployStep::Finished {
        steps.push(step);
        match next_deploy_step(step, outcome(step)) {
            Ok(next) => step = next,
            Err(error) => return (steps, Err(error)),
        }
    }
    (steps, Ok(()))
}

#[test]
fn installs_step_by_step() {
    let (steps, result) = run(|_| StepOutcome::Yes);
    assert_eq!(
        steps,
        [
            DeployStep::CreateFolder,
            DeployStep::AskTask,
            DeployStep::EndTask,
            DeployStep::DeleteTask,
            DeployStep::ComparePaths,
            DeployStep::RegisterTask,
            DeployStep::ConfirmTask,
        ]
    );
    assert!(result.is_ok());
    let (steps, result) = run(|step| match step {
        DeployStep::ComparePaths => StepOutcome::No,
        DeployStep::EndTask => StepOutcome::Failed,
        _ => StepOutcome::Yes,
    });
    assert_eq!(steps.len(), 13);
    assert!(result.is_ok());
}

#[test]
fn names_the_step_that_failed() {
    for (failing, error, message) in [
        (DeployStep::CreateFolder, DeployError::Folder, "无法创建部署目录"),
        (
            DeployStep::DeleteTask,
            DeployError::ReplaceTask,
            "无法替换现有刷新任务",
        ),
        (
            DeployStep::RemoveTemporary,
            DeployError::CleanTemporary,
            "无法清理部署临时文件",
        ),
        (
            DeployStep::CopyProgram,
            DeployError::CopyProgram,
            "无法复制程序：from -> to",
        ),
        (
            DeployStep::RemoveInstalled,
            DeployError::ReplaceCopy,
            "无法替换旧部署副本",
        ),
        (
            DeployStep::EnableCopy,
            DeployError::EnableCopy,
            "无法启用新部署副本",
        ),
        (
            DeployStep::RegisterTask,
            DeployError::RegisterTask,
            "计划任务注册失败",
        ),
        (
            DeployStep::ConfirmTask,
            DeployError::TaskMissing,
            "计划任务注册命令成功，但未查询到任务 Codex DP-104 Quota",
        ),
    ] {
        let (steps, result) = run(|step| {
            if step == failing {
                StepOutcome::Failed
            } else if step == DeployStep::ComparePaths {
                StepOutcome::No
            } else {
                StepOutcome::Yes
            }
        });
        assert_eq!(*steps.last().unwrap(), failing);
        assert_eq!(result.unwrap_err(), error);
        assert_eq!(error.message("from", "to"), message);
    }
    for (error, message) in [
        (DeployError::ProgramPath, "无法获取当前程序路径"),
        (DeployError::RemoveTask, "无法移除刷新任务"),
        (DeployError::StartCleanup, "无法启动部署副本自删除程序"),
        (DeployError::RemoveFolder, "无法删除部署目录与日志"),
    ] {
        assert_eq!(error.message("", ""), message);
    }
}

#[test]
fn says_what_was_installed_and_removed() {
    assert_eq!(
        deploy_current_exe("C:\\t.exe"),
        [
            "已部署：C:\\t.exe",
            "已注册计划任务：Codex DP-104 Quota（每 1 分钟）",
            "任务禁止重叠，单次运行最长 45 秒"
        ]
    );
    for (exists, running, action, line) in [
        (
            true,
            true,
            RemovalAction::LeaveToCleanup,
            "部署副本与日志将在本窗口退出后删除",
        ),
        (
            true,
            false,
            RemovalAction::RemoveFolder,
            "已删除部署目录：root",
        ),
        (
            false,
            false,
            RemovalAction::Nothing,
            "部署目录不存在，无需删除",
        ),
        (
            false,
            true,
            RemovalAction::Nothing,
            "部署目录不存在，无需删除",
        ),
    ] {
        assert_eq!(removal_action(exists, running), action);
        let result = remove_deployment("root", exists, running);
        assert_eq!(result.exit_after_remove, running);
        assert_eq!(
            result.details,
            [
                "已移除计划任务：Codex DP-104 Quota",
                "已删除注册表额度缓存",
                line
            ]
        );
    }
}

#[test]
fn quoted_texts_read_back() {
    for text in ["", "'", "''", "a'b", "'a'", "no quote", "中'文"] {
        assert_eq!(quote_powershell(text).replace("''", "'"), text);
        let xml = quote_xml(text);
        assert!(!xml.contains(['<', '>', '"', '\'']));
    }
    assert_eq!(quote_xml("<>&\"'"), "&lt;&gt;&amp;&quot;&apos;");
}

#[test]
fn encoded_commands_differ_for_different_scripts() {
    let scripts = ["", "a", "b", "aa", "aaa", "\u{100}", "a\u{0}", "\u{6100}", "😀", "😁"];
    for (i, left) in scripts.iter().enumerate() {
        for right in &scripts[i + 1..] {
            assert_ne!(encode_powershell(left), encode_powershell(right));
        }
    }
}
