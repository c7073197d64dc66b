//! Installation for the current user: where the files go, the scheduled task that refreshes every
//! minute, the scripts that register it and clean up, and the order in which things are done.

use crate::clock::{is_calendar_time, local_time_may_be, local_time_text};
use crate::text::{
    ascii_lowered, char_replaced, chars_of, decimal, decimal_text, eq_ignore_ascii_case, is_empty,
    law_characters_are_replaced_one_by_one, lemma_char_replaced_first, lemma_char_replaced_lacks, replace_char, signed_decimal,
    signed_decimal_text, text_replaced, trim, trimmed, views,
};
use base64::Engine;
use vstd::prelude::*;
use vstd::string::*;
use vstd::utf8::encode_utf8;

verus! {

pub const TASK_NAME: &'static str = "Codex DP-104 Quota";

pub const INSTALLED_EXE_NAME: &'static str = "CodexKeyboardQuotaTool.exe";

pub const TEMPORARY_EXE_NAME: &'static str = "CodexKeyboardQuotaTool.new.exe";

pub const LOCK_NAME: &'static str = "refresh.lock";

pub const LOG_NAME: &'static str = "CodexKeyboardQuota.log";

/// Whether a text is a bare drive such as `C:`.
pub open spec fn is_drive(path: Seq<char>) -> bool {
    path.len() == 2 && ('a' <= path[0] <= 'z' || 'A' <= path[0] <= 'Z') && path[1] == ':'
}

/// Whether a path takes a name without a separator between them.
pub open spec fn takes_names(path: Seq<char>) -> bool {
    path.len() == 0 || path.last() == '\\' || path.last() == '/' || is_drive(path)
}

/// A name in a folder, as Windows joins them.
pub open spec fn joined(folder: Seq<char>, name: Seq<char>) -> Seq<char> {
    if takes_names(folder) {
        folder + name
    } else {
        folder + "\\"@ + name
    }
}

/// Joins a folder and a name.
pub fn join_path(folder: &str, name: &str) -> (path: String)
    ensures
        path@ == joined(folder@, name@),
{
    let chars = chars_of(folder);
    let length: usize = chars.len();
    let bare = length == 0 || chars[length - 1] == '\\' || chars[length - 1] == '/' || (length == 2
        && (('a' <= chars[0] && chars[0] <= 'z') || ('A' <= chars[0] && chars[0] <= 'Z'))
        && chars[1] == ':');
    let mut path = folder.to_owned();
    if !bare {
        path.append("\\");
    }
    path.append(name);
    path
}

/// The folder of the installation below the local data of the user.
pub open spec fn root_in(data: Seq<char>) -> Seq<char> {
    joined(joined(data, "Smallcat"@), "CodexKeyboardQuota"@)
}

/// Why an installation was not made or removed.
#[derive(Clone, Copy, Debug, PartialEq, Eq)]
pub enum DeployError {
    NoDataFolder,
    ProgramPath,
    Folder,
    ReplaceTask,
    CleanTemporary,
    CopyProgram,
    ReplaceCopy,
    EnableCopy,
    RegisterTask,
    TaskMissing,
    RemoveTask,
    StartCleanup,
    RemoveFolder,
}

impl DeployError {
    /// The message for an error; only a failed copy names the program and its temporary place.
    pub open spec fn described(self, source: Seq<char>, temporary: Seq<char>) -> Seq<char> {
        match self {
            DeployError::NoDataFolder => "无法定位 LOCALAPPDATA"@,
            DeployError::ProgramPath => "无法获取当前程序路径"@,
            DeployError::Folder => "无法创建部署目录"@,
            DeployError::ReplaceTask => "无法替换现有刷新任务"@,
            DeployError::CleanTemporary => "无法清理部署临时文件"@,
            DeployError::CopyProgram => "无法复制程序："@ + source + " -> "@ + temporary,
            DeployError::ReplaceCopy => "无法替换旧部署副本"@,
            DeployError::EnableCopy => "无法启用新部署副本"@,
            DeployError::RegisterTask => "计划任务注册失败"@,
            DeployError::TaskMissing => "计划任务注册命令成功，但未查询到任务 "@ + TASK_NAME@,
            DeployError::RemoveTask => "无法移除刷新任务"@,
            DeployError::StartCleanup => "无法启动部署副本自删除程序"@,
            DeployError::RemoveFolder => "无法删除部署目录与日志"@,
        }
    }

    /// The error as a message.
    pub fn message(&self, source: &str, temporary: &str) -> (text: String)
        ensures
            text@ == self.described(source@, temporary@),
    {
        match self {
            DeployError::NoDataFolder => "无法定位 LOCALAPPDATA".to_owned(),
            DeployError::ProgramPath => "无法获取当前程序路径".to_owned(),
            DeployError::Folder => "无法创建部署目录".to_owned(),
            DeployError::ReplaceTask => "无法替换现有刷新任务".to_owned(),
            DeployError::CleanTemporary => "无法清理部署临时文件".to_owned(),
            DeployError::CopyProgram => {
                let mut text = "无法复制程序：".to_owned();
                text.append(source);
                text.append(" -> ");
                text.append(temporary);
                text
            },
            DeployError::ReplaceCopy => "无法替换旧部署副本".to_owned(),
            DeployError::EnableCopy => "无法启用新部署副本".to_owned(),
            DeployError::RegisterTask => "计划任务注册失败".to_owned(),
            DeployError::TaskMissing => {
                let mut text = "计划任务注册命令成功，但未查询到任务 ".to_owned();
                text.append(TASK_NAME);
                text
            },
            DeployError::RemoveTask => "无法移除刷新任务".to_owned(),
            DeployError::StartCleanup => "无法启动部署副本自删除程序".to_owned(),
            DeployError::RemoveFolder => "无法删除部署目录与日志".to_owned(),
        }
    }
}

/// The folder of the installation, given the local data folder of the user.
pub fn install_root(data: Option<&str>) -> (root: Result<String, DeployError>)
    ensures
        match data {
            Some(folder) => root matches Ok(path) && path@ == root_in(folder@),
            None => root == Err::<String, DeployError>(DeployError::NoDataFolder),
        },
{
    match data {
        Some(folder) => {
            let vendor = join_path(folder, "Smallcat");
            Ok(join_path(vendor.as_str(), "CodexKeyboardQuota"))
        },
        None => Err(DeployError::NoDataFolder),
    }
}

/// The program that the scheduled task runs.
pub fn installed_exe_path(data: Option<&str>) -> (path: Result<String, DeployError>)
    ensures
        match data {
            Some(folder) => path matches Ok(file) && file@ == joined(
                root_in(folder@),
                INSTALLED_EXE_NAME@,
            ),
            None => path == Err::<String, DeployError>(DeployError::NoDataFolder),
        },
{
    match install_root(data) {
        Ok(root) => Ok(join_path(root.as_str(), INSTALLED_EXE_NAME)),
        Err(error) => Err(error),
    }
}

/// The file that keeps refreshes from running at the same time.
pub fn lock_path(data: Option<&str>) -> (path: Result<String, DeployError>)
    ensures
        match data {
            Some(folder) => path matches Ok(file) && file@ == joined(root_in(folder@), LOCK_NAME@),
            None => path == Err::<String, DeployError>(DeployError::NoDataFolder),
        },
{
    match install_root(data) {
        Ok(root) => Ok(join_path(root.as_str(), LOCK_NAME)),
        Err(error) => Err(error),
    }
}

/// The log of errors and writes.
pub fn log_path(data: Option<&str>) -> (path: Result<String, DeployError>)
    ensures
        match data {
            Some(folder) => path matches Ok(file) && file@ == joined(root_in(folder@), LOG_NAME@),
            None => path == Err::<String, DeployError>(DeployError::NoDataFolder),
        },
{
    match install_root(data) {
        Ok(root) => Ok(join_path(root.as_str(), LOG_NAME)),
        Err(error) => Err(error),
    }
}

/// Whether a program and a task make an installation.
pub open spec fn counts_as_deployed(program_present: bool, task_present: bool) -> bool {
    program_present && task_present
}

/// Whether the tool is installed: both the program and the task have to be there.
pub fn is_deployed(program_present: bool, task_present: bool) -> (deployed: bool)
    ensures
        deployed == counts_as_deployed(program_present, task_present),
{
    program_present && task_present
}

/// A text for between single quotes of PowerShell.
pub open spec fn powershell_quoted(text: Seq<char>) -> Seq<char> {
    char_replaced(text, '\'', "''"@)
}

/// Doubles the single quotes of a text.
pub fn quote_powershell(text: &str) -> (quoted: String)
    ensures
        quoted@ == powershell_quoted(text@),
{
    replace_char(text, '\'', "''")
}

/// A text for the content of an XML element.
pub open spec fn xml_quoted(text: Seq<char>) -> Seq<char> {
    let ampersands = char_replaced(text, '&', "&amp;"@);
    let lesser = char_replaced(ampersands, '<', "&lt;"@);
    let greater = char_replaced(lesser, '>', "&gt;"@);
    let quotes = char_replaced(greater, '"', "&quot;"@);
    char_replaced(quotes, '\'', "&apos;"@)
}

/// Escapes the characters that XML reserves.
pub fn quote_xml(text: &str) -> (quoted: String)
    ensures
        quoted@ == xml_quoted(text@),
{
    let ampersands = replace_char(text, '&', "&amp;");
    let lesser = replace_char(ampersands.as_str(), '<', "&lt;");
    let greater = replace_char(lesser.as_str(), '>', "&gt;");
    let quotes = replace_char(greater.as_str(), '"', "&quot;");
    replace_char(quotes.as_str(), '\'', "&apos;")
}

/// The digit of base 64 for a value below 64.
pub open spec fn base64_digit(value: int) -> char {
    if value < 26 {
        ('A' as int + value) as char
    } else if value < 52 {
        ('a' as int + value - 26) as char
    } else if value < 62 {
        ('0' as int + value - 52) as char
    } else if value == 62 {
        '+'
    } else {
        '/'
    }
}

/// The value of a byte.
pub open spec fn byte(bytes: Seq<u8>, index: int) -> int {
    bytes[index] as int
}

/// Bytes in base 64: three bytes make four digits, and a shorter rest is filled up with `=`.
pub open spec fn base64_of(bytes: Seq<u8>) -> Seq<char>
    decreases bytes.len(),
{
    if bytes.len() == 0 {
        Seq::empty()
    } else if bytes.len() == 1 {
        seq![base64_digit(byte(bytes, 0) / 4), base64_digit(byte(bytes, 0) % 4 * 16), '=', '=']
    } else if bytes.len() == 2 {
        seq![
            base64_digit(byte(bytes, 0) / 4),
            base64_digit(byte(bytes, 0) % 4 * 16 + byte(bytes, 1) / 16),
            base64_digit(byte(bytes, 1) % 16 * 4),
            '=',
        ]
    } else {
        seq![
            base64_digit(byte(bytes, 0) / 4),
            base64_digit(byte(bytes, 0) % 4 * 16 + byte(bytes, 1) / 16),
            base64_digit(byte(bytes, 1) % 16 * 4 + byte(bytes, 2) / 64),
            base64_digit(byte(bytes, 2) % 64),
        ] + base64_of(bytes.skip(3))
    }
}

/// `Engine::encode` of base64's `STANDARD` engine: the usual alphabet, filled up with `=`.
#[verifier::external_body]
fn encode_base64(bytes: &[u8]) -> (text: String)
    ensures
        text@ == base64_of(bytes@),
{
    base64::engine::general_purpose::STANDARD.encode(bytes)
}

/// A unit of UTF-16 as two bytes, the lower one first.
pub open spec fn unit_bytes(unit: int) -> Seq<u8> {
    seq![(unit % 256) as u8, (unit / 256) as u8]
}

/// A character in UTF-16: one unit, or two beyond the first 65536.
pub open spec fn utf16_char(c: char) -> Seq<u8> {
    if (c as int) < 0x1_0000 {
        unit_bytes(c as int)
    } else {
        unit_bytes(0xd800 + (c as int - 0x1_0000) / 1024) + unit_bytes(
            0xdc00 + (c as int - 0x1_0000) % 1024,
        )
    }
}

/// A text in UTF-16 with the lower byte first.
pub open spec fn utf16_bytes(text: Seq<char>) -> Seq<u8>
    decreases text.len(),
{
    if text.len() == 0 {
        Seq::empty()
    } else {
        utf16_bytes(text.drop_last()) + utf16_char(text.last())
    }
}

fn push_unit(bytes: &mut Vec<u8>, unit: u32)
    requires
        unit < 0x1_0000,
    ensures
        final(bytes)@ == old(bytes)@ + unit_bytes(unit as int),
{
    let ghost before = bytes@;
    bytes.push((unit % 256) as u8);
    bytes.push((unit / 256) as u8);
    assert(bytes@ =~= before + unit_bytes(unit as int));
}

fn push_utf16(bytes: &mut Vec<u8>, c: char)
    ensures
        final(bytes)@ == old(bytes)@ + utf16_char(c),
{
    let code: u32 = c as u32;
    if code < 0x1_0000 {
        push_unit(bytes, code);
    } else {
        let ghost before = bytes@;
        push_unit(bytes, 0xd800 + (code - 0x1_0000) / 1024);
        push_unit(bytes, 0xdc00 + (code - 0x1_0000) % 1024);
        assert(bytes@ =~= before + utf16_char(c));
    }
}

/// Encodes a text in UTF-16 with the lower byte first.
pub fn to_utf16_bytes(text: &str) -> (bytes: Vec<u8>)
    ensures
        bytes@ == utf16_bytes(text@),
{
    let chars = chars_of(text);
    let mut bytes: Vec<u8> = Vec::new();
    assert(text@.take(0) =~= Seq::empty());
    assert(bytes@ =~= utf16_bytes(text@.take(0)));
    for i in 0..chars.len()
        invariant
            chars@ == text@,
            bytes@ == utf16_bytes(text@.take(i as int)),
    {
        let ghost front = text@.take(i + 1);
        assert(front.drop_last() =~= text@.take(i as int));
        push_utf16(&mut bytes, chars[i]);
    }
    assert(text@.take(text@.len() as int) =~= text@);
    bytes
}

/// A script in the form that `-EncodedCommand` takes.
pub fn encode_powershell(script: &str) -> (encoded: String)
    ensures
        encoded@ == base64_of(utf16_bytes(script@)),
{
    let bytes = to_utf16_bytes(script);
    encode_base64(bytes.as_slice())
}

/// The arguments with which PowerShell runs a script.
pub fn powershell_arguments(script: &str) -> (arguments: Vec<String>)
    ensures
        views(arguments@) == seq![
            "-NoLogo"@,
            "-NoProfile"@,
            "-NonInteractive"@,
            "-ExecutionPolicy"@,
            "Bypass"@,
            "-EncodedCommand"@,
            base64_of(utf16_bytes(script@)),
        ],
{
    let arguments: Vec<String> = vec![
        "-NoLogo".to_owned(),
        "-NoProfile".to_owned(),
        "-NonInteractive".to_owned(),
        "-ExecutionPolicy".to_owned(),
        "Bypass".to_owned(),
        "-EncodedCommand".to_owned(),
        encode_powershell(script),
    ];
    assert(views(arguments@) =~= seq![
        "-NoLogo"@,
        "-NoProfile"@,
        "-NonInteractive"@,
        "-ExecutionPolicy"@,
        "Bypass"@,
        "-EncodedCommand"@,
        base64_of(utf16_bytes(script@)),
    ]);
    arguments
}

pub const TASK_BEFORE_START: &'static str =
    "<Task version=\"1.4\" xmlns=\"http://schemas.microsoft.com/windows/2004/02/mit/task\">\n  <RegistrationInfo><Description>每分钟检测 Codex 额度，达到阈值时刷新 DP-104</Description></RegistrationInfo>\n  <Triggers>\n    <TimeTrigger>\n      <Repetition><Interval>PT1M</Interval><StopAtDurationEnd>false</StopAtDurationEnd></Repetition>\n      <StartBoundary>";

pub const TASK_BEFORE_COMMAND: &'static str =
    "</StartBoundary><Enabled>true</Enabled>\n    </TimeTrigger>\n  </Triggers>\n  <Principals>\n    <Principal id=\"Author\"><UserId>__CURRENT_USER_SID__</UserId><LogonType>InteractiveToken</LogonType><RunLevel>LeastPrivilege</RunLevel></Principal>\n  </Principals>\n  <Settings>\n    <MultipleInstancesPolicy>IgnoreNew</MultipleInstancesPolicy>\n    <DisallowStartIfOnBatteries>false</DisallowStartIfOnBatteries>\n    <StopIfGoingOnBatteries>false</StopIfGoingOnBatteries>\n    <AllowHardTerminate>true</AllowHardTerminate>\n    <StartWhenAvailable>true</StartWhenAvailable>\n    <RunOnlyIfNetworkAvailable>false</RunOnlyIfNetworkAvailable>\n    <IdleSettings><StopOnIdleEnd>true</StopOnIdleEnd><RestartOnIdle>false</RestartOnIdle></IdleSettings>\n    <AllowStartOnDemand>true</AllowStartOnDemand><Enabled>true</Enabled><Hidden>true</Hidden>\n    <RunOnlyIfIdle>false</RunOnlyIfIdle><WakeToRun>false</WakeToRun>\n    <ExecutionTimeLimit>PT45S</ExecutionTimeLimit><Priority>7</Priority>\n  </Settings>\n  <Actions Context=\"Author\">\n    <Exec><Command>";

pub const TASK_BEFORE_FOLDER: &'static str =
    "</Command><Arguments>--refresh-once</Arguments><WorkingDirectory>";

pub const TASK_END: &'static str =
    "</WorkingDirectory></Exec>\n  </Actions>\n</Task>";

/// The definition of the scheduled task: every minute from a start, never twice at a time, for at
/// most 45 seconds, hidden.
pub open spec fn task_xml(start: Seq<char>, program: Seq<char>, folder: Seq<char>) -> Seq<char> {
    TASK_BEFORE_START@ + start + TASK_BEFORE_COMMAND@ + xml_quoted(program) + TASK_BEFORE_FOLDER@
        + xml_quoted(folder) + TASK_END@
}

fn build_task_xml(start: &str, program: &str, folder: &str) -> (xml: String)
    ensures
        xml@ == task_xml(start@, program@, folder@),
{
    let mut xml = TASK_BEFORE_START.to_owned();
    xml.append(start);
    xml.append(TASK_BEFORE_COMMAND);
    xml.append(quote_xml(program).as_str());
    xml.append(TASK_BEFORE_FOLDER);
    xml.append(quote_xml(folder).as_str());
    xml.append(TASK_END);
    xml
}

/// The script that registers the task for the current user.
pub open spec fn task_script(start: Seq<char>, program: Seq<char>, folder: Seq<char>) -> Seq<char> {
    "$ErrorActionPreference='Stop';$xml=[Text.Encoding]::UTF8.GetString([Convert]::FromBase64String('"@
        + base64_of(encode_utf8(task_xml(start, program, folder)))
        + "'));$sid=[System.Security.Principal.WindowsIdentity]::GetCurrent().User.Value;$xml=$xml.Replace('__CURRENT_USER_SID__',$sid);Register-ScheduledTask -TaskName '"@
        + powershell_quoted(TASK_NAME@) + "' -Xml $xml -Force | Out-Null"@
}

/// Builds the script that registers the task to start at a time.
pub fn build_task_script(start: &str, program: &str, folder: &str) -> (script: String)
    ensures
        script@ == task_script(start@, program@, folder@),
{
    let xml = build_task_xml(start, program, folder);
    let mut script =
        "$ErrorActionPreference='Stop';$xml=[Text.Encoding]::UTF8.GetString([Convert]::FromBase64String('".to_owned();
    script.append(encode_base64(xml.as_str().as_bytes()).as_str());
    script.append(
        "'));$sid=[System.Security.Principal.WindowsIdentity]::GetCurrent().User.Value;$xml=$xml.Replace('__CURRENT_USER_SID__',$sid);Register-ScheduledTask -TaskName '",
    );
    script.append(quote_powershell(TASK_NAME).as_str());
    script.append("' -Xml $xml -Force | Out-Null");
    script
}

/// Whether a script registers the task to start in one minute.
pub open spec fn is_registration(
    script: Option<String>,
    now: i64,
    program: Seq<char>,
    folder: Seq<char>,
) -> bool {
    match script {
        Some(text) => now + 60 <= i64::MAX && is_calendar_time((now + 60) as i64) && exists|
            start: Seq<char>,
        |
            local_time_may_be((now + 60) as i64, "%Y-%m-%dT%H:%M:%S"@, start) && text@
                == #[trigger] task_script(start, program, folder),
        None => now + 60 > i64::MAX || !is_calendar_time((now + 60) as i64),
    }
}

/// Builds the script that registers the task to start in one minute; `None` where that time is
/// beyond the calendar.
pub fn register_task(now: i64, program: &str, folder: &str) -> (script: Option<String>)
    ensures
        is_registration(script, now, program@, folder@),
{
    if now > i64::MAX - 60 {
        return None;
    }
    match local_time_text(now + 60, "%Y-%m-%dT%H:%M:%S") {
        Some(start) => Some(build_task_script(start.as_str(), program, folder)),
        None => None,
    }
}

/// The script that waits for a process to end and then removes a folder.
pub open spec fn cleanup_script(process_id: nat, root: Seq<char>) -> Seq<char> {
    "$ErrorActionPreference='SilentlyContinue';Wait-Process -Id "@ + decimal(process_id)
        + " -Timeout 30;for($i=0;$i -lt 20;$i++){Remove-Item -LiteralPath '"@ + powershell_quoted(
        root,
    ) + "' -Recurse -Force;if(-not (Test-Path -LiteralPath '"@ + powershell_quoted(root)
        + "')){break};Start-Sleep -Milliseconds 500}"@
}

/// Builds the script that waits for a process to end and then removes a folder.
pub fn self_cleanup_script(process_id: u32, root: &str) -> (script: String)
    ensures
        script@ == cleanup_script(process_id as nat, root@),
{
    let quoted = quote_powershell(root);
    let mut script = "$ErrorActionPreference='SilentlyContinue';Wait-Process -Id ".to_owned();
    script.append(decimal_text(process_id as u64).as_str());
    script.append(" -Timeout 30;for($i=0;$i -lt 20;$i++){Remove-Item -LiteralPath '");
    script.append(quoted.as_str());
    script.append("' -Recurse -Force;if(-not (Test-Path -LiteralPath '");
    script.append(quoted.as_str());
    script.append("')){break};Start-Sleep -Milliseconds 500}");
    script
}

/// What `schtasks.exe` is asked to do with the task.
#[derive(Clone, Copy, Debug, PartialEq, Eq)]
pub enum TaskRequest {
    Query,
    End,
    Delete,
}

/// The arguments of `schtasks.exe` for a request.
pub open spec fn task_request_arguments(request: TaskRequest) -> Seq<Seq<char>> {
    match request {
        TaskRequest::Query => seq!["/Query"@, "/TN"@, TASK_NAME@],
        TaskRequest::End => seq!["/End"@, "/TN"@, TASK_NAME@],
        TaskRequest::Delete => seq!["/Delete"@, "/TN"@, TASK_NAME@, "/F"@],
    }
}

/// Lists the arguments of `schtasks.exe` for a request.
pub fn schtasks_arguments(request: TaskRequest) -> (arguments: Vec<String>)
    ensures
        views(arguments@) == task_request_arguments(request),
{
    let arguments: Vec<String> = match request {
        TaskRequest::Query => vec!["/Query".to_owned(), "/TN".to_owned(), TASK_NAME.to_owned()],
        TaskRequest::End => vec!["/End".to_owned(), "/TN".to_owned(), TASK_NAME.to_owned()],
        TaskRequest::Delete => vec![
            "/Delete".to_owned(),
            "/TN".to_owned(),
            TASK_NAME.to_owned(),
            "/F".to_owned(),
        ],
    };
    assert(views(arguments@) =~= task_request_arguments(request));
    arguments
}

/// How a program that was run ended.
#[derive(Debug)]
pub struct ProgramOutput {
    pub success: bool,
    pub code: Option<i32>,
    pub stdout: String,
    pub stderr: String,
}

/// The exit code of a program, -1 where it has none.
pub open spec fn exit_code(output: ProgramOutput) -> int {
    match output.code {
        Some(code) => code as int,
        None => -1,
    }
}

/// A complaint, or that there is none.
pub open spec fn complaint_or_none(text: Seq<char>) -> Seq<char> {
    if text.len() == 0 {
        "未提供错误信息"@
    } else {
        text
    }
}

/// What `schtasks.exe` complained of: its errors, or else its output.
pub open spec fn schtasks_complaint(output: ProgramOutput) -> Seq<char> {
    if trimmed(output.stderr@).len() == 0 {
        trimmed(output.stdout@)
    } else {
        trimmed(output.stderr@)
    }
}

fn failure_text(program: &str, output: &ProgramOutput, complaint: &str) -> (text: String)
    ensures
        text@ == program@ + " 退出码 "@ + signed_decimal(exit_code(*output)) + "："@
            + complaint_or_none(complaint@),
{
    let code: i64 = match output.code {
        Some(code) => code as i64,
        None => -1,
    };
    let mut text = program.to_owned();
    text.append(" 退出码 ");
    text.append(signed_decimal_text(code).as_str());
    text.append("：");
    if is_empty(complaint) {
        text.append("未提供错误信息");
    } else {
        text.append(complaint);
    }
    text
}

/// Judges a run of `schtasks.exe`: its output, or a message on why it failed.
pub fn run_schtasks(output: &ProgramOutput) -> (result: Result<String, String>)
    ensures
        match result {
            Ok(text) => output.success && text@ == trimmed(output.stdout@),
            Err(message) => !output.success && message@ == "schtasks.exe"@ + " 退出码 "@
                + signed_decimal(exit_code(*output)) + "："@ + complaint_or_none(
                schtasks_complaint(*output),
            ),
        },
{
    let stdout = trim(output.stdout.as_str());
    if output.success {
        return Ok(stdout);
    }
    let stderr = trim(output.stderr.as_str());
    if is_empty(stderr.as_str()) {
        Err(failure_text("schtasks.exe", output, stdout.as_str()))
    } else {
        Err(failure_text("schtasks.exe", output, stderr.as_str()))
    }
}

/// Judges a run of PowerShell: its output, or a message on why it failed.
pub fn run_powershell(output: &ProgramOutput) -> (result: Result<String, String>)
    ensures
        match result {
            Ok(text) => output.success && text@ == trimmed(output.stdout@),
            Err(message) => !output.success && message@ == "PowerShell"@ + " 退出码 "@
                + signed_decimal(exit_code(*output)) + "："@ + complaint_or_none(
                trimmed(output.stderr@),
            ),
        },
{
    if output.success {
        return Ok(trim(output.stdout.as_str()));
    }
    let stderr = trim(output.stderr.as_str());
    Err(failure_text("PowerShell", output, stderr.as_str()))
}

/// Whether two paths count as one file.
pub open spec fn names_one_file(
    true_paths_equal: Option<bool>,
    left: Seq<char>,
    right: Seq<char>,
) -> bool {
    match true_paths_equal {
        Some(equal) => equal,
        None => ascii_lowered(left) == ascii_lowered(right),
    }
}

/// Whether two paths name one file: by their true paths where both are known, or else by their
/// texts, letters in either case.
pub fn same_path(true_paths_equal: Option<bool>, left: &str, right: &str) -> (same: bool)
    ensures
        same == names_one_file(true_paths_equal, left@, right@),
{
    match true_paths_equal {
        Some(equal) => equal,
        None => eq_ignore_ascii_case(left, right),
    }
}

/// Whether a path lies in a folder; not where a true path is unknown.
pub fn path_is_within(true_path_within: Option<bool>) -> (within: bool)
    ensures
        within == (true_path_within == Some(true)),
{
    match true_path_within {
        Some(inside) => inside,
        None => false,
    }
}

/// A step of the installation.
#[derive(Clone, Copy, Debug, PartialEq, Eq)]
pub enum DeployStep {
    CreateFolder,
    AskTask,
    EndTask,
    DeleteTask,
    ComparePaths,
    AskTemporary,
    RemoveTemporary,
    CopyProgram,
    AskInstalled,
    RemoveInstalled,
    EnableCopy,
    RegisterTask,
    ConfirmTask,
    Finished,
}

/// What came of a step.
#[derive(Clone, Copy, Debug, PartialEq, Eq)]
pub enum StepOutcome {
    Done,
    Yes,
    No,
    Failed,
}

/// The step that follows. A running task is ended and deleted first; the program is copied to a
/// temporary place before the installed one is touched; the task is registered last and looked for.
pub open spec fn step_after(step: DeployStep, outcome: StepOutcome) -> Result<
    DeployStep,
    DeployError,
> {
    let failed = outcome == StepOutcome::Failed;
    let yes = outcome == StepOutcome::Yes;
    match step {
        DeployStep::CreateFolder => if failed {
            Err(DeployError::Folder)
        } else {
            Ok(DeployStep::AskTask)
        },
        DeployStep::AskTask => if yes {
            Ok(DeployStep::EndTask)
        } else {
            Ok(DeployStep::ComparePaths)
        },
        DeployStep::EndTask => Ok(DeployStep::DeleteTask),
        DeployStep::DeleteTask => if failed {
            Err(DeployError::ReplaceTask)
        } else {
            Ok(DeployStep::ComparePaths)
        },
        DeployStep::ComparePaths => if yes {
            Ok(DeployStep::RegisterTask)
        } else {
            Ok(DeployStep::AskTemporary)
        },
        DeployStep::AskTemporary => if yes {
            Ok(DeployStep::RemoveTemporary)
        } else {
            Ok(DeployStep::CopyProgram)
        },
        DeployStep::RemoveTemporary => if failed {
            Err(DeployError::CleanTemporary)
        } else {
            Ok(DeployStep::CopyProgram)
        },
        DeployStep::CopyProgram => if failed {
            Err(DeployError::CopyProgram)
        } else {
            Ok(DeployStep::AskInstalled)
        },
        DeployStep::AskInstalled => if yes {
            Ok(DeployStep::RemoveInstalled)
        } else {
            Ok(DeployStep::EnableCopy)
        },
        DeployStep::RemoveInstalled => if failed {
            Err(DeployError::ReplaceCopy)
        } else {
            Ok(DeployStep::EnableCopy)
        },
        DeployStep::EnableCopy => if failed {
            Err(DeployError::EnableCopy)
        } else {
            Ok(DeployStep::RegisterTask)
        },
        DeployStep::RegisterTask => if failed {
            Err(DeployError::RegisterTask)
        } else {
            Ok(DeployStep::ConfirmTask)
        },
        DeployStep::ConfirmTask => if yes {
            Ok(DeployStep::Finished)
        } else {
            Err(DeployError::TaskMissing)
        },
        DeployStep::Finished => Ok(DeployStep::Finished),
    }
}

/// Chooses the step that follows.
pub fn next_deploy_step(step: DeployStep, outcome: StepOutcome) -> (next: Result<
    DeployStep,
    DeployError,
>)
    ensures
        next == step_after(step, outcome),
{
    let failed = match outcome {
        StepOutcome::Failed => true,
        _ => false,
    };
    let yes = match outcome {
        StepOutcome::Yes => true,
        _ => false,
    };
    match step {
        DeployStep::CreateFolder => if failed {
            Err(DeployError::Folder)
        } else {
            Ok(DeployStep::AskTask)
        },
        DeployStep::AskTask => if yes {
            Ok(DeployStep::EndTask)
        } else {
            Ok(DeployStep::ComparePaths)
        },
        DeployStep::EndTask => Ok(DeployStep::DeleteTask),
        DeployStep::DeleteTask => if failed {
            Err(DeployError::ReplaceTask)
        } else {
            Ok(DeployStep::ComparePaths)
        },
        DeployStep::ComparePaths => if yes {
            Ok(DeployStep::RegisterTask)
        } else {
            Ok(DeployStep::AskTemporary)
        },
        DeployStep::AskTemporary => if yes {
            Ok(DeployStep::RemoveTemporary)
        } else {
            Ok(DeployStep::CopyProgram)
        },
        DeployStep::RemoveTemporary => if failed {
            Err(DeployError::CleanTemporary)
        } else {
            Ok(DeployStep::CopyProgram)
        },
        DeployStep::CopyProgram => if failed {
            Err(DeployError::CopyProgram)
        } else {
            Ok(DeployStep::AskInstalled)
        },
        DeployStep::AskInstalled => if yes {
            Ok(DeployStep::RemoveInstalled)
        } else {
            Ok(DeployStep::EnableCopy)
        },
        DeployStep::RemoveInstalled => if failed {
            Err(DeployError::ReplaceCopy)
        } else {
            Ok(DeployStep::EnableCopy)
        },
        DeployStep::EnableCopy => if failed {
            Err(DeployError::EnableCopy)
        } else {
            Ok(DeployStep::RegisterTask)
        },
        DeployStep::RegisterTask => if failed {
            Err(DeployError::RegisterTask)
        } else {
            Ok(DeployStep::ConfirmTask)
        },
        DeployStep::ConfirmTask => if yes {
            Ok(DeployStep::Finished)
        } else {
            Err(DeployError::TaskMissing)
        },
        DeployStep::Finished => Ok(DeployStep::Finished),
    }
}

/// Says what an installation did.
pub fn deploy_current_exe(program: &str) -> (details: Vec<String>)
    ensures
        views(details@) == seq![
            "已部署："@ + program@,
            "已注册计划任务："@ + TASK_NAME@ + "（每 1 分钟）"@,
            "任务禁止重叠，单次运行最长 45 秒"@,
        ],
{
    let mut first = "已部署：".to_owned();
    first.append(program);
    let mut second = "已注册计划任务：".to_owned();
    second.append(TASK_NAME);
    second.append("（每 1 分钟）");
    let details: Vec<String> = vec![first, second, "任务禁止重叠，单次运行最长 45 秒".to_owned()];
    assert(views(details@) =~= seq![
        "已部署："@ + program@,
        "已注册计划任务："@ + TASK_NAME@ + "（每 1 分钟）"@,
        "任务禁止重叠，单次运行最长 45 秒"@,
    ]);
    details
}

/// What a removal came to. A program that runs from the installation has to end before its own
/// folder can go.
#[derive(Debug)]
pub struct RemovalResult {
    pub exit_after_remove: bool,
    pub details: Vec<String>,
}

/// What to do about the folder of the installation.
#[derive(Clone, Copy, Debug, PartialEq, Eq)]
pub enum RemovalAction {
    LeaveToCleanup,
    RemoveFolder,
    Nothing,
}

pub open spec fn removal_of(root_exists: bool, running_from_install: bool) -> RemovalAction {
    if !root_exists {
        RemovalAction::Nothing
    } else if running_from_install {
        RemovalAction::LeaveToCleanup
    } else {
        RemovalAction::RemoveFolder
    }
}

/// Decides what to do about the folder of the installation.
pub fn removal_action(root_exists: bool, running_from_install: bool) -> (action: RemovalAction)
    ensures
        action == removal_of(root_exists, running_from_install),
{
    if !root_exists {
        RemovalAction::Nothing
    } else if running_from_install {
        RemovalAction::LeaveToCleanup
    } else {
        RemovalAction::RemoveFolder
    }
}

/// What is said of the folder.
pub open spec fn removal_text(action: RemovalAction, root: Seq<char>) -> Seq<char> {
    match action {
        RemovalAction::LeaveToCleanup => "部署副本与日志将在本窗口退出后删除"@,
        RemovalAction::RemoveFolder => "已删除部署目录："@ + root,
        RemovalAction::Nothing => "部署目录不存在，无需删除"@,
    }
}

/// Says what a removal did.
pub fn remove_deployment(root: &str, root_exists: bool, running_from_install: bool) -> (result:
    RemovalResult)
    ensures
        result.exit_after_remove == running_from_install,
        views(result.details@) == seq![
            "已移除计划任务："@ + TASK_NAME@,
            "已删除注册表额度缓存"@,
            removal_text(removal_of(root_exists, running_from_install), root@),
        ],
{
    let mut first = "已移除计划任务：".to_owned();
    first.append(TASK_NAME);
    let last = match removal_action(root_exists, running_from_install) {
        RemovalAction::LeaveToCleanup => "部署副本与日志将在本窗口退出后删除".to_owned(),
        RemovalAction::RemoveFolder => {
            let mut text = "已删除部署目录：".to_owned();
            text.append(root);
            text
        },
        RemovalAction::Nothing => "部署目录不存在，无需删除".to_owned(),
    };
    let details: Vec<String> = vec![first, "已删除注册表额度缓存".to_owned(), last];
    assert(views(details@) =~= seq![
        "已移除计划任务："@ + TASK_NAME@,
        "已删除注册表额度缓存"@,
        removal_text(removal_of(root_exists, running_from_install), root@),
    ]);
    RemovalResult { exit_after_remove: running_from_install, details }
}

/// A text that is quoted for PowerShell reads back as it was: doubled quotes stand for single ones,
/// and none is left over to end the text.
pub proof fn law_quoted_text_reads_back(text: Seq<char>)
    ensures
        text_replaced(powershell_quoted(text), "''"@, "'"@) == text,
    decreases text.len(),
{
    reveal_strlit("''");
    reveal_strlit("'");
    let pair = "''"@;
    let quoted = powershell_quoted(text);
    assert(pair =~= seq!['\'', '\'']);
    if text.len() == 0 {
        assert(quoted =~= Seq::empty());
    } else {
        let rest = text.drop_first();
        lemma_char_replaced_first(text, '\'', pair);
        law_quoted_text_reads_back(rest);
        if text[0] == '\'' {
            assert(quoted.take(2) =~= pair);
            assert(quoted.skip(2) =~= powershell_quoted(rest));
            assert(text =~= "'"@ + rest);
        } else {
            assert(quoted[0] == text[0]);
            assert(quoted.skip(1) =~= powershell_quoted(rest));
            if quoted.len() >= 2 {
                assert(quoted.take(2)[0] != pair[0]);
            } else {
                assert(powershell_quoted(rest) =~= Seq::empty());
                if rest.len() > 0 {
                    lemma_char_replaced_first(rest, '\'', pair);
                    assert(powershell_quoted(rest).len() > 0);
                }
                assert(quoted =~= text);
            }
            assert(text =~= seq![text[0]] + rest);
        }
    }
}

/// A text that is escaped for XML holds none of the characters that could end an element or a
/// quotation.
pub proof fn law_escaped_text_holds_no_markup(text: Seq<char>, c: char)
    requires
        c == '<' || c == '>' || c == '"' || c == '\'',
    ensures
        !xml_quoted(text).contains(c),
{
    reveal_strlit("&amp;");
    reveal_strlit("&lt;");
    reveal_strlit("&gt;");
    reveal_strlit("&quot;");
    reveal_strlit("&apos;");
    let ampersands = char_replaced(text, '&', "&amp;"@);
    let lesser = char_replaced(ampersands, '<', "&lt;"@);
    let greater = char_replaced(lesser, '>', "&gt;"@);
    let quotes = char_replaced(greater, '"', "&quot;"@);
    if c == '<' {
        lemma_char_replaced_lacks(ampersands, '<', "&lt;"@, c);
    }
    if c == '<' || c == '>' {
        lemma_char_replaced_lacks(lesser, '>', "&gt;"@, c);
    }
    if c != '\'' {
        lemma_char_replaced_lacks(greater, '"', "&quot;"@, c);
    }
    lemma_char_replaced_lacks(quotes, '\'', "&apos;"@, c);
}

proof fn lemma_base64_digit(first: int, second: int)
    requires
        0 <= first < 64,
        0 <= second < 64,
    ensures
        base64_digit(first) == base64_digit(second) ==> first == second,
        base64_digit(first) != '=',
{
}

#[verifier::spinoff_prover]
#[verifier::rlimit(50)]
proof fn lemma_base64_is_unique(first: Seq<u8>, second: Seq<u8>)
    requires
        base64_of(first) == base64_of(second),
    ensures
        first == second,
    decreases first.len(),
{
    let text = base64_of(first);
    if first.len() == 0 || second.len() == 0 {
        assert(first =~= second);
    } else {
        let a0 = byte(first, 0);
        let b0 = byte(second, 0);
        let a1 = byte(first, 1);
        let b1 = byte(second, 1);
        let a2 = byte(first, 2);
        let b2 = byte(second, 2);
        assert(text[0] == base64_digit(a0 / 4) && text[0] == base64_digit(b0 / 4));
        lemma_base64_digit(a0 / 4, b0 / 4);
        if first.len() == 1 || second.len() == 1 {
            if first.len() > 1 {
                let third = if first.len() == 2 {
                    a1 % 16 * 4
                } else {
                    a1 % 16 * 4 + a2 / 64
                };
                lemma_base64_digit(third, third);
                assert(text[2] == base64_digit(third));
            }
            if second.len() > 1 {
                let third = if second.len() == 2 {
                    b1 % 16 * 4
                } else {
                    b1 % 16 * 4 + b2 / 64
                };
                lemma_base64_digit(third, third);
                assert(text[2] == base64_digit(third));
            }
            assert(text[1] == base64_digit(a0 % 4 * 16));
            assert(text[1] == base64_digit(b0 % 4 * 16));
            lemma_base64_digit(a0 % 4 * 16, b0 % 4 * 16);
            assert(first =~= second);
        } else {
            assert(text[1] == base64_digit(a0 % 4 * 16 + a1 / 16));
            assert(text[1] == base64_digit(b0 % 4 * 16 + b1 / 16));
            lemma_base64_digit(a0 % 4 * 16 + a1 / 16, b0 % 4 * 16 + b1 / 16);
            assert(a0 == b0 && a1 / 16 == b1 / 16);
            if first.len() == 2 || second.len() == 2 {
                if first.len() > 2 {
                    lemma_base64_digit(a2 % 64, a2 % 64);
                    assert(text[3] == base64_digit(a2 % 64));
                }
                if second.len() > 2 {
                    lemma_base64_digit(b2 % 64, b2 % 64);
                    assert(text[3] == base64_digit(b2 % 64));
                }
                assert(text[2] == base64_digit(a1 % 16 * 4));
                assert(text[2] == base64_digit(b1 % 16 * 4));
                lemma_base64_digit(a1 % 16 * 4, b1 % 16 * 4);
                assert(first =~= second);
            } else {
                assert(text[2] == base64_digit(a1 % 16 * 4 + a2 / 64));
                assert(text[2] == base64_digit(b1 % 16 * 4 + b2 / 64));
                lemma_base64_digit(a1 % 16 * 4 + a2 / 64, b1 % 16 * 4 + b2 / 64);
                assert(text[3] == base64_digit(a2 % 64));
                assert(text[3] == base64_digit(b2 % 64));
                lemma_base64_digit(a2 % 64, b2 % 64);
                assert(a1 == b1 && a2 == b2);
                assert(text.skip(4) =~= base64_of(first.skip(3)));
                assert(text.skip(4) =~= base64_of(second.skip(3)));
                lemma_base64_is_unique(first.skip(3), second.skip(3));
                assert(first =~= first.take(3) + first.skip(3));
                assert(second =~= second.take(3) + second.skip(3));
                assert(first.take(3) =~= second.take(3));
            }
        }
    }
}

/// The last unit of a character tells how many units it has, and the units tell the character.
proof fn lemma_utf16_char(c: char)
    ensures
        utf16_char(c).len() == 2 || utf16_char(c).len() == 4,
        ({
            let bytes = utf16_char(c);
            let unit = bytes[bytes.len() - 1] as int * 256 + bytes[bytes.len() - 2] as int;
            if bytes.len() == 2 {
                unit == c as int && !(0xdc00 <= unit <= 0xdfff)
            } else {
                let high = bytes[1] as int * 256 + bytes[0] as int;
                0xdc00 <= unit <= 0xdfff && c as int == 0x1_0000 + (high - 0xd800) * 1024 + (unit
                    - 0xdc00)
            }
        }),
{
}

proof fn lemma_utf16_is_unique(first: Seq<char>, second: Seq<char>)
    requires
        utf16_bytes(first) == utf16_bytes(second),
    ensures
        first == second,
    decreases first.len(),
{
    let bytes = utf16_bytes(first);
    if first.len() > 0 {
        lemma_utf16_char(first.last());
        assert(utf16_bytes(first).len() >= 2);
    }
    if second.len() > 0 {
        lemma_utf16_char(second.last());
        assert(utf16_bytes(second).len() >= 2);
    }
    if first.len() == 0 || second.len() == 0 {
        assert(first =~= second);
    } else {
        let a = utf16_char(first.last());
        let b = utf16_char(second.last());
        let before_a = utf16_bytes(first.drop_last());
        let before_b = utf16_bytes(second.drop_last());
        assert(bytes == before_a + a);
        assert(bytes == before_b + b);
        assert(bytes[bytes.len() - 1] == a[a.len() - 1] && bytes[bytes.len() - 2] == a[a.len() - 2]);
        assert(bytes[bytes.len() - 1] == b[b.len() - 1] && bytes[bytes.len() - 2] == b[b.len() - 2]);
        assert(a.len() == b.len());
        assert(a =~= bytes.skip(bytes.len() - a.len()));
        assert(b =~= bytes.skip(bytes.len() - a.len()));
        assert(first.last() as int == second.last() as int);
        assert(before_a =~= bytes.take(bytes.len() - a.len()));
        assert(before_b =~= bytes.take(bytes.len() - a.len()));
        lemma_utf16_is_unique(first.drop_last(), second.drop_last());
        assert(first =~= first.drop_last().push(first.last()));
        assert(second =~= second.drop_last().push(second.last()));
    }
}

/// An encoded command stands for one script only.
pub proof fn law_encoded_command_is_unambiguous(first: Seq<char>, second: Seq<char>)
    requires
        base64_of(utf16_bytes(first)) == base64_of(utf16_bytes(second)),
    ensures
        first == second,
{
    lemma_base64_is_unique(utf16_bytes(first), utf16_bytes(second));
    lemma_utf16_is_unique(first, second);
}

/// How far an installation has come.
pub open spec fn progress(step: DeployStep) -> nat {
    match step {
        DeployStep::CreateFolder => 0,
        DeployStep::AskTask => 1,
        DeployStep::EndTask => 2,
        DeployStep::DeleteTask => 3,
        DeployStep::ComparePaths => 4,
        DeployStep::AskTemporary => 5,
        DeployStep::RemoveTemporary => 6,
        DeployStep::CopyProgram => 7,
        DeployStep::AskInstalled => 8,
        DeployStep::RemoveInstalled => 9,
        DeployStep::EnableCopy => 10,
        DeployStep::RegisterTask => 11,
        DeployStep::ConfirmTask => 12,
        DeployStep::Finished => 13,
    }
}

/// Every step leads to a later one, so an installation ends.
pub proof fn law_installation_ends(step: DeployStep, outcome: StepOutcome)
    requires
        step != DeployStep::Finished,
    ensures
        step_after(step, outcome) matches Ok(next) ==> progress(step) < progress(next),
{
}

/// The installed program is touched only after the new one has been copied, so a copy that fails
/// leaves it in place.
pub proof fn law_failed_copy_leaves_the_program(step: DeployStep, outcome: StepOutcome)
    ensures
        step_after(step, outcome) == Ok::<DeployStep, DeployError>(DeployStep::AskInstalled) ==> step
            == DeployStep::CopyProgram && outcome != StepOutcome::Failed,
        step_after(step, outcome) == Ok::<DeployStep, DeployError>(DeployStep::RemoveInstalled)
            ==> step == DeployStep::AskInstalled,
        step_after(step, outcome) == Ok::<DeployStep, DeployError>(DeployStep::EnableCopy) ==> step
            == DeployStep::AskInstalled || step == DeployStep::RemoveInstalled,
        step_after(DeployStep::CopyProgram, StepOutcome::Failed) is Err,
{
}

/// An installation counts as finished only when the task was found.
pub proof fn law_finished_means_registered(step: DeployStep, outcome: StepOutcome)
    requires
        step != DeployStep::Finished,
    ensures
        step_after(step, outcome) == Ok::<DeployStep, DeployError>(DeployStep::Finished) <==> step
            == DeployStep::ConfirmTask && outcome == StepOutcome::Yes,
{
}

/// A name in a folder stands behind it with one backslash between them, which a folder that ends in a
/// separator, a bare drive and an empty path have or need not.
pub proof fn law_name_stands_in_its_folder(folder: Seq<char>, name: Seq<char>)
    ensures
        folder.len() > 2 && folder.last() != '\\' && folder.last() != '/' ==> joined(folder, name)
            == folder.push('\\') + name,
        folder.len() > 0 && (folder.last() == '\\' || folder.last() == '/') ==> joined(folder, name)
            == folder + name,
        folder.len() == 2 && ('A' <= folder[0] <= 'Z' || 'a' <= folder[0] <= 'z') && folder[1] == ':'
            ==> joined(folder, name) == folder + name,
        joined(Seq::empty(), name) == name,
{
    reveal_strlit("\\");
    assert(folder + "\\"@ =~= folder.push('\\'));
    assert(Seq::<char>::empty() + name =~= name);
}

/// The installation lies below the local data of the user, in the folder of its maker.
pub proof fn law_installation_lies_below_the_data(data: Seq<char>)
    requires
        data.len() > 2,
        data.last() != '\\',
        data.last() != '/',
    ensures
        root_in(data) == data + "\\Smallcat\\CodexKeyboardQuota"@,
{
    reveal_strlit("\\");
    reveal_strlit("Smallcat");
    reveal_strlit("CodexKeyboardQuota");
    reveal_strlit("\\Smallcat\\CodexKeyboardQuota");
    let vendor = joined(data, "Smallcat"@);
    assert(vendor.last() == 't');
    assert(root_in(data) =~= data + "\\Smallcat\\CodexKeyboardQuota"@);
}

/// Text between single quotes of PowerShell has each of its quotes doubled and is otherwise the same.
pub proof fn law_quotes_are_doubled(left: Seq<char>, c: char, right: Seq<char>)
    ensures
        powershell_quoted(left + right) == powershell_quoted(left) + powershell_quoted(right),
        powershell_quoted(seq!['\'']) == seq!['\'', '\''],
        c != '\'' ==> powershell_quoted(seq![c]) == seq![c],
{
    reveal_strlit("''");
    assert("''"@ =~= seq!['\'', '\'']);
    law_characters_are_replaced_one_by_one(left, c, right, '\'', "''"@);
}

/// Text in XML has each reserved character named and is otherwise the same.
pub proof fn law_reserved_characters_are_named(left: Seq<char>, c: char, right: Seq<char>)
    ensures
        xml_quoted(left + right) == xml_quoted(left) + xml_quoted(right),
        xml_quoted(seq!['&']) == "&amp;"@,
        xml_quoted(seq!['<']) == "&lt;"@,
        xml_quoted(seq!['>']) == "&gt;"@,
        xml_quoted(seq!['"']) == "&quot;"@,
        xml_quoted(seq!['\'']) == "&apos;"@,
        c != '&' && c != '<' && c != '>' && c != '"' && c != '\'' ==> xml_quoted(seq![c]) == seq![c],
{
    let amp = "&amp;"@;
    let lt = "&lt;"@;
    let gt = "&gt;"@;
    let quot = "&quot;"@;
    let apos = "&apos;"@;
    let l1 = char_replaced(left, '&', amp);
    let r1 = char_replaced(right, '&', amp);
    law_characters_are_replaced_one_by_one(left, c, right, '&', amp);
    let l2 = char_replaced(l1, '<', lt);
    let r2 = char_replaced(r1, '<', lt);
    law_characters_are_replaced_one_by_one(l1, c, r1, '<', lt);
    let l3 = char_replaced(l2, '>', gt);
    let r3 = char_replaced(r2, '>', gt);
    law_characters_are_replaced_one_by_one(l2, c, r2, '>', gt);
    let l4 = char_replaced(l3, '"', quot);
    let r4 = char_replaced(r3, '"', quot);
    law_characters_are_replaced_one_by_one(l3, c, r3, '"', quot);
    law_characters_are_replaced_one_by_one(l4, c, r4, '\'', apos);
    lemma_named(c);
    lemma_named('&');
    lemma_named('<');
    lemma_named('>');
    lemma_named('"');
    lemma_named('\'');
}

proof fn lemma_named(c: char)
    ensures
        xml_quoted(seq![c]) == (if c == '&' {
            "&amp;"@
        } else if c == '<' {
            "&lt;"@
        } else if c == '>' {
            "&gt;"@
        } else if c == '"' {
            "&quot;"@
        } else if c == '\'' {
            "&apos;"@
        } else {
            seq![c]
        }),
{
    reveal_strlit("&amp;");
    reveal_strlit("&lt;");
    reveal_strlit("&gt;");
    reveal_strlit("&quot;");
    let one = seq![c];
    let none = Seq::<char>::empty();
    law_characters_are_replaced_one_by_one(none, c, none, '&', "&amp;"@);
    law_characters_are_replaced_one_by_one(none, c, none, '<', "&lt;"@);
    law_characters_are_replaced_one_by_one(none, c, none, '>', "&gt;"@);
    law_characters_are_replaced_one_by_one(none, c, none, '"', "&quot;"@);
    law_characters_are_replaced_one_by_one(none, c, none, '\'', "&apos;"@);
    if c == '&' {
        lemma_char_replaced_absent("&amp;"@, '<', "&lt;"@);
        lemma_char_replaced_absent("&amp;"@, '>', "&gt;"@);
        lemma_char_replaced_absent("&amp;"@, '"', "&quot;"@);
        lemma_char_replaced_absent("&amp;"@, '\'', "&apos;"@);
    } else if c == '<' {
        lemma_char_replaced_absent("&lt;"@, '>', "&gt;"@);
        lemma_char_replaced_absent("&lt;"@, '"', "&quot;"@);
        lemma_char_replaced_absent("&lt;"@, '\'', "&apos;"@);
    } else if c == '>' {
        lemma_char_replaced_absent("&gt;"@, '"', "&quot;"@);
        lemma_char_replaced_absent("&gt;"@, '\'', "&apos;"@);
    } else if c == '"' {
        lemma_char_replaced_absent("&quot;"@, '\'', "&apos;"@);
    }
}

proof fn lemma_char_replaced_absent(text: Seq<char>, from: char, to: Seq<char>)
    requires
        forall|i: int| 0 <= i < text.len() ==> #[trigger] text[i] != from,
    ensures
        char_replaced(text, from, to) == text,
    decreases text.len(),
{
    if text.len() > 0 {
        lemma_char_replaced_absent(text.drop_last(), from, to);
        assert(text.drop_last() + seq![text.last()] =~= text);
    } else {
        assert(text =~= Seq::<char>::empty());
    }
}

/// A character of the first 65536 is two bytes with the lower one first; any other is two such units,
/// which hold the upper and the lower ten bits of what it exceeds them by. Texts follow each other as
/// their bytes do.
pub proof fn law_text_is_sent_low_byte_first(text: Seq<char>, c: char)
    ensures
        utf16_bytes(text.push(c)) == utf16_bytes(text) + utf16_bytes(seq![c]),
        (c as int) < 65_536 ==> utf16_bytes(seq![c]).len() == 2 && utf16_bytes(seq![c])[0] as int
            + 256 * utf16_bytes(seq![c])[1] == c as int,
        (c as int) >= 65_536 ==> {
            let bytes = utf16_bytes(seq![c]);
            let high = bytes[0] as int + 256 * bytes[1];
            let low = bytes[2] as int + 256 * bytes[3];
            &&& bytes.len() == 4
            &&& 55_296 <= high < 56_320
            &&& 56_320 <= low < 57_344
            &&& 65_536 + 1024 * (high - 55_296) + (low - 56_320) == c as int
        },
{
    reveal_with_fuel(utf16_bytes, 2);
    assert(text.push(c).drop_last() =~= text);
    assert(seq![c].drop_last() =~= Seq::<char>::empty());
    assert(utf16_bytes(seq![c]) =~= utf16_char(c));
}

/// The task starts one minute from now, in the time of the machine, and runs the given program in the
/// given folder; there is no script exactly where that minute is beyond the calendar.
pub proof fn law_task_starts_in_one_minute(
    script: Option<String>,
    now: i64,
    program: Seq<char>,
    folder: Seq<char>,
)
    requires
        is_registration(script, now, program, folder),
    ensures
        script is Some <==> now <= i64::MAX - 60 && is_calendar_time((now + 60) as i64),
        script matches Some(text) ==> exists|start: Seq<char>|
            local_time_may_be((now + 60) as i64, "%Y-%m-%dT%H:%M:%S"@, start) && text@
                == #[trigger] task_script(start, program, folder),
{
}

/// In the definition of the task the start, the program and the folder stand in this order, the two
/// paths with their reserved characters named.
pub proof fn law_task_names_start_program_and_folder(
    start: Seq<char>,
    program: Seq<char>,
    folder: Seq<char>,
)
    ensures
        task_xml(start, program, folder) == TASK_BEFORE_START@ + start + TASK_BEFORE_COMMAND@
            + xml_quoted(program) + TASK_BEFORE_FOLDER@ + xml_quoted(folder) + TASK_END@,
{
}

/// A step that fails ends the installation with its own error, but for the ending of a task that may
/// have ended by itself, and the questions.
pub proof fn law_failed_step_ends_the_installation(step: DeployStep)
    ensures
        ({
            let next = step_after(step, StepOutcome::Failed);
            &&& step == DeployStep::CreateFolder ==> next == Err::<DeployStep, DeployError>(
                DeployError::Folder,
            )
            &&& step == DeployStep::DeleteTask ==> next == Err::<DeployStep, DeployError>(
                DeployError::ReplaceTask,
            )
            &&& step == DeployStep::RemoveTemporary ==> next == Err::<DeployStep, DeployError>(
                DeployError::CleanTemporary,
            )
            &&& step == DeployStep::CopyProgram ==> next == Err::<DeployStep, DeployError>(
                DeployError::CopyProgram,
            )
            &&& step == DeployStep::RemoveInstalled ==> next == Err::<DeployStep, DeployError>(
                DeployError::ReplaceCopy,
            )
            &&& step == DeployStep::EnableCopy ==> next == Err::<DeployStep, DeployError>(
                DeployError::EnableCopy,
            )
            &&& step == DeployStep::RegisterTask ==> next == Err::<DeployStep, DeployError>(
                DeployError::RegisterTask,
            )
            &&& step == DeployStep::ConfirmTask ==> next == Err::<DeployStep, DeployError>(
                DeployError::TaskMissing,
            )
            &&& step == DeployStep::EndTask ==> next == Ok::<DeployStep, DeployError>(
                DeployStep::DeleteTask,
            )
        }),
{
}

/// An installation that goes well ends and deletes a task that is there, copies the program unless it
/// runs from its place, replaces a copy that is there, and registers the task and looks for it. A
/// question that was not answered counts as answered with no.
pub proof fn law_installation_goes_in_order(outcome: StepOutcome)
    ensures
        step_after(DeployStep::EndTask, outcome) == Ok::<DeployStep, DeployError>(
            DeployStep::DeleteTask,
        ),
        outcome != StepOutcome::Failed ==> step_after(DeployStep::CreateFolder, outcome) == Ok::<DeployStep, DeployError>(
            DeployStep::AskTask,
        ),
        outcome == StepOutcome::Yes ==> step_after(DeployStep::AskTask, outcome) == Ok::<DeployStep, DeployError>(
            DeployStep::EndTask,
        ),
        outcome != StepOutcome::Yes ==> step_after(DeployStep::AskTask, outcome) == Ok::<DeployStep, DeployError>(
            DeployStep::ComparePaths,
        ),
        outcome != StepOutcome::Failed ==> step_after(DeployStep::DeleteTask, outcome) == Ok::<DeployStep, DeployError>(
            DeployStep::ComparePaths,
        ),
        outcome == StepOutcome::Yes ==> step_after(DeployStep::ComparePaths, outcome) == Ok::<DeployStep, DeployError>(
            DeployStep::RegisterTask,
        ),
        outcome != StepOutcome::Yes ==> step_after(DeployStep::ComparePaths, outcome) == Ok::<DeployStep, DeployError>(
            DeployStep::AskTemporary,
        ),
        outcome == StepOutcome::Yes ==> step_after(DeployStep::AskTemporary, outcome) == Ok::<DeployStep, DeployError>(
            DeployStep::RemoveTemporary,
        ),
        outcome != StepOutcome::Yes ==> step_after(DeployStep::AskTemporary, outcome) == Ok::<DeployStep, DeployError>(
            DeployStep::CopyProgram,
        ),
        outcome != StepOutcome::Failed ==> step_after(DeployStep::RemoveTemporary, outcome) == Ok::<DeployStep, DeployError>(
            DeployStep::CopyProgram,
        ),
        outcome != StepOutcome::Failed ==> step_after(DeployStep::CopyProgram, outcome) == Ok::<DeployStep, DeployError>(
            DeployStep::AskInstalled,
        ),
        outcome == StepOutcome::Yes ==> step_after(DeployStep::AskInstalled, outcome) == Ok::<DeployStep, DeployError>(
            DeployStep::RemoveInstalled,
        ),
        outcome != StepOutcome::Yes ==> step_after(DeployStep::AskInstalled, outcome) == Ok::<DeployStep, DeployError>(
            DeployStep::EnableCopy,
        ),
        outcome != StepOutcome::Failed ==> step_after(DeployStep::RemoveInstalled, outcome) == Ok::<DeployStep, DeployError>(
            DeployStep::EnableCopy,
        ),
        outcome != StepOutcome::Failed ==> step_after(DeployStep::EnableCopy, outcome) == Ok::<DeployStep, DeployError>(
            DeployStep::RegisterTask,
        ),
        outcome != StepOutcome::Failed ==> step_after(DeployStep::RegisterTask, outcome) == Ok::<DeployStep, DeployError>(
            DeployStep::ConfirmTask,
        ),
        outcome == StepOutcome::Yes ==> step_after(DeployStep::ConfirmTask, outcome) == Ok::<DeployStep, DeployError>(
            DeployStep::Finished,
        ),
        outcome != StepOutcome::Yes ==> step_after(DeployStep::ConfirmTask, outcome) is Err,
{
}

/// A folder that is not there is left alone, one that the program runs from is left to the cleanup
/// after it ends, and any other is removed at once.
pub proof fn law_running_program_does_not_remove_itself(root_exists: bool, running: bool)
    ensures
        removal_of(false, running) == RemovalAction::Nothing,
        removal_of(true, true) == RemovalAction::LeaveToCleanup,
        removal_of(true, false) == RemovalAction::RemoveFolder,
        removal_of(root_exists, running) == RemovalAction::RemoveFolder ==> root_exists && !running,
{
}

/// What a failed program said of its errors is passed on, and its output only where it said nothing
/// of them; without either it is said that there is nothing.
pub proof fn law_errors_are_told_before_the_output(output: ProgramOutput)
    ensures
        trimmed(output.stderr@).len() > 0 ==> schtasks_complaint(output) == trimmed(output.stderr@),
        trimmed(output.stderr@).len() == 0 ==> schtasks_complaint(output) == trimmed(output.stdout@),
        output.code is Some ==> exit_code(output) == output.code->0,
        output.code is None ==> exit_code(output) == -1,
        complaint_or_none(Seq::empty()) == "未提供错误信息"@,
        trimmed(output.stderr@).len() > 0 ==> complaint_or_none(trimmed(output.stderr@)) == trimmed(
            output.stderr@,
        ),
{
}

/// Neither the program nor the task alone is an installation.
pub proof fn law_installation_needs_program_and_task(program: bool, task: bool)
    ensures
        counts_as_deployed(program, task) ==> program,
        counts_as_deployed(program, task) ==> task,
        program && task ==> counts_as_deployed(program, task),
{
}

/// The true paths decide where they are known, whatever the texts are; otherwise texts that differ in
/// the case of letters at most name one file.
pub proof fn law_true_paths_decide(equal: bool, left: Seq<char>, right: Seq<char>)
    ensures
        names_one_file(Some(equal), left, right) == equal,
        names_one_file(None, left, left),
        names_one_file(None, left, right) <==> ascii_lowered(left) == ascii_lowered(right),
{
}

/// The cleanup waits for the process and then removes the folder, whose path stands between single
/// quotes both times.
pub proof fn law_cleanup_waits_and_removes(process_id: nat, root: Seq<char>)
    ensures
        cleanup_script(process_id, root)
            == "$ErrorActionPreference='SilentlyContinue';Wait-Process -Id "@ + decimal(process_id)
            + " -Timeout 30;for($i=0;$i -lt 20;$i++){Remove-Item -LiteralPath '"@
            + powershell_quoted(root) + "' -Recurse -Force;if(-not (Test-Path -LiteralPath '"@
            + powershell_quoted(root) + "')){break};Start-Sleep -Milliseconds 500}"@,
{
}

/// The task is asked for, ended and deleted under its own name, and deleted without a question.
pub proof fn law_task_is_asked_for_by_name(request: TaskRequest)
    ensures
        ({
            let arguments = task_request_arguments(request);
            &&& arguments.len() >= 3
            &&& arguments[1] == "/TN"@
            &&& arguments[2] == "Codex DP-104 Quota"@
            &&& request == TaskRequest::Query ==> arguments[0] == "/Query"@ && arguments.len() == 3
            &&& request == TaskRequest::End ==> arguments[0] == "/End"@ && arguments.len() == 3
            &&& request == TaskRequest::Delete ==> arguments[0] == "/Delete"@ && arguments.len() == 4
                && arguments[3] == "/F"@
        }),
{
}

} // verus!
