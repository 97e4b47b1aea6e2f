use std::collections::HashMap;
use std::io::{Cursor, Write};
use ytdlp_ui::archive::{install_ffmpeg_from_zip, plan_unpacking, ArchiveEntry, FfmpegTool};
use ytdlp_ui::install::{
    after_creation, after_download, after_inspection, after_replacing, after_script, after_start,
    after_writing, go_on, install_component, self_update_script, AfterReplace, DownloadReply,
    InstallAction, InstallTarget, ScriptJob,
};
use ytdlp_ui::replace::{FileAction, FileReply, Replacement};
use ytdlp_ui::updater::{build_component, ComponentInfo, ComponentKind, InstallResult};

const ABC: &str = "ba7816bf8f01cfea414140de5dae2223b00361a396177a9cb410ff61f20015ad";

fn component(kind: ComponentKind) -> ComponentInfo {
    build_component(
        kind,
        "title",
        None,
        Some("2.0".to_string()),
        None,
        Some("http://x".to_string()),
        None,
        Some(format!("sha256:{ABC}")),
    )
}

fn begin(component: &ComponentInfo) -> InstallAction {
    install_component(Ok(()), "d", component, Ok(r"C:\Apps\gui.exe".to_string()))
}

fn finish(action: InstallAction) -> (Vec<String>, Result<InstallResult, String>) {
    match action {
        InstallAction::Finish { remove, result } => (remove, result),
        _ => panic!("not at the end"),
    }
}

fn failure(action: InstallAction) -> (Vec<String>, String) {
    let (remove, result) = finish(action);
    (remove, result.err().expect("a failure"))
}

fn zip_of(entries: &[(&str, &[u8])]) -> Vec<u8> {
    let mut writer = zip::ZipWriter::new(Cursor::new(Vec::new()));
    for (name, content) in entries {
        writer
            .start_file(*name, zip::write::SimpleFileOptions::default())
            .expect("entry");
        writer.write_all(content).expect("content");
    }
    writer.finish().expect("archive").into_inner()
}

/// Carries out a replacement on files in memory, where renaming to `refused` fails.
fn replace(files: &mut HashMap<String, Vec<u8>>, refused: Option<&str>) -> Result<(), String> {
    let mut replacement = Replacement::atomic_replace("d\\new.tmp", "d\\app.exe");
    loop {
        let reply = match replacement.action() {
            FileAction::Check(path) => FileReply::Done(files.contains_key(&path)),
            FileAction::Remove(path) => match files.remove(&path) {
                Some(_) => FileReply::Done(true),
                None => FileReply::Failed("no such file".to_string()),
            },
            FileAction::Rename { from, to } => {
                if refused == Some(from.as_str()) {
                    FileReply::Failed("in use".to_string())
                } else {
                    match files.remove(&from) {
                        Some(content) => {
                            files.insert(to, content);
                            FileReply::Done(true)
                        }
                        None => FileReply::Failed("no such file".to_string()),
                    }
                }
            }
            FileAction::Finish(result) => return result,
        };
        replacement = replacement.reply(reply);
    }
}

fn files(list: &[(&str, &str)]) -> HashMap<String, Vec<u8>> {
    list.iter()
        .map(|(path, content)| (path.to_string(), content.as_bytes().to_vec()))
        .collect()
}

#[test]
fn a_new_file_takes_the_place_of_the_old_one() {
    let mut disk = files(&[("d\\app.exe", "old"), ("d\\new.tmp", "new")]);
    assert_eq!(replace(&mut disk, None), Ok(()));
    assert_eq!(disk, files(&[("d\\app.exe", "new")]));

    let mut disk = files(&[("d\\app.exe", "old"), ("d\\new.tmp", "new"), ("d\\app.bak", "older")]);
    assert_eq!(replace(&mut disk, None), Ok(()));
    assert_eq!(disk, files(&[("d\\app.exe", "new")]));

    let mut disk = files(&[("d\\new.tmp", "new")]);
    assert_eq!(replace(&mut disk, None), Ok(()));
    assert_eq!(disk, files(&[("d\\app.exe", "new")]));
}

#[test]
fn a_failed_replacement_keeps_the_old_file() {
    let before = [("d\\app.exe", "old"), ("d\\new.tmp", "new")];

    let mut disk = files(&before);
    assert_eq!(replace(&mut disk, Some("d\\app.exe")), Err("in use".to_string()));
    assert_eq!(disk, files(&before));

    let mut disk = files(&before);
    assert_eq!(replace(&mut disk, Some("d\\new.tmp")), Err("in use".to_string()));
    assert_eq!(disk, files(&before));
}

#[test]
fn an_archive_is_searched_for_the_programs() {
    let bytes = zip_of(&[
        ("build/README.txt", b"text"),
        ("build/BIN/ffmpeg.exe", b"one"),
        ("build/bin/ffprobe.exe", b"two"),
    ]);

    let plan = install_ffmpeg_from_zip(&bytes, ComponentKind::FfmpegBundle);
    assert_eq!(plan.outcome, Ok(()));
    assert_eq!(plan.unpacks.len(), 2);
    assert_eq!(plan.unpacks[0].tool, FfmpegTool::Ffmpeg);
    assert_eq!(plan.unpacks[0].content, Ok(b"one".to_vec()));
    assert_eq!(plan.unpacks[1].tool, FfmpegTool::Ffprobe);
    assert_eq!(plan.unpacks[1].content, Ok(b"two".to_vec()));

    let plan = install_ffmpeg_from_zip(&bytes, ComponentKind::Ffprobe);
    assert_eq!(plan.outcome, Ok(()));
    assert_eq!(plan.unpacks.len(), 1);
    assert_eq!(plan.unpacks[0].content, Ok(b"two".to_vec()));
}

#[test]
fn an_archive_without_the_programs_is_refused() {
    let bytes = zip_of(&[("bin/ffmpeg.exe", b"one"), ("bin/ffprobe.txt", b"two")]);
    let lacking = Err("Выбранные компоненты ffmpeg не найдены в архиве".to_string());

    let plan = install_ffmpeg_from_zip(&bytes, ComponentKind::FfmpegBundle);
    assert_eq!(plan.outcome, lacking);
    assert_eq!(plan.unpacks.len(), 1);

    let plan = install_ffmpeg_from_zip(&bytes, ComponentKind::Ffprobe);
    assert_eq!(plan.outcome, lacking);
    assert!(plan.unpacks.is_empty());

    let plan = install_ffmpeg_from_zip(&b"no archive".to_vec(), ComponentKind::Ffmpeg);
    assert!(plan.outcome.is_err());
    assert!(plan.unpacks.is_empty());
}

#[test]
fn an_entry_that_cannot_be_had_ends_the_unpacking() {
    let entry = |name: Result<&str, &str>, content: Result<&str, &str>| ArchiveEntry {
        name: name.map(str::to_string).map_err(str::to_string),
        content: content
            .map(|text| text.as_bytes().to_vec())
            .map_err(str::to_string),
    };

    let plan = plan_unpacking(
        vec![
            entry(Ok("bin/ffmpeg.exe"), Ok("one")),
            entry(Err("encrypted"), Ok("")),
            entry(Ok("bin/ffprobe.exe"), Ok("two")),
        ],
        ComponentKind::FfmpegBundle,
    );
    assert_eq!(plan.outcome, Err("encrypted".to_string()));
    assert_eq!(plan.unpacks.len(), 1);

    let plan = plan_unpacking(
        vec![entry(Ok("bin/ffmpeg.exe"), Err("bad crc"))],
        ComponentKind::Ffmpeg,
    );
    assert_eq!(plan.outcome, Err("bad crc".to_string()));
    assert_eq!(plan.unpacks.len(), 1);

    let plan = plan_unpacking(
        vec![entry(Ok("a.txt"), Err("unread")), entry(Ok("bin/ffmpeg.exe"), Ok("one"))],
        ComponentKind::Ffmpeg,
    );
    assert_eq!(plan.outcome, Ok(()));
}

#[test]
fn an_installation_needs_a_client_and_an_address() {
    let failed = install_component(
        Err("no TLS".to_string()),
        "d",
        &component(ComponentKind::YtDlp),
        Err(String::new()),
    );
    assert_eq!(failure(failed), (Vec::new(), "no TLS".to_string()));

    let mut homeless = component(ComponentKind::YtDlp);
    homeless.download_url = None;
    assert_eq!(
        failure(begin(&homeless)),
        (Vec::new(), "ссылка на загрузку не найдена".to_string())
    );
}

#[test]
fn the_program_itself_needs_a_digest_and_a_name() {
    let mut gui = component(ComponentKind::YtDlpGui);
    gui.digest = None;
    assert_eq!(
        failure(begin(&gui)).1,
        "SHA-256 digest не найден в GitHub Release"
    );

    let gui = component(ComponentKind::YtDlpGui);
    let unknown = install_component(Ok(()), "d", &gui, Err("no path".to_string()));
    assert_eq!(failure(unknown).1, "no path");
    let nameless = install_component(Ok(()), "d", &gui, Ok("..".to_string()));
    assert_eq!(failure(nameless).1, "Не удалось определить имя приложения");
}

#[test]
fn a_verified_program_is_replaced_by_a_script() {
    let InstallAction::Download { url, target } = begin(&component(ComponentKind::YtDlpGui)) else {
        panic!("a download");
    };
    assert_eq!(url, "http://x");
    assert_eq!(target.staged_path(), r"C:\Apps\gui.update.exe");
    assert_eq!(target.checksum_url(), None);

    let InstallAction::Inspect { target } = after_download(&url, target, DownloadReply::Saved)
    else {
        panic!("an inspection");
    };
    let InstallAction::WriteScript(job) = after_inspection(target, &None, Ok(b"abc".to_vec()))
    else {
        panic!("a script");
    };
    assert_eq!(job.script, r"C:\Apps\gui.update.cmd");
    assert_eq!(
        job.arguments(42),
        vec![r"C:\Apps\gui.exe", r"C:\Apps\gui.update.exe", "42"]
    );
    assert!(self_update_script().starts_with("@echo off\r\nsetlocal\r\n"));
    assert!(self_update_script().ends_with("(goto) 2>NUL & del \"%~f0\"\r\n"));

    let InstallAction::StartScript(job) = after_script(job, FileReply::Done(true)) else {
        panic!("a start");
    };
    let (remove, result) = finish(after_start(job, FileReply::Done(true)));
    assert!(remove.is_empty());
    assert!(matches!(
        result,
        Ok(InstallResult::RestartRequired(message))
            if message == "yt-dlp GUI обновлён, приложение будет перезапущено"
    ));
}

#[test]
fn a_program_that_does_not_pass_is_removed() {
    let InstallAction::Download { url, target } = begin(&component(ComponentKind::YtDlpGui)) else {
        panic!("a download");
    };
    let InstallAction::Inspect { target } = after_download(&url, target, DownloadReply::Saved)
    else {
        panic!("an inspection");
    };
    let (remove, err) = failure(after_inspection(target, &None, Ok(b"abd".to_vec())));

    assert_eq!(remove, vec![r"C:\Apps\gui.update.exe"]);
    assert!(err.starts_with(&format!("Checksum mismatch: expected {ABC}, got ")));
}

#[test]
fn a_script_that_fails_leaves_nothing_behind() {
    let job = || ScriptJob {
        script: "s".to_string(),
        target: "t".to_string(),
        staged: "u".to_string(),
    };

    assert_eq!(
        failure(after_script(job(), FileReply::Failed("denied".to_string()))),
        (vec!["u".to_string()], "denied".to_string())
    );
    assert_eq!(
        failure(after_start(job(), FileReply::Failed("denied".to_string()))),
        (vec!["s".to_string(), "u".to_string()], "denied".to_string())
    );
}

#[test]
fn a_download_that_fails_is_reported() {
    let start = |kind| match begin(&component(kind)) {
        InstallAction::Download { url, target } => (url, target),
        _ => panic!("a download"),
    };

    let (url, target) = start(ComponentKind::YtDlp);
    assert_eq!(
        failure(after_download(
            &url,
            target,
            DownloadReply::Refused("404 Not Found".to_string())
        )),
        (
            Vec::new(),
            "Ошибка загрузки http://x: HTTP 404 Not Found".to_string()
        )
    );
    let (url, target) = start(ComponentKind::Ffmpeg);
    assert_eq!(
        failure(after_download(&url, target, DownloadReply::Failed("cut".to_string()))),
        (
            vec![r"d\ffmpeg-release-essentials.zip.tmp".to_string()],
            "cut".to_string()
        )
    );
}

#[test]
fn yt_dlp_replaces_the_installed_one() {
    let mut yt_dlp = component(ComponentKind::YtDlp);
    yt_dlp.checksum_url = Some("http://sums".to_string());
    let InstallAction::Download { url, target } = begin(&yt_dlp) else {
        panic!("a download");
    };
    assert_eq!(target.staged_path(), r"d\yt-dlp.exe.tmp");
    assert_eq!(target.checksum_url(), Some("http://sums"));
    let InstallAction::Inspect { target } = after_download(&url, target, DownloadReply::Saved)
    else {
        panic!("an inspection");
    };
    let manifest = Some(Ok(format!("{ABC}  yt-dlp.exe")));
    assert!(target.can_read_list(&manifest));
    let mut action = after_inspection(target, &manifest, Ok(b"abc".to_vec()));
    let mut steps = 0;
    while let InstallAction::Replace { replacement, rest } = action {
        steps += 1;
        action = after_replacing(replacement, rest, FileReply::Done(true));
    }
    assert_eq!(steps, 5);
    let (remove, result) = finish(action);
    assert!(remove.is_empty());
    assert!(matches!(
        result,
        Ok(InstallResult::Installed(message)) if message == "yt-dlp обновлён"
    ));
}

#[test]
fn a_list_without_yt_dlp_stops_the_installation() {
    let target = InstallTarget::YtDlp {
        target: "t".to_string(),
        staged: "s".to_string(),
        checksum_url: Some("u".to_string()),
        asset: "yt-dlp.exe".to_string(),
    };
    let manifest = Some(Ok(format!("{ABC}  other.exe")));

    assert_eq!(
        failure(after_inspection(target, &manifest, Ok(b"abc".to_vec()))),
        (Vec::new(), "Не удалось извлечь checksum".to_string())
    );
}

#[test]
fn ffmpeg_programs_are_unpacked_one_after_another() {
    let InstallAction::Download { url, target } = begin(&component(ComponentKind::FfmpegBundle))
    else {
        panic!("a download");
    };
    let InstallAction::Inspect { target } = after_download(&url, target, DownloadReply::Saved)
    else {
        panic!("an inspection");
    };
    let bytes = zip_of(&[("bin/ffmpeg.exe", b"one"), ("bin/ffprobe.exe", b"two")]);
    let mut action = after_inspection(target, &None, Ok(bytes));
    let mut written = Vec::new();
    let (remove, result) = loop {
        action = match action {
            InstallAction::Create(unpacking) => after_creation(unpacking, FileReply::Done(true)),
            InstallAction::Write(unpacking) => {
                written.push((
                    unpacking.staged_path(),
                    unpacking.content().cloned().expect("content"),
                ));
                after_writing(unpacking, FileReply::Done(true))
            }
            InstallAction::Replace { replacement, rest } => {
                after_replacing(replacement, rest, FileReply::Done(true))
            }
            InstallAction::Finish { remove, result } => break (remove, result),
            _ => panic!("unexpected"),
        };
    };

    assert_eq!(
        written,
        vec![
            (r"d\ffmpeg.exe.tmp".to_string(), b"one".to_vec()),
            (r"d\ffprobe.exe.tmp".to_string(), b"two".to_vec()),
        ]
    );
    assert_eq!(remove, vec![r"d\ffmpeg-release-essentials.zip.tmp"]);
    assert!(matches!(
        result,
        Ok(InstallResult::Installed(message)) if message == "ffmpeg/ffprobe обновлены"
    ));
}

#[test]
fn a_failure_while_unpacking_removes_the_archive() {
    let unpacking = || {
        let InstallAction::Download { url, target } = begin(&component(ComponentKind::Ffmpeg))
        else {
            panic!("a download");
        };
        let InstallAction::Inspect { target } = after_download(&url, target, DownloadReply::Saved)
        else {
            panic!("an inspection");
        };
        let bytes = zip_of(&[("bin/ffmpeg.exe", b"one")]);
        match after_inspection(target, &None, Ok(bytes)) {
            InstallAction::Create(unpacking) => unpacking,
            _ => panic!("an unpacking"),
        }
    };
    let zip = vec![r"d\ffmpeg-release-essentials.zip.tmp".to_string()];
    let denied = || FileReply::Failed("denied".to_string());

    assert_eq!(
        failure(after_creation(unpacking(), denied())),
        (zip.clone(), "denied".to_string())
    );
    assert_eq!(
        failure(after_writing(unpacking(), denied())),
        (zip.clone(), "denied".to_string())
    );

    let mut broken = unpacking();
    broken.unpacks[0].content = Err("bad crc".to_string());
    assert_eq!(
        failure(after_creation(broken, FileReply::Done(true))),
        (zip.clone(), "bad crc".to_string())
    );

    let mut action = after_writing(unpacking(), FileReply::Done(true));
    while let InstallAction::Replace { replacement, rest } = action {
        action = after_replacing(replacement, rest, denied());
    }
    assert_eq!(failure(action), (zip.clone(), "denied".to_string()));

    let mut done = unpacking();
    done.unpacks.clear();
    let (remove, result) = finish(go_on(done));
    assert_eq!(remove, zip);
    assert!(matches!(
        result,
        Ok(InstallResult::Installed(message)) if message == "ffmpeg обновлён"
    ));
}

#[test]
fn an_unread_archive_stops_the_installation() {
    let InstallAction::Download { url, target } = begin(&component(ComponentKind::Ffprobe)) else {
        panic!("a download");
    };
    let InstallAction::Inspect { target } = after_download(&url, target, DownloadReply::Saved)
    else {
        panic!("an inspection");
    };
    assert_eq!(
        failure(after_inspection(target, &None, Err("gone".to_string()))).1,
        "gone"
    );
    let replacement = Replacement::atomic_replace("a", "b");
    assert!(matches!(
        after_replacing(replacement, AfterReplace::YtDlp, FileReply::Done(true)),
        InstallAction::Replace { .. }
    ));
}

#[test]
fn a_program_its_download_and_its_backup_have_different_paths() {
    for dir in ["", "C:", "C:\\Apps", "C:\\Apps\\", "/srv/apps/."] {
        for name in ["yt-dlp.exe", "ffmpeg.exe", "ffprobe.exe"] {
            let target = ytdlp_ui::paths::join_path(dir, name);
            let staged = format!("{target}.tmp");
            let replacement = Replacement::atomic_replace(&staged, &target);
            assert_ne!(replacement.staged, replacement.target);
            assert_ne!(replacement.staged, replacement.backup);
            assert_ne!(replacement.target, replacement.backup);
            assert!(replacement.backup.ends_with(".bak"));
        }
    }
}
