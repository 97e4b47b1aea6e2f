use ytdlp_ui::paths::{
    extension, file_name, join_path, prefix_length, resolve_config_path, staged_app_path,
    with_extension,
};
use ytdlp_ui::selection::{selected_text, TextSelection};
use ytdlp_ui::text::{
    decimal_text, find, is_hex_digit, is_whitespace, join, signed_text, split_lines, split_words,
    to_lower, trim, trim_parts, trim_prefixes,
};

#[test]
fn white_space_is_that_of_the_standard_library() {
    for code in 0..=0x10FFFF_u32 {
        if let Some(c) = char::from_u32(code) {
            assert_eq!(is_whitespace(c), c.is_whitespace(), "{code:x}");
            assert_eq!(is_hex_digit(c), c.is_ascii_hexdigit(), "{code:x}");
        }
    }
}

#[test]
fn texts_are_cut_as_the_standard_library_cuts_them() {
    for text in [
        "",
        " ",
        "a",
        "\u{3000} a b\tc \r\n",
        "один\nдва\r\nтри\n",
        "\n\n",
        "a\r",
        "a\r\r\nb",
        "\r\n",
        "  ERROR: x ERROR: y",
    ] {
        assert_eq!(trim(text), text.trim());
        assert_eq!(split_words(text), text.split_whitespace().collect::<Vec<_>>());
        assert_eq!(split_lines(text), text.lines().collect::<Vec<_>>());
        assert_eq!(to_lower(text), text.to_ascii_lowercase());
        assert_eq!(
            find(text, "ERROR:"),
            text.find("ERROR:").map(|at| text[..at].chars().count())
        );
    }
}

#[test]
fn prefixes_are_taken_off_as_often_as_they_stand() {
    assert_eq!(trim_prefixes(">>>>>> a >>>", ">>>"), " a >>>");
    assert_eq!(trim_prefixes(">> a", ">>>"), ">> a");
}

#[test]
fn parts_are_trimmed_and_joined() {
    let list = vec![" a ".to_string(), "  ".to_string(), "b c".to_string()];

    assert_eq!(trim_parts(&list), vec!["a", "b c"]);
    assert_eq!(join(&trim_parts(&list), ","), "a,b c");
    assert_eq!(join(&Vec::new(), ","), "");
}

#[test]
fn numbers_are_written_in_decimal() {
    assert_eq!(decimal_text(0), "0");
    assert_eq!(decimal_text(10), "10");
    assert_eq!(decimal_text(u128::MAX), u128::MAX.to_string());
    assert_eq!(signed_text(-1), "-1");
    assert_eq!(signed_text(i32::MIN), i32::MIN.to_string());
    assert_eq!(signed_text(i32::MAX), i32::MAX.to_string());
}

#[test]
fn paths_are_joined_with_one_separator() {
    assert_eq!(join_path(r"C:\Apps", "Video"), r"C:\Apps\Video");
    assert_eq!(join_path(r"C:\Apps\", "Video"), r"C:\Apps\Video");
    assert_eq!(join_path("C:/Apps/", "Video"), "C:/Apps/Video");
    assert_eq!(join_path("C:", "Video"), "C:Video");
    assert_eq!(join_path("", "Video"), "Video");
    assert_eq!(join_path(".", "Video"), r".\Video");
}

#[test]
fn file_names_and_extensions() {
    assert_eq!(file_name(r"C:\Apps\yt-dlp.exe.tmp"), Some("yt-dlp.exe.tmp"));
    assert_eq!(file_name(r"C:\Apps\"), Some("Apps"));
    assert_eq!(file_name(r"C:\"), None);
    assert_eq!(file_name(".."), None);
    assert_eq!(extension("ffmpeg-release-essentials.zip"), Some("zip"));
    assert_eq!(extension("archive"), None);
    assert_eq!(extension(".zip"), None);
    assert_eq!(extension("a."), Some(""));
    assert_eq!(with_extension(r"C:\Apps\yt-dlp.exe", "bak"), r"C:\Apps\yt-dlp.bak");
    assert_eq!(
        with_extension(r"C:\Apps\ytdlp-ui.exe", "update.cmd"),
        r"C:\Apps\ytdlp-ui.update.cmd"
    );
}

#[test]
fn a_path_without_a_name_has_no_staged_program() {
    assert_eq!(
        staged_app_path(".."),
        Err("Не удалось определить имя приложения".to_string())
    );
    assert_eq!(staged_app_path("ytdlp-ui"), Ok("ytdlp-ui.update.exe".to_string()));
}

#[test]
fn the_settings_file_is_portable_or_the_users() {
    assert_eq!(
        resolve_config_path(r"C:\Apps", true, Some(r"C:\Local"), Some(r"C:\Roaming")),
        r"C:\Apps\config.toml"
    );
    assert_eq!(
        resolve_config_path(r"C:\Apps", false, Some(r"C:\Local"), Some(r"C:\Roaming")),
        r"C:\Local\ytdlp-ui\config.toml"
    );
    assert_eq!(
        resolve_config_path(r"C:\Apps", false, None, Some(r"C:\Roaming")),
        r"C:\Roaming\ytdlp-ui\config.toml"
    );
    assert_eq!(
        resolve_config_path(r"C:\Apps", false, None, None),
        r"C:\Apps\config.toml"
    );
}

#[test]
fn selected_text_uses_character_indices() {
    let range = TextSelection {
        primary: 5,
        secondary: 4,
    };

    assert_eq!(selected_text("лог α", Some(range)), Some("α"));
    assert_eq!(selected_text("лог α", None), None);
    assert_eq!(
        selected_text(
            "лог α",
            Some(TextSelection {
                primary: 2,
                secondary: 2,
            })
        ),
        None
    );
}

#[test]
fn a_selection_has_no_direction_and_ends_with_the_text() {
    let forth = TextSelection {
        primary: 0,
        secondary: 3,
    };
    let back = TextSelection {
        primary: 3,
        secondary: 0,
    };
    let beyond = TextSelection {
        primary: 4,
        secondary: 100,
    };

    assert_eq!(selected_text("лог α", Some(forth)), Some("лог"));
    assert_eq!(selected_text("лог α", Some(back)), Some("лог"));
    assert_eq!(selected_text("лог α", Some(beyond)), Some("α"));
}

#[test]
fn prefixes_of_paths() {
    for (path, length) in [
        (r"x\y", 0),
        (r"\x\y", 0),
        ("C:x", 2),
        (r"c:\x", 2),
        (r"\\server\share", 14),
        ("//server/share/x", 14),
        (r"\\server", 0),
        (r"\\server\", 0),
        (r"\\server\\x", 0),
        (r"\\\x\y", 0),
        (r"\\?\C:", 6),
        (r"\\?\C:\x", 6),
        (r"\\?\C:/x", 6),
        (r"\\?\C:x", 7),
        (r"\\?\pictures\x", 12),
        (r"\\?\", 4),
        (r"\\?\UNC\server\share\x", 20),
        (r"\\?\UNC\server", 14),
        (r"\\?\UNC", 7),
        ("//?/C:/x", 6),
        (r"\\.\COM1", 8),
        ("//./pipe/x", 8),
    ] {
        assert_eq!(prefix_length(path), length, "{path}");
    }
}

#[test]
fn what_is_all_prefix_has_no_name() {
    for path in [
        r"\\server\share",
        r"\\server\share\",
        "//server/share",
        r"\\?\C:",
        r"\\?\C:\",
        r"\\?\UNC\server\share",
        r"\\?\UNC\server\share\",
        r"\\?\pictures",
        r"\\.\COM1",
        "C:",
        r"C:\",
        r"C:\.",
        r"\",
        "",
        ".",
        r"\\?\C:\x\.",
        r"\\?\C:\x\..",
    ] {
        assert_eq!(file_name(path), None, "{path}");
        assert_eq!(extension(path), None, "{path}");
        assert_eq!(with_extension(path, "bak"), path);
        assert_eq!(
            staged_app_path(path),
            Err("Не удалось определить имя приложения".to_string()),
            "{path}"
        );
    }
}

#[test]
fn names_after_a_prefix() {
    for (path, name, staged) in [
        (
            r"\\server\share\x.exe",
            "x.exe",
            r"\\server\share\x.update.exe",
        ),
        (
            "//server/share/a/x.exe",
            "x.exe",
            r"//server/share/a\x.update.exe",
        ),
        (r"\\?\C:\x.exe", "x.exe", r"\\?\C:\x.update.exe"),
        (r"\\?\C:\\a\\x.exe", "x.exe", r"\\?\C:\a\x.update.exe"),
        (r"\\?\C:\a/b.exe", "a/b.exe", r"\\?\C:\a\b.update.exe"),
        (r"\\?\C:\x\/b.exe", "/b.exe", r"\\?\C:\b.update.exe"),
        (r"\\?\C:\x\../b.exe", "../b.exe", r"\\?\C:\b.update.exe"),
        (r"\\?\C:\x\./b.exe", "./b.exe", r"\\?\C:\x\b.update.exe"),
        (r"\\?\C:\.\../b.exe", "../b.exe", r"\\?\C:\.\b.update.exe"),
        (r"\\?\C:\x\//a/b.exe", "//a/b.exe", "//a/b.update.exe"),
        (r"\\?\C:\x\D:b.exe", "D:b.exe", "D:b.update.exe"),
        (r"x\C:foo.exe", "C:foo.exe", "C:foo.update.exe"),
        (r"\\?\C:/x.exe", "x.exe", r"\\?\C:\x.update.exe"),
        (
            r"\\?\UNC\server\share\x.exe\",
            "x.exe",
            r"\\?\UNC\server\share\x.update.exe",
        ),
        (r"\\.\COM1\x.exe", "x.exe", r"\\.\COM1\x.update.exe"),
        ("C:x.exe", "x.exe", "C:x.update.exe"),
        (r"C:.\x.exe", "x.exe", r"C:.\x.update.exe"),
        (r"C:\a\.\x.exe\.", "x.exe", r"C:\a\x.update.exe"),
        ("./x.exe", "x.exe", r".\x.update.exe"),
        (r"\x.exe", "x.exe", r"\x.update.exe"),
        (r"\\x.exe", "x.exe", r"\x.update.exe"),
        (r"\\server\\x.exe", "x.exe", r"\\server\x.update.exe"),
    ] {
        assert_eq!(file_name(path), Some(name), "{path}");
        assert_eq!(staged_app_path(path), Ok(staged.to_string()), "{path}");
    }
}

#[test]
fn folders_with_a_prefix() {
    for (dir, joined) in [
        (r"\\server\share", r"\\server\share\x"),
        (r"\\server\share\", r"\\server\share\x"),
        (r"\\?\C:", r"\\?\C:\x"),
        (r"\\?\C:\", r"\\?\C:\x"),
        (r"\\?\C:\a\\b\", r"\\?\C:\a\b\x"),
        (r"\\?\C:\a/b", r"\\?\C:\a/b\x"),
        (r"\\.\COM1", r"\\.\COM1\x"),
        ("C:", "C:x"),
        ("C:/", "C:/x"),
    ] {
        assert_eq!(join_path(dir, "x"), joined);
    }
    assert_eq!(
        with_extension(r"\\server\share\x.exe", "bak"),
        r"\\server\share\x.bak"
    );
    assert_eq!(with_extension(r"\\?\C:\a.b/c", "bak"), r"\\?\C:\a.bak");
    assert_eq!(extension(r"\\server\share.zip"), None);
}

#[test]
fn names_that_leave_the_folder() {
    for (dir, name, joined) in [
        (r"C:\a", r"\b", r"C:\b"),
        (r"\\server\share\a", "/b", r"\\server\share/b"),
        (r"C:\a", "D:b", "D:b"),
        (r"C:\a", r"\\server\share", r"\\server\share"),
        (r"C:\a", r"..\b", r"C:\a\..\b"),
        (r"\\?\C:\a", "..", r"\\?\C:\"),
        (r"\\?\C:\a", r"b\.\..\c", r"\\?\C:\a\c"),
        (r"\\?\C:\a", r"\b", r"\\?\C:\b"),
        (r"\\?\C:", ".", r"\\?\C:"),
        (r"\\?\C:\a", "", r"\\?\C:\a\"),
        ("a", "", r"a\"),
    ] {
        assert_eq!(join_path(dir, name), joined);
    }
}
