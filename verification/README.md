# ytdlp-ui

A window for yt-dlp: it keeps a list of links, downloads them with the options of a profile, and
keeps yt-dlp, ffmpeg, ffprobe and itself up to date.

The logic is a library that is verified with Verus.

- `src/` is the library. Each public function states what it returns or changes; each `law_` proof
  function states what holds of several functions together.
- `app/` is the program around it: painting, files, requests and processes. It carries out what the
  library asks for and hands back what came of it.
- `tests/` runs the library, with the crates that it calls.

What the library takes on trust is what it calls outside: the functions marked `external_body`, and
the specification of `String::push` in `src/text.rs`. The comment above each says what is claimed of
the function that it calls.

| Module | What it is about |
| --- | --- |
| `text`, `paths` | text and Windows paths as sequences of characters |
| `version`, `release`, `checksum`, `archive` | versions, release documents, digests, the ffmpeg archive |
| `updater`, `install`, `replace`, `update_run` | what is outdated, and installing it step by step |
| `profile`, `config`, `stored` | download options, the settings and the settings file |
| `process_output`, `download` | what yt-dlp prints, and a run of downloads |
| `status`, `theme`, `selection` | what the window shows |
| `app_state`, `links`, `dialogs`, `components_page` | the state of the window and its pages |
