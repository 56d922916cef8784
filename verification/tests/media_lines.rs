use jump_cli::chrome::Tone;
use jump_cli::icons::file_icon_color;
use jump_cli::media::{
    audio_preview, audio_stream_line, bitrate_line, channel_label, media_info, subtitle_line, video_fallback,
    video_stream_line,
};

#[test]
fn icon_tone_of_directories() {
    assert_eq!(file_icon_color("node_modules", true), Tone::Muted);
    assert_eq!(file_icon_color("Target", true), Tone::Muted);
    assert_eq!(file_icon_color(".git", true), Tone::Muted);
    assert_eq!(file_icon_color("src", true), Tone::Bright);
    assert_eq!(file_icon_color("Docs", true), Tone::Bright);
    assert_eq!(file_icon_color(".cache", true), Tone::Dim);
    assert_eq!(file_icon_color("photos", true), Tone::Normal);
}

#[test]
fn icon_tone_of_files() {
    assert_eq!(file_icon_color("Cargo.lock", false), Tone::Muted);
    assert_eq!(file_icon_color("server.LOG", false), Tone::Muted);
    assert_eq!(file_icon_color("notes.md", false), Tone::Dim);
    assert_eq!(file_icon_color("main.rs", false), Tone::Dim);
    assert_eq!(file_icon_color("log", false), Tone::Muted);
}

#[test]
fn channel_names() {
    assert_eq!(channel_label(1), "mono");
    assert_eq!(channel_label(2), "stereo");
    assert_eq!(channel_label(6), "5.1");
    assert_eq!(channel_label(8), "7.1");
    assert_eq!(channel_label(3), "multi");
    assert_eq!(channel_label(0), "multi");
}

#[test]
fn stream_lines() {
    assert_eq!(bitrate_line(128_999), "📊 128 kbps");
    assert_eq!(bitrate_line(999), "📊 0 kbps");
    assert_eq!(video_stream_line("h264", 1920, 1080), "🎥 H264 1920×1080");
    assert_eq!(audio_stream_line("aac", 2, "44100"), "🔊 AAC stereo 44100Hz");
    assert_eq!(audio_stream_line("flac", 6, "48000"), "🔊 FLAC 5.1 48000Hz");
    assert_eq!(subtitle_line("eng"), "💬 Sub: eng");
}

#[test]
fn media_info_with_and_without_probe() {
    let bare = media_info("🎬 Video", "clip.mkv", 2048, None);
    assert_eq!(bare, vec!["🎬 Video: clip.mkv".to_string(), "💾 2.0K".to_string(), "📎 MKV".to_string()]);
    let probed = media_info("🎵 Audio", "song", 10, Some(vec!["📊 320 kbps".to_string()]));
    assert_eq!(
        probed,
        vec![
            "🎵 Audio: song".to_string(),
            "💾 10B".to_string(),
            "📎 SONG".to_string(),
            String::new(),
            "📊 320 kbps".to_string(),
        ]
    );
}

#[test]
fn audio_preview_lists_present_tags() {
    let tags = vec![Some("Song".to_string()), None, None, Some("1999".to_string()), None, Some("3".to_string())];
    let lines = audio_preview("a.mp3", 10, Some(vec!["⏱️ 3:05".to_string()]), tags);
    let expected: Vec<String> = vec![
        "🎵 Audio File",
        "",
        "📄 a.mp3",
        "💾 10B",
        "",
        "⏱️ 3:05",
        "",
        "🎵 Title: Song",
        "📅 Year: 1999",
        "🔢 Track: 3",
        "",
        "  ╭──────────────────────────╮",
        "  │ ▁▂▃▅▇█▇▅▃▂▁▂▃▅▇▅▃▂▁▂▃▅ │",
        "  │ ▇▅▃▂▁▂▃▅▇█▇▅▃▂▁▂▃▅▇▅▃▁ │",
        "  ╰──────────────────────────╯",
        "",
        "  Enter or 'o' to play",
    ]
    .into_iter()
    .map(String::from)
    .collect();
    assert_eq!(lines, expected);
}

#[test]
fn audio_preview_without_probe_or_tags() {
    let lines = audio_preview("b.ogg", 0, None, vec![None; 6]);
    assert_eq!(lines.len(), 12);
    assert_eq!(lines[4], "");
    assert_eq!(lines[5], "");
    assert_eq!(lines[6], "  ╭──────────────────────────╮");
}

#[test]
fn video_fallback_hint_or_probe() {
    let hint = video_fallback("v.mp4", 1024, None);
    assert_eq!(hint[0], "🎬 Video File");
    assert_eq!(hint[2], "📄 v.mp4");
    assert_eq!(hint[3], "💾 1.0K");
    assert_eq!(hint[5], "ℹ️ Install ffmpeg for thumbnails");
    assert_eq!(hint.len(), 12);
    assert_eq!(hint[11], "  Enter or 'o' to open");
    let probed = video_fallback("v.mp4", 1024, Some(vec!["a".to_string(), "b".to_string()]));
    assert_eq!(probed[5], "a");
    assert_eq!(probed[6], "b");
    assert_eq!(probed.len(), 13);
}
