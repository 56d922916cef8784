//! The text of audio and video previews, built from the facts a media
//! prober reported (stream codecs, sizes, channels, tags). Durations and
//! frame rates are fractional and are written by the caller.

use vstd::prelude::*;
use crate::entries::last_piece;
use crate::fmt::{decimal, decimal_chars, format_size, size_text};
use crate::explorer::lines_of;
use crate::text::{append_text, string_of, text_concat};

verus! {

/// What `str::to_uppercase` gives for a text.
pub uninterp spec fn unicode_uppercase(s: Seq<char>) -> Seq<char>;

/// `str::to_uppercase`. Trusted: the result is a function of the
/// characters alone; nothing more is claimed.
#[verifier::external_body]
pub(crate) fn uppercase(s: &str) -> (r: String)
    ensures
        r@ == unicode_uppercase(s@),
{
    s.to_uppercase()
}

/// How a channel count is named.
pub open spec fn channels_name(ch: u64) -> Seq<char> {
    if ch == 1 {
        "mono"@
    } else if ch == 2 {
        "stereo"@
    } else if ch == 6 {
        "5.1"@
    } else if ch == 8 {
        "7.1"@
    } else {
        "multi"@
    }
}

/// The name of a channel count: mono, stereo, 5.1, 7.1, or multi.
pub fn channel_label(ch: u64) -> (r: &'static str)
    ensures
        r@ == channels_name(ch),
{
    if ch == 1 {
        "mono"
    } else if ch == 2 {
        "stereo"
    } else if ch == 6 {
        "5.1"
    } else if ch == 8 {
        "7.1"
    } else {
        "multi"
    }
}

/// The text of a number.
fn number_text(n: u64) -> (r: String)
    ensures
        r@ == decimal(n as nat),
{
    string_of(&decimal_chars(n as u128))
}

/// The bit rate line: whole kilobits per second.
pub fn bitrate_line(bit_rate: u64) -> (r: String)
    ensures
        r@ == "📊 "@ + decimal((bit_rate / 1000) as nat) + " kbps"@,
{
    let mut m = "📊 ".to_owned();
    append_text(&mut m, number_text(bit_rate / 1000).as_str());
    append_text(&mut m, " kbps");
    m
}

/// The line of a video stream: codec in capitals and frame size.
pub fn video_stream_line(codec: &str, width: u64, height: u64) -> (r: String)
    ensures
        r@ == "🎥 "@ + unicode_uppercase(codec@) + " "@ + decimal(width as nat) + "×"@ + decimal(height as nat),
{
    let mut m = "🎥 ".to_owned();
    append_text(&mut m, uppercase(codec).as_str());
    append_text(&mut m, " ");
    append_text(&mut m, number_text(width).as_str());
    append_text(&mut m, "×");
    append_text(&mut m, number_text(height).as_str());
    m
}

/// The line of an audio stream: codec in capitals, channels, sample rate.
pub fn audio_stream_line(codec: &str, channels: u64, sample_rate: &str) -> (r: String)
    ensures
        r@ == "🔊 "@ + unicode_uppercase(codec@) + " "@ + channels_name(channels) + " "@ + sample_rate@ + "Hz"@,
{
    let mut m = "🔊 ".to_owned();
    append_text(&mut m, uppercase(codec).as_str());
    append_text(&mut m, " ");
    append_text(&mut m, channel_label(channels));
    append_text(&mut m, " ");
    append_text(&mut m, sample_rate);
    append_text(&mut m, "Hz");
    m
}

/// The line of a subtitle stream.
pub fn subtitle_line(language: &str) -> (r: String)
    ensures
        r@ == "💬 Sub: "@ + language@,
{
    text_concat("💬 Sub: ", language)
}

/// The info lines of an audio or video file: its label and name, size,
/// extension in capitals, then (after a blank line) what the prober found.
pub open spec fn media_info_spec(label: Seq<char>, name: Seq<char>, size: u64, probe: Option<Seq<Seq<char>>>) -> Seq<Seq<char>> {
    let head = seq![label + ": "@ + name, "💾 "@ + size_text(size as nat), "📎 "@ + unicode_uppercase(last_piece(name))];
    match probe {
        Some(p) => head + seq![Seq::<char>::empty()] + p,
        None => head,
    }
}

/// The texts of an optional list of lines.
pub open spec fn opt_lines(o: Option<Vec<String>>) -> Option<Seq<Seq<char>>> {
    match o {
        Some(v) => Some(lines_of(v@)),
        None => None,
    }
}

/// Appends `tail` to `v`.
fn append_lines(v: &mut Vec<String>, tail: Vec<String>)
    ensures
        lines_of(final(v)@) == lines_of(old(v)@) + lines_of(tail@),
{
    let ghost start = lines_of(v@);
    for i in 0..tail.len()
        invariant
            lines_of(v@) == start + lines_of(tail@.take(i as int)),
    {
        let ghost before = lines_of(v@);
        v.push(tail[i].clone());
        assert(lines_of(v@) =~= before.push(tail@[i as int]@));
        assert(lines_of(tail@.take(i + 1)) =~= lines_of(tail@.take(i as int)).push(tail@[i as int]@));
    }
    assert(tail@.take(tail@.len() as int) =~= tail@);
}

/// The info lines of an audio or video file (see `media_info_spec`).
pub fn media_info(label: &str, name: &str, size: u64, probe: Option<Vec<String>>) -> (r: Vec<String>)
    ensures
        lines_of(r@) == media_info_spec(label@, name@, size, opt_lines(probe)),
{
    let mut r: Vec<String> = Vec::new();
    let mut first = text_concat(label, ": ");
    append_text(&mut first, name);
    r.push(first);
    r.push(text_concat("💾 ", format_size(size).as_str()));
    let ext = string_of(&crate::entries::last_piece_chars(name));
    r.push(text_concat("📎 ", uppercase(ext.as_str()).as_str()));
    let ghost head = seq![label@ + ": "@ + name@, "💾 "@ + size_text(size as nat), "📎 "@ + unicode_uppercase(last_piece(name@))];
    assert(lines_of(r@) =~= head);
    match probe {
        Some(p) => {
            r.push(String::new());
            assert(lines_of(r@) =~= head + seq![Seq::<char>::empty()]);
            append_lines(&mut r, p);
        },
        None => {},
    }
    r
}

/// The tags an audio preview lists, in order, with their labels.
pub open spec fn tag_labels() -> Seq<Seq<char>> {
    seq!["🎵 Title"@, "🎤 Artist"@, "💿 Album"@, "📅 Year"@, "🏷️ Genre"@, "🔢 Track"@]
}

/// The lines of the tags that are present.
pub open spec fn tag_lines(tags: Seq<Option<String>>) -> Seq<Seq<char>>
    decreases tags.len(),
{
    if tags.len() == 0 {
        Seq::empty()
    } else {
        let rest = tag_lines(tags.drop_last());
        match tags.last() {
            Some(v) => rest.push(tag_labels()[tags.len() - 1] + ": "@ + v@),
            None => rest,
        }
    }
}

/// The frame drawn under an audio preview.
pub open spec fn audio_footer() -> Seq<Seq<char>> {
    seq![
        Seq::empty(),
        "  ╭──────────────────────────╮"@,
        "  │ ▁▂▃▅▇█▇▅▃▂▁▂▃▅▇▅▃▂▁▂▃▅ │"@,
        "  │ ▇▅▃▂▁▂▃▅▇█▇▅▃▂▁▂▃▅▇▅▃▁ │"@,
        "  ╰──────────────────────────╯"@,
        Seq::empty(),
        "  Enter or 'o' to play"@
    ]
}

/// The preview of an audio file: a heading, its name and size, what the
/// prober found (then a blank line), the tags present (title, artist,
/// album, year, genre, track), and a drawn frame.
pub open spec fn audio_preview_spec(name: Seq<char>, size: u64, probe: Option<Seq<Seq<char>>>, tags: Seq<Option<String>>) -> Seq<Seq<char>> {
    let head = seq!["🎵 Audio File"@, Seq::empty(), "📄 "@ + name, "💾 "@ + size_text(size as nat), Seq::empty()];
    let found = match probe {
        Some(p) => p + seq![Seq::<char>::empty()],
        None => Seq::empty(),
    };
    head + found + tag_lines(tags) + audio_footer()
}

/// The preview of an audio file (see `audio_preview_spec`); `tags` holds
/// the title, artist, album, year, genre and track, each if present.
pub fn audio_preview(name: &str, size: u64, probe: Option<Vec<String>>, tags: Vec<Option<String>>) -> (r: Vec<String>)
    requires
        tags@.len() == 6,
    ensures
        lines_of(r@) == audio_preview_spec(name@, size, opt_lines(probe), tags@),
{
    let mut r: Vec<String> = Vec::new();
    r.push("🎵 Audio File".to_owned());
    r.push(String::new());
    r.push(text_concat("📄 ", name));
    r.push(text_concat("💾 ", format_size(size).as_str()));
    r.push(String::new());
    let ghost head = seq!["🎵 Audio File"@, Seq::empty(), "📄 "@ + name@, "💾 "@ + size_text(size as nat), Seq::empty()];
    assert(lines_of(r@) =~= head);
    let ghost found = match opt_lines(probe) {
        Some(p) => p + seq![Seq::<char>::empty()],
        None => Seq::<Seq<char>>::empty(),
    };
    match probe {
        Some(p) => {
            append_lines(&mut r, p);
            let ghost before = lines_of(r@);
            r.push(String::new());
            assert(lines_of(r@) =~= before.push(Seq::<char>::empty()));
            assert(lines_of(r@) =~= head + found);
        },
        None => {
            assert(lines_of(r@) =~= head + found);
        },
    }
    let labels: Vec<&'static str> = vec!["🎵 Title", "🎤 Artist", "💿 Album", "📅 Year", "🏷️ Genre", "🔢 Track"];
    assert(labels@.map_values(|l: &str| l@) =~= tag_labels());
    for i in 0..6
        invariant
            tags@.len() == 6,
            labels@.len() == 6,
            labels@.map_values(|l: &str| l@) == tag_labels(),
            lines_of(r@) == head + found + tag_lines(tags@.take(i as int)),
    {
        let ghost before = lines_of(r@);
        proof {
            assert(tags@.take(i + 1).drop_last() =~= tags@.take(i as int));
            assert(tags@.take(i + 1).last() == tags@[i as int]);
            assert(labels@[i as int]@ == tag_labels()[i as int]);
        }
        match &tags[i] {
            Some(v) => {
                let mut line = text_concat(labels[i], ": ");
                append_text(&mut line, v.as_str());
                r.push(line);
                assert(lines_of(r@) =~= before.push(tag_labels()[i as int] + ": "@ + v@));
            },
            None => {},
        }
    }
    assert(tags@.take(6) =~= tags@);
    let ghost mid = lines_of(r@);
    r.push(String::new());
    r.push("  ╭──────────────────────────╮".to_owned());
    r.push("  │ ▁▂▃▅▇█▇▅▃▂▁▂▃▅▇▅▃▂▁▂▃▅ │".to_owned());
    r.push("  │ ▇▅▃▂▁▂▃▅▇█▇▅▃▂▁▂▃▅▇▅▃▁ │".to_owned());
    r.push("  ╰──────────────────────────╯".to_owned());
    r.push(String::new());
    r.push("  Enter or 'o' to play".to_owned());
    assert(lines_of(r@) =~= mid + audio_footer());
    r
}

/// The preview of a video whose frame could not be extracted: a heading,
/// its file name and size, what the prober found (or a hint to install
/// ffmpeg), and a drawn play button.
pub open spec fn video_fallback_spec(file_name: Seq<char>, size: u64, probe: Option<Seq<Seq<char>>>) -> Seq<Seq<char>> {
    seq!["🎬 Video File"@, Seq::empty(), "📄 "@ + file_name, "💾 "@ + size_text(size as nat), Seq::empty()] + match probe {
        Some(p) => p,
        None => seq!["ℹ️ Install ffmpeg for thumbnails"@],
    } + seq![
        Seq::empty(),
        "    ╭───────────────╮"@,
        "    │   ▶  PLAY     │"@,
        "    ╰───────────────╯"@,
        Seq::empty(),
        "  Enter or 'o' to open"@
    ]
}

/// The preview of a video without a frame (see `video_fallback_spec`).
pub fn video_fallback(file_name: &str, size: u64, probe: Option<Vec<String>>) -> (r: Vec<String>)
    ensures
        lines_of(r@) == video_fallback_spec(file_name@, size, opt_lines(probe)),
{
    let mut r: Vec<String> = Vec::new();
    r.push("🎬 Video File".to_owned());
    r.push(String::new());
    r.push(text_concat("📄 ", file_name));
    r.push(text_concat("💾 ", format_size(size).as_str()));
    r.push(String::new());
    let ghost head = seq!["🎬 Video File"@, Seq::empty(), "📄 "@ + file_name@, "💾 "@ + size_text(size as nat), Seq::empty()];
    assert(lines_of(r@) =~= head);
    let ghost mid = head + match opt_lines(probe) {
        Some(p) => p,
        None => seq!["ℹ️ Install ffmpeg for thumbnails"@],
    };
    match probe {
        Some(p) => {
            append_lines(&mut r, p);
        },
        None => {
            r.push("ℹ️ Install ffmpeg for thumbnails".to_owned());
        },
    }
    assert(lines_of(r@) =~= mid);
    r.push(String::new());
    r.push("    ╭───────────────╮".to_owned());
    r.push("    │   ▶  PLAY     │".to_owned());
    r.push("    ╰───────────────╯".to_owned());
    r.push(String::new());
    r.push("  Enter or 'o' to open".to_owned());
    assert(lines_of(r@) =~= video_fallback_spec(file_name@, size, opt_lines(probe)));
    r
}

} // verus!
