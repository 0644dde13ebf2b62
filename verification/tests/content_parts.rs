use codex_mimo_shim::content::{
    audio_format_from_mime, normalize_audio_format, normalize_content, split_data_url,
    validate_audio_data, validate_base64_string_size, validate_image_data_url_if_present,
    AudioFormat, MAX_BASE64_STRING_BYTES,
};
use codex_mimo_shim::json::{Json, Number};

fn content_value(v: &serde_json::Value) -> Json {
    match v {
        serde_json::Value::Null => Json::Null,
        serde_json::Value::Bool(b) => Json::Bool(*b),
        serde_json::Value::Number(n) => {
            if let Some(u) = n.as_u64() {
                Json::Number(Number::PosInt(u))
            } else if let Some(i) = n.as_i64() {
                Json::Number(Number::NegInt(i))
            } else {
                Json::Number(Number::Float(n.to_string()))
            }
        }
        serde_json::Value::String(s) => Json::Str(s.clone()),
        serde_json::Value::Array(a) => Json::Array(a.iter().map(content_value).collect()),
        serde_json::Value::Object(m) => {
            Json::object(m.iter().map(|(k, v)| (k.clone(), content_value(v))).collect())
        }
    }
}

fn content_json(text: &str) -> Json {
    content_value(&serde_json::from_str(text).expect("test JSON"))
}

fn part(content: &Json, i: usize) -> &Json {
    &content.as_array().expect("array")[i]
}

#[test]
fn normalizes_input_image_to_image_url() {
    let content = normalize_content(Some(&content_json(
        r#"[{"type":"input_image", "image_url":"https://example.com/a.png"}]"#,
    )))
    .expect("content should normalize");

    assert_eq!(part(&content, 0).get_str("type"), Some("image_url"));
    assert_eq!(
        part(&content, 0).get("image_url").unwrap().get_str("url"),
        Some("https://example.com/a.png")
    );
}

#[test]
fn preserves_input_audio_and_infers_format_from_data_url() {
    let content = normalize_content(Some(&content_json(
        r#"[
            {"type":"input_audio", "input_audio":{"data":"data:audio/mpeg;base64,AAAA"}},
            {"type":"text", "text":"describe audio"}
        ]"#,
    )))
    .expect("content should normalize");

    assert_eq!(part(&content, 0).get_str("type"), Some("input_audio"));
    assert_eq!(
        part(&content, 0).get("input_audio").unwrap().get_str("data"),
        Some("data:audio/mpeg;base64,AAAA")
    );
    assert_eq!(
        part(&content, 0).get("input_audio").unwrap().get_str("format"),
        Some("mp3")
    );
    assert_eq!(part(&content, 1).get_str("type"), Some("text"));
}

#[test]
fn rejects_unsupported_audio_format() {
    let err = normalize_content(Some(&content_json(
        r#"[{"type":"input_audio", "input_audio":{"data":"data:audio/aac;base64,AAAA"}}]"#,
    )))
    .expect_err("aac should be rejected by the strict allowlist");

    assert!(err.message().contains("unsupported input_audio MIME type"));
}

#[test]
fn rejects_base64_strings_larger_than_50mb() {
    let too_large = "A".repeat(MAX_BASE64_STRING_BYTES + 1);
    let err = validate_audio_data(&too_large, Some("mp3"))
        .expect_err("oversized base64 should be rejected");

    assert!(err.message().contains("exceeds 50 MB"));
}

#[test]
fn rejects_unknown_content_part_type() {
    let err = normalize_content(Some(&content_json(r#"[{"type":"file", "file_id":"file_x"}]"#)))
        .expect_err("unknown part type should be rejected");

    assert!(err.message().contains("unsupported content part type"));
}

#[test]
fn base64_size_ignores_ascii_white_space() {
    let mut padded = "A".repeat(MAX_BASE64_STRING_BYTES);
    padded.push_str(" \n\t\r");
    assert!(validate_base64_string_size(&padded, "image").is_ok());

    let too_large = "A".repeat(MAX_BASE64_STRING_BYTES + 1);
    let err = validate_base64_string_size(&too_large, "image").unwrap_err();
    assert_eq!(err.message(), "image base64 string exceeds 50 MB limit");
}

#[test]
fn splits_data_urls_and_names_each_defect() {
    let (mime, payload) = split_data_url("data:audio/mpeg;base64,AAAA").unwrap().unwrap();
    assert_eq!(mime, "audio/mpeg");
    assert_eq!(payload, "AAAA");
    let (_, payload) = split_data_url("data:image/png;base64,AA,BB").unwrap().unwrap();
    assert_eq!(payload, "AA,BB");
    assert!(split_data_url("https://example.com/a.png").unwrap().is_none());

    assert_eq!(
        split_data_url("data:audio/mpeg;base64").unwrap_err().message(),
        "data URL must contain a comma before base64 payload"
    );
    assert_eq!(
        split_data_url("data:audio/mpeg,AAAA").unwrap_err().message(),
        "data URL must use ;base64 encoding"
    );
    assert_eq!(
        split_data_url("data:;base64,AAAA").unwrap_err().message(),
        "data URL must include a MIME type"
    );
}

#[test]
fn audio_formats_accept_aliases_in_any_case() {
    assert_eq!(normalize_audio_format("WAVE"), Some(AudioFormat::Wav));
    assert_eq!(normalize_audio_format("mp4"), Some(AudioFormat::M4a));
    assert_eq!(normalize_audio_format("Oga"), Some(AudioFormat::Ogg));
    assert_eq!(normalize_audio_format("aac"), None);
    assert_eq!(audio_format_from_mime("Audio/X-M4A"), Some(AudioFormat::M4a));
    assert_eq!(audio_format_from_mime("application/ogg"), Some(AudioFormat::Ogg));
    assert_eq!(audio_format_from_mime("audio/aac"), None);
    assert_eq!(AudioFormat::Flac.name(), "flac");
}

#[test]
fn every_mime_format_is_an_accepted_format_name() {
    for mime in [
        "audio/mpeg", "audio/mp3", "audio/wav", "audio/wave", "audio/x-wav", "audio/flac",
        "audio/mp4", "audio/m4a", "audio/x-m4a", "audio/ogg", "application/ogg",
    ] {
        let format = audio_format_from_mime(mime).unwrap();
        assert_eq!(normalize_audio_format(format.name()), Some(format));
    }
}

#[test]
fn audio_data_checks_explicit_format() {
    assert_eq!(
        validate_audio_data("data:audio/mpeg;base64,AAAA", Some("wav")).unwrap_err().message(),
        "input_audio format mismatch: data URL MIME implies mp3, but format is wav"
    );
    assert_eq!(
        validate_audio_data("AAAA", Some("aac")).unwrap_err().message(),
        "unsupported input_audio format: aac; supported formats are mp3, wav, flac, m4a, ogg"
    );
    assert_eq!(validate_audio_data("AAAA", Some("MP3")).unwrap(), Some(AudioFormat::Mp3));
    assert_eq!(validate_audio_data("AAAA", None).unwrap(), None);
    assert_eq!(
        validate_audio_data("data:audio/wav;base64,AAAA", Some("wave")).unwrap(),
        Some(AudioFormat::Wav)
    );
}

#[test]
fn image_urls_are_checked_only_when_inline() {
    assert!(validate_image_data_url_if_present("https://example.com/a.png").is_ok());
    assert!(validate_image_data_url_if_present("data:image/png;base64,AAAA").is_ok());
    assert_eq!(
        validate_image_data_url_if_present("data:image/png,AAAA").unwrap_err().message(),
        "data URL must use ;base64 encoding"
    );
}

#[test]
fn content_strings_pass_through_and_other_values_become_text() {
    let text = normalize_content(Some(&Json::text("hello"))).unwrap();
    assert_eq!(text.as_str(), Some("hello"));
    let empty = normalize_content(None).unwrap();
    assert_eq!(empty.as_str(), Some(""));
    let number = normalize_content(Some(&content_json("42"))).unwrap();
    assert_eq!(number.as_str(), Some("42"));
}

#[test]
fn content_parts_without_type_are_dropped() {
    let content = normalize_content(Some(&content_json(
        r#"[{"text":"no type"}, "bare", {"type":"output_text","text":"kept"}]"#,
    )))
    .unwrap();
    assert_eq!(content.as_array().unwrap().len(), 1);
    assert_eq!(part(&content, 0).get_str("text"), Some("kept"));
    assert_eq!(part(&content, 0).get_str("type"), Some("text"));
}

#[test]
fn image_url_part_needs_url() {
    let err = normalize_content(Some(&content_json(r#"[{"type":"image_url"}]"#))).unwrap_err();
    assert_eq!(err.message(), "image_url content part must contain image_url or url");
    let err = normalize_content(Some(&content_json(r#"[{"type":"input_audio"}]"#))).unwrap_err();
    assert_eq!(err.message(), "input_audio content part must contain input_audio object");
}

#[test]
fn data_url_parts_rebuild_the_url() {
    for url in [
        "data:audio/mpeg;base64,AAAA",
        "data:image/png;base64,",
        "data:text/plain;charset=utf-8;base64,QQ==,extra",
    ] {
        let (mime, payload) = split_data_url(url).unwrap().unwrap();
        assert!(!mime.contains(','));
        assert_eq!(format!("data:{mime};base64,{payload}"), url);
    }
}

#[test]
fn mime_types_are_recognised_in_any_case() {
    for mime in ["audio/mpeg", "audio/x-m4a", "application/ogg", "audio/aac"] {
        assert_eq!(audio_format_from_mime(&mime.to_ascii_uppercase()), audio_format_from_mime(mime));
    }
    assert_eq!(audio_format_from_mime("AUDIO/X-M4A"), Some(AudioFormat::M4a));
}
