//! Normalization of message content: text, image and audio parts, and the checks on
//! inline (data URL / base64) payloads.
use vstd::prelude::*;
use crate::error::{ShimError, invalid, is_invalid};
use crate::json::{Json, JsonV, entries_view, items_view, jobj, jstr, obj_get, opt_str_view, opt_view};
use crate::text::{lower_char, ascii_lowercase, first_index, has_prefix, lowercase_ascii, owned, push_str, split_once_char, text_eq};

verus! {

broadcast use vstd::std_specs::vec::group_vec_axioms;

/// The largest base64 payload accepted, in bytes that are not ASCII white space.
pub const MAX_BASE64_STRING_BYTES: usize = 50 * 1024 * 1024;

/// `u8::is_ascii_whitespace`: space, tab, line feed, form feed, carriage return.
pub open spec fn is_ascii_ws(b: u8) -> bool {
    b == 32 || b == 9 || b == 10 || b == 12 || b == 13
}

/// The number of bytes of `b` that are not ASCII white space.
pub open spec fn significant_len(b: Seq<u8>) -> nat
    decreases b.len(),
{
    if b.len() == 0 {
        0
    } else {
        significant_len(b.drop_last()) + if is_ascii_ws(b.last()) {
            0nat
        } else {
            1nat
        }
    }
}

/// The number of UTF-8 bytes of `s` that are not ASCII white space.
pub open spec fn base64_size(s: Seq<char>) -> nat {
    significant_len(vstd::utf8::encode_utf8(s))
}

/// The size check on a base64 payload named `field`.
pub open spec fn size_check(s: Seq<char>, field: Seq<char>) -> Result<(), Seq<char>> {
    if base64_size(s) > MAX_BASE64_STRING_BYTES {
        Err(field + " base64 string exceeds 50 MB limit"@)
    } else {
        Ok(())
    }
}

/// Rejects a base64 payload larger than 50 MB.
pub fn validate_base64_string_size(encoded: &str, field_name: &str) -> (r: Result<(), ShimError>)
    ensures
        match size_check(encoded@, field_name@) {
            Ok(_) => r is Ok,
            Err(m) => r matches Err(e) && is_invalid(e, m),
        },
{
    let bytes = encoded.as_bytes();
    let mut count: usize = 0;
    let mut i: usize = 0;
    while i < bytes.len()
        invariant
            i <= bytes.len(),
            bytes@ == vstd::utf8::encode_utf8(encoded@),
            count == significant_len(bytes@.take(i as int)),
            count <= i,
        decreases bytes.len() - i,
    {
        let b = bytes[i];
        assert(bytes@.take(i + 1).drop_last() =~= bytes@.take(i as int));
        if !(b == 32 || b == 9 || b == 10 || b == 12 || b == 13) {
            count += 1;
        }
        i += 1;
    }
    assert(bytes@.take(bytes.len() as int) =~= bytes@);
    if count > MAX_BASE64_STRING_BYTES {
        let mut msg = owned(field_name);
        push_str(&mut msg, " base64 string exceeds 50 MB limit");
        return Err(ShimError::InvalidRequest(msg));
    }
    Ok(())
}

/// The parts of a `data:` URL: `Ok(None)` when the text is no data URL, otherwise the
/// MIME type and the payload after the first comma, or the reason it is malformed.
pub open spec fn data_url_parts(value: Seq<char>) -> Result<Option<(Seq<char>, Seq<char>)>, Seq<char>> {
    if !(5 <= value.len() && value.take(5) == "data:"@) {
        Ok(None)
    } else {
        match first_index(value, ',') {
            None => Err("data URL must contain a comma before base64 payload"@),
            Some(i) => {
                let metadata = value.take(i);
                let encoded = value.skip(i + 1);
                if !(7 <= metadata.len() && metadata.skip(metadata.len() - 7) == ";base64"@) {
                    Err("data URL must use ;base64 encoding"@)
                } else {
                    let mime = if metadata.len() >= 12 {
                        metadata.subrange(5, metadata.len() - 7)
                    } else {
                        ""@
                    };
                    if mime.len() == 0 {
                        Err("data URL must include a MIME type"@)
                    } else {
                        Ok(Some((mime, encoded)))
                    }
                }
            },
        }
    }
}

/// Splits a `data:` URL into its MIME type and payload (see `data_url_parts`).
pub fn split_data_url(value: &str) -> (r: Result<Option<(String, String)>, ShimError>)
    ensures
        match data_url_parts(value@) {
            Ok(None) => r matches Ok(None),
            Ok(Some(parts)) => r matches Ok(Some(p)) && p.0@ == parts.0 && p.1@ == parts.1,
            Err(msg) => r matches Err(e) && is_invalid(e, msg),
        },
{
    proof {
        reveal_strlit("data:");
        reveal_strlit(";base64");
    }
    if !has_prefix(value, "data:") {
        return Ok(None);
    }
    proof {
        crate::text::lemma_first_index(value@, ',');
    }
    match split_once_char(value, ',') {
        None => Err(invalid("data URL must contain a comma before base64 payload")),
        Some((metadata, encoded)) => {
            if !crate::text::has_suffix(metadata.as_str(), ";base64") {
                return Err(invalid("data URL must use ;base64 encoding"));
            }
            let mc = crate::text::chars_of(metadata.as_str());
            let mime = if mc.len() >= 12 {
                crate::text::string_of_range(&mc, 5, mc.len() - 7)
            } else {
                proof {
                    reveal_strlit("");
                }
                let e = owned("");
                assert(e@ =~= ""@);
                e
            };
            if mime.as_str().is_empty() {
                return Err(invalid("data URL must include a MIME type"));
            }
            Ok(Some((mime, encoded)))
        },
    }
}

/// An audio format the provider accepts.
#[derive(PartialEq, Eq, Structural, Clone, Copy, Debug)]
pub enum AudioFormat {
    Mp3,
    Wav,
    Flac,
    M4a,
    Ogg,
}

/// The name a format is sent under.
pub open spec fn format_name(f: AudioFormat) -> Seq<char> {
    match f {
        AudioFormat::Mp3 => "mp3"@,
        AudioFormat::Wav => "wav"@,
        AudioFormat::Flac => "flac"@,
        AudioFormat::M4a => "m4a"@,
        AudioFormat::Ogg => "ogg"@,
    }
}

/// The format an audio MIME type stands for (compared without regard to ASCII case).
pub open spec fn format_of_mime(mime: Seq<char>) -> Option<AudioFormat> {
    let l = ascii_lowercase(mime);
    if l == "audio/mpeg"@ || l == "audio/mp3"@ {
        Some(AudioFormat::Mp3)
    } else if l == "audio/wav"@ || l == "audio/wave"@ || l == "audio/x-wav"@ {
        Some(AudioFormat::Wav)
    } else if l == "audio/flac"@ {
        Some(AudioFormat::Flac)
    } else if l == "audio/mp4"@ || l == "audio/m4a"@ || l == "audio/x-m4a"@ {
        Some(AudioFormat::M4a)
    } else if l == "audio/ogg"@ || l == "application/ogg"@ {
        Some(AudioFormat::Ogg)
    } else {
        None
    }
}

/// The format an explicit `format` field names (compared without regard to ASCII case).
pub open spec fn format_of_name(name: Seq<char>) -> Option<AudioFormat> {
    let l = ascii_lowercase(name);
    if l == "mp3"@ {
        Some(AudioFormat::Mp3)
    } else if l == "wav"@ || l == "wave"@ {
        Some(AudioFormat::Wav)
    } else if l == "flac"@ {
        Some(AudioFormat::Flac)
    } else if l == "m4a"@ || l == "mp4"@ {
        Some(AudioFormat::M4a)
    } else if l == "ogg"@ || l == "oga"@ {
        Some(AudioFormat::Ogg)
    } else {
        None
    }
}

impl AudioFormat {
    pub fn name(&self) -> (r: &'static str)
        ensures
            r@ == format_name(*self),
    {
        match self {
            AudioFormat::Mp3 => "mp3",
            AudioFormat::Wav => "wav",
            AudioFormat::Flac => "flac",
            AudioFormat::M4a => "m4a",
            AudioFormat::Ogg => "ogg",
        }
    }
}

fn is_one_of2(s: &str, a: &str, b: &str) -> (r: bool)
    ensures
        r == (s@ == a@ || s@ == b@),
{
    text_eq(s, a) || text_eq(s, b)
}

fn is_one_of3(s: &str, a: &str, b: &str, c: &str) -> (r: bool)
    ensures
        r == (s@ == a@ || s@ == b@ || s@ == c@),
{
    text_eq(s, a) || text_eq(s, b) || text_eq(s, c)
}

/// The format an audio MIME type stands for.
pub fn audio_format_from_mime(mime: &str) -> (r: Option<AudioFormat>)
    ensures
        r == format_of_mime(mime@),
{
    let lower = lowercase_ascii(mime);
    let l = lower.as_str();
    if is_one_of2(l, "audio/mpeg", "audio/mp3") {
        Some(AudioFormat::Mp3)
    } else if is_one_of3(l, "audio/wav", "audio/wave", "audio/x-wav") {
        Some(AudioFormat::Wav)
    } else if text_eq(l, "audio/flac") {
        Some(AudioFormat::Flac)
    } else if is_one_of3(l, "audio/mp4", "audio/m4a", "audio/x-m4a") {
        Some(AudioFormat::M4a)
    } else if is_one_of2(l, "audio/ogg", "application/ogg") {
        Some(AudioFormat::Ogg)
    } else {
        None
    }
}

/// The format an explicit `format` field names.
pub fn normalize_audio_format(format: &str) -> (r: Option<AudioFormat>)
    ensures
        r == format_of_name(format@),
{
    let lower = lowercase_ascii(format);
    let l = lower.as_str();
    if text_eq(l, "mp3") {
        Some(AudioFormat::Mp3)
    } else if is_one_of2(l, "wav", "wave") {
        Some(AudioFormat::Wav)
    } else if text_eq(l, "flac") {
        Some(AudioFormat::Flac)
    } else if is_one_of2(l, "m4a", "mp4") {
        Some(AudioFormat::M4a)
    } else if is_one_of2(l, "ogg", "oga") {
        Some(AudioFormat::Ogg)
    } else {
        None
    }
}

proof fn lemma_format_name_round_trip(f: AudioFormat)
    ensures
        format_of_name(format_name(f)) == Some(f),
{
    reveal_strlit("mp3");
    reveal_strlit("wav");
    reveal_strlit("wave");
    reveal_strlit("flac");
    reveal_strlit("m4a");
    reveal_strlit("mp4");
    reveal_strlit("ogg");
    reveal_strlit("oga");
    let n = format_name(f);
    assert(ascii_lowercase(n) =~= n);
    match f {
        AudioFormat::Mp3 => {},
        AudioFormat::Wav => {
            assert(n[0] != "mp3"@[0]);
        },
        AudioFormat::Flac => {
            assert(n[0] != "mp3"@[0]);
            assert(n[0] != "wav"@[0]);
            assert(n[0] != "wave"@[0]);
        },
        AudioFormat::M4a => {
            assert(n[1] != "mp3"@[1]);
            assert(n[0] != "wav"@[0]);
            assert(n[0] != "wave"@[0]);
            assert(n[0] != "flac"@[0]);
        },
        AudioFormat::Ogg => {
            assert(n[0] != "mp3"@[0]);
            assert(n[0] != "wav"@[0]);
            assert(n[0] != "wave"@[0]);
            assert(n[0] != "flac"@[0]);
            assert(n[0] != "m4a"@[0]);
            assert(n[0] != "mp4"@[0]);
        },
    }
}

/// Every format inferred from a MIME type is accepted as an explicit format and names
/// the same format, so an explicit format that names what the MIME type implies never
/// counts as a mismatch.
pub proof fn law_mime_formats_are_accepted_names(mime: Seq<char>)
    requires
        format_of_mime(mime) is Some,
    ensures
        format_of_name(format_name(format_of_mime(mime)->Some_0)) == format_of_mime(mime),
{
    lemma_format_name_round_trip(format_of_mime(mime)->Some_0);
}

/// The message for an unsupported MIME type.
pub open spec fn unsupported_mime_message(mime: Seq<char>) -> Seq<char> {
    "unsupported input_audio MIME type: "@ + mime + "; supported formats are mp3, wav, flac, m4a, ogg"@
}

/// The message for an unsupported explicit format.
pub open spec fn unsupported_format_message(format: Seq<char>) -> Seq<char> {
    "unsupported input_audio format: "@ + format + "; supported formats are mp3, wav, flac, m4a, ogg"@
}

/// The message for an explicit format that contradicts the data URL's MIME type.
pub open spec fn mismatch_message(inferred: AudioFormat, explicit: AudioFormat) -> Seq<char> {
    "input_audio format mismatch: data URL MIME implies "@ + format_name(inferred) + ", but format is "@
        + format_name(explicit)
}

/// The checks on an audio payload: its size, the format its MIME type implies, and the
/// explicit format, which must be supported and agree with the MIME type.
pub open spec fn audio_check(data: Seq<char>, explicit: Option<Seq<char>>) -> Result<Option<AudioFormat>, Seq<char>> {
    let inferred: Result<Option<AudioFormat>, Seq<char>> = match data_url_parts(data) {
        Err(m) => Err(m),
        Ok(Some(parts)) => match size_check(parts.1, "audio"@) {
            Err(m) => Err(m),
            Ok(_) => match format_of_mime(parts.0) {
                Some(f) => Ok(Some(f)),
                None => Err(unsupported_mime_message(parts.0)),
            },
        },
        Ok(None) => match size_check(data, "audio"@) {
            Err(m) => Err(m),
            Ok(_) => Ok(None),
        },
    };
    match inferred {
        Err(m) => Err(m),
        Ok(inf) => match explicit {
            None => Ok(inf),
            Some(fmt) => match format_of_name(fmt) {
                None => Err(unsupported_format_message(fmt)),
                Some(n) => match inf {
                    Some(i) => if i != n {
                        Err(mismatch_message(i, n))
                    } else {
                        Ok(Some(n))
                    },
                    None => Ok(Some(n)),
                },
            },
        },
    }
}

fn message3(a: &str, b: &str, c: &str) -> (r: String)
    ensures
        r@ == a@ + b@ + c@,
{
    let mut out = owned(a);
    push_str(&mut out, b);
    push_str(&mut out, c);
    out
}

/// Checks an audio payload and gives its format (see `audio_check`).
pub fn validate_audio_data(data: &str, explicit_format: Option<&str>) -> (r: Result<Option<AudioFormat>, ShimError>)
    ensures
        match audio_check(data@, opt_str_view(explicit_format)) {
            Ok(f) => r == Ok::<Option<AudioFormat>, ShimError>(f),
            Err(m) => r matches Err(e) && is_invalid(e, m),
        },
{
    let mut inferred: Option<AudioFormat> = None;
    match split_data_url(data) {
        Err(e) => {
            return Err(e);
        },
        Ok(Some((mime, encoded))) => {
            match validate_base64_string_size(encoded.as_str(), "audio") {
                Err(e) => {
                    return Err(e);
                },
                Ok(_) => {},
            }
            match audio_format_from_mime(mime.as_str()) {
                Some(f) => {
                    inferred = Some(f);
                },
                None => {
                    return Err(ShimError::InvalidRequest(message3("unsupported input_audio MIME type: ", mime.as_str(), "; supported formats are mp3, wav, flac, m4a, ogg")));
                },
            }
        },
        Ok(None) => {
            match validate_base64_string_size(data, "audio") {
                Err(e) => {
                    return Err(e);
                },
                Ok(_) => {},
            }
        },
    }
    match explicit_format {
        Some(format) => {
            let normalized = match normalize_audio_format(format) {
                Some(n) => n,
                None => {
                    return Err(ShimError::InvalidRequest(message3("unsupported input_audio format: ", format, "; supported formats are mp3, wav, flac, m4a, ogg")));
                },
            };
            match inferred {
                Some(i) => {
                    if i != normalized {
                        let mut msg = owned("input_audio format mismatch: data URL MIME implies ");
                        push_str(&mut msg, i.name());
                        push_str(&mut msg, ", but format is ");
                        push_str(&mut msg, normalized.name());
                        return Err(ShimError::InvalidRequest(msg));
                    }
                },
                None => {},
            }
            Ok(Some(normalized))
        },
        None => Ok(inferred),
    }
}

/// `r` is the outcome `s` describes: the same value, or an invalid-request error with
/// the described message.
pub open spec fn unit_outcome(r: Result<(), ShimError>, s: Result<(), Seq<char>>) -> bool {
    match s {
        Ok(_) => r is Ok,
        Err(m) => r matches Err(e) && is_invalid(e, m),
    }
}

pub open spec fn json_outcome(r: Result<Json, ShimError>, s: Result<JsonV, Seq<char>>) -> bool {
    match s {
        Ok(v) => r matches Ok(j) && j@ == v,
        Err(m) => r matches Err(e) && is_invalid(e, m),
    }
}

pub open spec fn part_outcome(r: Result<Option<Json>, ShimError>, s: Result<Option<JsonV>, Seq<char>>) -> bool {
    match s {
        Ok(Some(v)) => r matches Ok(Some(j)) && j@ == v,
        Ok(None) => r matches Ok(None),
        Err(m) => r matches Err(e) && is_invalid(e, m),
    }
}

/// The check on an image URL: a data URL must be well formed and its payload within the
/// size limit; any other URL passes.
pub open spec fn image_url_check(url: Seq<char>) -> Result<(), Seq<char>> {
    match data_url_parts(url) {
        Err(m) => Err(m),
        Ok(Some(parts)) => size_check(parts.1, "image"@),
        Ok(None) => Ok(()),
    }
}

/// Checks an image URL (see `image_url_check`).
pub fn validate_image_data_url_if_present(url: &str) -> (r: Result<(), ShimError>)
    ensures
        unit_outcome(r, image_url_check(url@)),
{
    match split_data_url(url) {
        Err(e) => Err(e),
        Ok(Some((_mime, encoded))) => validate_base64_string_size(encoded.as_str(), "image"),
        Ok(None) => Ok(()),
    }
}

/// `{"url": url}`.
pub open spec fn url_object(url: Seq<char>) -> JsonV {
    jobj(seq![("url"@, jstr(url))])
}

/// An `image_url` payload: an object with a `url` (kept as it is) or a bare URL string
/// (wrapped into such an object).
pub open spec fn image_url_payload(image_url: JsonV) -> Result<JsonV, Seq<char>> {
    match image_url.get_str("url"@) {
        Some(url) => match image_url_check(url) {
            Err(m) => Err(m),
            Ok(_) => Ok(image_url),
        },
        None => match image_url.as_str() {
            Some(url) => match image_url_check(url) {
                Err(m) => Err(m),
                Ok(_) => Ok(url_object(url)),
            },
            None => Err("image_url must be an object with url or a URL string"@),
        },
    }
}

/// An `image_url` or `input_image` part, as a chat `image_url` part.
pub open spec fn image_url_part(part: JsonV, missing: Seq<char>) -> Result<Option<JsonV>, Seq<char>> {
    match part.get("image_url"@) {
        Some(iu) => match image_url_payload(iu) {
            Err(m) => Err(m),
            Ok(n) => Ok(Some(jobj(seq![("type"@, jstr("image_url"@)), ("image_url"@, n)]))),
        },
        None => match part.get_str("url"@) {
            Some(url) => match image_url_check(url) {
                Err(m) => Err(m),
                Ok(_) => Ok(Some(jobj(seq![("type"@, jstr("image_url"@)), ("image_url"@, url_object(url))]))),
            },
            None => Err(missing),
        },
    }
}

/// An `image` part, kept with its `source`.
pub open spec fn image_part(part: JsonV) -> Result<Option<JsonV>, Seq<char>> {
    match part.get("source"@) {
        None => Err("image content part must contain source"@),
        Some(source) => {
            let checked = match source.get_str("url"@) {
                Some(url) => image_url_check(url),
                None => Ok(()),
            };
            match checked {
                Err(m) => Err(m),
                Ok(_) => Ok(Some(jobj(seq![("type"@, jstr("image"@)), ("source"@, source)]))),
            }
        },
    }
}

/// An `input_audio` part: the payload is checked and, when it carries no `format`
/// member, the format its data URL implies is added.
pub open spec fn audio_part(part: JsonV) -> Result<Option<JsonV>, Seq<char>> {
    match part.get("input_audio"@) {
        Some(JsonV::Object(ia)) => match JsonV::Object(ia).get_str("data"@) {
            None => Err("input_audio.input_audio.data must be a base64 string or data URL"@),
            Some(data) => match audio_check(data, JsonV::Object(ia).get_str("format"@)) {
                Err(m) => Err(m),
                Ok(inferred) => {
                    let normalized = if obj_get(ia, "format"@) is None && inferred is Some {
                        crate::json::obj_insert(ia, "format"@, jstr(format_name(inferred->Some_0)))
                    } else {
                        ia
                    };
                    Ok(Some(jobj(seq![("type"@, jstr("input_audio"@)), ("input_audio"@, JsonV::Object(normalized))])))
                },
            },
        },
        _ => Err("input_audio content part must contain input_audio object"@),
    }
}

/// One content part: text parts become chat `text` parts, image and audio parts are
/// normalized, parts that are no objects or have no type are dropped, and any other type
/// is rejected.
pub open spec fn content_part(part: JsonV) -> Result<Option<JsonV>, Seq<char>> {
    match part {
        JsonV::Object(_) => {
            let ty = part.get_str("type"@);
            if ty == Some("text"@) || ty == Some("input_text"@) || ty == Some("output_text"@) {
                let text = match part.get_str("text"@) {
                    Some(t) => t,
                    None => ""@,
                };
                Ok(Some(jobj(seq![("type"@, jstr("text"@)), ("text"@, jstr(text))])))
            } else if ty == Some("image_url"@) {
                image_url_part(part, "image_url content part must contain image_url or url"@)
            } else if ty == Some("input_image"@) {
                image_url_part(part, "input_image content part must contain image_url or url"@)
            } else if ty == Some("image"@) {
                image_part(part)
            } else if ty == Some("input_audio"@) {
                audio_part(part)
            } else {
                match ty {
                    Some(other) => Err("unsupported content part type: "@ + other),
                    None => Ok(None),
                }
            }
        },
        _ => Ok(None),
    }
}

/// The normalized parts of a content array, in order; the first rejected part decides
/// the error.
pub open spec fn content_parts(parts: Seq<JsonV>) -> Result<Seq<JsonV>, Seq<char>>
    decreases parts.len(),
{
    if parts.len() == 0 {
        Ok(Seq::empty())
    } else {
        match content_parts(parts.drop_last()) {
            Err(m) => Err(m),
            Ok(prev) => match content_part(parts.last()) {
                Err(m) => Err(m),
                Ok(None) => Ok(prev),
                Ok(Some(p)) => Ok(prev.push(p)),
            },
        }
    }
}

proof fn lemma_content_parts_error(s: Seq<JsonV>, j: int)
    requires
        0 <= j <= s.len(),
        content_parts(s.take(j)) is Err,
    ensures
        content_parts(s) == content_parts(s.take(j)),
    decreases s.len() - j,
{
    if j < s.len() {
        assert(s.take(j + 1).drop_last() =~= s.take(j));
        lemma_content_parts_error(s, j + 1);
    } else {
        assert(s.take(j) =~= s);
    }
}

/// Message content: a string as it is, an array part by part, another value as its JSON
/// text, and nothing as the empty string.
pub open spec fn normalized_content(content: Option<JsonV>) -> Result<JsonV, Seq<char>> {
    match content {
        Some(JsonV::Str(t)) => Ok(JsonV::Str(t)),
        Some(JsonV::Array(parts)) => match content_parts(parts) {
            Err(m) => Err(m),
            Ok(ps) => Ok(JsonV::Array(ps)),
        },
        Some(other) => Ok(jstr(crate::wire::json_text(other))),
        None => Ok(jstr(""@)),
    }
}

fn kv(key: &str, value: Json) -> (r: (String, Json))
    ensures
        r.0@ == key@,
        r.1 == value,
{
    (owned(key), value)
}

fn url_object_json(url: &str) -> (r: Json)
    ensures
        r@ == url_object(url@),
{
    let v = vec![kv("url", Json::text(url))];
    assert(entries_view(v@) =~= seq![("url"@, jstr(url@))]);
    Json::object(v)
}

fn typed_part(ty: &str, key: &str, value: Json) -> (r: Json)
    ensures
        r@ == jobj(seq![("type"@, jstr(ty@)), (key@, value@)]),
{
    let ghost vv = value@;
    let v = vec![kv("type", Json::text(ty)), kv(key, value)];
    assert(entries_view(v@) =~= seq![("type"@, jstr(ty@)), (key@, vv)]);
    Json::object(v)
}

/// Normalizes an `image_url` payload (see `image_url_payload`).
pub fn normalize_image_url_payload(image_url: &Json) -> (r: Result<Json, ShimError>)
    ensures
        json_outcome(r, image_url_payload(image_url@)),
{
    match image_url.get_str("url") {
        Some(url) => {
            match validate_image_data_url_if_present(url) {
                Err(e) => Err(e),
                Ok(_) => Ok(image_url.deep_copy()),
            }
        },
        None => match image_url.as_str() {
            Some(url) => {
                match validate_image_data_url_if_present(url) {
                    Err(e) => Err(e),
                    Ok(_) => Ok(url_object_json(url)),
                }
            },
            None => Err(invalid("image_url must be an object with url or a URL string")),
        },
    }
}

fn normalize_image_url_like_part(part: &Json, missing: &str) -> (r: Result<Option<Json>, ShimError>)
    ensures
        part_outcome(r, image_url_part(part@, missing@)),
{
    match part.get("image_url") {
        Some(iu) => match normalize_image_url_payload(iu) {
            Err(e) => Err(e),
            Ok(n) => Ok(Some(typed_part("image_url", "image_url", n))),
        },
        None => match part.get_str("url") {
            Some(url) => match validate_image_data_url_if_present(url) {
                Err(e) => Err(e),
                Ok(_) => Ok(Some(typed_part("image_url", "image_url", url_object_json(url)))),
            },
            None => Err(invalid(missing)),
        },
    }
}

/// An `image_url` part.
pub fn normalize_image_url_part(part: &Json) -> (r: Result<Option<Json>, ShimError>)
    ensures
        part_outcome(r, image_url_part(part@, "image_url content part must contain image_url or url"@)),
{
    normalize_image_url_like_part(part, "image_url content part must contain image_url or url")
}

/// An `input_image` part.
pub fn normalize_input_image_part(part: &Json) -> (r: Result<Option<Json>, ShimError>)
    ensures
        part_outcome(r, image_url_part(part@, "input_image content part must contain image_url or url"@)),
{
    normalize_image_url_like_part(part, "input_image content part must contain image_url or url")
}

/// An `image` part.
pub fn normalize_image_part(part: &Json) -> (r: Result<Option<Json>, ShimError>)
    ensures
        part_outcome(r, image_part(part@)),
{
    let source = match part.get("source") {
        Some(s) => s,
        None => {
            return Err(invalid("image content part must contain source"));
        },
    };
    match source.get_str("url") {
        Some(url) => match validate_image_data_url_if_present(url) {
            Err(e) => {
                return Err(e);
            },
            Ok(_) => {},
        },
        None => {},
    }
    Ok(Some(typed_part("image", "source", source.deep_copy())))
}

/// An `input_audio` part.
pub fn normalize_input_audio_part(part: &Json) -> (r: Result<Option<Json>, ShimError>)
    ensures
        part_outcome(r, audio_part(part@)),
{
    let input_audio = match part.get("input_audio") {
        Some(ia) => if ia.is_object() {
            ia
        } else {
            return Err(invalid("input_audio content part must contain input_audio object"));
        },
        None => {
            return Err(invalid("input_audio content part must contain input_audio object"));
        },
    };
    let data = match input_audio.get_str("data") {
        Some(d) => d,
        None => {
            return Err(invalid("input_audio.input_audio.data must be a base64 string or data URL"));
        },
    };
    let format_from_field = input_audio.get_str("format");
    let inferred = match validate_audio_data(data, format_from_field) {
        Err(e) => {
            return Err(e);
        },
        Ok(f) => f,
    };
    let mut normalized_audio = input_audio.deep_copy();
    if input_audio.get("format").is_none() {
        match inferred {
            Some(f) => {
                normalized_audio.insert("format", Json::text(f.name()));
            },
            None => {},
        }
    }
    Ok(Some(typed_part("input_audio", "input_audio", normalized_audio)))
}

/// One content part (see `content_part`).
pub fn normalize_content_part(part: &Json) -> (r: Result<Option<Json>, ShimError>)
    ensures
        part_outcome(r, content_part(part@)),
{
    if !part.is_object() {
        return Ok(None);
    }
    let ty = part.get_str("type");
    if crate::json::opt_is(ty, "text") || crate::json::opt_is(ty, "input_text") || crate::json::opt_is(ty, "output_text") {
        let text = match part.get_str("text") {
            Some(t) => t,
            None => "",
        };
        Ok(Some(typed_part("text", "text", Json::text(text))))
    } else if crate::json::opt_is(ty, "image_url") {
        normalize_image_url_part(part)
    } else if crate::json::opt_is(ty, "input_image") {
        normalize_input_image_part(part)
    } else if crate::json::opt_is(ty, "image") {
        normalize_image_part(part)
    } else if crate::json::opt_is(ty, "input_audio") {
        normalize_input_audio_part(part)
    } else {
        match ty {
            Some(other) => {
                let mut msg = owned("unsupported content part type: ");
                push_str(&mut msg, other);
                Err(ShimError::InvalidRequest(msg))
            },
            None => Ok(None),
        }
    }
}

/// Message content (see `normalized_content`).
pub fn normalize_content(content: Option<&Json>) -> (r: Result<Json, ShimError>)
    ensures
        json_outcome(r, normalized_content(opt_view(content))),
{
    match content {
        Some(Json::Str(text)) => Ok(Json::Str(text.clone())),
        Some(Json::Array(parts)) => {
            proof {
                crate::json::lemma_array_view(*parts);
            }
            let ghost pv = items_view(parts@);
            let mut out: Vec<Json> = Vec::new();
            let mut i: usize = 0;
            assert(pv.take(0) =~= Seq::<JsonV>::empty());
            assert(items_view(out@) =~= Seq::<JsonV>::empty());
            while i < parts.len()
                invariant
                    i <= parts.len(),
                    pv == items_view(parts@),
                    opt_view(content) == Some(JsonV::Array(pv)),
                    content_parts(pv.take(i as int)) == Ok::<Seq<JsonV>, Seq<char>>(items_view(out@)),
                decreases parts.len() - i,
            {
                assert(pv.take(i + 1).drop_last() =~= pv.take(i as int));
                match normalize_content_part(&parts[i]) {
                    Err(e) => {
                        proof {
                            assert(pv.take(i + 1).last() == parts@[i as int]@);
                            assert(content_parts(pv.take(i + 1)) == Err::<Seq<JsonV>, Seq<char>>(content_part(parts@[i as int]@)->Err_0));
                            assert(opt_view(content) == Some(JsonV::Array(pv)));
                            lemma_content_parts_error(pv, i + 1);
                        }
                        return Err(e);
                    },
                    Ok(Some(n)) => {
                        let ghost before = out@;
                        out.push(n);
                        assert(items_view(out@) =~= items_view(before).push(n@));
                    },
                    Ok(None) => {},
                }
                i += 1;
            }
            assert(pv.take(parts.len() as int) =~= pv);
            proof {
                crate::json::lemma_array_view(out);
            }
            Ok(Json::Array(out))
        },
        Some(other) => Ok(Json::Str(other.to_text())),
        None => Ok(Json::text("")),
    }
}

/// The parts of a data URL give it back: `data:`, the MIME type, `;base64,` and the
/// payload, and the MIME type holds no comma.
pub proof fn law_data_url_parts_rebuild(value: Seq<char>)
    requires
        data_url_parts(value) is Ok,
        data_url_parts(value)->Ok_0 is Some,
    ensures
        ({
            let (mime, payload) = data_url_parts(value)->Ok_0->Some_0;
            &&& value == "data:"@ + mime + ";base64,"@ + payload
            &&& !mime.contains(',')
        }),
{
    reveal_strlit("data:");
    reveal_strlit(";base64");
    reveal_strlit(";base64,");
    crate::text::lemma_first_index(value, ',');
    let i = first_index(value, ',')->Some_0;
    let metadata = value.take(i);
    let (mime, payload) = data_url_parts(value)->Ok_0->Some_0;
    reveal_strlit("");
    assert(mime.len() > 0);
    assert(metadata.len() >= 12);
    assert(mime == metadata.subrange(5, metadata.len() - 7));
    assert(metadata =~= "data:"@ + mime + ";base64"@) by {
        assert(metadata.take(5) =~= value.take(5));
        assert forall|k: int| 0 <= k < metadata.len() implies metadata[k] == ("data:"@ + mime + ";base64"@)[k] by {
            if k < 5 {
                assert(metadata[k] == metadata.take(5)[k]);
            } else if k < metadata.len() - 7 {
                assert(mime[k - 5] == metadata[k]);
            } else {
                assert(metadata.skip(metadata.len() - 7)[k - (metadata.len() - 7)] == metadata[k]);
            }
        }
    }
    assert(value =~= metadata + seq![','] + payload);
    assert(";base64,"@ =~= ";base64"@ + seq![',']);
    assert(value =~= "data:"@ + mime + ";base64,"@ + payload);
    assert forall|k: int| 0 <= k < mime.len() implies mime[k] != ',' by {
        assert(mime[k] == value[k + 5]);
    }
}

/// Recognising audio formats ignores ASCII case: MIME types (and explicit format names)
/// that agree up to ASCII case give the same format, in particular a MIME type and its
/// ASCII uppercase form.
pub proof fn law_audio_formats_ignore_case(a: Seq<char>, b: Seq<char>)
    ensures
        ascii_lowercase(a) == ascii_lowercase(b) ==> format_of_mime(a) == format_of_mime(b),
        ascii_lowercase(a) == ascii_lowercase(b) ==> format_of_name(a) == format_of_name(b),
        format_of_mime(a.map_values(|c: char| crate::models::upper_char(c))) == format_of_mime(a),
{
    let up = a.map_values(|c: char| crate::models::upper_char(c));
    assert forall|i: int| 0 <= i < a.len() implies lower_char(#[trigger] up[i]) == lower_char(a[i]) by {
        let c = a[i];
        if 'a' <= c && c <= 'z' {
            assert(up[i] == ((c as u32) - 32) as char);
        }
    }
    assert(ascii_lowercase(up) =~= ascii_lowercase(a));
}

/// An `image_url` payload that is an object with a string `url` is passed on exactly as
/// given, every other member (such as `detail`) included, whenever the URL passes the
/// checks (a URL that is no data URL always does); an `image_url` content part carries
/// that same object.
pub proof fn law_image_url_object_is_kept(image_url: JsonV, part: JsonV)
    ensures
        ({
            let url = image_url.get_str("url"@)->Some_0;
            &&& (image_url.get_str("url"@) is Some && !(5 <= url.len() && url.take(5) == "data:"@)) ==> image_url_check(
                url,
            ) is Ok
            &&& (image_url.get_str("url"@) is Some && image_url_check(url) is Ok) ==> image_url_payload(image_url)
                == Ok::<JsonV, Seq<char>>(image_url)
            &&& (part is Object && part.get_str("type"@) == Some("image_url"@) && part.get("image_url"@) == Some(
                image_url,
            ) && image_url.get_str("url"@) is Some && image_url_check(url) is Ok) ==> (content_part(part) is Ok
                && content_part(part)->Ok_0 is Some && content_part(part)->Ok_0->Some_0.get("image_url"@) == Some(
                image_url,
            ) && content_part(part)->Ok_0->Some_0.get_str("type"@) == Some("image_url"@))
        }),
{
    reveal_strlit("type");
    reveal_strlit("image_url");
    reveal_strlit("text");
    reveal_strlit("input_text");
    reveal_strlit("output_text");
    assert("type"@.len() != "image_url"@.len());
    assert("image_url"@ != "text"@) by { assert("image_url"@.len() != "text"@.len()); }
    assert("image_url"@ != "input_text"@) by { assert("image_url"@.len() != "input_text"@.len()); }
    assert("image_url"@ != "output_text"@) by { assert("image_url"@.len() != "output_text"@.len()); }
    let pairs = seq![("type"@, jstr("image_url"@)), ("image_url"@, image_url)];
    crate::json::lemma_obj_of_get(pairs, "type"@);
    crate::json::lemma_obj_of_get(pairs, "image_url"@);
    let p1 = pairs.drop_last();
    assert(p1 =~= seq![("type"@, jstr("image_url"@))]);
    assert(p1.drop_last().len() == 0);
    assert(crate::json::pairs_get(p1, "type"@) == Some(jstr("image_url"@)));
    assert(pairs.last().0 == "image_url"@);
}

proof fn lemma_part_keys()
    ensures
        "type"@ != "text"@,
        "type"@ != "image_url"@,
        "type"@ != "input_audio"@,
        "data"@ != "format"@,
        "text"@ != "input_text"@,
        "text"@ != "output_text"@,
        "text"@ != "image_url"@,
        "text"@ != "input_image"@,
        "text"@ != "image"@,
        "text"@ != "input_audio"@,
        "input_text"@ != "output_text"@,
        "input_text"@ != "image_url"@,
        "input_text"@ != "input_image"@,
        "input_text"@ != "image"@,
        "input_text"@ != "input_audio"@,
        "output_text"@ != "image_url"@,
        "output_text"@ != "input_image"@,
        "output_text"@ != "image"@,
        "output_text"@ != "input_audio"@,
        "image_url"@ != "input_image"@,
        "image_url"@ != "image"@,
        "image_url"@ != "input_audio"@,
        "input_image"@ != "input_audio"@,
        "image"@ != "input_audio"@,
{
    reveal_strlit("type");
    reveal_strlit("text");
    reveal_strlit("input_text");
    reveal_strlit("output_text");
    reveal_strlit("image_url");
    reveal_strlit("input_image");
    reveal_strlit("image");
    reveal_strlit("input_audio");
    reveal_strlit("data");
    reveal_strlit("format");
    assert("type"@[1] != "text"@[1]);
    assert("type"@.len() != "image_url"@.len());
    assert("type"@.len() != "input_audio"@.len());
    assert("data"@.len() != "format"@.len());
    assert("text"@.len() != "input_text"@.len());
    assert("text"@.len() != "output_text"@.len());
    assert("text"@.len() != "image_url"@.len());
    assert("text"@.len() != "input_image"@.len());
    assert("text"@.len() != "image"@.len());
    assert("text"@.len() != "input_audio"@.len());
    assert("input_text"@.len() != "output_text"@.len());
    assert("input_text"@.len() != "image_url"@.len());
    assert("input_text"@.len() != "input_image"@.len());
    assert("input_text"@.len() != "image"@.len());
    assert("input_text"@.len() != "input_audio"@.len());
    assert("output_text"@[0] != "image_url"@[0]);
    assert("output_text"@[0] != "input_image"@[0]);
    assert("output_text"@.len() != "image"@.len());
    assert("output_text"@[0] != "input_audio"@[0]);
    assert("image_url"@.len() != "input_image"@.len());
    assert("image_url"@.len() != "image"@.len());
    assert("image_url"@.len() != "input_audio"@.len());
    assert("input_image"@[6] != "input_audio"@[6]);
    assert("image"@.len() != "input_audio"@.len());
}

/// Content parts keep what they carry: a text part of any of the three text types
/// becomes a chat `text` part with the same text (empty when it has none); an
/// `image_url` part whose payload is a bare URL string that passes the checks becomes a
/// chat `image_url` part with `{"url": that URL}`; and an accepted `input_audio` part
/// keeps its `input_audio` data, keeps a `format` member it has, and otherwise gains the
/// format its data URL implies, by that format's name.
pub proof fn law_content_parts_keep_their_payload(part: JsonV)
    requires
        part is Object,
    ensures
        ({
            let ty = part.get_str("type"@);
            let out = content_part(part);
            &&& (ty == Some("text"@) || ty == Some("input_text"@) || ty == Some("output_text"@)) ==> (out is Ok
                && out->Ok_0 is Some && out->Ok_0->Some_0.get_str("type"@) == Some("text"@)
                && out->Ok_0->Some_0.get_str("text"@) == Some(
                match part.get_str("text"@) {
                    Some(t) => t,
                    None => ""@,
                },
            ))
            &&& (ty == Some("image_url"@) && part.get("image_url"@) is Some && part.get("image_url"@)->Some_0 is Str
                && image_url_check(part.get("image_url"@)->Some_0->Str_0) is Ok) ==> (out is Ok && out->Ok_0 is Some
                && out->Ok_0->Some_0.get("image_url"@) is Some && out->Ok_0->Some_0.get("image_url"@)->Some_0.get_str(
                "url"@,
            ) == Some(part.get("image_url"@)->Some_0->Str_0))
            &&& (ty == Some("input_audio"@) && out is Ok) ==> ({
                let ia = part.get("input_audio"@)->Some_0;
                let na = out->Ok_0->Some_0.get("input_audio"@)->Some_0;
                &&& out->Ok_0 is Some
                &&& out->Ok_0->Some_0.get("input_audio"@) is Some
                &&& na.get("data"@) == ia.get("data"@)
                &&& ia.get("format"@) is Some ==> na.get("format"@) == ia.get("format"@)
                &&& ia.get("format"@) is None ==> na.get_str("format"@) == match audio_check(
                    ia.get_str("data"@)->Some_0,
                    None,
                )->Ok_0 {
                    Some(f) => Some(format_name(f)),
                    None => None,
                }
            })
        }),
{
    lemma_part_keys();
    reveal_strlit("url");
    reveal_with_fuel(crate::json::pairs_get, 3);
    let ty = part.get_str("type"@);
    if ty == Some("text"@) || ty == Some("input_text"@) || ty == Some("output_text"@) {
        let text = match part.get_str("text"@) {
            Some(t) => t,
            None => ""@,
        };
        let pairs = seq![("type"@, jstr("text"@)), ("text"@, jstr(text))];
        crate::json::lemma_obj_of_get(pairs, "type"@);
        crate::json::lemma_obj_of_get(pairs, "text"@);
    }
    match part.get("image_url"@) {
        Some(JsonV::Str(url)) => {
            crate::json::lemma_obj_of_get(seq![("url"@, jstr(url))], "url"@);
            let pairs = seq![("type"@, jstr("image_url"@)), ("image_url"@, url_object(url))];
            crate::json::lemma_obj_of_get(pairs, "image_url"@);
            reveal_strlit("url");
            assert(JsonV::Str(url).get_str("url"@) is None);
        },
        _ => {},
    }
    match part.get("input_audio"@) {
        Some(JsonV::Object(ia)) => {
            if ty == Some("input_audio"@) && content_part(part) is Ok {
                let data = JsonV::Object(ia).get_str("data"@)->Some_0;
                let inferred = audio_check(data, JsonV::Object(ia).get_str("format"@))->Ok_0;
                let normalized = if obj_get(ia, "format"@) is None && inferred is Some {
                    crate::json::law_get_after_insert(ia, "format"@, jstr(format_name(inferred->Some_0)), "data"@);
                    crate::json::law_get_after_insert(ia, "format"@, jstr(format_name(inferred->Some_0)), "format"@);
                    crate::json::obj_insert(ia, "format"@, jstr(format_name(inferred->Some_0)))
                } else {
                    ia
                };
                let pairs = seq![("type"@, jstr("input_audio"@)), ("input_audio"@, JsonV::Object(normalized))];
                crate::json::lemma_obj_of_get(pairs, "input_audio"@);
            }
        },
        _ => {},
    }
}

} // verus!
