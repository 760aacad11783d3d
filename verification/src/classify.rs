//! File-type identification from byte content.
//!
//! The file-format library inspects a buffer's structural signature and
//! reports a broad kind plus a short format name; the table here refines
//! that pair into an [`AssetType`]. Classification is total: a buffer
//! without a recognizable signature is `Other("UNIDENTIFIED")`.

use vstd::prelude::*;
use vstd::string::StrSliceExecFns;
use vstd::string::StringExecFns;
use crate::asset::Asset;
use crate::asset::AssetType;
use crate::asset::AssetTypeView;
use crate::asset::AssetView;
use crate::asset::views_of;
use crate::pack::all_have_data;

verus! {

/// The broad kind (e.g. `"Image"`, `"Audio"`) that the file-format library
/// detects for a byte buffer: a pure function of the bytes alone.
pub uninterp spec fn sig_kind(data: Seq<u8>) -> Seq<char>;

/// The short format name (e.g. `"PNG"`) that the file-format library
/// detects for a byte buffer: a pure function of the bytes alone.
pub uninterp spec fn sig_name(data: Seq<u8>) -> Option<Seq<char>>;

/// Relies on `file_format::FileFormat::from_bytes` and `Kind`: detection
/// reads only the buffer (no I/O, no environment), so the kind of the
/// detected format, rendered as the kind's variant name, is a function of
/// the bytes alone.
#[verifier::external_body]
fn signature_kind(data: &[u8]) -> (r: String)
    ensures
        r@ == sig_kind(data@),
{
    format!("{:?}", file_format::FileFormat::from_bytes(data).kind())
}

/// Relies on `file_format::FileFormat::from_bytes` and `short_name`:
/// detection reads only the buffer, so the detected format's short name is
/// a function of the bytes alone.
#[verifier::external_body]
fn signature_short_name(data: &[u8]) -> (r: Option<String>)
    ensures
        r is Some <==> sig_name(data@) is Some,
        r matches Some(s) ==> sig_name(data@) == Some(s@),
{
    file_format::FileFormat::from_bytes(data).short_name().map(|s| s.to_string())
}

/// Character-by-character string comparison.
pub fn str_eq(a: &str, b: &str) -> (r: bool)
    ensures
        r == (a@ == b@),
{
    let alen = a.unicode_len();
    let blen = b.unicode_len();
    if alen != blen {
        return false;
    }
    let mut i: usize = 0;
    while i < alen
        invariant
            alen == a@.len(),
            alen == b@.len(),
            0 <= i <= alen,
            forall|j: int| 0 <= j < i ==> a@[j] == b@[j],
        decreases alen - i,
    {
        if a.get_char(i) != b.get_char(i) {
            return false;
        }
        i = i + 1;
    }
    proof {
        assert(a@ =~= b@);
    }
    true
}

/// The view of an optional string.
pub open spec fn opt_view(o: Option<String>) -> Option<Seq<char>> {
    match o {
        Some(s) => Some(s@),
        None => None,
    }
}

/// Whether the short name matches a format name in either letter case.
fn short_is(short: &Option<String>, upper: &str, lower: &str) -> (r: bool)
    ensures
        r == (opt_view(*short) == Some(upper@) || opt_view(*short) == Some(lower@)),
{
    match short {
        Some(s) => str_eq(s.as_str(), upper) || str_eq(s.as_str(), lower),
        None => false,
    }
}

/// Refinement table for buffers whose kind is `Image`.
pub open spec fn image_type(short: Option<Seq<char>>) -> AssetTypeView {
    if short == Some("PNG"@) || short == Some("png"@) {
        AssetTypeView::Image("PNG"@)
    } else if short == Some("JPG"@) || short == Some("jpg"@) {
        AssetTypeView::Image("JPG"@)
    } else if short == Some("JPEG"@) || short == Some("jpeg"@) {
        AssetTypeView::Image("JPEG"@)
    } else if short == Some("GIF"@) || short == Some("gif"@) {
        AssetTypeView::Image("GIF"@)
    } else if short == Some("BMP"@) || short == Some("bmp"@) {
        AssetTypeView::Image("BMP"@)
    } else if short == Some("WEBP"@) || short == Some("webp"@) {
        AssetTypeView::Image("WEBP"@)
    } else if short == Some("ICO"@) || short == Some("ico"@) {
        AssetTypeView::Image("ICO"@)
    } else if short == Some("TIFF"@) || short == Some("tiff"@) {
        AssetTypeView::Image("TIFF"@)
    } else if short == Some("PICT"@) || short == Some("pict"@) {
        AssetTypeView::Image("PICT"@)
    } else if short == Some("PSD"@) || short == Some("psd"@) {
        AssetTypeView::Image("PSD"@)
    } else if short == Some("SVG"@) || short == Some("svg"@) {
        AssetTypeView::Image("SVG"@)
    } else {
        AssetTypeView::Other("IMAGE"@)
    }
}

/// Refinement table for buffers whose kind is `Audio`.
pub open spec fn audio_type(short: Option<Seq<char>>) -> AssetTypeView {
    if short == Some("MP3"@) || short == Some("mp3"@) {
        AssetTypeView::Audio("MP3"@)
    } else if short == Some("WAV"@) || short == Some("wav"@) {
        AssetTypeView::Audio("WAV"@)
    } else if short == Some("AIFF"@) || short == Some("aiff"@) {
        AssetTypeView::Audio("AIFF"@)
    } else if short == Some("FLAC"@) || short == Some("flac"@) {
        AssetTypeView::Audio("FLAC"@)
    } else if short == Some("OGG"@) || short == Some("ogg"@) {
        AssetTypeView::Audio("OGG"@)
    } else if short == Some("MIDI"@) || short == Some("midi"@) {
        AssetTypeView::Audio("MIDI"@)
    } else if short == Some("AAC"@) || short == Some("aac"@) {
        AssetTypeView::Audio("AAC"@)
    } else if short == Some("WMA"@) || short == Some("wma"@) {
        AssetTypeView::Audio("WMA"@)
    } else if short == Some("3GP"@) || short == Some("3gp"@) {
        AssetTypeView::Audio("3GP"@)
    } else {
        AssetTypeView::Other("AUDIO"@)
    }
}

/// Refinement table for buffers whose kind is `Model`.
pub open spec fn model_type(short: Option<Seq<char>>) -> AssetTypeView {
    if short == Some("OBJ"@) || short == Some("obj"@) {
        AssetTypeView::Model("OBJ"@)
    } else if short == Some("FBX"@) || short == Some("fbx"@) {
        AssetTypeView::Model("FBX"@)
    } else if short == Some("MAX"@) || short == Some("max"@) {
        AssetTypeView::Model("MAX"@)
    } else if short == Some("3DS"@) || short == Some("3ds"@) {
        AssetTypeView::Model("3DS"@)
    } else if short == Some("C4D"@) || short == Some("c4d"@) {
        AssetTypeView::Model("C4D"@)
    } else if short == Some("BLEND"@) || short == Some("blend"@) {
        AssetTypeView::Model("BLEND"@)
    } else if short == Some("MAYA"@) || short == Some("maya"@) {
        AssetTypeView::Model("MAYA"@)
    } else {
        AssetTypeView::Other("MODEL"@)
    }
}

/// Refinement table for buffers whose kind is `Text`: shaders and scripts
/// are both text formats.
pub open spec fn text_type(short: Option<Seq<char>>) -> AssetTypeView {
    if short == Some("SHADER"@) || short == Some("shader"@) {
        AssetTypeView::Shader("SHADER"@)
    } else if short == Some("GLSL"@) || short == Some("glsl"@) {
        AssetTypeView::Shader("GLSL"@)
    } else if short == Some("HLSL"@) || short == Some("hlsl"@) {
        AssetTypeView::Shader("HLSL"@)
    } else if short == Some("CGFX"@) || short == Some("cgfx"@) {
        AssetTypeView::Shader("CGFX"@)
    } else if short == Some("FX"@) || short == Some("fx"@) {
        AssetTypeView::Shader("FX"@)
    } else if short == Some("JS"@) || short == Some("js"@) {
        AssetTypeView::Script("JS"@)
    } else if short == Some("PY"@) || short == Some("py"@) {
        AssetTypeView::Script("PY"@)
    } else if short == Some("LUA"@) || short == Some("lua"@) {
        AssetTypeView::Script("LUA"@)
    } else if short == Some("VB"@) || short == Some("vb"@) {
        AssetTypeView::Script("VB"@)
    } else if short == Some("SCRIPT"@) || short == Some("script"@) {
        AssetTypeView::Script("SCRIPT"@)
    } else {
        AssetTypeView::Other("TEXT"@)
    }
}

/// Refinement table for buffers whose kind is `Font`.
pub open spec fn font_type(short: Option<Seq<char>>) -> AssetTypeView {
    if short == Some("TTF"@) || short == Some("ttf"@) {
        AssetTypeView::Font("TTF"@)
    } else if short == Some("OTF"@) || short == Some("otf"@) {
        AssetTypeView::Font("OTF"@)
    } else if short == Some("WOFF"@) || short == Some("woff"@) {
        AssetTypeView::Font("WOFF"@)
    } else if short == Some("WOFF2"@) || short == Some("woff2"@) {
        AssetTypeView::Font("WOFF2"@)
    } else if short == Some("EOT"@) || short == Some("eot"@) {
        AssetTypeView::Font("EOT"@)
    } else if short == Some("SVG"@) || short == Some("svg"@) {
        AssetTypeView::Font("SVG"@)
    } else {
        AssetTypeView::Other("FONT"@)
    }
}

/// The category assigned to a buffer with the given detected kind and short
/// name. Total: every pair maps to some category, and an unrecognized kind
/// maps to `Other("UNIDENTIFIED")`.
pub open spec fn classify_spec(kind: Seq<char>, short: Option<Seq<char>>) -> AssetTypeView {
    if kind == "Image"@ {
        image_type(short)
    } else if kind == "Audio"@ {
        audio_type(short)
    } else if kind == "Model"@ {
        model_type(short)
    } else if kind == "Text"@ {
        text_type(short)
    } else if kind == "Font"@ {
        font_type(short)
    } else {
        AssetTypeView::Other("UNIDENTIFIED"@)
    }
}

fn image_type_exec(short: &Option<String>) -> (r: AssetType)
    ensures
        r@ == image_type(opt_view(*short)),
{
    if short_is(short, "PNG", "png") {
        AssetType::Image(String::from_str("PNG"))
    } else if short_is(short, "JPG", "jpg") {
        AssetType::Image(String::from_str("JPG"))
    } else if short_is(short, "JPEG", "jpeg") {
        AssetType::Image(String::from_str("JPEG"))
    } else if short_is(short, "GIF", "gif") {
        AssetType::Image(String::from_str("GIF"))
    } else if short_is(short, "BMP", "bmp") {
        AssetType::Image(String::from_str("BMP"))
    } else if short_is(short, "WEBP", "webp") {
        AssetType::Image(String::from_str("WEBP"))
    } else if short_is(short, "ICO", "ico") {
        AssetType::Image(String::from_str("ICO"))
    } else if short_is(short, "TIFF", "tiff") {
        AssetType::Image(String::from_str("TIFF"))
    } else if short_is(short, "PICT", "pict") {
        AssetType::Image(String::from_str("PICT"))
    } else if short_is(short, "PSD", "psd") {
        AssetType::Image(String::from_str("PSD"))
    } else if short_is(short, "SVG", "svg") {
        AssetType::Image(String::from_str("SVG"))
    } else {
        AssetType::Other(String::from_str("IMAGE"))
    }
}

fn audio_type_exec(short: &Option<String>) -> (r: AssetType)
    ensures
        r@ == audio_type(opt_view(*short)),
{
    if short_is(short, "MP3", "mp3") {
        AssetType::Audio(String::from_str("MP3"))
    } else if short_is(short, "WAV", "wav") {
        AssetType::Audio(String::from_str("WAV"))
    } else if short_is(short, "AIFF", "aiff") {
        AssetType::Audio(String::from_str("AIFF"))
    } else if short_is(short, "FLAC", "flac") {
        AssetType::Audio(String::from_str("FLAC"))
    } else if short_is(short, "OGG", "ogg") {
        AssetType::Audio(String::from_str("OGG"))
    } else if short_is(short, "MIDI", "midi") {
        AssetType::Audio(String::from_str("MIDI"))
    } else if short_is(short, "AAC", "aac") {
        AssetType::Audio(String::from_str("AAC"))
    } else if short_is(short, "WMA", "wma") {
        AssetType::Audio(String::from_str("WMA"))
    } else if short_is(short, "3GP", "3gp") {
        AssetType::Audio(String::from_str("3GP"))
    } else {
        AssetType::Other(String::from_str("AUDIO"))
    }
}

fn model_type_exec(short: &Option<String>) -> (r: AssetType)
    ensures
        r@ == model_type(opt_view(*short)),
{
    if short_is(short, "OBJ", "obj") {
        AssetType::Model(String::from_str("OBJ"))
    } else if short_is(short, "FBX", "fbx") {
        AssetType::Model(String::from_str("FBX"))
    } else if short_is(short, "MAX", "max") {
        AssetType::Model(String::from_str("MAX"))
    } else if short_is(short, "3DS", "3ds") {
        AssetType::Model(String::from_str("3DS"))
    } else if short_is(short, "C4D", "c4d") {
        AssetType::Model(String::from_str("C4D"))
    } else if short_is(short, "BLEND", "blend") {
        AssetType::Model(String::from_str("BLEND"))
    } else if short_is(short, "MAYA", "maya") {
        AssetType::Model(String::from_str("MAYA"))
    } else {
        AssetType::Other(String::from_str("MODEL"))
    }
}

fn text_type_exec(short: &Option<String>) -> (r: AssetType)
    ensures
        r@ == text_type(opt_view(*short)),
{
    if short_is(short, "SHADER", "shader") {
        AssetType::Shader(String::from_str("SHADER"))
    } else if short_is(short, "GLSL", "glsl") {
        AssetType::Shader(String::from_str("GLSL"))
    } else if short_is(short, "HLSL", "hlsl") {
        AssetType::Shader(String::from_str("HLSL"))
    } else if short_is(short, "CGFX", "cgfx") {
        AssetType::Shader(String::from_str("CGFX"))
    } else if short_is(short, "FX", "fx") {
        AssetType::Shader(String::from_str("FX"))
    } else if short_is(short, "JS", "js") {
        AssetType::Script(String::from_str("JS"))
    } else if short_is(short, "PY", "py") {
        AssetType::Script(String::from_str("PY"))
    } else if short_is(short, "LUA", "lua") {
        AssetType::Script(String::from_str("LUA"))
    } else if short_is(short, "VB", "vb") {
        AssetType::Script(String::from_str("VB"))
    } else if short_is(short, "SCRIPT", "script") {
        AssetType::Script(String::from_str("SCRIPT"))
    } else {
        AssetType::Other(String::from_str("TEXT"))
    }
}

fn font_type_exec(short: &Option<String>) -> (r: AssetType)
    ensures
        r@ == font_type(opt_view(*short)),
{
    if short_is(short, "TTF", "ttf") {
        AssetType::Font(String::from_str("TTF"))
    } else if short_is(short, "OTF", "otf") {
        AssetType::Font(String::from_str("OTF"))
    } else if short_is(short, "WOFF", "woff") {
        AssetType::Font(String::from_str("WOFF"))
    } else if short_is(short, "WOFF2", "woff2") {
        AssetType::Font(String::from_str("WOFF2"))
    } else if short_is(short, "EOT", "eot") {
        AssetType::Font(String::from_str("EOT"))
    } else if short_is(short, "SVG", "svg") {
        AssetType::Font(String::from_str("SVG"))
    } else {
        AssetType::Other(String::from_str("FONT"))
    }
}

/// Identify an asset's category from its raw bytes. Total: never fails for
/// any buffer, including an empty one.
pub fn identify_asset(data: &[u8]) -> (r: AssetType)
    ensures
        r@ == classify_spec(sig_kind(data@), sig_name(data@)),
{
    let kind = signature_kind(data);
    let short = signature_short_name(data);
    proof {
        assert(opt_view(short) == sig_name(data@));
    }
    if str_eq(kind.as_str(), "Image") {
        image_type_exec(&short)
    } else if str_eq(kind.as_str(), "Audio") {
        audio_type_exec(&short)
    } else if str_eq(kind.as_str(), "Model") {
        model_type_exec(&short)
    } else if str_eq(kind.as_str(), "Text") {
        text_type_exec(&short)
    } else if str_eq(kind.as_str(), "Font") {
        font_type_exec(&short)
    } else {
        AssetType::Other(String::from_str("UNIDENTIFIED"))
    }
}

/// The view of an asset after its category has been re-derived from its
/// bytes.
pub open spec fn reclassified(a: AssetView) -> AssetView {
    AssetView {
        asset_type: classify_spec(sig_kind(a.data.unwrap()), sig_name(a.data.unwrap())),
        ..a
    }
}

/// Re-derive every asset's category from the bytes it holds. Every asset
/// must hold data; identification itself is total.
pub fn identify_assets(assets: &mut Vec<Asset>)
    requires
        all_have_data(views_of(old(assets)@)),
    ensures
        final(assets)@.len() == old(assets)@.len(),
        forall|i: int|
            0 <= i < old(assets)@.len() ==> views_of(final(assets)@)[i] == reclassified(
                views_of(old(assets)@)[i],
            ),
{
    let ghost v = views_of(old(assets)@);
    let mut idx: usize = 0;
    while idx < assets.len()
        invariant
            all_have_data(v),
            v == views_of(old(assets)@),
            0 <= idx <= assets@.len(),
            assets@.len() == v.len(),
            forall|i: int| 0 <= i < idx ==> views_of(assets@)[i] == reclassified(v[i]),
            forall|i: int| idx <= i < v.len() ==> views_of(assets@)[i] == v[i],
        decreases assets@.len() - idx,
    {
        assert(views_of(assets@)[idx as int] == v[idx as int]);
        let asset_type = match vstd::std_specs::vec::vec_index(assets, idx).get_data() {
            Some(bytes) => identify_asset(bytes.as_slice()),
            None => vstd::pervasive::unreached(),
        };
        assert(asset_type@ == reclassified(v[idx as int]).asset_type);
        let ghost prev = assets@;
        let a = vstd::std_specs::vec::vec_index_mut(assets, idx);
        a.set_type(asset_type);
        proof {
            let cur = assets@;
            assert(cur == prev.update(idx as int, cur[idx as int]));
            assert(views_of(cur)[idx as int] == reclassified(v[idx as int]));
            assert forall|i: int| 0 <= i < cur.len() && i != idx as int implies views_of(cur)[i]
                == views_of(prev)[i] by {
                assert(cur[i] == prev[i]);
            }
        }
        idx = idx + 1;
    }
}

} // verus!
