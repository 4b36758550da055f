use video_editor::effects::EffectParticleSimulator;
use video_editor::export::{
    audio_args, audio_mix_filter, encoder_args, escape_drawtext, escape_pdf_str, html_escape,
    line_offset, overlay_label, styled_font_name, EncoderType,
};
use video_editor::media::{is_supported_extension, is_supported_media};
use video_editor::pdf::PdfWriter;
use video_editor::peaks::{PeakFile, PeakFileError};
use video_editor::pptx::{content_types_xml, presentation_rels_xml, presentation_xml, slide_rels_xml, slide_xml};
use video_editor::text_paint::TextPaint;
use std::path::Path;

#[test]
fn peak_file_round_trip() {
    let f = PeakFile {
        points_per_sec_bits: 100.0f32.to_bits(),
        total_duration_bits: 12.5f64.to_bits(),
        peak_bits: vec![((-0.5f32).to_bits(), 0.25f32.to_bits()), (0, 1.0f32.to_bits())],
    };
    let bytes = f.to_bytes();
    assert_eq!(&bytes[0..8], b"PEAKv001");
    assert_eq!(bytes.len(), 24 + 16);
    assert_eq!(&bytes[8..12], &100.0f32.to_le_bytes());
    assert_eq!(&bytes[12..20], &12.5f64.to_le_bytes());
    assert_eq!(&bytes[20..24], &2u32.to_le_bytes());
    assert_eq!(&bytes[24..28], &(-0.5f32).to_le_bytes());
    let back = PeakFile::from_bytes(&bytes).unwrap();
    assert_eq!(back.points_per_sec_bits, f.points_per_sec_bits);
    assert_eq!(back.total_duration_bits, f.total_duration_bits);
    assert_eq!(back.peak_bits, f.peak_bits);
}

#[test]
fn peak_file_errors() {
    assert_eq!(PeakFile::from_bytes(b"PEAK").err(), Some(PeakFileError::UnexpectedEnd));
    assert_eq!(PeakFile::from_bytes(b"NOTPEAKS0000000000000000").err(), Some(PeakFileError::BadHeader));
    let mut short = b"PEAKv001".to_vec();
    short.extend_from_slice(&[0u8; 12]);
    short.extend_from_slice(&3u32.to_le_bytes());
    assert_eq!(PeakFile::from_bytes(&short).err(), Some(PeakFileError::UnexpectedEnd));
    short.extend_from_slice(&[0u8; 24]);
    short.push(9);
    let ok = PeakFile::from_bytes(&short).unwrap();
    assert_eq!(ok.peak_bits.len(), 3);
}

#[test]
fn pdf_cross_reference_table() {
    let mut w = PdfWriter::new();
    assert_eq!(w.data, b"%PDF-1.7\n%\xE2\xE3\xCF\xD3\n".to_vec());
    w.push_object(1, "<< /Type /Catalog >>");
    assert_eq!(w.offsets, vec![15]);
    assert_eq!(w.ids, vec![1]);
    assert_eq!(String::from_utf8(w.data[15..].to_vec()).unwrap(), "1 0 obj\n<< /Type /Catalog >>\nendobj\n");
    let bytes = w.finish(1);
    let tail = String::from_utf8(bytes[51..].to_vec()).unwrap();
    assert_eq!(
        tail,
        "xref\n0 2\n0000000000 65535 f \n0000000015 00000 n \ntrailer\n<< /Size 2 /Root 1 0 R >>\nstartxref\n51\n%%EOF\n"
    );
}

#[test]
fn pdf_cross_reference_follows_object_numbers() {
    let mut w = PdfWriter::new();
    w.push_object(2, "<< /Type /Pages /Kids [] /Count 0 >>");
    let second = w.data.len();
    w.push_object(1, "<< /Type /Catalog /Pages 2 0 R >>");
    let end = w.data.len();
    assert!(w.data[15..].starts_with(b"2 0 obj\n"));
    assert!(w.data[second..].starts_with(b"1 0 obj\n"));
    let bytes = w.finish(1);
    let tail = String::from_utf8(bytes[end..].to_vec()).unwrap();
    let want = format!(
        "xref\n0 3\n0000000000 65535 f \n{:010} 00000 n \n0000000015 00000 n \ntrailer\n<< /Size 3 /Root 1 0 R >>\nstartxref\n{}\n%%EOF\n",
        second, end
    );
    assert_eq!(tail, want);
    // A number that no object has gets a free entry.
    let mut w = PdfWriter::new();
    w.push_object(2, "<< >>");
    let end = w.data.len();
    let bytes = w.finish(2);
    let tail = String::from_utf8(bytes[end..].to_vec()).unwrap();
    assert!(tail.starts_with("xref\n0 2\n0000000000 65535 f \n0000000000 65535 f \ntrailer"));
}

#[test]
fn pdf_image_object() {
    let mut w = PdfWriter::new();
    w.push_image_object(7, 1, 1, &[1, 2, 3]);
    let s = String::from_utf8_lossy(&w.data[15..]).to_string();
    assert!(s.starts_with("7 0 obj\n<< /Type /XObject /Subtype /Image /Width 1 /Height 1 /ColorSpace /DeviceRGB /BitsPerComponent 8 /Length 3 >>\nstream\n"));
    assert!(s.ends_with("\nendstream\nendobj\n"));
    assert_eq!(w.offsets, vec![15]);
}

#[test]
fn pptx_parts() {
    let ct = content_types_xml(2);
    assert!(ct.ends_with("<Override PartName=\"/ppt/slides/slide2.xml\" ContentType=\"application/vnd.openxmlformats-officedocument.presentationml.slide+xml\"/>\n</Types>"));
    let p = presentation_xml(1);
    assert!(p.contains("    <p:sldId id=\"256\" r:id=\"rId2\"/>\n"));
    assert!(p.ends_with("</p:presentation>"));
    let r = presentation_rels_xml(1);
    assert!(r.contains("<Relationship Id=\"rId2\" Type=\"http://schemas.openxmlformats.org/officeDocument/2006/relationships/slide\" Target=\"slides/slide1.xml\"/>"));
    let s = slide_xml("A & B", "", "");
    assert!(s.contains("<p:cSld name=\"A &amp; B\">"));
    let rels = slide_rels_xml(&vec!["rId1".to_string()], &vec!["t".to_string()], &vec!["x.xml".to_string()]);
    assert!(rels.ends_with("  <Relationship Id=\"rId1\" Type=\"t\" Target=\"x.xml\"/>\n</Relationships>"));
}

#[test]
fn encoder_arguments() {
    assert_eq!(
        encoder_args(EncoderType::Libx264, 8000),
        vec!["-c:v", "libx264", "-preset", "fast", "-crf", "20", "-pix_fmt", "yuv420p"]
    );
    assert_eq!(encoder_args(EncoderType::QsvH264, 4000), vec!["-c:v", "h264_qsv", "-b:v", "4000k"]);
    assert_eq!(
        encoder_args(EncoderType::NvencH264, 6000),
        vec!["-c:v", "h264_nvenc", "-b:v", "6000k", "-pix_fmt", "yuv420p"]
    );
    assert_eq!(audio_args(192), vec!["-c:a", "aac", "-b:a", "192k", "-ar", "48000"]);
}

#[test]
fn drawtext_escaping() {
    assert_eq!(escape_drawtext("It's 5:00 100%"), "It'\\\\''s 5\\:00 100\\%");
    assert_eq!(escape_drawtext("a\\b"), "a\\\\b");
    assert_eq!(styled_font_name("Sans", true, true), "Sans Bold Italic");
    assert_eq!(styled_font_name("Sans", false, true), "Sans Italic");
    assert_eq!(styled_font_name("Sans", false, false), "Sans");
    assert_eq!(line_offset(0, 3, 20), -30);
    assert_eq!(line_offset(2, 3, 20), 30);
}

#[test]
fn amix_filter() {
    let labels = vec!["a0".to_string(), "sa1_0".to_string()];
    assert_eq!(
        audio_mix_filter(&labels),
        "[a0][sa1_0]amix=inputs=2:duration=longest:dropout_transition=0,volume=2[a_final]"
    );
}

#[test]
fn escapes_and_labels() {
    assert_eq!(escape_pdf_str("a(b)\\c"), "a\\(b\\)\\\\c");
    assert_eq!(html_escape("<a href='x'>&\"</a>"), "&lt;a href=&apos;x&apos;&gt;&amp;&quot;&lt;/a&gt;");
    assert_eq!(overlay_label(0), "ol5000");
    assert_eq!(overlay_label(12), "ol5012");
}

#[test]
fn font_colors() {
    let p = TextPaint { r: 255, g: 0, b: 16, a: 128 };
    assert_eq!(p.to_ffmpeg_fontcolor(), "0xFF0010@0.50");
    let q = TextPaint { r: 0, g: 0, b: 0, a: 255 };
    assert_eq!(q.to_ffmpeg_fontcolor(), "0x000000");
    let w = TextPaint { r: 1, g: 2, b: 3, a: 254 };
    assert_eq!(w.to_ffmpeg_fontcolor(), "0x010203");
}

#[test]
fn particle_hash_is_deterministic() {
    assert_eq!(EffectParticleSimulator::hash(1), 824515495);
    assert_eq!(EffectParticleSimulator::hash(2), 1722258072);
    assert_eq!(EffectParticleSimulator::hash(0), 0);
}

#[test]
fn supported_media() {
    assert!(is_supported_extension("mp4"));
    assert!(is_supported_extension("MP3"));
    assert!(!is_supported_extension("Mp3"));
    assert!(is_supported_media(Path::new("/tmp/movie.mp4")));
    assert!(is_supported_media(Path::new("song.mp3")));
    assert!(!is_supported_media(Path::new("notes.txt")));
    assert!(!is_supported_media(Path::new("no_extension")));
}
