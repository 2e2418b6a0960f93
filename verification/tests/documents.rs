use citeright::document::{docx_bytes_text, pdf_bytes_text};
use citeright::reasoning::analyzer::{
    assessment_from_body, assessment_from_content, assessment_reply_fields, opinions_from_body, SupportLevel,
};
use citeright::CiteError;
use std::io::Write;

fn zip_with(name: &str, contents: &str) -> Vec<u8> {
    let mut w = zip::ZipWriter::new(std::io::Cursor::new(Vec::new()));
    w.start_file(name, zip::write::SimpleFileOptions::default()).unwrap();
    w.write_all(contents.as_bytes()).unwrap();
    w.finish().unwrap().into_inner()
}

fn tiny_pdf(text: &str) -> Vec<u8> {
    let content = format!("BT /F1 12 Tf 72 720 Td ({}) Tj ET", text);
    let objects = vec![
        "<< /Type /Catalog /Pages 2 0 R >>".to_string(),
        "<< /Type /Pages /Kids [3 0 R] /Count 1 >>".to_string(),
        "<< /Type /Page /Parent 2 0 R /MediaBox [0 0 612 792] /Resources << /Font << /F1 4 0 R >> >> /Contents 5 0 R >>"
            .to_string(),
        "<< /Type /Font /Subtype /Type1 /BaseFont /Courier >>".to_string(),
        format!("<< /Length {} >>\nstream\n{}\nendstream", content.len(), content),
    ];
    let mut out = b"%PDF-1.4\n".to_vec();
    let mut offsets = Vec::new();
    for (i, o) in objects.iter().enumerate() {
        offsets.push(out.len());
        out.extend_from_slice(format!("{} 0 obj\n{}\nendobj\n", i + 1, o).as_bytes());
    }
    let xref = out.len();
    out.extend_from_slice(format!("xref\n0 {}\n0000000000 65535 f \n", objects.len() + 1).as_bytes());
    for off in offsets {
        out.extend_from_slice(format!("{:010} 00000 n \n", off).as_bytes());
    }
    out.extend_from_slice(
        format!("trailer\n<< /Size {} /Root 1 0 R >>\nstartxref\n{}\n%%EOF\n", objects.len() + 1, xref).as_bytes(),
    );
    out
}

#[test]
fn word_document_text_from_bytes() {
    let xml = "<w:document><w:body><w:p><w:r><w:t>Hello &amp; bye</w:t></w:r></w:p><w:p><w:r><w:t>Two</w:t></w:r></w:p></w:body></w:document>";
    let docx = zip_with("word/document.xml", xml);
    assert_eq!(docx_bytes_text(&docx).unwrap(), "\nHello & bye\nTwo");
}

#[test]
fn word_document_errors() {
    let missing = zip_with("word/other.xml", "<a/>");
    assert!(matches!(docx_bytes_text(&missing), Err(CiteError::Document(m)) if m.starts_with("open docx word/document.xml: ")));
    assert!(matches!(docx_bytes_text(b"not a zip"), Err(CiteError::Document(_))));
    let bad = zip_with("word/document.xml", "<a></b>");
    assert!(matches!(docx_bytes_text(&bad), Err(CiteError::Document(m)) if m.starts_with("docx xml parse error: ")));
}

#[test]
fn pdf_text_from_bytes() {
    assert_eq!(pdf_bytes_text(&tiny_pdf("Hello")).unwrap(), "Hello\n\n");
    assert!(matches!(pdf_bytes_text(b"not a pdf"), Err(CiteError::Document(m)) if m.starts_with("load pdf: ")));
}

#[test]
fn assessment_reply_json() {
    let (s, e, c) = assessment_reply_fields(r#"{"supported": "Supported", "explanation": "fits", "confidence": 3}"#);
    assert_eq!(s.as_deref(), Some("Supported"));
    assert_eq!(e.as_deref(), Some("fits"));
    assert_eq!(c, None);
    assert_eq!(assessment_reply_fields("not json"), (None, None, None));
    let a = assessment_from_content(&None);
    assert_eq!(a.supported, SupportLevel::Indeterminate);
    assert_eq!(a.explanation, "No explanation provided");
    assert_eq!(a.confidence, "Low");
    let body = r#"{"choices":[{"message":{"content":"{\"supported\":\"Unsupported\",\"explanation\":\"no\",\"confidence\":\"High\"}"}}]}"#;
    let b = assessment_from_body(body).unwrap();
    assert_eq!(b.supported, SupportLevel::Unsupported);
    assert_eq!(b.explanation, "no");
    assert_eq!(b.confidence, "High");
    let empty = assessment_from_body(r#"{"choices":[]}"#).unwrap();
    assert_eq!(empty.supported, SupportLevel::Indeterminate);
    assert!(matches!(assessment_from_body("<html>"), Err(CiteError::Response(_))));
}

#[test]
fn opinion_response_json() {
    let body = r#"{"results":[{"html_with_citations":"<p>A</p>","plain_text":null},{"plain_text":"B"}]}"#;
    let o = opinions_from_body(body).unwrap();
    assert_eq!(o.len(), 2);
    assert_eq!(o[0].html_with_citations.as_deref(), Some("<p>A</p>"));
    assert_eq!(o[0].plain_text, None);
    assert_eq!(o[1].html_with_citations, None);
    assert_eq!(o[1].plain_text.as_deref(), Some("B"));
    match opinions_from_body(r#"{"count":0}"#) {
        Err(CiteError::Response(m)) => assert_eq!(m, "no results in opinion response"),
        other => panic!("unexpected {:?}", other.is_ok()),
    }
    assert!(matches!(opinions_from_body("nope"), Err(CiteError::Response(_))));
}
