//! Document text: which reader an input file needs, and the text of a
//! Word document (its `word/document.xml` entry read as XML events) or of a
//! PDF (its pages' extracted text), from the file's bytes.
use vstd::prelude::*;
use std::io::Read;
use quick_xml::events::Event;
use crate::text::{chars_eq, chars_of, chars_of_string, push_all, push_str, string_of};
use crate::json::{decimal, push_decimal};
use crate::CiteError;

verus! {

/// How an input document is read.
#[derive(Debug, Clone, Copy, PartialEq, Eq, Structural)]
pub enum DocumentKind {
    /// Plain text or Markdown, read as is.
    Text,
    /// A Word document: the text of `word/document.xml`.
    Docx,
    /// A PDF: the text of each page.
    Pdf,
}

/// An event of a Word document's XML reader.
#[derive(Debug, Clone)]
pub enum DocxEvent {
    /// Unescaped character data.
    Text(String),
    /// An element opens, with its qualified name.
    Start(String),
    /// The document ends.
    End,
    /// Anything else.
    Other,
}

/// A character with ASCII upper case letters lowered.
pub open spec fn ascii_lower_char(c: char) -> char {
    if 'A' <= c <= 'Z' {
        ((c as u32) + 32) as char
    } else {
        c
    }
}

/// A text with ASCII upper case letters lowered (`str::to_ascii_lowercase`).
pub open spec fn ascii_lower(s: Seq<char>) -> Seq<char> {
    s.map_values(|c: char| ascii_lower_char(c))
}

/// The reader for a file extension, compared without regard to ASCII case.
pub open spec fn kind_spec(ext: Seq<char>) -> Option<DocumentKind> {
    let e = ascii_lower(ext);
    if e == "txt"@ || e == "md"@ {
        Some(DocumentKind::Text)
    } else if e == "docx"@ {
        Some(DocumentKind::Docx)
    } else if e == "pdf"@ {
        Some(DocumentKind::Pdf)
    } else {
        None
    }
}

/// The text of a Word document's XML events up to the end: character
/// data as it comes, and a newline where a paragraph (`w:p`) opens.
pub open spec fn docx_text_spec(events: Seq<DocxEventView>) -> Seq<char>
    decreases events.len(),
{
    if events.len() == 0 {
        seq![]
    } else {
        match events[0] {
            DocxEventView::Text(t) => t + docx_text_spec(events.drop_first()),
            DocxEventView::Start(n) => (if n == "w:p"@ {
                seq!['\n']
            } else {
                seq![]
            }) + docx_text_spec(events.drop_first()),
            DocxEventView::End => seq![],
            DocxEventView::Other => docx_text_spec(events.drop_first()),
        }
    }
}

/// The mathematical value of a [`DocxEvent`].
pub enum DocxEventView {
    Text(Seq<char>),
    Start(Seq<char>),
    End,
    Other,
}

impl View for DocxEvent {
    type V = DocxEventView;

    open spec fn view(&self) -> DocxEventView {
        match self {
            DocxEvent::Text(t) => DocxEventView::Text(t@),
            DocxEvent::Start(n) => DocxEventView::Start(n@),
            DocxEvent::End => DocxEventView::End,
            DocxEvent::Other => DocxEventView::Other,
        }
    }
}

/// The text of one PDF page: its text and a newline, or a note that its
/// extraction failed.
pub open spec fn page_text(page: int, text: Result<Seq<char>, Seq<char>>) -> Seq<char> {
    match text {
        Ok(t) => t + seq!['\n'],
        Err(e) => "\n[page "@ + decimal(page as nat) + ": text extraction failed: "@ + e + "]\n"@,
    }
}

/// The text of a PDF: its pages in order.
pub open spec fn pdf_text_spec(pages: Seq<(u32, Result<Seq<char>, Seq<char>>)>) -> Seq<char>
    decreases pages.len(),
{
    if pages.len() == 0 {
        seq![]
    } else {
        pdf_text_spec(pages.drop_last()) + page_text(pages.last().0 as int, pages.last().1)
    }
}

/// Views of PDF page results.
pub open spec fn page_views(v: Seq<(u32, Result<String, String>)>) -> Seq<(u32, Result<Seq<char>, Seq<char>>)> {
    v.map_values(|p: (u32, Result<String, String>)| (p.0, match p.1 {
        Ok(t) => Ok(t@),
        Err(e) => Err(e@),
    }))
}

/// Lowers the ASCII upper case letters of a text.
pub fn to_ascii_lower(s: &str) -> (r: Vec<char>)
    ensures
        r@ == ascii_lower(s@),
{
    let t = chars_of(s);
    let mut out: Vec<char> = Vec::new();
    for i in 0..t.len()
        invariant
            t@ == s@,
            out@ == ascii_lower(t@.take(i as int)),
    {
        let c = t[i];
        let l = if 'A' <= c && c <= 'Z' {
            let v: u8 = (c as u8) + 32;
            let d: char = v as char;
            d
        } else {
            c
        };
        out.push(l);
        assert(out@ =~= ascii_lower(t@.take(i + 1)));
    }
    assert(t@.take(t@.len() as int) =~= t@);
    out
}

/// The reader an input file needs, by its extension; an error naming the
/// extension when it is none of `txt`, `md`, `docx` and `pdf`.
pub fn document_kind(extension: &str) -> (r: Result<DocumentKind, CiteError>)
    ensures
        match kind_spec(extension@) {
            Some(k) => r == Ok::<DocumentKind, CiteError>(k),
            None => r matches Err(e) && e matches CiteError::UnsupportedInput(m) && m@
                == "unsupported input extension '"@ + ascii_lower(extension@)
                + "'; supported: txt, md, docx, pdf"@,
        },
{
    let e = to_ascii_lower(extension);
    if chars_eq(&e, &chars_of("txt")) || chars_eq(&e, &chars_of("md")) {
        Ok(DocumentKind::Text)
    } else if chars_eq(&e, &chars_of("docx")) {
        Ok(DocumentKind::Docx)
    } else if chars_eq(&e, &chars_of("pdf")) {
        Ok(DocumentKind::Pdf)
    } else {
        let mut m = chars_of("unsupported input extension '");
        push_all(&mut m, &e);
        push_str(&mut m, "'; supported: txt, md, docx, pdf");
        Err(CiteError::UnsupportedInput(string_of(&m)))
    }
}

/// The text of a Word document from its XML events.
pub fn docx_text(events: &[DocxEvent]) -> (r: String)
    ensures
        r@ == docx_text_spec(events@.map_values(|e: DocxEvent| e@)),
{
    let ghost ev = events@.map_values(|e: DocxEvent| e@);
    let mut out: Vec<char> = Vec::new();
    assert(ev.skip(0) =~= ev);
    for i in 0..events.len()
        invariant
            ev == events@.map_values(|e: DocxEvent| e@),
            out@ + docx_text_spec(ev.skip(i as int)) == docx_text_spec(ev),
    {
        let ghost rest = ev.skip(i as int);
        assert(rest[0] == events@[i as int]@);
        assert(rest.drop_first() =~= ev.skip(i + 1));
        let ghost before = out@;
        match &events[i] {
            DocxEvent::Text(t) => {
                push_all(&mut out, &chars_of_string(t));
                assert(before + (t@ + docx_text_spec(ev.skip(i + 1))) =~= out@ + docx_text_spec(ev.skip(i + 1)));
            },
            DocxEvent::Start(n) => {
                if chars_eq(&chars_of_string(n), &chars_of("w:p")) {
                    out.push('\n');
                    assert(before + (seq!['\n'] + docx_text_spec(ev.skip(i + 1))) =~= out@ + docx_text_spec(ev.skip(i + 1)));
                } else {
                    assert(before + (Seq::<char>::empty() + docx_text_spec(ev.skip(i + 1))) =~= out@ + docx_text_spec(ev.skip(i + 1)));
                }
            },
            DocxEvent::End => {
                assert(out@ + Seq::<char>::empty() =~= out@);
                return string_of(&out);
            },
            DocxEvent::Other => {},
        }
    }
    assert(ev.skip(events@.len() as int) =~= Seq::<DocxEventView>::empty());
    assert(out@ + Seq::<char>::empty() =~= out@);
    string_of(&out)
}

/// The text of a PDF from its pages' extraction results.
pub fn pdf_text(pages: &[(u32, Result<String, String>)]) -> (r: String)
    ensures
        r@ == pdf_text_spec(page_views(pages@)),
{
    let ghost pv = page_views(pages@);
    let mut out: Vec<char> = Vec::new();
    for i in 0..pages.len()
        invariant
            pv == page_views(pages@),
            out@ == pdf_text_spec(pv.take(i as int)),
    {
        assert(pv.take(i + 1).drop_last() =~= pv.take(i as int));
        assert(pv.take(i + 1).last() == pv[i as int]);
        let (n, res) = &pages[i];
        match res {
            Ok(t) => {
                push_all(&mut out, &chars_of_string(t));
                out.push('\n');
            },
            Err(e) => {
                push_str(&mut out, "\n[page ");
                push_decimal(&mut out, *n as u64);
                push_str(&mut out, ": text extraction failed: ");
                push_all(&mut out, &chars_of_string(e));
                push_str(&mut out, "]\n");
            },
        }
        assert(out@ =~= pdf_text_spec(pv.take(i + 1)));
    }
    assert(pv.take(pages@.len() as int) =~= pv);
    string_of(&out)
}


/// The text of entry `name` of the zip archive `archive`, read as UTF-8;
/// none when the archive, the entry or its text cannot be read.
pub uninterp spec fn zip_entry_of(archive: Seq<u8>, name: Seq<char>) -> Option<Seq<char>>;

/// Reads entry `name` of a zip archive as text.
///
/// Trusted: calls `zip::ZipArchive::new` over a `std::io::Cursor` of the
/// bytes, `ZipArchive::by_name` and `Read::read_to_string`. Claims that it
/// succeeds exactly when [`zip_entry_of`] names a text, and then returns
/// that text; of a failure only the error's message is returned, and
/// nothing is claimed of it.
#[verifier::external_body]
fn zip_entry_text(archive: &[u8], name: &str) -> (r: Result<String, String>)
    ensures
        match r {
            Ok(t) => zip_entry_of(archive@, name@) == Some(t@),
            Err(_) => zip_entry_of(archive@, name@) is None,
        },
{
    let mut zip = zip::ZipArchive::new(std::io::Cursor::new(archive)).map_err(|e| e.to_string())?;
    let mut text = String::new();
    zip.by_name(name).map_err(|e| e.to_string())?.read_to_string(&mut text).map_err(|e| e.to_string())?;
    Ok(text)
}

/// The events `quick_xml` reads from an XML text with surrounding white
/// space trimmed from text, up to the end of input: unescaped text, the
/// qualified name of each element that opens, and every other event; none
/// when reading or unescaping fails.
pub uninterp spec fn xml_events_of(xml: Seq<char>) -> Option<Seq<DocxEventView>>;

/// Reads the events of an XML text.
///
/// Trusted: calls `quick_xml::Reader::from_str`, `trim_text(true)`, and
/// `read_event` until `Event::Eof`, with `BytesText::unescape` on text
/// events; each event becomes the [`DocxEvent`] of its kind. Claims that it
/// succeeds exactly when [`xml_events_of`] names a sequence of events, and
/// then returns it; nothing is claimed of an error's message.
#[verifier::external_body]
fn xml_events(xml: &str) -> (r: Result<Vec<DocxEvent>, String>)
    ensures
        match r {
            Ok(v) => xml_events_of(xml@) == Some(v@.map_values(|e: DocxEvent| e@)),
            Err(_) => xml_events_of(xml@) is None,
        },
{
    let mut reader = quick_xml::Reader::from_str(xml);
    reader.trim_text(true);
    let mut events = Vec::new();
    loop {
        let event = match reader.read_event().map_err(|e| e.to_string())? {
            Event::Text(t) => DocxEvent::Text(t.unescape().map_err(|e| e.to_string())?.into_owned()),
            Event::Start(e) => DocxEvent::Start(String::from_utf8_lossy(e.name().as_ref()).into_owned()),
            Event::Eof => return Ok(events),
            _ => DocxEvent::Other,
        };
        events.push(event);
    }
}

/// The text of a Word document's bytes: the text of the XML events of its
/// `word/document.xml` entry; none when the entry or its XML cannot be read.
pub open spec fn docx_bytes_text_spec(docx: Seq<u8>) -> Option<Seq<char>> {
    match zip_entry_of(docx, "word/document.xml"@) {
        None => None,
        Some(xml) => match xml_events_of(xml) {
            None => None,
            Some(events) => Some(docx_text_spec(events)),
        },
    }
}

/// The text of a Word document from the bytes of its file. Fails with a
/// document error exactly when its `word/document.xml` entry cannot be read
/// or is not readable XML.
pub fn docx_bytes_text(docx: &[u8]) -> (r: Result<String, CiteError>)
    ensures
        match docx_bytes_text_spec(docx@) {
            Some(t) => r matches Ok(s) && s@ == t,
            None => r matches Err(e) && e is Document,
        },
{
    let xml = match zip_entry_text(docx, "word/document.xml") {
        Ok(x) => x,
        Err(m) => {
            let mut t = chars_of("open docx word/document.xml: ");
            push_all(&mut t, &chars_of_string(&m));
            return Err(CiteError::Document(string_of(&t)));
        },
    };
    let events = match xml_events(xml.as_str()) {
        Ok(v) => v,
        Err(m) => {
            let mut t = chars_of("docx xml parse error: ");
            push_all(&mut t, &chars_of_string(&m));
            return Err(CiteError::Document(string_of(&t)));
        },
    };
    Ok(docx_text(events.as_slice()))
}

#[verifier::external_type_specification]
#[verifier::external_body]
pub struct ExPdfDocument(lopdf::Document);

/// A loaded PDF document and the bytes it was loaded from.
pub struct PdfDocument {
    source: Vec<u8>,
    doc: lopdf::Document,
}

impl PdfDocument {
    /// The bytes the document was loaded from.
    pub closed spec fn source(&self) -> Seq<u8> {
        self.source@
    }
}

/// Whether `lopdf` loads a PDF from these bytes.
pub uninterp spec fn pdf_loads(pdf: Seq<u8>) -> bool;

/// The page numbers of the PDF these bytes hold, in the order `lopdf`
/// lists them.
pub uninterp spec fn pdf_page_numbers_of(pdf: Seq<u8>) -> Seq<u32>;

/// The text `lopdf` extracts from one page of the PDF these bytes hold, or
/// the message of its extraction error.
pub uninterp spec fn pdf_page_text_of(pdf: Seq<u8>, page: u32) -> Result<Seq<char>, Seq<char>>;

/// Loads a PDF from its bytes.
///
/// Trusted: calls `lopdf::Document::load_mem` and keeps a copy of the
/// bytes beside the document. Claims that it succeeds exactly when
/// [`pdf_loads`] holds of the bytes; nothing is claimed of an error's
/// message.
#[verifier::external_body]
fn pdf_load(pdf: &[u8]) -> (r: Result<PdfDocument, String>)
    ensures
        r is Ok <==> pdf_loads(pdf@),
        r matches Ok(d) ==> d.source() == pdf@,
{
    match lopdf::Document::load_mem(pdf) {
        Ok(doc) => Ok(PdfDocument { source: pdf.to_vec(), doc }),
        Err(e) => Err(e.to_string()),
    }
}

/// The page numbers of a loaded PDF.
///
/// Trusted: calls `lopdf::Document::get_pages` and lists its keys in the
/// map's order. Claims they are [`pdf_page_numbers_of`] the bytes.
#[verifier::external_body]
fn pdf_page_numbers(d: &PdfDocument) -> (r: Vec<u32>)
    ensures
        r@ == pdf_page_numbers_of(d.source()),
{
    d.doc.get_pages().into_keys().collect()
}

/// The text of one page of a loaded PDF.
///
/// Trusted: calls `lopdf::Document::extract_text` with the one page and
/// turns an error into its message. Claims the result is
/// [`pdf_page_text_of`] the bytes and the page.
#[verifier::external_body]
fn pdf_page_text(d: &PdfDocument, page: u32) -> (r: Result<String, String>)
    ensures
        match r {
            Ok(t) => pdf_page_text_of(d.source(), page) == Ok::<Seq<char>, Seq<char>>(t@),
            Err(e) => pdf_page_text_of(d.source(), page) == Err::<Seq<char>, Seq<char>>(e@),
        },
{
    d.doc.extract_text(&[page]).map_err(|e| e.to_string())
}

/// Each page of the PDF these bytes hold, in order, with its text or the
/// message of its extraction error.
pub open spec fn pdf_pages_spec(pdf: Seq<u8>) -> Seq<(u32, Result<Seq<char>, Seq<char>>)> {
    pdf_page_numbers_of(pdf).map_values(|n: u32| (n, pdf_page_text_of(pdf, n)))
}

/// The text of a PDF from the bytes of its file: its pages in order. Fails
/// with a document error exactly when the bytes do not load as a PDF.
pub fn pdf_bytes_text(pdf: &[u8]) -> (r: Result<String, CiteError>)
    ensures
        pdf_loads(pdf@) ==> (r matches Ok(t) && t@ == pdf_text_spec(pdf_pages_spec(pdf@))),
        !pdf_loads(pdf@) ==> (r matches Err(e) && e is Document),
{
    let doc = match pdf_load(pdf) {
        Ok(d) => d,
        Err(m) => {
            let mut t = chars_of("load pdf: ");
            push_all(&mut t, &chars_of_string(&m));
            return Err(CiteError::Document(string_of(&t)));
        },
    };
    let nums = pdf_page_numbers(&doc);
    let ghost want = pdf_pages_spec(pdf@);
    let mut pages: Vec<(u32, Result<String, String>)> = Vec::new();
    for i in 0..nums.len()
        invariant
            doc.source() == pdf@,
            nums@ == pdf_page_numbers_of(pdf@),
            want == pdf_pages_spec(pdf@),
            page_views(pages@) == want.take(i as int),
    {
        let n = nums[i];
        let text = pdf_page_text(&doc, n);
        let ghost before = pages@;
        pages.push((n, text));
        assert(page_views(pages@) =~= page_views(before).push(want[i as int]));
        assert(want.take(i + 1) =~= want.take(i as int).push(want[i as int]));
    }
    assert(want.take(nums@.len() as int) =~= want);
    Ok(pdf_text(pages.as_slice()))
}

} // verus!
