//! Turns a document's raw bytes into plain text.  The dispatch on the file
//! extension and the assembly of the extracted text are verified; the
//! per-format parsers (UTF-8, PDF, HTML, Markdown) are outside collaborators
//! reached through trusted wrappers.

use vstd::prelude::*;

use crate::chunker::trim_range;
use crate::text::chars_to_string;
use crate::text::find_last_char;
use crate::text::last_char_before;
use crate::text::str_chars;
use crate::text::subrange_chars;

verus! {

/// Why extraction failed.
#[derive(Debug, Clone, Copy, PartialEq, Eq, Structural)]
pub enum ExtractError {
    /// No bytes could be read: the file does not exist.
    NotFound,
    /// The file extension names no supported format.
    UnsupportedType,
    /// The bytes could not be parsed as the format the extension names, or
    /// the parse yielded no usable text.
    ParseFailure,
}

/// The supported document formats, keyed by file extension.
#[derive(Debug, Clone, Copy, PartialEq, Eq, Structural)]
pub enum FileKind {
    /// `txt` or `md`: the bytes are the text.
    Plain,
    /// `pdf`.
    Pdf,
    /// `html` or `htm`.
    Html,
}

/// ASCII lowercasing of one character.
pub open spec fn lower_char(c: char) -> char {
    match c {
        'A' => 'a',
        'B' => 'b',
        'C' => 'c',
        'D' => 'd',
        'E' => 'e',
        'F' => 'f',
        'G' => 'g',
        'H' => 'h',
        'I' => 'i',
        'J' => 'j',
        'K' => 'k',
        'L' => 'l',
        'M' => 'm',
        'N' => 'n',
        'O' => 'o',
        'P' => 'p',
        'Q' => 'q',
        'R' => 'r',
        'S' => 's',
        'T' => 't',
        'U' => 'u',
        'V' => 'v',
        'W' => 'w',
        'X' => 'x',
        'Y' => 'y',
        'Z' => 'z',
        _ => c,
    }
}

fn lower_char_exec(c: char) -> (r: char)
    ensures
        r == lower_char(c),
{
    match c {
        'A' => 'a',
        'B' => 'b',
        'C' => 'c',
        'D' => 'd',
        'E' => 'e',
        'F' => 'f',
        'G' => 'g',
        'H' => 'h',
        'I' => 'i',
        'J' => 'j',
        'K' => 'k',
        'L' => 'l',
        'M' => 'm',
        'N' => 'n',
        'O' => 'o',
        'P' => 'p',
        'Q' => 'q',
        'R' => 'r',
        'S' => 's',
        'T' => 't',
        'U' => 'u',
        'V' => 'v',
        'W' => 'w',
        'X' => 'x',
        'Y' => 'y',
        'Z' => 'z',
        _ => c,
    }
}

/// The part of the path after its last `/`: the whole path when it has none.
pub open spec fn spec_base_name(path: Seq<char>) -> Seq<char> {
    match last_char_before(path, '/', path.len() as int) {
        Some(p) => path.subrange(p + 1, path.len() as int),
        None => path,
    }
}

/// The file name recorded in metadata: the base name, or `unknown` when the
/// path yields none.
pub open spec fn spec_file_name(path: Seq<char>) -> Seq<char> {
    let name = spec_base_name(path);
    if name.len() == 0 || name == seq!['.', '.'] {
        "unknown"@
    } else {
        name
    }
}

/// The lowercased extension of the path's base name: what follows the last
/// `.`, provided that `.` is not the name's first character; empty when
/// there is no extension.
pub open spec fn spec_extension(path: Seq<char>) -> Seq<char> {
    let name = spec_base_name(path);
    match last_char_before(name, '.', name.len() as int) {
        Some(p) => if p > 0 {
            name.subrange(p + 1, name.len() as int).map_values(|c: char| lower_char(c))
        } else {
            Seq::empty()
        },
        None => Seq::empty(),
    }
}

/// The format an extension names, if any.
pub open spec fn spec_kind_of_ext(e: Seq<char>) -> Option<FileKind> {
    if e == seq!['t', 'x', 't'] || e == seq!['m', 'd'] {
        Some(FileKind::Plain)
    } else if e == seq!['p', 'd', 'f'] {
        Some(FileKind::Pdf)
    } else if e == seq!['h', 't', 'm', 'l'] || e == seq!['h', 't', 'm'] {
        Some(FileKind::Html)
    } else {
        None
    }
}

fn base_name_chars(path: &Vec<char>) -> (r: Vec<char>)
    ensures
        r@ == spec_base_name(path@),
{
    let n = path.len();
    match find_last_char(path, '/') {
        Some(p) => subrange_chars(path, p + 1, n),
        None => {
            let r = subrange_chars(path, 0, n);
            proof {
                assert(path@.subrange(0, path@.len() as int) =~= path@);
            }
            r
        },
    }
}

/// The file name recorded in metadata for a path.
pub fn file_name_string(path: &str) -> (r: String)
    ensures
        r@ == spec_file_name(path@),
{
    let pc = str_chars(path);
    let name = base_name_chars(&pc);
    if name.len() == 0 || (name.len() == 2 && name[0] == '.' && name[1] == '.') {
        proof {
            if name@.len() == 2 {
                assert(name@ =~= seq!['.', '.']);
            }
        }
        String::from_str("unknown")
    } else {
        chars_to_string(&name)
    }
}

fn extension_chars(path: &Vec<char>) -> (r: Vec<char>)
    ensures
        r@ == spec_extension(path@),
{
    let name = base_name_chars(path);
    let nlen = name.len();
    match find_last_char(&name, '.') {
        Some(p) => {
            if p > 0 {
                let raw = subrange_chars(&name, p + 1, nlen);
                let mut out: Vec<char> = Vec::new();
                let mut i: usize = 0;
                while i < raw.len()
                    invariant
                        i <= raw@.len(),
                        out@ == raw@.subrange(0, i as int).map_values(|c: char| lower_char(c)),
                    decreases raw@.len() - i,
                {
                    let c = lower_char_exec(raw[i]);
                    out.push(c);
                    proof {
                        assert(out@ =~= raw@.subrange(0, i as int + 1).map_values(
                            |c: char| lower_char(c),
                        ));
                    }
                    i += 1;
                }
                proof {
                    assert(raw@.subrange(0, raw@.len() as int) =~= raw@);
                }
                out
            } else {
                Vec::new()
            }
        },
        None => Vec::new(),
    }
}

/// The text that HTML bytes render to at a given width: a function of the
/// bytes and the width alone.
pub uninterp spec fn html_text_of(bytes: Seq<u8>, width: int) -> Seq<char>;

/// Relies on `String::from_utf8`: it succeeds exactly on valid UTF-8 and
/// returns its decoding.
#[verifier::external_body]
fn utf8_to_string(bytes: &Vec<u8>) -> (r: Option<String>)
    ensures
        r is Some <==> vstd::utf8::valid_utf8(bytes@),
        (match r {
            Some(s) => s@ == vstd::utf8::decode_utf8(bytes@),
            None => true,
        }),
{
    match String::from_utf8(bytes.clone()) {
        Ok(s) => Some(s),
        Err(_) => None,
    }
}

/// `lopdf`'s document type, opaque to the library: values of it only pass
/// from the loader to the page readers.
#[verifier::external_type_specification]
#[verifier::external_body]
pub struct ExPdfDocument(lopdf::Document);

/// Relies on `lopdf::Document::load_mem`: parses a PDF document from bytes.
#[verifier::external_body]
fn pdf_load(bytes: &Vec<u8>) -> (r: Option<lopdf::Document>) {
    match lopdf::Document::load_mem(bytes.as_slice()) {
        Ok(d) => Some(d),
        Err(_) => None,
    }
}

/// Relies on `lopdf::Document::get_pages`: the document's page numbers.
#[verifier::external_body]
fn pdf_page_numbers(doc: &lopdf::Document) -> (r: Vec<u32>) {
    doc.get_pages().into_keys().collect()
}

/// Relies on `lopdf::Document::extract_text`: the text of one page.
#[verifier::external_body]
fn pdf_page_text(doc: &lopdf::Document, page: u32) -> (r: Option<String>) {
    match doc.extract_text(&[page]) {
        Ok(t) => Some(t),
        Err(_) => None,
    }
}

/// Relies on `html2text::from_read`: renders HTML bytes to plain text at
/// the given width; the result depends on the bytes and the width alone.
#[verifier::external_body]
fn html_render(bytes: &Vec<u8>, width: usize) -> (r: Option<String>)
    ensures
        (match r {
            Some(s) => s@ == html_text_of(bytes@, width as int),
            None => true,
        }),
{
    match html2text::from_read(bytes.as_slice(), width) {
        Ok(t) => Some(t),
        Err(_) => None,
    }
}

/// One Markdown event, reduced to what text assembly needs.
pub enum MdPiece {
    /// Literal text.
    Text(String),
    /// Inline code.
    Code(String),
    /// A soft or hard line break.
    Break,
    /// Any other event.
    Other,
}

/// Relies on `pulldown_cmark::Parser`: the Markdown events of the input,
/// each mapped to its own variant, text and code carried through unchanged.
#[verifier::external_body]
fn markdown_pieces(src: &str) -> (r: Vec<MdPiece>) {
    pulldown_cmark::Parser::new(src).map(|ev| match ev {
        pulldown_cmark::Event::Text(t) => MdPiece::Text(t.into_string()),
        pulldown_cmark::Event::Code(t) => MdPiece::Code(t.into_string()),
        pulldown_cmark::Event::SoftBreak => MdPiece::Break,
        pulldown_cmark::Event::HardBreak => MdPiece::Break,
        _ => MdPiece::Other,
    }).collect()
}

/// The text assembled from Markdown events: text and code concatenated,
/// breaks as single spaces, everything else dropped.
pub open spec fn md_text_of(pieces: Seq<MdPiece>) -> Seq<char>
    decreases pieces.len(),
{
    if pieces.len() == 0 {
        Seq::empty()
    } else {
        md_text_of(pieces.drop_last()) + (match pieces.last() {
            MdPiece::Text(s) => s@,
            MdPiece::Code(s) => s@,
            MdPiece::Break => seq![' '],
            MdPiece::Other => Seq::empty(),
        })
    }
}

/// Assembles the plain text of a sequence of Markdown events.
pub fn assemble_markdown(pieces: &Vec<MdPiece>) -> (r: String)
    ensures
        r@ == md_text_of(pieces@),
{
    let mut acc = String::new();
    let mut i: usize = 0;
    while i < pieces.len()
        invariant
            i <= pieces@.len(),
            acc@ == md_text_of(pieces@.subrange(0, i as int)),
        decreases pieces@.len() - i,
    {
        match &pieces[i] {
            MdPiece::Text(s) => acc.append(s.as_str()),
            MdPiece::Code(s) => acc.append(s.as_str()),
            MdPiece::Break => {
                acc.append(" ");
                proof {
                    reveal_strlit(" ");
                    assert(" "@ =~= seq![' ']);
                }
            },
            MdPiece::Other => {},
        }
        proof {
            let now = pieces@.subrange(0, i as int + 1);
            assert(now.drop_last() =~= pieces@.subrange(0, i as int));
            assert(now.last() == pieces@[i as int]);
        }
        i += 1;
    }
    proof {
        assert(pieces@.subrange(0, pieces@.len() as int) =~= pieces@);
    }
    acc
}

/// Extracts plain text from a document's bytes.
pub struct TextExtractor;

impl TextExtractor {
    /// Extract the text of the document at `file_path`, whose bytes the
    /// caller has read (`None` when the file does not exist).  The format is
    /// chosen by the file extension; an extension naming no supported format
    /// is rejected before any parsing.
    pub fn extract_text(file_path: &str, file_bytes: Option<&Vec<u8>>) -> (r: Result<
        String,
        ExtractError,
    >)
        ensures
            file_bytes is None ==> r == Err::<String, ExtractError>(ExtractError::NotFound),
            (file_bytes is Some && spec_kind_of_ext(spec_extension(file_path@)) is None) ==> r
                == Err::<String, ExtractError>(ExtractError::UnsupportedType),
            (match file_bytes {
                Some(b) => match spec_kind_of_ext(spec_extension(file_path@)) {
                    Some(FileKind::Plain) => if vstd::utf8::valid_utf8(b@) {
                        r matches Ok(t) && t@ == vstd::utf8::decode_utf8(b@)
                    } else {
                        r == Err::<String, ExtractError>(ExtractError::ParseFailure)
                    },
                    Some(FileKind::Html) => (match r {
                        Ok(t) => t@ == html_text_of(b@, 80),
                        Err(e) => e == ExtractError::ParseFailure,
                    }),
                    Some(FileKind::Pdf) => (match r {
                        Ok(t) => crate::chunker::trim_seq(t@).len() > 0,
                        Err(e) => e == ExtractError::ParseFailure,
                    }),
                    None => true,
                },
                None => true,
            }),
    {
        let bytes = match file_bytes {
            None => {
                return Err(ExtractError::NotFound);
            },
            Some(b) => b,
        };
        let pc = str_chars(file_path);
        let ext = extension_chars(&pc);
        match Self::kind_of_ext(&ext) {
            None => Err(ExtractError::UnsupportedType),
            Some(FileKind::Plain) => Self::extract_plain_text(bytes),
            Some(FileKind::Pdf) => Self::extract_pdf_text(bytes),
            Some(FileKind::Html) => Self::extract_html_text(bytes),
        }
    }

    fn kind_of_ext(e: &Vec<char>) -> (r: Option<FileKind>)
        ensures
            r == spec_kind_of_ext(e@),
    {
        if e.len() == 3 && e[0] == 't' && e[1] == 'x' && e[2] == 't' {
            proof {
                assert(e@ =~= seq!['t', 'x', 't']);
            }
            Some(FileKind::Plain)
        } else if e.len() == 2 && e[0] == 'm' && e[1] == 'd' {
            proof {
                assert(e@ =~= seq!['m', 'd']);
            }
            Some(FileKind::Plain)
        } else if e.len() == 3 && e[0] == 'p' && e[1] == 'd' && e[2] == 'f' {
            proof {
                assert(e@ =~= seq!['p', 'd', 'f']);
            }
            Some(FileKind::Pdf)
        } else if e.len() == 4 && e[0] == 'h' && e[1] == 't' && e[2] == 'm' && e[3] == 'l' {
            proof {
                assert(e@ =~= seq!['h', 't', 'm', 'l']);
            }
            Some(FileKind::Html)
        } else if e.len() == 3 && e[0] == 'h' && e[1] == 't' && e[2] == 'm' {
            proof {
                assert(e@ =~= seq!['h', 't', 'm']);
            }
            Some(FileKind::Html)
        } else {
            None
        }
    }

    fn extract_plain_text(bytes: &Vec<u8>) -> (r: Result<String, ExtractError>)
        ensures
            vstd::utf8::valid_utf8(bytes@) ==> (r matches Ok(t) && t@ == vstd::utf8::decode_utf8(
                bytes@,
            )),
            !vstd::utf8::valid_utf8(bytes@) ==> r == Err::<String, ExtractError>(
                ExtractError::ParseFailure,
            ),
    {
        match utf8_to_string(bytes) {
            Some(s) => Ok(s),
            None => Err(ExtractError::ParseFailure),
        }
    }

    fn extract_pdf_text(bytes: &Vec<u8>) -> (r: Result<String, ExtractError>)
        ensures
            (match r {
                Ok(t) => crate::chunker::trim_seq(t@).len() > 0,
                Err(e) => e == ExtractError::ParseFailure,
            }),
    {
        let doc = match pdf_load(bytes) {
            None => {
                return Err(ExtractError::ParseFailure);
            },
            Some(d) => d,
        };
        let pages = pdf_page_numbers(&doc);
        let mut acc: Vec<char> = Vec::new();
        let mut i: usize = 0;
        while i < pages.len()
            decreases pages@.len() - i,
        {
            match pdf_page_text(&doc, pages[i]) {
                Some(t) => {
                    let tc = str_chars(t.as_str());
                    let mut k: usize = 0;
                    while k < tc.len()
                        decreases tc@.len() - k,
                    {
                        let c = tc[k];
                        acc.push(c);
                        k += 1;
                    }
                    acc.push('\n');
                },
                None => {},
            }
            i += 1;
        }
        let trimmed = trim_range(&acc, 0, acc.len());
        if trimmed.len() == 0 {
            Err(ExtractError::ParseFailure)
        } else {
            let s = chars_to_string(&acc);
            proof {
                assert(acc@.subrange(0, acc@.len() as int) =~= acc@);
            }
            Ok(s)
        }
    }

    fn extract_html_text(bytes: &Vec<u8>) -> (r: Result<String, ExtractError>)
        ensures
            (match r {
                Ok(t) => t@ == html_text_of(bytes@, 80),
                Err(e) => e == ExtractError::ParseFailure,
            }),
    {
        match html_render(bytes, 80) {
            Some(s) => Ok(s),
            None => Err(ExtractError::ParseFailure),
        }
    }

    /// The plain text of a Markdown document: its text and code events
    /// concatenated, line breaks as single spaces.
    pub fn extract_markdown_text(markdown: &str) -> (r: String) {
        let pieces = markdown_pieces(markdown);
        assemble_markdown(&pieces)
    }
}

} // verus!
