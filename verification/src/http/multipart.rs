//! Building the body of a multipart request.

use crate::text::{decimal_ascii, decimal_bytes};
use vstd::prelude::*;
use vstd::string::StringExecFns;
use vstd::utf8::encode_utf8;

verus! {

/// The boundary between the parts of a request body.
pub const BOUNDARY: &'static str = "12345";

/// The name of the header that goes with a request body.
pub const CONTENT_TYPE: &'static str = "content-type";

/// A file of a form: the field's name, the file's name and its bytes.
#[derive(Debug)]
pub struct FileField<'a> {
    pub field: String,
    pub filename: String,
    pub content: &'a Vec<u8>,
}

/// A text of a form: the field's name and the text.
#[derive(Debug)]
pub struct TextField {
    pub field: String,
    pub text: String,
}

/// The part of a request body that holds a file.
pub open spec fn file_part(file: FileField) -> Seq<u8> {
    encode_utf8("--"@) + encode_utf8(BOUNDARY@) + encode_utf8(
        "\r\nContent-Disposition: form-data; name=\""@,
    ) + encode_utf8(file.field@) + encode_utf8("\"; filename=\""@) + encode_utf8(file.filename@)
        + encode_utf8("\"\r\nContent-Type: image/png\r\nContent-Length: "@) + decimal_ascii(
        file.content@.len(),
    ) + encode_utf8("\r\n\r\n"@) + file.content@ + encode_utf8("\r\n"@)
}

/// The part of a request body that holds a text.
pub open spec fn text_part(text: TextField) -> Seq<u8> {
    encode_utf8("--"@) + encode_utf8(BOUNDARY@) + encode_utf8(
        "\r\nContent-Disposition: form-data; name=\""@,
    ) + encode_utf8(text.field@) + encode_utf8(
        "\"\r\nContent-Type: text/plain\r\nContent-Length: "@,
    ) + decimal_ascii(encode_utf8(text.text@).len()) + encode_utf8("\r\n\r\n"@) + encode_utf8(
        text.text@,
    ) + encode_utf8("\r\n"@)
}

/// The parts of files, one after the other.
pub open spec fn file_parts(files: Seq<FileField>) -> Seq<u8>
    decreases files.len(),
{
    if files.len() == 0 {
        Seq::empty()
    } else {
        file_parts(files.drop_last()) + file_part(files.last())
    }
}

/// The parts of texts, one after the other.
pub open spec fn text_parts(texts: Seq<TextField>) -> Seq<u8>
    decreases texts.len(),
{
    if texts.len() == 0 {
        Seq::empty()
    } else {
        text_parts(texts.drop_last()) + text_part(texts.last())
    }
}

/// The body of a request: the files' parts, the texts' parts and the closing
/// boundary.
pub open spec fn multipart_body(files: Seq<FileField>, texts: Seq<TextField>) -> Seq<u8> {
    file_parts(files) + text_parts(texts) + encode_utf8("--"@) + encode_utf8(BOUNDARY@)
        + encode_utf8("--\r\n"@)
}

/// The value of the header that goes with a request body.
pub open spec fn multipart_content_type() -> Seq<char> {
    "multipart/form-data; boundary="@ + BOUNDARY@
}

/// Appends bytes to a buffer.
pub fn push_bytes(buffer: &mut Vec<u8>, bytes: &[u8])
    ensures
        final(buffer)@ == old(buffer)@ + bytes@,
{
    let mut i: usize = 0;
    while i < bytes.len()
        invariant
            i <= bytes.len(),
            buffer@ == old(buffer)@ + bytes@.take(i as int),
        decreases bytes.len() - i,
    {
        proof {
            assert((old(buffer)@ + bytes@.take(i as int)).push(bytes@[i as int]) =~= old(buffer)@
                + bytes@.take(i + 1));
        }
        buffer.push(bytes[i]);
        i += 1;
    }
    proof {
        assert(bytes@.take(bytes.len() as int) =~= bytes@);
    }
}

/// Appends the bytes of a text to a buffer.
pub fn push_str(buffer: &mut Vec<u8>, text: &str)
    ensures
        final(buffer)@ == old(buffer)@ + encode_utf8(text@),
{
    push_bytes(buffer, text.as_bytes());
}

/// Appends a piece to a buffer that holds `start` and then `parts`.
fn push_piece(
    buffer: &mut Vec<u8>,
    piece: &[u8],
    Ghost(start): Ghost<Seq<u8>>,
    Ghost(parts): Ghost<Seq<u8>>,
)
    requires
        old(buffer)@ == start + parts,
    ensures
        final(buffer)@ == start + (parts + piece@),
{
    push_bytes(buffer, piece);
    proof {
        assert((start + parts) + piece@ =~= start + (parts + piece@));
    }
}

/// Appends the part that holds a file to a buffer.
pub fn push_file_part(buffer: &mut Vec<u8>, file: &FileField)
    ensures
        final(buffer)@ == old(buffer)@ + file_part(*file),
{
    let ghost start = buffer@;
    let ghost mut parts = Seq::<u8>::empty();
    proof {
        assert(buffer@ =~= start + parts);
    }
    push_piece(buffer, "--".as_bytes(), Ghost(start), Ghost(parts));
    proof {
        parts = parts + encode_utf8("--"@);
    }
    push_piece(buffer, BOUNDARY.as_bytes(), Ghost(start), Ghost(parts));
    proof {
        parts = parts + encode_utf8(BOUNDARY@);
    }
    push_piece(
        buffer,
        "\r\nContent-Disposition: form-data; name=\"".as_bytes(),
        Ghost(start),
        Ghost(parts),
    );
    proof {
        parts = parts + encode_utf8("\r\nContent-Disposition: form-data; name=\""@);
    }
    push_piece(buffer, file.field.as_str().as_bytes(), Ghost(start), Ghost(parts));
    proof {
        parts = parts + encode_utf8(file.field@);
    }
    push_piece(buffer, "\"; filename=\"".as_bytes(), Ghost(start), Ghost(parts));
    proof {
        parts = parts + encode_utf8("\"; filename=\""@);
    }
    push_piece(buffer, file.filename.as_str().as_bytes(), Ghost(start), Ghost(parts));
    proof {
        parts = parts + encode_utf8(file.filename@);
    }
    push_piece(
        buffer,
        "\"\r\nContent-Type: image/png\r\nContent-Length: ".as_bytes(),
        Ghost(start),
        Ghost(parts),
    );
    proof {
        parts = parts + encode_utf8("\"\r\nContent-Type: image/png\r\nContent-Length: "@);
    }
    let length = decimal_bytes(file.content.len());
    push_piece(buffer, length.as_slice(), Ghost(start), Ghost(parts));
    proof {
        parts = parts + decimal_ascii(file.content@.len());
    }
    push_piece(buffer, "\r\n\r\n".as_bytes(), Ghost(start), Ghost(parts));
    proof {
        parts = parts + encode_utf8("\r\n\r\n"@);
    }
    push_piece(buffer, file.content.as_slice(), Ghost(start), Ghost(parts));
    proof {
        parts = parts + file.content@;
    }
    push_piece(buffer, "\r\n".as_bytes(), Ghost(start), Ghost(parts));
    proof {
        parts = parts + encode_utf8("\r\n"@);
        assert(parts =~= file_part(*file));
    }
}

/// Appends the part that holds a text to a buffer.
pub fn push_text_part(buffer: &mut Vec<u8>, text: &TextField)
    ensures
        final(buffer)@ == old(buffer)@ + text_part(*text),
{
    let ghost start = buffer@;
    let ghost mut parts = Seq::<u8>::empty();
    proof {
        assert(buffer@ =~= start + parts);
    }
    push_piece(buffer, "--".as_bytes(), Ghost(start), Ghost(parts));
    proof {
        parts = parts + encode_utf8("--"@);
    }
    push_piece(buffer, BOUNDARY.as_bytes(), Ghost(start), Ghost(parts));
    proof {
        parts = parts + encode_utf8(BOUNDARY@);
    }
    push_piece(
        buffer,
        "\r\nContent-Disposition: form-data; name=\"".as_bytes(),
        Ghost(start),
        Ghost(parts),
    );
    proof {
        parts = parts + encode_utf8("\r\nContent-Disposition: form-data; name=\""@);
    }
    push_piece(buffer, text.field.as_str().as_bytes(), Ghost(start), Ghost(parts));
    proof {
        parts = parts + encode_utf8(text.field@);
    }
    push_piece(
        buffer,
        "\"\r\nContent-Type: text/plain\r\nContent-Length: ".as_bytes(),
        Ghost(start),
        Ghost(parts),
    );
    proof {
        parts = parts + encode_utf8("\"\r\nContent-Type: text/plain\r\nContent-Length: "@);
    }
    let bytes = text.text.as_str().as_bytes();
    let length = decimal_bytes(bytes.len());
    push_piece(buffer, length.as_slice(), Ghost(start), Ghost(parts));
    proof {
        parts = parts + decimal_ascii(encode_utf8(text.text@).len());
    }
    push_piece(buffer, "\r\n\r\n".as_bytes(), Ghost(start), Ghost(parts));
    proof {
        parts = parts + encode_utf8("\r\n\r\n"@);
    }
    push_piece(buffer, bytes, Ghost(start), Ghost(parts));
    proof {
        parts = parts + encode_utf8(text.text@);
    }
    push_piece(buffer, "\r\n".as_bytes(), Ghost(start), Ghost(parts));
    proof {
        parts = parts + encode_utf8("\r\n"@);
        assert(parts =~= text_part(*text));
    }
}

/// Collects the fields of a form and builds the body of the request that
/// sends them.
#[derive(Debug)]
pub struct MultipartBuilder<'a> {
    files: Vec<FileField<'a>>,
    texts: Vec<TextField>,
}

impl<'a> MultipartBuilder<'a> {
    /// The files added so far.
    pub closed spec fn files(&self) -> Seq<FileField<'a>> {
        self.files@
    }

    /// The texts added so far.
    pub closed spec fn texts(&self) -> Seq<TextField> {
        self.texts@
    }

    /// A builder without fields.
    pub fn new() -> (builder: Self)
        ensures
            builder.files().len() == 0,
            builder.texts().len() == 0,
    {
        MultipartBuilder { files: Vec::new(), texts: Vec::new() }
    }

    /// Adds a file.
    pub fn add_file(&mut self, field: &str, filename: &str, file_content: &'a Vec<u8>)
        ensures
            final(self).texts() == old(self).texts(),
            final(self).files().len() == old(self).files().len() + 1,
            final(self).files().drop_last() == old(self).files(),
            final(self).files().last().field@ == field@,
            final(self).files().last().filename@ == filename@,
            final(self).files().last().content@ == file_content@,
    {
        let ghost before = self.files@;
        self.files.push(
            FileField {
                field: field.to_owned(),
                filename: filename.to_owned(),
                content: file_content,
            },
        );
        proof {
            assert(self.files@.drop_last() =~= before);
        }
    }

    /// Adds a text.
    pub fn add_text(&mut self, field: &str, text: &str)
        ensures
            final(self).files() == old(self).files(),
            final(self).texts().len() == old(self).texts().len() + 1,
            final(self).texts().drop_last() == old(self).texts(),
            final(self).texts().last().field@ == field@,
            final(self).texts().last().text@ == text@,
    {
        let ghost before = self.texts@;
        self.texts.push(TextField { field: field.to_owned(), text: text.to_owned() });
        proof {
            assert(self.texts@.drop_last() =~= before);
        }
    }

    /// The header and the body of the request: the header's name and value,
    /// and the bytes.
    pub fn build(self) -> (request: ((String, String), Vec<u8>))
        ensures
            request.0.0@ == CONTENT_TYPE@,
            request.0.1@ == multipart_content_type(),
            request.1@ == multipart_body(self.files(), self.texts()),
    {
        let mut payload: Vec<u8> = Vec::new();
        let mut i: usize = 0;
        while i < self.files.len()
            invariant
                i <= self.files.len(),
                payload@ == file_parts(self.files@.take(i as int)),
            decreases self.files.len() - i,
        {
            let file = &self.files[i];
            proof {
                let next = self.files@.take(i + 1);
                assert(next.drop_last() =~= self.files@.take(i as int));
                assert(next.last() == *file);
            }
            push_file_part(&mut payload, file);
            i += 1;
        }
        proof {
            assert(self.files@.take(self.files.len() as int) =~= self.files@);
        }
        let mut j: usize = 0;
        let ghost head = payload@;
        proof {
            assert(head + text_parts(self.texts@.take(0)) =~= head);
        }
        while j < self.texts.len()
            invariant
                j <= self.texts.len(),
                head == file_parts(self.files@),
                payload@ == head + text_parts(self.texts@.take(j as int)),
            decreases self.texts.len() - j,
        {
            let text = &self.texts[j];
            proof {
                let next = self.texts@.take(j + 1);
                assert(next.drop_last() =~= self.texts@.take(j as int));
                assert(next.last() == *text);
            }
            push_text_part(&mut payload, text);
            proof {
                assert(head + text_parts(self.texts@.take(j as int)) + text_part(*text) =~= head + (
                text_parts(self.texts@.take(j as int)) + text_part(*text)));
            }
            j += 1;
        }
        proof {
            assert(self.texts@.take(self.texts.len() as int) =~= self.texts@);
        }
        let ghost parts = payload@;
        push_str(&mut payload, "--");
        push_str(&mut payload, BOUNDARY);
        push_str(&mut payload, "--\r\n");
        proof {
            assert(payload@ =~= parts + encode_utf8("--"@) + encode_utf8(BOUNDARY@) + encode_utf8(
                "--\r\n"@,
            ));
        }
        let mut value = "multipart/form-data; boundary=".to_owned();
        value.append(BOUNDARY);
        ((CONTENT_TYPE.to_owned(), value), payload)
    }
}

} // verus!
