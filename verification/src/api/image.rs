//! Reading the fields of the form that asks for a pattern.

use crate::error::InvalidPayloadError;
use crate::text::digits_value;
use vstd::prelude::*;
use vstd::utf8::valid_utf8;

verus! {

/// The file of a form: its bytes and its name.
#[derive(Debug, Clone)]
pub struct FileData {
    pub buffer: Vec<u8>,
    pub filename: String,
}

/// What a form asks for: the image, and the numbers of cells in a row and of
/// colours where they are given.
#[derive(Debug, Clone)]
pub struct ImageData {
    pub file: FileData,
    pub n_cells_in_width: Option<u8>,
    pub n_colors: Option<u8>,
}

/// What a field of the form is for.
#[derive(Debug, Clone, Copy, PartialEq, Eq, Structural)]
pub enum FieldKind {
    /// The image.
    File,
    /// The number of cells in a row.
    CellsInWidth,
    /// The number of colours.
    Colors,
    /// Nothing: the field is passed over.
    Other,
}

/// What the field of the given name is for.
pub open spec fn kind_of(name: Seq<char>) -> FieldKind {
    if name == "file"@ {
        FieldKind::File
    } else if name == "nCellsInWidth"@ {
        FieldKind::CellsInWidth
    } else if name == "nColors"@ {
        FieldKind::Colors
    } else {
        FieldKind::Other
    }
}

/// Every byte is an ASCII digit.
pub open spec fn all_digits(bytes: Seq<u8>) -> bool {
    forall|i: int| 0 <= i < bytes.len() ==> 48 <= #[trigger] bytes[i] <= 57
}

/// The number that ASCII digits denote.
pub open spec fn number_of(bytes: Seq<u8>) -> nat {
    digits_value(Seq::new(bytes.len(), |i: int| (bytes[i] - 48) as u8))
}

/// The bytes without a plus sign in front.
pub open spec fn unsigned_part(bytes: Seq<u8>) -> Seq<u8> {
    if bytes.len() > 0 && bytes[0] == 43 {
        bytes.skip(1)
    } else {
        bytes
    }
}

/// The number up to 255 that a text denotes: at least one digit, with or
/// without a plus sign in front, and nothing else.
pub open spec fn number_in(bytes: Seq<u8>) -> Option<u8> {
    let digits = unsigned_part(bytes);
    if digits.len() == 0 || !all_digits(digits) || number_of(digits) > 255 {
        None
    } else {
        Some(number_of(digits) as u8)
    }
}

/// A digit more makes a number ten times as large, and the digit more.
pub proof fn lemma_number_of_push(bytes: Seq<u8>, digit: u8)
    requires
        48 <= digit <= 57,
    ensures
        number_of(bytes.push(digit)) == number_of(bytes) * 10 + (digit - 48),
{
    let more = bytes.push(digit);
    let values = Seq::new(more.len(), |i: int| (more[i] - 48) as u8);
    assert(values.drop_last() =~= Seq::new(bytes.len(), |i: int| (bytes[i] - 48) as u8));
}

/// The number of digits is at least the number of the digits before any
/// place.
pub proof fn lemma_number_of_grows(bytes: Seq<u8>, n: int)
    requires
        0 <= n <= bytes.len(),
        all_digits(bytes),
    ensures
        number_of(bytes.take(n)) <= number_of(bytes),
    decreases bytes.len() - n,
{
    if n < bytes.len() {
        lemma_number_of_grows(bytes, n + 1);
        assert(bytes.take(n + 1) =~= bytes.take(n).push(bytes[n]));
        lemma_number_of_push(bytes.take(n), bytes[n]);
    } else {
        assert(bytes.take(n) =~= bytes);
    }
}

/// Reads the number up to 255 that a text denotes.
pub fn parse_number(bytes: &Vec<u8>) -> (number: Option<u8>)
    ensures
        number == number_in(bytes@),
{
    let start: usize = if bytes.len() > 0 && bytes[0] == 43 {
        1
    } else {
        0
    };
    if start == bytes.len() {
        return None;
    }
    let ghost digits = unsigned_part(bytes@);
    let mut value: u16 = 0;
    let mut i: usize = start;
    proof {
        assert(digits.take(0) =~= Seq::<u8>::empty());
        assert(Seq::new(0, |i: int| (digits.take(0)[i] - 48) as u8).len() == 0);
    }
    while i < bytes.len()
        invariant
            start <= i <= bytes.len(),
            start <= 1,
            digits == unsigned_part(bytes@),
            digits.len() == bytes.len() - start,
            forall|j: int| 0 <= j < digits.len() ==> digits[j] == bytes@[j + start],
            all_digits(digits.take(i - start)),
            value == number_of(digits.take(i - start)),
            value <= 255,
        decreases bytes.len() - i,
    {
        let byte = bytes[i];
        if byte < 48 || byte > 57 {
            proof {
                assert(digits[i - start] == byte);
            }
            return None;
        }
        proof {
            assert(digits.take(i - start + 1) =~= digits.take(i - start).push(byte));
            lemma_number_of_push(digits.take(i - start), byte);
        }
        value = value * 10 + (byte - 48) as u16;
        if value > 255 {
            proof {
                if all_digits(digits) {
                    lemma_number_of_grows(digits, i - start + 1);
                }
            }
            return None;
        }
        i += 1;
    }
    proof {
        assert(digits.take(digits.len() as int) =~= digits);
    }
    Some(value as u8)
}

/// The text of the failure, where `bytes` are no UTF-8 text. This is
/// `std::str::from_utf8`, which succeeds exactly on UTF-8, with its error
/// put into words.
#[verifier::external_body]
fn utf8_failure(bytes: &Vec<u8>) -> (failure: Option<String>)
    ensures
        failure.is_none() <==> valid_utf8(bytes@),
{
    match std::str::from_utf8(bytes) {
        Ok(_) => None,
        Err(e) => Some(format!("{}", e)),
    }
}

/// The reason given where the number of colours is not accepted.
pub open spec fn colors_reason() -> Seq<char> {
    "Value should be within 2 and 200"@
}

/// The reason given where a field comes twice.
pub open spec fn twice_reason() -> Seq<char> {
    "Field should contain 1 item"@
}

/// Whether the content of the field for the number of cells is accepted:
/// it is text and denotes a number up to 255.
pub open spec fn cells_accepted(content: Seq<u8>) -> bool {
    valid_utf8(content) && number_in(content).is_some()
}

/// Whether the content of the field for the number of colours is accepted:
/// it is text and denotes a number above 2 and up to 200.
pub open spec fn colors_accepted(content: Seq<u8>) -> bool {
    valid_utf8(content) && (number_in(content) matches Some(n) && 2 < n <= 200)
}

/// Reads the number of cells in a row from the content of its field. Bytes
/// that are no text are a conversion error; text that is no number up to 255
/// is reported as a missing value.
pub fn read_cells_in_width(content: &Vec<u8>) -> (cells: Result<u8, InvalidPayloadError>)
    ensures
        cells.is_ok() <==> cells_accepted(content@),
        cells matches Ok(n) ==> number_in(content@) == Some(n),
        cells matches Err(e) ==> if valid_utf8(content@) {
            e matches InvalidPayloadError::MissingValue(field) && field@ == "nCellsInWidth"@
        } else {
            e is Conversion
        },
{
    match utf8_failure(content) {
        Some(failure) => Err(InvalidPayloadError::Conversion(failure)),
        None => match parse_number(content) {
            Some(n) => Ok(n),
            None => Err(InvalidPayloadError::MissingValue("nCellsInWidth".to_owned())),
        },
    }
}

/// Reads the number of colours from the content of its field. Bytes that are
/// no text are a conversion error; text that is no number above 2 and up to
/// 200 is an invalid value.
pub fn read_colors(content: &Vec<u8>) -> (colors: Result<u8, InvalidPayloadError>)
    ensures
        colors.is_ok() <==> colors_accepted(content@),
        colors matches Ok(n) ==> number_in(content@) == Some(n),
        colors matches Err(e) ==> if valid_utf8(content@) {
            e matches InvalidPayloadError::InvalidValue(field, reason) && field@ == "nColors"@
                && reason@ == colors_reason()
        } else {
            e is Conversion
        },
{
    match utf8_failure(content) {
        Some(failure) => Err(InvalidPayloadError::Conversion(failure)),
        None => match parse_number(content) {
            Some(n) => {
                if n <= 2 || n > 200 {
                    Err(
                        InvalidPayloadError::InvalidValue(
                            "nColors".to_owned(),
                            "Value should be within 2 and 200".to_owned(),
                        ),
                    )
                } else {
                    Ok(n)
                }
            },
            None => Err(
                InvalidPayloadError::InvalidValue(
                    "nColors".to_owned(),
                    "Value should be within 2 and 200".to_owned(),
                ),
            ),
        },
    }
}

/// Some name of `names` is `name`.
pub open spec fn seen(names: Seq<String>, name: Seq<char>) -> bool {
    exists|i: int| 0 <= i < names.len() && (#[trigger] names[i])@ == name
}

/// Reads the fields of a form one by one. For each field, `begin` says what
/// it is for; the caller then reads the field's content and hands it to
/// `file`, `cells_in_width` or `colors`; `finish` gives what was read.
#[derive(Debug)]
pub struct PayloadReader {
    pub names: Vec<String>,
    pub data: ImageData,
}

impl PayloadReader {
    /// A reader that has seen no field.
    pub fn new() -> (reader: PayloadReader)
        ensures
            reader.names@.len() == 0,
            reader.data.file.buffer@.len() == 0,
            reader.data.file.filename@.len() == 0,
            reader.data.n_cells_in_width.is_none(),
            reader.data.n_colors.is_none(),
    {
        PayloadReader {
            names: Vec::new(),
            data: ImageData {
                file: FileData { buffer: Vec::new(), filename: String::new() },
                n_cells_in_width: None,
                n_colors: None,
            },
        }
    }

    /// Takes note of a field's name and says what the field is for. A name
    /// that was seen before is refused.
    pub fn begin(&mut self, name: &str) -> (kind: Result<FieldKind, InvalidPayloadError>)
        ensures
            final(self).data == old(self).data,
            match kind {
                Ok(k) => {
                    &&& !seen(old(self).names@, name@)
                    &&& k == kind_of(name@)
                    &&& final(self).names@.len() == old(self).names@.len() + 1
                    &&& final(self).names@.drop_last() == old(self).names@
                    &&& final(self).names@.last()@ == name@
                },
                Err(e) => {
                    &&& seen(old(self).names@, name@)
                    &&& final(self).names@ == old(self).names@
                    &&& e matches InvalidPayloadError::InvalidValue(field, reason) && field@
                        == name@ && reason@ == twice_reason()
                },
            },
    {
        let owned = name.to_owned();
        let mut i: usize = 0;
        while i < self.names.len()
            invariant
                i <= self.names.len(),
                owned@ == name@,
                *self == *old(self),
                forall|j: int| 0 <= j < i ==> (#[trigger] self.names@[j])@ != name@,
            decreases self.names.len() - i,
        {
            if self.names[i] == owned {
                let reason = "Field should contain 1 item".to_owned();
                return Err(InvalidPayloadError::InvalidValue(owned, reason));
            }
            i += 1;
        }
        let kind = if owned == "file".to_owned() {
            FieldKind::File
        } else if owned == "nCellsInWidth".to_owned() {
            FieldKind::CellsInWidth
        } else if owned == "nColors".to_owned() {
            FieldKind::Colors
        } else {
            FieldKind::Other
        };
        let ghost before = self.names@;
        self.names.push(owned);
        proof {
            assert(self.names@.drop_last() =~= before);
        }
        Ok(kind)
    }

    /// Keeps the image and its name; the name is "filename" where the field
    /// gives none.
    pub fn file(&mut self, filename: Option<&str>, content: Vec<u8>)
        ensures
            final(self).names == old(self).names,
            final(self).data.n_cells_in_width == old(self).data.n_cells_in_width,
            final(self).data.n_colors == old(self).data.n_colors,
            final(self).data.file.buffer@ == content@,
            final(self).data.file.filename@ == match filename {
                Some(name) => name@,
                None => "filename"@,
            },
    {
        self.data.file.filename = match filename {
            Some(name) => name.to_owned(),
            None => "filename".to_owned(),
        };
        self.data.file.buffer = content;
    }

    /// Keeps the number of cells in a row, read from the field's content.
    pub fn cells_in_width(&mut self, content: &Vec<u8>) -> (done: Result<(), InvalidPayloadError>)
        ensures
            final(self).names == old(self).names,
            final(self).data.file == old(self).data.file,
            final(self).data.n_colors == old(self).data.n_colors,
            done.is_ok() <==> cells_accepted(content@),
            done.is_ok() ==> final(self).data.n_cells_in_width == number_in(content@),
            done.is_err() ==> final(self).data.n_cells_in_width == old(
                self,
            ).data.n_cells_in_width,
            done matches Err(e) ==> if valid_utf8(content@) {
                e matches InvalidPayloadError::MissingValue(field) && field@ == "nCellsInWidth"@
            } else {
                e is Conversion
            },
    {
        match read_cells_in_width(content) {
            Ok(n) => {
                self.data.n_cells_in_width = Some(n);
                Ok(())
            },
            Err(e) => Err(e),
        }
    }

    /// Keeps the number of colours, read from the field's content.
    pub fn colors(&mut self, content: &Vec<u8>) -> (done: Result<(), InvalidPayloadError>)
        ensures
            final(self).names == old(self).names,
            final(self).data.file == old(self).data.file,
            final(self).data.n_cells_in_width == old(self).data.n_cells_in_width,
            done.is_ok() <==> colors_accepted(content@),
            done.is_ok() ==> final(self).data.n_colors == number_in(content@),
            done.is_err() ==> final(self).data.n_colors == old(self).data.n_colors,
            done matches Err(e) ==> if valid_utf8(content@) {
                e matches InvalidPayloadError::InvalidValue(field, reason) && field@ == "nColors"@
                    && reason@ == colors_reason()
            } else {
                e is Conversion
            },
    {
        match read_colors(content) {
            Ok(n) => {
                self.data.n_colors = Some(n);
                Ok(())
            },
            Err(e) => Err(e),
        }
    }

    /// What was read; a form without the bytes of an image is refused.
    pub fn finish(self) -> (data: Result<ImageData, InvalidPayloadError>)
        ensures
            match data {
                Ok(d) => self.data.file.buffer@.len() > 0 && d == self.data,
                Err(e) => self.data.file.buffer@.len() == 0 && (
                e matches InvalidPayloadError::MissingValue(field) && field@ == "file"@),
            },
    {
        if self.data.file.buffer.len() == 0 {
            Err(InvalidPayloadError::MissingValue("file".to_owned()))
        } else {
            Ok(self.data)
        }
    }
}

} // verus!
