//! The errors of the library, each with its message.

use vstd::prelude::*;
use vstd::string::StringExecFns;

verus! {

/// Why a canvas could not be made.
#[derive(Debug, Clone, Copy, PartialEq, Eq, Structural)]
pub enum CanvasError {
    /// No thread could be determined: there was no colour to choose from.
    DmcNotFound,
    /// Fewer than three colours were asked for.
    TooFewColors,
    /// More than two hundred colours were asked for.
    TooManyColors,
    /// A row of no cells was asked for.
    NoColumns,
    /// More cells were asked for in a row than the image has pixels in a row.
    TooManyColumns,
    /// The image is so flat that no row of cells fits in it.
    NoRows,
    /// The image has no pixel, or more pixels than the palette extraction can
    /// count.
    ImageSize,
    /// The measurements handed in do not fit the image and its colours.
    Measurements,
}

impl CanvasError {
    /// What the error says.
    pub open spec fn message(&self) -> Seq<char> {
        match self {
            CanvasError::DmcNotFound => "Error during DMC determination"@,
            CanvasError::TooFewColors => "Number of colors should be bigger than 2"@,
            CanvasError::TooManyColors => "Number of colors should not be bigger than 200"@,
            CanvasError::NoColumns => "Number of cells in width should be bigger than 0"@,
            CanvasError::TooManyColumns =>
                "Number of cells in width should not be bigger than the width"@,
            CanvasError::NoRows => "The image is too flat for a row of cells"@,
            CanvasError::ImageSize => "The image should have between 1 and 167772160 pixels"@,
            CanvasError::Measurements => "The measurements do not fit the image"@,
        }
    }

    /// The error in words.
    pub fn to_string(&self) -> (text: String)
        ensures
            text@ == self.message(),
    {
        match self {
            CanvasError::DmcNotFound => "Error during DMC determination".to_owned(),
            CanvasError::TooFewColors => "Number of colors should be bigger than 2".to_owned(),
            CanvasError::TooManyColors => {
                "Number of colors should not be bigger than 200".to_owned()
            },
            CanvasError::NoColumns => "Number of cells in width should be bigger than 0".to_owned(),
            CanvasError::TooManyColumns => {
                "Number of cells in width should not be bigger than the width".to_owned()
            },
            CanvasError::NoRows => "The image is too flat for a row of cells".to_owned(),
            CanvasError::ImageSize => {
                "The image should have between 1 and 167772160 pixels".to_owned()
            },
            CanvasError::Measurements => "The measurements do not fit the image".to_owned(),
        }
    }
}

/// Why the fields of a form make no request.
#[derive(Debug, Clone)]
pub enum InvalidPayloadError {
    /// The named field is missing, or holds no number.
    MissingValue(String),
    /// The named field holds a value that is not accepted, for the reason
    /// given.
    InvalidValue(String, String),
    /// A field's bytes are no text; the failure in words.
    Conversion(String),
}

impl InvalidPayloadError {
    /// What the error says.
    pub open spec fn message(&self) -> Seq<char> {
        match self {
            InvalidPayloadError::MissingValue(field) => "Missing value. Expected '"@ + field@
                + "' to be provided"@,
            InvalidPayloadError::InvalidValue(field, reason) => "Invalid value in '"@ + field@
                + "'. "@ + reason@,
            InvalidPayloadError::Conversion(failure) => failure@,
        }
    }

    /// The error in words.
    pub fn to_string(&self) -> (text: String)
        ensures
            text@ == self.message(),
    {
        match self {
            InvalidPayloadError::MissingValue(field) => {
                let mut text = "Missing value. Expected '".to_owned();
                text.append(field.as_str());
                text.append("' to be provided");
                text
            },
            InvalidPayloadError::InvalidValue(field, reason) => {
                let mut text = "Invalid value in '".to_owned();
                text.append(field.as_str());
                text.append("'. ");
                text.append(reason.as_str());
                text
            },
            InvalidPayloadError::Conversion(failure) => failure.clone(),
        }
    }

    /// The HTTP status that answers the error: 400, a bad request.
    pub fn status(&self) -> (code: u16)
        ensures
            code == 400,
    {
        400
    }
}

/// Why an upload or an export failed.
#[derive(Debug, Clone)]
pub enum UploadError {
    /// The form is not in order.
    InvalidPayload(InvalidPayloadError),
    /// Bytes are no text; the failure in words.
    Conversion(String),
    /// No canvas could be made.
    Canvas(CanvasError),
}

/// An export fails as an upload does.
pub type ExportError = UploadError;

impl UploadError {
    /// What the error says: what the error within it says.
    pub open spec fn message(&self) -> Seq<char> {
        match self {
            UploadError::InvalidPayload(e) => e.message(),
            UploadError::Conversion(failure) => failure@,
            UploadError::Canvas(e) => e.message(),
        }
    }

    /// The HTTP status that answers the error: 400 where the form is not in
    /// order, and 500 else.
    pub open spec fn status_code(&self) -> u16 {
        match self {
            UploadError::InvalidPayload(_) => 400,
            _ => 500,
        }
    }

    /// The error in words.
    pub fn to_string(&self) -> (text: String)
        ensures
            text@ == self.message(),
    {
        match self {
            UploadError::InvalidPayload(e) => e.to_string(),
            UploadError::Conversion(failure) => failure.clone(),
            UploadError::Canvas(e) => e.to_string(),
        }
    }

    /// The HTTP status that answers the error.
    pub fn status(&self) -> (code: u16)
        ensures
            code == self.status_code(),
    {
        match self {
            UploadError::InvalidPayload(e) => e.status(),
            _ => 500,
        }
    }
}

} // verus!
