//! What the pattern service needs of HTTP: the body of a multipart request.

pub mod multipart;
