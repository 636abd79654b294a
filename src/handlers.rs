//! Hand-off of finished LRIT files to the sinks that store them.
//!
//! A sink implements `Handler`; `dispatch` hands a file to each sink of a list in order.
//! The sinks of this library decide here, from the file's headers, whether a file is
//! theirs and what to do with it; the file system work is the caller's.
use vstd::prelude::*;
use crate::bytes::{text_of, trim};
use crate::dcs::{block_views, spec_blocks, spec_decimal, DcsBlock, DcsHeader, DCS_HEADER_LEN};
use crate::session::LRIT;

verus! {

/// File type code of image files.
pub const FILETYPE_IMAGE: u8 = 0;

/// File type code of text files.
pub const FILETYPE_TEXT: u8 = 2;

/// File type code of DCS files.
pub const FILETYPE_DCS: u8 = 130;

/// NOAA product id of DCS data.
pub const DCS_PRODUCT_ID: u16 = 8;

/// Why a handler did not (fully) handle a file.
#[derive(Debug)]
pub enum HandlerError {
    /// The file is not of the kind this handler takes; not an error as such.
    Skipped,
    /// A header record the handler needs is missing.
    MissingHeader(&'static str),
    /// The file body could not be parsed.
    Parse(&'static str),
    /// Writing the output failed.
    Io(String),
    /// Any other failure.
    Other(String),
}

/// A sink for finished LRIT files.
pub trait Handler: Sized {
    /// The sink, given `lrit`, became `after` and answered `r`.
    spec fn handled(&self, lrit: LRIT, after: Self, r: Result<(), HandlerError>) -> bool;

    /// Takes one file.
    fn handle(&mut self, lrit: &LRIT) -> (r: Result<(), HandlerError>)
        ensures
            old(self).handled(*lrit, *final(self), r),
    ;
}

/// Hands `lrit` to each handler in list order, whatever the earlier ones returned, and
/// returns their results in the same order.
pub fn dispatch<H: Handler>(handlers: &mut Vec<H>, lrit: &LRIT) -> (r: Vec<Result<(), HandlerError>>)
    ensures
        r@.len() == old(handlers)@.len(),
        final(handlers)@.len() == old(handlers)@.len(),
        forall|i: int|
            0 <= i < r@.len() ==> #[trigger] old(handlers)@[i].handled(
                *lrit,
                final(handlers)@[i],
                r@[i],
            ),
{
    let mut results: Vec<Result<(), HandlerError>> = Vec::new();
    let n = handlers.len();
    let mut i: usize = 0;
    while i < n
        invariant
            i <= n,
            n == handlers@.len(),
            n == old(handlers)@.len(),
            results@.len() == i,
            forall|j: int| i <= j < n ==> #[trigger] handlers@[j] == old(handlers)@[j],
            forall|j: int|
                0 <= j < i ==> #[trigger] old(handlers)@[j].handled(*lrit, handlers@[j], results@[j]),
        decreases n - i,
    {
        let ghost before = handlers@;
        let res = handlers[i].handle(lrit);
        assert(forall|j: int| 0 <= j < n && j != i ==> handlers@[j] == before[j]);
        results.push(res);
        i = i + 1;
    }
    results
}

/// Dumps the header records of every file that has an annotation.
pub struct DebugHandler {
    /// Directory the dumps go to.
    pub output_root: String,
}

impl DebugHandler {
    /// A handler writing under `output_root`.
    pub fn new(output_root: String) -> (r: Self)
        ensures
            r.output_root@ == output_root@,
    {
        DebugHandler { output_root }
    }

    /// Takes every file that has an annotation (its dump is named after it).
    pub fn select(&self, lrit: &LRIT) -> (r: Result<(), HandlerError>)
        ensures
            r is Ok <==> lrit.headers.annotation is Some,
            r matches Err(e) ==> e == HandlerError::MissingHeader("annotation"),
    {
        match &lrit.headers.annotation {
            Some(_) => Ok(()),
            None => Err(HandlerError::MissingHeader("annotation")),
        }
    }
}

/// What the text handler does with a text file.
#[derive(Clone, Copy, Debug, PartialEq, Eq)]
pub enum TextAction {
    /// The body is a ZIP archive (NOAA compression set): extract its files.
    Unzip,
    /// The body is plain text: write it under the annotation's name.
    WriteAsAnnotated,
}

/// Stores text files (file type 2).
pub struct TextHandler {
    /// Directory the files go to.
    pub output_root: String,
}

impl TextHandler {
    /// A handler writing under `output_root`.
    pub fn new(output_root: String) -> (r: TextHandler)
        ensures
            r.output_root@ == output_root@,
    {
        TextHandler { output_root }
    }

    /// Text files are taken; a file whose NOAA record declares compression is a ZIP
    /// archive, any other is written under its annotation's name.
    pub fn select(&self, lrit: &LRIT) -> (r: Result<TextAction, HandlerError>)
        ensures
            lrit.headers.primary.filetype_code != FILETYPE_TEXT ==> r matches Err(
                HandlerError::Skipped,
            ),
            lrit.headers.primary.filetype_code == FILETYPE_TEXT ==> {
                let compressed = lrit.headers.noaa matches Some(n) && n.noaa_compression != 0;
                if compressed {
                    r == Ok::<TextAction, HandlerError>(TextAction::Unzip)
                } else if lrit.headers.annotation is Some {
                    r == Ok::<TextAction, HandlerError>(TextAction::WriteAsAnnotated)
                } else {
                    r matches Err(HandlerError::MissingHeader(name)) && name == "annotation"
                }
            },
    {
        if lrit.headers.primary.filetype_code != FILETYPE_TEXT {
            return Err(HandlerError::Skipped);
        }
        let compressed = match &lrit.headers.noaa {
            Some(n) => n.noaa_compression != 0,
            None => false,
        };
        if compressed {
            Ok(TextAction::Unzip)
        } else {
            match &lrit.headers.annotation {
                Some(_) => Ok(TextAction::WriteAsAnnotated),
                None => Err(HandlerError::MissingHeader("annotation")),
            }
        }
    }
}

/// A DCS file: file type 130 with a NOAA record of product 8 and an annotation.
pub open spec fn is_dcs_file(lrit: LRIT) -> bool {
    &&& lrit.headers.primary.filetype_code == FILETYPE_DCS
    &&& lrit.headers.noaa matches Some(n) && n.product_id == DCS_PRODUCT_ID
    &&& lrit.headers.annotation is Some
}

/// Stores DCS files (file type 130, NOAA product 8).
pub struct DcsHandler {
    /// Directory the files go to.
    pub output_root: String,
}

impl DcsHandler {
    /// A handler writing under `output_root`.
    pub fn new(output_root: String) -> (r: Self)
        ensures
            r.output_root@ == output_root@,
    {
        DcsHandler { output_root }
    }

    /// DCS files are taken: file type 130 with a NOAA record of product 8 and an annotation.
    pub fn select(&self, lrit: &LRIT) -> (r: Result<(), HandlerError>)
        ensures
            lrit.headers.primary.filetype_code != FILETYPE_DCS ==> r matches Err(
                HandlerError::Skipped,
            ),
            lrit.headers.primary.filetype_code == FILETYPE_DCS ==> match lrit.headers.noaa {
                None => r matches Err(HandlerError::MissingHeader(name)) && name == "NOAA",
                Some(n) => if n.product_id != DCS_PRODUCT_ID {
                    r matches Err(HandlerError::Skipped)
                } else if lrit.headers.annotation is None {
                    r matches Err(HandlerError::MissingHeader(name)) && name == "annotation"
                } else {
                    r is Ok
                },
            },
            r is Ok <==> is_dcs_file(*lrit),
    {
        if lrit.headers.primary.filetype_code != FILETYPE_DCS {
            return Err(HandlerError::Skipped);
        }
        let noaa = match &lrit.headers.noaa {
            Some(n) => n,
            None => return Err(HandlerError::MissingHeader("NOAA")),
        };
        if noaa.product_id != DCS_PRODUCT_ID {
            return Err(HandlerError::Skipped);
        }
        match &lrit.headers.annotation {
            Some(_) => Ok(()),
            None => Err(HandlerError::MissingHeader("annotation")),
        }
    }

    /// Reads a DCS file that this handler takes (see `select`): its header, which must
    /// name the payload type "DCSH", then its message blocks.
    pub fn decode(&self, lrit: &LRIT) -> (r: Result<(DcsHeader, Vec<DcsBlock>), HandlerError>)
        ensures
            !is_dcs_file(*lrit) ==> r is Err,
            r matches Ok((h, bs)) ==> {
                let d = lrit.data@;
                &&& is_dcs_file(*lrit)
                &&& d.len() >= DCS_HEADER_LEN + 4
                &&& spec_decimal(trim(d.subrange(32, 40))) == Some(h.payload_len)
                &&& h.payload_type@ == seq!['D', 'C', 'S', 'H']
                &&& spec_blocks(d.subrange(64, d.len() as int), 0, d.len() - 68) == Some(
                    block_views(bs@),
                )
            },
            ({
                let d = lrit.data@;
                is_dcs_file(*lrit) && d.len() >= DCS_HEADER_LEN + 4 && spec_decimal(
                    trim(d.subrange(32, 40)),
                ) is Some && text_of(trim(d.subrange(44, 48))) == seq!['D', 'C', 'S', 'H']
                    && spec_blocks(d.subrange(64, d.len() as int), 0, d.len() - 68) is Some
            }) ==> r is Ok,
    {
        match self.select(lrit) {
            Ok(()) => {},
            Err(e) => return Err(e),
        }
        let data = lrit.data.as_slice();
        if data.len() < DCS_HEADER_LEN + 4 {
            return Err(HandlerError::Parse("DCS file shorter than its header and CRC"));
        }
        let header = match DcsHeader::parse(data) {
            Ok(h) => h,
            Err(e) => return Err(e),
        };
        if !header.is_dcsh() {
            return Err(HandlerError::Parse("Expected DCSH payload type"));
        }
        let body = &data[DCS_HEADER_LEN..data.len()];
        let blocks = match DcsBlock::parse(body) {
            Ok(b) => b,
            Err(e) => return Err(e),
        };
        Ok((header, blocks))
    }
}

} // verus!
