//! The typed LRIT header records and the parser of a session's header area.
//!
//! Every record starts with a one-byte type and a big-endian two-byte length that counts
//! the whole record, those three bytes included. The primary header (type 0, 16 bytes)
//! comes first and gives the total length of all header records.
use vstd::prelude::*;
use crate::bytes::{
    be16, be32, be64, copy_range, read_i32_be, read_u16_be, read_u32_be, read_u64_be, trim,
    text_of, trimmed_text,
};

verus! {

/// The two's-complement value of a 32-bit pattern.
pub open spec fn as_i32(u: int) -> int {
    if u < 0x8000_0000 {
        u
    } else {
        u - 0x1_0000_0000
    }
}

/// Why the header area of a session could not be read.
#[derive(Clone, Copy, Debug, PartialEq, Eq)]
pub enum HeaderError {
    /// Fewer than 16 bytes: no primary header.
    MissingPrimary,
    /// The first record is not a primary header of type 0 and length 16.
    BadPrimary,
    /// A second primary header among the secondary records.
    RepeatedPrimary,
    /// A record of a type this library does not know.
    UnknownType(u8),
    /// A record that runs past the end of the buffer.
    Truncated,
    /// A record whose length field is below the three bytes of its own prefix.
    BadRecordLength,
    /// The total header length is beyond the end of the session buffer.
    ExceedsBuffer,
}

/// Primary header (type 0): file type and total header length.
#[derive(Clone, Copy, Debug)]
pub struct PrimaryHeader {
    /// Header type, always 0.
    pub header_type: u8,
    /// Length of this record, always 16.
    pub header_record_lenth: u16,
    /// File type code (0 image, 2 text, 130 DCS, ...).
    pub filetype_code: u8,
    /// Total length of all header records, this one included.
    pub total_header_length: u32,
    /// Length of the data field, in bits.
    pub data_field_bits: u64,
}

/// The primary header at the start of `d`, if `d` holds 16 bytes.
pub open spec fn spec_primary(d: Seq<u8>) -> Option<PrimaryHeader> {
    if d.len() < 16 {
        None
    } else {
        Some(
            PrimaryHeader {
                header_type: d[0],
                header_record_lenth: be16(d, 1) as u16,
                filetype_code: d[3],
                total_header_length: be32(d, 4) as u32,
                data_field_bits: be64(d, 8) as u64,
            },
        )
    }
}

impl PrimaryHeader {
    /// The record type code of a primary header.
    pub fn header_type() -> (r: u8)
        ensures
            r == 0,
    {
        0
    }

    /// Reads a primary header from the start of `data`.
    pub fn from_bytes(data: &[u8]) -> (r: Option<PrimaryHeader>)
        ensures
            r == spec_primary(data@),
    {
        if data.len() < 16 {
            return None;
        }
        Some(
            PrimaryHeader {
                header_type: data[0],
                header_record_lenth: read_u16_be(data, 1),
                filetype_code: data[3],
                total_header_length: read_u32_be(data, 4),
                data_field_bits: read_u64_be(data, 8),
            },
        )
    }
}

/// Image structure record (type 1, 9 bytes).
#[derive(Clone, Copy, Debug)]
pub struct ImageStructureRecord {
    pub header_type: u8,
    pub header_record_lenth: u16,
    pub bits_per_pixel: u8,
    pub num_columns: u16,
    pub num_lines: u16,
    pub compression: u8,
}

pub open spec fn spec_image_structure(d: Seq<u8>) -> Option<ImageStructureRecord> {
    if d.len() < 9 {
        None
    } else {
        Some(
            ImageStructureRecord {
                header_type: d[0],
                header_record_lenth: be16(d, 1) as u16,
                bits_per_pixel: d[3],
                num_columns: be16(d, 4) as u16,
                num_lines: be16(d, 6) as u16,
                compression: d[8],
            },
        )
    }
}

impl ImageStructureRecord {
    /// The record type code of an image structure record.
    pub fn header_type() -> (r: u8)
        ensures
            r == 1,
    {
        1
    }

    /// Reads an image structure record from the start of `data`.
    pub fn from_bytes(data: &[u8]) -> (r: Option<ImageStructureRecord>)
        ensures
            r == spec_image_structure(data@),
    {
        if data.len() < 9 {
            return None;
        }
        Some(
            ImageStructureRecord {
                header_type: data[0],
                header_record_lenth: read_u16_be(data, 1),
                bits_per_pixel: data[3],
                num_columns: read_u16_be(data, 4),
                num_lines: read_u16_be(data, 6),
                compression: data[8],
            },
        )
    }
}

/// Image navigation record (type 2, 51 bytes).
#[derive(Clone, Debug)]
pub struct ImageNavigationRecord {
    pub header_type: u8,
    pub header_record_lenth: u16,
    pub projection_name: String,
    pub column_scaling_factor: i32,
    pub line_scaling_factor: i32,
    pub column_offset: i32,
    pub line_offset: i32,
}

/// What an image navigation record holds.
pub struct NavigationModel {
    pub header_type: u8,
    pub header_record_lenth: u16,
    pub projection_name: Seq<char>,
    pub column_scaling_factor: i32,
    pub line_scaling_factor: i32,
    pub column_offset: i32,
    pub line_offset: i32,
}

impl View for ImageNavigationRecord {
    type V = NavigationModel;

    open spec fn view(&self) -> NavigationModel {
        NavigationModel {
            header_type: self.header_type,
            header_record_lenth: self.header_record_lenth,
            projection_name: self.projection_name@,
            column_scaling_factor: self.column_scaling_factor,
            line_scaling_factor: self.line_scaling_factor,
            column_offset: self.column_offset,
            line_offset: self.line_offset,
        }
    }
}

pub open spec fn spec_navigation(d: Seq<u8>) -> Option<NavigationModel> {
    if d.len() < 51 {
        None
    } else {
        Some(
            NavigationModel {
                header_type: d[0],
                header_record_lenth: be16(d, 1) as u16,
                projection_name: text_of(trim(d.subrange(3, 35))),
                column_scaling_factor: as_i32(be32(d, 35)) as i32,
                line_scaling_factor: as_i32(be32(d, 39)) as i32,
                column_offset: as_i32(be32(d, 43)) as i32,
                line_offset: as_i32(be32(d, 47)) as i32,
            },
        )
    }
}

impl ImageNavigationRecord {
    /// The record type code of an image navigation record.
    pub fn header_type() -> (r: u8)
        ensures
            r == 2,
    {
        2
    }

    /// Reads an image navigation record from the start of `data`.
    pub fn from_bytes(data: &[u8]) -> (r: Option<ImageNavigationRecord>)
        ensures
            r.is_some() == spec_navigation(data@).is_some(),
            r matches Some(h) ==> h@ == spec_navigation(data@).unwrap(),
    {
        if data.len() < 51 {
            return None;
        }
        Some(
            ImageNavigationRecord {
                header_type: data[0],
                header_record_lenth: read_u16_be(data, 1),
                projection_name: trimmed_text(data, 3, 35),
                column_scaling_factor: read_i32_be(data, 35),
                line_scaling_factor: read_i32_be(data, 39),
                column_offset: read_i32_be(data, 43),
                line_offset: read_i32_be(data, 47),
            },
        )
    }
}

/// What a record of free text holds (annotation, header structure, ancillary text).
pub struct TextModel {
    pub header_type: u8,
    pub header_record_lenth: u16,
    pub text: Seq<char>,
}

/// A record whose body, after the three-byte prefix, is text filling its declared length.
pub open spec fn spec_text_record(d: Seq<u8>) -> Option<TextModel> {
    if d.len() < 3 || be16(d, 1) < 3 || be16(d, 1) > d.len() {
        None
    } else {
        Some(
            TextModel {
                header_type: d[0],
                header_record_lenth: be16(d, 1) as u16,
                text: text_of(trim(d.subrange(3, be16(d, 1)))),
            },
        )
    }
}

/// Reads the three parts of a text record.
fn read_text_record(data: &[u8]) -> (r: Option<(u8, u16, String)>)
    ensures
        r.is_some() == spec_text_record(data@).is_some(),
        r matches Some(t) ==> (TextModel {
            header_type: t.0,
            header_record_lenth: t.1,
            text: t.2@,
        }) == spec_text_record(data@).unwrap(),
{
    if data.len() < 3 {
        return None;
    }
    let len = read_u16_be(data, 1);
    if len < 3 || len as usize > data.len() {
        return None;
    }
    Some((data[0], len, trimmed_text(data, 3, len as usize)))
}

/// Annotation record (type 4): the file's name.
#[derive(Clone, Debug)]
pub struct AnnotationRecord {
    pub header_type: u8,
    pub header_record_lenth: u16,
    pub text: String,
}

impl View for AnnotationRecord {
    type V = TextModel;

    open spec fn view(&self) -> TextModel {
        TextModel {
            header_type: self.header_type,
            header_record_lenth: self.header_record_lenth,
            text: self.text@,
        }
    }
}

impl AnnotationRecord {
    /// The record type code of an annotation record.
    pub fn header_type() -> (r: u8)
        ensures
            r == 4,
    {
        4
    }

    /// Reads an annotation record from the start of `data`.
    pub fn from_bytes(data: &[u8]) -> (r: Option<AnnotationRecord>)
        ensures
            r.is_some() == spec_text_record(data@).is_some(),
            r matches Some(h) ==> h@ == spec_text_record(data@).unwrap(),
    {
        match read_text_record(data) {
            Some((header_type, header_record_lenth, text)) => Some(
                AnnotationRecord { header_type, header_record_lenth, text },
            ),
            None => None,
        }
    }
}

/// Header structure record (type 130): free text.
#[derive(Clone, Debug)]
pub struct HeaderStructureRecord {
    pub header_type: u8,
    pub header_record_lenth: u16,
    pub text: String,
}

impl View for HeaderStructureRecord {
    type V = TextModel;

    open spec fn view(&self) -> TextModel {
        TextModel {
            header_type: self.header_type,
            header_record_lenth: self.header_record_lenth,
            text: self.text@,
        }
    }
}

impl HeaderStructureRecord {
    /// The record type code of a header structure record.
    pub fn header_type() -> (r: u8)
        ensures
            r == 130,
    {
        130
    }

    /// Reads a header structure record from the start of `data`.
    pub fn from_bytes(data: &[u8]) -> (r: Option<HeaderStructureRecord>)
        ensures
            r.is_some() == spec_text_record(data@).is_some(),
            r matches Some(h) ==> h@ == spec_text_record(data@).unwrap(),
    {
        match read_text_record(data) {
            Some((header_type, header_record_lenth, text)) => Some(
                HeaderStructureRecord { header_type, header_record_lenth, text },
            ),
            None => None,
        }
    }
}

/// Ancillary text record (type 6): `key=value;` pairs.
#[derive(Clone, Debug)]
pub struct AncillaryTextRecord {
    pub header_type: u8,
    pub header_record_lenth: u16,
    pub text: String,
}

impl View for AncillaryTextRecord {
    type V = TextModel;

    open spec fn view(&self) -> TextModel {
        TextModel {
            header_type: self.header_type,
            header_record_lenth: self.header_record_lenth,
            text: self.text@,
        }
    }
}

impl AncillaryTextRecord {
    /// The record type code of an ancillary text record.
    pub fn header_type() -> (r: u8)
        ensures
            r == 6,
    {
        6
    }

    /// Reads an ancillary text record from the start of `data`.
    pub fn from_bytes(data: &[u8]) -> (r: Option<AncillaryTextRecord>)
        ensures
            r.is_some() == spec_text_record(data@).is_some(),
            r matches Some(h) ==> h@ == spec_text_record(data@).unwrap(),
    {
        match read_text_record(data) {
            Some((header_type, header_record_lenth, text)) => Some(
                AncillaryTextRecord { header_type, header_record_lenth, text },
            ),
            None => None,
        }
    }
}

/// Image data function record (type 3): a lookup table of raw bytes.
#[derive(Clone, Debug)]
pub struct ImageDataFunctionRecord {
    pub header_type: u8,
    pub header_record_lenth: u16,
    pub data: Vec<u8>,
}

/// What an image data function record holds.
pub struct DataFunctionModel {
    pub header_type: u8,
    pub header_record_lenth: u16,
    pub data: Seq<u8>,
}

impl View for ImageDataFunctionRecord {
    type V = DataFunctionModel;

    open spec fn view(&self) -> DataFunctionModel {
        DataFunctionModel {
            header_type: self.header_type,
            header_record_lenth: self.header_record_lenth,
            data: self.data@,
        }
    }
}

pub open spec fn spec_data_function(d: Seq<u8>) -> Option<DataFunctionModel> {
    if d.len() < 3 || be16(d, 1) < 3 || be16(d, 1) > d.len() {
        None
    } else {
        Some(
            DataFunctionModel {
                header_type: d[0],
                header_record_lenth: be16(d, 1) as u16,
                data: d.subrange(3, be16(d, 1)),
            },
        )
    }
}

impl ImageDataFunctionRecord {
    /// The record type code of an image data function record.
    pub fn header_type() -> (r: u8)
        ensures
            r == 3,
    {
        3
    }

    /// Reads an image data function record from the start of `data`.
    pub fn from_bytes(data: &[u8]) -> (r: Option<ImageDataFunctionRecord>)
        ensures
            r.is_some() == spec_data_function(data@).is_some(),
            r matches Some(h) ==> h@ == spec_data_function(data@).unwrap(),
    {
        if data.len() < 3 {
            return None;
        }
        let len = read_u16_be(data, 1);
        if len < 3 || len as usize > data.len() {
            return None;
        }
        Some(
            ImageDataFunctionRecord {
                header_type: data[0],
                header_record_lenth: len,
                data: copy_range(data, 3, len as usize),
            },
        )
    }
}

/// Time stamp record (type 5, 10 bytes): a CCSDS day-segmented time.
#[derive(Clone, Copy, Debug)]
pub struct TimeStampRecord {
    pub header_type: u8,
    pub header_record_lenth: u16,
    /// The CCSDS preamble byte of the time code.
    pub time_code: u8,
    /// Days since 1 January 1958.
    pub days: u16,
    /// Milliseconds of that day.
    pub millis_of_day: u32,
}

pub open spec fn spec_time_stamp(d: Seq<u8>) -> Option<TimeStampRecord> {
    if d.len() < 10 {
        None
    } else {
        Some(
            TimeStampRecord {
                header_type: d[0],
                header_record_lenth: be16(d, 1) as u16,
                time_code: d[3],
                days: be16(d, 4) as u16,
                millis_of_day: be32(d, 6) as u32,
            },
        )
    }
}

impl TimeStampRecord {
    /// The record type code of a time stamp record.
    pub fn header_type() -> (r: u8)
        ensures
            r == 5,
    {
        5
    }

    /// Reads a time stamp record from the start of `data`.
    pub fn from_bytes(data: &[u8]) -> (r: Option<TimeStampRecord>)
        ensures
            r == spec_time_stamp(data@),
    {
        if data.len() < 10 {
            return None;
        }
        Some(
            TimeStampRecord {
                header_type: data[0],
                header_record_lenth: read_u16_be(data, 1),
                time_code: data[3],
                days: read_u16_be(data, 4),
                millis_of_day: read_u32_be(data, 6),
            },
        )
    }
}

/// Image segment identification record (type 128, 17 bytes).
#[derive(Clone, Copy, Debug)]
pub struct ImageSegmentIdentificationRecord {
    pub header_type: u8,
    pub header_record_lenth: u16,
    pub image_id: u16,
    pub segment_seq: u16,
    pub start_col: u16,
    pub start_line: u16,
    pub max_segment: u16,
    pub max_column: u16,
    pub max_row: u16,
}

pub open spec fn spec_segment(d: Seq<u8>) -> Option<ImageSegmentIdentificationRecord> {
    if d.len() < 17 {
        None
    } else {
        Some(
            ImageSegmentIdentificationRecord {
                header_type: d[0],
                header_record_lenth: be16(d, 1) as u16,
                image_id: be16(d, 3) as u16,
                segment_seq: be16(d, 5) as u16,
                start_col: be16(d, 7) as u16,
                start_line: be16(d, 9) as u16,
                max_segment: be16(d, 11) as u16,
                max_column: be16(d, 13) as u16,
                max_row: be16(d, 15) as u16,
            },
        )
    }
}

impl ImageSegmentIdentificationRecord {
    /// The record type code of an image segment identification record.
    pub fn header_type() -> (r: u8)
        ensures
            r == 128,
    {
        128
    }

    /// Reads an image segment identification record from the start of `data`.
    pub fn from_bytes(data: &[u8]) -> (r: Option<ImageSegmentIdentificationRecord>)
        ensures
            r == spec_segment(data@),
    {
        if data.len() < 17 {
            return None;
        }
        Some(
            ImageSegmentIdentificationRecord {
                header_type: data[0],
                header_record_lenth: read_u16_be(data, 1),
                image_id: read_u16_be(data, 3),
                segment_seq: read_u16_be(data, 5),
                start_col: read_u16_be(data, 7),
                start_line: read_u16_be(data, 9),
                max_segment: read_u16_be(data, 11),
                max_column: read_u16_be(data, 13),
                max_row: read_u16_be(data, 15),
            },
        )
    }
}

/// NOAA-specific record (type 129, 14 bytes); the four-byte agency signature is skipped.
#[derive(Clone, Copy, Debug)]
pub struct NOAALRITHeader {
    pub header_type: u8,
    pub header_record_lenth: u16,
    pub product_id: u16,
    pub product_subid: u16,
    pub parameter: u16,
    pub noaa_compression: u8,
}

pub open spec fn spec_noaa(d: Seq<u8>) -> Option<NOAALRITHeader> {
    if d.len() < 14 {
        None
    } else {
        Some(
            NOAALRITHeader {
                header_type: d[0],
                header_record_lenth: be16(d, 1) as u16,
                product_id: be16(d, 7) as u16,
                product_subid: be16(d, 9) as u16,
                parameter: be16(d, 11) as u16,
                noaa_compression: d[13],
            },
        )
    }
}

impl NOAALRITHeader {
    /// The record type code of a NOAA-specific record.
    pub fn header_type() -> (r: u8)
        ensures
            r == 129,
    {
        129
    }

    /// Reads a NOAA-specific record from the start of `data`.
    pub fn from_bytes(data: &[u8]) -> (r: Option<NOAALRITHeader>)
        ensures
            r == spec_noaa(data@),
    {
        if data.len() < 14 {
            return None;
        }
        Some(
            NOAALRITHeader {
                header_type: data[0],
                header_record_lenth: read_u16_be(data, 1),
                product_id: read_u16_be(data, 7),
                product_subid: read_u16_be(data, 9),
                parameter: read_u16_be(data, 11),
                noaa_compression: data[13],
            },
        )
    }
}

/// Rice compression record (type 131, 7 bytes).
#[derive(Clone, Copy, Debug)]
pub struct RiceCompressionSecondaryHeader {
    pub header_type: u8,
    pub header_record_lenth: u16,
    pub flags: u16,
    pub pixels_per_block: u8,
    pub scanlines_per_packet: u8,
}

pub open spec fn spec_rice(d: Seq<u8>) -> Option<RiceCompressionSecondaryHeader> {
    if d.len() < 7 {
        None
    } else {
        Some(
            RiceCompressionSecondaryHeader {
                header_type: d[0],
                header_record_lenth: be16(d, 1) as u16,
                flags: be16(d, 3) as u16,
                pixels_per_block: d[5],
                scanlines_per_packet: d[6],
            },
        )
    }
}

impl RiceCompressionSecondaryHeader {
    /// The record type code of a rice compression record.
    pub fn header_type() -> (r: u8)
        ensures
            r == 131,
    {
        131
    }

    /// Reads a rice compression record from the start of `data`.
    pub fn from_bytes(data: &[u8]) -> (r: Option<RiceCompressionSecondaryHeader>)
        ensures
            r == spec_rice(data@),
    {
        if data.len() < 7 {
            return None;
        }
        Some(
            RiceCompressionSecondaryHeader {
                header_type: data[0],
                header_record_lenth: read_u16_be(data, 1),
                flags: read_u16_be(data, 3),
                pixels_per_block: data[5],
                scanlines_per_packet: data[6],
            },
        )
    }
}

/// All header records of one LRIT file: the primary and, for each other type, the last
/// record of that type, if any.
#[derive(Clone, Debug)]
pub struct Headers {
    pub primary: PrimaryHeader,
    pub img_strucutre: Option<ImageStructureRecord>,
    pub img_navigation: Option<ImageNavigationRecord>,
    pub img_data: Option<ImageDataFunctionRecord>,
    pub img_segment: Option<ImageSegmentIdentificationRecord>,
    pub annotation: Option<AnnotationRecord>,
    pub noaa: Option<NOAALRITHeader>,
    pub header: Option<HeaderStructureRecord>,
    pub timestamp: Option<TimeStampRecord>,
    pub text: Option<AncillaryTextRecord>,
    pub rice_compression: Option<RiceCompressionSecondaryHeader>,
}

/// What a set of header records holds.
pub struct HeadersModel {
    pub primary: PrimaryHeader,
    pub img_strucutre: Option<ImageStructureRecord>,
    pub img_navigation: Option<NavigationModel>,
    pub img_data: Option<DataFunctionModel>,
    pub img_segment: Option<ImageSegmentIdentificationRecord>,
    pub annotation: Option<TextModel>,
    pub noaa: Option<NOAALRITHeader>,
    pub header: Option<TextModel>,
    pub timestamp: Option<TimeStampRecord>,
    pub text: Option<TextModel>,
    pub rice_compression: Option<RiceCompressionSecondaryHeader>,
}

/// The model of an optional record.
pub open spec fn opt_view<T: View>(o: Option<T>) -> Option<T::V> {
    match o {
        Some(x) => Some(x@),
        None => None,
    }
}

impl View for Headers {
    type V = HeadersModel;

    open spec fn view(&self) -> HeadersModel {
        HeadersModel {
            primary: self.primary,
            img_strucutre: self.img_strucutre,
            img_navigation: opt_view(self.img_navigation),
            img_data: opt_view(self.img_data),
            img_segment: self.img_segment,
            annotation: opt_view(self.annotation),
            noaa: self.noaa,
            header: opt_view(self.header),
            timestamp: self.timestamp,
            text: opt_view(self.text),
            rice_compression: self.rice_compression,
        }
    }
}

/// A primary header and no other record.
pub open spec fn only_primary(p: PrimaryHeader) -> HeadersModel {
    HeadersModel {
        primary: p,
        img_strucutre: None,
        img_navigation: None,
        img_data: None,
        img_segment: None,
        annotation: None,
        noaa: None,
        header: None,
        timestamp: None,
        text: None,
        rice_compression: None,
    }
}

/// `m` with the record at the start of `d` added (replacing one of the same type).
pub open spec fn apply_record(d: Seq<u8>, m: HeadersModel) -> Result<HeadersModel, HeaderError> {
    let t = d[0];
    if t == 0 {
        Err(HeaderError::RepeatedPrimary)
    } else if t == 1 {
        match spec_image_structure(d) {
            Some(r) => Ok(HeadersModel { img_strucutre: Some(r), ..m }),
            None => Err(HeaderError::Truncated),
        }
    } else if t == 2 {
        match spec_navigation(d) {
            Some(r) => Ok(HeadersModel { img_navigation: Some(r), ..m }),
            None => Err(HeaderError::Truncated),
        }
    } else if t == 3 {
        match spec_data_function(d) {
            Some(r) => Ok(HeadersModel { img_data: Some(r), ..m }),
            None => Err(HeaderError::Truncated),
        }
    } else if t == 4 {
        match spec_text_record(d) {
            Some(r) => Ok(HeadersModel { annotation: Some(r), ..m }),
            None => Err(HeaderError::Truncated),
        }
    } else if t == 5 {
        match spec_time_stamp(d) {
            Some(r) => Ok(HeadersModel { timestamp: Some(r), ..m }),
            None => Err(HeaderError::Truncated),
        }
    } else if t == 6 {
        match spec_text_record(d) {
            Some(r) => Ok(HeadersModel { text: Some(r), ..m }),
            None => Err(HeaderError::Truncated),
        }
    } else if t == 128 {
        match spec_segment(d) {
            Some(r) => Ok(HeadersModel { img_segment: Some(r), ..m }),
            None => Err(HeaderError::Truncated),
        }
    } else if t == 129 {
        match spec_noaa(d) {
            Some(r) => Ok(HeadersModel { noaa: Some(r), ..m }),
            None => Err(HeaderError::Truncated),
        }
    } else if t == 130 {
        match spec_text_record(d) {
            Some(r) => Ok(HeadersModel { header: Some(r), ..m }),
            None => Err(HeaderError::Truncated),
        }
    } else if t == 131 {
        match spec_rice(d) {
            Some(r) => Ok(HeadersModel { rice_compression: Some(r), ..m }),
            None => Err(HeaderError::Truncated),
        }
    } else {
        Err(HeaderError::UnknownType(t))
    }
}

/// The records from offset `off` up to offset `end` of `data`, added to `m` in order.
pub open spec fn parse_records(data: Seq<u8>, off: int, end: int, m: HeadersModel) -> Result<
    HeadersModel,
    HeaderError,
>
    decreases end - off,
{
    if off >= end {
        Ok(m)
    } else if off < 0 || off + 3 > data.len() {
        Err(HeaderError::Truncated)
    } else {
        let len = be16(data, off + 1);
        if len < 3 {
            Err(HeaderError::BadRecordLength)
        } else {
            match apply_record(data.subrange(off, data.len() as int), m) {
                Ok(m2) => if off + len >= end {
                    Ok(m2)
                } else {
                    parse_records(data, off + len, end, m2)
                },
                Err(e) => Err(e),
            }
        }
    }
}

/// The header records at the start of `data`: a primary header of type 0 and length 16,
/// then records up to the total header length that it gives, which must lie within `data`.
pub open spec fn parse_headers(data: Seq<u8>) -> Result<HeadersModel, HeaderError> {
    match spec_primary(data) {
        None => Err(HeaderError::MissingPrimary),
        Some(p) => if p.header_type != 0 || p.header_record_lenth != 16 {
            Err(HeaderError::BadPrimary)
        } else if p.total_header_length > data.len() {
            Err(HeaderError::ExceedsBuffer)
        } else {
            parse_records(data, 16, p.total_header_length as int, only_primary(p))
        },
    }
}

impl Headers {
    /// A header set with the given primary header and no other record.
    pub fn new(primary: PrimaryHeader) -> (r: Headers)
        ensures
            r@ == only_primary(primary),
    {
        Headers {
            primary,
            img_strucutre: None,
            img_navigation: None,
            img_data: None,
            img_segment: None,
            annotation: None,
            noaa: None,
            header: None,
            timestamp: None,
            text: None,
            rice_compression: None,
        }
    }
}

/// Adds the record at the start of `d` to `h`.
fn add_record(d: &[u8], h: &mut Headers) -> (r: Result<(), HeaderError>)
    requires
        d@.len() >= 1,
    ensures
        match apply_record(d@, old(h)@) {
            Ok(m) => r is Ok && final(h)@ == m,
            Err(e) => r == Err::<(), HeaderError>(e),
        },
{
    let t = d[0];
    if t == 0 {
        Err(HeaderError::RepeatedPrimary)
    } else if t == 1 {
        match ImageStructureRecord::from_bytes(d) {
            Some(r) => {
                h.img_strucutre = Some(r);
                Ok(())
            },
            None => Err(HeaderError::Truncated),
        }
    } else if t == 2 {
        match ImageNavigationRecord::from_bytes(d) {
            Some(r) => {
                h.img_navigation = Some(r);
                Ok(())
            },
            None => Err(HeaderError::Truncated),
        }
    } else if t == 3 {
        match ImageDataFunctionRecord::from_bytes(d) {
            Some(r) => {
                h.img_data = Some(r);
                Ok(())
            },
            None => Err(HeaderError::Truncated),
        }
    } else if t == 4 {
        match AnnotationRecord::from_bytes(d) {
            Some(r) => {
                h.annotation = Some(r);
                Ok(())
            },
            None => Err(HeaderError::Truncated),
        }
    } else if t == 5 {
        match TimeStampRecord::from_bytes(d) {
            Some(r) => {
                h.timestamp = Some(r);
                Ok(())
            },
            None => Err(HeaderError::Truncated),
        }
    } else if t == 6 {
        match AncillaryTextRecord::from_bytes(d) {
            Some(r) => {
                h.text = Some(r);
                Ok(())
            },
            None => Err(HeaderError::Truncated),
        }
    } else if t == 128 {
        match ImageSegmentIdentificationRecord::from_bytes(d) {
            Some(r) => {
                h.img_segment = Some(r);
                Ok(())
            },
            None => Err(HeaderError::Truncated),
        }
    } else if t == 129 {
        match NOAALRITHeader::from_bytes(d) {
            Some(r) => {
                h.noaa = Some(r);
                Ok(())
            },
            None => Err(HeaderError::Truncated),
        }
    } else if t == 130 {
        match HeaderStructureRecord::from_bytes(d) {
            Some(r) => {
                h.header = Some(r);
                Ok(())
            },
            None => Err(HeaderError::Truncated),
        }
    } else if t == 131 {
        match RiceCompressionSecondaryHeader::from_bytes(d) {
            Some(r) => {
                h.rice_compression = Some(r);
                Ok(())
            },
            None => Err(HeaderError::Truncated),
        }
    } else {
        Err(HeaderError::UnknownType(t))
    }
}

/// Reads the header records at the start of a session buffer.
pub fn read_headers(data: &[u8]) -> (r: Result<Headers, HeaderError>)
    ensures
        match parse_headers(data@) {
            Ok(m) => r is Ok && r.unwrap()@ == m,
            Err(e) => r == Err::<Headers, HeaderError>(e),
        },
{
    let prim = match PrimaryHeader::from_bytes(data) {
        Some(p) => p,
        None => return Err(HeaderError::MissingPrimary),
    };
    if prim.header_type != 0 || prim.header_record_lenth != 16 {
        return Err(HeaderError::BadPrimary);
    }
    if prim.total_header_length as u64 > data.len() as u64 {
        return Err(HeaderError::ExceedsBuffer);
    }
    let end = prim.total_header_length as usize;
    let mut headers = Headers::new(prim);
    let mut offset: usize = 16;
    while offset < end
        invariant
            spec_primary(data@) == Some(prim),
            end == prim.total_header_length,
            parse_headers(data@) == parse_records(data@, offset as int, end as int, headers@),
        decreases end - offset,
    {
        if data.len() < 3 || offset > data.len() - 3 {
            return Err(HeaderError::Truncated);
        }
        let len = read_u16_be(data, offset + 1);
        if len < 3 {
            return Err(HeaderError::BadRecordLength);
        }
        let rest = &data[offset..data.len()];
        match add_record(rest, &mut headers) {
            Ok(()) => {},
            Err(e) => return Err(e),
        }
        match offset.checked_add(len as usize) {
            Some(next) => {
                if next >= end {
                    return Ok(headers);
                }
                offset = next;
            },
            None => return Ok(headers),
        }
    }
    Ok(headers)
}

} // verus!
