//! The LRIT data path under one name: frames, transport packets, sessions, header records
//! and the per-channel reassembly.
pub use crate::channel::{Demultiplexer, VirtualChannel};
pub use crate::headers::{
    read_headers, AncillaryTextRecord, AnnotationRecord, HeaderError, HeaderStructureRecord,
    Headers, ImageDataFunctionRecord, ImageNavigationRecord, ImageSegmentIdentificationRecord,
    ImageStructureRecord, NOAALRITHeader, PrimaryHeader, RiceCompressionSecondaryHeader,
    TimeStampRecord,
};
pub use crate::packet::{TP_PDU, VCDU};
pub use crate::session::{
    AppendOutcome, Decompression, RiceParams, ScanlineDecoder, Session, LRIT,
};
