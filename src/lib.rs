//! Host-side client core for a serial firmware-management protocol:
//! request sequencing, frame encoding and decoding, and the decisions of a
//! chunked, resumable image upload.

pub mod config;
mod external;
pub mod frame;
pub mod header;
pub mod sequence;
pub mod upload;

pub use config::Cli;
pub use frame::{decode_frame, decode_response, encode_request, FrameError};
pub use header::{NmpGroup, NmpHdr, NmpIdImage, NmpOp};
pub use sequence::{next_seq_id, SeqCounter};
pub use upload::{check_response, ImageUploadReq, Progress, UploadError, UploadSession};
