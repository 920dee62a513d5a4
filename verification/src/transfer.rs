//! The transfer engine's configuration and its compute half.
//!
//! The engine binds one secure listening endpoint on the configured port
//! with a freshly generated self-signed certificate (opportunistic
//! encryption on a trusted LAN, not peer authentication), accepts an
//! unbounded number of concurrent inbound connections, and sends files out.
//! All of that I/O lives outside the library; what stands here is the state
//! the engine is configured with and the decisions made per received stream.

use vstd::prelude::*;
use crate::discovery::Addr;
use crate::receive::{receive_file, ReceiveResult};

verus! {

/// The default listening port of the transfer engine.
pub const DEFAULT_TRANSFER_PORT: u16 = 5000;

/// Configuration of the transfer engine: where received files are stored.
/// The surrounding runtime owns the listening endpoint, creates the download
/// directory at construction (failing construction when it cannot), and
/// drives one `receive` per accepted stream.
pub struct TransferManager {
    download_dir: String,
}

impl TransferManager {
    pub closed spec fn spec_download_dir(&self) -> Seq<char> {
        self.download_dir@
    }

    pub fn new(download_dir: String) -> (m: TransferManager)
        ensures
            m.spec_download_dir() == download_dir@,
    {
        TransferManager { download_dir }
    }

    pub fn download_dir(&self) -> (r: &String)
        ensures
            r@ == self.spec_download_dir(),
    {
        &self.download_dir
    }

    /// Interprets one complete inbound stream: decodes the header, picks the
    /// safe, collision-free stored name under the download directory, and
    /// hands back the content bytes to be written there.
    pub fn receive(&self, data: &Vec<u8>, existing: &Vec<String>, sender: &Addr) -> (r: Result<
        (ReceiveResult, Vec<u8>),
        String,
    >)
        requires
            existing@.len() < u64::MAX,
        ensures
            r is Ok <==> crate::protocol::transfer_wf(data@),
            r matches Ok((res, content)) ==> {
                let hb = crate::protocol::transfer_header_bytes(data@);
                &&& res.file_name@ == crate::protocol::header_name(hb)
                &&& content@ == crate::protocol::transfer_content(data@)
                &&& res.file_size == crate::protocol::transfer_content(data@).len()
                &&& res.sender_addr.ip@ == sender.ip@
                &&& res.sender_addr.port == sender.port
                &&& exists|stored: Seq<char>|
                    {
                        &&& #[trigger] crate::receive::valid_resolution(
                            stored,
                            crate::receive::sanitize_spec(crate::protocol::header_name(hb)),
                            existing@,
                        )
                        &&& res.file_path@ == self.spec_download_dir() + "/"@ + stored
                        &&& forall|i: int|
                            0 <= i < stored.len() ==> !crate::receive::is_reserved(
                                #[trigger] stored[i],
                            )
                        &&& stored.len() > 0 ==> stored[0] != '.'
                    }
            },
    {
        receive_file(data, existing, self.download_dir.as_str(), sender)
    }
}

} // verus!
