//! The per-connection state machine. A connection's owner performs one read
//! at a time and hands the outcome to [`Connection::on_read`], which updates
//! the accumulated buffer, decodes, encodes, and says what the owner must do
//! next: write a response and keep reading, or close.

use crate::codec::{
    decoded_route, encoded_response, first_line_len, index_body, DecodeError, HttpMethod, SRVR,
};
use vstd::prelude::*;

verus! {

/// What one read from the peer produced.
pub enum ReadEvent {
    /// Zero bytes were read: the peer closed the connection.
    Closed,
    /// One or more bytes arrived.
    Data(Vec<u8>),
    /// The read itself failed.
    Failed,
}

/// What the connection's owner must do after one read has been handled.
pub enum Action {
    /// Close the connection and report success: the peer hung up.
    CloseOk,
    /// Close the connection and report a read failure.
    CloseReadError,
    /// Close the connection and report a decode failure. No response is sent
    /// to the peer; the connection is simply dropped.
    CloseDecodeError,
    /// Write this response back to the peer, then keep reading. A failed
    /// write is reported but must not close the connection.
    Respond(String),
}

/// The characters that lossy UTF-8 decoding turns `b` into.
pub uninterp spec fn lossy_utf8(b: Seq<u8>) -> Seq<char>;

/// Relies on `String::from_utf8_lossy`: the characters depend on the bytes
/// alone, and bytes that are valid UTF-8 decode to exactly the text whose
/// encoding they are.
#[verifier::external_body]
fn bytes_to_text(b: &[u8]) -> (r: String)
    ensures
        r@ == lossy_utf8(b@),
        vstd::utf8::valid_utf8(b@) ==> vstd::utf8::encode_utf8(r@) == b@,
{
    String::from_utf8_lossy(b).into_owned()
}

/// One accepted connection's decode state: the text accumulated from every
/// read so far. The buffer only grows; decoded text is never consumed, so
/// each response reflects everything read up to that point.
pub struct Connection {
    /// Everything read on this connection, lossily decoded, in arrival order.
    pub message: String,
}

impl Connection {
    /// A fresh connection with nothing read yet.
    pub fn new() -> (c: Connection)
        ensures
            c.message@ == Seq::<char>::empty(),
    {
        Connection { message: String::new() }
    }

    /// Handles the outcome of one read. A closed peer or a failed read
    /// closes the connection and leaves the buffer untouched. Arrived bytes
    /// are appended to the buffer; the whole buffer is then decoded, and
    /// either a response over the decoded route is owed to the peer, or —
    /// when the buffer's first line is empty — the connection is closed with
    /// a decode failure.
    pub fn on_read(&mut self, event: ReadEvent, index_file: &Option<String>) -> (a: Action)
        ensures
            event matches ReadEvent::Closed ==> a matches Action::CloseOk && final (self).message@
                == old(self).message@,
            event matches ReadEvent::Failed ==> a matches Action::CloseReadError
                && final (self).message@ == old(self).message@,
            event matches ReadEvent::Data(b) ==> final (self).message@ == old(self).message@
                + lossy_utf8(b@) && (if first_line_len(final (self).message@) == 0 {
                a matches Action::CloseDecodeError
            } else {
                a matches Action::Respond(s) && exists|d: Seq<char>|
                    s@ == encoded_response(
                        decoded_route(final (self).message@),
                        d,
                        index_body(*index_file),
                    )
            }),
    {
        match event {
            ReadEvent::Closed => Action::CloseOk,
            ReadEvent::Failed => Action::CloseReadError,
            ReadEvent::Data(bytes) => {
                let chunk = bytes_to_text(bytes.as_slice());
                self.message.append(chunk.as_str());
                match SRVR::decode_message(&self.message) {
                    Ok(request) => Action::Respond(SRVR::encode_message(request, index_file)),
                    Err(DecodeError::MissingRequestLine) => Action::CloseDecodeError,
                }
            },
        }
    }
}

} // verus!
