use vstd::prelude::*;
use vstd::string::StringSliceAdditionalSpecFns;

verus! {

/// Largest handshake response header accepted, in bytes.
pub const MAX_HANDSHAKE_BYTES: usize = 8192;

/// Age after which a connection is rotated: 23 h 50 min, in seconds.
pub const ROTATE_AFTER_SECS: u64 = 23 * 3600 + 50 * 60;

/// `needle` occurs in `h` at offset `i`.
pub open spec fn occurs_at(h: Seq<u8>, needle: Seq<u8>, i: int) -> bool {
    0 <= i && i + needle.len() <= h.len() && h.subrange(i, i + needle.len()) == needle
}

pub open spec fn occurs_in(h: Seq<u8>, needle: Seq<u8>) -> bool {
    exists|i: int| occurs_at(h, needle, i)
}

pub open spec fn starts_with(h: Seq<u8>, prefix: Seq<u8>) -> bool {
    occurs_at(h, prefix, 0)
}

/// The blank line that ends an HTTP header.
pub open spec fn header_end() -> Seq<u8> {
    "\r\n\r\n".spec_bytes()
}

/// The status line prefix of a successful websocket upgrade.
pub open spec fn switching_protocols() -> Seq<u8> {
    "HTTP/1.1 101".spec_bytes()
}

/// Outcome of feeding one read into the handshake header.
#[derive(Debug, Clone, Copy, PartialEq, Eq, Structural)]
pub enum HandshakeStep {
    /// The header is not complete yet: read more.
    NeedMore,
    /// The header is complete and the server switched protocols.
    Upgraded,
    /// The header is complete and the server refused the upgrade.
    Rejected,
    /// No blank line within `MAX_HANDSHAKE_BYTES` bytes.
    TooLarge,
    /// The peer closed the connection during the handshake.
    Eof,
}

/// Where a handshake stands once header bytes `h` have arrived.
pub open spec fn handshake_state(h: Seq<u8>) -> HandshakeStep {
    if occurs_in(h, header_end()) {
        if starts_with(h, switching_protocols()) {
            HandshakeStep::Upgraded
        } else {
            HandshakeStep::Rejected
        }
    } else if h.len() > MAX_HANDSHAKE_BYTES {
        HandshakeStep::TooLarge
    } else {
        HandshakeStep::NeedMore
    }
}

/// The websocket upgrade request for `path` on `host`.
pub open spec fn upgrade_request_bytes(host: Seq<u8>, path: Seq<u8>) -> Seq<u8> {
    "GET ".spec_bytes() + path + " HTTP/1.1\r\nHost: ".spec_bytes() + host
        + "\r\nUpgrade: websocket\r\nConnection: Upgrade\r\nSec-WebSocket-Key: dGhlIHNhbXBsZSBub25jZQ==\r\nSec-WebSocket-Version: 13\r\n\r\n".spec_bytes()
}

/// The HTTP request that asks `host` to upgrade `path` to a websocket.
pub fn upgrade_request(host: &str, path: &str) -> (r: Vec<u8>)
    ensures
        r@ == upgrade_request_bytes(host.spec_bytes(), path.spec_bytes()),
{
    let mut out: Vec<u8> = Vec::new();
    out.extend_from_slice("GET ".as_bytes());
    out.extend_from_slice(path.as_bytes());
    out.extend_from_slice(" HTTP/1.1\r\nHost: ".as_bytes());
    out.extend_from_slice(host.as_bytes());
    out.extend_from_slice(
        "\r\nUpgrade: websocket\r\nConnection: Upgrade\r\nSec-WebSocket-Key: dGhlIHNhbXBsZSBub25jZQ==\r\nSec-WebSocket-Version: 13\r\n\r\n".as_bytes(),
    );
    out
}

fn bytes_at(h: &Vec<u8>, needle: &[u8], i: usize) -> (r: bool)
    requires
        i + needle@.len() <= h@.len(),
        h@.len() <= usize::MAX,
    ensures
        r == occurs_at(h@, needle@, i as int),
{
    let mut j: usize = 0;
    while j < needle.len()
        invariant
            i + needle@.len() <= h@.len(),
            h@.len() <= usize::MAX,
            j <= needle@.len(),
            forall|t: int| 0 <= t < j ==> h@[i + t] == needle@[t],
        decreases needle@.len() - j,
    {
        if h[i + j] != needle[j] {
            assert(h@.subrange(i as int, i + needle@.len())[j as int] != needle@[j as int]);
            return false;
        }
        j += 1;
    }
    assert(h@.subrange(i as int, i + needle@.len()) =~= needle@);
    true
}

fn find_bytes(h: &Vec<u8>, needle: &[u8]) -> (r: bool)
    ensures
        r == occurs_in(h@, needle@),
{
    let n = h.len();
    if needle.len() == 0 {
        assert(h@.subrange(0, 0) =~= needle@);
        assert(occurs_at(h@, needle@, 0));
        return true;
    }
    if needle.len() > n {
        return false;
    }
    let last = n - needle.len();
    let mut i: usize = 0;
    while i <= last
        invariant
            last + needle@.len() == h@.len(),
            h@.len() == n,
            needle@.len() > 0,
            i <= last + 1,
            forall|t: int| 0 <= t < i ==> !occurs_at(h@, needle@, t),
        decreases last + 1 - i,
    {
        if bytes_at(h, needle, i) {
            return true;
        }
        i += 1;
    }
    false
}

/// Feeds one read of `chunk` into the handshake header `hdr`. An empty read
/// means the peer closed the connection. Otherwise the bytes are appended and
/// the header is classified: complete (a blank line has arrived) and
/// starting with `HTTP/1.1 101`, complete but refused, too large, or still
/// incomplete.
pub fn handshake_on_read(hdr: &mut Vec<u8>, chunk: &[u8]) -> (step: HandshakeStep)
    ensures
        chunk@.len() == 0 ==> step == HandshakeStep::Eof && final(hdr)@ == old(hdr)@,
        chunk@.len() > 0 ==> final(hdr)@ == old(hdr)@ + chunk@ && step == handshake_state(
            final(hdr)@,
        ),
{
    if chunk.len() == 0 {
        return HandshakeStep::Eof;
    }
    hdr.extend_from_slice(chunk);
    if find_bytes(hdr, "\r\n\r\n".as_bytes()) {
        let status = "HTTP/1.1 101".as_bytes();
        let n = hdr.len();
        if status.len() <= n && bytes_at(hdr, status, 0) {
            HandshakeStep::Upgraded
        } else {
            HandshakeStep::Rejected
        }
    } else if hdr.len() > MAX_HANDSHAKE_BYTES {
        HandshakeStep::TooLarge
    } else {
        HandshakeStep::NeedMore
    }
}

/// Once the bytes of the blank line `\r\n\r\n` have arrived anywhere in the
/// header, the handshake is decided: upgraded exactly when the header starts
/// with `HTTP/1.1 101`, rejected otherwise. Before that it is too large once
/// it passes `MAX_HANDSHAKE_BYTES` bytes, and waits for more bytes until then.
pub proof fn law_handshake_decided_by_blank_line(h: Seq<u8>)
    ensures
        (exists|i: int|
            0 <= i && i + "\r\n\r\n".spec_bytes().len() <= h.len() && #[trigger] h.subrange(
                i,
                i + "\r\n\r\n".spec_bytes().len(),
            ) == "\r\n\r\n".spec_bytes()) ==> {
            &&& handshake_state(h) == HandshakeStep::Upgraded || handshake_state(h)
                == HandshakeStep::Rejected
            &&& handshake_state(h) == HandshakeStep::Upgraded <==> ("HTTP/1.1 101".spec_bytes().len()
                <= h.len() && h.subrange(0, "HTTP/1.1 101".spec_bytes().len() as int)
                == "HTTP/1.1 101".spec_bytes())
        },
        !(exists|i: int|
            0 <= i && i + "\r\n\r\n".spec_bytes().len() <= h.len() && #[trigger] h.subrange(
                i,
                i + "\r\n\r\n".spec_bytes().len(),
            ) == "\r\n\r\n".spec_bytes()) ==> {
            &&& handshake_state(h) == HandshakeStep::TooLarge <==> h.len() > MAX_HANDSHAKE_BYTES
            &&& handshake_state(h) == HandshakeStep::NeedMore <==> h.len() <= MAX_HANDSHAKE_BYTES
        },
{
    let e = "\r\n\r\n".spec_bytes();
    if exists|i: int|
        0 <= i && i + e.len() <= h.len() && #[trigger] h.subrange(i, i + e.len()) == e {
        let i = choose|i: int|
            0 <= i && i + e.len() <= h.len() && #[trigger] h.subrange(i, i + e.len()) == e;
        assert(occurs_at(h, e, i));
    } else {
        if occurs_in(h, e) {
            let i = choose|i: int| occurs_at(h, e, i);
            assert(h.subrange(i, i + e.len()) == e);
        }
    }
}

/// Appends the bytes of one non-blocking read to the frame buffer; an empty
/// read means the peer closed, and reading stops.
pub fn append_read(buf: &mut Vec<u8>, chunk: &[u8]) -> (keep_reading: bool)
    ensures
        keep_reading == (chunk@.len() > 0),
        final(buf)@ == old(buf)@ + chunk@,
{
    if chunk.len() == 0 {
        assert(old(buf)@ + chunk@ =~= old(buf)@);
        return false;
    }
    buf.extend_from_slice(chunk);
    true
}

/// A connection is rotated once its age, `age_secs` seconds plus
/// `age_nanos` nanoseconds, exceeds 23 h 50 min.
pub fn rotation_due(age_secs: u64, age_nanos: u32) -> (r: bool)
    ensures
        r == (age_secs > ROTATE_AFTER_SECS || (age_secs == ROTATE_AFTER_SECS && age_nanos > 0)),
{
    age_secs > ROTATE_AFTER_SECS || (age_secs == ROTATE_AFTER_SECS && age_nanos > 0)
}

} // verus!
