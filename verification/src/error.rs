//! What can go wrong in a session with a worker.
use vstd::prelude::*;
use vstd::utf8::{decode_utf8, pop_first_scalar, valid_utf8};
use crate::frame::string_from_utf8;
use crate::tags::Tag;
use crate::text::{decimal, decimal_of, with};

verus! {

/// What the worker reports of itself in the transport handshake.
#[derive(Debug, Clone, PartialEq, Eq)]
pub struct PeerInfo {
    pub transport_version: u32,
    pub vocab_version: u32,
    /// For instance `foo_dsp_host-worker 0.1.0 (64-bit)`.
    pub ident: String,
}

/// The values in a [`PeerInfo`].
pub struct PeerView {
    pub transport_version: u32,
    pub vocab_version: u32,
    pub ident: Seq<char>,
}

impl View for PeerInfo {
    type V = PeerView;

    open spec fn view(&self) -> PeerView {
        PeerView {
            transport_version: self.transport_version,
            vocab_version: self.vocab_version,
            ident: self.ident@,
        }
    }
}

/// Why a request got no result.
#[derive(Debug, Clone, PartialEq, Eq)]
pub enum Error {
    /// The worker answered `ERR ` with this message; it stays alive.
    Remote(String),
    /// The worker answered with another tag than the request calls for.
    UnexpectedReply { expected: Tag, got: Tag },
    /// A string in the answer is not UTF-8.
    InvalidUtf8,
    /// A string or a blob of the request is too long for its length field.
    TooLong,
    /// The versions differ: what this side speaks, and what the worker reported.
    Handshake { transport_version: u32, vocab_version: u32, peer: PeerInfo },
    /// The handshake itself failed, for this reason.
    HandshakeFailed(String),
    /// The worker died; the pipe is closed.
    WorkerGone,
}

/// The values in an [`Error`].
pub enum ErrorView {
    Remote(Seq<char>),
    UnexpectedReply { expected: Seq<u8>, got: Seq<u8> },
    InvalidUtf8,
    TooLong,
    Handshake { transport_version: u32, vocab_version: u32, peer: PeerView },
    HandshakeFailed(Seq<char>),
    WorkerGone,
}

impl View for Error {
    type V = ErrorView;

    open spec fn view(&self) -> ErrorView {
        match *self {
            Error::Remote(message) => ErrorView::Remote(message@),
            Error::UnexpectedReply { expected, got } => ErrorView::UnexpectedReply {
                expected: expected@,
                got: got@,
            },
            Error::InvalidUtf8 => ErrorView::InvalidUtf8,
            Error::TooLong => ErrorView::TooLong,
            Error::Handshake { transport_version, vocab_version, peer } => ErrorView::Handshake {
                transport_version,
                vocab_version,
                peer: peer@,
            },
            Error::HandshakeFailed(reason) => ErrorView::HandshakeFailed(reason@),
            Error::WorkerGone => ErrorView::WorkerGone,
        }
    }
}

/// A tag as text: its printable characters as they are, and `?` for any other byte.
pub open spec fn tag_text(tag: Seq<u8>) -> Seq<char> {
    Seq::new(
        tag.len(),
        |i: int|
            if 0x20 <= tag[i] < 0x7F {
                tag[i] as char
            } else {
                '?'
            },
    )
}

/// The text of an [`Error`].
pub open spec fn error_text(error: ErrorView) -> Seq<char> {
    match error {
        ErrorView::Remote(message) => "worker error: "@ + message,
        ErrorView::UnexpectedReply { expected, got } => "expected reply '"@ + tag_text(expected)
            + "', got '"@ + tag_text(got) + "'"@,
        ErrorView::InvalidUtf8 => "the worker sent text that is not UTF-8"@,
        ErrorView::TooLong => "a field of the request is too long"@,
        ErrorView::Handshake { transport_version, vocab_version, peer } =>
        "version mismatch: this side speaks transport "@ + decimal_of(transport_version as nat)
            + ", vocabulary "@ + decimal_of(vocab_version as nat) + "; "@ + peer.ident
            + " speaks transport "@ + decimal_of(peer.transport_version as nat) + ", vocabulary "@
            + decimal_of(peer.vocab_version as nat),
        ErrorView::HandshakeFailed(reason) => "handshake failed: "@ + reason,
        ErrorView::WorkerGone => "the worker is gone"@,
    }
}

/// ASCII bytes stand for the characters of their numbers.
proof fn lemma_ascii(b: Seq<u8>)
    requires
        forall|i: int| 0 <= i < b.len() ==> #[trigger] b[i] < 0x80,
    ensures
        valid_utf8(b),
        decode_utf8(b) == Seq::new(b.len(), |i: int| b[i] as char),
    decreases b.len(),
{
    if b.len() > 0 {
        let first = b[0];
        assert(first & 0x80 == 0 && first & 0x7F == first) by (bit_vector)
            requires
                first < 0x80,
        ;
        let rest = b.skip(1);
        lemma_ascii(rest);
        assert(pop_first_scalar(b) =~= rest);
        assert(decode_utf8(b) =~= Seq::new(b.len(), |i: int| b[i] as char));
    } else {
        assert(decode_utf8(b) =~= Seq::new(0, |i: int| b[i] as char));
    }
}

fn show_tag(tag: &Tag) -> (s: String)
    ensures
        s@ == tag_text(tag@),
{
    let mut shown: Vec<u8> = Vec::new();
    let mut i: usize = 0;
    while i < 4
        invariant
            i <= 4,
            shown@.len() == i,
            forall|k: int|
                0 <= k < i ==> #[trigger] shown@[k] == (if 0x20 <= tag@[k] < 0x7F {
                    tag@[k]
                } else {
                    0x3F
                }),
        decreases 4 - i,
    {
        shown.push(
            if 0x20 <= tag[i] && tag[i] < 0x7F {
                tag[i]
            } else {
                0x3F
            },
        );
        i += 1;
    }
    proof {
        lemma_ascii(shown@);
        assert(decode_utf8(shown@) =~= tag_text(tag@));
    }
    match string_from_utf8(shown) {
        Some(s) => s,
        None => String::new(),
    }
}

impl Error {
    /// The text of the error. A version mismatch names who speaks what.
    pub fn text(&self) -> (s: String)
        ensures
            s@ == error_text(self@),
    {
        match self {
            Error::Remote(message) => with("worker error: ", message.as_str()),
            Error::UnexpectedReply { expected, got } => {
                let mut s: String = with("expected reply '", show_tag(expected).as_str());
                s.append("', got '");
                s.append(show_tag(got).as_str());
                s.append("'");
                s
            },
            Error::InvalidUtf8 => "the worker sent text that is not UTF-8".to_string(),
            Error::TooLong => "a field of the request is too long".to_string(),
            Error::Handshake { transport_version, vocab_version, peer } => {
                let mut s: String = with(
                    "version mismatch: this side speaks transport ",
                    decimal(*transport_version as u128).as_str(),
                );
                s.append(", vocabulary ");
                s.append(decimal(*vocab_version as u128).as_str());
                s.append("; ");
                s.append(peer.ident.as_str());
                s.append(" speaks transport ");
                s.append(decimal(peer.transport_version as u128).as_str());
                s.append(", vocabulary ");
                s.append(decimal(peer.vocab_version as u128).as_str());
                s
            },
            Error::HandshakeFailed(reason) => with("handshake failed: ", reason.as_str()),
            Error::WorkerGone => "the worker is gone".to_string(),
        }
    }
}

} // verus!
