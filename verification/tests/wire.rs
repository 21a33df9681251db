use foobar_dsp_host::error::Error;
use foobar_dsp_host::frame;
use foobar_dsp_host::frame::Step;
use foobar_dsp_host::protocol;
use foobar_dsp_host::protocol::{Awaiting, Reading, Reply, StageSpec};
use foobar_dsp_host::tags;

fn got<T>(step: Step<T>) -> (T, usize) {
    match step {
        Step::Got(value, end) => (value, end),
        Step::More(n) => panic!("{n} more bytes wanted"),
        Step::Bad(end) => panic!("bad item before {end}"),
    }
}

fn err_message(text: &str) -> Vec<u8> {
    let mut wire = Vec::new();
    frame::write_tag(&mut wire, tags::ERR);
    frame::write_string(&mut wire, text);
    wire
}

#[test]
fn chain_reply_parses() {
    let mut wire = Vec::new();
    frame::write_tag(&mut wire, tags::COK);
    frame::write_u32(&mut wire, 2);
    frame::write_string(&mut wire, "Graphic Equalizer");
    frame::write_string(&mut wire, "VLevel");

    let (reply, at) = got(protocol::expect_reply(&wire, tags::COK));
    reply.unwrap();
    let (n, mut at) = got(frame::read_u32(&wire, at));
    let names: Vec<String> = (0..n)
        .map(|_| {
            let (name, end) = got(frame::read_string(&wire, at));
            at = end;
            name
        })
        .collect();
    assert_eq!(names, vec!["Graphic Equalizer", "VLevel"]);
}

#[test]
fn err_reply_surfaces_as_remote() {
    let wire = err_message("a chain stage failed to load");
    match got(protocol::expect_reply(&wire, tags::COK)).0 {
        Err(Error::Remote(m)) => assert_eq!(m, "a chain stage failed to load"),
        other => panic!("expected Remote, got {other:?}"),
    }
}

#[test]
fn preset_blob_is_opaque_bytes() {
    // PRE carries a length-prefixed blob (GUID16 + data) — parsed as raw bytes only.
    let blob: Vec<u8> = (0..24).collect();
    let mut wire = Vec::new();
    frame::write_tag(&mut wire, tags::PRE);
    frame::write_blob(&mut wire, &blob);
    let (reply, at) = got(protocol::expect_reply(&wire, tags::PRE));
    reply.unwrap();
    assert_eq!(got(frame::read_blob(&wire, at)).0, blob);
}

#[test]
fn tags_are_their_four_letters() {
    assert_eq!(&tags::CHAN, b"CHAN");
    assert_eq!(&tags::LOAD, b"LOAD");
    assert_eq!(&tags::RST, b"RST ");
    assert_eq!(&tags::PROC, b"PROC");
    assert_eq!(&tags::FLSH, b"FLSH");
    assert_eq!(&tags::CFG, b"CFG ");
    assert_eq!(&tags::GPRE, b"GPRE");
    assert_eq!(&tags::SPRE, b"SPRE");
    assert_eq!(&tags::QUIT, b"QUIT");
    assert_eq!(&tags::COK, b"COK ");
    assert_eq!(&tags::LOK, b"LOK ");
    assert_eq!(&tags::OK, b"OK  ");
    assert_eq!(&tags::POK, b"POK ");
    assert_eq!(&tags::PRE, b"PRE ");
    assert_eq!(&tags::ERR, b"ERR ");
}

#[test]
fn u32_is_little_endian() {
    let mut out: Vec<u8> = Vec::new();
    frame::write_u32(&mut out, 0x01020304);
    assert_eq!(out, vec![4, 3, 2, 1]);
    assert_eq!(got(frame::read_u32(&out, 0)), (0x01020304, 4));
    assert!(matches!(frame::read_u32(&out, 1), Step::More(1)));
}

#[test]
fn strings_are_utf8() {
    let mut out = Vec::new();
    frame::write_string(&mut out, "Δ dB");
    assert_eq!(out, vec![5, 0, 0, 0, 0xCE, 0x94, 0x20, 0x64, 0x42]);
    assert_eq!(got(frame::read_string(&out, 0)), ("Δ dB".to_string(), 9));
    // A lone continuation byte is no text.
    assert!(matches!(frame::read_string(&[1, 0, 0, 0, 0x94], 0), Step::Bad(5)));
    // Half of a two-byte character is none either, but its bytes are all there.
    assert!(matches!(frame::read_string(&[1, 0, 0, 0, 0xCE], 0), Step::Bad(5)));
    assert!(matches!(frame::read_string(&[3, 0, 0, 0, 0x61], 0), Step::More(2)));
}

#[test]
fn samples_keep_their_bits() {
    let samples: Vec<u32> = vec![1.0f32.to_bits(), (-0.0f32).to_bits(), 0x7fc0_0001];
    let mut out = Vec::new();
    frame::write_samples(&mut out, &samples);
    assert_eq!(out, vec![0, 0, 0x80, 0x3f, 0, 0, 0, 0x80, 1, 0, 0xc0, 0x7f]);
    assert_eq!(frame::read_samples(&out, 0, out.len()), samples);
    assert_eq!(frame::read_samples(&out, 4, 8), vec![0x8000_0000]);
}

#[test]
fn several_strings_in_a_row() {
    let mut out = Vec::new();
    frame::write_string(&mut out, "a");
    frame::write_string(&mut out, "");
    frame::write_string(&mut out, "bc");
    let (names, end) = got(frame::read_strings(&out, 0, 3));
    assert_eq!(names, vec!["a", "", "bc"]);
    assert_eq!(end, out.len());
    assert!(matches!(frame::read_strings(&out, 0, 4), Step::More(4)));
}

#[test]
fn another_tag_is_unexpected() {
    let (reply, end) = got(protocol::expect_reply(b"POK \x00\x00\x00\x00", tags::OK));
    assert_eq!(
        reply,
        Err(Error::UnexpectedReply { expected: tags::OK, got: tags::POK })
    );
    assert_eq!(end, 4);
}

#[test]
fn a_message_that_is_not_utf8_is_invalid() {
    let (reply, end) = got(protocol::expect_reply(b"ERR \x01\x00\x00\x00\xff", tags::OK));
    assert_eq!(reply, Err(Error::InvalidUtf8));
    assert_eq!(end, 9);
}

#[test]
fn an_answer_is_read_as_far_as_it_goes() {
    let wire = b"POK \x01\x00\x00\x00\x00\x00\x80\x3f\x00\x00\x00\x40";
    for cut in 0..wire.len() {
        match protocol::read_reply(Awaiting::Audio, 2, &wire[..cut]) {
            Reading::More(n) => assert!(1 <= n && n <= wire.len() - cut),
            _ => panic!("read past the end of {cut} bytes"),
        }
    }
    match protocol::read_reply(Awaiting::Audio, 2, wire) {
        Reading::Done(Reply::Audio(frames, samples), end) => {
            assert_eq!(frames, 1);
            assert_eq!(samples, vec![1.0f32.to_bits(), 2.0f32.to_bits()]);
            assert_eq!(end, wire.len());
        }
        _ => panic!("expected audio"),
    }
    // The same bytes and more: nothing behind the end is read.
    let mut longer = wire.to_vec();
    longer.extend_from_slice(b"OK  ");
    match protocol::read_reply(Awaiting::Audio, 2, &longer) {
        Reading::Done(_, end) => assert_eq!(end, wire.len()),
        _ => panic!("expected audio"),
    }
}

#[test]
fn chain_request_on_the_wire() {
    let stage = StageSpec { entry_index: 1, preset: vec![7, 8], ..StageSpec::new("a.dll") };
    let bytes = protocol::chain_message(44100, 2, &[stage, StageSpec::new("é")]);
    let mut expected = b"CHAN".to_vec();
    expected.extend_from_slice(&[0x44, 0xAC, 0, 0]);
    expected.extend_from_slice(&[2, 0, 0, 0]);
    expected.extend_from_slice(&[2, 0, 0, 0]);
    expected.extend_from_slice(b"\x05\x00\x00\x00a.dll\x01\x00\x00\x00\x02\x00\x00\x00\x07\x08");
    expected.extend_from_slice(b"\x02\x00\x00\x00\xc3\xa9\x00\x00\x00\x00\x00\x00\x00\x00");
    assert_eq!(bytes, expected);
}

#[test]
fn other_requests_on_the_wire() {
    assert_eq!(
        protocol::load_message("x", 48000, 1, 3),
        b"LOAD\x01\x00\x00\x00x\x80\xbb\x00\x00\x01\x00\x00\x00\x03\x00\x00\x00".to_vec()
    );
    assert_eq!(protocol::bare_message(tags::QUIT), b"QUIT".to_vec());
    assert_eq!(protocol::stage_message(tags::CFG, 2), b"CFG \x02\x00\x00\x00".to_vec());
    assert_eq!(
        protocol::process_message(1, &[0x3f80_0000, 0]),
        b"PROC\x01\x00\x00\x00\x00\x00\x80\x3f\x00\x00\x00\x00".to_vec()
    );
    assert_eq!(
        protocol::set_preset_message(1, &[9]),
        b"SPRE\x01\x00\x00\x00\x01\x00\x00\x00\x09".to_vec()
    );
}

#[test]
fn new_stage_has_defaults() {
    let stage = StageSpec::new("foo_dsp_xgeq.dll");
    assert_eq!(stage.dll, "foo_dsp_xgeq.dll");
    assert_eq!(stage.entry_index, 0);
    assert!(stage.preset.is_empty());
}
