use foobar_dsp_host::checksum::{adler32, crc32};
use foobar_dsp_host::components::{list_components, needs_flat, Folder, Place};
use foobar_dsp_host::files;
use foobar_dsp_host::png::{png_chunk, write_png_rgb};
use foobar_dsp_host::text;
use foobar_dsp_host::wav::{read_wav, WavError};
use foobar_dsp_host::{dll_arch, stage_companion_dlls, PeArch};

fn names(list: &[&str]) -> Vec<String> {
    list.iter().map(|s| s.to_string()).collect()
}

#[test]
fn dll_arch_unknown_for_non_pe() {
    assert_eq!(dll_arch(b"definitely not PE"), PeArch::Unknown);
    // What cannot be read has no bytes.
    assert_eq!(dll_arch(&[]), PeArch::Unknown);
}

fn pe_file(offset: u32, machine: u16, len: usize) -> Vec<u8> {
    let mut file = vec![0u8; len];
    file[0] = 0x4D;
    file[1] = 0x5A;
    file[0x3C..0x40].copy_from_slice(&offset.to_le_bytes());
    let e = offset as usize;
    if e + 6 <= len {
        file[e..e + 4].copy_from_slice(b"PE\0\0");
        file[e + 4..e + 6].copy_from_slice(&machine.to_le_bytes());
    }
    file
}

#[test]
fn machine_types_are_told_apart() {
    assert_eq!(dll_arch(&pe_file(0x80, 0x8664, 512)), PeArch::X64);
    assert_eq!(dll_arch(&pe_file(0x80, 0x014C, 512)), PeArch::X86);
    assert_eq!(dll_arch(&pe_file(0x80, 0xAA64, 512)), PeArch::Unknown);
    let mut no_signature = pe_file(0x80, 0x8664, 512);
    no_signature[0x81] = 0;
    assert_eq!(dll_arch(&no_signature), PeArch::Unknown);
    let mut no_dos_header = pe_file(0x80, 0x8664, 512);
    no_dos_header[0] = 0;
    assert_eq!(dll_arch(&no_dos_header), PeArch::Unknown);
    // The header ends with the bytes, or one short of them, or lies far behind them.
    assert_eq!(dll_arch(&pe_file(506, 0x8664, 512)), PeArch::X64);
    assert_eq!(dll_arch(&pe_file(506, 0x8664, 512)[..511]), PeArch::Unknown);
    assert_eq!(dll_arch(&pe_file(u32::MAX, 0x8664, 512)), PeArch::Unknown);
    // Only the first bytes of a file are looked at.
    assert_eq!(dll_arch(&pe_file(1018, 0x8664, 4096)), PeArch::X64);
    assert_eq!(dll_arch(&pe_file(1019, 0x8664, 4096)), PeArch::Unknown);
}

#[test]
fn checksums_of_known_texts() {
    assert_eq!(crc32(b""), 0);
    assert_eq!(crc32(b"123456789"), 0xCBF4_3926);
    assert_eq!(adler32(b""), 1);
    assert_eq!(adler32(b"Wikipedia"), 0x11E6_0398);
}

#[test]
fn a_text_followed_by_its_crc() {
    for text in [&b""[..], b"a", b"123456789", b"IHDR"] {
        let mut all = text.to_vec();
        all.extend_from_slice(&crc32(text).to_le_bytes());
        assert_eq!(crc32(&all), 0x2144_DF1C);
    }
}

#[test]
fn crcs_combine_by_exclusive_or() {
    let (a, b, c) = (b"IHDR", b"IDAT", b"IEND");
    let all: Vec<u8> = (0..4).map(|i| a[i] ^ b[i] ^ c[i]).collect();
    assert_eq!(crc32(&all), crc32(a) ^ crc32(b) ^ crc32(c));
}

#[test]
fn a_pixel_as_png() {
    let expected: Vec<u8> = vec![
        0x89, 0x50, 0x4E, 0x47, 0x0D, 0x0A, 0x1A, 0x0A, 0x00, 0x00, 0x00, 0x0D, 0x49, 0x48, 0x44,
        0x52, 0x00, 0x00, 0x00, 0x01, 0x00, 0x00, 0x00, 0x01, 0x08, 0x02, 0x00, 0x00, 0x00, 0x90,
        0x77, 0x53, 0xDE, 0x00, 0x00, 0x00, 0x0F, 0x49, 0x44, 0x41, 0x54, 0x78, 0x01, 0x01, 0x04,
        0x00, 0xFB, 0xFF, 0x00, 0xFF, 0x00, 0x00, 0x03, 0x01, 0x01, 0x00, 0x8D, 0x1D, 0xE5, 0x82,
        0x00, 0x00, 0x00, 0x00, 0x49, 0x45, 0x4E, 0x44, 0xAE, 0x42, 0x60, 0x82,
    ];
    assert_eq!(write_png_rgb(1, 1, &[255, 0, 0]), expected);
}

#[test]
fn a_chunk_of_png() {
    let mut out = vec![1];
    png_chunk(&mut out, b"IEND", &[]);
    assert_eq!(out, vec![1, 0, 0, 0, 0, 0x49, 0x45, 0x4E, 0x44, 0xAE, 0x42, 0x60, 0x82]);
}

/// The scanlines of a PNG file whose stream is stored.
fn scanlines(png: &[u8]) -> Vec<u8> {
    let len = u32::from_be_bytes([png[33], png[34], png[35], png[36]]) as usize;
    let zlib = &png[41..41 + len];
    let mut raw = Vec::new();
    let mut at = 2;
    loop {
        let n = u16::from_le_bytes([zlib[at + 1], zlib[at + 2]]);
        assert_eq!(!n, u16::from_le_bytes([zlib[at + 3], zlib[at + 4]]));
        raw.extend_from_slice(&zlib[at + 5..at + 5 + n as usize]);
        let last = zlib[at] == 1;
        at += 5 + n as usize;
        if last {
            return raw;
        }
    }
}

#[test]
fn a_picture_of_several_blocks() {
    let (w, h) = (200usize, 150usize);
    let rgb: Vec<u8> = (0..w * h * 3).map(|i| (i % 251) as u8).collect();
    let raw = scanlines(&write_png_rgb(w, h, &rgb));
    assert_eq!(raw.len(), h * (1 + w * 3));
    assert!(raw.len() > 65535);
    for y in 0..h {
        let line = &raw[y * (1 + w * 3)..(y + 1) * (1 + w * 3)];
        assert_eq!(line[0], 0);
        assert_eq!(&line[1..], &rgb[y * w * 3..(y + 1) * w * 3]);
    }
}

fn wav(channels: u16, rate: u32, bits: u16, data: &[u8]) -> Vec<u8> {
    let mut d = b"RIFF\0\0\0\0WAVE".to_vec();
    d.extend_from_slice(b"LIST\x03\x00\x00\x00abc\x00");
    d.extend_from_slice(b"fmt \x10\x00\x00\x00\x01\x00");
    d.extend_from_slice(&channels.to_le_bytes());
    d.extend_from_slice(&rate.to_le_bytes());
    d.extend_from_slice(&[0; 6]);
    d.extend_from_slice(&bits.to_le_bytes());
    d.extend_from_slice(b"data");
    d.extend_from_slice(&(data.len() as u32).to_le_bytes());
    d.extend_from_slice(data);
    d
}

#[test]
fn stereo_wav_is_taken_as_it_is() {
    let data = [1, 0, 0xFF, 0xFF, 0x00, 0x80, 0xFF, 0x7F];
    assert_eq!(read_wav(&wav(2, 48000, 16, &data)), Ok((vec![1, -1, -32768, 32767], 48000)));
}

#[test]
fn mono_wav_is_doubled() {
    assert_eq!(read_wav(&wav(1, 8000, 16, &[1, 0, 2, 0])), Ok((vec![1, 1, 2, 2], 8000)));
}

#[test]
fn wav_that_is_cut_short() {
    let mut d = wav(2, 8000, 16, &[1, 0, 2, 0, 3, 0, 4, 0]);
    d.truncate(d.len() - 3);
    assert_eq!(read_wav(&d), Ok((vec![1, 2], 8000)));
}

#[test]
fn wav_errors() {
    assert_eq!(read_wav(b"RIFF"), Err(WavError::NotRiffWave));
    assert_eq!(read_wav(&[0; 64]), Err(WavError::NotRiffWave));
    assert_eq!(WavError::NotRiffWave.text(), "not RIFF/WAVE");
    let e = read_wav(&wav(2, 44100, 24, &[0; 6])).unwrap_err();
    assert_eq!(e, WavError::UnsupportedBits(24));
    assert_eq!(e.text(), "unsupported 24 bit WAV");
}

#[test]
fn companions_are_dlls_but_no_components() {
    let folder = names(&[
        "soxr64.dll",
        "foo_dsp_xgeq.dll",
        "FOO_other.DLL",
        "shared.dll",
        "Shared.Dll",
        "LIB.DLL",
        "readme.txt",
        ".dll",
        "dll",
        "a.b.dll",
    ]);
    assert_eq!(stage_companion_dlls(&folder), vec![0, 5, 9]);
}

#[test]
fn only_foo_underscore_is_skipped() {
    assert_eq!(stage_companion_dlls(&names(&["foo_dsp_x.dll", "footools.dll"])), vec![1]);
    assert_eq!(stage_companion_dlls(&names(&["FOO_dsp_x.dll", "foo.dll", "FooTools.DLL"])), vec![1, 2]);
}

#[test]
fn components_are_foo_dlls() {
    let folder = names(&["foo_a.dll", "foo_b.DLL", "bar.dll", "foo.dll", "foo_c.txt", "foo"]);
    assert_eq!(files::component_files(&folder), vec![0, 3]);
}

#[test]
fn a_component_is_no_companion() {
    let folder = names(&["foo_a.dll"]);
    assert_eq!(files::component_files(&folder), vec![0]);
    assert!(stage_companion_dlls(&folder).is_empty());
}

#[test]
fn names_that_are_there_already_are_not_added() {
    let x64 = names(&["foo_a.dll", "foo_b.dll"]);
    let x86 = names(&["foo_c.dll", "foo_a.dll", "foo_c.dll", "foo_d.dll"]);
    assert_eq!(files::merge_components(&x64, &x86), vec![0, 3]);
}

fn place(folder: Folder, file: usize) -> Place {
    Place { folder, file }
}

#[test]
fn components_of_both_architectures() {
    let x64 = names(&["foo_b.dll", "soxr64.dll", "foo_d.dll"]);
    let x86 = names(&["foo_c.dll", "foo_b.dll", "readme.txt", "foo_a.dll"]);
    let flat = names(&["foo_z.dll"]);
    assert!(!needs_flat(&x64, &x86));
    assert_eq!(
        list_components(&x64, &x86, &flat),
        vec![
            place(Folder::X86, 3),
            place(Folder::X64, 0),
            place(Folder::X86, 0),
            place(Folder::X64, 2),
        ]
    );
}

#[test]
fn components_all_in_one_folder() {
    let none = names(&["readme.txt"]);
    let flat = names(&["foo_z.dll", "bar.dll", "foo_a.dll"]);
    assert!(needs_flat(&none, &[]));
    assert_eq!(list_components(&none, &[], &flat), vec![place(Folder::Flat, 2), place(Folder::Flat, 0)]);
    assert!(!needs_flat(&none, &names(&["foo_a.dll"])));
    assert!(list_components(&[], &[], &[]).is_empty());
}

#[test]
fn listing_is_by_name() {
    assert_eq!(files::listing(&names(&["foo_b", "foo_B", "foo_a", "foo_b", "foo"])), vec![4, 1, 2, 0, 3]);
    assert!(files::listing(&[]).is_empty());
}

#[test]
fn stages_are_called_by_their_stem() {
    assert_eq!(files::stage_label(Some("foo_dsp_xgeq.dll")), "foo_dsp_xgeq");
    assert_eq!(files::stage_label(Some("foo.v2.dll")), "foo.v2");
    assert_eq!(files::stage_label(Some(".dll")), ".dll");
    assert_eq!(files::stage_label(None), "");
}

#[test]
fn presets_are_kept_by_stem() {
    assert_eq!(files::preset_path(Some("foo_dsp_xgeq.dll")), "foo_dsp_xgeq.preset");
    assert_eq!(files::preset_path(Some("foo_a.dll")), files::preset_path(Some("foo_a.DLL")));
    assert_ne!(files::preset_path(Some("foo_a.dll")), files::preset_path(Some("foo_b.dll")));
    assert_eq!(files::preset_path(None), "dsp.preset");
}

#[test]
fn numbers_in_decimal() {
    assert_eq!(text::decimal(0), "0");
    assert_eq!(text::decimal(1090), "1090");
    assert_eq!(text::decimal(u128::MAX), "340282366920938463463374607431768211455");
}

#[test]
fn joining_texts() {
    assert_eq!(text::join(&names(&["a", "b", "c"]), " · "), "a · b · c");
    assert_eq!(text::join(&names(&["a"]), ","), "a");
    assert_eq!(text::join(&[], ","), "");
}
