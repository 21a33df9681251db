//! Which worker can load a component: the machine type in a DLL's PE header.
use vstd::prelude::*;

verus! {

/// A DLL's PE machine architecture; components go to the matching worker.
#[derive(Debug, Clone, Copy, PartialEq, Eq, Structural)]
pub enum PeArch {
    X64,
    X86,
    /// Not a readable PE file, or an exotic machine type.
    Unknown,
}

/// How many bytes of a file the PE header is looked for in.
pub const HEADER_LEN: usize = 1024;

/// The offset of the PE header, which stands at `0x3C`.
pub open spec fn pe_offset(head: Seq<u8>) -> int {
    head[0x3C] + 256 * head[0x3D] + 65536 * head[0x3E] + 16777216 * head[0x3F]
}

/// Whether `head` starts with a DOS header that leads to a PE header, of which at least the
/// signature and the machine type are there.
pub open spec fn has_pe_header(head: Seq<u8>) -> bool {
    &&& head.len() >= 0x40
    &&& head[0] == 0x4D && head[1] == 0x5A  // MZ
    &&& pe_offset(head) + 6 <= head.len()
    &&& head.subrange(pe_offset(head), pe_offset(head) + 4) == seq![0x50u8, 0x45, 0, 0]  // PE
}

/// The machine type of a file that starts with `head`.
pub open spec fn pe_arch(head: Seq<u8>) -> PeArch {
    if has_pe_header(head) {
        let e = pe_offset(head);
        let machine = head[e + 4] + 256 * head[e + 5];
        if machine == 0x8664 {
            PeArch::X64
        } else if machine == 0x014C {
            PeArch::X86
        } else {
            PeArch::Unknown
        }
    } else {
        PeArch::Unknown
    }
}

/// The bytes of a file that the PE header is looked for in.
pub open spec fn head_of(file: Seq<u8>) -> Seq<u8> {
    if file.len() > HEADER_LEN {
        file.take(HEADER_LEN as int)
    } else {
        file
    }
}

/// Reads the PE header's machine type from the bytes of a DLL, or from its first ones as far as
/// they are looked at; no bytes stand for a file that cannot be read.
pub fn dll_arch(file: &[u8]) -> (arch: PeArch)
    ensures
        arch == pe_arch(head_of(file@)),
{
    let head: &[u8] = if file.len() > HEADER_LEN {
        vstd::slice::slice_subrange(file, 0, HEADER_LEN)
    } else {
        file
    };
    assert(head@ =~= head_of(file@));
    let n: usize = head.len();
    if n < 0x40 || head[0] != 0x4D || head[1] != 0x5A {
        return PeArch::Unknown;
    }
    let e: u64 = head[0x3C] as u64 + 256 * head[0x3D] as u64 + 65536 * head[0x3E] as u64 + 16777216
        * head[0x3F] as u64;
    if e + 6 > n as u64 {
        return PeArch::Unknown;
    }
    let e: usize = e as usize;
    assert(e == pe_offset(head@));
    let ghost sign = head@.subrange(e as int, e + 4);
    if head[e] != 0x50 || head[e + 1] != 0x45 || head[e + 2] != 0 || head[e + 3] != 0 {
        assert(sign[0] == head@[e as int] && sign[1] == head@[e + 1] && sign[2] == head@[e + 2]
            && sign[3] == head@[e + 3]);
        return PeArch::Unknown;
    }
    assert(sign =~= seq![0x50u8, 0x45, 0, 0]);
    let machine: u32 = head[e + 4] as u32 + 256 * head[e + 5] as u32;
    if machine == 0x8664 {
        PeArch::X64
    } else if machine == 0x014C {
        PeArch::X86
    } else {
        PeArch::Unknown
    }
}

/// A DLL is known by four things and by nothing else: the letters `MZ` at its start, the offset that
/// stands at `0x3C`, `PE` and two zeros there, and the machine type behind them. All of it must lie
/// in the first 1024 bytes; whatever the other bytes are, the machine type decides.
pub proof fn law_machine_type_decides(file: &[u8], arch: PeArch, e: int)
    requires
        call_ensures(dll_arch, (file,), arch),
        file@.len() >= 0x40,
        e == file@[0x3C] + 0x100 * file@[0x3D] + 0x1_0000 * file@[0x3E] + 0x100_0000 * file@[0x3F],
        e + 6 <= file@.len(),
        e + 6 <= 1024,
        file@[0] == 0x4D && file@[1] == 0x5A,
        file@[e] == 0x50 && file@[e + 1] == 0x45 && file@[e + 2] == 0 && file@[e + 3] == 0,
    ensures
        file@[e + 4] == 0x64 && file@[e + 5] == 0x86 <==> arch == PeArch::X64,
        file@[e + 4] == 0x4C && file@[e + 5] == 0x01 <==> arch == PeArch::X86,
{
    let head = head_of(file@);
    assert(head.subrange(e, e + 4) =~= seq![0x50u8, 0x45, 0, 0]);
}

/// Where any of that is missing, the architecture is not known.
pub proof fn law_no_machine_type(file: &[u8], arch: PeArch)
    requires
        call_ensures(dll_arch, (file,), arch),
        ({
            let e = file@[0x3C] + 0x100 * file@[0x3D] + 0x1_0000 * file@[0x3E] + 0x100_0000
                * file@[0x3F];
            ||| file@.len() < 0x40
            ||| file@[0] != 0x4D
            ||| file@[1] != 0x5A
            ||| e + 6 > file@.len()
            ||| e + 6 > 1024
            ||| file@[e] != 0x50
            ||| file@[e + 1] != 0x45
            ||| file@[e + 2] != 0
            ||| file@[e + 3] != 0
        }),
    ensures
        arch == PeArch::Unknown,
{
    let head = head_of(file@);
    if has_pe_header(head) {
        let e = pe_offset(head);
        let sign = head.subrange(e, e + 4);
        assert(sign[0] == head[e] && sign[1] == head[e + 1] && sign[2] == head[e + 2] && sign[3]
            == head[e + 3]);
        assert(sign[0] == 0x50 && sign[1] == 0x45 && sign[2] == 0 && sign[3] == 0);
    }
}

} // verus!
