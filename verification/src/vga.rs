//! VGA programming for a bare-metal kernel: the text cells that show a
//! message, the frame buffer segment, and the register writes that switch the
//! display mode. The port and memory accesses themselves are left to the caller.

use vstd::prelude::*;

verus! {

pub const VGA_AC_INDEX: u32 = 0x3C0;
pub const VGA_AC_WRITE: u32 = 0x3C0;
pub const VGA_AC_READ: u32 = 0x3C1;
pub const VGA_MISC_WRITE: u32 = 0x3C2;
pub const VGA_SEQ_INDEX: u32 = 0x3C4;
pub const VGA_SEQ_DATA: u32 = 0x3C5;
pub const VGA_DAC_READ_INDEX: u32 = 0x3C7;
pub const VGA_DAC_WRITE_INDEX: u32 = 0x3C8;
pub const VGA_DAC_DATA: u32 = 0x3C9;
pub const VGA_MISC_READ: u32 = 0x3CC;
pub const VGA_GC_INDEX: u32 = 0x3CE;
pub const VGA_GC_DATA: u32 = 0x3CF;
pub const VGA_CRTC_INDEX: u32 = 0x3D4;
pub const VGA_CRTC_DATA: u32 = 0x3D5;
pub const VGA_INSTAT_READ: u32 = 0x3DA;
pub const VGA_NUM_SEQ_REGS: u32 = 5;
pub const VGA_NUM_CRTC_REGS: u32 = 25;
pub const VGA_NUM_GC_REGS: u32 = 9;
pub const VGA_NUM_AC_REGS: u32 = 21;
pub const VGA_NUM_REGS: u32 = 61;

/// The attribute byte of a text cell: light cyan on black.
pub const TEXT_ATTR: u8 = 0x0b;

/// The bytes of the text buffer that show `text` from the top left corner:
/// each character byte followed by its attribute byte.
pub fn text_cells(text: &[u8]) -> (r: Vec<u8>)
    requires
        text@.len() * 2 <= usize::MAX,
    ensures
        r@.len() == 2 * text@.len(),
        forall|i: int| 0 <= i < text@.len() ==> r@[2 * i] == #[trigger] text@[i],
        forall|i: int| 0 <= i < text@.len() ==> #[trigger] r@[2 * i + 1] == TEXT_ATTR,
{
    let mut r: Vec<u8> = Vec::new();
    let mut i: usize = 0;
    while i < text.len()
        invariant
            i <= text@.len(),
            r@.len() == 2 * i,
            forall|j: int| 0 <= j < i ==> (r@[2 * j] == #[trigger] text@[j] && r@[2 * j + 1] == TEXT_ATTR),
        decreases text@.len() - i,
    {
        let ghost before = r@;
        r.push(text[i]);
        r.push(TEXT_ATTR);
        assert forall|j: int| 0 <= j <= i implies r@[2 * j] == #[trigger] text@[j] && r@[2 * j + 1] == TEXT_ATTR by {
            if j < i {
                assert(r@[2 * j] == before[2 * j]);
                assert(r@[2 * j + 1] == before[2 * j + 1]);
            }
        }
        i = i + 1;
    }
    assert(i == text@.len());
    assert forall|k: int| 0 <= k < text@.len() implies #[trigger] r@[2 * k + 1] == TEXT_ATTR by {
        assert(k < i);
        assert(r@[2 * k] == text@[k]);
    }
    r
}

/// The frame buffer segment selected by the graphics controller's
/// miscellaneous register (bits 2 and 3 of `gc_misc`).
pub open spec fn fb_segment_spec(gc_misc: u8) -> u32 {
    let sel = (gc_misc / 4) % 4;
    if sel <= 1 {
        0xA0000
    } else if sel == 2 {
        0xB0000
    } else {
        0xB8000
    }
}

/// The frame buffer segment for the value read from the graphics controller's
/// miscellaneous register.
pub fn get_fb_seg(gc_misc: u8) -> (r: u32)
    ensures
        r == fb_segment_spec(gc_misc),
{
    let mut seg = gc_misc;
    seg >>= 2;
    seg &= 3;
    assert(seg == (gc_misc / 4) % 4) by (bit_vector)
        requires
            seg == (gc_misc >> 2u8) & 3u8,
    ;
    match seg {
        0 | 1 => 0xA0000,
        2 => 0xB0000,
        3 => 0xB8000,
        _ => 0,
    }
}

/// The writes that fill the first `count` pixels of the 320x200 graphics frame
/// buffer: pixel `i` is at offset `2 * i` and takes the low byte of `i`.
pub fn graphics_writes(count: usize) -> (r: Vec<(usize, u8)>)
    requires
        count * 2 <= usize::MAX,
    ensures
        r@.len() == count,
        forall|i: int| 0 <= i < count ==> #[trigger] r@[i] == ((2 * i) as usize, (i % 256) as u8),
{
    let mut r: Vec<(usize, u8)> = Vec::new();
    let mut i: usize = 0;
    while i < count
        invariant
            i <= count,
            count * 2 <= usize::MAX,
            r@.len() == i,
            forall|j: int| 0 <= j < i ==> #[trigger] r@[j] == ((2 * j) as usize, (j % 256) as u8),
        decreases count - i,
    {
        let v = (i % 256) as u8;
        r.push((2 * i, v));
        i = i + 1;
    }
    r
}

/// One access to an I/O port.
#[derive(Clone, Copy, Debug, PartialEq, Eq, Structural)]
pub enum PortOp {
    /// Write `value` to `port`.
    Out { port: u32, value: u8 },
    /// Read `port`, ignoring the value.
    In { port: u32 },
    /// Read `port` and write back the value with the bits of `mask` set.
    OrIn { port: u32, mask: u8 },
    /// Read `port` and write back the value with only the bits of `mask` kept.
    AndIn { port: u32, mask: u8 },
}

/// For `count` registers from descriptor offset `start`: the register's number
/// (its descriptor offset) to `index_port`, then its value to `data_port`.
pub open spec fn indexed_writes(desc: Seq<u8>, index_port: u32, data_port: u32, start: int, count: int) -> Seq<PortOp> {
    Seq::new(
        (2 * count) as nat,
        |k: int|
            if k % 2 == 0 {
                PortOp::Out { port: index_port, value: (start + k / 2) as u8 }
            } else {
                PortOp::Out { port: data_port, value: desc[start + k / 2] }
            },
    )
}

/// For the attribute controller's registers from descriptor offset `start`: a
/// read of the input status (which resets the index/data flip-flop), the
/// register's number, then its value.
pub open spec fn attribute_writes(desc: Seq<u8>, start: int, count: int) -> Seq<PortOp> {
    Seq::new(
        (3 * count) as nat,
        |k: int|
            if k % 3 == 0 {
                PortOp::In { port: VGA_INSTAT_READ }
            } else if k % 3 == 1 {
                PortOp::Out { port: VGA_AC_INDEX, value: (start + k / 3) as u8 }
            } else {
                PortOp::Out { port: VGA_AC_WRITE, value: desc[start + k / 3] }
            },
    )
}

/// The port accesses that load a 61-byte mode descriptor: the miscellaneous
/// output, 5 sequencer registers, the CRTC unlocked (bit 7 of register 3 set,
/// bit 7 of register 0x11 cleared) and its 25 registers, 9 graphics controller
/// registers, 21 attribute controller registers, then the palette locked and the
/// display unblanked. Register numbers are the descriptor offsets, as written.
pub open spec fn mode_switch_spec(desc: Seq<u8>) -> Seq<PortOp> {
    seq![PortOp::Out { port: VGA_MISC_WRITE, value: desc[0] }]
        + indexed_writes(desc, VGA_SEQ_INDEX, VGA_SEQ_DATA, 1, 5)
        + seq![
            PortOp::Out { port: VGA_CRTC_INDEX, value: 0x03 },
            PortOp::OrIn { port: VGA_CRTC_DATA, mask: 0x80 },
            PortOp::Out { port: VGA_CRTC_INDEX, value: 0x11 },
            PortOp::AndIn { port: VGA_CRTC_DATA, mask: 0x7f },
        ]
        + indexed_writes(desc, VGA_CRTC_INDEX, VGA_CRTC_DATA, 6, 25)
        + indexed_writes(desc, VGA_GC_INDEX, VGA_GC_DATA, 31, 9)
        + attribute_writes(desc, 40, 21)
        + seq![PortOp::In { port: VGA_INSTAT_READ }, PortOp::Out { port: VGA_AC_INDEX, value: 0x20 }]
}

/// Setting the bits of `0x80` sets bit 7 of any register value and keeps its
/// other bits; keeping only the bits of `0x7f` clears bit 7 and keeps the
/// others.
proof fn lemma_bit7_masks()
    by (bit_vector)
    ensures
        forall|v: u8| #[trigger] (v | 0x80u8) == (v % 128) + 128,
        forall|v: u8| #[trigger] (v & 0x7fu8) == v % 128,
{
}

/// The mode switch unlocks the CRTC registers before it writes them: it
/// selects register 3 and writes it back with bit 7 set and its other bits
/// kept, then selects register 0x11 and writes it back with bit 7 cleared
/// (the write protection of registers 0 to 7) and its other bits kept.
pub proof fn law_crtc_unlock(desc: Seq<u8>)
    requires
        desc.len() == 61,
    ensures
        ({
            let ops = mode_switch_spec(desc);
            &&& ops[11] == PortOp::Out { port: VGA_CRTC_INDEX, value: 0x03 }
            &&& ops[12] matches PortOp::OrIn { port, mask } && port == VGA_CRTC_DATA
                && forall|v: u8| #[trigger] (v | mask) == (v % 128) + 128
            &&& ops[13] == PortOp::Out { port: VGA_CRTC_INDEX, value: 0x11 }
            &&& ops[14] matches PortOp::AndIn { port, mask } && port == VGA_CRTC_DATA
                && forall|v: u8| #[trigger] (v & mask) == v % 128
            &&& forall|k: int| 15 <= k < 65 && k % 2 == 1 ==> (#[trigger] ops[k]) == PortOp::Out {
                port: VGA_CRTC_INDEX,
                value: (6 + (k - 15) / 2) as u8,
            }
        }),
{
    lemma_bit7_masks();
    let ops = mode_switch_spec(desc);
    let pre = seq![PortOp::Out { port: VGA_MISC_WRITE, value: desc[0] }]
        + indexed_writes(desc, VGA_SEQ_INDEX, VGA_SEQ_DATA, 1, 5);
    assert(pre.len() == 11);
    let unlock = seq![
        PortOp::Out { port: VGA_CRTC_INDEX, value: 0x03 },
        PortOp::OrIn { port: VGA_CRTC_DATA, mask: 0x80 },
        PortOp::Out { port: VGA_CRTC_INDEX, value: 0x11 },
        PortOp::AndIn { port: VGA_CRTC_DATA, mask: 0x7f },
    ];
    let crtc = indexed_writes(desc, VGA_CRTC_INDEX, VGA_CRTC_DATA, 6, 25);
    let rest = indexed_writes(desc, VGA_GC_INDEX, VGA_GC_DATA, 31, 9)
        + attribute_writes(desc, 40, 21)
        + seq![PortOp::In { port: VGA_INSTAT_READ }, PortOp::Out { port: VGA_AC_INDEX, value: 0x20 }];
    assert(ops == pre + unlock + crtc + rest);
    assert(ops[11] == unlock[0]);
    assert(ops[12] == unlock[1]);
    assert(ops[13] == unlock[2]);
    assert(ops[14] == unlock[3]);
    assert forall|k: int| 15 <= k < 65 && k % 2 == 1 implies (#[trigger] ops[k]) == PortOp::Out {
        port: VGA_CRTC_INDEX,
        value: (6 + (k - 15) / 2) as u8,
    } by {
        assert(ops[k] == crtc[k - 15]);
        assert((k - 15) % 2 == 0 && (k - 15) / 2 == (k - 15) / 2);
    }
}

fn push_indexed(
    ops: &mut Vec<PortOp>,
    desc: &[u8; 61],
    index_port: u32,
    data_port: u32,
    start: usize,
    count: usize,
)
    requires
        start + count <= 61,
    ensures
        final(ops)@ == old(ops)@ + indexed_writes(desc@, index_port, data_port, start as int, count as int),
{
    let ghost base = ops@;
    let mut j: usize = 0;
    while j < count
        invariant
            start + count <= 61,
            j <= count,
            ops@ == base + indexed_writes(desc@, index_port, data_port, start as int, j as int),
        decreases count - j,
    {
        let offset = start + j;
        ops.push(PortOp::Out { port: index_port, value: offset as u8 });
        ops.push(PortOp::Out { port: data_port, value: desc[offset] });
        assert(indexed_writes(desc@, index_port, data_port, start as int, j + 1) =~= indexed_writes(
            desc@,
            index_port,
            data_port,
            start as int,
            j as int,
        ).push(PortOp::Out { port: index_port, value: offset as u8 }).push(
            PortOp::Out { port: data_port, value: desc@[offset as int] },
        ));
        j = j + 1;
    }
}

/// The port accesses that load the mode descriptor `desc`.
pub fn mod_switch(desc: &[u8; 61]) -> (r: Vec<PortOp>)
    ensures
        r@ == mode_switch_spec(desc@),
{
    let mut ops: Vec<PortOp> = Vec::new();
    ops.push(PortOp::Out { port: VGA_MISC_WRITE, value: desc[0] });
    push_indexed(&mut ops, desc, VGA_SEQ_INDEX, VGA_SEQ_DATA, 1, 5);
    ops.push(PortOp::Out { port: VGA_CRTC_INDEX, value: 0x03 });
    ops.push(PortOp::OrIn { port: VGA_CRTC_DATA, mask: 0x80 });
    ops.push(PortOp::Out { port: VGA_CRTC_INDEX, value: 0x11 });
    ops.push(PortOp::AndIn { port: VGA_CRTC_DATA, mask: 0x7f });
    push_indexed(&mut ops, desc, VGA_CRTC_INDEX, VGA_CRTC_DATA, 6, 25);
    push_indexed(&mut ops, desc, VGA_GC_INDEX, VGA_GC_DATA, 31, 9);
    let ghost base = ops@;
    let mut j: usize = 0;
    while j < 21
        invariant
            j <= 21,
            ops@ == base + attribute_writes(desc@, 40, j as int),
        decreases 21 - j,
    {
        let offset = 40 + j;
        ops.push(PortOp::In { port: VGA_INSTAT_READ });
        ops.push(PortOp::Out { port: VGA_AC_INDEX, value: offset as u8 });
        ops.push(PortOp::Out { port: VGA_AC_WRITE, value: desc[offset] });
        assert(attribute_writes(desc@, 40, j + 1) =~= attribute_writes(desc@, 40, j as int).push(
            PortOp::In { port: VGA_INSTAT_READ },
        ).push(PortOp::Out { port: VGA_AC_INDEX, value: offset as u8 }).push(
            PortOp::Out { port: VGA_AC_WRITE, value: desc@[offset as int] },
        ));
        j = j + 1;
    }
    ops.push(PortOp::In { port: VGA_INSTAT_READ });
    ops.push(PortOp::Out { port: VGA_AC_INDEX, value: 0x20 });
    assert(ops@ =~= mode_switch_spec(desc@));
    ops
}

/// Mode descriptor for 640x480 with 2 colours.
pub open spec fn mode_640x480x2_spec() -> Seq<u8> {
    seq![0xE3u8, 0x03u8, 0x01u8, 0x0Fu8, 0x00u8, 0x06u8, 0x5Fu8, 0x4Fu8, 0x50u8, 0x82u8, 0x54u8, 0x80u8, 0x0Bu8, 0x3Eu8, 0x00u8, 0x40u8, 0x00u8, 0x00u8, 0x00u8, 0x00u8, 0x00u8, 0x00u8, 0xEAu8, 0x0Cu8, 0xDFu8, 0x28u8, 0x00u8, 0xE7u8, 0x04u8, 0xE3u8, 0xFFu8, 0x00u8, 0x00u8, 0x00u8, 0x00u8, 0x00u8, 0x00u8, 0x05u8, 0x0Fu8, 0xFFu8, 0x00u8, 0x01u8, 0x02u8, 0x03u8, 0x04u8, 0x05u8, 0x14u8, 0x07u8, 0x38u8, 0x39u8, 0x3Au8, 0x3Bu8, 0x3Cu8, 0x3Du8, 0x3Eu8, 0x3Fu8, 0x01u8, 0x00u8, 0x0Fu8, 0x00u8, 0x00u8]
}

/// That descriptor, as an array.
pub fn mode_640x480x2() -> (r: [u8; 61])
    ensures
        r@ == mode_640x480x2_spec(),
{
    let r = [
        0xE3,
        0x03, 0x01, 0x0F, 0x00, 0x06,
        0x5F, 0x4F, 0x50, 0x82, 0x54, 0x80, 0x0B, 0x3E,
        0x00, 0x40, 0x00, 0x00, 0x00, 0x00, 0x00, 0x00,
        0xEA, 0x0C, 0xDF, 0x28, 0x00, 0xE7, 0x04, 0xE3,
        0xFF,
        0x00, 0x00, 0x00, 0x00, 0x00, 0x00, 0x05, 0x0F,
        0xFF,
        0x00, 0x01, 0x02, 0x03, 0x04, 0x05, 0x14, 0x07,
        0x38, 0x39, 0x3A, 0x3B, 0x3C, 0x3D, 0x3E, 0x3F,
        0x01, 0x00, 0x0F, 0x00, 0x00,
    ];
    assert(r@ =~= mode_640x480x2_spec());
    r
}

/// Mode descriptor for 320x200 with 256 colours.
pub open spec fn mode_320x200x256_spec() -> Seq<u8> {
    seq![0x63u8, 0x03u8, 0x01u8, 0x0Fu8, 0x00u8, 0x0Eu8, 0x5Fu8, 0x4Fu8, 0x50u8, 0x82u8, 0x54u8, 0x80u8, 0xBFu8, 0x1Fu8, 0x00u8, 0x41u8, 0x00u8, 0x00u8, 0x00u8, 0x00u8, 0x00u8, 0x00u8, 0x9Cu8, 0x0Eu8, 0x8Fu8, 0x28u8, 0x40u8, 0x96u8, 0xB9u8, 0xA3u8, 0xFFu8, 0x00u8, 0x00u8, 0x00u8, 0x00u8, 0x00u8, 0x40u8, 0x05u8, 0x0Fu8, 0xFFu8, 0x00u8, 0x01u8, 0x02u8, 0x03u8, 0x04u8, 0x05u8, 0x06u8, 0x07u8, 0x08u8, 0x09u8, 0x0Au8, 0x0Bu8, 0x0Cu8, 0x0Du8, 0x0Eu8, 0x0Fu8, 0x41u8, 0x00u8, 0x0Fu8, 0x00u8, 0x00u8]
}

/// That descriptor, as an array.
pub fn mode_320x200x256() -> (r: [u8; 61])
    ensures
        r@ == mode_320x200x256_spec(),
{
    let r = [
        0x63,
        0x03, 0x01, 0x0F, 0x00, 0x0E,
        0x5F, 0x4F, 0x50, 0x82, 0x54, 0x80, 0xBF, 0x1F,
        0x00, 0x41, 0x00, 0x00, 0x00, 0x00, 0x00, 0x00,
        0x9C, 0x0E, 0x8F, 0x28, 0x40, 0x96, 0xB9, 0xA3,
        0xFF,
        0x00, 0x00, 0x00, 0x00, 0x00, 0x40, 0x05, 0x0F,
        0xFF,
        0x00, 0x01, 0x02, 0x03, 0x04, 0x05, 0x06, 0x07,
        0x08, 0x09, 0x0A, 0x0B, 0x0C, 0x0D, 0x0E, 0x0F,
        0x41, 0x00, 0x0F, 0x00, 0x00,
    ];
    assert(r@ =~= mode_320x200x256_spec());
    r
}

/// Mode descriptor for 320x200 with 4 colours.
pub open spec fn mode_320x200x4_spec() -> Seq<u8> {
    seq![0x63u8, 0x03u8, 0x09u8, 0x03u8, 0x00u8, 0x02u8, 0x2Du8, 0x27u8, 0x28u8, 0x90u8, 0x2Bu8, 0x80u8, 0xBFu8, 0x1Fu8, 0x00u8, 0x41u8, 0x00u8, 0x00u8, 0x00u8, 0x00u8, 0x00u8, 0x00u8, 0x9Cu8, 0x0Eu8, 0x8Fu8, 0x14u8, 0x00u8, 0x96u8, 0xB9u8, 0xA3u8, 0xFFu8, 0x00u8, 0x00u8, 0x00u8, 0x00u8, 0x00u8, 0x30u8, 0x02u8, 0x00u8, 0xFFu8, 0x00u8, 0x13u8, 0x15u8, 0x17u8, 0x02u8, 0x04u8, 0x06u8, 0x07u8, 0x10u8, 0x11u8, 0x12u8, 0x13u8, 0x14u8, 0x15u8, 0x16u8, 0x17u8, 0x01u8, 0x00u8, 0x03u8, 0x00u8, 0x00u8]
}

/// That descriptor, as an array.
pub fn mode_320x200x4() -> (r: [u8; 61])
    ensures
        r@ == mode_320x200x4_spec(),
{
    let r = [
        0x63,
        0x03, 0x09, 0x03, 0x00, 0x02,
        0x2D, 0x27, 0x28, 0x90, 0x2B, 0x80, 0xBF, 0x1F,
        0x00, 0x41, 0x00, 0x00, 0x00, 0x00, 0x00, 0x00,
        0x9C, 0x0E, 0x8F, 0x14, 0x00, 0x96, 0xB9, 0xA3,
        0xFF,
        0x00, 0x00, 0x00, 0x00, 0x00, 0x30, 0x02, 0x00,
        0xFF,
        0x00, 0x13, 0x15, 0x17, 0x02, 0x04, 0x06, 0x07,
        0x10, 0x11, 0x12, 0x13, 0x14, 0x15, 0x16, 0x17,
        0x01, 0x00, 0x03, 0x00, 0x00,
    ];
    assert(r@ =~= mode_320x200x4_spec());
    r
}

} // verus!
