//! The state of the RTL8139 network card: its buffers and its two
//! cursors.
//!
//! The card reads and writes the buffers by itself. What comes from its
//! registers is read by the caller and handed in; what goes to them is
//! written by the caller from what is handed out.

use vstd::prelude::*;
use vstd::slice::slice_subrange;

verus! {

pub const RTL8139_VENDOR_ID: u16 = 0x10EC;

pub const RTL8139_DEVICE_ID: u16 = 0x8139;

pub const REG_MAC05: u16 = 0x00;

pub const REG_MAR07: u16 = 0x08;

pub const REG_TSD0: u16 = 0x10;

pub const REG_TSAD0: u16 = 0x20;

pub const REG_RBSTART: u16 = 0x30;

pub const REG_CMD: u16 = 0x37;

pub const REG_IMR: u16 = 0x3C;

pub const REG_ISR: u16 = 0x3E;

pub const REG_RCR: u16 = 0x44;

pub const REG_CONFIG1: u16 = 0x52;

/// The bytes of the receive ring that the card wraps round in.
pub const RX_RING_SIZE: usize = 8192;

/// The bytes of the receive buffer: the ring, and room behind it for a
/// frame that runs over its end.
pub const RX_BUFFER_SIZE: usize = 8192 + 16 + 1500;

/// The bytes of one transmit buffer.
pub const TX_BUFFER_SIZE: usize = 2048;

/// The transmit buffers, used in turn.
pub const TX_SLOTS: usize = 4;

/// The bit of the command register that says that the receive buffer is
/// empty.
pub const CMD_BUFFER_EMPTY: u8 = 0x01;

/// The card, as mathematics.
pub struct NicModel {
    pub io_base: u16,
    pub mac: Seq<u8>,
    pub phys_mem_offset: u64,
    pub rx_buffer: Seq<u8>,
    /// The transmit buffers, one behind the other.
    pub tx_buffers: Seq<u8>,
    pub tx_index: usize,
    pub rx_offset: usize,
}

impl NicModel {
    /// The buffers have their sizes, and the transmit cursor stands on a
    /// buffer.
    pub open spec fn wf(self) -> bool {
        &&& self.rx_buffer.len() == RX_BUFFER_SIZE
        &&& self.tx_buffers.len() == TX_SLOTS * TX_BUFFER_SIZE
        &&& self.tx_index < TX_SLOTS
    }

    /// Whether the header of a frame lies inside the receive buffer at
    /// the receive cursor.
    pub open spec fn can_receive(self) -> bool {
        self.rx_offset + 4 <= RX_BUFFER_SIZE
    }
}

/// The length that the header at `offset` gives for its frame: bytes 2
/// and 3 of the header, the low byte first. It counts the four bytes of the
/// checksum behind the frame.
pub open spec fn frame_length(rx_buffer: Seq<u8>, offset: int) -> int {
    rx_buffer[offset + 2] + rx_buffer[offset + 3] * 256
}

/// The frame behind the header at `offset`, without its checksum, read
/// round the ring.
pub open spec fn frame_at(rx_buffer: Seq<u8>, offset: int) -> Seq<u8> {
    let length = frame_length(rx_buffer, offset);
    Seq::new(
        if length >= 4 {
            (length - 4) as nat
        } else {
            0
        },
        |i: int| rx_buffer[(offset + 4 + i) % 8192],
    )
}

/// Where the next header stands: behind the header and the frame, at the
/// next multiple of four, and one ring back where that is past the ring.
pub open spec fn next_rx_offset(offset: int, length: int) -> int {
    let aligned = (offset + length + 4 + 3) / 4 * 4;
    if aligned >= 8192 {
        aligned - 8192
    } else {
        aligned
    }
}

/// The transmit buffers after `payload` was copied to the front of the
/// buffer `slot`.
pub open spec fn staged(tx_buffers: Seq<u8>, slot: int, payload: Seq<u8>) -> Seq<u8> {
    Seq::new(
        tx_buffers.len(),
        |i: int|
            if slot * 2048 <= i < slot * 2048 + payload.len() {
                payload[i - slot * 2048]
            } else {
                tx_buffers[i]
            },
    )
}

/// The card.
#[derive(Debug)]
pub struct Rtl8139 {
    io_base: u16,
    pub mac: [u8; 6],
    phys_mem_offset: u64,
    rx_buffer: Vec<u8>,
    tx_buffers: Vec<u8>,
    tx_index: usize,
    rx_offset: usize,
}

impl View for Rtl8139 {
    type V = NicModel;

    closed spec fn view(&self) -> NicModel {
        NicModel {
            io_base: self.io_base,
            mac: self.mac@,
            phys_mem_offset: self.phys_mem_offset,
            rx_buffer: self.rx_buffer@,
            tx_buffers: self.tx_buffers@,
            tx_index: self.tx_index,
            rx_offset: self.rx_offset,
        }
    }
}

fn zeroes(count: usize) -> (bytes: Vec<u8>)
    ensures
        bytes@.len() == count,
        forall|i: int| 0 <= i < count ==> bytes@[i] == 0,
{
    let mut bytes: Vec<u8> = Vec::new();
    let mut i: usize = 0;
    while i < count
        invariant
            0 <= i <= count,
            bytes@.len() == i,
            forall|k: int| 0 <= k < i ==> bytes@[k] == 0,
        decreases count - i,
    {
        bytes.push(0u8);
        i += 1;
    }
    bytes
}

/// Reads the frame behind the header at `offset` out of a receive
/// buffer, and returns it with the place of the next header.
pub fn read_frame(rx_buffer: &[u8], offset: usize) -> (taken: (Vec<u8>, usize))
    requires
        rx_buffer@.len() >= RX_RING_SIZE,
        offset + 4 <= rx_buffer@.len(),
        offset + 65542 <= usize::MAX,
    ensures
        taken.0@ == frame_at(rx_buffer@, offset as int),
        taken.1 == next_rx_offset(offset as int, frame_length(rx_buffer@, offset as int)),
{
    let length: usize = rx_buffer[offset + 2] as usize + (rx_buffer[offset + 3] as usize) * 256;
    let start: usize = offset + 4;
    let count: usize = if length >= 4 {
        length - 4
    } else {
        0
    };
    let mut packet: Vec<u8> = Vec::new();
    let mut i: usize = 0;
    while i < count
        invariant
            0 <= i <= count <= 65535,
            start == offset + 4,
            offset + 65542 <= usize::MAX,
            rx_buffer@.len() >= RX_RING_SIZE,
            packet@.len() == i,
            forall|k: int| 0 <= k < i ==> packet@[k] == rx_buffer@[(offset + 4 + k) % 8192],
        decreases count - i,
    {
        packet.push(rx_buffer[(start + i) % RX_RING_SIZE]);
        i += 1;
    }
    assert(packet@ =~= frame_at(rx_buffer@, offset as int));
    let end: usize = offset + length + 4 + 3;
    let aligned: usize = end & !3usize;
    assert(aligned == end / 4 * 4) by (bit_vector)
        requires
            aligned == end & !3usize,
    ;
    let next: usize = if aligned >= RX_RING_SIZE {
        aligned - RX_RING_SIZE
    } else {
        aligned
    };
    (packet, next)
}

impl Rtl8139 {
    /// A card at the I/O base `io_base`, with its buffers zeroed, its
    /// cursors at the start and its MAC address not read yet.
    pub fn new(io_base: u16, phys_mem_offset: u64) -> (card: Self)
        ensures
            card@.wf(),
            card@.io_base == io_base,
            card@.phys_mem_offset == phys_mem_offset,
            card@.tx_index == 0,
            card@.rx_offset == 0,
            card@.mac == seq![0u8, 0u8, 0u8, 0u8, 0u8, 0u8],
            forall|i: int| 0 <= i < card@.rx_buffer.len() ==> card@.rx_buffer[i] == 0,
            forall|i: int| 0 <= i < card@.tx_buffers.len() ==> card@.tx_buffers[i] == 0,
    {
        let mac: [u8; 6] = [0, 0, 0, 0, 0, 0];
        assert(mac@ =~= seq![0u8, 0u8, 0u8, 0u8, 0u8, 0u8]);
        Rtl8139 {
            io_base,
            mac,
            phys_mem_offset,
            rx_buffer: zeroes(RX_BUFFER_SIZE),
            tx_buffers: zeroes(TX_SLOTS * TX_BUFFER_SIZE),
            tx_index: 0,
            rx_offset: 0,
        }
    }

    /// The first of the card's I/O ports.
    pub fn io_base(&self) -> (port: u16)
        ensures
            port == self@.io_base,
    {
        self.io_base
    }

    /// The offset at which physical memory is mapped.
    pub fn phys_mem_offset(&self) -> (offset: u64)
        ensures
            offset == self@.phys_mem_offset,
    {
        self.phys_mem_offset
    }

    /// The transmit buffer that the next frame goes to.
    pub fn tx_index(&self) -> (slot: usize)
        ensures
            slot == self@.tx_index,
    {
        self.tx_index
    }

    /// Where the next header stands in the receive buffer.
    pub fn rx_offset(&self) -> (offset: usize)
        ensures
            offset == self@.rx_offset,
    {
        self.rx_offset
    }

    /// The receive buffer, for the card to be told where it lies.
    pub fn rx_buffer(&self) -> (buffer: &[u8])
        ensures
            buffer@ == self@.rx_buffer,
    {
        self.rx_buffer.as_slice()
    }

    /// The transmit buffer `slot`, for the card to be told where it lies.
    pub fn tx_buffer(&self, slot: usize) -> (buffer: &[u8])
        requires
            self@.wf(),
            slot < TX_SLOTS,
        ensures
            buffer@ == self@.tx_buffers.subrange(
                slot * TX_BUFFER_SIZE,
                (slot + 1) * TX_BUFFER_SIZE,
            ),
    {
        slice_subrange(
            self.tx_buffers.as_slice(),
            slot * TX_BUFFER_SIZE,
            (slot + 1) * TX_BUFFER_SIZE,
        )
    }

    /// The physical address of the virtual address `virt`, as the card
    /// takes it: its distance from the offset at which physical memory is
    /// mapped, cut to 32 bits.
    pub fn virt_to_phys(&self, virt: u64) -> (phys: u32)
        requires
            virt >= self@.phys_mem_offset,
        ensures
            phys == (virt - self@.phys_mem_offset) % 0x1_0000_0000,
    {
        ((virt - self.phys_mem_offset) % 0x1_0000_0000) as u32
    }

    /// Copies `payload` to the front of the transmit buffer in turn and
    /// moves the turn on. Returns the buffer that holds the frame: the
    /// caller tells the card its address and the length of the frame.
    pub fn tx_raw(&mut self, payload: &[u8]) -> (slot: usize)
        requires
            old(self)@.wf(),
            payload@.len() <= TX_BUFFER_SIZE,
        ensures
            slot == old(self)@.tx_index,
            final(self)@ == (NicModel {
                tx_buffers: staged(old(self)@.tx_buffers, slot as int, payload@),
                tx_index: ((slot + 1) % 4) as usize,
                ..old(self)@
            }),
            final(self)@.wf(),
    {
        let slot: usize = self.tx_index;
        let base: usize = slot * TX_BUFFER_SIZE;
        let mut i: usize = 0;
        while i < payload.len()
            invariant
                0 <= i <= payload.len() <= TX_BUFFER_SIZE,
                slot < TX_SLOTS,
                base == slot * TX_BUFFER_SIZE,
                self.tx_buffers@.len() == TX_SLOTS * TX_BUFFER_SIZE,
                self.tx_buffers@ == staged(
                    old(self)@.tx_buffers,
                    slot as int,
                    payload@.take(i as int),
                ),
                self.io_base == old(self).io_base,
                self.mac == old(self).mac,
                self.phys_mem_offset == old(self).phys_mem_offset,
                self.rx_buffer == old(self).rx_buffer,
                self.rx_offset == old(self).rx_offset,
                self.tx_index == old(self).tx_index,
            decreases payload.len() - i,
        {
            self.tx_buffers[base + i] = payload[i];
            assert(self.tx_buffers@ =~= staged(
                old(self)@.tx_buffers,
                slot as int,
                payload@.take(i + 1),
            ));
            i += 1;
        }
        assert(payload@.take(i as int) =~= payload@);
        self.tx_index = (self.tx_index + 1) % 4;
        slot
    }

    /// Takes the next frame out of the receive buffer, if the command
    /// register, whose value is `command`, says that there is one, and
    /// moves the receive cursor behind it.
    pub fn rx_poll(&mut self, command: u8) -> (frame: Option<Vec<u8>>)
        requires
            old(self)@.wf(),
            old(self)@.can_receive(),
        ensures
            frame is None <==> command & CMD_BUFFER_EMPTY != 0,
            frame is None ==> final(self)@ == old(self)@,
            frame matches Some(bytes) ==> bytes@ == frame_at(
                old(self)@.rx_buffer,
                old(self)@.rx_offset as int,
            ) && final(self)@ == (NicModel {
                rx_offset: next_rx_offset(
                    old(self)@.rx_offset as int,
                    frame_length(old(self)@.rx_buffer, old(self)@.rx_offset as int),
                ) as usize,
                ..old(self)@
            }),
            final(self)@.wf(),
    {
        if (command & CMD_BUFFER_EMPTY) != 0 {
            return None;
        }
        let (packet, next) = read_frame(self.rx_buffer.as_slice(), self.rx_offset);
        self.rx_offset = next;
        Some(packet)
    }
}

} // verus!
