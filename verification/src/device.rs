//! The character device's buffer manager.
//!
//! The device presents a fixed 4096-byte store. A write copies its payload
//! into the store after a bounds check, then interprets the byte now at the
//! write offset as a LED command: ASCII `'0'` drives pin 17 low, ASCII `'1'`
//! drives it high, and any other byte is rejected — after the bytes have
//! already been committed to the store, a quirk the contracts state
//! explicitly. A read hands back a slice of the store, clamped to the bytes
//! that remain after the offset.
//!
//! Concurrency is the embedding program's business: it serializes buffer
//! access under one guard and controller access under another, acquiring
//! the buffer guard first. The contracts here describe each linearized
//! operation, and [`lemma_no_lost_update`] shows that a linearized burst of
//! single-byte writes loses none of them.

use vstd::pervasive::VecAdditionalExecFns;
use vstd::prelude::*;

use crate::gpio::{
    lev_clear, lev_set, pin_function_of, pin_level_of, GpioFunction, NUM_PINS, RpiGpio,
};

verus! {

/// Size in bytes of the device's backing buffer.
pub const GLOBALMEM_SIZE: usize = 0x1000;

/// The pin the device's write commands drive.
pub const LED_PIN: u32 = 17;

/// Errors a device operation reports to its caller. Both are per-call and
/// recoverable; no user input makes the device panic.
#[derive(Clone, Copy, Debug, PartialEq, Eq)]
pub enum DeviceError {
    /// The requested range does not fit the buffer: the offset lies beyond
    /// the buffer, or too few bytes remain after it.
    CapacityFault,
    /// The written command byte is neither ASCII `'0'` nor ASCII `'1'`.
    InvalidCommand,
}

/// A write fits when the command byte's offset is inside the buffer and the
/// payload ends within it.
pub open spec fn write_fits(offset: int, len: int) -> bool {
    offset < GLOBALMEM_SIZE && offset + len <= GLOBALMEM_SIZE
}

/// The buffer contents after a fitting write of `payload` at `offset`.
pub open spec fn buffer_after_write(buf: Seq<u8>, offset: int, payload: Seq<u8>) -> Seq<u8> {
    buf.subrange(0, offset) + payload + buf.subrange(offset + payload.len(), buf.len() as int)
}

/// The byte a fitting write leaves at its offset: the payload's first byte,
/// or — for an empty payload — the byte already stored there.
pub open spec fn write_command(buf: Seq<u8>, offset: int, payload: Seq<u8>) -> u8 {
    if payload.len() > 0 {
        payload[0]
    } else {
        buf[offset]
    }
}

/// Whether `cmd` is one of the two recognized LED command bytes.
pub open spec fn is_led_command(cmd: u8) -> bool {
    cmd == 48 || cmd == 49
}

/// The level (0 or 1) a recognized command byte drives the LED pin to.
pub open spec fn led_level(cmd: u8) -> u32 {
    if cmd == 49 {
        1
    } else {
        0
    }
}

/// The controller's level words after a recognized command byte is applied.
pub open spec fn levels_after_command(levs: Seq<u32>, cmd: u8) -> Seq<u32> {
    if cmd == 49 {
        lev_set(levs, LED_PIN)
    } else {
        lev_clear(levs, LED_PIN)
    }
}

/// How many bytes a read at `offset` asking for `max_len` hands back:
/// `max_len`, clamped to the bytes that remain after the offset.
pub open spec fn read_len(offset: int, max_len: int) -> int {
    if GLOBALMEM_SIZE - offset < max_len {
        GLOBALMEM_SIZE - offset
    } else {
        max_len
    }
}

/// The bytes a read at `offset` asking for `max_len` hands back.
pub open spec fn read_result(buf: Seq<u8>, offset: int, max_len: int) -> Seq<u8> {
    buf.subrange(offset, offset + read_len(offset, max_len))
}

/// The fixed-size byte store backing the character device.
pub struct DeviceBuffer {
    data: Vec<u8>,
}

impl DeviceBuffer {
    /// The stored bytes.
    pub closed spec fn bytes(self) -> Seq<u8> {
        self.data@
    }

    /// The store always holds exactly [`GLOBALMEM_SIZE`] bytes.
    pub open spec fn wf(self) -> bool {
        self.bytes().len() == GLOBALMEM_SIZE
    }

    /// Allocates the store with every byte zero.
    pub fn new() -> (b: DeviceBuffer)
        ensures
            b.wf(),
            forall|i: int| 0 <= i < GLOBALMEM_SIZE ==> b.bytes()[i] == 0,
    {
        let mut data: Vec<u8> = Vec::new();
        while data.len() < GLOBALMEM_SIZE
            invariant
                data@.len() <= GLOBALMEM_SIZE,
                forall|i: int| 0 <= i < data@.len() ==> data@[i] == 0,
            decreases GLOBALMEM_SIZE - data@.len(),
        {
            data.push(0u8);
        }
        DeviceBuffer { data }
    }

    /// Copies up to `max_len` stored bytes starting at `offset`, clamped to
    /// the bytes that remain after the offset; an offset beyond the buffer
    /// is rejected before any arithmetic could underflow.
    pub fn read(&self, offset: usize, max_len: usize) -> (r: Result<Vec<u8>, DeviceError>)
        requires
            self.wf(),
        ensures
            (match r {
                Ok(data) => offset <= GLOBALMEM_SIZE && data@ == read_result(
                    self.bytes(),
                    offset as int,
                    max_len as int,
                ),
                Err(e) => offset > GLOBALMEM_SIZE && e == DeviceError::CapacityFault,
            }),
    {
        if offset > GLOBALMEM_SIZE {
            return Err(DeviceError::CapacityFault);
        }
        let left_size = GLOBALMEM_SIZE - offset;
        let mut data_len = max_len;
        if left_size < max_len {
            data_len = left_size;
        }
        let mut data: Vec<u8> = Vec::new();
        let mut i: usize = 0;
        while i < data_len
            invariant
                self.wf(),
                i <= data_len,
                offset + data_len <= GLOBALMEM_SIZE,
                data_len == read_len(offset as int, max_len as int),
                data@ == self.bytes().subrange(offset as int, offset as int + i as int),
            decreases data_len - i,
        {
            let byte = self.data[offset + i];
            data.push(byte);
            i = i + 1;
            proof {
                assert(data@ =~= self.bytes().subrange(offset as int, offset as int + i as int));
            }
        }
        Ok(data)
    }

    /// Copies `payload` into the store at `offset` and hands back the byte
    /// then stored at `offset`, for the caller to interpret as the device's
    /// command byte. A write that does not fit — including one whose offset
    /// has no byte under it — is rejected with the store untouched.
    pub fn write_at(&mut self, offset: usize, payload: &[u8]) -> (r: Result<u8, DeviceError>)
        requires
            old(self).wf(),
        ensures
            final(self).wf(),
            (match r {
                Ok(cmd) => write_fits(offset as int, payload@.len() as int) && final(self).bytes()
                    == buffer_after_write(old(self).bytes(), offset as int, payload@) && cmd
                    == write_command(old(self).bytes(), offset as int, payload@),
                Err(e) => e == DeviceError::CapacityFault && !write_fits(
                    offset as int,
                    payload@.len() as int,
                ) && *final(self) == *old(self),
            }),
    {
        let len = payload.len();
        if offset >= GLOBALMEM_SIZE || GLOBALMEM_SIZE - offset < len {
            return Err(DeviceError::CapacityFault);
        }
        let mut i: usize = 0;
        while i < len
            invariant
                offset < GLOBALMEM_SIZE,
                offset + len <= GLOBALMEM_SIZE,
                i <= len,
                len == payload@.len(),
                self.data@.len() == GLOBALMEM_SIZE,
                forall|j: int| 0 <= j < i ==> self.data@[offset + j] == payload@[j],
                forall|j: int|
                    0 <= j < GLOBALMEM_SIZE && !(offset <= j < offset + i) ==> self.data@[j]
                        == old(self).data@[j],
            decreases len - i,
        {
            let byte = payload[i];
            self.data.set(offset + i, byte);
            i = i + 1;
        }
        proof {
            assert(self.data@ =~= buffer_after_write(old(self).bytes(), offset as int, payload@));
        }
        let cmd = self.data[offset];
        Ok(cmd)
    }
}

/// Interprets one committed command byte: ASCII `'0'` (48) drives the LED
/// pin low, ASCII `'1'` (49) drives it high, and any other byte is rejected
/// with the controller untouched.
pub fn apply_command(gpio: &mut RpiGpio, cmd: u8) -> (r: Result<(), DeviceError>)
    ensures
        final(gpio).fsel() == old(gpio).fsel(),
        (match r {
            Ok(()) => is_led_command(cmd) && final(gpio).levels() == levels_after_command(
                old(gpio).levels(),
                cmd,
            ) && pin_level_of(final(gpio).levels(), LED_PIN) == led_level(cmd) && (forall|q: u32|
                q < NUM_PINS && q != LED_PIN ==> pin_level_of(final(gpio).levels(), q)
                    == pin_level_of(old(gpio).levels(), q)),
            Err(e) => e == DeviceError::InvalidCommand && !is_led_command(cmd) && *final(gpio)
                == *old(gpio),
        }),
{
    if cmd == 48 {
        gpio.set_value(LED_PIN, 0);
        Ok(())
    } else if cmd == 49 {
        gpio.set_value(LED_PIN, 1);
        Ok(())
    } else {
        Err(DeviceError::InvalidCommand)
    }
}

/// The shared state behind the character device: the byte store and the
/// GPIO controller handle, created once per device registration and then
/// shared by every open file handle.
pub struct RustMiscdevData {
    inner: DeviceBuffer,
    rpi_gpio: RpiGpio,
}

impl RustMiscdevData {
    /// The stored buffer bytes.
    pub closed spec fn buffer(self) -> Seq<u8> {
        self.inner.bytes()
    }

    /// The GPIO controller's state.
    pub closed spec fn gpio(self) -> RpiGpio {
        self.rpi_gpio
    }

    /// The buffer holds exactly [`GLOBALMEM_SIZE`] bytes and the register
    /// file has its fixed shape.
    pub open spec fn wf(self) -> bool {
        self.buffer().len() == GLOBALMEM_SIZE && self.gpio().fsel().len() == 6
            && self.gpio().levels().len() == 2
    }

    /// Creates the shared device state: a zeroed buffer and a controller in
    /// reset state. The driver does this once per registration; mapping the
    /// physical register block is the embedding program's step and comes
    /// first.
    pub fn new() -> (d: RustMiscdevData)
        ensures
            d.wf(),
            forall|i: int| 0 <= i < GLOBALMEM_SIZE ==> d.buffer()[i] == 0,
            forall|p: u32| p < NUM_PINS ==> pin_function_of(d.gpio().fsel(), p) == 0,
            forall|p: u32| p < NUM_PINS ==> pin_level_of(d.gpio().levels(), p) == 0,
    {
        RustMiscdevData { inner: DeviceBuffer::new(), rpi_gpio: RpiGpio::new() }
    }

    /// Configures the LED exercise's pins (2, 3, 4 and 17) as outputs, as
    /// the driver does right after creating the shared state.
    pub fn gpio_init(&mut self)
        requires
            old(self).wf(),
        ensures
            final(self).wf(),
            final(self).buffer() == old(self).buffer(),
            final(self).gpio().levels() == old(self).gpio().levels(),
            pin_function_of(final(self).gpio().fsel(), 2) == GpioFunction::Output.spec_code(),
            pin_function_of(final(self).gpio().fsel(), 3) == GpioFunction::Output.spec_code(),
            pin_function_of(final(self).gpio().fsel(), 4) == GpioFunction::Output.spec_code(),
            pin_function_of(final(self).gpio().fsel(), 17) == GpioFunction::Output.spec_code(),
            forall|q: u32|
                q < NUM_PINS && q != 2 && q != 3 && q != 4 && q != 17 ==> pin_function_of(
                    final(self).gpio().fsel(),
                    q,
                ) == pin_function_of(old(self).gpio().fsel(), q),
    {
        self.rpi_gpio.gpio_init();
    }

    /// Reads the current level of `pin` from the controller, as a
    /// concurrent observer of the device would.
    pub fn read_value(&self, pin: u32) -> (v: u32)
        requires
            pin < NUM_PINS,
        ensures
            v == pin_level_of(self.gpio().levels(), pin),
            v <= 1,
    {
        self.rpi_gpio.read_value(pin)
    }

    /// Handles a read syscall: hands back up to `max_len` buffer bytes
    /// starting at `offset`, clamped to the bytes that remain.
    pub fn read(&self, offset: usize, max_len: usize) -> (r: Result<Vec<u8>, DeviceError>)
        requires
            self.wf(),
        ensures
            (match r {
                Ok(data) => offset <= GLOBALMEM_SIZE && data@ == read_result(
                    self.buffer(),
                    offset as int,
                    max_len as int,
                ),
                Err(e) => offset > GLOBALMEM_SIZE && e == DeviceError::CapacityFault,
            }),
    {
        self.inner.read(offset, max_len)
    }

    /// Handles a write syscall. A write that does not fit is rejected with
    /// nothing changed. A fitting write commits its bytes to the buffer
    /// unconditionally, then interprets the byte at `offset`: ASCII `'0'`
    /// or `'1'` drives the LED pin and the call succeeds with the payload
    /// length; any other byte leaves the controller untouched and reports
    /// an invalid command — with the bytes still committed, a quirk kept
    /// from the device's protocol.
    pub fn write(&mut self, offset: usize, payload: &[u8]) -> (r: Result<usize, DeviceError>)
        requires
            old(self).wf(),
        ensures
            final(self).wf(),
            final(self).gpio().fsel() == old(self).gpio().fsel(),
            !write_fits(offset as int, payload@.len() as int) ==> r == Err::<usize, DeviceError>(
                DeviceError::CapacityFault,
            ) && *final(self) == *old(self),
            write_fits(offset as int, payload@.len() as int) ==> final(self).buffer()
                == buffer_after_write(old(self).buffer(), offset as int, payload@),
            write_fits(offset as int, payload@.len() as int) && is_led_command(
                write_command(old(self).buffer(), offset as int, payload@),
            ) ==> r == Ok::<usize, DeviceError>(payload@.len() as usize)
                && final(self).gpio().levels() == levels_after_command(
                old(self).gpio().levels(),
                write_command(old(self).buffer(), offset as int, payload@),
            ) && pin_level_of(final(self).gpio().levels(), LED_PIN) == led_level(
                write_command(old(self).buffer(), offset as int, payload@),
            ) && (forall|q: u32|
                q < NUM_PINS && q != LED_PIN ==> pin_level_of(final(self).gpio().levels(), q)
                    == pin_level_of(old(self).gpio().levels(), q)),
            write_fits(offset as int, payload@.len() as int) && !is_led_command(
                write_command(old(self).buffer(), offset as int, payload@),
            ) ==> r == Err::<usize, DeviceError>(DeviceError::InvalidCommand) && final(self).gpio()
                == old(self).gpio(),
    {
        let len = payload.len();
        match self.inner.write_at(offset, payload) {
            Err(e) => Err(e),
            Ok(cmd) => match apply_command(&mut self.rpi_gpio, cmd) {
                Ok(()) => Ok(len),
                Err(e) => Err(e),
            },
        }
    }
}

/// Round trip: a fitting write of `payload` at `offset` followed by a read
/// of `payload.len()` bytes at `offset` returns exactly the written bytes —
/// whatever the write's command check said, since the bytes are committed
/// first.
pub proof fn lemma_write_read_round_trip(buf: Seq<u8>, offset: int, payload: Seq<u8>)
    requires
        buf.len() == GLOBALMEM_SIZE,
        0 <= offset,
        offset + payload.len() <= GLOBALMEM_SIZE,
    ensures
        read_result(buffer_after_write(buf, offset, payload), offset, payload.len() as int)
            == payload,
{
    assert(read_result(buffer_after_write(buf, offset, payload), offset, payload.len() as int)
        =~= payload);
}

/// The buffer left by a linearized sequence of single-byte writes, applied
/// first to last; the order is the one in which the buffer guard was
/// granted.
pub open spec fn apply_writes(buf: Seq<u8>, ws: Seq<(int, u8)>) -> Seq<u8>
    decreases ws.len(),
{
    if ws.len() == 0 {
        buf
    } else {
        apply_writes(buffer_after_write(buf, ws[0].0, seq![ws[0].1]), ws.skip(1))
    }
}

proof fn lemma_apply_writes_preserves(buf: Seq<u8>, ws: Seq<(int, u8)>, j: int)
    requires
        buf.len() == GLOBALMEM_SIZE,
        forall|i: int| 0 <= i < ws.len() ==> 0 <= (#[trigger] ws[i]).0 < GLOBALMEM_SIZE,
        0 <= j < GLOBALMEM_SIZE,
        forall|i: int| 0 <= i < ws.len() ==> (#[trigger] ws[i]).0 != j,
    ensures
        apply_writes(buf, ws).len() == GLOBALMEM_SIZE,
        apply_writes(buf, ws)[j] == buf[j],
    decreases ws.len(),
{
    if ws.len() > 0 {
        let buf1 = buffer_after_write(buf, ws[0].0, seq![ws[0].1]);
        assert(buf1.len() == GLOBALMEM_SIZE);
        assert(buf1[j] == buf[j]);
        assert(forall|i: int|
            0 <= i < ws.skip(1).len() ==> (#[trigger] ws.skip(1)[i]) == ws[i + 1]);
        lemma_apply_writes_preserves(buf1, ws.skip(1), j);
    }
}

/// No lost updates: in a linearized burst of fitting single-byte writes,
/// every write whose offset is not written again later is still readable in
/// the final buffer. In particular, writes at pairwise distinct offsets all
/// survive, however the guard interleaved them.
pub proof fn lemma_no_lost_update(buf: Seq<u8>, ws: Seq<(int, u8)>, k: int)
    requires
        buf.len() == GLOBALMEM_SIZE,
        forall|i: int| 0 <= i < ws.len() ==> 0 <= (#[trigger] ws[i]).0 < GLOBALMEM_SIZE,
        0 <= k < ws.len(),
        forall|j: int| k < j < ws.len() ==> (#[trigger] ws[j]).0 != ws[k].0,
    ensures
        apply_writes(buf, ws).len() == GLOBALMEM_SIZE,
        apply_writes(buf, ws)[ws[k].0] == ws[k].1,
    decreases ws.len(),
{
    let buf1 = buffer_after_write(buf, ws[0].0, seq![ws[0].1]);
    assert(buf1.len() == GLOBALMEM_SIZE);
    assert(forall|i: int| 0 <= i < ws.skip(1).len() ==> (#[trigger] ws.skip(1)[i]) == ws[i + 1]);
    if k == 0 {
        assert(buf1[ws[0].0] == ws[0].1);
        lemma_apply_writes_preserves(buf1, ws.skip(1), ws[0].0);
    } else {
        lemma_no_lost_update(buf1, ws.skip(1), k - 1);
    }
}

} // verus!
