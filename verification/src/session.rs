//! The device session and the programming orchestrator.
//!
//! [`FlashBoy`] owns the open HID connection to the one matching device and
//! keeps a ghost log of every report successfully handed to the device, in
//! order. The contracts of [`FlashBoy::erase`], [`FlashBoy::init_prog`] and
//! [`FlashBoy::write_chunk`] pin down exactly which reports a call appends
//! to that log; the device's answers are outside the program and nothing is
//! assumed of them beyond what a validated response buffer shows.
//! [`ProgramRun`] streams the 2048 chunks of a validated image, and
//! [`FlashBoy::flash_rom`] sequences a whole run: validate, erase, enter
//! programming mode, write all 2048 chunks, aborting on the first failure.

use vstd::prelude::*;
use vstd::slice::slice_subrange;

use crate::codec::{
    Opcode, chunk_reports, command_packet, decode_response, encode_command, encode_payload,
    payload_packet, response_matches,
};
use crate::image::{chunk_at, chunk_spec, valid_image_len, validate_image_len};

verus! {

/// USB vendor id of the device.
pub const VENDOR_ID: u16 = 0x1781;

/// USB product id of the device.
pub const PRODUCT_ID: u16 = 0x09A2;

#[verifier::external_type_specification]
#[verifier::external_body]
pub struct ExHidApi(hidapi::HidApi);

#[verifier::external_type_specification]
#[verifier::external_body]
pub struct ExHidDevice(hidapi::HidDevice);

#[verifier::external_type_specification]
#[verifier::external_body]
pub struct ExHidError(hidapi::HidError);

/// Everything that can go wrong while programming.
#[derive(Debug)]
pub enum Error {
    /// No usable device: enumeration failed, the open failed, the product
    /// string was absent, or it did not name the device. The lower-level
    /// cause, where there was one, rides along for diagnostics.
    FlashboyNotFound(Option<hidapi::HidError>),
    /// The device answered the erase command with an unexpected echo byte.
    UnexpectedEraseResponse { code: u8 },
    /// The device answered a chunk write with an unexpected echo byte.
    UnexpectedWriteResponse { code: u8 },
    /// A USB transfer failed outright.
    Transport(hidapi::HidError),
    /// The image length is outside the accepted geometry.
    InvalidImage,
}

/// Witness that the start-program command was issued: it can only be
/// obtained from `init_prog`, so no chunk write can be attempted before the
/// mode switch — the device's ordering requirement is carried by the type.
pub struct WriteToken {
    _int: (),
}

/// The marker that tells the device apart from other products of the same
/// silicon vendor: its product string contains "FlashBoy".
pub open spec fn names_flashboy(s: Seq<char>) -> bool {
    exists|i: int| 0 <= i && i + 8 <= s.len() && #[trigger] s.subrange(i, i + 8) == "FlashBoy"@
}

/// Relies on str::contains: reports whether `s` holds "FlashBoy" as a
/// contiguous substring.
#[verifier::external_body]
pub fn product_string_matches(s: &String) -> (r: bool)
    ensures
        r == names_flashboy(s@),
{
    s.contains("FlashBoy")
}

/// Relies on hidapi::HidApi::new: initializes a HID library context and
/// enumerates the attached devices.
#[verifier::external_body]
fn hid_api_new() -> Result<hidapi::HidApi, hidapi::HidError> {
    hidapi::HidApi::new()
}

/// Relies on hidapi::HidApi::open: opens the first attached device with the
/// given vendor and product id.
#[verifier::external_body]
fn hid_open(api: &hidapi::HidApi, vid: u16, pid: u16) -> Result<
    hidapi::HidDevice,
    hidapi::HidError,
> {
    api.open(vid, pid)
}

/// Relies on hidapi::HidDevice::get_product_string: reads the device's
/// product string descriptor; `None` where the device reports none.
#[verifier::external_body]
fn hid_product_string(dev: &hidapi::HidDevice) -> Result<Option<String>, hidapi::HidError> {
    dev.get_product_string()
}

/// Validates a response buffer against the opcode whose echo is expected,
/// mapping a mismatch to the error that names the failed command and
/// carries the actual echo byte.
pub fn check_response(resp: &[u8], cmd: Opcode) -> (r: Result<(), Error>)
    requires
        resp@.len() >= 1,
    ensures
        r.is_ok() <==> response_matches(resp@, cmd),
        !response_matches(resp@, cmd) ==> (match cmd {
            Opcode::Erase => r == Err::<(), Error>(
                Error::UnexpectedEraseResponse { code: resp@[0] },
            ),
            _ => r == Err::<(), Error>(Error::UnexpectedWriteResponse { code: resp@[0] }),
        }),
{
    match decode_response(resp, cmd) {
        Ok(()) => Ok(()),
        Err(code) => match cmd {
            Opcode::Erase => Err(Error::UnexpectedEraseResponse { code }),
            _ => Err(Error::UnexpectedWriteResponse { code }),
        },
    }
}

/// A zeroed 65-byte buffer to read one response report into.
fn blank_report() -> (r: Vec<u8>)
    ensures
        r@.len() == 65,
{
    let mut r: Vec<u8> = Vec::new();
    while r.len() < 65
        invariant
            r@.len() <= 65,
        decreases 65 - r@.len(),
    {
        r.push(0u8);
    }
    r
}

/// A sequence is a prefix of itself extended by anything.
proof fn lemma_prefix_of_extension(a: Seq<Seq<u8>>, b: Seq<Seq<u8>>)
    ensures
        a.is_prefix_of(a + b),
{
    assert(a =~= (a + b).subrange(0, a.len() as int));
}

/// An open session with the one matching device.
pub struct FlashBoy {
    dev: hidapi::HidDevice,
    sent: Ghost<Seq<Seq<u8>>>,
}

impl FlashBoy {
    /// The log of every report successfully handed to the device in this
    /// session, in the order they were sent.
    pub closed spec fn sent_log(&self) -> Seq<Seq<u8>> {
        self.sent@
    }

    /// Relies on hidapi::HidDevice::write: hands one report to the device.
    /// `Ok` means the transport accepted the report; the session's log grows
    /// by exactly that report, and by nothing on failure.
    #[verifier::external_body]
    fn dev_write(&mut self, buf: &Vec<u8>) -> (r: Result<(), hidapi::HidError>)
        ensures
            r.is_ok() ==> final(self).sent_log() == old(self).sent_log().push(buf@),
            r.is_err() ==> final(self).sent_log() == old(self).sent_log(),
    {
        match self.dev.write(buf.as_slice()) {
            Ok(_) => Ok(()),
            Err(e) => Err(e),
        }
    }

    /// Relies on hidapi::HidDevice::read: fills `buf` with the next report
    /// from the device. The bytes are whatever the device sent — nothing is
    /// assumed of them — and a read sends nothing, so the log is unchanged.
    #[verifier::external_body]
    fn dev_read(&mut self, buf: &mut Vec<u8>) -> (r: Result<(), hidapi::HidError>)
        ensures
            final(self).sent_log() == old(self).sent_log(),
            final(buf)@.len() == old(buf)@.len(),
    {
        match self.dev.read(buf.as_mut_slice()) {
            Ok(_) => Ok(()),
            Err(e) => Err(e),
        }
    }

    /// Opens the one attached device that matches the fixed vendor/product
    /// identity and whose product string names it. Every failure on the way
    /// collapses to `FlashboyNotFound`; a fresh session has an empty log.
    pub fn open() -> (r: Result<FlashBoy, Error>)
        ensures
            r matches Ok(f) ==> f.sent_log() == Seq::<Seq<u8>>::empty(),
            r matches Err(e) ==> e is FlashboyNotFound,
    {
        let api = match hid_api_new() {
            Ok(a) => a,
            Err(e) => {
                return Err(Error::FlashboyNotFound(Some(e)));
            },
        };
        let dev = match hid_open(&api, VENDOR_ID, PRODUCT_ID) {
            Ok(d) => d,
            Err(e) => {
                return Err(Error::FlashboyNotFound(Some(e)));
            },
        };
        let name = match hid_product_string(&dev) {
            Ok(Some(n)) => n,
            Ok(None) => {
                return Err(Error::FlashboyNotFound(None));
            },
            Err(e) => {
                return Err(Error::FlashboyNotFound(Some(e)));
            },
        };
        if !product_string_matches(&name) {
            return Err(Error::FlashboyNotFound(None));
        }
        Ok(FlashBoy { dev, sent: Ghost(Seq::empty()) })
    }

    /// Sends the erase command and validates the device's echoed response.
    /// On success — and on a response mismatch, which still surfaces the
    /// actual echo byte — exactly the erase control packet was sent; the log
    /// only ever grows.
    pub fn erase(&mut self) -> (r: Result<(), Error>)
        ensures
            old(self).sent_log().is_prefix_of(final(self).sent_log()),
            r.is_ok() ==> final(self).sent_log() == old(self).sent_log().push(
                command_packet(Opcode::Erase),
            ),
            r matches Err(Error::UnexpectedEraseResponse { .. }) ==> final(self).sent_log()
                == old(self).sent_log().push(command_packet(Opcode::Erase)),
            r.is_err() ==> (r matches Err(Error::Transport(_)) || r matches Err(
                Error::UnexpectedEraseResponse { .. },
            )),
    {
        proof {
            lemma_prefix_of_extension(self.sent_log(), Seq::empty());
            assert(self.sent_log() + Seq::<Seq<u8>>::empty() =~= self.sent_log());
            lemma_prefix_of_extension(self.sent_log(), seq![command_packet(Opcode::Erase)]);
            assert(self.sent_log() + seq![command_packet(Opcode::Erase)] =~= self.sent_log().push(
                command_packet(Opcode::Erase),
            ));
        }
        let cmd = encode_command(Opcode::Erase);
        match self.dev_write(&cmd) {
            Ok(()) => {},
            Err(e) => {
                return Err(Error::Transport(e));
            },
        }
        let mut resp = blank_report();
        match self.dev_read(&mut resp) {
            Ok(()) => {},
            Err(e) => {
                return Err(Error::Transport(e));
            },
        }
        check_response(resp.as_slice(), Opcode::Erase)
    }

    /// Sends the start-program command. The protocol treats this as a
    /// fire-and-forget mode switch: no response is read or validated. On
    /// success exactly the start-program control packet was sent, and the
    /// returned token witnesses that programming mode was entered.
    pub fn init_prog(&mut self) -> (r: Result<WriteToken, Error>)
        ensures
            old(self).sent_log().is_prefix_of(final(self).sent_log()),
            r.is_ok() ==> final(self).sent_log() == old(self).sent_log().push(
                command_packet(Opcode::StartProg),
            ),
            r.is_err() ==> (r matches Err(Error::Transport(_)) && final(self).sent_log() == old(
                self,
            ).sent_log()),
    {
        proof {
            lemma_prefix_of_extension(self.sent_log(), Seq::empty());
            assert(self.sent_log() + Seq::<Seq<u8>>::empty() =~= self.sent_log());
            lemma_prefix_of_extension(self.sent_log(), seq![command_packet(Opcode::StartProg)]);
            assert(self.sent_log() + seq![command_packet(Opcode::StartProg)]
                =~= self.sent_log().push(command_packet(Opcode::StartProg)));
        }
        let cmd = encode_command(Opcode::StartProg);
        match self.dev_write(&cmd) {
            Ok(()) => Ok(WriteToken { _int: () }),
            Err(e) => Err(Error::Transport(e)),
        }
    }

    /// Transmits one 1024-byte chunk: a `Write1024` control packet, sixteen
    /// 64-byte payload packets, then one validated response. The write token
    /// from `init_prog` is required, so no chunk can be written before the
    /// mode switch. On success — and on a response mismatch — exactly the 17
    /// reports of `chunk_reports(buf)` were sent, in order; on a transport
    /// failure some prefix of them was.
    pub fn write_chunk(&mut self, _tok: &WriteToken, buf: &[u8]) -> (r: Result<(), Error>)
        requires
            buf@.len() == 1024,
        ensures
            old(self).sent_log().is_prefix_of(final(self).sent_log()),
            r.is_ok() ==> final(self).sent_log() == old(self).sent_log() + chunk_reports(buf@),
            r matches Err(Error::UnexpectedWriteResponse { .. }) ==> final(self).sent_log() == old(
                self,
            ).sent_log() + chunk_reports(buf@),
            r.is_err() ==> (r matches Err(Error::Transport(_)) || r matches Err(
                Error::UnexpectedWriteResponse { .. },
            )),
    {
        let ghost pre = self.sent_log();
        proof {
            lemma_prefix_of_extension(pre, Seq::empty());
            assert(pre + Seq::<Seq<u8>>::empty() =~= pre);
        }
        let cmd = encode_command(Opcode::Write1024);
        match self.dev_write(&cmd) {
            Ok(()) => {},
            Err(e) => {
                return Err(Error::Transport(e));
            },
        }
        proof {
            assert(self.sent_log() =~= pre + seq![command_packet(Opcode::Write1024)] + Seq::new(
                0nat,
                |j: int| payload_packet(buf@.subrange(64 * j, 64 * j + 64)),
            ));
        }
        let mut k: usize = 0;
        while k < 16
            invariant
                buf@.len() == 1024,
                k <= 16,
                pre == old(self).sent_log(),
                self.sent_log() == pre + seq![command_packet(Opcode::Write1024)] + Seq::new(
                    k as nat,
                    |j: int| payload_packet(buf@.subrange(64 * j, 64 * j + 64)),
                ),
            decreases 16 - k,
        {
            proof {
                lemma_prefix_of_extension(
                    pre,
                    seq![command_packet(Opcode::Write1024)] + Seq::new(
                        k as nat,
                        |j: int| payload_packet(buf@.subrange(64 * j, 64 * j + 64)),
                    ),
                );
                assert(pre + (seq![command_packet(Opcode::Write1024)] + Seq::new(
                    k as nat,
                    |j: int| payload_packet(buf@.subrange(64 * j, 64 * j + 64)),
                )) =~= self.sent_log());
            }
            let data = slice_subrange(buf, 64 * k, 64 * k + 64);
            let pkt = encode_payload(data);
            match self.dev_write(&pkt) {
                Ok(()) => {},
                Err(e) => {
                    return Err(Error::Transport(e));
                },
            }
            proof {
                assert(self.sent_log() =~= pre + seq![command_packet(Opcode::Write1024)]
                    + Seq::new(
                    (k + 1) as nat,
                    |j: int| payload_packet(buf@.subrange(64 * j, 64 * j + 64)),
                ));
            }
            k += 1;
        }
        proof {
            assert(self.sent_log() =~= pre + chunk_reports(buf@));
            lemma_prefix_of_extension(pre, chunk_reports(buf@));
        }
        let mut resp = blank_report();
        match self.dev_read(&mut resp) {
            Ok(()) => {},
            Err(e) => {
                return Err(Error::Transport(e));
            },
        }
        check_response(resp.as_slice(), Opcode::Write1024)
    }
}

/// The first `p` chunks of the transfer layout of `img`, in packet order.
pub open spec fn transfer_chunks(img: Seq<u8>, p: int) -> Seq<Seq<u8>>
    recommends
        0 <= p,
{
    Seq::new(p as nat, |i: int| chunk_spec(img, i))
}

/// One run of the ROM loader over a validated image: it streams the 1024
/// data bytes of each of the 2048 packets of the transfer, in packet order,
/// applying the header relocation where the image is short of 2 MiB.
pub struct ProgramRun {
    img: Vec<u8>,
    next: usize,
    log: Ghost<Seq<Seq<u8>>>,
}

impl ProgramRun {
    /// The image being transferred.
    pub closed spec fn image(&self) -> Seq<u8> {
        self.img@
    }

    /// How many of the 2048 packets have been handed out so far.
    pub closed spec fn sent(&self) -> int {
        self.next as int
    }

    /// Every chunk the run has handed out so far, in order.
    pub closed spec fn handed_out(&self) -> Seq<Seq<u8>> {
        self.log@
    }

    /// A run always holds a geometry-valid image, a packet position within
    /// the 2048-packet space, and a chunk log that is exactly the transfer
    /// layout up to that position.
    pub closed spec fn well_formed(&self) -> bool {
        &&& valid_image_len(self.img@.len() as int)
        &&& self.next <= 2048
        &&& self.log@ == transfer_chunks(self.img@, self.next as int)
    }

    /// Validates the image length and opens a run. An image outside the
    /// accepted geometry is rejected here, before anything exists that
    /// could reach the device.
    pub fn new(img: Vec<u8>) -> (r: Result<ProgramRun, Error>)
        ensures
            r.is_ok() <==> valid_image_len(img@.len() as int),
            r matches Err(e) ==> e is InvalidImage,
            r matches Ok(run) ==> (run.well_formed() && run.image() == img@ && run.sent() == 0
                && run.handed_out() == Seq::<Seq<u8>>::empty()),
    {
        if !validate_image_len(img.len() as u64) {
            return Err(Error::InvalidImage);
        }
        proof {
            assert(transfer_chunks(img@, 0) =~= Seq::<Seq<u8>>::empty());
        }
        Ok(ProgramRun { img, next: 0, log: Ghost(Seq::empty()) })
    }

    /// How many packets have been handed out, for progress display.
    pub fn packets_sent(&self) -> (r: usize)
        ensures
            r == self.sent(),
    {
        self.next
    }

    /// The 1024 data bytes of the next packet of the transfer, or `None`
    /// once all 2048 packets have been handed out.
    pub fn next_chunk(&mut self) -> (r: Option<Vec<u8>>)
        requires
            old(self).well_formed(),
        ensures
            final(self).well_formed(),
            final(self).image() == old(self).image(),
            old(self).sent() < 2048 ==> (r matches Some(chunk)
                && chunk@ == chunk_spec(old(self).image(), old(self).sent())
                && final(self).sent() == old(self).sent() + 1
                && final(self).handed_out() == old(self).handed_out().push(chunk@)),
            old(self).sent() == 2048 ==> r.is_none() && *final(self) == *old(self),
    {
        if self.next >= 2048 {
            return None;
        }
        let chunk = chunk_at(&self.img, self.next);
        proof {
            assert(transfer_chunks(self.img@, self.next + 1) =~= transfer_chunks(
                self.img@,
                self.next as int,
            ).push(chunk_spec(self.img@, self.next as int)));
        }
        let ghost new_log = self.log@.push(chunk@);
        self.log = Ghost(new_log);
        self.next = self.next + 1;
        Some(chunk)
    }
}

/// A run that reports all 2048 packets handed out has handed out exactly
/// the full transfer layout of its image — 2048 chunks of 1024 bytes each —
/// whatever the image length.
pub proof fn lemma_run_complete(run: &ProgramRun)
    requires
        run.well_formed(),
        run.sent() == 2048,
    ensures
        run.handed_out() == transfer_chunks(run.image(), 2048),
        run.handed_out().len() == 2048,
{
}

/// The reports that transmit the first `p` packets of the 2048-packet
/// transfer of `img`: 17 reports per packet, in packet order.
pub open spec fn transfer_reports(img: Seq<u8>, p: int) -> Seq<Seq<u8>>
    decreases p,
{
    if p <= 0 {
        Seq::empty()
    } else {
        transfer_reports(img, p - 1) + chunk_reports(chunk_spec(img, p - 1))
    }
}

/// A completed transfer sends exactly 2048 packets — 17 reports each —
/// whatever the length of the valid image being flashed.
pub proof fn lemma_transfer_total_packets(img: Seq<u8>)
    ensures
        transfer_reports(img, 2048).len() == 2048 * 17,
{
    lemma_transfer_reports_len(img, 2048);
}

proof fn lemma_transfer_reports_len(img: Seq<u8>, p: int)
    requires
        p >= 0,
    ensures
        transfer_reports(img, p).len() == p * 17,
    decreases p,
{
    if p > 0 {
        lemma_transfer_reports_len(img, p - 1);
    }
}

impl FlashBoy {
    /// Programs a full image: validates its length, erases the device,
    /// enters programming mode, and writes all 2048 packets of the relocated
    /// layout in order, aborting on the first failure. An invalid length is
    /// rejected before any report reaches the device. On success the
    /// session's log has grown by exactly the erase command, the start
    /// command, and the 2048 × 17 reports of the transfer.
    pub fn flash_rom(&mut self, img: &Vec<u8>) -> (r: Result<(), Error>)
        ensures
            old(self).sent_log().is_prefix_of(final(self).sent_log()),
            !valid_image_len(img@.len() as int) ==> (r == Err::<(), Error>(Error::InvalidImage)
                && final(self).sent_log() == old(self).sent_log()),
            r.is_ok() ==> (valid_image_len(img@.len() as int) && final(self).sent_log() == old(
                self,
            ).sent_log() + seq![
                command_packet(Opcode::Erase),
                command_packet(Opcode::StartProg),
            ] + transfer_reports(img@, 2048)),
            r matches Err(e) ==> !(e is FlashboyNotFound) && (e is InvalidImage
                ==> !valid_image_len(img@.len() as int)),
    {
        let ghost pre = self.sent_log();
        proof {
            lemma_prefix_of_extension(pre, Seq::empty());
            assert(pre + Seq::<Seq<u8>>::empty() =~= pre);
        }
        if !validate_image_len(img.len() as u64) {
            return Err(Error::InvalidImage);
        }
        match self.erase() {
            Ok(()) => {},
            Err(e) => {
                return Err(e);
            },
        }
        let tok = match self.init_prog() {
            Ok(t) => t,
            Err(e) => {
                return Err(e);
            },
        };
        proof {
            assert(self.sent_log() =~= pre + seq![
                command_packet(Opcode::Erase),
                command_packet(Opcode::StartProg),
            ] + transfer_reports(img@, 0));
        }
        let mut p: usize = 0;
        while p < 2048
            invariant
                valid_image_len(img@.len() as int),
                p <= 2048,
                pre == old(self).sent_log(),
                self.sent_log() == pre + seq![
                    command_packet(Opcode::Erase),
                    command_packet(Opcode::StartProg),
                ] + transfer_reports(img@, p as int),
            decreases 2048 - p,
        {
            proof {
                lemma_prefix_of_extension(
                    pre,
                    seq![
                        command_packet(Opcode::Erase),
                        command_packet(Opcode::StartProg),
                    ] + transfer_reports(img@, p as int),
                );
                assert(pre + (seq![
                    command_packet(Opcode::Erase),
                    command_packet(Opcode::StartProg),
                ] + transfer_reports(img@, p as int)) =~= self.sent_log());
            }
            let chunk = chunk_at(img, p);
            match self.write_chunk(&tok, chunk.as_slice()) {
                Ok(()) => {},
                Err(e) => {
                    return Err(e);
                },
            }
            proof {
                assert(self.sent_log() =~= pre + seq![
                    command_packet(Opcode::Erase),
                    command_packet(Opcode::StartProg),
                ] + transfer_reports(img@, p as int + 1));
            }
            p += 1;
        }
        proof {
            lemma_prefix_of_extension(
                pre,
                seq![
                    command_packet(Opcode::Erase),
                    command_packet(Opcode::StartProg),
                ] + transfer_reports(img@, 2048),
            );
            assert(pre + (seq![
                command_packet(Opcode::Erase),
                command_packet(Opcode::StartProg),
            ] + transfer_reports(img@, 2048)) =~= self.sent_log());
        }
        Ok(())
    }
}

} // verus!
