//! What the USB sink for the TM-T20III (`04b8:0e28`) decides, apart from the
//! transfers themselves: the port status bits, which device is the printer,
//! and how bulk IN packets are handed out to readers.
//!
//! A packet is buffered whole; a read takes what fits and leaves the rest
//! for the next read. A zero-length packet is a packet boundary, not the
//! end of the stream.

use vstd::prelude::*;

use crate::{PID, VID};

verus! {

/// The `GET_PORT_STATUS` byte of the printer class, with its three flags.
#[derive(Debug, Clone, Copy, PartialEq, Eq, Structural)]
pub struct PortStatus {
    pub byte: u8,
    pub not_error: bool,
    pub selected: bool,
    pub paper_empty: bool,
}

impl PortStatus {
    pub fn from_byte(byte: u8) -> (s: Self)
        ensures
            s.byte == byte,
            s.not_error == ((byte / 8) % 2 == 1),
            s.selected == ((byte / 16) % 2 == 1),
            s.paper_empty == ((byte / 32) % 2 == 1),
    {
        let not_error = (byte >> 3) & 1 == 1;
        let selected = (byte >> 4) & 1 == 1;
        let paper_empty = (byte >> 5) & 1 == 1;
        assert(((byte >> 3) & 1 == 1) == ((byte / 8) % 2 == 1)) by (bit_vector);
        assert(((byte >> 4) & 1 == 1) == ((byte / 16) % 2 == 1)) by (bit_vector);
        assert(((byte >> 5) & 1 == 1) == ((byte / 32) % 2 == 1)) by (bit_vector);
        PortStatus { byte, not_error, selected, paper_empty }
    }
}

/// A USB device as the bus lists it.
#[derive(Debug, Clone)]
pub struct UsbDeviceInfo {
    pub vid: u16,
    pub pid: u16,
    pub bus_id: String,
    pub address: u8,
    pub manufacturer: Option<String>,
    pub product: Option<String>,
    pub serial: Option<String>,
}

impl UsbDeviceInfo {
    pub fn is_tm20(&self) -> (r: bool)
        ensures
            r == (self.vid == VID && self.pid == PID),
    {
        self.vid == VID && self.pid == PID
    }
}

/// `true` for the printer the user asked for: the TM-T20III's vendor and
/// product id and, when a serial number is wanted, that serial number.
pub fn device_matches(vid: u16, pid: u16, serial: Option<&str>, want: Option<&str>) -> (r: bool)
    ensures
        r == (vid == VID && pid == PID && match want {
            None => true,
            Some(w) => serial matches Some(s) && s@ == w@,
        }),
{
    if vid != VID || pid != PID {
        return false;
    }
    match want {
        None => true,
        Some(w) => match serial {
            Some(s) => crate::text::same_text(s, w),
            None => false,
        },
    }
}

/// Move the buffered bytes that fit into `buf` to its front; the rest stay
/// buffered in order.
pub fn take_unread(unread: &mut Vec<u8>, buf: &mut [u8]) -> (n: usize)
    ensures
        n == if old(unread)@.len() < old(buf)@.len() {
            old(unread)@.len()
        } else {
            old(buf)@.len()
        },
        final(buf)@.len() == old(buf)@.len(),
        final(buf)@.take(n as int) == old(unread)@.take(n as int),
        final(buf)@.skip(n as int) == old(buf)@.skip(n as int),
        final(unread)@ == old(unread)@.skip(n as int),
{
    let n = if unread.len() < buf.len() {
        unread.len()
    } else {
        buf.len()
    };
    if n == 0 {
        assert(unread@.skip(0) =~= unread@);
        assert(buf@.take(0) =~= unread@.take(0));
        assert(buf@.skip(0) =~= buf@);
        return 0;
    }
    let mut i: usize = 0;
    while i < n
        invariant
            n <= unread@.len(),
            n <= buf@.len(),
            unread@ == old(unread)@,
            buf@.len() == old(buf)@.len(),
            i <= n,
            forall|j: int| 0 <= j < i ==> buf@[j] == unread@[j],
            forall|j: int| n <= j < buf@.len() ==> buf@[j] == old(buf)@[j],
        decreases n - i,
    {
        buf[i] = unread[i];
        i = i + 1;
    }
    let rest = unread.split_off(n);
    *unread = rest;
    assert(buf@.take(n as int) =~= old(unread)@.take(n as int));
    assert(buf@.skip(n as int) =~= old(buf)@.skip(n as int));
    assert(unread@ =~= old(unread)@.skip(n as int));
    n
}

/// One step of a bulk IN read: `Some(n)` when the read is answered from the
/// buffer (some bytes were there, or nothing was asked for), `None` when the
/// buffer was empty and the next packet must be fetched into it.
pub fn read_step(unread: &mut Vec<u8>, buf: &mut [u8]) -> (r: Option<usize>)
    ensures
        old(unread)@.len() > 0 || old(buf)@.len() == 0 ==> (r matches Some(n) && n == if old(
            unread,
        )@.len() < old(buf)@.len() {
            old(unread)@.len()
        } else {
            old(buf)@.len()
        }),
        old(unread)@.len() == 0 && old(buf)@.len() > 0 ==> r is None,
        final(buf)@.len() == old(buf)@.len(),
        r matches Some(n) ==> final(buf)@.take(n as int) == old(unread)@.take(n as int)
            && final(unread)@ == old(unread)@.skip(n as int),
        r is None ==> final(unread)@ == old(unread)@ && final(buf)@ == old(buf)@,
{
    let n = take_unread(unread, buf);
    if n > 0 || buf.len() == 0 {
        Some(n)
    } else {
        assert(unread@ =~= old(unread)@);
        assert(buf@.skip(0) =~= buf@);
        assert(old(buf)@.skip(0) =~= old(buf)@);
        assert(buf@ =~= old(buf)@);
        None
    }
}

/// The USB printer interface class.
pub const PRINTER_CLASS: u8 = 7;

/// A bulk endpoint of an interface setting.
#[derive(Debug, Clone, Copy, PartialEq, Eq, Structural)]
pub struct BulkEndpoint {
    pub address: u8,
    /// `true` for IN (device to host), `false` for OUT.
    pub inbound: bool,
}

/// One alternate setting of an interface, with its bulk endpoints in
/// descriptor order.
#[derive(Debug, Clone, PartialEq, Eq)]
pub struct InterfaceSetting {
    pub interface: u8,
    pub alternate: u8,
    pub class: u8,
    pub bulk: Vec<BulkEndpoint>,
}

/// The interface that a sink claims: its number, bulk OUT, and optional bulk IN.
#[derive(Debug, Clone, Copy, PartialEq, Eq, Structural)]
pub struct Claim {
    pub interface: u8,
    pub out: u8,
    pub inp: Option<u8>,
}

/// The last bulk endpoint of `bulk` in the given direction.
pub open spec fn last_bulk(bulk: Seq<BulkEndpoint>, inbound: bool) -> Option<u8>
    decreases bulk.len(),
{
    if bulk.len() == 0 {
        None
    } else if bulk.last().inbound == inbound {
        Some(bulk.last().address)
    } else {
        last_bulk(bulk.drop_last(), inbound)
    }
}

/// The claim a setting offers: a default (`0`) alternate with a bulk OUT.
pub open spec fn offered(s: InterfaceSetting) -> Option<Claim> {
    if s.alternate != 0 {
        None
    } else {
        match last_bulk(s.bulk@, false) {
            None => None,
            Some(out) => Some(Claim { interface: s.interface, out, inp: last_bulk(s.bulk@, true) }),
        }
    }
}

/// The choice among the first `n` settings: the first offered printer-class
/// setting, else the first offered setting of any class.
pub open spec fn chosen(settings: Seq<InterfaceSetting>, n: int) -> Option<(Claim, bool)>
    decreases n,
{
    if n <= 0 {
        None
    } else {
        let before = chosen(settings, n - 1);
        match offered(settings[n - 1]) {
            None => before,
            Some(c) => {
                let printer = settings[n - 1].class == PRINTER_CLASS;
                match before {
                    None => Some((c, printer)),
                    Some((_, true)) => before,
                    Some((_, false)) => if printer {
                        Some((c, true))
                    } else {
                        before
                    },
                }
            },
        }
    }
}

fn last_bulk_of(bulk: &Vec<BulkEndpoint>, inbound: bool) -> (r: Option<u8>)
    ensures
        r == last_bulk(bulk@, inbound),
{
    let mut found: Option<u8> = None;
    let mut i: usize = 0;
    while i < bulk.len()
        invariant
            i <= bulk@.len(),
            found == last_bulk(bulk@.take(i as int), inbound),
        decreases bulk@.len() - i,
    {
        proof {
            assert(bulk@.take(i + 1).drop_last() =~= bulk@.take(i as int));
        }
        if bulk[i].inbound == inbound {
            found = Some(bulk[i].address);
        }
        i = i + 1;
    }
    assert(bulk@.take(i as int) =~= bulk@);
    found
}

/// Pick the interface to claim: prefer the printer class, require a bulk OUT
/// endpoint, and take an IN endpoint when there is one.
pub fn choose_interface(settings: &Vec<InterfaceSetting>) -> (r: Option<Claim>)
    ensures
        r == match chosen(settings@, settings@.len() as int) {
            Some((c, _)) => Some(c),
            None => None::<Claim>,
        },
{
    let mut best: Option<(Claim, bool)> = None;
    let mut i: usize = 0;
    while i < settings.len()
        invariant
            i <= settings@.len(),
            best == chosen(settings@, i as int),
        decreases settings@.len() - i,
    {
        let s = &settings[i];
        if s.alternate == 0 {
            match last_bulk_of(&s.bulk, false) {
                Some(out) => {
                    let c = Claim { interface: s.interface, out, inp: last_bulk_of(&s.bulk, true) };
                    let printer = s.class == PRINTER_CLASS;
                    best = match best {
                        None => Some((c, printer)),
                        Some((b, true)) => Some((b, true)),
                        Some((b, false)) => if printer {
                            Some((c, true))
                        } else {
                            Some((b, false))
                        },
                    };
                },
                None => {},
            }
        }
        i = i + 1;
    }
    match best {
        Some((c, _)) => Some(c),
        None => None,
    }
}

} // verus!
