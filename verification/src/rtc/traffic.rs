//! Header-only traffic accounting before decryption. Never used to accept or
//! reject a packet; authentication and protocol demux remain the RTC stack's job.
use vstd::prelude::*;
use crate::rtc::reorder::elapsed;
use crate::rtc::congestion::sat_add;
use crate::text::{decimal, push_decimal, push_str};

verus! {

pub const CLASSES: usize = 6;

/// Datagram class from its first header bytes: 0 RTP, 1 RTCP, 2 DTLS, 3 STUN
/// request/indication, 4 STUN response, 5 other.
pub open spec fn traffic_class(p: Seq<u8>) -> usize {
    if p.len() >= 20 && p[0] & 0xc0 == 0 && p[4] == 0x21 && p[5] == 0x12 && p[6] == 0xa4 && p[7] == 0x42 {
        // STUN request/indication vs success/error response (class C1 bit).
        if p[0] & 1 == 0 { 3 } else { 4 }
    } else if p.len() >= 13 && 20 <= p[0] <= 63 {
        2
    } else if p.len() >= 8 && p[0] >> 6 == 2 && 192 <= p[1] <= 223 {
        1
    } else if p.len() >= 12 && p[0] >> 6 == 2 {
        0
    } else {
        5
    }
}

/// Classify a datagram by its header only.
pub fn class(packet: &[u8]) -> (class: usize)
    ensures
        class == traffic_class(packet@),
        class < CLASSES,
{
    let n = packet.len();
    if n >= 20 && packet[0] & 0xc0 == 0 && packet[4] == 0x21 && packet[5] == 0x12 && packet[6] == 0xa4
        && packet[7] == 0x42 {
        return if packet[0] & 1 == 0 { 3 } else { 4 };
    }
    if n >= 13 && 20 <= packet[0] && packet[0] <= 63 {
        return 2;
    }
    if n >= 8 && packet[0] >> 6 == 2 {
        if 192 <= packet[1] && packet[1] <= 223 {
            return 1;
        }
        if n >= 12 {
            return 0;
        }
    }
    5
}

/// Counters of one class in one direction.
#[derive(Clone, Copy)]
pub struct Counter {
    pub bytes: u64,
    pub packets: u64,
    pub work_us: u64,
    pub max_us: u64,
}

pub open spec fn zero_counter() -> Counter {
    Counter { bytes: 0, packets: 0, work_us: 0, max_us: 0 }
}

pub open spec fn label_text(i: int) -> Seq<char> {
    if i == 0 { "RTP"@ } else if i == 1 { "RTCP"@ } else if i == 2 { "DTLS"@ }
    else if i == 3 { "STUNq"@ } else if i == 4 { "STUNr"@ } else { "other"@ }
}

fn label(i: usize) -> (name: &'static str)
    ensures
        name@ == label_text(i as int),
{
    if i == 0 { "RTP" } else if i == 1 { "RTCP" } else if i == 2 { "DTLS" }
    else if i == 3 { "STUNq" } else if i == 4 { "STUNr" } else { "other" }
}

/// Kilobits per second of `bytes` over `ms` milliseconds.
pub open spec fn kbps(bytes: u64, ms: u64) -> nat {
    (bytes as nat * 8 / ms as nat) as nat
}

/// Received counters: ` name:kbps/packets/workMs/maxUs` for the first `n` classes.
pub open spec fn rx_text(counters: Seq<Counter>, ms: u64, n: nat) -> Seq<char>
    decreases n,
{
    if n == 0 {
        Seq::empty()
    } else {
        rx_text(counters, ms, (n - 1) as nat) + rx_piece(counters[n - 1], n - 1, ms)
    }
}

pub open spec fn rx_piece(c: Counter, i: int, ms: u64) -> Seq<char> {
    " "@ + label_text(i) + ":"@ + decimal(kbps(c.bytes, ms)) + "/"@ + decimal(c.packets as nat) + "/"@
        + decimal((c.work_us / 1000) as nat) + "/"@ + decimal(c.max_us as nat)
}

pub open spec fn tx_piece(c: Counter, i: int, ms: u64) -> Seq<char> {
    " "@ + label_text(i) + ":"@ + decimal(kbps(c.bytes, ms)) + "/"@ + decimal(c.packets as nat)
}

fn push_rx_piece(text: &mut String, c: Counter, i: usize, ms: u64)
    requires
        ms >= 1,
    ensures
        final(text)@ == old(text)@ + rx_piece(c, i as int, ms),
{
    push_str(text, " ");
    push_str(text, label(i));
    push_str(text, ":");
    push_decimal(text, (c.bytes as u128) * 8 / (ms as u128));
    push_str(text, "/");
    push_decimal(text, c.packets as u128);
    push_str(text, "/");
    push_decimal(text, (c.work_us / 1000) as u128);
    push_str(text, "/");
    push_decimal(text, c.max_us as u128);
    assert(final(text)@ =~= old(text)@ + rx_piece(c, i as int, ms));
}

fn push_tx_piece(text: &mut String, c: Counter, i: usize, ms: u64)
    requires
        ms >= 1,
    ensures
        final(text)@ == old(text)@ + tx_piece(c, i as int, ms),
{
    push_str(text, " ");
    push_str(text, label(i));
    push_str(text, ":");
    push_decimal(text, (c.bytes as u128) * 8 / (ms as u128));
    push_str(text, "/");
    push_decimal(text, c.packets as u128);
    assert(final(text)@ =~= old(text)@ + tx_piece(c, i as int, ms));
}

/// Sent counters: ` name:kbps/packets` for the first `n` classes.
pub open spec fn tx_text(counters: Seq<Counter>, ms: u64, n: nat) -> Seq<char>
    decreases n,
{
    if n == 0 {
        Seq::empty()
    } else {
        tx_text(counters, ms, (n - 1) as nat) + tx_piece(counters[n - 1], n - 1, ms)
    }
}

/// Wire traffic counters since `started_us`.
pub struct Traffic {
    started_us: u64,
    rx: Vec<Counter>,
    tx: Vec<Counter>,
}

impl Traffic {
    pub closed spec fn started(&self) -> u64 {
        self.started_us
    }

    /// Start of the current window.
    pub fn started_us(&self) -> (at: u64)
        ensures
            at == self.started(),
    {
        self.started_us
    }

    pub closed spec fn rx(&self) -> Seq<Counter> {
        self.rx@
    }

    pub closed spec fn tx(&self) -> Seq<Counter> {
        self.tx@
    }

    pub open spec fn wf(&self) -> bool {
        self.rx().len() == CLASSES && self.tx().len() == CLASSES
    }

    fn zeros() -> (counters: Vec<Counter>)
        ensures
            counters@ == Seq::new(CLASSES as nat, |i: int| zero_counter()),
    {
        let mut counters = Vec::new();
        let mut k: usize = 0;
        while k < CLASSES
            invariant
                k <= CLASSES,
                counters@ == Seq::new(k as nat, |i: int| zero_counter()),
            decreases CLASSES - k,
        {
            counters.push(Counter { bytes: 0, packets: 0, work_us: 0, max_us: 0 });
            k += 1;
            assert(counters@ =~= Seq::new(k as nat, |i: int| zero_counter()));
        }
        counters
    }

    pub fn new(now_us: u64) -> (traffic: Self)
        ensures
            traffic.wf(),
            traffic.started() == now_us,
            traffic.rx() == Seq::new(CLASSES as nat, |i: int| zero_counter()),
            traffic.tx() == Seq::new(CLASSES as nat, |i: int| zero_counter()),
    {
        Traffic { started_us: now_us, rx: Self::zeros(), tx: Self::zeros() }
    }

    /// Count a received datagram and the time spent processing it.
    pub fn received(&mut self, packet: &[u8], processing_us: u64)
        requires
            old(self).wf(),
        ensures
            final(self).wf(),
            final(self).started() == old(self).started(),
            final(self).tx() == old(self).tx(),
            ({
                let k = traffic_class(packet@) as int;
                let c = old(self).rx()[k];
                final(self).rx() == old(self).rx().update(k, Counter {
                    bytes: sat_add(c.bytes, packet@.len() as u64),
                    packets: sat_add(c.packets, 1),
                    work_us: sat_add(c.work_us, processing_us),
                    max_us: if processing_us > c.max_us { processing_us } else { c.max_us },
                })
            }),
    {
        let k = class(packet);
        let c = self.rx[k];
        let updated = Counter {
            bytes: c.bytes.saturating_add(packet.len() as u64),
            packets: c.packets.saturating_add(1),
            work_us: c.work_us.saturating_add(processing_us),
            max_us: if processing_us > c.max_us { processing_us } else { c.max_us },
        };
        self.rx.set(k, updated);
    }

    /// Count a sent datagram.
    pub fn sent(&mut self, packet: &[u8])
        requires
            old(self).wf(),
        ensures
            final(self).wf(),
            final(self).started() == old(self).started(),
            final(self).rx() == old(self).rx(),
            ({
                let k = traffic_class(packet@) as int;
                let c = old(self).tx()[k];
                final(self).tx() == old(self).tx().update(k, Counter {
                    bytes: sat_add(c.bytes, packet@.len() as u64),
                    packets: sat_add(c.packets, 1),
                    ..c
                })
            }),
    {
        let k = class(packet);
        let c = self.tx[k];
        let updated = Counter { bytes: c.bytes.saturating_add(packet.len() as u64), packets: c.packets.saturating_add(1), ..c };
        self.tx.set(k, updated);
    }

    /// Report the window since the last summary and start a new one at `now_us`.
    pub fn take_summary(&mut self, now_us: u64) -> (text: String)
        requires
            old(self).wf(),
        ensures
            final(self).wf(),
            final(self).started() == now_us,
            final(self).rx() == Seq::new(CLASSES as nat, |i: int| zero_counter()),
            final(self).tx() == Seq::new(CLASSES as nat, |i: int| zero_counter()),
            ({
                let window = elapsed(now_us, old(self).started()) / 1000;
                let ms = if window > 1 { window } else { 1 };
                text@ == "Wire RX kbps/pk/workMs/maxUs:"@ + rx_text(old(self).rx(), ms, CLASSES as nat)
                    + "\nWire TX kbps/pk:"@ + tx_text(old(self).tx(), ms, CLASSES as nat)
            }),
    {
        let window: u64 = (if now_us >= self.started_us { now_us - self.started_us } else { 0 }) / 1000;
        let ms: u64 = if window > 1 { window } else { 1 };
        let mut text = String::new();
        push_str(&mut text, "Wire RX kbps/pk/workMs/maxUs:");
        let ghost head = text@;
        let mut k: usize = 0;
        while k < CLASSES
            invariant
                k <= CLASSES,
                ms >= 1,
                self.wf(),
                text@ == head + rx_text(self.rx(), ms, k as nat),
            decreases CLASSES - k,
        {
            push_rx_piece(&mut text, self.rx[k], k, ms);
            k += 1;
            proof {
                assert(text@ =~= head + rx_text(self.rx(), ms, k as nat));
            }
        }
        push_str(&mut text, "\nWire TX kbps/pk:");
        let ghost middle = text@;
        let mut k: usize = 0;
        while k < CLASSES
            invariant
                k <= CLASSES,
                ms >= 1,
                self.wf(),
                text@ == middle + tx_text(self.tx(), ms, k as nat),
            decreases CLASSES - k,
        {
            push_tx_piece(&mut text, self.tx[k], k, ms);
            k += 1;
            proof {
                assert(text@ =~= middle + tx_text(self.tx(), ms, k as nat));
            }
        }
        self.rx = Self::zeros();
        self.tx = Self::zeros();
        self.started_us = now_us;
        text
    }
}

} // verus!
