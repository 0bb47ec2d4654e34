//! Choosing buffers and flush points when copying a stream, from its expected
//! size or from a first sample of it, for the platform the copy runs on.

use vstd::prelude::*;
use crate::text::{append_decimal, append_str, decimal, string_from};

verus! {

/// Below this expected size a copy uses the small default buffer.
pub const SMALL_FILE_THRESHOLD: usize = 256 * 1024;

/// Size of the first sample read from a stream of unknown size.
pub const INITIAL_SAMPLE_SIZE: usize = 32 * 1024;

/// Smallest buffer used for a stream of unknown size.
pub const MIN_BUFFER_SIZE: usize = 8 * 1024;

/// The operating system a copy runs on; the best buffer sizes differ.
#[derive(Debug, Clone, Copy, PartialEq, Eq, Structural)]
pub enum Platform {
    Linux,
    MacOs,
    Windows,
    /// Any other system.
    Other,
}

/// The buffer for a large copy: 256 KiB on macOS and Windows, 128 KiB on
/// Linux and elsewhere.
pub open spec fn large_buffer_size(platform: Platform) -> int {
    if platform == Platform::MacOs || platform == Platform::Windows {
        262144int
    } else {
        131072int
    }
}

/// The buffer for a copy of the expected size: 8 KiB below 256 KiB; from
/// there on 256 KiB on macOS and Windows, 128 KiB on Linux and elsewhere.
pub fn optimal_buffer_size(data_size: usize, platform: Platform) -> (r: usize)
    ensures
        r == (if data_size < SMALL_FILE_THRESHOLD {
            8 * 1024int
        } else {
            large_buffer_size(platform)
        }),
{
    if data_size < SMALL_FILE_THRESHOLD {
        8 * 1024
    } else {
        match platform {
            Platform::MacOs | Platform::Windows => 256 * 1024,
            _ => 128 * 1024,
        }
    }
}

/// A byte count in whole mebibytes, kibibytes or bytes.
pub open spec fn size_text(bytes: nat) -> Seq<char> {
    if bytes >= 1024 * 1024 {
        decimal(bytes / (1024 * 1024)) + "MB"@
    } else if bytes >= 1024 {
        decimal(bytes / 1024) + "KB"@
    } else {
        decimal(bytes) + "B"@
    }
}

/// A byte count in whole mebibytes, kibibytes or bytes, rounded down.
pub fn format_size(bytes: usize) -> (r: String)
    ensures
        r@ == size_text(bytes as nat),
{
    if bytes >= 1024 * 1024 {
        let mut r = String::new();
        append_decimal(&mut r, (bytes / (1024 * 1024)) as u64);
        append_str(&mut r, "MB");
        r
    } else if bytes >= 1024 {
        let mut r = String::new();
        append_decimal(&mut r, (bytes / 1024) as u64);
        append_str(&mut r, "KB");
        r
    } else {
        let mut r = String::new();
        append_decimal(&mut r, bytes as u64);
        append_str(&mut r, "B");
        r
    }
}

/// Bytes written between two flushes of a bulk copy: 4 MiB with a buffer of
/// 256 KiB or more, 2 MiB otherwise.
pub fn bulk_flush_interval(buffer_size: usize) -> (r: u64)
    ensures
        r == (if buffer_size >= 256 * 1024 {
            4 * 1024 * 1024
        } else {
            2 * 1024 * 1024
        }),
{
    if buffer_size >= 256 * 1024 {
        4 * 1024 * 1024
    } else {
        2 * 1024 * 1024
    }
}

/// How a stream of unknown size is copied, from what its first sample showed.
#[derive(Debug, Clone, Copy, PartialEq, Eq, Structural)]
pub enum TransferStrategy {
    /// Small packets: low latency first.
    SmallPacket { buffer_size: usize },
    /// Bursts: a medium buffer, flushed often.
    BurstTraffic { buffer_size: usize, flush_interval: usize },
    /// A continuous stream: a large buffer, flushed in bulk.
    ContinuousStream { buffer_size: usize, flush_interval: usize },
}

/// The strategy for a stream whose first sample had `sample_size` bytes:
/// the stream ended within the sample, or the sample was under 16 KiB, under
/// 64 KiB, or larger. Linux uses smaller buffers for bursts and streams than
/// the other systems.
pub fn analyze_traffic_pattern(sample: &[u8], sample_size: usize, is_eos: bool, platform: Platform) -> (r:
    TransferStrategy)
    ensures
        is_eos ==> (r == (TransferStrategy::SmallPacket { buffer_size: MIN_BUFFER_SIZE })),
        !is_eos && sample_size < 16 * 1024 ==> (r == (TransferStrategy::SmallPacket {
            buffer_size: 16384usize,
        })),
        !is_eos && 16 * 1024 <= sample_size < 64 * 1024 && platform == Platform::Linux ==> (r == (
        TransferStrategy::BurstTraffic { buffer_size: 65536usize, flush_interval: 131072usize })),
        !is_eos && 16 * 1024 <= sample_size < 64 * 1024 && platform != Platform::Linux ==> (r == (
        TransferStrategy::BurstTraffic { buffer_size: 131072usize, flush_interval: 262144usize })),
        !is_eos && sample_size >= 64 * 1024 && platform == Platform::Linux ==> (r == (
        TransferStrategy::ContinuousStream { buffer_size: 131072usize, flush_interval: 4194304usize })),
        !is_eos && sample_size >= 64 * 1024 && platform != Platform::Linux ==> (r == (
        TransferStrategy::ContinuousStream { buffer_size: 262144usize, flush_interval: 4194304usize })),
{
    if is_eos {
        return TransferStrategy::SmallPacket { buffer_size: MIN_BUFFER_SIZE };
    }
    let linux = match platform {
        Platform::Linux => true,
        _ => false,
    };
    if sample_size < 16 * 1024 {
        TransferStrategy::SmallPacket { buffer_size: 16 * 1024 }
    } else if sample_size < 64 * 1024 {
        if linux {
            TransferStrategy::BurstTraffic { buffer_size: 64 * 1024, flush_interval: 128 * 1024 }
        } else {
            TransferStrategy::BurstTraffic { buffer_size: 128 * 1024, flush_interval: 256 * 1024 }
        }
    } else if linux {
        TransferStrategy::ContinuousStream { buffer_size: 128 * 1024, flush_interval: 4 * 1024 * 1024 }
    } else {
        TransferStrategy::ContinuousStream { buffer_size: 256 * 1024, flush_interval: 4 * 1024 * 1024 }
    }
}

/// Buffer size, bytes between flushes, and whether a short read also
/// flushes, for a strategy.
pub open spec fn plan_of(s: TransferStrategy) -> (usize, usize, bool) {
    match s {
        TransferStrategy::SmallPacket { buffer_size } => (buffer_size, buffer_size, true),
        TransferStrategy::BurstTraffic { buffer_size, flush_interval } => (buffer_size, flush_interval, true),
        TransferStrategy::ContinuousStream { buffer_size, flush_interval } => (
            buffer_size,
            flush_interval,
            false,
        ),
    }
}

/// Where a copy stands: bytes written, and bytes written at the last flush.
#[derive(Debug, Clone, Copy, PartialEq, Eq, Structural)]
pub struct CopyProgress {
    pub total: u64,
    pub last_flush: u64,
    /// Bytes written between two flushes.
    pub flush_interval: u64,
    /// Whether a read shorter than the buffer also flushes.
    pub flush_on_short_read: bool,
}

impl CopyProgress {
    /// A copy that starts after `already` bytes were written and flushed.
    pub fn new(already: u64, flush_interval: u64, flush_on_short_read: bool) -> (r: Self)
        ensures
            r.total == already,
            r.last_flush == already,
            r.flush_interval == flush_interval,
            r.flush_on_short_read == flush_on_short_read,
    {
        CopyProgress { total: already, last_flush: already, flush_interval, flush_on_short_read }
    }

    /// The progress of a bulk copy with the given buffer.
    pub fn for_bulk_copy(buffer_size: usize) -> (r: Self)
        ensures
            r.total == 0 && r.last_flush == 0,
            r.flush_interval == (if buffer_size >= 256 * 1024 {
                4 * 1024 * 1024
            } else {
                2 * 1024 * 1024
            }),
            r.flush_on_short_read,
    {
        CopyProgress::new(0, bulk_flush_interval(buffer_size), true)
    }

    /// The progress of a copy following a strategy, after the sample's
    /// `already` bytes were written.
    pub fn for_strategy(s: TransferStrategy, already: u64) -> (r: Self)
        ensures
            r.total == already && r.last_flush == already,
            r.flush_interval == plan_of(s).1,
            r.flush_on_short_read == plan_of(s).2,
    {
        match s {
            TransferStrategy::SmallPacket { buffer_size } => CopyProgress::new(already, buffer_size as u64, true),
            TransferStrategy::BurstTraffic { buffer_size, flush_interval } => CopyProgress::new(
                already,
                flush_interval as u64,
                true,
            ),
            TransferStrategy::ContinuousStream { buffer_size, flush_interval } => CopyProgress::new(
                already,
                flush_interval as u64,
                false,
            ),
        }
    }

    /// `n` bytes were read into a buffer of `buffer_len` and written out;
    /// tells whether to flush now (a full interval since the last flush, or a
    /// short read when those flush).
    pub fn after_write(&mut self, n: u64, buffer_len: u64) -> (flush: bool)
        requires
            old(self).last_flush <= old(self).total,
            old(self).total + n <= u64::MAX,
        ensures
            final(self).total == old(self).total + n,
            final(self).flush_interval == old(self).flush_interval,
            final(self).flush_on_short_read == old(self).flush_on_short_read,
            flush == (final(self).total - old(self).last_flush >= old(self).flush_interval || (old(
                self,
            ).flush_on_short_read && n < buffer_len)),
            flush ==> final(self).last_flush == final(self).total,
            !flush ==> final(self).last_flush == old(self).last_flush,
            final(self).last_flush <= final(self).total,
            final(self).last_flush == final(self).total || final(self).total - final(self).last_flush
                < final(self).flush_interval,
    {
        self.total = self.total + n;
        let flush = self.total - self.last_flush >= self.flush_interval || (self.flush_on_short_read && n
            < buffer_len);
        if flush {
            self.last_flush = self.total;
        }
        flush
    }

    /// At the end of the stream: flush when something was written since the
    /// last flush.
    pub fn at_end(&self) -> (flush: bool)
        ensures
            flush == (self.last_flush < self.total),
    {
        self.last_flush < self.total
    }
}

/// What reading the first sample of a stream has come to.
#[derive(Debug, Clone, Copy, PartialEq, Eq, Structural)]
pub enum SampleState {
    /// Keep reading; this many bytes so far.
    Reading(usize),
    /// The sample is complete: this many bytes, and whether the stream ended.
    Done { size: usize, ended: bool },
}

/// After `total_read` sample bytes a read gave `n` more (0 at the end of the
/// stream): the sample is done at the end of the stream or once it holds 32
/// KiB.
pub fn after_sample_read(total_read: usize, n: usize) -> (r: SampleState)
    requires
        total_read < INITIAL_SAMPLE_SIZE,
        n <= INITIAL_SAMPLE_SIZE - total_read,
    ensures
        n == 0 ==> (r == (SampleState::Done { size: total_read, ended: true })),
        n > 0 && total_read + n >= INITIAL_SAMPLE_SIZE ==> (r == (SampleState::Done {
            size: (total_read + n) as usize,
            ended: false,
        })),
        n > 0 && total_read + n < INITIAL_SAMPLE_SIZE ==> (r == SampleState::Reading(
            (total_read + n) as usize,
        )),
{
    if n == 0 {
        return SampleState::Done { size: total_read, ended: true };
    }
    let t = total_read + n;
    if t >= INITIAL_SAMPLE_SIZE {
        SampleState::Done { size: t, ended: false }
    } else {
        SampleState::Reading(t)
    }
}

} // verus!
