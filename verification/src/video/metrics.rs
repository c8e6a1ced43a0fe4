//! The once-per-second video pipeline summary, from one reading of the counters.
use vstd::prelude::*;
use crate::text::{decimal, push_decimal, push_str};

verus! {

/// One reading of the video pipeline counters: the per-second ones as they were
/// reset, the running ones as they stand.
#[derive(Clone, Copy, Debug)]
pub struct MetricsSnapshot {
    pub rtp_assembly_sum_us: u64,
    pub rtp_assembly_count: u64,
    pub rtp_assembly_max_us: u64,
    /// Decoded picture size, width in the high and height in the low 32 bits; 0 unknown.
    pub picture_dimensions: u64,
    pub au_queue_depth: u64,
    pub au_queue_max: u64,
    pub au_age_sum_us: u64,
    pub au_age_count: u64,
    pub au_age_max_us: u64,
    pub render_wait_sum_us: u64,
    pub render_wait_count: u64,
    pub render_wait_max_us: u64,
    pub render_backlog: u64,
    pub texture_superseded: u64,
    pub handoff_replaced: u64,
    pub stale_generation: u64,
    pub decoder_unavailable: u64,
    pub decode_calls: u64,
    pub no_picture: u64,
    pub decoded: u64,
    pub skipped: u64,
    pub presented: u64,
    pub replaced: u64,
    pub queue_full: u64,
    pub resyncs: u64,
    pub resets: u64,
}

/// Average in whole milliseconds of microsecond samples; none counts as zero.
pub open spec fn average_ms(sum_us: u64, count: u64) -> nat {
    (if count == 0 { 0 } else { sum_us / count }) as nat / 1000
}

pub open spec fn picture_size_text(dimensions: u64) -> Seq<char> {
    if dimensions == 0 {
        "?"@
    } else {
        decimal((dimensions / 0x1_0000_0000) as nat) + "x"@ + decimal((dimensions % 0x1_0000_0000) as nat)
    }
}

/// Three lines: the decode queue and render hand-off; per-second decoder activity; and
/// the stage counters.
pub open spec fn summary_text(m: MetricsSnapshot) -> Seq<char> {
    "Q depth/max:"@ + decimal(m.au_queue_depth as nat) + "/"@ + decimal(m.au_queue_max as nat) + " AUage:"@ + decimal(
        average_ms(m.au_age_sum_us, m.au_age_count),
    ) + "/"@ + decimal((m.au_age_max_us / 1000) as nat) + "ms renderWait:"@ + decimal(
        average_ms(m.render_wait_sum_us, m.render_wait_count),
    ) + "/"@ + decimal((m.render_wait_max_us / 1000) as nat) + "ms hold:"@ + decimal(m.render_backlog as nat)
        + " texRepl:"@ + decimal(m.texture_superseded as nat) + "\nFPS hwCall:"@ + decimal(m.decode_calls as nat)
        + " decoded:"@ + decimal(m.decoded as nat) + " shown:"@ + decimal(m.presented as nat) + " pic:"@
        + picture_size_text(m.picture_dimensions) + " noPic:"@ + decimal(m.no_picture as nat) + " noOut:"@ + decimal(
        m.skipped as nat,
    ) + " qFull/s:"@ + decimal(m.queue_full as nat) + " asm:"@ + decimal(
        average_ms(m.rtp_assembly_sum_us, m.rtp_assembly_count),
    ) + "/"@ + decimal((m.rtp_assembly_max_us / 1000) as nat) + "ms\nStage stale:"@ + decimal(
        m.stale_generation as nat,
    ) + " noDec:"@ + decimal(m.decoder_unavailable as nat) + " mailRepl:"@ + decimal(m.replaced as nat)
        + " handoffRepl:"@ + decimal(m.handoff_replaced as nat) + " resync:"@ + decimal(m.resyncs as nat) + " reset:"@
        + decimal(m.resets as nat)
}

fn average(sum_us: u64, count: u64) -> (ms: u64)
    ensures
        ms == average_ms(sum_us, count),
{
    (if count == 0 { 0 } else { sum_us / count }) / 1000
}

/// The counters after a summary: the per-window ones (assembly, queue age, render wait,
/// decoder calls, pictures, queue-full and mailbox replacements) start again from zero;
/// the gauges and the session-long counters stay.
pub open spec fn window_reset(m: MetricsSnapshot) -> MetricsSnapshot {
    MetricsSnapshot {
        rtp_assembly_sum_us: 0,
        rtp_assembly_count: 0,
        rtp_assembly_max_us: 0,
        au_age_sum_us: 0,
        au_age_count: 0,
        au_age_max_us: 0,
        render_wait_sum_us: 0,
        render_wait_count: 0,
        render_wait_max_us: 0,
        decode_calls: 0,
        decoded: 0,
        presented: 0,
        no_picture: 0,
        skipped: 0,
        queue_full: 0,
        replaced: 0,
        ..m
    }
}

/// The video performance summary of the counters, which then start a new window.
pub fn video_performance_summary(m: &mut MetricsSnapshot) -> (text: String)
    ensures
        text@ == summary_text(*old(m)),
        *final(m) == window_reset(*old(m)),
{
    let text = summary_of(m);
    m.rtp_assembly_sum_us = 0;
    m.rtp_assembly_count = 0;
    m.rtp_assembly_max_us = 0;
    m.au_age_sum_us = 0;
    m.au_age_count = 0;
    m.au_age_max_us = 0;
    m.render_wait_sum_us = 0;
    m.render_wait_count = 0;
    m.render_wait_max_us = 0;
    m.decode_calls = 0;
    m.decoded = 0;
    m.presented = 0;
    m.no_picture = 0;
    m.skipped = 0;
    m.queue_full = 0;
    m.replaced = 0;
    text
}

fn summary_of(m: &MetricsSnapshot) -> (text: String)
    ensures
        text@ == summary_text(*m),
{
    let mut t = String::new();
    push_str(&mut t, "Q depth/max:");
    push_decimal(&mut t, m.au_queue_depth as u128);
    push_str(&mut t, "/");
    push_decimal(&mut t, m.au_queue_max as u128);
    push_str(&mut t, " AUage:");
    push_decimal(&mut t, average(m.au_age_sum_us, m.au_age_count) as u128);
    push_str(&mut t, "/");
    push_decimal(&mut t, (m.au_age_max_us / 1000) as u128);
    push_str(&mut t, "ms renderWait:");
    push_decimal(&mut t, average(m.render_wait_sum_us, m.render_wait_count) as u128);
    push_str(&mut t, "/");
    push_decimal(&mut t, (m.render_wait_max_us / 1000) as u128);
    push_str(&mut t, "ms hold:");
    push_decimal(&mut t, m.render_backlog as u128);
    push_str(&mut t, " texRepl:");
    push_decimal(&mut t, m.texture_superseded as u128);
    push_str(&mut t, "\nFPS hwCall:");
    push_decimal(&mut t, m.decode_calls as u128);
    push_str(&mut t, " decoded:");
    push_decimal(&mut t, m.decoded as u128);
    push_str(&mut t, " shown:");
    push_decimal(&mut t, m.presented as u128);
    push_str(&mut t, " pic:");
    if m.picture_dimensions == 0 {
        push_str(&mut t, "?");
    } else {
        push_decimal(&mut t, (m.picture_dimensions / 0x1_0000_0000) as u128);
        push_str(&mut t, "x");
        push_decimal(&mut t, (m.picture_dimensions % 0x1_0000_0000) as u128);
    }
    push_str(&mut t, " noPic:");
    push_decimal(&mut t, m.no_picture as u128);
    push_str(&mut t, " noOut:");
    push_decimal(&mut t, m.skipped as u128);
    push_str(&mut t, " qFull/s:");
    push_decimal(&mut t, m.queue_full as u128);
    push_str(&mut t, " asm:");
    push_decimal(&mut t, average(m.rtp_assembly_sum_us, m.rtp_assembly_count) as u128);
    push_str(&mut t, "/");
    push_decimal(&mut t, (m.rtp_assembly_max_us / 1000) as u128);
    push_str(&mut t, "ms\nStage stale:");
    push_decimal(&mut t, m.stale_generation as u128);
    push_str(&mut t, " noDec:");
    push_decimal(&mut t, m.decoder_unavailable as u128);
    push_str(&mut t, " mailRepl:");
    push_decimal(&mut t, m.replaced as u128);
    push_str(&mut t, " handoffRepl:");
    push_decimal(&mut t, m.handoff_replaced as u128);
    push_str(&mut t, " resync:");
    push_decimal(&mut t, m.resyncs as u128);
    push_str(&mut t, " reset:");
    push_decimal(&mut t, m.resets as u128);
    assert(t@ =~= summary_text(*m));
    t
}

/// Two summaries in a row, with no counting between them: the second window is the
/// one the first left, the gauges and session counters (queue depth and peak, render
/// hold, texture and hand-off replacements, stale frames, decoder unavailability,
/// resyncs, resets, picture size) read the same in both, and every per-window count of
/// the second reads zero.
pub proof fn law_second_summary_reads_an_empty_window(m: MetricsSnapshot)
    ensures
        window_reset(window_reset(m)) == window_reset(m),
        summary_text(window_reset(m)) == "Q depth/max:"@ + decimal(m.au_queue_depth as nat) + "/"@ + decimal(
            m.au_queue_max as nat,
        ) + " AUage:"@ + "0"@ + "/"@ + "0"@ + "ms renderWait:"@ + "0"@ + "/"@ + "0"@ + "ms hold:"@ + decimal(
            m.render_backlog as nat,
        ) + " texRepl:"@ + decimal(m.texture_superseded as nat) + "\nFPS hwCall:"@ + "0"@ + " decoded:"@ + "0"@
            + " shown:"@ + "0"@ + " pic:"@ + picture_size_text(m.picture_dimensions) + " noPic:"@ + "0"@ + " noOut:"@
            + "0"@ + " qFull/s:"@ + "0"@ + " asm:"@ + "0"@ + "/"@ + "0"@ + "ms\nStage stale:"@ + decimal(
            m.stale_generation as nat,
        ) + " noDec:"@ + decimal(m.decoder_unavailable as nat) + " mailRepl:"@ + "0"@ + " handoffRepl:"@ + decimal(
            m.handoff_replaced as nat,
        ) + " resync:"@ + decimal(m.resyncs as nat) + " reset:"@ + decimal(m.resets as nat),
{
    reveal_strlit("0");
    assert(decimal(0) =~= "0"@);
    assert(average_ms(0, 0) == 0);
}

} // verus!
