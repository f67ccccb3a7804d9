//! The artifact fetcher's decision logic: the HTTP status screen, byte-count
//! formatting with binary unit suffixes, the progress line, and the progress
//! state machine that the streaming loop drives chunk by chunk.

use vstd::prelude::*;
use vstd::arithmetic::div_mod::{lemma_div_is_ordered_by_denominator, lemma_div_is_ordered};
use crate::error::Error;
use crate::text::{dec_str, dec_digit_char, repeat_char, u64_to_dec, digit_str, repeat_piece};

verus! {

pub const KIB: u64 = 1024;

pub const MIB: u64 = 1048576;

pub const GIB: u64 = 1073741824;

/// Width of the progress bar, in cells.
pub const BAR_WIDTH: u64 = 28;

/// Milliseconds that must pass between two progress renders.
pub const RENDER_GAP_MS: u64 = 120;

/// The fixed chunk size a body is streamed in: 64 KiB.
pub const CHUNK_SIZE_BYTES: usize = 65536;

// --- byte formatting --------------------------------------------------------

/// `a / b` rounded to the nearest integer, ties to even.
pub open spec fn round_half_even(a: nat, b: nat) -> nat {
    let q = a / b;
    let r = a % b;
    if 2 * r > b {
        q + 1
    } else if 2 * r < b {
        q
    } else if q % 2 == 1 {
        q + 1
    } else {
        q
    }
}

/// Tenths of `n / div`, with the single decimal digit rounded half to even.
pub open spec fn scaled_tenths(n: nat, div: nat) -> nat {
    10 * (n / div) + round_half_even(10 * (n % div), div)
}

/// A quantity of tenths rendered with one decimal place, e.g. 15 as `"1.5"`.
pub open spec fn one_decimal_str(tenths: nat) -> Seq<char> {
    dec_str(tenths / 10) + seq!['.'] + seq![dec_digit_char((tenths % 10) as int)]
}

/// A byte count with a binary unit suffix: plain bytes below 1 KiB, one
/// decimal place for KiB, MiB and GiB.
pub open spec fn format_bytes_spec(n: u64) -> Seq<char> {
    if n >= GIB {
        one_decimal_str(scaled_tenths(n as nat, GIB as nat)) + "GiB"@
    } else if n >= MIB {
        one_decimal_str(scaled_tenths(n as nat, MIB as nat)) + "MiB"@
    } else if n >= KIB {
        one_decimal_str(scaled_tenths(n as nat, KIB as nat)) + "KiB"@
    } else {
        dec_str(n as nat) + "B"@
    }
}

/// Tenths of `n / div`, rounding the decimal digit half to even.
fn scale_tenths(n: u64, div: u64) -> (t: u64)
    requires
        1024 <= div <= GIB,
    ensures
        t == scaled_tenths(n as nat, div as nat),
{
    let whole = n / div;
    let rem = n % div;
    proof {
        lemma_div_is_ordered_by_denominator(n as int, 1024, div as int);
        lemma_div_is_ordered(n as int, u64::MAX as int, 1024);
        assert(whole <= u64::MAX / 1024);
    }
    let a = 10 * rem;
    let q = a / div;
    let r = a % div;
    proof {
        assert(a <= 10 * div - 10) by (nonlinear_arith)
            requires
                rem < div,
                a == 10 * rem,
        ;
        lemma_div_is_ordered(a as int, 10 * (div as int) - 10, div as int);
        assert((10 * (div as int) - 10) / (div as int) <= 9) by (nonlinear_arith)
            requires
                1024 <= div,
        ;
        assert(q <= 9);
    }
    let frac = if 2 * r > div {
        q + 1
    } else if 2 * r < div {
        q
    } else if q % 2 == 1 {
        q + 1
    } else {
        q
    };
    10 * whole + frac
}

fn one_decimal(tenths: u64) -> (r: String)
    ensures
        r@ == one_decimal_str(tenths as nat),
{
    let mut s = u64_to_dec(tenths / 10);
    s.append(".");
    s.append(digit_str(tenths % 10));
    proof {
        reveal_strlit(".");
        assert("."@ =~= seq!['.']);
    }
    s
}

/// Renders a byte count with a unit suffix at base 1024: `0` as `"0B"`,
/// `1536` as `"1.5KiB"`, and so on through `MiB` and `GiB`.
pub fn format_bytes(n: u64) -> (r: String)
    ensures
        r@ == format_bytes_spec(n),
{
    if n >= GIB {
        let mut s = one_decimal(scale_tenths(n, GIB));
        s.append("GiB");
        s
    } else if n >= MIB {
        let mut s = one_decimal(scale_tenths(n, MIB));
        s.append("MiB");
        s
    } else if n >= KIB {
        let mut s = one_decimal(scale_tenths(n, KIB));
        s.append("KiB");
        s
    } else {
        let mut s = u64_to_dec(n);
        s.append("B");
        s
    }
}

// --- the progress line -------------------------------------------------------

/// `round(scale * min(d, t) / t)`, rounding half away from zero: the filled
/// cell count (`scale` 28) and the percentage (`scale` 100).
pub open spec fn clamped_scaled(d: nat, t: nat, scale: nat) -> nat {
    if d >= t {
        scale
    } else {
        (2 * scale * d + t) / (2 * t)
    }
}

/// A percentage right-aligned in three cells, e.g. `"  7"`, ` "42"`, `"100"`.
pub open spec fn pct_padded(p: nat) -> Seq<char> {
    if p < 10 {
        seq![' ', ' '] + dec_str(p)
    } else if p < 100 {
        seq![' '] + dec_str(p)
    } else {
        dec_str(p)
    }
}

/// One rendered progress line. With a positive total: a 28-cell bar, the
/// rounded percentage, and `current/total` byte counts. Without one: a plain
/// byte count.
pub open spec fn render_line_spec(d: u64, total: Option<u64>) -> Seq<char> {
    if total is Some && total->Some_0 > 0 {
        let t = total->Some_0;
        let filled = clamped_scaled(d as nat, t as nat, BAR_WIDTH as nat);
        seq!['['] + repeat_char('#', filled) + repeat_char('.', (BAR_WIDTH as nat - filled) as nat)
            + seq![']', ' '] + pct_padded(clamped_scaled(d as nat, t as nat, 100)) + seq!['%', ' ']
            + format_bytes_spec(d) + seq!['/'] + format_bytes_spec(total->Some_0)
    } else {
        "Downloading... "@ + format_bytes_spec(d)
    }
}

/// `round(scale * min(d, t) / t)` as executable arithmetic.
fn clamped_scale(d: u64, t: u64, scale: u64) -> (r: u64)
    requires
        t > 0,
        scale <= 100,
    ensures
        r == clamped_scaled(d as nat, t as nat, scale as nat),
        r <= scale,
{
    if d >= t {
        return scale;
    }
    proof {
        assert(2 * (scale as u128) * (d as u128) + (t as u128) <= u128::MAX) by (nonlinear_arith)
            requires
                scale <= 100,
                d <= u64::MAX,
                t <= u64::MAX,
        ;
    }
    let num: u128 = 2 * (scale as u128) * (d as u128) + (t as u128);
    let den: u128 = 2 * (t as u128);
    let q = num / den;
    proof {
        assert(num < den * ((scale + 1) as u128)) by (nonlinear_arith)
            requires
                d < t,
                t > 0,
                num == 2 * (scale as u128) * (d as u128) + (t as u128),
                den == 2 * (t as u128);
        assert(q <= scale) by (nonlinear_arith)
            requires
                num < den * ((scale + 1) as u128),
                den > 0,
                q == num / den;
        assert(q == (2 * (scale as nat) * (d as nat) + t as nat) / (2 * t as nat));
    }
    q as u64
}

fn render_line(d: u64, total: Option<u64>) -> (r: String)
    ensures
        r@ == render_line_spec(d, total),
{
    match total {
        Some(t) if t > 0 => {
            proof {
                reveal_strlit("[");
                reveal_strlit("#");
                reveal_strlit(".");
                reveal_strlit("] ");
                reveal_strlit("  ");
                reveal_strlit(" ");
                reveal_strlit("% ");
                reveal_strlit("/");
            }
            let filled = clamped_scale(d, t, BAR_WIDTH);
            let pct = clamped_scale(d, t, 100);
            let mut s = String::new();
            s.append("[");
            let hashes = repeat_piece("#", filled as usize);
            s.append(hashes.as_str());
            let dots = repeat_piece(".", (BAR_WIDTH - filled) as usize);
            s.append(dots.as_str());
            s.append("] ");
            if pct < 10 {
                s.append("  ");
            } else if pct < 100 {
                s.append(" ");
            }
            let pct_s = u64_to_dec(pct);
            s.append(pct_s.as_str());
            s.append("% ");
            let cur = format_bytes(d);
            s.append(cur.as_str());
            s.append("/");
            let tot = format_bytes(t);
            s.append(tot.as_str());
            proof {
                assert(s@ =~= render_line_spec(d, total));
            }
            s
        },
        _ => {
            let mut s = String::new();
            s.append("Downloading... ");
            let cur = format_bytes(d);
            s.append(cur.as_str());
            s
        },
    }
}

// --- the status check -----------------------------------------------------------

/// Screens a response before its body is streamed: any status but `200`
/// fails the transfer with that status.
pub fn check_status(status: u16) -> (r: Result<(), Error>)
    ensures
        status == 200 ==> r == Ok::<(), Error>(()),
        status != 200 ==> r == Err::<(), Error>(Error::TransferFailed { status: Some(status) }),
{
    if status == 200 {
        Ok(())
    } else {
        Err(Error::TransferFailed { status: Some(status) })
    }
}

// --- the progress state machine -------------------------------------------------

/// Whether a render is due: always on the first chunk, afterwards only when
/// at least `RENDER_GAP_MS` elapsed since the previous render.
pub open spec fn render_due(last: Option<u64>, now: u64) -> bool {
    match last {
        None => true,
        Some(prev) => now >= prev && now - prev >= RENDER_GAP_MS,
    }
}

/// Transient per-transfer progress: bytes streamed so far, the advertised
/// total when the server sent one, and the time of the previous render.
///
/// The ghost fields record the whole history of the transfer: every chunk
/// fed in and every byte count that was rendered.
pub struct ProgressState {
    pub downloaded: u64,
    pub total: Option<u64>,
    pub last_render_ms: Option<u64>,
    pub chunks: Ghost<Seq<u64>>,
    pub rendered: Ghost<Seq<u64>>,
}

pub open spec fn sum_chunks(cs: Seq<u64>) -> int
    decreases cs.len(),
{
    if cs.len() == 0 {
        0
    } else {
        sum_chunks(cs.drop_last()) + cs.last()
    }
}

impl ProgressState {
    /// Every rendered byte count is non-decreasing along the transfer, never
    /// ahead of the bytes actually received, and the received total is the
    /// sum of the chunks fed in.
    pub open spec fn wf(self) -> bool {
        &&& self.downloaded == sum_chunks(self.chunks@)
        &&& forall|i: int, j: int|
            0 <= i <= j < self.rendered@.len() ==> self.rendered@[i] <= self.rendered@[j]
        &&& forall|i: int| 0 <= i < self.rendered@.len() ==> #[trigger] self.rendered@[i] <= self.downloaded
    }

    /// A fresh transfer: nothing received, nothing rendered yet; the first
    /// chunk will always render.
    pub fn start(total: Option<u64>) -> (s: Self)
        ensures
            s.wf(),
            s.downloaded == 0,
            s.total == total,
            s.chunks@ =~= Seq::<u64>::empty(),
            s.rendered@ =~= Seq::<u64>::empty(),
            s.last_render_ms is None,
    {
        ProgressState {
            downloaded: 0,
            total,
            last_render_ms: None,
            chunks: Ghost(Seq::empty()),
            rendered: Ghost(Seq::empty()),
        }
    }

    /// Accounts one streamed chunk of `n` bytes at time `now_ms` and returns
    /// the progress line to draw, or `None` while renders are paused.
    pub fn on_chunk(&mut self, n: u64, now_ms: u64) -> (line: Option<String>)
        requires
            old(self).wf(),
            old(self).downloaded + n <= u64::MAX,
        ensures
            final(self).wf(),
            final(self).downloaded == old(self).downloaded + n,
            final(self).total == old(self).total,
            final(self).chunks@ == old(self).chunks@.push(n),
            line is Some <==> render_due(old(self).last_render_ms, now_ms),
            match line {
                Some(l) => l@ == render_line_spec((old(self).downloaded + n) as u64, old(self).total)
                    && final(self).rendered@ == old(self).rendered@.push(final(self).downloaded)
                    && final(self).last_render_ms == Some(now_ms),
                None => final(self).rendered@ == old(self).rendered@
                    && final(self).last_render_ms == old(self).last_render_ms,
            },
    {
        self.downloaded = self.downloaded + n;
        proof {
            self.chunks@ = self.chunks@.push(n);
            assert(self.chunks@.drop_last() =~= old(self).chunks@);
        }
        let due = match self.last_render_ms {
            None => true,
            Some(prev) => now_ms >= prev && now_ms - prev >= RENDER_GAP_MS,
        };
        if due {
            self.last_render_ms = Some(now_ms);
            proof {
                self.rendered@ = self.rendered@.push(self.downloaded);
            }
            Some(render_line(self.downloaded, self.total))
        } else {
            None
        }
    }

    /// The unconditional final render: drawn once more at completion, showing
    /// exactly the bytes received, which is the sum of all chunks fed in.
    pub fn finish(&mut self) -> (line: String)
        requires
            old(self).wf(),
        ensures
            final(self).wf(),
            final(self).downloaded == old(self).downloaded,
            final(self).total == old(self).total,
            final(self).chunks@ == old(self).chunks@,
            line@ == render_line_spec(old(self).downloaded, old(self).total),
            final(self).rendered@ == old(self).rendered@.push(old(self).downloaded),
            final(self).rendered@.last() == sum_chunks(final(self).chunks@),
    {
        proof {
            self.rendered@ = self.rendered@.push(self.downloaded);
        }
        render_line(self.downloaded, self.total)
    }
}

/// Progress monotonicity: over any sequence of chunks, the rendered byte
/// counts never decrease, never exceed the bytes received, and the received
/// total is exactly the sum of the chunks.
pub proof fn lemma_progress_monotonic(s: ProgressState)
    requires
        s.wf(),
    ensures
        forall|i: int, j: int| 0 <= i <= j < s.rendered@.len() ==> s.rendered@[i] <= s.rendered@[j],
        forall|i: int| 0 <= i < s.rendered@.len() ==> #[trigger] s.rendered@[i] <= sum_chunks(s.chunks@),
{
}

} // verus!
