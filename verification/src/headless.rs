//! Decisions of a headless run: how many cycles the next batch runs, when the run is over,
//! what its summary holds, and whether the TTY log reports success.
use crate::bus::memory_bus::lossy_text;
use crate::system::PS1System;
use vstd::prelude::*;

verus! {

/// What a headless run reports when it ends.
#[derive(Debug, Clone)]
pub struct HeadlessSummary {
    pub total_cycles: u64,
    pub tty_output: String,
    pub instruction_count: u64,
}

/// Cycles run between two looks at the TTY log.
pub const HEADLESS_BATCH_CYCLES: u32 = 10_000;

/// The cycles of the next batch: what is left before `limit`, taken modulo 2^32 as the
/// cycle counter is, and at most one batch.
pub open spec fn batch_cycles(total: u64, limit: u64) -> u32 {
    let left = ((limit - total) % 0x1_0000_0000) as u32;
    if left < HEADLESS_BATCH_CYCLES {
        left
    } else {
        HEADLESS_BATCH_CYCLES
    }
}

pub fn next_batch_cycles(total: u64, limit: u64) -> (r: u32)
    requires
        total < limit,
    ensures
        r == batch_cycles(total, limit),
{
    let left = (limit - total) as u32;
    assert(left == ((limit - total) % 0x1_0000_0000) as u32) by (bit_vector)
        requires
            left == (limit - total) as u32,
            total < limit,
    ;
    if left < HEADLESS_BATCH_CYCLES {
        left
    } else {
        HEADLESS_BATCH_CYCLES
    }
}

/// Whether `s` ends with `suffix`.
pub open spec fn ends_with(s: Seq<u8>, suffix: Seq<u8>) -> bool {
    suffix.len() <= s.len() && s.subrange(s.len() - suffix.len(), s.len() as int) == suffix
}

/// Whether `pat` occurs in `s`.
pub open spec fn contains(s: Seq<u8>, pat: Seq<u8>) -> bool {
    exists|i: int| 0 <= i && i + pat.len() <= s.len() && #[trigger] s.subrange(i, i + pat.len()) == pat
}

/// "Done" (0x44 0x6F 0x6E 0x65).
pub open spec fn done_text() -> Seq<u8> {
    seq![0x44u8, 0x6Fu8, 0x6Eu8, 0x65u8]
}

/// "All tests done: 00000000".
pub open spec fn all_done_text() -> Seq<u8> {
    seq![
        0x41u8, 0x6Cu8, 0x6Cu8, 0x20u8, 0x74u8, 0x65u8, 0x73u8, 0x74u8, 0x73u8, 0x20u8, 0x64u8,
        0x6Fu8, 0x6Eu8, 0x65u8, 0x3Au8, 0x20u8, 0x30u8, 0x30u8, 0x30u8, 0x30u8, 0x30u8, 0x30u8,
        0x30u8, 0x30u8,
    ]
}

/// A line end: LF or CR LF.
pub open spec fn line_end(crlf: bool) -> Seq<u8> {
    if crlf {
        seq![0x0Du8, 0x0Au8]
    } else {
        seq![0x0Au8]
    }
}

/// Whether a test program has finished: its log ends with a line "Done", "Done." or
/// "All tests done: 00000000", or it spins on one instruction (PC equals the next PC).
pub open spec fn finished(tty: Seq<u8>, pc: u32, next_pc: u32) -> bool {
    ||| exists|crlf: bool| #[trigger] ends_with(tty, done_text() + line_end(crlf))
    ||| exists|crlf: bool| #[trigger] ends_with(tty, done_text() + seq![0x2Eu8] + line_end(crlf))
    ||| exists|crlf: bool| #[trigger] ends_with(tty, all_done_text() + line_end(crlf))
    ||| pc == next_pc
}

/// Whether `s` ends with `suffix`.
fn bytes_end_with(s: &[u8], suffix: &[u8]) -> (r: bool)
    ensures
        r == ends_with(s@, suffix@),
{
    if suffix.len() > s.len() {
        return false;
    }
    let start = s.len() - suffix.len();
    let slen = s.len();
    let mut i: usize = 0;
    while i < suffix.len()
        invariant
            start + suffix@.len() == s@.len(),
            slen == s@.len(),
            i <= suffix@.len(),
            forall|j: int| 0 <= j < i ==> s@[start + j] == suffix@[j],
        decreases suffix@.len() - i,
    {
        if s[start + i] != suffix[i] {
            assert(s@.subrange(start as int, s@.len() as int)[i as int] != suffix@[i as int]);
            return false;
        }
        i = i + 1;
    }
    assert(s@.subrange(start as int, s@.len() as int) =~= suffix@);
    true
}

/// Whether `pat` occurs in `s`.
fn bytes_contain(s: &[u8], pat: &[u8]) -> (r: bool)
    ensures
        r == contains(s@, pat@),
{
    if pat.len() > s.len() {
        return false;
    }
    if pat.len() == 0 {
        assert(s@.subrange(0int, 0int + pat@.len()) =~= pat@);
        return true;
    }
    let slen = s.len();
    let end = s.len() - pat.len() + 1;
    let mut i: usize = 0;
    while i < end
        invariant
            end + pat@.len() == s@.len() + 1,
            slen == s@.len(),
            i <= end,
            forall|k: int| 0 <= k < i ==> #[trigger] s@.subrange(k, k + pat@.len()) != pat@,
        decreases end - i,
    {
        let mut j: usize = 0;
        let mut same = true;
        while j < pat.len()
            invariant
                end + pat@.len() == s@.len() + 1,
                slen == s@.len(),
                i < end,
                j <= pat@.len(),
                same == forall|q: int| 0 <= q < j ==> s@[i + q] == pat@[q],
            decreases pat@.len() - j,
        {
            if s[i + j] != pat[j] {
                same = false;
            }
            j = j + 1;
        }
        if same {
            assert(s@.subrange(i as int, i + pat@.len()) =~= pat@);
            return true;
        }
        assert(s@.subrange(i as int, i + pat@.len()) != pat@) by {
            let q = choose|q: int| 0 <= q < pat@.len() && s@[i + q] != pat@[q];
            assert(s@.subrange(i as int, i + pat@.len())[q] != pat@[q]);
        }
        i = i + 1;
    }
    false
}

/// Whether the run is over (see `finished`).
pub fn run_finished(tty: &[u8], pc: u32, next_pc: u32) -> (r: bool)
    ensures
        r == finished(tty@, pc, next_pc),
{
    let done_lf = vec![0x44u8, 0x6Fu8, 0x6Eu8, 0x65u8, 0x0Au8];
    let done_crlf = vec![0x44u8, 0x6Fu8, 0x6Eu8, 0x65u8, 0x0Du8, 0x0Au8];
    let done_dot_lf = vec![0x44u8, 0x6Fu8, 0x6Eu8, 0x65u8, 0x2Eu8, 0x0Au8];
    let done_dot_crlf = vec![0x44u8, 0x6Fu8, 0x6Eu8, 0x65u8, 0x2Eu8, 0x0Du8, 0x0Au8];
    let mut all_lf = vec![
        0x41u8, 0x6Cu8, 0x6Cu8, 0x20u8, 0x74u8, 0x65u8, 0x73u8, 0x74u8, 0x73u8, 0x20u8, 0x64u8,
        0x6Fu8, 0x6Eu8, 0x65u8, 0x3Au8, 0x20u8, 0x30u8, 0x30u8, 0x30u8, 0x30u8, 0x30u8, 0x30u8,
        0x30u8, 0x30u8,
    ];
    let mut all_crlf = all_lf.clone();
    all_lf.push(0x0Au8);
    all_crlf.push(0x0Du8);
    all_crlf.push(0x0Au8);
    proof {
        assert(done_lf@ =~= done_text() + line_end(false));
        assert(done_crlf@ =~= done_text() + line_end(true));
        assert(done_dot_lf@ =~= done_text() + seq![0x2Eu8] + line_end(false));
        assert(done_dot_crlf@ =~= done_text() + seq![0x2Eu8] + line_end(true));
        assert(all_lf@ =~= all_done_text() + line_end(false));
        assert(all_crlf@ =~= all_done_text() + line_end(true));
    }
    let r = bytes_end_with(tty, done_lf.as_slice()) || bytes_end_with(tty, done_crlf.as_slice())
        || bytes_end_with(tty, done_dot_lf.as_slice()) || bytes_end_with(
        tty,
        done_dot_crlf.as_slice(),
    ) || bytes_end_with(tty, all_lf.as_slice()) || bytes_end_with(tty, all_crlf.as_slice())
        || pc == next_pc;
    proof {
        assert(ends_with(tty@, done_text() + line_end(false)) == ends_with(tty@, done_lf@));
        assert(ends_with(tty@, done_text() + line_end(true)) == ends_with(tty@, done_crlf@));
        assert(ends_with(tty@, done_text() + seq![0x2Eu8] + line_end(false)) == ends_with(
            tty@,
            done_dot_lf@,
        ));
        assert(ends_with(tty@, done_text() + seq![0x2Eu8] + line_end(true)) == ends_with(
            tty@,
            done_dot_crlf@,
        ));
        assert(ends_with(tty@, all_done_text() + line_end(false)) == ends_with(tty@, all_lf@));
        assert(ends_with(tty@, all_done_text() + line_end(true)) == ends_with(tty@, all_crlf@));
    }
    r
}

/// What a finished run reports: the cycle count (also the instruction count, one
/// instruction per cycle) and the TTY log as text.
pub fn summarize(system: &PS1System) -> (r: HeadlessSummary)
    ensures
        r.total_cycles == system.total_cycles,
        r.instruction_count == system.total_cycles,
        r.tty_output@ == lossy_text(system.bus.tty_output@),
{
    HeadlessSummary {
        total_cycles: system.total_cycles,
        tty_output: system.bus.get_tty_string(),
        instruction_count: system.total_cycles,
    }
}

/// "All tests done".
pub open spec fn all_tests_done_text() -> Seq<u8> {
    all_done_text().subrange(0, 14)
}

/// "101/101".
pub open spec fn full_score_text() -> Seq<u8> {
    seq![0x31u8, 0x30u8, 0x31u8, 0x2Fu8, 0x31u8, 0x30u8, 0x31u8]
}

/// "PASS".
pub open spec fn pass_text() -> Seq<u8> {
    seq![0x50u8, 0x41u8, 0x53u8, 0x53u8]
}

/// "FAIL".
pub open spec fn fail_text() -> Seq<u8> {
    seq![0x46u8, 0x41u8, 0x49u8, 0x4Cu8]
}

/// "error @".
pub open spec fn error_at_text() -> Seq<u8> {
    seq![0x65u8, 0x72u8, 0x72u8, 0x6Fu8, 0x72u8, 0x20u8, 0x40u8]
}

/// Whether a TTY log reports that the tests passed: it says "All tests done", "101/101"
/// or "PASS", or it mentions neither "FAIL" nor "error @".
pub open spec fn log_reports_pass(tty: Seq<u8>) -> bool {
    ||| contains(tty, all_tests_done_text())
    ||| contains(tty, full_score_text())
    ||| contains(tty, pass_text())
    ||| (!contains(tty, fail_text()) && !contains(tty, error_at_text()))
}

pub fn reports_pass(tty: &[u8]) -> (r: bool)
    ensures
        r == log_reports_pass(tty@),
{
    let all_done = vec![
        0x41u8, 0x6Cu8, 0x6Cu8, 0x20u8, 0x74u8, 0x65u8, 0x73u8, 0x74u8, 0x73u8, 0x20u8, 0x64u8,
        0x6Fu8, 0x6Eu8, 0x65u8,
    ];
    let score = vec![0x31u8, 0x30u8, 0x31u8, 0x2Fu8, 0x31u8, 0x30u8, 0x31u8];
    let pass = vec![0x50u8, 0x41u8, 0x53u8, 0x53u8];
    let fail = vec![0x46u8, 0x41u8, 0x49u8, 0x4Cu8];
    let error_at = vec![0x65u8, 0x72u8, 0x72u8, 0x6Fu8, 0x72u8, 0x20u8, 0x40u8];
    proof {
        assert(all_done@ =~= all_tests_done_text());
        assert(score@ =~= full_score_text());
        assert(pass@ =~= pass_text());
        assert(fail@ =~= fail_text());
        assert(error_at@ =~= error_at_text());
    }
    bytes_contain(tty, all_done.as_slice()) || bytes_contain(tty, score.as_slice())
        || bytes_contain(tty, pass.as_slice()) || (!bytes_contain(tty, fail.as_slice())
        && !bytes_contain(tty, error_at.as_slice()))
}

} // verus!
