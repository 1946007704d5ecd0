//! The interchange rendering of records: field for field, names
//! preserved, every number in a fixed-width decimal payload and the one
//! variable-width field last, so that a rendering can be read back from
//! fixed positions and the round trip is exact.

use vstd::prelude::*;

use crate::numbers::{all_digits, dec_fixed, digits_val, is_digit, pow10};
use crate::numbers::{lemma_dec_fixed, lemma_dec_fixed_len, lemma_digits_val_bound};
use crate::numbers::{lemma_digits_val_prefix, lemma_pow10_bounds};
use crate::process::{Process, ProcessV};

verus! {

/// The payload of a signed field: an explicit sign, then nineteen digits.
pub open spec fn enc_i(v: int) -> Seq<char> {
    (if v < 0 {
        seq!['-']
    } else {
        seq!['+']
    }) + dec_fixed(
        if v < 0 {
            -v
        } else {
            v
        },
        19,
    )
}

/// The payload of an unsigned field: thirty-nine digits.
pub open spec fn enc_u(v: int) -> Seq<char> {
    dec_fixed(v, 39)
}

/// The value of the `w` digits at `pos`, or zero where the window runs
/// out of the text, holds a non-digit, or does not fit 128 bits.
pub open spec fn loose_digits(s: Seq<char>, pos: int, w: int) -> int {
    let win = s.subrange(pos, pos + w);
    if 0 <= pos && pos + w <= s.len() && all_digits(win) && digits_val(win) <= u128::MAX as int {
        digits_val(win)
    } else {
        0
    }
}

/// The signed value at `pos` — a sign character, then nineteen digits —
/// or zero where it does not fit 64 bits.
pub open spec fn loose_i64(s: Seq<char>, pos: int) -> int {
    let m = loose_digits(s, pos + 1, 19);
    let v = if 0 <= pos < s.len() && s[pos] == '-' {
        -m
    } else {
        m
    };
    if i64::MIN as int <= v <= i64::MAX as int {
        v
    } else {
        0
    }
}

/// The character at `pos`, or a space where the text runs out.
pub open spec fn loose_c(s: Seq<char>, pos: int) -> char {
    if 0 <= pos < s.len() {
        s[pos]
    } else {
        ' '
    }
}

/// The string whose twenty-digit length stands at `lpos` and whose
/// characters follow, or the empty string where that does not fit.
pub open spec fn loose_str(s: Seq<char>, lpos: int) -> Seq<char> {
    let l = loose_digits(s, lpos, 20);
    if l <= usize::MAX as int && lpos + 20 + l <= s.len() {
        s.subrange(lpos + 20, lpos + 20 + l)
    } else {
        Seq::<char>::empty()
    }
}

pub open spec fn clamp_i32(v: int) -> i32 {
    if i32::MIN as int <= v <= i32::MAX as int {
        v as i32
    } else {
        0
    }
}

pub open spec fn clamp_i64(v: int) -> i64 {
    if i64::MIN as int <= v <= i64::MAX as int {
        v as i64
    } else {
        0
    }
}

pub open spec fn clamp_u32(v: int) -> u32 {
    if 0 <= v <= u32::MAX as int {
        v as u32
    } else {
        0
    }
}

pub open spec fn clamp_u64(v: int) -> u64 {
    if 0 <= v <= u64::MAX as int {
        v as u64
    } else {
        0
    }
}

/// Relies on String::push: appends exactly the one character.
#[verifier::external_body]
fn push_char(s: &mut String, c: char)
    ensures
        final(s)@ == old(s)@ + seq![c],
{
    s.push(c);
}

/// The character of one digit value.
fn digit_char(d: u128) -> (c: char)
    requires
        d < 10,
    ensures
        c == crate::numbers::dec_digit(d as int),
{
    if d == 0 {
        '0'
    } else if d == 1 {
        '1'
    } else if d == 2 {
        '2'
    } else if d == 3 {
        '3'
    } else if d == 4 {
        '4'
    } else if d == 5 {
        '5'
    } else if d == 6 {
        '6'
    } else if d == 7 {
        '7'
    } else if d == 8 {
        '8'
    } else {
        '9'
    }
}

/// Appends the `w`-digit rendering of `v`.
fn append_fixed(out: &mut String, v: u128, w: usize)
    requires
        (v as int) < pow10(w as nat),
    ensures
        final(out)@ == old(out)@ + dec_fixed(v as int, w as nat),
    decreases w,
{
    if w == 0 {
        proof {
            assert(old(out)@ + dec_fixed(v as int, 0) =~= old(out)@);
        }
        return ;
    }
    proof {
        assert((v as int) / 10 < pow10((w - 1) as nat)) by (nonlinear_arith)
            requires
                0 <= (v as int) && (v as int) < 10 * pow10((w - 1) as nat),
        ;
    }
    append_fixed(out, v / 10, w - 1);
    push_char(out, digit_char(v % 10));
    proof {
        assert(final(out)@ =~= old(out)@ + dec_fixed(v as int, w as nat));
    }
}

/// Appends the signed payload of `v`: a sign and nineteen digits.
fn append_i(out: &mut String, v: i64)
    ensures
        final(out)@ == old(out)@ + enc_i(v as int),
{
    proof {
        lemma_pow10_bounds();
    }
    if v < 0 {
        push_char(out, '-');
        let m = (-(v as i128)) as u128;
        append_fixed(out, m, 19);
    } else {
        push_char(out, '+');
        append_fixed(out, v as u128, 19);
    }
    proof {
        assert(final(out)@ =~= old(out)@ + enc_i(v as int));
    }
}

/// Appends the unsigned payload of `v`: thirty-nine digits.
fn append_u(out: &mut String, v: u128)
    ensures
        final(out)@ == old(out)@ + enc_u(v as int),
{
    proof {
        lemma_pow10_bounds();
    }
    append_fixed(out, v, 39);
}

/// Appends the twenty-digit length of the variable-width field.
fn append_len20(out: &mut String, l: usize)
    ensures
        final(out)@ == old(out)@ + dec_fixed(l as int, 20),
{
    proof {
        lemma_pow10_bounds();
    }
    append_fixed(out, l as u128, 20);
}

/// Whether two pieces of text hold the same characters.
fn str_eq(a: &str, b: &str) -> (r: bool)
    ensures
        r == (a@ == b@),
{
    let n = a.unicode_len();
    if n != b.unicode_len() {
        return false;
    }
    let mut i: usize = 0;
    while i < n
        invariant
            i <= n,
            n == a@.len(),
            n == b@.len(),
            forall|k: int| 0 <= k < i ==> a@[k] == b@[k],
        decreases n - i,
    {
        if a.get_char(i) != b.get_char(i) {
            return false;
        }
        i += 1;
    }
    proof {
        assert(a@ =~= b@);
    }
    true
}

/// Reads the `w`-digit window at `pos` leniently.
fn read_digits_loose(s: &str, pos: usize, w: usize) -> (r: u128)
    requires
        pos + w <= usize::MAX,
    ensures
        r as int == loose_digits(s@, pos as int, w as int),
{
    let ghost win = s@.subrange(pos as int, pos as int + w);
    let n = s.unicode_len();
    if pos > n || w > n - pos {
        return 0;
    }
    let mut acc: u128 = 0;
    let mut j: usize = 0;
    while j < w
        invariant
            j <= w,
            pos + w <= n,
            n == s@.len(),
            win == s@.subrange(pos as int, pos as int + w),
            win.len() == w,
            forall|k: int| 0 <= k < j ==> is_digit(win[k]),
            acc as int == digits_val(win.take(j as int)),
        decreases w - j,
    {
        let c = s.get_char(pos + j);
        let cv = c as u32;
        proof {
            assert(win[j as int] == s@[pos + j]);
        }
        if cv < 48 || cv > 57 {
            return 0;
        }
        let d = (cv - 48) as u128;
        proof {
            assert(win.take(j + 1).take(j as int) =~= win.take(j as int));
            assert(win.take(j + 1).last() == win[j as int]);
        }
        if acc > u128::MAX / 10 || (acc == u128::MAX / 10 && d > u128::MAX % 10) {
            proof {
                assert(acc as int * 10 + d > u128::MAX) by (nonlinear_arith)
                    requires
                        acc as int > u128::MAX / 10 || (acc as int == u128::MAX / 10 && d
                            > u128::MAX % 10),
                        acc >= 0,
                        0 <= d <= 9,
                ;
                if all_digits(win) {
                    lemma_digits_val_prefix(win, j + 1);
                }
            }
            return 0;
        }
        proof {
            assert(acc as int * 10 + d <= u128::MAX) by (nonlinear_arith)
                requires
                    acc as int <= u128::MAX / 10,
                    acc as int == u128::MAX / 10 ==> d <= u128::MAX % 10,
                    acc >= 0,
                    0 <= d <= 9,
            ;
        }
        acc = acc * 10 + d;
        j += 1;
    }
    proof {
        assert(win.take(w as int) =~= win);
    }
    acc
}

/// Reads the signed payload at `pos` leniently, clamped to 64 bits.
fn read_i64_loose(s: &str, pos: usize) -> (r: i64)
    requires
        pos + 20 <= usize::MAX,
    ensures
        r as int == loose_i64(s@, pos as int),
{
    let n = s.unicode_len();
    let neg = pos < n && s.get_char(pos) == '-';
    let m = read_digits_loose(s, pos + 1, 19);
    proof {
        lemma_pow10_bounds();
        let win = s@.subrange(pos as int + 1, pos as int + 20);
        if 0 <= pos as int + 1 && pos as int + 20 <= s@.len() && all_digits(win) && digits_val(win)
            <= u128::MAX as int {
            lemma_digits_val_bound(win);
        }
        assert((m as int) < pow10(19));
    }
    let v: i128 = if neg {
        -(m as i128)
    } else {
        m as i128
    };
    if v >= i64::MIN as i128 && v <= i64::MAX as i128 {
        v as i64
    } else {
        0
    }
}

/// Reads the character at `pos` leniently.
fn read_c_loose(s: &str, pos: usize) -> (r: char)
    ensures
        r == loose_c(s@, pos as int),
{
    let n = s.unicode_len();
    if pos < n {
        s.get_char(pos)
    } else {
        ' '
    }
}

/// Reads the variable-width field whose length stands at `lpos`.
fn read_str_loose(s: &str, lpos: usize) -> (r: String)
    requires
        lpos + 20 <= usize::MAX,
    ensures
        r@ == loose_str(s@, lpos as int),
{
    let n = s.unicode_len();
    let l128 = read_digits_loose(s, lpos, 20);
    if l128 <= usize::MAX as u128 {
        let l = l128 as usize;
        if lpos + 20 <= n && l <= n - (lpos + 20) {
            let t = s.substring_char(lpos + 20, lpos + 20 + l);
            t.to_owned()
        } else {
            String::new()
        }
    } else {
        String::new()
    }
}

/// Reads a signed payload clamped to 32 bits.
fn read_clamp_i32(s: &str, pos: usize) -> (r: i32)
    requires
        pos + 20 <= usize::MAX,
    ensures
        r == clamp_i32(loose_i64(s@, pos as int)),
{
    let v = read_i64_loose(s, pos);
    if v >= i32::MIN as i64 && v <= i32::MAX as i64 {
        v as i32
    } else {
        0
    }
}

/// Reads a signed payload clamped to 64 bits.
fn read_clamp_i64(s: &str, pos: usize) -> (r: i64)
    requires
        pos + 20 <= usize::MAX,
    ensures
        r == clamp_i64(loose_i64(s@, pos as int)),
{
    read_i64_loose(s, pos)
}

/// Reads an unsigned payload clamped to 32 bits.
fn read_clamp_u32(s: &str, pos: usize) -> (r: u32)
    requires
        pos + 39 <= usize::MAX,
    ensures
        r == clamp_u32(loose_digits(s@, pos as int, 39)),
{
    let m = read_digits_loose(s, pos, 39);
    if m <= u32::MAX as u128 {
        m as u32
    } else {
        0
    }
}

/// Reads an unsigned payload clamped to 64 bits.
fn read_clamp_u64(s: &str, pos: usize) -> (r: u64)
    requires
        pos + 39 <= usize::MAX,
    ensures
        r == clamp_u64(loose_digits(s@, pos as int, 39)),
{
    let m = read_digits_loose(s, pos, 39);
    if m <= u64::MAX as u128 {
        m as u64
    } else {
        0
    }
}

/// One stretch of the rendering of a record.
#[verifier::opaque]
pub open spec fn enc_part1(p: ProcessV) -> Seq<char> {
    "pid="@ + enc_i(p.pid as int) + "\n"@ + "state="@ + seq![p.state] + "\n"@ + "ppid="@ + enc_i(p.ppid as int) + "\n"@ + "pgrp="@ + enc_i(p.pgrp as int) + "\n"@ + "session="@ + enc_i(p.session as int) + "\n"@ + "tty_nr="@ + enc_i(p.tty_nr as int) + "\n"@ + "tpgid="@ + enc_i(p.tpgid as int) + "\n"@ + "flags="@ + enc_u(p.flags as int) + "\n"@ + "minflt="@ + enc_u(p.minflt as int) + "\n"@
}

/// One stretch of the rendering of a record.
#[verifier::opaque]
pub open spec fn enc_part2(p: ProcessV) -> Seq<char> {
    "cminflt="@ + enc_u(p.cminflt as int) + "\n"@ + "majflt="@ + enc_u(p.majflt as int) + "\n"@ + "cmajflt="@ + enc_u(p.cmajflt as int) + "\n"@ + "utime="@ + enc_u(p.utime as int) + "\n"@ + "stime="@ + enc_u(p.stime as int) + "\n"@ + "cutime="@ + enc_i(p.cutime as int) + "\n"@ + "cstime="@ + enc_i(p.cstime as int) + "\n"@ + "priority="@ + enc_i(p.priority as int) + "\n"@ + "nice="@ + enc_i(p.nice as int) + "\n"@
}

/// One stretch of the rendering of a record.
#[verifier::opaque]
pub open spec fn enc_part3(p: ProcessV) -> Seq<char> {
    "num_threads="@ + enc_i(p.num_threads as int) + "\n"@ + "itrealvalue="@ + enc_i(p.itrealvalue as int) + "\n"@ + "starttime="@ + enc_u(p.starttime as int) + "\n"@ + "vsize="@ + enc_u(p.vsize as int) + "\n"@ + "rss="@ + enc_i(p.rss as int) + "\n"@ + "rsslim="@ + enc_u(p.rsslim as int) + "\n"@ + "startcode="@ + enc_u(p.startcode as int) + "\n"@ + "endcode="@ + enc_u(p.endcode as int) + "\n"@ + "startstack="@ + enc_u(p.startstack as int) + "\n"@
}

/// One stretch of the rendering of a record.
#[verifier::opaque]
pub open spec fn enc_part4(p: ProcessV) -> Seq<char> {
    "kstkesp="@ + enc_u(p.kstkesp as int) + "\n"@ + "kstkeip="@ + enc_u(p.kstkeip as int) + "\n"@ + "signal="@ + enc_u(p.signal as int) + "\n"@ + "blocked="@ + enc_u(p.blocked as int) + "\n"@ + "sigignore="@ + enc_u(p.sigignore as int) + "\n"@ + "sigcatch="@ + enc_u(p.sigcatch as int) + "\n"@ + "wchan="@ + enc_u(p.wchan as int) + "\n"@ + "nswap="@ + enc_u(p.nswap as int) + "\n"@ + "cnswap="@ + enc_u(p.cnswap as int) + "\n"@
}

/// One stretch of the rendering of a record.
#[verifier::opaque]
pub open spec fn enc_part5(p: ProcessV) -> Seq<char> {
    "exit_signal="@ + enc_i(p.exit_signal as int) + "\n"@ + "processor="@ + enc_i(p.processor as int) + "\n"@ + "rt_priority="@ + enc_u(p.rt_priority as int) + "\n"@ + "policy="@ + enc_u(p.policy as int) + "\n"@ + "delayacct_blkio_ticks="@ + enc_u(p.delayacct_blkio_ticks as int) + "\n"@ + "guest_time="@ + enc_u(p.guest_time as int) + "\n"@ + "cguest_time="@ + enc_i(p.cguest_time as int) + "\n"@ + "start_data="@ + enc_u(p.start_data as int) + "\n"@ + "end_data="@ + enc_u(p.end_data as int) + "\n"@
}

/// One stretch of the rendering of a record.
#[verifier::opaque]
pub open spec fn enc_part6(p: ProcessV) -> Seq<char> {
    "start_brk="@ + enc_u(p.start_brk as int) + "\n"@ + "arg_start="@ + enc_u(p.arg_start as int) + "\n"@ + "arg_end="@ + enc_u(p.arg_end as int) + "\n"@ + "env_start="@ + enc_u(p.env_start as int) + "\n"@ + "env_end="@ + enc_u(p.env_end as int) + "\n"@ + "comm="@ + dec_fixed(p.comm.len() as int, 20) + p.comm + "\n"@
}

/// The interchange rendering of one record: every field in a fixed
/// order as `name=` followed by its fixed-width payload and a newline,
/// with the variable-width command name as the last item.
pub open spec fn enc_process(p: ProcessV) -> Seq<char> {
    enc_part1(p) + enc_part2(p) + enc_part3(p) + enc_part4(p) + enc_part5(p) + enc_part6(p)
}

/// The candidate record read back from the fixed positions of the
/// interchange rendering; on text that is no rendering the fields are
/// read leniently, and the re-encoding check of the decoder rejects it.
pub open spec fn extract_process(s: Seq<char>) -> ProcessV {
    ProcessV {
        pid: clamp_i32(loose_i64(s, 4)),
        state: loose_c(s, 31),
        ppid: clamp_i32(loose_i64(s, 38)),
        pgrp: clamp_i32(loose_i64(s, 64)),
        session: clamp_i32(loose_i64(s, 93)),
        tty_nr: clamp_i32(loose_i64(s, 121)),
        tpgid: clamp_i32(loose_i64(s, 148)),
        flags: clamp_u32(loose_digits(s, 175, 39)),
        minflt: clamp_u64(loose_digits(s, 222, 39)),
        cminflt: clamp_u64(loose_digits(s, 270, 39)),
        majflt: clamp_u64(loose_digits(s, 317, 39)),
        cmajflt: clamp_u64(loose_digits(s, 365, 39)),
        utime: clamp_u64(loose_digits(s, 411, 39)),
        stime: clamp_u64(loose_digits(s, 457, 39)),
        cutime: clamp_i64(loose_i64(s, 504)),
        cstime: clamp_i64(loose_i64(s, 532)),
        priority: clamp_i64(loose_i64(s, 562)),
        nice: clamp_i64(loose_i64(s, 588)),
        num_threads: clamp_i64(loose_i64(s, 621)),
        itrealvalue: clamp_i64(loose_i64(s, 654)),
        starttime: loose_digits(s, 685, 39) as u128,
        vsize: clamp_u64(loose_digits(s, 731, 39)),
        rss: clamp_i64(loose_i64(s, 775)),
        rsslim: clamp_u64(loose_digits(s, 803, 39)),
        startcode: clamp_u64(loose_digits(s, 853, 39)),
        endcode: clamp_u64(loose_digits(s, 901, 39)),
        startstack: clamp_u64(loose_digits(s, 952, 39)),
        kstkesp: clamp_u64(loose_digits(s, 1000, 39)),
        kstkeip: clamp_u64(loose_digits(s, 1048, 39)),
        signal: clamp_u64(loose_digits(s, 1095, 39)),
        blocked: clamp_u64(loose_digits(s, 1143, 39)),
        sigignore: clamp_u64(loose_digits(s, 1193, 39)),
        sigcatch: clamp_u64(loose_digits(s, 1242, 39)),
        wchan: clamp_u64(loose_digits(s, 1288, 39)),
        nswap: clamp_u64(loose_digits(s, 1334, 39)),
        cnswap: clamp_u64(loose_digits(s, 1381, 39)),
        exit_signal: clamp_i32(loose_i64(s, 1433)),
        processor: clamp_i32(loose_i64(s, 1464)),
        rt_priority: clamp_u32(loose_digits(s, 1497, 39)),
        policy: clamp_u32(loose_digits(s, 1544, 39)),
        delayacct_blkio_ticks: loose_digits(s, 1606, 39) as u128,
        guest_time: clamp_u64(loose_digits(s, 1657, 39)),
        cguest_time: clamp_i64(loose_i64(s, 1709)),
        start_data: clamp_u64(loose_digits(s, 1741, 39)),
        end_data: clamp_u64(loose_digits(s, 1790, 39)),
        start_brk: clamp_u64(loose_digits(s, 1840, 39)),
        arg_start: clamp_u64(loose_digits(s, 1890, 39)),
        arg_end: clamp_u64(loose_digits(s, 1938, 39)),
        env_start: clamp_u64(loose_digits(s, 1988, 39)),
        env_end: clamp_u64(loose_digits(s, 2036, 39)),
        comm: loose_str(s, 2081),
    }
}

/// A rendering is as long as its fixed part plus the command name,
/// whatever the field values.
pub proof fn lemma_enc_len(p: ProcessV)
    ensures
        enc_process(p).len() == 2102 + p.comm.len(),
{
    lemma_dec_fixed_len(if p.pid < 0 { -(p.pid as int) } else { p.pid as int }, 19);
    lemma_dec_fixed_len(if p.ppid < 0 { -(p.ppid as int) } else { p.ppid as int }, 19);
    lemma_dec_fixed_len(if p.pgrp < 0 { -(p.pgrp as int) } else { p.pgrp as int }, 19);
    lemma_dec_fixed_len(if p.session < 0 { -(p.session as int) } else { p.session as int }, 19);
    lemma_dec_fixed_len(if p.tty_nr < 0 { -(p.tty_nr as int) } else { p.tty_nr as int }, 19);
    lemma_dec_fixed_len(if p.tpgid < 0 { -(p.tpgid as int) } else { p.tpgid as int }, 19);
    lemma_dec_fixed_len(p.flags as int, 39);
    lemma_dec_fixed_len(p.minflt as int, 39);
    lemma_dec_fixed_len(p.cminflt as int, 39);
    lemma_dec_fixed_len(p.majflt as int, 39);
    lemma_dec_fixed_len(p.cmajflt as int, 39);
    lemma_dec_fixed_len(p.utime as int, 39);
    lemma_dec_fixed_len(p.stime as int, 39);
    lemma_dec_fixed_len(if p.cutime < 0 { -(p.cutime as int) } else { p.cutime as int }, 19);
    lemma_dec_fixed_len(if p.cstime < 0 { -(p.cstime as int) } else { p.cstime as int }, 19);
    lemma_dec_fixed_len(if p.priority < 0 { -(p.priority as int) } else { p.priority as int }, 19);
    lemma_dec_fixed_len(if p.nice < 0 { -(p.nice as int) } else { p.nice as int }, 19);
    lemma_dec_fixed_len(if p.num_threads < 0 { -(p.num_threads as int) } else { p.num_threads as int }, 19);
    lemma_dec_fixed_len(if p.itrealvalue < 0 { -(p.itrealvalue as int) } else { p.itrealvalue as int }, 19);
    lemma_dec_fixed_len(p.starttime as int, 39);
    lemma_dec_fixed_len(p.vsize as int, 39);
    lemma_dec_fixed_len(if p.rss < 0 { -(p.rss as int) } else { p.rss as int }, 19);
    lemma_dec_fixed_len(p.rsslim as int, 39);
    lemma_dec_fixed_len(p.startcode as int, 39);
    lemma_dec_fixed_len(p.endcode as int, 39);
    lemma_dec_fixed_len(p.startstack as int, 39);
    lemma_dec_fixed_len(p.kstkesp as int, 39);
    lemma_dec_fixed_len(p.kstkeip as int, 39);
    lemma_dec_fixed_len(p.signal as int, 39);
    lemma_dec_fixed_len(p.blocked as int, 39);
    lemma_dec_fixed_len(p.sigignore as int, 39);
    lemma_dec_fixed_len(p.sigcatch as int, 39);
    lemma_dec_fixed_len(p.wchan as int, 39);
    lemma_dec_fixed_len(p.nswap as int, 39);
    lemma_dec_fixed_len(p.cnswap as int, 39);
    lemma_dec_fixed_len(if p.exit_signal < 0 { -(p.exit_signal as int) } else { p.exit_signal as int }, 19);
    lemma_dec_fixed_len(if p.processor < 0 { -(p.processor as int) } else { p.processor as int }, 19);
    lemma_dec_fixed_len(p.rt_priority as int, 39);
    lemma_dec_fixed_len(p.policy as int, 39);
    lemma_dec_fixed_len(p.delayacct_blkio_ticks as int, 39);
    lemma_dec_fixed_len(p.guest_time as int, 39);
    lemma_dec_fixed_len(if p.cguest_time < 0 { -(p.cguest_time as int) } else { p.cguest_time as int }, 19);
    lemma_dec_fixed_len(p.start_data as int, 39);
    lemma_dec_fixed_len(p.end_data as int, 39);
    lemma_dec_fixed_len(p.start_brk as int, 39);
    lemma_dec_fixed_len(p.arg_start as int, 39);
    lemma_dec_fixed_len(p.arg_end as int, 39);
    lemma_dec_fixed_len(p.env_start as int, 39);
    lemma_dec_fixed_len(p.env_end as int, 39);
    lemma_dec_fixed_len(p.comm.len() as int, 20);
    assert(enc_part1(p).len() == 262) by {
        reveal(enc_part1);
        reveal_strlit("pid=");
        reveal_strlit("state=");
        reveal_strlit("ppid=");
        reveal_strlit("pgrp=");
        reveal_strlit("session=");
        reveal_strlit("tty_nr=");
        reveal_strlit("tpgid=");
        reveal_strlit("flags=");
        reveal_strlit("minflt=");
        reveal_strlit("\n");
    }
    assert(enc_part2(p).len() == 347) by {
        reveal(enc_part2);
        reveal_strlit("cminflt=");
        reveal_strlit("majflt=");
        reveal_strlit("cmajflt=");
        reveal_strlit("utime=");
        reveal_strlit("stime=");
        reveal_strlit("cutime=");
        reveal_strlit("cstime=");
        reveal_strlit("priority=");
        reveal_strlit("nice=");
        reveal_strlit("\n");
    }
    assert(enc_part3(p).len() == 383) by {
        reveal(enc_part3);
        reveal_strlit("num_threads=");
        reveal_strlit("itrealvalue=");
        reveal_strlit("starttime=");
        reveal_strlit("vsize=");
        reveal_strlit("rss=");
        reveal_strlit("rsslim=");
        reveal_strlit("startcode=");
        reveal_strlit("endcode=");
        reveal_strlit("startstack=");
        reveal_strlit("\n");
    }
    assert(enc_part4(p).len() == 429) by {
        reveal(enc_part4);
        reveal_strlit("kstkesp=");
        reveal_strlit("kstkeip=");
        reveal_strlit("signal=");
        reveal_strlit("blocked=");
        reveal_strlit("sigignore=");
        reveal_strlit("sigcatch=");
        reveal_strlit("wchan=");
        reveal_strlit("nswap=");
        reveal_strlit("cnswap=");
        reveal_strlit("\n");
    }
    assert(enc_part5(p).len() == 409) by {
        reveal(enc_part5);
        reveal_strlit("exit_signal=");
        reveal_strlit("processor=");
        reveal_strlit("rt_priority=");
        reveal_strlit("policy=");
        reveal_strlit("delayacct_blkio_ticks=");
        reveal_strlit("guest_time=");
        reveal_strlit("cguest_time=");
        reveal_strlit("start_data=");
        reveal_strlit("end_data=");
        reveal_strlit("\n");
    }
    assert(enc_part6(p).len() == 272 + p.comm.len()) by {
        reveal(enc_part6);
        reveal_strlit("start_brk=");
        reveal_strlit("arg_start=");
        reveal_strlit("arg_end=");
        reveal_strlit("env_start=");
        reveal_strlit("env_end=");
        reveal_strlit("comm=");
        reveal_strlit("\n");
    }
}

/// The fields of one stretch of a rendering read back exactly.
#[verifier::rlimit(100)]
#[verifier::spinoff_prover]
proof fn lemma_extract_part1(p: ProcessV)
    ensures
        loose_i64(enc_process(p), 4) == p.pid as int,
        loose_c(enc_process(p), 31) == p.state,
        loose_i64(enc_process(p), 38) == p.ppid as int,
        loose_i64(enc_process(p), 64) == p.pgrp as int,
        loose_i64(enc_process(p), 93) == p.session as int,
        loose_i64(enc_process(p), 121) == p.tty_nr as int,
        loose_i64(enc_process(p), 148) == p.tpgid as int,
        loose_digits(enc_process(p), 175, 39) == p.flags as int,
        loose_digits(enc_process(p), 222, 39) == p.minflt as int,
{
    lemma_pow10_bounds();
    let e = enc_process(p);
    let m_pid = if p.pid < 0 { -(p.pid as int) } else { p.pid as int };
    lemma_dec_fixed(m_pid, 19);
    let m_ppid = if p.ppid < 0 { -(p.ppid as int) } else { p.ppid as int };
    lemma_dec_fixed(m_ppid, 19);
    let m_pgrp = if p.pgrp < 0 { -(p.pgrp as int) } else { p.pgrp as int };
    lemma_dec_fixed(m_pgrp, 19);
    let m_session = if p.session < 0 { -(p.session as int) } else { p.session as int };
    lemma_dec_fixed(m_session, 19);
    let m_tty_nr = if p.tty_nr < 0 { -(p.tty_nr as int) } else { p.tty_nr as int };
    lemma_dec_fixed(m_tty_nr, 19);
    let m_tpgid = if p.tpgid < 0 { -(p.tpgid as int) } else { p.tpgid as int };
    lemma_dec_fixed(m_tpgid, 19);
    lemma_dec_fixed(p.flags as int, 39);
    lemma_dec_fixed(p.minflt as int, 39);
    lemma_dec_fixed(p.cminflt as int, 39);
    lemma_dec_fixed(p.majflt as int, 39);
    lemma_dec_fixed(p.cmajflt as int, 39);
    lemma_dec_fixed(p.utime as int, 39);
    lemma_dec_fixed(p.stime as int, 39);
    let m_cutime = if p.cutime < 0 { -(p.cutime as int) } else { p.cutime as int };
    lemma_dec_fixed(m_cutime, 19);
    let m_cstime = if p.cstime < 0 { -(p.cstime as int) } else { p.cstime as int };
    lemma_dec_fixed(m_cstime, 19);
    let m_priority = if p.priority < 0 { -(p.priority as int) } else { p.priority as int };
    lemma_dec_fixed(m_priority, 19);
    let m_nice = if p.nice < 0 { -(p.nice as int) } else { p.nice as int };
    lemma_dec_fixed(m_nice, 19);
    let m_num_threads = if p.num_threads < 0 { -(p.num_threads as int) } else { p.num_threads as int };
    lemma_dec_fixed(m_num_threads, 19);
    let m_itrealvalue = if p.itrealvalue < 0 { -(p.itrealvalue as int) } else { p.itrealvalue as int };
    lemma_dec_fixed(m_itrealvalue, 19);
    lemma_dec_fixed(p.starttime as int, 39);
    lemma_dec_fixed(p.vsize as int, 39);
    let m_rss = if p.rss < 0 { -(p.rss as int) } else { p.rss as int };
    lemma_dec_fixed(m_rss, 19);
    lemma_dec_fixed(p.rsslim as int, 39);
    lemma_dec_fixed(p.startcode as int, 39);
    lemma_dec_fixed(p.endcode as int, 39);
    lemma_dec_fixed(p.startstack as int, 39);
    lemma_dec_fixed(p.kstkesp as int, 39);
    lemma_dec_fixed(p.kstkeip as int, 39);
    lemma_dec_fixed(p.signal as int, 39);
    lemma_dec_fixed(p.blocked as int, 39);
    lemma_dec_fixed(p.sigignore as int, 39);
    lemma_dec_fixed(p.sigcatch as int, 39);
    lemma_dec_fixed(p.wchan as int, 39);
    lemma_dec_fixed(p.nswap as int, 39);
    lemma_dec_fixed(p.cnswap as int, 39);
    let m_exit_signal = if p.exit_signal < 0 { -(p.exit_signal as int) } else { p.exit_signal as int };
    lemma_dec_fixed(m_exit_signal, 19);
    let m_processor = if p.processor < 0 { -(p.processor as int) } else { p.processor as int };
    lemma_dec_fixed(m_processor, 19);
    lemma_dec_fixed(p.rt_priority as int, 39);
    lemma_dec_fixed(p.policy as int, 39);
    lemma_dec_fixed(p.delayacct_blkio_ticks as int, 39);
    lemma_dec_fixed(p.guest_time as int, 39);
    let m_cguest_time = if p.cguest_time < 0 { -(p.cguest_time as int) } else { p.cguest_time as int };
    lemma_dec_fixed(m_cguest_time, 19);
    lemma_dec_fixed(p.start_data as int, 39);
    lemma_dec_fixed(p.end_data as int, 39);
    lemma_dec_fixed(p.start_brk as int, 39);
    lemma_dec_fixed(p.arg_start as int, 39);
    lemma_dec_fixed(p.arg_end as int, 39);
    lemma_dec_fixed(p.env_start as int, 39);
    lemma_dec_fixed(p.env_end as int, 39);
    lemma_dec_fixed_len(if p.pid < 0 { -(p.pid as int) } else { p.pid as int }, 19);
    lemma_dec_fixed_len(if p.ppid < 0 { -(p.ppid as int) } else { p.ppid as int }, 19);
    lemma_dec_fixed_len(if p.pgrp < 0 { -(p.pgrp as int) } else { p.pgrp as int }, 19);
    lemma_dec_fixed_len(if p.session < 0 { -(p.session as int) } else { p.session as int }, 19);
    lemma_dec_fixed_len(if p.tty_nr < 0 { -(p.tty_nr as int) } else { p.tty_nr as int }, 19);
    lemma_dec_fixed_len(if p.tpgid < 0 { -(p.tpgid as int) } else { p.tpgid as int }, 19);
    lemma_dec_fixed_len(p.flags as int, 39);
    lemma_dec_fixed_len(p.minflt as int, 39);
    lemma_dec_fixed_len(p.cminflt as int, 39);
    lemma_dec_fixed_len(p.majflt as int, 39);
    lemma_dec_fixed_len(p.cmajflt as int, 39);
    lemma_dec_fixed_len(p.utime as int, 39);
    lemma_dec_fixed_len(p.stime as int, 39);
    lemma_dec_fixed_len(if p.cutime < 0 { -(p.cutime as int) } else { p.cutime as int }, 19);
    lemma_dec_fixed_len(if p.cstime < 0 { -(p.cstime as int) } else { p.cstime as int }, 19);
    lemma_dec_fixed_len(if p.priority < 0 { -(p.priority as int) } else { p.priority as int }, 19);
    lemma_dec_fixed_len(if p.nice < 0 { -(p.nice as int) } else { p.nice as int }, 19);
    lemma_dec_fixed_len(if p.num_threads < 0 { -(p.num_threads as int) } else { p.num_threads as int }, 19);
    lemma_dec_fixed_len(if p.itrealvalue < 0 { -(p.itrealvalue as int) } else { p.itrealvalue as int }, 19);
    lemma_dec_fixed_len(p.starttime as int, 39);
    lemma_dec_fixed_len(p.vsize as int, 39);
    lemma_dec_fixed_len(if p.rss < 0 { -(p.rss as int) } else { p.rss as int }, 19);
    lemma_dec_fixed_len(p.rsslim as int, 39);
    lemma_dec_fixed_len(p.startcode as int, 39);
    lemma_dec_fixed_len(p.endcode as int, 39);
    lemma_dec_fixed_len(p.startstack as int, 39);
    lemma_dec_fixed_len(p.kstkesp as int, 39);
    lemma_dec_fixed_len(p.kstkeip as int, 39);
    lemma_dec_fixed_len(p.signal as int, 39);
    lemma_dec_fixed_len(p.blocked as int, 39);
    lemma_dec_fixed_len(p.sigignore as int, 39);
    lemma_dec_fixed_len(p.sigcatch as int, 39);
    lemma_dec_fixed_len(p.wchan as int, 39);
    lemma_dec_fixed_len(p.nswap as int, 39);
    lemma_dec_fixed_len(p.cnswap as int, 39);
    lemma_dec_fixed_len(if p.exit_signal < 0 { -(p.exit_signal as int) } else { p.exit_signal as int }, 19);
    lemma_dec_fixed_len(if p.processor < 0 { -(p.processor as int) } else { p.processor as int }, 19);
    lemma_dec_fixed_len(p.rt_priority as int, 39);
    lemma_dec_fixed_len(p.policy as int, 39);
    lemma_dec_fixed_len(p.delayacct_blkio_ticks as int, 39);
    lemma_dec_fixed_len(p.guest_time as int, 39);
    lemma_dec_fixed_len(if p.cguest_time < 0 { -(p.cguest_time as int) } else { p.cguest_time as int }, 19);
    lemma_dec_fixed_len(p.start_data as int, 39);
    lemma_dec_fixed_len(p.end_data as int, 39);
    lemma_dec_fixed_len(p.start_brk as int, 39);
    lemma_dec_fixed_len(p.arg_start as int, 39);
    lemma_dec_fixed_len(p.arg_end as int, 39);
    lemma_dec_fixed_len(p.env_start as int, 39);
    lemma_dec_fixed_len(p.env_end as int, 39);
    lemma_dec_fixed_len(p.comm.len() as int, 20);
    assert(enc_part1(p).len() == 262) by {
        reveal(enc_part1);
        reveal_strlit("pid=");
        reveal_strlit("state=");
        reveal_strlit("ppid=");
        reveal_strlit("pgrp=");
        reveal_strlit("session=");
        reveal_strlit("tty_nr=");
        reveal_strlit("tpgid=");
        reveal_strlit("flags=");
        reveal_strlit("minflt=");
        reveal_strlit("\n");
    }
    assert(enc_part2(p).len() == 347) by {
        reveal(enc_part2);
        reveal_strlit("cminflt=");
        reveal_strlit("majflt=");
        reveal_strlit("cmajflt=");
        reveal_strlit("utime=");
        reveal_strlit("stime=");
        reveal_strlit("cutime=");
        reveal_strlit("cstime=");
        reveal_strlit("priority=");
        reveal_strlit("nice=");
        reveal_strlit("\n");
    }
    assert(enc_part3(p).len() == 383) by {
        reveal(enc_part3);
        reveal_strlit("num_threads=");
        reveal_strlit("itrealvalue=");
        reveal_strlit("starttime=");
        reveal_strlit("vsize=");
        reveal_strlit("rss=");
        reveal_strlit("rsslim=");
        reveal_strlit("startcode=");
        reveal_strlit("endcode=");
        reveal_strlit("startstack=");
        reveal_strlit("\n");
    }
    assert(enc_part4(p).len() == 429) by {
        reveal(enc_part4);
        reveal_strlit("kstkesp=");
        reveal_strlit("kstkeip=");
        reveal_strlit("signal=");
        reveal_strlit("blocked=");
        reveal_strlit("sigignore=");
        reveal_strlit("sigcatch=");
        reveal_strlit("wchan=");
        reveal_strlit("nswap=");
        reveal_strlit("cnswap=");
        reveal_strlit("\n");
    }
    assert(enc_part5(p).len() == 409) by {
        reveal(enc_part5);
        reveal_strlit("exit_signal=");
        reveal_strlit("processor=");
        reveal_strlit("rt_priority=");
        reveal_strlit("policy=");
        reveal_strlit("delayacct_blkio_ticks=");
        reveal_strlit("guest_time=");
        reveal_strlit("cguest_time=");
        reveal_strlit("start_data=");
        reveal_strlit("end_data=");
        reveal_strlit("\n");
    }
    assert(enc_part6(p).len() == 272 + p.comm.len()) by {
        reveal(enc_part6);
        reveal_strlit("start_brk=");
        reveal_strlit("arg_start=");
        reveal_strlit("arg_end=");
        reveal_strlit("env_start=");
        reveal_strlit("env_end=");
        reveal_strlit("comm=");
        reveal_strlit("\n");
    }
    assert(e.subrange(0, 262) =~= enc_part1(p));
    assert(e.subrange(262, 609) =~= enc_part2(p));
    assert(e.subrange(609, 992) =~= enc_part3(p));
    assert(e.subrange(992, 1421) =~= enc_part4(p));
    assert(e.subrange(1421, 1830) =~= enc_part5(p));
    assert(e.subrange(1830, e.len() as int) =~= enc_part6(p));
    assert(enc_part1(p)[4] == enc_i(p.pid as int)[0] && enc_part1(p).subrange(5, 24) =~= dec_fixed(m_pid, 19)) by {
        reveal(enc_part1);
        reveal_strlit("pid=");
        reveal_strlit("state=");
        reveal_strlit("ppid=");
        reveal_strlit("pgrp=");
        reveal_strlit("session=");
        reveal_strlit("tty_nr=");
        reveal_strlit("tpgid=");
        reveal_strlit("flags=");
        reveal_strlit("minflt=");
        reveal_strlit("\n");
    }
    assert(e[4] == enc_part1(p)[4]);
    assert(e.subrange(5, 24) =~= enc_part1(p).subrange(5, 24));
    assert(loose_i64(e, 4) == p.pid as int);
    assert(enc_part1(p)[31] == p.state) by {
        reveal(enc_part1);
        reveal_strlit("pid=");
        reveal_strlit("state=");
        reveal_strlit("ppid=");
        reveal_strlit("pgrp=");
        reveal_strlit("session=");
        reveal_strlit("tty_nr=");
        reveal_strlit("tpgid=");
        reveal_strlit("flags=");
        reveal_strlit("minflt=");
        reveal_strlit("\n");
    }
    assert(e[31] == enc_part1(p)[31]);
    assert(loose_c(e, 31) == p.state);
    assert(enc_part1(p)[38] == enc_i(p.ppid as int)[0] && enc_part1(p).subrange(39, 58) =~= dec_fixed(m_ppid, 19)) by {
        reveal(enc_part1);
        reveal_strlit("pid=");
        reveal_strlit("state=");
        reveal_strlit("ppid=");
        reveal_strlit("pgrp=");
        reveal_strlit("session=");
        reveal_strlit("tty_nr=");
        reveal_strlit("tpgid=");
        reveal_strlit("flags=");
        reveal_strlit("minflt=");
        reveal_strlit("\n");
    }
    assert(e[38] == enc_part1(p)[38]);
    assert(e.subrange(39, 58) =~= enc_part1(p).subrange(39, 58));
    assert(loose_i64(e, 38) == p.ppid as int);
    assert(enc_part1(p)[64] == enc_i(p.pgrp as int)[0] && enc_part1(p).subrange(65, 84) =~= dec_fixed(m_pgrp, 19)) by {
        reveal(enc_part1);
        reveal_strlit("pid=");
        reveal_strlit("state=");
        reveal_strlit("ppid=");
        reveal_strlit("pgrp=");
        reveal_strlit("session=");
        reveal_strlit("tty_nr=");
        reveal_strlit("tpgid=");
        reveal_strlit("flags=");
        reveal_strlit("minflt=");
        reveal_strlit("\n");
    }
    assert(e[64] == enc_part1(p)[64]);
    assert(e.subrange(65, 84) =~= enc_part1(p).subrange(65, 84));
    assert(loose_i64(e, 64) == p.pgrp as int);
    assert(enc_part1(p)[93] == enc_i(p.session as int)[0] && enc_part1(p).subrange(94, 113) =~= dec_fixed(m_session, 19)) by {
        reveal(enc_part1);
        reveal_strlit("pid=");
        reveal_strlit("state=");
        reveal_strlit("ppid=");
        reveal_strlit("pgrp=");
        reveal_strlit("session=");
        reveal_strlit("tty_nr=");
        reveal_strlit("tpgid=");
        reveal_strlit("flags=");
        reveal_strlit("minflt=");
        reveal_strlit("\n");
    }
    assert(e[93] == enc_part1(p)[93]);
    assert(e.subrange(94, 113) =~= enc_part1(p).subrange(94, 113));
    assert(loose_i64(e, 93) == p.session as int);
    assert(enc_part1(p)[121] == enc_i(p.tty_nr as int)[0] && enc_part1(p).subrange(122, 141) =~= dec_fixed(m_tty_nr, 19)) by {
        reveal(enc_part1);
        reveal_strlit("pid=");
        reveal_strlit("state=");
        reveal_strlit("ppid=");
        reveal_strlit("pgrp=");
        reveal_strlit("session=");
        reveal_strlit("tty_nr=");
        reveal_strlit("tpgid=");
        reveal_strlit("flags=");
        reveal_strlit("minflt=");
        reveal_strlit("\n");
    }
    assert(e[121] == enc_part1(p)[121]);
    assert(e.subrange(122, 141) =~= enc_part1(p).subrange(122, 141));
    assert(loose_i64(e, 121) == p.tty_nr as int);
    assert(enc_part1(p)[148] == enc_i(p.tpgid as int)[0] && enc_part1(p).subrange(149, 168) =~= dec_fixed(m_tpgid, 19)) by {
        reveal(enc_part1);
        reveal_strlit("pid=");
        reveal_strlit("state=");
        reveal_strlit("ppid=");
        reveal_strlit("pgrp=");
        reveal_strlit("session=");
        reveal_strlit("tty_nr=");
        reveal_strlit("tpgid=");
        reveal_strlit("flags=");
        reveal_strlit("minflt=");
        reveal_strlit("\n");
    }
    assert(e[148] == enc_part1(p)[148]);
    assert(e.subrange(149, 168) =~= enc_part1(p).subrange(149, 168));
    assert(loose_i64(e, 148) == p.tpgid as int);
    assert(enc_part1(p).subrange(175, 214) =~= dec_fixed(p.flags as int, 39)) by {
        reveal(enc_part1);
        reveal_strlit("pid=");
        reveal_strlit("state=");
        reveal_strlit("ppid=");
        reveal_strlit("pgrp=");
        reveal_strlit("session=");
        reveal_strlit("tty_nr=");
        reveal_strlit("tpgid=");
        reveal_strlit("flags=");
        reveal_strlit("minflt=");
        reveal_strlit("\n");
    }
    assert(e.subrange(175, 214) =~= enc_part1(p).subrange(175, 214));
    assert(loose_digits(e, 175, 39) == p.flags as int);
    assert(enc_part1(p).subrange(222, 261) =~= dec_fixed(p.minflt as int, 39)) by {
        reveal(enc_part1);
        reveal_strlit("pid=");
        reveal_strlit("state=");
        reveal_strlit("ppid=");
        reveal_strlit("pgrp=");
        reveal_strlit("session=");
        reveal_strlit("tty_nr=");
        reveal_strlit("tpgid=");
        reveal_strlit("flags=");
        reveal_strlit("minflt=");
        reveal_strlit("\n");
    }
    assert(e.subrange(222, 261) =~= enc_part1(p).subrange(222, 261));
    assert(loose_digits(e, 222, 39) == p.minflt as int);
}

/// The fields of one stretch of a rendering read back exactly.
#[verifier::rlimit(100)]
#[verifier::spinoff_prover]
proof fn lemma_extract_part2(p: ProcessV)
    ensures
        loose_digits(enc_process(p), 270, 39) == p.cminflt as int,
        loose_digits(enc_process(p), 317, 39) == p.majflt as int,
        loose_digits(enc_process(p), 365, 39) == p.cmajflt as int,
        loose_digits(enc_process(p), 411, 39) == p.utime as int,
        loose_digits(enc_process(p), 457, 39) == p.stime as int,
        loose_i64(enc_process(p), 504) == p.cutime as int,
        loose_i64(enc_process(p), 532) == p.cstime as int,
        loose_i64(enc_process(p), 562) == p.priority as int,
        loose_i64(enc_process(p), 588) == p.nice as int,
{
    lemma_pow10_bounds();
    let e = enc_process(p);
    let m_pid = if p.pid < 0 { -(p.pid as int) } else { p.pid as int };
    lemma_dec_fixed(m_pid, 19);
    let m_ppid = if p.ppid < 0 { -(p.ppid as int) } else { p.ppid as int };
    lemma_dec_fixed(m_ppid, 19);
    let m_pgrp = if p.pgrp < 0 { -(p.pgrp as int) } else { p.pgrp as int };
    lemma_dec_fixed(m_pgrp, 19);
    let m_session = if p.session < 0 { -(p.session as int) } else { p.session as int };
    lemma_dec_fixed(m_session, 19);
    let m_tty_nr = if p.tty_nr < 0 { -(p.tty_nr as int) } else { p.tty_nr as int };
    lemma_dec_fixed(m_tty_nr, 19);
    let m_tpgid = if p.tpgid < 0 { -(p.tpgid as int) } else { p.tpgid as int };
    lemma_dec_fixed(m_tpgid, 19);
    lemma_dec_fixed(p.flags as int, 39);
    lemma_dec_fixed(p.minflt as int, 39);
    lemma_dec_fixed(p.cminflt as int, 39);
    lemma_dec_fixed(p.majflt as int, 39);
    lemma_dec_fixed(p.cmajflt as int, 39);
    lemma_dec_fixed(p.utime as int, 39);
    lemma_dec_fixed(p.stime as int, 39);
    let m_cutime = if p.cutime < 0 { -(p.cutime as int) } else { p.cutime as int };
    lemma_dec_fixed(m_cutime, 19);
    let m_cstime = if p.cstime < 0 { -(p.cstime as int) } else { p.cstime as int };
    lemma_dec_fixed(m_cstime, 19);
    let m_priority = if p.priority < 0 { -(p.priority as int) } else { p.priority as int };
    lemma_dec_fixed(m_priority, 19);
    let m_nice = if p.nice < 0 { -(p.nice as int) } else { p.nice as int };
    lemma_dec_fixed(m_nice, 19);
    let m_num_threads = if p.num_threads < 0 { -(p.num_threads as int) } else { p.num_threads as int };
    lemma_dec_fixed(m_num_threads, 19);
    let m_itrealvalue = if p.itrealvalue < 0 { -(p.itrealvalue as int) } else { p.itrealvalue as int };
    lemma_dec_fixed(m_itrealvalue, 19);
    lemma_dec_fixed(p.starttime as int, 39);
    lemma_dec_fixed(p.vsize as int, 39);
    let m_rss = if p.rss < 0 { -(p.rss as int) } else { p.rss as int };
    lemma_dec_fixed(m_rss, 19);
    lemma_dec_fixed(p.rsslim as int, 39);
    lemma_dec_fixed(p.startcode as int, 39);
    lemma_dec_fixed(p.endcode as int, 39);
    lemma_dec_fixed(p.startstack as int, 39);
    lemma_dec_fixed(p.kstkesp as int, 39);
    lemma_dec_fixed(p.kstkeip as int, 39);
    lemma_dec_fixed(p.signal as int, 39);
    lemma_dec_fixed(p.blocked as int, 39);
    lemma_dec_fixed(p.sigignore as int, 39);
    lemma_dec_fixed(p.sigcatch as int, 39);
    lemma_dec_fixed(p.wchan as int, 39);
    lemma_dec_fixed(p.nswap as int, 39);
    lemma_dec_fixed(p.cnswap as int, 39);
    let m_exit_signal = if p.exit_signal < 0 { -(p.exit_signal as int) } else { p.exit_signal as int };
    lemma_dec_fixed(m_exit_signal, 19);
    let m_processor = if p.processor < 0 { -(p.processor as int) } else { p.processor as int };
    lemma_dec_fixed(m_processor, 19);
    lemma_dec_fixed(p.rt_priority as int, 39);
    lemma_dec_fixed(p.policy as int, 39);
    lemma_dec_fixed(p.delayacct_blkio_ticks as int, 39);
    lemma_dec_fixed(p.guest_time as int, 39);
    let m_cguest_time = if p.cguest_time < 0 { -(p.cguest_time as int) } else { p.cguest_time as int };
    lemma_dec_fixed(m_cguest_time, 19);
    lemma_dec_fixed(p.start_data as int, 39);
    lemma_dec_fixed(p.end_data as int, 39);
    lemma_dec_fixed(p.start_brk as int, 39);
    lemma_dec_fixed(p.arg_start as int, 39);
    lemma_dec_fixed(p.arg_end as int, 39);
    lemma_dec_fixed(p.env_start as int, 39);
    lemma_dec_fixed(p.env_end as int, 39);
    lemma_dec_fixed_len(if p.pid < 0 { -(p.pid as int) } else { p.pid as int }, 19);
    lemma_dec_fixed_len(if p.ppid < 0 { -(p.ppid as int) } else { p.ppid as int }, 19);
    lemma_dec_fixed_len(if p.pgrp < 0 { -(p.pgrp as int) } else { p.pgrp as int }, 19);
    lemma_dec_fixed_len(if p.session < 0 { -(p.session as int) } else { p.session as int }, 19);
    lemma_dec_fixed_len(if p.tty_nr < 0 { -(p.tty_nr as int) } else { p.tty_nr as int }, 19);
    lemma_dec_fixed_len(if p.tpgid < 0 { -(p.tpgid as int) } else { p.tpgid as int }, 19);
    lemma_dec_fixed_len(p.flags as int, 39);
    lemma_dec_fixed_len(p.minflt as int, 39);
    lemma_dec_fixed_len(p.cminflt as int, 39);
    lemma_dec_fixed_len(p.majflt as int, 39);
    lemma_dec_fixed_len(p.cmajflt as int, 39);
    lemma_dec_fixed_len(p.utime as int, 39);
    lemma_dec_fixed_len(p.stime as int, 39);
    lemma_dec_fixed_len(if p.cutime < 0 { -(p.cutime as int) } else { p.cutime as int }, 19);
    lemma_dec_fixed_len(if p.cstime < 0 { -(p.cstime as int) } else { p.cstime as int }, 19);
    lemma_dec_fixed_len(if p.priority < 0 { -(p.priority as int) } else { p.priority as int }, 19);
    lemma_dec_fixed_len(if p.nice < 0 { -(p.nice as int) } else { p.nice as int }, 19);
    lemma_dec_fixed_len(if p.num_threads < 0 { -(p.num_threads as int) } else { p.num_threads as int }, 19);
    lemma_dec_fixed_len(if p.itrealvalue < 0 { -(p.itrealvalue as int) } else { p.itrealvalue as int }, 19);
    lemma_dec_fixed_len(p.starttime as int, 39);
    lemma_dec_fixed_len(p.vsize as int, 39);
    lemma_dec_fixed_len(if p.rss < 0 { -(p.rss as int) } else { p.rss as int }, 19);
    lemma_dec_fixed_len(p.rsslim as int, 39);
    lemma_dec_fixed_len(p.startcode as int, 39);
    lemma_dec_fixed_len(p.endcode as int, 39);
    lemma_dec_fixed_len(p.startstack as int, 39);
    lemma_dec_fixed_len(p.kstkesp as int, 39);
    lemma_dec_fixed_len(p.kstkeip as int, 39);
    lemma_dec_fixed_len(p.signal as int, 39);
    lemma_dec_fixed_len(p.blocked as int, 39);
    lemma_dec_fixed_len(p.sigignore as int, 39);
    lemma_dec_fixed_len(p.sigcatch as int, 39);
    lemma_dec_fixed_len(p.wchan as int, 39);
    lemma_dec_fixed_len(p.nswap as int, 39);
    lemma_dec_fixed_len(p.cnswap as int, 39);
    lemma_dec_fixed_len(if p.exit_signal < 0 { -(p.exit_signal as int) } else { p.exit_signal as int }, 19);
    lemma_dec_fixed_len(if p.processor < 0 { -(p.processor as int) } else { p.processor as int }, 19);
    lemma_dec_fixed_len(p.rt_priority as int, 39);
    lemma_dec_fixed_len(p.policy as int, 39);
    lemma_dec_fixed_len(p.delayacct_blkio_ticks as int, 39);
    lemma_dec_fixed_len(p.guest_time as int, 39);
    lemma_dec_fixed_len(if p.cguest_time < 0 { -(p.cguest_time as int) } else { p.cguest_time as int }, 19);
    lemma_dec_fixed_len(p.start_data as int, 39);
    lemma_dec_fixed_len(p.end_data as int, 39);
    lemma_dec_fixed_len(p.start_brk as int, 39);
    lemma_dec_fixed_len(p.arg_start as int, 39);
    lemma_dec_fixed_len(p.arg_end as int, 39);
    lemma_dec_fixed_len(p.env_start as int, 39);
    lemma_dec_fixed_len(p.env_end as int, 39);
    lemma_dec_fixed_len(p.comm.len() as int, 20);
    assert(enc_part1(p).len() == 262) by {
        reveal(enc_part1);
        reveal_strlit("pid=");
        reveal_strlit("state=");
        reveal_strlit("ppid=");
        reveal_strlit("pgrp=");
        reveal_strlit("session=");
        reveal_strlit("tty_nr=");
        reveal_strlit("tpgid=");
        reveal_strlit("flags=");
        reveal_strlit("minflt=");
        reveal_strlit("\n");
    }
    assert(enc_part2(p).len() == 347) by {
        reveal(enc_part2);
        reveal_strlit("cminflt=");
        reveal_strlit("majflt=");
        reveal_strlit("cmajflt=");
        reveal_strlit("utime=");
        reveal_strlit("stime=");
        reveal_strlit("cutime=");
        reveal_strlit("cstime=");
        reveal_strlit("priority=");
        reveal_strlit("nice=");
        reveal_strlit("\n");
    }
    assert(enc_part3(p).len() == 383) by {
        reveal(enc_part3);
        reveal_strlit("num_threads=");
        reveal_strlit("itrealvalue=");
        reveal_strlit("starttime=");
        reveal_strlit("vsize=");
        reveal_strlit("rss=");
        reveal_strlit("rsslim=");
        reveal_strlit("startcode=");
        reveal_strlit("endcode=");
        reveal_strlit("startstack=");
        reveal_strlit("\n");
    }
    assert(enc_part4(p).len() == 429) by {
        reveal(enc_part4);
        reveal_strlit("kstkesp=");
        reveal_strlit("kstkeip=");
        reveal_strlit("signal=");
        reveal_strlit("blocked=");
        reveal_strlit("sigignore=");
        reveal_strlit("sigcatch=");
        reveal_strlit("wchan=");
        reveal_strlit("nswap=");
        reveal_strlit("cnswap=");
        reveal_strlit("\n");
    }
    assert(enc_part5(p).len() == 409) by {
        reveal(enc_part5);
        reveal_strlit("exit_signal=");
        reveal_strlit("processor=");
        reveal_strlit("rt_priority=");
        reveal_strlit("policy=");
        reveal_strlit("delayacct_blkio_ticks=");
        reveal_strlit("guest_time=");
        reveal_strlit("cguest_time=");
        reveal_strlit("start_data=");
        reveal_strlit("end_data=");
        reveal_strlit("\n");
    }
    assert(enc_part6(p).len() == 272 + p.comm.len()) by {
        reveal(enc_part6);
        reveal_strlit("start_brk=");
        reveal_strlit("arg_start=");
        reveal_strlit("arg_end=");
        reveal_strlit("env_start=");
        reveal_strlit("env_end=");
        reveal_strlit("comm=");
        reveal_strlit("\n");
    }
    assert(e.subrange(0, 262) =~= enc_part1(p));
    assert(e.subrange(262, 609) =~= enc_part2(p));
    assert(e.subrange(609, 992) =~= enc_part3(p));
    assert(e.subrange(992, 1421) =~= enc_part4(p));
    assert(e.subrange(1421, 1830) =~= enc_part5(p));
    assert(e.subrange(1830, e.len() as int) =~= enc_part6(p));
    assert(enc_part2(p).subrange(8, 47) =~= dec_fixed(p.cminflt as int, 39)) by {
        reveal(enc_part2);
        reveal_strlit("cminflt=");
        reveal_strlit("majflt=");
        reveal_strlit("cmajflt=");
        reveal_strlit("utime=");
        reveal_strlit("stime=");
        reveal_strlit("cutime=");
        reveal_strlit("cstime=");
        reveal_strlit("priority=");
        reveal_strlit("nice=");
        reveal_strlit("\n");
    }
    assert(e.subrange(270, 309) =~= enc_part2(p).subrange(8, 47));
    assert(loose_digits(e, 270, 39) == p.cminflt as int);
    assert(enc_part2(p).subrange(55, 94) =~= dec_fixed(p.majflt as int, 39)) by {
        reveal(enc_part2);
        reveal_strlit("cminflt=");
        reveal_strlit("majflt=");
        reveal_strlit("cmajflt=");
        reveal_strlit("utime=");
        reveal_strlit("stime=");
        reveal_strlit("cutime=");
        reveal_strlit("cstime=");
        reveal_strlit("priority=");
        reveal_strlit("nice=");
        reveal_strlit("\n");
    }
    assert(e.subrange(317, 356) =~= enc_part2(p).subrange(55, 94));
    assert(loose_digits(e, 317, 39) == p.majflt as int);
    assert(enc_part2(p).subrange(103, 142) =~= dec_fixed(p.cmajflt as int, 39)) by {
        reveal(enc_part2);
        reveal_strlit("cminflt=");
        reveal_strlit("majflt=");
        reveal_strlit("cmajflt=");
        reveal_strlit("utime=");
        reveal_strlit("stime=");
        reveal_strlit("cutime=");
        reveal_strlit("cstime=");
        reveal_strlit("priority=");
        reveal_strlit("nice=");
        reveal_strlit("\n");
    }
    assert(e.subrange(365, 404) =~= enc_part2(p).subrange(103, 142));
    assert(loose_digits(e, 365, 39) == p.cmajflt as int);
    assert(enc_part2(p).subrange(149, 188) =~= dec_fixed(p.utime as int, 39)) by {
        reveal(enc_part2);
        reveal_strlit("cminflt=");
        reveal_strlit("majflt=");
        reveal_strlit("cmajflt=");
        reveal_strlit("utime=");
        reveal_strlit("stime=");
        reveal_strlit("cutime=");
        reveal_strlit("cstime=");
        reveal_strlit("priority=");
        reveal_strlit("nice=");
        reveal_strlit("\n");
    }
    assert(e.subrange(411, 450) =~= enc_part2(p).subrange(149, 188));
    assert(loose_digits(e, 411, 39) == p.utime as int);
    assert(enc_part2(p).subrange(195, 234) =~= dec_fixed(p.stime as int, 39)) by {
        reveal(enc_part2);
        reveal_strlit("cminflt=");
        reveal_strlit("majflt=");
        reveal_strlit("cmajflt=");
        reveal_strlit("utime=");
        reveal_strlit("stime=");
        reveal_strlit("cutime=");
        reveal_strlit("cstime=");
        reveal_strlit("priority=");
        reveal_strlit("nice=");
        reveal_strlit("\n");
    }
    assert(e.subrange(457, 496) =~= enc_part2(p).subrange(195, 234));
    assert(loose_digits(e, 457, 39) == p.stime as int);
    assert(enc_part2(p)[242] == enc_i(p.cutime as int)[0] && enc_part2(p).subrange(243, 262) =~= dec_fixed(m_cutime, 19)) by {
        reveal(enc_part2);
        reveal_strlit("cminflt=");
        reveal_strlit("majflt=");
        reveal_strlit("cmajflt=");
        reveal_strlit("utime=");
        reveal_strlit("stime=");
        reveal_strlit("cutime=");
        reveal_strlit("cstime=");
        reveal_strlit("priority=");
        reveal_strlit("nice=");
        reveal_strlit("\n");
    }
    assert(e[504] == enc_part2(p)[242]);
    assert(e.subrange(505, 524) =~= enc_part2(p).subrange(243, 262));
    assert(loose_i64(e, 504) == p.cutime as int);
    assert(enc_part2(p)[270] == enc_i(p.cstime as int)[0] && enc_part2(p).subrange(271, 290) =~= dec_fixed(m_cstime, 19)) by {
        reveal(enc_part2);
        reveal_strlit("cminflt=");
        reveal_strlit("majflt=");
        reveal_strlit("cmajflt=");
        reveal_strlit("utime=");
        reveal_strlit("stime=");
        reveal_strlit("cutime=");
        reveal_strlit("cstime=");
        reveal_strlit("priority=");
        reveal_strlit("nice=");
        reveal_strlit("\n");
    }
    assert(e[532] == enc_part2(p)[270]);
    assert(e.subrange(533, 552) =~= enc_part2(p).subrange(271, 290));
    assert(loose_i64(e, 532) == p.cstime as int);
    assert(enc_part2(p)[300] == enc_i(p.priority as int)[0] && enc_part2(p).subrange(301, 320) =~= dec_fixed(m_priority, 19)) by {
        reveal(enc_part2);
        reveal_strlit("cminflt=");
        reveal_strlit("majflt=");
        reveal_strlit("cmajflt=");
        reveal_strlit("utime=");
        reveal_strlit("stime=");
        reveal_strlit("cutime=");
        reveal_strlit("cstime=");
        reveal_strlit("priority=");
        reveal_strlit("nice=");
        reveal_strlit("\n");
    }
    assert(e[562] == enc_part2(p)[300]);
    assert(e.subrange(563, 582) =~= enc_part2(p).subrange(301, 320));
    assert(loose_i64(e, 562) == p.priority as int);
    assert(enc_part2(p)[326] == enc_i(p.nice as int)[0] && enc_part2(p).subrange(327, 346) =~= dec_fixed(m_nice, 19)) by {
        reveal(enc_part2);
        reveal_strlit("cminflt=");
        reveal_strlit("majflt=");
        reveal_strlit("cmajflt=");
        reveal_strlit("utime=");
        reveal_strlit("stime=");
        reveal_strlit("cutime=");
        reveal_strlit("cstime=");
        reveal_strlit("priority=");
        reveal_strlit("nice=");
        reveal_strlit("\n");
    }
    assert(e[588] == enc_part2(p)[326]);
    assert(e.subrange(589, 608) =~= enc_part2(p).subrange(327, 346));
    assert(loose_i64(e, 588) == p.nice as int);
}

/// The fields of one stretch of a rendering read back exactly.
#[verifier::rlimit(100)]
#[verifier::spinoff_prover]
proof fn lemma_extract_part3(p: ProcessV)
    ensures
        loose_i64(enc_process(p), 621) == p.num_threads as int,
        loose_i64(enc_process(p), 654) == p.itrealvalue as int,
        loose_digits(enc_process(p), 685, 39) == p.starttime as int,
        loose_digits(enc_process(p), 731, 39) == p.vsize as int,
        loose_i64(enc_process(p), 775) == p.rss as int,
        loose_digits(enc_process(p), 803, 39) == p.rsslim as int,
        loose_digits(enc_process(p), 853, 39) == p.startcode as int,
        loose_digits(enc_process(p), 901, 39) == p.endcode as int,
        loose_digits(enc_process(p), 952, 39) == p.startstack as int,
{
    lemma_pow10_bounds();
    let e = enc_process(p);
    let m_pid = if p.pid < 0 { -(p.pid as int) } else { p.pid as int };
    lemma_dec_fixed(m_pid, 19);
    let m_ppid = if p.ppid < 0 { -(p.ppid as int) } else { p.ppid as int };
    lemma_dec_fixed(m_ppid, 19);
    let m_pgrp = if p.pgrp < 0 { -(p.pgrp as int) } else { p.pgrp as int };
    lemma_dec_fixed(m_pgrp, 19);
    let m_session = if p.session < 0 { -(p.session as int) } else { p.session as int };
    lemma_dec_fixed(m_session, 19);
    let m_tty_nr = if p.tty_nr < 0 { -(p.tty_nr as int) } else { p.tty_nr as int };
    lemma_dec_fixed(m_tty_nr, 19);
    let m_tpgid = if p.tpgid < 0 { -(p.tpgid as int) } else { p.tpgid as int };
    lemma_dec_fixed(m_tpgid, 19);
    lemma_dec_fixed(p.flags as int, 39);
    lemma_dec_fixed(p.minflt as int, 39);
    lemma_dec_fixed(p.cminflt as int, 39);
    lemma_dec_fixed(p.majflt as int, 39);
    lemma_dec_fixed(p.cmajflt as int, 39);
    lemma_dec_fixed(p.utime as int, 39);
    lemma_dec_fixed(p.stime as int, 39);
    let m_cutime = if p.cutime < 0 { -(p.cutime as int) } else { p.cutime as int };
    lemma_dec_fixed(m_cutime, 19);
    let m_cstime = if p.cstime < 0 { -(p.cstime as int) } else { p.cstime as int };
    lemma_dec_fixed(m_cstime, 19);
    let m_priority = if p.priority < 0 { -(p.priority as int) } else { p.priority as int };
    lemma_dec_fixed(m_priority, 19);
    let m_nice = if p.nice < 0 { -(p.nice as int) } else { p.nice as int };
    lemma_dec_fixed(m_nice, 19);
    let m_num_threads = if p.num_threads < 0 { -(p.num_threads as int) } else { p.num_threads as int };
    lemma_dec_fixed(m_num_threads, 19);
    let m_itrealvalue = if p.itrealvalue < 0 { -(p.itrealvalue as int) } else { p.itrealvalue as int };
    lemma_dec_fixed(m_itrealvalue, 19);
    lemma_dec_fixed(p.starttime as int, 39);
    lemma_dec_fixed(p.vsize as int, 39);
    let m_rss = if p.rss < 0 { -(p.rss as int) } else { p.rss as int };
    lemma_dec_fixed(m_rss, 19);
    lemma_dec_fixed(p.rsslim as int, 39);
    lemma_dec_fixed(p.startcode as int, 39);
    lemma_dec_fixed(p.endcode as int, 39);
    lemma_dec_fixed(p.startstack as int, 39);
    lemma_dec_fixed(p.kstkesp as int, 39);
    lemma_dec_fixed(p.kstkeip as int, 39);
    lemma_dec_fixed(p.signal as int, 39);
    lemma_dec_fixed(p.blocked as int, 39);
    lemma_dec_fixed(p.sigignore as int, 39);
    lemma_dec_fixed(p.sigcatch as int, 39);
    lemma_dec_fixed(p.wchan as int, 39);
    lemma_dec_fixed(p.nswap as int, 39);
    lemma_dec_fixed(p.cnswap as int, 39);
    let m_exit_signal = if p.exit_signal < 0 { -(p.exit_signal as int) } else { p.exit_signal as int };
    lemma_dec_fixed(m_exit_signal, 19);
    let m_processor = if p.processor < 0 { -(p.processor as int) } else { p.processor as int };
    lemma_dec_fixed(m_processor, 19);
    lemma_dec_fixed(p.rt_priority as int, 39);
    lemma_dec_fixed(p.policy as int, 39);
    lemma_dec_fixed(p.delayacct_blkio_ticks as int, 39);
    lemma_dec_fixed(p.guest_time as int, 39);
    let m_cguest_time = if p.cguest_time < 0 { -(p.cguest_time as int) } else { p.cguest_time as int };
    lemma_dec_fixed(m_cguest_time, 19);
    lemma_dec_fixed(p.start_data as int, 39);
    lemma_dec_fixed(p.end_data as int, 39);
    lemma_dec_fixed(p.start_brk as int, 39);
    lemma_dec_fixed(p.arg_start as int, 39);
    lemma_dec_fixed(p.arg_end as int, 39);
    lemma_dec_fixed(p.env_start as int, 39);
    lemma_dec_fixed(p.env_end as int, 39);
    lemma_dec_fixed_len(if p.pid < 0 { -(p.pid as int) } else { p.pid as int }, 19);
    lemma_dec_fixed_len(if p.ppid < 0 { -(p.ppid as int) } else { p.ppid as int }, 19);
    lemma_dec_fixed_len(if p.pgrp < 0 { -(p.pgrp as int) } else { p.pgrp as int }, 19);
    lemma_dec_fixed_len(if p.session < 0 { -(p.session as int) } else { p.session as int }, 19);
    lemma_dec_fixed_len(if p.tty_nr < 0 { -(p.tty_nr as int) } else { p.tty_nr as int }, 19);
    lemma_dec_fixed_len(if p.tpgid < 0 { -(p.tpgid as int) } else { p.tpgid as int }, 19);
    lemma_dec_fixed_len(p.flags as int, 39);
    lemma_dec_fixed_len(p.minflt as int, 39);
    lemma_dec_fixed_len(p.cminflt as int, 39);
    lemma_dec_fixed_len(p.majflt as int, 39);
    lemma_dec_fixed_len(p.cmajflt as int, 39);
    lemma_dec_fixed_len(p.utime as int, 39);
    lemma_dec_fixed_len(p.stime as int, 39);
    lemma_dec_fixed_len(if p.cutime < 0 { -(p.cutime as int) } else { p.cutime as int }, 19);
    lemma_dec_fixed_len(if p.cstime < 0 { -(p.cstime as int) } else { p.cstime as int }, 19);
    lemma_dec_fixed_len(if p.priority < 0 { -(p.priority as int) } else { p.priority as int }, 19);
    lemma_dec_fixed_len(if p.nice < 0 { -(p.nice as int) } else { p.nice as int }, 19);
    lemma_dec_fixed_len(if p.num_threads < 0 { -(p.num_threads as int) } else { p.num_threads as int }, 19);
    lemma_dec_fixed_len(if p.itrealvalue < 0 { -(p.itrealvalue as int) } else { p.itrealvalue as int }, 19);
    lemma_dec_fixed_len(p.starttime as int, 39);
    lemma_dec_fixed_len(p.vsize as int, 39);
    lemma_dec_fixed_len(if p.rss < 0 { -(p.rss as int) } else { p.rss as int }, 19);
    lemma_dec_fixed_len(p.rsslim as int, 39);
    lemma_dec_fixed_len(p.startcode as int, 39);
    lemma_dec_fixed_len(p.endcode as int, 39);
    lemma_dec_fixed_len(p.startstack as int, 39);
    lemma_dec_fixed_len(p.kstkesp as int, 39);
    lemma_dec_fixed_len(p.kstkeip as int, 39);
    lemma_dec_fixed_len(p.signal as int, 39);
    lemma_dec_fixed_len(p.blocked as int, 39);
    lemma_dec_fixed_len(p.sigignore as int, 39);
    lemma_dec_fixed_len(p.sigcatch as int, 39);
    lemma_dec_fixed_len(p.wchan as int, 39);
    lemma_dec_fixed_len(p.nswap as int, 39);
    lemma_dec_fixed_len(p.cnswap as int, 39);
    lemma_dec_fixed_len(if p.exit_signal < 0 { -(p.exit_signal as int) } else { p.exit_signal as int }, 19);
    lemma_dec_fixed_len(if p.processor < 0 { -(p.processor as int) } else { p.processor as int }, 19);
    lemma_dec_fixed_len(p.rt_priority as int, 39);
    lemma_dec_fixed_len(p.policy as int, 39);
    lemma_dec_fixed_len(p.delayacct_blkio_ticks as int, 39);
    lemma_dec_fixed_len(p.guest_time as int, 39);
    lemma_dec_fixed_len(if p.cguest_time < 0 { -(p.cguest_time as int) } else { p.cguest_time as int }, 19);
    lemma_dec_fixed_len(p.start_data as int, 39);
    lemma_dec_fixed_len(p.end_data as int, 39);
    lemma_dec_fixed_len(p.start_brk as int, 39);
    lemma_dec_fixed_len(p.arg_start as int, 39);
    lemma_dec_fixed_len(p.arg_end as int, 39);
    lemma_dec_fixed_len(p.env_start as int, 39);
    lemma_dec_fixed_len(p.env_end as int, 39);
    lemma_dec_fixed_len(p.comm.len() as int, 20);
    assert(enc_part1(p).len() == 262) by {
        reveal(enc_part1);
        reveal_strlit("pid=");
        reveal_strlit("state=");
        reveal_strlit("ppid=");
        reveal_strlit("pgrp=");
        reveal_strlit("session=");
        reveal_strlit("tty_nr=");
        reveal_strlit("tpgid=");
        reveal_strlit("flags=");
        reveal_strlit("minflt=");
        reveal_strlit("\n");
    }
    assert(enc_part2(p).len() == 347) by {
        reveal(enc_part2);
        reveal_strlit("cminflt=");
        reveal_strlit("majflt=");
        reveal_strlit("cmajflt=");
        reveal_strlit("utime=");
        reveal_strlit("stime=");
        reveal_strlit("cutime=");
        reveal_strlit("cstime=");
        reveal_strlit("priority=");
        reveal_strlit("nice=");
        reveal_strlit("\n");
    }
    assert(enc_part3(p).len() == 383) by {
        reveal(enc_part3);
        reveal_strlit("num_threads=");
        reveal_strlit("itrealvalue=");
        reveal_strlit("starttime=");
        reveal_strlit("vsize=");
        reveal_strlit("rss=");
        reveal_strlit("rsslim=");
        reveal_strlit("startcode=");
        reveal_strlit("endcode=");
        reveal_strlit("startstack=");
        reveal_strlit("\n");
    }
    assert(enc_part4(p).len() == 429) by {
        reveal(enc_part4);
        reveal_strlit("kstkesp=");
        reveal_strlit("kstkeip=");
        reveal_strlit("signal=");
        reveal_strlit("blocked=");
        reveal_strlit("sigignore=");
        reveal_strlit("sigcatch=");
        reveal_strlit("wchan=");
        reveal_strlit("nswap=");
        reveal_strlit("cnswap=");
        reveal_strlit("\n");
    }
    assert(enc_part5(p).len() == 409) by {
        reveal(enc_part5);
        reveal_strlit("exit_signal=");
        reveal_strlit("processor=");
        reveal_strlit("rt_priority=");
        reveal_strlit("policy=");
        reveal_strlit("delayacct_blkio_ticks=");
        reveal_strlit("guest_time=");
        reveal_strlit("cguest_time=");
        reveal_strlit("start_data=");
        reveal_strlit("end_data=");
        reveal_strlit("\n");
    }
    assert(enc_part6(p).len() == 272 + p.comm.len()) by {
        reveal(enc_part6);
        reveal_strlit("start_brk=");
        reveal_strlit("arg_start=");
        reveal_strlit("arg_end=");
        reveal_strlit("env_start=");
        reveal_strlit("env_end=");
        reveal_strlit("comm=");
        reveal_strlit("\n");
    }
    assert(e.subrange(0, 262) =~= enc_part1(p));
    assert(e.subrange(262, 609) =~= enc_part2(p));
    assert(e.subrange(609, 992) =~= enc_part3(p));
    assert(e.subrange(992, 1421) =~= enc_part4(p));
    assert(e.subrange(1421, 1830) =~= enc_part5(p));
    assert(e.subrange(1830, e.len() as int) =~= enc_part6(p));
    assert(enc_part3(p)[12] == enc_i(p.num_threads as int)[0] && enc_part3(p).subrange(13, 32) =~= dec_fixed(m_num_threads, 19)) by {
        reveal(enc_part3);
        reveal_strlit("num_threads=");
        reveal_strlit("itrealvalue=");
        reveal_strlit("starttime=");
        reveal_strlit("vsize=");
        reveal_strlit("rss=");
        reveal_strlit("rsslim=");
        reveal_strlit("startcode=");
        reveal_strlit("endcode=");
        reveal_strlit("startstack=");
        reveal_strlit("\n");
    }
    assert(e[621] == enc_part3(p)[12]);
    assert(e.subrange(622, 641) =~= enc_part3(p).subrange(13, 32));
    assert(loose_i64(e, 621) == p.num_threads as int);
    assert(enc_part3(p)[45] == enc_i(p.itrealvalue as int)[0] && enc_part3(p).subrange(46, 65) =~= dec_fixed(m_itrealvalue, 19)) by {
        reveal(enc_part3);
        reveal_strlit("num_threads=");
        reveal_strlit("itrealvalue=");
        reveal_strlit("starttime=");
        reveal_strlit("vsize=");
        reveal_strlit("rss=");
        reveal_strlit("rsslim=");
        reveal_strlit("startcode=");
        reveal_strlit("endcode=");
        reveal_strlit("startstack=");
        reveal_strlit("\n");
    }
    assert(e[654] == enc_part3(p)[45]);
    assert(e.subrange(655, 674) =~= enc_part3(p).subrange(46, 65));
    assert(loose_i64(e, 654) == p.itrealvalue as int);
    assert(enc_part3(p).subrange(76, 115) =~= dec_fixed(p.starttime as int, 39)) by {
        reveal(enc_part3);
        reveal_strlit("num_threads=");
        reveal_strlit("itrealvalue=");
        reveal_strlit("starttime=");
        reveal_strlit("vsize=");
        reveal_strlit("rss=");
        reveal_strlit("rsslim=");
        reveal_strlit("startcode=");
        reveal_strlit("endcode=");
        reveal_strlit("startstack=");
        reveal_strlit("\n");
    }
    assert(e.subrange(685, 724) =~= enc_part3(p).subrange(76, 115));
    assert(loose_digits(e, 685, 39) == p.starttime as int);
    assert(enc_part3(p).subrange(122, 161) =~= dec_fixed(p.vsize as int, 39)) by {
        reveal(enc_part3);
        reveal_strlit("num_threads=");
        reveal_strlit("itrealvalue=");
        reveal_strlit("starttime=");
        reveal_strlit("vsize=");
        reveal_strlit("rss=");
        reveal_strlit("rsslim=");
        reveal_strlit("startcode=");
        reveal_strlit("endcode=");
        reveal_strlit("startstack=");
        reveal_strlit("\n");
    }
    assert(e.subrange(731, 770) =~= enc_part3(p).subrange(122, 161));
    assert(loose_digits(e, 731, 39) == p.vsize as int);
    assert(enc_part3(p)[166] == enc_i(p.rss as int)[0] && enc_part3(p).subrange(167, 186) =~= dec_fixed(m_rss, 19)) by {
        reveal(enc_part3);
        reveal_strlit("num_threads=");
        reveal_strlit("itrealvalue=");
        reveal_strlit("starttime=");
        reveal_strlit("vsize=");
        reveal_strlit("rss=");
        reveal_strlit("rsslim=");
        reveal_strlit("startcode=");
        reveal_strlit("endcode=");
        reveal_strlit("startstack=");
        reveal_strlit("\n");
    }
    assert(e[775] == enc_part3(p)[166]);
    assert(e.subrange(776, 795) =~= enc_part3(p).subrange(167, 186));
    assert(loose_i64(e, 775) == p.rss as int);
    assert(enc_part3(p).subrange(194, 233) =~= dec_fixed(p.rsslim as int, 39)) by {
        reveal(enc_part3);
        reveal_strlit("num_threads=");
        reveal_strlit("itrealvalue=");
        reveal_strlit("starttime=");
        reveal_strlit("vsize=");
        reveal_strlit("rss=");
        reveal_strlit("rsslim=");
        reveal_strlit("startcode=");
        reveal_strlit("endcode=");
        reveal_strlit("startstack=");
        reveal_strlit("\n");
    }
    assert(e.subrange(803, 842) =~= enc_part3(p).subrange(194, 233));
    assert(loose_digits(e, 803, 39) == p.rsslim as int);
    assert(enc_part3(p).subrange(244, 283) =~= dec_fixed(p.startcode as int, 39)) by {
        reveal(enc_part3);
        reveal_strlit("num_threads=");
        reveal_strlit("itrealvalue=");
        reveal_strlit("starttime=");
        reveal_strlit("vsize=");
        reveal_strlit("rss=");
        reveal_strlit("rsslim=");
        reveal_strlit("startcode=");
        reveal_strlit("endcode=");
        reveal_strlit("startstack=");
        reveal_strlit("\n");
    }
    assert(e.subrange(853, 892) =~= enc_part3(p).subrange(244, 283));
    assert(loose_digits(e, 853, 39) == p.startcode as int);
    assert(enc_part3(p).subrange(292, 331) =~= dec_fixed(p.endcode as int, 39)) by {
        reveal(enc_part3);
        reveal_strlit("num_threads=");
        reveal_strlit("itrealvalue=");
        reveal_strlit("starttime=");
        reveal_strlit("vsize=");
        reveal_strlit("rss=");
        reveal_strlit("rsslim=");
        reveal_strlit("startcode=");
        reveal_strlit("endcode=");
        reveal_strlit("startstack=");
        reveal_strlit("\n");
    }
    assert(e.subrange(901, 940) =~= enc_part3(p).subrange(292, 331));
    assert(loose_digits(e, 901, 39) == p.endcode as int);
    assert(enc_part3(p).subrange(343, 382) =~= dec_fixed(p.startstack as int, 39)) by {
        reveal(enc_part3);
        reveal_strlit("num_threads=");
        reveal_strlit("itrealvalue=");
        reveal_strlit("starttime=");
        reveal_strlit("vsize=");
        reveal_strlit("rss=");
        reveal_strlit("rsslim=");
        reveal_strlit("startcode=");
        reveal_strlit("endcode=");
        reveal_strlit("startstack=");
        reveal_strlit("\n");
    }
    assert(e.subrange(952, 991) =~= enc_part3(p).subrange(343, 382));
    assert(loose_digits(e, 952, 39) == p.startstack as int);
}

/// The fields of one stretch of a rendering read back exactly.
#[verifier::rlimit(100)]
#[verifier::spinoff_prover]
proof fn lemma_extract_part4(p: ProcessV)
    ensures
        loose_digits(enc_process(p), 1000, 39) == p.kstkesp as int,
        loose_digits(enc_process(p), 1048, 39) == p.kstkeip as int,
        loose_digits(enc_process(p), 1095, 39) == p.signal as int,
        loose_digits(enc_process(p), 1143, 39) == p.blocked as int,
        loose_digits(enc_process(p), 1193, 39) == p.sigignore as int,
        loose_digits(enc_process(p), 1242, 39) == p.sigcatch as int,
        loose_digits(enc_process(p), 1288, 39) == p.wchan as int,
        loose_digits(enc_process(p), 1334, 39) == p.nswap as int,
        loose_digits(enc_process(p), 1381, 39) == p.cnswap as int,
{
    lemma_pow10_bounds();
    let e = enc_process(p);
    let m_pid = if p.pid < 0 { -(p.pid as int) } else { p.pid as int };
    lemma_dec_fixed(m_pid, 19);
    let m_ppid = if p.ppid < 0 { -(p.ppid as int) } else { p.ppid as int };
    lemma_dec_fixed(m_ppid, 19);
    let m_pgrp = if p.pgrp < 0 { -(p.pgrp as int) } else { p.pgrp as int };
    lemma_dec_fixed(m_pgrp, 19);
    let m_session = if p.session < 0 { -(p.session as int) } else { p.session as int };
    lemma_dec_fixed(m_session, 19);
    let m_tty_nr = if p.tty_nr < 0 { -(p.tty_nr as int) } else { p.tty_nr as int };
    lemma_dec_fixed(m_tty_nr, 19);
    let m_tpgid = if p.tpgid < 0 { -(p.tpgid as int) } else { p.tpgid as int };
    lemma_dec_fixed(m_tpgid, 19);
    lemma_dec_fixed(p.flags as int, 39);
    lemma_dec_fixed(p.minflt as int, 39);
    lemma_dec_fixed(p.cminflt as int, 39);
    lemma_dec_fixed(p.majflt as int, 39);
    lemma_dec_fixed(p.cmajflt as int, 39);
    lemma_dec_fixed(p.utime as int, 39);
    lemma_dec_fixed(p.stime as int, 39);
    let m_cutime = if p.cutime < 0 { -(p.cutime as int) } else { p.cutime as int };
    lemma_dec_fixed(m_cutime, 19);
    let m_cstime = if p.cstime < 0 { -(p.cstime as int) } else { p.cstime as int };
    lemma_dec_fixed(m_cstime, 19);
    let m_priority = if p.priority < 0 { -(p.priority as int) } else { p.priority as int };
    lemma_dec_fixed(m_priority, 19);
    let m_nice = if p.nice < 0 { -(p.nice as int) } else { p.nice as int };
    lemma_dec_fixed(m_nice, 19);
    let m_num_threads = if p.num_threads < 0 { -(p.num_threads as int) } else { p.num_threads as int };
    lemma_dec_fixed(m_num_threads, 19);
    let m_itrealvalue = if p.itrealvalue < 0 { -(p.itrealvalue as int) } else { p.itrealvalue as int };
    lemma_dec_fixed(m_itrealvalue, 19);
    lemma_dec_fixed(p.starttime as int, 39);
    lemma_dec_fixed(p.vsize as int, 39);
    let m_rss = if p.rss < 0 { -(p.rss as int) } else { p.rss as int };
    lemma_dec_fixed(m_rss, 19);
    lemma_dec_fixed(p.rsslim as int, 39);
    lemma_dec_fixed(p.startcode as int, 39);
    lemma_dec_fixed(p.endcode as int, 39);
    lemma_dec_fixed(p.startstack as int, 39);
    lemma_dec_fixed(p.kstkesp as int, 39);
    lemma_dec_fixed(p.kstkeip as int, 39);
    lemma_dec_fixed(p.signal as int, 39);
    lemma_dec_fixed(p.blocked as int, 39);
    lemma_dec_fixed(p.sigignore as int, 39);
    lemma_dec_fixed(p.sigcatch as int, 39);
    lemma_dec_fixed(p.wchan as int, 39);
    lemma_dec_fixed(p.nswap as int, 39);
    lemma_dec_fixed(p.cnswap as int, 39);
    let m_exit_signal = if p.exit_signal < 0 { -(p.exit_signal as int) } else { p.exit_signal as int };
    lemma_dec_fixed(m_exit_signal, 19);
    let m_processor = if p.processor < 0 { -(p.processor as int) } else { p.processor as int };
    lemma_dec_fixed(m_processor, 19);
    lemma_dec_fixed(p.rt_priority as int, 39);
    lemma_dec_fixed(p.policy as int, 39);
    lemma_dec_fixed(p.delayacct_blkio_ticks as int, 39);
    lemma_dec_fixed(p.guest_time as int, 39);
    let m_cguest_time = if p.cguest_time < 0 { -(p.cguest_time as int) } else { p.cguest_time as int };
    lemma_dec_fixed(m_cguest_time, 19);
    lemma_dec_fixed(p.start_data as int, 39);
    lemma_dec_fixed(p.end_data as int, 39);
    lemma_dec_fixed(p.start_brk as int, 39);
    lemma_dec_fixed(p.arg_start as int, 39);
    lemma_dec_fixed(p.arg_end as int, 39);
    lemma_dec_fixed(p.env_start as int, 39);
    lemma_dec_fixed(p.env_end as int, 39);
    lemma_dec_fixed_len(if p.pid < 0 { -(p.pid as int) } else { p.pid as int }, 19);
    lemma_dec_fixed_len(if p.ppid < 0 { -(p.ppid as int) } else { p.ppid as int }, 19);
    lemma_dec_fixed_len(if p.pgrp < 0 { -(p.pgrp as int) } else { p.pgrp as int }, 19);
    lemma_dec_fixed_len(if p.session < 0 { -(p.session as int) } else { p.session as int }, 19);
    lemma_dec_fixed_len(if p.tty_nr < 0 { -(p.tty_nr as int) } else { p.tty_nr as int }, 19);
    lemma_dec_fixed_len(if p.tpgid < 0 { -(p.tpgid as int) } else { p.tpgid as int }, 19);
    lemma_dec_fixed_len(p.flags as int, 39);
    lemma_dec_fixed_len(p.minflt as int, 39);
    lemma_dec_fixed_len(p.cminflt as int, 39);
    lemma_dec_fixed_len(p.majflt as int, 39);
    lemma_dec_fixed_len(p.cmajflt as int, 39);
    lemma_dec_fixed_len(p.utime as int, 39);
    lemma_dec_fixed_len(p.stime as int, 39);
    lemma_dec_fixed_len(if p.cutime < 0 { -(p.cutime as int) } else { p.cutime as int }, 19);
    lemma_dec_fixed_len(if p.cstime < 0 { -(p.cstime as int) } else { p.cstime as int }, 19);
    lemma_dec_fixed_len(if p.priority < 0 { -(p.priority as int) } else { p.priority as int }, 19);
    lemma_dec_fixed_len(if p.nice < 0 { -(p.nice as int) } else { p.nice as int }, 19);
    lemma_dec_fixed_len(if p.num_threads < 0 { -(p.num_threads as int) } else { p.num_threads as int }, 19);
    lemma_dec_fixed_len(if p.itrealvalue < 0 { -(p.itrealvalue as int) } else { p.itrealvalue as int }, 19);
    lemma_dec_fixed_len(p.starttime as int, 39);
    lemma_dec_fixed_len(p.vsize as int, 39);
    lemma_dec_fixed_len(if p.rss < 0 { -(p.rss as int) } else { p.rss as int }, 19);
    lemma_dec_fixed_len(p.rsslim as int, 39);
    lemma_dec_fixed_len(p.startcode as int, 39);
    lemma_dec_fixed_len(p.endcode as int, 39);
    lemma_dec_fixed_len(p.startstack as int, 39);
    lemma_dec_fixed_len(p.kstkesp as int, 39);
    lemma_dec_fixed_len(p.kstkeip as int, 39);
    lemma_dec_fixed_len(p.signal as int, 39);
    lemma_dec_fixed_len(p.blocked as int, 39);
    lemma_dec_fixed_len(p.sigignore as int, 39);
    lemma_dec_fixed_len(p.sigcatch as int, 39);
    lemma_dec_fixed_len(p.wchan as int, 39);
    lemma_dec_fixed_len(p.nswap as int, 39);
    lemma_dec_fixed_len(p.cnswap as int, 39);
    lemma_dec_fixed_len(if p.exit_signal < 0 { -(p.exit_signal as int) } else { p.exit_signal as int }, 19);
    lemma_dec_fixed_len(if p.processor < 0 { -(p.processor as int) } else { p.processor as int }, 19);
    lemma_dec_fixed_len(p.rt_priority as int, 39);
    lemma_dec_fixed_len(p.policy as int, 39);
    lemma_dec_fixed_len(p.delayacct_blkio_ticks as int, 39);
    lemma_dec_fixed_len(p.guest_time as int, 39);
    lemma_dec_fixed_len(if p.cguest_time < 0 { -(p.cguest_time as int) } else { p.cguest_time as int }, 19);
    lemma_dec_fixed_len(p.start_data as int, 39);
    lemma_dec_fixed_len(p.end_data as int, 39);
    lemma_dec_fixed_len(p.start_brk as int, 39);
    lemma_dec_fixed_len(p.arg_start as int, 39);
    lemma_dec_fixed_len(p.arg_end as int, 39);
    lemma_dec_fixed_len(p.env_start as int, 39);
    lemma_dec_fixed_len(p.env_end as int, 39);
    lemma_dec_fixed_len(p.comm.len() as int, 20);
    assert(enc_part1(p).len() == 262) by {
        reveal(enc_part1);
        reveal_strlit("pid=");
        reveal_strlit("state=");
        reveal_strlit("ppid=");
        reveal_strlit("pgrp=");
        reveal_strlit("session=");
        reveal_strlit("tty_nr=");
        reveal_strlit("tpgid=");
        reveal_strlit("flags=");
        reveal_strlit("minflt=");
        reveal_strlit("\n");
    }
    assert(enc_part2(p).len() == 347) by {
        reveal(enc_part2);
        reveal_strlit("cminflt=");
        reveal_strlit("majflt=");
        reveal_strlit("cmajflt=");
        reveal_strlit("utime=");
        reveal_strlit("stime=");
        reveal_strlit("cutime=");
        reveal_strlit("cstime=");
        reveal_strlit("priority=");
        reveal_strlit("nice=");
        reveal_strlit("\n");
    }
    assert(enc_part3(p).len() == 383) by {
        reveal(enc_part3);
        reveal_strlit("num_threads=");
        reveal_strlit("itrealvalue=");
        reveal_strlit("starttime=");
        reveal_strlit("vsize=");
        reveal_strlit("rss=");
        reveal_strlit("rsslim=");
        reveal_strlit("startcode=");
        reveal_strlit("endcode=");
        reveal_strlit("startstack=");
        reveal_strlit("\n");
    }
    assert(enc_part4(p).len() == 429) by {
        reveal(enc_part4);
        reveal_strlit("kstkesp=");
        reveal_strlit("kstkeip=");
        reveal_strlit("signal=");
        reveal_strlit("blocked=");
        reveal_strlit("sigignore=");
        reveal_strlit("sigcatch=");
        reveal_strlit("wchan=");
        reveal_strlit("nswap=");
        reveal_strlit("cnswap=");
        reveal_strlit("\n");
    }
    assert(enc_part5(p).len() == 409) by {
        reveal(enc_part5);
        reveal_strlit("exit_signal=");
        reveal_strlit("processor=");
        reveal_strlit("rt_priority=");
        reveal_strlit("policy=");
        reveal_strlit("delayacct_blkio_ticks=");
        reveal_strlit("guest_time=");
        reveal_strlit("cguest_time=");
        reveal_strlit("start_data=");
        reveal_strlit("end_data=");
        reveal_strlit("\n");
    }
    assert(enc_part6(p).len() == 272 + p.comm.len()) by {
        reveal(enc_part6);
        reveal_strlit("start_brk=");
        reveal_strlit("arg_start=");
        reveal_strlit("arg_end=");
        reveal_strlit("env_start=");
        reveal_strlit("env_end=");
        reveal_strlit("comm=");
        reveal_strlit("\n");
    }
    assert(e.subrange(0, 262) =~= enc_part1(p));
    assert(e.subrange(262, 609) =~= enc_part2(p));
    assert(e.subrange(609, 992) =~= enc_part3(p));
    assert(e.subrange(992, 1421) =~= enc_part4(p));
    assert(e.subrange(1421, 1830) =~= enc_part5(p));
    assert(e.subrange(1830, e.len() as int) =~= enc_part6(p));
    assert(enc_part4(p).subrange(8, 47) =~= dec_fixed(p.kstkesp as int, 39)) by {
        reveal(enc_part4);
        reveal_strlit("kstkesp=");
        reveal_strlit("kstkeip=");
        reveal_strlit("signal=");
        reveal_strlit("blocked=");
        reveal_strlit("sigignore=");
        reveal_strlit("sigcatch=");
        reveal_strlit("wchan=");
        reveal_strlit("nswap=");
        reveal_strlit("cnswap=");
        reveal_strlit("\n");
    }
    assert(e.subrange(1000, 1039) =~= enc_part4(p).subrange(8, 47));
    assert(loose_digits(e, 1000, 39) == p.kstkesp as int);
    assert(enc_part4(p).subrange(56, 95) =~= dec_fixed(p.kstkeip as int, 39)) by {
        reveal(enc_part4);
        reveal_strlit("kstkesp=");
        reveal_strlit("kstkeip=");
        reveal_strlit("signal=");
        reveal_strlit("blocked=");
        reveal_strlit("sigignore=");
        reveal_strlit("sigcatch=");
        reveal_strlit("wchan=");
        reveal_strlit("nswap=");
        reveal_strlit("cnswap=");
        reveal_strlit("\n");
    }
    assert(e.subrange(1048, 1087) =~= enc_part4(p).subrange(56, 95));
    assert(loose_digits(e, 1048, 39) == p.kstkeip as int);
    assert(enc_part4(p).subrange(103, 142) =~= dec_fixed(p.signal as int, 39)) by {
        reveal(enc_part4);
        reveal_strlit("kstkesp=");
        reveal_strlit("kstkeip=");
        reveal_strlit("signal=");
        reveal_strlit("blocked=");
        reveal_strlit("sigignore=");
        reveal_strlit("sigcatch=");
        reveal_strlit("wchan=");
        reveal_strlit("nswap=");
        reveal_strlit("cnswap=");
        reveal_strlit("\n");
    }
    assert(e.subrange(1095, 1134) =~= enc_part4(p).subrange(103, 142));
    assert(loose_digits(e, 1095, 39) == p.signal as int);
    assert(enc_part4(p).subrange(151, 190) =~= dec_fixed(p.blocked as int, 39)) by {
        reveal(enc_part4);
        reveal_strlit("kstkesp=");
        reveal_strlit("kstkeip=");
        reveal_strlit("signal=");
        reveal_strlit("blocked=");
        reveal_strlit("sigignore=");
        reveal_strlit("sigcatch=");
        reveal_strlit("wchan=");
        reveal_strlit("nswap=");
        reveal_strlit("cnswap=");
        reveal_strlit("\n");
    }
    assert(e.subrange(1143, 1182) =~= enc_part4(p).subrange(151, 190));
    assert(loose_digits(e, 1143, 39) == p.blocked as int);
    assert(enc_part4(p).subrange(201, 240) =~= dec_fixed(p.sigignore as int, 39)) by {
        reveal(enc_part4);
        reveal_strlit("kstkesp=");
        reveal_strlit("kstkeip=");
        reveal_strlit("signal=");
        reveal_strlit("blocked=");
        reveal_strlit("sigignore=");
        reveal_strlit("sigcatch=");
        reveal_strlit("wchan=");
        reveal_strlit("nswap=");
        reveal_strlit("cnswap=");
        reveal_strlit("\n");
    }
    assert(e.subrange(1193, 1232) =~= enc_part4(p).subrange(201, 240));
    assert(loose_digits(e, 1193, 39) == p.sigignore as int);
    assert(enc_part4(p).subrange(250, 289) =~= dec_fixed(p.sigcatch as int, 39)) by {
        reveal(enc_part4);
        reveal_strlit("kstkesp=");
        reveal_strlit("kstkeip=");
        reveal_strlit("signal=");
        reveal_strlit("blocked=");
        reveal_strlit("sigignore=");
        reveal_strlit("sigcatch=");
        reveal_strlit("wchan=");
        reveal_strlit("nswap=");
        reveal_strlit("cnswap=");
        reveal_strlit("\n");
    }
    assert(e.subrange(1242, 1281) =~= enc_part4(p).subrange(250, 289));
    assert(loose_digits(e, 1242, 39) == p.sigcatch as int);
    assert(enc_part4(p).subrange(296, 335) =~= dec_fixed(p.wchan as int, 39)) by {
        reveal(enc_part4);
        reveal_strlit("kstkesp=");
        reveal_strlit("kstkeip=");
        reveal_strlit("signal=");
        reveal_strlit("blocked=");
        reveal_strlit("sigignore=");
        reveal_strlit("sigcatch=");
        reveal_strlit("wchan=");
        reveal_strlit("nswap=");
        reveal_strlit("cnswap=");
        reveal_strlit("\n");
    }
    assert(e.subrange(1288, 1327) =~= enc_part4(p).subrange(296, 335));
    assert(loose_digits(e, 1288, 39) == p.wchan as int);
    assert(enc_part4(p).subrange(342, 381) =~= dec_fixed(p.nswap as int, 39)) by {
        reveal(enc_part4);
        reveal_strlit("kstkesp=");
        reveal_strlit("kstkeip=");
        reveal_strlit("signal=");
        reveal_strlit("blocked=");
        reveal_strlit("sigignore=");
        reveal_strlit("sigcatch=");
        reveal_strlit("wchan=");
        reveal_strlit("nswap=");
        reveal_strlit("cnswap=");
        reveal_strlit("\n");
    }
    assert(e.subrange(1334, 1373) =~= enc_part4(p).subrange(342, 381));
    assert(loose_digits(e, 1334, 39) == p.nswap as int);
    assert(enc_part4(p).subrange(389, 428) =~= dec_fixed(p.cnswap as int, 39)) by {
        reveal(enc_part4);
        reveal_strlit("kstkesp=");
        reveal_strlit("kstkeip=");
        reveal_strlit("signal=");
        reveal_strlit("blocked=");
        reveal_strlit("sigignore=");
        reveal_strlit("sigcatch=");
        reveal_strlit("wchan=");
        reveal_strlit("nswap=");
        reveal_strlit("cnswap=");
        reveal_strlit("\n");
    }
    assert(e.subrange(1381, 1420) =~= enc_part4(p).subrange(389, 428));
    assert(loose_digits(e, 1381, 39) == p.cnswap as int);
}

/// The fields of one stretch of a rendering read back exactly.
#[verifier::rlimit(100)]
#[verifier::spinoff_prover]
proof fn lemma_extract_part5(p: ProcessV)
    ensures
        loose_i64(enc_process(p), 1433) == p.exit_signal as int,
        loose_i64(enc_process(p), 1464) == p.processor as int,
        loose_digits(enc_process(p), 1497, 39) == p.rt_priority as int,
        loose_digits(enc_process(p), 1544, 39) == p.policy as int,
        loose_digits(enc_process(p), 1606, 39) == p.delayacct_blkio_ticks as int,
        loose_digits(enc_process(p), 1657, 39) == p.guest_time as int,
        loose_i64(enc_process(p), 1709) == p.cguest_time as int,
        loose_digits(enc_process(p), 1741, 39) == p.start_data as int,
        loose_digits(enc_process(p), 1790, 39) == p.end_data as int,
{
    lemma_pow10_bounds();
    let e = enc_process(p);
    let m_pid = if p.pid < 0 { -(p.pid as int) } else { p.pid as int };
    lemma_dec_fixed(m_pid, 19);
    let m_ppid = if p.ppid < 0 { -(p.ppid as int) } else { p.ppid as int };
    lemma_dec_fixed(m_ppid, 19);
    let m_pgrp = if p.pgrp < 0 { -(p.pgrp as int) } else { p.pgrp as int };
    lemma_dec_fixed(m_pgrp, 19);
    let m_session = if p.session < 0 { -(p.session as int) } else { p.session as int };
    lemma_dec_fixed(m_session, 19);
    let m_tty_nr = if p.tty_nr < 0 { -(p.tty_nr as int) } else { p.tty_nr as int };
    lemma_dec_fixed(m_tty_nr, 19);
    let m_tpgid = if p.tpgid < 0 { -(p.tpgid as int) } else { p.tpgid as int };
    lemma_dec_fixed(m_tpgid, 19);
    lemma_dec_fixed(p.flags as int, 39);
    lemma_dec_fixed(p.minflt as int, 39);
    lemma_dec_fixed(p.cminflt as int, 39);
    lemma_dec_fixed(p.majflt as int, 39);
    lemma_dec_fixed(p.cmajflt as int, 39);
    lemma_dec_fixed(p.utime as int, 39);
    lemma_dec_fixed(p.stime as int, 39);
    let m_cutime = if p.cutime < 0 { -(p.cutime as int) } else { p.cutime as int };
    lemma_dec_fixed(m_cutime, 19);
    let m_cstime = if p.cstime < 0 { -(p.cstime as int) } else { p.cstime as int };
    lemma_dec_fixed(m_cstime, 19);
    let m_priority = if p.priority < 0 { -(p.priority as int) } else { p.priority as int };
    lemma_dec_fixed(m_priority, 19);
    let m_nice = if p.nice < 0 { -(p.nice as int) } else { p.nice as int };
    lemma_dec_fixed(m_nice, 19);
    let m_num_threads = if p.num_threads < 0 { -(p.num_threads as int) } else { p.num_threads as int };
    lemma_dec_fixed(m_num_threads, 19);
    let m_itrealvalue = if p.itrealvalue < 0 { -(p.itrealvalue as int) } else { p.itrealvalue as int };
    lemma_dec_fixed(m_itrealvalue, 19);
    lemma_dec_fixed(p.starttime as int, 39);
    lemma_dec_fixed(p.vsize as int, 39);
    let m_rss = if p.rss < 0 { -(p.rss as int) } else { p.rss as int };
    lemma_dec_fixed(m_rss, 19);
    lemma_dec_fixed(p.rsslim as int, 39);
    lemma_dec_fixed(p.startcode as int, 39);
    lemma_dec_fixed(p.endcode as int, 39);
    lemma_dec_fixed(p.startstack as int, 39);
    lemma_dec_fixed(p.kstkesp as int, 39);
    lemma_dec_fixed(p.kstkeip as int, 39);
    lemma_dec_fixed(p.signal as int, 39);
    lemma_dec_fixed(p.blocked as int, 39);
    lemma_dec_fixed(p.sigignore as int, 39);
    lemma_dec_fixed(p.sigcatch as int, 39);
    lemma_dec_fixed(p.wchan as int, 39);
    lemma_dec_fixed(p.nswap as int, 39);
    lemma_dec_fixed(p.cnswap as int, 39);
    let m_exit_signal = if p.exit_signal < 0 { -(p.exit_signal as int) } else { p.exit_signal as int };
    lemma_dec_fixed(m_exit_signal, 19);
    let m_processor = if p.processor < 0 { -(p.processor as int) } else { p.processor as int };
    lemma_dec_fixed(m_processor, 19);
    lemma_dec_fixed(p.rt_priority as int, 39);
    lemma_dec_fixed(p.policy as int, 39);
    lemma_dec_fixed(p.delayacct_blkio_ticks as int, 39);
    lemma_dec_fixed(p.guest_time as int, 39);
    let m_cguest_time = if p.cguest_time < 0 { -(p.cguest_time as int) } else { p.cguest_time as int };
    lemma_dec_fixed(m_cguest_time, 19);
    lemma_dec_fixed(p.start_data as int, 39);
    lemma_dec_fixed(p.end_data as int, 39);
    lemma_dec_fixed(p.start_brk as int, 39);
    lemma_dec_fixed(p.arg_start as int, 39);
    lemma_dec_fixed(p.arg_end as int, 39);
    lemma_dec_fixed(p.env_start as int, 39);
    lemma_dec_fixed(p.env_end as int, 39);
    lemma_dec_fixed_len(if p.pid < 0 { -(p.pid as int) } else { p.pid as int }, 19);
    lemma_dec_fixed_len(if p.ppid < 0 { -(p.ppid as int) } else { p.ppid as int }, 19);
    lemma_dec_fixed_len(if p.pgrp < 0 { -(p.pgrp as int) } else { p.pgrp as int }, 19);
    lemma_dec_fixed_len(if p.session < 0 { -(p.session as int) } else { p.session as int }, 19);
    lemma_dec_fixed_len(if p.tty_nr < 0 { -(p.tty_nr as int) } else { p.tty_nr as int }, 19);
    lemma_dec_fixed_len(if p.tpgid < 0 { -(p.tpgid as int) } else { p.tpgid as int }, 19);
    lemma_dec_fixed_len(p.flags as int, 39);
    lemma_dec_fixed_len(p.minflt as int, 39);
    lemma_dec_fixed_len(p.cminflt as int, 39);
    lemma_dec_fixed_len(p.majflt as int, 39);
    lemma_dec_fixed_len(p.cmajflt as int, 39);
    lemma_dec_fixed_len(p.utime as int, 39);
    lemma_dec_fixed_len(p.stime as int, 39);
    lemma_dec_fixed_len(if p.cutime < 0 { -(p.cutime as int) } else { p.cutime as int }, 19);
    lemma_dec_fixed_len(if p.cstime < 0 { -(p.cstime as int) } else { p.cstime as int }, 19);
    lemma_dec_fixed_len(if p.priority < 0 { -(p.priority as int) } else { p.priority as int }, 19);
    lemma_dec_fixed_len(if p.nice < 0 { -(p.nice as int) } else { p.nice as int }, 19);
    lemma_dec_fixed_len(if p.num_threads < 0 { -(p.num_threads as int) } else { p.num_threads as int }, 19);
    lemma_dec_fixed_len(if p.itrealvalue < 0 { -(p.itrealvalue as int) } else { p.itrealvalue as int }, 19);
    lemma_dec_fixed_len(p.starttime as int, 39);
    lemma_dec_fixed_len(p.vsize as int, 39);
    lemma_dec_fixed_len(if p.rss < 0 { -(p.rss as int) } else { p.rss as int }, 19);
    lemma_dec_fixed_len(p.rsslim as int, 39);
    lemma_dec_fixed_len(p.startcode as int, 39);
    lemma_dec_fixed_len(p.endcode as int, 39);
    lemma_dec_fixed_len(p.startstack as int, 39);
    lemma_dec_fixed_len(p.kstkesp as int, 39);
    lemma_dec_fixed_len(p.kstkeip as int, 39);
    lemma_dec_fixed_len(p.signal as int, 39);
    lemma_dec_fixed_len(p.blocked as int, 39);
    lemma_dec_fixed_len(p.sigignore as int, 39);
    lemma_dec_fixed_len(p.sigcatch as int, 39);
    lemma_dec_fixed_len(p.wchan as int, 39);
    lemma_dec_fixed_len(p.nswap as int, 39);
    lemma_dec_fixed_len(p.cnswap as int, 39);
    lemma_dec_fixed_len(if p.exit_signal < 0 { -(p.exit_signal as int) } else { p.exit_signal as int }, 19);
    lemma_dec_fixed_len(if p.processor < 0 { -(p.processor as int) } else { p.processor as int }, 19);
    lemma_dec_fixed_len(p.rt_priority as int, 39);
    lemma_dec_fixed_len(p.policy as int, 39);
    lemma_dec_fixed_len(p.delayacct_blkio_ticks as int, 39);
    lemma_dec_fixed_len(p.guest_time as int, 39);
    lemma_dec_fixed_len(if p.cguest_time < 0 { -(p.cguest_time as int) } else { p.cguest_time as int }, 19);
    lemma_dec_fixed_len(p.start_data as int, 39);
    lemma_dec_fixed_len(p.end_data as int, 39);
    lemma_dec_fixed_len(p.start_brk as int, 39);
    lemma_dec_fixed_len(p.arg_start as int, 39);
    lemma_dec_fixed_len(p.arg_end as int, 39);
    lemma_dec_fixed_len(p.env_start as int, 39);
    lemma_dec_fixed_len(p.env_end as int, 39);
    lemma_dec_fixed_len(p.comm.len() as int, 20);
    assert(enc_part1(p).len() == 262) by {
        reveal(enc_part1);
        reveal_strlit("pid=");
        reveal_strlit("state=");
        reveal_strlit("ppid=");
        reveal_strlit("pgrp=");
        reveal_strlit("session=");
        reveal_strlit("tty_nr=");
        reveal_strlit("tpgid=");
        reveal_strlit("flags=");
        reveal_strlit("minflt=");
        reveal_strlit("\n");
    }
    assert(enc_part2(p).len() == 347) by {
        reveal(enc_part2);
        reveal_strlit("cminflt=");
        reveal_strlit("majflt=");
        reveal_strlit("cmajflt=");
        reveal_strlit("utime=");
        reveal_strlit("stime=");
        reveal_strlit("cutime=");
        reveal_strlit("cstime=");
        reveal_strlit("priority=");
        reveal_strlit("nice=");
        reveal_strlit("\n");
    }
    assert(enc_part3(p).len() == 383) by {
        reveal(enc_part3);
        reveal_strlit("num_threads=");
        reveal_strlit("itrealvalue=");
        reveal_strlit("starttime=");
        reveal_strlit("vsize=");
        reveal_strlit("rss=");
        reveal_strlit("rsslim=");
        reveal_strlit("startcode=");
        reveal_strlit("endcode=");
        reveal_strlit("startstack=");
        reveal_strlit("\n");
    }
    assert(enc_part4(p).len() == 429) by {
        reveal(enc_part4);
        reveal_strlit("kstkesp=");
        reveal_strlit("kstkeip=");
        reveal_strlit("signal=");
        reveal_strlit("blocked=");
        reveal_strlit("sigignore=");
        reveal_strlit("sigcatch=");
        reveal_strlit("wchan=");
        reveal_strlit("nswap=");
        reveal_strlit("cnswap=");
        reveal_strlit("\n");
    }
    assert(enc_part5(p).len() == 409) by {
        reveal(enc_part5);
        reveal_strlit("exit_signal=");
        reveal_strlit("processor=");
        reveal_strlit("rt_priority=");
        reveal_strlit("policy=");
        reveal_strlit("delayacct_blkio_ticks=");
        reveal_strlit("guest_time=");
        reveal_strlit("cguest_time=");
        reveal_strlit("start_data=");
        reveal_strlit("end_data=");
        reveal_strlit("\n");
    }
    assert(enc_part6(p).len() == 272 + p.comm.len()) by {
        reveal(enc_part6);
        reveal_strlit("start_brk=");
        reveal_strlit("arg_start=");
        reveal_strlit("arg_end=");
        reveal_strlit("env_start=");
        reveal_strlit("env_end=");
        reveal_strlit("comm=");
        reveal_strlit("\n");
    }
    assert(e.subrange(0, 262) =~= enc_part1(p));
    assert(e.subrange(262, 609) =~= enc_part2(p));
    assert(e.subrange(609, 992) =~= enc_part3(p));
    assert(e.subrange(992, 1421) =~= enc_part4(p));
    assert(e.subrange(1421, 1830) =~= enc_part5(p));
    assert(e.subrange(1830, e.len() as int) =~= enc_part6(p));
    assert(enc_part5(p)[12] == enc_i(p.exit_signal as int)[0] && enc_part5(p).subrange(13, 32) =~= dec_fixed(m_exit_signal, 19)) by {
        reveal(enc_part5);
        reveal_strlit("exit_signal=");
        reveal_strlit("processor=");
        reveal_strlit("rt_priority=");
        reveal_strlit("policy=");
        reveal_strlit("delayacct_blkio_ticks=");
        reveal_strlit("guest_time=");
        reveal_strlit("cguest_time=");
        reveal_strlit("start_data=");
        reveal_strlit("end_data=");
        reveal_strlit("\n");
    }
    assert(e[1433] == enc_part5(p)[12]);
    assert(e.subrange(1434, 1453) =~= enc_part5(p).subrange(13, 32));
    assert(loose_i64(e, 1433) == p.exit_signal as int);
    assert(enc_part5(p)[43] == enc_i(p.processor as int)[0] && enc_part5(p).subrange(44, 63) =~= dec_fixed(m_processor, 19)) by {
        reveal(enc_part5);
        reveal_strlit("exit_signal=");
        reveal_strlit("processor=");
        reveal_strlit("rt_priority=");
        reveal_strlit("policy=");
        reveal_strlit("delayacct_blkio_ticks=");
        reveal_strlit("guest_time=");
        reveal_strlit("cguest_time=");
        reveal_strlit("start_data=");
        reveal_strlit("end_data=");
        reveal_strlit("\n");
    }
    assert(e[1464] == enc_part5(p)[43]);
    assert(e.subrange(1465, 1484) =~= enc_part5(p).subrange(44, 63));
    assert(loose_i64(e, 1464) == p.processor as int);
    assert(enc_part5(p).subrange(76, 115) =~= dec_fixed(p.rt_priority as int, 39)) by {
        reveal(enc_part5);
        reveal_strlit("exit_signal=");
        reveal_strlit("processor=");
        reveal_strlit("rt_priority=");
        reveal_strlit("policy=");
        reveal_strlit("delayacct_blkio_ticks=");
        reveal_strlit("guest_time=");
        reveal_strlit("cguest_time=");
        reveal_strlit("start_data=");
        reveal_strlit("end_data=");
        reveal_strlit("\n");
    }
    assert(e.subrange(1497, 1536) =~= enc_part5(p).subrange(76, 115));
    assert(loose_digits(e, 1497, 39) == p.rt_priority as int);
    assert(enc_part5(p).subrange(123, 162) =~= dec_fixed(p.policy as int, 39)) by {
        reveal(enc_part5);
        reveal_strlit("exit_signal=");
        reveal_strlit("processor=");
        reveal_strlit("rt_priority=");
        reveal_strlit("policy=");
        reveal_strlit("delayacct_blkio_ticks=");
        reveal_strlit("guest_time=");
        reveal_strlit("cguest_time=");
        reveal_strlit("start_data=");
        reveal_strlit("end_data=");
        reveal_strlit("\n");
    }
    assert(e.subrange(1544, 1583) =~= enc_part5(p).subrange(123, 162));
    assert(loose_digits(e, 1544, 39) == p.policy as int);
    assert(enc_part5(p).subrange(185, 224) =~= dec_fixed(p.delayacct_blkio_ticks as int, 39)) by {
        reveal(enc_part5);
        reveal_strlit("exit_signal=");
        reveal_strlit("processor=");
        reveal_strlit("rt_priority=");
        reveal_strlit("policy=");
        reveal_strlit("delayacct_blkio_ticks=");
        reveal_strlit("guest_time=");
        reveal_strlit("cguest_time=");
        reveal_strlit("start_data=");
        reveal_strlit("end_data=");
        reveal_strlit("\n");
    }
    assert(e.subrange(1606, 1645) =~= enc_part5(p).subrange(185, 224));
    assert(loose_digits(e, 1606, 39) == p.delayacct_blkio_ticks as int);
    assert(enc_part5(p).subrange(236, 275) =~= dec_fixed(p.guest_time as int, 39)) by {
        reveal(enc_part5);
        reveal_strlit("exit_signal=");
        reveal_strlit("processor=");
        reveal_strlit("rt_priority=");
        reveal_strlit("policy=");
        reveal_strlit("delayacct_blkio_ticks=");
        reveal_strlit("guest_time=");
        reveal_strlit("cguest_time=");
        reveal_strlit("start_data=");
        reveal_strlit("end_data=");
        reveal_strlit("\n");
    }
    assert(e.subrange(1657, 1696) =~= enc_part5(p).subrange(236, 275));
    assert(loose_digits(e, 1657, 39) == p.guest_time as int);
    assert(enc_part5(p)[288] == enc_i(p.cguest_time as int)[0] && enc_part5(p).subrange(289, 308) =~= dec_fixed(m_cguest_time, 19)) by {
        reveal(enc_part5);
        reveal_strlit("exit_signal=");
        reveal_strlit("processor=");
        reveal_strlit("rt_priority=");
        reveal_strlit("policy=");
        reveal_strlit("delayacct_blkio_ticks=");
        reveal_strlit("guest_time=");
        reveal_strlit("cguest_time=");
        reveal_strlit("start_data=");
        reveal_strlit("end_data=");
        reveal_strlit("\n");
    }
    assert(e[1709] == enc_part5(p)[288]);
    assert(e.subrange(1710, 1729) =~= enc_part5(p).subrange(289, 308));
    assert(loose_i64(e, 1709) == p.cguest_time as int);
    assert(enc_part5(p).subrange(320, 359) =~= dec_fixed(p.start_data as int, 39)) by {
        reveal(enc_part5);
        reveal_strlit("exit_signal=");
        reveal_strlit("processor=");
        reveal_strlit("rt_priority=");
        reveal_strlit("policy=");
        reveal_strlit("delayacct_blkio_ticks=");
        reveal_strlit("guest_time=");
        reveal_strlit("cguest_time=");
        reveal_strlit("start_data=");
        reveal_strlit("end_data=");
        reveal_strlit("\n");
    }
    assert(e.subrange(1741, 1780) =~= enc_part5(p).subrange(320, 359));
    assert(loose_digits(e, 1741, 39) == p.start_data as int);
    assert(enc_part5(p).subrange(369, 408) =~= dec_fixed(p.end_data as int, 39)) by {
        reveal(enc_part5);
        reveal_strlit("exit_signal=");
        reveal_strlit("processor=");
        reveal_strlit("rt_priority=");
        reveal_strlit("policy=");
        reveal_strlit("delayacct_blkio_ticks=");
        reveal_strlit("guest_time=");
        reveal_strlit("cguest_time=");
        reveal_strlit("start_data=");
        reveal_strlit("end_data=");
        reveal_strlit("\n");
    }
    assert(e.subrange(1790, 1829) =~= enc_part5(p).subrange(369, 408));
    assert(loose_digits(e, 1790, 39) == p.end_data as int);
}

/// The fields of one stretch of a rendering read back exactly.
#[verifier::rlimit(100)]
#[verifier::spinoff_prover]
proof fn lemma_extract_part6(p: ProcessV)
    requires
        p.comm.len() <= usize::MAX as int,
    ensures
        loose_digits(enc_process(p), 1840, 39) == p.start_brk as int,
        loose_digits(enc_process(p), 1890, 39) == p.arg_start as int,
        loose_digits(enc_process(p), 1938, 39) == p.arg_end as int,
        loose_digits(enc_process(p), 1988, 39) == p.env_start as int,
        loose_digits(enc_process(p), 2036, 39) == p.env_end as int,
        loose_digits(enc_process(p), 2081, 20) == p.comm.len(),
        loose_str(enc_process(p), 2081) =~= p.comm,
{
    lemma_pow10_bounds();
    let e = enc_process(p);
    let m_pid = if p.pid < 0 { -(p.pid as int) } else { p.pid as int };
    lemma_dec_fixed(m_pid, 19);
    let m_ppid = if p.ppid < 0 { -(p.ppid as int) } else { p.ppid as int };
    lemma_dec_fixed(m_ppid, 19);
    let m_pgrp = if p.pgrp < 0 { -(p.pgrp as int) } else { p.pgrp as int };
    lemma_dec_fixed(m_pgrp, 19);
    let m_session = if p.session < 0 { -(p.session as int) } else { p.session as int };
    lemma_dec_fixed(m_session, 19);
    let m_tty_nr = if p.tty_nr < 0 { -(p.tty_nr as int) } else { p.tty_nr as int };
    lemma_dec_fixed(m_tty_nr, 19);
    let m_tpgid = if p.tpgid < 0 { -(p.tpgid as int) } else { p.tpgid as int };
    lemma_dec_fixed(m_tpgid, 19);
    lemma_dec_fixed(p.flags as int, 39);
    lemma_dec_fixed(p.minflt as int, 39);
    lemma_dec_fixed(p.cminflt as int, 39);
    lemma_dec_fixed(p.majflt as int, 39);
    lemma_dec_fixed(p.cmajflt as int, 39);
    lemma_dec_fixed(p.utime as int, 39);
    lemma_dec_fixed(p.stime as int, 39);
    let m_cutime = if p.cutime < 0 { -(p.cutime as int) } else { p.cutime as int };
    lemma_dec_fixed(m_cutime, 19);
    let m_cstime = if p.cstime < 0 { -(p.cstime as int) } else { p.cstime as int };
    lemma_dec_fixed(m_cstime, 19);
    let m_priority = if p.priority < 0 { -(p.priority as int) } else { p.priority as int };
    lemma_dec_fixed(m_priority, 19);
    let m_nice = if p.nice < 0 { -(p.nice as int) } else { p.nice as int };
    lemma_dec_fixed(m_nice, 19);
    let m_num_threads = if p.num_threads < 0 { -(p.num_threads as int) } else { p.num_threads as int };
    lemma_dec_fixed(m_num_threads, 19);
    let m_itrealvalue = if p.itrealvalue < 0 { -(p.itrealvalue as int) } else { p.itrealvalue as int };
    lemma_dec_fixed(m_itrealvalue, 19);
    lemma_dec_fixed(p.starttime as int, 39);
    lemma_dec_fixed(p.vsize as int, 39);
    let m_rss = if p.rss < 0 { -(p.rss as int) } else { p.rss as int };
    lemma_dec_fixed(m_rss, 19);
    lemma_dec_fixed(p.rsslim as int, 39);
    lemma_dec_fixed(p.startcode as int, 39);
    lemma_dec_fixed(p.endcode as int, 39);
    lemma_dec_fixed(p.startstack as int, 39);
    lemma_dec_fixed(p.kstkesp as int, 39);
    lemma_dec_fixed(p.kstkeip as int, 39);
    lemma_dec_fixed(p.signal as int, 39);
    lemma_dec_fixed(p.blocked as int, 39);
    lemma_dec_fixed(p.sigignore as int, 39);
    lemma_dec_fixed(p.sigcatch as int, 39);
    lemma_dec_fixed(p.wchan as int, 39);
    lemma_dec_fixed(p.nswap as int, 39);
    lemma_dec_fixed(p.cnswap as int, 39);
    let m_exit_signal = if p.exit_signal < 0 { -(p.exit_signal as int) } else { p.exit_signal as int };
    lemma_dec_fixed(m_exit_signal, 19);
    let m_processor = if p.processor < 0 { -(p.processor as int) } else { p.processor as int };
    lemma_dec_fixed(m_processor, 19);
    lemma_dec_fixed(p.rt_priority as int, 39);
    lemma_dec_fixed(p.policy as int, 39);
    lemma_dec_fixed(p.delayacct_blkio_ticks as int, 39);
    lemma_dec_fixed(p.guest_time as int, 39);
    let m_cguest_time = if p.cguest_time < 0 { -(p.cguest_time as int) } else { p.cguest_time as int };
    lemma_dec_fixed(m_cguest_time, 19);
    lemma_dec_fixed(p.start_data as int, 39);
    lemma_dec_fixed(p.end_data as int, 39);
    lemma_dec_fixed(p.start_brk as int, 39);
    lemma_dec_fixed(p.arg_start as int, 39);
    lemma_dec_fixed(p.arg_end as int, 39);
    lemma_dec_fixed(p.env_start as int, 39);
    lemma_dec_fixed(p.env_end as int, 39);
    lemma_dec_fixed(p.comm.len() as int, 20);
    lemma_dec_fixed_len(if p.pid < 0 { -(p.pid as int) } else { p.pid as int }, 19);
    lemma_dec_fixed_len(if p.ppid < 0 { -(p.ppid as int) } else { p.ppid as int }, 19);
    lemma_dec_fixed_len(if p.pgrp < 0 { -(p.pgrp as int) } else { p.pgrp as int }, 19);
    lemma_dec_fixed_len(if p.session < 0 { -(p.session as int) } else { p.session as int }, 19);
    lemma_dec_fixed_len(if p.tty_nr < 0 { -(p.tty_nr as int) } else { p.tty_nr as int }, 19);
    lemma_dec_fixed_len(if p.tpgid < 0 { -(p.tpgid as int) } else { p.tpgid as int }, 19);
    lemma_dec_fixed_len(p.flags as int, 39);
    lemma_dec_fixed_len(p.minflt as int, 39);
    lemma_dec_fixed_len(p.cminflt as int, 39);
    lemma_dec_fixed_len(p.majflt as int, 39);
    lemma_dec_fixed_len(p.cmajflt as int, 39);
    lemma_dec_fixed_len(p.utime as int, 39);
    lemma_dec_fixed_len(p.stime as int, 39);
    lemma_dec_fixed_len(if p.cutime < 0 { -(p.cutime as int) } else { p.cutime as int }, 19);
    lemma_dec_fixed_len(if p.cstime < 0 { -(p.cstime as int) } else { p.cstime as int }, 19);
    lemma_dec_fixed_len(if p.priority < 0 { -(p.priority as int) } else { p.priority as int }, 19);
    lemma_dec_fixed_len(if p.nice < 0 { -(p.nice as int) } else { p.nice as int }, 19);
    lemma_dec_fixed_len(if p.num_threads < 0 { -(p.num_threads as int) } else { p.num_threads as int }, 19);
    lemma_dec_fixed_len(if p.itrealvalue < 0 { -(p.itrealvalue as int) } else { p.itrealvalue as int }, 19);
    lemma_dec_fixed_len(p.starttime as int, 39);
    lemma_dec_fixed_len(p.vsize as int, 39);
    lemma_dec_fixed_len(if p.rss < 0 { -(p.rss as int) } else { p.rss as int }, 19);
    lemma_dec_fixed_len(p.rsslim as int, 39);
    lemma_dec_fixed_len(p.startcode as int, 39);
    lemma_dec_fixed_len(p.endcode as int, 39);
    lemma_dec_fixed_len(p.startstack as int, 39);
    lemma_dec_fixed_len(p.kstkesp as int, 39);
    lemma_dec_fixed_len(p.kstkeip as int, 39);
    lemma_dec_fixed_len(p.signal as int, 39);
    lemma_dec_fixed_len(p.blocked as int, 39);
    lemma_dec_fixed_len(p.sigignore as int, 39);
    lemma_dec_fixed_len(p.sigcatch as int, 39);
    lemma_dec_fixed_len(p.wchan as int, 39);
    lemma_dec_fixed_len(p.nswap as int, 39);
    lemma_dec_fixed_len(p.cnswap as int, 39);
    lemma_dec_fixed_len(if p.exit_signal < 0 { -(p.exit_signal as int) } else { p.exit_signal as int }, 19);
    lemma_dec_fixed_len(if p.processor < 0 { -(p.processor as int) } else { p.processor as int }, 19);
    lemma_dec_fixed_len(p.rt_priority as int, 39);
    lemma_dec_fixed_len(p.policy as int, 39);
    lemma_dec_fixed_len(p.delayacct_blkio_ticks as int, 39);
    lemma_dec_fixed_len(p.guest_time as int, 39);
    lemma_dec_fixed_len(if p.cguest_time < 0 { -(p.cguest_time as int) } else { p.cguest_time as int }, 19);
    lemma_dec_fixed_len(p.start_data as int, 39);
    lemma_dec_fixed_len(p.end_data as int, 39);
    lemma_dec_fixed_len(p.start_brk as int, 39);
    lemma_dec_fixed_len(p.arg_start as int, 39);
    lemma_dec_fixed_len(p.arg_end as int, 39);
    lemma_dec_fixed_len(p.env_start as int, 39);
    lemma_dec_fixed_len(p.env_end as int, 39);
    lemma_dec_fixed_len(p.comm.len() as int, 20);
    assert(enc_part1(p).len() == 262) by {
        reveal(enc_part1);
        reveal_strlit("pid=");
        reveal_strlit("state=");
        reveal_strlit("ppid=");
        reveal_strlit("pgrp=");
        reveal_strlit("session=");
        reveal_strlit("tty_nr=");
        reveal_strlit("tpgid=");
        reveal_strlit("flags=");
        reveal_strlit("minflt=");
        reveal_strlit("\n");
    }
    assert(enc_part2(p).len() == 347) by {
        reveal(enc_part2);
        reveal_strlit("cminflt=");
        reveal_strlit("majflt=");
        reveal_strlit("cmajflt=");
        reveal_strlit("utime=");
        reveal_strlit("stime=");
        reveal_strlit("cutime=");
        reveal_strlit("cstime=");
        reveal_strlit("priority=");
        reveal_strlit("nice=");
        reveal_strlit("\n");
    }
    assert(enc_part3(p).len() == 383) by {
        reveal(enc_part3);
        reveal_strlit("num_threads=");
        reveal_strlit("itrealvalue=");
        reveal_strlit("starttime=");
        reveal_strlit("vsize=");
        reveal_strlit("rss=");
        reveal_strlit("rsslim=");
        reveal_strlit("startcode=");
        reveal_strlit("endcode=");
        reveal_strlit("startstack=");
        reveal_strlit("\n");
    }
    assert(enc_part4(p).len() == 429) by {
        reveal(enc_part4);
        reveal_strlit("kstkesp=");
        reveal_strlit("kstkeip=");
        reveal_strlit("signal=");
        reveal_strlit("blocked=");
        reveal_strlit("sigignore=");
        reveal_strlit("sigcatch=");
        reveal_strlit("wchan=");
        reveal_strlit("nswap=");
        reveal_strlit("cnswap=");
        reveal_strlit("\n");
    }
    assert(enc_part5(p).len() == 409) by {
        reveal(enc_part5);
        reveal_strlit("exit_signal=");
        reveal_strlit("processor=");
        reveal_strlit("rt_priority=");
        reveal_strlit("policy=");
        reveal_strlit("delayacct_blkio_ticks=");
        reveal_strlit("guest_time=");
        reveal_strlit("cguest_time=");
        reveal_strlit("start_data=");
        reveal_strlit("end_data=");
        reveal_strlit("\n");
    }
    assert(enc_part6(p).len() == 272 + p.comm.len()) by {
        reveal(enc_part6);
        reveal_strlit("start_brk=");
        reveal_strlit("arg_start=");
        reveal_strlit("arg_end=");
        reveal_strlit("env_start=");
        reveal_strlit("env_end=");
        reveal_strlit("comm=");
        reveal_strlit("\n");
    }
    assert(e.subrange(0, 262) =~= enc_part1(p));
    assert(e.subrange(262, 609) =~= enc_part2(p));
    assert(e.subrange(609, 992) =~= enc_part3(p));
    assert(e.subrange(992, 1421) =~= enc_part4(p));
    assert(e.subrange(1421, 1830) =~= enc_part5(p));
    assert(e.subrange(1830, e.len() as int) =~= enc_part6(p));
    assert(enc_part6(p).subrange(10, 49) =~= dec_fixed(p.start_brk as int, 39)) by {
        reveal(enc_part6);
        reveal_strlit("start_brk=");
        reveal_strlit("arg_start=");
        reveal_strlit("arg_end=");
        reveal_strlit("env_start=");
        reveal_strlit("env_end=");
        reveal_strlit("\n");
    }
    assert(e.subrange(1840, 1879) =~= enc_part6(p).subrange(10, 49));
    assert(loose_digits(e, 1840, 39) == p.start_brk as int);
    assert(enc_part6(p).subrange(60, 99) =~= dec_fixed(p.arg_start as int, 39)) by {
        reveal(enc_part6);
        reveal_strlit("start_brk=");
        reveal_strlit("arg_start=");
        reveal_strlit("arg_end=");
        reveal_strlit("env_start=");
        reveal_strlit("env_end=");
        reveal_strlit("\n");
    }
    assert(e.subrange(1890, 1929) =~= enc_part6(p).subrange(60, 99));
    assert(loose_digits(e, 1890, 39) == p.arg_start as int);
    assert(enc_part6(p).subrange(108, 147) =~= dec_fixed(p.arg_end as int, 39)) by {
        reveal(enc_part6);
        reveal_strlit("start_brk=");
        reveal_strlit("arg_start=");
        reveal_strlit("arg_end=");
        reveal_strlit("env_start=");
        reveal_strlit("env_end=");
        reveal_strlit("\n");
    }
    assert(e.subrange(1938, 1977) =~= enc_part6(p).subrange(108, 147));
    assert(loose_digits(e, 1938, 39) == p.arg_end as int);
    assert(enc_part6(p).subrange(158, 197) =~= dec_fixed(p.env_start as int, 39)) by {
        reveal(enc_part6);
        reveal_strlit("start_brk=");
        reveal_strlit("arg_start=");
        reveal_strlit("arg_end=");
        reveal_strlit("env_start=");
        reveal_strlit("env_end=");
        reveal_strlit("\n");
    }
    assert(e.subrange(1988, 2027) =~= enc_part6(p).subrange(158, 197));
    assert(loose_digits(e, 1988, 39) == p.env_start as int);
    assert(enc_part6(p).subrange(206, 245) =~= dec_fixed(p.env_end as int, 39)) by {
        reveal(enc_part6);
        reveal_strlit("start_brk=");
        reveal_strlit("arg_start=");
        reveal_strlit("arg_end=");
        reveal_strlit("env_start=");
        reveal_strlit("env_end=");
        reveal_strlit("\n");
    }
    assert(e.subrange(2036, 2075) =~= enc_part6(p).subrange(206, 245));
    assert(loose_digits(e, 2036, 39) == p.env_end as int);
    assert(enc_part6(p).subrange(251, 271) =~= dec_fixed(p.comm.len() as int, 20) && enc_part6(p).subrange(271, 271 + p.comm.len() as int) =~= p.comm) by {
        reveal(enc_part6);
        reveal_strlit("start_brk=");
        reveal_strlit("arg_start=");
        reveal_strlit("arg_end=");
        reveal_strlit("env_start=");
        reveal_strlit("env_end=");
        reveal_strlit("comm=");
        reveal_strlit("\n");
    }
    assert(e.subrange(2081, 2101) =~= enc_part6(p).subrange(251, 271));
    assert(loose_digits(e, 2081, 20) == p.comm.len());
    assert(e.subrange(2101, 2101 + p.comm.len() as int) =~= enc_part6(p).subrange(271, 271 + p.comm.len() as int));
    assert(loose_str(e, 2081) =~= p.comm);
}

/// Reading the rendering of a record back from its fixed positions
/// recovers the record exactly; the rendering is therefore injective.
#[verifier::rlimit(100)]
#[verifier::spinoff_prover]
pub proof fn lemma_extract_enc(p: ProcessV)
    requires
        p.comm.len() <= usize::MAX as int,
    ensures
        extract_process(enc_process(p)) == p,
{
    let e = enc_process(p);
    lemma_extract_part1(p);
    lemma_extract_part2(p);
    lemma_extract_part3(p);
    lemma_extract_part4(p);
    lemma_extract_part5(p);
    lemma_extract_part6(p);
    assert(extract_process(e) == p);
}
/// Two records with the same rendering are the same record: the round
/// trip through the interchange format loses nothing.
pub proof fn lemma_enc_process_injective(a: ProcessV, b: ProcessV)
    requires
        enc_process(a) == enc_process(b),
        a.comm.len() <= usize::MAX as int,
        b.comm.len() <= usize::MAX as int,
    ensures
        a == b,
{
    lemma_extract_enc(a);
    lemma_extract_enc(b);
}

/// Appends one stretch of the rendering.
#[verifier::rlimit(100)]
#[verifier::spinoff_prover]
fn encode_part1(out: &mut String, p: &Process)
    ensures
        final(out)@ == old(out)@ + enc_part1(p@),
{
    out.append("pid=");
    append_i(out, p.pid as i64);
    out.append("\n");
    out.append("state=");
    push_char(out, p.state);
    out.append("\n");
    out.append("ppid=");
    append_i(out, p.ppid as i64);
    out.append("\n");
    out.append("pgrp=");
    append_i(out, p.pgrp as i64);
    out.append("\n");
    out.append("session=");
    append_i(out, p.session as i64);
    out.append("\n");
    out.append("tty_nr=");
    append_i(out, p.tty_nr as i64);
    out.append("\n");
    out.append("tpgid=");
    append_i(out, p.tpgid as i64);
    out.append("\n");
    out.append("flags=");
    append_u(out, p.flags as u128);
    out.append("\n");
    out.append("minflt=");
    append_u(out, p.minflt as u128);
    out.append("\n");
    proof {
        reveal(enc_part1);
        assert(final(out)@ =~= old(out)@ + enc_part1(p@));
    }
}

/// Appends one stretch of the rendering.
#[verifier::rlimit(100)]
#[verifier::spinoff_prover]
fn encode_part2(out: &mut String, p: &Process)
    ensures
        final(out)@ == old(out)@ + enc_part2(p@),
{
    out.append("cminflt=");
    append_u(out, p.cminflt as u128);
    out.append("\n");
    out.append("majflt=");
    append_u(out, p.majflt as u128);
    out.append("\n");
    out.append("cmajflt=");
    append_u(out, p.cmajflt as u128);
    out.append("\n");
    out.append("utime=");
    append_u(out, p.utime as u128);
    out.append("\n");
    out.append("stime=");
    append_u(out, p.stime as u128);
    out.append("\n");
    out.append("cutime=");
    append_i(out, p.cutime);
    out.append("\n");
    out.append("cstime=");
    append_i(out, p.cstime);
    out.append("\n");
    out.append("priority=");
    append_i(out, p.priority);
    out.append("\n");
    out.append("nice=");
    append_i(out, p.nice);
    out.append("\n");
    proof {
        reveal(enc_part2);
        assert(final(out)@ =~= old(out)@ + enc_part2(p@));
    }
}

/// Appends one stretch of the rendering.
#[verifier::rlimit(100)]
#[verifier::spinoff_prover]
fn encode_part3(out: &mut String, p: &Process)
    ensures
        final(out)@ == old(out)@ + enc_part3(p@),
{
    out.append("num_threads=");
    append_i(out, p.num_threads);
    out.append("\n");
    out.append("itrealvalue=");
    append_i(out, p.itrealvalue);
    out.append("\n");
    out.append("starttime=");
    append_u(out, p.starttime);
    out.append("\n");
    out.append("vsize=");
    append_u(out, p.vsize as u128);
    out.append("\n");
    out.append("rss=");
    append_i(out, p.rss);
    out.append("\n");
    out.append("rsslim=");
    append_u(out, p.rsslim as u128);
    out.append("\n");
    out.append("startcode=");
    append_u(out, p.startcode as u128);
    out.append("\n");
    out.append("endcode=");
    append_u(out, p.endcode as u128);
    out.append("\n");
    out.append("startstack=");
    append_u(out, p.startstack as u128);
    out.append("\n");
    proof {
        reveal(enc_part3);
        assert(final(out)@ =~= old(out)@ + enc_part3(p@));
    }
}

/// Appends one stretch of the rendering.
#[verifier::rlimit(100)]
#[verifier::spinoff_prover]
fn encode_part4(out: &mut String, p: &Process)
    ensures
        final(out)@ == old(out)@ + enc_part4(p@),
{
    out.append("kstkesp=");
    append_u(out, p.kstkesp as u128);
    out.append("\n");
    out.append("kstkeip=");
    append_u(out, p.kstkeip as u128);
    out.append("\n");
    out.append("signal=");
    append_u(out, p.signal as u128);
    out.append("\n");
    out.append("blocked=");
    append_u(out, p.blocked as u128);
    out.append("\n");
    out.append("sigignore=");
    append_u(out, p.sigignore as u128);
    out.append("\n");
    out.append("sigcatch=");
    append_u(out, p.sigcatch as u128);
    out.append("\n");
    out.append("wchan=");
    append_u(out, p.wchan as u128);
    out.append("\n");
    out.append("nswap=");
    append_u(out, p.nswap as u128);
    out.append("\n");
    out.append("cnswap=");
    append_u(out, p.cnswap as u128);
    out.append("\n");
    proof {
        reveal(enc_part4);
        assert(final(out)@ =~= old(out)@ + enc_part4(p@));
    }
}

/// Appends one stretch of the rendering.
#[verifier::rlimit(100)]
#[verifier::spinoff_prover]
fn encode_part5(out: &mut String, p: &Process)
    ensures
        final(out)@ == old(out)@ + enc_part5(p@),
{
    out.append("exit_signal=");
    append_i(out, p.exit_signal as i64);
    out.append("\n");
    out.append("processor=");
    append_i(out, p.processor as i64);
    out.append("\n");
    out.append("rt_priority=");
    append_u(out, p.rt_priority as u128);
    out.append("\n");
    out.append("policy=");
    append_u(out, p.policy as u128);
    out.append("\n");
    out.append("delayacct_blkio_ticks=");
    append_u(out, p.delayacct_blkio_ticks);
    out.append("\n");
    out.append("guest_time=");
    append_u(out, p.guest_time as u128);
    out.append("\n");
    out.append("cguest_time=");
    append_i(out, p.cguest_time);
    out.append("\n");
    out.append("start_data=");
    append_u(out, p.start_data as u128);
    out.append("\n");
    out.append("end_data=");
    append_u(out, p.end_data as u128);
    out.append("\n");
    proof {
        reveal(enc_part5);
        assert(final(out)@ =~= old(out)@ + enc_part5(p@));
    }
}

/// Appends one stretch of the rendering.
#[verifier::rlimit(100)]
#[verifier::spinoff_prover]
fn encode_part6(out: &mut String, p: &Process)
    ensures
        final(out)@ == old(out)@ + enc_part6(p@),
{
    out.append("start_brk=");
    append_u(out, p.start_brk as u128);
    out.append("\n");
    out.append("arg_start=");
    append_u(out, p.arg_start as u128);
    out.append("\n");
    out.append("arg_end=");
    append_u(out, p.arg_end as u128);
    out.append("\n");
    out.append("env_start=");
    append_u(out, p.env_start as u128);
    out.append("\n");
    out.append("env_end=");
    append_u(out, p.env_end as u128);
    out.append("\n");
    out.append("comm=");
    append_len20(out, p.comm.as_str().unicode_len());
    out.append(p.comm.as_str());
    out.append("\n");
    proof {
        reveal(enc_part6);
        assert(final(out)@ =~= old(out)@ + enc_part6(p@));
    }
}

/// Renders one record in the interchange format, field for field with
/// the field names preserved.
pub fn encode_process(p: &Process) -> (out: String)
    ensures
        out@ == enc_process(p@),
{
    let mut out = String::new();
    encode_part1(&mut out, p);
    encode_part2(&mut out, p);
    encode_part3(&mut out, p);
    encode_part4(&mut out, p);
    encode_part5(&mut out, p);
    encode_part6(&mut out, p);
    proof {
        assert(out@ =~= enc_process(p@));
    }
    out
}

/// Reads a record back from the interchange format.  The candidate read
/// from the fixed positions is re-encoded and compared with the input,
/// so the result is a record exactly when the input is the rendering of
/// one, and then it is that record.
#[verifier::rlimit(100)]
pub fn decode_process(s: &str) -> (r: Option<Process>)
    ensures
        match r {
            Some(q) => s@ == enc_process(q@),
            None => !(exists|pv: ProcessV| s@ == enc_process(pv)),
        },
{
    let total = s.unicode_len();
    proof {
        assert(s@.len() == total);
    }
    let q = Process {
        pid: read_clamp_i32(s, 4),
        state: read_c_loose(s, 31),
        ppid: read_clamp_i32(s, 38),
        pgrp: read_clamp_i32(s, 64),
        session: read_clamp_i32(s, 93),
        tty_nr: read_clamp_i32(s, 121),
        tpgid: read_clamp_i32(s, 148),
        flags: read_clamp_u32(s, 175),
        minflt: read_clamp_u64(s, 222),
        cminflt: read_clamp_u64(s, 270),
        majflt: read_clamp_u64(s, 317),
        cmajflt: read_clamp_u64(s, 365),
        utime: read_clamp_u64(s, 411),
        stime: read_clamp_u64(s, 457),
        cutime: read_clamp_i64(s, 504),
        cstime: read_clamp_i64(s, 532),
        priority: read_clamp_i64(s, 562),
        nice: read_clamp_i64(s, 588),
        num_threads: read_clamp_i64(s, 621),
        itrealvalue: read_clamp_i64(s, 654),
        starttime: read_digits_loose(s, 685, 39),
        vsize: read_clamp_u64(s, 731),
        rss: read_clamp_i64(s, 775),
        rsslim: read_clamp_u64(s, 803),
        startcode: read_clamp_u64(s, 853),
        endcode: read_clamp_u64(s, 901),
        startstack: read_clamp_u64(s, 952),
        kstkesp: read_clamp_u64(s, 1000),
        kstkeip: read_clamp_u64(s, 1048),
        signal: read_clamp_u64(s, 1095),
        blocked: read_clamp_u64(s, 1143),
        sigignore: read_clamp_u64(s, 1193),
        sigcatch: read_clamp_u64(s, 1242),
        wchan: read_clamp_u64(s, 1288),
        nswap: read_clamp_u64(s, 1334),
        cnswap: read_clamp_u64(s, 1381),
        exit_signal: read_clamp_i32(s, 1433),
        processor: read_clamp_i32(s, 1464),
        rt_priority: read_clamp_u32(s, 1497),
        policy: read_clamp_u32(s, 1544),
        delayacct_blkio_ticks: read_digits_loose(s, 1606, 39),
        guest_time: read_clamp_u64(s, 1657),
        cguest_time: read_clamp_i64(s, 1709),
        start_data: read_clamp_u64(s, 1741),
        end_data: read_clamp_u64(s, 1790),
        start_brk: read_clamp_u64(s, 1840),
        arg_start: read_clamp_u64(s, 1890),
        arg_end: read_clamp_u64(s, 1938),
        env_start: read_clamp_u64(s, 1988),
        env_end: read_clamp_u64(s, 2036),
        comm: read_str_loose(s, 2081),
    };
    proof {
        assert(q@ == extract_process(s@));
    }
    let e = encode_process(&q);
    if str_eq(e.as_str(), s) {
        Some(q)
    } else {
        proof {
            if exists|pv: ProcessV| s@ == enc_process(pv) {
                let pv = choose|pv: ProcessV| s@ == enc_process(pv);
                lemma_enc_len(pv);
                lemma_extract_enc(pv);
                assert(q@ == pv);
            }
        }
        None
    }
}

} // verus!
