//! The status-record parser: one fixed-order, space-separated text line is
//! consumed token by token against the 51-entry field table, and either
//! every field converts under its declared type, or the parse fails with
//! the conversion kind and the 1-based position of the first bad field.

use vstd::prelude::*;

use crate::errors::{ProcessParseError, ProcessParseErrorKind};
use crate::numbers::{int_token_val, is_int_token, is_uint_token, uint_token_val};
use crate::numbers::{parse_int, parse_uint_max};
use crate::split::{split_tokens, Cursor};

verus! {

/// The type tag of one field of the record: 32- or 64- or 128-bit, signed
/// or unsigned, a string, or a single character.
#[derive(Clone, Copy, Debug, PartialEq, Eq, Structural)]
pub enum FieldTy {
    D,
    U,
    Ld,
    Lu,
    Llu,
    S,
    C,
}

/// One converted field value.
#[derive(Debug, Clone)]
pub enum FieldVal {
    D(i32),
    U(u32),
    Ld(i64),
    Lu(u64),
    Llu(u128),
    S(String),
    C(char),
}

/// Whether token `t` converts under the field type `ty`.
pub open spec fn tok_ok(t: Seq<char>, ty: FieldTy) -> bool {
    match ty {
        FieldTy::D => is_int_token(t, i32::MIN as int, i32::MAX as int),
        FieldTy::U => is_uint_token(t, u32::MAX as int),
        FieldTy::Ld => is_int_token(t, i64::MIN as int, i64::MAX as int),
        FieldTy::Lu => is_uint_token(t, u64::MAX as int),
        FieldTy::Llu => is_uint_token(t, u128::MAX as int),
        FieldTy::S => true,
        FieldTy::C => t.len() == 1,
    }
}

/// The kind of error a failed conversion under `ty` reports.
pub open spec fn conv_err_kind(ty: FieldTy) -> ProcessParseErrorKind {
    match ty {
        FieldTy::C => ProcessParseErrorKind::Char,
        _ => ProcessParseErrorKind::Int,
    }
}

/// Whether the field at 0-based position `k` has a token and it converts.
pub open spec fn field_ok(toks: Seq<Seq<char>>, k: int) -> bool {
    k < toks.len() && tok_ok(toks[k], field_ty(k))
}

/// The error kind reported at 0-based position `k`: the record ran out, or
/// the conversion for the position's type failed.
pub open spec fn field_err_kind(toks: Seq<Seq<char>>, k: int) -> ProcessParseErrorKind {
    if k >= toks.len() {
        ProcessParseErrorKind::UnexpectedEnd
    } else {
        conv_err_kind(field_ty(k))
    }
}

/// Whether the whole record is well formed: 51 tokens are there and each
/// converts under its declared type.
pub open spec fn stat_ok(toks: Seq<Seq<char>>) -> bool {
    forall|k: int| 0 <= k < 51 ==> field_ok(toks, k)
}

/// Whether `v` is the value of token `t` under field type `ty`.
pub open spec fn val_ok(v: FieldVal, t: Seq<char>, ty: FieldTy) -> bool {
    match ty {
        FieldTy::D => v matches FieldVal::D(x) && x as int == int_token_val(t),
        FieldTy::U => v matches FieldVal::U(x) && x as int == uint_token_val(t),
        FieldTy::Ld => v matches FieldVal::Ld(x) && x as int == int_token_val(t),
        FieldTy::Lu => v matches FieldVal::Lu(x) && x as int == uint_token_val(t),
        FieldTy::Llu => v matches FieldVal::Llu(x) && x as int == uint_token_val(t),
        FieldTy::S => v matches FieldVal::S(s) && s@ == t,
        FieldTy::C => v matches FieldVal::C(c) && t.len() == 1 && c == t[0],
    }
}

/// Converts one token under one field type.
fn convert(t: &str, ty: FieldTy) -> (r: Result<FieldVal, ProcessParseErrorKind>)
    ensures
        match r {
            Ok(v) => tok_ok(t@, ty) && val_ok(v, t@, ty),
            Err(k) => !tok_ok(t@, ty) && k == conv_err_kind(ty),
        },
{
    match ty {
        FieldTy::D => match parse_int(t, i32::MIN as i128, i32::MAX as i128) {
            Some(v) => Ok(FieldVal::D(v as i32)),
            None => Err(ProcessParseErrorKind::Int),
        },
        FieldTy::U => match parse_uint_max(t, u32::MAX as u128) {
            Some(v) => Ok(FieldVal::U(v as u32)),
            None => Err(ProcessParseErrorKind::Int),
        },
        FieldTy::Ld => match parse_int(t, i64::MIN as i128, i64::MAX as i128) {
            Some(v) => Ok(FieldVal::Ld(v as i64)),
            None => Err(ProcessParseErrorKind::Int),
        },
        FieldTy::Lu => match parse_uint_max(t, u64::MAX as u128) {
            Some(v) => Ok(FieldVal::Lu(v as u64)),
            None => Err(ProcessParseErrorKind::Int),
        },
        FieldTy::Llu => match parse_uint_max(t, u128::MAX) {
            Some(v) => Ok(FieldVal::Llu(v)),
            None => Err(ProcessParseErrorKind::Int),
        },
        FieldTy::S => Ok(FieldVal::S(t.to_owned())),
        FieldTy::C => {
            if t.unicode_len() == 1 {
                Ok(FieldVal::C(t.get_char(0)))
            } else {
                Err(ProcessParseErrorKind::Char)
            }
        },
    }
}

fn get_d(vals: &Vec<FieldVal>, k: usize) -> (r: i32)
    requires
        k < vals@.len(),
        vals@[k as int] matches FieldVal::D(_),
    ensures
        FieldVal::D(r) == vals@[k as int],
{
    match &vals[k] {
        FieldVal::D(x) => *x,
        _ => unreached(),
    }
}

fn get_u(vals: &Vec<FieldVal>, k: usize) -> (r: u32)
    requires
        k < vals@.len(),
        vals@[k as int] matches FieldVal::U(_),
    ensures
        FieldVal::U(r) == vals@[k as int],
{
    match &vals[k] {
        FieldVal::U(x) => *x,
        _ => unreached(),
    }
}

fn get_ld(vals: &Vec<FieldVal>, k: usize) -> (r: i64)
    requires
        k < vals@.len(),
        vals@[k as int] matches FieldVal::Ld(_),
    ensures
        FieldVal::Ld(r) == vals@[k as int],
{
    match &vals[k] {
        FieldVal::Ld(x) => *x,
        _ => unreached(),
    }
}

fn get_lu(vals: &Vec<FieldVal>, k: usize) -> (r: u64)
    requires
        k < vals@.len(),
        vals@[k as int] matches FieldVal::Lu(_),
    ensures
        FieldVal::Lu(r) == vals@[k as int],
{
    match &vals[k] {
        FieldVal::Lu(x) => *x,
        _ => unreached(),
    }
}

fn get_llu(vals: &Vec<FieldVal>, k: usize) -> (r: u128)
    requires
        k < vals@.len(),
        vals@[k as int] matches FieldVal::Llu(_),
    ensures
        FieldVal::Llu(r) == vals@[k as int],
{
    match &vals[k] {
        FieldVal::Llu(x) => *x,
        _ => unreached(),
    }
}

fn get_s(vals: &Vec<FieldVal>, k: usize) -> (r: String)
    requires
        k < vals@.len(),
        vals@[k as int] matches FieldVal::S(_),
    ensures
        FieldVal::S(r) == vals@[k as int],
{
    match &vals[k] {
        FieldVal::S(s) => s.clone(),
        _ => unreached(),
    }
}

fn get_c(vals: &Vec<FieldVal>, k: usize) -> (r: char)
    requires
        k < vals@.len(),
        vals@[k as int] matches FieldVal::C(_),
    ensures
        FieldVal::C(r) == vals@[k as int],
{
    match &vals[k] {
        FieldVal::C(c) => *c,
        _ => unreached(),
    }
}
/// One parsed status record: the 51 fields of the kernel's per-process
/// record, in their fixed order, each under its declared type.
#[derive(Debug, Clone)]
pub struct Process {
    pub pid: i32,
    pub comm: String,
    pub state: char,
    pub ppid: i32,
    pub pgrp: i32,
    pub session: i32,
    pub tty_nr: i32,
    pub tpgid: i32,
    pub flags: u32,
    pub minflt: u64,
    pub cminflt: u64,
    pub majflt: u64,
    pub cmajflt: u64,
    pub utime: u64,
    pub stime: u64,
    pub cutime: i64,
    pub cstime: i64,
    pub priority: i64,
    pub nice: i64,
    pub num_threads: i64,
    pub itrealvalue: i64,
    pub starttime: u128,
    pub vsize: u64,
    pub rss: i64,
    pub rsslim: u64,
    pub startcode: u64,
    pub endcode: u64,
    pub startstack: u64,
    pub kstkesp: u64,
    pub kstkeip: u64,
    pub signal: u64,
    pub blocked: u64,
    pub sigignore: u64,
    pub sigcatch: u64,
    pub wchan: u64,
    pub nswap: u64,
    pub cnswap: u64,
    pub exit_signal: i32,
    pub processor: i32,
    pub rt_priority: u32,
    pub policy: u32,
    pub delayacct_blkio_ticks: u128,
    pub guest_time: u64,
    pub cguest_time: i64,
    pub start_data: u64,
    pub end_data: u64,
    pub start_brk: u64,
    pub arg_start: u64,
    pub arg_end: u64,
    pub env_start: u64,
    pub env_end: u64,
}

/// The mathematical value of a `Process`: the same fields with the
/// command name as a sequence of characters.
pub struct ProcessV {
    pub pid: i32,
    pub comm: Seq<char>,
    pub state: char,
    pub ppid: i32,
    pub pgrp: i32,
    pub session: i32,
    pub tty_nr: i32,
    pub tpgid: i32,
    pub flags: u32,
    pub minflt: u64,
    pub cminflt: u64,
    pub majflt: u64,
    pub cmajflt: u64,
    pub utime: u64,
    pub stime: u64,
    pub cutime: i64,
    pub cstime: i64,
    pub priority: i64,
    pub nice: i64,
    pub num_threads: i64,
    pub itrealvalue: i64,
    pub starttime: u128,
    pub vsize: u64,
    pub rss: i64,
    pub rsslim: u64,
    pub startcode: u64,
    pub endcode: u64,
    pub startstack: u64,
    pub kstkesp: u64,
    pub kstkeip: u64,
    pub signal: u64,
    pub blocked: u64,
    pub sigignore: u64,
    pub sigcatch: u64,
    pub wchan: u64,
    pub nswap: u64,
    pub cnswap: u64,
    pub exit_signal: i32,
    pub processor: i32,
    pub rt_priority: u32,
    pub policy: u32,
    pub delayacct_blkio_ticks: u128,
    pub guest_time: u64,
    pub cguest_time: i64,
    pub start_data: u64,
    pub end_data: u64,
    pub start_brk: u64,
    pub arg_start: u64,
    pub arg_end: u64,
    pub env_start: u64,
    pub env_end: u64,
}

impl View for Process {
    type V = ProcessV;

    open spec fn view(&self) -> ProcessV {
        ProcessV {
            pid: self.pid,
            comm: self.comm@,
            state: self.state,
            ppid: self.ppid,
            pgrp: self.pgrp,
            session: self.session,
            tty_nr: self.tty_nr,
            tpgid: self.tpgid,
            flags: self.flags,
            minflt: self.minflt,
            cminflt: self.cminflt,
            majflt: self.majflt,
            cmajflt: self.cmajflt,
            utime: self.utime,
            stime: self.stime,
            cutime: self.cutime,
            cstime: self.cstime,
            priority: self.priority,
            nice: self.nice,
            num_threads: self.num_threads,
            itrealvalue: self.itrealvalue,
            starttime: self.starttime,
            vsize: self.vsize,
            rss: self.rss,
            rsslim: self.rsslim,
            startcode: self.startcode,
            endcode: self.endcode,
            startstack: self.startstack,
            kstkesp: self.kstkesp,
            kstkeip: self.kstkeip,
            signal: self.signal,
            blocked: self.blocked,
            sigignore: self.sigignore,
            sigcatch: self.sigcatch,
            wchan: self.wchan,
            nswap: self.nswap,
            cnswap: self.cnswap,
            exit_signal: self.exit_signal,
            processor: self.processor,
            rt_priority: self.rt_priority,
            policy: self.policy,
            delayacct_blkio_ticks: self.delayacct_blkio_ticks,
            guest_time: self.guest_time,
            cguest_time: self.cguest_time,
            start_data: self.start_data,
            end_data: self.end_data,
            start_brk: self.start_brk,
            arg_start: self.arg_start,
            arg_end: self.arg_end,
            env_start: self.env_start,
            env_end: self.env_end,
        }
    }
}

/// The declared type of the field at 0-based position `k`.
pub open spec fn field_ty(k: int) -> FieldTy {
    if k == 1 { FieldTy::S }
    else if k == 2 { FieldTy::C }
    else if k == 0 || k == 3 || k == 4 || k == 5 || k == 6 || k == 7 || k == 37 || k == 38 { FieldTy::D }
    else if k == 8 || k == 39 || k == 40 { FieldTy::U }
    else if k == 15 || k == 16 || k == 17 || k == 18 || k == 19 || k == 20 || k == 23 || k == 43 { FieldTy::Ld }
    else if k == 21 || k == 41 { FieldTy::Llu }
    else { FieldTy::Lu }
}

fn field_ty_of(k: u32) -> (t: FieldTy)
    requires
        k < 51,
    ensures
        t == field_ty(k as int),
{
    if k == 1 { FieldTy::S }
    else if k == 2 { FieldTy::C }
    else if k == 0 || k == 3 || k == 4 || k == 5 || k == 6 || k == 7 || k == 37 || k == 38 { FieldTy::D }
    else if k == 8 || k == 39 || k == 40 { FieldTy::U }
    else if k == 15 || k == 16 || k == 17 || k == 18 || k == 19 || k == 20 || k == 23 || k == 43 { FieldTy::Ld }
    else if k == 21 || k == 41 { FieldTy::Llu }
    else { FieldTy::Lu }
}

/// The record that a fully convertible token sequence denotes.
pub open spec fn stat_value(toks: Seq<Seq<char>>) -> ProcessV {
    ProcessV {
        pid: int_token_val(toks[0]) as i32,
        comm: toks[1],
        state: toks[2][0],
        ppid: int_token_val(toks[3]) as i32,
        pgrp: int_token_val(toks[4]) as i32,
        session: int_token_val(toks[5]) as i32,
        tty_nr: int_token_val(toks[6]) as i32,
        tpgid: int_token_val(toks[7]) as i32,
        flags: uint_token_val(toks[8]) as u32,
        minflt: uint_token_val(toks[9]) as u64,
        cminflt: uint_token_val(toks[10]) as u64,
        majflt: uint_token_val(toks[11]) as u64,
        cmajflt: uint_token_val(toks[12]) as u64,
        utime: uint_token_val(toks[13]) as u64,
        stime: uint_token_val(toks[14]) as u64,
        cutime: int_token_val(toks[15]) as i64,
        cstime: int_token_val(toks[16]) as i64,
        priority: int_token_val(toks[17]) as i64,
        nice: int_token_val(toks[18]) as i64,
        num_threads: int_token_val(toks[19]) as i64,
        itrealvalue: int_token_val(toks[20]) as i64,
        starttime: uint_token_val(toks[21]) as u128,
        vsize: uint_token_val(toks[22]) as u64,
        rss: int_token_val(toks[23]) as i64,
        rsslim: uint_token_val(toks[24]) as u64,
        startcode: uint_token_val(toks[25]) as u64,
        endcode: uint_token_val(toks[26]) as u64,
        startstack: uint_token_val(toks[27]) as u64,
        kstkesp: uint_token_val(toks[28]) as u64,
        kstkeip: uint_token_val(toks[29]) as u64,
        signal: uint_token_val(toks[30]) as u64,
        blocked: uint_token_val(toks[31]) as u64,
        sigignore: uint_token_val(toks[32]) as u64,
        sigcatch: uint_token_val(toks[33]) as u64,
        wchan: uint_token_val(toks[34]) as u64,
        nswap: uint_token_val(toks[35]) as u64,
        cnswap: uint_token_val(toks[36]) as u64,
        exit_signal: int_token_val(toks[37]) as i32,
        processor: int_token_val(toks[38]) as i32,
        rt_priority: uint_token_val(toks[39]) as u32,
        policy: uint_token_val(toks[40]) as u32,
        delayacct_blkio_ticks: uint_token_val(toks[41]) as u128,
        guest_time: uint_token_val(toks[42]) as u64,
        cguest_time: int_token_val(toks[43]) as i64,
        start_data: uint_token_val(toks[44]) as u64,
        end_data: uint_token_val(toks[45]) as u64,
        start_brk: uint_token_val(toks[46]) as u64,
        arg_start: uint_token_val(toks[47]) as u64,
        arg_end: uint_token_val(toks[48]) as u64,
        env_start: uint_token_val(toks[49]) as u64,
        env_end: uint_token_val(toks[50]) as u64,
    }
}


/// Parses one status record: the line is split on single space characters,
/// 51 tokens are consumed in order, and either every field converts under
/// its declared type and the typed record comes back, or the first failure
/// comes back with its conversion kind and 1-based field position.
/// Trailing tokens beyond the 51st are ignored.  A command name containing
/// a space desynchronizes the field alignment; the split is deliberately
/// not aware of that, as the record format itself gives no escape for it.
pub fn parse(line: &str) -> (r: Result<Process, ProcessParseError>)
    ensures
        ({
            let toks = split_tokens(line@);
            match r {
                Ok(p) => stat_ok(toks) && p@ == stat_value(toks),
                Err(e) => {
                    &&& !stat_ok(toks)
                    &&& 1 <= e.n <= 51
                    &&& forall|k: int| 0 <= k < e.n - 1 ==> field_ok(toks, k)
                    &&& !field_ok(toks, e.n - 1)
                    &&& e.kind == field_err_kind(toks, e.n - 1)
                },
            }
        }),
{
    let ghost toks = split_tokens(line@);
    let mut cur = Cursor::new(line);
    let mut vals: Vec<FieldVal> = Vec::new();
    let mut k: u32 = 0;
    while k < 51
        invariant
            cur.wf(),
            cur.toks() == toks,
            toks == split_tokens(line@),
            cur.taken() == k as int,
            k <= 51,
            vals@.len() == k as nat,
            forall|j: int| 0 <= j < k ==> field_ok(toks, j) && val_ok(vals@[j], toks[j], field_ty(j)),
        decreases 51 - k,
    {
        let ty = field_ty_of(k);
        match cur.next() {
            None => {
                proof {
                    if stat_ok(toks) {
                        assert(field_ok(toks, k as int));
                    }
                }
                return Err(ProcessParseError { kind: ProcessParseErrorKind::UnexpectedEnd, n: k + 1 });
            },
            Some(t) => {
                match convert(t, ty) {
                    Ok(v) => vals.push(v),
                    Err(kind) => {
                        proof {
                            if stat_ok(toks) {
                                assert(field_ok(toks, k as int));
                            }
                        }
                        return Err(ProcessParseError { kind, n: k + 1 });
                    },
                }
            },
        }
        k += 1;
    }
    proof {
        assert(field_ok(toks, 0) && val_ok(vals@[0], toks[0], field_ty(0)));
        assert(field_ok(toks, 1) && val_ok(vals@[1], toks[1], field_ty(1)));
        assert(field_ok(toks, 2) && val_ok(vals@[2], toks[2], field_ty(2)));
        assert(field_ok(toks, 3) && val_ok(vals@[3], toks[3], field_ty(3)));
        assert(field_ok(toks, 4) && val_ok(vals@[4], toks[4], field_ty(4)));
        assert(field_ok(toks, 5) && val_ok(vals@[5], toks[5], field_ty(5)));
        assert(field_ok(toks, 6) && val_ok(vals@[6], toks[6], field_ty(6)));
        assert(field_ok(toks, 7) && val_ok(vals@[7], toks[7], field_ty(7)));
        assert(field_ok(toks, 8) && val_ok(vals@[8], toks[8], field_ty(8)));
        assert(field_ok(toks, 9) && val_ok(vals@[9], toks[9], field_ty(9)));
        assert(field_ok(toks, 10) && val_ok(vals@[10], toks[10], field_ty(10)));
        assert(field_ok(toks, 11) && val_ok(vals@[11], toks[11], field_ty(11)));
        assert(field_ok(toks, 12) && val_ok(vals@[12], toks[12], field_ty(12)));
        assert(field_ok(toks, 13) && val_ok(vals@[13], toks[13], field_ty(13)));
        assert(field_ok(toks, 14) && val_ok(vals@[14], toks[14], field_ty(14)));
        assert(field_ok(toks, 15) && val_ok(vals@[15], toks[15], field_ty(15)));
        assert(field_ok(toks, 16) && val_ok(vals@[16], toks[16], field_ty(16)));
        assert(field_ok(toks, 17) && val_ok(vals@[17], toks[17], field_ty(17)));
        assert(field_ok(toks, 18) && val_ok(vals@[18], toks[18], field_ty(18)));
        assert(field_ok(toks, 19) && val_ok(vals@[19], toks[19], field_ty(19)));
        assert(field_ok(toks, 20) && val_ok(vals@[20], toks[20], field_ty(20)));
        assert(field_ok(toks, 21) && val_ok(vals@[21], toks[21], field_ty(21)));
        assert(field_ok(toks, 22) && val_ok(vals@[22], toks[22], field_ty(22)));
        assert(field_ok(toks, 23) && val_ok(vals@[23], toks[23], field_ty(23)));
        assert(field_ok(toks, 24) && val_ok(vals@[24], toks[24], field_ty(24)));
        assert(field_ok(toks, 25) && val_ok(vals@[25], toks[25], field_ty(25)));
        assert(field_ok(toks, 26) && val_ok(vals@[26], toks[26], field_ty(26)));
        assert(field_ok(toks, 27) && val_ok(vals@[27], toks[27], field_ty(27)));
        assert(field_ok(toks, 28) && val_ok(vals@[28], toks[28], field_ty(28)));
        assert(field_ok(toks, 29) && val_ok(vals@[29], toks[29], field_ty(29)));
        assert(field_ok(toks, 30) && val_ok(vals@[30], toks[30], field_ty(30)));
        assert(field_ok(toks, 31) && val_ok(vals@[31], toks[31], field_ty(31)));
        assert(field_ok(toks, 32) && val_ok(vals@[32], toks[32], field_ty(32)));
        assert(field_ok(toks, 33) && val_ok(vals@[33], toks[33], field_ty(33)));
        assert(field_ok(toks, 34) && val_ok(vals@[34], toks[34], field_ty(34)));
        assert(field_ok(toks, 35) && val_ok(vals@[35], toks[35], field_ty(35)));
        assert(field_ok(toks, 36) && val_ok(vals@[36], toks[36], field_ty(36)));
        assert(field_ok(toks, 37) && val_ok(vals@[37], toks[37], field_ty(37)));
        assert(field_ok(toks, 38) && val_ok(vals@[38], toks[38], field_ty(38)));
        assert(field_ok(toks, 39) && val_ok(vals@[39], toks[39], field_ty(39)));
        assert(field_ok(toks, 40) && val_ok(vals@[40], toks[40], field_ty(40)));
        assert(field_ok(toks, 41) && val_ok(vals@[41], toks[41], field_ty(41)));
        assert(field_ok(toks, 42) && val_ok(vals@[42], toks[42], field_ty(42)));
        assert(field_ok(toks, 43) && val_ok(vals@[43], toks[43], field_ty(43)));
        assert(field_ok(toks, 44) && val_ok(vals@[44], toks[44], field_ty(44)));
        assert(field_ok(toks, 45) && val_ok(vals@[45], toks[45], field_ty(45)));
        assert(field_ok(toks, 46) && val_ok(vals@[46], toks[46], field_ty(46)));
        assert(field_ok(toks, 47) && val_ok(vals@[47], toks[47], field_ty(47)));
        assert(field_ok(toks, 48) && val_ok(vals@[48], toks[48], field_ty(48)));
        assert(field_ok(toks, 49) && val_ok(vals@[49], toks[49], field_ty(49)));
        assert(field_ok(toks, 50) && val_ok(vals@[50], toks[50], field_ty(50)));
    }
    let p = Process {
        pid: get_d(&vals, 0),
        comm: get_s(&vals, 1),
        state: get_c(&vals, 2),
        ppid: get_d(&vals, 3),
        pgrp: get_d(&vals, 4),
        session: get_d(&vals, 5),
        tty_nr: get_d(&vals, 6),
        tpgid: get_d(&vals, 7),
        flags: get_u(&vals, 8),
        minflt: get_lu(&vals, 9),
        cminflt: get_lu(&vals, 10),
        majflt: get_lu(&vals, 11),
        cmajflt: get_lu(&vals, 12),
        utime: get_lu(&vals, 13),
        stime: get_lu(&vals, 14),
        cutime: get_ld(&vals, 15),
        cstime: get_ld(&vals, 16),
        priority: get_ld(&vals, 17),
        nice: get_ld(&vals, 18),
        num_threads: get_ld(&vals, 19),
        itrealvalue: get_ld(&vals, 20),
        starttime: get_llu(&vals, 21),
        vsize: get_lu(&vals, 22),
        rss: get_ld(&vals, 23),
        rsslim: get_lu(&vals, 24),
        startcode: get_lu(&vals, 25),
        endcode: get_lu(&vals, 26),
        startstack: get_lu(&vals, 27),
        kstkesp: get_lu(&vals, 28),
        kstkeip: get_lu(&vals, 29),
        signal: get_lu(&vals, 30),
        blocked: get_lu(&vals, 31),
        sigignore: get_lu(&vals, 32),
        sigcatch: get_lu(&vals, 33),
        wchan: get_lu(&vals, 34),
        nswap: get_lu(&vals, 35),
        cnswap: get_lu(&vals, 36),
        exit_signal: get_d(&vals, 37),
        processor: get_d(&vals, 38),
        rt_priority: get_u(&vals, 39),
        policy: get_u(&vals, 40),
        delayacct_blkio_ticks: get_llu(&vals, 41),
        guest_time: get_lu(&vals, 42),
        cguest_time: get_ld(&vals, 43),
        start_data: get_lu(&vals, 44),
        end_data: get_lu(&vals, 45),
        start_brk: get_lu(&vals, 46),
        arg_start: get_lu(&vals, 47),
        arg_end: get_lu(&vals, 48),
        env_start: get_lu(&vals, 49),
        env_end: get_lu(&vals, 50),
    };
    proof {
        assert(p@ =~= stat_value(toks));
    }
    Ok(p)
}

} // verus!
