//! Tests of the status-record parser and of the interchange codec.

use procctl::codec::{decode_process, encode_process};
use procctl::errors::{ProcessParseError, ProcessParseErrorKind};
use procctl::process::parse;

fn sample_line() -> String {
    "1234 (bash) S 77 104 105 106 107 1008 1009 1010 1011 1012 1013 1014 -12 116 117 -5 119 120 340282366920938463463374607431768211455 1022 123 1024 1025 1026 1027 1028 1029 1030 1031 1032 1033 1034 1035 1036 137 138 1039 1040 1041 1042 143 1044 1045 1046 1047 1048 1049 1050".to_string()
}

#[test]
fn parse_well_formed_record_yields_every_field() {
    let p = parse(&sample_line()).unwrap();
    assert_eq!(p.pid, 1234);
    assert_eq!(p.comm, "(bash)".to_string());
    assert_eq!(p.state, 'S');
    assert_eq!(p.ppid, 77);
    assert_eq!(p.pgrp, 104);
    assert_eq!(p.session, 105);
    assert_eq!(p.tty_nr, 106);
    assert_eq!(p.tpgid, 107);
    assert_eq!(p.flags, 1008);
    assert_eq!(p.minflt, 1009);
    assert_eq!(p.cminflt, 1010);
    assert_eq!(p.majflt, 1011);
    assert_eq!(p.cmajflt, 1012);
    assert_eq!(p.utime, 1013);
    assert_eq!(p.stime, 1014);
    assert_eq!(p.cutime, -12);
    assert_eq!(p.cstime, 116);
    assert_eq!(p.priority, 117);
    assert_eq!(p.nice, -5);
    assert_eq!(p.num_threads, 119);
    assert_eq!(p.itrealvalue, 120);
    assert_eq!(p.starttime, 340282366920938463463374607431768211455u128);
    assert_eq!(p.vsize, 1022);
    assert_eq!(p.rss, 123);
    assert_eq!(p.rsslim, 1024);
    assert_eq!(p.startcode, 1025);
    assert_eq!(p.endcode, 1026);
    assert_eq!(p.startstack, 1027);
    assert_eq!(p.kstkesp, 1028);
    assert_eq!(p.kstkeip, 1029);
    assert_eq!(p.signal, 1030);
    assert_eq!(p.blocked, 1031);
    assert_eq!(p.sigignore, 1032);
    assert_eq!(p.sigcatch, 1033);
    assert_eq!(p.wchan, 1034);
    assert_eq!(p.nswap, 1035);
    assert_eq!(p.cnswap, 1036);
    assert_eq!(p.exit_signal, 137);
    assert_eq!(p.processor, 138);
    assert_eq!(p.rt_priority, 1039);
    assert_eq!(p.policy, 1040);
    assert_eq!(p.delayacct_blkio_ticks, 1041u128);
    assert_eq!(p.guest_time, 1042);
    assert_eq!(p.cguest_time, 143);
    assert_eq!(p.start_data, 1044);
    assert_eq!(p.end_data, 1045);
    assert_eq!(p.start_brk, 1046);
    assert_eq!(p.arg_start, 1047);
    assert_eq!(p.arg_end, 1048);
    assert_eq!(p.env_start, 1049);
    assert_eq!(p.env_end, 1050);
}

#[test]
fn parse_short_record_reports_unexpected_end_after_last_token() {
    let e = parse("10 (a) Z").unwrap_err();
    assert_eq!(
        e,
        ProcessParseError { kind: ProcessParseErrorKind::UnexpectedEnd, n: 4 }
    );
}

#[test]
fn parse_fifty_tokens_reports_unexpected_end_at_fifty_one() {
    let mut toks: Vec<String> = Vec::new();
    let mut k = 0;
    while k < 50 {
        toks.push(if k == 1 {
            "(x)".to_string()
        } else if k == 2 {
            "R".to_string()
        } else {
            "7".to_string()
        });
        k += 1;
    }
    let e = parse(&toks.join(" ")).unwrap_err();
    assert_eq!(
        e,
        ProcessParseError { kind: ProcessParseErrorKind::UnexpectedEnd, n: 51 }
    );
}

#[test]
fn parse_empty_input_fails_on_first_field() {
    let e = parse("").unwrap_err();
    assert_eq!(e, ProcessParseError { kind: ProcessParseErrorKind::Int, n: 1 });
}

#[test]
fn parse_letter_in_numeric_field_reports_int_error_at_position() {
    let mut line = sample_line();
    line = line.replacen("77", "abc", 1);
    let e = parse(&line).unwrap_err();
    assert_eq!(e, ProcessParseError { kind: ProcessParseErrorKind::Int, n: 4 });
}

#[test]
fn parse_long_state_token_reports_char_error_at_position_three() {
    let mut line = sample_line();
    line = line.replacen(" S ", " SS ", 1);
    let e = parse(&line).unwrap_err();
    assert_eq!(e, ProcessParseError { kind: ProcessParseErrorKind::Char, n: 3 });
}

#[test]
fn parse_overflowing_pid_reports_int_error_at_position_one() {
    let mut line = sample_line();
    line = line.replacen("1234", "2147483648", 1);
    let e = parse(&line).unwrap_err();
    assert_eq!(e, ProcessParseError { kind: ProcessParseErrorKind::Int, n: 1 });
}

#[test]
fn parse_accepts_extreme_pid_values() {
    let mut line = sample_line();
    line = line.replacen("1234", "-2147483648", 1);
    let p = parse(&line).unwrap();
    assert_eq!(p.pid, i32::MIN);
}

#[test]
fn parse_double_space_shifts_fields_by_an_empty_token() {
    let line = sample_line().replacen("1234 ", "1234  ", 1);
    let p_err = parse(&line).unwrap_err();
    assert_eq!(
        p_err,
        ProcessParseError { kind: ProcessParseErrorKind::Char, n: 3 }
    );
}

#[test]
fn interchange_round_trip_preserves_every_field() {
    let p = parse(&sample_line()).unwrap();
    let text = encode_process(&p);
    let q = decode_process(&text).unwrap();
    assert_eq!(q.pid, p.pid);
    assert_eq!(q.comm, p.comm);
    assert_eq!(q.state, p.state);
    assert_eq!(q.ppid, p.ppid);
    assert_eq!(q.pgrp, p.pgrp);
    assert_eq!(q.session, p.session);
    assert_eq!(q.tty_nr, p.tty_nr);
    assert_eq!(q.tpgid, p.tpgid);
    assert_eq!(q.flags, p.flags);
    assert_eq!(q.minflt, p.minflt);
    assert_eq!(q.cminflt, p.cminflt);
    assert_eq!(q.majflt, p.majflt);
    assert_eq!(q.cmajflt, p.cmajflt);
    assert_eq!(q.utime, p.utime);
    assert_eq!(q.stime, p.stime);
    assert_eq!(q.cutime, p.cutime);
    assert_eq!(q.cstime, p.cstime);
    assert_eq!(q.priority, p.priority);
    assert_eq!(q.nice, p.nice);
    assert_eq!(q.num_threads, p.num_threads);
    assert_eq!(q.itrealvalue, p.itrealvalue);
    assert_eq!(q.starttime, p.starttime);
    assert_eq!(q.vsize, p.vsize);
    assert_eq!(q.rss, p.rss);
    assert_eq!(q.rsslim, p.rsslim);
    assert_eq!(q.startcode, p.startcode);
    assert_eq!(q.endcode, p.endcode);
    assert_eq!(q.startstack, p.startstack);
    assert_eq!(q.kstkesp, p.kstkesp);
    assert_eq!(q.kstkeip, p.kstkeip);
    assert_eq!(q.signal, p.signal);
    assert_eq!(q.blocked, p.blocked);
    assert_eq!(q.sigignore, p.sigignore);
    assert_eq!(q.sigcatch, p.sigcatch);
    assert_eq!(q.wchan, p.wchan);
    assert_eq!(q.nswap, p.nswap);
    assert_eq!(q.cnswap, p.cnswap);
    assert_eq!(q.exit_signal, p.exit_signal);
    assert_eq!(q.processor, p.processor);
    assert_eq!(q.rt_priority, p.rt_priority);
    assert_eq!(q.policy, p.policy);
    assert_eq!(q.delayacct_blkio_ticks, p.delayacct_blkio_ticks);
    assert_eq!(q.guest_time, p.guest_time);
    assert_eq!(q.cguest_time, p.cguest_time);
    assert_eq!(q.start_data, p.start_data);
    assert_eq!(q.end_data, p.end_data);
    assert_eq!(q.start_brk, p.start_brk);
    assert_eq!(q.arg_start, p.arg_start);
    assert_eq!(q.arg_end, p.arg_end);
    assert_eq!(q.env_start, p.env_start);
    assert_eq!(q.env_end, p.env_end);
}

#[test]
fn interchange_rendering_preserves_field_names() {
    let p = parse(&sample_line()).unwrap();
    let text = encode_process(&p);
    assert!(text.starts_with("pid="));
    assert!(text.contains("\ndelayacct_blkio_ticks="));
    assert!(text.contains("\ncomm="));
    assert!(text.contains("(bash)"));
}

#[test]
fn decode_rejects_text_that_is_no_rendering() {
    assert!(decode_process("pid=12").is_none());
    assert!(decode_process("").is_none());
    let p = parse(&sample_line()).unwrap();
    let mut text = encode_process(&p);
    text.push('x');
    assert!(decode_process(&text).is_none());
}
