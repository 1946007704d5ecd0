//! Tests of the spawn machine, the sentinel mapping and the listing
//! composition with its zombie reaping.

use procctl::control::{cvt, cvt_nz, signal_outcome, IsMinusOne};
use procctl::errors::{OsError, SpawnError};
use procctl::listing::{build_listing, should_reap};
use procctl::process::parse;
use procctl::spawn::{to_c_spawn_args, SpawnArgs, SpawnEngine};

fn stat_line(pid: i32, comm: &str, state: char, ppid: i32) -> String {
    let mut toks: Vec<String> = Vec::new();
    toks.push(pid.to_string());
    toks.push(comm.to_string());
    toks.push(state.to_string());
    toks.push(ppid.to_string());
    let mut k = 4;
    while k < 51 {
        toks.push("0".to_string());
        k += 1;
    }
    toks.join(" ")
}

#[test]
fn successful_spawn_run_returns_pid_and_releases_everything() {
    let mut e = SpawnEngine::new();
    e.attrs_init_returned(0);
    e.file_actions_init_returned(0);
    e.spawn_returned(0, 42);
    let (destroy_attrs, destroy_file_actions, free_argv) = e.cleanup();
    assert!(destroy_attrs);
    assert!(destroy_file_actions);
    assert!(free_argv);
    let pid = e.outcome().unwrap();
    assert!(pid > 0);
    assert_eq!(pid, 42);
}

#[test]
fn failed_creation_still_releases_every_resource() {
    let mut e = SpawnEngine::new();
    e.attrs_init_returned(0);
    e.file_actions_init_returned(0);
    e.spawn_returned(2, 0);
    let (destroy_attrs, destroy_file_actions, free_argv) = e.cleanup();
    assert!(destroy_attrs);
    assert!(destroy_file_actions);
    assert!(free_argv);
    assert_eq!(
        e.outcome(),
        Err(SpawnError::Creation(OsError { code: 2 }))
    );
}

#[test]
fn failed_attributes_init_is_a_resource_error_with_nothing_acquired() {
    let mut e = SpawnEngine::new();
    e.attrs_init_returned(7);
    let (destroy_attrs, destroy_file_actions, free_argv) = e.cleanup();
    assert!(!destroy_attrs);
    assert!(!destroy_file_actions);
    assert!(free_argv);
    assert_eq!(
        e.outcome(),
        Err(SpawnError::Resource(OsError { code: 7 }))
    );
}

#[test]
fn failed_file_actions_init_releases_the_acquired_attributes() {
    let mut e = SpawnEngine::new();
    e.attrs_init_returned(0);
    e.file_actions_init_returned(12);
    let (destroy_attrs, destroy_file_actions, free_argv) = e.cleanup();
    assert!(destroy_attrs);
    assert!(!destroy_file_actions);
    assert!(free_argv);
    assert_eq!(
        e.outcome(),
        Err(SpawnError::Resource(OsError { code: 12 }))
    );
}

#[test]
fn spawn_args_with_interior_nul_are_rejected() {
    let bad = SpawnArgs { program: "de\0no".to_string(), args: Vec::new() };
    assert!(to_c_spawn_args(&bad).is_none());
    let bad_arg = SpawnArgs {
        program: "deno".to_string(),
        args: vec!["-A".to_string(), "x\0y".to_string()],
    };
    assert!(to_c_spawn_args(&bad_arg).is_none());
}

#[test]
fn spawn_args_become_null_terminated_buffers() {
    let a = SpawnArgs {
        program: "deno".to_string(),
        args: vec!["run".to_string(), "app.ts".to_string()],
    };
    let c = to_c_spawn_args(&a).unwrap();
    assert_eq!(c.program, b"deno\0".to_vec());
    assert_eq!(c.args, vec![b"run\0".to_vec(), b"app.ts\0".to_vec()]);
}

#[test]
fn sentinel_mapping_preserves_the_error_code_verbatim() {
    assert_eq!(signal_outcome(-1, 1), Err(OsError { code: 1 }));
    assert_eq!(signal_outcome(-1, 3), Err(OsError { code: 3 }));
    assert_eq!(signal_outcome(0, 1), Ok(()));
    assert_eq!(cvt_nz(0), Ok(()));
    assert_eq!(cvt_nz(13), Err(OsError { code: 13 }));
    assert_eq!(cvt(5i32), Ok(5));
    assert_eq!(cvt(0i64), Ok(0));
    assert!(cvt(-1i32).is_err());
    assert!((-1i32).is_minus_one());
    assert!(!(7i32).is_minus_one());
}

#[test]
fn listing_excludes_zombie_children_and_reaps_them_once() {
    let my_pid = 500;
    let stats = vec![
        stat_line(100, "(init)", 'S', 1),
        stat_line(321, "(worker)", 'Z', my_pid),
        stat_line(200, "(idle)", 'R', 1),
    ];
    let (listing, reaps) = build_listing(&stats, my_pid);
    assert_eq!(reaps, vec![321]);
    assert_eq!(listing.len(), 2);
    assert_eq!(listing[0].pid, 100);
    assert_eq!(listing[1].pid, 200);

    let again: Vec<String> = vec![
        stat_line(100, "(init)", 'S', 1),
        stat_line(200, "(idle)", 'R', 1),
    ];
    let (second, second_reaps) = build_listing(&again, my_pid);
    assert_eq!(second.len(), 2);
    assert!(second_reaps.is_empty());
}

#[test]
fn listing_keeps_foreign_zombies_and_own_live_children() {
    let my_pid = 500;
    let stats = vec![
        stat_line(900, "(stray)", 'Z', 1),
        stat_line(901, "(child)", 'S', my_pid),
    ];
    let (listing, reaps) = build_listing(&stats, my_pid);
    assert!(reaps.is_empty());
    assert_eq!(listing.len(), 2);
}

#[test]
fn listing_silently_drops_records_that_do_not_parse() {
    let stats = vec![
        "garbage".to_string(),
        stat_line(7, "(ok)", 'S', 1),
    ];
    let (listing, reaps) = build_listing(&stats, 500);
    assert_eq!(listing.len(), 1);
    assert_eq!(listing[0].pid, 7);
    assert!(reaps.is_empty());
}

#[test]
fn spawned_program_appears_in_listing_with_its_comm() {
    let my_pid = 500;
    let spawned_pid = 4242;
    let stats = vec![stat_line(spawned_pid, "(deno)", 'R', my_pid)];
    let (listing, _) = build_listing(&stats, my_pid);
    assert_eq!(listing.len(), 1);
    assert_eq!(listing[0].pid, spawned_pid);
    assert_eq!(listing[0].comm, "(deno)");
}

#[test]
fn killed_child_turns_zombie_and_leaves_the_listing() {
    let my_pid = 500;
    let victim = 4242;
    let before = vec![stat_line(victim, "(deno)", 'R', my_pid)];
    let (listing, _) = build_listing(&before, my_pid);
    assert_eq!(listing.len(), 1);

    let after_kill = vec![stat_line(victim, "(deno)", 'Z', my_pid)];
    let (listing, reaps) = build_listing(&after_kill, my_pid);
    assert!(listing.is_empty());
    assert_eq!(reaps, vec![victim]);
}

#[test]
fn should_reap_needs_both_parenthood_and_zombie_state() {
    let z = parse(&stat_line(9, "(a)", 'Z', 500)).unwrap();
    assert!(should_reap(&z, 500));
    assert!(!should_reap(&z, 501));
    let live = parse(&stat_line(9, "(a)", 'R', 500)).unwrap();
    assert!(!should_reap(&live, 500));
}
