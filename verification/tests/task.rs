use starry::errno::SysError;
use starry::task::{
    add_thread_plan, sys_arch_prctl, clone_result, clone_stack, do_exit_plan, exe_name, execve_thread_check,
    select_children, split_exe_path, sys_exit, sys_exit_group, sys_set_tid_address, wait4_step, waitpid_step,
    ArchPrctlCode, ChildInfo, ExitRequest, TableInserts, ThreadData, WaitPid, WaitStatus, WaitStep, WNOHANG, WNOWAIT,
};

#[test]
fn thread_data_clear_child_tid() {
    let mut d = ThreadData::new();
    assert_eq!(d.clear_child_tid(), 0);
    d.set_clear_child_tid(0x1234);
    assert_eq!(d.clear_child_tid(), 0x1234);
    assert_eq!(sys_set_tid_address(&mut d, 0x5678, 42), 42);
    assert_eq!(d.clear_child_tid(), 0x5678);
}

#[test]
fn exit_codes_go_in_the_second_byte() {
    assert_eq!(sys_exit(3), ExitRequest { exit_code: 0x300, group_exit: false });
    assert_eq!(sys_exit_group(1), ExitRequest { exit_code: 0x100, group_exit: true });
    assert_eq!(sys_exit(-1).exit_code, -256);
    let plan = do_exit_plan(sys_exit_group(0), true, true, false);
    assert!(plan.clear_tid && plan.exit_process && plan.exit_group);
    let plan = do_exit_plan(sys_exit_group(0), false, false, true);
    assert!(!plan.clear_tid && !plan.exit_process && !plan.exit_group);
    assert!(!do_exit_plan(sys_exit(0), true, true, false).exit_group);
}

#[test]
fn arch_prctl_codes() {
    assert_eq!(sys_arch_prctl(0x1002), Ok(ArchPrctlCode::SetFs));
    assert_eq!(sys_arch_prctl(0x1003), Ok(ArchPrctlCode::GetFs));
    assert_eq!(sys_arch_prctl(0x1011), Ok(ArchPrctlCode::GetCpuid));
    assert_eq!(sys_arch_prctl(0x1012), Err(SysError::ENODEV));
    assert_eq!(sys_arch_prctl(0x1005), Err(SysError::EINVAL));
    assert_eq!(ArchPrctlCode::try_from_code(0x1001), Ok(ArchPrctlCode::SetGs));
    assert_eq!(ArchPrctlCode::GetGs.code(), 0x1004);
}

fn child(pid: i32, pgid: i32, zombie: bool) -> ChildInfo {
    ChildInfo { pid, pgid, zombie, exit_code: pid * 10 }
}

#[test]
fn wait_targets() {
    assert_eq!(WaitPid::from_pid(-1, 7), WaitPid::Any);
    assert_eq!(WaitPid::from_pid(0, 7), WaitPid::Pgid(7));
    assert_eq!(WaitPid::from_pid(5, 7), WaitPid::Pid(5));
    assert_eq!(WaitPid::from_pid(-9, 7), WaitPid::Pgid(9));
    assert!(WaitPid::Pgid(3).apply(&child(8, 3, false)));
    assert!(!WaitPid::Pid(3).apply(&child(8, 3, false)));
}

#[test]
fn waitpid_selects_and_reaps() {
    let kids = vec![child(2, 1, false), child(3, 9, true), child(4, 9, true)];
    assert_eq!(select_children(WaitPid::Pid(5), &kids), Err(SysError::ECHILD));
    let sel = select_children(WaitPid::Pgid(9), &kids).unwrap();
    assert_eq!(sel, vec![child(3, 9, true), child(4, 9, true)]);
    assert_eq!(waitpid_step(&sel, 0), WaitStep::Reap { index: 0, pid: 3, exit_code: 30, free: true });
    assert_eq!(waitpid_step(&sel, WNOWAIT), WaitStep::Reap { index: 0, pid: 3, exit_code: 30, free: false });
    let running = vec![child(2, 1, false)];
    assert_eq!(waitpid_step(&running, WNOHANG), WaitStep::NoneReady);
    assert_eq!(waitpid_step(&running, 0), WaitStep::Block);
}

#[test]
fn wait4_decisions() {
    assert_eq!(wait4_step(0, Ok(7)), Some(Ok(7)));
    assert_eq!(wait4_step(0, Err(WaitStatus::NotExist)), Some(Err(SysError::ECHILD)));
    assert_eq!(wait4_step(WNOHANG, Err(WaitStatus::Running)), Some(Ok(0)));
    assert_eq!(wait4_step(0, Err(WaitStatus::Running)), None);
}

#[test]
fn clone_decisions() {
    assert_eq!(clone_stack(0), None);
    assert_eq!(clone_stack(0x8000), Some(0x8000));
    assert_eq!(clone_result(Some(12)), Ok(12));
    assert_eq!(clone_result(None), Err(SysError::ENOMEM));
}

#[test]
fn executable_names() {
    assert_eq!(exe_name(b"/bin/busybox"), b"busybox".to_vec());
    assert_eq!(exe_name(b"busybox"), b"busybox".to_vec());
    assert_eq!(exe_name(b"/dir/"), b"".to_vec());
    assert_eq!(split_exe_path(b"/musl/basic/brk"), (b"/musl/basic".to_vec(), b"brk".to_vec()));
    assert_eq!(split_exe_path(b"brk"), (b"".to_vec(), b"brk".to_vec()));
    assert_eq!(execve_thread_check(1), Ok(()));
    assert_eq!(execve_thread_check(2), Err(SysError::EAGAIN));
}

#[test]
fn thread_table_inserts() {
    assert_eq!(add_thread_plan(false, false, false), TableInserts { process: true, group: true, session: true });
    assert_eq!(add_thread_plan(true, false, false), TableInserts { process: false, group: false, session: false });
    assert_eq!(add_thread_plan(false, true, false), TableInserts { process: true, group: false, session: false });
    assert_eq!(add_thread_plan(false, false, true), TableInserts { process: true, group: true, session: false });
}
