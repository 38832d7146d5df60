use relibc_clone::context::{bounded_prefix, context_id_from_path, parse_unsigned_range, pid_from_path};
use relibc_clone::error::CloneError;
use relibc_clone::grant::{
    grant_is_external, grant_key, parse_grants, remap_request, remapped_grant, select_external,
    Grant, MapRequest,
};
use relibc_clone::orchestrate::{Mode, Orchestration, Step};
use relibc_clone::outcome::{error_number, pack_result, unpack_result};
use relibc_clone::rawfile::RawFile;
use relibc_clone::transfer::{AddressSpaceTransfer, TransferAction};

fn run(mode: Mode, fail_at: Option<(Step, CloneError)>, pid: usize) -> (Vec<Step>, Result<usize, CloneError>) {
    let mut o = Orchestration::new(mode);
    let mut seen = Vec::new();
    while let Some(step) = o.current() {
        seen.push(step);
        let outcome = match fail_at {
            Some((s, e)) if s == step => Err(e),
            _ => Ok(if step == Step::CreateContext { pid } else { 7 }),
        };
        o.complete(outcome);
    }
    (seen, o.result().unwrap())
}

#[test]
fn pid_is_read_between_colon_and_slash() {
    assert_eq!(pid_from_path(b"thisproc:42/open_via_dup"), Ok(42));
    assert_eq!(pid_from_path(b"proc:+7/x"), Ok(7));
    assert_eq!(pid_from_path(b"a:0/"), Ok(0));
}

#[test]
fn pid_path_without_delimiters_is_invalid() {
    assert_eq!(pid_from_path(b"thisproc42/open"), Err(CloneError::Invalid));
    assert_eq!(pid_from_path(b"thisproc:42"), Err(CloneError::Invalid));
    assert_eq!(pid_from_path(b"/a:42"), Err(CloneError::Invalid));
    assert_eq!(pid_from_path(b""), Err(CloneError::Invalid));
}

#[test]
fn pid_must_be_decimal_and_fit() {
    assert_eq!(pid_from_path(b"p:/x"), Err(CloneError::Invalid));
    assert_eq!(pid_from_path(b"p:+/x"), Err(CloneError::Invalid));
    assert_eq!(pid_from_path(b"p:-3/x"), Err(CloneError::Invalid));
    assert_eq!(pid_from_path(b"p:4a/x"), Err(CloneError::Invalid));
    assert_eq!(pid_from_path(b"p:99999999999999999999999/x"), Err(CloneError::Invalid));
    let max = format!("p:{}/x", usize::MAX);
    assert_eq!(pid_from_path(max.as_bytes()), Ok(usize::MAX));
}

#[test]
fn parse_range_reads_only_the_range() {
    assert_eq!(parse_unsigned_range(b"x123y", 1, 4), Some(123));
    assert_eq!(parse_unsigned_range(b"x123y", 1, 1), None);
}

#[test]
fn context_id_from_read_back_path() {
    let mut buf = [0u8; 64];
    let path = b"thisproc:1234/open_via_dup";
    buf[..path.len()].copy_from_slice(path);
    assert_eq!(context_id_from_path(&buf, path.len()), Ok(1234));
    assert_eq!(context_id_from_path(&buf, 65), Err(CloneError::NameTooLong));
    assert_eq!(context_id_from_path(&buf, 12), Err(CloneError::Invalid));
}

#[test]
fn cwd_attribute_is_copied_byte_for_byte() {
    let mut buf = [0u8; 256];
    let cwd = b"/home/user";
    buf[..cwd.len()].copy_from_slice(cwd);
    assert_eq!(bounded_prefix(&buf, 10), Ok(b"/home/user".to_vec()));
}

#[test]
fn attribute_bounds() {
    let buf = [b'a'; 256];
    assert_eq!(bounded_prefix(&buf, 256), Ok(vec![b'a'; 256]));
    assert_eq!(bounded_prefix(&buf, 0), Ok(Vec::new()));
    assert_eq!(bounded_prefix(&buf, 257), Err(CloneError::NameTooLong));
}

#[test]
fn grants_are_read_four_words_at_a_time() {
    let words = [1usize, 2, 3, 4, 5, 6, 7, 8, 9];
    let grants = parse_grants(&words);
    assert_eq!(
        grants,
        vec![
            Grant { address: 1, size: 2, flags: 3, offset: 4 },
            Grant { address: 5, size: 6, flags: 7, offset: 8 },
        ]
    );
    assert!(parse_grants(&[]).is_empty());
}

#[test]
fn only_external_grants_are_remapped() {
    let words = [0x4000_0000usize, 4096, 0x8000_0001, 0, 0x5000_0000, 8192, 0x0000_0003, 0];
    let grants = parse_grants(&words);
    let external = select_external(&grants);
    assert_eq!(external, vec![Grant { address: 0x4000_0000, size: 4096, flags: 0x8000_0001, offset: 0 }]);
    assert!(grant_is_external(&grants[0]));
    assert!(!grant_is_external(&grants[1]));
    assert_eq!(grant_key(external[0].address), b"grant-40000000".to_vec());
    assert_eq!(remap_request(&external[0]), MapRequest { size: 4096, flags: 1, offset: 0 });
    assert_eq!(
        remapped_grant(&external[0], 0x7000_0000),
        Grant { address: 0x4000_0000, size: 4096, flags: 0x8000_0001, offset: 0x7000_0000 }
    );
}

#[test]
fn grant_key_is_lower_case_hex() {
    assert_eq!(grant_key(0), b"grant-0".to_vec());
    assert_eq!(grant_key(0xdead_beef), b"grant-deadbeef".to_vec());
    assert_eq!(grant_key(15), b"grant-f".to_vec());
    assert_eq!(grant_key(16), b"grant-10".to_vec());
}

#[test]
fn remap_request_keeps_known_flags_only() {
    let g = Grant { address: 0x1000, size: 0x2000, flags: 0x8006_0002 | 0x0010_0000, offset: 0x30 };
    assert_eq!(remap_request(&g), MapRequest { size: 0x2000, flags: 0x0006_0002, offset: 0x30 });
}

#[test]
fn thread_protocol_order_and_result() {
    let (steps, result) = run(Mode::Thread, None, 9);
    assert_eq!(
        steps,
        vec![
            Step::OpenCurrent,
            Step::CreateContext,
            Step::AllocateSignalStack,
            Step::CopyName,
            Step::CopyCwd,
            Step::ShareAddressSpace,
            Step::ShareFileTable,
            Step::ShareSignalActions,
            Step::CopyEnvRegisters,
            Step::Resume,
            Step::AwaitResumed,
        ]
    );
    assert_eq!(result, Ok(0));
}

#[test]
fn fork_protocol_order_and_result() {
    let (steps, result) = run(Mode::Fork, None, 31);
    assert_eq!(
        steps,
        vec![
            Step::OpenCurrent,
            Step::CreateContext,
            Step::CopySignalStack,
            Step::CopyName,
            Step::CopyCwd,
            Step::CopySignalActions,
            Step::StashFileTable,
            Step::DuplicateAddressSpace,
            Step::CopyEnvRegisters,
            Step::CopyFileTable,
            Step::Resume,
            Step::AwaitResumed,
        ]
    );
    assert_eq!(result, Ok(31));
}

#[test]
fn fork_succeeds_when_env_registers_are_absent() {
    let (steps, result) = run(Mode::Fork, Some((Step::CopyEnvRegisters, CloneError::Sys(2))), 5);
    assert_eq!(steps.len(), 12);
    assert_eq!(result, Ok(5));
}

#[test]
fn failed_wait_is_tolerated() {
    let (_, result) = run(Mode::Thread, Some((Step::AwaitResumed, CloneError::Sys(10))), 5);
    assert_eq!(result, Ok(0));
}

#[test]
fn mandatory_failure_stops_the_run() {
    let (steps, result) = run(Mode::Fork, Some((Step::CopyCwd, CloneError::NameTooLong)), 5);
    assert_eq!(steps.last(), Some(&Step::CopyCwd));
    assert_eq!(steps.len(), 5);
    assert_eq!(result, Err(CloneError::NameTooLong));
    let (steps, result) = run(Mode::Thread, Some((Step::CreateContext, CloneError::Invalid)), 5);
    assert_eq!(steps, vec![Step::OpenCurrent, Step::CreateContext]);
    assert_eq!(result, Err(CloneError::Invalid));
    let (_, result) = run(Mode::Fork, Some((Step::Resume, CloneError::Sys(3))), 5);
    assert_eq!(result, Err(CloneError::Sys(3)));
}

#[test]
fn raw_file_descriptor_numbers() {
    assert!(RawFile::from_result(0).is_err());
    let f = RawFile::from_result(5).unwrap();
    assert_eq!(f.as_raw_fd(), 5);
    assert_eq!(f.into_raw_fd(), 5);
}

#[test]
fn packed_results_round_trip() {
    assert_eq!(unpack_result(0), Ok(0));
    assert_eq!(pack_result(Ok(1234)), 1234);
    assert_eq!(unpack_result(pack_result(Ok(1234))), Ok(1234));
    assert_eq!(pack_result(Err(CloneError::Invalid)), (-22isize) as usize);
    assert_eq!(unpack_result(pack_result(Err(CloneError::Invalid))), Err(22));
    assert_eq!(unpack_result(pack_result(Err(CloneError::NameTooLong))), Err(36));
    assert_eq!(unpack_result(pack_result(Err(CloneError::Sys(131)))), Err(131));
    assert_eq!(unpack_result(pack_result(Err(CloneError::Sys(132)))), Ok((-132isize) as usize));
    assert_eq!(error_number(CloneError::Sys(5)), 5);
    assert_eq!(unpack_result(0x8000_0000), Ok(0x8000_0000));
}

fn describe(a: &TransferAction) -> String {
    match a {
        TransferAction::Remap { key, request } => format!(
            "remap {} size={:#x} flags={:#x} offset={:#x}",
            String::from_utf8(key.clone()).unwrap(),
            request.size,
            request.flags,
            request.offset
        ),
        TransferAction::Append { record } => format!(
            "append {:#x} {:#x} {:#x} {:#x}",
            record.address, record.size, record.flags, record.offset
        ),
        TransferAction::InstallSelector => "install".to_string(),
    }
}

#[test]
fn duplicate_transfer_remaps_only_external_grants() {
    let words = [0x4000_0000usize, 4096, 0x8000_0001, 0, 0x5000_0000, 8192, 0x0000_0003, 0];
    let mut t = AddressSpaceTransfer::new(&words);
    let mut log = Vec::new();
    while let Some(a) = t.next_action() {
        log.push(describe(&a));
        let r = match a {
            TransferAction::Remap { .. } => Ok(0x7000_0000),
            _ => Ok(0),
        };
        t.report(r);
    }
    assert_eq!(
        log,
        vec![
            "remap grant-40000000 size=0x1000 flags=0x1 offset=0x0".to_string(),
            "append 0x40000000 0x1000 0x80000001 0x70000000".to_string(),
            "install".to_string(),
        ]
    );
    assert_eq!(t.result(), Some(Ok(())));
}

#[test]
fn duplicate_transfer_without_external_grants_only_installs() {
    let mut t = AddressSpaceTransfer::new(&[1, 2, 3, 4]);
    let a = t.next_action().unwrap();
    assert_eq!(describe(&a), "install");
    t.report(Ok(0));
    assert!(t.next_action().is_none());
    assert_eq!(t.result(), Some(Ok(())));
    let empty = AddressSpaceTransfer::new(&[]);
    assert_eq!(describe(&empty.next_action().unwrap()), "install");
}

#[test]
fn duplicate_transfer_stops_on_failed_remap() {
    let words = [0x1000usize, 16, 0x8000_0000, 0, 0x2000, 16, 0x8000_0000, 0];
    let mut t = AddressSpaceTransfer::new(&words);
    assert_eq!(describe(&t.next_action().unwrap()), "remap grant-1000 size=0x10 flags=0x0 offset=0x0");
    t.report(Err(CloneError::Sys(12)));
    assert!(t.next_action().is_none());
    assert_eq!(t.result(), Some(Err(CloneError::Sys(12))));
}
