use jlight::module::ModuleError;
use jlight::object::ObjectStatus;
use jlight::process::{Mailbox, ProcessStatus, RescheduleRights};

#[test]
fn status_bits_are_independent() {
    let mut s = ProcessStatus::new();
    assert!(!s.is_main() && !s.is_blocking() && !s.is_terminated());
    s.set_main();
    assert!(s.is_main() && !s.is_blocking());
    s.set_blocking(true);
    assert!(s.is_main() && s.is_blocking() && !s.is_terminated());
    s.set_blocking(false);
    assert!(s.is_main() && !s.is_blocking());
    s.set_terminated();
    assert!(s.is_terminated() && s.is_main());
}

#[test]
fn reschedule_rights() {
    let f: RescheduleRights<u32> = RescheduleRights::Failed;
    assert!(!f.are_acquired() && !f.process_had_timeout());
    let a: RescheduleRights<u32> = RescheduleRights::Acquired;
    assert!(a.are_acquired() && !a.process_had_timeout());
    let t = RescheduleRights::AcquiredWithTimeout(5u32);
    assert!(t.are_acquired() && t.process_had_timeout());
}

#[test]
fn mailbox_is_first_in_first_out() {
    let mut m = Mailbox::new();
    assert!(!m.has_messages());
    m.send(1);
    m.send(2);
    assert!(m.has_messages());
    assert_eq!(m.receive(), Some(1));
    assert_eq!(m.receive(), Some(2));
    assert_eq!(m.receive(), None);
}

#[test]
fn module_error_messages() {
    assert_eq!(ModuleError::FailedToParse("a.jl".to_string()).message(), "Failed to parse a.jl");
    assert_eq!(ModuleError::ModuleDoesNotExist("b".to_string()).message(), "Module does not exist: b");
}

#[test]
fn object_status_values() {
    assert_eq!(ObjectStatus::OK, ObjectStatus::OK);
    assert_ne!(ObjectStatus::Promote, ObjectStatus::Evacuate);
}

