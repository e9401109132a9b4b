//! The system call boundary: arguments, return values, errors, setup.

use rio::config::Config;
use rio::constants::{ENTER, REGISTER, SETUP};
use rio::errors::{OsError, SetupError};
use rio::params::Params;
use rio::syscall::{enter, entered, power_of_two, register, returned, setup, Entered};
use rio::Order;

#[test]
fn setup_accepts_powers_of_two_up_to_4096() {
    for shift in 0..=12u32 {
        let call = setup(1 << shift, 0x1000).unwrap();
        assert_eq!(call.number, 425);
        assert_eq!(call.number, SETUP);
        assert_eq!(call.args, vec![1i64 << shift, 0x1000]);
    }
}

#[test]
fn depth_of_one_is_accepted() {
    assert!(setup(1, 0).is_ok());
    assert!(Config { depth: 1, ..Config::default() }.start().is_ok());
}

#[test]
fn depth_larger_than_4096_is_rejected() {
    assert_eq!(setup(8192, 0).unwrap_err(), SetupError::DepthOutOfRange);
    assert_eq!(setup(4097, 0).unwrap_err(), SetupError::DepthOutOfRange);
    assert_eq!(setup(u32::MAX, 0).unwrap_err(), SetupError::DepthOutOfRange);
    assert_eq!(setup(0, 0).unwrap_err(), SetupError::DepthOutOfRange);
    let config = Config { depth: 8192, ..Config::default() };
    assert_eq!(config.start().unwrap_err(), SetupError::DepthOutOfRange);
    let config = Config { depth: usize::MAX, ..Config::default() };
    assert_eq!(config.start().unwrap_err(), SetupError::DepthOutOfRange);
    let config = Config { depth: 0, ..Config::default() };
    assert_eq!(config.start().unwrap_err(), SetupError::DepthOutOfRange);
}

#[test]
fn depth_that_is_no_power_of_two_is_rejected() {
    for depth in [3u32, 5, 6, 7, 100, 255, 257, 4095] {
        assert_eq!(setup(depth, 0).unwrap_err(), SetupError::DepthNotPowerOfTwo);
        let config = Config { depth: depth as usize, ..Config::default() };
        assert_eq!(config.start().unwrap_err(), SetupError::DepthNotPowerOfTwo);
    }
}

#[test]
fn powers_of_two_are_recognised() {
    assert!(!power_of_two(0));
    assert!(power_of_two(1));
    assert!(power_of_two(2));
    assert!(!power_of_two(3));
    assert!(power_of_two(1 << 31));
    assert!(!power_of_two(u32::MAX));
    assert!(!power_of_two(12));
}

#[test]
fn enter_passes_its_six_arguments_in_order() {
    let call = enter(5, 3, 1, 1, 0, 128);
    assert_eq!(call.number, 426);
    assert_eq!(call.number, ENTER);
    assert_eq!(call.args, vec![5, 3, 1, 1, 0, 128]);
    let call = enter(-1, u32::MAX, 0, 2, 0x7000, 8);
    assert_eq!(call.args, vec![-1, u32::MAX as i64, 0, 2, 0x7000, 8]);
}

#[test]
fn register_passes_its_four_arguments_in_order() {
    let call = register(5, 2, 0x9000, 16);
    assert_eq!(call.number, 427);
    assert_eq!(call.number, REGISTER);
    assert_eq!(call.args, vec![5, 2, 0x9000, 16]);
}

#[test]
fn negative_return_values_are_errors() {
    assert_eq!(returned(3, 0), Ok(3));
    assert_eq!(returned(0, 17), Ok(0));
    assert_eq!(returned(-1, 1), Err(OsError { errno: 1 }));
    assert_eq!(returned(i32::MIN, 22), Err(OsError { errno: 22 }));
}

#[test]
fn interrupted_enter_is_retried() {
    assert_eq!(entered(-1, 4), Entered::Interrupted);
    assert_eq!(entered(-1, libc::EINTR as u32), Entered::Interrupted);
}

#[test]
fn other_enter_errors_are_surfaced() {
    assert_eq!(entered(-1, 11), Entered::Failed(OsError { errno: 11 }));
    assert_eq!(entered(-1, 16), Entered::Failed(OsError { errno: 16 }));
    assert_eq!(entered(-1, 0), Entered::Failed(OsError { errno: 0 }));
    assert_eq!(entered(-1, 5), Entered::Failed(OsError { errno: 5 }));
}

#[test]
fn successful_enter_reports_what_the_kernel_took() {
    assert_eq!(entered(0, 4), Entered::Accepted(0));
    assert_eq!(entered(17, 0), Entered::Accepted(17));
    assert_eq!(entered(i32::MAX, 4), Entered::Accepted(i32::MAX as u32));
}

#[test]
fn memory_exhaustion_gets_the_memlock_hint() {
    assert_eq!(SetupError::from_errno(12), SetupError::NotEnoughLockableMemory);
    assert_eq!(SetupError::from_errno(libc::ENOMEM as u32), SetupError::NotEnoughLockableMemory);
    assert_eq!(SetupError::from_errno(1), SetupError::Os(OsError { errno: 1 }));
    assert_eq!(SetupError::from_errno(0), SetupError::Os(OsError { errno: 0 }));
    assert_eq!(
        SetupError::NotEnoughLockableMemory.message(),
        "Not enough lockable memory. You probably need to raise the memlock rlimit, which often defaults to a pretty low number."
    );
    assert_eq!(SetupError::DepthOutOfRange.message(), "entries must be between 1 and 4096 (inclusive)");
    assert_eq!(SetupError::DepthNotPowerOfTwo.message(), "entries must be a power of 2");
    assert!(!SetupError::MalformedRing.message().is_empty());
    assert!(!SetupError::Os(OsError { errno: 1 }).message().is_empty());
}

#[test]
fn default_config_asks_for_256_entries() {
    let config = Config::default();
    assert_eq!(config.depth, 256);
    assert!(!config.sq_poll);
    assert!(!config.io_poll);
    assert_eq!(config.sq_poll_affinity, 0);
    assert!(config.raw_params.is_none());
    assert!(!config.print_profile_on_drop);
    let start = config.start().unwrap();
    assert_eq!(start.entries, 256);
    assert_eq!(start.params, Params::default());
    let again = rio::new().unwrap();
    assert_eq!(again.entries, 256);
    assert_eq!(again.params, Params::default());
}

#[test]
fn polling_config_sets_the_flag_and_the_processor() {
    let config = Config { depth: 8, sq_poll: true, sq_poll_affinity: 1, ..Config::default() };
    let start = config.start().unwrap();
    assert_eq!(start.entries, 8);
    assert_eq!(start.params, Params { flags: 2, sq_thread_cpu: 1, ..Params::default() });
    // Without polling the processor is not passed on.
    let config = Config { depth: 8, sq_poll: false, sq_poll_affinity: 1, ..Config::default() };
    assert_eq!(config.start().unwrap().params, Params::default());
}

#[test]
fn raw_params_override_everything_else() {
    let raw = Params { cq_entries: 64, flags: 8, sq_thread_idle: 5, ..Params::default() };
    let config = Config {
        depth: 16,
        sq_poll: true,
        sq_poll_affinity: 3,
        raw_params: Some(raw),
        ..Config::default()
    };
    let start = config.start().unwrap();
    assert_eq!(start.entries, 16);
    assert_eq!(start.params, raw);
}

#[test]
fn orders_map_to_their_flag_bits() {
    assert_eq!(Order::Unordered.flag_bits(), 0);
    assert_eq!(Order::Link.flag_bits(), 4);
    assert_eq!(Order::Drain.flag_bits(), 2);
}
