//! What a ring is asked to be.

use vstd::prelude::*;
use crate::constants::{IORING_SETUP_SQPOLL, MAX_ENTRIES, MIN_ENTRIES};
use crate::errors::SetupError;
use crate::params::Params;
use crate::syscall::{is_power_of_two, power_of_two, valid_entries};

verus! {

/// The depth of a ring that is started without further ado.
pub const DEFAULT_DEPTH: usize = 256;

/// Configuration of a ring.
#[derive(Clone, Copy, Debug)]
pub struct Config {
    /// The number of entries in the submission queue. The kernel makes the
    /// completion queue twice as large, unless `raw_params` says otherwise.
    pub depth: usize,
    /// Have a kernel thread poll the submission queue, so that submitting
    /// needs no system call. This takes privileges; without them the ring
    /// does not start.
    pub sq_poll: bool,
    /// The processor to pin that kernel thread to.
    pub sq_poll_affinity: u32,
    /// Poll the device for completions. Not supported; the setting has no
    /// effect.
    pub io_poll: bool,
    /// Print a table of where time was spent when the ring is dropped.
    pub print_profile_on_drop: bool,
    /// A parameter block to hand to the kernel as it is, in place of one
    /// made from the settings above.
    pub raw_params: Option<Params>,
}

/// What to ask of the kernel to start a ring.
#[derive(Clone, Copy, Debug)]
pub struct Start {
    /// The number of submission entries to ask for.
    pub entries: u32,
    /// The parameter block to hand to the kernel.
    pub params: Params,
}

impl Config {
    /// The configuration of a ring started without further ado: 256
    /// entries, no polling, nothing printed.
    pub open spec fn standard() -> Config {
        Config {
            depth: DEFAULT_DEPTH,
            sq_poll: false,
            sq_poll_affinity: 0,
            io_poll: false,
            print_profile_on_drop: false,
            raw_params: None,
        }
    }

    /// The parameter block that this configuration asks for: the raw one if
    /// there is one; else a block of zeros, with the polling flag and the
    /// poll thread's processor set if polling is wanted.
    pub open spec fn params(self) -> Params {
        match self.raw_params {
            Some(params) => params,
            None => if self.sq_poll {
                Params {
                    flags: IORING_SETUP_SQPOLL,
                    sq_thread_cpu: self.sq_poll_affinity,
                    ..Params::zero()
                }
            } else {
                Params::zero()
            },
        }
    }

    /// Whether the depth is one that the kernel is asked for at all: a power
    /// of two from 1 to 4096.
    pub open spec fn valid_depth(self) -> bool {
        MIN_ENTRIES <= self.depth <= MAX_ENTRIES && is_power_of_two(self.depth as nat)
    }

    /// What to ask of the kernel to start the ring. A depth above 4096 or
    /// of zero is refused, and so is one that is no power of two.
    pub fn start(self) -> (start: Result<Start, SetupError>)
        ensures
            self.valid_depth() <==> start is Ok,
            start matches Ok(s) ==> s.entries == self.depth && valid_entries(s.entries) && s.params
                == self.params(),
            start matches Err(e) ==> e == (if MIN_ENTRIES <= self.depth <= MAX_ENTRIES {
                SetupError::DepthNotPowerOfTwo
            } else {
                SetupError::DepthOutOfRange
            }),
    {
        if self.depth < MIN_ENTRIES as usize || self.depth > MAX_ENTRIES as usize {
            return Err(SetupError::DepthOutOfRange);
        }
        let entries: u32 = self.depth as u32;
        if !power_of_two(entries) {
            return Err(SetupError::DepthNotPowerOfTwo);
        }
        let params = match self.raw_params {
            Some(params) => params,
            None => {
                let mut params = Params::default();
                if self.sq_poll {
                    params.flags = IORING_SETUP_SQPOLL;
                    params.sq_thread_cpu = self.sq_poll_affinity;
                }
                params
            },
        };
        Ok(Start { entries, params })
    }
}

impl Default for Config {
    fn default() -> (config: Config)
        ensures
            config == Config::standard(),
    {
        Config {
            depth: DEFAULT_DEPTH,
            sq_poll: false,
            sq_poll_affinity: 0,
            io_poll: false,
            print_profile_on_drop: false,
            raw_params: None,
        }
    }
}

} // verus!
