//! The settings of the speech service.
use crate::decimal;
use vstd::prelude::*;

verus! {

/// The number of requests that wait at most, if not set.
pub const DEFAULT_QUEUE: usize = 32;

/// The number of requests that are served at a time, if not set.
pub const DEFAULT_MAX_CONCURRENT: usize = 1;

/// The settings of the speech service.
#[derive(Clone, Copy, Debug, PartialEq, Eq, Structural)]
pub struct RuntimeConfig {
    pub max_concurrent: usize,
    pub queue_capacity: usize,
    pub threads: usize,
    pub ort_intra_threads: usize,
}

/// The number that a setting gives, or the default if it gives none.
pub open spec fn chosen(value: Option<&str>, default: int) -> int {
    match value {
        Some(s) => match decimal::parsed(s@, usize::MAX as nat) {
            Some(v) => v as int,
            None => default,
        },
        None => default,
    }
}

/// The number, but at least one.
pub open spec fn positive(v: int) -> int {
    if v < 1 {
        1
    } else {
        v
    }
}

/// The settings on a machine with so many cores.
pub open spec fn config_of(
    cores: int,
    threads: Option<&str>,
    ort_threads: Option<&str>,
    concurrent: Option<&str>,
    queue: Option<&str>,
) -> RuntimeConfig {
    RuntimeConfig {
        max_concurrent: positive(chosen(concurrent, DEFAULT_MAX_CONCURRENT as int)) as usize,
        queue_capacity: positive(chosen(queue, DEFAULT_QUEUE as int)) as usize,
        threads: chosen(threads, positive(cores)) as usize,
        ort_intra_threads: chosen(ort_threads, positive(cores)) as usize,
    }
}

/// The number that a setting gives, or the default if it gives none.
fn choose_number(value: Option<&str>, default: usize) -> (r: usize)
    ensures
        r == chosen(value, default as int),
{
    match value {
        Some(s) => match decimal::parse(s, usize::MAX as u64) {
            Some(v) => v as usize,
            None => default,
        },
        None => default,
    }
}

/// The number, but at least one.
fn make_positive(v: usize) -> (r: usize)
    ensures
        r == positive(v as int),
{
    if v < 1 {
        1
    } else {
        v
    }
}

/// `num_cpus::get_physical`: the number of physical cores of the machine. It differs from machine
/// to machine, so nothing is claimed of it.
#[verifier::external_body]
fn physical_cores() -> (r: usize) {
    num_cpus::get_physical()
}

impl RuntimeConfig {
    /// The settings on a machine with so many cores, from the values of the variables
    /// `TTS_THREADS`, `TTS_ORT_INTRA_THREADS`, `TTS_MAX_CONCURRENT` and `TTS_QUEUE_CAPACITY`.
    pub fn with_cores(
        cores: usize,
        threads: Option<&str>,
        ort_threads: Option<&str>,
        concurrent: Option<&str>,
        queue: Option<&str>,
    ) -> (r: RuntimeConfig)
        ensures
            r == config_of(cores as int, threads, ort_threads, concurrent, queue),
            r.max_concurrent >= 1,
            r.queue_capacity >= 1,
    {
        let cores: usize = make_positive(cores);
        RuntimeConfig {
            max_concurrent: make_positive(choose_number(concurrent, DEFAULT_MAX_CONCURRENT)),
            queue_capacity: make_positive(choose_number(queue, DEFAULT_QUEUE)),
            threads: choose_number(threads, cores),
            ort_intra_threads: choose_number(ort_threads, cores),
        }
    }

    /// The settings on this machine, from the values of the four variables.
    pub fn from_env(
        threads: Option<&str>,
        ort_threads: Option<&str>,
        concurrent: Option<&str>,
        queue: Option<&str>,
    ) -> (r: RuntimeConfig)
        ensures
            exists|cores: usize|
                r == #[trigger] config_of(cores as int, threads, ort_threads, concurrent, queue),
            r.max_concurrent >= 1,
            r.queue_capacity >= 1,
    {
        let cores: usize = physical_cores();
        RuntimeConfig::with_cores(cores, threads, ort_threads, concurrent, queue)
    }
}

/// A setting that is written as a number is taken, the limits of the queue and of the requests at a
/// time as at least one; each setting depends on its own variable alone.
pub proof fn a_written_setting_is_taken(
    cores: int,
    n: nat,
    written: &str,
    a: Option<&str>,
    b: Option<&str>,
    c: Option<&str>,
)
    requires
        written@ == decimal::digits_of(n),
        n <= usize::MAX,
    ensures
        config_of(cores, Some(written), a, b, c).threads == n,
        config_of(cores, a, Some(written), b, c).ort_intra_threads == n,
        config_of(cores, a, b, Some(written), c).max_concurrent == if n == 0 {
            1
        } else {
            n
        },
        config_of(cores, a, b, c, Some(written)).queue_capacity == if n == 0 {
            1
        } else {
            n
        },
{
    decimal::parse_undoes_render(n, usize::MAX as nat);
}

/// A setting that is not there, or is no number, has its default: both numbers of threads that of
/// the cores, but at least one, one request at a time, and a queue of 32.
pub proof fn a_setting_without_a_number_has_its_default(
    cores: usize,
    v: Option<&str>,
    a: Option<&str>,
    b: Option<&str>,
    c: Option<&str>,
)
    requires
        v matches Some(s) ==> decimal::parsed(s@, usize::MAX as nat) is None,
    ensures
        config_of(cores as int, v, a, b, c).threads == if cores == 0 {
            1
        } else {
            cores
        },
        config_of(cores as int, a, v, b, c).ort_intra_threads == if cores == 0 {
            1
        } else {
            cores
        },
        config_of(cores as int, a, b, v, c).max_concurrent == 1,
        config_of(cores as int, a, b, c, v).queue_capacity == 32,
{
}

} // verus!
