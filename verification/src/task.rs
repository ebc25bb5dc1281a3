//! Long-running accounting tasks: each task holds a random id, the
//! caller's session context, and its start instant, and builds the
//! argument lists of the start, watchdog-update and stop records that
//! RFC 8907 section 8.3 asks for.

use vstd::prelude::*;
use std::time::Instant;
use crate::arguments::{argument_view_valid, Argument};
use crate::client::{ClientError, SessionContext};
use crate::text::{chars_of_bytes, text_is_printable, FieldText};
use crate::wire::bytes_are_printable_ascii;

verus! {

/// The byte of the decimal digit `d` (0 to 9).
pub open spec fn decimal_digit_byte(d: int) -> u8 {
    (0x30 + d) as u8
}

/// The decimal digits of `n`, most significant first, with no leading
/// zeros (zero itself is the single digit `0`).
pub open spec fn decimal_bytes(n: nat) -> Seq<u8>
    decreases n,
{
    if n < 10 {
        seq![decimal_digit_byte(n as int)]
    } else {
        decimal_bytes(n / 10) + seq![decimal_digit_byte((n % 10) as int)]
    }
}

/// Powers of ten.
pub open spec fn pow10(k: nat) -> int
    decreases k,
{
    if k == 0 {
        1
    } else {
        10 * pow10((k - 1) as nat)
    }
}

/// A number below the `k`-th power of ten has at most `k` decimal digits.
pub proof fn lemma_decimal_len(n: nat, k: nat)
    requires
        k >= 1,
        n < pow10(k),
    ensures
        1 <= decimal_bytes(n).len() <= k,
    decreases k,
{
    if n < 10 {
    } else {
        assert(pow10(k) == 10 * pow10((k - 1) as nat));
        assert(k >= 2) by {
            if k == 1 {
                assert(pow10(1) == 10);
            }
        }
        assert(n / 10 < pow10((k - 1) as nat)) by (nonlinear_arith)
            requires
                n < 10 * pow10((k - 1) as nat),
                n >= 10,
        ;
        lemma_decimal_len(n / 10, (k - 1) as nat);
    }
}

/// Decimal digit bytes are printable ASCII.
pub proof fn lemma_decimal_bytes_printable(n: nat)
    ensures
        bytes_are_printable_ascii(decimal_bytes(n)),
    decreases n,
{
    if n < 10 {
        assert(crate::byte_is_printable_ascii(decimal_digit_byte(n as int)));
    } else {
        lemma_decimal_bytes_printable(n / 10);
        assert(crate::byte_is_printable_ascii(decimal_digit_byte((n % 10) as int)));
        let b = decimal_bytes(n);
        assert forall|i: int| 0 <= i < b.len() implies crate::byte_is_printable_ascii(
            #[trigger] b[i],
        ) by {
            if i < decimal_bytes(n / 10).len() {
                assert(b[i] == decimal_bytes(n / 10)[i]);
            } else {
                assert(b[i] == decimal_digit_byte((n % 10) as int));
            }
        }
    }
}

/// The decimal form of a `u64`, as printable text of at most 20
/// characters.
pub fn decimal_text(n: u64) -> (r: FieldText)
    ensures
        r@ == chars_of_bytes(decimal_bytes(n as nat)),
        text_is_printable(r@),
        1 <= r@.len() <= 20,
{
    let bytes = decimal_bytes_exec(n);
    proof {
        lemma_decimal_bytes_printable(n as nat);
        assert(pow10(20) == 0x56bc75e2d63100000) by {
            reveal_with_fuel(pow10, 21);
        }
        lemma_decimal_len(n as nat, 20);
        crate::text::lemma_chars_of_bytes_round_trip(bytes@);
    }
    match FieldText::from_bytes(bytes) {
        Ok(t) => t,
        Err(_) => {
            proof {
                assert(false);
            }
            FieldText::empty()
        },
    }
}

/// The decimal digit bytes of `n`.
fn decimal_bytes_exec(n: u64) -> (r: Vec<u8>)
    ensures
        r@ == decimal_bytes(n as nat),
    decreases n,
{
    if n < 10 {
        let mut out: Vec<u8> = Vec::new();
        out.push(0x30 + n as u8);
        proof {
            assert(out@ =~= decimal_bytes(n as nat));
        }
        out
    } else {
        let mut out = decimal_bytes_exec(n / 10);
        out.push(0x30 + (n % 10) as u8);
        proof {
            assert(out@ =~= decimal_bytes(n as nat));
        }
        out
    }
}


/// The accounting operations a task performs, each sent as one complete
/// record.
#[derive(Clone, Copy, PartialEq, Eq, Structural, Debug, Hash)]
pub enum TaskOperation {
    /// The start of the task.
    Start,
    /// A watchdog update while the task runs.
    Update,
    /// The end of the task.
    Stop,
}

impl TaskOperation {
    /// The record flags each operation sends: a start record for Start,
    /// a watchdog update for Update, and a stop record for Stop.
    pub open spec fn spec_record_flags(self) -> crate::accounting::Flags {
        match self {
            TaskOperation::Start => crate::accounting::Flags::StartRecord,
            TaskOperation::Update => crate::accounting::Flags::WatchdogUpdate,
            TaskOperation::Stop => crate::accounting::Flags::StopRecord,
        }
    }

    /// The record flags of this operation, per `spec_record_flags`.
    pub fn record_flags(self) -> (r: crate::accounting::Flags)
        ensures
            r == self.spec_record_flags(),
    {
        match self {
            TaskOperation::Start => crate::accounting::Flags::StartRecord,
            TaskOperation::Update => crate::accounting::Flags::WatchdogUpdate,
            TaskOperation::Stop => crate::accounting::Flags::StopRecord,
        }
    }
}

/// An ongoing task tracked through accounting records. The id groups the
/// records of one task; the start instant measures elapsed time for
/// watchdog updates.
pub struct AccountingTask {
    pub id: String,
    pub context: SessionContext,
    pub start_time: Instant,
}

impl AccountingTask {
    /// What every constructed task id satisfies: printable text, free of
    /// both argument delimiters, that fits beside an argument name.
    pub open spec fn valid(&self) -> bool {
        &&& text_is_printable(self.id@)
        &&& !self.id@.contains('=')
        &&& !self.id@.contains('*')
        &&& 1 <= self.id@.len() <= 200
    }

    /// Starts tracking a task: draws a fresh random id and notes the
    /// start instant.
    pub fn new(context: SessionContext) -> (r: AccountingTask)
        ensures
            r.valid(),
            r.context == context,
    {
        AccountingTask {
            id: crate::trusted::random_task_id(),
            context: context,
            start_time: crate::trusted::monotonic_now(),
        }
    }

    /// The context the task was started under.
    pub fn context(&self) -> (r: &SessionContext)
        ensures
            r == self.context,
    {
        &self.context
    }

    /// The arguments of the task's start record: `task_id` and
    /// `start_time` (seconds since the Unix epoch), both mandatory,
    /// before the caller's arguments. Fails only when the system clock
    /// is set before the epoch.
    pub fn start_arguments(&self, arguments: &Vec<Argument>) -> (r: Result<
        Vec<Argument>,
        ClientError,
    >)
        requires
            self.valid(),
        ensures
            match r {
                Ok(v) => {
                    &&& v@.len() == 2 + arguments@.len()
                    &&& v@[0]@.name == "task_id"@
                    &&& v@[0]@.value == self.id@
                    &&& v@[0]@.mandatory
                    &&& argument_view_valid(v@[0]@)
                    &&& v@[1]@.name == "start_time"@
                    &&& (exists|seconds: u64|
                        v@[1]@.value == chars_of_bytes(decimal_bytes(seconds as nat)))
                    &&& v@[1]@.mandatory
                    &&& argument_view_valid(v@[1]@)
                    &&& forall|k: int|
                        0 <= k < arguments@.len() ==> #[trigger] v@[2 + k]@ == arguments@[k]@
                },
                Err(e) => e == ClientError::SystemTimeBeforeEpoch,
            },
    {
        let now = match crate::trusted::unix_time_now() {
            Some(secs) => secs,
            None => {
                return Err(ClientError::SystemTimeBeforeEpoch);
            },
        };
proof {
            reveal_strlit("start_time");
            assert(text_is_printable("start_time"@));
            assert(!"start_time"@.contains('=')) by {
                if "start_time"@.contains('=') {
                    let i = choose|i: int| 0 <= i < "start_time"@.len() && "start_time"@[i] == '=';
                }
            }
            assert(!"start_time"@.contains('*')) by {
                if "start_time"@.contains('*') {
                    let i = choose|i: int| 0 <= i < "start_time"@.len() && "start_time"@[i] == '*';
                }
            }
        }
        Ok(self.record_arguments("start_time", decimal_text(now), arguments))
    }

    /// The arguments of a watchdog update: `task_id` and `elapsed_time`
    /// (seconds since the task started), both mandatory, before the
    /// caller's arguments.
    pub fn update_arguments(&self, arguments: &Vec<Argument>) -> (v: Vec<Argument>)
        requires
            self.valid(),
        ensures
            v@.len() == 2 + arguments@.len(),
            v@[0]@.name == "task_id"@,
            v@[0]@.value == self.id@,
            v@[0]@.mandatory,
            argument_view_valid(v@[0]@),
            v@[1]@.name == "elapsed_time"@,
            exists|seconds: u64| v@[1]@.value == chars_of_bytes(decimal_bytes(seconds as nat)),
            v@[1]@.mandatory,
            argument_view_valid(v@[1]@),
            forall|k: int| 0 <= k < arguments@.len() ==> #[trigger] v@[2 + k]@ == arguments@[k]@,
    {
        let elapsed = crate::trusted::seconds_since(&self.start_time);
proof {
            reveal_strlit("elapsed_time");
            assert(text_is_printable("elapsed_time"@));
            assert(!"elapsed_time"@.contains('=')) by {
                if "elapsed_time"@.contains('=') {
                    let i = choose|i: int| 0 <= i < "elapsed_time"@.len() && "elapsed_time"@[i] == '=';
                }
            }
            assert(!"elapsed_time"@.contains('*')) by {
                if "elapsed_time"@.contains('*') {
                    let i = choose|i: int| 0 <= i < "elapsed_time"@.len() && "elapsed_time"@[i] == '*';
                }
            }
        }
        self.record_arguments("elapsed_time", decimal_text(elapsed), arguments)
    }

    /// The arguments of the task's stop record: `task_id` and `stop_time`
    /// (seconds since the Unix epoch), both mandatory, before the
    /// caller's arguments. Fails only when the system clock is set
    /// before the epoch.
    pub fn stop_arguments(&self, arguments: &Vec<Argument>) -> (r: Result<
        Vec<Argument>,
        ClientError,
    >)
        requires
            self.valid(),
        ensures
            match r {
                Ok(v) => {
                    &&& v@.len() == 2 + arguments@.len()
                    &&& v@[0]@.name == "task_id"@
                    &&& v@[0]@.value == self.id@
                    &&& v@[0]@.mandatory
                    &&& argument_view_valid(v@[0]@)
                    &&& v@[1]@.name == "stop_time"@
                    &&& (exists|seconds: u64|
                        v@[1]@.value == chars_of_bytes(decimal_bytes(seconds as nat)))
                    &&& v@[1]@.mandatory
                    &&& argument_view_valid(v@[1]@)
                    &&& forall|k: int|
                        0 <= k < arguments@.len() ==> #[trigger] v@[2 + k]@ == arguments@[k]@
                },
                Err(e) => e == ClientError::SystemTimeBeforeEpoch,
            },
    {
        let now = match crate::trusted::unix_time_now() {
            Some(secs) => secs,
            None => {
                return Err(ClientError::SystemTimeBeforeEpoch);
            },
        };
proof {
            reveal_strlit("stop_time");
            assert(text_is_printable("stop_time"@));
            assert(!"stop_time"@.contains('=')) by {
                if "stop_time"@.contains('=') {
                    let i = choose|i: int| 0 <= i < "stop_time"@.len() && "stop_time"@[i] == '=';
                }
            }
            assert(!"stop_time"@.contains('*')) by {
                if "stop_time"@.contains('*') {
                    let i = choose|i: int| 0 <= i < "stop_time"@.len() && "stop_time"@[i] == '*';
                }
            }
        }
        Ok(self.record_arguments("stop_time", decimal_text(now), arguments))
    }

    /// Builds `task_id` and the given timestamp argument, then the
    /// caller's arguments.
    fn record_arguments(
        &self,
        time_name: &str,
        time_value: FieldText,
        arguments: &Vec<Argument>,
    ) -> (v: Vec<Argument>)
        requires
            self.valid(),
            text_is_printable(time_name@),
            1 <= time_name@.len() <= 32,
            !time_name@.contains('='),
            !time_name@.contains('*'),
            text_is_printable(time_value@),
            time_value@.len() <= 20,
        ensures
            v@.len() == 2 + arguments@.len(),
            v@[0]@.name == "task_id"@,
            v@[0]@.value == self.id@,
            v@[0]@.mandatory,
            argument_view_valid(v@[0]@),
            v@[1]@.name == time_name@,
            v@[1]@.value == time_value@,
            v@[1]@.mandatory,
            argument_view_valid(v@[1]@),
            forall|k: int| 0 <= k < arguments@.len() ==> #[trigger] v@[2 + k]@ == arguments@[k]@,
    {
        proof {
            reveal_strlit("task_id");
            assert(text_is_printable("task_id"@));
            assert(!"task_id"@.contains('=')) by {
                if "task_id"@.contains('=') {
                    let i = choose|i: int| 0 <= i < "task_id"@.len() && "task_id"@[i] == '=';
                }
            }
            assert(!"task_id"@.contains('*')) by {
                if "task_id"@.contains('*') {
                    let i = choose|i: int| 0 <= i < "task_id"@.len() && "task_id"@[i] == '*';
                }
            }
        }
        // the literal is printable ASCII, so the checks below cannot fail;
        // Verus proves each fallback branch unreachable
        let task_id_name = match FieldText::new("task_id") {
            Some(t) => t,
            None => {
                proof {
                    assert(false);
                }
                FieldText::empty()
            },
        };
        let task_id_value = match FieldText::new(self.id.as_str()) {
            Some(t) => t,
            None => {
                proof {
                    assert(false);
                }
                FieldText::empty()
            },
        };
        let task_id_argument = match Argument::new(task_id_name, task_id_value, true) {
            Ok(a) => a,
            Err(_) => {
                proof {
                    assert(false);
                }
                Argument {
                    name: FieldText::empty(),
                    value: FieldText::empty(),
                    mandatory: true,
                }
            },
        };
        let time_name_text = match FieldText::new(time_name) {
            Some(t) => t,
            None => {
                proof {
                    assert(false);
                }
                FieldText::empty()
            },
        };
        let time_argument = match Argument::new(time_name_text, time_value, true) {
            Ok(a) => a,
            Err(_) => {
                proof {
                    assert(false);
                }
                Argument {
                    name: FieldText::empty(),
                    value: FieldText::empty(),
                    mandatory: true,
                }
            },
        };
        let mut out: Vec<Argument> = Vec::new();
        out.push(task_id_argument);
        out.push(time_argument);
        let n: usize = arguments.len();
        let mut i: usize = 0;
        while i < n
            invariant
                n == arguments@.len(),
                i <= n,
                out@.len() == 2 + i,
                out@[0] == task_id_argument,
                out@[1] == time_argument,
                forall|k: int| 0 <= k < i ==> #[trigger] out@[2 + k]@ == arguments@[k]@,
            decreases n - i,
        {
            out.push(arguments[i].duplicate());
            i += 1;
        }
        out
    }
}

} // verus!
