//! The typed taxonomy of what can go wrong with an execution.

use crate::hypervisor::validator::health::HealthStatus;
use crate::text;
use vstd::prelude::*;
use vstd::string::*;

verus! {

/// `wasmtime::Trap`: the engine's traps, all of them without fields.
#[verifier::external_type_specification]
pub struct ExTrap(wasmtime::Trap);

/// `wasmtime::Error`: an error of the engine, which may carry a trap.
#[verifier::external_type_specification]
#[verifier::external_body]
pub struct ExEngineError(wasmtime::Error);

/// What went wrong.
#[derive(Debug, Clone, PartialEq, Eq)]
pub enum FailureMode {
    /// The wall-clock watchdog fired before execution returned.
    Timeout { limit_ms: u64, observed_ms: u64 },
    /// The fuel budget was consumed before execution returned.
    FuelExhausted { limit: u64 },
    TrapUnreachable,
    TrapDivByZero,
    TrapIntegerOverflow,
    TrapBadConversionToInteger,
    TrapStackOverflow,
    TrapMemoryOutOfBounds,
    TrapHeapMisaligned,
    TrapTableOutOfBounds,
    TrapIndirectCallToNull,
    TrapBadSignature,
    TrapNullReference,
    TrapCastFailure,
    /// Any other deterministic trap, by the engine's name for it.
    TrapOther(String),
    /// The configured page cap was exceeded.
    MemoryLimitExceeded { pages: u32, limit_pages: u32 },
    /// The module did not compile or link; nothing ran.
    InvalidModule(String),
    /// The configured entry point is not exported; nothing ran.
    MissingEntrypoint { expected: String },
    /// An error of the host itself.
    HostError(String),
}

/// A failure mode, by its contents.
pub enum Failure {
    Timeout { limit_ms: nat, observed_ms: nat },
    FuelExhausted { limit: nat },
    TrapUnreachable,
    TrapDivByZero,
    TrapIntegerOverflow,
    TrapBadConversionToInteger,
    TrapStackOverflow,
    TrapMemoryOutOfBounds,
    TrapHeapMisaligned,
    TrapTableOutOfBounds,
    TrapIndirectCallToNull,
    TrapBadSignature,
    TrapNullReference,
    TrapCastFailure,
    TrapOther(Seq<char>),
    MemoryLimitExceeded { pages: nat, limit_pages: nat },
    InvalidModule(Seq<char>),
    MissingEntrypoint { expected: Seq<char> },
    HostError(Seq<char>),
}

impl View for FailureMode {
    type V = Failure;

    open spec fn view(&self) -> Failure {
        match self {
            FailureMode::Timeout { limit_ms, observed_ms } => Failure::Timeout {
                limit_ms: *limit_ms as nat,
                observed_ms: *observed_ms as nat,
            },
            FailureMode::FuelExhausted { limit } => Failure::FuelExhausted { limit: *limit as nat },
            FailureMode::TrapUnreachable => Failure::TrapUnreachable,
            FailureMode::TrapDivByZero => Failure::TrapDivByZero,
            FailureMode::TrapIntegerOverflow => Failure::TrapIntegerOverflow,
            FailureMode::TrapBadConversionToInteger => Failure::TrapBadConversionToInteger,
            FailureMode::TrapStackOverflow => Failure::TrapStackOverflow,
            FailureMode::TrapMemoryOutOfBounds => Failure::TrapMemoryOutOfBounds,
            FailureMode::TrapHeapMisaligned => Failure::TrapHeapMisaligned,
            FailureMode::TrapTableOutOfBounds => Failure::TrapTableOutOfBounds,
            FailureMode::TrapIndirectCallToNull => Failure::TrapIndirectCallToNull,
            FailureMode::TrapBadSignature => Failure::TrapBadSignature,
            FailureMode::TrapNullReference => Failure::TrapNullReference,
            FailureMode::TrapCastFailure => Failure::TrapCastFailure,
            FailureMode::TrapOther(s) => Failure::TrapOther(s@),
            FailureMode::MemoryLimitExceeded { pages, limit_pages } => Failure::MemoryLimitExceeded {
                pages: *pages as nat,
                limit_pages: *limit_pages as nat,
            },
            FailureMode::InvalidModule(s) => Failure::InvalidModule(s@),
            FailureMode::MissingEntrypoint { expected } => Failure::MissingEntrypoint {
                expected: expected@,
            },
            FailureMode::HostError(s) => Failure::HostError(s@),
        }
    }
}

impl Failure {
    /// The category's name.
    pub open spec fn category(self) -> Seq<char> {
        match self {
            Failure::Timeout { .. } => "TIMEOUT"@,
            Failure::FuelExhausted { .. } => "FUEL_EXHAUSTED"@,
            Failure::TrapUnreachable => "TRAP_UNREACHABLE"@,
            Failure::TrapDivByZero => "TRAP_DIV_BY_ZERO"@,
            Failure::TrapIntegerOverflow => "TRAP_INTEGER_OVERFLOW"@,
            Failure::TrapBadConversionToInteger => "TRAP_BAD_FLOAT_TO_INT"@,
            Failure::TrapStackOverflow => "TRAP_STACK_OVERFLOW"@,
            Failure::TrapMemoryOutOfBounds => "TRAP_MEMORY_OOB"@,
            Failure::TrapHeapMisaligned => "TRAP_HEAP_MISALIGNED"@,
            Failure::TrapTableOutOfBounds => "TRAP_TABLE_OOB"@,
            Failure::TrapIndirectCallToNull => "TRAP_INDIRECT_NULL"@,
            Failure::TrapBadSignature => "TRAP_BAD_SIGNATURE"@,
            Failure::TrapNullReference => "TRAP_NULL_REFERENCE"@,
            Failure::TrapCastFailure => "TRAP_CAST_FAILURE"@,
            Failure::TrapOther(_) => "TRAP_OTHER"@,
            Failure::MemoryLimitExceeded { .. } => "MEMORY_LIMIT_EXCEEDED"@,
            Failure::InvalidModule(_) => "INVALID_MODULE"@,
            Failure::MissingEntrypoint { .. } => "MISSING_ENTRYPOINT"@,
            Failure::HostError(_) => "HOST_ERROR"@,
        }
    }

    /// The description in one line, whatever a payload holds.
    pub open spec fn description(self) -> Seq<char> {
        match self {
            Failure::Timeout { limit_ms, observed_ms } => "Execution exceeded "@ + text::decimal(
                limit_ms,
            ) + "ms (observed "@ + text::decimal(observed_ms) + "ms)"@,
            Failure::FuelExhausted { limit } => "Fuel budget of "@ + text::decimal(limit)
                + " instructions exhausted"@,
            Failure::TrapUnreachable => "WASM `unreachable` instruction reached"@,
            Failure::TrapDivByZero => "Integer division by zero"@,
            Failure::TrapIntegerOverflow => "Integer overflow"@,
            Failure::TrapBadConversionToInteger => "Invalid float-to-integer conversion"@,
            Failure::TrapStackOverflow => "Call stack exhausted (recursion / stack budget)"@,
            Failure::TrapMemoryOutOfBounds => "Out-of-bounds linear memory access"@,
            Failure::TrapHeapMisaligned => "Unaligned atomic access"@,
            Failure::TrapTableOutOfBounds => "Out-of-bounds table access"@,
            Failure::TrapIndirectCallToNull => "Indirect call to a null table entry"@,
            Failure::TrapBadSignature => "Indirect call signature mismatch"@,
            Failure::TrapNullReference => "Null reference dereferenced"@,
            Failure::TrapCastFailure => "Type cast failure on a reference"@,
            Failure::TrapOther(s) => "WASM trap: "@ + text::in_one_line(s),
            Failure::MemoryLimitExceeded { pages, limit_pages } => "WASM memory grew to "@
                + text::decimal(pages) + " pages; limit is "@ + text::decimal(limit_pages),
            Failure::InvalidModule(s) => "Invalid WASM module: "@ + text::in_one_line(s),
            Failure::MissingEntrypoint { expected } => "Module has no exported `"@
                + text::in_one_line(expected) + "` function"@,
            Failure::HostError(s) => "Host error: "@ + text::in_one_line(s),
        }
    }

    /// Nothing ran: the module did not load, or its entry point is missing.
    pub open spec fn load_time(self) -> bool {
        self is InvalidModule || self is MissingEntrypoint
    }

    /// A budget was used up, or the host failed: another attempt may end
    /// otherwise.
    pub open spec fn retryable(self) -> bool {
        ||| self is Timeout
        ||| self is FuelExhausted
        ||| self is TrapStackOverflow
        ||| self is MemoryLimitExceeded
        ||| self is HostError
    }

    /// The status that stands for this failure.
    pub open spec fn status(self) -> HealthStatus {
        match self {
            Failure::Timeout { .. } => HealthStatus::Timeout,
            Failure::FuelExhausted { .. } => HealthStatus::FuelExhausted,
            Failure::MemoryLimitExceeded { .. } => HealthStatus::ResourceExhausted,
            Failure::TrapStackOverflow => HealthStatus::ResourceExhausted,
            Failure::InvalidModule(_) => HealthStatus::InvalidModule,
            Failure::MissingEntrypoint { .. } => HealthStatus::InvalidModule,
            Failure::HostError(_) => HealthStatus::Corrupted,
            _ => HealthStatus::Trapped,
        }
    }
}

/// The failure that a trap of the engine stands for. A trap without a variant
/// of its own keeps its name.
pub open spec fn trap_failure(trap: wasmtime::Trap) -> Failure {
    match trap {
        wasmtime::Trap::UnreachableCodeReached => Failure::TrapUnreachable,
        wasmtime::Trap::IntegerDivisionByZero => Failure::TrapDivByZero,
        wasmtime::Trap::IntegerOverflow => Failure::TrapIntegerOverflow,
        wasmtime::Trap::BadConversionToInteger => Failure::TrapBadConversionToInteger,
        wasmtime::Trap::StackOverflow => Failure::TrapStackOverflow,
        wasmtime::Trap::MemoryOutOfBounds => Failure::TrapMemoryOutOfBounds,
        wasmtime::Trap::HeapMisaligned => Failure::TrapHeapMisaligned,
        wasmtime::Trap::TableOutOfBounds => Failure::TrapTableOutOfBounds,
        wasmtime::Trap::IndirectCallToNull => Failure::TrapIndirectCallToNull,
        wasmtime::Trap::BadSignature => Failure::TrapBadSignature,
        wasmtime::Trap::NullReference => Failure::TrapNullReference,
        wasmtime::Trap::CastFailure => Failure::TrapCastFailure,
        wasmtime::Trap::OutOfFuel => Failure::FuelExhausted { limit: 0 },
        wasmtime::Trap::Interrupt => Failure::TrapOther("Interrupt"@),
        wasmtime::Trap::AlwaysTrapAdapter => Failure::TrapOther("AlwaysTrapAdapter"@),
        wasmtime::Trap::AtomicWaitNonSharedMemory => Failure::TrapOther("AtomicWaitNonSharedMemory"@),
        wasmtime::Trap::ArrayOutOfBounds => Failure::TrapOther("ArrayOutOfBounds"@),
        wasmtime::Trap::AllocationTooLarge => Failure::TrapOther("AllocationTooLarge"@),
        wasmtime::Trap::CannotEnterComponent => Failure::TrapOther("CannotEnterComponent"@),
        wasmtime::Trap::NoAsyncResult => Failure::TrapOther("NoAsyncResult"@),
        wasmtime::Trap::UnhandledTag => Failure::TrapOther("UnhandledTag"@),
        wasmtime::Trap::ContinuationAlreadyConsumed => Failure::TrapOther("ContinuationAlreadyConsumed"@),
        wasmtime::Trap::DisabledOpcode => Failure::TrapOther("DisabledOpcode"@),
        wasmtime::Trap::AsyncDeadlock => Failure::TrapOther("AsyncDeadlock"@),
        _ => Failure::TrapOther(""@),
    }
}

/// A description stands in one line.
pub proof fn lemma_description_is_one_line(f: Failure)
    ensures
        text::one_line(f.description()),
        !f.description().contains('\n'),
        !f.description().contains('\r'),
{
    reveal_strlit("Execution exceeded ");
    reveal_strlit("ms (observed ");
    reveal_strlit("ms)");
    reveal_strlit("Fuel budget of ");
    reveal_strlit(" instructions exhausted");
    reveal_strlit("WASM `unreachable` instruction reached");
    reveal_strlit("Integer division by zero");
    reveal_strlit("Integer overflow");
    reveal_strlit("Invalid float-to-integer conversion");
    reveal_strlit("Call stack exhausted (recursion / stack budget)");
    reveal_strlit("Out-of-bounds linear memory access");
    reveal_strlit("Unaligned atomic access");
    reveal_strlit("Out-of-bounds table access");
    reveal_strlit("Indirect call to a null table entry");
    reveal_strlit("Indirect call signature mismatch");
    reveal_strlit("Null reference dereferenced");
    reveal_strlit("Type cast failure on a reference");
    reveal_strlit("WASM trap: ");
    reveal_strlit("WASM memory grew to ");
    reveal_strlit(" pages; limit is ");
    reveal_strlit("Invalid WASM module: ");
    reveal_strlit("Module has no exported `");
    reveal_strlit("` function");
    reveal_strlit("Host error: ");
    match f {
        Failure::Timeout { limit_ms, observed_ms } => {
            text::lemma_decimal_is_one_line(limit_ms);
            text::lemma_decimal_is_one_line(observed_ms);
        },
        Failure::FuelExhausted { limit } => {
            text::lemma_decimal_is_one_line(limit);
        },
        Failure::MemoryLimitExceeded { pages, limit_pages } => {
            text::lemma_decimal_is_one_line(pages);
            text::lemma_decimal_is_one_line(limit_pages);
        },
        _ => {},
    }
    let d = f.description();
    assert forall|c: char| text::line_break(c) implies !d.contains(c) by {
        if d.contains(c) {
            let i = choose|i: int| 0 <= i < d.len() && d[i] == c;
            assert(!text::line_break(d[i]));
        }
    }
}

/// The trap that an error of the engine holds itself.
pub uninterp spec fn held_trap(err: wasmtime::Error) -> Option<wasmtime::Trap>;

/// For each cause of an error of the engine, the error itself first, the trap
/// that it is, if it is one.
pub uninterp spec fn cause_traps(err: wasmtime::Error) -> Seq<Option<wasmtime::Trap>>;

/// `wasmtime::Error::downcast_ref` at `wasmtime::Trap`: whether the error itself
/// holds a trap, and which, depends on the error alone.
#[verifier::external_body]
fn own_trap(err: &wasmtime::Error) -> (r: Option<wasmtime::Trap>)
    ensures
        r == held_trap(*err),
{
    err.downcast_ref::<wasmtime::Trap>().copied()
}

/// `wasmtime::Error::chain`, each cause read as a `wasmtime::Trap`: how many
/// causes there are, and which of them are traps, depends on the error alone.
#[verifier::external_body]
fn chain_of(err: &wasmtime::Error) -> (r: Vec<Option<wasmtime::Trap>>)
    ensures
        r@ == cause_traps(*err),
{
    err.chain().map(|cause| cause.downcast_ref::<wasmtime::Trap>().copied()).collect()
}

/// The first trap of a list.
pub open spec fn first_trap(traps: Seq<Option<wasmtime::Trap>>) -> Option<wasmtime::Trap>
    decreases traps.len(),
{
    if traps.len() == 0 {
        None
    } else {
        match first_trap(traps.drop_last()) {
            Some(t) => Some(t),
            None => traps.last(),
        }
    }
}

/// Finds the first trap of a list.
pub fn find_trap(traps: &Vec<Option<wasmtime::Trap>>) -> (r: Option<wasmtime::Trap>)
    ensures
        r == first_trap(traps@),
        match r {
            Some(t) => exists|i: int|
                0 <= i < traps@.len() && traps@[i] == Some(t) && (forall|j: int|
                    0 <= j < i ==> (#[trigger] traps@[j]) is None),
            None => forall|j: int| 0 <= j < traps@.len() ==> (#[trigger] traps@[j]) is None,
        },
{
    let mut i: usize = 0;
    while i < traps.len()
        invariant
            i <= traps.len(),
            first_trap(traps@.take(i as int)) is None,
            forall|j: int| 0 <= j < i ==> (#[trigger] traps@[j]) is None,
        decreases traps.len() - i,
    {
        proof {
            assert(traps@.take(i + 1).drop_last() =~= traps@.take(i as int));
            assert(traps@.take(i + 1).last() == traps@[i as int]);
        }
        if let Some(t) = traps[i] {
            proof {
                lemma_first_trap_stays(traps@, i + 1);
                assert(traps@[i as int] == Some(t));
            }
            return Some(t);
        }
        i = i + 1;
    }
    proof {
        assert(traps@.take(i as int) =~= traps@);
    }
    None
}

/// Once a trap was found, what follows does not matter.
proof fn lemma_first_trap_stays(traps: Seq<Option<wasmtime::Trap>>, k: int)
    requires
        0 <= k <= traps.len(),
        first_trap(traps.take(k)) is Some,
    ensures
        first_trap(traps) == first_trap(traps.take(k)),
    decreases traps.len(),
{
    if k < traps.len() {
        assert(traps.drop_last().take(k) =~= traps.take(k));
        lemma_first_trap_stays(traps.drop_last(), k);
    } else {
        assert(traps.take(k) =~= traps);
    }
}

/// The failure of the trap that an error holds itself, or else of the first one
/// among its causes.
pub open spec fn is_failure_of(
    r: Option<FailureMode>,
    own: Option<wasmtime::Trap>,
    chained: Option<wasmtime::Trap>,
) -> bool {
    match (own, chained) {
        (Some(t), _) => r is Some && r->0@ == trap_failure(t),
        (None, Some(t)) => r is Some && r->0@ == trap_failure(t),
        (None, None) => r is None,
    }
}

impl FailureMode {
    /// Short stable category for telemetry, logs and routing.
    pub fn category(&self) -> (r: &'static str)
        ensures
            r@ == self@.category(),
    {
        match self {
            FailureMode::Timeout { .. } => "TIMEOUT",
            FailureMode::FuelExhausted { .. } => "FUEL_EXHAUSTED",
            FailureMode::TrapUnreachable => "TRAP_UNREACHABLE",
            FailureMode::TrapDivByZero => "TRAP_DIV_BY_ZERO",
            FailureMode::TrapIntegerOverflow => "TRAP_INTEGER_OVERFLOW",
            FailureMode::TrapBadConversionToInteger => "TRAP_BAD_FLOAT_TO_INT",
            FailureMode::TrapStackOverflow => "TRAP_STACK_OVERFLOW",
            FailureMode::TrapMemoryOutOfBounds => "TRAP_MEMORY_OOB",
            FailureMode::TrapHeapMisaligned => "TRAP_HEAP_MISALIGNED",
            FailureMode::TrapTableOutOfBounds => "TRAP_TABLE_OOB",
            FailureMode::TrapIndirectCallToNull => "TRAP_INDIRECT_NULL",
            FailureMode::TrapBadSignature => "TRAP_BAD_SIGNATURE",
            FailureMode::TrapNullReference => "TRAP_NULL_REFERENCE",
            FailureMode::TrapCastFailure => "TRAP_CAST_FAILURE",
            FailureMode::TrapOther(_) => "TRAP_OTHER",
            FailureMode::MemoryLimitExceeded { .. } => "MEMORY_LIMIT_EXCEEDED",
            FailureMode::InvalidModule(_) => "INVALID_MODULE",
            FailureMode::MissingEntrypoint { .. } => "MISSING_ENTRYPOINT",
            FailureMode::HostError(_) => "HOST_ERROR",
        }
    }

    /// Description in one line, for an error log.
    pub fn describe(&self) -> (r: String)
        ensures
            r@ == self@.description(),
            text::one_line(r@),
            !r@.contains('\n'),
            !r@.contains('\r'),
    {
        proof {
            lemma_description_is_one_line(self@);
        }
        match self {
            FailureMode::Timeout { limit_ms, observed_ms } => text::cat5(
                "Execution exceeded ",
                text::to_decimal(*limit_ms).as_str(),
                "ms (observed ",
                text::to_decimal(*observed_ms).as_str(),
                "ms)",
            ),
            FailureMode::FuelExhausted { limit } => text::cat3(
                "Fuel budget of ",
                text::to_decimal(*limit).as_str(),
                " instructions exhausted",
            ),
            FailureMode::TrapUnreachable => "WASM `unreachable` instruction reached".to_string(),
            FailureMode::TrapDivByZero => "Integer division by zero".to_string(),
            FailureMode::TrapIntegerOverflow => "Integer overflow".to_string(),
            FailureMode::TrapBadConversionToInteger => "Invalid float-to-integer conversion".to_string(),
            FailureMode::TrapStackOverflow => "Call stack exhausted (recursion / stack budget)".to_string(),
            FailureMode::TrapMemoryOutOfBounds => "Out-of-bounds linear memory access".to_string(),
            FailureMode::TrapHeapMisaligned => "Unaligned atomic access".to_string(),
            FailureMode::TrapTableOutOfBounds => "Out-of-bounds table access".to_string(),
            FailureMode::TrapIndirectCallToNull => "Indirect call to a null table entry".to_string(),
            FailureMode::TrapBadSignature => "Indirect call signature mismatch".to_string(),
            FailureMode::TrapNullReference => "Null reference dereferenced".to_string(),
            FailureMode::TrapCastFailure => "Type cast failure on a reference".to_string(),
            FailureMode::TrapOther(s) => text::cat2("WASM trap: ", text::to_one_line(s.as_str()).as_str()),
            FailureMode::MemoryLimitExceeded { pages, limit_pages } => text::cat4(
                "WASM memory grew to ",
                text::to_decimal(*pages as u64).as_str(),
                " pages; limit is ",
                text::to_decimal(*limit_pages as u64).as_str(),
            ),
            FailureMode::InvalidModule(s) => text::cat2(
                "Invalid WASM module: ",
                text::to_one_line(s.as_str()).as_str(),
            ),
            FailureMode::MissingEntrypoint { expected } => text::cat3(
                "Module has no exported `",
                text::to_one_line(expected.as_str()).as_str(),
                "` function",
            ),
            FailureMode::HostError(s) => text::cat2("Host error: ", text::to_one_line(s.as_str()).as_str()),
        }
    }

    /// Whether the same inputs must fail again. Traps and load-time failures
    /// are; exhausted budgets and host errors are not.
    pub fn is_deterministic(&self) -> (r: bool)
        ensures
            r == !self@.retryable(),
    {
        matches!(
            self,
            FailureMode::TrapUnreachable
                | FailureMode::TrapDivByZero
                | FailureMode::TrapIntegerOverflow
                | FailureMode::TrapBadConversionToInteger
                | FailureMode::TrapMemoryOutOfBounds
                | FailureMode::TrapHeapMisaligned
                | FailureMode::TrapTableOutOfBounds
                | FailureMode::TrapIndirectCallToNull
                | FailureMode::TrapBadSignature
                | FailureMode::TrapNullReference
                | FailureMode::TrapCastFailure
                | FailureMode::TrapOther(_)
                | FailureMode::InvalidModule(_)
                | FailureMode::MissingEntrypoint { .. }
        )
    }

    /// Whether captured state has to be restored. Load-time failures changed
    /// no state.
    pub fn requires_rollback(&self) -> (r: bool)
        ensures
            r == !self@.load_time(),
    {
        !matches!(self, FailureMode::InvalidModule(_) | FailureMode::MissingEntrypoint { .. })
    }

    /// Classifies an error of the engine: the trap that it holds, or else the
    /// first trap among its causes; `None` if there is no trap.
    pub fn from_anyhow_error(err: &wasmtime::Error) -> (r: Option<FailureMode>)
        ensures
            is_failure_of(r, held_trap(*err), first_trap(cause_traps(*err))),
    {
        let causes = chain_of(err);
        FailureMode::from_traps(own_trap(err), find_trap(&causes))
    }

    /// The failure of the trap that an error holds itself, or else of the
    /// first one among its causes.
    pub fn from_traps(own: Option<wasmtime::Trap>, chained: Option<wasmtime::Trap>) -> (r: Option<
        FailureMode,
    >)
        ensures
            is_failure_of(r, own, chained),
    {
        match own {
            Some(t) => Some(FailureMode::from_wasmtime_trap(&t)),
            None => match chained {
                Some(t) => Some(FailureMode::from_wasmtime_trap(&t)),
                None => None,
            },
        }
    }

    /// Maps a trap of the engine into this taxonomy.
    pub fn from_wasmtime_trap(trap: &wasmtime::Trap) -> (r: FailureMode)
        ensures
            r@ == trap_failure(*trap),
    {
        match trap {
            wasmtime::Trap::UnreachableCodeReached => FailureMode::TrapUnreachable,
            wasmtime::Trap::IntegerDivisionByZero => FailureMode::TrapDivByZero,
            wasmtime::Trap::IntegerOverflow => FailureMode::TrapIntegerOverflow,
            wasmtime::Trap::BadConversionToInteger => FailureMode::TrapBadConversionToInteger,
            wasmtime::Trap::StackOverflow => FailureMode::TrapStackOverflow,
            wasmtime::Trap::MemoryOutOfBounds => FailureMode::TrapMemoryOutOfBounds,
            wasmtime::Trap::HeapMisaligned => FailureMode::TrapHeapMisaligned,
            wasmtime::Trap::TableOutOfBounds => FailureMode::TrapTableOutOfBounds,
            wasmtime::Trap::IndirectCallToNull => FailureMode::TrapIndirectCallToNull,
            wasmtime::Trap::BadSignature => FailureMode::TrapBadSignature,
            wasmtime::Trap::NullReference => FailureMode::TrapNullReference,
            wasmtime::Trap::CastFailure => FailureMode::TrapCastFailure,
            wasmtime::Trap::OutOfFuel => FailureMode::FuelExhausted { limit: 0 },
            wasmtime::Trap::Interrupt => FailureMode::TrapOther("Interrupt".to_string()),
            wasmtime::Trap::AlwaysTrapAdapter => FailureMode::TrapOther("AlwaysTrapAdapter".to_string()),
            wasmtime::Trap::AtomicWaitNonSharedMemory => FailureMode::TrapOther("AtomicWaitNonSharedMemory".to_string()),
            wasmtime::Trap::ArrayOutOfBounds => FailureMode::TrapOther("ArrayOutOfBounds".to_string()),
            wasmtime::Trap::AllocationTooLarge => FailureMode::TrapOther("AllocationTooLarge".to_string()),
            wasmtime::Trap::CannotEnterComponent => FailureMode::TrapOther("CannotEnterComponent".to_string()),
            wasmtime::Trap::NoAsyncResult => FailureMode::TrapOther("NoAsyncResult".to_string()),
            wasmtime::Trap::UnhandledTag => FailureMode::TrapOther("UnhandledTag".to_string()),
            wasmtime::Trap::ContinuationAlreadyConsumed => FailureMode::TrapOther("ContinuationAlreadyConsumed".to_string()),
            wasmtime::Trap::DisabledOpcode => FailureMode::TrapOther("DisabledOpcode".to_string()),
            wasmtime::Trap::AsyncDeadlock => FailureMode::TrapOther("AsyncDeadlock".to_string()),
            _ => FailureMode::TrapOther("".to_string()),
        }
    }
}

impl From<&FailureMode> for HealthStatus {
    fn from(mode: &FailureMode) -> (r: Self) {
        match mode {
            FailureMode::Timeout { .. } => HealthStatus::Timeout,
            FailureMode::FuelExhausted { .. } => HealthStatus::FuelExhausted,
            FailureMode::MemoryLimitExceeded { .. } => HealthStatus::ResourceExhausted,
            FailureMode::TrapStackOverflow => HealthStatus::ResourceExhausted,
            FailureMode::TrapUnreachable
            | FailureMode::TrapDivByZero
            | FailureMode::TrapIntegerOverflow
            | FailureMode::TrapBadConversionToInteger
            | FailureMode::TrapMemoryOutOfBounds
            | FailureMode::TrapHeapMisaligned
            | FailureMode::TrapTableOutOfBounds
            | FailureMode::TrapIndirectCallToNull
            | FailureMode::TrapBadSignature
            | FailureMode::TrapNullReference
            | FailureMode::TrapCastFailure
            | FailureMode::TrapOther(_) => HealthStatus::Trapped,
            FailureMode::InvalidModule(_) | FailureMode::MissingEntrypoint { .. } => {
                HealthStatus::InvalidModule
            },
            FailureMode::HostError(_) => HealthStatus::Corrupted,
        }
    }
}

impl vstd::std_specs::convert::FromSpecImpl<&FailureMode> for HealthStatus {
    open spec fn obeys_from_spec() -> bool {
        true
    }

    open spec fn from_spec(mode: &FailureMode) -> HealthStatus {
        mode@.status()
    }
}

/// The failure mode of a category's name, with empty details; `None` for a
/// name that is no category.
pub open spec fn failure_of_category(category: Seq<char>) -> Option<Failure> {
    if category == "TIMEOUT"@ {
        Some(Failure::Timeout { limit_ms: 0, observed_ms: 0 })
    } else if category == "FUEL_EXHAUSTED"@ {
        Some(Failure::FuelExhausted { limit: 0 })
    } else if category == "TRAP_UNREACHABLE"@ {
        Some(Failure::TrapUnreachable)
    } else if category == "TRAP_DIV_BY_ZERO"@ {
        Some(Failure::TrapDivByZero)
    } else if category == "TRAP_INTEGER_OVERFLOW"@ {
        Some(Failure::TrapIntegerOverflow)
    } else if category == "TRAP_BAD_FLOAT_TO_INT"@ {
        Some(Failure::TrapBadConversionToInteger)
    } else if category == "TRAP_STACK_OVERFLOW"@ {
        Some(Failure::TrapStackOverflow)
    } else if category == "TRAP_MEMORY_OOB"@ {
        Some(Failure::TrapMemoryOutOfBounds)
    } else if category == "TRAP_HEAP_MISALIGNED"@ {
        Some(Failure::TrapHeapMisaligned)
    } else if category == "TRAP_TABLE_OOB"@ {
        Some(Failure::TrapTableOutOfBounds)
    } else if category == "TRAP_INDIRECT_NULL"@ {
        Some(Failure::TrapIndirectCallToNull)
    } else if category == "TRAP_BAD_SIGNATURE"@ {
        Some(Failure::TrapBadSignature)
    } else if category == "TRAP_NULL_REFERENCE"@ {
        Some(Failure::TrapNullReference)
    } else if category == "TRAP_CAST_FAILURE"@ {
        Some(Failure::TrapCastFailure)
    } else if category == "TRAP_OTHER"@ {
        Some(Failure::TrapOther("TRAP_OTHER"@))
    } else if category == "MEMORY_LIMIT_EXCEEDED"@ {
        Some(Failure::MemoryLimitExceeded { pages: 0, limit_pages: 0 })
    } else if category == "INVALID_MODULE"@ {
        Some(Failure::InvalidModule(Seq::empty()))
    } else if category == "MISSING_ENTRYPOINT"@ {
        Some(Failure::MissingEntrypoint { expected: Seq::empty() })
    } else if category == "HOST_ERROR"@ {
        Some(Failure::HostError(Seq::empty()))
    } else {
        None
    }
}

/// Reads a category's name; the error names what was not recognised.
pub fn failure_mode_from_category(category: &str) -> (r: Result<FailureMode, String>)
    ensures
        match r {
            Ok(m) => failure_of_category(category@) == Some(m@),
            Err(e) => failure_of_category(category@) is None && e@
                == "unrecognised failure category '"@ + category@ + "'"@,
        },
{
    if text::same_text(category, "TIMEOUT") {
        Ok(FailureMode::Timeout { limit_ms: 0, observed_ms: 0 })
    } else if text::same_text(category, "FUEL_EXHAUSTED") {
        Ok(FailureMode::FuelExhausted { limit: 0 })
    } else if text::same_text(category, "TRAP_UNREACHABLE") {
        Ok(FailureMode::TrapUnreachable)
    } else if text::same_text(category, "TRAP_DIV_BY_ZERO") {
        Ok(FailureMode::TrapDivByZero)
    } else if text::same_text(category, "TRAP_INTEGER_OVERFLOW") {
        Ok(FailureMode::TrapIntegerOverflow)
    } else if text::same_text(category, "TRAP_BAD_FLOAT_TO_INT") {
        Ok(FailureMode::TrapBadConversionToInteger)
    } else if text::same_text(category, "TRAP_STACK_OVERFLOW") {
        Ok(FailureMode::TrapStackOverflow)
    } else if text::same_text(category, "TRAP_MEMORY_OOB") {
        Ok(FailureMode::TrapMemoryOutOfBounds)
    } else if text::same_text(category, "TRAP_HEAP_MISALIGNED") {
        Ok(FailureMode::TrapHeapMisaligned)
    } else if text::same_text(category, "TRAP_TABLE_OOB") {
        Ok(FailureMode::TrapTableOutOfBounds)
    } else if text::same_text(category, "TRAP_INDIRECT_NULL") {
        Ok(FailureMode::TrapIndirectCallToNull)
    } else if text::same_text(category, "TRAP_BAD_SIGNATURE") {
        Ok(FailureMode::TrapBadSignature)
    } else if text::same_text(category, "TRAP_NULL_REFERENCE") {
        Ok(FailureMode::TrapNullReference)
    } else if text::same_text(category, "TRAP_CAST_FAILURE") {
        Ok(FailureMode::TrapCastFailure)
    } else if text::same_text(category, "TRAP_OTHER") {
        Ok(FailureMode::TrapOther("TRAP_OTHER".to_string()))
    } else if text::same_text(category, "MEMORY_LIMIT_EXCEEDED") {
        Ok(FailureMode::MemoryLimitExceeded { pages: 0, limit_pages: 0 })
    } else if text::same_text(category, "INVALID_MODULE") {
        Ok(FailureMode::InvalidModule(String::new()))
    } else if text::same_text(category, "MISSING_ENTRYPOINT") {
        Ok(FailureMode::MissingEntrypoint { expected: String::new() })
    } else if text::same_text(category, "HOST_ERROR") {
        Ok(FailureMode::HostError(String::new()))
    } else {
        Err(text::cat3("unrecognised failure category '", category, "'"))
    }
}

/// The variant of a failure, as a number.
pub open spec fn variant_index(f: Failure) -> nat {
    match f {
        Failure::Timeout { .. } => 0,
        Failure::FuelExhausted { .. } => 1,
        Failure::TrapUnreachable => 2,
        Failure::TrapDivByZero => 3,
        Failure::TrapIntegerOverflow => 4,
        Failure::TrapBadConversionToInteger => 5,
        Failure::TrapStackOverflow => 6,
        Failure::TrapMemoryOutOfBounds => 7,
        Failure::TrapHeapMisaligned => 8,
        Failure::TrapTableOutOfBounds => 9,
        Failure::TrapIndirectCallToNull => 10,
        Failure::TrapBadSignature => 11,
        Failure::TrapNullReference => 12,
        Failure::TrapCastFailure => 13,
        Failure::TrapOther(_) => 14,
        Failure::MemoryLimitExceeded { .. } => 15,
        Failure::InvalidModule(_) => 16,
        Failure::MissingEntrypoint { .. } => 17,
        Failure::HostError(_) => 18,
    }
}

/// No two variants share a category, and the name of a category reads back as
/// its variant.
pub proof fn lemma_categories_distinct(a: Failure, b: Failure)
    ensures
        a.category() == b.category() ==> variant_index(a) == variant_index(b),
        failure_of_category(a.category()) is Some,
        variant_index(failure_of_category(a.category())->0) == variant_index(a),
{
    reveal_strlit("TIMEOUT");
    reveal_strlit("FUEL_EXHAUSTED");
    reveal_strlit("TRAP_UNREACHABLE");
    reveal_strlit("TRAP_DIV_BY_ZERO");
    reveal_strlit("TRAP_INTEGER_OVERFLOW");
    reveal_strlit("TRAP_BAD_FLOAT_TO_INT");
    reveal_strlit("TRAP_STACK_OVERFLOW");
    reveal_strlit("TRAP_MEMORY_OOB");
    reveal_strlit("TRAP_HEAP_MISALIGNED");
    reveal_strlit("TRAP_TABLE_OOB");
    reveal_strlit("TRAP_INDIRECT_NULL");
    reveal_strlit("TRAP_BAD_SIGNATURE");
    reveal_strlit("TRAP_NULL_REFERENCE");
    reveal_strlit("TRAP_CAST_FAILURE");
    reveal_strlit("TRAP_OTHER");
    reveal_strlit("MEMORY_LIMIT_EXCEEDED");
    reveal_strlit("INVALID_MODULE");
    reveal_strlit("MISSING_ENTRYPOINT");
    reveal_strlit("HOST_ERROR");
    if variant_index(a) != variant_index(b) {
        let s = a.category();
        let t = b.category();
        assert(s.len() != t.len() || s[5] != t[5]);
    }
    let g = failure_of_category(a.category())->0;
    assert(g.category() == a.category());
    if variant_index(a) != variant_index(g) {
        let s = a.category();
        let t = g.category();
        assert(s.len() != t.len() || s[5] != t[5]);
    }
}

/// Two traps of the engine are told apart by their categories, unless neither
/// has a category of its own; and then the names that they keep tell them
/// apart, for as long as the engine's list of traps stands.
pub proof fn lemma_traps_kept_apart(a: wasmtime::Trap, b: wasmtime::Trap)
    ensures
        trap_failure(a).category() == trap_failure(b).category() ==> a == b || (trap_failure(
            a,
        ) is TrapOther && trap_failure(b) is TrapOther),
        (trap_failure(a) is TrapOther) == (trap_failure(a).category() == "TRAP_OTHER"@),
        trap_failure(a) == trap_failure(b) && trap_failure(a)->TrapOther_0 != ""@ ==> a == b,
{
    lemma_categories_distinct(trap_failure(a), trap_failure(b));
    lemma_categories_distinct(trap_failure(a), Failure::TrapOther(""@));
    reveal_strlit("");
    reveal_strlit("Interrupt");
    reveal_strlit("AlwaysTrapAdapter");
    reveal_strlit("AtomicWaitNonSharedMemory");
    reveal_strlit("ArrayOutOfBounds");
    reveal_strlit("AllocationTooLarge");
    reveal_strlit("CannotEnterComponent");
    reveal_strlit("NoAsyncResult");
    reveal_strlit("UnhandledTag");
    reveal_strlit("ContinuationAlreadyConsumed");
    reveal_strlit("DisabledOpcode");
    reveal_strlit("AsyncDeadlock");
    if trap_failure(a) is TrapOther && trap_failure(b) is TrapOther {
        let s = trap_failure(a)->TrapOther_0;
        let t = trap_failure(b)->TrapOther_0;
        if s == t && s.len() > 0 {
            assert(s[0] == t[0]);
            assert(s[3] == t[3]);
        }
    }
}

/// A trap is deterministic and counts as trapped, but for the two that mean a
/// budget was used up: the stack, and the fuel. No trap is a load-time failure,
/// an error of the host or a timeout, so each of them asks for a rollback.
pub proof fn lemma_traps_are_deterministic(t: wasmtime::Trap)
    ensures
        trap_failure(t).retryable() <==> t == wasmtime::Trap::StackOverflow || t
            == wasmtime::Trap::OutOfFuel,
        trap_failure(t).status() == HealthStatus::Trapped <==> t != wasmtime::Trap::StackOverflow
            && t != wasmtime::Trap::OutOfFuel,
        trap_failure(t).status() == HealthStatus::ResourceExhausted <==> t
            == wasmtime::Trap::StackOverflow,
        trap_failure(t).status() == HealthStatus::FuelExhausted <==> t
            == wasmtime::Trap::OutOfFuel,
        trap_failure(t) is FuelExhausted <==> t == wasmtime::Trap::OutOfFuel,
        trap_failure(t).status().rolls_back(),
        !trap_failure(t).load_time(),
        !(trap_failure(t) is HostError),
        !(trap_failure(t) is Timeout),
{
}

/// Each trap with a category of its own comes under the category that names it.
pub proof fn lemma_traps_named_for_what_they_are(t: wasmtime::Trap)
    ensures
        t == wasmtime::Trap::UnreachableCodeReached <==> trap_failure(t).category()
            == "TRAP_UNREACHABLE"@,
        t == wasmtime::Trap::IntegerDivisionByZero <==> trap_failure(t).category()
            == "TRAP_DIV_BY_ZERO"@,
        t == wasmtime::Trap::IntegerOverflow <==> trap_failure(t).category()
            == "TRAP_INTEGER_OVERFLOW"@,
        t == wasmtime::Trap::BadConversionToInteger <==> trap_failure(t).category()
            == "TRAP_BAD_FLOAT_TO_INT"@,
        t == wasmtime::Trap::StackOverflow <==> trap_failure(t).category()
            == "TRAP_STACK_OVERFLOW"@,
        t == wasmtime::Trap::MemoryOutOfBounds <==> trap_failure(t).category()
            == "TRAP_MEMORY_OOB"@,
        t == wasmtime::Trap::HeapMisaligned <==> trap_failure(t).category()
            == "TRAP_HEAP_MISALIGNED"@,
        t == wasmtime::Trap::TableOutOfBounds <==> trap_failure(t).category() == "TRAP_TABLE_OOB"@,
        t == wasmtime::Trap::IndirectCallToNull <==> trap_failure(t).category()
            == "TRAP_INDIRECT_NULL"@,
        t == wasmtime::Trap::BadSignature <==> trap_failure(t).category() == "TRAP_BAD_SIGNATURE"@,
        t == wasmtime::Trap::NullReference <==> trap_failure(t).category()
            == "TRAP_NULL_REFERENCE"@,
        t == wasmtime::Trap::CastFailure <==> trap_failure(t).category() == "TRAP_CAST_FAILURE"@,
        t == wasmtime::Trap::OutOfFuel <==> trap_failure(t).category() == "FUEL_EXHAUSTED"@,
{
    lemma_traps_kept_apart(t, wasmtime::Trap::UnreachableCodeReached);
    lemma_traps_kept_apart(t, wasmtime::Trap::IntegerDivisionByZero);
    lemma_traps_kept_apart(t, wasmtime::Trap::IntegerOverflow);
    lemma_traps_kept_apart(t, wasmtime::Trap::BadConversionToInteger);
    lemma_traps_kept_apart(t, wasmtime::Trap::StackOverflow);
    lemma_traps_kept_apart(t, wasmtime::Trap::MemoryOutOfBounds);
    lemma_traps_kept_apart(t, wasmtime::Trap::HeapMisaligned);
    lemma_traps_kept_apart(t, wasmtime::Trap::TableOutOfBounds);
    lemma_traps_kept_apart(t, wasmtime::Trap::IndirectCallToNull);
    lemma_traps_kept_apart(t, wasmtime::Trap::BadSignature);
    lemma_traps_kept_apart(t, wasmtime::Trap::NullReference);
    lemma_traps_kept_apart(t, wasmtime::Trap::CastFailure);
    lemma_traps_kept_apart(t, wasmtime::Trap::OutOfFuel);
}

/// An error of the engine that holds a trap is classified by that trap, which
/// prevails over those of its causes; among causes the first trap decides, and
/// an error without any trap is no classified failure.
pub proof fn lemma_first_trap_decides(
    r: Option<FailureMode>,
    own: Option<wasmtime::Trap>,
    causes: Seq<Option<wasmtime::Trap>>,
    k: int,
)
    requires
        is_failure_of(r, own, first_trap(causes)),
        0 <= k < causes.len(),
        forall|j: int| 0 <= j < k ==> (#[trigger] causes[j]) is None,
    ensures
        own is Some ==> r is Some && r->0@ == trap_failure(own->0),
        own is None && causes[k] is Some ==> r is Some && r->0@ == trap_failure(causes[k]->0),
        own is None && (forall|j: int| 0 <= j < causes.len() ==> (#[trigger] causes[j]) is None)
            ==> r is None,
{
    lemma_no_trap_before(causes, k);
    if causes[k] is Some {
        assert(causes.take(k + 1).drop_last() =~= causes.take(k));
        lemma_first_trap_stays(causes, k + 1);
    }
    if forall|j: int| 0 <= j < causes.len() ==> (#[trigger] causes[j]) is None {
        lemma_no_trap_before(causes, causes.len() as int);
        assert(causes.take(causes.len() as int) =~= causes);
    }
}

/// Where no cause is a trap, there is no first one.
proof fn lemma_no_trap_before(causes: Seq<Option<wasmtime::Trap>>, k: int)
    requires
        0 <= k <= causes.len(),
        forall|j: int| 0 <= j < k ==> (#[trigger] causes[j]) is None,
    ensures
        first_trap(causes.take(k)) is None,
    decreases k,
{
    if k > 0 {
        lemma_no_trap_before(causes, k - 1);
        assert(causes.take(k).drop_last() =~= causes.take(k - 1));
        assert(causes.take(k).last() == causes[k - 1]);
    }
}

/// Another attempt is worth its while exactly where a budget ran out or the
/// host failed: where the status says so. A trapped or invalid module stays
/// what it is.
pub proof fn lemma_retry_where_a_budget_ran_out(f: Failure)
    ensures
        f.retryable() <==> f.status() == HealthStatus::Timeout || f.status()
            == HealthStatus::FuelExhausted || f.status() == HealthStatus::ResourceExhausted
            || f.status() == HealthStatus::Corrupted,
        f.status() == HealthStatus::Timeout <==> f is Timeout,
        f.status() == HealthStatus::FuelExhausted <==> f is FuelExhausted,
        f.status() == HealthStatus::ResourceExhausted <==> f is MemoryLimitExceeded
            || f is TrapStackOverflow,
        f.status() == HealthStatus::InvalidModule <==> f is InvalidModule
            || f is MissingEntrypoint,
        f.load_time() <==> f.category() == "INVALID_MODULE"@ || f.category()
            == "MISSING_ENTRYPOINT"@,
{
    lemma_categories_distinct(f, Failure::InvalidModule(""@));
    lemma_categories_distinct(f, Failure::MissingEntrypoint { expected: ""@ });
}

/// What a failure measured stands in its description, each number beside the
/// words that say what it measures.
pub proof fn lemma_descriptions_tell_details(f: Failure)
    ensures
        f matches Failure::Timeout { limit_ms, observed_ms } ==> text::has_text(
            f.description(),
            "exceeded "@ + text::decimal(limit_ms) + "ms"@,
        ) && text::has_text(f.description(), "observed "@ + text::decimal(observed_ms) + "ms"@),
        f matches Failure::FuelExhausted { limit } ==> text::has_text(
            f.description(),
            "budget of "@ + text::decimal(limit) + " instructions"@,
        ),
        f matches Failure::MemoryLimitExceeded { pages, limit_pages } ==> text::has_text(
            f.description(),
            "grew to "@ + text::decimal(pages) + " pages"@,
        ) && text::has_text(f.description(), "limit is "@ + text::decimal(limit_pages)),
{
    match f {
        Failure::Timeout { limit_ms, observed_ms } => {
            lemma_timeout_told(text::decimal(limit_ms), text::decimal(observed_ms));
        },
        Failure::FuelExhausted { limit } => {
            lemma_fuel_told(text::decimal(limit));
        },
        Failure::MemoryLimitExceeded { pages, limit_pages } => {
            lemma_memory_told(text::decimal(pages), text::decimal(limit_pages));
        },
        _ => {},
    }
}

proof fn lemma_timeout_told(limit: Seq<char>, observed: Seq<char>)
    ensures
        text::has_text(
            "Execution exceeded "@ + limit + "ms (observed "@ + observed + "ms)"@,
            "exceeded "@ + limit + "ms"@,
        ),
        text::has_text(
            "Execution exceeded "@ + limit + "ms (observed "@ + observed + "ms)"@,
            "observed "@ + observed + "ms"@,
        ),
{
    assert("Execution exceeded "@ =~= "Execution "@ + "exceeded "@) by {
        reveal_strlit("Execution exceeded ");
        reveal_strlit("Execution ");
        reveal_strlit("exceeded ");
    }
    assert("ms (observed "@ =~= "ms"@ + " (observed "@ && "ms (observed "@ =~= "ms ("@
        + "observed "@) by {
        reveal_strlit("ms (observed ");
        reveal_strlit("ms");
        reveal_strlit(" (observed ");
        reveal_strlit("ms (");
        reveal_strlit("observed ");
    }
    assert("ms)"@ =~= "ms"@ + ")"@) by {
        reveal_strlit("ms)");
        reveal_strlit("ms");
        reveal_strlit(")");
    }
    let whole = "Execution exceeded "@ + limit + "ms (observed "@ + observed + "ms)"@;
    text::lemma_middle_is_held("Execution "@, "exceeded "@, limit, "ms"@, " (observed "@);
    let head = "Execution exceeded "@ + limit + "ms (observed "@;
    text::lemma_held_in_longer(
        Seq::empty(),
        head,
        observed + "ms)"@,
        "exceeded "@ + limit + "ms"@,
    );
    assert(whole =~= head + (observed + "ms)"@));
    text::lemma_middle_is_held("ms ("@, "observed "@, observed, "ms"@, ")"@);
    let tail = "ms (observed "@ + observed + "ms)"@;
    text::lemma_held_in_longer(
        "Execution exceeded "@ + limit,
        tail,
        Seq::empty(),
        "observed "@ + observed + "ms"@,
    );
    assert(whole =~= ("Execution exceeded "@ + limit) + tail);
}

proof fn lemma_fuel_told(limit: Seq<char>)
    ensures
        text::has_text(
            "Fuel budget of "@ + limit + " instructions exhausted"@,
            "budget of "@ + limit + " instructions"@,
        ),
{
    reveal_strlit("Fuel budget of ");
    reveal_strlit("Fuel ");
    reveal_strlit("budget of ");
    reveal_strlit(" instructions exhausted");
    reveal_strlit(" instructions");
    reveal_strlit(" exhausted");
    let part = "budget of "@ + limit + " instructions"@;
    text::lemma_part_is_held("Fuel "@, part, " exhausted"@);
    assert("Fuel budget of "@ + limit + " instructions exhausted"@ =~= "Fuel "@ + part
        + " exhausted"@);
}

proof fn lemma_memory_told(pages: Seq<char>, limit_pages: Seq<char>)
    ensures
        text::has_text(
            "WASM memory grew to "@ + pages + " pages; limit is "@ + limit_pages,
            "grew to "@ + pages + " pages"@,
        ),
        text::has_text(
            "WASM memory grew to "@ + pages + " pages; limit is "@ + limit_pages,
            "limit is "@ + limit_pages,
        ),
{
    assert("WASM memory grew to "@ =~= "WASM memory "@ + "grew to "@) by {
        reveal_strlit("WASM memory grew to ");
        reveal_strlit("WASM memory ");
        reveal_strlit("grew to ");
    }
    assert(" pages; limit is "@ =~= " pages"@ + "; limit is "@ && " pages; limit is "@
        =~= " pages; "@ + "limit is "@) by {
        reveal_strlit(" pages; limit is ");
        reveal_strlit(" pages");
        reveal_strlit("; limit is ");
        reveal_strlit(" pages; ");
        reveal_strlit("limit is ");
    }
    text::lemma_middle_is_held("WASM memory "@, "grew to "@, pages, " pages"@, "; limit is "@);
    text::lemma_held_in_longer(
        Seq::empty(),
        "WASM memory grew to "@ + pages + " pages; limit is "@,
        limit_pages,
        "grew to "@ + pages + " pages"@,
    );
    lemma_tail_told("WASM memory grew to "@ + pages, " pages; "@, "limit is "@, limit_pages);
}

proof fn lemma_tail_told(lead: Seq<char>, far: Seq<char>, near: Seq<char>, x: Seq<char>)
    ensures
        text::has_text(lead + (far + near) + x, near + x),
{
    let whole = lead + (far + near) + x;
    let start: int = (lead.len() + far.len()) as int;
    assert(whole.subrange(start, start + (near + x).len()) =~= near + x);
    assert(text::text_at(whole, near + x, start));
}

/// The rollback decision is the same whether it is taken from the failure or
/// from its status, and no failure counts as healthy.
pub proof fn lemma_rollback_decisions_agree(f: Failure)
    ensures
        f.status().rolls_back() == !f.load_time(),
        !f.status().healthy(),
{
}

/// Load-time failures need no rollback and never succeed on a second try.
pub proof fn lemma_load_time_failures(f: Failure)
    requires
        f.load_time(),
    ensures
        !f.retryable(),
        f.status() == HealthStatus::InvalidModule,
        !f.status().rolls_back(),
{
}

/// Only a host error counts as corruption.
pub proof fn lemma_only_host_errors_corrupt(f: Failure)
    ensures
        f.status() == HealthStatus::Corrupted <==> f is HostError,
{
}

/// A copy of a failure mode.
pub fn clone_mode(mode: &FailureMode) -> (r: FailureMode)
    ensures
        r@ == mode@,
{
    match mode {
        FailureMode::Timeout { limit_ms, observed_ms } => FailureMode::Timeout {
            limit_ms: *limit_ms,
            observed_ms: *observed_ms,
        },
        FailureMode::FuelExhausted { limit } => FailureMode::FuelExhausted { limit: *limit },
        FailureMode::TrapUnreachable => FailureMode::TrapUnreachable,
        FailureMode::TrapDivByZero => FailureMode::TrapDivByZero,
        FailureMode::TrapIntegerOverflow => FailureMode::TrapIntegerOverflow,
        FailureMode::TrapBadConversionToInteger => FailureMode::TrapBadConversionToInteger,
        FailureMode::TrapStackOverflow => FailureMode::TrapStackOverflow,
        FailureMode::TrapMemoryOutOfBounds => FailureMode::TrapMemoryOutOfBounds,
        FailureMode::TrapHeapMisaligned => FailureMode::TrapHeapMisaligned,
        FailureMode::TrapTableOutOfBounds => FailureMode::TrapTableOutOfBounds,
        FailureMode::TrapIndirectCallToNull => FailureMode::TrapIndirectCallToNull,
        FailureMode::TrapBadSignature => FailureMode::TrapBadSignature,
        FailureMode::TrapNullReference => FailureMode::TrapNullReference,
        FailureMode::TrapCastFailure => FailureMode::TrapCastFailure,
        FailureMode::TrapOther(s) => FailureMode::TrapOther(s.clone()),
        FailureMode::MemoryLimitExceeded { pages, limit_pages } => FailureMode::MemoryLimitExceeded {
            pages: *pages,
            limit_pages: *limit_pages,
        },
        FailureMode::InvalidModule(s) => FailureMode::InvalidModule(s.clone()),
        FailureMode::MissingEntrypoint { expected } => FailureMode::MissingEntrypoint {
            expected: expected.clone(),
        },
        FailureMode::HostError(s) => FailureMode::HostError(s.clone()),
    }
}

} // verus!
