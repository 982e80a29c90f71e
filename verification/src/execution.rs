//! Entry-point execution driver: prepares a virtual-machine call, accounts for
//! its resources, and extracts its results.
//!
//! The virtual machine itself is an external collaborator reached through a
//! narrow interface. Its observable state — segmented memory, the relocated
//! trace, the return-value stack — is carried here as plain data, and the
//! driver's decisions over that data are verified: which arguments are pushed
//! and in which order, which program counters count as visited, how return
//! values are validated, and how gas and resources are charged.

use vstd::prelude::*;

use crate::transaction::Calldata;
use crate::types::{ClassHash, ContractAddress, Felt, GasAmount};

verus! {

/// A builtin of the virtual machine.
#[derive(Clone, Copy, Debug, PartialEq, Eq, Structural)]
pub enum BuiltinName {
    Output,
    Pedersen,
    RangeCheck,
    Ecdsa,
    Bitwise,
    EcOp,
    Keccak,
    Poseidon,
    SegmentArena,
    RangeCheck96,
    AddMod,
    MulMod,
}

/// A value in the virtual machine's memory: a field element or a pointer into
/// a segment.
#[derive(Clone, Copy, Debug, PartialEq, Eq, Structural)]
pub enum VmValue {
    Int(Felt),
    Ptr { segment: usize, offset: usize },
}

/// One segment of the virtual machine's memory: write-once cells, each
/// possibly unset, with a parallel record of which cells the OS is considered
/// to have accessed.
#[derive(Clone, Debug, PartialEq, Eq)]
pub struct MemorySegment {
    pub cells: Vec<Option<VmValue>>,
    pub accessed: Vec<bool>,
}

/// The virtual machine's segmented memory, with the per-segment used sizes the
/// runner computes after a run.
#[derive(Clone, Debug, PartialEq, Eq)]
pub struct VmMemory {
    pub segments: Vec<MemorySegment>,
    pub segment_used_sizes: Vec<usize>,
}

/// Errors of the memory model.
#[derive(Clone, Copy, Debug, PartialEq, Eq, Structural)]
pub enum MemoryError {
    /// An occupied cell was written with a different value.
    InconsistentMemory,
}

impl VmMemory {
    /// The value held at `(segment, offset)`, if set.
    pub open spec fn spec_read(&self, segment: int, offset: int) -> Option<VmValue> {
        if 0 <= segment < self.segments@.len() && 0 <= offset < self.segments@[segment].cells@.len()
        {
            self.segments@[segment].cells@[offset]
        } else {
            None
        }
    }

    pub fn new() -> (r: VmMemory)
        ensures
            r.segments@.len() == 0,
            r.segment_used_sizes@.len() == 0,
    {
        VmMemory { segments: Vec::new(), segment_used_sizes: Vec::new() }
    }

    /// Adds a fresh, empty segment and returns its index.
    pub fn add_segment(&mut self) -> (r: usize)
        requires
            old(self).segment_used_sizes@.len() == old(self).segments@.len(),
        ensures
            r == old(self).segments@.len(),
            final (self).segments@.len() == old(self).segments@.len() + 1,
            forall|i: int|
                0 <= i < old(self).segments@.len() ==> final (self).segments@[i] == old(
                    self,
                ).segments@[i],
            final (self).segments@.last().cells@.len() == 0,
            final (self).segments@.last().accessed@.len() == 0,
            final (self).segment_used_sizes@ == old(self).segment_used_sizes@.push(0usize),
    {
        let r = self.segments.len();
        self.segments.push(MemorySegment { cells: Vec::new(), accessed: Vec::new() });
        self.segment_used_sizes.push(0);
        r
    }

    pub fn read(&self, segment: usize, offset: usize) -> (r: Option<VmValue>)
        ensures
            r == self.spec_read(segment as int, offset as int),
    {
        if segment < self.segments.len() {
            let seg = &self.segments[segment];
            if offset < seg.cells.len() {
                return seg.cells[offset];
            }
        }
        None
    }

    /// Writes `v` at `(segment, offset)`, extending the segment with unset
    /// cells as needed. Fails, changing nothing, if and only if the cell
    /// already holds a different value.
    pub fn insert_value(&mut self, segment: usize, offset: usize, v: VmValue) -> (r: Result<
        (),
        MemoryError,
    >)
        requires
            segment < old(self).segments@.len(),
            offset < usize::MAX,
        ensures
            r is Ok <==> !(old(self).spec_read(segment as int, offset as int) matches Some(w)
                && w != v),
            r is Ok ==> {
                &&& final (self).segments@.len() == old(self).segments@.len()
                &&& final (self).spec_read(segment as int, offset as int) == Some(v)
                &&& final (self).segments@[segment as int].cells@.len() == if offset + 1 > old(
                    self,
                ).segments@[segment as int].cells@.len() {
                    offset + 1
                } else {
                    old(self).segments@[segment as int].cells@.len() as int
                }
                &&& forall|i: int|
                    0 <= i < old(self).segments@.len() && i != segment ==> final (self).segments@[i]
                        == old(self).segments@[i]
                &&& forall|o: int|
                    0 <= o && o != offset ==> final (self).spec_read(segment as int, o) == old(
                        self,
                    ).spec_read(segment as int, o)
                &&& final (self).segments@[segment as int].accessed == old(
                    self,
                ).segments@[segment as int].accessed
                &&& final (self).segment_used_sizes == old(self).segment_used_sizes
            },
            r is Err ==> *final (self) == *old(self),
    {
        let seg_len = self.segments[segment].cells.len();
        if offset < seg_len {
            match self.segments[segment].cells[offset] {
                Some(w) => {
                    if w == v {
                        return Ok(());
                    }
                    return Err(MemoryError::InconsistentMemory);
                },
                None => {},
            }
        }
        let seg = &mut self.segments[segment];
        while seg.cells.len() <= offset
            invariant
                offset < usize::MAX,
                seg.cells@.len() <= if old(self).segments@[segment as int].cells@.len() > offset {
                    old(self).segments@[segment as int].cells@.len() as int
                } else {
                    offset + 1
                },
                seg.accessed == old(self).segments@[segment as int].accessed,
                forall|o: int|
                    0 <= o < old(self).segments@[segment as int].cells@.len()
                        ==> seg.cells@[o] == old(self).segments@[segment as int].cells@[o],
                old(self).segments@[segment as int].cells@.len() <= seg.cells@.len(),
                forall|o: int|
                    old(self).segments@[segment as int].cells@.len() <= o < seg.cells@.len()
                        ==> seg.cells@[o] is None,
            decreases offset + 1 - seg.cells@.len(),
        {
            seg.cells.push(None);
        }
        seg.cells.set(offset, Some(v));
        Ok(())
    }

    /// Marks `n` cells starting at `(segment, start)` as accessed, extending
    /// the record as needed. Cell values are unchanged.
    pub fn mark_address_range_as_accessed(&mut self, segment: usize, start: usize, n: usize)
        requires
            segment < old(self).segments@.len(),
            start + n <= usize::MAX,
        ensures
            final (self).segments@.len() == old(self).segments@.len(),
            forall|i: int|
                0 <= i < old(self).segments@.len() && i != segment ==> final (self).segments@[i]
                    == old(self).segments@[i],
            final (self).segments@[segment as int].cells == old(
                self,
            ).segments@[segment as int].cells,
            forall|o: int|
                start <= o < start + n ==> final (self).spec_accessed(segment as int, o),
            forall|o: int|
                0 <= o && !(start <= o < start + n) ==> final (self).spec_accessed(
                    segment as int,
                    o,
                ) == old(self).spec_accessed(segment as int, o),
            final (self).segment_used_sizes == old(self).segment_used_sizes,
    {
        let seg = &mut self.segments[segment];
        let end = start + n;
        while seg.accessed.len() < end
            invariant
                end <= usize::MAX,
                seg.cells == old(self).segments@[segment as int].cells,
                forall|o: int|
                    0 <= o < old(self).segments@[segment as int].accessed@.len()
                        ==> seg.accessed@[o] == old(self).segments@[segment as int].accessed@[o],
                old(self).segments@[segment as int].accessed@.len() <= seg.accessed@.len(),
                forall|o: int|
                    old(self).segments@[segment as int].accessed@.len() <= o < seg.accessed@.len()
                        ==> seg.accessed@[o] == false,
            decreases end - seg.accessed@.len(),
        {
            seg.accessed.push(false);
        }
        let mut i = start;
        while i < end
            invariant
                start <= i <= end,
                end <= seg.accessed@.len(),
                seg.cells == old(self).segments@[segment as int].cells,
                seg.accessed@.len() >= old(self).segments@[segment as int].accessed@.len(),
                forall|o: int| start <= o < i ==> seg.accessed@[o],
                forall|o: int|
                    0 <= o < seg.accessed@.len() && !(start <= o < i) ==> seg.accessed@[o] == (if o
                        < old(self).segments@[segment as int].accessed@.len() {
                        old(self).segments@[segment as int].accessed@[o]
                    } else {
                        false
                    }),
            decreases end - i,
        {
            seg.accessed.set(i, true);
            i += 1;
        }
    }

    /// Whether the cell at `(segment, offset)` is marked accessed.
    pub open spec fn spec_accessed(&self, segment: int, offset: int) -> bool {
        &&& 0 <= segment < self.segments@.len()
        &&& 0 <= offset < self.segments@[segment].accessed@.len()
        &&& self.segments@[segment].accessed@[offset]
    }
}

/// The resource-accounting mode of a call: step-based or gas-based.
#[derive(Clone, Copy, Debug, PartialEq, Eq, Structural)]
pub enum TrackedResource {
    CairoSteps,
    SierraGas,
}

/// Counters of builtin instances used by a run. A builtin that was not used
/// counts zero.
#[derive(Clone, Copy, Debug, PartialEq, Eq, Structural)]
pub struct BuiltinCounters {
    pub pedersen: u64,
    pub bitwise: u64,
    pub ec_op: u64,
    pub poseidon: u64,
    pub add_mod: u64,
    pub mul_mod: u64,
    pub segment_arena: u64,
}

impl BuiltinCounters {
    pub fn zeroed() -> (r: BuiltinCounters)
        ensures
            r == BuiltinCounters::spec_zeroed(),
    {
        BuiltinCounters {
            pedersen: 0,
            bitwise: 0,
            ec_op: 0,
            poseidon: 0,
            add_mod: 0,
            mul_mod: 0,
            segment_arena: 0,
        }
    }

    pub open spec fn spec_zeroed() -> BuiltinCounters {
        BuiltinCounters {
            pedersen: 0,
            bitwise: 0,
            ec_op: 0,
            poseidon: 0,
            add_mod: 0,
            mul_mod: 0,
            segment_arena: 0,
        }
    }
}

/// The virtual machine's resource report for a run.
#[derive(Clone, Copy, Debug, PartialEq, Eq, Structural)]
pub struct ExecutionResources {
    pub n_steps: u64,
    pub n_memory_holes: u64,
    pub builtin_instance_counter: BuiltinCounters,
}

impl ExecutionResources {
    pub fn zeroed() -> (r: ExecutionResources)
        ensures
            r == ExecutionResources::spec_zeroed(),
    {
        ExecutionResources {
            n_steps: 0,
            n_memory_holes: 0,
            builtin_instance_counter: BuiltinCounters::zeroed(),
        }
    }

    pub open spec fn spec_zeroed() -> ExecutionResources {
        ExecutionResources {
            n_steps: 0,
            n_memory_holes: 0,
            builtin_instance_counter: BuiltinCounters::spec_zeroed(),
        }
    }
}

/// The resources charged to a call: virtual-machine resources plus the gas
/// counted toward fees.
#[derive(Clone, Copy, Debug, PartialEq, Eq, Structural)]
pub struct ChargedResources {
    pub vm_resources: ExecutionResources,
    pub gas_for_fee: GasAmount,
}

/// The call request handed to the driver.
#[derive(Clone, Debug, PartialEq, Eq)]
pub struct CallEntryPoint {
    pub class_hash: Option<ClassHash>,
    pub entry_point_selector: Felt,
    pub calldata: Calldata,
    pub initial_gas: u64,
}

/// What a call's execution produced.
#[derive(Clone, Debug, PartialEq, Eq)]
pub struct CallExecution {
    pub retdata: Vec<Felt>,
    pub events: u64,
    pub l2_to_l1_messages: u64,
    pub failed: bool,
    pub gas_consumed: u64,
}

/// The full record of a call: its request, its execution, its inner calls and
/// the resources charged to it. One root per entry point; children in call
/// order.
#[derive(Debug, PartialEq, Eq)]
pub struct CallInfo {
    pub call: CallEntryPoint,
    pub execution: CallExecution,
    pub inner_calls: Vec<CallInfo>,
    pub tracked_resource: TrackedResource,
    pub charged_resources: ChargedResources,
    pub storage_read_values: Vec<Felt>,
    pub accessed_storage_keys: Vec<Felt>,
    pub accessed_contract_addresses: Vec<ContractAddress>,
    pub read_class_hash_values: Vec<ClassHash>,
}

/// The summary of one transaction's execution, as the block records it.
#[derive(Clone, Copy, Debug, PartialEq, Eq, Hash, Structural)]
pub struct TxExecutionInfo {
    pub revert_happened: bool,
    pub gas_consumed: u64,
}

/// The immediate result of a run, before inner calls are folded in.
#[derive(Clone, Debug, PartialEq, Eq)]
pub struct CallResult {
    pub failed: bool,
    pub retdata: Vec<Felt>,
    pub gas_consumed: u64,
}

/// The sum of the gas consumed by a sequence of calls.
pub open spec fn sum_inner_gas(calls: Seq<CallInfo>) -> int
    decreases calls.len(),
{
    if calls.len() == 0 {
        0
    } else {
        sum_inner_gas(calls.drop_last()) + calls.last().execution.gas_consumed
    }
}

/// Every partial sum of gas is bounded by the total.
proof fn lemma_sum_inner_gas_prefix(calls: Seq<CallInfo>, i: int)
    requires
        0 <= i <= calls.len(),
    ensures
        sum_inner_gas(calls.take(i)) <= sum_inner_gas(calls),
        sum_inner_gas(calls) <= sum_inner_gas(calls.take(i)) + (calls.len() - i) * (u64::MAX
            as int),
    decreases calls.len() - i,
{
    if i == calls.len() {
        assert(calls.take(i) =~= calls);
    } else {
        lemma_sum_inner_gas_prefix(calls, i + 1);
        assert(calls.take(i + 1).drop_last() =~= calls.take(i));
        assert(calls.take(i + 1).last() == calls[i]);
        assert((calls.len() - i) * (u64::MAX as int) == (calls.len() - (i + 1)) * (u64::MAX as int)
            + (u64::MAX as int)) by (nonlinear_arith);
    }
}

/// Calculates the gas consumed in the current call, without its inner calls.
///
/// Under step accounting no Sierra gas is charged. Under gas accounting the
/// current call is charged what it consumed minus what its inner calls
/// consumed; an underflow there would mean the books were already corrupt, so
/// such inputs are excluded.
pub fn gas_consumed_without_inner_calls(
    tracked_resource: &TrackedResource,
    gas_consumed: u64,
    inner_calls: &Vec<CallInfo>,
) -> (r: GasAmount)
    requires
        *tracked_resource is SierraGas ==> sum_inner_gas(inner_calls@) <= gas_consumed,
    ensures
        *tracked_resource is CairoSteps ==> r.0 == 0,
        *tracked_resource is SierraGas ==> r.0 + sum_inner_gas(inner_calls@) == gas_consumed,
{
    match tracked_resource {
        TrackedResource::CairoSteps => GasAmount(0),
        TrackedResource::SierraGas => {
            let mut total: u64 = 0;
            let mut i: usize = 0;
            while i < inner_calls.len()
                invariant
                    0 <= i <= inner_calls@.len(),
                    total == sum_inner_gas(inner_calls@.take(i as int)),
                    sum_inner_gas(inner_calls@) <= gas_consumed,
                decreases inner_calls@.len() - i,
            {
                proof {
                    lemma_sum_inner_gas_prefix(inner_calls@, i + 1);
                    assert(inner_calls@.take(i + 1).drop_last() =~= inner_calls@.take(i as int));
                    assert(inner_calls@.take(i + 1).last() == inner_calls@[i as int]);
                }
                total = total + inner_calls[i].execution.gas_consumed;
                i += 1;
            }
            proof {
                assert(inner_calls@.take(inner_calls@.len() as int) =~= inner_calls@);
            }
            GasAmount(gas_consumed - total)
        },
    }
}

/// Errors raised before the virtual machine runs.
#[derive(Clone, Copy, Debug, PartialEq, Eq, Structural)]
pub enum PreExecutionError {
    /// The requested selector has no entry point in the class.
    EntryPointNotFound(Felt),
    /// A declared builtin is not supported by the runner.
    InvalidBuiltin(BuiltinName),
}

/// Errors raised after the virtual machine ran.
#[derive(Clone, Copy, Debug, PartialEq, Eq, Structural)]
pub enum PostExecutionError {
    /// The return-value stack did not have the promised shape.
    MalformedReturnData,
    /// An address computation underflowed.
    MathError,
}

/// Errors of the whole driver.
#[derive(Clone, Copy, Debug, PartialEq, Eq, Structural)]
pub enum EntryPointExecutionError {
    /// The call request was inconsistent (for example, no class hash).
    InternalError,
    PreExecutionError(PreExecutionError),
    PostExecutionError(PostExecutionError),
    /// The virtual machine reported a failure.
    VirtualMachineError,
}

/// Collects the set of bytecode offsets that a relocated trace visited.
///
/// The program segment is relocated to start at address 1, so offset
/// `pc - 1` is visited for each trace entry `pc`. Entries at or past the
/// bytecode length are reachable (for example, reading the builtin cost
/// table) and are filtered out; an entry below 1 cannot arise from a valid
/// relocation and is an error.
pub fn register_visited_pcs(trace_pcs: &Vec<usize>, bytecode_length: usize) -> (r: Result<
    Vec<usize>,
    EntryPointExecutionError,
>)
    ensures
        r is Ok <==> (forall|i: int| 0 <= i < trace_pcs@.len() ==> trace_pcs@[i] >= 1),
        r is Err ==> r == Err::<Vec<usize>, EntryPointExecutionError>(
            EntryPointExecutionError::InternalError,
        ),
        r matches Ok(v) ==> {
            &&& forall|p: usize|
                #[trigger] v@.contains(p) <==> (p < bytecode_length && exists|i: int|
                    0 <= i < trace_pcs@.len() && #[trigger] trace_pcs@[i] >= 1 && p == trace_pcs@[i]
                        - 1)
            &&& forall|j: int, k: int| 0 <= j < k < v@.len() ==> v@[j] != v@[k]
            &&& forall|j: int| 0 <= j < v@.len() ==> v@[j] < bytecode_length
        },
{
    let mut visited: Vec<usize> = Vec::new();
    let mut i: usize = 0;
    while i < trace_pcs.len()
        invariant
            0 <= i <= trace_pcs@.len(),
            forall|k: int| 0 <= k < i ==> trace_pcs@[k] >= 1,
            forall|p: usize|
                #[trigger] visited@.contains(p) <==> (p < bytecode_length && exists|k: int|
                    0 <= k < i && #[trigger] trace_pcs@[k] >= 1 && p == trace_pcs@[k] - 1),
            forall|j: int, k: int| 0 <= j < k < visited@.len() ==> visited@[j] != visited@[k],
            forall|j: int| 0 <= j < visited@.len() ==> visited@[j] < bytecode_length,
        decreases trace_pcs@.len() - i,
    {
        let pc = trace_pcs[i];
        if pc < 1 {
            return Err(EntryPointExecutionError::InternalError);
        }
        let real_pc = pc - 1;
        let ghost pre = visited@;
        let contained = vec_contains_usize(&visited, real_pc);
        if real_pc < bytecode_length && !contained {
            visited.push(real_pc);
        }
        proof {
            assert forall|p: usize| #[trigger]
                visited@.contains(p) implies (p < bytecode_length && exists|k: int|
                0 <= k < i + 1 && #[trigger] trace_pcs@[k] >= 1 && p == trace_pcs@[k] - 1) by {
                let j = choose|j: int| 0 <= j < visited@.len() && visited@[j] == p;
                if j < pre.len() {
                    assert(pre.contains(p));
                    let k = choose|k: int|
                        0 <= k < i && #[trigger] trace_pcs@[k] >= 1 && p == trace_pcs@[k] - 1;
                    assert(0 <= k < i + 1 && trace_pcs@[k] >= 1 && p == trace_pcs@[k] - 1);
                } else {
                    assert(p == real_pc);
                    assert(trace_pcs@[i as int] >= 1 && p == trace_pcs@[i as int] - 1);
                }
            }
            assert forall|p: usize|
                (p < bytecode_length && exists|k: int|
                    0 <= k < i + 1 && #[trigger] trace_pcs@[k] >= 1 && p == trace_pcs@[k]
                        - 1) implies #[trigger] visited@.contains(p) by {
                let k = choose|k: int|
                    0 <= k < i + 1 && #[trigger] trace_pcs@[k] >= 1 && p == trace_pcs@[k] - 1;
                if k < i {
                    assert(pre.contains(p));
                    let j = choose|j: int| 0 <= j < pre.len() && pre[j] == p;
                    assert(visited@[j] == p);
                } else {
                    if contained {
                        let j = choose|j: int| 0 <= j < pre.len() && pre[j] == p;
                        assert(visited@[j] == p);
                    } else {
                        assert(visited@[pre.len() as int] == p);
                    }
                }
            }
        }
        i += 1;
    }
    Ok(visited)
}

/// The return opcode appended after the program bytecode.
pub const RETURN_OPCODE: u64 = 0x208b7fff7fff7ffe;

/// The number of words appended after the program bytecode: the return opcode
/// and the pointer to the builtin cost segment.
pub const PROGRAM_EXTRA_DATA_LENGTH: usize = 2;

/// The gas costs of the priced builtins, in the canonical order of the cost
/// table: pedersen, bitwise, ec_op, poseidon, add_mod, mul_mod.
#[derive(Clone, Copy, Debug, PartialEq, Eq, Structural)]
pub struct BuiltinGasCosts {
    pub pedersen: u64,
    pub bitwise: u64,
    pub ec_op: u64,
    pub poseidon: u64,
    pub add_mod: u64,
    pub mul_mod: u64,
}

impl BuiltinGasCosts {
    /// The cost table as it is laid out in memory.
    pub open spec fn spec_table(&self) -> Seq<VmValue> {
        seq![
            VmValue::Int(Felt { v: self.pedersen }),
            VmValue::Int(Felt { v: self.bitwise }),
            VmValue::Int(Felt { v: self.ec_op }),
            VmValue::Int(Felt { v: self.poseidon }),
            VmValue::Int(Felt { v: self.add_mod }),
            VmValue::Int(Felt { v: self.mul_mod }),
        ]
    }
}

/// The segments this driver allocated with fixed content, remembered so that
/// they can be marked as accessed after the run.
#[derive(Clone, Debug, PartialEq, Eq)]
pub struct ReadOnlySegments {
    pub segments: Vec<(usize, usize)>,
}

impl ReadOnlySegments {
    /// All recorded segments lie inside the memory.
    pub open spec fn wf(&self, mem: &VmMemory) -> bool {
        forall|i: int|
            0 <= i < self.segments@.len() ==> (#[trigger] self.segments@[i]).0
                < mem.segments@.len()
    }

    pub fn new() -> (r: ReadOnlySegments)
        ensures
            r.segments@.len() == 0,
    {
        ReadOnlySegments { segments: Vec::new() }
    }

    /// Allocates a fresh segment holding exactly `data` and records it.
    pub fn allocate(&mut self, mem: &mut VmMemory, data: &Vec<VmValue>) -> (r: usize)
        requires
            old(mem).segment_used_sizes@.len() == old(mem).segments@.len(),
        ensures
            r == old(mem).segments@.len(),
            final (mem).segments@.len() == old(mem).segments@.len() + 1,
            final (mem).segment_used_sizes@.len() == final (mem).segments@.len(),
            forall|i: int|
                0 <= i < old(mem).segments@.len() ==> final (mem).segments@[i] == old(
                    mem,
                ).segments@[i],
            final (mem).segments@.last().cells@ =~= data@.map_values(|v: VmValue| Some(v)),
            final (self).segments@ == old(self).segments@.push((r, data@.len() as usize)),
            old(self).wf(old(mem)) ==> final (self).wf(final (mem)),
    {
        let seg = mem.add_segment();
        let mut off: usize = 0;
        while off < data.len()
            invariant
                0 <= off <= data@.len(),
                seg == old(mem).segments@.len(),
                seg < mem.segments@.len(),
                mem.segments@.len() == old(mem).segments@.len() + 1,
                mem.segment_used_sizes@.len() == mem.segments@.len(),
                forall|i: int|
                    0 <= i < old(mem).segments@.len() ==> mem.segments@[i] == old(mem).segments@[i],
                mem.segments@[seg as int].cells@ =~= data@.take(off as int).map_values(
                    |v: VmValue| Some(v),
                ),
                *self == *old(self),
            decreases data@.len() - off,
        {
            let ghost prev = *mem;
            let res = mem.insert_value(seg, off, data[off]);
            proof {
                assert(prev.segments@[seg as int].cells@.len() == off);
                assert(res is Ok);
                assert forall|j: int| 0 <= j < off + 1 implies mem.segments@[seg as int].cells@[j]
                    == data@.take(off + 1).map_values(|v: VmValue| Some(v))[j] by {
                    if j < off {
                        assert(mem.spec_read(seg as int, j) == prev.spec_read(seg as int, j));
                    } else {
                        assert(mem.spec_read(seg as int, j) == Some(data@[j]));
                    }
                }
                assert(mem.segments@[seg as int].cells@ =~= data@.take(off + 1).map_values(
                    |v: VmValue| Some(v),
                ));
            }
            off += 1;
        }
        proof {
            assert(data@.take(data@.len() as int) =~= data@);
        }
        self.segments.push((seg, data.len()));
        seg
    }

    /// Marks every recorded segment as accessed over its full length.
    pub fn mark_as_accessed(&self, mem: &mut VmMemory)
        requires
            self.wf(old(mem)),
        ensures
            final (mem).segments@.len() == old(mem).segments@.len(),
            final (mem).segment_used_sizes == old(mem).segment_used_sizes,
            forall|i: int|
                0 <= i < old(mem).segments@.len() ==> final (mem).segments@[i].cells == old(
                    mem,
                ).segments@[i].cells,
    {
        let mut i: usize = 0;
        while i < self.segments.len()
            invariant
                self.wf(mem),
                mem.segments@.len() == old(mem).segments@.len(),
                mem.segment_used_sizes == old(mem).segment_used_sizes,
                forall|k: int|
                    0 <= k < old(mem).segments@.len() ==> mem.segments@[k].cells == old(
                        mem,
                    ).segments@[k].cells,
            decreases self.segments@.len() - i,
        {
            let (seg, len) = self.segments[i];
            mem.mark_address_range_as_accessed(seg, 0, len);
            i += 1;
        }
    }
}

/// Prepares the data appended after the program bytecode: a read-only segment
/// holding the six builtin gas costs in canonical order, and, at the end of the
/// program, a return opcode followed by a pointer to that cost segment. The
/// appended data is exactly two words long.
pub fn prepare_program_extra_data(
    mem: &mut VmMemory,
    program_segment: usize,
    bytecode_length: usize,
    read_only_segments: &mut ReadOnlySegments,
    gas_costs: &BuiltinGasCosts,
) -> (r: Result<usize, PreExecutionError>)
    requires
        old(mem).segment_used_sizes@.len() == old(mem).segments@.len(),
        program_segment < old(mem).segments@.len(),
        bytecode_length + PROGRAM_EXTRA_DATA_LENGTH <= usize::MAX,
        // The words after the bytecode have not been written yet.
        old(mem).spec_read(program_segment as int, bytecode_length as int) is None,
        old(mem).spec_read(program_segment as int, bytecode_length + 1) is None,
        old(read_only_segments).wf(old(mem)),
    ensures
        r == Ok::<usize, PreExecutionError>(PROGRAM_EXTRA_DATA_LENGTH),
        final (mem).segments@.len() == old(mem).segments@.len() + 1,
        final (mem).segment_used_sizes@.len() == final (mem).segments@.len(),
        // The cost segment holds the six costs in canonical order.
        final (mem).segments@.last().cells@ =~= gas_costs.spec_table().map_values(
            |v: VmValue| Some(v),
        ),
        // The program ends with the return opcode and the cost-segment pointer.
        final (mem).spec_read(program_segment as int, bytecode_length as int) == Some(
            VmValue::Int(Felt { v: RETURN_OPCODE }),
        ),
        final (mem).spec_read(program_segment as int, bytecode_length + 1) == Some(
            VmValue::Ptr { segment: old(mem).segments@.len() as usize, offset: 0 },
        ),
        // Nothing else in the program segment moved.
        forall|o: int|
            0 <= o && o != bytecode_length && o != bytecode_length + 1 ==> final (mem).spec_read(
                program_segment as int,
                o,
            ) == old(mem).spec_read(program_segment as int, o),
        forall|i: int|
            0 <= i < old(mem).segments@.len() && i != program_segment ==> final (mem).segments@[i]
                == old(mem).segments@[i],
        final (read_only_segments).segments@ == old(read_only_segments).segments@.push(
            ((old(mem).segments@.len()) as usize, 6usize),
        ),
        final (read_only_segments).wf(final (mem)),
{
    let mut table: Vec<VmValue> = Vec::new();
    table.push(VmValue::Int(Felt { v: gas_costs.pedersen }));
    table.push(VmValue::Int(Felt { v: gas_costs.bitwise }));
    table.push(VmValue::Int(Felt { v: gas_costs.ec_op }));
    table.push(VmValue::Int(Felt { v: gas_costs.poseidon }));
    table.push(VmValue::Int(Felt { v: gas_costs.add_mod }));
    table.push(VmValue::Int(Felt { v: gas_costs.mul_mod }));
    proof {
        assert(table@ =~= gas_costs.spec_table());
    }
    let cost_segment = read_only_segments.allocate(mem, &table);
    let r1 = mem.insert_value(
        program_segment,
        bytecode_length,
        VmValue::Int(Felt { v: RETURN_OPCODE }),
    );
    proof {
        assert(r1 is Ok);
    }
    let r2 = mem.insert_value(
        program_segment,
        bytecode_length + 1,
        VmValue::Ptr { segment: cost_segment, offset: 0 },
    );
    proof {
        assert(r2 is Ok);
    }
    Ok(PROGRAM_EXTRA_DATA_LENGTH)
}

/// Where the return values of a run sit: `(segment, start, end)` of the return
/// data, given the last five stack values. The layout is the Cairo calling
/// convention: remaining gas at position 0, then the syscall pointer, then the
/// panic flag and the return-data bounds.
pub open spec fn spec_retdata_bounds(rv: Seq<VmValue>) -> Option<(int, int, int)> {
    match (rv[3], rv[4]) {
        (VmValue::Ptr { segment: s1, offset: o1 }, VmValue::Ptr { segment: s2, offset: o2 }) => {
            if s1 == s2 && o1 <= o2 {
                Some((s1 as int, o1 as int, o2 as int))
            } else {
                None
            }
        },
        _ => None,
    }
}

/// The panic flag of a run, if well formed: 0 means success, 1 means the
/// contract panicked.
pub open spec fn spec_failure_flag(rv: Seq<VmValue>) -> Option<bool> {
    match rv[2] {
        VmValue::Int(f) => {
            if f.v == 0 {
                Some(false)
            } else if f.v == 1 {
                Some(true)
            } else {
                None
            }
        },
        _ => None,
    }
}

/// The remaining gas reported by a run, if it is an integer no larger than the
/// initial gas.
pub open spec fn spec_remaining_gas(rv: Seq<VmValue>, initial_gas: u64) -> Option<u64> {
    match rv[0] {
        VmValue::Int(g) => {
            if g.v <= initial_gas {
                Some(g.v)
            } else {
                None
            }
        },
        _ => None,
    }
}

/// Whether every cell of the return-data range holds an integer.
pub open spec fn spec_retdata_readable(mem: &VmMemory, seg: int, start: int, end: int) -> bool {
    forall|o: int|
        start <= o < end ==> (#[trigger] mem.spec_read(seg, o)) matches Some(VmValue::Int(_))
}

/// The return data itself.
pub open spec fn spec_retdata(mem: &VmMemory, seg: int, start: int, end: int) -> Seq<Felt> {
    Seq::new(
        (end - start) as nat,
        |j: int|
            match mem.spec_read(seg, start + j) {
                Some(VmValue::Int(f)) => f,
                _ => Felt { v: 0 },
            },
    )
}

/// Extracts the result of a run from the last five values the run left on the
/// stack and from memory.
///
/// Fails if and only if the stack is malformed: the panic flag is not exactly
/// 0 or 1, the return-data bounds are not pointers into one segment in order,
/// a return-data cell is missing or not an integer, or the remaining gas is
/// not an integer bounded by the call's initial gas. Under step accounting the
/// consumed gas is reported as zero; under gas accounting it is what the run
/// used up of the initial gas.
pub fn get_call_result(
    mem: &VmMemory,
    return_values: &Vec<VmValue>,
    initial_gas: u64,
    tracked_resource: &TrackedResource,
) -> (r: Result<CallResult, PostExecutionError>)
    requires
        return_values@.len() == 5,
    ensures
        r is Ok <==> {
            &&& spec_failure_flag(return_values@) is Some
            &&& spec_retdata_bounds(return_values@) matches Some((seg, start, end))
            &&& spec_retdata_readable(mem, seg, start, end)
            &&& spec_remaining_gas(return_values@, initial_gas) is Some
        },
        r is Err ==> r == Err::<CallResult, PostExecutionError>(
            PostExecutionError::MalformedReturnData,
        ),
        r matches Ok(c) ==> {
            &&& Some(c.failed) == spec_failure_flag(return_values@)
            &&& spec_retdata_bounds(return_values@) matches Some((seg, start, end))
                && c.retdata@ =~= spec_retdata(mem, seg, start, end)
            &&& match *tracked_resource {
                TrackedResource::CairoSteps => c.gas_consumed == 0,
                TrackedResource::SierraGas => c.gas_consumed <= initial_gas
                    && spec_remaining_gas(return_values@, initial_gas) == Some(
                    (initial_gas - c.gas_consumed) as u64,
                ),
            }
        },
{
    let failed = match return_values[2] {
        VmValue::Int(f) => {
            if f.v == 0 {
                false
            } else if f.v == 1 {
                true
            } else {
                return Err(PostExecutionError::MalformedReturnData);
            }
        },
        _ => {
            return Err(PostExecutionError::MalformedReturnData);
        },
    };
    let (seg, start, end) = match (return_values[3], return_values[4]) {
        (VmValue::Ptr { segment: s1, offset: o1 }, VmValue::Ptr { segment: s2, offset: o2 }) => {
            if s1 == s2 && o1 <= o2 {
                (s1, o1, o2)
            } else {
                return Err(PostExecutionError::MalformedReturnData);
            }
        },
        _ => {
            return Err(PostExecutionError::MalformedReturnData);
        },
    };
    let mut retdata: Vec<Felt> = Vec::new();
    let mut o = start;
    while o < end
        invariant
            start <= o <= end,
            spec_retdata_bounds(return_values@) == Some((seg as int, start as int, end as int)),
            spec_failure_flag(return_values@) == Some(failed),
            retdata@ =~= spec_retdata(mem, seg as int, start as int, o as int),
            forall|k: int|
                start <= k < o ==> (#[trigger] mem.spec_read(seg as int, k)) matches Some(
                    VmValue::Int(_),
                ),
        decreases end - o,
    {
        match mem.read(seg, o) {
            Some(VmValue::Int(f)) => {
                retdata.push(f);
            },
            _ => {
                return Err(PostExecutionError::MalformedReturnData);
            },
        }
        proof {
            assert(retdata@ =~= spec_retdata(mem, seg as int, start as int, o + 1));
        }
        o += 1;
    }
    let gas = match return_values[0] {
        VmValue::Int(g) => {
            if g.v <= initial_gas {
                g.v
            } else {
                return Err(PostExecutionError::MalformedReturnData);
            }
        },
        _ => {
            return Err(PostExecutionError::MalformedReturnData);
        },
    };
    let gas_consumed: u64 = match tracked_resource {
        TrackedResource::CairoSteps => 0,
        TrackedResource::SierraGas => initial_gas - gas,
    };
    Ok(CallResult { failed, retdata, gas_consumed })
}

/// An entry point of a compiled class: its selector, its program counter, and
/// the builtins it declares, in declaration order.
#[derive(Clone, Debug, PartialEq, Eq)]
pub struct EntryPointV1 {
    pub selector: Felt,
    pub pc: usize,
    pub builtins: Vec<BuiltinName>,
}

/// Whether two entry points denote the same entry point: same selector, same
/// program counter, and the same declared builtins.
pub open spec fn ep_eq(a: EntryPointV1, b: EntryPointV1) -> bool {
    a.selector == b.selector && a.pc == b.pc && a.builtins@ == b.builtins@
}

/// A compiled contract class as the driver reads it: the length of its
/// bytecode and its entry points. The bytecode itself is loaded by the virtual
/// machine and never read here.
#[derive(Clone, Debug, PartialEq, Eq)]
pub struct CompiledClass {
    pub bytecode_length: usize,
    pub entry_points: Vec<EntryPointV1>,
}

/// Whether index `j` holds the entry point that a lookup of `selector` finds:
/// the first one declared with that selector.
pub open spec fn is_first_entry_point(class: &CompiledClass, selector: Felt, j: int) -> bool {
    &&& 0 <= j < class.entry_points@.len()
    &&& class.entry_points@[j].selector == selector
    &&& forall|k: int| 0 <= k < j ==> class.entry_points@[k].selector != selector
}

impl CompiledClass {
    /// Looks up the entry point for a selector: the first one declared with
    /// it. Fails if and only if no entry point carries the selector.
    pub fn get_entry_point(&self, selector: Felt) -> (r: Result<&EntryPointV1, PreExecutionError>)
        ensures
            r is Ok <==> (exists|j: int|
                0 <= j < self.entry_points@.len() && (#[trigger] self.entry_points@[j]).selector
                    == selector),
            r matches Ok(ep) ==> exists|j: int|
                #[trigger] is_first_entry_point(self, selector, j) && self.entry_points@[j] == *ep,
            r matches Err(e) ==> e == PreExecutionError::EntryPointNotFound(selector),
    {
        let mut j: usize = 0;
        while j < self.entry_points.len()
            invariant
                0 <= j <= self.entry_points@.len(),
                forall|k: int| 0 <= k < j ==> self.entry_points@[k].selector != selector,
            decreases self.entry_points@.len() - j,
        {
            if self.entry_points[j].selector.v == selector.v {
                proof {
                    assert(is_first_entry_point(self, selector, j as int));
                }
                return Ok(&self.entry_points[j]);
            }
            j += 1;
        }
        Err(PreExecutionError::EntryPointNotFound(selector))
    }
}

/// One builtin runner of the virtual machine, as the driver reads it: its
/// name, the initial stack it contributes to the call arguments, and the index
/// of its segment.
#[derive(Clone, Debug, PartialEq, Eq)]
pub struct BuiltinRunnerModel {
    pub name: BuiltinName,
    pub initial_stack: Vec<VmValue>,
    pub base: usize,
}

/// Each builtin has at most one runner.
pub open spec fn runners_distinct(runners: Seq<BuiltinRunnerModel>) -> bool {
    forall|j: int, k: int|
        0 <= j < k < runners.len() ==> (#[trigger] runners[j]).name != (#[trigger] runners[k]).name
}

/// The initial stack of the runner for a builtin, if the builtin has one.
pub open spec fn runner_stack(runners: Seq<BuiltinRunnerModel>, b: BuiltinName) -> Option<
    Seq<VmValue>,
> {
    if exists|j: int| 0 <= j < runners.len() && (#[trigger] runners[j]).name == b {
        let j = choose|j: int| 0 <= j < runners.len() && (#[trigger] runners[j]).name == b;
        Some(runners[j].initial_stack@)
    } else {
        None
    }
}

/// The argument words contributed by the declared builtins, with fresh
/// segments for a segment arena numbered from `next_seg`: a builtin backed by
/// a runner contributes that runner's initial stack; a segment arena without a
/// runner is allocated two fresh segments and contributes a pointer one past
/// its info triple; anything else is unsupported and yields no arguments.
pub open spec fn spec_builtin_args(
    builtins: Seq<BuiltinName>,
    runners: Seq<BuiltinRunnerModel>,
    next_seg: int,
) -> Option<Seq<VmValue>>
    decreases builtins.len(),
{
    if builtins.len() == 0 {
        Some(Seq::empty())
    } else {
        let b = builtins[0];
        match runner_stack(runners, b) {
            Some(stack) => match spec_builtin_args(builtins.skip(1), runners, next_seg) {
                Some(rest) => Some(stack + rest),
                None => None,
            },
            None => {
                if b is SegmentArena {
                    match spec_builtin_args(builtins.skip(1), runners, next_seg + 2) {
                        Some(rest) => Some(
                            seq![VmValue::Ptr { segment: next_seg as usize, offset: 3 }] + rest,
                        ),
                        None => None,
                    }
                } else {
                    None
                }
            },
        }
    }
}

/// The number of fresh segments the argument preparation allocates for
/// segment arenas: two for every declared segment arena without a runner.
pub open spec fn arena_segment_count(
    builtins: Seq<BuiltinName>,
    runners: Seq<BuiltinRunnerModel>,
) -> int
    decreases builtins.len(),
{
    if builtins.len() == 0 {
        0
    } else {
        (if runner_stack(runners, builtins[0]) is None && builtins[0] is SegmentArena {
            2int
        } else {
            0int
        }) + arena_segment_count(builtins.skip(1), runners)
    }
}

/// The arena segment count is never negative.
pub proof fn lemma_arena_segment_count_nonneg(
    builtins: Seq<BuiltinName>,
    runners: Seq<BuiltinRunnerModel>,
)
    ensures
        0 <= arena_segment_count(builtins, runners),
    decreases builtins.len(),
{
    if builtins.len() > 0 {
        lemma_arena_segment_count_nonneg(builtins.skip(1), runners);
    }
}

/// Finds the runner for a builtin, if any.
fn find_runner(runners: &Vec<BuiltinRunnerModel>, b: BuiltinName) -> (r: Option<usize>)
    requires
        runners_distinct(runners@),
    ensures
        r matches Some(i) ==> 0 <= i < runners@.len() && runners@[i as int].name == b
            && runner_stack(runners@, b) == Some(runners@[i as int].initial_stack@),
        r is None ==> runner_stack(runners@, b) is None,
{
    let mut i: usize = 0;
    while i < runners.len()
        invariant
            0 <= i <= runners@.len(),
            runners_distinct(runners@),
            forall|k: int| 0 <= k < i ==> (#[trigger] runners@[k]).name != b,
        decreases runners@.len() - i,
    {
        if runners[i].name == b {
            proof {
                let j = choose|j: int|
                    0 <= j < runners@.len() && (#[trigger] runners@[j]).name == b;
                assert(j == i);
            }
            return Some(i);
        }
        i += 1;
    }
    None
}

/// Prepares the argument vector for a call, in order: for each declared
/// builtin, its runner's initial stack, or, for a segment arena, a pointer one
/// past a freshly initialized info triple; then the initial gas as a felt, the
/// syscall pointer, and the bounds of the calldata, which is placed in a fresh
/// read-only segment. A declared builtin with no runner that is not the
/// segment arena is unsupported.
pub fn prepare_call_arguments(
    call: &CallEntryPoint,
    mem: &mut VmMemory,
    initial_syscall_ptr: VmValue,
    read_only_segments: &mut ReadOnlySegments,
    entry_point: &EntryPointV1,
    runners: &Vec<BuiltinRunnerModel>,
) -> (r: Result<Vec<VmValue>, PreExecutionError>)
    requires
        old(mem).segment_used_sizes@.len() == old(mem).segments@.len(),
        old(read_only_segments).wf(old(mem)),
        runners_distinct(runners@),
    ensures
        r is Ok <==> spec_builtin_args(
            entry_point.builtins@,
            runners@,
            old(mem).segments@.len() as int,
        ) is Some,
        r matches Ok(args) ==> {
            &&& spec_builtin_args(
                entry_point.builtins@,
                runners@,
                old(mem).segments@.len() as int,
            ) matches Some(prefix) && args@ =~= prefix + seq![
                VmValue::Int(Felt { v: call.initial_gas }),
                initial_syscall_ptr,
                VmValue::Ptr { segment: (final (mem).segments@.len() - 1) as usize, offset: 0 },
                VmValue::Ptr {
                    segment: (final (mem).segments@.len() - 1) as usize,
                    offset: call.calldata.0@.len() as usize,
                },
            ]
            &&& final (mem).segments@.last().cells@ =~= call.calldata.0@.map_values(
                |f: Felt| Some(VmValue::Int(f)),
            )
        },
        r matches Err(e) ==> e matches PreExecutionError::InvalidBuiltin(b)
            && entry_point.builtins@.contains(b) && runner_stack(runners@, b) is None
            && !(b is SegmentArena),
        r is Ok ==> final (mem).segments@.len() == old(mem).segments@.len() + arena_segment_count(
            entry_point.builtins@,
            runners@,
        ) + 1,
        r is Ok ==> final (read_only_segments).segments@ == old(
            read_only_segments,
        ).segments@.push(
            (
                (final (mem).segments@.len() - 1) as usize,
                call.calldata.0@.len() as usize,
            ),
        ),
        r is Err ==> *final (read_only_segments) == *old(read_only_segments),
        final (mem).segment_used_sizes@.len() == final (mem).segments@.len(),
        forall|i: int|
            0 <= i < old(mem).segments@.len() ==> final (mem).segments@[i] == old(mem).segments@[i],
        old(mem).segments@.len() <= final (mem).segments@.len(),
        final (read_only_segments).wf(final (mem)),
{
    let mut args: Vec<VmValue> = Vec::new();
    let ghost start_seg = mem.segments@.len() as int;
    proof {
        assert(entry_point.builtins@.skip(0) =~= entry_point.builtins@);
        match spec_builtin_args(entry_point.builtins@, runners@, start_seg) {
            Some(rest) => {
                assert(Seq::<VmValue>::empty() + rest =~= rest);
            },
            None => {},
        }
    }
    let mut bi: usize = 0;
    while bi < entry_point.builtins.len()
        invariant
            0 <= bi <= entry_point.builtins@.len(),
            runners_distinct(runners@),
            mem.segment_used_sizes@.len() == mem.segments@.len(),
            read_only_segments.wf(mem),
            *read_only_segments == *old(read_only_segments),
            start_seg == old(mem).segments@.len() as int,
            start_seg <= mem.segments@.len(),
            forall|i: int|
                0 <= i < old(mem).segments@.len() ==> mem.segments@[i] == old(mem).segments@[i],
            mem.segments@.len() as int + arena_segment_count(
                entry_point.builtins@.skip(bi as int),
                runners@,
            ) == start_seg + arena_segment_count(entry_point.builtins@, runners@),
            spec_builtin_args(entry_point.builtins@, runners@, start_seg) == (
            match spec_builtin_args(
                entry_point.builtins@.skip(bi as int),
                runners@,
                mem.segments@.len() as int,
            ) {
                Some(rest) => Some(args@ + rest),
                None => None::<Seq<VmValue>>,
            }),
        decreases entry_point.builtins@.len() - bi,
    {
        let b = entry_point.builtins[bi];
        let ghost cur_seg = mem.segments@.len() as int;
        let ghost suffix = entry_point.builtins@.skip(bi as int);
        proof {
            assert(suffix[0] == entry_point.builtins@[bi as int]);
            assert(suffix.skip(1) =~= entry_point.builtins@.skip(bi + 1));
        }
        match find_runner(runners, b) {
            Some(ri) => {
                let stack = &runners[ri].initial_stack;
                let ghost pre_args = args@;
                let mut si: usize = 0;
                while si < stack.len()
                    invariant
                        0 <= si <= stack@.len(),
                        args@ =~= pre_args + stack@.take(si as int),
                    decreases stack@.len() - si,
                {
                    args.push(stack[si]);
                    si += 1;
                }
                proof {
                    assert(stack@.take(stack@.len() as int) =~= stack@);
                    assert(args@ =~= pre_args + stack@);
                }
            },
            None => {
                if b == BuiltinName::SegmentArena {
                    let segment_arena = mem.add_segment();
                    let info_segment = mem.add_segment();
                    let r1 = mem.insert_value(
                        segment_arena,
                        0,
                        VmValue::Ptr { segment: info_segment, offset: 0 },
                    );
                    proof {
                        assert(r1 is Ok);
                    }
                    let r2 = mem.insert_value(segment_arena, 1, VmValue::Int(Felt { v: 0 }));
                    proof {
                        assert(r2 is Ok);
                    }
                    let r3 = mem.insert_value(segment_arena, 2, VmValue::Int(Felt { v: 0 }));
                    proof {
                        assert(r3 is Ok);
                    }
                    args.push(VmValue::Ptr { segment: segment_arena, offset: 3 });
                } else {
                    return Err(PreExecutionError::InvalidBuiltin(b));
                }
            },
        }
        bi += 1;
    }
    proof {
        assert(entry_point.builtins@.skip(entry_point.builtins@.len() as int)
            =~= Seq::<BuiltinName>::empty());
    }
    args.push(VmValue::Int(Felt { v: call.initial_gas }));
    args.push(initial_syscall_ptr);
    let mut calldata: Vec<VmValue> = Vec::new();
    let mut ci: usize = 0;
    while ci < call.calldata.0.len()
        invariant
            0 <= ci <= call.calldata.0@.len(),
            calldata@ =~= call.calldata.0@.take(ci as int).map_values(|f: Felt| VmValue::Int(f)),
        decreases call.calldata.0@.len() - ci,
    {
        calldata.push(VmValue::Int(call.calldata.0[ci]));
        proof {
            assert(calldata@ =~= call.calldata.0@.take(ci + 1).map_values(
                |f: Felt| VmValue::Int(f),
            ));
        }
        ci += 1;
    }
    proof {
        assert(call.calldata.0@.take(call.calldata.0@.len() as int) =~= call.calldata.0@);
    }
    let calldata_start = read_only_segments.allocate(mem, &calldata);
    proof {
        assert(mem.segments@.last().cells@ =~= call.calldata.0@.map_values(
            |f: Felt| Some(VmValue::Int(f)),
        ));
    }
    args.push(VmValue::Ptr { segment: calldata_start, offset: 0 });
    args.push(VmValue::Ptr { segment: calldata_start, offset: calldata.len() });
    Ok(args)
}

/// The base segment of the runner for a builtin, if the builtin has one.
pub open spec fn runner_base(runners: Seq<BuiltinRunnerModel>, b: BuiltinName) -> Option<usize> {
    if exists|j: int| 0 <= j < runners.len() && (#[trigger] runners[j]).name == b {
        let j = choose|j: int| 0 <= j < runners.len() && (#[trigger] runners[j]).name == b;
        Some(runners[j].base)
    } else {
        None
    }
}

/// Whether `p` is the reverse position of the last range-check-96 builtin in
/// the declaration list: counting from the end, the builtin at distance `p`
/// is range-check-96 and none closer to the end is.
pub open spec fn is_rc96_rev_offset(builtins: Seq<BuiltinName>, p: int) -> bool {
    &&& 0 <= p < builtins.len()
    &&& builtins[builtins.len() - 1 - p] is RangeCheck96
    &&& forall|k: int| builtins.len() - 1 - p < k < builtins.len() ==> !(builtins[k] is RangeCheck96)
}

/// What `maybe_fill_holes` assumes of the state the run left behind, whenever
/// the entry point declares range-check-96 at reverse position `p`: a runner
/// for the builtin exists, its segment lies in memory, and if the cell holding
/// the builtin's stop pointer is set, it points into that same segment. The
/// virtual machine guarantees all of this for a run it completed.
pub open spec fn fill_holes_pre(
    builtins: Seq<BuiltinName>,
    runners: Seq<BuiltinRunnerModel>,
    ap_segment: int,
    ap_offset: int,
    mem: &VmMemory,
) -> bool {
    forall|p: int|
        #[trigger] is_rc96_rev_offset(builtins, p) ==> {
            &&& runner_base(runners, BuiltinName::RangeCheck96) matches Some(base)
            &&& base < mem.segments@.len()
            &&& (ap_offset >= 6 + p ==> (mem.spec_read(ap_segment, ap_offset - 6 - p) matches Some(
                VmValue::Ptr { segment, offset },
            ) ==> segment == runner_base(runners, BuiltinName::RangeCheck96).unwrap()))
        }
}

/// How memory changes when the holes of the range-check-96 segment `base` are
/// filled up to its stop offset `stop`: unset cells below the stop become
/// zero, set cells stay, the used size becomes the stop offset, and nothing
/// else moves.
pub open spec fn fill_holes_effect(pre: &VmMemory, post: &VmMemory, base: int, stop: int) -> bool {
    &&& post.segments@.len() == pre.segments@.len()
    &&& post.segment_used_sizes@ == pre.segment_used_sizes@.update(base, stop as usize)
    &&& forall|o: int|
        0 <= o < stop ==> post.spec_read(base, o) == (if pre.spec_read(base, o) is Some {
            pre.spec_read(base, o)
        } else {
            Some(VmValue::Int(Felt { v: 0 }))
        })
    &&& forall|o: int| stop <= o ==> post.spec_read(base, o) == pre.spec_read(base, o)
    &&& forall|i: int|
        0 <= i < pre.segments@.len() && i != base ==> post.segments@[i] == pre.segments@[i]
    &&& forall|o: int| post.spec_accessed(base, o) == pre.spec_accessed(base, o)
}

/// Fills the memory holes the run left in the range-check-96 segment, if the
/// entry point declares that builtin.
///
/// The builtin's stop pointer sits `6 + p` words below the final allocation
/// pointer, where `p` is the builtin's reverse position among the declared
/// builtins (the five return values come after the implicits). The used size
/// of the builtin's segment is set to the stop offset and every unset cell
/// below it is written zero; cells already set stay as they are. Fails if the
/// stop pointer's address underflows, or if the cell there is unset or not a
/// pointer. Declarations without range-check-96 leave everything unchanged.
pub fn maybe_fill_holes(
    entry_point: &EntryPointV1,
    runners: &Vec<BuiltinRunnerModel>,
    ap_segment: usize,
    ap_offset: usize,
    mem: &mut VmMemory,
) -> (r: Result<(), EntryPointExecutionError>)
    requires
        runners_distinct(runners@),
        old(mem).segment_used_sizes@.len() == old(mem).segments@.len(),
        fill_holes_pre(
            entry_point.builtins@,
            runners@,
            ap_segment as int,
            ap_offset as int,
            old(mem),
        ),
    ensures
        final (mem).segments@.len() == old(mem).segments@.len(),
        final (mem).segment_used_sizes@.len() == old(mem).segment_used_sizes@.len(),
        (forall|k: int|
            0 <= k < entry_point.builtins@.len() ==> !(entry_point.builtins@[k] is RangeCheck96))
            ==> (r is Ok && *final (mem) == *old(mem)),
        forall|p: int|
            #[trigger] is_rc96_rev_offset(entry_point.builtins@, p) ==> {
                &&& (r is Ok <==> ap_offset >= 6 + p && old(mem).spec_read(
                    ap_segment as int,
                    ap_offset - 6 - p,
                ) matches Some(VmValue::Ptr { .. }))
                &&& r is Err ==> *final (mem) == *old(mem) && r == Err::<
                    (),
                    EntryPointExecutionError,
                >(EntryPointExecutionError::VirtualMachineError)
                &&& (r is Ok ==> (old(mem).spec_read(ap_segment as int, ap_offset - 6 - p)
                    matches Some(VmValue::Ptr { segment: base, offset: stop })
                    ==> fill_holes_effect(old(mem), final (mem), base as int, stop as int)))
            },
{
    // Reverse position of the last declared range-check-96 builtin.
    let mut li: usize = entry_point.builtins.len();
    let mut k: usize = entry_point.builtins.len();
    while k > 0
        invariant
            0 <= k <= entry_point.builtins@.len(),
            li == entry_point.builtins@.len() ==> forall|j: int|
                k <= j < entry_point.builtins@.len() ==> !(entry_point.builtins@[j]
                    is RangeCheck96),
            li != entry_point.builtins@.len() ==> k <= li < entry_point.builtins@.len()
                && entry_point.builtins@[li as int] is RangeCheck96 && (forall|j: int|
                li < j < entry_point.builtins@.len() ==> !(entry_point.builtins@[j]
                    is RangeCheck96)),
        decreases k,
    {
        k -= 1;
        if li == entry_point.builtins.len() {
            if entry_point.builtins[k] == BuiltinName::RangeCheck96 {
                li = k;
            }
        }
    }
    if li == entry_point.builtins.len() {
        return Ok(());
    }
    let rc96_offset = entry_point.builtins.len() - 1 - li;
    proof {
        assert(is_rc96_rev_offset(entry_point.builtins@, rc96_offset as int));
    }
    let base = match find_runner(runners, BuiltinName::RangeCheck96) {
        Some(ri) => runners[ri].base,
        None => {
            // Excluded by the precondition: a declared builtin has a runner.
            proof {
                assert(runner_base(runners@, BuiltinName::RangeCheck96) is None);
                assert(false);
            }
            return Err(EntryPointExecutionError::InternalError);
        },
    };
    proof {
        assert(runner_base(runners@, BuiltinName::RangeCheck96) == Some(base));
    }
    if ap_offset < 6 || ap_offset - 6 < rc96_offset {
        return Err(EntryPointExecutionError::VirtualMachineError);
    }
    let stop_ptr_addr = ap_offset - 6 - rc96_offset;
    let stop_offset = match mem.read(ap_segment, stop_ptr_addr) {
        Some(VmValue::Ptr { segment: _, offset }) => offset,
        _ => {
            return Err(EntryPointExecutionError::VirtualMachineError);
        },
    };
    mem.segment_used_sizes.set(base, stop_offset);
    let mut o: usize = 0;
    while o < stop_offset
        invariant
            0 <= o <= stop_offset,
            base < mem.segments@.len(),
            mem.segments@.len() == old(mem).segments@.len(),
            mem.segment_used_sizes@ == old(mem).segment_used_sizes@.update(
                base as int,
                stop_offset,
            ),
            forall|j: int|
                0 <= j < old(mem).segments@.len() && j != base ==> mem.segments@[j] == old(
                    mem,
                ).segments@[j],
            forall|c: int|
                0 <= c < o ==> mem.spec_read(base as int, c) == (
                if old(mem).spec_read(base as int, c) is Some {
                    old(mem).spec_read(base as int, c)
                } else {
                    Some(VmValue::Int(Felt { v: 0 }))
                }),
            forall|c: int|
                o <= c ==> mem.spec_read(base as int, c) == old(mem).spec_read(base as int, c),
            forall|c: int|
                mem.spec_accessed(base as int, c) == old(mem).spec_accessed(base as int, c),
        decreases stop_offset - o,
    {
        match mem.read(base, o) {
            Some(_) => {
                // The cell is already set; the write would be ignored.
            },
            None => {
                let res = mem.insert_value(base, o, VmValue::Int(Felt { v: 0 }));
                proof {
                    assert(res is Ok);
                }
            },
        }
        o += 1;
    }
    Ok(())
}

/// The number of memory cells one segment-arena instance occupies.
pub const SEGMENT_ARENA_BUILTIN_SIZE: u64 = 3;

/// The sum of a sequence of machine words, as an unbounded integer.
pub open spec fn sum_u64(s: Seq<u64>) -> int
    decreases s.len(),
{
    if s.len() == 0 {
        0
    } else {
        sum_u64(s.drop_last()) + s.last()
    }
}

/// Partial sums are non-negative and bounded by the total.
pub proof fn lemma_sum_u64_prefix(s: Seq<u64>, i: int)
    requires
        0 <= i <= s.len(),
    ensures
        0 <= sum_u64(s.take(i)) <= sum_u64(s),
    decreases s.len() - i,
{
    if i == s.len() {
        assert(s.take(i) =~= s);
        lemma_sum_u64_nonneg(s);
    } else {
        lemma_sum_u64_prefix(s, i + 1);
        assert(s.take(i + 1).drop_last() =~= s.take(i));
        lemma_sum_u64_nonneg(s.take(i));
    }
}

proof fn lemma_sum_u64_nonneg(s: Seq<u64>)
    ensures
        0 <= sum_u64(s),
    decreases s.len(),
{
    if s.len() > 0 {
        lemma_sum_u64_nonneg(s.drop_last());
    }
}

/// Per-field projections of the charged resources of a sequence of calls.
pub open spec fn charged_gas_seq(calls: Seq<CallInfo>) -> Seq<u64> {
    calls.map_values(|c: CallInfo| c.charged_resources.gas_for_fee.0)
}

pub open spec fn charged_steps_seq(calls: Seq<CallInfo>) -> Seq<u64> {
    calls.map_values(|c: CallInfo| c.charged_resources.vm_resources.n_steps)
}

pub open spec fn charged_holes_seq(calls: Seq<CallInfo>) -> Seq<u64> {
    calls.map_values(|c: CallInfo| c.charged_resources.vm_resources.n_memory_holes)
}

pub open spec fn charged_pedersen_seq(calls: Seq<CallInfo>) -> Seq<u64> {
    calls.map_values(|c: CallInfo| c.charged_resources.vm_resources.builtin_instance_counter.pedersen)
}

pub open spec fn charged_bitwise_seq(calls: Seq<CallInfo>) -> Seq<u64> {
    calls.map_values(|c: CallInfo| c.charged_resources.vm_resources.builtin_instance_counter.bitwise)
}

pub open spec fn charged_ec_op_seq(calls: Seq<CallInfo>) -> Seq<u64> {
    calls.map_values(|c: CallInfo| c.charged_resources.vm_resources.builtin_instance_counter.ec_op)
}

pub open spec fn charged_poseidon_seq(calls: Seq<CallInfo>) -> Seq<u64> {
    calls.map_values(
        |c: CallInfo| c.charged_resources.vm_resources.builtin_instance_counter.poseidon,
    )
}

pub open spec fn charged_add_mod_seq(calls: Seq<CallInfo>) -> Seq<u64> {
    calls.map_values(|c: CallInfo| c.charged_resources.vm_resources.builtin_instance_counter.add_mod)
}

pub open spec fn charged_mul_mod_seq(calls: Seq<CallInfo>) -> Seq<u64> {
    calls.map_values(|c: CallInfo| c.charged_resources.vm_resources.builtin_instance_counter.mul_mod)
}

pub open spec fn charged_segment_arena_seq(calls: Seq<CallInfo>) -> Seq<u64> {
    calls.map_values(
        |c: CallInfo| c.charged_resources.vm_resources.builtin_instance_counter.segment_arena,
    )
}

/// Whether the summary of the charged resources of a sequence of calls fits in
/// machine words. The books have been corrupted if it does not.
pub open spec fn summarize_fits(calls: Seq<CallInfo>) -> bool {
    &&& sum_u64(charged_gas_seq(calls)) <= u64::MAX
    &&& sum_u64(charged_steps_seq(calls)) <= u64::MAX
    &&& sum_u64(charged_holes_seq(calls)) <= u64::MAX
    &&& sum_u64(charged_pedersen_seq(calls)) <= u64::MAX
    &&& sum_u64(charged_bitwise_seq(calls)) <= u64::MAX
    &&& sum_u64(charged_ec_op_seq(calls)) <= u64::MAX
    &&& sum_u64(charged_poseidon_seq(calls)) <= u64::MAX
    &&& sum_u64(charged_add_mod_seq(calls)) <= u64::MAX
    &&& sum_u64(charged_mul_mod_seq(calls)) <= u64::MAX
    &&& sum_u64(charged_segment_arena_seq(calls)) <= u64::MAX
}

/// The fieldwise sum of the charged resources of a sequence of calls.
pub open spec fn spec_summarize(calls: Seq<CallInfo>) -> ChargedResources {
    ChargedResources {
        vm_resources: ExecutionResources {
            n_steps: sum_u64(charged_steps_seq(calls)) as u64,
            n_memory_holes: sum_u64(charged_holes_seq(calls)) as u64,
            builtin_instance_counter: BuiltinCounters {
                pedersen: sum_u64(charged_pedersen_seq(calls)) as u64,
                bitwise: sum_u64(charged_bitwise_seq(calls)) as u64,
                ec_op: sum_u64(charged_ec_op_seq(calls)) as u64,
                poseidon: sum_u64(charged_poseidon_seq(calls)) as u64,
                add_mod: sum_u64(charged_add_mod_seq(calls)) as u64,
                mul_mod: sum_u64(charged_mul_mod_seq(calls)) as u64,
                segment_arena: sum_u64(charged_segment_arena_seq(calls)) as u64,
            },
        },
        gas_for_fee: GasAmount(sum_u64(charged_gas_seq(calls)) as u64),
    }
}

/// Sums the charged resources of the given calls, fieldwise: the summaries of
/// a call's inner calls are charged to the call itself.
pub fn summarize_charged_resources(calls: &Vec<CallInfo>) -> (r: ChargedResources)
    requires
        summarize_fits(calls@),
    ensures
        r == spec_summarize(calls@),
{
    let mut gas: u64 = 0;
    let mut steps: u64 = 0;
    let mut holes: u64 = 0;
    let mut pedersen: u64 = 0;
    let mut bitwise: u64 = 0;
    let mut ec_op: u64 = 0;
    let mut poseidon: u64 = 0;
    let mut add_mod: u64 = 0;
    let mut mul_mod: u64 = 0;
    let mut segment_arena: u64 = 0;
    let mut i: usize = 0;
    while i < calls.len()
        invariant
            0 <= i <= calls@.len(),
            summarize_fits(calls@),
            gas == sum_u64(charged_gas_seq(calls@).take(i as int)),
            steps == sum_u64(charged_steps_seq(calls@).take(i as int)),
            holes == sum_u64(charged_holes_seq(calls@).take(i as int)),
            pedersen == sum_u64(charged_pedersen_seq(calls@).take(i as int)),
            bitwise == sum_u64(charged_bitwise_seq(calls@).take(i as int)),
            ec_op == sum_u64(charged_ec_op_seq(calls@).take(i as int)),
            poseidon == sum_u64(charged_poseidon_seq(calls@).take(i as int)),
            add_mod == sum_u64(charged_add_mod_seq(calls@).take(i as int)),
            mul_mod == sum_u64(charged_mul_mod_seq(calls@).take(i as int)),
            segment_arena == sum_u64(charged_segment_arena_seq(calls@).take(i as int)),
        decreases calls@.len() - i,
    {
        proof {
            lemma_sum_u64_prefix(charged_gas_seq(calls@), i + 1);
            assert(charged_gas_seq(calls@).take(i + 1).drop_last() =~= charged_gas_seq(
                calls@,
            ).take(i as int));
            lemma_sum_u64_prefix(charged_steps_seq(calls@), i + 1);
            assert(charged_steps_seq(calls@).take(i + 1).drop_last() =~= charged_steps_seq(
                calls@,
            ).take(i as int));
            lemma_sum_u64_prefix(charged_holes_seq(calls@), i + 1);
            assert(charged_holes_seq(calls@).take(i + 1).drop_last() =~= charged_holes_seq(
                calls@,
            ).take(i as int));
            lemma_sum_u64_prefix(charged_pedersen_seq(calls@), i + 1);
            assert(charged_pedersen_seq(calls@).take(i + 1).drop_last() =~= charged_pedersen_seq(
                calls@,
            ).take(i as int));
            lemma_sum_u64_prefix(charged_bitwise_seq(calls@), i + 1);
            assert(charged_bitwise_seq(calls@).take(i + 1).drop_last() =~= charged_bitwise_seq(
                calls@,
            ).take(i as int));
            lemma_sum_u64_prefix(charged_ec_op_seq(calls@), i + 1);
            assert(charged_ec_op_seq(calls@).take(i + 1).drop_last() =~= charged_ec_op_seq(
                calls@,
            ).take(i as int));
            lemma_sum_u64_prefix(charged_poseidon_seq(calls@), i + 1);
            assert(charged_poseidon_seq(calls@).take(i + 1).drop_last() =~= charged_poseidon_seq(
                calls@,
            ).take(i as int));
            lemma_sum_u64_prefix(charged_add_mod_seq(calls@), i + 1);
            assert(charged_add_mod_seq(calls@).take(i + 1).drop_last() =~= charged_add_mod_seq(
                calls@,
            ).take(i as int));
            lemma_sum_u64_prefix(charged_mul_mod_seq(calls@), i + 1);
            assert(charged_mul_mod_seq(calls@).take(i + 1).drop_last() =~= charged_mul_mod_seq(
                calls@,
            ).take(i as int));
            lemma_sum_u64_prefix(charged_segment_arena_seq(calls@), i + 1);
            assert(charged_segment_arena_seq(calls@).take(i + 1).drop_last()
                =~= charged_segment_arena_seq(calls@).take(i as int));
        }
        let c = &calls[i].charged_resources;
        gas = gas + c.gas_for_fee.0;
        steps = steps + c.vm_resources.n_steps;
        holes = holes + c.vm_resources.n_memory_holes;
        pedersen = pedersen + c.vm_resources.builtin_instance_counter.pedersen;
        bitwise = bitwise + c.vm_resources.builtin_instance_counter.bitwise;
        ec_op = ec_op + c.vm_resources.builtin_instance_counter.ec_op;
        poseidon = poseidon + c.vm_resources.builtin_instance_counter.poseidon;
        add_mod = add_mod + c.vm_resources.builtin_instance_counter.add_mod;
        mul_mod = mul_mod + c.vm_resources.builtin_instance_counter.mul_mod;
        segment_arena = segment_arena + c.vm_resources.builtin_instance_counter.segment_arena;
        i += 1;
    }
    proof {
        assert(charged_gas_seq(calls@).take(calls@.len() as int) =~= charged_gas_seq(calls@));
        assert(charged_steps_seq(calls@).take(calls@.len() as int) =~= charged_steps_seq(calls@));
        assert(charged_holes_seq(calls@).take(calls@.len() as int) =~= charged_holes_seq(calls@));
        assert(charged_pedersen_seq(calls@).take(calls@.len() as int) =~= charged_pedersen_seq(
            calls@,
        ));
        assert(charged_bitwise_seq(calls@).take(calls@.len() as int) =~= charged_bitwise_seq(
            calls@,
        ));
        assert(charged_ec_op_seq(calls@).take(calls@.len() as int) =~= charged_ec_op_seq(calls@));
        assert(charged_poseidon_seq(calls@).take(calls@.len() as int) =~= charged_poseidon_seq(
            calls@,
        ));
        assert(charged_add_mod_seq(calls@).take(calls@.len() as int) =~= charged_add_mod_seq(
            calls@,
        ));
        assert(charged_mul_mod_seq(calls@).take(calls@.len() as int) =~= charged_mul_mod_seq(
            calls@,
        ));
        assert(charged_segment_arena_seq(calls@).take(calls@.len() as int)
            =~= charged_segment_arena_seq(calls@));
    }
    ChargedResources {
        vm_resources: ExecutionResources {
            n_steps: steps,
            n_memory_holes: holes,
            builtin_instance_counter: BuiltinCounters {
                pedersen,
                bitwise,
                ec_op,
                poseidon,
                add_mod,
                mul_mod,
                segment_arena,
            },
        },
        gas_for_fee: GasAmount(gas),
    }
}

/// Whether two resource records can be added without overflow.
pub open spec fn er_fits(a: ExecutionResources, b: ExecutionResources) -> bool {
    &&& a.n_steps + b.n_steps <= u64::MAX
    &&& a.n_memory_holes + b.n_memory_holes <= u64::MAX
    &&& a.builtin_instance_counter.pedersen + b.builtin_instance_counter.pedersen <= u64::MAX
    &&& a.builtin_instance_counter.bitwise + b.builtin_instance_counter.bitwise <= u64::MAX
    &&& a.builtin_instance_counter.ec_op + b.builtin_instance_counter.ec_op <= u64::MAX
    &&& a.builtin_instance_counter.poseidon + b.builtin_instance_counter.poseidon <= u64::MAX
    &&& a.builtin_instance_counter.add_mod + b.builtin_instance_counter.add_mod <= u64::MAX
    &&& a.builtin_instance_counter.mul_mod + b.builtin_instance_counter.mul_mod <= u64::MAX
    &&& a.builtin_instance_counter.segment_arena + b.builtin_instance_counter.segment_arena
        <= u64::MAX
}

/// The fieldwise sum of two resource records.
pub open spec fn spec_er_add(a: ExecutionResources, b: ExecutionResources) -> ExecutionResources {
    ExecutionResources {
        n_steps: (a.n_steps + b.n_steps) as u64,
        n_memory_holes: (a.n_memory_holes + b.n_memory_holes) as u64,
        builtin_instance_counter: BuiltinCounters {
            pedersen: (a.builtin_instance_counter.pedersen
                + b.builtin_instance_counter.pedersen) as u64,
            bitwise: (a.builtin_instance_counter.bitwise
                + b.builtin_instance_counter.bitwise) as u64,
            ec_op: (a.builtin_instance_counter.ec_op + b.builtin_instance_counter.ec_op) as u64,
            poseidon: (a.builtin_instance_counter.poseidon
                + b.builtin_instance_counter.poseidon) as u64,
            add_mod: (a.builtin_instance_counter.add_mod
                + b.builtin_instance_counter.add_mod) as u64,
            mul_mod: (a.builtin_instance_counter.mul_mod
                + b.builtin_instance_counter.mul_mod) as u64,
            segment_arena: (a.builtin_instance_counter.segment_arena
                + b.builtin_instance_counter.segment_arena) as u64,
        },
    }
}

/// Adds two resource records fieldwise.
pub fn er_add(a: &ExecutionResources, b: &ExecutionResources) -> (r: ExecutionResources)
    requires
        er_fits(*a, *b),
    ensures
        r == spec_er_add(*a, *b),
{
    ExecutionResources {
        n_steps: a.n_steps + b.n_steps,
        n_memory_holes: a.n_memory_holes + b.n_memory_holes,
        builtin_instance_counter: BuiltinCounters {
            pedersen: a.builtin_instance_counter.pedersen + b.builtin_instance_counter.pedersen,
            bitwise: a.builtin_instance_counter.bitwise + b.builtin_instance_counter.bitwise,
            ec_op: a.builtin_instance_counter.ec_op + b.builtin_instance_counter.ec_op,
            poseidon: a.builtin_instance_counter.poseidon + b.builtin_instance_counter.poseidon,
            add_mod: a.builtin_instance_counter.add_mod + b.builtin_instance_counter.add_mod,
            mul_mod: a.builtin_instance_counter.mul_mod + b.builtin_instance_counter.mul_mod,
            segment_arena: a.builtin_instance_counter.segment_arena
                + b.builtin_instance_counter.segment_arena,
        },
    }
}

/// The run's resources with the segment-arena counter converted to cells, when
/// the versioned constants say the arena is charged by cells.
pub open spec fn spec_arena_adjusted(
    r: ExecutionResources,
    segment_arena_cells: bool,
) -> ExecutionResources {
    if segment_arena_cells {
        ExecutionResources {
            builtin_instance_counter: BuiltinCounters {
                segment_arena: (r.builtin_instance_counter.segment_arena
                    * SEGMENT_ARENA_BUILTIN_SIZE) as u64,
                ..r.builtin_instance_counter
            },
            ..r
        }
    } else {
        r
    }
}

/// The virtual-machine resources charged to the current call, without inner
/// calls: under step accounting, the run's own resources (with the arena
/// adjustment) plus the per-syscall charge; under gas accounting, nothing.
pub open spec fn spec_vm_resources_without_inner(
    tracked_resource: TrackedResource,
    run_resources: ExecutionResources,
    segment_arena_cells: bool,
    syscall_resources: ExecutionResources,
) -> ExecutionResources {
    match tracked_resource {
        TrackedResource::CairoSteps => spec_er_add(
            spec_arena_adjusted(run_resources, segment_arena_cells),
            syscall_resources,
        ),
        TrackedResource::SierraGas => ExecutionResources::spec_zeroed(),
    }
}

/// What the syscall handler accumulated over a run: the events and messages it
/// emitted, the calls it made into other contracts, the state it touched, and
/// the per-syscall resource charge.
#[derive(Debug, PartialEq, Eq)]
pub struct SyscallHandlerOutput {
    pub events: u64,
    pub l2_to_l1_messages: u64,
    pub inner_calls: Vec<CallInfo>,
    pub storage_read_values: Vec<Felt>,
    pub accessed_storage_keys: Vec<Felt>,
    pub accessed_contract_addresses: Vec<ContractAddress>,
    pub read_class_hash_values: Vec<ClassHash>,
    pub syscall_resources: ExecutionResources,
}

/// What finalization assumes of the books: every resource total fits in a
/// machine word, and under gas accounting the inner calls did not consume more
/// than the current call.
pub open spec fn finalize_fits(
    tracked_resource: TrackedResource,
    run_resources: ExecutionResources,
    segment_arena_cells: bool,
    handler: &SyscallHandlerOutput,
    initial_gas: u64,
    rv: Seq<VmValue>,
) -> bool {
    &&& (tracked_resource is CairoSteps ==> run_resources.builtin_instance_counter.segment_arena
        * SEGMENT_ARENA_BUILTIN_SIZE <= u64::MAX && er_fits(
        spec_arena_adjusted(run_resources, segment_arena_cells),
        handler.syscall_resources,
    ))
    &&& summarize_fits(handler.inner_calls@)
    &&& er_fits(
        spec_vm_resources_without_inner(
            tracked_resource,
            run_resources,
            segment_arena_cells,
            handler.syscall_resources,
        ),
        spec_summarize(handler.inner_calls@).vm_resources,
    )
    &&& (tracked_resource is SierraGas ==> (spec_remaining_gas(rv, initial_gas) matches Some(g)
        ==> sum_inner_gas(handler.inner_calls@) <= initial_gas - g))
    &&& spec_gas_without_inner(tracked_resource, initial_gas, rv, handler.inner_calls@) + sum_u64(
        charged_gas_seq(handler.inner_calls@),
    ) <= u64::MAX
}

/// The gas charged to the current call alone, as finalization computes it.
pub open spec fn spec_gas_without_inner(
    tracked_resource: TrackedResource,
    initial_gas: u64,
    rv: Seq<VmValue>,
    inner_calls: Seq<CallInfo>,
) -> int {
    match tracked_resource {
        TrackedResource::CairoSteps => 0,
        TrackedResource::SierraGas => match spec_remaining_gas(rv, initial_gas) {
            Some(g) => initial_gas - g - sum_inner_gas(inner_calls),
            None => 0,
        },
    }
}

/// Finalizes a run into a call record.
///
/// Closes the memory-hole accounting by marking the program's appended words
/// and the call's arguments as accessed (the OS touches those cells), lets the
/// read-only segments mark themselves, extracts the call result from the
/// return-value stack, and charges the call its own resources plus the
/// summaries of its inner calls. Fails if and only if the frame pointer sits
/// too low to cover the arguments or the return-value stack is malformed.
pub fn finalize_execution(
    mem: &mut VmMemory,
    read_only_segments: &ReadOnlySegments,
    call: CallEntryPoint,
    handler: SyscallHandlerOutput,
    return_values: &Vec<VmValue>,
    program_segment: usize,
    bytecode_length: usize,
    execution_segment: usize,
    initial_fp_offset: usize,
    n_total_args: usize,
    program_extra_data_length: usize,
    tracked_resource: TrackedResource,
    vm_run_resources: ExecutionResources,
    segment_arena_cells: bool,
) -> (r: Result<CallInfo, PostExecutionError>)
    requires
        old(mem).segment_used_sizes@.len() == old(mem).segments@.len(),
        read_only_segments.wf(old(mem)),
        program_segment < old(mem).segments@.len(),
        execution_segment < old(mem).segments@.len(),
        bytecode_length + program_extra_data_length <= usize::MAX,
        return_values@.len() == 5,
        finalize_fits(
            tracked_resource,
            vm_run_resources,
            segment_arena_cells,
            &handler,
            call.initial_gas,
            return_values@,
        ),
    ensures
        r is Ok <==> {
            &&& initial_fp_offset >= n_total_args + 2
            &&& spec_failure_flag(return_values@) is Some
            &&& spec_retdata_bounds(return_values@) matches Some((seg, start, end))
            &&& spec_retdata_readable(final (mem), seg, start, end)
            &&& spec_remaining_gas(return_values@, call.initial_gas) is Some
        },
        r is Err ==> r == Err::<CallInfo, PostExecutionError>(
            if initial_fp_offset < n_total_args + 2 {
                PostExecutionError::MathError
            } else {
                PostExecutionError::MalformedReturnData
            },
        ),
        final (mem).segments@.len() == old(mem).segments@.len(),
        final (mem).segment_used_sizes == old(mem).segment_used_sizes,
        forall|i: int|
            0 <= i < old(mem).segments@.len() ==> final (mem).segments@[i].cells == old(
                mem,
            ).segments@[i].cells,
        r matches Ok(ci) ==> {
            &&& ci.call == call
            &&& Some(ci.execution.failed) == spec_failure_flag(return_values@)
            &&& (spec_retdata_bounds(return_values@) matches Some((seg, start, end))
                ==> ci.execution.retdata@ =~= spec_retdata(final (mem), seg, start, end))
            &&& ci.execution.events == handler.events
            &&& ci.execution.l2_to_l1_messages == handler.l2_to_l1_messages
            &&& match tracked_resource {
                TrackedResource::CairoSteps => ci.execution.gas_consumed == 0,
                TrackedResource::SierraGas => ci.execution.gas_consumed <= call.initial_gas
                    && spec_remaining_gas(return_values@, call.initial_gas) == Some(
                    (call.initial_gas - ci.execution.gas_consumed) as u64,
                ),
            }
            &&& ci.tracked_resource == tracked_resource
            &&& ci.charged_resources.vm_resources == spec_er_add(
                spec_vm_resources_without_inner(
                    tracked_resource,
                    vm_run_resources,
                    segment_arena_cells,
                    handler.syscall_resources,
                ),
                spec_summarize(handler.inner_calls@).vm_resources,
            )
            &&& ci.charged_resources.gas_for_fee.0 == spec_gas_without_inner(
                tracked_resource,
                call.initial_gas,
                return_values@,
                handler.inner_calls@,
            ) + sum_u64(charged_gas_seq(handler.inner_calls@))
            &&& ci.inner_calls == handler.inner_calls
            &&& ci.storage_read_values == handler.storage_read_values
            &&& ci.accessed_storage_keys == handler.accessed_storage_keys
            &&& ci.accessed_contract_addresses == handler.accessed_contract_addresses
            &&& ci.read_class_hash_values == handler.read_class_hash_values
        },
{
    // The OS touches the appended program words; mark them as accessed.
    mem.mark_address_range_as_accessed(program_segment, bytecode_length, program_extra_data_length);

    // When execution starts, the stack holds the arguments and then the return
    // frame and return address.
    if initial_fp_offset < n_total_args || initial_fp_offset - n_total_args < 2 {
        return Err(PostExecutionError::MathError);
    }
    let args_ptr = initial_fp_offset - n_total_args - 2;
    mem.mark_address_range_as_accessed(execution_segment, args_ptr, n_total_args);
    read_only_segments.mark_as_accessed(mem);

    let call_result = match get_call_result(mem, return_values, call.initial_gas, &tracked_resource)
    {
        Ok(c) => c,
        Err(e) => {
            return Err(e);
        },
    };

    let vm_resources_without_inner_calls = match tracked_resource {
        TrackedResource::CairoSteps => {
            let mut run_resources = vm_run_resources;
            if segment_arena_cells {
                run_resources.builtin_instance_counter.segment_arena =
                    run_resources.builtin_instance_counter.segment_arena
                    * SEGMENT_ARENA_BUILTIN_SIZE;
            }
            er_add(&run_resources, &handler.syscall_resources)
        },
        TrackedResource::SierraGas => ExecutionResources::zeroed(),
    };

    let gas_for_fee = gas_consumed_without_inner_calls(
        &tracked_resource,
        call_result.gas_consumed,
        &handler.inner_calls,
    );
    proof {
        assert(gas_for_fee.0 == spec_gas_without_inner(
            tracked_resource,
            call.initial_gas,
            return_values@,
            handler.inner_calls@,
        ));
    }
    let inner_summary = summarize_charged_resources(&handler.inner_calls);
    proof {
        lemma_sum_u64_nonneg(charged_gas_seq(handler.inner_calls@));
    }
    let charged_resources = ChargedResources {
        vm_resources: er_add(&vm_resources_without_inner_calls, &inner_summary.vm_resources),
        gas_for_fee: GasAmount(gas_for_fee.0 + inner_summary.gas_for_fee.0),
    };

    Ok(
        CallInfo {
            call,
            execution: CallExecution {
                retdata: call_result.retdata,
                events: handler.events,
                l2_to_l1_messages: handler.l2_to_l1_messages,
                failed: call_result.failed,
                gas_consumed: call_result.gas_consumed,
            },
            inner_calls: handler.inner_calls,
            tracked_resource,
            charged_resources,
            storage_read_values: handler.storage_read_values,
            accessed_storage_keys: handler.accessed_storage_keys,
            accessed_contract_addresses: handler.accessed_contract_addresses,
            read_class_hash_values: handler.read_class_hash_values,
        },
    )
}

/// Everything the driver sets up before the virtual machine runs: the prepared
/// memory, the syscall segment pointer, the resolved entry point, and the
/// length of the data appended after the program.
#[derive(Clone, Debug, PartialEq, Eq)]
pub struct VmExecutionContext {
    pub memory: VmMemory,
    pub read_only_segments: ReadOnlySegments,
    pub initial_syscall_ptr: VmValue,
    pub entry_point: EntryPointV1,
    pub program_segment: usize,
    pub program_extra_data_length: usize,
}

/// Copies an entry point.
fn clone_entry_point(ep: &EntryPointV1) -> (r: EntryPointV1)
    ensures
        ep_eq(r, *ep),
{
    let mut builtins: Vec<BuiltinName> = Vec::new();
    let mut i: usize = 0;
    while i < ep.builtins.len()
        invariant
            0 <= i <= ep.builtins@.len(),
            builtins@ =~= ep.builtins@.take(i as int),
        decreases ep.builtins@.len() - i,
    {
        builtins.push(ep.builtins[i]);
        i += 1;
    }
    proof {
        assert(ep.builtins@.take(ep.builtins@.len() as int) =~= ep.builtins@);
    }
    EntryPointV1 { selector: ep.selector, pc: ep.pc, builtins }
}

/// Initializes the execution context for a call: resolves the entry point,
/// lays out fresh memory with the program segment first, appends the builtin
/// cost table and the trailing return opcode after the program, and allocates
/// the syscall segment. Fails if and only if the class has no entry point for
/// the call's selector.
pub fn initialize_execution_context(
    call: &CallEntryPoint,
    compiled_class: &CompiledClass,
    gas_costs: &BuiltinGasCosts,
) -> (r: Result<VmExecutionContext, PreExecutionError>)
    requires
        compiled_class.bytecode_length + PROGRAM_EXTRA_DATA_LENGTH <= usize::MAX,
    ensures
        r is Ok <==> (exists|j: int|
            0 <= j < compiled_class.entry_points@.len() && (
            #[trigger] compiled_class.entry_points@[j]).selector == call.entry_point_selector),
        r matches Ok(ctx) ==> {
            &&& exists|j: int|
                #[trigger] is_first_entry_point(compiled_class, call.entry_point_selector, j)
                    && ep_eq(compiled_class.entry_points@[j], ctx.entry_point)
            &&& ctx.program_extra_data_length == PROGRAM_EXTRA_DATA_LENGTH
            &&& ctx.program_segment == 0
            &&& ctx.memory.segments@.len() == 3
            &&& ctx.memory.segment_used_sizes@.len() == 3
            &&& ctx.memory.segments@[1].cells@ =~= gas_costs.spec_table().map_values(
                |v: VmValue| Some(v),
            )
            &&& ctx.memory.spec_read(0, compiled_class.bytecode_length as int) == Some(
                VmValue::Int(Felt { v: RETURN_OPCODE }),
            )
            &&& ctx.memory.spec_read(0, compiled_class.bytecode_length + 1) == Some(
                VmValue::Ptr { segment: 1, offset: 0 },
            )
            &&& ctx.initial_syscall_ptr == (VmValue::Ptr { segment: 2, offset: 0 })
            &&& ctx.read_only_segments.segments@.len() == 1
            &&& ctx.read_only_segments.segments@[0] == (1usize, 6usize)
            &&& ctx.read_only_segments.wf(&ctx.memory)
        },
        r matches Err(e) ==> e == PreExecutionError::EntryPointNotFound(call.entry_point_selector),
{
    let entry_point = match compiled_class.get_entry_point(call.entry_point_selector) {
        Ok(ep) => clone_entry_point(ep),
        Err(e) => {
            return Err(e);
        },
    };
    let mut memory = VmMemory::new();
    let mut read_only_segments = ReadOnlySegments::new();
    let program_segment = memory.add_segment();
    let extra = match prepare_program_extra_data(
        &mut memory,
        program_segment,
        compiled_class.bytecode_length,
        &mut read_only_segments,
        gas_costs,
    ) {
        Ok(n) => n,
        Err(e) => {
            return Err(e);
        },
    };
    let syscall_segment = memory.add_segment();
    let initial_syscall_ptr = VmValue::Ptr { segment: syscall_segment, offset: 0 };
    Ok(
        VmExecutionContext {
            memory,
            read_only_segments,
            initial_syscall_ptr,
            entry_point,
            program_segment,
            program_extra_data_length: extra,
        },
    )
}

/// What the virtual machine reports after being asked to run an entry point:
/// whether the run and the security verification succeeded, the memory as the
/// run left it, the runners it created, its final allocation pointer and
/// initial frame pointer, the relocated trace, the last five stack values, its
/// resource count, and what the syscall handler accumulated.
#[derive(Debug, PartialEq, Eq)]
pub struct VmRunOutcome {
    pub run_ok: bool,
    pub secure_ok: bool,
    pub memory: VmMemory,
    pub runners: Vec<BuiltinRunnerModel>,
    pub ap_segment: usize,
    pub ap_offset: usize,
    pub execution_segment: usize,
    pub initial_fp_offset: usize,
    pub trace_pcs: Vec<usize>,
    pub return_values: Vec<VmValue>,
    pub resources: ExecutionResources,
    pub handler: SyscallHandlerOutput,
}

/// The output of one entry-point call: the call record, the set of bytecode
/// offsets the run visited, and the class they are accounted to.
#[derive(Debug, PartialEq, Eq)]
pub struct ExecutionOutput {
    pub call_info: CallInfo,
    pub visited_pcs: Vec<usize>,
    pub class_hash: ClassHash,
}

/// What `execute_entry_point_call` assumes of a run the virtual machine
/// reports as complete, for the entry point the call resolves to: the machine
/// kept every segment the driver prepared, the runners are one per builtin,
/// the range-check-96 bookkeeping is consistent, the execution segment exists,
/// and the resource books fit in machine words.
pub open spec fn run_outcome_wf(
    call: &CallEntryPoint,
    compiled_class: &CompiledClass,
    segment_arena_cells: bool,
    tracked_resource: TrackedResource,
    run: &VmRunOutcome,
) -> bool {
    &&& run.memory.segment_used_sizes@.len() == run.memory.segments@.len()
    &&& runners_distinct(run.runners@)
    &&& run.execution_segment < run.memory.segments@.len()
    &&& finalize_fits(
        tracked_resource,
        run.resources,
        segment_arena_cells,
        &run.handler,
        call.initial_gas,
        run.return_values@,
    )
    &&& forall|j: int|
        #[trigger] is_first_entry_point(compiled_class, call.entry_point_selector, j) ==> {
            &&& fill_holes_pre(
                compiled_class.entry_points@[j].builtins@,
                run.runners@,
                run.ap_segment as int,
                run.ap_offset as int,
                &run.memory,
            )
            &&& run.memory.segments@.len() >= 4 + arena_segment_count(
                compiled_class.entry_points@[j].builtins@,
                run.runners@,
            )
        }
}

/// The first entry point for a selector is unique.
pub proof fn lemma_first_entry_point_unique(
    class: &CompiledClass,
    selector: Felt,
    j1: int,
    j2: int,
)
    requires
        is_first_entry_point(class, selector, j1),
        is_first_entry_point(class, selector, j2),
    ensures
        j1 == j2,
{
    if j1 < j2 {
        assert(class.entry_points@[j1].selector == selector);
    } else if j2 < j1 {
        assert(class.entry_points@[j2].selector == selector);
    }
}

/// A declared range-check-96 builtin has a reverse position.
pub proof fn lemma_rc96_rev_offset_exists(builtins: Seq<BuiltinName>)
    requires
        exists|k: int| 0 <= k < builtins.len() && (#[trigger] builtins[k]) is RangeCheck96,
    ensures
        exists|p: int| #[trigger] is_rc96_rev_offset(builtins, p),
    decreases builtins.len(),
{
    let k = choose|k: int| 0 <= k < builtins.len() && (#[trigger] builtins[k]) is RangeCheck96;
    if builtins.last() is RangeCheck96 {
        assert(is_rc96_rev_offset(builtins, 0));
    } else {
        assert(k < builtins.len() - 1);
        assert(builtins.drop_last()[k] == builtins[k]);
        lemma_rc96_rev_offset_exists(builtins.drop_last());
        let p = choose|p: int| #[trigger] is_rc96_rev_offset(builtins.drop_last(), p);
        assert(is_rc96_rev_offset(builtins, p + 1)) by {
            let short = builtins.drop_last();
            assert(builtins[builtins.len() - 1 - (p + 1)] == short[short.len() - 1 - p]);
            assert forall|m: int|
                builtins.len() - 1 - (p + 1) < m < builtins.len() implies !((
            #[trigger] builtins[m]) is RangeCheck96) by {
                if m < builtins.len() - 1 {
                    assert(builtins[m] == short[m]);
                }
            }
        }
    }
}

/// The reverse position of the last range-check-96 builtin is unique.
pub proof fn lemma_rc96_rev_offset_unique(builtins: Seq<BuiltinName>, p1: int, p2: int)
    requires
        is_rc96_rev_offset(builtins, p1),
        is_rc96_rev_offset(builtins, p2),
    ensures
        p1 == p2,
{
    if p1 < p2 {
        assert(builtins[builtins.len() - 1 - p1] is RangeCheck96);
    } else if p2 < p1 {
        assert(builtins[builtins.len() - 1 - p2] is RangeCheck96);
    }
}

/// What a memory cell holds once the range-check-96 holes are filled, as a
/// function of the memory the run left and the declared builtins: if the
/// builtin is declared and its stop pointer is readable, the unset cells of
/// the stop pointer's segment below its offset become zero; everything else is
/// as the run left it.
pub open spec fn spec_read_after_fill(
    mem: &VmMemory,
    builtins: Seq<BuiltinName>,
    ap_segment: int,
    ap_offset: int,
    seg: int,
    off: int,
) -> Option<VmValue> {
    if exists|p: int| #[trigger] is_rc96_rev_offset(builtins, p) {
        let p = choose|p: int| #[trigger] is_rc96_rev_offset(builtins, p);
        if ap_offset >= 6 + p {
            match mem.spec_read(ap_segment, ap_offset - 6 - p) {
                Some(VmValue::Ptr { segment: base, offset: stop }) => {
                    if seg == base && 0 <= off < stop && mem.spec_read(seg, off) is None {
                        Some(VmValue::Int(Felt { v: 0 }))
                    } else {
                        mem.spec_read(seg, off)
                    }
                },
                _ => mem.spec_read(seg, off),
            }
        } else {
            mem.spec_read(seg, off)
        }
    } else {
        mem.spec_read(seg, off)
    }
}

/// When a call to a contract entry point succeeds: the call names a class, the
/// class has an entry point for the selector, every declared builtin has a
/// runner or is the segment arena, the machine completed the run and its
/// security verification, the range-check-96 stop pointer is readable where
/// that builtin is declared, every trace entry lies at or above the relocated
/// program start, the machine returned the five-value stack with a well-formed
/// panic flag, return-data bounds whose cells (after hole filling) all hold
/// integers, remaining gas within the initial gas, and a frame pointer that
/// sits above the arguments. This is exactly the success condition of
/// `execute_entry_point_call`.
pub open spec fn spec_execute_ok(
    call: &CallEntryPoint,
    compiled_class: &CompiledClass,
    run: &VmRunOutcome,
) -> bool {
    &&& call.class_hash is Some
    &&& (exists|j: int|
        #[trigger] is_first_entry_point(compiled_class, call.entry_point_selector, j))
    &&& ({
        let j = choose|j: int|
            #[trigger] is_first_entry_point(compiled_class, call.entry_point_selector, j);
        let builtins = compiled_class.entry_points@[j].builtins@;
        &&& spec_builtin_args(builtins, run.runners@, 3) is Some
        &&& run.run_ok
        &&& (forall|p: int|
            #[trigger] is_rc96_rev_offset(builtins, p) ==> run.ap_offset >= 6 + p
                && run.memory.spec_read(run.ap_segment as int, run.ap_offset - 6 - p)
                matches Some(VmValue::Ptr { .. }))
        &&& run.secure_ok
        &&& (forall|i: int| 0 <= i < run.trace_pcs@.len() ==> run.trace_pcs@[i] >= 1)
        &&& run.return_values@.len() == 5
        &&& run.initial_fp_offset >= spec_builtin_args(builtins, run.runners@, 3).unwrap().len()
            + 6
        &&& spec_failure_flag(run.return_values@) is Some
        &&& (spec_retdata_bounds(run.return_values@) matches Some((seg, start, end)) && (forall|
            o: int,
        |
            start <= o < end ==> (#[trigger] spec_read_after_fill(
                &run.memory,
                builtins,
                run.ap_segment as int,
                run.ap_offset as int,
                seg,
                o,
            )) matches Some(VmValue::Int(_))))
        &&& spec_remaining_gas(run.return_values@, call.initial_gas) is Some
    })
}

/// Transfers return-data readability across two memories that read alike and
/// a fill image they both equal.
proof fn lemma_readable_transfer(
    a: &VmMemory,
    mem0: &VmMemory,
    builtins: Seq<BuiltinName>,
    aps: int,
    apo: int,
    seg: int,
    st: int,
    en: int,
)
    requires
        forall|s2: int, o2: int|
            #[trigger] a.spec_read(s2, o2) == spec_read_after_fill(
                mem0,
                builtins,
                aps,
                apo,
                s2,
                o2,
            ),
    ensures
        spec_retdata_readable(a, seg, st, en) <==> (forall|o: int|
            st <= o < en ==> (#[trigger] spec_read_after_fill(
                mem0,
                builtins,
                aps,
                apo,
                seg,
                o,
            )) matches Some(VmValue::Int(_))),
{
    if spec_retdata_readable(a, seg, st, en) {
        assert forall|o: int|
            st <= o < en implies (#[trigger] spec_read_after_fill(
            mem0,
            builtins,
            aps,
            apo,
            seg,
            o,
        )) matches Some(VmValue::Int(_)) by {
            assert(a.spec_read(seg, o) matches Some(VmValue::Int(_)));
            assert(a.spec_read(seg, o) == spec_read_after_fill(mem0, builtins, aps, apo, seg, o));
        }
    } else {
        let o = choose|o: int|
            st <= o < en && !((#[trigger] a.spec_read(seg, o)) matches Some(VmValue::Int(_)));
        assert(a.spec_read(seg, o) == spec_read_after_fill(mem0, builtins, aps, apo, seg, o));
        assert(!((spec_read_after_fill(mem0, builtins, aps, apo, seg, o)) matches Some(
            VmValue::Int(_),
        )));
    }
}

/// Executes a specific call to a contract entry point and returns its output.
///
/// The driver resolves the entry point, prepares memory and arguments, hands
/// the run to the virtual machine (whose report is `run`), fills the
/// range-check-96 holes, verifies the secure-runner check, collects the
/// visited program counters, and finalizes the call record. Every visited
/// offset it reports lies inside the class's bytecode.
pub fn execute_entry_point_call(
    call: CallEntryPoint,
    compiled_class: &CompiledClass,
    gas_costs: &BuiltinGasCosts,
    tracked_resource_stack: &Vec<TrackedResource>,
    segment_arena_cells: bool,
    run: VmRunOutcome,
) -> (r: Result<ExecutionOutput, EntryPointExecutionError>)
    requires
        tracked_resource_stack@.len() > 0,
        compiled_class.bytecode_length + PROGRAM_EXTRA_DATA_LENGTH <= usize::MAX,
        run_outcome_wf(
            &call,
            compiled_class,
            segment_arena_cells,
            tracked_resource_stack@.last(),
            &run,
        ),
    ensures
        r is Ok <==> spec_execute_ok(&call, compiled_class, &run),
        call.class_hash is None ==> r == Err::<ExecutionOutput, EntryPointExecutionError>(
            EntryPointExecutionError::InternalError,
        ),
        r matches Ok(out) ==> {
            &&& call.class_hash == Some(out.class_hash)
            &&& run.run_ok && run.secure_ok
            &&& forall|p: int|
                0 <= p < out.visited_pcs@.len() ==> #[trigger] out.visited_pcs@[p]
                    < compiled_class.bytecode_length
            &&& forall|p: usize|
                #[trigger] out.visited_pcs@.contains(p) <==> (p < compiled_class.bytecode_length
                    && exists|i: int|
                    0 <= i < run.trace_pcs@.len() && #[trigger] run.trace_pcs@[i] >= 1 && p
                        == run.trace_pcs@[i] - 1)
            &&& out.call_info.call == call
            &&& out.call_info.tracked_resource == tracked_resource_stack@.last()
            &&& out.call_info.inner_calls == run.handler.inner_calls
            &&& Some(out.call_info.execution.failed) == spec_failure_flag(run.return_values@)
            &&& out.call_info.execution.events == run.handler.events
            &&& out.call_info.execution.l2_to_l1_messages == run.handler.l2_to_l1_messages
            &&& match tracked_resource_stack@.last() {
                TrackedResource::CairoSteps => out.call_info.execution.gas_consumed == 0
                    && out.call_info.charged_resources.gas_for_fee.0 == sum_u64(
                    charged_gas_seq(run.handler.inner_calls@),
                ),
                TrackedResource::SierraGas => out.call_info.execution.gas_consumed
                    <= call.initial_gas && out.call_info.charged_resources.vm_resources
                    == spec_summarize(run.handler.inner_calls@).vm_resources,
            }
        },
{
    let class_hash = match call.class_hash {
        Some(h) => h,
        None => {
            return Err(EntryPointExecutionError::InternalError);
        },
    };
    let ghost tracked_ghost = tracked_resource_stack@.last();
    let tracked_resource = tracked_resource_stack[tracked_resource_stack.len() - 1];
    let ctx = match initialize_execution_context(&call, compiled_class, gas_costs) {
        Ok(c) => c,
        Err(e) => {
            proof {
                if exists|j: int|
                    #[trigger] is_first_entry_point(compiled_class, call.entry_point_selector, j) {
                    let j = choose|j: int|
                        #[trigger] is_first_entry_point(
                            compiled_class,
                            call.entry_point_selector,
                            j,
                        );
                    assert((#[trigger] compiled_class.entry_points@[j]).selector
                        == call.entry_point_selector);
                    assert(false);
                }
            }
            return Err(EntryPointExecutionError::PreExecutionError(e));
        },
    };
    let ghost epj = choose|j: int|
        #[trigger] is_first_entry_point(compiled_class, call.entry_point_selector, j) && ep_eq(
            compiled_class.entry_points@[j],
            ctx.entry_point,
        );
    proof {
        assert(is_first_entry_point(compiled_class, call.entry_point_selector, epj));
        lemma_arena_segment_count_nonneg(
            compiled_class.entry_points@[epj].builtins@,
            run.runners@,
        );
        let sj = choose|j: int|
            #[trigger] is_first_entry_point(compiled_class, call.entry_point_selector, j);
        lemma_first_entry_point_unique(compiled_class, call.entry_point_selector, sj, epj);
        assert(compiled_class.entry_points@[sj].builtins@ == ctx.entry_point.builtins@);
    }
    let VmExecutionContext {
        mut memory,
        mut read_only_segments,
        initial_syscall_ptr,
        entry_point,
        program_segment,
        program_extra_data_length,
    } = ctx;
    let args = match prepare_call_arguments(
        &call,
        &mut memory,
        initial_syscall_ptr,
        &mut read_only_segments,
        &entry_point,
        &run.runners,
    ) {
        Ok(a) => a,
        Err(e) => {
            return Err(EntryPointExecutionError::PreExecutionError(e));
        },
    };
    let n_total_args = args.len();

    // The prepared memory is handed to the virtual machine; `run` is what the
    // machine reports back, including the memory as the run left it.
    if !run.run_ok {
        return Err(EntryPointExecutionError::VirtualMachineError);
    }
    let mut run_memory = run.memory;
    let ghost mem0 = run_memory;
    proof {
        assert(entry_point.builtins@ == compiled_class.entry_points@[epj].builtins@);
        assert(fill_holes_pre(
            entry_point.builtins@,
            run.runners@,
            run.ap_segment as int,
            run.ap_offset as int,
            &run_memory,
        ));
        assert(run_memory.segments@.len() >= 4 + arena_segment_count(
            entry_point.builtins@,
            run.runners@,
        ));
    }
    match maybe_fill_holes(
        &entry_point,
        &run.runners,
        run.ap_segment,
        run.ap_offset,
        &mut run_memory,
    ) {
        Ok(()) => {},
        Err(e) => {
            proof {
                let builtins = entry_point.builtins@;
                assert(!(forall|k: int|
                    0 <= k < builtins.len() ==> !((#[trigger] builtins[k]) is RangeCheck96)));
                assert(exists|k: int|
                    0 <= k < builtins.len() && (#[trigger] builtins[k]) is RangeCheck96);
                lemma_rc96_rev_offset_exists(builtins);
                let p = choose|p: int| #[trigger] is_rc96_rev_offset(builtins, p);
                assert(!(run.ap_offset >= 6 + p && mem0.spec_read(
                    run.ap_segment as int,
                    run.ap_offset - 6 - p,
                ) matches Some(VmValue::Ptr { .. })));
            }
            return Err(e);
        },
    }
    // The memory as it stands now is the run's memory with the holes filled.
    proof {
        let builtins = entry_point.builtins@;
        assert forall|s2: int, o2: int| #[trigger]
            run_memory.spec_read(s2, o2) == spec_read_after_fill(
            &mem0,
            builtins,
            run.ap_segment as int,
            run.ap_offset as int,
            s2,
            o2,
        ) by {
            if exists|p: int| #[trigger] is_rc96_rev_offset(builtins, p) {
                let p = choose|p: int| #[trigger] is_rc96_rev_offset(builtins, p);
                assert(run.ap_offset >= 6 + p);
                match mem0.spec_read(run.ap_segment as int, run.ap_offset - 6 - p) {
                    Some(VmValue::Ptr { segment: base, offset: stop }) => {
                        assert(fill_holes_effect(&mem0, &run_memory, base as int, stop as int));
                        if s2 == base {
                            if 0 <= o2 < stop {
                            } else {
                                assert(run_memory.spec_read(s2, o2) == mem0.spec_read(s2, o2));
                            }
                        } else {
                            if 0 <= s2 < mem0.segments@.len() {
                                assert(run_memory.segments@[s2] == mem0.segments@[s2]);
                            }
                        }
                    },
                    _ => {
                        assert(false);
                    },
                }
            } else {
                if exists|k: int|
                    0 <= k < builtins.len() && (#[trigger] builtins[k]) is RangeCheck96 {
                    lemma_rc96_rev_offset_exists(builtins);
                    assert(false);
                }
                assert(forall|k: int|
                    0 <= k < builtins.len() ==> !((#[trigger] builtins[k]) is RangeCheck96));
                assert(run_memory == mem0);
            }
        }
    }
    if !run.secure_ok {
        return Err(EntryPointExecutionError::VirtualMachineError);
    }

    let visited_pcs = match register_visited_pcs(&run.trace_pcs, compiled_class.bytecode_length) {
        Ok(v) => v,
        Err(e) => {
            return Err(e);
        },
    };

    if run.return_values.len() != 5 {
        return Err(EntryPointExecutionError::VirtualMachineError);
    }
    proof {
        assert forall|i: int|
            0 <= i < read_only_segments.segments@.len() implies (
        #[trigger] read_only_segments.segments@[i]).0 < run_memory.segments@.len() by {
            assert(read_only_segments.segments@.len() == 2);
            assert(read_only_segments.segments@[0] == (1usize, 6usize));
        }
        assert(read_only_segments.wf(&run_memory));
        // The argument vector is the builtin contributions plus four words.
        assert(n_total_args == spec_builtin_args(
            entry_point.builtins@,
            run.runners@,
            3,
        ).unwrap().len() + 4);
    }
    let ghost pre_fin = run_memory;
    let call_info = match finalize_execution(
        &mut run_memory,
        &read_only_segments,
        call,
        run.handler,
        &run.return_values,
        program_segment,
        compiled_class.bytecode_length,
        run.execution_segment,
        run.initial_fp_offset,
        n_total_args,
        program_extra_data_length,
        tracked_resource,
        run.resources,
        segment_arena_cells,
    ) {
        Ok(ci) => {
            proof {
                assert forall|s2: int, o2: int| #[trigger]
                    run_memory.spec_read(s2, o2) == spec_read_after_fill(
                    &run.memory,
                    entry_point.builtins@,
                    run.ap_segment as int,
                    run.ap_offset as int,
                    s2,
                    o2,
                ) by {
                    if 0 <= s2 < pre_fin.segments@.len() {
                        assert(run_memory.segments@[s2].cells == pre_fin.segments@[s2].cells);
                    }
                    assert(pre_fin.spec_read(s2, o2) == spec_read_after_fill(
                        &run.memory,
                        entry_point.builtins@,
                        run.ap_segment as int,
                        run.ap_offset as int,
                        s2,
                        o2,
                    ));
                }
                match spec_retdata_bounds(run.return_values@) {
                    Some((segb, stb, enb)) => {
                        lemma_readable_transfer(
                            &run_memory,
                            &run.memory,
                            entry_point.builtins@,
                            run.ap_segment as int,
                            run.ap_offset as int,
                            segb,
                            stb,
                            enb,
                        );
                    },
                    None => {},
                }
                // Every fill precondition the machine guarantees held, so the
                // stop pointer was readable wherever the builtin is declared.
                assert forall|p: int|
                    #[trigger] is_rc96_rev_offset(entry_point.builtins@, p) implies run.ap_offset
                    >= 6 + p && run.memory.spec_read(
                    run.ap_segment as int,
                    run.ap_offset - 6 - p,
                ) matches Some(VmValue::Ptr { .. }) by {
                    assert(mem0.spec_read(run.ap_segment as int, run.ap_offset - 6 - p)
                        == run.memory.spec_read(run.ap_segment as int, run.ap_offset - 6 - p));
                }
                assert(spec_execute_ok(&call, compiled_class, &run));
            }
            ci
        },
        Err(e) => {
            proof {
                assert forall|s2: int, o2: int| #[trigger]
                    run_memory.spec_read(s2, o2) == spec_read_after_fill(
                    &run.memory,
                    entry_point.builtins@,
                    run.ap_segment as int,
                    run.ap_offset as int,
                    s2,
                    o2,
                ) by {
                    if 0 <= s2 < pre_fin.segments@.len() {
                        assert(run_memory.segments@[s2].cells == pre_fin.segments@[s2].cells);
                    }
                    assert(pre_fin.spec_read(s2, o2) == spec_read_after_fill(
                        &run.memory,
                        entry_point.builtins@,
                        run.ap_segment as int,
                        run.ap_offset as int,
                        s2,
                        o2,
                    ));
                }
                match spec_retdata_bounds(run.return_values@) {
                    Some((segb, stb, enb)) => {
                        lemma_readable_transfer(
                            &run_memory,
                            &run.memory,
                            entry_point.builtins@,
                            run.ap_segment as int,
                            run.ap_offset as int,
                            segb,
                            stb,
                            enb,
                        );
                    },
                    None => {},
                }
                assert(!spec_execute_ok(&call, compiled_class, &run));
            }
            return Err(EntryPointExecutionError::PostExecutionError(e));
        },
    };
    proof {
        assert(spec_er_add(
            ExecutionResources::spec_zeroed(),
            spec_summarize(run.handler.inner_calls@).vm_resources,
        ) == spec_summarize(run.handler.inner_calls@).vm_resources);
    }
    Ok(ExecutionOutput { call_info, visited_pcs, class_hash })
}

/// Whether a vector of offsets contains the given offset.
fn vec_contains_usize(v: &Vec<usize>, x: usize) -> (r: bool)
    ensures
        r == v@.contains(x),
{
    let mut i: usize = 0;
    while i < v.len()
        invariant
            0 <= i <= v@.len(),
            forall|k: int| 0 <= k < i ==> v@[k] != x,
        decreases v@.len() - i,
    {
        if v[i] == x {
            return true;
        }
        i += 1;
    }
    false
}

} // verus!
