use sequencer_core::execution::{
    execute_entry_point_call, gas_consumed_without_inner_calls, get_call_result,
    initialize_execution_context, maybe_fill_holes, prepare_call_arguments, register_visited_pcs,
    BuiltinGasCosts, BuiltinName, BuiltinRunnerModel, CallEntryPoint, CallExecution, CallInfo,
    ChargedResources, CompiledClass, EntryPointV1, ExecutionResources, PostExecutionError,
    SyscallHandlerOutput, TrackedResource, TxExecutionInfo, VmMemory, VmRunOutcome, VmValue,
    PreExecutionError, ReadOnlySegments,
};
use sequencer_core::transaction::Calldata;
use sequencer_core::types::{ClassHash, Felt, GasAmount};

fn leaf_call_info(gas: u64) -> CallInfo {
    CallInfo {
        call: CallEntryPoint {
            class_hash: None,
            entry_point_selector: Felt { v: 0 },
            calldata: Calldata(Vec::new()),
            initial_gas: 0,
        },
        execution: CallExecution {
            retdata: Vec::new(),
            events: 0,
            l2_to_l1_messages: 0,
            failed: false,
            gas_consumed: gas,
        },
        inner_calls: Vec::new(),
        tracked_resource: TrackedResource::SierraGas,
        charged_resources: ChargedResources {
            vm_resources: ExecutionResources::zeroed(),
            gas_for_fee: GasAmount(0),
        },
        storage_read_values: Vec::new(),
        accessed_storage_keys: Vec::new(),
        accessed_contract_addresses: Vec::new(),
        read_class_hash_values: Vec::new(),
    }
}

#[test]
fn gas_without_inner_calls_cairo_steps_is_zero() {
    let inner = vec![leaf_call_info(30), leaf_call_info(20)];
    let g = gas_consumed_without_inner_calls(&TrackedResource::CairoSteps, 100, &inner);
    assert_eq!(g, GasAmount(0));
}

#[test]
fn gas_without_inner_calls_sierra_gas_partitions() {
    // The current call plus its inner calls account for the whole consumption.
    let inner = vec![leaf_call_info(30), leaf_call_info(20)];
    let g = gas_consumed_without_inner_calls(&TrackedResource::SierraGas, 100, &inner);
    assert_eq!(g, GasAmount(50));
    assert_eq!(g.0 + 30 + 20, 100);
}

#[test]
fn visited_pcs_stay_inside_bytecode() {
    // Entries past the bytecode (the appended cost plumbing) are filtered;
    // duplicates collapse.
    let trace = vec![1usize, 2, 5, 2, 3];
    let visited = register_visited_pcs(&trace, 3).unwrap();
    assert_eq!(visited, vec![0usize, 1, 2]);
    for p in &visited {
        assert!(*p < 3);
    }
}

#[test]
fn visited_pcs_rejects_pc_below_one() {
    let trace = vec![1usize, 0];
    assert!(register_visited_pcs(&trace, 3).is_err());
}

fn memory_with_retdata() -> (VmMemory, usize) {
    let mut mem = VmMemory::new();
    let seg = mem.add_segment();
    mem.insert_value(seg, 0, VmValue::Int(Felt { v: 11 })).unwrap();
    mem.insert_value(seg, 1, VmValue::Int(Felt { v: 22 })).unwrap();
    (mem, seg)
}

#[test]
fn call_result_extracts_retdata_and_gas() {
    let (mem, seg) = memory_with_retdata();
    let return_values = vec![
        VmValue::Int(Felt { v: 4 }),
        VmValue::Ptr { segment: 9, offset: 0 },
        VmValue::Int(Felt { v: 0 }),
        VmValue::Ptr { segment: seg, offset: 0 },
        VmValue::Ptr { segment: seg, offset: 2 },
    ];
    let r = get_call_result(&mem, &return_values, 10, &TrackedResource::SierraGas).unwrap();
    assert!(!r.failed);
    assert_eq!(r.retdata, vec![Felt { v: 11 }, Felt { v: 22 }]);
    assert_eq!(r.gas_consumed, 6);
}

#[test]
fn call_result_rejects_bad_failure_flag() {
    let (mem, seg) = memory_with_retdata();
    let return_values = vec![
        VmValue::Int(Felt { v: 4 }),
        VmValue::Ptr { segment: 9, offset: 0 },
        VmValue::Int(Felt { v: 2 }),
        VmValue::Ptr { segment: seg, offset: 0 },
        VmValue::Ptr { segment: seg, offset: 2 },
    ];
    let r = get_call_result(&mem, &return_values, 10, &TrackedResource::SierraGas);
    assert_eq!(r, Err(PostExecutionError::MalformedReturnData));
}

#[test]
fn call_result_rejects_gas_above_initial() {
    let (mem, seg) = memory_with_retdata();
    let return_values = vec![
        VmValue::Int(Felt { v: 11 }),
        VmValue::Ptr { segment: 9, offset: 0 },
        VmValue::Int(Felt { v: 1 }),
        VmValue::Ptr { segment: seg, offset: 0 },
        VmValue::Ptr { segment: seg, offset: 2 },
    ];
    let r = get_call_result(&mem, &return_values, 10, &TrackedResource::SierraGas);
    assert_eq!(r, Err(PostExecutionError::MalformedReturnData));
}

fn gas_costs() -> BuiltinGasCosts {
    BuiltinGasCosts { pedersen: 1, bitwise: 2, ec_op: 3, poseidon: 4, add_mod: 5, mul_mod: 6 }
}

fn test_class() -> CompiledClass {
    CompiledClass {
        bytecode_length: 4,
        entry_points: vec![EntryPointV1 { selector: Felt { v: 7 }, pc: 0, builtins: Vec::new() }],
    }
}

#[test]
fn initialize_lays_out_cost_table_and_return_opcode() {
    let call = CallEntryPoint {
        class_hash: Some(ClassHash { h: Felt { v: 5 } }),
        entry_point_selector: Felt { v: 7 },
        calldata: Calldata(vec![Felt { v: 1 }]),
        initial_gas: 100,
    };
    let ctx = initialize_execution_context(&call, &test_class(), &gas_costs()).unwrap();
    assert_eq!(ctx.program_extra_data_length, 2);
    assert_eq!(ctx.memory.segments.len(), 3);
    // The cost table holds the six priced builtins in canonical order.
    assert_eq!(
        ctx.memory.segments[1].cells,
        vec![
            Some(VmValue::Int(Felt { v: 1 })),
            Some(VmValue::Int(Felt { v: 2 })),
            Some(VmValue::Int(Felt { v: 3 })),
            Some(VmValue::Int(Felt { v: 4 })),
            Some(VmValue::Int(Felt { v: 5 })),
            Some(VmValue::Int(Felt { v: 6 })),
        ]
    );
    // The program ends with the return opcode and a pointer to the cost table.
    assert_eq!(
        ctx.memory.read(0, 4),
        Some(VmValue::Int(Felt { v: 0x208b7fff7fff7ffe }))
    );
    assert_eq!(ctx.memory.read(0, 5), Some(VmValue::Ptr { segment: 1, offset: 0 }));
}

#[test]
fn initialize_rejects_unknown_selector() {
    let call = CallEntryPoint {
        class_hash: Some(ClassHash { h: Felt { v: 5 } }),
        entry_point_selector: Felt { v: 8 },
        calldata: Calldata(Vec::new()),
        initial_gas: 100,
    };
    let r = initialize_execution_context(&call, &test_class(), &gas_costs());
    assert_eq!(r, Err(PreExecutionError::EntryPointNotFound(Felt { v: 8 })));
}

#[test]
fn call_arguments_in_declared_order() {
    // One runner-backed builtin, then the segment arena, then gas, syscall
    // pointer and the calldata bounds.
    let call = CallEntryPoint {
        class_hash: Some(ClassHash { h: Felt { v: 5 } }),
        entry_point_selector: Felt { v: 7 },
        calldata: Calldata(vec![Felt { v: 9 }, Felt { v: 8 }]),
        initial_gas: 100,
    };
    let mut mem = VmMemory::new();
    let _program = mem.add_segment();
    let mut ros = ReadOnlySegments::new();
    let entry_point = EntryPointV1 {
        selector: Felt { v: 7 },
        pc: 0,
        builtins: vec![BuiltinName::RangeCheck, BuiltinName::SegmentArena],
    };
    let runners = vec![BuiltinRunnerModel {
        name: BuiltinName::RangeCheck,
        initial_stack: vec![VmValue::Ptr { segment: 0, offset: 0 }],
        base: 0,
    }];
    let args = prepare_call_arguments(
        &call,
        &mut mem,
        VmValue::Ptr { segment: 9, offset: 0 },
        &mut ros,
        &entry_point,
        &runners,
    )
    .unwrap();
    assert_eq!(
        args,
        vec![
            VmValue::Ptr { segment: 0, offset: 0 },
            // The arena pointer points one past its freshly written triple.
            VmValue::Ptr { segment: 1, offset: 3 },
            VmValue::Int(Felt { v: 100 }),
            VmValue::Ptr { segment: 9, offset: 0 },
            VmValue::Ptr { segment: 3, offset: 0 },
            VmValue::Ptr { segment: 3, offset: 2 },
        ]
    );
}

#[test]
fn call_arguments_reject_unsupported_builtin() {
    let call = CallEntryPoint {
        class_hash: Some(ClassHash { h: Felt { v: 5 } }),
        entry_point_selector: Felt { v: 7 },
        calldata: Calldata(Vec::new()),
        initial_gas: 100,
    };
    let mut mem = VmMemory::new();
    let _program = mem.add_segment();
    let mut ros = ReadOnlySegments::new();
    let entry_point = EntryPointV1 {
        selector: Felt { v: 7 },
        pc: 0,
        builtins: vec![BuiltinName::Keccak],
    };
    let r = prepare_call_arguments(
        &call,
        &mut mem,
        VmValue::Ptr { segment: 9, offset: 0 },
        &mut ros,
        &entry_point,
        &Vec::new(),
    );
    assert_eq!(r, Err(PreExecutionError::InvalidBuiltin(BuiltinName::Keccak)));
}

#[test]
fn fill_holes_writes_zeros_below_stop() {
    // The stop pointer sits six words below the allocation pointer and points
    // into the builtin's segment; unset cells below it become zero.
    let mut mem = VmMemory::new();
    let rc96 = mem.add_segment();
    mem.insert_value(rc96, 1, VmValue::Int(Felt { v: 9 })).unwrap();
    let exec_seg = mem.add_segment();
    mem.insert_value(exec_seg, 0, VmValue::Ptr { segment: rc96, offset: 3 }).unwrap();
    let entry_point = EntryPointV1 {
        selector: Felt { v: 7 },
        pc: 0,
        builtins: vec![BuiltinName::RangeCheck96],
    };
    let runners = vec![BuiltinRunnerModel {
        name: BuiltinName::RangeCheck96,
        initial_stack: Vec::new(),
        base: rc96,
    }];
    maybe_fill_holes(&entry_point, &runners, exec_seg, 6, &mut mem).unwrap();
    assert_eq!(mem.read(rc96, 0), Some(VmValue::Int(Felt { v: 0 })));
    assert_eq!(mem.read(rc96, 1), Some(VmValue::Int(Felt { v: 9 })));
    assert_eq!(mem.read(rc96, 2), Some(VmValue::Int(Felt { v: 0 })));
    assert_eq!(mem.segment_used_sizes[rc96], 3);
}

#[test]
fn execute_entry_point_call_happy_path() {
    let call = CallEntryPoint {
        class_hash: Some(ClassHash { h: Felt { v: 5 } }),
        entry_point_selector: Felt { v: 7 },
        calldata: Calldata(vec![Felt { v: 1 }]),
        initial_gas: 100,
    };
    // The machine's report: four segments as prepared (program, cost table,
    // syscall, calldata), a retdata segment, and the final stack.
    let mut mem = VmMemory::new();
    for _ in 0..4 {
        mem.add_segment();
    }
    let retdata_seg = mem.add_segment();
    mem.insert_value(retdata_seg, 0, VmValue::Int(Felt { v: 42 })).unwrap();
    let run = VmRunOutcome {
        run_ok: true,
        secure_ok: true,
        memory: mem,
        runners: Vec::new(),
        ap_segment: 2,
        ap_offset: 30,
        execution_segment: 2,
        initial_fp_offset: 10,
        trace_pcs: vec![1, 2, 3],
        return_values: vec![
            VmValue::Int(Felt { v: 40 }),
            VmValue::Ptr { segment: 2, offset: 0 },
            VmValue::Int(Felt { v: 0 }),
            VmValue::Ptr { segment: retdata_seg, offset: 0 },
            VmValue::Ptr { segment: retdata_seg, offset: 1 },
        ],
        resources: ExecutionResources::zeroed(),
        handler: SyscallHandlerOutput {
            events: 2,
            l2_to_l1_messages: 1,
            inner_calls: Vec::new(),
            storage_read_values: Vec::new(),
            accessed_storage_keys: Vec::new(),
            accessed_contract_addresses: Vec::new(),
            read_class_hash_values: Vec::new(),
            syscall_resources: ExecutionResources::zeroed(),
        },
    };
    let out = execute_entry_point_call(
        call,
        &test_class(),
        &gas_costs(),
        &vec![TrackedResource::SierraGas],
        false,
        run,
    )
    .unwrap();
    assert_eq!(out.class_hash, ClassHash { h: Felt { v: 5 } });
    assert_eq!(out.visited_pcs, vec![0usize, 1, 2]);
    assert!(!out.call_info.execution.failed);
    assert_eq!(out.call_info.execution.retdata, vec![Felt { v: 42 }]);
    // Sierra gas: 100 initial minus 40 remaining.
    assert_eq!(out.call_info.execution.gas_consumed, 60);
    assert_eq!(out.call_info.execution.events, 2);
    assert_eq!(out.call_info.charged_resources.gas_for_fee, GasAmount(60));
}

#[test]
fn tx_execution_info_is_plain_data() {
    let a = TxExecutionInfo { revert_happened: false, gas_consumed: 3 };
    let b = a;
    assert_eq!(a, b);
}

#[test]
fn memory_refuses_inconsistent_writes() {
    let mut mem = VmMemory::new();
    let seg = mem.add_segment();
    mem.insert_value(seg, 0, VmValue::Int(Felt { v: 1 })).unwrap();
    // Rewriting the same value is accepted; a different value is refused.
    assert!(mem.insert_value(seg, 0, VmValue::Int(Felt { v: 1 })).is_ok());
    assert_eq!(
        mem.insert_value(seg, 0, VmValue::Int(Felt { v: 2 })),
        Err(sequencer_core::execution::MemoryError::InconsistentMemory)
    );
}

fn run_for_error_paths(mem: VmMemory, run_ok: bool, initial_fp_offset: usize) -> VmRunOutcome {
    VmRunOutcome {
        run_ok,
        secure_ok: true,
        memory: mem,
        runners: Vec::new(),
        ap_segment: 2,
        ap_offset: 30,
        execution_segment: 2,
        initial_fp_offset,
        trace_pcs: vec![1],
        return_values: vec![
            VmValue::Int(Felt { v: 40 }),
            VmValue::Ptr { segment: 2, offset: 0 },
            VmValue::Int(Felt { v: 0 }),
            VmValue::Ptr { segment: 2, offset: 0 },
            VmValue::Ptr { segment: 2, offset: 0 },
        ],
        resources: ExecutionResources::zeroed(),
        handler: SyscallHandlerOutput {
            events: 0,
            l2_to_l1_messages: 0,
            inner_calls: Vec::new(),
            storage_read_values: Vec::new(),
            accessed_storage_keys: Vec::new(),
            accessed_contract_addresses: Vec::new(),
            read_class_hash_values: Vec::new(),
            syscall_resources: ExecutionResources::zeroed(),
        },
    }
}

fn four_segments() -> VmMemory {
    let mut mem = VmMemory::new();
    for _ in 0..4 {
        mem.add_segment();
    }
    mem
}

#[test]
fn execute_requires_a_class_hash() {
    let call = CallEntryPoint {
        class_hash: None,
        entry_point_selector: Felt { v: 7 },
        calldata: Calldata(Vec::new()),
        initial_gas: 100,
    };
    let r = execute_entry_point_call(
        call,
        &test_class(),
        &gas_costs(),
        &vec![TrackedResource::SierraGas],
        false,
        run_for_error_paths(four_segments(), true, 10),
    );
    assert_eq!(
        r.unwrap_err(),
        sequencer_core::execution::EntryPointExecutionError::InternalError
    );
}

#[test]
fn execute_surfaces_a_failed_run() {
    let call = CallEntryPoint {
        class_hash: Some(ClassHash { h: Felt { v: 5 } }),
        entry_point_selector: Felt { v: 7 },
        calldata: Calldata(Vec::new()),
        initial_gas: 100,
    };
    let r = execute_entry_point_call(
        call,
        &test_class(),
        &gas_costs(),
        &vec![TrackedResource::SierraGas],
        false,
        run_for_error_paths(four_segments(), false, 10),
    );
    assert_eq!(
        r.unwrap_err(),
        sequencer_core::execution::EntryPointExecutionError::VirtualMachineError
    );
}

#[test]
fn execute_rejects_a_frame_pointer_below_the_arguments() {
    let call = CallEntryPoint {
        class_hash: Some(ClassHash { h: Felt { v: 5 } }),
        entry_point_selector: Felt { v: 7 },
        calldata: Calldata(Vec::new()),
        initial_gas: 100,
    };
    // The argument vector holds four words; a frame pointer of one cannot sit
    // above them.
    let r = execute_entry_point_call(
        call,
        &test_class(),
        &gas_costs(),
        &vec![TrackedResource::SierraGas],
        false,
        run_for_error_paths(four_segments(), true, 1),
    );
    assert_eq!(
        r.unwrap_err(),
        sequencer_core::execution::EntryPointExecutionError::PostExecutionError(
            PostExecutionError::MathError
        )
    );
}
