use lume::codegen::{
    nul_terminated, stack_map_layout, stack_map_symbol_size, DataId, FrameMetadata, FuncId, FuncStackMap, MemoryBlockBuilder,
    StackLocation, StackMapEntry,
};

#[test]
fn bytes_are_padded_in_front_to_the_pointer_alignment() {
    let mut b = MemoryBlockBuilder::new();
    assert_eq!(b.offset(), 0);
    b.append_bytes(&[1, 2, 3]);
    assert_eq!(b.offset(), 8);
    let block = b.finish();
    assert_eq!(block.bytes, vec![0, 0, 0, 0, 0, 1, 2, 3]);
    assert_eq!(block.align, 8);
    assert!(block.used);
}

#[test]
fn addresses_record_relocations_at_the_offset() {
    let mut b = MemoryBlockBuilder::new();
    b.append_byte(7);
    b.append_func_address(FuncId(3));
    b.append_data_address(DataId(4), 16);
    b.append_null_ptr();
    b.append_data_address_at(DataId(5), 0, -1);
    assert_eq!(b.offset() % 8, 0);
    let block = b.finish();
    assert_eq!(block.bytes.len(), 32);
    assert_eq!(block.bytes[7], 7);
    assert_eq!(block.func_relocs.len(), 1);
    assert_eq!(block.func_relocs[0].0, 8);
    assert_eq!(block.func_relocs[0].1 .0, 3);
    assert_eq!(block.data_relocs.len(), 2);
    assert_eq!(block.data_relocs[0].0, 16);
    assert_eq!(block.data_relocs[0].2, 16);
    assert_eq!(block.data_relocs[1].0, 0);
    assert_eq!(block.data_relocs[1].1 .0, 5);
    assert_eq!(block.data_relocs[1].2, -1);
}

#[test]
fn encoded_values_are_padded_after() {
    let mut b = MemoryBlockBuilder::new();
    b.append_encoded(vec![9, 9]);
    b.set_segment_section("__DATA", "__lume_meta");
    let block = b.finish();
    assert_eq!(block.bytes, vec![9, 9, 0, 0, 0, 0, 0, 0]);
    assert_eq!(block.segment_section, Some(("__DATA", "__lume_meta")));
}

#[test]
fn alignment_queries() {
    let b = MemoryBlockBuilder::new();
    assert!(b.is_aligned(16));
    assert!(!b.is_aligned(12));
    assert_eq!(b.unalignment_of(12), 4);
    assert_eq!(b.unalignment_of(16), 0);
}

#[test]
fn string_constants_end_in_nul() {
    assert_eq!(nul_terminated("main".to_string()), "main\0");
    assert_eq!(nul_terminated("main\0".to_string()), "main\0");
    assert_eq!(nul_terminated(String::new()), "\0");
}

#[test]
fn stack_maps_describe_defined_functions_with_frames() {
    let funcs = vec![
        FuncStackMap {
            func: FuncId(1),
            external: false,
            frame: Some(FrameMetadata {
                total_size: 32,
                locations: vec![StackLocation { start: 4, size: 12, offsets: vec![8, 16] }],
            }),
        },
        FuncStackMap { func: FuncId(2), external: true, frame: None },
        FuncStackMap { func: FuncId(3), external: false, frame: None },
        FuncStackMap { func: FuncId(4), external: false, frame: Some(FrameMetadata { total_size: 0, locations: vec![] }) },
    ];
    let layout = stack_map_layout(&funcs);
    assert_eq!(layout.nfunc, 2);
    assert_eq!(
        layout.entries,
        vec![
            StackMapEntry::Address(FuncId(1)),
            StackMapEntry::Word(32),
            StackMapEntry::Word(1),
            StackMapEntry::Word(4),
            StackMapEntry::Word(12),
            StackMapEntry::Word(2),
            StackMapEntry::Word(8),
            StackMapEntry::Word(16),
            StackMapEntry::Address(FuncId(4)),
            StackMapEntry::Word(0),
            StackMapEntry::Word(0)
        ]
    );
    assert_eq!(stack_map_symbol_size(&layout, 8), Some(8 + 11 * 8));
    assert_eq!(stack_map_symbol_size(&layout, 4), Some(8 + 9 * 8 + 2 * 4));
    assert_eq!(stack_map_symbol_size(&layout, usize::MAX), None);
}
