use lite_strtab::{
    Error, Offset, StringId, StringIndex, StringTable, StringTableBuilder, ValidationError,
};

fn collect<'a, O: Offset, I: StringIndex, const NULL_PADDED: bool>(
    table: &'a StringTable<O, I, NULL_PADDED>,
) -> Vec<&'a str> {
    let mut got = Vec::new();
    let mut iter = table.iter();
    while let Some(item) = iter.next() {
        got.push(item);
    }
    got
}

fn parts<O: Offset, const NULL_PADDED: bool>(
    bytes: &[u8],
    offsets: &[O],
) -> StringTable<O, u32, NULL_PADDED> {
    StringTable::from_parts_unchecked(
        bytes.to_vec().into_boxed_slice(),
        offsets.to_vec().into_boxed_slice(),
    )
}

#[test]
fn cat_and_dog() {
    let mut builder = StringTableBuilder::new();
    let cat = builder.try_push("cat").unwrap();
    let dog = builder.try_push("dog").unwrap();
    let table = builder.build();

    assert_eq!(table.len(), 2);
    assert_eq!(table.offsets(), &[0u32, 3, 6]);
    assert_eq!(table.as_bytes(), b"catdog");
    assert_eq!(table.get(cat), Some("cat"));
    assert_eq!(table.get(dog), Some("dog"));
    assert_eq!(table.get_unchecked(cat), "cat");
    assert_eq!(table.get_unchecked(dog), "dog");
    assert_eq!(table.byte_range(cat), Some(0..3));
    assert_eq!(table.byte_range(dog), Some(3..6));
    assert_eq!(table.validate(), Ok(()));
}

#[test]
fn handles_count_up_from_zero() {
    let mut builder = StringTableBuilder::<u16, u16, false>::new_in();
    for expected in 0..10u16 {
        let id = builder.try_push("x").unwrap();
        assert_eq!(id.into_raw(), expected);
        assert_eq!(id.into_usize(), usize::from(expected));
        assert_eq!(builder.len(), usize::from(expected) + 1);
        assert!(!builder.is_empty());
        assert_eq!(builder.bytes_len(), usize::from(expected) + 1);
    }
}

#[test]
fn offsets_have_one_more_entry_start_at_zero_and_end_at_length() {
    let values = ["alpha", "", "β", "gamma delta", ""];
    let mut builder = StringTableBuilder::new();
    for (pushed, value) in values.iter().enumerate() {
        assert_eq!(builder.len(), pushed);
        builder.try_push(value).unwrap();
    }
    let table = builder.build();
    let offsets = table.offsets();

    assert_eq!(offsets.len(), values.len() + 1);
    assert_eq!(offsets[0], 0);
    assert_eq!(offsets[offsets.len() - 1] as usize, table.as_bytes().len());
    assert_eq!(offsets, &[0u32, 5, 5, 7, 18, 18]);
    for pair in offsets.windows(2) {
        assert!(pair[1] >= pair[0]);
    }
}

#[test]
fn out_of_range_handles_give_none() {
    let mut builder = StringTableBuilder::new();
    builder.try_push("only").unwrap();
    let table = builder.build();

    assert_eq!(table.get(StringId::new(0)), Some("only"));
    for raw in [1u32, 2, 1000, u32::MAX] {
        assert_eq!(table.get(StringId::new(raw)), None);
        assert_eq!(table.byte_range(StringId::new(raw)), None);
    }
}

#[test]
fn iteration_yields_len_items_and_counts_down() {
    let values = ["z", "a", "m", "", "a"];
    let mut builder = StringTableBuilder::<u32, u32, true>::new_in();
    for value in values {
        builder.try_push(value).unwrap();
    }
    let table = builder.build();

    let mut iter = table.iter();
    for (yielded, value) in values.iter().enumerate() {
        assert_eq!(iter.len(), values.len() - yielded);
        assert_eq!(
            iter.size_hint(),
            (values.len() - yielded, Some(values.len() - yielded))
        );
        assert_eq!(iter.next(), Some(*value));
    }
    assert_eq!(iter.len(), 0);
    assert_eq!(iter.next(), None);
    assert_eq!(iter.next(), None);

    assert_eq!(collect(&table), values);
    assert_eq!(collect(&table), values);
}

#[test]
fn padded_regions_end_with_zero_and_strings_leave_it_out() {
    let values = ["hello", "", "wörld", "\0"];
    let mut builder = StringTableBuilder::<u32, u32, true>::new_in();
    let mut ids = Vec::new();
    for value in values {
        ids.push(builder.try_push(value).unwrap());
    }
    assert_eq!(builder.bytes_len(), 5 + 1 + 0 + 1 + 6 + 1 + 1 + 1);
    let table = builder.build();
    let bytes = table.as_bytes();
    let offsets = table.offsets();

    assert_eq!(bytes, "hello\0\0wörld\0\0\0".as_bytes());
    assert_eq!(offsets, &[0u32, 6, 7, 14, 16]);
    for (index, value) in values.iter().enumerate() {
        let region_end = offsets[index + 1] as usize;
        assert_eq!(bytes[region_end - 1], 0);
        let range = table.byte_range(ids[index]).unwrap();
        assert_eq!(range.start, offsets[index] as usize);
        assert_eq!(range.end, region_end - 1);
        assert_eq!(&bytes[range], value.as_bytes());
        assert_eq!(table.get(ids[index]), Some(*value));
    }
    assert_eq!(table.validate(), Ok(()));
}

#[test]
fn the_eight_bit_index_holds_256_strings() {
    let mut builder = StringTableBuilder::<u32, u8, false>::new_in();
    for expected in 0..256usize {
        let id = builder.try_push("s").unwrap();
        assert_eq!(id.into_usize(), expected);
    }
    assert_eq!(builder.len(), 256);
    assert_eq!(builder.bytes_len(), 256);

    let result = builder.try_push("one too many");
    assert_eq!(
        result,
        Err(Error::TooManyStrings {
            strings: 257,
            id_type: "u8"
        })
    );
    assert_eq!(builder.len(), 256);
    assert_eq!(builder.bytes_len(), 256);

    let table = builder.build();
    assert_eq!(table.len(), 256);
    assert_eq!(table.get(StringId::new(255u8)), Some("s"));
    assert_eq!(table.validate(), Ok(()));
}

#[test]
fn a_failed_byte_push_leaves_the_builder_unchanged() {
    let mut builder = StringTableBuilder::<u8, u32, false>::new_in();
    builder.try_push("abc").unwrap();

    let long = "a".repeat(253);
    assert_eq!(
        builder.try_push(&long),
        Err(Error::TooManyBytesForOffsetType {
            bytes: 256,
            offset_type: "u8"
        })
    );
    assert_eq!(builder.len(), 1);
    assert_eq!(builder.bytes_len(), 3);

    let fits = "a".repeat(252);
    let id = builder.try_push(&fits).unwrap();
    assert_eq!(id, StringId::new(1));
    assert_eq!(builder.bytes_len(), 255);

    let table = builder.build();
    assert_eq!(table.offsets(), &[0u8, 3, 255]);
    assert_eq!(table.get(id), Some(fits.as_str()));
}

#[test]
fn the_terminator_counts_towards_the_byte_limit() {
    let mut builder = StringTableBuilder::<u8, u32, true>::new_in();
    let exact = "a".repeat(255);
    assert_eq!(
        builder.try_push(&exact),
        Err(Error::TooManyBytesForOffsetType {
            bytes: 256,
            offset_type: "u8"
        })
    );
    assert!(builder.is_empty());
    assert_eq!(builder.bytes_len(), 0);

    let fits = "a".repeat(254);
    builder.try_push(&fits).unwrap();
    assert_eq!(builder.bytes_len(), 255);
}

#[test]
fn the_string_count_is_tested_before_the_byte_length() {
    let mut builder = StringTableBuilder::<u8, u8, false>::new_in();
    for _ in 0..256 {
        builder.try_push("").unwrap();
    }
    let long = "a".repeat(300);
    assert_eq!(
        builder.try_push(&long),
        Err(Error::TooManyStrings {
            strings: 257,
            id_type: "u8"
        })
    );
}

#[test]
fn wide_types_name_themselves_in_errors() {
    let mut builder = StringTableBuilder::<u16, u16, false>::new_in();
    let long = "a".repeat(65_536);
    assert_eq!(
        builder.try_push(&long),
        Err(Error::TooManyBytesForOffsetType {
            bytes: 65_536,
            offset_type: "u16"
        })
    );
    let fits = "a".repeat(65_535);
    assert!(builder.try_push(&fits).is_ok());
}

#[test]
fn contains_finds_exact_strings_only() {
    let mut builder = StringTableBuilder::<u32, u32, true>::new_in();
    for value in ["cat", "dog", "", "catdog"] {
        builder.try_push(value).unwrap();
    }
    let table = builder.build();

    assert!(table.contains("cat"));
    assert!(table.contains("dog"));
    assert!(table.contains(""));
    assert!(table.contains("catdog"));
    assert!(!table.contains("ca"));
    assert!(!table.contains("at"));
    assert!(!table.contains("dogcat"));
    assert!(!table.contains("cat\0"));

    let empty = StringTable::empty();
    assert!(!empty.contains(""));
}

#[test]
fn empty_tables_and_builders() {
    let table = StringTable::empty();
    assert_eq!(table.len(), 0);
    assert!(table.is_empty());
    assert_eq!(table.as_bytes(), b"");
    assert_eq!(table.offsets(), &[0u32]);
    assert_eq!(table.validate(), Ok(()));
    assert_eq!(table.iter().next(), None);

    let table = StringTable::<u64, usize, true>::empty_in();
    assert_eq!(table.offsets(), &[0u64]);
    assert_eq!(table.validate(), Ok(()));

    let builder = StringTableBuilder::with_capacity(16, 1024);
    assert!(builder.is_empty());
    assert_eq!(builder.len(), 0);
    assert_eq!(builder.bytes_len(), 0);
    assert_eq!(builder.build().offsets(), &[0u32]);

    let builder = StringTableBuilder::<usize, u64, false>::with_capacity_in(usize::MAX, usize::MAX);
    assert!(builder.is_empty());

    let builder: StringTableBuilder<u32, u32, false> = Default::default();
    assert!(builder.is_empty());
}

#[test]
fn growth_past_the_capacity_hints() {
    let mut builder = StringTableBuilder::with_capacity(1, 1);
    let a = builder.try_push("first string").unwrap();
    let b = builder.try_push("second string").unwrap();
    let table = builder.build();
    assert_eq!(table.get(a), Some("first string"));
    assert_eq!(table.get(b), Some("second string"));
}

#[test]
fn a_table_rebuilt_from_its_parts_reads_the_same() {
    let mut builder = StringTableBuilder::<u16, u32, true>::new_in();
    let a = builder.try_push("path/to/file").unwrap();
    let b = builder.try_push("ключ").unwrap();
    let table = builder.build();

    let rebuilt: StringTable<u16, u32, true> = parts(table.as_bytes(), table.offsets());
    assert_eq!(rebuilt.validate(), Ok(()));
    assert_eq!(rebuilt.get(a), Some("path/to/file"));
    assert_eq!(rebuilt.get(b), Some("ключ"));
    assert_eq!(collect(&rebuilt), collect(&table));
}

#[test]
fn validation_names_the_first_violation() {
    let table: StringTable<u32, u32, false> = parts(b"", &[]);
    assert_eq!(table.len(), 0);
    assert_eq!(table.validate(), Err(ValidationError::MissingSentinelOffset));

    let table: StringTable<u32, u32, false> = parts(b"hello", &[0]);
    assert_eq!(
        table.validate(),
        Err(ValidationError::LastOffsetMismatch {
            found: 0,
            expected: 5
        })
    );

    let table: StringTable<u32, u32, false> = parts(b"abcd", &[0, 9, 4]);
    assert_eq!(
        table.validate(),
        Err(ValidationError::OffsetOutOfBounds {
            index: 1,
            offset: 9,
            bytes_len: 4
        })
    );

    let table: StringTable<u32, u32, false> = parts(b"abcd", &[5, 4]);
    assert_eq!(
        table.validate(),
        Err(ValidationError::OffsetOutOfBounds {
            index: 0,
            offset: 5,
            bytes_len: 4
        })
    );

    let table: StringTable<u32, u32, false> = parts(b"abcd", &[0, 3, 2, 4]);
    assert_eq!(
        table.validate(),
        Err(ValidationError::OffsetsNotMonotonic {
            index: 2,
            previous: 3,
            current: 2
        })
    );

    let table: StringTable<u32, u32, false> = parts(b"ab\xFFd", &[0, 2, 3, 4]);
    assert_eq!(
        table.validate(),
        Err(ValidationError::InvalidUtf8 { index: 1 })
    );

    let table: StringTable<u32, u32, false> = parts("é".as_bytes(), &[0, 1, 2]);
    assert_eq!(
        table.validate(),
        Err(ValidationError::InvalidUtf8 { index: 0 })
    );

    let table: StringTable<u8, u32, false> = parts(&[b'a'; 300], &[0, 255]);
    assert_eq!(
        table.validate(),
        Err(ValidationError::TooManyBytesForOffsetType {
            bytes: 300,
            offset_type: "u8"
        })
    );
}

#[test]
fn validation_of_padded_tables() {
    let table: StringTable<u32, u32, true> = parts(b"a\0", &[0, 2, 2]);
    assert_eq!(
        table.validate(),
        Err(ValidationError::NullPaddedStringMissingTerminatorByte { index: 1 })
    );

    let table: StringTable<u32, u32, true> = parts(b"a\0b", &[0, 2, 3]);
    assert_eq!(
        table.validate(),
        Err(ValidationError::NullPaddedStringMissingTrailingNul { index: 1 })
    );

    let table: StringTable<u32, u32, true> = parts(b"\xC3\0", &[0, 2]);
    assert_eq!(
        table.validate(),
        Err(ValidationError::InvalidUtf8 { index: 0 })
    );

    let table: StringTable<u32, u32, true> = parts(b"a\0\0", &[0, 2, 3]);
    assert_eq!(table.validate(), Ok(()));
    assert_eq!(collect(&table), vec!["a", ""]);
}

#[test]
fn a_table_need_not_start_at_zero_to_be_read() {
    let table: StringTable<u32, u32, false> = parts(b"skipcat", &[4, 7]);
    assert_eq!(table.validate(), Ok(()));
    assert_eq!(table.get(StringId::new(0)), Some("cat"));
    assert_eq!(table.byte_range(StringId::new(0)), Some(4..7));
}

#[test]
fn handles_wrap_their_raw_value() {
    let id = StringId::new(7u32);
    assert_eq!(id.into_raw(), 7);
    assert_eq!(id.into_u32(), 7);
    assert_eq!(id.into_usize(), 7);
    assert_eq!(StringId::from(7u32), id);
    assert_ne!(StringId::new(8u32), id);
    assert!(StringId::new(8u32) > id);
    assert_eq!(StringId::<u16>::default(), StringId::new(0u16));
    assert_eq!(StringId::new(u64::MAX).into_raw(), u64::MAX);
    assert_eq!(StringId::new(200u8).into_usize(), 200);
}

#[test]
fn offsets_convert_within_their_range() {
    assert_eq!(<u8 as Offset>::try_from_usize(0), Some(0u8));
    assert_eq!(<u8 as Offset>::try_from_usize(255), Some(255u8));
    assert_eq!(<u8 as Offset>::try_from_usize(256), None);
    assert_eq!(<u16 as Offset>::try_from_usize(65_535), Some(65_535u16));
    assert_eq!(<u16 as Offset>::try_from_usize(65_536), None);
    assert_eq!(<u32 as Offset>::try_from_usize(4_294_967_295), Some(u32::MAX));
    assert_eq!(<u64 as Offset>::try_from_usize(usize::MAX), Some(usize::MAX as u64));
    assert_eq!(<usize as Offset>::try_from_usize(usize::MAX), Some(usize::MAX));
    assert_eq!(Offset::to_usize(255u8), 255);
    assert_eq!(Offset::to_usize(65_535u16), 65_535);
    assert_eq!(Offset::to_usize(u32::MAX), 4_294_967_295);
    assert_eq!(Offset::to_usize(17u64), 17);
    assert_eq!(Offset::to_usize(17usize), 17);
    assert_eq!(<u8 as Offset>::TYPE_NAME, "u8");
    assert_eq!(<u16 as Offset>::TYPE_NAME, "u16");
    assert_eq!(<u32 as Offset>::TYPE_NAME, "u32");
    assert_eq!(<u64 as Offset>::TYPE_NAME, "u64");
    assert_eq!(<usize as Offset>::TYPE_NAME, "usize");
}

#[test]
fn indices_convert_within_their_range() {
    assert_eq!(<u8 as StringIndex>::try_from_usize(0), Some(0u8));
    assert_eq!(<u8 as StringIndex>::try_from_usize(255), Some(255u8));
    assert_eq!(<u8 as StringIndex>::try_from_usize(256), None);
    assert_eq!(<u16 as StringIndex>::try_from_usize(65_535), Some(65_535u16));
    assert_eq!(<u16 as StringIndex>::try_from_usize(65_536), None);
    assert_eq!(<u32 as StringIndex>::try_from_usize(4_294_967_295), Some(u32::MAX));
    assert_eq!(<u64 as StringIndex>::try_from_usize(usize::MAX), Some(usize::MAX as u64));
    assert_eq!(<usize as StringIndex>::try_from_usize(usize::MAX), Some(usize::MAX));
    assert_eq!(StringIndex::to_usize(255u8), 255);
    assert_eq!(StringIndex::to_usize(65_535u16), 65_535);
    assert_eq!(StringIndex::to_usize(u32::MAX), 4_294_967_295);
    assert_eq!(StringIndex::to_usize(17u64), 17);
    assert_eq!(StringIndex::to_usize(17usize), 17);
    assert_eq!(<u8 as StringIndex>::TYPE_NAME, "u8");
    assert_eq!(<u16 as StringIndex>::TYPE_NAME, "u16");
    assert_eq!(<u32 as StringIndex>::TYPE_NAME, "u32");
    assert_eq!(<u64 as StringIndex>::TYPE_NAME, "u64");
    assert_eq!(<usize as StringIndex>::TYPE_NAME, "usize");
}
