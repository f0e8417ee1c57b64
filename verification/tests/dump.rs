use hex_view::{FormatError, HexView, HexViewBuilder};

fn dump(data: &[u8], address_offset: usize, row_width: usize) -> String {
    HexViewBuilder::new(data)
        .address_offset(address_offset)
        .row_width(row_width)
        .finish()
        .render()
        .unwrap()
}

#[test]
fn a_row_width_of_zero_is_refused() {
    let data = [1u8, 2, 3];
    let view = HexViewBuilder::new(&data).row_width(0).finish();
    assert_eq!(view.render(), Err(FormatError::InvalidRowWidth));
}

#[test]
fn a_row_width_of_zero_is_refused_for_empty_data_too() {
    let view = HexViewBuilder::new(&[]).row_width(0).address_offset(7).finish();
    assert_eq!(view.render(), Err(FormatError::InvalidRowWidth));
}

#[test]
fn a_refused_view_leaves_the_output_as_it_is() {
    let data = [1u8, 2, 3];
    let view = HexViewBuilder::new(&data).row_width(0).finish();
    let mut out = String::from("before");
    assert_eq!(view.fmt(&mut out), Err(FormatError::InvalidRowWidth));
    assert_eq!(out, "before");
}

#[test]
fn a_dump_is_appended_to_what_is_there() {
    let data = [0x41u8, 0x42];
    let view = HexViewBuilder::new(&data).row_width(2).finish();
    let mut out = String::from("before\n");
    assert_eq!(view.fmt(&mut out), Ok(()));
    assert_eq!(out, "before\n00000000  41 42  | AB |");
}

#[test]
fn building_takes_the_defaults() {
    let data = [1u8, 2, 3];
    let view = HexView::new(&data);
    assert_eq!(view.address_offset(), 0);
    assert_eq!(view.row_width(), 16);
    assert_eq!(view.data(), &data);
    assert_eq!(view.codepage(), &hex_view::byte_mapping::CODEPAGE_0850);

    let built = HexViewBuilder::new(&data).finish();
    assert_eq!(built.address_offset(), 0);
    assert_eq!(built.row_width(), 16);
    assert_eq!(built.data(), &data);
    assert_eq!(built.codepage(), &hex_view::byte_mapping::CODEPAGE_0850);
}

#[test]
fn building_keeps_each_setting() {
    let data = [1u8, 2, 3];
    let table = ['#'; 256];
    let view = HexViewBuilder::new(&data)
        .address_offset(0x1234)
        .codepage(&table)
        .row_width(7)
        .finish();
    assert_eq!(view.address_offset(), 0x1234);
    assert_eq!(view.row_width(), 7);
    assert_eq!(view.data(), &data);
    assert_eq!(view.codepage(), &table);
}

#[test]
fn a_later_setting_replaces_an_earlier_one() {
    let data = [0x41u8; 4];
    let view = HexViewBuilder::new(&data)
        .row_width(0)
        .address_offset(9)
        .row_width(4)
        .address_offset(0)
        .finish();
    assert_eq!(view.render().unwrap(), "00000000  41 41 41 41  | AAAA |");
}

#[test]
fn a_given_code_page_is_used() {
    let data = [0x00u8, 0x41, 0xFF];
    let mut table = ['-'; 256];
    table[0x41] = 'a';
    let view = HexViewBuilder::new(&data).codepage(&table).row_width(4).finish();
    assert_eq!(view.render().unwrap(), "00000000  00 41 FF     | -a-  |");
}

#[test]
fn empty_data_at_an_aligned_address_is_one_row_without_slots() {
    assert_eq!(dump(&[], 0, 16), "00000000    |  |");
    assert_eq!(dump(&[], 32, 16), "00000020    |  |");
}

#[test]
fn empty_data_at_an_unaligned_address_is_one_row_of_placeholders() {
    assert_eq!(
        dump(&[], 5, 16),
        "00000000                                                   |                  |"
    );
}

#[test]
fn a_row_width_of_one_gives_one_row_for_each_byte() {
    assert_eq!(
        dump(&[0x41, 0x42, 0x43], 0, 1),
        "00000000  41  | A |\n00000001  42  | B |\n00000002  43  | C |"
    );
}

#[test]
fn whole_rows_have_no_padding() {
    let data: Vec<u8> = (0x41..0x49).collect();
    assert_eq!(
        dump(&data, 0, 4),
        "00000000  41 42 43 44  | ABCD |\n00000004  45 46 47 48  | EFGH |"
    );
}

#[test]
fn an_incomplete_last_row_is_padded_on_the_right() {
    let data: Vec<u8> = (0x41..0x46).collect();
    assert_eq!(
        dump(&data, 0, 4),
        "00000000  41 42 43 44  | ABCD |\n00000004  45           | E    |"
    );
}

#[test]
fn an_unaligned_first_row_is_padded_on_the_left() {
    let data: Vec<u8> = (0x41..0x48).collect();
    assert_eq!(
        dump(&data, 1, 4),
        "00000000     41 42 43  |  ABC |\n00000004  44 45 46 47  | DEFG |"
    );
}

#[test]
fn rows_in_the_middle_are_whole_when_both_ends_are_padded() {
    let data: Vec<u8> = (0x30..0x44).collect();
    assert_eq!(
        dump(&data, 0x1E, 8),
        "00000018                    30 31  |       01 |\n\
         00000020  32 33 34 35 36 37 38 39  | 23456789 |\n\
         00000028  3A 3B 3C 3D 3E 3F 40 41  | :;<=>?@A |\n\
         00000030  42 43                    | BC       |"
    );
}

#[test]
fn the_first_row_starts_at_the_boundary_below_the_address() {
    assert_eq!(dump(&[0x61], 0x2F, 16).lines().next().unwrap().split(' ').next(), Some("00000020"));
}

#[test]
fn an_address_beyond_eight_digits_takes_more() {
    assert_eq!(
        dump(&[0x61], 0x1_0000_0000, 16),
        "100000000  61                                               | a                |"
    );
}

#[test]
fn rows_go_on_beyond_the_largest_address() {
    if usize::BITS == 64 {
        assert_eq!(
            dump(&[0x61, 0x62], usize::MAX, 16),
            "FFFFFFFFFFFFFFF0                                               61  |                a |\n\
             10000000000000000  62                                               | b                |"
        );
    }
}

#[test]
fn the_largest_row_width_is_rendered() {
    let view = HexViewBuilder::new(&[]).address_offset(usize::MAX).row_width(usize::MAX).finish();
    assert_eq!(view.render().unwrap(), format!("{:08X}    |  |", usize::MAX));
    let view = HexViewBuilder::new(&[]).address_offset(0).row_width(usize::MAX).finish();
    assert_eq!(view.render().unwrap(), "00000000    |  |");
}

#[test]
fn a_row_that_the_data_fills_exactly_has_no_padding() {
    assert_eq!(dump(&[0x61], 3, 1), "00000003  61  | a |");
    assert_eq!(dump(&[0x61, 0x62, 0x63], 3, 3), "00000003  61 62 63  | abc |");
}

#[test]
fn control_and_high_bytes_show_their_display_characters() {
    assert_eq!(
        dump(&[0x00, 0x1F, 0x20, 0x7E, 0x7F, 0x80, 0xFF, 0xE1], 0, 8),
        "00000000  00 1F 20 7E 7F 80 FF E1  | .. ~.\u{00C7}\u{00A0}\u{00DF} |"
    );
}

#[test]
fn rendering_twice_gives_the_same_text() {
    let data: Vec<u8> = (0..=255).collect();
    let view = HexViewBuilder::new(&data).address_offset(3).row_width(7).finish();
    let first = view.render();
    let second = view.render();
    assert!(first.is_ok());
    assert_eq!(first, second);

    let copy = data.clone();
    let same = HexViewBuilder::new(&copy).row_width(7).address_offset(3).finish();
    assert_eq!(same.render(), first);
}

#[test]
fn the_number_of_rows_is_what_holds_the_effective_length() {
    for row_width in 1..10usize {
        for address_offset in 0..25usize {
            for length in 0..30usize {
                let data = vec![0x41u8; length];
                let text = dump(&data, address_offset, row_width);
                let effective = address_offset % row_width + length;
                let expected = if effective == 0 { 1 } else { (effective + row_width - 1) / row_width };
                assert_eq!(text.split('\n').count(), expected);
            }
        }
    }
}

#[test]
fn all_rows_of_a_dump_have_the_same_width() {
    for row_width in 1..10usize {
        for address_offset in 0..25usize {
            for length in 0..30usize {
                if address_offset % row_width + length == 0 {
                    continue;
                }
                let data = vec![0x41u8; length];
                let text = dump(&data, address_offset, row_width);
                for row in text.split('\n') {
                    assert_eq!(row.chars().count(), 8 + 4 * row_width + 7);
                    let hex = &row[10..10 + 3 * row_width - 1];
                    assert_eq!(&row[10 + 3 * row_width - 1..10 + 3 * row_width + 3], "  | ");
                    assert_eq!(hex.len(), 3 * row_width - 1);
                    assert!(row.ends_with(" |"));
                }
            }
        }
    }
}

#[test]
fn narrower_rows_make_a_longer_dump_where_nothing_is_padded() {
    let data: Vec<u8> = (0..64).collect();
    let mut last = 0;
    for row_width in [64usize, 32, 16, 8, 4, 2, 1] {
        let length = dump(&data, 128, row_width).chars().count();
        assert!(length > last);
        last = length;
    }
    assert_eq!(dump(&data, 0, 16).len(), 4 * 64 + 16 * 4 - 1);
    assert_eq!(dump(&data, 0, 8).len(), 4 * 64 + 16 * 8 - 1);
}

#[test]
fn narrower_rows_can_make_a_shorter_dump_where_they_save_padding() {
    let data = [0u8; 17];
    assert_eq!(dump(&data, 0, 16).len(), 159);
    assert_eq!(dump(&data, 0, 9).len(), 103);
}

#[test]
fn a_dump_ends_with_its_last_row_and_not_with_a_line_feed() {
    for length in [0usize, 1, 15, 16, 17, 32, 33] {
        let data = vec![0x0Au8; length];
        let text = dump(&data, 3, 16);
        assert!(text.ends_with(" |"));
        assert!(!text.ends_with('\n'));
        assert!(!text.starts_with('\n'));
        assert!(!text.contains("\n\n"));
    }
}

#[test]
fn every_row_is_labelled_with_a_multiple_of_the_row_width() {
    for row_width in 1..10usize {
        for address_offset in 0..25usize {
            let data = vec![0x41u8; 23];
            let text = dump(&data, address_offset, row_width);
            let mut expected = address_offset - address_offset % row_width;
            for row in text.split('\n') {
                let label = usize::from_str_radix(&row[0..8], 16).unwrap();
                assert_eq!(label, expected);
                assert_eq!(label % row_width, 0);
                expected += row_width;
            }
        }
    }
}

#[test]
fn the_rows_show_every_byte_once_and_in_order() {
    let data: Vec<u8> = (0x41..0x5B).collect();
    for row_width in 1..12usize {
        for address_offset in 0..14usize {
            let text = dump(&data, address_offset, row_width);
            let mut shown = String::new();
            for row in text.split('\n') {
                let chars = &row[10 + 3 * row_width + 3..row.len() - 2];
                shown.push_str(chars.trim());
            }
            assert_eq!(shown, "ABCDEFGHIJKLMNOPQRSTUVWXYZ");
        }
    }
}
