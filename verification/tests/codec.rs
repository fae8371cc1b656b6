use fragger::file_service::{frame, into_u32, into_u8};

#[test]
fn header_round_trip_on_chosen_numbers() {
    let numbers: [u32; 11] = [
        0,
        1,
        255,
        256,
        65535,
        65536,
        16777215,
        16777216,
        50417721,
        u32::MAX - 1,
        u32::MAX,
    ];
    for number in numbers {
        assert_eq!(into_u32(into_u8(number)), number);
    }
}

#[test]
fn header_round_trip_on_every_power_of_two() {
    for shift in 0..32 {
        let number: u32 = 1 << shift;
        assert_eq!(into_u32(into_u8(number)), number);
        assert_eq!(into_u32(into_u8(number - 1)), number - 1);
    }
}

#[test]
fn header_bytes_are_least_significant_first() {
    assert_eq!(into_u8(0), [0, 0, 0, 0]);
    assert_eq!(into_u8(1), [1, 0, 0, 0]);
    assert_eq!(into_u8(255), [255, 0, 0, 0]);
    assert_eq!(into_u8(256), [0, 1, 0, 0]);
    assert_eq!(into_u8(65536), [0, 0, 1, 0]);
    assert_eq!(into_u8(16777216), [0, 0, 0, 1]);
    assert_eq!(into_u8(0x04030201), [1, 2, 3, 4]);
    assert_eq!(into_u8(u32::MAX), [255, 255, 255, 255]);
}

#[test]
fn header_value_weighs_each_byte() {
    assert_eq!(into_u32([0, 0, 0, 0]), 0);
    assert_eq!(into_u32([1, 2, 3, 4]), 0x04030201);
    assert_eq!(into_u32([0, 1, 0, 0]), 256);
    assert_eq!(into_u32([255, 255, 255, 255]), u32::MAX);
}

#[test]
fn header_bytes_come_back_from_their_value() {
    let headers: [[u8; 4]; 4] = [[9, 8, 7, 6], [0, 0, 0, 0], [255, 0, 255, 0], [0, 0, 0, 128]];
    for header in headers {
        assert_eq!(into_u8(into_u32(header)), header);
    }
}

#[test]
fn frame_puts_the_header_before_the_payload() {
    assert_eq!(frame(1, b"abc"), vec![1, 0, 0, 0, 97, 98, 99]);
    assert_eq!(frame(0, b"small.txt"), b"\0\0\0\0small.txt".to_vec());
    assert_eq!(frame(258, &[]), vec![2, 1, 0, 0]);
}
