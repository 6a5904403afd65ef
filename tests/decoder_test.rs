use dcss_api::{deflate_to_json, Error};
use flate2::Decompress;
use serde_json::Value;

#[test]
fn test_deflate_to_json() {
    // Set up the data #1 ("{\"msg\":\"ping\"}")
    let mut data_1_bin = vec![
        170, 86, 202, 45, 78, 47, 86, 178, 138, 174, 6, 49, 148, 172, 20, 148, 10, 50, 243, 210,
        149, 106, 99, 107, 1, 0,
    ];
    let data_1_solution: Value = serde_json::from_str("{\"msgs\":[{\"msg\": \"ping\"}]}").unwrap();

    // Set up the data #2 ("{\"msg\":\"lobby_clear\"}")
    // Data 2 depends on data 1 to work, can't be decompressed alone
    let mut data_2_bin = vec![
        170, 198, 144, 201, 201, 79, 74, 170, 140, 79, 206, 73, 77, 44, 82, 170, 213, 65, 23, 206,
        207, 45, 200, 73, 45, 73, 5, 105, 5, 0,
    ];
    let data_2_solution: Value = serde_json::from_str(
        "{\"msgs\":[{\"msg\": \"lobby_clear\"}, {\"msg\": \"lobby_complete\"}]}",
    )
    .unwrap();

    // Set up decompressor
    let wbits = 15; // Windows bits fixed (goes to -15 in flate2 because of zlib_header = false)
    let mut decompressor = Decompress::new_with_window_bits(false, wbits);

    // Test it working correctly one after the other
    let decode_1 = deflate_to_json(&mut decompressor, &mut data_1_bin).unwrap();
    let decode_1: Value = serde_json::from_str(&decode_1).unwrap();
    assert_eq!(decode_1, data_1_solution);
    let decode_2 = deflate_to_json(&mut decompressor, &mut data_2_bin).unwrap();
    let decode_2: Value = serde_json::from_str(&decode_2).unwrap();
    assert_eq!(decode_2, data_2_solution);

    // Try only the second one, after resting the decompressor
    let wbits = 15; // Windows bits fixed (goes to -15 in flate2 because of zlib_header = false)
    let mut decompressor = Decompress::new_with_window_bits(false, wbits);
    let decode_2 = deflate_to_json(&mut decompressor, &mut data_2_bin);
    assert!(decode_2.is_err());
}

#[test]
fn frame_trailer_is_put_back() {
    let mut data = vec![170, 86, 202, 45, 78, 47, 86, 178, 138, 174, 6, 49, 148, 172, 20, 148, 10,
        50, 243, 210, 149, 106, 99, 107, 1, 0];
    let before = data.len();
    let mut decompressor = Decompress::new(false);
    let text = deflate_to_json(&mut decompressor, &mut data).unwrap();
    assert_eq!(data.len(), before + 4);
    assert_eq!(&data[before..], &[0u8, 0, 255, 255]);
    assert_eq!(text, "{\"msgs\":[{\"msg\": \"ping\"}]}");
}

#[test]
fn second_frame_alone_is_a_decompress_error() {
    let mut data_2_bin = vec![
        170, 198, 144, 201, 201, 79, 74, 170, 140, 79, 206, 73, 77, 44, 82, 170, 213, 65, 23, 206,
        207, 45, 200, 73, 45, 73, 5, 105, 5, 0,
    ];
    let mut decompressor = Decompress::new(false);
    let r = deflate_to_json(&mut decompressor, &mut data_2_bin);
    assert!(matches!(r, Err(Error::Decompress(_))));
}
