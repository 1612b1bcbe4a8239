use pixelfield::codec::{export_raster, load, save, CodecError};
use pixelfield::grid::{Image, Ternary};

#[test]
fn save_emits_exact_document() {
    let img = Image {
        width: 2,
        height: 1,
        pixels: vec![Ternary::True, Ternary::Unset],
    };
    let bytes = save(&img);
    assert_eq!(
        String::from_utf8(bytes).unwrap(),
        "{\"width\":2,\"height\":1,\"pixels\":[true,null]}"
    );
}

#[test]
fn roundtrip_small_grid() {
    let img = Image {
        width: 3,
        height: 2,
        pixels: vec![
            Ternary::True,
            Ternary::False,
            Ternary::Unset,
            Ternary::Unset,
            Ternary::True,
            Ternary::False,
        ],
    };
    let loaded = load(&save(&img)).unwrap();
    assert_eq!(loaded, img);
}

#[test]
fn roundtrip_one_cell() {
    let img = Image {
        width: 1,
        height: 1,
        pixels: vec![Ternary::Unset],
    };
    assert_eq!(load(&save(&img)).unwrap(), img);
}

#[test]
fn roundtrip_wide_dimensions() {
    let mut img = Image::create(12, 1).unwrap();
    img.set(11, 0, Ternary::True).unwrap();
    assert_eq!(load(&save(&img)).unwrap(), img);
}

#[test]
fn save_output_is_valid_structured_text() {
    // cross-check the emitted document with an independent parser
    let img = Image {
        width: 2,
        height: 2,
        pixels: vec![Ternary::True, Ternary::False, Ternary::Unset, Ternary::True],
    };
    let bytes = save(&img);
    let value: serde_json::Value = serde_json::from_slice(&bytes).unwrap();
    assert_eq!(value["width"], serde_json::Value::from(2u32));
    assert_eq!(value["height"], serde_json::Value::from(2u32));
    let pixels = value["pixels"].as_array().unwrap();
    assert_eq!(pixels.len(), 4);
    assert_eq!(pixels[0], serde_json::Value::Bool(true));
    assert_eq!(pixels[1], serde_json::Value::Bool(false));
    assert_eq!(pixels[2], serde_json::Value::Null);
    assert_eq!(pixels[3], serde_json::Value::Bool(true));
}

#[test]
fn load_accepts_pretty_printed_document() {
    let text = "{\n  \"width\": 2,\n  \"height\": 1,\n  \"pixels\": [\n    true,\n    null\n  ]\n}";
    let img = load(&text.as_bytes().to_vec()).unwrap();
    assert_eq!(img.width, 2);
    assert_eq!(img.height, 1);
    assert_eq!(img.pixels, vec![Ternary::True, Ternary::Unset]);
}

#[test]
fn load_rejects_garbage() {
    assert_eq!(
        load(&b"not a grid".to_vec()),
        Err(CodecError::CorruptData)
    );
    assert_eq!(load(&Vec::new()), Err(CodecError::CorruptData));
}

#[test]
fn load_rejects_zero_dimensions() {
    let text = "{\"width\":0,\"height\":1,\"pixels\":[]}";
    assert_eq!(load(&text.as_bytes().to_vec()), Err(CodecError::CorruptData));
}

#[test]
fn load_rejects_wrong_cell_count() {
    let text = "{\"width\":2,\"height\":2,\"pixels\":[true,null]}";
    assert_eq!(load(&text.as_bytes().to_vec()), Err(CodecError::CorruptData));
}

#[test]
fn load_rejects_unrecognized_cell_value() {
    let text = "{\"width\":2,\"height\":1,\"pixels\":[true,7]}";
    assert_eq!(load(&text.as_bytes().to_vec()), Err(CodecError::TypeMismatch));
    let text = "{\"width\":1,\"height\":1,\"pixels\":[\"yes\"]}";
    assert_eq!(load(&text.as_bytes().to_vec()), Err(CodecError::TypeMismatch));
}

#[test]
fn load_rejects_truncated_document() {
    let text = "{\"width\":2,\"height\":1,\"pixels\":[true,null]";
    assert_eq!(load(&text.as_bytes().to_vec()), Err(CodecError::CorruptData));
}

#[test]
fn export_maps_cells_to_grayscale_bytes() {
    let img = Image {
        width: 2,
        height: 1,
        pixels: vec![Ternary::True, Ternary::Unset],
    };
    let (width, height, buffer) = export_raster(&img);
    assert_eq!(buffer, vec![0xFF, 0x7F]);
    assert_eq!(width, 2);
    assert_eq!(height, 1);
}

#[test]
fn export_maps_false_to_black() {
    let img = Image {
        width: 1,
        height: 3,
        pixels: vec![Ternary::False, Ternary::True, Ternary::Unset],
    };
    assert_eq!(export_raster(&img), (1, 3, vec![0x00, 0xFF, 0x7F]));
}

#[test]
fn load_tolerates_surrounding_whitespace() {
    let text = "  {\"width\":1,\"height\":1,\"pixels\":[false]}  \n";
    let img = load(&text.as_bytes().to_vec()).unwrap();
    assert_eq!(img.pixels, vec![Ternary::False]);
}

#[test]
fn load_rejects_leading_zero_in_number() {
    let text = "{\"width\":01,\"height\":1,\"pixels\":[null]}";
    assert_eq!(load(&text.as_bytes().to_vec()), Err(CodecError::CorruptData));
}

#[test]
fn load_rejects_oversized_dimension() {
    let text = "{\"width\":4294967296,\"height\":1,\"pixels\":[null]}";
    assert_eq!(load(&text.as_bytes().to_vec()), Err(CodecError::CorruptData));
}

#[test]
fn load_rejects_trailing_comma() {
    let text = "{\"width\":1,\"height\":1,\"pixels\":[null,]}";
    assert_eq!(load(&text.as_bytes().to_vec()), Err(CodecError::CorruptData));
}

#[test]
fn load_rejects_trailing_bytes() {
    let text = "{\"width\":1,\"height\":1,\"pixels\":[null]}x";
    assert_eq!(load(&text.as_bytes().to_vec()), Err(CodecError::CorruptData));
}
