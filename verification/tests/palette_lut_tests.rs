use pixel_stream::palette_config::parse_hex_color;
use pixel_stream::preview_palette::{parse_preview_palette_color, preview_palette_colors};
use pixel_stream::palette_config::{parse_palette_config, serialize_palette_config, ConfigStep, quoted_palette_colors, QuotedColors};
use pixel_stream::palette_lut::{
    decode_lookup, decode_lookup_bundle, decode_lookup_config_unchecked, encode_lookup, legacy_lookup_hash,
    lookup_hash, palette_hash, palette_matching_eq, sibling_lut_path, LookupError, PaletteConfig,
    PaletteMatching, LUT_ENTRY_COUNT,
};

/// Parses a configuration, parsing its matching values as the standard
/// library does.
fn parse_config(text: &str) -> Result<PaletteConfig, String> {
    let mut values: Vec<Result<u32, String>> = Vec::new();
    loop {
        match parse_palette_config(text, &values) {
            ConfigStep::Done(result) => return result,
            ConfigStep::NeedValue { start, end } => {
                let value = text[start..end].trim().trim_matches(',');
                values.push(value.parse::<f32>().map(f32::to_bits).map_err(|err| err.to_string()));
            }
            ConfigStep::CharBoundary => panic!("byte index is not a char boundary"),
        }
    }
}

fn two_color_config(matching: PaletteMatching) -> PaletteConfig {
    PaletteConfig { colors: vec![[0, 0, 0, 255], [255, 255, 255, 255]], matching }
}

#[test]
fn palette_config_parses() {
    let config = parse_config(
        r##"
colors = [
    "#000000",
    "#ffffff",
]
"##,
    )
    .expect("palette parses");

    assert!(!config.colors.is_empty());
    assert!(config.colors.len() <= 256);
}

#[test]
fn input_offsets_affect_lookup_entries_and_hash() {
    let plain = PaletteMatching {
        lightness: 1.0f32.to_bits(),
        chroma: 0.0f32.to_bits(),
        hue: 0.0f32.to_bits(),
        ..Default::default()
    };
    let shifted = PaletteMatching { lightness_add: 0.4f32.to_bits(), ..plain };
    let plain_config = two_color_config(plain);
    let shifted_config = two_color_config(shifted);

    assert_ne!(palette_hash(&plain_config), palette_hash(&shifted_config));
}

#[test]
fn self_contained_lookup_stores_binary_palette_and_cooked_entries() {
    let toml = r##"
colors = [
    "#000000",
    "#ffffff",
]

[matching]
oklab_l = 1.0
oklab_a = 0.0
oklab_b = 0.0
"##;
    let config = parse_config(toml).expect("test palette parses");
    let entries = vec![0u8; LUT_ENTRY_COUNT];
    let bytes = encode_lookup(&config, &entries).expect("lookup encodes");
    let lookup = decode_lookup_bundle(&bytes).expect("lookup decodes");

    assert_eq!(&bytes[0..8], b"IPSMAP6\0");
    assert!(!bytes.windows(b"[matching]".len()).any(|window| window == b"[matching]"));
    assert_eq!(lookup.entries().len(), LUT_ENTRY_COUNT);
    assert_eq!(lookup.hash(), lookup_hash(&config, &entries));
    assert_eq!(lookup.config().colors, config.colors);
    assert!(palette_matching_eq(lookup.config().matching, config.matching));
}

#[test]
fn self_contained_lookup_hash_changes_when_cooked_entries_change() {
    let config = two_color_config(PaletteMatching::default());
    let entries = vec![0u8; LUT_ENTRY_COUNT];
    let first = encode_lookup(&config, &entries).expect("first lookup encodes");
    let mut shifted_entries = entries.clone();
    shifted_entries[12345] = 1;
    let second = encode_lookup(&config, &shifted_entries).expect("second lookup encodes");

    assert_ne!(&first[8..16], &second[8..16]);
}

#[test]
fn ipsmap6_stores_matching_altered_and_direct_lookup_entries() {
    let config = two_color_config(PaletteMatching {
        lightness: 0.2f32.to_bits(),
        chroma: 0.3f32.to_bits(),
        hue: 0.5f32.to_bits(),
        lightness_add: 0.1f32.to_bits(),
        ..PaletteMatching::default()
    });
    let mut entries = vec![0u8; LUT_ENTRY_COUNT * 2];
    entries[LUT_ENTRY_COUNT + 12345] = 1;

    let bytes = encode_lookup(&config, &entries).expect("lookup encodes");
    let lookup = decode_lookup_bundle(&bytes).expect("lookup decodes");

    assert_eq!(&bytes[0..8], b"IPSMAP6\0");
    assert_eq!(lookup.altered_entries().len(), LUT_ENTRY_COUNT);
    assert_eq!(lookup.direct_entries().expect("direct entries").len(), LUT_ENTRY_COUNT);
    assert_eq!(lookup.altered_entries()[12345], 0);
    assert_eq!(lookup.direct_entries().expect("direct entries")[12345], 1);
    assert!(palette_matching_eq(lookup.config().matching, config.matching));
    assert_eq!(lookup.hash(), lookup_hash(&config, &entries));
}

#[test]
fn stale_self_contained_lookup_can_recover_palette_config() {
    let config = PaletteConfig {
        colors: vec![[3, 5, 7, 255], [255, 240, 220, 255]],
        matching: PaletteMatching {
            lightness: 0.1f32.to_bits(),
            chroma: 0.7f32.to_bits(),
            hue: 0.2f32.to_bits(),
            chroma_add: 0.03f32.to_bits(),
            ..PaletteMatching::default()
        },
    };
    let entries = vec![0u8; LUT_ENTRY_COUNT * 2];
    let mut bytes = encode_lookup(&config, &entries).expect("lookup encodes");
    bytes[8] ^= 0xff;

    assert!(decode_lookup_bundle(&bytes).is_err());
    let recovered = decode_lookup_config_unchecked(&bytes).expect("embedded palette can be recovered");

    assert_eq!(recovered.colors, config.colors);
    assert!(palette_matching_eq(recovered.matching, config.matching));
}

#[test]
fn encode_refuses_wrong_entry_count_and_empty_palette() {
    let config = two_color_config(PaletteMatching::default());
    assert_eq!(encode_lookup(&config, &[0u8; 10]), Err(LookupError::EntryCountInvalid { got: 10 }));
    let empty = PaletteConfig { colors: Vec::new(), matching: PaletteMatching::default() };
    let entries = vec![0u8; LUT_ENTRY_COUNT];
    assert_eq!(encode_lookup(&empty, &entries), Err(LookupError::PaletteColorCount));
}

#[test]
fn decoding_garbage_is_refused() {
    assert_eq!(decode_lookup_bundle(b"nothing").err(), Some(LookupError::NotSelfContained));
    assert_eq!(decode_lookup_config_unchecked(b"nothing at all").err(), Some(LookupError::NotRecoverable));
}

#[test]
fn encoded_lookup_decodes_against_its_own_config() {
    let config = two_color_config(PaletteMatching::default());
    let mut entries = vec![0u8; LUT_ENTRY_COUNT];
    entries[7] = 1;
    let bytes = encode_lookup(&config, &entries).expect("lookup encodes");
    let lookup = decode_lookup(&bytes, &config).expect("lookup decodes against its config");
    assert_eq!(lookup.entries()[7], 1);
    assert!(lookup.direct_entries().is_none());
    let other = PaletteConfig { colors: vec![[1, 2, 3, 255]], matching: PaletteMatching::default() };
    assert_eq!(decode_lookup(&bytes, &other).err(), Some(LookupError::ColorsMismatch));
}

#[test]
fn palette_hash_depends_on_colors() {
    let a = two_color_config(PaletteMatching::default());
    let b = PaletteConfig { colors: vec![[0, 0, 0, 255], [255, 255, 254, 255]], matching: PaletteMatching::default() };
    assert_ne!(palette_hash(&a), palette_hash(&b));
    assert_eq!(palette_hash(&a), palette_hash(&two_color_config(PaletteMatching::default())));
}

#[test]
fn legacy_hash_of_nothing_hashes_the_algorithm_version() {
    assert_eq!(legacy_lookup_hash(&[], &[]), 4_769_714_265_552_573_285);
    assert_ne!(legacy_lookup_hash(&[[1, 2, 3, 4]], &[]), legacy_lookup_hash(&[], &[]));
}

#[test]
fn matching_section_sets_weights_and_offsets() {
    let config = parse_config(
        "\"#102030\"\n[matching]\nlightness = 0.5\nchroma_add = 0.25, # comment\ngray_threshold=2\nunknown = 7\n",
    )
    .expect("parses");
    assert_eq!(config.colors, vec![[0x10, 0x20, 0x30, 255]]);
    assert_eq!(config.matching.lightness, 0.5f32.to_bits());
    assert_eq!(config.matching.chroma_add, 0.25f32.to_bits());
    assert_eq!(config.matching.grey_chroma_threshold, 2.0f32.to_bits());
    assert_eq!(config.matching.hue, PaletteMatching::default().hue);
}

#[test]
fn config_errors_are_reported() {
    assert_eq!(parse_config("nothing here").err().as_deref(), Some("palette contains no quoted #RRGGBB colors"));
    assert_eq!(parse_config("\"#zz0000\"").err().as_deref(), Some("invalid digit found in string"));
    assert_eq!(
        parse_config("\"#000000\"\n[matching]\nhue = abc\n").err().as_deref(),
        Some("invalid float literal")
    );
    let many: String = (0..257).map(|i| format!("\"#0000{:02x}\"\n", i % 256)).collect();
    assert_eq!(parse_config(&many).err().as_deref(), Some("palette contains more than 256 colors"));
}

#[test]
fn alpha_and_plus_digits_follow_from_str_radix() {
    let config = parse_config("\"##11223380\" \"+f+f+f\"").expect("parses");
    assert_eq!(config.colors, vec![[0x11, 0x22, 0x33, 0x80], [15, 15, 15, 255]]);
}

#[test]
fn split_multibyte_color_is_reported() {
    let text = "\"a\u{e9}a\u{e9}\"";
    assert!(matches!(parse_palette_config(text, &[]), ConfigStep::CharBoundary));
}

#[test]
fn serialized_config_lists_colors_and_matching() {
    let config = PaletteConfig {
        colors: vec![[0x0a, 0xb0, 0xff, 0xff], [1, 2, 3, 4]],
        matching: PaletteMatching::default(),
    };
    let texts: [String; 9] = std::array::from_fn(|k| format!("{k}"));
    let text = serialize_palette_config(&config, &texts);
    assert_eq!(
        text,
        "colors = [\n    \"#0ab0ff\",\n    \"#01020304\",\n]\n\n[matching]\noklab_l = 0\noklab_a = 1\noklab_b = 2\nlightness_multiply = 3\nlightness_add = 4\nchroma_multiply = 5\nchroma_add = 6\ngrey_chroma_threshold = 7\nhue_add = 8\n"
    );
    let back = parse_config(&text).expect("serialized text parses");
    assert_eq!(back.colors, config.colors);
    let m = back.matching;
    let read = [
        m.lightness,
        m.chroma,
        m.hue,
        m.lightness_multiply,
        m.lightness_add,
        m.chroma_multiply,
        m.chroma_add,
        m.grey_chroma_threshold,
        m.hue_add,
    ];
    for (k, bits) in read.iter().enumerate() {
        assert_eq!(*bits, (k as f32).to_bits());
    }
}

#[test]
fn quoted_colors_ignore_structure() {
    match quoted_palette_colors("a = \"#ffffff\" [x] \"000000\" \"nope\"") {
        QuotedColors::Done(Ok(colors)) => assert_eq!(colors, vec![[255, 255, 255, 255], [0, 0, 0, 255]]),
        _ => panic!("colors expected"),
    }
    assert!(matches!(quoted_palette_colors("none"), QuotedColors::Done(Err(_))));
}

#[test]
fn sibling_lut_path_replaces_the_extension() {
    assert_eq!(sibling_lut_path("palettes/main.toml"), "palettes/main.ipsmap");
    assert_eq!(sibling_lut_path("palette"), "palette.ipsmap");
}

#[test]
fn preview_palette_colors_follow_hashes() {
    assert_eq!(parse_preview_palette_color("ff8000"), Ok([255, 128, 0, 255]));
    assert_eq!(parse_preview_palette_color("  11223344 trailing"), Ok([0x11, 0x22, 0x33, 0x44]));
    assert_eq!(parse_preview_palette_color("123456789"), Ok([0x12, 0x34, 0x56, 0x78]));
    assert_eq!(parse_preview_palette_color("\u{3000}AbCdEf"), Ok([0xab, 0xcd, 0xef, 255]));
    assert_eq!(parse_preview_palette_color("12345"), Err("invalid color #12345".to_string()));
    assert_eq!(parse_preview_palette_color("zz"), Err("invalid color #".to_string()));

    assert_eq!(
        preview_palette_colors("red #ff0000\nno color\n#00ff00ff\r\n"),
        Ok(vec![[255, 0, 0, 255], [0, 255, 0, 255]])
    );
    assert_eq!(preview_palette_colors(""), Err("no #RRGGBB colors found".to_string()));
    assert_eq!(preview_palette_colors("plain\nlines\n"), Err("no #RRGGBB colors found".to_string()));
    assert_eq!(preview_palette_colors("a #12\n#ffffff"), Err("invalid color #12".to_string()));
    assert_eq!(preview_palette_colors("x#ab#cdef01"), Err("invalid color #ab".to_string()));
}

#[test]
fn hex_colors_of_the_config_format() {
    assert_eq!(parse_hex_color(" #ff0000 "), Some(Ok([255, 0, 0, 255])));
    assert_eq!(parse_hex_color("##01020304"), Some(Ok([1, 2, 3, 4])));
    assert_eq!(parse_hex_color("#12345"), None);
    assert_eq!(parse_hex_color("ggHHii"), Some(Err("invalid digit found in string".to_string())));
    assert_eq!(parse_hex_color("+f0000+f"), Some(Ok([15, 0, 0, 15])));
}
