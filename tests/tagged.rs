use tagged_base64::{to_string, JsTaggedBase64, TB64Error, TaggedBase64, TB64_DELIM};

fn parse(s: &str) -> Result<TaggedBase64, TB64Error> {
    JsTaggedBase64::tagged_base64_from(s)
}

#[test]
fn checksum_is_crc8_check_value() {
    assert_eq!(TaggedBase64::calc_checksum("", b"123456789"), 0xF4);
}

#[test]
fn checksum_runs_over_tag_then_payload() {
    assert_eq!(TaggedBase64::calc_checksum("1234", b"56789"), 0xF4);
    assert_eq!(TaggedBase64::calc_checksum("TX", b"foobar"), 209);
    assert_ne!(
        TaggedBase64::calc_checksum("TX", b"foobar"),
        TaggedBase64::calc_checksum("XT", b"foobar")
    );
}

#[test]
fn formats_tx_foobar() {
    let t = TaggedBase64::new("TX", b"foobar").unwrap();
    assert_eq!(to_string(&t), "TX~0WZvb2Jhcg");
    assert_eq!(t.to_text(), "TX~0WZvb2Jhcg");
    let l = TaggedBase64::new("LA", b"31415").unwrap();
    assert_eq!(to_string(&l), "LA~5zMxNDE1");
}

#[test]
fn parses_tx_foobar() {
    let t = parse("TX~0WZvb2Jhcg").unwrap();
    assert_eq!(t.tag(), "TX");
    assert_eq!(t.value(), b"foobar".to_vec());
    assert_eq!(t, TaggedBase64::new("TX", b"foobar").unwrap());
}

#[test]
fn round_trips() {
    let cases: Vec<(&str, Vec<u8>)> = vec![
        ("TX", b"foobar".to_vec()),
        ("", vec![]),
        ("a-Z_09", vec![0, 1, 2, 255]),
        ("", vec![0xff, 0xfe, 0xfd]),
        ("k", (0u8..=255).collect()),
    ];
    for (tag, value) in cases {
        let t = TaggedBase64::new(tag, &value).unwrap();
        let s = to_string(&t);
        let back = parse(&s).unwrap();
        assert_eq!(back.tag(), tag);
        assert_eq!(back.value(), value);
        assert_eq!(back, t);
    }
}

#[test]
fn empty_tag_and_payload() {
    let t = TaggedBase64::new("", &[]).unwrap();
    let s = to_string(&t);
    assert_eq!(s, format!("~{}", TaggedBase64::encode_raw(&[0])));
    assert_eq!(s, "~AA");
    let back = parse("~AA").unwrap();
    assert_eq!(back.tag(), "");
    assert!(back.value().is_empty());
}

#[test]
fn wrong_checksum_is_refused() {
    assert_eq!(parse("TX~0GZvb2Jhcg"), Err(TB64Error::InvalidChecksum));
    assert_eq!(parse("TX~AGZvb2Jhcg"), Err(TB64Error::InvalidChecksum));
    assert_eq!(parse("XT~0WZvb2Jhcg"), Err(TB64Error::InvalidChecksum));
}

#[test]
fn every_single_bit_flip_is_caught() {
    let cs = TaggedBase64::calc_checksum("TX", b"foobar");
    let mut frame = vec![cs];
    frame.extend_from_slice(b"foobar");
    for i in 0..frame.len() {
        for bit in 0..8 {
            let mut f = frame.clone();
            f[i] ^= 1 << bit;
            let s = format!("TX~{}", TaggedBase64::encode_raw(&f));
            assert_eq!(parse(&s), Err(TB64Error::InvalidChecksum));
        }
    }
}

#[test]
fn bad_tags_are_refused() {
    assert_eq!(parse("bad tag~AAAA"), Err(TB64Error::InvalidTag));
    assert_eq!(parse("a+b~0WZvb2Jhcg"), Err(TB64Error::InvalidTag));
    assert_eq!(parse("a/b~0WZvb2Jhcg"), Err(TB64Error::InvalidTag));
    assert_eq!(parse("é~AA"), Err(TB64Error::InvalidTag));
    for tag in ["bad tag", "a+b", "a/b", "a~b", "é", "x="] {
        assert_eq!(TaggedBase64::new(tag, b"x"), Err(TB64Error::InvalidTag));
        assert_eq!(JsTaggedBase64::new(tag, b"x"), Err(TB64Error::InvalidTag));
        assert_eq!(
            JsTaggedBase64::make_tagged_base64(tag, "AA"),
            Err(TB64Error::InvalidTag)
        );
    }
}

#[test]
fn missing_delimiter_is_refused() {
    assert_eq!(parse("TXAAAA"), Err(TB64Error::InvalidLength));
    assert_eq!(parse(""), Err(TB64Error::InvalidLength));
    assert_eq!(parse("TX0WZvb2Jhcg"), Err(TB64Error::InvalidLength));
}

#[test]
fn splits_at_first_delimiter() {
    assert_eq!(TB64_DELIM, '~');
    assert_eq!(parse("TX~AA~"), Err(TB64Error::InvalidByte(2, b'~')));
}

#[test]
fn empty_frame_is_refused() {
    assert_eq!(parse("TX~"), Err(TB64Error::InvalidLength));
    assert_eq!(parse("~"), Err(TB64Error::InvalidLength));
}

#[test]
fn decoder_errors_are_passed_on() {
    assert_eq!(parse("TX~0W*v"), Err(TB64Error::InvalidByte(2, b'*')));
    assert_eq!(parse("TX~A"), Err(TB64Error::InvalidLength));
    assert_eq!(parse("~AB"), Err(TB64Error::InvalidByte(1, b'B')));
    assert_eq!(parse("TX~\u{e9}A"), Err(TB64Error::InvalidByte(0, 0xC3)));
}

#[test]
fn make_tagged_base64_checks_frame() {
    let t = JsTaggedBase64::make_tagged_base64("TX", "0WZvb2Jhcg").unwrap();
    assert_eq!(t, TaggedBase64::new("TX", b"foobar").unwrap());
    assert_eq!(
        JsTaggedBase64::make_tagged_base64("TX", "AGZvb2Jhcg"),
        Err(TB64Error::InvalidChecksum)
    );
    assert_eq!(
        JsTaggedBase64::make_tagged_base64("TX", ""),
        Err(TB64Error::InvalidLength)
    );
}

#[test]
fn raw_codec() {
    assert_eq!(TaggedBase64::encode_raw(b"foobar"), "Zm9vYmFy");
    assert_eq!(TaggedBase64::encode_raw(b"fo"), "Zm8");
    assert_eq!(TaggedBase64::encode_raw(&[0xfb, 0xff]), "-_8");
    assert_eq!(TaggedBase64::encode_raw(&[]), "");
    assert_eq!(TaggedBase64::decode_raw("Zm9vYmFy"), Ok(b"foobar".to_vec()));
    assert_eq!(TaggedBase64::decode_raw("-_8"), Ok(vec![0xfb, 0xff]));
    assert_eq!(TaggedBase64::decode_raw("AA=="), Ok(vec![0]));
    assert_eq!(TaggedBase64::decode_raw("+/8"), Err(TB64Error::InvalidByte(0, b'+')));
}

#[test]
fn safe_characters() {
    for c in ['a', 'z', 'A', 'Z', '0', '9', '-', '_'] {
        assert!(TaggedBase64::is_safe_base64_ascii(c));
    }
    for c in ['~', '+', '/', ' ', '=', '.', 'é', '\0'] {
        assert!(!TaggedBase64::is_safe_base64_ascii(c));
    }
    assert!(TaggedBase64::is_safe_base64_tag(""));
    assert!(TaggedBase64::is_safe_base64_tag("Tx-_9"));
    assert!(!TaggedBase64::is_safe_base64_tag("T X"));
    assert!(!TaggedBase64::is_safe_base64_tag("Tä"));
}

#[test]
fn setters_recompute_checksum() {
    let mut t = TaggedBase64::new("TX", b"zzz").unwrap();
    t.set_value(b"foobar");
    assert_eq!(to_string(&t), "TX~0WZvb2Jhcg");
    t.set_tag("LA").unwrap();
    t.set_value(b"31415");
    assert_eq!(to_string(&t), "LA~5zMxNDE1");
    assert_eq!(parse(&to_string(&t)).unwrap(), t);
}

#[test]
fn set_tag_refuses_bad_tag() {
    let mut t = TaggedBase64::new("TX", b"foobar").unwrap();
    assert_eq!(t.set_tag("bad tag"), Err(TB64Error::InvalidTag));
    assert_eq!(t.tag(), "TX");
    assert_eq!(to_string(&t), "TX~0WZvb2Jhcg");
}
