use dram_bench::{
    align_with_page_size, init, parse_page_size_str, supported_page_size, Error, PktSizeDistr,
};

#[test]
fn parses_constant_distribution() {
    let d = PktSizeDistr::parse("constant(64)").unwrap();
    assert_eq!(d.generate(), 64);
    assert_eq!(d.max_size(), 64);
}

#[test]
fn distribution_name_is_case_insensitive_and_trimmed() {
    let d = PktSizeDistr::parse("  CONSTANT( 1500 )  ").unwrap();
    assert_eq!(d.generate(), 1500);
}

#[test]
fn plus_sign_is_accepted_in_parameter() {
    let d = PktSizeDistr::parse("constant(+64)").unwrap();
    assert_eq!(d.generate(), 64);
}

#[test]
fn doubled_closing_parenthesis_is_tolerated() {
    let d = PktSizeDistr::parse("constant(64))").unwrap();
    assert_eq!(d.generate(), 64);
}

#[test]
fn rejects_malformed_distributions() {
    for s in [
        "",
        "constant",
        "constant(",
        "constant()",
        "constant(64",
        "constant(64,65)",
        "constant(a)",
        "constant(65536)",
        "constant(-1)",
        "uniform(1,2)",
        "64",
    ] {
        assert_eq!(PktSizeDistr::parse(s).err(), Some(Error::Config), "input {:?}", s);
    }
}

#[test]
fn parses_page_size_suffixes() {
    assert_eq!(parse_page_size_str("2M").unwrap(), 2_097_152);
    assert_eq!(parse_page_size_str("2m").unwrap(), 2_097_152);
    assert_eq!(parse_page_size_str("2mb").unwrap(), 2_097_152);
    assert_eq!(parse_page_size_str("64kb").unwrap(), 65_536);
    assert_eq!(parse_page_size_str("2k").unwrap(), 2048);
    assert_eq!(parse_page_size_str("1G").unwrap(), 1_073_741_824);
    assert_eq!(parse_page_size_str("1gb").unwrap(), 1_073_741_824);
    assert_eq!(parse_page_size_str("16B").unwrap(), 16);
    assert_eq!(parse_page_size_str("4096").unwrap(), 4096);
    assert_eq!(parse_page_size_str(" 2 k ").unwrap(), 2048);
}

#[test]
fn rejects_malformed_page_sizes() {
    for s in ["", "k", "2x", "two", "2.5m", "-1", "99999999999999999999g"] {
        assert_eq!(parse_page_size_str(s).err(), Some(Error::Config), "input {:?}", s);
    }
}

#[test]
fn supported_page_sizes_are_the_nine_listed() {
    for s in [
        1024usize, 4096, 8192, 16384, 32768, 65536, 1_048_576, 2_097_152, 1_073_741_824,
    ] {
        assert!(supported_page_size(s), "size {}", s);
    }
    for s in [0usize, 1, 512, 2048, 1234, 8_388_608] {
        assert!(!supported_page_size(s), "size {}", s);
    }
}

#[test]
fn init_rejects_unsupported_page_size() {
    assert_eq!(init(1234, false).err(), Some(Error::Config));
    let conf = init(4096, true).unwrap();
    assert_eq!(conf.page_size, 4096);
    assert!(conf.huge_enabled);
}

#[test]
fn alignment_rounds_up_to_whole_pages() {
    let conf = init(4096, false).unwrap();
    assert_eq!(align_with_page_size(&conf, 1), 4096);
    assert_eq!(align_with_page_size(&conf, 4096), 4096);
    assert_eq!(align_with_page_size(&conf, 4097), 8192);
    assert_eq!(align_with_page_size(&conf, 2 * 1024 * 1024), 2 * 1024 * 1024);
}

#[test]
fn error_kinds_describe_themselves() {
    for e in [
        Error::Config,
        Error::Resource,
        Error::HardwareAccess,
        Error::Internal,
    ] {
        assert!(!e.describe().is_empty());
    }
}
