use mayastor::dev::loopback::Loopback;
use mayastor::dev::malloc::Malloc;
use mayastor::dev::null::Null;
use mayastor::dev::uri::{parse_u32, IntParam, NexusBdevError, Uri, UriFault};
use mayastor::guid::GptGuid;

/// What the device factories read of a URI, taken from the real parser.
fn uri(text: &str) -> Uri {
    let url = url::Url::parse(text).unwrap();
    Uri {
        text: url.to_string(),
        path: url.path().to_string(),
        segments: url
            .path_segments()
            .map(|segments| segments.filter(|s| !s.is_empty()).map(String::from).collect())
            .unwrap_or_default(),
        query: url.query_pairs().into_owned().collect(),
    }
}

fn invalid(text: &str, message: &str) -> NexusBdevError {
    NexusBdevError::UriInvalid { uri: uri(text).text, message: String::from(message) }
}

#[test]
fn malloc_uri() {
    let disk = Malloc::try_from(&uri(
        "malloc:///malloc0?size_mb=64&blk_size=4096&uuid=11111111-2222-3333-4444-555555555555",
    ))
    .unwrap();
    assert_eq!(disk.name, "malloc0");
    assert_eq!(disk.get_name(), "malloc0");
    assert_eq!(
        disk.alias,
        "malloc:///malloc0?size_mb=64&blk_size=4096&uuid=11111111-2222-3333-4444-555555555555"
    );
    assert_eq!(disk.blk_size, 4096);
    assert_eq!(disk.num_blocks, 64 * 1024 * 1024 / 4096);
    assert_eq!(
        disk.uuid,
        Some(GptGuid::from_str("11111111-2222-3333-4444-555555555555").unwrap())
    );

    let disk = Malloc::try_from(&uri("malloc:///malloc0?num_blocks=1000")).unwrap();
    assert_eq!(disk.blk_size, 512);
    assert_eq!(disk.num_blocks, 1000);
    // without a UUID a random one is drawn
    let drawn = disk.uuid.unwrap();
    assert_eq!(drawn.time_high >> 12, 4);
    assert_ne!(Malloc::try_from(&uri("malloc:///malloc0?num_blocks=1000")).unwrap().uuid, Some(drawn));

    // neither size nor blocks: an empty device
    assert_eq!(Malloc::try_from(&uri("malloc:///malloc0")).unwrap().num_blocks, 0);
    // the name is the path without the leading slash
    assert_eq!(Malloc::try_from(&uri("malloc:///a/b?size_mb=1")).unwrap().name, "a/b");
    // of a repeated parameter the last one counts
    assert_eq!(
        Malloc::try_from(&uri("malloc:///malloc0?size_mb=1&size_mb=2")).unwrap().num_blocks,
        4096
    );
    assert_eq!(Malloc::try_from(&uri("malloc:///m?size_mb=%2B8")).unwrap().num_blocks, 16384);
}

#[test]
fn malloc_size_is_computed_in_64_bits() {
    let disk = Malloc::try_from(&uri("malloc:///malloc0?size_mb=4096")).unwrap();
    assert_eq!(disk.num_blocks, 4096 * 1024 * 1024 / 512);
    let disk = Malloc::try_from(&uri("malloc:///malloc0?size_mb=4294967295&blk_size=4096")).unwrap();
    assert_eq!(disk.num_blocks, 4294967295u64 * 256);
}

#[test]
fn malloc_uri_errors() {
    let bad = |text: &str| Malloc::try_from(&uri(text)).unwrap_err();
    assert_eq!(bad("malloc:///"), invalid("malloc:///", "no path segments"));
    assert_eq!(
        bad("malloc:///m?blk_size=1024"),
        invalid(
            "malloc:///m?blk_size=1024",
            "invalid blk_size specified must be one of 512 or 4096"
        )
    );
    assert_eq!(
        bad("malloc:///m?blk_size=abc"),
        NexusBdevError::IntParamParseError {
            uri: String::from("malloc:///m?blk_size=abc"),
            parameter: String::from("blk_size")
        }
    );
    assert_eq!(
        bad("malloc:///m?size_mb=-1"),
        NexusBdevError::IntParamParseError {
            uri: String::from("malloc:///m?size_mb=-1"),
            parameter: String::from("size_mb")
        }
    );
    assert_eq!(
        bad("malloc:///m?size_mb=4294967296"),
        NexusBdevError::IntParamParseError {
            uri: String::from("malloc:///m?size_mb=4294967296"),
            parameter: String::from("size_mb")
        }
    );
    assert_eq!(
        bad("malloc:///m?num_blocks="),
        NexusBdevError::IntParamParseError {
            uri: String::from("malloc:///m?num_blocks="),
            parameter: String::from("num_blocks")
        }
    );
    assert_eq!(
        bad("malloc:///m?size_mb=1&num_blocks=1"),
        invalid(
            "malloc:///m?size_mb=1&num_blocks=1",
            "conflicting parameters num_blocks and size_mb are mutually exclusive"
        )
    );
    assert_eq!(
        bad("malloc:///m?uuid=none"),
        NexusBdevError::UuidParamParseError { uri: String::from("malloc:///m?uuid=none") }
    );
    assert_eq!(
        bad("malloc:///m?size_mb=1&wipe=true"),
        invalid("malloc:///m?size_mb=1&wipe=true", "unrecognized parameters")
    );
    // the first fault is reported
    assert_eq!(
        bad("malloc:///m?wipe=true&blk_size=7"),
        invalid(
            "malloc:///m?wipe=true&blk_size=7",
            "invalid blk_size specified must be one of 512 or 4096"
        )
    );
    let u = uri("malloc:///m");
    assert_eq!(
        u.error(UriFault::IntParamParse(IntParam::NumBlocks)),
        NexusBdevError::IntParamParseError {
            uri: String::from("malloc:///m"),
            parameter: String::from("num_blocks")
        }
    );
}

#[test]
fn malloc_create_and_destroy() {
    let disk = Malloc::try_from(&uri("malloc:///malloc0?size_mb=1")).unwrap();
    assert_eq!(disk.create(false), Ok(()));
    assert_eq!(disk.create(true), Err(NexusBdevError::BdevExists { name: String::from("malloc0") }));
    assert_eq!(disk.created(0), Ok(String::from("malloc0")));
    assert_eq!(
        disk.created(-12),
        Err(NexusBdevError::CreateBdev { source: 12, name: String::from("malloc0") })
    );
    assert_eq!(
        disk.created(22),
        Err(NexusBdevError::CreateBdev { source: 22, name: String::from("malloc0") })
    );
    assert_eq!(disk.destroy(true), Ok(()));
    assert_eq!(
        disk.destroy(false),
        Err(NexusBdevError::BdevNotFound { name: String::from("malloc0") })
    );
    assert_eq!(disk.destroyed(Some(0)), Ok(()));
    assert_eq!(
        disk.destroyed(Some(16)),
        Err(NexusBdevError::DestroyBdev { source: 16, name: String::from("malloc0") })
    );
    assert_eq!(
        disk.destroyed(None),
        Err(NexusBdevError::CancelBdev { name: String::from("malloc0") })
    );
}

#[test]
fn null_uri() {
    let disk = Null::try_from(&uri("null:///null0?size_mb=8&blk_size=512")).unwrap();
    assert_eq!(disk.name, "null0");
    assert_eq!(disk.alias, "null:///null0?size_mb=8&blk_size=512");
    assert_eq!(disk.num_blocks, 16384);
    assert_eq!(disk.blk_size, 512);
    assert!(disk.uuid.is_some());
    assert_eq!(
        Null::try_from(&uri("null:///null0?size_mb=8&num_blocks=8")),
        Err(invalid(
            "null:///null0?size_mb=8&num_blocks=8",
            "conflicting parameters num_blocks and size_mb are mutually exclusive"
        ))
    );
    assert_eq!(Null::try_from(&uri("null:///")), Err(invalid("null:///", "no path segments")));
    assert_eq!(
        Null::try_from(&uri("null:///n?x=1")),
        Err(invalid("null:///n?x=1", "unrecognized parameters"))
    );
    assert_eq!(disk.create(true), Err(NexusBdevError::BdevExists { name: String::from("null0") }));
    assert_eq!(disk.created(0), Ok(String::from("null0")));
    assert_eq!(
        disk.created(-1),
        Err(NexusBdevError::CreateBdev { source: 1, name: String::from("null0") })
    );
    assert_eq!(
        disk.destroy(false),
        Err(NexusBdevError::BdevNotFound { name: String::from("null0") })
    );
    assert_eq!(
        disk.destroyed(None),
        Err(NexusBdevError::CancelBdev { name: String::from("null0") })
    );
    assert_eq!(disk.get_name(), "null0");
}

#[test]
fn loopback_uri() {
    let device = Loopback::try_from(&uri("loopback:///pool/lvol0")).unwrap();
    assert_eq!(device.name, "pool/lvol0");
    assert_eq!(device.alias, "loopback:///pool/lvol0");
    assert_eq!(device.uuid, None);
    assert_eq!(device.get_name(), "pool/lvol0");
    assert_eq!(device.create(true), (Ok(String::from("pool/lvol0")), true));
    assert_eq!(device.create(false), (Ok(String::from("pool/lvol0")), false));
    assert_eq!(device.destroy(), Ok(()));

    let device = Loopback::try_from(&uri(
        "loopback:///lvol0?uuid=11111111-2222-3333-4444-555555555555",
    ))
    .unwrap();
    assert_eq!(device.name, "lvol0");
    assert_eq!(
        device.uuid,
        Some(GptGuid::from_str("11111111-2222-3333-4444-555555555555").unwrap())
    );
    assert_eq!(
        Loopback::try_from(&uri("loopback:///")),
        Err(invalid("loopback:///", "no path segments"))
    );
    assert_eq!(
        Loopback::try_from(&uri("loopback:///lvol0?uuid=1")),
        Err(NexusBdevError::UuidParamParseError { uri: String::from("loopback:///lvol0?uuid=1") })
    );
    assert_eq!(
        Loopback::try_from(&uri("loopback:///lvol0?blk_size=512")),
        Err(invalid("loopback:///lvol0?blk_size=512", "unrecognized parameters"))
    );
}

#[test]
fn numbers_of_32_bits() {
    assert_eq!(parse_u32("0"), Some(0));
    assert_eq!(parse_u32("512"), Some(512));
    assert_eq!(parse_u32("+512"), Some(512));
    assert_eq!(parse_u32("000512"), Some(512));
    assert_eq!(parse_u32("4294967295"), Some(u32::MAX));
    assert_eq!(parse_u32("4294967296"), None);
    assert_eq!(parse_u32("99999999999999999999999"), None);
    assert_eq!(parse_u32(""), None);
    assert_eq!(parse_u32("+"), None);
    assert_eq!(parse_u32("-1"), None);
    assert_eq!(parse_u32("++1"), None);
    assert_eq!(parse_u32("1+"), None);
    assert_eq!(parse_u32(" 1"), None);
    assert_eq!(parse_u32("1 "), None);
    assert_eq!(parse_u32("12a"), None);
    assert_eq!(parse_u32("0x10"), None);
    assert_eq!(parse_u32("١٢"), None);
    for text in ["0", "7", "+7", "4294967295", "4294967296", "", "+", "-0", "1_000", "٣"] {
        assert_eq!(parse_u32(text), text.parse::<u32>().ok(), "{:?}", text);
    }
}
