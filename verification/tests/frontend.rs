use mayastor::aligned::Aligned;
use mayastor::client_context::{ClientError, Context, HostParts, OutputFormat};
use mayastor::environment::{
    mayastor_env_stop, LogLevel, MayastorCliArgs, MayastorEnvironment, ReactorState, SignalGate,
};
use mayastor::errors::{LabelError, LabelHalf, LabelPart, ProbeError};
use mayastor::guid::GptGuid;
use mayastor::nexus_bdev::Nexus;

#[test]
fn blocks_are_rounded_up() {
    assert_eq!(<u64 as Aligned>::get_blocks(0, 512), 0);
    assert_eq!(<u64 as Aligned>::get_blocks(1, 512), 1);
    assert_eq!(<u64 as Aligned>::get_blocks(512, 512), 1);
    assert_eq!(<u64 as Aligned>::get_blocks(513, 512), 2);
    assert_eq!(<u64 as Aligned>::get_blocks(128 * 128, 512), 32);
    assert_eq!(<u64 as Aligned>::get_blocks(1024 * 1024, 4096), 256);
    assert_eq!(<u64 as Aligned>::get_blocks(u64::MAX, 1), u64::MAX);
    assert_eq!(<u64 as Aligned>::get_blocks(u64::MAX, 2), 1 << 63);
    assert_eq!(<u64 as Aligned>::get_blocks(u64::MAX, u64::MAX), 1);
    assert_eq!(<u32 as Aligned>::get_blocks(0, 7), 0);
    assert_eq!(<u32 as Aligned>::get_blocks(15, 7), 3);
    assert_eq!(<u32 as Aligned>::get_blocks(u32::MAX, 2), 1 << 31);
}

#[test]
fn default_arguments() {
    let args = MayastorCliArgs::default();
    assert_eq!(args.grpc_endpoint, "0.0.0.0:10124");
    assert_eq!(args.reactor_mask, "0x1");
    assert_eq!(args.rpc_address, "/var/tmp/mayastor.sock");
    assert_eq!(args.mem_size, 0);
    assert!(args.no_pci);
    assert!(args.log_components.is_empty());
    assert_eq!(args.node_name, None);
    assert_eq!(args.core_list, None);

    let env = MayastorEnvironment::new(args);
    assert_eq!(env.node_name, "mayastor-node");
    assert_eq!(env.name, "mayastor");
    assert_eq!(env.grpc_endpoint, Some(String::from("0.0.0.0:10124")));
    assert_eq!(env.mem_size, 0);
    assert!(env.no_pci);
    assert_eq!(env.shm_id, -1);
    assert_eq!(env.print_level, LogLevel::Info);

    let env = MayastorEnvironment::default();
    assert_eq!(env.mem_size, -1);
    assert!(!env.no_pci);
    assert_eq!(env.grpc_endpoint, None);
    assert_eq!(env.rpc_addr, "/var/tmp/mayastor.sock");
}

#[test]
fn eal_arguments() {
    let env = MayastorEnvironment::new(MayastorCliArgs::default());
    assert_eq!(
        env.initialize_eal(4711, true),
        vec![
            "mayastor",
            "--no-shconf",
            "-m 0",
            "--no-pci",
            "--base-virtaddr=0x200000000000",
            "--file-prefix=mayastor_pid4711",
            "--huge-unlink",
            "--log-level=lib.eal:6",
            "--log-level=lib.cryptodev:5",
            "--log-level=user1:6",
            "--match-allocations",
            "-c 0x1",
        ]
    );
    let mut env = MayastorEnvironment::default();
    env.mem_channel = 4;
    env.shm_id = 3;
    env.master_core = 2;
    env.hugepage_single_segments = true;
    env.hugedir = Some(String::from("/dev/hugepages"));
    env.unlink_hugepage = false;
    env.env_context = Some(String::from("  --iova-mode=pa\t--vdev=x  "));
    env.core_list = Some(String::from("1,2"));
    assert_eq!(
        env.initialize_eal(4711, false),
        vec![
            "mayastor",
            "-n 4",
            "--master-lcore=2",
            "--single-file-segments",
            "--huge-dir=/dev/hugepages",
            "--file-prefix=mayastor_pid3",
            "--proc-type=auto",
            "--log-level=lib.eal:6",
            "--log-level=lib.cryptodev:5",
            "--log-level=user1:6",
            "--match-allocations",
            "--iova-mode=pa",
            "--vdev=x",
            "-l 1,2",
        ]
    );
}

#[test]
fn log_level_follows_the_components() {
    let mut env = MayastorEnvironment::default();
    env.init_logger();
    assert_eq!((env.debug_level, env.print_level), (LogLevel::Info, LogLevel::Info));
    env.log_component = vec![String::from("nvme")];
    env.init_logger();
    assert_eq!((env.debug_level, env.print_level), (LogLevel::Debug, LogLevel::Debug));
}

#[test]
fn output_format() {
    assert_eq!(OutputFormat::from_str("json"), Ok(OutputFormat::Json));
    assert_eq!(OutputFormat::from_str("JSON"), Ok(OutputFormat::Json));
    assert_eq!(OutputFormat::from_str("Default"), Ok(OutputFormat::Default));
    assert_eq!(
        OutputFormat::from_str("YAML"),
        Err(ClientError::OutputFormatError { format: String::from("yaml") })
    );
}

#[test]
fn client_context() {
    let c = Context::new(false, 0, None, Some("default")).unwrap();
    assert_eq!(c, Context { verbosity: 1, units: 'b', output: OutputFormat::Default });
    assert!(c.v1());
    assert!(!c.v2());
    let c = Context::new(false, 2, Some("iec"), Some("json")).unwrap();
    assert_eq!(c, Context { verbosity: 3, units: 'i', output: OutputFormat::Json });
    assert!(c.v2());
    let c = Context::new(true, 2, Some(""), Some("json")).unwrap();
    assert_eq!(c, Context { verbosity: 0, units: 'b', output: OutputFormat::Json });
    assert!(!c.v1());
    assert_eq!(
        Context::new(false, 0, None, None),
        Err(ClientError::OutputFormatError { format: String::from("<none>") })
    );
    assert_eq!(
        Context::new(false, 0, None, Some("xml")),
        Err(ClientError::OutputFormatError { format: String::from("xml") })
    );
}

#[test]
fn lists_are_laid_out_in_columns() {
    let data = || {
        vec![
            vec![String::from("nexus0"), String::from("1 GiB"), String::from("online")],
            vec![String::from("n1"), String::from("512 MiB"), String::from("degraded")],
        ]
    };
    let c = Context { verbosity: 1, units: 'b', output: OutputFormat::Default };
    assert_eq!(
        c.print_list(vec!["NAME", ">SIZE", "STATE"], data()),
        vec![
            "NAME      SIZE STATE   ",
            "nexus0   1 GiB online  ",
            "n1     512 MiB degraded",
        ]
    );
    let quiet = Context { verbosity: 0, units: 'b', output: OutputFormat::Default };
    assert_eq!(
        quiet.print_list(vec!["NAME", ">SIZE", "STATE"], data()),
        vec!["nexus0 1 GiB online", "n1 512 MiB degraded"]
    );
    assert_eq!(Context::pad("ab", 4, true), "  ab");
    assert_eq!(Context::pad("ab", 4, false), "ab  ");
    assert_eq!(Context::pad("abcdef", 4, true), "abcdef");
    assert_eq!(Context::column(">SIZE"), (true, String::from("SIZE")));
    assert_eq!(Context::column("SIZE"), (false, String::from("SIZE")));
    assert_eq!(Context::column(""), (false, String::new()));
}

#[test]
fn label_as_text() {
    let guid = GptGuid::from_str("eab49a2f-efea-45e6-9a1b-61fece3426dd").unwrap();
    let label = Nexus::generate_label(guid, 512, 2097152, 1 << 30).unwrap();
    let text = label.to_string();
    let lines: Vec<&str> = text.lines().collect();
    assert_eq!(lines.len(), 22);
    assert_eq!(lines[0], "GUID: eab49a2f-efea-45e6-9a1b-61fece3426dd");
    assert_eq!(lines[1], format!("Primary GPT header crc32: {:08x}", label.primary.self_checksum));
    assert_eq!(lines[2], "LBA primary GPT header: 1");
    assert_eq!(lines[3], "LBA primary partition table: 2");
    assert_eq!(
        lines[4],
        format!("Secondary GPT header crc32: {:08x}", label.secondary.self_checksum)
    );
    assert_eq!(lines[5], "LBA secondary GPT header: 2097151");
    assert_eq!(lines[6], "LBA secondary partition table: 2097119");
    assert_eq!(lines[7], format!("Partition table crc32: {:08x}", label.primary.table_crc));
    assert_eq!(lines[8], "LBA first usable block: 2048");
    assert_eq!(lines[9], "LBA last usable block: 2097118");
    assert_eq!(lines[10], "  Partition 0");
    assert_eq!(lines[11], format!("    GUID: {}", label.partitions[0].ent_guid.to_string()));
    assert_eq!(lines[12], "    Type GUID: 27663382-e5e6-11e9-81b4-ca5ca5ca5ca5");
    assert_eq!(lines[13], "    LBA start: 2048");
    assert_eq!(lines[14], "    LBA end: 10239");
    assert_eq!(lines[15], "    Name: MayaMeta");
    assert_eq!(lines[16], "  Partition 1");
    assert_eq!(lines[19], "    LBA start: 10240");
    assert_eq!(lines[21], "    Name: MayaData");
    assert!(text.ends_with('\n'));
}

#[test]
fn errors_as_text() {
    assert_eq!(ProbeError::MbrSignature.to_string(), "Incorrect MBR signature");
    assert_eq!(
        ProbeError::GptHeaderSize { actual_size: 93, expected_size: 92 }.to_string(),
        "Incorrect GPT header size: actual=93 expected=92"
    );
    assert_eq!(
        ProbeError::MissingPartition { name: String::from("MayaData") }.to_string(),
        "Missing partition: MayaData"
    );
    assert_eq!(ProbeError::LabelRedundancy.to_string(), "Label is invalid");
    assert_eq!(
        LabelError::InvalidLabel { source: ProbeError::GptChecksum }.to_string(),
        "Label is invalid: Incorrect GPT header checksum"
    );
    assert_eq!(
        LabelError::from(ProbeError::GptChecksum),
        LabelError::InvalidLabel { source: ProbeError::GptChecksum }
    );
    assert_eq!(
        LabelError::DeviceTooSmall { num_blocks: 100, block_size: 512 }.to_string(),
        "Device is too small to accomodate Metadata partition: size = 100 x 512"
    );
    assert_eq!(
        LabelError::DataOffsetMismatch { name: String::from("nexus0") }.to_string(),
        "Child data offsets differ for nexus nexus0"
    );
    assert_eq!(
        LabelError::ReReadError { name: String::from("null:///n") }.to_string(),
        "The written label could not be read from disk, likely the child null:///n is a null device"
    );
    assert_eq!(
        LabelError::ReadError { part: LabelPart::SecondaryHeader }.to_string(),
        "Error reading from child secondary GPT header"
    );
    assert_eq!(
        LabelError::WriteAlloc { half: LabelHalf::Primary }.to_string(),
        "Failed to allocate buffer for writing to child primary"
    );
    assert_eq!(
        LabelError::HandleError { name: String::from("c") }.to_string(),
        "Failed to obtain BdevHandle for child c"
    );
    assert_eq!(LabelError::SerializeError.to_string(), "Serialization error");
}

#[test]
fn host_is_normalized() {
    let parts = HostParts {
        scheme: None,
        authority: Some((String::from("10.0.0.1"), None)),
        path_and_query: None,
    }
    .normalized();
    assert_eq!(
        parts,
        HostParts {
            scheme: Some(String::from("http")),
            authority: Some((String::from("10.0.0.1"), Some(10124))),
            path_and_query: Some(String::from("/")),
        }
    );
    let given = || HostParts {
        scheme: Some(String::from("https")),
        authority: Some((String::from("node"), Some(443))),
        path_and_query: Some(String::from("/v1?x=1")),
    };
    assert_eq!(given().normalized(), given());
    let local = HostParts::local();
    assert_eq!(local.authority, Some((String::from("127.0.0.1"), Some(10124))));
    assert_eq!(local.scheme, Some(String::from("http")));
    let none = HostParts { scheme: None, authority: None, path_and_query: None }.normalized();
    assert_eq!(none.authority, None);
}

#[test]
fn shutdown_is_asked_for_once() {
    let mut gate = SignalGate::new();
    assert!(gate.mayastor_signal_handler());
    assert!(!gate.mayastor_signal_handler());
    assert!(!gate.mayastor_signal_handler());
    assert!(mayastor_env_stop(ReactorState::Running));
    assert!(mayastor_env_stop(ReactorState::Init));
    assert!(mayastor_env_stop(ReactorState::Delayed));
    assert!(!mayastor_env_stop(ReactorState::Shutdown));
}
