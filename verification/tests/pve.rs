use gem12_display::caption::{Caption, Figure, Piece};
use gem12_display::pve::collector::{
    check_arguments, console_text, failure_text, next_collection, sensor_file, ssh_arguments,
    ArgumentError, NextCollection, SshArgument, REMOTE_COMMAND,
};
use gem12_display::pve::error::{Section, SnapshotError};
use gem12_display::pve::fields::{format_uptime, offline_dot, online_dot, percent};
use gem12_display::pve::snapshot::{marker_value, parse_snapshot, read_report, NODE_MARKER};
use gem12_display::json::{parse_json, Json};
use gem12_display::sensors::Sensors;
use gem12_display::time::Duration;

const BANNER: &str = "banner\n";
const NODE: &str = "__ASTER_NODE__pve\n";
const TIME: &str = "__ASTER_TIME__10:09:53\n";
const STATUS: &str = "{\"cpu\":0.125,\"pveversion\":\"pve-manager/9.2.2/hash\",\"current-kernel\":{\"release\":\"7.0.2-6-pve\"},\"loadavg\":[\"0.42\"],\"memory\":{\"used\":17179869184,\"total\":68719476736},\"rootfs\":{\"used\":5368709120,\"total\":42949672960},\"uptime\":90061}";
const GUESTS: &str = "[{\"vmid\":100,\"name\":\"router\",\"type\":\"lxc\",\"status\":\"running\",\"cpu\":0.012,\"mem\":858993459,\"maxmem\":2147483648},{\"vmid\":101,\"name\":\"backup\",\"type\":\"qemu\",\"status\":\"stopped\",\"cpu\":0.0,\"mem\":0,\"maxmem\":4294967296}]";
const STORAGE: &str = "[{\"storage\":\"local\",\"active\":1,\"enabled\":1,\"used\":10737418240,\"total\":107374182400}]";
const NETWORK: &str = "[{\"iface\":\"nic0\",\"type\":\"eth\",\"exists\":1,\"active\":0},{\"iface\":\"nic1\",\"type\":\"eth\",\"exists\":1,\"active\":1},{\"iface\":\"vmbr0\",\"type\":\"bridge\",\"active\":1,\"address\":\"192.0.2.10\",\"cidr\":\"192.0.2.10/24\",\"gateway\":\"192.0.2.1\"}]";

fn report(status: &str, guests: &str, storage: &str, network: &str) -> String {
    format!(
        "{BANNER}{NODE}{TIME}__ASTER_STATUS__{status}\n__ASTER_GUESTS__{guests}\n__ASTER_STORAGE__{storage}\n__ASTER_NETWORK__{network}\n"
    )
}

fn sample() -> String {
    report(STATUS, GUESTS, STORAGE, NETWORK)
}

fn gib(bytes: u64) -> f64 {
    bytes as f64 / 1024.0 / 1024.0 / 1024.0
}

fn figure_value(figure: Figure) -> f64 {
    match figure {
        Figure::Share { double_bits } => f64::from_bits(double_bits) * 100.0,
        Figure::Percent { used, total } => used as f64 * 100.0 / total as f64,
        Figure::Gibibytes { bytes } => gib(bytes),
        Figure::Seconds { span } | Figure::CoarseSeconds { span } => span.nanos as f64 / 1e9,
    }
}

fn render(caption: &Caption) -> String {
    let mut text = String::new();
    for piece in &caption.pieces {
        match piece {
            Piece::Text(part) => text.push_str(part),
            Piece::Figure {
                figure,
                decimals,
                width,
            } => text.push_str(&format!("{:>width$.decimals$}", figure_value(*figure))),
        }
    }
    text
}

fn value(sensors: &Sensors, key: &str) -> String {
    render(sensors.get(key).unwrap_or_else(|| panic!("no {key}")))
}

fn keys(sensors: &Sensors) -> Vec<String> {
    sensors
        .entries()
        .iter()
        .map(|(key, _)| key.clone())
        .collect()
}

fn error_of(raw: &str, preferred: Option<&str>) -> SnapshotError {
    match parse_snapshot(raw, preferred) {
        Ok(_) => panic!("no error"),
        Err(error) => error,
    }
}

#[test]
fn parses_pve_snapshot() {
    let values = parse_snapshot(&sample(), Some("local")).ok().unwrap();
    let values = |key: &str| value(&values, key);
    assert_eq!(values("pve_node"), "pve");
    assert_eq!(values("pve_time_display"), "10:09:53");
    assert_eq!(values("pve_version"), "9.2.2");
    assert_eq!(values("pve_cpu_percent"), "12.5");
    assert_eq!(values("pve_memory_percent"), "25.0");
    assert_eq!(values("pve_guests_display"), "GUESTS  1/2");
    assert_eq!(values("pve_guests_online_dot"), " ");
    assert_eq!(values("pve_guests_offline_dot"), "○");
    assert_eq!(values("pve_guest_0_online_dot"), "●");
    assert_eq!(values("pve_guest_0_offline_dot"), " ");
    assert_eq!(values("pve_guest_0_identity_display"), "100  router");
    assert_eq!(values("pve_guest_0_cpu_display"), "CPU  1.2%");
    assert_eq!(values("pve_guest_0_memory_display"), "RAM  0.8/2.0G");
    assert_eq!(values("pve_guest_1_online_dot"), " ");
    assert_eq!(values("pve_guest_1_offline_dot"), "○");
    assert_eq!(values("pve_guest_1_identity_display"), "101  backup");
    assert_eq!(values("pve_storage_display"), "local  10.0/100.0 GiB");
    assert_eq!(values("pve_uptime_display"), "UP  1d 01h");
    assert_eq!(values("pve_network_iface"), "vmbr0");
    assert_eq!(values("pve_network_status"), "UP");
    assert_eq!(values("pve_ip"), "192.0.2.10/24");
    assert_eq!(values("pve_network_online_dot"), "●");
    assert_eq!(values("pve_network_offline_dot"), " ");
    assert_eq!(values("pve_nic0_online_dot"), " ");
    assert_eq!(values("pve_nic0_offline_dot"), "○");
    assert_eq!(values("pve_nic1_online_dot"), "●");
    assert_eq!(
        values("pve_network_display"),
        "vmbr0 UP · 192.0.2.10/24 · nic0 DOWN · nic1 UP"
    );
}

#[test]
fn chooses_largest_active_storage() {
    let values = parse_snapshot(&sample(), None).ok().unwrap();
    assert_eq!(value(&values, "pve_storage_name"), "local");
}

#[test]
fn rejects_missing_preferred_storage() {
    assert!(parse_snapshot(&sample(), Some("missing")).is_err());
}

#[test]
fn gives_every_value_of_the_sample() {
    let values = parse_snapshot(&sample(), None).ok().unwrap();
    let expected = [
        ("pve_node_display", "PVE · pve"),
        ("pve_version_short_display", "PVE 9.2.2"),
        ("pve_kernel", "7.0.2-6-pve"),
        ("pve_version_display", "PVE 9.2.2  ·  Linux 7.0.2-6-pve"),
        ("pve_cpu_percent#unit", "%"),
        ("pve_cpu_display", "CPU  12.5%"),
        ("pve_memory_used_bytes", "17179869184"),
        ("pve_memory_total_bytes", "68719476736"),
        ("pve_memory_display", "RAM  16.0/64.0 GiB"),
        ("pve_rootfs_percent", "12.5"),
        ("pve_rootfs_display", "ROOT  5.0/40.0 GiB"),
        ("pve_load_one", "0.42"),
        ("pve_load_display", "LOAD  0.42"),
        ("pve_uptime_seconds", "90061"),
        ("pve_guests_total", "2"),
        ("pve_guests_running", "1"),
        ("pve_lxc_total", "1"),
        ("pve_lxc_running", "1"),
        ("pve_qemu_total", "1"),
        ("pve_qemu_running", "0"),
        ("pve_guest_list_title", "WORKLOADS  ·  1/2 RUNNING"),
        ("pve_guest_summary", "1/1 LXC  ·  0/1 VM"),
        (
            "pve_guest_0_display",
            "●  100  router              CPU  1.2%  RAM  0.8/2.0G",
        ),
        (
            "pve_guest_1_display",
            "○  101  backup              CPU  0.0%  RAM  0.0/4.0G",
        ),
        ("pve_guest_2_display", " "),
        ("pve_guest_4_cpu_display", " "),
        ("pve_storage_used_bytes", "10737418240"),
        ("pve_storage_total_bytes", "107374182400"),
        ("pve_storage_percent", "10.0"),
        ("pve_network_label", "vmbr0  192.0.2.10/24"),
        ("pve_nic1_offline_dot", " "),
        ("pve_wlp4s0_online_dot", " "),
        ("pve_wlp4s0_offline_dot", "○"),
        ("pve_wlp4s0_label", "wlp4s0"),
        (
            "pve_status_display",
            "PVE 9.2.2  ·  Linux 7.0.2-6-pve  ·  vmbr0 UP · 192.0.2.10/24 · nic0 DOWN · nic1 UP",
        ),
    ];
    for (key, text) in expected {
        assert_eq!(value(&values, key), text, "{key}");
    }
    assert!(values.get("pve_guest_5_display").is_none());
}

#[test]
fn ranks_guests_and_shortens_names() {
    let guests = "[{\"vmid\":7,\"name\":\"late\",\"status\":\"running\"},\
        {\"name\":\"without number\",\"status\":\"running\"},\
        {\"vmid\":7,\"name\":\"later\",\"status\":\"running\"},\
        {\"vmid\":1234,\"name\":\"ein äußerst langer Name\",\"status\":\"running\"},\
        {\"vmid\":5,\"status\":\"running\"},\
        {\"vmid\":9999,\"name\":\"not shown\",\"status\":\"running\"}]";
    let values = parse_snapshot(&report(STATUS, guests, STORAGE, NETWORK), None)
        .ok()
        .unwrap();
    let identities: Vec<String> = (0..5)
        .map(|row| value(&values, &format!("pve_guest_{row}_identity_display")))
        .collect();
    assert_eq!(
        identities,
        vec![
            "  0  without number",
            "  5  unnamed",
            "  7  late",
            "  7  later",
            "1234  ein äußerst langer",
        ]
    );
    assert_eq!(value(&values, "pve_guests_online_dot"), "●");
    assert_eq!(value(&values, "pve_guests_offline_dot"), " ");
    assert_eq!(value(&values, "pve_guest_summary"), "0/0 LXC  ·  0/0 VM");
}

#[test]
fn shows_no_dot_without_guests() {
    let values = parse_snapshot(&report(STATUS, "[]", STORAGE, NETWORK), None)
        .ok()
        .unwrap();
    assert_eq!(value(&values, "pve_guests_online_dot"), " ");
    assert_eq!(value(&values, "pve_guests_offline_dot"), " ");
    assert_eq!(value(&values, "pve_guests_display"), "GUESTS  0/0");
}

#[test]
fn keys_do_not_depend_on_the_report() {
    let few = parse_snapshot(&report(STATUS, "[]", STORAGE, NETWORK), None)
        .ok()
        .unwrap();
    let many = parse_snapshot(&sample(), Some("local")).ok().unwrap();
    assert_eq!(keys(&few), keys(&many));
    let mut sorted = keys(&few);
    sorted.sort();
    sorted.dedup();
    assert_eq!(keys(&few), sorted);
}

#[test]
fn banner_lines_are_passed_over() {
    let plain = sample();
    let with_banner = format!("Last login: today\r\n\nWelcome __ASTER_NODE__\n{plain}");
    let expected = parse_snapshot(&plain, None).ok().unwrap();
    let actual = parse_snapshot(&with_banner, None).ok().unwrap();
    assert_eq!(actual.entries(), expected.entries());
}

#[test]
fn takes_the_first_line_with_a_marker() {
    let raw = "x\r\n__ASTER_NODE__ one \r\n__ASTER_NODE__two\n";
    assert_eq!(marker_value(raw, NODE_MARKER).ok(), Some(" one "));
    assert_eq!(marker_value("__ASTER_NODE__", NODE_MARKER).ok(), Some(""));
    assert_eq!(
        marker_value("a__ASTER_NODE__b\n", NODE_MARKER)
            .err()
            .map(|error| error.message()),
        Some("missing __ASTER_NODE__ in SSH output".to_string())
    );
}

#[test]
fn prefers_the_last_of_equally_large_storages_in_service() {
    let storage = "[{\"storage\":\"a\",\"active\":1,\"enabled\":1,\"used\":1,\"total\":10},\
        {\"storage\":\"b\",\"active\":1,\"enabled\":1,\"used\":2,\"total\":10},\
        {\"storage\":\"c\",\"active\":0,\"enabled\":1,\"used\":3,\"total\":99},\
        {\"storage\":\"d\",\"active\":1,\"enabled\":1,\"used\":4,\"total\":9}]";
    let raw = report(STATUS, GUESTS, storage, NETWORK);
    let values = parse_snapshot(&raw, None).ok().unwrap();
    assert_eq!(value(&values, "pve_storage_name"), "b");
    let values = parse_snapshot(&raw, Some("a")).ok().unwrap();
    assert_eq!(value(&values, "pve_storage_used_bytes"), "1");
    assert_eq!(
        error_of(&raw, Some("c")).message(),
        "preferred storage 'c' is not active"
    );
    let none = report(STATUS, GUESTS, "[]", NETWORK);
    assert_eq!(
        error_of(&none, None).message(),
        "no active PVE storage found"
    );
}

#[test]
fn empty_total_is_no_percent() {
    assert_eq!(render(&percent(5, 0)), "0.0");
    assert_eq!(render(&percent(1, 3)), "33.3");
    assert_eq!(render(&percent(u64::MAX, 1)), format!("{:.1}", u64::MAX as f64 * 100.0));
}

#[test]
fn falls_back_to_defaults() {
    let status = "{\"cpu\":1,\"pveversion\":\"8.4\",\"loadavg\":[],\"memory\":{\"used\":1,\"total\":0},\"rootfs\":{\"used\":0,\"total\":1},\"uptime\":3661}";
    let network = "[{\"iface\":\"vmbr0\"}]";
    let values = parse_snapshot(&report(status, GUESTS, STORAGE, network), None)
        .ok()
        .unwrap();
    let values = |key: &str| value(&values, key);
    assert_eq!(values("pve_version"), "8.4");
    assert_eq!(values("pve_kernel"), "unknown");
    assert_eq!(values("pve_load_one"), "?");
    assert_eq!(values("pve_cpu_percent"), "100.0");
    assert_eq!(values("pve_memory_percent"), "0.0");
    assert_eq!(values("pve_uptime_display"), "UP  01h 01m");
    assert_eq!(values("pve_ip"), "no-ip");
    assert_eq!(values("pve_network_status"), "DOWN");
    assert_eq!(values("pve_network_display"), "vmbr0 DOWN · no-ip");
}

#[test]
fn shows_three_links_in_dictionary_order() {
    let network = "[{\"iface\":\"eth9\",\"type\":\"eth\",\"exists\":1,\"active\":1},\
        {\"iface\":\"eth10\",\"type\":\"eth\",\"exists\":1},\
        {\"iface\":\"eth2\",\"type\":\"eth\",\"exists\":0,\"active\":1},\
        {\"iface\":\"enp1\",\"type\":\"eth\",\"exists\":1,\"active\":1},\
        {\"iface\":\"zz\",\"type\":\"eth\",\"exists\":1,\"active\":1},\
        {\"iface\":\"br\",\"gateway\":\"g\",\"address\":\"a\",\"active\":1}]";
    let values = parse_snapshot(&report(STATUS, GUESTS, STORAGE, network), None)
        .ok()
        .unwrap();
    assert_eq!(
        value(&values, "pve_network_display"),
        "br UP · a · enp1 UP · eth10 DOWN · eth9 UP"
    );
}

#[test]
fn names_the_first_thing_that_is_wrong() {
    let cases = [
        (
            report("[]", GUESTS, STORAGE, NETWORK),
            "status.cpu is not a number",
        ),
        (
            report("{\"cpu\":1}", GUESTS, STORAGE, NETWORK),
            "status.memory.used is not an unsigned integer",
        ),
        (
            report(
                "{\"cpu\":1,\"memory\":{\"used\":1,\"total\":-1}}",
                GUESTS,
                STORAGE,
                NETWORK,
            ),
            "status.memory.total is not an unsigned integer",
        ),
        (
            report(
                "{\"cpu\":1,\"memory\":{\"used\":1,\"total\":1},\"rootfs\":{\"used\":1.5}}",
                GUESTS,
                STORAGE,
                NETWORK,
            ),
            "status.rootfs.used is not an unsigned integer",
        ),
        (
            report(STATUS, "{}", STORAGE, NETWORK),
            "guests is not an array",
        ),
        (
            report(STATUS, GUESTS, "1", NETWORK),
            "storages is not an array",
        ),
        (
            report(STATUS, GUESTS, STORAGE, "null"),
            "network is not an array",
        ),
        (
            report(STATUS, GUESTS, STORAGE, "[]"),
            "no primary PVE network interface found",
        ),
        (
            report(
                STATUS,
                GUESTS,
                "[{\"active\":1,\"enabled\":1,\"total\":1}]",
                NETWORK,
            ),
            "storage.used is not an unsigned integer",
        ),
        (
            report("nonsense", "{", "{", "{"),
            "invalid node status JSON",
        ),
        (
            report(STATUS, "nonsense", "{", "{"),
            "invalid guest resource JSON",
        ),
        (
            report(STATUS, GUESTS, "nonsense", "{"),
            "invalid storage JSON",
        ),
        (
            report(STATUS, GUESTS, STORAGE, "nonsense"),
            "invalid network JSON",
        ),
        (NODE.to_string(), "missing __ASTER_TIME__ in SSH output"),
        (
            format!("{NODE}{TIME}"),
            "missing __ASTER_STATUS__ in SSH output",
        ),
        (String::new(), "missing __ASTER_NODE__ in SSH output"),
    ];
    for (raw, message) in cases {
        assert_eq!(error_of(&raw, None).message(), message, "{raw}");
    }
    match error_of(&report("nonsense", GUESTS, STORAGE, NETWORK), None) {
        SnapshotError::InvalidJson { section, cause } => {
            assert_eq!(section, Section::Status);
            assert_eq!(cause, "expected ident at line 1 column 2");
        }
        other => panic!("{other:?}"),
    }
}

#[test]
fn works_on_values_that_were_not_read_from_text() {
    let number = |unsigned: u64| Json::Number {
        unsigned: Some(unsigned),
        double_bits: Some((unsigned as f64).to_bits()),
    };
    let name = |text: &str| text.to_string();
    let usage = |used: u64, total: u64| {
        Json::Object(vec![
            (name("used"), number(used)),
            (name("total"), number(total)),
        ])
    };
    let status = Json::Object(vec![
        (
            name("cpu"),
            Json::Number {
                unsigned: None,
                double_bits: Some(0.5f64.to_bits()),
            },
        ),
        (name("memory"), usage(1, 2)),
        (name("rootfs"), usage(1, 4)),
        (name("uptime"), number(59)),
    ]);
    let storages = Json::List(vec![Json::Object(vec![
        (name("active"), number(1)),
        (name("enabled"), number(1)),
        (name("used"), number(3)),
        (name("total"), number(4)),
    ])]);
    let network = Json::List(vec![Json::Object(vec![(
        name("iface"),
        Json::Text(name("vmbr0")),
    )])]);
    let sensors = read_report(
        "node",
        "12:00:00",
        &status,
        &Json::List(Vec::new()),
        &storages,
        &network,
        None,
    )
    .ok()
    .unwrap();
    assert_eq!(value(&sensors, "pve_cpu_display"), "CPU  50.0%");
    assert_eq!(value(&sensors, "pve_memory_percent"), "50.0");
    assert_eq!(value(&sensors, "pve_uptime_display"), "UP  00h 00m");
    assert_eq!(value(&sensors, "pve_storage_name"), "storage");
    assert_eq!(value(&sensors, "pve_version"), "unknown");
}

#[test]
fn reads_json_like_serde() {
    let json = parse_json("{\"a\":[1,-2,2.5,18446744073709551615,\"é\\u0041\",true,null],\"b\":{}}")
        .ok()
        .unwrap();
    let items = json.field("a").as_list().unwrap();
    assert_eq!(items[0].as_unsigned(), Some(1));
    assert_eq!(items[0].as_double(), Some(1f64.to_bits()));
    assert_eq!(items[1].as_unsigned(), None);
    assert_eq!(items[1].as_double(), Some((-2f64).to_bits()));
    assert_eq!(items[2].as_unsigned(), None);
    assert_eq!(items[2].as_double(), Some(2.5f64.to_bits()));
    assert_eq!(items[3].as_unsigned(), Some(u64::MAX));
    assert_eq!(items[4].as_text(), Some("éA"));
    assert_eq!(items[5].as_text(), None);
    assert!(matches!(items[5], Json::Bool(true)));
    assert!(matches!(items[6], Json::Null));
    assert!(matches!(json.field("b"), Json::Object(_)));
    assert!(matches!(json.field("c"), Json::Null));
    assert!(matches!(items[0].field("a"), Json::Null));
    assert_eq!(
        parse_json("{\"a\":1,\"a\":2}").ok().unwrap().field("a").as_unsigned(),
        Some(2)
    );
    assert_eq!(
        parse_json("[1,").err(),
        Some("EOF while parsing a value at line 1 column 3".to_string())
    );
    assert!(parse_json("").is_err());
}

#[test]
fn writes_uptime() {
    assert_eq!(format_uptime(0), "00h 00m");
    assert_eq!(format_uptime(59), "00h 00m");
    assert_eq!(format_uptime(86_399), "23h 59m");
    assert_eq!(format_uptime(86_400), "1d 00h");
    assert_eq!(format_uptime(90_061), "1d 01h");
    assert_eq!(format_uptime(100 * 86_400 + 82_800), "100d 23h");
}

#[test]
fn one_dot_is_shown() {
    assert_eq!((online_dot(true), offline_dot(true)), ("●", " "));
    assert_eq!((online_dot(false), offline_dot(false)), (" ", "○"));
}

#[test]
fn checks_the_arguments() {
    assert_eq!(check_arguments("root@pve", true, false), Ok(()));
    assert_eq!(check_arguments("root@pve", false, true), Ok(()));
    assert_eq!(check_arguments("a-b", false, true), Ok(()));
    for host in ["", " \t", "-oProxyCommand=x", "\u{3000}"] {
        assert_eq!(check_arguments(host, true, true), Err(ArgumentError::Host));
    }
    assert_eq!(
        check_arguments("root@pve", false, false),
        Err(ArgumentError::NoOutput)
    );
    assert_eq!(check_arguments("-", false, false), Err(ArgumentError::Host));
    assert_eq!(
        ArgumentError::Host.message(),
        "--host must be a non-empty SSH destination and cannot start with '-'"
    );
    assert_eq!(
        ArgumentError::NoOutput.message(),
        "specify --out, --console, or both"
    );
}

#[test]
fn builds_the_ssh_command_line() {
    let text = |part: &str| SshArgument::Text(part.to_string());
    assert_eq!(
        ssh_arguments(5, true, "root@pve"),
        vec![
            text("-o"),
            text("BatchMode=yes"),
            text("-o"),
            text("ConnectTimeout=5"),
            text("-i"),
            SshArgument::Identity,
            text("--"),
            text("root@pve"),
            text(REMOTE_COMMAND),
        ]
    );
    assert_eq!(ssh_arguments(65535, false, "h").len(), 7);
    assert_eq!(ssh_arguments(65535, false, "h")[3], text("ConnectTimeout=65535"));
}

#[test]
fn remote_command_prints_every_marker() {
    assert!(REMOTE_COMMAND.starts_with("set -eu\nnode=$(hostname)\n"));
    assert!(REMOTE_COMMAND.ends_with("cat \"$task_dir/network\"\nprintf '\\n'\n"));
    for marker in ["NODE", "TIME", "STATUS", "GUESTS", "STORAGE", "NETWORK"] {
        assert!(REMOTE_COMMAND.contains(&format!("__ASTER_{marker}__")));
    }
}

#[test]
fn reports_a_failed_command() {
    assert_eq!(
        failure_text("exit status: 255", " Permission denied \n"),
        "PVE status command failed (exit status: 255): Permission denied"
    );
}

#[test]
fn writes_the_sensor_file_in_order() {
    let mut sensors = Sensors::new();
    for (key, text) in [("b", "2"), ("a#unit", "%"), ("a", "1"), ("b", "3"), ("ä", "x")] {
        sensors.insert(key.to_string(), Caption::of_text(text.to_string()));
    }
    assert_eq!(
        render(&sensor_file(&sensors)),
        "a: 1\na#unit: %\nb: 3\nä: x\n"
    );
    assert_eq!(
        render(&console_text(&sensors)),
        "a: 1\na#unit: %\nb: 3\nä: x\n\n"
    );
    assert_eq!(render(&sensor_file(&Sensors::new())), "");
}

#[test]
fn decides_when_to_collect_again() {
    let millis = Duration::from_millis;
    assert_eq!(
        next_collection(millis(0), millis(10)),
        NextCollection::Never
    );
    assert_eq!(
        next_collection(millis(1000), millis(300)),
        NextCollection::After(millis(700))
    );
    assert_eq!(
        next_collection(millis(1000), millis(1000)),
        NextCollection::After(millis(0))
    );
    assert_eq!(
        next_collection(millis(1000), millis(1001)),
        NextCollection::AtOnce
    );
}

#[test]
fn rows_keep_their_columns() {
    let guests = "[{\"vmid\":1},{\"vmid\":22,\"name\":\"\"},{\"vmid\":999,\"name\":\"123456789012345678\"},{\"vmid\":100,\"name\":\"a very long name for a guest\"}]";
    let values = parse_snapshot(&report(STATUS, guests, STORAGE, NETWORK), None)
        .ok()
        .unwrap();
    for row in 0..4 {
        let display = value(&values, &format!("pve_guest_{row}_display"));
        let column = display.chars().take_while(|c| *c != 'C').count();
        assert_eq!(column, 28, "{display}");
    }
}

#[test]
fn counts_guests_by_kind() {
    let guests = "[{\"type\":\"lxc\",\"status\":\"running\"},{\"type\":\"lxc\",\"status\":\"stopped\"},{\"type\":\"qemu\",\"status\":\"running\"},{\"type\":\"other\",\"status\":\"running\"},{\"status\":\"paused\"}]";
    let values = parse_snapshot(&report(STATUS, guests, STORAGE, NETWORK), None)
        .ok()
        .unwrap();
    assert_eq!(value(&values, "pve_guests_display"), "GUESTS  3/5");
    assert_eq!(value(&values, "pve_guest_summary"), "1/2 LXC  ·  1/1 VM");
}

#[test]
fn listing_order_of_guests_does_not_matter() {
    let guests = [
        "{\"vmid\":7,\"name\":\"a\",\"type\":\"lxc\",\"status\":\"running\"}",
        "{\"vmid\":3,\"name\":\"b\",\"type\":\"qemu\"}",
        "{\"vmid\":500,\"name\":\"c\",\"type\":\"lxc\"}",
        "{\"vmid\":4,\"name\":\"d\",\"status\":\"running\"}",
    ];
    let sensors = |order: [usize; 4]| {
        let listed: Vec<&str> = order.iter().map(|place| guests[*place]).collect();
        let raw = report(STATUS, &format!("[{}]", listed.join(",")), STORAGE, NETWORK);
        parse_snapshot(&raw, None).ok().unwrap()
    };
    let expected = sensors([0, 1, 2, 3]);
    for order in [[3, 2, 1, 0], [1, 0, 3, 2], [2, 3, 0, 1]] {
        assert_eq!(sensors(order).entries(), expected.entries());
    }
}
