//! The report of the host as a whole.
//!
//! The report has a line for each section. Each starts with the marker of its section; lines that
//! start with none are passed over.

use crate::caption::{lone_figure, plain, Caption, Figure};
use crate::json::{json_outcome, parse_json, trees, Json, JsonTree};
use crate::pve::error::{Section, SnapshotError, SnapshotFault};
use crate::pve::fields::{
    add_usage, format_uptime, integer, integer_outcome, number, number_outcome, put_number,
    put_text, read_text, text_or, uptime_text, usage_outcome, SensorMap,
};
use crate::pve::guests::{add_guest_counts, count_sensors, guest_outcome, row_sensors};
use crate::pve::network::{add_network, network_outcome};
use crate::pve::storage::{add_storage, optional_text, storage_outcome};
use crate::sensors::Sensors;
use crate::text::{
    chars_of, decimal_text, find_char, find_line_after_prefix, first_after_prefix, has_prefix,
    join2, join4, lemma_first_after_prefix, lemma_lines_of_both, lines_of, position_from,
    starts_with, trim, trimmed,
};
use vstd::prelude::*;

verus! {

pub const NODE_MARKER: &'static str = "__ASTER_NODE__";

pub const TIME_MARKER: &'static str = "__ASTER_TIME__";

pub const STATUS_MARKER: &'static str = "__ASTER_STATUS__";

pub const GUESTS_MARKER: &'static str = "__ASTER_GUESTS__";

pub const STORAGE_MARKER: &'static str = "__ASTER_STORAGE__";

pub const NETWORK_MARKER: &'static str = "__ASTER_NETWORK__";

// ---------------------------------------------------------------------------------------------
// Sections
// ---------------------------------------------------------------------------------------------
/// What stands behind a marker.
pub open spec fn marker_outcome(raw: Seq<char>, marker: Seq<char>) -> Result<
    Seq<char>,
    SnapshotFault,
> {
    match first_after_prefix(lines_of(raw), marker) {
        Some(rest) => Ok(rest),
        None => Err(SnapshotFault::MissingMarker(marker)),
    }
}

/// Finds what stands behind a marker, in the first line that starts with it.
pub fn marker_value<'a>(raw: &'a str, marker: &str) -> (outcome: Result<&'a str, SnapshotError>)
    ensures
        match outcome {
            Ok(rest) => marker_outcome(raw@, marker@) == Ok::<Seq<char>, SnapshotFault>(rest@),
            Err(error) => marker_outcome(raw@, marker@) == Err::<Seq<char>, SnapshotFault>(error@),
        },
{
    match find_line_after_prefix(raw, marker) {
        Some(rest) => Ok(rest),
        None => Err(SnapshotError::MissingMarker(marker.to_owned())),
    }
}

/// The JSON value that stands behind the marker of a section.
pub open spec fn section_outcome(raw: Seq<char>, marker: Seq<char>, section: Section) -> Result<
    JsonTree,
    SnapshotFault,
> {
    match marker_outcome(raw, marker) {
        Err(fault) => Err(fault),
        Ok(rest) => match json_outcome(rest) {
            Ok(tree) => Ok(tree),
            Err(cause) => Err(SnapshotFault::InvalidJson { section, cause }),
        },
    }
}

/// Reads the JSON value that stands behind the marker of a section.
pub fn read_section(raw: &str, marker: &str, section: Section) -> (outcome: Result<
    Json,
    SnapshotError,
>)
    ensures
        match outcome {
            Ok(json) => section_outcome(raw@, marker@, section) == Ok::<JsonTree, SnapshotFault>(
                json@,
            ),
            Err(error) => section_outcome(raw@, marker@, section) == Err::<JsonTree, SnapshotFault>(
                error@,
            ),
        },
{
    let rest: &str = match marker_value(raw, marker) {
        Ok(rest) => rest,
        Err(error) => return Err(error),
    };
    match parse_json(rest) {
        Ok(json) => Ok(json),
        Err(cause) => Err(SnapshotError::InvalidJson { section, cause }),
    }
}

// ---------------------------------------------------------------------------------------------
// Node
// ---------------------------------------------------------------------------------------------
/// The text without a prefix where it has it.
pub open spec fn without_prefix(text: Seq<char>, prefix: Seq<char>) -> Seq<char> {
    if starts_with(text, prefix) {
        text.skip(prefix.len() as int)
    } else {
        text
    }
}

/// What stands in a text before the first stroke.
pub open spec fn before_stroke(text: Seq<char>) -> Seq<char> {
    text.take(position_from(text, '/', 0))
}

/// The version number in what the host gives as its version.
pub open spec fn version_text(status: JsonTree) -> Seq<char> {
    before_stroke(
        without_prefix(text_or(status.field("pveversion"@), "unknown"@), "pve-manager/"@),
    )
}

/// The release of the kernel.
pub open spec fn kernel_text(status: JsonTree) -> Seq<char> {
    text_or(status.field("current-kernel"@).field("release"@), "unknown"@)
}

/// The load average over one minute.
pub open spec fn load_text(status: JsonTree) -> Seq<char> {
    match status.field("loadavg"@).as_list() {
        Some(values) => if values.len() > 0 {
            text_or(values[0], "?"@)
        } else {
            "?"@
        },
        None => "?"@,
    }
}

/// The sensors that tell the node, its time and its versions.
pub open spec fn identity_sensors(
    sensors: SensorMap,
    node: Seq<char>,
    host_time: Seq<char>,
    status: JsonTree,
) -> SensorMap {
    let version = version_text(status);
    let kernel = kernel_text(status);
    sensors.insert("pve_node"@, plain(node)).insert(
        "pve_node_display"@,
        plain("PVE · "@ + node),
    ).insert("pve_time_display"@, plain(host_time)).insert("pve_version"@, plain(version)).insert(
        "pve_version_short_display"@,
        plain("PVE "@ + version),
    ).insert("pve_kernel"@, plain(kernel)).insert(
        "pve_version_display"@,
        plain("PVE "@ + version + "  ·  Linux "@ + kernel),
    )
}

/// The sensors with the processor share.
pub open spec fn cpu_outcome(sensors: SensorMap, status: JsonTree) -> Result<
    SensorMap,
    SnapshotFault,
> {
    match number_outcome(status.field("cpu"@), "status.cpu"@) {
        Err(fault) => Err(fault),
        Ok(double_bits) => Ok(
            sensors.insert(
                "pve_cpu_percent"@,
                lone_figure(Figure::Share { double_bits }, 1, 0),
            ).insert("pve_cpu_percent#unit"@, plain("%"@)).insert(
                "pve_cpu_display"@,
                plain("CPU  "@) + lone_figure(Figure::Share { double_bits }, 1, 0) + plain("%"@),
            ),
        ),
    }
}

/// The sensors with the load.
pub open spec fn load_sensors(sensors: SensorMap, status: JsonTree) -> SensorMap {
    sensors.insert("pve_load_one"@, plain(load_text(status))).insert(
        "pve_load_display"@,
        plain("LOAD  "@ + load_text(status)),
    )
}

/// The sensors with the load and how long the node has been up.
pub open spec fn uptime_outcome(sensors: SensorMap, status: JsonTree) -> Result<
    SensorMap,
    SnapshotFault,
> {
    match integer_outcome(status.field("uptime"@), "status.uptime"@) {
        Err(fault) => Err(fault),
        Ok(uptime) => Ok(
            load_sensors(sensors, status).insert(
                "pve_uptime_seconds"@,
                plain(decimal_text(uptime as nat)),
            ).insert("pve_uptime_display"@, plain("UP  "@ + uptime_text(uptime))),
        ),
    }
}

/// The sensors with the processor, the memory, the root file system, the load and the uptime.
pub open spec fn node_outcome(sensors: SensorMap, status: JsonTree) -> Result<
    SensorMap,
    SnapshotFault,
> {
    match cpu_outcome(sensors, status) {
        Err(fault) => Err(fault),
        Ok(sensors) => match usage_outcome(
            sensors,
            "memory"@,
            "RAM"@,
            status.field("memory"@),
        ) {
            Err(fault) => Err(fault),
            Ok(sensors) => match usage_outcome(
                sensors,
                "rootfs"@,
                "ROOT"@,
                status.field("rootfs"@),
            ) {
                Err(fault) => Err(fault),
                Ok(sensors) => uptime_outcome(sensors, status),
            },
        },
    }
}

fn read_version(status: &Json) -> (text: &str)
    ensures
        text@ == version_text(status@),
{
    let raw: &str = read_text(status.field("pveversion"), "unknown");
    let prefix: &str = "pve-manager/";
    let number: &str = if has_prefix(raw, prefix) {
        raw.substring_char(prefix.unicode_len(), raw.unicode_len())
    } else {
        raw
    };
    assert(number@ =~= without_prefix(raw@, prefix@));
    let chars: Vec<char> = chars_of(number);
    let end: usize = find_char(&chars, '/', 0);
    let text: &str = number.substring_char(0, end);
    assert(text@ =~= before_stroke(number@));
    text
}

fn add_identity(sensors: &mut Sensors, node: &str, host_time: &str, status: &Json)
    ensures
        final(sensors)@ == identity_sensors(old(sensors)@, node@, host_time@, status@),
{
    let version: &str = read_version(status);
    let kernel: &str = read_text(status.field("current-kernel").field("release"), "unknown");
    put_text(sensors, "pve_node", node.to_owned());
    put_text(sensors, "pve_node_display", join2("PVE · ", node));
    put_text(sensors, "pve_time_display", host_time.to_owned());
    put_text(sensors, "pve_version", version.to_owned());
    put_text(sensors, "pve_version_short_display", join2("PVE ", version));
    put_text(sensors, "pve_kernel", kernel.to_owned());
    put_text(sensors, "pve_version_display", join4("PVE ", version, "  ·  Linux ", kernel));
}

fn read_load(status: &Json) -> (text: &str)
    ensures
        text@ == load_text(status@),
{
    match status.field("loadavg").as_list() {
        Some(values) => {
            assert(trees(values@).len() == values@.len());
            if values.len() > 0 {
                assert(trees(values@)[0] == values@[0]@);
                read_text(&values[0], "?")
            } else {
                "?"
            }
        },
        None => "?",
    }
}

/// Adds what the status section tells of the node.
pub fn add_node(sensors: &mut Sensors, status: &Json) -> (outcome: Result<(), SnapshotError>)
    ensures
        match outcome {
            Ok(()) => node_outcome(old(sensors)@, status@) == Ok::<SensorMap, SnapshotFault>(
                final(sensors)@,
            ),
            Err(error) => node_outcome(old(sensors)@, status@) == Err::<SensorMap, SnapshotFault>(
                error@,
            ),
        },
{
    let double_bits: u64 = match number(status.field("cpu"), "status.cpu") {
        Ok(double_bits) => double_bits,
        Err(error) => return Err(error),
    };
    let share = Caption::empty().with_figure(Figure::Share { double_bits }, 1, 0);
    assert(share@ =~= lone_figure(Figure::Share { double_bits }, 1, 0));
    let display = Caption::of_text("CPU  ".to_owned()).with_caption(&share).with_text("%");
    sensors.insert("pve_cpu_percent".to_owned(), share);
    put_text(sensors, "pve_cpu_percent#unit", "%".to_owned());
    sensors.insert("pve_cpu_display".to_owned(), display);

    match add_usage(sensors, "memory", "RAM", status.field("memory")) {
        Ok(()) => (),
        Err(error) => return Err(error),
    }
    match add_usage(sensors, "rootfs", "ROOT", status.field("rootfs")) {
        Ok(()) => (),
        Err(error) => return Err(error),
    }

    let load: &str = read_load(status);
    put_text(sensors, "pve_load_one", load.to_owned());
    put_text(sensors, "pve_load_display", join2("LOAD  ", load));

    let uptime: u64 = match integer(status.field("uptime"), "status.uptime") {
        Ok(uptime) => uptime,
        Err(error) => return Err(error),
    };
    put_number(sensors, "pve_uptime_seconds", uptime);
    put_text(
        sensors,
        "pve_uptime_display",
        join2("UP  ", format_uptime(uptime).as_str()),
    );
    Ok(())
}

// ---------------------------------------------------------------------------------------------
// Report
// ---------------------------------------------------------------------------------------------
/// The sensors that the sections of a report give, or the first thing that is wrong with them.
pub open spec fn report_outcome(
    node: Seq<char>,
    host_time: Seq<char>,
    status: JsonTree,
    guests: JsonTree,
    storages: JsonTree,
    network: JsonTree,
    preferred: Option<Seq<char>>,
) -> Result<SensorMap, SnapshotFault> {
    match node_outcome(identity_sensors(Map::empty(), node, host_time, status), status) {
        Err(fault) => Err(fault),
        Ok(sensors) => match guest_outcome(sensors, guests) {
            Err(fault) => Err(fault),
            Ok(sensors) => match storage_outcome(sensors, storages, preferred) {
                Err(fault) => Err(fault),
                Ok(sensors) => network_outcome(sensors, network),
            },
        },
    }
}

/// The sensors that a report gives, or the first thing that is wrong with it.
pub open spec fn snapshot_outcome(raw: Seq<char>, preferred: Option<Seq<char>>) -> Result<
    SensorMap,
    SnapshotFault,
> {
    match marker_outcome(raw, NODE_MARKER@) {
        Err(fault) => Err(fault),
        Ok(node) => match marker_outcome(raw, TIME_MARKER@) {
            Err(fault) => Err(fault),
            Ok(host_time) => match section_outcome(raw, STATUS_MARKER@, Section::Status) {
                Err(fault) => Err(fault),
                Ok(status) => match section_outcome(raw, GUESTS_MARKER@, Section::Guests) {
                    Err(fault) => Err(fault),
                    Ok(guests) => match section_outcome(raw, STORAGE_MARKER@, Section::Storage) {
                        Err(fault) => Err(fault),
                        Ok(storages) => match section_outcome(
                            raw,
                            NETWORK_MARKER@,
                            Section::Network,
                        ) {
                            Err(fault) => Err(fault),
                            Ok(network) => report_outcome(
                                trimmed(node),
                                trimmed(host_time),
                                status,
                                guests,
                                storages,
                                network,
                                preferred,
                            ),
                        },
                    },
                },
            },
        },
    }
}

/// Works out the sensors from the sections of a report.
pub fn read_report(
    node: &str,
    host_time: &str,
    status: &Json,
    guests: &Json,
    storages: &Json,
    network: &Json,
    preferred: Option<&str>,
) -> (outcome: Result<Sensors, SnapshotError>)
    ensures
        match outcome {
            Ok(sensors) => report_outcome(
                node@,
                host_time@,
                status@,
                guests@,
                storages@,
                network@,
                optional_text(preferred),
            ) == Ok::<SensorMap, SnapshotFault>(sensors@),
            Err(error) => report_outcome(
                node@,
                host_time@,
                status@,
                guests@,
                storages@,
                network@,
                optional_text(preferred),
            ) == Err::<SensorMap, SnapshotFault>(error@),
        },
{
    let mut sensors: Sensors = Sensors::new();
    add_identity(&mut sensors, node, host_time, status);
    match add_node(&mut sensors, status) {
        Ok(()) => (),
        Err(error) => return Err(error),
    }
    match add_guest_counts(&mut sensors, guests) {
        Ok(()) => (),
        Err(error) => return Err(error),
    }
    match add_storage(&mut sensors, storages, preferred) {
        Ok(()) => (),
        Err(error) => return Err(error),
    }
    match add_network(&mut sensors, network) {
        Ok(()) => Ok(sensors),
        Err(error) => Err(error),
    }
}

/// Works out the sensors from a report; `preferred` names the storage to be shown.
pub fn parse_snapshot(raw: &str, preferred: Option<&str>) -> (outcome: Result<
    Sensors,
    SnapshotError,
>)
    ensures
        match outcome {
            Ok(sensors) => snapshot_outcome(raw@, optional_text(preferred)) == Ok::<
                SensorMap,
                SnapshotFault,
            >(sensors@),
            Err(error) => snapshot_outcome(raw@, optional_text(preferred)) == Err::<
                SensorMap,
                SnapshotFault,
            >(error@),
        },
{
    let node: &str = match marker_value(raw, NODE_MARKER) {
        Ok(rest) => trim(rest),
        Err(error) => return Err(error),
    };
    let host_time: &str = match marker_value(raw, TIME_MARKER) {
        Ok(rest) => trim(rest),
        Err(error) => return Err(error),
    };
    let status: Json = match read_section(raw, STATUS_MARKER, Section::Status) {
        Ok(json) => json,
        Err(error) => return Err(error),
    };
    let guests: Json = match read_section(raw, GUESTS_MARKER, Section::Guests) {
        Ok(json) => json,
        Err(error) => return Err(error),
    };
    let storages: Json = match read_section(raw, STORAGE_MARKER, Section::Storage) {
        Ok(json) => json,
        Err(error) => return Err(error),
    };
    let network: Json = match read_section(raw, NETWORK_MARKER, Section::Network) {
        Ok(json) => json,
        Err(error) => return Err(error),
    };
    read_report(node, host_time, &status, &guests, &storages, &network, preferred)
}

// ---------------------------------------------------------------------------------------------
// Laws
// ---------------------------------------------------------------------------------------------
/// A report gives sensors only where it has all six markers and JSON behind the last four.
pub proof fn law_every_section_is_needed(raw: Seq<char>, preferred: Option<Seq<char>>)
    requires
        snapshot_outcome(raw, preferred) is Ok,
    ensures
        marker_outcome(raw, NODE_MARKER@) is Ok,
        marker_outcome(raw, TIME_MARKER@) is Ok,
        section_outcome(raw, STATUS_MARKER@, Section::Status) is Ok,
        section_outcome(raw, GUESTS_MARKER@, Section::Guests) is Ok,
        section_outcome(raw, STORAGE_MARKER@, Section::Storage) is Ok,
        section_outcome(raw, NETWORK_MARKER@, Section::Network) is Ok,
{
}

/// Whether a line starts with none of the markers.
pub open spec fn is_unmarked(line: Seq<char>) -> bool {
    &&& !starts_with(line, NODE_MARKER@)
    &&& !starts_with(line, TIME_MARKER@)
    &&& !starts_with(line, STATUS_MARKER@)
    &&& !starts_with(line, GUESTS_MARKER@)
    &&& !starts_with(line, STORAGE_MARKER@)
    &&& !starts_with(line, NETWORK_MARKER@)
}

/// Whole lines in front of a report, such as a banner, change nothing as long as none of them
/// starts with a marker.
pub proof fn law_banner_is_passed_over(
    banner: Seq<char>,
    raw: Seq<char>,
    preferred: Option<Seq<char>>,
)
    requires
        banner.len() > 0,
        banner.last() == '\n',
        forall|i: int|
            0 <= i < lines_of(banner).len() ==> is_unmarked(#[trigger] lines_of(banner)[i]),
    ensures
        snapshot_outcome(banner + raw, preferred) == snapshot_outcome(raw, preferred),
{
    lemma_lines_of_both(banner, raw);
    let front = lines_of(banner);
    let back = lines_of(raw);
    lemma_first_after_prefix(front, back, NODE_MARKER@);
    lemma_first_after_prefix(front, back, TIME_MARKER@);
    lemma_first_after_prefix(front, back, STATUS_MARKER@);
    lemma_first_after_prefix(front, back, GUESTS_MARKER@);
    lemma_first_after_prefix(front, back, STORAGE_MARKER@);
    lemma_first_after_prefix(front, back, NETWORK_MARKER@);
}

proof fn lemma_rows_have_fixed_keys(
    a: SensorMap,
    b: SensorMap,
    guests_a: Seq<JsonTree>,
    guests_b: Seq<JsonTree>,
    rows: nat,
)
    requires
        a.dom() == b.dom(),
    ensures
        row_sensors(a, guests_a, rows).dom() == row_sensors(b, guests_b, rows).dom(),
    decreases rows,
{
    if rows > 0 {
        let index = (rows - 1) as nat;
        lemma_rows_have_fixed_keys(a, b, guests_a, guests_b, index);
        let left = row_sensors(a, guests_a, rows);
        let right = row_sensors(b, guests_b, rows);
        assert(left.dom() =~= right.dom());
    }
}

/// Every report that gives sensors gives the same keys, whatever the host runs.
pub proof fn law_keys_are_fixed(
    raw_a: Seq<char>,
    preferred_a: Option<Seq<char>>,
    raw_b: Seq<char>,
    preferred_b: Option<Seq<char>>,
)
    requires
        snapshot_outcome(raw_a, preferred_a) is Ok,
        snapshot_outcome(raw_b, preferred_b) is Ok,
    ensures
        snapshot_outcome(raw_a, preferred_a)->Ok_0.dom() == snapshot_outcome(
            raw_b,
            preferred_b,
        )->Ok_0.dom(),
{
    let status_a = section_outcome(raw_a, STATUS_MARKER@, Section::Status)->Ok_0;
    let status_b = section_outcome(raw_b, STATUS_MARKER@, Section::Status)->Ok_0;
    let identity_a = identity_sensors(
        Map::empty(),
        trimmed(marker_outcome(raw_a, NODE_MARKER@)->Ok_0),
        trimmed(marker_outcome(raw_a, TIME_MARKER@)->Ok_0),
        status_a,
    );
    let identity_b = identity_sensors(
        Map::empty(),
        trimmed(marker_outcome(raw_b, NODE_MARKER@)->Ok_0),
        trimmed(marker_outcome(raw_b, TIME_MARKER@)->Ok_0),
        status_b,
    );
    let node_a = node_outcome(identity_a, status_a)->Ok_0;
    let node_b = node_outcome(identity_b, status_b)->Ok_0;
    assert(identity_a.dom() =~= identity_b.dom());
    assert(node_a.dom() =~= node_b.dom());
    let guests_a = section_outcome(raw_a, GUESTS_MARKER@, Section::Guests)->Ok_0;
    let guests_b = section_outcome(raw_b, GUESTS_MARKER@, Section::Guests)->Ok_0;
    let items_a = guests_a.as_list()->0;
    let items_b = guests_b.as_list()->0;
    let counts_a = count_sensors(node_a, items_a);
    let counts_b = count_sensors(node_b, items_b);
    assert(counts_a.dom() =~= counts_b.dom());
    lemma_rows_have_fixed_keys(counts_a, counts_b, items_a, items_b, 5);
    let rows_a = guest_outcome(node_a, guests_a)->Ok_0;
    let rows_b = guest_outcome(node_b, guests_b)->Ok_0;
    let storage_a = storage_outcome(
        rows_a,
        section_outcome(raw_a, STORAGE_MARKER@, Section::Storage)->Ok_0,
        preferred_a,
    )->Ok_0;
    let storage_b = storage_outcome(
        rows_b,
        section_outcome(raw_b, STORAGE_MARKER@, Section::Storage)->Ok_0,
        preferred_b,
    )->Ok_0;
    assert(storage_a.dom() =~= storage_b.dom());
    assert(snapshot_outcome(raw_a, preferred_a)->Ok_0.dom() =~= snapshot_outcome(
        raw_b,
        preferred_b,
    )->Ok_0.dom());
}

} // verus!
