//! Laws of the report as a whole: what each sensor shows, and what stands in the way of that.

use crate::caption::{plain, Figure, PieceView};
use crate::json::{json_outcome, JsonTree};
use crate::pve::error::{Section, SnapshotFault};
use crate::pve::fields::{percent_caption, uptime_text, usage_caption, SensorMap};
use crate::pve::guests::{count_sensors, guest_outcome, row_key, row_sensors};
use crate::pve::network::{
    lemma_network_keys, network_line, network_outcome, primary_interface,
};
use crate::pve::snapshot::{
    before_stroke, identity_sensors, load_text, node_outcome, report_outcome,
    snapshot_outcome, version_text,
};
use crate::pve::storage::storage_outcome;
use crate::text::{
    decimal_text, first_after_prefix, lemma_position, lines_of, starts_with, trimmed,
};
use vstd::prelude::*;

verus! {

// ---------------------------------------------------------------------------------------------
// Node
// ---------------------------------------------------------------------------------------------
/// The version is what stands behind the name of the package and before the next stroke. Where
/// there is no such name it stands at the front, and where there is no stroke it is all there is.
pub proof fn law_version_stands_between_strokes(
    status: JsonTree,
    version: Seq<char>,
    rest: Seq<char>,
)
    requires
        !version.contains('/'),
    ensures
        status.field("pveversion"@) == JsonTree::Text("pve-manager/"@ + version + "/"@ + rest)
            ==> version_text(status) == version,
        status.field("pveversion"@) == JsonTree::Text("pve-manager/"@ + version) ==> version_text(
            status,
        ) == version,
        version != "pve-manager"@ && status.field("pveversion"@) == JsonTree::Text(
            version + "/"@ + rest,
        ) ==> version_text(status) == version,
        status.field("pveversion"@) == JsonTree::Text(version) ==> version_text(status) == version,
        status.field("pveversion"@) !is Text ==> version_text(status) == "unknown"@,
{
    reveal_strlit("pve-manager/");
    reveal_strlit("pve-manager");
    reveal_strlit("/");
    reveal_strlit("unknown");
    let prefix = "pve-manager/"@;
    assert(prefix.len() == 12 && prefix[11] == '/');
    assert("/"@.len() == 1 && "/"@[0] == '/');
    assert(forall|i: int| 0 <= i < version.len() ==> version.contains(#[trigger] version[i]));
    let given = status.field("pveversion"@);
    if let JsonTree::Text(text) = given {
        if text == prefix + version + "/"@ + rest {
            assert(text.take(12) =~= prefix);
            assert(text.skip(12) =~= version + "/"@ + rest);
            lemma_before_stroke(version + "/"@ + rest, version.len() as int);
            assert((version + "/"@ + rest).take(version.len() as int) =~= version);
        }
        if text == prefix + version {
            assert(text.take(12) =~= prefix);
            assert(text.skip(12) =~= version);
            lemma_before_stroke(version, version.len() as int);
            assert(version.take(version.len() as int) =~= version);
        }
        if text == version + "/"@ + rest && version != "pve-manager"@ {
            if starts_with(text, prefix) {
                assert(text[11] == text.take(12)[11]);
                if version.len() > 11 {
                    assert(text[11] == version[11]);
                } else if version.len() < 11 {
                    assert(text[version.len() as int] == '/');
                    assert(text[version.len() as int] == text.take(12)[version.len() as int]);
                    assert("pve-manager/"@[0] != '/' && "pve-manager/"@[1] != '/'
                        && "pve-manager/"@[2] != '/' && "pve-manager/"@[3] != '/'
                        && "pve-manager/"@[4] != '/' && "pve-manager/"@[5] != '/'
                        && "pve-manager/"@[6] != '/' && "pve-manager/"@[7] != '/'
                        && "pve-manager/"@[8] != '/' && "pve-manager/"@[9] != '/'
                        && "pve-manager/"@[10] != '/');
                } else {
                    assert("pve-manager"@ =~= prefix.take(11));
                    assert(version =~= text.take(12).take(11));
                }
            }
            lemma_before_stroke(text, version.len() as int);
            assert(text.take(version.len() as int) =~= version);
        }
        if text == version {
            if starts_with(text, prefix) {
                assert(version[11] == text.take(12)[11]);
            }
            lemma_before_stroke(text, version.len() as int);
            assert(version.take(version.len() as int) =~= version);
        }
    } else {
        let text = "unknown"@;
        assert(text.len() == 7);
        assert(text[0] != '/' && text[1] != '/' && text[2] != '/' && text[3] != '/' && text[4] != '/'
            && text[5] != '/' && text[6] != '/');
        lemma_before_stroke(text, 7);
        assert(text.take(7) =~= text);
    }
}

proof fn lemma_before_stroke(text: Seq<char>, position: int)
    requires
        0 <= position <= text.len(),
        forall|i: int| 0 <= i < position ==> #[trigger] text[i] != '/',
        position < text.len() ==> text[position] == '/',
    ensures
        before_stroke(text) == text.take(position),
{
    lemma_position(text, '/', 0);
}

proof fn lemma_usage_keys()
    ensures
        "pve_"@ + "memory"@ + "_used_bytes"@ == "pve_memory_used_bytes"@,
        "pve_"@ + "memory"@ + "_total_bytes"@ == "pve_memory_total_bytes"@,
        "pve_"@ + "memory"@ + "_percent"@ == "pve_memory_percent"@,
        "pve_"@ + "memory"@ + "_display"@ == "pve_memory_display"@,
        "pve_"@ + "rootfs"@ + "_used_bytes"@ == "pve_rootfs_used_bytes"@,
        "pve_"@ + "rootfs"@ + "_total_bytes"@ == "pve_rootfs_total_bytes"@,
        "pve_"@ + "rootfs"@ + "_percent"@ == "pve_rootfs_percent"@,
        "pve_"@ + "rootfs"@ + "_display"@ == "pve_rootfs_display"@,
        "status."@ + "memory"@ + ".used"@ == "status.memory.used"@,
        "status."@ + "memory"@ + ".total"@ == "status.memory.total"@,
        "status."@ + "rootfs"@ + ".used"@ == "status.rootfs.used"@,
        "status."@ + "rootfs"@ + ".total"@ == "status.rootfs.total"@,
{
    reveal_strlit("pve_");
    reveal_strlit("memory");
    reveal_strlit("rootfs");
    reveal_strlit("_used_bytes");
    reveal_strlit("_total_bytes");
    reveal_strlit("_percent");
    reveal_strlit("_display");
    reveal_strlit("status.");
    reveal_strlit(".used");
    reveal_strlit(".total");
    reveal_strlit("pve_memory_used_bytes");
    reveal_strlit("pve_memory_total_bytes");
    reveal_strlit("pve_memory_percent");
    reveal_strlit("pve_memory_display");
    reveal_strlit("pve_rootfs_used_bytes");
    reveal_strlit("pve_rootfs_total_bytes");
    reveal_strlit("pve_rootfs_percent");
    reveal_strlit("pve_rootfs_display");
    reveal_strlit("status.memory.used");
    reveal_strlit("status.memory.total");
    reveal_strlit("status.rootfs.used");
    reveal_strlit("status.rootfs.total");
    assert("pve_"@ + "memory"@ + "_used_bytes"@ =~= "pve_memory_used_bytes"@);
    assert("pve_"@ + "memory"@ + "_total_bytes"@ =~= "pve_memory_total_bytes"@);
    assert("pve_"@ + "memory"@ + "_percent"@ =~= "pve_memory_percent"@);
    assert("pve_"@ + "memory"@ + "_display"@ =~= "pve_memory_display"@);
    assert("pve_"@ + "rootfs"@ + "_used_bytes"@ =~= "pve_rootfs_used_bytes"@);
    assert("pve_"@ + "rootfs"@ + "_total_bytes"@ =~= "pve_rootfs_total_bytes"@);
    assert("pve_"@ + "rootfs"@ + "_percent"@ =~= "pve_rootfs_percent"@);
    assert("pve_"@ + "rootfs"@ + "_display"@ =~= "pve_rootfs_display"@);
    assert("status."@ + "memory"@ + ".used"@ =~= "status.memory.used"@);
    assert("status."@ + "memory"@ + ".total"@ =~= "status.memory.total"@);
    assert("status."@ + "rootfs"@ + ".used"@ =~= "status.rootfs.used"@);
    assert("status."@ + "rootfs"@ + ".total"@ =~= "status.rootfs.total"@);
}

proof fn lemma_node_keys()
    ensures
        "pve_cpu_percent"@.len() == 15,
        "pve_cpu_percent#unit"@.len() == 20,
        "pve_cpu_display"@.len() == 15,
        "pve_memory_used_bytes"@.len() == 21,
        "pve_memory_total_bytes"@.len() == 22,
        "pve_memory_percent"@.len() == 18,
        "pve_memory_display"@.len() == 18,
        "pve_rootfs_used_bytes"@.len() == 21,
        "pve_rootfs_total_bytes"@.len() == 22,
        "pve_rootfs_percent"@.len() == 18,
        "pve_rootfs_display"@.len() == 18,
        "pve_load_one"@.len() == 12,
        "pve_load_display"@.len() == 16,
        "pve_uptime_seconds"@.len() == 18,
        "pve_uptime_display"@.len() == 18,
        "pve_cpu_percent"@ != "pve_cpu_display"@,
        "pve_memory_used_bytes"@ != "pve_rootfs_used_bytes"@,
        "pve_memory_total_bytes"@ != "pve_rootfs_total_bytes"@,
        "pve_memory_percent"@ != "pve_memory_display"@,
        "pve_memory_percent"@ != "pve_rootfs_percent"@,
        "pve_memory_percent"@ != "pve_rootfs_display"@,
        "pve_memory_percent"@ != "pve_uptime_seconds"@,
        "pve_memory_percent"@ != "pve_uptime_display"@,
        "pve_memory_display"@ != "pve_rootfs_percent"@,
        "pve_memory_display"@ != "pve_rootfs_display"@,
        "pve_memory_display"@ != "pve_uptime_seconds"@,
        "pve_memory_display"@ != "pve_uptime_display"@,
        "pve_rootfs_percent"@ != "pve_rootfs_display"@,
        "pve_rootfs_percent"@ != "pve_uptime_seconds"@,
        "pve_rootfs_percent"@ != "pve_uptime_display"@,
        "pve_rootfs_display"@ != "pve_uptime_seconds"@,
        "pve_rootfs_display"@ != "pve_uptime_display"@,
        "pve_uptime_seconds"@ != "pve_uptime_display"@,
{
    reveal_strlit("pve_cpu_percent");
    reveal_strlit("pve_cpu_percent#unit");
    reveal_strlit("pve_cpu_display");
    reveal_strlit("pve_memory_used_bytes");
    reveal_strlit("pve_memory_total_bytes");
    reveal_strlit("pve_memory_percent");
    reveal_strlit("pve_memory_display");
    reveal_strlit("pve_rootfs_used_bytes");
    reveal_strlit("pve_rootfs_total_bytes");
    reveal_strlit("pve_rootfs_percent");
    reveal_strlit("pve_rootfs_display");
    reveal_strlit("pve_load_one");
    reveal_strlit("pve_load_display");
    reveal_strlit("pve_uptime_seconds");
    reveal_strlit("pve_uptime_display");
    assert("pve_cpu_percent"@[8] != "pve_cpu_display"@[8]);
    assert("pve_memory_used_bytes"@[4] != "pve_rootfs_used_bytes"@[4]);
    assert("pve_memory_total_bytes"@[4] != "pve_rootfs_total_bytes"@[4]);
    assert("pve_memory_percent"@[11] != "pve_memory_display"@[11]);
    assert("pve_memory_percent"@[4] != "pve_rootfs_percent"@[4]);
    assert("pve_memory_percent"@[4] != "pve_rootfs_display"@[4]);
    assert("pve_memory_percent"@[4] != "pve_uptime_seconds"@[4]);
    assert("pve_memory_percent"@[4] != "pve_uptime_display"@[4]);
    assert("pve_memory_display"@[4] != "pve_rootfs_percent"@[4]);
    assert("pve_memory_display"@[4] != "pve_rootfs_display"@[4]);
    assert("pve_memory_display"@[4] != "pve_uptime_seconds"@[4]);
    assert("pve_memory_display"@[4] != "pve_uptime_display"@[4]);
    assert("pve_rootfs_percent"@[11] != "pve_rootfs_display"@[11]);
    assert("pve_rootfs_percent"@[4] != "pve_uptime_seconds"@[4]);
    assert("pve_rootfs_percent"@[4] != "pve_uptime_display"@[4]);
    assert("pve_rootfs_display"@[4] != "pve_uptime_seconds"@[4]);
    assert("pve_rootfs_display"@[4] != "pve_uptime_display"@[4]);
    assert("pve_uptime_seconds"@[11] != "pve_uptime_display"@[11]);
}

/// The processor, the memory, the root file system, the load and the uptime are shown from the
/// fields of the status. The first field that is missing, in this order, stands in the way.
pub proof fn law_node_is_shown(sensors: SensorMap, status: JsonTree)
    ensures
        ({
            let outcome = node_outcome(sensors, status);
            let memory = status.field("memory"@);
            let rootfs = status.field("rootfs"@);
            let load = match status.field("loadavg"@) {
                JsonTree::List(values) => if values.len() > 0 {
                    match values[0] {
                        JsonTree::Text(load) => load,
                        _ => "?"@,
                    }
                } else {
                    "?"@
                },
                _ => "?"@,
            };
            match (
                status.field("cpu"@).as_double(),
                memory.field("used"@).as_unsigned(),
                memory.field("total"@).as_unsigned(),
                rootfs.field("used"@).as_unsigned(),
                rootfs.field("total"@).as_unsigned(),
                status.field("uptime"@).as_unsigned(),
            ) {
                (None, _, _, _, _, _) => outcome == Err::<SensorMap, SnapshotFault>(
                    SnapshotFault::NotANumber("status.cpu"@),
                ),
                (_, None, _, _, _, _) => outcome == Err::<SensorMap, SnapshotFault>(
                    SnapshotFault::NotUnsigned("status.memory.used"@),
                ),
                (_, _, None, _, _, _) => outcome == Err::<SensorMap, SnapshotFault>(
                    SnapshotFault::NotUnsigned("status.memory.total"@),
                ),
                (_, _, _, None, _, _) => outcome == Err::<SensorMap, SnapshotFault>(
                    SnapshotFault::NotUnsigned("status.rootfs.used"@),
                ),
                (_, _, _, _, None, _) => outcome == Err::<SensorMap, SnapshotFault>(
                    SnapshotFault::NotUnsigned("status.rootfs.total"@),
                ),
                (_, _, _, _, _, None) => outcome == Err::<SensorMap, SnapshotFault>(
                    SnapshotFault::NotUnsigned("status.uptime"@),
                ),
                (
                    Some(double_bits),
                    Some(memory_used),
                    Some(memory_total),
                    Some(rootfs_used),
                    Some(rootfs_total),
                    Some(uptime),
                ) => {
                    let shown = outcome->Ok_0;
                    let share = PieceView::Figure {
                        figure: Figure::Share { double_bits },
                        decimals: 1,
                        width: 0,
                    };
                    &&& outcome is Ok
                    &&& shown["pve_cpu_percent"@] == seq![share]
                    &&& shown["pve_cpu_percent#unit"@] == seq![PieceView::Text("%"@)]
                    &&& shown["pve_cpu_display"@] == seq![
                        PieceView::Text("CPU  "@),
                        share,
                        PieceView::Text("%"@),
                    ]
                    &&& shown["pve_memory_used_bytes"@] == seq![
                        PieceView::Text(decimal_text(memory_used as nat)),
                    ]
                    &&& shown["pve_memory_total_bytes"@] == seq![
                        PieceView::Text(decimal_text(memory_total as nat)),
                    ]
                    &&& shown["pve_memory_percent"@] == percent_caption(memory_used, memory_total)
                    &&& shown["pve_memory_display"@] == usage_caption(
                        "RAM"@,
                        memory_used,
                        memory_total,
                    )
                    &&& shown["pve_rootfs_used_bytes"@] == seq![
                        PieceView::Text(decimal_text(rootfs_used as nat)),
                    ]
                    &&& shown["pve_rootfs_total_bytes"@] == seq![
                        PieceView::Text(decimal_text(rootfs_total as nat)),
                    ]
                    &&& shown["pve_rootfs_percent"@] == percent_caption(rootfs_used, rootfs_total)
                    &&& shown["pve_rootfs_display"@] == usage_caption(
                        "ROOT"@,
                        rootfs_used,
                        rootfs_total,
                    )
                    &&& shown["pve_load_one"@] == seq![PieceView::Text(load)]
                    &&& shown["pve_load_display"@] == seq![PieceView::Text("LOAD  "@ + load)]
                    &&& shown["pve_uptime_seconds"@] == seq![
                        PieceView::Text(decimal_text(uptime as nat)),
                    ]
                    &&& shown["pve_uptime_display"@] == seq![
                        PieceView::Text("UP  "@ + uptime_text(uptime)),
                    ]
                },
            }
        }),
{
    lemma_usage_keys();
    lemma_node_keys();
    let shown = node_outcome(sensors, status)->Ok_0;
    if node_outcome(sensors, status) is Ok {
        let memory = status.field("memory"@);
        let memory_used = memory.field("used"@).as_unsigned()->0;
        let memory_total = memory.field("total"@).as_unsigned()->0;
        assert(shown["pve_memory_percent"@] == percent_caption(memory_used, memory_total));
        assert(shown["pve_memory_used_bytes"@] == plain(decimal_text(memory_used as nat)));
        assert(shown["pve_memory_total_bytes"@] == plain(decimal_text(memory_total as nat)));
        assert(shown["pve_load_one"@] == plain(load_text(status)));
        assert(shown["pve_load_display"@] == plain("LOAD  "@ + load_text(status)));
    }
}

// ---------------------------------------------------------------------------------------------
// Sections side by side
// ---------------------------------------------------------------------------------------------
spec fn is_of_identity(key: Seq<char>) -> bool {
    key.len() > 6 && ((key[4] == 'n' && key[5] == 'o') || key[4] == 't' || key[4] == 'v' || key[4]
        == 'k')
}

spec fn is_of_node(key: Seq<char>) -> bool {
    key.len() > 6 && (key[4] == 'c' || key[4] == 'm' || key[4] == 'r' || key[4] == 'u' || (key[4]
        == 'l' && key[5] == 'o'))
}

spec fn is_of_guests(key: Seq<char>) -> bool {
    key.len() > 6 && (key[4] == 'g' || key[4] == 'q' || (key[4] == 'l' && key[5] == 'x'))
}

spec fn is_of_storage(key: Seq<char>) -> bool {
    key.len() > 6 && key[4] == 's' && key[6] == 'o'
}

spec fn is_of_network(key: Seq<char>) -> bool {
    key.len() <= 6 || (key[4] == 'n' && key[5] != 'o') || key[4] == 'i' || key[4] == 'w' || (key[4]
        == 's' && key[6] == 'a')
}

/// Whether two maps are the same but for keys that meet a condition.
spec fn same_beside(a: SensorMap, b: SensorMap, own: spec_fn(Seq<char>) -> bool) -> bool {
    forall|key: Seq<char>|
        !own(key) ==> (#[trigger] a.contains_key(key) <==> b.contains_key(key)) && (a.contains_key(
            key,
        ) ==> a[key] == b[key])
}

/// Whether one map is part of another and all its keys meet a condition.
spec fn is_part(a: SensorMap, b: SensorMap, own: spec_fn(Seq<char>) -> bool) -> bool {
    forall|key: Seq<char>| #[trigger]
        a.contains_key(key) ==> own(key) && b.contains_key(key) && a[key] == b[key]
}

proof fn lemma_identity_keys()
    ensures
        is_of_identity("pve_node"@),
        is_of_identity("pve_node_display"@),
        is_of_identity("pve_time_display"@),
        is_of_identity("pve_version"@),
        is_of_identity("pve_version_short_display"@),
        is_of_identity("pve_kernel"@),
        is_of_identity("pve_version_display"@),
        "pve_node"@.len() == 8,
        "pve_node_display"@.len() == 16,
        "pve_time_display"@.len() == 16,
        "pve_version"@.len() == 11,
        "pve_version_short_display"@.len() == 25,
        "pve_kernel"@.len() == 10,
        "pve_version_display"@.len() == 19,
        "pve_node_display"@ != "pve_time_display"@,
{
    reveal_strlit("pve_node");
    reveal_strlit("pve_node_display");
    reveal_strlit("pve_time_display");
    reveal_strlit("pve_version");
    reveal_strlit("pve_version_short_display");
    reveal_strlit("pve_kernel");
    reveal_strlit("pve_version_display");
    assert("pve_node"@.len() == 8);
    assert("pve_node"@[4] == 'n' && "pve_node"@[5] == 'o');
    assert("pve_node_display"@.len() == 16);
    assert("pve_node_display"@[4] == 'n' && "pve_node_display"@[5] == 'o');
    assert("pve_time_display"@.len() == 16);
    assert("pve_time_display"@[4] == 't');
    assert("pve_version"@.len() == 11);
    assert("pve_version"@[4] == 'v');
    assert("pve_version_short_display"@.len() == 25);
    assert("pve_version_short_display"@[4] == 'v');
    assert("pve_kernel"@.len() == 10);
    assert("pve_kernel"@[4] == 'k');
    assert("pve_version_display"@.len() == 19);
    assert("pve_version_display"@[4] == 'v');
    assert("pve_node_display"@[4] != "pve_time_display"@[4]);
}

proof fn lemma_node_family()
    ensures
        is_of_node("pve_cpu_percent"@),
        is_of_node("pve_cpu_percent#unit"@),
        is_of_node("pve_cpu_display"@),
        is_of_node("pve_memory_used_bytes"@),
        is_of_node("pve_memory_total_bytes"@),
        is_of_node("pve_memory_percent"@),
        is_of_node("pve_memory_display"@),
        is_of_node("pve_rootfs_used_bytes"@),
        is_of_node("pve_rootfs_total_bytes"@),
        is_of_node("pve_rootfs_percent"@),
        is_of_node("pve_rootfs_display"@),
        is_of_node("pve_load_one"@),
        is_of_node("pve_load_display"@),
        is_of_node("pve_uptime_seconds"@),
        is_of_node("pve_uptime_display"@),
{
    reveal_strlit("pve_cpu_percent");
    reveal_strlit("pve_cpu_percent#unit");
    reveal_strlit("pve_cpu_display");
    reveal_strlit("pve_memory_used_bytes");
    reveal_strlit("pve_memory_total_bytes");
    reveal_strlit("pve_memory_percent");
    reveal_strlit("pve_memory_display");
    reveal_strlit("pve_rootfs_used_bytes");
    reveal_strlit("pve_rootfs_total_bytes");
    reveal_strlit("pve_rootfs_percent");
    reveal_strlit("pve_rootfs_display");
    reveal_strlit("pve_load_one");
    reveal_strlit("pve_load_display");
    reveal_strlit("pve_uptime_seconds");
    reveal_strlit("pve_uptime_display");
    assert("pve_cpu_percent"@.len() == 15);
    assert("pve_cpu_percent"@[4] == 'c');
    assert("pve_cpu_percent#unit"@.len() == 20);
    assert("pve_cpu_percent#unit"@[4] == 'c');
    assert("pve_cpu_display"@.len() == 15);
    assert("pve_cpu_display"@[4] == 'c');
    assert("pve_memory_used_bytes"@.len() == 21);
    assert("pve_memory_used_bytes"@[4] == 'm');
    assert("pve_memory_total_bytes"@.len() == 22);
    assert("pve_memory_total_bytes"@[4] == 'm');
    assert("pve_memory_percent"@.len() == 18);
    assert("pve_memory_percent"@[4] == 'm');
    assert("pve_memory_display"@.len() == 18);
    assert("pve_memory_display"@[4] == 'm');
    assert("pve_rootfs_used_bytes"@.len() == 21);
    assert("pve_rootfs_used_bytes"@[4] == 'r');
    assert("pve_rootfs_total_bytes"@.len() == 22);
    assert("pve_rootfs_total_bytes"@[4] == 'r');
    assert("pve_rootfs_percent"@.len() == 18);
    assert("pve_rootfs_percent"@[4] == 'r');
    assert("pve_rootfs_display"@.len() == 18);
    assert("pve_rootfs_display"@[4] == 'r');
    assert("pve_load_one"@.len() == 12);
    assert("pve_load_one"@[4] == 'l' && "pve_load_one"@[5] == 'o');
    assert("pve_load_display"@.len() == 16);
    assert("pve_load_display"@[4] == 'l' && "pve_load_display"@[5] == 'o');
    assert("pve_uptime_seconds"@.len() == 18);
    assert("pve_uptime_seconds"@[4] == 'u');
    assert("pve_uptime_display"@.len() == 18);
    assert("pve_uptime_display"@[4] == 'u');
}

proof fn lemma_count_family()
    ensures
        is_of_guests("pve_guests_total"@),
        is_of_guests("pve_guests_running"@),
        is_of_guests("pve_lxc_total"@),
        is_of_guests("pve_lxc_running"@),
        is_of_guests("pve_qemu_total"@),
        is_of_guests("pve_qemu_running"@),
        is_of_guests("pve_guests_online_dot"@),
        is_of_guests("pve_guests_offline_dot"@),
        is_of_guests("pve_guests_display"@),
        is_of_guests("pve_guest_list_title"@),
        is_of_guests("pve_guest_summary"@),
{
    reveal_strlit("pve_guests_total");
    reveal_strlit("pve_guests_running");
    reveal_strlit("pve_lxc_total");
    reveal_strlit("pve_lxc_running");
    reveal_strlit("pve_qemu_total");
    reveal_strlit("pve_qemu_running");
    reveal_strlit("pve_guests_online_dot");
    reveal_strlit("pve_guests_offline_dot");
    reveal_strlit("pve_guests_display");
    reveal_strlit("pve_guest_list_title");
    reveal_strlit("pve_guest_summary");
    assert("pve_guests_total"@.len() == 16);
    assert("pve_guests_total"@[4] == 'g');
    assert("pve_guests_running"@.len() == 18);
    assert("pve_guests_running"@[4] == 'g');
    assert("pve_lxc_total"@.len() == 13);
    assert("pve_lxc_total"@[4] == 'l' && "pve_lxc_total"@[5] == 'x');
    assert("pve_lxc_running"@.len() == 15);
    assert("pve_lxc_running"@[4] == 'l' && "pve_lxc_running"@[5] == 'x');
    assert("pve_qemu_total"@.len() == 14);
    assert("pve_qemu_total"@[4] == 'q');
    assert("pve_qemu_running"@.len() == 16);
    assert("pve_qemu_running"@[4] == 'q');
    assert("pve_guests_online_dot"@.len() == 21);
    assert("pve_guests_online_dot"@[4] == 'g');
    assert("pve_guests_offline_dot"@.len() == 22);
    assert("pve_guests_offline_dot"@[4] == 'g');
    assert("pve_guests_display"@.len() == 18);
    assert("pve_guests_display"@[4] == 'g');
    assert("pve_guest_list_title"@.len() == 20);
    assert("pve_guest_list_title"@[4] == 'g');
    assert("pve_guest_summary"@.len() == 17);
    assert("pve_guest_summary"@[4] == 'g');
}

proof fn lemma_storage_family()
    ensures
        is_of_storage("pve_storage_name"@),
        is_of_storage("pve_storage_used_bytes"@),
        is_of_storage("pve_storage_total_bytes"@),
        is_of_storage("pve_storage_percent"@),
        is_of_storage("pve_storage_display"@),
{
    reveal_strlit("pve_storage_name");
    reveal_strlit("pve_storage_used_bytes");
    reveal_strlit("pve_storage_total_bytes");
    reveal_strlit("pve_storage_percent");
    reveal_strlit("pve_storage_display");
    assert("pve_storage_name"@.len() == 16);
    assert("pve_storage_name"@[4] == 's' && "pve_storage_name"@[6] == 'o');
    assert("pve_storage_used_bytes"@.len() == 22);
    assert("pve_storage_used_bytes"@[4] == 's' && "pve_storage_used_bytes"@[6] == 'o');
    assert("pve_storage_total_bytes"@.len() == 23);
    assert("pve_storage_total_bytes"@[4] == 's' && "pve_storage_total_bytes"@[6] == 'o');
    assert("pve_storage_percent"@.len() == 19);
    assert("pve_storage_percent"@[4] == 's' && "pve_storage_percent"@[6] == 'o');
    assert("pve_storage_display"@.len() == 19);
    assert("pve_storage_display"@[4] == 's' && "pve_storage_display"@[6] == 'o');
}

proof fn lemma_network_family()
    ensures
        is_of_network("pve_network_iface"@),
        is_of_network("pve_network_status"@),
        is_of_network("pve_ip"@),
        is_of_network("pve_network_online_dot"@),
        is_of_network("pve_network_offline_dot"@),
        is_of_network("pve_network_label"@),
        is_of_network("pve_nic0_online_dot"@),
        is_of_network("pve_nic0_offline_dot"@),
        is_of_network("pve_nic0_label"@),
        is_of_network("pve_nic1_online_dot"@),
        is_of_network("pve_nic1_offline_dot"@),
        is_of_network("pve_nic1_label"@),
        is_of_network("pve_wlp4s0_online_dot"@),
        is_of_network("pve_wlp4s0_offline_dot"@),
        is_of_network("pve_wlp4s0_label"@),
        is_of_network("pve_network_display"@),
        is_of_network("pve_status_display"@),
{
    reveal_strlit("pve_network_iface");
    reveal_strlit("pve_network_status");
    reveal_strlit("pve_ip");
    reveal_strlit("pve_network_online_dot");
    reveal_strlit("pve_network_offline_dot");
    reveal_strlit("pve_network_label");
    reveal_strlit("pve_nic0_online_dot");
    reveal_strlit("pve_nic0_offline_dot");
    reveal_strlit("pve_nic0_label");
    reveal_strlit("pve_nic1_online_dot");
    reveal_strlit("pve_nic1_offline_dot");
    reveal_strlit("pve_nic1_label");
    reveal_strlit("pve_wlp4s0_online_dot");
    reveal_strlit("pve_wlp4s0_offline_dot");
    reveal_strlit("pve_wlp4s0_label");
    reveal_strlit("pve_network_display");
    reveal_strlit("pve_status_display");
    assert("pve_network_iface"@.len() == 17);
    assert("pve_network_iface"@[4] == 'n' && "pve_network_iface"@[5] == 'e');
    assert("pve_network_status"@.len() == 18);
    assert("pve_network_status"@[4] == 'n' && "pve_network_status"@[5] == 'e');
    assert("pve_ip"@.len() == 6);
    assert("pve_network_online_dot"@.len() == 22);
    assert("pve_network_online_dot"@[4] == 'n' && "pve_network_online_dot"@[5] == 'e');
    assert("pve_network_offline_dot"@.len() == 23);
    assert("pve_network_offline_dot"@[4] == 'n' && "pve_network_offline_dot"@[5] == 'e');
    assert("pve_network_label"@.len() == 17);
    assert("pve_network_label"@[4] == 'n' && "pve_network_label"@[5] == 'e');
    assert("pve_nic0_online_dot"@.len() == 19);
    assert("pve_nic0_online_dot"@[4] == 'n' && "pve_nic0_online_dot"@[5] == 'i');
    assert("pve_nic0_offline_dot"@.len() == 20);
    assert("pve_nic0_offline_dot"@[4] == 'n' && "pve_nic0_offline_dot"@[5] == 'i');
    assert("pve_nic0_label"@.len() == 14);
    assert("pve_nic0_label"@[4] == 'n' && "pve_nic0_label"@[5] == 'i');
    assert("pve_nic1_online_dot"@.len() == 19);
    assert("pve_nic1_online_dot"@[4] == 'n' && "pve_nic1_online_dot"@[5] == 'i');
    assert("pve_nic1_offline_dot"@.len() == 20);
    assert("pve_nic1_offline_dot"@[4] == 'n' && "pve_nic1_offline_dot"@[5] == 'i');
    assert("pve_nic1_label"@.len() == 14);
    assert("pve_nic1_label"@[4] == 'n' && "pve_nic1_label"@[5] == 'i');
    assert("pve_wlp4s0_online_dot"@.len() == 21);
    assert("pve_wlp4s0_online_dot"@[4] == 'w');
    assert("pve_wlp4s0_offline_dot"@.len() == 22);
    assert("pve_wlp4s0_offline_dot"@[4] == 'w');
    assert("pve_wlp4s0_label"@.len() == 16);
    assert("pve_wlp4s0_label"@[4] == 'w');
    assert("pve_network_display"@.len() == 19);
    assert("pve_network_display"@[4] == 'n' && "pve_network_display"@[5] == 'e');
    assert("pve_status_display"@.len() == 18);
    assert("pve_status_display"@[4] == 's' && "pve_status_display"@[6] == 'a');
}

proof fn lemma_row_family(index: nat, suffix: Seq<char>)
    ensures
        is_of_guests(row_key(index) + suffix),
{
    reveal_strlit("pve_guest_");
    assert("pve_guest_"@.len() == 10 && "pve_guest_"@[4] == 'g');
}

proof fn lemma_node_beside(sensors: SensorMap, status: JsonTree)
    requires
        node_outcome(sensors, status) is Ok,
    ensures
        same_beside(
            node_outcome(sensors, status)->Ok_0,
            sensors,
            |key: Seq<char>| is_of_node(key),
        ),
        node_outcome(Map::empty(), status) is Ok,
        is_part(
            node_outcome(Map::empty(), status)->Ok_0,
            node_outcome(sensors, status)->Ok_0,
            |key: Seq<char>| is_of_node(key),
        ),
{
    lemma_usage_keys();
    lemma_node_family();
}

proof fn lemma_rows_beside(a: SensorMap, b: SensorMap, guests: Seq<JsonTree>, rows: nat)
    requires
        is_part(a, b, |key: Seq<char>| is_of_guests(key)),
    ensures
        same_beside(
            row_sensors(b, guests, rows),
            b,
            |key: Seq<char>| is_of_guests(key),
        ),
        is_part(
            row_sensors(a, guests, rows),
            row_sensors(b, guests, rows),
            |key: Seq<char>| is_of_guests(key),
        ),
    decreases rows,
{
    if rows > 0 {
        let index = (rows - 1) as nat;
        lemma_rows_beside(a, b, guests, index);
        lemma_row_family(index, "_online_dot"@);
        lemma_row_family(index, "_offline_dot"@);
        lemma_row_family(index, "_identity_display"@);
        lemma_row_family(index, "_cpu_display"@);
        lemma_row_family(index, "_memory_display"@);
        lemma_row_family(index, "_display"@);
    }
}

proof fn lemma_guests_beside(sensors: SensorMap, guests: JsonTree)
    requires
        guest_outcome(sensors, guests) is Ok,
    ensures
        same_beside(
            guest_outcome(sensors, guests)->Ok_0,
            sensors,
            |key: Seq<char>| is_of_guests(key),
        ),
        guest_outcome(Map::empty(), guests) is Ok,
        is_part(
            guest_outcome(Map::empty(), guests)->Ok_0,
            guest_outcome(sensors, guests)->Ok_0,
            |key: Seq<char>| is_of_guests(key),
        ),
{
    lemma_count_family();
    let items = guests->List_0;
    let a = count_sensors(Map::empty(), items);
    let b = count_sensors(sensors, items);
    assert(same_beside(b, sensors, |key: Seq<char>| is_of_guests(key)));
    assert(is_part(a, b, |key: Seq<char>| is_of_guests(key)));
    lemma_rows_beside(a, b, items, 5);
}

proof fn lemma_storage_beside(
    sensors: SensorMap,
    storages: JsonTree,
    preferred: Option<Seq<char>>,
)
    requires
        storage_outcome(sensors, storages, preferred) is Ok,
    ensures
        same_beside(
            storage_outcome(sensors, storages, preferred)->Ok_0,
            sensors,
            |key: Seq<char>| is_of_storage(key),
        ),
        storage_outcome(Map::empty(), storages, preferred) is Ok,
        is_part(
            storage_outcome(Map::empty(), storages, preferred)->Ok_0,
            storage_outcome(sensors, storages, preferred)->Ok_0,
            |key: Seq<char>| is_of_storage(key),
        ),
{
    lemma_storage_family();
}

proof fn lemma_network_beside(sensors: SensorMap, network: JsonTree)
    requires
        network_outcome(sensors, network) is Ok,
    ensures
        same_beside(
            network_outcome(sensors, network)->Ok_0,
            sensors,
            |key: Seq<char>| is_of_network(key),
        ),
        network_outcome(Map::empty(), network) is Ok,
        is_part(
            network_outcome(Map::empty(), network)->Ok_0.remove("pve_status_display"@),
            network_outcome(sensors, network)->Ok_0,
            |key: Seq<char>| is_of_network(key),
        ),
{
    lemma_network_keys();
    lemma_network_family();
}

/// What a report shows of its guests, its storage and its network is what these sections show by
/// themselves, and so is what it shows of the load of the node; no section changes what another one
/// shows. The version of the node stands before the line about the network.
pub proof fn law_report_joins_its_sections(
    node: Seq<char>,
    host_time: Seq<char>,
    status: JsonTree,
    guests: JsonTree,
    storages: JsonTree,
    network: JsonTree,
    preferred: Option<Seq<char>>,
)
    requires
        report_outcome(node, host_time, status, guests, storages, network, preferred) is Ok,
    ensures
        node_outcome(Map::empty(), status) is Ok,
        guest_outcome(Map::empty(), guests) is Ok,
        storage_outcome(Map::empty(), storages, preferred) is Ok,
        network_outcome(Map::empty(), network) is Ok,
        ({
            let shown = report_outcome(
                node,
                host_time,
                status,
                guests,
                storages,
                network,
                preferred,
            )->Ok_0;
            let of_node = node_outcome(Map::empty(), status)->Ok_0;
            let of_guests = guest_outcome(Map::empty(), guests)->Ok_0;
            let of_storage = storage_outcome(Map::empty(), storages, preferred)->Ok_0;
            let of_network = network_outcome(Map::empty(), network)->Ok_0;
            let version = version_text(status);
            let kernel = match status.field("current-kernel"@).field("release"@) {
                JsonTree::Text(release) => release,
                _ => "unknown"@,
            };
            &&& shown["pve_node"@] == seq![PieceView::Text(node)]
            &&& shown["pve_node_display"@] == seq![PieceView::Text("PVE · "@ + node)]
            &&& shown["pve_time_display"@] == seq![PieceView::Text(host_time)]
            &&& shown["pve_version"@] == seq![PieceView::Text(version)]
            &&& shown["pve_version_short_display"@] == seq![PieceView::Text("PVE "@ + version)]
            &&& shown["pve_kernel"@] == seq![PieceView::Text(kernel)]
            &&& shown["pve_version_display"@] == seq![
                PieceView::Text("PVE "@ + version + "  ·  Linux "@ + kernel),
            ]
            &&& forall|key: Seq<char>| #[trigger]
                of_node.contains_key(key) ==> shown.contains_key(key) && shown[key] == of_node[key]
            &&& forall|key: Seq<char>| #[trigger]
                of_guests.contains_key(key) ==> shown.contains_key(key) && shown[key]
                    == of_guests[key]
            &&& forall|key: Seq<char>| #[trigger]
                of_storage.contains_key(key) ==> shown.contains_key(key) && shown[key]
                    == of_storage[key]
            &&& forall|key: Seq<char>| #[trigger]
                of_network.contains_key(key) && key != "pve_status_display"@ ==> shown.contains_key(
                    key,
                ) && shown[key] == of_network[key]
            &&& of_network["pve_network_display"@].len() == 1
            &&& of_network["pve_network_display"@][0] is Text
            &&& shown["pve_status_display"@] == seq![
                PieceView::Text("PVE "@ + version + "  ·  Linux "@ + kernel),
                PieceView::Text("  ·  "@ + of_network["pve_network_display"@][0]->Text_0),
            ]
        }),
{
    lemma_identity_keys();
    lemma_network_keys();
    let first = identity_sensors(Map::empty(), node, host_time, status);
    let second = node_outcome(first, status)->Ok_0;
    let third = guest_outcome(second, guests)->Ok_0;
    let fourth = storage_outcome(third, storages, preferred)->Ok_0;
    let shown = network_outcome(fourth, network)->Ok_0;
    lemma_node_beside(first, status);
    lemma_guests_beside(second, guests);
    lemma_storage_beside(third, storages, preferred);
    lemma_network_beside(fourth, network);
    lemma_shown_to_the_end(first, second, third, fourth, shown);
    let of_node = node_outcome(Map::empty(), status)->Ok_0;
    let of_guests = guest_outcome(Map::empty(), guests)->Ok_0;
    let of_storage = storage_outcome(Map::empty(), storages, preferred)->Ok_0;
    let of_network = network_outcome(Map::empty(), network)->Ok_0;
    assert(is_part(of_node, second, |key: Seq<char>| is_of_node(key)));
    assert forall|key: Seq<char>| #[trigger] of_node.contains_key(key) implies shown.contains_key(
        key,
    ) && shown[key] == of_node[key] by {
        assert(is_of_node(key) && second.contains_key(key));
    }
    assert forall|key: Seq<char>| #[trigger] of_guests.contains_key(key) implies shown.contains_key(
        key,
    ) && shown[key] == of_guests[key] by {
        assert(is_of_guests(key) && third.contains_key(key));
    }
    assert forall|key: Seq<char>| #[trigger]
        of_storage.contains_key(key) implies shown.contains_key(key) && shown[key]
        == of_storage[key] by {
        assert(is_of_storage(key) && fourth.contains_key(key));
    }
    assert forall|key: Seq<char>| #[trigger]
        of_network.contains_key(key) && key != "pve_status_display"@ implies shown.contains_key(key)
        && shown[key] == of_network[key] by {
        assert(of_network.remove("pve_status_display"@).contains_key(key));
    }
    let version = version_text(status);
    assert(first["pve_node"@] == plain(node));
    assert(first["pve_node_display"@] == plain("PVE · "@ + node));
    assert(first["pve_version"@] == plain(version));
    assert(first["pve_version_short_display"@] == plain("PVE "@ + version));
    let interfaces = network->List_0;
    let primary = primary_interface(interfaces)->0;
    let line = network_line(interfaces, primary);
    assert(of_network["pve_network_display"@] == plain(line));
    assert(fourth.contains_key("pve_version_display"@));
    assert(fourth["pve_version_display"@] == first["pve_version_display"@]);
    assert(shown["pve_status_display"@] == fourth["pve_version_display"@] + plain(
        "  ·  "@ + line,
    ));
}

/// What a section shows stays as it is through the sections behind it.
proof fn lemma_shown_to_the_end(
    first: SensorMap,
    second: SensorMap,
    third: SensorMap,
    fourth: SensorMap,
    shown: SensorMap,
)
    requires
        same_beside(second, first, |key: Seq<char>| is_of_node(key)),
        same_beside(third, second, |key: Seq<char>| is_of_guests(key)),
        same_beside(fourth, third, |key: Seq<char>| is_of_storage(key)),
        same_beside(shown, fourth, |key: Seq<char>| is_of_network(key)),
    ensures
        forall|key: Seq<char>| #[trigger]
            is_of_identity(key) && first.contains_key(key) ==> fourth.contains_key(key)
                && fourth[key] == first[key] && shown.contains_key(key) && shown[key] == first[key],
        forall|key: Seq<char>| #[trigger]
            is_of_node(key) && second.contains_key(key) ==> shown.contains_key(key) && shown[key]
                == second[key],
        forall|key: Seq<char>| #[trigger]
            is_of_guests(key) && third.contains_key(key) ==> shown.contains_key(key) && shown[key]
                == third[key],
        forall|key: Seq<char>| #[trigger]
            is_of_storage(key) && fourth.contains_key(key) ==> shown.contains_key(key)
                && shown[key] == fourth[key],
{
    assert forall|key: Seq<char>| #[trigger] is_of_identity(key) && first.contains_key(key) implies {
        &&& fourth.contains_key(key)
        &&& fourth[key] == first[key]
        &&& shown.contains_key(key)
        &&& shown[key] == first[key]
    } by {
        assert(second.contains_key(key));
        assert(third.contains_key(key));
        assert(fourth.contains_key(key));
        assert(shown.contains_key(key));
    }
    assert forall|key: Seq<char>| #[trigger] is_of_node(key) && second.contains_key(key) implies {
        &&& shown.contains_key(key)
        &&& shown[key] == second[key]
    } by {
        assert(third.contains_key(key));
        assert(fourth.contains_key(key));
        assert(shown.contains_key(key));
    }
    assert forall|key: Seq<char>| #[trigger] is_of_guests(key) && third.contains_key(key) implies {
        &&& shown.contains_key(key)
        &&& shown[key] == third[key]
    } by {
        assert(fourth.contains_key(key));
        assert(shown.contains_key(key));
    }
    assert forall|key: Seq<char>| #[trigger]
        is_of_storage(key) && fourth.contains_key(key) implies {
        &&& shown.contains_key(key)
        &&& shown[key] == fourth[key]
    } by {
        assert(shown.contains_key(key));
    }
}

/// A report gives sensors exactly where each of its sections does; else it tells the first fault,
/// in the order of the node, the guests, the storage and the network.
pub proof fn law_first_fault_is_told(
    node: Seq<char>,
    host_time: Seq<char>,
    status: JsonTree,
    guests: JsonTree,
    storages: JsonTree,
    network: JsonTree,
    preferred: Option<Seq<char>>,
)
    ensures
        ({
            let outcome = report_outcome(
                node,
                host_time,
                status,
                guests,
                storages,
                network,
                preferred,
            );
            match (
                node_outcome(Map::empty(), status),
                guest_outcome(Map::empty(), guests),
                storage_outcome(Map::empty(), storages, preferred),
                network_outcome(Map::empty(), network),
            ) {
                (Err(fault), _, _, _) => outcome == Err::<SensorMap, SnapshotFault>(fault),
                (_, Err(fault), _, _) => outcome == Err::<SensorMap, SnapshotFault>(fault),
                (_, _, Err(fault), _) => outcome == Err::<SensorMap, SnapshotFault>(fault),
                (_, _, _, Err(fault)) => outcome == Err::<SensorMap, SnapshotFault>(fault),
                (Ok(_), Ok(_), Ok(_), Ok(_)) => outcome is Ok,
            }
        }),
{
}

/// A section stands behind its marker, in the first line that starts with it. The first section
/// that is missing, or that holds no JSON where it has to, stands in the way of all others. Else
/// the report is worked out from all of them; white space round the name of the node and round the
/// time is taken away.
pub proof fn law_report_is_read_from_its_lines(raw: Seq<char>, preferred: Option<Seq<char>>)
    ensures
        ({
            let outcome = snapshot_outcome(raw, preferred);
            let behind = |marker: Seq<char>| first_after_prefix(lines_of(raw), marker);
            match (behind("__ASTER_NODE__"@), behind("__ASTER_TIME__"@)) {
                (None, _) => outcome == Err::<SensorMap, SnapshotFault>(
                    SnapshotFault::MissingMarker("__ASTER_NODE__"@),
                ),
                (_, None) => outcome == Err::<SensorMap, SnapshotFault>(
                    SnapshotFault::MissingMarker("__ASTER_TIME__"@),
                ),
                (Some(node), Some(host_time)) => match (
                    section_fault(raw, "__ASTER_STATUS__"@, Section::Status),
                    section_fault(raw, "__ASTER_GUESTS__"@, Section::Guests),
                    section_fault(raw, "__ASTER_STORAGE__"@, Section::Storage),
                    section_fault(raw, "__ASTER_NETWORK__"@, Section::Network),
                ) {
                    (Some(fault), _, _, _) => outcome == Err::<SensorMap, SnapshotFault>(fault),
                    (_, Some(fault), _, _) => outcome == Err::<SensorMap, SnapshotFault>(fault),
                    (_, _, Some(fault), _) => outcome == Err::<SensorMap, SnapshotFault>(fault),
                    (_, _, _, Some(fault)) => outcome == Err::<SensorMap, SnapshotFault>(fault),
                    (None, None, None, None) => outcome == report_outcome(
                        trimmed(node),
                        trimmed(host_time),
                        json_outcome(behind("__ASTER_STATUS__"@)->0)->Ok_0,
                        json_outcome(behind("__ASTER_GUESTS__"@)->0)->Ok_0,
                        json_outcome(behind("__ASTER_STORAGE__"@)->0)->Ok_0,
                        json_outcome(behind("__ASTER_NETWORK__"@)->0)->Ok_0,
                        preferred,
                    ),
                },
            }
        }),
{
}

/// What is wrong with a section that has to hold JSON, where something is.
pub open spec fn section_fault(raw: Seq<char>, marker: Seq<char>, section: Section) -> Option<
    SnapshotFault,
> {
    match first_after_prefix(lines_of(raw), marker) {
        None => Some(SnapshotFault::MissingMarker(marker)),
        Some(rest) => match json_outcome(rest) {
            Ok(_) => None,
            Err(cause) => Some(SnapshotFault::InvalidJson { section, cause }),
        },
    }
}

} // verus!
