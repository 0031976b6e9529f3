//! The guests of the cluster: how many there are, and a row for each of the first ones.

use crate::caption::{lone_figure, plain, Caption, Figure, PieceView};
use crate::json::{trees, Json, JsonTree};
use crate::pve::error::{Section, SnapshotError, SnapshotFault};
use crate::pve::fields::{
    double_or_zero, equals_text, is_text, offline_dot, offline_dot_text, online_dot,
    online_dot_text, put_number, put_text, read_double, read_text, read_unsigned, text_or,
    unsigned_or_zero, SensorMap,
};
use crate::sensors::Sensors;
use crate::text::{
    align_left, align_right, decimal, decimal_digit, decimal_text, join2, join3, join4, padded_left,
    padded_right,
};
use vstd::prelude::*;

verus! {

// ---------------------------------------------------------------------------------------------
// Counts
// ---------------------------------------------------------------------------------------------
/// Whether a guest is running.
pub open spec fn is_running(guest: JsonTree) -> bool {
    is_text(guest.field("status"@), "running"@)
}

/// Whether a guest is a container.
pub open spec fn is_container(guest: JsonTree) -> bool {
    is_text(guest.field("type"@), "lxc"@)
}

/// Whether a guest is a virtual machine.
pub open spec fn is_machine(guest: JsonTree) -> bool {
    is_text(guest.field("type"@), "qemu"@)
}

/// How many guests meet a condition.
pub open spec fn count_where(
    guests: Seq<JsonTree>,
    condition: spec_fn(JsonTree) -> bool,
) -> nat {
    guests.filter(condition).len()
}

/// How many guests are running.
pub open spec fn running_count(guests: Seq<JsonTree>) -> nat {
    count_where(guests, |guest: JsonTree| is_running(guest))
}

/// How many guests are containers.
pub open spec fn container_count(guests: Seq<JsonTree>) -> nat {
    count_where(guests, |guest: JsonTree| is_container(guest))
}

/// How many guests are running containers.
pub open spec fn running_container_count(guests: Seq<JsonTree>) -> nat {
    count_where(guests, |guest: JsonTree| is_container(guest) && is_running(guest))
}

/// How many guests are virtual machines.
pub open spec fn machine_count(guests: Seq<JsonTree>) -> nat {
    count_where(guests, |guest: JsonTree| is_machine(guest))
}

/// How many guests are running virtual machines.
pub open spec fn running_machine_count(guests: Seq<JsonTree>) -> nat {
    count_where(guests, |guest: JsonTree| is_machine(guest) && is_running(guest))
}

/// Whether there are guests and all of them are running.
pub open spec fn all_running(guests: Seq<JsonTree>) -> bool {
    guests.len() > 0 && running_count(guests) == guests.len()
}

/// The dot for guests that all run.
pub open spec fn guests_online_dot(guests: Seq<JsonTree>) -> Seq<char> {
    if all_running(guests) {
        "●"@
    } else {
        " "@
    }
}

/// The dot for guests of which some do not run.
pub open spec fn guests_offline_dot(guests: Seq<JsonTree>) -> Seq<char> {
    if guests.len() > 0 && !all_running(guests) {
        "○"@
    } else {
        " "@
    }
}

/// The number of running guests and of all, with a stroke between.
pub open spec fn fraction(part: nat, whole: nat) -> Seq<char> {
    decimal_text(part) + "/"@ + decimal_text(whole)
}

/// The sensors with the counts added to them.
pub open spec fn count_sensors(sensors: SensorMap, guests: Seq<JsonTree>) -> SensorMap {
    let total = guests.len();
    let running = running_count(guests);
    let lxc_total = container_count(guests);
    let lxc_running = running_container_count(guests);
    let qemu_total = machine_count(guests);
    let qemu_running = running_machine_count(guests);
    sensors.insert("pve_guests_total"@, plain(decimal_text(total))).insert(
        "pve_guests_running"@,
        plain(decimal_text(running)),
    ).insert("pve_lxc_total"@, plain(decimal_text(lxc_total))).insert(
        "pve_lxc_running"@,
        plain(decimal_text(lxc_running)),
    ).insert("pve_qemu_total"@, plain(decimal_text(qemu_total))).insert(
        "pve_qemu_running"@,
        plain(decimal_text(qemu_running)),
    ).insert("pve_guests_online_dot"@, plain(guests_online_dot(guests))).insert(
        "pve_guests_offline_dot"@,
        plain(guests_offline_dot(guests)),
    ).insert("pve_guests_display"@, plain("GUESTS  "@ + fraction(running, total))).insert(
        "pve_guest_list_title"@,
        plain("WORKLOADS  ·  "@ + fraction(running, total) + " RUNNING"@),
    ).insert(
        "pve_guest_summary"@,
        plain(
            fraction(lxc_running, lxc_total) + " LXC  ·  "@ + fraction(qemu_running, qemu_total)
                + " VM"@,
        ),
    )
}

/// The summary dot is the filled one exactly where there are guests and every one is running, and
/// the hollow one exactly where some guest is not.
pub proof fn law_summary_dot(guests: Seq<JsonTree>)
    ensures
        guests_online_dot(guests) == seq!['●'] <==> guests.len() > 0 && forall|i: int|
            0 <= i < guests.len() ==> is_running(#[trigger] guests[i]),
        guests_offline_dot(guests) == seq!['○'] <==> exists|i: int|
            0 <= i < guests.len() && !is_running(#[trigger] guests[i]),
{
    reveal_strlit("●");
    reveal_strlit("○");
    reveal_strlit(" ");
    assert("●"@ =~= seq!['●']);
    assert("○"@ =~= seq!['○']);
    assert(" "@[0] != seq!['●'][0] && " "@[0] != seq!['○'][0]);
    lemma_full_count(guests, |guest: JsonTree| is_running(guest));
}

proof fn lemma_full_count(guests: Seq<JsonTree>, condition: spec_fn(JsonTree) -> bool)
    ensures
        guests.filter(condition).len() <= guests.len(),
        guests.filter(condition).len() == guests.len() <==> forall|i: int|
            0 <= i < guests.len() ==> condition(#[trigger] guests[i]),
    decreases guests.len(),
{
    reveal(Seq::filter);
    if guests.len() > 0 {
        let rest = guests.drop_last();
        lemma_full_count(rest, condition);
        assert(forall|i: int| 0 <= i < rest.len() ==> #[trigger] guests[i] == rest[i]);
        if forall|i: int| 0 <= i < guests.len() ==> condition(#[trigger] guests[i]) {
            assert(forall|i: int| 0 <= i < rest.len() ==> condition(#[trigger] rest[i]));
            assert(condition(guests[guests.len() - 1]));
        }
        if guests.filter(condition).len() == guests.len() {
            assert(condition(guests.last()));
            assert forall|i: int| 0 <= i < guests.len() implies condition(#[trigger] guests[i]) by {
                if i < rest.len() {
                    assert(condition(rest[i]));
                }
            }
        }
    }
}

/// Running containers are containers and run, and likewise machines; no guest is both.
pub proof fn law_counts_are_consistent(guests: Seq<JsonTree>)
    ensures
        running_count(guests) <= guests.len(),
        running_container_count(guests) <= container_count(guests),
        running_machine_count(guests) <= machine_count(guests),
        container_count(guests) + machine_count(guests) <= guests.len(),
        running_container_count(guests) + running_machine_count(guests) <= running_count(guests),
    decreases guests.len(),
{
    reveal(Seq::filter);
    if guests.len() > 0 {
        law_counts_are_consistent(guests.drop_last());
        reveal_strlit("lxc");
        reveal_strlit("qemu");
        assert("lxc"@.len() != "qemu"@.len());
    }
}

// ---------------------------------------------------------------------------------------------
// Rows
// ---------------------------------------------------------------------------------------------
/// The number by which guests are ranked.
pub open spec fn guest_id(guest: JsonTree) -> u64 {
    unsigned_or_zero(guest.field("vmid"@))
}

/// The order of the rows: by number, guests with the same number as they come.
pub open spec fn row_order(guests: Seq<JsonTree>) -> spec_fn(int, int) -> bool {
    |a: int, b: int|
        guest_id(guests[a]) < guest_id(guests[b]) || (guest_id(guests[a]) == guest_id(guests[b])
            && a <= b)
}

/// The positions of the guests in the order of the rows.
pub open spec fn ranked(guests: Seq<JsonTree>) -> Seq<int> {
    Seq::new(guests.len(), |i: int| i).sort_by(row_order(guests))
}

/// The start of the keys of a row.
pub open spec fn row_key(index: nat) -> Seq<char> {
    "pve_guest_"@ + decimal_text(index)
}

/// The sensors with a row that no guest fills.
pub open spec fn blank_row(sensors: SensorMap, index: nat) -> SensorMap {
    sensors.insert(row_key(index) + "_online_dot"@, plain(" "@)).insert(
        row_key(index) + "_offline_dot"@,
        plain(" "@),
    ).insert(row_key(index) + "_identity_display"@, plain(" "@)).insert(
        row_key(index) + "_cpu_display"@,
        plain(" "@),
    ).insert(row_key(index) + "_memory_display"@, plain(" "@)).insert(
        row_key(index) + "_display"@,
        plain(" "@),
    )
}

/// The name that is shown for a guest: at most eighteen characters of it.
pub open spec fn shown_name(guest: JsonTree) -> Seq<char> {
    let name = text_or(guest.field("name"@), "unnamed"@);
    if name.len() > 18 {
        name.take(18)
    } else {
        name
    }
}

/// The number and the name of a guest.
pub open spec fn identity_text(guest: JsonTree) -> Seq<char> {
    padded_left(decimal_text(guest_id(guest) as nat), ' ', 3) + "  "@ + shown_name(guest)
}

/// The processor share of a guest.
pub open spec fn cpu_caption(guest: JsonTree) -> Seq<PieceView> {
    plain("CPU "@) + lone_figure(
        Figure::Share { double_bits: double_or_zero(guest.field("cpu"@)) },
        1,
        4,
    ) + plain("%"@)
}

/// The memory of a guest.
pub open spec fn memory_caption(guest: JsonTree) -> Seq<PieceView> {
    plain("RAM "@) + lone_figure(
        Figure::Gibibytes { bytes: unsigned_or_zero(guest.field("mem"@)) },
        1,
        4,
    ) + plain("/"@) + lone_figure(
        Figure::Gibibytes { bytes: unsigned_or_zero(guest.field("maxmem"@)) },
        1,
        0,
    ) + plain("G"@)
}

/// The dot at the front of a row.
pub open spec fn row_dot(guest: JsonTree) -> Seq<char> {
    if is_running(guest) {
        "●"@
    } else {
        "○"@
    }
}

/// The sensors with the row of a guest.
pub open spec fn filled_row(sensors: SensorMap, index: nat, guest: JsonTree) -> SensorMap {
    sensors.insert(
        row_key(index) + "_online_dot"@,
        plain(online_dot_text(is_running(guest))),
    ).insert(row_key(index) + "_offline_dot"@, plain(offline_dot_text(is_running(guest)))).insert(
        row_key(index) + "_identity_display"@,
        plain(identity_text(guest)),
    ).insert(row_key(index) + "_cpu_display"@, cpu_caption(guest)).insert(
        row_key(index) + "_memory_display"@,
        memory_caption(guest),
    ).insert(
        row_key(index) + "_display"@,
        plain(row_dot(guest) + "  "@ + padded_right(identity_text(guest), 23) + "  "@)
            + cpu_caption(guest) + plain("  "@) + memory_caption(guest),
    )
}

/// The sensors with the first `rows` rows.
pub open spec fn row_sensors(sensors: SensorMap, guests: Seq<JsonTree>, rows: nat) -> SensorMap
    decreases rows,
{
    if rows == 0 {
        sensors
    } else {
        let index = (rows - 1) as nat;
        let before = row_sensors(sensors, guests, index);
        if index < guests.len() {
            filled_row(before, index, guests[ranked(guests)[index as int]])
        } else {
            blank_row(before, index)
        }
    }
}

/// The sensors with the counts and five rows, or why there are none.
pub open spec fn guest_outcome(sensors: SensorMap, guests: JsonTree) -> Result<
    SensorMap,
    SnapshotFault,
> {
    match guests.as_list() {
        None => Err(SnapshotFault::NotAList(Section::Guests)),
        Some(items) => Ok(row_sensors(count_sensors(sensors, items), items, 5)),
    }
}

proof fn lemma_row_order_is_total(guests: Seq<JsonTree>)
    ensures
        vstd::relations::total_ordering(row_order(guests)),
{
}

/// The rows show each guest once, in ascending order of their numbers, guests with the same number
/// in the order in which the host lists them.
pub proof fn law_rows_are_ranked(guests: Seq<JsonTree>)
    ensures
        ranked(guests).len() == guests.len(),
        forall|i: int| 0 <= i < guests.len() ==> 0 <= #[trigger] ranked(guests)[i] < guests.len(),
        forall|i: int, j: int|
            0 <= i < j < guests.len() ==> {
                let a = #[trigger] ranked(guests)[i];
                let b = #[trigger] ranked(guests)[j];
                guest_id(guests[a]) < guest_id(guests[b]) || (guest_id(guests[a]) == guest_id(
                    guests[b],
                ) && a < b)
            },
{
    let order = row_order(guests);
    let positions = Seq::new(guests.len(), |i: int| i);
    let rows = ranked(guests);
    lemma_row_order_is_total(guests);
    positions.lemma_sort_by_ensures(order);
    broadcast use vstd::seq_lib::group_to_multiset_ensures;

    assert(rows.to_multiset().len() == positions.to_multiset().len());
    assert forall|i: int| 0 <= i < guests.len() implies 0 <= #[trigger] rows[i] < guests.len() by {
        if !positions.contains(rows[i]) {
            assert(!rows.contains(rows[i]));
            assert(rows.contains(rows[i]));
        }
    }
    assert(positions.no_duplicates());
    positions.lemma_multiset_has_no_duplicates();
    assert forall|x: int| rows.to_multiset().contains(x) implies rows.to_multiset().count(x)
        == 1 by {}
    rows.lemma_multiset_has_no_duplicates_conv();
    assert forall|i: int, j: int| 0 <= i < j < guests.len() implies {
        let a = #[trigger] rows[i];
        let b = #[trigger] rows[j];
        guest_id(guests[a]) < guest_id(guests[b]) || (guest_id(guests[a]) == guest_id(guests[b])
            && a < b)
    } by {
        assert(order(rows[i], rows[j]));
        assert(rows[i] != rows[j]);
    }
}

/// Whether no two guests have the same number.
pub open spec fn ids_are_distinct(guests: Seq<JsonTree>) -> bool {
    forall|i: int, j: int|
        0 <= i < j < guests.len() ==> guest_id(#[trigger] guests[i]) != guest_id(
            #[trigger] guests[j],
        )
}

/// The guests in the order of the rows.
spec fn in_rows(guests: Seq<JsonTree>) -> Seq<JsonTree> {
    Seq::new(guests.len(), |i: int| guests[ranked(guests)[i]])
}

proof fn lemma_same_members<A>(a: Seq<A>, b: Seq<A>, item: A)
    requires
        a.to_multiset() == b.to_multiset(),
        a.contains(item),
    ensures
        b.contains(item),
{
    a.to_multiset_ensures();
    b.to_multiset_ensures();
    assert(a.to_multiset().count(item) > 0);
}

proof fn lemma_filter_as_multiset(guests: Seq<JsonTree>, condition: spec_fn(JsonTree) -> bool)
    ensures
        guests.filter(condition).to_multiset() == guests.to_multiset().filter(condition),
    decreases guests.len(),
{
    reveal(Seq::filter);
    broadcast use vstd::seq_lib::group_to_multiset_ensures;
    broadcast use vstd::multiset::group_multiset_axioms;

    if guests.len() == 0 {
        assert(guests.filter(condition) =~= guests);
        assert(guests.to_multiset().filter(condition) =~= guests.to_multiset());
    } else {
        let front = guests.drop_last();
        lemma_filter_as_multiset(front, condition);
        assert(guests =~= front.push(guests.last()));
        assert(guests.filter(condition).to_multiset() =~= guests.to_multiset().filter(condition));
    }
}

proof fn lemma_same_count(
    a: Seq<JsonTree>,
    b: Seq<JsonTree>,
    condition: spec_fn(JsonTree) -> bool,
)
    requires
        a.to_multiset() == b.to_multiset(),
    ensures
        a.filter(condition).len() == b.filter(condition).len(),
{
    broadcast use vstd::seq_lib::group_to_multiset_ensures;

    lemma_filter_as_multiset(a, condition);
    lemma_filter_as_multiset(b, condition);
    assert(a.filter(condition).to_multiset().len() == b.filter(condition).to_multiset().len());
}

proof fn lemma_reordered_ids_are_distinct(a: Seq<JsonTree>, b: Seq<JsonTree>)
    requires
        a.to_multiset() == b.to_multiset(),
        ids_are_distinct(a),
    ensures
        ids_are_distinct(b),
{
    broadcast use vstd::seq_lib::group_to_multiset_ensures;

    assert(a.no_duplicates()) by {
        assert forall|i: int, j: int| 0 <= i < a.len() && 0 <= j < a.len() && i != j implies a[i]
            != a[j] by {
            if i < j {
                assert(guest_id(a[i]) != guest_id(a[j]));
            } else {
                assert(guest_id(a[j]) != guest_id(a[i]));
            }
        }
    }
    a.lemma_multiset_has_no_duplicates();
    b.lemma_multiset_has_no_duplicates_conv();
    assert forall|i: int, j: int| 0 <= i < j < b.len() implies guest_id(#[trigger] b[i])
        != guest_id(#[trigger] b[j]) by {
        assert(b.contains(b[i]) && b.contains(b[j]));
        lemma_same_members(b, a, b[i]);
        lemma_same_members(b, a, b[j]);
        let p = choose|p: int| 0 <= p < a.len() && a[p] == b[i];
        let q = choose|q: int| 0 <= q < a.len() && a[q] == b[j];
        if p < q {
            assert(guest_id(a[p]) != guest_id(a[q]));
        } else if q < p {
            assert(guest_id(a[q]) != guest_id(a[p]));
        }
    }
}

/// With distinct numbers the rows ascend strictly, and every guest stands in one of them.
proof fn lemma_rows_ascend(guests: Seq<JsonTree>)
    requires
        ids_are_distinct(guests),
    ensures
        in_rows(guests).len() == guests.len(),
        forall|i: int, j: int|
            0 <= i < j < guests.len() ==> guest_id(#[trigger] in_rows(guests)[i]) < guest_id(
                #[trigger] in_rows(guests)[j],
            ),
        forall|i: int| 0 <= i < guests.len() ==> guests.contains(#[trigger] in_rows(guests)[i]),
        forall|i: int| 0 <= i < guests.len() ==> in_rows(guests).contains(#[trigger] guests[i]),
{
    law_rows_are_ranked(guests);
    let rows = ranked(guests);
    let positions = Seq::new(guests.len(), |i: int| i);
    lemma_row_order_is_total(guests);
    positions.lemma_sort_by_ensures(row_order(guests));
    broadcast use vstd::seq_lib::group_to_multiset_ensures;

    assert forall|i: int, j: int| 0 <= i < j < guests.len() implies guest_id(
        #[trigger] in_rows(guests)[i],
    ) < guest_id(#[trigger] in_rows(guests)[j]) by {
        let p = rows[i];
        let q = rows[j];
        if p < q {
            assert(guest_id(guests[p]) != guest_id(guests[q]));
        }
    }
    assert forall|i: int| 0 <= i < guests.len() implies guests.contains(
        #[trigger] in_rows(guests)[i],
    ) by {
        assert(guests[rows[i]] == in_rows(guests)[i]);
    }
    assert forall|i: int| 0 <= i < guests.len() implies in_rows(guests).contains(
        #[trigger] guests[i],
    ) by {
        assert(positions[i] == i);
        assert(positions.contains(i));
        lemma_same_members(positions, rows, i);
        let row = choose|row: int| 0 <= row < rows.len() && rows[row] == i;
        assert(in_rows(guests)[row] == guests[i]);
    }
}

proof fn lemma_same_row(a: Seq<JsonTree>, b: Seq<JsonTree>, row: int)
    requires
        a.len() == b.len(),
        0 <= row < a.len(),
        forall|i: int, j: int|
            0 <= i < j < a.len() ==> guest_id(#[trigger] a[i]) < guest_id(#[trigger] a[j]),
        forall|i: int, j: int|
            0 <= i < j < b.len() ==> guest_id(#[trigger] b[i]) < guest_id(#[trigger] b[j]),
        forall|i: int| 0 <= i < a.len() ==> b.contains(#[trigger] a[i]),
        forall|i: int| 0 <= i < b.len() ==> a.contains(#[trigger] b[i]),
    ensures
        a[row] == b[row],
    decreases row,
{
    assert forall|i: int| 0 <= i < row implies #[trigger] a[i] == b[i] by {
        lemma_same_row(a, b, i);
    }
    assert(b.contains(a[row]));
    assert(a.contains(b[row]));
    let j = choose|j: int| 0 <= j < b.len() && b[j] == a[row];
    let k = choose|k: int| 0 <= k < a.len() && a[k] == b[row];
    if j < row {
        assert(a[j] == b[j]);
        assert(guest_id(a[j]) < guest_id(a[row]));
    } else if k < row {
        assert(a[k] == b[k]);
        assert(guest_id(b[k]) < guest_id(b[row]));
    } else if j > row && k > row {
        assert(guest_id(b[row]) < guest_id(b[j]));
        assert(guest_id(a[row]) < guest_id(a[k]));
    }
}

proof fn lemma_same_row_sensors(
    sensors: SensorMap,
    a: Seq<JsonTree>,
    b: Seq<JsonTree>,
    rows: nat,
)
    requires
        a.len() == b.len(),
        in_rows(a) == in_rows(b),
    ensures
        row_sensors(sensors, a, rows) == row_sensors(sensors, b, rows),
    decreases rows,
{
    if rows > 0 {
        let index = (rows - 1) as nat;
        lemma_same_row_sensors(sensors, a, b, index);
        if index < a.len() {
            assert(in_rows(a)[index as int] == a[ranked(a)[index as int]]);
            assert(in_rows(b)[index as int] == b[ranked(b)[index as int]]);
        }
        let left = row_sensors(sensors, a, index);
        let right = row_sensors(sensors, b, index);
        assert(left == right);
    }
}

/// Where no two guests have the same number, the sensors do not depend on the order in which the
/// host lists the guests.
pub proof fn law_listing_order_does_not_matter(
    sensors: SensorMap,
    a: Seq<JsonTree>,
    b: Seq<JsonTree>,
)
    requires
        a.to_multiset() == b.to_multiset(),
        ids_are_distinct(a),
    ensures
        guest_outcome(sensors, JsonTree::List(a)) is Ok,
        guest_outcome(sensors, JsonTree::List(a)) == guest_outcome(sensors, JsonTree::List(b)),
{
    broadcast use vstd::seq_lib::group_to_multiset_ensures;

    assert(a.len() == a.to_multiset().len() && b.len() == b.to_multiset().len());
    lemma_same_count(a, b, |guest: JsonTree| is_running(guest));
    lemma_same_count(a, b, |guest: JsonTree| is_container(guest));
    lemma_same_count(a, b, |guest: JsonTree| is_container(guest) && is_running(guest));
    lemma_same_count(a, b, |guest: JsonTree| is_machine(guest));
    lemma_same_count(a, b, |guest: JsonTree| is_machine(guest) && is_running(guest));
    assert(count_sensors(sensors, a) == count_sensors(sensors, b));

    lemma_reordered_ids_are_distinct(a, b);
    lemma_rows_ascend(a);
    lemma_rows_ascend(b);
    let rows_a = in_rows(a);
    let rows_b = in_rows(b);
    assert forall|i: int| 0 <= i < rows_a.len() implies rows_b.contains(#[trigger] rows_a[i]) by {
        assert(a.contains(rows_a[i]));
        lemma_same_members(a, b, rows_a[i]);
        let p = choose|p: int| 0 <= p < b.len() && b[p] == rows_a[i];
        assert(rows_b.contains(b[p]));
    }
    assert forall|i: int| 0 <= i < rows_b.len() implies rows_a.contains(#[trigger] rows_b[i]) by {
        assert(b.contains(rows_b[i]));
        lemma_same_members(b, a, rows_b[i]);
        let p = choose|p: int| 0 <= p < a.len() && a[p] == rows_b[i];
        assert(rows_a.contains(a[p]));
    }
    assert forall|i: int| 0 <= i < rows_a.len() implies #[trigger] rows_a[i] == rows_b[i] by {
        lemma_same_row(rows_a, rows_b, i);
    }
    assert(rows_a =~= rows_b);
    lemma_same_row_sensors(count_sensors(sensors, a), a, b, 5);
}

proof fn lemma_small_number_is_short(number: nat)
    requires
        number < 1000,
    ensures
        1 <= decimal_text(number).len() <= 3,
{
    reveal_with_fuel(decimal_text, 3);
}

/// The number and the name of a guest with a number of at most three digits fit into their column,
/// so that what follows them in the row of a guest always stands in the same place.
pub proof fn law_identity_fits_its_column(guest: JsonTree)
    requires
        guest_id(guest) < 1000,
    ensures
        identity_text(guest).len() <= 23,
        padded_right(identity_text(guest), 23).len() == 23,
{
    lemma_small_number_is_short(guest_id(guest) as nat);
    reveal_strlit("  ");
}

// ---------------------------------------------------------------------------------------------
// Adding guests
// ---------------------------------------------------------------------------------------------
fn runs(guest: &Json) -> (running: bool)
    ensures
        running == is_running(guest@),
{
    equals_text(guest.field("status"), "running")
}

/// How many guests there are of each kind.
struct Tally {
    running: u64,
    lxc_total: u64,
    lxc_running: u64,
    qemu_total: u64,
    qemu_running: u64,
}

spec fn tallies(tally: Tally, guests: Seq<JsonTree>) -> bool {
    &&& tally.running == running_count(guests)
    &&& tally.lxc_total == container_count(guests)
    &&& tally.lxc_running == running_container_count(guests)
    &&& tally.qemu_total == machine_count(guests)
    &&& tally.qemu_running == running_machine_count(guests)
}

fn tally_guests(guests: &Vec<Json>) -> (tally: Tally)
    ensures
        tallies(tally, trees(guests@)),
{
    let ghost all = trees(guests@);
    let mut tally = Tally {
        running: 0,
        lxc_total: 0,
        lxc_running: 0,
        qemu_total: 0,
        qemu_running: 0,
    };
    proof {
        reveal(Seq::filter);
    }
    let mut i: usize = 0;
    while i < guests.len()
        invariant
            i <= guests@.len(),
            all == trees(guests@),
            tallies(tally, all.take(i as int)),
            tally.running <= i,
            tally.lxc_total <= i,
            tally.lxc_running <= i,
            tally.qemu_total <= i,
            tally.qemu_running <= i,
        decreases guests@.len() - i,
    {
        proof {
            reveal(Seq::filter);
            assert(all.take(i as int + 1).drop_last() =~= all.take(i as int));
            assert(all.take(i as int + 1).last() == guests@[i as int]@);
            reveal_strlit("lxc");
            reveal_strlit("qemu");
            assert("lxc"@.len() != "qemu"@.len());
        }
        let running = runs(&guests[i]);
        if running {
            tally.running = tally.running + 1;
        }
        if equals_text(guests[i].field("type"), "lxc") {
            tally.lxc_total = tally.lxc_total + 1;
            if running {
                tally.lxc_running = tally.lxc_running + 1;
            }
        } else if equals_text(guests[i].field("type"), "qemu") {
            tally.qemu_total = tally.qemu_total + 1;
            if running {
                tally.qemu_running = tally.qemu_running + 1;
            }
        }
        i += 1;
    }
    assert(all.take(i as int) =~= all);
    tally
}

fn write_fraction(part: u64, whole: u64) -> (text: String)
    ensures
        text@ == fraction(part as nat, whole as nat),
{
    join3(decimal(part as u128).as_str(), "/", decimal(whole as u128).as_str())
}

fn add_counts(sensors: &mut Sensors, guests: &Vec<Json>)
    ensures
        final(sensors)@ == count_sensors(old(sensors)@, trees(guests@)),
{
    let total: u64 = guests.len() as u64;
    let tally = tally_guests(guests);
    put_number(sensors, "pve_guests_total", total);
    put_number(sensors, "pve_guests_running", tally.running);
    put_number(sensors, "pve_lxc_total", tally.lxc_total);
    put_number(sensors, "pve_lxc_running", tally.lxc_running);
    put_number(sensors, "pve_qemu_total", tally.qemu_total);
    put_number(sensors, "pve_qemu_running", tally.qemu_running);
    let all = total > 0 && tally.running == total;
    let online: &str = if all {
        "●"
    } else {
        " "
    };
    let offline: &str = if total > 0 && !all {
        "○"
    } else {
        " "
    };
    put_text(sensors, "pve_guests_online_dot", online.to_owned());
    put_text(sensors, "pve_guests_offline_dot", offline.to_owned());
    let running: String = write_fraction(tally.running, total);
    put_text(sensors, "pve_guests_display", join2("GUESTS  ", running.as_str()));
    put_text(
        sensors,
        "pve_guest_list_title",
        join3("WORKLOADS  ·  ", running.as_str(), " RUNNING"),
    );
    put_text(
        sensors,
        "pve_guest_summary",
        join4(
            write_fraction(tally.lxc_running, tally.lxc_total).as_str(),
            " LXC  ·  ",
            write_fraction(tally.qemu_running, tally.qemu_total).as_str(),
            " VM",
        ),
    );
}

/// Whether a row stands behind another one.
fn ranks_after(guests: &Vec<Json>, left: usize, right: usize) -> (after: bool)
    requires
        left < guests@.len(),
        right < guests@.len(),
        right < left,
    ensures
        after == row_order(trees(guests@))(right as int, left as int),
{
    read_unsigned(guests[right].field("vmid")) <= read_unsigned(guests[left].field("vmid"))
}

spec fn places(positions: Seq<usize>) -> Seq<int> {
    positions.map_values(|position: usize| position as int)
}

/// The positions of the guests in the order of the rows.
fn rank(guests: &Vec<Json>) -> (rows: Vec<usize>)
    ensures
        places(rows@) == ranked(trees(guests@)),
{
    let ghost all = trees(guests@);
    let ghost order = row_order(all);
    let ghost given = Seq::new(all.len(), |i: int| i);
    let mut rows: Vec<usize> = Vec::new();
    proof {
        lemma_row_order_is_total(all);
        assert(given.take(0) =~= Seq::<int>::empty());
        assert(places(rows@) =~= Seq::<int>::empty());
    }
    let mut next: usize = 0;
    while next < guests.len()
        invariant
            next <= guests@.len(),
            all == trees(guests@),
            order == row_order(all),
            given == Seq::new(all.len(), |i: int| i),
            vstd::relations::total_ordering(order),
            forall|i: int| 0 <= i < rows@.len() ==> #[trigger] rows@[i] < next,
            vstd::relations::sorted_by(places(rows@), order),
            places(rows@).to_multiset() == given.take(next as int).to_multiset(),
        decreases guests@.len() - next,
    {
        let ghost before = places(rows@);
        let mut position: usize = rows.len();
        while position > 0 && !ranks_after(guests, next, rows[position - 1])
            invariant
                position <= rows@.len(),
                next < guests@.len(),
                all == trees(guests@),
                order == row_order(all),
                before == places(rows@),
                vstd::relations::total_ordering(order),
                vstd::relations::sorted_by(before, order),
                forall|i: int| 0 <= i < rows@.len() ==> #[trigger] rows@[i] < next,
                forall|i: int|
                    position <= i < before.len() ==> order(next as int, #[trigger] before[i]),
            decreases position,
        {
            position -= 1;
        }
        proof {
            let place = next as int;
            if position > 0 {
                assert(order(before[position - 1], place));
                assert forall|i: int| 0 <= i < position implies order(
                    #[trigger] before[i],
                    place,
                ) by {
                    if i < position - 1 {
                        assert(order(before[i], before[position - 1]));
                    }
                }
            }
            let after = before.insert(position as int, place);
            assert(vstd::relations::sorted_by(after, order)) by {
                assert forall|i: int, j: int| 0 <= i < j < after.len() implies #[trigger] order(
                    after[i],
                    after[j],
                ) by {
                    if i < position && j > position {
                        assert(order(before[i], before[j - 1]));
                    } else if j < position {
                        assert(order(before[i], before[j]));
                    } else if i > position {
                        assert(order(before[i - 1], before[j - 1]));
                    } else if i == position {
                        assert(order(place, before[j - 1]));
                    } else {
                        assert(order(before[i], place));
                    }
                }
            }
            vstd::seq_lib::to_multiset_insert(before, position as int, place);
            vstd::seq_lib::to_multiset_build(given.take(place), place);
            assert(given.take(place + 1) =~= given.take(place).push(place));
        }
        rows.insert(position, next);
        assert(places(rows@) =~= before.insert(position as int, next as int));
        next += 1;
    }
    proof {
        assert(given.take(all.len() as int) =~= given);
        given.lemma_sort_by_ensures(order);
        vstd::seq_lib::lemma_sorted_unique(places(rows@), given.sort_by(order), order);
    }
    rows
}

fn write_row_key(index: usize) -> (key: String)
    ensures
        key@ == row_key(index as nat),
{
    join2("pve_guest_", decimal(index as u128).as_str())
}

fn add_blank_row(sensors: &mut Sensors, index: usize)
    ensures
        final(sensors)@ == blank_row(old(sensors)@, index as nat),
{
    let row: String = write_row_key(index);
    let prefix: &str = row.as_str();
    put_text(sensors, join2(prefix, "_online_dot").as_str(), " ".to_owned());
    put_text(sensors, join2(prefix, "_offline_dot").as_str(), " ".to_owned());
    put_text(sensors, join2(prefix, "_identity_display").as_str(), " ".to_owned());
    put_text(sensors, join2(prefix, "_cpu_display").as_str(), " ".to_owned());
    put_text(sensors, join2(prefix, "_memory_display").as_str(), " ".to_owned());
    put_text(sensors, join2(prefix, "_display").as_str(), " ".to_owned());
}

fn write_identity(guest: &Json) -> (text: String)
    ensures
        text@ == identity_text(guest@),
{
    let id: String = decimal(read_unsigned(guest.field("vmid")) as u128);
    let name: &str = read_text(guest.field("name"), "unnamed");
    let shown: &str = if name.unicode_len() > 18 {
        name.substring_char(0, 18)
    } else {
        name
    };
    assert(shown@ =~= shown_name(guest@));
    join3(align_right(id.as_str(), 3).as_str(), "  ", shown)
}

fn write_cpu(guest: &Json) -> (caption: Caption)
    ensures
        caption@ == cpu_caption(guest@),
{
    let double_bits: u64 = read_double(guest.field("cpu"));
    Caption::of_text("CPU ".to_owned()).with_figure(
        Figure::Share { double_bits },
        1,
        4,
    ).with_text("%")
}

fn write_memory(guest: &Json) -> (caption: Caption)
    ensures
        caption@ == memory_caption(guest@),
{
    let used: u64 = read_unsigned(guest.field("mem"));
    let available: u64 = read_unsigned(guest.field("maxmem"));
    Caption::of_text("RAM ".to_owned()).with_figure(
        Figure::Gibibytes { bytes: used },
        1,
        4,
    ).with_text("/").with_figure(Figure::Gibibytes { bytes: available }, 1, 0).with_text("G")
}

fn add_filled_row(sensors: &mut Sensors, index: usize, guest: &Json)
    ensures
        final(sensors)@ == filled_row(old(sensors)@, index as nat, guest@),
{
    let row: String = write_row_key(index);
    let prefix: &str = row.as_str();
    let running = runs(guest);
    let identity: String = write_identity(guest);
    let cpu = write_cpu(guest);
    let memory = write_memory(guest);
    let dot: &str = if running {
        "●"
    } else {
        "○"
    };
    let front: String = join4(dot, "  ", align_left(identity.as_str(), 23).as_str(), "  ");
    let display = Caption::of_text(front).with_caption(&cpu).with_text("  ").with_caption(&memory);
    put_text(sensors, join2(prefix, "_online_dot").as_str(), online_dot(running).to_owned());
    put_text(sensors, join2(prefix, "_offline_dot").as_str(), offline_dot(running).to_owned());
    put_text(sensors, join2(prefix, "_identity_display").as_str(), identity);
    sensors.insert(join2(prefix, "_cpu_display"), cpu);
    sensors.insert(join2(prefix, "_memory_display"), memory);
    sensors.insert(join2(prefix, "_display"), display);
}

/// Adds how many guests there are and a row for each of the first five.
pub fn add_guest_counts(sensors: &mut Sensors, guests: &Json) -> (outcome: Result<
    (),
    SnapshotError,
>)
    ensures
        match outcome {
            Ok(()) => guest_outcome(old(sensors)@, guests@) == Ok::<SensorMap, SnapshotFault>(
                final(sensors)@,
            ),
            Err(error) => final(sensors)@ == old(sensors)@ && guest_outcome(
                old(sensors)@,
                guests@,
            ) == Err::<SensorMap, SnapshotFault>(error@),
        },
{
    let items: &Vec<Json> = match guests.as_list() {
        Some(items) => items,
        None => return Err(SnapshotError::NotAList(Section::Guests)),
    };
    let ghost all = trees(items@);
    add_counts(sensors, items);
    let ghost counted = sensors@;
    let rows: Vec<usize> = rank(items);
    proof {
        law_rows_are_ranked(all);
    }
    let mut index: usize = 0;
    while index < 5
        invariant
            index <= 5,
            all == trees(items@),
            places(rows@) == ranked(all),
            ranked(all).len() == all.len(),
            forall|i: int| 0 <= i < all.len() ==> 0 <= #[trigger] ranked(all)[i] < all.len(),
            sensors@ == row_sensors(counted, all, index as nat),
        decreases 5 - index,
    {
        if index < rows.len() {
            assert(places(rows@)[index as int] == rows@[index as int]);
            add_filled_row(sensors, index, &items[rows[index]]);
        } else {
            add_blank_row(sensors, index);
        }
        index += 1;
    }
    Ok(())
}

// ---------------------------------------------------------------------------------------------
// Laws of the values
// ---------------------------------------------------------------------------------------------
/// Each guest counts once: as running where its field `status` is the text `running`, as a
/// container where its field `type` is `lxc`, as a machine where it is `qemu`.
pub proof fn law_each_guest_counts_once(guests: Seq<JsonTree>, guest: JsonTree)
    ensures
        running_count(Seq::empty()) == 0,
        container_count(Seq::empty()) == 0,
        running_container_count(Seq::empty()) == 0,
        machine_count(Seq::empty()) == 0,
        running_machine_count(Seq::empty()) == 0,
        ({
            let running = guest.field("status"@) == JsonTree::Text("running"@);
            let lxc = guest.field("type"@) == JsonTree::Text("lxc"@);
            let qemu = guest.field("type"@) == JsonTree::Text("qemu"@);
            let more = guests.push(guest);
            &&& running_count(more) == running_count(guests) + if running {
                1nat
            } else {
                0
            }
            &&& container_count(more) == container_count(guests) + if lxc {
                1nat
            } else {
                0
            }
            &&& running_container_count(more) == running_container_count(guests) + if lxc && running {
                1nat
            } else {
                0
            }
            &&& machine_count(more) == machine_count(guests) + if qemu {
                1nat
            } else {
                0
            }
            &&& running_machine_count(more) == running_machine_count(guests) + if qemu && running {
                1nat
            } else {
                0
            }
        }),
{
    reveal(Seq::filter);
    assert(guests.push(guest).drop_last() =~= guests);
}

proof fn lemma_count_keys()
    ensures
        "pve_guests_total"@.len() == 16,
        "pve_guests_running"@.len() == 18,
        "pve_lxc_total"@.len() == 13,
        "pve_lxc_running"@.len() == 15,
        "pve_qemu_total"@.len() == 14,
        "pve_qemu_running"@.len() == 16,
        "pve_guests_online_dot"@.len() == 21,
        "pve_guests_offline_dot"@.len() == 22,
        "pve_guests_display"@.len() == 18,
        "pve_guest_list_title"@.len() == 20,
        "pve_guest_summary"@.len() == 17,
        "pve_guests_total"@ != "pve_qemu_running"@,
        "pve_guests_running"@ != "pve_guests_display"@,
{
    reveal_strlit("pve_guests_total");
    reveal_strlit("pve_guests_running");
    reveal_strlit("pve_lxc_total");
    reveal_strlit("pve_lxc_running");
    reveal_strlit("pve_qemu_total");
    reveal_strlit("pve_qemu_running");
    reveal_strlit("pve_guests_online_dot");
    reveal_strlit("pve_guests_offline_dot");
    reveal_strlit("pve_guests_display");
    reveal_strlit("pve_guest_list_title");
    reveal_strlit("pve_guest_summary");
    assert("pve_guests_total"@[4] != "pve_qemu_running"@[4]);
    assert("pve_guests_running"@[11] != "pve_guests_display"@[11]);
}

/// The counts are shown in decimal digits. The filled dot is shown where there are guests and every
/// one is running, the hollow one where some guest is not.
pub proof fn law_counts_are_shown(sensors: SensorMap, guests: Seq<JsonTree>)
    ensures
        ({
            let shown = count_sensors(sensors, guests);
            let total = decimal_text(guests.len());
            let running = decimal_text(running_count(guests));
            let lxc_total = decimal_text(container_count(guests));
            let lxc_running = decimal_text(running_container_count(guests));
            let qemu_total = decimal_text(machine_count(guests));
            let qemu_running = decimal_text(running_machine_count(guests));
            let every_one_runs = forall|i: int|
                0 <= i < guests.len() ==> (#[trigger] guests[i]).field("status"@) == JsonTree::Text(
                    "running"@,
                );
            &&& shown["pve_guests_total"@] == seq![PieceView::Text(total)]
            &&& shown["pve_guests_running"@] == seq![PieceView::Text(running)]
            &&& shown["pve_lxc_total"@] == seq![PieceView::Text(lxc_total)]
            &&& shown["pve_lxc_running"@] == seq![PieceView::Text(lxc_running)]
            &&& shown["pve_qemu_total"@] == seq![PieceView::Text(qemu_total)]
            &&& shown["pve_qemu_running"@] == seq![PieceView::Text(qemu_running)]
            &&& shown["pve_guests_online_dot"@] == seq![
                PieceView::Text(
                    if guests.len() > 0 && every_one_runs {
                        "●"@
                    } else {
                        " "@
                    },
                ),
            ]
            &&& shown["pve_guests_offline_dot"@] == seq![
                PieceView::Text(
                    if every_one_runs {
                        " "@
                    } else {
                        "○"@
                    },
                ),
            ]
            &&& shown["pve_guests_display"@] == seq![
                PieceView::Text("GUESTS  "@ + running + "/"@ + total),
            ]
            &&& shown["pve_guest_list_title"@] == seq![
                PieceView::Text("WORKLOADS  ·  "@ + running + "/"@ + total + " RUNNING"@),
            ]
            &&& shown["pve_guest_summary"@] == seq![
                PieceView::Text(
                    lxc_running + "/"@ + lxc_total + " LXC  ·  "@ + qemu_running + "/"@ + qemu_total
                        + " VM"@,
                ),
            ]
        }),
{
    lemma_count_keys();
    let shown = count_sensors(sensors, guests);
    let runs = |guest: JsonTree| is_running(guest);
    lemma_full_count(guests, runs);
    assert(forall|i: int|
        0 <= i < guests.len() ==> runs(guests[i]) == ((#[trigger] guests[i]).field("status"@)
            == JsonTree::Text("running"@)));
    let total = decimal_text(guests.len());
    let running = decimal_text(running_count(guests));
    let lxc_total = decimal_text(container_count(guests));
    let lxc_running = decimal_text(running_container_count(guests));
    let qemu_total = decimal_text(machine_count(guests));
    let qemu_running = decimal_text(running_machine_count(guests));
    assert(shown["pve_guests_total"@] == plain(total));
    assert(shown["pve_guests_running"@] == plain(running));
    assert(shown["pve_guests_online_dot"@] == plain(guests_online_dot(guests)));
    assert(shown["pve_guests_offline_dot"@] == plain(guests_offline_dot(guests)));
    assert("GUESTS  "@ + (running + "/"@ + total) =~= "GUESTS  "@ + running + "/"@ + total);
    assert("WORKLOADS  ·  "@ + (running + "/"@ + total) + " RUNNING"@ =~= "WORKLOADS  ·  "@ + running
        + "/"@ + total + " RUNNING"@);
    assert((lxc_running + "/"@ + lxc_total) + " LXC  ·  "@ + (qemu_running + "/"@ + qemu_total)
        + " VM"@ =~= lxc_running + "/"@ + lxc_total + " LXC  ·  "@ + qemu_running + "/"@ + qemu_total
        + " VM"@);
}

/// The memory text of a guest, whatever its type and state, shows its field `mem` and then its
/// field `maxmem`, both in GiB. What is shown of the one does not depend on the other, nor on any
/// other field.
pub proof fn law_memory_is_that_of_the_guest(guest: JsonTree, other: JsonTree)
    ensures
        memory_caption(guest) == seq![
            PieceView::Text("RAM "@),
            PieceView::Figure {
                figure: Figure::Gibibytes {
                    bytes: match guest.field("mem"@).as_unsigned() {
                        Some(bytes) => bytes,
                        None => 0,
                    },
                },
                decimals: 1,
                width: 4,
            },
            PieceView::Text("/"@),
            PieceView::Figure {
                figure: Figure::Gibibytes {
                    bytes: match guest.field("maxmem"@).as_unsigned() {
                        Some(bytes) => bytes,
                        None => 0,
                    },
                },
                decimals: 1,
                width: 0,
            },
            PieceView::Text("G"@),
        ],
        guest.field("mem"@) == other.field("mem"@) ==> memory_caption(guest)[1] == memory_caption(
            other,
        )[1],
        guest.field("maxmem"@) == other.field("maxmem"@) ==> memory_caption(guest)[3]
            == memory_caption(other)[3],
{
}

proof fn lemma_row_suffixes()
    ensures
        "pve_guest_"@.len() == 10,
        "_online_dot"@.len() == 11,
        "_offline_dot"@.len() == 12,
        "_identity_display"@.len() == 17,
        "_cpu_display"@.len() == 12,
        "_memory_display"@.len() == 15,
        "_display"@.len() == 8,
        "_offline_dot"@[1] == 'o',
        "_cpu_display"@[1] == 'c',
{
    reveal_strlit("pve_guest_");
    reveal_strlit("_online_dot");
    reveal_strlit("_offline_dot");
    reveal_strlit("_identity_display");
    reveal_strlit("_cpu_display");
    reveal_strlit("_memory_display");
    reveal_strlit("_display");
}

/// A key that is none of a row: it has another character where the row has its number.
spec fn is_beside_row(key: Seq<char>, index: nat) -> bool {
    key.len() <= 10 || key[10] != decimal_digit(index)
}

proof fn lemma_row_key(index: nat, suffix: Seq<char>)
    requires
        index < 10,
    ensures
        (row_key(index) + suffix).len() == 11 + suffix.len(),
        (row_key(index) + suffix)[10] == decimal_digit(index),
        forall|i: int|
            0 <= i < suffix.len() ==> (row_key(index) + suffix)[#[trigger] (i + 11)] == suffix[i],
{
    lemma_row_suffixes();
    assert(decimal_text(index) =~= seq![decimal_digit(index)]);
}

proof fn lemma_beside_row(sensors: SensorMap, index: nat, guest: JsonTree, key: Seq<char>)
    requires
        index < 10,
        is_beside_row(key, index),
    ensures
        filled_row(sensors, index, guest)[key] == sensors[key],
        filled_row(sensors, index, guest).contains_key(key) == sensors.contains_key(key),
        blank_row(sensors, index)[key] == sensors[key],
        blank_row(sensors, index).contains_key(key) == sensors.contains_key(key),
{
    lemma_row_suffixes();
    lemma_row_key(index, "_online_dot"@);
    lemma_row_key(index, "_offline_dot"@);
    lemma_row_key(index, "_identity_display"@);
    lemma_row_key(index, "_cpu_display"@);
    lemma_row_key(index, "_memory_display"@);
    lemma_row_key(index, "_display"@);
}

proof fn lemma_within_row(sensors: SensorMap, index: nat, guest: JsonTree)
    requires
        index < 10,
    ensures
        ({
            let row = filled_row(sensors, index, guest);
            let key = row_key(index);
            &&& row[key + "_online_dot"@] == plain(online_dot_text(is_running(guest)))
            &&& row[key + "_offline_dot"@] == plain(offline_dot_text(is_running(guest)))
            &&& row[key + "_identity_display"@] == plain(identity_text(guest))
            &&& row[key + "_cpu_display"@] == cpu_caption(guest)
            &&& row[key + "_memory_display"@] == memory_caption(guest)
            &&& row[key + "_display"@] == plain(
                row_dot(guest) + "  "@ + padded_right(identity_text(guest), 23) + "  "@,
            ) + cpu_caption(guest) + plain("  "@) + memory_caption(guest)
        }),
        ({
            let row = blank_row(sensors, index);
            let key = row_key(index);
            &&& row[key + "_online_dot"@] == plain(" "@)
            &&& row[key + "_offline_dot"@] == plain(" "@)
            &&& row[key + "_identity_display"@] == plain(" "@)
            &&& row[key + "_cpu_display"@] == plain(" "@)
            &&& row[key + "_memory_display"@] == plain(" "@)
            &&& row[key + "_display"@] == plain(" "@)
        }),
{
    lemma_row_suffixes();
    lemma_row_key(index, "_online_dot"@);
    lemma_row_key(index, "_offline_dot"@);
    lemma_row_key(index, "_identity_display"@);
    lemma_row_key(index, "_cpu_display"@);
    lemma_row_key(index, "_memory_display"@);
    lemma_row_key(index, "_display"@);
    let offline = row_key(index) + "_offline_dot"@;
    let cpu = row_key(index) + "_cpu_display"@;
    assert(offline[1int + 11] == 'o' && cpu[1int + 11] == 'c');
    assert(offline != cpu);
}

/// Rows leave alone what is beside them.
proof fn lemma_beside_rows(
    sensors: SensorMap,
    guests: Seq<JsonTree>,
    from: nat,
    rows: nat,
    key: Seq<char>,
)
    requires
        from <= rows <= 5,
        forall|index: nat| from <= index < rows ==> #[trigger] is_beside_row(key, index),
    ensures
        row_sensors(sensors, guests, rows)[key] == row_sensors(sensors, guests, from)[key],
        row_sensors(sensors, guests, rows).contains_key(key) == row_sensors(
            sensors,
            guests,
            from,
        ).contains_key(key),
    decreases rows,
{
    if from < rows {
        let index = (rows - 1) as nat;
        lemma_beside_rows(sensors, guests, from, index, key);
        assert(is_beside_row(key, index));
        lemma_beside_row(
            row_sensors(sensors, guests, index),
            index,
            guests[ranked(guests)[index as int]],
            key,
        );
    }
}

proof fn lemma_row_survives(
    sensors: SensorMap,
    guests: Seq<JsonTree>,
    row: nat,
    suffix: Seq<char>,
)
    requires
        row < 5,
    ensures
        row_sensors(sensors, guests, 5)[row_key(row) + suffix] == row_sensors(
            sensors,
            guests,
            row + 1,
        )[row_key(row) + suffix],
{
    lemma_row_key(row, suffix);
    let key = row_key(row) + suffix;
    assert forall|index: nat| row + 1 <= index < 5 implies #[trigger] is_beside_row(key, index) by {
        assert(decimal_digit(index) != decimal_digit(row));
    }
    lemma_beside_rows(sensors, guests, row + 1, 5, key);
}

/// Each of the first five guests in the order of the rows has a row with its dot, its number and
/// name, its processor share and its memory. The rows behind the last guest are blank.
pub proof fn law_rows_show_their_guests(sensors: SensorMap, guests: Seq<JsonTree>, row: nat)
    requires
        row < 5,
    ensures
        guest_outcome(sensors, JsonTree::List(guests)) is Ok,
        ({
            let shown = guest_outcome(sensors, JsonTree::List(guests))->Ok_0;
            let key = "pve_guest_"@ + decimal_text(row);
            let guest = guests[ranked(guests)[row as int]];
            let running = guest.field("status"@) == JsonTree::Text("running"@);
            let number = match guest.field("vmid"@).as_unsigned() {
                Some(number) => number,
                None => 0,
            };
            let name = match guest.field("name"@) {
                JsonTree::Text(name) => name,
                _ => "unnamed"@,
            };
            let identity = padded_left(decimal_text(number as nat), ' ', 3) + "  "@ + if name.len()
                > 18 {
                name.take(18)
            } else {
                name
            };
            let share = PieceView::Figure {
                figure: Figure::Share {
                    double_bits: match guest.field("cpu"@).as_double() {
                        Some(double_bits) => double_bits,
                        None => 0,
                    },
                },
                decimals: 1,
                width: 4,
            };
            let used = PieceView::Figure {
                figure: Figure::Gibibytes {
                    bytes: match guest.field("mem"@).as_unsigned() {
                        Some(bytes) => bytes,
                        None => 0,
                    },
                },
                decimals: 1,
                width: 4,
            };
            let available = PieceView::Figure {
                figure: Figure::Gibibytes {
                    bytes: match guest.field("maxmem"@).as_unsigned() {
                        Some(bytes) => bytes,
                        None => 0,
                    },
                },
                decimals: 1,
                width: 0,
            };
            if row < guests.len() {
                &&& shown[key + "_online_dot"@] == seq![
                    PieceView::Text(
                        if running {
                            "●"@
                        } else {
                            " "@
                        },
                    ),
                ]
                &&& shown[key + "_offline_dot"@] == seq![
                    PieceView::Text(
                        if running {
                            " "@
                        } else {
                            "○"@
                        },
                    ),
                ]
                &&& shown[key + "_identity_display"@] == seq![PieceView::Text(identity)]
                &&& shown[key + "_cpu_display"@] == seq![
                    PieceView::Text("CPU "@),
                    share,
                    PieceView::Text("%"@),
                ]
                &&& shown[key + "_memory_display"@] == seq![
                    PieceView::Text("RAM "@),
                    used,
                    PieceView::Text("/"@),
                    available,
                    PieceView::Text("G"@),
                ]
                &&& shown[key + "_display"@] == seq![
                    PieceView::Text(
                        (if running {
                            "●"@
                        } else {
                            "○"@
                        }) + "  "@ + padded_right(identity, 23) + "  "@,
                    ),
                    PieceView::Text("CPU "@),
                    share,
                    PieceView::Text("%"@),
                    PieceView::Text("  "@),
                    PieceView::Text("RAM "@),
                    used,
                    PieceView::Text("/"@),
                    available,
                    PieceView::Text("G"@),
                ]
            } else {
                &&& shown[key + "_online_dot"@] == seq![PieceView::Text(" "@)]
                &&& shown[key + "_offline_dot"@] == seq![PieceView::Text(" "@)]
                &&& shown[key + "_identity_display"@] == seq![PieceView::Text(" "@)]
                &&& shown[key + "_cpu_display"@] == seq![PieceView::Text(" "@)]
                &&& shown[key + "_memory_display"@] == seq![PieceView::Text(" "@)]
                &&& shown[key + "_display"@] == seq![PieceView::Text(" "@)]
            }
        }),
{
    let counted = count_sensors(sensors, guests);
    let guest = guests[ranked(guests)[row as int]];
    lemma_row_survives(counted, guests, row, "_online_dot"@);
    lemma_row_survives(counted, guests, row, "_offline_dot"@);
    lemma_row_survives(counted, guests, row, "_identity_display"@);
    lemma_row_survives(counted, guests, row, "_cpu_display"@);
    lemma_row_survives(counted, guests, row, "_memory_display"@);
    lemma_row_survives(counted, guests, row, "_display"@);
    lemma_within_row(row_sensors(counted, guests, row), row, guest);
    law_memory_is_that_of_the_guest(guest, guest);
    assert(guest_outcome(sensors, JsonTree::List(guests))->Ok_0 == row_sensors(counted, guests, 5));
}

/// The rows are ranked by the field `vmid`; a guest without such a number ranks as number zero.
/// Guests with the same number keep the order in which the host lists them.
pub proof fn law_rows_go_by_number(guests: Seq<JsonTree>, row: int, later: int)
    requires
        0 <= row < later < guests.len(),
    ensures
        ranked(guests).len() == guests.len(),
        0 <= ranked(guests)[row] < guests.len(),
        0 <= ranked(guests)[later] < guests.len(),
        ({
            let a = ranked(guests)[row];
            let b = ranked(guests)[later];
            let number_a = match guests[a].field("vmid"@).as_unsigned() {
                Some(number) => number as int,
                None => 0,
            };
            let number_b = match guests[b].field("vmid"@).as_unsigned() {
                Some(number) => number as int,
                None => 0,
            };
            number_a < number_b || (number_a == number_b && a < b)
        }),
{
    law_rows_are_ranked(guests);
}

/// The keys of the counts.
pub open spec fn count_keys() -> Seq<Seq<char>> {
    seq![
        "pve_guests_total"@,
        "pve_guests_running"@,
        "pve_lxc_total"@,
        "pve_lxc_running"@,
        "pve_qemu_total"@,
        "pve_qemu_running"@,
        "pve_guests_online_dot"@,
        "pve_guests_offline_dot"@,
        "pve_guests_display"@,
        "pve_guest_list_title"@,
        "pve_guest_summary"@,
    ]
}

/// There are five rows. They leave the counts alone, and nothing else is changed.
pub proof fn law_guests_change_their_own_sensors(
    sensors: SensorMap,
    guests: Seq<JsonTree>,
    key: Seq<char>,
)
    requires
        key.len() <= 10 || !('0' <= key[10] <= '4'),
    ensures
        ({
            let shown = guest_outcome(sensors, JsonTree::List(guests))->Ok_0;
            let counted = count_sensors(sensors, guests);
            &&& shown[key] == counted[key]
            &&& shown.contains_key(key) == counted.contains_key(key)
        }),
        !count_keys().contains(key) ==> {
            let counted = count_sensors(sensors, guests);
            &&& counted[key] == sensors[key]
            &&& counted.contains_key(key) == sensors.contains_key(key)
        },
{
    let own = count_keys();
    assert(own[0] == "pve_guests_total"@);
    assert(own[1] == "pve_guests_running"@);
    assert(own[2] == "pve_lxc_total"@);
    assert(own[3] == "pve_lxc_running"@);
    assert(own[4] == "pve_qemu_total"@);
    assert(own[5] == "pve_qemu_running"@);
    assert(own[6] == "pve_guests_online_dot"@);
    assert(own[7] == "pve_guests_offline_dot"@);
    assert(own[8] == "pve_guests_display"@);
    assert(own[9] == "pve_guest_list_title"@);
    assert(own[10] == "pve_guest_summary"@);
    let counted = count_sensors(sensors, guests);
    assert forall|index: nat| 0 <= index < 5 implies #[trigger] is_beside_row(key, index) by {}
    lemma_beside_rows(counted, guests, 0, 5, key);
}

/// Guests that are no list are refused.
pub proof fn law_guests_have_to_be_a_list(sensors: SensorMap, guests: JsonTree)
    requires
        guests !is List,
    ensures
        guest_outcome(sensors, guests) == Err::<SensorMap, SnapshotFault>(
            SnapshotFault::NotAList(Section::Guests),
        ),
{
}

} // verus!
