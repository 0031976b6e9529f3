//! Fields of a report and the texts and figures that they are shown as.

use crate::caption::{lone_figure, plain, Caption, Figure, PieceView};
use crate::json::{Json, JsonTree};
use crate::pve::error::{SnapshotError, SnapshotFault};
use crate::sensors::Sensors;
use crate::text::{
    decimal, decimal_text, join3, join4, text_equal, two_digit_text, two_digits,
};
use vstd::prelude::*;

verus! {

/// Captions by key.
pub type SensorMap = Map<Seq<char>, Seq<PieceView>>;

// ---------------------------------------------------------------------------------------------
// Reading fields
// ---------------------------------------------------------------------------------------------
/// The text of a value, or `default` where it is no text.
pub open spec fn text_or(value: JsonTree, default: Seq<char>) -> Seq<char> {
    match value.as_text() {
        Some(text) => text,
        None => default,
    }
}

/// Whether a value is a certain text.
pub open spec fn is_text(value: JsonTree, text: Seq<char>) -> bool {
    value.as_text() == Some(text)
}

/// Whether a value is the number one, as the host writes a set flag.
pub open spec fn is_one(value: JsonTree) -> bool {
    value.as_unsigned() == Some(1u64)
}

/// The value of an unsigned integer, or zero where a value is none.
pub open spec fn unsigned_or_zero(value: JsonTree) -> u64 {
    match value.as_unsigned() {
        Some(number) => number,
        None => 0,
    }
}

/// The bits of a number in double precision, or those of zero where a value is no number.
pub open spec fn double_or_zero(value: JsonTree) -> u64 {
    match value.as_double() {
        Some(double_bits) => double_bits,
        None => 0,
    }
}

/// The text of a value, or `default` where it is no text.
pub fn read_text<'a>(value: &'a Json, default: &'a str) -> (text: &'a str)
    ensures
        text@ == text_or(value@, default@),
{
    match value.as_text() {
        Some(text) => text,
        None => default,
    }
}

/// Whether a value is a certain text.
pub fn equals_text(value: &Json, text: &str) -> (equal: bool)
    ensures
        equal == is_text(value@, text@),
{
    match value.as_text() {
        Some(own) => text_equal(own, text),
        None => false,
    }
}

/// Whether a value is the number one.
pub fn equals_one(value: &Json) -> (one: bool)
    ensures
        one == is_one(value@),
{
    match value.as_unsigned() {
        Some(number) => number == 1,
        None => false,
    }
}

/// The value of an unsigned integer, or zero.
pub fn read_unsigned(value: &Json) -> (number: u64)
    ensures
        number == unsigned_or_zero(value@),
{
    match value.as_unsigned() {
        Some(number) => number,
        None => 0,
    }
}

/// The bits of a number in double precision, or those of zero.
pub fn read_double(value: &Json) -> (double_bits: u64)
    ensures
        double_bits == double_or_zero(value@),
{
    match value.as_double() {
        Some(double_bits) => double_bits,
        None => 0,
    }
}

/// The number under a name that has to be one, by its bits in double precision.
pub open spec fn number_outcome(value: JsonTree, name: Seq<char>) -> Result<u64, SnapshotFault> {
    match value.as_double() {
        Some(double_bits) => Ok(double_bits),
        None => Err(SnapshotFault::NotANumber(name)),
    }
}

/// The unsigned integer under a name that has to be one.
pub open spec fn integer_outcome(value: JsonTree, name: Seq<char>) -> Result<u64, SnapshotFault> {
    match value.as_unsigned() {
        Some(number) => Ok(number),
        None => Err(SnapshotFault::NotUnsigned(name)),
    }
}

/// Reads a number that has to be there.
pub fn number(value: &Json, name: &str) -> (outcome: Result<u64, SnapshotError>)
    ensures
        match outcome {
            Ok(double_bits) => number_outcome(value@, name@) == Ok::<u64, SnapshotFault>(
                double_bits,
            ),
            Err(error) => number_outcome(value@, name@) == Err::<u64, SnapshotFault>(error@),
        },
{
    match value.as_double() {
        Some(double_bits) => Ok(double_bits),
        None => Err(SnapshotError::NotANumber(name.to_owned())),
    }
}

/// Reads an unsigned integer that has to be there.
pub fn integer(value: &Json, name: &str) -> (outcome: Result<u64, SnapshotError>)
    ensures
        match outcome {
            Ok(number) => integer_outcome(value@, name@) == Ok::<u64, SnapshotFault>(number),
            Err(error) => integer_outcome(value@, name@) == Err::<u64, SnapshotFault>(error@),
        },
{
    match value.as_unsigned() {
        Some(number) => Ok(number),
        None => Err(SnapshotError::NotUnsigned(name.to_owned())),
    }
}

/// The first item that meets a condition.
pub open spec fn first_where(
    items: Seq<JsonTree>,
    condition: spec_fn(JsonTree) -> bool,
) -> Option<JsonTree>
    decreases items.len(),
{
    if items.len() == 0 {
        None
    } else if condition(items[0]) {
        Some(items[0])
    } else {
        first_where(items.skip(1), condition)
    }
}

/// Items before a position that all miss a condition can be left out of the search.
pub proof fn lemma_first_where(
    items: Seq<JsonTree>,
    condition: spec_fn(JsonTree) -> bool,
    position: int,
)
    requires
        0 <= position <= items.len(),
        forall|i: int| 0 <= i < position ==> !condition(#[trigger] items[i]),
    ensures
        position < items.len() && condition(items[position]) ==> first_where(items, condition)
            == Some(items[position]),
        position == items.len() ==> first_where(items, condition) is None,
    decreases items.len(),
{
    if items.len() > 0 && position > 0 {
        assert(!condition(items[0]));
        assert forall|i: int| 0 <= i < position - 1 implies !condition(
            #[trigger] items.skip(1)[i],
        ) by {
            assert(items.skip(1)[i] == items[i + 1]);
        }
        lemma_first_where(items.skip(1), condition, position - 1);
    }
}

/// What is found is one of the items and meets the condition; where nothing is found, no item does.
pub proof fn lemma_found_where(items: Seq<JsonTree>, condition: spec_fn(JsonTree) -> bool)
    ensures
        match first_where(items, condition) {
            Some(item) => items.contains(item) && condition(item),
            None => forall|i: int| 0 <= i < items.len() ==> !condition(#[trigger] items[i]),
        },
    decreases items.len(),
{
    if items.len() > 0 && !condition(items[0]) {
        let rest = items.skip(1);
        lemma_found_where(rest, condition);
        match first_where(rest, condition) {
            Some(item) => {
                let i = choose|i: int| 0 <= i < rest.len() && rest[i] == item;
                assert(items[i + 1] == item);
            },
            None => {
                assert forall|i: int| 0 <= i < items.len() implies !condition(
                    #[trigger] items[i],
                ) by {
                    if i > 0 {
                        assert(!condition(rest[i - 1]));
                    }
                }
            },
        }
    } else if items.len() > 0 {
        assert(items.contains(items[0]));
    }
}

// ---------------------------------------------------------------------------------------------
// Showing values
// ---------------------------------------------------------------------------------------------
/// Puts a plain text under a key.
pub fn put_text(sensors: &mut Sensors, key: &str, text: String)
    ensures
        final(sensors)@ == old(sensors)@.insert(key@, plain(text@)),
{
    sensors.insert(key.to_owned(), Caption::of_text(text));
}

/// Puts a number under a key.
pub fn put_number(sensors: &mut Sensors, key: &str, value: u64)
    ensures
        final(sensors)@ == old(sensors)@.insert(key@, plain(decimal_text(value as nat))),
{
    put_text(sensors, key, decimal(value as u128));
}

/// The text of the dot that is shown for what is online.
pub open spec fn online_dot_text(online: bool) -> Seq<char> {
    if online {
        "●"@
    } else {
        " "@
    }
}

/// The text of the dot that is shown for what is offline.
pub open spec fn offline_dot_text(online: bool) -> Seq<char> {
    if online {
        " "@
    } else {
        "○"@
    }
}

/// A filled dot for what is online, a space otherwise.
pub fn online_dot(online: bool) -> (dot: &'static str)
    ensures
        dot@ == online_dot_text(online),
{
    if online {
        "●"
    } else {
        " "
    }
}

/// A hollow dot for what is offline, a space otherwise.
pub fn offline_dot(online: bool) -> (dot: &'static str)
    ensures
        dot@ == offline_dot_text(online),
{
    if online {
        " "
    } else {
        "○"
    }
}

/// Exactly one of the two dots is shown, the filled one for what is online.
pub proof fn law_one_dot_is_shown(online: bool)
    ensures
        online_dot_text(online) == seq!['●'] <==> online,
        offline_dot_text(online) == seq!['○'] <==> !online,
        online_dot_text(online) == seq![' '] <==> !online,
        offline_dot_text(online) == seq![' '] <==> online,
{
    reveal_strlit("●");
    reveal_strlit("○");
    reveal_strlit(" ");
    assert("●"@ =~= seq!['●']);
    assert("○"@ =~= seq!['○']);
    assert(" "@ =~= seq![' ']);
    assert(seq!['●'][0] != seq![' '][0]);
    assert(seq!['○'][0] != seq![' '][0]);
}

/// How many percent `used` is of `total`, with one decimal; nothing is in use of nothing.
pub open spec fn percent_caption(used: u64, total: u64) -> Seq<PieceView> {
    if total == 0 {
        plain("0.0"@)
    } else {
        lone_figure(Figure::Percent { used, total }, 1, 0)
    }
}

/// How many percent `used` is of `total`, with one decimal.
pub fn percent(used: u64, total: u64) -> (caption: Caption)
    ensures
        caption@ == percent_caption(used, total),
{
    if total == 0 {
        Caption::of_text("0.0".to_owned())
    } else {
        let caption = Caption::empty().with_figure(Figure::Percent { used, total }, 1, 0);
        assert(caption@ =~= percent_caption(used, total));
        caption
    }
}

/// A name with the used and the total GiB behind it.
pub open spec fn usage_caption(name: Seq<char>, used: u64, total: u64) -> Seq<PieceView> {
    plain(name + "  "@) + lone_figure(Figure::Gibibytes { bytes: used }, 1, 0) + plain("/"@)
        + lone_figure(Figure::Gibibytes { bytes: total }, 1, 0) + plain(" GiB"@)
}

/// A name with the used and the total GiB behind it.
pub fn usage(name: &str, used: u64, total: u64) -> (caption: Caption)
    ensures
        caption@ == usage_caption(name@, used, total),
{
    Caption::of_text(crate::text::join2(name, "  ")).with_figure(
        Figure::Gibibytes { bytes: used },
        1,
        0,
    ).with_text("/").with_figure(Figure::Gibibytes { bytes: total }, 1, 0).with_text(" GiB")
}

/// How long the node has been up: days and hours, or hours and minutes on the first day.
pub open spec fn uptime_text(seconds: u64) -> Seq<char> {
    let days = seconds as nat / 86_400;
    let hours = seconds as nat % 86_400 / 3_600;
    let minutes = seconds as nat % 3_600 / 60;
    if days > 0 {
        decimal_text(days) + "d "@ + two_digit_text(hours) + "h"@
    } else {
        two_digit_text(hours) + "h "@ + two_digit_text(minutes) + "m"@
    }
}

/// Writes how long the node has been up.
pub fn format_uptime(seconds: u64) -> (text: String)
    ensures
        text@ == uptime_text(seconds),
{
    let days: u64 = seconds / 86_400;
    let hours: u64 = seconds % 86_400 / 3_600;
    let minutes: u64 = seconds % 3_600 / 60;
    if days > 0 {
        join4(decimal(days as u128).as_str(), "d ", two_digits(hours).as_str(), "h")
    } else {
        join4(two_digits(hours).as_str(), "h ", two_digits(minutes).as_str(), "m")
    }
}

// ---------------------------------------------------------------------------------------------
// Memory and file systems
// ---------------------------------------------------------------------------------------------
/// The sensors with the usage of what `key` names, read from `value`.
pub open spec fn usage_outcome(
    sensors: SensorMap,
    key: Seq<char>,
    display_name: Seq<char>,
    value: JsonTree,
) -> Result<SensorMap, SnapshotFault> {
    match integer_outcome(value.field("used"@), "status."@ + key + ".used"@) {
        Err(fault) => Err(fault),
        Ok(used) => match integer_outcome(value.field("total"@), "status."@ + key + ".total"@) {
            Err(fault) => Err(fault),
            Ok(total) => Ok(
                sensors.insert(
                    "pve_"@ + key + "_used_bytes"@,
                    plain(decimal_text(used as nat)),
                ).insert(
                    "pve_"@ + key + "_total_bytes"@,
                    plain(decimal_text(total as nat)),
                ).insert("pve_"@ + key + "_percent"@, percent_caption(used, total)).insert(
                    "pve_"@ + key + "_display"@,
                    usage_caption(display_name, used, total),
                ),
            ),
        },
    }
}

/// Adds the usage of the memory or of a file system.
pub fn add_usage(sensors: &mut Sensors, key: &str, display_name: &str, value: &Json) -> (outcome:
    Result<(), SnapshotError>)
    ensures
        match outcome {
            Ok(()) => usage_outcome(old(sensors)@, key@, display_name@, value@) == Ok::<
                SensorMap,
                SnapshotFault,
            >(final(sensors)@),
            Err(error) => final(sensors)@ == old(sensors)@ && usage_outcome(
                old(sensors)@,
                key@,
                display_name@,
                value@,
            ) == Err::<SensorMap, SnapshotFault>(error@),
        },
{
    let used: u64 = match integer(value.field("used"), join3("status.", key, ".used").as_str()) {
        Ok(used) => used,
        Err(error) => return Err(error),
    };
    let total: u64 = match integer(value.field("total"), join3("status.", key, ".total").as_str()) {
        Ok(total) => total,
        Err(error) => return Err(error),
    };
    put_number(sensors, join3("pve_", key, "_used_bytes").as_str(), used);
    put_number(sensors, join3("pve_", key, "_total_bytes").as_str(), total);
    sensors.insert(join3("pve_", key, "_percent"), percent(used, total));
    sensors.insert(join3("pve_", key, "_display"), usage(display_name, used, total));
    Ok(())
}

// ---------------------------------------------------------------------------------------------
// Laws
// ---------------------------------------------------------------------------------------------
/// A field is read as what it is. Where it is something else, what is there in its place does not
/// depend on it.
pub proof fn law_fields_are_read(value: JsonTree, text: Seq<char>, name: Seq<char>)
    ensures
        text_or(value, text) == match value {
            JsonTree::Text(own) => own,
            _ => text,
        },
        is_text(value, text) <==> value == JsonTree::Text(text),
        is_one(value) <==> (value is Number && value->Number_unsigned == Some(1u64)),
        value matches JsonTree::Number { unsigned: Some(number), .. } ==> unsigned_or_zero(value)
            == number && integer_outcome(value, name) == Ok::<u64, SnapshotFault>(number),
        !(value is Number && value->Number_unsigned is Some) ==> unsigned_or_zero(value) == 0
            && integer_outcome(value, name) == Err::<u64, SnapshotFault>(
            SnapshotFault::NotUnsigned(name),
        ),
        value matches JsonTree::Number { double_bits: Some(bits), .. } ==> double_or_zero(value)
            == bits && number_outcome(value, name) == Ok::<u64, SnapshotFault>(bits),
        !(value is Number && value->Number_double_bits is Some) ==> double_or_zero(value) == 0
            && number_outcome(value, name) == Err::<u64, SnapshotFault>(
            SnapshotFault::NotANumber(name),
        ),
{
}

/// A time is shown in days and hours, or on the first day in hours and minutes; what is left over
/// of the last unit does not show.
pub proof fn law_uptime_is_shown_in_two_units(
    seconds: u64,
    days: nat,
    hours: nat,
    minutes: nat,
    rest: nat,
)
    requires
        seconds == 86_400 * days + 3_600 * hours + 60 * minutes + rest,
        hours < 24,
        minutes < 60,
        rest < 60,
    ensures
        days > 0 ==> uptime_text(seconds) == decimal_text(days) + "d "@ + two_digit_text(hours)
            + "h"@,
        days == 0 ==> uptime_text(seconds) == two_digit_text(hours) + "h "@ + two_digit_text(minutes)
            + "m"@,
{
    let total = seconds as nat;
    let in_day = 3_600 * hours + 60 * minutes + rest;
    assert(total / 86_400 == days && total % 86_400 == in_day);
    assert(in_day / 3_600 == hours);
    assert(total % 3_600 == 60 * minutes + rest);
    assert((60 * minutes + rest) / 60 == minutes);
}

/// What is in use is shown in percent of all, and in GiB beside it. Nothing is in use of nothing.
pub proof fn law_usage_is_shown(name: Seq<char>, used: u64, total: u64)
    ensures
        percent_caption(used, total) == seq![
            if total == 0 {
                PieceView::Text("0.0"@)
            } else {
                PieceView::Figure { figure: Figure::Percent { used, total }, decimals: 1, width: 0 }
            },
        ],
        usage_caption(name, used, total) == seq![
            PieceView::Text(name + "  "@),
            PieceView::Figure { figure: Figure::Gibibytes { bytes: used }, decimals: 1, width: 0 },
            PieceView::Text("/"@),
            PieceView::Figure { figure: Figure::Gibibytes { bytes: total }, decimals: 1, width: 0 },
            PieceView::Text(" GiB"@),
        ],
{
}

} // verus!
