//! The storage that the display shows.

use crate::caption::{plain, Figure, PieceView};
use crate::json::{trees, Json, JsonTree};
use crate::pve::error::{Section, SnapshotError, SnapshotFault};
use crate::pve::fields::{
    equals_one, equals_text, first_where, integer, integer_outcome, is_one, is_text,
    lemma_first_where, lemma_found_where, percent, percent_caption, put_number, put_text, read_text,
    read_unsigned, text_or, unsigned_or_zero, usage, usage_caption, SensorMap,
};
use crate::sensors::Sensors;
use crate::text::decimal_text;
use vstd::prelude::*;

verus! {

/// Whether a storage is in service: both active and enabled.
pub open spec fn in_service(storage: JsonTree) -> bool {
    is_one(storage.field("active"@)) && is_one(storage.field("enabled"@))
}

/// The size by which storages are ranked.
pub open spec fn ranked_size(storage: JsonTree) -> u64 {
    unsigned_or_zero(storage.field("total"@))
}

/// Whether the storage at `position` is in service, none in service is larger, and none behind it
/// is as large.
pub open spec fn is_largest(storages: Seq<JsonTree>, position: int) -> bool {
    &&& 0 <= position < storages.len()
    &&& in_service(storages[position])
    &&& forall|i: int|
        0 <= i < storages.len() && in_service(#[trigger] storages[i]) ==> ranked_size(storages[i])
            < ranked_size(storages[position]) || (ranked_size(storages[i]) == ranked_size(
            storages[position],
        ) && i <= position)
}

/// The largest storage in service, the last one where several are as large.
pub open spec fn largest_in_service(storages: Seq<JsonTree>) -> Option<JsonTree> {
    if exists|i: int| is_largest(storages, i) {
        Some(storages[choose|i: int| is_largest(storages, i)])
    } else {
        None
    }
}

/// The storage to be shown: the preferred one, which has to be in service, or else the largest.
pub open spec fn shown_storage(
    storages: Seq<JsonTree>,
    preferred: Option<Seq<char>>,
) -> Result<JsonTree, SnapshotFault> {
    match preferred {
        Some(name) => match first_where(
            storages,
            |storage: JsonTree| in_service(storage) && is_text(storage.field("storage"@), name),
        ) {
            Some(storage) => Ok(storage),
            None => Err(SnapshotFault::InactiveStorage(name)),
        },
        None => match largest_in_service(storages) {
            Some(storage) => Ok(storage),
            None => Err(SnapshotFault::NoActiveStorage),
        },
    }
}

proof fn lemma_one_is_largest(storages: Seq<JsonTree>, position: int)
    requires
        0 <= position < storages.len(),
        in_service(storages[position]),
    ensures
        exists|i: int| is_largest(storages, i),
    decreases storages.len(),
{
    let rest = storages.drop_last();
    let last = storages.len() - 1;
    if exists|i: int| is_largest(rest, i) {
        let best = choose|i: int| is_largest(rest, i);
        assert(forall|i: int| 0 <= i < last ==> #[trigger] storages[i] == rest[i]);
        if in_service(storages[last]) && ranked_size(storages[last]) >= ranked_size(rest[best]) {
            assert(is_largest(storages, last));
        } else {
            assert(is_largest(storages, best));
        }
    } else if position < last {
        assert(rest[position] == storages[position]);
        lemma_one_is_largest(rest, position);
    } else {
        assert forall|i: int| 0 <= i < last implies !in_service(#[trigger] storages[i]) by {
            if in_service(storages[i]) {
                assert(rest[i] == storages[i]);
                lemma_one_is_largest(rest, i);
            }
        }
        assert(is_largest(storages, last));
    }
}

/// The storage that is shown is one of those in service: the preferred one where there is a
/// preference, else one that none in service exceeds. None is shown only where there is no such.
pub proof fn law_shown_storage(storages: Seq<JsonTree>, preferred: Option<Seq<char>>)
    ensures
        match shown_storage(storages, preferred) {
            Ok(storage) => storages.contains(storage) && in_service(storage) && match preferred {
                Some(name) => is_text(storage.field("storage"@), name),
                None => forall|i: int|
                    0 <= i < storages.len() && in_service(#[trigger] storages[i]) ==> ranked_size(
                        storages[i],
                    ) <= ranked_size(storage),
            },
            Err(_) => forall|i: int|
                0 <= i < storages.len() && in_service(#[trigger] storages[i]) ==> match preferred {
                    Some(name) => !is_text(storages[i].field("storage"@), name),
                    None => false,
                },
        },
{
    match preferred {
        Some(name) => {
            let condition = |storage: JsonTree|
                in_service(storage) && is_text(storage.field("storage"@), name);
            lemma_found_where(storages, condition);
            assert(forall|i: int|
                0 <= i < storages.len() ==> condition(storages[i]) == (in_service(
                    #[trigger] storages[i],
                ) && is_text(storages[i].field("storage"@), name)));
        },
        None => {
            if exists|i: int| 0 <= i < storages.len() && in_service(#[trigger] storages[i]) {
                let position = choose|i: int|
                    0 <= i < storages.len() && in_service(#[trigger] storages[i]);
                lemma_one_is_largest(storages, position);
                let best = choose|i: int| is_largest(storages, i);
                assert(storages.contains(storages[best]));
            }
        },
    }
}

/// The sensors with the storage that is shown.
pub open spec fn storage_outcome(
    sensors: SensorMap,
    storages: JsonTree,
    preferred: Option<Seq<char>>,
) -> Result<SensorMap, SnapshotFault> {
    match storages.as_list() {
        None => Err(SnapshotFault::NotAList(Section::Storage)),
        Some(items) => match shown_storage(items, preferred) {
            Err(fault) => Err(fault),
            Ok(storage) => {
                let name = text_or(storage.field("storage"@), "storage"@);
                match integer_outcome(storage.field("used"@), "storage.used"@) {
                    Err(fault) => Err(fault),
                    Ok(used) => match integer_outcome(storage.field("total"@), "storage.total"@) {
                        Err(fault) => Err(fault),
                        Ok(total) => Ok(
                            sensors.insert("pve_storage_name"@, plain(name)).insert(
                                "pve_storage_used_bytes"@,
                                plain(decimal_text(used as nat)),
                            ).insert(
                                "pve_storage_total_bytes"@,
                                plain(decimal_text(total as nat)),
                            ).insert(
                                "pve_storage_percent"@,
                                percent_caption(used, total),
                            ).insert(
                                "pve_storage_display"@,
                                usage_caption(name, used, total),
                            ),
                        ),
                    },
                }
            },
        },
    }
}

/// The view of an optional text.
pub open spec fn optional_text(text: Option<&str>) -> Option<Seq<char>> {
    match text {
        Some(text) => Some(text@),
        None => None,
    }
}

fn serves(storage: &Json) -> (serving: bool)
    ensures
        serving == in_service(storage@),
{
    equals_one(storage.field("active")) && equals_one(storage.field("enabled"))
}

fn find_preferred<'a>(storages: &'a Vec<Json>, name: &str) -> (found: Result<
    &'a Json,
    SnapshotError,
>)
    ensures
        match found {
            Ok(storage) => shown_storage(trees(storages@), Some(name@)) == Ok::<
                JsonTree,
                SnapshotFault,
            >(storage@),
            Err(error) => shown_storage(trees(storages@), Some(name@)) == Err::<
                JsonTree,
                SnapshotFault,
            >(error@),
        },
{
    let ghost all = trees(storages@);
    let ghost condition = |storage: JsonTree|
        in_service(storage) && is_text(storage.field("storage"@), name@);
    let mut i: usize = 0;
    while i < storages.len()
        invariant
            i <= storages@.len(),
            all == trees(storages@),
            condition == (|storage: JsonTree|
                in_service(storage) && is_text(storage.field("storage"@), name@)),
            forall|j: int| 0 <= j < i ==> !condition(#[trigger] all[j]),
        decreases storages@.len() - i,
    {
        if serves(&storages[i]) && equals_text(storages[i].field("storage"), name) {
            proof {
                lemma_first_where(all, condition, i as int);
            }
            return Ok(&storages[i]);
        }
        i += 1;
    }
    proof {
        lemma_first_where(all, condition, i as int);
    }
    Err(SnapshotError::InactiveStorage(name.to_owned()))
}

fn find_largest<'a>(storages: &'a Vec<Json>) -> (found: Result<&'a Json, SnapshotError>)
    ensures
        match found {
            Ok(storage) => shown_storage(trees(storages@), None) == Ok::<JsonTree, SnapshotFault>(
                storage@,
            ),
            Err(error) => shown_storage(trees(storages@), None) == Err::<JsonTree, SnapshotFault>(
                error@,
            ),
        },
{
    let ghost all = trees(storages@);
    let mut best: Option<usize> = None;
    let mut i: usize = 0;
    while i < storages.len()
        invariant
            i <= storages@.len(),
            all == trees(storages@),
            match best {
                Some(best) => best < i && is_largest(all.take(i as int), best as int),
                None => forall|j: int| 0 <= j < i ==> !in_service(#[trigger] all[j]),
            },
        decreases storages@.len() - i,
    {
        let ghost before = all.take(i as int);
        let ghost after = all.take(i as int + 1);
        assert(forall|j: int| 0 <= j < i ==> #[trigger] after[j] == before[j]);
        assert(after[i as int] == all[i as int]);
        if serves(&storages[i]) {
            let size: u64 = read_unsigned(storages[i].field("total"));
            let better = match best {
                Some(best) => size >= read_unsigned(storages[best].field("total")),
                None => true,
            };
            if better {
                proof {
                    if let Some(best) = best {
                        assert(before[best as int] == all[best as int]);
                    }
                    assert(is_largest(after, i as int)) by {
                        assert forall|j: int|
                            0 <= j < after.len() && in_service(#[trigger] after[j]) implies (
                        ranked_size(after[j]) < ranked_size(after[i as int]) || (ranked_size(
                            after[j],
                        ) == ranked_size(after[i as int]) && j <= i)) by {
                            if j < i {
                                assert(after[j] == before[j]);
                                assert(before[j] == all[j]);
                            }
                        }
                    }
                }
                best = Some(i);
            } else {
                proof {
                    let chosen = best->0 as int;
                    assert(before[chosen] == all[chosen]);
                    assert(after[chosen] == all[chosen]);
                    assert(is_largest(after, chosen));
                }
            }
        } else {
            proof {
                if let Some(chosen) = best {
                    assert(is_largest(after, chosen as int));
                }
            }
        }
        i += 1;
    }
    assert(all.take(i as int) =~= all);
    match best {
        Some(best) => {
            proof {
                let chosen = choose|j: int| is_largest(all, j);
                assert(is_largest(all, best as int));
                assert(is_largest(all, chosen));
                assert(in_service(all[chosen]) && in_service(all[best as int]));
            }
            Ok(&storages[best])
        },
        None => Err(SnapshotError::NoActiveStorage),
    }
}

/// Adds the storage to be shown.
pub fn add_storage(sensors: &mut Sensors, storages: &Json, preferred: Option<&str>) -> (outcome:
    Result<(), SnapshotError>)
    ensures
        match outcome {
            Ok(()) => storage_outcome(old(sensors)@, storages@, optional_text(preferred)) == Ok::<
                SensorMap,
                SnapshotFault,
            >(final(sensors)@),
            Err(error) => final(sensors)@ == old(sensors)@ && storage_outcome(
                old(sensors)@,
                storages@,
                optional_text(preferred),
            ) == Err::<SensorMap, SnapshotFault>(error@),
        },
{
    let items: &Vec<Json> = match storages.as_list() {
        Some(items) => items,
        None => return Err(SnapshotError::NotAList(Section::Storage)),
    };
    let found = match preferred {
        Some(name) => find_preferred(items, name),
        None => find_largest(items),
    };
    let storage: &Json = match found {
        Ok(storage) => storage,
        Err(error) => return Err(error),
    };
    let name: &str = read_text(storage.field("storage"), "storage");
    let used: u64 = match integer(storage.field("used"), "storage.used") {
        Ok(used) => used,
        Err(error) => return Err(error),
    };
    let total: u64 = match integer(storage.field("total"), "storage.total") {
        Ok(total) => total,
        Err(error) => return Err(error),
    };
    put_text(sensors, "pve_storage_name", name.to_owned());
    put_number(sensors, "pve_storage_used_bytes", used);
    put_number(sensors, "pve_storage_total_bytes", total);
    sensors.insert("pve_storage_percent".to_owned(), percent(used, total));
    sensors.insert("pve_storage_display".to_owned(), usage(name, used, total));
    Ok(())
}

// ---------------------------------------------------------------------------------------------
// Laws of the values
// ---------------------------------------------------------------------------------------------
/// Whether a storage is both active and enabled.
pub open spec fn is_serving(storage: JsonTree) -> bool {
    storage.field("active"@).as_unsigned() == Some(1u64) && storage.field("enabled"@).as_unsigned()
        == Some(1u64)
}

/// Whether the storage at a position is to be shown. Where one is preferred, that is the first one
/// in service with the name. Else it is the largest one in service by the field `total`, and of
/// several that are as large the last one.
pub open spec fn is_chosen(
    storages: Seq<JsonTree>,
    preferred: Option<Seq<char>>,
    position: int,
) -> bool {
    &&& 0 <= position < storages.len()
    &&& is_serving(storages[position])
    &&& match preferred {
        Some(name) => {
            &&& storages[position].field("storage"@) == JsonTree::Text(name)
            &&& forall|i: int|
                0 <= i < position && is_serving(#[trigger] storages[i]) ==> storages[i].field(
                    "storage"@,
                ) != JsonTree::Text(name)
        },
        None => forall|i: int|
            0 <= i < storages.len() && is_serving(#[trigger] storages[i]) ==> {
                let size = match storages[i].field("total"@).as_unsigned() {
                    Some(total) => total as int,
                    None => 0,
                };
                let largest = match storages[position].field("total"@).as_unsigned() {
                    Some(total) => total as int,
                    None => 0,
                };
                size < largest || (size == largest && i <= position)
            },
    }
}

proof fn lemma_chosen(storages: Seq<JsonTree>, preferred: Option<Seq<char>>, position: int)
    requires
        is_chosen(storages, preferred, position),
    ensures
        shown_storage(storages, preferred) == Ok::<JsonTree, SnapshotFault>(storages[position]),
{
    assert(forall|i: int|
        0 <= i < storages.len() ==> in_service(storages[i]) == is_serving(#[trigger] storages[i]));
    match preferred {
        Some(name) => {
            let condition = |storage: JsonTree|
                in_service(storage) && is_text(storage.field("storage"@), name);
            assert(forall|i: int|
                0 <= i < storages.len() ==> condition(storages[i]) == (is_serving(
                    #[trigger] storages[i],
                ) && storages[i].field("storage"@) == JsonTree::Text(name)));
            lemma_first_where(storages, condition, position);
        },
        None => {
            assert(is_largest(storages, position));
            let best = choose|i: int| is_largest(storages, i);
            assert(is_largest(storages, best));
            assert(best == position);
        },
    }
}

/// The storage that is shown has its name, its usage in bytes, in percent and in GiB shown, all
/// from its own fields. Its fields `used` and `total` have to be unsigned integers.
pub proof fn law_storage_is_shown(
    sensors: SensorMap,
    storages: Seq<JsonTree>,
    preferred: Option<Seq<char>>,
    position: int,
)
    requires
        is_chosen(storages, preferred, position),
    ensures
        ({
            let storage = storages[position];
            let outcome = storage_outcome(sensors, JsonTree::List(storages), preferred);
            let name = match storage.field("storage"@) {
                JsonTree::Text(name) => name,
                _ => "storage"@,
            };
            match (storage.field("used"@).as_unsigned(), storage.field("total"@).as_unsigned()) {
                (None, _) => outcome == Err::<SensorMap, SnapshotFault>(
                    SnapshotFault::NotUnsigned("storage.used"@),
                ),
                (Some(_), None) => outcome == Err::<SensorMap, SnapshotFault>(
                    SnapshotFault::NotUnsigned("storage.total"@),
                ),
                (Some(used), Some(total)) => {
                    let shown = outcome->Ok_0;
                    &&& outcome is Ok
                    &&& shown["pve_storage_name"@] == seq![PieceView::Text(name)]
                    &&& shown["pve_storage_used_bytes"@] == seq![
                        PieceView::Text(decimal_text(used as nat)),
                    ]
                    &&& shown["pve_storage_total_bytes"@] == seq![
                        PieceView::Text(decimal_text(total as nat)),
                    ]
                    &&& shown["pve_storage_percent"@] == seq![
                        if total == 0 {
                            PieceView::Text("0.0"@)
                        } else {
                            PieceView::Figure {
                                figure: Figure::Percent { used, total },
                                decimals: 1,
                                width: 0,
                            }
                        },
                    ]
                    &&& shown["pve_storage_display"@] == seq![
                        PieceView::Text(name + "  "@),
                        PieceView::Figure {
                            figure: Figure::Gibibytes { bytes: used },
                            decimals: 1,
                            width: 0,
                        },
                        PieceView::Text("/"@),
                        PieceView::Figure {
                            figure: Figure::Gibibytes { bytes: total },
                            decimals: 1,
                            width: 0,
                        },
                        PieceView::Text(" GiB"@),
                    ]
                },
            }
        }),
{
    lemma_chosen(storages, preferred, position);
    reveal_strlit("pve_storage_name");
    reveal_strlit("pve_storage_used_bytes");
    reveal_strlit("pve_storage_total_bytes");
    reveal_strlit("pve_storage_percent");
    reveal_strlit("pve_storage_display");
    assert("pve_storage_name"@.len() == 16);
    assert("pve_storage_used_bytes"@.len() == 22);
    assert("pve_storage_total_bytes"@.len() == 23);
    assert("pve_storage_percent"@.len() == 19);
    assert("pve_storage_display"@.len() == 19);
    assert("pve_storage_percent"@[12] != "pve_storage_display"@[12]);
}

/// Without a storage to be shown there are no sensors.
pub proof fn law_without_storage_there_is_a_fault(
    sensors: SensorMap,
    storages: JsonTree,
    preferred: Option<Seq<char>>,
)
    ensures
        storages !is List ==> storage_outcome(sensors, storages, preferred) == Err::<
            SensorMap,
            SnapshotFault,
        >(SnapshotFault::NotAList(Section::Storage)),
        storages matches JsonTree::List(items) ==> (forall|i: int|
            0 <= i < items.len() && is_serving(#[trigger] items[i]) ==> match preferred {
                Some(name) => items[i].field("storage"@) != JsonTree::Text(name),
                None => false,
            }) ==> storage_outcome(sensors, storages, preferred) == Err::<
            SensorMap,
            SnapshotFault,
        >(
            match preferred {
                Some(name) => SnapshotFault::InactiveStorage(name),
                None => SnapshotFault::NoActiveStorage,
            },
        ),
{
    if let JsonTree::List(items) = storages {
        law_shown_storage(items, preferred);
        assert(forall|i: int|
            0 <= i < items.len() ==> in_service(items[i]) == is_serving(#[trigger] items[i]));
        if forall|i: int|
            0 <= i < items.len() && is_serving(#[trigger] items[i]) ==> match preferred {
                Some(name) => items[i].field("storage"@) != JsonTree::Text(name),
                None => false,
            } {
            if let Ok(storage) = shown_storage(items, preferred) {
                let i = choose|i: int| 0 <= i < items.len() && items[i] == storage;
                assert(is_serving(items[i]));
            }
        }
    }
}

/// The keys of what is shown of the storage.
pub open spec fn storage_keys() -> Seq<Seq<char>> {
    seq![
        "pve_storage_name"@,
        "pve_storage_used_bytes"@,
        "pve_storage_total_bytes"@,
        "pve_storage_percent"@,
        "pve_storage_display"@,
    ]
}

/// Nothing but what is shown of the storage is changed.
pub proof fn law_storage_changes_its_own_sensors(
    sensors: SensorMap,
    storages: JsonTree,
    preferred: Option<Seq<char>>,
    key: Seq<char>,
)
    requires
        storage_outcome(sensors, storages, preferred) is Ok,
        !storage_keys().contains(key),
    ensures
        storage_outcome(sensors, storages, preferred)->Ok_0[key] == sensors[key],
        storage_outcome(sensors, storages, preferred)->Ok_0.contains_key(key)
            == sensors.contains_key(key),
{
    let own = storage_keys();
    assert(own[0] == "pve_storage_name"@);
    assert(own[1] == "pve_storage_used_bytes"@);
    assert(own[2] == "pve_storage_total_bytes"@);
    assert(own[3] == "pve_storage_percent"@);
    assert(own[4] == "pve_storage_display"@);
}

/// A name that is given is the one that is preferred.
pub proof fn law_given_name_is_preferred(name: &str)
    ensures
        optional_text(Some(name)) == Some(name@),
        optional_text(None) is None,
{
}

} // verus!
