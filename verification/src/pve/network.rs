//! The network interfaces of the node.

use crate::caption::{plain, Caption, PieceView};
use crate::json::{trees, Json, JsonTree};
use crate::pve::error::{Section, SnapshotError, SnapshotFault};
use crate::pve::fields::{
    equals_one, equals_text, first_where, is_one, is_text, lemma_first_where, offline_dot,
    offline_dot_text, online_dot, online_dot_text, put_text, read_text, text_or, SensorMap,
};
use crate::sensors::Sensors;
use crate::text::{
    join2, join3, join5, lemma_text_order_is_total, sort_texts, text_le, text_order, text_views,
};
use vstd::prelude::*;

verus! {

/// Whether an interface is up.
pub open spec fn is_up(interface: JsonTree) -> bool {
    is_one(interface.field("active"@))
}

/// The word for whether an interface is up.
pub open spec fn link_word(up: bool) -> Seq<char> {
    if up {
        "UP"@
    } else {
        "DOWN"@
    }
}

/// Whether an interface leads to a gateway and has an address.
pub open spec fn leads_out(interface: JsonTree) -> bool {
    interface.field("gateway"@).as_text() is Some && interface.field("address"@).as_text() is Some
}

/// The first interface with a name.
pub open spec fn interface_named(interfaces: Seq<JsonTree>, name: Seq<char>) -> Option<JsonTree> {
    first_where(interfaces, |interface: JsonTree| is_text(interface.field("iface"@), name))
}

/// The primary interface: the first one that leads out, or else the default bridge.
pub open spec fn primary_interface(interfaces: Seq<JsonTree>) -> Option<JsonTree> {
    match first_where(interfaces, |interface: JsonTree| leads_out(interface)) {
        Some(interface) => Some(interface),
        None => interface_named(interfaces, "vmbr0"@),
    }
}

/// The address that is shown for an interface.
pub open spec fn shown_address(interface: JsonTree) -> Seq<char> {
    match interface.field("cidr"@).as_text() {
        Some(cidr) => cidr,
        None => text_or(interface.field("address"@), "no-ip"@),
    }
}

/// Whether the interface with a name is there and up.
pub open spec fn named_is_up(interfaces: Seq<JsonTree>, name: Seq<char>) -> bool {
    match interface_named(interfaces, name) {
        Some(interface) => is_up(interface),
        None => false,
    }
}

/// The sensors with the dots and the label of one link.
pub open spec fn link_sensors(
    sensors: SensorMap,
    interfaces: Seq<JsonTree>,
    name: Seq<char>,
) -> SensorMap {
    let online = named_is_up(interfaces, name);
    sensors.insert("pve_"@ + name + "_online_dot"@, plain(online_dot_text(online))).insert(
        "pve_"@ + name + "_offline_dot"@,
        plain(offline_dot_text(online)),
    ).insert("pve_"@ + name + "_label"@, plain(name))
}

/// The state of a link: that of an Ethernet interface that exists.
pub open spec fn link_state(interface: JsonTree) -> Option<Seq<char>> {
    match interface.field("iface"@).as_text() {
        Some(name) => if is_text(interface.field("type"@), "eth"@) && is_one(
            interface.field("exists"@),
        ) {
            Some(name + " "@ + link_word(is_up(interface)))
        } else {
            None
        },
        None => None,
    }
}

/// The states of the links, in the order of the interfaces.
pub open spec fn link_states(interfaces: Seq<JsonTree>) -> Seq<Seq<char>> {
    interfaces.filter_map(|interface: JsonTree| link_state(interface))
}

/// The states of the links that are shown: the first three in dictionary order.
pub open spec fn shown_links(interfaces: Seq<JsonTree>) -> Seq<Seq<char>> {
    let sorted = link_states(interfaces).sort_by(text_order());
    if sorted.len() > 3 {
        sorted.take(3)
    } else {
        sorted
    }
}

/// A text with further ones behind it, set apart by dots.
pub open spec fn dotted(text: Seq<char>, others: Seq<Seq<char>>) -> Seq<char>
    decreases others.len(),
{
    if others.len() == 0 {
        text
    } else {
        dotted(text, others.drop_last()) + " · "@ + others.last()
    }
}

/// The line about the network.
pub open spec fn network_line(interfaces: Seq<JsonTree>, primary: JsonTree) -> Seq<char> {
    dotted(
        text_or(primary.field("iface"@), "network"@) + " "@ + link_word(is_up(primary)) + " · "@
            + shown_address(primary),
        shown_links(interfaces),
    )
}

/// The version that the sensors hold already.
pub open spec fn known_version(sensors: SensorMap) -> Seq<PieceView> {
    if sensors.contains_key("pve_version_display"@) {
        sensors["pve_version_display"@]
    } else {
        plain("PVE"@)
    }
}

/// The sensors with the network added to them.
pub open spec fn network_sensors(
    sensors: SensorMap,
    interfaces: Seq<JsonTree>,
    primary: JsonTree,
) -> SensorMap {
    let iface = text_or(primary.field("iface"@), "network"@);
    let address = shown_address(primary);
    let first = sensors.insert("pve_network_iface"@, plain(iface)).insert(
        "pve_network_status"@,
        plain(link_word(is_up(primary))),
    ).insert("pve_ip"@, plain(address)).insert(
        "pve_network_online_dot"@,
        plain(online_dot_text(is_up(primary))),
    ).insert("pve_network_offline_dot"@, plain(offline_dot_text(is_up(primary)))).insert(
        "pve_network_label"@,
        plain(iface + "  "@ + address),
    );
    let links = link_sensors(
        link_sensors(link_sensors(first, interfaces, "nic0"@), interfaces, "nic1"@),
        interfaces,
        "wlp4s0"@,
    );
    let line = network_line(interfaces, primary);
    let named = links.insert("pve_network_display"@, plain(line));
    named.insert("pve_status_display"@, known_version(named) + plain("  ·  "@ + line))
}

/// The sensors with the network, or why it cannot be shown.
pub open spec fn network_outcome(sensors: SensorMap, network: JsonTree) -> Result<
    SensorMap,
    SnapshotFault,
> {
    match network.as_list() {
        None => Err(SnapshotFault::NotAList(Section::Network)),
        Some(interfaces) => match primary_interface(interfaces) {
            None => Err(SnapshotFault::NoPrimaryInterface),
            Some(primary) => Ok(network_sensors(sensors, interfaces, primary)),
        },
    }
}

/// Whether an interface is up.
pub fn interface_is_up(interface: &Json) -> (up: bool)
    ensures
        up == is_up(interface@),
{
    equals_one(interface.field("active"))
}

fn up_word(up: bool) -> (word: &'static str)
    ensures
        word@ == link_word(up),
{
    if up {
        "UP"
    } else {
        "DOWN"
    }
}

fn find_outward<'a>(interfaces: &'a Vec<Json>) -> (found: Option<&'a Json>)
    ensures
        match found {
            Some(interface) => first_where(
                trees(interfaces@),
                |interface: JsonTree| leads_out(interface),
            ) == Some(interface@),
            None => first_where(
                trees(interfaces@),
                |interface: JsonTree| leads_out(interface),
            ) is None,
        },
{
    let ghost all = trees(interfaces@);
    let ghost condition = |interface: JsonTree| leads_out(interface);
    let mut i: usize = 0;
    while i < interfaces.len()
        invariant
            i <= interfaces@.len(),
            all == trees(interfaces@),
            condition == (|interface: JsonTree| leads_out(interface)),
            forall|j: int| 0 <= j < i ==> !condition(#[trigger] all[j]),
        decreases interfaces@.len() - i,
    {
        if interfaces[i].field("gateway").as_text().is_some() && interfaces[i].field(
            "address",
        ).as_text().is_some() {
            proof {
                lemma_first_where(all, condition, i as int);
            }
            return Some(&interfaces[i]);
        }
        i += 1;
    }
    proof {
        lemma_first_where(all, condition, i as int);
    }
    None
}

fn find_named<'a>(interfaces: &'a Vec<Json>, name: &str) -> (found: Option<&'a Json>)
    ensures
        match found {
            Some(interface) => interface_named(trees(interfaces@), name@) == Some(interface@),
            None => interface_named(trees(interfaces@), name@) is None,
        },
{
    let ghost all = trees(interfaces@);
    let ghost condition = |interface: JsonTree| is_text(interface.field("iface"@), name@);
    let mut i: usize = 0;
    while i < interfaces.len()
        invariant
            i <= interfaces@.len(),
            all == trees(interfaces@),
            condition == (|interface: JsonTree| is_text(interface.field("iface"@), name@)),
            forall|j: int| 0 <= j < i ==> !condition(#[trigger] all[j]),
        decreases interfaces@.len() - i,
    {
        if equals_text(interfaces[i].field("iface"), name) {
            proof {
                lemma_first_where(all, condition, i as int);
            }
            return Some(&interfaces[i]);
        }
        i += 1;
    }
    proof {
        lemma_first_where(all, condition, i as int);
    }
    None
}

fn add_link(sensors: &mut Sensors, interfaces: &Vec<Json>, name: &str)
    ensures
        final(sensors)@ == link_sensors(old(sensors)@, trees(interfaces@), name@),
{
    let online = match find_named(interfaces, name) {
        Some(interface) => interface_is_up(interface),
        None => false,
    };
    put_text(sensors, join3("pve_", name, "_online_dot").as_str(), online_dot(online).to_owned());
    put_text(sensors, join3("pve_", name, "_offline_dot").as_str(), offline_dot(online).to_owned());
    put_text(sensors, join3("pve_", name, "_label").as_str(), name.to_owned());
}

fn collect_links(interfaces: &Vec<Json>) -> (links: Vec<String>)
    ensures
        text_views(links@) == link_states(trees(interfaces@)),
{
    let ghost all = trees(interfaces@);
    let ghost state = |interface: JsonTree| link_state(interface);
    let mut links: Vec<String> = Vec::new();
    let mut i: usize = 0;
    assert(all.take(0).filter_map(state) =~= text_views(links@));
    while i < interfaces.len()
        invariant
            i <= interfaces@.len(),
            all == trees(interfaces@),
            state == (|interface: JsonTree| link_state(interface)),
            text_views(links@) == all.take(i as int).filter_map(state),
        decreases interfaces@.len() - i,
    {
        let interface: &Json = &interfaces[i];
        let ghost before = links@;
        proof {
            all.lemma_filter_map_take_succ(state, i as int);
            assert(all[i as int] == interface@);
        }
        if let Some(name) = interface.field("iface").as_text() {
            if equals_text(interface.field("type"), "eth") && equals_one(
                interface.field("exists"),
            ) {
                links.push(join3(name, " ", up_word(interface_is_up(interface))));
                assert(text_views(links@) =~= text_views(before) + seq![links@.last()@]);
            }
        }
        assert(text_views(links@) =~= all.take(i as int + 1).filter_map(state));
        i += 1;
    }
    assert(all.take(i as int) =~= all);
    links
}

fn append_links(text: String, links: &Vec<String>) -> (line: String)
    ensures
        line@ == dotted(text@, text_views(links@)),
{
    let ghost all = text_views(links@);
    let mut line: String = text.clone();
    let mut i: usize = 0;
    while i < links.len()
        invariant
            i <= links@.len(),
            all == text_views(links@),
            line@ == dotted(text@, all.take(i as int)),
        decreases links@.len() - i,
    {
        proof {
            assert(all.take(i as int + 1).drop_last() =~= all.take(i as int));
            assert(all.take(i as int + 1).last() == links@[i as int]@);
        }
        line.append(" · ");
        line.append(links[i].as_str());
        i += 1;
    }
    assert(all.take(i as int) =~= all);
    line
}

/// Adds the primary interface and the links.
pub fn add_network(sensors: &mut Sensors, network: &Json) -> (outcome: Result<(), SnapshotError>)
    ensures
        match outcome {
            Ok(()) => network_outcome(old(sensors)@, network@) == Ok::<SensorMap, SnapshotFault>(
                final(sensors)@,
            ),
            Err(error) => final(sensors)@ == old(sensors)@ && network_outcome(
                old(sensors)@,
                network@,
            ) == Err::<SensorMap, SnapshotFault>(error@),
        },
{
    let interfaces: &Vec<Json> = match network.as_list() {
        Some(interfaces) => interfaces,
        None => return Err(SnapshotError::NotAList(Section::Network)),
    };
    let found = match find_outward(interfaces) {
        Some(interface) => Some(interface),
        None => find_named(interfaces, "vmbr0"),
    };
    let primary: &Json = match found {
        Some(interface) => interface,
        None => return Err(SnapshotError::NoPrimaryInterface),
    };

    let iface: &str = read_text(primary.field("iface"), "network");
    let address: &str = match primary.field("cidr").as_text() {
        Some(cidr) => cidr,
        None => read_text(primary.field("address"), "no-ip"),
    };
    let up = interface_is_up(primary);
    let status: &str = up_word(up);
    put_text(sensors, "pve_network_iface", iface.to_owned());
    put_text(sensors, "pve_network_status", status.to_owned());
    put_text(sensors, "pve_ip", address.to_owned());
    put_text(sensors, "pve_network_online_dot", online_dot(up).to_owned());
    put_text(sensors, "pve_network_offline_dot", offline_dot(up).to_owned());
    put_text(sensors, "pve_network_label", join3(iface, "  ", address));

    add_link(sensors, interfaces, "nic0");
    add_link(sensors, interfaces, "nic1");
    add_link(sensors, interfaces, "wlp4s0");

    let mut links: Vec<String> = sort_texts(collect_links(interfaces));
    links.truncate(3);
    assert(text_views(links@) =~= shown_links(trees(interfaces@)));

    let line: String = append_links(join5(iface, " ", status, " · ", address), &links);
    put_text(sensors, "pve_network_display", line.clone());
    let version: Caption = match sensors.get("pve_version_display") {
        Some(caption) => caption.copy(),
        None => Caption::of_text("PVE".to_owned()),
    };
    sensors.insert(
        "pve_status_display".to_owned(),
        version.with_text(join2("  ·  ", line.as_str()).as_str()),
    );
    Ok(())
}

// ---------------------------------------------------------------------------------------------
// Laws
// ---------------------------------------------------------------------------------------------
/// Whether an interface has both a gateway and an address.
pub open spec fn has_way_out(interface: JsonTree) -> bool {
    interface.field("gateway"@) is Text && interface.field("address"@) is Text
}

/// Whether the interface at a position is the first one with a way out, or, where none has one, the
/// first one that is called `vmbr0`.
pub open spec fn is_primary(interfaces: Seq<JsonTree>, position: int) -> bool {
    &&& 0 <= position < interfaces.len()
    &&& {
        ||| {
            &&& has_way_out(interfaces[position])
            &&& forall|i: int| 0 <= i < position ==> !has_way_out(#[trigger] interfaces[i])
        }
        ||| {
            &&& forall|i: int| 0 <= i < interfaces.len() ==> !has_way_out(#[trigger] interfaces[i])
            &&& is_first_named(interfaces, "vmbr0"@, position)
        }
    }
}

/// Whether the interface at a position is the first one with a name.
pub open spec fn is_first_named(
    interfaces: Seq<JsonTree>,
    name: Seq<char>,
    position: int,
) -> bool {
    &&& 0 <= position < interfaces.len()
    &&& interfaces[position].field("iface"@) == JsonTree::Text(name)
    &&& forall|i: int|
        0 <= i < position ==> (#[trigger] interfaces[i]).field("iface"@) != JsonTree::Text(name)
}

/// Whether no interface has a name.
pub open spec fn is_unnamed(interfaces: Seq<JsonTree>, name: Seq<char>) -> bool {
    forall|i: int|
        0 <= i < interfaces.len() ==> (#[trigger] interfaces[i]).field("iface"@) != JsonTree::Text(
            name,
        )
}

proof fn lemma_primary(interfaces: Seq<JsonTree>, position: int)
    requires
        is_primary(interfaces, position),
    ensures
        primary_interface(interfaces) == Some(interfaces[position]),
{
    let out = |interface: JsonTree| leads_out(interface);
    assert(forall|i: int|
        0 <= i < interfaces.len() ==> out(interfaces[i]) == has_way_out(#[trigger] interfaces[i]));
    if has_way_out(interfaces[position]) {
        lemma_first_where(interfaces, out, position);
    } else {
        lemma_first_where(interfaces, out, interfaces.len() as int);
        lemma_named(interfaces, "vmbr0"@, position);
    }
}

proof fn lemma_named(interfaces: Seq<JsonTree>, name: Seq<char>, position: int)
    ensures
        is_first_named(interfaces, name, position) ==> interface_named(interfaces, name) == Some(
            interfaces[position],
        ),
        is_unnamed(interfaces, name) ==> interface_named(interfaces, name) is None,
{
    let condition = |interface: JsonTree| is_text(interface.field("iface"@), name);
    assert(forall|i: int|
        0 <= i < interfaces.len() ==> condition(interfaces[i]) == ((
        #[trigger] interfaces[i]).field("iface"@) == JsonTree::Text(name)));
    if is_first_named(interfaces, name, position) {
        lemma_first_where(interfaces, condition, position);
    }
    if is_unnamed(interfaces, name) {
        lemma_first_where(interfaces, condition, interfaces.len() as int);
    }
}

pub proof fn lemma_network_keys()
    ensures
        "pve_"@ + "nic0"@ + "_online_dot"@ == "pve_nic0_online_dot"@,
        "pve_"@ + "nic0"@ + "_offline_dot"@ == "pve_nic0_offline_dot"@,
        "pve_"@ + "nic0"@ + "_label"@ == "pve_nic0_label"@,
        "pve_"@ + "nic1"@ + "_online_dot"@ == "pve_nic1_online_dot"@,
        "pve_"@ + "nic1"@ + "_offline_dot"@ == "pve_nic1_offline_dot"@,
        "pve_"@ + "nic1"@ + "_label"@ == "pve_nic1_label"@,
        "pve_"@ + "wlp4s0"@ + "_online_dot"@ == "pve_wlp4s0_online_dot"@,
        "pve_"@ + "wlp4s0"@ + "_offline_dot"@ == "pve_wlp4s0_offline_dot"@,
        "pve_"@ + "wlp4s0"@ + "_label"@ == "pve_wlp4s0_label"@,
        "pve_network_iface"@ != "pve_network_label"@,
        "pve_network_status"@ != "pve_status_display"@,
        "pve_network_online_dot"@ != "pve_wlp4s0_offline_dot"@,
        "pve_nic0_online_dot"@ != "pve_nic1_online_dot"@,
        "pve_nic0_online_dot"@ != "pve_network_display"@,
        "pve_nic0_online_dot"@ != "pve_version_display"@,
        "pve_nic0_offline_dot"@ != "pve_nic1_offline_dot"@,
        "pve_nic0_label"@ != "pve_nic1_label"@,
        "pve_nic1_online_dot"@ != "pve_network_display"@,
        "pve_nic1_online_dot"@ != "pve_version_display"@,
        "pve_network_display"@ != "pve_version_display"@,
        "pve_network_iface"@.len() == 17,
        "pve_network_status"@.len() == 18,
        "pve_ip"@.len() == 6,
        "pve_network_online_dot"@.len() == 22,
        "pve_network_offline_dot"@.len() == 23,
        "pve_network_label"@.len() == 17,
        "pve_nic0_online_dot"@.len() == 19,
        "pve_nic0_offline_dot"@.len() == 20,
        "pve_nic0_label"@.len() == 14,
        "pve_nic1_online_dot"@.len() == 19,
        "pve_nic1_offline_dot"@.len() == 20,
        "pve_nic1_label"@.len() == 14,
        "pve_wlp4s0_online_dot"@.len() == 21,
        "pve_wlp4s0_offline_dot"@.len() == 22,
        "pve_wlp4s0_label"@.len() == 16,
        "pve_network_display"@.len() == 19,
        "pve_status_display"@.len() == 18,
        "pve_version_display"@.len() == 19,
{
    reveal_strlit("pve_");
    reveal_strlit("nic0");
    reveal_strlit("nic1");
    reveal_strlit("wlp4s0");
    reveal_strlit("_online_dot");
    reveal_strlit("_offline_dot");
    reveal_strlit("_label");
    reveal_strlit("pve_network_iface");
    reveal_strlit("pve_network_status");
    reveal_strlit("pve_ip");
    reveal_strlit("pve_network_online_dot");
    reveal_strlit("pve_network_offline_dot");
    reveal_strlit("pve_network_label");
    reveal_strlit("pve_nic0_online_dot");
    reveal_strlit("pve_nic0_offline_dot");
    reveal_strlit("pve_nic0_label");
    reveal_strlit("pve_nic1_online_dot");
    reveal_strlit("pve_nic1_offline_dot");
    reveal_strlit("pve_nic1_label");
    reveal_strlit("pve_wlp4s0_online_dot");
    reveal_strlit("pve_wlp4s0_offline_dot");
    reveal_strlit("pve_wlp4s0_label");
    reveal_strlit("pve_network_display");
    reveal_strlit("pve_status_display");
    reveal_strlit("pve_version_display");
    assert("pve_network_iface"@[12] != "pve_network_label"@[12]);
    assert("pve_network_status"@[4] != "pve_status_display"@[4]);
    assert("pve_network_online_dot"@[4] != "pve_wlp4s0_offline_dot"@[4]);
    assert("pve_nic0_online_dot"@[7] != "pve_nic1_online_dot"@[7]);
    assert("pve_nic0_online_dot"@[5] != "pve_network_display"@[5]);
    assert("pve_nic0_online_dot"@[4] != "pve_version_display"@[4]);
    assert("pve_nic0_offline_dot"@[7] != "pve_nic1_offline_dot"@[7]);
    assert("pve_nic0_label"@[7] != "pve_nic1_label"@[7]);
    assert("pve_nic1_online_dot"@[5] != "pve_network_display"@[5]);
    assert("pve_nic1_online_dot"@[4] != "pve_version_display"@[4]);
    assert("pve_network_display"@[4] != "pve_version_display"@[4]);
    assert("pve_"@ + "nic0"@ + "_online_dot"@ =~= "pve_nic0_online_dot"@);
    assert("pve_"@ + "nic0"@ + "_offline_dot"@ =~= "pve_nic0_offline_dot"@);
    assert("pve_"@ + "nic0"@ + "_label"@ =~= "pve_nic0_label"@);
    assert("pve_"@ + "nic1"@ + "_online_dot"@ =~= "pve_nic1_online_dot"@);
    assert("pve_"@ + "nic1"@ + "_offline_dot"@ =~= "pve_nic1_offline_dot"@);
    assert("pve_"@ + "nic1"@ + "_label"@ =~= "pve_nic1_label"@);
    assert("pve_"@ + "wlp4s0"@ + "_online_dot"@ =~= "pve_wlp4s0_online_dot"@);
    assert("pve_"@ + "wlp4s0"@ + "_offline_dot"@ =~= "pve_wlp4s0_offline_dot"@);
    assert("pve_"@ + "wlp4s0"@ + "_label"@ =~= "pve_wlp4s0_label"@);
}

/// The network is shown by its primary interface. It counts as up exactly where its field `active`
/// is the unsigned number one, whatever other fields it has: only then it is called UP and has the
/// filled dot. Its address is the field `cidr`, else the field `address`.
pub proof fn law_network_shows_the_primary_interface(
    sensors: SensorMap,
    interfaces: Seq<JsonTree>,
    position: int,
)
    requires
        is_primary(interfaces, position),
    ensures
        network_outcome(sensors, JsonTree::List(interfaces)) is Ok,
        ({
            let shown = network_outcome(sensors, JsonTree::List(interfaces))->Ok_0;
            let primary = interfaces[position];
            let up = primary.field("active"@).as_unsigned() == Some(1u64);
            let word = if up {
                "UP"@
            } else {
                "DOWN"@
            };
            let iface = match primary.field("iface"@) {
                JsonTree::Text(name) => name,
                _ => "network"@,
            };
            let address = match (primary.field("cidr"@), primary.field("address"@)) {
                (JsonTree::Text(cidr), _) => cidr,
                (_, JsonTree::Text(address)) => address,
                _ => "no-ip"@,
            };
            let line = dotted(
                iface + " "@ + word + " · "@ + address,
                shown_links(interfaces),
            );
            let version = if sensors.contains_key("pve_version_display"@) {
                sensors["pve_version_display"@]
            } else {
                seq![PieceView::Text("PVE"@)]
            };
            &&& shown["pve_network_status"@] == seq![PieceView::Text(word)]
            &&& shown["pve_network_online_dot"@] == seq![
                PieceView::Text(if up { "●"@ } else { " "@ }),
            ]
            &&& shown["pve_network_offline_dot"@] == seq![
                PieceView::Text(if up { " "@ } else { "○"@ }),
            ]
            &&& shown["pve_network_iface"@] == seq![PieceView::Text(iface)]
            &&& shown["pve_ip"@] == seq![PieceView::Text(address)]
            &&& shown["pve_network_label"@] == seq![PieceView::Text(iface + "  "@ + address)]
            &&& shown["pve_network_display"@] == seq![PieceView::Text(line)]
            &&& shown["pve_status_display"@] == version + seq![PieceView::Text("  ·  "@ + line)]
        }),
{
    lemma_primary(interfaces, position);
    lemma_network_keys();
    let primary = interfaces[position];
    let shown = network_sensors(sensors, interfaces, primary);
    assert(network_outcome(sensors, JsonTree::List(interfaces)) == Ok::<SensorMap, SnapshotFault>(
        shown,
    ));
    assert(shown["pve_network_status"@] == plain(link_word(is_up(primary))));
    assert(shown["pve_network_online_dot"@] == plain(online_dot_text(is_up(primary))));
    assert(shown["pve_network_offline_dot"@] == plain(offline_dot_text(is_up(primary))));
    assert(shown["pve_network_iface"@] == plain(text_or(primary.field("iface"@), "network"@)));
    assert(shown["pve_ip"@] == plain(shown_address(primary)));
}

/// Each of the three links has a label, and the filled dot exactly where the first interface with
/// its name is there and its field `active` is the unsigned number one; else it has the hollow dot.
pub proof fn law_links_show_their_interfaces(
    sensors: SensorMap,
    interfaces: Seq<JsonTree>,
    name: Seq<char>,
    position: int,
)
    requires
        network_outcome(sensors, JsonTree::List(interfaces)) is Ok,
        name == "nic0"@ || name == "nic1"@ || name == "wlp4s0"@,
        is_first_named(interfaces, name, position) || is_unnamed(interfaces, name),
    ensures
        ({
            let shown = network_outcome(sensors, JsonTree::List(interfaces))->Ok_0;
            let up = is_first_named(interfaces, name, position) && interfaces[position].field(
                "active"@,
            ).as_unsigned() == Some(1u64);
            &&& shown["pve_"@ + name + "_online_dot"@] == seq![
                PieceView::Text(if up { "●"@ } else { " "@ }),
            ]
            &&& shown["pve_"@ + name + "_offline_dot"@] == seq![
                PieceView::Text(if up { " "@ } else { "○"@ }),
            ]
            &&& shown["pve_"@ + name + "_label"@] == seq![PieceView::Text(name)]
        }),
{
    lemma_named(interfaces, name, position);
    lemma_network_keys();
    let primary = primary_interface(interfaces)->0;
    let shown = network_sensors(sensors, interfaces, primary);
    assert(network_outcome(sensors, JsonTree::List(interfaces)) == Ok::<SensorMap, SnapshotFault>(
        shown,
    ));
    let up = named_is_up(interfaces, name);
    assert(shown["pve_"@ + name + "_online_dot"@] == plain(online_dot_text(up)));
    assert(shown["pve_"@ + name + "_offline_dot"@] == plain(offline_dot_text(up)));
    assert(shown["pve_"@ + name + "_label"@] == plain(name));
}

/// A network that is no list, or that has no primary interface, is refused.
pub proof fn law_network_without_primary_interface_is_refused(sensors: SensorMap, network: JsonTree)
    ensures
        network !is List ==> network_outcome(sensors, network) == Err::<SensorMap, SnapshotFault>(
            SnapshotFault::NotAList(Section::Network),
        ),
        network matches JsonTree::List(interfaces) ==> is_unnamed(interfaces, "vmbr0"@) && (forall|
            i: int,
        |
            0 <= i < interfaces.len() ==> !has_way_out(#[trigger] interfaces[i])) ==> network_outcome(
            sensors,
            network,
        ) == Err::<SensorMap, SnapshotFault>(SnapshotFault::NoPrimaryInterface),
{
    if let JsonTree::List(interfaces) = network {
        if is_unnamed(interfaces, "vmbr0"@) && (forall|i: int|
            0 <= i < interfaces.len() ==> !has_way_out(#[trigger] interfaces[i])) {
            let out = |interface: JsonTree| leads_out(interface);
            lemma_first_where(interfaces, out, interfaces.len() as int);
            lemma_named(interfaces, "vmbr0"@, 0);
        }
    }
}

/// The links are the Ethernet interfaces that exist and have a name, in the order of the
/// interfaces. Each is called by its name, and UP exactly where its field `active` is the unsigned
/// number one.
pub proof fn law_links_are_existing_ethernet(interfaces: Seq<JsonTree>, interface: JsonTree)
    ensures
        link_states(Seq::empty()) == Seq::<Seq<char>>::empty(),
        link_states(interfaces.push(interface)) == link_states(interfaces) + match interface.field(
            "iface"@,
        ) {
            JsonTree::Text(name) => if interface.field("type"@) == JsonTree::Text("eth"@)
                && interface.field("exists"@).as_unsigned() == Some(1u64) {
                if interface.field("active"@).as_unsigned() == Some(1u64) {
                    seq![name + " UP"@]
                } else {
                    seq![name + " DOWN"@]
                }
            } else {
                seq![]
            },
            _ => seq![],
        },
{
    let state = |interface: JsonTree| link_state(interface);
    let all = interfaces.push(interface);
    let none = Seq::<JsonTree>::empty();
    assert(none.filter_map(state) =~= Seq::<Seq<char>>::empty());
    all.lemma_filter_map_take_succ(state, interfaces.len() as int);
    assert(all.take(interfaces.len() as int) =~= interfaces);
    assert(all.take(interfaces.len() as int + 1) =~= all);
    reveal_strlit(" ");
    reveal_strlit("UP");
    reveal_strlit("DOWN");
    reveal_strlit(" UP");
    reveal_strlit(" DOWN");
    if let JsonTree::Text(name) = interface.field("iface"@) {
        assert(name + " "@ + "UP"@ =~= name + " UP"@);
        assert(name + " "@ + "DOWN"@ =~= name + " DOWN"@);
    }
}

/// At most three links are shown, in dictionary order, and none that is left out stands before one
/// that is shown.
pub proof fn law_first_links_are_shown(interfaces: Seq<JsonTree>)
    ensures
        shown_links(interfaces).len() == if link_states(interfaces).len() < 3 {
            link_states(interfaces).len()
        } else {
            3
        },
        forall|i: int, j: int|
            0 <= i < j < shown_links(interfaces).len() ==> text_le(
                #[trigger] shown_links(interfaces)[i],
                #[trigger] shown_links(interfaces)[j],
            ),
        exists|others: Seq<Seq<char>>|
            {
                &&& #[trigger] (shown_links(interfaces) + others).to_multiset() == link_states(
                    interfaces,
                ).to_multiset()
                &&& forall|i: int, j: int|
                    0 <= i < shown_links(interfaces).len() && 0 <= j < others.len() ==> text_le(
                        #[trigger] shown_links(interfaces)[i],
                        #[trigger] others[j],
                    )
            },
{
    let all = link_states(interfaces);
    let order = text_order();
    lemma_text_order_is_total();
    all.lemma_sort_by_ensures(order);
    let sorted = all.sort_by(order);
    let shown = shown_links(interfaces);
    broadcast use vstd::seq_lib::group_to_multiset_ensures;

    assert(sorted.len() == sorted.to_multiset().len() && all.len() == all.to_multiset().len());
    let others = sorted.skip(shown.len() as int);
    assert(shown + others =~= sorted);
    assert forall|i: int, j: int| 0 <= i < j < shown.len() implies text_le(
        #[trigger] shown[i],
        #[trigger] shown[j],
    ) by {
        assert(order(sorted[i], sorted[j]));
    }
    assert forall|i: int, j: int| 0 <= i < shown.len() && 0 <= j < others.len() implies text_le(
        #[trigger] shown[i],
        #[trigger] others[j],
    ) by {
        assert(order(sorted[i], sorted[j + shown.len()]));
    }
    assert((shown + others).to_multiset() == all.to_multiset());
}

/// What is strung together stands in order, with a dot between each two.
pub proof fn law_dots_set_apart(text: Seq<char>, others: Seq<Seq<char>>, other: Seq<char>)
    ensures
        dotted(text, Seq::empty()) == text,
        dotted(text, others.push(other)) == dotted(text, others) + " · "@ + other,
{
    assert(others.push(other).drop_last() =~= others);
}

/// Whether an interface is up goes by its field `active` alone: it is up exactly where that is the
/// unsigned number one. Interfaces that differ in other fields only are in the same state.
pub proof fn law_state_goes_by_activity_alone(interface: JsonTree, other: JsonTree)
    ensures
        is_up(interface) <==> match interface.field("active"@) {
            JsonTree::Number { unsigned, .. } => unsigned == Some(1u64),
            _ => false,
        },
        interface.field("active"@) == other.field("active"@) ==> is_up(interface) == is_up(other),
{
}

} // verus!
