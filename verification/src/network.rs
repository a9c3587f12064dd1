//! The network module: which route is the default one, what the kernel's
//! messages say of its interface, and the icon and tooltip shown for it.

use vstd::prelude::*;

use crate::rfkill::Type;
use rtnetlink::packet_core::Parseable;
use wl_nl80211::{Ieee80211Element, Ieee80211Elements};

verus! {

/// The number of the kernel's main routing table.
pub const MAIN_TABLE: u8 = 254;

/// What a route message says, in the order of its attributes.
#[derive(Clone, Copy, Debug, PartialEq, Eq, Structural)]
pub enum RouteAttr {
    /// The route has a destination (it is not a default route).
    Destination,
    /// The route goes through a gateway.
    Gateway,
    /// The index of the interface the route goes out of.
    Oif(u32),
    /// The priority of the route: lower is preferred.
    Priority(u32),
    /// Any other attribute.
    Other,
}

/// A route of the kernel: its table and its attributes.
#[derive(Clone, Debug, PartialEq, Eq)]
pub struct RouteMessage {
    pub table: u8,
    pub attributes: Vec<RouteAttr>,
}

/// Whether `attrs` holds a destination.
pub open spec fn has_destination(attrs: Seq<RouteAttr>) -> bool {
    exists|i: int| 0 <= i < attrs.len() && attrs[i] is Destination
}

/// Whether `attrs` holds a gateway.
pub open spec fn has_gateway(attrs: Seq<RouteAttr>) -> bool {
    exists|i: int| 0 <= i < attrs.len() && attrs[i] is Gateway
}

/// The last interface index that `attrs` names.
pub open spec fn last_oif(attrs: Seq<RouteAttr>) -> Option<u32>
    decreases attrs.len(),
{
    if attrs.len() == 0 {
        None
    } else {
        match attrs.last() {
            RouteAttr::Oif(i) => Some(i),
            _ => last_oif(attrs.drop_last()),
        }
    }
}

/// The last priority that `attrs` names.
pub open spec fn last_priority(attrs: Seq<RouteAttr>) -> Option<u32>
    decreases attrs.len(),
{
    if attrs.len() == 0 {
        None
    } else {
        match attrs.last() {
            RouteAttr::Priority(p) => Some(p),
            _ => last_priority(attrs.drop_last()),
        }
    }
}

/// The interface index and priority of a route that may be the default
/// one: in the main table, through a gateway, with no destination, and
/// naming both.
pub open spec fn spec_candidate(table: u8, attrs: Seq<RouteAttr>) -> Option<(u32, u32)> {
    if table != MAIN_TABLE || !has_gateway(attrs) || has_destination(attrs) {
        None
    } else {
        match (last_oif(attrs), last_priority(attrs)) {
            (Some(i), Some(p)) => Some((i, p)),
            _ => None,
        }
    }
}

/// The interface index and priority of the route `msg`, if it may be the
/// default one.
pub fn route_candidate(msg: &RouteMessage) -> (r: Option<(u32, u32)>)
    ensures
        r == spec_candidate(msg.table, msg.attributes@),
{
    if msg.table != MAIN_TABLE {
        return None;
    }
    let mut gateway_found = false;
    let mut destination_found = false;
    let mut index: Option<u32> = None;
    let mut priority: Option<u32> = None;
    let mut i: usize = 0;
    while i < msg.attributes.len()
        invariant
            i <= msg.attributes@.len(),
            gateway_found == has_gateway(msg.attributes@.take(i as int)),
            destination_found == has_destination(msg.attributes@.take(i as int)),
            index == last_oif(msg.attributes@.take(i as int)),
            priority == last_priority(msg.attributes@.take(i as int)),
        decreases msg.attributes.len() - i,
    {
        let ghost before = msg.attributes@.take(i as int);
        let ghost after = msg.attributes@.take(i + 1);
        assert(after.drop_last() =~= before);
        assert(after.last() == msg.attributes@[i as int]);
        match msg.attributes[i] {
            RouteAttr::Destination => destination_found = true,
            RouteAttr::Gateway => gateway_found = true,
            RouteAttr::Oif(x) => index = Some(x),
            RouteAttr::Priority(x) => priority = Some(x),
            RouteAttr::Other => {},
        }
        proof {
            if has_gateway(after) && !(msg.attributes@[i as int] is Gateway) {
                let k = choose|k: int| 0 <= k < after.len() && after[k] is Gateway;
                assert(before[k] is Gateway);
            }
            if has_gateway(before) {
                let k = choose|k: int| 0 <= k < before.len() && before[k] is Gateway;
                assert(after[k] is Gateway);
            }
            if msg.attributes@[i as int] is Gateway {
                assert(after[i as int] is Gateway);
            }
            if has_destination(after) && !(msg.attributes@[i as int] is Destination) {
                let k = choose|k: int| 0 <= k < after.len() && after[k] is Destination;
                assert(before[k] is Destination);
            }
            if has_destination(before) {
                let k = choose|k: int| 0 <= k < before.len() && before[k] is Destination;
                assert(after[k] is Destination);
            }
            if msg.attributes@[i as int] is Destination {
                assert(after[i as int] is Destination);
            }
        }
        i = i + 1;
    }
    assert(msg.attributes@.take(i as int) =~= msg.attributes@);
    if !gateway_found || destination_found {
        return None;
    }
    match (index, priority) {
        (Some(i), Some(p)) => Some((i, p)),
        _ => None,
    }
}

/// The candidates among the routes `msgs`, in order.
pub open spec fn candidates(msgs: Seq<RouteMessage>) -> Seq<(u32, u32)>
    decreases msgs.len(),
{
    if msgs.len() == 0 {
        seq![]
    } else {
        let before = candidates(msgs.drop_last());
        match spec_candidate(msgs.last().table, msgs.last().attributes@) {
            Some(c) => before.push(c),
            None => before,
        }
    }
}

/// The first candidate of least priority among `cs`.
pub open spec fn best_candidate(cs: Seq<(u32, u32)>) -> Option<(u32, u32)>
    decreases cs.len(),
{
    if cs.len() == 0 {
        None
    } else {
        match best_candidate(cs.drop_last()) {
            Some(b) => if cs.last().1 < b.1 {
                Some(cs.last())
            } else {
                Some(b)
            },
            None => Some(cs.last()),
        }
    }
}

/// The interface of the default route among `msgs`: the candidate of least
/// priority, the first of equals.
pub fn default_route_index(msgs: &Vec<RouteMessage>) -> (r: Option<u32>)
    ensures
        r == match best_candidate(candidates(msgs@)) {
            Some(c) => Some(c.0),
            None => None::<u32>,
        },
{
    let mut best: Option<(u32, u32)> = None;
    let ghost mut cs: Seq<(u32, u32)> = seq![];
    let mut i: usize = 0;
    while i < msgs.len()
        invariant
            i <= msgs@.len(),
            cs == candidates(msgs@.take(i as int)),
            best == best_candidate(cs),
        decreases msgs.len() - i,
    {
        assert(msgs@.take(i + 1).drop_last() =~= msgs@.take(i as int));
        match route_candidate(&msgs[i]) {
            Some(c) => {
                proof {
                    cs = cs.push(c);
                    assert(cs.drop_last() =~= candidates(msgs@.take(i as int)));
                }
                best = match best {
                    Some(b) => if c.1 < b.1 {
                        Some(c)
                    } else {
                        Some(b)
                    },
                    None => Some(c),
                };
            },
            None => {},
        }
        i = i + 1;
    }
    assert(msgs@.take(i as int) =~= msgs@);
    match best {
        Some(c) => Some(c.0),
        None => None,
    }
}

/// The first candidate of least priority is a candidate, and no candidate
/// has a lower priority; any candidate before it has a greater one.
pub proof fn law_best_candidate(cs: Seq<(u32, u32)>)
    ensures
        cs.len() == 0 <==> best_candidate(cs) is None,
        best_candidate(cs) matches Some(b) ==> exists|k: int|
            0 <= k < cs.len() && cs[k] == b && (forall|j: int| 0 <= j < cs.len() ==> b.1 <= #[trigger] cs[j].1) && (
            forall|j: int| 0 <= j < k ==> b.1 < #[trigger] cs[j].1),
    decreases cs.len(),
{
    if cs.len() > 0 {
        let before = cs.drop_last();
        law_best_candidate(before);
        match best_candidate(before) {
            Some(b) => {
                let k = choose|k: int|
                    0 <= k < before.len() && before[k] == b && (forall|j: int|
                        0 <= j < before.len() ==> b.1 <= #[trigger] before[j].1) && (forall|j: int|
                        0 <= j < k ==> b.1 < #[trigger] before[j].1);
                if cs.last().1 < b.1 {
                    let n = cs.len() - 1;
                    assert(cs[n] == cs.last());
                    assert forall|j: int| 0 <= j < cs.len() implies cs.last().1 <= #[trigger] cs[j].1 by {
                        if j < n {
                            assert(before[j] == cs[j]);
                        }
                    }
                    assert forall|j: int| 0 <= j < n implies cs.last().1 < #[trigger] cs[j].1 by {
                        assert(before[j] == cs[j]);
                    }
                } else {
                    assert(cs[k] == before[k]);
                    assert forall|j: int| 0 <= j < cs.len() implies b.1 <= #[trigger] cs[j].1 by {
                        if j < cs.len() - 1 {
                            assert(before[j] == cs[j]);
                        }
                    }
                    assert forall|j: int| 0 <= j < k implies b.1 < #[trigger] cs[j].1 by {
                        assert(before[j] == cs[j]);
                    }
                }
            },
            None => {
                assert(cs[0] == cs.last());
            },
        }
    }
}

/// The operational state of a network interface, as the kernel reports it.
#[derive(Clone, Copy, Debug, PartialEq, Eq, Structural)]
pub enum LinkState {
    Unknown,
    NotPresent,
    Down,
    LowerLayerDown,
    Testing,
    Dormant,
    Up,
    Other(u8),
}

/// What an address message of the route's interface says.
#[derive(Clone, Debug, PartialEq, Eq)]
pub enum AddressAttr {
    /// An address of the interface, written out.
    Address(String),
    /// The name of the interface.
    Label(String),
    Other,
}

/// What a link message of the route's interface says.
#[derive(Clone, Copy, Debug, PartialEq, Eq, Structural)]
pub enum LinkAttr {
    /// The operational state.
    OperState(LinkState),
    /// The byte counters.
    Stats64 { rx_bytes: u64, tx_bytes: u64 },
    Other,
}

/// What the wireless interface and its access point say.
#[derive(Clone, Debug, PartialEq, Eq)]
pub enum WirelessAttr {
    /// The name of the network.
    Ssid(String),
    /// The signal strength of the access point, in mBm (hundredths of a
    /// dBm).
    SignalMbm(i32),
    Other,
}

/// The default route and what is known of its interface.
#[derive(Clone, Debug, PartialEq, Eq)]
pub struct Route {
    pub index: u32,
    pub iname: String,
    /// An address of the interface; none when it is only linked.
    pub address: Option<String>,
    pub state: LinkState,
    pub rx_bytes: u64,
    pub tx_bytes: u64,
    /// The network name, for a wireless interface.
    pub ssid: Option<String>,
    /// The signal strength in percent, for a wireless interface.
    pub signal_strength: Option<u32>,
}

/// The route `r` after the address attributes `attrs`, one after the
/// other: an address sets the address, a name sets the interface name.
pub open spec fn after_address(r: Route, attrs: Seq<AddressAttr>) -> Route
    decreases attrs.len(),
{
    if attrs.len() == 0 {
        r
    } else {
        let before = after_address(r, attrs.drop_last());
        match attrs.last() {
            AddressAttr::Address(a) => Route { address: Some(a), ..before },
            AddressAttr::Label(l) => Route { iname: l, ..before },
            AddressAttr::Other => before,
        }
    }
}

/// The route `r` after the link attributes `attrs`, one after the other:
/// the state, and the byte counters.
pub open spec fn after_link(r: Route, attrs: Seq<LinkAttr>) -> Route
    decreases attrs.len(),
{
    if attrs.len() == 0 {
        r
    } else {
        let before = after_link(r, attrs.drop_last());
        match attrs.last() {
            LinkAttr::OperState(s) => Route { state: s, ..before },
            LinkAttr::Stats64 { rx_bytes, tx_bytes } => Route { rx_bytes, tx_bytes, ..before },
            LinkAttr::Other => before,
        }
    }
}

/// The quality in percent of a wifi signal of `mbm` mBm. The hardware works
/// best at -45 dBm and gives up at -90 dBm, and a signal too strong is as bad
/// as one too weak: the quality is 100 at -45 dBm, falls by 100 / 45 for
/// each dBm away from it, stops at 0, and is rounded to the nearest integer
/// (a half never occurs).
pub open spec fn spec_signal_percent(mbm: int) -> int {
    let away = if mbm + 4500 < 0 {
        -(mbm + 4500)
    } else {
        mbm + 4500
    };
    if away >= 4500 {
        0
    } else {
        (2 * (4500 - away) + 45) / 90
    }
}

/// The quality in percent of a wifi signal of `mbm` mBm.
pub fn signal_percent(mbm: i32) -> (r: u32)
    ensures
        r == spec_signal_percent(mbm as int),
        r <= 100,
        ({
            let away = if mbm + 4500 < 0 {
                -(mbm + 4500)
            } else {
                mbm + 4500
            };
            away < 4500 ==> -45 < 2 * (45 * r - (4500 - away)) <= 45
        }),
{
    let shifted: i64 = mbm as i64 + 4500;
    let away: i64 = if shifted < 0 {
        -shifted
    } else {
        shifted
    };
    if away >= 4500 {
        0
    } else {
        let q: i64 = (2 * (4500 - away) + 45) / 90;
        q as u32
    }
}

/// What the information elements `raw` of an access point hold, when they
/// parse: for each element in order, the network name when the element is
/// the name as text, else nothing.
pub uninterp spec fn ieee80211_elements(raw: Seq<u8>) -> Option<Seq<Option<Seq<char>>>>;

/// The views of the optional texts `v`.
pub open spec fn opt_texts(v: Seq<Option<String>>) -> Seq<Option<Seq<char>>> {
    Seq::new(
        v.len(),
        |i: int|
            match v[i] {
                Some(s) => Some(s@),
                None => None,
            },
    )
}

/// The views of the texts `v`.
pub open spec fn text_views(v: Seq<String>) -> Seq<Seq<char>> {
    Seq::new(v.len(), |i: int| v[i]@)
}

/// The elements `raw` of an access point, each as its network name or
/// nothing.
///
/// Trusted: calls `Ieee80211Elements::parse` of `wl_nl80211`, which reads
/// the elements in order (failing on an element whose body is malformed)
/// and depends on the bytes alone; each element is then told apart as the
/// text form of a network name (`Ieee80211Element::Ssid`) or another one.
/// The name `ieee80211_elements` stands for that outcome.
#[verifier::external_body]
fn parse_elements(raw: &[u8]) -> (r: Option<Vec<Option<String>>>)
    ensures
        match ieee80211_elements(raw@) {
            Some(v) => r matches Some(x) && opt_texts(x@) == v,
            None => r is None,
        },
{
    match Ieee80211Elements::parse(raw) {
        Ok(Ieee80211Elements(elements)) => Some(
            elements.into_iter().map(
                |e| match e {
                    Ieee80211Element::Ssid(s) => Some(s),
                    _ => None,
                },
            ).collect(),
        ),
        Err(_) => None,
    }
}

/// The network names among the elements `v`, in order.
pub open spec fn spec_element_names(v: Seq<Option<Seq<char>>>) -> Seq<Seq<char>>
    decreases v.len(),
{
    if v.len() == 0 {
        seq![]
    } else {
        match v.last() {
            Some(name) => spec_element_names(v.drop_last()).push(name),
            None => spec_element_names(v.drop_last()),
        }
    }
}

/// The network names among the elements `elements`, in order.
pub fn element_names(elements: Vec<Option<String>>) -> (r: Vec<String>)
    ensures
        text_views(r@) == spec_element_names(opt_texts(elements@)),
{
    let mut out: Vec<String> = Vec::new();
    let mut rest = elements;
    let ghost all = rest@;
    let ghost mut done: int = 0;
    while rest.len() > 0
        invariant
            0 <= done <= all.len(),
            rest@ == all.skip(done),
            text_views(out@) == spec_element_names(opt_texts(all.take(done))),
        decreases rest.len(),
    {
        let e = rest.remove(0);
        proof {
            assert(e == all[done]);
            assert(opt_texts(all.take(done + 1)).drop_last() =~= opt_texts(all.take(done)));
            assert(opt_texts(all.take(done + 1)).last() == opt_texts(all)[done]);
        }
        match e {
            Some(name) => {
                let ghost before = out@;
                out.push(name);
                assert(text_views(out@) =~= text_views(before).push(out@.last()@));
            },
            None => {},
        }
        proof {
            done = done + 1;
        }
        assert(rest@ =~= all.skip(done));
    }
    assert(all.take(done) =~= all);
    out
}

/// The network names that the information elements `raw` of an access
/// point hold, in order; none when the elements do not parse.
pub fn names_in_elements(raw: &[u8]) -> (r: Vec<String>)
    ensures
        text_views(r@) == match ieee80211_elements(raw@) {
            Some(v) => spec_element_names(v),
            None => Seq::<Seq<char>>::empty(),
        },
{
    match parse_elements(raw) {
        Some(elements) => element_names(elements),
        None => {
            let r: Vec<String> = Vec::new();
            assert(text_views(r@) =~= Seq::<Seq<char>>::empty());
            r
        },
    }
}

/// The route `r` after the wireless attributes `attrs`, one after the
/// other: the network name, and the signal quality.
pub open spec fn after_wireless(r: Route, attrs: Seq<WirelessAttr>) -> Route
    decreases attrs.len(),
{
    if attrs.len() == 0 {
        r
    } else {
        let before = after_wireless(r, attrs.drop_last());
        match attrs.last() {
            WirelessAttr::Ssid(s) => Route { ssid: Some(s), ..before },
            WirelessAttr::SignalMbm(m) => Route {
                signal_strength: Some(spec_signal_percent(m as int) as u32),
                ..before
            },
            WirelessAttr::Other => before,
        }
    }
}

impl Route {
    /// A route through interface `index`, of which nothing else is known yet.
    pub fn new(index: u32) -> (r: Self)
        ensures
            r.index == index,
            r.iname@ == Seq::<char>::empty(),
            r.address is None,
            r.state == LinkState::Unknown,
            r.rx_bytes == 0,
            r.tx_bytes == 0,
            r.ssid is None,
            r.signal_strength is None,
    {
        Route {
            index,
            iname: String::new(),
            address: None,
            state: LinkState::Unknown,
            rx_bytes: 0,
            tx_bytes: 0,
            ssid: None,
            signal_strength: None,
        }
    }

    /// Takes in the attributes of the interface's address, in order.
    pub fn apply_address(&mut self, attrs: Vec<AddressAttr>)
        ensures
            *final(self) == after_address(*old(self), attrs@),
    {
        let mut rest = attrs;
        let ghost all = rest@;
        let ghost mut done: int = 0;
        while rest.len() > 0
            invariant
                0 <= done <= all.len(),
                rest@ == all.skip(done),
                *self == after_address(*old(self), all.take(done)),
            decreases rest.len(),
        {
            let attr = rest.remove(0);
            proof {
                assert(attr == all[done]);
                assert(all.take(done + 1).drop_last() =~= all.take(done));
                assert(all.take(done + 1).last() == attr);
            }
            match attr {
                AddressAttr::Address(a) => self.address = Some(a),
                AddressAttr::Label(l) => self.iname = l,
                AddressAttr::Other => {},
            }
            proof {
                done = done + 1;
                assert(rest@ =~= all.skip(done));
            }
        }
        assert(all.take(done) =~= all);
    }

    /// Takes in the attributes of the interface's link, in order.
    pub fn apply_link(&mut self, attrs: Vec<LinkAttr>)
        ensures
            *final(self) == after_link(*old(self), attrs@),
    {
        let mut i: usize = 0;
        while i < attrs.len()
            invariant
                i <= attrs@.len(),
                *self == after_link(*old(self), attrs@.take(i as int)),
            decreases attrs.len() - i,
        {
            proof {
                assert(attrs@.take(i + 1).drop_last() =~= attrs@.take(i as int));
                assert(attrs@.take(i + 1).last() == attrs@[i as int]);
            }
            match attrs[i] {
                LinkAttr::OperState(s) => self.state = s,
                LinkAttr::Stats64 { rx_bytes, tx_bytes } => {
                    self.rx_bytes = rx_bytes;
                    self.tx_bytes = tx_bytes;
                },
                LinkAttr::Other => {},
            }
            i = i + 1;
        }
        assert(attrs@.take(i as int) =~= attrs@);
    }

    /// Takes in the attributes of the wireless interface and of its access
    /// point, in order.
    pub fn apply_wireless(&mut self, attrs: Vec<WirelessAttr>)
        ensures
            *final(self) == after_wireless(*old(self), attrs@),
    {
        let mut rest = attrs;
        let ghost all = rest@;
        let ghost mut done: int = 0;
        while rest.len() > 0
            invariant
                0 <= done <= all.len(),
                rest@ == all.skip(done),
                *self == after_wireless(*old(self), all.take(done)),
            decreases rest.len(),
        {
            let attr = rest.remove(0);
            proof {
                assert(attr == all[done]);
                assert(all.take(done + 1).drop_last() =~= all.take(done));
                assert(all.take(done + 1).last() == attr);
            }
            match attr {
                WirelessAttr::Ssid(s) => self.ssid = Some(s),
                WirelessAttr::SignalMbm(m) => self.signal_strength = Some(signal_percent(m)),
                WirelessAttr::Other => {},
            }
            proof {
                done = done + 1;
                assert(rest@ =~= all.skip(done));
            }
        }
        assert(all.take(done) =~= all);
    }
}

/// The wifi icons from weak to strong signal.
pub open spec fn signal_icons() -> Seq<Seq<char>> {
    seq!["󰤟"@, "󰤢"@, "󰤥"@, "󰤨"@]
}

/// The icon of a wifi signal of `strength` percent: one of four, a quarter
/// (of 25.1 %) each; a plain wifi icon where the strength is unknown.
pub open spec fn spec_signal_icon(strength: Option<u32>) -> Seq<char> {
    match strength {
        Some(s) => signal_icons()[(10 * s / 251) as int],
        None => "󱛇"@,
    }
}

fn signal_icon(strength: Option<u32>) -> (r: &'static str)
    requires
        strength matches Some(s) ==> s <= 100,
    ensures
        r@ == spec_signal_icon(strength),
{
    match strength {
        Some(s) => {
            let i = 10 * s / 251;
            if i == 0 {
                "󰤟"
            } else if i == 1 {
                "󰤢"
            } else if i == 2 {
                "󰤥"
            } else {
                "󰤨"
            }
        },
        None => "󱛇",
    }
}

/// What the network module shows.
#[derive(Clone, Debug)]
pub struct NetworkView {
    pub icon: &'static str,
    pub tooltip: String,
    /// Whether a network is reached (the rates can be shown).
    pub connected: bool,
}

/// The tooltip when nothing is connected.
pub open spec fn disconnected_text() -> Seq<char> {
    "Wifi: Disconnected\nEthernet: Not detected"@
}

/// What the network module shows for the default route `route` (none when
/// there is no default route), with `wlan_blocked` telling whether wifi is
/// switched off: the icon, the tooltip, and whether a network is reached.
pub open spec fn spec_network_view(route: Option<Route>, wlan_blocked: bool) -> (Seq<char>, Seq<char>, bool) {
    match route {
        Some(r) => if r.state == LinkState::Down {
            ("󰤯"@, disconnected_text(), false)
        } else {
            match r.address {
                None => ("󱚵"@, "Wifi: Linked"@, true),
                Some(a) => match r.ssid {
                    Some(ssid) => (
                        spec_signal_icon(r.signal_strength),
                        "Wifi: "@ + ssid@ + "\n"@ + r.iname@ + ": "@ + a@,
                        true,
                    ),
                    None => ("󰈁"@, r.iname@ + ": "@ + a@, true),
                },
            }
        },
        None => if wlan_blocked {
            ("󰖪"@, "Wifi: Disabled\nEthernet: Not detected"@, false)
        } else {
            ("󰤯"@, disconnected_text(), false)
        },
    }
}

/// Law: what the network module shows says which case it is in. A default
/// route whose link is down shows the disconnected icon 󰤯 and says
/// "Wifi: Disconnected"; with no default route, it shows 󰖪 and says
/// "Wifi: Disabled" when wifi is switched off, and the same as for a link
/// down otherwise. The icon 󰖪 shows only when there is no route and wifi is
/// switched off, and only a link that is not down counts as connected.
pub proof fn law_network_view_cases(route: Option<Route>, wlan_blocked: bool)
    requires
        route matches Some(r) ==> (r.signal_strength matches Some(s) ==> s <= 100),
    ensures
        route matches Some(r) && r.state == LinkState::Down ==> spec_network_view(route, wlan_blocked)
            == ("󰤯"@, "Wifi: Disconnected\nEthernet: Not detected"@, false),
        route is None && wlan_blocked ==> spec_network_view(route, wlan_blocked) == (
            "󰖪"@,
            "Wifi: Disabled\nEthernet: Not detected"@,
            false,
        ),
        route is None && !wlan_blocked ==> spec_network_view(route, wlan_blocked) == (
            "󰤯"@,
            "Wifi: Disconnected\nEthernet: Not detected"@,
            false,
        ),
        spec_network_view(route, wlan_blocked).0 == "󰖪"@ <==> (route is None && wlan_blocked),
        spec_network_view(route, wlan_blocked).2 <==> (route matches Some(r) && r.state
            != LinkState::Down),
{
    reveal_strlit("󰖪");
    reveal_strlit("󰤯");
    reveal_strlit("󱚵");
    reveal_strlit("󰈁");
    reveal_strlit("󰤟");
    reveal_strlit("󰤢");
    reveal_strlit("󰤥");
    reveal_strlit("󰤨");
    reveal_strlit("󱛇");
    let off = "󰖪"@;
    assert("󰤯"@ != off) by { assert("󰤯"@[0] != off[0]); }
    assert("󱚵"@ != off) by { assert("󱚵"@[0] != off[0]); }
    assert("󰈁"@ != off) by { assert("󰈁"@[0] != off[0]); }
    assert("󱛇"@ != off) by { assert("󱛇"@[0] != off[0]); }
    assert forall|k: int| 0 <= k < 4 implies signal_icons()[k] != off by {
        assert(signal_icons()[k][0] != off[0]);
    }
    if let Some(r) = route {
        if let Some(s) = r.signal_strength {
            assert(10 * s / 251 < 4);
        }
    }
}

/// Law: a wifi signal shows one of four bars by its quality: up to 25 %
/// one bar \u{f091f}, up to 50 % two \u{f0922}, up to 75 % three
/// \u{f0925}, above that four \u{f0928}; a stronger signal never shows
/// fewer bars; an unknown strength shows the plain wifi icon \u{f16c7}.
pub proof fn law_signal_icon(s: u32, t: u32)
    requires
        s <= 100,
        t <= 100,
    ensures
        spec_signal_icon(Some(s)) == seq![
            if s <= 25 {
                '\u{f091f}'
            } else if s <= 50 {
                '\u{f0922}'
            } else if s <= 75 {
                '\u{f0925}'
            } else {
                '\u{f0928}'
            },
        ],
        s <= t ==> 10 * s / 251 <= 10 * t / 251,
        spec_signal_icon(None) == seq!['\u{f16c7}'],
{
    reveal_strlit("󰤟");
    reveal_strlit("󰤢");
    reveal_strlit("󰤥");
    reveal_strlit("󰤨");
    reveal_strlit("󱛇");
    if s <= t {
        assert(10 * s / 251 <= 10 * t / 251) by (nonlinear_arith)
            requires
                s <= t,
        ;
    }
}

/// What the network module shows for the default route `route`.
pub fn network_view(route: &Option<Route>, wlan_blocked: bool) -> (v: NetworkView)
    requires
        route matches Some(r) ==> (r.signal_strength matches Some(s) ==> s <= 100),
    ensures
        (v.icon@, v.tooltip@, v.connected) == spec_network_view(*route, wlan_blocked),
{
    match route {
        Some(r) => {
            if r.state == LinkState::Down {
                return NetworkView {
                    icon: "󰤯",
                    tooltip: "Wifi: Disconnected\nEthernet: Not detected".to_owned(),
                    connected: false,
                };
            }
            match &r.address {
                None => NetworkView { icon: "󱚵", tooltip: "Wifi: Linked".to_owned(), connected: true },
                Some(a) => match &r.ssid {
                    Some(ssid) => {
                        let mut t = "Wifi: ".to_owned();
                        t.append(ssid.as_str());
                        t.append("\n");
                        t.append(r.iname.as_str());
                        t.append(": ");
                        t.append(a.as_str());
                        NetworkView { icon: signal_icon(r.signal_strength), tooltip: t, connected: true }
                    },
                    None => {
                        let mut t = r.iname.as_str().to_owned();
                        t.append(": ");
                        t.append(a.as_str());
                        NetworkView { icon: "󰈁", tooltip: t, connected: true }
                    },
                },
            }
        },
        None => if wlan_blocked {
            NetworkView {
                icon: "󰖪",
                tooltip: "Wifi: Disabled\nEthernet: Not detected".to_owned(),
                connected: false,
            }
        } else {
            NetworkView {
                icon: "󰤯",
                tooltip: "Wifi: Disconnected\nEthernet: Not detected".to_owned(),
                connected: false,
            }
        },
    }
}

/// Whether wifi is switched off, from the kill switches `switches` (radio
/// type and whether it is blocked), or from `None` when they could not be
/// read: the first wifi switch says; with no wifi switch it is off; when the
/// switches could not be read it is taken as on.
pub open spec fn spec_wlan_blocked(switches: Option<Seq<(Type, bool)>>) -> bool {
    match switches {
        None => false,
        Some(s) => if exists|i: int| 0 <= i < s.len() && s[i].0 == Type::Wlan {
            s[first_wlan(s, 0)].1
        } else {
            true
        },
    }
}

/// The first index from `i` on of a wifi switch.
pub open spec fn first_wlan(s: Seq<(Type, bool)>, i: int) -> int
    decreases s.len() - i,
{
    if i < 0 || i >= s.len() {
        s.len() as int
    } else if s[i].0 == Type::Wlan {
        i
    } else {
        first_wlan(s, i + 1)
    }
}

proof fn lemma_first_wlan(s: Seq<(Type, bool)>, i: int)
    requires
        0 <= i <= s.len(),
    ensures
        i <= first_wlan(s, i) <= s.len(),
        first_wlan(s, i) < s.len() ==> s[first_wlan(s, i)].0 == Type::Wlan,
        forall|j: int| i <= j < first_wlan(s, i) ==> #[trigger] s[j].0 != Type::Wlan,
    decreases s.len() - i,
{
    if i < s.len() && s[i].0 != Type::Wlan {
        lemma_first_wlan(s, i + 1);
    }
}

/// Whether wifi is switched off, from the kill switches `switches`.
pub fn wlan_blocked(switches: Option<Vec<(Type, bool)>>) -> (r: bool)
    ensures
        r == spec_wlan_blocked(match switches {
            Some(v) => Some(v@),
            None => None,
        }),
{
    match switches {
        None => false,
        Some(v) => {
            let mut i: usize = 0;
            while i < v.len()
                invariant
                    i <= v@.len(),
                    switches == Some(v),
                    first_wlan(v@, 0) == first_wlan(v@, i as int),
                decreases v.len() - i,
            {
                if v[i].0 == Type::Wlan {
                    proof {
                        lemma_first_wlan(v@, 0);
                        assert(v@[i as int].0 == Type::Wlan);
                        assert(first_wlan(v@, i as int) == i as int);
                        assert(exists|k: int| 0 <= k < v@.len() && v@[k].0 == Type::Wlan);
                        assert(spec_wlan_blocked(Some(v@)) == v@[i as int].1);
                    }
                    return v[i].1;
                }
                i = i + 1;
            }
            proof {
                lemma_first_wlan(v@, 0);
                if exists|k: int| 0 <= k < v@.len() && v@[k].0 == Type::Wlan {
                    let k = choose|k: int| 0 <= k < v@.len() && v@[k].0 == Type::Wlan;
                    assert(v@[k].0 != Type::Wlan);
                }
            }
            true
        },
    }
}

/// Whether the transfer rates can be shown: a network is reached, the
/// route is the same as a second before (by interface), and time passed.
pub fn rates_shown(connected: bool, new: &Option<Route>, old: &Option<Route>, elapsed_nanos: u64) -> (r: bool)
    ensures
        r == (connected && new is Some && old is Some && new->0.index == old->0.index && elapsed_nanos
            > 0),
{
    match (new, old) {
        (Some(n), Some(o)) => connected && n.index == o.index && elapsed_nanos > 0,
        _ => false,
    }
}

} // verus!
