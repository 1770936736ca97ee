//! Building sensors from a configuration document.

use vstd::prelude::*;
use crate::address::IpAddr;
use crate::application::Application;
use crate::database::{stored_all, SensorsDB};
use crate::error::{ConfigError, ConfigErrorKind, ConfigErrorView};
use crate::handle::Handle;
use crate::interface::Interface;
use crate::json::{
    from_text, item_views, json_text, member_views, parsed_json, read_document, same_text,
    to_text, written_document, Json, JsonValue,
};
use crate::network::{network_of, Network, NetworkView};
use crate::observation_id::{ObservationID, ObservationIDView};
use crate::scan::{
    chars_to_text, ipv4_of, ipv6_of, parse_ipv4, parse_ipv6, parse_unsigned, sub_chars, to_chars,
    unsigned_of,
};
use crate::selector::Selector;
use crate::sensor::{Sensor, SensorView};
use crate::text::{address_text, decimal_text, push_decimal};
use crate::util::{
    masked, netmask_bits_v4, netmask_bits_v6, netmask_v4, netmask_v6, normalized,
};

verus! {

/// The refusal of a text, met under no key yet.
pub open spec fn fault(kind: ConfigErrorKind, value: Seq<char>) -> ConfigErrorView {
    ConfigErrorView { kind, path: Seq::empty(), value }
}

/// The position of the first slash from `from` on, or the end of the text.
pub open spec fn slash_from(s: Seq<char>, from: int) -> int
    decreases s.len() - from,
{
    if from < 0 || from >= s.len() || s[from] == '/' {
        from
    } else {
        slash_from(s, from + 1)
    }
}

/// The address in a text of the form `address` or `address/prefix`: what
/// stands before the first slash.
pub open spec fn address_part(s: Seq<char>) -> Seq<char> {
    s.subrange(0, slash_from(s, 0))
}

/// The prefix length in a text of the form `address/prefix`: what stands
/// between the first slash and the next one, or the end.
pub open spec fn prefix_part(s: Seq<char>) -> Option<Seq<char>> {
    let first = slash_from(s, 0);
    if first >= s.len() {
        None
    } else {
        Some(s.subrange(first + 1, slash_from(s, first + 1)))
    }
}

/// The IPv4 netmask that the text of a prefix length spells: a number of at
/// most 32.
pub open spec fn netmask_v4_of(prefix: Seq<char>) -> Result<IpAddr, ConfigErrorView> {
    match unsigned_of(prefix, 255) {
        Some(bits) => if bits <= 32 {
            Ok(IpAddr::V4(netmask_bits_v4(bits as u32)))
        } else {
            Err(fault(ConfigErrorKind::BadPrefixLength, prefix))
        },
        None => Err(fault(ConfigErrorKind::BadPrefixLength, prefix)),
    }
}

/// The IPv6 netmask that the text of a prefix length spells: a number of at
/// most 128.
pub open spec fn netmask_v6_of(prefix: Seq<char>) -> Result<IpAddr, ConfigErrorView> {
    match unsigned_of(prefix, 255) {
        Some(bits) => if bits <= 128 {
            Ok(IpAddr::V6(netmask_bits_v6(bits as u128)))
        } else {
            Err(fault(ConfigErrorKind::BadPrefixLength, prefix))
        },
        None => Err(fault(ConfigErrorKind::BadPrefixLength, prefix)),
    }
}

/// The address and the netmask that a text of the form `address` or
/// `address/prefix` spells. The address is read as IPv4, else as IPv6; without
/// a prefix length the netmask is that of a single host.
pub open spec fn address_of(s: Seq<char>) -> Result<(IpAddr, IpAddr), ConfigErrorView> {
    let address = address_part(s);
    match ipv4_of(address) {
        Some(bits) => match prefix_part(s) {
            None => Ok((IpAddr::V4(bits), IpAddr::V4(netmask_bits_v4(32)))),
            Some(prefix) => match netmask_v4_of(prefix) {
                Ok(netmask) => Ok((IpAddr::V4(bits), netmask)),
                Err(e) => Err(e),
            },
        },
        None => match ipv6_of(address) {
            Some(bits) => match prefix_part(s) {
                None => Ok((IpAddr::V6(bits), IpAddr::V6(netmask_bits_v6(128)))),
                Some(prefix) => match netmask_v6_of(prefix) {
                    Ok(netmask) => Ok((IpAddr::V6(bits), netmask)),
                    Err(e) => Err(e),
                },
            },
            None => Err(fault(ConfigErrorKind::BadAddress, address)),
        },
    }
}

/// Whether an outcome is what was foretold: the value, or the refusal.
pub open spec fn foretold<T>(
    r: Result<T, ConfigError>,
    expected: Result<T, ConfigErrorView>,
) -> bool {
    match r {
        Ok(value) => expected == Ok::<T, ConfigErrorView>(value),
        Err(e) => expected == Err::<T, ConfigErrorView>(e@),
    }
}

fn find_slash(s: &Vec<char>, from: usize) -> (at: usize)
    requires
        from <= s.len(),
    ensures
        at == slash_from(s@, from as int),
        from <= at <= s.len(),
{
    let mut at: usize = from;
    while at < s.len() && s[at] != '/'
        invariant
            from <= at <= s.len(),
            slash_from(s@, from as int) == slash_from(s@, at as int),
        decreases s.len() - at,
    {
        at += 1;
    }
    at
}

fn netmask_v4_from(prefix: &Vec<char>) -> (r: Result<IpAddr, ConfigError>)
    ensures
        foretold(r, netmask_v4_of(prefix@)),
{
    match parse_unsigned(prefix, 255) {
        Some(bits) => {
            if bits <= 32 {
                return Ok(netmask_v4(bits as u8));
            }
        },
        None => {},
    }
    Err(ConfigError::new(ConfigErrorKind::BadPrefixLength, chars_to_text(prefix).as_str()))
}

fn netmask_v6_from(prefix: &Vec<char>) -> (r: Result<IpAddr, ConfigError>)
    ensures
        foretold(r, netmask_v6_of(prefix@)),
{
    match parse_unsigned(prefix, 255) {
        Some(bits) => {
            if bits <= 128 {
                return Ok(netmask_v6(bits as u8));
            }
        },
        None => {},
    }
    Err(ConfigError::new(ConfigErrorKind::BadPrefixLength, chars_to_text(prefix).as_str()))
}

/// Reads the text of an IPv4 prefix length and gives its netmask.
pub fn parse_netmask_v4(netmask_str: &str) -> (r: Result<IpAddr, ConfigError>)
    ensures
        foretold(r, netmask_v4_of(netmask_str@)),
{
    netmask_v4_from(&to_chars(netmask_str))
}

/// Reads the text of an IPv6 prefix length and gives its netmask.
pub fn parse_netmask_v6(netmask_str: &str) -> (r: Result<IpAddr, ConfigError>)
    ensures
        foretold(r, netmask_v6_of(netmask_str@)),
{
    netmask_v6_from(&to_chars(netmask_str))
}

/// Reads a text of the form `address` or `address/prefix` and gives the
/// address and the netmask.
pub fn parse_address(address_str: &str) -> (r: Result<(IpAddr, IpAddr), ConfigError>)
    ensures
        foretold(r, address_of(address_str@)),
{
    let chars = to_chars(address_str);
    let first = find_slash(&chars, 0);
    let address = sub_chars(&chars, 0, first);
    let prefix: Option<Vec<char>> = if first >= chars.len() {
        None
    } else {
        let next = find_slash(&chars, first + 1);
        Some(sub_chars(&chars, first + 1, next))
    };
    match parse_ipv4(&address) {
        Some(bits) => match prefix {
            None => Ok((IpAddr::V4(bits), netmask_v4(32))),
            Some(prefix) => match netmask_v4_from(&prefix) {
                Ok(netmask) => Ok((IpAddr::V4(bits), netmask)),
                Err(e) => Err(e),
            },
        },
        None => match parse_ipv6(&address) {
            Some(bits) => match prefix {
                None => Ok((IpAddr::V6(bits), netmask_v6(128))),
                Some(prefix) => match netmask_v6_from(&prefix) {
                    Ok(netmask) => Ok((IpAddr::V6(bits), netmask)),
                    Err(e) => Err(e),
                },
            },
            None => Err(
                ConfigError::new(ConfigErrorKind::BadAddress, chars_to_text(&address).as_str()),
            ),
        },
    }
}

/// The refusal of an object that lacks a key.
pub open spec fn missing_key(key: Seq<char>) -> ConfigErrorView {
    fault(ConfigErrorKind::MissingKey, Seq::empty()).within(key)
}

/// The refusal of a value under a key that is of the wrong JSON type.
pub open spec fn wrong_type(key: Seq<char>) -> ConfigErrorView {
    fault(ConfigErrorKind::WrongType, Seq::empty()).within(key)
}

fn refuse_missing(key: &str) -> (e: ConfigError)
    ensures
        e@ == missing_key(key@),
{
    ConfigError::bare(ConfigErrorKind::MissingKey).within(key)
}

fn refuse_type(key: &str) -> (e: ConfigError)
    ensures
        e@ == wrong_type(key@),
{
    ConfigError::bare(ConfigErrorKind::WrongType).within(key)
}

/// The address, the netmask and the name that an entry of `home_nets` gives:
/// the text under `network`, read as an address with its prefix length, and
/// the text under `network_name`.
pub open spec fn home_net_of(entry: Json) -> Result<(IpAddr, IpAddr, Seq<char>), ConfigErrorView> {
    match entry.member("network"@) {
        None => Err(missing_key("network"@)),
        Some(network) => match network.text() {
            None => Err(wrong_type("network"@)),
            Some(network) => match entry.member("network_name"@) {
                None => Err(missing_key("network_name"@)),
                Some(name) => match name.text() {
                    None => Err(wrong_type("network_name"@)),
                    Some(name) => match address_of(network) {
                        Err(e) => Err(e.within("network"@)),
                        Ok((address, netmask)) => Ok((address, netmask, name)),
                    },
                },
            },
        },
    }
}

/// Reads an entry of `home_nets`.
pub fn parse_home_net(j_home_net: &JsonValue) -> (r: Result<(IpAddr, IpAddr, String), ConfigError>)
    ensures
        match r {
            Ok((address, netmask, name)) => home_net_of(j_home_net@) == Ok::<
                (IpAddr, IpAddr, Seq<char>),
                ConfigErrorView,
            >((address, netmask, name@)),
            Err(e) => home_net_of(j_home_net@) == Err::<
                (IpAddr, IpAddr, Seq<char>),
                ConfigErrorView,
            >(e@),
        },
{
    let network_str = match j_home_net.get("network") {
        None => {
            return Err(refuse_missing("network"));
        },
        Some(network) => match network.as_str() {
            None => {
                return Err(refuse_type("network"));
            },
            Some(network) => network,
        },
    };
    let network_name = match j_home_net.get("network_name") {
        None => {
            return Err(refuse_missing("network_name"));
        },
        Some(name) => match name.as_str() {
            None => {
                return Err(refuse_type("network_name"));
            },
            Some(name) => name,
        },
    };
    match parse_address(network_str) {
        Ok((address, netmask)) => Ok((address, netmask, network_name.to_owned())),
        Err(e) => Err(e.within("network")),
    }
}

/// The truth value under `exporter_in_wan_side`.
pub open spec fn exporter_in_wan_side_of(value: Json) -> Result<bool, ConfigErrorView> {
    match value.boolean() {
        Some(b) => Ok(b),
        None => Err(fault(ConfigErrorKind::WrongType, Seq::empty())),
    }
}

/// The truth value under `span_port`.
pub open spec fn span_port_of(value: Json) -> Result<bool, ConfigErrorView> {
    match value.boolean() {
        Some(b) => Ok(b),
        None => Err(fault(ConfigErrorKind::WrongType, Seq::empty())),
    }
}

/// The number under `fallback_first_switch`: an integer that a signed 64-bit
/// integer holds.
pub open spec fn fallback_first_switch_of(value: Json) -> Result<i64, ConfigErrorView> {
    match value.integer() {
        Some(n) => Ok(n),
        None => Err(fault(ConfigErrorKind::WrongType, Seq::empty())),
    }
}

/// A text without its first and its last character.
pub open spec fn inner_text(text: Seq<char>) -> Seq<char> {
    if text.len() >= 2 {
        text.subrange(1, text.len() - 1)
    } else {
        Seq::empty()
    }
}

/// The enrichment that an object gives: its compact JSON text, without the
/// outer braces.
pub open spec fn enrichment_of(value: Json) -> Result<Seq<char>, ConfigErrorView> {
    match value {
        Json::Object(_) => match written_document(value, json_text(value)) {
            Ok(text) => Ok(inner_text(text)),
            Err(e) => Err(e),
        },
        _ => Err(fault(ConfigErrorKind::WrongType, Seq::empty())),
    }
}

/// Reads the value under `exporter_in_wan_side`.
pub fn parse_exporter_in_wan_side(j_exporter_in_wan_side: &JsonValue) -> (r: Result<
    bool,
    ConfigError,
>)
    ensures
        foretold(r, exporter_in_wan_side_of(j_exporter_in_wan_side@)),
{
    match j_exporter_in_wan_side.as_bool() {
        Some(b) => Ok(b),
        None => Err(ConfigError::bare(ConfigErrorKind::WrongType)),
    }
}

/// Reads the value under `span_port`.
pub fn parse_span_port(j_span_port: &JsonValue) -> (r: Result<bool, ConfigError>)
    ensures
        foretold(r, span_port_of(j_span_port@)),
{
    match j_span_port.as_bool() {
        Some(b) => Ok(b),
        None => Err(ConfigError::bare(ConfigErrorKind::WrongType)),
    }
}

/// Reads the value under `fallback_first_switch`.
pub fn parse_fallback_first_switch(j_fallback_first_switch: &JsonValue) -> (r: Result<
    i64,
    ConfigError,
>)
    ensures
        foretold(r, fallback_first_switch_of(j_fallback_first_switch@)),
{
    match j_fallback_first_switch.as_i64() {
        Some(n) => Ok(n),
        None => Err(ConfigError::bare(ConfigErrorKind::WrongType)),
    }
}

/// The enrichment that the compact text of an object gives: the text without
/// the outer braces.
pub fn strip_braces(text: &str) -> (inner: String)
    ensures
        inner@ == inner_text(text@),
{
    let len = text.unicode_len();
    if len >= 2 {
        text.substring_char(1, len - 1).to_owned()
    } else {
        String::new()
    }
}

/// Reads the value under `enrichment`.
pub fn parse_enrichment(j_enrichment: &JsonValue) -> (r: Result<String, ConfigError>)
    ensures
        match r {
            Ok(text) => enrichment_of(j_enrichment@) == Ok::<Seq<char>, ConfigErrorView>(text@),
            Err(e) => enrichment_of(j_enrichment@) == Err::<Seq<char>, ConfigErrorView>(e@),
        },
{
    match j_enrichment.as_object() {
        Some(_) => match to_text(j_enrichment) {
            Ok(text) => Ok(strip_braces(text.as_str())),
            Err(e) => Err(e),
        },
        None => Err(ConfigError::bare(ConfigErrorKind::WrongType)),
    }
}

/// The part of an observation domain that a configuration document sets.
pub struct DomainConfig {
    pub id: u32,
    pub enrichment: Option<Seq<u8>>,
    pub fallback_first_switch: Option<i64>,
    /// The home networks, each under its masked address.
    pub networks: Map<IpAddr, NetworkView>,
    pub exporter_in_wan_side: bool,
    pub span_port: bool,
}

/// The configuration of a domain that nothing was set in.
pub open spec fn blank_domain(id: u32) -> DomainConfig {
    DomainConfig {
        id,
        enrichment: None,
        fallback_first_switch: None,
        networks: Map::empty(),
        exporter_in_wan_side: false,
        span_port: false,
    }
}

/// What the home networks of a domain hold, each under its key.
pub open spec fn network_views(networks: Map<IpAddr, Network>) -> Map<IpAddr, NetworkView> {
    networks.map_values(|network: Network| network@)
}

/// The configuration that a domain holds.
pub open spec fn domain_config(domain: ObservationIDView) -> DomainConfig {
    DomainConfig {
        id: domain.id,
        enrichment: domain.enrichment,
        fallback_first_switch: domain.fallback_first_switch,
        networks: network_views(domain.networks),
        exporter_in_wan_side: domain.exporter_in_wan_side,
        span_port: domain.span_port,
    }
}

/// Whether a domain holds nothing that only the host attaches: no
/// application, selector, interface or template, and none of the DNS flags.
pub open spec fn untouched_by_host(domain: ObservationIDView) -> bool {
    &&& domain.applications == Map::<u64, Application>::empty()
    &&& domain.selectors == Map::<u64, Selector>::empty()
    &&& domain.interfaces == Map::<u64, Interface>::empty()
    &&& domain.templates == Map::<u16, Handle>::empty()
    &&& !domain.want_client_dns
    &&& !domain.want_target_dns
    &&& !domain.ptr_dns_target
    &&& !domain.ptr_dns_client
}

/// The home networks of a domain after the entries of a `home_nets` array
/// from position `from` on were stored in turn, each under its masked
/// address, a later one in place of an earlier one with that address. A
/// refusal names the position of the entry at fault.
pub open spec fn home_nets_applied(
    networks: Map<IpAddr, NetworkView>,
    entries: Seq<Json>,
    from: int,
) -> Result<Map<IpAddr, NetworkView>, ConfigErrorView>
    decreases entries.len() - from,
{
    if from < 0 || from >= entries.len() {
        Ok(networks)
    } else {
        match home_net_of(entries[from]) {
            Err(e) => Err(e.within(decimal_text(from as nat))),
            Ok((address, netmask, name)) => match network_of(address, netmask, name) {
                None => Err(
                    fault(ConfigErrorKind::FamilyMismatch, Seq::empty()).within(
                        decimal_text(from as nat),
                    ),
                ),
                Some(network) => home_nets_applied(
                    networks.insert(network.ip, network),
                    entries,
                    from + 1,
                ),
            },
        }
    }
}

/// An address and a netmask that were read from one text make a network:
/// they are of one family, and stay so when the address is made canonical.
pub proof fn lemma_read_address_makes_a_network(text: Seq<char>, name: Seq<char>)
    ensures
        address_of(text) matches Ok((address, netmask)) ==> address.same_family(netmask)
            && network_of(address, netmask, name) is Some,
{
}

/// Whether a key is one of those that a domain's object is read for.
pub open spec fn is_known_field(key: Seq<char>) -> bool {
    ||| key == "home_nets"@
    ||| key == "enrichment"@
    ||| key == "fallback_first_switch"@
    ||| key == "span_port"@
    ||| key == "exporter_in_wan_side"@
}

/// The configuration of a domain after one member of its object was read.
/// The recognised keys are `home_nets`, `enrichment`, `fallback_first_switch`,
/// `span_port` and `exporter_in_wan_side`; a member under any other key
/// changes nothing. A flag is switched on by `true` and left as it is by
/// `false`.
pub open spec fn field_applied(state: DomainConfig, key: Seq<char>, value: Json) -> Result<
    DomainConfig,
    ConfigErrorView,
> {
    if key == "home_nets"@ {
        match value.items() {
            None => Err(wrong_type(key)),
            Some(entries) => match home_nets_applied(state.networks, entries, 0) {
                Ok(networks) => Ok(DomainConfig { networks, ..state }),
                Err(e) => Err(e.within(key)),
            },
        }
    } else if key == "enrichment"@ {
        match enrichment_of(value) {
            Ok(text) => Ok(
                DomainConfig { enrichment: Some(vstd::utf8::encode_utf8(text)), ..state },
            ),
            Err(e) => Err(e.within(key)),
        }
    } else if key == "fallback_first_switch"@ {
        match fallback_first_switch_of(value) {
            Ok(n) => Ok(DomainConfig { fallback_first_switch: Some(n), ..state }),
            Err(e) => Err(e.within(key)),
        }
    } else if key == "span_port"@ {
        match span_port_of(value) {
            Ok(on) => Ok(DomainConfig { span_port: state.span_port || on, ..state }),
            Err(e) => Err(e.within(key)),
        }
    } else if key == "exporter_in_wan_side"@ {
        match exporter_in_wan_side_of(value) {
            Ok(on) => Ok(
                DomainConfig {
                    exporter_in_wan_side: state.exporter_in_wan_side || on,
                    ..state
                },
            ),
            Err(e) => Err(e.within(key)),
        }
    } else {
        Ok(state)
    }
}

/// The configuration of a domain after the members of its object from
/// position `from` on were read in turn.
pub open spec fn fields_applied(
    state: DomainConfig,
    members: Seq<(Seq<char>, Json)>,
    from: int,
) -> Result<DomainConfig, ConfigErrorView>
    decreases members.len() - from,
{
    if from < 0 || from >= members.len() {
        Ok(state)
    } else {
        match field_applied(state, members[from].0, members[from].1) {
            Ok(next) => fields_applied(next, members, from + 1),
            Err(e) => Err(e),
        }
    }
}

/// The identifier that the key of a domain spells: `default` is 0, any other
/// key is a number that an unsigned 32-bit integer holds.
pub open spec fn domain_id_of(key: Seq<char>) -> Result<u32, ConfigErrorView> {
    if key == "default"@ {
        Ok(0)
    } else {
        match unsigned_of(key, 0xffff_ffff) {
            Some(id) => Ok(id as u32),
            None => Err(fault(ConfigErrorKind::BadDomainId, key)),
        }
    }
}

/// The configuration of the domain that a key and the object under it give.
pub open spec fn domain_of(key: Seq<char>, value: Json) -> Result<DomainConfig, ConfigErrorView> {
    match domain_id_of(key) {
        Err(e) => Err(e),
        Ok(id) => match value.members() {
            None => Err(fault(ConfigErrorKind::WrongType, Seq::empty())),
            Some(members) => fields_applied(blank_domain(id), members, 0),
        },
    }
}

proof fn lemma_network_views_insert(networks: Map<IpAddr, Network>, network: Network)
    ensures
        network_views(networks.insert(network@.ip, network)) == network_views(networks).insert(
            network@.ip,
            network@,
        ),
{
    assert(network_views(networks.insert(network@.ip, network)) =~= network_views(
        networks,
    ).insert(network@.ip, network@));
}

fn decimal_string(n: usize) -> (text: String)
    ensures
        text@ == decimal_text(n as nat),
{
    let mut text = String::new();
    push_decimal(&mut text, n as u64);
    assert(text@ =~= decimal_text(n as nat));
    text
}

fn add_home_nets(domain: &mut ObservationID, entries: &Vec<JsonValue>) -> (r: Result<
    (),
    ConfigError,
>)
    ensures
        match r {
            Ok(()) => {
                &&& home_nets_applied(
                    domain_config(old(domain)@).networks,
                    item_views(entries@),
                    0,
                ) == Ok::<Map<IpAddr, NetworkView>, ConfigErrorView>(
                    domain_config(final(domain)@).networks,
                )
                &&& final(domain)@ == (ObservationIDView {
                    networks: final(domain)@.networks,
                    ..old(domain)@
                })
            },
            Err(e) => home_nets_applied(
                domain_config(old(domain)@).networks,
                item_views(entries@),
                0,
            ) == Err::<Map<IpAddr, NetworkView>, ConfigErrorView>(e@),
        },
{
    let ghost all = item_views(entries@);
    let mut i: usize = 0;
    while i < entries.len()
        invariant
            i <= entries.len(),
            all == item_views(entries@),
            home_nets_applied(domain_config(old(domain)@).networks, all, 0) == home_nets_applied(
                domain_config(domain@).networks,
                all,
                i as int,
            ),
            domain@ == (ObservationIDView { networks: domain@.networks, ..old(domain)@ }),
        decreases entries.len() - i,
    {
        assert(all[i as int] == entries@[i as int]@);
        let (address, netmask, name) = match parse_home_net(&entries[i]) {
            Ok(parts) => parts,
            Err(e) => {
                return Err(e.within(decimal_string(i).as_str()));
            },
        };
        match Network::new(address, netmask, name.as_str()) {
            Ok(network) => {
                proof {
                    lemma_network_views_insert(domain@.networks, network);
                }
                domain.add_network(network);
            },
            Err(_) => {
                return Err(
                    ConfigError::bare(ConfigErrorKind::FamilyMismatch).within(
                        decimal_string(i).as_str(),
                    ),
                );
            },
        }
        i += 1;
    }
    Ok(())
}

fn apply_field(domain: &mut ObservationID, key: &str, value: &JsonValue) -> (r: Result<
    (),
    ConfigError,
>)
    ensures
        match r {
            Ok(()) => {
                &&& field_applied(domain_config(old(domain)@), key@, value@) == Ok::<
                    DomainConfig,
                    ConfigErrorView,
                >(domain_config(final(domain)@))
                &&& untouched_by_host(old(domain)@) ==> untouched_by_host(final(domain)@)
            },
            Err(e) => field_applied(domain_config(old(domain)@), key@, value@) == Err::<
                DomainConfig,
                ConfigErrorView,
            >(e@),
        },
{
    if same_text(key, "home_nets") {
        match value.as_array() {
            None => Err(refuse_type(key)),
            Some(entries) => match add_home_nets(domain, entries) {
                Ok(()) => Ok(()),
                Err(e) => Err(e.within(key)),
            },
        }
    } else if same_text(key, "enrichment") {
        match parse_enrichment(value) {
            Ok(text) => {
                domain.set_enrichment(text.as_str().as_bytes());
                Ok(())
            },
            Err(e) => Err(e.within(key)),
        }
    } else if same_text(key, "fallback_first_switch") {
        match parse_fallback_first_switch(value) {
            Ok(n) => {
                domain.set_fallback_first_switch(n);
                Ok(())
            },
            Err(e) => Err(e.within(key)),
        }
    } else if same_text(key, "span_port") {
        match parse_span_port(value) {
            Ok(on) => {
                if on {
                    domain.set_span_mode();
                }
                Ok(())
            },
            Err(e) => Err(e.within(key)),
        }
    } else if same_text(key, "exporter_in_wan_side") {
        match parse_exporter_in_wan_side(value) {
            Ok(on) => {
                if on {
                    domain.set_exporter_in_wan_side();
                }
                Ok(())
            },
            Err(e) => Err(e.within(key)),
        }
    } else {
        Ok(())
    }
}

/// Reads the identifier of a domain from its key.
pub fn parse_domain_id(id_str: &str) -> (r: Result<u32, ConfigError>)
    ensures
        foretold(r, domain_id_of(id_str@)),
{
    if same_text(id_str, "default") {
        Ok(0)
    } else {
        match parse_unsigned(&to_chars(id_str), 0xffff_ffff) {
            Some(id) => Ok(id),
            None => Err(ConfigError::new(ConfigErrorKind::BadDomainId, id_str)),
        }
    }
}

/// Builds the observation domain that a key and the object under it
/// describe. Every recognised member is read in turn; a member under any
/// other key is passed over. The first fault refuses the whole domain.
pub fn parse_observation_id(id_str: &str, j_observation_id: &JsonValue) -> (r: Result<
    ObservationID,
    ConfigError,
>)
    ensures
        match r {
            Ok(domain) => {
                &&& domain_of(id_str@, j_observation_id@) == Ok::<DomainConfig, ConfigErrorView>(
                    domain_config(domain@),
                )
                &&& untouched_by_host(domain@)
            },
            Err(e) => domain_of(id_str@, j_observation_id@) == Err::<
                DomainConfig,
                ConfigErrorView,
            >(e@),
        },
{
    let id = match parse_domain_id(id_str) {
        Ok(id) => id,
        Err(e) => {
            return Err(e);
        },
    };
    let members = match j_observation_id.as_object() {
        Some(members) => members,
        None => {
            return Err(ConfigError::bare(ConfigErrorKind::WrongType));
        },
    };
    let mut observation_id = ObservationID::new(id);
    let ghost all = member_views(members@);
    assert(domain_config(observation_id@).networks =~= blank_domain(id).networks);
    let mut i: usize = 0;
    while i < members.len()
        invariant
            i <= members.len(),
            all == member_views(members@),
            domain_of(id_str@, j_observation_id@) == fields_applied(blank_domain(id), all, 0),
            untouched_by_host(observation_id@),
            fields_applied(blank_domain(id), all, 0) == fields_applied(
                domain_config(observation_id@),
                all,
                i as int,
            ),
        decreases members.len() - i,
    {
        assert(all[i as int] == (members@[i as int].0@, members@[i as int].1@));
        match apply_field(&mut observation_id, members[i].0.as_str(), &members[i].1) {
            Ok(()) => {},
            Err(e) => {
                return Err(e);
            },
        }
        i += 1;
    }
    Ok(observation_id)
}

/// The part of a sensor that a configuration document sets.
pub struct SensorConfig {
    /// The masked address of the sensor's network.
    pub network: IpAddr,
    pub netmask: IpAddr,
    pub default_domain: Option<DomainConfig>,
    /// The domains other than the default one, each under its identifier.
    pub domains: Map<u32, DomainConfig>,
}

/// The configuration that a sensor holds.
pub open spec fn sensor_config(sensor: SensorView) -> SensorConfig {
    SensorConfig {
        network: sensor.network,
        netmask: sensor.netmask,
        default_domain: match sensor.default_observation_id {
            Some(domain) => Some(domain_config(domain@)),
            None => None,
        },
        domains: sensor.observation_ids.map_values(
            |domain: ObservationID| domain_config(domain@),
        ),
    }
}

/// Whether a sensor is as a configuration document leaves it: without a
/// worker, its network written as text, and its domains untouched by the
/// host.
pub open spec fn as_configured(sensor: SensorView) -> bool {
    &&& sensor.worker is None
    &&& sensor.network_text == address_text(sensor.network)
    &&& masked(sensor.network, sensor.netmask) == Some(sensor.network)
    &&& match sensor.default_observation_id {
        Some(domain) => untouched_by_host(domain@),
        None => true,
    }
    &&& forall|id: u32| #[trigger]
        sensor.observation_ids.contains_key(id) ==> untouched_by_host(sensor.observation_ids[id]@)
}

/// The configuration of a sensor after the members of its `observations_id`
/// object from position `from` on were read in turn: a domain with
/// identifier 0 becomes the default domain, any other is stored under its
/// identifier, a later one in place of an earlier one. A refusal names the
/// key of the domain at fault.
pub open spec fn domains_applied(
    state: SensorConfig,
    members: Seq<(Seq<char>, Json)>,
    from: int,
) -> Result<SensorConfig, ConfigErrorView>
    decreases members.len() - from,
{
    if from < 0 || from >= members.len() {
        Ok(state)
    } else {
        match domain_of(members[from].0, members[from].1) {
            Err(e) => Err(e.within(members[from].0)),
            Ok(domain) => domains_applied(
                if domain.id == 0 {
                    SensorConfig { default_domain: Some(domain), ..state }
                } else {
                    SensorConfig { domains: state.domains.insert(domain.id, domain), ..state }
                },
                members,
                from + 1,
            ),
        }
    }
}

/// The configuration of a sensor without domains on the network of an
/// address under a netmask: both are made canonical, each on its own, and the
/// address is masked. An address and a netmask that are then of different
/// families make none.
pub open spec fn bare_sensor(address: IpAddr, netmask: IpAddr) -> Option<SensorConfig> {
    match masked(normalized(address), normalized(netmask)) {
        Some(network) => Some(
            SensorConfig {
                network,
                netmask: normalized(netmask),
                default_domain: None,
                domains: Map::empty(),
            },
        ),
        None => None,
    }
}

/// The configuration of the sensor that a key and the object under it give:
/// the key is the sensor's address with its prefix length, and the object
/// holds the domains under `observations_id`.
pub open spec fn sensor_of(key: Seq<char>, value: Json) -> Result<SensorConfig, ConfigErrorView> {
    if value.members() is None {
        Err(fault(ConfigErrorKind::WrongType, Seq::empty()))
    } else {
        match value.member("observations_id"@) {
            None => Err(missing_key("observations_id"@)),
            Some(domains) => match domains.members() {
                None => Err(wrong_type("observations_id"@)),
                Some(members) => match address_of(key) {
                    Err(e) => Err(e),
                    Ok((address, netmask)) => match bare_sensor(address, netmask) {
                        None => Err(fault(ConfigErrorKind::FamilyMismatch, key)),
                        Some(sensor) => match domains_applied(sensor, members, 0) {
                            Ok(sensor) => Ok(sensor),
                            Err(e) => Err(e.within("observations_id"@)),
                        },
                    },
                },
            },
        }
    }
}

/// The configurations of the sensors that the members of a `sensors_networks`
/// object from position `from` on give, after those in `sensors`. A refusal
/// names the key of the sensor at fault.
pub open spec fn sensors_collected(
    sensors: Seq<SensorConfig>,
    members: Seq<(Seq<char>, Json)>,
    from: int,
) -> Result<Seq<SensorConfig>, ConfigErrorView>
    decreases members.len() - from,
{
    if from < 0 || from >= members.len() {
        Ok(sensors)
    } else {
        match sensor_of(members[from].0, members[from].1) {
            Err(e) => Err(e.within(members[from].0)),
            Ok(sensor) => sensors_collected(sensors.push(sensor), members, from + 1),
        }
    }
}

/// The configurations of the sensors that a `sensors_networks` object gives,
/// in the order of its members.
pub open spec fn sensors_of(value: Json) -> Result<Seq<SensorConfig>, ConfigErrorView> {
    match value.members() {
        None => Err(fault(ConfigErrorKind::WrongType, Seq::empty())),
        Some(members) => sensors_collected(Seq::empty(), members, 0),
    }
}

/// The configurations of the sensors that a configuration document gives:
/// those of the object under `sensors_networks`.
pub open spec fn document_sensors(document: Json) -> Result<Seq<SensorConfig>, ConfigErrorView> {
    match document.member("sensors_networks"@) {
        None => Err(missing_key("sensors_networks"@)),
        Some(sensors) => match sensors_of(sensors) {
            Ok(sensors) => Ok(sensors),
            Err(e) => Err(e.within("sensors_networks"@)),
        },
    }
}

/// The configurations of the sensors that reading a text as a configuration
/// document gives.
pub open spec fn loaded_sensors(parsed: Option<Json>) -> Result<
    Seq<SensorConfig>,
    ConfigErrorView,
> {
    match read_document(parsed) {
        Ok(document) => document_sensors(document),
        Err(e) => Err(e),
    }
}

/// The configurations that sensors hold, in their order.
pub open spec fn sensor_configs(sensors: Seq<Sensor>) -> Seq<SensorConfig> {
    sensors.map_values(|sensor: Sensor| sensor_config(sensor@))
}

/// Whether every sensor is as a configuration document leaves it.
pub open spec fn all_as_configured(sensors: Seq<Sensor>) -> bool {
    forall|i: int| 0 <= i < sensors.len() ==> as_configured((#[trigger] sensors[i])@)
}

/// Whether an outcome is the sensors that were foretold, or the refusal.
pub open spec fn sensors_foretold(
    r: Result<Vec<Sensor>, ConfigError>,
    expected: Result<Seq<SensorConfig>, ConfigErrorView>,
) -> bool {
    match r {
        Ok(sensors) => expected == Ok::<Seq<SensorConfig>, ConfigErrorView>(
            sensor_configs(sensors@),
        ) && all_as_configured(sensors@),
        Err(e) => expected == Err::<Seq<SensorConfig>, ConfigErrorView>(e@),
    }
}

proof fn lemma_domain_configs_insert(domains: Map<u32, ObservationID>, domain: ObservationID)
    ensures
        domains.insert(domain@.id, domain).map_values(
            |domain: ObservationID| domain_config(domain@),
        ) == domains.map_values(|domain: ObservationID| domain_config(domain@)).insert(
            domain@.id,
            domain_config(domain@),
        ),
{
    assert(domains.insert(domain@.id, domain).map_values(
        |domain: ObservationID| domain_config(domain@),
    ) =~= domains.map_values(|domain: ObservationID| domain_config(domain@)).insert(
        domain@.id,
        domain_config(domain@),
    ));
}

/// Builds the sensor that a key and the object under it describe. The first
/// fault refuses the whole sensor.
pub fn parse_sensor(address: &str, j_sensor: &JsonValue) -> (r: Result<Sensor, ConfigError>)
    ensures
        match r {
            Ok(sensor) => sensor_of(address@, j_sensor@) == Ok::<SensorConfig, ConfigErrorView>(
                sensor_config(sensor@),
            ) && as_configured(sensor@),
            Err(e) => sensor_of(address@, j_sensor@) == Err::<SensorConfig, ConfigErrorView>(e@),
        },
{
    if j_sensor.as_object().is_none() {
        return Err(ConfigError::bare(ConfigErrorKind::WrongType));
    }
    let members = match j_sensor.get("observations_id") {
        None => {
            return Err(refuse_missing("observations_id"));
        },
        Some(domains) => match domains.as_object() {
            None => {
                return Err(refuse_type("observations_id"));
            },
            Some(members) => members,
        },
    };
    let (ip_address, netmask) = match parse_address(address) {
        Ok(parts) => parts,
        Err(e) => {
            return Err(e);
        },
    };
    let mut sensor = match Sensor::new(ip_address, netmask) {
        Ok(sensor) => sensor,
        Err(_) => {
            return Err(ConfigError::new(ConfigErrorKind::FamilyMismatch, address));
        },
    };
    let ghost all = member_views(members@);
    let ghost start = bare_sensor(ip_address, netmask).unwrap();
    assert(sensor_config(sensor@).domains =~= start.domains);
    let mut i: usize = 0;
    while i < members.len()
        invariant
            i <= members.len(),
            all == member_views(members@),
            sensor_of(address@, j_sensor@) == match domains_applied(start, all, 0) {
                Ok(sensor) => Ok::<SensorConfig, ConfigErrorView>(sensor),
                Err(e) => Err(e.within("observations_id"@)),
            },
            as_configured(sensor@),
            domains_applied(start, all, 0) == domains_applied(
                sensor_config(sensor@),
                all,
                i as int,
            ),
        decreases members.len() - i,
    {
        assert(all[i as int] == (members@[i as int].0@, members@[i as int].1@));
        let key = members[i].0.as_str();
        match parse_observation_id(key, &members[i].1) {
            Ok(observation_id) => {
                proof {
                    lemma_domain_configs_insert(sensor@.observation_ids, observation_id);
                }
                sensor.add_observation_id(observation_id);
            },
            Err(e) => {
                return Err(e.within(key).within("observations_id"));
            },
        }
        i += 1;
    }
    Ok(sensor)
}

/// Builds the sensors that a `sensors_networks` object describes, in the
/// order of its members. The first fault refuses them all.
pub fn parse_sensors(j_sensor_networks: &JsonValue) -> (r: Result<Vec<Sensor>, ConfigError>)
    ensures
        sensors_foretold(r, sensors_of(j_sensor_networks@)),
{
    let members = match j_sensor_networks.as_object() {
        Some(members) => members,
        None => {
            return Err(ConfigError::bare(ConfigErrorKind::WrongType));
        },
    };
    let ghost all = member_views(members@);
    let mut sensors: Vec<Sensor> = Vec::new();
    assert(sensor_configs(sensors@) =~= Seq::empty());
    let mut i: usize = 0;
    while i < members.len()
        invariant
            i <= members.len(),
            all == member_views(members@),
            sensors_of(j_sensor_networks@) == sensors_collected(Seq::empty(), all, 0),
            all_as_configured(sensors@),
            sensors_collected(Seq::empty(), all, 0) == sensors_collected(
                sensor_configs(sensors@),
                all,
                i as int,
            ),
        decreases members.len() - i,
    {
        assert(all[i as int] == (members@[i as int].0@, members@[i as int].1@));
        let key = members[i].0.as_str();
        match parse_sensor(key, &members[i].1) {
            Ok(sensor) => {
                let ghost before = sensors@;
                sensors.push(sensor);
                assert(sensor_configs(sensors@) =~= sensor_configs(before).push(
                    sensor_config(sensor@),
                ));
            },
            Err(e) => {
                return Err(e.within(key));
            },
        }
        i += 1;
    }
    Ok(sensors)
}

/// Builds the sensors that a configuration document describes: those of the
/// object under `sensors_networks`.
pub fn parse_document(document: &JsonValue) -> (r: Result<Vec<Sensor>, ConfigError>)
    ensures
        sensors_foretold(r, document_sensors(document@)),
{
    match document.get("sensors_networks") {
        None => Err(refuse_missing("sensors_networks")),
        Some(sensors) => match parse_sensors(sensors) {
            Ok(sensors) => Ok(sensors),
            Err(e) => Err(e.within("sensors_networks")),
        },
    }
}

/// Reads a text as a configuration document and builds the sensors that it
/// describes. A text that is no JSON, and any fault in the document, refuses
/// the whole load.
pub fn load_sensors(contents: &str) -> (r: Result<Vec<Sensor>, ConfigError>)
    ensures
        sensors_foretold(r, loaded_sensors(parsed_json(contents@))),
{
    match from_text(contents) {
        Ok(document) => parse_document(&document),
        Err(e) => Err(e),
    }
}

/// Reads a text as a configuration document and stores the sensors that it
/// describes, in the order of the document. A refused load stores nothing.
pub fn load_into(database: &mut SensorsDB, contents: &str) -> (r: Result<(), ConfigError>)
    ensures
        match r {
            Ok(()) => exists|sensors: Seq<Sensor>|
                {
                    &&& loaded_sensors(parsed_json(contents@)) == Ok::<
                        Seq<SensorConfig>,
                        ConfigErrorView,
                    >(#[trigger] sensor_configs(sensors))
                    &&& all_as_configured(sensors)
                    &&& final(database)@ == stored_all(old(database)@, sensors, 0)
                },
            Err(e) => {
                &&& loaded_sensors(parsed_json(contents@)) == Err::<
                    Seq<SensorConfig>,
                    ConfigErrorView,
                >(e@)
                &&& final(database)@ == old(database)@
            },
        },
{
    match load_sensors(contents) {
        Ok(sensors) => {
            database.add_sensors(sensors);
            Ok(())
        },
        Err(e) => Err(e),
    }
}

/// The keys of the members of a domain's object from position `from` on that
/// are not recognised, in their order.
pub open spec fn ignored_keys(members: Seq<(Seq<char>, Json)>, from: int) -> Seq<Seq<char>>
    decreases members.len() - from,
{
    if from < 0 || from >= members.len() {
        Seq::empty()
    } else if is_known_field(members[from].0) {
        ignored_keys(members, from + 1)
    } else {
        seq![members[from].0] + ignored_keys(members, from + 1)
    }
}

/// Whether a key is one of those that a domain's object is read for.
pub fn is_known(key: &str) -> (r: bool)
    ensures
        r == is_known_field(key@),
{
    same_text(key, "home_nets") || same_text(key, "enrichment") || same_text(
        key,
        "fallback_first_switch",
    ) || same_text(key, "span_port") || same_text(key, "exporter_in_wan_side")
}

/// The keys of a domain's object that `parse_observation_id` passes over, in
/// their order, for the host to warn about; none where the value is no
/// object.
pub fn ignored_fields(j_observation_id: &JsonValue) -> (keys: Vec<String>)
    ensures
        keys@.map_values(|key: String| key@) == match j_observation_id@.members() {
            Some(members) => ignored_keys(members, 0),
            None => Seq::empty(),
        },
{
    let mut keys: Vec<String> = Vec::new();
    assert(keys@.map_values(|key: String| key@) =~= Seq::<Seq<char>>::empty());
    match j_observation_id.as_object() {
        Some(members) => {
            let ghost all = member_views(members@);
            let mut i: usize = 0;
            while i < members.len()
                invariant
                    i <= members.len(),
                    all == member_views(members@),
                    ignored_keys(all, 0) == keys@.map_values(|key: String| key@) + ignored_keys(
                        all,
                        i as int,
                    ),
                decreases members.len() - i,
            {
                assert(all[i as int] == (members@[i as int].0@, members@[i as int].1@));
                if !is_known(members[i].0.as_str()) {
                    let ghost before = keys@.map_values(|key: String| key@);
                    keys.push(members[i].0.clone());
                    assert(keys@.map_values(|key: String| key@) =~= before.push(
                        members@[i as int].0@,
                    ));
                    assert(before.push(members@[i as int].0@) + ignored_keys(all, i + 1)
                        =~= before + (seq![members@[i as int].0@] + ignored_keys(all, i + 1)));
                }
                i += 1;
            }
            assert(keys@.map_values(|key: String| key@) + Seq::<Seq<char>>::empty()
                =~= keys@.map_values(|key: String| key@));
            keys
        },
        None => keys,
    }
}

proof fn lemma_fields_after_removed(
    state: DomainConfig,
    members: Seq<(Seq<char>, Json)>,
    at: int,
    from: int,
)
    requires
        0 <= at < from <= members.len(),
    ensures
        fields_applied(state, members, from) == fields_applied(state, members.remove(at), from - 1),
    decreases members.len() - from,
{
    if from < members.len() {
        assert(members.remove(at)[from - 1] == members[from]);
        match field_applied(state, members[from].0, members[from].1) {
            Ok(next) => {
                lemma_fields_after_removed(next, members, at, from + 1);
            },
            Err(_) => {},
        }
    }
}

/// A member under a key that is not recognised changes nothing and refuses
/// nothing.
pub proof fn lemma_unknown_field_is_ignored(state: DomainConfig, key: Seq<char>, value: Json)
    requires
        !is_known_field(key),
    ensures
        field_applied(state, key, value) == Ok::<DomainConfig, ConfigErrorView>(state),
{
}

/// An object with a member under a key that is not recognised gives the
/// domain that the object without that member gives.
pub proof fn lemma_unknown_member_can_be_dropped(
    state: DomainConfig,
    members: Seq<(Seq<char>, Json)>,
    at: int,
    from: int,
)
    requires
        0 <= from <= at < members.len(),
        !is_known_field(members[at].0),
    ensures
        fields_applied(state, members, from) == fields_applied(state, members.remove(at), from),
    decreases at - from,
{
    if from == at {
        lemma_fields_after_removed(state, members, at, at + 1);
    } else {
        assert(members.remove(at)[from] == members[from]);
        match field_applied(state, members[from].0, members[from].1) {
            Ok(next) => {
                lemma_unknown_member_can_be_dropped(next, members, at, from + 1);
            },
            Err(_) => {},
        }
    }
}

} // verus!
