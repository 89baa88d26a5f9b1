use vstd::prelude::*;
use vstd::string::*;

use crate::error::BlockadeError;
use crate::json::{find_member, member, Json};
use crate::table::Table;
use crate::text::{dec_text, decimal};
use crate::wire::{
    BlockadeCommandArgs, BlockadeConfig, BlockadeContainer, BlockadeNetArgs, BlockadeNetConfig,
    BlockadePartitionArgs, BlockadeContainerState, BlockadeContainerStatus, BlockadeNetStatus, BlockadeState,
    Ipv4Address, Stringify, ip_default_resource, none_str_resource, none_u32_resource,
};

verus! {

/// The text held by member `key`, when that member is a string.
pub open spec fn text_member(f: Seq<(String, Json)>, key: Seq<char>) -> Option<Seq<char>> {
    match member(f, key) {
        Some(Json::Str(s)) => Some(s@),
        _ => None,
    }
}

/// The text held by member `key`, where an absent or null member reads as empty.
pub open spec fn optional_text_member(f: Seq<(String, Json)>, key: Seq<char>) -> Option<Seq<char>> {
    match member(f, key) {
        None => Some(Seq::<char>::empty()),
        Some(Json::Null) => Some(Seq::<char>::empty()),
        Some(Json::Str(s)) => Some(s@),
        _ => None,
    }
}

/// The partition number, where an absent or null member reads as 0.
pub open spec fn partition_member(f: Seq<(String, Json)>) -> Option<u32> {
    match member(f, "partition"@) {
        None => Some(0u32),
        Some(Json::Null) => Some(0u32),
        Some(Json::Int(n)) => if 0 <= n <= u32::MAX {
            Some(n as u32)
        } else {
            None
        },
        _ => None,
    }
}

/// The address held by member "ip_address", where an absent or null member
/// reads as 0.0.0.0.
pub open spec fn address_member(f: Seq<(String, Json)>) -> Option<Ipv4Address> {
    match member(f, "ip_address"@) {
        None => Some(Ipv4Address::zero()),
        Some(Json::Null) => Some(Ipv4Address::zero()),
        Some(Json::Str(s)) => Ipv4Address::spec_parse(s@),
        _ => None,
    }
}

pub open spec fn net_status_member(f: Seq<(String, Json)>) -> Option<BlockadeNetStatus> {
    match text_member(f, "network_state"@) {
        Some(s) => BlockadeNetStatus::spec_decode(s),
        None => None,
    }
}

pub open spec fn container_status_member(f: Seq<(String, Json)>) -> Option<BlockadeContainerStatus> {
    match text_member(f, "status"@) {
        Some(s) => BlockadeContainerStatus::spec_decode(s),
        None => None,
    }
}

/// Whether a document describes a container.
pub open spec fn container_decodable(j: Json) -> bool {
    match j {
        Json::Object(f) => {
            &&& text_member(f@, "container_id"@) is Some
            &&& optional_text_member(f@, "device"@) is Some
            &&& address_member(f@) is Some
            &&& text_member(f@, "name"@) is Some
            &&& net_status_member(f@) is Some
            &&& partition_member(f@) is Some
            &&& container_status_member(f@) is Some
        },
        _ => false,
    }
}

/// Whether `c` is what document `j` says of a container.
pub open spec fn container_decodes(j: Json, c: BlockadeContainerState) -> bool {
    match j {
        Json::Object(f) => {
            &&& text_member(f@, "container_id"@) == Some(c.container_id@)
            &&& optional_text_member(f@, "device"@) == Some(c.device@)
            &&& address_member(f@) == Some(c.ip_address)
            &&& text_member(f@, "name"@) == Some(c.name@)
            &&& net_status_member(f@) == Some(c.network_state)
            &&& partition_member(f@) == Some(c.partition)
            &&& container_status_member(f@) == Some(c.status)
        },
        _ => false,
    }
}

/// A container description whose "device" member is absent, null or empty
/// decodes to an empty device; one whose "ip_address" is absent or null, to
/// 0.0.0.0; one whose "partition" is absent or null, to partition 0.
pub proof fn law_missing_fields_default(f: Vec<(String, Json)>, c: BlockadeContainerState)
    requires
        container_decodes(Json::Object(f), c),
    ensures
        (member(f@, "device"@) is None || member(f@, "device"@) == Some(Json::Null) || (member(
            f@,
            "device"@,
        ) matches Some(Json::Str(d)) && d@.len() == 0)) ==> c.device@.len() == 0,
        (member(f@, "ip_address"@) is None || member(f@, "ip_address"@) == Some(Json::Null))
            ==> c.ip_address == Ipv4Address::zero(),
        (member(f@, "partition"@) is None || member(f@, "partition"@) == Some(Json::Null)) ==> c.partition == 0,
{
}

/// A listing without a "blockades" member is read, as no blockades.
pub proof fn law_listing_without_names(f: Vec<(String, Json)>, names: Seq<String>)
    requires
        member(f@, "blockades"@) is None,
    ensures
        list_decodable(Json::Object(f)),
        list_decodes(Json::Object(f), names) <==> names.len() == 0,
{
}

fn shape_error() -> (r: BlockadeError)
    ensures
        r is JsonError,
{
    BlockadeError::JsonError(String::from_str("unexpected document shape"))
}

fn required_text(f: &Vec<(String, Json)>, key: &str) -> (r: Result<String, BlockadeError>)
    ensures
        match r {
            Ok(s) => text_member(f@, key@) == Some(s@),
            Err(e) => text_member(f@, key@) is None && e is JsonError,
        },
{
    match find_member(f, key) {
        Some(Json::Str(s)) => Ok(s.clone()),
        _ => Err(shape_error()),
    }
}

/// Decodes one container's observed state.
pub fn decode_container_state(j: &Json) -> (r: Result<BlockadeContainerState, BlockadeError>)
    ensures
        match r {
            Ok(c) => container_decodable(*j) && container_decodes(*j, c),
            Err(e) => !container_decodable(*j) && e is JsonError,
        },
{
    let f = match j {
        Json::Object(f) => f,
        _ => return Err(shape_error()),
    };
    let container_id = required_text(f, "container_id")?;
    let device = match find_member(f, "device") {
        None => none_str_resource(),
        Some(Json::Null) => none_str_resource(),
        Some(Json::Str(s)) => s.clone(),
        _ => return Err(shape_error()),
    };
    let ip_address = match find_member(f, "ip_address") {
        None => ip_default_resource(),
        Some(Json::Null) => ip_default_resource(),
        Some(Json::Str(s)) => match Ipv4Address::parse(s.as_str()) {
            Some(a) => a,
            None => return Err(shape_error()),
        },
        _ => return Err(shape_error()),
    };
    let name = required_text(f, "name")?;
    let network_state = match find_member(f, "network_state") {
        Some(Json::Str(s)) => match BlockadeNetStatus::from_str(s.as_str()) {
            Some(v) => v,
            None => return Err(shape_error()),
        },
        _ => return Err(shape_error()),
    };
    let partition: u32 = match find_member(f, "partition") {
        None => none_u32_resource(),
        Some(Json::Null) => none_u32_resource(),
        Some(Json::Int(n)) => if 0 <= *n && *n <= u32::MAX as i128 {
            *n as u32
        } else {
            return Err(shape_error());
        },
        _ => return Err(shape_error()),
    };
    let status = match find_member(f, "status") {
        Some(Json::Str(s)) => match BlockadeContainerStatus::from_str(s.as_str()) {
            Some(v) => v,
            None => return Err(shape_error()),
        },
        _ => return Err(shape_error()),
    };
    Ok(BlockadeContainerState { container_id, device, ip_address, name, network_state, partition, status })
}

/// The members of the "containers" object of a blockade document.
pub open spec fn container_members(j: Json) -> Option<Seq<(String, Json)>> {
    match j {
        Json::Object(f) => match member(f@, "containers"@) {
            Some(Json::Object(cs)) => Some(cs@),
            _ => None,
        },
        _ => None,
    }
}

/// Whether a document describes a blockade: an object whose "containers"
/// member maps names to container descriptions.
pub open spec fn state_decodable(j: Json) -> bool {
    &&& container_members(j) is Some
    &&& forall|i: int| 0 <= i < container_members(j)->0.len()
        ==> container_decodable(#[trigger] container_members(j)->0[i].1)
}

/// Whether `st` is what document `j` says of a blockade: one entry per named
/// container, each decoded from a member of that name.
pub open spec fn state_decodes(j: Json, st: BlockadeState) -> bool {
    let cs = container_members(j)->0;
    &&& container_members(j) is Some
    &&& st.containers.wf()
    &&& forall|k: Seq<char>| #![trigger st.containers@.contains_key(k)]
        st.containers@.contains_key(k) <==> exists|i: int| 0 <= i < cs.len() && cs[i].0@ == k
    &&& forall|k: Seq<char>| #![trigger st.containers@[k]]
        st.containers@.contains_key(k) ==> exists|i: int|
            0 <= i < cs.len() && cs[i].0@ == k && container_decodes(cs[i].1, st.containers@[k])
}

/// Decodes what the service reports of one blockade.
pub fn decode_state(j: &Json) -> (r: Result<BlockadeState, BlockadeError>)
    ensures
        match r {
            Ok(st) => state_decodable(*j) && state_decodes(*j, st),
            Err(e) => !state_decodable(*j) && e is JsonError,
        },
{
    let f = match j {
        Json::Object(f) => f,
        _ => return Err(shape_error()),
    };
    let cs = match find_member(f, "containers") {
        Some(Json::Object(cs)) => cs,
        _ => return Err(shape_error()),
    };
    let mut t: Table<BlockadeContainerState> = Table::new();
    let mut i: usize = 0;
    while i < cs.len()
        invariant
            container_members(*j) == Some(cs@),
            t.wf(),
            i <= cs@.len(),
            forall|q: int| 0 <= q < i ==> container_decodable(#[trigger] cs@[q].1),
            forall|k: Seq<char>| #![trigger t@.contains_key(k)]
                t@.contains_key(k) <==> exists|q: int| 0 <= q < i && cs@[q].0@ == k,
            forall|k: Seq<char>| #![trigger t@[k]]
                t@.contains_key(k) ==> exists|q: int| 0 <= q < i && cs@[q].0@ == k && container_decodes(cs@[q].1, t@[k]),
        decreases cs@.len() - i,
    {
        let c = match decode_container_state(&cs[i].1) {
            Ok(c) => c,
            Err(e) => {
                assert(!container_decodable(container_members(*j)->0[i as int].1));
                return Err(e);
            },
        };
        let ghost old_t = t@;
        t.insert(cs[i].0.clone(), c);
        proof {
            let key = cs@[i as int].0@;
            assert forall|k: Seq<char>| #![trigger t@.contains_key(k)]
                t@.contains_key(k) <==> exists|q: int| 0 <= q < i + 1 && cs@[q].0@ == k by {
                if k == key {
                    assert(cs@[i as int].0@ == k);
                } else if t@.contains_key(k) {
                    assert(old_t.contains_key(k));
                }
            }
            assert forall|k: Seq<char>| #![trigger t@[k]]
                t@.contains_key(k) implies exists|q: int| 0 <= q < i + 1 && cs@[q].0@ == k && container_decodes(cs@[q].1, t@[k]) by {
                if k == key {
                    assert(cs@[i as int].0@ == k && container_decodes(cs@[i as int].1, t@[k]));
                } else {
                    assert(old_t.contains_key(k) && old_t[k] == t@[k]);
                }
            }
        }
        i = i + 1;
    }
    let st = BlockadeState { containers: t };
    proof {
        let ms = container_members(*j)->0;
        assert(ms == cs@);
        assert forall|k: Seq<char>| #![trigger st.containers@.contains_key(k)]
            st.containers@.contains_key(k) <==> exists|q: int| 0 <= q < ms.len() && ms[q].0@ == k by {
            if st.containers@.contains_key(k) {
                let q = choose|q: int| 0 <= q < i && cs@[q].0@ == k;
                assert(ms[q].0@ == k);
            }
        }
        assert forall|k: Seq<char>| #![trigger st.containers@[k]]
            st.containers@.contains_key(k) implies exists|q: int|
                0 <= q < ms.len() && ms[q].0@ == k && container_decodes(ms[q].1, st.containers@[k]) by {
            let q = choose|q: int| 0 <= q < i && cs@[q].0@ == k && container_decodes(cs@[q].1, t@[k]);
            assert(ms[q].0@ == k);
        }
    }
    Ok(st)
}

/// Whether `j` is an array of the strings `names`, in order.
pub open spec fn names_json(j: Json, names: Seq<String>) -> bool {
    match j {
        Json::Array(v) => v@.len() == names.len() && forall|i: int| 0 <= i < names.len() ==> is_text(#[trigger] v@[i], names[i]@),
        _ => false,
    }
}

pub open spec fn is_text(j: Json, s: Seq<char>) -> bool {
    match j {
        Json::Str(t) => t@ == s,
        _ => false,
    }
}

/// Whether a listing document can be read: an object whose "blockades"
/// member, if present, is an array of strings.
pub open spec fn list_decodable(j: Json) -> bool {
    match j {
        Json::Object(f) => match member(f@, "blockades"@) {
            None => true,
            Some(Json::Array(v)) => forall|i: int| 0 <= i < v@.len() ==> (#[trigger] v@[i] is Str),
            _ => false,
        },
        _ => false,
    }
}

/// Whether `names` is what a listing document gives; no "blockades" member
/// means no blockades.
pub open spec fn list_decodes(j: Json, names: Seq<String>) -> bool {
    match j {
        Json::Object(f) => match member(f@, "blockades"@) {
            None => names.len() == 0,
            Some(a) => names_json(a, names),
        },
        _ => false,
    }
}

/// Decodes the list of blockade names.
pub fn decode_list(j: &Json) -> (r: Result<Vec<String>, BlockadeError>)
    ensures
        match r {
            Ok(names) => list_decodable(*j) && list_decodes(*j, names@),
            Err(e) => !list_decodable(*j) && e is JsonError,
        },
{
    let f = match j {
        Json::Object(f) => f,
        _ => return Err(shape_error()),
    };
    let v = match find_member(f, "blockades") {
        None => return Ok(Vec::new()),
        Some(Json::Array(v)) => v,
        _ => return Err(shape_error()),
    };
    let mut names: Vec<String> = Vec::new();
    let mut i: usize = 0;
    while i < v.len()
        invariant
            member(f@, "blockades"@) == Some(Json::Array(*v)),
            *j == Json::Object(*f),
            i <= v@.len(),
            names@.len() == i,
            forall|q: int| 0 <= q < i ==> is_text(#[trigger] v@[q], names@[q]@),
        decreases v@.len() - i,
    {
        match &v[i] {
            Json::Str(s) => names.push(s.clone()),
            _ => {
                assert(!(v@[i as int] is Str));
                return Err(shape_error());
            },
        }
        i = i + 1;
    }
    Ok(names)
}

fn text(s: &str) -> (r: Json)
    ensures
        is_text(r, s@),
{
    Json::Str(String::from_str(s))
}

/// Encodes a list of names as an array of strings.
pub fn encode_names(names: &Vec<String>) -> (r: Json)
    ensures
        names_json(r, names@),
{
    let mut v: Vec<Json> = Vec::new();
    let mut i: usize = 0;
    while i < names.len()
        invariant
            i <= names@.len(),
            v@.len() == i,
            forall|q: int| 0 <= q < i ==> is_text(#[trigger] v@[q], names@[q]@),
        decreases names@.len() - i,
    {
        v.push(text(names[i].as_str()));
        i = i + 1;
    }
    Json::Array(v)
}

/// Whether `j` is the body of a command request for `a`.
pub open spec fn command_args_json(j: Json, a: BlockadeCommandArgs) -> bool {
    match j {
        Json::Object(f) => {
            &&& f@.len() == 2
            &&& f@[0].0@ == "command"@ && is_text(f@[0].1, a.command.spec_token())
            &&& f@[1].0@ == "container_names"@ && names_json(f@[1].1, a.container_names@)
        },
        _ => false,
    }
}

pub fn encode_command_args(a: &BlockadeCommandArgs) -> (r: Json)
    ensures
        command_args_json(r, *a),
{
    let mut f: Vec<(String, Json)> = Vec::new();
    f.push((String::from_str("command"), text(a.command.to_str())));
    f.push((String::from_str("container_names"), encode_names(&a.container_names)));
    Json::Object(f)
}

/// Whether `j` is the body of a network state request for `a`.
pub open spec fn net_args_json(j: Json, a: BlockadeNetArgs) -> bool {
    match j {
        Json::Object(f) => {
            &&& f@.len() == 2
            &&& f@[0].0@ == "network_state"@ && is_text(f@[0].1, a.network_state.spec_token())
            &&& f@[1].0@ == "container_names"@ && names_json(f@[1].1, a.container_names@)
        },
        _ => false,
    }
}

pub fn encode_net_args(a: &BlockadeNetArgs) -> (r: Json)
    ensures
        net_args_json(r, *a),
{
    let mut f: Vec<(String, Json)> = Vec::new();
    f.push((String::from_str("network_state"), text(a.network_state.to_str())));
    f.push((String::from_str("container_names"), encode_names(&a.container_names)));
    Json::Object(f)
}

/// Whether `j` is the body of a partition request for `a`.
pub open spec fn partition_args_json(j: Json, a: BlockadePartitionArgs) -> bool {
    match j {
        Json::Object(f) => {
            &&& f@.len() == 1
            &&& f@[0].0@ == "partitions"@
            &&& match f@[0].1 {
                Json::Array(g) => g@.len() == a.partitions@.len() && forall|i: int|
                    0 <= i < g@.len() ==> names_json(#[trigger] g@[i], a.partitions@[i]@),
                _ => false,
            }
        },
        _ => false,
    }
}

pub fn encode_partition_args(a: &BlockadePartitionArgs) -> (r: Json)
    ensures
        partition_args_json(r, *a),
{
    let mut g: Vec<Json> = Vec::new();
    let mut i: usize = 0;
    while i < a.partitions.len()
        invariant
            i <= a.partitions@.len(),
            g@.len() == i,
            forall|q: int| 0 <= q < i ==> names_json(#[trigger] g@[q], a.partitions@[q]@),
        decreases a.partitions@.len() - i,
    {
        g.push(encode_names(&a.partitions[i]));
        i = i + 1;
    }
    let mut f: Vec<(String, Json)> = Vec::new();
    f.push((String::from_str("partitions"), Json::Array(g)));
    Json::Object(f)
}

/// Whether `j` is an object holding the texts of `t`, in the table's order.
pub open spec fn text_table_json(j: Json, t: Table<String>) -> bool {
    match j {
        Json::Object(f) => f@.len() == t.entries@.len() && forall|i: int| 0 <= i < f@.len() ==>
            (#[trigger] f@[i]).0@ == t.entries@[i].0@ && is_text(f@[i].1, t.entries@[i].1@),
        _ => false,
    }
}

fn encode_text_table(t: &Table<String>) -> (r: Json)
    ensures
        text_table_json(r, *t),
{
    let mut f: Vec<(String, Json)> = Vec::new();
    let mut i: usize = 0;
    while i < t.entries.len()
        invariant
            i <= t.entries@.len(),
            f@.len() == i,
            forall|q: int| 0 <= q < i ==>
                (#[trigger] f@[q]).0@ == t.entries@[q].0@ && is_text(f@[q].1, t.entries@[q].1@),
        decreases t.entries@.len() - i,
    {
        f.push((t.entries[i].0.clone(), text(t.entries[i].1.as_str())));
        i = i + 1;
    }
    Json::Object(f)
}

/// Whether `j` describes container `c`: its image, hostname, volumes,
/// exposed ports, published ports (keyed by the decimal host port), links and
/// command (null when there is none).
pub open spec fn container_json(j: Json, c: BlockadeContainer) -> bool {
    match j {
        Json::Object(f) => {
            &&& f@.len() == 7
            &&& f@[0].0@ == "image"@ && is_text(f@[0].1, c.image@)
            &&& f@[1].0@ == "hostname"@ && is_text(f@[1].1, c.hostname@)
            &&& f@[2].0@ == "volumes"@ && text_table_json(f@[2].1, c.volumes)
            &&& f@[3].0@ == "expose"@ && match f@[3].1 {
                Json::Array(v) => v@.len() == c.expose@.len() && forall|i: int|
                    0 <= i < v@.len() ==> #[trigger] v@[i] == Json::Int(c.expose@[i] as i128),
                _ => false,
            }
            &&& f@[4].0@ == "ports"@ && match f@[4].1 {
                Json::Object(p) => p@.len() == c.ports@.len() && forall|i: int| 0 <= i < p@.len() ==>
                    (#[trigger] p@[i]).0@ == dec_text(c.ports@[i].0 as nat) && p@[i].1 == Json::Int(c.ports@[i].1 as i128),
                _ => false,
            }
            &&& f@[5].0@ == "links"@ && text_table_json(f@[5].1, c.links)
            &&& f@[6].0@ == "command"@ && match c.command {
                Some(s) => is_text(f@[6].1, s@),
                None => f@[6].1 == Json::Null,
            }
        },
        _ => false,
    }
}

pub fn encode_container(c: &BlockadeContainer) -> (r: Json)
    ensures
        container_json(r, *c),
{
    let mut expose: Vec<Json> = Vec::new();
    let mut i: usize = 0;
    while i < c.expose.len()
        invariant
            i <= c.expose@.len(),
            expose@.len() == i,
            forall|q: int| 0 <= q < i ==> #[trigger] expose@[q] == Json::Int(c.expose@[q] as i128),
        decreases c.expose@.len() - i,
    {
        expose.push(Json::Int(c.expose[i] as i128));
        i = i + 1;
    }
    let mut ports: Vec<(String, Json)> = Vec::new();
    let mut i: usize = 0;
    while i < c.ports.len()
        invariant
            i <= c.ports@.len(),
            ports@.len() == i,
            forall|q: int| 0 <= q < i ==>
                (#[trigger] ports@[q]).0@ == dec_text(c.ports@[q].0 as nat) && ports@[q].1 == Json::Int(c.ports@[q].1 as i128),
        decreases c.ports@.len() - i,
    {
        let (host, inner) = c.ports[i];
        ports.push((decimal(host as u64), Json::Int(inner as i128)));
        i = i + 1;
    }
    let command = match &c.command {
        Some(s) => text(s.as_str()),
        None => Json::Null,
    };
    let mut f: Vec<(String, Json)> = Vec::new();
    f.push((String::from_str("image"), text(c.image.as_str())));
    f.push((String::from_str("hostname"), text(c.hostname.as_str())));
    f.push((String::from_str("volumes"), encode_text_table(&c.volumes)));
    f.push((String::from_str("expose"), Json::Array(expose)));
    f.push((String::from_str("ports"), Json::Object(ports)));
    f.push((String::from_str("links"), encode_text_table(&c.links)));
    f.push((String::from_str("command"), command));
    Json::Object(f)
}

/// Whether `j` describes the network parameters `n`.
pub open spec fn net_config_json(j: Json, n: BlockadeNetConfig) -> bool {
    match j {
        Json::Object(f) => {
            &&& f@.len() == 3
            &&& f@[0].0@ == "flaky"@ && is_text(f@[0].1, n.flaky@)
            &&& f@[1].0@ == "slow"@ && is_text(f@[1].1, n.slow@)
            &&& f@[2].0@ == "driver"@ && is_text(f@[2].1, n.driver@)
        },
        _ => false,
    }
}

/// Whether `j` is the body that creates a blockade with configuration `c`.
pub open spec fn config_json(j: Json, c: BlockadeConfig) -> bool {
    match j {
        Json::Object(f) => {
            &&& f@.len() == 2
            &&& f@[0].0@ == "containers"@ && match f@[0].1 {
                Json::Object(g) => g@.len() == c.containers.entries@.len() && forall|i: int| 0 <= i < g@.len() ==>
                    (#[trigger] g@[i]).0@ == c.containers.entries@[i].0@ && container_json(g@[i].1, c.containers.entries@[i].1),
                _ => false,
            }
            &&& f@[1].0@ == "network"@ && net_config_json(f@[1].1, c.network)
        },
        _ => false,
    }
}

pub fn encode_config(c: &BlockadeConfig) -> (r: Json)
    ensures
        config_json(r, *c),
{
    let mut g: Vec<(String, Json)> = Vec::new();
    let mut i: usize = 0;
    while i < c.containers.entries.len()
        invariant
            i <= c.containers.entries@.len(),
            g@.len() == i,
            forall|q: int| 0 <= q < i ==>
                (#[trigger] g@[q]).0@ == c.containers.entries@[q].0@ && container_json(g@[q].1, c.containers.entries@[q].1),
        decreases c.containers.entries@.len() - i,
    {
        g.push((c.containers.entries[i].0.clone(), encode_container(&c.containers.entries[i].1)));
        i = i + 1;
    }
    let mut n: Vec<(String, Json)> = Vec::new();
    n.push((String::from_str("flaky"), text(c.network.flaky.as_str())));
    n.push((String::from_str("slow"), text(c.network.slow.as_str())));
    n.push((String::from_str("driver"), text(c.network.driver.as_str())));
    let mut f: Vec<(String, Json)> = Vec::new();
    f.push((String::from_str("containers"), Json::Object(g)));
    f.push((String::from_str("network"), Json::Object(n)));
    Json::Object(f)
}

} // verus!
