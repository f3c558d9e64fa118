//! Endpoint selection over a device's descriptors.
use vstd::prelude::*;

verus! {

/// Direction of a USB endpoint.
#[derive(PartialEq, Eq, Structural, Debug, Clone, Copy)]
pub enum Direction {
    /// Device to host.
    In,
    /// Host to device.
    Out,
}

/// Transfer type of a USB endpoint.
#[derive(PartialEq, Eq, Structural, Debug, Clone, Copy)]
pub enum TransferType {
    Control,
    Isochronous,
    Bulk,
    Interrupt,
}

/// One endpoint descriptor, with the configuration, interface and alternate
/// setting it was found under. Its direction is bit 7 of its address.
#[derive(PartialEq, Eq, Structural, Debug, Clone, Copy)]
pub struct EndpointDescriptor {
    pub config: u8,
    pub iface: u8,
    pub setting: u8,
    pub address: u8,
    pub transfer_type: TransferType,
}

/// The direction that an endpoint address encodes: bit 7 set is device to host.
pub open spec fn direction_of(address: u8) -> Direction {
    if address & 0x80 != 0 {
        Direction::In
    } else {
        Direction::Out
    }
}

impl EndpointDescriptor {
    /// The direction of the endpoint, from its address.
    pub fn direction(&self) -> (r: Direction)
        ensures
            r == direction_of(self.address),
    {
        if self.address & 0x80 != 0 {
            Direction::In
        } else {
            Direction::Out
        }
    }
}

/// A resolved endpoint: what must be selected on the device to use it, and
/// its address.
#[derive(PartialEq, Eq, Structural, Debug, Clone, Copy)]
pub struct Endpoint {
    pub config: u8,
    pub iface: u8,
    pub setting: u8,
    pub address: u8,
}

/// Whether a descriptor is a bulk endpoint of the wanted direction.
pub open spec fn selects(d: EndpointDescriptor, direction: Direction) -> bool {
    direction_of(d.address) == direction && d.transfer_type == TransferType::Bulk
}

pub open spec fn endpoint_of(d: EndpointDescriptor) -> Endpoint {
    Endpoint { config: d.config, iface: d.iface, setting: d.setting, address: d.address }
}

/// The endpoint of the first descriptor, in walk order, that `selects` keeps.
pub open spec fn first_endpoint(ds: Seq<EndpointDescriptor>, direction: Direction) -> Option<
    Endpoint,
>
    decreases ds.len(),
{
    if ds.len() == 0 {
        None
    } else if selects(ds[0], direction) {
        Some(endpoint_of(ds[0]))
    } else {
        first_endpoint(ds.drop_first(), direction)
    }
}

/// Picks the first bulk endpoint of the given direction from the descriptors,
/// listed in the order configurations, interfaces, alternate settings and
/// endpoints are walked. `None` means the device offers none.
pub fn find_endpoint(descriptors: &Vec<EndpointDescriptor>, direction: Direction) -> (r: Option<
    Endpoint,
>)
    ensures
        r == first_endpoint(descriptors@, direction),
{
    let mut i: usize = 0;
    assert(descriptors@.subrange(0, descriptors@.len() as int) =~= descriptors@);
    while i < descriptors.len()
        invariant
            i <= descriptors@.len(),
            first_endpoint(descriptors@, direction) == first_endpoint(
                descriptors@.subrange(i as int, descriptors@.len() as int),
                direction,
            ),
        decreases descriptors@.len() - i,
    {
        assert(descriptors@.subrange(i as int, descriptors@.len() as int).drop_first()
            =~= descriptors@.subrange(i + 1, descriptors@.len() as int));
        let d = descriptors[i];
        if d.direction() == direction && d.transfer_type == TransferType::Bulk {
            return Some(
                Endpoint { config: d.config, iface: d.iface, setting: d.setting, address: d.address },
            );
        }
        i = i + 1;
    }
    None
}

/// A found endpoint comes from a descriptor of the wanted direction and bulk
/// type, and none before it qualifies; no endpoint is found only when no
/// descriptor qualifies.
pub proof fn lemma_first_endpoint(ds: Seq<EndpointDescriptor>, direction: Direction)
    ensures
        first_endpoint(ds, direction) is None <==> forall|i: int|
            0 <= i < ds.len() ==> !selects(#[trigger] ds[i], direction),
        first_endpoint(ds, direction) is Some ==> exists|i: int|
            0 <= i < ds.len() && selects(#[trigger] ds[i], direction) && first_endpoint(
                ds,
                direction,
            ) == Some(endpoint_of(ds[i])) && forall|j: int| 0 <= j < i ==> !selects(ds[j], direction),
    decreases ds.len(),
{
    if ds.len() > 0 {
        let rest = ds.drop_first();
        lemma_first_endpoint(rest, direction);
        if !selects(ds[0], direction) {
            assert forall|i: int| 0 <= i < rest.len() implies rest[i] == ds[i + 1] by {}
            if first_endpoint(rest, direction) is Some {
                let k = choose|k: int|
                    0 <= k < rest.len() && selects(#[trigger] rest[k], direction) && first_endpoint(
                        rest,
                        direction,
                    ) == Some(endpoint_of(rest[k])) && forall|j: int|
                        0 <= j < k ==> !selects(rest[j], direction);
                assert(selects(ds[k + 1], direction));
                assert forall|j: int| 0 <= j < k + 1 implies !selects(ds[j], direction) by {
                    if j > 0 {
                        assert(ds[j] == rest[j - 1]);
                    }
                }
            } else {
                assert forall|i: int| 0 <= i < ds.len() implies !selects(#[trigger] ds[i], direction) by {
                    if i > 0 {
                        assert(ds[i] == rest[i - 1]);
                    }
                }
            }
        } else {
            assert(selects(ds[0], direction));
        }
    }
}

} // verus!
