//! Choosing, among the serial ports that the host reports, those that belong
//! to the spindle controller.
use vstd::prelude::*;

verus! {

/// USB vendor id of STMicroelectronics, the maker of the controller's USB interface.
pub const ST_VENDOR_ID: u16 = 0x0483;

/// One serial port as the host enumerates it.
#[derive(Clone, Debug)]
pub struct PortEntry {
    /// The name under which the port is opened (`/dev/ttyACM0`, `COM5`).
    pub port_name: String,
    /// The USB vendor id, for a port reached over USB; `None` for any other port.
    pub usb_vendor_id: Option<u16>,
}

pub open spec fn is_compatible(p: PortEntry) -> bool {
    p.usb_vendor_id == Some(ST_VENDOR_ID)
}

/// The names of the compatible ports among `ports`, in their order.
pub open spec fn compatible_names(ports: Seq<PortEntry>) -> Seq<Seq<char>>
    decreases ports.len(),
{
    if ports.len() == 0 {
        seq![]
    } else {
        let rest = compatible_names(ports.drop_last());
        if is_compatible(ports.last()) {
            rest.push(ports.last().port_name@)
        } else {
            rest
        }
    }
}

pub open spec fn names(v: Seq<String>) -> Seq<Seq<char>> {
    v.map_values(|s: String| s@)
}

/// The names of the ports that are USB devices of vendor `ST_VENDOR_ID`, in the
/// order of the enumeration.
pub fn list_compatible_ports(ports: &Vec<PortEntry>) -> (r: Vec<String>)
    ensures
        names(r@) == compatible_names(ports@),
{
    let mut out: Vec<String> = Vec::new();
    let mut i: usize = 0;
    while i < ports.len()
        invariant
            i <= ports@.len(),
            names(out@) == compatible_names(ports@.take(i as int)),
        decreases ports@.len() - i,
    {
        let p = &ports[i];
        assert(ports@.take(i + 1).drop_last() =~= ports@.take(i as int));
        let is_st = match p.usb_vendor_id {
            Some(vid) => vid == ST_VENDOR_ID,
            None => false,
        };
        if is_st {
            out.push(p.port_name.clone());
        }
        assert(names(out@) =~= compatible_names(ports@.take(i + 1)));
        i = i + 1;
    }
    assert(ports@.take(i as int) =~= ports@);
    out
}

/// Every compatible port comes from the enumeration and carries the vendor id
/// `ST_VENDOR_ID`.
pub proof fn lemma_compatible_ports_are_filtered(ports: Seq<PortEntry>)
    ensures
        forall|i: int|
            0 <= i < compatible_names(ports).len() ==> exists|j: int|
                0 <= j < ports.len() && (#[trigger] ports[j]).port_name@
                    == #[trigger] compatible_names(ports)[i] && ports[j].usb_vendor_id == Some(
                    ST_VENDOR_ID,
                ),
    decreases ports.len(),
{
    if ports.len() > 0 {
        let d = ports.drop_last();
        lemma_compatible_ports_are_filtered(d);
        let c = compatible_names(ports);
        assert forall|i: int| 0 <= i < c.len() implies exists|j: int|
            0 <= j < ports.len() && (#[trigger] ports[j]).port_name@ == #[trigger] c[i]
                && ports[j].usb_vendor_id == Some(ST_VENDOR_ID) by {
            if i < compatible_names(d).len() {
                let j = choose|j: int|
                    0 <= j < d.len() && (#[trigger] d[j]).port_name@ == compatible_names(d)[i]
                        && d[j].usb_vendor_id == Some(ST_VENDOR_ID);
                assert(ports[j] == d[j]);
            } else {
                assert(ports[ports.len() - 1] == ports.last());
            }
        }
    }
}

/// Whether a port named `path` is among `ports`, compatible or not.
pub open spec fn is_listed(ports: Seq<PortEntry>, path: Seq<char>) -> bool {
    exists|j: int| 0 <= j < ports.len() && (#[trigger] ports[j]).port_name@ == path
}

pub fn port_listed(ports: &Vec<PortEntry>, path: &String) -> (r: bool)
    ensures
        r == is_listed(ports@, path@),
{
    let mut i: usize = 0;
    while i < ports.len()
        invariant
            i <= ports@.len(),
            forall|j: int| 0 <= j < i ==> (#[trigger] ports@[j]).port_name@ != path@,
        decreases ports@.len() - i,
    {
        if ports[i].port_name == *path {
            return true;
        }
        i = i + 1;
    }
    false
}

} // verus!
