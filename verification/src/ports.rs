//! Port enumerator: normalizes and filters what the platform's serial-port
//! registry reports. The registry query itself is the caller's: it hands in
//! one record per detected port.

use vstd::prelude::*;

use crate::text::starts_with;
use crate::text::views;

verus! {

/// Transport kind of a detected port, as the registry reports it.
pub enum PortKind {
    /// A USB port, with the product string when the registry knows one.
    Usb { product: Option<String> },
    Pci,
    Bluetooth,
    Unknown,
}

/// One record of the platform's serial-port registry.
pub struct DetectedPort {
    pub name: String,
    pub kind: PortKind,
}

/// A port as offered to the UI.
pub struct SerialPortInfo {
    pub name: String,
    pub port_type: String,
}

/// The rendered transport kind: USB ports carry their product string, or
/// the literal `Unknown`, after `USB - `; other kinds their fixed name.
pub open spec fn port_label(k: PortKind) -> Seq<char> {
    match k {
        PortKind::Usb { product } => "USB - "@ + match product {
            Some(p) => p@,
            None => "Unknown"@,
        },
        PortKind::Pci => "PCI"@,
        PortKind::Bluetooth => "Bluetooth"@,
        PortKind::Unknown => "Unknown"@,
    }
}

/// Whether a port name is offered: on the Darwin family, `/dev/tty.` entries
/// are dropped so only the call-out device is listed.
pub open spec fn keep_port(name: Seq<char>, darwin: bool) -> bool {
    !darwin || !"/dev/tty."@.is_prefix_of(name)
}

/// The offered ports, in registry order: name and rendered transport kind
/// of every record that passes the platform filter.
pub open spec fn spec_port_list(ports: Seq<DetectedPort>, darwin: bool) -> Seq<
    (Seq<char>, Seq<char>),
>
    decreases ports.len(),
{
    if ports.len() == 0 {
        Seq::empty()
    } else {
        let rest = spec_port_list(ports.drop_first(), darwin);
        if keep_port(ports[0].name@, darwin) {
            seq![(ports[0].name@, port_label(ports[0].kind))] + rest
        } else {
            rest
        }
    }
}

pub proof fn lemma_spec_port_list_push(ports: Seq<DetectedPort>, darwin: bool, p: DetectedPort)
    ensures
        spec_port_list(ports.push(p), darwin) == spec_port_list(ports, darwin) + (if keep_port(
            p.name@,
            darwin,
        ) {
            seq![(p.name@, port_label(p.kind))]
        } else {
            Seq::<(Seq<char>, Seq<char>)>::empty()
        }),
    decreases ports.len(),
{
    let tail = if keep_port(p.name@, darwin) {
        seq![(p.name@, port_label(p.kind))]
    } else {
        Seq::<(Seq<char>, Seq<char>)>::empty()
    };
    if ports.len() == 0 {
        assert(ports.push(p).drop_first() =~= Seq::<DetectedPort>::empty());
        assert(spec_port_list(Seq::empty(), darwin) == Seq::<(Seq<char>, Seq<char>)>::empty());
        assert(spec_port_list(ports, darwin) + tail =~= tail);
        assert(spec_port_list(ports.push(p), darwin) =~= tail);
    } else {
        assert(ports.push(p)[0] == ports[0]);
        assert(ports.push(p).drop_first() =~= ports.drop_first().push(p));
        lemma_spec_port_list_push(ports.drop_first(), darwin, p);
        if keep_port(ports[0].name@, darwin) {
            assert(seq![(ports[0].name@, port_label(ports[0].kind))] + (spec_port_list(
                ports.drop_first(),
                darwin,
            ) + tail) =~= spec_port_list(ports, darwin) + tail);
        }
    }
}

/// Port filter: nothing offered on Darwin begins with `/dev/tty.`.
pub proof fn lemma_darwin_filter(ports: Seq<DetectedPort>, i: int)
    requires
        0 <= i < spec_port_list(ports, true).len(),
    ensures
        !"/dev/tty."@.is_prefix_of(spec_port_list(ports, true)[i].0),
    decreases ports.len(),
{
    if ports.len() > 0 {
        let rest = spec_port_list(ports.drop_first(), true);
        if keep_port(ports[0].name@, true) {
            if i > 0 {
                lemma_darwin_filter(ports.drop_first(), i - 1);
            }
        } else {
            lemma_darwin_filter(ports.drop_first(), i);
        }
    }
}

fn label_of(kind: &PortKind) -> (r: String)
    ensures
        r@ == port_label(*kind),
{
    match kind {
        PortKind::Usb { product } => {
            let mut out = "USB - ".to_owned();
            match product {
                Some(p) => out.append(p.as_str()),
                None => out.append("Unknown"),
            }
            out
        },
        PortKind::Pci => "PCI".to_owned(),
        PortKind::Bluetooth => "Bluetooth".to_owned(),
        PortKind::Unknown => "Unknown".to_owned(),
    }
}

/// Normalize the registry's records into the offered list: apply the
/// platform filter and render each transport kind.
pub fn list_port_infos(ports: &Vec<DetectedPort>, darwin: bool) -> (r: Vec<SerialPortInfo>)
    ensures
        r@.map_values(|p: SerialPortInfo| (p.name@, p.port_type@)) == spec_port_list(
            ports@,
            darwin,
        ),
{
    let mut out: Vec<SerialPortInfo> = Vec::new();
    let mut i: usize = 0;
    proof {
        assert(ports@.take(0) =~= Seq::<DetectedPort>::empty());
        assert(out@.map_values(|p: SerialPortInfo| (p.name@, p.port_type@)) =~= spec_port_list(
            ports@.take(0),
            darwin,
        ));
    }
    while i < ports.len()
        invariant
            0 <= i <= ports@.len(),
            out@.map_values(|p: SerialPortInfo| (p.name@, p.port_type@)) == spec_port_list(
                ports@.take(i as int),
                darwin,
            ),
        decreases ports@.len() - i,
    {
        let ghost out0 = out@;
        let keep = !(darwin && starts_with(ports[i].name.as_str(), "/dev/tty."));
        if keep {
            let info = SerialPortInfo {
                name: ports[i].name.clone(),
                port_type: label_of(&ports[i].kind),
            };
            out.push(info);
        }
        proof {
            assert(ports@.take(i as int).push(ports@[i as int]) =~= ports@.take(i + 1));
            lemma_spec_port_list_push(ports@.take(i as int), darwin, ports@[i as int]);
            if keep {
                assert(out@.map_values(|p: SerialPortInfo| (p.name@, p.port_type@)) =~= out0.map_values(
                    |p: SerialPortInfo| (p.name@, p.port_type@),
                ).push((ports@[i as int].name@, port_label(ports@[i as int].kind))));
            }
            assert(out@.map_values(|p: SerialPortInfo| (p.name@, p.port_type@)) =~= spec_port_list(
                ports@.take(i + 1),
                darwin,
            ));
        }
        i += 1;
    }
    proof {
        assert(ports@.take(ports@.len() as int) =~= ports@);
    }
    out
}

} // verus!
