use vstd::prelude::*;

use crate::bus::cpu_bus::{IORQ, MREQ, RD, RFSH, WR};
use crate::bus::identifiable::Identifier;
use crate::devs::bus_logger::BusState;

verus! {

/// A digital lane of the bus scope
#[derive(Clone, Copy, PartialEq, Eq, Debug, Structural)]
pub enum Signal {
    Rd,
    Wr,
    Mreq,
    Iorq,
    Rfsh,
    M1,
    Busrq,
    Busak,
    Wait,
    Halt,
    Int,
    Nmi,
    Reset,
}

/// Level of a two-state line, `None` while nobody drives it
pub open spec fn line_level(line: Option<(Identifier, bool)>) -> Option<bool> {
    match line {
        Some((_, v)) => Some(v),
        None => None,
    }
}

/// Whether a control output is active, `None` while nobody drives the control lines
pub open spec fn ctrl_level(s: BusState, mask: u8) -> Option<bool> {
    match s.ctrl {
        Some((_, c)) => Some(c.bits & mask == mask),
        None => None,
    }
}

/// Level of a signal in a bus reading
pub open spec fn spec_signal_level(s: BusState, sig: Signal) -> Option<bool> {
    match sig {
        Signal::Rd => ctrl_level(s, RD),
        Signal::Wr => ctrl_level(s, WR),
        Signal::Mreq => ctrl_level(s, MREQ),
        Signal::Iorq => ctrl_level(s, IORQ),
        Signal::Rfsh => ctrl_level(s, RFSH),
        Signal::M1 => line_level(s.m1),
        Signal::Busrq => line_level(s.busrq),
        Signal::Busak => line_level(s.busak),
        Signal::Wait => line_level(s.wait),
        Signal::Halt => line_level(s.halt),
        Signal::Int => line_level(s.int),
        Signal::Nmi => line_level(s.nmi),
        Signal::Reset => line_level(s.reset),
    }
}

fn level_of(line: Option<(Identifier, bool)>) -> (r: Option<bool>)
    ensures
        r == line_level(line),
{
    match line {
        Some((_, v)) => Some(v),
        None => None,
    }
}

fn ctrl_active(s: &BusState, mask: u8) -> (r: Option<bool>)
    ensures
        r == ctrl_level(*s, mask),
{
    match s.ctrl {
        Some((_, c)) => Some(c.contains(mask)),
        None => None,
    }
}

/// Level of a signal in a bus reading
pub fn signal_level(s: &BusState, sig: Signal) -> (r: Option<bool>)
    ensures
        r == spec_signal_level(*s, sig),
{
    match sig {
        Signal::Rd => ctrl_active(s, RD),
        Signal::Wr => ctrl_active(s, WR),
        Signal::Mreq => ctrl_active(s, MREQ),
        Signal::Iorq => ctrl_active(s, IORQ),
        Signal::Rfsh => ctrl_active(s, RFSH),
        Signal::M1 => level_of(s.m1),
        Signal::Busrq => level_of(s.busrq),
        Signal::Busak => level_of(s.busak),
        Signal::Wait => level_of(s.wait),
        Signal::Halt => level_of(s.halt),
        Signal::Int => level_of(s.int),
        Signal::Nmi => level_of(s.nmi),
        Signal::Reset => level_of(s.reset),
    }
}

/// Levels of a signal over the readings, one per reading
pub fn signal_lane(samples: &Vec<BusState>, sig: Signal) -> (r: Vec<Option<bool>>)
    ensures
        r@.len() == samples@.len(),
        forall|i: int| 0 <= i < r@.len() ==> r@[i] == spec_signal_level(samples@[i], sig),
{
    let mut r: Vec<Option<bool>> = Vec::new();
    let mut i: usize = 0;
    while i < samples.len()
        invariant
            i <= samples@.len(),
            r@.len() == i,
            forall|j: int| 0 <= j < i ==> r@[j] == spec_signal_level(samples@[j], sig),
        decreases samples@.len() - i,
    {
        r.push(signal_level(&samples[i], sig));
        i = i + 1;
    }
    r
}

/// Address bus values over the readings, `None` where nobody drives the bus
pub fn addr_lane(samples: &Vec<BusState>) -> (r: Vec<Option<u16>>)
    ensures
        r@.len() == samples@.len(),
        forall|i: int| 0 <= i < r@.len() ==> r@[i] == match samples@[i].addr {
            Some((_, v)) => Some(v),
            None => None::<u16>,
        },
{
    let mut r: Vec<Option<u16>> = Vec::new();
    let mut i: usize = 0;
    while i < samples.len()
        invariant
            i <= samples@.len(),
            r@.len() == i,
            forall|j: int| 0 <= j < i ==> r@[j] == match samples@[j].addr {
                Some((_, v)) => Some(v),
                None => None::<u16>,
            },
        decreases samples@.len() - i,
    {
        let v = match samples[i].addr {
            Some((_, v)) => Some(v),
            None => None,
        };
        r.push(v);
        i = i + 1;
    }
    r
}

/// Data bus values over the readings, widened to 16 bits, `None` where nobody drives the bus
pub fn data_lane(samples: &Vec<BusState>) -> (r: Vec<Option<u16>>)
    ensures
        r@.len() == samples@.len(),
        forall|i: int| 0 <= i < r@.len() ==> r@[i] == match samples@[i].data {
            Some((_, v)) => Some(v as u16),
            None => None::<u16>,
        },
{
    let mut r: Vec<Option<u16>> = Vec::new();
    let mut i: usize = 0;
    while i < samples.len()
        invariant
            i <= samples@.len(),
            r@.len() == i,
            forall|j: int| 0 <= j < i ==> r@[j] == match samples@[j].data {
                Some((_, v)) => Some(v as u16),
                None => None::<u16>,
            },
        decreases samples@.len() - i,
    {
        let v = match samples[i].data {
            Some((_, v)) => Some(v as u16),
            None => None,
        };
        r.push(v);
        i = i + 1;
    }
    r
}

/// The last value driven among the first `n` samples of a bus lane
pub open spec fn last_driven(values: Seq<Option<u16>>, n: int) -> Option<u16>
    decreases n,
{
    if n <= 0 {
        None
    } else if values[n - 1] is Some {
        values[n - 1]
    } else {
        last_driven(values, n - 1)
    }
}

/// A bus lane gets a label where a driven value differs from the last one driven before it
pub open spec fn labeled(values: Seq<Option<u16>>, i: int) -> bool {
    values[i] is Some && last_driven(values, i) != values[i]
}

/// Positions of the labels of a bus lane, in increasing order
pub fn value_labels(values: &Vec<Option<u16>>) -> (r: Vec<usize>)
    ensures
        forall|k: int| 0 <= k < r@.len() ==> r@[k] < values@.len(),
        forall|k: int, l: int| 0 <= k < l < r@.len() ==> r@[k] < r@[l],
        forall|i: int| 0 <= i < values@.len() ==> (labeled(values@, i) <==> r@.contains(i as usize)),
{
    let mut r: Vec<usize> = Vec::new();
    let mut last: Option<u16> = None;
    let mut i: usize = 0;
    while i < values.len()
        invariant
            i <= values@.len(),
            last == last_driven(values@, i as int),
            forall|k: int| 0 <= k < r@.len() ==> r@[k] < i,
            forall|k: int, l: int| 0 <= k < l < r@.len() ==> r@[k] < r@[l],
            forall|j: int| 0 <= j < i ==> (labeled(values@, j) <==> r@.contains(j as usize)),
        decreases values@.len() - i,
    {
        let v = values[i];
        let ghost before = r@;
        if let Some(x) = v {
            if last != Some(x) {
                r.push(i);
                proof {
                    assert forall|j: int| 0 <= j < i implies (labeled(values@, j) <==> r@.contains(j as usize)) by {
                        if before.contains(j as usize) {
                            let k = choose|k: int| 0 <= k < before.len() && before[k] == j as usize;
                            assert(r@[k] == j as usize);
                        }
                        if r@.contains(j as usize) {
                            let k = choose|k: int| 0 <= k < r@.len() && r@[k] == j as usize;
                            assert(k < before.len());
                            assert(before[k] == j as usize);
                        }
                    }
                    assert(r@[before.len() as int] == i);
                }
            }
            last = Some(x);
        }
        proof {
            if !labeled(values@, i as int) {
                assert(!r@.contains(i as usize));
            }
        }
        i = i + 1;
    }
    r
}

/// How a digital lane is drawn from one sample to the next
#[derive(Clone, Copy, PartialEq, Eq, Debug, Structural)]
pub enum Segment {
    /// Driven at both ends: a line at the first level, and an edge where the level changes
    Level { level: bool, edge: bool },
    /// Released: a line at the level, then down to the middle
    Release(bool),
    /// Driven after floating: a line in the middle, then to the new level
    Drive(bool),
    /// Floating at both ends: a line in the middle
    Float,
}

/// Segment between two consecutive samples of a digital lane
pub open spec fn spec_segment(prev: Option<bool>, curr: Option<bool>) -> Segment {
    match (prev, curr) {
        (Some(p), Some(c)) => Segment::Level { level: p, edge: p != c },
        (Some(p), None) => Segment::Release(p),
        (None, Some(c)) => Segment::Drive(c),
        (None, None) => Segment::Float,
    }
}

fn segment(prev: Option<bool>, curr: Option<bool>) -> (r: Segment)
    ensures
        r == spec_segment(prev, curr),
{
    match (prev, curr) {
        (Some(p), Some(c)) => Segment::Level { level: p, edge: p != c },
        (Some(p), None) => Segment::Release(p),
        (None, Some(c)) => Segment::Drive(c),
        (None, None) => Segment::Float,
    }
}

/// Segments of a digital lane, one between each two consecutive samples
pub fn lane_segments(values: &Vec<Option<bool>>) -> (r: Vec<Segment>)
    ensures
        r@.len() == if values@.len() == 0 { 0 } else { values@.len() - 1 },
        forall|i: int| 0 <= i < r@.len() ==> r@[i] == spec_segment(values@[i], values@[i + 1]),
{
    let mut r: Vec<Segment> = Vec::new();
    if values.len() == 0 {
        return r;
    }
    let mut prev = values[0];
    let mut i: usize = 1;
    while i < values.len()
        invariant
            1 <= i <= values@.len(),
            prev == values@[i - 1],
            r@.len() == i - 1,
            forall|j: int| 0 <= j < r@.len() ==> r@[j] == spec_segment(values@[j], values@[j + 1]),
        decreases values@.len() - i,
    {
        let curr = values[i];
        r.push(segment(prev, curr));
        prev = curr;
        i = i + 1;
    }
    r
}

} // verus!
