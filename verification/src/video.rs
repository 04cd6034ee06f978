//! Cutting the video of a screen into packets.

use crate::protocol;
use crate::protocol::Packet;
use crate::server::client;
use crate::wire::write_bytes;
use h264_reader::annexb::AnnexBReader;
use h264_reader::nal::{Nal, RefNal};
use h264_reader::push::{NalAccumulator, NalInterest};
use std::io::Read;
use std::sync::{Arc, Mutex};
use vstd::prelude::*;

verus! {

/// What is done with a unit of video that the reader hands out.
#[derive(Clone, Copy, PartialEq, Eq, Structural, Debug)]
pub enum NalStep {
    /// Wait for the rest of it.
    Buffer,
    /// Drop it.
    Ignore,
    /// Send it.
    Send,
}

/// What is done with a unit of video: one that is not complete is waited for,
/// one whose header cannot be read is dropped.
pub open spec fn step_for(is_complete: bool, has_header: bool) -> NalStep {
    if !is_complete {
        NalStep::Buffer
    } else if !has_header {
        NalStep::Ignore
    } else {
        NalStep::Send
    }
}

/// What is done with a unit of video.
pub fn nal_step(is_complete: bool, has_header: bool) -> (step: NalStep)
    ensures
        step == step_for(is_complete, has_header),
{
    if !is_complete {
        NalStep::Buffer
    } else if !has_header {
        NalStep::Ignore
    } else {
        NalStep::Send
    }
}

/// The packet with a unit of video, behind the code that starts a unit.
pub open spec fn screen_of(nal: Seq<u8>) -> protocol::PacketView {
    protocol::PacketView::Screen { bytes: seq![0u8, 0u8, 1u8] + nal }
}

/// The packet with a unit of video, behind the code that starts a unit.
pub fn screen_packet(nal: Vec<u8>) -> (packet: Packet)
    ensures
        packet@ == screen_of(nal@),
{
    let mut bytes: Vec<u8> = Vec::new();
    bytes.push(0);
    bytes.push(0);
    bytes.push(1);
    write_bytes(&mut bytes, nal.as_slice());
    assert(bytes@ =~= seq![0u8, 0u8, 1u8] + nal@);
    Packet::Screen { bytes }
}

/// Units of video as the reader hands them out: whether a unit is complete,
/// whether its header can be read, and the bytes that are there.
pub type Units = Seq<(bool, bool, Seq<u8>)>;

/// The contents of a list of units.
pub open spec fn unit_views(units: Seq<(bool, bool, Vec<u8>)>) -> Units {
    units.map_values(|unit: (bool, bool, Vec<u8>)| (unit.0, unit.1, unit.2@))
}

/// The packets for units of video, in order: one for each that is sent.
pub open spec fn screens(units: Units) -> Seq<protocol::PacketView>
    decreases units.len(),
{
    if units.len() == 0 {
        Seq::empty()
    } else {
        let (is_complete, has_header, nal) = units.last();
        screens(units.drop_last()) + if step_for(is_complete, has_header) == NalStep::Send {
            seq![screen_of(nal)]
        } else {
            Seq::empty()
        }
    }
}

/// A reader of `h264_reader` that cuts a stream of video, which comes in
/// pieces, into units, and the units that it has handed out since the last
/// piece.
#[verifier::external_body]
pub struct UnitReader {
    reader: AnnexBReader<NalAccumulator<Box<dyn FnMut(RefNal<'_>) -> NalInterest + Send>>>,
    units: Arc<Mutex<Vec<(bool, bool, Vec<u8>)>>>,
}

/// The pieces that a reader was given, in order.
pub uninterp spec fn fed(reader: UnitReader) -> Seq<Seq<u8>>;

/// What `AnnexBReader::push` hands to its handler for pieces that follow one
/// another, if the handler wants every unit to its end.
pub uninterp spec fn handed_out(pieces: Seq<Seq<u8>>) -> Seq<(bool, bool, Seq<u8>)>;

/// Calls `AnnexBReader::accumulate` with a handler that notes what it is handed
/// (`is_complete`, whether `header` succeeds, and the bytes of `reader`) and
/// wants every unit to its end. The reader has been given nothing and has
/// handed out nothing.
#[verifier::external_body]
fn new_unit_reader() -> (reader: UnitReader)
    ensures
        fed(reader) == Seq::<Seq<u8>>::empty(),
        handed_out(fed(reader)) == Seq::<(bool, bool, Seq<u8>)>::empty(),
{
    let units: Arc<Mutex<Vec<(bool, bool, Vec<u8>)>>> = Arc::new(Mutex::new(Vec::new()));
    let noted = units.clone();
    let handler: Box<dyn FnMut(RefNal<'_>) -> NalInterest + Send> = Box::new(
        move |nal: RefNal<'_>| {
            let mut bytes = Vec::new();
            let _ = nal.reader().read_to_end(&mut bytes);
            noted.lock().unwrap().push((nal.is_complete(), nal.header().is_ok(), bytes));
            NalInterest::Buffer
        },
    );
    UnitReader { reader: AnnexBReader::accumulate(handler), units }
}

/// Calls `AnnexBReader::push` and takes what was handed out for the piece.
/// What is handed out is a function of the pieces so far, and a further piece
/// only adds to it.
#[verifier::external_body]
fn push_piece(reader: &mut UnitReader, piece: &[u8]) -> (units: Vec<(bool, bool, Vec<u8>)>)
    ensures
        fed(*final(reader)) == fed(*old(reader)).push(piece@),
        handed_out(fed(*final(reader))) == handed_out(fed(*old(reader))) + unit_views(units@),
{
    reader.reader.push(piece);
    std::mem::take(&mut *reader.units.lock().unwrap())
}

impl UnitReader {
    /// A reader at the start of a stream.
    pub fn new() -> (reader: UnitReader)
        ensures
            fed(reader) == Seq::<Seq<u8>>::empty(),
            handed_out(fed(reader)) == Seq::<(bool, bool, Seq<u8>)>::empty(),
    {
        new_unit_reader()
    }

    /// Takes the next piece of the stream; returns the packets with the units
    /// that it completes.
    ///
    /// All packets so far, one after another, are those for all units that the
    /// reader has handed out.
    pub fn screen_packets(&mut self, piece: &[u8]) -> (packets: Vec<Packet>)
        ensures
            fed(*final(self)) == fed(*old(self)).push(piece@),
            client::packet_views(packets@) == screens(
                handed_out(fed(*final(self))).skip(handed_out(fed(*old(self))).len() as int),
            ),
            screens(handed_out(fed(*final(self)))) == screens(handed_out(fed(*old(self))))
                + client::packet_views(packets@),
    {
        let ghost before = handed_out(fed(*self));
        let units: Vec<(bool, bool, Vec<u8>)> = push_piece(self, piece);
        let ghost added = unit_views(units@);
        let packets: Vec<Packet> = packets_for(units);
        proof {
            assert((before + added).skip(before.len() as int) =~= added);
            law_packets_add_up(before, added);
        }
        packets
    }
}

/// The packets for units of video, in order: one for each that is sent.
pub fn packets_for(units: Vec<(bool, bool, Vec<u8>)>) -> (packets: Vec<Packet>)
    ensures
        client::packet_views(packets@) == screens(unit_views(units@)),
{
    let ghost all = unit_views(units@);
    let mut packets: Vec<Packet> = Vec::new();
    let n: usize = units.len();
    assert(client::packet_views(packets@) =~= screens(all.take(0)));
    for i in 0..n
        invariant
            n == units@.len(),
            all == unit_views(units@),
            client::packet_views(packets@) == screens(all.take(i as int)),
    {
        let ghost sent = client::packet_views(packets@);
        assert(all.take(i + 1).drop_last() =~= all.take(i as int));
        assert(all[i as int] == (units@[i as int].0, units@[i as int].1, units@[i as int].2@));
        match nal_step(units[i].0, units[i].1) {
            NalStep::Send => {
                let packet: Packet = screen_packet(copy_of(&units[i].2));
                packets.push(packet);
                assert(client::packet_views(packets@) =~= sent + seq![packet@]);
            },
            _ => {
                assert(sent + Seq::empty() =~= sent);
            },
        }
        assert(client::packet_views(packets@) =~= screens(all.take(i + 1)));
    }
    assert(all.take(n as int) =~= all);
    packets
}

/// A copy of bytes.
fn copy_of(bytes: &Vec<u8>) -> (copy: Vec<u8>)
    ensures
        copy@ == bytes@,
{
    let mut copy: Vec<u8> = Vec::new();
    write_bytes(&mut copy, bytes.as_slice());
    assert(copy@ =~= bytes@);
    copy
}

/// The packets for units that follow one another are those for all of them.
pub proof fn law_packets_add_up(a: Units, b: Units)
    ensures
        screens(a + b) == screens(a) + screens(b),
    decreases b.len(),
{
    if b.len() == 0 {
        assert(a + b =~= a);
        assert(screens(a) + screens(b) =~= screens(a));
    } else {
        law_packets_add_up(a, b.drop_last());
        assert((a + b).drop_last() =~= a + b.drop_last());
        assert(screens(a + b) =~= screens(a) + screens(b));
    }
}

/// A unit is sent exactly if it is complete and its header can be read, as it
/// is, behind the bytes that start a unit.
pub proof fn law_units_are_sent_whole(is_complete: bool, has_header: bool, nal: Seq<u8>)
    ensures
        is_complete && has_header ==> screens(seq![(is_complete, has_header, nal)]) == seq![
            protocol::PacketView::Screen { bytes: seq![0u8, 0u8, 1u8] + nal },
        ],
        !(is_complete && has_header) ==> screens(seq![(is_complete, has_header, nal)]).len() == 0,
{
    let units = seq![(is_complete, has_header, nal)];
    reveal_with_fuel(screens, 2);
    assert(units.drop_last() =~= Seq::empty());
    assert(units.last() == (is_complete, has_header, nal));
    if is_complete && has_header {
        assert(screens(units) =~= seq![
            protocol::PacketView::Screen { bytes: seq![0u8, 0u8, 1u8] + nal },
        ]);
    }
}

} // verus!
