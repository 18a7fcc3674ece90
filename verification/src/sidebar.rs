//! The sidebar engine: what to send to which client in one tick.
//!
//! A tick is one turn of a periodic loop. The loop itself, the clock and the
//! connections belong to the caller; this module decides. Text components
//! reach it as the bytes they are sent as.

use crate::packet::{
    display_slot_bytes, display_slot_packet, fits_string, objective_bytes, objective_packet,
    score_bytes, score_packet, write_bytes, DisplaySlot, Mode, Packet, PacketKind, PacketView,
    RenderType,
};
use crate::render::{entry_name_of, renders, Metrics, Rendered, ScoreLine, ENTRY_PREFIX};
use crate::template::Template;
use crate::text::{decimal, lemma_decimal_digits, lemma_decimal_len};
use crate::tracker::{lemma_take_one_more, mode_of, pruned, ClientTracker};
use std::collections::HashSet;
use vstd::prelude::*;
use vstd::std_specs::hash::*;
use vstd::utf8::{is_ascii_chars, is_ascii_chars_encode_utf8};

verus! {

broadcast use vstd::std_specs::hash::group_hash_axioms;

/// The name of the one objective that the engine defines.
pub const OBJECTIVE_NAME: &'static str = "jinx_sidebar";

/// What one turn of the loop does.
#[derive(Clone, Copy, Debug, PartialEq, Eq, Structural)]
pub enum Step {
    /// The loop ends.
    Stop,
    /// The objective is taken from every client and the tracker emptied.
    Teardown,
    /// Nothing is sent and nothing changes.
    Skip,
    /// The sidebar is rendered and sent to every client.
    Refresh,
}

/// The packets for one client, in the order they are sent in.
#[derive(Clone, Debug, PartialEq, Eq)]
pub struct ClientBatch {
    pub client: u128,
    pub packets: Vec<Packet>,
}

impl ClientBatch {
    /// The packets as mathematical values.
    pub open spec fn packet_views(&self) -> Seq<PacketView> {
        self.packets@.map_values(|p: Packet| p@)
    }
}

/// One row of the sidebar as it is sent: its entry name, its score, and its
/// text as the bytes that the text component is sent as. The entry name of
/// every such row can be sent as a string.
#[derive(Debug, PartialEq, Eq)]
pub struct EncodedLine {
    entry_name: String,
    score: i32,
    text: Vec<u8>,
}

/// What an `EncodedLine` holds, as mathematical values.
pub struct EncodedLineView {
    pub entry_name: Seq<char>,
    pub score: i32,
    pub text: Seq<u8>,
}

impl View for EncodedLine {
    type V = EncodedLineView;

    closed spec fn view(&self) -> EncodedLineView {
        EncodedLineView { entry_name: self.entry_name@, score: self.score, text: self.text@ }
    }
}

impl EncodedLine {
    #[verifier::type_invariant]
    spec fn name_fits(self) -> bool {
        fits_string(self.entry_name@)
    }

    /// The row with the given entry name, score and encoded text, where the
    /// entry name can be sent as a string; `None` where it is too long.
    pub fn new(entry_name: String, score: i32, text: Vec<u8>) -> (line: Option<EncodedLine>)
        ensures
            line is Some <==> fits_string(entry_name@),
            line matches Some(l) ==> l@ == (EncodedLineView {
                entry_name: entry_name@,
                score,
                text: text@,
            }),
    {
        if entry_name.as_str().as_bytes().len() <= 0x7fff_ffff {
            Some(EncodedLine { entry_name, score, text })
        } else {
            None
        }
    }

    /// The entry name of the row.
    pub fn entry_name(&self) -> (name: &str)
        ensures
            name@ == self@.entry_name,
    {
        self.entry_name.as_str()
    }

    /// The score of the row.
    pub fn score(&self) -> (score: i32)
        ensures
            score == self@.score,
    {
        self.score
    }

    /// The text of the row, as the bytes it is sent as.
    pub fn text(&self) -> (text: &[u8])
        ensures
            text@ == self@.text,
    {
        self.text.as_slice()
    }
}

/// The step for one turn: the loop stops when it is told to; a sidebar that
/// is switched off is torn down; one that is on is refreshed, unless no
/// client is connected.
pub open spec fn step_of(should_stop: bool, enabled: bool, client_count: nat) -> Step {
    if should_stop {
        Step::Stop
    } else if !enabled {
        Step::Teardown
    } else if client_count == 0 {
        Step::Skip
    } else {
        Step::Refresh
    }
}

/// Decides what one turn of the loop does.
pub fn next_step(should_stop: bool, enabled: bool, client_count: usize) -> (step: Step)
    ensures
        step == step_of(should_stop, enabled, client_count as nat),
{
    if should_stop {
        Step::Stop
    } else if !enabled {
        Step::Teardown
    } else if client_count == 0 {
        Step::Skip
    } else {
        Step::Refresh
    }
}

/// The seconds to sleep after a tick: the configured interval, but at least
/// one second.
pub fn sleep_seconds(update_interval_sec: u64) -> (secs: u64)
    ensures
        secs == if update_interval_sec < 1 {
            1
        } else {
            update_interval_sec
        },
{
    if update_interval_sec < 1 {
        1
    } else {
        update_interval_sec
    }
}

/// The objective packet of the engine in the given mode.
pub open spec fn objective_view(mode: Mode, title: Seq<u8>) -> PacketView {
    PacketView {
        kind: PacketKind::Objective,
        body: objective_bytes(OBJECTIVE_NAME@, mode, title, RenderType::Integer, None),
    }
}

/// The packet that shows the engine's objective in the sidebar slot.
pub open spec fn display_view() -> PacketView {
    PacketView {
        kind: PacketKind::DisplaySlot,
        body: display_slot_bytes(DisplaySlot::Sidebar, OBJECTIVE_NAME@),
    }
}

/// The score packet for one row: it carries the row's entry name, its
/// score and its text, and no number format.
pub open spec fn score_view(line: EncodedLineView) -> PacketView {
    PacketView {
        kind: PacketKind::Score,
        body: score_bytes(
            line.entry_name,
            OBJECTIVE_NAME@,
            line.score as int,
            Some(line.text),
            None,
        ),
    }
}

/// The score packets for all rows, top to bottom.
pub open spec fn score_views(lines: Seq<EncodedLineView>) -> Seq<PacketView> {
    lines.map_values(|line: EncodedLineView| score_view(line))
}

/// What one client is sent in a refresh: the objective packet in its mode,
/// after an `Add` the display-slot packet, then one score packet for each
/// line.
pub open spec fn client_packets(
    mode: Mode,
    title: Seq<u8>,
    lines: Seq<EncodedLineView>,
) -> Seq<PacketView> {
    if mode == Mode::Add {
        seq![objective_view(mode, title), display_view()] + score_views(lines)
    } else {
        seq![objective_view(mode, title)] + score_views(lines)
    }
}

/// The mode for the client at index `i` of `clients` in a refresh that
/// starts with the clients `known`: `Update` if the client held the
/// objective before or stands earlier in `clients` too, else `Add`.
pub open spec fn mode_at(known: Set<u128>, clients: Seq<u128>, i: int) -> Mode {
    mode_of(pruned(known, clients).union(clients.take(i).to_set()), clients[i])
}

/// The rows as mathematical values.
pub open spec fn line_views(lines: Seq<EncodedLine>) -> Seq<EncodedLineView> {
    lines.map_values(|l: EncodedLine| l@)
}

/// The engine's objective name can be sent as a string.
pub proof fn lemma_objective_name_fits()
    ensures
        fits_string(OBJECTIVE_NAME@),
{
    reveal_strlit("jinx_sidebar");
    assert(is_ascii_chars(OBJECTIVE_NAME@));
    is_ascii_chars_encode_utf8(OBJECTIVE_NAME@);
}

/// The entry name of every line can be sent as a string.
pub proof fn lemma_entry_name_fits(index: nat)
    requires
        index <= u64::MAX,
    ensures
        fits_string(entry_name_of(index)),
{
    reveal_strlit("line_");
    lemma_decimal_digits(index);
    lemma_decimal_len(index);
    let name = entry_name_of(index);
    assert forall|i: int| 0 <= i < name.len() implies '\0' <= #[trigger] name[i] <= '\u{7f}' by {
        if i >= ENTRY_PREFIX@.len() {
            assert(name[i] == decimal(index)[i - ENTRY_PREFIX@.len()]);
        }
    }
    is_ascii_chars_encode_utf8(name);
}

/// The entry name of every rendered row can be sent as a string.
pub proof fn lemma_rendered_names_fit(template: Template, metrics: Metrics, rendered: Rendered)
    requires
        renders(template, metrics, rendered),
    ensures
        forall|i: int|
            0 <= i < rendered.lines@.len() ==> fits_string(
                (#[trigger] rendered.lines@[i]).entry_name@,
            ),
{
    assert forall|i: int| 0 <= i < rendered.lines@.len() implies fits_string(
        (#[trigger] rendered.lines@[i]).entry_name@,
    ) by {
        assert(rendered.lines.len() == rendered.lines@.len());
        lemma_entry_name_fits(i as nat);
    }
}

/// Whether `rows` are the rendered rows `lines` with the encoded `texts`:
/// row for row the same entry name and score, and the text at the same
/// index.
pub open spec fn rows_of(lines: Seq<ScoreLine>, texts: Seq<Vec<u8>>, rows: Seq<EncodedLine>) -> bool {
    &&& rows.len() == lines.len()
    &&& forall|i: int|
        0 <= i < rows.len() ==> (#[trigger] rows[i])@ == (EncodedLineView {
            entry_name: lines[i].entry_name@,
            score: lines[i].score,
            text: texts[i]@,
        })
}

/// Puts the rendered rows together with their encoded texts. There is a
/// result where there is one text for each row and every entry name can be
/// sent as a string, and only there.
pub fn encoded_lines(lines: &Vec<ScoreLine>, texts: &Vec<Vec<u8>>) -> (rows: Option<
    Vec<EncodedLine>,
>)
    ensures
        rows is Some <==> texts@.len() == lines@.len() && forall|i: int|
            0 <= i < lines@.len() ==> fits_string((#[trigger] lines@[i]).entry_name@),
        rows matches Some(r) ==> rows_of(lines@, texts@, r@),
{
    if texts.len() != lines.len() {
        return None;
    }
    let mut rows: Vec<EncodedLine> = Vec::new();
    let mut i: usize = 0;
    while i < lines.len()
        invariant
            i <= lines@.len(),
            texts@.len() == lines@.len(),
            forall|k: int| 0 <= k < i ==> fits_string((#[trigger] lines@[k]).entry_name@),
            rows_of(lines@.take(i as int), texts@, rows@),
        decreases lines.len() - i,
    {
        let mut text: Vec<u8> = Vec::new();
        write_bytes(&mut text, texts[i].as_slice());
        assert(text@ =~= texts@[i as int]@);
        match EncodedLine::new(lines[i].entry_name.clone(), lines[i].score, text) {
            Some(row) => {
                rows.push(row);
            },
            None => {
                return None;
            },
        }
        i += 1;
    }
    assert(lines@.take(i as int) =~= lines@);
    Some(rows)
}

/// Builds what one client is sent in a refresh, in mode `Add` or `Update`:
/// the objective packet, after an `Add` the display-slot packet, then the
/// score packet of every row with the row's own entry name and score.
pub fn client_batch(mode: Mode, title: &[u8], lines: &Vec<EncodedLine>) -> (packets: Vec<Packet>)
    requires
        mode != Mode::Remove,
    ensures
        packets@.map_values(|p: Packet| p@) == client_packets(mode, title@, line_views(lines@)),
{
    proof {
        lemma_objective_name_fits();
    }
    let mut packets: Vec<Packet> = Vec::new();
    packets.push(objective_packet(OBJECTIVE_NAME, mode, title, RenderType::Integer, None));
    match mode {
        Mode::Add => {
            packets.push(display_slot_packet(DisplaySlot::Sidebar, OBJECTIVE_NAME));
        },
        _ => {},
    }
    let ghost head = packets@.map_values(|p: Packet| p@);
    let mut index: usize = 0;
    while index < lines.len()
        invariant
            index <= lines@.len(),
            fits_string(OBJECTIVE_NAME@),
            packets@.map_values(|p: Packet| p@) == head + score_views(line_views(lines@)).take(
                index as int,
            ),
        decreases lines.len() - index,
    {
        let line = &lines[index];
        proof {
            use_type_invariant(line);
        }
        let packet = score_packet(
            line.entry_name.as_str(),
            OBJECTIVE_NAME,
            line.score,
            Some(line.text.as_slice()),
            None,
        );
        let ghost before = packets@.map_values(|p: Packet| p@);
        packets.push(packet);
        proof {
            let all = score_views(line_views(lines@));
            assert(packet@ == all[index as int]);
            assert(packets@.map_values(|p: Packet| p@) =~= before.push(packet@));
            assert(all.take(index + 1) =~= all.take(index as int).push(all[index as int]));
        }
        index += 1;
    }
    proof {
        let all = score_views(line_views(lines@));
        assert(all.take(index as int) =~= all);
    }
    packets
}

/// One refresh of the sidebar. With no client connected nothing happens.
/// Otherwise the tracker forgets the clients that are gone, and every client
/// gets its packets, in the order of `clients`: a client that does not hold
/// the objective gets it defined and shown, the others get its title
/// updated, and all get every line. Afterwards the tracker holds exactly the
/// connected clients.
pub fn refresh(
    tracker: &mut ClientTracker,
    clients: &[u128],
    title: &[u8],
    lines: &Vec<EncodedLine>,
) -> (batches: Vec<ClientBatch>)
    ensures
        batches@.len() == clients@.len(),
        forall|i: int|
            0 <= i < clients@.len() ==> {
                &&& (#[trigger] batches@[i]).client == clients@[i]
                &&& batches@[i].packet_views() == client_packets(
                    mode_at(old(tracker)@, clients@, i),
                    title@,
                    line_views(lines@),
                )
            },
        clients@.len() == 0 ==> final(tracker)@ == old(tracker)@,
        clients@.len() > 0 ==> final(tracker)@ == clients@.to_set(),
{
    let mut batches: Vec<ClientBatch> = Vec::new();
    if clients.len() == 0 {
        return batches;
    }
    tracker.sync(clients);
    let ghost base = tracker@;
    let mut i: usize = 0;
    while i < clients.len()
        invariant
            i <= clients.len(),
            base == pruned(old(tracker)@, clients@),
            tracker@ == base.union(clients@.take(i as int).to_set()),
            batches@.len() == i,
            forall|k: int|
                0 <= k < i ==> {
                    &&& (#[trigger] batches@[k]).client == clients@[k]
                    &&& batches@[k].packet_views() == client_packets(
                        mode_at(old(tracker)@, clients@, k),
                        title@,
                        line_views(lines@),
                    )
                },
        decreases clients.len() - i,
    {
        let id = clients[i];
        let mode = tracker.mode_for(id);
        proof {
            lemma_take_one_more(clients@, i as int);
            assert(tracker@ =~= base.union(clients@.take(i + 1).to_set()));
        }
        let packets = client_batch(mode, title, lines);
        batches.push(ClientBatch { client: id, packets });
        i += 1;
    }
    proof {
        assert(clients@.take(i as int) =~= clients@);
        assert(tracker@ =~= clients@.to_set());
    }
    batches
}

/// What every client is sent when the sidebar is switched off: one objective
/// packet in mode `Remove`.
pub open spec fn teardown_packets() -> Seq<PacketView> {
    seq![objective_view(Mode::Remove, Seq::empty())]
}

/// Tears the sidebar down: every connected client gets exactly one objective
/// packet, in mode `Remove`, and the tracker is empty afterwards.
pub fn teardown(tracker: &mut ClientTracker, clients: &[u128]) -> (batches: Vec<ClientBatch>)
    ensures
        batches@.len() == clients@.len(),
        forall|i: int|
            0 <= i < clients@.len() ==> {
                &&& (#[trigger] batches@[i]).client == clients@[i]
                &&& batches@[i].packet_views() == teardown_packets()
            },
        final(tracker)@ == Set::<u128>::empty(),
{
    proof {
        lemma_objective_name_fits();
    }
    let mut batches: Vec<ClientBatch> = Vec::new();
    let empty: Vec<u8> = Vec::new();
    let mut i: usize = 0;
    while i < clients.len()
        invariant
            i <= clients.len(),
            empty@ == Seq::<u8>::empty(),
            fits_string(OBJECTIVE_NAME@),
            batches@.len() == i,
            forall|k: int|
                0 <= k < i ==> {
                    &&& (#[trigger] batches@[k]).client == clients@[k]
                    &&& batches@[k].packet_views() == teardown_packets()
                },
        decreases clients.len() - i,
    {
        let remove = objective_packet(
            OBJECTIVE_NAME,
            Mode::Remove,
            empty.as_slice(),
            RenderType::Integer,
            None,
        );
        let mut packets: Vec<Packet> = Vec::new();
        packets.push(remove);
        let batch = ClientBatch { client: clients[i], packets };
        assert(batch.packet_views() =~= teardown_packets());
        batches.push(batch);
        i += 1;
    }
    tracker.clear();
    batches
}

/// Whether the client at index `i` stands there for the first time.
pub open spec fn is_first(ids: Seq<u128>, i: int) -> bool {
    0 <= i < ids.len() && !ids.take(i).contains(ids[i])
}

/// The indices at which a client stands for the first time, in rising
/// order: a client that is met in several worlds counts once.
pub fn first_occurrences(ids: &[u128]) -> (kept: Vec<usize>)
    ensures
        forall|k: int| 0 <= k < kept@.len() ==> is_first(ids@, #[trigger] kept@[k] as int),
        forall|i: int| is_first(ids@, i) ==> kept@.contains(i as usize),
        forall|a: int, b: int| 0 <= a < b < kept@.len() ==> kept@[a] < kept@[b],
{
    let mut kept: Vec<usize> = Vec::new();
    let mut seen: HashSet<u128> = HashSet::new();
    let mut i: usize = 0;
    assert(ids@.take(0).to_set() =~= Set::<u128>::empty());
    while i < ids.len()
        invariant
            i <= ids.len(),
            seen@ == ids@.take(i as int).to_set(),
            forall|k: int| 0 <= k < kept@.len() ==> is_first(ids@, #[trigger] kept@[k] as int),
            forall|k: int| 0 <= k < kept@.len() ==> #[trigger] kept@[k] < i,
            forall|j: int| 0 <= j < i && is_first(ids@, j) ==> kept@.contains(j as usize),
            forall|a: int, b: int| 0 <= a < b < kept@.len() ==> kept@[a] < kept@[b],
        decreases ids.len() - i,
    {
        let ghost before = kept@;
        proof {
            lemma_take_one_more(ids@, i as int);
        }
        if seen.insert(ids[i]) {
            kept.push(i);
            assert(kept@[before.len() as int] == i);
            assert forall|j: int| 0 <= j < i + 1 && is_first(ids@, j) implies kept@.contains(
                j as usize,
            ) by {
                if j < i {
                    let k = choose|k: int| 0 <= k < before.len() && before[k] == j as usize;
                    assert(kept@[k] == j as usize);
                }
            }
        }
        i += 1;
    }
    kept
}

} // verus!
