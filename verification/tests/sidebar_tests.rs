use jinxcore::packet::{
    display_slot_packet, objective_packet, score_packet, DisplaySlot, Mode, Packet, PacketKind,
    RenderType,
};
use jinxcore::render::{render, Metrics};
use jinxcore::sidebar::{
    client_batch, encoded_lines, first_occurrences, next_step, refresh, sleep_seconds, teardown,
    EncodedLine, Step, OBJECTIVE_NAME,
};
use jinxcore::template::{default_template_text, parse_template};
use jinxcore::tracker::ClientTracker;

fn encode(text: &str) -> Vec<u8> {
    let mut bytes = vec![0x08u8];
    bytes.extend_from_slice(text.as_bytes());
    bytes
}

fn row(entry_name: &str, score: i32, text: Vec<u8>) -> EncodedLine {
    EncodedLine::new(entry_name.to_string(), score, text).unwrap()
}

fn kinds(packets: &[Packet]) -> Vec<PacketKind> {
    packets.iter().map(|p| p.kind).collect()
}

#[test]
fn objective_name_is_fixed() {
    assert_eq!(OBJECTIVE_NAME, "jinx_sidebar");
}

#[test]
fn loop_stops_first_then_looks_at_the_switch() {
    assert_eq!(next_step(true, true, 3), Step::Stop);
    assert_eq!(next_step(true, false, 0), Step::Stop);
    assert_eq!(next_step(false, false, 3), Step::Teardown);
    assert_eq!(next_step(false, false, 0), Step::Teardown);
    assert_eq!(next_step(false, true, 0), Step::Skip);
    assert_eq!(next_step(false, true, 1), Step::Refresh);
}

#[test]
fn sleep_is_at_least_one_second() {
    assert_eq!(sleep_seconds(0), 1);
    assert_eq!(sleep_seconds(1), 1);
    assert_eq!(sleep_seconds(5), 5);
    assert_eq!(sleep_seconds(u64::MAX), u64::MAX);
}

#[test]
fn batch_for_add_defines_shows_and_fills() {
    let lines = vec![row("line_0", 2, encode("a")), row("line_1", 1, encode("b"))];
    let packets = client_batch(Mode::Add, &encode("T"), &lines);
    assert_eq!(
        packets,
        vec![
            objective_packet(OBJECTIVE_NAME, Mode::Add, &encode("T"), RenderType::Integer, None),
            display_slot_packet(DisplaySlot::Sidebar, OBJECTIVE_NAME),
            score_packet("line_0", OBJECTIVE_NAME, 2, Some(&encode("a")), None),
            score_packet("line_1", OBJECTIVE_NAME, 1, Some(&encode("b")), None),
        ]
    );
}

#[test]
fn batch_for_update_has_no_display_slot() {
    let lines = vec![row("line_0", 1, encode("a"))];
    let packets = client_batch(Mode::Update, &encode("T"), &lines);
    assert_eq!(
        packets,
        vec![
            objective_packet(OBJECTIVE_NAME, Mode::Update, &encode("T"), RenderType::Integer, None),
            score_packet("line_0", OBJECTIVE_NAME, 1, Some(&encode("a")), None),
        ]
    );
}

#[test]
fn batch_bytes_are_exact() {
    let packets = client_batch(Mode::Add, &[0xaa], &vec![row("line_0", 1, vec![0xbb])]);
    let name = b"jinx_sidebar";
    let mut objective = vec![12u8];
    objective.extend_from_slice(name);
    objective.extend_from_slice(&[0, 0xaa, 0, 0]);
    let mut display = vec![1u8, 12];
    display.extend_from_slice(name);
    let mut score = vec![6u8];
    score.extend_from_slice(b"line_0");
    score.push(12);
    score.extend_from_slice(name);
    score.extend_from_slice(&[1, 1, 0xbb, 0]);
    assert_eq!(packets[0].body, objective);
    assert_eq!(packets[1].body, display);
    assert_eq!(packets[2].body, score);
}

#[test]
fn fresh_client_gets_add_then_update() {
    let template = parse_template(&default_template_text("Status"), "Status");
    let rendered = render(&template, &Metrics { online: 3, tps_hundredths: 1_987, uptime_secs: 65 });
    assert_eq!(rendered.title.plain(), "Status");
    let title = encode(&rendered.title.plain());
    let texts: Vec<Vec<u8>> = rendered.lines.iter().map(|l| encode(&l.text.plain())).collect();
    assert_eq!(texts, vec![encode("Online: 3"), encode("TPS: 19.87"), encode("Uptime: 1m")]);
    let lines = encoded_lines(&rendered.lines, &texts).unwrap();
    assert_eq!(
        lines,
        vec![
            row("line_0", 3, encode("Online: 3")),
            row("line_1", 2, encode("TPS: 19.87")),
            row("line_2", 1, encode("Uptime: 1m")),
        ]
    );

    let mut tracker = ClientTracker::new();
    let first = refresh(&mut tracker, &[42], &title, &lines);
    assert_eq!(first.len(), 1);
    assert_eq!(first[0].client, 42);
    assert_eq!(
        kinds(&first[0].packets),
        vec![
            PacketKind::Objective,
            PacketKind::DisplaySlot,
            PacketKind::Score,
            PacketKind::Score,
            PacketKind::Score,
        ]
    );
    assert_eq!(first[0].packets, client_batch(Mode::Add, &title, &lines));

    let second = refresh(&mut tracker, &[42], &title, &lines);
    assert_eq!(second.len(), 1);
    assert_eq!(
        kinds(&second[0].packets),
        vec![PacketKind::Objective, PacketKind::Score, PacketKind::Score, PacketKind::Score]
    );
    assert_eq!(second[0].packets, client_batch(Mode::Update, &title, &lines));
}

#[test]
fn refresh_with_nobody_changes_nothing() {
    let mut tracker = ClientTracker::new();
    tracker.mode_for(1);
    let batches = refresh(&mut tracker, &[], &[1], &vec![row("line_0", 1, vec![2])]);
    assert!(batches.is_empty());
    assert!(tracker.is_tracked(1));
}

#[test]
fn refresh_forgets_clients_that_left() {
    let mut tracker = ClientTracker::new();
    let lines = vec![row("line_0", 1, vec![2u8])];
    refresh(&mut tracker, &[1, 2], &[1], &lines);
    let batches = refresh(&mut tracker, &[2, 3], &[1], &lines);
    assert_eq!(batches[0].client, 2);
    assert_eq!(batches[0].packets, client_batch(Mode::Update, &[1], &lines));
    assert_eq!(batches[1].client, 3);
    assert_eq!(batches[1].packets, client_batch(Mode::Add, &[1], &lines));
    assert!(!tracker.is_tracked(1));
    let again = refresh(&mut tracker, &[1], &[1], &lines);
    assert_eq!(again[0].packets, client_batch(Mode::Add, &[1], &lines));
}

#[test]
fn a_client_listed_twice_is_added_once() {
    let mut tracker = ClientTracker::new();
    let batches = refresh(&mut tracker, &[9, 9], &[1], &vec![]);
    assert_eq!(kinds(&batches[0].packets), vec![PacketKind::Objective, PacketKind::DisplaySlot]);
    assert_eq!(kinds(&batches[1].packets), vec![PacketKind::Objective]);
}

#[test]
fn teardown_sends_one_remove_each_and_empties_the_tracker() {
    let mut tracker = ClientTracker::new();
    refresh(&mut tracker, &[1, 2, 3], &[1], &vec![row("line_0", 1, vec![2])]);
    let batches = teardown(&mut tracker, &[1, 2, 3]);
    assert_eq!(batches.len(), 3);
    let remove = objective_packet(OBJECTIVE_NAME, Mode::Remove, &[], RenderType::Integer, None);
    for (batch, id) in batches.iter().zip([1u128, 2, 3]) {
        assert_eq!(batch.client, id);
        assert_eq!(batch.packets, vec![remove.clone()]);
    }
    assert!(tracker.is_empty());
    let after = refresh(&mut tracker, &[1], &[1], &vec![]);
    assert_eq!(kinds(&after[0].packets), vec![PacketKind::Objective, PacketKind::DisplaySlot]);
}

#[test]
fn teardown_with_nobody_still_empties_the_tracker() {
    let mut tracker = ClientTracker::new();
    tracker.mode_for(1);
    assert!(teardown(&mut tracker, &[]).is_empty());
    assert!(tracker.is_empty());
}

#[test]
fn teardown_reaches_clients_that_never_held_the_objective() {
    let mut tracker = ClientTracker::new();
    let batches = teardown(&mut tracker, &[5]);
    assert_eq!(batches.len(), 1);
    assert_eq!(batches[0].packets.len(), 1);
    assert_eq!(batches[0].packets[0].body.last(), Some(&1u8));
}

#[test]
fn a_client_met_twice_counts_once() {
    assert_eq!(first_occurrences(&[]), Vec::<usize>::new());
    assert_eq!(first_occurrences(&[7]), vec![0]);
    assert_eq!(first_occurrences(&[7, 8, 7, 9, 8, 7]), vec![0, 1, 3]);
    assert_eq!(first_occurrences(&[1, 1, 1]), vec![0]);
    assert_eq!(first_occurrences(&[3, 2, 1]), vec![0, 1, 2]);
}

#[test]
fn score_packets_carry_the_rows_own_names_and_scores() {
    let lines = vec![row("top", 40, vec![1]), row("", -3, vec![]), row("top", 40, vec![2])];
    let packets = client_batch(Mode::Update, &[9], &lines);
    assert_eq!(
        packets,
        vec![
            objective_packet(OBJECTIVE_NAME, Mode::Update, &[9], RenderType::Integer, None),
            score_packet("top", OBJECTIVE_NAME, 40, Some(&[1]), None),
            score_packet("", OBJECTIVE_NAME, -3, Some(&[]), None),
            score_packet("top", OBJECTIVE_NAME, 40, Some(&[2]), None),
        ]
    );
}

#[test]
fn a_row_gives_back_what_it_was_made_of() {
    let line = row("line_7", 8, vec![1, 2, 3]);
    assert_eq!(line.entry_name(), "line_7");
    assert_eq!(line.score(), 8);
    assert_eq!(line.text(), &[1, 2, 3]);
}

#[test]
fn rows_need_one_text_each() {
    let template = parse_template("T\na\nb", "T");
    let rendered = render(&template, &Metrics { online: 0, tps_hundredths: 0, uptime_secs: 0 });
    assert_eq!(encoded_lines(&rendered.lines, &vec![vec![1]]), None);
    assert_eq!(encoded_lines(&rendered.lines, &vec![vec![1], vec![2], vec![3]]), None);
    assert_eq!(
        encoded_lines(&rendered.lines, &vec![vec![1], vec![2]]),
        Some(vec![row("line_0", 2, vec![1]), row("line_1", 1, vec![2])])
    );
    assert_eq!(encoded_lines(&vec![], &vec![]), Some(vec![]));
}
