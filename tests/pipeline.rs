use beam_harness::bundle::{bundle_step, BundleAction, BundleEvent, BundleState, TemplateCache};
use beam_harness::coders::Context;
use beam_harness::data::{DataChannel, StreamKey};
use beam_harness::element::{decode_element, Element, StandardCoder};
use beam_harness::coders::DecodeError;
use beam_harness::operators::{
    data_input, data_output, flatten, group_by_key, impulse, par_do, run_impulse_stage, try_par_do,
};
use beam_harness::transforms::Create;
use beam_harness::worker::reset_log;

#[test]
fn impulse_emits_one_element() {
    let seeds = impulse();
    assert_eq!(seeds.len(), 1);
    match &seeds[0] {
        Element::Bytes(b) => assert_eq!(b.as_ref(), b"impulse"),
        other => panic!("unexpected {:?}", other),
    }
}

#[test]
fn par_do_flat_maps_in_order() {
    let inputs = vec![Element::VarInt(2), Element::VarInt(0), Element::VarInt(3)];
    let out = par_do(&inputs, |x: &Element| match x {
        Element::VarInt(n) => (0..*n).map(|i| Element::VarInt(10 * *n + i)).collect(),
        _ => Vec::new(),
    });
    let got: Vec<String> = out.iter().map(|e| format!("{:?}", e)).collect();
    let want: Vec<String> = [20u64, 21, 30, 31, 32]
        .iter()
        .map(|v| format!("{:?}", Element::VarInt(*v)))
        .collect();
    assert_eq!(got, want);
}

#[test]
fn impulse_stage_writes_one_message_per_output() {
    let key = StreamKey { instruction_id: 4, transform_id: 9 };
    let mut channel = DataChannel::new();
    let n: u64 = 5;
    run_impulse_stage(
        |_x: &Element| (0..n).map(Element::VarInt).collect(),
        &StandardCoder::VarInt,
        key,
        &mut channel,
    );
    assert_eq!(channel.len(), 5);
    for i in 0..channel.len() {
        let (k, payload) = channel.message(i);
        assert_eq!(k, key);
        let bytes = payload.unwrap();
        let (e, m) = decode_element(&StandardCoder::VarInt, bytes, Context::Delimited).unwrap();
        assert_eq!(m, bytes.len());
        assert!(matches!(e, Element::VarInt(v) if v == i as u64));
    }
}

#[test]
fn data_output_encodes_strings() {
    let key = StreamKey { instruction_id: 1, transform_id: 2 };
    let mut channel = DataChannel::new();
    let elems = vec![Element::Str(String::from("a")), Element::Str(String::from("bc"))];
    data_output(&elems, &StandardCoder::StrUtf8, key, &mut channel);
    channel.close(key);
    assert_eq!(channel.len(), 3);
    assert_eq!(channel.message(0).1.unwrap(), &vec![1u8, b'a']);
    assert_eq!(channel.message(1).1.unwrap(), &vec![2u8, b'b', b'c']);
    assert!(channel.message(2).1.is_none());
}

#[test]
fn flatten_keeps_every_element() {
    let a = vec![Element::VarInt(1), Element::VarInt(2), Element::VarInt(3)];
    let b = vec![Element::VarInt(4), Element::VarInt(5)];
    let out = flatten(vec![a, Vec::new(), b]);
    assert_eq!(out.len(), 5);
    let got: Vec<u64> = out
        .iter()
        .map(|e| match e {
            Element::VarInt(v) => *v,
            _ => panic!("not an integer"),
        })
        .collect();
    assert_eq!(got, vec![1, 2, 3, 4, 5]);
}

#[test]
fn group_by_key_one_record_per_key() {
    let pairs: Vec<(u64, u64)> = vec![(1, 10), (2, 20), (1, 30)];
    let (keys, groups) = group_by_key(&pairs);
    assert_eq!(keys.len(), 2);
    assert_eq!(groups.len(), 2);
    let k1 = keys.iter().position(|k| *k == 1).unwrap();
    let k2 = keys.iter().position(|k| *k == 2).unwrap();
    assert_eq!(groups[k1], vec![10, 30]);
    assert_eq!(groups[k2], vec![20]);
}

#[test]
fn group_by_key_empty_input() {
    let pairs: Vec<(u64, u64)> = Vec::new();
    let (keys, groups) = group_by_key(&pairs);
    assert!(keys.is_empty());
    assert!(groups.is_empty());
}

#[test]
fn bundle_completes_normally() {
    let mut s = BundleState::Created;
    let mut actions = Vec::new();
    for e in [BundleEvent::Start, BundleEvent::Element, BundleEvent::Element, BundleEvent::InputDone, BundleEvent::Finished] {
        let (n, a) = bundle_step(s, e);
        s = n;
        actions.push(a);
    }
    assert_eq!(s, BundleState::Completed);
    assert_eq!(actions[0], BundleAction::StartOperators);
    assert_eq!(actions[3], BundleAction::FinishOperators);
    assert_eq!(actions[4], BundleAction::ReportCompleted);
}

#[test]
fn bundle_cancel_mid_processing_fails() {
    let (s, _) = bundle_step(BundleState::Created, BundleEvent::Start);
    let (s, _) = bundle_step(s, BundleEvent::Element);
    let (s, a) = bundle_step(s, BundleEvent::Cancel);
    assert_eq!(a, BundleAction::AbandonAndFinish);
    let (s, _) = bundle_step(s, BundleEvent::InputDone);
    let (s, a) = bundle_step(s, BundleEvent::Finished);
    assert_eq!(s, BundleState::Failed);
    assert_eq!(a, BundleAction::ReportFailed);
}

#[test]
fn bundle_element_failure_fails() {
    let (s, _) = bundle_step(BundleState::Processing, BundleEvent::ElementFailed);
    assert_eq!(s, BundleState::Finishing { failed: true });
    let (s, a) = bundle_step(s, BundleEvent::Element);
    assert_eq!(a, BundleAction::Ignore);
    let (s, _) = bundle_step(s, BundleEvent::Finished);
    assert_eq!(s, BundleState::Failed);
}

#[test]
fn template_built_once_per_id() {
    let mut cache = TemplateCache::new();
    assert!(cache.get_or_build(7));
    assert!(!cache.get_or_build(7));
    assert_eq!(cache.construction_count(), 1);
    assert!(cache.get_or_build(8));
    assert_eq!(cache.construction_count(), 2);
}

#[test]
fn create_emits_its_elements() {
    let c = Create::new(vec![3u64, 1, 2]);
    assert_eq!(c.elements(), &vec![3u64, 1, 2]);
    assert_eq!(c.expand_internal(), vec![3u64, 1, 2]);
}

#[test]
fn reset_log_empties() {
    let mut log = vec![String::from("started"), String::from("finished")];
    reset_log(&mut log);
    assert!(log.is_empty());
}

#[test]
fn data_input_reads_concatenated_elements() {
    let key = StreamKey { instruction_id: 1, transform_id: 1 };
    let mut channel = DataChannel::new();
    let elems = vec![Element::VarInt(300), Element::VarInt(0), Element::VarInt(u64::MAX)];
    data_output(&elems, &StandardCoder::VarInt, key, &mut channel);
    let mut stream = Vec::new();
    for i in 0..channel.len() {
        stream.extend_from_slice(channel.message(i).1.unwrap());
    }
    let back = data_input(&StandardCoder::VarInt, &stream).unwrap();
    let got: Vec<String> = back.iter().map(|e| format!("{:?}", e)).collect();
    let want: Vec<String> = elems.iter().map(|e| format!("{:?}", e)).collect();
    assert_eq!(got, want);
    assert!(data_input(&StandardCoder::VarInt, &[]).unwrap().is_empty());
}

#[test]
fn data_input_reports_truncation() {
    let r = data_input(&StandardCoder::StrUtf8, &[1, b'a', 3, b'b']);
    assert!(matches!(r, Err(DecodeError::Truncated)));
}

#[test]
fn try_par_do_stops_at_first_failure() {
    let inputs = vec![Element::VarInt(1), Element::VarInt(2), Element::VarInt(3)];
    let r = try_par_do(&inputs, |x: &Element| match x {
        Element::VarInt(2) => Err(String::from("bad element")),
        Element::VarInt(n) => Ok(vec![Element::VarInt(*n * 10)]),
        _ => Ok(Vec::new()),
    });
    match r {
        Err(fail) => {
            assert_eq!(fail.index, 1);
            assert_eq!(fail.message, "bad element");
        }
        Ok(_) => panic!("the failure was not reported"),
    }
    let ok = try_par_do(&inputs, |x: &Element| Ok(vec![Element::Null, Element::Null, Element::Null].into_iter().take(match x {
        Element::VarInt(n) => *n as usize,
        _ => 0,
    }).collect()));
    assert_eq!(ok.unwrap().len(), 6);
}

#[test]
fn receive_demultiplexes_by_key() {
    let a = StreamKey { instruction_id: 1, transform_id: 10 };
    let b = StreamKey { instruction_id: 1, transform_id: 11 };
    let mut channel = DataChannel::new();
    channel.write(a, vec![1, 2]);
    channel.write(b, vec![9]);
    channel.write(a, vec![3]);
    assert_eq!(channel.receive(a), (vec![1, 2, 3], false));
    channel.close(a);
    channel.write(a, vec![4]);
    assert_eq!(channel.receive(a), (vec![1, 2, 3], true));
    assert_eq!(channel.receive(b), (vec![9], false));
    let c = StreamKey { instruction_id: 2, transform_id: 10 };
    assert_eq!(channel.receive(c), (Vec::new(), false));
}

#[test]
fn output_then_input_through_channel() {
    let key = StreamKey { instruction_id: 3, transform_id: 5 };
    let mut channel = DataChannel::new();
    let elems = vec![Element::Str(String::from("x")), Element::Str(String::new())];
    data_output(&elems, &StandardCoder::StrUtf8, key, &mut channel);
    channel.close(key);
    let (bytes, ended) = channel.receive(key);
    assert!(ended);
    assert_eq!(bytes, vec![1, b'x', 0]);
    let back = data_input(&StandardCoder::StrUtf8, &bytes).unwrap();
    assert_eq!(back.len(), 2);
    assert!(matches!(&back[0], Element::Str(s) if s == "x"));
    assert!(matches!(&back[1], Element::Str(s) if s.is_empty()));
}
