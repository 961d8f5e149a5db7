use pegasus_server::job::{decode_field, decode_payload, encode_field, encode_payload, JobDesc, WirePayload};
use pegasus_server::merge::merge_streams;

fn of_source(out: &[(usize, u32)], s: usize) -> Vec<u32> {
    out.iter().filter(|p| p.0 == s).map(|p| p.1).collect()
}

#[test]
fn two_servers_three_items_each() {
    let sources = vec![vec![1, 2, 3], vec![4, 5, 6]];
    let out = merge_streams(sources, &vec![1, 0, 0, 1, 1, 0]);
    assert_eq!(out.len(), 6);
    assert_eq!(of_source(&out, 0), vec![1, 2, 3]);
    assert_eq!(of_source(&out, 1), vec![4, 5, 6]);
    assert_eq!(out[0], (1, 4));
    assert_eq!(out[1], (0, 1));
}

#[test]
fn merge_keeps_every_item_whatever_schedule() {
    let sources = vec![vec![9, 8], vec![], vec![7, 7, 7, 1]];
    let out = merge_streams(sources, &vec![5, 1, 2, 2, 0]);
    assert_eq!(out.len(), 6);
    assert_eq!(of_source(&out, 0), vec![9, 8]);
    assert_eq!(of_source(&out, 1), Vec::<u32>::new());
    assert_eq!(of_source(&out, 2), vec![7, 7, 7, 1]);
    assert_eq!(out[0], (2, 7));
    assert_eq!(out[2], (0, 9));
}

#[test]
fn merge_of_no_source_is_empty() {
    let out = merge_streams(Vec::<Vec<u32>>::new(), &vec![0, 1]);
    assert!(out.is_empty());
}

#[test]
fn empty_plan_round_trips_empty() {
    let mut job = JobDesc::new();
    job.set_input(vec![5]);
    job.set_resource(b"lib".to_vec());
    let wire = encode_payload(job);
    assert_eq!(wire.plan, None);
    let back = decode_payload(wire);
    assert!(back.plan.is_empty());
    assert_eq!(back.input, vec![5]);
    assert_eq!(back.resource, b"lib".to_vec());
}

#[test]
fn absent_field_decodes_empty_and_back() {
    let wire = WirePayload { source: None, plan: Some(vec![1, 2]), resource: None };
    let job = decode_payload(wire);
    assert!(job.input.is_empty());
    assert!(job.resource.is_empty());
    let again = encode_payload(job);
    assert_eq!(again.source, None);
    assert_eq!(again.plan, Some(vec![1, 2]));
    assert_eq!(again.resource, None);
    assert_eq!(encode_field(Vec::new()), None);
    assert_eq!(encode_field(vec![0]), Some(vec![0]));
    assert_eq!(decode_field(None), Vec::<u8>::new());
}

#[test]
fn setters_keep_fields_apart() {
    let mut job = JobDesc::new();
    job.set_plan(b"plan".to_vec());
    job.set_resource(b"res".to_vec());
    job.set_input(b"in".to_vec());
    assert_eq!(job.plan, b"plan".to_vec());
    assert_eq!(job.resource, b"res".to_vec());
    assert_eq!(job.input, b"in".to_vec());
}
