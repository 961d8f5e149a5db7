use pegasus_server::job::JobDesc;
use pegasus_server::resolver::{bytes_eq, DyLibParser, PlanModule, ResourceFault, ResourceRegistry};

fn registry() -> ResourceRegistry<u32> {
    let mut module = PlanModule::new();
    assert!(module.add(b"k_hop".to_vec(), 1));
    assert!(module.add(b"ic1".to_vec(), 2));
    assert!(!module.add(b"k_hop".to_vec(), 3));
    let mut reg = ResourceRegistry::new();
    assert!(reg.publish(b"ldbc".to_vec(), module));
    assert!(!reg.publish(b"ldbc".to_vec(), PlanModule::new()));
    reg
}

fn job(resource: &[u8], plan: &[u8]) -> JobDesc {
    let mut j = JobDesc::new();
    j.set_resource(resource.to_vec());
    j.set_plan(plan.to_vec());
    j
}

#[test]
fn absent_resource_is_a_fault_not_an_abort() {
    let reg = registry();
    let r = DyLibParser.resolve(&job(b"missing", b"k_hop"), &reg);
    assert!(matches!(r, Err(ResourceFault::UnknownResource)));
    // the worker goes on: a later job still resolves
    assert_eq!(DyLibParser.resolve(&job(b"ldbc", b"ic1"), &reg).ok(), Some(&2));
}

#[test]
fn resolves_named_builder() {
    let reg = registry();
    assert_eq!(DyLibParser.resolve(&job(b"ldbc", b"k_hop"), &reg).ok(), Some(&1));
}

#[test]
fn unknown_plan_is_a_fault() {
    let reg = registry();
    let r = DyLibParser.resolve(&job(b"ldbc", b"bfs"), &reg);
    assert!(matches!(r, Err(ResourceFault::UnknownPlan)));
}

#[test]
fn non_utf8_name_is_a_fault() {
    let reg = registry();
    let r = DyLibParser.resolve(&job(&[0xff, 0xfe], b"k_hop"), &reg);
    assert!(matches!(r, Err(ResourceFault::NameNotText)));
    let r = DyLibParser.resolve_checked(&job(b"ldbc", b"k_hop"), &reg, false);
    assert!(matches!(r, Err(ResourceFault::NameNotText)));
    let r = DyLibParser.resolve_checked(&job(b"ldbc", b"k_hop"), &reg, true);
    assert_eq!(r.ok(), Some(&1));
}

#[test]
fn byte_equality() {
    assert!(bytes_eq(b"abc", b"abc"));
    assert!(!bytes_eq(b"abc", b"abd"));
    assert!(!bytes_eq(b"ab", b"abc"));
    assert!(bytes_eq(b"", b""));
}
