use vstd::prelude::*;
use crate::job::JobDesc;

verus! {

/// Whether a byte string is well-formed UTF-8 text.
pub uninterp spec fn utf8_valid(b: Seq<u8>) -> bool;

/// Relies on std::str::from_utf8: it succeeds exactly on well-formed UTF-8,
/// which depends on the bytes alone.
#[verifier::external_body]
fn is_utf8(b: &[u8]) -> (r: bool)
    ensures
        r == utf8_valid(b@),
{
    std::str::from_utf8(b).is_ok()
}

/// Why a job's plan could not be resolved. Each fails the one job, never
/// the worker.
#[derive(Debug)]
pub enum ResourceFault {
    /// The resource name is not UTF-8 text.
    NameNotText,
    /// No resource of that name has been published.
    UnknownResource,
    /// The resource has no plan builder of that name.
    UnknownPlan,
}

/// Byte-wise equality.
pub fn bytes_eq(a: &[u8], b: &[u8]) -> (r: bool)
    ensures
        r == (a@ == b@),
{
    if a.len() != b.len() {
        return false;
    }
    let mut i: usize = 0;
    while i < a.len()
        invariant
            a@.len() == b@.len(),
            i <= a@.len(),
            a@.subrange(0, i as int) == b@.subrange(0, i as int),
        decreases a@.len() - i,
    {
        if a[i] != b[i] {
            assert(a@.subrange(0, i as int + 1)[i as int] != b@.subrange(0, i as int + 1)[i as int]);
            return false;
        }
        assert(a@.subrange(0, i as int + 1) =~= a@.subrange(0, i as int).push(a@[i as int]));
        assert(b@.subrange(0, i as int + 1) =~= b@.subrange(0, i as int).push(b@[i as int]));
        i = i + 1;
    }
    assert(a@ =~= a@.subrange(0, i as int));
    assert(b@ =~= b@.subrange(0, i as int));
    true
}

/// The plan builders of one loaded resource, each under a distinct name.
pub struct PlanModule<B> {
    plans: Vec<(Vec<u8>, B)>,
}

impl<B> PlanModule<B> {
    /// The builders' names, in order of addition.
    pub closed spec fn names(&self) -> Seq<Seq<u8>> {
        self.plans@.map_values(|p: (Vec<u8>, B)| p.0@)
    }

    /// The builders, in order of addition.
    pub closed spec fn builders(&self) -> Seq<B> {
        self.plans@.map_values(|p: (Vec<u8>, B)| p.1)
    }

    pub open spec fn wf(&self) -> bool {
        &&& self.names().len() == self.builders().len()
        &&& forall|i: int, j: int|
            0 <= i < j < self.names().len() ==> self.names()[i] != self.names()[j]
    }

    /// The builder named `plan`, if there is one.
    pub open spec fn builder_named(&self, plan: Seq<u8>, b: B) -> bool {
        exists|i: int| 0 <= i < self.names().len() && self.names()[i] == plan && self.builders()[i] == b
    }

    pub open spec fn has_plan(&self, plan: Seq<u8>) -> bool {
        exists|i: int| 0 <= i < self.names().len() && self.names()[i] == plan
    }

    /// A module with no builders.
    pub fn new() -> (r: Self)
        ensures
            r.wf(),
            r.names().len() == 0,
    {
        PlanModule { plans: Vec::new() }
    }

    fn find(&self, plan: &[u8]) -> (r: Option<usize>)
        ensures
            r is None <==> !self.has_plan(plan@),
            r matches Some(i) ==> i < self.names().len() && self.names()[i as int] == plan@,
    {
        let mut i: usize = 0;
        while i < self.plans.len()
            invariant
                i <= self.plans@.len(),
                forall|j: int| 0 <= j < i ==> self.names()[j] != plan@,
            decreases self.plans@.len() - i,
        {
            assert(self.names()[i as int] == self.plans@[i as int].0@);
            if bytes_eq(self.plans[i].0.as_slice(), plan) {
                return Some(i);
            }
            i = i + 1;
        }
        None
    }

    /// Adds `builder` under `plan`, unless a builder of that name is there
    /// already; says whether it was added.
    pub fn add(&mut self, plan: Vec<u8>, builder: B) -> (r: bool)
        requires
            old(self).wf(),
        ensures
            final(self).wf(),
            r == !old(self).has_plan(plan@),
            r ==> final(self).names() == old(self).names().push(plan@) && final(self).builders()
                == old(self).builders().push(builder),
            !r ==> final(self).names() == old(self).names() && final(self).builders()
                == old(self).builders(),
    {
        match self.find(plan.as_slice()) {
            Some(_) => false,
            None => {
                let ghost n0 = self.names();
                let ghost b0 = self.builders();
                let ghost p = plan@;
                self.plans.push((plan, builder));
                assert(self.names() =~= n0.push(p));
                assert(self.builders() =~= b0.push(builder));
                true
            },
        }
    }
}

/// Loaded resources, each published once under a distinct name and read
/// only afterwards.
pub struct ResourceRegistry<B> {
    entries: Vec<(Vec<u8>, PlanModule<B>)>,
}

impl<B> ResourceRegistry<B> {
    /// The resources' names, in order of publication.
    pub closed spec fn names(&self) -> Seq<Seq<u8>> {
        self.entries@.map_values(|e: (Vec<u8>, PlanModule<B>)| e.0@)
    }

    /// The resources, in order of publication.
    pub closed spec fn modules(&self) -> Seq<PlanModule<B>> {
        self.entries@.map_values(|e: (Vec<u8>, PlanModule<B>)| e.1)
    }

    pub open spec fn wf(&self) -> bool {
        &&& self.names().len() == self.modules().len()
        &&& forall|i: int| 0 <= i < self.modules().len() ==> self.modules()[i].wf()
        &&& forall|i: int, j: int|
            0 <= i < j < self.names().len() ==> self.names()[i] != self.names()[j]
    }

    pub open spec fn has_resource(&self, name: Seq<u8>) -> bool {
        exists|i: int| 0 <= i < self.names().len() && self.names()[i] == name
    }

    /// The resource published as `name` has a builder named `plan`, and it
    /// is `b`.
    pub open spec fn resolves_to(&self, name: Seq<u8>, plan: Seq<u8>, b: B) -> bool {
        exists|i: int|
            0 <= i < self.names().len() && self.names()[i] == name && self.modules()[i].builder_named(
                plan,
                b,
            )
    }

    /// The resource published as `name` has a builder named `plan`.
    pub open spec fn resolves(&self, name: Seq<u8>, plan: Seq<u8>) -> bool {
        exists|i: int|
            0 <= i < self.names().len() && self.names()[i] == name && self.modules()[i].has_plan(plan)
    }

    /// A registry with nothing published.
    pub fn new() -> (r: Self)
        ensures
            r.wf(),
            r.names().len() == 0,
    {
        ResourceRegistry { entries: Vec::new() }
    }

    fn find(&self, name: &[u8]) -> (r: Option<usize>)
        ensures
            r is None <==> !self.has_resource(name@),
            r matches Some(i) ==> i < self.names().len() && self.names()[i as int] == name@,
    {
        let mut i: usize = 0;
        while i < self.entries.len()
            invariant
                i <= self.entries@.len(),
                forall|j: int| 0 <= j < i ==> self.names()[j] != name@,
            decreases self.entries@.len() - i,
        {
            assert(self.names()[i as int] == self.entries@[i as int].0@);
            if bytes_eq(self.entries[i].0.as_slice(), name) {
                return Some(i);
            }
            i = i + 1;
        }
        None
    }

    /// Publishes `module` under `name`, unless that name is taken; a
    /// published resource is never replaced. Says whether it was published.
    pub fn publish(&mut self, name: Vec<u8>, module: PlanModule<B>) -> (r: bool)
        requires
            old(self).wf(),
            module.wf(),
        ensures
            final(self).wf(),
            r == !old(self).has_resource(name@),
            r ==> final(self).names() == old(self).names().push(name@) && final(self).modules()
                == old(self).modules().push(module),
            !r ==> final(self).names() == old(self).names() && final(self).modules()
                == old(self).modules(),
    {
        match self.find(name.as_slice()) {
            Some(_) => false,
            None => {
                let ghost n0 = self.names();
                let ghost m0 = self.modules();
                let ghost p = name@;
                let ghost mg = module;
                self.entries.push((name, module));
                assert(self.names() =~= n0.push(p));
                assert(self.modules() =~= m0.push(mg));
                true
            },
        }
    }
}

/// Resolves a job's plan against a registry of loaded resources: the
/// resource named by the job, then its builder named by the plan.
pub struct DyLibParser;

impl DyLibParser {
    /// Resolves `job` given whether its resource name is UTF-8 text: the
    /// builder named by the plan in the resource named by the job, or the
    /// fault that stops it, checked in that order.
    pub fn resolve_checked<'a, B>(&self, job: &JobDesc, registry: &'a ResourceRegistry<B>, name_is_text: bool) -> (r: Result<&'a B, ResourceFault>)
        requires
            registry.wf(),
        ensures
            match r {
                Ok(b) => name_is_text && registry.resolves_to(job.resource@, job.plan@, *b),
                Err(ResourceFault::NameNotText) => !name_is_text,
                Err(ResourceFault::UnknownResource) => name_is_text && !registry.has_resource(
                    job.resource@,
                ),
                Err(ResourceFault::UnknownPlan) => name_is_text && registry.has_resource(
                    job.resource@,
                ) && !registry.resolves(job.resource@, job.plan@),
            },
            name_is_text && registry.resolves(job.resource@, job.plan@) ==> r is Ok,
    {
        if !name_is_text {
            return Err(ResourceFault::NameNotText);
        }
        match registry.find(job.resource.as_slice()) {
            None => Err(ResourceFault::UnknownResource),
            Some(i) => {
                let module = &registry.entries[i].1;
                assert(registry.modules()[i as int] == *module);
                match module.find(job.plan.as_slice()) {
                    None => {
                        assert forall|k: int|
                            0 <= k < registry.names().len() && registry.names()[k] == job.resource@
                            implies !registry.modules()[k].has_plan(job.plan@) by {
                            if k != i {
                                assert(registry.names()[k] == registry.names()[i as int]);
                            }
                        }
                        Err(ResourceFault::UnknownPlan)
                    },
                    Some(j) => {
                        let b = &module.plans[j].1;
                        assert(module.builders()[j as int] == *b);
                        Ok(b)
                    },
                }
            },
        }
    }

    /// Resolves `job` against `registry`; every failure is returned as a
    /// `ResourceFault`, none stops the worker.
    pub fn resolve<'a, B>(&self, job: &JobDesc, registry: &'a ResourceRegistry<B>) -> (r: Result<&'a B, ResourceFault>)
        requires
            registry.wf(),
        ensures
            match r {
                Ok(b) => utf8_valid(job.resource@) && registry.resolves_to(job.resource@, job.plan@, *b),
                Err(ResourceFault::NameNotText) => !utf8_valid(job.resource@),
                Err(ResourceFault::UnknownResource) => utf8_valid(job.resource@) && !registry.has_resource(
                    job.resource@,
                ),
                Err(ResourceFault::UnknownPlan) => utf8_valid(job.resource@) && registry.has_resource(
                    job.resource@,
                ) && !registry.resolves(job.resource@, job.plan@),
            },
            utf8_valid(job.resource@) && registry.resolves(job.resource@, job.plan@) ==> r is Ok,
    {
        let text = is_utf8(job.resource.as_slice());
        self.resolve_checked(job, registry, text)
    }
}

} // verus!
