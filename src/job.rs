use vstd::prelude::*;

verus! {

/// The three opaque payloads of one job. An empty buffer stands for an
/// absent field.
pub struct JobDesc {
    pub input: Vec<u8>,
    pub plan: Vec<u8>,
    pub resource: Vec<u8>,
}

/// The wire form of a descriptor's payloads: a field is present only when
/// its buffer is non-empty.
#[derive(Clone)]
pub struct WirePayload {
    pub source: Option<Vec<u8>>,
    pub plan: Option<Vec<u8>>,
    pub resource: Option<Vec<u8>>,
}

/// Wire form of one buffer: absent when empty.
pub open spec fn field_of(b: Seq<u8>) -> Option<Seq<u8>> {
    if b.len() == 0 {
        None
    } else {
        Some(b)
    }
}

/// Buffer of one wire field: empty when absent.
pub open spec fn buffer_of(f: Option<Seq<u8>>) -> Seq<u8> {
    match f {
        Some(b) => b,
        None => Seq::empty(),
    }
}

/// A wire field never carries a present but empty buffer.
pub open spec fn canonical_field(f: Option<Seq<u8>>) -> bool {
    match f {
        Some(b) => b.len() > 0,
        None => true,
    }
}

pub open spec fn opt_view(f: Option<Vec<u8>>) -> Option<Seq<u8>> {
    match f {
        Some(b) => Some(b@),
        None => None,
    }
}

impl JobDesc {

    /// A descriptor with all three fields absent.
    pub fn new() -> (r: JobDesc)
        ensures
            r.input@.len() == 0,
            r.plan@.len() == 0,
            r.resource@.len() == 0,
    {
        JobDesc { input: Vec::new(), plan: Vec::new(), resource: Vec::new() }
    }

    pub fn set_input(&mut self, input_bytes: Vec<u8>)
        ensures
            final(self).input@ == input_bytes@,
            final(self).plan@ == old(self).plan@,
            final(self).resource@ == old(self).resource@,
    {
        self.input = input_bytes;
    }

    pub fn set_plan(&mut self, plan_bytes: Vec<u8>)
        ensures
            final(self).plan@ == plan_bytes@,
            final(self).input@ == old(self).input@,
            final(self).resource@ == old(self).resource@,
    {
        self.plan = plan_bytes;
    }

    pub fn set_resource(&mut self, resource_bytes: Vec<u8>)
        ensures
            final(self).resource@ == resource_bytes@,
            final(self).input@ == old(self).input@,
            final(self).plan@ == old(self).plan@,
    {
        self.resource = resource_bytes;
    }
}

/// Wire form of one buffer.
pub fn encode_field(b: Vec<u8>) -> (r: Option<Vec<u8>>)
    ensures
        opt_view(r) == field_of(b@),
{
    if b.len() == 0 {
        None
    } else {
        Some(b)
    }
}

/// Buffer of one wire field.
pub fn decode_field(f: Option<Vec<u8>>) -> (r: Vec<u8>)
    ensures
        r@ == buffer_of(opt_view(f)),
{
    match f {
        Some(b) => b,
        None => Vec::new(),
    }
}

/// Puts a descriptor's payloads in wire form, omitting every empty buffer.
pub fn encode_payload(job: JobDesc) -> (r: WirePayload)
    ensures
        opt_view(r.source) == field_of(job.input@),
        opt_view(r.plan) == field_of(job.plan@),
        opt_view(r.resource) == field_of(job.resource@),
{
    let JobDesc { input, plan, resource } = job;
    WirePayload {
        source: encode_field(input),
        plan: encode_field(plan),
        resource: encode_field(resource),
    }
}

/// Rebuilds a descriptor from wire form, an absent field giving an empty
/// buffer.
pub fn decode_payload(w: WirePayload) -> (r: JobDesc)
    ensures
        r.input@ == buffer_of(opt_view(w.source)),
        r.plan@ == buffer_of(opt_view(w.plan)),
        r.resource@ == buffer_of(opt_view(w.resource)),
{
    let WirePayload { source, plan, resource } = w;
    JobDesc {
        input: decode_field(source),
        plan: decode_field(plan),
        resource: decode_field(resource),
    }
}

/// Encoding a buffer and decoding it back gives the same buffer; in
/// particular an empty buffer comes back empty.
pub proof fn lemma_buffer_round_trip(b: Seq<u8>)
    ensures
        buffer_of(field_of(b)) == b,
        b.len() == 0 ==> field_of(b) is None,
{
    if b.len() == 0 {
        assert(b =~= Seq::<u8>::empty());
    }
}

/// Decoding a wire field that carries no present but empty buffer and
/// encoding it again gives the same field: absence and emptiness stand for
/// each other in both directions.
pub proof fn lemma_field_round_trip(f: Option<Seq<u8>>)
    requires
        canonical_field(f),
    ensures
        field_of(buffer_of(f)) == f,
{
}

/// Encoding a descriptor and decoding its wire form gives back each of the
/// three buffers; an empty buffer comes back empty.
pub proof fn lemma_descriptor_round_trip(job: JobDesc, w: WirePayload, back: JobDesc)
    requires
        opt_view(w.source) == field_of(job.input@),
        opt_view(w.plan) == field_of(job.plan@),
        opt_view(w.resource) == field_of(job.resource@),
        back.input@ == buffer_of(opt_view(w.source)),
        back.plan@ == buffer_of(opt_view(w.plan)),
        back.resource@ == buffer_of(opt_view(w.resource)),
    ensures
        back.input@ == job.input@,
        back.plan@ == job.plan@,
        back.resource@ == job.resource@,
{
    lemma_buffer_round_trip(job.input@);
    lemma_buffer_round_trip(job.plan@);
    lemma_buffer_round_trip(job.resource@);
}

} // verus!
