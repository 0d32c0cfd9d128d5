//! Planning sensor-data updaters.
//!
//! A robot carries samplers: closures that read sensors and return raw
//! numbers.  Those closures live outside this library; here is the decision
//! logic that turns a [`SamplerUsage`] into an [`UpdaterPlan`], the exact
//! recipe the caller's closure then follows, and the bit extraction that a
//! direct sampler's plan asks for.

use vstd::prelude::*;

verus! {

/// Which data a constructed updater should draw from which sampler.
#[derive(Clone, Debug)]
pub struct SamplerUsage {
    pub used_sampler_index: usize,
    pub required_data_indexes: Vec<usize>,
}

impl SamplerUsage {
    /// A usage of the sampler at `used_sampler_index`, asking for the data
    /// at `required_data_indexes`.
    pub fn new(used_sampler_index: usize, required_data_indexes: Vec<usize>) -> (r: Self)
        ensures
            r.used_sampler_index == used_sampler_index,
            r.required_data_indexes@ == required_data_indexes@,
    {
        SamplerUsage { used_sampler_index, required_data_indexes }
    }
}

/// The shape of a sampler: a whole sequence per call, one value per index,
/// or one direct value.
#[derive(Clone, Copy, Debug, PartialEq, Eq, Structural)]
pub enum SamplerKind {
    Sequence,
    Indexed,
    Direct,
}

/// Why an updater could not be planned.
#[derive(Clone, Copy, Debug, PartialEq, Eq, Structural)]
pub enum MentaError {
    /// The usage list was empty: there is nothing to resolve.
    EmptyUsageList,
    /// The usage names a sampler index at or past the sampler count.
    SamplerIndexOutOfBounds,
    /// An indexed sampler was used without any data index.
    NoDataIndexes,
}

/// The recipe an updater closure follows.
#[derive(Clone, Debug, PartialEq, Eq)]
pub enum UpdaterPlan {
    /// Sample the sequence and return it whole.
    FullSequence,
    /// Sample the sequence and return the value at this index.
    SingleFromSequence(usize),
    /// Sample the sequence and return the values at these indexes.
    SubsetOfSequence(Vec<usize>),
    /// Call the indexed sampler at this index.
    SingleIndexed(usize),
    /// Call the indexed sampler at each of these indexes.
    ManyIndexed(Vec<usize>),
    /// Return the direct sampler's value.
    DirectValue,
    /// Read the direct sampler's value and extract this bit.
    DirectBit(usize),
    /// Read the direct sampler's value and extract each of these bits.
    DirectBits(Vec<usize>),
}

/// Picks the usage an updater is built from: the first of the list.  Fails
/// on an empty list, and on a sampler index at or past `n_samplers`.
pub fn select_usage(usages: &Vec<SamplerUsage>, n_samplers: usize) -> (r: Result<
    &SamplerUsage,
    MentaError,
>)
    ensures
        usages@.len() == 0 <==> r == Err::<&SamplerUsage, MentaError>(MentaError::EmptyUsageList),
        usages@.len() > 0 && usages@[0].used_sampler_index >= n_samplers <==> r == Err::<
            &SamplerUsage,
            MentaError,
        >(MentaError::SamplerIndexOutOfBounds),
        r matches Ok(u) ==> usages@.len() > 0 && u == usages@[0]
            && u.used_sampler_index < n_samplers,
{
    if usages.len() == 0 {
        return Err(MentaError::EmptyUsageList);
    }
    let usage = &usages[0];
    if usage.used_sampler_index >= n_samplers {
        return Err(MentaError::SamplerIndexOutOfBounds);
    }
    Ok(usage)
}

/// The plan for a sampler of the given kind asked for the given data
/// indexes: a sequence sampler is passed through, narrowed to one index or
/// to a subset; an indexed sampler needs at least one index; a direct
/// sampler yields its value, one bit of it, or several bits.
pub fn plan_for(kind: SamplerKind, required_data_indexes: &Vec<usize>) -> (r: Result<
    UpdaterPlan,
    MentaError,
>)
    ensures
        r is Err <==> kind == SamplerKind::Indexed && required_data_indexes@.len() == 0,
        r matches Err(e) ==> e == MentaError::NoDataIndexes,
        kind == SamplerKind::Sequence && required_data_indexes@.len() == 0 ==> r == Ok::<
            UpdaterPlan,
            MentaError,
        >(UpdaterPlan::FullSequence),
        kind == SamplerKind::Sequence && required_data_indexes@.len() == 1 ==> r == Ok::<
            UpdaterPlan,
            MentaError,
        >(UpdaterPlan::SingleFromSequence(required_data_indexes@[0])),
        kind == SamplerKind::Sequence && required_data_indexes@.len() > 1 ==> (r matches Ok(p)
            && p matches UpdaterPlan::SubsetOfSequence(v) && v@ == required_data_indexes@),
        kind == SamplerKind::Indexed && required_data_indexes@.len() == 1 ==> r == Ok::<
            UpdaterPlan,
            MentaError,
        >(UpdaterPlan::SingleIndexed(required_data_indexes@[0])),
        kind == SamplerKind::Indexed && required_data_indexes@.len() > 1 ==> (r matches Ok(p)
            && p matches UpdaterPlan::ManyIndexed(v) && v@ == required_data_indexes@),
        kind == SamplerKind::Direct && required_data_indexes@.len() == 0 ==> r == Ok::<
            UpdaterPlan,
            MentaError,
        >(UpdaterPlan::DirectValue),
        kind == SamplerKind::Direct && required_data_indexes@.len() == 1 ==> r == Ok::<
            UpdaterPlan,
            MentaError,
        >(UpdaterPlan::DirectBit(required_data_indexes@[0])),
        kind == SamplerKind::Direct && required_data_indexes@.len() > 1 ==> (r matches Ok(p)
            && p matches UpdaterPlan::DirectBits(v) && v@ == required_data_indexes@),
{
    match kind {
        SamplerKind::Sequence => {
            if required_data_indexes.len() == 0 {
                Ok(UpdaterPlan::FullSequence)
            } else if required_data_indexes.len() == 1 {
                Ok(UpdaterPlan::SingleFromSequence(required_data_indexes[0]))
            } else {
                Ok(UpdaterPlan::SubsetOfSequence(copy_indexes(required_data_indexes)))
            }
        },
        SamplerKind::Indexed => {
            if required_data_indexes.len() == 0 {
                Err(MentaError::NoDataIndexes)
            } else if required_data_indexes.len() == 1 {
                Ok(UpdaterPlan::SingleIndexed(required_data_indexes[0]))
            } else {
                Ok(UpdaterPlan::ManyIndexed(copy_indexes(required_data_indexes)))
            }
        },
        SamplerKind::Direct => {
            if required_data_indexes.len() == 0 {
                Ok(UpdaterPlan::DirectValue)
            } else if required_data_indexes.len() == 1 {
                Ok(UpdaterPlan::DirectBit(required_data_indexes[0]))
            } else {
                Ok(UpdaterPlan::DirectBits(copy_indexes(required_data_indexes)))
            }
        },
    }
}

/// The bit of `data` at position `index`, as 0 or 1.
pub fn bit_at(data: i64, index: usize) -> (r: i64)
    requires
        index < 64,
    ensures
        r == (data >> index as u64) & 1,
        r == 0 || r == 1,
{
    let shift: u64 = index as u64;
    let r: i64 = (data >> shift) & 1;
    proof {
        assert((data >> shift) & 1 == 0 || (data >> shift) & 1 == 1) by (bit_vector);
    }
    r
}

/// A copy of an index list.
fn copy_indexes(v: &Vec<usize>) -> (r: Vec<usize>)
    ensures
        r@ == v@,
{
    let n = v.len();
    let mut out: Vec<usize> = Vec::new();
    let mut i: usize = 0;
    while i < n
        invariant
            i <= n,
            n == v@.len(),
            out@ == v@.take(i as int),
        decreases n - i,
    {
        out.push(v[i]);
        proof {
            assert(out@ =~= v@.take(i + 1));
        }
        i = i + 1;
    }
    proof {
        assert(v@.take(n as int) =~= v@);
    }
    out
}

} // verus!
