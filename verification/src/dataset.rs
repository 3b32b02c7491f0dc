//! Dataset sources.
//!
//! A dataset produces a finite sequence of data records per generation:
//! `prepare` rewinds it, `get_next_data` hands out one record at a time
//! until `None` signals the end of the stream.  A record is a vector of
//! domain-opaque fixed-point reals.

use vstd::prelude::*;

verus! {

/// One data record: domain-opaque reals, scaled by [`crate::fixed::SCALE`].
pub type GenalgoData = Vec<i64>;

/// Copies a data record value for value.
pub fn clone_data(d: &GenalgoData) -> (r: GenalgoData)
    ensures
        r@ == d@,
{
    let mut res: GenalgoData = Vec::new();
    for k in 0..d.len()
        invariant
            res@ == d@.subrange(0, k as int),
    {
        res.push(d[k]);
    }
    proof {
        assert(d@.subrange(0, d@.len() as int) =~= d@);
    }
    res
}

/// A dataset that emits a fixed number of empty records per generation.
#[derive(Debug)]
pub struct EmptyDataset {
    /// How many records one generation receives.
    pub nemission: usize,
    /// How many records have been emitted since the last `prepare`.
    pub data_emitted: usize,
}

impl EmptyDataset {
    /// A dataset of `nemission` empty records per generation.
    pub fn new(nemission: usize) -> (r: EmptyDataset)
        ensures
            r.nemission == nemission,
            r.data_emitted == 0,
    {
        EmptyDataset { nemission, data_emitted: 0 }
    }
}

/// A dataset that replays a fixed list of records each generation.
#[derive(Debug)]
pub struct ValueDataset {
    /// The records replayed each generation, in order.
    pub records: Vec<GenalgoData>,
    /// How many records have been emitted since the last `prepare`.
    pub cursor: usize,
}

impl ValueDataset {
    /// A dataset replaying the given records each generation.
    pub fn new(records: Vec<GenalgoData>) -> (r: ValueDataset)
        ensures
            r.records@ == records@,
            r.cursor == 0,
    {
        ValueDataset { records, cursor: 0 }
    }
}

/// A dataset source, dispatched as a tagged variant.
#[derive(Debug)]
pub enum DatasetHandler {
    /// Emits empty records.
    Empty(EmptyDataset),
    /// Replays a fixed list of records.
    Values(ValueDataset),
}

impl DatasetHandler {
    /// How many records this generation still has to emit.
    pub open spec fn remaining(&self) -> int {
        match self {
            DatasetHandler::Empty(d) => if d.data_emitted <= d.nemission {
                d.nemission - d.data_emitted
            } else {
                0
            },
            DatasetHandler::Values(v) => if v.cursor <= v.records@.len() {
                v.records@.len() - v.cursor
            } else {
                0
            },
        }
    }

    /// How many records one full generation emits.
    pub open spec fn emission_total(&self) -> int {
        match self {
            DatasetHandler::Empty(d) => d.nemission as int,
            DatasetHandler::Values(v) => v.records@.len() as int,
        }
    }

    /// Rewinds the stream for a new generation.
    pub fn prepare(&mut self)
        ensures
            final(self).remaining() == old(self).emission_total(),
            final(self).emission_total() == old(self).emission_total(),
    {
        match self {
            DatasetHandler::Empty(d) => {
                d.data_emitted = 0;
            },
            DatasetHandler::Values(v) => {
                v.cursor = 0;
            },
        }
    }

    /// Hands out the next record of this generation — an empty record
    /// from an [`EmptyDataset`], the record at the cursor from a
    /// [`ValueDataset`] — or `None` when the stream is exhausted.
    pub fn get_next_data(&mut self) -> (r: Option<GenalgoData>)
        ensures
            final(self).emission_total() == old(self).emission_total(),
            r is Some <==> old(self).remaining() > 0,
            r is Some ==> final(self).remaining() == old(self).remaining() - 1,
            r is None ==> *final(self) == *old(self),
            *old(self) is Empty ==> (r matches Some(d) ==> d@.len() == 0),
            *old(self) matches DatasetHandler::Values(v) ==> (r matches Some(d) ==> d@
                == v.records@[v.cursor as int]@),
    {
        match self {
            DatasetHandler::Empty(d) => {
                if d.data_emitted < d.nemission {
                    d.data_emitted = d.data_emitted + 1;
                    Option::Some(Vec::new())
                } else {
                    Option::None
                }
            },
            DatasetHandler::Values(v) => {
                if v.cursor < v.records.len() {
                    let rec = clone_data(&v.records[v.cursor]);
                    v.cursor = v.cursor + 1;
                    Option::Some(rec)
                } else {
                    Option::None
                }
            },
        }
    }
}

} // verus!
