//! Decisions of the daemon that forwards ring buffer records to LDMS: which
//! transports it can open, and one rate limiter per message producer.

use vstd::prelude::*;

verus! {

/// Why a stream to the LDMS daemon cannot be set up.
#[derive(Debug, Clone, Copy, PartialEq, Eq)]
pub enum TransportError {
    /// Only the `sock` transport is implemented.
    UnsupportedTransport,
    /// Only the `none` and `munge` authentication methods are implemented.
    UnsupportedAuthentication,
}

/// Are the two strings equal?
pub(crate) fn str_equal(a: &str, b: &str) -> (r: bool)
    ensures
        r == (a@ == b@),
{
    let x = a.to_owned();
    let y = b.to_owned();
    x == y
}

/// Check the transport name and authentication method of an LDMS stream.
///
/// The transport must be `sock`, and then the authentication `none` or
/// `munge`.
pub fn validate_transport(xprt: &str, auth: &str) -> (r: Result<(), TransportError>)
    ensures
        xprt@ != "sock"@ ==> r == Err::<(), TransportError>(TransportError::UnsupportedTransport),
        xprt@ == "sock"@ && auth@ != "none"@ && auth@ != "munge"@ ==> r == Err::<(), TransportError>(
            TransportError::UnsupportedAuthentication,
        ),
        xprt@ == "sock"@ && (auth@ == "none"@ || auth@ == "munge"@) ==> r == Ok::<(), TransportError>(()),
{
    if !str_equal(xprt, "sock") {
        return Err(TransportError::UnsupportedTransport);
    }
    if str_equal(auth, "none") || str_equal(auth, "munge") {
        Ok(())
    } else {
        Err(TransportError::UnsupportedAuthentication)
    }
}

/// One rate limiter per message producer, found by the producer's id.
pub struct ProducerTable<L> {
    ids: Vec<String>,
    limiters: Vec<L>,
}

impl<L> ProducerTable<L> {
    /// The producer ids, in the order they were first seen.
    pub closed spec fn ids(&self) -> Seq<Seq<char>> {
        self.ids@.map_values(|s: String| s@)
    }

    /// The limiter of each producer, in the same order as the ids.
    pub closed spec fn limiters(&self) -> Seq<L> {
        self.limiters@
    }

    /// One limiter per id, and no id twice.
    pub closed spec fn wf(&self) -> bool {
        &&& self.ids@.len() == self.limiters@.len()
        &&& forall|i: int, j: int| 0 <= i < j < self.ids@.len() ==> self.ids@[i]@ != self.ids@[j]@
    }

    /// No producer id appears twice.
    pub proof fn lemma_ids_distinct(&self)
        requires
            self.wf(),
        ensures
            forall|i: int, j: int| 0 <= i < self.ids().len() && 0 <= j < self.ids().len() && self.ids()[i] == self.ids()[j] ==> i == j,
    {
        assert forall|i: int, j: int| 0 <= i < self.ids().len() && 0 <= j < self.ids().len() && self.ids()[i] == self.ids()[j] implies i == j by {
            assert(self.ids()[i] == self.ids@[i]@);
            assert(self.ids()[j] == self.ids@[j]@);
        }
    }

    /// An empty table.
    pub fn new() -> (t: Self)
        ensures
            t.wf(),
            t.ids() == Seq::<Seq<char>>::empty(),
            t.limiters() == Seq::<L>::empty(),
    {
        let t = ProducerTable { ids: Vec::new(), limiters: Vec::new() };
        assert(t.ids() =~= Seq::<Seq<char>>::empty());
        t
    }

    /// Number of producers.
    pub fn len(&self) -> (n: usize)
        requires
            self.wf(),
        ensures
            n == self.ids().len(),
            n == self.limiters().len(),
    {
        self.ids.len()
    }

    /// Position of the producer `id`, if it is in the table.
    pub fn find(&self, id: &str) -> (r: Option<usize>)
        requires
            self.wf(),
        ensures
            r matches Some(i) ==> i < self.ids().len() && self.ids()[i as int] == id@,
            r is None ==> !self.ids().contains(id@),
    {
        let n = self.ids.len();
        for i in 0..n
            invariant
                n == self.ids@.len(),
                forall|j: int| 0 <= j < i ==> self.ids@[j]@ != id@,
        {
            if str_equal(self.ids[i].as_str(), id) {
                return Some(i);
            }
        }
        assert forall|k: int| 0 <= k < self.ids().len() implies self.ids()[k] != id@ by {
            assert(self.ids()[k] == self.ids@[k]@);
        }
        None
    }

    /// Position of the producer `id`, adding it with the limiter `fresh` when
    /// it is not in the table yet.
    pub fn index_or_insert(&mut self, id: &str, fresh: L) -> (i: usize)
        requires
            old(self).wf(),
        ensures
            final(self).wf(),
            i < final(self).ids().len(),
            final(self).ids().len() == final(self).limiters().len(),
            final(self).ids()[i as int] == id@,
            old(self).ids().contains(id@) ==> {
                &&& final(self).ids() == old(self).ids()
                &&& final(self).limiters() == old(self).limiters()
                &&& old(self).ids()[i as int] == id@
            },
            !old(self).ids().contains(id@) ==> {
                &&& final(self).ids() == old(self).ids().push(id@)
                &&& final(self).limiters() == old(self).limiters().push(fresh)
                &&& i == old(self).ids().len()
            },
    {
        match self.find(id) {
            Some(i) => i,
            None => {
                let ghost before = self.ids@;
                let i = self.ids.len();
                self.ids.push(id.to_owned());
                self.limiters.push(fresh);
                assert(self.ids() =~= before.map_values(|s: String| s@).push(id@));
                assert forall|a: int, b: int| 0 <= a < b < self.ids@.len() implies self.ids@[a]@ != self.ids@[b]@ by {
                    if b == i {
                        assert(before.map_values(|s: String| s@)[a] == before[a]@);
                    }
                }
                i
            },
        }
    }

    /// The limiter at position `i`, to be used in place.
    pub fn limiter_mut(&mut self, i: usize) -> (l: &mut L)
        requires
            i < old(self).limiters().len(),
        ensures
            *l == old(self).limiters()[i as int],
            final(self).limiters() == old(self).limiters().update(i as int, *final(l)),
            final(self).ids() == old(self).ids(),
            old(self).wf() ==> final(self).wf(),
    {
        &mut self.limiters[i]
    }
}

} // verus!
