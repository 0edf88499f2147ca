//! The ends of connections that nobody has claimed yet.

use crate::cbor::{cbor_text, decoded_text, text_from_cbor, text_to_cbor};
use crate::ipc::intra::handshake::turns_of;
use crate::ipc::intra::Intra;
use crate::ipc::Fault;
use vstd::prelude::*;

verus! {

/// An end of a connection, and the role that it plays in the handshake.
#[derive(Debug)]
pub struct RegisteredIpcEnds {
    pub is_server: bool,
    pub intra: Intra,
}

/// The ends of connections that nobody has claimed yet, each under its key.
#[derive(Debug)]
pub struct Pool {
    entries: Vec<(String, RegisteredIpcEnds)>,
}

impl View for Pool {
    type V = Map<Seq<char>, RegisteredIpcEnds>;

    closed spec fn view(&self) -> Map<Seq<char>, RegisteredIpcEnds> {
        entries_map(self.entries@)
    }
}

/// The entries as a map.
spec fn entries_map(entries: Seq<(String, RegisteredIpcEnds)>) -> Map<
    Seq<char>,
    RegisteredIpcEnds,
>
    decreases entries.len(),
{
    if entries.len() == 0 {
        Map::empty()
    } else {
        entries_map(entries.drop_last()).insert(entries.last().0@, entries.last().1)
    }
}

/// No key occurs twice.
spec fn distinct_keys(entries: Seq<(String, RegisteredIpcEnds)>) -> bool {
    forall|i: int, j: int|
        0 <= i < j < entries.len() ==> (#[trigger] entries[i]).0@ != (#[trigger] entries[j]).0@
}

/// The map has what the entries have.
proof fn lemma_entries_map(entries: Seq<(String, RegisteredIpcEnds)>)
    requires
        distinct_keys(entries),
    ensures
        forall|i: int|
            0 <= i < entries.len() ==> entries_map(entries).contains_key(
                (#[trigger] entries[i]).0@,
            ) && entries_map(entries)[entries[i].0@] == entries[i].1,
        forall|k: Seq<char>| #[trigger]
            entries_map(entries).contains_key(k) ==> exists|i: int|
                0 <= i < entries.len() && (#[trigger] entries[i]).0@ == k,
    decreases entries.len(),
{
    if entries.len() > 0 {
        let front = entries.drop_last();
        lemma_entries_map(front);
        assert forall|i: int| 0 <= i < entries.len() implies entries_map(entries).contains_key(
            (#[trigger] entries[i]).0@,
        ) && entries_map(entries)[entries[i].0@] == entries[i].1 by {
            if i < front.len() {
                assert(front[i] == entries[i]);
            }
        }
        assert forall|k: Seq<char>| #[trigger]
            entries_map(entries).contains_key(k) implies exists|i: int|
            0 <= i < entries.len() && (#[trigger] entries[i]).0@ == k by {
            if k == entries.last().0@ {
                assert(entries[entries.len() - 1].0@ == k);
            } else {
                assert(entries_map(front).contains_key(k));
                let i = choose|i: int| 0 <= i < front.len() && (#[trigger] front[i]).0@ == k;
                assert(entries[i].0@ == k);
            }
        }
    }
}

impl Pool {
    /// No two ends have the same key.
    pub closed spec fn wf(self) -> bool {
        distinct_keys(self.entries@)
    }

    /// A pool without any end.
    pub fn new() -> (pool: Pool)
        ensures
            pool.wf(),
            pool@ == Map::<Seq<char>, RegisteredIpcEnds>::empty(),
    {
        Pool { entries: Vec::new() }
    }

    /// Where the key stands, if it does.
    fn find(&self, key: &String) -> (position: Option<usize>)
        requires
            self.wf(),
        ensures
            match position {
                Some(i) => i < self.entries@.len() && self.entries@[i as int].0@ == key@
                    && self@.contains_key(key@) && self@[key@] == self.entries@[i as int].1,
                None => !self@.contains_key(key@),
            },
    {
        proof {
            lemma_entries_map(self.entries@);
        }
        let mut i: usize = 0;
        while i < self.entries.len()
            invariant
                self.wf(),
                i <= self.entries@.len(),
                forall|j: int| 0 <= j < i ==> (#[trigger] self.entries@[j]).0@ != key@,
            decreases self.entries@.len() - i,
        {
            if self.entries[i].0.eq(key) {
                proof {
                    lemma_entries_map(self.entries@);
                }
                return Some(i);
            }
            i += 1;
        }
        None
    }

    /// Puts an end under a key, unless the key is taken.
    pub fn add_ends(&mut self, key: String, ends: RegisteredIpcEnds) -> (result: Result<(), Fault>)
        requires
            old(self).wf(),
        ensures
            final(self).wf(),
            match result {
                Ok(_) => !old(self)@.contains_key(key@) && final(self)@ == old(self)@.insert(
                    key@,
                    ends,
                ),
                Err(fault) => fault == Fault::DuplicateKey && old(self)@.contains_key(key@)
                    && final(self)@ == old(self)@,
            },
    {
        if self.find(&key).is_some() {
            return Err(Fault::DuplicateKey);
        }
        proof {
            lemma_entries_map(self.entries@);
            assert(self.entries@.push((key, ends)).drop_last() =~= self.entries@);
        }
        self.entries.push((key, ends));
        Ok(())
    }

    /// Takes the end out that is under a key, if there is one.
    pub fn take_ends(&mut self, key: &String) -> (ends: Option<RegisteredIpcEnds>)
        requires
            old(self).wf(),
        ensures
            final(self).wf(),
            ends is Some <==> old(self)@.contains_key(key@),
            ends matches Some(e) ==> e == old(self)@[key@],
            final(self)@ == old(self)@.remove(key@),
    {
        let ghost before = self.entries@;
        match self.find(key) {
            None => {
                assert(self@ =~= old(self)@.remove(key@));
                None
            },
            Some(i) => {
                let (_, ends) = self.entries.remove(i);
                proof {
                    let after = self.entries@;
                    lemma_entries_map(before);
                    assert forall|a: int, b: int| 0 <= a < b < after.len() implies (
                    #[trigger] after[a]).0@ != (#[trigger] after[b]).0@ by {
                        let a2 = if a < i { a } else { a + 1 };
                        let b2 = if b < i { b } else { b + 1 };
                        assert(after[a] == before[a2]);
                        assert(after[b] == before[b2]);
                    }
                    lemma_entries_map(after);
                    let m = entries_map(after);
                    let expected = old(self)@.remove(key@);
                    assert forall|k: Seq<char>| #[trigger] m.contains_key(k)
                        == expected.contains_key(k) by {
                        if m.contains_key(k) {
                            let j = choose|j: int|
                                0 <= j < after.len() && (#[trigger] after[j]).0@ == k;
                            let j2 = if j < i { j } else { j + 1 };
                            assert(after[j] == before[j2]);
                        }
                        if expected.contains_key(k) {
                            let j2 = choose|j: int|
                                0 <= j < before.len() && (#[trigger] before[j]).0@ == k;
                            let j = if j2 < i { j2 } else { j2 - 1 };
                            assert(after[j] == before[j2]);
                        }
                    }
                    assert forall|k: Seq<char>| #[trigger] m.contains_key(k) implies m[k]
                        == expected[k] by {
                        let j = choose|j: int| 0 <= j < after.len() && (#[trigger] after[j]).0@ == k;
                        let j2 = if j < i { j } else { j + 1 };
                        assert(after[j] == before[j2]);
                    }
                    assert(m =~= expected);
                }
                Some(ends)
            },
        }
    }
}

impl Intra {
    /// Makes a new connection, leaves its two ends in the pool under the two keys, and gives for
    /// each end the description by which it is claimed, first the server's. It is a fault if a
    /// key is taken, or if the keys are the same.
    pub fn arguments_for_both_ends(
        pool: &mut Pool,
        key_server: String,
        key_client: String,
    ) -> (result: Result<(Vec<u8>, Vec<u8>), Fault>)
        requires
            old(pool).wf(),
        ensures
            final(pool).wf(),
            match result {
                Ok((server, client)) => {
                    &&& server@ == cbor_text(key_server@)
                    &&& client@ == cbor_text(key_client@)
                    &&& registered(old(pool)@, key_server@, key_client@, final(pool)@)
                },
                Err(fault) => {
                    &&& fault == Fault::DuplicateKey
                    &&& old(pool)@.contains_key(key_server@) || old(pool)@.contains_key(key_client@)
                        || key_server@ == key_client@
                    &&& final(pool)@ == old(pool)@
                },
            },
    {
        if key_server.eq(&key_client) || pool.find(&key_server).is_some() || pool.find(
            &key_client,
        ).is_some() {
            return Err(Fault::DuplicateKey);
        }
        let server_arguments = text_to_cbor(key_server.as_str());
        let client_arguments = text_to_cbor(key_client.as_str());
        let (intra_a, intra_b) = Intra::new_both_ends();
        let server_added = pool.add_ends(
            key_server,
            RegisteredIpcEnds { is_server: true, intra: intra_a },
        );
        let client_added = pool.add_ends(
            key_client,
            RegisteredIpcEnds { is_server: false, intra: intra_b },
        );
        assert(server_added is Ok && client_added is Ok);
        assert(pool@.remove(key_server@).remove(key_client@) =~= old(pool)@);
        Ok((server_arguments.unwrap(), client_arguments.unwrap()))
    }

    /// Takes the end out of the pool that a description stands for. It is a fault if the
    /// description cannot be read, or if there is no such end.
    pub fn claim(pool: &mut Pool, data: &[u8]) -> (result: Result<RegisteredIpcEnds, Fault>)
        requires
            old(pool).wf(),
        ensures
            final(pool).wf(),
            claimed(decoded_text(data@), old(pool)@, result, final(pool)@),
            forall|key: Seq<char>|
                data@ == #[trigger] cbor_text(key) ==> claimed(
                    Some(key),
                    old(pool)@,
                    result,
                    final(pool)@,
                ),
    {
        match text_from_cbor(data) {
            Ok(key) => match pool.take_ends(&key) {
                Some(ends) => Ok(ends),
                None => {
                    assert(pool@ =~= old(pool)@);
                    Err(Fault::UnknownKey)
                },
            },
            Err(_) => Err(Fault::BadArguments),
        }
    }

    /// The end of a connection that was claimed, once it has greeted the other end.
    pub fn new(ends: RegisteredIpcEnds) -> (result: Result<Intra, Fault>)
        ensures
            match result {
                Ok(intra) => Intra::went(ends.intra, turns_of(ends.is_server), intra) && (
                ends.intra.orderly() ==> intra.orderly()),
                Err(fault) => fault == Fault::Handshake && exists|after: Intra| #[trigger]
                    Intra::handshake_missed(ends.intra, ends.is_server, after),
            },
    {
        let mut intra = ends.intra;
        match intra.handshake(ends.is_server) {
            Ok(_) => Ok(intra),
            Err(fault) => Err(fault),
        }
    }
}

/// What making a connection adds to a pool: two ends under two new keys, which are those of the two
/// ends of a new connection.
pub open spec fn registered(
    before: Map<Seq<char>, RegisteredIpcEnds>,
    key_server: Seq<char>,
    key_client: Seq<char>,
    after: Map<Seq<char>, RegisteredIpcEnds>,
) -> bool {
    &&& !before.contains_key(key_server)
    &&& !before.contains_key(key_client)
    &&& key_server != key_client
    &&& after.dom() == before.dom().insert(key_server).insert(key_client)
    &&& after.remove(key_server).remove(key_client) == before
    &&& after[key_server].is_server
    &&& !after[key_client].is_server
    &&& Intra::linked(after[key_server].intra, after[key_client].intra)
    &&& after[key_server].intra.bounded()
    &&& after[key_client].intra.bounded()
    &&& after[key_server].intra.unused()
    &&& after[key_client].intra.unused()
    &&& after[key_server].intra.orderly()
    &&& after[key_client].intra.orderly()
}

/// What claiming an end gives, and what it leaves in the pool, when the description is that of a
/// key, or of none.
pub open spec fn claimed(
    key: Option<Seq<char>>,
    before: Map<Seq<char>, RegisteredIpcEnds>,
    result: Result<RegisteredIpcEnds, Fault>,
    after: Map<Seq<char>, RegisteredIpcEnds>,
) -> bool {
    match key {
        Some(k) => if before.contains_key(k) {
            result == Ok::<RegisteredIpcEnds, Fault>(before[k]) && after == before.remove(k)
        } else {
            result == Err::<RegisteredIpcEnds, Fault>(Fault::UnknownKey) && after == before
        },
        None => result == Err::<RegisteredIpcEnds, Fault>(Fault::BadArguments) && after == before,
    }
}

/// Once a connection was made, its two descriptions give its two ends, which are linked and play
/// different roles, and then the pool is as it was before. Neither end can be claimed again.
pub proof fn law_described_ends_are_claimed(
    key_server: Seq<char>,
    key_client: Seq<char>,
    pools: (
        Map<Seq<char>, RegisteredIpcEnds>,
        Map<Seq<char>, RegisteredIpcEnds>,
        Map<Seq<char>, RegisteredIpcEnds>,
        Map<Seq<char>, RegisteredIpcEnds>,
    ),
    server: Result<RegisteredIpcEnds, Fault>,
    client: Result<RegisteredIpcEnds, Fault>,
)
    requires
        registered(pools.0, key_server, key_client, pools.1),
        claimed(Some(key_server), pools.1, server, pools.2),
        claimed(Some(key_client), pools.2, client, pools.3),
    ensures
        server matches Ok(s) && s.is_server,
        client matches Ok(c) && !c.is_server,
        Intra::linked(server->Ok_0.intra, client->Ok_0.intra),
        pools.3 == pools.0,
        !pools.3.contains_key(key_server),
        !pools.3.contains_key(key_client),
{
}

/// A claim gives the end just when its key is there, and it is the one under the key; no other end
/// goes with it. A key that is not there, and a description that cannot be read, each have their
/// fault, and then the pool stays as it is.
pub proof fn law_claim_gives_what_is_under_the_key(
    key: Option<Seq<char>>,
    other: Seq<char>,
    before: Map<Seq<char>, RegisteredIpcEnds>,
    result: Result<RegisteredIpcEnds, Fault>,
    after: Map<Seq<char>, RegisteredIpcEnds>,
)
    requires
        claimed(key, before, result, after),
    ensures
        result is Ok <==> key is Some && before.contains_key(key->0),
        result matches Ok(ends) ==> ends == before[key->0] && !after.contains_key(key->0),
        key is None ==> result == Err::<RegisteredIpcEnds, Fault>(Fault::BadArguments),
        key is Some && !before.contains_key(key->0) ==> result == Err::<RegisteredIpcEnds, Fault>(
            Fault::UnknownKey,
        ),
        result is Err ==> after == before,
        key != Some(other) ==> (after.contains_key(other) <==> before.contains_key(other)),
        key != Some(other) && before.contains_key(other) ==> after[other] == before[other],
{
}

/// A connection that was made adds its two ends, and nothing else, to the pool.
pub proof fn law_connection_adds_two_ends(
    before: Map<Seq<char>, RegisteredIpcEnds>,
    key_server: Seq<char>,
    key_client: Seq<char>,
    after: Map<Seq<char>, RegisteredIpcEnds>,
    other: Seq<char>,
)
    requires
        registered(before, key_server, key_client, after),
    ensures
        !before.contains_key(key_server),
        !before.contains_key(key_client),
        after.contains_key(key_server) && after[key_server].is_server,
        after.contains_key(key_client) && !after[key_client].is_server,
        Intra::linked(after[key_server].intra, after[key_client].intra),
        after[key_server].intra.unused() && after[key_client].intra.unused(),
        after[key_server].intra.bounded() && after[key_client].intra.bounded(),
        other != key_server && other != key_client ==> (after.contains_key(other)
            <==> before.contains_key(other)),
        other != key_server && other != key_client && before.contains_key(other) ==> after[other]
            == before[other],
{
    let back = after.remove(key_server).remove(key_client);
    if other != key_server && other != key_client {
        assert(back.contains_key(other) <==> after.contains_key(other));
    }
}

} // verus!
