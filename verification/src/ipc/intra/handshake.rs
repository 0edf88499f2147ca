//! How the two ends of a connection greet each other.

use crate::bytes::same_bytes;
use crate::channel::{
    bell_out, packet_order, receivers_leave, send_ran_out, senders_leave, wait_ran_out,
};
use crate::ipc::intra::Intra;
use crate::ipc::{Fault, TransportError};
use crate::time::Timeout;
use vstd::prelude::*;

verus! {

/// How long an end waits in a handshake, in milliseconds.
pub const HANDSHAKE_MILLIS: u64 = 1000;

/// How long an end waits in a handshake, in nanoseconds.
pub open spec fn handshake_nanos() -> nat {
    HANDSHAKE_MILLIS as nat * 1_000_000
}

/// One turn of a handshake.
#[derive(Debug)]
pub enum Turn {
    /// Send these bytes.
    Say(Vec<u8>),
    /// Receive these bytes, within the time of a handshake.
    Hear(Vec<u8>),
    /// Receive these bytes, however long it takes.
    Await(Vec<u8>),
}

/// `Turn`, with bytes in place of buffers.
pub enum TurnModel {
    Say(Seq<u8>),
    Hear(Seq<u8>),
    Await(Seq<u8>),
}

impl View for Turn {
    type V = TurnModel;

    open spec fn view(&self) -> TurnModel {
        match *self {
            Turn::Say(words) => TurnModel::Say(words@),
            Turn::Hear(words) => TurnModel::Hear(words@),
            Turn::Await(words) => TurnModel::Await(words@),
        }
    }
}

/// `"hey"`.
pub open spec fn hey() -> Seq<u8> {
    seq![0x68u8, 0x65, 0x79]
}

/// `"hello"`.
pub open spec fn hello() -> Seq<u8> {
    seq![0x68u8, 0x65, 0x6c, 0x6c, 0x6f]
}

/// `"hi"`.
pub open spec fn hi() -> Seq<u8> {
    seq![0x68u8, 0x69]
}

/// The turns that an end takes, one after the other.
pub open spec fn turns_of(is_server: bool) -> Seq<TurnModel> {
    if is_server {
        seq![TurnModel::Hear(hey()), TurnModel::Say(hello()), TurnModel::Hear(hi())]
    } else {
        seq![TurnModel::Say(hey()), TurnModel::Await(hello()), TurnModel::Say(hi())]
    }
}

/// In every turn, one of the two ends says what the other one waits to hear.
pub proof fn law_turns_match(i: int)
    requires
        0 <= i < turns_of(true).len(),
    ensures
        turns_of(false).len() == turns_of(true).len(),
        match turns_of(true)[i] {
            TurnModel::Say(words) => turns_of(false)[i] == TurnModel::Hear(words)
                || turns_of(false)[i] == TurnModel::Await(words),
            TurnModel::Hear(words) => turns_of(false)[i] == TurnModel::Say(words),
            TurnModel::Await(words) => turns_of(false)[i] == TurnModel::Say(words),
        },
{
}

/// What is said in some turns, in order.
pub open spec fn words_said(turns: Seq<TurnModel>) -> Seq<Seq<u8>>
    decreases turns.len(),
{
    if turns.len() == 0 {
        Seq::empty()
    } else {
        match turns.last() {
            TurnModel::Say(words) => words_said(turns.drop_last()).push(words),
            _ => words_said(turns.drop_last()),
        }
    }
}

/// What is heard in some turns, in order.
pub open spec fn words_heard(turns: Seq<TurnModel>) -> Seq<Seq<u8>>
    decreases turns.len(),
{
    if turns.len() == 0 {
        Seq::empty()
    } else {
        match turns.last() {
            TurnModel::Say(_) => words_heard(turns.drop_last()),
            TurnModel::Hear(words) => words_heard(turns.drop_last()).push(words),
            TurnModel::Await(words) => words_heard(turns.drop_last()).push(words),
        }
    }
}

/// The limits for saying what is said in some turns, in order: the time of a handshake for each.
pub open spec fn limits_said(turns: Seq<TurnModel>) -> Seq<Option<nat>> {
    Seq::new(words_said(turns).len(), |i: int| Some(handshake_nanos()))
}

/// The limits for hearing what is heard in some turns, in order.
pub open spec fn limits_heard(turns: Seq<TurnModel>) -> Seq<Option<nat>>
    decreases turns.len(),
{
    if turns.len() == 0 {
        Seq::empty()
    } else {
        match turns.last() {
            TurnModel::Say(_) => limits_heard(turns.drop_last()),
            TurnModel::Hear(_) => limits_heard(turns.drop_last()).push(Some(handshake_nanos())),
            TurnModel::Await(_) => limits_heard(turns.drop_last()).push(None),
        }
    }
}

/// One more turn.
proof fn lemma_words_of_next_turn(turns: Seq<TurnModel>, i: int)
    requires
        0 <= i < turns.len(),
    ensures
        words_said(turns.take(i + 1)) == words_said(turns.take(i)) + words_said(seq![turns[i]]),
        words_heard(turns.take(i + 1)) == words_heard(turns.take(i)) + words_heard(seq![turns[i]]),
        limits_said(turns.take(i + 1)) == limits_said(turns.take(i)) + limits_said(seq![turns[i]]),
        limits_heard(turns.take(i + 1)) == limits_heard(turns.take(i)) + limits_heard(
            seq![turns[i]],
        ),
{
    reveal_with_fuel(limits_heard, 2);
    reveal_with_fuel(words_said, 2);
    reveal_with_fuel(words_heard, 2);
    assert(turns.take(i + 1).drop_last() =~= turns.take(i));
    assert(seq![turns[i]].drop_last() =~= Seq::empty());
    assert(words_said(turns.take(i + 1)) =~= words_said(turns.take(i)) + words_said(
        seq![turns[i]],
    ));
    assert(words_heard(turns.take(i + 1)) =~= words_heard(turns.take(i)) + words_heard(
        seq![turns[i]],
    ));
    assert(limits_said(turns.take(i + 1)) =~= limits_said(turns.take(i)) + limits_said(
        seq![turns[i]],
    ));
    assert(limits_heard(turns.take(i + 1)) =~= limits_heard(turns.take(i)) + limits_heard(
        seq![turns[i]],
    ));
}

/// Over a whole handshake, each end hears all that the other one says, in the same order, and
/// nothing else.
pub proof fn law_ends_hear_each_other(is_server: bool)
    ensures
        words_heard(turns_of(is_server)) == words_said(turns_of(!is_server)),
        words_heard(turns_of(true)) == seq![hey(), hi()],
        words_heard(turns_of(false)) == seq![hello()],
        hey() == seq![0x68u8, 0x65, 0x79],
        hello() == seq![0x68u8, 0x65, 0x6c, 0x6c, 0x6f],
        hi() == seq![0x68u8, 0x69],
{
    reveal_with_fuel(words_said, 4);
    reveal_with_fuel(words_heard, 4);
    let server = turns_of(true);
    let client = turns_of(false);
    assert(server.drop_last().drop_last().drop_last() =~= Seq::empty());
    assert(client.drop_last().drop_last().drop_last() =~= Seq::empty());
    assert(words_heard(server) =~= seq![hey(), hi()]);
    assert(words_said(client) =~= seq![hey(), hi()]);
    assert(words_heard(client) =~= seq![hello()]);
    assert(words_said(server) =~= seq![hello()]);
}

/// When both ends of a new connection have greeted each other, each has received all that the other
/// one has sent: no words of the handshake are left behind.
pub proof fn law_handshake_leaves_nothing(
    is_server: bool,
    new_end: Intra,
    end: Intra,
    new_peer: Intra,
    peer: Intra,
)
    requires
        new_end.unused(),
        new_peer.unused(),
        Intra::went(new_end, turns_of(is_server), end),
        Intra::went(new_peer, turns_of(!is_server), peer),
    ensures
        end.recv_half().taken() == peer.send_half().put(),
        peer.recv_half().taken() == end.send_half().put(),
{
    law_ends_hear_each_other(is_server);
    law_ends_hear_each_other(!is_server);
    assert(new_end.recv_half().taken() =~= new_peer.send_half().put());
    assert(new_peer.recv_half().taken() =~= new_end.send_half().put());
}

/// So what an end receives first, after the handshake, is what the other end then sends first.
pub proof fn law_first_packet_comes_first(
    greeted_end: Intra,
    greeted_peer: Intra,
    end: Intra,
    peer: Intra,
    received: Seq<u8>,
    sent: Seq<u8>,
)
    requires
        greeted_end.recv_half().taken() == greeted_peer.send_half().put(),
        end.recv_half().taken() == greeted_end.recv_half().taken().push(received),
        peer.send_half().put() == greeted_peer.send_half().put().push(sent),
        Intra::linked(end, peer),
        end.orderly(),
        peer.orderly(),
    ensures
        received == sent,
{
    let n = greeted_end.recv_half().taken().len() as int;
    assert(end.recv_half().taken()[n] == received);
    assert(peer.send_half().put()[n] == sent);
}

/// The turns that an end takes, one after the other.
pub fn turns(is_server: bool) -> (turns: Vec<Turn>)
    ensures
        turns@.map_values(|t: Turn| t@) == turns_of(is_server),
{
    let hey: Vec<u8> = vec![0x68, 0x65, 0x79];
    let hello: Vec<u8> = vec![0x68, 0x65, 0x6c, 0x6c, 0x6f];
    let hi: Vec<u8> = vec![0x68, 0x69];
    assert(hey@ =~= self::hey());
    assert(hello@ =~= self::hello());
    assert(hi@ =~= self::hi());
    let turns: Vec<Turn> = if is_server {
        vec![Turn::Hear(hey), Turn::Say(hello), Turn::Hear(hi)]
    } else {
        vec![Turn::Say(hey), Turn::Await(hello), Turn::Say(hi)]
    };
    assert(turns@.map_values(|t: Turn| t@) =~= turns_of(is_server));
    turns
}

/// Whether what was received is what an end waits to hear.
pub fn heard(received: &Result<Vec<u8>, TransportError>, words: &Vec<u8>) -> (as_expected: bool)
    ensures
        as_expected == (received matches Ok(packet) && packet@ == words@),
{
    match received {
        Ok(packet) => same_bytes(packet, words),
        Err(_) => false,
    }
}

impl Intra {
    /// What it means that turns of a handshake went as they have to: the end has sent what it has
    /// to say, each once and in order, and has received what it has to hear, likewise, and was given
    /// the time for it that it has.
    pub open spec fn went(before: Intra, turns: Seq<TurnModel>, after: Intra) -> bool {
        &&& Intra::same_channels(before, after)
        &&& after.send_half().put() == before.send_half().put() + words_said(turns)
        &&& after.recv_half().taken() == before.recv_half().taken() + words_heard(turns)
        &&& after.send_half().limits() == before.send_half().limits() + limits_said(turns)
        &&& after.recv_half().limits() == before.recv_half().limits() + limits_heard(turns)
        &&& after.recv_half().terminations() == before.recv_half().terminations()
    }

    /// What it means that an end was kept from hearing some words, at whatever time: it received
    /// something else, it followed a request to terminate, or the other end has left it alone.
    pub open spec fn kept_from_hearing(before: Intra, words: Seq<u8>, after: Intra) -> bool {
        let (old_taken, taken) = (before.recv_half().taken(), after.recv_half().taken());
        let (old_count, count) = (
            before.recv_half().terminations(),
            after.recv_half().terminations(),
        );
        ||| taken == old_taken.push(taken.last()) && taken.last() != words && count == old_count
            && taken.is_prefix_of(packet_order(before.recv_half().channel()))
        ||| taken == old_taken && count == old_count + 1 && count <= bell_out(
            before.recv_half().bell(),
        )
        ||| taken == old_taken && count == old_count && senders_leave(before.recv_half().channel())
            && taken == packet_order(before.recv_half().channel())
    }

    /// What it means that a turn failed. An end that speaks was left alone by the other end, or the
    /// time of a handshake ran out; it has sent nothing. An end that listens was kept from hearing
    /// what it has to or, if its time is limited, received nothing for the time of a handshake.
    pub open spec fn missed(before: Intra, turn: TurnModel, after: Intra) -> bool {
        let (old_recv, recv) = (before.recv_half(), after.recv_half());
        &&& Intra::same_channels(before, after)
        &&& after.send_half().put() == before.send_half().put()
        &&& after.send_half().limits() == before.send_half().limits() + limits_said(seq![turn])
        &&& recv.limits() == old_recv.limits() + limits_heard(seq![turn])
        &&& match turn {
            TurnModel::Say(_) => {
                &&& recv == old_recv
                &&& receivers_leave(before.send_half().channel()) || send_ran_out(
                    before.send_half().channel(),
                    handshake_nanos(),
                )
            },
            TurnModel::Hear(words) => {
                ||| Intra::kept_from_hearing(before, words, after)
                ||| recv.taken() == old_recv.taken() && recv.terminations()
                    == old_recv.terminations() && wait_ran_out(
                    seq![old_recv.channel(), old_recv.bell()],
                    handshake_nanos(),
                )
            },
            TurnModel::Await(words) => Intra::kept_from_hearing(before, words, after),
        }
    }

    /// What it means that a handshake failed in this role: some turn failed, after those before it
    /// went as they have to.
    pub open spec fn handshake_missed(before: Intra, is_server: bool, after: Intra) -> bool {
        exists|i: int, between: Intra|
            {
                &&& 0 <= i < turns_of(is_server).len()
                &&& #[trigger] Intra::went(before, turns_of(is_server).take(i), between)
                &&& Intra::missed(between, turns_of(is_server)[i], after)
            }
    }

    /// Takes one turn. The answer is whether it went as it has to.
    fn take_turn(&mut self, turn: &Turn) -> (success: bool)
        ensures
            success ==> Intra::went(*old(self), seq![turn@], *final(self)),
            !success ==> Intra::missed(*old(self), turn@, *final(self)),
            old(self).orderly() ==> final(self).orderly(),
    {
        proof {
            reveal_with_fuel(words_said, 2);
            reveal_with_fuel(words_heard, 2);
            reveal_with_fuel(limits_heard, 2);
            assert(seq![turn@].drop_last() =~= Seq::empty());
            let (at_most, long) = (self.send_half().limits(), self.recv_half().limits());
            let (to_say, to_hear) = (limits_said(seq![turn@]), limits_heard(seq![turn@]));
            assert(to_say.len() == 0 ==> at_most + to_say =~= at_most);
            assert(to_say.len() == 1 ==> at_most + to_say =~= at_most.push(to_say[0]));
            assert(to_hear.len() == 0 ==> long + to_hear =~= long);
            assert(to_hear.len() == 1 ==> long + to_hear =~= long.push(to_hear[0]));
            let (put, taken) = (self.send_half().put(), self.recv_half().taken());
            let (said, words) = (words_said(seq![turn@]), words_heard(seq![turn@]));
            assert(said.len() == 0 ==> put + said =~= put);
            assert(said.len() == 1 ==> put + said =~= put.push(said[0]));
            assert(words.len() == 0 ==> taken + words =~= taken);
            assert(words.len() == 1 ==> taken + words =~= taken.push(words[0]));
        }
        let timeout = Timeout::from_millis(HANDSHAKE_MILLIS);
        match turn {
            Turn::Say(words) => self.send(words.as_slice(), Some(timeout)).is_ok(),
            Turn::Hear(words) => heard(&self.recv(Some(timeout)), words),
            Turn::Await(words) => heard(&self.recv(None), words),
        }
    }

    /// Greets the other end, in the role of the server or of the client.
    pub fn handshake(&mut self, is_server: bool) -> (result: Result<(), Fault>)
        ensures
            match result {
                Ok(_) => Intra::went(*old(self), turns_of(is_server), *final(self)),
                Err(fault) => fault == Fault::Handshake && Intra::handshake_missed(
                    *old(self),
                    is_server,
                    *final(self),
                ),
            },
            old(self).orderly() ==> final(self).orderly(),
    {
        let turns = turns(is_server);
        let ghost before = *self;
        let ghost models = turns@.map_values(|t: Turn| t@);
        let mut i: usize = 0;
        assert(models.take(0) =~= Seq::empty());
        while i < turns.len()
            invariant
                i <= turns@.len(),
                models == turns@.map_values(|t: Turn| t@),
                models == turns_of(is_server),
                before == *old(self),
                Intra::went(before, models.take(i as int), *self),
                before.orderly() ==> self.orderly(),
            decreases turns@.len() - i,
        {
            let ghost between = *self;
            assert(models[i as int] == turns@[i as int]@);
            if !self.take_turn(&turns[i]) {
                assert(Intra::went(before, turns_of(is_server).take(i as int), between));
                return Err(Fault::Handshake);
            }
            proof {
                lemma_words_of_next_turn(models, i as int);
                let next = models.take(i + 1);
                assert(self.send_half().put() =~= before.send_half().put() + words_said(next));
                assert(self.recv_half().taken() =~= before.recv_half().taken() + words_heard(next));
                assert(self.send_half().limits() =~= before.send_half().limits() + limits_said(
                    next,
                ));
                assert(self.recv_half().limits() =~= before.recv_half().limits() + limits_heard(
                    next,
                ));
            }
            i += 1;
        }
        assert(models.take(i as int) =~= models);
        Ok(())
    }
}

/// What is said and heard, turn by turn, and how long each may take: the time of a handshake, but
/// for what is awaited.
pub proof fn law_words_of_one_more_turn(turns: Seq<TurnModel>, words: Seq<u8>)
    ensures
        ({
            let say = turns.push(TurnModel::Say(words));
            let hear = turns.push(TurnModel::Hear(words));
            let wait = turns.push(TurnModel::Await(words));
            let second = Some(1_000_000_000nat);
            &&& words_said(say) == words_said(turns).push(words)
            &&& words_heard(say) == words_heard(turns)
            &&& words_said(hear) == words_said(turns)
            &&& words_heard(hear) == words_heard(turns).push(words)
            &&& words_said(wait) == words_said(turns)
            &&& words_heard(wait) == words_heard(turns).push(words)
            &&& limits_said(say) == limits_said(turns).push(second)
            &&& limits_heard(hear) == limits_heard(turns).push(second)
            &&& limits_heard(wait) == limits_heard(turns).push(None)
            &&& words_said(Seq::empty()).len() == 0
            &&& words_heard(Seq::empty()).len() == 0
        }),
{
    let say = turns.push(TurnModel::Say(words));
    let hear = turns.push(TurnModel::Hear(words));
    let wait = turns.push(TurnModel::Await(words));
    assert(say.drop_last() =~= turns);
    assert(hear.drop_last() =~= turns);
    assert(wait.drop_last() =~= turns);
    assert(limits_said(say) =~= limits_said(turns).push(Some(1_000_000_000nat)));
}

/// Turns that went as they have to have added just what is said in them to what the end has sent,
/// and just what is heard in them to what it has received.
pub proof fn law_turns_that_went(turns: Seq<TurnModel>, before: Intra, after: Intra)
    requires
        Intra::went(before, turns, after),
    ensures
        after.send_half().put() == before.send_half().put() + words_said(turns),
        after.recv_half().taken() == before.recv_half().taken() + words_heard(turns),
        after.recv_half().terminations() == before.recv_half().terminations(),
        after.send_half().channel() == before.send_half().channel(),
        after.recv_half().channel() == before.recv_half().channel(),
{
}

/// A turn that failed has said nothing, and has not heard what it has to. An end that waits without
/// a limit fails only because it heard something else, was told to terminate, or was left alone.
pub proof fn law_missed_turn(before: Intra, turn: TurnModel, words: Seq<u8>, after: Intra)
    requires
        Intra::missed(before, turn, after),
    ensures
        after.send_half().put() == before.send_half().put(),
        turn == TurnModel::Hear(words) || turn == TurnModel::Await(words)
            ==> after.recv_half().taken() != before.recv_half().taken().push(words),
        turn == TurnModel::Say(words) ==> receivers_leave(before.send_half().channel())
            || send_ran_out(before.send_half().channel(), 1_000_000_000),
        turn == TurnModel::Await(words) ==> {
            ||| after.recv_half().taken().len() == before.recv_half().taken().len() + 1
            ||| after.recv_half().terminations() == before.recv_half().terminations() + 1
            ||| senders_leave(before.recv_half().channel())
        },
        turn == TurnModel::Hear(words) ==> {
            ||| after.recv_half().taken().len() == before.recv_half().taken().len() + 1
            ||| after.recv_half().terminations() == before.recv_half().terminations() + 1
            ||| senders_leave(before.recv_half().channel())
            ||| wait_ran_out(
                seq![before.recv_half().channel(), before.recv_half().bell()],
                1_000_000_000,
            )
        },
{
    let taken = before.recv_half().taken();
    assert(taken.push(words).last() == words);
    assert(taken.push(words).len() == taken.len() + 1);
}

/// A turn is seen as what it is.
pub proof fn law_turn_is_seen_as_it_is(words: Vec<u8>)
    ensures
        Turn::Say(words)@ == TurnModel::Say(words@),
        Turn::Hear(words)@ == TurnModel::Hear(words@),
        Turn::Await(words)@ == TurnModel::Await(words@),
{
}

/// A handshake that failed has said the beginning of what it has to, up to the turn that failed, and
/// nothing more. It has not both said all that it has to and heard all that it has to.
pub proof fn law_failed_handshake(before: Intra, is_server: bool, after: Intra)
    requires
        Intra::handshake_missed(before, is_server, after),
    ensures
        exists|i: int|
            0 <= i < 3 && after.send_half().put() == before.send_half().put() + words_said(
                #[trigger] turns_of(is_server).take(i),
            ),
        after.send_half().put() != before.send_half().put() + words_said(turns_of(is_server))
            || after.recv_half().taken() != before.recv_half().taken() + words_heard(
            turns_of(is_server),
        ),
        Intra::same_channels(before, after),
{
    let turns = turns_of(is_server);
    let (i, between) = choose|i: int, between: Intra|
        {
            &&& 0 <= i < turns.len()
            &&& #[trigger] Intra::went(before, turns.take(i), between)
            &&& Intra::missed(between, turns[i], after)
        };
    assert(Intra::went(before, turns.take(i), between));
    assert(after.send_half().put() == before.send_half().put() + words_said(turns.take(i)));
    assert(turns.take(3) =~= turns);
    assert(turns.take(0) =~= Seq::empty());
    lemma_words_of_next_turn(turns, 0);
    lemma_words_of_next_turn(turns, 1);
    lemma_words_of_next_turn(turns, 2);
    reveal_with_fuel(words_said, 2);
    reveal_with_fuel(words_heard, 2);
    assert(seq![turns[0]].drop_last() =~= Seq::empty());
    assert(seq![turns[1]].drop_last() =~= Seq::empty());
    assert(seq![turns[2]].drop_last() =~= Seq::empty());
    let start = before.recv_half().taken();
    let heard_before = words_heard(turns.take(i));
    let taken = after.recv_half().taken();
    if !(turns[i] is Say) && taken == start + words_heard(turns) {
        let n = (start.len() + heard_before.len()) as int;
        assert((start + words_heard(turns))[n] == words_heard(turns)[heard_before.len() as int]);
        assert(taken.len() > n);
        assert(taken.last() == taken[n]);
    }
}

} // verus!
