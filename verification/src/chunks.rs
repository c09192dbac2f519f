//! Splitting long replies into Telegram-sized messages, and gathering a
//! downloaded file from the pieces it arrives in.

use vstd::prelude::*;
use crate::text::string_of;
use crate::text::chars_of;

verus! {

/// The most characters one Telegram message may carry.
pub const MSG_CH_LIMIT: usize = 4096;

/// All the pieces of `parts`, one after another.
pub open spec fn concat_all<A>(parts: Seq<Seq<A>>) -> Seq<A>
    decreases parts.len(),
{
    if parts.len() == 0 {
        Seq::empty()
    } else {
        concat_all(parts.drop_last()) + parts.last()
    }
}

/// How many messages a reply of `n` characters takes.
pub open spec fn chunk_count(n: nat) -> nat {
    if n % (MSG_CH_LIMIT as nat) == 0 {
        n / (MSG_CH_LIMIT as nat)
    } else {
        n / (MSG_CH_LIMIT as nat) + 1
    }
}

/// The `k`-th message of the reply `s`: the `k`-th run of `MSG_CH_LIMIT`
/// characters, the last run possibly shorter.
pub open spec fn chunk_at(s: Seq<char>, k: int) -> Seq<char> {
    let start = k * MSG_CH_LIMIT;
    let end = if (k + 1) * MSG_CH_LIMIT <= s.len() {
        (k + 1) * MSG_CH_LIMIT
    } else {
        s.len() as int
    };
    s.subrange(start, end)
}

/// The messages that the reply `s` is sent as, in order.
pub open spec fn message_chunks_spec(s: Seq<char>) -> Seq<Seq<char>> {
    Seq::new(chunk_count(s.len()), |k: int| chunk_at(s, k))
}

proof fn lemma_chunk_count(n: nat)
    ensures
        chunk_count(n) * MSG_CH_LIMIT >= n,
        chunk_count(n) == 0 || (chunk_count(n) - 1) * MSG_CH_LIMIT < n,
{
    vstd::arithmetic::div_mod::lemma_fundamental_div_mod(n as int, MSG_CH_LIMIT as int);
}

/// Splits a reply into the messages it is sent as: runs of `MSG_CH_LIMIT`
/// characters, the last one shorter; an empty reply gives no message.
pub fn message_chunks(resp: &str) -> (msgs: Vec<String>)
    ensures
        msgs@.map_values(|m: String| m@) == message_chunks_spec(resp@),
{
    let chars = chars_of(resp);
    let n = chars.len();
    let count = if n % MSG_CH_LIMIT == 0 {
        n / MSG_CH_LIMIT
    } else {
        n / MSG_CH_LIMIT + 1
    };
    proof {
        lemma_chunk_count(n as nat);
    }
    let mut msgs: Vec<String> = Vec::new();
    let mut k: usize = 0;
    while k < count
        invariant
            chars@ == resp@,
            n == chars@.len(),
            count == chunk_count(n as nat),
            count * MSG_CH_LIMIT >= n,
            count == 0 || (count - 1) * MSG_CH_LIMIT < n,
            k <= count,
            msgs@.len() == k,
            forall|j: int| 0 <= j < k ==> (#[trigger] msgs@[j])@ == chunk_at(resp@, j),
        decreases count - k,
    {
        let start = k * MSG_CH_LIMIT;
        let end = if n - start <= MSG_CH_LIMIT {
            n
        } else {
            start + MSG_CH_LIMIT
        };
        let mut piece: Vec<char> = Vec::new();
        let mut i = start;
        while i < end
            invariant
                start <= i <= end <= n,
                n == chars@.len(),
                piece@ == chars@.subrange(start as int, i as int),
            decreases end - i,
        {
            piece.push(chars[i]);
            assert(chars@.subrange(start as int, i + 1) == chars@.subrange(start as int, i as int).push(chars@[i as int]));
            i = i + 1;
        }
        let m = string_of(&piece);
        assert(m@ == chunk_at(resp@, k as int));
        msgs.push(m);
        k = k + 1;
    }
    let ghost views = msgs@.map_values(|m: String| m@);
    assert(views =~= message_chunks_spec(resp@));
    msgs
}

/// Joining the messages gives back the whole reply.
pub proof fn lemma_chunks_rejoin(s: Seq<char>)
    ensures
        concat_all(message_chunks_spec(s)) == s,
{
    lemma_chunk_count(s.len());
    let all = message_chunks_spec(s);
    lemma_chunks_prefix(s, chunk_count(s.len()));
    assert(all.take(all.len() as int) == all);
    assert(s.subrange(0, s.len() as int) == s);
}

proof fn lemma_chunks_prefix(s: Seq<char>, c: nat)
    requires
        c <= chunk_count(s.len()),
        chunk_count(s.len()) * MSG_CH_LIMIT >= s.len(),
    ensures
        concat_all(message_chunks_spec(s).take(c as int)) == s.subrange(
            0,
            if c * MSG_CH_LIMIT <= s.len() { c * MSG_CH_LIMIT } else { s.len() as int },
        ),
    decreases c,
{
    let all = message_chunks_spec(s);
    if c == 0 {
        assert(all.take(0) =~= Seq::<Seq<char>>::empty());
        assert(s.subrange(0, 0) =~= Seq::<char>::empty());
    } else {
        lemma_chunks_prefix(s, (c - 1) as nat);
        assert(all.take(c as int).drop_last() == all.take(c - 1));
        assert(all.take(c as int).last() == chunk_at(s, c - 1));
        let prev_end = (c - 1) * MSG_CH_LIMIT;
        assert(prev_end <= s.len()) by {
            lemma_chunk_count(s.len());
        }
        let end = if c * MSG_CH_LIMIT <= s.len() { c * MSG_CH_LIMIT } else { s.len() as int };
        assert(s.subrange(0, prev_end) + s.subrange(prev_end, end) =~= s.subrange(0, end));
    }
}

/// Every message is non-empty and holds at most `MSG_CH_LIMIT` characters.
pub proof fn lemma_chunks_bounded(s: Seq<char>)
    ensures
        forall|k: int|
            0 <= k < message_chunks_spec(s).len() ==> 0 < (#[trigger] message_chunks_spec(s)[k]).len()
                <= MSG_CH_LIMIT,
{
    lemma_chunk_count(s.len());
    assert forall|k: int| 0 <= k < message_chunks_spec(s).len() implies 0 < (
    #[trigger] message_chunks_spec(s)[k]).len() <= MSG_CH_LIMIT by {
        assert(k <= chunk_count(s.len()) - 1);
        assert(k * MSG_CH_LIMIT <= (chunk_count(s.len()) - 1) * MSG_CH_LIMIT) by (nonlinear_arith)
            requires
                k <= chunk_count(s.len()) - 1,
                0 <= k,
        ;
    }
}

/// The bytes of a file downloaded in pieces, the pieces put together in the
/// order they arrived.
pub fn concat_chunks(chunks: &Vec<Vec<u8>>) -> (bytes: Vec<u8>)
    ensures
        bytes@ == concat_all(chunks@.map_values(|c: Vec<u8>| c@)),
{
    let ghost parts = chunks@.map_values(|c: Vec<u8>| c@);
    let mut bytes: Vec<u8> = Vec::new();
    for k in 0..chunks.len()
        invariant
            parts == chunks@.map_values(|c: Vec<u8>| c@),
            bytes@ == concat_all(parts.take(k as int)),
    {
        let chunk = &chunks[k];
        let ghost before = bytes@;
        for i in 0..chunk.len()
            invariant
                bytes@ == before + chunk@.take(i as int),
        {
            bytes.push(chunk[i]);
            assert(chunk@.take(i + 1) == chunk@.take(i as int).push(chunk@[i as int]));
        }
        assert(chunk@.take(chunk.len() as int) == chunk@);
        assert(parts.take(k + 1).drop_last() == parts.take(k as int));
        assert(parts.take(k + 1).last() == chunk@);
    }
    assert(parts.take(chunks.len() as int) == parts);
    bytes
}

} // verus!
