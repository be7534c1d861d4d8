//! The protocol client's decision logic: which packets each exchange
//! sends, what each reply means, and how a fragmented response is
//! reassembled. The transport only moves bytes; every choice the client
//! makes — accept or reject an authentication reply, keep or stop
//! collecting fragments, retry or propagate a failed write — is a pure
//! function here, proved against the protocol's rules.

use vstd::prelude::*;
use vstd::string::StringExecFns;
use vstd::utf8::encode_utf8;

use crate::RconError;
use crate::packet::RconPacket;

verus! {

/// The type code of a command-execution packet; the server also answers
/// authentication with it.
pub const EXEC_COMMAND: i32 = 2;

/// The type code of an authenticate request.
pub const AUTHENTICATE: i32 = 3;

/// The fixed identifier every real request carries.
pub const PRIMARY_ID: i32 = 0xDEC0DED;

/// The distinct identifier of the dummy trailing request whose reply marks
/// the end of a fragmented response. Nothing depends on its value beyond
/// being unequal to `PRIMARY_ID` and to the failure sentinel `-1`.
pub const SENTINEL_ID: i32 = 0xB1ADED;

/// The id a server puts on its reply to an authenticate request it
/// rejects.
pub const AUTH_FAILURE_ID: i32 = -1;

/// Builds the authenticate request: the primary id, the authenticate type,
/// and the password as payload.
pub fn auth_packet(password: &str) -> (r: RconPacket)
    requires
        encode_utf8(password@).len() + 10 <= i32::MAX,
    ensures
        r.encodes(PRIMARY_ID, AUTHENTICATE, password@),
{
    RconPacket::new(PRIMARY_ID, AUTHENTICATE, password)
}

/// What an authentication reply means: the failure sentinel id rejects the
/// password, any other id — the protocol has no confirmable success token
/// — accepts it.
pub open spec fn spec_auth_outcome(reply_id: i32) -> Result<(), RconError> {
    if reply_id == AUTH_FAILURE_ID {
        Err(RconError::AuthenticationFailed)
    } else {
        Ok(())
    }
}

/// Judges the one reply to an authenticate request.
pub fn auth_outcome(reply: &RconPacket) -> (r: Result<(), RconError>)
    ensures
        r == spec_auth_outcome(reply.id),
{
    if reply.get_id() == AUTH_FAILURE_ID {
        Err(RconError::AuthenticationFailed)
    } else {
        Ok(())
    }
}

/// Whatever the password was, a reply carrying the failure sentinel id
/// means the authentication failed.
pub proof fn lemma_auth_rejected(password: Seq<char>, reply: RconPacket)
    requires
        reply.id == AUTH_FAILURE_ID,
    ensures
        spec_auth_outcome(reply.id) == Err::<(), RconError>(RconError::AuthenticationFailed),
{
}

/// A server that echoes the request's id back authenticates the client:
/// the echoed primary id is not the failure sentinel.
pub proof fn lemma_auth_echo_accepted(reply: RconPacket)
    requires
        reply.id == PRIMARY_ID,
    ensures
        spec_auth_outcome(reply.id) == Ok::<(), RconError>(()),
{
}

/// Builds the two packets of one command execution: the real command under
/// the primary id, then the empty dummy request under the sentinel id
/// whose reply will mark the end of the response.
pub fn exec_request(command: &str) -> (r: (RconPacket, RconPacket))
    requires
        encode_utf8(command@).len() + 10 <= i32::MAX,
    ensures
        r.0.encodes(PRIMARY_ID, EXEC_COMMAND, command@),
        r.1.encodes(SENTINEL_ID, EXEC_COMMAND, Seq::<char>::empty()),
{
    let command_packet = RconPacket::new(PRIMARY_ID, EXEC_COMMAND, command);
    let empty = "";
    proof {
        reveal_strlit("");
        assert(empty@ =~= Seq::<char>::empty());
    }
    let follow_up_packet = RconPacket::new(SENTINEL_ID, EXEC_COMMAND, empty);
    (command_packet, follow_up_packet)
}

/// What one reply tells the reassembly loop to do next.
#[derive(Clone, Copy, Debug, PartialEq, Eq, Structural)]
pub enum ReplyStep {
    /// The reply was a fragment of the response; keep reading.
    Fragment,
    /// The reply answered the dummy trailing request: every fragment has
    /// arrived and the response is complete.
    Complete,
    /// The reply matched neither id: the session is desynchronized.
    Desync,
}

/// Folds one reply into the response collected so far: a primary-id reply
/// appends its text, a sentinel-id reply closes the response unchanged,
/// and any other id leaves it unchanged and condemns the session.
pub fn absorb_reply(response: &mut String, reply: &RconPacket) -> (r: ReplyStep)
    ensures
        reply.id == PRIMARY_ID ==> r == ReplyStep::Fragment && final(response)@ == old(response)@
            + reply.spec_text(),
        reply.id == SENTINEL_ID ==> r == ReplyStep::Complete && final(response)@ == old(response)@,
        reply.id != PRIMARY_ID && reply.id != SENTINEL_ID ==> r == ReplyStep::Desync && final(
            response)@ == old(response)@,
{
    if reply.get_id() == PRIMARY_ID {
        let fragment = reply.get_data_string();
        response.append(fragment.as_str());
        ReplyStep::Fragment
    } else if reply.get_id() == SENTINEL_ID {
        ReplyStep::Complete
    } else {
        ReplyStep::Desync
    }
}

/// The response that a sequence of replies reassembles to: the texts of
/// the primary-id replies before the first sentinel-id reply, in order;
/// `UnexpectedResponseId` if any other id comes first; `TruncatedStream`
/// if the replies run out before a sentinel.
pub open spec fn spec_reassemble(replies: Seq<RconPacket>) -> Result<Seq<char>, RconError>
    decreases replies.len(),
{
    if replies.len() == 0 {
        Err(RconError::TruncatedStream)
    } else if replies[0].id == PRIMARY_ID {
        match spec_reassemble(replies.drop_first()) {
            Ok(rest) => Ok(replies[0].spec_text() + rest),
            Err(e) => Err(e),
        }
    } else if replies[0].id == SENTINEL_ID {
        Ok(Seq::<char>::empty())
    } else {
        Err(RconError::UnexpectedResponseId)
    }
}

/// Reassembles a response from the replies one command execution
/// received, in the order they arrived.
pub fn reassemble(replies: &Vec<RconPacket>) -> (r: Result<String, RconError>)
    ensures
        r matches Ok(s) ==> spec_reassemble(replies@) == Ok::<Seq<char>, RconError>(s@),
        r matches Err(e) ==> spec_reassemble(replies@) == Err::<Seq<char>, RconError>(e),
{
    let mut response = String::new();
    let mut i: usize = 0;
    proof {
        assert(replies@.skip(0) =~= replies@);
        if spec_reassemble(replies@) is Ok {
            assert(Seq::<char>::empty() + spec_reassemble(replies@)->Ok_0 =~= spec_reassemble(
                replies@)->Ok_0);
        }
    }
    loop
        invariant
            i <= replies@.len(),
            spec_reassemble(replies@) matches Ok(s) ==> ({
                &&& spec_reassemble(replies@.skip(i as int)) is Ok
                &&& s == response@ + spec_reassemble(replies@.skip(i as int))->Ok_0
            }),
            spec_reassemble(replies@) matches Err(e) ==> spec_reassemble(
                replies@.skip(i as int),
            ) == Err::<Seq<char>, RconError>(e),
        decreases replies@.len() - i,
    {
        proof {
            assert(replies@.skip(i as int).len() == replies@.len() - i);
        }
        if i == replies.len() {
            return Err(RconError::TruncatedStream);
        }
        proof {
            assert(replies@.skip(i as int)[0] == replies@[i as int]);
            assert(replies@.skip(i as int).drop_first() =~= replies@.skip(i + 1));
        }
        let step = absorb_reply(&mut response, &replies[i]);
        match step {
            ReplyStep::Fragment => {
                i += 1;
            },
            ReplyStep::Complete => {
                return Ok(response);
            },
            ReplyStep::Desync => {
                return Err(RconError::UnexpectedResponseId);
            },
        }
    }
}

/// The texts of a sequence of reply packets, concatenated in order.
pub open spec fn concat_texts(replies: Seq<RconPacket>) -> Seq<char>
    decreases replies.len(),
{
    if replies.len() == 0 {
        Seq::<char>::empty()
    } else {
        replies[0].spec_text() + concat_texts(replies.drop_first())
    }
}

/// A fragmented response is reassembled whole: when the first `k` replies
/// carry the primary id and the reply after them carries the sentinel id,
/// reassembly yields the `k` fragments' texts concatenated in order.
pub proof fn lemma_reassemble_fragments(replies: Seq<RconPacket>, k: int)
    requires
        0 <= k < replies.len(),
        forall|i: int| 0 <= i < k ==> replies[i].id == PRIMARY_ID,
        replies[k].id == SENTINEL_ID,
    ensures
        spec_reassemble(replies) == Ok::<Seq<char>, RconError>(
            concat_texts(replies.subrange(0, k)),
        ),
    decreases k,
{
    if k == 0 {
        assert(replies.subrange(0, 0) =~= Seq::<RconPacket>::empty());
    } else {
        assert(replies[0].id == PRIMARY_ID);
        let rest = replies.drop_first();
        assert(rest[k - 1] == replies[k]);
        lemma_reassemble_fragments(rest, k - 1);
        assert(rest.subrange(0, k - 1) =~= replies.subrange(0, k).drop_first());
        assert(replies.subrange(0, k)[0] == replies[0]);
    }
}

/// Zero-fragment case: a response whose first reply already carries the
/// sentinel id reassembles to the empty text.
pub proof fn lemma_reassemble_empty(replies: Seq<RconPacket>)
    requires
        replies.len() > 0,
        replies[0].id == SENTINEL_ID,
    ensures
        spec_reassemble(replies) == Ok::<Seq<char>, RconError>(Seq::<char>::empty()),
{
}

/// Desync: when, before any sentinel-id reply, a reply arrives whose id
/// matches neither the primary nor the sentinel id, reassembly fails with
/// `UnexpectedResponseId`.
pub proof fn lemma_reassemble_desync(replies: Seq<RconPacket>, k: int)
    requires
        0 <= k < replies.len(),
        forall|i: int| 0 <= i < k ==> replies[i].id == PRIMARY_ID,
        replies[k].id != PRIMARY_ID,
        replies[k].id != SENTINEL_ID,
    ensures
        spec_reassemble(replies) == Err::<Seq<char>, RconError>(RconError::UnexpectedResponseId),
    decreases k,
{
    if k == 0 {
    } else {
        let rest = replies.drop_first();
        assert(rest[k - 1] == replies[k]);
        lemma_reassemble_desync(rest, k - 1);
    }
}

/// The outcome the transport reports for one attempt to write a packet.
#[derive(Clone, Copy, Debug, PartialEq, Eq, Structural)]
pub enum WriteAttempt {
    /// The write went through in full.
    Completed,
    /// The write was cut short by a transient interruption and may safely
    /// be attempted again.
    Interrupted,
    /// The write failed for any other reason.
    Failed,
}

/// The one retry rule of the client: a write is attempted again exactly
/// when the transport reported a transient interruption.
pub open spec fn spec_retry_write(a: WriteAttempt) -> bool {
    a is Interrupted
}

/// Decides whether a failed write attempt is tried again.
pub fn retry_write(a: &WriteAttempt) -> (r: bool)
    ensures
        r == spec_retry_write(*a),
{
    match a {
        WriteAttempt::Interrupted => true,
        _ => false,
    }
}

/// Where a send resolves, given the outcomes of its successive write
/// attempts: `Ok` with the index of the attempt that went through, after
/// interruptions alone; `WriteFailed` as soon as any attempt fails for
/// another reason — or if the outcomes run out with every attempt
/// interrupted.
pub open spec fn spec_resolve_send(attempts: Seq<WriteAttempt>) -> Result<int, RconError>
    decreases attempts.len(),
{
    if attempts.len() == 0 {
        Err(RconError::WriteFailed)
    } else if attempts[0] is Completed {
        Ok(0)
    } else if attempts[0] is Interrupted {
        match spec_resolve_send(attempts.drop_first()) {
            Ok(i) => Ok(i + 1),
            Err(e) => Err(e),
        }
    } else {
        Err(RconError::WriteFailed)
    }
}

/// Replays a sequence of write-attempt outcomes through the retry rule.
pub fn resolve_send(attempts: &Vec<WriteAttempt>) -> (r: Result<usize, RconError>)
    ensures
        r matches Ok(i) ==> spec_resolve_send(attempts@) == Ok::<int, RconError>(i as int),
        r matches Err(e) ==> spec_resolve_send(attempts@) == Err::<int, RconError>(e),
{
    let mut i: usize = 0;
    proof {
        assert(attempts@.skip(0) =~= attempts@);
    }
    loop
        invariant
            i <= attempts@.len(),
            spec_resolve_send(attempts@) matches Ok(n) ==> ({
                &&& spec_resolve_send(attempts@.skip(i as int)) is Ok
                &&& n == i + spec_resolve_send(attempts@.skip(i as int))->Ok_0
            }),
            spec_resolve_send(attempts@) matches Err(e) ==> spec_resolve_send(
                attempts@.skip(i as int),
            ) == Err::<int, RconError>(e),
        decreases attempts@.len() - i,
    {
        proof {
            assert(attempts@.skip(i as int).len() == attempts@.len() - i);
        }
        if i == attempts.len() {
            return Err(RconError::WriteFailed);
        }
        proof {
            assert(attempts@.skip(i as int)[0] == attempts@[i as int]);
            assert(attempts@.skip(i as int).drop_first() =~= attempts@.skip(i + 1));
        }
        let a = attempts[i];
        match a {
            WriteAttempt::Completed => {
                return Ok(i);
            },
            WriteAttempt::Interrupted => {
                i += 1;
            },
            WriteAttempt::Failed => {
                return Err(RconError::WriteFailed);
            },
        }
    }
}

/// Interrupted-write retry: when the first `k` attempts are interrupted
/// and attempt `k` goes through, the send resolves at attempt `k` — the
/// packet is transmitted exactly once, and nothing is surfaced to the
/// caller.
pub proof fn lemma_interrupted_write_retried(attempts: Seq<WriteAttempt>, k: int)
    requires
        0 <= k < attempts.len(),
        forall|i: int| 0 <= i < k ==> attempts[i] is Interrupted,
        attempts[k] is Completed,
    ensures
        spec_resolve_send(attempts) == Ok::<int, RconError>(k),
    decreases k,
{
    if k == 0 {
    } else {
        let rest = attempts.drop_first();
        assert(rest[k - 1] == attempts[k]);
        lemma_interrupted_write_retried(rest, k - 1);
    }
}

} // verus!
