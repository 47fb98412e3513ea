//! What a client makes of what the hub says, and what the stand-in for an agent does.

use crate::client::{
    first_with_id, first_with_method, greeting, has_id, has_method, outcome, prompt_params,
    ClientState,
};
use crate::codec::{parsed, parsed_bytes};
use crate::connection_laws::{said_method, said_params};
use crate::fake_agent::FakeState;
use crate::frame::{bytes_length, framed, said_length, FrameError};
use crate::json::{same, Tree};
use crate::numeral::decimal;
use crate::request_laws::texts_of;
use crate::rpc::{notice_message, request_message, result_message, Fault};
use crate::text::{occurs, trimmed};
use vstd::prelude::*;
use vstd::utf8::{decode_utf8, valid_utf8};

verus! {

/// An answer with an error is a failure, with the error's code and text, or with stand
/// -ins where it has none; any other is a success with its result, empty if it has
/// none.
pub proof fn answers_are_read(msg: Tree)
    ensures
        outcome(msg) == match msg.get("error"@) {
            Some(e) => Err::<Tree, Fault>(
                Fault {
                    code: match e.get("code"@) {
                        Some(Tree::Int(n)) => if i64::MIN <= n <= i64::MAX {
                            n
                        } else {
                            -1
                        },
                        _ => -1,
                    },
                    text: match e.get("message"@) {
                        Some(Tree::Str(s)) => s,
                        _ => "?"@,
                    },
                },
            ),
            None => Ok::<Tree, Fault>(
                match msg.get("result"@) {
                    Some(r) => r,
                    None => Tree::Object(map![]),
                },
            ),
        },
{
}

/// A client numbers its requests one by one, and sends each with its method and its
/// parameters; what it keeps for later it keeps behind what it kept before.
pub proof fn clients_number_their_requests(
    c: ClientState,
    method: Seq<char>,
    params: Tree,
    msg: Tree,
)
    requires
        c.next_id < i64::MAX,
    ensures
        ({
            let (d, r) = c.called(method, params);
            &&& r.id == c.next_id
            &&& r.msg == request_message(Tree::Int(c.next_id as int), method, params)
            &&& d == (ClientState { next_id: (c.next_id + 1) as i64, inbox: c.inbox })
        }),
        c.keeping(msg) == (ClientState { next_id: c.next_id, inbox: c.inbox.push(msg) }),
{
}

/// A client greets with the protocol's version, its kind, its name and its version,
/// and with what it can do; and sends a prompt as one block of text for its session.
pub proof fn clients_say_who_they_are(
    kind: Seq<char>,
    name: Seq<char>,
    version: Seq<char>,
    sid: Seq<char>,
    text: Seq<char>,
)
    ensures
        greeting(kind, name, version) == Tree::Object(
            map![
                "protocolVersion"@ => Tree::Int(1),
                "client"@ => Tree::Object(
                    map![
                        "kind"@ => Tree::Str(kind),
                        "name"@ => Tree::Str(name),
                        "version"@ => Tree::Str(version),
                    ],
                ),
                "capabilities"@ => Tree::Object(
                    map!["permissionUi"@ => Tree::Bool(true), "yolo"@ => Tree::Bool(false)],
                ),
            ],
        ),
        prompt_params(sid, text) == Tree::Object(
            map![
                "sessionId"@ => Tree::Str(sid),
                "prompt"@ => Tree::Array(
                    seq![
                        Tree::Object(
                            map!["type"@ => Tree::Str("text"@), "text"@ => Tree::Str(text)],
                        ),
                    ],
                ),
            ],
        ),
{
}

/// Of the messages that were kept, the oldest that has an id, or a method, is found;
/// none exactly if none has it.
pub proof fn oldest_kept_message_is_found(inbox: Seq<Tree>, id: Tree, method: Seq<char>)
    ensures
        first_with_id(inbox, id, 0) matches Some(i) ==> {
            &&& 0 <= i < inbox.len()
            &&& inbox[i].get("id"@) matches Some(t) && same(t, id)
            &&& forall|j: int|
                0 <= j < i ==> !((#[trigger] inbox[j]).get("id"@) matches Some(t) && same(t, id))
        },
        first_with_id(inbox, id, 0) is None ==> forall|j: int|
            0 <= j < inbox.len() ==> !((#[trigger] inbox[j]).get("id"@) matches Some(t) && same(
                t,
                id,
            )),
        first_with_method(inbox, method, 0) matches Some(i) ==> {
            &&& 0 <= i < inbox.len()
            &&& inbox[i].get("method"@) == Some(Tree::Str(method))
            &&& forall|j: int|
                0 <= j < i ==> (#[trigger] inbox[j]).get("method"@) != Some(Tree::Str(method))
        },
        first_with_method(inbox, method, 0) is None ==> forall|j: int|
            0 <= j < inbox.len() ==> (#[trigger] inbox[j]).get("method"@) != Some(
                Tree::Str(method),
            ),
{
    lemma_first_id(inbox, id, 0);
    lemma_first_method(inbox, method, 0);
}

proof fn lemma_first_id(inbox: Seq<Tree>, id: Tree, k: int)
    requires
        0 <= k <= inbox.len(),
    ensures
        first_with_id(inbox, id, k) matches Some(i) ==> {
            &&& k <= i < inbox.len()
            &&& has_id(inbox[i], id)
            &&& forall|j: int| k <= j < i ==> !has_id(#[trigger] inbox[j], id)
        },
        first_with_id(inbox, id, k) is None ==> forall|j: int|
            k <= j < inbox.len() ==> !has_id(#[trigger] inbox[j], id),
    decreases inbox.len() - k,
{
    if k < inbox.len() && !has_id(inbox[k], id) {
        lemma_first_id(inbox, id, k + 1);
    }
}

proof fn lemma_first_method(inbox: Seq<Tree>, method: Seq<char>, k: int)
    requires
        0 <= k <= inbox.len(),
    ensures
        first_with_method(inbox, method, k) matches Some(i) ==> {
            &&& k <= i < inbox.len()
            &&& has_method(inbox[i], method)
            &&& forall|j: int| k <= j < i ==> !has_method(#[trigger] inbox[j], method)
        },
        first_with_method(inbox, method, k) is None ==> forall|j: int|
            k <= j < inbox.len() ==> !has_method(#[trigger] inbox[j], method),
    decreases inbox.len() - k,
{
    if k < inbox.len() && !has_method(inbox[k], method) {
        lemma_first_method(inbox, method, k + 1);
    }
}

/// A message stands behind its length, in four bytes, the highest first; the four
/// bytes are worth the length. What is said of one that is too long is how long it
/// is, as far as four bytes can say.
pub proof fn frames_begin_with_the_length(data: Seq<u8>, a: u8, b: u8, c: u8, d: u8, e: FrameError)
    requires
        data.len() <= u32::MAX,
    ensures
        framed(data).len() == 4 + data.len(),
        framed(data).skip(4) == data,
        framed(data)[0] as nat * 16777216 + framed(data)[1] as nat * 65536 + framed(data)[2] as nat
            * 256 + framed(data)[3] as nat == data.len(),
        bytes_length(seq![a, b, c, d]) == a as nat * 16777216 + b as nat * 65536 + c as nat * 256
            + d as nat,
        said_length(data.len()) == data.len(),
        e.saying() == "hub frame too large: "@ + decimal(e.len as nat) + " (max 16777216)"@,
{
    let n = data.len();
    assert(framed(data).skip(4) =~= data);
    let p = n / 16777216;
    let q = (n / 65536) % 256;
    let r = (n / 256) % 256;
    let s = n % 256;
    assert(p < 256);
    assert(n == p * 16777216 + q * 65536 + r * 256 + s);
}

/// Bytes are read as JSON exactly if they are the text of some in UTF-8.
pub proof fn bytes_are_read_as_text(bytes: Seq<u8>)
    ensures
        valid_utf8(bytes) ==> parsed_bytes(bytes) == parsed(decode_utf8(bytes)),
        !valid_utf8(bytes) ==> parsed_bytes(bytes) is None,
{
}

/// The words that the stand-in says to a prompt, and then that the turn is over.
pub open spec fn stock_answer(sid: Seq<char>, id: Tree) -> Seq<Tree> {
    seq![
        notice_message(
            "session/update"@,
            Tree::Object(
                map![
                    "sessionId"@ => Tree::Str(sid),
                    "update"@ => Tree::Object(
                        map![
                            "sessionUpdate"@ => Tree::Str("agent_message_chunk"@),
                            "content"@ => Tree::Object(
                                map![
                                    "type"@ => Tree::Str("text"@),
                                    "text"@ => Tree::Str("hello from hub"@),
                                ],
                            ),
                        ],
                    ),
                ],
            ),
        ),
        result_message(id, Tree::Object(map!["stopReason"@ => Tree::Str("end_turn"@)])),
    ]
}

/// An answer under an id, if one is wanted.
pub open spec fn reply_to(id: Option<Tree>, result: Tree) -> Seq<Tree> {
    if id is Some {
        seq![result_message(id->0, result)]
    } else {
        Seq::empty()
    }
}

/// The stand-in says who it is, begins the session that it is asked for, or its own,
/// and answers a prompt with its words; one that wants permission it asks about first,
/// and answers when an answer comes. It says nothing to a request to stop, and
/// nothing of use to any other.
pub proof fn stand_in_does_as_an_agent(f: FakeState, msg: Tree)
    ensures
        ({
            let (g, out) = f.told(msg);
            let id = msg.get("id"@);
            let method = said_method(msg);
            let wanted = match said_params(msg).get("sessionId"@) {
                Some(Tree::Str(s)) => s,
                _ => f.sid,
            };
            let prompt = match said_params(msg).get("prompt"@) {
                Some(Tree::Array(blocks)) => texts_of(blocks).flatten(),
                _ => Seq::empty(),
            };
            if f.pending is Some && msg.get("method"@) is None && id is Some {
                &&& g == (FakeState { sid: f.sid, pending: None })
                &&& out == stock_answer(f.sid, f.pending->0)
            } else if method == "initialize"@ {
                &&& g == f
                &&& out == reply_to(
                    id,
                    Tree::Object(
                        map![
                            "protocolVersion"@ => Tree::Int(1),
                            "agentInfo"@ => Tree::Object(
                                map![
                                    "name"@ => Tree::Str("gtm-hub-fake-agent"@),
                                    "version"@ => Tree::Str("0.0.0"@),
                                ],
                            ),
                            "agentCapabilities"@ => Tree::Object(
                                map![
                                    "loadSession"@ => Tree::Bool(true),
                                    "resumeSession"@ => Tree::Bool(true),
                                ],
                            ),
                        ],
                    ),
                )
            } else if method == "session/new"@ {
                &&& g == f
                &&& out == reply_to(id, Tree::Object(map!["sessionId"@ => Tree::Str(f.sid)]))
            } else if method == "session/load"@ || method == "session/resume"@ {
                &&& g == (FakeState { sid: wanted, pending: f.pending })
                &&& out == reply_to(id, Tree::Object(map!["sessionId"@ => Tree::Str(wanted)]))
            } else if method == "session/prompt"@ {
                if occurs(prompt, "NEED_PERM"@) {
                    &&& g == (FakeState { sid: f.sid, pending: id })
                    &&& out == seq![
                        request_message(
                            Tree::Str("perm-1"@),
                            "session/request_permission"@,
                            Tree::Object(
                                map![
                                    "sessionId"@ => Tree::Str(f.sid),
                                    "toolCall"@ => Tree::Object(
                                        map![
                                            "toolCallId"@ => Tree::Str("t1"@),
                                            "title"@ => Tree::Str("echo"@),
                                        ],
                                    ),
                                ],
                            ),
                        ),
                    ]
                } else {
                    &&& g == f
                    &&& out == if id is Some {
                        stock_answer(f.sid, id->0)
                    } else {
                        Seq::empty()
                    }
                }
            } else if method == "session/cancel"@ {
                g == f && out == Seq::<Tree>::empty()
            } else {
                g == f && out == reply_to(id, Tree::Object(map![]))
            }
        }),
{
    if let Some(Tree::Array(blocks)) = said_params(msg).get("prompt"@) {
        crate::request_laws::lemma_prompt_blocks(blocks);
    }
}

/// The stand-in takes a line for the message that it holds, and passes over one that
/// holds none.
pub proof fn stand_in_reads_lines(f: FakeState, line: Seq<char>)
    ensures
        parsed(line) is None ==> f.read(line) == (f, Seq::<Tree>::empty()),
        parsed(line) matches Some(msg) ==> (trimmed(line).len() > 0 ==> f.read(line) == f.told(
            msg,
        )),
{
}

} // verus!
